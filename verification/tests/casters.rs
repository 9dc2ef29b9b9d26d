use maze_raycaster::fixed::UNIT;
use maze_raycaster::framebuffer::stake_span;
use maze_raycaster::map::GridMap;
use maze_raycaster::player::{Player, DEFAULT_FOV};
use maze_raycaster::ray_caster::{RayCaster, BLACK, CASTER_STEP, RED, WHITE};
use maze_raycaster::renderer::column_ray;
use maze_raycaster::texture::Texture;
use maze_raycaster::trig::{TrigTable, TURN};

const U: i32 = UNIT as i32;

fn sine_table() -> TrigTable {
    let sines: Vec<i32> = (0..TURN)
        .map(|i| {
            let radians = i as f64 * std::f64::consts::TAU / TURN as f64;
            (radians.sin() * UNIT as f64).round() as i32
        })
        .collect();
    TrigTable::new(sines).expect("a table of rounded sines is valid")
}

fn stripes() -> Texture {
    Texture::new(4, 2, vec![0x10, 0x11, 0x12, 0x13, 0x20, 0x21, 0x22, 0x23]).expect("eight texels")
}

fn caster() -> RayCaster {
    let map = GridMap::load("+---+\n|p  |\n|  g|\n|   |\n+---+\n").expect("a valid maze");
    let player = Player::new(&map);
    RayCaster::new(map, player, stripes())
}

#[test]
fn the_caster_turns_its_player() {
    let mut caster = caster();
    caster.rotate_player(-600);
    assert_eq!(caster.player.angle, 35_400);
    caster.rotate_player(1_200);
    assert_eq!(caster.player.angle, 600);
}

#[test]
fn the_player_moves_freely_through_empty_cells() {
    let trig = sine_table();
    let mut caster = caster();
    caster.move_player_forward(&trig, U);
    assert_eq!((caster.player.x, caster.player.y), (2 * U + U / 2, U + U / 2));
    caster.move_player_forward(&trig, 1_000);
    assert_eq!((caster.player.x, caster.player.y), (2 * U + U / 2 + 1_000, U + U / 2));
    caster.move_player_backward(&trig, 2_000);
    assert_eq!((caster.player.x, caster.player.y), (2 * U + U / 2 - 1_000, U + U / 2));
}

#[test]
fn a_player_that_is_not_in_an_empty_cell_is_centred() {
    let trig = sine_table();
    let mut caster = caster();
    caster.move_player_forward(&trig, 10);
    // The start cell is marked, not empty.
    assert_eq!((caster.player.x, caster.player.y), (U + U / 2, U + U / 2));
    caster.move_player_forward(&trig, 2 * U + U / 2 + 7);
    assert_eq!((caster.player.x, caster.player.y), (4 * U + U / 2, U + U / 2));
    caster.move_player_forward(&trig, 3 * U);
    assert_eq!((caster.player.x, caster.player.y), (7 * U + U / 2, U + U / 2));
    caster.player.x = -5;
    caster.player.y = -U - 1;
    caster.move_player_backward(&trig, 0);
    assert_eq!((caster.player.x, caster.player.y), (-U / 2, -2 * U + U / 2));
    caster.player.x = i32::MAX;
    caster.player.y = i32::MIN;
    caster.move_player_forward(&trig, 0);
    assert_eq!((caster.player.x, caster.player.y), (32_767 * U + U / 2, -32_768 * U + U / 2));
}

#[test]
fn the_view_from_above_shows_cells_and_player() {
    let caster = caster();
    let buffer = caster.render_2d(120, 110);
    assert_eq!(buffer.len(), 120 * 110);
    let at = |x: usize, y: usize| buffer[y * 120 + x];
    // The player stands at pixel 30 of both axes; its mark reaches from 28 to 32.
    for y in 0..110 {
        for x in 0..120 {
            let marked = (28..33).contains(&x) && (28..33).contains(&y);
            let cell = ["+---+", "|p  |", "|  g|", "|   |", "+---+"]
                .get(y / 20)
                .and_then(|row| row.chars().nth(x / 20));
            let expected = if marked {
                RED
            } else if cell.is_some_and(|c| c != ' ') {
                WHITE
            } else {
                BLACK
            };
            assert_eq!(at(x, y), expected, "pixel {} {}", x, y);
        }
    }
    assert_eq!(at(20, 20), WHITE);
    assert_eq!(at(40, 20), BLACK);
    assert_eq!(at(60, 40), WHITE);
    assert_eq!(at(100, 0), BLACK);
}

#[test]
fn the_mark_of_a_player_near_the_origin_is_cut() {
    let mut caster = caster();
    caster.player.x = 0;
    caster.player.y = -U;
    let buffer = caster.render_2d(30, 30);
    // The mark reaches from -2 to 2 across and from -22 to -18 down: it is
    // not on the screen, and the four cells that are there are not empty.
    assert_eq!(buffer, vec![WHITE; 30 * 30]);
    caster.player.y = 0;
    let buffer = caster.render_2d(30, 30);
    assert_eq!(buffer[0], RED);
    assert_eq!(buffer[2 * 30 + 2], RED);
    assert_eq!(buffer[2 * 30 + 3], WHITE);
    assert_eq!(buffer[3 * 30 + 2], WHITE);
}

#[test]
fn the_view_from_inside_shows_textured_walls() {
    let trig = sine_table();
    let caster = RayCaster {
        player: Player { angle: 18_000, fov: DEFAULT_FOV, ..caster().player },
        ..caster()
    };
    let buffer = caster.render_3d(&trig, 4, 100, 1_000);
    assert_eq!(buffer.len(), 400);
    for column in 0..4usize {
        let (hit, _) = column_ray(&caster.map, &trig, &caster.player, 4, CASTER_STEP, 1_000, column);
        let (top, bottom) = stake_span(100, hit.distance);
        assert!(top < bottom);
        // Rays at 150, 165, 180 and 195 degrees: texture columns 1, 1, 2 and 2 of 4.
        let angle = 18_000 + 6_000 * column as u64 / 4 - 3_000;
        let texture_column = (4 * angle / 36_000 % 4) as u32;
        assert_eq!(texture_column, [1, 1, 2, 2][column]);
        for row in 0..100usize {
            let expected = if top <= row && row < bottom {
                let down = (row - top) as u64;
                let texture_row = if hit.distance <= 65_536 {
                    down * 2 / 100
                } else {
                    down * 2 * hit.distance / (100 * 65_536)
                };
                stripes().get_pixel(texture_column, texture_row as u32)
            } else {
                BLACK
            };
            assert_eq!(buffer[row * 4 + column], expected, "pixel {} {}", column, row);
        }
    }
    // Straight ahead the wall is half a cell away and fills the column.
    assert_eq!(buffer[2], 0x12);
    assert_eq!(buffer[49 * 4 + 2], 0x12);
    assert_eq!(buffer[50 * 4 + 2], 0x22);
    assert_eq!(buffer[99 * 4 + 2], 0x22);
}

#[test]
fn rays_at_angles_below_zero_show_the_first_texture_column() {
    let trig = sine_table();
    let caster = caster();
    let buffer = caster.render_3d(&trig, 2, 10, 1_000);
    // The left ray leaves at minus thirty degrees.
    let (hit, _) = column_ray(&caster.map, &trig, &caster.player, 2, CASTER_STEP, 1_000, 0);
    let (top, bottom) = stake_span(10, hit.distance);
    assert!(top < bottom);
    assert_eq!(buffer[top * 2], 0x10);
    assert_eq!(buffer[(bottom - 1) * 2], 0x20);
    assert_eq!(caster.render_3d(&trig, 0, 10, 1_000), Vec::<u32>::new());
    assert_eq!(caster.render_3d(&trig, 3, 0, 1_000), Vec::<u32>::new());
}
