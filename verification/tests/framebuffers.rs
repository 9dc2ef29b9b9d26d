use maze_raycaster::fixed::UNIT;
use maze_raycaster::framebuffer::{
    render_3D, render_first_person, render_maze, render_player, render_top_down, stake_span,
    Framebuffer,
    CLEAR_COLOR, FOV_WALL_COLOR, MAZE_GOAL_COLOR, MAZE_OPEN_COLOR, MAZE_PLAYER_COLOR,
    MAZE_WALL_COLOR, STAKE_BACKGROUND, STAKE_FOREGROUND,
};
use maze_raycaster::map::GridMap;
use maze_raycaster::player::Player;
use maze_raycaster::raycaster::NO_HIT;
use maze_raycaster::trig::{TrigTable, TURN};

const UU: u64 = UNIT as u64;

fn sine_table() -> TrigTable {
    let sines: Vec<i32> = (0..TURN)
        .map(|i| {
            let radians = i as f64 * std::f64::consts::TAU / TURN as f64;
            (radians.sin() * UNIT as f64).round() as i32
        })
        .collect();
    TrigTable::new(sines).expect("a table of rounded sines is valid")
}

fn bordered_room() -> GridMap {
    GridMap::load("+---+\n|p  |\n|   |\n|   |\n+---+\n").expect("the room is a valid map")
}

#[test]
fn a_new_frame_buffer_is_all_zero() {
    let framebuffer = Framebuffer::new(3, 2);
    assert_eq!((framebuffer.width, framebuffer.height), (3, 2));
    assert_eq!(framebuffer.pixels, vec![0; 6]);
    assert!(Framebuffer::new(0, 9).pixels.is_empty());
}

#[test]
fn clear_makes_every_pixel_white() {
    let mut framebuffer = Framebuffer::new(3, 2);
    framebuffer.clear();
    assert_eq!(framebuffer.pixels, vec![0xFFFF_FFFF; 6]);
    assert_eq!((framebuffer.width, framebuffer.height), (3, 2));
}

#[test]
fn point_sets_one_pixel() {
    let mut framebuffer = Framebuffer::new(3, 2);
    framebuffer.point(1, 0, 7);
    framebuffer.point(2, 1, 9);
    framebuffer.point(0, 1, 8);
    assert_eq!(framebuffer.pixels, vec![0, 7, 0, 8, 0, 9]);
}

#[test]
fn point_passes_over_what_is_not_on_the_screen() {
    let mut framebuffer = Framebuffer::new(3, 2);
    framebuffer.point(3, 0, 7);
    framebuffer.point(0, 2, 7);
    framebuffer.point(usize::MAX, usize::MAX, 7);
    assert_eq!(framebuffer.pixels, vec![0; 6]);
}

#[test]
fn the_colours_fill_the_whole_screen() {
    let mut framebuffer = Framebuffer::new(2, 2);
    framebuffer.set_background_color(0x0C0B38);
    assert_eq!(framebuffer.pixels, vec![0x0C0B38; 4]);
    framebuffer.set_foreground_color(0xEBDC7F);
    assert_eq!(framebuffer.pixels, vec![0xEBDC7F; 4]);
}

#[test]
fn the_maze_is_drawn_cell_by_cell() {
    let map = GridMap::load("+p\ng \n").expect("a valid maze");
    let mut framebuffer = Framebuffer::new(5, 5);
    framebuffer.set_background_color(1);
    render_maze(&mut framebuffer, &map, 2);
    let w = MAZE_WALL_COLOR;
    let p = MAZE_PLAYER_COLOR;
    let g = MAZE_GOAL_COLOR;
    let o = MAZE_OPEN_COLOR;
    assert_eq!(
        framebuffer.pixels,
        vec![
            w, w, p, p, 1, //
            w, w, p, p, 1, //
            g, g, o, o, 1, //
            g, g, o, o, 1, //
            1, 1, 1, 1, 1,
        ]
    );
}

#[test]
fn a_maze_of_cells_without_size_is_not_drawn() {
    let map = GridMap::load("+p\ng \n").expect("a valid maze");
    let mut framebuffer = Framebuffer::new(3, 3);
    render_maze(&mut framebuffer, &map, 0);
    assert_eq!(framebuffer.pixels, vec![0; 9]);
}

#[test]
fn the_player_is_drawn_as_its_cell() {
    let map = GridMap::load(" - \n  p\n").expect("a valid maze");
    let player = Player::new(&map);
    let mut framebuffer = Framebuffer::new(7, 4);
    render_player(&mut framebuffer, &player, 2);
    let p = MAZE_PLAYER_COLOR;
    assert_eq!(
        framebuffer.pixels,
        vec![
            0, 0, 0, 0, 0, 0, 0, //
            0, 0, 0, 0, 0, 0, 0, //
            0, 0, 0, 0, p, p, 0, //
            0, 0, 0, 0, p, p, 0,
        ]
    );
}

#[test]
fn the_top_down_view_shows_maze_and_player() {
    let map = GridMap::load("+ |\n gp\n").expect("a valid maze");
    let mut player = Player::new(&map);
    player.x = 10;
    player.y = UNIT as i32 + 5;
    let mut framebuffer = Framebuffer::new(4, 3);
    render_top_down(&mut framebuffer, &map, &player, 1);
    let w = MAZE_WALL_COLOR;
    let p = MAZE_PLAYER_COLOR;
    let g = MAZE_GOAL_COLOR;
    let o = MAZE_OPEN_COLOR;
    let c = CLEAR_COLOR;
    assert_eq!(
        framebuffer.pixels,
        vec![
            w, o, w, c, //
            p, g, p, c, //
            c, c, c, c,
        ]
    );
}

#[test]
fn the_first_person_view_draws_a_slice_in_each_column() {
    let trig = sine_table();
    let map = bordered_room();
    let player = Player::new(&map);
    let mut framebuffer = Framebuffer::new(4, 100);
    render_first_person(&mut framebuffer, &map, &trig, &player, 655, 10_000);
    let spans = [(0, 100), (23, 76), (30, 69), (30, 69)];
    for y in 0..100 {
        for x in 0..4 {
            let (start, end) = spans[x];
            let expected = if start <= y && y < end { FOV_WALL_COLOR } else { CLEAR_COLOR };
            assert_eq!(framebuffer.pixels[y * 4 + x], expected, "pixel {} {}", x, y);
        }
    }
}

#[test]
fn render_fov_keeps_what_is_around_the_slices() {
    let trig = sine_table();
    let map = bordered_room();
    let player = Player::new(&map);
    let mut framebuffer = Framebuffer::new(4, 100);
    framebuffer.set_background_color(5);
    framebuffer.render_fov(&map, &trig, &player, 655, 10_000);
    assert_eq!(framebuffer.pixels[0], FOV_WALL_COLOR);
    assert_eq!(framebuffer.pixels[22 * 4 + 1], 5);
    assert_eq!(framebuffer.pixels[23 * 4 + 1], FOV_WALL_COLOR);
    assert_eq!(framebuffer.pixels[75 * 4 + 1], FOV_WALL_COLOR);
    assert_eq!(framebuffer.pixels[76 * 4 + 1], 5);
    let field = GridMap::load("p  \n").expect("an open field");
    let outside = Player::new(&field);
    let mut untouched = Framebuffer::new(4, 10);
    untouched.render_fov(&field, &trig, &outside, 655, 10_000);
    assert_eq!(untouched.pixels, vec![0; 40]);
}

#[test]
fn the_stake_view_draws_a_stake_in_each_column() {
    let trig = sine_table();
    let map = bordered_room();
    let player = Player::new(&map);
    let mut framebuffer = Framebuffer::new(4, 100);
    framebuffer.set_foreground_color(7);
    render_3D(&mut framebuffer, &map, &trig, &player, 655, 10_000);
    // The rays march 66155, 127070, 164405 and 169644 units.
    let spans = [(0, 99), (24, 75), (30, 69), (30, 69)];
    for y in 0..100 {
        for x in 0..4 {
            let (start, end) = spans[x];
            let expected = if start <= y && y < end { STAKE_FOREGROUND } else { STAKE_BACKGROUND };
            assert_eq!(framebuffer.pixels[y * 4 + x], expected, "pixel {} {}", x, y);
        }
    }
    assert_eq!((framebuffer.width, framebuffer.height), (4, 100));
}

#[test]
fn the_stake_view_of_an_open_field_is_all_background() {
    let trig = sine_table();
    let field = GridMap::load("p  \n").expect("an open field");
    let player = Player::new(&field);
    let mut framebuffer = Framebuffer::new(5, 8);
    render_3D(&mut framebuffer, &field, &trig, &player, 6_554, 1_000);
    assert_eq!(framebuffer.pixels, vec![STAKE_BACKGROUND; 40]);
}

#[test]
fn the_stake_view_from_inside_a_wall_is_all_foreground() {
    let trig = sine_table();
    let map = bordered_room();
    let mut player = Player::new(&map);
    player.x = 10;
    player.y = 10;
    let mut framebuffer = Framebuffer::new(5, 8);
    render_3D(&mut framebuffer, &map, &trig, &player, 6_554, 1_000);
    assert_eq!(framebuffer.pixels, vec![STAKE_FOREGROUND; 40]);
}

#[test]
fn stakes_are_centred_and_cut_to_the_screen() {
    assert_eq!(stake_span(100, 0), (0, 100));
    assert_eq!(stake_span(100, UU), (0, 100));
    assert_eq!(stake_span(100, UU + 1), (0, 99));
    assert_eq!(stake_span(100, 2 * UU), (25, 75));
    assert_eq!(stake_span(100, 3 * UU), (33, 66));
    assert_eq!(stake_span(100, 164_405), (30, 69));
    assert_eq!(stake_span(100, NO_HIT), (50, 50));
    assert_eq!(stake_span(101, NO_HIT), (50, 50));
    assert_eq!(stake_span(0, 5 * UU), (0, 0));
    let (start, end) = stake_span(usize::MAX, NO_HIT - 1);
    assert!(start <= end && end <= usize::MAX);
}
