use maze_raycaster::animated_sprite::AnimatedSprite;
use maze_raycaster::enemy::{project_sprite, Enemy, Projection, CATCH_DISTANCE, NEAR_PLANE};
use maze_raycaster::fixed::UNIT;
use maze_raycaster::map::GridMap;
use maze_raycaster::player::{Player, DEFAULT_FOV};
use maze_raycaster::raycaster::NO_HIT;
use maze_raycaster::texture::Texture;
use maze_raycaster::trig::{TrigTable, TURN};

const U: i32 = UNIT as i32;

fn sine_table() -> TrigTable {
    let sines: Vec<i32> = (0..TURN)
        .map(|i| {
            let radians = i as f64 * std::f64::consts::TAU / TURN as f64;
            (radians.sin() * UNIT as f64).round() as i32
        })
        .collect();
    TrigTable::new(sines).expect("a table of rounded sines is valid")
}

fn corridor() -> GridMap {
    GridMap::load("+------+\n|p  E  |\n+------+\n").expect("a valid maze")
}

/// A 2 by 2 texture: opaque red and green above, transparent and opaque blue below.
fn patch() -> Texture {
    Texture::new(2, 2, vec![0xFFFF_0000, 0xFF00_FF00, 0x0012_3456, 0x8000_00FF])
        .expect("four texels for four places")
}

fn viewer() -> Player {
    Player { x: U + U / 2, y: U + U / 2, angle: 0, fov: DEFAULT_FOV, rotation_speed: 0 }
}

#[test]
fn a_sprite_straight_ahead_is_seen_in_the_middle() {
    let trig = sine_table();
    let seen = project_sprite(&trig, &viewer(), 4 * U + U / 2, U + U / 2, 100, 100);
    assert_eq!(seen, Some(Projection { distance: 196_608, turn: 0, size: 33, centre: 50 }));
}

#[test]
fn a_sprite_to_the_side_is_seen_to_the_side() {
    let trig = sine_table();
    let right = project_sprite(&trig, &viewer(), 4 * U + U / 2, 2 * U + U / 2, 100, 100);
    assert_eq!(right, Some(Projection { distance: 207_243, turn: 1_843, size: 31, centre: 80 }));
    let left = project_sprite(&trig, &viewer(), 4 * U + U / 2, U / 2, 100, 100);
    assert_eq!(left, Some(Projection { distance: 207_243, turn: -1_843, size: 31, centre: 19 }));
}

#[test]
fn a_sprite_at_the_near_plane_is_not_seen() {
    let trig = sine_table();
    let player = viewer();
    let near = NEAR_PLANE as i32;
    assert_eq!(project_sprite(&trig, &player, player.x + near, player.y, 100, 100), None);
    assert_eq!(project_sprite(&trig, &player, player.x, player.y, 100, 100), None);
    assert_eq!(
        project_sprite(&trig, &player, player.x + near + 1, player.y, 100, 100),
        Some(Projection { distance: 32_769, turn: 0, size: 199, centre: 50 })
    );
}

#[test]
fn a_sprite_outside_the_field_of_view_is_not_seen() {
    let trig = sine_table();
    let origin = Player { x: 0, y: 0, angle: 0, fov: DEFAULT_FOV, rotation_speed: 0 };
    assert_eq!(project_sprite(&trig, &viewer(), U / 2, U + U / 2, 100, 100), None);
    // Thirty degrees off the axis is the edge of the field of view, and seen.
    assert_eq!(
        project_sprite(&trig, &origin, 100_000, 57_735, 100, 100),
        Some(Projection { distance: 115_470, turn: 3_000, size: 56, centre: 100 })
    );
    assert_eq!(project_sprite(&trig, &origin, 100_000, 57_780, 100, 100), None);
}

#[test]
fn a_viewer_without_a_field_of_view_sees_what_is_on_the_axis() {
    let trig = sine_table();
    let narrow = Player { fov: 0, ..viewer() };
    assert_eq!(
        project_sprite(&trig, &narrow, 4 * U + U / 2, U + U / 2, 100, 60),
        Some(Projection { distance: 196_608, turn: 0, size: 20, centre: 50 })
    );
    assert_eq!(project_sprite(&trig, &narrow, 4 * U + U / 2, U + U / 2 + 400, 100, 60), None);
}

#[test]
fn a_new_enemy_stands_at_its_start() {
    let map = corridor();
    let enemy = Enemy::new(&map, patch()).expect("the maze has an enemy");
    assert_eq!((enemy.x, enemy.y, enemy.speed), (4 * U + U / 2, U + U / 2, 0));
    assert_eq!(enemy.texture.get_pixel(1, 1), 0x8000_00FF);
    let calm = GridMap::load("p  \n").expect("a valid maze");
    assert!(Enemy::new(&calm, patch()).is_none());
}

#[test]
fn the_enemy_stays_where_it_is() {
    let map = corridor();
    let mut enemy = Enemy::new(&map, patch()).expect("the maze has an enemy");
    enemy.update(&map, &viewer(), 1_000);
    assert_eq!((enemy.x, enemy.y, enemy.speed), (4 * U + U / 2, U + U / 2, 0));
}

#[test]
fn the_enemy_catches_a_player_that_is_close() {
    let map = corridor();
    let enemy = Enemy::new(&map, patch()).expect("the maze has an enemy");
    let reach = CATCH_DISTANCE as i32;
    let mut player = viewer();
    assert!(!enemy.has_caught_player(&player));
    player.x = enemy.x - reach;
    assert!(!enemy.has_caught_player(&player));
    player.x = enemy.x - reach + 1;
    assert!(enemy.has_caught_player(&player));
    player.x = enemy.x;
    assert!(enemy.has_caught_player(&player));
    player.y = enemy.y + reach;
    assert!(!enemy.has_caught_player(&player));
    player.x = enemy.x + 13_902;
    player.y = enemy.y + 13_902;
    assert!(enemy.has_caught_player(&player));
    player.y = enemy.y + 13_903;
    assert!(!enemy.has_caught_player(&player));
}

#[test]
fn a_nearer_wall_hides_the_sprite() {
    let trig = sine_table();
    let map = corridor();
    let enemy = Enemy::new(&map, patch()).expect("the maze has an enemy");
    let before: Vec<u32> = (0..100 * 100).map(|i| 0x0100_0000 + i as u32).collect();
    // Every wall is nearer than the sprite, or exactly as far.
    for wall in [0u64, 655, 196_607, 196_608] {
        let mut buffer = before.clone();
        let depth = vec![wall; 100];
        enemy.render(&mut buffer, 100, 100, &viewer(), &trig, &depth);
        assert_eq!(buffer, before);
    }
}

#[test]
fn the_sprite_shows_in_front_of_farther_walls() {
    let trig = sine_table();
    let map = corridor();
    let enemy = Enemy::new(&map, patch()).expect("the maze has an enemy");
    let before = vec![0x0055_5555u32; 100 * 100];
    let mut buffer = before.clone();
    let depth = vec![196_609u64; 100];
    enemy.render(&mut buffer, 100, 100, &viewer(), &trig, &depth);
    // The sprite is 33 pixels wide and high, centred on column 50 and row 50:
    // columns and rows 34 to 66. Its left half samples texture column 0.
    for y in 0..100usize {
        for x in 0..100usize {
            let inside = (34..67).contains(&x) && (34..67).contains(&y);
            let expected = if !inside {
                0x0055_5555
            } else {
                let tx = (x - 34) * 2 / 33;
                let ty = (y - 34) * 2 / 33;
                match (tx, ty) {
                    (0, 0) => 0xFFFF_0000,
                    (1, 0) => 0xFF00_FF00,
                    (0, 1) => 0x0055_5555,
                    _ => 0x8000_00FF,
                }
            };
            assert_eq!(buffer[y * 100 + x], expected, "pixel {} {}", x, y);
        }
    }
}

#[test]
fn the_sprite_is_hidden_column_by_column() {
    let trig = sine_table();
    let map = corridor();
    let enemy = Enemy::new(&map, patch()).expect("the maze has an enemy");
    let mut buffer = vec![0u32; 100 * 100];
    let depth: Vec<u64> = (0..100).map(|x| if x % 2 == 0 { NO_HIT } else { 1_000 }).collect();
    enemy.render(&mut buffer, 100, 100, &viewer(), &trig, &depth);
    for y in 0..100usize {
        for x in 0..100usize {
            if x % 2 == 1 {
                assert_eq!(buffer[y * 100 + x], 0);
            }
        }
    }
    assert_eq!(buffer[40 * 100 + 40], 0xFFFF_0000);
    assert_eq!(buffer[40 * 100 + 60], 0xFF00_FF00);
    assert_eq!(buffer[60 * 100 + 60], 0x8000_00FF);
    assert_eq!(buffer[60 * 100 + 40], 0);
}

#[test]
fn columns_without_a_depth_are_not_drawn() {
    let trig = sine_table();
    let map = corridor();
    let enemy = Enemy::new(&map, patch()).expect("the maze has an enemy");
    let mut buffer = vec![0u32; 100 * 100];
    let depth = vec![NO_HIT; 45];
    enemy.render(&mut buffer, 100, 100, &viewer(), &trig, &depth);
    assert_eq!(buffer[40 * 100 + 44], 0xFFFF_0000);
    assert_eq!(buffer[40 * 100 + 45], 0);
    assert_eq!(buffer[40 * 100 + 60], 0);
}

#[test]
fn a_sprite_that_is_not_seen_draws_nothing() {
    let trig = sine_table();
    let map = corridor();
    let enemy = Enemy::new(&map, patch()).expect("the maze has an enemy");
    let before = vec![3u32; 50 * 40];
    let depth = vec![NO_HIT; 50];
    let behind = Player { angle: TURN / 2, ..viewer() };
    let mut buffer = before.clone();
    enemy.render(&mut buffer, 50, 40, &behind, &trig, &depth);
    assert_eq!(buffer, before);
    let on_top = Player { x: enemy.x - 10, ..viewer() };
    enemy.render(&mut buffer, 50, 40, &on_top, &trig, &depth);
    assert_eq!(buffer, before);
}

#[test]
fn a_sprite_is_cut_to_the_screen_and_the_buffer() {
    let trig = sine_table();
    let map = corridor();
    let enemy = Enemy::new(&map, patch()).expect("the maze has an enemy");
    // Seen from close by the sprite is larger than the screen.
    let close = Player { x: enemy.x - 40_000, ..viewer() };
    let depth = vec![NO_HIT; 20];
    let mut buffer = vec![0u32; 20 * 20];
    enemy.render(&mut buffer, 20, 20, &close, &trig, &depth);
    // 20 * 65536 / 40000 is 32: columns and rows -6 to 25 of the sprite's square.
    assert_eq!(buffer[0], 0xFFFF_0000);
    assert_eq!(buffer[19], 0xFF00_FF00);
    assert_eq!(buffer[19 * 20], 0);
    assert_eq!(buffer[19 * 20 + 19], 0x8000_00FF);
    // A buffer that ends early is drawn as far as it goes, and no further.
    let mut short = vec![0u32; 30];
    enemy.render(&mut short, 20, 20, &close, &trig, &depth);
    assert_eq!(short[29], 0xFFFF_0000);
    let mut none: Vec<u32> = Vec::new();
    enemy.render(&mut none, 20, 20, &close, &trig, &depth);
    assert!(none.is_empty());
    enemy.render(&mut short, 0, 20, &close, &trig, &depth);
    assert_eq!(short[29], 0xFFFF_0000);
}

#[test]
fn an_enemy_without_a_texture_draws_nothing() {
    let trig = sine_table();
    let map = corridor();
    let enemy = Enemy::new(&map, Texture::empty()).expect("the maze has an enemy");
    let before = vec![3u32; 50 * 40];
    let mut buffer = before.clone();
    enemy.render(&mut buffer, 50, 40, &viewer(), &trig, &vec![NO_HIT; 50]);
    assert_eq!(buffer, before);
}

fn frame(colour: u32) -> Texture {
    Texture::new(2, 1, vec![colour, 0]).expect("two texels")
}

#[test]
fn frames_follow_one_another_in_time() {
    let mut sprite = AnimatedSprite::new(vec![frame(1), frame(2), frame(3)], 200, 1_000);
    assert_eq!(sprite.current_frame, 0);
    sprite.update(1_199);
    assert_eq!((sprite.current_frame, sprite.last_update), (0, 1_000));
    sprite.update(1_200);
    assert_eq!((sprite.current_frame, sprite.last_update), (1, 1_200));
    sprite.update(1_300);
    assert_eq!((sprite.current_frame, sprite.last_update), (1, 1_200));
    sprite.update(5_000);
    assert_eq!((sprite.current_frame, sprite.last_update), (2, 5_000));
    sprite.update(5_200);
    assert_eq!((sprite.current_frame, sprite.last_update), (0, 5_200));
    // Time that runs backwards shows no new frame.
    sprite.update(100);
    assert_eq!((sprite.current_frame, sprite.last_update), (0, 5_200));
}

#[test]
fn a_sprite_without_frames_stays_at_frame_zero() {
    let mut sprite = AnimatedSprite::new(vec![], 0, 0);
    sprite.update(10);
    assert_eq!((sprite.current_frame, sprite.last_update), (0, 10));
    let mut buffer = vec![5u32; 12];
    sprite.render(&mut buffer, 4, 3);
    assert_eq!(buffer, vec![5u32; 12]);
}

#[test]
fn the_shown_frame_stands_at_the_bottom_in_the_middle() {
    let picture = Texture::new(2, 2, vec![0xFF00_0001, 0xFF00_0002, 0x0000_0003, 0x0100_0004])
        .expect("four texels");
    let sprite = AnimatedSprite::new(vec![frame(9), picture], 10, 0);
    let mut sprite = sprite;
    sprite.update(10);
    assert_eq!(sprite.current_frame, 1);
    let mut buffer = vec![7u32; 6 * 4];
    sprite.render(&mut buffer, 6, 4);
    let mut expected = vec![7u32; 6 * 4];
    expected[2 * 6 + 2] = 0xFF00_0001;
    expected[2 * 6 + 3] = 0xFF00_0002;
    expected[3 * 6 + 3] = 0x0100_0004;
    assert_eq!(buffer, expected);
}

#[test]
fn a_frame_larger_than_the_screen_is_cut() {
    let wide = Texture::new(4, 1, vec![0xFF00_0001, 0xFF00_0002, 0xFF00_0003, 0xFF00_0004])
        .expect("four texels");
    let sprite = AnimatedSprite::new(vec![wide], 10, 0);
    let mut buffer = vec![0u32; 2 * 2];
    sprite.render(&mut buffer, 2, 2);
    assert_eq!(buffer, vec![0, 0, 0xFF00_0002, 0xFF00_0003]);
    let tall = Texture::new(1, 3, vec![0xFF00_0001, 0xFF00_0002, 0xFF00_0003]).expect("three texels");
    let sprite = AnimatedSprite::new(vec![tall], 10, 0);
    let mut buffer = vec![0u32; 3 * 2];
    sprite.render(&mut buffer, 3, 2);
    assert_eq!(buffer, vec![0, 0xFF00_0002, 0, 0, 0xFF00_0003, 0]);
    let mut odd = vec![0u32; 3];
    let wide = Texture::new(4, 1, vec![0xFF00_0001, 0xFF00_0002, 0xFF00_0003, 0xFF00_0004])
        .expect("four texels");
    AnimatedSprite::new(vec![wide], 10, 0).render(&mut odd, 3, 1);
    // Three columns for four texels: the frame starts one column to the left.
    assert_eq!(odd, vec![0xFF00_0002, 0xFF00_0003, 0xFF00_0004]);
}
