use maze_raycaster::color::{
    alpha, apply_shade, bilinear_interpolation, blend_channel, blue, color_lerp, dim, green, lerp,
    pack, red,
};
use maze_raycaster::fixed::{floor_div, UNIT};
use maze_raycaster::map::GridMap;
use maze_raycaster::player::{Player, DEFAULT_FOV};
use maze_raycaster::raycaster::{cast_ray, DEFAULT_MAX_STEPS, DEFAULT_STEP, NO_HIT};
use maze_raycaster::renderer::{
    column_ray, correct_distance, wall_slice, Renderer, FLOOR_TOP, MARKER_COLOR, MINIMAP_EMPTY,
    MINIMAP_MARKED, MINIMAP_OTHER, MINIMAP_WALL, SKY_TOP,
};
use maze_raycaster::texture::Texture;
use maze_raycaster::trig::{TrigTable, TURN};

const U: i32 = UNIT as i32;
const UU: u64 = UNIT as u64;

fn sine_table() -> TrigTable {
    let sines: Vec<i32> = (0..TURN)
        .map(|i| {
            let radians = i as f64 * std::f64::consts::TAU / TURN as f64;
            (radians.sin() * UNIT as f64).round() as i32
        })
        .collect();
    TrigTable::new(sines).expect("a table of rounded sines is valid")
}

fn bordered_room() -> GridMap {
    GridMap::load("+---+\n|p  |\n|   |\n|   |\n+---+\n").expect("the room is a valid map")
}

fn white() -> Texture {
    Texture::new(1, 1, vec![0xFFFF_FFFF]).expect("one texel for one place")
}

fn four_colours() -> Texture {
    Texture::new(2, 2, vec![0xFF00_0000, 0xFFFF_0000, 0xFF00_FF00, 0xFF00_00FF])
        .expect("four texels for four places")
}

#[test]
fn floor_division_rounds_down() {
    assert_eq!(floor_div(7, 2), 3);
    assert_eq!(floor_div(-7, 2), -4);
    assert_eq!(floor_div(-8, 2), -4);
    assert_eq!(floor_div(0, 9), 0);
    assert_eq!(floor_div(-1, 65536), -1);
}

#[test]
fn channels_are_the_bytes_of_a_colour() {
    assert_eq!(alpha(0x1234_5678), 0x12);
    assert_eq!(red(0x1234_5678), 0x34);
    assert_eq!(green(0x1234_5678), 0x56);
    assert_eq!(blue(0x1234_5678), 0x78);
    assert_eq!(pack(0x34, 0x56, 0x78), 0x0034_5678);
}

#[test]
fn lerp_rounds_down() {
    assert_eq!(lerp(0, 255, 0, 7), 0);
    assert_eq!(lerp(0, 255, 7, 7), 255);
    assert_eq!(lerp(0, 255, 1, 2), 127);
    assert_eq!(lerp(255, 0, 1, 2), 127);
    assert_eq!(lerp(10, 20, 1, 3), 13);
    assert_eq!(lerp(20, 10, 1, 3), 16);
    assert_eq!(lerp(200, 100, u64::MAX - 1, u64::MAX), 100);
}

#[test]
fn color_lerp_mixes_each_channel() {
    assert_eq!(color_lerp(0x00_0000, 0xFF_FFFF, 1, 2), 0x7F_7F7F);
    assert_eq!(color_lerp(0x87_CEEB, 0xF8_EAF7, 0, 31), 0x87_CEEB);
    assert_eq!(color_lerp(0x87_CEEB, 0xF8_EAF7, 10, 31), 0xAB_D7EE);
    assert_eq!(color_lerp(0x0D_798F, 0x4F_0955, 30, 31), 0x4C_0C56);
    assert_eq!(color_lerp(0xFF12_3456, 0xFF65_4321, 5, 5), 0x65_4321);
}

#[test]
fn shade_falls_with_distance() {
    assert_eq!(dim(255, 0), 255);
    assert_eq!(dim(255, UU), 231);
    assert_eq!(dim(200, 3 * UU), 105);
    assert_eq!(dim(255, 164_405), 156);
    assert_eq!(dim(255, u64::MAX), 0);
    assert_eq!(apply_shade(0xFF_FFFF, UU), 0xE7_E7E7);
    assert_eq!(apply_shade(0xFFFF_FFFF, 0), 0xFF_FFFF);
    let mut last = 255;
    for tenth in 0..200u64 {
        let now = dim(255, tenth * UU / 10);
        assert!(now <= last);
        last = now;
    }
}

#[test]
fn bilinear_interpolation_weighs_the_four_neighbours() {
    assert_eq!(blend_channel(0, 255, 0, 255, 32_768, 0), 127);
    assert_eq!(blend_channel(0, 0, 255, 255, 0, 32_768), 127);
    assert_eq!(blend_channel(10, 20, 30, 40, 0, 0), 10);
    assert_eq!(blend_channel(10, 20, 30, 40, 65_536, 0), 20);
    assert_eq!(blend_channel(10, 20, 30, 40, 0, 65_536), 30);
    assert_eq!(blend_channel(10, 20, 30, 40, 65_536, 65_536), 40);
    assert_eq!(blend_channel(10, 20, 30, 40, 32_768, 32_768), 25);
    assert_eq!(bilinear_interpolation(0, 0xFF_0000, 0, 0xFF_0000, 32_768, 0), 0x7F_0000);
    assert_eq!(
        bilinear_interpolation(0xFF00_0000, 0xFFFF_0000, 0xFF00_FF00, 0xFF00_00FF, 32_768, 32_768),
        0x3F_3F3F
    );
}

#[test]
fn a_texture_needs_a_texel_for_each_place() {
    assert!(Texture::new(2, 2, vec![0; 4]).is_some());
    assert!(Texture::new(2, 2, vec![0; 3]).is_none());
    assert!(Texture::new(2, 2, vec![0; 5]).is_none());
    assert!(Texture::new(0, 7, vec![]).is_some());
    assert!(Texture::new(u32::MAX, u32::MAX, vec![]).is_none());
    let empty = Texture::empty();
    assert_eq!((empty.width(), empty.height()), (0, 0));
}

#[test]
fn get_pixel_is_zero_outside_the_texture() {
    let texture = four_colours();
    assert_eq!(texture.get_pixel(0, 0), 0xFF00_0000);
    assert_eq!(texture.get_pixel(1, 0), 0xFFFF_0000);
    assert_eq!(texture.get_pixel(0, 1), 0xFF00_FF00);
    assert_eq!(texture.get_pixel(1, 1), 0xFF00_00FF);
    assert_eq!(texture.get_pixel(2, 0), 0);
    assert_eq!(texture.get_pixel(0, 2), 0);
    assert_eq!(Texture::empty().get_pixel(0, 0), 0);
}

#[test]
fn sampling_blends_neighbouring_texels() {
    let texture = four_colours();
    assert_eq!(texture.sample_texture(0, 0), 0x00_0000);
    assert_eq!(texture.sample_texture(32_768, 0), 0xFF_0000);
    assert_eq!(texture.sample_texture(0, 32_768), 0x00_FF00);
    assert_eq!(texture.sample_texture(16_384, 16_384), 0x3F_3F3F);
    assert_eq!(texture.sample_texture(49_152, 8_192), 0x5F_1F1F);
    assert_eq!(Texture::empty().sample_texture(123, 456), 0);
}

#[test]
fn sampling_wraps_at_the_edges() {
    let texture = four_colours();
    // Past the last column the first one is blended in, not the last repeated.
    assert_eq!(texture.sample_texture(49_152, 0), 0x7F_0000);
    assert_eq!(texture.sample_texture(65_535, 65_535), 0x00_0000);
}

#[test]
fn sampling_is_periodic() {
    let texture = four_colours();
    for u in [0u64, 1, 16_384, 40_000, 65_535, 70_000, 1 << 40] {
        for v in [0u64, 5, 32_768, 65_535, 99_999, 1 << 33] {
            let here = texture.sample_texture(u, v);
            assert_eq!(texture.sample_texture(u + UU, v), here);
            assert_eq!(texture.sample_texture(u, v + UU), here);
            assert_eq!(texture.sample_texture(u + 3 * UU, v + 5 * UU), here);
        }
    }
}

#[test]
fn a_ray_along_the_axis_keeps_its_distance() {
    let trig = sine_table();
    for raw in [0u64, 1, 655, 164_405, 1 << 40, NO_HIT - 1] {
        assert_eq!(correct_distance(&trig, raw, 0), raw);
        assert_eq!(correct_distance(&trig, raw, TURN as i64), raw);
        assert_eq!(correct_distance(&trig, raw, -(TURN as i64)), raw);
    }
    assert_eq!(correct_distance(&trig, NO_HIT, 0), NO_HIT);
}

#[test]
fn oblique_rays_are_shortened_by_the_cosine() {
    let trig = sine_table();
    assert_eq!(correct_distance(&trig, 100_000, 6_000), 50_000);
    assert_eq!(correct_distance(&trig, 100_000, -6_000), 50_000);
    assert_eq!(correct_distance(&trig, 100_000, 9_000), 0);
    assert_eq!(correct_distance(&trig, 100_000, 12_000), 0);
    assert_eq!(correct_distance(&trig, NO_HIT, 6_000), NO_HIT);
}

#[test]
fn the_centre_column_is_not_corrected() {
    let trig = sine_table();
    let map = bordered_room();
    let player = Player::new(&map);
    let straight = cast_ray(&map, &trig, player.x, player.y, player.angle, 655, 10_000);
    let (hit, depth) = column_ray(&map, &trig, &player, 4, 655, 10_000, 2);
    assert_eq!(hit, straight);
    assert_eq!(depth, straight.distance);
    assert_eq!(depth, 164_405);
}

#[test]
fn wall_slices_shrink_with_distance() {
    let slice = wall_slice(100, UU);
    assert_eq!((slice.tall, slice.top, slice.bottom), (100, 0, 100));
    let slice = wall_slice(100, 2 * UU);
    assert_eq!((slice.tall, slice.top, slice.bottom), (50, 25, 75));
    let slice = wall_slice(100, 3 * UU);
    assert_eq!((slice.tall, slice.top, slice.bottom), (33, 34, 66));
    let slice = wall_slice(100, UU / 2);
    assert_eq!((slice.tall, slice.top, slice.bottom), (200, 0, 100));
    let slice = wall_slice(100, 0);
    assert_eq!((slice.tall, slice.top, slice.bottom), (6_553_600, 0, 100));
    let slice = wall_slice(100, NO_HIT);
    assert_eq!((slice.tall, slice.top, slice.bottom), (0, 50, 50));
}

#[test]
fn walls_nearer_than_the_screen_is_high_are_seen() {
    for distance in [1u64, 655, UU, 50 * UU, 100 * UU] {
        assert!(wall_slice(100, distance).tall > 0);
    }
    assert_eq!(wall_slice(100, 100 * UU).tall, 1);
    assert_eq!(wall_slice(100, 100 * UU + 1).tall, 0);
}

#[test]
fn wall_height_never_grows_with_distance() {
    let mut last = wall_slice(580, 1).tall;
    for distance in (2..40 * UU).step_by(1_021) {
        let tall = wall_slice(580, distance).tall;
        assert!(tall <= last);
        last = tall;
    }
    // Far apart enough, the farther wall is strictly lower.
    assert!(wall_slice(580, 3 * UU).tall > wall_slice(580, 4 * UU).tall);
    // A hair's breadth apart, the heights are the same.
    assert_eq!(wall_slice(1, UU + 1).tall, wall_slice(1, UU + 2).tall);
}

#[test]
fn render_3d_fills_the_screen_and_the_depth_buffer() {
    let trig = sine_table();
    let map = bordered_room();
    let player = Player::new(&map);
    let renderer = Renderer::new(4, 100, white()).with_ray_march(655, 10_000);
    let (buffer, depth) = renderer.render_3d(&map, &player, &trig);
    assert_eq!(buffer.len(), 400);
    assert_eq!(depth, vec![57_292, 122_740, 164_405, 163_863]);
    let column = |x: usize, rows: [usize; 8]| -> Vec<u32> {
        rows.iter().map(|y| buffer[y * 4 + x]).collect()
    };
    let rows = [0, 10, 30, 31, 50, 68, 69, 99];
    assert_eq!(column(0, rows), vec![0xEC_ECEC; 8]);
    assert_eq!(
        column(1, rows),
        vec![
            0x87_CEEB, 0xB6_D9F0, 0xBC_BCBC, 0xBC_BCBC, 0xBC_BCBC, 0xBC_BCBC, 0xBC_BCBC,
            0x4C_0D57
        ]
    );
    assert_eq!(
        column(2, rows),
        vec![
            0x87_CEEB, 0xAB_D7EE, 0xF4_E9F6, 0x9C_9C9C, 0x9C_9C9C, 0x9C_9C9C, 0x0D_798F,
            0x4C_0C56
        ]
    );
    assert_eq!(buffer[2], SKY_TOP);
    assert_eq!(buffer[69 * 4 + 2], FLOOR_TOP);
}

#[test]
fn a_ray_that_hits_nothing_leaves_sky_and_floor() {
    let trig = sine_table();
    let map = GridMap::load("p   \n    \n").expect("an open field");
    let player = Player::new(&map);
    let renderer = Renderer::new(2, 10, white()).with_ray_march(655, 10_000);
    let (buffer, depth) = renderer.render_3d(&map, &player, &trig);
    assert_eq!(depth, vec![NO_HIT, NO_HIT]);
    for column in 0..2 {
        assert_eq!(buffer[column], SKY_TOP);
        assert_eq!(buffer[4 * 2 + column], color_lerp(0x87_CEEB, 0xF8_EAF7, 4, 5));
        assert_eq!(buffer[5 * 2 + column], FLOOR_TOP);
        assert_eq!(buffer[9 * 2 + column], color_lerp(0x0D_798F, 0x4F_0955, 4, 5));
    }
}

#[test]
fn render_3d_of_an_empty_screen_is_empty() {
    let trig = sine_table();
    let map = bordered_room();
    let player = Player::new(&map);
    let (buffer, depth) = Renderer::new(0, 50, white()).render_3d(&map, &player, &trig);
    assert!(buffer.is_empty());
    assert!(depth.is_empty());
    let (buffer, depth) = Renderer::new(3, 0, white()).render_3d(&map, &player, &trig);
    assert!(buffer.is_empty());
    assert_eq!(depth.len(), 3);
}

#[test]
fn a_new_renderer_uses_the_defaults() {
    let trig = sine_table();
    let map = bordered_room();
    let player = Player::new(&map);
    let renderer = Renderer::new(3, 3, white());
    assert_eq!((renderer.width(), renderer.height()), (3, 3));
    let (_, depth) = renderer.render_3d(&map, &player, &trig);
    let (_, expected) =
        column_ray(&map, &trig, &player, 3, DEFAULT_STEP, DEFAULT_MAX_STEPS, 1);
    assert_eq!(depth[1], expected);
    assert_eq!(player.fov, DEFAULT_FOV);
}

fn ten_by_ten() -> GridMap {
    let text = "+---------\n\
                |         \n\
                |    P    \n\
                |         \n\
                |         \n\
                |    p   g\n\
                |         \n\
                |         \n\
                |         \n\
                |E        \n";
    GridMap::load(text).expect("a valid maze")
}

#[test]
fn the_minimap_maps_cells_to_blocks_of_pixels() {
    let map = ten_by_ten();
    let player = Player::new(&map);
    let renderer = Renderer::new(120, 110, white()).with_minimap_size(100);
    let mut buffer = vec![0xABCD_EF01u32; 120 * 110];
    renderer.render_minimap(&map, &player, &mut buffer);
    for y in 0..10 {
        for x in 0..10 {
            assert_eq!(buffer[y * 120 + x], MINIMAP_WALL);
        }
    }
    for y in 90..100 {
        for x in 90..100 {
            assert_eq!(buffer[y * 120 + x], MINIMAP_EMPTY);
        }
    }
    assert_eq!(buffer[10], MINIMAP_WALL);
    assert_eq!(buffer[10 * 120 + 10], MINIMAP_EMPTY);
    assert_eq!(buffer[10 * 120 + 9], MINIMAP_WALL);
    assert_eq!(buffer[20 * 120 + 50], MINIMAP_MARKED);
    assert_eq!(buffer[29 * 120 + 59], MINIMAP_MARKED);
    assert_eq!(buffer[50 * 120 + 99], MINIMAP_OTHER);
    assert_eq!(buffer[90 * 120 + 10], MINIMAP_OTHER);
    assert_eq!(buffer[50 * 120 + 50], MINIMAP_OTHER);
}

#[test]
fn the_minimap_leaves_the_rest_of_the_screen_alone() {
    let map = ten_by_ten();
    let player = Player::new(&map);
    let renderer = Renderer::new(120, 110, white()).with_minimap_size(100);
    let mut buffer = vec![0xABCD_EF01u32; 120 * 110];
    renderer.render_minimap(&map, &player, &mut buffer);
    for y in 0..110 {
        for x in 0..120 {
            if x >= 100 || y >= 100 {
                assert_eq!(buffer[y * 120 + x], 0xABCD_EF01);
            }
        }
    }
}

#[test]
fn the_minimap_marks_the_viewer() {
    let map = ten_by_ten();
    let player = Player::new(&map);
    assert_eq!((player.x, player.y), (5 * U + U / 2, 5 * U + U / 2));
    let renderer = Renderer::new(120, 110, white()).with_minimap_size(100);
    let mut buffer = vec![0u32; 120 * 110];
    renderer.render_minimap(&map, &player, &mut buffer);
    for y in 55..58 {
        for x in 55..58 {
            assert_eq!(buffer[y * 120 + x], MARKER_COLOR);
        }
    }
    assert_eq!(buffer[54 * 120 + 55], MINIMAP_OTHER);
    assert_eq!(buffer[55 * 120 + 58], MINIMAP_OTHER);
    assert_eq!(buffer[58 * 120 + 57], MINIMAP_OTHER);
}

#[test]
fn the_minimap_is_cut_to_the_screen() {
    let map = ten_by_ten();
    let player = Player::new(&map);
    let renderer = Renderer::new(30, 20, white()).with_minimap_size(100);
    let mut buffer = vec![7u32; 30 * 25];
    renderer.render_minimap(&map, &player, &mut buffer);
    assert_eq!(buffer[0], MINIMAP_WALL);
    assert_eq!(buffer[19 * 30 + 29], MINIMAP_EMPTY);
    for i in 20 * 30..25 * 30 {
        assert_eq!(buffer[i], 7);
    }
    let mut short = vec![7u32; 45];
    renderer.render_minimap(&map, &player, &mut short);
    assert_eq!(short[29], MINIMAP_WALL);
    assert_eq!(short[30], MINIMAP_WALL);
    assert_eq!(short[44], MINIMAP_WALL);
}

#[test]
fn a_minimap_of_no_size_shows_only_the_marker() {
    let map = ten_by_ten();
    let player = Player::new(&map);
    let renderer = Renderer::new(8, 8, white()).with_minimap_size(0);
    let mut buffer = vec![9u32; 64];
    renderer.render_minimap(&map, &player, &mut buffer);
    for y in 0..8 {
        for x in 0..8 {
            let expected = if x < 3 && y < 3 { MARKER_COLOR } else { 9 };
            assert_eq!(buffer[y * 8 + x], expected);
        }
    }
}
