use maze_raycaster::scaling::{from_rgba_bytes, scale_texture, to_rgba_bytes};
use maze_raycaster::texture::Texture;
use maze_raycaster::ui::{
    chars_of, decimal_digits, digit, draw_char, draw_char_scaled, draw_image, draw_text, fps_label,
    get_font_data, show_image, FPS_BACKGROUND, FPS_COLOR, UI,
};

/// Whether the glyph with the given rows has a dot in column `dx` of row `dy`.
fn dot(rows: [u8; 8], dx: usize, dy: usize) -> bool {
    rows[dy] & (0x80 >> dx) != 0
}

const A: [u8; 8] = [0x0E, 0x11, 0x11, 0x1F, 0x11, 0x11, 0x11, 0x00];
const F: [u8; 8] = [0x1F, 0x10, 0x10, 0x1E, 0x10, 0x10, 0x10, 0x00];
const ONE: [u8; 8] = [0x04, 0x0C, 0x04, 0x04, 0x04, 0x04, 0x0E, 0x00];
const FIVE: [u8; 8] = [0x1F, 0x10, 0x1E, 0x01, 0x01, 0x11, 0x0E, 0x00];
const COLON: [u8; 8] = [0x00, 0x0C, 0x0C, 0x00, 0x0C, 0x0C, 0x00, 0x00];
const BLANK: [u8; 8] = [0; 8];

#[test]
fn the_font_has_capitals_digits_and_a_colon() {
    assert_eq!(get_font_data('A'), A);
    assert_eq!(get_font_data('F'), F);
    assert_eq!(get_font_data('Z'), [0x1F, 0x01, 0x02, 0x04, 0x08, 0x10, 0x1F, 0x00]);
    assert_eq!(get_font_data('0'), [0x0E, 0x11, 0x13, 0x15, 0x19, 0x11, 0x0E, 0x00]);
    assert_eq!(get_font_data('1'), ONE);
    assert_eq!(get_font_data('5'), FIVE);
    assert_eq!(get_font_data('9'), [0x0E, 0x11, 0x11, 0x0F, 0x01, 0x02, 0x0C, 0x00]);
    assert_eq!(get_font_data(':'), COLON);
}

#[test]
fn characters_without_a_glyph_are_blank() {
    for c in [' ', 'a', 'z', '!', '-', '\n', 'é', '\u{10FFFF}'] {
        assert_eq!(get_font_data(c), BLANK);
    }
}

#[test]
fn every_glyph_fits_five_columns_and_seven_rows() {
    for c in ('A'..='Z').chain('0'..='9').chain([':', ' ']) {
        let rows = get_font_data(c);
        assert_eq!(rows[7], 0);
        for row in rows {
            assert!(row < 0x20);
        }
    }
}

#[test]
fn numbers_are_written_in_decimal() {
    assert_eq!(decimal_digits(0), vec!['0']);
    assert_eq!(decimal_digits(7), vec!['7']);
    assert_eq!(decimal_digits(10), vec!['1', '0']);
    assert_eq!(decimal_digits(1_234), vec!['1', '2', '3', '4']);
    assert_eq!(decimal_digits(u32::MAX).iter().collect::<String>(), "4294967295");
    for d in 0..10 {
        assert_eq!(digit(d), char::from_digit(d, 10).unwrap());
    }
}

#[test]
fn the_frame_counter_is_labelled() {
    assert_eq!(fps_label(0).iter().collect::<String>(), "FPS: 0");
    assert_eq!(fps_label(15).iter().collect::<String>(), "FPS: 15");
    assert_eq!(fps_label(u32::MAX).iter().collect::<String>(), "FPS: 4294967295");
    assert_eq!(chars_of("FPS: 15"), fps_label(15));
    assert_eq!(chars_of(""), Vec::<char>::new());
    assert_eq!(chars_of("häß"), vec!['h', 'ä', 'ß']);
}

#[test]
fn a_character_is_drawn_dot_by_dot() {
    let mut buffer = vec![5u32; 12 * 10];
    draw_char(&mut buffer, 12, 'A', 1, 1, 0xFFFFFF, 0x101010);
    for y in 0..10usize {
        for x in 0..12usize {
            let expected = if (1..9).contains(&x) && (1..9).contains(&y) {
                if dot(A, x - 1, y - 1) {
                    0xFFFFFF
                } else {
                    0x101010
                }
            } else {
                5
            };
            assert_eq!(buffer[y * 12 + x], expected, "pixel {} {}", x, y);
        }
    }
    assert_eq!(buffer[1 * 12 + 5], 0xFFFFFF);
    assert_eq!(buffer[1 * 12 + 4], 0x101010);
}

#[test]
fn a_scaled_character_has_larger_dots() {
    let mut buffer = vec![5u32; 30 * 30];
    draw_char_scaled(&mut buffer, 30, 'F', 2, 3, 1, 2, 3);
    for y in 0..30usize {
        for x in 0..30usize {
            let expected = if (2..26).contains(&x) && (3..27).contains(&y) {
                if dot(F, (x - 2) / 3, (y - 3) / 3) {
                    1
                } else {
                    2
                }
            } else {
                5
            };
            assert_eq!(buffer[y * 30 + x], expected, "pixel {} {}", x, y);
        }
    }
}

#[test]
fn a_character_of_no_scale_is_not_drawn() {
    let mut buffer = vec![5u32; 100];
    draw_char_scaled(&mut buffer, 10, 'A', 0, 0, 1, 2, 0);
    assert_eq!(buffer, vec![5u32; 100]);
}

#[test]
fn characters_are_cut_at_the_edges() {
    let mut buffer = vec![5u32; 6 * 4];
    draw_char(&mut buffer, 6, 'A', 3, 2, 1, 2);
    for y in 0..4usize {
        for x in 0..6usize {
            let expected = if x >= 3 && y >= 2 {
                if dot(A, x - 3, y - 2) {
                    1
                } else {
                    2
                }
            } else {
                5
            };
            assert_eq!(buffer[y * 6 + x], expected, "pixel {} {}", x, y);
        }
    }
    let mut missed = vec![5u32; 24];
    draw_char(&mut missed, 6, 'A', 6, 0, 1, 2);
    draw_char(&mut missed, 6, 'A', 0, 4, 1, 2);
    draw_char(&mut missed, 6, 'A', usize::MAX, usize::MAX, 1, 2);
    draw_char(&mut missed, 0, 'A', 0, 0, 1, 2);
    assert_eq!(missed, vec![5u32; 24]);
}

#[test]
fn text_is_drawn_character_by_character() {
    let mut buffer = vec![5u32; 40 * 9];
    draw_text(&mut buffer, 40, "A1:", 4, 0, 9);
    let glyphs = [A, ONE, COLON];
    for y in 0..9usize {
        for x in 0..40usize {
            let expected = if (4..28).contains(&x) && y < 8 {
                if dot(glyphs[(x - 4) / 8], (x - 4) % 8, y) {
                    9
                } else {
                    0
                }
            } else {
                5
            };
            assert_eq!(buffer[y * 40 + x], expected, "pixel {} {}", x, y);
        }
    }
    let mut untouched = vec![5u32; 40];
    draw_text(&mut untouched, 40, "", 0, 0, 9);
    assert_eq!(untouched, vec![5u32; 40]);
}

fn pictures() -> UI {
    UI::new(
        Texture::new(1, 1, vec![0xFF11_1111]).expect("one texel"),
        Texture::new(1, 1, vec![0xFF22_2222]).expect("one texel"),
        Texture::new(1, 1, vec![0xFF33_3333]).expect("one texel"),
    )
}

#[test]
fn the_frame_counter_stands_in_the_top_right_corner() {
    let mut buffer = vec![5u32; 200 * 30];
    pictures().render_fps(15, &mut buffer, 200, 30);
    let glyphs = [F, [0x1E, 0x11, 0x11, 0x1E, 0x10, 0x10, 0x10, 0x00],
        [0x0E, 0x11, 0x10, 0x0E, 0x01, 0x11, 0x0E, 0x00], COLON, BLANK, ONE, FIVE];
    for y in 0..30usize {
        for x in 0..200usize {
            let expected = if (78..190).contains(&x) && (10..26).contains(&y) {
                let along = x - 78;
                if dot(glyphs[along / 16], (along % 16) / 2, (y - 10) / 2) {
                    FPS_COLOR
                } else {
                    FPS_BACKGROUND
                }
            } else {
                5
            };
            assert_eq!(buffer[y * 200 + x], expected, "pixel {} {}", x, y);
        }
    }
}

#[test]
fn the_frame_counter_is_cut_on_a_narrow_screen() {
    let mut buffer = vec![5u32; 50 * 30];
    pictures().render_fps(15, &mut buffer, 50, 30);
    // The text would start 72 pixels left of the screen.
    let glyphs = [F, BLANK, BLANK, COLON, BLANK, ONE, FIVE];
    for y in 0..30usize {
        for x in 0..50usize {
            let along = x + 72;
            let expected = if along < 112 && (10..26).contains(&y) {
                if along / 16 >= 4 && dot(glyphs[along / 16], (along % 16) / 2, (y - 10) / 2) {
                    FPS_COLOR
                } else {
                    FPS_BACKGROUND
                }
            } else {
                5
            };
            assert_eq!(buffer[y * 50 + x], expected, "pixel {} {}", x, y);
        }
    }
}

#[test]
fn an_image_is_copied_into_the_corner() {
    let image = Texture::new(2, 2, vec![1, 2, 3, 4]).expect("four texels");
    let mut buffer = vec![9u32; 12];
    draw_image(&mut buffer, 4, &image);
    assert_eq!(buffer, vec![1, 2, 9, 9, 3, 4, 9, 9, 9, 9, 9, 9]);
}

#[test]
fn an_image_is_cut_to_the_buffer() {
    let image = Texture::new(3, 3, vec![1, 2, 3, 4, 5, 6, 7, 8, 9]).expect("nine texels");
    let mut narrow = vec![0u32; 4];
    draw_image(&mut narrow, 2, &image);
    assert_eq!(narrow, vec![1, 2, 4, 5]);
    // Only full rows of the buffer are drawn into.
    let mut ragged = vec![0u32; 5];
    draw_image(&mut ragged, 2, &image);
    assert_eq!(ragged, vec![1, 2, 4, 5, 0]);
    let mut unusable = vec![0u32; 5];
    draw_image(&mut unusable, 0, &image);
    assert_eq!(unusable, vec![0u32; 5]);
    draw_image(&mut unusable, 6, &image);
    assert_eq!(unusable, vec![0u32; 5]);
}

#[test]
fn colours_become_bytes_and_back() {
    let pixels = vec![0x1234_5678u32, 0xFF00_0001, 0];
    let bytes = to_rgba_bytes(&pixels);
    assert_eq!(bytes, vec![0x34, 0x56, 0x78, 0x12, 0x00, 0x00, 0x01, 0xFF, 0, 0, 0, 0]);
    assert_eq!(from_rgba_bytes(&bytes), pixels);
    assert_eq!(from_rgba_bytes(&vec![1, 2, 3, 4, 5, 6]), vec![0x0401_0203]);
    assert_eq!(from_rgba_bytes(&vec![]), Vec::<u32>::new());
    assert_eq!(from_rgba_bytes(&vec![9, 9, 9]), Vec::<u32>::new());
}

#[test]
fn scaling_up_repeats_the_nearest_texel() {
    let image = Texture::new(2, 2, vec![0xFF00_0001, 0x8000_0002, 0x0000_0003, 0x0100_0004])
        .expect("four texels");
    let scaled = scale_texture(&image, 4, 4).expect("a small picture can be scaled");
    assert_eq!((scaled.width(), scaled.height()), (4, 4));
    let a = 0xFF00_0001;
    let b = 0x8000_0002;
    let c = 0x0000_0003;
    let d = 0x0100_0004;
    assert_eq!(*scaled.pixels(), vec![a, a, b, b, a, a, b, b, c, c, d, d, c, c, d, d]);
}

#[test]
fn scaling_down_keeps_some_texels() {
    let image = Texture::new(4, 1, vec![0xFF00_0001, 0xFF00_0002, 0xFF00_0003, 0xFF00_0004])
        .expect("four texels");
    let scaled = scale_texture(&image, 2, 1).expect("a small picture can be scaled");
    assert_eq!(*scaled.pixels(), vec![0xFF00_0002, 0xFF00_0004]);
    let same = scale_texture(&image, 4, 1).expect("a small picture can be scaled");
    assert_eq!(*same.pixels(), *image.pixels());
}

#[test]
fn scaling_to_or_from_nothing_gives_an_empty_or_a_blank_picture() {
    let image = Texture::new(2, 1, vec![0xFF00_0001, 0xFF00_0002]).expect("two texels");
    let none = scale_texture(&image, 0, 5).expect("nothing to allocate");
    assert_eq!((none.width(), none.height(), none.pixels().len()), (0, 5, 0));
    let blank = scale_texture(&Texture::empty(), 2, 2).expect("a small picture");
    assert_eq!(*blank.pixels(), vec![0, 0, 0, 0]);
}

#[test]
fn a_picture_too_large_for_memory_is_not_scaled() {
    let image = Texture::new(1, 1, vec![7]).expect("one texel");
    assert!(scale_texture(&image, u32::MAX, u32::MAX).is_none());
    assert!(show_image(&image, usize::MAX, 1).is_none());
    assert!(show_image(&image, 1, usize::MAX).is_none());
}

#[test]
fn a_picture_fills_the_screen() {
    let image = Texture::new(2, 1, vec![0xFF00_0001, 0xFF00_0002]).expect("two texels");
    let screen = show_image(&image, 4, 3).expect("a small screen");
    let a = 0xFF00_0001;
    let b = 0xFF00_0002;
    assert_eq!(screen, vec![a, a, b, b, a, a, b, b, a, a, b, b]);
    assert_eq!(show_image(&image, 0, 3), Some(vec![]));
}

#[test]
fn the_screens_between_games_show_their_pictures() {
    let ui = pictures();
    assert_eq!(ui.show_welcome_screen(2, 2), Some(vec![0xFF11_1111; 4]));
    assert_eq!(ui.show_victory_screen(3, 1), Some(vec![0xFF22_2222; 3]));
    assert_eq!(ui.show_game_over_screen(1, 2), Some(vec![0xFF33_3333; 2]));
}
