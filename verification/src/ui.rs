//! Text and pictures on the screen: an 8 by 8 bitmap font with what is
//! written in it, and the pictures shown between games.

use vstd::prelude::*;
use crate::canvas::{clamp_to, lemma_index_of_place, paint_region, painted, Layer, Region};
use crate::scaling::{can_scale, scale_texture, scaled_bitmap};
use crate::texture::{Bitmap, Texture};

verus! {

/// The colour of the frame counter's text.
pub const FPS_COLOR: u32 = 0xFFFFFF;

/// The colour behind the frame counter's text.
pub const FPS_BACKGROUND: u32 = 0x000000;

/// The number of pixels for each dot of the frame counter's text.
pub const FPS_SCALE: usize = 2;

/// The gap between the frame counter and the edges of the screen.
pub const FPS_MARGIN: usize = 10;

/// The eight rows of the glyph for `c`, from the top down. Each row is a byte
/// whose bits are the dots of the row, the highest bit leftmost. Letters are
/// drawn for capitals only; a character without a glyph is blank.
pub open spec fn glyph(c: char) -> Seq<u8> {
    if c == 'A' {
        seq![0x0E, 0x11, 0x11, 0x1F, 0x11, 0x11, 0x11, 0x00]
    } else if c == 'B' {
        seq![0x1E, 0x11, 0x11, 0x1E, 0x11, 0x11, 0x1E, 0x00]
    } else if c == 'C' {
        seq![0x0E, 0x11, 0x10, 0x10, 0x10, 0x11, 0x0E, 0x00]
    } else if c == 'D' {
        seq![0x1E, 0x11, 0x11, 0x11, 0x11, 0x11, 0x1E, 0x00]
    } else if c == 'E' {
        seq![0x1F, 0x10, 0x10, 0x1E, 0x10, 0x10, 0x1F, 0x00]
    } else if c == 'F' {
        seq![0x1F, 0x10, 0x10, 0x1E, 0x10, 0x10, 0x10, 0x00]
    } else if c == 'G' {
        seq![0x0E, 0x11, 0x10, 0x17, 0x11, 0x11, 0x0E, 0x00]
    } else if c == 'H' {
        seq![0x11, 0x11, 0x11, 0x1F, 0x11, 0x11, 0x11, 0x00]
    } else if c == 'I' {
        seq![0x0E, 0x04, 0x04, 0x04, 0x04, 0x04, 0x0E, 0x00]
    } else if c == 'J' {
        seq![0x01, 0x01, 0x01, 0x01, 0x11, 0x11, 0x0E, 0x00]
    } else if c == 'K' {
        seq![0x11, 0x12, 0x14, 0x18, 0x14, 0x12, 0x11, 0x00]
    } else if c == 'L' {
        seq![0x10, 0x10, 0x10, 0x10, 0x10, 0x10, 0x1F, 0x00]
    } else if c == 'M' {
        seq![0x11, 0x1B, 0x15, 0x11, 0x11, 0x11, 0x11, 0x00]
    } else if c == 'N' {
        seq![0x11, 0x19, 0x15, 0x13, 0x11, 0x11, 0x11, 0x00]
    } else if c == 'O' {
        seq![0x0E, 0x11, 0x11, 0x11, 0x11, 0x11, 0x0E, 0x00]
    } else if c == 'P' {
        seq![0x1E, 0x11, 0x11, 0x1E, 0x10, 0x10, 0x10, 0x00]
    } else if c == 'Q' {
        seq![0x0E, 0x11, 0x11, 0x11, 0x15, 0x12, 0x0D, 0x00]
    } else if c == 'R' {
        seq![0x1E, 0x11, 0x11, 0x1E, 0x14, 0x12, 0x11, 0x00]
    } else if c == 'S' {
        seq![0x0E, 0x11, 0x10, 0x0E, 0x01, 0x11, 0x0E, 0x00]
    } else if c == 'T' {
        seq![0x1F, 0x04, 0x04, 0x04, 0x04, 0x04, 0x04, 0x00]
    } else if c == 'U' {
        seq![0x11, 0x11, 0x11, 0x11, 0x11, 0x11, 0x0E, 0x00]
    } else if c == 'V' {
        seq![0x11, 0x11, 0x11, 0x11, 0x11, 0x0A, 0x04, 0x00]
    } else if c == 'W' {
        seq![0x11, 0x11, 0x11, 0x15, 0x15, 0x1B, 0x11, 0x00]
    } else if c == 'X' {
        seq![0x11, 0x11, 0x0A, 0x04, 0x0A, 0x11, 0x11, 0x00]
    } else if c == 'Y' {
        seq![0x11, 0x11, 0x0A, 0x04, 0x04, 0x04, 0x04, 0x00]
    } else if c == 'Z' {
        seq![0x1F, 0x01, 0x02, 0x04, 0x08, 0x10, 0x1F, 0x00]
    } else if c == '0' {
        seq![0x0E, 0x11, 0x13, 0x15, 0x19, 0x11, 0x0E, 0x00]
    } else if c == '1' {
        seq![0x04, 0x0C, 0x04, 0x04, 0x04, 0x04, 0x0E, 0x00]
    } else if c == '2' {
        seq![0x0E, 0x11, 0x01, 0x02, 0x04, 0x08, 0x1F, 0x00]
    } else if c == '3' {
        seq![0x0E, 0x11, 0x01, 0x06, 0x01, 0x11, 0x0E, 0x00]
    } else if c == '4' {
        seq![0x02, 0x06, 0x0A, 0x12, 0x1F, 0x02, 0x02, 0x00]
    } else if c == '5' {
        seq![0x1F, 0x10, 0x1E, 0x01, 0x01, 0x11, 0x0E, 0x00]
    } else if c == '6' {
        seq![0x06, 0x08, 0x10, 0x1E, 0x11, 0x11, 0x0E, 0x00]
    } else if c == '7' {
        seq![0x1F, 0x01, 0x02, 0x04, 0x08, 0x08, 0x08, 0x00]
    } else if c == '8' {
        seq![0x0E, 0x11, 0x11, 0x0E, 0x11, 0x11, 0x0E, 0x00]
    } else if c == '9' {
        seq![0x0E, 0x11, 0x11, 0x0F, 0x01, 0x02, 0x0C, 0x00]
    } else if c == ':' {
        seq![0x00, 0x0C, 0x0C, 0x00, 0x0C, 0x0C, 0x00, 0x00]
    } else {
        seq![0x00, 0x00, 0x00, 0x00, 0x00, 0x00, 0x00, 0x00]
    }
}

/// The value of bit `k` of a byte.
pub open spec fn place_value(k: int) -> int {
    if k <= 0 {
        1
    } else if k == 1 {
        2
    } else if k == 2 {
        4
    } else if k == 3 {
        8
    } else if k == 4 {
        16
    } else if k == 5 {
        32
    } else if k == 6 {
        64
    } else {
        128
    }
}

/// Whether the glyph for `c` has a dot in column `dx` of row `dy`.
pub open spec fn glyph_dot(c: char, dx: int, dy: int) -> bool {
    (glyph(c)[dy] as int / place_value(7 - dx)) % 2 == 1
}

/// The colour of the pixel in `column` and `row` once `text` is written over
/// the colour `under`, its top left corner at `(x, y)`, each dot `scale`
/// pixels wide and high: `color` on the dots of its glyphs, `background`
/// around them, and `under` outside the text's box.
pub open spec fn text_pixel(
    text: Seq<char>,
    x: int,
    y: int,
    color: u32,
    background: u32,
    scale: int,
    column: int,
    row: int,
    under: u32,
) -> u32 {
    let along = column - x;
    let down = row - y;
    if scale > 0 && 0 <= along < text.len() * 8 * scale && 0 <= down < 8 * scale {
        if glyph_dot(text[along / (8 * scale)], (along % (8 * scale)) / scale, down / scale) {
            color
        } else {
            background
        }
    } else {
        under
    }
}

/// The character for the digit `d`.
pub open spec fn digit_char(d: int) -> char {
    if d == 0 {
        '0'
    } else if d == 1 {
        '1'
    } else if d == 2 {
        '2'
    } else if d == 3 {
        '3'
    } else if d == 4 {
        '4'
    } else if d == 5 {
        '5'
    } else if d == 6 {
        '6'
    } else if d == 7 {
        '7'
    } else if d == 8 {
        '8'
    } else {
        '9'
    }
}

/// The decimal digits of `n`, the highest first.
pub open spec fn decimal(n: nat) -> Seq<char>
    decreases n,
{
    if n < 10 {
        seq![digit_char(n as int)]
    } else {
        decimal(n / 10).push(digit_char((n % 10) as int))
    }
}

/// What the frame counter shows for `fps` frames in a second.
pub open spec fn fps_text(fps: nat) -> Seq<char> {
    seq!['F', 'P', 'S', ':', ' '] + decimal(fps)
}

/// The eight rows of the glyph for `c`.
pub fn get_font_data(c: char) -> (data: [u8; 8])
    ensures
        data@ == glyph(c),
{
    let data: [u8; 8] = match c {
        'A' => [0x0E, 0x11, 0x11, 0x1F, 0x11, 0x11, 0x11, 0x00],
        'B' => [0x1E, 0x11, 0x11, 0x1E, 0x11, 0x11, 0x1E, 0x00],
        'C' => [0x0E, 0x11, 0x10, 0x10, 0x10, 0x11, 0x0E, 0x00],
        'D' => [0x1E, 0x11, 0x11, 0x11, 0x11, 0x11, 0x1E, 0x00],
        'E' => [0x1F, 0x10, 0x10, 0x1E, 0x10, 0x10, 0x1F, 0x00],
        'F' => [0x1F, 0x10, 0x10, 0x1E, 0x10, 0x10, 0x10, 0x00],
        'G' => [0x0E, 0x11, 0x10, 0x17, 0x11, 0x11, 0x0E, 0x00],
        'H' => [0x11, 0x11, 0x11, 0x1F, 0x11, 0x11, 0x11, 0x00],
        'I' => [0x0E, 0x04, 0x04, 0x04, 0x04, 0x04, 0x0E, 0x00],
        'J' => [0x01, 0x01, 0x01, 0x01, 0x11, 0x11, 0x0E, 0x00],
        'K' => [0x11, 0x12, 0x14, 0x18, 0x14, 0x12, 0x11, 0x00],
        'L' => [0x10, 0x10, 0x10, 0x10, 0x10, 0x10, 0x1F, 0x00],
        'M' => [0x11, 0x1B, 0x15, 0x11, 0x11, 0x11, 0x11, 0x00],
        'N' => [0x11, 0x19, 0x15, 0x13, 0x11, 0x11, 0x11, 0x00],
        'O' => [0x0E, 0x11, 0x11, 0x11, 0x11, 0x11, 0x0E, 0x00],
        'P' => [0x1E, 0x11, 0x11, 0x1E, 0x10, 0x10, 0x10, 0x00],
        'Q' => [0x0E, 0x11, 0x11, 0x11, 0x15, 0x12, 0x0D, 0x00],
        'R' => [0x1E, 0x11, 0x11, 0x1E, 0x14, 0x12, 0x11, 0x00],
        'S' => [0x0E, 0x11, 0x10, 0x0E, 0x01, 0x11, 0x0E, 0x00],
        'T' => [0x1F, 0x04, 0x04, 0x04, 0x04, 0x04, 0x04, 0x00],
        'U' => [0x11, 0x11, 0x11, 0x11, 0x11, 0x11, 0x0E, 0x00],
        'V' => [0x11, 0x11, 0x11, 0x11, 0x11, 0x0A, 0x04, 0x00],
        'W' => [0x11, 0x11, 0x11, 0x15, 0x15, 0x1B, 0x11, 0x00],
        'X' => [0x11, 0x11, 0x0A, 0x04, 0x0A, 0x11, 0x11, 0x00],
        'Y' => [0x11, 0x11, 0x0A, 0x04, 0x04, 0x04, 0x04, 0x00],
        'Z' => [0x1F, 0x01, 0x02, 0x04, 0x08, 0x10, 0x1F, 0x00],
        '0' => [0x0E, 0x11, 0x13, 0x15, 0x19, 0x11, 0x0E, 0x00],
        '1' => [0x04, 0x0C, 0x04, 0x04, 0x04, 0x04, 0x0E, 0x00],
        '2' => [0x0E, 0x11, 0x01, 0x02, 0x04, 0x08, 0x1F, 0x00],
        '3' => [0x0E, 0x11, 0x01, 0x06, 0x01, 0x11, 0x0E, 0x00],
        '4' => [0x02, 0x06, 0x0A, 0x12, 0x1F, 0x02, 0x02, 0x00],
        '5' => [0x1F, 0x10, 0x1E, 0x01, 0x01, 0x11, 0x0E, 0x00],
        '6' => [0x06, 0x08, 0x10, 0x1E, 0x11, 0x11, 0x0E, 0x00],
        '7' => [0x1F, 0x01, 0x02, 0x04, 0x08, 0x08, 0x08, 0x00],
        '8' => [0x0E, 0x11, 0x11, 0x0E, 0x11, 0x11, 0x0E, 0x00],
        '9' => [0x0E, 0x11, 0x11, 0x0F, 0x01, 0x02, 0x0C, 0x00],
        ':' => [0x00, 0x0C, 0x0C, 0x00, 0x0C, 0x0C, 0x00, 0x00],
        _ => [0x00, 0x00, 0x00, 0x00, 0x00, 0x00, 0x00, 0x00],
    };
    assert(data@ =~= glyph(c));
    data
}

/// The character for the digit `d`.
pub fn digit(d: u32) -> (c: char)
    requires
        d < 10,
    ensures
        c == digit_char(d as int),
{
    match d {
        0 => '0',
        1 => '1',
        2 => '2',
        3 => '3',
        4 => '4',
        5 => '5',
        6 => '6',
        7 => '7',
        8 => '8',
        _ => '9',
    }
}

/// The decimal digits of `n`, the highest first.
pub fn decimal_digits(n: u32) -> (digits: Vec<char>)
    ensures
        digits@ == decimal(n as nat),
        1 <= digits.len() <= 10,
    decreases n,
{
    if n < 10 {
        let mut digits: Vec<char> = Vec::new();
        digits.push(digit(n));
        assert(digits@ =~= seq![digit_char(n as int)]);
        digits
    } else {
        let mut digits = decimal_digits(n / 10);
        digits.push(digit(n % 10));
        proof {
            lemma_decimal_length(n as nat);
        }
        digits
    }
}

/// A number below 10^k has at most k digits.
pub proof fn lemma_decimal_length(n: nat)
    ensures
        1 <= decimal(n).len(),
        n < 10 ==> decimal(n).len() == 1,
        n < 100 ==> decimal(n).len() <= 2,
        n < 1_000 ==> decimal(n).len() <= 3,
        n < 10_000 ==> decimal(n).len() <= 4,
        n < 100_000 ==> decimal(n).len() <= 5,
        n < 1_000_000 ==> decimal(n).len() <= 6,
        n < 10_000_000 ==> decimal(n).len() <= 7,
        n < 100_000_000 ==> decimal(n).len() <= 8,
        n < 1_000_000_000 ==> decimal(n).len() <= 9,
        n < 10_000_000_000 ==> decimal(n).len() <= 10,
    decreases n,
{
    if n >= 10 {
        lemma_decimal_length(n / 10);
    }
}

/// The characters of `text`.
pub fn chars_of(text: &str) -> (chars: Vec<char>)
    ensures
        chars@ == text@,
{
    let mut chars: Vec<char> = Vec::new();
    for c in it: text.chars()
        invariant
            it.seq() == text@,
            chars@ == text@.take(it.index() as int),
    {
        chars.push(c);
    }
    chars
}

/// A line of text, placed on the screen.
struct TextLayer<'a> {
    text: &'a Vec<char>,
    x: i128,
    y: i128,
    color: u32,
    background: u32,
    scale: usize,
}

impl<'a> TextLayer<'a> {
    #[verifier::type_invariant]
    spec fn wf(&self) -> bool {
        &&& -0x1_0000_0000_0000_0000 <= self.x <= 0x1_0000_0000_0000_0000
        &&& -0x1_0000_0000_0000_0000 <= self.y <= 0x1_0000_0000_0000_0000
    }
}

impl<'a> Layer for TextLayer<'a> {
    closed spec fn shade(&self, column: int, row: int, under: u32) -> u32 {
        text_pixel(
            self.text@,
            self.x as int,
            self.y as int,
            self.color,
            self.background,
            self.scale as int,
            column,
            row,
            under,
        )
    }

    fn paint(&self, column: usize, row: usize, under: u32) -> (color: u32) {
        if self.scale == 0 {
            return under;
        }
        proof {
            use_type_invariant(self);
        }
        let x: i128 = self.x;
        let y: i128 = self.y;
        if x > column as i128 || y > row as i128 {
            return under;
        }
        let along: u128 = (column as i128 - x) as u128;
        let down: u128 = (row as i128 - y) as u128;
        let span: u128 = 8 * self.scale as u128;
        if down >= span {
            return under;
        }
        let index: u128 = along / span;
        proof {
            let len = self.text@.len() as int;
            assert(index < len <==> along < len * 8 * self.scale) by (nonlinear_arith)
                requires
                    index == (along as int) / (span as int),
                    span == 8 * self.scale,
                    span > 0,
                    len >= 0,
                    along >= 0,
            ;
        }
        if index >= self.text.len() as u128 {
            return under;
        }
        let c = self.text[index as usize];
        let dx: u128 = (along % span) / self.scale as u128;
        let dy: u128 = down / self.scale as u128;
        assert(dx < 8 && dy < 8) by (nonlinear_arith)
            requires
                dx == ((along as int) % (span as int)) / (self.scale as int),
                dy == (down as int) / (self.scale as int),
                span == 8 * self.scale,
                0 <= down < span,
                0 <= along,
                self.scale > 0,
        ;
        let data = get_font_data(c);
        let bits: u8 = data[dy as usize];
        let place: u8 = match dx {
            0 => 128,
            1 => 64,
            2 => 32,
            3 => 16,
            4 => 8,
            5 => 4,
            6 => 2,
            _ => 1,
        };
        assert(place == place_value(7 - dx));
        assert(bits == glyph(c)[dy as int]);
        if (bits / place) % 2 == 1 {
            self.color
        } else {
            self.background
        }
    }
}

/// Writes `text` into `buffer`, which holds rows of `width` pixels, with its
/// top left corner at `(x, y)`. Pixels that the buffer does not hold are
/// passed over.
fn write_text(
    buffer: &mut Vec<u32>,
    width: usize,
    text: &Vec<char>,
    x: i128,
    y: i128,
    color: u32,
    background: u32,
    scale: usize,
)
    requires
        -0x1_0000_0000_0000_0000 <= x <= 0x1_0000_0000_0000_0000,
        -0x1_0000_0000_0000_0000 <= y <= 0x1_0000_0000_0000_0000,
    ensures
        final(buffer).len() == old(buffer).len(),
        forall|i: int|
            0 <= i < old(buffer).len() ==> #[trigger] final(buffer)[i] == (if width > 0 {
                text_pixel(
                    text@,
                    x as int,
                    y as int,
                    color,
                    background,
                    scale as int,
                    i % (width as int),
                    i / (width as int),
                    old(buffer)[i],
                )
            } else {
                old(buffer)[i]
            }),
{
    let layer = TextLayer { text, x, y, color, background, scale };
    assert(8 * scale <= 8 * 0xffff_ffff_ffff_ffff);
    let span: i128 = 8 * scale as i128;
    let right: usize = if text.len() <= 0xffff_ffff {
        assert(text.len() * span <= 0xffff_ffff * (8 * 0xffff_ffff_ffff_ffff)) by (nonlinear_arith)
            requires
                0 <= text.len() <= 0xffff_ffff,
                0 <= span <= 8 * 0xffff_ffff_ffff_ffff,
        ;
        clamp_to(x + text.len() as i128 * span, width)
    } else {
        width
    };
    let region = Region {
        left: clamp_to(x, width),
        top: clamp_to(y, usize::MAX),
        right,
        bottom: clamp_to(y + span, usize::MAX),
    };
    paint_region(buffer, width, &layer, region);
    assert forall|i: int| 0 <= i < old(buffer).len() && width > 0 implies #[trigger] buffer[i]
        == text_pixel(
        text@,
        x as int,
        y as int,
        color,
        background,
        scale as int,
        i % (width as int),
        i / (width as int),
        old(buffer)[i],
    ) by {
        lemma_index_of_place(i, width as int);
        assert(buffer[i] == painted(&layer, region, width as int, i, old(buffer)[i]));
        assert(text.len() * 8 * scale == text.len() * (8 * scale)) by (nonlinear_arith);
        assert(i / (width as int) < usize::MAX) by (nonlinear_arith)
            requires
                0 <= i < usize::MAX,
                width > 0,
        ;
    }
}

/// Writes the glyph for `c`, each dot `scale` pixels wide and high, with its
/// top left corner at `(x, y)`: `color` on its dots, `bg_color` around them.
pub fn draw_char_scaled(
    buffer: &mut Vec<u32>,
    width: usize,
    c: char,
    x: usize,
    y: usize,
    color: u32,
    bg_color: u32,
    scale: usize,
)
    ensures
        final(buffer).len() == old(buffer).len(),
        forall|i: int|
            0 <= i < old(buffer).len() ==> #[trigger] final(buffer)[i] == (if width > 0 {
                text_pixel(
                    seq![c],
                    x as int,
                    y as int,
                    color,
                    bg_color,
                    scale as int,
                    i % (width as int),
                    i / (width as int),
                    old(buffer)[i],
                )
            } else {
                old(buffer)[i]
            }),
{
    let mut text: Vec<char> = Vec::new();
    text.push(c);
    assert(text@ =~= seq![c]);
    write_text(buffer, width, &text, x as i128, y as i128, color, bg_color, scale);
}

/// Writes the glyph for `c` with its top left corner at `(x, y)`.
pub fn draw_char(
    buffer: &mut Vec<u32>,
    width: usize,
    c: char,
    x: usize,
    y: usize,
    color: u32,
    bg_color: u32,
)
    ensures
        final(buffer).len() == old(buffer).len(),
        forall|i: int|
            0 <= i < old(buffer).len() ==> #[trigger] final(buffer)[i] == (if width > 0 {
                text_pixel(
                    seq![c],
                    x as int,
                    y as int,
                    color,
                    bg_color,
                    1,
                    i % (width as int),
                    i / (width as int),
                    old(buffer)[i],
                )
            } else {
                old(buffer)[i]
            }),
{
    draw_char_scaled(buffer, width, c, x, y, color, bg_color, 1);
}

/// Writes `text` on a background of colour 0 with its top left corner at
/// `(x, y)`.
pub fn draw_text(buffer: &mut Vec<u32>, width: usize, text: &str, x: usize, y: usize, color: u32)
    ensures
        final(buffer).len() == old(buffer).len(),
        forall|i: int|
            0 <= i < old(buffer).len() ==> #[trigger] final(buffer)[i] == (if width > 0 {
                text_pixel(
                    text@,
                    x as int,
                    y as int,
                    color,
                    0,
                    1,
                    i % (width as int),
                    i / (width as int),
                    old(buffer)[i],
                )
            } else {
                old(buffer)[i]
            }),
{
    let chars = chars_of(text);
    write_text(buffer, width, &chars, x as i128, y as i128, color, 0, 1);
}

/// The text of the frame counter for `fps` frames in a second.
pub fn fps_label(fps: u32) -> (text: Vec<char>)
    ensures
        text@ == fps_text(fps as nat),
        6 <= text.len() <= 15,
{
    let mut text: Vec<char> = Vec::new();
    text.push('F');
    text.push('P');
    text.push('S');
    text.push(':');
    text.push(' ');
    let mut digits = decimal_digits(fps);
    assert(text@ =~= seq!['F', 'P', 'S', ':', ' ']);
    text.append(&mut digits);
    text
}

/// The colour of the pixel in `column` and `row` once `image` is copied over
/// the colour `under` into the top left corner of a buffer of `rows` full
/// rows.
pub open spec fn image_pixel(image: Bitmap, rows: int, column: int, row: int, under: u32) -> u32 {
    if 0 <= column < image.width && 0 <= row < image.height && row < rows {
        image.texel(column, row)
    } else {
        under
    }
}

/// An image, placed in the top left corner.
struct ImageLayer<'a> {
    image: &'a Texture,
    rows: usize,
}

impl<'a> Layer for ImageLayer<'a> {
    closed spec fn shade(&self, column: int, row: int, under: u32) -> u32 {
        image_pixel(self.image@, self.rows as int, column, row, under)
    }

    fn paint(&self, column: usize, row: usize, under: u32) -> (color: u32) {
        if column < self.image.width() as usize && row < self.image.height() as usize && row
            < self.rows {
            self.image.get_pixel(column as u32, row as u32)
        } else {
            under
        }
    }
}

/// Copies `image` into the top left corner of `buffer`, which holds rows of
/// `width` pixels. What does not fit into the width or into the full rows of
/// the buffer is left out.
pub fn draw_image(buffer: &mut Vec<u32>, width: usize, image: &Texture)
    ensures
        final(buffer).len() == old(buffer).len(),
        forall|i: int|
            0 <= i < old(buffer).len() ==> #[trigger] final(buffer)[i] == (if width > 0 {
                image_pixel(
                    image@,
                    old(buffer).len() as int / (width as int),
                    i % (width as int),
                    i / (width as int),
                    old(buffer)[i],
                )
            } else {
                old(buffer)[i]
            }),
{
    if width == 0 {
        return ;
    }
    let rows = buffer.len() / width;
    let layer = ImageLayer { image, rows };
    let region = Region {
        left: 0,
        top: 0,
        right: image.width() as usize,
        bottom: if (image.height() as usize) < rows {
            image.height() as usize
        } else {
            rows
        },
    };
    paint_region(buffer, width, &layer, region);
    assert forall|i: int| 0 <= i < old(buffer).len() implies #[trigger] buffer[i] == image_pixel(
        image@,
        old(buffer).len() as int / (width as int),
        i % (width as int),
        i / (width as int),
        old(buffer)[i],
    ) by {
        lemma_index_of_place(i, width as int);
        assert(buffer[i] == painted(&layer, region, width as int, i, old(buffer)[i]));
    }
}

/// Whether `image` can be shown on a screen of the given size: both sides
/// of the screen must fit 32 bits, and the scaling must fit into memory.
pub open spec fn showable(image: Bitmap, width: int, height: int) -> bool {
    &&& width <= u32::MAX
    &&& height <= u32::MAX
    &&& can_scale(image.width, width, height)
    &&& 4 * image.pixels.len() <= usize::MAX
}

/// `image` scaled to a screen of the given size, as the pixels of the screen
/// row after row.
pub open spec fn picture(image: Bitmap, width: int, height: int) -> Seq<u32> {
    Seq::new(
        (width * height) as nat,
        |i: int| scaled_bitmap(image, width as u32, height as u32).texel(i % width, i / width),
    )
}

/// What there is to show of `image` on a screen of the given size: its
/// picture, if it can be shown.
pub open spec fn shown(image: Bitmap, width: int, height: int) -> Option<Seq<u32>> {
    if showable(image, width, height) {
        Some(picture(image, width, height))
    } else {
        None
    }
}

/// The pixels of a screen that may be missing.
pub open spec fn screen_view(screen: Option<Vec<u32>>) -> Option<Seq<u32>> {
    match screen {
        Some(buffer) => Some(buffer@),
        None => None,
    }
}

/// A screen of the given size filled with `image`, scaled to fit it exactly:
/// the pixels row after row. `None` if the image cannot be shown at that
/// size.
pub fn show_image(image: &Texture, width: usize, height: usize) -> (screen: Option<Vec<u32>>)
    ensures
        screen_view(screen) == shown(image@, width as int, height as int),
{
    if width > u32::MAX as usize || height > u32::MAX as usize {
        return None;
    }
    match scale_texture(image, width as u32, height as u32) {
        None => None,
        Some(scaled) => {
            assert(width * height <= 0xffff_ffff * 0xffff_ffff) by (nonlinear_arith)
                requires
                    0 <= width <= 0xffff_ffff,
                    0 <= height <= 0xffff_ffff,
            ;
            assert(4 * (width * height) <= isize::MAX);
            let mut buffer: Vec<u32> = vec![0u32; width * height];
            let ghost blank = buffer@;
            draw_image(&mut buffer, width, &scaled);
            assert forall|i: int| 0 <= i < width * height implies #[trigger] buffer[i] == picture(
                image@,
                width as int,
                height as int,
            )[i] by {
                assert(width > 0) by (nonlinear_arith)
                    requires
                        0 <= i < width * height,
                ;
                lemma_index_of_place(i, width as int);
                assert(((width * height) as int) / (width as int) == height) by (nonlinear_arith)
                    requires
                        width > 0,
                        height >= 0,
                ;
                if i / (width as int) >= height {
                    assert((i / (width as int)) * width >= width * height) by (nonlinear_arith)
                        requires
                            i / (width as int) >= height,
                            width > 0,
                    ;
                }
                assert(buffer[i] == image_pixel(
                    scaled@,
                    (blank.len() as int) / (width as int),
                    i % (width as int),
                    i / (width as int),
                    blank[i],
                ));
            }
            assert(buffer@ =~= picture(image@, width as int, height as int));
            Some(buffer)
        },
    }
}

/// The pictures shown between games.
pub struct UI {
    pub welcome_image: Texture,
    pub victory_image: Texture,
    pub game_over_image: Texture,
}

impl UI {
    /// The user interface with the given pictures.
    pub fn new(welcome_image: Texture, victory_image: Texture, game_over_image: Texture) -> (ui:
        UI)
        ensures
            ui.welcome_image@ == welcome_image@,
            ui.victory_image@ == victory_image@,
            ui.game_over_image@ == game_over_image@,
    {
        UI { welcome_image, victory_image, game_over_image }
    }

    /// The welcome picture, scaled to a screen of the given size.
    pub fn show_welcome_screen(&self, width: usize, height: usize) -> (screen: Option<Vec<u32>>)
        ensures
            screen_view(screen) == shown(self.welcome_image@, width as int, height as int),
    {
        show_image(&self.welcome_image, width, height)
    }

    /// The victory picture, scaled to a screen of the given size.
    pub fn show_victory_screen(&self, width: usize, height: usize) -> (screen: Option<Vec<u32>>)
        ensures
            screen_view(screen) == shown(self.victory_image@, width as int, height as int),
    {
        show_image(&self.victory_image, width, height)
    }

    /// The picture for a lost game, scaled to a screen of the given size.
    pub fn show_game_over_screen(&self, width: usize, height: usize) -> (screen: Option<Vec<u32>>)
        ensures
            screen_view(screen) == shown(self.game_over_image@, width as int, height as int),
    {
        show_image(&self.game_over_image, width, height)
    }

    /// Writes the frame counter into the top right corner of `buffer`, which
    /// holds a screen `width` pixels wide: the text ends `FPS_MARGIN` pixels
    /// before the right edge and starts as many below the top.
    pub fn render_fps(&self, fps: u32, buffer: &mut Vec<u32>, width: usize, height: usize)
        ensures
            final(buffer).len() == old(buffer).len(),
            forall|i: int|
                0 <= i < old(buffer).len() ==> #[trigger] final(buffer)[i] == (if width > 0 {
                    text_pixel(
                        fps_text(fps as nat),
                        width - fps_text(fps as nat).len() * 8 * FPS_SCALE - FPS_MARGIN,
                        FPS_MARGIN as int,
                        FPS_COLOR,
                        FPS_BACKGROUND,
                        FPS_SCALE as int,
                        i % (width as int),
                        i / (width as int),
                        old(buffer)[i],
                    )
                } else {
                    old(buffer)[i]
                }),
    {
        let text = fps_label(fps);
        let x: i128 = width as i128 - (text.len() * 8 * FPS_SCALE) as i128 - FPS_MARGIN as i128;
        write_text(
            buffer,
            width,
            &text,
            x,
            FPS_MARGIN as i128,
            FPS_COLOR,
            FPS_BACKGROUND,
            FPS_SCALE,
        );
    }
}

} // verus!
