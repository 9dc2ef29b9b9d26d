//! Scaling a texture to another size.
//!
//! The resampling itself is done by the `image` crate; this module turns
//! packed colours into the bytes that crate works on and back, and states
//! what is taken on trust about the call.

use vstd::prelude::*;
use crate::color::{alpha, alpha_of, blue, blue_of, green, green_of, red, red_of};
use crate::texture::{Bitmap, Texture};

verus! {

/// Channel `k` of a packed colour in the order red, green, blue, alpha.
pub open spec fn channel_of(color: u32, k: int) -> int {
    if k == 0 {
        red_of(color)
    } else if k == 1 {
        green_of(color)
    } else if k == 2 {
        blue_of(color)
    } else {
        alpha_of(color)
    }
}

/// The colours of `pixels` as bytes: red, green, blue and alpha of each, one
/// colour after the other.
pub open spec fn rgba_bytes(pixels: Seq<u32>) -> Seq<u8> {
    Seq::new(4 * pixels.len(), |i: int| channel_of(pixels[i / 4], i % 4) as u8)
}

/// The packed colour with the given channels.
pub open spec fn argb(alpha: int, red: int, green: int, blue: int) -> int {
    alpha * 0x100_0000 + red * 0x1_0000 + green * 0x100 + blue
}

/// The colours that `bytes` hold, four bytes each in the order red, green,
/// blue, alpha.
pub open spec fn packed_pixels(bytes: Seq<u8>) -> Seq<u32> {
    Seq::new(
        bytes.len() / 4,
        |i: int|
            argb(
                bytes[4 * i + 3] as int,
                bytes[4 * i] as int,
                bytes[4 * i + 1] as int,
                bytes[4 * i + 2] as int,
            ) as u32,
    )
}

/// The bytes of the image that `image::imageops::resize` returns for the
/// nearest-neighbour filter, given the bytes and size of an image and the
/// size asked for.
pub uninterp spec fn resized_nearest(
    bytes: Seq<u8>,
    width: u32,
    height: u32,
    new_width: u32,
    new_height: u32,
) -> Seq<u8>;

/// Calls `image::imageops::resize` with `FilterType::Nearest` on the image of
/// `width` by `height` pixels whose channels `bytes` holds. Taken on trust:
/// the call returns for these arguments, its result depends on them alone,
/// and it holds four bytes for each pixel of the size asked for. The
/// conditions keep the buffers that the crate allocates, the result and a
/// floating-point intermediate of `width` by `new_height` pixels, within
/// what a vector can hold.
#[verifier::external_body]
fn resize_nearest(
    bytes: &Vec<u8>,
    width: u32,
    height: u32,
    new_width: u32,
    new_height: u32,
) -> (resized: Vec<u8>)
    requires
        bytes.len() == 4 * (width * height),
        16 * (width * new_height) <= isize::MAX,
        4 * (new_width * new_height) <= isize::MAX,
    ensures
        resized@ == resized_nearest(bytes@, width, height, new_width, new_height),
        resized.len() == 4 * (new_width * new_height),
{
    let source = image::RgbaImage::from_raw(width, height, bytes.clone()).unwrap();
    let filter = image::imageops::FilterType::Nearest;
    image::imageops::resize(&source, new_width, new_height, filter).into_raw()
}

/// The colours of `pixels` as bytes.
pub fn to_rgba_bytes(pixels: &Vec<u32>) -> (bytes: Vec<u8>)
    requires
        4 * pixels.len() <= usize::MAX,
    ensures
        bytes@ == rgba_bytes(pixels@),
{
    let mut bytes: Vec<u8> = Vec::new();
    let mut i: usize = 0;
    while i < pixels.len()
        invariant
            i <= pixels.len(),
            bytes.len() == 4 * i,
            forall|j: int|
                0 <= j < 4 * i ==> #[trigger] bytes[j] == channel_of(pixels[j / 4], j % 4),
        decreases pixels.len() - i,
    {
        let color = pixels[i];
        bytes.push(red(color));
        bytes.push(green(color));
        bytes.push(blue(color));
        bytes.push(alpha(color));
        i += 1;
    }
    assert(bytes@ =~= rgba_bytes(pixels@));
    bytes
}

/// The colours that `bytes` hold.
pub fn from_rgba_bytes(bytes: &Vec<u8>) -> (pixels: Vec<u32>)
    ensures
        pixels@ == packed_pixels(bytes@),
{
    let count = bytes.len() / 4;
    let mut pixels: Vec<u32> = Vec::new();
    let mut i: usize = 0;
    while i < count
        invariant
            i <= count,
            count == bytes.len() / 4,
            pixels.len() == i,
            forall|j: int| 0 <= j < i ==> #[trigger] pixels[j] == packed_pixels(bytes@)[j],
        decreases count - i,
    {
        let r = bytes[4 * i] as u32;
        let g = bytes[4 * i + 1] as u32;
        let b = bytes[4 * i + 2] as u32;
        let a = bytes[4 * i + 3] as u32;
        pixels.push(a * 0x100_0000 + r * 0x1_0000 + g * 0x100 + b);
        i += 1;
    }
    assert(pixels@ =~= packed_pixels(bytes@));
    pixels
}

/// What `texture` becomes when it is scaled to `new_width` by `new_height`
/// texels.
pub open spec fn scaled_bitmap(texture: Bitmap, new_width: u32, new_height: u32) -> Bitmap {
    Bitmap {
        width: new_width as int,
        height: new_height as int,
        pixels: packed_pixels(
            resized_nearest(
                rgba_bytes(texture.pixels),
                texture.width as u32,
                texture.height as u32,
                new_width,
                new_height,
            ),
        ),
    }
}

/// Whether a texture `width` texels wide can be scaled to `new_width` by
/// `new_height` texels: the result and what is allocated on the way must fit
/// into memory.
pub open spec fn can_scale(width: int, new_width: int, new_height: int) -> bool {
    &&& 16 * (width * new_height) <= isize::MAX
    &&& 4 * (new_width * new_height) <= isize::MAX
}

/// `texture` scaled to `new_width` by `new_height` texels with the
/// nearest-neighbour filter of the `image` crate. `None` if the texture is too
/// large for its bytes to be laid out, or the result for memory.
pub fn scale_texture(texture: &Texture, new_width: u32, new_height: u32) -> (scaled: Option<
    Texture,
>)
    ensures
        scaled is Some <==> can_scale(texture@.width, new_width as int, new_height as int) && 4
            * texture@.pixels.len() <= usize::MAX,
        scaled is Some ==> scaled.unwrap()@ == scaled_bitmap(texture@, new_width, new_height),
{
    let pixels = texture.pixels();
    let width = texture.width();
    let height = texture.height();
    let limit: u128 = isize::MAX as u128;
    assert(width * new_height <= 0xffff_ffff * 0xffff_ffff && new_width * new_height <= 0xffff_ffff
        * 0xffff_ffff) by (nonlinear_arith)
        requires
            0 <= width <= 0xffff_ffff,
            0 <= new_width <= 0xffff_ffff,
            0 <= new_height <= 0xffff_ffff,
    ;
    if 16 * (width as u128 * new_height as u128) > limit || 4 * (new_width as u128
        * new_height as u128) > limit || pixels.len() > usize::MAX / 4 {
        return None;
    }
    let bytes = to_rgba_bytes(pixels);
    let resized = resize_nearest(&bytes, width, height, new_width, new_height);
    let colors = from_rgba_bytes(&resized);
    assert(colors.len() == new_width * new_height);
    Texture::new(new_width, new_height, colors)
}

} // verus!
