//! Packed colours: eight bits each of alpha, red, green and blue, from the
//! highest byte down.

use vstd::prelude::*;
use crate::fixed::UNIT;

verus! {

/// The alpha channel of a packed colour.
pub open spec fn alpha_of(color: u32) -> int {
    color as int / 0x100_0000
}

/// The red channel of a packed colour.
pub open spec fn red_of(color: u32) -> int {
    (color as int / 0x1_0000) % 0x100
}

/// The green channel of a packed colour.
pub open spec fn green_of(color: u32) -> int {
    (color as int / 0x100) % 0x100
}

/// The blue channel of a packed colour.
pub open spec fn blue_of(color: u32) -> int {
    color as int % 0x100
}

/// The colour with the given channels and an alpha of 0.
pub open spec fn rgb(red: int, green: int, blue: int) -> int {
    red * 0x1_0000 + green * 0x100 + blue
}

/// The value `num / den` of the way from `from` to `to`, rounded down.
pub open spec fn mix(from: int, to: int, num: int, den: int) -> int {
    (from * (den - num) + to * num) / den
}

/// The colour `num / den` of the way from `start` to `end`, channel by
/// channel.
pub open spec fn lerped(start: u32, end: u32, num: int, den: int) -> int {
    rgb(
        mix(red_of(start), red_of(end), num, den),
        mix(green_of(start), green_of(end), num, den),
        mix(blue_of(start), blue_of(end), num, den),
    )
}

/// A channel seen from `distance` away: it keeps `1 / (1 + d² / 10)` of its
/// value, `d` being the distance in cells.
pub open spec fn dimmed(channel: int, distance: int) -> int {
    (channel * (10 * UNIT * UNIT)) / (10 * UNIT * UNIT + distance * distance)
}

/// A colour seen from `distance` away.
pub open spec fn shaded(color: u32, distance: int) -> int {
    rgb(
        dimmed(red_of(color), distance),
        dimmed(green_of(color), distance),
        dimmed(blue_of(color), distance),
    )
}

/// One channel blended from four neighbours: `tx / UNIT` of the way from
/// left to right, `ty / UNIT` of the way from top to bottom, rounded down.
pub open spec fn blend(c11: int, c21: int, c12: int, c22: int, tx: int, ty: int) -> int {
    ((c11 * (UNIT - tx) + c21 * tx) * (UNIT - ty) + (c12 * (UNIT - tx) + c22 * tx) * ty) / (UNIT
        * UNIT)
}

/// A colour blended from four neighbours, channel by channel.
pub open spec fn bilinear(c11: u32, c21: u32, c12: u32, c22: u32, tx: int, ty: int) -> int {
    rgb(
        blend(red_of(c11), red_of(c21), red_of(c12), red_of(c22), tx, ty),
        blend(green_of(c11), green_of(c21), green_of(c12), green_of(c22), tx, ty),
        blend(blue_of(c11), blue_of(c21), blue_of(c12), blue_of(c22), tx, ty),
    )
}

/// A mix of two channels is a channel.
pub proof fn lemma_mix_is_channel(from: int, to: int, num: int, den: int)
    requires
        0 <= from <= 255,
        0 <= to <= 255,
        0 <= num <= den,
        0 < den,
    ensures
        0 <= mix(from, to, num, den) <= 255,
        0 <= from * (den - num) + to * num <= 255 * den,
{
    let n = from * (den - num) + to * num;
    assert(0 <= n <= 255 * den) by (nonlinear_arith)
        requires
            n == from * (den - num) + to * num,
            0 <= from <= 255,
            0 <= to <= 255,
            0 <= num <= den,
    ;
    assert(0 <= n / den <= 255) by (nonlinear_arith)
        requires
            0 <= n <= 255 * den,
            0 < den,
    ;
}

/// A dimmed channel is a channel, no brighter than it was.
pub proof fn lemma_dimmed_is_channel(channel: int, distance: int)
    requires
        0 <= channel <= 255,
    ensures
        0 <= dimmed(channel, distance) <= channel,
{
    let full = 10 * UNIT * UNIT;
    let d2 = distance * distance;
    assert(0 <= d2) by (nonlinear_arith)
        requires
            d2 == distance * distance,
    ;
    assert(0 <= (channel * full) / (full + d2) <= channel) by (nonlinear_arith)
        requires
            0 <= channel,
            0 < full,
            0 <= d2,
    ;
}

/// What is further away is no brighter.
pub proof fn lemma_dimmed_decreasing(channel: int, near: int, far: int)
    requires
        0 <= channel,
        0 <= near <= far,
    ensures
        dimmed(channel, near) >= dimmed(channel, far),
{
    let full = 10 * UNIT * UNIT;
    let n2 = near * near;
    let f2 = far * far;
    assert(0 <= n2 <= f2) by (nonlinear_arith)
        requires
            0 <= near <= far,
            n2 == near * near,
            f2 == far * far,
    ;
    let lit = channel * full;
    assert(lit / (full + n2) >= lit / (full + f2)) by (nonlinear_arith)
        requires
            0 <= lit,
            0 < full,
            0 <= n2 <= f2,
    ;
}

/// A blend of four channels is a channel.
pub proof fn lemma_blend_is_channel(c11: int, c21: int, c12: int, c22: int, tx: int, ty: int)
    requires
        0 <= c11 <= 255,
        0 <= c21 <= 255,
        0 <= c12 <= 255,
        0 <= c22 <= 255,
        0 <= tx <= UNIT,
        0 <= ty <= UNIT,
    ensures
        0 <= blend(c11, c21, c12, c22, tx, ty) <= 255,
        0 <= c11 * (UNIT - tx) + c21 * tx <= 255 * UNIT,
        0 <= c12 * (UNIT - tx) + c22 * tx <= 255 * UNIT,
        0 <= (c11 * (UNIT - tx) + c21 * tx) * (UNIT - ty) + (c12 * (UNIT - tx) + c22 * tx) * ty
            <= 255 * UNIT * UNIT,
{
    let unit = UNIT as int;
    lemma_mix_is_channel(c11, c21, tx, unit);
    lemma_mix_is_channel(c12, c22, tx, unit);
    let top = c11 * (unit - tx) + c21 * tx;
    let bottom = c12 * (unit - tx) + c22 * tx;
    let n = top * (unit - ty) + bottom * ty;
    assert(0 <= n <= 255 * unit * unit) by (nonlinear_arith)
        requires
            n == top * (unit - ty) + bottom * ty,
            0 <= top <= 255 * unit,
            0 <= bottom <= 255 * unit,
            0 <= ty <= unit,
            unit > 0,
    ;
    assert(0 <= n / (unit * unit) <= 255) by (nonlinear_arith)
        requires
            0 <= n <= 255 * unit * unit,
            unit == 65536,
    ;
}

/// The alpha channel of a packed colour.
pub fn alpha(color: u32) -> (channel: u8)
    ensures
        channel == alpha_of(color),
{
    (color / 0x100_0000) as u8
}

/// The red channel of a packed colour.
pub fn red(color: u32) -> (channel: u8)
    ensures
        channel == red_of(color),
{
    ((color / 0x1_0000) % 0x100) as u8
}

/// The green channel of a packed colour.
pub fn green(color: u32) -> (channel: u8)
    ensures
        channel == green_of(color),
{
    ((color / 0x100) % 0x100) as u8
}

/// The blue channel of a packed colour.
pub fn blue(color: u32) -> (channel: u8)
    ensures
        channel == blue_of(color),
{
    (color % 0x100) as u8
}

/// The colour with the given channels and no alpha.
pub fn pack(red: u8, green: u8, blue: u8) -> (color: u32)
    ensures
        color == rgb(red as int, green as int, blue as int),
        red_of(color) == red,
        green_of(color) == green,
        blue_of(color) == blue,
        alpha_of(color) == 0,
{
    red as u32 * 0x1_0000 + green as u32 * 0x100 + blue as u32
}

/// The value `num / den` of the way from `from` to `to`, rounded down.
pub fn lerp(from: u8, to: u8, num: u64, den: u64) -> (channel: u8)
    requires
        0 < den,
        num <= den,
    ensures
        channel == mix(from as int, to as int, num as int, den as int),
{
    proof {
        lemma_mix_is_channel(from as int, to as int, num as int, den as int);
    }
    assert(from * (den - num) <= 255 * den && to * num <= 255 * den) by (nonlinear_arith)
        requires
            0 <= from <= 255,
            0 <= to <= 255,
            0 <= num <= den,
    ;
    let n: u128 = from as u128 * (den - num) as u128 + to as u128 * num as u128;
    (n / den as u128) as u8
}

/// The colour `num / den` of the way from `start` to `end`.
pub fn color_lerp(start: u32, end: u32, num: u64, den: u64) -> (color: u32)
    requires
        0 < den,
        num <= den,
    ensures
        color == lerped(start, end, num as int, den as int),
{
    pack(
        lerp(red(start), red(end), num, den),
        lerp(green(start), green(end), num, den),
        lerp(blue(start), blue(end), num, den),
    )
}

/// A channel seen from `distance` away.
pub fn dim(channel: u8, distance: u64) -> (dimmer: u8)
    ensures
        dimmer == dimmed(channel as int, distance as int),
        dimmer <= channel,
{
    proof {
        lemma_dimmed_is_channel(channel as int, distance as int);
    }
    let full: u128 = 42_949_672_960;
    assert(full == 10 * UNIT * UNIT);
    assert(0 <= distance * distance <= 0xffff_ffff_ffff_ffff * 0xffff_ffff_ffff_ffff)
        by (nonlinear_arith)
        requires
            0 <= distance <= 0xffff_ffff_ffff_ffff,
    ;
    let d2: u128 = distance as u128 * distance as u128;
    ((channel as u128 * full) / (full + d2)) as u8
}

/// A colour seen from `distance` away.
pub fn apply_shade(color: u32, distance: u64) -> (dimmer: u32)
    ensures
        dimmer == shaded(color, distance as int),
{
    pack(dim(red(color), distance), dim(green(color), distance), dim(blue(color), distance))
}

/// One channel blended from four neighbours.
pub fn blend_channel(c11: u8, c21: u8, c12: u8, c22: u8, tx: u32, ty: u32) -> (channel: u8)
    requires
        tx <= UNIT,
        ty <= UNIT,
    ensures
        channel == blend(c11 as int, c21 as int, c12 as int, c22 as int, tx as int, ty as int),
{
    proof {
        lemma_blend_is_channel(
            c11 as int,
            c21 as int,
            c12 as int,
            c22 as int,
            tx as int,
            ty as int,
        );
    }
    let unit: u64 = 65536;
    let x: u64 = tx as u64;
    let y: u64 = ty as u64;
    assert(c11 * (unit - x) <= 255 * 65536 && c21 * x <= 255 * 65536 && c12 * (unit - x) <= 255
        * 65536 && c22 * x <= 255 * 65536) by (nonlinear_arith)
        requires
            0 <= c11 <= 255,
            0 <= c21 <= 255,
            0 <= c12 <= 255,
            0 <= c22 <= 255,
            0 <= x <= unit,
            unit == 65536,
    ;
    let top: u64 = c11 as u64 * (unit - x) + c21 as u64 * x;
    let bottom: u64 = c12 as u64 * (unit - x) + c22 as u64 * x;
    assert(top * (unit - y) <= 255 * 65536 * 65536 && bottom * y <= 255 * 65536 * 65536)
        by (nonlinear_arith)
        requires
            0 <= top <= 255 * 65536,
            0 <= bottom <= 255 * 65536,
            0 <= y <= unit,
            unit == 65536,
    ;
    ((top * (unit - y) + bottom * y) / (unit * unit)) as u8
}

/// A colour blended from four neighbours: `tx / UNIT` of the way from the
/// left pair to the right pair, `ty / UNIT` of the way from the top pair to
/// the bottom pair.
pub fn bilinear_interpolation(c11: u32, c21: u32, c12: u32, c22: u32, tx: u32, ty: u32) -> (color:
    u32)
    requires
        tx <= UNIT,
        ty <= UNIT,
    ensures
        color == bilinear(c11, c21, c12, c22, tx as int, ty as int),
{
    pack(
        blend_channel(red(c11), red(c21), red(c12), red(c22), tx, ty),
        blend_channel(green(c11), green(c21), green(c12), green(c22), tx, ty),
        blend_channel(blue(c11), blue(c21), blue(c12), blue(c22), tx, ty),
    )
}

} // verus!
