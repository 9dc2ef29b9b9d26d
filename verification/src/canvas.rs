//! Pixel buffers: colours stored row after row, and layers painted over them.

use vstd::prelude::*;

verus! {

/// A place on a screen has one index, and the index gives the place back.
pub proof fn lemma_place_of_index(column: int, row: int, width: int)
    requires
        0 <= column < width,
        0 <= row,
    ensures
        (row * width + column) % width == column,
        (row * width + column) / width == row,
        0 <= row * width + column,
{
    assert((row * width + column) % width == column && (row * width + column) / width == row && 0
        <= row * width) by (nonlinear_arith)
        requires
            0 <= column < width,
            0 <= row,
    ;
}

/// An index on a screen belongs to one place.
pub proof fn lemma_index_of_place(index: int, width: int)
    requires
        0 <= index,
        0 < width,
    ensures
        index == (index / width) * width + index % width,
        0 <= index % width < width,
        0 <= index / width,
{
    assert(index == (index / width) * width + index % width && 0 <= index % width < width && 0
        <= index / width) by (nonlinear_arith)
        requires
            0 <= index,
            0 < width,
    ;
}

/// A rectangle of places: columns from `left` up to `right`, rows from `top`
/// up to `bottom`.
#[derive(Clone, Copy, Debug, PartialEq, Eq, Structural)]
pub(crate) struct Region {
    pub left: usize,
    pub top: usize,
    pub right: usize,
    pub bottom: usize,
}

impl Region {
    /// Whether the place in `column` and `row` belongs to the rectangle.
    pub(crate) open spec fn holds(self, column: int, row: int) -> bool {
        self.left <= column < self.right && self.top <= row < self.bottom
    }
}

/// `v` cut to the range from 0 to `limit`.
pub fn clamp_to(v: i128, limit: usize) -> (cut: usize)
    ensures
        cut == (if v < 0 {
            0
        } else if v > limit {
            limit as int
        } else {
            v as int
        }),
{
    if v < 0 {
        0
    } else if v > limit as i128 {
        limit
    } else {
        v as usize
    }
}

/// Something that is painted over a picture: it gives each place a colour
/// that may depend on the colour under it.
pub(crate) trait Layer {
    /// The colour of the place in `column` and `row`, over the colour `under`.
    spec fn shade(&self, column: int, row: int, under: u32) -> u32;

    /// Computes `shade`.
    fn paint(&self, column: usize, row: usize, under: u32) -> (color: u32)
        ensures
            color == self.shade(column as int, row as int, under);
}

/// The colour that index `i` of a buffer `width` columns wide holds after
/// `layer` was painted over `region`, if it held `under` before.
pub(crate) open spec fn painted<L: Layer>(
    layer: &L,
    region: Region,
    width: int,
    i: int,
    under: u32,
) -> u32 {
    if width > 0 && region.holds(i % width, i / width) {
        layer.shade(i % width, i / width, under)
    } else {
        under
    }
}

/// Paints `layer` over the places of `region` in a buffer `width` columns
/// wide. Places that the buffer does not hold are passed over.
pub(crate) fn paint_region<L: Layer>(buffer: &mut Vec<u32>, width: usize, layer: &L, region: Region)
    ensures
        final(buffer).len() == old(buffer).len(),
        forall|i: int|
            0 <= i < old(buffer).len() ==> #[trigger] final(buffer)[i] == painted(
                layer,
                region,
                width as int,
                i,
                old(buffer)[i],
            ),
{
    if width == 0 {
        return ;
    }
    let len = buffer.len();
    let rows: usize = len / width;
    let row_end: usize = if region.bottom <= rows {
        region.bottom
    } else {
        rows + 1
    };
    let column_end: usize = if region.right <= width {
        region.right
    } else {
        width
    };
    let mut y: usize = region.top;
    while y < row_end
        invariant
            width > 0,
            region.top <= y,
            len == old(buffer).len(),
            buffer.len() == len,
            rows == len / width,
            row_end <= rows + 1,
            row_end <= region.bottom,
            column_end <= width,
            column_end <= region.right,
            column_end == region.right || column_end == width,
            forall|i: int|
                0 <= i < len ==> #[trigger] buffer[i] == (if i / (width as int) < y {
                    painted(layer, region, width as int, i, old(buffer)[i])
                } else {
                    old(buffer)[i]
                }),
        decreases row_end - y,
    {
        let mut x: usize = region.left;
        while x < column_end
            invariant
                width > 0,
                y < row_end,
                region.top <= y,
                region.left <= x,
                len == old(buffer).len(),
                buffer.len() == len,
                rows == len / width,
                row_end <= rows + 1,
                row_end <= region.bottom,
                column_end <= width,
                column_end <= region.right,
                forall|i: int|
                    0 <= i < len ==> #[trigger] buffer[i] == (if i / (width as int) < y || (i / (
                    width as int) == y && i % (width as int) < x) {
                        painted(layer, region, width as int, i, old(buffer)[i])
                    } else {
                        old(buffer)[i]
                    }),
            decreases column_end - x,
        {
            assert(y * width <= len) by (nonlinear_arith)
                requires
                    y <= (len as int) / (width as int),
                    width > 0,
                    0 <= len,
            ;
            let at: u128 = y as u128 * width as u128 + x as u128;
            if at < len as u128 {
                proof {
                    lemma_place_of_index(x as int, y as int, width as int);
                }
                let i: usize = at as usize;
                let ghost before = buffer@;
                let color = layer.paint(x, y, buffer[i]);
                buffer[i] = color;
                assert forall|j: int| 0 <= j < len implies #[trigger] buffer[j] == (if j / (
                width as int) < y || (j / (width as int) == y && j % (width as int) < x + 1) {
                    painted(layer, region, width as int, j, old(buffer)[j])
                } else {
                    old(buffer)[j]
                }) by {
                    lemma_index_of_place(j, width as int);
                    if j != i {
                        assert(buffer[j] == before[j]);
                    }
                }
            } else {
                assert forall|j: int| 0 <= j < len implies #[trigger] buffer[j] == (if j / (
                width as int) < y || (j / (width as int) == y && j % (width as int) < x + 1) {
                    painted(layer, region, width as int, j, old(buffer)[j])
                } else {
                    old(buffer)[j]
                }) by {
                    lemma_index_of_place(j, width as int);
                }
            }
            x += 1;
        }
        assert forall|j: int| 0 <= j < len implies #[trigger] buffer[j] == (if j / (width as int)
            < y + 1 {
            painted(layer, region, width as int, j, old(buffer)[j])
        } else {
            old(buffer)[j]
        }) by {
            lemma_index_of_place(j, width as int);
        }
        y += 1;
    }
    assert forall|j: int| 0 <= j < len implies #[trigger] buffer[j] == painted(
        layer,
        region,
        width as int,
        j,
        old(buffer)[j],
    ) by {
        lemma_index_of_place(j, width as int);
        assert(j / (width as int) <= (len as int) / (width as int)) by (nonlinear_arith)
            requires
                0 <= j < len,
                width > 0,
        ;
    }
}

} // verus!
