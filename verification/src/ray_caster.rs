//! A self-contained caster: it owns its maze, its player and one wall
//! texture, keeps the player out of walls by putting it back in the middle of
//! its cell, and draws the maze from inside and from above.

use vstd::prelude::*;
use crate::canvas::{lemma_place_of_index, paint_region, painted, Layer, Region};
use crate::fixed::{div_toward_zero, floor_div, toward_zero, UNIT};
use crate::framebuffer::{stake_end, stake_span, stake_start};
use crate::map::{cell_index, cell_of, GridMap, EMPTY};
use crate::player::Player;
use crate::raycaster::Intersect;
use crate::renderer::{column_hit, column_offset, column_ray};
use crate::texture::{lemma_index_in_area, Bitmap, Texture};
use crate::trig::{wrap_angle, TrigTable, TURN};

verus! {

/// The step with which this caster marches its rays: a tenth of a cell.
pub const CASTER_STEP: u16 = 6_554;

/// The side of a cell in the view from above, in pixels.
pub const CELL_PIXELS: usize = 20;

/// The side of the square that marks the player in the view from above.
pub const PLAYER_PIXELS: usize = 5;

/// The colour of the screen where nothing is drawn.
pub const BLACK: u32 = 0xFF000000;

/// The colour of the cells that are not empty, in the view from above.
pub const WHITE: u32 = 0xFFFFFFFF;

/// The colour of the player's mark.
pub const RED: u32 = 0xFFFF0000;

/// The point `distance` away from the player along its heading, if it has
/// 32-bit coordinates; the player's own place if not.
pub open spec fn advanced(player: Player, trig: &TrigTable, distance: int) -> Player {
    let to = player.target(trig, player.angle as int, distance);
    if i32::MIN <= to.0 <= i32::MAX && i32::MIN <= to.1 <= i32::MAX {
        Player { x: to.0 as i32, y: to.1 as i32, ..player }
    } else {
        player
    }
}

/// The middle of the cell-sized square in which coordinate `c` lies.
pub open spec fn snapped(c: int) -> int {
    (c / (UNIT as int)) * UNIT + UNIT / 2
}

/// Whether a player at `(x, y)` is where it may be: inside the grid, in an
/// empty cell.
pub open spec fn in_empty_cell(grid: Seq<Seq<char>>, x: int, y: int) -> bool {
    &&& cell_index(y) < grid.len()
    &&& cell_index(x) < grid[cell_index(y)].len()
    &&& grid[cell_index(y)][cell_index(x)] == EMPTY
}

/// The player after the collision check: where it is if it stands in an
/// empty cell, else in the middle of the square it stands in.
pub open spec fn settled(player: Player, grid: Seq<Seq<char>>) -> Player {
    if in_empty_cell(grid, player.x as int, player.y as int) {
        player
    } else {
        Player { x: snapped(player.x as int) as i32, y: snapped(player.y as int) as i32, ..player }
    }
}

/// The column of the wall texture that is shown for a ray at `angle`: as
/// far across the texture as the angle is through a turn, starting anew
/// with each turn. Angles below zero show the first column.
pub open spec fn texture_column(angle: int, texture_width: int) -> int {
    if angle < 0 || texture_width <= 0 {
        0
    } else {
        ((texture_width * angle) / (TURN as int)) % texture_width
    }
}

/// The row of the wall texture that is shown `down` rows below the top of a
/// wall slice at `distance` on a screen `height` rows high: as far down the
/// texture as the row is down the slice's exact height.
pub open spec fn texture_row(down: int, texture_height: int, height: int, distance: int) -> int {
    if height <= 0 {
        0
    } else if distance <= UNIT {
        (down * texture_height) / height
    } else {
        (down * texture_height * distance) / (height * UNIT)
    }
}

/// The colour of the pixel in `column` and `row` of the view from inside,
/// given what the column's ray found and at which `angle` it left.
pub open spec fn inside_pixel(
    texture: Bitmap,
    height: int,
    hit: Intersect,
    angle: int,
    row: int,
) -> u32 {
    let top = stake_start(height, hit.distance as int);
    let bottom = stake_end(height, hit.distance as int);
    if top <= row < bottom {
        texture.texel(
            texture_column(angle, texture.width),
            texture_row(row - top, texture.height, height, hit.distance as int),
        )
    } else {
        BLACK
    }
}

/// The pixel at which coordinate `c` is shown in the view from above.
pub open spec fn shown_at(c: int) -> int {
    toward_zero(c * CELL_PIXELS, UNIT as int)
}

/// The colour of the pixel in `column` and `row` of the view from above:
/// the player's mark, a square centred on the player; under it white for
/// each cell that is not empty, and black elsewhere.
pub open spec fn above_pixel(grid: Seq<Seq<char>>, player: Player, column: int, row: int) -> u32 {
    let left = shown_at(player.x as int) - 2;
    let top = shown_at(player.y as int) - 2;
    if left <= column < left + PLAYER_PIXELS && top <= row < top + PLAYER_PIXELS {
        RED
    } else if row / (CELL_PIXELS as int) < grid.len() && column / (CELL_PIXELS as int)
        < grid[row / (CELL_PIXELS as int)].len() && grid[row / (CELL_PIXELS as int)][column / (
    CELL_PIXELS as int)] != EMPTY {
        WHITE
    } else {
        BLACK
    }
}

/// What one column of the view from inside shows.
struct Slice {
    top: usize,
    bottom: usize,
    distance: u64,
    texture_x: u32,
}

/// The view from inside, column by column.
struct InsideLayer<'a> {
    texture: &'a Texture,
    slices: &'a Vec<Slice>,
    height: u32,
}

impl<'a> InsideLayer<'a> {
    #[verifier::type_invariant]
    spec fn wf(&self) -> bool {
        forall|column: int|
            0 <= column < self.slices.len() ==> (#[trigger] self.slices[column]).bottom
                <= self.height
    }
}

impl<'a> Layer for InsideLayer<'a> {
    closed spec fn shade(&self, column: int, row: int, under: u32) -> u32 {
        if 0 <= column < self.slices.len() {
            let slice = self.slices[column];
            if slice.top <= row < slice.bottom {
                self.texture@.texel(
                    slice.texture_x as int,
                    texture_row(
                        row - slice.top,
                        self.texture@.height,
                        self.height as int,
                        slice.distance as int,
                    ),
                )
            } else {
                BLACK
            }
        } else {
            under
        }
    }

    fn paint(&self, column: usize, row: usize, under: u32) -> (color: u32) {
        proof {
            use_type_invariant(self);
        }
        if column >= self.slices.len() {
            return under;
        }
        let slice = &self.slices[column];
        if row < slice.top || row >= slice.bottom {
            return BLACK;
        }
        if self.height == 0 {
            return self.texture.get_pixel(slice.texture_x, 0);
        }
        let down: u128 = (row - slice.top) as u128;
        let th: u128 = self.texture.height() as u128;
        assert(down * th <= 0xffff_ffff * 0xffff_ffff) by (nonlinear_arith)
            requires
                0 <= down <= 0xffff_ffff,
                0 <= th <= 0xffff_ffff,
        ;
        let ty: u128 = if slice.distance <= 65536 {
            (down * th) / self.height as u128
        } else {
            // down * th * distance may pass 128 bits; divide in two steps.
            let whole: u128 = self.height as u128 * 65536;
            let q: u128 = (down * th) / whole;
            let r: u128 = (down * th) % whole;
            assert(q <= 0x1_0000_0000_0000 && r < whole) by (nonlinear_arith)
                requires
                    q == (down * th) / (whole as int),
                    r == (down * th) % (whole as int),
                    0 <= down * th <= 0xffff_ffff * 0xffff_ffff,
                    whole >= 65536,
            ;
            assert(q * slice.distance <= 0x1_0000_0000_0000 * 0xffff_ffff_ffff_ffff && r
                * slice.distance <= 0x1_0000_0000_0000 * 0xffff_ffff_ffff_ffff)
                by (nonlinear_arith)
                requires
                    0 <= q <= 0x1_0000_0000_0000,
                    0 <= r <= 0x1_0000_0000_0000,
                    0 <= slice.distance <= 0xffff_ffff_ffff_ffff,
            ;
            let ty: u128 = q * slice.distance as u128 + (r * slice.distance as u128) / whole;
            assert(ty == (down * th * slice.distance) / (whole as int)) by (nonlinear_arith)
                requires
                    ty == q * slice.distance + (r * slice.distance) / (whole as int),
                    q == (down * th) / (whole as int),
                    r == (down * th) % (whole as int),
                    whole > 0,
                    0 <= down * th,
                    0 <= slice.distance,
            ;
            ty
        };
        if ty > u32::MAX as u128 {
            0
        } else {
            self.texture.get_pixel(slice.texture_x, ty as u32)
        }
    }
}

/// The view from above.
struct AboveLayer<'a> {
    map: &'a GridMap,
    left: i128,
    top: i128,
}

impl<'a> Layer for AboveLayer<'a> {
    closed spec fn shade(&self, column: int, row: int, under: u32) -> u32 {
        let grid = self.map@;
        if self.left <= column < self.left + PLAYER_PIXELS && self.top <= row < self.top
            + PLAYER_PIXELS {
            RED
        } else if row / (CELL_PIXELS as int) < grid.len() && column / (CELL_PIXELS as int)
            < grid[row / (CELL_PIXELS as int)].len() && grid[row / (CELL_PIXELS as int)][column
            / (CELL_PIXELS as int)] != EMPTY {
            WHITE
        } else {
            BLACK
        }
    }

    fn paint(&self, column: usize, row: usize, under: u32) -> (color: u32) {
        proof {
            use_type_invariant(self);
            use_type_invariant(self.map);
        }
        let x: i128 = column as i128;
        let y: i128 = row as i128;
        if self.left <= x && x < self.left + 5 && self.top <= y && y < self.top + 5 {
            return RED;
        }
        let cx = column / CELL_PIXELS;
        let cy = row / CELL_PIXELS;
        if cy < self.map.height() && cx < self.map.width() && self.map.get_cell(cx, cy) != EMPTY {
            WHITE
        } else {
            BLACK
        }
    }
}

impl<'a> AboveLayer<'a> {
    #[verifier::type_invariant]
    spec fn wf(&self) -> bool {
        &&& -0x1_0000_0000_0000 <= self.left <= 0x1_0000_0000_0000
        &&& -0x1_0000_0000_0000 <= self.top <= 0x1_0000_0000_0000
    }
}

/// The pixel at which coordinate `c` is shown in the view from above.
fn show_at(c: i32) -> (pixel: i128)
    ensures
        pixel == shown_at(c as int),
        -0x1_0000_0000_00 <= pixel <= 0x1_0000_0000_00,
{
    div_toward_zero(c as i128 * 20, 65536)
}

/// A maze, the player in it, and the texture of its walls.
pub struct RayCaster {
    pub map: GridMap,
    pub player: Player,
    pub wall_texture: Texture,
}

impl RayCaster {
    /// A caster for `map` with `player` in it.
    pub fn new(map: GridMap, player: Player, wall_texture: Texture) -> (caster: RayCaster)
        ensures
            caster == (RayCaster { map, player, wall_texture }),
    {
        RayCaster { map, player, wall_texture }
    }

    /// Turns the player by `angle`.
    pub fn rotate_player(&mut self, angle: i32)
        ensures
            *final(self) == (RayCaster {
                player: Player {
                    angle: wrap_angle(old(self).player.angle + angle) as u32,
                    ..old(self).player
                },
                ..*old(self)
            }),
    {
        self.player.rotate(angle);
    }

    /// Moves the player `distance` along its heading, then puts it back in
    /// the middle of its cell if it does not stand in an empty one.
    pub fn move_player_forward(&mut self, trig: &TrigTable, distance: i32)
        ensures
            *final(self) == (RayCaster {
                player: settled(advanced(old(self).player, trig, distance as int), old(self).map@),
                ..*old(self)
            }),
    {
        self.advance(trig, distance as i64);
        self.check_collision();
    }

    /// Moves the player `distance` against its heading, then puts it back in
    /// the middle of its cell if it does not stand in an empty one.
    pub fn move_player_backward(&mut self, trig: &TrigTable, distance: i32)
        ensures
            *final(self) == (RayCaster {
                player: settled(advanced(old(self).player, trig, -distance), old(self).map@),
                ..*old(self)
            }),
    {
        self.advance(trig, -(distance as i64));
        self.check_collision();
    }

    /// Moves the player `distance` along its heading, walls or not.
    fn advance(&mut self, trig: &TrigTable, distance: i64)
        requires
            -0x8000_0000 <= distance <= 0x8000_0000,
        ensures
            *final(self) == (RayCaster {
                player: advanced(old(self).player, trig, distance as int),
                ..*old(self)
            }),
    {
        match self.player.aim(trig, self.player.angle % TURN, distance) {
            Some((x, y)) => {
                self.player.x = x;
                self.player.y = y;
            },
            None => {},
        }
    }

    /// Puts the player back in the middle of its cell if it does not stand
    /// in an empty one.
    fn check_collision(&mut self)
        ensures
            *final(self) == (RayCaster {
                player: settled(old(self).player, old(self).map@),
                ..*old(self)
            }),
    {
        proof {
            use_type_invariant(&self.map);
        }
        let x = cell_of(self.player.x);
        let y = cell_of(self.player.y);
        let free = y < self.map.height() && x < self.map.width() && self.map.get_cell(x, y)
            == EMPTY;
        if !free {
            let unit: i128 = UNIT as i128;
            self.player.x = (floor_div(self.player.x as i128, unit) * unit + unit / 2) as i32;
            self.player.y = (floor_div(self.player.y as i128, unit) * unit + unit / 2) as i32;
        }
    }

    /// Draws the maze as the player sees it, on a black screen of the given
    /// size: in each column the rows of the wall the column's ray finds show
    /// one column of the wall texture, stretched over the wall's height.
    pub fn render_3d(&self, trig: &TrigTable, width: u32, height: u32, max_steps: u32) -> (buffer:
        Vec<u32>)
        requires
            width * height <= usize::MAX,
        ensures
            buffer.len() == width * height,
            forall|column: int, row: int|
                0 <= column < width && 0 <= row < height ==> #[trigger] buffer[row * width
                    + column] == inside_pixel(
                    self.wall_texture@,
                    height as int,
                    column_hit(
                        self.map@,
                        trig,
                        self.player,
                        width as int,
                        CASTER_STEP as int,
                        max_steps as int,
                        column,
                    ),
                    self.player.angle + column_offset(
                        self.player.fov as int,
                        column,
                        width as int,
                    ),
                    row,
                ),
    {
        proof {
            use_type_invariant(&self.wall_texture);
        }
        let rows: u32 = height;
        let width: usize = width as usize;
        let height: usize = height as usize;
        let mut slices: Vec<Slice> = Vec::new();
        let tw: u128 = self.wall_texture.width() as u128;
        let mut x: usize = 0;
        while x < width
            invariant
                x <= width,
                slices.len() == x,
                height == rows,
                forall|column: int| 0 <= column < x ==> (#[trigger] slices[column]).bottom <= rows,
                tw == self.wall_texture@.width,
                tw <= u32::MAX,
                forall|column: int|
                    0 <= column < x ==> {
                        let hit = column_hit(
                            self.map@,
                            trig,
                            self.player,
                            width as int,
                            CASTER_STEP as int,
                            max_steps as int,
                            column,
                        );
                        let slice = #[trigger] slices[column];
                        &&& slice.top == stake_start(height as int, hit.distance as int)
                        &&& slice.bottom == stake_end(height as int, hit.distance as int)
                        &&& slice.distance == hit.distance
                        &&& slice.texture_x == texture_column(
                            self.player.angle + column_offset(
                                self.player.fov as int,
                                column,
                                width as int,
                            ),
                            self.wall_texture@.width,
                        )
                    },
            decreases width - x,
        {
            let (hit, _) = column_ray(
                &self.map,
                trig,
                &self.player,
                width,
                CASTER_STEP,
                max_steps,
                x,
            );
            let (top, bottom) = stake_span(height, hit.distance);
            assert(self.player.fov * x <= 0xffff_ffff * 0xffff_ffff_ffff_ffff) by (nonlinear_arith)
                requires
                    0 <= self.player.fov <= 0xffff_ffff,
                    0 <= x <= 0xffff_ffff_ffff_ffff,
            ;
            let swept: u128 = (self.player.fov as u128 * x as u128) / width as u128;
            assert(swept <= self.player.fov) by (nonlinear_arith)
                requires
                    swept == (self.player.fov * x) / (width as int),
                    0 <= x < width,
                    0 <= self.player.fov,
            ;
            let angle: i128 = self.player.angle as i128 + swept as i128 - (self.player.fov
                / 2) as i128;
            let texture_x: u32 = if angle < 0 || tw == 0 {
                0
            } else {
                assert(tw * angle <= 0xffff_ffff * 0x2_0000_0000) by (nonlinear_arith)
                    requires
                        0 <= tw <= 0xffff_ffff,
                        0 <= angle <= 0x2_0000_0000,
                ;
                (((tw * angle as u128) / 36000) % tw) as u32
            };
            slices.push(Slice { top, bottom, distance: hit.distance, texture_x });
            x += 1;
        }
        let mut buffer: Vec<u32> = vec![BLACK; width * height];
        let ghost blank = buffer@;
        let layer = InsideLayer { texture: &self.wall_texture, slices: &slices, height: rows };
        let screen = Region { left: 0, top: 0, right: width, bottom: height };
        paint_region(&mut buffer, width, &layer, screen);
        assert forall|column: int, row: int|
            0 <= column < width && 0 <= row < height implies #[trigger] buffer[row * width
            + column] == inside_pixel(
            self.wall_texture@,
            height as int,
            column_hit(
                self.map@,
                trig,
                self.player,
                width as int,
                CASTER_STEP as int,
                max_steps as int,
                column,
            ),
            self.player.angle + column_offset(self.player.fov as int, column, width as int),
            row,
        ) by {
            lemma_index_in_area(column, row, width as int, height as int);
            lemma_place_of_index(column, row, width as int);
            let i = row * width + column;
            assert(buffer[i] == painted(&layer, screen, width as int, i, blank[i]));
            let slice = slices[column];
            assert(slice.top == stake_start(
                height as int,
                column_hit(
                    self.map@,
                    trig,
                    self.player,
                    width as int,
                    CASTER_STEP as int,
                    max_steps as int,
                    column,
                ).distance as int,
            ));
        }
        buffer
    }

    /// Draws the maze from above on a screen of the given size: each cell
    /// that is not empty as a white square, the player as a red one.
    pub fn render_2d(&self, width: u32, height: u32) -> (buffer: Vec<u32>)
        requires
            width * height <= usize::MAX,
        ensures
            buffer.len() == width * height,
            forall|column: int, row: int|
                0 <= column < width && 0 <= row < height ==> #[trigger] buffer[row * width
                    + column] == above_pixel(self.map@, self.player, column, row),
    {
        let width: usize = width as usize;
        let height: usize = height as usize;
        let mut buffer: Vec<u32> = vec![BLACK; width * height];
        let ghost blank = buffer@;
        let layer = AboveLayer {
            map: &self.map,
            left: show_at(self.player.x) - 2,
            top: show_at(self.player.y) - 2,
        };
        let screen = Region { left: 0, top: 0, right: width, bottom: height };
        paint_region(&mut buffer, width, &layer, screen);
        assert forall|column: int, row: int|
            0 <= column < width && 0 <= row < height implies #[trigger] buffer[row * width
            + column] == above_pixel(self.map@, self.player, column, row) by {
            lemma_index_in_area(column, row, width as int, height as int);
            lemma_place_of_index(column, row, width as int);
            let i = row * width + column;
            assert(buffer[i] == painted(&layer, screen, width as int, i, blank[i]));
        }
        buffer
    }
}

} // verus!
