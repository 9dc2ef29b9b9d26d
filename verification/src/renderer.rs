//! The column projector and the minimap.
//!
//! For each screen column a ray is cast, its distance is corrected for the
//! angle between the ray and the view axis, and the column is filled with
//! sky, a textured wall slice and floor. The corrected distances form the
//! depth buffer that sprites are later tested against.

use vstd::prelude::*;
use crate::canvas::{lemma_index_of_place, lemma_place_of_index, paint_region, Layer, Region};
use crate::color::{apply_shade, color_lerp, lerped, shaded};
use crate::fixed::{floor_div, scaled, UNIT};
use crate::map::{cell_at, is_wall_symbol, GridMap, EMPTY};
use crate::player::Player;
use crate::raycaster::{cast_ray, ray_from, Intersect, DEFAULT_MAX_STEPS, DEFAULT_STEP, NO_HIT};
use crate::texture::{Bitmap, Texture};
use crate::trig::{wrap, TrigTable};

verus! {

/// The colour of the sky at the top of the screen.
pub const SKY_TOP: u32 = 0x87CEEB;

/// The colour of the sky where it meets a wall.
pub const SKY_BOTTOM: u32 = 0xF8EAF7;

/// The colour of the floor where it meets a wall.
pub const FLOOR_TOP: u32 = 0x0D798F;

/// The colour of the floor at the bottom of the screen.
pub const FLOOR_BOTTOM: u32 = 0x4F0955;

/// How far the ray through `column` is turned from the view axis, on a
/// screen `width` columns wide.
pub open spec fn column_offset(fov: int, column: int, width: int) -> int {
    (fov * column) / width - fov / 2
}

/// A ray's distance as seen along the view axis: the raw distance times the
/// cosine of the ray's turn from the axis, and no less than 0. A ray that hit
/// nothing stays at `NO_HIT`.
pub open spec fn corrected_distance(trig: &TrigTable, raw: int, offset: int) -> int {
    if raw >= NO_HIT {
        NO_HIT as int
    } else if scaled(raw, trig.cos_of(offset)) < 0 {
        0
    } else {
        scaled(raw, trig.cos_of(offset))
    }
}

/// The height in rows of a wall `distance` away on a screen `height` rows
/// high. Nothing was hit at `NO_HIT`; a wall at no distance is as high as one
/// at the smallest distance there is.
pub open spec fn wall_height(height: int, distance: int) -> int {
    if distance >= NO_HIT {
        0
    } else if distance <= 0 {
        height * UNIT
    } else {
        (height * UNIT) / distance
    }
}

/// The first row of a wall slice `tall` rows high, centred on a screen
/// `height` rows high.
pub open spec fn wall_top(height: int, tall: int) -> int {
    if tall / 2 >= height / 2 {
        0
    } else {
        height / 2 - tall / 2
    }
}

/// The row after the last of a wall slice `tall` rows high.
pub open spec fn wall_bottom(height: int, tall: int) -> int {
    if height / 2 + tall / 2 >= height {
        height
    } else {
        height / 2 + tall / 2
    }
}

/// The colour of `row` in a column whose ray hit `fraction` across a cell at
/// the corrected `distance`: sky above the wall slice, shaded texture within
/// it, floor below.
pub open spec fn slice_color(
    texture: Bitmap,
    height: int,
    fraction: int,
    distance: int,
    row: int,
) -> int {
    let tall = wall_height(height, distance);
    let top = wall_top(height, tall);
    let bottom = wall_bottom(height, tall);
    if row < top {
        lerped(SKY_TOP, SKY_BOTTOM, row, top)
    } else if row < bottom {
        shaded(texture.sample(fraction, ((row - top) * UNIT) / tall) as u32, distance)
    } else {
        lerped(FLOOR_TOP, FLOOR_BOTTOM, row - bottom, height - bottom)
    }
}

/// The colour of an empty cell on the minimap.
pub const MINIMAP_EMPTY: u32 = 0xF6F5F2;

/// The colour of a wall on the minimap.
pub const MINIMAP_WALL: u32 = 0x4B4C60;

/// The colour of a cell marked `P` on the minimap.
pub const MINIMAP_MARKED: u32 = 0x46A1C9;

/// The colour of any other cell on the minimap.
pub const MINIMAP_OTHER: u32 = 0x000000;

/// The colour of the square that shows where the viewer is.
pub const MARKER_COLOR: u32 = 0xFF0000;

/// The side of that square, in pixels.
pub const MARKER_SIZE: usize = 3;

/// The colour in which the minimap shows a cell with symbol `c`.
pub open spec fn minimap_color(c: char) -> u32 {
    if c == EMPTY {
        MINIMAP_EMPTY
    } else if is_wall_symbol(c) {
        MINIMAP_WALL
    } else if c == 'P' {
        MINIMAP_MARKED
    } else {
        MINIMAP_OTHER
    }
}

/// The column or row of the grid shown at pixel `p` of a minimap `size`
/// pixels wide that spans `columns` grid columns.
pub open spec fn minimap_cell(p: int, columns: int, size: int) -> int {
    (p * columns) / size
}

/// The pixel of the minimap at which coordinate `c` is shown. Coordinates
/// below zero are shown at pixel 0.
pub open spec fn minimap_place(c: int, columns: int, size: int) -> int {
    if c < 0 {
        0
    } else {
        (c * size) / (columns * UNIT)
    }
}

/// Whether the minimap shows a cell of the grid at the pixel in `column` and
/// `row`.
pub open spec fn minimap_shows(grid: Seq<Seq<char>>, size: int, column: int, row: int) -> bool {
    &&& 0 <= column < size
    &&& 0 <= row < size
    &&& minimap_cell(column, grid[0].len() as int, size) < grid[0].len()
    &&& minimap_cell(row, grid[0].len() as int, size) < grid.len()
}

/// Whether the viewer's marker covers the pixel in `column` and `row`.
pub open spec fn marker_covers(
    grid: Seq<Seq<char>>,
    size: int,
    player: Player,
    column: int,
    row: int,
) -> bool {
    let left = minimap_place(player.x as int, grid[0].len() as int, size);
    let top = minimap_place(player.y as int, grid[0].len() as int, size);
    left <= column < left + MARKER_SIZE && top <= row < top + MARKER_SIZE
}

/// The colour of the pixel in `column` and `row` once the minimap is drawn
/// over the colour `under`: the marker where it covers the pixel, else the
/// cell shown there, else what was there before.
pub open spec fn minimap_pixel(
    grid: Seq<Seq<char>>,
    size: int,
    player: Player,
    column: int,
    row: int,
    under: u32,
) -> u32 {
    if marker_covers(grid, size, player, column, row) {
        MARKER_COLOR
    } else if minimap_shows(grid, size, column, row) {
        minimap_color(
            cell_at(
                grid,
                minimap_cell(column, grid[0].len() as int, size),
                minimap_cell(row, grid[0].len() as int, size),
            ),
        )
    } else {
        under
    }
}

/// What a renderer is made of.
pub struct Screen {
    pub width: int,
    pub height: int,
    pub texture: Bitmap,
    pub ray_step: int,
    pub max_steps: int,
    pub minimap_size: int,
}

/// What the ray through `column` finds, on a screen `width` columns wide.
pub open spec fn column_hit(
    grid: Seq<Seq<char>>,
    trig: &TrigTable,
    player: Player,
    width: int,
    ray_step: int,
    max_steps: int,
    column: int,
) -> Intersect {
    ray_from(
        trig,
        player.x as int,
        player.y as int,
        player.angle + column_offset(player.fov as int, column, width),
        ray_step,
    ).cast(grid, max_steps)
}

/// The corrected distance of what the ray through `column` finds.
pub open spec fn column_depth(
    grid: Seq<Seq<char>>,
    trig: &TrigTable,
    player: Player,
    width: int,
    ray_step: int,
    max_steps: int,
    column: int,
) -> int {
    corrected_distance(
        trig,
        column_hit(grid, trig, player, width, ray_step, max_steps, column).distance as int,
        column_offset(player.fov as int, column, width),
    )
}

impl Screen {
    /// What the ray through `column` finds.
    pub open spec fn column_hit(
        self,
        grid: Seq<Seq<char>>,
        trig: &TrigTable,
        player: Player,
        column: int,
    ) -> Intersect {
        column_hit(grid, trig, player, self.width, self.ray_step, self.max_steps, column)
    }

    /// The corrected distance of what the ray through `column` finds.
    pub open spec fn column_depth(
        self,
        grid: Seq<Seq<char>>,
        trig: &TrigTable,
        player: Player,
        column: int,
    ) -> int {
        column_depth(grid, trig, player, self.width, self.ray_step, self.max_steps, column)
    }

    /// The colour of the pixel in `column` and `row`.
    pub open spec fn pixel(
        self,
        grid: Seq<Seq<char>>,
        trig: &TrigTable,
        player: Player,
        column: int,
        row: int,
    ) -> int {
        slice_color(
            self.texture,
            self.height,
            self.column_hit(grid, trig, player, column).wall_fraction as int,
            self.column_depth(grid, trig, player, column),
            row,
        )
    }
}

/// A ray along the view axis keeps its distance: the cosine of no turn is
/// one.
pub proof fn lemma_axis_ray_uncorrected(trig: &TrigTable, raw: int, offset: int)
    requires
        trig.wf(),
        0 <= raw <= NO_HIT,
        offset % (crate::trig::TURN as int) == 0,
    ensures
        corrected_distance(trig, raw, offset) == raw,
{
    assert(trig.cos_of(offset) == UNIT);
    assert((raw * (UNIT as int)) / (UNIT as int) == raw) by (nonlinear_arith);
}

/// The column through which the view axis runs keeps the distance its ray
/// marched: depth buffer and ray agree there.
pub proof fn lemma_axis_column_uncorrected(
    screen: Screen,
    grid: Seq<Seq<char>>,
    trig: &TrigTable,
    player: Player,
    column: int,
)
    requires
        trig.wf(),
        column_offset(player.fov as int, column, screen.width) % (crate::trig::TURN as int) == 0,
    ensures
        screen.column_depth(grid, trig, player, column) == screen.column_hit(
            grid,
            trig,
            player,
            column,
        ).distance,
{
    lemma_axis_ray_uncorrected(
        trig,
        screen.column_hit(grid, trig, player, column).distance as int,
        column_offset(player.fov as int, column, screen.width),
    );
}

/// A wall nearer than the screen is high, in cells against rows, is at least
/// one row high.
pub proof fn lemma_wall_height_positive(height: int, distance: int)
    requires
        0 < distance <= height * UNIT,
        distance < NO_HIT,
    ensures
        wall_height(height, distance) > 0,
{
    let full = height * UNIT;
    assert(full / distance >= 1) by (nonlinear_arith)
        requires
            0 < distance <= full,
    ;
}

/// A wall never gets higher as it moves away.
pub proof fn lemma_wall_height_decreasing(height: int, near: int, far: int)
    requires
        0 <= height,
        0 <= near <= far,
    ensures
        wall_height(height, near) >= wall_height(height, far),
{
    let full = height * UNIT;
    assert(full >= 0) by (nonlinear_arith)
        requires
            full == height * UNIT,
            height >= 0,
    ;
    if far < NO_HIT {
        if near <= 0 {
            if far > 0 {
                assert(full / far <= full) by (nonlinear_arith)
                    requires
                        full >= 0,
                        far > 0,
                ;
            }
        } else {
            assert(full / near >= full / far) by (nonlinear_arith)
                requires
                    full >= 0,
                    0 < near <= far,
            ;
        }
    } else {
        if near < NO_HIT && near > 0 {
            assert(full / near >= 0) by (nonlinear_arith)
                requires
                    full >= 0,
                    0 < near,
            ;
        }
    }
}

/// A wall far enough behind another that their exact heights differ by a row
/// or more is strictly lower on the screen.
pub proof fn lemma_wall_height_strictly_decreasing(height: int, near: int, far: int)
    requires
        0 <= height,
        0 < near < far < NO_HIT,
        height * UNIT * (far - near) >= near * far,
    ensures
        wall_height(height, near) > wall_height(height, far),
{
    let full = height * UNIT;
    let a = full / near;
    let b = full / far;
    assert(a > b) by (nonlinear_arith)
        requires
            a == full / near,
            b == full / far,
            0 < near < far,
            full * (far - near) >= near * far,
            full >= 0,
    ;
}

/// The extent of a wall slice: its height, its first row and the row after
/// its last.
pub struct WallSlice {
    pub tall: u128,
    pub top: usize,
    pub bottom: usize,
}

/// The wall slice of a column whose ray went `distance`, on a screen `height`
/// rows high.
pub fn wall_slice(height: usize, distance: u64) -> (slice: WallSlice)
    ensures
        slice.tall == wall_height(height as int, distance as int),
        slice.top == wall_top(height as int, slice.tall as int),
        slice.bottom == wall_bottom(height as int, slice.tall as int),
        slice.top <= slice.bottom <= height,
        slice.bottom - slice.top <= slice.tall,
{
    let full: u128 = height as u128 * 65536;
    let tall: u128 = if distance == NO_HIT {
        0
    } else if distance == 0 {
        full
    } else {
        full / distance as u128
    };
    let half: usize = height / 2;
    let top: usize = if tall / 2 >= half as u128 {
        0
    } else {
        half - (tall / 2) as usize
    };
    let bottom: usize = if half as u128 + tall / 2 >= height as u128 {
        height
    } else {
        half + (tall / 2) as usize
    };
    WallSlice { tall, top, bottom }
}

/// A ray's distance as seen along the view axis.
pub fn correct_distance(trig: &TrigTable, raw: u64, offset: i64) -> (distance: u64)
    ensures
        distance == corrected_distance(trig, raw as int, offset as int),
{
    if raw == NO_HIT {
        return NO_HIT;
    }
    let c: i128 = trig.cos(wrap(offset as i128)) as i128;
    assert(-0x1_0000_0000_0000_0000_0000 <= raw * c <= 0x1_0000_0000_0000_0000_0000)
        by (nonlinear_arith)
        requires
            0 <= raw <= 0xffff_ffff_ffff_ffff,
            -65536 <= c <= 65536,
    ;
    let seen: i128 = floor_div(raw as i128 * c, UNIT as i128);
    if seen < 0 {
        0
    } else {
        assert(seen <= raw) by (nonlinear_arith)
            requires
                seen == (raw * c) / 65536,
                0 <= raw,
                c <= 65536,
        ;
        seen as u64
    }
}

/// The cells of a map, scaled to a square of `size` pixels.
struct MinimapCells<'a> {
    map: &'a GridMap,
    size: usize,
}

impl<'a> Layer for MinimapCells<'a> {
    closed spec fn shade(&self, column: int, row: int, under: u32) -> u32 {
        if minimap_shows(self.map@, self.size as int, column, row) {
            minimap_color(
                cell_at(
                    self.map@,
                    minimap_cell(column, self.map@[0].len() as int, self.size as int),
                    minimap_cell(row, self.map@[0].len() as int, self.size as int),
                ),
            )
        } else {
            under
        }
    }

    fn paint(&self, column: usize, row: usize, under: u32) -> (color: u32) {
        if column >= self.size || row >= self.size {
            return under;
        }
        let columns = self.map.width();
        let rows = self.map.height();
        assert(column * columns <= 0xffff_ffff_ffff_ffff * 32767 && row * columns
            <= 0xffff_ffff_ffff_ffff * 32767) by (nonlinear_arith)
            requires
                0 <= column <= 0xffff_ffff_ffff_ffff,
                0 <= row <= 0xffff_ffff_ffff_ffff,
                0 <= columns <= 32767,
        ;
        let x: u128 = (column as u128 * columns as u128) / self.size as u128;
        let y: u128 = (row as u128 * columns as u128) / self.size as u128;
        if x < columns as u128 && y < rows as u128 {
            let c = self.map.get_cell(x as usize, y as usize);
            if c == EMPTY {
                MINIMAP_EMPTY
            } else if c == '+' || c == '-' || c == '|' {
                MINIMAP_WALL
            } else if c == 'P' {
                MINIMAP_MARKED
            } else {
                MINIMAP_OTHER
            }
        } else {
            under
        }
    }
}

/// A square of one colour.
struct Marker {
    left: usize,
    top: usize,
}

impl Layer for Marker {
    closed spec fn shade(&self, column: int, row: int, under: u32) -> u32 {
        if self.left <= column < self.left + MARKER_SIZE && self.top <= row < self.top
            + MARKER_SIZE {
            MARKER_COLOR
        } else {
            under
        }
    }

    fn paint(&self, column: usize, row: usize, under: u32) -> (color: u32) {
        if self.left <= column && column - self.left < MARKER_SIZE && self.top <= row && row
            - self.top < MARKER_SIZE {
            MARKER_COLOR
        } else {
            under
        }
    }
}

/// The pixel of the minimap at which coordinate `c` is shown, if it lies
/// below `limit`.
fn place_on_minimap(c: i32, columns: usize, size: usize, limit: usize) -> (place: Option<usize>)
    requires
        0 < columns <= 32767,
    ensures
        match place {
            Some(p) => p == minimap_place(c as int, columns as int, size as int) && p < limit,
            None => minimap_place(c as int, columns as int, size as int) >= limit,
        },
{
    let at: u128 = if c < 0 {
        0
    } else {
        assert(c * size <= 0x7fff_ffff * 0xffff_ffff_ffff_ffff) by (nonlinear_arith)
            requires
                0 <= c <= 0x7fff_ffff,
                0 <= size <= 0xffff_ffff_ffff_ffff,
        ;
        (c as u128 * size as u128) / (columns as u128 * 65536)
    };
    if at < limit as u128 {
        Some(at as usize)
    } else {
        None
    }
}

/// Casts the ray through `column` of a screen `width` columns wide: returns
/// what it finds and the corrected distance.
pub fn column_ray(
    map: &GridMap,
    trig: &TrigTable,
    player: &Player,
    width: usize,
    ray_step: u16,
    max_steps: u32,
    column: usize,
) -> (found: (Intersect, u64))
    requires
        column < width,
    ensures
        found.0 == column_hit(
            map@,
            trig,
            *player,
            width as int,
            ray_step as int,
            max_steps as int,
            column as int,
        ),
        found.1 == column_depth(
            map@,
            trig,
            *player,
            width as int,
            ray_step as int,
            max_steps as int,
            column as int,
        ),
{
    assert(player.fov * column <= 0xffff_ffff * 0xffff_ffff_ffff_ffff) by (nonlinear_arith)
        requires
            0 <= player.fov <= 0xffff_ffff,
            0 <= column <= 0xffff_ffff_ffff_ffff,
    ;
    let swept: u128 = (player.fov as u128 * column as u128) / width as u128;
    assert(swept <= player.fov) by (nonlinear_arith)
        requires
            swept == (player.fov * column) / (width as int),
            0 <= column < width,
            0 <= player.fov,
    ;
    let offset: i64 = swept as i64 - (player.fov / 2) as i64;
    assert(offset == column_offset(player.fov as int, column as int, width as int));
    let angle = wrap(player.angle as i128 + offset as i128);
    let hit = cast_ray(map, trig, player.x, player.y, angle, ray_step, max_steps);
    assert(ray_from(trig, player.x as int, player.y as int, angle as int, ray_step as int)
        == ray_from(
        trig,
        player.x as int,
        player.y as int,
        player.angle + offset,
        ray_step as int,
    ));
    let distance = correct_distance(trig, hit.distance, offset);
    (hit, distance)
}

/// Renders the view from inside a maze onto a screen of fixed size.
pub struct Renderer {
    width: usize,
    height: usize,
    texture: Texture,
    ray_step: u16,
    max_steps: u32,
    minimap_size: usize,
}

/// The side of the minimap of a new renderer, in pixels.
pub const MINIMAP_SIZE: usize = 140;

impl View for Renderer {
    type V = Screen;

    closed spec fn view(&self) -> Screen {
        Screen {
            width: self.width as int,
            height: self.height as int,
            texture: self.texture@,
            ray_step: self.ray_step as int,
            max_steps: self.max_steps as int,
            minimap_size: self.minimap_size as int,
        }
    }
}

impl Renderer {
    #[verifier::type_invariant]
    pub open spec fn wf(&self) -> bool {
        &&& 0 <= self@.width
        &&& 0 <= self@.height
        &&& self@.width * self@.height <= usize::MAX
        &&& self@.texture.wf()
        &&& self@.texture.width <= u32::MAX
        &&& self@.texture.height <= u32::MAX
        &&& 0 <= self@.ray_step <= u16::MAX
        &&& 0 <= self@.max_steps <= u32::MAX
        &&& 0 <= self@.minimap_size <= usize::MAX
    }

    /// A renderer for a screen of the given size that covers walls with
    /// `texture`, marches rays with the default step and step count, and
    /// draws a minimap of the default size.
    pub fn new(width: usize, height: usize, texture: Texture) -> (renderer: Renderer)
        requires
            width * height <= usize::MAX,
        ensures
            renderer@ == (Screen {
                width: width as int,
                height: height as int,
                texture: texture@,
                ray_step: DEFAULT_STEP as int,
                max_steps: DEFAULT_MAX_STEPS as int,
                minimap_size: MINIMAP_SIZE as int,
            }),
    {
        proof {
            use_type_invariant(&texture);
        }
        Renderer {
            width,
            height,
            texture,
            ray_step: DEFAULT_STEP,
            max_steps: DEFAULT_MAX_STEPS,
            minimap_size: MINIMAP_SIZE,
        }
    }

    /// The same renderer with another step length and step count for its
    /// rays.
    pub fn with_ray_march(self, ray_step: u16, max_steps: u32) -> (renderer: Renderer)
        ensures
            renderer@ == (Screen {
                ray_step: ray_step as int,
                max_steps: max_steps as int,
                ..self@
            }),
    {
        proof {
            use_type_invariant(&self);
        }
        Renderer { ray_step, max_steps, ..self }
    }

    /// The same renderer with a minimap of another size.
    pub fn with_minimap_size(self, minimap_size: usize) -> (renderer: Renderer)
        ensures
            renderer@ == (Screen { minimap_size: minimap_size as int, ..self@ }),
    {
        proof {
            use_type_invariant(&self);
        }
        Renderer { minimap_size, ..self }
    }

    /// The number of columns of the screen.
    pub fn width(&self) -> (w: usize)
        ensures
            w == self@.width,
    {
        self.width
    }

    /// The number of rows of the screen.
    pub fn height(&self) -> (h: usize)
        ensures
            h == self@.height,
    {
        self.height
    }

    /// The colour of `row` in a column whose ray hit `fraction` across a cell
    /// at the corrected `distance`, given the column's wall slice.
    fn slice_pixel(&self, slice: &WallSlice, fraction: u32, distance: u64, row: usize) -> (color:
        u32)
        requires
            row < self@.height,
            slice.tall == wall_height(self@.height, distance as int),
            slice.top == wall_top(self@.height, slice.tall as int),
            slice.bottom == wall_bottom(self@.height, slice.tall as int),
            slice.top <= slice.bottom <= self@.height,
            slice.bottom - slice.top <= slice.tall,
        ensures
            color == slice_color(
                self@.texture,
                self@.height,
                fraction as int,
                distance as int,
                row as int,
            ),
    {
        if row < slice.top {
            color_lerp(SKY_TOP, SKY_BOTTOM, row as u64, slice.top as u64)
        } else if row < slice.bottom {
            let along: u128 = (row - slice.top) as u128 * 65536;
            assert(along / slice.tall <= 65536) by (nonlinear_arith)
                requires
                    along == (row - slice.top) * 65536,
                    0 <= row - slice.top < slice.tall,
            ;
            let v: u64 = (along / slice.tall) as u64;
            apply_shade(self.texture.sample_texture(fraction as u64, v), distance)
        } else {
            color_lerp(
                FLOOR_TOP,
                FLOOR_BOTTOM,
                (row - slice.bottom) as u64,
                (self.height - slice.bottom) as u64,
            )
        }
    }

    /// Paints the view of `player` inside `map`: returns the pixels of the
    /// screen, row after row, and the depth buffer, one corrected distance
    /// for each column.
    pub fn render_3d(&self, map: &GridMap, player: &Player, trig: &TrigTable) -> (frame: (
        Vec<u32>,
        Vec<u64>,
    ))
        ensures
            frame.0.len() == self@.width * self@.height,
            frame.1.len() == self@.width,
            forall|column: int, row: int|
                0 <= column < self@.width && 0 <= row < self@.height ==> #[trigger] frame.0[row
                    * self@.width + column] == self@.pixel(map@, trig, *player, column, row),
            forall|column: int|
                0 <= column < self@.width ==> #[trigger] frame.1[column] == self@.column_depth(
                    map@,
                    trig,
                    *player,
                    column,
                ),
    {
        proof {
            use_type_invariant(self);
        }
        let width = self.width;
        let height = self.height;
        let mut buffer: Vec<u32> = vec![0u32; width * height];
        let mut depth: Vec<u64> = vec![NO_HIT; width];
        let mut x: usize = 0;
        while x < width
            invariant
                x <= width,
                self.wf(),
                width == self@.width,
                height == self@.height,
                buffer.len() == width * height,
                depth.len() == width,
                forall|i: int|
                    0 <= i < width * height && i % (width as int) < x ==> #[trigger] buffer[i]
                        == self@.pixel(map@, trig, *player, i % (width as int), i / (width as int)),
                forall|column: int|
                    0 <= column < x ==> #[trigger] depth[column] == self@.column_depth(
                        map@,
                        trig,
                        *player,
                        column,
                    ),
            decreases width - x,
        {
            let (hit, distance) = column_ray(
                map,
                trig,
                player,
                width,
                self.ray_step,
                self.max_steps,
                x,
            );
            let slice = wall_slice(height, distance);
            depth[x] = distance;
            let mut y: usize = 0;
            while y < height
                invariant
                    y <= height,
                    x < width,
                    self.wf(),
                    width == self@.width,
                    height == self@.height,
                    buffer.len() == width * height,
                    hit == self@.column_hit(map@, trig, *player, x as int),
                    distance == self@.column_depth(map@, trig, *player, x as int),
                    slice.tall == wall_height(self@.height, distance as int),
                    slice.top == wall_top(self@.height, slice.tall as int),
                    slice.bottom == wall_bottom(self@.height, slice.tall as int),
                    slice.top <= slice.bottom <= self@.height,
                    slice.bottom - slice.top <= slice.tall,
                    forall|i: int|
                        0 <= i < width * height && (i % (width as int) < x || (i % (width as int)
                            == x && i / (width as int) < y)) ==> #[trigger] buffer[i]
                            == self@.pixel(
                            map@,
                            trig,
                            *player,
                            i % (width as int),
                            i / (width as int),
                        ),
                decreases height - y,
            {
                let color = self.slice_pixel(&slice, hit.wall_fraction, distance, y);
                proof {
                    crate::texture::lemma_index_in_area(
                        x as int,
                        y as int,
                        width as int,
                        height as int,
                    );
                    lemma_place_of_index(x as int, y as int, width as int);
                }
                let at: usize = y * width + x;
                let ghost before = buffer@;
                buffer[at] = color;
                assert forall|i: int|
                    0 <= i < width * height && (i % (width as int) < x || (i % (width as int) == x
                        && i / (width as int) < y + 1)) implies #[trigger] buffer[i]
                    == self@.pixel(
                    map@,
                    trig,
                    *player,
                    i % (width as int),
                    i / (width as int),
                ) by {
                    lemma_index_of_place(i, width as int);
                    if i != at {
                        assert(buffer[i] == before[i]);
                    }
                }
                y += 1;
            }
            assert forall|i: int|
                0 <= i < width * height && i % (width as int) < x + 1 implies #[trigger] buffer[i]
                == self@.pixel(map@, trig, *player, i % (width as int), i / (width as int)) by {
                lemma_index_of_place(i, width as int);
                if i / (width as int) >= height {
                    assert((i / (width as int)) * width >= width * height) by (nonlinear_arith)
                        requires
                            i / (width as int) >= height,
                            width > 0,
                    ;
                }
            }
            x += 1;
        }
        assert forall|column: int, row: int|
            0 <= column < self@.width && 0 <= row < self@.height implies #[trigger] buffer[row
            * self@.width + column] == self@.pixel(map@, trig, *player, column, row) by {
            lemma_place_of_index(column, row, width as int);
            crate::texture::lemma_index_in_area(column, row, width as int, height as int);
        }
        (buffer, depth)
    }

    /// Draws the minimap into the top left corner of `buffer`, which holds
    /// the screen row after row: the cells of `map` scaled to the minimap's
    /// size, and over them a square where `player` stands. Pixels outside
    /// the screen or the buffer are passed over.
    pub fn render_minimap(&self, map: &GridMap, player: &Player, buffer: &mut Vec<u32>)
        ensures
            final(buffer).len() == old(buffer).len(),
            forall|i: int|
                0 <= i < old(buffer).len() ==> #[trigger] final(buffer)[i] == (if self@.width > 0
                    && i / self@.width < self@.height {
                    minimap_pixel(
                        map@,
                        self@.minimap_size,
                        *player,
                        i % self@.width,
                        i / self@.width,
                        old(buffer)[i],
                    )
                } else {
                    old(buffer)[i]
                }),
    {
        proof {
            use_type_invariant(self);
            use_type_invariant(map);
        }
        let width = self.width;
        let height = self.height;
        let size = self.minimap_size;
        let cells = MinimapCells { map, size };
        let all = Region {
            left: 0,
            top: 0,
            right: size,
            bottom: if size < height {
                size
            } else {
                height
            },
        };
        paint_region(buffer, width, &cells, all);
        let ghost drawn = buffer@;
        let columns = map.width();
        let left = place_on_minimap(player.x, columns, size, width);
        let top = place_on_minimap(player.y, columns, size, height);
        match (left, top) {
            (Some(left), Some(top)) => {
                let marker = Marker { left, top };
                let square = Region {
                    left,
                    top,
                    right: if left > usize::MAX - MARKER_SIZE {
                        usize::MAX
                    } else {
                        left + MARKER_SIZE
                    },
                    bottom: if height - top < MARKER_SIZE {
                        height
                    } else {
                        top + MARKER_SIZE
                    },
                };
                paint_region(buffer, width, &marker, square);
                assert forall|i: int| 0 <= i < old(buffer).len() implies #[trigger] buffer[i] == (
                if self@.width > 0 && i / self@.width < self@.height {
                    minimap_pixel(
                        map@,
                        self@.minimap_size,
                        *player,
                        i % self@.width,
                        i / self@.width,
                        old(buffer)[i],
                    )
                } else {
                    old(buffer)[i]
                }) by {
                    if width > 0 {
                        lemma_index_of_place(i, width as int);
                    }
                    assert(buffer[i] == crate::canvas::painted(
                        &marker,
                        square,
                        width as int,
                        i,
                        drawn[i],
                    ));
                    assert(drawn[i] == crate::canvas::painted(
                        &cells,
                        all,
                        width as int,
                        i,
                        old(buffer)[i],
                    ));
                }
            },
            _ => {
                assert forall|i: int| 0 <= i < old(buffer).len() implies #[trigger] buffer[i] == (
                if self@.width > 0 && i / self@.width < self@.height {
                    minimap_pixel(
                        map@,
                        self@.minimap_size,
                        *player,
                        i % self@.width,
                        i / self@.width,
                        old(buffer)[i],
                    )
                } else {
                    old(buffer)[i]
                }) by {
                    if width > 0 {
                        lemma_index_of_place(i, width as int);
                    }
                    assert(drawn[i] == crate::canvas::painted(
                        &cells,
                        all,
                        width as int,
                        i,
                        old(buffer)[i],
                    ));
                }
            },
        }
    }
}

} // verus!
