//! A frame buffer: a screen's worth of packed colours that it owns.

use vstd::prelude::*;
use crate::canvas::{lemma_place_of_index, paint_region, painted, Layer, Region};
use crate::fixed::UNIT;
use crate::map::{cell_index, cell_of, is_wall_symbol, GridMap, GOAL, PLAYER_START};
use crate::player::Player;
use crate::raycaster::NO_HIT;
use crate::renderer::{column_depth, column_hit, column_ray, wall_height};
use crate::texture::lemma_index_in_area;
use crate::trig::TrigTable;

verus! {

/// The colour a cleared frame buffer is filled with.
pub const CLEAR_COLOR: u32 = 0xFFFFFFFF;

/// The colour of the wall slices of the plain first-person view.
pub const FOV_WALL_COLOR: u32 = 0xFF0000FF;

/// The colour of the stake view around its stakes.
pub const STAKE_BACKGROUND: u32 = 0x0C0B38;

/// The colour of the stakes of the stake view.
pub const STAKE_FOREGROUND: u32 = 0xEBDC7F;

/// The colour of a wall in the top-down view.
pub const MAZE_WALL_COLOR: u32 = 0xFF000000;

/// The colour of the start cell, and of the player, in the top-down view.
pub const MAZE_PLAYER_COLOR: u32 = 0xFF00FF00;

/// The colour of the goal in the top-down view.
pub const MAZE_GOAL_COLOR: u32 = 0xFFFF0000;

/// The colour of any other cell in the top-down view.
pub const MAZE_OPEN_COLOR: u32 = 0xFFFFFFFF;

/// The first row of a wall slice `tall` rows high in the plain first-person
/// view: the slice is cut to the screen's height, then centred.
pub open spec fn fov_start(height: int, tall: int) -> int {
    if tall >= height {
        0
    } else {
        (height - tall) / 2
    }
}

/// The row after the last of that slice.
pub open spec fn fov_end(height: int, tall: int) -> int {
    if fov_start(height, tall) + tall >= height {
        height
    } else {
        fov_start(height, tall) + tall
    }
}

/// The colour of the pixel in `column` and `row` once the plain
/// first-person view is drawn over the colour `under`: `FOV_WALL_COLOR`
/// within the wall slice of the column, whose height follows from the
/// corrected distance of the column's ray.
pub open spec fn fov_pixel(
    grid: Seq<Seq<char>>,
    trig: &TrigTable,
    player: Player,
    width: int,
    height: int,
    ray_step: int,
    max_steps: int,
    column: int,
    row: int,
    under: u32,
) -> u32 {
    let tall = wall_height(
        height,
        column_depth(grid, trig, player, width, ray_step, max_steps, column),
    );
    if fov_start(height, tall) <= row < fov_end(height, tall) {
        FOV_WALL_COLOR
    } else {
        under
    }
}

/// The first row of the stake that stands for a wall `distance` away: half
/// the exact height `height * UNIT / distance` above the middle of the
/// screen, rounded down, and no less than 0.
pub open spec fn stake_start(height: int, distance: int) -> int {
    if distance >= NO_HIT {
        height / 2
    } else if distance <= UNIT {
        0
    } else {
        (height * (distance - UNIT)) / (2 * distance)
    }
}

/// The row after the last of that stake: half the exact height below the
/// middle of the screen, rounded down, and no more than `height`.
pub open spec fn stake_end(height: int, distance: int) -> int {
    if distance >= NO_HIT {
        height / 2
    } else if distance <= UNIT {
        height
    } else {
        (height * (distance + UNIT)) / (2 * distance)
    }
}

/// The colour of the pixel in `column` and `row` of the stake view:
/// `STAKE_FOREGROUND` within the stake of the column, whose extent follows
/// from the distance of the column's ray as marched, and `STAKE_BACKGROUND`
/// around it.
pub open spec fn stake_pixel(
    grid: Seq<Seq<char>>,
    trig: &TrigTable,
    player: Player,
    width: int,
    height: int,
    ray_step: int,
    max_steps: int,
    column: int,
    row: int,
) -> u32 {
    let distance = column_hit(
        grid,
        trig,
        player,
        width,
        ray_step,
        max_steps,
        column,
    ).distance as int;
    if stake_start(height, distance) <= row < stake_end(height, distance) {
        STAKE_FOREGROUND
    } else {
        STAKE_BACKGROUND
    }
}

/// The colour of a cell with symbol `c` in the top-down view.
pub open spec fn maze_color(c: char) -> u32 {
    if is_wall_symbol(c) {
        MAZE_WALL_COLOR
    } else if c == PLAYER_START {
        MAZE_PLAYER_COLOR
    } else if c == GOAL {
        MAZE_GOAL_COLOR
    } else {
        MAZE_OPEN_COLOR
    }
}

/// The colour of the pixel in `column` and `row` once the maze is drawn over
/// the colour `under`, each cell as a square of `cell_size` pixels.
pub open spec fn maze_pixel(
    grid: Seq<Seq<char>>,
    cell_size: int,
    column: int,
    row: int,
    under: u32,
) -> u32 {
    if cell_size > 0 && row / cell_size < grid.len() && column / cell_size < grid[row
        / cell_size].len() {
        maze_color(grid[row / cell_size][column / cell_size])
    } else {
        under
    }
}

/// The colour of the pixel in `column` and `row` once the player's cell is
/// drawn over the colour `under`.
pub open spec fn player_pixel(
    player: Player,
    cell_size: int,
    column: int,
    row: int,
    under: u32,
) -> u32 {
    if cell_size > 0 && column / cell_size == cell_index(player.x as int) && row / cell_size
        == cell_index(player.y as int) {
        MAZE_PLAYER_COLOR
    } else {
        under
    }
}

/// One stretch of rows for each column, all of one colour.
struct Stakes<'a> {
    spans: &'a Vec<(usize, usize)>,
    color: u32,
}

impl<'a> Layer for Stakes<'a> {
    closed spec fn shade(&self, column: int, row: int, under: u32) -> u32 {
        if 0 <= column < self.spans.len() && self.spans[column].0 <= row < self.spans[column].1 {
            self.color
        } else {
            under
        }
    }

    fn paint(&self, column: usize, row: usize, under: u32) -> (color: u32) {
        if column < self.spans.len() && self.spans[column].0 <= row && row < self.spans[column].1 {
            self.color
        } else {
            under
        }
    }
}

/// The cells of a map as squares.
struct MazeCells<'a> {
    map: &'a GridMap,
    cell_size: usize,
}

impl<'a> Layer for MazeCells<'a> {
    closed spec fn shade(&self, column: int, row: int, under: u32) -> u32 {
        maze_pixel(self.map@, self.cell_size as int, column, row, under)
    }

    fn paint(&self, column: usize, row: usize, under: u32) -> (color: u32) {
        proof {
            use_type_invariant(self.map);
        }
        if self.cell_size == 0 {
            return under;
        }
        let x = column / self.cell_size;
        let y = row / self.cell_size;
        if y < self.map.height() && x < self.map.width() {
            let c = self.map.get_cell(x, y);
            if c == '+' || c == '-' || c == '|' {
                MAZE_WALL_COLOR
            } else if c == PLAYER_START {
                MAZE_PLAYER_COLOR
            } else if c == GOAL {
                MAZE_GOAL_COLOR
            } else {
                MAZE_OPEN_COLOR
            }
        } else {
            under
        }
    }
}

/// The cell in which the player stands, as a square.
struct PlayerCell {
    x: usize,
    y: usize,
    cell_size: usize,
}

impl Layer for PlayerCell {
    closed spec fn shade(&self, column: int, row: int, under: u32) -> u32 {
        if self.cell_size > 0 && column / (self.cell_size as int) == self.x && row / (
        self.cell_size as int) == self.y {
            MAZE_PLAYER_COLOR
        } else {
            under
        }
    }

    fn paint(&self, column: usize, row: usize, under: u32) -> (color: u32) {
        if self.cell_size > 0 && column / self.cell_size == self.x && row / self.cell_size
            == self.y {
            MAZE_PLAYER_COLOR
        } else {
            under
        }
    }
}

/// A screen of `width` columns and `height` rows, stored row after row.
pub struct Framebuffer {
    pub width: usize,
    pub height: usize,
    pub pixels: Vec<u32>,
}

impl Framebuffer {
    /// There is one pixel for each place on the screen.
    pub open spec fn wf(&self) -> bool {
        self.pixels.len() == self.width * self.height
    }

    /// Whether `self` has the size of `before`, on the screen and in store.
    pub open spec fn same_size(&self, before: &Framebuffer) -> bool {
        &&& self.width == before.width
        &&& self.height == before.height
        &&& self.pixels.len() == before.pixels.len()
    }

    /// A frame buffer of the given size with every pixel 0.
    pub fn new(width: usize, height: usize) -> (framebuffer: Framebuffer)
        requires
            width * height <= usize::MAX,
        ensures
            framebuffer.wf(),
            framebuffer.width == width,
            framebuffer.height == height,
            forall|i: int| 0 <= i < width * height ==> #[trigger] framebuffer.pixels[i] == 0,
    {
        Framebuffer { width, height, pixels: vec![0u32; width * height] }
    }

    /// Gives every pixel the colour `color`.
    fn fill(&mut self, color: u32)
        ensures
            final(self).same_size(old(self)),
            forall|i: int|
                0 <= i < final(self).pixels.len() ==> #[trigger] final(self).pixels[i] == color,
    {
        let len = self.pixels.len();
        let mut i: usize = 0;
        while i < len
            invariant
                i <= len,
                len == self.pixels.len(),
                self.width == old(self).width,
                self.height == old(self).height,
                len == old(self).pixels.len(),
                forall|j: int| 0 <= j < i ==> #[trigger] self.pixels[j] == color,
            decreases len - i,
        {
            self.pixels[i] = color;
            i += 1;
        }
    }

    /// Makes every pixel white.
    pub fn clear(&mut self)
        ensures
            final(self).same_size(old(self)),
            forall|i: int|
                0 <= i < final(self).pixels.len() ==> #[trigger] final(self).pixels[i]
                    == CLEAR_COLOR,
    {
        self.fill(CLEAR_COLOR);
    }

    /// Gives the pixel in column `x` of row `y` the colour `color`, if the
    /// screen has such a pixel.
    pub fn point(&mut self, x: usize, y: usize, color: u32)
        requires
            old(self).wf(),
        ensures
            final(self).same_size(old(self)),
            final(self).pixels@ == (if x < old(self).width && y < old(self).height {
                old(self).pixels@.update(y * old(self).width + x, color)
            } else {
                old(self).pixels@
            }),
    {
        if x < self.width && y < self.height {
            let area: usize = self.pixels.len();
            proof {
                lemma_index_in_area(x as int, y as int, self.width as int, self.height as int);
            }
            self.pixels[y * self.width + x] = color;
        }
    }

    /// Gives every pixel the colour `color`.
    pub fn set_background_color(&mut self, color: u32)
        ensures
            final(self).same_size(old(self)),
            forall|i: int|
                0 <= i < final(self).pixels.len() ==> #[trigger] final(self).pixels[i] == color,
    {
        self.fill(color);
    }

    /// Gives every pixel the colour `color`.
    pub fn set_foreground_color(&mut self, color: u32)
        ensures
            final(self).same_size(old(self)),
            forall|i: int|
                0 <= i < final(self).pixels.len() ==> #[trigger] final(self).pixels[i] == color,
    {
        self.fill(color);
    }

    /// Paints `layer` over the whole screen.
    fn paint<L: Layer>(&mut self, layer: &L)
        requires
            old(self).wf(),
        ensures
            final(self).same_size(old(self)),
            forall|column: int, row: int|
                0 <= column < old(self).width && 0 <= row < old(self).height
                    ==> #[trigger] final(self).pixels[row * old(self).width + column] == layer.shade(
                    column,
                    row,
                    old(self).pixels[row * old(self).width + column],
                ),
    {
        let whole = Region { left: 0, top: 0, right: self.width, bottom: self.height };
        let ghost before = self.pixels@;
        paint_region(&mut self.pixels, self.width, layer, whole);
        assert forall|column: int, row: int|
            0 <= column < self.width && 0 <= row < self.height implies #[trigger] self.pixels[row
            * self.width + column] == layer.shade(
            column,
            row,
            before[row * self.width + column],
        ) by {
            lemma_index_in_area(column, row, self.width as int, self.height as int);
            lemma_place_of_index(column, row, self.width as int);
            let i = row * self.width + column;
            assert(self.pixels[i] == painted(layer, whole, self.width as int, i, before[i]));
        }
    }

    /// Draws the plain first-person view of `player` inside `maze`: in each
    /// column, the rows of the wall slice that the column's ray finds get
    /// `FOV_WALL_COLOR`; all other pixels stay as they are.
    pub fn render_fov(
        &mut self,
        maze: &GridMap,
        trig: &TrigTable,
        player: &Player,
        ray_step: u16,
        max_steps: u32,
    )
        requires
            old(self).wf(),
        ensures
            final(self).same_size(old(self)),
            forall|column: int, row: int|
                0 <= column < old(self).width && 0 <= row < old(self).height
                    ==> #[trigger] final(self).pixels[row * old(self).width + column] == fov_pixel(
                    maze@,
                    trig,
                    *player,
                    old(self).width as int,
                    old(self).height as int,
                    ray_step as int,
                    max_steps as int,
                    column,
                    row,
                    old(self).pixels[row * old(self).width + column],
                ),
    {
        let width = self.width;
        let height = self.height;
        let mut spans: Vec<(usize, usize)> = Vec::new();
        let mut x: usize = 0;
        while x < width
            invariant
                x <= width,
                spans.len() == x,
                forall|column: int|
                    0 <= column < x ==> {
                        let tall = wall_height(
                            height as int,
                            column_depth(
                                maze@,
                                trig,
                                *player,
                                width as int,
                                ray_step as int,
                                max_steps as int,
                                column,
                            ),
                        );
                        (#[trigger] spans[column]).0 == fov_start(height as int, tall)
                            && spans[column].1 == fov_end(height as int, tall)
                    },
            decreases width - x,
        {
            let (_, distance) = column_ray(maze, trig, player, width, ray_step, max_steps, x);
            let slice = crate::renderer::wall_slice(height, distance);
            let start: usize = if slice.tall >= height as u128 {
                0
            } else {
                (height - slice.tall as usize) / 2
            };
            let end: usize = if start as u128 + slice.tall >= height as u128 {
                height
            } else {
                start + slice.tall as usize
            };
            spans.push((start, end));
            x += 1;
        }
        let stakes = Stakes { spans: &spans, color: FOV_WALL_COLOR };
        self.paint(&stakes);
    }
}

/// Draws the stake view of `player` inside `maze`: in each column the rows
/// of the stake that stands for the wall the column's ray finds, at its
/// distance as marched, get `STAKE_FOREGROUND`; all other pixels get
/// `STAKE_BACKGROUND`.
#[allow(non_snake_case)]
pub fn render_3D(
    framebuffer: &mut Framebuffer,
    maze: &GridMap,
    trig: &TrigTable,
    player: &Player,
    ray_step: u16,
    max_steps: u32,
)
    requires
        old(framebuffer).wf(),
    ensures
        final(framebuffer).same_size(old(framebuffer)),
        forall|column: int, row: int|
            0 <= column < old(framebuffer).width && 0 <= row < old(framebuffer).height
                ==> #[trigger] final(framebuffer).pixels[row * old(framebuffer).width + column]
                == stake_pixel(
                maze@,
                trig,
                *player,
                old(framebuffer).width as int,
                old(framebuffer).height as int,
                ray_step as int,
                max_steps as int,
                column,
                row,
            ),
{
    framebuffer.set_background_color(STAKE_BACKGROUND);
    let width = framebuffer.width;
    let height = framebuffer.height;
    let mut spans: Vec<(usize, usize)> = Vec::new();
    let mut x: usize = 0;
    while x < width
        invariant
            x <= width,
            spans.len() == x,
            forall|column: int|
                0 <= column < x ==> {
                    let distance = column_hit(
                        maze@,
                        trig,
                        *player,
                        width as int,
                        ray_step as int,
                        max_steps as int,
                        column,
                    ).distance as int;
                    (#[trigger] spans[column]).0 == stake_start(height as int, distance)
                        && spans[column].1 == stake_end(height as int, distance)
                },
        decreases width - x,
    {
        let (hit, _) = column_ray(maze, trig, player, width, ray_step, max_steps, x);
        spans.push(stake_span(height, hit.distance));
        x += 1;
    }
    let ghost wiped = framebuffer.pixels@;
    let stakes = Stakes { spans: &spans, color: STAKE_FOREGROUND };
    framebuffer.paint(&stakes);
    assert forall|column: int, row: int|
        0 <= column < width && 0 <= row < height implies #[trigger] framebuffer.pixels[row * width
        + column] == stake_pixel(
        maze@,
        trig,
        *player,
        width as int,
        height as int,
        ray_step as int,
        max_steps as int,
        column,
        row,
    ) by {
        lemma_index_in_area(column, row, width as int, height as int);
        assert(wiped[row * width + column] == STAKE_BACKGROUND);
    }
}

/// The rows of the stake that stands for a wall `distance` away.
pub fn stake_span(height: usize, distance: u64) -> (span: (usize, usize))
    ensures
        span.0 == stake_start(height as int, distance as int),
        span.1 == stake_end(height as int, distance as int),
        span.0 <= span.1 <= height,
{
    if distance == NO_HIT {
        (height / 2, height / 2)
    } else if distance <= 65536 {
        (0, height)
    } else {
        let d: u128 = distance as u128;
        let h: u128 = height as u128;
        assert(h * (d - 65536) <= 0xffff_ffff_ffff_ffff * 0xffff_ffff_ffff_ffff)
            by (nonlinear_arith)
            requires
                0 <= h <= 0xffff_ffff_ffff_ffff,
                65536 < d <= 0xffff_ffff_ffff_ffff,
        ;
        let below: u128 = h * (d - 65536);
        let start: u128 = below / (2 * d);
        let rest: u128 = below % (2 * d);
        let above: u128 = (rest + 2 * h * 65536) / (2 * d);
        assert(start <= h && above <= h) by (nonlinear_arith)
            requires
                below == h * (d - 65536),
                start == (below as int) / (2 * d),
                above == (rest + 2 * h * 65536) / (2 * d),
                0 <= rest < 2 * d,
                0 <= h,
                65536 < d,
        ;
        let end: u128 = start + above;
        assert(end == (h * (d + 65536)) / (2 * d) && start <= end <= h) by (nonlinear_arith)
            requires
                below == h * (d - 65536),
                start == (below as int) / (2 * d),
                rest == (below as int) % (2 * d),
                end == start + (rest + 2 * h * 65536) / (2 * d),
                0 <= rest < 2 * d,
                0 <= h,
                65536 < d,
        ;
        (start as usize, end as usize)
    }
}

/// Draws `maze` from above, each cell as a square of `cell_size` pixels in
/// the colour of its symbol. Pixels beyond the maze stay as they are.
pub fn render_maze(framebuffer: &mut Framebuffer, maze: &GridMap, cell_size: usize)
    requires
        old(framebuffer).wf(),
    ensures
        final(framebuffer).same_size(old(framebuffer)),
        forall|column: int, row: int|
            0 <= column < old(framebuffer).width && 0 <= row < old(framebuffer).height
                ==> #[trigger] final(framebuffer).pixels[row * old(framebuffer).width + column]
                == maze_pixel(
                maze@,
                cell_size as int,
                column,
                row,
                old(framebuffer).pixels[row * old(framebuffer).width + column],
            ),
{
    let cells = MazeCells { map: maze, cell_size };
    framebuffer.paint(&cells);
}

/// Draws the cell in which `player` stands as a square of `cell_size`
/// pixels. All other pixels stay as they are.
pub fn render_player(framebuffer: &mut Framebuffer, player: &Player, cell_size: usize)
    requires
        old(framebuffer).wf(),
    ensures
        final(framebuffer).same_size(old(framebuffer)),
        forall|column: int, row: int|
            0 <= column < old(framebuffer).width && 0 <= row < old(framebuffer).height
                ==> #[trigger] final(framebuffer).pixels[row * old(framebuffer).width + column]
                == player_pixel(
                *player,
                cell_size as int,
                column,
                row,
                old(framebuffer).pixels[row * old(framebuffer).width + column],
            ),
{
    let cell = PlayerCell { x: cell_of(player.x), y: cell_of(player.y), cell_size };
    framebuffer.paint(&cell);
}

/// Draws the top-down view: a white screen, the maze over it, and the
/// player's cell over the maze.
pub fn render_top_down(
    framebuffer: &mut Framebuffer,
    maze: &GridMap,
    player: &Player,
    cell_size: usize,
)
    requires
        old(framebuffer).wf(),
    ensures
        final(framebuffer).same_size(old(framebuffer)),
        forall|column: int, row: int|
            0 <= column < old(framebuffer).width && 0 <= row < old(framebuffer).height
                ==> #[trigger] final(framebuffer).pixels[row * old(framebuffer).width + column]
                == player_pixel(
                *player,
                cell_size as int,
                column,
                row,
                maze_pixel(maze@, cell_size as int, column, row, CLEAR_COLOR),
            ),
{
    framebuffer.clear();
    let ghost cleared = framebuffer.pixels@;
    render_maze(framebuffer, maze, cell_size);
    let ghost drawn = framebuffer.pixels@;
    render_player(framebuffer, player, cell_size);
    assert forall|column: int, row: int|
        0 <= column < old(framebuffer).width && 0 <= row < old(framebuffer).height
        implies #[trigger] framebuffer.pixels@[row * old(framebuffer).width + column]
        == player_pixel(
        *player,
        cell_size as int,
        column,
        row,
        maze_pixel(maze@, cell_size as int, column, row, CLEAR_COLOR),
    ) by {
        let w = old(framebuffer).width;
        lemma_index_in_area(column, row, w as int, old(framebuffer).height as int);
        assert(cleared[row * w + column] == CLEAR_COLOR);
        assert(drawn[row * w + column] == maze_pixel(
            maze@,
            cell_size as int,
            column,
            row,
            cleared[row * w + column],
        ));
    }
}

/// Draws the plain first-person view on a white screen.
pub fn render_first_person(
    framebuffer: &mut Framebuffer,
    maze: &GridMap,
    trig: &TrigTable,
    player: &Player,
    ray_step: u16,
    max_steps: u32,
)
    requires
        old(framebuffer).wf(),
    ensures
        final(framebuffer).same_size(old(framebuffer)),
        forall|column: int, row: int|
            0 <= column < old(framebuffer).width && 0 <= row < old(framebuffer).height
                ==> #[trigger] final(framebuffer).pixels[row * old(framebuffer).width + column]
                == fov_pixel(
                maze@,
                trig,
                *player,
                old(framebuffer).width as int,
                old(framebuffer).height as int,
                ray_step as int,
                max_steps as int,
                column,
                row,
                CLEAR_COLOR,
            ),
{
    framebuffer.clear();
    let ghost cleared = framebuffer.pixels@;
    framebuffer.render_fov(maze, trig, player, ray_step, max_steps);
    assert forall|column: int, row: int|
        0 <= column < old(framebuffer).width && 0 <= row < old(framebuffer).height
        implies #[trigger] cleared[row * old(framebuffer).width + column] == CLEAR_COLOR by {
        lemma_index_in_area(
            column,
            row,
            old(framebuffer).width as int,
            old(framebuffer).height as int,
        );
    }
}

} // verus!
