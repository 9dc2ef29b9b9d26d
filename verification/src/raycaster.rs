//! The ray marcher: a point stepped along a direction until it lands in a
//! wall, leaves the grid, or has taken as many steps as it was allowed. A ray
//! that starts in a wall has hit it before its first step.

use vstd::prelude::*;
use crate::fixed::{floor_div, floor_sqrt, isqrt, UNIT};
use crate::map::{is_wall_symbol, rectangular, GridMap, EMPTY};
use crate::trig::{unit_norm_at, wrap_angle, TrigTable, QUARTER_TURN};

verus! {

/// The distance of a ray that hit nothing.
pub const NO_HIT: u64 = u64::MAX;

/// The step a renderer marches with unless told otherwise: about a hundredth
/// of a cell.
pub const DEFAULT_STEP: u16 = 655;

/// The number of steps a renderer allows a ray unless told otherwise.
pub const DEFAULT_MAX_STEPS: u32 = 100_000;

/// What a ray found.
#[derive(Clone, Copy, Debug, PartialEq, Eq, Structural)]
pub struct Intersect {
    /// The distance from the origin to the sample that hit, or `NO_HIT`.
    pub distance: u64,
    /// The symbol of the cell that was hit, or `EMPTY`.
    pub wall_type: char,
    /// How far across its cell the hitting sample lies, out of `UNIT`.
    pub wall_fraction: u32,
    /// The number of steps taken: 0 for a ray that starts in a wall.
    pub steps: u32,
}

/// A ray: where it starts, its direction as cosine and sine scaled by `UNIT`,
/// and the length of one step.
pub struct Ray {
    pub px: int,
    pub py: int,
    pub cos: int,
    pub sin: int,
    pub step: int,
}

/// Whether the point `(x, y)` lies in a cell of the grid.
pub open spec fn inside(grid: Seq<Seq<char>>, x: int, y: int) -> bool {
    &&& 0 <= x
    &&& 0 <= y
    &&& y / (UNIT as int) < grid.len()
    &&& x / (UNIT as int) < grid[y / (UNIT as int)].len()
}

/// The symbol of the cell in which the point `(x, y)` lies.
pub open spec fn symbol_at(grid: Seq<Seq<char>>, x: int, y: int) -> char {
    grid[y / (UNIT as int)][x / (UNIT as int)]
}

impl Ray {
    /// The first coordinate of sample `k`.
    pub open spec fn x(self, k: int) -> int {
        self.px + (k * self.step * self.cos) / (UNIT as int)
    }

    /// The second coordinate of sample `k`.
    pub open spec fn y(self, k: int) -> int {
        self.py + (k * self.step * self.sin) / (UNIT as int)
    }

    /// Whether sample `k` ends the march: it lies outside the grid or in a
    /// wall.
    pub open spec fn stops(self, grid: Seq<Seq<char>>, k: int) -> bool {
        !inside(grid, self.x(k), self.y(k)) || is_wall_symbol(
            symbol_at(grid, self.x(k), self.y(k)),
        )
    }

    /// The first sample from `from` to `max` that ends the march, or
    /// `max + 1` if none does.
    pub open spec fn first_stop(self, grid: Seq<Seq<char>>, from: int, max: int) -> int
        decreases max - from + 1,
    {
        if from > max {
            max + 1
        } else if self.stops(grid, from) {
            from
        } else {
            self.first_stop(grid, from + 1, max)
        }
    }

    /// The distance from the origin to sample `k`, rounded down.
    pub open spec fn reach(self, k: int) -> int {
        floor_sqrt(
            (self.x(k) - self.px) * (self.x(k) - self.px) + (self.y(k) - self.py) * (self.y(k)
                - self.py),
        )
    }

    /// Whether the ray starts in a wall cell of the grid.
    pub open spec fn starts_in_wall(self, grid: Seq<Seq<char>>) -> bool {
        inside(grid, self.px, self.py) && is_wall_symbol(symbol_at(grid, self.px, self.py))
    }

    /// What the ray finds within `max` steps. A ray that starts in a wall
    /// cell hits that wall at once, at distance 0 and without a step. Any
    /// other ray ends at the first sample, counting from 1, that lies in a
    /// wall or outside the grid; only the former is a hit.
    pub open spec fn cast(self, grid: Seq<Seq<char>>, max: int) -> Intersect {
        let k = self.first_stop(grid, 1, max);
        if self.starts_in_wall(grid) {
            Intersect {
                distance: 0,
                wall_type: symbol_at(grid, self.px, self.py),
                wall_fraction: (self.px % (UNIT as int)) as u32,
                steps: 0,
            }
        } else if k <= max && inside(grid, self.x(k), self.y(k)) {
            Intersect {
                distance: self.reach(k) as u64,
                wall_type: symbol_at(grid, self.x(k), self.y(k)),
                wall_fraction: (self.x(k) % (UNIT as int)) as u32,
                steps: k as u32,
            }
        } else {
            Intersect {
                distance: NO_HIT,
                wall_type: EMPTY,
                wall_fraction: 0,
                steps: (if k <= max {
                    k
                } else {
                    max
                }) as u32,
            }
        }
    }
}

/// The ray that leaves `(px, py)` at `angle` in steps of `step`.
pub open spec fn ray_from(trig: &TrigTable, px: int, py: int, angle: int, step: int) -> Ray {
    Ray { px, py, cos: trig.cos_of(angle), sin: trig.sin_of(angle), step }
}

/// No sample before the first stop ends the march, and the first stop does
/// if it comes within `max`.
pub proof fn lemma_first_stop(ray: Ray, grid: Seq<Seq<char>>, from: int, max: int)
    requires
        from <= max + 1,
    ensures
        from <= ray.first_stop(grid, from, max) <= max + 1,
        ray.first_stop(grid, from, max) <= max ==> ray.stops(
            grid,
            ray.first_stop(grid, from, max),
        ),
        forall|j: int| from <= j < ray.first_stop(grid, from, max) ==> !ray.stops(grid, j),
    decreases max - from + 1,
{
    if from <= max && !ray.stops(grid, from) {
        lemma_first_stop(ray, grid, from + 1, max);
    }
}

/// Marches from `(px, py)` at `angle` in steps of `step`, at most
/// `max_steps` of them.
pub fn cast_ray(
    maze: &GridMap,
    trig: &TrigTable,
    px: i32,
    py: i32,
    angle: u32,
    step: u16,
    max_steps: u32,
) -> (hit: Intersect)
    ensures
        hit == ray_from(trig, px as int, py as int, angle as int, step as int).cast(
            maze@,
            max_steps as int,
        ),
        hit.steps <= max_steps,
        hit.wall_fraction < UNIT,
        hit.distance == NO_HIT || hit.distance < 0x4_0000_0000_0000,
{
    let ghost ray = ray_from(trig, px as int, py as int, angle as int, step as int);
    let ghost grid = maze@;
    proof {
        use_type_invariant(maze);
    }
    let width = maze.width();
    let height = maze.height();
    let c: i128 = trig.cos(angle) as i128;
    let s: i128 = trig.sin(angle) as i128;
    let unit: i128 = UNIT as i128;
    assert(-0x1_0000_0000 <= step * c <= 0x1_0000_0000 && -0x1_0000_0000 <= step * s
        <= 0x1_0000_0000) by (nonlinear_arith)
        requires
            -65536 <= c <= 65536,
            -65536 <= s <= 65536,
            0 <= step < 65536,
    ;
    if px >= 0 && py >= 0 {
        let cx: usize = (px / 65536) as usize;
        let cy: usize = (py / 65536) as usize;
        if cy < height && cx < width {
            let cell = maze.get_cell(cx, cy);
            if cell == '+' || cell == '-' || cell == '|' {
                return Intersect {
                    distance: 0,
                    wall_type: cell,
                    wall_fraction: (px % 65536) as u32,
                    steps: 0,
                };
            }
        }
    }
    assert(!ray.starts_in_wall(grid));
    let mx: i128 = step as i128 * c;
    let my: i128 = step as i128 * s;
    let mut k: u32 = 0;
    let mut ax: i128 = 0;
    let mut ay: i128 = 0;
    assert(0 * step * c == 0 && 0 * step * s == 0) by (nonlinear_arith);
    while k < max_steps
        invariant
            k <= max_steps,
            grid == maze@,
            maze.wf(),
            !ray.starts_in_wall(grid),
            width == grid[0].len(),
            height == grid.len(),
            unit == UNIT,
            ray == ray_from(trig, px as int, py as int, angle as int, step as int),
            c == ray.cos,
            s == ray.sin,
            mx == step * c,
            my == step * s,
            -0x1_0000_0000 <= mx <= 0x1_0000_0000,
            -0x1_0000_0000 <= my <= 0x1_0000_0000,
            ax == k * step * c,
            ay == k * step * s,
            ax == k * mx,
            ay == k * my,
            ray.first_stop(grid, 1, max_steps as int) == ray.first_stop(
                grid,
                k + 1,
                max_steps as int,
            ),
        decreases max_steps - k,
    {
        proof {
            assert((k + 1) * step * c == k * step * c + step * c) by (nonlinear_arith);
            assert((k + 1) * step * s == k * step * s + step * s) by (nonlinear_arith);
            assert((k + 1) * mx == k * mx + mx) by (nonlinear_arith);
            assert((k + 1) * my == k * my + my) by (nonlinear_arith);
            assert(-0x1_0000_0000_0000_0000 <= (k + 1) * mx <= 0x1_0000_0000_0000_0000 && -
            0x1_0000_0000_0000_0000 <= (k + 1) * my <= 0x1_0000_0000_0000_0000)
                by (nonlinear_arith)
                requires
                    0 <= k < 0xffff_ffff,
                    -0x1_0000_0000 <= mx <= 0x1_0000_0000,
                    -0x1_0000_0000 <= my <= 0x1_0000_0000,
            ;
        }
        k += 1;
        ax += mx;
        ay += my;
        let dx: i128 = floor_div(ax, unit);
        let dy: i128 = floor_div(ay, unit);
        let x: i128 = px as i128 + dx;
        let y: i128 = py as i128 + dy;
        assert(x == ray.x(k as int));
        assert(y == ray.y(k as int));
        if x < 0 || y < 0 {
            return Intersect { distance: NO_HIT, wall_type: EMPTY, wall_fraction: 0, steps: k };
        }
        let cx: i128 = x / unit;
        let cy: i128 = y / unit;
        if cy >= height as i128 || cx >= width as i128 {
            return Intersect { distance: NO_HIT, wall_type: EMPTY, wall_fraction: 0, steps: k };
        }
        assert(inside(grid, x as int, y as int));
        let cell = maze.get_cell(cx as usize, cy as usize);
        if cell == '+' || cell == '-' || cell == '|' {
            assert(ray.stops(grid, k as int));
            assert(-0x1_0000_0000_0000 <= dx <= 0x1_0000_0000_0000 && -0x1_0000_0000_0000 <= dy
                <= 0x1_0000_0000_0000);
            assert(0 <= dx * dx <= 0x1_0000_0000_0000 * 0x1_0000_0000_0000 && 0 <= dy * dy
                <= 0x1_0000_0000_0000 * 0x1_0000_0000_0000) by (nonlinear_arith)
                requires
                    -0x1_0000_0000_0000 <= dx <= 0x1_0000_0000_0000,
                    -0x1_0000_0000_0000 <= dy <= 0x1_0000_0000_0000,
            ;
            let square: u128 = (dx * dx + dy * dy) as u128;
            let distance = isqrt(square);
            proof {
                crate::fixed::lemma_floor_sqrt_bounds(square as int, 0x2_0000_0000_0000);
            }
            return Intersect {
                distance,
                wall_type: cell,
                wall_fraction: (x % unit) as u32,
                steps: k,
            };
        }
        assert(!ray.stops(grid, k as int));
    }
    Intersect { distance: NO_HIT, wall_type: EMPTY, wall_fraction: 0, steps: max_steps }
}

/// Whether the cell in column `x` of row `y` lies on the rim of the grid.
pub open spec fn on_rim(grid: Seq<Seq<char>>, x: int, y: int) -> bool {
    y == 0 || y == grid.len() - 1 || x == 0 || x == grid[y].len() - 1
}

/// Whether every cell on the rim of the grid is a wall.
pub open spec fn walled(grid: Seq<Seq<char>>) -> bool {
    forall|x: int, y: int|
        0 <= y < grid.len() && 0 <= x < grid[y].len() && on_rim(grid, x, y) ==> is_wall_symbol(
            #[trigger] grid[y][x],
        )
}

/// Whether no cell inside the rim of the grid is a wall.
pub open spec fn open_within(grid: Seq<Seq<char>>) -> bool {
    forall|x: int, y: int|
        0 <= y < grid.len() && 0 <= x < grid[y].len() && !on_rim(grid, x, y) ==> !is_wall_symbol(
            #[trigger] grid[y][x],
        )
}

/// Whether the point `(x, y)` lies in a cell of the grid that is no wall.
pub open spec fn in_the_open(grid: Seq<Seq<char>>, x: int, y: int) -> bool {
    inside(grid, x, y) && !is_wall_symbol(symbol_at(grid, x, y))
}

/// From one sample to the next a ray moves by no more than its step along
/// either axis.
proof fn lemma_samples_adjacent(trig: &TrigTable, ray: Ray, k: int)
    requires
        trig.wf(),
        -UNIT <= ray.cos <= UNIT,
        -UNIT <= ray.sin <= UNIT,
        0 <= ray.step <= UNIT,
        0 <= k,
    ensures
        -UNIT <= ray.x(k + 1) - ray.x(k) <= UNIT,
        -UNIT <= ray.y(k + 1) - ray.y(k) <= UNIT,
{
    let mx = ray.step * ray.cos;
    let my = ray.step * ray.sin;
    assert(-UNIT * UNIT <= mx <= UNIT * UNIT && -UNIT * UNIT <= my <= UNIT * UNIT)
        by (nonlinear_arith)
        requires
            mx == ray.step * ray.cos,
            my == ray.step * ray.sin,
            -UNIT <= ray.cos <= UNIT,
            -UNIT <= ray.sin <= UNIT,
            0 <= ray.step <= UNIT,
    ;
    assert((k + 1) * ray.step * ray.cos == k * ray.step * ray.cos + mx) by (nonlinear_arith)
        requires
            mx == ray.step * ray.cos,
    ;
    assert((k + 1) * ray.step * ray.sin == k * ray.step * ray.sin + my) by (nonlinear_arith)
        requires
            my == ray.step * ray.sin,
    ;
}

/// In a walled rectangular grid, a point within one cell's length of a point
/// in the open is inside the grid.
proof fn lemma_neighbour_inside(grid: Seq<Seq<char>>, x: int, y: int, nx: int, ny: int)
    requires
        rectangular(grid),
        walled(grid),
        in_the_open(grid, x, y),
        -UNIT <= nx - x <= UNIT,
        -UNIT <= ny - y <= UNIT,
    ensures
        inside(grid, nx, ny),
{
    let cx = x / (UNIT as int);
    let cy = y / (UNIT as int);
    assert(grid[cy].len() == grid[0].len());
    assert(!is_wall_symbol(grid[cy][cx]));
    assert(0 < cy < grid.len() - 1);
    assert(0 < cx < grid[0].len() - 1);
    let ncy = ny / (UNIT as int);
    assert(0 <= ncy < grid.len());
    assert(grid[ncy].len() == grid[0].len());
}

/// In a walled rectangular grid, a ray that starts in the open and steps by
/// no more than a cell has every sample inside the grid up to and including
/// the first that ends its march.
proof fn lemma_march_stays_inside(trig: &TrigTable, grid: Seq<Seq<char>>, ray: Ray, k: int)
    requires
        trig.wf(),
        rectangular(grid),
        walled(grid),
        in_the_open(grid, ray.px, ray.py),
        -UNIT <= ray.cos <= UNIT,
        -UNIT <= ray.sin <= UNIT,
        0 <= ray.step <= UNIT,
        1 <= k,
        forall|j: int| 1 <= j < k ==> !ray.stops(grid, j),
    ensures
        inside(grid, ray.x(k), ray.y(k)),
    decreases k,
{
    assert(0 * ray.step * ray.cos == 0 && 0 * ray.step * ray.sin == 0) by (nonlinear_arith);
    assert(ray.x(0) == ray.px && ray.y(0) == ray.py);
    if k > 1 {
        lemma_march_stays_inside(trig, grid, ray, k - 1);
        assert(!ray.stops(grid, k - 1));
    }
    assert(in_the_open(grid, ray.x(k - 1), ray.y(k - 1)));
    lemma_samples_adjacent(trig, ray, k - 1);
    lemma_neighbour_inside(grid, ray.x(k - 1), ray.y(k - 1), ray.x(k), ray.y(k));
}

/// Every direction of a valid table has a cosine or a sine of at least half
/// of `UNIT` in size.
pub proof fn lemma_direction_is_long(trig: &TrigTable, angle: int)
    requires
        trig.wf(),
    ensures
        trig.cos_of(angle) >= UNIT / 2 || trig.cos_of(angle) <= -UNIT / 2 || trig.sin_of(angle)
            >= UNIT / 2 || trig.sin_of(angle) <= -UNIT / 2,
{
    let a = wrap_angle(angle);
    let s = trig.sin_of(angle);
    let c = trig.cos_of(angle);
    assert(unit_norm_at(trig@, a));
    assert(trig.sin_of(a) == s);
    assert(trig.cos_of(a) == c);
    if -UNIT / 2 < c < UNIT / 2 && -UNIT / 2 < s < UNIT / 2 {
        assert(c * c + s * s <= 2 * 32768 * 32768) by (nonlinear_arith)
            requires
                -32768 < c < 32768,
                -32768 < s < 32768,
        ;
        assert(false);
    }
}

/// A ray cast inside a walled maze finds a wall: in a rectangular grid whose
/// rim is all wall, a ray that starts in the open, steps by no more than a
/// cell at a time and is allowed enough steps to cross the grid twice over
/// returns a hit on a wall cell inside the grid after no more than the
/// allowed number of steps. The distance of the hit is above 0 and no more
/// than the diagonal of the grid; where the rim holds the only walls, the
/// cell that is hit lies on the rim.
pub proof fn lemma_walled_ray_hits(
    trig: &TrigTable,
    grid: Seq<Seq<char>>,
    px: int,
    py: int,
    angle: int,
    step: int,
    max: int,
)
    requires
        trig.wf(),
        rectangular(grid),
        walled(grid),
        in_the_open(grid, px, py),
        0 < step <= UNIT,
        0 <= max <= u32::MAX,
        max * step >= 2 * UNIT * grid.len(),
        max * step >= 2 * UNIT * grid[0].len(),
    ensures
        ({
            let ray = ray_from(trig, px, py, angle, step);
            let hit = ray.cast(grid, max);
            &&& 1 <= hit.steps <= max
            &&& hit.distance != NO_HIT
            &&& hit.distance == ray.reach(hit.steps as int)
            &&& inside(grid, ray.x(hit.steps as int), ray.y(hit.steps as int))
            &&& hit.wall_type == symbol_at(grid, ray.x(hit.steps as int), ray.y(hit.steps as int))
            &&& is_wall_symbol(hit.wall_type)
            &&& 0 < hit.distance
            &&& hit.distance * hit.distance <= (grid[0].len() * UNIT) * (grid[0].len() * UNIT) + (
            grid.len() * UNIT) * (grid.len() * UNIT)
            &&& open_within(grid) ==> on_rim(
                grid,
                ray.x(hit.steps as int) / (UNIT as int),
                ray.y(hit.steps as int) / (UNIT as int),
            )
        }),
{
    let ray = ray_from(trig, px, py, angle, step);
    let unit = UNIT as int;
    assert(-UNIT <= ray.cos <= UNIT && -UNIT <= ray.sin <= UNIT) by {
        let a = wrap_angle(angle);
        let b = wrap_angle(angle + QUARTER_TURN);
        assert(-UNIT <= trig@[a] <= UNIT);
        assert(-UNIT <= trig@[b] <= UNIT);
    }
    lemma_first_stop(ray, grid, 1, max);
    let k = ray.first_stop(grid, 1, max);
    if k > max {
        // No sample ends the march, so the last one is inside the grid, yet
        // it lies further from the origin than the grid is wide or high.
        assert(max >= 1) by (nonlinear_arith)
            requires
                max * step >= 2 * unit * grid.len(),
                grid.len() > 0,
                unit > 0,
                0 <= max,
                step > 0,
        ;
        lemma_march_stays_inside(trig, grid, ray, max);
        lemma_direction_is_long(trig, angle);
        let w = grid[0].len() as int;
        let h = grid.len() as int;
        let cy = ray.y(max) / unit;
        assert(grid[cy].len() == w);
        let cyo = py / unit;
        assert(grid[cyo].len() == w);
        let reach = max * step;
        if ray.cos >= unit / 2 {
            assert(reach * ray.cos >= w * unit * unit) by (nonlinear_arith)
                requires
                    reach >= 2 * unit * w,
                    ray.cos >= unit / 2,
                    unit == 65536,
                    w > 0,
            ;
            assert((reach * ray.cos) / unit >= w * unit) by (nonlinear_arith)
                requires
                    reach * ray.cos >= w * unit * unit,
                    unit == 65536,
            ;
            assert(false);
        } else if ray.cos <= -unit / 2 {
            assert(reach * ray.cos <= -(w * unit * unit)) by (nonlinear_arith)
                requires
                    reach >= 2 * unit * w,
                    ray.cos <= -unit / 2,
                    unit == 65536,
                    w > 0,
            ;
            assert((reach * ray.cos) / unit <= -(w * unit)) by (nonlinear_arith)
                requires
                    reach * ray.cos <= -(w * unit * unit),
                    unit == 65536,
            ;
            assert(false);
        } else if ray.sin >= unit / 2 {
            assert(reach * ray.sin >= h * unit * unit) by (nonlinear_arith)
                requires
                    reach >= 2 * unit * h,
                    ray.sin >= unit / 2,
                    unit == 65536,
                    h > 0,
            ;
            assert((reach * ray.sin) / unit >= h * unit) by (nonlinear_arith)
                requires
                    reach * ray.sin >= h * unit * unit,
                    unit == 65536,
            ;
            assert(false);
        } else {
            assert(reach * ray.sin <= -(h * unit * unit)) by (nonlinear_arith)
                requires
                    reach >= 2 * unit * h,
                    ray.sin <= -unit / 2,
                    unit == 65536,
                    h > 0,
            ;
            assert((reach * ray.sin) / unit <= -(h * unit)) by (nonlinear_arith)
                requires
                    reach * ray.sin <= -(h * unit * unit),
                    unit == 65536,
            ;
            assert(false);
        }
    }
    lemma_march_stays_inside(trig, grid, ray, k);
    lemma_reach_is_finite(ray, k);
    // The hit lies in another cell than the origin, and both lie in the grid.
    let w = grid[0].len() as int;
    let h = grid.len() as int;
    let dx = ray.x(k) - px;
    let dy = ray.y(k) - py;
    assert(grid[py / unit].len() == w && grid[ray.y(k) / unit].len() == w);
    assert(dx != 0 || dy != 0);
    assert(-(w * unit) < dx < w * unit && -(h * unit) < dy < h * unit);
    let n = dx * dx + dy * dy;
    assert(1 <= n <= (w * unit) * (w * unit) + (h * unit) * (h * unit)) by (nonlinear_arith)
        requires
            n == dx * dx + dy * dy,
            dx != 0 || dy != 0,
            -(w * unit) < dx < w * unit,
            -(h * unit) < dy < h * unit,
    ;
    crate::fixed::lemma_floor_sqrt_exists(n);
    let r = floor_sqrt(n);
    assert(r >= 1 && r * r <= n) by (nonlinear_arith)
        requires
            0 <= r,
            r * r <= n < (r + 1) * (r + 1),
            1 <= n,
    ;
}

/// The distance to a sample within 2^32 steps of at most a cell fits well
/// below `NO_HIT`.
proof fn lemma_reach_is_finite(ray: Ray, k: int)
    requires
        -UNIT <= ray.cos <= UNIT,
        -UNIT <= ray.sin <= UNIT,
        0 <= ray.step <= UNIT,
        0 <= k <= u32::MAX,
    ensures
        0 <= ray.reach(k) < 0x4_0000_0000_0000,
{
    let dx = ray.x(k) - ray.px;
    let dy = ray.y(k) - ray.py;
    let ax = k * ray.step * ray.cos;
    let ay = k * ray.step * ray.sin;
    assert(-0x1_0000_0000_0000_0000 <= ax <= 0x1_0000_0000_0000_0000 && -0x1_0000_0000_0000_0000
        <= ay <= 0x1_0000_0000_0000_0000) by (nonlinear_arith)
        requires
            ax == k * ray.step * ray.cos,
            ay == k * ray.step * ray.sin,
            -65536 <= ray.cos <= 65536,
            -65536 <= ray.sin <= 65536,
            0 <= ray.step <= 65536,
            0 <= k <= 0xffff_ffff,
    ;
    assert(-0x1_0000_0000_0000 <= dx <= 0x1_0000_0000_0000);
    assert(-0x1_0000_0000_0000 <= dy <= 0x1_0000_0000_0000);
    let n = dx * dx + dy * dy;
    assert(0 <= n <= 2 * 0x1_0000_0000_0000 * 0x1_0000_0000_0000) by (nonlinear_arith)
        requires
            n == dx * dx + dy * dy,
            -0x1_0000_0000_0000 <= dx <= 0x1_0000_0000_0000,
            -0x1_0000_0000_0000 <= dy <= 0x1_0000_0000_0000,
    ;
    crate::fixed::lemma_floor_sqrt_bounds(n, 0x2_0000_0000_0000);
}

} // verus!
