//! Keys held down, and what they do to the player.

use vstd::prelude::*;
use crate::map::{cell_index, cell_of, GridMap};
use crate::player::{enterable, Player};
use crate::trig::{wrap_angle, TrigTable, TURN};

verus! {

/// How far a held key moves the player in one frame: a tenth of a cell.
pub const MOVE_SPEED: i32 = 6_554;

/// How far a held key turns the player in one frame: six degrees.
pub const TURN_SPEED: i32 = 600;

/// The keys that steer the player, each `true` while it is held down.
#[derive(Clone, Copy, Debug, PartialEq, Eq, Structural)]
pub struct Keys {
    /// Forward.
    pub w: bool,
    /// Backward.
    pub s: bool,
    /// Turn or step left.
    pub a: bool,
    /// Turn or step right.
    pub d: bool,
}

/// Whether the point `(x, y)` lies in a cell of the grid, points before the
/// grid counting as in its first column or row.
pub open spec fn on_grid(grid: Seq<Seq<char>>, x: int, y: int) -> bool {
    cell_index(y) < grid.len() && cell_index(x) < grid[cell_index(y)].len()
}

/// The player after an attempt to walk `speed` along its heading: at the
/// point aimed at if that lies on the grid and can be entered, unmoved if
/// not.
pub open spec fn walked(
    player: Player,
    grid: Seq<Seq<char>>,
    trig: &TrigTable,
    speed: int,
) -> Player {
    let to = player.target(trig, player.angle as int, speed);
    if on_grid(grid, to.0, to.1) && enterable(grid, to.0, to.1) {
        Player { x: to.0 as i32, y: to.1 as i32, ..player }
    } else {
        player
    }
}

/// The player after one frame with `keys` held: a step forward for `w`, then
/// a step back for `s`, each unless a wall or the edge of the grid is in the
/// way, then a turn to the left for `a` and one to the right for `d`.
pub open spec fn steered(
    keys: Keys,
    player: Player,
    grid: Seq<Seq<char>>,
    trig: &TrigTable,
) -> Player {
    let forward = if keys.w {
        walked(player, grid, trig, MOVE_SPEED as int)
    } else {
        player
    };
    let back = if keys.s {
        walked(forward, grid, trig, -MOVE_SPEED)
    } else {
        forward
    };
    let left = if keys.a {
        Player { angle: wrap_angle(back.angle - TURN_SPEED) as u32, ..back }
    } else {
        back
    };
    if keys.d {
        Player { angle: wrap_angle(left.angle + TURN_SPEED) as u32, ..left }
    } else {
        left
    }
}

/// Walks `player` by `speed` along its heading, unless a wall or the edge of
/// the grid is in the way.
fn walk(player: &mut Player, maze: &GridMap, trig: &TrigTable, speed: i64)
    requires
        -0x8000_0000 <= speed <= 0x8000_0000,
    ensures
        *final(player) == walked(*old(player), maze@, trig, speed as int),
{
    proof {
        use_type_invariant(maze);
    }
    match player.aim(trig, player.angle % TURN, speed) {
        Some((x, y)) => {
            let on_grid = cell_of(y) < maze.height() && cell_of(x) < maze.width();
            if on_grid && !maze.is_wall(x, y) {
                player.x = x;
                player.y = y;
            }
        },
        None => {},
    }
}

/// Moves and turns `player` as the held keys ask.
pub fn process_events(keys: &Keys, player: &mut Player, maze: &GridMap, trig: &TrigTable)
    ensures
        *final(player) == steered(*keys, *old(player), maze@, trig),
{
    if keys.w {
        walk(player, maze, trig, MOVE_SPEED as i64);
    }
    if keys.s {
        walk(player, maze, trig, -(MOVE_SPEED as i64));
    }
    if keys.a {
        player.rotate(-TURN_SPEED);
    }
    if keys.d {
        player.rotate(TURN_SPEED);
    }
}

} // verus!
