//! The viewer: where it stands and which way it looks.

use vstd::prelude::*;
use crate::fixed::{div_toward_zero, floor_div, scaled, toward_zero, UNIT};
use crate::map::{cell_at, cell_index, first_centre, is_wall_symbol, GridMap, PLAYER_START};
use crate::trig::{wrap, wrap_angle, TrigTable, QUARTER_TURN, TURN};

verus! {

/// The field of view a new player has: sixty degrees.
pub const DEFAULT_FOV: u32 = 6_000;

/// Whether something can stand at `(x, y)`: the point has 32-bit coordinates
/// and does not lie in a wall.
pub open spec fn enterable(grid: Seq<Seq<char>>, x: int, y: int) -> bool {
    &&& i32::MIN <= x <= i32::MAX
    &&& i32::MIN <= y <= i32::MAX
    &&& !is_wall_symbol(cell_at(grid, cell_index(x), cell_index(y)))
}

/// The viewer's pose. Coordinates are fixed-point; `angle` and `fov` are in
/// angle units, `rotation_speed` in angle units per second.
#[derive(Clone, Copy, Debug, PartialEq, Eq, Structural)]
pub struct Player {
    pub x: i32,
    pub y: i32,
    pub angle: u32,
    pub fov: u32,
    pub rotation_speed: i32,
}

impl Player {
    /// The point `speed` away from the player in the direction `heading`.
    pub open spec fn target(self, trig: &TrigTable, heading: int, speed: int) -> (int, int) {
        (
            self.x + scaled(trig.cos_of(heading), speed),
            self.y + scaled(trig.sin_of(heading), speed),
        )
    }

    /// The point `speed` away from the player in the direction `heading`, if
    /// it has 32-bit coordinates.
    pub open spec fn aimed(self, trig: &TrigTable, heading: int, speed: int) -> Option<(i32, i32)> {
        let to = self.target(trig, heading, speed);
        if i32::MIN <= to.0 <= i32::MAX && i32::MIN <= to.1 <= i32::MAX {
            Some((to.0 as i32, to.1 as i32))
        } else {
            None
        }
    }

    /// The player after an attempt to step to `to`: there if the point can be
    /// entered, unmoved if not.
    pub open spec fn stepped(self, grid: Seq<Seq<char>>, to: (int, int)) -> Player {
        if enterable(grid, to.0, to.1) {
            Player { x: to.0 as i32, y: to.1 as i32, ..self }
        } else {
            self
        }
    }

    /// The player after `dt` milliseconds of turning at its rotation speed,
    /// which then falls to nine tenths.
    pub open spec fn turned(self, dt: int) -> Player {
        Player {
            angle: wrap_angle(self.angle + toward_zero(self.rotation_speed * dt, 1000)) as u32,
            rotation_speed: toward_zero(self.rotation_speed * 9, 10) as i32,
            ..self
        }
    }

    /// The player as it enters a maze: in the middle of the start cell,
    /// looking along the rows, at rest.
    pub open spec fn at_start(grid: Seq<Seq<char>>) -> Player {
        Player {
            x: first_centre(grid, PLAYER_START).0 as i32,
            y: first_centre(grid, PLAYER_START).1 as i32,
            angle: 0,
            fov: DEFAULT_FOV,
            rotation_speed: 0,
        }
    }

    /// A player in the middle of the map's start cell, looking along the
    /// rows, at rest.
    pub fn new(map: &GridMap) -> (player: Player)
        ensures
            player == Player::at_start(map@),
    {
        let (x, y) = map.find_player_start();
        Player { x, y, angle: 0, fov: DEFAULT_FOV, rotation_speed: 0 }
    }

    /// Lets `dt` milliseconds pass.
    pub fn update(&mut self, dt: u32)
        ensures
            *final(self) == old(self).turned(dt as int),
            final(self).angle < TURN,
    {
        let speed: i64 = self.rotation_speed as i64;
        let time: i64 = dt as i64;
        assert(-0x8000_0000_0000_0000 < speed * time < 0x8000_0000_0000_0000) by (nonlinear_arith)
            requires
                -0x8000_0000 <= speed < 0x8000_0000,
                0 <= time < 0x1_0000_0000,
        ;
        let swept: i128 = div_toward_zero((speed * time) as i128, 1000);
        self.angle = wrap(self.angle as i128 + swept);
        self.rotation_speed = div_toward_zero((speed * 9) as i128, 10) as i32;
    }

    /// Turns the player by `angle`.
    pub fn rotate(&mut self, angle: i32)
        ensures
            *final(self) == (Player {
                angle: wrap_angle(old(self).angle + angle) as u32,
                ..*old(self)
            }),
            final(self).angle < TURN,
    {
        self.angle = wrap(self.angle as i128 + angle as i128);
    }

    /// Steps `speed` along the heading, unless a wall is in the way.
    pub fn move_forward(&mut self, map: &GridMap, trig: &TrigTable, speed: i32)
        ensures
            *final(self) == old(self).stepped(
                map@,
                old(self).target(trig, old(self).angle as int, speed as int),
            ),
    {
        self.step(map, trig, self.angle % TURN, speed as i64);
    }

    /// Steps `speed` against the heading, unless a wall is in the way.
    pub fn move_backward(&mut self, map: &GridMap, trig: &TrigTable, speed: i32)
        ensures
            *final(self) == old(self).stepped(
                map@,
                old(self).target(trig, old(self).angle as int, -speed),
            ),
    {
        self.step(map, trig, self.angle % TURN, -(speed as i64));
    }

    /// Steps `speed` to the left of the heading, unless a wall is in the way.
    pub fn strafe_left(&mut self, map: &GridMap, trig: &TrigTable, speed: i32)
        ensures
            *final(self) == old(self).stepped(
                map@,
                old(self).target(trig, old(self).angle - QUARTER_TURN, speed as int),
            ),
    {
        let heading = wrap(self.angle as i128 - QUARTER_TURN as i128);
        self.step(map, trig, heading, speed as i64);
    }

    /// Steps `speed` to the right of the heading, unless a wall is in the way.
    pub fn strafe_right(&mut self, map: &GridMap, trig: &TrigTable, speed: i32)
        ensures
            *final(self) == old(self).stepped(
                map@,
                old(self).target(trig, old(self).angle + QUARTER_TURN, speed as int),
            ),
    {
        let heading = wrap(self.angle as i128 + QUARTER_TURN as i128);
        self.step(map, trig, heading, speed as i64);
    }

    fn step(&mut self, map: &GridMap, trig: &TrigTable, heading: u32, speed: i64)
        requires
            -0x8000_0000 <= speed <= 0x8000_0000,
        ensures
            *final(self) == old(self).stepped(
                map@,
                old(self).target(trig, heading as int, speed as int),
            ),
    {
        match self.aim(trig, heading, speed) {
            Some((x, y)) => {
                if !map.is_wall(x, y) {
                    self.x = x;
                    self.y = y;
                }
            },
            None => {},
        }
    }

    /// The point `speed` away from the player in the direction `heading`, if
    /// it has 32-bit coordinates.
    pub fn aim(&self, trig: &TrigTable, heading: u32, speed: i64) -> (to: Option<(i32, i32)>)
        requires
            -0x8000_0000 <= speed <= 0x8000_0000,
        ensures
            to == self.aimed(trig, heading as int, speed as int),
    {
        let c: i64 = trig.cos(heading) as i64;
        let s: i64 = trig.sin(heading) as i64;
        assert(-0x8000_0000_0000 <= c * speed <= 0x8000_0000_0000 && -0x8000_0000_0000 <= s * speed
            <= 0x8000_0000_0000) by (nonlinear_arith)
            requires
                -65536 <= c <= 65536,
                -65536 <= s <= 65536,
                -0x8000_0000 <= speed <= 0x8000_0000,
        ;
        let dx: i128 = floor_div((c * speed) as i128, UNIT as i128);
        let dy: i128 = floor_div((s * speed) as i128, UNIT as i128);
        let tx: i128 = self.x as i128 + dx;
        let ty: i128 = self.y as i128 + dy;
        if i32::MIN as i128 <= tx && tx <= i32::MAX as i128 && i32::MIN as i128 <= ty && ty
            <= i32::MAX as i128 {
            Some((tx as i32, ty as i32))
        } else {
            None
        }
    }
}

} // verus!
