//! Angles and the sine table.
//!
//! An angle is a whole number of hundredths of a degree. Sines and cosines
//! are read from a table of `TURN` samples scaled by `UNIT`; the table is
//! handed in by the caller and accepted only if it passes `valid_sines`.

use vstd::prelude::*;
use crate::fixed::UNIT;

verus! {

/// A full turn, in angle units.
pub const TURN: u32 = 36_000;

/// Half a turn.
pub const HALF_TURN: u32 = 18_000;

/// A quarter of a turn.
pub const QUARTER_TURN: u32 = 9_000;

/// How far `sin² + cos²` of a table entry may lie from `UNIT²`.
pub const NORM_SLACK: i64 = 131_072;

/// The angle in `[0, TURN)` that `angle` is congruent to.
pub open spec fn wrap_angle(angle: int) -> int {
    angle % (TURN as int)
}

/// The angle in `(-HALF_TURN, HALF_TURN]` that `angle` is congruent to.
pub open spec fn signed_angle(angle: int) -> int {
    if wrap_angle(angle) > HALF_TURN {
        wrap_angle(angle) - TURN
    } else {
        wrap_angle(angle)
    }
}

/// The table entry for `angle`.
pub open spec fn sine_at(sines: Seq<i32>, angle: int) -> int {
    sines[wrap_angle(angle)] as int
}

/// The table entry a quarter turn after `angle`.
pub open spec fn cosine_at(sines: Seq<i32>, angle: int) -> int {
    sine_at(sines, angle + QUARTER_TURN)
}

/// The entry for `angle` and the one a quarter turn later form a vector of
/// length `UNIT`, up to rounding.
pub open spec fn unit_norm_at(sines: Seq<i32>, angle: int) -> bool {
    let s = sine_at(sines, angle);
    let c = cosine_at(sines, angle);
    UNIT * UNIT - NORM_SLACK <= s * s + c * c <= UNIT * UNIT + NORM_SLACK
}

/// What a sequence must satisfy to serve as the sine table: one sample for
/// each angle of a turn, none beyond `UNIT` in size, exact on the four axes,
/// and each direction of unit length up to rounding.
pub open spec fn valid_sines(sines: Seq<i32>) -> bool {
    &&& sines.len() == TURN
    &&& sines[0] == 0
    &&& sines[QUARTER_TURN as int] == UNIT
    &&& sines[HALF_TURN as int] == 0
    &&& sines[HALF_TURN + QUARTER_TURN] == -UNIT
    &&& forall|i: int| 0 <= i < TURN ==> -UNIT <= #[trigger] sines[i] <= UNIT
    &&& forall|i: int| 0 <= i < TURN ==> #[trigger] unit_norm_at(sines, i)
}

/// A validated table of sines, one for each hundredth of a degree.
pub struct TrigTable {
    sines: Vec<i32>,
}

impl View for TrigTable {
    type V = Seq<i32>;

    closed spec fn view(&self) -> Seq<i32> {
        self.sines@
    }
}

impl TrigTable {
    #[verifier::type_invariant]
    pub open spec fn wf(&self) -> bool {
        valid_sines(self@)
    }

    /// `UNIT` times the sine of `angle`.
    pub open spec fn sin_of(&self, angle: int) -> int {
        sine_at(self@, angle)
    }

    /// `UNIT` times the cosine of `angle`.
    pub open spec fn cos_of(&self, angle: int) -> int {
        cosine_at(self@, angle)
    }

    /// Accepts `sines` as the table exactly when it is valid.
    pub fn new(sines: Vec<i32>) -> (table: Option<TrigTable>)
        ensures
            table is Some <==> valid_sines(sines@),
            table is Some ==> table.unwrap()@ == sines@,
    {
        if sines.len() != TURN as usize {
            return None;
        }
        if sines[0] != 0 || sines[QUARTER_TURN as usize] != UNIT as i32 || sines[HALF_TURN as usize]
            != 0 || sines[(HALF_TURN + QUARTER_TURN) as usize] != -(UNIT as i32) {
            return None;
        }
        let mut i: usize = 0;
        while i < TURN as usize
            invariant
                i <= TURN,
                sines.len() == TURN,
                forall|j: int| 0 <= j < i ==> -UNIT <= #[trigger] sines[j] <= UNIT,
                forall|j: int| 0 <= j < i ==> #[trigger] unit_norm_at(sines@, j),
            decreases TURN - i,
        {
            let s: i64 = sines[i] as i64;
            let c: i64 = sines[(i + QUARTER_TURN as usize) % (TURN as usize)] as i64;
            if s < -UNIT || s > UNIT || c < -UNIT || c > UNIT {
                proof {
                    let k = (i + QUARTER_TURN) % (TURN as int);
                    assert(!(-UNIT <= sines[i as int] <= UNIT) || !(-UNIT <= sines[k] <= UNIT));
                }
                return None;
            }
            assert(0 <= s * s <= 4294967296 && 0 <= c * c <= 4294967296) by (nonlinear_arith)
                requires
                    -UNIT <= s <= UNIT,
                    -UNIT <= c <= UNIT,
            ;
            let norm: i64 = s * s + c * c;
            if norm < UNIT * UNIT - NORM_SLACK || norm > UNIT * UNIT + NORM_SLACK {
                assert(!unit_norm_at(sines@, i as int));
                return None;
            }
            assert(unit_norm_at(sines@, i as int));
            i += 1;
        }
        Some(TrigTable { sines })
    }

    /// How far the displacement `(dx, dy)` reaches in the direction `angle`,
    /// times `UNIT`.
    pub open spec fn along(&self, angle: int, dx: int, dy: int) -> int {
        dx * self.cos_of(angle) + dy * self.sin_of(angle)
    }

    /// How far the displacement `(dx, dy)` lies to the side of the direction
    /// `angle`, times `UNIT`, without its sign.
    pub open spec fn aside(&self, angle: int, dx: int, dy: int) -> int {
        if dy * self.cos_of(angle) - dx * self.sin_of(angle) >= 0 {
            dy * self.cos_of(angle) - dx * self.sin_of(angle)
        } else {
            dx * self.sin_of(angle) - dy * self.cos_of(angle)
        }
    }

    /// Whether `angle` is the direction of the table that points at the
    /// displacement `(dx, dy)`: of all directions in which the displacement
    /// reaches forward, it is the one the displacement lies least aside of,
    /// and the first of those if there are several.
    pub open spec fn is_bearing(&self, dx: int, dy: int, angle: int) -> bool {
        &&& 0 <= angle < TURN
        &&& self.along(angle, dx, dy) > 0
        &&& forall|b: int|
            0 <= b < TURN && #[trigger] self.along(b, dx, dy) > 0 ==> self.aside(angle, dx, dy)
                < self.aside(b, dx, dy) || (self.aside(angle, dx, dy) == self.aside(b, dx, dy)
                && angle <= b)
    }

    /// The direction of the table that points at the displacement
    /// `(dx, dy)`; 0 for no displacement.
    pub open spec fn bearing_of(&self, dx: int, dy: int) -> int {
        if dx == 0 && dy == 0 {
            0
        } else {
            choose|angle: int| self.is_bearing(dx, dy, angle)
        }
    }

    /// At most one direction points at a displacement.
    pub proof fn lemma_bearing_unique(&self, dx: int, dy: int, angle: int)
        requires
            self.is_bearing(dx, dy, angle),
            dx != 0 || dy != 0,
        ensures
            self.bearing_of(dx, dy) == angle,
    {
        let other = self.bearing_of(dx, dy);
        assert(self.is_bearing(dx, dy, other));
        assert(self.along(other, dx, dy) > 0);
        assert(self.along(angle, dx, dy) > 0);
    }

    /// The direction of the table that points at the displacement
    /// `(dx, dy)`; 0 for no displacement.
    pub fn bearing(&self, dx: i64, dy: i64) -> (angle: u32)
        ensures
            angle == self.bearing_of(dx as int, dy as int),
            angle < TURN,
            dx != 0 || dy != 0 ==> self.is_bearing(dx as int, dy as int, angle as int),
    {
        proof {
            use_type_invariant(self);
        }
        if dx == 0 && dy == 0 {
            return 0;
        }
        let mut best: u32 = 0;
        let mut least: i128 = 0;
        let mut found = false;
        let mut a: u32 = 0;
        while a < TURN
            invariant
                a <= TURN,
                self.wf(),
                found ==> best < a && self.along(best as int, dx as int, dy as int) > 0 && least
                    == self.aside(best as int, dx as int, dy as int),
                found ==> forall|b: int|
                    0 <= b < a && #[trigger] self.along(b, dx as int, dy as int) > 0 ==> least
                        < self.aside(b, dx as int, dy as int) || (least == self.aside(
                        b,
                        dx as int,
                        dy as int,
                    ) && best <= b),
                !found ==> forall|b: int|
                    0 <= b < a ==> #[trigger] self.along(b, dx as int, dy as int) <= 0,
            decreases TURN - a,
        {
            let c: i128 = self.cos(a) as i128;
            let s: i128 = self.sin(a) as i128;
            let x: i128 = dx as i128;
            let y: i128 = dy as i128;
            assert(-0x8000_0000_0000_0000_0000 <= x * c <= 0x8000_0000_0000_0000_0000 && -
            0x8000_0000_0000_0000_0000 <= y * s <= 0x8000_0000_0000_0000_0000 && -
            0x8000_0000_0000_0000_0000 <= y * c <= 0x8000_0000_0000_0000_0000 && -
            0x8000_0000_0000_0000_0000 <= x * s <= 0x8000_0000_0000_0000_0000)
                by (nonlinear_arith)
                requires
                    -0x8000_0000_0000_0000 <= x <= 0x8000_0000_0000_0000,
                    -0x8000_0000_0000_0000 <= y <= 0x8000_0000_0000_0000,
                    -65536 <= c <= 65536,
                    -65536 <= s <= 65536,
            ;
            let forward: i128 = x * c + y * s;
            if forward > 0 {
                let side: i128 = y * c - x * s;
                let off: i128 = if side >= 0 {
                    side
                } else {
                    -side
                };
                assert(off == self.aside(a as int, dx as int, dy as int));
                if !found || off < least {
                    best = a;
                    least = off;
                    found = true;
                }
            }
            a += 1;
        }
        proof {
            if !found {
                let q = QUARTER_TURN as int;
                assert(self.along(0, dx as int, dy as int) <= 0);
                assert(self.along(q, dx as int, dy as int) <= 0);
                assert(self.along(2 * q, dx as int, dy as int) <= 0);
                assert(self.along(3 * q, dx as int, dy as int) <= 0);
                assert(self.cos_of(0) == UNIT && self.sin_of(0) == 0);
                assert(self.cos_of(q) == 0 && self.sin_of(q) == UNIT);
                assert(self.cos_of(2 * q) == -UNIT && self.sin_of(2 * q) == 0);
                assert(self.cos_of(3 * q) == 0 && self.sin_of(3 * q) == -UNIT);
                let x = dx as int;
                let y = dy as int;
                assert(x * UNIT + y * 0 <= 0 && x * 0 + y * UNIT <= 0 && x * (-UNIT) + y * 0 <= 0
                    && x * 0 + y * (-UNIT) <= 0);
                assert(x == 0 && y == 0) by (nonlinear_arith)
                    requires
                        x * 65536 + y * 0 <= 0,
                        x * 0 + y * 65536 <= 0,
                        x * (-65536) + y * 0 <= 0,
                        x * 0 + y * (-65536) <= 0,
                ;
                assert(false);
            }
            self.lemma_bearing_unique(dx as int, dy as int, best as int);
        }
        best
    }

    /// `UNIT` times the sine of `angle`.
    pub fn sin(&self, angle: u32) -> (s: i32)
        ensures
            s == self.sin_of(angle as int),
            -UNIT <= s <= UNIT,
    {
        proof {
            use_type_invariant(self);
        }
        self.sines[(angle % TURN) as usize]
    }

    /// `UNIT` times the cosine of `angle`.
    pub fn cos(&self, angle: u32) -> (c: i32)
        ensures
            c == self.cos_of(angle as int),
            -UNIT <= c <= UNIT,
    {
        proof {
            use_type_invariant(self);
        }
        self.sines[((angle % TURN + QUARTER_TURN) % TURN) as usize]
    }
}

/// The angle in `[0, TURN)` that `angle` is congruent to.
pub fn wrap(angle: i128) -> (wrapped: u32)
    ensures
        wrapped == wrap_angle(angle as int),
        wrapped < TURN,
{
    if angle >= 0 {
        (angle % 36000) as u32
    } else if angle == i128::MIN {
        assert(i128::MIN == -4726143985013034214769091769885670 * 36000 + 14272);
        14_272
    } else {
        let r: i128 = (-angle) % 36000;
        assert(-angle == ((-angle) / 36000) * 36000 + r);
        if r == 0 {
            assert(angle == (-((-angle) / 36000)) * 36000);
            0
        } else {
            assert(angle == (-((-angle) / 36000) - 1) * 36000 + (36000 - r));
            (36000 - r) as u32
        }
    }
}

/// The angle in `(-HALF_TURN, HALF_TURN]` that `angle` is congruent to.
pub fn signed(angle: i128) -> (turned: i32)
    ensures
        turned == signed_angle(angle as int),
        -(HALF_TURN as int) < turned <= HALF_TURN,
{
    let wrapped = wrap(angle);
    if wrapped > HALF_TURN {
        wrapped as i32 - TURN as i32
    } else {
        wrapped as i32
    }
}

} // verus!
