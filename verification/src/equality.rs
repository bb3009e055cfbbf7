//! `==` on the messages that hold `double`s: the doubles compare as `f64`s
//! do, so the two zeros are equal and a NaN equals nothing, itself included.

use vstd::prelude::*;

use crate::messages::{DiscState, GameState, Vec2};

verus! {

/// Whether the bit pattern is that of a NaN: all exponent bits set and a
/// nonzero fraction.
pub open spec fn is_nan(bits: u64) -> bool {
    (bits & 0x7ff0_0000_0000_0000) == 0x7ff0_0000_0000_0000 && (bits & 0x000f_ffff_ffff_ffff) != 0
}

/// Whether the bit pattern is that of zero or negative zero.
pub open spec fn is_zero(bits: u64) -> bool {
    (bits & 0x7fff_ffff_ffff_ffff) == 0
}

/// Whether two bit patterns are of equal `f64`s: never with a NaN, always
/// for two zeros, and otherwise when the bits agree.
pub open spec fn same_double(a: u64, b: u64) -> bool {
    if is_nan(a) || is_nan(b) {
        false
    } else if is_zero(a) && is_zero(b) {
        true
    } else {
        a == b
    }
}

/// `f64` equality on bit patterns.
pub fn double_eq(a: u64, b: u64) -> (r: bool)
    ensures
        r == same_double(a, b),
{
    let a_nan = (a & 0x7ff0_0000_0000_0000) == 0x7ff0_0000_0000_0000 && (a & 0x000f_ffff_ffff_ffff) != 0;
    let b_nan = (b & 0x7ff0_0000_0000_0000) == 0x7ff0_0000_0000_0000 && (b & 0x000f_ffff_ffff_ffff) != 0;
    if a_nan || b_nan {
        false
    } else if (a & 0x7fff_ffff_ffff_ffff) == 0 && (b & 0x7fff_ffff_ffff_ffff) == 0 {
        true
    } else {
        a == b
    }
}

pub open spec fn same_vec2(a: Vec2, b: Vec2) -> bool {
    same_double(a.x, b.x) && same_double(a.y, b.y)
}

pub open spec fn same_opt_vec2(a: Option<Vec2>, b: Option<Vec2>) -> bool {
    match (a, b) {
        (Some(v), Some(w)) => same_vec2(v, w),
        (None, None) => true,
        _ => false,
    }
}

fn opt_vec2_eq(a: &Option<Vec2>, b: &Option<Vec2>) -> (r: bool)
    ensures
        r == same_opt_vec2(*a, *b),
{
    match (a, b) {
        (Some(v), Some(w)) => double_eq(v.x, w.x) && double_eq(v.y, w.y),
        (None, None) => true,
        _ => false,
    }
}

impl PartialEq for Vec2 {
    fn eq(&self, other: &Self) -> (r: bool) {
        double_eq(self.x, other.x) && double_eq(self.y, other.y)
    }
}

impl vstd::std_specs::cmp::PartialEqSpecImpl for Vec2 {
    open spec fn obeys_eq_spec() -> bool {
        true
    }

    open spec fn eq_spec(&self, other: &Self) -> bool {
        same_vec2(*self, *other)
    }
}

pub open spec fn same_game_state(a: GameState, b: GameState) -> bool {
    &&& a.status == b.status
    &&& a.red_score == b.red_score
    &&& a.blue_score == b.blue_score
    &&& same_double(a.elapsed_seconds, b.elapsed_seconds)
    &&& a.paused_ticks == b.paused_ticks
    &&& a.kickoff_team == b.kickoff_team
    &&& a.active_ticks == b.active_ticks
    &&& a.countdown_ticks == b.countdown_ticks
    &&& a.phase_code == b.phase_code
}

impl PartialEq for GameState {
    fn eq(&self, other: &Self) -> (r: bool) {
        self.status == other.status && self.red_score == other.red_score && self.blue_score
            == other.blue_score && double_eq(self.elapsed_seconds, other.elapsed_seconds)
            && self.paused_ticks == other.paused_ticks && self.kickoff_team == other.kickoff_team
            && self.active_ticks == other.active_ticks && self.countdown_ticks
            == other.countdown_ticks && self.phase_code == other.phase_code
    }
}

impl vstd::std_specs::cmp::PartialEqSpecImpl for GameState {
    open spec fn obeys_eq_spec() -> bool {
        true
    }

    open spec fn eq_spec(&self, other: &Self) -> bool {
        same_game_state(*self, *other)
    }
}

pub open spec fn same_disc_state(a: DiscState, b: DiscState) -> bool {
    &&& a.index == b.index
    &&& same_opt_vec2(a.position, b.position)
    &&& same_opt_vec2(a.speed, b.speed)
    &&& same_opt_vec2(a.gravity, b.gravity)
    &&& same_double(a.radius, b.radius)
    &&& same_double(a.bounce, b.bounce)
    &&& same_double(a.inverse_mass, b.inverse_mass)
    &&& same_double(a.damping, b.damping)
    &&& a.color == b.color
    &&& a.collision_mask == b.collision_mask
    &&& a.collision_group == b.collision_group
}

impl PartialEq for DiscState {
    fn eq(&self, other: &Self) -> (r: bool) {
        self.index == other.index && opt_vec2_eq(&self.position, &other.position) && opt_vec2_eq(
            &self.speed,
            &other.speed,
        ) && opt_vec2_eq(&self.gravity, &other.gravity) && double_eq(self.radius, other.radius)
            && double_eq(self.bounce, other.bounce) && double_eq(
            self.inverse_mass,
            other.inverse_mass,
        ) && double_eq(self.damping, other.damping) && self.color == other.color
            && self.collision_mask == other.collision_mask && self.collision_group
            == other.collision_group
    }
}

impl vstd::std_specs::cmp::PartialEqSpecImpl for DiscState {
    open spec fn obeys_eq_spec() -> bool {
        true
    }

    open spec fn eq_spec(&self, other: &Self) -> bool {
        same_disc_state(*self, *other)
    }
}

} // verus!
