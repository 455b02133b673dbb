//! The green potion: the weaker, faster-cycling ability.
use vstd::prelude::*;

use super::{HealthEffect, SpeedEffect};

verus! {

/// Marker for a green potion projectile.
#[derive(Clone, Copy, PartialEq, Eq, Structural, Debug)]
pub struct GreenPotion;

/// Vertical position of the green slot in the ability side bar.
pub const GREEN_UI_Y: i32 = -120;

/// The status payload a green splash applies to the struck entity: one
/// half-heart of damage and a doubled movement speed.
pub fn checks() -> (r: (HealthEffect, SpeedEffect))
    ensures
        r.0.amount == -1,
        r.1.multiplier_centi == 200,
{
    (HealthEffect { amount: -1 }, SpeedEffect { multiplier_centi: 200 })
}

} // verus!
