//! The purple potion: the stronger, slower-cycling ability.
use vstd::prelude::*;

use super::{DamageEffect, HealthEffect};

verus! {

/// Marker for a purple potion projectile.
#[derive(Clone, Copy, PartialEq, Eq, Structural, Debug)]
pub struct PurplePotion;

/// Vertical position of the purple slot in the ability side bar.
pub const PURPLE_UI_Y: i32 = -80;

/// The status payload a purple splash applies to the struck entity: two
/// half-hearts of damage and a tripled damage multiplier.
pub fn checks() -> (r: (HealthEffect, DamageEffect))
    ensures
        r.0.amount == -2,
        r.1.multiplier_centi == 300,
{
    (HealthEffect { amount: -2 }, DamageEffect { multiplier_centi: 300 })
}

} // verus!
