//! Sprite-frame animation, damage flashes and the cooldown indicator.
use vstd::prelude::*;

use crate::GameState;
use crate::player::abilities::Cooldown;
use crate::timer::{RepeatingTimer, TickTimer};

verus! {

/// The frame range a sprite animation cycles through, inclusive.
#[derive(Clone, Copy, PartialEq, Eq, Structural, Debug)]
pub struct AnimationIndices {
    pub first: usize,
    pub last: usize,
}

/// The repeating timer that paces a sprite animation.
#[derive(Clone, Copy, PartialEq, Eq, Structural, Debug)]
pub struct AnimationTimer(pub RepeatingTimer);

/// Marker for an animation entity that despawns itself when its cycle
/// completes.
#[derive(Clone, Copy, PartialEq, Eq, Structural, Debug)]
pub struct Destruct;

/// How long a damage flash tints the sprite, milliseconds.
pub const DAMAGE_FLASH_MS: u64 = 100;

/// A running damage flash on an entity.
#[derive(Clone, Copy, PartialEq, Eq, Structural, Debug)]
pub struct DamageFlash(pub TickTimer);

impl Default for DamageFlash {
    /// A fresh flash runs for the full flash duration.
    fn default() -> (r: Self)
        ensures
            r.0.elapsed_ms == 0,
            r.0.duration_ms == DAMAGE_FLASH_MS,
    {
        DamageFlash(TickTimer { elapsed_ms: 0, duration_ms: DAMAGE_FLASH_MS })
    }
}

/// Advance one sprite animation during gameplay: when the frame timer
/// fires, the frame index steps forward and wraps from `last` back to
/// `first`; a wrapping `Destruct` entity asks to be despawned. Outside
/// gameplay nothing moves.
pub fn animate_sprite(
    index: &mut usize,
    indices: &AnimationIndices,
    timer: &mut AnimationTimer,
    destruct: bool,
    dt_ms: u64,
    state: &GameState,
) -> (despawn: bool)
    requires
        old(timer).0.period_ms > 0,
        old(timer).0.elapsed_ms < old(timer).0.period_ms,
        old(timer).0.elapsed_ms + dt_ms <= u64::MAX,
        *old(index) < usize::MAX,
    ensures
        *state != GameState::Gameplay ==> *final(index) == *old(index) && *final(timer) == *old(
            timer,
        ) && !despawn,
        *state == GameState::Gameplay ==> ({
            let fired = old(timer).0.elapsed_ms + dt_ms >= old(timer).0.period_ms;
            &&& final(timer).0.period_ms == old(timer).0.period_ms
            &&& final(timer).0.elapsed_ms == (old(timer).0.elapsed_ms + dt_ms) as int % old(
                timer,
            ).0.period_ms as int
            &&& *final(index) == if !fired {
                *old(index) as int
            } else if *old(index) == indices.last {
                indices.first as int
            } else {
                *old(index) + 1
            }
            &&& despawn == (fired && *old(index) == indices.last && destruct)
        }),
{
    if *state != GameState::Gameplay {
        return false;
    }
    let fired = timer.0.tick(dt_ms);
    if fired {
        if *index == indices.last {
            *index = indices.first;
            return destruct;
        } else {
            *index = *index + 1;
        }
    }
    false
}

/// Advance a damage flash: while it runs the sprite is tinted red; once
/// the duration has elapsed the tint is lifted and the flash is removed
/// by the caller.
pub fn damage_flash(flash: &mut DamageFlash, dt_ms: u64) -> (expired: bool)
    ensures
        final(flash).0 == old(flash).0.spec_tick(dt_ms),
        expired == final(flash).0.spec_finished(),
{
    flash.0.tick(dt_ms);
    flash.0.finished()
}

/// Number of frames in the cooldown indicator's sprite sheet.
pub const COOLDOWN_FRAMES: u64 = 17;

/// Advance a cooldown indicator: its displayed frame follows the
/// elapsed fraction of the cooldown, clamped to the last valid frame,
/// and the indicator despawns once the cooldown finishes.
pub fn ability_cooldown(cooldown: &mut Cooldown, dt_ms: u64) -> (r: (usize, bool))
    requires
        0 < old(cooldown).0.duration_ms <= 1000000000,
        old(cooldown).0.elapsed_ms <= old(cooldown).0.duration_ms,
    ensures
        final(cooldown).0 == old(cooldown).0.spec_tick(dt_ms),
        ({
            let t = old(cooldown).0.spec_tick(dt_ms);
            let frame = t.elapsed_ms * COOLDOWN_FRAMES as int / t.duration_ms as int;
            &&& r.0 == if frame > 16 { 16int } else { frame }
            &&& r.1 == t.spec_finished()
        }),
{
    cooldown.0.tick(dt_ms);
    proof {
        assert(cooldown.0.elapsed_ms * COOLDOWN_FRAMES <= 1000000000u64 * 17)
            by (nonlinear_arith)
            requires
                0 <= cooldown.0.elapsed_ms <= 1000000000u64,
        ;
        assert(cooldown.0.elapsed_ms * COOLDOWN_FRAMES / (cooldown.0.duration_ms as int)
            <= 1000000000u64 * 17) by (nonlinear_arith)
            requires
                0 <= cooldown.0.elapsed_ms * COOLDOWN_FRAMES <= 1000000000u64 * 17,
                cooldown.0.duration_ms >= 1,
        ;
    }
    let frame = cooldown.0.elapsed_ms * COOLDOWN_FRAMES / cooldown.0.duration_ms;
    let frame = if frame > 16 {
        16
    } else {
        frame as usize
    };
    (frame, cooldown.0.finished())
}

} // verus!
