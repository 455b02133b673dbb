//! Player state: health, physics flags, jump buffers and movement.
//!
//! Velocities, forces and accelerations are integers in centi-units per
//! second (one hundredth of a world unit), so that the gravity table
//! stays exact; times are in milliseconds. Each simulation tick the
//! movement machine reads the input and the aggregated physics state and
//! writes the next velocity.
use vstd::prelude::*;

use crate::GameState;
use crate::events::CollisionEvent;

pub mod abilities;

verus! {

/// Remaining player health in half-hearts; six is full.
#[derive(Clone, Copy, PartialEq, Eq, Structural, Debug)]
pub struct PlayerHealth(pub i32);

impl Default for PlayerHealth {
    /// A fresh player has six half-hearts.
    fn default() -> (r: Self)
        ensures
            r.0 == 6,
    {
        PlayerHealth(6)
    }
}

/// A two-dimensional velocity in centi-units per second.
#[derive(Clone, Copy, PartialEq, Eq, Structural, Debug)]
pub struct Vel2 {
    pub x: i64,
    pub y: i64,
}

/// Durable physics state of the player, maintained by the collision
/// aggregator and the movement machine. The two buffers hold the
/// millisecond timestamps at which they were armed.
#[derive(Clone, Copy, PartialEq, Eq, Structural, Debug)]
pub struct PlayerPhysics {
    pub total_ground_collisions: i32,
    pub grounded: bool,
    pub slamming: bool,
    pub early_jump: Option<u64>,
    pub coyote_time: Option<u64>,
}

impl Default for PlayerPhysics {
    /// A freshly spawned player is airborne with empty buffers.
    fn default() -> (r: Self)
        ensures
            r.total_ground_collisions == 0,
            !r.grounded,
            !r.slamming,
            r.early_jump is None,
            r.coyote_time is None,
    {
        PlayerPhysics {
            total_ground_collisions: 0,
            grounded: false,
            slamming: false,
            early_jump: None,
            coyote_time: None,
        }
    }
}

/// The discrete input sample the movement machine reads each tick.
#[derive(Clone, Copy, PartialEq, Eq, Structural, Debug)]
pub struct MoveInput {
    pub left: bool,
    pub right: bool,
    pub jump_just_pressed: bool,
    pub jump_held: bool,
    pub crouch_just_pressed: bool,
}

/// Horizontal force while grounded, centi-units per second squared.
pub const GROUND_FORCE: i64 = 500000;

/// Horizontal force while airborne.
pub const AIR_FORCE: i64 = 250000;

/// Instantaneous upward impulse of a granted jump.
pub const JUMP_IMPULSE: i64 = 100000;

/// Downward force while slamming.
pub const SLAM_FORCE: i64 = 500000;

/// Horizontal speed cap while grounded.
pub const MAX_GROUND_SPEED: i64 = 150000;

/// Horizontal speed cap while airborne.
pub const MAX_AIR_SPEED: i64 = 100000;

/// A jump pressed this long before landing is still honoured.
pub const EARLY_JUMP_TIME_MS: u64 = 40;

/// A jump pressed this long after leaving ground is still honoured.
pub const COYOTE_TIME_MS: u64 = 100;

/// Gravity while ascending with the jump key held: the gentlest.
pub const EASY_UP_GRAVITY: i64 = 24525;

/// Gravity while ascending with the jump key released.
pub const UP_GRAVITY: i64 = 98100;

/// Gravity while descending with the jump key held.
pub const EASY_DOWN_GRAVITY: i64 = 196200;

/// Gravity while descending with the jump key released: the strongest.
pub const DOWN_GRAVITY: i64 = 269775;

/// Magnitude bound the movement machine accepts for each velocity
/// component.
pub const VEL_LIMIT: i64 = 1000000000;

/// The largest whole number whose square does not exceed `n`.
pub open spec fn sqrt_floor(n: nat) -> nat
    decreases n,
{
    if n == 0 {
        0
    } else {
        let p = sqrt_floor((n - 1) as nat);
        if (p + 1) * (p + 1) <= n {
            p + 1
        } else {
            p
        }
    }
}

proof fn lemma_sqrt_floor_bounds(n: nat)
    ensures
        sqrt_floor(n) * sqrt_floor(n) <= n,
        n < (sqrt_floor(n) + 1) * (sqrt_floor(n) + 1),
    decreases n,
{
    if n > 0 {
        lemma_sqrt_floor_bounds((n - 1) as nat);
        let p = sqrt_floor((n - 1) as nat);
        if (p + 1) * (p + 1) <= n {
            assert(sqrt_floor(n) == p + 1);
            assert(n - 1 < (p + 1) * (p + 1));
            assert(n == (p + 1) * (p + 1));
            assert((p + 2) * (p + 2) > (p + 1) * (p + 1)) by (nonlinear_arith);
            assert(n < (sqrt_floor(n) + 1) * (sqrt_floor(n) + 1));
        } else {
            assert(sqrt_floor(n) == p);
            assert(p * p <= n - 1);
        }
    } else {
        assert(sqrt_floor(n) == 0);
        assert(sqrt_floor(n) * sqrt_floor(n) <= n) by (nonlinear_arith)
            requires
                sqrt_floor(n) == 0,
                n == 0,
        ;
        assert(n < (sqrt_floor(n) + 1) * (sqrt_floor(n) + 1)) by (nonlinear_arith)
            requires
                sqrt_floor(n) == 0,
                n == 0,
        ;
    }
}

proof fn lemma_sqrt_floor_unique(n: nat, r: nat)
    requires
        r * r <= n,
        n < (r + 1) * (r + 1),
    ensures
        r == sqrt_floor(n),
{
    lemma_sqrt_floor_bounds(n);
    let s = sqrt_floor(n);
    assert(r == s) by (nonlinear_arith)
        requires
            r * r <= n,
            n < (r + 1) * (r + 1),
            s * s <= n,
            n < (s + 1) * (s + 1),
    ;
}

/// Integer square root by bisection.
fn isqrt(n: u64) -> (r: u64)
    requires
        n < 0x3782dace9d900000,
    ensures
        r == sqrt_floor(n as nat),
        r < 2000000000,
{
    let mut lo: u64 = 0;
    let mut hi: u64 = 2000000000;
    proof {
        assert(2000000000u64 * 2000000000u64 == 0x3782dace9d900000) by (nonlinear_arith);
    }
    while lo + 1 < hi
        invariant
            lo < hi <= 2000000000,
            lo * lo <= n,
            n < hi * hi,
        decreases hi - lo,
    {
        let mid = lo + (hi - lo) / 2;
        proof {
            assert(mid * mid <= 2000000000u64 * 2000000000u64) by (nonlinear_arith)
                requires
                    0 <= mid <= 2000000000u64,
            ;
        }
        if mid * mid <= n {
            lo = mid;
        } else {
            hi = mid;
        }
    }
    proof {
        lemma_sqrt_floor_unique(n as nat, lo as nat);
    }
    lo
}

/// The whole-number speed of a velocity: the square root of the summed
/// squares, rounded down.
pub open spec fn speed_of(v: Vel2) -> int {
    sqrt_floor((v.x * v.x + v.y * v.y) as nat) as int
}

/// Compute the speed of a velocity within the machine bounds.
pub fn speed(v: &Vel2) -> (r: u64)
    requires
        -VEL_LIMIT <= v.x <= VEL_LIMIT,
        -VEL_LIMIT <= v.y <= VEL_LIMIT,
    ensures
        r == speed_of(*v),
        r < 2000000000,
{
    let ax: u64 = if v.x >= 0 {
        v.x as u64
    } else {
        (-v.x) as u64
    };
    let ay: u64 = if v.y >= 0 {
        v.y as u64
    } else {
        (-v.y) as u64
    };
    proof {
        assert(ax * ax == v.x * v.x && ax * ax <= 1000000000i64 * 1000000000i64)
            by (nonlinear_arith)
            requires
                0 <= ax <= 1000000000,
                ax == v.x || ax == -v.x,
        ;
        assert(ay * ay == v.y * v.y && ay * ay <= 1000000000i64 * 1000000000i64)
            by (nonlinear_arith)
            requires
                0 <= ay <= 1000000000,
                ay == v.y || ay == -v.y,
        ;
    }
    isqrt(ax * ax + ay * ay)
}

/// Truncating division of `a` by one thousand, rounding toward zero as
/// the hardware division does.
pub open spec fn div1000(a: int) -> int {
    if a >= 0 {
        a / 1000
    } else {
        -((-a) / 1000)
    }
}

/// One tick's worth of an acceleration: scale by the tick length in
/// milliseconds and divide by a thousand, truncating toward zero.
pub fn scale_by_dt(v: i64, dt_ms: u64) -> (r: i64)
    requires
        -4000000000 <= v <= 4000000000,
        dt_ms <= 1000,
    ensures
        r == div1000(v * dt_ms),
        -4000000000 <= r <= 4000000000,
        v >= 0 ==> 0 <= r <= v,
        v < 0 ==> v <= r <= 0,
{
    if v >= 0 {
        proof {
            assert(v * dt_ms <= 4000000000i64 * 1000 && v * dt_ms / 1000 <= v)
                by (nonlinear_arith)
                requires
                    0 <= v <= 4000000000i64,
                    0 <= dt_ms <= 1000,
            ;
        }
        let prod = (v as u64) * dt_ms;
        (prod / 1000) as i64
    } else {
        let mag = (-v) as u64;
        proof {
            assert(mag * dt_ms <= 4000000000i64 * 1000 && mag * dt_ms / 1000 <= mag)
                by (nonlinear_arith)
                requires
                    0 <= mag <= 4000000000i64,
                    0 <= dt_ms <= 1000,
            ;
            vstd::arithmetic::mul::lemma_mul_unary_negation(v as int, dt_ms as int);
        }
        let prod = mag * dt_ms;
        -((prod / 1000) as i64)
    }
}

/// The coyote window is armed and has not yet elapsed.
pub open spec fn coyote_active(p: PlayerPhysics, now: u64) -> bool {
    p.coyote_time is Some && now - p.coyote_time->0 < COYOTE_TIME_MS
}

/// The early-jump buffer is armed and has not yet elapsed.
pub open spec fn early_jump_active(p: PlayerPhysics, now: u64) -> bool {
    p.early_jump is Some && now - p.early_jump->0 < EARLY_JUMP_TIME_MS
}

/// The player moves with ground control: either actually grounded or
/// inside the coyote window.
pub open spec fn ground_control(p: PlayerPhysics, now: u64) -> bool {
    p.grounded || coyote_active(p, now)
}

/// This tick grants the jump impulse: the player has ground control and
/// either pressed jump now or carries a live early-jump buffer.
pub open spec fn jump_granted(p: PlayerPhysics, inp: MoveInput, now: u64) -> bool {
    ground_control(p, now) && (inp.jump_just_pressed || early_jump_active(p, now))
}

/// The early-jump buffer after one movement tick: an expired buffer is
/// dropped, and a jump pressed while airborne without slamming arms it.
pub open spec fn early_jump_after(p: PlayerPhysics, inp: MoveInput, now: u64) -> Option<u64> {
    let kept = if early_jump_active(p, now) {
        p.early_jump
    } else {
        None
    };
    if ground_control(p, now) {
        kept
    } else if inp.crouch_just_pressed || p.slamming {
        kept
    } else if inp.jump_just_pressed {
        Some(now)
    } else {
        kept
    }
}

/// The coyote window after one movement tick: a granted jump consumes
/// it, staying grounded re-arms it, and leaving ground control drops it.
pub open spec fn coyote_after(p: PlayerPhysics, inp: MoveInput, now: u64) -> Option<u64> {
    if ground_control(p, now) {
        if jump_granted(p, inp, now) {
            None
        } else if p.grounded {
            Some(now)
        } else {
            p.coyote_time
        }
    } else {
        None
    }
}

/// The slam latch after one movement tick: cleared by ground control,
/// set by a crouch press in the air, otherwise held.
pub open spec fn slamming_after(p: PlayerPhysics, inp: MoveInput, now: u64) -> bool {
    if ground_control(p, now) {
        false
    } else {
        inp.crouch_just_pressed || p.slamming
    }
}

/// Horizontal force this tick: the ground or air force, signed by the
/// horizontal input.
pub open spec fn accel_x(p: PlayerPhysics, inp: MoveInput, now: u64) -> int {
    let f: int = if ground_control(p, now) {
        GROUND_FORCE as int
    } else {
        AIR_FORCE as int
    };
    if inp.right && !inp.left {
        f
    } else if inp.left && !inp.right {
        -f
    } else {
        0
    }
}

/// The horizontal speed cap, raised to the current speed so that a fast
/// player is never decelerated abruptly by the cap itself.
pub open spec fn speed_cap(p: PlayerPhysics, v: Vel2, now: u64) -> int {
    let base: int = if ground_control(p, now) {
        MAX_GROUND_SPEED as int
    } else {
        MAX_AIR_SPEED as int
    };
    if speed_of(v) > base {
        speed_of(v)
    } else {
        base
    }
}

/// The horizontal force clamped to the speed cap.
pub open spec fn clamped_x(p: PlayerPhysics, v: Vel2, inp: MoveInput, now: u64) -> int {
    let a = accel_x(p, inp, now);
    let m = speed_cap(p, v, now);
    if a > m {
        m
    } else if a < -m {
        -m
    } else {
        a
    }
}

/// The gravity table, keyed by ascending-or-descending crossed with
/// jump-held-or-not: holding jump while ascending gives the longest
/// hang time.
pub open spec fn gravity_y(v: Vel2, inp: MoveInput) -> int {
    if v.y >= 0 {
        if inp.jump_held {
            EASY_UP_GRAVITY as int
        } else {
            UP_GRAVITY as int
        }
    } else {
        if inp.jump_held {
            EASY_DOWN_GRAVITY as int
        } else {
            DOWN_GRAVITY as int
        }
    }
}

/// Vertical acceleration this tick: nothing under ground control,
/// otherwise gravity plus the slam force while slamming.
pub open spec fn accel_y(p: PlayerPhysics, v: Vel2, inp: MoveInput, now: u64) -> int {
    if ground_control(p, now) {
        0
    } else {
        -(if inp.crouch_just_pressed || p.slamming {
            SLAM_FORCE as int
        } else {
            0
        }) - gravity_y(v, inp)
    }
}

/// One tick of the player movement machine. Outside gameplay it is a
/// no-op. Otherwise it reads the input and the aggregated physics
/// state, advances the jump buffers and the slam latch, and integrates
/// the new velocity: the clamped acceleration scaled by the tick
/// length, added onto the previous velocity, plus the jump impulse when
/// one is granted.
pub fn player_movement(
    physics: &mut PlayerPhysics,
    velocity: &mut Vel2,
    facing_right: &mut bool,
    input: MoveInput,
    now_ms: u64,
    dt_ms: u64,
    state: &GameState,
)
    requires
        dt_ms <= 1000,
        old(physics).early_jump is Some ==> old(physics).early_jump->0 <= now_ms,
        old(physics).coyote_time is Some ==> old(physics).coyote_time->0 <= now_ms,
        -VEL_LIMIT <= old(velocity).x <= VEL_LIMIT,
        -VEL_LIMIT <= old(velocity).y <= VEL_LIMIT,
    ensures
        *state != GameState::Gameplay ==> *final(physics) == *old(physics) && *final(velocity)
            == *old(velocity) && *final(facing_right) == *old(facing_right),
        *state == GameState::Gameplay ==> ({
            &&& final(physics).total_ground_collisions == old(physics).total_ground_collisions
            &&& final(physics).grounded == old(physics).grounded
            &&& final(physics).slamming == slamming_after(*old(physics), input, now_ms)
            &&& final(physics).early_jump == early_jump_after(*old(physics), input, now_ms)
            &&& final(physics).coyote_time == coyote_after(*old(physics), input, now_ms)
            &&& final(physics).early_jump is Some ==> final(physics).early_jump->0 <= now_ms
            &&& final(physics).coyote_time is Some ==> final(physics).coyote_time->0 <= now_ms
            &&& *final(facing_right) == (if input.right && !input.left {
                true
            } else if input.left && !input.right {
                false
            } else {
                *old(facing_right)
            })
            &&& final(velocity).x == old(velocity).x + div1000(
                clamped_x(*old(physics), *old(velocity), input, now_ms) * dt_ms,
            )
            &&& final(velocity).y == old(velocity).y + div1000(
                accel_y(*old(physics), *old(velocity), input, now_ms) * dt_ms,
            ) + if jump_granted(*old(physics), input, now_ms) {
                JUMP_IMPULSE as int
            } else {
                0
            }
        }),
{
    if *state != GameState::Gameplay {
        return ;
    }
    let prev = *velocity;
    let mut is_early_jump = false;
    match physics.early_jump {
        Some(t) => {
            if now_ms - t < EARLY_JUMP_TIME_MS {
                is_early_jump = true;
            } else {
                physics.early_jump = None;
            }
        },
        None => {},
    }
    let mut is_coyote = false;
    match physics.coyote_time {
        Some(t) => {
            if now_ms - t < COYOTE_TIME_MS {
                is_coyote = true;
            } else {
                physics.coyote_time = None;
            }
        },
        None => {},
    }
    if input.right && !input.left {
        *facing_right = true;
    } else if input.left && !input.right {
        *facing_right = false;
    }
    let mut new_x: i64 = 0;
    let mut new_y: i64 = 0;
    let mut impulse: i64 = 0;
    let mut max_speed: i64 = MAX_GROUND_SPEED;
    if physics.grounded || is_coyote {
        if input.jump_just_pressed || is_early_jump {
            impulse = JUMP_IMPULSE;
            physics.coyote_time = None;
        } else if physics.grounded {
            physics.coyote_time = Some(now_ms);
        }
        new_x = if input.right && !input.left {
            GROUND_FORCE
        } else if input.left && !input.right {
            -GROUND_FORCE
        } else {
            0
        };
        physics.slamming = false;
    } else {
        if input.crouch_just_pressed || physics.slamming {
            new_y = new_y - SLAM_FORCE;
            if input.crouch_just_pressed {
                physics.slamming = true;
            }
        } else if input.jump_just_pressed {
            physics.early_jump = Some(now_ms);
        }
        new_x = if input.right && !input.left {
            AIR_FORCE
        } else if input.left && !input.right {
            -AIR_FORCE
        } else {
            0
        };
        max_speed = MAX_AIR_SPEED;
        if prev.y >= 0 {
            if input.jump_held {
                new_y = new_y - EASY_UP_GRAVITY;
            } else {
                new_y = new_y - UP_GRAVITY;
            }
        } else {
            if input.jump_held {
                new_y = new_y - EASY_DOWN_GRAVITY;
            } else {
                new_y = new_y - DOWN_GRAVITY;
            }
        }
    }
    let spd = speed(&prev) as i64;
    let cap: i64 = if spd > max_speed {
        spd
    } else {
        max_speed
    };
    let cx: i64 = if new_x > cap {
        cap
    } else if new_x < -cap {
        -cap
    } else {
        new_x
    };
    velocity.x = prev.x + scale_by_dt(cx, dt_ms);
    velocity.y = prev.y + scale_by_dt(new_y, dt_ms) + impulse;
}

/// Coyote time: with the jump key pressed while airborne, the impulse
/// is granted exactly when the coyote window is still open; the grant
/// consumes the window and the early-jump buffer stays empty, so no
/// later airborne tick grants a second impulse.
pub proof fn lemma_coyote_time(p: PlayerPhysics, inp: MoveInput, now: u64)
    requires
        !p.grounded,
        p.early_jump is None,
        p.coyote_time is Some,
        p.coyote_time->0 <= now,
        inp.jump_just_pressed,
    ensures
        jump_granted(p, inp, now) <==> now - p.coyote_time->0 < COYOTE_TIME_MS,
        now - p.coyote_time->0 < COYOTE_TIME_MS ==> coyote_after(p, inp, now) is None
            && early_jump_after(p, inp, now) is None,
{
}

/// Without ground contact and without a coyote window, no input grants
/// a jump: the impulse of a granted coyote jump cannot recur.
pub proof fn lemma_airborne_no_jump(p: PlayerPhysics, inp: MoveInput, now: u64)
    requires
        !p.grounded,
        p.coyote_time is None,
    ensures
        !jump_granted(p, inp, now),
{
}

/// A jump pressed while airborne, outside the coyote window and not
/// slamming, grants nothing now but arms the early-jump buffer with the
/// press time.
pub proof fn lemma_early_jump_buffered(p: PlayerPhysics, inp: MoveInput, now: u64)
    requires
        !p.grounded,
        p.coyote_time is None,
        !inp.crouch_just_pressed,
        !p.slamming,
        inp.jump_just_pressed,
    ensures
        !jump_granted(p, inp, now),
        early_jump_after(p, inp, now) == Some(now),
{
}

/// Early jump: on the tick that lands with a buffered press, the
/// impulse is granted exactly when the buffer is within its window; an
/// expired buffer grants nothing without a fresh press.
pub proof fn lemma_early_jump_landing(q: PlayerPhysics, inp: MoveInput, t1: u64, t2: u64)
    requires
        q.grounded,
        q.early_jump == Some(t1),
        t1 <= t2,
        !inp.jump_just_pressed,
    ensures
        jump_granted(q, inp, t2) <==> t2 - t1 < EARLY_JUMP_TIME_MS,
{
}

/// One damage-dealing sensor of the scene: its collider entity, the
/// entity of the enemy that owns it, and the signed damage it deals.
#[derive(Clone, Copy, PartialEq, Eq, Structural, Debug)]
pub struct DamageSource {
    pub entity: u64,
    pub parent: u64,
    pub damage: i32,
}

/// First damage source with the given collider entity, scanning from
/// index `i`.
pub open spec fn find_source(srcs: Seq<DamageSource>, e: u64, i: int) -> Option<DamageSource>
    decreases srcs.len() - i,
{
    if i < 0 || i >= srcs.len() {
        None
    } else if srcs[i].entity == e {
        Some(srcs[i])
    } else {
        find_source(srcs, e, i + 1)
    }
}

/// First damage multiplier attached to the given entity, in hundredths,
/// scanning from index `i`.
pub open spec fn find_boost(boosts: Seq<(u64, i32)>, e: u64, i: int) -> Option<i32>
    decreases boosts.len() - i,
{
    if i < 0 || i >= boosts.len() {
        None
    } else if boosts[i].0 == e {
        Some(boosts[i].1)
    } else {
        find_boost(boosts, e, i + 1)
    }
}

/// Division by one hundred rounded to the nearest whole number, halves
/// away from zero.
pub open spec fn round100(a: int) -> int {
    if a >= 0 {
        (a + 50) / 100
    } else {
        -((-a + 50) / 100)
    }
}

/// The damage one contact deals: the source magnitude scaled by the
/// multiplier in hundredths (one hundred when no multiplier is
/// attached), rounded to the nearest whole number.
pub fn damage_amount(magnitude: i32, multiplier_centi: i32) -> (r: i32)
    requires
        -100 <= magnitude <= 100,
        0 <= multiplier_centi <= 1000,
    ensures
        r == round100(magnitude * multiplier_centi),
        -1000 <= r <= 1000,
{
    if magnitude >= 0 {
        proof {
            assert(magnitude * multiplier_centi <= 100 * 1000 && 0 <= magnitude
                * multiplier_centi && (magnitude * multiplier_centi + 50) / 100 <= 1000)
                by (nonlinear_arith)
                requires
                    0 <= magnitude <= 100,
                    0 <= multiplier_centi <= 1000,
            ;
        }
        let prod = (magnitude as u64) * (multiplier_centi as u64);
        ((prod + 50) / 100) as i32
    } else {
        let mag = (-magnitude) as u64;
        proof {
            assert(mag * multiplier_centi <= 100 * 1000 && (mag * multiplier_centi + 50) / 100
                <= 1000) by (nonlinear_arith)
                requires
                    0 <= mag <= 100,
                    0 <= multiplier_centi <= 1000,
            ;
            vstd::arithmetic::mul::lemma_mul_unary_negation(
                magnitude as int,
                multiplier_centi as int,
            );
        }
        let prod = mag * (multiplier_centi as u64);
        -(((prod + 50) / 100) as i32)
    }
}

/// The aggregator state one event folds over: the ground-overlap
/// counter, the grounded flag, the health, and how many damage flashes
/// were triggered.
pub open spec fn checks_step(
    st: (int, bool, int, int),
    e: CollisionEvent,
    gs: u64,
    ds: u64,
    srcs: Seq<DamageSource>,
    boosts: Seq<(u64, i32)>,
) -> (int, bool, int, int) {
    match e {
        CollisionEvent::Started(a, b, sensor) => if !sensor {
            st
        } else if a == gs || b == gs {
            let c = st.0 + 1;
            (c, if c > 0 { true } else { st.1 }, st.2, st.3)
        } else if a == ds || b == ds {
            let other = if a == ds { b } else { a };
            match find_source(srcs, other, 0) {
                None => st,
                Some(src) => {
                    let mult = match find_boost(boosts, src.parent, 0) {
                        None => 100int,
                        Some(m) => m as int,
                    };
                    (st.0, st.1, st.2 + round100(src.damage * mult), st.3 + 1)
                },
            }
        } else {
            st
        },
        CollisionEvent::Stopped(a, b, sensor) => if sensor && (a == gs || b == gs) {
            let c = st.0 - 1;
            (c, if c < 1 { false } else { st.1 }, st.2, st.3)
        } else {
            st
        },
    }
}

/// The aggregator state after folding a whole event batch.
pub open spec fn checks_fold(
    events: Seq<CollisionEvent>,
    st: (int, bool, int, int),
    gs: u64,
    ds: u64,
    srcs: Seq<DamageSource>,
    boosts: Seq<(u64, i32)>,
) -> (int, bool, int, int)
    decreases events.len(),
{
    if events.len() == 0 {
        st
    } else {
        checks_step(
            checks_fold(events.drop_last(), st, gs, ds, srcs, boosts),
            events.last(),
            gs,
            ds,
            srcs,
            boosts,
        )
    }
}

proof fn lemma_checks_fold_take_succ(
    events: Seq<CollisionEvent>,
    st: (int, bool, int, int),
    gs: u64,
    ds: u64,
    srcs: Seq<DamageSource>,
    boosts: Seq<(u64, i32)>,
    n: int,
)
    requires
        0 <= n < events.len(),
    ensures
        checks_fold(events.take(n + 1), st, gs, ds, srcs, boosts) == checks_step(
            checks_fold(events.take(n), st, gs, ds, srcs, boosts),
            events[n],
            gs,
            ds,
            srcs,
            boosts,
        ),
{
    assert(events.take(n + 1).drop_last() =~= events.take(n));
}

proof fn lemma_find_source_member(srcs: Seq<DamageSource>, e: u64, i: int)
    requires
        find_source(srcs, e, i) is Some,
    ensures
        exists|k: int| 0 <= k < srcs.len() && srcs[k] == find_source(srcs, e, i)->0,
    decreases srcs.len() - i,
{
    if !(i < 0 || i >= srcs.len()) && srcs[i].entity != e {
        lemma_find_source_member(srcs, e, i + 1);
    }
}

proof fn lemma_find_boost_member(boosts: Seq<(u64, i32)>, e: u64, i: int)
    requires
        find_boost(boosts, e, i) is Some,
    ensures
        exists|k: int| 0 <= k < boosts.len() && boosts[k].1 == find_boost(boosts, e, i)->0,
    decreases boosts.len() - i,
{
    if !(i < 0 || i >= boosts.len()) && boosts[i].0 != e {
        lemma_find_boost_member(boosts, e, i + 1);
    }
}

/// Find the damage source of a collider entity.
fn lookup_source(sources: &Vec<DamageSource>, e: u64) -> (r: Option<DamageSource>)
    ensures
        r == find_source(sources@, e, 0),
{
    let mut i: usize = 0;
    while i < sources.len()
        invariant
            i <= sources@.len(),
            find_source(sources@, e, 0) == find_source(sources@, e, i as int),
        decreases sources@.len() - i,
    {
        if sources[i].entity == e {
            return Some(sources[i]);
        }
        i += 1;
    }
    None
}

/// Find the damage multiplier attached to an entity.
fn lookup_boost(boosts: &Vec<(u64, i32)>, e: u64) -> (r: Option<i32>)
    ensures
        r == find_boost(boosts@, e, 0),
{
    let mut i: usize = 0;
    while i < boosts.len()
        invariant
            i <= boosts@.len(),
            find_boost(boosts@, e, 0) == find_boost(boosts@, e, i as int),
        decreases boosts@.len() - i,
    {
        if boosts[i].0 == e {
            return Some(boosts[i].1);
        }
        i += 1;
    }
    None
}

/// Drain one tick's collision events into the player state: ground
/// sensor begin/end events adjust the overlap counter and recompute the
/// grounded flag from it, and damage sensor contacts apply their
/// source's damage — scaled by a multiplier on the source's owner —
/// to the health, each triggering a damage flash.
pub fn player_physics_checks(
    physics: &mut PlayerPhysics,
    health: &mut PlayerHealth,
    events: &Vec<CollisionEvent>,
    ground_sensor: u64,
    damage_sensor: u64,
    sources: &Vec<DamageSource>,
    boosts: &Vec<(u64, i32)>,
) -> (flashes: u32)
    requires
        -1000000 <= old(physics).total_ground_collisions <= 1000000,
        -1000000 <= old(health).0 <= 1000000,
        events@.len() <= 4096,
        forall|i: int| 0 <= i < sources@.len() ==> -100 <= (#[trigger] sources@[i]).damage
            <= 100,
        forall|i: int| 0 <= i < boosts@.len() ==> 0 <= (#[trigger] boosts@[i]).1 <= 1000,
    ensures
        ({
            let st = checks_fold(
                events@,
                (
                    old(physics).total_ground_collisions as int,
                    old(physics).grounded,
                    old(health).0 as int,
                    0int,
                ),
                ground_sensor,
                damage_sensor,
                sources@,
                boosts@,
            );
            &&& final(physics).total_ground_collisions == st.0
            &&& final(physics).grounded == st.1
            &&& final(health).0 == st.2
            &&& flashes == st.3
        }),
        final(physics).slamming == old(physics).slamming,
        final(physics).early_jump == old(physics).early_jump,
        final(physics).coyote_time == old(physics).coyote_time,
{
    let ghost st0 = (
        physics.total_ground_collisions as int,
        physics.grounded,
        health.0 as int,
        0int,
    );
    let mut flashes: u32 = 0;
    let mut i: usize = 0;
    while i < events.len()
        invariant
            i <= events@.len(),
            events@.len() <= 4096,
            forall|k: int| 0 <= k < sources@.len() ==> -100 <= (#[trigger] sources@[k]).damage
                <= 100,
            forall|k: int| 0 <= k < boosts@.len() ==> 0 <= (#[trigger] boosts@[k]).1 <= 1000,
            ({
                let st = checks_fold(
                    events@.take(i as int),
                    st0,
                    ground_sensor,
                    damage_sensor,
                    sources@,
                    boosts@,
                );
                &&& physics.total_ground_collisions == st.0
                &&& physics.grounded == st.1
                &&& health.0 == st.2
                &&& flashes == st.3
            }),
            -1000000 - i <= physics.total_ground_collisions <= 1000000 + i,
            -1000000 - 1000 * i <= health.0 <= 1000000 + 1000 * i,
            flashes <= i,
            physics.slamming == old(physics).slamming,
            physics.early_jump == old(physics).early_jump,
            physics.coyote_time == old(physics).coyote_time,
        decreases events@.len() - i,
    {
        proof {
            lemma_checks_fold_take_succ(
                events@,
                st0,
                ground_sensor,
                damage_sensor,
                sources@,
                boosts@,
                i as int,
            );
        }
        let e = events[i];
        match e {
            CollisionEvent::Started(a, b, sensor) => {
                if sensor {
                    if a == ground_sensor || b == ground_sensor {
                        crate::events::overlap_begin(
                            &mut physics.total_ground_collisions,
                            &mut physics.grounded,
                        );
                    } else if a == damage_sensor || b == damage_sensor {
                        let other = if a == damage_sensor {
                            b
                        } else {
                            a
                        };
                        match lookup_source(sources, other) {
                            None => {},
                            Some(src) => {
                                proof {
                                    lemma_find_source_member(sources@, other, 0);
                                }
                                let mult = match lookup_boost(boosts, src.parent) {
                                    None => 100,
                                    Some(m) => m,
                                };
                                proof {
                                    if find_boost(boosts@, src.parent, 0) is Some {
                                        lemma_find_boost_member(boosts@, src.parent, 0);
                                    }
                                }
                                health.0 = health.0 + damage_amount(src.damage, mult);
                                flashes = flashes + 1;
                            },
                        }
                    }
                }
            },
            CollisionEvent::Stopped(a, b, sensor) => {
                if sensor && (a == ground_sensor || b == ground_sensor) {
                    crate::events::overlap_end(
                        &mut physics.total_ground_collisions,
                        &mut physics.grounded,
                    );
                }
            },
        }
        i += 1;
    }
    proof {
        assert(events@.take(events@.len() as int) =~= events@);
    }
    flashes
}

/// The ground-counter part of the aggregator fold agrees with the plain
/// overlap counter and grounded-flag folds over the same events.
pub proof fn lemma_checks_ground_part(
    events: Seq<CollisionEvent>,
    st: (int, bool, int, int),
    gs: u64,
    ds: u64,
    srcs: Seq<DamageSource>,
    boosts: Seq<(u64, i32)>,
)
    requires
        ds != gs,
    ensures
        checks_fold(events, st, gs, ds, srcs, boosts).0 == crate::events::counter_after(
            events,
            gs,
            st.0,
        ),
        checks_fold(events, st, gs, ds, srcs, boosts).1 == crate::events::grounded_after(
            events,
            gs,
            st.0,
            st.1,
        ),
    decreases events.len(),
{
    if events.len() > 0 {
        lemma_checks_ground_part(events.drop_last(), st, gs, ds, srcs, boosts);
    }
}

/// Ground-counter invariant at the aggregator: for a matched stream of
/// begin/end events, the grounded flag equals "counter positive" after
/// the batch, and the counter never goes negative.
pub proof fn lemma_player_grounded_invariant(
    events: Seq<CollisionEvent>,
    st: (int, bool, int, int),
    gs: u64,
    ds: u64,
    srcs: Seq<DamageSource>,
    boosts: Seq<(u64, i32)>,
)
    requires
        ds != gs,
        st.0 >= 0,
        st.1 == (st.0 > 0),
        crate::events::well_formed_stream(events, gs, st.0),
    ensures
        checks_fold(events, st, gs, ds, srcs, boosts).0 >= 0,
        checks_fold(events, st, gs, ds, srcs, boosts).1 == (checks_fold(
            events,
            st,
            gs,
            ds,
            srcs,
            boosts,
        ).0 > 0),
{
    lemma_checks_ground_part(events, st, gs, ds, srcs, boosts);
    crate::events::lemma_ground_counter_invariant(events, gs, st.0, st.1);
}


/// Fill levels of the three heart icons for a given health: each heart
/// shows full (two), half (one) or empty (zero) half-hearts.
pub fn heart_levels(hp: i32) -> (r: (u8, u8, u8))
    ensures
        r.0 == if hp > 1 { 2int } else if hp == 1 { 1int } else { 0int },
        r.1 == if hp > 3 { 2int } else if hp == 3 { 1int } else { 0int },
        r.2 == if hp > 5 { 2int } else if hp == 5 { 1int } else { 0int },
{
    let h0: u8 = if hp > 1 { 2 } else if hp == 1 { 1 } else { 0 };
    let h1: u8 = if hp > 3 { 2 } else if hp == 3 { 1 } else { 0 };
    let h2: u8 = if hp > 5 { 2 } else if hp == 5 { 1 } else { 0 };
    (h0, h1, h2)
}

/// Advance the health bar's flash cadence: the flash phase lasts a
/// fixed quarter second, and the dark phase stretches with the health
/// left, so a hurt player blinks faster.
pub fn health_flash(flash: &mut bool, elapsed_ms: &mut u64, dt_ms: u64, hp: i32)
    requires
        *old(elapsed_ms) + dt_ms <= u64::MAX,
    ensures
        ({
            let e = *old(elapsed_ms) + dt_ms;
            let dark = 300 * (if hp > 0 { hp as int } else { 0 });
            if *old(flash) && e > 250 {
                !*final(flash) && *final(elapsed_ms) == 0
            } else if !*old(flash) && e > dark {
                *final(flash) && *final(elapsed_ms) == 0
            } else {
                *final(flash) == *old(flash) && *final(elapsed_ms) == e
            }
        }),
{
    *elapsed_ms = *elapsed_ms + dt_ms;
    let dark: u64 = 300 * (if hp > 0 { hp as u64 } else { 0 });
    if *flash && *elapsed_ms > 250 {
        *flash = false;
        *elapsed_ms = 0;
    } else if !*flash && *elapsed_ms > dark {
        *flash = true;
        *elapsed_ms = 0;
    }
}

/// Fit the largest whole multiple of the base resolution into the
/// window and centre it: the scaled viewport's position and size.
pub fn update_viewport(width: u32, height: u32) -> (r: (u32, u32, u32, u32))
    ensures
        ({
            let ws = width as int / 480;
            let hs = height as int / 320;
            let scale = if ws < hs { ws } else { hs };
            &&& r.2 == 480 * scale
            &&& r.3 == 320 * scale
            &&& r.0 == (width - 480 * scale) / 2
            &&& r.1 == (height - 320 * scale) / 2
        }),
{
    let w_scale = width / 480;
    let h_scale = height / 320;
    let scale = if w_scale < h_scale {
        w_scale
    } else {
        h_scale
    };
    proof {
        assert(480 * (width as int / 480) <= width && 320 * (height as int / 320) <= height)
            by (nonlinear_arith)
            requires
                width >= 0,
                height >= 0,
        ;
        assert(scale <= width as int / 480 && scale <= height as int / 320);
        assert(480 * scale <= 480 * (width as int / 480) && 320 * scale <= 320 * (height as int
            / 320)) by (nonlinear_arith)
            requires
                scale <= width as int / 480,
                scale <= height as int / 320,
        ;
    }
    let i_width = 480 * scale;
    let i_height = 320 * scale;
    let x = (width - i_width) / 2;
    let y = (height - i_height) / 2;
    (x, y, i_width, i_height)
}


/// Where the camera follows the player: centred on the player,
/// raised by seventy-five units (in centi-units).
pub fn camera_position(player_x: i64, player_y: i64) -> (r: (i64, i64))
    requires
        -1000000000000 <= player_y <= 1000000000000,
    ensures
        r.0 == player_x,
        r.1 == player_y + 7500,
{
    (player_x, player_y + 7500)
}

} // verus!
