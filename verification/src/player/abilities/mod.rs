//! Potion abilities: cooldown-gated projectile throws and the status
//! effects their impacts apply.
//!
//! Two ability kinds exist. Each has a fixed cooldown; activating one
//! while its slot holds a running cooldown is a no-op. An activation
//! throws a potion projectile with a fixed launch velocity plus half the
//! caster's velocity, and arms the slot. Cooldowns tick independently of
//! which ability is selected.
use vstd::prelude::*;

use crate::events::CollisionEvent;
use crate::player::Vel2;
use crate::timer::TickTimer;

pub mod green;
pub mod purple;

verus! {

/// Marker for a thrown potion projectile.
#[derive(Clone, Copy, PartialEq, Eq, Structural, Debug)]
pub struct Potion;

/// A pending one-shot health change on the struck entity, in
/// half-hearts; negative values are damage.
#[derive(Clone, Copy, PartialEq, Eq, Structural, Debug)]
pub struct HealthEffect {
    pub amount: i32,
}

/// A temporary movement-speed multiplier on the struck entity, in
/// hundredths.
#[derive(Clone, Copy, PartialEq, Eq, Structural, Debug)]
pub struct SpeedEffect {
    pub multiplier_centi: i32,
}

/// A temporary multiplier on the damage the struck entity deals, in
/// hundredths.
#[derive(Clone, Copy, PartialEq, Eq, Structural, Debug)]
pub struct DamageEffect {
    pub multiplier_centi: i32,
}

/// Cooldown of the green potion, milliseconds.
pub const GREEN_COOLDOWN_MS: u64 = 750;

/// Cooldown of the purple potion, milliseconds.
pub const PURPLE_COOLDOWN_MS: u64 = 1500;

/// Horizontal launch speed of a thrown potion, centi-units per second.
pub const THROW_SPEED_X: i64 = 40000;

/// Upward launch speed of a thrown potion.
pub const THROW_SPEED_Y: i64 = 20000;

/// Gravity applied to potions in flight.
pub const POTION_GRAVITY: i64 = 171675;

/// The per-ability cooldown slots: a present timer means the ability is
/// unusable until it finishes.
#[derive(Clone, Copy, PartialEq, Eq, Structural, Debug)]
pub struct AbilityCooldown {
    pub green: Option<TickTimer>,
    pub purple: Option<TickTimer>,
}

impl Default for AbilityCooldown {
    /// Both abilities start ready.
    fn default() -> (r: Self)
        ensures
            r.green is None,
            r.purple is None,
    {
        AbilityCooldown { green: None, purple: None }
    }
}

/// The cooldown timer of a spawned cooldown-indicator entity.
#[derive(Clone, Copy, PartialEq, Eq, Structural, Debug)]
pub struct Cooldown(pub TickTimer);

/// What a successful activation spawns: the projectile's initial
/// velocity, the indicator's vertical position, and the cooldown that
/// was started.
#[derive(Clone, Copy, PartialEq, Eq, Structural, Debug)]
pub struct Activation {
    pub projectile_velocity: Vel2,
    pub ui_y: i32,
    pub cooldown: TickTimer,
}

/// Truncating halving, rounding toward zero.
pub open spec fn half(a: int) -> int {
    if a >= 0 {
        a / 2
    } else {
        -((-a) / 2)
    }
}

/// Halve a velocity component, truncating toward zero.
fn half_i64(v: i64) -> (r: i64)
    requires
        -2000000000 <= v <= 2000000000,
    ensures
        r == half(v as int),
        -1000000000 <= r <= 1000000000,
{
    if v >= 0 {
        (((v as u64)) / 2) as i64
    } else {
        -((((-v) as u64) / 2) as i64)
    }
}

/// The initial velocity of a thrown potion: the fixed launch arc in the
/// facing direction plus half the caster's current velocity.
pub open spec fn launch_velocity(caster: Vel2, right: bool) -> Vel2 {
    Vel2 {
        x: ((if right { THROW_SPEED_X as int } else { -THROW_SPEED_X as int }) + half(
            caster.x as int,
        )) as i64,
        y: (THROW_SPEED_Y + half(caster.y as int)) as i64,
    }
}

/// The currently selected ability.
#[derive(Clone, Copy, PartialEq, Eq, Structural, Debug)]
pub enum ActiveAbility {
    Green,
    Purple,
}

/// The other of the two abilities.
pub open spec fn other_ability(a: ActiveAbility) -> ActiveAbility {
    match a {
        ActiveAbility::Green => ActiveAbility::Purple,
        ActiveAbility::Purple => ActiveAbility::Green,
    }
}

impl ActiveAbility {
    /// Cycle the selection forward: with two kinds, switch to the other.
    pub fn add(&mut self)
        ensures
            *final(self) == other_ability(*old(self)),
    {
        *self = match self {
            ActiveAbility::Green => ActiveAbility::Purple,
            ActiveAbility::Purple => ActiveAbility::Green,
        };
    }

    /// Cycle the selection backward: with two kinds, switch to the
    /// other.
    pub fn subtract(&mut self)
        ensures
            *final(self) == other_ability(*old(self)),
    {
        *self = match self {
            ActiveAbility::Green => ActiveAbility::Purple,
            ActiveAbility::Purple => ActiveAbility::Green,
        };
    }

    /// Vertical position of this ability's slot in the side bar.
    pub fn ui_position(&self) -> (y: i32)
        ensures
            *self is Green ==> y == green::GREEN_UI_Y,
            *self is Purple ==> y == purple::PURPLE_UI_Y,
    {
        match self {
            ActiveAbility::Green => green::GREEN_UI_Y,
            ActiveAbility::Purple => purple::PURPLE_UI_Y,
        }
    }

    /// Try to activate this ability: while its cooldown slot holds a
    /// timer the activation is rejected and nothing is spawned;
    /// otherwise the potion is thrown, the slot is armed with the
    /// ability's cooldown, and the spawn data is returned.
    pub fn activate(&self, cooldown: &mut AbilityCooldown, caster_velocity: Vel2, right: bool)
        -> (r: Option<Activation>)
        requires
            -2000000000 <= caster_velocity.x <= 2000000000,
            -2000000000 <= caster_velocity.y <= 2000000000,
        ensures
            *self is Green ==> ({
                &&& r is Some <==> old(cooldown).green is None
                &&& final(cooldown).purple == old(cooldown).purple
                &&& old(cooldown).green is Some ==> *final(cooldown) == *old(cooldown)
                &&& old(cooldown).green is None ==> final(cooldown).green == Some(
                    TickTimer { elapsed_ms: 0, duration_ms: GREEN_COOLDOWN_MS },
                )
                &&& r is Some ==> r->0 == (Activation {
                    projectile_velocity: launch_velocity(caster_velocity, right),
                    ui_y: green::GREEN_UI_Y,
                    cooldown: TickTimer { elapsed_ms: 0, duration_ms: GREEN_COOLDOWN_MS },
                })
            }),
            *self is Purple ==> ({
                &&& r is Some <==> old(cooldown).purple is None
                &&& final(cooldown).green == old(cooldown).green
                &&& old(cooldown).purple is Some ==> *final(cooldown) == *old(cooldown)
                &&& old(cooldown).purple is None ==> final(cooldown).purple == Some(
                    TickTimer { elapsed_ms: 0, duration_ms: PURPLE_COOLDOWN_MS },
                )
                &&& r is Some ==> r->0 == (Activation {
                    projectile_velocity: launch_velocity(caster_velocity, right),
                    ui_y: purple::PURPLE_UI_Y,
                    cooldown: TickTimer { elapsed_ms: 0, duration_ms: PURPLE_COOLDOWN_MS },
                })
            }),
    {
        let vx = if right {
            THROW_SPEED_X + half_i64(caster_velocity.x)
        } else {
            -THROW_SPEED_X + half_i64(caster_velocity.x)
        };
        let vy = THROW_SPEED_Y + half_i64(caster_velocity.y);
        let velocity = Vel2 { x: vx, y: vy };
        match self {
            ActiveAbility::Green => {
                if cooldown.green.is_none() {
                    let timer = TickTimer::new(GREEN_COOLDOWN_MS);
                    cooldown.green = Some(timer);
                    Some(
                        Activation {
                            projectile_velocity: velocity,
                            ui_y: green::GREEN_UI_Y,
                            cooldown: timer,
                        },
                    )
                } else {
                    None
                }
            },
            ActiveAbility::Purple => {
                if cooldown.purple.is_none() {
                    let timer = TickTimer::new(PURPLE_COOLDOWN_MS);
                    cooldown.purple = Some(timer);
                    Some(
                        Activation {
                            projectile_velocity: velocity,
                            ui_y: purple::PURPLE_UI_Y,
                            cooldown: timer,
                        },
                    )
                } else {
                    None
                }
            },
        }
    }
}

/// Cycle the selection by the scroll/keys delta: positive cycles
/// forward, negative backward, zero leaves it.
pub fn update_active_ability(active: &mut ActiveAbility, delta_sign: i32)
    ensures
        delta_sign != 0 ==> *final(active) == other_ability(*old(active)),
        delta_sign == 0 ==> *final(active) == *old(active),
{
    if delta_sign > 0 {
        active.add();
    } else if delta_sign < 0 {
        active.subtract();
    }
}

/// One cooldown slot after a tick: the timer advances, and a finished
/// timer empties the slot.
pub open spec fn slot_after(slot: Option<TickTimer>, dt_ms: u64) -> Option<TickTimer> {
    match slot {
        None => None,
        Some(t) => {
            let t2 = t.spec_tick(dt_ms);
            if t2.spec_finished() {
                None
            } else {
                Some(t2)
            }
        },
    }
}

/// Tick both cooldown slots; a cooldown that finishes frees its slot,
/// whether or not its ability is selected.
pub fn update_cooldowns(cooldown: &mut AbilityCooldown, dt_ms: u64)
    ensures
        final(cooldown).green == slot_after(old(cooldown).green, dt_ms),
        final(cooldown).purple == slot_after(old(cooldown).purple, dt_ms),
{
    match &mut cooldown.green {
        Some(t) => {
            t.tick(dt_ms);
            if t.finished() {
                cooldown.green = None;
            }
        },
        None => {},
    }
    match &mut cooldown.purple {
        Some(t) => {
            t.tick(dt_ms);
            if t.finished() {
                cooldown.purple = None;
            }
        },
        None => {},
    }
}

/// Apply one tick of gravity to a potion in flight.
pub fn update_potion_gravity(velocity: &mut Vel2, dt_ms: u64)
    requires
        dt_ms <= 1000,
        -2000000000 <= old(velocity).y <= 2000000000,
    ensures
        final(velocity).x == old(velocity).x,
        final(velocity).y == old(velocity).y - POTION_GRAVITY * dt_ms / 1000,
{
    proof {
        assert(POTION_GRAVITY * dt_ms <= 171675i64 * 1000 && 0 <= POTION_GRAVITY * dt_ms)
            by (nonlinear_arith)
            requires
                0 <= dt_ms <= 1000,
        ;
    }
    let fall = ((POTION_GRAVITY as u64) * dt_ms / 1000) as i64;
    velocity.y = velocity.y - fall;
}

/// One recorded potion impact: the projectile and the entity it struck.
#[derive(Clone, Copy, PartialEq, Eq, Structural, Debug)]
pub struct PotionHit {
    pub potion: u64,
    pub other: u64,
}

/// The impacts a batch of events contains for the given set of potion
/// entities: each begun non-sensor collision with a potion on either
/// side, paired with the other collider.
pub open spec fn potion_hits(events: Seq<CollisionEvent>, potions: Seq<u64>) -> Seq<PotionHit>
    decreases events.len(),
{
    if events.len() == 0 {
        Seq::empty()
    } else {
        let rest = potion_hits(events.drop_last(), potions);
        match events.last() {
            CollisionEvent::Started(a, b, sensor) => if sensor {
                rest
            } else if potions.contains(a) {
                rest.push(PotionHit { potion: a, other: b })
            } else if potions.contains(b) {
                rest.push(PotionHit { potion: b, other: a })
            } else {
                rest
            },
            CollisionEvent::Stopped(_, _, _) => rest,
        }
    }
}

proof fn lemma_potion_hits_take_succ(events: Seq<CollisionEvent>, potions: Seq<u64>, n: int)
    requires
        0 <= n < events.len(),
    ensures
        potion_hits(events.take(n + 1), potions) == ({
            let rest = potion_hits(events.take(n), potions);
            match events[n] {
                CollisionEvent::Started(a, b, sensor) => if sensor {
                    rest
                } else if potions.contains(a) {
                    rest.push(PotionHit { potion: a, other: b })
                } else if potions.contains(b) {
                    rest.push(PotionHit { potion: b, other: a })
                } else {
                    rest
                },
                CollisionEvent::Stopped(_, _, _) => rest,
            }
        }),
{
    assert(events.take(n + 1).drop_last() =~= events.take(n));
}

/// Is this entity one of the listed potions?
fn is_potion(potions: &Vec<u64>, e: u64) -> (r: bool)
    ensures
        r == potions@.contains(e),
{
    let mut i: usize = 0;
    while i < potions.len()
        invariant
            i <= potions@.len(),
            forall|k: int| 0 <= k < i ==> potions@[k] != e,
        decreases potions@.len() - i,
    {
        if potions[i] == e {
            return true;
        }
        i += 1;
    }
    false
}

/// Collect the potion impacts in one tick's events: every begun
/// non-sensor collision involving a potion yields one hit naming the
/// struck collider. The caller despawns each hit potion, spawns its
/// splash, and attaches the ability's effects to the struck entity.
pub fn collect_potion_hits(events: &Vec<CollisionEvent>, potions: &Vec<u64>) -> (hits: Vec<
    PotionHit,
>)
    ensures
        hits@ == potion_hits(events@, potions@),
{
    let mut hits: Vec<PotionHit> = Vec::new();
    let mut i: usize = 0;
    while i < events.len()
        invariant
            i <= events@.len(),
            hits@ == potion_hits(events@.take(i as int), potions@),
        decreases events@.len() - i,
    {
        proof {
            lemma_potion_hits_take_succ(events@, potions@, i as int);
        }
        match events[i] {
            CollisionEvent::Started(a, b, sensor) => {
                if !sensor {
                    if is_potion(potions, a) {
                        hits.push(PotionHit { potion: a, other: b });
                    } else if is_potion(potions, b) {
                        hits.push(PotionHit { potion: b, other: a });
                    }
                }
            },
            CollisionEvent::Stopped(_, _, _) => {},
        }
        i += 1;
    }
    proof {
        assert(events@.take(events@.len() as int) =~= events@);
    }
    hits
}


/// The spawn position of a thrown potion: twelve units (in centi-units)
/// in front of the caster, on the side the caster faces.
pub fn throw_offset_x(caster_x: i64, right: bool) -> (r: i64)
    requires
        -1000000000000 <= caster_x <= 1000000000000,
    ensures
        r == caster_x + if right { 1200int } else { -1200int },
{
    if right {
        caster_x + 1200
    } else {
        caster_x - 1200
    }
}


/// The ability key during gameplay: a press tries to activate the
/// selected ability; outside gameplay, or without a press, nothing
/// happens and the cooldowns are untouched.
pub fn use_ability(
    state: &crate::GameState,
    pressed: bool,
    active: &ActiveAbility,
    cooldown: &mut AbilityCooldown,
    caster_velocity: Vel2,
    right: bool,
) -> (r: Option<Activation>)
    requires
        -2000000000 <= caster_velocity.x <= 2000000000,
        -2000000000 <= caster_velocity.y <= 2000000000,
    ensures
        (*state != crate::GameState::Gameplay || !pressed) ==> r is None && *final(cooldown)
            == *old(cooldown),
        (*state == crate::GameState::Gameplay && pressed) ==> ({
            &&& *active is Green ==> (r is Some <==> old(cooldown).green is None)
            &&& *active is Purple ==> (r is Some <==> old(cooldown).purple is None)
            &&& r is Some ==> r->0.projectile_velocity == launch_velocity(caster_velocity, right)
        }),
{
    if *state != crate::GameState::Gameplay || !pressed {
        return None;
    }
    active.activate(cooldown, caster_velocity, right)
}

} // verus!
