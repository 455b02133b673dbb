//! The skeleton enemy: patrol AI, side-sensor bookkeeping, and health.
use vstd::prelude::*;

use crate::enemies::DamageGiven;
use crate::events::CollisionEvent;
use crate::player::Vel2;
use crate::player::abilities::{HealthEffect, SpeedEffect};

verus! {

/// A patrolling skeleton: its heading, the overlap counters of its two
/// side sensors, and its hit points.
#[derive(Clone, Copy, PartialEq, Eq, Structural, Debug)]
pub struct Skeleton {
    pub going_right: bool,
    pub left_sensor: i32,
    pub right_sensor: i32,
    pub hp: i32,
}

impl Default for Skeleton {
    /// A fresh skeleton walks left with three hit points.
    fn default() -> (r: Self)
        ensures
            !r.going_right,
            r.left_sensor == 0,
            r.right_sensor == 0,
            r.hp == 3,
    {
        Skeleton { going_right: false, left_sensor: 0, right_sensor: 0, hp: 3 }
    }
}

/// Base patrol speed, centi-units per second.
pub const SKELETON_SPEED: i64 = 100000;

/// The heading after one tick: it flips only when the sensor on the
/// current heading registers contact while the opposite sensor does
/// not, which keeps the skeleton from oscillating in a corner.
pub open spec fn heading_after(s: Skeleton) -> bool {
    if s.going_right && s.right_sensor > 0 && s.left_sensor < 1 {
        false
    } else if !s.going_right && s.right_sensor < 1 && s.left_sensor > 0 {
        true
    } else {
        s.going_right
    }
}

/// The patrol speed scaled by an active speed effect in hundredths.
pub open spec fn patrol_speed(effect: Option<SpeedEffect>) -> int {
    match effect {
        None => SKELETON_SPEED as int,
        Some(e) => 1000 * e.multiplier_centi,
    }
}

/// One tick of the patrol AI: flip the heading by the side sensors,
/// then accelerate in the heading direction, scaled by an active speed
/// effect.
pub fn ai(skeleton: &mut Skeleton, velocity: &mut Vel2, effect: Option<&SpeedEffect>, dt_ms: u64)
    requires
        dt_ms <= 1000,
        -2000000000 <= old(velocity).x <= 2000000000,
        effect is Some ==> 0 <= effect->0.multiplier_centi <= 1000,
    ensures
        final(skeleton).going_right == heading_after(*old(skeleton)),
        final(skeleton).left_sensor == old(skeleton).left_sensor,
        final(skeleton).right_sensor == old(skeleton).right_sensor,
        final(skeleton).hp == old(skeleton).hp,
        final(velocity).y == old(velocity).y,
        final(velocity).x == if heading_after(*old(skeleton)) {
            old(velocity).x + patrol_speed(
                match effect {
                    Some(e) => Some(*e),
                    None => None,
                },
            ) * dt_ms / 1000
        } else {
            old(velocity).x - patrol_speed(
                match effect {
                    Some(e) => Some(*e),
                    None => None,
                },
            ) * dt_ms / 1000
        },
{
    if skeleton.going_right && skeleton.right_sensor > 0 && skeleton.left_sensor < 1 {
        skeleton.going_right = false;
    } else if !skeleton.going_right && skeleton.right_sensor < 1 && skeleton.left_sensor > 0 {
        skeleton.going_right = true;
    }
    let speed: u64 = match effect {
        Some(e) => 1000 * (e.multiplier_centi as u64),
        None => SKELETON_SPEED as u64,
    };
    proof {
        assert(speed * dt_ms <= 1000000u64 * 1000 && 0 <= speed * dt_ms) by (nonlinear_arith)
            requires
                0 <= speed <= 1000000,
                0 <= dt_ms <= 1000,
        ;
    }
    let step = (speed * dt_ms / 1000) as i64;
    if skeleton.going_right {
        velocity.x = velocity.x + step;
    } else {
        velocity.x = velocity.x - step;
    }
}

/// One skeleton's side counters after a begun overlap on the left or
/// right sensor.
pub open spec fn side_begun(s: Skeleton, left: bool) -> Skeleton {
    if left {
        Skeleton { left_sensor: (s.left_sensor + 1) as i32, ..s }
    } else {
        Skeleton { right_sensor: (s.right_sensor + 1) as i32, ..s }
    }
}

/// One skeleton's side counters after an ended overlap on the left or
/// right sensor.
pub open spec fn side_ended(s: Skeleton, left: bool) -> Skeleton {
    if left {
        Skeleton { left_sensor: (s.left_sensor - 1) as i32, ..s }
    } else {
        Skeleton { right_sensor: (s.right_sensor - 1) as i32, ..s }
    }
}

/// Adjust the owner named by the sensor pair, if any, by `delta` on the
/// given side.
pub open spec fn side_adjust(
    st: Seq<Skeleton>,
    sensors: Seq<(u64, usize)>,
    a: u64,
    b: u64,
    left: bool,
    begun: bool,
) -> Seq<Skeleton> {
    match crate::enemies::event_owner(sensors, a, b) {
        None => st,
        Some(ix) => if ix < st.len() {
            st.update(ix as int, if begun {
                side_begun(st[ix as int], left)
            } else {
                side_ended(st[ix as int], left)
            })
        } else {
            st
        },
    }
}

/// All skeletons after one event: a sensor overlap touching a left
/// sensor adjusts its owner's left counter, and likewise — in the same
/// event — for the right sensors.
pub open spec fn skeleton_step(
    st: Seq<Skeleton>,
    e: CollisionEvent,
    left_sensors: Seq<(u64, usize)>,
    right_sensors: Seq<(u64, usize)>,
) -> Seq<Skeleton> {
    match e {
        CollisionEvent::Started(a, b, sensor) => if !sensor {
            st
        } else {
            let st1 = side_adjust(st, left_sensors, a, b, true, true);
            side_adjust(st1, right_sensors, a, b, false, true)
        },
        CollisionEvent::Stopped(a, b, sensor) => if !sensor {
            st
        } else {
            let st1 = side_adjust(st, left_sensors, a, b, true, false);
            side_adjust(st1, right_sensors, a, b, false, false)
        },
    }
}

/// All skeletons after folding a batch of events.
pub open spec fn skeleton_fold(
    events: Seq<CollisionEvent>,
    st: Seq<Skeleton>,
    left_sensors: Seq<(u64, usize)>,
    right_sensors: Seq<(u64, usize)>,
) -> Seq<Skeleton>
    decreases events.len(),
{
    if events.len() == 0 {
        st
    } else {
        skeleton_step(
            skeleton_fold(events.drop_last(), st, left_sensors, right_sensors),
            events.last(),
            left_sensors,
            right_sensors,
        )
    }
}

proof fn lemma_skeleton_fold_take_succ(
    events: Seq<CollisionEvent>,
    st: Seq<Skeleton>,
    ls: Seq<(u64, usize)>,
    rs: Seq<(u64, usize)>,
    n: int,
)
    requires
        0 <= n < events.len(),
    ensures
        skeleton_fold(events.take(n + 1), st, ls, rs) == skeleton_step(
            skeleton_fold(events.take(n), st, ls, rs),
            events[n],
            ls,
            rs,
        ),
{
    assert(events.take(n + 1).drop_last() =~= events.take(n));
}

/// Apply one side adjustment in place.
fn apply_side(
    skeletons: &mut Vec<Skeleton>,
    sensors: &Vec<(u64, usize)>,
    a: u64,
    b: u64,
    left: bool,
    begun: bool,
)
    requires
        forall|k: int| 0 <= k < old(skeletons)@.len() ==> -1000000000 <= (#[trigger] old(
            skeletons,
        )@[k]).left_sensor <= 1000000000 && -1000000000 <= old(skeletons)@[k].right_sensor
            <= 1000000000,
    ensures
        final(skeletons)@ == side_adjust(old(skeletons)@, sensors@, a, b, left, begun),
{
    let owner = match crate::enemies::lookup_owner(sensors, a) {
        Some(ix) => Some(ix),
        None => crate::enemies::lookup_owner(sensors, b),
    };
    match owner {
        Some(ix) => {
            if ix < skeletons.len() {
                let mut s = skeletons[ix];
                if left {
                    s.left_sensor = if begun {
                        s.left_sensor + 1
                    } else {
                        s.left_sensor - 1
                    };
                } else {
                    s.right_sensor = if begun {
                        s.right_sensor + 1
                    } else {
                        s.right_sensor - 1
                    };
                }
                skeletons.set(ix, s);
            }
        },
        None => {},
    }
}

/// Drain one tick's collision events into the skeletons' side-sensor
/// counters: each begun or ended sensor overlap touching a registered
/// left or right patrol sensor adjusts its owner's counter.
pub fn checks(
    skeletons: &mut Vec<Skeleton>,
    left_sensors: &Vec<(u64, usize)>,
    right_sensors: &Vec<(u64, usize)>,
    events: &Vec<CollisionEvent>,
)
    requires
        events@.len() <= 4096,
        forall|k: int| 0 <= k < old(skeletons)@.len() ==> -1000000 <= (#[trigger] old(
            skeletons,
        )@[k]).left_sensor <= 1000000 && -1000000 <= old(skeletons)@[k].right_sensor <= 1000000,
    ensures
        final(skeletons)@ == skeleton_fold(events@, old(skeletons)@, left_sensors@,
            right_sensors@),
{
    let ghost st0 = skeletons@;
    let mut i: usize = 0;
    while i < events.len()
        invariant
            i <= events@.len(),
            events@.len() <= 4096,
            skeletons@ == skeleton_fold(events@.take(i as int), st0, left_sensors@,
                right_sensors@),
            skeletons@.len() == st0.len(),
            forall|k: int| 0 <= k < skeletons@.len() ==> -1000000 - 2 * i <= (
            #[trigger] skeletons@[k]).left_sensor <= 1000000 + 2 * i && -1000000 - 2 * i
                <= skeletons@[k].right_sensor <= 1000000 + 2 * i,
        decreases events@.len() - i,
    {
        proof {
            lemma_skeleton_fold_take_succ(events@, st0, left_sensors@, right_sensors@, i as int);
        }
        match events[i] {
            CollisionEvent::Started(a, b, sensor) => {
                if sensor {
                    apply_side(skeletons, left_sensors, a, b, true, true);
                    apply_side(skeletons, right_sensors, a, b, false, true);
                }
            },
            CollisionEvent::Stopped(a, b, sensor) => {
                if sensor {
                    apply_side(skeletons, left_sensors, a, b, true, false);
                    apply_side(skeletons, right_sensors, a, b, false, false);
                }
            },
        }
        i += 1;
    }
    proof {
        assert(events@.take(events@.len() as int) =~= events@);
    }
}

/// Consume a pending health effect: the signed amount lands on the hit
/// points, the effect is removed by the caller, and the hurt flag for
/// the win screen is set.
pub fn health_effects(skeleton: &mut Skeleton, effect: HealthEffect, damage_given: &mut DamageGiven)
    requires
        -1000000 <= old(skeleton).hp <= 1000000,
        -1000000 <= effect.amount <= 1000000,
    ensures
        final(skeleton).hp == old(skeleton).hp + effect.amount,
        final(skeleton).going_right == old(skeleton).going_right,
        final(skeleton).left_sensor == old(skeleton).left_sensor,
        final(skeleton).right_sensor == old(skeleton).right_sensor,
        final(damage_given).0,
{
    skeleton.hp = skeleton.hp + effect.amount;
    damage_given.0 = true;
}

/// A skeleton whose hit points fell below one is despawned on this
/// pass.
pub fn health(skeleton: &Skeleton) -> (despawn: bool)
    ensures
        despawn == (skeleton.hp < 1),
{
    skeleton.hp < 1
}

} // verus!
