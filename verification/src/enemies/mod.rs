//! Enemy physics shared by all enemy kinds: ground contact aggregation,
//! manual gravity, and sprite facing.
use vstd::prelude::*;

use crate::events::CollisionEvent;
use crate::player::Vel2;

pub mod skeleton;

verus! {

/// Durable physics state of one enemy.
#[derive(Clone, Copy, PartialEq, Eq, Structural, Debug)]
pub struct EnemyPhysics {
    pub total_ground_collisions: i32,
    pub grounded: bool,
}

impl Default for EnemyPhysics {
    /// A freshly spawned enemy is airborne with no contacts.
    fn default() -> (r: Self)
        ensures
            r.total_ground_collisions == 0,
            !r.grounded,
    {
        EnemyPhysics { total_ground_collisions: 0, grounded: false }
    }
}

/// The signed damage a touch of this enemy's damage sensor deals.
#[derive(Clone, Copy, PartialEq, Eq, Structural, Debug)]
pub struct EnemyDamageActivator(pub i32);

/// Whether any enemy has been hurt this playthrough; shown on the win
/// screen.
#[derive(Clone, Copy, PartialEq, Eq, Structural, Debug)]
pub struct DamageGiven(pub bool);

/// Constant downward acceleration applied manually to airborne enemies.
pub const ENEMY_GRAVITY: i64 = 269775;

/// First owner index registered for the given sensor collider entity,
/// scanning from index `i`.
pub open spec fn find_owner(sensors: Seq<(u64, usize)>, e: u64, i: int) -> Option<usize>
    decreases sensors.len() - i,
{
    if i < 0 || i >= sensors.len() {
        None
    } else if sensors[i].0 == e {
        Some(sensors[i].1)
    } else {
        find_owner(sensors, e, i + 1)
    }
}

/// The owner an event's colliders resolve to: the first collider that
/// is a registered sensor names the owner.
pub open spec fn event_owner(sensors: Seq<(u64, usize)>, a: u64, b: u64) -> Option<usize> {
    if find_owner(sensors, a, 0) is Some {
        find_owner(sensors, a, 0)
    } else {
        find_owner(sensors, b, 0)
    }
}

/// One enemy's physics after a begun ground contact.
pub open spec fn enemy_begun(p: EnemyPhysics) -> EnemyPhysics {
    let c = p.total_ground_collisions + 1;
    EnemyPhysics {
        total_ground_collisions: c as i32,
        grounded: if c > 0 { true } else { p.grounded },
    }
}

/// One enemy's physics after an ended ground contact.
pub open spec fn enemy_ended(p: EnemyPhysics) -> EnemyPhysics {
    let c = p.total_ground_collisions - 1;
    EnemyPhysics {
        total_ground_collisions: c as i32,
        grounded: if c < 1 { false } else { p.grounded },
    }
}

/// All enemies' physics after one event: a begun or ended sensor
/// overlap touching a registered ground sensor adjusts its owner's
/// counter; anything else is ignored.
pub open spec fn enemy_step(
    st: Seq<EnemyPhysics>,
    e: CollisionEvent,
    sensors: Seq<(u64, usize)>,
) -> Seq<EnemyPhysics> {
    match e {
        CollisionEvent::Started(a, b, sensor) => if !sensor {
            st
        } else {
            match event_owner(sensors, a, b) {
                None => st,
                Some(ix) => if ix < st.len() {
                    st.update(ix as int, enemy_begun(st[ix as int]))
                } else {
                    st
                },
            }
        },
        CollisionEvent::Stopped(a, b, sensor) => if !sensor {
            st
        } else {
            match event_owner(sensors, a, b) {
                None => st,
                Some(ix) => if ix < st.len() {
                    st.update(ix as int, enemy_ended(st[ix as int]))
                } else {
                    st
                },
            }
        },
    }
}

/// All enemies' physics after folding a batch of events.
pub open spec fn enemy_fold(
    events: Seq<CollisionEvent>,
    st: Seq<EnemyPhysics>,
    sensors: Seq<(u64, usize)>,
) -> Seq<EnemyPhysics>
    decreases events.len(),
{
    if events.len() == 0 {
        st
    } else {
        enemy_step(enemy_fold(events.drop_last(), st, sensors), events.last(), sensors)
    }
}

proof fn lemma_enemy_fold_take_succ(
    events: Seq<CollisionEvent>,
    st: Seq<EnemyPhysics>,
    sensors: Seq<(u64, usize)>,
    n: int,
)
    requires
        0 <= n < events.len(),
    ensures
        enemy_fold(events.take(n + 1), st, sensors) == enemy_step(
            enemy_fold(events.take(n), st, sensors),
            events[n],
            sensors,
        ),
{
    assert(events.take(n + 1).drop_last() =~= events.take(n));
}

/// Find the owner index of a sensor collider.
pub(crate) fn lookup_owner(sensors: &Vec<(u64, usize)>, e: u64) -> (r: Option<usize>)
    ensures
        r == find_owner(sensors@, e, 0),
{
    let mut i: usize = 0;
    while i < sensors.len()
        invariant
            i <= sensors@.len(),
            find_owner(sensors@, e, 0) == find_owner(sensors@, e, i as int),
        decreases sensors@.len() - i,
    {
        if sensors[i].0 == e {
            return Some(sensors[i].1);
        }
        i += 1;
    }
    None
}

/// Drain one tick's collision events into the enemies' ground state:
/// each begun or ended sensor overlap that touches a registered enemy
/// ground sensor adjusts that enemy's overlap counter and recomputes
/// its grounded flag from the counter.
pub fn enemy_physics_checks(
    data: &mut Vec<EnemyPhysics>,
    sensors: &Vec<(u64, usize)>,
    events: &Vec<CollisionEvent>,
)
    requires
        events@.len() <= 4096,
        forall|k: int| 0 <= k < old(data)@.len() ==> -1000000 <= (#[trigger] old(
            data,
        )@[k]).total_ground_collisions <= 1000000,
    ensures
        final(data)@ == enemy_fold(events@, old(data)@, sensors@),
{
    let ghost st0 = data@;
    let mut i: usize = 0;
    while i < events.len()
        invariant
            i <= events@.len(),
            events@.len() <= 4096,
            data@ == enemy_fold(events@.take(i as int), st0, sensors@),
            data@.len() == st0.len(),
            forall|k: int| 0 <= k < data@.len() ==> -1000000 - i <= (#[trigger] data@[k])
                .total_ground_collisions <= 1000000 + i,
        decreases events@.len() - i,
    {
        proof {
            lemma_enemy_fold_take_succ(events@, st0, sensors@, i as int);
        }
        match events[i] {
            CollisionEvent::Started(a, b, sensor) => {
                if sensor {
                    let owner = match lookup_owner(sensors, a) {
                        Some(ix) => Some(ix),
                        None => lookup_owner(sensors, b),
                    };
                    match owner {
                        Some(ix) => {
                            if ix < data.len() {
                                let mut p = data[ix];
                                crate::events::overlap_begin(
                                    &mut p.total_ground_collisions,
                                    &mut p.grounded,
                                );
                                data.set(ix, p);
                            }
                        },
                        None => {},
                    }
                }
            },
            CollisionEvent::Stopped(a, b, sensor) => {
                if sensor {
                    let owner = match lookup_owner(sensors, a) {
                        Some(ix) => Some(ix),
                        None => lookup_owner(sensors, b),
                    };
                    match owner {
                        Some(ix) => {
                            if ix < data.len() {
                                let mut p = data[ix];
                                crate::events::overlap_end(
                                    &mut p.total_ground_collisions,
                                    &mut p.grounded,
                                );
                                data.set(ix, p);
                            }
                        },
                        None => {},
                    }
                }
            },
        }
        i += 1;
    }
    proof {
        assert(events@.take(events@.len() as int) =~= events@);
    }
}

/// Apply one tick of gravity to an airborne enemy; a grounded enemy is
/// left alone.
pub fn enemy_gravity(velocity: &mut Vel2, physics: &EnemyPhysics, dt_ms: u64)
    requires
        dt_ms <= 1000,
        -2000000000 <= old(velocity).y <= 2000000000,
    ensures
        final(velocity).x == old(velocity).x,
        final(velocity).y == if physics.grounded {
            old(velocity).y as int
        } else {
            old(velocity).y - ENEMY_GRAVITY * dt_ms / 1000
        },
{
    if !physics.grounded {
        proof {
            assert(ENEMY_GRAVITY * dt_ms <= 269775i64 * 1000 && 0 <= ENEMY_GRAVITY * dt_ms)
                by (nonlinear_arith)
                requires
                    0 <= dt_ms <= 1000,
            ;
        }
        let fall = ((ENEMY_GRAVITY as u64) * dt_ms / 1000) as i64;
        velocity.y = velocity.y - fall;
    }
}

/// Face the sprite along the direction of travel, with a small dead
/// zone so that a nearly still enemy keeps its facing.
pub fn enemy_direction(velocity: &Vel2, flip_x: &mut bool)
    ensures
        *final(flip_x) == if velocity.x > 10 {
            false
        } else if velocity.x < -10 {
            true
        } else {
            *old(flip_x)
        },
{
    if velocity.x > 10 {
        *flip_x = false;
    } else if velocity.x < -10 {
        *flip_x = true;
    }
}

} // verus!
