//! Collision events and overlap counters.
//!
//! The physics engine reports instantaneous begin/end collision
//! notifications; entities are plain numeric identifiers. The game turns
//! them into durable per-owner overlap counters, and derives flags such
//! as "grounded" from the counter being positive — never by toggling
//! the flag directly — so that overlapping several contacts at once is
//! handled correctly.
use vstd::prelude::*;

verus! {

/// A begin or end collision notification naming the two colliders
/// involved and whether a sensor took part. The two collider roles are
/// interchangeable.
#[derive(Clone, Copy, PartialEq, Eq, Structural, Debug)]
pub enum CollisionEvent {
    Started(u64, u64, bool),
    Stopped(u64, u64, bool),
}

/// Signed contribution of one event to the overlap counter of the
/// sensor collider `s`.
pub open spec fn event_delta(e: CollisionEvent, s: u64) -> int {
    match e {
        CollisionEvent::Started(a, b, sensor) => if sensor && (a == s || b == s) {
            1int
        } else {
            0int
        },
        CollisionEvent::Stopped(a, b, sensor) => if sensor && (a == s || b == s) {
            -1int
        } else {
            0int
        },
    }
}

/// Overlap counter of sensor `s` after folding the events over the
/// starting value `c`.
pub open spec fn counter_after(events: Seq<CollisionEvent>, s: u64, c: int) -> int
    decreases events.len(),
{
    if events.len() == 0 {
        c
    } else {
        counter_after(events.drop_last(), s, c) + event_delta(events.last(), s)
    }
}

/// Grounded flag after folding the events: each relevant begin sets the
/// flag when the counter became positive, each relevant end clears it
/// when the counter fell below one, and nothing else touches it.
pub open spec fn grounded_after(events: Seq<CollisionEvent>, s: u64, c: int, g: bool) -> bool
    decreases events.len(),
{
    if events.len() == 0 {
        g
    } else {
        let gprev = grounded_after(events.drop_last(), s, c, g);
        let cnew = counter_after(events, s, c);
        if event_delta(events.last(), s) == 1 {
            if cnew > 0 {
                true
            } else {
                gprev
            }
        } else if event_delta(events.last(), s) == -1 {
            if cnew < 1 {
                false
            } else {
                gprev
            }
        } else {
            gprev
        }
    }
}

/// A matched event stream for sensor `s`: no prefix ends more overlaps
/// than were begun before it.
pub open spec fn well_formed_stream(events: Seq<CollisionEvent>, s: u64, c: int) -> bool {
    forall|n: int| 0 <= n <= events.len() ==> counter_after(#[trigger] events.take(n), s, c) >= 0
}

/// For any matched sequence of begin/end sensor events, the grounded
/// flag equals "overlap counter positive" after every event, and the
/// counter never goes negative.
pub proof fn lemma_ground_counter_invariant(events: Seq<CollisionEvent>, s: u64, c: int, g: bool)
    requires
        c >= 0,
        g == (c > 0),
        well_formed_stream(events, s, c),
    ensures
        counter_after(events, s, c) >= 0,
        grounded_after(events, s, c, g) == (counter_after(events, s, c) > 0),
    decreases events.len(),
{
    assert(events.take(events.len() as int) =~= events);
    if events.len() > 0 {
        let prefix = events.drop_last();
        assert forall|n: int| 0 <= n <= prefix.len() implies counter_after(
            #[trigger] prefix.take(n),
            s,
            c,
        ) >= 0 by {
            assert(prefix.take(n) =~= events.take(n));
        }
        lemma_ground_counter_invariant(prefix, s, c, g);
        let cprev = counter_after(prefix, s, c);
        let cnew = counter_after(events, s, c);
        if event_delta(events.last(), s) == -1 {
            if cnew >= 1 {
                assert(cprev >= 2);
            }
        }
    }
}

/// Record one begun sensor overlap: the counter rises by one and the
/// derived flag is set as soon as the counter is positive.
pub fn overlap_begin(count: &mut i32, flag: &mut bool)
    requires
        *old(count) < i32::MAX,
    ensures
        *final(count) == *old(count) + 1,
        *final(flag) == if *old(count) + 1 > 0 { true } else { *old(flag) },
{
    *count = *count + 1;
    if *count > 0 {
        *flag = true;
    }
}

/// Record one ended sensor overlap: the counter falls by one and the
/// derived flag is cleared as soon as the counter is no longer positive.
pub fn overlap_end(count: &mut i32, flag: &mut bool)
    requires
        *old(count) > i32::MIN,
    ensures
        *final(count) == *old(count) - 1,
        *final(flag) == if *old(count) - 1 < 1 { false } else { *old(flag) },
{
    *count = *count - 1;
    if *count < 1 {
        *flag = false;
    }
}

} // verus!
