//! The arithmetic of driven motion that is exact: which legs share a phase,
//! when a leg has landed, and the smallest steps at its two ends.
//!
//! A leg has a deadline, so siblings land on the same tick. Legs that are born
//! into the same young burst share its stamp and move in lockstep; a later leg
//! opens a fresh burst and gets its full time.
use vstd::prelude::*;

use crate::geometry::{distance, spec_max, spec_min, IVec2};
use crate::time::Duration;

verus! {

/// The time that a driven move takes, in milliseconds.
pub const DEFAULT_ANIMATION_DURATION_MS: u64 = 150;

/// The shortest leg that a change of target leaves, in milliseconds.
pub const MIN_ANIMATION_DURATION_MS: u64 = 40;

/// The longest leg, however far it goes, in milliseconds.
pub const MAX_ANIMATION_DURATION_MS: u64 = 220;

/// How long after its opening a burst takes new legs in, in milliseconds.
pub const BURST_JOIN_WINDOW: u64 = 50;

/// How far a target may drift, in pixels, for its leg to keep its phase.
pub const RETARGET_CARRY_PX: i32 = 32;

/// How long after its birth a leg owes a visible step, in milliseconds.
pub const FIRST_TICK_WINDOW: u64 = 25;

/// The most that a first step moves, in pixels on each axis.
pub const FIRST_TICK_KICK_PX: i32 = 2;

/// The most that a step into the landing moves, in pixels on each axis.
pub const LANDING_NUDGE_PX: i32 = 1;

/// Whether a burst that opened then still takes in a leg that is born now.
pub open spec fn joins_burst(now: Duration, opened: Duration) -> bool {
    now.minus(opened) <= BURST_JOIN_WINDOW * 1_000_000
}

/// The stamp of a leg that is born now, and whether it opens a burst.
pub open spec fn phase_at_birth(now: Duration, burst_opened: Option<Duration>) -> (Duration, bool) {
    match burst_opened {
        Some(opened) if joins_burst(now, opened) => (opened, false),
        _ => (now, true),
    }
}

/// The stamp that a fresh leg starts from: that of the burst while it is young,
/// else the present, which then opens a burst.
pub fn birth_phase(now: Duration, burst_opened: Option<Duration>) -> (phase: (Duration, bool))
    ensures
        phase == phase_at_birth(now, burst_opened),
{
    match burst_opened {
        Some(opened) => {
            if now.saturating_sub(opened).nanos <= Duration::from_millis(BURST_JOIN_WINDOW).nanos {
                (opened, false)
            } else {
                (now, true)
            }
        },
        None => (now, true),
    }
}

/// Whether a leg of that length has landed by then.
pub open spec fn landed(elapsed: Duration, duration: Duration) -> bool {
    duration.nanos == 0 || elapsed.nanos >= duration.nanos
}

/// Whether the leg that covers `elapsed` of `duration` has landed.
pub fn tween_finished(elapsed: Duration, duration: Duration) -> (finished: bool)
    ensures
        finished == landed(elapsed, duration),
{
    duration.is_zero() || elapsed.nanos >= duration.nanos
}

/// `from` moved towards `to` by at most `most`.
pub open spec fn towards(from: int, to: int, most: int) -> int {
    if to >= from {
        spec_min(to, from + most)
    } else {
        spec_max(to, from - most)
    }
}

/// A point moved towards another by at most `most` on each axis.
pub open spec fn stepped(from: IVec2, to: IVec2, most: int) -> IVec2 {
    IVec2 {
        x: towards(from.x as int, to.x as int, most) as i32,
        y: towards(from.y as int, to.y as int, most) as i32,
    }
}

fn step_towards(from: i32, to: i32, most: i32) -> (at: i32)
    requires
        0 <= most <= 2,
    ensures
        at == towards(from as int, to as int, most as int),
{
    if to >= from {
        if to as i64 - from as i64 <= most as i64 {
            to
        } else {
            from + most
        }
    } else if from as i64 - to as i64 <= most as i64 {
        to
    } else {
        from - most
    }
}

/// The first step of a leg: towards the end by at most the kick, never past it.
pub fn kick_start(start: IVec2, end: IVec2) -> (at: IVec2)
    ensures
        at == stepped(start, end, FIRST_TICK_KICK_PX as int),
{
    IVec2 {
        x: step_towards(start.x, end.x, FIRST_TICK_KICK_PX),
        y: step_towards(start.y, end.y, FIRST_TICK_KICK_PX),
    }
}

/// A step into the landing: towards the target by at most the nudge, never past
/// it.
pub fn nudge_landing(current: IVec2, target: IVec2) -> (at: IVec2)
    ensures
        at == stepped(current, target, LANDING_NUDGE_PX as int),
{
    IVec2 {
        x: step_towards(current.x, target.x, LANDING_NUDGE_PX),
        y: step_towards(current.y, target.y, LANDING_NUDGE_PX),
    }
}

/// Whether a target that moved so drifted no further than a leg carries its
/// phase for, measured along the straight line.
pub open spec fn drift_is_small(from: IVec2, to: IVec2) -> bool {
    (to.x - from.x) * (to.x - from.x) + (to.y - from.y) * (to.y - from.y) <= RETARGET_CARRY_PX
        * RETARGET_CARRY_PX
}

/// Whether a leg whose target moved keeps its phase: only a leg in flight, over
/// a small drift. A landed leg has no speed to keep, and a real jump gets the
/// full time.
pub fn should_carry_phase(elapsed: Duration, duration: Duration, from: IVec2, to: IVec2) -> (carries:
    bool)
    ensures
        carries == (!landed(elapsed, duration) && drift_is_small(from, to)),
{
    let x: i128 = to.x as i128 - from.x as i128;
    let y: i128 = to.y as i128 - from.y as i128;
    proof {
        lemma_square(x as int);
        lemma_square(y as int);
    }
    !tween_finished(elapsed, duration) && x * x + y * y <= 1024
}

proof fn lemma_square(v: int)
    requires
        -0x1_0000_0000 <= v <= 0x1_0000_0000,
    ensures
        0 <= v * v <= 0x1_0000_0000_0000_0000,
{
    assert(0 <= v * v <= 0x1_0000_0000_0000_0000) by (nonlinear_arith)
        requires
            -0x1_0000_0000 <= v <= 0x1_0000_0000,
    ;
}

/// A step goes towards its target, never past it, and by at most its bound; it
/// rests exactly at the target.
pub proof fn steps_never_overshoot(from: IVec2, to: IVec2, most: int)
    requires
        0 < most <= 2,
    ensures
        stepped(from, to, most).near(from, most),
        distance(stepped(from, to, most).x as int, to.x as int) == spec_max(
            0,
            distance(from.x as int, to.x as int) - most,
        ),
        distance(stepped(from, to, most).y as int, to.y as int) == spec_max(
            0,
            distance(from.y as int, to.y as int) - most,
        ),
        stepped(from, to, most) == from <==> from == to,
{
}

/// A point after `count` steps into the landing.
pub open spec fn nudged(from: IVec2, to: IVec2, count: nat) -> IVec2
    decreases count,
{
    if count == 0 {
        from
    } else {
        stepped(nudged(from, to, (count - 1) as nat), to, LANDING_NUDGE_PX as int)
    }
}

/// Steps into the landing arrive: as many as the longer axis has pixels.
pub proof fn nudges_arrive(from: IVec2, to: IVec2, count: nat)
    ensures
        from.near(to, count as int) ==> nudged(from, to, count) == to,
        distance(nudged(from, to, count).x as int, to.x as int) == spec_max(
            0,
            distance(from.x as int, to.x as int) - count,
        ),
        distance(nudged(from, to, count).y as int, to.y as int) == spec_max(
            0,
            distance(from.y as int, to.y as int) - count,
        ),
    decreases count,
{
    if count > 0 {
        nudges_arrive(from, to, (count - 1) as nat);
        steps_never_overshoot(nudged(from, to, (count - 1) as nat), to, LANDING_NUDGE_PX as int);
    }
}

/// Every leg that is born while a burst is young gets the burst's own stamp, so
/// they all run on one phase; the next leg opens a burst of its own.
pub proof fn young_bursts_run_in_lockstep(opened: Duration, first: Duration, second: Duration)
    requires
        joins_burst(first, opened),
        joins_burst(second, opened),
    ensures
        phase_at_birth(first, Some(opened)) == phase_at_birth(second, Some(opened)),
        phase_at_birth(opened, None) == (opened, true),
{
}

/// Siblings land on the same tick: of two legs of one length that are born into a young
/// burst, at whatever moments, both have landed or neither has. The tick is the first
/// one at which the length has passed since the burst opened.
pub proof fn siblings_land_on_the_same_tick(
    opened: Duration,
    first: Duration,
    second: Duration,
    duration: Duration,
    now: Duration,
)
    requires
        joins_burst(first, opened),
        joins_burst(second, opened),
    ensures
        ({
            let one = phase_at_birth(first, Some(opened)).0;
            let other = phase_at_birth(second, Some(opened)).0;
            let done = landed(Duration { nanos: now.minus(one) as u128 }, duration);
            &&& done == landed(Duration { nanos: now.minus(other) as u128 }, duration)
            &&& done == (duration.nanos == 0 || now.nanos >= opened.nanos + duration.nanos)
        }),
{
}

/// A leg that is born after the burst's window starts at no progress.
pub proof fn late_births_get_a_full_leg(now: Duration, opened: Duration)
    requires
        now.nanos > opened.nanos + BURST_JOIN_WINDOW * 1_000_000,
    ensures
        phase_at_birth(now, Some(opened)) == (now, true),
{
}

} // verus!
