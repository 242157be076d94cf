//! Driven motion: what happens to a window or a strip that is to move, from the
//! birth of its leg to the landing, and the writes of a frame.
use vstd::prelude::*;

use crate::ax_writer::{
    goes_async, push_position, push_step, AxWriteState, AxWriterQueue, PushOutcome, PushTarget,
};
use crate::ecs::animation::{
    birth_phase, drift_is_small, kick_start, landed, nudge_landing, phase_at_birth,
    should_carry_phase, stepped, tween_finished, FIRST_TICK_KICK_PX, FIRST_TICK_WINDOW,
    LANDING_NUDGE_PX,
};
use crate::ecs::sync::{lemma_room_left, SyncCounters};
use crate::ecs::systems::landing::{account_push, push_tally};
use crate::ecs::{BurstClock, DrivePhase, PositionDrive, SizeDrive, DRIVE_VERIFY_RETRIES};
use crate::geometry::{distance, IRect, IVec2, Origin, WinID};
use crate::seqs::{find_where, first_from, first_where};
use crate::time::Duration;

verus! {

/// What becomes of a leg whose target is gone: its landing is confirmed.
pub open spec fn orphan_settled(drive: PositionDrive) -> PositionDrive {
    match drive.phase {
        DrivePhase::Verifying { .. } => drive,
        DrivePhase::Animating => PositionDrive {
            phase: DrivePhase::Verifying { remaining: DRIVE_VERIFY_RETRIES },
            ..drive
        },
    }
}

/// Hands legs whose targets are gone over to the confirmation. Legs that are
/// being confirmed already stay as they are.
pub fn settle_orphan_drives(drives: &mut Vec<PositionDrive>)
    ensures
        final(drives)@.len() == old(drives)@.len(),
        forall|k: int|
            0 <= k < old(drives)@.len() ==> #[trigger] final(drives)@[k] == orphan_settled(
                old(drives)@[k],
            ),
{
    let mut i: usize = 0;
    while i < drives.len()
        invariant
            i <= drives.len(),
            drives@.len() == old(drives)@.len(),
            forall|k: int|
                0 <= k < i ==> #[trigger] drives@[k] == orphan_settled(old(drives)@[k]),
            forall|k: int| i <= k < drives@.len() ==> #[trigger] drives@[k] == old(drives)@[k],
        decreases drives.len() - i,
    {
        let mut drive = drives[i];
        assert(drives@[i as int] == old(drives)@[i as int]);
        if !drive.is_verifying() {
            drive.phase = DrivePhase::Verifying { remaining: DRIVE_VERIFY_RETRIES };
        }
        drives.set(i, drive);
        i = i + 1;
    }
}

/// The condition of covering a point.
pub open spec fn covers(point: Origin) -> spec_fn(IRect) -> bool {
    |bounds: IRect| bounds.holds(point)
}

fn display_at(displays: &Vec<IRect>, point: Origin) -> (bounds: Option<IRect>)
    ensures
        bounds == find_where(displays@, covers(point)),
{
    let mut i: usize = 0;
    while i < displays.len()
        invariant
            i <= displays.len(),
            first_where(displays@, covers(point)) == first_from(
                displays@,
                covers(point),
                i as int,
            ),
        decreases displays.len() - i,
    {
        if displays[i].contains(point) {
            return Some(displays[i]);
        }
        i = i + 1;
    }
    None
}

/// Whether a slide from one point to the other would leave or enter a display.
pub open spec fn crosses_a_seam(current: Origin, target: Origin, displays: Seq<IRect>) -> bool {
    find_where(displays, covers(current)) != find_where(displays, covers(target))
}

/// Where a window jumps to instead of sliding over the seam between displays;
/// none where the slide touches no seam.
pub fn seam_snap_target(current: Origin, target: Origin, displays: &Vec<IRect>) -> (snapped: Option<
    Origin,
>)
    ensures
        snapped == (if crosses_a_seam(current, target, displays@) {
            Some(target)
        } else {
            None
        }),
{
    match (display_at(displays, current), display_at(displays, target)) {
        (Some(here), Some(there)) => if here != there {
            Some(target)
        } else {
            None
        },
        (Some(_), None) => Some(target),
        (None, Some(_)) => Some(target),
        (None, None) => None,
    }
}

/// A leg of a move or a resize.
#[derive(Clone, Copy, Debug, PartialEq, Eq, Structural)]
pub struct Leg {
    pub start: IVec2,
    pub target: IVec2,
    pub started: Duration,
    pub duration: Duration,
}

impl PositionDrive {
    pub open spec fn spec_leg(self) -> Leg {
        Leg {
            start: self.start,
            target: self.target,
            started: self.started,
            duration: self.duration,
        }
    }

    pub fn leg(&self) -> (leg: Leg)
        ensures
            leg == self.spec_leg(),
    {
        Leg {
            start: self.start,
            target: self.target,
            started: self.started,
            duration: self.duration,
        }
    }
}

impl SizeDrive {
    pub open spec fn spec_leg(self) -> Leg {
        Leg {
            start: self.start,
            target: self.target,
            started: self.started,
            duration: self.duration,
        }
    }

    pub fn leg(&self) -> (leg: Leg)
        ensures
            leg == self.spec_leg(),
    {
        Leg {
            start: self.start,
            target: self.target,
            started: self.started,
            duration: self.duration,
        }
    }
}

/// What a tick does with something that is to move.
#[derive(Clone, Copy, Debug, PartialEq, Eq, Structural)]
pub enum LegPlan {
    /// It is put there at once, and the landing is confirmed.
    Snap { at: IVec2 },
    /// Its leg goes on.
    Hold { leg: Leg },
    /// Its target moved: the leg bends, keeping its phase or starting over.
    Retarget { carry: bool, elapsed: Duration },
    /// A leg is born with that stamp, and opens a burst or joins one.
    Birth { started: Duration, opened: bool },
}

/// What becomes of a leg, or of something without one, on its way to a target.
/// `live` says that the leg still animates.
pub open spec fn leg_step(
    target: IVec2,
    leg: Option<Leg>,
    live: bool,
    now: Duration,
    burst: Option<Duration>,
) -> LegPlan {
    match leg {
        Some(leg) => {
            let elapsed = Duration { nanos: now.minus(leg.started) as u128 };
            if leg.target == target {
                LegPlan::Hold { leg }
            } else {
                LegPlan::Retarget {
                    carry: live && !landed(elapsed, leg.duration) && drift_is_small(
                        leg.target,
                        target,
                    ),
                    elapsed,
                }
            }
        },
        None => {
            let (started, opened) = phase_at_birth(now, burst);
            LegPlan::Birth { started, opened }
        },
    }
}

fn step_leg(target: IVec2, leg: Option<Leg>, live: bool, now: Duration, burst: Option<Duration>) -> (
    plan: LegPlan)
    ensures
        plan == leg_step(target, leg, live, now, burst),
{
    match leg {
        Some(leg) => if leg.target == target {
            LegPlan::Hold { leg }
        } else {
            let elapsed = now.saturating_sub(leg.started);
            let carry = live && should_carry_phase(elapsed, leg.duration, leg.target, target);
            LegPlan::Retarget { carry, elapsed }
        },
        None => {
            let (started, opened) = birth_phase(now, burst);
            LegPlan::Birth { started, opened }
        },
    }
}

/// Decides what a tick does with a window or a strip that is to move. Windows
/// jump over seams; a strip's offset is no frame and never does. Where motion is
/// off everything jumps.
pub fn animate_entity(
    position: Origin,
    target: Origin,
    is_window: bool,
    drive: Option<PositionDrive>,
    displays: &Vec<IRect>,
    motion_off: bool,
    now: Duration,
    bursts: &BurstClock,
) -> (plan: LegPlan)
    ensures
        plan == (if is_window && crosses_a_seam(position, target, displays@) {
            LegPlan::Snap { at: target }
        } else if motion_off {
            LegPlan::Snap { at: target }
        } else {
            leg_step(
                target,
                match drive {
                    Some(drive) => Some(drive.spec_leg()),
                    None => None,
                },
                drive matches Some(drive) && drive.phase is Animating,
                now,
                bursts.opened,
            )
        }),
{
    if is_window {
        if let Some(snapped) = seam_snap_target(position, target, displays) {
            return LegPlan::Snap { at: snapped };
        }
    }
    if motion_off {
        return LegPlan::Snap { at: target };
    }
    match drive {
        Some(drive) => step_leg(
            target,
            Some(drive.leg()),
            !drive.is_verifying(),
            now,
            bursts.opened,
        ),
        None => step_leg(target, None, false, now, bursts.opened),
    }
}

/// Decides what a tick does with a window that is to take a new size.
pub fn animate_resize_entity(
    target: IVec2,
    drive: Option<SizeDrive>,
    motion_off: bool,
    now: Duration,
    bursts: &BurstClock,
) -> (plan: LegPlan)
    ensures
        plan == (if motion_off {
            LegPlan::Snap { at: target }
        } else {
            leg_step(
                target,
                match drive {
                    Some(drive) => Some(drive.spec_leg()),
                    None => None,
                },
                drive is Some,
                now,
                bursts.opened,
            )
        }),
{
    if motion_off {
        return LegPlan::Snap { at: target };
    }
    match drive {
        Some(drive) => step_leg(target, Some(drive.leg()), true, now, bursts.opened),
        None => step_leg(target, None, false, now, bursts.opened),
    }
}

/// The leg after its target moved: from where it is, with the time that the new
/// way takes, started as far back as the phase that it keeps.
pub open spec fn bent(
    position: IVec2,
    target: IVec2,
    now: Duration,
    duration: Duration,
    kept: Duration,
) -> Leg {
    Leg {
        start: position,
        target,
        started: if kept.nanos <= now.nanos {
            Duration { nanos: (now.nanos - kept.nanos) as u128 }
        } else {
            now
        },
        duration,
    }
}

/// Bends a leg to a new target. `kept` is the part of the new time that its
/// phase has covered: nothing for a leg that starts over.
pub fn retarget_leg(
    position: IVec2,
    target: IVec2,
    now: Duration,
    duration: Duration,
    kept: Duration,
) -> (leg: Leg)
    ensures
        leg == bent(position, target, now, duration, kept),
{
    let started = if kept.nanos <= now.nanos {
        now.saturating_sub(kept)
    } else {
        now
    };
    Leg { start: position, target, started, duration }
}

/// Starts a leg with the stamp of its birth; a leg that opens a burst sets the
/// burst's clock.
pub fn birth_leg(
    position: IVec2,
    target: IVec2,
    started: Duration,
    opened: bool,
    now: Duration,
    duration: Duration,
    bursts: &mut BurstClock,
) -> (leg: Leg)
    ensures
        leg == (Leg { start: position, target, started, duration }),
        *final(bursts) == (if opened {
            BurstClock { opened: Some(now) }
        } else {
            *old(bursts)
        }),
{
    if opened {
        bursts.opened = Some(now);
    }
    Leg { start: position, target, started, duration }
}

/// Where a tick puts something whose leg is at `eased`: on the target once the
/// leg has landed, and never where it was while there is way left.
pub open spec fn presented(position: IVec2, leg: Leg, now: Duration, eased: IVec2) -> IVec2 {
    let elapsed = Duration { nanos: now.minus(leg.started) as u128 };
    if landed(elapsed, leg.duration) {
        leg.target
    } else if eased == position && position != leg.target {
        if elapsed.nanos <= FIRST_TICK_WINDOW * 1_000_000 {
            stepped(position, leg.target, FIRST_TICK_KICK_PX as int)
        } else {
            stepped(position, leg.target, LANDING_NUDGE_PX as int)
        }
    } else {
        eased
    }
}

/// Advances a leg by one tick; answers where it is and whether it has landed.
pub fn advance_leg(position: IVec2, leg: &Leg, now: Duration, eased: IVec2) -> (at: (IVec2, bool))
    ensures
        at.0 == presented(position, *leg, now, eased),
        at.1 == landed(Duration { nanos: now.minus(leg.started) as u128 }, leg.duration),
{
    let elapsed = now.saturating_sub(leg.started);
    if tween_finished(elapsed, leg.duration) {
        return (leg.target, true);
    }
    if eased == position && position != leg.target {
        if elapsed.nanos <= Duration::from_millis(FIRST_TICK_WINDOW).nanos {
            return (kick_start(position, leg.target), false);
        }
        return (nudge_landing(position, leg.target), false);
    }
    (eased, false)
}

/// A leg lands exactly on its target at its deadline, wherever the curve has
/// brought it.
pub proof fn legs_land_exactly(position: IVec2, leg: Leg, now: Duration, eased: IVec2)
    requires
        now.nanos >= leg.started.nanos + leg.duration.nanos,
    ensures
        presented(position, leg, now, eased) == leg.target,
{
}

/// Two legs with the same stamp and the same length land together, whatever their ends
/// and wherever the curve has brought them.
pub proof fn legs_of_one_phase_land_together(
    one: (IVec2, Leg, IVec2),
    other: (IVec2, Leg, IVec2),
    now: Duration,
)
    requires
        one.1.started == other.1.started,
        one.1.duration == other.1.duration,
    ensures
        landed(Duration { nanos: now.minus(one.1.started) as u128 }, one.1.duration) == landed(
            Duration { nanos: now.minus(other.1.started) as u128 },
            other.1.duration,
        ),
        landed(Duration { nanos: now.minus(one.1.started) as u128 }, one.1.duration) ==> presented(
            one.0,
            one.1,
            now,
            one.2,
        ) == one.1.target && presented(other.0, other.1, now, other.2) == other.1.target,
{
}

/// A leg with way left never stands still on a tick: where the curve rounds to
/// a standstill it steps towards its target, by a pixel or two and never past it.
pub proof fn legs_never_stall(position: IVec2, leg: Leg, now: Duration, eased: IVec2)
    requires
        position != leg.target,
    ensures
        presented(position, leg, now, eased) != position,
        eased == position ==> distance(
            presented(position, leg, now, eased).x as int,
            leg.target.x as int,
        ) <= distance(position.x as int, leg.target.x as int),
        eased == position ==> distance(
            presented(position, leg, now, eased).y as int,
            leg.target.y as int,
        ) <= distance(position.y as int, leg.target.y as int),
{
}

/// No slide touches a seam: what does not jump stays inside one display, or
/// outside all of them, at both ends.
pub proof fn slides_stay_on_their_display(current: Origin, target: Origin, displays: Seq<IRect>)
    requires
        !crosses_a_seam(current, target, displays),
    ensures
        find_where(displays, covers(current)) matches Some(bounds) ==> bounds.holds(current)
            && bounds.holds(target),
        find_where(displays, covers(current)) is None ==> find_where(displays, covers(target))
            is None,
{
    crate::seqs::lemma_first_from(displays, covers(current), 0);
    crate::seqs::lemma_first_from(displays, covers(target), 0);
    if find_where(displays, covers(current)) is Some {
        let at = first_where(displays, covers(target));
        assert((covers(target))(displays[at]));
        assert((covers(current))(displays[first_where(displays, covers(current))]));
    }
}

/// A window whose place is to be written.
#[derive(Clone, Copy, Debug, PartialEq, Eq, Structural)]
pub struct CommitTarget {
    pub window: PushTarget,
    pub position: Origin,
}

/// The states that the pushes of a frame go through, one for each.
pub open spec fn pushed_through(
    states: Seq<AxWriteState>,
    targets: Seq<CommitTarget>,
    outcomes: Seq<PushOutcome>,
    queue: bool,
    epoch: u64,
) -> bool {
    &&& states.len() == outcomes.len() + 1
    &&& outcomes.len() <= targets.len()
    &&& forall|k: int|
        #![trigger outcomes[k]]
        0 <= k < outcomes.len() ==> push_step(
            states[k + 1],
            states[k],
            targets[k].window,
            targets[k].position,
            goes_async(queue, targets[k].window, queue),
            epoch,
            outcomes[k],
        )
}

/// What the pushes of a new frame come to, and what they leave behind.
pub open spec fn frame_pushed(
    after: AxWriteState,
    before: AxWriteState,
    targets: Seq<CommitTarget>,
    outcomes: Seq<PushOutcome>,
    queue: bool,
) -> bool {
    exists|states: Seq<AxWriteState>|
        {
            &&& #[trigger] pushed_through(states, targets, outcomes, queue, after.current)
            &&& states[0] == (AxWriteState { current: after.current, ..before })
            &&& states.last() == after
        }
}

/// The counts after the first `n` pushes.
pub open spec fn pushes_noted(counters: SyncCounters, outcomes: Seq<PushOutcome>, n: int) -> SyncCounters
    decreases n,
{
    if n <= 0 {
        counters
    } else {
        pushes_noted(counters, outcomes, n - 1).noted(push_tally(outcomes[n - 1]))
    }
}

fn note_pushes(outcomes: &Vec<PushOutcome>, counters: &mut SyncCounters)
    requires
        old(counters).has_room(outcomes@.len() as int),
    ensures
        *final(counters) == pushes_noted(*old(counters), outcomes@, outcomes@.len() as int),
{
    let mut i: usize = 0;
    while i < outcomes.len()
        invariant
            i <= outcomes.len(),
            counters.has_room(outcomes@.len() - i),
            *counters == pushes_noted(*old(counters), outcomes@, i as int),
        decreases outcomes.len() - i,
    {
        let (tally, _) = account_push(outcomes[i]);
        proof {
            lemma_room_left(*counters, tally, outcomes@.len() - i);
            assert(counters.count(tally) + (outcomes@.len() - i) <= u64::MAX);
        }
        counters.note(tally);
        i = i + 1;
    }
}

/// Writes the places of a frame: all of them join one new frame of the writer, in
/// order. Answers what became of each, which is counted; a window whose write was
/// dropped has to be sent again. With the queue off the caller writes.
pub fn commit_window_position(
    targets: &Vec<CommitTarget>,
    queue: Option<&AxWriterQueue>,
    state: &mut AxWriteState,
    enabled: bool,
    counters: &mut SyncCounters,
) -> (outcomes: Vec<PushOutcome>)
    requires
        old(state).wf(),
        old(counters).has_room(targets@.len() as int),
        old(state).current < u64::MAX,
        forall|k: int|
            0 <= k < targets@.len() ==> old(state).issued_to(
                (#[trigger] targets@[k]).window.win_id,
            ) < u64::MAX,
        forall|j: int, k: int|
            0 <= j < k < targets@.len() ==> (#[trigger] targets@[j]).window.win_id != (
            #[trigger] targets@[k]).window.win_id,
    ensures
        final(state).wf(),
        final(state).current == old(state).current + 1,
        outcomes@.len() == targets@.len(),
        *final(counters) == pushes_noted(*old(counters), outcomes@, outcomes@.len() as int),
        frame_pushed(
            *final(state),
            *old(state),
            targets@,
            outcomes@,
            enabled && queue is Some,
        ),
        forall|k: int|
            #![trigger targets@[k]]
            0 <= k < targets@.len() ==> final(state).sent_to(targets@[k].window.win_id) == (
            if outcomes@[k] is Dropped {
                old(state).sent_to(targets@[k].window.win_id)
            } else {
                Some(targets@[k].position)
            }),
        forall|win: WinID|
            (forall|k: int|
                0 <= k < targets@.len() ==> (#[trigger] targets@[k]).window.win_id != win)
                ==> #[trigger] final(state).sent_to(win) == old(state).sent_to(win),
{
    let enabled = enabled && queue.is_some();
    let epoch = state.begin_frame();
    let ghost opened = *state;
    let ghost mut states = seq![opened];
    assert(forall|win: WinID| #[trigger] state.sent_to(win) == old(state).sent_to(win));
    assert(forall|win: WinID| #[trigger] state.issued_to(win) == old(state).issued_to(win));
    let mut outcomes: Vec<PushOutcome> = Vec::new();
    let mut i: usize = 0;
    while i < targets.len()
        invariant
            i <= targets.len(),
            outcomes@.len() == i,
            state.wf(),
            state.current == opened.current,
            forall|j: int, k: int|
                0 <= j < k < targets@.len() ==> (#[trigger] targets@[j]).window.win_id != (
                #[trigger] targets@[k]).window.win_id,
            forall|k: int|
                0 <= k < targets@.len() ==> opened.issued_to(
                    (#[trigger] targets@[k]).window.win_id,
                ) < u64::MAX,
            forall|k: int|
                i <= k < targets@.len() ==> state.issued_to(
                    (#[trigger] targets@[k]).window.win_id,
                ) == opened.issued_to(targets@[k].window.win_id) && state.sent_to(
                    targets@[k].window.win_id,
                ) == opened.sent_to(targets@[k].window.win_id),
            enabled ==> queue is Some,
            epoch == opened.current,
            pushed_through(states, targets@, outcomes@, enabled, epoch),
            states[0] == opened,
            states.last() == *state,
            forall|k: int|
                #![trigger targets@[k]]
                0 <= k < i ==> state.sent_to(targets@[k].window.win_id) == (
                if outcomes@[k] is Dropped {
                    opened.sent_to(targets@[k].window.win_id)
                } else {
                    Some(targets@[k].position)
                }),
            forall|win: WinID|
                (forall|k: int|
                    0 <= k < i ==> (#[trigger] targets@[k]).window.win_id != win)
                    ==> #[trigger] state.sent_to(win) == opened.sent_to(win),
        decreases targets.len() - i,
    {
        let target = targets[i];
        let ghost before = *state;
        assert(targets@[i as int] == target);
        assert(state.sent_to(target.window.win_id) == opened.sent_to(target.window.win_id));
        let outcome = push_position(
            &target.window,
            target.position,
            queue,
            state,
            enabled,
            epoch,
        );
        let ghost told = outcomes@;
        let ghost passed = states;
        outcomes.push(outcome);
        proof {
            states = passed.push(*state);
            assert forall|k: int|
                #![trigger outcomes@[k]]
                0 <= k < outcomes@.len() implies push_step(
                states[k + 1],
                states[k],
                targets@[k].window,
                targets@[k].position,
                goes_async(enabled, targets@[k].window, enabled),
                epoch,
                outcomes@[k],
            ) by {
                if k < i {
                    assert(outcomes@[k] == told[k]);
                }
            }
        }
        assert forall|win: WinID|
            (forall|k: int|
                0 <= k < i + 1 ==> (#[trigger] targets@[k]).window.win_id != win)
            implies #[trigger] state.sent_to(win) == opened.sent_to(win) by {
            assert(targets@[i as int].window.win_id != win);
            assert(before.sent_to(win) == opened.sent_to(win));
        }
        i = i + 1;
    }
    note_pushes(&outcomes, counters);
    outcomes
}

/// How a new size is written.
#[derive(Clone, Copy, Debug, PartialEq, Eq, Structural)]
pub enum SizeWrite {
    /// One write by way of the writer: the window is still being resized.
    Driven,
    /// A write of the caller that makes sure of it.
    Settled,
}

/// Decides how a new size of a window is written. The corner that the window has
/// after the write counts as sent.
pub fn commit_window_size(
    win_id: WinID,
    resizing: bool,
    corner: Origin,
    state: &mut AxWriteState,
) -> (write: SizeWrite)
    requires
        old(state).wf(),
    ensures
        write == (if resizing {
            SizeWrite::Driven
        } else {
            SizeWrite::Settled
        }),
        final(state).wf(),
        final(state).sent_from(*old(state), win_id, corner),
{
    state.record_sent(win_id, corner);
    if resizing {
        SizeWrite::Driven
    } else {
        SizeWrite::Settled
    }
}

} // verus!
