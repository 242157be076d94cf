//! How windows come to rest: what an echo lets the layout take, when a landing counts as
//! confirmed, and how a movement goes on.
use vstd::prelude::*;

use crate::ax_writer::{AxWriteAck, PushOutcome};
use crate::ecs::animation::{drift_is_small, landed};
use crate::ecs::sync::{
    resize_action, ResizeEvent, ResizeJitter, SyncAction, Tally, WindowSync,
};
use crate::ecs::systems::exit::{exit_frame, exit_size};
use crate::ecs::systems::frames::{expired_to, sampled, FRAME_STATS_CAP};
use crate::ecs::systems::landing::{
    acked_by, move_echo, push_tally, resize_settled, size_jitter, verify_step, EchoOutcome,
    MovedWindow, ResizeFacts, ResizeOutcome, VerifyFacts, VerifyStep,
};
use crate::ecs::systems::motion::{bent, leg_step, orphan_settled, Leg, LegPlan};
use crate::ecs::{PositionDrive, Timeout, Unmanaged};
use crate::geometry::{distance, Entity, IRect, IVec2, Size, WinID};
use crate::seqs::lemma_pushed;
use crate::time::Duration;

verus! {

/// A size that the layout takes is the one that was read, and it is taken wherever it is
/// new and the user holds the button. Without the button only small changes of a window
/// that keeps jittering are held back.
pub proof fn resizes_take_what_was_read(
    facts: ResizeFacts,
    old_frame: IRect,
    new_frame: IRect,
    button_held: bool,
    tabbed: bool,
    now: Duration,
    before: ResizeJitter,
    after: ResizeJitter,
    outcome: ResizeOutcome,
)
    requires
        resize_settled(
            facts,
            old_frame,
            new_frame,
            button_held,
            tabbed,
            now,
            before,
            after,
            outcome,
        ),
        old_frame.measurable(),
        new_frame.measurable(),
    ensures
        outcome is Same <==> old_frame.spec_size() == new_frame.spec_size(),
        button_held && old_frame.spec_size() != new_frame.spec_size() ==> outcome is Adopt,
        outcome is Damped ==> !button_held && size_jitter(
            new_frame.spec_size(),
            old_frame.spec_size(),
        ) < 8,
        size_jitter(new_frame.spec_size(), old_frame.spec_size()) >= 8 ==> outcome is Adopt,
        outcome matches ResizeOutcome::Adopt { size, quietly, resync } ==> size.x == new_frame.max.x
            - new_frame.min.x && size.y == new_frame.max.y - new_frame.min.y && quietly == tabbed,
        button_held || outcome is Same ==> after == before,
{
}

/// The jitter of two sizes is the larger of their two differences.
pub proof fn jitter_is_the_larger_difference(a: Size, b: Size)
    ensures
        size_jitter(a, a) == 0,
        size_jitter(a, b) == size_jitter(b, a),
        distance(a.x as int, b.x as int) < i32::MAX && distance(a.y as int, b.y as int) < i32::MAX
            ==> {
            &&& size_jitter(a, b) >= distance(a.x as int, b.x as int)
            &&& size_jitter(a, b) >= distance(a.y as int, b.y as int)
            &&& size_jitter(a, b) == distance(a.x as int, b.x as int) || size_jitter(a, b)
                == distance(a.y as int, b.y as int)
        },
{
}

/// A landing is looked at only once the window is at rest and its writes have landed.
/// What is known to be off its place is compared, never passed over; a strip has nothing
/// to confirm.
pub proof fn landings_are_looked_at_when_at_rest(facts: VerifyFacts, degraded: bool)
    ensures
        ({
            let step = verify_step(facts, degraded);
            let ready = facts.drive.phase is Verifying && !facts.repositioning;
            &&& !ready ==> step == VerifyStep::Wait
            &&& ready && !facts.is_window ==> step == VerifyStep::Done
            &&& ready && facts.is_window && facts.unacked ==> step == VerifyStep::Wait
            &&& ready && facts.is_window && degraded && !facts.focused ==> step == VerifyStep::Wait
            &&& ready && facts.is_window && !facts.unacked && (!degraded || facts.focused) ==> {
                &&& step != VerifyStep::Wait
                &&& facts.snapshot matches Some(at) ==> (!at.near(facts.position, 1) ==> step
                    == (VerifyStep::Compare { at }))
                &&& facts.snapshot is None && !facts.queue_active ==> step == VerifyStep::Read
            }
            &&& step matches VerifyStep::Compare { at } ==> facts.snapshot == Some(at)
        }),
{
}

/// A push counts as sent or as dropped by what became of it.
pub proof fn pushes_are_counted_by_their_outcome(outcome: PushOutcome)
    ensures
        outcome is Dropped <==> push_tally(outcome) == Tally::PushDropped,
        outcome is Deduped <==> push_tally(outcome) == Tally::PushDeduped,
        outcome is Sent || outcome is Direct <==> push_tally(outcome) == Tally::PushSent,
{
}

/// Of the landings of a window the newest counts, and those of other windows do not.
pub proof fn the_newest_landing_counts(
    first: u64,
    acks: Seq<AxWriteAck>,
    win: WinID,
    n: int,
    k: int,
)
    requires
        0 <= k < n <= acks.len(),
    ensures
        acked_by(first, acks, win, n) >= first,
        acks[k].win_id == win ==> acked_by(first, acks, win, n) >= acks[k].seq,
        acked_by(first, acks, win, n) == first || exists|i: int|
            0 <= i < n && (#[trigger] acks[i]).win_id == win && acks[i].seq == acked_by(
                first,
                acks,
                win,
                n,
            ),
    decreases n,
{
    if n > 1 {
        the_newest_landing_counts(
            first,
            acks,
            win,
            n - 1,
            if k < n - 1 {
                k
            } else {
                0
            },
        );
        let before = acked_by(first, acks, win, n - 1);
        if acked_by(first, acks, win, n) == before && before != first {
            let i = choose|i: int|
                0 <= i < n - 1 && (#[trigger] acks[i]).win_id == win && acks[i].seq == before;
            assert(acks[i].win_id == win && acks[i].seq == acked_by(first, acks, win, n));
        }
    } else {
        assert(acked_by(first, acks, win, 0) == first);
    }
    if acks[n - 1].win_id == win && acks[n - 1].seq == acked_by(first, acks, win, n) {
        assert(acks[n - 1].win_id == win);
    }
}

/// A leg goes on as long as its target stays, and bends when it moves; only a running leg
/// whose target moved a little keeps its phase. A window at rest gets a new leg.
pub proof fn legs_go_on_to_their_target(
    target: IVec2,
    leg: Leg,
    live: bool,
    now: Duration,
    burst: Option<Duration>,
)
    ensures
        ({
            let step = leg_step(target, Some(leg), live, now, burst);
            &&& leg.target == target ==> step == (LegPlan::Hold { leg })
            &&& leg.target != target ==> step is Retarget
            &&& step matches LegPlan::Retarget { carry, elapsed } ==> {
                &&& elapsed.nanos == now.minus(leg.started)
                &&& carry <==> live && now.minus(leg.started) < leg.duration.nanos && drift_is_small(
                    leg.target,
                    target,
                )
            }
            &&& leg_step(target, None, live, now, burst) is Birth
        }),
{
    let elapsed = Duration { nanos: now.minus(leg.started) as u128 };
    assert(landed(elapsed, leg.duration) == (elapsed.nanos >= leg.duration.nanos));
}

/// A leg that bends starts where the window is, goes to the new target, and keeps as much
/// of its time as it is given.
pub proof fn bent_legs_keep_their_phase(
    position: IVec2,
    target: IVec2,
    now: Duration,
    duration: Duration,
    kept: Duration,
)
    ensures
        ({
            let leg = bent(position, target, now, duration, kept);
            &&& leg.start == position
            &&& leg.target == target
            &&& leg.duration == duration
            &&& kept.nanos <= now.nanos ==> now.minus(leg.started) == kept.nanos
            &&& leg.started.nanos <= now.nanos
        }),
{
}

/// A movement that nobody drives any more is confirmed; one that is being confirmed goes
/// on being so.
pub proof fn orphans_are_confirmed(drive: PositionDrive)
    ensures
        orphan_settled(drive).phase is Verifying,
        drive.phase is Verifying ==> orphan_settled(drive) == drive,
        orphan_settled(drive).target == drive.target,
        orphan_settled(drive).start == drive.start,
        orphan_settled(orphan_settled(drive)) == orphan_settled(drive),
{
}

/// Where nothing of ours explains a move, the layout takes the place that was read: the
/// window moved by itself. A move by a pixel or less changes nothing, and either way the
/// two agree afterwards.
pub proof fn free_moves_are_taken_over(
    window: MovedWindow,
    frame: IRect,
    now: Duration,
)
    requires
        window.facts.unmanaged is None || window.facts.unmanaged == Some(Unmanaged::Floating),
        !window.facts.held,
        !window.facts.repositioning,
        !window.facts.verifying,
        !window.facts.unacked,
        !window.facts.button_held,
        window.facts.state == WindowSync::Synced || window.facts.state == WindowSync::Drifted,
        0 <= window.size.x,
        0 <= window.size.y,
        window.position.sum_fits(window.size),
    ensures
        ({
            let outcome = move_echo(Some(window), Some(frame), now);
            &&& !outcome.push
            &&& outcome.position == (if frame.min.near(window.position, 1) {
                None
            } else {
                Some(frame.min)
            })
            &&& window.facts.state == WindowSync::Drifted ==> outcome.state == Some(
                WindowSync::Synced,
            )
            &&& window.facts.state == WindowSync::Synced ==> outcome.state is None
        }),
{
}

/// A tiled window that moves while a button is down that no gesture of ours explains is
/// put back to its slot, and one on its way home too; the layout does not follow either.
pub proof fn stray_moves_are_undone(window: MovedWindow, frame: IRect, now: Duration)
    requires
        window.facts.unmanaged is None,
        !window.facts.held,
        !window.facts.repositioning,
        !window.facts.verifying,
        !window.facts.unacked,
        !(window.facts.state is Verifying),
    ensures
        ({
            let outcome = move_echo(Some(window), Some(frame), now);
            &&& window.facts.button_held ==> outcome.push && outcome.position is None
                && outcome.state == Some(WindowSync::Drifted)
            &&& !window.facts.button_held && window.facts.state.on_its_way_home(now) ==> (
            outcome.push <==> !frame.min.near(window.position, 1)) && outcome.position is None
        }),
{
}

/// Nothing follows from the moves of a window that is out of sight, nor from one that is
/// gone or cannot be read while nothing is to be said of it.
pub proof fn moves_out_of_sight_change_nothing(
    window: MovedWindow,
    read: Option<IRect>,
    now: Duration,
)
    requires
        window.facts.unmanaged == Some(Unmanaged::Minimized) || window.facts.unmanaged == Some(
            Unmanaged::Hidden,
        ),
    ensures
        !move_echo(Some(window), read, now).push,
        move_echo(Some(window), read, now).position is None,
        move_echo(None, read, now) == (EchoOutcome {
            position: None,
            push: false,
            state: None,
            tally: None,
        }),
{
}

/// A size is taken over unless the window is out of sight, held for another display,
/// resized by us, on its way somewhere, or jittering.
pub proof fn free_resizes_are_taken_over(state: WindowSync, event: ResizeEvent)
    ensures
        resize_action(state, event) == SyncAction::Adopt || resize_action(state, event)
            == SyncAction::Ignore,
        resize_action(state, event) == SyncAction::Adopt <==> !event.minimized_or_hidden
            && !event.display_drag_armed && !event.resizing && !event.jitter_damped && (state
            == WindowSync::Synced || state == WindowSync::HeldNative || state
            == WindowSync::Drifted),
{
}

/// A window that fits its display is left at its own size, in the middle of the display;
/// one that does not is made smaller than the display.
pub proof fn windows_are_left_in_the_middle(frame: IRect, bounds: IRect)
    requires
        frame.ordered(),
        frame.measurable(),
        bounds.ordered(),
        bounds.measurable(),
    ensures
        ({
            let place = exit_frame(frame, bounds);
            let size = exit_size(frame, bounds);
            let fit = frame.max.x - frame.min.x <= bounds.max.x - bounds.min.x && frame.max.y
                - frame.min.y <= bounds.max.y - bounds.min.y;
            &&& fit <==> place.size is None
            &&& fit ==> size.x == frame.max.x - frame.min.x && size.y == frame.max.y - frame.min.y
            &&& !fit ==> place.size == Some(size) && size.x <= bounds.max.x - bounds.min.x && size.y
                <= bounds.max.y - bounds.min.y
            &&& 0 <= (bounds.min.x + bounds.max.x) - (2 * place.origin.x + size.x) <= 1
            &&& 0 <= (bounds.min.y + bounds.max.y) - (2 * place.origin.y + size.y) <= 1
        }),
{
}

/// A timer that has run out is told, and no other.
pub proof fn finished_timers_are_told(timers: Seq<(Entity, Timeout)>, n: int, k: int, entity: Entity)
    requires
        0 <= k < n <= timers.len(),
    ensures
        timers[k].1.finished ==> expired_to(timers, n).contains(timers[k].0),
        expired_to(timers, n).contains(entity) ==> exists|i: int|
            0 <= i < n && (#[trigger] timers[i]).0 == entity && timers[i].1.finished,
    decreases n,
{
    let before = expired_to(timers, n - 1);
    lemma_pushed(before, timers[n - 1].0, timers[k].0);
    lemma_pushed(before, timers[n - 1].0, entity);
    if n > 1 {
        finished_timers_are_told(
            timers,
            n - 1,
            if k < n - 1 {
                k
            } else {
                0
            },
            entity,
        );
    } else {
        assert(before.len() == 0);
    }
    if before.contains(entity) {
        let i = choose|i: int|
            0 <= i < n - 1 && (#[trigger] timers[i]).0 == entity && timers[i].1.finished;
        assert(timers[i].0 == entity);
    } else if expired_to(timers, n).contains(entity) {
        assert(timers[n - 1].0 == entity);
    }
}

/// The newest sample is kept, and an older one makes room only where they are full.
pub proof fn the_newest_samples_are_kept(samples: Seq<Duration>, elapsed: Duration, k: int)
    requires
        0 < samples.len() <= FRAME_STATS_CAP,
    ensures
        ({
            let after = sampled(samples, elapsed);
            &&& after.last() == elapsed
            &&& after.len() <= FRAME_STATS_CAP
            &&& samples.len() < FRAME_STATS_CAP ==> after == samples.push(elapsed)
            &&& samples.len() == FRAME_STATS_CAP && 1 <= k < samples.len() ==> after[k - 1]
                == samples[k]
        }),
{
}

} // verus!
