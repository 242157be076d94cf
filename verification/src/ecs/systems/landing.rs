//! What comes back from the window server: echoes of moves and resizes, the
//! confirmation of landings, and the completions of writes.
use std::collections::HashMap;
use vstd::prelude::*;

use crate::ax_reads::ReadPoll;
use crate::ax_writer::{
    goes_async, larger, push_position, push_step, AxWriteAck, AxWriteState, AxWriterQueue,
    PushOutcome, PushTarget, STUCK_WRITER_EPOCHS,
};
use crate::ecs::sync::{
    lemma_less_room, lemma_room_left, move_action, reconcile, reconcile_resize, resize_action, ResizeEvent, ResizeJitter,
    SyncAction, SyncCounters, SyncEvent, Tally, WindowSync, JITTER_COUNT, JITTER_PX,
};
use crate::ecs::{PositionDrive, Unmanaged};
use crate::geometry::{abs_diff, distance, spec_max, IRect, Origin, Size, WinID};
use crate::time::Duration;

verus! {

/// Whether an echo of a move must not become layout: a tiled window that no
/// gesture and no move of ours explains, while the mouse button is down. That is
/// a native drag that nobody saw begin.
pub fn adoption_distrusted(unmanaged: bool, held: bool, repositioning: bool, button_held: bool) -> (
    distrusted: bool)
    ensures
        distrusted == (!unmanaged && !held && !repositioning && button_held),
{
    !unmanaged && !held && !repositioning && button_held
}

/// What is known of a window when an echo of its move comes in.
#[derive(Clone, Copy, Debug, PartialEq, Eq, Structural)]
pub struct MoveFacts {
    pub unmanaged: Option<Unmanaged>,
    /// The mouse button is down on the window.
    pub held: bool,
    /// It is held by a drag that may take it to another display.
    pub armed: bool,
    pub repositioning: bool,
    pub verifying: bool,
    /// A write of ours is on its way.
    pub unacked: bool,
    /// A mouse button is down somewhere.
    pub button_held: bool,
    pub state: WindowSync,
}

/// The state of a window, once a way home whose time is up is over.
pub open spec fn rested(state: WindowSync, now: Duration) -> WindowSync {
    if state is Homing && !state.on_its_way_home(now) {
        WindowSync::Synced
    } else {
        state
    }
}

impl MoveFacts {
    pub open spec fn is_minimized(self) -> bool {
        self.unmanaged == Some(Unmanaged::Minimized) || self.unmanaged == Some(Unmanaged::Hidden)
    }

    pub open spec fn is_distrusted(self) -> bool {
        self.unmanaged is None && !self.held && !self.repositioning && self.button_held
    }

    pub open spec fn state_at(self, now: Duration) -> WindowSync {
        rested(self.state, now)
    }

    pub open spec fn echo(self, now: Duration) -> SyncEvent {
        SyncEvent {
            minimized_or_hidden: self.is_minimized(),
            held_native: self.held && self.unmanaged is None,
            display_drag_armed: self.armed,
            repositioning: self.repositioning,
            unacked: self.unacked,
            verifying: self.verifying,
            button_held_no_gesture: self.is_distrusted(),
            in_grace: self.state.on_its_way_home(now),
            drifted: false,
        }
    }
}

/// What an echo of a move asks for.
#[derive(Clone, Copy, Debug, PartialEq, Eq, Structural)]
pub enum MovePlan {
    /// Nothing but a count, where one is kept of the reason.
    Drop { tally: Option<Tally> },
    /// A native drag holds the window: its slot stays.
    HoldNative,
    /// A landing waits: only the cached frame is refreshed.
    Confirm { seat: bool },
    /// An untracked drag: the slot is written back.
    RejectUntracked,
    /// A late echo of a window on its way home: the slot is written back where
    /// the echo is off.
    RejectLate,
    /// The layout takes the frame.
    Adopt,
}

pub open spec fn move_plan(facts: MoveFacts, now: Duration) -> MovePlan {
    let echo = facts.echo(now);
    match move_action(facts.state_at(now), echo) {
        SyncAction::Ignore => if echo.minimized_or_hidden {
            MovePlan::Drop { tally: Some(Tally::MoveMinimized) }
        } else if echo.held_native && !echo.display_drag_armed {
            MovePlan::HoldNative
        } else if facts.repositioning {
            MovePlan::Drop { tally: Some(Tally::MoveReposition) }
        } else if facts.unacked {
            MovePlan::Drop { tally: Some(Tally::MoveUnacked) }
        } else {
            MovePlan::Drop { tally: None }
        },
        SyncAction::SeatVerify => MovePlan::Confirm { seat: !(facts.state_at(now) is Verifying) },
        SyncAction::PushBack => if facts.is_distrusted() {
            MovePlan::RejectUntracked
        } else {
            MovePlan::RejectLate
        },
        SyncAction::Adopt => MovePlan::Adopt,
    }
}

/// Decides what an echo of a move asks for.
pub fn plan_move_echo(facts: &MoveFacts, now: Duration) -> (plan: MovePlan)
    ensures
        plan == move_plan(*facts, now),
{
    let minimized = match facts.unmanaged {
        Some(Unmanaged::Minimized) => true,
        Some(Unmanaged::Hidden) => true,
        _ => false,
    };
    let in_grace = facts.state.homing_active(now);
    let distrust = adoption_distrusted(
        facts.unmanaged.is_some(),
        facts.held,
        facts.repositioning,
        facts.button_held,
    );
    let echo = SyncEvent {
        minimized_or_hidden: minimized,
        held_native: facts.held && facts.unmanaged.is_none(),
        display_drag_armed: facts.armed,
        repositioning: facts.repositioning,
        unacked: facts.unacked,
        verifying: facts.verifying,
        button_held_no_gesture: distrust,
        in_grace,
        drifted: false,
    };
    let state = match facts.state {
        WindowSync::Homing { .. } => if in_grace {
            facts.state
        } else {
            WindowSync::Synced
        },
        other => other,
    };
    match reconcile(state, echo) {
        SyncAction::Ignore => if minimized {
            MovePlan::Drop { tally: Some(Tally::MoveMinimized) }
        } else if echo.held_native && !echo.display_drag_armed {
            MovePlan::HoldNative
        } else if facts.repositioning {
            MovePlan::Drop { tally: Some(Tally::MoveReposition) }
        } else if facts.unacked {
            MovePlan::Drop { tally: Some(Tally::MoveUnacked) }
        } else {
            MovePlan::Drop { tally: None }
        },
        SyncAction::SeatVerify => MovePlan::Confirm { seat: !state.is_verifying() },
        SyncAction::PushBack => if distrust {
            MovePlan::RejectUntracked
        } else {
            MovePlan::RejectLate
        },
        SyncAction::Adopt => MovePlan::Adopt,
    }
}

/// What an echo of a move did.
#[derive(Clone, Copy, Debug, PartialEq, Eq, Structural)]
pub struct EchoOutcome {
    /// The place that the layout takes.
    pub position: Option<Origin>,
    /// The slot goes out again, also where it was the last place sent.
    pub push: bool,
    /// The state that the window changes to.
    pub state: Option<WindowSync>,
    pub tally: Option<Tally>,
}

/// The outcome that leaves the layout alone. A way home whose time is up is over
/// in any case.
pub open spec fn no_change(state: WindowSync, now: Duration) -> EchoOutcome {
    EchoOutcome {
        position: None,
        push: false,
        state: if rested(state, now) != state {
            Some(rested(state, now))
        } else {
            None
        },
        tally: None,
    }
}

/// What an echo comes to. `read` is the frame that the window has by now; none
/// where it cannot be read.
pub open spec fn echo_outcome(
    plan: MovePlan,
    read: Option<IRect>,
    position: Origin,
    size: Size,
    state: WindowSync,
    now: Duration,
) -> EchoOutcome {
    let same = no_change(state, now);
    match plan {
        MovePlan::Drop { tally } => EchoOutcome { tally, ..same },
        MovePlan::HoldNative => EchoOutcome {
            state: Some(WindowSync::HeldNative),
            tally: Some(Tally::MoveHeld),
            ..same
        },
        MovePlan::Confirm { seat } => EchoOutcome {
            state: if seat {
                Some(WindowSync::Verifying { retries: WindowSync::VERIFY_RETRIES })
            } else {
                same.state
            },
            tally: Some(Tally::MoveVerifying),
            ..same
        },
        MovePlan::RejectUntracked => if read is Some {
            EchoOutcome {
                push: true,
                state: Some(WindowSync::Drifted),
                tally: Some(Tally::PushbackDistrust),
                ..same
            }
        } else {
            same
        },
        MovePlan::RejectLate => match read {
            Some(frame) if !frame.min.near(position, 1) => EchoOutcome {
                push: true,
                tally: Some(Tally::PushbackGrace),
                ..same
            },
            _ => same,
        },
        MovePlan::Adopt => match read {
            Some(frame) => {
                let moved = !frame.min.near(IRect::framed(position, size).min, 1);
                EchoOutcome {
                    position: if moved {
                        Some(frame.min)
                    } else {
                        None
                    },
                    push: false,
                    state: if state != WindowSync::Synced {
                        Some(WindowSync::Synced)
                    } else {
                        None
                    },
                    tally: if moved {
                        Some(Tally::MoveAdopt)
                    } else {
                        None
                    },
                }
            },
            None => same,
        },
    }
}

/// A window that an echo of a move names.
#[derive(Clone, Copy, Debug, PartialEq, Eq, Structural)]
pub struct MovedWindow {
    pub facts: MoveFacts,
    /// Its place in the layout.
    pub position: Origin,
    pub size: Size,
}

/// What an echo of a move comes to. Nothing happens for a window that is not known.
pub open spec fn move_echo(
    window: Option<MovedWindow>,
    read: Option<IRect>,
    now: Duration,
) -> EchoOutcome {
    match window {
        Some(window) => echo_outcome(
            move_plan(window.facts, now),
            read,
            window.position,
            window.size,
            window.facts.state,
            now,
        ),
        None => EchoOutcome { position: None, push: false, state: None, tally: None },
    }
}

/// Answers an echo of a move. Every echo is counted, also one of an unknown window, and
/// so is what became of it. `read` is the frame that the window has by now; it is
/// looked at only where the plan of the echo needs it.
pub fn window_moved_update_frame(
    window: Option<MovedWindow>,
    read: Option<IRect>,
    now: Duration,
    counters: &mut SyncCounters,
) -> (outcome: EchoOutcome)
    requires
        window matches Some(window) ==> window.position.sum_fits(window.size),
        old(counters).has_room(1),
    ensures
        outcome == move_echo(window, read, now),
        *final(counters) == old(counters).noted(Tally::MoveEcho).noted_if(outcome.tally),
        final(counters).count(Tally::MoveEcho) == old(counters).count(Tally::MoveEcho) + 1,
        final(counters).count(Tally::MoveAdopt) == old(counters).count(Tally::MoveAdopt) + (
        if outcome.position is Some {
            1int
        } else {
            0
        }),
{
    assert(old(counters).count(Tally::MoveEcho) + 1 <= u64::MAX);
    counters.note(Tally::MoveEcho);
    let window = match window {
        Some(window) => window,
        None => {
            return EchoOutcome { position: None, push: false, state: None, tally: None };
        },
    };
    let plan = plan_move_echo(&window.facts, now);
    let outcome = settle_move_echo(
        plan,
        read,
        window.position,
        window.size,
        window.facts.state,
        now,
    );
    if let Some(tally) = outcome.tally {
        assert(old(counters).count(tally) + 1 <= u64::MAX);
        counters.note(tally);
    }
    outcome
}

/// What a slot that is written back leaves behind.
pub open spec fn pushed_back(
    after: AxWriteState,
    before: AxWriteState,
    window: PushTarget,
    slot: Origin,
    asynchronous: bool,
    outcome: PushOutcome,
) -> bool {
    exists|open: AxWriteState|
        {
            &&& #[trigger] open.reopened_from(before, window.win_id)
            &&& push_step(after, open, window, slot, asynchronous, before.current, outcome)
        }
}

/// Writes a slot back to its window, under the frame that is open. The slot goes out
/// also where it was the last place sent: the window server never came to it. Answers
/// what became of the write, and whether the window has to be sent again.
pub fn push_slot_back(
    window: &PushTarget,
    slot: Origin,
    queue: Option<&AxWriterQueue>,
    state: &mut AxWriteState,
    enabled: bool,
    counters: &mut SyncCounters,
) -> (pushed: (PushOutcome, bool))
    requires
        old(state).wf(),
        old(state).issued_to(window.win_id) < u64::MAX,
        old(counters).has_room(1),
    ensures
        final(state).wf(),
        pushed_back(
            *final(state),
            *old(state),
            *window,
            slot,
            goes_async(enabled, *window, queue is Some),
            pushed.0,
        ),
        !(pushed.0 is Deduped),
        pushed.1 == (pushed.0 is Dropped),
        *final(counters) == old(counters).noted(push_tally(pushed.0)),
{
    let epoch = state.current_epoch();
    state.invalidate_sent(window.win_id);
    let ghost open = *state;
    assert(open.reopened_from(*old(state), window.win_id));
    let outcome = push_position(window, slot, queue, state, enabled, epoch);
    let (tally, resend) = account_push(outcome);
    assert(old(counters).count(tally) + 1 <= u64::MAX);
    counters.note(tally);
    (outcome, resend)
}

/// What became of an echo of a move, and of the slot that was written back.
#[derive(Clone, Copy, Debug)]
pub struct MoveAnswer {
    pub outcome: EchoOutcome,
    /// The write of the slot, and whether the window has to be sent again.
    pub pushed: Option<(PushOutcome, bool)>,
}

/// Answers an echo of a move and, where that is the answer, writes the slot of the
/// window back.
pub fn answer_move_echo(
    window: Option<MovedWindow>,
    target: &PushTarget,
    read: Option<IRect>,
    now: Duration,
    queue: Option<&AxWriterQueue>,
    state: &mut AxWriteState,
    enabled: bool,
    counters: &mut SyncCounters,
) -> (answer: MoveAnswer)
    requires
        window matches Some(window) ==> window.position.sum_fits(window.size),
        old(state).wf(),
        old(state).issued_to(target.win_id) < u64::MAX,
        old(counters).has_room(3),
    ensures
        final(state).wf(),
        answer.outcome == move_echo(window, read, now),
        answer.pushed is Some == answer.outcome.push,
        ({
            let counted = old(counters).noted(Tally::MoveEcho).noted_if(answer.outcome.tally);
            match answer.pushed {
                Some((outcome, resend)) => {
                    &&& resend == (outcome is Dropped)
                    &&& window matches Some(window) && pushed_back(
                        *final(state),
                        *old(state),
                        *target,
                        window.position,
                        goes_async(enabled, *target, queue is Some),
                        outcome,
                    )
                    &&& *final(counters) == counted.noted(push_tally(outcome))
                },
                None => *final(state) == *old(state) && *final(counters) == counted,
            }
        }),
{
    assert forall|tally: Tally| #[trigger] old(counters).count(tally) + 1 <= u64::MAX by {
        assert(old(counters).count(tally) + 3 <= u64::MAX);
    }
    let outcome = window_moved_update_frame(window, read, now, counters);
    if outcome.push {
        if let Some(moved) = window {
            proof {
                lemma_room_left(*old(counters), Tally::MoveEcho, 3);
                match outcome.tally {
                    Some(tally) => {
                        lemma_room_left(old(counters).noted(Tally::MoveEcho), tally, 2);
                    },
                    None => {
                        lemma_less_room(*counters, 2, 1);
                    },
                }
            }
            let pushed = push_slot_back(target, moved.position, queue, state, enabled, counters);
            return MoveAnswer { outcome, pushed: Some(pushed) };
        }
    }
    MoveAnswer { outcome, pushed: None }
}

/// Settles an echo of a move with the frame that the window has by now. A
/// difference of a pixel is breathing and never becomes layout.
pub fn settle_move_echo(
    plan: MovePlan,
    read: Option<IRect>,
    position: Origin,
    size: Size,
    state: WindowSync,
    now: Duration,
) -> (outcome: EchoOutcome)
    requires
        position.sum_fits(size),
    ensures
        outcome == echo_outcome(plan, read, position, size, state, now),
{
    let over = match state {
        WindowSync::Homing { .. } => !state.homing_active(now),
        _ => false,
    };
    let mut outcome = EchoOutcome { position: None, push: false, state: None, tally: None };
    if over {
        outcome.state = Some(WindowSync::Synced);
    }
    match plan {
        MovePlan::Drop { tally } => {
            outcome.tally = tally;
        },
        MovePlan::HoldNative => {
            outcome.state = Some(WindowSync::HeldNative);
            outcome.tally = Some(Tally::MoveHeld);
        },
        MovePlan::Confirm { seat } => {
            if seat {
                outcome.state = Some(
                    WindowSync::Verifying { retries: WindowSync::VERIFY_RETRIES },
                );
            }
            outcome.tally = Some(Tally::MoveVerifying);
        },
        MovePlan::RejectUntracked => {
            if read.is_some() {
                outcome.push = true;
                outcome.state = Some(WindowSync::Drifted);
                outcome.tally = Some(Tally::PushbackDistrust);
            }
        },
        MovePlan::RejectLate => {
            if let Some(frame) = read {
                if !frame.min.is_near(position, 1) {
                    outcome.push = true;
                    outcome.tally = Some(Tally::PushbackGrace);
                }
            }
        },
        MovePlan::Adopt => {
            if let Some(frame) = read {
                let known = IRect::from_frame(position, size);
                if !frame.min.is_near(known.min, 1) {
                    outcome.position = Some(frame.min);
                    outcome.tally = Some(Tally::MoveAdopt);
                }
                if state != WindowSync::Synced {
                    outcome.state = Some(WindowSync::Synced);
                }
            }
        },
    }
    outcome
}

/// Only an adopted echo moves a slot, and only by more than a pixel; an echo that
/// our own intent explains, a landing that waits and a distrusted drag never do.
pub proof fn slots_move_only_by_adoption(
    facts: MoveFacts,
    now: Duration,
    read: Option<IRect>,
    position: Origin,
    size: Size,
)
    requires
        echo_outcome(move_plan(facts, now), read, position, size, facts.state, now).position
            is Some,
    ensures
        move_action(facts.state_at(now), facts.echo(now)) == SyncAction::Adopt,
        !facts.repositioning,
        !facts.unacked,
        !facts.verifying,
        !facts.is_distrusted(),
        !facts.state.on_its_way_home(now),
{
}

/// A slot is either taken from the window or written back to it, never both.
pub proof fn echoes_never_fight(
    plan: MovePlan,
    read: Option<IRect>,
    position: Origin,
    size: Size,
    state: WindowSync,
    now: Duration,
)
    ensures
        !(echo_outcome(plan, read, position, size, state, now).push && echo_outcome(
            plan,
            read,
            position,
            size,
            state,
            now,
        ).position is Some),
{
}

/// No echo leaves a window on its way home once the time for it is up.
pub proof fn ways_home_end(
    facts: MoveFacts,
    now: Duration,
    read: Option<IRect>,
    position: Origin,
    size: Size,
)
    requires
        facts.state is Homing,
        !facts.state.on_its_way_home(now),
    ensures
        echo_outcome(move_plan(facts, now), read, position, size, facts.state, now).state matches Some(
            state,
        ) && !(state is Homing),
{
}

/// How often the cached frame of a natively dragged window is refreshed at most,
/// in milliseconds.
pub const HELD_PAINT_REFRESH: u64 = 50;

/// When the cached frames of natively dragged windows were last refreshed.
#[derive(Debug)]
pub struct PaintRefresh {
    pub at: HashMap<WinID, Duration>,
}

impl PaintRefresh {
    /// When a window's frame was last refreshed.
    pub open spec fn last(self, win: WinID) -> Option<Duration> {
        if self.at@.contains_key(win) {
            Some(self.at@[win])
        } else {
            None
        }
    }

    pub fn new() -> (refresh: PaintRefresh)
        ensures
            forall|win: WinID| refresh.last(win) is None,
    {
        broadcast use vstd::std_specs::hash::group_hash_axioms;

        PaintRefresh { at: HashMap::new() }
    }

    /// Forgets everything once no window is held.
    pub fn release(&mut self, anything_held: bool)
        ensures
            anything_held ==> *final(self) == *old(self),
            !anything_held ==> forall|win: WinID| final(self).last(win) is None,
    {
        broadcast use vstd::std_specs::hash::group_hash_axioms;

        if !anything_held {
            self.at.clear();
        }
    }

    /// Whether a window's frame is to be refreshed now; then the next refresh
    /// waits its turn.
    pub fn due(&mut self, win: WinID, now: Duration) -> (fresh: bool)
        ensures
            fresh == (match old(self).last(win) {
                Some(at) => now.minus(at) >= HELD_PAINT_REFRESH * 1_000_000,
                None => true,
            }),
            final(self).last(win) == (if fresh {
                Some(now)
            } else {
                old(self).last(win)
            }),
            forall|other: WinID|
                other != win ==> #[trigger] final(self).last(other) == old(self).last(other),
    {
        broadcast use vstd::std_specs::hash::group_hash_axioms;

        let fresh = match self.at.get(&win) {
            Some(at) => now.saturating_sub(*at).nanos >= Duration::from_millis(
                HELD_PAINT_REFRESH,
            ).nanos,
            None => true,
        };
        if fresh {
            self.at.insert(win, now);
        }
        fresh
    }
}

/// What is known of a window when an echo of its resize comes in.
#[derive(Clone, Copy, Debug, PartialEq, Eq, Structural)]
pub struct ResizeFacts {
    pub unmanaged: Option<Unmanaged>,
    /// It is held by a drag that may take it to another display.
    pub armed: bool,
    /// We are resizing it.
    pub resizing: bool,
    pub state: WindowSync,
}

impl ResizeFacts {
    pub open spec fn echo(self, damped: bool) -> ResizeEvent {
        ResizeEvent {
            minimized_or_hidden: self.unmanaged == Some(Unmanaged::Minimized) || self.unmanaged
                == Some(Unmanaged::Hidden),
            display_drag_armed: self.armed,
            resizing: self.resizing,
            jitter_damped: damped,
        }
    }

    pub fn event(&self, damped: bool) -> (event: ResizeEvent)
        ensures
            event == self.echo(damped),
    {
        let minimized = match self.unmanaged {
            Some(Unmanaged::Minimized) => true,
            Some(Unmanaged::Hidden) => true,
            _ => false,
        };
        ResizeEvent {
            minimized_or_hidden: minimized,
            display_drag_armed: self.armed,
            resizing: self.resizing,
            jitter_damped: damped,
        }
    }
}

/// Whether an echo of a resize is looked into at all; where it is not, the count
/// that is kept of the reason.
pub fn plan_resize_echo(facts: &ResizeFacts) -> (plan: Result<(), Option<Tally>>)
    ensures
        plan == (if resize_action(facts.state, facts.echo(false)) == SyncAction::Ignore {
            Err::<(), Option<Tally>>(resize_skipped(*facts))
        } else {
            Ok::<(), Option<Tally>>(())
        }),
{
    if reconcile_resize(facts.state, facts.event(false)) == SyncAction::Ignore {
        if facts.armed {
            Err(Some(Tally::ResizeArmed))
        } else if facts.resizing {
            Err(Some(Tally::ResizeResizing))
        } else {
            Err(None)
        }
    } else {
        Ok(())
    }
}

/// What an echo of a resize did.
#[derive(Clone, Copy, Debug, PartialEq, Eq, Structural)]
pub enum ResizeOutcome {
    /// The size is the one that the layout has.
    Same,
    /// The window jitters: its tile holds.
    Damped,
    /// The layout takes the size, without telling anyone where the window is one
    /// of several tabs.
    Adopt { size: Size, quietly: bool, resync: bool },
}

/// The larger difference of two sizes on an axis, as far as a number of pixels
/// goes.
pub open spec fn size_jitter(a: Size, b: Size) -> int {
    let most = spec_max(distance(a.x as int, b.x as int), distance(a.y as int, b.y as int));
    if most > i32::MAX {
        i32::MAX as int
    } else {
        most
    }
}

fn jitter_of(a: Size, b: Size) -> (pixels: i32)
    ensures
        pixels == size_jitter(a, b),
{
    let x = abs_diff(a.x, b.x);
    let y = abs_diff(a.y, b.y);
    let most: u32 = if x >= y {
        x
    } else {
        y
    };
    if most > i32::MAX as u32 {
        i32::MAX
    } else {
        most as i32
    }
}

/// A window that an echo of a resize names.
#[derive(Clone, Copy, Debug, PartialEq, Eq, Structural)]
pub struct ResizedWindow {
    pub facts: ResizeFacts,
    /// Its frame in the layout.
    pub frame: IRect,
    /// It is one of several tabs.
    pub tabbed: bool,
}

/// The count of what became of an echo of a resize that is looked into.
pub open spec fn resize_tally(outcome: ResizeOutcome) -> Option<Tally> {
    match outcome {
        ResizeOutcome::Same => None,
        ResizeOutcome::Damped => Some(Tally::ResizeJitter),
        ResizeOutcome::Adopt { .. } => Some(Tally::ResizeAdopt),
    }
}

/// What becomes of an echo of a resize that is not looked into.
pub open spec fn resize_skipped(facts: ResizeFacts) -> Option<Tally> {
    if facts.armed {
        Some(Tally::ResizeArmed)
    } else if facts.resizing {
        Some(Tally::ResizeResizing)
    } else {
        None
    }
}

/// Answers an echo of a resize. Every echo is counted, also one of an unknown window,
/// and so is what became of it. `read` is the frame that the window has by now, none
/// where it cannot be read; it is looked at only where the echo is looked into. None
/// where it is not, or the window is unknown or unreadable.
pub fn window_resized_update_frame(
    window: Option<ResizedWindow>,
    read: Option<IRect>,
    button_held: bool,
    now: Duration,
    jitter: &mut ResizeJitter,
    counters: &mut SyncCounters,
) -> (outcome: Option<ResizeOutcome>)
    requires
        window matches Some(window) ==> window.frame.measurable(),
        read matches Some(frame) ==> frame.measurable(),
        old(counters).has_room(1),
    ensures
        final(counters).count(Tally::ResizeEcho) == old(counters).count(Tally::ResizeEcho) + 1,
        match window {
            None => {
                &&& outcome is None
                &&& *final(jitter) == *old(jitter)
                &&& *final(counters) == old(counters).noted(Tally::ResizeEcho)
            },
            Some(window) => if resize_action(window.facts.state, window.facts.echo(false))
                == SyncAction::Ignore {
                &&& outcome is None
                &&& *final(jitter) == *old(jitter)
                &&& *final(counters) == old(counters).noted(Tally::ResizeEcho).noted_if(
                    resize_skipped(window.facts),
                )
            } else {
                match read {
                    None => {
                        &&& outcome is None
                        &&& *final(jitter) == *old(jitter)
                        &&& *final(counters) == old(counters).noted(Tally::ResizeEcho)
                    },
                    Some(frame) => {
                        &&& outcome matches Some(outcome) && resize_settled(
                            window.facts,
                            window.frame,
                            frame,
                            button_held,
                            window.tabbed,
                            now,
                            *old(jitter),
                            *final(jitter),
                            outcome,
                        ) && *final(counters) == old(counters).noted(Tally::ResizeEcho).noted_if(
                            resize_tally(outcome),
                        )
                    },
                }
            },
        },
{
    assert(old(counters).count(Tally::ResizeEcho) + 1 <= u64::MAX);
    counters.note(Tally::ResizeEcho);
    let window = match window {
        Some(window) => window,
        None => {
            return None;
        },
    };
    if let Err(skipped) = plan_resize_echo(&window.facts) {
        if let Some(tally) = skipped {
            assert(old(counters).count(tally) + 1 <= u64::MAX);
            counters.note(tally);
        }
        return None;
    }
    let frame = match read {
        Some(frame) => frame,
        None => {
            return None;
        },
    };
    let outcome = settle_resize_echo(
        &window.facts,
        window.frame,
        frame,
        button_held,
        window.tabbed,
        now,
        jitter,
    );
    match outcome {
        ResizeOutcome::Same => {},
        ResizeOutcome::Damped => {
            assert(old(counters).count(Tally::ResizeJitter) + 1 <= u64::MAX);
            counters.note(Tally::ResizeJitter);
        },
        ResizeOutcome::Adopt { .. } => {
            assert(old(counters).count(Tally::ResizeAdopt) + 1 <= u64::MAX);
            counters.note(Tally::ResizeAdopt);
        },
    }
    Some(outcome)
}

/// What an echo of a resize that is looked into comes to.
pub open spec fn resize_settled(
    facts: ResizeFacts,
    old_frame: IRect,
    new_frame: IRect,
    button_held: bool,
    tabbed: bool,
    now: Duration,
    before: ResizeJitter,
    after: ResizeJitter,
    outcome: ResizeOutcome,
) -> bool {
    let same = old_frame.spec_size() == new_frame.spec_size();
    let change = size_jitter(new_frame.spec_size(), old_frame.spec_size());
    let damped = !button_held && change < JITTER_PX && after.episode.recent@.len() > JITTER_COUNT;
    &&& same || button_held ==> after == before
    &&& !same && !button_held ==> after.noted(before, now, change)
    &&& outcome == (if same {
        ResizeOutcome::Same
    } else if damped {
        ResizeOutcome::Damped
    } else {
        ResizeOutcome::Adopt {
            size: new_frame.spec_size(),
            quietly: tabbed,
            resync: facts.state != WindowSync::Synced,
        }
    })
}

/// Settles an echo of a resize that is looked into, with the frame that the
/// window has by now. Small changes that come over and over while no button is
/// down are jitter; a button that is down means a drag of the edge, which is
/// always taken.
pub fn settle_resize_echo(
    facts: &ResizeFacts,
    old_frame: IRect,
    new_frame: IRect,
    button_held: bool,
    tabbed: bool,
    now: Duration,
    jitter: &mut ResizeJitter,
) -> (outcome: ResizeOutcome)
    requires
        old_frame.measurable(),
        new_frame.measurable(),
        resize_action(facts.state, facts.echo(false)) == SyncAction::Adopt,
    ensures
        resize_settled(
            *facts,
            old_frame,
            new_frame,
            button_held,
            tabbed,
            now,
            *old(jitter),
            *final(jitter),
            outcome,
        ),
{
    let old_size = old_frame.size();
    let new_size = new_frame.size();
    if old_size == new_size {
        return ResizeOutcome::Same;
    }
    let damped = !button_held && jitter.damp(now, jitter_of(new_size, old_size));
    if reconcile_resize(facts.state, facts.event(damped)) == SyncAction::Ignore {
        return ResizeOutcome::Damped;
    }
    ResizeOutcome::Adopt {
        size: new_size,
        quietly: tabbed,
        resync: facts.state != WindowSync::Synced,
    }
}

/// The count of a push.
pub open spec fn push_tally(outcome: PushOutcome) -> Tally {
    match outcome {
        PushOutcome::Deduped => Tally::PushDeduped,
        PushOutcome::Direct => Tally::PushSent,
        PushOutcome::Sent { .. } => Tally::PushSent,
        PushOutcome::Dropped { .. } => Tally::PushDropped,
    }
}

/// How a push is counted, and whether the window has to be sent again.
pub fn account_push(outcome: PushOutcome) -> (account: (Tally, bool))
    ensures
        account.0 == push_tally(outcome),
        account.1 == (outcome is Dropped),
{
    match outcome {
        PushOutcome::Deduped => (Tally::PushDeduped, false),
        PushOutcome::Direct => (Tally::PushSent, false),
        PushOutcome::Sent { .. } => (Tally::PushSent, false),
        PushOutcome::Dropped { .. } => (Tally::PushDropped, true),
    }
}

/// Direct reads that one pass of confirmations makes at most.
pub const VERIFY_SYNC_READS_PER_TICK: u8 = 8;

/// What is known of a leg when its landing is confirmed.
#[derive(Clone, Copy, Debug, PartialEq, Eq, Structural)]
pub struct VerifyFacts {
    pub drive: PositionDrive,
    /// It is still being moved.
    pub repositioning: bool,
    /// It is a window; a strip has nothing to confirm against.
    pub is_window: bool,
    pub focused: bool,
    /// A write is on its way.
    pub unacked: bool,
    /// Writes go through the queue.
    pub queue_active: bool,
    /// Where the window is, from a fresh record.
    pub snapshot: Option<Origin>,
    pub position: Origin,
}

/// The first step of a confirmation.
#[derive(Clone, Copy, Debug, PartialEq, Eq, Structural)]
pub enum VerifyStep {
    /// Nothing yet; the leg stays.
    Wait,
    /// The leg is done.
    Done,
    /// The window is known to be there.
    Compare { at: Origin },
    /// The window has to be read.
    Read,
}

pub open spec fn verify_step(facts: VerifyFacts, degraded: bool) -> VerifyStep {
    if !(facts.drive.phase is Verifying) || facts.repositioning {
        VerifyStep::Wait
    } else if !facts.is_window {
        VerifyStep::Done
    } else if facts.unacked || (degraded && !facts.focused) {
        VerifyStep::Wait
    } else {
        match facts.snapshot {
            Some(at) => if facts.queue_active && at.near(facts.position, 1) {
                VerifyStep::Done
            } else {
                VerifyStep::Compare { at }
            },
            None => if facts.queue_active {
                VerifyStep::Done
            } else {
                VerifyStep::Read
            },
        }
    }
}

/// Takes the first step of a confirmation. Only a settled leg is confirmed; a
/// write on its way owns the truth until it lands, and a stuck writer leaves
/// only the focused window to be repaired. Writes that have landed confirm a
/// window unless a record shows it elsewhere.
pub fn begin_verify(facts: &VerifyFacts, degraded: bool) -> (step: VerifyStep)
    ensures
        step == verify_step(*facts, degraded),
{
    if !facts.drive.is_verifying() || facts.repositioning {
        return VerifyStep::Wait;
    }
    if !facts.is_window {
        return VerifyStep::Done;
    }
    if facts.unacked || (degraded && !facts.focused) {
        return VerifyStep::Wait;
    }
    match facts.snapshot {
        Some(at) => if facts.queue_active && at.is_near(facts.position, 1) {
            VerifyStep::Done
        } else {
            VerifyStep::Compare { at }
        },
        None => if facts.queue_active {
            VerifyStep::Done
        } else {
            VerifyStep::Read
        },
    }
}

/// Where a frame that is needed comes from.
#[derive(Clone, Copy, Debug, PartialEq, Eq, Structural)]
pub enum ReadSource {
    /// The read service has it.
    Frame { frame: IRect },
    /// On a later pass.
    Later,
    /// It is read directly.
    Direct,
}

/// Finds out where a frame comes from: the read service where there is one, else
/// a direct read, of which a pass makes only so many.
pub fn verify_source(poll: Option<ReadPoll>, sync_reads: &mut u8) -> (source: ReadSource)
    requires
        *old(sync_reads) <= VERIFY_SYNC_READS_PER_TICK,
    ensures
        *final(sync_reads) <= VERIFY_SYNC_READS_PER_TICK,
        source == (match poll {
            Some(ReadPoll::Ready(frame)) => ReadSource::Frame { frame },
            Some(ReadPoll::Pending) => ReadSource::Later,
            _ => if *old(sync_reads) < VERIFY_SYNC_READS_PER_TICK {
                ReadSource::Direct
            } else {
                ReadSource::Later
            },
        }),
        *final(sync_reads) == *old(sync_reads) + (if source is Direct {
            1int
        } else {
            0
        }),
{
    match poll {
        Some(ReadPoll::Ready(frame)) => ReadSource::Frame { frame },
        Some(ReadPoll::Pending) => ReadSource::Later,
        _ => {
            if *sync_reads >= VERIFY_SYNC_READS_PER_TICK {
                return ReadSource::Later;
            }
            *sync_reads = *sync_reads + 1;
            ReadSource::Direct
        },
    }
}

/// How a confirmation ends.
#[derive(Clone, Copy, Debug, PartialEq, Eq, Structural)]
pub enum Verdict {
    /// The window cannot be read: another pass tries again.
    Unreadable,
    /// The window is where it belongs; the leg is done.
    Confirmed,
    /// The window is elsewhere: its place goes out again at once. The leg is done
    /// once its checks are spent.
    Repair { spent: bool },
}

/// The counts after a repair: one while the writer is stuck is counted as such, and
/// every one as a push.
pub open spec fn repair_noted(counters: SyncCounters, degraded: bool) -> SyncCounters {
    let stuck = if degraded {
        counters.noted(Tally::DegradedRepair)
    } else {
        counters
    };
    stuck.noted(Tally::PushSent)
}

/// Confirms a landing against where the window is. A pixel counts as there. A repair is
/// a write of the caller, past the queue that has failed the window; it is counted as a
/// push, and its place as the one last sent.
pub fn verify_window_position(
    win: WinID,
    at: Option<Origin>,
    position: Origin,
    degraded: bool,
    drive: &mut PositionDrive,
    state: &mut AxWriteState,
    counters: &mut SyncCounters,
) -> (verdict: Verdict)
    requires
        old(state).wf(),
        old(counters).has_room(1),
    ensures
        final(state).wf(),
        if verdict is Repair {
            &&& *final(counters) == repair_noted(*old(counters), degraded)
            &&& final(state).sent_from(*old(state), win, position)
        } else {
            &&& *final(counters) == *old(counters)
            &&& *final(state) == *old(state)
        },
        match at {
            None => verdict == Verdict::Unreadable && *final(drive) == *old(drive),
            Some(at) => if at.near(position, 1) {
                verdict == Verdict::Confirmed && *final(drive) == *old(drive)
            } else {
                *final(drive) == old(drive).ticked() && verdict == (Verdict::Repair {
                    spent: final(drive).spent(),
                })
            },
        },
{
    match at {
        None => Verdict::Unreadable,
        Some(at) => if at.is_near(position, 1) {
            Verdict::Confirmed
        } else {
            assert(old(counters).count(Tally::DegradedRepair) + 1 <= u64::MAX);
            assert(old(counters).count(Tally::PushSent) + 1 <= u64::MAX);
            if degraded {
                counters.note(Tally::DegradedRepair);
            }
            counters.note(Tally::PushSent);
            state.record_sent(win, position);
            Verdict::Repair { spent: drive.tick() }
        },
    }
}

/// The newest of a window's writes, after the first `n` completions.
pub open spec fn acked_by(first: u64, acks: Seq<AxWriteAck>, win: WinID, n: int) -> u64
    decreases n,
{
    if n <= 0 {
        first
    } else if acks[n - 1].win_id == win {
        larger(acked_by(first, acks, win, n - 1), acks[n - 1].seq)
    } else {
        acked_by(first, acks, win, n - 1)
    }
}

/// The states that the completions go through, one for each of the first `n`.
pub open spec fn landed_through(states: Seq<AxWriteState>, acks: Seq<AxWriteAck>, n: int) -> bool {
    &&& states.len() == n + 1
    &&& forall|k: int|
        #![trigger acks[k]]
        0 <= k < n ==> states[k + 1].landed_from(
            states[k],
            acks[k].win_id,
            acks[k].seq,
            acks[k].epoch,
        )
}

/// What all the completions leave behind, but for the gap that was reported last.
pub open spec fn drained_from(
    after: AxWriteState,
    before: AxWriteState,
    acks: Seq<AxWriteAck>,
) -> bool {
    exists|states: Seq<AxWriteState>|
        {
            &&& #[trigger] landed_through(states, acks, acks.len() as int)
            &&& states[0] == before
            &&& after == (AxWriteState {
                last_warned_gap: after.last_warned_gap,
                ..states.last()
            })
        }
}

/// What the completions of a frame say of the writer.
#[derive(Clone, Copy, Debug, PartialEq, Eq, Structural)]
pub enum WriterHealth {
    /// Nothing to say.
    Quiet,
    /// The writer caught up: writes go through the queue again.
    Recovered,
    /// The writer is stuck; `fallback` says that writes now go out directly.
    Stuck { gap: u64, fallback: bool },
}

/// The counts after the state of the writer was found out.
pub open spec fn health_noted(counters: SyncCounters, health: WriterHealth) -> SyncCounters {
    match health {
        WriterHealth::Stuck { fallback, .. } => if fallback {
            counters.noted(Tally::WriterStall).noted(Tally::FallbackEntry)
        } else {
            counters.noted(Tally::WriterStall)
        },
        _ => counters,
    }
}

/// Takes the completions of writes in and watches the writer: it is reported
/// once it counts as stuck and each time it has fallen back further; from
/// `fallback_at` frames on writes go out directly until it has caught up. Reports and
/// the times it came to that are counted.
pub fn drain_ax_acks(
    acks: &Vec<AxWriteAck>,
    state: &mut AxWriteState,
    fallback: &mut bool,
    fallback_at: u64,
    counters: &mut SyncCounters,
) -> (health: WriterHealth)
    requires
        old(state).wf(),
        old(counters).has_room(1),
    ensures
        *final(counters) == health_noted(*old(counters), health),
        final(state).wf(),
        drained_from(*final(state), *old(state), acks@),
        final(state).last_warned_gap == (if *old(fallback) {
            old(state).last_warned_gap
        } else if final(state).gap() < STUCK_WRITER_EPOCHS {
            0
        } else {
            larger(old(state).last_warned_gap, final(state).gap())
        }),
        final(state).current == old(state).current,
        final(state).last_landed >= old(state).last_landed,
        forall|win: WinID| #[trigger]
            final(state).acked_to(win) == acked_by(
                old(state).acked_to(win),
                acks@,
                win,
                acks@.len() as int,
            ),
        ({
            let gap = final(state).gap();
            let stuck = gap >= STUCK_WRITER_EPOCHS && gap > old(state).last_warned_gap;
            if *old(fallback) {
                &&& *final(fallback) == (gap >= STUCK_WRITER_EPOCHS)
                &&& health == (if *final(fallback) {
                    WriterHealth::Quiet
                } else {
                    WriterHealth::Recovered
                })
            } else {
                &&& *final(fallback) == (stuck && gap >= fallback_at)
                &&& health == (if stuck {
                    WriterHealth::Stuck { gap, fallback: *final(fallback) }
                } else {
                    WriterHealth::Quiet
                })
            }
        }),
{
    let mut i: usize = 0;
    let ghost mut states = seq![*state];
    while i < acks.len()
        invariant
            i <= acks.len(),
            state.wf(),
            landed_through(states, acks@, i as int),
            states[0] == *old(state),
            states.last() == *state,
            state.current == old(state).current,
            state.last_warned_gap == old(state).last_warned_gap,
            state.last_landed >= old(state).last_landed,
            forall|win: WinID| #[trigger]
                state.acked_to(win) == acked_by(old(state).acked_to(win), acks@, win, i as int),
        decreases acks.len() - i,
    {
        let ghost passed = states;
        state.acknowledge(acks[i].win_id, acks[i].seq, acks[i].epoch);
        proof {
            states = passed.push(*state);
            assert forall|k: int| #![trigger acks@[k]] 0 <= k < i + 1 implies states[k
                + 1].landed_from(states[k], acks@[k].win_id, acks@[k].seq, acks@[k].epoch) by {
                if k < i {
                    assert(states[k + 1] == passed[k + 1]);
                }
            }
        }
        i = i + 1;
    }
    let ghost landed = *state;
    assert(drained_from(landed, *old(state), acks@));
    let gap: u64 = state.current_epoch() - state.last_landed();
    if *fallback {
        if gap < STUCK_WRITER_EPOCHS {
            *fallback = false;
            return WriterHealth::Recovered;
        }
        return WriterHealth::Quiet;
    }
    let ghost drained = *state;
    let report = state.check_stall();
    assert(forall|win: WinID| #[trigger] state.acked_to(win) == drained.acked_to(win));
    assert(drained_from(*state, *old(state), acks@)) by {
        assert(landed_through(states, acks@, acks@.len() as int));
    }
    match report {
        Some(gap) => {
            assert(old(counters).count(Tally::WriterStall) + 1 <= u64::MAX);
            counters.note(Tally::WriterStall);
            if gap >= fallback_at {
                *fallback = true;
                assert(old(counters).count(Tally::FallbackEntry) + 1 <= u64::MAX);
                counters.note(Tally::FallbackEntry);
            }
            WriterHealth::Stuck { gap, fallback: *fallback }
        },
        None => WriterHealth::Quiet,
    }
}

} // verus!
