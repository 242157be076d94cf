//! The one place that decides what an echo of the window server means: whether
//! the layout adopts it, writes over it, or drops it.
use vstd::prelude::*;

use crate::damping::{history_after, reported_after, Episode, Tolerance};
use crate::time::Duration;

verus! {

/// How often each decision was made.
#[derive(Clone, Copy, Debug, PartialEq, Eq, Structural)]
pub struct SyncCounters {
    pub move_echo_total: u64,
    pub move_adopt: u64,
    pub move_pushback_distrust: u64,
    pub move_pushback_grace: u64,
    pub move_ignore_held: u64,
    pub move_ignore_reposition: u64,
    pub move_ignore_unacked: u64,
    pub move_ignore_verifying: u64,
    pub move_ignore_minimized: u64,
    pub resize_echo_total: u64,
    pub resize_adopt: u64,
    pub resize_ignore_resizing: u64,
    pub resize_ignore_armed: u64,
    pub resize_ignore_jitter: u64,
    pub push_sent: u64,
    pub push_deduped: u64,
    pub push_dropped_full: u64,
    pub writer_stall_warned: u64,
    pub writer_degraded_repairs: u64,
    pub writer_fallback_entries: u64,
}

/// A decision that is counted.
#[derive(Clone, Copy, Debug, PartialEq, Eq, Structural)]
pub enum Tally {
    MoveEcho,
    MoveAdopt,
    PushbackDistrust,
    PushbackGrace,
    MoveHeld,
    MoveReposition,
    MoveUnacked,
    MoveVerifying,
    MoveMinimized,
    ResizeEcho,
    ResizeAdopt,
    ResizeResizing,
    ResizeArmed,
    ResizeJitter,
    PushSent,
    PushDeduped,
    PushDropped,
    WriterStall,
    DegradedRepair,
    FallbackEntry,
}

impl SyncCounters {
    /// Every count can grow by that much.
    pub open spec fn has_room(self, more: int) -> bool {
        forall|tally: Tally| #[trigger] self.count(tally) + more <= u64::MAX
    }

    /// The counts after a decision that may have none.
    pub open spec fn noted_if(self, tally: Option<Tally>) -> SyncCounters {
        match tally {
            Some(tally) => self.noted(tally),
            None => self,
        }
    }

    pub open spec fn count(self, tally: Tally) -> u64 {
        match tally {
            Tally::MoveEcho => self.move_echo_total,
            Tally::MoveAdopt => self.move_adopt,
            Tally::PushbackDistrust => self.move_pushback_distrust,
            Tally::PushbackGrace => self.move_pushback_grace,
            Tally::MoveHeld => self.move_ignore_held,
            Tally::MoveReposition => self.move_ignore_reposition,
            Tally::MoveUnacked => self.move_ignore_unacked,
            Tally::MoveVerifying => self.move_ignore_verifying,
            Tally::MoveMinimized => self.move_ignore_minimized,
            Tally::ResizeEcho => self.resize_echo_total,
            Tally::ResizeAdopt => self.resize_adopt,
            Tally::ResizeResizing => self.resize_ignore_resizing,
            Tally::ResizeArmed => self.resize_ignore_armed,
            Tally::ResizeJitter => self.resize_ignore_jitter,
            Tally::PushSent => self.push_sent,
            Tally::PushDeduped => self.push_deduped,
            Tally::PushDropped => self.push_dropped_full,
            Tally::WriterStall => self.writer_stall_warned,
            Tally::DegradedRepair => self.writer_degraded_repairs,
            Tally::FallbackEntry => self.writer_fallback_entries,
        }
    }

    /// The counters with one decision more.
    pub open spec fn noted(self, tally: Tally) -> SyncCounters {
        let more = (self.count(tally) + 1) as u64;
        match tally {
            Tally::MoveEcho => SyncCounters { move_echo_total: more, ..self },
            Tally::MoveAdopt => SyncCounters { move_adopt: more, ..self },
            Tally::PushbackDistrust => SyncCounters { move_pushback_distrust: more, ..self },
            Tally::PushbackGrace => SyncCounters { move_pushback_grace: more, ..self },
            Tally::MoveHeld => SyncCounters { move_ignore_held: more, ..self },
            Tally::MoveReposition => SyncCounters { move_ignore_reposition: more, ..self },
            Tally::MoveUnacked => SyncCounters { move_ignore_unacked: more, ..self },
            Tally::MoveVerifying => SyncCounters { move_ignore_verifying: more, ..self },
            Tally::MoveMinimized => SyncCounters { move_ignore_minimized: more, ..self },
            Tally::ResizeEcho => SyncCounters { resize_echo_total: more, ..self },
            Tally::ResizeAdopt => SyncCounters { resize_adopt: more, ..self },
            Tally::ResizeResizing => SyncCounters { resize_ignore_resizing: more, ..self },
            Tally::ResizeArmed => SyncCounters { resize_ignore_armed: more, ..self },
            Tally::ResizeJitter => SyncCounters { resize_ignore_jitter: more, ..self },
            Tally::PushSent => SyncCounters { push_sent: more, ..self },
            Tally::PushDeduped => SyncCounters { push_deduped: more, ..self },
            Tally::PushDropped => SyncCounters { push_dropped_full: more, ..self },
            Tally::WriterStall => SyncCounters { writer_stall_warned: more, ..self },
            Tally::DegradedRepair => SyncCounters { writer_degraded_repairs: more, ..self },
            Tally::FallbackEntry => SyncCounters { writer_fallback_entries: more, ..self },
        }
    }

    pub fn note(&mut self, tally: Tally)
        requires
            old(self).count(tally) < u64::MAX,
        ensures
            *final(self) == old(self).noted(tally),
    {
        match tally {
            Tally::MoveEcho => {
                self.move_echo_total = self.move_echo_total + 1;
            },
            Tally::MoveAdopt => {
                self.move_adopt = self.move_adopt + 1;
            },
            Tally::PushbackDistrust => {
                self.move_pushback_distrust = self.move_pushback_distrust + 1;
            },
            Tally::PushbackGrace => {
                self.move_pushback_grace = self.move_pushback_grace + 1;
            },
            Tally::MoveHeld => {
                self.move_ignore_held = self.move_ignore_held + 1;
            },
            Tally::MoveReposition => {
                self.move_ignore_reposition = self.move_ignore_reposition + 1;
            },
            Tally::MoveUnacked => {
                self.move_ignore_unacked = self.move_ignore_unacked + 1;
            },
            Tally::MoveVerifying => {
                self.move_ignore_verifying = self.move_ignore_verifying + 1;
            },
            Tally::MoveMinimized => {
                self.move_ignore_minimized = self.move_ignore_minimized + 1;
            },
            Tally::ResizeEcho => {
                self.resize_echo_total = self.resize_echo_total + 1;
            },
            Tally::ResizeAdopt => {
                self.resize_adopt = self.resize_adopt + 1;
            },
            Tally::ResizeResizing => {
                self.resize_ignore_resizing = self.resize_ignore_resizing + 1;
            },
            Tally::ResizeArmed => {
                self.resize_ignore_armed = self.resize_ignore_armed + 1;
            },
            Tally::ResizeJitter => {
                self.resize_ignore_jitter = self.resize_ignore_jitter + 1;
            },
            Tally::PushSent => {
                self.push_sent = self.push_sent + 1;
            },
            Tally::PushDeduped => {
                self.push_deduped = self.push_deduped + 1;
            },
            Tally::PushDropped => {
                self.push_dropped_full = self.push_dropped_full + 1;
            },
            Tally::WriterStall => {
                self.writer_stall_warned = self.writer_stall_warned + 1;
            },
            Tally::DegradedRepair => {
                self.writer_degraded_repairs = self.writer_degraded_repairs + 1;
            },
            Tally::FallbackEntry => {
                self.writer_fallback_entries = self.writer_fallback_entries + 1;
            },
        }
    }

    pub open spec fn zero() -> SyncCounters {
        SyncCounters {
            move_echo_total: 0,
            move_adopt: 0,
            move_pushback_distrust: 0,
            move_pushback_grace: 0,
            move_ignore_held: 0,
            move_ignore_reposition: 0,
            move_ignore_unacked: 0,
            move_ignore_verifying: 0,
            move_ignore_minimized: 0,
            resize_echo_total: 0,
            resize_adopt: 0,
            resize_ignore_resizing: 0,
            resize_ignore_armed: 0,
            resize_ignore_jitter: 0,
            push_sent: 0,
            push_deduped: 0,
            push_dropped_full: 0,
            writer_stall_warned: 0,
            writer_degraded_repairs: 0,
            writer_fallback_entries: 0,
        }
    }
}

/// One decision moves one count by one.
pub proof fn counting_moves_one_count(counters: SyncCounters, tally: Tally, other: Tally)
    requires
        counters.count(tally) < u64::MAX,
    ensures
        counters.noted(tally).count(other) == counters.count(other) + (if other == tally {
            1int
        } else {
            0
        }),
{
}

/// A count takes at most one from the room of all.
pub(crate) proof fn lemma_room_left(counters: SyncCounters, tally: Tally, room: int)
    requires
        room > 0,
        counters.has_room(room),
    ensures
        counters.noted(tally).has_room(room - 1),
{
    let after = counters.noted(tally);
    assert(counters.count(tally) + room <= u64::MAX);
    assert forall|other: Tally| #[trigger] after.count(other) + (room - 1) <= u64::MAX by {
        assert(counters.count(other) + room <= u64::MAX);
        counting_moves_one_count(counters, tally, other);
    }
}

/// Room for more is room for less.
pub(crate) proof fn lemma_less_room(counters: SyncCounters, more: int, less: int)
    requires
        less <= more,
        counters.has_room(more),
    ensures
        counters.has_room(less),
{
    assert forall|tally: Tally| #[trigger] counters.count(tally) + less <= u64::MAX by {
        assert(counters.count(tally) + more <= u64::MAX);
    }
}

impl Default for SyncCounters {
    fn default() -> (counters: SyncCounters)
        ensures
            counters == SyncCounters::zero(),
    {
        SyncCounters {
            move_echo_total: 0,
            move_adopt: 0,
            move_pushback_distrust: 0,
            move_pushback_grace: 0,
            move_ignore_held: 0,
            move_ignore_reposition: 0,
            move_ignore_unacked: 0,
            move_ignore_verifying: 0,
            move_ignore_minimized: 0,
            resize_echo_total: 0,
            resize_adopt: 0,
            resize_ignore_resizing: 0,
            resize_ignore_armed: 0,
            resize_ignore_jitter: 0,
            push_sent: 0,
            push_deduped: 0,
            push_dropped_full: 0,
            writer_stall_warned: 0,
            writer_degraded_repairs: 0,
            writer_fallback_entries: 0,
        }
    }
}

/// How a window and its slot stand to each other.
#[derive(Clone, Copy, Debug, PartialEq, Eq, Structural)]
pub enum WindowSync {
    /// Layout and window server agree.
    Synced,
    /// A native drag holds the window; its slot stays.
    HeldNative,
    /// The window goes home after a release; late echoes are written over until
    /// the deadline.
    Homing { deadline: Duration },
    /// A landing waits for its confirmation.
    Verifying { retries: u8 },
    /// An echo disagreed outside every other state.
    Drifted,
}

impl Default for WindowSync {
    fn default() -> (state: WindowSync)
        ensures
            state == WindowSync::Synced,
    {
        WindowSync::Synced
    }
}

impl WindowSync {
    /// Checks that a landing gets.
    pub const VERIFY_RETRIES: u8 = 3;

    /// A window that goes home until the deadline.
    pub fn homing(deadline: Duration) -> (state: WindowSync)
        ensures
            state == (WindowSync::Homing { deadline }),
    {
        WindowSync::Homing { deadline }
    }

    pub fn is_verifying(self) -> (verifying: bool)
        ensures
            verifying == (self is Verifying),
    {
        match self {
            WindowSync::Verifying { .. } => true,
            _ => false,
        }
    }

    /// The window is on its way home and its time has not run out.
    pub open spec fn on_its_way_home(self, now: Duration) -> bool {
        self matches WindowSync::Homing { deadline } && now.nanos < deadline.nanos
    }

    pub fn homing_active(self, now: Duration) -> (active: bool)
        ensures
            active == self.on_its_way_home(now),
    {
        match self {
            WindowSync::Homing { deadline } => now.nanos < deadline.nanos,
            _ => false,
        }
    }
}

/// The states of all windows.
#[derive(Debug)]
pub struct SettleGate {
    pub states: Vec<WindowSync>,
}

impl SettleGate {
    /// Whether any window is still on its way home.
    pub fn active(&self, now: Duration) -> (active: bool)
        ensures
            active == exists|i: int|
                0 <= i < self.states@.len() && (#[trigger] self.states@[i]).on_its_way_home(now),
    {
        let mut i: usize = 0;
        while i < self.states.len()
            invariant
                i <= self.states.len(),
                forall|j: int|
                    0 <= j < i ==> !(#[trigger] self.states@[j]).on_its_way_home(now),
            decreases self.states.len() - i,
        {
            if self.states[i].homing_active(now) {
                assert(self.states@[i as int].on_its_way_home(now));
                return true;
            }
            i = i + 1;
        }
        false
    }
}

/// Damping for one window that keeps resizing itself.
#[derive(Debug)]
pub struct ResizeJitter {
    pub episode: Episode,
}

/// Small adoptions before damping engages.
pub const JITTER_COUNT: usize = 5;

/// The trailing window of a burst, in seconds.
pub const JITTER_WINDOW: u64 = 60;

/// Changes of this many pixels are genuine.
pub const JITTER_PX: i32 = 8;

/// What the damping of one window tolerates.
pub open spec fn jitter_tolerance() -> Tolerance {
    Tolerance {
        count: JITTER_COUNT,
        window: Duration { nanos: 60_000_000_000 },
        pixels: JITTER_PX,
    }
}

impl Default for ResizeJitter {
    fn default() -> (jitter: ResizeJitter)
        ensures
            jitter.episode.recent@ == Seq::<Duration>::empty(),
            !jitter.episode.reported,
    {
        ResizeJitter { episode: Episode::new() }
    }
}

impl ResizeJitter {
    /// The history after a change of `delta_px` was recorded in `before`.
    pub open spec fn noted(self, before: ResizeJitter, now: Duration, delta_px: int) -> bool {
        if delta_px >= JITTER_PX {
            self.episode.recent@ == Seq::<Duration>::empty() && !self.episode.reported
        } else {
            &&& self.episode.recent@ == history_after(
                before.episode.recent@,
                now,
                jitter_tolerance().window,
            )
            &&& self.episode.reported == reported_after(
                before.episode.recent@,
                before.episode.reported,
                now,
                jitter_tolerance(),
            )
        }
    }

    /// Whether the running episode has been reported.
    pub fn reported(&self) -> (reported: bool)
        ensures
            reported == self.episode.reported,
    {
        self.episode.reported
    }

    /// Records an adoption that changed the window by `delta_px`; answers whether
    /// the window jitters and its tile holds instead.
    pub fn damp(&mut self, now: Duration, delta_px: i32) -> (held: bool)
        ensures
            final(self).noted(*old(self), now, delta_px as int),
            held == (delta_px < JITTER_PX && final(self).episode.recent@.len() > JITTER_COUNT),
    {
        let tolerance = Tolerance {
            count: JITTER_COUNT,
            window: Duration::from_secs(JITTER_WINDOW),
            pixels: JITTER_PX,
        };
        self.episode.damp(now, delta_px, tolerance)
    }
}

/// What is done with an echo.
#[derive(Clone, Copy, Debug, PartialEq, Eq, Structural)]
pub enum SyncAction {
    /// The layout takes the window server's frame.
    Adopt,
    /// The window server gets the layout's frame again.
    PushBack,
    /// The echo is dropped.
    Ignore,
    /// Only the cached frame is refreshed; the confirmation decides.
    SeatVerify,
}

/// What is known of an echo of a move.
#[derive(Clone, Copy, Debug, PartialEq, Eq, Structural)]
pub struct SyncEvent {
    pub minimized_or_hidden: bool,
    pub held_native: bool,
    pub display_drag_armed: bool,
    pub repositioning: bool,
    pub unacked: bool,
    pub verifying: bool,
    pub button_held_no_gesture: bool,
    pub in_grace: bool,
    pub drifted: bool,
}

impl SyncEvent {
    pub open spec fn spec_clean() -> SyncEvent {
        SyncEvent {
            minimized_or_hidden: false,
            held_native: false,
            display_drag_armed: false,
            repositioning: false,
            unacked: false,
            verifying: false,
            button_held_no_gesture: false,
            in_grace: false,
            drifted: false,
        }
    }

    /// An echo that nothing stands against.
    pub fn clean() -> (event: SyncEvent)
        ensures
            event == SyncEvent::spec_clean(),
    {
        SyncEvent {
            minimized_or_hidden: false,
            held_native: false,
            display_drag_armed: false,
            repositioning: false,
            unacked: false,
            verifying: false,
            button_held_no_gesture: false,
            in_grace: false,
            drifted: false,
        }
    }

    /// The window manager's own intent, or the user's grab, explains the echo.
    pub open spec fn explained(self) -> bool {
        self.minimized_or_hidden || (self.held_native && !self.display_drag_armed)
            || self.repositioning || self.unacked
    }
}

/// What an echo of a move means. First what explains it away, then a landing
/// that waits for its confirmation, then distrust: a button held without a
/// gesture, or a window on its way home. What is left is adopted, unless a
/// native drag holds the window.
pub open spec fn move_action(state: WindowSync, event: SyncEvent) -> SyncAction {
    if event.explained() {
        SyncAction::Ignore
    } else if event.verifying || state is Verifying {
        SyncAction::SeatVerify
    } else if event.button_held_no_gesture || event.in_grace || state is Homing {
        SyncAction::PushBack
    } else if state is HeldNative && !event.drifted {
        SyncAction::Ignore
    } else {
        SyncAction::Adopt
    }
}

/// Decides what an echo of a move means.
pub fn reconcile(state: WindowSync, event: SyncEvent) -> (action: SyncAction)
    ensures
        action == move_action(state, event),
{
    if event.minimized_or_hidden {
        return SyncAction::Ignore;
    }
    if event.held_native && !event.display_drag_armed {
        return SyncAction::Ignore;
    }
    if event.repositioning || event.unacked {
        return SyncAction::Ignore;
    }
    let (verifying, homing, drifted, held): (bool, bool, bool, bool) = match state {
        WindowSync::Synced => (false, false, false, false),
        WindowSync::HeldNative => (false, false, false, true),
        WindowSync::Homing { .. } => (false, true, false, false),
        WindowSync::Verifying { .. } => (true, false, false, false),
        WindowSync::Drifted => (false, false, true, false),
    };
    if event.verifying || verifying {
        return SyncAction::SeatVerify;
    }
    if event.button_held_no_gesture || event.in_grace || homing {
        return SyncAction::PushBack;
    }
    if event.drifted || drifted {
        return SyncAction::Adopt;
    }
    if held {
        return SyncAction::Ignore;
    }
    SyncAction::Adopt
}

/// What is known of an echo of a resize.
#[derive(Clone, Copy, Debug, PartialEq, Eq, Structural)]
pub struct ResizeEvent {
    pub minimized_or_hidden: bool,
    pub display_drag_armed: bool,
    pub resizing: bool,
    pub jitter_damped: bool,
}

impl ResizeEvent {
    pub open spec fn spec_clean() -> ResizeEvent {
        ResizeEvent {
            minimized_or_hidden: false,
            display_drag_armed: false,
            resizing: false,
            jitter_damped: false,
        }
    }

    /// An echo that nothing stands against.
    pub fn clean() -> (event: ResizeEvent)
        ensures
            event == ResizeEvent::spec_clean(),
    {
        ResizeEvent {
            minimized_or_hidden: false,
            display_drag_armed: false,
            resizing: false,
            jitter_damped: false,
        }
    }
}

/// What an echo of a resize means: it is adopted unless something explains it, a
/// move of the window is under way, or the window jitters.
pub open spec fn resize_action(state: WindowSync, event: ResizeEvent) -> SyncAction {
    if event.minimized_or_hidden || event.display_drag_armed || event.resizing || state is Homing
        || state is Verifying || event.jitter_damped {
        SyncAction::Ignore
    } else {
        SyncAction::Adopt
    }
}

/// Decides what an echo of a resize means.
pub fn reconcile_resize(state: WindowSync, event: ResizeEvent) -> (action: SyncAction)
    ensures
        action == resize_action(state, event),
{
    if event.minimized_or_hidden || event.display_drag_armed || event.resizing {
        return SyncAction::Ignore;
    }
    let moving: bool = match state {
        WindowSync::Homing { .. } => true,
        WindowSync::Verifying { .. } => true,
        _ => false,
    };
    if moving || event.jitter_damped {
        return SyncAction::Ignore;
    }
    SyncAction::Adopt
}

/// The window manager's own intent wins over distrust: an echo that it explains
/// is dropped, whatever else is known and in whatever state the window is.
pub proof fn intent_wins_over_distrust(state: WindowSync, event: SyncEvent)
    requires
        event.explained(),
    ensures
        move_action(state, event) == SyncAction::Ignore,
{
}

/// A landing that waits for its confirmation is never adopted nor written over
/// by an echo.
pub proof fn confirmation_is_never_preempted(state: WindowSync, event: SyncEvent)
    requires
        event.verifying || state is Verifying,
    ensures
        move_action(state, event) != SyncAction::Adopt,
        move_action(state, event) != SyncAction::PushBack,
{
}

/// A released window on its way home is never moved by a late echo.
pub proof fn homing_never_adopts(state: WindowSync, event: SyncEvent)
    requires
        event.in_grace || state is Homing,
    ensures
        move_action(state, event) != SyncAction::Adopt,
{
}

/// An echo that nothing stands against is adopted by a window in agreement.
pub proof fn clean_echo_is_adopted()
    ensures
        move_action(WindowSync::Synced, SyncEvent::spec_clean()) == SyncAction::Adopt,
        resize_action(WindowSync::Synced, ResizeEvent::spec_clean()) == SyncAction::Adopt,
{
}

/// While a move of the window is under way, no resize is adopted.
pub proof fn own_motion_never_resizes(state: WindowSync, event: ResizeEvent)
    requires
        state is Homing || state is Verifying,
    ensures
        resize_action(state, event) == SyncAction::Ignore,
{
}

/// Where a press landed.
#[derive(Clone, Copy, Debug, PartialEq, Eq, Structural)]
pub enum GestureKind {
    Titlebar,
    ToolbarBlank,
    Content,
    /// A press that was never classified.
    Unknown,
}

/// What a press arms, once and for the whole gesture.
#[derive(Clone, Copy, Debug, PartialEq, Eq, Structural)]
pub struct Gesture {
    pub kind: GestureKind,
    pub header: bool,
    pub display_armed: bool,
    pub scroll_armed: bool,
}

impl Gesture {
    /// Whether the gesture moves anything but its own window.
    pub fn drives(self) -> (drives: bool)
        ensures
            drives == (self.display_armed || self.scroll_armed),
    {
        self.display_armed || self.scroll_armed
    }
}

/// What a press arms, by where it landed.
pub open spec fn gesture_of(
    titlebar: bool,
    toolbar_blank: bool,
    display_armed: bool,
    scroll_capable: bool,
) -> Gesture {
    Gesture {
        kind: if titlebar {
            GestureKind::Titlebar
        } else if toolbar_blank {
            GestureKind::ToolbarBlank
        } else {
            GestureKind::Content
        },
        header: titlebar || toolbar_blank,
        display_armed,
        scroll_armed: scroll_capable && !display_armed && (titlebar || toolbar_blank),
    }
}

/// Classifies a press.
pub fn classify_gesture(
    titlebar: bool,
    toolbar_blank: bool,
    display_armed: bool,
    scroll_capable: bool,
) -> (gesture: Gesture)
    ensures
        gesture == gesture_of(titlebar, toolbar_blank, display_armed, scroll_capable),
{
    let kind = if titlebar {
        GestureKind::Titlebar
    } else if toolbar_blank {
        GestureKind::ToolbarBlank
    } else {
        GestureKind::Content
    };
    let header = kind == GestureKind::Titlebar || kind == GestureKind::ToolbarBlank;
    Gesture {
        kind,
        header,
        display_armed,
        scroll_armed: scroll_capable && !display_armed && header,
    }
}

/// The gesture of a press that was never classified: it arms nothing.
pub fn unknown_gesture() -> (gesture: Gesture)
    ensures
        gesture == (Gesture {
            kind: GestureKind::Unknown,
            header: false,
            display_armed: false,
            scroll_armed: false,
        }),
{
    Gesture {
        kind: GestureKind::Unknown,
        header: false,
        display_armed: false,
        scroll_armed: false,
    }
}

/// A gesture never both scrolls the strip and takes its window to another
/// display, and only a header scrolls.
pub proof fn gestures_arm_one_thing(
    titlebar: bool,
    toolbar_blank: bool,
    display_armed: bool,
    scroll_capable: bool,
)
    ensures
        ({
            let gesture = gesture_of(titlebar, toolbar_blank, display_armed, scroll_capable);
            &&& !(gesture.scroll_armed && gesture.display_armed)
            &&& gesture.scroll_armed ==> gesture.header
            &&& gesture.kind == GestureKind::Content ==> !gesture.scroll_armed
        }),
{
}

} // verus!
