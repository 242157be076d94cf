//! The state that the window manager keeps of windows, strips and displays, and
//! the requests that its rules issue against that state.
use vstd::prelude::*;

pub mod animation;
pub mod focus;
pub mod layout;
pub mod mouse;
pub mod orchestrator;
pub mod params;
pub mod schedule;
pub mod scroll;
pub mod sync;
pub mod systems;

use crate::commands::Command;
use crate::config::WindowParams;
use crate::damping::{history_after, reported_after, Episodes, Tolerance};
use crate::geometry::{Entity, Origin, Size, WinID, WorkspaceId};
use crate::time::Duration;

verus! {

/// The window that has the focus.
pub struct FocusedMarker;

/// The strip that is on screen.
pub struct ActiveWorkspaceMarker;

/// The strip that its display shows when its space is on screen.
pub struct SelectedVirtualMarker;

/// A message shown for a moment over the screen.
pub struct FlashMessage(pub String);

/// The display that commands act on.
pub struct ActiveDisplayMarker;

/// A process, application or window that was just found.
pub struct FreshMarker;

/// A process or application that ran before the window manager started.
pub struct ExistingMarker;

/// Where a window or a strip is to move.
#[derive(Clone, Copy, Debug, PartialEq, Eq, Structural)]
pub struct RepositionMarker(pub Origin);

/// The size a window is to take.
#[derive(Clone, Copy, Debug, PartialEq, Eq, Structural)]
pub struct ResizeMarker(pub Size);

/// The last write of a window was lost and has to go out again.
pub struct ResendMarker;

/// A driven move of a window: a leg on its way to a target, or the short phase
/// after it in which the landing is confirmed.
#[derive(Clone, Copy, Debug, PartialEq, Eq, Structural)]
pub struct PositionDrive {
    pub start: Origin,
    pub target: Origin,
    pub started: Duration,
    pub duration: Duration,
    pub phase: DrivePhase,
}

#[derive(Clone, Copy, Debug, PartialEq, Eq, Structural)]
pub enum DrivePhase {
    Animating,
    Verifying { remaining: u8 },
}

/// Checks that a landing gets before it is given up.
pub const DRIVE_VERIFY_RETRIES: u8 = 3;

impl PositionDrive {
    pub fn animating(start: Origin, target: Origin, started: Duration, duration: Duration) -> (drive:
        PositionDrive)
        ensures
            drive == (PositionDrive {
                start,
                target,
                started,
                duration,
                phase: DrivePhase::Animating,
            }),
    {
        PositionDrive { start, target, started, duration, phase: DrivePhase::Animating }
    }

    pub open spec fn spec_verifying() -> PositionDrive {
        PositionDrive {
            start: Origin { x: 0, y: 0 },
            target: Origin { x: 0, y: 0 },
            started: Duration { nanos: 0 },
            duration: Duration { nanos: 0 },
            phase: DrivePhase::Verifying { remaining: DRIVE_VERIFY_RETRIES },
        }
    }

    pub fn verifying() -> (drive: PositionDrive)
        ensures
            drive == PositionDrive::spec_verifying(),
    {
        PositionDrive {
            start: Origin::zero(),
            target: Origin::zero(),
            started: Duration::zero(),
            duration: Duration::zero(),
            phase: DrivePhase::Verifying { remaining: DRIVE_VERIFY_RETRIES },
        }
    }

    pub fn is_verifying(&self) -> (verifying: bool)
        ensures
            verifying == (self.phase is Verifying),
    {
        match self.phase {
            DrivePhase::Verifying { .. } => true,
            DrivePhase::Animating => false,
        }
    }

    /// The drive after one check that found nothing wrong yet.
    pub open spec fn ticked(self) -> PositionDrive {
        PositionDrive {
            phase: match self.phase {
                DrivePhase::Verifying { remaining } => DrivePhase::Verifying {
                    remaining: if remaining > 0 {
                        (remaining - 1) as u8
                    } else {
                        0
                    },
                },
                DrivePhase::Animating => DrivePhase::Animating,
            },
            ..self
        }
    }

    /// No checks are left.
    pub open spec fn spent(self) -> bool {
        self.phase == (DrivePhase::Verifying { remaining: 0 })
    }

    /// Takes one check off the budget; answers whether none is left. A leg that
    /// still animates has no budget.
    pub fn tick(&mut self) -> (spent: bool)
        ensures
            *final(self) == old(self).ticked(),
            spent == final(self).spent(),
    {
        match self.phase {
            DrivePhase::Verifying { remaining } => {
                let left: u8 = if remaining > 0 {
                    remaining - 1
                } else {
                    0
                };
                self.phase = DrivePhase::Verifying { remaining: left };
                left == 0
            },
            DrivePhase::Animating => false,
        }
    }
}

/// A fresh confirmation is spent by exactly as many checks as it was given, no
/// fewer.
pub proof fn verification_budget_is_exact()
    ensures
        !PositionDrive::spec_verifying().ticked().spent(),
        !PositionDrive::spec_verifying().ticked().ticked().spent(),
        PositionDrive::spec_verifying().ticked().ticked().ticked().spent(),
{
}

/// A leg that animates is never spent by checks.
pub proof fn animation_is_never_spent(drive: PositionDrive)
    requires
        drive.phase is Animating,
    ensures
        drive.ticked() == drive,
        !drive.ticked().spent(),
{
}

/// A driven change of a window's size.
#[derive(Clone, Copy, Debug, PartialEq, Eq, Structural)]
pub struct SizeDrive {
    pub start: Size,
    pub target: Size,
    pub started: Duration,
    pub duration: Duration,
}

/// When the running burst of motion began, so that legs born inside it share
/// one phase.
#[derive(Clone, Copy, Debug, PartialEq, Eq, Structural)]
pub struct BurstClock {
    pub opened: Option<Duration>,
}

impl Default for BurstClock {
    fn default() -> (clock: BurstClock)
        ensures
            clock.opened is None,
    {
        BurstClock { opened: None }
    }
}

/// The strip is to be laid out again around this window.
pub struct ReshuffleAroundMarker {
    pub force: bool,
}

/// The strip is to scroll until this window is in view.
pub struct EnsureVisibleMarker {
    pub snap: bool,
}

/// A reveal that waits for its strip to settle, at most until the deadline.
pub struct DeferredExposeMarker {
    pub deadline: Duration,
}

/// The strip's offset was placed by hand; `signature` is the shape it had then.
#[derive(Debug)]
pub struct ManualStripOffset {
    pub signature: Vec<(Entity, i32)>,
}

/// A drag let the strip go, and the nearest window is to be revealed.
pub struct DragSettleMarker;

/// What the accessibility interface says of this window is known to be stale.
pub struct StaleAxMarker;

/// The slot of a window relative to its strip.
#[derive(Clone, Copy, Debug, PartialEq, Eq, Structural)]
pub struct LayoutPosition(pub Origin);

impl Default for LayoutPosition {
    fn default() -> (slot: LayoutPosition)
        ensures
            slot.0 == (Origin { x: 0, y: 0 }),
    {
        LayoutPosition(Origin::zero())
    }
}

/// Where a window or a strip is.
#[derive(Clone, Copy, Debug, PartialEq, Eq, Structural)]
pub struct Position(pub Origin);

/// The size of a window.
#[derive(Clone, Copy, Debug, PartialEq, Eq, Structural)]
pub struct Bounds(pub Size);

/// A native fullscreen space, and the strip and slot that its window came from.
#[derive(Clone, Copy, Debug, PartialEq, Eq, Structural)]
pub struct NativeFullscreenMarker {
    pub layout_strip: Entity,
    pub workspace_id: WorkspaceId,
    pub index: usize,
}

/// Why a window is not tiled.
#[derive(Clone, Copy, Debug, PartialEq, Eq, Structural)]
pub enum Unmanaged {
    Floating,
    Minimized,
    Hidden,
}

/// The strip and slot that a window had before it left the layout.
#[derive(Clone, Copy, Debug, PartialEq, Eq, Structural)]
pub struct PreviousManagedStrip {
    pub workspace_id: WorkspaceId,
    pub virtual_index: u32,
    pub index: usize,
}

/// A span that runs out once: a grace period or a pause before another try.
#[derive(Clone, Copy, Debug, PartialEq, Eq, Structural)]
pub struct Timeout {
    pub elapsed: Duration,
    pub duration: Duration,
    pub finished: bool,
}

impl Timeout {
    /// A timeout of that length, of which nothing has run yet.
    pub open spec fn lasting(duration: Duration) -> Timeout {
        Timeout { elapsed: Duration { nanos: 0 }, duration, finished: false }
    }

    pub fn new(duration: Duration) -> (timeout: Timeout)
        ensures
            timeout == Timeout::lasting(duration),
    {
        Timeout { elapsed: Duration::zero(), duration, finished: false }
    }

    /// The timeout after `delta` more; one that has run out stays as it is.
    pub open spec fn ticked(self, delta: Duration) -> Timeout {
        if self.finished {
            self
        } else if self.elapsed.nanos + delta.nanos >= self.duration.nanos {
            Timeout { elapsed: self.duration, finished: true, ..self }
        } else {
            Timeout {
                elapsed: Duration { nanos: (self.elapsed.nanos + delta.nanos) as u128 },
                ..self
            }
        }
    }

    pub fn tick(&mut self, delta: Duration)
        ensures
            *final(self) == old(self).ticked(delta),
    {
        if self.finished {
            return;
        }
        if self.elapsed.nanos >= self.duration.nanos || delta.nanos >= self.duration.nanos
            - self.elapsed.nanos {
            self.elapsed = self.duration;
            self.finished = true;
        } else {
            self.elapsed = self.elapsed.plus(delta);
        }
    }
}

/// A timeout that has not run out runs out exactly when the spans add up to its
/// length, however they are cut.
pub proof fn timeouts_add_up(timeout: Timeout, a: Duration, b: Duration)
    requires
        !timeout.finished,
        a.nanos + b.nanos <= u128::MAX,
    ensures
        timeout.ticked(a).ticked(b).finished == timeout.ticked(
            Duration { nanos: (a.nanos + b.nanos) as u128 },
        ).finished,
{
}

/// A focus event that came before its window was known.
#[derive(Clone, Copy, Debug, PartialEq, Eq, Structural)]
pub struct StrayFocusEvent(pub WinID);

/// A front switch to this application that has to be tried again.
#[derive(Clone, Copy, Debug, PartialEq, Eq, Structural)]
pub struct RetryFrontSwitch(pub Entity);

/// The edge that the dock takes, and how much of it.
#[derive(Clone, Copy, Debug, PartialEq, Eq, Structural)]
pub enum DockPosition {
    Bottom(i32),
    Left(i32),
    Right(i32),
    Hidden,
}

pub struct LowPowerMode(pub bool);

pub struct SystemTheme {
    pub is_dark: bool,
}

pub struct SkipReshuffle(pub bool);

/// The mouse button is down on this window.
#[derive(Clone, Copy, Debug, PartialEq, Eq, Structural)]
pub struct MouseHeldMarker(pub Entity);

/// The held drag may take its window to another display.
pub struct DragDisplayArmed;

/// The held drag scrolls the strip.
pub struct DragScrollArmed;

/// The held drag started on a title bar.
pub struct TitlebarGrab;

pub struct MissionControlActive(pub bool);

/// The window that the mouse is about to give the focus to.
pub struct FocusFollowsMouse(pub Option<WinID>);

pub struct Initializing;

/// The warm-up after a start, from the moment it began.
#[derive(Clone, Copy, Debug, PartialEq, Eq, Structural)]
pub struct ColdStart {
    pub started: Duration,
}

impl ColdStart {
    pub fn new(now: Duration) -> (cold: ColdStart)
        ensures
            cold.started == now,
    {
        ColdStart { started: now }
    }

    /// The time since the start, on the same clock.
    pub fn elapsed(&self, now: Duration) -> (span: Duration)
        ensures
            span.nanos == now.minus(self.started),
    {
        now.saturating_sub(self.started)
    }
}

/// Counts how often the set of displays was reconciled.
#[derive(Clone, Copy, Debug, PartialEq, Eq, Structural)]
pub struct DisplayGeneration(pub u64);

impl Default for DisplayGeneration {
    fn default() -> (generation: DisplayGeneration)
        ensures
            generation.0 == 0,
    {
        DisplayGeneration(0)
    }
}

/// The last focus that the user asked for by a command.
#[derive(Clone, Copy, Debug, PartialEq, Eq, Structural)]
pub struct UserFocus {
    pub entity: Option<Entity>,
    pub at: Duration,
}

impl Default for UserFocus {
    fn default() -> (focus: UserFocus)
        ensures
            focus.entity is None,
            focus.at.nanos == 0,
    {
        UserFocus { entity: None, at: Duration::zero() }
    }
}

/// How long a command counts as the cause of a focus, in milliseconds.
pub const USER_FOCUS_CAUSE_WINDOW: u64 = 500;

/// The last mouse press.
#[derive(Clone, Copy, Debug, PartialEq, Eq, Structural)]
pub struct LastPress {
    pub at: Duration,
    pub point: Origin,
}

impl Default for LastPress {
    fn default() -> (press: LastPress)
        ensures
            press.at.nanos == 0,
            press.point == (Origin { x: 0, y: 0 }),
    {
        LastPress { at: Duration::zero(), point: Origin::zero() }
    }
}

/// How long a press counts as the cause of a focus, in milliseconds.
pub const PRESS_FOCUS_CAUSE_WINDOW: u64 = 400;

/// Windows whose validation failed for the moment, waiting for another try.
#[derive(Debug)]
pub struct PendingValidations {
    pub queue: Vec<PendingValidation>,
}

/// Tries that an element gets.
pub const PENDING_VALIDATION_TRIES: u8 = 3;

/// Elements that may wait; the oldest goes first.
pub const PENDING_VALIDATION_CAP: usize = 64;

/// One element, by its handle, that waits for another try.
#[derive(Clone, Copy, Debug, PartialEq, Eq, Structural)]
pub struct PendingValidation {
    pub element: u64,
    pub tries: u8,
    pub next_retry: Duration,
}

/// The pause after a failed try, by the tries that are left: half a second,
/// doubled for each try already made.
pub open spec fn retry_pause_millis(tries: u8) -> int {
    if tries >= PENDING_VALIDATION_TRIES {
        500
    } else if tries == 2 {
        1000
    } else if tries == 1 {
        2000
    } else {
        4000
    }
}

impl Default for PendingValidations {
    fn default() -> (pending: PendingValidations)
        ensures
            pending.queue@.len() == 0,
    {
        PendingValidations { queue: Vec::new() }
    }
}

impl PendingValidations {
    /// The queue never outgrows its cap, and every entry has a try left.
    pub open spec fn wf(self) -> bool {
        &&& self.queue@.len() <= PENDING_VALIDATION_CAP
        &&& forall|k: int| 0 <= k < self.queue@.len() ==> (#[trigger] self.queue@[k]).tries > 0
    }

    /// The queue after a failed validation came in: the oldest entry makes room
    /// where the queue is full.
    pub open spec fn queued(queue: Seq<PendingValidation>, element: u64, now: Duration) -> Seq<
        PendingValidation,
    > {
        let entry = PendingValidation {
            element,
            tries: PENDING_VALIDATION_TRIES,
            next_retry: Duration { nanos: (now.nanos + 500_000_000) as u128 },
        };
        if queue.len() >= PENDING_VALIDATION_CAP {
            queue.remove(0).push(entry)
        } else {
            queue.push(entry)
        }
    }

    /// Queues a failed validation for another try in half a second.
    pub fn queue(&mut self, element: u64, now: Duration)
        requires
            now.nanos + 500_000_000 <= u128::MAX,
        ensures
            final(self).queue@ == PendingValidations::queued(old(self).queue@, element, now),
            old(self).wf() ==> final(self).wf(),
    {
        if self.queue.len() >= PENDING_VALIDATION_CAP {
            self.queue.remove(0);
        }
        self.queue.push(
            PendingValidation {
                element,
                tries: PENDING_VALIDATION_TRIES,
                next_retry: now.plus(Duration::from_millis(500)),
            },
        );
    }

    /// The pause after a failed try, by the tries that are left.
    pub fn retry_delay(tries: u8) -> (delay: Duration)
        ensures
            delay.nanos == retry_pause_millis(tries) * 1_000_000,
    {
        let made: u8 = if tries >= PENDING_VALIDATION_TRIES {
            0
        } else {
            PENDING_VALIDATION_TRIES - tries
        };
        let mut millis: u64 = 500;
        let mut doubled: u8 = 0;
        while doubled < made
            invariant
                doubled <= made <= 3,
                millis == (if doubled == 0 {
                    500int
                } else if doubled == 1 {
                    1000
                } else if doubled == 2 {
                    2000
                } else {
                    4000
                }),
            decreases made - doubled,
        {
            millis = millis * 2;
            doubled = doubled + 1;
        }
        Duration::from_millis(millis)
    }
}

/// Damping for windows that keep resizing themselves: once a window has adopted
/// too many small sizes in a row its tile holds.
#[derive(Debug)]
pub struct AdoptionCalm {
    pub episodes: Episodes,
}

/// Small adoptions before damping engages.
pub const ADOPTION_CALM_COUNT: usize = 5;

/// The trailing window of a burst, in seconds.
pub const ADOPTION_CALM_WINDOW: u64 = 60;

/// Changes of this many pixels are genuine.
pub const ADOPTION_CALM_PX: i32 = 8;

/// What the damping of adoptions tolerates.
pub open spec fn adoption_tolerance() -> Tolerance {
    Tolerance {
        count: ADOPTION_CALM_COUNT,
        window: Duration { nanos: 60_000_000_000 },
        pixels: ADOPTION_CALM_PX,
    }
}

impl Default for AdoptionCalm {
    fn default() -> (calm: AdoptionCalm)
        ensures
            forall|win: WinID| calm.episodes.history(win) == Seq::<Duration>::empty(),
            forall|win: WinID| !calm.episodes.reported(win),
    {
        AdoptionCalm { episodes: Episodes::new() }
    }
}

impl AdoptionCalm {
    /// Whether the running episode of a window has been reported.
    pub fn reported(&self, win: WinID) -> (reported: bool)
        ensures
            reported == self.episodes.reported(win),
    {
        self.episodes.is_reported(win)
    }

    /// Records an adoption that changed a window by `delta_px`; answers whether
    /// the window jitters and its tile holds instead.
    pub fn damp(&mut self, win: WinID, now: Duration, delta_px: i32) -> (held: bool)
        ensures
            forall|other: WinID|
                other != win ==> #[trigger] final(self).episodes.history(other) == old(
                    self,
                ).episodes.history(other),
            forall|other: WinID|
                other != win ==> #[trigger] final(self).episodes.reported(other) == old(
                    self,
                ).episodes.reported(other),
            delta_px >= ADOPTION_CALM_PX ==> !held && final(self).episodes.history(win) == Seq::<
                Duration,
            >::empty() && !final(self).episodes.reported(win),
            delta_px < ADOPTION_CALM_PX ==> {
                &&& final(self).episodes.history(win) == history_after(
                    old(self).episodes.history(win),
                    now,
                    adoption_tolerance().window,
                )
                &&& held == (final(self).episodes.history(win).len() > ADOPTION_CALM_COUNT)
                &&& final(self).episodes.reported(win) == reported_after(
                    old(self).episodes.history(win),
                    old(self).episodes.reported(win),
                    now,
                    adoption_tolerance(),
                )
            },
    {
        let tolerance = Tolerance {
            count: ADOPTION_CALM_COUNT,
            window: Duration::from_secs(ADOPTION_CALM_WINDOW),
            pixels: ADOPTION_CALM_PX,
        };
        let held = self.episodes.damp(win, now, delta_px, tolerance);
        assert forall|other: WinID| other != win implies #[trigger] self.episodes.reported(other)
            == old(self).episodes.reported(other) by {
            assert(self.episodes.history(other) == old(self).episodes.history(other));
        }
        held
    }
}

/// Put back the state that windows had before the last exit.
pub struct RestoreWindowState;

/// Windows that were found and are to be managed.
#[derive(Debug)]
pub struct SpawnWindowTrigger(pub Vec<WinID>);

/// The display whose dock and menu bar are to be read.
#[derive(Clone, Copy, Debug, PartialEq, Eq, Structural)]
pub struct ReadDisplayProperties(pub Entity);

/// An event that a rule puts on the stream.
#[derive(Clone, Copy, Debug, PartialEq, Eq, Structural)]
pub enum Message {
    MouseMoved { point: Origin },
    WindowFocused { window_id: WinID },
    Command { command: Command },
}

/// Puts an event on the stream.
#[derive(Clone, Copy, Debug, PartialEq, Eq, Structural)]
pub struct SendMessageTrigger(pub Message);

/// Raise a window, alone or with its strip behind it.
#[derive(Clone, Copy, Debug, PartialEq, Eq, Structural)]
pub struct RaiseWindow {
    pub entity: Entity,
    pub with_strip: bool,
}

/// The settings that apply to one window, the most specific first.
#[derive(Debug)]
pub struct WindowProperties {
    pub params: Vec<WindowParams>,
}

/// The first setting that says whether windows float.
pub open spec fn floating_setting(params: Seq<WindowParams>) -> Option<bool>
    decreases params.len(),
{
    if params.len() == 0 {
        None
    } else if params[0].floating is Some {
        params[0].floating
    } else {
        floating_setting(params.drop_first())
    }
}

/// The first setting that names a column to insert at.
pub open spec fn index_setting(params: Seq<WindowParams>) -> Option<usize>
    decreases params.len(),
{
    if params.len() == 0 {
        None
    } else if params[0].index is Some {
        params[0].index
    } else {
        index_setting(params.drop_first())
    }
}

/// The first setting that says whether windows stay unfocused.
pub open spec fn dont_focus_setting(params: Seq<WindowParams>) -> Option<bool>
    decreases params.len(),
{
    if params.len() == 0 {
        None
    } else if params[0].dont_focus is Some {
        params[0].dont_focus
    } else {
        dont_focus_setting(params.drop_first())
    }
}

/// The first setting of the vertical padding.
pub open spec fn vertical_setting(params: Seq<WindowParams>) -> Option<i32>
    decreases params.len(),
{
    if params.len() == 0 {
        None
    } else if params[0].vertical_padding is Some {
        params[0].vertical_padding
    } else {
        vertical_setting(params.drop_first())
    }
}

/// The first setting of the horizontal padding.
pub open spec fn horizontal_setting(params: Seq<WindowParams>) -> Option<i32>
    decreases params.len(),
{
    if params.len() == 0 {
        None
    } else if params[0].horizontal_padding is Some {
        params[0].horizontal_padding
    } else {
        horizontal_setting(params.drop_first())
    }
}

/// The passed-through keys of the first `n` settings, in order.
pub open spec fn passthrough_to(params: Seq<WindowParams>, n: int) -> Seq<(u8, u32)>
    decreases n,
{
    if n <= 0 {
        Seq::empty()
    } else {
        passthrough_to(params, n - 1) + params[n - 1].passthrough@
    }
}

impl WindowProperties {
    /// The settings found for a window's title and bundle.
    pub fn new(params: Vec<WindowParams>) -> (properties: WindowProperties)
        ensures
            properties.params == params,
    {
        WindowProperties { params }
    }

    pub fn floating(&self) -> (floats: bool)
        ensures
            floats == (floating_setting(self.params@) == Some(true)),
    {
        let mut i: usize = 0;
        assert(self.params@.skip(0) =~= self.params@);
        while i < self.params.len()
            invariant
                i <= self.params.len(),
                floating_setting(self.params@) == floating_setting(self.params@.skip(i as int)),
            decreases self.params.len() - i,
        {
            assert(self.params@.skip(i as int).drop_first() =~= self.params@.skip(i as int + 1));
            if let Some(value) = self.params[i].floating {
                return value;
            }
            i = i + 1;
        }
        false
    }

    pub fn insertion(&self) -> (index: Option<usize>)
        ensures
            index == index_setting(self.params@),
    {
        let mut i: usize = 0;
        assert(self.params@.skip(0) =~= self.params@);
        while i < self.params.len()
            invariant
                i <= self.params.len(),
                index_setting(self.params@) == index_setting(self.params@.skip(i as int)),
            decreases self.params.len() - i,
        {
            assert(self.params@.skip(i as int).drop_first() =~= self.params@.skip(i as int + 1));
            if self.params[i].index.is_some() {
                return self.params[i].index;
            }
            i = i + 1;
        }
        None
    }

    pub fn dont_focus(&self) -> (unfocused: bool)
        ensures
            unfocused == (dont_focus_setting(self.params@) == Some(true)),
    {
        let mut i: usize = 0;
        assert(self.params@.skip(0) =~= self.params@);
        while i < self.params.len()
            invariant
                i <= self.params.len(),
                dont_focus_setting(self.params@) == dont_focus_setting(
                    self.params@.skip(i as int),
                ),
            decreases self.params.len() - i,
        {
            assert(self.params@.skip(i as int).drop_first() =~= self.params@.skip(i as int + 1));
            if let Some(value) = self.params[i].dont_focus {
                return value;
            }
            i = i + 1;
        }
        false
    }

    pub fn vertical_padding(&self) -> (padding: i32)
        ensures
            padding == vertical_setting(self.params@).unwrap_or(0),
    {
        let mut i: usize = 0;
        assert(self.params@.skip(0) =~= self.params@);
        while i < self.params.len()
            invariant
                i <= self.params.len(),
                vertical_setting(self.params@) == vertical_setting(self.params@.skip(i as int)),
            decreases self.params.len() - i,
        {
            assert(self.params@.skip(i as int).drop_first() =~= self.params@.skip(i as int + 1));
            if let Some(value) = self.params[i].vertical_padding {
                return value;
            }
            i = i + 1;
        }
        0
    }

    pub fn horizontal_padding(&self) -> (padding: i32)
        ensures
            padding == horizontal_setting(self.params@).unwrap_or(0),
    {
        let mut i: usize = 0;
        assert(self.params@.skip(0) =~= self.params@);
        while i < self.params.len()
            invariant
                i <= self.params.len(),
                horizontal_setting(self.params@) == horizontal_setting(
                    self.params@.skip(i as int),
                ),
            decreases self.params.len() - i,
        {
            assert(self.params@.skip(i as int).drop_first() =~= self.params@.skip(i as int + 1));
            if let Some(value) = self.params[i].horizontal_padding {
                return value;
            }
            i = i + 1;
        }
        0
    }

    /// The keys that go to the window untouched, over all settings.
    pub fn passthrough_keys(&self) -> (keys: Vec<(u8, u32)>)
        ensures
            keys@ == passthrough_to(self.params@, self.params@.len() as int),
    {
        let mut keys: Vec<(u8, u32)> = Vec::new();
        let mut i: usize = 0;
        while i < self.params.len()
            invariant
                i <= self.params.len(),
                keys@ == passthrough_to(self.params@, i as int),
            decreases self.params.len() - i,
        {
            let more = &self.params[i].passthrough;
            let ghost before = keys@;
            let mut j: usize = 0;
            while j < more.len()
                invariant
                    j <= more.len(),
                    keys@ == before + more@.take(j as int),
                decreases more.len() - j,
            {
                keys.push(more[j]);
                assert(before + more@.take(j as int + 1) =~= (before + more@.take(j as int)).push(
                    more@[j as int],
                ));
                j = j + 1;
            }
            assert(more@.take(j as int) =~= more@);
            i = i + 1;
        }
        keys
    }
}

/// A request against the window manager's state or the window server.
#[derive(Clone, Copy, Debug, PartialEq, Eq, Structural)]
pub enum Request {
    /// Move a window or a strip.
    Reposition { entity: Entity, origin: Origin },
    /// Give a window a new size.
    Resize { entity: Entity, size: Size },
    /// Confirm a landing that nobody drove.
    Verify { entity: Entity },
    /// Lay the strip out again around a window.
    Reshuffle { entity: Entity, force: bool },
    /// Scroll the strip until a window is in view.
    Reveal { entity: Entity, snap: bool },
    /// Give a window the focus.
    Focus { entity: Entity, raise: bool },
    /// Raise a window without giving it the focus.
    Raise { entity: Entity, with_strip: bool },
    /// Put the mouse pointer somewhere.
    WarpMouse { point: Origin },
    /// Make a display the active one.
    ActivateDisplay { display: Entity },
    /// Make a strip the one on screen.
    ActivateStrip { strip: Entity },
    /// Take a window out of the tiled layout.
    Float { entity: Entity },
    /// Put a window back under the tiled layout.
    Manage { entity: Entity },
    /// Remember that a window fills the width of its display.
    FillWidth { entity: Entity },
    /// Forget that a window fills the width of its display.
    ForgetWidth { entity: Entity },
    /// Remember that a strip was placed by hand, with the mark of its shape that the
    /// request comes with.
    PinOffset { strip: Entity },
    /// Refresh the size of a window once its new display has settled, when the
    /// timeout runs out. The width keeps its share of the width it was taken from,
    /// if that is given.
    RefreshSize {
        entity: Entity,
        display: Entity,
        width: i32,
        source_width: Option<i32>,
        timeout: Timeout,
    },
    /// Reveal a window later, once its strip has settled.
    DeferReveal { entity: Entity, deadline: Duration },
    /// Give up a reveal that was to come later.
    DropReveal { entity: Entity },
    /// Remember that the mouse button is down on a window, until the timeout runs
    /// out, and forget any other on which it was.
    Hold { entity: Entity, display_armed: bool, scroll_armed: bool, timeout: Timeout },
    /// Tell the rest of the pipeline that a window moved.
    WindowMoved { window: WinID },
    /// Deliver a focus event again.
    WindowFocused { window: WinID },
    /// End the glide of a strip.
    DropGlide { strip: Entity },
    /// Reveal the nearest window of a strip that a drag let go.
    ArmSettle { strip: Entity },
    /// Give up the reveal that the end of a drag asked for.
    DropSettle { strip: Entity },
    /// Forget that a strip was placed by hand.
    UnpinOffset { strip: Entity },
    /// Remember that a window is minimized.
    Minimize { entity: Entity },
    /// Put the windows of a strip in their slots at once, for a moment.
    SnapStrip { strip: Entity },
    /// Remember that a window has the focus.
    MarkFocused { entity: Entity },
}

/// The requests issued so far, in order.
#[derive(Debug)]
pub struct Requests {
    pub list: Vec<Request>,
}

impl View for Requests {
    type V = Seq<Request>;

    open spec fn view(&self) -> Seq<Request> {
        self.list@
    }
}

/// The requests that giving a window this size takes: none for a size that is
/// not positive on both axes.
pub open spec fn resizing(entity: Entity, size: Size) -> Seq<Request> {
    if size.x <= 0 || size.y <= 0 {
        Seq::empty()
    } else {
        seq![Request::Resize { entity, size }]
    }
}

impl Requests {
    pub fn new() -> (requests: Requests)
        ensures
            requests@ == Seq::<Request>::empty(),
    {
        Requests { list: Vec::new() }
    }

    pub fn push(&mut self, request: Request)
        ensures
            final(self)@ == old(self)@.push(request),
    {
        self.list.push(request);
    }

    pub fn reposition_entity(&mut self, entity: Entity, origin: Origin)
        ensures
            final(self)@ == old(self)@.push(Request::Reposition { entity, origin }),
    {
        self.push(Request::Reposition { entity, origin });
    }

    /// Asks for a new size; a size that is not positive asks for nothing.
    pub fn resize_entity(&mut self, entity: Entity, size: Size)
        ensures
            final(self)@ == old(self)@ + resizing(entity, size),
    {
        if size.x <= 0 || size.y <= 0 {
            assert(self@ =~= old(self)@ + resizing(entity, size));
            return;
        }
        self.push(Request::Resize { entity, size });
        assert(self@ =~= old(self)@ + resizing(entity, size));
    }

    pub fn ensure_verifying(&mut self, entity: Entity)
        ensures
            final(self)@ == old(self)@.push(Request::Verify { entity }),
    {
        self.push(Request::Verify { entity });
    }

    pub fn reshuffle_around(&mut self, entity: Entity)
        ensures
            final(self)@ == old(self)@.push(Request::Reshuffle { entity, force: false }),
    {
        self.push(Request::Reshuffle { entity, force: false });
    }

    pub fn reshuffle_around_forced(&mut self, entity: Entity)
        ensures
            final(self)@ == old(self)@.push(Request::Reshuffle { entity, force: true }),
    {
        self.push(Request::Reshuffle { entity, force: true });
    }

    pub fn ensure_visible(&mut self, entity: Entity)
        ensures
            final(self)@ == old(self)@.push(Request::Reveal { entity, snap: false }),
    {
        self.ensure_visible_snap(entity, false);
    }

    pub fn ensure_visible_snap(&mut self, entity: Entity, snap: bool)
        ensures
            final(self)@ == old(self)@.push(Request::Reveal { entity, snap }),
    {
        self.push(Request::Reveal { entity, snap });
    }

    pub fn focus_entity(&mut self, entity: Entity, raise: bool)
        ensures
            final(self)@ == old(self)@.push(Request::Focus { entity, raise }),
    {
        self.push(Request::Focus { entity, raise });
    }
}

} // verus!
