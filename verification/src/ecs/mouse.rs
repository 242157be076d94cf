//! What the mouse does: hovering, grabbing, dragging, dropping, resizing, and
//! jumping over the edge of a display.
use vstd::prelude::*;

pub mod drag;
pub mod grip;
pub mod leaps;
pub mod slots;
pub mod warp;

use crate::commands::displays::only_columns_changed;
use crate::ecs::layout::membership::{closing_takes_a_column, opening_adds_a_column, windows_in};
use crate::ecs::layout::{column_has, column_of, strip_has, windows_to, ColumnView, LayoutStrip};
use crate::ecs::mouse::drag::{drop_slot, drop_slot_index};
use crate::ecs::params::{
    focus_of, frame_of, holds_window, is_window, owner_index, tiled, GlobalState, StripEntry,
    WindowRecord, Windows,
};
use crate::ecs::{DockPosition, Request, Requests, Timeout};
use crate::geometry::{clamp_i32, clamped, fits, Entity, IRect, Origin, WinID};
use crate::manager::{Display, EdgePadding};
use crate::seqs::{any_where, find_where, first_from, first_where, lemma_first_from};
use crate::time::Duration;

verus! {

/// The plugin that answers the mouse.
pub struct MouseEventsPlugin;

/// The side of the square at the bottom right corner of a display in which the
/// pointer causes no focus: the sliver of a hidden workspace is parked there.
pub const CORNER_DEAD_ZONE_PX: i32 = 30;

/// The height of the header of a window that shows no toolbar of its own.
pub const TITLEBAR_HEIGHT_PX: i32 = 28;

/// Presses this near to the left, right or top edge resize the window.
pub const RESIZE_MARGIN_PX: i32 = 6;

/// How long a window stays held where no release comes, in milliseconds.
pub const HOLD_TIMEOUT_MS: u64 = 5_000;

/// The keyboard modifiers held, as bits.
pub type Modifiers = u32;

/// What the mouse did.
#[derive(Clone, Copy, Debug, PartialEq, Eq, Structural)]
pub enum PointerEvent {
    Down { point: Origin, modifiers: Modifiers },
    Up,
    Dragged { point: Origin, modifiers: Modifiers },
    Moved { point: Origin, modifiers: Modifiers },
}

/// What a press finds: the window under it.
#[derive(Clone, Copy, Debug, PartialEq, Eq, Structural)]
pub struct PressTarget {
    pub full_screen: bool,
    /// The window is a sheet or a drawer.
    pub child: bool,
    pub frame: IRect,
    pub horizontal_padding: i32,
    pub vertical_padding: i32,
    pub toolbar: Option<IRect>,
}

impl PressTarget {
    /// The edges of the window itself, without the padding around it.
    pub open spec fn left(self) -> int {
        self.frame.min.x + self.horizontal_padding
    }

    pub open spec fn top(self) -> int {
        self.frame.min.y + self.vertical_padding
    }

    pub open spec fn right(self) -> int {
        self.frame.max.x - self.horizontal_padding
    }

    /// The point is on the header: clear of the edges that resize the window,
    /// and inside the toolbar, or inside the strip at the top for a window
    /// without one.
    pub open spec fn on_header(self, point: Origin) -> bool {
        &&& !self.full_screen
        &&& !self.child
        &&& point.x >= self.left() + RESIZE_MARGIN_PX
        &&& point.x < self.right() - RESIZE_MARGIN_PX
        &&& point.y >= self.top() + RESIZE_MARGIN_PX
        &&& match self.toolbar {
            Some(toolbar) => toolbar.holds(point),
            None => point.y - self.top() < TITLEBAR_HEIGHT_PX,
        }
    }
}

/// Whether a press landed on the header of a window, where it grabs the window.
/// Fullscreen windows, sheets and drawers have none.
pub fn press_is_on_titlebar(point: Origin, target: &PressTarget) -> (header: bool)
    ensures
        header == target.on_header(point),
{
    if target.full_screen || target.child {
        return false;
    }
    let left: i64 = target.frame.min.x as i64 + target.horizontal_padding as i64;
    let top: i64 = target.frame.min.y as i64 + target.vertical_padding as i64;
    let right: i64 = target.frame.max.x as i64 - target.horizontal_padding as i64;
    let x: i64 = point.x as i64;
    let y: i64 = point.y as i64;
    if x < left + RESIZE_MARGIN_PX as i64 || x >= right - RESIZE_MARGIN_PX as i64 || y < top
        + RESIZE_MARGIN_PX as i64 {
        return false;
    }
    match target.toolbar {
        Some(toolbar) => toolbar.contains(point),
        None => y - top < TITLEBAR_HEIGHT_PX as i64,
    }
}

/// Where a drag on a header leaves the strip: its handle and its new offset. The
/// scroll state is to rest at this offset, without velocity.
#[derive(Clone, Copy, Debug, PartialEq, Eq, Structural)]
pub struct ScrollDrive {
    pub strip: Entity,
    pub offset: Origin,
    pub at: Duration,
}

/// The strip that holds the window, moved by the drag, pixel by pixel.
pub open spec fn scrolled(
    target: Entity,
    delta_x: i32,
    strips: Seq<StripEntry>,
    now: Duration,
) -> Option<ScrollDrive> {
    match find_where(strips, holds_window(target)) {
        Some(entry) => Some(
            ScrollDrive {
                strip: entry.entity,
                offset: Origin { x: (entry.position.x + delta_x) as i32, y: entry.position.y },
                at: now,
            },
        ),
        None => None,
    }
}

/// Moves the strip that holds the window with the pointer, pixel by pixel. The
/// strip then no longer counts as placed by hand.
pub fn drive_scroll_strip(
    target: Entity,
    delta_x: i32,
    strips: &Vec<StripEntry>,
    now: Duration,
    requests: &mut Requests,
) -> (drive: Option<ScrollDrive>)
    requires
        find_where(strips@, holds_window(target)) matches Some(entry) ==> fits(
            entry.position.x + delta_x,
        ),
    ensures
        drive == scrolled(target, delta_x, strips@, now),
        final(requests)@ == (match drive {
            Some(driven) => old(requests)@.push(Request::UnpinOffset { strip: driven.strip }),
            None => old(requests)@,
        }),
{
    match owner_index(target, strips) {
        Some(at) => {
            let entry = &strips[at];
            requests.push(Request::UnpinOffset { strip: entry.entity });
            Some(
                ScrollDrive {
                    strip: entry.entity,
                    offset: Origin { x: entry.position.x + delta_x, y: entry.position.y },
                    at: now,
                },
            )
        },
        None => None,
    }
}

/// The point lies in the bottom right corner of the area.
pub open spec fn in_dead_corner(point: Origin, area: IRect) -> bool {
    point.x >= area.max.x - CORNER_DEAD_ZONE_PX && point.y >= area.max.y - CORNER_DEAD_ZONE_PX
}

/// Whether a point lies in the corner of the display's usable area in which it
/// causes no focus.
pub fn is_in_corner_dead_zone(
    point: Origin,
    display: &Display,
    dock: Option<DockPosition>,
    padding: EdgePadding,
) -> (dead: bool)
    requires
        display.usable(dock, padding),
    ensures
        dead == (point.x >= display.usable_max_x(dock, padding) - CORNER_DEAD_ZONE_PX && point.y
            >= display.usable_max_y(dock, padding) - CORNER_DEAD_ZONE_PX),
{
    let area = display.actual_display_bounds(dock, padding);
    point.x as i64 >= area.max.x as i64 - CORNER_DEAD_ZONE_PX as i64 && point.y as i64
        >= area.max.y as i64 - CORNER_DEAD_ZONE_PX as i64
}

/// The condition that a display, with its usable area, holds the point in its
/// dead corner.
pub open spec fn dead_on(point: Origin) -> spec_fn((IRect, IRect)) -> bool {
    |display: (IRect, IRect)| display.0.holds(point) && in_dead_corner(point, display.1)
}

/// The condition of covering the point without being that window.
pub open spec fn also_covers(point: Origin, id: WinID) -> spec_fn((WinID, IRect)) -> bool {
    |window: (WinID, IRect)| window.0 != id && window.1.holds(point)
}

/// The pointer is inside the focused window, and inside no other.
pub open spec fn inside_focused(
    point: Origin,
    focused: Option<(WinID, IRect)>,
    windows: Seq<(WinID, IRect)>,
) -> bool {
    focused matches Some((id, frame)) && frame.holds(point) && !any_where(
        windows,
        also_covers(point, id),
    )
}

/// What hovering depends on.
#[derive(Clone, Copy, Debug, PartialEq, Eq, Structural)]
pub struct HoverSettings {
    /// The modifiers of this event resize windows instead.
    pub resizing: bool,
    /// The setting that lets the focus follow the mouse.
    pub focus_follows_mouse: bool,
}

/// The least time between two questions to the window server, in milliseconds.
pub const FIND_WINDOW_THROTTLE: u64 = 50;

/// Whether a hover is worth a question to the window server.
pub open spec fn hover_counts(
    point: Origin,
    settings: HoverSettings,
    displays: Seq<(IRect, IRect)>,
    state: GlobalState,
    focused: Option<(WinID, IRect)>,
    windows: Seq<(WinID, IRect)>,
    last: Option<Duration>,
    now: Duration,
) -> bool {
    &&& !settings.resizing
    &&& !any_where(displays, dead_on(point))
    &&& settings.focus_follows_mouse
    &&& state.focus_follows_mouse_id is None
    &&& !inside_focused(point, focused, windows)
    &&& last matches Some(at) ==> now.minus(at) >= 50_000_000
}

fn any_dead(point: Origin, displays: &Vec<(IRect, IRect)>) -> (dead: bool)
    ensures
        dead == any_where(displays@, dead_on(point)),
{
    let mut i: usize = 0;
    while i < displays.len()
        invariant
            i <= displays.len(),
            first_where(displays@, dead_on(point)) == first_from(
                displays@,
                dead_on(point),
                i as int,
            ),
        decreases displays.len() - i,
    {
        let (bounds, area) = displays[i];
        if bounds.contains(point) && point.x as i64 >= area.max.x as i64
            - CORNER_DEAD_ZONE_PX as i64 && point.y as i64 >= area.max.y as i64
            - CORNER_DEAD_ZONE_PX as i64 {
            return true;
        }
        i = i + 1;
    }
    false
}

fn is_inside_focused(
    point: Origin,
    focused: Option<(WinID, IRect)>,
    windows: &Vec<(WinID, IRect)>,
) -> (inside: bool)
    ensures
        inside == inside_focused(point, focused, windows@),
{
    let id = match focused {
        Some((id, frame)) => if frame.contains(point) {
            id
        } else {
            return false;
        },
        None => {
            return false;
        },
    };
    let mut i: usize = 0;
    while i < windows.len()
        invariant
            i <= windows.len(),
            focused matches Some((focused_id, frame)) && focused_id == id && frame.holds(point),
            first_where(windows@, also_covers(point, id)) == first_from(
                windows@,
                also_covers(point, id),
                i as int,
            ),
        decreases windows.len() - i,
    {
        if windows[i].0 != id && windows[i].1.contains(point) {
            return false;
        }
        i = i + 1;
    }
    true
}

/// Whether the pointer's new place is worth asking the window server which
/// window is under it; the time of the question is then remembered. It is not
/// while the mouse resizes, in a dead corner, without the setting, while another
/// hover is under way, inside the focused window alone, or too soon. Windows come
/// with their number and the frame that the window server shows.
pub fn mouse_moved_trigger(
    point: Origin,
    settings: HoverSettings,
    displays: &Vec<(IRect, IRect)>,
    state: GlobalState,
    focused: Option<(WinID, IRect)>,
    windows: &Vec<(WinID, IRect)>,
    last: &mut Option<Duration>,
    now: Duration,
) -> (ask: bool)
    ensures
        ask == hover_counts(
            point,
            settings,
            displays@,
            state,
            focused,
            windows@,
            *old(last),
            now,
        ),
        *final(last) == (if ask {
            Some(now)
        } else {
            *old(last)
        }),
{
    if settings.resizing || any_dead(point, displays) || !settings.focus_follows_mouse
        || state.focus_follows_mouse_id.is_some() || is_inside_focused(point, focused, windows) {
        return false;
    }
    if let Some(at) = *last {
        if now.saturating_sub(at).nanos < Duration::from_millis(FIND_WINDOW_THROTTLE).nanos {
            return false;
        }
    }
    *last = Some(now);
    true
}

/// Gives the focus to the window that the window server found under the pointer,
/// without raising it and without moving its strip.
pub fn hover_focus(
    window_id: WinID,
    windows: &Windows,
    state: &mut GlobalState,
    requests: &mut Requests,
)
    ensures
        ({
            let taken = focus_of(windows.all@) matches Some(window) && window.id == window_id;
            match find_where(windows.all@, is_window(window_id)) {
                Some(window) if !taken => {
                    &&& *final(state) == (GlobalState {
                        focus_follows_mouse_id: Some(window.id),
                        skip_reshuffle: true,
                        initializing: old(state).initializing,
                    })
                    &&& final(requests)@ == old(requests)@.push(
                        Request::Focus { entity: window.entity, raise: false },
                    )
                },
                _ => *final(state) == *old(state) && final(requests)@ == old(requests)@,
            }
        }),
{
    if let Some(window) = windows.focused() {
        if window.id == window_id {
            return;
        }
    }
    if let Some(window) = windows.find(window_id) {
        state.set_skip_reshuffle(true);
        state.set_ffm_flag(Some(window.id));
        requests.focus_entity(window.entity, false);
    }
}

/// The modifiers held during the running drag.
#[derive(Clone, Copy, Debug, PartialEq, Eq, Structural)]
pub struct DragModifierState {
    pub current: Modifiers,
}

impl Default for DragModifierState {
    fn default() -> (state: DragModifierState)
        ensures
            state.current == 0,
    {
        DragModifierState { current: 0 }
    }
}

impl DragModifierState {
    /// Follows the modifiers of presses and drags; a release clears them.
    pub fn track(&mut self, event: PointerEvent)
        ensures
            final(self).current == (match event {
                PointerEvent::Down { modifiers, .. } => modifiers,
                PointerEvent::Dragged { modifiers, .. } => modifiers,
                PointerEvent::Up => 0,
                PointerEvent::Moved { .. } => old(self).current,
            }),
    {
        match event {
            PointerEvent::Down { modifiers, .. } => {
                self.current = modifiers;
            },
            PointerEvent::Dragged { modifiers, .. } => {
                self.current = modifiers;
            },
            PointerEvent::Up => {
                self.current = 0;
            },
            PointerEvent::Moved { .. } => {},
        }
    }
}

/// The running drag: how far it went, and the windows of the last release that
/// are still settling. The velocity that the release leaves the strip with is
/// kept beside this state.
#[derive(Debug)]
pub struct DragScrollState {
    /// Pixels travelled since the press.
    pub distance_px: u64,
    pub members: Vec<Entity>,
    pub settle_deadline: Option<Duration>,
    pub last_sample_at: Option<Duration>,
}

impl Default for DragScrollState {
    fn default() -> (state: DragScrollState)
        ensures
            state.distance_px == 0,
            state.members@ == Seq::<Entity>::empty(),
            state.settle_deadline is None,
            state.last_sample_at is None,
    {
        DragScrollState {
            distance_px: 0,
            members: Vec::new(),
            settle_deadline: None,
            last_sample_at: None,
        }
    }
}

impl DragScrollState {
    /// Released windows are listed, and their time has not run out.
    pub open spec fn settling(self, now: Duration) -> bool {
        self.members@.len() > 0 && (self.settle_deadline matches Some(deadline) && now.nanos
            < deadline.nanos)
    }

    /// Whether the windows of the last release are still settling.
    pub fn settle_active(&self, now: Duration) -> (active: bool)
        ensures
            active == self.settling(now),
    {
        match self.settle_deadline {
            Some(deadline) => now.nanos < deadline.nanos && self.members.len() > 0,
            None => false,
        }
    }
}

/// How long released windows may settle, in milliseconds.
pub const SCROLL_SETTLE_GRACE: u64 = 1000;

/// When released windows are first looked at, in milliseconds.
pub const SCROLL_SETTLE_DELAY: u64 = 200;

/// When they are looked at again, in milliseconds.
pub const SCROLL_SETTLE_STEP: u64 = 300;

/// Shields released windows from late echoes of the drag: they are listed until
/// the deadline. Answers when they are to be looked at.
pub fn arm_release_grace(members: Vec<Entity>, state: &mut DragScrollState, now: Duration) -> (check:
    Duration)
    requires
        now.nanos + 1_000_000_000 <= u128::MAX,
    ensures
        final(state).members@ == members@,
        final(state).settle_deadline == Some(
            Duration { nanos: (now.nanos + 1_000_000_000) as u128 },
        ),
        final(state).distance_px == old(state).distance_px,
        final(state).last_sample_at == old(state).last_sample_at,
        check.nanos == now.nanos + 200_000_000,
{
    state.members = members;
    state.settle_deadline = Some(now.plus(Duration::from_millis(SCROLL_SETTLE_GRACE)));
    now.plus(Duration::from_millis(SCROLL_SETTLE_DELAY))
}

/// What the window server says of a window that settles.
#[derive(Clone, Copy, Debug, PartialEq, Eq, Structural)]
pub enum SettleRead {
    /// The window is gone.
    Gone,
    /// The window could not be read.
    Unread,
    /// Where the window is, and where its slot is.
    Live { live: Origin, slot: Origin },
}

/// The window is still to be watched: it could not be read, or it is off its
/// slot by more than a pixel.
pub open spec fn unsettled(read: SettleRead) -> bool {
    match read {
        SettleRead::Gone => false,
        SettleRead::Unread => true,
        SettleRead::Live { live, slot } => !live.near(slot, 1),
    }
}

/// Those of the first `n` members that are still to be watched.
pub open spec fn unsettled_to(members: Seq<Entity>, reads: Seq<SettleRead>, n: int) -> Seq<Entity>
    decreases n,
{
    if n <= 0 {
        Seq::empty()
    } else if unsettled(reads[n - 1]) {
        unsettled_to(members, reads, n - 1).push(members[n - 1])
    } else {
        unsettled_to(members, reads, n - 1)
    }
}

/// Those of the first `n` members that have to be pushed back into their slots.
pub open spec fn pushes_to(members: Seq<Entity>, reads: Seq<SettleRead>, n: int) -> Seq<
    (Entity, Origin),
>
    decreases n,
{
    if n <= 0 {
        Seq::empty()
    } else {
        match reads[n - 1] {
            SettleRead::Live { live, slot } if !live.near(slot, 1) => pushes_to(
                members,
                reads,
                n - 1,
            ).push((members[n - 1], slot)),
            _ => pushes_to(members, reads, n - 1),
        }
    }
}

/// The time of the released windows has run out.
pub open spec fn settle_over(state: DragScrollState, now: Duration) -> bool {
    state.settle_deadline matches Some(deadline) && now.nanos >= deadline.nanos
}

/// Looks at the released windows: those off their slots are pushed back, and the
/// look is repeated while any is left and the time has not run out. Answers the
/// pushes, and whether to look again.
pub fn scroll_settle_check(state: &mut DragScrollState, reads: &Vec<SettleRead>, now: Duration) -> (out:
    (Vec<(Entity, Origin)>, bool))
    requires
        reads@.len() == old(state).members@.len(),
    ensures
        final(state).distance_px == old(state).distance_px,
        final(state).last_sample_at == old(state).last_sample_at,
        if old(state).members@.len() == 0 || settle_over(*old(state), now) {
            &&& out.0@ == Seq::<(Entity, Origin)>::empty()
            &&& !out.1
            &&& final(state).members@ == Seq::<Entity>::empty()
            &&& final(state).settle_deadline is None
        } else {
            let members = old(state).members@;
            &&& out.0@ == pushes_to(members, reads@, members.len() as int)
            &&& final(state).members@ == unsettled_to(members, reads@, members.len() as int)
            &&& out.1 == (final(state).members@.len() > 0)
            &&& final(state).settle_deadline == (if out.1 {
                old(state).settle_deadline
            } else {
                None
            })
        },
{
    let mut pushes: Vec<(Entity, Origin)> = Vec::new();
    let mut over: bool = state.members.len() == 0;
    if let Some(deadline) = state.settle_deadline {
        if now.nanos >= deadline.nanos {
            over = true;
        }
    }
    if over {
        state.members = Vec::new();
        state.settle_deadline = None;
        return (pushes, false);
    }
    let mut pending: Vec<Entity> = Vec::new();
    let mut i: usize = 0;
    while i < state.members.len()
        invariant
            i <= state.members.len(),
            *state == *old(state),
            reads@.len() == state.members@.len(),
            pending@ == unsettled_to(state.members@, reads@, i as int),
            pushes@ == pushes_to(state.members@, reads@, i as int),
        decreases state.members.len() - i,
    {
        let member = state.members[i];
        match reads[i] {
            SettleRead::Gone => {},
            SettleRead::Unread => {
                pending.push(member);
            },
            SettleRead::Live { live, slot } => {
                if !live.is_near(slot, 1) {
                    pushes.push((member, slot));
                    pending.push(member);
                }
            },
        }
        i = i + 1;
    }
    let again: bool = pending.len() > 0;
    state.members = pending;
    if !again {
        state.settle_deadline = None;
    }
    (pushes, again)
}

/// The frame that a native drag shows: where the window was grabbed, moved along
/// with the pointer. It is for painting only and never moves a slot. The
/// velocity that a prediction rests on is kept beside this state.
#[derive(Clone, Copy, Debug, PartialEq, Eq, Structural)]
pub struct DragPaintState {
    pub target: Option<Entity>,
    pub grab_frame: Option<IRect>,
    pub offset: Origin,
    pub last_sample_at: Option<Duration>,
}

/// A pause longer than this resets the velocity of a drag, in milliseconds.
pub const PAINT_VELOCITY_GAP_RESET: u64 = 150;

/// A prediction leads by no more than this.
pub const PAINT_LEAD_CAP_PX: i32 = 64;

/// Samples older than this predict nothing, in milliseconds.
pub const PAINT_VELOCITY_STALE_AFTER: u64 = 150;

impl Default for DragPaintState {
    fn default() -> (paint: DragPaintState)
        ensures
            paint == DragPaintState::idle(),
    {
        DragPaintState {
            target: None,
            grab_frame: None,
            offset: Origin::zero(),
            last_sample_at: None,
        }
    }
}

impl DragPaintState {
    pub open spec fn idle() -> DragPaintState {
        DragPaintState {
            target: None,
            grab_frame: None,
            offset: Origin { x: 0, y: 0 },
            last_sample_at: None,
        }
    }

    /// The frame painted for a window.
    pub open spec fn painted(self, entity: Entity) -> Option<IRect> {
        if self.target != Some(entity) {
            None
        } else {
            match self.grab_frame {
                Some(grab) => Some(
                    IRect::spanning(
                        grab.min.spec_plus(self.offset),
                        grab.max.spec_plus(self.offset),
                    ),
                ),
                None => None,
            }
        }
    }

    /// The moved frame lies in the coordinate space.
    pub open spec fn wf(self) -> bool {
        self.grab_frame matches Some(grab) ==> grab.min.sum_fits(self.offset)
            && grab.max.sum_fits(self.offset)
    }

    /// Starts a drag.
    pub fn begin(&mut self, target: Entity, grab_frame: IRect)
        ensures
            *final(self) == (DragPaintState {
                target: Some(target),
                grab_frame: Some(grab_frame),
                offset: Origin { x: 0, y: 0 },
                last_sample_at: None,
            }),
            final(self).wf(),
    {
        self.target = Some(target);
        self.grab_frame = Some(grab_frame);
        self.offset = Origin::zero();
        self.last_sample_at = None;
    }

    /// Moves the frame with the pointer. Steps of another window are ignored.
    pub fn advance(&mut self, target: Entity, delta: Origin, now: Duration)
        requires
            old(self).target == Some(target) ==> old(self).offset.sum_fits(delta),
        ensures
            *final(self) == (if old(self).target == Some(target) {
                DragPaintState {
                    offset: old(self).offset.spec_plus(delta),
                    last_sample_at: Some(now),
                    ..*old(self)
                }
            } else {
                *old(self)
            }),
    {
        if self.target != Some(target) {
            return;
        }
        self.offset = self.offset.plus(delta);
        self.last_sample_at = Some(now);
    }

    /// The frame painted for a window, or none where no drag tracks it.
    pub fn frame_for(&self, entity: Entity) -> (frame: Option<IRect>)
        requires
            self.wf(),
        ensures
            frame == self.painted(entity),
    {
        if self.target != Some(entity) {
            return None;
        }
        match self.grab_frame {
            Some(grab) => Some(
                IRect::from_corners(grab.min.plus(self.offset), grab.max.plus(self.offset)),
            ),
            None => None,
        }
    }

    /// How far the frame is painted ahead: the predicted step, capped on each
    /// axis, or nothing without a fresh sample.
    pub open spec fn lead(self, now: Duration, step: Option<Origin>) -> Origin {
        match (self.last_sample_at, step) {
            (Some(last), Some(ahead)) => if now.minus(last) <= 150_000_000 {
                Origin {
                    x: clamped(
                        ahead.x as int,
                        -PAINT_LEAD_CAP_PX as int,
                        PAINT_LEAD_CAP_PX as int,
                    ) as i32,
                    y: clamped(
                        ahead.y as int,
                        -PAINT_LEAD_CAP_PX as int,
                        PAINT_LEAD_CAP_PX as int,
                    ) as i32,
                }
            } else {
                Origin { x: 0, y: 0 }
            },
            _ => Origin { x: 0, y: 0 },
        }
    }

    /// The painted frame moved ahead by a predicted step. Without a fresh
    /// sample, or without a step, it is the plain frame.
    pub fn predicted_frame_for(&self, entity: Entity, now: Duration, step: Option<Origin>) -> (frame:
        Option<IRect>)
        requires
            self.wf(),
            self.painted(entity) matches Some(base) ==> base.min.sum_fits(self.lead(now, step))
                && base.max.sum_fits(self.lead(now, step)),
        ensures
            frame == (match self.painted(entity) {
                Some(base) => Some(
                    IRect::spanning(
                        base.min.spec_plus(self.lead(now, step)),
                        base.max.spec_plus(self.lead(now, step)),
                    ),
                ),
                None => None,
            }),
    {
        let base = match self.frame_for(entity) {
            Some(base) => base,
            None => {
                return None;
            },
        };
        let lead = match (self.last_sample_at, step) {
            (Some(last), Some(ahead)) => if now.saturating_sub(last).nanos
                <= Duration::from_millis(PAINT_VELOCITY_STALE_AFTER).nanos {
                Origin {
                    x: clamp_i32(ahead.x, -PAINT_LEAD_CAP_PX, PAINT_LEAD_CAP_PX),
                    y: clamp_i32(ahead.y, -PAINT_LEAD_CAP_PX, PAINT_LEAD_CAP_PX),
                }
            } else {
                Origin::zero()
            },
            _ => Origin::zero(),
        };
        Some(IRect::from_corners(base.min.plus(lead), base.max.plus(lead)))
    }

    /// Ends the drag.
    pub fn clear(&mut self)
        ensures
            *final(self) == DragPaintState::idle(),
    {
        self.target = None;
        self.grab_frame = None;
        self.offset = Origin::zero();
        self.last_sample_at = None;
    }
}

/// A prediction never leads by more than its cap.
pub proof fn prediction_is_bounded(paint: DragPaintState, now: Duration, step: Option<Origin>)
    ensures
        -PAINT_LEAD_CAP_PX <= paint.lead(now, step).x <= PAINT_LEAD_CAP_PX,
        -PAINT_LEAD_CAP_PX <= paint.lead(now, step).y <= PAINT_LEAD_CAP_PX,
{
}

/// How a step of a drag enters its velocity.
#[derive(Clone, Copy, Debug, PartialEq, Eq, Structural)]
pub enum VelocitySample {
    /// The first step has no time to divide by.
    First,
    /// The step took `gap`; after a pause the velocity starts from rest.
    Fold { gap: Duration, reset: bool },
}

/// How a step at `now` enters the velocity of a drag whose last step was at
/// `last`.
pub fn velocity_sample(last: Option<Duration>, now: Duration) -> (sample: VelocitySample)
    ensures
        sample == (match last {
            None => VelocitySample::First,
            Some(at) => VelocitySample::Fold {
                gap: Duration { nanos: now.minus(at) as u128 },
                reset: now.minus(at) > 150_000_000,
            },
        }),
{
    match last {
        None => VelocitySample::First,
        Some(at) => {
            let gap = now.saturating_sub(at);
            VelocitySample::Fold {
                gap,
                reset: gap.nanos > Duration::from_millis(PAINT_VELOCITY_GAP_RESET).nanos,
            }
        },
    }
}

/// What a press on a window arms.
#[derive(Clone, Copy, Debug, PartialEq, Eq, Structural)]
pub struct PressOutcome {
    /// The held window, if the press hit one.
    pub held: Option<Entity>,
    /// The drag may take the window to another display.
    pub display_armed: bool,
    /// The drag scrolls the strip, and the native drag is swallowed.
    pub scroll_armed: bool,
}

/// What a press arms: the shortcut arms a drag to another display, and a plain
/// grab of a tiled window's header scrolls the strip.
pub open spec fn press_outcome(
    window: Option<WindowRecord>,
    shortcut: bool,
    scrolls_strip: bool,
    header: bool,
    windows: Seq<WindowRecord>,
) -> PressOutcome {
    match window {
        Some(found) => PressOutcome {
            held: Some(found.entity),
            display_armed: shortcut,
            scroll_armed: scrolls_strip && tiled(windows, found.entity) && !shortcut && header,
        },
        None => PressOutcome { held: None, display_armed: false, scroll_armed: false },
    }
}

/// The ends of the glides and the settling of the first `n` strips. Each comes with
/// whether it glides.
pub open spec fn halts_to(strips: Seq<(Entity, bool)>, n: int) -> Seq<Request>
    decreases n,
{
    if n <= 0 {
        Seq::empty()
    } else {
        let (strip, glides) = strips[n - 1];
        let before = if glides {
            halts_to(strips, n - 1).push(Request::DropGlide { strip })
        } else {
            halts_to(strips, n - 1)
        };
        before.push(Request::DropSettle { strip })
    }
}

/// Answers a press. It is explicit, so the strip may move again. A press on a
/// window takes over from any earlier drag or release: the strips on screen stop,
/// the window is held in place of what was held before, and its frame, as the
/// window server shows it, is tracked for painting. A hold whose release is lost
/// ends by itself.
pub fn mouse_down_trigger(
    under_pointer: Option<(WinID, IRect)>,
    strips: &Vec<(Entity, bool)>,
    shortcut: bool,
    scrolls_strip: bool,
    header: bool,
    windows: &Windows,
    scroll: &mut DragScrollState,
    paint: &mut DragPaintState,
    state: &mut GlobalState,
    requests: &mut Requests,
) -> (outcome: PressOutcome)
    ensures
        ({
            let window = match under_pointer {
                Some((id, _)) => find_where(windows.all@, is_window(id)),
                None => None,
            };
            &&& outcome == press_outcome(window, shortcut, scrolls_strip, header, windows.all@)
            &&& *final(state) == (GlobalState { skip_reshuffle: false, ..*old(state) })
            &&& match outcome.held {
                Some(entity) => {
                    &&& final(requests)@ == (old(requests)@ + halts_to(
                        strips@,
                        strips@.len() as int,
                    )).push(
                        Request::Hold {
                            entity,
                            display_armed: outcome.display_armed,
                            scroll_armed: outcome.scroll_armed,
                            timeout: Timeout::lasting(Duration::millis(HOLD_TIMEOUT_MS)),
                        },
                    )
                    &&& final(scroll).members@ == Seq::<Entity>::empty()
                    &&& final(scroll).settle_deadline is None
                    &&& final(scroll).distance_px == old(scroll).distance_px
                    &&& final(scroll).last_sample_at == old(scroll).last_sample_at
                    &&& under_pointer matches Some((_, grab)) && *final(paint) == (DragPaintState {
                        target: Some(entity),
                        grab_frame: Some(grab),
                        offset: Origin { x: 0, y: 0 },
                        last_sample_at: None,
                    })
                },
                None => final(requests)@ == old(requests)@ && *final(scroll) == *old(scroll)
                    && *final(paint) == *old(paint),
            }
        }),
{
    state.set_skip_reshuffle(false);
    let (found, grab) = match under_pointer {
        Some((id, grab)) => match windows.find(id) {
            Some(found) => (found, grab),
            None => {
                return PressOutcome { held: None, display_armed: false, scroll_armed: false };
            },
        },
        None => {
            return PressOutcome { held: None, display_armed: false, scroll_armed: false };
        },
    };
    let mut i: usize = 0;
    assert(requests@ =~= old(requests)@ + halts_to(strips@, 0));
    while i < strips.len()
        invariant
            i <= strips.len(),
            requests@ == old(requests)@ + halts_to(strips@, i as int),
        decreases strips.len() - i,
    {
        let (strip, glides) = strips[i];
        if glides {
            requests.push(Request::DropGlide { strip });
        }
        requests.push(Request::DropSettle { strip });
        i = i + 1;
        assert(requests@ =~= old(requests)@ + halts_to(strips@, i as int));
    }
    let entity = found.entity;
    paint.begin(entity, grab);
    scroll.members = Vec::new();
    scroll.settle_deadline = None;
    let scroll_armed = scrolls_strip && windows.is_tiled(entity) && !shortcut && header;
    let longest = Duration::from_millis(HOLD_TIMEOUT_MS);
    assert(longest == Duration::millis(HOLD_TIMEOUT_MS));
    requests.push(
        Request::Hold {
            entity,
            display_armed: shortcut,
            scroll_armed,
            timeout: Timeout::new(longest),
        },
    );
    PressOutcome { held: Some(entity), display_armed: shortcut, scroll_armed }
}

/// The place that a dropped window glides home to, or none where it is there to
/// within a pixel.
pub fn drop_home(frame: IRect, home: IRect) -> (target: Option<Origin>)
    ensures
        target == (if frame.min.near(home.min, 1) {
            None
        } else {
            Some(home.min)
        }),
{
    if frame.min.is_near(home.min, 1) {
        None
    } else {
        Some(home.min)
    }
}

/// The slot among the other columns that a slot among all columns stands for:
/// one past the dragged column moves down once that column is taken out.
pub open spec fn slot_without(slot: int, current: int) -> int {
    if slot > current {
        slot - 1
    } else {
        slot
    }
}

/// The columns after the one of `entity` was dropped at a slot.
pub open spec fn columns_reordered(columns: Seq<ColumnView>, entity: Entity, slot: int) -> Seq<
    ColumnView,
> {
    let current = column_of(columns, entity);
    let rest = columns.remove(current);
    let adjusted = slot_without(slot, current);
    rest.insert(
        if adjusted <= rest.len() {
            adjusted
        } else {
            rest.len() as int
        },
        columns[current],
    )
}

/// A column that is dropped at another slot keeps its windows, and the strip keeps
/// all of its own.
pub proof fn reordering_keeps_the_windows(columns: Seq<ColumnView>, entity: Entity, slot: int)
    requires
        strip_has(columns, entity),
        0 <= slot,
    ensures
        windows_in(columns_reordered(columns, entity, slot)).to_multiset() == windows_in(
            columns,
        ).to_multiset(),
{
    lemma_first_from(columns, column_has(entity), 0);
    let current = column_of(columns, entity);
    let rest = columns.remove(current);
    let adjusted = slot_without(slot, current);
    let at = if adjusted <= rest.len() {
        adjusted
    } else {
        rest.len() as int
    };
    closing_takes_a_column(columns, current);
    opening_adds_a_column(rest, at, columns[current]);
}

/// Where a drop of the dragged window lands on its own strip: by the place of the
/// window and the offset of the strip. There is no such place for a window without a
/// frame. `mid` is the slot in the middle of the strip that is nearest, with the scroll
/// that shows it.
pub open spec fn drop_on_strip(
    entity: Entity,
    entry: StripEntry,
    windows: Seq<WindowRecord>,
    mid: (usize, i32),
) -> Option<(int, int)> {
    match frame_of(windows, entity) {
        Some(frame) => Some(
            drop_slot(entry.strip@, entry.position.x, frame.min.x, Some(mid), windows),
        ),
        None => None,
    }
}

/// The slot that a drop of a window with a frame lands at.
pub open spec fn drop_index(
    entity: Entity,
    entry: StripEntry,
    windows: Seq<WindowRecord>,
    mid: (usize, i32),
) -> int {
    match drop_on_strip(entity, entry, windows, mid) {
        Some((index, _)) => index,
        None => 0,
    }
}

/// Whether a drop moves the dragged column: dropping it near its own slot leaves it
/// there.
pub open spec fn reorders(
    entity: Entity,
    entry: StripEntry,
    windows: Seq<WindowRecord>,
    mid: (usize, i32),
) -> bool {
    strip_has(entry.strip@, entity) && (drop_on_strip(entity, entry, windows, mid) matches Some(
        slot,
    ) && slot_without(slot.0, column_of(entry.strip@, entity)) != column_of(entry.strip@, entity))
}

/// Every number that a drop leads to fits its type.
pub open spec fn drop_fits(
    entity: Entity,
    entry: StripEntry,
    windows: Seq<WindowRecord>,
    mid: (usize, i32),
) -> bool {
    drop_on_strip(entity, entry, windows, mid) matches Some(slot) ==> fits(slot.1)
}

/// Moves the dragged column to the slot it was dropped at. Answers whether it
/// moved: dropping it near its own slot leaves it there.
pub fn try_reorder_column(
    entity: Entity,
    entry: &mut StripEntry,
    windows: &Windows,
    mid: (usize, i32),
) -> (moved: bool)
    requires
        windows.wf(),
        drop_fits(entity, *old(entry), windows.all@, mid),
    ensures
        moved == reorders(entity, *old(entry), windows.all@, mid),
        moved ==> final(entry).strip@ == columns_reordered(
            old(entry).strip@,
            entity,
            drop_index(entity, *old(entry), windows.all@, mid),
        ),
        !moved ==> *final(entry) == *old(entry),
        *final(entry) == (StripEntry { strip: final(entry).strip, ..*old(entry) }),
        final(entry).strip.id == old(entry).strip.id,
        final(entry).strip.virtual_index == old(entry).strip.virtual_index,
{
    let frame = match windows.frame(entity) {
        Some(frame) => frame,
        None => {
            return false;
        },
    };
    let (slot, _) = drop_slot_index(
        &entry.strip,
        entry.position.x,
        frame.min.x,
        Some(mid),
        windows,
    );
    move_column(entity, &mut entry.strip, slot)
}

/// Moves a column to a slot among all columns. Answers whether it moved.
fn move_column(entity: Entity, strip: &mut LayoutStrip, slot: usize) -> (moved: bool)
    ensures
        moved == (strip_has(old(strip)@, entity) && slot_without(
            slot as int,
            column_of(old(strip)@, entity),
        ) != column_of(old(strip)@, entity)),
        final(strip)@ == (if moved {
            columns_reordered(old(strip)@, entity, slot as int)
        } else {
            old(strip)@
        }),
        !moved ==> *final(strip) == *old(strip),
        final(strip).id == old(strip).id,
        final(strip).virtual_index == old(strip).virtual_index,
{
    let current = match strip.index_of(entity) {
        Some(current) => current,
        None => {
            return false;
        },
    };
    proof {
        lemma_first_from(strip@, column_has(entity), 0);
    }
    let adjusted: usize = if slot > current {
        slot - 1
    } else {
        slot
    };
    if adjusted == current {
        return false;
    }
    match strip.remove_column_at(current) {
        Some(column) => {
            strip.insert_column_at(adjusted, column);
            true
        },
        None => false,
    }
}

/// The windows that a release concerns: the whole column of the dragged window,
/// or the window alone.
pub open spec fn released_members(strips: Seq<StripEntry>, entity: Entity) -> Seq<Entity> {
    match find_where(strips, holds_window(entity)) {
        Some(entry) => entry.strip@[column_of(entry.strip@, entity)].members(),
        None => seq![entity],
    }
}

pub fn release_column_members(entity: Entity, strips: &Vec<StripEntry>) -> (members: Vec<Entity>)
    ensures
        members@ == released_members(strips@, entity),
{
    if let Some(at) = owner_index(entity, strips) {
        proof {
            lemma_first_from(strips@, holds_window(entity), 0);
        }
        if let Some(members) = strips[at].strip.column_members(entity) {
            return members;
        }
    }
    let mut alone: Vec<Entity> = Vec::new();
    alone.push(entity);
    assert(alone@ =~= seq![entity]);
    alone
}

/// Pixels of travel up to which a press is a click.
pub const DRAG_SCROLL_CLICK_THRESHOLD_PX: u64 = 4;

/// How a release ends.
#[derive(Clone, Copy, Debug, PartialEq, Eq, Structural)]
pub enum Release {
    /// During the warm-up only the shield is armed.
    Shield,
    /// The strip was scrolled and keeps its offset.
    Scrolled,
    /// The column is to be dropped at a slot, if that moves it.
    Drop,
    /// The windows go home.
    Home,
}

/// How a release ends: by what the press armed, how far the drag went, and
/// whether the shortcut is still held.
pub open spec fn release_of(
    cold: bool,
    display_armed: bool,
    scroll_armed: bool,
    distance: u64,
    shortcut: bool,
) -> Release {
    if cold {
        Release::Shield
    } else if scroll_armed && distance > DRAG_SCROLL_CLICK_THRESHOLD_PX {
        Release::Scrolled
    } else if display_armed && shortcut {
        Release::Drop
    } else {
        Release::Home
    }
}

pub fn classify_release(
    cold: bool,
    display_armed: bool,
    scroll_armed: bool,
    distance: u64,
    shortcut: bool,
) -> (release: Release)
    ensures
        release == release_of(cold, display_armed, scroll_armed, distance, shortcut),
{
    if cold {
        Release::Shield
    } else if scroll_armed && distance > DRAG_SCROLL_CLICK_THRESHOLD_PX {
        Release::Scrolled
    } else if display_armed && shortcut {
        Release::Drop
    } else {
        Release::Home
    }
}

/// The glides home of those of the first `n` members that are off their slots.
pub open spec fn glides_to(members: Seq<Entity>, homes: Seq<Option<Origin>>, n: int) -> Seq<Request>
    decreases n,
{
    if n <= 0 {
        Seq::empty()
    } else {
        match homes[n - 1] {
            Some(origin) => glides_to(members, homes, n - 1).push(
                Request::Reposition { entity: members[n - 1], origin },
            ),
            None => glides_to(members, homes, n - 1),
        }
    }
}

/// The confirmations of the first `n` members.
pub open spec fn confirmations_to(members: Seq<Entity>, n: int) -> Seq<Request>
    decreases n,
{
    if n <= 0 {
        Seq::empty()
    } else {
        confirmations_to(members, n - 1).push(Request::Verify { entity: members[n - 1] })
    }
}

/// What a release at home asks for: windows off their slots glide home. Where
/// all are home the release was a click: their slots are confirmed and the strip
/// is laid out around the window, unless clicks never do that. The member that
/// shows most is kept in view.
pub open spec fn homing_requests(
    entity: Entity,
    members: Seq<Entity>,
    homes: Seq<Option<Origin>>,
    click_reshuffles: bool,
    most_visible: Option<Entity>,
) -> Seq<Request> {
    let count = members.len() as int;
    let glides = glides_to(members, homes, count);
    let homed = if glides.len() > 0 {
        glides
    } else {
        let confirmed = confirmations_to(members, count);
        if click_reshuffles {
            confirmed.push(Request::Reshuffle { entity, force: false })
        } else {
            confirmed
        }
    };
    match most_visible {
        Some(winner) => homed.push(Request::Reveal { entity: winner, snap: false }),
        None => homed,
    }
}

/// Sends the released windows home.
pub fn home_released(
    entity: Entity,
    members: &Vec<Entity>,
    homes: &Vec<Option<Origin>>,
    click_reshuffles: bool,
    most_visible: Option<Entity>,
    requests: &mut Requests,
)
    requires
        homes@.len() == members@.len(),
    ensures
        final(requests)@ == old(requests)@ + homing_requests(
            entity,
            members@,
            homes@,
            click_reshuffles,
            most_visible,
        ),
{
    let mut i: usize = 0;
    let mut homed: bool = false;
    assert(requests@ =~= old(requests)@ + glides_to(members@, homes@, 0));
    while i < members.len()
        invariant
            i <= members.len(),
            homes@.len() == members@.len(),
            requests@ == old(requests)@ + glides_to(members@, homes@, i as int),
            homed == (glides_to(members@, homes@, i as int).len() > 0),
        decreases members.len() - i,
    {
        if let Some(origin) = homes[i] {
            requests.reposition_entity(members[i], origin);
            homed = true;
        }
        assert(requests@ =~= old(requests)@ + glides_to(members@, homes@, i as int + 1));
        i = i + 1;
    }
    if !homed {
        let mut k: usize = 0;
        assert(requests@ =~= old(requests)@ + confirmations_to(members@, 0));
        while k < members.len()
            invariant
                k <= members.len(),
                requests@ == old(requests)@ + confirmations_to(members@, k as int),
            decreases members.len() - k,
        {
            requests.ensure_verifying(members[k]);
            assert(requests@ =~= old(requests)@ + confirmations_to(members@, k as int + 1));
            k = k + 1;
        }
        if click_reshuffles {
            requests.reshuffle_around(entity);
        }
    }
    if let Some(winner) = most_visible {
        requests.ensure_visible(winner);
    }
    assert(requests@ =~= old(requests)@ + homing_requests(
        entity,
        members@,
        homes@,
        click_reshuffles,
        most_visible,
    ));
}

/// Those of the first `n` windows that have a frame, each with its frame.
pub open spec fn framed_to(
    members: Seq<Entity>,
    windows: Seq<WindowRecord>,
    n: int,
) -> Seq<(Entity, IRect)>
    decreases n,
{
    if n <= 0 {
        Seq::empty()
    } else {
        let before = framed_to(members, windows, n - 1);
        match frame_of(windows, members[n - 1]) {
            Some(frame) => before.push((members[n - 1], frame)),
            None => before,
        }
    }
}

/// The windows among which the most visible one is revealed after a release: all
/// of the strip that holds the released window, each with its frame.
pub fn reveal_candidates(entity: Entity, strips: &Vec<StripEntry>, windows: &Windows) -> (frames:
    Option<Vec<(Entity, IRect)>>)
    requires
        windows.wf(),
    ensures
        match find_where(strips@, holds_window(entity)) {
            Some(entry) => {
                let members = windows_to(entry.strip@, entry.strip@.len() as int);
                frames matches Some(list) && list@ == framed_to(
                    members,
                    windows.all@,
                    members.len() as int,
                )
            },
            None => frames is None,
        },
{
    let at = match owner_index(entity, strips) {
        Some(at) => at,
        None => {
            return None;
        },
    };
    let members = strips[at].strip.all_windows();
    let mut list: Vec<(Entity, IRect)> = Vec::new();
    let mut i: usize = 0;
    while i < members.len()
        invariant
            i <= members.len(),
            windows.wf(),
            list@ == framed_to(members@, windows.all@, i as int),
        decreases members.len() - i,
    {
        if let Some(frame) = windows.frame(members[i]) {
            list.push((members[i], frame));
        }
        i = i + 1;
    }
    Some(list)
}

/// What holds a release down: what the press armed, and what is held now.
#[derive(Clone, Copy, Debug)]
pub struct ReleaseFacts {
    pub entity: Entity,
    pub display_armed: bool,
    pub scroll_armed: bool,
    pub shortcut: bool,
    pub cold: bool,
    /// The slot of the strip that is nearest to the window, with the scroll that shows
    /// it there.
    pub nearest: (usize, i32),
    /// Clicks lay the strip out again.
    pub click_reshuffles: bool,
    /// The member that shows most of the window's strip.
    pub most_visible: Option<Entity>,
    /// The width of the display that shows the window's strip, where it is known.
    pub display_width: Option<i32>,
}

/// Whether a release moves the dragged column.
pub open spec fn drop_moves(
    facts: ReleaseFacts,
    strips: Seq<StripEntry>,
    windows: Seq<WindowRecord>,
    distance: u64,
) -> bool {
    &&& release_of(
        facts.cold,
        facts.display_armed,
        facts.scroll_armed,
        distance,
        facts.shortcut,
    ) == Release::Drop
    &&& find_where(strips, holds_window(facts.entity)) matches Some(entry) && reorders(
        facts.entity,
        entry,
        windows,
        facts.nearest,
    )
}

/// What a drag that scrolled leaves to do: once its glide has decayed, the strip is
/// to reveal its nearest window, however slow the release was. A strip that no
/// display with a width shows has nowhere to settle.
pub open spec fn settle_requests(
    entity: Entity,
    strips: Seq<StripEntry>,
    display_width: Option<i32>,
) -> Seq<Request> {
    match find_where(strips, holds_window(entity)) {
        Some(entry) => match display_width {
            Some(width) if width > 0 => seq![Request::ArmSettle { strip: entry.entity }],
            _ => Seq::empty(),
        },
        None => Seq::empty(),
    }
}

/// Has the strip of a released window settle after a drag that scrolled it.
fn settle_released(
    entity: Entity,
    strips: &Vec<StripEntry>,
    display_width: Option<i32>,
    requests: &mut Requests,
)
    ensures
        final(requests)@ == old(requests)@ + settle_requests(entity, strips@, display_width),
{
    if let Some(at) = owner_index(entity, strips) {
        if let Some(width) = display_width {
            if width > 0 {
                requests.push(Request::ArmSettle { strip: strips[at].entity });
            }
        }
    }
    assert(requests@ =~= old(requests)@ + settle_requests(entity, strips@, display_width));
}

/// What a release asks for.
pub open spec fn release_requests(
    facts: ReleaseFacts,
    strips: Seq<StripEntry>,
    windows: Seq<WindowRecord>,
    homes: Seq<Option<Origin>>,
    distance: u64,
) -> Seq<Request> {
    match release_of(
        facts.cold,
        facts.display_armed,
        facts.scroll_armed,
        distance,
        facts.shortcut,
    ) {
        Release::Shield => Seq::empty(),
        Release::Scrolled => settle_requests(facts.entity, strips, facts.display_width),
        _ => if drop_moves(facts, strips, windows, distance) {
            seq![Request::Reshuffle { entity: facts.entity, force: false }]
        } else {
            homing_requests(
                facts.entity,
                released_members(strips, facts.entity),
                homes,
                facts.click_reshuffles,
                facts.most_visible,
            )
        },
    }
}

/// A release is done: the column that a drop moves is at its slot; any other release
/// leaves the strips alone and shields its windows from late echoes.
pub open spec fn released(
    facts: ReleaseFacts,
    strips: (Seq<StripEntry>, Seq<StripEntry>),
    windows: Seq<WindowRecord>,
    scroll: (DragScrollState, DragScrollState),
    now: Duration,
) -> bool {
    if drop_moves(facts, strips.0, windows, scroll.0.distance_px) {
        let at = first_where(strips.0, holds_window(facts.entity));
        &&& only_columns_changed(
            strips.0,
            strips.1,
            at,
            columns_reordered(
                strips.0[at].strip@,
                facts.entity,
                drop_index(facts.entity, strips.0[at], windows, facts.nearest),
            ),
        )
        &&& scroll.1.members@ == scroll.0.members@
        &&& scroll.1.settle_deadline == scroll.0.settle_deadline
    } else {
        &&& strips.1 == strips.0
        &&& scroll.1.members@ == released_members(strips.0, facts.entity)
        &&& scroll.1.settle_deadline == Some(
            Duration { nanos: (now.nanos + 1_000_000_000) as u128 },
        )
    }
}

/// Answers a release of the held window. A drag that scrolled keeps its offset
/// until the strip settles; an armed drop moves the column to its slot and lays the strip out; any other
/// release sends the windows home. Every release that moves no column shields
/// the windows from late echoes. Answers how the release ended.
pub fn mouse_up_trigger(
    facts: ReleaseFacts,
    strips: &mut Vec<StripEntry>,
    windows: &Windows,
    homes: &Vec<Option<Origin>>,
    scroll: &mut DragScrollState,
    paint: &mut DragPaintState,
    now: Duration,
    requests: &mut Requests,
) -> (release: Release)
    requires
        windows.wf(),
        homes@.len() == released_members(old(strips)@, facts.entity).len(),
        find_where(old(strips)@, holds_window(facts.entity)) matches Some(entry) ==> drop_fits(
            facts.entity,
            entry,
            windows.all@,
            facts.nearest,
        ),
        now.nanos + 1_000_000_000 <= u128::MAX,
    ensures
        release == release_of(
            facts.cold,
            facts.display_armed,
            facts.scroll_armed,
            old(scroll).distance_px,
            facts.shortcut,
        ),
        *final(paint) == DragPaintState::idle(),
        final(scroll).distance_px == 0,
        final(scroll).last_sample_at is None,
        final(requests)@ == old(requests)@ + release_requests(
            facts,
            old(strips)@,
            windows.all@,
            homes@,
            old(scroll).distance_px,
        ),
        released(
            facts,
            (old(strips)@, final(strips)@),
            windows.all@,
            (*old(scroll), *final(scroll)),
            now,
        ),
{
    paint.clear();
    let distance = scroll.distance_px;
    scroll.distance_px = 0;
    scroll.last_sample_at = None;
    let entity = facts.entity;
    let release = classify_release(
        facts.cold,
        facts.display_armed,
        facts.scroll_armed,
        distance,
        facts.shortcut,
    );
    let members = release_column_members(entity, strips);
    if release == Release::Shield || release == Release::Scrolled {
        let _ = arm_release_grace(members, scroll, now);
        if release == Release::Scrolled {
            settle_released(entity, strips, facts.display_width, requests);
        }
        assert(requests@ =~= old(requests)@ + release_requests(
            facts,
            old(strips)@,
            windows.all@,
            homes@,
            distance,
        ));
        return release;
    }
    if release == Release::Drop {
        if let Some(at) = owner_index(entity, strips) {
            proof {
                lemma_first_from(strips@, holds_window(entity), 0);
            }
            let mut entry = strips.remove(at);
            let moved = try_reorder_column(entity, &mut entry, windows, facts.nearest);
            strips.insert(at, entry);
            if moved {
                requests.reshuffle_around(entity);
                assert(requests@ =~= old(requests)@ + release_requests(
                    facts,
                    old(strips)@,
                    windows.all@,
                    homes@,
                    distance,
                ));
                return release;
            }
            assert(strips@ =~= old(strips)@);
        }
    }
    home_released(
        entity,
        &members,
        homes,
        facts.click_reshuffles,
        facts.most_visible,
        requests,
    );
    let _ = arm_release_grace(members, scroll, now);
    release
}

} // verus!
