//! What a change of focus does: who caused it, whether the strip follows, where
//! the pointer goes, and when a refused focus takes a window out of the layout.
use std::collections::HashMap;
use vstd::prelude::*;
use vstd::std_specs::hash::*;

pub mod arrival;

use crate::ecs::layout::{
    clamp_origin_to_viewport, into_viewport, list_contains, strip_has, strip_wf, strip_without,
    tabs_of, ColumnView, LayoutStrip,
};
use crate::ecs::params::{
    focus_of, frame_of, is_entity, is_window, place_of, holds_window, owner_display, tiled,
    GlobalState, StripEntry, WindowRecord, Windows,
};
use crate::ecs::{
    LastPress, PositionDrive, Request, Requests, StrayFocusEvent, Unmanaged, UserFocus,
    PRESS_FOCUS_CAUSE_WINDOW, USER_FOCUS_CAUSE_WINDOW,
};
use crate::geometry::{fits, half, halved, Entity, IRect, Origin, Size, WinID, WorkspaceId};
use crate::maps::keys_of;
use crate::seqs::{any_where, find_where, first_from, first_where, kept};
use crate::time::Duration;

verus! {

/// The plugin that answers focus changes.
pub struct FocusEventsPlugin;

/// The windows of one workspace that last had the focus, by tier.
#[derive(Clone, Copy, Debug, PartialEq, Eq, Structural)]
pub struct TierMemory {
    pub last_managed: Option<Entity>,
    pub last_floating: Option<Entity>,
}

impl TierMemory {
    pub open spec fn blank() -> TierMemory {
        TierMemory { last_managed: None, last_floating: None }
    }

    /// The memory after `entity` got the focus in that tier.
    pub open spec fn recorded(self, entity: Entity, unmanaged: Option<Unmanaged>) -> TierMemory {
        match unmanaged {
            None => TierMemory { last_managed: Some(entity), ..self },
            Some(Unmanaged::Floating) => TierMemory { last_floating: Some(entity), ..self },
            Some(_) => self,
        }
    }

    /// The memory without `entity`.
    pub open spec fn without(self, entity: Entity) -> TierMemory {
        TierMemory {
            last_managed: if self.last_managed == Some(entity) {
                None
            } else {
                self.last_managed
            },
            last_floating: if self.last_floating == Some(entity) {
                None
            } else {
                self.last_floating
            },
        }
    }
}

impl Default for TierMemory {
    fn default() -> (memory: TierMemory)
        ensures
            memory == TierMemory::blank(),
    {
        TierMemory { last_managed: None, last_floating: None }
    }
}

/// The last focus of every workspace, and the focus that was asked for but has
/// not arrived yet.
#[derive(Debug)]
pub struct FocusHistory {
    pub pending_focus: Option<Entity>,
    pub by_workspace: HashMap<WorkspaceId, TierMemory>,
}

impl Default for FocusHistory {
    fn default() -> (history: FocusHistory)
        ensures
            history.pending_focus is None,
            forall|workspace: WorkspaceId| history.memory(workspace) == TierMemory::blank(),
    {
        broadcast use vstd::std_specs::hash::group_hash_axioms;

        FocusHistory { pending_focus: None, by_workspace: HashMap::new() }
    }
}

impl FocusHistory {
    /// What is remembered of a workspace.
    pub open spec fn memory(self, workspace: WorkspaceId) -> TierMemory {
        if self.by_workspace@.contains_key(workspace) {
            self.by_workspace@[workspace]
        } else {
            TierMemory::blank()
        }
    }

    fn remembered(&self, workspace: WorkspaceId) -> (memory: TierMemory)
        ensures
            memory == self.memory(workspace),
    {
        broadcast use vstd::std_specs::hash::group_hash_axioms;

        match self.by_workspace.get(&workspace) {
            Some(memory) => *memory,
            None => TierMemory::default(),
        }
    }

    /// Remembers that `entity` got the focus. Minimised and hidden windows are
    /// not remembered.
    pub fn record(&mut self, workspace: WorkspaceId, entity: Entity, unmanaged: Option<Unmanaged>)
        ensures
            final(self).pending_focus == old(self).pending_focus,
            final(self).memory(workspace) == old(self).memory(workspace).recorded(
                entity,
                unmanaged,
            ),
            forall|other: WorkspaceId|
                other != workspace ==> #[trigger] final(self).memory(other) == old(self).memory(
                    other,
                ),
    {
        broadcast use vstd::std_specs::hash::group_hash_axioms;

        let mut slot = self.remembered(workspace);
        match unmanaged {
            None => {
                slot.last_managed = Some(entity);
            },
            Some(Unmanaged::Floating) => {
                slot.last_floating = Some(entity);
            },
            Some(_) => {},
        }
        self.by_workspace.insert(workspace, slot);
    }

    pub fn last_managed(&self, workspace: WorkspaceId) -> (window: Option<Entity>)
        ensures
            window == self.memory(workspace).last_managed,
    {
        self.remembered(workspace).last_managed
    }

    pub fn last_floating(&self, workspace: WorkspaceId) -> (window: Option<Entity>)
        ensures
            window == self.memory(workspace).last_floating,
    {
        self.remembered(workspace).last_floating
    }

    /// Forgets a window that is gone, in every workspace.
    pub fn forget(&mut self, entity: Entity)
        ensures
            final(self).pending_focus == (if old(self).pending_focus == Some(entity) {
                None
            } else {
                old(self).pending_focus
            }),
            forall|workspace: WorkspaceId| #[trigger]
                final(self).memory(workspace) == old(self).memory(workspace).without(entity),
    {
        broadcast use vstd::std_specs::hash::group_hash_axioms;

        if self.pending_focus == Some(entity) {
            self.pending_focus = None;
        }
        let keys = keys_of(&self.by_workspace);
        let mut i: usize = 0;
        while i < keys.len()
            invariant
                i <= keys.len(),
                keys@.to_set() == old(self).by_workspace@.dom(),
                self.pending_focus == (if old(self).pending_focus == Some(entity) {
                    None
                } else {
                    old(self).pending_focus
                }),
                self.by_workspace@.dom() == old(self).by_workspace@.dom(),
                forall|workspace: WorkspaceId|
                    #![trigger self.memory(workspace)]
                    if keys@.take(i as int).contains(workspace) {
                        self.memory(workspace) == old(self).memory(workspace).without(entity)
                    } else {
                        self.memory(workspace) == old(self).memory(workspace)
                    },
            decreases keys.len() - i,
        {
            let key = keys[i];
            assert(keys@.to_set().contains(key));
            let ghost before = *self;
            let mut slot = self.remembered(key);
            if slot.last_managed == Some(entity) {
                slot.last_managed = None;
            }
            if slot.last_floating == Some(entity) {
                slot.last_floating = None;
            }
            self.by_workspace.insert(key, slot);
            assert(self.by_workspace@.dom() =~= old(self).by_workspace@.dom());
            assert forall|workspace: WorkspaceId|
                #![trigger self.memory(workspace)]
                if keys@.take(i as int + 1).contains(workspace) {
                    self.memory(workspace) == old(self).memory(workspace).without(entity)
                } else {
                    self.memory(workspace) == old(self).memory(workspace)
                } by {
                let taken = keys@.take(i as int);
                let more = keys@.take(i as int + 1);
                assert(more =~= taken.push(key));
                assert(if taken.contains(workspace) {
                    before.memory(workspace) == old(self).memory(workspace).without(entity)
                } else {
                    before.memory(workspace) == old(self).memory(workspace)
                });
                assert(more.contains(workspace) <==> taken.contains(workspace) || workspace == key) by {
                if taken.contains(workspace) {
                    let k = choose|k: int| 0 <= k < taken.len() && taken[k] == workspace;
                    assert(more[k] == workspace);
                }
                if workspace == key {
                    assert(more[i as int] == workspace);
                } else {
                    if more.contains(workspace) {
                        let k = choose|k: int| 0 <= k < more.len() && more[k] == workspace;
                        assert(taken[k] == workspace);
                    }
                }
                }
                assert(slot == before.memory(key).without(entity));
                assert(self.memory(workspace) == (if workspace == key {
                    slot
                } else {
                    before.memory(workspace)
                }));
            }
            i = i + 1;
        }
        assert forall|workspace: WorkspaceId| #[trigger]
            self.memory(workspace) == old(self).memory(workspace).without(entity) by {
            assert(keys@.take(keys@.len() as int) =~= keys@);
            if !keys@.contains(workspace) {
                assert(!keys@.to_set().contains(workspace));
            }
        }
    }

    /// Forgets a workspace that is gone.
    pub fn forget_workspace(&mut self, workspace: WorkspaceId)
        ensures
            final(self).pending_focus == old(self).pending_focus,
            final(self).memory(workspace) == TierMemory::blank(),
            forall|other: WorkspaceId|
                other != workspace ==> #[trigger] final(self).memory(other) == old(self).memory(
                    other,
                ),
    {
        broadcast use vstd::std_specs::hash::group_hash_axioms;

        self.by_workspace.remove(&workspace);
    }
}

/// The condition of having the focus without being `entity`.
pub open spec fn loses_focus(entity: Entity) -> spec_fn(WindowRecord) -> bool {
    |window: WindowRecord| window.focused && window.entity != entity
}

/// Keeps the focus on one window: answers the windows that lose it now that
/// `focused` has it. A focus that the mouse caused keeps the strip where it is;
/// any other one lets it move again.
pub fn maintain_focus_singleton(focused: Entity, windows: &Windows, state: &mut GlobalState) -> (losers:
    Vec<WindowRecord>)
    ensures
        losers@ == kept(windows.all@, loses_focus(focused), windows.all@.len() as int),
        final(state).focus_follows_mouse_id is None,
        final(state).skip_reshuffle == (old(state).focus_follows_mouse_id is Some && old(
            state,
        ).skip_reshuffle),
        final(state).initializing == old(state).initializing,
{
    let mut losers: Vec<WindowRecord> = Vec::new();
    let mut i: usize = 0;
    while i < windows.all.len()
        invariant
            i <= windows.all.len(),
            losers@ == kept(windows.all@, loses_focus(focused), i as int),
        decreases windows.all.len() - i,
    {
        let window = windows.all[i];
        if window.focused && window.entity != focused {
            losers.push(window);
        }
        i = i + 1;
    }
    if state.ffm_flag().is_none() {
        state.set_skip_reshuffle(false);
    }
    state.set_ffm_flag(None);
    losers
}

/// The columns of each strip.
pub open spec fn columns_of(strips: Seq<LayoutStrip>) -> Seq<Seq<ColumnView>> {
    strips.map_values(|strip: LayoutStrip| strip@)
}

/// The condition that a strip groups both windows as tabs of one slot.
pub open spec fn groups(target: Entity, actual: Entity) -> spec_fn(Seq<ColumnView>) -> bool {
    |columns: Seq<ColumnView>|
        tabs_of(columns, target) matches Some(group) && group.contains(actual)
}

/// The application of a window, looked up by the window's number.
pub open spec fn app_of(windows: Seq<WindowRecord>, entity: Entity) -> Option<Entity> {
    match find_where(windows, is_entity(entity)) {
        Some(window) => match find_where(windows, is_window(window.id)) {
            Some(named) => Some(named.parent),
            None => None,
        },
        None => None,
    }
}

/// Both windows belong to one application and cover the same frame, to within
/// a pixel.
pub open spec fn looks_tabbed(windows: Seq<WindowRecord>, target: Entity, actual: Entity) -> bool {
    &&& app_of(windows, target) is Some
    &&& app_of(windows, target) == app_of(windows, actual)
    &&& frame_of(windows, target) matches Some(a) && frame_of(windows, actual) matches Some(b)
        && a.min.near(b.min, 1) && a.spec_size().near(b.spec_size(), 1)
}

/// The extents of every frame are numbers a point can hold.
pub open spec fn frames_measurable(windows: Seq<WindowRecord>) -> bool {
    forall|entity: Entity|
        (#[trigger] frame_of(windows, entity)) matches Some(frame) ==> frame.measurable()
}

fn app_of_window(windows: &Windows, entity: Entity) -> (app: Option<Entity>)
    ensures
        app == app_of(windows.all@, entity),
{
    match windows.get(entity) {
        Some(window) => windows.find_parent(window.id),
        None => None,
    }
}

/// Whether two windows are members of one native tab group: a strip already
/// groups them, or they belong to one application and cover the same frame.
pub fn shares_a_tab_group(
    workspaces: &Vec<LayoutStrip>,
    windows: &Windows,
    target: Entity,
    actual: Entity,
) -> (shared: bool)
    requires
        windows.wf(),
        frames_measurable(windows.all@),
    ensures
        shared == (any_where(columns_of(workspaces@), groups(target, actual)) || looks_tabbed(
            windows.all@,
            target,
            actual,
        )),
{
    let mut i: usize = 0;
    while i < workspaces.len()
        invariant
            i <= workspaces.len(),
            first_where(columns_of(workspaces@), groups(target, actual)) == first_from(
                columns_of(workspaces@),
                groups(target, actual),
                i as int,
            ),
        decreases workspaces.len() - i,
    {
        if let Some(group) = workspaces[i].tab_group(target) {
            if list_contains(&group, actual) {
                return true;
            }
        }
        i = i + 1;
    }
    let target_app = app_of_window(windows, target);
    let actual_app = app_of_window(windows, actual);
    if target_app.is_none() || target_app != actual_app {
        return false;
    }
    match (windows.frame(target), windows.frame(actual)) {
        (Some(a), Some(b)) => {
            assert(frame_of(windows.all@, target) is Some);
            assert(frame_of(windows.all@, actual) is Some);
            a.min.is_near(b.min, 1) && a.size().is_near(b.size(), 1)
        },
        _ => false,
    }
}

/// The size that a window has to take again when it gets the focus: its tile's
/// size, where the window is not being resized and differs from it by more than
/// a pixel. Smaller differences are rounding and stay.
pub fn clamp_window_size_on_focus(resizing: bool, os_size: Size, bounds: Size) -> (push: Option<
    Size,
>)
    ensures
        push == (if !resizing && !os_size.near(bounds, 1) {
            Some(bounds)
        } else {
            None
        }),
{
    if resizing || os_size.is_near(bounds, 1) {
        None
    } else {
        Some(bounds)
    }
}

/// What each strip holds after a window left all of them.
pub open spec fn all_without(strips: Seq<Seq<ColumnView>>, entity: Entity) -> Seq<Seq<ColumnView>> {
    strips.map_values(|columns: Seq<ColumnView>| strip_without(columns, entity))
}

/// The window that refuses the focus: the one that was asked for, where another window
/// got the focus that is no tab of it.
pub open spec fn refusal(
    pending: Option<Entity>,
    focused: Entity,
    strips: Seq<Seq<ColumnView>>,
    windows: Seq<WindowRecord>,
) -> Option<Entity> {
    match pending {
        Some(target) => if focused == target || any_where(strips, groups(target, focused))
            || looks_tabbed(windows, target, focused) {
            None
        } else {
            Some(target)
        },
        None => None,
    }
}

/// Answers a focus that arrived while another one was asked for. Where the focus
/// landed on another window that is no tab of the one asked for, that one
/// refuses the focus: it floats and leaves every strip.
pub fn detect_focus_rejection(
    focused: Entity,
    history: &mut FocusHistory,
    workspaces: &mut Vec<LayoutStrip>,
    windows: &Windows,
    requests: &mut Requests,
) -> (rejected: Option<Entity>)
    requires
        windows.wf(),
        frames_measurable(windows.all@),
        forall|i: int| 0 <= i < old(workspaces)@.len() ==> strip_wf(#[trigger] old(workspaces)@[i]@),
    ensures
        final(history).pending_focus is None,
        forall|workspace: WorkspaceId| #[trigger]
            final(history).memory(workspace) == old(history).memory(workspace),
        rejected == (match old(history).pending_focus {
            Some(target) => if focused == target || any_where(
                columns_of(old(workspaces)@),
                groups(target, focused),
            ) || looks_tabbed(windows.all@, target, focused) {
                None
            } else {
                Some(target)
            },
            None => None,
        }),
        rejected == refusal(
            old(history).pending_focus,
            focused,
            columns_of(old(workspaces)@),
            windows.all@,
        ),
        match rejected {
            Some(target) => final(requests)@ == old(requests)@.push(
                Request::Float { entity: target },
            ) && columns_of(final(workspaces)@) == all_without(
                columns_of(old(workspaces)@),
                target,
            ),
            None => final(requests)@ == old(requests)@ && final(workspaces)@ == old(workspaces)@,
        },
        final(workspaces)@.len() == old(workspaces)@.len(),
        forall|i: int|
            0 <= i < old(workspaces)@.len() ==> (#[trigger] final(workspaces)@[i]).id == old(
                workspaces,
            )@[i].id && final(workspaces)@[i].virtual_index == old(workspaces)@[i].virtual_index,
{
    let pending = history.pending_focus;
    history.pending_focus = None;
    let target = match pending {
        Some(target) => target,
        None => {
            return None;
        },
    };
    if focused == target || shares_a_tab_group(workspaces, windows, target, focused) {
        return None;
    }
    requests.push(Request::Float { entity: target });
    let mut i: usize = 0;
    let ghost before = columns_of(workspaces@);
    while i < workspaces.len()
        invariant
            i <= workspaces.len(),
            workspaces@.len() == before.len(),
            forall|j: int| 0 <= j < before.len() ==> strip_wf(#[trigger] before[j]),
            forall|j: int|
                0 <= j < i ==> #[trigger] workspaces@[j]@ == strip_without(before[j], target),
            forall|j: int| i <= j < before.len() ==> #[trigger] workspaces@[j]@ == before[j],
            before.len() == old(workspaces)@.len(),
            forall|j: int|
                0 <= j < before.len() ==> (#[trigger] workspaces@[j]).id == old(workspaces)@[j].id
                    && workspaces@[j].virtual_index == old(workspaces)@[j].virtual_index,
        decreases workspaces.len() - i,
    {
        assert(workspaces@[i as int]@ == before[i as int]);
        assert(strip_wf(before[i as int]));
        let mut strip = workspaces.remove(i);
        strip.remove(target);
        workspaces.insert(i, strip);
        i = i + 1;
    }
    assert(columns_of(workspaces@) =~= all_without(before, target));
    Some(target)
}

/// What brought a focus about.
#[derive(Clone, Copy, Debug, PartialEq, Eq, Structural)]
pub enum FocusCause {
    /// A mouse press inside the window just now.
    Press,
    /// A command that named the window just now.
    Keyboard,
    /// Neither: an application that raised itself, a notification, a late echo.
    Ambient,
}

/// The cause of a focus that arrives on `entity` with that frame.
pub open spec fn cause_of(
    user: UserFocus,
    press: LastPress,
    now: Duration,
    entity: Entity,
    frame: IRect,
) -> FocusCause {
    if now.minus(press.at) <= 400_000_000 && frame.holds(press.point) {
        FocusCause::Press
    } else if user.entity == Some(entity) && now.minus(user.at) <= 500_000_000 {
        FocusCause::Keyboard
    } else {
        FocusCause::Ambient
    }
}

/// Classifies a focus arrival. A press wins over a command: a command that lands
/// in the window just clicked must not move the pointer that the click owns.
pub fn focus_cause(
    user: &UserFocus,
    press: &LastPress,
    now: Duration,
    entity: Entity,
    frame: IRect,
) -> (cause: FocusCause)
    ensures
        cause == cause_of(*user, *press, now, entity, frame),
{
    let pressed = now.saturating_sub(press.at);
    if pressed.nanos <= Duration::from_millis(PRESS_FOCUS_CAUSE_WINDOW).nanos && frame.contains(
        press.point,
    ) {
        return FocusCause::Press;
    }
    let commanded = now.saturating_sub(user.at);
    if user.entity == Some(entity) && commanded.nanos <= Duration::from_millis(
        USER_FOCUS_CAUSE_WINDOW,
    ).nanos {
        return FocusCause::Keyboard;
    }
    FocusCause::Ambient
}

/// Whether the user meant this focus. Only then may the strip be rearranged.
pub fn user_initiated_focus(
    user: &UserFocus,
    press: &LastPress,
    now: Duration,
    entity: Entity,
    frame: IRect,
) -> (meant: bool)
    ensures
        meant == (cause_of(*user, *press, now, entity, frame) != FocusCause::Ambient),
{
    focus_cause(user, press, now, entity, frame) != FocusCause::Ambient
}

/// What the user did last, and when it is.
#[derive(Clone, Copy, Debug, PartialEq, Eq, Structural)]
pub struct FocusIntent {
    pub user_focus: UserFocus,
    pub last_press: LastPress,
    pub now: Duration,
}

/// The strip that owns a window, as the focus rules see it.
#[derive(Clone, Copy, Debug, PartialEq, Eq, Structural)]
pub struct OwnerStrip {
    pub entity: Entity,
    pub position: Origin,
    /// Where the strip is gliding to.
    pub flying_to: Option<Origin>,
    pub scrolling: bool,
    /// A restore still holds the offset that the strip had before.
    pub previous_position: bool,
    /// A restore that snapped the strip is settling.
    pub snap_settling: bool,
    /// The strip came on screen in this tick.
    pub fresh: bool,
    /// Whether the window is a background tab on this strip.
    pub tabbed: bool,
    /// The area that windows may use on the strip's display.
    pub viewport: IRect,
}

/// The strip is at the target to within a pixel, or on its way there.
pub open spec fn reaches(current: Origin, target: Origin, flying_to: Option<Origin>) -> bool {
    current.near(target, 1) || flying_to == Some(target)
}

/// Whether a strip already sits at its target or glides towards it.
pub fn strip_at_target(current: Origin, target: Origin, flying_to: Option<Origin>) -> (there: bool)
    ensures
        there == reaches(current, target, flying_to),
{
    current.is_near(target, 1) || flying_to == Some(target)
}

/// The horizontal offset that puts the middle of a window at the middle of the
/// viewport, as a number of any size.
pub open spec fn centering_x(viewport: IRect, size: Size, slot: Origin) -> int {
    viewport.spec_center().x - halved(size.x as int) - slot.x
}

/// The centring offset is a coordinate.
pub open spec fn centering_fits(viewport: IRect, size: Size, slot: Origin) -> bool {
    viewport.centerable() && fits(centering_x(viewport, size, slot))
}

/// The origin of a strip that shows the window in the given slot at the middle
/// of the viewport.
pub open spec fn centering(viewport: IRect, size: Size, slot: Origin) -> Origin {
    Origin { x: centering_x(viewport, size, slot) as i32, y: viewport.min.y }
}

pub fn centered_strip(viewport: IRect, size: Size, slot: Origin) -> (target: Origin)
    requires
        centering_fits(viewport, size, slot),
    ensures
        target == centering(viewport, size, slot),
{
    let x: i64 = viewport.center().x as i64 - half(size.x) as i64 - slot.x as i64;
    Origin { x: x as i32, y: viewport.min.y }
}

/// What the arrival of a focus finds on the screen.
#[derive(Clone, Copy, Debug, PartialEq, Eq, Structural)]
pub struct ArrivalGuards {
    /// A workspace restore gave this window the focus.
    pub restored: bool,
    pub mouse_held: bool,
    /// Whether the window is a background tab of the strip on screen.
    pub tabbed: bool,
    /// The strip is already going to be laid out around this window.
    pub reshuffling: bool,
}

/// Whether a focus arrival may move the strip at all: nothing else owns the
/// strip, and the user meant the focus.
pub open spec fn may_rearrange(
    entity: Entity,
    guards: ArrivalGuards,
    state: GlobalState,
    intent: FocusIntent,
    windows: Seq<WindowRecord>,
) -> bool {
    &&& !guards.restored
    &&& !state.skip_reshuffle
    &&& !state.initializing
    &&& !guards.mouse_held
    &&& !guards.tabbed
    &&& frame_of(windows, entity) matches Some(frame) && cause_of(
        intent.user_focus,
        intent.last_press,
        intent.now,
        entity,
        frame,
    ) != FocusCause::Ambient
}

/// The window already shows where centring would put it, inside its viewport.
pub open spec fn already_placed(
    entity: Entity,
    owner: Option<OwnerStrip>,
    windows: Seq<WindowRecord>,
) -> bool {
    owner matches Some(strip) && place_of(windows, entity) matches Some(place) && reaches(
        strip.position,
        centering(strip.viewport, place.size, place.layout),
        strip.flying_to,
    ) && into_viewport(place.spec_frame().min, place.size, strip.viewport)
        == place.spec_frame().min
}

/// The requests that a focus arrival issues.
pub open spec fn arrival_requests(
    entity: Entity,
    guards: ArrivalGuards,
    owner: Option<OwnerStrip>,
    state: GlobalState,
    intent: FocusIntent,
    auto_center: bool,
    windows: Seq<WindowRecord>,
) -> Seq<Request> {
    if !may_rearrange(entity, guards, state, intent, windows) || already_placed(
        entity,
        owner,
        windows,
    ) {
        Seq::empty()
    } else if auto_center && tiled(windows, entity) && owner is Some {
        let place = place_of(windows, entity)->0;
        seq![
            Request::Reposition {
                entity: owner->0.entity,
                origin: centering(owner->0.viewport, place.size, place.layout),
            },
        ]
    } else if !guards.reshuffling {
        seq![Request::Reshuffle { entity, force: false }]
    } else {
        Seq::empty()
    }
}

/// Centres the window that got the focus, by moving its strip and never the
/// window, or lays the strip out around it. Nothing happens for a focus that
/// the user did not mean, while something else owns the strip, or when the
/// window already shows where it belongs.
pub fn autocenter_window_on_focus(
    entity: Entity,
    guards: ArrivalGuards,
    owner: Option<OwnerStrip>,
    state: GlobalState,
    intent: FocusIntent,
    auto_center: bool,
    windows: &Windows,
    requests: &mut Requests,
)
    requires
        windows.wf(),
        owner matches Some(strip) ==> (place_of(windows.all@, entity) matches Some(place)
            ==> centering_fits(strip.viewport, place.size, place.layout)
            && strip.viewport.max.diff_fits(place.size)),
    ensures
        final(requests)@ == old(requests)@ + arrival_requests(
            entity,
            guards,
            owner,
            state,
            intent,
            auto_center,
            windows.all@,
        ),
{
    let ghost due = arrival_requests(
        entity,
        guards,
        owner,
        state,
        intent,
        auto_center,
        windows.all@,
    );
    if guards.restored || state.skip_reshuffle || state.initializing || guards.mouse_held
        || guards.tabbed {
        assert(requests@ =~= old(requests)@ + due);
        return;
    }
    let frame = match windows.frame(entity) {
        Some(frame) => frame,
        None => {
            assert(requests@ =~= old(requests)@ + due);
            return;
        },
    };
    if !user_initiated_focus(
        &intent.user_focus,
        &intent.last_press,
        intent.now,
        entity,
        frame,
    ) {
        assert(requests@ =~= old(requests)@ + due);
        return;
    }
    if let Some(strip) = owner {
        if let Some(place) = windows.placement(entity) {
            let target = centered_strip(strip.viewport, place.size, place.layout);
            let placed = strip_at_target(strip.position, target, strip.flying_to);
            let inside = clamp_origin_to_viewport(frame.min, place.size, strip.viewport);
            if placed && inside == frame.min {
                assert(requests@ =~= old(requests)@ + due);
                return;
            }
            if auto_center && windows.is_tiled(entity) {
                requests.reposition_entity(strip.entity, target);
                assert(requests@ =~= old(requests)@ + due);
                return;
            }
        }
    }
    if !guards.reshuffling {
        requests.reshuffle_around(entity);
    }
    assert(requests@ =~= old(requests)@ + due);
}

/// How long a reveal that had to wait is kept, in milliseconds.
pub const DEFER_EXPOSE_TIMEOUT: u64 = 2000;

/// What the reveal rules read of a window.
#[derive(Clone, Copy, Debug, PartialEq, Eq, Structural)]
pub struct RevealFacts {
    pub initializing: bool,
    pub mouse_held: bool,
    pub restored: bool,
    /// The window is being moved.
    pub repositioning: bool,
    /// The window is being resized.
    pub resizing: bool,
    pub drive: Option<PositionDrive>,
    pub owner: Option<OwnerStrip>,
    /// Whether the window is a background tab of the strip on screen.
    pub tabbed_on_screen: bool,
    /// A write of this window is still on its way.
    pub write_pending: bool,
    /// A reveal or a layout pass for this window is already due.
    pub reveal_queued: bool,
    /// The viewport of the active display.
    pub active_viewport: IRect,
    pub now: Duration,
}

impl RevealFacts {
    /// A restore owns the strip.
    pub open spec fn restore_owns(self) -> bool {
        self.owner matches Some(strip) && (strip.previous_position || strip.snap_settling)
    }

    /// The window is on its way somewhere else.
    pub open spec fn window_in_flight(self) -> bool {
        self.repositioning || self.resizing || (self.drive matches Some(drive) && drive.phase
            is Verifying)
    }

    /// The strip is in motion.
    pub open spec fn strip_in_flight(self) -> bool {
        self.owner matches Some(strip) && (strip.flying_to is Some || strip.scrolling)
    }

    pub open spec fn strip_fresh(self) -> bool {
        self.owner matches Some(strip) && strip.fresh
    }

    pub open spec fn background_tab(self) -> bool {
        match self.owner {
            Some(strip) => strip.tabbed,
            None => self.tabbed_on_screen,
        }
    }

    /// The viewport that the window belongs to: that of its strip's display, or
    /// of the active display for a window on no strip.
    pub open spec fn viewport(self) -> IRect {
        match self.owner {
            Some(strip) => strip.viewport,
            None => self.active_viewport,
        }
    }

    /// The window shows, or is about to show, only in part.
    pub open spec fn out_of_view(self, windows: Seq<WindowRecord>, entity: Entity) -> bool {
        place_of(windows, entity) matches Some(place) && into_viewport(
            place.spec_moving_frame().min,
            place.size,
            self.viewport(),
        ) != place.spec_moving_frame().min
    }

    fn is_restore_owned(&self) -> (owned: bool)
        ensures
            owned == self.restore_owns(),
    {
        match self.owner {
            Some(strip) => strip.previous_position || strip.snap_settling,
            None => false,
        }
    }

    fn is_window_in_flight(&self) -> (flying: bool)
        ensures
            flying == self.window_in_flight(),
    {
        self.repositioning || self.resizing || (match self.drive {
            Some(drive) => drive.is_verifying(),
            None => false,
        })
    }

    fn is_strip_in_flight(&self) -> (flying: bool)
        ensures
            flying == self.strip_in_flight(),
    {
        match self.owner {
            Some(strip) => strip.flying_to.is_some() || strip.scrolling,
            None => false,
        }
    }

    fn is_strip_fresh(&self) -> (fresh: bool)
        ensures
            fresh == self.strip_fresh(),
    {
        match self.owner {
            Some(strip) => strip.fresh,
            None => false,
        }
    }

    fn is_background_tab(&self) -> (tab: bool)
        ensures
            tab == self.background_tab(),
    {
        match self.owner {
            Some(strip) => strip.tabbed,
            None => self.tabbed_on_screen,
        }
    }

    fn owner_viewport(&self) -> (viewport: IRect)
        ensures
            viewport == self.viewport(),
    {
        match self.owner {
            Some(strip) => strip.viewport,
            None => self.active_viewport,
        }
    }

    fn is_out_of_view(&self, windows: &Windows, entity: Entity) -> (outside: bool)
        requires
            windows.wf(),
            place_of(windows.all@, entity) matches Some(place) ==> self.viewport().max.diff_fits(
                place.size,
            ),
        ensures
            outside == self.out_of_view(windows.all@, entity),
    {
        match (windows.moving_frame(entity), windows.size(entity)) {
            (Some(frame), Some(size)) => clamp_origin_to_viewport(
                frame.min,
                size,
                self.owner_viewport(),
            ) != frame.min,
            _ => false,
        }
    }
}

/// What becomes of a window that just got the focus.
#[derive(Clone, Copy, Debug, PartialEq, Eq, Structural)]
pub enum Exposure {
    /// Nothing is owed.
    Nothing,
    /// The reveal has to wait for its strip or its write.
    Defer { deadline: Duration },
    /// The strip scrolls until the window is in view.
    Reveal,
}

/// Nothing but the window itself decides whether it is revealed: no drag, no
/// setup, no restore, no motion, and it is the tab that shows.
pub open spec fn at_rest(facts: RevealFacts) -> bool {
    &&& !facts.initializing
    &&& !facts.mouse_held
    &&& !facts.restored
    &&& !facts.restore_owns()
    &&& !facts.window_in_flight()
    &&& !facts.strip_in_flight()
    &&& !facts.background_tab()
}

/// What a focus arrival owes the window.
pub open spec fn exposure_owed(
    facts: RevealFacts,
    windows: Seq<WindowRecord>,
    entity: Entity,
) -> Exposure {
    let later = Exposure::Defer {
        deadline: Duration { nanos: (facts.now.nanos + 2_000_000_000) as u128 },
    };
    if !at_rest(facts) {
        Exposure::Nothing
    } else if find_where(windows, is_entity(entity)) is Some && facts.write_pending {
        later
    } else if !facts.out_of_view(windows, entity) || facts.reveal_queued {
        Exposure::Nothing
    } else if facts.strip_fresh() {
        later
    } else {
        Exposure::Reveal
    }
}

/// Makes sure that a window at rest that got the focus is fully in view. A
/// reveal waits while a write of the window is still on its way, and while its
/// strip has only just come on screen.
pub fn ensure_focused_visible(
    entity: Entity,
    facts: RevealFacts,
    windows: &Windows,
    requests: &mut Requests,
) -> (exposure: Exposure)
    requires
        windows.wf(),
        facts.now.nanos + 2_000_000_000 <= u128::MAX,
        place_of(windows.all@, entity) matches Some(place) ==> facts.viewport().max.diff_fits(
            place.size,
        ),
    ensures
        exposure == exposure_owed(facts, windows.all@, entity),
        final(requests)@ == (match exposure {
            Exposure::Nothing => old(requests)@,
            Exposure::Defer { deadline } => old(requests)@.push(
                Request::DeferReveal { entity, deadline },
            ),
            Exposure::Reveal => old(requests)@.push(Request::Reveal { entity, snap: false }),
        }),
{
    if facts.initializing || facts.mouse_held || facts.restored || facts.is_restore_owned()
        || facts.is_window_in_flight() || facts.is_strip_in_flight() || facts.is_background_tab() {
        return Exposure::Nothing;
    }
    let deadline = facts.now.plus(Duration::from_millis(DEFER_EXPOSE_TIMEOUT));
    if windows.get(entity).is_some() && facts.write_pending {
        requests.push(Request::DeferReveal { entity, deadline });
        return Exposure::Defer { deadline };
    }
    if !facts.is_out_of_view(windows, entity) || facts.reveal_queued {
        return Exposure::Nothing;
    }
    if facts.is_strip_fresh() {
        requests.push(Request::DeferReveal { entity, deadline });
        Exposure::Defer { deadline }
    } else {
        requests.ensure_visible(entity);
        Exposure::Reveal
    }
}

/// What becomes of a reveal that had to wait.
#[derive(Clone, Copy, Debug, PartialEq, Eq, Structural)]
pub enum Followup {
    /// It waits on.
    Keep,
    /// It is given up.
    Drop,
    /// The window is revealed now.
    Reveal,
}

/// What a waiting reveal has come to.
pub open spec fn followup_due(
    focused: bool,
    deadline: Duration,
    facts: RevealFacts,
    windows: Seq<WindowRecord>,
    entity: Entity,
) -> Followup {
    if !focused || facts.now.nanos > deadline.nanos {
        Followup::Drop
    } else if facts.initializing || facts.mouse_held {
        Followup::Keep
    } else if facts.restored || facts.restore_owns() {
        Followup::Drop
    } else if facts.window_in_flight() || facts.strip_in_flight() || facts.strip_fresh() {
        Followup::Keep
    } else if find_where(windows, is_entity(entity)) is Some && facts.write_pending {
        Followup::Keep
    } else if facts.background_tab() || !facts.out_of_view(windows, entity) {
        Followup::Drop
    } else {
        Followup::Reveal
    }
}

/// Comes back to a reveal that had to wait: passing states keep it, and it is
/// dropped once its focus moved on, its time ran out, a restore took over, or
/// the window is in view.
pub fn deferred_expose_followup(
    entity: Entity,
    focused: bool,
    deadline: Duration,
    facts: RevealFacts,
    windows: &Windows,
    requests: &mut Requests,
) -> (followup: Followup)
    requires
        windows.wf(),
        place_of(windows.all@, entity) matches Some(place) ==> facts.viewport().max.diff_fits(
            place.size,
        ),
    ensures
        followup == followup_due(focused, deadline, facts, windows.all@, entity),
        final(requests)@ == (match followup {
            Followup::Keep => old(requests)@,
            Followup::Drop => old(requests)@.push(Request::DropReveal { entity }),
            Followup::Reveal => old(requests)@.push(Request::Reveal { entity, snap: false }).push(
                Request::DropReveal { entity },
            ),
        }),
{
    if !focused || facts.now.nanos > deadline.nanos {
        requests.push(Request::DropReveal { entity });
        return Followup::Drop;
    }
    if facts.initializing || facts.mouse_held {
        return Followup::Keep;
    }
    if facts.restored || facts.is_restore_owned() {
        requests.push(Request::DropReveal { entity });
        return Followup::Drop;
    }
    if facts.is_window_in_flight() || facts.is_strip_in_flight() || facts.is_strip_fresh() {
        return Followup::Keep;
    }
    if windows.get(entity).is_some() && facts.write_pending {
        return Followup::Keep;
    }
    if facts.is_background_tab() || !facts.is_out_of_view(windows, entity) {
        requests.push(Request::DropReveal { entity });
        return Followup::Drop;
    }
    requests.ensure_visible(entity);
    requests.push(Request::DropReveal { entity });
    Followup::Reveal
}

/// A waiting reveal is settled for good once its time ran out, whatever else is
/// going on.
pub proof fn deferred_reveal_never_outlives_its_deadline(
    focused: bool,
    deadline: Duration,
    facts: RevealFacts,
    windows: Seq<WindowRecord>,
    entity: Entity,
)
    requires
        facts.now.nanos > deadline.nanos || !focused,
    ensures
        followup_due(focused, deadline, facts, windows, entity) == Followup::Drop,
{
}

/// Where a swipe, a setting or a drag stands when the pointer might follow the
/// focus.
#[derive(Clone, Copy, Debug, PartialEq, Eq, Structural)]
pub struct WarpFacts {
    /// The user swipes the strip on screen.
    pub swiping: bool,
    /// The setting that lets the pointer follow the focus.
    pub follows_focus: bool,
    pub mouse_held: bool,
    /// The strip that owns the window, and the area of its display.
    pub owner: Option<OwnerStrip>,
    pub cursor: Option<Origin>,
}

/// The frame that the window will show in once its strip has arrived.
pub open spec fn landing_frame(
    windows: Seq<WindowRecord>,
    entity: Entity,
    owner: Option<OwnerStrip>,
) -> IRect {
    let place = place_of(windows, entity)->0;
    match owner {
        Some(strip) => match strip.flying_to {
            Some(target) => IRect::framed(place.layout.spec_plus(target), place.size),
            None => place.spec_moving_frame(),
        },
        None => place.spec_moving_frame(),
    }
}

/// The overlap is more than a sliver: the squares of its extents add up to more
/// than this.
pub const VISIBLE_ENOUGH: i64 = 5000;

pub open spec fn visible_enough(overlap: IRect) -> bool {
    overlap.spec_width() * overlap.spec_width() + overlap.spec_height() * overlap.spec_height()
        > VISIBLE_ENOUGH
}

fn is_visible_enough(overlap: IRect) -> (enough: bool)
    requires
        overlap.ordered(),
    ensures
        enough == visible_enough(overlap),
{
    let w: i128 = overlap.max.x as i128 - overlap.min.x as i128;
    let h: i128 = overlap.max.y as i128 - overlap.min.y as i128;
    assert(0 <= w * w <= 0x1_0000_0000 * 0x1_0000_0000) by (nonlinear_arith)
        requires
            0 <= w <= 0x1_0000_0000,
    ;
    assert(0 <= h * h <= 0x1_0000_0000 * 0x1_0000_0000) by (nonlinear_arith)
        requires
            0 <= h <= 0x1_0000_0000,
    ;
    w * w + h * h > VISIBLE_ENOUGH as i128
}

/// Where the pointer goes when a window gets the focus.
pub open spec fn warp_target(
    entity: Entity,
    state: GlobalState,
    facts: WarpFacts,
    intent: FocusIntent,
    windows: Seq<WindowRecord>,
) -> Option<Origin> {
    if find_where(windows, is_entity(entity)) is None || place_of(windows, entity) is None {
        None
    } else {
        let window = find_where(windows, is_entity(entity))->0;
        let cause = cause_of(
            intent.user_focus,
            intent.last_press,
            intent.now,
            entity,
            place_of(windows, entity)->0.spec_moving_frame(),
        );
        let frame = landing_frame(windows, entity, facts.owner);
        let blocked = facts.swiping || !facts.follows_focus || state.skip_reshuffle
            || state.focus_follows_mouse_id == Some(window.id) || facts.mouse_held;
        let already_inside = facts.cursor matches Some(point) && frame.holds(point);
        if blocked || cause == FocusCause::Press || (cause == FocusCause::Ambient
            && already_inside) {
            None
        } else {
            match facts.owner {
                Some(strip) => if visible_enough(strip.viewport.overlap(frame)) {
                    Some(strip.viewport.overlap(frame).spec_center())
                } else {
                    None
                },
                None => None,
            }
        }
    }
}

/// Moves the pointer onto the window that got the focus. A click keeps its
/// pointer; a command always centres it; any other focus only fetches a pointer
/// that is elsewhere. A window that is all but hidden is not visited.
pub fn mouse_follows_focus(
    entity: Entity,
    state: GlobalState,
    facts: WarpFacts,
    intent: FocusIntent,
    windows: &Windows,
) -> (warp: Option<Origin>)
    requires
        windows.wf(),
        facts.owner matches Some(strip) ==> (place_of(windows.all@, entity) matches Some(place) ==> {
            &&& strip.flying_to matches Some(target) ==> place.layout.sum_fits(target)
                && place.layout.spec_plus(target).sum_fits(place.size)
            &&& strip.viewport.overlap(
                landing_frame(windows.all@, entity, facts.owner),
            ).centerable()
        }),
    ensures
        warp == warp_target(entity, state, facts, intent, windows.all@),
{
    let window = match windows.get(entity) {
        Some(window) => window,
        None => {
            return None;
        },
    };
    if facts.swiping || !facts.follows_focus || state.skip_reshuffle
        || state.focus_follows_mouse_id == Some(window.id) || facts.mouse_held {
        return None;
    }
    let raw_frame = match windows.moving_frame(entity) {
        Some(frame) => frame,
        None => {
            return None;
        },
    };
    let cause = focus_cause(
        &intent.user_focus,
        &intent.last_press,
        intent.now,
        entity,
        raw_frame,
    );
    if cause == FocusCause::Press {
        return None;
    }
    let mut frame = raw_frame;
    if let Some(strip) = facts.owner {
        if let Some(target) = strip.flying_to {
            if let Some(place) = windows.placement(entity) {
                frame = IRect::from_frame(place.layout.plus(target), place.size);
            }
        }
    }
    if cause != FocusCause::Keyboard {
        if let Some(point) = facts.cursor {
            if frame.contains(point) {
                return None;
            }
        }
    }
    match facts.owner {
        Some(strip) => {
            let visible = strip.viewport.intersect(frame);
            if is_visible_enough(visible) {
                Some(visible.center())
            } else {
                None
            }
        },
        None => None,
    }
}

/// Names the window that got the focus, to be shown in full again where the
/// settings dim windows.
pub fn dim_window_trigger(entity: Entity, windows: &Windows, dims: bool) -> (shown: Option<WinID>)
    ensures
        shown == (match find_where(windows.all@, is_entity(entity)) {
            Some(window) if dims => Some(window.id),
            _ => None,
        }),
{
    match windows.get(entity) {
        Some(window) if dims => Some(window.id),
        _ => None,
    }
}

/// Names the window that lost the focus, to be dimmed where the settings ask for
/// it: only a tiled window on the strip on screen is.
pub fn dim_remove_window_trigger(
    entity: Entity,
    windows: &Windows,
    active_strip: &LayoutStrip,
    dims: bool,
) -> (dimmed: Option<WinID>)
    ensures
        dimmed == (match find_where(windows.all@, is_entity(entity)) {
            Some(window) if dims && window.unmanaged is None && strip_has(
                active_strip@,
                entity,
            ) => Some(window.id),
            _ => None,
        }),
{
    match windows.get(entity) {
        Some(window) => if dims && window.unmanaged.is_none() && active_strip.contains(entity) {
            Some(window.id)
        } else {
            None
        },
        None => None,
    }
}

/// The condition of holding the window without being on screen.
pub open spec fn holds_offscreen(entity: Entity) -> spec_fn(StripEntry) -> bool {
    |entry: StripEntry| strip_has(entry.strip@, entity) && !entry.active
}

/// The strip that has to come on screen because its window got the focus.
pub fn virtual_strip_activated(entity: Entity, strips: &Vec<StripEntry>) -> (strip: Option<Entity>)
    ensures
        strip == (match find_where(strips@, holds_offscreen(entity)) {
            Some(entry) => Some(entry.entity),
            None => None,
        }),
{
    let mut i: usize = 0;
    while i < strips.len()
        invariant
            i <= strips.len(),
            first_where(strips@, holds_offscreen(entity)) == first_from(
                strips@,
                holds_offscreen(entity),
                i as int,
            ),
        decreases strips.len() - i,
    {
        if strips[i].strip.contains(entity) && !strips[i].active {
            return Some(strips[i].entity);
        }
        i = i + 1;
    }
    None
}

/// How the window server is asked to focus a window.
#[derive(Clone, Copy, Debug, PartialEq, Eq, Structural)]
pub enum FocusCall {
    WithRaise,
    WithoutRaise,
}

/// The condition of being that display and active.
pub open spec fn is_active_display(display: Entity) -> spec_fn((Entity, bool)) -> bool {
    |entry: (Entity, bool)| entry.0 == display && entry.1
}

/// Makes the display of a focused window the active one, if it is not already.
pub fn activate_owner_display(
    display: Entity,
    displays: &Vec<(Entity, bool)>,
    requests: &mut Requests,
)
    ensures
        final(requests)@ == (if any_where(displays@, is_active_display(display)) {
            old(requests)@
        } else {
            old(requests)@.push(Request::ActivateDisplay { display })
        }),
{
    let mut i: usize = 0;
    while i < displays.len()
        invariant
            i <= displays.len(),
            first_where(displays@, is_active_display(display)) == first_from(
                displays@,
                is_active_display(display),
                i as int,
            ),
            requests@ == old(requests)@,
        decreases displays.len() - i,
    {
        if displays[i].0 == display && displays[i].1 {
            return;
        }
        i = i + 1;
    }
    requests.push(Request::ActivateDisplay { display });
}

/// Gives a window the focus. An explicit focus takes the active display along;
/// a hover never does. A hover raises nothing as long as the window that has
/// the focus, and its process, are known.
pub fn focus_window_trigger(
    entity: Entity,
    raise: bool,
    windows: &Windows,
    strips: &Vec<StripEntry>,
    displays: &Vec<(Entity, bool)>,
    state: GlobalState,
    process_known: bool,
    focused_process_known: bool,
    requests: &mut Requests,
) -> (call: Option<FocusCall>)
    ensures
        call == (if find_where(windows.all@, is_entity(entity)) is None || !process_known {
            None
        } else if !raise && focus_of(windows.all@) is Some && focused_process_known {
            Some(FocusCall::WithoutRaise)
        } else {
            Some(FocusCall::WithRaise)
        }),
        final(requests)@ == (if find_where(windows.all@, is_entity(entity)) is Some && raise
            && state.focus_follows_mouse_id is None {
            match find_where(strips@, holds_window(entity)) {
                Some(entry) => if any_where(displays@, is_active_display(entry.display)) {
                    old(requests)@
                } else {
                    old(requests)@.push(Request::ActivateDisplay { display: entry.display })
                },
                None => old(requests)@,
            }
        } else {
            old(requests)@
        }),
{
    if windows.get(entity).is_none() {
        return None;
    }
    if raise && state.focus_follows_mouse_id.is_none() {
        if let Some(display) = owner_display(entity, strips) {
            activate_owner_display(display, displays, requests);
        }
    }
    if !process_known {
        return None;
    }
    if !raise && windows.focused().is_some() && focused_process_known {
        Some(FocusCall::WithoutRaise)
    } else {
        Some(FocusCall::WithRaise)
    }
}

/// The condition that a window of the strip is to be raised with it: it is not
/// the one that is raised last, and more than a sliver of it shows.
pub open spec fn raised_with(
    focus: Entity,
    viewport: IRect,
    windows: Seq<WindowRecord>,
) -> spec_fn(Entity) -> bool {
    |entity: Entity|
        entity != focus && (frame_of(windows, entity) matches Some(frame) && viewport.overlap(
            frame,
        ).spec_width() > 50)
}

/// The order in which a window is raised: the windows of its strip that show first, and
/// the window itself last.
pub open spec fn raise_order(
    entity: Entity,
    with_strip: bool,
    viewport: IRect,
    columns: Seq<ColumnView>,
    windows: Seq<WindowRecord>,
) -> Seq<Entity> {
    if place_of(windows, entity) is None {
        Seq::empty()
    } else if with_strip {
        let all = crate::ecs::layout::windows_to(columns, columns.len() as int);
        kept(all, raised_with(entity, viewport, windows), all.len() as int).push(entity)
    } else {
        seq![entity]
    }
}

/// The windows to raise, in order: those of the strip that show, where they are
/// wanted, and then the window itself, because the last one raised gets the
/// focus events.
pub fn raise_window_trigger(
    entity: Entity,
    with_strip: bool,
    viewport: IRect,
    strip: &LayoutStrip,
    windows: &Windows,
) -> (order: Vec<Entity>)
    requires
        windows.wf(),
    ensures
        order@ == raise_order(entity, with_strip, viewport, strip@, windows.all@),
{
    let mut order: Vec<Entity> = Vec::new();
    if windows.placement(entity).is_none() {
        return order;
    }
    if with_strip {
        let all = strip.all_windows();
        let mut i: usize = 0;
        while i < all.len()
            invariant
                i <= all.len(),
                windows.wf(),
                order@ == kept(all@, raised_with(entity, viewport, windows.all@), i as int),
            decreases all.len() - i,
        {
            let member = all[i];
            if member != entity {
                if let Some(frame) = windows.frame(member) {
                    let visible = viewport.intersect(frame);
                    if visible.max.x as i64 - visible.min.x as i64 > 50 {
                        order.push(member);
                    }
                }
            }
            i = i + 1;
        }
    }
    order.push(entity);
    order
}

/// The condition of waiting for that window.
pub open spec fn waits_for(window: WinID) -> spec_fn((Entity, StrayFocusEvent)) -> bool {
    |entry: (Entity, StrayFocusEvent)| entry.1.0 == window
}

/// Delivers the focus events again that came before their window was known.
/// Answers the entries that are spent.
pub fn stray_focus_observer(
    window: WinID,
    events: &Vec<(Entity, StrayFocusEvent)>,
    requests: &mut Requests,
) -> (spent: Vec<(Entity, StrayFocusEvent)>)
    ensures
        spent@ == kept(events@, waits_for(window), events@.len() as int),
        final(requests)@ == old(requests)@ + Seq::new(
            spent@.len(),
            |i: int| Request::WindowFocused { window },
        ),
{
    let mut spent: Vec<(Entity, StrayFocusEvent)> = Vec::new();
    let mut i: usize = 0;
    assert(requests@ =~= old(requests)@ + Seq::new(
        0,
        |i: int| Request::WindowFocused { window },
    ));
    while i < events.len()
        invariant
            i <= events.len(),
            spent@ == kept(events@, waits_for(window), i as int),
            requests@ == old(requests)@ + Seq::new(
                spent@.len(),
                |i: int| Request::WindowFocused { window },
            ),
        decreases events.len() - i,
    {
        if events[i].1.0 == window {
            let ghost before = requests@;
            requests.push(Request::WindowFocused { window });
            spent.push(events[i]);
            assert(requests@ =~= old(requests)@ + Seq::new(
                spent@.len(),
                |i: int| Request::WindowFocused { window },
            ));
        }
        i = i + 1;
    }
    spent
}

/// A command and a click on one window within their times: the click wins.
pub proof fn press_wins_over_command(
    user: UserFocus,
    press: LastPress,
    now: Duration,
    entity: Entity,
    frame: IRect,
)
    requires
        now.minus(press.at) <= 400_000_000,
        frame.holds(press.point),
    ensures
        cause_of(user, press, now, entity, frame) == FocusCause::Press,
{
}

/// A focus that nobody meant never moves the strip.
pub proof fn ambient_focus_never_rearranges(
    entity: Entity,
    guards: ArrivalGuards,
    owner: Option<OwnerStrip>,
    state: GlobalState,
    intent: FocusIntent,
    auto_center: bool,
    windows: Seq<WindowRecord>,
)
    requires
        frame_of(windows, entity) matches Some(frame) ==> cause_of(
            intent.user_focus,
            intent.last_press,
            intent.now,
            entity,
            frame,
        ) == FocusCause::Ambient,
    ensures
        arrival_requests(entity, guards, owner, state, intent, auto_center, windows) == Seq::<
            Request,
        >::empty(),
{
}

/// A click never loses its pointer, whatever else happens.
pub proof fn press_owns_the_pointer(
    entity: Entity,
    state: GlobalState,
    facts: WarpFacts,
    intent: FocusIntent,
    windows: Seq<WindowRecord>,
)
    requires
        place_of(windows, entity) matches Some(place) ==> cause_of(
            intent.user_focus,
            intent.last_press,
            intent.now,
            entity,
            place.spec_moving_frame(),
        ) == FocusCause::Press,
    ensures
        warp_target(entity, state, facts, intent, windows) is None,
{
}

} // verus!
