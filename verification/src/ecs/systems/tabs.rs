//! Native tabs: windows of one application that share a frame, of which the
//! window server shows one.
use vstd::prelude::*;

use crate::commands::displays::only_columns_changed;
use crate::ecs::layout::{
    list_contains, strip_has, strip_tabbed, strip_wf, tops_to, ColumnKind, ColumnView, LayoutStrip,
};
use crate::ecs::params::{holds_window, is_window, owner_index, StripEntry, Windows};
use crate::ecs::{Request, Requests};
use crate::geometry::{abs_diff, distance, Entity, IRect, Origin, Size, WinID};
use crate::seqs::{find_where, first_from, first_where, lemma_first_from};

verus! {

/// A window that might be one of several tabs.
#[derive(Clone, Copy, Debug, PartialEq, Eq, Structural)]
pub struct TabCandidate {
    pub entity: Entity,
    pub id: WinID,
    /// The application that owns the window.
    pub app: Entity,
    pub position: Origin,
    pub size: Size,
    /// The window server shows it.
    pub on_screen: bool,
}

/// The condition of being that window.
pub open spec fn is_candidate(entity: Entity) -> spec_fn(TabCandidate) -> bool {
    |window: TabCandidate| window.entity == entity
}

fn candidate(windows: &Vec<TabCandidate>, entity: Entity) -> (found: Option<TabCandidate>)
    ensures
        found == find_where(windows@, is_candidate(entity)),
        found matches Some(window) ==> window.entity == entity,
{
    let mut i: usize = 0;
    while i < windows.len()
        invariant
            i <= windows.len(),
            first_where(windows@, is_candidate(entity)) == first_from(
                windows@,
                is_candidate(entity),
                i as int,
            ),
        decreases windows.len() - i,
    {
        if windows[i].entity == entity {
            return Some(windows[i]);
        }
        i = i + 1;
    }
    None
}

/// The settled windows at the top of the first `n` columns.
pub open spec fn settled_tops(windows: Seq<TabCandidate>, tops: Seq<Entity>, n: int) -> Seq<TabCandidate>
    decreases n,
{
    if n <= 0 {
        Seq::empty()
    } else {
        match find_where(windows, is_candidate(tops[n - 1])) {
            Some(window) => settled_tops(windows, tops, n - 1).push(window),
            None => settled_tops(windows, tops, n - 1),
        }
    }
}

/// Whether a window has a column of its own.
pub open spec fn stands_alone(columns: Seq<ColumnView>, entity: Entity) -> bool {
    exists|c: int|
        0 <= c < columns.len() && (#[trigger] columns[c]).kind == ColumnKind::Single
            && columns[c].spec_top() == Some(entity)
}

/// The condition of being the tab that shows in place of a hidden one: on
/// screen, of the same application, with the same frame up to a pixel.
pub open spec fn shows_for(hidden: TabCandidate) -> spec_fn(TabCandidate) -> bool {
    |window: TabCandidate|
        window.on_screen && window.entity != hidden.entity && window.app == hidden.app
            && window.position.near(hidden.position, 1) && window.size.near(hidden.size, 1)
}

fn leader_for(windows: &Vec<TabCandidate>, hidden: TabCandidate) -> (found: Option<TabCandidate>)
    ensures
        found == find_where(windows@, shows_for(hidden)),
        found matches Some(leader) ==> leader.entity != hidden.entity,
{
    let mut i: usize = 0;
    while i < windows.len()
        invariant
            i <= windows.len(),
            first_where(windows@, shows_for(hidden)) == first_from(
                windows@,
                shows_for(hidden),
                i as int,
            ),
        decreases windows.len() - i,
    {
        let window = windows[i];
        if window.on_screen && window.entity != hidden.entity && window.app == hidden.app
            && window.position.is_near(hidden.position, 1) && window.size.is_near(hidden.size, 1) {
            return Some(window);
        }
        i = i + 1;
    }
    None
}

/// A strip, and the windows that were folded into tabs.
pub struct Regrouped {
    pub columns: Seq<ColumnView>,
    pub folded: Seq<Entity>,
}

/// The strip after the first `n` tops were looked at. `before` is the strip that
/// it started from: only what had a column of its own there is folded.
pub open spec fn regrouped_to(
    before: Seq<ColumnView>,
    windows: Seq<TabCandidate>,
    n: int,
) -> Regrouped
    decreases n,
{
    if n <= 0 {
        Regrouped { columns: before, folded: Seq::empty() }
    } else {
        let so_far = regrouped_to(before, windows, n - 1);
        let hidden = windows[n - 1];
        if hidden.on_screen || so_far.folded.contains(hidden.entity) || !stands_alone(
            before,
            hidden.entity,
        ) {
            so_far
        } else {
            match find_where(windows, shows_for(hidden)) {
                Some(leader) if strip_has(so_far.columns, leader.entity) => Regrouped {
                    columns: strip_tabbed(so_far.columns, leader.entity, hidden.entity),
                    folded: so_far.folded.push(hidden.entity),
                },
                _ => so_far,
            }
        }
    }
}

fn lone_tops(strip: &LayoutStrip) -> (alone: Vec<Entity>)
    ensures
        forall|entity: Entity| #[trigger]
            alone@.contains(entity) <==> stands_alone(strip@, entity),
{
    let mut alone: Vec<Entity> = Vec::new();
    let mut i: usize = 0;
    while i < strip.columns.len()
        invariant
            i <= strip.columns.len(),
            strip@.len() == strip.columns.len(),
            forall|entity: Entity| #[trigger]
                alone@.contains(entity) <==> exists|c: int|
                    0 <= c < i && (#[trigger] strip@[c]).kind == ColumnKind::Single
                        && strip@[c].spec_top() == Some(entity),
        decreases strip.columns.len() - i,
    {
        let ghost before = alone@;
        assert(strip@[i as int] == strip.columns@[i as int]@);
        let mut pushed: Option<Entity> = None;
        if strip.columns[i].kind == ColumnKind::Single {
            if let Some(top) = strip.columns[i].top() {
                alone.push(top);
                pushed = Some(top);
            }
        }
        assert forall|entity: Entity| #[trigger]
            alone@.contains(entity) <==> exists|c: int|
                0 <= c < i + 1 && (#[trigger] strip@[c]).kind == ColumnKind::Single
                    && strip@[c].spec_top() == Some(entity) by {
            if alone@.contains(entity) {
                let k = choose|k: int| 0 <= k < alone@.len() && alone@[k] == entity;
                if k < before.len() {
                    assert(before[k] == entity);
                    assert(before.contains(entity));
                } else {
                    assert(strip@[i as int].kind == ColumnKind::Single
                        && strip@[i as int].spec_top() == Some(entity));
                }
            }
            if exists|c: int|
                0 <= c < i + 1 && (#[trigger] strip@[c]).kind == ColumnKind::Single
                    && strip@[c].spec_top() == Some(entity) {
                let c = choose|c: int|
                    0 <= c < i + 1 && (#[trigger] strip@[c]).kind == ColumnKind::Single
                        && strip@[c].spec_top() == Some(entity);
                if c < i {
                    assert(before.contains(entity));
                    let k = choose|k: int| 0 <= k < before.len() && before[k] == entity;
                    assert(alone@[k] == entity);
                } else {
                    assert(alone@[alone@.len() - 1] == entity);
                }
            }
        }
        i = i + 1;
    }
    alone
}

/// Folds tabs that are not shown and ended up in a column of their own back into
/// the column of the tab that is shown. `windows` are the settled tiled windows.
/// Nothing is pulled out of a stack or a group. The strip is laid out again
/// around the first window that was folded.
pub fn regroup_stray_native_tabs(
    strip: &mut LayoutStrip,
    windows: &Vec<TabCandidate>,
    mission_control: bool,
    requests: &mut Requests,
)
    requires
        strip_wf(old(strip)@),
    ensures
        ({
            let tops = tops_to(old(strip)@, old(strip)@.len() as int);
            let shown = settled_tops(windows@, tops, tops.len() as int);
            let after = regrouped_to(old(strip)@, shown, shown.len() as int);
            if mission_control {
                final(strip)@ == old(strip)@ && final(requests)@ == old(requests)@
            } else {
                &&& final(strip)@ == after.columns
                &&& final(requests)@ == (if after.folded.len() == 0 {
                    old(requests)@
                } else {
                    old(requests)@.push(
                        Request::Reshuffle { entity: after.folded[0], force: false },
                    )
                })
            }
        }),
        strip_wf(final(strip)@),
        final(strip).id == old(strip).id,
        final(strip).virtual_index == old(strip).virtual_index,
{
    if mission_control {
        return;
    }
    let tops = strip.all_columns();
    let strays = lone_tops(strip);
    let mut shown: Vec<TabCandidate> = Vec::new();
    let mut i: usize = 0;
    while i < tops.len()
        invariant
            i <= tops.len(),
            shown@ == settled_tops(windows@, tops@, i as int),
        decreases tops.len() - i,
    {
        if let Some(window) = candidate(windows, tops[i]) {
            shown.push(window);
        }
        i = i + 1;
    }
    let mut folded: Vec<Entity> = Vec::new();
    let mut k: usize = 0;
    while k < shown.len()
        invariant
            k <= shown.len(),
            strip_wf(strip@),
            strip.id == old(strip).id,
            strip.virtual_index == old(strip).virtual_index,
            forall|entity: Entity| #[trigger]
                strays@.contains(entity) <==> stands_alone(old(strip)@, entity),
            strip@ == regrouped_to(old(strip)@, shown@, k as int).columns,
            folded@ == regrouped_to(old(strip)@, shown@, k as int).folded,
        decreases shown.len() - k,
    {
        let hidden = shown[k];
        if !hidden.on_screen && !list_contains(&folded, hidden.entity) && list_contains(
            &strays,
            hidden.entity,
        ) {
            if let Some(leader) = leader_for(&shown, hidden) {
                if let Ok(()) = strip.convert_to_tabs(leader.entity, hidden.entity) {
                    folded.push(hidden.entity);
                }
            }
        }
        k = k + 1;
    }
    if folded.len() > 0 {
        requests.reshuffle_around(folded[0]);
    }
}

/// The condition of being a possible sibling of a new window: of the same
/// application, with the same size up to a pixel.
pub open spec fn same_size_as(created: TabCandidate) -> spec_fn(TabCandidate) -> bool {
    |window: TabCandidate|
        window.entity != created.entity && window.app == created.app && window.size.near(
            created.size,
            1,
        )
}

/// The condition of being a sibling in the same place, up to a pixel.
pub open spec fn sibling_in_place(created: TabCandidate) -> spec_fn(TabCandidate) -> bool {
    |window: TabCandidate|
        (same_size_as(created))(window) && window.position.near(created.position, 1)
}

/// Whether a window sticks out of the display.
pub open spec fn sticks_out(window: TabCandidate, display: IRect) -> bool {
    let right = window.position.x + window.size.x;
    let bottom = window.position.y + window.size.y;
    !display.holds(window.position) || !(display.min.x <= right <= display.max.x && display.min.y
        <= bottom <= display.max.y)
}

/// Among the first `n` windows, the sibling that sticks out of the display and is
/// nearest to the new window from side to side; the first of those as near.
pub open spec fn nearest_outside(
    windows: Seq<TabCandidate>,
    created: TabCandidate,
    display: IRect,
    n: int,
) -> Option<TabCandidate>
    decreases n,
{
    if n <= 0 {
        None
    } else {
        let here = windows[n - 1];
        let before = nearest_outside(windows, created, display, n - 1);
        if (same_size_as(created))(here) && sticks_out(here, display) {
            match before {
                Some(best) if distance(created.position.x as int, best.position.x as int)
                    <= distance(created.position.x as int, here.position.x as int) => Some(best),
                _ => Some(here),
            }
        } else {
            before
        }
    }
}

/// The window that a new one is a tab of: a sibling in the same place, else the
/// nearest sibling that the new window pushed out of view.
pub open spec fn tab_leader(
    windows: Seq<TabCandidate>,
    created: TabCandidate,
    display: IRect,
) -> Option<TabCandidate> {
    match find_where(windows, sibling_in_place(created)) {
        Some(leader) => Some(leader),
        None => nearest_outside(windows, created, display, windows.len() as int),
    }
}

fn outside(window: &TabCandidate, display: IRect) -> (out: bool)
    ensures
        out == sticks_out(*window, display),
{
    let right: i64 = window.position.x as i64 + window.size.x as i64;
    let bottom: i64 = window.position.y as i64 + window.size.y as i64;
    !display.contains(window.position) || !(display.min.x as i64 <= right && right
        <= display.max.x as i64 && display.min.y as i64 <= bottom && bottom
        <= display.max.y as i64)
}

/// Finds the window that a new one is a tab of.
pub fn find_tab_leader(windows: &Vec<TabCandidate>, created: &TabCandidate, display: IRect) -> (
    leader: Option<TabCandidate>)
    ensures
        leader == tab_leader(windows@, *created, display),
        leader matches Some(found) ==> found.entity != created.entity,
{
    let mut i: usize = 0;
    while i < windows.len()
        invariant
            i <= windows.len(),
            first_where(windows@, sibling_in_place(*created)) == first_from(
                windows@,
                sibling_in_place(*created),
                i as int,
            ),
        decreases windows.len() - i,
    {
        let window = windows[i];
        if window.entity != created.entity && window.app == created.app && window.size.is_near(
            created.size,
            1,
        ) && window.position.is_near(created.position, 1) {
            return Some(window);
        }
        i = i + 1;
    }
    let mut best: Option<TabCandidate> = None;
    let mut k: usize = 0;
    while k < windows.len()
        invariant
            k <= windows.len(),
            best == nearest_outside(windows@, *created, display, k as int),
            best matches Some(found) ==> found.entity != created.entity,
        decreases windows.len() - k,
    {
        let here = windows[k];
        if here.entity != created.entity && here.app == created.app && here.size.is_near(
            created.size,
            1,
        ) && outside(&here, display) {
            best = match best {
                Some(found) => if abs_diff(created.position.x, found.position.x) <= abs_diff(
                    created.position.x,
                    here.position.x,
                ) {
                    Some(found)
                } else {
                    Some(here)
                },
                None => Some(here),
            };
        }
        k = k + 1;
    }
    best
}

/// Looks whether a new window is a tab of one of the windows of the strip on
/// screen, and makes it one: only where the window server is known not to show
/// that window. The new tab then gets the focus.
pub fn detect_tabbed_window(
    created: &TabCandidate,
    workspace: &Vec<TabCandidate>,
    display: IRect,
    on_screen_known: bool,
    strips: &mut Vec<StripEntry>,
    requests: &mut Requests,
)
    requires
        forall|k: int|
            0 <= k < old(strips)@.len() ==> strip_wf((#[trigger] old(strips)@[k]).strip@),
    ensures
        ({
            let leader = tab_leader(workspace@, *created, display);
            let at = match leader {
                Some(found) => first_where(old(strips)@, holds_window(found.entity)),
                None => old(strips)@.len() as int,
            };
            let joins = leader is Some && on_screen_known && !leader->0.on_screen && at < old(
                strips,
            )@.len();
            &&& final(requests)@ == (if joins {
                old(requests)@.push(Request::Focus { entity: created.entity, raise: false })
            } else {
                old(requests)@
            })
            &&& if joins {
                only_columns_changed(
                    old(strips)@,
                    final(strips)@,
                    at,
                    strip_tabbed(old(strips)@[at].strip@, leader->0.entity, created.entity),
                )
            } else {
                final(strips)@ == old(strips)@
            }
        }),
        forall|k: int|
            0 <= k < final(strips)@.len() ==> strip_wf((#[trigger] final(strips)@[k]).strip@),
{
    let leader = match find_tab_leader(workspace, created, display) {
        Some(leader) => leader,
        None => {
            return;
        },
    };
    if !on_screen_known || leader.on_screen {
        return;
    }
    let at = match owner_index(leader.entity, strips) {
        Some(at) => at,
        None => {
            return;
        },
    };
    proof {
        lemma_first_from(strips@, holds_window(leader.entity), 0);
        assert((holds_window(leader.entity))(strips@[at as int]));
    }
    let mut entry = strips.remove(at);
    assert(entry == old(strips)@[at as int]);
    let done = entry.strip.convert_to_tabs(leader.entity, created.entity);
    strips.insert(at, entry);
    if done.is_ok() {
        requests.focus_entity(created.entity, false);
    }
}

/// Windows that were found to be unmanageable and are not looked up again.
#[derive(Debug)]
pub struct UnmanageableCache {
    pub ids: Vec<WinID>,
}

/// Windows that may be remembered; beyond that all are forgotten.
pub const CACHE_CLEANUP_SIZE: usize = 1000;

impl UnmanageableCache {
    pub fn new() -> (cache: UnmanageableCache)
        ensures
            cache.ids@ == Seq::<WinID>::empty(),
    {
        UnmanageableCache { ids: Vec::new() }
    }

    /// Forgets everything once there is too much.
    pub fn tidy(&mut self)
        ensures
            final(self).ids@ == (if old(self).ids@.len() > CACHE_CLEANUP_SIZE {
                Seq::<WinID>::empty()
            } else {
                old(self).ids@
            }),
    {
        if self.ids.len() > CACHE_CLEANUP_SIZE {
            self.ids.clear();
        }
    }

    /// Whether a focused window is to be looked up: it is neither known nor
    /// remembered as unmanageable.
    pub fn wants(&self, window: WinID, known: bool) -> (wants: bool)
        ensures
            wants == (!known && !self.ids@.contains(window)),
    {
        if known {
            return false;
        }
        let mut i: usize = 0;
        while i < self.ids.len()
            invariant
                i <= self.ids.len(),
                forall|k: int| 0 <= k < i ==> self.ids@[k] != window,
            decreases self.ids.len() - i,
        {
            if self.ids[i] == window {
                return false;
            }
            i = i + 1;
        }
        true
    }

    /// Remembers a window that could not be managed.
    pub fn note(&mut self, window: WinID)
        ensures
            final(self).ids@ == (if old(self).ids@.contains(window) {
                old(self).ids@
            } else {
                old(self).ids@.push(window)
            }),
    {
        if self.wants(window, false) {
            self.ids.push(window);
        }
    }
}

/// The applications in front among the first `n`, or the others.
pub open spec fn apps_to(frontmost: Seq<bool>, front: bool, n: int) -> Seq<usize>
    decreases n,
{
    if n <= 0 {
        Seq::empty()
    } else if frontmost[n - 1] == front {
        apps_to(frontmost, front, n - 1).push((n - 1) as usize)
    } else {
        apps_to(frontmost, front, n - 1)
    }
}

/// The order in which applications are asked for an unknown window: those in
/// front first, each group in its own order.
pub fn discovery_order(frontmost: &Vec<bool>) -> (order: Vec<usize>)
    ensures
        order@ == apps_to(frontmost@, true, frontmost@.len() as int) + apps_to(
            frontmost@,
            false,
            frontmost@.len() as int,
        ),
{
    let mut order: Vec<usize> = Vec::new();
    let mut i: usize = 0;
    while i < frontmost.len()
        invariant
            i <= frontmost.len(),
            order@ == apps_to(frontmost@, true, i as int),
        decreases frontmost.len() - i,
    {
        if frontmost[i] {
            order.push(i);
        }
        i = i + 1;
    }
    let ghost front = order@;
    let mut k: usize = 0;
    assert(order@ =~= front + apps_to(frontmost@, false, 0));
    while k < frontmost.len()
        invariant
            k <= frontmost.len(),
            order@ == front + apps_to(frontmost@, false, k as int),
        decreases frontmost.len() - k,
    {
        if !frontmost[k] {
            order.push(k);
        }
        k = k + 1;
        assert(order@ =~= front + apps_to(frontmost@, false, k as int));
    }
    order
}

/// What an application shows of its windows.
#[derive(Debug)]
pub struct AppWindows {
    pub frontmost: bool,
    pub focused: Option<WinID>,
    pub listed: Vec<WinID>,
}

impl AppWindows {
    /// Whether the window is the application's focused one, or one of its list.
    pub open spec fn shows(self, window: WinID) -> bool {
        self.focused == Some(window) || self.listed@.contains(window)
    }

    pub fn offers(&self, window: WinID) -> (found: bool)
        ensures
            found == self.shows(window),
    {
        if let Some(id) = self.focused {
            if id == window {
                return true;
            }
        }
        let mut i: usize = 0;
        while i < self.listed.len()
            invariant
                i <= self.listed.len(),
                self.focused != Some(window),
                forall|k: int| 0 <= k < i ==> self.listed@[k] != window,
            decreases self.listed.len() - i,
        {
            if self.listed[i] == window {
                return true;
            }
            i = i + 1;
        }
        false
    }
}

/// Which applications are in front.
pub open spec fn fronts(apps: Seq<AppWindows>) -> Seq<bool> {
    apps.map_values(|app: AppWindows| app.frontmost)
}

/// The places of the applications in the order in which they are asked.
pub open spec fn asked(apps: Seq<AppWindows>) -> Seq<usize> {
    let count = apps.len() as int;
    apps_to(fronts(apps), true, count) + apps_to(fronts(apps), false, count)
}

/// The condition that the application at a place shows the window.
pub open spec fn shown_at(apps: Seq<AppWindows>, window: WinID) -> spec_fn(usize) -> bool {
    |place: usize| apps[place as int].shows(window)
}

proof fn lemma_apps_to(frontmost: Seq<bool>, front: bool, n: int)
    requires
        0 <= n <= frontmost.len() <= usize::MAX,
    ensures
        forall|k: int|
            0 <= k < apps_to(frontmost, front, n).len() ==> #[trigger] apps_to(
                frontmost,
                front,
                n,
            )[k] < n,
    decreases n,
{
    if n > 0 {
        lemma_apps_to(frontmost, front, n - 1);
        let before = apps_to(frontmost, front, n - 1);
        let now = apps_to(frontmost, front, n);
        assert forall|k: int| 0 <= k < now.len() implies #[trigger] now[k] < n by {
            if k < before.len() {
                assert(now[k] == before[k]);
                assert(before[k] < n - 1);
            }
        }
    }
}

/// Answers the focus of a window that may be unknown: the place of the first
/// application asked that shows it. A known window, or one that is remembered as
/// unmanageable, is not asked for; one that no application shows is remembered.
pub fn auto_discover_unmanaged_focused_windows(
    window: WinID,
    windows: &Windows,
    apps: &Vec<AppWindows>,
    cache: &mut UnmanageableCache,
) -> (found: Option<usize>)
    ensures
        ({
            let known = find_where(windows.all@, is_window(window)) is Some;
            let skipped = known || old(cache).ids@.contains(window);
            let owner = find_where(asked(apps@), shown_at(apps@, window));
            &&& found == (if skipped {
                None
            } else {
                owner
            })
            &&& final(cache).ids@ == (if skipped || owner is Some {
                old(cache).ids@
            } else {
                old(cache).ids@.push(window)
            })
        }),
{
    if !cache.wants(window, windows.find(window).is_some()) {
        return None;
    }
    let mut frontmost: Vec<bool> = Vec::new();
    let mut i: usize = 0;
    while i < apps.len()
        invariant
            i <= apps.len(),
            frontmost@ == fronts(apps@).take(i as int),
        decreases apps.len() - i,
    {
        frontmost.push(apps[i].frontmost);
        i = i + 1;
        assert(frontmost@ =~= fronts(apps@).take(i as int));
    }
    assert(frontmost@ =~= fronts(apps@));
    let order = discovery_order(&frontmost);
    proof {
        lemma_apps_to(frontmost@, true, frontmost@.len() as int);
        lemma_apps_to(frontmost@, false, frontmost@.len() as int);
    }
    let mut k: usize = 0;
    while k < order.len()
        invariant
            k <= order.len(),
            order@ == asked(apps@),
            forall|j: int| 0 <= j < order@.len() ==> #[trigger] order@[j] < apps@.len(),
            first_where(order@, shown_at(apps@, window)) == first_from(
                order@,
                shown_at(apps@, window),
                k as int,
            ),
            cache.ids@ == old(cache).ids@,
            find_where(windows.all@, is_window(window)) is None,
            !old(cache).ids@.contains(window),
        decreases order.len() - k,
    {
        let place = order[k];
        assert(order@[k as int] < apps@.len());
        if apps[place].offers(window) {
            return Some(place);
        }
        k = k + 1;
    }
    cache.note(window);
    None
}

} // verus!
