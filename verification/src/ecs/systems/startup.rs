//! Setting the world up: displays and strips, the windows that are already
//! there, and the polls for what is being launched.
use vstd::prelude::*;

use crate::ecs::layout::membership::{appending_adds_one, membership_is_listing, windows_in};
use crate::ecs::layout::order::{joined_by, refreshed, sorted_columns};
use crate::ecs::layout::{
    list_contains, strip_has, strip_wf, top_at, ColumnView, LayoutStrip,
};
use crate::ecs::params::{
    frame_of, is_entity, is_managed_window, is_window, StripEntry, WindowRecord, Windows,
};
use crate::ecs::{Request, Requests, SpawnWindowTrigger, UserFocus};
use crate::geometry::{DisplayId, Entity, IRect, Origin, WinID, WorkspaceId};
use crate::seqs::{any_where, find_where, first_from, first_where};
use crate::time::Duration;

verus! {

/// A display that is present, with its spaces.
#[derive(Debug)]
pub struct PresentDisplay {
    pub id: DisplayId,
    pub bounds: IRect,
    pub spaces: Vec<WorkspaceId>,
}

/// A display to set up, by its place among the present ones, and the strips of
/// its spaces in their order.
#[derive(Debug)]
pub struct NewDisplay {
    pub active: bool,
    /// Where its strips start.
    pub origin: Origin,
    /// For each space, its number and whether it is the one on screen.
    pub strips: Vec<(WorkspaceId, bool)>,
}

/// The strips of a display's first `n` spaces.
pub open spec fn strips_to(
    spaces: Seq<WorkspaceId>,
    shown: Option<WorkspaceId>,
    n: int,
) -> Seq<(WorkspaceId, bool)> {
    Seq::new(n as nat, |k: int| (spaces[k], shown == Some(spaces[k])))
}

/// Sets the displays up. Only one strip is on screen: that of the space which the
/// active display shows. Without an active display nothing is set up.
pub fn gather_displays(
    active: Option<DisplayId>,
    active_space: Option<WorkspaceId>,
    displays: &Vec<PresentDisplay>,
) -> (found: Vec<NewDisplay>)
    ensures
        active is None ==> found@.len() == 0,
        active matches Some(id) ==> {
            &&& found@.len() == displays@.len()
            &&& forall|k: int|
                0 <= k < displays@.len() ==> (#[trigger] found@[k]).active == (displays@[k].id
                    == id) && found@[k].origin == displays@[k].bounds.min && found@[k].strips@
                    == strips_to(
                    displays@[k].spaces@,
                    if displays@[k].id == id {
                        active_space
                    } else {
                        None
                    },
                    displays@[k].spaces@.len() as int,
                )
        },
{
    let mut found: Vec<NewDisplay> = Vec::new();
    let id = match active {
        Some(id) => id,
        None => {
            return found;
        },
    };
    let mut i: usize = 0;
    while i < displays.len()
        invariant
            i <= displays.len(),
            found@.len() == i,
            forall|k: int|
                0 <= k < i ==> (#[trigger] found@[k]).active == (displays@[k].id == id)
                    && found@[k].origin == displays@[k].bounds.min && found@[k].strips@
                    == strips_to(
                    displays@[k].spaces@,
                    if displays@[k].id == id {
                        active_space
                    } else {
                        None
                    },
                    displays@[k].spaces@.len() as int,
                ),
        decreases displays.len() - i,
    {
        let display = &displays[i];
        let mine = display.id == id;
        let ghost shown = if display.id == id {
            active_space
        } else {
            None
        };
        let mut strips: Vec<(WorkspaceId, bool)> = Vec::new();
        let mut k: usize = 0;
        assert(strips@ =~= strips_to(display.spaces@, shown, 0));
        while k < display.spaces.len()
            invariant
                k <= display.spaces.len(),
                mine == (display.id == id),
                shown == (if display.id == id {
                    active_space
                } else {
                    None
                }),
                strips@ == strips_to(display.spaces@, shown, k as int),
            decreases display.spaces.len() - k,
        {
            let space = display.spaces[k];
            strips.push((space, mine && active_space == Some(space)));
            k = k + 1;
            assert(strips@ =~= strips_to(display.spaces@, shown, k as int));
        }
        found.push(NewDisplay { active: mine, origin: display.bounds.min, strips });
        i = i + 1;
    }
    found
}

/// A strip that exists.
#[derive(Clone, Copy, Debug, PartialEq, Eq, Structural)]
pub struct KnownStrip {
    pub id: WorkspaceId,
    pub virtual_index: u32,
    pub display: Entity,
    pub origin: Origin,
}

/// Whether this strip is the first one of its space on its display.
pub open spec fn is_ground(strips: Seq<KnownStrip>, k: int) -> bool {
    &&& strips[k].virtual_index == 0
    &&& forall|j: int|
        0 <= j < k && (#[trigger] strips[j]).virtual_index == 0 ==> !(strips[j].id == strips[k].id
            && strips[j].display == strips[k].display)
}

/// The virtual strips over a space, up to an index.
pub open spec fn storeys(ground: KnownStrip, upto: int) -> Seq<KnownStrip> {
    Seq::new(
        if upto > 1 {
            (upto - 1) as nat
        } else {
            0
        },
        |v: int| KnownStrip { virtual_index: (v + 1) as u32, ..ground },
    )
}

/// The virtual strips over the spaces of the first `n` strips.
pub open spec fn storeys_to(strips: Seq<KnownStrip>, wanted: u32, n: int) -> Seq<KnownStrip>
    decreases n,
{
    if n <= 0 {
        Seq::empty()
    } else if is_ground(strips, n - 1) {
        storeys_to(strips, wanted, n - 1) + storeys(strips[n - 1], wanted as int)
    } else {
        storeys_to(strips, wanted, n - 1)
    }
}

/// Names the virtual strips to make, so that every space has as many as the
/// settings ask for.
pub fn initialise_workspaces(strips: &Vec<KnownStrip>, wanted: u32) -> (fresh: Vec<KnownStrip>)
    ensures
        fresh@ == (if wanted <= 1 {
            Seq::empty()
        } else {
            storeys_to(strips@, wanted, strips@.len() as int)
        }),
{
    let mut fresh: Vec<KnownStrip> = Vec::new();
    if wanted <= 1 {
        return fresh;
    }
    let mut i: usize = 0;
    while i < strips.len()
        invariant
            i <= strips.len(),
            wanted > 1,
            fresh@ == storeys_to(strips@, wanted, i as int),
        decreases strips.len() - i,
    {
        let strip = strips[i];
        let mut first = strip.virtual_index == 0;
        let mut j: usize = 0;
        while j < i && first
            invariant
                j <= i,
                i < strips.len(),
                strip == strips@[i as int],
                first ==> strip.virtual_index == 0 && forall|k: int|
                    0 <= k < j && (#[trigger] strips@[k]).virtual_index == 0 ==> !(strips@[k].id
                        == strip.id && strips@[k].display == strip.display),
                !first ==> !is_ground(strips@, i as int),
            decreases i - j,
        {
            let other = strips[j];
            if other.virtual_index == 0 && other.id == strip.id && other.display
                == strip.display {
                assert(strips@[j as int].virtual_index == 0);
                first = false;
            }
            j = j + 1;
        }
        if first {
            let ghost before = fresh@;
            let mut virtual_index: u32 = 1;
            assert(fresh@ =~= before + storeys(strip, 1));
            while virtual_index < wanted
                invariant
                    1 <= virtual_index <= wanted,
                    fresh@ == before + storeys(strip, virtual_index as int),
                decreases wanted - virtual_index,
            {
                fresh.push(KnownStrip { virtual_index, ..strip });
                virtual_index = virtual_index + 1;
                assert(fresh@ =~= before + storeys(strip, virtual_index as int));
            }
        }
        i = i + 1;
    }
    fresh
}

/// Whether a window floats from the start: its settings say so, and no earlier
/// session brings it back. Without settings or an application nothing is known.
pub fn is_startup_floating(has_config: bool, app_known: bool, restored: bool, floating: bool) -> (
    floats: bool)
    ensures
        floats == (has_config && app_known && !restored && floating),
{
    has_config && app_known && !restored && floating
}

/// What the window server and the settings say of windows at the start.
#[derive(Debug)]
pub struct StartupMarks {
    pub minimized: Vec<Entity>,
    /// Windows that float from the start.
    pub floating: Vec<Entity>,
}

/// The tiled windows of a space, among the first `n` that the window server
/// lists for it.
pub open spec fn members_to(
    windows: Seq<WindowRecord>,
    listed: Seq<WinID>,
    marks: StartupMarks,
    n: int,
) -> Seq<Entity>
    decreases n,
{
    if n <= 0 {
        Seq::empty()
    } else {
        let before = members_to(windows, listed, marks, n - 1);
        match find_where(windows, is_managed_window(listed[n - 1])) {
            Some(window) if !marks.minimized@.contains(window.entity)
                && !marks.floating@.contains(window.entity) => before.push(window.entity),
            _ => before,
        }
    }
}

/// The requests that mark the windows which stay out of the layout, among the
/// first `n` listed ones.
pub open spec fn marks_to(
    windows: Seq<WindowRecord>,
    listed: Seq<WinID>,
    marks: StartupMarks,
    n: int,
) -> Seq<Request>
    decreases n,
{
    if n <= 0 {
        Seq::empty()
    } else {
        let before = marks_to(windows, listed, marks, n - 1);
        match find_where(windows, is_managed_window(listed[n - 1])) {
            Some(window) => if marks.minimized@.contains(window.entity) {
                before.push(Request::Minimize { entity: window.entity })
            } else if marks.floating@.contains(window.entity) {
                before.push(Request::Float { entity: window.entity })
            } else {
                before
            },
            None => before,
        }
    }
}

/// The windows that stay out of the layout, among the first `n` listed ones.
pub open spec fn excluded_to(
    windows: Seq<WindowRecord>,
    listed: Seq<WinID>,
    marks: StartupMarks,
    n: int,
) -> Seq<Entity>
    decreases n,
{
    if n <= 0 {
        Seq::empty()
    } else {
        let before = excluded_to(windows, listed, marks, n - 1);
        match find_where(windows, is_managed_window(listed[n - 1])) {
            Some(window) if marks.minimized@.contains(window.entity) || marks.floating@.contains(
                window.entity,
            ) => before.push(window.entity),
            _ => before,
        }
    }
}

/// Sorts the windows that the window server lists for a space: those that are
/// tiled, and those that are marked and stay out.
pub fn startup_members(
    listed: &Vec<WinID>,
    windows: &Windows,
    marks: &StartupMarks,
    excluded: &mut Vec<Entity>,
    requests: &mut Requests,
) -> (members: Vec<Entity>)
    ensures
        members@ == members_to(windows.all@, listed@, *marks, listed@.len() as int),
        final(excluded)@ == old(excluded)@ + excluded_to(
            windows.all@,
            listed@,
            *marks,
            listed@.len() as int,
        ),
        final(requests)@ == old(requests)@ + marks_to(
            windows.all@,
            listed@,
            *marks,
            listed@.len() as int,
        ),
{
    let mut members: Vec<Entity> = Vec::new();
    let mut i: usize = 0;
    assert(excluded@ =~= old(excluded)@ + excluded_to(windows.all@, listed@, *marks, 0));
    assert(requests@ =~= old(requests)@ + marks_to(windows.all@, listed@, *marks, 0));
    while i < listed.len()
        invariant
            i <= listed.len(),
            members@ == members_to(windows.all@, listed@, *marks, i as int),
            excluded@ == old(excluded)@ + excluded_to(windows.all@, listed@, *marks, i as int),
            requests@ == old(requests)@ + marks_to(windows.all@, listed@, *marks, i as int),
        decreases listed.len() - i,
    {
        if let Some(window) = windows.find_managed(listed[i]) {
            if list_contains(&marks.minimized, window.entity) {
                requests.push(Request::Minimize { entity: window.entity });
                excluded.push(window.entity);
            } else if list_contains(&marks.floating, window.entity) {
                requests.push(Request::Float { entity: window.entity });
                excluded.push(window.entity);
            } else {
                members.push(window.entity);
            }
        }
        i = i + 1;
        assert(excluded@ =~= old(excluded)@ + excluded_to(
            windows.all@,
            listed@,
            *marks,
            i as int,
        ));
        assert(requests@ =~= old(requests)@ + marks_to(windows.all@, listed@, *marks, i as int));
    }
    members
}

/// A display, and the space that it shows.
#[derive(Clone, Copy, Debug, PartialEq, Eq, Structural)]
pub struct LiveDisplay {
    pub entity: Entity,
    pub bounds: IRect,
    pub space: Option<WorkspaceId>,
}

/// The condition of covering the middle of a frame.
pub open spec fn display_under(frame: IRect) -> spec_fn(LiveDisplay) -> bool {
    |display: LiveDisplay| display.bounds.holds(frame.spec_center())
}

/// The condition of being the strip of the space that a display shows.
pub open spec fn shown_on(display: LiveDisplay) -> spec_fn(StripEntry) -> bool {
    |entry: StripEntry|
        display.space == Some(entry.strip.id) && entry.display == display.entity
}

/// The strip that a window at that frame belongs in.
pub open spec fn home_strip(strips: Seq<StripEntry>, displays: Seq<LiveDisplay>, frame: IRect) -> Option<Entity> {
    match find_where(displays, display_under(frame)) {
        Some(display) => match find_where(strips, shown_on(display)) {
            Some(entry) => Some(entry.entity),
            None => None,
        },
        None => None,
    }
}

/// The condition of holding the window.
pub open spec fn has_window(entity: Entity) -> spec_fn(StripEntry) -> bool {
    |entry: StripEntry| strip_has(entry.strip@, entity)
}

/// Where a window goes that no strip holds: none where it is not tiled, has no
/// frame, has a strip already, is kept out, or is under no display with a strip.
pub open spec fn startup_home(
    windows: Seq<WindowRecord>,
    window: WindowRecord,
    strips: Seq<StripEntry>,
    displays: Seq<LiveDisplay>,
    excluded: Seq<Entity>,
) -> Option<Entity> {
    if window.unmanaged is Some || any_where(strips, has_window(window.entity))
        || excluded.contains(window.entity) {
        None
    } else {
        match frame_of(windows, window.entity) {
            Some(frame) => home_strip(strips, displays, frame),
            None => None,
        }
    }
}

/// The windows to place, with their strips, among the first `n`.
pub open spec fn moves_to(
    windows: Seq<WindowRecord>,
    strips: Seq<StripEntry>,
    displays: Seq<LiveDisplay>,
    excluded: Seq<Entity>,
    n: int,
) -> Seq<(Entity, Entity)>
    decreases n,
{
    if n <= 0 {
        Seq::empty()
    } else {
        let before = moves_to(windows, strips, displays, excluded, n - 1);
        match startup_home(windows, windows[n - 1], strips, displays, excluded) {
            Some(home) => before.push((windows[n - 1].entity, home)),
            None => before,
        }
    }
}

/// A strip with the windows that the first `n` moves bring it.
pub open spec fn moved_in(
    columns: Seq<ColumnView>,
    strip: Entity,
    moves: Seq<(Entity, Entity)>,
    n: int,
) -> Seq<ColumnView>
    decreases n,
{
    if n <= 0 {
        columns
    } else {
        let before = moved_in(columns, strip, moves, n - 1);
        if moves[n - 1].1 == strip {
            joined_by(before, moves[n - 1].0)
        } else {
            before
        }
    }
}

fn find_home(strips: &Vec<StripEntry>, displays: &Vec<LiveDisplay>, frame: IRect) -> (home: Option<
    Entity,
>)
    ensures
        home == home_strip(strips@, displays@, frame),
{
    let center = frame.middle();
    let mut i: usize = 0;
    while i < displays.len() && !displays[i].bounds.contains(center)
        invariant
            i <= displays.len(),
            center == frame.spec_center(),
            first_where(displays@, display_under(frame)) == first_from(
                displays@,
                display_under(frame),
                i as int,
            ),
        decreases displays.len() - i,
    {
        i = i + 1;
    }
    if i >= displays.len() {
        return None;
    }
    let display = displays[i];
    let mut k: usize = 0;
    while k < strips.len()
        invariant
            k <= strips.len(),
            first_where(strips@, shown_on(display)) == first_from(
                strips@,
                shown_on(display),
                k as int,
            ),
            find_where(displays@, display_under(frame)) == Some(display),
        decreases strips.len() - k,
    {
        let space = strips[k].strip.id;
        if display.space == Some(space) && strips[k].display == display.entity {
            return Some(strips[k].entity);
        }
        k = k + 1;
    }
    None
}

fn some_strip_has(strips: &Vec<StripEntry>, entity: Entity) -> (held: bool)
    ensures
        held == any_where(strips@, has_window(entity)),
{
    let mut i: usize = 0;
    while i < strips.len()
        invariant
            i <= strips.len(),
            first_where(strips@, has_window(entity)) == first_from(
                strips@,
                has_window(entity),
                i as int,
            ),
        decreases strips.len() - i,
    {
        if strips[i].strip.contains(entity) {
            return true;
        }
        i = i + 1;
    }
    false
}

/// Whether an entry is the same strip as before, whatever windows it holds.
pub open spec fn same_strip(before: StripEntry, after: StripEntry) -> bool {
    &&& after.entity == before.entity
    &&& after.display == before.display
    &&& after.position == before.position
    &&& after.active == before.active
    &&& after.selected == before.selected
    &&& after.native_fullscreen == before.native_fullscreen
    &&& after.strip.id == before.strip.id
    &&& after.strip.virtual_index == before.strip.virtual_index
}

/// Places the tiled windows that no strip holds: each goes to the end of the
/// strip on the display that its middle is on. What has a strip stays there,
/// also where its frame is elsewhere. Without displays nothing is placed.
pub fn place_startup_windows_on_live_displays(
    windows: &Windows,
    strips: &mut Vec<StripEntry>,
    displays: &Vec<LiveDisplay>,
    excluded: &Vec<Entity>,
)
    requires
        windows.wf(),
    ensures
        final(strips)@.len() == old(strips)@.len(),
        ({
            let moves = moves_to(
                windows.all@,
                old(strips)@,
                displays@,
                excluded@,
                windows.all@.len() as int,
            );
            forall|k: int|
                0 <= k < old(strips)@.len() ==> same_strip(
                    old(strips)@[k],
                    #[trigger] final(strips)@[k],
                ) && final(strips)@[k].strip@ == moved_in(
                    old(strips)@[k].strip@,
                    old(strips)@[k].entity,
                    moves,
                    moves.len() as int,
                )
        }),
{
    let mut moves: Vec<(Entity, Entity)> = Vec::new();
    let mut i: usize = 0;
    while i < windows.all.len()
        invariant
            i <= windows.all.len(),
            windows.wf(),
            strips@ == old(strips)@,
            moves@ == moves_to(windows.all@, strips@, displays@, excluded@, i as int),
        decreases windows.all.len() - i,
    {
        let window = windows.all[i];
        if window.unmanaged.is_none() && !some_strip_has(strips, window.entity) && !list_contains(
            excluded,
            window.entity,
        ) {
            if let Some(frame) = windows.frame(window.entity) {
                if let Some(home) = find_home(strips, displays, frame) {
                    moves.push((window.entity, home));
                }
            }
        }
        i = i + 1;
    }
    let mut k: usize = 0;
    while k < strips.len()
        invariant
            k <= strips.len(),
            strips@.len() == old(strips)@.len(),
            moves@ == moves_to(
                windows.all@,
                old(strips)@,
                displays@,
                excluded@,
                windows.all@.len() as int,
            ),
            forall|j: int| k <= j < strips@.len() ==> #[trigger] strips@[j] == old(strips)@[j],
            forall|j: int|
                0 <= j < k ==> same_strip(old(strips)@[j], #[trigger] strips@[j])
                    && strips@[j].strip@ == moved_in(
                    old(strips)@[j].strip@,
                    old(strips)@[j].entity,
                    moves@,
                    moves@.len() as int,
                ),
        decreases strips.len() - k,
    {
        let ghost before = strips@[k as int];
        let mut entry = strips.remove(k);
        assert(entry == old(strips)@[k as int]);
        let mut m: usize = 0;
        while m < moves.len()
            invariant
                m <= moves.len(),
                same_strip(before, entry),
                entry.strip@ == moved_in(before.strip@, before.entity, moves@, m as int),
            decreases moves.len() - m,
        {
            let (window, home) = moves[m];
            if home == entry.entity && !entry.strip.contains(window) {
                entry.strip.append(window);
            }
            m = m + 1;
        }
        strips.insert(k, entry);
        k = k + 1;
    }
}

/// Placing windows takes none away: a strip keeps what it holds, and a window
/// that some strip holds goes nowhere else.
pub proof fn placing_only_adds(
    columns: Seq<ColumnView>,
    strip: Entity,
    moves: Seq<(Entity, Entity)>,
    n: int,
    entity: Entity,
)
    requires
        0 <= n <= moves.len(),
        strip_has(columns, entity),
    ensures
        strip_has(moved_in(columns, strip, moves, n), entity),
    decreases n,
{
    if n > 0 {
        placing_only_adds(columns, strip, moves, n - 1, entity);
        let before = moved_in(columns, strip, moves, n - 1);
        let more = moves[n - 1].0;
        appending_adds_one(before, more);
        membership_is_listing(before, entity);
        membership_is_listing(before.push(ColumnView::single(more)), entity);
        let all = windows_in(before);
        let k = choose|k: int| 0 <= k < all.len() && all[k] == entity;
        assert(all.push(more)[k] == entity);
    }
}

/// Where a column is on the screen: the middle of its top window. A window that
/// is not tiled, or has no frame, has no place.
pub open spec fn live_place(windows: Seq<WindowRecord>, top: Option<Entity>) -> Option<i32> {
    match top {
        Some(entity) => match find_where(windows, is_entity(entity)) {
            Some(window) if window.unmanaged is None => match frame_of(windows, entity) {
                Some(frame) => Some(frame.spec_center().x),
                None => None,
            },
            _ => None,
        },
        None => None,
    }
}

/// The places of a strip's columns.
pub open spec fn live_places(windows: Seq<WindowRecord>, columns: Seq<ColumnView>) -> Seq<Option<i32>> {
    Seq::new(columns.len(), |c: int| live_place(windows, columns[c].spec_top()))
}

/// Puts the columns of a strip in the order in which they are on the screen.
/// Whole columns move, and only within the strip.
pub fn sort_strip_by_live_x(windows: &Windows, strip: &mut LayoutStrip)
    requires
        windows.wf(),
    ensures
        final(strip)@ == sorted_columns(old(strip)@, live_places(windows.all@, old(strip)@)),
        final(strip).id == old(strip).id,
        final(strip).virtual_index == old(strip).virtual_index,
{
    let mut places: Vec<Option<i32>> = Vec::new();
    let mut c: usize = 0;
    while c < strip.columns.len()
        invariant
            c <= strip.columns.len(),
            windows.wf(),
            *strip == *old(strip),
            strip@.len() == strip.columns.len(),
            places@.len() == c,
            forall|k: int|
                0 <= k < c ==> #[trigger] places@[k] == live_place(
                    windows.all@,
                    strip@[k].spec_top(),
                ),
        decreases strip.columns.len() - c,
    {
        assert(strip@[c as int] == strip.columns@[c as int]@);
        let place: Option<i32> = match strip.columns[c].top() {
            Some(entity) => match windows.get(entity) {
                Some(window) => if window.unmanaged.is_none() {
                    match windows.frame(entity) {
                        Some(frame) => Some(frame.middle().x),
                        None => None,
                    }
                } else {
                    None
                },
                None => None,
            },
            None => None,
        };
        places.push(place);
        c = c + 1;
    }
    assert(places@ =~= live_places(windows.all@, strip@));
    strip.sort_columns_by_x(&places);
}

/// The first window that a strip on screen shows, of the last such strip.
pub open spec fn first_shown(strips: Seq<StripEntry>, n: int) -> Option<Entity>
    decreases n,
{
    if n <= 0 {
        None
    } else {
        match top_at(strips[n - 1].strip@, 0) {
            Some(top) if strips[n - 1].active => Some(top),
            _ => first_shown(strips, n - 1),
        }
    }
}

/// The focus requests for the first `n` strips.
pub open spec fn focuses_to(strips: Seq<StripEntry>, n: int) -> Seq<Request>
    decreases n,
{
    if n <= 0 {
        Seq::empty()
    } else {
        let before = focuses_to(strips, n - 1);
        match top_at(strips[n - 1].strip@, 0) {
            Some(top) if strips[n - 1].active => before.push(
                Request::Focus { entity: top, raise: true },
            ),
            _ => before,
        }
    }
}

/// The requests that put the windows of the first `n` strips in their slots at
/// once.
pub open spec fn snaps_to(strips: Seq<StripEntry>, n: int) -> Seq<Request>
    decreases n,
{
    if n <= 0 {
        Seq::empty()
    } else {
        snaps_to(strips, n - 1).push(Request::SnapStrip { strip: strips[n - 1].entity })
    }
}

/// The request that marks the focused window of the application in front, where
/// no strip gave the focus.
pub open spec fn mirrored_focus(
    windows: Seq<WindowRecord>,
    strips: Seq<StripEntry>,
    frontmost: Option<WinID>,
) -> Seq<Request> {
    match frontmost {
        Some(id) if first_shown(strips, strips.len() as int) is None => match find_where(
            windows,
            is_window(id),
        ) {
            Some(window) => seq![Request::MarkFocused { entity: window.entity }],
            None => Seq::empty(),
        },
        _ => Seq::empty(),
    }
}

/// Gives the first focus: to the leftmost window on screen, which counts as asked
/// for by the user; where no strip shows one, to the window that the application
/// in front has focused. Every strip then snaps into place.
pub fn give_first_focus(
    windows: &Windows,
    strips: &Vec<StripEntry>,
    frontmost: Option<WinID>,
    now: Duration,
    user_focus: &mut UserFocus,
    requests: &mut Requests,
)
    ensures
        final(requests)@ == old(requests)@ + focuses_to(strips@, strips@.len() as int) + snaps_to(
            strips@,
            strips@.len() as int,
        ) + mirrored_focus(windows.all@, strips@, frontmost),
        *final(user_focus) == (match first_shown(strips@, strips@.len() as int) {
            Some(entity) => UserFocus { entity: Some(entity), at: now },
            None => *old(user_focus),
        }),
{
    let mut shown: Option<Entity> = None;
    let mut i: usize = 0;
    assert(requests@ =~= old(requests)@ + focuses_to(strips@, 0));
    while i < strips.len()
        invariant
            i <= strips.len(),
            shown == first_shown(strips@, i as int),
            requests@ == old(requests)@ + focuses_to(strips@, i as int),
            *user_focus == (match first_shown(strips@, i as int) {
                Some(entity) => UserFocus { entity: Some(entity), at: now },
                None => *old(user_focus),
            }),
        decreases strips.len() - i,
    {
        if strips[i].active {
            if let Some(top) = strips[i].strip.first_top() {
                requests.focus_entity(top, true);
                user_focus.entity = Some(top);
                user_focus.at = now;
                shown = Some(top);
            }
        }
        i = i + 1;
        assert(requests@ =~= old(requests)@ + focuses_to(strips@, i as int));
    }
    let ghost focused = requests@;
    let mut k: usize = 0;
    assert(requests@ =~= focused + snaps_to(strips@, 0));
    while k < strips.len()
        invariant
            k <= strips.len(),
            requests@ == focused + snaps_to(strips@, k as int),
        decreases strips.len() - k,
    {
        requests.push(Request::SnapStrip { strip: strips[k].entity });
        k = k + 1;
        assert(requests@ =~= focused + snaps_to(strips@, k as int));
    }
    let ghost snapped = requests@;
    if shown.is_none() {
        if let Some(id) = frontmost {
            if let Some(window) = windows.find(id) {
                requests.push(Request::MarkFocused { entity: window.entity });
            }
        }
    }
    assert(requests@ =~= snapped + mirrored_focus(windows.all@, strips@, frontmost));
}

/// What the set-up waits for.
#[derive(Clone, Copy, Debug, PartialEq, Eq, Structural)]
pub struct SetupFacts {
    /// Processes and applications that ran before are still being read.
    pub existing_left: bool,
    pub has_displays: bool,
    /// Windows on other spaces are still being searched for.
    pub search_left: bool,
}

/// Whether the set-up can be finished.
pub fn setup_ready(facts: &SetupFacts) -> (ready: bool)
    ensures
        ready == (!facts.existing_left && facts.has_displays && !facts.search_left),
{
    !facts.existing_left && facts.has_displays && !facts.search_left
}

/// What the window server says at the end of the set-up.
#[derive(Debug)]
pub struct SetupScene {
    /// For each strip, the windows of its space, where they can be read.
    pub listed: Vec<Option<Vec<WinID>>>,
    pub marks: StartupMarks,
    pub displays: Vec<LiveDisplay>,
    /// The window that the application in front has focused.
    pub frontmost: Option<WinID>,
}

/// The windows that stay out of the layout, over the first `n` strips.
pub open spec fn excluded_over(windows: Seq<WindowRecord>, scene: SetupScene, n: int) -> Seq<Entity>
    decreases n,
{
    if n <= 0 {
        Seq::empty()
    } else {
        match scene.listed@[n - 1] {
            Some(listed) => excluded_over(windows, scene, n - 1) + excluded_to(
                windows,
                listed@,
                scene.marks,
                listed@.len() as int,
            ),
            None => excluded_over(windows, scene, n - 1),
        }
    }
}

/// The requests that mark windows, over the first `n` strips.
pub open spec fn marks_over(windows: Seq<WindowRecord>, scene: SetupScene, n: int) -> Seq<Request>
    decreases n,
{
    if n <= 0 {
        Seq::empty()
    } else {
        match scene.listed@[n - 1] {
            Some(listed) => marks_over(windows, scene, n - 1) + marks_to(
                windows,
                listed@,
                scene.marks,
                listed@.len() as int,
            ),
            None => marks_over(windows, scene, n - 1),
        }
    }
}

/// A strip once it holds the windows of its space; one whose space cannot be read
/// stays as it is.
pub open spec fn with_its_windows(
    columns: Seq<ColumnView>,
    windows: Seq<WindowRecord>,
    listed: Option<Vec<WinID>>,
    marks: StartupMarks,
) -> Seq<ColumnView> {
    match listed {
        Some(listed) => refreshed(
            columns,
            members_to(windows, listed@, marks, listed@.len() as int),
        ),
        None => columns,
    }
}

/// Gives every strip the windows of its space. Windows that stay keep their
/// order; minimized and floating ones stay out. Answers what stays out.
pub fn refresh_strips(
    windows: &Windows,
    scene: &SetupScene,
    strips: &mut Vec<StripEntry>,
    requests: &mut Requests,
) -> (excluded: Vec<Entity>)
    requires
        scene.listed@.len() == old(strips)@.len(),
        forall|k: int|
            0 <= k < old(strips)@.len() ==> strip_wf((#[trigger] old(strips)@[k]).strip@),
    ensures
        final(strips)@.len() == old(strips)@.len(),
        forall|k: int|
            0 <= k < old(strips)@.len() ==> same_strip(old(strips)@[k], #[trigger] final(strips)@[k])
                && final(strips)@[k].strip@ == with_its_windows(
                old(strips)@[k].strip@,
                windows.all@,
                scene.listed@[k],
                scene.marks,
            ),
        excluded@ == excluded_over(windows.all@, *scene, scene.listed@.len() as int),
        final(requests)@ == old(requests)@ + marks_over(
            windows.all@,
            *scene,
            scene.listed@.len() as int,
        ),
{
    let mut excluded: Vec<Entity> = Vec::new();
    let mut i: usize = 0;
    assert(requests@ =~= old(requests)@ + marks_over(windows.all@, *scene, 0));
    while i < strips.len()
        invariant
            i <= strips.len(),
            strips@.len() == old(strips)@.len(),
            scene.listed@.len() == strips@.len(),
            forall|k: int|
                0 <= k < old(strips)@.len() ==> strip_wf((#[trigger] old(strips)@[k]).strip@),
            forall|k: int| i <= k < strips@.len() ==> #[trigger] strips@[k] == old(strips)@[k],
            forall|k: int|
                0 <= k < i ==> same_strip(old(strips)@[k], #[trigger] strips@[k])
                    && strips@[k].strip@ == with_its_windows(
                    old(strips)@[k].strip@,
                    windows.all@,
                    scene.listed@[k],
                    scene.marks,
                ),
            excluded@ == excluded_over(windows.all@, *scene, i as int),
            requests@ == old(requests)@ + marks_over(windows.all@, *scene, i as int),
        decreases strips.len() - i,
    {
        assert(strips@[i as int] == old(strips)@[i as int]);
        if let Some(listed) = &scene.listed[i] {
            let ghost asked = requests@;
            let members = startup_members(
                listed,
                windows,
                &scene.marks,
                &mut excluded,
                requests,
            );
            let mut entry = strips.remove(i);
            assert(entry == old(strips)@[i as int]);
            entry.strip.refresh(&members);
            strips.insert(i, entry);
            assert(requests@ =~= old(requests)@ + marks_over(windows.all@, *scene, i + 1));
        }
        i = i + 1;
    }
    excluded
}

/// Puts the columns of every strip in the order in which they are on the screen.
pub fn sort_startup_strips_by_live_x(windows: &Windows, strips: &mut Vec<StripEntry>)
    requires
        windows.wf(),
    ensures
        final(strips)@.len() == old(strips)@.len(),
        forall|k: int|
            0 <= k < old(strips)@.len() ==> same_strip(old(strips)@[k], #[trigger] final(strips)@[k])
                && final(strips)@[k].strip@ == sorted_columns(
                old(strips)@[k].strip@,
                live_places(windows.all@, old(strips)@[k].strip@),
            ),
{
    let mut i: usize = 0;
    while i < strips.len()
        invariant
            i <= strips.len(),
            windows.wf(),
            strips@.len() == old(strips)@.len(),
            forall|k: int| i <= k < strips@.len() ==> #[trigger] strips@[k] == old(strips)@[k],
            forall|k: int|
                0 <= k < i ==> same_strip(old(strips)@[k], #[trigger] strips@[k])
                    && strips@[k].strip@ == sorted_columns(
                    old(strips)@[k].strip@,
                    live_places(windows.all@, old(strips)@[k].strip@),
                ),
        decreases strips.len() - i,
    {
        let mut entry = strips.remove(i);
        assert(entry == old(strips)@[i as int]);
        sort_strip_by_live_x(windows, &mut entry.strip);
        strips.insert(i, entry);
        i = i + 1;
    }
}

/// The strips once they hold the windows of their spaces.
pub open spec fn are_refreshed(
    before: Seq<StripEntry>,
    after: Seq<StripEntry>,
    windows: Seq<WindowRecord>,
    scene: SetupScene,
) -> bool {
    &&& after.len() == before.len()
    &&& forall|k: int|
        0 <= k < before.len() ==> same_strip(before[k], #[trigger] after[k]) && after[k].strip@
            == with_its_windows(before[k].strip@, windows, scene.listed@[k], scene.marks)
}

/// The strips once they hold the windows that no strip held.
pub open spec fn are_filled(
    before: Seq<StripEntry>,
    after: Seq<StripEntry>,
    windows: Seq<WindowRecord>,
    displays: Seq<LiveDisplay>,
    excluded: Seq<Entity>,
) -> bool {
    let moves = moves_to(windows, before, displays, excluded, windows.len() as int);
    &&& after.len() == before.len()
    &&& forall|k: int|
        0 <= k < before.len() ==> same_strip(before[k], #[trigger] after[k]) && after[k].strip@
            == moved_in(before[k].strip@, before[k].entity, moves, moves.len() as int)
}

/// The strips once their columns are in order.
pub open spec fn are_sorted(
    before: Seq<StripEntry>,
    after: Seq<StripEntry>,
    windows: Seq<WindowRecord>,
) -> bool {
    &&& after.len() == before.len()
    &&& forall|k: int|
        0 <= k < before.len() ==> same_strip(before[k], #[trigger] after[k]) && after[k].strip@
            == sorted_columns(before[k].strip@, live_places(windows, before[k].strip@))
}

/// Finishes the set-up once nothing is left to wait for: every strip gets the
/// windows of its space, windows without a strip go to the display that they are
/// on, columns come in the order in which they are on the screen, and the first
/// focus is given. Answers whether the set-up is over.
pub fn finish_setup(
    facts: &SetupFacts,
    windows: &Windows,
    scene: &SetupScene,
    strips: &mut Vec<StripEntry>,
    now: Duration,
    user_focus: &mut UserFocus,
    requests: &mut Requests,
) -> (done: bool)
    requires
        windows.wf(),
        scene.listed@.len() == old(strips)@.len(),
        forall|k: int|
            0 <= k < old(strips)@.len() ==> strip_wf((#[trigger] old(strips)@[k]).strip@),
    ensures
        done == (!facts.existing_left && facts.has_displays && !facts.search_left),
        !done ==> final(strips)@ == old(strips)@ && final(requests)@ == old(requests)@
            && *final(user_focus) == *old(user_focus),
        done ==> {
            let count = scene.listed@.len() as int;
            let excluded = excluded_over(windows.all@, *scene, count);
            &&& exists|members: Seq<StripEntry>, filled: Seq<StripEntry>|
                #![trigger are_filled(members, filled, windows.all@, scene.displays@, excluded)]
                are_refreshed(old(strips)@, members, windows.all@, *scene) && are_filled(
                    members,
                    filled,
                    windows.all@,
                    scene.displays@,
                    excluded,
                ) && are_sorted(filled, final(strips)@, windows.all@)
            &&& final(requests)@ == old(requests)@ + marks_over(windows.all@, *scene, count)
                + focuses_to(final(strips)@, count) + snaps_to(final(strips)@, count)
                + mirrored_focus(windows.all@, final(strips)@, scene.frontmost)
            &&& *final(user_focus) == (match first_shown(final(strips)@, count) {
                Some(entity) => UserFocus { entity: Some(entity), at: now },
                None => *old(user_focus),
            })
        },
{
    if !setup_ready(facts) {
        return false;
    }
    let excluded = refresh_strips(windows, scene, strips, requests);
    let ghost members = strips@;
    place_startup_windows_on_live_displays(windows, strips, &scene.displays, &excluded);
    let ghost filled = strips@;
    sort_startup_strips_by_live_x(windows, strips);
    assert(are_refreshed(old(strips)@, members, windows.all@, *scene));
    assert(are_filled(members, filled, windows.all@, scene.displays@, excluded@));
    assert(are_sorted(filled, strips@, windows.all@));
    give_first_focus(windows, strips, scene.frontmost, now, user_focus, requests);
    true
}

/// The pauses between the polls for what is being launched.
#[derive(Clone, Copy, Debug, PartialEq, Eq, Structural)]
pub struct LaunchBackoff {
    pub attempts: u32,
    pub last: Option<Duration>,
    /// How many were being launched at the last poll.
    pub last_count: usize,
}

impl Default for LaunchBackoff {
    fn default() -> (backoff: LaunchBackoff)
        ensures
            backoff == (LaunchBackoff { attempts: 0, last: None, last_count: 0 }),
    {
        LaunchBackoff { attempts: 0, last: None, last_count: 0 }
    }
}

/// The pause before the next poll, in milliseconds: it doubles with every poll
/// that waited for one, up to a bound.
pub open spec fn launch_pause(attempts: u32) -> int {
    if attempts == 0 {
        200
    } else if attempts == 1 {
        400
    } else if attempts == 2 {
        800
    } else {
        1600
    }
}

impl LaunchBackoff {
    /// The pauses waited for since the number of launches last changed.
    pub open spec fn attempts_for(self, fresh_count: usize) -> u32 {
        if fresh_count != self.last_count {
            0
        } else {
            self.attempts
        }
    }

    /// Whether a poll may run.
    pub open spec fn is_due(self, fresh_count: usize, now: Duration) -> bool {
        match self.last {
            Some(at) => now.minus(at) >= launch_pause(self.attempts_for(fresh_count)) * 1_000_000,
            None => true,
        }
    }

    /// This is the backoff `before` after a poll was asked for.
    pub open spec fn polled_from(
        self,
        before: LaunchBackoff,
        fresh_count: usize,
        now: Duration,
    ) -> bool {
        let due = before.is_due(fresh_count, now);
        let attempts = before.attempts_for(fresh_count);
        &&& self.last_count == fresh_count
        &&& self.last == (if due {
            Some(now)
        } else {
            before.last
        })
        &&& self.attempts == (if !due {
            attempts as int
        } else if before.last is None {
            0
        } else if attempts < u32::MAX {
            attempts + 1
        } else {
            u32::MAX as int
        })
    }

    /// Asks for a poll. The first one waits for nothing and takes no pause; a new
    /// launch is polled for quickly again.
    pub fn launch_poll_due(&mut self, fresh_count: usize, now: Duration) -> (due: bool)
        ensures
            due == old(self).is_due(fresh_count, now),
            final(self).polled_from(*old(self), fresh_count, now),
    {
        if fresh_count != self.last_count {
            self.attempts = 0;
            self.last_count = fresh_count;
        }
        let wait: u64 = match self.attempts {
            0 => 200,
            1 => 400,
            2 => 800,
            _ => 1600,
        };
        let early = match self.last {
            Some(at) => now.saturating_sub(at).nanos < Duration::from_millis(wait).nanos,
            None => false,
        };
        if early {
            return false;
        }
        if self.last.is_none() {
            self.attempts = 0;
        } else if self.attempts < u32::MAX {
            self.attempts = self.attempts + 1;
        }
        self.last = Some(now);
        true
    }
}

/// The backoff after `n` polls for the same launches.
pub open spec fn polled(count: usize, at: Seq<Duration>, n: int) -> LaunchBackoff {
    if n <= 0 {
        LaunchBackoff { attempts: 0, last: None, last_count: 0 }
    } else {
        LaunchBackoff {
            attempts: (n - 1) as u32,
            last: Some(at[n - 1]),
            last_count: count,
        }
    }
}

/// The first poll for a launch runs at once; the next ones follow after pauses of
/// 200, 400 and 800 milliseconds, and then of 1600 milliseconds each.
pub proof fn launch_polls_slow_down(
    count: usize,
    at: Seq<Duration>,
    n: int,
    now: Duration,
    after: LaunchBackoff,
)
    requires
        0 <= n < u32::MAX,
        n < at.len(),
    ensures
        at[n] == now && polled(count, at, n).is_due(count, now) && after.polled_from(
            polled(count, at, n),
            count,
            now,
        ) ==> after == polled(count, at, n + 1),
        n == 0 ==> polled(count, at, n).is_due(count, now),
        n > 0 ==> polled(count, at, n).is_due(count, now) == (now.minus(at[n - 1]) >= (if n == 1 {
            200_000_000int
        } else if n == 2 {
            400_000_000
        } else if n == 3 {
            800_000_000
        } else {
            1_600_000_000
        })),
{
}

/// Polls never lie further apart than the longest pause, and one that has just
/// run is not repeated before the shortest.
pub proof fn launch_polls_keep_their_pace(backoff: LaunchBackoff, fresh_count: usize, now: Duration)
    ensures
        backoff.last matches Some(at) ==> (now.minus(at) >= 1_600_000_000 ==> backoff.is_due(
            fresh_count,
            now,
        )) && (now.minus(at) < 200_000_000 ==> !backoff.is_due(fresh_count, now)),
{
}

/// A process that is being launched.
#[derive(Clone, Copy, Debug, PartialEq, Eq, Structural)]
pub struct LaunchedProcess {
    /// The process's serial number.
    pub psn: u64,
    pub ready: bool,
    /// Its application is known already.
    pub has_application: bool,
}

/// What is done about a process that is being launched.
#[derive(Clone, Copy, Debug, PartialEq, Eq, Structural)]
pub enum LaunchStep {
    /// Nothing: it was looked at already, or is not ready.
    Skip,
    /// It is launched.
    Settle,
    /// Its application is to be made and observed.
    Observe,
}

/// Whether an earlier entry is the same process.
pub open spec fn seen_before(processes: Seq<LaunchedProcess>, k: int) -> bool {
    exists|j: int| 0 <= j < k && (#[trigger] processes[j]).psn == processes[k].psn
}

pub open spec fn launch_step(processes: Seq<LaunchedProcess>, k: int) -> LaunchStep {
    if seen_before(processes, k) || !processes[k].ready {
        LaunchStep::Skip
    } else if processes[k].has_application {
        LaunchStep::Settle
    } else {
        LaunchStep::Observe
    }
}

/// Polls for the processes that are being launched: none where the poll is not due,
/// else what is done about each of them.
pub fn add_launched_process(
    processes: &Vec<LaunchedProcess>,
    backoff: &mut LaunchBackoff,
    now: Duration,
) -> (steps: Option<Vec<LaunchStep>>)
    ensures
        steps is Some == old(backoff).is_due(processes.len(), now),
        final(backoff).polled_from(*old(backoff), processes.len(), now),
        steps matches Some(steps) ==> {
            &&& steps@.len() == processes@.len()
            &&& forall|k: int|
                0 <= k < processes@.len() ==> #[trigger] steps@[k] == launch_step(processes@, k)
        },
{
    if backoff.launch_poll_due(processes.len(), now) {
        Some(launch_steps(processes))
    } else {
        None
    }
}

/// Decides what is done about each process that is being launched.
fn launch_steps(processes: &Vec<LaunchedProcess>) -> (steps: Vec<LaunchStep>)
    ensures
        steps@.len() == processes@.len(),
        forall|k: int|
            0 <= k < processes@.len() ==> #[trigger] steps@[k] == launch_step(processes@, k),
{
    let mut steps: Vec<LaunchStep> = Vec::new();
    let mut i: usize = 0;
    while i < processes.len()
        invariant
            i <= processes.len(),
            steps@.len() == i,
            forall|k: int| 0 <= k < i ==> #[trigger] steps@[k] == launch_step(processes@, k),
        decreases processes.len() - i,
    {
        let process = processes[i];
        let mut seen = false;
        let mut j: usize = 0;
        while j < i && !seen
            invariant
                j <= i,
                i < processes.len(),
                process == processes@[i as int],
                seen ==> seen_before(processes@, i as int),
                !seen ==> forall|k: int| 0 <= k < j ==> (#[trigger] processes@[k]).psn != process.psn,
            decreases i - j,
        {
            if processes[j].psn == process.psn {
                assert(processes@[j as int].psn == process.psn);
                seen = true;
            }
            j = j + 1;
        }
        let step = if seen || !process.ready {
            LaunchStep::Skip
        } else if process.has_application {
            LaunchStep::Settle
        } else {
            LaunchStep::Observe
        };
        steps.push(step);
        i = i + 1;
    }
    steps
}

/// How many of the processes that ran before become applications: all up to the
/// first one for which none can be made. The others are taken up in a later pass.
pub fn add_existing_process(created: &Vec<bool>) -> (count: usize)
    ensures
        count == first_where(created@, failed()),
{
    let mut i: usize = 0;
    while i < created.len()
        invariant
            i <= created.len(),
            first_where(created@, failed()) == first_from(created@, failed(), i as int),
        decreases created.len() - i,
    {
        if !created[i] {
            return i;
        }
        i = i + 1;
    }
    i
}

/// The condition of having failed.
pub open spec fn failed() -> spec_fn(bool) -> bool {
    |done: bool| !done
}

/// What is done about an application that ran before.
#[derive(Debug)]
pub struct ExistingWindows {
    /// The windows to manage, where the application could be asked.
    pub spawn: Option<SpawnWindowTrigger>,
    /// The windows on other spaces, to be searched for.
    pub search: Option<Vec<WinID>>,
}

/// Takes in the windows of an application that ran before: those that were found,
/// and those on other spaces. Both come only from an application that could be
/// observed and asked.
pub fn add_existing_application(observed: bool, answer: Option<(Vec<WinID>, Vec<WinID>)>) -> (found:
    ExistingWindows)
    ensures
        match answer {
            Some((windows, hidden)) if observed => {
                &&& found.spawn matches Some(trigger) && trigger.0@ == windows@
                &&& found.search is Some == (hidden@.len() > 0)
                &&& found.search matches Some(search) ==> search@ == hidden@
            },
            _ => found.spawn is None && found.search is None,
        },
{
    match answer {
        Some((windows, hidden)) => if observed {
            let search = if hidden.len() > 0 {
                Some(hidden)
            } else {
                None
            };
            ExistingWindows { spawn: Some(SpawnWindowTrigger(windows)), search }
        } else {
            ExistingWindows { spawn: None, search: None }
        },
        None => ExistingWindows { spawn: None, search: None },
    }
}

/// The windows among the first `n` listed ones that are not known yet.
pub open spec fn unknown_to(windows: Seq<WindowRecord>, listed: Seq<WinID>, n: int) -> Seq<WinID>
    decreases n,
{
    if n <= 0 {
        Seq::empty()
    } else if find_where(windows, is_window(listed[n - 1])) is None {
        unknown_to(windows, listed, n - 1).push(listed[n - 1])
    } else {
        unknown_to(windows, listed, n - 1)
    }
}

/// What is done about an application that is being launched.
#[derive(Debug)]
pub struct LaunchedWindows {
    /// The windows to manage, where there are new ones.
    pub spawn: Option<SpawnWindowTrigger>,
    /// The application is launched.
    pub settle: bool,
}

/// An application that is being launched.
#[derive(Debug)]
pub struct LaunchedApplication {
    /// The windows that it lists.
    pub listed: Vec<WinID>,
    /// Windows of it came in another way.
    pub has_windows: bool,
}

/// What is done about an application: its new windows are managed, and it is launched
/// once it has new windows, or windows that came in another way.
pub open spec fn takes_windows(
    found: LaunchedWindows,
    app: LaunchedApplication,
    windows: Seq<WindowRecord>,
) -> bool {
    let fresh = unknown_to(windows, app.listed@, app.listed@.len() as int);
    &&& found.settle == (fresh.len() > 0 || app.has_windows)
    &&& found.spawn is Some == (fresh.len() > 0)
    &&& found.spawn matches Some(trigger) ==> trigger.0@ == fresh
}

/// Polls the applications that are being launched: none where the poll is not due,
/// else what is done about each of them.
pub fn add_launched_application(
    apps: &Vec<LaunchedApplication>,
    windows: &Windows,
    backoff: &mut LaunchBackoff,
    now: Duration,
) -> (found: Option<Vec<LaunchedWindows>>)
    ensures
        found is Some == old(backoff).is_due(apps.len(), now),
        final(backoff).polled_from(*old(backoff), apps.len(), now),
        found matches Some(found) ==> {
            &&& found@.len() == apps@.len()
            &&& forall|k: int|
                0 <= k < apps@.len() ==> takes_windows(
                    #[trigger] found@[k],
                    apps@[k],
                    windows.all@,
                )
        },
{
    if !backoff.launch_poll_due(apps.len(), now) {
        return None;
    }
    let mut found: Vec<LaunchedWindows> = Vec::new();
    let mut i: usize = 0;
    while i < apps.len()
        invariant
            i <= apps.len(),
            found@.len() == i,
            forall|k: int|
                0 <= k < i ==> takes_windows(#[trigger] found@[k], apps@[k], windows.all@),
        decreases apps.len() - i,
    {
        let taken = launched_windows(&apps[i], windows);
        found.push(taken);
        i = i + 1;
    }
    Some(found)
}

/// Finds the new windows of an application that is being launched.
fn launched_windows(app: &LaunchedApplication, windows: &Windows) -> (found: LaunchedWindows)
    ensures
        takes_windows(found, *app, windows.all@),
{
    let listed = &app.listed;
    let has_windows = app.has_windows;
    let mut fresh: Vec<WinID> = Vec::new();
    let mut i: usize = 0;
    while i < listed.len()
        invariant
            i <= listed.len(),
            fresh@ == unknown_to(windows.all@, listed@, i as int),
        decreases listed.len() - i,
    {
        if windows.find(listed[i]).is_none() {
            fresh.push(listed[i]);
        }
        i = i + 1;
    }
    if fresh.len() > 0 {
        LaunchedWindows { spawn: Some(SpawnWindowTrigger(fresh)), settle: true }
    } else {
        LaunchedWindows { spawn: None, settle: has_windows }
    }
}

/// The timers to stop, among the first `n`: those of launches that are done.
pub open spec fn settled_to(launches: Seq<(Entity, bool)>, n: int) -> Seq<Entity>
    decreases n,
{
    if n <= 0 {
        Seq::empty()
    } else if !launches[n - 1].1 {
        settled_to(launches, n - 1).push(launches[n - 1].0)
    } else {
        settled_to(launches, n - 1)
    }
}

/// Names the launches whose timers are to be stopped. Each comes with whether it
/// is still under way.
pub fn fresh_marker_cleanup(launches: &Vec<(Entity, bool)>) -> (stopped: Vec<Entity>)
    ensures
        stopped@ == settled_to(launches@, launches@.len() as int),
{
    let mut stopped: Vec<Entity> = Vec::new();
    let mut i: usize = 0;
    while i < launches.len()
        invariant
            i <= launches.len(),
            stopped@ == settled_to(launches@, i as int),
        decreases launches.len() - i,
    {
        if !launches[i].1 {
            stopped.push(launches[i].0);
        }
        i = i + 1;
    }
    stopped
}

/// A process that ran before the window manager started.
#[derive(Clone, Copy, Debug, PartialEq, Eq, Structural)]
pub struct InitialProcess {
    pub pid: i32,
    pub observable: bool,
    /// The settings ask for it to be managed in any case.
    pub forced: bool,
}

/// The processes to manage, by their place and whether they are forced, taken
/// from the `n`-th one down.
pub open spec fn initial_down(processes: Seq<InitialProcess>, n: int) -> Seq<(usize, bool)>
    decreases n,
{
    if n <= 0 {
        Seq::empty()
    } else {
        let process = processes[n - 1];
        let rest = initial_down(processes, n - 1);
        if process.pid != 0 && (process.observable || process.forced) {
            seq![((n - 1) as usize, process.forced)] + rest
        } else {
            rest
        }
    }
}

/// Names the processes to manage, the last one first. The kernel's own has no
/// number and is left out.
pub fn initial_processes(processes: &Vec<InitialProcess>) -> (kept: Vec<(usize, bool)>)
    ensures
        kept@ == initial_down(processes@, processes@.len() as int),
{
    let mut kept: Vec<(usize, bool)> = Vec::new();
    let mut left: usize = processes.len();
    assert(kept@ + initial_down(processes@, left as int) =~= initial_down(
        processes@,
        processes@.len() as int,
    ));
    while left > 0
        invariant
            left <= processes.len(),
            kept@ + initial_down(processes@, left as int) == initial_down(
                processes@,
                processes@.len() as int,
            ),
        decreases left,
    {
        let ghost before = kept@;
        let ghost rest = initial_down(processes@, left - 1);
        left = left - 1;
        let process = processes[left];
        if process.pid != 0 && (process.observable || process.forced) {
            kept.push((left, process.forced));
            assert(kept@ + rest =~= before + (seq![(left, process.forced)] + rest));
        }
    }
    assert(kept@ + initial_down(processes@, 0) =~= kept@);
    kept
}

/// Which settings apply once the initial events are read.
#[derive(Clone, Copy, Debug, PartialEq, Eq, Structural)]
pub enum ConfigPlan {
    /// What there is stays.
    Keep,
    /// The settings that were read are installed.
    Install,
    /// The settings that were there are put into the handle that was read, which
    /// the input tap holds, and that handle is installed.
    Publish,
}

/// Decides which settings apply: those that were there win over those that were
/// read.
pub fn plan_config(existing: bool, loaded: bool) -> (plan: ConfigPlan)
    ensures
        plan == (match (existing, loaded) {
            (true, true) => ConfigPlan::Publish,
            (false, true) => ConfigPlan::Install,
            _ => ConfigPlan::Keep,
        }),
{
    match (existing, loaded) {
        (true, true) => ConfigPlan::Publish,
        (false, true) => ConfigPlan::Install,
        _ => ConfigPlan::Keep,
    }
}

/// What comes in before the window manager starts.
#[derive(Clone, Copy, Debug, PartialEq, Eq, Structural)]
pub enum InitialEvent {
    /// A process that runs already.
    Launched { process: InitialProcess },
    /// Settings were read; the input tap keeps this handle of them.
    InitialConfig { handle: usize },
    /// All processes are named.
    ProcessesLoaded,
    Exit,
    /// Something else, which does not count yet.
    Stray,
}

/// The condition of ending the initial events.
pub open spec fn ends_gathering() -> spec_fn(InitialEvent) -> bool {
    |event: InitialEvent| event == InitialEvent::ProcessesLoaded || event == InitialEvent::Exit
}

/// The processes named by the first `n` events.
pub open spec fn named_to(events: Seq<InitialEvent>, n: int) -> Seq<InitialProcess>
    decreases n,
{
    if n <= 0 {
        Seq::empty()
    } else {
        match events[n - 1] {
            InitialEvent::Launched { process } => named_to(events, n - 1).push(process),
            _ => named_to(events, n - 1),
        }
    }
}

/// The handle of the settings that were read last among the first `n` events.
pub open spec fn loaded_to(events: Seq<InitialEvent>, n: int) -> Option<usize>
    decreases n,
{
    if n <= 0 {
        None
    } else {
        match events[n - 1] {
            InitialEvent::InitialConfig { handle } => Some(handle),
            _ => loaded_to(events, n - 1),
        }
    }
}

/// The handle of the settings that apply while processes are chosen: those that were
/// there, else those that were read.
pub open spec fn effective_of(existing: Option<usize>, loaded: Option<usize>) -> Option<usize> {
    match existing {
        Some(handle) => Some(handle),
        None => loaded,
    }
}

/// The handle of the settings that apply from then on: the one that was read, which
/// the input tap holds, else the one that was there.
pub open spec fn installed_of(existing: Option<usize>, loaded: Option<usize>) -> Option<usize> {
    match loaded {
        Some(handle) => Some(handle),
        None => existing,
    }
}

/// What the initial events come to.
#[derive(Debug)]
pub struct InitialState {
    /// The processes to manage, by their place among those named and whether they
    /// are forced.
    pub processes: Vec<(usize, bool)>,
    /// The settings by which the menu bar is measured.
    pub effective: Option<usize>,
    /// The settings that apply from now on.
    pub installed: Option<usize>,
}

/// Reads the initial events up to the one that ends them. `configs` are the settings
/// behind each handle. Settings that were there before win over those that were read,
/// but they go into the handle that was read, so that the input tap, which holds that
/// handle, reads them too.
pub fn gather_initial_processes<C: Copy>(
    events: &Vec<InitialEvent>,
    existing: Option<usize>,
    configs: &mut Vec<C>,
) -> (state: InitialState)
    requires
        any_where(events@, ends_gathering()),
        existing matches Some(handle) ==> handle < old(configs)@.len(),
        loaded_to(events@, first_where(events@, ends_gathering())) matches Some(handle)
            ==> handle < old(configs)@.len(),
    ensures
        ({
            let end = first_where(events@, ends_gathering());
            let named = named_to(events@, end);
            let loaded = loaded_to(events@, end);
            &&& state.processes@ == initial_down(named, named.len() as int)
            &&& state.effective == effective_of(existing, loaded)
            &&& state.installed == installed_of(existing, loaded)
            &&& final(configs)@ == (match (existing, loaded) {
                (Some(there), Some(read)) => old(configs)@.update(
                    read as int,
                    old(configs)@[there as int],
                ),
                _ => old(configs)@,
            })
        }),
{
    let mut named: Vec<InitialProcess> = Vec::new();
    let mut loaded: Option<usize> = None;
    let mut i: usize = 0;
    while i < events.len() && !(events[i] == InitialEvent::ProcessesLoaded || events[i]
        == InitialEvent::Exit)
        invariant
            i <= events.len(),
            first_where(events@, ends_gathering()) == first_from(
                events@,
                ends_gathering(),
                i as int,
            ),
            named@ == named_to(events@, i as int),
            loaded == loaded_to(events@, i as int),
        decreases events.len() - i,
    {
        match events[i] {
            InitialEvent::Launched { process } => {
                named.push(process);
            },
            InitialEvent::InitialConfig { handle } => {
                loaded = Some(handle);
            },
            _ => {},
        }
        i = i + 1;
    }
    assert(i == first_where(events@, ends_gathering()));
    let effective = match existing {
        Some(handle) => Some(handle),
        None => loaded,
    };
    let processes = initial_processes(&named);
    let installed = match plan_config(existing.is_some(), loaded.is_some()) {
        ConfigPlan::Keep => existing,
        ConfigPlan::Install => loaded,
        ConfigPlan::Publish => {
            if let (Some(there), Some(read)) = (existing, loaded) {
                let settings = configs[there];
                configs.set(read, settings);
            }
            loaded
        },
    };
    InitialState { processes, effective, installed }
}

/// Settings that were there before are what the input tap reads, and what applies.
pub proof fn earlier_settings_reach_the_input_tap<C>(
    configs: Seq<C>,
    there: usize,
    read: usize,
)
    requires
        there < configs.len(),
        read < configs.len(),
    ensures
        installed_of(Some(there), Some(read)) == Some(read),
        configs.update(read as int, configs[there as int])[read as int] == configs[there as int],
{
}

} // verus!
