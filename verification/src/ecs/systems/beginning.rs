//! Where windows, strips and the focus stand once the setup is done.
use vstd::prelude::*;

use crate::ecs::layout::places::shown_at;
use crate::ecs::layout::{strip_has, strip_wf, top_at};
use crate::ecs::params::{
    frame_of, is_managed_window, is_window, StripEntry, WindowRecord,
};
use crate::ecs::systems::startup::{
    excluded_to, first_shown, focuses_to, has_window, initial_down, is_ground,
    launch_step, loaded_to, marks_to, members_to, mirrored_focus, moves_to, named_to, settled_to,
    shown_on, snaps_to, startup_home, storeys, storeys_to, strips_to, display_under, InitialEvent,
    InitialProcess, KnownStrip, LaunchStep, LaunchedProcess, LiveDisplay, StartupMarks, unknown_to,
};
use crate::ecs::Request;
use crate::geometry::{Entity, IRect, WinID, WorkspaceId};
use crate::seqs::{find_where, lemma_either, lemma_first_from, lemma_pushed};

verus! {

/// Every space of a display gets a strip of its own, in their order, and only the one on
/// screen is marked so.
pub proof fn every_space_gets_a_strip(spaces: Seq<WorkspaceId>, shown: Option<WorkspaceId>, k: int)
    requires
        0 <= k < spaces.len(),
    ensures
        ({
            let strips = strips_to(spaces, shown, spaces.len() as int);
            &&& strips.len() == spaces.len()
            &&& strips[k].0 == spaces[k]
            &&& strips[k].1 <==> shown == Some(spaces[k])
        }),
{
}

/// Every ground strip gets as many strips above it as are wanted, of its own space and
/// display, and numbered on from it.
pub proof fn every_ground_strip_gets_its_storeys(
    strips: Seq<KnownStrip>,
    wanted: u32,
    n: int,
    k: int,
    storey: u32,
)
    requires
        0 <= k < n <= strips.len(),
        is_ground(strips, k),
        1 <= storey < wanted,
    ensures
        storeys_to(strips, wanted, n).contains(KnownStrip { virtual_index: storey, ..strips[k] }),
    decreases n,
{
    let own = KnownStrip { virtual_index: storey, ..strips[k] };
    let last = storeys(strips[n - 1], wanted as int);
    lemma_either(storeys_to(strips, wanted, n - 1), last, own);
    if k < n - 1 {
        every_ground_strip_gets_its_storeys(strips, wanted, n - 1, k, storey);
    } else {
        assert(last[storey - 1] == own);
    }
}

/// Every strip that is added stands above a ground strip, and below the number wanted.
pub proof fn storeys_stand_on_their_ground(
    strips: Seq<KnownStrip>,
    wanted: u32,
    n: int,
    added: KnownStrip,
) -> (k: int)
    requires
        0 <= n <= strips.len(),
        storeys_to(strips, wanted, n).contains(added),
    ensures
        0 <= k < n,
        is_ground(strips, k),
        added == (KnownStrip { virtual_index: added.virtual_index, ..strips[k] }),
        1 <= added.virtual_index < wanted,
    decreases n,
{
    let before = storeys_to(strips, wanted, n - 1);
    let last = storeys(strips[n - 1], wanted as int);
    if n > 0 && before.contains(added) {
        storeys_stand_on_their_ground(strips, wanted, n - 1, added)
    } else {
        lemma_either(before, last, added);
        n - 1
    }
}

/// Of the windows that a space lists, each that is known and managed belongs to its strip,
/// unless it is minimised or floats from the start: then it is left out, and marked as
/// the one or the other.
pub proof fn listed_windows_join_or_are_marked(
    windows: Seq<WindowRecord>,
    listed: Seq<WinID>,
    marks: StartupMarks,
    n: int,
    k: int,
    window: WindowRecord,
)
    requires
        0 <= k < n <= listed.len(),
        find_where(windows, is_managed_window(listed[k])) == Some(window),
    ensures
        ({
            let entity = window.entity;
            let minimized = marks.minimized@.contains(entity);
            let floating = marks.floating@.contains(entity);
            &&& !minimized && !floating ==> members_to(windows, listed, marks, n).contains(entity)
            &&& minimized || floating ==> excluded_to(windows, listed, marks, n).contains(entity)
            &&& minimized ==> marks_to(windows, listed, marks, n).contains(
                Request::Minimize { entity },
            )
            &&& floating && !minimized ==> marks_to(windows, listed, marks, n).contains(
                Request::Float { entity },
            )
        }),
    decreases n,
{
    let entity = window.entity;
    let members = members_to(windows, listed, marks, n - 1);
    let excluded = excluded_to(windows, listed, marks, n - 1);
    let asked = marks_to(windows, listed, marks, n - 1);
    let minimize = Request::Minimize { entity };
    let float = Request::Float { entity };
    if let Some(last) = find_where(windows, is_managed_window(listed[n - 1])) {
        lemma_pushed(members, last.entity, entity);
        lemma_pushed(excluded, last.entity, entity);
        lemma_pushed(asked, Request::Minimize { entity: last.entity }, minimize);
        lemma_pushed(asked, Request::Minimize { entity: last.entity }, float);
        lemma_pushed(asked, Request::Float { entity: last.entity }, minimize);
        lemma_pushed(asked, Request::Float { entity: last.entity }, float);
    }
    if k < n - 1 {
        listed_windows_join_or_are_marked(windows, listed, marks, n - 1, k, window);
    }
}

/// No window that is marked joins a strip, and none that is not marked is left out.
pub proof fn marked_windows_do_not_join(
    windows: Seq<WindowRecord>,
    listed: Seq<WinID>,
    marks: StartupMarks,
    n: int,
    entity: Entity,
)
    requires
        0 <= n <= listed.len(),
    ensures
        members_to(windows, listed, marks, n).contains(entity) ==> !marks.minimized@.contains(
            entity,
        ) && !marks.floating@.contains(entity),
        excluded_to(windows, listed, marks, n).contains(entity) ==> marks.minimized@.contains(
            entity,
        ) || marks.floating@.contains(entity),
    decreases n,
{
    if n > 0 {
        marked_windows_do_not_join(windows, listed, marks, n - 1, entity);
        if let Some(last) = find_where(windows, is_managed_window(listed[n - 1])) {
            lemma_pushed(members_to(windows, listed, marks, n - 1), last.entity, entity);
            lemma_pushed(excluded_to(windows, listed, marks, n - 1), last.entity, entity);
        }
    }
}

/// A tiled window on no strip goes to the strip on screen of the display that its middle
/// lies on; a window that has a strip, is out of the layout, or was left out goes nowhere.
pub proof fn lost_windows_go_to_the_display_under_them(
    windows: Seq<WindowRecord>,
    strips: Seq<StripEntry>,
    displays: Seq<LiveDisplay>,
    excluded: Seq<Entity>,
    window: WindowRecord,
    frame: IRect,
    j: int,
)
    requires
        frame_of(windows, window.entity) == Some(frame),
        0 <= j < strips.len(),
    ensures
        ({
            let home = startup_home(windows, window, strips, displays, excluded);
            &&& window.unmanaged is Some || excluded.contains(window.entity) || strip_has(
                strips[j].strip@,
                window.entity,
            ) ==> home is None
            &&& home matches Some(strip) ==> exists|d: int, s: int|
                #![trigger displays[d], strips[s]]
                0 <= d < displays.len() && 0 <= s < strips.len() && displays[d].bounds.holds(
                    frame.spec_center(),
                ) && strips[s].entity == strip && strips[s].display == displays[d].entity
                    && displays[d].space == Some(strips[s].strip.id)
        }),
{
    lemma_first_from(strips, has_window(window.entity), 0);
    assert((has_window(window.entity))(strips[j]) == strip_has(strips[j].strip@, window.entity));
    let home = startup_home(windows, window, strips, displays, excluded);
    if home is Some {
        lemma_first_from(displays, display_under(frame), 0);
        let d = crate::seqs::first_where(displays, display_under(frame));
        lemma_first_from(strips, shown_on(displays[d]), 0);
        let s = crate::seqs::first_where(strips, shown_on(displays[d]));
        assert((display_under(frame))(displays[d]));
        assert((shown_on(displays[d]))(strips[s]));
        assert(displays[d].bounds.holds(frame.spec_center()));
    }
}

/// Every lost window that has a home is moved there, and no other window is moved.
pub proof fn lost_windows_are_moved_home(
    windows: Seq<WindowRecord>,
    strips: Seq<StripEntry>,
    displays: Seq<LiveDisplay>,
    excluded: Seq<Entity>,
    n: int,
    k: int,
    home: Entity,
)
    requires
        0 <= k < n <= windows.len(),
        startup_home(windows, windows[k], strips, displays, excluded) == Some(home),
    ensures
        moves_to(windows, strips, displays, excluded, n).contains((windows[k].entity, home)),
    decreases n,
{
    let before = moves_to(windows, strips, displays, excluded, n - 1);
    if let Some(last) = startup_home(windows, windows[n - 1], strips, displays, excluded) {
        lemma_pushed(before, (windows[n - 1].entity, last), (windows[k].entity, home));
    }
    if k < n - 1 {
        lost_windows_are_moved_home(windows, strips, displays, excluded, n - 1, k, home);
    }
}

/// The first window of every strip on screen gets the focus, raised, and no window of any
/// other strip does; every strip is put in its place.
pub proof fn shown_strips_get_the_first_focus(
    strips: Seq<StripEntry>,
    n: int,
    k: int,
    request: Request,
)
    requires
        0 <= k < n <= strips.len(),
    ensures
        strips[k].active && strip_wf(strips[k].strip@) && strips[k].strip@.len() > 0 ==> focuses_to(
            strips,
            n,
        ).contains(Request::Focus { entity: shown_at(strips[k].strip@, 0, 0), raise: true }),
        snaps_to(strips, n).contains(Request::SnapStrip { strip: strips[k].entity }),
        focuses_to(strips, n).contains(request) ==> exists|j: int|
            0 <= j < n && (#[trigger] strips[j]).active && (top_at(strips[j].strip@, 0) matches Some(
                top,
            ) && request == (Request::Focus { entity: top, raise: true })),
    decreases n,
{
    let columns = strips[k].strip@;
    let own = Request::Focus { entity: shown_at(columns, 0, 0), raise: true };
    let snap = Request::SnapStrip { strip: strips[k].entity };
    let before = focuses_to(strips, n - 1);
    if strip_wf(columns) && columns.len() > 0 {
        assert(columns[0].wf() && columns[0].items[0].len() >= 1);
        assert(top_at(columns, 0) == Some(shown_at(columns, 0, 0)));
    }
    lemma_pushed(
        snaps_to(strips, n - 1),
        Request::SnapStrip { strip: strips[n - 1].entity },
        snap,
    );
    if let Some(top) = top_at(strips[n - 1].strip@, 0) {
        lemma_pushed(before, Request::Focus { entity: top, raise: true }, own);
        lemma_pushed(before, Request::Focus { entity: top, raise: true }, request);
    }
    if k < n - 1 {
        shown_strips_get_the_first_focus(strips, n - 1, k, request);
    } else if n > 1 {
        shown_strips_get_the_first_focus(strips, n - 1, 0, request);
    } else {
        assert(before.len() == 0);
    }
    if before.contains(request) {
        let j = choose|j: int|
            0 <= j < n - 1 && (#[trigger] strips[j]).active && (top_at(strips[j].strip@, 0)
                matches Some(top) && request == (Request::Focus { entity: top, raise: true }));
        assert(strips[j].active);
    } else if focuses_to(strips, n).contains(request) {
        assert(strips[n - 1].active);
    }
}

/// The window in front counts as focused only where no strip on screen has a window.
pub proof fn the_window_in_front_is_the_last_resort(
    windows: Seq<WindowRecord>,
    strips: Seq<StripEntry>,
    id: WinID,
    window: WindowRecord,
)
    requires
        find_where(windows, is_window(id)) == Some(window),
    ensures
        first_shown(strips, strips.len() as int) is Some ==> mirrored_focus(
            windows,
            strips,
            Some(id),
        ).len() == 0,
        first_shown(strips, strips.len() as int) is None ==> mirrored_focus(
            windows,
            strips,
            Some(id),
        ) == seq![Request::MarkFocused { entity: window.entity }],
        mirrored_focus(windows, strips, None).len() == 0,
{
}

/// A process that is launched is taken up once, when it is ready.
pub proof fn processes_are_taken_up_once(processes: Seq<LaunchedProcess>, j: int, k: int)
    requires
        0 <= j < k < processes.len(),
        processes[j].psn == processes[k].psn,
    ensures
        launch_step(processes, k) == LaunchStep::Skip,
        !processes[j].ready ==> launch_step(processes, j) == LaunchStep::Skip,
        launch_step(processes, j) == LaunchStep::Observe ==> processes[j].ready
            && !processes[j].has_application,
{
    assert(processes[j].psn == processes[k].psn);
}

/// Of the windows that an application lists, those that are not known yet are new.
pub proof fn unknown_windows_are_new(
    windows: Seq<WindowRecord>,
    listed: Seq<WinID>,
    n: int,
    id: WinID,
)
    requires
        0 <= n <= listed.len(),
    ensures
        unknown_to(windows, listed, n).contains(id) <==> listed.take(n).contains(id) && find_where(
            windows,
            is_window(id),
        ) is None,
    decreases n,
{
    if n > 0 {
        unknown_windows_are_new(windows, listed, n - 1, id);
        assert(listed.take(n) =~= listed.take(n - 1).push(listed[n - 1]));
        lemma_pushed(listed.take(n - 1), listed[n - 1], id);
        lemma_pushed(unknown_to(windows, listed, n - 1), listed[n - 1], id);
    } else {
        assert(listed.take(0).len() == 0);
    }
}

/// A launch that has come to its end is no longer watched, and one that goes on is.
pub proof fn finished_launches_are_let_go(launches: Seq<(Entity, bool)>, n: int, entity: Entity)
    requires
        0 <= n <= launches.len(),
    ensures
        settled_to(launches, n).contains(entity) <==> launches.take(n).contains((entity, false)),
    decreases n,
{
    if n > 0 {
        finished_launches_are_let_go(launches, n - 1, entity);
        assert(launches.take(n) =~= launches.take(n - 1).push(launches[n - 1]));
        lemma_pushed(launches.take(n - 1), launches[n - 1], (entity, false));
        lemma_pushed(settled_to(launches, n - 1), launches[n - 1].0, entity);
    } else {
        assert(launches.take(0).len() == 0);
    }
}

/// A process that runs already is taken up if it can be observed or is asked for, and has
/// a number; it says whether it was asked for.
pub proof fn observable_processes_are_kept(
    processes: Seq<InitialProcess>,
    n: int,
    k: usize,
    forced: bool,
)
    requires
        0 <= n <= processes.len(),
        processes.len() <= usize::MAX,
    ensures
        initial_down(processes, n).contains((k, forced)) <==> k < n && processes[k as int].pid != 0
            && (processes[k as int].observable || processes[k as int].forced) && forced
            == processes[k as int].forced,
    decreases n,
{
    if n > 0 {
        let process = processes[n - 1];
        let rest = initial_down(processes, n - 1);
        let own = seq![((n - 1) as usize, process.forced)];
        observable_processes_are_kept(processes, n - 1, k, forced);
        lemma_either(own, rest, (k, forced));
        assert(own[0] == ((n - 1) as usize, process.forced));
    }
}

/// Every process that was named counts, and of several settings the last ones.
pub proof fn every_named_process_counts(events: Seq<InitialEvent>, n: int, k: int)
    requires
        0 <= k < n <= events.len(),
    ensures
        events[k] matches InitialEvent::Launched { process } ==> named_to(events, n).contains(
            process,
        ),
        events[k] matches InitialEvent::InitialConfig { handle } ==> ((forall|j: int|
            k < j < n ==> !(#[trigger] events[j] is InitialConfig)) ==> loaded_to(events, n)
            == Some(handle)),
    decreases n,
{
    if let InitialEvent::Launched { process } = events[k] {
        if let InitialEvent::Launched { process: last } = events[n - 1] {
            lemma_pushed(named_to(events, n - 1), last, process);
        }
    }
    if k < n - 1 {
        every_named_process_counts(events, n - 1, k);
    }
}

} // verus!
