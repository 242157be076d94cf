//! Which window the commands on the tiers of windows choose, and what they raise.
use vstd::prelude::*;

use crate::commands::layers::{
    front_requests, layer_of, layers_flipped, loose_floats, managed_target, manage_requests,
    off_strip, on_screen, raise_requests, raises_to, remembered_or_first, rejoins, FloatingLayer,
};
use crate::commands::{floats_in_view, visible_floats};
use crate::ecs::layout::membership::{membership_is_listing, windows_in};
use crate::ecs::layout::places::shown_at;
use crate::ecs::layout::{strip_has, strip_wf, tops_to, ColumnView};
use crate::ecs::params::{
    floats, frame_of, holds_window, is_entity, StripEntry, WindowRecord,
};
use crate::ecs::scroll::rest::lemma_tops;
use crate::ecs::Request;
use crate::geometry::{Entity, IRect, WinID, WorkspaceId};
use crate::seqs::{
    find_where, first_where, kept, lemma_first_from, lemma_kept, lemma_pushed,
};

verus! {

/// The window chosen qualifies; it is the one remembered wherever that qualifies, and
/// the first of all otherwise. Only where none qualifies is none chosen.
pub proof fn the_remembered_window_is_chosen(last: Option<Entity>, qualified: Seq<Entity>)
    ensures
        ({
            let chosen = remembered_or_first(last, qualified);
            &&& chosen is None <==> qualified.len() == 0
            &&& chosen matches Some(entity) ==> qualified.contains(entity)
            &&& last matches Some(entity) ==> (qualified.contains(entity) ==> chosen == last)
            &&& (last matches Some(entity) && qualified.contains(entity)) || qualified.len() == 0
                || chosen == Some(qualified[0])
        }),
{
    if qualified.len() > 0 {
        assert(qualified.contains(qualified[0]));
    }
}

/// The tiled window chosen is on the strip; it is the one remembered wherever that still
/// is, and the one at the top of the first column otherwise. Only an empty strip has
/// none.
pub proof fn the_remembered_column_is_chosen(last: Option<Entity>, columns: Seq<ColumnView>)
    requires
        strip_wf(columns),
    ensures
        ({
            let chosen = managed_target(last, columns);
            &&& columns.len() == 0 ==> chosen is None
            &&& last matches Some(entity) ==> (windows_in(columns).contains(entity) ==> chosen
                == last)
            &&& columns.len() > 0 && !(last matches Some(entity) && windows_in(columns).contains(
                entity,
            )) ==> chosen == Some(shown_at(columns, 0, 0))
        }),
{
    lemma_tops(columns, columns.len() as int);
    if let Some(entity) = last {
        membership_is_listing(columns, entity);
    }
    if columns.len() > 0 {
        assert(tops_to(columns, columns.len() as int)[0] == shown_at(columns, 0, 0));
    } else {
        assert(tops_to(columns, 0).len() == 0);
        if let Some(entity) = last {
            lemma_first_from(columns, crate::ecs::layout::column_has(entity), 0);
        }
    }
}

proof fn lemma_raises(
    windows: Seq<WindowRecord>,
    chosen: Seq<Entity>,
    spared: Option<Entity>,
    n: int,
    request: Request,
)
    requires
        0 <= n <= windows.len(),
    ensures
        raises_to(windows, chosen, spared, n).contains(request) == (exists|k: int|
            0 <= k < n && raised_at(windows, chosen, spared, k, request)),
    decreases n,
{
    if n > 0 {
        let before = raises_to(windows, chosen, spared, n - 1);
        let after = raises_to(windows, chosen, spared, n);
        let own = Request::Raise { entity: windows[n - 1].entity, with_strip: false };
        lemma_raises(windows, chosen, spared, n - 1, request);
        lemma_pushed(before, own, request);
        if before.contains(request) {
            let k = choose|k: int| 0 <= k < n - 1 && raised_at(windows, chosen, spared, k, request);
            assert(0 <= k < n && raised_at(windows, chosen, spared, k, request));
        } else if after.contains(request) {
            assert(raised_at(windows, chosen, spared, n - 1, request));
        }
        if exists|k: int| 0 <= k < n && raised_at(windows, chosen, spared, k, request) {
            let k = choose|k: int| 0 <= k < n && raised_at(windows, chosen, spared, k, request);
            if k < n - 1 {
                assert(0 <= k < n - 1 && raised_at(windows, chosen, spared, k, request));
            }
        }
    }
}

/// The request raises that window, which is chosen and not spared.
pub open spec fn raised_at(
    windows: Seq<WindowRecord>,
    chosen: Seq<Entity>,
    spared: Option<Entity>,
    k: int,
    request: Request,
) -> bool {
    &&& chosen.contains(windows[k].entity)
    &&& spared != Some(windows[k].entity)
    &&& request == (Request::Raise { entity: windows[k].entity, with_strip: false })
}

/// Raising the floating windows raises every one of them, the one that gets the focus
/// with that focus, which comes last; nothing else is raised or gets the focus.
pub proof fn every_floating_window_is_raised(
    windows: Seq<WindowRecord>,
    floating: Seq<Entity>,
    last: Option<Entity>,
    k: int,
    request: Request,
)
    requires
        0 <= k < windows.len(),
        floating.contains(windows[k].entity),
    ensures
        ({
            let asked = raise_requests(windows, floating, last);
            let target = remembered_or_first(last, floating);
            let entity = windows[k].entity;
            &&& target is Some
            &&& asked.last() == (Request::Focus { entity: target->0, raise: true })
            &&& entity != target->0 ==> asked.contains(
                Request::Raise { entity, with_strip: false },
            )
            &&& asked.contains(request) && request is Focus ==> request == (Request::Focus {
                entity: target->0,
                raise: true,
            })
            &&& asked.contains(request) ==> request is Focus || (request matches Request::Raise {
                entity: other,
                with_strip,
            } && !with_strip && floating.contains(other))
        }),
{
    let entity = windows[k].entity;
    let target = remembered_or_first(last, floating);
    let n = windows.len() as int;
    let raised = raises_to(windows, floating, target, n);
    let own = Request::Raise { entity, with_strip: false };
    let focus = Request::Focus { entity: target->0, raise: true };
    lemma_raises(windows, floating, target, n, own);
    lemma_raises(windows, floating, target, n, request);
    lemma_pushed(raised, focus, own);
    lemma_pushed(raised, focus, request);
    if entity != target->0 {
        assert(raised_at(windows, floating, target, k, own));
    }
}

/// The tier that comes to the front is raised: all floating windows that show and are
/// not on the strip, each by itself, or the strip behind the window remembered of it,
/// and never both.
pub proof fn the_front_tier_is_raised(
    windows: Seq<WindowRecord>,
    floating: Seq<Entity>,
    columns: Seq<ColumnView>,
    last_managed: Option<Entity>,
    k: int,
    request: Request,
)
    requires
        0 <= k < windows.len(),
    ensures
        ({
            let floats = front_requests(true, windows, floating, columns, last_managed);
            let tiles = front_requests(false, windows, floating, columns, last_managed);
            let entity = windows[k].entity;
            &&& floats.contains(Request::Raise { entity, with_strip: false }) <==> floating.contains(
                entity,
            ) && !windows_in(columns).contains(entity)
            &&& floats.contains(request) ==> (request matches Request::Raise { with_strip, .. }
                && !with_strip)
            &&& tiles.contains(request) ==> request == (Request::Raise {
                entity: managed_target(last_managed, columns)->0,
                with_strip: true,
            })
            &&& managed_target(last_managed, columns) matches Some(target) ==> tiles.contains(
                Request::Raise { entity: target, with_strip: true },
            )
        }),
{
    let entity = windows[k].entity;
    let loose = loose_floats(floating, columns);
    let n = windows.len() as int;
    let own = Request::Raise { entity, with_strip: false };
    lemma_raises(windows, loose, None, n, own);
    lemma_raises(windows, loose, None, n, request);
    lemma_kept(floating, off_strip(columns), floating.len() as int, entity);
    assert(floating.take(floating.len() as int) =~= floating);
    membership_is_listing(columns, entity);
    if loose.contains(entity) {
        assert(raised_at(windows, loose, None, k, own));
    }
    if let Some(target) = managed_target(last_managed, columns) {
        let tiles = front_requests(false, windows, floating, columns, last_managed);
        assert(tiles[0] == (Request::Raise { entity: target, with_strip: true }));
    }
}

/// A window counts among the floating ones that show exactly if it floats, belongs to
/// the workspace, and a part of it lies on the display.
pub proof fn floating_windows_show(
    windows: Seq<WindowRecord>,
    workspace_windows: Seq<WinID>,
    display_bounds: IRect,
    k: int,
)
    requires
        0 <= k < windows.len(),
        find_where(windows, is_entity(windows[k].entity)) == Some(windows[k]),
    ensures
        visible_floats(windows, workspace_windows, display_bounds).contains(windows[k].entity)
            <==> floats(windows, windows[k].entity) && workspace_windows.contains(windows[k].id)
            && (frame_of(windows, windows[k].entity) matches Some(frame)
            && !display_bounds.overlap(frame).vacant()),
{
    let window = windows[k];
    let p = floats_in_view(windows, workspace_windows, display_bounds);
    let found = kept(windows, p, windows.len() as int);
    let shown = visible_floats(windows, workspace_windows, display_bounds);
    lemma_kept(windows, p, windows.len() as int, window);
    assert(windows.take(windows.len() as int) =~= windows);
    assert(windows.contains(window));
    if found.contains(window) {
        let i = choose|i: int| 0 <= i < found.len() && found[i] == window;
        assert(shown[i] == window.entity);
    }
    if shown.contains(window.entity) {
        let i = choose|i: int| 0 <= i < shown.len() && shown[i] == window.entity;
        let other = found[i];
        assert(found.contains(other));
        lemma_kept(windows, p, windows.len() as int, other);
        assert(other.entity == window.entity);
    }
}

/// Turning a layer over concerns its own workspace only: the layers of all others stay.
/// A workspace that had none starts with the tiled windows in front.
pub proof fn layers_turn_one_by_one(
    layers: Seq<FloatingLayer>,
    workspace: WorkspaceId,
    other: int,
)
    requires
        0 <= other < layers.len(),
    ensures
        ({
            let after = layers_flipped(layers, workspace);
            let at = first_where(layers, layer_of(workspace));
            &&& layers[other].workspace_id != workspace ==> after[other] == layers[other]
            &&& at < layers.len() ==> after.len() == layers.len() && after[at].workspace_id
                == workspace && after[at].front == !layers[at].front
            &&& at >= layers.len() ==> after.last() == (FloatingLayer {
                workspace_id: workspace,
                front: false,
            })
        }),
{
    lemma_first_from(layers, layer_of(workspace), 0);
}

/// A tiled window starts to float, and any other one is taken back into the layout. One
/// that comes back and is on no strip is laid out on the strip on screen.
pub proof fn windows_leave_and_rejoin_the_layout(
    window: WindowRecord,
    strips: Seq<StripEntry>,
    request: Request,
)
    ensures
        ({
            let asked = manage_requests(window, strips);
            let entity = window.entity;
            &&& asked.contains(Request::Float { entity }) <==> window.unmanaged is None
            &&& asked.contains(Request::Manage { entity }) <==> window.unmanaged is Some
            &&& asked.contains(Request::Reshuffle { entity, force: true }) <==> rejoins(
                window,
                strips,
            )
            &&& rejoins(window, strips) ==> window.unmanaged is Some
            &&& asked.contains(request) ==> request == (Request::Float { entity }) || request == (
            Request::Manage { entity }) || request == (Request::Reshuffle { entity, force: true })
        }),
{
    let entity = window.entity;
    let asked = manage_requests(window, strips);
    if window.unmanaged is Some {
        assert(asked[0] == (Request::Manage { entity }));
    } else {
        assert(asked[0] == (Request::Float { entity }));
    }
    if rejoins(window, strips) {
        assert(asked[1] == (Request::Reshuffle { entity, force: true }));
    }
}

/// A window rejoins the strip on screen exactly if it was out of the layout, no strip
/// lists it, and some strip is on screen.
pub proof fn only_lost_windows_rejoin(window: WindowRecord, strips: Seq<StripEntry>, k: int, shown: int)
    requires
        0 <= k < strips.len(),
        0 <= shown < strips.len(),
        strips[shown].active,
    ensures
        strip_has(strips[k].strip@, window.entity) ==> !rejoins(window, strips),
        window.unmanaged is None ==> !rejoins(window, strips),
        window.unmanaged is Some && (forall|j: int|
            0 <= j < strips.len() ==> !strip_has((#[trigger] strips[j]).strip@, window.entity))
            ==> rejoins(window, strips),
{
    lemma_first_from(strips, holds_window(window.entity), 0);
    lemma_first_from(strips, on_screen(), 0);
    assert((on_screen())(strips[shown]));
    assert((holds_window(window.entity))(strips[k]) == strip_has(strips[k].strip@, window.entity));
    let at = first_where(strips, holds_window(window.entity));
    if at < strips.len() {
        assert((holds_window(window.entity))(strips[at]));
    }
}

} // verus!
