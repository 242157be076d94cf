//! Commands on the tiers of windows: the tiled ones, the floating ones, and
//! which of them is in front.
use vstd::prelude::*;

use crate::commands::displays::only_columns_changed;
use crate::commands::{
    any_command, visible_floating_entities, visible_floats, Command, Operation,
};
use crate::ecs::focus::FocusHistory;
use crate::ecs::layout::{
    list_contains, strip_has, strip_stacked, strip_unstacked, strip_wf,
    tops_to, ColumnView, LayoutStrip,
};
use crate::ecs::params::{
    find_window_handle, focus_of, holds_window, is_entity, is_window, owner_index,
    StripEntry, WindowRecord, Windows,
};
use crate::ecs::{Request, Requests};
use crate::geometry::{Entity, IRect, WinID, WorkspaceId};
use crate::seqs::{find_where, first_from, first_where, kept, lemma_first_from, lemma_first_is};

verus! {

/// The window remembered, where it still qualifies, or else the first that does.
pub open spec fn remembered_or_first(last: Option<Entity>, qualified: Seq<Entity>) -> Option<Entity> {
    match last {
        Some(entity) if qualified.contains(entity) => Some(entity),
        _ => if qualified.len() > 0 {
            Some(qualified[0])
        } else {
            None
        },
    }
}

fn remembered_or_first_of(last: Option<Entity>, qualified: &Vec<Entity>) -> (target: Option<Entity>)
    ensures
        target == remembered_or_first(last, qualified@),
{
    if let Some(entity) = last {
        if list_contains(qualified, entity) {
            return Some(entity);
        }
    }
    if qualified.len() > 0 {
        Some(qualified[0])
    } else {
        None
    }
}

/// Gives the focus to the floating window that last had it, if it still shows,
/// or else to the first one that does.
pub fn command_focus_unmanaged(
    windows: &Windows,
    workspace_windows: &Vec<WinID>,
    display_bounds: IRect,
    workspace: WorkspaceId,
    history: &FocusHistory,
    requests: &mut Requests,
)
    requires
        windows.wf(),
    ensures
        final(requests)@ == (match remembered_or_first(
            history.memory(workspace).last_floating,
            visible_floats(windows.all@, workspace_windows@, display_bounds),
        ) {
            Some(entity) => old(requests)@.push(Request::Focus { entity, raise: true }),
            None => old(requests)@,
        }),
{
    let floating = visible_floating_entities(windows, workspace_windows, display_bounds);
    if let Some(entity) = remembered_or_first_of(history.last_floating(workspace), &floating) {
        requests.focus_entity(entity, true);
    }
}

/// The tiled window that gets the focus: the one that last had it, if it is
/// still on the strip, or else the first column's.
pub open spec fn managed_target(last: Option<Entity>, columns: Seq<ColumnView>) -> Option<Entity> {
    let tops = tops_to(columns, columns.len() as int);
    match last {
        Some(entity) if strip_has(columns, entity) => Some(entity),
        _ => if tops.len() > 0 {
            Some(tops[0])
        } else {
            None
        },
    }
}

fn managed_target_of(last: Option<Entity>, strip: &LayoutStrip) -> (target: Option<Entity>)
    ensures
        target == managed_target(last, strip@),
{
    if let Some(entity) = last {
        if strip.contains(entity) {
            return Some(entity);
        }
    }
    let tops = strip.all_columns();
    if tops.len() > 0 {
        Some(tops[0])
    } else {
        None
    }
}

/// Gives the focus to the tiled window that last had it, or to the first column.
pub fn command_focus_managed(
    active_strip: &LayoutStrip,
    history: &FocusHistory,
    requests: &mut Requests,
)
    ensures
        final(requests)@ == (match managed_target(
            history.memory(active_strip.id).last_managed,
            active_strip@,
        ) {
            Some(entity) => old(requests)@.push(Request::Focus { entity, raise: true }).push(
                Request::Reshuffle { entity, force: false },
            ),
            None => old(requests)@,
        }),
{
    if let Some(entity) = managed_target_of(history.last_managed(active_strip.id), active_strip) {
        requests.focus_entity(entity, true);
        requests.reshuffle_around(entity);
    }
}

/// The raises of those of the first `n` windows that are in `chosen`, without
/// `spared`.
pub open spec fn raises_to(
    windows: Seq<WindowRecord>,
    chosen: Seq<Entity>,
    spared: Option<Entity>,
    n: int,
) -> Seq<Request>
    decreases n,
{
    if n <= 0 {
        Seq::empty()
    } else {
        let before = raises_to(windows, chosen, spared, n - 1);
        let entity = windows[n - 1].entity;
        if chosen.contains(entity) && spared != Some(entity) {
            before.push(Request::Raise { entity, with_strip: false })
        } else {
            before
        }
    }
}

fn raise_chosen(
    windows: &Windows,
    chosen: &Vec<Entity>,
    spared: Option<Entity>,
    requests: &mut Requests,
)
    ensures
        final(requests)@ == old(requests)@ + raises_to(
            windows.all@,
            chosen@,
            spared,
            windows.all@.len() as int,
        ),
{
    let mut i: usize = 0;
    assert(requests@ =~= old(requests)@ + raises_to(windows.all@, chosen@, spared, 0));
    while i < windows.all.len()
        invariant
            i <= windows.all.len(),
            requests@ == old(requests)@ + raises_to(windows.all@, chosen@, spared, i as int),
        decreases windows.all.len() - i,
    {
        let entity = windows.all[i].entity;
        if list_contains(chosen, entity) && spared != Some(entity) {
            requests.push(Request::Raise { entity, with_strip: false });
        }
        assert(requests@ =~= old(requests)@ + raises_to(
            windows.all@,
            chosen@,
            spared,
            i as int + 1,
        ));
        i = i + 1;
    }
}

/// What raising the floating windows that show asks for.
pub open spec fn raise_requests(
    windows: Seq<WindowRecord>,
    floating: Seq<Entity>,
    last: Option<Entity>,
) -> Seq<Request> {
    let target = remembered_or_first(last, floating);
    let raised = raises_to(windows, floating, target, windows.len() as int);
    match target {
        Some(entity) => raised.push(Request::Focus { entity, raise: true }),
        None => raised,
    }
}

/// Raises every floating window that shows, and then gives the focus to the one
/// that last had it.
pub fn command_raise_floating(
    windows: &Windows,
    workspace_windows: &Vec<WinID>,
    display_bounds: IRect,
    workspace: WorkspaceId,
    history: &FocusHistory,
    requests: &mut Requests,
)
    requires
        windows.wf(),
    ensures
        ({
            let floating = visible_floats(windows.all@, workspace_windows@, display_bounds);
            let target = remembered_or_first(
                history.memory(workspace).last_floating,
                floating,
            );
            let raised = old(requests)@ + raises_to(
                windows.all@,
                floating,
                target,
                windows.all@.len() as int,
            );
            final(requests)@ == (match target {
                Some(entity) => raised.push(Request::Focus { entity, raise: true }),
                None => raised,
            })
        }),
        final(requests)@ == old(requests)@ + raise_requests(
            windows.all@,
            visible_floats(windows.all@, workspace_windows@, display_bounds),
            history.memory(workspace).last_floating,
        ),
{
    let floating = visible_floating_entities(windows, workspace_windows, display_bounds);
    let target = remembered_or_first_of(history.last_floating(workspace), &floating);
    raise_chosen(windows, &floating, target, requests);
    if let Some(entity) = target {
        requests.focus_entity(entity, true);
    }
    assert(requests@ =~= old(requests)@ + raise_requests(
        windows.all@,
        floating@,
        history.memory(workspace).last_floating,
    ));
}

/// Which tier of a workspace is in front.
#[derive(Clone, Copy, Debug, PartialEq, Eq, Structural)]
pub struct FloatingLayer {
    pub workspace_id: WorkspaceId,
    /// The floating windows are in front.
    pub front: bool,
}

/// The condition of belonging to that workspace.
pub open spec fn layer_of(workspace: WorkspaceId) -> spec_fn(FloatingLayer) -> bool {
    |layer: FloatingLayer| layer.workspace_id == workspace
}

/// The layers after the one of a workspace was turned over; a workspace without
/// one gets one with the tiled windows in front.
pub open spec fn layers_flipped(layers: Seq<FloatingLayer>, workspace: WorkspaceId) -> Seq<
    FloatingLayer,
> {
    let at = first_where(layers, layer_of(workspace));
    if at < layers.len() {
        layers.update(
            at,
            FloatingLayer { workspace_id: layers[at].workspace_id, front: !layers[at].front },
        )
    } else {
        layers.push(FloatingLayer { workspace_id: workspace, front: false })
    }
}

/// Turns the layer of a workspace over; answers whether the floating windows are
/// in front now.
pub fn flip_layer(layers: &mut Vec<FloatingLayer>, workspace: WorkspaceId) -> (front: bool)
    ensures
        final(layers)@ == layers_flipped(old(layers)@, workspace),
        front == ({
            let at = first_where(old(layers)@, layer_of(workspace));
            at < old(layers)@.len() && !old(layers)@[at].front
        }),
{
    let mut i: usize = 0;
    while i < layers.len()
        invariant
            i <= layers.len(),
            layers@ == old(layers)@,
            first_where(layers@, layer_of(workspace)) == first_from(
                layers@,
                layer_of(workspace),
                i as int,
            ),
        decreases layers.len() - i,
    {
        let layer = layers[i];
        if layer.workspace_id == workspace {
            let flipped = FloatingLayer { workspace_id: workspace, front: !layer.front };
            layers.set(i, flipped);
            return flipped.front;
        }
        i = i + 1;
    }
    layers.push(FloatingLayer { workspace_id: workspace, front: false });
    false
}

/// Turning a layer over twice leaves it as it was.
pub proof fn flipping_twice_restores(layers: Seq<FloatingLayer>, workspace: WorkspaceId)
    requires
        first_where(layers, layer_of(workspace)) < layers.len(),
    ensures
        layers_flipped(layers_flipped(layers, workspace), workspace) == layers,
{
    let at = first_where(layers, layer_of(workspace));
    lemma_first_from(layers, layer_of(workspace), 0);
    let once = layers_flipped(layers, workspace);
    assert forall|j: int| 0 <= j < at implies !(layer_of(workspace))(#[trigger] once[j]) by {
        assert(once[j] == layers[j]);
    }
    lemma_first_is(once, layer_of(workspace), at);
    assert(layers_flipped(once, workspace) =~= layers);
}

/// The condition of not being on a strip.
pub open spec fn off_strip(columns: Seq<ColumnView>) -> spec_fn(Entity) -> bool {
    |entity: Entity| !strip_has(columns, entity)
}

/// The floating windows that show and are not on the strip.
pub open spec fn loose_floats(floating: Seq<Entity>, columns: Seq<ColumnView>) -> Seq<Entity> {
    kept(floating, off_strip(columns), floating.len() as int)
}

fn loose_of(floating: &Vec<Entity>, strip: &LayoutStrip) -> (loose: Vec<Entity>)
    ensures
        loose@ == loose_floats(floating@, strip@),
{
    let mut loose: Vec<Entity> = Vec::new();
    let mut i: usize = 0;
    while i < floating.len()
        invariant
            i <= floating.len(),
            loose@ == kept(floating@, off_strip(strip@), i as int),
        decreases floating.len() - i,
    {
        if !strip.contains(floating[i]) {
            loose.push(floating[i]);
        }
        i = i + 1;
    }
    loose
}

/// What a tier that comes to the front asks for.
pub open spec fn front_requests(
    floating_front: bool,
    windows: Seq<WindowRecord>,
    floating: Seq<Entity>,
    columns: Seq<ColumnView>,
    last_managed: Option<Entity>,
) -> Seq<Request> {
    if floating_front {
        raises_to(windows, loose_floats(floating, columns), None, windows.len() as int)
    } else {
        match managed_target(last_managed, columns) {
            Some(entity) => seq![Request::Raise { entity, with_strip: true }],
            None => Seq::empty(),
        }
    }
}

/// Turns the tiers over. With the floating windows in front, each of them that
/// shows is raised; with the tiled ones in front, the strip is raised behind its
/// remembered window.
pub fn command_toggle_floating_layer(
    layers: &mut Vec<FloatingLayer>,
    windows: &Windows,
    workspace_windows: &Vec<WinID>,
    display_bounds: IRect,
    active_strip: &LayoutStrip,
    history: &FocusHistory,
    requests: &mut Requests,
) -> (floating_front: bool)
    requires
        windows.wf(),
    ensures
        final(layers)@ == layers_flipped(old(layers)@, active_strip.id),
        floating_front == ({
            let at = first_where(old(layers)@, layer_of(active_strip.id));
            at < old(layers)@.len() && !old(layers)@[at].front
        }),
        final(requests)@ == (if floating_front {
            old(requests)@ + raises_to(
                windows.all@,
                loose_floats(
                    visible_floats(windows.all@, workspace_windows@, display_bounds),
                    active_strip@,
                ),
                None,
                windows.all@.len() as int,
            )
        } else {
            match managed_target(
                history.memory(active_strip.id).last_managed,
                active_strip@,
            ) {
                Some(entity) => old(requests)@.push(Request::Raise { entity, with_strip: true }),
                None => old(requests)@,
            }
        }),
        final(requests)@ == old(requests)@ + front_requests(
            floating_front,
            windows.all@,
            visible_floats(windows.all@, workspace_windows@, display_bounds),
            active_strip@,
            history.memory(active_strip.id).last_managed,
        ),
{
    let front = flip_layer(layers, active_strip.id);
    if front {
        let floating = visible_floating_entities(windows, workspace_windows, display_bounds);
        let loose = loose_of(&floating, active_strip);
        raise_chosen(windows, &loose, None, requests);
    } else if let Some(entity) = managed_target_of(
        history.last_managed(active_strip.id),
        active_strip,
    ) {
        requests.push(Request::Raise { entity, with_strip: true });
    }
    assert(requests@ =~= old(requests)@ + front_requests(
        front,
        windows.all@,
        visible_floats(windows.all@, workspace_windows@, display_bounds),
        active_strip@,
        history.memory(active_strip.id).last_managed,
    ));
    front
}

/// The condition of being on screen.
pub open spec fn on_screen() -> spec_fn(StripEntry) -> bool {
    |entry: StripEntry| entry.active
}

/// Whether taking a window back into the layout puts it on the strip on screen:
/// it was out of the layout and is on no strip.
pub open spec fn rejoins(window: WindowRecord, strips: Seq<StripEntry>) -> bool {
    &&& window.unmanaged is Some
    &&& first_where(strips, holds_window(window.entity)) >= strips.len()
    &&& first_where(strips, on_screen()) < strips.len()
}

/// What a window asks for that leaves the tiled layout or comes back into it.
pub open spec fn manage_requests(window: WindowRecord, strips: Seq<StripEntry>) -> Seq<Request> {
    let entity = window.entity;
    let toggled = seq![
        if window.unmanaged is Some {
            Request::Manage { entity }
        } else {
            Request::Float { entity }
        },
    ];
    if rejoins(window, strips) {
        toggled.push(Request::Reshuffle { entity, force: true })
    } else {
        toggled
    }
}

/// Takes the focused window out of the tiled layout, or back into it. One that
/// comes back and is on no strip joins the strip on screen at its right end.
pub fn manage_window(windows: &Windows, strips: &mut Vec<StripEntry>, requests: &mut Requests)
    ensures
        match focused_record(windows.all@) {
            None => final(strips)@ == old(strips)@ && final(requests)@ == old(requests)@,
            Some(window) => {
                let entity = window.entity;
                let toggled = old(requests)@.push(
                    if window.unmanaged is Some {
                        Request::Manage { entity }
                    } else {
                        Request::Float { entity }
                    },
                );
                if rejoins(window, old(strips)@) {
                    let at = first_where(old(strips)@, on_screen());
                    &&& final(requests)@ == toggled.push(Request::Reshuffle { entity, force: true })
                    &&& only_columns_changed(
                        old(strips)@,
                        final(strips)@,
                        at,
                        old(strips)@[at].strip@.push(ColumnView::single(entity)),
                    )
                } else {
                    final(requests)@ == toggled && final(strips)@ == old(strips)@
                }
            },
        },
        focused_record(windows.all@) matches Some(window) ==> final(requests)@ =~= old(requests)@
            + manage_requests(window, old(strips)@),
{
    let window = match focused_window(windows) {
        Some(window) => window,
        None => {
            return;
        },
    };
    let entity = window.entity;
    if window.unmanaged.is_some() {
        requests.push(Request::Manage { entity });
    } else {
        requests.push(Request::Float { entity });
        return;
    }
    if owner_index(entity, strips).is_some() {
        return;
    }
    let mut i: usize = 0;
    while i < strips.len()
        invariant
            i <= strips.len(),
            strips@ == old(strips)@,
            first_where(strips@, on_screen()) == first_from(strips@, on_screen(), i as int),
            window.unmanaged is Some,
            focused_record(windows.all@) == Some(window),
            entity == window.entity,
            first_where(strips@, holds_window(entity)) >= strips@.len(),
            requests@ == old(requests)@.push(Request::Manage { entity }),
        decreases strips.len() - i,
    {
        if strips[i].active {
            let mut entry = strips.remove(i);
            entry.strip.append(entity);
            strips.insert(i, entry);
            requests.reshuffle_around_forced(entity);
            return;
        }
        i = i + 1;
    }
}

/// The window to copy a rule for, where a command asks for it: the one that has the
/// focus.
pub fn copy_window_rule(commands: &Vec<Command>, windows: &Windows) -> (subject: Option<
    WindowRecord,
>)
    ensures
        subject == (match focus_of(windows.all@) {
            Some(window) if commands@.contains(Command::Window(Operation::CopyRule)) => find_where(
                windows.all@,
                is_window(window.id),
            ),
            _ => None,
        }),
{
    if !any_command(commands, Command::Window(Operation::CopyRule)) {
        return None;
    }
    match windows.focused() {
        Some(window) => windows.find(window.id),
        None => None,
    }
}

/// The record, looked up by its handle, of the window that has the focus.
pub open spec fn focused_record(windows: Seq<WindowRecord>) -> Option<WindowRecord> {
    match focus_of(windows) {
        Some(window) => find_where(windows, is_entity(window.entity)),
        None => None,
    }
}

pub fn focused_window(windows: &Windows) -> (window: Option<WindowRecord>)
    ensures
        window == focused_record(windows.all@),
        window matches Some(found) ==> find_where(windows.all@, is_entity(found.entity)) == Some(
            found,
        ),
{
    match windows.focused() {
        Some(window) => {
            proof {
                find_window_handle(windows.all@, window.entity);
            }
            windows.get(window.entity)
        },
        None => None,
    }
}

/// Puts the focused window onto the stack to its left, or out of its stack. The
/// strip is laid out around it again.
pub fn stack_windows_handler(
    stack: bool,
    windows: &Windows,
    strip: &mut LayoutStrip,
    requests: &mut Requests,
)
    requires
        strip_wf(old(strip)@),
    ensures
        match focused_record(windows.all@) {
            Some(window) if window.unmanaged is None => {
                let entity = window.entity;
                let cleared = if window.full_width {
                    old(requests)@.push(Request::ForgetWidth { entity })
                } else {
                    old(requests)@
                };
                &&& final(requests)@ == cleared.push(Request::Reshuffle { entity, force: false })
                &&& final(strip)@ == (if stack {
                    strip_stacked(old(strip)@, entity)
                } else {
                    strip_unstacked(old(strip)@, entity)
                })
            },
            _ => final(requests)@ == old(requests)@ && final(strip)@ == old(strip)@,
        },
        final(strip).id == old(strip).id,
        final(strip).virtual_index == old(strip).virtual_index,
{
    if let Some(window) = focused_window(windows) {
        if window.unmanaged.is_some() {
            return;
        }
        let entity = window.entity;
        if window.full_width {
            requests.push(Request::ForgetWidth { entity });
        }
        if stack {
            let _ = strip.stack(entity);
        } else {
            let _ = strip.unstack(entity);
        }
        requests.reshuffle_around(entity);
    }
}

} // verus!
