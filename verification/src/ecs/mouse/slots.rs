//! Drops by their place on the screen: the slot is sought where the dragged window
//! is, and the drop, the ghost and the move to another display go by it.
use vstd::prelude::*;

use crate::commands::displays::{arrival_index, arrival_strip};
use crate::ecs::layout::{ColumnView, LayoutStrip};
use crate::ecs::mouse::drag::{
    drag_window_across_display, drop_slot, drop_slot_index, find_transfer, ghost_rect, ghost_width,
    lemma_transfer, mid_strip_slot, nearest_slot, preview_fits, preview_ghost, strip_end, transfer_fits,
    transfer_of, transferred, Held, Landing, PreviewSite,
};
use crate::ecs::mouse::{
    columns_reordered, drop_fits, drop_index, mouse_up_trigger, release_of, release_requests, released,
    released_members, reorders, try_reorder_column, DragPaintState, DragScrollState, Release,
    ReleaseFacts,
};
use crate::ecs::params::{
    frame_of, holds_window, owner_index, DisplaySnapshot, StripEntry, WindowRecord, Windows,
};
use crate::ecs::Requests;
use crate::geometry::{fits, DisplayId, Entity, IRect, Origin, WinID, WorkspaceId};
use crate::seqs::find_where;
use crate::time::Duration;

verus! {

/// The slot of a strip that a drop at a place on the screen is nearest to, with the
/// scroll that shows it there. Nothing is sought where windows go to the end.
pub open spec fn sought(
    columns: Seq<ColumnView>,
    scroll_x: i32,
    drop_x: i32,
    use_mid_slot: bool,
    windows: Seq<WindowRecord>,
) -> Option<(usize, i32)> {
    if use_mid_slot {
        let (index, edge) = nearest_slot(columns, windows, drop_x - scroll_x);
        Some((index as usize, (drop_x - edge) as i32))
    } else {
        None
    }
}

/// The scroll that shows the nearest slot at the drop fits its type.
pub open spec fn search_fits(
    columns: Seq<ColumnView>,
    scroll_x: i32,
    drop_x: i32,
    use_mid_slot: bool,
    windows: Seq<WindowRecord>,
) -> bool {
    use_mid_slot ==> fits(drop_x - nearest_slot(columns, windows, drop_x - scroll_x).1)
}

fn seek(
    strip: &LayoutStrip,
    scroll_x: i32,
    drop_x: i32,
    use_mid_slot: bool,
    windows: &Windows,
) -> (mid: Option<(usize, i32)>)
    requires
        windows.wf(),
        search_fits(strip@, scroll_x, drop_x, use_mid_slot, windows.all@),
    ensures
        mid == sought(strip@, scroll_x, drop_x, use_mid_slot, windows.all@),
        mid matches Some(slot) ==> slot.0 == nearest_slot(
            strip@,
            windows.all@,
            drop_x - scroll_x,
        ).0 && slot.1 == drop_x - nearest_slot(strip@, windows.all@, drop_x - scroll_x).1,
{
    if use_mid_slot {
        Some(mid_strip_slot(strip, scroll_x, drop_x, windows))
    } else {
        None
    }
}

/// Where a drop at a place on the screen lands: at the nearest slot, or at the end of
/// the strip; and where that is on the screen.
pub fn drop_slot_at(
    strip: &LayoutStrip,
    scroll_x: i32,
    drop_x: i32,
    use_mid_slot: bool,
    windows: &Windows,
) -> (slot: (usize, i32))
    requires
        windows.wf(),
        search_fits(strip@, scroll_x, drop_x, use_mid_slot, windows.all@),
        use_mid_slot ==> fits(
            nearest_slot(strip@, windows.all@, drop_x - scroll_x).1 + scroll_x,
        ),
        !use_mid_slot ==> fits(strip_end(strip@, windows.all@) + scroll_x),
    ensures
        use_mid_slot ==> slot.0 == nearest_slot(strip@, windows.all@, drop_x - scroll_x).0
            && slot.1 == nearest_slot(strip@, windows.all@, drop_x - scroll_x).1 + scroll_x,
        !use_mid_slot ==> slot.0 == strip@.len() && slot.1 == strip_end(strip@, windows.all@)
            + scroll_x,
{
    let mid = seek(strip, scroll_x, drop_x, use_mid_slot, windows);
    drop_slot_index(strip, scroll_x, drop_x, mid, windows)
}

/// The slot of its own strip that a dragged window is nearest to.
pub open spec fn slot_under(entity: Entity, entry: StripEntry, windows: Seq<WindowRecord>) -> (
    usize,
    i32,
) {
    match frame_of(windows, entity) {
        Some(frame) => match sought(
            entry.strip@,
            entry.position.x,
            frame.min.x,
            true,
            windows,
        ) {
            Some(slot) => slot,
            None => (0, 0),
        },
        None => (0, 0),
    }
}

/// Every number that a drop of the window on its own strip leads to fits its type.
pub open spec fn own_drop_fits(
    entity: Entity,
    entry: StripEntry,
    windows: Seq<WindowRecord>,
) -> bool {
    &&& frame_of(windows, entity) matches Some(frame) ==> search_fits(
        entry.strip@,
        entry.position.x,
        frame.min.x,
        true,
        windows,
    )
    &&& drop_fits(entity, entry, windows, slot_under(entity, entry, windows))
}

fn seek_under(entity: Entity, entry: &StripEntry, windows: &Windows) -> (mid: (usize, i32))
    requires
        windows.wf(),
        own_drop_fits(entity, *entry, windows.all@),
    ensures
        mid == slot_under(entity, *entry, windows.all@),
{
    match windows.frame(entity) {
        Some(frame) => match seek(&entry.strip, entry.position.x, frame.min.x, true, windows) {
            Some(slot) => slot,
            None => (0, 0),
        },
        None => (0, 0),
    }
}

/// Moves the dragged column to the slot that its window is nearest to. Answers whether
/// it moved.
pub fn reorder_at_drop(entity: Entity, entry: &mut StripEntry, windows: &Windows) -> (moved: bool)
    requires
        windows.wf(),
        own_drop_fits(entity, *old(entry), windows.all@),
    ensures
        ({
            let mid = slot_under(entity, *old(entry), windows.all@);
            &&& moved == reorders(entity, *old(entry), windows.all@, mid)
            &&& moved ==> final(entry).strip@ == columns_reordered(
                old(entry).strip@,
                entity,
                drop_index(entity, *old(entry), windows.all@, mid),
            )
        }),
        !moved ==> *final(entry) == *old(entry),
        *final(entry) == (StripEntry { strip: final(entry).strip, ..*old(entry) }),
        final(entry).strip.id == old(entry).strip.id,
        final(entry).strip.virtual_index == old(entry).strip.virtual_index,
{
    let mid = seek_under(entity, entry, windows);
    try_reorder_column(entity, entry, windows, mid)
}

/// A dropped column ends up where its window was let go: its slot among all columns is
/// the nearest one.
pub proof fn drops_go_to_the_nearest_slot(
    entity: Entity,
    entry: StripEntry,
    windows: Seq<WindowRecord>,
    frame: IRect,
)
    requires
        frame_of(windows, entity) == Some(frame),
        entry.strip@.len() <= usize::MAX,
    ensures
        drop_index(entity, entry, windows, slot_under(entity, entry, windows)) == nearest_slot(
            entry.strip@,
            windows,
            frame.min.x - entry.position.x,
        ).0,
{
    lemma_nearest_is_a_slot(entry.strip@, windows, frame.min.x - entry.position.x);
}

/// The nearest slot is one of the strip's.
proof fn lemma_nearest_is_a_slot(columns: Seq<ColumnView>, windows: Seq<WindowRecord>, place: int)
    ensures
        0 <= nearest_slot(columns, windows, place).0 <= columns.len(),
{
    lemma_nearest_is_a_column(columns, windows, place, columns.len() as int);
}

proof fn lemma_nearest_is_a_column(
    columns: Seq<ColumnView>,
    windows: Seq<WindowRecord>,
    place: int,
    n: int,
)
    requires
        0 <= n <= columns.len(),
    ensures
        crate::ecs::mouse::drag::nearest_edge(columns, windows, place, n) matches Some((index, _))
            ==> 0 <= index < n,
    decreases n,
{
    if n > 0 {
        lemma_nearest_is_a_column(columns, windows, place, n - 1);
    }
}

/// The facts of a release, with the slot that the window is nearest to on its strip.
pub open spec fn facts_at_drop(
    facts: ReleaseFacts,
    strips: Seq<StripEntry>,
    windows: Seq<WindowRecord>,
) -> ReleaseFacts {
    ReleaseFacts {
        nearest: match find_where(strips, holds_window(facts.entity)) {
            Some(entry) => slot_under(facts.entity, entry, windows),
            None => facts.nearest,
        },
        ..facts
    }
}

/// Answers a release of the held window where it is: an armed drop goes to the slot
/// that the window is nearest to. Answers how the release ended.
pub fn release_at_drop(
    facts: ReleaseFacts,
    strips: &mut Vec<StripEntry>,
    windows: &Windows,
    homes: &Vec<Option<Origin>>,
    scroll: &mut DragScrollState,
    paint: &mut DragPaintState,
    now: Duration,
    requests: &mut Requests,
) -> (release: Release)
    requires
        windows.wf(),
        homes@.len() == released_members(old(strips)@, facts.entity).len(),
        find_where(old(strips)@, holds_window(facts.entity)) matches Some(entry) ==> own_drop_fits(
            facts.entity,
            entry,
            windows.all@,
        ),
        now.nanos + 1_000_000_000 <= u128::MAX,
    ensures
        release == release_of(
            facts.cold,
            facts.display_armed,
            facts.scroll_armed,
            old(scroll).distance_px,
            facts.shortcut,
        ),
        *final(paint) == DragPaintState::idle(),
        final(scroll).distance_px == 0,
        final(scroll).last_sample_at is None,
        final(requests)@ == old(requests)@ + release_requests(
            facts_at_drop(facts, old(strips)@, windows.all@),
            old(strips)@,
            windows.all@,
            homes@,
            old(scroll).distance_px,
        ),
        released(
            facts_at_drop(facts, old(strips)@, windows.all@),
            (old(strips)@, final(strips)@),
            windows.all@,
            (*old(scroll), *final(scroll)),
            now,
        ),
{
    let mut there = facts;
    if let Some(at) = owner_index(facts.entity, strips) {
        there.nearest = seek_under(facts.entity, &strips[at], windows);
    }
    mouse_up_trigger(there, strips, windows, homes, scroll, paint, now, requests)
}

/// The slot that a window is nearest to on the display that it is taken to.
pub open spec fn slot_across(
    transfer: Option<(Entity, Landing)>,
    use_mid_slot: bool,
    windows: Seq<WindowRecord>,
    strips: Seq<StripEntry>,
) -> Option<(usize, i32)> {
    match transfer {
        Some((entity, landing)) => match frame_of(windows, entity) {
            Some(frame) => sought(
                strips[arrival_strip(strips, Some(landing.space))].strip@,
                landing.bounds.min.x,
                frame.min.x,
                use_mid_slot,
                windows,
            ),
            None => None,
        },
        None => None,
    }
}

/// Every number that a move to the nearest slot of another display leads to fits its
/// type.
pub open spec fn crossing_fits(
    transfer: Option<(Entity, Landing)>,
    use_mid_slot: bool,
    windows: Seq<WindowRecord>,
    strips: Seq<StripEntry>,
) -> bool {
    &&& transfer matches Some((entity, landing)) ==> (frame_of(windows, entity) matches Some(frame)
        ==> search_fits(
        strips[arrival_strip(strips, Some(landing.space))].strip@,
        landing.bounds.min.x,
        frame.min.x,
        use_mid_slot,
        windows,
    ))
    &&& transfer_fits(
        transfer,
        slot_across(transfer, use_mid_slot, windows, strips),
        windows,
        strips,
    )
}

/// Takes the column of a dragged window to the display that its middle is on, to the
/// slot there that it is nearest to, or to the end of the strip. Answers whether it
/// went.
pub fn cross_at_drop(
    window_id: WinID,
    held: &Vec<Held>,
    shortcut: bool,
    windows: &Windows,
    source: &mut LayoutStrip,
    active: DisplayId,
    others: &Vec<DisplaySnapshot>,
    spaces: &Vec<(DisplayId, WorkspaceId)>,
    strips: &mut Vec<StripEntry>,
    use_mid_slot: bool,
    requests: &mut Requests,
) -> (moved: bool)
    requires
        crossing_fits(
            transfer_of(
                window_id,
                held@,
                shortcut,
                windows.all@,
                old(source)@,
                active,
                others@,
                spaces@,
                old(strips)@,
            ),
            use_mid_slot,
            windows.all@,
            old(strips)@,
        ),
        windows.wf(),
        crate::commands::frames_centerable(windows.all@),
        forall|i: int| 0 <= i < others@.len() ==> fits((#[trigger] others@[i]).1.spec_width()),
    ensures
        ({
            let transfer = transfer_of(
                window_id,
                held@,
                shortcut,
                windows.all@,
                old(source)@,
                active,
                others@,
                spaces@,
                old(strips)@,
            );
            &&& moved == (transfer is Some)
            &&& transferred(
                transfer,
                slot_across(transfer, use_mid_slot, windows.all@, old(strips)@),
                windows.all@,
                (old(source)@, final(source)@),
                (old(strips)@, final(strips)@),
                (old(requests)@, final(requests)@),
            )
        }),
        final(source).id == old(source).id,
        final(source).virtual_index == old(source).virtual_index,
{
    let transfer = find_transfer(
        window_id,
        held,
        shortcut,
        windows,
        source,
        active,
        others,
        spaces,
        strips,
    );
    proof {
        lemma_transfer(
            window_id,
            held@,
            shortcut,
            windows.all@,
            source@,
            active,
            others@,
            spaces@,
            strips@,
        );
    }
    let mut mid: Option<(usize, i32)> = None;
    if let Some((entity, landing)) = transfer {
        if let (Some(at), Some(frame)) = (
            arrival_index(strips, Some(landing.space)),
            windows.frame(entity),
        ) {
            mid = seek(
                &strips[at].strip,
                landing.bounds.min.x,
                frame.min.x,
                use_mid_slot,
                windows,
            );
        }
    }
    drag_window_across_display(
        window_id,
        held,
        shortcut,
        windows,
        source,
        active,
        others,
        spaces,
        strips,
        mid,
        requests,
    )
}

/// The ghost of a dragged window at a site: at the slot that it is nearest to there, or
/// at the end of the strip, as wide as the whole dragged column.
pub fn ghost_at_drop(
    entity: Entity,
    frame: IRect,
    site: PreviewSite,
    strips: &Vec<StripEntry>,
    windows: &Windows,
    use_mid_slot: bool,
) -> (rect: IRect)
    requires
        windows.wf(),
        site.strip < strips@.len(),
        search_fits(
            strips@[site.strip as int].strip@,
            site.scroll_x,
            frame.min.x,
            use_mid_slot,
            windows.all@,
        ),
        preview_fits(
            entity,
            frame,
            site,
            strips@,
            windows.all@,
            sought(
                strips@[site.strip as int].strip@,
                site.scroll_x,
                frame.min.x,
                use_mid_slot,
                windows.all@,
            ),
        ),
    ensures
        rect == ghost_rect(
            drop_slot(
                strips@[site.strip as int].strip@,
                site.scroll_x,
                frame.min.x,
                sought(
                    strips@[site.strip as int].strip@,
                    site.scroll_x,
                    frame.min.x,
                    use_mid_slot,
                    windows.all@,
                ),
                windows.all@,
            ).1,
            site.viewport,
            ghost_width(entity, frame, strips@, windows.all@) as i32,
        ),
{
    let mid = seek(
        &strips[site.strip].strip,
        site.scroll_x,
        frame.min.x,
        use_mid_slot,
        windows,
    );
    preview_ghost(entity, frame, site, strips, windows, mid)
}

} // verus!
