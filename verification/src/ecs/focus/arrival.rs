//! What a focus that arrives is remembered for, and what it lets move.
use vstd::prelude::*;

use crate::ecs::focus::{
    already_placed, arrival_requests, at_rest, centering, centering_fits, exposure_owed,
    followup_due, groups, landing_frame, looks_tabbed, loses_focus, may_rearrange, raise_order,
    raised_with, refusal, warp_target, ArrivalGuards, Exposure, FocusIntent, Followup,
    OwnerStrip, RevealFacts, TierMemory, WarpFacts,
};
use crate::ecs::layout::membership::windows_in;
use crate::ecs::layout::{tabs_of, ColumnView};
use crate::ecs::params::{
    frame_of, is_entity, place_of, tiled, GlobalState, Placement, WindowRecord,
};
use crate::ecs::{Request, Unmanaged};
use crate::geometry::{distance, Entity, IRect, Origin, Size};
use crate::seqs::{find_where, kept, lemma_first_from, lemma_kept, lemma_pushed};
use crate::time::Duration;

verus! {

/// A focus is remembered in the tier of its window, and leaves the memory of the other
/// tier alone; windows that are out of sight are not remembered. A window that is
/// forgotten is in no tier, and what is remembered of others stays.
pub proof fn memories_keep_to_their_tier(
    memory: TierMemory,
    entity: Entity,
    other: Entity,
)
    requires
        other != entity,
    ensures
        ({
            let managed = memory.recorded(entity, None);
            let floating = memory.recorded(entity, Some(Unmanaged::Floating));
            let gone = memory.without(entity);
            &&& managed.last_managed == Some(entity)
            &&& managed.last_floating == memory.last_floating
            &&& floating.last_floating == Some(entity)
            &&& floating.last_managed == memory.last_managed
            &&& memory.recorded(entity, Some(Unmanaged::Minimized)) == memory
            &&& memory.recorded(entity, Some(Unmanaged::Hidden)) == memory
            &&& gone.last_managed != Some(entity)
            &&& gone.last_floating != Some(entity)
            &&& memory.last_managed == Some(other) ==> gone.last_managed == Some(other)
            &&& memory.last_floating == Some(other) ==> gone.last_floating == Some(other)
            &&& managed.without(entity).last_managed is None
            &&& floating.without(entity).last_floating is None
        }),
{
}

/// Every window that has the focus, but for the one that got it, loses it; no other does.
pub proof fn one_window_keeps_the_focus(windows: Seq<WindowRecord>, focused: Entity, k: int)
    requires
        0 <= k < windows.len(),
    ensures
        kept(windows, loses_focus(focused), windows.len() as int).contains(windows[k])
            <==> windows[k].focused && windows[k].entity != focused,
{
    lemma_kept(windows, loses_focus(focused), windows.len() as int, windows[k]);
    assert(windows.take(windows.len() as int) =~= windows);
    assert(windows.contains(windows[k]));
}

/// A window that was asked for refuses the focus only if another window got it that does
/// not share a slot with it on any strip and does not look like a tab of it.
pub proof fn tabs_do_not_refuse_the_focus(
    pending: Entity,
    focused: Entity,
    strips: Seq<Seq<ColumnView>>,
    windows: Seq<WindowRecord>,
    k: int,
)
    requires
        0 <= k < strips.len(),
    ensures
        refusal(None, focused, strips, windows) is None,
        refusal(Some(focused), focused, strips, windows) is None,
        (tabs_of(strips[k], pending) matches Some(group) && group.contains(focused)) ==> refusal(
            Some(pending),
            focused,
            strips,
            windows,
        ) is None,
        focused != pending && !looks_tabbed(windows, pending, focused) && (forall|j: int|
            0 <= j < strips.len() ==> !(tabs_of(#[trigger] strips[j], pending) matches Some(group)
                && group.contains(focused))) ==> refusal(Some(pending), focused, strips, windows)
            == Some(pending),
{
    lemma_first_from(strips, groups(pending, focused), 0);
    assert((groups(pending, focused))(strips[k]) == (tabs_of(strips[k], pending) matches Some(group)
        && group.contains(focused)));
    if forall|j: int|
        0 <= j < strips.len() ==> !(tabs_of(#[trigger] strips[j], pending) matches Some(group)
            && group.contains(focused)) {
        assert forall|j: int| 0 <= j < strips.len() implies !(groups(pending, focused))(
            #[trigger] strips[j],
        ) by {}
    }
}

/// Centring a window puts its middle at the middle of the viewport, and the strip at its
/// top.
pub proof fn centering_strips_meet_the_middle(viewport: IRect, size: Size, slot: Origin)
    requires
        centering_fits(viewport, size, slot),
        0 <= size.x,
    ensures
        ({
            let target = centering(viewport, size, slot);
            &&& distance(2 * (slot.x + target.x) + size.x, viewport.min.x + viewport.max.x) <= 2
            &&& target.y == viewport.min.y
        }),
{
}

/// A focus that may rearrange the strip centres a tiled window where that is set, by the
/// offset of its own strip, and lays the strip out around it otherwise, once. One that
/// may not, or whose window is in its place already, moves nothing.
pub proof fn arrivals_move_their_own_strip(
    entity: Entity,
    guards: ArrivalGuards,
    strip: OwnerStrip,
    state: GlobalState,
    intent: FocusIntent,
    windows: Seq<WindowRecord>,
    place: Placement,
)
    requires
        place_of(windows, entity) == Some(place),
    ensures
        ({
            let owner = Some(strip);
            let may = may_rearrange(entity, guards, state, intent, windows);
            let there = already_placed(entity, owner, windows);
            let centred = arrival_requests(entity, guards, owner, state, intent, true, windows);
            let laid = arrival_requests(entity, guards, owner, state, intent, false, windows);
            &&& !may || there ==> centred.len() == 0 && laid.len() == 0
            &&& may && !there && tiled(windows, entity) ==> centred == seq![
                Request::Reposition {
                    entity: strip.entity,
                    origin: centering(strip.viewport, place.size, place.layout),
                },
            ]
            &&& may && !there && !guards.reshuffling ==> laid == seq![
                Request::Reshuffle { entity, force: false },
            ]
            &&& guards.reshuffling ==> laid.len() == 0
            &&& guards.restored || guards.mouse_held || guards.tabbed || state.initializing
                || state.skip_reshuffle ==> !may
        }),
{
}

/// A window that is fully in view is never revealed; one that is not is revealed as soon
/// as it and its strip are at rest. Where a write is on its way, or its strip has only
/// just come on screen, the reveal waits for two seconds at most.
pub proof fn reveals_show_what_is_out_of_view(
    facts: RevealFacts,
    windows: Seq<WindowRecord>,
    entity: Entity,
)
    requires
        facts.now.nanos + 2_000_000_000 <= u128::MAX,
        find_where(windows, is_entity(entity)) is Some,
    ensures
        ({
            let owed = exposure_owed(facts, windows, entity);
            &&& !facts.out_of_view(windows, entity) ==> owed != Exposure::Reveal
            &&& at_rest(facts) && !facts.write_pending && facts.out_of_view(windows, entity)
                && !facts.reveal_queued && !facts.strip_fresh() ==> owed == Exposure::Reveal
            &&& !at_rest(facts) ==> owed == Exposure::Nothing
            &&& at_rest(facts) && facts.write_pending ==> owed is Defer
            &&& facts.reveal_queued && !facts.write_pending ==> owed == Exposure::Nothing
            &&& owed matches Exposure::Defer { deadline } ==> deadline.nanos - facts.now.nanos
                == 2_000_000_000 && (facts.write_pending || facts.strip_fresh())
        }),
{
}

/// A reveal that waited comes once its window is at rest and out of view, while it still
/// has the focus; a window in view has no need of it any more.
pub proof fn deferred_reveals_come_at_rest(
    deadline: Duration,
    facts: RevealFacts,
    windows: Seq<WindowRecord>,
    entity: Entity,
)
    ensures
        ({
            let due = followup_due(true, deadline, facts, windows, entity);
            &&& followup_due(false, deadline, facts, windows, entity) == Followup::Drop
            &&& facts.now.nanos > deadline.nanos ==> due == Followup::Drop
            &&& due == Followup::Reveal ==> at_rest(facts) && facts.out_of_view(windows, entity)
            &&& at_rest(facts) && facts.now.nanos <= deadline.nanos && !facts.strip_fresh()
                && !facts.write_pending && facts.out_of_view(windows, entity) ==> due
                == Followup::Reveal
            &&& at_rest(facts) && facts.now.nanos <= deadline.nanos && !facts.strip_fresh()
                && !facts.write_pending && !facts.out_of_view(windows, entity) ==> due
                == Followup::Drop
        }),
{
}

/// A pointer that follows the focus lands in the middle of what shows of the window where
/// its strip is going; it stays where it is during a swipe, while a button is held, for a
/// press, and where the setting is off.
pub proof fn pointers_follow_to_what_shows(
    entity: Entity,
    state: GlobalState,
    facts: WarpFacts,
    intent: FocusIntent,
    windows: Seq<WindowRecord>,
)
    ensures
        facts.swiping || !facts.follows_focus || facts.mouse_held || state.skip_reshuffle
            ==> warp_target(entity, state, facts, intent, windows) is None,
        facts.owner is None ==> warp_target(entity, state, facts, intent, windows) is None,
        warp_target(entity, state, facts, intent, windows) matches Some(point) ==> (facts.owner
            matches Some(strip) && point == strip.viewport.overlap(
            landing_frame(windows, entity, facts.owner),
        ).spec_center()),
{
}

/// A window is raised last, above the windows of its strip that show by more than fifty
/// pixels, which are raised before it; alone it is the only one.
pub proof fn raised_windows_come_last(
    entity: Entity,
    viewport: IRect,
    columns: Seq<ColumnView>,
    windows: Seq<WindowRecord>,
    other: Entity,
)
    requires
        place_of(windows, entity) is Some,
    ensures
        ({
            let with = raise_order(entity, true, viewport, columns, windows);
            let alone = raise_order(entity, false, viewport, columns, windows);
            &&& alone == seq![entity]
            &&& with.last() == entity
            &&& other != entity ==> (with.contains(other) <==> windows_in(columns).contains(other)
                && (frame_of(windows, other) matches Some(frame) && viewport.overlap(
                frame,
            ).spec_width() > 50))
        }),
{
    let all = windows_in(columns);
    let p = raised_with(entity, viewport, windows);
    lemma_kept(all, p, all.len() as int, other);
    assert(all.take(all.len() as int) =~= all);
    lemma_pushed(kept(all, p, all.len() as int), entity, other);
}

/// A window is not at rest during the setup, while a button is held, after a restore, or
/// while it or its strip moves; a tab in the background has nothing to show. Otherwise it
/// is.
pub proof fn moving_windows_are_not_at_rest(facts: RevealFacts, strip: OwnerStrip)
    requires
        facts.owner == Some(strip),
    ensures
        facts.initializing || facts.mouse_held || facts.restored || facts.repositioning
            || facts.resizing ==> !at_rest(facts),
        strip.flying_to is Some || strip.scrolling || strip.previous_position || strip.snap_settling
            || strip.tabbed ==> !at_rest(facts),
        (facts.drive matches Some(drive) && drive.phase is Verifying) ==> !at_rest(facts),
        !facts.initializing && !facts.mouse_held && !facts.restored && !facts.repositioning
            && !facts.resizing && facts.drive is None && strip.flying_to is None
            && !strip.scrolling && !strip.previous_position && !strip.snap_settling
            && !strip.tabbed ==> at_rest(facts),
{
}

} // verus!
