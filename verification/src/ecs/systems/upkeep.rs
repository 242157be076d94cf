//! How tabs find their group, how windows are tried again, and when the warm-up ends.
use vstd::prelude::*;

use crate::commands::Command;
use crate::ecs::layout::ColumnView;
use crate::ecs::systems::pump::{lead_sleep, phased_sleep};
use crate::ecs::systems::tabs::{
    apps_to, nearest_outside, regrouped_to, same_size_as, shows_for, sibling_in_place, stands_alone,
    sticks_out, tab_leader, TabCandidate,
};
use crate::ecs::systems::validation::{left_to, valid_to};
use crate::ecs::systems::warmup::{
    deadline_hit, parked_in_frame, passes_warmup, reads_fast, CadenceFacts, PARKED_COMMAND_CAP,
};
use crate::ecs::{ColdStart, PendingValidation, PendingValidations};
use crate::geometry::{distance, Entity, IRect};
use crate::seqs::{find_where, lemma_first_from, lemma_pushed};
use crate::time::Duration;

verus! {

proof fn lemma_nearest_outside(
    windows: Seq<TabCandidate>,
    created: TabCandidate,
    display: IRect,
    n: int,
)
    requires
        0 <= n <= windows.len(),
    ensures
        nearest_outside(windows, created, display, n) matches Some(best) ==> {
            &&& (same_size_as(created))(best)
            &&& sticks_out(best, display)
            &&& forall|k: int|
                0 <= k < n && (same_size_as(created))(#[trigger] windows[k]) && sticks_out(
                    windows[k],
                    display,
                ) ==> distance(created.position.x as int, best.position.x as int) <= distance(
                    created.position.x as int,
                    windows[k].position.x as int,
                )
        },
        nearest_outside(windows, created, display, n) is None ==> forall|k: int|
            0 <= k < n ==> !((same_size_as(created))(#[trigger] windows[k]) && sticks_out(
                windows[k],
                display,
            )),
    decreases n,
{
    if n > 0 {
        lemma_nearest_outside(windows, created, display, n - 1);
    }
}

/// A new window joins the tabs of another one of the same application and nearly the same
/// size: one in the same place wherever there is one, and otherwise the nearest of those
/// that stick out of the display. Where there is neither it joins none.
pub proof fn tabs_join_their_like(
    windows: Seq<TabCandidate>,
    created: TabCandidate,
    display: IRect,
    k: int,
)
    requires
        0 <= k < windows.len(),
    ensures
        ({
            let leader = tab_leader(windows, created, display);
            let alike = windows[k].entity != created.entity && windows[k].app == created.app
                && windows[k].size.near(created.size, 1);
            &&& leader matches Some(found) ==> found.entity != created.entity && found.app
                == created.app && found.size.near(created.size, 1)
            &&& alike && windows[k].position.near(created.position, 1) ==> (leader matches Some(
                found,
            ) && found.position.near(created.position, 1))
            &&& leader matches Some(found) ==> found.position.near(created.position, 1)
                || sticks_out(found, display)
            &&& alike && sticks_out(windows[k], display) ==> leader is Some
            &&& leader matches Some(found) ==> (alike && sticks_out(windows[k], display)
                && !found.position.near(created.position, 1) ==> distance(
                created.position.x as int,
                found.position.x as int,
            ) <= distance(created.position.x as int, windows[k].position.x as int))
        }),
{
    let here = sibling_in_place(created);
    lemma_first_from(windows, here, 0);
    lemma_nearest_outside(windows, created, display, windows.len() as int);
    assert(here(windows[k]) == ((same_size_as(created))(windows[k]) && windows[k].position.near(
        created.position,
        1,
    )));
    assert((same_size_as(created))(windows[k]) == (windows[k].entity != created.entity
        && windows[k].app == created.app && windows[k].size.near(created.size, 1)));
}

/// Only a window that does not show, and that has a column of its own, is folded into the
/// tabs of another one, and that one shows in the same place, at the same size and for the
/// same application.
pub proof fn only_hidden_windows_are_folded(
    before: Seq<ColumnView>,
    windows: Seq<TabCandidate>,
    n: int,
    entity: Entity,
) -> (k: int)
    requires
        0 <= n <= windows.len(),
        regrouped_to(before, windows, n).folded.contains(entity),
    ensures
        0 <= k < n,
        windows[k].entity == entity,
        !windows[k].on_screen,
        stands_alone(before, entity),
        find_where(windows, shows_for(windows[k])) matches Some(leader) && leader.on_screen
            && leader.app == windows[k].app && leader.entity != entity && leader.position.near(
            windows[k].position,
            1,
        ) && leader.size.near(windows[k].size, 1),
    decreases n,
{
    let so_far = regrouped_to(before, windows, n - 1);
    if n > 0 && so_far.folded.contains(entity) {
        only_hidden_windows_are_folded(before, windows, n - 1, entity)
    } else {
        lemma_pushed(so_far.folded, windows[n - 1].entity, entity);
        lemma_first_from(windows, shows_for(windows[n - 1]), 0);
        n - 1
    }
}

/// The applications in front are asked first, and every application once.
pub proof fn every_application_is_asked(frontmost: Seq<bool>, front: bool, n: int, k: usize)
    requires
        0 <= n <= frontmost.len(),
        frontmost.len() <= usize::MAX,
    ensures
        apps_to(frontmost, front, n).contains(k) <==> k < n && frontmost[k as int] == front,
        forall|i: int, j: int|
            0 <= i < j < apps_to(frontmost, front, n).len() ==> #[trigger] apps_to(
                frontmost,
                front,
                n,
            )[i] < #[trigger] apps_to(frontmost, front, n)[j],
        forall|i: int|
            0 <= i < apps_to(frontmost, front, n).len() ==> #[trigger] apps_to(
                frontmost,
                front,
                n,
            )[i] < n,
    decreases n,
{
    if n > 0 {
        every_application_is_asked(frontmost, front, n - 1, k);
        lemma_pushed(apps_to(frontmost, front, n - 1), (n - 1) as usize, k);
    }
}

/// A window that is not due is left as it is. One that is due and valid leaves the queue;
/// one that is not valid is tried once less, and not again at once.
pub proof fn tries_run_out_one_by_one(entry: PendingValidation, now: Duration)
    requires
        now.nanos + 4_000_000_000 <= u128::MAX,
        entry.tries <= 8,
    ensures
        !entry.is_due(now) ==> entry.after(now, true) == Some(entry) && entry.after(now, false)
            == Some(entry),
        entry.is_due(now) ==> entry.after(now, true) is None,
        entry.is_due(now) && entry.tries <= 1 ==> entry.after(now, false) is None,
        entry.is_due(now) && entry.tries > 1 ==> (entry.after(now, false) matches Some(next)
            && next.element == entry.element && next.tries == entry.tries - 1),
{
}

proof fn lemma_valid(
    queue: Seq<PendingValidation>,
    valid: Seq<bool>,
    now: Duration,
    n: int,
    k: int,
)
    requires
        0 <= k < n <= queue.len(),
        valid.len() == queue.len(),
    ensures
        queue[k].is_due(now) && valid[k] ==> valid_to(queue, valid, now, n).contains(
            queue[k].element,
        ),
        queue[k].after(now, valid[k]) matches Some(entry) ==> left_to(
            queue,
            valid,
            now,
            n,
        ).contains(entry),
    decreases n,
{
    let found = valid_to(queue, valid, now, n - 1);
    let left = left_to(queue, valid, now, n - 1);
    lemma_pushed(found, queue[n - 1].element, queue[k].element);
    if let Some(entry) = queue[k].after(now, valid[k]) {
        if let Some(last) = queue[n - 1].after(now, valid[n - 1]) {
            lemma_pushed(left, last, entry);
        }
    }
    if k < n - 1 {
        lemma_valid(queue, valid, now, n - 1, k);
    }
}

/// Every window of the queue that is due and valid is found; every other one whose tries
/// are not spent stays.
pub proof fn valid_windows_are_found(
    queue: Seq<PendingValidation>,
    valid: Seq<bool>,
    now: Duration,
    k: int,
)
    requires
        0 <= k < queue.len(),
        valid.len() == queue.len(),
    ensures
        ({
            let n = queue.len() as int;
            &&& queue[k].is_due(now) && valid[k] ==> valid_to(queue, valid, now, n).contains(
                queue[k].element,
            )
            &&& !queue[k].is_due(now) ==> left_to(queue, valid, now, n).contains(queue[k])
        }),
{
    lemma_valid(queue, valid, now, queue.len() as int, k);
}

/// Focus commands pass the warm-up once the setup is done; every other command waits.
pub proof fn only_focus_commands_pass(command: Command)
    ensures
        !passes_warmup(command, true),
        passes_warmup(command, false) <==> (command matches Command::Window(operation) && (
        operation is Focus || operation is FocusOrVirtual)),
{
}

proof fn lemma_parked(
    queue: Seq<Command>,
    commands: Seq<Command>,
    initializing: bool,
    n: int,
    command: Command,
)
    requires
        0 <= n <= commands.len(),
        queue.len() + n <= PARKED_COMMAND_CAP,
    ensures
        parked_in_frame(queue, commands, initializing, n).len() <= queue.len() + n,
        parked_in_frame(queue, commands, initializing, n).contains(command) <==> queue.contains(
            command,
        ) || exists|k: int|
            0 <= k < n && #[trigger] commands[k] == command && !passes_warmup(
                command,
                initializing,
            ),
    decreases n,
{
    if n > 0 {
        let before = parked_in_frame(queue, commands, initializing, n - 1);
        lemma_parked(queue, commands, initializing, n - 1, command);
        lemma_pushed(before, commands[n - 1], command);
    }
}

/// While there is room, every command of a frame that does not pass waits, behind those
/// that wait already, and no other does.
pub proof fn waiting_commands_are_kept(
    queue: Seq<Command>,
    commands: Seq<Command>,
    initializing: bool,
    k: int,
)
    requires
        0 <= k < commands.len(),
        queue.len() + commands.len() <= PARKED_COMMAND_CAP,
    ensures
        ({
            let waiting = parked_in_frame(queue, commands, initializing, commands.len() as int);
            &&& !passes_warmup(commands[k], initializing) ==> waiting.contains(commands[k])
            &&& passes_warmup(commands[k], initializing) && !queue.contains(commands[k])
                ==> !waiting.contains(commands[k])
        }),
{
    lemma_parked(queue, commands, initializing, commands.len() as int, commands[k]);
}

/// A warm-up that has reached its deadline stays past it.
pub proof fn deadlines_stay_hit(cold: ColdStart, now: Duration, later: Duration)
    requires
        now.nanos <= later.nanos,
    ensures
        deadline_hit(cold, now) ==> deadline_hit(cold, later),
        !deadline_hit(cold, cold.started),
{
}

/// Windows are read fast while anything is under way, and slowly once nothing is.
pub proof fn reads_slow_down_at_rest(facts: CadenceFacts)
    ensures
        facts.warming || facts.resending || facts.writes_open || facts.drives@.len() > 0
            ==> reads_fast(facts),
        !facts.warming && !facts.resending && !facts.writes_open && facts.drives@.len() == 0
            && facts.held@.len() == 0 ==> !reads_fast(facts),
{
}

/// A window that cannot be taken up yet waits behind all others, with all its tries; the
/// oldest makes room only where the queue is full.
pub proof fn waiting_windows_queue_up(queue: Seq<PendingValidation>, element: u64, now: Duration, k: int)
    requires
        now.nanos + 500_000_000 <= u128::MAX,
        0 <= k < queue.len(),
    ensures
        ({
            let after = PendingValidations::queued(queue, element, now);
            let full = queue.len() >= 64;
            &&& after.last().element == element
            &&& after.last().tries == 3
            &&& after.last().next_retry.nanos == now.nanos + 500_000_000
            &&& !full ==> after.len() == queue.len() + 1 && after[k] == queue[k]
            &&& full ==> after.len() == queue.len() && (k >= 1 ==> after[k - 1] == queue[k])
        }),
{
}

/// A pump that draws sleeps until the next retrace where it knows of one, to the nearest
/// millisecond of the period where it knows only that; one at rest sleeps longer, and
/// longest on low power.
pub proof fn pumps_sleep_by_the_retrace(
    lead: Duration,
    period: Duration,
    low_power: bool,
    promotion: bool,
)
    requires
        period.nanos <= 1_000_000_000,
    ensures
        phased_sleep(true, low_power, Some(lead), Some(period), promotion) == lead_sleep(lead),
        distance(
            phased_sleep(true, low_power, None, Some(period), promotion) * 1_000_000,
            period.nanos as int,
        ) <= 500_000,
        phased_sleep(false, false, Some(lead), Some(period), promotion) == phased_sleep(
            false,
            false,
            None,
            None,
            !promotion,
        ),
        phased_sleep(false, false, None, None, promotion) <= phased_sleep(
            false,
            true,
            None,
            None,
            promotion,
        ),
        phased_sleep(true, low_power, None, None, promotion) <= phased_sleep(
            false,
            false,
            None,
            None,
            promotion,
        ),
{
}

} // verus!
