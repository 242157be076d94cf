//! The warm-up after a start: commands wait until the world is loaded and still,
//! and are then delivered in their order.
use vstd::prelude::*;

use crate::commands::{Command, Operation};
use crate::ecs::sync::Gesture;
use crate::ecs::{ColdStart, PositionDrive};
use crate::geometry::spec_max;
use crate::time::Duration;

verus! {

/// Commands that wait for the end of the warm-up.
#[derive(Debug)]
pub struct ParkedCommands {
    pub queue: Vec<Command>,
}

/// Commands that may wait; the oldest goes first.
pub const PARKED_COMMAND_CAP: usize = 256;

/// The longest that a warm-up holds commands back, in seconds.
pub const COLD_START_DEADLINE: u64 = 8;

impl Default for ParkedCommands {
    fn default() -> (parked: ParkedCommands)
        ensures
            parked.queue@ == Seq::<Command>::empty(),
            parked.wf(),
    {
        ParkedCommands { queue: Vec::new() }
    }
}

/// The queue after a command came in: the oldest makes room where it is full.
pub open spec fn parked(queue: Seq<Command>, command: Command) -> Seq<Command> {
    if queue.len() >= PARKED_COMMAND_CAP {
        queue.remove(0).push(command)
    } else {
        queue.push(command)
    }
}

impl ParkedCommands {
    /// The queue never outgrows its cap.
    pub open spec fn wf(self) -> bool {
        self.queue@.len() <= PARKED_COMMAND_CAP
    }

    pub fn park(&mut self, command: Command)
        ensures
            final(self).queue@ == parked(old(self).queue@, command),
            old(self).wf() ==> final(self).wf(),
    {
        if self.queue.len() >= PARKED_COMMAND_CAP {
            self.queue.remove(0);
        }
        self.queue.push(command);
    }

    /// Hands the commands over in the order in which they came.
    pub fn drain(&mut self) -> (commands: Vec<Command>)
        ensures
            commands@ == old(self).queue@,
            final(self).queue@ == Seq::<Command>::empty(),
    {
        let mut commands: Vec<Command> = Vec::new();
        commands.append(&mut self.queue);
        commands
    }
}

/// The queue after the first `n` commands came in, from an empty one.
pub open spec fn parked_all(commands: Seq<Command>, n: int) -> Seq<Command>
    decreases n,
{
    if n <= 0 {
        Seq::empty()
    } else {
        parked(parked_all(commands, n - 1), commands[n - 1])
    }
}

/// Parking keeps the newest commands, in their order and as many as fit.
pub proof fn parking_keeps_the_newest_in_order(commands: Seq<Command>, n: int)
    requires
        0 <= n <= commands.len(),
    ensures
        parked_all(commands, n) == commands.subrange(spec_max(0, n - PARKED_COMMAND_CAP), n),
    decreases n,
{
    if n > 0 {
        parking_keeps_the_newest_in_order(commands, n - 1);
        assert(parked_all(commands, n) =~= commands.subrange(
            spec_max(0, n - PARKED_COMMAND_CAP),
            n,
        ));
    } else {
        assert(parked_all(commands, n) =~= commands.subrange(0, 0));
    }
}

/// What the warm-up waits for.
#[derive(Clone, Copy, Debug, PartialEq, Eq, Structural)]
pub struct WarmupStatus {
    pub init_done: bool,
    pub snapshot_primed: bool,
    pub settled: bool,
    pub restore_done: bool,
}

impl Default for WarmupStatus {
    fn default() -> (status: WarmupStatus)
        ensures
            status == (WarmupStatus {
                init_done: false,
                snapshot_primed: false,
                settled: false,
                restore_done: false,
            }),
    {
        WarmupStatus {
            init_done: false,
            snapshot_primed: false,
            settled: false,
            restore_done: false,
        }
    }
}

impl WarmupStatus {
    pub open spec fn is_ready(self) -> bool {
        self.init_done && self.snapshot_primed && self.settled && self.restore_done
    }
}

/// The warm-up is over once every gate is open.
pub fn warmup_ready(status: &WarmupStatus) -> (ready: bool)
    ensures
        ready == status.is_ready(),
{
    status.init_done && status.snapshot_primed && status.settled && status.restore_done
}

/// Whether a command may run during the warm-up: one that only moves the focus,
/// once the first layout is made.
pub open spec fn passes_warmup(command: Command, initializing: bool) -> bool {
    !initializing && (command matches Command::Window(operation) && (operation is Focus
        || operation is FocusOrVirtual))
}

/// The queue after the first `n` commands of a frame in the warm-up.
pub open spec fn parked_in_frame(
    queue: Seq<Command>,
    commands: Seq<Command>,
    initializing: bool,
    n: int,
) -> Seq<Command>
    decreases n,
{
    if n <= 0 {
        queue
    } else {
        let before = parked_in_frame(queue, commands, initializing, n - 1);
        if passes_warmup(commands[n - 1], initializing) {
            before
        } else {
            parked(before, commands[n - 1])
        }
    }
}

/// Parks the commands of a frame while the world warms up.
pub fn park_cold_commands(
    cold: bool,
    initializing: bool,
    commands: &Vec<Command>,
    waiting: &mut ParkedCommands,
)
    ensures
        final(waiting).queue@ == (if cold {
            parked_in_frame(old(waiting).queue@, commands@, initializing, commands@.len() as int)
        } else {
            old(waiting).queue@
        }),
        old(waiting).wf() ==> final(waiting).wf(),
{
    if !cold {
        return;
    }
    let mut i: usize = 0;
    while i < commands.len()
        invariant
            i <= commands.len(),
            waiting.queue@ == parked_in_frame(
                old(waiting).queue@,
                commands@,
                initializing,
                i as int,
            ),
            old(waiting).wf() ==> waiting.wf(),
        decreases commands.len() - i,
    {
        let passes = !initializing && (match commands[i] {
            Command::Window(Operation::Focus(_)) => true,
            Command::Window(Operation::FocusOrVirtual(_)) => true,
            _ => false,
        });
        if !passes {
            waiting.park(commands[i]);
        }
        i = i + 1;
    }
}

/// The frames that a worker thread has read, where there is such a worker.
#[derive(Debug)]
pub struct SnapshotFacts {
    pub epoch: u64,
    /// For each tiled window, whether a fresh frame of it is on record.
    pub fresh: Vec<bool>,
}

/// Whether the record of frames serves: it has been written and holds a fresh
/// frame of every tiled window. Without a worker there is nothing to wait for.
pub fn snapshot_primed(store: &Option<SnapshotFacts>) -> (primed: bool)
    ensures
        primed == (match *store {
            None => true,
            Some(facts) => facts.epoch >= 1 && !facts.fresh@.contains(false),
        }),
{
    match store {
        None => true,
        Some(facts) => {
            if facts.epoch < 1 {
                return false;
            }
            let mut i: usize = 0;
            while i < facts.fresh.len()
                invariant
                    i <= facts.fresh.len(),
                    *store == Some(*facts),
                    forall|k: int| 0 <= k < i ==> #[trigger] facts.fresh@[k],
                decreases facts.fresh.len() - i,
            {
                if !facts.fresh[i] {
                    assert(facts.fresh@[i as int] == false);
                    return false;
                }
                i = i + 1;
            }
            true
        },
    }
}

/// What a frame of the warm-up comes to.
#[derive(Debug)]
pub enum WarmupTick {
    /// No warm-up is under way, or it goes on.
    Nothing,
    /// The warm-up is over; the commands are to be delivered in their order.
    Over { late: bool, replay: Vec<Command> },
}

/// Whether the warm-up has gone on for as long as it may.
pub open spec fn deadline_hit(cold: ColdStart, now: Duration) -> bool {
    now.minus(cold.started) >= COLD_START_DEADLINE * 1_000_000_000
}

/// Ends the warm-up once the world is ready, or at the deadline.
pub fn tick_cold_start(
    cold: Option<ColdStart>,
    status: &WarmupStatus,
    now: Duration,
    waiting: &mut ParkedCommands,
) -> (tick: WarmupTick)
    ensures
        match cold {
            Some(start) if status.is_ready() || deadline_hit(start, now) => {
                &&& tick matches WarmupTick::Over { late, replay }
                &&& late == deadline_hit(start, now)
                &&& replay@ == old(waiting).queue@
                &&& final(waiting).queue@ == Seq::<Command>::empty()
            },
            _ => tick is Nothing && *final(waiting) == *old(waiting),
        },
{
    let cold = match cold {
        Some(cold) => cold,
        None => {
            return WarmupTick::Nothing;
        },
    };
    let late = cold.elapsed(now).nanos >= Duration::from_secs(COLD_START_DEADLINE).nanos;
    if !warmup_ready(status) && !late {
        return WarmupTick::Nothing;
    }
    WarmupTick::Over { late, replay: waiting.drain() }
}

/// What is under way when the pace of the snapshot worker is decided.
#[derive(Debug)]
pub struct CadenceFacts {
    pub warming: bool,
    /// The gesture of each held mouse button, where one is known.
    pub held: Vec<Option<Gesture>>,
    pub drives: Vec<PositionDrive>,
    /// A lost write waits to go out again.
    pub resending: bool,
    /// A frame of writes has not landed yet.
    pub writes_open: bool,
}

/// Whether some held gesture moves more than its own window.
pub open spec fn drag_drives(held: Seq<Option<Gesture>>) -> bool {
    exists|k: int|
        0 <= k < held.len() && (#[trigger] held[k] matches Some(gesture) && (gesture.display_armed
            || gesture.scroll_armed))
}

/// Whether the snapshot worker is to read at its fast pace: in the warm-up,
/// while a drag moves the layout, while a leg runs or is confirmed, and while
/// writes are open. A press that moves nothing buys no fast pace.
pub open spec fn reads_fast(facts: CadenceFacts) -> bool {
    facts.warming || drag_drives(facts.held@) || facts.drives@.len() > 0 || facts.resending
        || facts.writes_open
}

/// Decides the pace of the snapshot worker; answers the new pace where it
/// changes and there is a worker to tell.
pub fn publish_snapshot_cadence(facts: &CadenceFacts, has_worker: bool, last: &mut bool) -> (told:
    Option<bool>)
    ensures
        told == (if has_worker && reads_fast(*facts) != *old(last) {
            Some(reads_fast(*facts))
        } else {
            None
        }),
        *final(last) == (if has_worker {
            reads_fast(*facts)
        } else {
            *old(last)
        }),
{
    if !has_worker {
        return None;
    }
    let mut dragging = false;
    let mut i: usize = 0;
    while i < facts.held.len() && !dragging
        invariant
            i <= facts.held.len(),
            dragging ==> drag_drives(facts.held@),
            !dragging ==> forall|k: int|
                0 <= k < i ==> !(#[trigger] facts.held@[k] matches Some(gesture) && (
                gesture.display_armed || gesture.scroll_armed)),
        decreases facts.held.len() - i,
    {
        if let Some(gesture) = facts.held[i] {
            if gesture.drives() {
                assert(facts.held@[i as int] matches Some(g) && (g.display_armed
                    || g.scroll_armed));
                dragging = true;
            }
        }
        i = i + 1;
    }
    let fast = facts.warming || dragging || facts.drives.len() > 0 || facts.resending
        || facts.writes_open;
    if fast == *last {
        return None;
    }
    *last = fast;
    Some(fast)
}

} // verus!
