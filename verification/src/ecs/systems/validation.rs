//! Windows whose validation failed for the moment and is tried again.
use vstd::prelude::*;

use crate::ecs::{
    retry_pause_millis, PendingValidation, PendingValidations, SpawnWindowTrigger,
};
use crate::geometry::WinID;
use crate::time::Duration;

verus! {

impl PendingValidation {
    pub open spec fn is_due(self, now: Duration) -> bool {
        now.nanos >= self.next_retry.nanos
    }

    /// The entry after a pass; none where it leaves the queue: it is valid, or out
    /// of tries.
    pub open spec fn after(self, now: Duration, valid: bool) -> Option<PendingValidation> {
        if !self.is_due(now) {
            Some(self)
        } else if valid || self.tries <= 1 {
            None
        } else {
            let left = (self.tries - 1) as u8;
            Some(
                PendingValidation {
                    element: self.element,
                    tries: left,
                    next_retry: Duration {
                        nanos: (now.nanos + retry_pause_millis(left) * 1_000_000) as u128,
                    },
                },
            )
        }
    }
}

impl PendingValidations {
    /// Answers a new window: a valid one is to be managed, by the number that is
    /// given; any other is tried again in a while.
    pub fn window_creation_event(&mut self, element: u64, valid: Option<WinID>, now: Duration) -> (
        spawned: Option<SpawnWindowTrigger>)
        requires
            now.nanos + 500_000_000 <= u128::MAX,
        ensures
            match valid {
                Some(window) => (spawned matches Some(trigger) && trigger.0@ == seq![window])
                    && final(self).queue@ == old(self).queue@,
                None => spawned is None && final(self).queue@ == PendingValidations::queued(
                    old(self).queue@,
                    element,
                    now,
                ),
            },
            old(self).wf() ==> final(self).wf(),
    {
        match valid {
            Some(window) => {
                let mut windows: Vec<WinID> = Vec::new();
                windows.push(window);
                assert(windows@ =~= seq![window]);
                Some(SpawnWindowTrigger(windows))
            },
            None => {
                self.queue(element, now);
                None
            },
        }
    }
}

/// What is left of the first `n` entries.
pub open spec fn left_to(
    queue: Seq<PendingValidation>,
    valid: Seq<bool>,
    now: Duration,
    n: int,
) -> Seq<PendingValidation>
    decreases n,
{
    if n <= 0 {
        Seq::empty()
    } else {
        match queue[n - 1].after(now, valid[n - 1]) {
            Some(entry) => left_to(queue, valid, now, n - 1).push(entry),
            None => left_to(queue, valid, now, n - 1),
        }
    }
}

/// The elements of the first `n` entries that are valid by now.
pub open spec fn valid_to(
    queue: Seq<PendingValidation>,
    valid: Seq<bool>,
    now: Duration,
    n: int,
) -> Seq<u64>
    decreases n,
{
    if n <= 0 {
        Seq::empty()
    } else if queue[n - 1].is_due(now) && valid[n - 1] {
        valid_to(queue, valid, now, n - 1).push(queue[n - 1].element)
    } else {
        valid_to(queue, valid, now, n - 1)
    }
}

impl PendingValidations {
    /// Settles one pass. `valid` says of each entry whether its validation
    /// succeeds now; it counts only for entries that are due. Answers the elements
    /// that are valid. An entry that fails waits longer each time, and leaves once
    /// its tries are used up.
    pub fn retry_pending_validations(&mut self, valid: &Vec<bool>, now: Duration) -> (found: Vec<u64>)
        requires
            old(self).wf(),
            valid@.len() == old(self).queue@.len(),
            now.nanos + 4_000_000_000 <= u128::MAX,
        ensures
            final(self).wf(),
            final(self).queue@ == left_to(
                old(self).queue@,
                valid@,
                now,
                old(self).queue@.len() as int,
            ),
            found@ == valid_to(old(self).queue@, valid@, now, old(self).queue@.len() as int),
    {
        let mut found: Vec<u64> = Vec::new();
        let mut left: Vec<PendingValidation> = Vec::new();
        let mut i: usize = 0;
        while i < self.queue.len()
            invariant
                i <= self.queue.len(),
                *self == *old(self),
                self.wf(),
                valid@.len() == self.queue@.len(),
                now.nanos + 4_000_000_000 <= u128::MAX,
                left@.len() <= i,
                forall|k: int| 0 <= k < left@.len() ==> (#[trigger] left@[k]).tries > 0,
                left@ == left_to(self.queue@, valid@, now, i as int),
                found@ == valid_to(self.queue@, valid@, now, i as int),
            decreases self.queue.len() - i,
        {
            let entry = self.queue[i];
            assert(self.queue@[i as int].tries > 0);
            if now.nanos < entry.next_retry.nanos {
                left.push(entry);
            } else if valid[i] {
                found.push(entry.element);
            } else if entry.tries > 1 {
                let tries: u8 = entry.tries - 1;
                left.push(
                    PendingValidation {
                        element: entry.element,
                        tries,
                        next_retry: now.plus(PendingValidations::retry_delay(tries)),
                    },
                );
            }
            i = i + 1;
        }
        self.queue = left;
        found
    }
}

/// A validation is never tried for ever: every pass that is due and fails takes
/// one try, and the last one takes the entry out.
pub proof fn validations_run_out(entry: PendingValidation, now: Duration)
    requires
        entry.is_due(now),
        entry.tries > 0,
        now.nanos + 4_000_000_000 <= u128::MAX,
    ensures
        entry.tries == 1 ==> entry.after(now, false) is None,
        entry.tries > 1 ==> (entry.after(now, false) matches Some(next) && next.tries
            == entry.tries - 1 && next.next_retry.nanos > now.nanos),
{
}

} // verus!
