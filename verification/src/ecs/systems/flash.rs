//! Messages that flash over the screen: of several only the newest shows.
use vstd::prelude::*;

use crate::ecs::Timeout;
use crate::geometry::Entity;
use crate::time::Duration;

verus! {

impl Timeout {
    /// The time that is left.
    pub open spec fn left(self) -> int {
        self.duration.minus(self.elapsed)
    }

    pub fn remaining(&self) -> (left: Duration)
        ensures
            left.nanos == self.left(),
    {
        self.duration.saturating_sub(self.elapsed)
    }
}

/// The message to show among the first `n`: of those whose time is not up, the
/// one with the most time left; the first of those with as much.
pub open spec fn newest_to(messages: Seq<(Entity, Timeout)>, n: int) -> Option<int>
    decreases n,
{
    if n <= 0 {
        None
    } else if messages[n - 1].1.finished {
        newest_to(messages, n - 1)
    } else {
        match newest_to(messages, n - 1) {
            Some(best) if messages[n - 1].1.left() <= messages[best].1.left() => Some(best),
            _ => Some(n - 1),
        }
    }
}

/// The messages to take away among the first `n`, in the order in which they are
/// found.
pub open spec fn stale_to(messages: Seq<(Entity, Timeout)>, n: int) -> Seq<Entity>
    decreases n,
{
    if n <= 0 {
        Seq::empty()
    } else {
        let before = stale_to(messages, n - 1);
        if messages[n - 1].1.finished {
            before.push(messages[n - 1].0)
        } else {
            match newest_to(messages, n - 1) {
                Some(best) => if messages[n - 1].1.left() <= messages[best].1.left() {
                    before.push(messages[n - 1].0)
                } else {
                    before.push(messages[best].0)
                },
                None => before,
            }
        }
    }
}

/// Picks the message to show, by its place, and those to take away.
pub fn update_flash_messages(messages: &Vec<(Entity, Timeout)>) -> (picked: (
    Option<usize>,
    Vec<Entity>,
))
    ensures
        match (picked.0, newest_to(messages@, messages@.len() as int)) {
            (Some(at), Some(best)) => at == best,
            (None, None) => true,
            _ => false,
        },
        picked.1@ == stale_to(messages@, messages@.len() as int),
{
    let mut alive: Option<usize> = None;
    let mut stale: Vec<Entity> = Vec::new();
    let mut i: usize = 0;
    while i < messages.len()
        invariant
            i <= messages.len(),
            match (alive, newest_to(messages@, i as int)) {
                (Some(at), Some(best)) => at == best && at < i,
                (None, None) => true,
                _ => false,
            },
            stale@ == stale_to(messages@, i as int),
        decreases messages.len() - i,
    {
        let (entity, timeout) = messages[i];
        if timeout.finished {
            stale.push(entity);
        } else {
            match alive {
                None => {
                    alive = Some(i);
                },
                Some(at) => {
                    let (newest, best) = messages[at];
                    if timeout.remaining().nanos > best.remaining().nanos {
                        stale.push(newest);
                        alive = Some(i);
                    } else {
                        stale.push(entity);
                    }
                },
            }
        }
        i = i + 1;
    }
    (alive, stale)
}

/// The message that shows has at least as much time left as every other one whose
/// time is not up, and all others are taken away.
pub proof fn the_newest_message_shows(messages: Seq<(Entity, Timeout)>, n: int)
    requires
        0 <= n <= messages.len(),
    ensures
        newest_to(messages, n) matches Some(best) ==> 0 <= best < n && !messages[best].1.finished
            && forall|k: int|
            0 <= k < n && !(#[trigger] messages[k]).1.finished ==> messages[k].1.left()
                <= messages[best].1.left(),
        newest_to(messages, n) is None ==> forall|k: int|
            0 <= k < n ==> (#[trigger] messages[k]).1.finished,
        stale_to(messages, n).len() == n - (if newest_to(messages, n) is Some {
            1int
        } else {
            0
        }),
    decreases n,
{
    if n > 0 {
        the_newest_message_shows(messages, n - 1);
    }
}

} // verus!
