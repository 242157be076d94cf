//! Damping of windows that keep resizing themselves: a burst of small changes
//! inside a trailing window of time counts as jitter, a large change or a quiet
//! stretch starts over.
use std::collections::{HashMap, VecDeque};
use vstd::prelude::*;
use vstd::std_specs::hash::*;

use crate::geometry::WinID;
use crate::time::Duration;

verus! {

/// How much jitter is tolerated.
#[derive(Clone, Copy, Debug, PartialEq, Eq, Structural)]
pub struct Tolerance {
    /// Small changes that still go through inside the window of time.
    pub count: usize,
    /// The trailing window of time.
    pub window: Duration,
    /// Changes of this many pixels or more are genuine.
    pub pixels: i32,
}

/// The history without the leading entries that are older than the window.
pub open spec fn recent_of(history: Seq<Duration>, now: Duration, window: Duration) -> Seq<Duration>
    decreases history.len(),
{
    if history.len() > 0 && now.minus(history[0]) > window.nanos {
        recent_of(history.drop_first(), now, window)
    } else {
        history
    }
}

/// The history after a small change at `now`.
pub open spec fn history_after(
    history: Seq<Duration>,
    now: Duration,
    window: Duration,
) -> Seq<Duration> {
    recent_of(history, now, window).push(now)
}

/// Whether the running episode is reported after a small change at `now`: it is once a
/// change was held, until a quiet stretch ends the episode.
pub open spec fn reported_after(
    history: Seq<Duration>,
    reported: bool,
    now: Duration,
    tolerance: Tolerance,
) -> bool {
    ||| history_after(history, now, tolerance.window).len() > tolerance.count
    ||| reported && recent_of(history, now, tolerance.window).len() > 0
}

/// The small changes of one window, oldest first, and whether its episode has
/// been reported.
#[derive(Debug)]
pub struct Episode {
    pub recent: VecDeque<Duration>,
    pub reported: bool,
}

impl Episode {
    pub fn new() -> (episode: Episode)
        ensures
            episode.recent@ == Seq::<Duration>::empty(),
            !episode.reported,
    {
        Episode { recent: VecDeque::new(), reported: false }
    }

    /// Records a change of `delta_px` pixels at `now`. Answers whether the window
    /// jitters, so that this change is to be held.
    pub fn damp(&mut self, now: Duration, delta_px: i32, tolerance: Tolerance) -> (held: bool)
        ensures
            delta_px >= tolerance.pixels ==> !held && final(self).recent@ == Seq::<
                Duration,
            >::empty() && !final(self).reported,
            delta_px < tolerance.pixels ==> {
                &&& final(self).recent@ == history_after(
                    old(self).recent@,
                    now,
                    tolerance.window,
                )
                &&& held == (final(self).recent@.len() > tolerance.count)
                &&& final(self).reported == reported_after(
                    old(self).recent@,
                    old(self).reported,
                    now,
                    tolerance,
                )
            },
    {
        if delta_px >= tolerance.pixels {
            self.recent.clear();
            self.reported = false;
            return false;
        }
        while self.recent.len() > 0 && now.saturating_sub(self.recent[0]).nanos
            > tolerance.window.nanos
            invariant
                self.reported == old(self).reported,
                recent_of(self.recent@, now, tolerance.window) == recent_of(
                    old(self).recent@,
                    now,
                    tolerance.window,
                ),
            decreases self.recent.len(),
        {
            let ghost before = self.recent@;
            let _ = self.recent.pop_front();
            assert(self.recent@ =~= before.drop_first());
        }
        if self.recent.len() == 0 {
            self.reported = false;
        }
        self.recent.push_back(now);
        let held: bool = self.recent.len() > tolerance.count;
        if held {
            self.reported = true;
        }
        held
    }
}

/// The episodes of all windows.
#[derive(Debug)]
pub struct Episodes {
    recent: HashMap<WinID, Episode>,
}

impl Episodes {
    /// The small changes on record of a window.
    pub closed spec fn history(self, win: WinID) -> Seq<Duration> {
        if self.recent@.contains_key(win) {
            self.recent@[win].recent@
        } else {
            Seq::empty()
        }
    }

    /// Whether the running episode of a window has been reported.
    pub closed spec fn reported(self, win: WinID) -> bool {
        self.recent@.contains_key(win) && self.recent@[win].reported
    }

    pub fn new() -> (episodes: Episodes)
        ensures
            forall|win: WinID| episodes.history(win) == Seq::<Duration>::empty(),
            forall|win: WinID| !episodes.reported(win),
    {
        broadcast use vstd::std_specs::hash::group_hash_axioms;

        let episodes = Episodes { recent: HashMap::new() };
        assert(forall|win: WinID| episodes.history(win) =~= Seq::<Duration>::empty());
        episodes
    }

    /// Whether the running episode of a window has been reported.
    pub fn is_reported(&self, win: WinID) -> (reported: bool)
        ensures
            reported == self.reported(win),
    {
        broadcast use vstd::std_specs::hash::group_hash_axioms;

        match self.recent.get(&win) {
            Some(episode) => episode.reported,
            None => false,
        }
    }

    /// Records a change of `delta_px` pixels of `win` at `now`. Answers whether
    /// the window jitters, so that this change is to be held.
    pub fn damp(&mut self, win: WinID, now: Duration, delta_px: i32, tolerance: Tolerance) -> (held:
        bool)
        ensures
            forall|other: WinID|
                other != win ==> #[trigger] final(self).history(other) == old(self).history(other)
                    && final(self).reported(other) == old(self).reported(other),
            delta_px >= tolerance.pixels ==> !held && final(self).history(win) == Seq::<
                Duration,
            >::empty() && !final(self).reported(win),
            delta_px < tolerance.pixels ==> {
                &&& final(self).history(win) == history_after(
                    old(self).history(win),
                    now,
                    tolerance.window,
                )
                &&& held == (final(self).history(win).len() > tolerance.count)
                &&& final(self).reported(win) == reported_after(
                    old(self).history(win),
                    old(self).reported(win),
                    now,
                    tolerance,
                )
            },
    {
        broadcast use vstd::std_specs::hash::group_hash_axioms;

        let mut episode = match self.recent.remove(&win) {
            Some(episode) => episode,
            None => Episode::new(),
        };
        assert(episode.recent@ =~= old(self).history(win));
        let held = episode.damp(now, delta_px, tolerance);
        self.recent.insert(win, episode);
        assert forall|other: WinID| other != win implies #[trigger] self.history(other) == old(
            self,
        ).history(other) && self.reported(other) == old(self).reported(other) by {}
        held
    }
}

/// Entries that are all inside the window stay.
proof fn lemma_recent_keeps(history: Seq<Duration>, now: Duration, window: Duration)
    requires
        history.len() > 0 ==> now.minus(history[0]) <= window.nanos,
    ensures
        recent_of(history, now, window) == history,
{
}

/// When every entry is older than the window, none is left.
proof fn lemma_recent_drains(history: Seq<Duration>, now: Duration, window: Duration)
    requires
        forall|i: int| 0 <= i < history.len() ==> now.minus(#[trigger] history[i]) > window.nanos,
    ensures
        recent_of(history, now, window) == Seq::<Duration>::empty(),
    decreases history.len(),
{
    if history.len() > 0 {
        let rest = history.drop_first();
        assert forall|i: int| 0 <= i < rest.len() implies now.minus(#[trigger] rest[i])
            > window.nanos by {
            assert(rest[i] == history[i + 1]);
        }
        lemma_recent_drains(rest, now, window);
    } else {
        assert(history =~= Seq::<Duration>::empty());
    }
}

/// A small change that follows `count` others, all inside the window, is held.
pub proof fn chronic_jitter_is_held(
    history: Seq<Duration>,
    now: Duration,
    tolerance: Tolerance,
)
    requires
        history.len() >= tolerance.count,
        history.len() > 0 ==> now.minus(history[0]) <= tolerance.window.nanos,
    ensures
        history_after(history, now, tolerance.window).len() > tolerance.count,
{
    lemma_recent_keeps(history, now, tolerance.window);
}

/// Up to `count` small changes on record, this one included, go through.
pub proof fn few_changes_go_through(history: Seq<Duration>, now: Duration, tolerance: Tolerance)
    requires
        history.len() < tolerance.count,
    ensures
        history_after(history, now, tolerance.window).len() <= tolerance.count,
{
    lemma_recent_shrinks(history, now, tolerance.window);
}

/// Dropping old entries never adds any.
proof fn lemma_recent_shrinks(history: Seq<Duration>, now: Duration, window: Duration)
    ensures
        recent_of(history, now, window).len() <= history.len(),
    decreases history.len(),
{
    if history.len() > 0 && now.minus(history[0]) > window.nanos {
        lemma_recent_shrinks(history.drop_first(), now, window);
    }
}

/// After a quiet stretch longer than the window, the next small change is the
/// only one on record, so it goes through whenever any may, and a new episode may be
/// reported again.
pub proof fn quiet_stretch_starts_over(
    history: Seq<Duration>,
    reported: bool,
    now: Duration,
    tolerance: Tolerance,
)
    requires
        forall|i: int|
            0 <= i < history.len() ==> now.minus(#[trigger] history[i]) > tolerance.window.nanos,
    ensures
        history_after(history, now, tolerance.window) == seq![now],
        tolerance.count > 0 ==> !reported_after(history, reported, now, tolerance),
{
    lemma_recent_drains(history, now, tolerance.window);
    assert(Seq::<Duration>::empty().push(now) =~= seq![now]);
}

} // verus!
