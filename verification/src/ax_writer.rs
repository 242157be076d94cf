//! Asynchronous position writes: which write is the newest of each window, which
//! have landed, and how far whole frames have converged.
use crossbeam_channel::Sender;
use std::collections::HashMap;
use vstd::prelude::*;
use vstd::std_specs::hash::*;

pub mod flow;

use crate::channel::{offer, Offer};
use crate::geometry::{Origin, WinID};
use crate::maps::{keys_of, windows_of};
use crate::time::Duration;

verus! {

/// One position write of a window, by the handle of its element.
#[derive(Clone, Copy, Debug, PartialEq, Eq, Structural)]
pub struct AxWriteJob {
    pub win_id: WinID,
    pub element: u64,
    pub origin: Origin,
    pub h_pad: i32,
    pub v_pad: i32,
    /// The place of this write among those of its window.
    pub seq: u64,
    /// The frame that issued it.
    pub epoch: u64,
}

/// The completion of a write.
#[derive(Clone, Copy, Debug, PartialEq, Eq, Structural)]
pub struct AxWriteAck {
    pub win_id: WinID,
    pub seq: u64,
    pub epoch: u64,
    pub ok: bool,
}

/// Writes that may wait in the queue.
pub const AX_WRITER_QUEUE_CAP: usize = 1024;

/// The queue to the writer.
pub struct AxWriterQueue(pub Sender<AxWriteJob>);

/// Frames that are kept apart before they have landed.
pub const EPOCH_MEMBER_CAP: usize = 16;

/// Frames that the writer may be behind before it counts as stuck.
pub const STUCK_WRITER_EPOCHS: u64 = 30;

/// What was issued and what has landed, by window and by frame.
#[derive(Debug)]
pub struct AxWriteState {
    pub issued: HashMap<WinID, u64>,
    pub acked: HashMap<WinID, u64>,
    pub last_sent: HashMap<WinID, Origin>,
    /// The newest frame.
    pub current: u64,
    /// The windows written under each frame that has not landed.
    pub epoch_members: HashMap<u64, Vec<WinID>>,
    pub acked_epoch: HashMap<WinID, u64>,
    /// Every frame up to this one has landed.
    pub last_landed: u64,
    /// The gap that was last reported.
    pub last_warned_gap: u64,
}

/// A number of a window, zero for one that has none.
pub open spec fn number_of(map: Map<WinID, u64>, win: WinID) -> u64 {
    if map.contains_key(win) {
        map[win]
    } else {
        0
    }
}

/// The least element of a set.
pub open spec fn is_least(s: Set<u64>, e: u64) -> bool {
    s.contains(e) && forall|other: u64| s.contains(other) ==> e <= other
}

/// The set without its least elements, so that at most the cap is left.
pub open spec fn newest(s: Set<u64>) -> Set<u64>
    decreases s.len(),
{
    if s.finite() && s.len() > EPOCH_MEMBER_CAP && (exists|e: u64| is_least(s, e)) {
        newest(s.remove(choose|e: u64| is_least(s, e)))
    } else {
        s
    }
}

/// The larger of two numbers.
pub open spec fn larger(a: u64, b: u64) -> u64 {
    if b >= a {
        b
    } else {
        a
    }
}

fn lookup(map: &HashMap<WinID, u64>, win: WinID) -> (number: u64)
    ensures
        number == number_of(map@, win),
{
    broadcast use vstd::std_specs::hash::group_hash_axioms;

    match map.get(&win) {
        Some(number) => *number,
        None => 0,
    }
}

/// Puts a window on a list where it is not on it yet.
fn join(members: &mut Vec<WinID>, win: WinID)
    ensures
        final(members)@ == (if old(members)@.contains(win) {
            old(members)@
        } else {
            old(members)@.push(win)
        }),
        final(members)@.to_set() == old(members)@.to_set().insert(win),
{
    let ghost listed = members@;
    let mut i: usize = 0;
    while i < members.len()
        invariant
            i <= members.len(),
            members@ == listed,
            forall|j: int| 0 <= j < i ==> #[trigger] listed[j] != win,
        decreases members.len() - i,
    {
        if members[i] == win {
            assert(listed.contains(win));
            assert(listed.to_set().insert(win) =~= listed.to_set());
            return;
        }
        i = i + 1;
    }
    members.push(win);
    assert(members@.to_set() =~= listed.to_set().insert(win)) by {
        assert forall|w: WinID| members@.to_set().contains(w) == listed.to_set().insert(
            win,
        ).contains(w) by {
            if listed.contains(w) {
                let k = choose|k: int| 0 <= k < listed.len() && listed[k] == w;
                assert(members@[k] == w);
            }
            if w == win {
                assert(members@[listed.len() as int] == w);
            }
            if members@.contains(w) && w != win {
                let k = choose|k: int| 0 <= k < members@.len() && members@[k] == w;
                assert(listed[k] == w);
            }
        }
    }
}

impl Default for AxWriteState {
    fn default() -> (state: AxWriteState)
        ensures
            state.wf(),
            state.is_fresh(),
    {
        broadcast use vstd::std_specs::hash::group_hash_axioms;

        let state = AxWriteState {
            issued: HashMap::new(),
            acked: HashMap::new(),
            last_sent: HashMap::new(),
            current: 0,
            epoch_members: HashMap::new(),
            acked_epoch: HashMap::new(),
            last_landed: 0,
            last_warned_gap: 0,
        };
        assert(state.frames() =~= Set::<u64>::empty());
        state
    }
}

impl AxWriteState {
    /// Nothing was issued yet.
    pub open spec fn is_fresh(self) -> bool {
        &&& self.current == 0
        &&& self.last_landed == 0
        &&& self.last_warned_gap == 0
        &&& self.frames() == Set::<u64>::empty()
        &&& forall|win: WinID| self.issued_to(win) == 0
        &&& forall|win: WinID| self.acked_to(win) == 0
        &&& forall|win: WinID| self.acked_frame(win) == 0
        &&& forall|win: WinID| self.sent_to(win) is None
    }

    /// The newest write issued to a window.
    pub open spec fn issued_to(self, win: WinID) -> u64 {
        number_of(self.issued@, win)
    }

    /// The newest write of a window that has landed.
    pub open spec fn acked_to(self, win: WinID) -> u64 {
        number_of(self.acked@, win)
    }

    /// The newest frame that a window has landed a write of.
    pub open spec fn acked_frame(self, win: WinID) -> u64 {
        number_of(self.acked_epoch@, win)
    }

    /// The place that was last sent to a window.
    pub open spec fn sent_to(self, win: WinID) -> Option<Origin> {
        if self.last_sent@.contains_key(win) {
            Some(self.last_sent@[win])
        } else {
            None
        }
    }

    /// The frames whose windows are on record.
    pub open spec fn frames(self) -> Set<u64> {
        self.epoch_members@.dom()
    }

    /// The windows written under a frame.
    pub open spec fn members(self, epoch: u64) -> Set<WinID> {
        if self.epoch_members@.contains_key(epoch) {
            self.epoch_members@[epoch]@.to_set()
        } else {
            Set::empty()
        }
    }

    /// A frame has landed when every window written under it has landed a write
    /// of that frame or a newer one.
    pub open spec fn has_landed(self, epoch: u64) -> bool {
        forall|win: WinID| #[trigger]
            self.members(epoch).contains(win) ==> self.acked_frame(win) >= epoch
    }

    /// A write of the window is still on its way.
    pub open spec fn in_flight(self, win: WinID) -> bool {
        self.issued_to(win) > self.acked_to(win)
    }

    /// The landed frames never run ahead of the issued ones, and no more frames
    /// are on record than the cap.
    pub open spec fn wf(self) -> bool {
        &&& self.last_landed <= self.current
        &&& self.frames().finite()
        &&& self.frames().len() <= EPOCH_MEMBER_CAP
    }

    /// Nothing but the windows of frames and the frontier differs.
    pub open spec fn same_writes(self, other: AxWriteState) -> bool {
        &&& self.issued == other.issued
        &&& self.acked == other.acked
        &&& self.acked_epoch == other.acked_epoch
        &&& self.last_sent == other.last_sent
        &&& self.current == other.current
        &&& self.last_warned_gap == other.last_warned_gap
    }

    /// Opens a new frame.
    pub fn begin_frame(&mut self) -> (epoch: u64)
        requires
            old(self).wf(),
            old(self).current < u64::MAX,
        ensures
            epoch == old(self).current + 1,
            *final(self) == (AxWriteState { current: epoch, ..*old(self) }),
            final(self).wf(),
    {
        self.current = self.current + 1;
        self.current
    }

    /// The frame that is open.
    pub fn current_epoch(&self) -> (epoch: u64)
        ensures
            epoch == self.current,
    {
        self.current
    }

    /// Drops the oldest frames on record until no more than the cap are left.
    fn prune_members(&mut self)
        ensures
            final(self).same_writes(*old(self)),
            final(self).last_landed == old(self).last_landed,
            final(self).frames() == newest(old(self).frames()),
            final(self).frames().finite(),
            final(self).frames().len() <= EPOCH_MEMBER_CAP,
            forall|epoch: u64| #[trigger]
                final(self).members(epoch) == (if final(self).frames().contains(epoch) {
                    old(self).members(epoch)
                } else {
                    Set::empty()
                }),
    {
        broadcast use vstd::std_specs::hash::group_hash_axioms;

        while self.epoch_members.len() > EPOCH_MEMBER_CAP
            invariant
                self.same_writes(*old(self)),
                self.last_landed == old(self).last_landed,
                newest(self.frames()) == newest(old(self).frames()),
                forall|epoch: u64| #[trigger]
                    self.members(epoch) == (if self.frames().contains(epoch) {
                        old(self).members(epoch)
                    } else {
                        Set::empty()
                    }),
            decreases self.epoch_members@.dom().len(),
        {
            broadcast use vstd::std_specs::hash::group_hash_axioms;

            let ghost before = *self;
            let keys = keys_of(&self.epoch_members);
            proof {
                assert(keys@.to_set() == self.frames());
                if keys@.len() == 0 {
                    assert(self.frames() =~= Set::<u64>::empty());
                }
            }
            let mut oldest: u64 = keys[0];
            let mut i: usize = 1;
            while i < keys.len()
                invariant
                    1 <= i <= keys.len(),
                    keys@.contains(oldest),
                    forall|j: int| 0 <= j < i ==> oldest <= #[trigger] keys@[j],
                decreases keys.len() - i,
            {
                if keys[i] < oldest {
                    oldest = keys[i];
                }
                i = i + 1;
            }
            proof {
                assert(is_least(self.frames(), oldest)) by {
                    assert(keys@.to_set().contains(oldest));
                    assert forall|other: u64| self.frames().contains(other) implies oldest
                        <= other by {
                        assert(keys@.to_set().contains(other));
                        let j = choose|j: int| 0 <= j < keys@.len() && keys@[j] == other;
                        assert(oldest <= keys@[j]);
                    }
                }
                let chosen = choose|e: u64| is_least(self.frames(), e);
                assert(is_least(self.frames(), chosen));
                assert(chosen == oldest);
            }
            self.epoch_members.remove(&oldest);
            assert(self.frames() =~= before.frames().remove(oldest));
            assert forall|epoch: u64| #[trigger]
                self.members(epoch) == (if self.frames().contains(epoch) {
                    old(self).members(epoch)
                } else {
                    Set::empty()
                }) by {
                assert(before.members(epoch) == before.members(epoch));
                if epoch != oldest {
                    assert(self.members(epoch) == before.members(epoch));
                }
            }
        }
    }

    /// This is the state `before` after one more write was issued to the window
    /// under a frame.
    pub open spec fn issued_from(self, before: AxWriteState, win: WinID, epoch: u64) -> bool {
        &&& self.issued_to(win) == before.issued_to(win) + 1
        &&& forall|other: WinID|
            other != win ==> #[trigger] self.issued_to(other) == before.issued_to(other)
        &&& self.acked == before.acked
        &&& self.acked_epoch == before.acked_epoch
        &&& self.last_sent == before.last_sent
        &&& self.current == before.current
        &&& self.last_landed == before.last_landed
        &&& self.last_warned_gap == before.last_warned_gap
        &&& self.frames() == newest(before.frames().insert(epoch))
        &&& forall|e: u64| #[trigger]
            self.members(e) == (if !self.frames().contains(e) {
                Set::empty()
            } else if e == epoch {
                before.members(e).insert(win)
            } else {
                before.members(e)
            })
    }

    /// This is the state `before` after a write of the window landed.
    pub open spec fn landed_from(
        self,
        before: AxWriteState,
        win: WinID,
        seq: u64,
        epoch: u64,
    ) -> bool {
        &&& self.acked_to(win) == larger(before.acked_to(win), seq)
        &&& self.acked_frame(win) == larger(before.acked_frame(win), epoch)
        &&& forall|other: WinID|
            other != win ==> #[trigger] self.acked_to(other) == before.acked_to(other)
                && self.acked_frame(other) == before.acked_frame(other)
        &&& self.issued == before.issued
        &&& self.last_sent == before.last_sent
        &&& self.current == before.current
        &&& self.last_warned_gap == before.last_warned_gap
        &&& before.last_landed <= self.last_landed <= before.current
        &&& forall|e: u64|
            before.last_landed < e <= self.last_landed ==> #[trigger] self.lands_with(before, e)
        &&& self.last_landed < before.current ==> !self.lands_with(
            before,
            (self.last_landed + 1) as u64,
        )
        &&& self.frames() == newest(
            before.frames().difference(span(before.last_landed, self.last_landed)),
        )
        &&& forall|e: u64| #[trigger]
            self.members(e) == (if self.frames().contains(e) {
                before.members(e)
            } else {
                Set::empty()
            })
    }

    /// This is the state `before` after a place was sent to the window.
    pub open spec fn sent_from(self, before: AxWriteState, win: WinID, target: Origin) -> bool {
        &&& self.sent_to(win) == Some(target)
        &&& forall|other: WinID|
            other != win ==> #[trigger] self.sent_to(other) == before.sent_to(other)
        &&& self == (AxWriteState { last_sent: self.last_sent, ..before })
    }

    /// Issues a write to a window under a frame; answers its place among the
    /// window's writes.
    pub fn issue(&mut self, win_id: WinID, epoch: u64) -> (seq: u64)
        requires
            old(self).wf(),
            old(self).issued_to(win_id) < u64::MAX,
        ensures
            final(self).wf(),
            seq == old(self).issued_to(win_id) + 1,
            final(self).issued_from(*old(self), win_id, epoch),
    {
        broadcast use vstd::std_specs::hash::group_hash_axioms;

        let seq: u64 = lookup(&self.issued, win_id) + 1;
        self.issued.insert(win_id, seq);
        let mut members = match self.epoch_members.remove(&epoch) {
            Some(members) => members,
            None => Vec::new(),
        };
        assert(members@.to_set() =~= old(self).members(epoch));
        join(&mut members, win_id);
        self.epoch_members.insert(epoch, members);
        let ghost mid = *self;
        assert(mid.frames() =~= old(self).frames().insert(epoch));
        assert forall|e: u64| #[trigger]
            mid.members(e) == (if e == epoch {
                old(self).members(e).insert(win_id)
            } else {
                old(self).members(e)
            }) by {}
        self.prune_members();
        assert forall|e: u64| #[trigger]
            self.members(e) == (if !self.frames().contains(e) {
                Set::empty()
            } else if e == epoch {
                old(self).members(e).insert(win_id)
            } else {
                old(self).members(e)
            }) by {
            assert(mid.members(e) == mid.members(e));
        }
        seq
    }

    /// Records that a write has landed, and moves the frontier of landed frames
    /// on.
    pub fn acknowledge(&mut self, win_id: WinID, seq: u64, epoch: u64)
        requires
            old(self).wf(),
        ensures
            final(self).wf(),
            final(self).landed_from(*old(self), win_id, seq, epoch),
    {
        broadcast use vstd::std_specs::hash::group_hash_axioms;

        if seq >= lookup(&self.acked, win_id) {
            self.acked.insert(win_id, seq);
        }
        if epoch >= lookup(&self.acked_epoch, win_id) {
            self.acked_epoch.insert(win_id, epoch);
        }
        let ghost mid = *self;
        assert forall|e: u64| mid.members(e) == #[trigger] old(self).members(e) by {}
        self.advance_landed();
        assert forall|e: u64| #[trigger] self.lands_with(*old(self), e) == mid.has_landed(e) by {
            assert(mid.members(e) == old(self).members(e));
        }
        assert forall|e: u64| #[trigger]
            self.members(e) == (if self.frames().contains(e) {
                old(self).members(e)
            } else {
                Set::empty()
            }) by {
            assert(mid.members(e) == old(self).members(e));
        }
    }

    /// With the landings on record here, the frame as it was before has landed.
    pub open spec fn lands_with(self, before: AxWriteState, epoch: u64) -> bool {
        forall|win: WinID| #[trigger]
            before.members(epoch).contains(win) ==> self.acked_frame(win) >= epoch
    }

    /// Whether a write of the window is still on its way.
    pub fn unacked(&self, win_id: WinID) -> (flying: bool)
        ensures
            flying == self.in_flight(win_id),
    {
        lookup(&self.issued, win_id) > lookup(&self.acked, win_id)
    }

    /// Whether a write of the window is still on its way and has not been waited for
    /// too long: one whose completion was lost delays others, and never blocks them.
    pub fn unacked_live(&self, win_id: WinID, waited: Duration, grace: Duration) -> (live: bool)
        ensures
            live == (self.in_flight(win_id) && waited.nanos < grace.nanos),
    {
        self.unacked(win_id) && waited.nanos < grace.nanos
    }

    /// Whether a frame has landed. One without writes always has.
    pub fn landed(&self, epoch: u64) -> (done: bool)
        ensures
            done == self.has_landed(epoch),
    {
        broadcast use vstd::std_specs::hash::group_hash_axioms;

        match self.epoch_members.get(&epoch) {
            Some(members) => {
                let mut i: usize = 0;
                while i < members.len()
                    invariant
                        i <= members.len(),
                        self.epoch_members@.contains_key(epoch),
                        self.epoch_members@[epoch] == *members,
                        forall|j: int|
                            0 <= j < i ==> self.acked_frame(#[trigger] members@[j]) >= epoch,
                    decreases members.len() - i,
                {
                    if lookup(&self.acked_epoch, members[i]) < epoch {
                        assert(members@.contains(members@[i as int]));
                        assert(self.members(epoch).contains(members@[i as int]));
                        return false;
                    }
                    i = i + 1;
                }
                assert forall|win: WinID| #[trigger]
                    self.members(epoch).contains(win) implies self.acked_frame(win) >= epoch by {
                    let j = choose|j: int| 0 <= j < members@.len() && members@[j] == win;
                    assert(self.acked_frame(members@[j]) >= epoch);
                }
                true
            },
            None => true,
        }
    }

    /// Moves the frontier past every frame that has landed, up to the newest
    /// frame, and takes those frames off the record.
    fn advance_landed(&mut self)
        requires
            old(self).wf(),
        ensures
            final(self).wf(),
            final(self).same_writes(*old(self)),
            old(self).last_landed <= final(self).last_landed,
            forall|e: u64|
                old(self).last_landed < e <= final(self).last_landed ==> old(self).has_landed(e),
            final(self).last_landed < final(self).current ==> !old(self).has_landed(
                (final(self).last_landed + 1) as u64,
            ),
            final(self).frames() == newest(
                old(self).frames().difference(
                    span(old(self).last_landed, final(self).last_landed),
                ),
            ),
            forall|epoch: u64| #[trigger]
                final(self).members(epoch) == (if final(self).frames().contains(epoch) {
                    old(self).members(epoch)
                } else {
                    Set::empty()
                }),
    {
        broadcast use vstd::std_specs::hash::group_hash_axioms;

        assert(self.frames() =~= old(self).frames().difference(
            span(old(self).last_landed, self.last_landed),
        ));
        assert forall|epoch: u64| #[trigger]
            self.members(epoch) == (if span(old(self).last_landed, self.last_landed).contains(
                epoch,
            ) {
                Set::empty()
            } else {
                old(self).members(epoch)
            }) by {}
        while self.last_landed < self.current && self.landed(self.last_landed + 1)
            invariant
                self.same_writes(*old(self)),
                old(self).last_landed <= self.last_landed <= self.current,
                self.frames() == old(self).frames().difference(
                    span(old(self).last_landed, self.last_landed),
                ),
                forall|e: u64|
                    old(self).last_landed < e <= self.last_landed ==> old(self).has_landed(e),
                forall|epoch: u64| #[trigger]
                    self.members(epoch) == (if span(
                        old(self).last_landed,
                        self.last_landed,
                    ).contains(epoch) {
                        Set::empty()
                    } else {
                        old(self).members(epoch)
                    }),
            decreases self.current - self.last_landed,
        {
            broadcast use vstd::std_specs::hash::group_hash_axioms;

            let ghost before = *self;
            let ghost next = (self.last_landed + 1) as u64;
            proof {
                assert(before.members(next) == old(self).members(next));
                assert(old(self).has_landed(next)) by {
                    assert(before.has_landed(next));
                    assert forall|win: WinID| #[trigger]
                        old(self).members(next).contains(win) implies old(self).acked_frame(win)
                        >= next by {
                        assert(before.members(next).contains(win));
                    }
                }
            }
            self.last_landed = self.last_landed + 1;
            let gone: u64 = self.last_landed;
            self.epoch_members.remove(&gone);
            assert(self.frames() =~= old(self).frames().difference(
                span(old(self).last_landed, self.last_landed),
            ));
            assert forall|epoch: u64| #[trigger]
                self.members(epoch) == (if span(old(self).last_landed, self.last_landed).contains(
                    epoch,
                ) {
                    Set::empty()
                } else {
                    old(self).members(epoch)
                }) by {
                assert(before.members(epoch) == before.members(epoch));
                if epoch != gone {
                    assert(self.members(epoch) == before.members(epoch));
                }
            }
        }
        let ghost mid = *self;
        proof {
            if mid.last_landed < mid.current {
                let next = (mid.last_landed + 1) as u64;
                assert(mid.members(next) == old(self).members(next));
                assert(!mid.has_landed(next));
                let win = choose|win: WinID| #[trigger]
                    mid.members(next).contains(win) && !(mid.acked_frame(win) >= next);
                assert(old(self).members(next).contains(win));
            }
        }
        self.prune_members();
        assert forall|epoch: u64| #[trigger]
            self.members(epoch) == (if self.frames().contains(epoch) {
                old(self).members(epoch)
            } else {
                Set::empty()
            }) by {
            lemma_newest(mid.frames());
            assert(mid.members(epoch) == mid.members(epoch));
        }
    }

    /// The newest frame up to which all frames have landed.
    pub fn last_landed(&self) -> (epoch: u64)
        ensures
            epoch == self.last_landed,
    {
        self.last_landed
    }

    /// How far the landed frames are behind.
    pub open spec fn gap(self) -> u64 {
        if self.current >= self.last_landed {
            (self.current - self.last_landed) as u64
        } else {
            0
        }
    }

    /// Reports how far the writer is behind, once it counts as stuck and each
    /// time it has fallen back further. Once it has caught up it may be reported
    /// anew.
    pub fn check_stall(&mut self) -> (report: Option<u64>)
        ensures
            report == (if old(self).gap() >= STUCK_WRITER_EPOCHS && old(self).gap() > old(self).last_warned_gap {
                Some(old(self).gap())
            } else {
                None
            }),
            *final(self) == (AxWriteState {
                last_warned_gap: if old(self).gap() < STUCK_WRITER_EPOCHS {
                    0
                } else {
                    larger(old(self).last_warned_gap, old(self).gap())
                },
                ..*old(self)
            }),
    {
        let gap: u64 = if self.current >= self.last_landed {
            self.current - self.last_landed
        } else {
            0
        };
        if gap < STUCK_WRITER_EPOCHS {
            self.last_warned_gap = 0;
            return None;
        }
        if gap > self.last_warned_gap {
            self.last_warned_gap = gap;
            Some(gap)
        } else {
            None
        }
    }

    /// Whether the place is what was last sent to the window.
    pub fn already_sent(&self, win_id: WinID, target: Origin) -> (sent: bool)
        ensures
            sent == (self.sent_to(win_id) == Some(target)),
    {
        broadcast use vstd::std_specs::hash::group_hash_axioms;

        match self.last_sent.get(&win_id) {
            Some(last) => *last == target,
            None => false,
        }
    }

    /// Records the place that was sent to the window.
    pub fn record_sent(&mut self, win_id: WinID, target: Origin)
        requires
            old(self).wf(),
        ensures
            final(self).wf(),
            final(self).sent_from(*old(self), win_id, target),
    {
        broadcast use vstd::std_specs::hash::group_hash_axioms;

        self.last_sent.insert(win_id, target);
    }

    /// This is the state `before` after the place that was sent to the window was
    /// forgotten.
    pub open spec fn reopened_from(self, before: AxWriteState, win: WinID) -> bool {
        &&& self.sent_to(win) is None
        &&& forall|other: WinID|
            other != win ==> #[trigger] self.sent_to(other) == before.sent_to(other)
        &&& self == (AxWriteState { last_sent: self.last_sent, ..before })
    }

    /// Forgets the place that was sent to the window, so that it can go out
    /// again: the window server never came to it.
    pub fn invalidate_sent(&mut self, win_id: WinID)
        requires
            old(self).wf(),
        ensures
            final(self).wf(),
            final(self).reopened_from(*old(self), win_id),
    {
        broadcast use vstd::std_specs::hash::group_hash_axioms;

        self.last_sent.remove(&win_id);
    }
}

/// The frames after `from`, up to `to`.
pub open spec fn span(from: u64, to: u64) -> Set<u64> {
    Set::new(|e: u64| from < e <= to)
}

/// Dropping the oldest frames leaves a part of the set.
proof fn lemma_newest(s: Set<u64>)
    ensures
        newest(s).subset_of(s),
    decreases s.len(),
{
    if s.finite() && s.len() > EPOCH_MEMBER_CAP && (exists|e: u64| is_least(s, e)) {
        lemma_newest(s.remove(choose|e: u64| is_least(s, e)));
    }
}

/// The landing of an older write leaves a newer one on its way: a late
/// completion never clears a newer truth.
pub proof fn late_landing_keeps_newer_write(issued: u64, acked: u64, seq: u64)
    requires
        acked < issued,
        seq < issued,
    ensures
        larger(acked, seq) < issued,
{
}

/// A newer landing counts for every older frame of its window: the window server
/// holds something fresher.
pub proof fn newer_landing_counts_for_older_frames(acked: u64, landed: u64, epoch: u64)
    requires
        epoch <= landed,
    ensures
        larger(acked, landed) >= epoch,
{
}

/// What a push needs to know of a window.
#[derive(Clone, Copy, Debug, PartialEq, Eq, Structural)]
pub struct PushTarget {
    pub win_id: WinID,
    /// The handle of the window's element.
    pub element: Option<u64>,
    /// The process is known and takes writes from another thread.
    pub servable: bool,
    pub h_pad: i32,
    pub v_pad: i32,
}

/// What became of a push.
#[derive(Clone, Copy, Debug, PartialEq, Eq, Structural)]
pub enum PushOutcome {
    /// The place is what was last sent: nothing to do.
    Deduped,
    /// The caller has to write the place itself.
    Direct,
    /// The writer has it.
    Sent { seq: u64 },
    /// The queue refused it; the next frame sends a newer one.
    Dropped { seq: u64 },
}

/// Records what became of a write that was offered to the queue. One that was
/// refused counts as landed at once, so that nobody waits for it.
pub fn record_offer(
    state: &mut AxWriteState,
    win_id: WinID,
    target: Origin,
    seq: u64,
    epoch: u64,
    sent: bool,
) -> (outcome: PushOutcome)
    requires
        old(state).wf(),
    ensures
        final(state).wf(),
        if sent {
            outcome == (PushOutcome::Sent { seq }) && final(state).sent_from(
                *old(state),
                win_id,
                target,
            )
        } else {
            outcome == (PushOutcome::Dropped { seq }) && final(state).landed_from(
                *old(state),
                win_id,
                seq,
                epoch,
            )
        },
{
    if sent {
        state.record_sent(win_id, target);
        PushOutcome::Sent { seq }
    } else {
        state.acknowledge(win_id, seq, epoch);
        PushOutcome::Dropped { seq }
    }
}

/// Whether a push goes through the queue.
pub open spec fn goes_async(enabled: bool, window: PushTarget, queue: bool) -> bool {
    enabled && window.element is Some && window.servable && queue
}

/// The write of a place that goes to the writer.
pub open spec fn job_of(window: PushTarget, target: Origin, seq: u64, epoch: u64) -> AxWriteJob {
    AxWriteJob {
        win_id: window.win_id,
        element: window.element->0,
        origin: target,
        h_pad: window.h_pad,
        v_pad: window.v_pad,
        seq,
        epoch,
    }
}

/// Where one position of a window goes.
#[derive(Clone, Copy, Debug, PartialEq, Eq, Structural)]
pub enum PushPlan {
    /// Nowhere: the place is what was last sent.
    Deduped,
    /// The caller writes it.
    Direct,
    /// The writer gets this job.
    Queue { job: AxWriteJob },
}

/// Decides where one position of a window goes, and issues the write where it is
/// for the writer.
pub fn plan_push(
    window: &PushTarget,
    target: Origin,
    queue: bool,
    state: &mut AxWriteState,
    enabled: bool,
    epoch: u64,
) -> (plan: PushPlan)
    requires
        old(state).wf(),
        old(state).issued_to(window.win_id) < u64::MAX,
    ensures
        final(state).wf(),
        ({
            let win = window.win_id;
            if old(state).sent_to(win) == Some(target) {
                plan == PushPlan::Deduped && *final(state) == *old(state)
            } else if !goes_async(enabled, *window, queue) {
                plan == PushPlan::Direct && final(state).sent_from(*old(state), win, target)
            } else {
                let seq = (old(state).issued_to(win) + 1) as u64;
                plan == (PushPlan::Queue { job: job_of(*window, target, seq, epoch) })
                    && final(state).issued_from(*old(state), win, epoch)
            }
        }),
{
    if state.already_sent(window.win_id, target) {
        return PushPlan::Deduped;
    }
    match window.element {
        Some(element) if enabled && window.servable && queue => {
            let seq = state.issue(window.win_id, epoch);
            PushPlan::Queue {
                job: AxWriteJob {
                    win_id: window.win_id,
                    element,
                    origin: target,
                    h_pad: window.h_pad,
                    v_pad: window.v_pad,
                    seq,
                    epoch,
                },
            }
        },
        _ => {
            state.record_sent(window.win_id, target);
            PushPlan::Direct
        },
    }
}

/// What a push to the writer leaves behind: the write is issued, and then sent, or
/// counted as landed where the queue refused it.
pub open spec fn pushed_from(
    after: AxWriteState,
    before: AxWriteState,
    issued: AxWriteState,
    win: WinID,
    target: Origin,
    epoch: u64,
    outcome: PushOutcome,
) -> bool {
    let seq = (before.issued_to(win) + 1) as u64;
    &&& issued.issued_from(before, win, epoch)
    &&& match outcome {
        PushOutcome::Sent { seq: number } => number == seq && after.sent_from(issued, win, target),
        PushOutcome::Dropped { seq: number } => number == seq && after.landed_from(
            issued,
            win,
            seq,
            epoch,
        ),
        _ => false,
    }
}

/// What a push of a place comes to, and what it leaves behind.
pub open spec fn push_step(
    after: AxWriteState,
    before: AxWriteState,
    window: PushTarget,
    target: Origin,
    asynchronous: bool,
    epoch: u64,
    outcome: PushOutcome,
) -> bool {
    if before.sent_to(window.win_id) == Some(target) {
        outcome == PushOutcome::Deduped && after == before
    } else if !asynchronous {
        outcome == PushOutcome::Direct && after.sent_from(before, window.win_id, target)
    } else {
        exists|issued: AxWriteState| #[trigger]
            pushed_from(after, before, issued, window.win_id, target, epoch, outcome)
    }
}

/// Routes one position of a window: nothing for the place that was last sent, a
/// job for the writer where the window can be served, and a write of the caller
/// otherwise. All pushes go this way, so that no direct write races the queue.
pub fn push_position(
    window: &PushTarget,
    target: Origin,
    queue: Option<&AxWriterQueue>,
    state: &mut AxWriteState,
    enabled: bool,
    epoch: u64,
) -> (outcome: PushOutcome)
    requires
        old(state).wf(),
        old(state).issued_to(window.win_id) < u64::MAX,
    ensures
        final(state).wf(),
        push_step(
            *final(state),
            *old(state),
            *window,
            target,
            goes_async(enabled, *window, queue is Some),
            epoch,
            outcome,
        ),
        final(state).current == old(state).current,
        final(state).issued_to(window.win_id) == old(state).issued_to(window.win_id) + (
        if outcome is Sent || outcome is Dropped {
            1int
        } else {
            0
        }),
        outcome is Dropped ==> !final(state).in_flight(window.win_id) && final(state).sent_to(
            window.win_id,
        ) == old(state).sent_to(window.win_id),
        outcome is Sent || outcome is Direct ==> final(state).sent_to(window.win_id) == Some(
            target,
        ),
        forall|other: WinID|
            other != window.win_id ==> #[trigger] final(state).sent_to(other) == old(state).sent_to(
                other,
            ),
        forall|other: WinID|
            other != window.win_id ==> #[trigger] final(state).acked_to(other) == old(
                state,
            ).acked_to(other),
        forall|other: WinID|
            other != window.win_id ==> #[trigger] final(state).issued_to(other) == old(
                state,
            ).issued_to(other),
{
    let job = match plan_push(window, target, queue.is_some(), state, enabled, epoch) {
        PushPlan::Deduped => {
            return PushOutcome::Deduped;
        },
        PushPlan::Direct => {
            return PushOutcome::Direct;
        },
        PushPlan::Queue { job } => job,
    };
    let queue = match queue {
        Some(queue) => queue,
        None => {
            return PushOutcome::Direct;
        },
    };
    let ghost issued = *state;
    let sent: bool = match offer(&queue.0, job) {
        Offer::Sent => true,
        Offer::Full(_) => false,
        Offer::Disconnected(_) => false,
    };
    let outcome = record_offer(state, window.win_id, target, job.seq, epoch, sent);
    assert(pushed_from(*state, *old(state), issued, window.win_id, target, epoch, outcome));
    assert forall|other: WinID| other != window.win_id implies #[trigger] state.sent_to(other)
        == old(state).sent_to(other) by {
        assert(issued.sent_to(other) == old(state).sent_to(other));
    }
    assert forall|other: WinID| other != window.win_id implies #[trigger] state.acked_to(other)
        == old(state).acked_to(other) by {
        assert(issued.acked_to(other) == old(state).acked_to(other));
    }
    assert forall|other: WinID| other != window.win_id implies #[trigger] state.issued_to(other)
        == old(state).issued_to(other) by {
        assert(issued.issued_to(other) == old(state).issued_to(other));
    }
    outcome
}

/// Takes a job into a batch: the newest of each window stays.
pub fn coalesce_jobs(jobs: &mut HashMap<WinID, AxWriteJob>, job: AxWriteJob)
    ensures
        final(jobs)@ == old(jobs)@.insert(job.win_id, job),
{
    broadcast use vstd::std_specs::hash::group_hash_axioms;

    jobs.insert(job.win_id, job);
}

/// The newest job of each window among the first `n`.
pub open spec fn latest_to(jobs: Seq<AxWriteJob>, n: int) -> Map<WinID, AxWriteJob>
    decreases n,
{
    if n <= 0 {
        Map::empty()
    } else {
        latest_to(jobs, n - 1).insert(jobs[n - 1].win_id, jobs[n - 1])
    }
}

/// Folds the jobs that were waiting into one batch, in the order of window
/// numbers, so that the windows of a frame are written in a stable order.
pub fn drain_batch(jobs: &Vec<AxWriteJob>) -> (batch: Vec<AxWriteJob>)
    ensures
        forall|i: int, j: int|
            0 <= i < j < batch@.len() ==> (#[trigger] batch@[i]).win_id < (#[trigger] batch@[j]).win_id,
        forall|i: int|
            0 <= i < batch@.len() ==> latest_to(jobs@, jobs@.len() as int).contains_pair(
                (#[trigger] batch@[i]).win_id,
                batch@[i],
            ),
        forall|win: WinID| #[trigger]
            latest_to(jobs@, jobs@.len() as int).contains_key(win) ==> exists|i: int|
                0 <= i < batch@.len() && (#[trigger] batch@[i]).win_id == win,
{
    broadcast use vstd::std_specs::hash::group_hash_axioms;

    let mut latest: HashMap<WinID, AxWriteJob> = HashMap::new();
    let mut i: usize = 0;
    assert(latest@ =~= latest_to(jobs@, 0));
    while i < jobs.len()
        invariant
            i <= jobs.len(),
            latest@ == latest_to(jobs@, i as int),
        decreases jobs.len() - i,
    {
        coalesce_jobs(&mut latest, jobs[i]);
        i = i + 1;
    }
    assert forall|win: WinID| #[trigger] latest@.contains_key(win) implies latest@[win].win_id
        == win by {
        latest_names_its_window(jobs@, jobs@.len() as int, win);
    }
    let keys = windows_of(&latest);
    let mut batch: Vec<AxWriteJob> = Vec::new();
    let mut k: usize = 0;
    while k < keys.len()
        invariant
            k <= keys.len(),
            keys@.to_set() == latest@.dom(),
            forall|i: int, j: int|
                0 <= i < j < batch@.len() ==> (#[trigger] batch@[i]).win_id < (
                #[trigger] batch@[j]).win_id,
            forall|i: int|
                0 <= i < batch@.len() ==> latest@.contains_pair(
                    (#[trigger] batch@[i]).win_id,
                    batch@[i],
                ),
            forall|j: int|
                0 <= j < k ==> exists|i: int|
                    0 <= i < batch@.len() && (#[trigger] batch@[i]).win_id == #[trigger] keys@[j],
            forall|win: WinID| #[trigger] latest@.contains_key(win) ==> latest@[win].win_id == win,
        decreases keys.len() - k,
    {
        broadcast use vstd::std_specs::hash::group_hash_axioms;

        let win = keys[k];
        assert(keys@.to_set().contains(win));
        assert(latest@.contains_key(win));
        let mut place: usize = 0;
        while place < batch.len() && batch[place].win_id < win
            invariant
                place <= batch.len(),
                forall|i: int| 0 <= i < place ==> (#[trigger] batch@[i]).win_id < win,
            decreases batch.len() - place,
        {
            place = place + 1;
        }
        let ghost before = batch@;
        if place == batch.len() || batch[place].win_id != win {
            let job = match latest.get(&win) {
                Some(job) => *job,
                None => {
                    return batch;
                },
            };
            batch.insert(place, job);
            assert(batch@[place as int].win_id == win);
        } else {
            assert(batch@[place as int].win_id == win);
        }
        assert forall|j: int| 0 <= j < k + 1 implies exists|i: int|
            0 <= i < batch@.len() && (#[trigger] batch@[i]).win_id == #[trigger] keys@[j] by {
            if j < k {
                let i = choose|i: int|
                    0 <= i < before.len() && (#[trigger] before[i]).win_id == keys@[j];
                if batch@.len() == before.len() || i < place {
                    assert(batch@[i] == before[i]);
                } else {
                    assert(batch@[i + 1] == before[i]);
                }
            }
        }
        k = k + 1;
    }
    assert forall|win: WinID| #[trigger]
        latest_to(jobs@, jobs@.len() as int).contains_key(win) implies exists|i: int|
        0 <= i < batch@.len() && (#[trigger] batch@[i]).win_id == win by {
        assert(keys@.to_set().contains(win));
        let j = choose|j: int| 0 <= j < keys@.len() && keys@[j] == win;
        assert(keys@[j] == win);
    }
    batch
}

/// The newest job of a window names that window.
pub proof fn latest_names_its_window(jobs: Seq<AxWriteJob>, n: int, win: WinID)
    requires
        0 <= n <= jobs.len(),
    ensures
        latest_to(jobs, n).contains_key(win) ==> latest_to(jobs, n)[win].win_id == win,
    decreases n,
{
    if n > 0 {
        latest_names_its_window(jobs, n - 1, win);
    }
}

} // verus!
