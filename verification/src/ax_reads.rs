//! Frames read off the main thread: a cache with an age, the requests on their
//! way, and what a caller is told.
use crossbeam_channel::Sender;
use std::collections::HashMap;
use vstd::prelude::*;
use vstd::std_specs::hash::*;

pub mod answers;

use crate::channel::{offer, Offer};
use crate::geometry::{IRect, WinID};
use crate::time::Duration;

verus! {

/// How long a request counts as on its way, in milliseconds.
pub const READ_REQUEST_TTL: u64 = 2000;

/// Requests that may wait in the queue.
pub const AX_READ_QUEUE_CAP: usize = 512;

/// Frames and answers that are kept; beyond this they are dropped together.
pub const AX_READ_MAP_CAP: usize = 1024;

/// A request for the frame of a window, by the handle of its element.
#[derive(Clone, Copy, Debug, PartialEq, Eq, Structural)]
pub struct ReadJob {
    pub win_id: WinID,
    pub element: u64,
    pub seq: u64,
}

/// What a caller is told.
#[derive(Clone, Copy, Debug, PartialEq, Eq, Structural)]
pub enum ReadPoll {
    /// The frame is here.
    Ready(IRect),
    /// The frame is on its way: ask again.
    Pending,
    /// The caller has to read the frame itself.
    Unavailable,
}

/// A frame and when it was read.
#[derive(Clone, Copy, Debug, PartialEq, Eq, Structural)]
pub struct CachedRead {
    pub frame: IRect,
    pub at: Duration,
}

/// A request on its way: its number, and when it was made.
#[derive(Clone, Copy, Debug, PartialEq, Eq, Structural)]
pub struct ReadRequest {
    pub seq: u64,
    pub asked: Duration,
}

/// The answer to a request: the window, and its frame if it could be read.
#[derive(Clone, Copy, Debug, PartialEq, Eq, Structural)]
pub struct Answer {
    pub win_id: WinID,
    pub frame: Option<IRect>,
}

/// The requests and answers of all windows.
#[derive(Debug)]
pub struct AxReadService {
    /// The number of the last request.
    pub seq: u64,
    pub inflight: HashMap<WinID, ReadRequest>,
    /// Answers by the number of their request.
    pub completed: HashMap<u64, Answer>,
    pub cache: HashMap<WinID, CachedRead>,
}

/// What a look at the records says, before any new request.
#[derive(Clone, Copy, Debug, PartialEq, Eq, Structural)]
pub enum Look {
    /// The answer is known.
    Told(ReadPoll),
    /// A new request has to be made.
    Ask,
}

impl Default for AxReadService {
    fn default() -> (service: AxReadService)
        ensures
            service.seq == 0,
            service.inflight@ == Map::<WinID, ReadRequest>::empty(),
            service.completed@ == Map::<u64, Answer>::empty(),
            service.cache@ == Map::<WinID, CachedRead>::empty(),
    {
        broadcast use vstd::std_specs::hash::group_hash_axioms;

        AxReadService {
            seq: 0,
            inflight: HashMap::new(),
            completed: HashMap::new(),
            cache: HashMap::new(),
        }
    }
}

impl AxReadService {
    /// The frame of a window that is no older than `max_age`.
    pub open spec fn fresh_frame(self, win: WinID, max_age: Duration, now: Duration) -> Option<IRect> {
        if self.cache@.contains_key(win) && now.minus(self.cache@[win].at) <= max_age.nanos {
            Some(self.cache@[win].frame)
        } else {
            None
        }
    }

    /// The request of a window that is still on its way.
    pub open spec fn live_request(self, win: WinID, now: Duration) -> Option<u64> {
        if self.inflight@.contains_key(win) && now.minus(self.inflight@[win].asked)
            <= 2_000_000_000 {
            Some(self.inflight@[win].seq)
        } else {
            None
        }
    }

    /// The answer to a request of a window has come.
    pub open spec fn answered(self, win: WinID, seq: u64) -> bool {
        self.completed@.contains_key(seq) && self.completed@[seq].win_id == win
    }

    /// What a look at the records says: a fresh frame; the answer to the request
    /// on its way, or that it is on its way; otherwise a new request is due.
    pub open spec fn look(self, win: WinID, max_age: Duration, now: Duration) -> Look {
        match self.fresh_frame(win, max_age, now) {
            Some(frame) => Look::Told(ReadPoll::Ready(frame)),
            None => match self.live_request(win, now) {
                Some(seq) => if self.answered(win, seq) {
                    match self.completed@[seq].frame {
                        Some(frame) => Look::Told(ReadPoll::Ready(frame)),
                        None => Look::Told(ReadPoll::Unavailable),
                    }
                } else {
                    Look::Told(ReadPoll::Pending)
                },
                None => Look::Ask,
            },
        }
    }

    /// The answer that a look takes off the record.
    pub open spec fn taken(self, win: WinID, max_age: Duration, now: Duration) -> Map<u64, Answer> {
        match (self.fresh_frame(win, max_age, now), self.live_request(win, now)) {
            (None, Some(seq)) => if self.answered(win, seq) {
                self.completed@.remove(seq)
            } else {
                self.completed@
            },
            _ => self.completed@,
        }
    }

    /// The frame of a window that is no older than `max_age`.
    pub fn cached(&self, win_id: WinID, max_age: Duration, now: Duration) -> (frame: Option<IRect>)
        ensures
            frame == self.fresh_frame(win_id, max_age, now),
    {
        broadcast use vstd::std_specs::hash::group_hash_axioms;

        match self.cache.get(&win_id) {
            Some(cached) => if now.saturating_sub(cached.at).nanos <= max_age.nanos {
                Some(cached.frame)
            } else {
                None
            },
            None => None,
        }
    }

    /// Looks at the records; an answer that is handed out is taken off them.
    pub fn look_up(&mut self, win_id: WinID, max_age: Duration, now: Duration) -> (look: Look)
        ensures
            look == old(self).look(win_id, max_age, now),
            final(self).completed@ == old(self).taken(win_id, max_age, now),
            final(self).seq == old(self).seq,
            final(self).inflight == old(self).inflight,
            final(self).cache == old(self).cache,
    {
        broadcast use vstd::std_specs::hash::group_hash_axioms;

        if let Some(frame) = self.cached(win_id, max_age, now) {
            return Look::Told(ReadPoll::Ready(frame));
        }
        let pending: Option<u64> = match self.inflight.get(&win_id) {
            Some(request) => if now.saturating_sub(request.asked).nanos <= Duration::from_millis(
                READ_REQUEST_TTL,
            ).nanos {
                Some(request.seq)
            } else {
                None
            },
            None => None,
        };
        let seq = match pending {
            Some(seq) => seq,
            None => {
                return Look::Ask;
            },
        };
        let answer = match self.completed.get(&seq) {
            Some(answer) => *answer,
            None => {
                return Look::Told(ReadPoll::Pending);
            },
        };
        if answer.win_id != win_id {
            return Look::Told(ReadPoll::Pending);
        }
        self.completed.remove(&seq);
        match answer.frame {
            Some(frame) => Look::Told(ReadPoll::Ready(frame)),
            None => Look::Told(ReadPoll::Unavailable),
        }
    }

    /// Numbers a new request of a window.
    pub fn next_request(&mut self, win_id: WinID, element: u64) -> (job: ReadJob)
        requires
            old(self).seq < u64::MAX,
        ensures
            job == (ReadJob { win_id, element, seq: (old(self).seq + 1) as u64 }),
            *final(self) == (AxReadService { seq: job.seq, ..*old(self) }),
    {
        self.seq = self.seq + 1;
        ReadJob { win_id, element, seq: self.seq }
    }

    /// Records what became of a new request.
    pub fn record_request(&mut self, win_id: WinID, seq: u64, now: Duration, accepted: bool) -> (poll:
        ReadPoll)
        ensures
            poll == (if accepted {
                ReadPoll::Pending
            } else {
                ReadPoll::Unavailable
            }),
            final(self).inflight@ == (if accepted {
                old(self).inflight@.insert(win_id, ReadRequest { seq, asked: now })
            } else {
                old(self).inflight@
            }),
            final(self).seq == old(self).seq,
            final(self).completed == old(self).completed,
            final(self).cache == old(self).cache,
    {
        broadcast use vstd::std_specs::hash::group_hash_axioms;

        if accepted {
            self.inflight.insert(win_id, ReadRequest { seq, asked: now });
            ReadPoll::Pending
        } else {
            ReadPoll::Unavailable
        }
    }

    /// Asks for the frame of a window; nothing ever waits. A fresh frame or an
    /// answer is handed out, a request on its way is waited for, and otherwise a
    /// new request goes to the workers. Without an element, or when the workers
    /// are busy, the caller reads the frame itself.
    pub fn poll_or_request(
        &mut self,
        win_id: WinID,
        element: Option<u64>,
        max_age: Duration,
        now: Duration,
        queue: &Sender<ReadJob>,
    ) -> (poll: ReadPoll)
        requires
            old(self).seq < u64::MAX,
        ensures
            final(self).cache == old(self).cache,
            final(self).completed@ == old(self).taken(win_id, max_age, now),
            match old(self).look(win_id, max_age, now) {
                Look::Told(told) => poll == told && final(self).inflight == old(self).inflight
                    && final(self).seq == old(self).seq,
                Look::Ask => match element {
                    None => poll == ReadPoll::Unavailable && final(self).inflight
                        == old(self).inflight && final(self).seq == old(self).seq,
                    Some(_) => {
                        &&& final(self).seq == old(self).seq + 1
                        &&& poll == ReadPoll::Pending || poll == ReadPoll::Unavailable
                        &&& final(self).inflight@ == (if poll == ReadPoll::Pending {
                            old(self).inflight@.insert(
                                win_id,
                                ReadRequest { seq: final(self).seq, asked: now },
                            )
                        } else {
                            old(self).inflight@
                        })
                    },
                },
            },
    {
        match self.look_up(win_id, max_age, now) {
            Look::Told(told) => told,
            Look::Ask => {
                let element = match element {
                    Some(element) => element,
                    None => {
                        return ReadPoll::Unavailable;
                    },
                };
                let job = self.next_request(win_id, element);
                let accepted: bool = match offer(queue, job) {
                    Offer::Sent => true,
                    Offer::Full(_) => false,
                    Offer::Disconnected(_) => false,
                };
                self.record_request(win_id, job.seq, now, accepted)
            },
        }
    }

    /// Records the answer of a worker. A record that has grown too large is
    /// dropped first.
    pub fn record_answer(&mut self, job: ReadJob, frame: Option<IRect>, now: Duration)
        ensures
            final(self).cache@ == ({
                let kept = if old(self).cache@.len() > AX_READ_MAP_CAP {
                    Map::empty()
                } else {
                    old(self).cache@
                };
                match frame {
                    Some(read) => kept.insert(job.win_id, CachedRead { frame: read, at: now }),
                    None => kept,
                }
            }),
            final(self).completed@ == ({
                let kept = if old(self).completed@.len() > AX_READ_MAP_CAP {
                    Map::empty()
                } else {
                    old(self).completed@
                };
                kept.insert(job.seq, Answer { win_id: job.win_id, frame })
            }),
            final(self).seq == old(self).seq,
            final(self).inflight == old(self).inflight,
    {
        broadcast use vstd::std_specs::hash::group_hash_axioms;

        if self.cache.len() > AX_READ_MAP_CAP {
            self.cache.clear();
        }
        if let Some(read) = frame {
            self.cache.insert(job.win_id, CachedRead { frame: read, at: now });
        }
        if self.completed.len() > AX_READ_MAP_CAP {
            self.completed.clear();
        }
        self.completed.insert(job.seq, Answer { win_id: job.win_id, frame });
    }
}

/// A frame older than the caller accepts is never handed out from the cache.
pub proof fn stale_frames_are_not_served(
    service: AxReadService,
    win: WinID,
    max_age: Duration,
    now: Duration,
)
    requires
        service.cache@.contains_key(win),
        now.minus(service.cache@[win].at) > max_age.nanos,
    ensures
        service.fresh_frame(win, max_age, now) is None,
{
}

/// What a worker read is what the next caller gets, as long as it is fresh
/// enough.
pub proof fn answers_reach_the_next_caller(
    service: AxReadService,
    win: WinID,
    frame: IRect,
    read_at: Duration,
    max_age: Duration,
    now: Duration,
)
    requires
        service.cache@.contains_pair(win, CachedRead { frame, at: read_at }),
        now.minus(read_at) <= max_age.nanos,
    ensures
        service.look(win, max_age, now) == Look::Told(ReadPoll::Ready(frame)),
{
}

} // verus!
