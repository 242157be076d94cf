//! When a read is answered, waited for, or asked again.
use vstd::prelude::*;

use crate::ax_reads::{AxReadService, Look, ReadPoll};
use crate::geometry::WinID;
use crate::time::Duration;

verus! {

/// A frame that is young enough answers at once, with no request; it is the one that was
/// read last. Without one, a request that is on its way is waited for, and only where
/// there is none a new one is made.
pub proof fn reads_are_asked_for_once(
    service: AxReadService,
    win: WinID,
    max_age: Duration,
    now: Duration,
)
    ensures
        ({
            let look = service.look(win, max_age, now);
            let cached = service.cache@.contains_key(win) && now.minus(service.cache@[win].at)
                <= max_age.nanos;
            &&& cached ==> look == Look::Told(ReadPoll::Ready(service.cache@[win].frame))
            &&& !cached && service.live_request(win, now) is None <==> look == Look::Ask
            &&& !cached && (service.live_request(win, now) matches Some(seq) && !service.answered(
                win,
                seq,
            )) ==> look == Look::Told(ReadPoll::Pending)
            &&& !service.inflight@.contains_key(win) ==> service.live_request(win, now) is None
        }),
{
}

/// An answer is told once: after it was taken, the same request counts as on its way
/// again. An answer to another window's request is never told.
pub proof fn answers_are_told_once(
    before: AxReadService,
    after: AxReadService,
    win: WinID,
    max_age: Duration,
    now: Duration,
    seq: u64,
)
    requires
        before.fresh_frame(win, max_age, now) is None,
        before.live_request(win, now) == Some(seq),
        after.completed@ == before.taken(win, max_age, now),
        after.cache == before.cache,
        after.inflight == before.inflight,
    ensures
        before.answered(win, seq) ==> (match before.completed@[seq].frame {
            Some(frame) => before.look(win, max_age, now) == Look::Told(ReadPoll::Ready(frame)),
            None => before.look(win, max_age, now) == Look::Told(ReadPoll::Unavailable),
        }),
        after.look(win, max_age, now) == Look::Told(ReadPoll::Pending),
        !before.answered(win, seq) ==> after.completed@ == before.completed@,
{
}

/// A request is given up after two seconds.
pub proof fn requests_grow_old(service: AxReadService, win: WinID, now: Duration)
    requires
        service.inflight@.contains_key(win),
        now.nanos > service.inflight@[win].asked.nanos + 2_000_000_000,
    ensures
        service.live_request(win, now) is None,
{
}

} // verus!
