//! How writes go out, land, and are left out.
use vstd::prelude::*;

use crate::ax_writer::{
    goes_async, job_of, latest_to, push_step, pushed_from, AxWriteJob, AxWriteState, PushOutcome,
    PushTarget,
};
use crate::geometry::{Origin, WinID};

verus! {

/// A write is on its way from when it is issued until it, or a later one of its window,
/// lands. A late landing of an earlier one leaves it on its way, and the writes of other
/// windows are not touched by either.
pub proof fn writes_fly_until_they_land(
    before: AxWriteState,
    issued: AxWriteState,
    after: AxWriteState,
    win: WinID,
    seq: u64,
    epoch: u64,
    other: WinID,
)
    requires
        issued.issued_from(before, win, epoch),
        before.acked_to(win) <= before.issued_to(win),
        after.landed_from(issued, win, seq, epoch),
        seq <= issued.issued_to(win),
        other != win,
    ensures
        issued.in_flight(win),
        issued.in_flight(other) == before.in_flight(other),
        after.in_flight(win) <==> seq < issued.issued_to(win),
        after.in_flight(other) == issued.in_flight(other),
        after.acked_to(win) >= before.acked_to(win),
{
    assert(issued.issued_to(other) == before.issued_to(other));
    assert(after.acked_to(other) == issued.acked_to(other));
}

/// A landing never takes a frame back: the frames that have landed only grow, up to the
/// newest one, and each of them has the writes of all its windows.
pub proof fn landed_frames_stay_landed(
    before: AxWriteState,
    after: AxWriteState,
    win: WinID,
    seq: u64,
    epoch: u64,
    frame: u64,
    member: WinID,
)
    requires
        after.landed_from(before, win, seq, epoch),
    ensures
        before.last_landed <= after.last_landed <= before.current,
        before.last_landed < frame <= after.last_landed && before.members(frame).contains(member)
            ==> after.acked_frame(member) >= frame,
        after.last_landed < before.current ==> exists|late: WinID| #[trigger]
            before.members((after.last_landed + 1) as u64).contains(late) && after.acked_frame(late)
                < after.last_landed + 1,
        after.acked_frame(member) >= before.acked_frame(member),
{
    if before.last_landed < frame <= after.last_landed {
        assert(after.lands_with(before, frame));
    }
    if member != win {
        assert(after.acked_to(member) == before.acked_to(member));
    }
}

/// A place that went out is not sent again: the same push once more changes nothing. One
/// that the queue refused is tried again, and so is any place after the memory of it was
/// given up.
pub proof fn places_go_out_once(
    before: AxWriteState,
    after: AxWriteState,
    again: AxWriteState,
    window: PushTarget,
    target: Origin,
    asynchronous: bool,
    epoch: u64,
    first: PushOutcome,
    second: PushOutcome,
)
    requires
        push_step(after, before, window, target, asynchronous, epoch, first),
        push_step(again, after, window, target, asynchronous, epoch, second),
    ensures
        first is Sent || first is Direct || first is Deduped ==> second == PushOutcome::Deduped
            && again == after,
        first is Dropped ==> !(second is Deduped),
        first is Deduped <==> before.sent_to(window.win_id) == Some(target),
        first is Direct ==> !asynchronous,
        first is Sent || first is Dropped ==> asynchronous,
{
    if first is Dropped {
        let issued = choose|issued: AxWriteState| #[trigger]
            pushed_from(after, before, issued, window.win_id, target, epoch, first);
        assert(after.sent_to(window.win_id) == before.sent_to(window.win_id));
    }
}

/// After the memory of a place was given up, the next push of it goes out.
pub proof fn forgotten_places_go_out_again(
    before: AxWriteState,
    reopened: AxWriteState,
    after: AxWriteState,
    window: PushTarget,
    target: Origin,
    asynchronous: bool,
    epoch: u64,
    outcome: PushOutcome,
)
    requires
        reopened.reopened_from(before, window.win_id),
        push_step(after, reopened, window, target, asynchronous, epoch, outcome),
    ensures
        !(outcome is Deduped),
{
}

/// A push that is sent names its window, its place and the next number of that window,
/// under the frame that issued it.
pub proof fn jobs_say_what_to_write(window: PushTarget, target: Origin, seq: u64, epoch: u64)
    ensures
        ({
            let job = job_of(window, target, seq, epoch);
            &&& job.win_id == window.win_id
            &&& window.element == Some(job.element) || window.element is None
            &&& job.origin == target
            &&& job.h_pad == window.h_pad && job.v_pad == window.v_pad
            &&& job.seq == seq && job.epoch == epoch
        }),
        goes_async(true, PushTarget { element: Some(0), servable: true, ..window }, true),
        !goes_async(false, window, true),
        !goes_async(true, window, false),
        window.element is None || !window.servable ==> !goes_async(true, window, true),
{
}

/// Of the jobs of one window, the last one is written, and windows without a job get
/// none.
pub proof fn the_last_job_wins(jobs: Seq<AxWriteJob>, n: int, k: int, win: WinID)
    requires
        0 <= k < n <= jobs.len(),
        jobs[k].win_id == win,
        forall|j: int| k < j < n ==> (#[trigger] jobs[j]).win_id != win,
    ensures
        latest_to(jobs, n).contains_key(win),
        latest_to(jobs, n)[win] == jobs[k],
    decreases n,
{
    if k < n - 1 {
        assert(jobs[n - 1].win_id != win);
        the_last_job_wins(jobs, n - 1, k, win);
    }
}

/// A window without a job is not written.
pub proof fn windows_without_jobs_are_left_alone(jobs: Seq<AxWriteJob>, n: int, win: WinID)
    requires
        0 <= n <= jobs.len(),
        forall|j: int| 0 <= j < n ==> (#[trigger] jobs[j]).win_id != win,
    ensures
        !latest_to(jobs, n).contains_key(win),
    decreases n,
{
    if n > 0 {
        assert(jobs[n - 1].win_id != win);
        windows_without_jobs_are_left_alone(jobs, n - 1, win);
    }
}

} // verus!
