//! What the measures of the frames say.
use vstd::prelude::*;
use vstd::relations::sorted_by;

use crate::ecs::orchestrator::{
    arranged, frame_class, median_of, percentile_of, rank_place, shorter, FramePriority,
};
use crate::time::Duration;

verus! {

/// A frame that the user drives comes before everything else, then one that settles, then
/// one that only shows a message; a frame is idle only where nothing is under way.
pub proof fn urgent_frames_come_first(
    held: bool,
    user_driving: bool,
    warming: bool,
    motion: bool,
    flash: bool,
)
    ensures
        ({
            let class = frame_class(held, user_driving, warming, motion, flash);
            &&& class == FramePriority::UserDriven <==> held || user_driving || warming
            &&& class == FramePriority::Idle <==> !held && !user_driving && !warming && !motion
                && !flash
            &&& motion && !held && !user_driving && !warming <==> class == FramePriority::Settle
            &&& class == FramePriority::Background ==> flash && !motion
        }),
{
}

proof fn lemma_arranged(samples: Seq<Duration>)
    ensures
        arranged(samples).len() == samples.len(),
        sorted_by(arranged(samples), shorter()),
        arranged(samples).to_multiset() == samples.to_multiset(),
{
    let leq = shorter();
    assert(vstd::relations::total_ordering(leq));
    samples.lemma_sort_by_ensures(leq);
    let sorted = arranged(samples);
    sorted.to_multiset_ensures();
    samples.to_multiset_ensures();
    assert(sorted.to_multiset().len() == samples.to_multiset().len());
}

/// A percentile is one of the samples, and no larger percentile is smaller. The highest
/// one is the largest sample.
pub proof fn percentiles_are_ordered(samples: Seq<Duration>, low: int, high: int, k: int)
    requires
        0 <= k < samples.len(),
        0 <= low <= high <= 100,
    ensures
        ({
            let sorted = arranged(samples);
            &&& samples.contains(percentile_of(sorted, low))
            &&& percentile_of(sorted, low).nanos <= percentile_of(sorted, high).nanos
            &&& samples[k].nanos <= percentile_of(sorted, 100).nanos
            &&& percentile_of(sorted, 0).nanos <= samples[k].nanos
        }),
{
    let sorted = arranged(samples);
    let count = sorted.len() as int;
    lemma_arranged(samples);
    sorted.to_multiset_ensures();
    samples.to_multiset_ensures();
    lemma_rank(count, low);
    lemma_rank(count, high);
    assert(low * count <= high * count) by (nonlinear_arith)
        requires
            low <= high,
            0 <= count,
    ;
    let one = sorted[rank_place(count, low)];
    assert(sorted.contains(one));
    assert(samples.to_multiset().count(one) > 0);
    assert(samples.contains(one));
    assert(samples.contains(samples[k]));
    assert(sorted.to_multiset().count(samples[k]) > 0);
    assert(sorted.contains(samples[k]));
    let at = choose|i: int| 0 <= i < sorted.len() && sorted[i] == samples[k];
    let leq = shorter();
    if at < count - 1 {
        assert(leq(sorted[at], sorted[count - 1]));
    }
    if at > 0 {
        assert(leq(sorted[0], sorted[at]));
    }
    if rank_place(count, low) < rank_place(count, high) {
        assert(leq(sorted[rank_place(count, low)], sorted[rank_place(count, high)]));
    }
}

proof fn lemma_rank(count: int, percent: int)
    requires
        0 < count,
        0 <= percent <= 100,
    ensures
        0 <= rank_place(count, percent) < count,
        percent == 100 ==> rank_place(count, percent) == count - 1,
        percent == 0 ==> rank_place(count, percent) == 0,
{
    assert(percent * count <= 100 * count) by (nonlinear_arith)
        requires
            percent <= 100,
            0 <= count,
    ;
    assert(0 <= percent * count) by (nonlinear_arith)
        requires
            0 <= percent,
            0 <= count,
    ;
}

/// A median is one of the samples; it has no more than half of them below it in their
/// order.
pub proof fn medians_are_samples(samples: Seq<Duration>)
    requires
        samples.len() > 0,
    ensures
        samples.contains(median_of(samples)),
        median_of(samples) == arranged(samples)[samples.len() as int / 2],
{
    let sorted = arranged(samples);
    lemma_arranged(samples);
    sorted.to_multiset_ensures();
    samples.to_multiset_ensures();
    let middle = sorted[samples.len() as int / 2];
    assert(sorted.contains(middle));
    assert(samples.to_multiset().count(middle) > 0);
}

} // verus!
