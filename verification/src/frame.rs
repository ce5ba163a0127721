//! What one frame does to the settle records of all circles, stated over
//! sequences.
//!
//! A frame is described by its hits: the pairs of circle indices that were
//! pushed apart by at least one pixel while overlaps were resolved.

use vstd::prelude::*;
use crate::stability::Stability;

verus! {

/// Whether circle `i` is one end of some hit of the frame.
pub open spec fn touched(hits: Seq<(usize, usize)>, i: int) -> bool {
    exists|k: int| 0 <= k < hits.len() && ((#[trigger] hits[k]).0 == i || hits[k].1 == i)
}

/// Every hit names two circles of a set of `n`.
pub open spec fn hits_in_range(hits: Seq<(usize, usize)>, n: nat) -> bool {
    forall|k: int| 0 <= k < hits.len() ==> (#[trigger] hits[k]).0 < n && hits[k].1 < n
}

/// The records after a frame: each circle that a hit touched starts over,
/// every other circle rests. The order of the hits plays no part.
pub open spec fn after_frame(
    circles: Seq<Stability>,
    hits: Seq<(usize, usize)>,
    threshold: u32,
) -> Seq<Stability> {
    Seq::new(
        circles.len(),
        |i: int| circles[i].spec_after_frame(touched(hits, i), threshold),
    )
}

/// The records after a run of frames, the earliest first, each given by its
/// hits.
pub open spec fn after_frames(
    circles: Seq<Stability>,
    frames: Seq<Seq<(usize, usize)>>,
    threshold: u32,
) -> Seq<Stability>
    decreases frames.len(),
{
    if frames.len() == 0 {
        circles
    } else {
        after_frame(after_frames(circles, frames.drop_last(), threshold), frames.last(), threshold)
    }
}

/// For each frame of a run, whether circle `i` was touched in it.
pub open spec fn touches_of(frames: Seq<Seq<(usize, usize)>>, i: int) -> Seq<bool> {
    Seq::new(frames.len(), |f: int| touched(frames[f], i))
}

/// The number of stable circles among the records.
pub open spec fn stable_count(circles: Seq<Stability>) -> nat
    decreases circles.len(),
{
    if circles.len() == 0 {
        0
    } else {
        stable_count(circles.drop_last()) + if circles.last().is_stable {
            1nat
        } else {
            0nat
        }
    }
}

/// All records are well formed under the threshold.
pub open spec fn all_wf(circles: Seq<Stability>, threshold: u32) -> bool {
    forall|i: int| 0 <= i < circles.len() ==> (#[trigger] circles[i]).wf(threshold)
}

/// No more circles are stable than there are circles.
pub proof fn lemma_stable_count_bound(circles: Seq<Stability>)
    ensures
        stable_count(circles) <= circles.len(),
    decreases circles.len(),
{
    if circles.len() > 0 {
        lemma_stable_count_bound(circles.drop_last());
    }
}

/// Where no circle is stable, the count is zero.
pub proof fn lemma_stable_count_none(circles: Seq<Stability>)
    requires
        forall|i: int| 0 <= i < circles.len() ==> !(#[trigger] circles[i]).is_stable,
    ensures
        stable_count(circles) == 0,
    decreases circles.len(),
{
    if circles.len() > 0 {
        lemma_stable_count_none(circles.drop_last());
    }
}

/// Where every circle is stable, the count is the number of circles.
pub proof fn lemma_stable_count_all(circles: Seq<Stability>)
    requires
        forall|i: int| 0 <= i < circles.len() ==> (#[trigger] circles[i]).is_stable,
    ensures
        stable_count(circles) == circles.len(),
    decreases circles.len(),
{
    if circles.len() > 0 {
        lemma_stable_count_all(circles.drop_last());
    }
}

/// A hit list grown by one pair touches what it touched before, and the two
/// ends of the new pair.
pub proof fn lemma_touched_push(hits: Seq<(usize, usize)>, hit: (usize, usize), i: int)
    ensures
        touched(hits.push(hit), i) == (touched(hits, i) || hit.0 == i || hit.1 == i),
{
    let grown = hits.push(hit);
    if touched(hits, i) {
        let k = choose|k: int|
            0 <= k < hits.len() && ((#[trigger] hits[k]).0 == i || hits[k].1 == i);
        assert(grown[k] == hits[k]);
    }
    if hit.0 == i || hit.1 == i {
        assert(grown[hits.len() as int] == hit);
    }
    if touched(grown, i) {
        let k = choose|k: int|
            0 <= k < grown.len() && ((#[trigger] grown[k]).0 == i || grown[k].1 == i);
        if k < hits.len() {
            assert(grown[k] == hits[k]);
        }
    }
}

} // verus!
