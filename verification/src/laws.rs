//! What holds of the settle state over any number of frames.

use vstd::prelude::*;
use crate::frame::{
    after_frame, after_frames, all_wf, lemma_stable_count_all, lemma_stable_count_bound,
    stable_count, touched, touches_of,
};
use crate::stability::{lemma_after_frame_wf, settle_point, Stability};

verus! {

/// Frames neither add nor remove a circle, and never are more circles stable
/// than there are circles.
pub proof fn law_circle_count_is_kept(
    circles: Seq<Stability>,
    frames: Seq<Seq<(usize, usize)>>,
    threshold: u32,
)
    ensures
        after_frames(circles, frames, threshold).len() == circles.len(),
        stable_count(after_frames(circles, frames, threshold)) <= circles.len(),
    decreases frames.len(),
{
    if frames.len() > 0 {
        law_circle_count_is_kept(circles, frames.drop_last(), threshold);
    }
    lemma_stable_count_bound(after_frames(circles, frames, threshold));
}

/// Frames take well-formed records to well-formed records.
pub proof fn law_frames_keep_wf(
    circles: Seq<Stability>,
    frames: Seq<Seq<(usize, usize)>>,
    threshold: u32,
)
    requires
        all_wf(circles, threshold),
    ensures
        all_wf(after_frames(circles, frames, threshold), threshold),
    decreases frames.len(),
{
    if frames.len() > 0 {
        let before = after_frames(circles, frames.drop_last(), threshold);
        law_frames_keep_wf(circles, frames.drop_last(), threshold);
        let after = after_frame(before, frames.last(), threshold);
        assert forall|i: int| 0 <= i < after.len() implies (#[trigger] after[i]).wf(threshold) by {
            lemma_after_frame_wf(before[i], touched(frames.last(), i), threshold);
        }
    }
}

/// However a run goes, a circle that is stable at its end has a streak of at
/// least the threshold.
pub proof fn law_stable_means_threshold_reached(
    circles: Seq<Stability>,
    frames: Seq<Seq<(usize, usize)>>,
    threshold: u32,
    i: int,
)
    requires
        all_wf(circles, threshold),
        0 <= i < circles.len(),
    ensures
        after_frames(circles, frames, threshold)[i].is_stable ==> after_frames(
            circles,
            frames,
            threshold,
        )[i].clean_streak >= threshold,
{
    law_frames_keep_wf(circles, frames, threshold);
    law_circle_count_is_kept(circles, frames, threshold);
    assert(after_frames(circles, frames, threshold)[i].wf(threshold));
}

/// Through a run of frames each circle goes its own way: its record at the
/// end depends on its record at the start and on the frames in which it was
/// touched, and on nothing else.
pub proof fn law_circles_settle_apart(
    circles: Seq<Stability>,
    frames: Seq<Seq<(usize, usize)>>,
    threshold: u32,
    i: int,
)
    requires
        0 <= i < circles.len(),
    ensures
        after_frames(circles, frames, threshold)[i] == circles[i].after_frames(
            touches_of(frames, i),
            threshold,
        ),
    decreases frames.len(),
{
    if frames.len() > 0 {
        law_circles_settle_apart(circles, frames.drop_last(), threshold, i);
        law_circle_count_is_kept(circles, frames.drop_last(), threshold);
        assert(touches_of(frames, i).drop_last() =~= touches_of(frames.drop_last(), i));
    } else {
        assert(touches_of(frames, i) =~= Seq::<bool>::empty());
    }
}

/// What a frame does depends on which circles its hits touch, not on the
/// order of the hits nor on how often a pair is named.
pub proof fn law_hit_order_is_immaterial(
    circles: Seq<Stability>,
    hits: Seq<(usize, usize)>,
    other: Seq<(usize, usize)>,
    threshold: u32,
)
    requires
        forall|i: int| 0 <= i < circles.len() ==> touched(hits, i) == touched(other, i),
    ensures
        after_frame(circles, hits, threshold) == after_frame(circles, other, threshold),
{
    assert(after_frame(circles, hits, threshold) =~= after_frame(circles, other, threshold));
}

/// A circle that is struck in a frame leaves it with a streak of zero and
/// not stable, whatever it was before.
pub proof fn law_struck_circle_starts_over(
    circles: Seq<Stability>,
    hits: Seq<(usize, usize)>,
    threshold: u32,
    i: int,
)
    requires
        0 <= i < circles.len(),
        touched(hits, i),
    ensures
        after_frame(circles, hits, threshold)[i].clean_streak == 0,
        !after_frame(circles, hits, threshold)[i].is_stable,
{
}

/// A circle that goes `quiet` frames in a row without being touched counts
/// each of them until its streak reaches the settle point; in the frame in
/// which it does, and not before, the circle turns stable; from then on it
/// stays as it is.
pub proof fn law_quiet_circle_settles(c: Stability, threshold: u32, quiet: nat)
    requires
        c.wf(threshold),
    ensures
        ({
            let end = c.after_frames(Seq::new(quiet, |f: int| false), threshold);
            if c.clean_streak + quiet < settle_point(threshold) {
                end == (Stability { clean_streak: (c.clean_streak + quiet) as u32, is_stable: false })
            } else {
                end == (Stability { clean_streak: settle_point(threshold) as u32, is_stable: true })
            }
        }),
    decreases quiet,
{
    let all_quiet = Seq::new(quiet, |f: int| false);
    if quiet > 0 {
        law_quiet_circle_settles(c, threshold, (quiet - 1) as nat);
        assert(all_quiet.drop_last() =~= Seq::new((quiet - 1) as nat, |f: int| false));
    }
}

/// In a run of frames none of which touches circle `i`, the circle is stable
/// at the end exactly if it was stable at the start or its streak has
/// reached the threshold on the way.
pub proof fn law_untouched_circle_settles(
    circles: Seq<Stability>,
    frames: Seq<Seq<(usize, usize)>>,
    threshold: u32,
    i: int,
)
    requires
        threshold >= 1,
        all_wf(circles, threshold),
        0 <= i < circles.len(),
        forall|f: int| 0 <= f < frames.len() ==> !touched(#[trigger] frames[f], i),
    ensures
        ({
            let start = circles[i];
            let end = after_frames(circles, frames, threshold)[i];
            &&& end.is_stable <==> start.clean_streak + frames.len() >= threshold
            &&& !end.is_stable ==> end.clean_streak == start.clean_streak + frames.len()
            &&& end.is_stable ==> end.clean_streak == threshold
        }),
{
    law_circles_settle_apart(circles, frames, threshold, i);
    assert(touches_of(frames, i) =~= Seq::new(frames.len(), |f: int| false));
    law_quiet_circle_settles(circles[i], threshold, frames.len());
}

/// A run without any hit that lasts as many frames as the threshold asks for
/// leaves every circle stable.
pub proof fn law_quiet_run_settles_all(
    circles: Seq<Stability>,
    frames: Seq<Seq<(usize, usize)>>,
    threshold: u32,
)
    requires
        threshold >= 1,
        all_wf(circles, threshold),
        frames.len() >= threshold,
        forall|f: int| 0 <= f < frames.len() ==> (#[trigger] frames[f]).len() == 0,
    ensures
        stable_count(after_frames(circles, frames, threshold)) == circles.len(),
{
    let end = after_frames(circles, frames, threshold);
    law_circle_count_is_kept(circles, frames, threshold);
    assert forall|i: int| 0 <= i < end.len() implies (#[trigger] end[i]).is_stable by {
        assert forall|f: int| 0 <= f < frames.len() implies !touched(#[trigger] frames[f], i) by {
            assert(frames[f].len() == 0);
        }
        law_untouched_circle_settles(circles, frames, threshold, i);
    }
    lemma_stable_count_all(end);
}

} // verus!
