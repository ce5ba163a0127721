//! The settle record of a single circle and the three moves it can make:
//! start fresh, go one frame without a collision, or be struck.

use vstd::prelude::*;

verus! {

/// How long one circle has gone untouched, and whether that counts as settled.
///
/// `clean_streak` counts the frames in a row in which no correction of at
/// least one pixel was applied to the circle. It stops counting once the
/// circle is stable, so it never passes the threshold that made it so.
#[derive(Clone, Copy, Debug, PartialEq, Eq, Structural)]
pub struct Stability {
    pub clean_streak: u32,
    pub is_stable: bool,
}

/// The streak at which a circle turns stable: the threshold itself, or one
/// frame where the threshold is zero, since a streak only grows by whole
/// clean frames.
pub open spec fn settle_point(threshold: u32) -> int {
    if threshold == 0 {
        1
    } else {
        threshold as int
    }
}

impl Stability {
    /// The state every circle starts in and returns to when struck.
    pub open spec fn spec_fresh() -> Stability {
        Stability { clean_streak: 0, is_stable: false }
    }

    /// The records that a run of frames can reach from a fresh one: the
    /// streak never passes the settle point, and the flag is set exactly
    /// when the streak has arrived there.
    pub open spec fn wf(self, threshold: u32) -> bool {
        &&& self.clean_streak <= settle_point(threshold)
        &&& self.is_stable <==> self.clean_streak == settle_point(threshold)
    }

    /// One frame without a collision: a stable circle stays as it is, any
    /// other counts the frame and turns stable once the count has reached
    /// the threshold.
    pub open spec fn spec_rested(self, threshold: u32) -> Stability {
        if self.is_stable {
            self
        } else {
            Stability {
                clean_streak: (self.clean_streak + 1) as u32,
                is_stable: self.clean_streak + 1 >= threshold,
            }
        }
    }

    /// One frame of the circle's life: struck, it starts over; untouched, it
    /// rests.
    pub open spec fn spec_after_frame(self, touched: bool, threshold: u32) -> Stability {
        if touched {
            Self::spec_fresh()
        } else {
            self.spec_rested(threshold)
        }
    }

    /// The record after a run of frames, the earliest first: `touches[f]`
    /// says whether the circle was touched in frame `f`.
    pub open spec fn after_frames(self, touches: Seq<bool>, threshold: u32) -> Stability
        decreases touches.len(),
    {
        if touches.len() == 0 {
            self
        } else {
            self.after_frames(touches.drop_last(), threshold).spec_after_frame(
                touches.last(),
                threshold,
            )
        }
    }

    /// The starting record.
    #[verifier::when_used_as_spec(spec_fresh)]
    pub fn fresh() -> (s: Stability)
        ensures
            s == Self::spec_fresh(),
    {
        Stability { clean_streak: 0, is_stable: false }
    }

    /// The record after a frame in which nothing struck the circle.
    #[verifier::when_used_as_spec(spec_rested)]
    pub fn rested(self, threshold: u32) -> (s: Stability)
        requires
            self.is_stable || self.clean_streak < u32::MAX,
        ensures
            s == self.spec_rested(threshold),
    {
        if self.is_stable {
            self
        } else {
            let streak: u32 = self.clean_streak + 1;
            Stability { clean_streak: streak, is_stable: streak >= threshold }
        }
    }

    /// The record after one frame, given whether a correction of at least
    /// one pixel touched the circle in it.
    #[verifier::when_used_as_spec(spec_after_frame)]
    pub fn after_frame(self, touched: bool, threshold: u32) -> (s: Stability)
        requires
            touched || self.is_stable || self.clean_streak < u32::MAX,
        ensures
            s == self.spec_after_frame(touched, threshold),
    {
        if touched {
            Stability::fresh()
        } else {
            self.rested(threshold)
        }
    }
}

/// A frame keeps a well-formed record well formed, and a well-formed record
/// that is not stable always has room to count one more frame.
pub proof fn lemma_after_frame_wf(c: Stability, touched: bool, threshold: u32)
    requires
        c.wf(threshold),
    ensures
        c.is_stable || c.clean_streak < u32::MAX,
        c.spec_after_frame(touched, threshold).wf(threshold),
{
}

} // verus!
