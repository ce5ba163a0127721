//! The settle state of a whole run: one record per circle, kept as parallel
//! arrays, advanced once per frame.

use vstd::prelude::*;
use crate::config::{ConfigError, SimulationConfig};
use crate::frame::{
    after_frame, all_wf, hits_in_range, lemma_stable_count_bound, lemma_stable_count_none,
    lemma_touched_push, stable_count, touched,
};
use crate::stability::{lemma_after_frame_wf, Stability};

verus! {

/// The settle state of all circles of a run.
///
/// Slot `i` of each array belongs to circle `i`. The number of circles is
/// fixed when the state is made.
pub struct Game {
    /// Frames in a row without a collision, per circle.
    cleans: Vec<u32>,
    /// Whether the circle has gone `stable_threshold` frames without one.
    stables: Vec<bool>,
    /// Number of circles that are stable.
    n_stables: usize,
    /// Clean frames in a row after which a circle counts as stable.
    stable_threshold: u32,
}

impl View for Game {
    type V = Seq<Stability>;

    /// The record of each circle, by index.
    closed spec fn view(&self) -> Seq<Stability> {
        Seq::new(
            self.cleans@.len(),
            |i: int| Stability { clean_streak: self.cleans@[i], is_stable: self.stables@[i] },
        )
    }
}

impl Game {
    /// The arrays are aligned, every record is one that frames can reach,
    /// and the stored count is the number of stable circles.
    pub closed spec fn wf(&self) -> bool {
        &&& self.cleans@.len() == self.stables@.len()
        &&& all_wf(self@, self.stable_threshold)
        &&& self.n_stables == stable_count(self@)
    }

    /// Clean frames in a row after which a circle counts as stable.
    pub closed spec fn spec_stable_threshold(&self) -> u32 {
        self.stable_threshold
    }

    /// The number of stable circles, as counted by the latest frame.
    pub closed spec fn spec_n_stable(&self) -> usize {
        self.n_stables
    }

    /// What a well-formed state keeps true: every record is one that frames
    /// can reach, the stored count is the number of stable records, and it
    /// does not exceed the number of circles.
    pub proof fn lemma_wf(&self)
        requires
            self.wf(),
        ensures
            all_wf(self@, self.stable_threshold()),
            self.n_stable() == stable_count(self@),
            self.n_stable() <= self@.len(),
    {
        lemma_stable_count_bound(self@);
    }

    /// Makes the state of a run that is about to start: as many circles as
    /// the configuration asks for, none of them stable, every streak at
    /// zero. A configuration with a setting below its minimum is refused.
    pub fn new(config: &SimulationConfig) -> (r: Result<Game, ConfigError>)
        ensures
            (match r {
                Ok(game) => {
                    &&& config.valid()
                    &&& game.wf()
                    &&& game.stable_threshold() == config.stable_threshold
                    &&& game@ == Seq::new(
                        config.circle_count as nat,
                        |i: int| Stability::spec_fresh(),
                    )
                    &&& game.n_stable() == 0
                },
                Err(e) => config.violation() == Some(e),
            }),
    {
        match config.validate() {
            Err(e) => Err(e),
            Ok(()) => {
                let n: usize = config.circle_count;
                let cleans: Vec<u32> = vec![0; n];
                let stables: Vec<bool> = vec![false; n];
                let game = Game {
                    cleans,
                    stables,
                    n_stables: 0,
                    stable_threshold: config.stable_threshold,
                };
                proof {
                    assert(game@ =~= Seq::new(n as nat, |i: int| Stability::spec_fresh()));
                    lemma_stable_count_none(game@);
                }
                Ok(game)
            },
        }
    }

    /// Advances the state by one frame.
    ///
    /// `hits` lists the pairs of circles that were pushed apart by at least
    /// one pixel in this frame, in any order. Both circles of a hit start
    /// over: streak zero, not stable. Every other circle rests: unless it is
    /// stable already, its streak grows by one, and it turns stable when the
    /// streak has reached the threshold. A circle that was struck does not
    /// rest in the same frame, whichever came first. The number of stable
    /// circles is counted anew.
    pub fn step(&mut self, hits: &[(usize, usize)])
        requires
            old(self).wf(),
            hits_in_range(hits@, old(self)@.len()),
        ensures
            final(self).wf(),
            final(self).stable_threshold() == old(self).stable_threshold(),
            final(self)@ == after_frame(old(self)@, hits@, old(self).stable_threshold()),
            final(self)@.len() == old(self)@.len(),
            final(self).n_stable() == stable_count(final(self)@),
            final(self).n_stable() <= old(self)@.len(),
            forall|i: int|
                0 <= i < old(self)@.len() && touched(hits@, i) ==> final(self)@[i]
                    == Stability::spec_fresh(),
    {
        let n: usize = self.cleans.len();
        let threshold: u32 = self.stable_threshold;

        // Which circles a hit of this frame has touched.
        let mut struck: Vec<bool> = vec![false; n];
        let mut k: usize = 0;
        while k < hits.len()
            invariant
                k <= hits.len(),
                struck@.len() == n,
                hits_in_range(hits@, n as nat),
                forall|i: int| 0 <= i < n ==> struck@[i] == touched(hits@.take(k as int), i),
            decreases hits.len() - k,
        {
            let (first, second) = hits[k];
            proof {
                assert(hits@.take(k as int + 1) =~= hits@.take(k as int).push(hits@[k as int]));
                assert forall|i: int| 0 <= i < n implies touched(hits@.take(k as int + 1), i) == (
                touched(hits@.take(k as int), i) || first == i || second == i) by {
                    lemma_touched_push(hits@.take(k as int), hits@[k as int], i);
                }
            }
            struck[first] = true;
            struck[second] = true;
            k += 1;
        }
        assert(hits@.take(hits@.len() as int) =~= hits@);

        // Settle each circle and count the stable ones.
        let mut count: usize = 0;
        let mut i: usize = 0;
        while i < n
            invariant
                i <= n,
                n == old(self)@.len(),
                self.cleans@.len() == n,
                self.stables@.len() == n,
                struck@.len() == n,
                self.stable_threshold == threshold,
                threshold == old(self).stable_threshold,
                all_wf(old(self)@, threshold),
                forall|c: int| 0 <= c < n ==> struck@[c] == touched(hits@, c),
                forall|c: int|
                    0 <= c < i ==> (#[trigger] self@[c]) == old(self)@[c].spec_after_frame(
                        touched(hits@, c),
                        threshold,
                    ),
                forall|c: int| i <= c < n ==> (#[trigger] self@[c]) == old(self)@[c],
                count == stable_count(self@.take(i as int)),
                count <= i,
            decreases n - i,
        {
            let before = Stability { clean_streak: self.cleans[i], is_stable: self.stables[i] };
            proof {
                assert(before == self@[i as int]);
                assert(old(self)@[i as int].wf(threshold));
                lemma_after_frame_wf(before, struck@[i as int], threshold);
            }
            let after = before.after_frame(struck[i], threshold);
            let ghost prev = self@;
            self.cleans[i] = after.clean_streak;
            self.stables[i] = after.is_stable;
            proof {
                assert(self@ =~= prev.update(i as int, after));
                assert(self@.take(i as int + 1).drop_last() =~= prev.take(i as int));
                assert(self@.take(i as int + 1).last() == after);
            }
            if after.is_stable {
                count += 1;
            }
            i += 1;
        }
        self.n_stables = count;
        proof {
            assert(self@.take(n as int) =~= self@);
            assert(self@ =~= after_frame(old(self)@, hits@, threshold));
            assert forall|c: int| 0 <= c < self@.len() implies (#[trigger] self@[c]).wf(
                threshold,
            ) by {
                lemma_after_frame_wf(old(self)@[c], touched(hits@, c), threshold);
            }
        }
    }

    /// The number of circles. It is the same for the whole run.
    pub fn len(&self) -> (n: usize)
        ensures
            n == self@.len(),
    {
        self.cleans.len()
    }

    /// Clean frames in a row after which a circle counts as stable.
    #[verifier::when_used_as_spec(spec_stable_threshold)]
    pub fn stable_threshold(&self) -> (threshold: u32)
        ensures
            threshold == self.spec_stable_threshold(),
    {
        self.stable_threshold
    }

    /// The number of stable circles, as counted by the latest frame.
    #[verifier::when_used_as_spec(spec_n_stable)]
    pub fn n_stable(&self) -> (n: usize)
        requires
            self.wf(),
        ensures
            n == self.spec_n_stable(),
            n == stable_count(self@),
            n <= self@.len(),
    {
        proof {
            self.lemma_wf();
        }
        self.n_stables
    }

    /// Whether circle `i` is stable.
    pub fn is_stable(&self, i: usize) -> (stable: bool)
        requires
            self.wf(),
            i < self@.len(),
        ensures
            stable == self@[i as int].is_stable,
    {
        self.stables[i]
    }

    /// The frames in a row that circle `i` has gone without a collision.
    pub fn clean_streak(&self, i: usize) -> (streak: u32)
        requires
            self.wf(),
            i < self@.len(),
        ensures
            streak == self@[i as int].clean_streak,
    {
        self.cleans[i]
    }

    /// The record of circle `i`.
    pub fn stability(&self, i: usize) -> (record: Stability)
        requires
            self.wf(),
            i < self@.len(),
        ensures
            record == self@[i as int],
            record.wf(self.stable_threshold()),
    {
        proof {
            self.lemma_wf();
        }
        Stability { clean_streak: self.cleans[i], is_stable: self.stables[i] }
    }
}

} // verus!
