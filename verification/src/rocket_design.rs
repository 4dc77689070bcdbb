//! The engine layout of a rocket design: per stage, which engine design it mounts and
//! how many engines.

use vstd::prelude::*;

verus! {

/// The engines of one rocket stage.
#[derive(Debug, Clone, Copy, PartialEq, Eq, Structural)]
pub struct RocketStage {
    /// Engine design lineage mounted on this stage.
    pub engine_design_id: usize,
    /// Number of engines on this stage.
    pub engine_count: u32,
}

/// The stages of a rocket design, bottom stage first.
#[derive(Debug, Clone)]
pub struct RocketDesign {
    pub stages: Vec<RocketStage>,
}

impl RocketDesign {
    /// Engines of design `id` over all stages, or `None` when the count does not fit a
    /// `u32`.
    pub fn checked_engines_for(&self, id: usize) -> (r: Option<u32>)
        ensures
            match r {
                Some(n) => n == engines_for(self.stages@, id),
                None => engines_for(self.stages@, id) > u32::MAX,
            },
    {
        let mut total: u32 = 0;
        let mut i: usize = 0;
        while i < self.stages.len()
            invariant
                i <= self.stages@.len(),
                total == engines_for(self.stages@.take(i as int), id),
            decreases self.stages@.len() - i,
        {
            proof {
                assert(self.stages@.take(i + 1).drop_last() =~= self.stages@.take(i as int));
            }
            if self.stages[i].engine_design_id == id {
                match total.checked_add(self.stages[i].engine_count) {
                    Some(t) => total = t,
                    None => {
                        proof {
                            lemma_engines_for_prefix(self.stages@, i + 1, id);
                        }
                        return None;
                    },
                }
            }
            i = i + 1;
        }
        proof {
            assert(self.stages@.take(i as int) =~= self.stages@);
        }
        Some(total)
    }

    /// Whether each engine design's count over all stages fits a `u32`.
    pub fn engine_counts_fit(&self) -> (b: bool)
        ensures
            b == engine_counts_fit(self.stages@),
    {
        let mut i: usize = 0;
        while i < self.stages.len()
            invariant
                i <= self.stages@.len(),
                forall|k: int|
                    0 <= k < i ==> engines_for(self.stages@, (#[trigger] self.stages@[k]).engine_design_id)
                        <= u32::MAX,
            decreases self.stages@.len() - i,
        {
            if self.checked_engines_for(self.stages[i].engine_design_id).is_none() {
                return false;
            }
            i = i + 1;
        }
        proof {
            assert forall|id: usize| #[trigger] engines_for(self.stages@, id) <= u32::MAX by {
                if uses_engine(self.stages@, id) {
                    let k = choose|k: int| 0 <= k < self.stages@.len() && (#[trigger] self.stages@[k]).engine_design_id == id;
                } else {
                    lemma_unused_engine_none(self.stages@, id);
                }
            }
        }
        true
    }

    /// Engines over all stages, or `None` when the count does not fit a `u32`.
    pub fn checked_total_engines(&self) -> (r: Option<u32>)
        ensures
            match r {
                Some(n) => n == total_engines(self.stages@),
                None => total_engines(self.stages@) > u32::MAX,
            },
    {
        let mut total: u32 = 0;
        let mut i: usize = 0;
        while i < self.stages.len()
            invariant
                i <= self.stages@.len(),
                total == total_engines(self.stages@.take(i as int)),
            decreases self.stages@.len() - i,
        {
            proof {
                assert(self.stages@.take(i + 1).drop_last() =~= self.stages@.take(i as int));
            }
            match total.checked_add(self.stages[i].engine_count) {
                Some(t) => total = t,
                None => {
                    proof {
                        lemma_total_engines_prefix(self.stages@, i + 1);
                    }
                    return None;
                },
            }
            i = i + 1;
        }
        proof {
            assert(self.stages@.take(i as int) =~= self.stages@);
        }
        Some(total)
    }
}

/// Engines over all stages.
pub open spec fn total_engines(stages: Seq<RocketStage>) -> nat
    decreases stages.len(),
{
    if stages.len() == 0 {
        0
    } else {
        total_engines(stages.drop_last()) + stages.last().engine_count as nat
    }
}

/// Engines of design `id` over all stages.
pub open spec fn engines_for(stages: Seq<RocketStage>, id: usize) -> nat
    decreases stages.len(),
{
    if stages.len() == 0 {
        0
    } else {
        engines_for(stages.drop_last(), id) + if stages.last().engine_design_id == id {
            stages.last().engine_count as nat
        } else {
            0
        }
    }
}

/// Each engine design's count over all stages fits a `u32`.
pub open spec fn engine_counts_fit(stages: Seq<RocketStage>) -> bool {
    forall|id: usize| #[trigger] engines_for(stages, id) <= u32::MAX
}

/// Whether some stage mounts engine design `id`.
pub open spec fn uses_engine(stages: Seq<RocketStage>, id: usize) -> bool {
    exists|i: int| 0 <= i < stages.len() && (#[trigger] stages[i]).engine_design_id == id
}

/// A design that no stage mounts counts no engines.
pub proof fn lemma_unused_engine_none(stages: Seq<RocketStage>, id: usize)
    requires
        !uses_engine(stages, id),
    ensures
        engines_for(stages, id) == 0,
    decreases stages.len(),
{
    if stages.len() > 0 {
        let init = stages.drop_last();
        assert(!uses_engine(init, id)) by {
            if uses_engine(init, id) {
                let k = choose|k: int| 0 <= k < init.len() && (#[trigger] init[k]).engine_design_id == id;
                assert(stages[k] == init[k]);
            }
        }
        lemma_unused_engine_none(init, id);
        assert(stages[stages.len() - 1] == stages.last());
    }
}

/// A prefix of the stages never holds more engines than all of them.
pub proof fn lemma_total_engines_prefix(stages: Seq<RocketStage>, n: int)
    requires
        0 <= n <= stages.len(),
    ensures
        total_engines(stages.take(n)) <= total_engines(stages),
    decreases stages.len() - n,
{
    if n < stages.len() {
        lemma_total_engines_prefix(stages, n + 1);
        assert(stages.take(n + 1).drop_last() =~= stages.take(n));
    } else {
        assert(stages.take(n) =~= stages);
    }
}

/// A prefix of the stages never holds more engines of a design than all of them.
pub proof fn lemma_engines_for_prefix(stages: Seq<RocketStage>, n: int, id: usize)
    requires
        0 <= n <= stages.len(),
    ensures
        engines_for(stages.take(n), id) <= engines_for(stages, id),
    decreases stages.len() - n,
{
    if n < stages.len() {
        lemma_engines_for_prefix(stages, n + 1, id);
        assert(stages.take(n + 1).drop_last() =~= stages.take(n));
    } else {
        assert(stages.take(n) =~= stages);
    }
}

/// When all engines together fit a `u32`, so does each design's share.
pub proof fn lemma_total_fit_gives_counts_fit(stages: Seq<RocketStage>)
    requires
        total_engines(stages) <= u32::MAX,
    ensures
        engine_counts_fit(stages),
{
    assert forall|id: usize| #[trigger] engines_for(stages, id) <= u32::MAX by {
        lemma_engines_for_le_total(stages, id);
    }
}

/// The engines of one design are a part of all engines.
pub proof fn lemma_engines_for_le_total(stages: Seq<RocketStage>, id: usize)
    ensures
        engines_for(stages, id) <= total_engines(stages),
    decreases stages.len(),
{
    if stages.len() > 0 {
        lemma_engines_for_le_total(stages.drop_last(), id);
    }
}

} // verus!
