//! Shared state store: per-benchmark proof and submission material, with the
//! one-time-consumable extraction step that feeds the submission request
//! builder.

use vstd::prelude::*;

verus! {

/// One-time-consumable submission metadata attached to a benchmark entry.
/// Extraction performs a checked `Available` to `Consumed` transition; a
/// second extraction attempt is an error.
#[derive(Clone, Debug, PartialEq, Eq)]
pub enum MetaSlot {
    Available(String),
    Consumed,
}

/// A benchmark entry: immutable settings plus the consumable metadata slot.
#[derive(Clone, Debug, PartialEq, Eq)]
pub struct Benchmark {
    pub settings: String,
    pub solutions_meta_data: MetaSlot,
}

/// The proof material computed for a benchmark: an ordered, non-empty
/// sequence of solution data entries. Submission always selects the first
/// entry.
#[derive(Clone, Debug, PartialEq, Eq)]
pub struct BenchmarkProof {
    pub solutions_data: Vec<String>,
}

/// Errors raised while extracting submission materials, all fatal and raised
/// before any network activity.
#[derive(Clone, Copy, Debug, PartialEq, Eq)]
pub enum TakeError {
    MissingBenchmark,
    MissingProof,
    AlreadyConsumed,
}

/// The store keyed by benchmark identifier: association vectors with unique
/// keys stand for the two maps.
#[derive(Clone, Debug, PartialEq, Eq)]
pub struct StateStore {
    pub benchmarks: Vec<(String, Benchmark)>,
    pub proofs: Vec<(String, BenchmarkProof)>,
}

/// First entry whose key reads `id`, if any.
pub open spec fn find_entry<T>(entries: Seq<(String, T)>, id: Seq<char>) -> Option<T>
    decreases entries.len(),
{
    if entries.len() == 0 {
        None
    } else if entries[0].0@ == id {
        Some(entries[0].1)
    } else {
        find_entry(entries.drop_first(), id)
    }
}

/// Pairwise-distinct keys, so each identifier denotes at most one entry.
pub open spec fn keys_unique<T>(entries: Seq<(String, T)>) -> bool {
    forall|i: int, j: int|
        0 <= i < j < entries.len() ==> entries[i].0@ != entries[j].0@
}

impl StateStore {
    /// Well-formedness: both maps have unique keys and every proof entry
    /// holds a non-empty solution sequence.
    pub open spec fn wf(self) -> bool {
        &&& keys_unique(self.benchmarks@)
        &&& keys_unique(self.proofs@)
        &&& forall|i: int|
            0 <= i < self.proofs@.len() ==> self.proofs@[i].1.solutions_data@.len() > 0
    }

    pub open spec fn benchmark_of(self, id: Seq<char>) -> Option<Benchmark> {
        find_entry(self.benchmarks@, id)
    }

    pub open spec fn proof_of(self, id: Seq<char>) -> Option<BenchmarkProof> {
        find_entry(self.proofs@, id)
    }

    /// The benchmark exists and its metadata is still available.
    pub open spec fn meta_available(self, id: Seq<char>) -> bool {
        match self.benchmark_of(id) {
            Some(b) => b.solutions_meta_data is Available,
            None => false,
        }
    }

    /// The benchmark exists and its metadata has been consumed.
    pub open spec fn meta_consumed(self, id: Seq<char>) -> bool {
        match self.benchmark_of(id) {
            Some(b) => b.solutions_meta_data is Consumed,
            None => false,
        }
    }
}

/// A key that occurs at some index is found, and with unique keys it is
/// found at exactly that index.
pub proof fn lemma_find_entry_at_index<T>(entries: Seq<(String, T)>, id: Seq<char>, i: int)
    requires
        keys_unique(entries),
        0 <= i < entries.len(),
        entries[i].0@ == id,
    ensures
        find_entry(entries, id) == Some(entries[i].1),
    decreases entries.len(),
{
    if i == 0 {
    } else {
        assert(entries[0].0@ != id);
        assert(entries.drop_first()[i - 1] == entries[i]);
        assert(keys_unique(entries.drop_first())) by {
            assert forall|p: int, q: int|
                0 <= p < q < entries.drop_first().len() implies entries.drop_first()[p].0@
                != entries.drop_first()[q].0@ by {
                assert(entries.drop_first()[p] == entries[p + 1]);
                assert(entries.drop_first()[q] == entries[q + 1]);
            }
        }
        lemma_find_entry_at_index(entries.drop_first(), id, i - 1);
    }
}

/// A key that occurs at no index is not found.
pub proof fn lemma_find_entry_absent<T>(entries: Seq<(String, T)>, id: Seq<char>)
    requires
        forall|i: int| 0 <= i < entries.len() ==> (#[trigger] entries[i]).0@ != id,
    ensures
        find_entry(entries, id) is None,
    decreases entries.len(),
{
    if entries.len() > 0 {
        assert(entries[0].0@ != id);
        assert(forall|i: int|
            0 <= i < entries.drop_first().len() ==> (#[trigger] entries.drop_first()[i]).0@
                != id) by {
            assert(forall|i: int|
                0 <= i < entries.drop_first().len() ==> entries.drop_first()[i]
                    == entries[i + 1]);
        }
        lemma_find_entry_absent(entries.drop_first(), id);
    }
}

/// A found entry occurs at some index.
pub proof fn lemma_find_entry_witness<T>(entries: Seq<(String, T)>, id: Seq<char>)
    requires
        find_entry(entries, id) is Some,
    ensures
        exists|i: int|
            0 <= i < entries.len() && (#[trigger] entries[i]).0@ == id
                && entries[i].1 == find_entry(entries, id)->Some_0,
    decreases entries.len(),
{
    if entries[0].0@ == id {
        assert(entries[0].0@ == id && entries[0].1 == find_entry(entries, id)->Some_0);
    } else {
        lemma_find_entry_witness(entries.drop_first(), id);
        let j = choose|j: int|
            0 <= j < entries.drop_first().len() && (#[trigger] entries.drop_first()[j]).0@
                == id && entries.drop_first()[j].1 == find_entry(entries.drop_first(), id)->Some_0;
        assert(entries.drop_first()[j] == entries[j + 1]);
        assert(entries[j + 1].0@ == id
            && entries[j + 1].1 == find_entry(entries, id)->Some_0);
    }
}

/// `post` is `pre` with the metadata slot of benchmark `id` marked consumed
/// and everything else unchanged.
pub open spec fn consumed_from(pre: StateStore, post: StateStore, id: Seq<char>) -> bool {
    &&& post.proofs@ == pre.proofs@
    &&& post.benchmarks@.len() == pre.benchmarks@.len()
    &&& forall|i: int|
        0 <= i < pre.benchmarks@.len() ==> {
            &&& (#[trigger] post.benchmarks@[i]).0@ == pre.benchmarks@[i].0@
            &&& post.benchmarks@[i].1.settings@ == pre.benchmarks@[i].1.settings@
            &&& (pre.benchmarks@[i].0@ == id ==> post.benchmarks@[i].1.solutions_meta_data
                is Consumed)
            &&& (pre.benchmarks@[i].0@ != id ==> post.benchmarks@[i].1
                == pre.benchmarks@[i].1)
        }
}

/// Law: submission materials are consumed exactly once. A successful
/// extraction for `id` (whose effect on the store is exactly
/// `consumed_from`, by `take_submission_materials`'s contract) leaves the
/// benchmark and proof entries in place with the metadata marked consumed —
/// so by that same contract a second extraction for `id`, without the slot
/// being repopulated, must return `Err(AlreadyConsumed)`.
pub proof fn lemma_metadata_consumed_once(pre: StateStore, post: StateStore, id: Seq<char>)
    requires
        pre.wf(),
        pre.meta_available(id),
        pre.proof_of(id) is Some,
        consumed_from(pre, post, id),
    ensures
        post.meta_consumed(id),
        post.proof_of(id) is Some,
{
    lemma_find_entry_witness(pre.benchmarks@, id);
    let i = choose|i: int|
        0 <= i < pre.benchmarks@.len() && (#[trigger] pre.benchmarks@[i]).0@ == id
            && pre.benchmarks@[i].1 == pre.benchmark_of(id)->Some_0;
    assert(post.benchmarks@[i].0@ == id);
    assert(post.benchmarks@[i].1.solutions_meta_data is Consumed);
    assert(keys_unique(post.benchmarks@)) by {
        assert forall|p: int, q: int|
            0 <= p < q < post.benchmarks@.len() implies (#[trigger] post.benchmarks@[p]).0@
            != (#[trigger] post.benchmarks@[q]).0@ by {
            assert(pre.benchmarks@[p].0@ != pre.benchmarks@[q].0@);
        }
    }
    lemma_find_entry_at_index(post.benchmarks@, id, i);
}

/// Index of the first entry whose key equals `id`, if any.
fn find_index<T>(entries: &Vec<(String, T)>, id: &String) -> (r: Option<usize>)
    ensures
        match r {
            Some(i) => i < entries@.len() && entries@[i as int].0@ == id@ && forall|j: int|
                0 <= j < i ==> (#[trigger] entries@[j]).0@ != id@,
            None => forall|j: int|
                0 <= j < entries@.len() ==> (#[trigger] entries@[j]).0@ != id@,
        },
{
    let mut i: usize = 0;
    while i < entries.len()
        invariant
            i <= entries@.len(),
            forall|j: int| 0 <= j < i ==> (#[trigger] entries@[j]).0@ != id@,
        decreases entries@.len() - i,
    {
        if entries[i].0.eq(id) {
            return Some(i);
        }
        i += 1;
    }
    None
}

/// True exactly when no two entries share a key.
fn keys_all_unique<T>(entries: &Vec<(String, T)>) -> (r: bool)
    ensures
        r == keys_unique(entries@),
{
    let mut i: usize = 0;
    while i < entries.len()
        invariant
            i <= entries@.len(),
            forall|p: int, q: int|
                0 <= p < q < entries@.len() && p < i ==> (#[trigger] entries@[p]).0@
                    != (#[trigger] entries@[q]).0@,
        decreases entries@.len() - i,
    {
        let mut j: usize = i + 1;
        while j < entries.len()
            invariant
                i < j <= entries@.len(),
                i < entries@.len(),
                forall|q: int| i < q < j ==> entries@[i as int].0@ != (#[trigger] entries@[q]).0@,
            decreases entries@.len() - j,
        {
            if entries[i].0.eq(&entries[j].0) {
                assert(!keys_unique(entries@)) by {
                    assert(entries@[i as int].0@ == entries@[j as int].0@);
                }
                return false;
            }
            j += 1;
        }
        i += 1;
    }
    true
}

impl StateStore {
    /// Runtime counterpart of `wf`, for unverified callers that must
    /// establish `take_submission_materials`'s precondition.
    pub fn is_well_formed(&self) -> (r: bool)
        ensures
            r == self.wf(),
    {
        if !keys_all_unique(&self.benchmarks) {
            return false;
        }
        if !keys_all_unique(&self.proofs) {
            return false;
        }
        let mut i: usize = 0;
        while i < self.proofs.len()
            invariant
                i <= self.proofs@.len(),
                forall|j: int|
                    0 <= j < i ==> (#[trigger] self.proofs@[j]).1.solutions_data@.len() > 0,
            decreases self.proofs@.len() - i,
        {
            if self.proofs[i].1.solutions_data.len() == 0 {
                return false;
            }
            i += 1;
        }
        true
    }

    /// Extract the submission materials for `benchmark_id`: the settings
    /// (copied), the one-time metadata (consumed: the slot transitions to
    /// `Consumed`), and the first proof solution entry (copied). Fails,
    /// without touching the store, when the benchmark is missing, the proof
    /// is missing, or the metadata was already taken.
    pub fn take_submission_materials(&mut self, benchmark_id: &String) -> (r: Result<
        (String, String, String),
        TakeError,
    >)
        requires
            old(self).wf(),
        ensures
            final(self).wf(),
            match r {
                Ok(m) => {
                    &&& old(self).meta_available(benchmark_id@)
                    &&& old(self).proof_of(benchmark_id@) is Some
                    &&& m.0@ == old(self).benchmark_of(benchmark_id@)->Some_0.settings@
                    &&& (old(self).benchmark_of(benchmark_id@)->Some_0.solutions_meta_data
                        matches MetaSlot::Available(d) && m.1@ == d@)
                    &&& m.2@ == old(self).proof_of(benchmark_id@)->Some_0.solutions_data@[0]@
                    &&& consumed_from(*old(self), *final(self), benchmark_id@)
                },
                Err(TakeError::MissingBenchmark) => {
                    &&& old(self).benchmark_of(benchmark_id@) is None
                    &&& *final(self) == *old(self)
                },
                Err(TakeError::MissingProof) => {
                    &&& old(self).benchmark_of(benchmark_id@) is Some
                    &&& old(self).proof_of(benchmark_id@) is None
                    &&& *final(self) == *old(self)
                },
                Err(TakeError::AlreadyConsumed) => {
                    &&& old(self).meta_consumed(benchmark_id@)
                    &&& old(self).proof_of(benchmark_id@) is Some
                    &&& *final(self) == *old(self)
                },
            },
    {
        let bench_idx: usize;
        match find_index(&self.benchmarks, benchmark_id) {
            Some(i) => {
                bench_idx = i;
            },
            None => {
                proof {
                    lemma_find_entry_absent(self.benchmarks@, benchmark_id@);
                }
                return Err(TakeError::MissingBenchmark);
            },
        }
        proof {
            lemma_find_entry_at_index(self.benchmarks@, benchmark_id@, bench_idx as int);
        }
        let proof_idx: usize;
        match find_index(&self.proofs, benchmark_id) {
            Some(i) => {
                proof_idx = i;
            },
            None => {
                proof {
                    lemma_find_entry_absent(self.proofs@, benchmark_id@);
                }
                return Err(TakeError::MissingProof);
            },
        }
        proof {
            lemma_find_entry_at_index(self.proofs@, benchmark_id@, proof_idx as int);
        }
        let meta: String;
        match &self.benchmarks[bench_idx].1.solutions_meta_data {
            MetaSlot::Available(d) => {
                meta = d.clone();
            },
            MetaSlot::Consumed => {
                return Err(TakeError::AlreadyConsumed);
            },
        }
        let settings = self.benchmarks[bench_idx].1.settings.clone();
        let solution = self.proofs[proof_idx].1.solutions_data[0].clone();
        let entry = &mut self.benchmarks[bench_idx];
        entry.1.solutions_meta_data = MetaSlot::Consumed;
        proof {
            assert forall|p: int, q: int|
                0 <= p < q < self.benchmarks@.len() implies (#[trigger] self.benchmarks@[p]).0@
                != (#[trigger] self.benchmarks@[q]).0@ by {
                assert(old(self).benchmarks@[p].0@ != old(self).benchmarks@[q].0@);
            }
            assert(consumed_from(*old(self), *self, benchmark_id@)) by {
                assert forall|i: int|
                    0 <= i < old(self).benchmarks@.len() && old(self).benchmarks@[i].0@
                        == benchmark_id@ implies i == bench_idx as int by {
                    if i != bench_idx as int {
                        assert(old(self).benchmarks@[i].0@ != old(
                            self,
                        ).benchmarks@[bench_idx as int].0@);
                    }
                }
            }
        }
        Ok((settings, meta, solution))
    }
}

} // verus!
