//! Benchmark aggregation: totals of byte sizes, per-phase metrics, and the
//! winner decision between the two strategies.
use vstd::prelude::*;

verus! {

/// The two compression strategies under comparison.
#[derive(Debug, Clone, Copy, PartialEq, Eq, Structural)]
pub enum Strategy {
    PerUnit,
    Archive,
}

/// What one phase reports: its elapsed wall-clock time (measured by the
/// caller around the closed interval of the phase) and the byte size of its
/// output.
#[derive(Debug, Clone, Copy)]
pub struct PhaseMetrics {
    pub elapsed_ms: u64,
    pub byte_size: u64,
}

/// Mathematical sum of a sequence of sizes.
pub open spec fn sum_sizes(s: Seq<u64>) -> int
    decreases s.len(),
{
    if s.len() == 0 {
        0
    } else {
        sum_sizes(s.drop_last()) + s.last()
    }
}

proof fn lemma_sum_sizes_take_succ(s: Seq<u64>, i: int)
    requires
        0 <= i < s.len(),
    ensures
        sum_sizes(s.take(i + 1)) == sum_sizes(s.take(i)) + s[i],
{
    assert(s.take(i + 1).drop_last() =~= s.take(i));
    assert(s.take(i + 1).last() == s[i]);
}

proof fn lemma_sum_sizes_take_le(s: Seq<u64>, i: int)
    requires
        0 <= i <= s.len(),
    ensures
        sum_sizes(s.take(i)) <= sum_sizes(s),
    decreases s.len() - i,
{
    if i == s.len() {
        assert(s.take(i) =~= s);
    } else {
        lemma_sum_sizes_take_succ(s, i);
        lemma_sum_sizes_take_le(s, i + 1);
    }
}

/// Total of the given sizes; `None` exactly when the mathematical sum does
/// not fit in 64 bits.
pub fn total_size(sizes: &Vec<u64>) -> (r: Option<u64>)
    ensures
        r matches Some(t) ==> t == sum_sizes(sizes@),
        r is None <==> sum_sizes(sizes@) > u64::MAX,
{
    let mut total: u64 = 0;
    let mut i: usize = 0;
    proof {
        assert(sizes@.take(0) =~= Seq::<u64>::empty());
    }
    while i < sizes.len()
        invariant
            0 <= i <= sizes@.len(),
            total == sum_sizes(sizes@.take(i as int)),
        decreases sizes@.len() - i,
    {
        let s = sizes[i];
        proof {
            lemma_sum_sizes_take_succ(sizes@, i as int);
        }
        if total > u64::MAX - s {
            proof {
                lemma_sum_sizes_take_le(sizes@, i + 1);
            }
            return None;
        }
        total = total + s;
        i = i + 1;
    }
    proof {
        assert(sizes@.take(sizes@.len() as int) =~= sizes@);
    }
    Some(total)
}

/// The sizes, in order, of a sequence of byte blobs.
pub fn blob_sizes(blobs: &Vec<Vec<u8>>) -> (r: Vec<u64>)
    ensures
        r@.len() == blobs@.len(),
        forall|i: int| 0 <= i < blobs@.len() ==> #[trigger] r@[i] == blobs@[i]@.len(),
{
    let mut out: Vec<u64> = Vec::new();
    let mut i: usize = 0;
    while i < blobs.len()
        invariant
            0 <= i <= blobs@.len(),
            out@.len() == i,
            forall|j: int| 0 <= j < i ==> #[trigger] out@[j] == blobs@[j]@.len(),
        decreases blobs@.len() - i,
    {
        out.push(blobs[i].len() as u64);
        i = i + 1;
    }
    out
}

/// The winner decision: the archive strategy wins exactly when its size is
/// strictly smaller than the per-unit total; a tie resolves to the per-unit
/// strategy.
pub fn decide_winner(archive_size: u64, per_unit_total: u64) -> (r: Strategy)
    ensures
        r == Strategy::Archive <==> archive_size < per_unit_total,
        r == Strategy::PerUnit <==> per_unit_total <= archive_size,
{
    if archive_size < per_unit_total {
        Strategy::Archive
    } else {
        Strategy::PerUnit
    }
}

/// The byte delta between the strategies: the winner's size subtracted from
/// the loser's.
pub fn winner_savings(archive_size: u64, per_unit_total: u64) -> (r: u64)
    ensures
        archive_size < per_unit_total ==> r == per_unit_total - archive_size,
        archive_size >= per_unit_total ==> r == archive_size - per_unit_total,
{
    if archive_size < per_unit_total {
        per_unit_total - archive_size
    } else {
        archive_size - per_unit_total
    }
}

} // verus!
