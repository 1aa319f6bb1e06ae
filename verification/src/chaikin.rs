//! Chaikin corner-cutting subdivision over flat `(x, y, pressure)` scalar
//! sequences.
//!
//! One round keeps the first and last sample unchanged and, for every
//! consecutive pair of samples, inserts two blended samples: one weighted
//! 3/4 toward the earlier sample and one weighted 3/4 toward the later one.
//! The blend of two scalars is the one step this module does not compute:
//! [`mix_jobs`] states exactly which pairs of scalars are to be blended and in
//! what order, the embedding layer blends them, and [`subdivide_once`] places
//! the results. Everything structural — which scalars feed each blend, where
//! each result goes, endpoint preservation, and the doubling of the sample
//! count per round — is proved here for every value the blends may take.
use vstd::prelude::*;

verus! {

/// One pending blend: the two source scalars and which of them carries the
/// 3/4 weight (`near_a` means the result lies a quarter of the way from `a`
/// to `b`).
#[derive(Clone, Copy, PartialEq, Eq, Structural, Debug)]
pub struct MixJob {
    pub a: u32,
    pub b: u32,
    pub near_a: bool,
}

/// Number of samples in a flat scalar sequence (three scalars per sample).
pub open spec fn sample_count(s: Seq<u32>) -> int {
    s.len() as int / 3
}

/// A sequence can be subdivided when it holds whole triplets and at least two
/// samples; below two samples a round is skipped (identity policy).
pub open spec fn can_subdivide_spec(s: Seq<u32>) -> bool {
    s.len() % 3 == 0 && 6 <= s.len()
}

/// Number of blends one round performs: six per segment — two new samples of
/// three scalars each for every consecutive pair of samples.
pub open spec fn job_count(s: Seq<u32>) -> int {
    6 * (sample_count(s) - 1)
}

/// The `k`-th blend of a round, in output order: for segment `k / 6`, the
/// first three jobs blend the segment's scalar pairs toward the earlier
/// sample, the next three toward the later one.
pub open spec fn job_at(s: Seq<u32>, k: int) -> MixJob {
    let seg = k / 6;
    let near = k % 6 < 3;
    let c = if near {
        k % 6
    } else {
        k % 6 - 3
    };
    MixJob { a: s[3 * seg + c], b: s[3 * seg + 3 + c], near_a: near }
}

/// The sequence one round produces, given the blended scalars in job order:
/// the first sample, then the blends, then the last sample.
pub open spec fn subdivided(s: Seq<u32>, mixed: Seq<u32>) -> Seq<u32> {
    s.take(3) + mixed + s.skip(s.len() - 3)
}

proof fn lemma_group_index(i: int, k: int)
    by (nonlinear_arith)
    requires
        0 <= i,
        6 * i <= k < 6 * i + 6,
    ensures
        k / 6 == i,
        k % 6 == k - 6 * i,
{
}

pub(crate) proof fn lemma_triple(len: int)
    by (nonlinear_arith)
    requires
        0 <= len,
        len % 3 == 0,
    ensures
        len == 3 * (len / 3),
{
}

/// Whether a round of subdivision applies to this sequence: at least two
/// samples. Below that, the working sequence is passed through unchanged.
pub fn can_subdivide(cur: &Vec<u32>) -> (r: bool)
    requires
        cur@.len() % 3 == 0,
    ensures
        r == can_subdivide_spec(cur@),
{
    cur.len() >= 6
}

/// The blends one round needs, in output order. Each job pairs a scalar of a
/// sample with the same scalar of the following sample, so an `(x, y,
/// pressure)` component is only ever blended with the same component of the
/// neighbouring sample — pressure in particular is blended only with the two
/// pressures of the segment it comes from.
pub fn mix_jobs(cur: &Vec<u32>) -> (jobs: Vec<MixJob>)
    requires
        cur@.len() % 3 == 0,
        6 <= cur@.len(),
    ensures
        jobs@.len() == job_count(cur@),
        forall|k: int| 0 <= k < jobs@.len() ==> jobs@[k] == job_at(cur@, k),
{
    proof {
        lemma_triple(cur@.len() as int);
    }
    let n: usize = cur.len() / 3;
    let mut jobs: Vec<MixJob> = Vec::new();
    let mut i: usize = 0;
    while i < n - 1
        invariant
            cur@.len() == 3 * n,
            3 * n <= usize::MAX,
            2 <= n,
            0 <= i <= n - 1,
            jobs@.len() == 6 * i,
            forall|k: int| 0 <= k < jobs@.len() ==> jobs@[k] == job_at(cur@, k),
        decreases n - 1 - i,
    {
        let base: usize = 3 * i;
        jobs.push(MixJob { a: cur[base], b: cur[base + 3], near_a: true });
        jobs.push(MixJob { a: cur[base + 1], b: cur[base + 4], near_a: true });
        jobs.push(MixJob { a: cur[base + 2], b: cur[base + 5], near_a: true });
        jobs.push(MixJob { a: cur[base], b: cur[base + 3], near_a: false });
        jobs.push(MixJob { a: cur[base + 1], b: cur[base + 4], near_a: false });
        jobs.push(MixJob { a: cur[base + 2], b: cur[base + 5], near_a: false });
        proof {
            assert forall|k: int| 6 * i <= k < 6 * i + 6 implies jobs@[k] == job_at(
                cur@,
                k,
            ) by {
                lemma_group_index(i as int, k);
            }
        }
        i = i + 1;
    }
    jobs
}

/// One round of corner cutting, with the blended scalars supplied in job
/// order: the result is the first sample, then the blends, then the last
/// sample, so the sequence exactly doubles.
pub fn subdivide_once(cur: &Vec<u32>, mixed: &Vec<u32>) -> (next: Vec<u32>)
    requires
        cur@.len() % 3 == 0,
        6 <= cur@.len(),
        mixed@.len() == job_count(cur@),
    ensures
        next@ == subdivided(cur@, mixed@),
        next@.len() == 2 * cur@.len(),
{
    proof {
        lemma_triple(cur@.len() as int);
    }
    let mut next: Vec<u32> = Vec::new();
    next.push(cur[0]);
    next.push(cur[1]);
    next.push(cur[2]);
    let mut j: usize = 0;
    while j < mixed.len()
        invariant
            0 <= j <= mixed@.len(),
            next@ == cur@.take(3) + mixed@.take(j as int),
        decreases mixed@.len() - j,
    {
        next.push(mixed[j]);
        proof {
            assert(mixed@.take(j + 1) =~= mixed@.take(j as int).push(mixed@[j as int]));
        }
        j = j + 1;
    }
    let last: usize = cur.len() - 3;
    next.push(cur[last]);
    next.push(cur[last + 1]);
    next.push(cur[last + 2]);
    proof {
        assert(next@ =~= subdivided(cur@, mixed@));
    }
    next
}

/// One round never moves, drops, or rewrites the two endpoints: the first and
/// last `(x, y, pressure)` triplet of the round's output are exactly the first
/// and last triplet of its input, whatever the blended scalars are.
pub proof fn lemma_round_preserves_endpoints(s: Seq<u32>, m: Seq<u32>)
    requires
        s.len() % 3 == 0,
        6 <= s.len(),
        m.len() == job_count(s),
    ensures
        subdivided(s, m).len() == 2 * s.len(),
        subdivided(s, m).take(3) == s.take(3),
        subdivided(s, m).skip(subdivided(s, m).len() - 3) == s.skip(s.len() - 3),
{
    lemma_triple(s.len() as int);
    assert(subdivided(s, m).take(3) =~= s.take(3));
    assert(subdivided(s, m).skip(subdivided(s, m).len() - 3) =~= s.skip(s.len() - 3));
}

/// Growth law for the fixed two-round smoothing: starting from `n >= 2`
/// samples, the output holds exactly `4 * n` samples, whatever the blended
/// scalars of either round are.
pub proof fn lemma_two_rounds_growth(s: Seq<u32>, m1: Seq<u32>, m2: Seq<u32>)
    requires
        s.len() % 3 == 0,
        6 <= s.len(),
        m1.len() == job_count(s),
        m2.len() == job_count(subdivided(s, m1)),
    ensures
        can_subdivide_spec(subdivided(s, m1)),
        subdivided(subdivided(s, m1), m2).len() == 4 * s.len(),
        sample_count(subdivided(subdivided(s, m1), m2)) == 4 * sample_count(s),
{
    lemma_triple(s.len() as int);
    let t = s.len() as int / 3;
    assert((6 * t) % 3 == 0 && (6 * t) / 3 == 2 * t && (12 * t) / 3 == 4 * t)
        by (nonlinear_arith)
        requires
            0 <= t,
    ;
    lemma_triple(subdivided(s, m1).len() as int);
}

/// Endpoint preservation for the fixed two-round smoothing: the first and last
/// `(x, y, pressure)` triplet of the final output exactly equal the first and
/// last triplet of the original input, whatever the blended scalars are.
pub proof fn lemma_two_rounds_endpoints(s: Seq<u32>, m1: Seq<u32>, m2: Seq<u32>)
    requires
        s.len() % 3 == 0,
        6 <= s.len(),
        m1.len() == job_count(s),
        m2.len() == job_count(subdivided(s, m1)),
    ensures
        subdivided(subdivided(s, m1), m2).take(3) == s.take(3),
        subdivided(subdivided(s, m1), m2).skip(subdivided(subdivided(s, m1), m2).len() - 3)
            == s.skip(s.len() - 3),
{
    lemma_two_rounds_growth(s, m1, m2);
    lemma_round_preserves_endpoints(s, m1);
    lemma_round_preserves_endpoints(subdivided(s, m1), m2);
}

} // verus!
