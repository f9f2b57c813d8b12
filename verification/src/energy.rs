use vstd::prelude::*;
use vstd::relations::{sorted_by, total_ordering};
use vstd::seq_lib::lemma_sorted_unique;
use std::collections::VecDeque;

verus! {

/// Sum of the absolute sample values of a chunk.
pub open spec fn abs_sum(s: Seq<i16>) -> int
    decreases s.len(),
{
    if s.len() == 0 {
        0
    } else {
        abs_sum(s.drop_last()) + abs_i16(s.last())
    }
}

pub open spec fn abs_i16(x: i16) -> int {
    if x < 0 { -(x as int) } else { x as int }
}

/// Mean absolute amplitude of a chunk, in thousandths of an amplitude unit
/// (rounded down); an empty chunk has energy 0.
pub open spec fn chunk_energy(s: Seq<i16>) -> int {
    if s.len() == 0 { 0 } else { (1000 * abs_sum(s)) / (s.len() as int) }
}

/// The energy of a chunk is at most the largest amplitude, in thousandths.
pub proof fn lemma_energy_bound(s: Seq<i16>)
    ensures
        0 <= chunk_energy(s) <= 32_768_000,
{
    lemma_abs_sum_bound(s);
    if s.len() > 0 {
        let n = s.len() as int;
        let a = abs_sum(s);
        assert((1000 * a) / n <= 32_768_000) by (nonlinear_arith)
            requires 0 <= a <= 32768 * n, n > 0;
        assert((1000 * a) / n >= 0) by (nonlinear_arith)
            requires 0 <= a, n > 0;
    }
}

proof fn lemma_abs_sum_constant(n: nat, a: i16)
    ensures
        abs_sum(Seq::new(n, |i: int| a)) == n * abs_i16(a),
    decreases n,
{
    if n > 0 {
        let s = Seq::new(n, |i: int| a);
        assert(s.drop_last() =~= Seq::new((n - 1) as nat, |i: int| a));
        lemma_abs_sum_constant((n - 1) as nat, a);
        assert(s.last() == a);
        assert(abs_sum(s) == abs_sum(s.drop_last()) + abs_i16(a));
        assert(n * abs_i16(a) == ((n - 1) as nat) * abs_i16(a) + abs_i16(a)) by (nonlinear_arith)
            requires n > 0;
    } else {
        assert(n * abs_i16(a) == 0) by (nonlinear_arith)
            requires n == 0;
    }
}

/// A chunk of `n > 0` equal samples has the energy of one sample: its
/// absolute value, in thousandths.
pub proof fn lemma_energy_of_constant_chunk(n: nat, a: i16)
    requires
        n > 0,
    ensures
        chunk_energy(Seq::new(n, |i: int| a)) == 1000 * (if a < 0 { -(a as int) } else { a as int }),
{
    lemma_abs_sum_constant(n, a);
    let v = abs_i16(a);
    assert((1000 * (n * v)) / (n as int) == 1000 * v) by (nonlinear_arith)
        requires n > 0;
}

proof fn lemma_abs_sum_bound(s: Seq<i16>)
    ensures 0 <= abs_sum(s) <= 32768 * s.len(),
    decreases s.len(),
{
    if s.len() > 0 {
        lemma_abs_sum_bound(s.drop_last());
    }
}

/// Energy of a chunk of samples: the mean absolute amplitude in thousandths.
pub fn calculate_energy(chunk: &[i16]) -> (e: u32)
    ensures
        e == chunk_energy(chunk@),
        e <= 32_768_000,
{
    if chunk.len() == 0 {
        return 0;
    }
    let mut sum: u128 = 0;
    let mut i: usize = 0;
    while i < chunk.len()
        invariant
            i <= chunk@.len(),
            sum == abs_sum(chunk@.subrange(0, i as int)),
            sum <= 32768 * i,
        decreases chunk@.len() - i,
    {
        let x = chunk[i];
        let a: u128 = if x < 0 { (-(x as i32)) as u128 } else { x as u128 };
        proof {
            let t = chunk@.subrange(0, i + 1);
            assert(t.drop_last() =~= chunk@.subrange(0, i as int));
        }
        sum = sum + a;
        i = i + 1;
    }
    proof {
        assert(chunk@.subrange(0, chunk@.len() as int) =~= chunk@);
        lemma_abs_sum_bound(chunk@);
    }
    let n = chunk.len() as u128;
    let e = (1000 * sum) / n;
    assert(e <= 32_768_000) by (nonlinear_arith)
        requires e as int == (1000 * sum as int) / (n as int), sum <= 32768 * n, n > 0;
    e as u32
}


/// The order in which energies are ranked.
pub open spec fn energy_leq() -> spec_fn(u32, u32) -> bool {
    |a: u32, b: u32| a <= b
}

/// The energies of a history in ascending order.
pub open spec fn sorted_energies(s: Seq<u32>) -> Seq<u32> {
    s.sort_by(energy_leq())
}

/// Twice the median of a non-empty history (the sum of the two middle values
/// for an even length, twice the middle value for an odd length).
pub open spec fn twice_median(s: Seq<u32>) -> int {
    let t = sorted_energies(s);
    let mid = (s.len() / 2) as int;
    if s.len() % 2 == 0 {
        t[mid - 1] + t[mid]
    } else {
        2 * t[mid]
    }
}

/// The loudness a chunk must reach to count as speech: the median of the
/// history scaled by `multiplier` (in thousandths), but never below
/// `absolute_min`; with an empty history it is `absolute_min`.
pub open spec fn speech_threshold(history: Seq<u32>, multiplier: u32, absolute_min: u32) -> int {
    if history.len() == 0 {
        absolute_min as int
    } else {
        let dynamic = twice_median(history) * multiplier / 2000;
        if dynamic > absolute_min { dynamic } else { absolute_min as int }
    }
}

proof fn lemma_energy_leq_total()
    ensures total_ordering(energy_leq()),
{
}

/// Sorts energies in ascending order.
fn sort_energies(v: &Vec<u32>) -> (r: Vec<u32>)
    ensures r@ == sorted_energies(v@),
{
    let mut r: Vec<u32> = Vec::new();
    let mut i: usize = 0;
    assert(r@ =~= v@.subrange(0, 0));
    while i < v.len()
        invariant
            i <= v@.len(),
            r@.len() == i,
            sorted_by(r@, energy_leq()),
            r@.to_multiset() == v@.subrange(0, i as int).to_multiset(),
        decreases v@.len() - i,
    {
        let x = v[i];
        let mut j: usize = 0;
        while j < r.len() && r[j] <= x
            invariant
                j <= r@.len(),
                forall|k: int| 0 <= k < j ==> r@[k] <= x,
            decreases r@.len() - j,
        {
            j = j + 1;
        }
        let ghost old_r = r@;
        r.insert(j, x);
        proof {
            assert(r@ == old_r.insert(j as int, x));
            assert(v@.subrange(0, i + 1) =~= v@.subrange(0, i as int).push(x));
            vstd::seq_lib::to_multiset_insert(old_r, j as int, x);
            vstd::seq_lib::to_multiset_build(v@.subrange(0, i as int), x);
            assert(v@.subrange(0, i as int).push(x).to_multiset()
                == v@.subrange(0, i as int).to_multiset().insert(x));
            assert forall|a: int, b: int| 0 <= a < b < r@.len() implies #[trigger] energy_leq()(r@[a], r@[b]) by {
                if b < j {
                    assert(energy_leq()(old_r[a], old_r[b]));
                } else if b == j {
                } else if a < j {
                    assert(old_r[a] <= x);
                    if j < old_r.len() {
                        assert(energy_leq()(old_r[j as int], old_r[b - 1]));
                    }
                } else if a == j {
                    assert(energy_leq()(old_r[j as int], old_r[b - 1]));
                } else {
                    assert(energy_leq()(old_r[a - 1], old_r[b - 1]));
                }
            }
        }
        i = i + 1;
    }
    proof {
        assert(v@.subrange(0, v@.len() as int) =~= v@);
        lemma_energy_leq_total();
        v@.lemma_sort_by_ensures(energy_leq());
        lemma_sorted_unique(r@, sorted_energies(v@), energy_leq());
    }
    r
}


/// The speech threshold for the given energy history: the median energy times
/// `multiplier` (in thousandths), raised to `absolute_min` when lower.
pub fn determine_threshold(history: &VecDeque<u32>, multiplier: u32, absolute_min: u32) -> (t: u64)
    ensures
        t == speech_threshold(history@, multiplier, absolute_min),
{
    if history.len() == 0 {
        return absolute_min as u64;
    }
    let mut values: Vec<u32> = Vec::new();
    let mut i: usize = 0;
    while i < history.len()
        invariant
            i <= history@.len(),
            values@ == history@.subrange(0, i as int),
        decreases history@.len() - i,
    {
        values.push(history[i]);
        i = i + 1;
    }
    proof {
        assert(values@ =~= history@);
    }
    let sorted = sort_energies(&values);
    proof {
        lemma_energy_leq_total();
        history@.lemma_sort_by_ensures(energy_leq());
        vstd::seq_lib::to_multiset_len(history@);
        vstd::seq_lib::to_multiset_len(sorted@);
    }
    let mid = sorted.len() / 2;
    let twice: u64 = if sorted.len() % 2 == 0 {
        sorted[mid - 1] as u64 + sorted[mid] as u64
    } else {
        2 * (sorted[mid] as u64)
    };
    assert((twice as u128) * (multiplier as u128) <= 0x1_ffff_fffe * 0xffff_ffff) by (nonlinear_arith)
        requires twice <= 0x1_ffff_fffe, multiplier <= 0xffff_ffff;
    let dynamic: u128 = (twice as u128) * (multiplier as u128) / 2000;
    assert(dynamic <= 0xffff_ffff_ffff_ffffu128) by (nonlinear_arith)
        requires
            dynamic as int == (twice as int) * (multiplier as int) / 2000,
            twice <= 0x1_ffff_fffe,
            multiplier <= 0xffff_ffff;
    if dynamic > absolute_min as u128 {
        dynamic as u64
    } else {
        absolute_min as u64
    }
}


/// The threshold is never below the absolute minimum.
pub proof fn lemma_threshold_at_least_minimum(history: Seq<u32>, multiplier: u32, absolute_min: u32)
    ensures
        speech_threshold(history, multiplier, absolute_min) >= absolute_min,
{
}

/// Against a history of `n > 0` equal energies `v`, the threshold is `v`
/// scaled by the multiplier, or the absolute minimum when that is higher.
pub proof fn lemma_threshold_uniform_history(v: u32, n: nat, multiplier: u32, absolute_min: u32)
    requires
        n > 0,
    ensures
        speech_threshold(Seq::new(n, |i: int| v), multiplier, absolute_min) == (if (v as int) * (multiplier as int) / 1000 > absolute_min {
            (v as int) * (multiplier as int) / 1000
        } else {
            absolute_min as int
        }),
{
    let h = Seq::new(n, |i: int| v);
    lemma_energy_leq_total();
    h.lemma_sort_by_ensures(energy_leq());
    assert(sorted_by(h, energy_leq()));
    lemma_sorted_unique(h, sorted_energies(h), energy_leq());
    assert(twice_median(h) == 2 * (v as int));
    assert(2 * (v as int) * (multiplier as int) / 2000 == (v as int) * (multiplier as int) / 1000) by (nonlinear_arith);
}

} // verus!
