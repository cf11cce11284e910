use vstd::prelude::*;
use vstd::arithmetic::div_mod::lemma_div_is_ordered;
use vstd::relations::{sorted_by, total_ordering};
use vstd::seq_lib::lemma_sorted_unique;

use crate::session::CycleResult;

verus! {

broadcast use vstd::seq_lib::group_to_multiset_ensures;

/// Nanoseconds in one second.
pub const NANOS_PER_SEC: u64 = 1_000_000_000;

// ---------------------------------------------------------------------------
// The mathematical model
// ---------------------------------------------------------------------------

/// Bytes per second of a transfer of `bytes` that took `nanos` nanoseconds,
/// rounded down and held to the range of `u64`. A transfer that took less
/// than a nanosecond counts as taking one.
pub open spec fn throughput_of(bytes: int, nanos: int) -> int {
    let t = if nanos <= 0 { 1 } else { nanos };
    if bytes * (NANOS_PER_SEC as int) / t > u64::MAX as int {
        u64::MAX as int
    } else {
        bytes * (NANOS_PER_SEC as int) / t
    }
}

/// A transfer rate, kept exact: `bytes` moved in `nanos` nanoseconds.
#[derive(Debug, Clone, Copy, PartialEq, Eq, Structural)]
pub struct Rate {
    pub bytes: u64,
    pub nanos: u64,
}

impl Rate {
    /// The rate in bytes per second, rounded down.
    pub open spec fn per_sec(self) -> int {
        throughput_of(self.bytes as int, self.nanos as int)
    }
}

/// `a` is at most `b`, compared exactly (by cross-multiplying).
pub open spec fn rate_le(a: Rate, b: Rate) -> bool {
    (a.bytes as int) * (b.nanos as int) <= (b.bytes as int) * (a.nanos as int)
}

/// `a` is less than `b`, compared exactly.
pub open spec fn rate_lt(a: Rate, b: Rate) -> bool {
    (a.bytes as int) * (b.nanos as int) < (b.bytes as int) * (a.nanos as int)
}

/// The exact throughput of a cycle; a pass shorter than a nanosecond counts
/// as one nanosecond.
pub open spec fn cycle_rate(c: CycleResult) -> Rate {
    Rate { bytes: c.bytes as u64, nanos: if c.elapsed_nanos == 0 { 1 } else { c.elapsed_nanos } }
}

/// The throughput samples of a run, exact: one per cycle, in cycle order.
pub open spec fn cycle_rates(results: Seq<CycleResult>) -> Seq<Rate> {
    Seq::new(results.len(), |i: int| cycle_rate(results[i]))
}

/// Each rate in whole bytes per second, rounded down.
pub open spec fn rounded(rates: Seq<Rate>) -> Seq<int> {
    Seq::new(rates.len(), |i: int| rates[i].per_sec())
}

/// Every rate was taken over some time.
pub open spec fn timed(rates: Seq<Rate>) -> bool {
    forall|i: int| 0 <= i < rates.len() ==> (#[trigger] rates[i]).nanos >= 1
}

/// `r` is one of `rates` and at most each of them.
pub open spec fn is_least(r: Rate, rates: Seq<Rate>) -> bool {
    &&& rates.contains(r)
    &&& forall|i: int| 0 <= i < rates.len() ==> rate_le(r, #[trigger] rates[i])
}

/// `r` is one of `rates` and at least each of them.
pub open spec fn is_greatest(r: Rate, rates: Seq<Rate>) -> bool {
    &&& rates.contains(r)
    &&& forall|i: int| 0 <= i < rates.len() ==> rate_le(#[trigger] rates[i], r)
}

/// Some two of the rates differ.
pub open spec fn spread(rates: Seq<Rate>) -> bool {
    exists|i: int, j: int| 0 <= i < rates.len() && 0 <= j < rates.len() && rate_lt(
        #[trigger] rates[i],
        #[trigger] rates[j],
    )
}

/// A sequence of machine integers seen as mathematical integers.
pub open spec fn as_ints(s: Seq<u64>) -> Seq<int> {
    s.map_values(|x: u64| x as int)
}

pub open spec fn sum_of(s: Seq<int>) -> int
    decreases s.len(),
{
    if s.len() == 0 {
        0
    } else {
        sum_of(s.drop_last()) + s.last()
    }
}

/// Arithmetic mean, rounded down.
pub open spec fn mean_of(s: Seq<int>) -> int {
    if s.len() == 0 {
        0
    } else {
        sum_of(s) / (s.len() as int)
    }
}

/// Middle value of the sorted samples; for an even count, the mean of the two
/// middle values, rounded down.
pub open spec fn median_of(s: Seq<int>) -> int {
    let t = s.sort();
    let h = s.len() as int / 2;
    if s.len() == 0 {
        0
    } else if s.len() % 2 == 1 {
        t[h]
    } else {
        (t[h - 1] + t[h]) / 2
    }
}

/// Sum of the squared distances of the samples from `m`.
pub open spec fn sq_dev_sum(s: Seq<int>, m: int) -> int
    decreases s.len(),
{
    if s.len() == 0 {
        0
    } else {
        sq_dev_sum(s.drop_last(), m) + (s.last() - m) * (s.last() - m)
    }
}

/// Sample variance of `s` around its (rounded) mean, rounded up; the sum
/// of squared deviations is held to the range of `u128`. A single sample
/// has no variance.
pub open spec fn ceil_variance_of(s: Seq<int>) -> int {
    if s.len() <= 1 {
        0
    } else {
        let t = vstd::math::min(sq_dev_sum(s, mean_of(s)), u128::MAX as int);
        let d = s.len() - 1;
        t / d + if t % d == 0 { 0int } else { 1int }
    }
}

/// `sd` is the standard deviation of `rates`, in whole bytes per second:
/// zero where all rates are equal; otherwise the square root of the
/// rounded-up variance of the rounded samples, rounded down, and never less
/// than one.
pub open spec fn deviation_ok(sd: int, rates: Seq<Rate>) -> bool {
    let v = ceil_variance_of(rounded(rates));
    if !spread(rates) {
        sd == 0
    } else if v == 0 {
        sd == 1
    } else {
        is_floor_sqrt(sd, v)
    }
}

/// `r` is the square root of `v`, rounded down.
pub open spec fn is_floor_sqrt(r: int, v: int) -> bool {
    0 <= r && r * r <= v && v < (r + 1) * (r + 1)
}

// ---------------------------------------------------------------------------
// Laws
// ---------------------------------------------------------------------------

proof fn lemma_sum_bounds(s: Seq<int>, lo: int, hi: int)
    requires
        forall|i: int| 0 <= i < s.len() ==> lo <= #[trigger] s[i] <= hi,
    ensures
        s.len() * lo <= sum_of(s) <= s.len() * hi,
    decreases s.len(),
{
    if s.len() > 0 {
        let t = s.drop_last();
        assert forall|i: int| 0 <= i < t.len() implies lo <= #[trigger] t[i] <= hi by {
            assert(t[i] == s[i]);
        }
        lemma_sum_bounds(t, lo, hi);
        assert(s.len() * lo == t.len() * lo + lo) by (nonlinear_arith)
            requires s.len() == t.len() + 1;
        assert(s.len() * hi == t.len() * hi + hi) by (nonlinear_arith)
            requires s.len() == t.len() + 1;
    }
}

/// The mean of the samples lies between their least and their greatest value.
pub proof fn lemma_mean_between_min_and_max(s: Seq<int>)
    requires
        s.len() > 0,
    ensures
        s.min() <= mean_of(s) <= s.max(),
{
    s.min_ensures();
    s.max_ensures();
    let n = s.len() as int;
    lemma_sum_bounds(s, s.min(), s.max());
    assert(s.min() * n <= sum_of(s) <= s.max() * n) by (nonlinear_arith)
        requires n * s.min() <= sum_of(s) <= n * s.max();
    lemma_div_is_ordered(s.min() * n, sum_of(s), n);
    lemma_div_is_ordered(sum_of(s), s.max() * n, n);
    assert((s.min() * n) / n == s.min()) by (nonlinear_arith)
        requires n > 0;
    assert((s.max() * n) / n == s.max()) by (nonlinear_arith)
        requires n > 0;
}

/// The median of the samples lies between their least and their greatest value.
pub proof fn lemma_median_between_min_and_max(s: Seq<int>)
    requires
        s.len() > 0,
    ensures
        s.min() <= median_of(s) <= s.max(),
{
    s.min_ensures();
    s.max_ensures();
    s.lemma_sort_ensures();
    let t = s.sort();
    let h = s.len() as int / 2;
    assert(t.len() == s.len()) by {
        assert(t.to_multiset().len() == s.to_multiset().len());
    }
    assert forall|i: int| 0 <= i < t.len() implies s.min() <= #[trigger] t[i] <= s.max() by {
        assert(t.to_multiset().contains(t[i]));
        assert(s.contains(t[i]));
    }
    assert(s.min() <= t[h] <= s.max());
    if s.len() % 2 == 0 {
        assert(s.min() <= t[h - 1] <= s.max());
    }
}

// ---------------------------------------------------------------------------
// Executable reductions
// ---------------------------------------------------------------------------

/// Throughput of one transfer, as `throughput_of` states it.
pub fn throughput(bytes: u64, nanos: u64) -> (r: u64)
    ensures
        r == throughput_of(bytes as int, nanos as int),
{
    let t: u64 = if nanos == 0 { 1 } else { nanos };
    assert(bytes as int * (NANOS_PER_SEC as int) <= u128::MAX as int) by (nonlinear_arith)
        requires bytes as int <= u64::MAX as int;
    let scaled: u128 = bytes as u128 * NANOS_PER_SEC as u128;
    let rate: u128 = scaled / t as u128;
    if rate > u64::MAX as u128 {
        u64::MAX
    } else {
        rate as u64
    }
}

/// The exact throughput of each cycle, in order.
pub fn rates(results: &[CycleResult]) -> (r: Vec<Rate>)
    ensures
        r@ == cycle_rates(results@),
        timed(r@),
{
    let mut r: Vec<Rate> = Vec::new();
    let mut i: usize = 0;
    while i < results.len()
        invariant
            i <= results@.len(),
            r@ == cycle_rates(results@).take(i as int),
        decreases results@.len() - i,
    {
        let c = results[i];
        let nanos: u64 = if c.elapsed_nanos == 0 { 1 } else { c.elapsed_nanos };
        r.push(Rate { bytes: c.bytes as u64, nanos });
        i = i + 1;
        assert(r@ =~= cycle_rates(results@).take(i as int));
    }
    assert(cycle_rates(results@).take(i as int) =~= cycle_rates(results@));
    r
}

/// Each rate in whole bytes per second, rounded down.
pub fn per_sec_all(rates: &[Rate]) -> (r: Vec<u64>)
    ensures
        as_ints(r@) == rounded(rates@),
{
    let mut r: Vec<u64> = Vec::new();
    let mut i: usize = 0;
    while i < rates.len()
        invariant
            i <= rates@.len(),
            as_ints(r@) == rounded(rates@).take(i as int),
        decreases rates@.len() - i,
    {
        let t = throughput(rates[i].bytes, rates[i].nanos);
        let ghost before = r@;
        r.push(t);
        assert(as_ints(r@) =~= as_ints(before).push(t as int));
        i = i + 1;
        assert(as_ints(r@) =~= rounded(rates@).take(i as int));
    }
    assert(rounded(rates@).take(i as int) =~= rounded(rates@));
    r
}

/// Compares two rates exactly.
pub fn rate_at_most(a: Rate, b: Rate) -> (r: bool)
    ensures
        r == rate_le(a, b),
{
    assert((a.bytes as int) * (b.nanos as int) <= u128::MAX as int) by (nonlinear_arith)
        requires a.bytes as int <= u64::MAX as int, b.nanos as int <= u64::MAX as int;
    assert((b.bytes as int) * (a.nanos as int) <= u128::MAX as int) by (nonlinear_arith)
        requires b.bytes as int <= u64::MAX as int, a.nanos as int <= u64::MAX as int;
    (a.bytes as u128) * (b.nanos as u128) <= (b.bytes as u128) * (a.nanos as u128)
}

proof fn lemma_rate_le_trans(a: Rate, b: Rate, c: Rate)
    requires
        b.nanos >= 1,
        rate_le(a, b),
        rate_le(b, c),
    ensures
        rate_le(a, c),
{
    let (ab, an, bb, bn, cb, cn) = (a.bytes as int, a.nanos as int, b.bytes as int, b.nanos as int,
        c.bytes as int, c.nanos as int);
    assert(ab * cn * bn <= cb * an * bn) by (nonlinear_arith)
        requires ab * bn <= bb * an, bb * cn <= cb * bn, an >= 0, cn >= 0;
    assert(ab * cn <= cb * an) by (nonlinear_arith)
        requires ab * cn * bn <= cb * an * bn, bn >= 1;
}

proof fn lemma_rate_lt_le(a: Rate, b: Rate, c: Rate)
    requires
        b.nanos >= 1,
        c.nanos >= 1,
        rate_lt(a, b),
        rate_le(b, c),
    ensures
        rate_lt(a, c),
{
    let (ab, an, bb, bn, cb, cn) = (a.bytes as int, a.nanos as int, b.bytes as int, b.nanos as int,
        c.bytes as int, c.nanos as int);
    assert(ab * cn * bn < cb * an * bn) by (nonlinear_arith)
        requires ab * bn < bb * an, bb * cn <= cb * bn, an >= 0, cn >= 1;
    assert(ab * cn < cb * an) by (nonlinear_arith)
        requires ab * cn * bn < cb * an * bn, bn >= 1;
}

proof fn lemma_rate_le_lt(a: Rate, b: Rate, c: Rate)
    requires
        a.nanos >= 1,
        b.nanos >= 1,
        rate_le(a, b),
        rate_lt(b, c),
    ensures
        rate_lt(a, c),
{
    let (ab, an, bb, bn, cb, cn) = (a.bytes as int, a.nanos as int, b.bytes as int, b.nanos as int,
        c.bytes as int, c.nanos as int);
    assert(ab * cn * bn < cb * an * bn) by (nonlinear_arith)
        requires ab * bn <= bb * an, bb * cn < cb * bn, an >= 1, cn >= 0;
    assert(ab * cn < cb * an) by (nonlinear_arith)
        requires ab * cn * bn < cb * an * bn, bn >= 1;
}

/// A faster rate is no slower once both are rounded to bytes per second.
proof fn lemma_per_sec_monotone(a: Rate, b: Rate)
    requires
        a.nanos >= 1,
        b.nanos >= 1,
        rate_le(a, b),
    ensures
        a.per_sec() <= b.per_sec(),
{
    let x = a.bytes as int * NANOS_PER_SEC as int;
    let y = b.bytes as int * NANOS_PER_SEC as int;
    let an = a.nanos as int;
    let bn = b.nanos as int;
    assert(x * bn <= y * an) by (nonlinear_arith)
        requires
            (a.bytes as int) * bn <= (b.bytes as int) * an,
            x == a.bytes as int * NANOS_PER_SEC as int,
            y == b.bytes as int * NANOS_PER_SEC as int;
    let q = x / an;
    vstd::arithmetic::div_mod::lemma_fundamental_div_mod(x, an);
    assert(q * an <= x) by (nonlinear_arith)
        requires x == an * q + x % an, x % an >= 0;
    assert(q * bn * an <= y * an) by (nonlinear_arith)
        requires q * an <= x, x * bn <= y * an, bn >= 0;
    assert(q * bn <= y) by (nonlinear_arith)
        requires q * bn * an <= y * an, an >= 1;
    lemma_div_is_ordered(q * bn, y, bn);
    vstd::arithmetic::div_mod::lemma_div_by_multiple(q, bn);
}

/// The least of a non-empty list of rates.
pub fn min(rates: &[Rate]) -> (r: Rate)
    requires
        rates@.len() > 0,
        timed(rates@),
    ensures
        is_least(r, rates@),
{
    let mut best: Rate = rates[0];
    let ghost mut k: int = 0;
    let mut i: usize = 1;
    while i < rates.len()
        invariant
            1 <= i <= rates@.len(),
            timed(rates@),
            0 <= k < rates@.len(),
            rates@[k] == best,
            forall|j: int| 0 <= j < i ==> rate_le(best, #[trigger] rates@[j]),
        decreases rates@.len() - i,
    {
        let c = rates[i];
        if !rate_at_most(best, c) {
            assert forall|j: int| 0 <= j <= i implies rate_le(c, #[trigger] rates@[j]) by {
                if j < i {
                    lemma_rate_le_trans(c, best, rates@[j]);
                }
            }
            best = c;
            proof {
                k = i as int;
            }
        }
        i = i + 1;
    }
    assert(rates@.contains(best));
    best
}

/// The greatest of a non-empty list of rates.
pub fn max(rates: &[Rate]) -> (r: Rate)
    requires
        rates@.len() > 0,
        timed(rates@),
    ensures
        is_greatest(r, rates@),
{
    let mut best: Rate = rates[0];
    let ghost mut k: int = 0;
    let mut i: usize = 1;
    while i < rates.len()
        invariant
            1 <= i <= rates@.len(),
            timed(rates@),
            0 <= k < rates@.len(),
            rates@[k] == best,
            forall|j: int| 0 <= j < i ==> rate_le(#[trigger] rates@[j], best),
        decreases rates@.len() - i,
    {
        let c = rates[i];
        if !rate_at_most(c, best) {
            assert forall|j: int| 0 <= j <= i implies rate_le(#[trigger] rates@[j], c) by {
                if j < i {
                    lemma_rate_le_trans(rates@[j], best, c);
                }
            }
            best = c;
            proof {
                k = i as int;
            }
        }
        i = i + 1;
    }
    assert(rates@.contains(best));
    best
}

/// The arithmetic mean, rounded down.
pub fn mean(vals: &[u64]) -> (r: u64)
    requires
        vals@.len() > 0,
    ensures
        r == mean_of(as_ints(vals@)),
{
    let mut sum: u128 = 0;
    let mut i: usize = 0;
    while i < vals.len()
        invariant
            i <= vals@.len(),
            sum == sum_of(as_ints(vals@).take(i as int)),
            sum <= i * (u64::MAX as int),
        decreases vals@.len() - i,
    {
        proof {
            assert(as_ints(vals@).take(i as int + 1).drop_last() =~= as_ints(vals@).take(i as int));
            assert((i + 1) * (u64::MAX as int) == i * (u64::MAX as int) + u64::MAX as int) by (nonlinear_arith);
            assert(i * (u64::MAX as int) <= (u64::MAX as int) * (u64::MAX as int)) by (nonlinear_arith)
                requires i <= u64::MAX as int;
        }
        sum = sum + vals[i] as u128;
        i = i + 1;
    }
    let ghost s = as_ints(vals@);
    assert(s.take(i as int) =~= s);
    proof {
        lemma_mean_between_min_and_max(s);
        s.max_ensures();
    }
    (sum / vals.len() as u128) as u64
}

/// A sorted copy of the samples.
pub fn sorted(vals: &[u64]) -> (r: Vec<u64>)
    ensures
        as_ints(r@) == as_ints(vals@).sort(),
{
    let mut v: Vec<u64> = Vec::new();
    let mut i: usize = 0;
    while i < vals.len()
        invariant
            i <= vals@.len(),
            v@.len() == i,
            as_ints(v@).to_multiset() == as_ints(vals@.take(i as int)).to_multiset(),
            forall|a: int, b: int| 0 <= a < b < v@.len() ==> v@[a] <= v@[b],
        decreases vals@.len() - i,
    {
        let ghost before = v@;
        v.push(vals[i]);
        proof {
            assert(as_ints(v@) =~= as_ints(before).push(vals@[i as int] as int));
            assert(as_ints(vals@.take(i as int + 1)) =~= as_ints(vals@.take(i as int)).push(vals@[i as int] as int));
        }
        let mut j: usize = i;
        while j > 0 && v[j - 1] > v[j]
            invariant
                j <= i < vals@.len(),
                v@.len() == i + 1,
                as_ints(v@).to_multiset() == as_ints(vals@.take(i as int + 1)).to_multiset(),
                forall|a: int, b: int| 0 <= a < b < v@.len() && b != j ==> v@[a] <= v@[b],
                forall|a: int, b: int| 0 <= a < j < b < v@.len() ==> v@[a] <= v@[b],
            decreases j,
        {
            let lo = v[j - 1];
            let hi = v[j];
            let ghost w = v@;
            v.set(j - 1, hi);
            v.set(j, lo);
            proof {
                let m = as_ints(w).to_multiset();
                assert(as_ints(v@) =~= as_ints(w).update(j - 1, hi as int).update(j as int, lo as int));
                assert(as_ints(w).update(j - 1, hi as int)[j as int] == hi as int);
                assert(as_ints(v@).to_multiset() =~= m.insert(hi as int).remove(lo as int).insert(lo as int).remove(hi as int));
                assert(m.insert(hi as int).remove(lo as int).insert(lo as int).remove(hi as int) =~= m);
            }
            j = j - 1;
        }
        i = i + 1;
    }
    proof {
        assert(vals@.take(i as int) =~= vals@);
        let leq = |x: int, y: int| x <= y;
        let s = as_ints(vals@);
        s.lemma_sort_ensures();
        assert(sorted_by(as_ints(v@), leq));
        assert(total_ordering(leq));
        lemma_sorted_unique(as_ints(v@), s.sort(), leq);
    }
    v
}

/// The median of the samples.
pub fn median(vals: &[u64]) -> (r: u64)
    requires
        vals@.len() > 0,
    ensures
        r == median_of(as_ints(vals@)),
{
    let t = sorted(vals);
    proof {
        let s = as_ints(vals@);
        s.lemma_sort_ensures();
        assert(s.sort().to_multiset().len() == s.to_multiset().len());
    }
    assert(t@.len() == vals@.len()) by {
        assert(as_ints(t@).len() == t@.len());
    }
    let h = t.len() / 2;
    if t.len() % 2 == 1 {
        t[h]
    } else {
        ((t[h - 1] as u128 + t[h] as u128) / 2) as u64
    }
}

/// The square root of `v`, rounded down.
pub fn floor_sqrt(v: u128) -> (r: u64)
    ensures
        is_floor_sqrt(r as int, v as int),
{
    let mut lo: u128 = 0;
    let mut hi: u128 = 0x1_0000_0000_0000_0000;
    assert(hi * hi > u128::MAX) by (nonlinear_arith)
        requires hi == 0x1_0000_0000_0000_0000u128;
    while hi - lo > 1
        invariant
            lo < hi <= 0x1_0000_0000_0000_0000,
            lo * lo <= v,
            v < hi * hi,
        decreases hi - lo,
    {
        let mid: u128 = lo + (hi - lo) / 2;
        assert(mid * mid <= 0xffff_ffff_ffff_ffff * 0xffff_ffff_ffff_ffffu128) by (nonlinear_arith)
            requires mid < 0x1_0000_0000_0000_0000u128;
        if mid * mid <= v {
            lo = mid;
        } else {
            hi = mid;
        }
    }
    assert(lo + 1 == hi);
    lo as u64
}

/// The standard deviation of the rates in whole bytes per second, as
/// `deviation_ok` states it: zero exactly when all rates are equal.
pub fn standard_deviation(rates: &[Rate]) -> (r: u64)
    requires
        rates@.len() > 0,
        timed(rates@),
    ensures
        deviation_ok(r as int, rates@),
{
    let lo = min(rates);
    let hi = max(rates);
    if rate_at_most(hi, lo) {
        assert forall|i: int, j: int| 0 <= i < rates@.len() && 0 <= j < rates@.len() implies !rate_lt(
            #[trigger] rates@[i],
            #[trigger] rates@[j],
        ) by {
            if rate_lt(rates@[i], rates@[j]) {
                lemma_rate_le_lt(lo, rates@[i], rates@[j]);
                lemma_rate_lt_le(lo, rates@[j], hi);
                let k = choose|k: int| 0 <= k < rates@.len() && rates@[k] == lo;
                let m = choose|m: int| 0 <= m < rates@.len() && rates@[m] == hi;
                assert(lo.nanos >= 1 && hi.nanos >= 1) by {
                    assert(rates@[k].nanos >= 1);
                    assert(rates@[m].nanos >= 1);
                }
                lemma_rate_le_lt(hi, lo, hi);
            }
        }
        return 0;
    }
    proof {
        let k = choose|k: int| 0 <= k < rates@.len() && rates@[k] == lo;
        let m = choose|m: int| 0 <= m < rates@.len() && rates@[m] == hi;
        assert(rate_lt(rates@[k], rates@[m]));
    }
    let rounded_rates = per_sec_all(rates);
    let vals = rounded_rates.as_slice();
    assert(vals@.len() == rates@.len()) by {
        assert(as_ints(vals@).len() == vals@.len());
    }
    let m = mean(vals);
    let n = vals.len();
    let mut acc: u128 = 0;
    let mut i: usize = 0;
    while i < n
        invariant
            n == vals@.len(),
            i <= n,
            acc == vstd::math::min(sq_dev_sum(as_ints(vals@).take(i as int), m as int), u128::MAX as int),
        decreases n - i,
    {
        let x = vals[i];
        let d: u64 = if x >= m { x - m } else { m - x };
        assert(d as int * d as int <= u128::MAX as int) by (nonlinear_arith)
            requires d as int <= u64::MAX as int;
        let sq: u128 = d as u128 * d as u128;
        proof {
            let p = as_ints(vals@).take(i as int);
            assert(as_ints(vals@).take(i as int + 1).drop_last() =~= p);
            assert((x as int - m as int) * (x as int - m as int) == (d as int) * (d as int)) by (nonlinear_arith)
                requires d as int == x as int - m as int || d as int == m as int - x as int;
            assert(sq_dev_sum(p, m as int) >= 0) by { lemma_sq_dev_sum_nonneg(p, m as int); }
        }
        acc = acc.saturating_add(sq);
        i = i + 1;
    }
    assert(as_ints(vals@).take(n as int) =~= as_ints(vals@));
    if n == 1 {
        // Unreachable: a single rate is never spread.
        assert(false) by {
            let k = choose|k: int| 0 <= k < rates@.len() && rates@[k] == lo;
            let m2 = choose|m2: int| 0 <= m2 < rates@.len() && rates@[m2] == hi;
            assert(k == 0 && m2 == 0);
        }
        return 0;
    }
    let d: u128 = n as u128 - 1;
    let v: u128 = if acc % d == 0 {
        acc / d
    } else {
        assert(acc / d < u128::MAX) by {
            vstd::arithmetic::div_mod::lemma_div_is_ordered_by_denominator(acc as int, 2, d as int);
        }
        acc / d + 1
    };
    if v == 0 {
        1
    } else {
        let r = floor_sqrt(v);
        r
    }
}

proof fn lemma_sq_dev_sum_nonneg(s: Seq<int>, m: int)
    ensures
        sq_dev_sum(s, m) >= 0,
    decreases s.len(),
{
    if s.len() > 0 {
        lemma_sq_dev_sum_nonneg(s.drop_last(), m);
        assert((s.last() - m) * (s.last() - m) >= 0) by (nonlinear_arith);
    }
}

/// Summary of the throughput of a run's cycles: the slowest and fastest
/// cycle exactly, the rest in whole bytes per second.
#[derive(Debug, Clone, Copy)]
pub struct RunStatistics {
    /// Mean of the per-cycle throughputs, each rounded down.
    pub mean: u64,
    /// Median of the per-cycle throughputs, each rounded down.
    pub median: u64,
    /// As `deviation_ok` states it: zero exactly when all cycles ran at
    /// the same rate.
    pub standard_deviation: u64,
    /// The slowest cycle's throughput.
    pub min: Rate,
    /// The fastest cycle's throughput.
    pub max: Rate,
}

impl RunStatistics {
    /// What the statistics of the cycles `results` are.
    pub open spec fn describes(self, results: Seq<CycleResult>) -> bool {
        let rates = cycle_rates(results);
        &&& self.mean == mean_of(rounded(rates))
        &&& self.median == median_of(rounded(rates))
        &&& deviation_ok(self.standard_deviation as int, rates)
        &&& is_least(self.min, rates)
        &&& is_greatest(self.max, rates)
    }

    /// Reduces the cycles of one run to statistics over their throughput.
    pub fn new(cycle_results: &[CycleResult]) -> (r: RunStatistics)
        requires
            cycle_results@.len() > 0,
        ensures
            r.describes(cycle_results@),
    {
        let rates = rates(cycle_results);
        let samples = per_sec_all(rates.as_slice());
        assert(samples@.len() == rates@.len()) by {
            assert(as_ints(samples@).len() == samples@.len());
        }
        let mean = mean(samples.as_slice());
        let median = median(samples.as_slice());
        let standard_deviation = standard_deviation(rates.as_slice());
        let min = min(rates.as_slice());
        let max = max(rates.as_slice());
        RunStatistics { mean, median, standard_deviation, min, max }
    }
}

/// The mean and the median throughput of a run lie between its slowest and
/// its fastest cycle, all rounded down to whole bytes per second; and the
/// slowest cycle is no faster than the fastest.
pub proof fn lemma_run_mean_between_min_and_max(stats: RunStatistics, cycle_results: Seq<CycleResult>)
    requires
        cycle_results.len() > 0,
        stats.describes(cycle_results),
    ensures
        stats.min.per_sec() <= stats.mean <= stats.max.per_sec(),
        stats.min.per_sec() <= stats.median <= stats.max.per_sec(),
        rate_le(stats.min, stats.max),
{
    let rates = cycle_rates(cycle_results);
    let s = rounded(rates);
    lemma_mean_between_min_and_max(s);
    lemma_median_between_min_and_max(s);
    s.min_ensures();
    s.max_ensures();
    assert(stats.min.nanos >= 1 && stats.max.nanos >= 1);
    assert forall|i: int| 0 <= i < s.len() implies stats.min.per_sec() <= #[trigger] s[i] <= stats.max.per_sec() by {
        lemma_per_sec_monotone(stats.min, rates[i]);
        lemma_per_sec_monotone(rates[i], stats.max);
    }
    lemma_rate_le_trans(stats.min, rates[0], stats.max);
}

/// Two cycles that moved the same bytes in different times make the run's
/// deviation nonzero and its slowest cycle slower than its fastest.
pub proof fn lemma_deviation_when_times_differ(
    stats: RunStatistics,
    cycle_results: Seq<CycleResult>,
    i: int,
    j: int,
)
    requires
        stats.describes(cycle_results),
        0 <= i < cycle_results.len(),
        0 <= j < cycle_results.len(),
        cycle_results[i].bytes == cycle_results[j].bytes,
        cycle_results[i].bytes > 0,
        cycle_results[i].elapsed_nanos > 0,
        cycle_results[j].elapsed_nanos > 0,
        cycle_results[i].elapsed_nanos != cycle_results[j].elapsed_nanos,
    ensures
        stats.standard_deviation > 0,
        rate_lt(stats.min, stats.max),
{
    let rates = cycle_rates(cycle_results);
    let (fast, slow) = if cycle_results[i].elapsed_nanos < cycle_results[j].elapsed_nanos {
        (i, j)
    } else {
        (j, i)
    };
    let b = rates[fast].bytes as int;
    assert(rates[fast].bytes == rates[slow].bytes);
    assert(b * (rates[fast].nanos as int) < b * (rates[slow].nanos as int)) by (nonlinear_arith)
        requires b > 0, (rates[fast].nanos as int) < (rates[slow].nanos as int);
    assert(rate_lt(rates[slow], rates[fast]));
    assert(spread(rates));
    let v = ceil_variance_of(rounded(rates));
    if v != 0 {
        assert(stats.standard_deviation > 0) by (nonlinear_arith)
            requires is_floor_sqrt(stats.standard_deviation as int, v), v >= 1;
    }
    assert(stats.min.nanos >= 1 && stats.max.nanos >= 1);
    lemma_rate_le_lt(stats.min, rates[slow], rates[fast]);
    lemma_rate_lt_le(stats.min, rates[fast], stats.max);
}

} // verus!
