//! A latency histogram: a fixed array of counters indexed by the latency
//! value, from which the minimum, maximum, average and percentiles of what
//! was recorded are read in time proportional to the value range.

use vstd::prelude::*;

verus! {

/// How many values below index `n` the histogram `h` holds.
pub open spec fn total(h: Seq<usize>, n: int) -> nat
    decreases n,
{
    if n <= 0 {
        0
    } else {
        total(h, n - 1) + h[n - 1] as nat
    }
}

/// The sum of the values below index `n` that the histogram `h` holds.
pub open spec fn weighted(h: Seq<usize>, n: int) -> nat
    decreases n,
{
    if n <= 0 {
        0
    } else {
        weighted(h, n - 1) + (n - 1) as nat * h[n - 1] as nat
    }
}

/// How many values the histogram holds.
pub open spec fn recorded_count(h: Seq<usize>) -> nat {
    total(h, h.len() as int)
}

/// The sum of the values the histogram holds.
pub open spec fn recorded_sum(h: Seq<usize>) -> nat {
    weighted(h, h.len() as int)
}

/// `v` is the smallest value recorded.
pub open spec fn is_lowest(h: Seq<usize>, v: int) -> bool {
    &&& 0 <= v < h.len()
    &&& h[v] > 0
    &&& forall|u: int| 0 <= u < v ==> h[u] == 0
}

/// `v` is the largest value recorded.
pub open spec fn is_highest(h: Seq<usize>, v: int) -> bool {
    &&& 0 <= v < h.len()
    &&& h[v] > 0
    &&& forall|u: int| v < u < h.len() ==> h[u] == 0
}

/// How many of `n` values lie at or below the `p`-th percentile:
/// `ceil(p * n / 100)`.
pub open spec fn percentile_rank(p: nat, n: nat) -> nat {
    (p * n + 99) / 100
}

/// `v` is the value at rank `t`: the smallest recorded value with at least
/// `t` recorded values at or below it. A rank above the count, which only a
/// percentile above a hundred asks for, gives the largest value.
pub open spec fn is_value_at_rank(h: Seq<usize>, t: nat, v: int) -> bool {
    if t <= recorded_count(h) {
        &&& 0 <= v < h.len()
        &&& h[v] > 0
        &&& total(h, v + 1) >= t
        &&& forall|u: int| 0 <= u < v && h[u] > 0 ==> total(h, u + 1) < t
    } else {
        is_highest(h, v)
    }
}

/// `v` is the `p`-th percentile of what `h` holds.
pub open spec fn is_percentile(h: Seq<usize>, p: nat, v: int) -> bool {
    is_value_at_rank(h, percentile_rank(p, recorded_count(h)), v)
}

/// `r` is the average of what `h` holds in hundredths, rounded down.
pub open spec fn is_average_hundredths(h: Seq<usize>, r: nat) -> bool {
    &&& r * recorded_count(h) <= recorded_sum(h) * 100
    &&& recorded_sum(h) * 100 < (r + 1) * recorded_count(h)
}

proof fn lemma_total_mono(h: Seq<usize>, a: int, b: int)
    requires
        0 <= a <= b,
    ensures
        total(h, a) <= total(h, b),
    decreases b - a,
{
    if a < b {
        lemma_total_mono(h, a, b - 1);
    }
}

/// Past `k` the histogram is empty, so nothing is counted there.
proof fn lemma_total_flat(h: Seq<usize>, k: int, n: int)
    requires
        0 <= k <= n <= h.len(),
        forall|u: int| k <= u < h.len() ==> h[u] == 0,
    ensures
        total(h, n) == total(h, k),
    decreases n - k,
{
    if k < n {
        lemma_total_flat(h, k, n - 1);
    }
}

proof fn lemma_total_zero(h: Seq<usize>, n: int)
    requires
        0 <= n <= h.len(),
        total(h, n) == 0,
    ensures
        forall|u: int| 0 <= u < n ==> h[u] == 0,
    decreases n,
{
    if n > 0 {
        lemma_total_zero(h, n - 1);
    }
}

proof fn lemma_total_bump(h: Seq<usize>, l: int, n: int)
    requires
        0 <= l < h.len(),
        0 <= n <= h.len(),
        h[l] < usize::MAX,
    ensures
        total(h.update(l, (h[l] + 1) as usize), n) == total(h, n) + if l < n {
            1nat
        } else {
            0nat
        },
        weighted(h.update(l, (h[l] + 1) as usize), n) == weighted(h, n) + if l < n {
            l as nat
        } else {
            0nat
        },
    decreases n,
{
    if n > 0 {
        lemma_total_bump(h, l, n - 1);
        let g = h.update(l, (h[l] + 1) as usize);
        if n - 1 == l {
            assert((n - 1) as nat * g[n - 1] as nat == (n - 1) as nat * h[n - 1] as nat + l as nat)
                by (nonlinear_arith)
                requires
                    g[n - 1] == h[n - 1] + 1,
                    n - 1 == l,
            ;
        }
    }
}

proof fn lemma_weighted_bound(h: Seq<usize>, n: int)
    requires
        0 <= n <= h.len(),
        h.len() >= 1,
    ensures
        weighted(h, n) <= (h.len() - 1) as nat * total(h, n),
    decreases n,
{
    if n > 0 {
        lemma_weighted_bound(h, n - 1);
        let b = (h.len() - 1) as nat;
        let c = h[n - 1] as nat;
        let k = (n - 1) as nat;
        assert(k * c <= b * c) by (nonlinear_arith)
            requires
                k <= b,
        ;
        assert(b * total(h, n - 1) + b * c == b * total(h, n)) by (nonlinear_arith)
            requires
                total(h, n) == total(h, n - 1) + c,
        ;
    }
}

/// Relates the histogram after recording `l` to the one before.
proof fn lemma_record(h: Seq<usize>, l: int)
    requires
        0 <= l < h.len(),
        h[l] < usize::MAX,
    ensures
        recorded_count(h.update(l, (h[l] + 1) as usize)) == recorded_count(h) + 1,
        recorded_sum(h.update(l, (h[l] + 1) as usize)) == recorded_sum(h) + l,
{
    lemma_total_bump(h, l, h.len() as int);
}

/// Counters of recorded latencies, one per value from zero to a fixed bound.
pub struct LatencyStat {
    min: usize,
    max: usize,
    count: usize,
    sum: u128,
    counter: Vec<usize>,
}

impl View for LatencyStat {
    type V = Seq<usize>;

    /// How many times each value from zero to the bound was recorded.
    closed spec fn view(&self) -> Seq<usize> {
        self.counter@
    }
}

/// The histogram of a fresh statistic with bound `max`.
pub open spec fn empty_histogram(max: nat) -> Seq<usize> {
    Seq::new(max + 1, |i: int| 0usize)
}

impl LatencyStat {
    pub closed spec fn wf(&self) -> bool {
        &&& self.counter@.len() >= 1
        &&& self.count == recorded_count(self.counter@)
        &&& self.sum == recorded_sum(self.counter@)
        &&& self.count > 0 ==> is_lowest(self.counter@, self.min as int) && is_highest(
            self.counter@,
            self.max as int,
        )
    }

    /// The largest value that can be recorded.
    pub open spec fn bound(&self) -> nat {
        (self@.len() - 1) as nat
    }

    /// A statistic with nothing recorded, for values from zero to `max`.
    pub fn with_max(max: u64) -> (r: Self)
        requires
            max < usize::MAX,
        ensures
            r.wf(),
            r@ == empty_histogram(max as nat),
    {
        let n = max as usize + 1;
        let mut counter: Vec<usize> = Vec::with_capacity(n);
        let mut i: usize = 0;
        while i < n
            invariant
                i <= n,
                counter@ == Seq::new(i as nat, |j: int| 0usize),
            decreases n - i,
        {
            counter.push(0);
            i = i + 1;
        }
        proof {
            assert(counter@ =~= empty_histogram(max as nat));
            lemma_empty(counter@, counter@.len() as int);
        }
        LatencyStat { min: max as usize, max: 0, count: 0, sum: 0, counter }
    }

    /// Forgets everything recorded: the statistic is then as a fresh one of
    /// the same bound.
    pub fn clear(&mut self)
        requires
            old(self).wf(),
        ensures
            final(self).wf(),
            final(self)@ == empty_histogram(old(self).bound()),
    {
        let n = self.counter.len();
        let mut i: usize = 0;
        while i < n
            invariant
                i <= n,
                n == self.counter@.len(),
                n >= 1,
                forall|j: int| 0 <= j < i ==> self.counter@[j] == 0,
            decreases n - i,
        {
            self.counter.set(i, 0);
            i = i + 1;
        }
        self.min = n - 1;
        self.max = 0;
        self.count = 0;
        self.sum = 0;
        proof {
            assert(self.counter@ =~= empty_histogram((n - 1) as nat));
            lemma_empty(self.counter@, n as int);
        }
    }

    /// Records one latency. A value above the bound, or one more value than
    /// the count can hold, is refused with `false` and nothing changes.
    pub fn record_latency(&mut self, latency: u64) -> (r: bool)
        requires
            old(self).wf(),
        ensures
            final(self).wf(),
            r <==> latency <= old(self).bound() && recorded_count(old(self)@) < usize::MAX,
            r ==> final(self)@ == old(self)@.update(
                latency as int,
                (old(self)@[latency as int] + 1) as usize,
            ),
            !r ==> final(self)@ == old(self)@,
    {
        if latency >= self.counter.len() as u64 || self.count == usize::MAX {
            return false;
        }
        let l = latency as usize;
        let ghost h = self.counter@;
        proof {
            lemma_total_mono(h, l + 1, h.len() as int);
            lemma_weighted_bound(h, h.len() as int);
            let b = (h.len() - 1) as nat;
            assert(recorded_sum(h) + l <= b * (self.count + 1)) by (nonlinear_arith)
                requires
                    recorded_sum(h) <= b * self.count,
                    l <= b,
            ;
            assert(b * (self.count + 1) <= u128::MAX) by (nonlinear_arith)
                requires
                    b < usize::MAX,
                    self.count + 1 <= usize::MAX,
                    usize::MAX <= u64::MAX,
            ;
            lemma_record(h, l as int);
            if self.count == 0 {
                lemma_total_zero(h, h.len() as int);
            }
        }
        let c = self.counter[l];
        self.counter.set(l, c + 1);
        if self.count == 0 {
            self.min = l;
            self.max = l;
        } else {
            if l < self.min {
                self.min = l;
            }
            if l > self.max {
                self.max = l;
            }
        }
        self.count = self.count + 1;
        self.sum = self.sum + latency as u128;
        true
    }

    /// How many values were recorded.
    pub fn count(&self) -> (r: usize)
        requires
            self.wf(),
        ensures
            r == recorded_count(self@),
    {
        self.count
    }

    /// The sum of the values recorded.
    pub fn sum(&self) -> (r: u128)
        requires
            self.wf(),
        ensures
            r == recorded_sum(self@),
    {
        self.sum
    }

    /// The smallest value recorded; `None` before anything is.
    pub fn min(&self) -> (r: Option<u64>)
        requires
            self.wf(),
        ensures
            recorded_count(self@) == 0 <==> r is None,
            r is Some ==> is_lowest(self@, r->Some_0 as int),
    {
        if self.count == 0 {
            None
        } else {
            Some(self.min as u64)
        }
    }

    /// The largest value recorded; `None` before anything is.
    pub fn max(&self) -> (r: Option<u64>)
        requires
            self.wf(),
        ensures
            recorded_count(self@) == 0 <==> r is None,
            r is Some ==> is_highest(self@, r->Some_0 as int),
    {
        if self.count == 0 {
            None
        } else {
            Some(self.max as u64)
        }
    }

    /// The average of the values recorded, in hundredths, rounded down;
    /// `None` before anything is recorded.
    pub fn avg_hundredths(&self) -> (r: Option<u128>)
        requires
            self.wf(),
        ensures
            recorded_count(self@) == 0 <==> r is None,
            r is Some ==> is_average_hundredths(self@, r->Some_0 as nat),
    {
        if self.count == 0 {
            return None;
        }
        let c = self.count as u128;
        let q = self.sum / c;
        let m = self.sum % c;
        proof {
            lemma_weighted_bound(self.counter@, self.counter@.len() as int);
            let b = (self.counter@.len() - 1) as nat;
            assert(q <= b) by (nonlinear_arith)
                requires
                    self.sum <= b * c,
                    q == self.sum / c,
                    c > 0,
            ;
            assert(b < self.counter.len());
            let (mi, ci) = (m as int, c as int);
            vstd::arithmetic::div_mod::lemma_fundamental_div_mod(mi * 100, ci);
            assert((mi * 100) / ci < 100) by (nonlinear_arith)
                requires
                    0 <= mi < ci,
                    mi * 100 == ci * ((mi * 100) / ci) + (mi * 100) % ci,
                    0 <= (mi * 100) % ci,
            ;
        }
        let s = m * 100 / c;
        proof {
            assert(q * 100 + s <= u128::MAX) by (nonlinear_arith)
                requires
                    q <= usize::MAX,
                    usize::MAX <= u64::MAX,
                    s < 100,
            ;
        }
        let r = q * 100 + s;
        proof {
            let (ti, ci, qi, mi, si, ri) = (
                self.sum as int,
                c as int,
                q as int,
                m as int,
                s as int,
                r as int,
            );
            let k = (mi * 100) % ci;
            vstd::arithmetic::div_mod::lemma_fundamental_div_mod(ti, ci);
            vstd::arithmetic::div_mod::lemma_fundamental_div_mod(mi * 100, ci);
            assert(ti == ci * qi + mi);
            assert(mi * 100 == ci * si + k);
            assert(ri * ci <= ti * 100 < (ri + 1) * ci) by (nonlinear_arith)
                requires
                    ti == ci * qi + mi,
                    mi * 100 == ci * si + k,
                    0 <= k < ci,
                    ri == qi * 100 + si,
            ;
        }
        Some(r)
    }
    /// The value at rank `t`; see [`is_value_at_rank`]. The scan starts at
    /// the smallest value recorded and stops at the largest.
    fn value_at_rank(&self, t: u128) -> (v: usize)
        requires
            self.wf(),
            self.count > 0,
        ensures
            is_value_at_rank(self@, t as nat, v as int),
    {
        let ghost h = self.counter@;
        let mut i: usize = self.min;
        proof {
            lemma_empty(h, i as int);
            lemma_total_mono(h, i + 1, h.len() as int);
        }
        let mut sum_i: u128 = self.counter[i] as u128;
        while sum_i < t && i < self.max
            invariant
                self.wf(),
                self.count > 0,
                h == self.counter@,
                self.min <= i <= self.max,
                sum_i == total(h, i + 1),
                forall|u: int| 0 <= u < i && h[u] > 0 ==> total(h, u + 1) < t,
                i > self.min ==> total(h, i as int) < t,
            decreases self.max - i,
        {
            proof {
                lemma_total_mono(h, i + 2, h.len() as int);
            }
            i = i + 1;
            sum_i = sum_i + self.counter[i] as u128;
        }
        proof {
            lemma_total_mono(h, i + 1, h.len() as int);
            if sum_i < t {
                lemma_total_flat(h, self.max + 1, h.len() as int);
            }
        }
        i
    }

    /// The value at each of the given percentiles, in order; `None` before
    /// anything is recorded.
    pub fn evaluation(&self, percentiles: &Vec<u64>) -> (r: Option<Vec<u64>>)
        requires
            self.wf(),
        ensures
            recorded_count(self@) == 0 <==> r is None,
            r is Some ==> r->Some_0@.len() == percentiles@.len() && forall|k: int|
                0 <= k < percentiles@.len() ==> is_percentile(
                    self@,
                    percentiles@[k] as nat,
                    #[trigger] r->Some_0@[k] as int,
                ),
    {
        if self.count == 0 {
            return None;
        }
        let mut latency: Vec<u64> = Vec::with_capacity(percentiles.len());
        let mut k: usize = 0;
        while k < percentiles.len()
            invariant
                self.wf(),
                self.count > 0,
                k <= percentiles@.len(),
                latency@.len() == k,
                forall|j: int|
                    0 <= j < k ==> is_percentile(
                        self@,
                        percentiles@[j] as nat,
                        #[trigger] latency@[j] as int,
                    ),
            decreases percentiles@.len() - k,
        {
            let p = percentiles[k];
            proof {
                assert(p * self.count + 99 <= u128::MAX) by (nonlinear_arith)
                    requires
                        p <= u64::MAX,
                        self.count <= usize::MAX,
                        usize::MAX <= u64::MAX,
                ;
            }
            let rank = (p as u128 * self.count as u128 + 99) / 100;
            let v = self.value_at_rank(rank);
            latency.push(v as u64);
            k = k + 1;
        }
        Some(latency)
    }

    /// Fills `data` with the summary of what was recorded. Before anything is
    /// recorded only its count is set, to zero, which marks it as holding no
    /// data; the rest is left as it was.
    pub fn evaluate(&self, data: &mut LatencyData)
        requires
            self.wf(),
        ensures
            final(data).count == recorded_count(self@),
            final(data).percentiles@ == old(data).percentiles@,
            recorded_count(self@) == 0 ==> {
                &&& final(data).min == old(data).min
                &&& final(data).max == old(data).max
                &&& final(data).avg_hundredths == old(data).avg_hundredths
                &&& final(data).latencies@ == old(data).latencies@
            },
            recorded_count(self@) > 0 ==> {
                &&& is_lowest(self@, final(data).min as int)
                &&& is_highest(self@, final(data).max as int)
                &&& is_average_hundredths(self@, final(data).avg_hundredths as nat)
                &&& final(data).latencies@.len() == final(data).percentiles@.len()
                &&& forall|k: int|
                    0 <= k < final(data).percentiles@.len() ==> is_percentile(
                        self@,
                        final(data).percentiles@[k] as nat,
                        #[trigger] final(data).latencies@[k] as int,
                    )
            },
    {
        data.count = self.count;
        match (self.min(), self.max(), self.avg_hundredths(), self.evaluation(&data.percentiles)) {
            (Some(lo), Some(hi), Some(avg), Some(latencies)) => {
                data.min = lo;
                data.max = hi;
                data.avg_hundredths = avg;
                data.latencies = latencies;
            },
            _ => {},
        }
    }
}

/// The percentiles reported by [`LatencyData::new`].
pub const DEFAULT_PERCENTILES: [u64; 6] = [25, 50, 75, 90, 95, 99];

/// A summary of a [`LatencyStat`]: the count, and where it is nonzero the
/// minimum, maximum, average in hundredths and the value at each percentile.
pub struct LatencyData {
    pub percentiles: Vec<u64>,
    pub count: usize,
    pub min: u64,
    pub max: u64,
    pub avg_hundredths: u128,
    pub latencies: Vec<u64>,
}

impl LatencyData {
    /// An empty summary for the default percentiles.
    pub fn new() -> (r: Self)
        ensures
            r.percentiles@ == DEFAULT_PERCENTILES@,
            r.count == 0,
            r.latencies@.len() == r.percentiles@.len(),
    {
        let mut percentiles: Vec<u64> = Vec::new();
        let mut k: usize = 0;
        while k < 6
            invariant
                k <= 6,
                percentiles@ == DEFAULT_PERCENTILES@.subrange(0, k as int),
            decreases 6 - k,
        {
            percentiles.push(DEFAULT_PERCENTILES[k]);
            k = k + 1;
            proof {
                assert(percentiles@ =~= DEFAULT_PERCENTILES@.subrange(0, k as int));
            }
        }
        proof {
            assert(percentiles@ =~= DEFAULT_PERCENTILES@);
        }
        Self::with_percentiles(percentiles)
    }

    /// An empty summary for the given percentiles.
    pub fn with_percentiles(percentiles: Vec<u64>) -> (r: Self)
        ensures
            r.percentiles@ == percentiles@,
            r.count == 0,
            r.latencies@.len() == percentiles@.len(),
    {
        let n = percentiles.len();
        let mut latencies: Vec<u64> = Vec::with_capacity(n);
        let mut k: usize = 0;
        while k < n
            invariant
                k <= n,
                latencies@.len() == k,
            decreases n - k,
        {
            latencies.push(0);
            k = k + 1;
        }
        LatencyData { percentiles, count: 0, min: 0, max: 0, avg_hundredths: 0, latencies }
    }

    /// Whether the summary holds any data.
    pub fn has_data(&self) -> (r: bool)
        ensures
            r <==> self.count > 0,
    {
        self.count > 0
    }
}

/// Deriving the summary is repeatable: for a fixed histogram, the minimum,
/// the maximum, the average and the value at each percentile are each
/// determined, so every derivation made without recording in between gives
/// the same output.
pub proof fn lemma_summary_determined(h: Seq<usize>, p: nat, a: int, b: int, x: nat, y: nat)
    ensures
        is_lowest(h, a) && is_lowest(h, b) ==> a == b,
        is_highest(h, a) && is_highest(h, b) ==> a == b,
        is_percentile(h, p, a) && is_percentile(h, p, b) ==> a == b,
        is_average_hundredths(h, x) && is_average_hundredths(h, y) ==> x == y,
{
    let n = recorded_count(h);
    let s = recorded_sum(h);
    if is_average_hundredths(h, x) && is_average_hundredths(h, y) {
        assert(x == y) by (nonlinear_arith)
            requires
                x * n <= s * 100 < (x + 1) * n,
                y * n <= s * 100 < (y + 1) * n,
        ;
    }
    if is_percentile(h, p, a) && is_percentile(h, p, b) && a != b {
        let t = percentile_rank(p, n);
        if t <= n {
            if a < b {
                assert(total(h, a + 1) < t);
            } else {
                assert(total(h, b + 1) < t);
            }
        }
    }
}

proof fn lemma_empty(h: Seq<usize>, n: int)
    requires
        0 <= n <= h.len(),
        forall|u: int| 0 <= u < n ==> h[u] == 0,
    ensures
        total(h, n) == 0,
        weighted(h, n) == 0,
    decreases n,
{
    if n > 0 {
        lemma_empty(h, n - 1);
    }
}

} // verus!
