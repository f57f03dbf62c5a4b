//! Timing statistics: a histogram of recorded durations, and the conversion
//! of a nanosecond count to a readable magnitude and unit.
use vstd::prelude::*;
use vstd::multiset::Multiset;
use vstd::arithmetic::power2::{pow2, lemma_pow2_unfold, lemma2_to64};

verus! {

/// A histogram of `u64` samples of the `hdrhistogram` crate. Verus does not
/// accept a declaration of `Histogram<T>`, whose parameter is bound by a trait
/// of that crate, so the histogram is held here, out of Verus's sight.
#[verifier::external_body]
pub struct SampleHistogram {
    hist: hdrhistogram::Histogram<u64>,
}

/// The error that `Histogram::record` returns.
#[verifier::external_type_specification]
#[verifier::external_body]
pub struct ExRecordError(hdrhistogram::RecordError);

/// The samples recorded in a histogram since it was made or last reset.
pub uninterp spec fn recorded(h: SampleHistogram) -> Multiset<u64>;

/// The number of significant figures a histogram was made with.
pub uninterp spec fn sig_figures(h: SampleHistogram) -> u8;

/// The largest sample that an auto-resizing histogram is documented to track.
pub open spec fn max_trackable() -> u64 {
    0x3fff_ffff_ffff_ffffu64
}

/// Below this bound a histogram with `sigfig` significant figures keeps every
/// value in a bucket of its own (the power of two at or above `2 * 10^sigfig`),
/// so it reports such values exactly.
pub open spec fn exact_limit(sigfig: u8) -> nat {
    if sigfig == 0 {
        2
    } else if sigfig == 1 {
        32
    } else if sigfig == 2 {
        256
    } else if sigfig == 3 {
        2048
    } else if sigfig == 4 {
        32768
    } else {
        262144
    }
}

/// Every sample lies below `limit`.
pub open spec fn all_below(samples: Multiset<u64>, limit: nat) -> bool {
    forall|v: u64| samples.count(v) > 0 ==> (v as nat) < limit
}

/// `Histogram::<u64>::new(sigfig)`: an empty, auto-resizing histogram with
/// `sigfig` significant figures. `new` fails only for more than five
/// significant figures, so the call succeeds.
#[verifier::external_body]
fn histogram_new(sigfig: u8) -> (h: SampleHistogram)
    requires
        sigfig <= 5,
    ensures
        recorded(h) =~= Multiset::empty(),
        sig_figures(h) == sigfig,
{
    SampleHistogram { hist: hdrhistogram::Histogram::new(sigfig).unwrap() }
}

/// `Histogram::record`: counts one more sample of `value`. The histogram
/// resizes itself as needed, so a value within the documented trackable range
/// is recorded without error.
#[verifier::external_body]
fn histogram_record(h: &mut SampleHistogram, value: u64) -> (r: Result<(), hdrhistogram::RecordError>)
    requires
        value <= max_trackable(),
    ensures
        r is Ok,
        recorded(*final(h)) == recorded(*old(h)).insert(value),
        sig_figures(*final(h)) == sig_figures(*old(h)),
{
    h.hist.record(value)
}

/// The lowest value that a histogram whose buckets hold the first `limit`
/// values one by one counts together with `v`: `v` with one low bit cleared
/// for each halving that brings it below `limit`.
pub open spec fn lowest_equivalent(v: nat, limit: nat) -> nat
    decreases v,
{
    if limit < 2 || v < limit {
        v
    } else {
        2 * lowest_equivalent(v / 2, limit)
    }
}

/// The highest value counted together with `v`: `v` with one low bit set for
/// each halving that brings it below `limit`.
pub open spec fn highest_equivalent(v: nat, limit: nat) -> nat
    decreases v,
{
    if limit < 2 || v < limit {
        v
    } else {
        2 * highest_equivalent(v / 2, limit) + 1
    }
}

/// `m` is a sample of `s` and no sample is smaller.
pub open spec fn is_smallest(s: Multiset<u64>, m: u64) -> bool {
    &&& s.count(m) > 0
    &&& forall|v: u64| s.count(v) > 0 ==> m <= v
}

/// `m` is a sample of `s` and no sample is larger.
pub open spec fn is_largest(s: Multiset<u64>, m: u64) -> bool {
    &&& s.count(m) > 0
    &&& forall|v: u64| s.count(v) > 0 ==> v <= m
}

/// The smallest sample of a non-empty multiset.
pub open spec fn smallest(s: Multiset<u64>) -> u64 {
    choose|m: u64| is_smallest(s, m)
}

/// The largest sample of a non-empty multiset.
pub open spec fn largest(s: Multiset<u64>) -> u64 {
    choose|m: u64| is_largest(s, m)
}

/// What `Histogram::min` reports of the samples `samples` of an auto-resizing
/// histogram with `sigfig` significant figures: 0 when there are none or one
/// of them is 0, otherwise the lowest value in the bucket of the smallest.
pub open spec fn min_report(samples: Multiset<u64>, sigfig: u8) -> u64 {
    if samples.len() == 0 || samples.count(0) > 0 {
        0
    } else {
        lowest_equivalent(smallest(samples) as nat, exact_limit(sigfig)) as u64
    }
}

/// What `Histogram::max` reports of the samples `samples` of an auto-resizing
/// histogram with `sigfig` significant figures: 0 when there are none,
/// otherwise the highest value in the bucket of the largest.
pub open spec fn max_report(samples: Multiset<u64>, sigfig: u8) -> u64 {
    if samples.len() == 0 {
        0
    } else {
        highest_equivalent(largest(samples) as nat, exact_limit(sigfig)) as u64
    }
}

/// `Histogram::min`: 0 when nothing or a 0 was recorded, otherwise the lowest
/// value equivalent to the smallest recorded sample.
#[verifier::external_body]
fn histogram_min(h: &SampleHistogram) -> (r: u64)
    ensures
        r == min_report(recorded(*h), sig_figures(*h)),
{
    h.hist.min()
}

/// `Histogram::max`: 0 when nothing was recorded, otherwise the highest value
/// equivalent to the largest recorded sample.
#[verifier::external_body]
fn histogram_max(h: &SampleHistogram) -> (r: u64)
    ensures
        r == max_report(recorded(*h), sig_figures(*h)),
{
    h.hist.max()
}

/// A non-empty multiset of samples has a smallest and a largest sample.
pub proof fn lemma_extremes_exist(s: Multiset<u64>)
    requires
        s.len() > 0,
    ensures
        is_smallest(s, smallest(s)),
        is_largest(s, largest(s)),
    decreases s.len(),
{
    broadcast use vstd::multiset::group_multiset_axioms;
    broadcast use vstd::multiset::group_multiset_properties;

    let x = s.choose();
    assert(s.count(x) > 0);
    let rest = s.remove(x);
    if rest.len() == 0 {
        assert(rest =~= Multiset::empty());
        assert forall|v: u64| s.count(v) > 0 implies v == x by {
            assert(rest.count(v) == 0);
        }
        assert(is_smallest(s, x));
        assert(is_largest(s, x));
    } else {
        lemma_extremes_exist(rest);
        let lo = smallest(rest);
        let hi = largest(rest);
        assert forall|v: u64| s.count(v) > 0 implies v == x || rest.count(v) > 0 by {
            if v != x {
                assert(rest.count(v) == s.count(v));
            }
        }
        assert(rest.count(lo) <= s.count(lo));
        assert(rest.count(hi) <= s.count(hi));
        if lo <= x {
            assert(is_smallest(s, lo));
        } else {
            assert(is_smallest(s, x));
        }
        if x <= hi {
            assert(is_largest(s, hi));
        } else {
            assert(is_largest(s, x));
        }
    }
}

/// The lowest equivalent value is at most the value, and is the value itself
/// below the limit.
pub proof fn lemma_lowest_equivalent(v: nat, limit: nat)
    ensures
        lowest_equivalent(v, limit) <= v,
        v < limit ==> lowest_equivalent(v, limit) == v,
    decreases v,
{
    if !(limit < 2 || v < limit) {
        lemma_lowest_equivalent(v / 2, limit);
    }
}

/// The highest equivalent value is at least the value, is the value itself
/// below the limit, and stays below any power of two above the value.
pub proof fn lemma_highest_equivalent(v: nat, limit: nat, k: nat)
    requires
        v < pow2(k),
    ensures
        v <= highest_equivalent(v, limit) < pow2(k),
        v < limit ==> highest_equivalent(v, limit) == v,
    decreases v,
{
    if !(limit < 2 || v < limit) {
        lemma2_to64();
        assert(k > 0);
        lemma_pow2_unfold(k);
        lemma_highest_equivalent(v / 2, limit, (k - 1) as nat);
    }
}

/// The mean that `Histogram::mean` computes, truncated to an integer, of an
/// auto-resizing histogram with `sigfig` significant figures holding the
/// samples `samples`: the average, in floating point, of the middle values of
/// the buckets that hold the samples. Such a histogram holds nothing but the
/// counts of its samples' buckets, so the mean depends on these alone.
pub uninterp spec fn mean_report(samples: Multiset<u64>, sigfig: u8) -> u64;

/// `Histogram::mean`, truncated to an integer: the mean report of the recorded
/// samples, which is 0 for an empty histogram. Its value otherwise, an average
/// computed in floating point, is not stated.
#[verifier::external_body]
fn histogram_mean(h: &SampleHistogram) -> (r: u64)
    ensures
        r == mean_report(recorded(*h), sig_figures(*h)),
        recorded(*h).len() == 0 ==> r == 0,
{
    h.hist.mean() as u64
}

/// `Histogram::reset`: forgets every sample; the configuration stays.
#[verifier::external_body]
fn histogram_reset(h: &mut SampleHistogram)
    ensures
        recorded(*final(h)) =~= Multiset::empty(),
        sig_figures(*final(h)) == sig_figures(*old(h)),
{
    h.hist.reset()
}

/// Magnitude and unit of a duration of `nanos` nanoseconds: whole seconds,
/// milliseconds or microseconds from the first threshold it reaches, else
/// nanoseconds.
pub open spec fn readable(nanos: u64) -> (u64, Seq<char>) {
    if nanos >= 1_000_000_000 {
        (nanos / 1_000_000_000, "s"@)
    } else if nanos >= 1_000_000 {
        (nanos / 1_000_000, "ms"@)
    } else if nanos >= 1_000 {
        (nanos / 1_000, "us"@)
    } else {
        (nanos, "ns"@)
    }
}

/// Nanoseconds in one of the units that `readable` gives.
pub open spec fn unit_nanos(unit: Seq<char>) -> nat {
    if unit == "s"@ {
        1_000_000_000
    } else if unit == "ms"@ {
        1_000_000
    } else if unit == "us"@ {
        1_000
    } else {
        1
    }
}

/// A readable duration is the duration in whole units of its unit, and the
/// unit is the largest one the duration reaches: the magnitude is at least 1
/// (for a duration other than 0) and, below seconds, under 1000.
pub proof fn lemma_readable_magnitude(n: u64)
    ensures
        readable(n).0 == (n as nat) / unit_nanos(readable(n).1),
        readable(n).1 == "s"@ || readable(n).1 == "ms"@ || readable(n).1 == "us"@
            || readable(n).1 == "ns"@,
        readable(n).1 != "s"@ ==> readable(n).0 < 1000,
        n > 0 ==> readable(n).0 >= 1,
{
    reveal_strlit("s");
    reveal_strlit("ms");
    reveal_strlit("us");
    reveal_strlit("ns");
    assert("ms"@.len() != "s"@.len());
    assert("us"@.len() != "s"@.len() && "us"@[0] != "ms"@[0]);
    assert("ns"@.len() != "s"@.len() && "ns"@[0] != "ms"@[0] && "ns"@[0] != "us"@[0]);
    if n >= 1_000_000_000 {
        assert(unit_nanos(readable(n).1) == 1_000_000_000);
    } else if n >= 1_000_000 {
        assert(unit_nanos(readable(n).1) == 1_000_000);
    } else if n >= 1_000 {
        assert(unit_nanos(readable(n).1) == 1_000);
    } else {
        assert(unit_nanos(readable(n).1) == 1);
    }
}

/// Which unit a duration is given in: seconds from one second up,
/// milliseconds from one millisecond up to a second, microseconds from one
/// microsecond up to a millisecond, nanoseconds below that.
pub proof fn lemma_readable_unit(n: u64)
    ensures
        n >= 1_000_000_000 ==> readable(n) == (n / 1_000_000_000, "s"@),
        1_000_000 <= n < 1_000_000_000 ==> readable(n) == (n / 1_000_000, "ms"@),
        1_000 <= n < 1_000_000 ==> readable(n) == (n / 1_000, "us"@),
        n < 1_000 ==> readable(n) == (n, "ns"@),
{
}

/// The lower bound that `Timer::min` reports of samples `s`.
pub open spec fn is_min_report(s: Multiset<u64>, m: u64) -> bool {
    &&& s.len() == 0 ==> m == 0
    &&& forall|v: u64| s.count(v) > 0 ==> m <= v
}

/// The upper bound that `Timer::max` reports of samples `s`.
pub open spec fn is_max_report(s: Multiset<u64>, m: u64) -> bool {
    &&& s.len() == 0 ==> m == 0
    &&& forall|v: u64| s.count(v) > 0 ==> v <= m
}

/// A recorded duration lies between the lower bound that `Timer::min`
/// reports and the upper bound that `Timer::max` reports.
pub proof fn lemma_sample_between_reports(s: Multiset<u64>, d: u64, lo: u64, hi: u64)
    requires
        s.count(d) > 0,
        is_min_report(s, lo),
        is_max_report(s, hi),
    ensures
        lo <= d <= hi,
{
}

/// After recording `d`, the timer's samples hold `d`, whatever they held.
pub proof fn lemma_update_records(s: Multiset<u64>, d: u64)
    ensures
        s.insert(d).count(d) > 0,
        s.insert(d).len() == s.len() + 1,
{
}

/// Converts a nanosecond count to a readable magnitude and unit.
pub fn time_to_readable(nano_seconds: u64) -> (r: (u64, String))
    ensures
        r.0 == readable(nano_seconds).0,
        r.1@ == readable(nano_seconds).1,
{
    let (time, unit) = if nano_seconds >= 1_000_000_000 {
        (nano_seconds / 1_000_000_000, "s")
    } else if nano_seconds >= 1_000_000 {
        (nano_seconds / 1_000_000, "ms")
    } else if nano_seconds >= 1_000 {
        (nano_seconds / 1_000, "us")
    } else {
        (nano_seconds, "ns")
    };
    (time, String::from_str(unit))
}

/// Significant figures of every timer's histogram.
pub const TIMER_SIG_FIGS: u8 = 2;

/// A histogram of durations, in nanoseconds.
pub struct Timer {
    hist: SampleHistogram,
}

/// What a timer reports, given the recorded durations and the exact limit
/// of its histogram: a minimum that is 0 without samples, at most every
/// sample, and below the limit the smallest sample.
pub open spec fn is_exact_min(s: Multiset<u64>, m: u64, limit: nat) -> bool {
    &&& is_min_report(s, m)
    &&& s.len() > 0 && all_below(s, limit) ==> s.count(m) > 0
}

/// A maximum that is 0 without samples, at least every sample, and below the
/// limit the largest sample.
pub open spec fn is_exact_max(s: Multiset<u64>, m: u64, limit: nat) -> bool {
    &&& is_max_report(s, m)
    &&& s.len() > 0 && all_below(s, limit) ==> s.count(m) > 0
}

impl Timer {
    /// The durations recorded since the timer was made or last reset.
    pub closed spec fn samples(&self) -> Multiset<u64> {
        recorded(self.hist)
    }

    /// The significant figures of the timer's histogram.
    pub closed spec fn precision(&self) -> u8 {
        sig_figures(self.hist)
    }

    /// An empty timer, two significant figures precise.
    pub fn new() -> (t: Self)
        ensures
            t.samples() =~= Multiset::empty(),
            t.precision() == TIMER_SIG_FIGS,
    {
        Timer { hist: histogram_new(TIMER_SIG_FIGS) }
    }

    /// Records a duration given in nanoseconds; the count is truncated to 64
    /// bits.
    pub fn update(&mut self, delta_nanos: u128)
        requires
            (delta_nanos as u64) <= max_trackable(),
        ensures
            final(self).samples() == old(self).samples().insert(delta_nanos as u64),
            final(self).precision() == old(self).precision(),
    {
        let delta = delta_nanos as u64;
        let r = histogram_record(&mut self.hist, delta);
        match r {
            Ok(()) => {},
            Err(_) => {},
        }
    }

    /// The minimum that the histogram reports, in readable form: 0 when nothing
    /// or a 0 was recorded, otherwise the lowest value in the bucket of the
    /// smallest duration, which below the exact limit is that duration.
    pub fn min(&self) -> (r: (u64, String))
        ensures
            r.0 == readable(min_report(self.samples(), self.precision())).0,
            r.1@ == readable(min_report(self.samples(), self.precision())).1,
            is_exact_min(self.samples(), min_report(self.samples(), self.precision()), exact_limit(self.precision())),
    {
        let m = histogram_min(&self.hist);
        proof {
            let s = self.samples();
            if s.len() > 0 && s.count(0) == 0 {
                lemma_extremes_exist(s);
                lemma_lowest_equivalent(smallest(s) as nat, exact_limit(self.precision()));
            }
        }
        time_to_readable(m)
    }

    /// The maximum that the histogram reports, in readable form: 0 when nothing
    /// was recorded, otherwise the highest value in the bucket of the largest
    /// duration, which below the exact limit is that duration.
    pub fn max(&self) -> (r: (u64, String))
        ensures
            r.0 == readable(max_report(self.samples(), self.precision())).0,
            r.1@ == readable(max_report(self.samples(), self.precision())).1,
            is_exact_max(self.samples(), max_report(self.samples(), self.precision()), exact_limit(self.precision())),
    {
        let m = histogram_max(&self.hist);
        proof {
            let s = self.samples();
            if s.len() > 0 {
                lemma_extremes_exist(s);
                lemma2_to64();
                lemma_highest_equivalent(largest(s) as nat, exact_limit(self.precision()), 64);
            }
        }
        time_to_readable(m)
    }

    /// The mean of the recorded durations (0 when there are none), in readable
    /// form.
    pub fn mean(&self) -> (r: (u64, String))
        ensures
            r.0 == readable(mean_report(self.samples(), self.precision())).0,
            r.1@ == readable(mean_report(self.samples(), self.precision())).1,
            self.samples().len() == 0 ==> r.0 == 0,
    {
        let m = histogram_mean(&self.hist);
        time_to_readable(m)
    }

    /// The mean of the recorded durations in nanoseconds (0 when there are
    /// none).
    pub fn raw_imean(&self) -> (r: u64)
        ensures
            r == mean_report(self.samples(), self.precision()),
            self.samples().len() == 0 ==> r == 0,
    {
        histogram_mean(&self.hist)
    }

    /// Forgets every recorded duration.
    pub fn reset(&mut self)
        ensures
            final(self).samples() =~= Multiset::empty(),
            final(self).precision() == old(self).precision(),
    {
        histogram_reset(&mut self.hist)
    }
}

impl Default for Timer {
    fn default() -> (t: Self)
        ensures
            t.samples() =~= Multiset::empty(),
            t.precision() == TIMER_SIG_FIGS,
    {
        Timer::new()
    }
}

} // verus!
