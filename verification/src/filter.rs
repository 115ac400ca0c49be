//! The clock filter algorithm of RFC 5905 (appendix A.5.2) and the peer
//! fitness checks that gate a peer's estimate.
//!
//! A peer keeps a register of its eight most recent observations. Each new
//! observation ages the stored ones, shifts the register, and re-derives the
//! peer's offset, delay, dispersion and jitter from a scratch copy of the
//! register sorted by round-trip delay. An acceptance gate then decides
//! whether the best candidate may replace the peer's current estimate.

use vstd::arithmetic::div_mod::{lemma_div_is_ordered, lemma_div_nonincreasing};
use vstd::prelude::*;

use crate::time::{
    ts_diff, NtpDuration, NtpLeapIndicator, NtpTimestamp, MAX_DISPERSION_UNITS,
    MIN_DISPERSION_UNITS,
};

verus! {

/// Frequency tolerance PHI of RFC 5905 (15 ppm), kept as the divisor 15*10^6:
/// elapsed time divided by this constant is the dispersion a clock may have
/// accumulated over that span.
pub const ONE_OVER_PHI: i64 = 15_000_000;

/// Distance threshold MAXDIST (one second) in units of 2^-32 s.
pub const MAX_DISTANCE_UNITS: i64 = 0x1_0000_0000;

/// The first invalid stratum number: a server at this stratum is
/// unsynchronized by protocol convention.
pub const MAX_STRATUM: u8 = 16;

/// Bound on the magnitude of an offset the filter accepts into its
/// statistics: 2^60 units, about 8.5 years. Within it, every intermediate
/// value of the jitter computation fits the machine integers used.
pub const OFFSET_LIMIT_UNITS: i64 = 0x1000_0000_0000_0000;

/// Whether `x` fits a signed 64-bit count.
pub open spec fn fits_i64(x: int) -> bool {
    i64::MIN <= x <= i64::MAX
}

/// Truncating (round-toward-zero) division, the behaviour of machine signed
/// division, for a positive divisor `d`.
pub open spec fn tdiv(a: int, d: int) -> int
    recommends
        d > 0,
{
    if a >= 0 {
        a / d
    } else {
        -((-a) / d)
    }
}

/// Truncating division of a fixed-point count by a positive divisor, with the
/// bounds that callers need to sum quotients without overflow.
fn tdiv_i64(a: i64, d: i64) -> (r: i64)
    requires
        1 <= d,
    ensures
        r == tdiv(a as int, d as int),
        -(0x8000_0000_0000_0000int / (d as int)) <= r <= 0x7FFF_FFFF_FFFF_FFFFint / (d as int),
{
    if a >= 0 {
        let q: u64 = (a as u64) / (d as u64);
        proof {
            lemma_div_is_ordered(a as int, 0x7FFF_FFFF_FFFF_FFFFint, d as int);
            lemma_div_nonincreasing(a as int, d as int);
        }
        q as i64
    } else {
        let m: u128 = (-(a as i128)) as u128;
        let q: u128 = m / (d as u128);
        proof {
            lemma_div_is_ordered(m as int, 0x8000_0000_0000_0000int, d as int);
            lemma_div_nonincreasing(m as int, d as int);
        }
        (-(q as i128)) as i64
    }
}

/// One observation of a peer: estimated clock offset, round-trip delay, the
/// sample's accumulated dispersion, and the local time of its arrival.
#[derive(Clone, Copy, PartialEq, Eq, Structural, Debug)]
pub struct FilterTuple {
    pub offset: NtpDuration,
    pub delay: NtpDuration,
    pub dispersion: NtpDuration,
    pub time: NtpTimestamp,
}

/// The distinguished value that marks a register slot holding no sample:
/// zero offset, the maximum delay and dispersion, and the era origin as time.
pub open spec fn dummy_tuple() -> FilterTuple {
    FilterTuple {
        offset: NtpDuration { raw: 0 },
        delay: NtpDuration { raw: MAX_DISPERSION_UNITS },
        dispersion: NtpDuration { raw: MAX_DISPERSION_UNITS },
        time: NtpTimestamp { raw: 0 },
    }
}

impl FilterTuple {
    /// The dummy value marking an empty register slot.
    pub fn dummy() -> (r: FilterTuple)
        ensures
            r == dummy_tuple(),
    {
        FilterTuple {
            offset: NtpDuration { raw: 0 },
            delay: NtpDuration { raw: MAX_DISPERSION_UNITS },
            dispersion: NtpDuration { raw: MAX_DISPERSION_UNITS },
            time: NtpTimestamp { raw: 0 },
        }
    }

    /// Whether this slot holds no sample.
    pub fn is_dummy(self) -> (r: bool)
        ensures
            r == (self == dummy_tuple()),
    {
        self == FilterTuple::dummy()
    }
}

/// `t` with its dispersion aged by `corr` units.
pub open spec fn aged(t: FilterTuple, corr: int) -> FilterTuple
    recommends
        fits_i64(t.dispersion.raw + corr),
{
    FilterTuple {
        offset: t.offset,
        delay: t.delay,
        dispersion: NtpDuration { raw: (t.dispersion.raw + corr) as i64 },
        time: t.time,
    }
}

/// The register after one update: the new tuple in front, every stored tuple
/// aged by `corr` and moved one slot toward the old end, the oldest dropped.
pub open spec fn shifted_register(reg: Seq<FilterTuple>, newest: FilterTuple, corr: int) -> Seq<
    FilterTuple,
> {
    Seq::new(8, |i: int| if i == 0 { newest } else { aged(reg[i - 1], corr) })
}

/// The per-peer register of the eight most recent observations, newest at
/// index 0.
#[derive(Clone, Copy, Debug)]
pub struct ClockFilterContents {
    pub register: [FilterTuple; 8],
}

impl ClockFilterContents {
    /// A register holding no samples: every slot dummy.
    pub fn new() -> (r: ClockFilterContents)
        ensures
            forall|i: int| 0 <= i < 8 ==> r.register@[i] == dummy_tuple(),
    {
        let r = ClockFilterContents { register: [FilterTuple::dummy();8] };
        proof {
            broadcast use vstd::array::group_array_axioms;

        }
        r
    }

    /// Insert the new tuple at index 0 and move every stored tuple one slot
    /// toward the old end, aging its dispersion by the given correction; the
    /// oldest tuple is discarded.
    pub fn shift_and_insert(&mut self, current: FilterTuple, dispersion_correction: NtpDuration)
        requires
            forall|i: int|
                0 <= i < 8 ==> fits_i64(
                    old(self).register@[i].dispersion.raw + dispersion_correction.raw,
                ),
        ensures
            final(self).register@ =~= shifted_register(
                old(self).register@,
                current,
                dispersion_correction.raw as int,
            ),
    {
        let mut cur = current;
        let mut i: usize = 0;
        while i < 8
            invariant
                0 <= i <= 8,
                forall|j: int|
                    0 <= j < 8 ==> fits_i64(
                        old(self).register@[j].dispersion.raw + dispersion_correction.raw,
                    ),
                forall|j: int|
                    i <= j < 8 ==> self.register@[j] == old(self).register@[j],
                forall|j: int|
                    0 <= j < i ==> self.register@[j] == shifted_register(
                        old(self).register@,
                        current,
                        dispersion_correction.raw as int,
                    )[j],
                cur == (if i == 0 {
                    current
                } else {
                    aged(old(self).register@[i - 1], dispersion_correction.raw as int)
                }),
            decreases 8 - i,
        {
            let t = self.register[i];
            let aged_t = FilterTuple {
                offset: t.offset,
                delay: t.delay,
                dispersion: NtpDuration { raw: t.dispersion.raw + dispersion_correction.raw },
                time: t.time,
            };
            self.register[i] = cur;
            cur = aged_t;
            i = i + 1;
        }
    }

    /// The tuples that hold samples: the prefix of the register before its
    /// trailing run of dummy slots. A dummy in front of a valid entry never
    /// arises from the shift model, but is tolerated and counted as valid.
    pub fn valid_tuples(&self) -> (r: Vec<FilterTuple>)
        ensures
            r@ == self.register@.subrange(0, valid_count(self.register@)),
            r@.len() == valid_count(self.register@),
            0 <= valid_count(self.register@) <= 8,
    {
        let mut n: usize = 8;
        while n > 0 && self.register[n - 1].is_dummy()
            invariant
                n <= 8,
                forall|j: int| n <= j < 8 ==> self.register@[j] == dummy_tuple(),
            decreases n,
        {
            n = n - 1;
        }
        proof {
            lemma_valid_count_char(self.register@, n as int);
        }
        let mut r: Vec<FilterTuple> = Vec::new();
        let mut i: usize = 0;
        while i < n
            invariant
                i <= n <= 8,
                self.register@.len() == 8,
                r@.len() == i,
                forall|j: int| 0 <= j < i ==> r@[j] == self.register@[j],
            decreases n - i,
        {
            r.push(self.register[i]);
            i = i + 1;
        }
        proof {
            assert(r@ =~= self.register@.subrange(0, valid_count(self.register@)));
        }
        r
    }

    /// The register's combined dispersion: the sum of each slot's dispersion
    /// divided by 2^(i+1), so that later (higher-delay, once sorted) slots
    /// count for ever less. Meaningful when the register is sorted by delay.
    pub fn dispersion(self) -> (r: NtpDuration)
        ensures
            r.raw == weighted_dispersion(self.register@),
    {
        let t0 = tdiv_i64(self.register[0].dispersion.raw, 2);
        let t1 = tdiv_i64(self.register[1].dispersion.raw, 4);
        let t2 = tdiv_i64(self.register[2].dispersion.raw, 8);
        let t3 = tdiv_i64(self.register[3].dispersion.raw, 16);
        let t4 = tdiv_i64(self.register[4].dispersion.raw, 32);
        let t5 = tdiv_i64(self.register[5].dispersion.raw, 64);
        let t6 = tdiv_i64(self.register[6].dispersion.raw, 128);
        let t7 = tdiv_i64(self.register[7].dispersion.raw, 256);
        NtpDuration { raw: t0 + t1 + t2 + t3 + t4 + t5 + t6 + t7 }
    }

    /// Sort the register ascending by delay. Slots of equal delay may come
    /// out in either order; the contents are preserved as a whole.
    pub fn sort_by_delay(&mut self)
        ensures
            final(self).register@.to_multiset() == old(self).register@.to_multiset(),
            sorted_by_delay(final(self).register@),
            final(self).register@.len() == 8,
    {
        broadcast use vstd::seq_lib::group_to_multiset_ensures;

        let mut rest: Vec<FilterTuple> = Vec::new();
        let mut i: usize = 0;
        while i < 8
            invariant
                i <= 8,
                rest@ == self.register@.subrange(0, i as int),
            decreases 8 - i,
        {
            rest.push(self.register[i]);
            i = i + 1;
        }
        proof {
            assert(rest@ =~= self.register@);
        }
        let ghost orig: Seq<FilterTuple> = self.register@;
        let mut out: Vec<FilterTuple> = Vec::new();
        while rest.len() > 0
            invariant
                out@.len() + rest@.len() == 8,
                out@.to_multiset().add(rest@.to_multiset()) =~= orig.to_multiset(),
                sorted_by_delay(out@),
                forall|a: int, b: int|
                    0 <= a < out@.len() && 0 <= b < rest@.len() ==> out@[a].delay.raw
                        <= rest@[b].delay.raw,
            decreases rest@.len(),
        {
            let mut m: usize = 0;
            let mut k: usize = 1;
            while k < rest.len()
                invariant
                    m < k <= rest@.len(),
                    forall|j: int| 0 <= j < k ==> rest@[m as int].delay.raw <= rest@[j].delay.raw,
                decreases rest@.len() - k,
            {
                if rest[k].delay.raw < rest[m].delay.raw {
                    m = k;
                }
                k = k + 1;
            }
            let ghost rest_before: Seq<FilterTuple> = rest@;
            let ghost out_before: Seq<FilterTuple> = out@;
            let t = rest.remove(m);
            out.push(t);
            proof {
                broadcast use vstd::multiset::group_multiset_axioms;
                broadcast use vstd::seq_lib::group_to_multiset_ensures;

                assert(rest_before[m as int] == t);
                assert(rest_before.contains(t));
                assert(rest_before.to_multiset().count(t) > 0);
                assert(out@ == out_before.push(t));
                assert(out_before.push(t).to_multiset() =~= out_before.to_multiset().insert(t));
                assert(out@.to_multiset() =~= out_before.to_multiset().insert(t));
                assert(rest@.to_multiset() =~= rest_before.to_multiset().remove(t));
                assert(out_before.to_multiset().insert(t).add(
                    rest_before.to_multiset().remove(t),
                ) =~= out_before.to_multiset().add(rest_before.to_multiset()));
                assert(out@.to_multiset().add(rest@.to_multiset()) =~= orig.to_multiset());
                assert(forall|b: int|
                    0 <= b < rest@.len() ==> t.delay.raw <= #[trigger] rest@[b].delay.raw) by {
                    assert(forall|b: int|
                        0 <= b < rest@.len() ==> #[trigger] rest@[b] == (if b < m {
                            rest_before[b]
                        } else {
                            rest_before[b + 1]
                        }));
                }
            }
        }
        let mut i: usize = 0;
        while i < 8
            invariant
                i <= 8,
                out@.len() == 8,
                out@.to_multiset() == orig.to_multiset(),
                sorted_by_delay(out@),
                forall|j: int| 0 <= j < i ==> self.register@[j] == out@[j],
            decreases 8 - i,
        {
            self.register[i] = out[i];
            i = i + 1;
        }
        proof {
            assert(self.register@ =~= out@);
        }
    }
}

/// Ascending by round-trip delay.
pub open spec fn sorted_by_delay(s: Seq<FilterTuple>) -> bool {
    forall|a: int, b: int| 0 <= a <= b < s.len() ==> s[a].delay.raw <= s[b].delay.raw
}

/// How many tuples of the register hold samples: its length minus the
/// trailing run of dummy slots.
pub open spec fn valid_count(s: Seq<FilterTuple>) -> int
    decreases s.len(),
{
    if s.len() == 0 {
        0
    } else if s.last() == dummy_tuple() {
        valid_count(s.drop_last())
    } else {
        s.len() as int
    }
}

/// `valid_count` is determined by where the trailing dummy run begins.
proof fn lemma_valid_count_char(s: Seq<FilterTuple>, n: int)
    requires
        0 <= n <= s.len(),
        forall|j: int| n <= j < s.len() ==> s[j] == dummy_tuple(),
        n > 0 ==> s[n - 1] != dummy_tuple(),
    ensures
        valid_count(s) == n,
    decreases s.len(),
{
    if s.len() == 0 {
    } else if n == s.len() {
    } else {
        assert(s.last() == dummy_tuple());
        lemma_valid_count_char(s.drop_last(), n);
    }
}

/// The process-wide synchronization context the filter reads: the local
/// clock's precision, the current poll interval, the system leap indicator
/// and the system's own reference identifier.
#[derive(Clone, Copy, Debug)]
pub struct System {
    pub precision: NtpDuration,
    pub poll: NtpDuration,
    pub leap_indicator: NtpLeapIndicator,
    pub reference_id: u8,
}

impl System {
    /// A neutral context: zero precision and poll, a synchronized leap
    /// indicator, reference id zero.
    pub fn dummy() -> (r: System)
        ensures
            r.precision.raw == 0,
            r.poll.raw == 0,
            r.leap_indicator == NtpLeapIndicator::NoWarning,
            r.reference_id == 0,
    {
        System {
            precision: NtpDuration { raw: 0 },
            poll: NtpDuration { raw: 0 },
            leap_indicator: NtpLeapIndicator::NoWarning,
            reference_id: 0,
        }
    }
}

/// The sum of the squared deviations of the first `n` offsets from `best`.
pub open spec fn offset_sq_sum(s: Seq<FilterTuple>, n: int, best: int) -> int
    decreases n,
{
    if n <= 0 {
        0
    } else {
        offset_sq_sum(s, n - 1, best) + (s[n - 1].offset.raw - best) * (s[n - 1].offset.raw - best)
    }
}

/// `r` is the floor of the square root of `x`.
pub open spec fn is_isqrt(x: int, r: int) -> bool {
    0 <= r && r * r <= x < (r + 1) * (r + 1)
}

/// The floor square root of a nonnegative value.
pub open spec fn isqrt(x: int) -> int {
    choose|r: int| is_isqrt(x, r)
}

/// The floor square root is unique.
proof fn lemma_isqrt_unique(x: int, a: int, b: int)
    requires
        is_isqrt(x, a),
        is_isqrt(x, b),
    ensures
        a == b,
{
    if a < b {
        assert((a + 1) * (a + 1) <= b * b) by (nonlinear_arith)
            requires
                0 <= a + 1 <= b,
        ;
    }
    if b < a {
        assert((b + 1) * (b + 1) <= a * a) by (nonlinear_arith)
            requires
                0 <= b + 1 <= a,
        ;
    }
}

/// Floor square root by bisection on the 64-bit result range.
fn isqrt_u128(x: u128) -> (r: u64)
    ensures
        is_isqrt(x as int, r as int),
        r as int == isqrt(x as int),
{
    let mut lo: u64 = 0;
    let mut hi: u128 = 0x1_0000_0000_0000_0000;
    proof {
        assert((0x1_0000_0000_0000_0000int) * (0x1_0000_0000_0000_0000int) > u128::MAX as int)
            by (nonlinear_arith);
    }
    while hi - (lo as u128) > 1
        invariant
            (lo as int) * (lo as int) <= x as int,
            (x as int) < (hi as int) * (hi as int),
            (lo as int) < (hi as int) <= 0x1_0000_0000_0000_0000int,
        decreases hi as int - lo as int,
    {
        let mid: u128 = ((lo as u128) + hi) / 2;
        proof {
            assert((lo as int) < (mid as int) < (hi as int));
            assert((mid as int) * (mid as int) <= (0xFFFF_FFFF_FFFF_FFFFint)
                * (0xFFFF_FFFF_FFFF_FFFFint)) by (nonlinear_arith)
                requires
                    0 <= mid as int <= 0xFFFF_FFFF_FFFF_FFFFint,
            ;
        }
        let sq: u128 = mid * mid;
        if sq <= x {
            lo = mid as u64;
        } else {
            hi = mid;
        }
    }
    proof {
        assert(hi as int == lo as int + 1);
        assert(is_isqrt(x as int, lo as int));
        assert(exists|r: int| is_isqrt(x as int, r));
        lemma_isqrt_unique(x as int, lo as int, isqrt(x as int));
    }
    lo
}

/// The jitter the filter derives from a register sorted by delay: the root
/// of the summed squared deviations of the valid offsets from the best
/// offset, divided by one less than the number of valid tuples (zero when
/// fewer than two are valid), floored at the clock precision.
pub open spec fn jitter_value(s: Seq<FilterTuple>, best: FilterTuple, precision: int) -> int {
    let n = valid_count(s);
    let root = isqrt(offset_sq_sum(s, n, best.offset.raw as int));
    let raw = if n >= 2 {
        root / (n - 1)
    } else {
        0
    };
    if raw >= precision {
        raw
    } else {
        precision
    }
}

impl ClockFilterContents {
    /// The register's jitter relative to `smallest_delay`, the tuple chosen
    /// as the peer's new offset/delay candidate. Deviations are taken over
    /// the valid tuples only; with fewer than two of them the statistic is
    /// zero. The result never reads below the clock's own precision.
    pub fn jitter(self, s: &System, smallest_delay: FilterTuple) -> (r: NtpDuration)
        requires
            forall|i: int|
                0 <= i < 8 ==> -OFFSET_LIMIT_UNITS <= #[trigger] self.register@[i].offset.raw
                    <= OFFSET_LIMIT_UNITS,
            -OFFSET_LIMIT_UNITS <= smallest_delay.offset.raw <= OFFSET_LIMIT_UNITS,
        ensures
            r.raw == jitter_value(self.register@, smallest_delay, s.precision.raw as int),
    {
        let reg = self.valid_tuples();
        let n = reg.len();
        let best: i64 = smallest_delay.offset.raw;
        let ghost sreg = self.register@;
        let mut sum: u128 = 0;
        let mut j: usize = 0;
        while j < n
            invariant
                j <= n,
                n == valid_count(sreg),
                n <= 8,
                sreg.len() == 8,
                reg@ == sreg.subrange(0, n as int),
                forall|i: int|
                    0 <= i < 8 ==> -OFFSET_LIMIT_UNITS <= #[trigger] sreg[i].offset.raw
                        <= OFFSET_LIMIT_UNITS,
                -OFFSET_LIMIT_UNITS <= best <= OFFSET_LIMIT_UNITS,
                sum == offset_sq_sum(sreg, j as int, best as int),
                sum <= (j as int) * (0x2000_0000_0000_0000int * 0x2000_0000_0000_0000int),
            decreases n - j,
        {
            let d: i128 = (reg[j].offset.raw as i128) - (best as i128);
            proof {
                assert(reg@[j as int] == sreg[j as int]);
                assert(0 <= d * d <= 0x2000_0000_0000_0000int * 0x2000_0000_0000_0000int)
                    by (nonlinear_arith)
                    requires
                        -0x2000_0000_0000_0000int <= d as int <= 0x2000_0000_0000_0000int,
                ;
            }
            let sq: i128 = d * d;
            sum = sum + (sq as u128);
            j = j + 1;
        }
        let root: u64 = isqrt_u128(sum);
        proof {
            assert(root as int * root as int <= sum);
            assert(root as int <= 0x7FFF_FFFF_FFFF_FFFFint) by (nonlinear_arith)
                requires
                    0 <= root as int,
                    root as int * root as int <= (8int) * (0x2000_0000_0000_0000int
                        * 0x2000_0000_0000_0000int),
            ;
        }
        let raw: u64 = if n >= 2 {
            let q = root / ((n - 1) as u64);
            proof {
                lemma_div_nonincreasing(root as int, n as int - 1);
            }
            q
        } else {
            0
        };
        let rawi: i64 = raw as i64;
        let res: i64 = if rawi >= s.precision.raw {
            rawi
        } else {
            s.precision.raw
        };
        NtpDuration { raw: res }
    }
}

/// One remote time source: its sample register, the epoch of the last
/// accepted sample, the current estimate and its confidence metrics, the
/// error bounds inherited from the peer's own upstream chain, and the
/// protocol state the fitness checks read.
#[derive(Clone, Copy, Debug)]
pub struct Peer {
    pub clock_filter: ClockFilterContents,
    pub t: NtpTimestamp,
    pub jitter: NtpDuration,
    pub offset: NtpDuration,
    pub delay: NtpDuration,
    pub dispersion: NtpDuration,
    pub root_delay: NtpDuration,
    pub root_dispersion: NtpDuration,
    pub burst_counter: u32,
    pub leap_indicator: NtpLeapIndicator,
    pub stratum: u8,
    pub reach: i32,
    pub reference_id: u8,
    pub destination_address: u8,
}

/// The local clock's current reading.
#[derive(Clone, Copy, Debug)]
pub struct LocalClock {
    pub t: NtpTimestamp,
}

/// The dispersion (in units of 2^-32 s) that every stored sample accrues
/// over the span from the peer's last update to the clock's present reading.
pub open spec fn aging_correction(c: LocalClock, p: Peer) -> int {
    tdiv(ts_diff(c.t.raw, p.t.raw), ONE_OVER_PHI as int)
}

/// What one register update must leave behind, stated against `sorted`: the
/// updated register as reordered ascending by delay. Slots of equal delay
/// may come out in either order, so `sorted` is quantified by the caller;
/// everything else is pinned down exactly.
pub open spec fn clock_filter_post(
    old_p: Peer,
    new_p: Peer,
    s: System,
    c: LocalClock,
    clock_offset: NtpDuration,
    roundtrip_delay: NtpDuration,
    dispersion: NtpDuration,
    sorted: Seq<FilterTuple>,
) -> bool {
    let newest = FilterTuple {
        offset: clock_offset,
        delay: roundtrip_delay,
        dispersion,
        time: c.t,
    };
    let shifted = shifted_register(old_p.clock_filter.register@, newest, aging_correction(c, old_p));
    let best = sorted[0];
    let new_jitter = jitter_value(sorted, best, s.precision.raw as int);
    let stale = ts_diff(best.time.raw, old_p.t.raw) <= 0 && s.leap_indicator.spec_is_synchronized();
    let spike = vstd::math::abs(best.offset.raw - old_p.offset.raw) > 3 * new_jitter && ts_diff(
        best.time.raw,
        old_p.t.raw,
    ) < 2 * s.poll.raw;
    &&& sorted.len() == 8
    &&& sorted.to_multiset() == shifted.to_multiset()
    &&& sorted_by_delay(sorted)
    &&& new_p.clock_filter.register@ == shifted
    &&& new_p.dispersion.raw == weighted_dispersion(sorted)
    &&& new_p.jitter.raw == new_jitter
    &&& (if stale || spike {
        new_p.offset == old_p.offset && new_p.delay == old_p.delay && new_p.t == old_p.t
    } else {
        new_p.offset == best.offset && new_p.delay == best.delay && new_p.t == best.time
    })
    &&& new_p.root_delay == old_p.root_delay
    &&& new_p.root_dispersion == old_p.root_dispersion
    &&& new_p.burst_counter == old_p.burst_counter
    &&& new_p.leap_indicator == old_p.leap_indicator
    &&& new_p.stratum == old_p.stratum
    &&& new_p.reach == old_p.reach
    &&& new_p.reference_id == old_p.reference_id
    &&& new_p.destination_address == old_p.destination_address
}

/// Feed one observation into the peer's register and re-derive its estimate:
/// the RFC 5905 clock_filter routine.
///
/// The stored samples age by the span since the last update divided by
/// ONE_OVER_PHI, the new tuple takes slot 0, and dispersion and jitter are
/// recomputed over a scratch copy sorted by delay - unconditionally. The
/// offset, delay and epoch move to the lowest-delay candidate only when the
/// acceptance gate passes: the candidate's epoch must be strictly later than
/// the last accepted one (unless the system has never synchronized), and a
/// jump beyond three times the jitter arriving within two poll intervals is
/// dumped as a popcorn spike. A caller that sees the epoch advance outside a
/// burst should schedule a new peer-selection pass; that hook is outside
/// this routine.
///
/// The bounds required of the stored offsets and dispersions are machine
/// limits: they keep every intermediate fixed-point value inside 64 bits.
pub fn clock_filter(
    peer: &mut Peer,
    s: &System,
    c: &LocalClock,
    clock_offset: NtpDuration,
    roundtrip_delay: NtpDuration,
    dispersion: NtpDuration,
)
    requires
        forall|i: int|
            0 <= i < 8 ==> fits_i64(
                old(peer).clock_filter.register@[i].dispersion.raw + aging_correction(
                    *c,
                    *old(peer),
                ),
            ),
        forall|i: int|
            0 <= i < 8 ==> -OFFSET_LIMIT_UNITS <= #[trigger] old(
                peer,
            ).clock_filter.register@[i].offset.raw <= OFFSET_LIMIT_UNITS,
        -OFFSET_LIMIT_UNITS <= clock_offset.raw <= OFFSET_LIMIT_UNITS,
    ensures
        exists|sorted: Seq<FilterTuple>|
            #[trigger] clock_filter_post(
                *old(peer),
                *final(peer),
                *s,
                *c,
                clock_offset,
                roundtrip_delay,
                dispersion,
                sorted,
            ),
{
    let new_tuple = FilterTuple {
        offset: clock_offset,
        delay: roundtrip_delay,
        dispersion,
        time: c.t,
    };
    let elapsed = c.t.difference(peer.t);
    let correction = NtpDuration { raw: tdiv_i64(elapsed.raw, ONE_OVER_PHI) };
    peer.clock_filter.shift_and_insert(new_tuple, correction);
    let ghost shifted = peer.clock_filter.register@;

    let mut temporary_list = peer.clock_filter;
    temporary_list.sort_by_delay();
    let smallest_delay = temporary_list.register[0];
    proof {
        broadcast use vstd::seq_lib::group_to_multiset_ensures;

        assert forall|i: int| 0 <= i < 8 implies -OFFSET_LIMIT_UNITS
            <= #[trigger] temporary_list.register@[i].offset.raw <= OFFSET_LIMIT_UNITS by {
            let t = temporary_list.register@[i];
            assert(temporary_list.register@.contains(t));
            assert(temporary_list.register@.to_multiset().count(t) > 0);
            assert(shifted.contains(t));
            let j = choose|j: int| 0 <= j < shifted.len() && shifted[j] == t;
            if j == 0 {
                assert(t == new_tuple);
            } else {
                assert(t.offset == old(peer).clock_filter.register@[j - 1].offset);
            }
        }
    }
    peer.dispersion = temporary_list.dispersion();
    peer.jitter = temporary_list.jitter(s, smallest_delay);

    let stale_span = smallest_delay.time.difference(peer.t);
    if stale_span.raw <= 0 && s.leap_indicator.is_synchronized() {
        proof {
            assert(clock_filter_post(
                *old(peer),
                *peer,
                *s,
                *c,
                clock_offset,
                roundtrip_delay,
                dispersion,
                temporary_list.register@,
            ));
        }
        return ;
    }
    let delta: i128 = (smallest_delay.offset.raw as i128) - (peer.offset.raw as i128);
    let abs_delta: i128 = if delta >= 0 {
        delta
    } else {
        -delta
    };
    let too_soon: bool = (stale_span.raw as i128) < 2 * (s.poll.raw as i128);
    if abs_delta > 3 * (peer.jitter.raw as i128) && too_soon {
        proof {
            assert(clock_filter_post(
                *old(peer),
                *peer,
                *s,
                *c,
                clock_offset,
                roundtrip_delay,
                dispersion,
                temporary_list.register@,
            ));
        }
        return ;
    }
    peer.offset = smallest_delay.offset;
    peer.delay = smallest_delay.delay;
    peer.t = smallest_delay.time;
    proof {
        assert(clock_filter_post(
            *old(peer),
            *peer,
            *s,
            *c,
            clock_offset,
            roundtrip_delay,
            dispersion,
            temporary_list.register@,
        ));
    }
}

/// Why a peer's current estimate may not be used.
#[derive(Clone, Copy, PartialEq, Eq, Structural, Debug)]
pub enum FitError {
    StratumNotSynchronized,
    ServerStratumInvalid,
    Distance,
    Loop,
    Unreachable,
}

/// `x` clamped to the signed 64-bit range.
pub open spec fn clamp_i64(x: int) -> int {
    if x > i64::MAX {
        i64::MAX as int
    } else if x < i64::MIN {
        i64::MIN as int
    } else {
        x
    }
}

/// The peer's root synchronization distance: half the total delay (floored
/// at MINDISP) plus total dispersion, the dispersion accrued since the last
/// update, and the peer jitter - its worst-case error against the primary
/// reference.
pub open spec fn root_distance_value(p: Peer, c: LocalClock) -> int {
    let total_delay = p.root_delay.raw + p.delay.raw;
    let floored = if MIN_DISPERSION_UNITS as int >= total_delay {
        MIN_DISPERSION_UNITS as int
    } else {
        total_delay
    };
    floored / 2 + p.root_dispersion.raw + p.dispersion.raw + aging_correction(c, p) + p.jitter.raw
}

/// The root synchronization distance, clamped to the 64-bit fixed-point
/// range. Clamping cannot change the outcome of the fitness comparison,
/// whose threshold lies far inside that range.
pub fn root_distance(p: &Peer, c: &LocalClock) -> (r: NtpDuration)
    ensures
        r.raw == clamp_i64(root_distance_value(*p, *c)),
{
    let total_delay: i128 = (p.root_delay.raw as i128) + (p.delay.raw as i128);
    let floored: i128 = if (MIN_DISPERSION_UNITS as i128) >= total_delay {
        MIN_DISPERSION_UNITS as i128
    } else {
        total_delay
    };
    let half: i128 = ((floored as u128) / 2) as i128;
    let aging: i64 = tdiv_i64(c.t.difference(p.t).raw, ONE_OVER_PHI);
    let sum: i128 = half + (p.root_dispersion.raw as i128) + (p.dispersion.raw as i128) + (
    aging as i128) + (p.jitter.raw as i128);
    let raw: i64 = if sum > (i64::MAX as i128) {
        i64::MAX
    } else if sum < (i64::MIN as i128) {
        i64::MIN
    } else {
        sum as i64
    };
    NtpDuration { raw }
}

/// The fitness verdict on a peer: the first failed check, in the fixed
/// order synchronization, stratum, distance, loop, reachability.
pub open spec fn fit_spec(p: Peer, s: System, c: LocalClock) -> Result<(), FitError> {
    if !p.leap_indicator.spec_is_synchronized() {
        Err(FitError::StratumNotSynchronized)
    } else if p.stratum >= MAX_STRATUM {
        Err(FitError::ServerStratumInvalid)
    } else if root_distance_value(p, c) > MAX_DISTANCE_UNITS + tdiv(
        s.poll.raw as int,
        ONE_OVER_PHI as int,
    ) {
        Err(FitError::Distance)
    } else if p.reference_id == p.destination_address || p.reference_id == s.reference_id {
        Err(FitError::Loop)
    } else if p.reach == 0 {
        Err(FitError::Unreachable)
    } else {
        Ok(())
    }
}

/// Decide whether the peer's estimate is fit to steer the local clock,
/// short-circuiting on the first failure: the peer must report itself
/// synchronized, carry a valid stratum, lie within the distance threshold
/// (MAXDIST plus one poll interval's worth of dispersion), not form a
/// synchronization loop with us, and have been reached recently.
pub fn check_fitness(p: &Peer, s: &System, c: &LocalClock) -> (r: Result<(), FitError>)
    ensures
        r == fit_spec(*p, *s, *c),
{
    if !p.leap_indicator.is_synchronized() {
        return Err(FitError::StratumNotSynchronized);
    }
    if p.stratum >= MAX_STRATUM {
        return Err(FitError::ServerStratumInvalid);
    }
    let rd = root_distance(p, c);
    let threshold: i64 = MAX_DISTANCE_UNITS + tdiv_i64(s.poll.raw, ONE_OVER_PHI);
    if rd.raw > threshold {
        return Err(FitError::Distance);
    }
    if p.reference_id == p.destination_address || p.reference_id == s.reference_id {
        return Err(FitError::Loop);
    }
    if p.reach == 0 {
        return Err(FitError::Unreachable);
    }
    Ok(())
}

/// The register's dispersion as a weighted sum over its eight slots.
pub open spec fn weighted_dispersion(s: Seq<FilterTuple>) -> int
    recommends
        s.len() == 8,
{
    tdiv(s[0].dispersion.raw as int, 2) + tdiv(s[1].dispersion.raw as int, 4) + tdiv(
        s[2].dispersion.raw as int,
        8,
    ) + tdiv(s[3].dispersion.raw as int, 16) + tdiv(s[4].dispersion.raw as int, 32) + tdiv(
        s[5].dispersion.raw as int,
        64,
    ) + tdiv(s[6].dispersion.raw as int, 128) + tdiv(s[7].dispersion.raw as int, 256)
}


/// A peer that reports itself synchronized but advertises stratum 16 or
/// above is rejected as `ServerStratumInvalid`, whatever its other fields.
/// (A peer that does not report itself synchronized fails the earlier
/// `StratumNotSynchronized` check instead.)
pub proof fn lemma_fitness_rejects_invalid_stratum(p: Peer, s: System, c: LocalClock)
    requires
        p.leap_indicator.spec_is_synchronized(),
        p.stratum >= MAX_STRATUM,
    ensures
        fit_spec(p, s, c) == Err::<(), FitError>(FitError::ServerStratumInvalid),
{
}

/// A peer that passes every other check but has an empty reachability
/// register is rejected as `Unreachable`.
pub proof fn lemma_fitness_rejects_unreachable(p: Peer, s: System, c: LocalClock)
    requires
        p.leap_indicator.spec_is_synchronized(),
        p.stratum < MAX_STRATUM,
        root_distance_value(p, c) <= MAX_DISTANCE_UNITS + tdiv(
            s.poll.raw as int,
            ONE_OVER_PHI as int,
        ),
        p.reference_id != p.destination_address,
        p.reference_id != s.reference_id,
        p.reach == 0,
    ensures
        fit_spec(p, s, c) == Err::<(), FitError>(FitError::Unreachable),
{
}

/// A best candidate whose epoch is not strictly later than the peer's last
/// accepted sample, while the system reports synchronized, leaves the
/// peer's offset, delay and epoch untouched; its dispersion and jitter are
/// still refreshed from the updated register.
pub proof fn lemma_stale_sample_holds_estimate(
    old_p: Peer,
    new_p: Peer,
    s: System,
    c: LocalClock,
    clock_offset: NtpDuration,
    roundtrip_delay: NtpDuration,
    dispersion: NtpDuration,
    sorted: Seq<FilterTuple>,
)
    requires
        clock_filter_post(old_p, new_p, s, c, clock_offset, roundtrip_delay, dispersion, sorted),
        ts_diff(sorted[0].time.raw, old_p.t.raw) <= 0,
        s.leap_indicator.spec_is_synchronized(),
    ensures
        new_p.offset == old_p.offset,
        new_p.delay == old_p.delay,
        new_p.t == old_p.t,
        new_p.dispersion.raw == weighted_dispersion(sorted),
        new_p.jitter.raw == jitter_value(sorted, sorted[0], s.precision.raw as int),
{
}

/// An offset jump beyond three times the new jitter whose sample arrives
/// within two poll intervals of the previous accepted one is dumped as a
/// popcorn spike: offset, delay and epoch stay.
pub proof fn lemma_popcorn_spike_suppressed(
    old_p: Peer,
    new_p: Peer,
    s: System,
    c: LocalClock,
    clock_offset: NtpDuration,
    roundtrip_delay: NtpDuration,
    dispersion: NtpDuration,
    sorted: Seq<FilterTuple>,
)
    requires
        clock_filter_post(old_p, new_p, s, c, clock_offset, roundtrip_delay, dispersion, sorted),
        vstd::math::abs(sorted[0].offset.raw - old_p.offset.raw) > 3 * jitter_value(
            sorted,
            sorted[0],
            s.precision.raw as int,
        ),
        ts_diff(sorted[0].time.raw, old_p.t.raw) < 2 * s.poll.raw,
    ensures
        new_p.offset == old_p.offset,
        new_p.delay == old_p.delay,
        new_p.t == old_p.t,
{
}

/// The same jump, arriving with a strictly later epoch at least two poll
/// intervals after the previous accepted sample, goes through: the best
/// candidate becomes the peer's estimate.
pub proof fn lemma_late_jump_accepted(
    old_p: Peer,
    new_p: Peer,
    s: System,
    c: LocalClock,
    clock_offset: NtpDuration,
    roundtrip_delay: NtpDuration,
    dispersion: NtpDuration,
    sorted: Seq<FilterTuple>,
)
    requires
        clock_filter_post(old_p, new_p, s, c, clock_offset, roundtrip_delay, dispersion, sorted),
        vstd::math::abs(sorted[0].offset.raw - old_p.offset.raw) > 3 * jitter_value(
            sorted,
            sorted[0],
            s.precision.raw as int,
        ),
        ts_diff(sorted[0].time.raw, old_p.t.raw) > 0,
        ts_diff(sorted[0].time.raw, old_p.t.raw) >= 2 * s.poll.raw,
    ensures
        new_p.offset == sorted[0].offset,
        new_p.delay == sorted[0].delay,
        new_p.t == sorted[0].time,
{
}

} // verus!
