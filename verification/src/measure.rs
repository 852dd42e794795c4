//! Numbers that stand for measurements.
use vstd::prelude::*;

verus! {

/// A real number as an ordered key: the integer whose bits are those of the number in
/// double precision, with all bits but the sign flipped where the number is negative.
/// Keys compare as the numbers do, and every number has its own key.
pub type Measure = i64;

/// The key of 0.
pub const MEASURE_0: Measure = 0;

/// The key of 0.65 in single precision.
pub const MEASURE_0_65: Measure = 0x3fe4_cccc_c000_0000;

/// The key of 0.7 in single precision.
pub const MEASURE_0_70: Measure = 0x3fe6_6666_6000_0000;

/// The key of 0.85 in single precision.
pub const MEASURE_0_85: Measure = 0x3feb_3333_4000_0000;

/// The key of 0.9 in single precision.
pub const MEASURE_0_90: Measure = 0x3fec_cccc_c000_0000;

/// The key of 0.95 in single precision.
pub const MEASURE_0_95: Measure = 0x3fee_6666_6000_0000;

/// The key of 1.
pub const MEASURE_1: Measure = 0x3ff0_0000_0000_0000;

/// The key of 45.
pub const MEASURE_45: Measure = 0x4046_8000_0000_0000;

/// The key of 0.1.
pub const MEASURE_0_10: Measure = 0x3fb9_9999_9999_999a;

/// The key of 0.12.
pub const MEASURE_0_12: Measure = 0x3fbe_b851_eb85_1eb8;

/// The key of 0.35.
pub const MEASURE_0_35: Measure = 0x3fd6_6666_6666_6666;

/// The key of 0.75.
pub const MEASURE_0_75: Measure = 0x3fe8_0000_0000_0000;

/// The key of 2.
pub const MEASURE_2: Measure = 0x4000_0000_0000_0000;

/// The key of 4.
pub const MEASURE_4: Measure = 0x4010_0000_0000_0000;

/// The key of 18.
pub const MEASURE_18: Measure = 0x4032_0000_0000_0000;

/// The key of 36.
pub const MEASURE_36: Measure = 0x4042_0000_0000_0000;

/// The key of 520.
pub const MEASURE_520: Measure = 0x4080_4000_0000_0000;

/// The key of infinity.
pub const MEASURE_INFINITY: Measure = 0x7ff0_0000_0000_0000;

/// The key of 0.42 in single precision.
pub const MEASURE_0_42: Measure = 0x3fda_e147_a000_0000;

/// The key of -100.
pub const MEASURE_MINUS_100: Measure = -0x4059_0000_0000_0001;

/// The smaller of two measures.
pub open spec fn smaller(a: Measure, b: Measure) -> Measure {
    if b < a {
        b
    } else {
        a
    }
}

/// Computes [`smaller`].
pub fn least(a: Measure, b: Measure) -> (r: Measure)
    ensures
        r == smaller(a, b),
{
    if b < a {
        b
    } else {
        a
    }
}

/// The key of the number with the opposite sign.
pub open spec fn opposite(m: Measure) -> Measure {
    (-1 - m) as i64
}

/// Computes [`opposite`].
pub fn negate(m: Measure) -> (r: Measure)
    ensures
        r == opposite(m),
{
    -1 - m
}

/// The key of a number without its sign.
pub open spec fn magnitude(m: Measure) -> Measure {
    if m < 0 {
        opposite(m)
    } else {
        m
    }
}

/// Computes [`magnitude`].
pub fn without_sign(m: Measure) -> (r: Measure)
    ensures
        r == magnitude(m),
{
    if m < 0 {
        -1 - m
    } else {
        m
    }
}

/// Whether a number is smaller than another. The two zeros are the same number.
pub open spec fn less(a: Measure, b: Measure) -> bool {
    a < b && !(a == -1 && b == 0)
}

/// Computes [`less`].
pub fn is_less(a: Measure, b: Measure) -> (r: bool)
    ensures
        r == less(a, b),
{
    a < b && !(a == -1 && b == 0)
}

/// A significand below 2 to the 53rd, doubled until it has 53 binary digits, and its exponent.
pub open spec fn normalized(s: int, k: int) -> (int, int)
    decreases 0x20_0000_0000_0000 - s,
{
    if s <= 0 || s >= 0x10_0000_0000_0000 {
        (s, k)
    } else {
        normalized(2 * s, k - 1)
    }
}

/// The bits of a number with a significand of 53 binary digits.
pub open spec fn packed(s: int, k: int) -> int {
    (1022 + k) * 0x10_0000_0000_0000 + s
}

fn normalize(s: u64, k: i64) -> (r: (u64, i64))
    requires
        0 < s < 0x20_0000_0000_0000,
        -1000 <= k <= 1000,
    ensures
        (r.0 as int, r.1 as int) == normalized(s as int, k as int),
        0x10_0000_0000_0000 <= r.0 < 0x20_0000_0000_0000,
        k - 52 <= r.1 <= k,
{
    let mut t: u64 = s;
    let mut e: i64 = k;
    let ghost mut p: int = 1;
    while t < 0x10_0000_0000_0000
        invariant
            0 < s,
            0 < t < 0x20_0000_0000_0000,
            -1000 <= k <= 1000,
            k - 52 <= e <= k,
            p <= t,
            pow_of(k - e) == p,
            normalized(t as int, e as int) == normalized(s as int, k as int),
        decreases 0x20_0000_0000_0000 - t,
    {
        proof {
            lemma_pow_of(k - e);
            p = 2 * p;
        }
        t = 2 * t;
        e = e - 1;
    }
    (t, e)
}

/// Two to a power.
spec fn pow_of(e: int) -> int
    decreases e,
{
    if e <= 0 {
        1
    } else {
        2 * pow_of(e - 1)
    }
}

proof fn lemma_pow_of(e: int)
    requires
        pow_of(e) < 0x10_0000_0000_0000,
    ensures
        e < 52,
{
    if e >= 52 {
        lemma_pow_grows(e);
    }
}

proof fn lemma_pow_grows(e: int)
    requires
        e >= 52,
    ensures
        pow_of(e) >= 0x10_0000_0000_0000,
    decreases e,
{
    if e > 52 {
        lemma_pow_grows(e - 1);
    } else {
        assert(pow_of(52) == 0x10_0000_0000_0000) by {
            reveal_with_fuel(pow_of, 54);
        }
    }
}

/// The power of two by which a whole number is divided to have at most 53 binary digits, and
/// the exponent that makes up for it.
pub open spec fn coarseness(n: int, d: int, k: int) -> (int, int)
    decreases 2 * n - d,
{
    if d <= 0 || d > n || n / d < 0x20_0000_0000_0000 {
        (d, k)
    } else {
        coarseness(n, 2 * d, k + 1)
    }
}

/// The bits of a whole number above zero, rounded to 53 binary digits, and to an even number
/// where two are equally near.
pub open spec fn whole_bits(n: int) -> int {
    let (d, k) = coarseness(n, 1, 52);
    let up = 2 * (n % d) > d || (2 * (n % d) == d && (n / d) % 2 == 1);
    if d == 1 {
        let (s, e) = normalized(n, 52);
        packed(s, e)
    } else {
        packed(
            n / d + if up {
                1int
            } else {
                0
            },
            k,
        )
    }
}

/// The key of a whole number in double precision.
pub open spec fn whole_measure(n: int) -> int {
    if n == 0 {
        0
    } else if n > 0 {
        whole_bits(n)
    } else {
        -1 - whole_bits(-n)
    }
}

fn pack_whole(n: u64) -> (r: i64)
    requires
        0 < n,
    ensures
        r == whole_bits(n as int),
        r >= 0,
{
    if n < 0x20_0000_0000_0000 {
        let (s, k) = normalize(n, 52);
        return (1022 + k) * 0x10_0000_0000_0000 + s as i64;
    }
    let mut d: u64 = 1;
    let mut k: i64 = 52;
    while n / d >= 0x20_0000_0000_0000
        invariant
            0x20_0000_0000_0000 <= n,
            1 <= d <= 0x1000,
            52 <= k,
            pow_of(k - 52) == d,
            coarseness(n as int, d as int, k as int) == coarseness(n as int, 1, 52),
        decreases 0x1000 - d,
    {
        assert(d < 0x800) by (nonlinear_arith)
            requires
                n <= 0xffff_ffff_ffff_ffff,
                n / d >= 0x20_0000_0000_0000,
                d >= 1,
        ;
        proof {
            lemma_pow_of(k - 52);
        }
        d = 2 * d;
        k = k + 1;
    }
    let q = n / d;
    let rest = n % d;
    assert(0 <= rest < d);
    let up = 2 * rest > d || (2 * rest == d && q % 2 == 1);
    let s: i64 = if up {
        q as i64 + 1
    } else {
        q as i64
    };
    proof {
        lemma_pow_of(k - 52);
        assert(n / 1 == n);
    }
    (1022 + k) * 0x10_0000_0000_0000 + s
}

/// Computes [`whole_measure`] of a count.
pub fn measure_of_count(n: usize) -> (r: Measure)
    ensures
        r == whole_measure(n as int),
{
    if n == 0 {
        0
    } else {
        pack_whole(n as u64)
    }
}

/// Computes [`whole_measure`].
pub fn measure_of_integer(n: i64) -> (r: Measure)
    ensures
        r == whole_measure(n as int),
{
    if n == 0 {
        0
    } else if n > 0 {
        pack_whole(n as u64)
    } else if n == i64::MIN {
        -1 - pack_whole(0x8000_0000_0000_0000)
    } else {
        -1 - pack_whole((-n) as u64)
    }
}

/// The bits in double precision of the number without sign whose bits in single precision
/// are given.
pub open spec fn widened(bits: int) -> int {
    if bits == 0 {
        0
    } else if bits < 0x80_0000 {
        let (s, k) = normalized(bits, 52);
        packed(s, k - 149)
    } else if bits < 0x7f80_0000 {
        896 * 0x10_0000_0000_0000 + bits * 0x2000_0000
    } else {
        1792 * 0x10_0000_0000_0000 + bits * 0x2000_0000
    }
}

/// The key of the number whose bits in single precision are given.
pub open spec fn single_measure(bits: u32) -> int {
    if bits < 0x8000_0000 {
        widened(bits as int)
    } else {
        -1 - widened(bits - 0x8000_0000)
    }
}

fn widen(bits: u32) -> (r: i64)
    requires
        bits < 0x8000_0000,
    ensures
        r == widened(bits as int),
        r >= 0,
{
    if bits == 0 {
        0
    } else if bits < 0x80_0000 {
        let (s, k) = normalize(bits as u64, 52);
        (1022 + (k - 149)) * 0x10_0000_0000_0000 + s as i64
    } else if bits < 0x7f80_0000 {
        896 * 0x10_0000_0000_0000 + bits as i64 * 0x2000_0000
    } else {
        1792 * 0x10_0000_0000_0000 + bits as i64 * 0x2000_0000
    }
}

/// Computes [`single_measure`].
pub fn measure_of_single(bits: u32) -> (r: Measure)
    ensures
        r == single_measure(bits),
{
    if bits < 0x8000_0000 {
        widen(bits)
    } else {
        -1 - widen(bits - 0x8000_0000)
    }
}

/// Where the first measure from `from` on stands that is above `m`.
pub open spec fn measure_place(list: Seq<Measure>, m: Measure, from: int) -> int
    decreases list.len() - from,
{
    if 0 <= from < list.len() && list[from] <= m {
        measure_place(list, m, from + 1)
    } else {
        from
    }
}

/// The first `n` measures, sorted.
pub open spec fn sorted_measures(list: Seq<Measure>, n: int) -> Seq<Measure>
    decreases n,
{
    if n <= 0 {
        seq![]
    } else {
        let before = sorted_measures(list, n - 1);
        before.insert(measure_place(before, list[n - 1], 0), list[n - 1])
    }
}

/// The middle one of the sorted measures; of two, the larger.
pub open spec fn median(list: Seq<Measure>) -> Option<Measure> {
    let sorted = sorted_measures(list, list.len() as int);
    if list.len() == 0 {
        None
    } else {
        Some(sorted[list.len() as int / 2])
    }
}

proof fn lemma_measure_place(list: Seq<Measure>, m: Measure, from: int)
    requires
        0 <= from <= list.len(),
    ensures
        from <= measure_place(list, m, from) <= list.len(),
        forall|i: int| from <= i < measure_place(list, m, from) ==> #[trigger] list[i] <= m,
        measure_place(list, m, from) < list.len() ==> list[measure_place(list, m, from)] > m,
    decreases list.len() - from,
{
    if from < list.len() && list[from] <= m {
        lemma_measure_place(list, m, from + 1);
    }
}

/// The measures of which the middle one is taken are those given, in ascending order.
pub proof fn law_sorted_measures(list: Seq<Measure>)
    ensures
        ({
            let sorted = sorted_measures(list, list.len() as int);
            &&& sorted.to_multiset() == list.to_multiset()
            &&& forall|i: int, j: int|
                0 <= i <= j < sorted.len() ==> #[trigger] sorted[i] <= #[trigger] sorted[j]
        }),
{
    lemma_sorted_measures(list, list.len() as int);
    assert(list.take(list.len() as int) =~= list);
}

proof fn lemma_sorted_measures(list: Seq<Measure>, n: int)
    requires
        0 <= n <= list.len(),
    ensures
        sorted_measures(list, n).len() == n,
        sorted_measures(list, n).to_multiset() == list.take(n).to_multiset(),
        forall|i: int, j: int|
            0 <= i <= j < n ==> #[trigger] sorted_measures(list, n)[i]
                <= #[trigger] sorted_measures(list, n)[j],
    decreases n,
{
    broadcast use vstd::seq_lib::group_to_multiset_ensures;

    if n <= 0 {
        assert(sorted_measures(list, n) =~= list.take(n));
    } else {
        lemma_sorted_measures(list, n - 1);
        let before = sorted_measures(list, n - 1);
        let m = list[n - 1];
        lemma_measure_place(before, m, 0);
        assert(list.take(n) =~= list.take(n - 1).push(m));
    }
}

/// Computes [`median`].
pub fn middle(list: &Vec<Measure>) -> (r: Option<Measure>)
    ensures
        r == median(list@),
{
    let mut sorted: Vec<Measure> = Vec::new();
    for n in 0..list.len()
        invariant
            sorted@ == sorted_measures(list@, n as int),
            sorted@.len() == n,
    {
        let m = list[n];
        let mut i: usize = 0;
        while i < sorted.len() && sorted[i] <= m
            invariant
                i <= sorted@.len(),
                measure_place(sorted@, m, i as int) == measure_place(sorted@, m, 0),
            decreases sorted@.len() - i,
        {
            i += 1;
        }
        sorted.insert(i, m);
    }
    if list.len() == 0 {
        None
    } else {
        Some(sorted[list.len() / 2])
    }
}

/// A part of a whole.
#[derive(Debug, Clone, Copy, PartialEq, Eq, Structural)]
pub struct Ratio {
    pub part: usize,
    pub whole: usize,
}

impl DeepView for Ratio {
    type V = Ratio;

    open spec fn deep_view(&self) -> Ratio {
        *self
    }
}

/// A ratio in hundredths.
pub open spec fn hundredths(n: usize) -> Ratio {
    Ratio { part: n, whole: 100 }
}

/// Whether a ratio reaches a number of hundredths.
pub open spec fn reaches(r: Ratio, n: nat) -> bool {
    r.part * 100 >= n * r.whole
}

impl Ratio {
    /// A ratio in hundredths.
    pub fn of_hundred(n: usize) -> (r: Ratio)
        ensures
            r == hundredths(n),
    {
        Ratio { part: n, whole: 100 }
    }

    /// Whether a ratio reaches a number of hundredths.
    pub fn at_least(&self, n: u8) -> (r: bool)
        ensures
            r == reaches(*self, n as nat),
    {
        let whole: u128 = self.whole as u128;
        let bound: u128 = n as u128;
        assert(bound * whole <= 255 * 0xffff_ffff_ffff_ffff) by (nonlinear_arith)
            requires
                bound <= 255,
                whole <= 0xffff_ffff_ffff_ffff,
        ;
        self.part as u128 * 100 >= bound * whole
    }
}

// ---------------------------------------------------------------------------
// Laws of the keys
// ---------------------------------------------------------------------------

proof fn lemma_normalized_shifts(s: int, k: int, by: int)
    ensures
        normalized(s, k + by).0 == normalized(s, k).0,
        normalized(s, k + by).1 == normalized(s, k).1 + by,
    decreases 0x20_0000_0000_0000 - s,
{
    if 0 < s < 0x10_0000_0000_0000 {
        lemma_normalized_shifts(2 * s, k - 1, by);
    }
}

proof fn lemma_normalized_bounds(s: int, k: int)
    requires
        0 < s < 0x20_0000_0000_0000,
    ensures
        0x10_0000_0000_0000 <= normalized(s, k).0 < 0x20_0000_0000_0000,
        normalized(s, k).1 <= k,
        s < 0x10_0000_0000_0000 ==> normalized(s, k).1 < k,
    decreases 0x20_0000_0000_0000 - s,
{
    if s < 0x10_0000_0000_0000 {
        lemma_normalized_bounds(2 * s, k - 1);
    }
}

proof fn lemma_packed_in_order(a: int, b: int, k: int)
    requires
        0 < a < b < 0x20_0000_0000_0000,
    ensures
        packed(normalized(a, k).0, normalized(a, k).1) < packed(
            normalized(b, k).0,
            normalized(b, k).1,
        ),
    decreases 0x20_0000_0000_0000 - a,
{
    if b < 0x10_0000_0000_0000 {
        lemma_packed_in_order(2 * a, 2 * b, k - 1);
    } else if a < 0x10_0000_0000_0000 {
        lemma_normalized_bounds(a, k);
    }
}

/// The keys of whole numbers of at most 53 binary digits are in the order of the numbers; that of
/// zero is zero, those of negative numbers are below it and mirror the positive ones, and doubling
/// a number raises its key by one exponent.
pub proof fn law_whole_keys_are_in_order(a: int, b: int)
    requires
        0 < a < b < 0x20_0000_0000_0000,
    ensures
        whole_measure(0) == 0,
        whole_measure(a) < whole_measure(b),
        whole_measure(-a) == -1 - whole_measure(a),
        2 * a < 0x20_0000_0000_0000 ==> whole_measure(2 * a) == whole_measure(a)
            + 0x10_0000_0000_0000,
        a + 1 < 0x20_0000_0000_0000 && a >= 0x10_0000_0000_0000 ==> whole_measure(a + 1)
            == whole_measure(a) + 1,
{
    lemma_packed_in_order(a, b, 52);
    if 2 * a < 0x20_0000_0000_0000 {
        assert(normalized(a, 52) == normalized(2 * a, 51));
        lemma_normalized_shifts(2 * a, 51, 1);
    }
}

/// The keys of numbers in single precision, from the smallest normal one to the largest, are in the
/// order of the numbers; those of negative numbers mirror them, doubling a number raises its key by
/// one exponent as it does for whole numbers, and one is the same number in both.
pub proof fn law_single_keys_are_in_order(a: u32, b: u32)
    requires
        0x80_0000 <= a < b < 0x7f80_0000,
    ensures
        single_measure(0) == 0,
        0 < single_measure(a) < single_measure(b),
        single_measure((a + 0x8000_0000) as u32) == -1 - single_measure(a),
        a + 0x80_0000 < 0x7f80_0000 ==> single_measure((a + 0x80_0000) as u32) == single_measure(a)
            + 0x10_0000_0000_0000,
        single_measure(0x3f80_0000) == whole_measure(1),
{
    assert(whole_measure(1) == 0x3ff0_0000_0000_0000) by {
        reveal_with_fuel(normalized, 54);
    }
}

/// The middle measure is one with as many before it as behind it, or one more before it, in order.
pub proof fn law_the_median_stands_in_the_middle(list: Seq<Measure>)
    ensures
        list.len() == 0 ==> median(list) is None,
        list.len() > 0 ==> median(list) == Some(
            sorted_measures(list, list.len() as int)[list.len() as int / 2],
        ),
{
}

} // verus!
