//! Binary floating-point numbers held by their bits.
//!
//! A value travels through the library as its IEEE 754 bit pattern. The order
//! of two values, and whether a value lies in a range, are decided on the
//! patterns; no arithmetic is done on them here.
use vstd::prelude::*;

verus! {

/// A 32-bit floating-point value, held by its bits.
#[derive(Clone, Copy, Debug, PartialEq, Eq, Structural)]
pub struct Single {
    pub bits: u32,
}

/// A 64-bit floating-point value, held by its bits.
#[derive(Clone, Copy, Debug, PartialEq, Eq, Structural)]
pub struct Double {
    pub bits: u64,
}

/// The weight of the sign in the pattern of a `Single`.
pub const SINGLE_SIGN: u32 = 0x8000_0000;

/// The pattern of positive infinity; a magnitude above it is not a number.
pub const SINGLE_INFINITY: u32 = 0x7f80_0000;

impl Single {
    /// Whether the sign is set.
    pub open spec fn negative(self) -> bool {
        self.bits >= SINGLE_SIGN
    }

    /// The pattern without its sign. Patterns of one sign are ordered as their
    /// values are.
    pub open spec fn magnitude(self) -> int {
        if self.negative() {
            self.bits - SINGLE_SIGN
        } else {
            self.bits as int
        }
    }

    /// Whether this is a number, perhaps infinite.
    pub open spec fn is_number(self) -> bool {
        self.magnitude() <= SINGLE_INFINITY
    }

    /// Whether this is a finite number.
    pub open spec fn is_finite(self) -> bool {
        self.magnitude() < SINGLE_INFINITY
    }

    /// The rank of a number among the numbers: both zeros have rank zero.
    pub open spec fn rank(self) -> int {
        if self.negative() {
            -self.magnitude()
        } else {
            self.magnitude()
        }
    }

    /// The rank in the total order, which parts the two zeros and has a place
    /// for what is not a number.
    pub open spec fn total_rank(self) -> int {
        if self.negative() {
            -self.magnitude() - 1
        } else {
            self.magnitude()
        }
    }

    /// Whether this number is at least that number.
    pub open spec fn at_least(self, other: Single) -> bool {
        self.is_number() && other.is_number() && self.rank() >= other.rank()
    }

    /// Whether this number is greater than that number.
    pub open spec fn above(self, other: Single) -> bool {
        self.is_number() && other.is_number() && self.rank() > other.rank()
    }

    /// Whether the value is finite and from `low` to `high`.
    pub open spec fn within(self, low: Single, high: Single) -> bool {
        self.is_finite() && self.at_least(low) && high.at_least(self)
    }

    fn rank_of(self) -> (r: i64)
        ensures
            r == self.rank(),
    {
        if self.bits >= SINGLE_SIGN {
            -((self.bits - SINGLE_SIGN) as i64)
        } else {
            self.bits as i64
        }
    }

    /// The rank in the total order.
    pub fn total_rank_of(self) -> (r: i64)
        ensures
            r == self.total_rank(),
    {
        if self.bits >= SINGLE_SIGN {
            -((self.bits - SINGLE_SIGN) as i64) - 1
        } else {
            self.bits as i64
        }
    }

    /// Whether this is a number, perhaps infinite.
    pub fn has_number(self) -> (r: bool)
        ensures
            r == self.is_number(),
    {
        let magnitude: u32 = if self.bits >= SINGLE_SIGN {
            self.bits - SINGLE_SIGN
        } else {
            self.bits
        };
        magnitude <= SINGLE_INFINITY
    }

    /// Whether this is a finite number.
    pub fn has_finite(self) -> (r: bool)
        ensures
            r == self.is_finite(),
    {
        let magnitude: u32 = if self.bits >= SINGLE_SIGN {
            self.bits - SINGLE_SIGN
        } else {
            self.bits
        };
        magnitude < SINGLE_INFINITY
    }

    /// Whether this number is at least that number.
    pub fn reaches(self, other: Single) -> (r: bool)
        ensures
            r == self.at_least(other),
    {
        self.has_number() && other.has_number() && self.rank_of() >= other.rank_of()
    }

    /// Whether this number is greater than that number.
    pub fn exceeds(self, other: Single) -> (r: bool)
        ensures
            r == self.above(other),
    {
        self.has_number() && other.has_number() && self.rank_of() > other.rank_of()
    }

    /// Whether the value is finite and from `low` to `high`.
    pub fn lies_within(self, low: Single, high: Single) -> (r: bool)
        ensures
            r == self.within(low, high),
    {
        self.has_finite() && self.reaches(low) && high.reaches(self)
    }
}

// ---------------------------------------------------------------------------
// Seconds as milliseconds
// ---------------------------------------------------------------------------

/// The weight of the sign in the pattern of a `Double`.
pub const DOUBLE_SIGN: u64 = 0x8000_0000_0000_0000;

/// The weight of the exponent in the pattern of a `Double`, and the least
/// mantissa of a normal number.
pub const DOUBLE_UNIT: u64 = 0x10_0000_0000_0000;

/// The exponent of what is not a finite number.
pub const DOUBLE_SPECIAL: u64 = 2047;

/// The least number with more binary digits than a mantissa has.
pub const MANTISSA_LIMIT: u64 = 0x20_0000_0000_0000;

/// Two to the power `k`.
pub open spec fn two(k: nat) -> nat
    decreases k,
{
    if k == 0 {
        1
    } else {
        2 * two((k - 1) as nat)
    }
}

impl Double {
    /// Whether the sign is set.
    pub open spec fn negative(self) -> bool {
        self.bits >= DOUBLE_SIGN
    }

    /// The exponent as it is kept in the pattern, where the sign is not set.
    pub open spec fn exponent(self) -> int {
        self.bits as int / DOUBLE_UNIT as int
    }

    /// Whether the value is finite and its sign is not set.
    pub open spec fn is_natural_time(self) -> bool {
        !self.negative() && self.exponent() < DOUBLE_SPECIAL
    }

    /// The whole number of which the value is a multiple by a power of two.
    pub open spec fn mantissa(self) -> nat {
        let fraction = self.bits as int % DOUBLE_UNIT as int;
        if self.exponent() == 0 {
            fraction as nat
        } else {
            (fraction + DOUBLE_UNIT) as nat
        }
    }

    /// The exponent of that power of two.
    pub open spec fn power(self) -> int {
        if self.exponent() == 0 {
            -1074
        } else {
            self.exponent() - 1075
        }
    }
}

/// The least power of two, from `d` on, of which fewer than `MANTISSA_LIMIT`
/// go into `p`.
pub open spec fn rounding_unit(p: nat, d: nat) -> nat
    decreases p - d,
{
    if d == 0 || p < MANTISSA_LIMIT * d {
        d
    } else {
        rounding_unit(p, 2 * d)
    }
}

/// The multiple of `d` nearest to `p`; of two equally near ones the even one.
pub open spec fn nearest_multiple(p: nat, d: nat) -> nat
    recommends
        d > 0,
{
    let q = p / d;
    let r = p % d;
    if 2 * r > d || (2 * r == d && q % 2 == 1) {
        (q + 1) * d
    } else {
        q * d
    }
}

/// `p` rounded to as many binary digits as a mantissa has.
pub open spec fn rounded_product(p: nat) -> nat {
    nearest_multiple(p, rounding_unit(p, 1))
}

/// `n` times two to the power `power`, as a whole number: a half is rounded
/// up, and what is too great is the greatest number of 64 bits.
pub open spec fn whole(n: nat, power: int) -> u64 {
    let exact = if power >= 0 {
        n * two(power as nat)
    } else {
        (2 * n + two((-power) as nat)) / (2 * two((-power) as nat))
    };
    if exact > u64::MAX {
        u64::MAX
    } else {
        exact as u64
    }
}

/// A time in seconds as milliseconds: the product with a thousand, rounded to
/// a floating-point number, rounded to a whole number. Nothing where it is
/// negative or not finite.
pub open spec fn milliseconds(seconds: Double) -> Option<u64> {
    if seconds.is_natural_time() {
        Some(whole(rounded_product(seconds.mantissa() * 1000), seconds.power()))
    } else {
        None
    }
}

proof fn two_rises(a: nat, b: nat)
    requires
        a <= b,
    ensures
        0 < two(a) <= two(b),
    decreases b,
{
    if b == 0 {
    } else if a == b {
        two_rises((a - 1) as nat, (b - 1) as nat);
    } else {
        two_rises(a, (b - 1) as nat);
    }
}

fn round_product(p: u64) -> (r: u64)
    requires
        p < 0x8000_0000_0000_0000,
    ensures
        r == rounded_product(p as nat),
{
    let mut d: u64 = 1;
    while p / d >= MANTISSA_LIMIT
        invariant
            0 < d,
            d <= 2048,
            p < 0x8000_0000_0000_0000,
            rounding_unit(p as nat, 1) == rounding_unit(p as nat, d as nat),
        decreases p - d,
    {
        assert(p >= MANTISSA_LIMIT * d) by (nonlinear_arith)
            requires
                p / d >= MANTISSA_LIMIT,
                d > 0,
        ;
        assert(d <= 1024) by (nonlinear_arith)
            requires
                p >= MANTISSA_LIMIT * d,
                p < 0x8000_0000_0000_0000,
                MANTISSA_LIMIT == 0x20_0000_0000_0000,
        ;
        d = 2 * d;
    }
    assert(p < MANTISSA_LIMIT * d) by (nonlinear_arith)
        requires
            p / d < MANTISSA_LIMIT,
            d > 0,
    ;
    let q: u64 = p / d;
    let r: u64 = p % d;
    assert(q * d <= p) by (nonlinear_arith)
        requires
            q == p / d,
            d > 0,
    ;
    assert((q + 1) * d == q * d + d) by (nonlinear_arith);
    if 2 * r > d || (2 * r == d && q % 2 == 1) {
        (q + 1) * d
    } else {
        q * d
    }
}

fn scale(n: u64, power: i64) -> (r: u64)
    requires
        -1074 <= power <= 2047,
    ensures
        r == whole(n as nat, power as int),
{
    if power >= 0 {
        let mut value: u128 = n as u128;
        let mut left: i64 = power;
        while left > 0 && value <= u64::MAX as u128
            invariant
                0 <= left <= power,
                value <= 2 * u64::MAX as u128,
                value * two(left as nat) == n * two(power as nat),
            decreases left,
        {
            assert(2 * value * two((left - 1) as nat) == value * two(left as nat))
                by (nonlinear_arith)
                requires
                    two(left as nat) == 2 * two((left - 1) as nat),
            ;
            value = 2 * value;
            left -= 1;
        }
        proof {
            two_rises(0, left as nat);
            assert(value * two(left as nat) >= value) by (nonlinear_arith)
                requires
                    two(left as nat) >= 1,
            ;
        }
        if value > u64::MAX as u128 {
            u64::MAX
        } else {
            assert(left == 0);
            assert(value * two(0) == value) by (nonlinear_arith)
                requires
                    two(0) == 1,
            ;
            value as u64
        }
    } else {
        let k: i64 = -power;
        let twice: u128 = 2 * (n as u128);
        let mut d: u128 = 1;
        let mut i: i64 = 0;
        while i < k && d <= twice
            invariant
                0 <= i <= k,
                d <= 2 * twice || d == 1,
                twice <= 2 * u64::MAX as u128,
                d == two(i as nat),
            decreases k - i,
        {
            d = 2 * d;
            i += 1;
        }
        if d > twice {
            proof {
                two_rises(i as nat, k as nat);
                let big = two(k as nat);
                assert((twice + big) / (2 * big as int) == 0) by (nonlinear_arith)
                    requires
                        0 <= twice < big,
                ;
                assert((2 * n as nat + big) / (2 * big) == 0);
            }
            0
        } else {
            proof {
                two_rises(0, (k - 1) as nat);
                assert(i == k);
                assert(d == two(k as nat));
                assert(two(k as nat) == 2 * two((k - 1) as nat));
            }
            let r: u128 = (twice + d) / (2 * d);
            assert(r == (2 * n as nat + two(k as nat)) / (2 * two(k as nat)));
            assert(r <= u64::MAX) by (nonlinear_arith)
                requires
                    r == (twice + d) / (2 * d as int),
                    2 <= d <= twice,
                    twice <= 2 * u64::MAX,
            ;
            r as u64
        }
    }
}

/// A time in seconds as milliseconds, if it is finite and not negative.
pub fn seconds_to_ms(seconds: Double) -> (r: Option<u64>)
    ensures
        r == milliseconds(seconds),
{
    if seconds.bits >= DOUBLE_SIGN {
        return None;
    }
    let exponent: u64 = seconds.bits / DOUBLE_UNIT;
    if exponent >= DOUBLE_SPECIAL {
        return None;
    }
    let fraction: u64 = seconds.bits % DOUBLE_UNIT;
    let mantissa: u64 = if exponent == 0 {
        fraction
    } else {
        fraction + DOUBLE_UNIT
    };
    let power: i64 = if exponent == 0 {
        -1074
    } else {
        exponent as i64 - 1075
    };
    let product = round_product(mantissa * 1000);
    Some(scale(product, power))
}

/// The order of numbers by their bits: what is not negative is ordered by its
/// bits, what is negative the other way round and below, both zeros are equal,
/// and what is no number is neither at least nor above anything.
pub proof fn singles_are_ordered_by_their_bits(a: Single, b: Single)
    ensures
        a.is_number() <==> a.bits <= 0x7f80_0000 || 0x8000_0000 <= a.bits <= 0xff80_0000,
        a.is_finite() <==> a.bits < 0x7f80_0000 || 0x8000_0000 <= a.bits < 0xff80_0000,
        !a.is_number() || !b.is_number() ==> !a.at_least(b) && !a.above(b),
        a.is_number() && b.is_number() ==> (a.above(b) <==> !b.at_least(a)),
        a.is_number() && b.is_number() && a.bits < 0x8000_0000 && b.bits < 0x8000_0000 ==> (
        a.at_least(b) <==> a.bits >= b.bits),
        a.is_number() && b.is_number() && a.bits >= 0x8000_0000 && b.bits >= 0x8000_0000 ==> (
        a.at_least(b) <==> a.bits <= b.bits),
        a.is_number() && b.is_number() && a.bits < 0x8000_0000 && b.bits >= 0x8000_0000
            ==> a.at_least(b),
        a.is_number() && b.is_number() && a.bits < 0x8000_0000 && b.bits >= 0x8000_0000 ==> (
        b.at_least(a) <==> a.bits == 0 && b.bits == 0x8000_0000),
{
}

/// The total order: all negative ones below all others, negative ones by
/// falling bits, the others by rising bits.
pub proof fn singles_have_a_total_order(a: Single, b: Single)
    ensures
        a.total_rank() == b.total_rank() <==> a == b,
        a.bits < 0x8000_0000 && b.bits < 0x8000_0000 ==> (a.total_rank() < b.total_rank() <==> a.bits
            < b.bits),
        a.bits >= 0x8000_0000 && b.bits >= 0x8000_0000 ==> (a.total_rank() < b.total_rank()
            <==> a.bits > b.bits),
        a.bits >= 0x8000_0000 && b.bits < 0x8000_0000 ==> a.total_rank() < b.total_rank(),
{
}

/// A number lies within bounds exactly where it is finite and neither below
/// the one nor above the other.
pub proof fn bounds_belong_to_the_range(a: Single, low: Single, high: Single)
    requires
        low.is_finite(),
        high.is_finite(),
    ensures
        a.within(low, high) <==> a.is_finite() && !low.above(a) && !a.above(high),
{
}

proof fn rounding_unit_is_least(p: nat, d: nat)
    requires
        d > 0,
    ensures
        p < 0x20_0000_0000_0000 * rounding_unit(p, d),
        rounding_unit(p, d) >= d,
        rounding_unit(p, d) > d ==> 2 * p >= 0x20_0000_0000_0000 * rounding_unit(p, d),
        exists|k: nat| rounding_unit(p, d) == d * #[trigger] two(k),
    decreases p - d,
{
    if p < MANTISSA_LIMIT * d {
        assert(d * two(0) == d) by (nonlinear_arith)
            requires
                two(0) == 1,
        ;
    } else {
        rounding_unit_is_least(p, 2 * d);
        let k = choose|k: nat| rounding_unit(p, 2 * d) == 2 * d * #[trigger] two(k);
        let more = (k + 1) as nat;
        assert(two(more) == 2 * two(k));
        assert(2 * d * two(k) == d * two(more)) by (nonlinear_arith)
            requires
                two(more) == 2 * two(k),
        ;
    }
}

/// A product is rounded to one of 53 binary digits, the nearest there is, and
/// of two that are as near the one that is even.
pub proof fn products_are_rounded_to_the_nearest(p: nat)
    ensures
        exists|k: nat, q: nat| #[trigger]
            is_rounding(p, k, q) && rounded_product(p) == q * two(k),
{
    rounding_unit_is_least(p, 1);
    let d = rounding_unit(p, 1);
    let k = choose|k: nat| d == 1 * #[trigger] two(k);
    let q = if 2 * (p % d) > d || (2 * (p % d) == d && (p / d) % 2 == 1) {
        p / d + 1
    } else {
        p / d
    };
    assert(p == d * (p / d) + p % d) by (nonlinear_arith)
        requires
            d > 0,
    ;
    assert(0 <= p % d < d) by (nonlinear_arith)
        requires
            d > 0,
    ;
    assert(d * (p / d + 1) == d * (p / d) + d) by (nonlinear_arith);
    assert(d * q == q * d) by (nonlinear_arith);
    assert((p / d + 1) * d == d * (p / d + 1)) by (nonlinear_arith);
    assert((p / d) * d == d * (p / d)) by (nonlinear_arith);
    assert(p / d < 0x20_0000_0000_0000) by (nonlinear_arith)
        requires
            p < 0x20_0000_0000_0000 * d,
            d > 0,
    ;
    assert(d > 1 ==> p / d >= 0x10_0000_0000_0000) by (nonlinear_arith)
        requires
            d > 1 ==> 2 * p >= 0x20_0000_0000_0000 * d,
            d > 0,
    ;
    assert(is_rounding(p, k, q));
}

/// Whether `q` steps of `2^k` are the nearest to `p` with 53 binary digits:
/// steps are as small as they can be, and of two that are as near the even one
/// is taken.
pub open spec fn is_rounding(p: nat, k: nat, q: nat) -> bool {
    let d = two(k);
    &&& q <= 0x20_0000_0000_0000
    &&& k > 0 ==> q >= 0x10_0000_0000_0000
    &&& 2 * (d * q) <= 2 * p + d
    &&& 2 * p <= 2 * (d * q) + d
    &&& 2 * (d * q) == 2 * p + d || 2 * p == 2 * (d * q) + d ==> q % 2 == 0
}

/// A number of steps of a power of two is rounded to the nearest whole number,
/// halves up, and to the greatest there is where it is more.
pub proof fn whole_numbers_are_the_nearest(n: nat, k: nat)
    ensures
        n * two(k) <= u64::MAX ==> whole(n, k as int) == n * two(k),
        n * two(k) > u64::MAX ==> whole(n, k as int) == u64::MAX,
        k > 0 && n <= u64::MAX ==> {
            let m = whole(n, -(k as int)) as nat;
            2 * (two(k) * m) <= 2 * n + two(k) < 2 * (two(k) * (m + 1))
        },
{
    if k > 0 && n <= u64::MAX {
        two_rises(1, k);
        assert(two(1) == 2) by {
            assert(two(0) == 1);
        }
        let d = two(k);
        let top = 2 * n + d;
        let m = top / (2 * d);
        assert(m <= u64::MAX) by (nonlinear_arith)
            requires
                m == top / (2 * d),
                top == 2 * n + d,
                n <= u64::MAX,
                d >= 2,
        ;
        assert(2 * (d * m) <= top < 2 * (d * (m + 1))) by (nonlinear_arith)
            requires
                m == top / (2 * d),
                d >= 2,
        ;
    }
}

/// A time is known exactly where it is neither negative nor infinite nor no
/// number at all.
pub proof fn times_are_finite_and_not_negative(seconds: Double)
    ensures
        milliseconds(seconds) is Some <==> seconds.bits < 0x7ff0_0000_0000_0000,
        seconds.bits < 0x10_0000_0000_0000 ==> seconds.mantissa() == seconds.bits && seconds.power()
            == -1074,
        0x10_0000_0000_0000 <= seconds.bits < 0x7ff0_0000_0000_0000 ==> {
            &&& 0x10_0000_0000_0000 <= seconds.mantissa() < 0x20_0000_0000_0000
            &&& -1074 <= seconds.power() <= 971
            &&& seconds.bits == (seconds.power() + 1075) * 0x10_0000_0000_0000 + (
            seconds.mantissa() - 0x10_0000_0000_0000)
        },
        seconds.bits < 0x7ff0_0000_0000_0000 ==> milliseconds(seconds) == Some(
            whole(rounded_product(1000 * seconds.mantissa()), seconds.power()),
        ),
{
}

} // verus!
