//! Single-precision values held as integers.
//!
//! A [`Single`] is a non-negative number with a 24-bit significand and a power-of-two
//! exponent: the numbers that the binary32 format holds, without its infinities,
//! subnormals and signs. Conversion, division and truncation round as the format
//! prescribes, to the nearest value and to an even significand on a tie.
use vstd::arithmetic::div_mod::{lemma_fundamental_div_mod, lemma_fundamental_div_mod_converse};
use vstd::arithmetic::power2::{
    lemma2_to64, lemma_pow2_adds, lemma_pow2_pos, lemma_pow2_strictly_increases, pow2,
};
use vstd::prelude::*;

verus! {

/// The smallest significand of a non-zero value: two to the power of 23.
pub const SIGNIFICAND_MIN: u32 = 0x80_0000;

/// One more than the largest significand: two to the power of 24.
pub const SIGNIFICAND_END: u32 = 0x100_0000;

/// The smallest exponent of a significand.
pub const EXPONENT_MIN: i32 = -149;

/// The largest exponent of a significand.
pub const EXPONENT_MAX: i32 = 104;

/// The number `significand * 2^exponent`.
#[derive(Clone, Copy, Debug, PartialEq, Eq, Structural)]
pub struct Single {
    pub significand: u32,
    pub exponent: i32,
}

/// Two to the power of `exponent`, counted in units of two to the power of -200.
pub open spec fn unit(exponent: int) -> nat {
    pow2((exponent + 200) as nat)
}

/// The quotient `n / d` rounded to the nearest integer, to the even one on a tie.
pub open spec fn round_half_even(n: nat, d: nat) -> nat {
    let q = n / d;
    let r = n % d;
    if 2 * r < d || (2 * r == d && q % 2 == 0) {
        q
    } else {
        q + 1
    }
}

/// Whether `n / d` needs the exponent `exponent` for a 24-bit significand: it lies
/// between `2^23 * 2^exponent` and `2^24 * 2^exponent`.
pub open spec fn has_exponent(n: nat, d: nat, exponent: int) -> bool {
    &&& EXPONENT_MIN <= exponent <= EXPONENT_MAX
    &&& SIGNIFICAND_MIN * (d * unit(exponent)) <= n * unit(0) < SIGNIFICAND_END * (d * unit(
        exponent,
    ))
}

/// A rounded significand with its exponent; one that was rounded up to 25 bits moves
/// to the next exponent.
pub open spec fn carried(significand: nat, exponent: int) -> Single {
    if significand == SIGNIFICAND_END {
        Single { significand: SIGNIFICAND_MIN, exponent: (exponent + 1) as i32 }
    } else {
        Single { significand: significand as u32, exponent: exponent as i32 }
    }
}

/// The single-precision value nearest to `n / d`, for a quotient that is zero or has a
/// normal exponent.
pub open spec fn nearest(n: nat, d: nat) -> Single {
    if n == 0 {
        Single { significand: 0, exponent: 0 }
    } else {
        let exponent = choose|exponent: int| has_exponent(n, d, exponent);
        carried(round_half_even(n * unit(0), d * unit(exponent)), exponent)
    }
}

impl Single {
    /// Zero, or a significand of exactly 24 bits with an exponent of the format.
    pub open spec fn wf(self) -> bool {
        ||| self.significand == 0 && self.exponent == 0
        ||| {
            &&& SIGNIFICAND_MIN <= self.significand < SIGNIFICAND_END
            &&& EXPONENT_MIN <= self.exponent <= EXPONENT_MAX
        }
    }

    /// The value, counted in units of two to the power of -200.
    pub open spec fn value(self) -> nat {
        self.significand as nat * unit(self.exponent as int)
    }

    /// The number one.
    pub open spec fn spec_one() -> Single {
        Single { significand: SIGNIFICAND_MIN, exponent: -23i32 }
    }

    /// The single-precision value nearest to an integer.
    pub open spec fn spec_from_u32(x: u32) -> Single {
        nearest(x as nat, 1)
    }

    /// The single-precision value nearest to the quotient of two values.
    pub open spec fn spec_div(self, divisor: Single) -> Single {
        nearest(self.value(), divisor.value())
    }

    /// The larger of two values.
    pub open spec fn spec_max(self, other: Single) -> Single {
        if self.value() < other.value() {
            other
        } else {
            self
        }
    }

    /// The value without its fraction, at most `u32::MAX`.
    pub open spec fn spec_to_u32(self) -> u32 {
        let whole = self.value() / unit(0);
        if whole > u32::MAX {
            u32::MAX
        } else {
            whole as u32
        }
    }

    /// The bit pattern in the binary32 format: a zero sign bit, eight bits of biased
    /// exponent, and the significand without its leading one.
    pub open spec fn spec_to_bits(self) -> u32 {
        if self.significand == 0 {
            0
        } else {
            ((self.exponent + 150) * SIGNIFICAND_MIN + (self.significand - SIGNIFICAND_MIN)) as u32
        }
    }
}

proof fn lemma_unit_pos(exponent: int)
    ensures
        unit(exponent) > 0,
{
    lemma_pow2_pos((exponent + 200) as nat);
}

/// Scaling both sides of a quotient does not change how it rounds.
proof fn lemma_round_half_even_scaled(n: nat, d: nat, c: nat)
    requires
        d > 0,
        c > 0,
    ensures
        round_half_even(n * c, d * c) == round_half_even(n, d),
{
    let q = n / d;
    let r = n % d;
    lemma_fundamental_div_mod(n as int, d as int);
    assert(n * c == q * (d * c) + r * c) by (nonlinear_arith)
        requires
            n == d * q + r,
    ;
    assert(0 <= r * c < d * c) by (nonlinear_arith)
        requires
            0 <= r < d,
            c > 0,
    ;
    lemma_fundamental_div_mod_converse((n * c) as int, (d * c) as int, q as int, (r * c) as int);
    assert(2 * (r * c) < d * c <==> 2 * r < d) by (nonlinear_arith)
        requires
            c > 0,
    ;
    assert(2 * (r * c) == d * c <==> 2 * r == d) by (nonlinear_arith)
        requires
            c > 0,
    ;
}

/// No quotient has two exponents.
proof fn lemma_exponent_unique(n: nat, d: nat, e1: int, e2: int)
    requires
        has_exponent(n, d, e1),
        has_exponent(n, d, e2),
    ensures
        e1 == e2,
{
    if e1 != e2 {
        let lo = if e1 < e2 { e1 } else { e2 };
        let hi = if e1 < e2 { e2 } else { e1 };
        lemma_pow2_adds((lo + 200) as nat, (hi - lo) as nat);
        lemma2_to64();
        if hi - lo > 1 {
            lemma_pow2_strictly_increases(1, (hi - lo) as nat);
        }
        let u = unit(lo);
        let w = pow2((hi - lo) as nat);
        assert(unit(hi) == u * w);
        assert(SIGNIFICAND_END * (d * u) <= SIGNIFICAND_MIN * (d * (u * w))) by (nonlinear_arith)
            requires
                w >= 2,
                SIGNIFICAND_END == 2 * SIGNIFICAND_MIN,
                d >= 0,
                u >= 0,
        ;
    }
}

/// The nearest value of `n / d`, from the ratio `a / b` that the significand is read
/// off and the common factor `c`.
pub proof fn lemma_nearest(n: nat, d: nat, exponent: int, a: nat, b: nat, c: nat)
    requires
        EXPONENT_MIN <= exponent <= EXPONENT_MAX,
        n * unit(0) == a * c,
        d * unit(exponent) == b * c,
        b > 0,
        c > 0,
        SIGNIFICAND_MIN * b <= a < SIGNIFICAND_END * b,
    ensures
        nearest(n, d) == carried(round_half_even(a, b), exponent),
        SIGNIFICAND_MIN <= round_half_even(a, b) <= SIGNIFICAND_END,
{
    assert(SIGNIFICAND_MIN * (b * c) <= a * c < SIGNIFICAND_END * (b * c)) by (nonlinear_arith)
        requires
            SIGNIFICAND_MIN * b <= a < SIGNIFICAND_END * b,
            c > 0,
    ;
    assert(has_exponent(n, d, exponent));
    let chosen = choose|e: int| has_exponent(n, d, e);
    lemma_exponent_unique(n, d, exponent, chosen);
    assert(n != 0) by {
        if n == 0 {
            assert(a * c == 0) by (nonlinear_arith)
                requires
                    a * c == n * unit(0),
                    n == 0,
            ;
            assert(a * c > 0) by (nonlinear_arith)
                requires
                    a >= SIGNIFICAND_MIN * b,
                    SIGNIFICAND_MIN > 0,
                    b > 0,
                    c > 0,
            ;
        }
    }
    lemma_round_half_even_scaled(a, b, c);
    let q = a / b;
    lemma_fundamental_div_mod(a as int, b as int);
    assert(SIGNIFICAND_MIN <= q < SIGNIFICAND_END) by (nonlinear_arith)
        requires
            SIGNIFICAND_MIN * b <= a < SIGNIFICAND_END * b,
            a == b * q + a % b,
            0 <= a % b < b,
    ;
}

/// The quotient `n / d` rounded to the nearest integer, to the even one on a tie.
fn div_half_even(n: u64, d: u64) -> (q: u64)
    requires
        0 < d < 0x1_0000_0000,
        n < 0x100_0000_0000_0000,
    ensures
        q == round_half_even(n as nat, d as nat),
{
    let q: u64 = n / d;
    let r: u64 = n % d;
    if 2 * r < d || (2 * r == d && q % 2 == 0) {
        q
    } else {
        assert(q <= n) by (nonlinear_arith)
            requires
                q == n / d,
                d > 0,
        ;
        q + 1
    }
}

/// A rounded significand with its exponent.
fn carry(significand: u64, exponent: i32) -> (s: Single)
    requires
        SIGNIFICAND_MIN <= significand <= SIGNIFICAND_END,
        EXPONENT_MIN <= exponent < EXPONENT_MAX,
    ensures
        s == carried(significand as nat, exponent as int),
        s.wf(),
{
    if significand == SIGNIFICAND_END as u64 {
        Single { significand: SIGNIFICAND_MIN, exponent: exponent + 1 }
    } else {
        Single { significand: significand as u32, exponent }
    }
}

impl Single {
    /// The number one.
    pub fn one() -> (s: Single)
        ensures
            s == Single::spec_one(),
            s.wf(),
            s.value() == unit(0),
    {
        proof {
            lemma_pow2_adds(23, 177);
            lemma2_to64();
        }
        Single { significand: SIGNIFICAND_MIN, exponent: -23 }
    }

    /// The single-precision value nearest to `x`.
    pub fn from_u32(x: u32) -> (s: Single)
        ensures
            s == Single::spec_from_u32(x),
            s.wf(),
            x == 0 <==> s.significand == 0,
            x > 0 ==> -23 <= s.exponent <= 9,
    {
        proof {
            lemma2_to64();
        }
        if x == 0 {
            return Single { significand: 0, exponent: 0 };
        }
        if x < SIGNIFICAND_END {
            let mut m: u32 = x;
            let mut shift: i32 = 0;
            assert(x * pow2(0) == x) by (nonlinear_arith)
                requires
                    pow2(0) == 1,
            ;
            while m < SIGNIFICAND_MIN
                invariant
                    0 <= shift <= 23,
                    0 < x < SIGNIFICAND_END,
                    m == x * pow2(shift as nat),
                    0 < m < SIGNIFICAND_END,
                decreases SIGNIFICAND_END - m,
            {
                proof {
                    lemma_pow2_adds(shift as nat, 1);
                    lemma2_to64();
                    assert(x * (pow2(shift as nat) * 2) == 2 * (x * pow2(shift as nat)))
                        by (nonlinear_arith);
                    if shift == 23 {
                        assert(m >= SIGNIFICAND_MIN) by (nonlinear_arith)
                            requires
                                m == x * pow2(23),
                                pow2(23) == SIGNIFICAND_MIN,
                                x >= 1,
                        ;
                    }
                }
                m = m * 2;
                shift = shift + 1;
            }
            proof {
                let s = shift as nat;
                let c = unit(-shift as int);
                lemma_unit_pos(-shift as int);
                lemma_pow2_adds(s, (200 - s) as nat);
                assert(x * (pow2(s) * c) == (x * pow2(s)) * c) by (nonlinear_arith);
                lemma_nearest(x as nat, 1, -shift as int, m as nat, 1, c);
                assert(round_half_even(m as nat, 1) == m);
            }
            Single { significand: m, exponent: -shift }
        } else {
            let mut p: u64 = 2;
            let mut shift: i32 = 1;
            while x as u64 >= 0x100_0000u64 * p
                invariant
                    1 <= shift <= 8,
                    p == pow2(shift as nat),
                    0x80_0000 * p <= x,
                    2 <= p <= 256,
                decreases 8 - shift,
            {
                proof {
                    lemma_pow2_adds(shift as nat, 1);
                    lemma2_to64();
                    if shift < 8 {
                        if shift < 7 {
                            lemma_pow2_strictly_increases(shift as nat, 7);
                        }
                    }
                }
                p = p * 2;
                shift = shift + 1;
            }
            let q = div_half_even(x as u64, p);
            proof {
                lemma_pow2_adds(shift as nat, 200);
                lemma_unit_pos(0);
                assert(1 * unit(shift as int) == p * unit(0));
                assert(SIGNIFICAND_MIN * p <= x < SIGNIFICAND_END * p) by (nonlinear_arith)
                    requires
                        0x80_0000 * p <= x < 0x100_0000 * p,
                ;
                lemma_nearest(x as nat, 1, shift as int, x as nat, p as nat, unit(0));
            }
            carry(q, shift)
        }
    }

    /// The single-precision value nearest to `self / divisor`.
    pub fn div(self, divisor: Single) -> (s: Single)
        requires
            self.wf(),
            divisor.wf(),
            divisor.significand > 0,
            self.significand > 0 ==> -125 <= self.exponent - divisor.exponent <= 126,
        ensures
            s == self.spec_div(divisor),
            s.wf(),
            s.significand == 0 <==> self.significand == 0,
            self.significand > 0 ==> self.exponent - divisor.exponent - 24 <= s.exponent
                <= self.exponent - divisor.exponent - 22,
    {
        if self.significand == 0 {
            assert(self.value() == 0) by (nonlinear_arith)
                requires
                    self.significand == 0,
                    self.value() == self.significand as nat * unit(self.exponent as int),
            ;
            return Single { significand: 0, exponent: 0 };
        }
        let shift: i32 = if self.significand >= divisor.significand {
            23
        } else {
            24
        };
        let factor: u64 = if self.significand >= divisor.significand {
            0x80_0000
        } else {
            0x100_0000
        };
        let n: u64 = self.significand as u64 * factor;
        let q = div_half_even(n, divisor.significand as u64);
        let exponent: i32 = self.exponent - divisor.exponent - shift;
        proof {
            lemma2_to64();
            let k = shift as nat;
            let ea = self.exponent as int;
            let eb = divisor.exponent as int;
            let m = self.significand as nat;
            let b = divisor.significand as nat;
            let c = pow2((ea - k + 400) as nat);
            lemma_pow2_pos((ea - k + 400) as nat);
            lemma_pow2_adds((ea + 200) as nat, 200);
            lemma_pow2_adds(k, (ea - k + 400) as nat);
            lemma_pow2_adds((eb + 200) as nat, (exponent + 200) as nat);
            assert((m * unit(ea)) * unit(0) == (m * pow2(k)) * c) by (nonlinear_arith)
                requires
                    unit(ea) * unit(0) == pow2(k) * c,
            ;
            assert((b * unit(eb)) * unit(exponent as int) == b * c) by (nonlinear_arith)
                requires
                    unit(eb) * unit(exponent as int) == c,
            ;
            assert(SIGNIFICAND_MIN * b <= n < SIGNIFICAND_END * b) by (nonlinear_arith)
                requires
                    n == m * factor,
                    0x80_0000 <= m < 0x100_0000,
                    0x80_0000 <= b < 0x100_0000,
                    m >= b ==> factor == 0x80_0000,
                    m < b ==> factor == 0x100_0000,
            ;
            lemma_nearest(self.value(), divisor.value(), exponent as int, n as nat, b, c);
        }
        carry(q, exponent)
    }

    /// The larger of two values.
    pub fn max(self, other: Single) -> (s: Single)
        requires
            self.wf(),
            other.wf(),
        ensures
            s == self.spec_max(other),
            s.wf(),
            s.value() >= self.value(),
            s.value() >= other.value(),
    {
        proof {
            lemma_order(self, other);
            lemma_order(other, self);
        }
        if self.significand == 0 {
            return if other.significand == 0 { self } else { other };
        }
        if other.significand == 0 {
            return self;
        }
        if self.exponent < other.exponent || (self.exponent == other.exponent && self.significand
            < other.significand) {
            other
        } else {
            self
        }
    }

    /// The value without its fraction, at most `u32::MAX`.
    pub fn to_u32(self) -> (whole: u32)
        requires
            self.wf(),
        ensures
            whole == self.spec_to_u32(),
    {
        let ghost m = self.significand as nat;
        proof {
            lemma2_to64();
            lemma_unit_pos(0);
        }
        if self.exponent >= 9 {
            proof {
                let e = (self.exponent - 9) as nat;
                lemma_pow2_adds(9, e);
                lemma_pow2_pos(e);
                lemma_pow2_adds((9 + e) as nat, 200);
                assert(m * pow2((9 + e) as nat) > u32::MAX) by (nonlinear_arith)
                    requires
                        m >= 0x80_0000,
                        pow2((9 + e) as nat) == 512 * pow2(e),
                        pow2(e) >= 1,
                ;
                let p = pow2((9 + e) as nat);
                assert(m * (p * unit(0)) == (m * p) * unit(0)) by (nonlinear_arith);
                lemma_whole_part(self, m * p, 0);
            }
            u32::MAX
        } else if self.exponent >= 0 {
            let mut p: u64 = 1;
            let mut i: i32 = 0;
            while i < self.exponent
                invariant
                    0 <= i <= self.exponent <= 8,
                    p == pow2(i as nat),
                    1 <= p <= 256,
                decreases self.exponent - i,
            {
                proof {
                    lemma_pow2_adds(i as nat, 1);
                    lemma2_to64();
                    if i < 7 {
                        lemma_pow2_strictly_increases(i as nat, 7);
                    }
                }
                p = p * 2;
                i = i + 1;
            }
            assert(self.significand as u64 * p <= 0xFFFF_FFFF) by (nonlinear_arith)
                requires
                    self.significand < 0x100_0000,
                    p <= 256,
            ;
            proof {
                lemma_pow2_adds(i as nat, 200);
                assert(m * (p * unit(0)) == (m * p) * unit(0)) by (nonlinear_arith);
                lemma_whole_part(self, m * p as nat, 0);
            }
            (self.significand as u64 * p) as u32
        } else if self.exponent >= -23 {
            let mut p: u32 = 1;
            let mut i: i32 = 0;
            while i > self.exponent
                invariant
                    -23 <= self.exponent <= i <= 0,
                    p == pow2((-i) as nat),
                    1 <= p <= 0x80_0000,
                decreases i - self.exponent,
            {
                proof {
                    lemma_pow2_adds((-i) as nat, 1);
                    lemma2_to64();
                    if i > -22 {
                        lemma_pow2_strictly_increases((-i) as nat, 22);
                    }
                }
                p = p * 2;
                i = i - 1;
            }
            proof {
                lemma_pow2_adds((-i) as nat, (200 + i) as nat);
                let u = unit(i as int);
                lemma_unit_pos(i as int);
                let q = m / p as nat;
                let r = m % p as nat;
                lemma_fundamental_div_mod(m as int, p as int);
                assert(m * u == (q * (p * u)) + r * u) by (nonlinear_arith)
                    requires
                        m == p * q + r,
                ;
                assert(r * u < p * u) by (nonlinear_arith)
                    requires
                        r < p,
                        u > 0,
                ;
                lemma_whole_part(self, q, r * u);
            }
            self.significand / p
        } else {
            proof {
                let e = self.exponent as int;
                lemma_unit_pos(e);
                lemma_pow2_adds((e + 200) as nat, (-e) as nat);
                if -e > 24 {
                    lemma_pow2_strictly_increases(24, (-e) as nat);
                }
                assert(m * unit(e) < unit(0)) by (nonlinear_arith)
                    requires
                        m < 0x100_0000,
                        unit(0) == unit(e) * pow2((-e) as nat),
                        pow2((-e) as nat) >= 0x100_0000,
                        unit(e) > 0,
                ;
                lemma_whole_part(self, 0, self.value());
            }
            0
        }
    }

    /// The bit pattern of the value in the binary32 format.
    pub fn to_bits(self) -> (bits: u32)
        requires
            self.wf(),
        ensures
            bits == self.spec_to_bits(),
    {
        if self.significand == 0 {
            0
        } else {
            (self.exponent + 150) as u32 * 0x80_0000 + (self.significand - SIGNIFICAND_MIN)
        }
    }
}

/// The integer part of a value that was split into whole units and a rest.
proof fn lemma_whole_part(s: Single, whole: nat, rest: nat)
    requires
        s.value() == whole * unit(0) + rest,
        rest < unit(0),
    ensures
        s.value() / unit(0) == whole,
{
    lemma_fundamental_div_mod_converse(
        s.value() as int,
        unit(0) as int,
        whole as int,
        rest as int,
    );
}

/// Non-zero values are ordered by their exponents, then by their significands.
pub proof fn lemma_order(a: Single, b: Single)
    requires
        a.wf(),
        b.wf(),
    ensures
        a.significand == 0 ==> a.value() == 0,
        a.significand > 0 ==> a.value() > 0,
        a.significand > 0 && b.significand > 0 && a.exponent < b.exponent ==> a.value()
            < b.value(),
        a.significand > 0 && b.significand > 0 && a.exponent == b.exponent ==> (a.value()
            < b.value() <==> a.significand < b.significand),
{
    let m = a.significand as nat;
    let n = b.significand as nat;
    let u = unit(a.exponent as int);
    lemma_unit_pos(a.exponent as int);
    assert(m == 0 ==> m * u == 0) by (nonlinear_arith);
    assert(m > 0 ==> m * u > 0) by (nonlinear_arith)
        requires
            u > 0,
    ;
    if a.exponent == b.exponent {
        assert(m * u < n * u <==> m < n) by (nonlinear_arith)
            requires
                u > 0,
        ;
    } else if m > 0 && n > 0 && a.exponent < b.exponent {
        let k = (b.exponent - a.exponent) as nat;
        lemma2_to64();
        if k > 1 {
            lemma_pow2_strictly_increases(1, k);
        }
        lemma_pow2_adds((a.exponent + 200) as nat, k);
        assert(m * u < n * (u * pow2(k))) by (nonlinear_arith)
            requires
                m < 0x100_0000,
                n >= 0x80_0000,
                u > 0,
                pow2(k) >= 2,
        ;
    }
}

/// How far a number lies from a value: `|n / d - s|`, counted in units of two to the
/// power of -200 and multiplied by `d`.
pub open spec fn distance(n: nat, d: nat, s: Single) -> nat {
    let exact = n * unit(0);
    let rounded = s.value() * d;
    if exact < rounded {
        (rounded - exact) as nat
    } else {
        (exact - rounded) as nat
    }
}

/// A quotient that has an exponent, seen as a count of the units of that exponent.
pub proof fn lemma_grid(n: nat, d: nat, exponent: int)
    requires
        has_exponent(n, d, exponent),
    ensures
        d > 0,
        nearest(n, d).value() == round_half_even(n * unit(0), d * unit(exponent)) * unit(exponent),
        nearest(n, d).wf() || exponent == EXPONENT_MAX,
        nearest(n, d).significand > 0,
        exponent <= nearest(n, d).exponent <= exponent + 1,
{
    let a = n * unit(0);
    let b = d * unit(exponent);
    lemma_unit_pos(exponent);
    lemma_unit_pos(0);
    if b == 0 {
        assert(SIGNIFICAND_END * b == 0) by (nonlinear_arith)
            requires
                b == 0,
        ;
    }
    assert(d > 0) by (nonlinear_arith)
        requires
            b == d * unit(exponent),
            b != 0,
            d >= 0,
    ;
    lemma_nearest(n, d, exponent, a, b, 1);
    let q = round_half_even(a, b);
    if q == SIGNIFICAND_END {
        lemma2_to64();
        lemma_pow2_adds(1, (exponent + 200) as nat);
        let u = unit(exponent);
        assert(0x80_0000 * (2 * u) == 0x100_0000 * u);
    }
}

/// An integer quotient rounded half to even is closest to the quotient.
proof fn lemma_round_half_even_closest(a: nat, b: nat, t: int)
    requires
        b > 0,
    ensures
        ({
            let q = round_half_even(a, b);
            let near = if a < q * b { q * b - a } else { a - q * b };
            let far = if a < t * b { t * b - a } else { a - t * b };
            near <= far && 2 * near <= b
        }),
{
    let f = (a / b) as int;
    let r = (a % b) as int;
    let q = round_half_even(a, b);
    lemma_fundamental_div_mod(a as int, b as int);
    assert(a == f * b + r) by (nonlinear_arith)
        requires
            a == b * f + r,
    ;
    assert((f + 1) * b == f * b + b) by (nonlinear_arith);
    if t <= f {
        assert(t * b <= f * b) by (nonlinear_arith)
            requires
                t <= f,
                b > 0,
        ;
    } else {
        assert(t * b >= (f + 1) * b) by (nonlinear_arith)
            requires
                t >= f + 1,
                b > 0,
        ;
    }
}

/// Rounding finds the closest value: no other value of the format lies closer to a
/// quotient than the one it is rounded to.
pub proof fn law_nearest_is_closest(n: nat, d: nat, exponent: int, other: Single)
    requires
        has_exponent(n, d, exponent),
        other.wf(),
    ensures
        distance(n, d, nearest(n, d)) <= distance(n, d, other),
{
    let a = n * unit(0);
    let u = unit(exponent);
    let b = d * u;
    let q = round_half_even(a, b);
    lemma_grid(n, d, exponent);
    lemma_unit_pos(exponent);
    assert(b > 0) by (nonlinear_arith)
        requires
            d > 0,
            u > 0,
            b == d * u,
    ;
    assert((q * u) * d == q * b) by (nonlinear_arith)
        requires
            b == d * u,
    ;
    let v = other.value();
    // The values beside the quotient's own exponent lie outside of its range.
    let t: int = if other.significand == 0 || other.exponent < exponent {
        0x80_0000
    } else if other.exponent > exponent {
        0x100_0000
    } else {
        other.significand as int
    };
    lemma_round_half_even_closest(a, b, t);
    assert((t * u) * d == t * b) by (nonlinear_arith)
        requires
            b == d * u,
    ;
    if other.significand == 0 || other.exponent < exponent {
        let low = Single { significand: SIGNIFICAND_MIN, exponent: exponent as i32 };
        lemma_order(other, low);
        lemma_order(low, other);
        assert(v <= t * u);
        assert(v * d <= (t * u) * d) by (nonlinear_arith)
            requires
                v <= t * u,
                d > 0,
        ;
        assert(SIGNIFICAND_MIN * b == t * b);
    } else if other.exponent > exponent {
        lemma2_to64();
        let k = (other.exponent - exponent) as nat;
        lemma_pow2_adds((exponent + 200) as nat, k);
        if k > 1 {
            lemma_pow2_strictly_increases(1, k);
        }
        let m = other.significand as nat;
        assert(m * (u * pow2(k)) >= t * u) by (nonlinear_arith)
            requires
                m >= 0x80_0000,
                pow2(k) >= 2,
                t == 0x100_0000,
                u > 0,
        ;
        assert(v * d >= (t * u) * d) by (nonlinear_arith)
            requires
                v >= t * u,
                d > 0,
        ;
        assert(SIGNIFICAND_END * b == t * b);
    }
}

/// Rounding errs by at most one part in two to the power of 24.
pub proof fn law_nearest_error(n: nat, d: nat, exponent: int)
    requires
        has_exponent(n, d, exponent),
    ensures
        distance(n, d, nearest(n, d)) * 0x100_0000 <= n * unit(0),
{
    let a = n * unit(0);
    let u = unit(exponent);
    let b = d * u;
    let q = round_half_even(a, b);
    lemma_grid(n, d, exponent);
    lemma_unit_pos(exponent);
    assert(b > 0) by (nonlinear_arith)
        requires
            d > 0,
            u > 0,
            b == d * u,
    ;
    assert((q * u) * d == q * b) by (nonlinear_arith)
        requires
            b == d * u,
    ;
    lemma_round_half_even_closest(a, b, 0);
    assert(SIGNIFICAND_MIN * b == 0x80_0000 * b);
}

/// A quotient that is itself a value of the format is not changed by rounding.
pub proof fn law_nearest_exact(n: nat, d: nat, s: Single)
    requires
        d > 0,
        s.wf(),
        n * unit(0) == s.value() * d,
    ensures
        nearest(n, d) == s,
{
    let u = unit(s.exponent as int);
    lemma_unit_pos(s.exponent as int);
    lemma_unit_pos(0);
    lemma_order(s, s);
    if s.significand == 0 {
        assert(n == 0) by (nonlinear_arith)
            requires
                n * unit(0) == s.value() * d,
                s.value() == 0,
                unit(0) > 0,
        ;
    } else {
        let m = s.significand as nat;
        let c = d * u;
        assert(c > 0) by (nonlinear_arith)
            requires
                d > 0,
                u > 0,
                c == d * u,
        ;
        assert((m * u) * d == m * (d * u)) by (nonlinear_arith);
        lemma_nearest(n, d, s.exponent as int, m, 1, c);
        assert(round_half_even(m, 1) == m);
    }
}

/// Dividing by one changes nothing.
pub proof fn law_div_by_one(s: Single)
    requires
        s.wf(),
    ensures
        s.spec_div(Single::spec_one()) == s,
{
    lemma2_to64();
    lemma_pow2_adds(23, 177);
    lemma_unit_pos(0);
    law_nearest_exact(s.value(), unit(0), s);
}

/// A number of at most 24 significant bits is a value of the format: doubling it `left`
/// times fills the significand.
proof fn lemma_representable(y: nat, exponent: int, left: nat) -> (s: Single)
    requires
        0 < y < SIGNIFICAND_END,
        SIGNIFICAND_MIN <= y * pow2(left),
        EXPONENT_MIN + left <= exponent <= EXPONENT_MAX,
    ensures
        s.wf(),
        s.significand > 0,
        s.value() == y * unit(exponent),
    decreases left,
{
    lemma2_to64();
    if y >= SIGNIFICAND_MIN {
        Single { significand: y as u32, exponent: exponent as i32 }
    } else {
        if left == 0 {
            assert(y * pow2(left) == y) by (nonlinear_arith)
                requires
                    pow2(left) == 1,
            ;
        }
        let rest = (left - 1) as nat;
        lemma_pow2_adds(1, rest);
        assert(y * (2 * pow2(rest)) == (2 * y) * pow2(rest)) by (nonlinear_arith);
        lemma_pow2_adds(1, (exponent + 199) as nat);
        assert(y * (2 * unit(exponent - 1)) == (2 * y) * unit(exponent - 1)) by (nonlinear_arith);
        lemma_representable(2 * y, exponent - 1, rest)
    }
}

/// Every integer of at most 24 significant bits is held exactly.
pub proof fn law_integers_exact(x: u32, y: u32, shift: nat)
    requires
        y < SIGNIFICAND_END,
        x == y * pow2(shift),
        shift < 32,
    ensures
        Single::spec_from_u32(x).value() == x * unit(0),
        Single::spec_from_u32(x).wf(),
{
    lemma2_to64();
    if y == 0 {
        assert(x == 0) by (nonlinear_arith)
            requires
                x == y * pow2(shift),
                y == 0,
        ;
        lemma_order(Single::spec_from_u32(x), Single::spec_from_u32(x));
        assert(x * unit(0) == 0) by (nonlinear_arith)
            requires
                x == 0,
        ;
    } else {
        assert(y * pow2(23) >= SIGNIFICAND_MIN) by (nonlinear_arith)
            requires
                y >= 1,
                pow2(23) == SIGNIFICAND_MIN,
        ;
        let s = lemma_representable(y as nat, shift as int, 23);
        lemma_pow2_adds(shift, 200);
        assert(y * (pow2(shift) * unit(0)) == (y * pow2(shift)) * unit(0)) by (nonlinear_arith);
        law_nearest_exact(x as nat, 1, s);
    }
}

/// Every integer below two to the power of 24 is held exactly.
pub proof fn law_small_integers_exact(x: u32)
    requires
        x < SIGNIFICAND_END,
    ensures
        Single::spec_from_u32(x).value() == x * unit(0),
        Single::spec_from_u32(x).wf(),
{
    lemma2_to64();
    assert(x == x * pow2(0)) by (nonlinear_arith)
        requires
            pow2(0) == 1,
    ;
    law_integers_exact(x, x, 0);
}

/// The exponent of a positive integer.
pub proof fn lemma_integer_exponent(x: nat, bits: nat) -> (exponent: int)
    requires
        pow2(bits) <= x < pow2(32),
        bits < 32,
    ensures
        has_exponent(x, 1, exponent),
        bits - 23 <= exponent <= 8,
    decreases 32 - bits,
{
    lemma2_to64();
    if x >= pow2(bits + 1) {
        if bits == 31 {
            assert(false);
        }
        lemma_integer_exponent(x, bits + 1)
    } else {
        let e = bits - 23;
        let u = unit(e);
        lemma_unit_pos(0);
        lemma_pow2_adds(23, (e + 200) as nat);
        lemma_pow2_adds(24, (e + 200) as nat);
        lemma_pow2_adds(bits, 200);
        lemma_pow2_adds(bits + 1, 200);
        assert(x * unit(0) >= pow2(bits) * unit(0)) by (nonlinear_arith)
            requires
                x >= pow2(bits),
        ;
        assert(x * unit(0) < pow2(bits + 1) * unit(0)) by (nonlinear_arith)
            requires
                x < pow2(bits + 1),
                unit(0) > 0,
        ;
        assert(1 * u == u);
        e
    }
}

/// The exponent of the quotient of two non-zero values.
pub proof fn lemma_quotient_exponent(a: Single, b: Single) -> (exponent: int)
    requires
        a.wf(),
        b.wf(),
        a.significand > 0,
        b.significand > 0,
        -125 <= a.exponent - b.exponent <= 126,
    ensures
        has_exponent(a.value(), b.value(), exponent),
        a.exponent - b.exponent - 24 <= exponent <= a.exponent - b.exponent - 23,
{
    lemma2_to64();
    let m = a.significand as nat;
    let n = b.significand as nat;
    let k: nat = if m >= n {
        23
    } else {
        24
    };
    let ea = a.exponent as int;
    let eb = b.exponent as int;
    let e = ea - eb - k;
    let c = pow2((ea - k + 400) as nat);
    lemma_pow2_pos((ea - k + 400) as nat);
    lemma_pow2_adds((ea + 200) as nat, 200);
    lemma_pow2_adds(k, (ea - k + 400) as nat);
    lemma_pow2_adds((eb + 200) as nat, (e + 200) as nat);
    assert((m * unit(ea)) * unit(0) == (m * pow2(k)) * c) by (nonlinear_arith)
        requires
            unit(ea) * unit(0) == pow2(k) * c,
    ;
    assert((n * unit(eb)) * unit(e) == n * c) by (nonlinear_arith)
        requires
            unit(eb) * unit(e) == c,
    ;
    assert(SIGNIFICAND_MIN * (n * c) <= (m * pow2(k)) * c < SIGNIFICAND_END * (n * c))
        by (nonlinear_arith)
        requires
            0x80_0000 <= m < 0x100_0000,
            0x80_0000 <= n < 0x100_0000,
            m >= n ==> pow2(k) == 0x80_0000,
            m < n ==> pow2(k) == 0x100_0000,
            c > 0,
    {
        assert(0x80_0000 * n <= m * pow2(k) < 0x100_0000 * n);
    }
    e
}

/// Where two values lie equally close to a quotient, rounding takes the one with the even
/// significand.
pub proof fn law_ties_to_even(n: nat, d: nat, exponent: int, other: Single)
    requires
        has_exponent(n, d, exponent),
        other.wf(),
        other != nearest(n, d),
        distance(n, d, other) == distance(n, d, nearest(n, d)),
    ensures
        nearest(n, d).significand % 2 == 0,
{
    let a = n * unit(0);
    let u = unit(exponent);
    let b = d * u;
    let q = round_half_even(a, b);
    lemma_grid(n, d, exponent);
    lemma_unit_pos(exponent);
    assert(b > 0) by (nonlinear_arith)
        requires
            d > 0,
            u > 0,
            b == d * u,
    ;
    assert((q * u) * d == q * b) by (nonlinear_arith)
        requires
            b == d * u,
    ;
    lemma_nearest(n, d, exponent, a, b, 1);
    let v = other.value();
    if other.significand == 0 || other.exponent < exponent {
        // A smaller value lies below the range of the exponent, and its lower end is closer.
        let t: int = 0x80_0000;
        let low = Single { significand: SIGNIFICAND_MIN, exponent: exponent as i32 };
        lemma_order(other, low);
        lemma_order(low, other);
        lemma_round_half_even_closest(a, b, t);
        assert((t * u) * d == t * b) by (nonlinear_arith)
            requires
                b == d * u,
        ;
        assert(v * d < (t * u) * d) by (nonlinear_arith)
            requires
                v < t * u,
                d > 0,
        ;
        assert(SIGNIFICAND_MIN * b == t * b);
    } else if other.exponent > exponent {
        // A larger value is at or above the end of the range.
        let t: int = 0x100_0000;
        lemma2_to64();
        let k = (other.exponent - exponent) as nat;
        lemma_pow2_adds((exponent + 200) as nat, k);
        if k > 1 {
            lemma_pow2_strictly_increases(1, k);
        }
        let m = other.significand as nat;
        let p = pow2(k);
        assert(m * (u * p) == (m * p) * u) by (nonlinear_arith);
        let w = (m * p) as int;
        assert(w >= t) by (nonlinear_arith)
            requires
                w == m * p,
                m >= 0x80_0000,
                p >= 2,
                t == 0x100_0000,
        ;
        assert((w * u) * d == w * b) by (nonlinear_arith)
            requires
                b == d * u,
        ;
        lemma_tie(a, b, w);
        assert(SIGNIFICAND_END * b == t * b);
        if q % 2 == 1 {
            // An odd result has no other integer as close.
            assert(w * b == q * b);
            assert(w == q) by (nonlinear_arith)
                requires
                    w * b == q * b,
                    b > 0,
            ;
        }
    } else {
        let w = other.significand as int;
        assert((w * u) * d == w * b) by (nonlinear_arith)
            requires
                b == d * u,
        ;
        lemma_tie(a, b, w);
        if q % 2 == 1 {
            assert(w == q) by (nonlinear_arith)
                requires
                    w * b == q * b,
                    b > 0,
            ;
        }
    }
}

/// An odd integer that a quotient was rounded to has no other integer as close.
proof fn lemma_tie(a: nat, b: nat, w: int)
    requires
        b > 0,
    ensures
        ({
            let q = round_half_even(a, b);
            let near = if a < q * b { q * b - a } else { a - q * b };
            let far = if a < w * b { w * b - a } else { a - w * b };
            q % 2 == 1 && far == near ==> w * b == q * b
        }),
{
    let f = (a / b) as int;
    let r = (a % b) as int;
    let q = round_half_even(a, b);
    lemma_fundamental_div_mod(a as int, b as int);
    assert(a == f * b + r) by (nonlinear_arith)
        requires
            a == b * f + r,
    ;
    assert((f + 1) * b == f * b + b) by (nonlinear_arith);
    assert((f + 2) * b == f * b + 2 * b) by (nonlinear_arith);
    assert((f - 1) * b == f * b - b) by (nonlinear_arith);
    if w <= f - 1 {
        assert(w * b <= (f - 1) * b) by (nonlinear_arith)
            requires
                w <= f - 1,
                b > 0,
        ;
    } else if w >= f + 2 {
        assert(w * b >= (f + 2) * b) by (nonlinear_arith)
            requires
                w >= f + 2,
                b > 0,
        ;
    }
}

/// No value of the format lies closer to an integer than the one it is converted to.
pub proof fn law_integers_to_closest(x: u32, other: Single)
    requires
        other.wf(),
    ensures
        Single::spec_from_u32(x).wf(),
        distance(x as nat, 1, Single::spec_from_u32(x)) <= distance(x as nat, 1, other),
{
    lemma2_to64();
    if x == 0 {
        law_small_integers_exact(0);
        assert(0 * unit(0) == 0);
        let s = Single::spec_from_u32(x);
        assert(s.value() * 1 == s.value());
    } else {
        let e = lemma_integer_exponent(x as nat, 0);
        lemma_grid(x as nat, 1, e);
        law_nearest_is_closest(x as nat, 1, e, other);
    }
}

/// No value of the format lies closer to a quotient than the one it is rounded to.
pub proof fn law_quotient_to_closest(a: Single, b: Single, other: Single)
    requires
        a.wf(),
        b.wf(),
        other.wf(),
        b.significand > 0,
        -125 <= a.exponent - b.exponent <= 126,
    ensures
        distance(a.value(), b.value(), a.spec_div(b)) <= distance(a.value(), b.value(), other),
{
    lemma_order(a, b);
    if a.significand == 0 {
        let zero = a.spec_div(b);
        lemma_order(zero, zero);
        assert(zero.value() * b.value() == 0) by (nonlinear_arith)
            requires
                zero.value() == 0,
        ;
        assert(a.value() * unit(0) == 0) by (nonlinear_arith)
            requires
                a.value() == 0,
        ;
    } else {
        let e = lemma_quotient_exponent(a, b);
        law_nearest_is_closest(a.value(), b.value(), e, other);
    }
}

/// The larger of two values is one of them and is below neither.
pub proof fn law_max(a: Single, b: Single)
    ensures
        a.spec_max(b) == a || a.spec_max(b) == b,
        a.spec_max(b).value() >= a.value(),
        a.spec_max(b).value() >= b.value(),
{
}

/// The whole part of a value is the largest integer that is not above it, as far as 32 bits
/// go.
pub proof fn law_whole_part(s: Single, x: u32)
    ensures
        x <= s.spec_to_u32() <==> x * unit(0) <= s.value(),
{
    let u = unit(0);
    let v = s.value();
    lemma_unit_pos(0);
    lemma_fundamental_div_mod(v as int, u as int);
    let whole = v / u;
    if x <= whole {
        assert(x * u <= whole * u) by (nonlinear_arith)
            requires
                x <= whole,
        ;
        assert(whole * u <= v) by (nonlinear_arith)
            requires
                v == u * whole + v % u,
                0 <= v % u,
        ;
    } else {
        assert(x * u >= (whole + 1) * u) by (nonlinear_arith)
            requires
                x >= whole + 1,
        ;
        assert((whole + 1) * u == u * whole + u) by (nonlinear_arith);
    }
}

/// An integer that is held exactly is its own whole part.
pub proof fn law_whole_part_of_integer(x: u32)
    requires
        Single::spec_from_u32(x).value() == x * unit(0),
    ensures
        Single::spec_from_u32(x).spec_to_u32() == x,
{
    lemma_unit_pos(0);
    lemma_whole_part(Single::spec_from_u32(x), x as nat, 0);
}

/// The bit pattern of a value has a clear sign bit, then the exponent of its leading bit
/// with a bias of 127, then the significand without that bit. Zero is all clear.
pub proof fn law_bits_layout(s: Single)
    requires
        s.wf(),
    ensures
        s.significand == 0 <==> s.spec_to_bits() == 0,
        s.spec_to_bits() < 0x8000_0000,
        s.significand > 0 ==> s.spec_to_bits() / 0x80_0000 == s.exponent + 23 + 127,
        s.significand > 0 ==> s.spec_to_bits() % 0x80_0000 == s.significand - 0x80_0000,
{
}

/// Bit patterns are ordered as their values, and no two values have the same.
pub proof fn law_bits_order(a: Single, b: Single)
    requires
        a.wf(),
        b.wf(),
    ensures
        a.spec_to_bits() < b.spec_to_bits() <==> a.value() < b.value(),
        a.spec_to_bits() == b.spec_to_bits() <==> a == b,
{
    lemma_order(a, b);
    lemma_order(b, a);
}

} // verus!
