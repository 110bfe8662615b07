//! Clock rates and clock divisors of the programmable I/O blocks.
//!
//! All rates are computed in single precision; see [`Single`].
use crate::single::{
    distance, has_exponent, law_div_by_one, law_integers_exact, law_nearest_error,
    law_nearest_exact, law_nearest_is_closest, law_quotient_to_closest, law_small_integers_exact,
    law_whole_part, lemma_grid, lemma_integer_exponent, lemma_order, lemma_quotient_exponent,
    nearest, unit, Single,
};
use vstd::arithmetic::power2::{lemma2_to64, lemma_pow2_adds, lemma_pow2_pos, pow2};
use vstd::prelude::*;

verus! {

/// The cycles per second at which ten cycles take one microsecond.
pub const SWJ_PINS_CYCLE_HZ: u32 = 10_000_000;

/// `system_clock_hz / cycles_per_clock`, each step rounded to single precision.
pub open spec fn spec_cycle_rate(system_clock_hz: u32, cycles_per_clock: u32) -> Single {
    Single::spec_from_u32(system_clock_hz).spec_div(Single::spec_from_u32(cycles_per_clock))
}

/// The divisor that brings a program of `cycles_per_clock` cycles per clock period to
/// `frequency_hz`; the default divisor where that is larger or where a rate is zero.
pub open spec fn spec_clock_divisor(
    system_clock_hz: u32,
    frequency_hz: u32,
    cycles_per_clock: u32,
) -> Single {
    if system_clock_hz == 0 || frequency_hz == 0 || cycles_per_clock == 0 {
        Single::spec_one()
    } else {
        spec_cycle_rate(system_clock_hz, cycles_per_clock).spec_div(
            Single::spec_from_u32(frequency_hz),
        ).spec_max(Single::spec_one())
    }
}

/// The rate that the default divisor gives, without its fraction. Without a cycle it is
/// unbounded, or zero for a stopped system clock.
pub open spec fn spec_default_swj_clock_hz(system_clock_hz: u32, cycles_per_clock: u32) -> u32 {
    if cycles_per_clock > 0 {
        spec_cycle_rate(system_clock_hz, cycles_per_clock).spec_div(
            Single::spec_one(),
        ).spec_to_u32()
    } else if system_clock_hz == 0 {
        0
    } else {
        u32::MAX
    }
}

/// The divisor that makes ten cycles one microsecond; the default divisor where that is
/// larger.
pub open spec fn spec_swj_pins_divisor(system_clock_hz: u32) -> Single {
    spec_cycle_rate(system_clock_hz, SWJ_PINS_CYCLE_HZ).spec_max(Single::spec_one())
}

/// The default divisor. A divisor of one makes the state-machine clock equal to the
/// board's system clock.
pub fn default_pio_divisor() -> (divisor: Single)
    ensures
        divisor == Single::spec_one(),
        divisor.wf(),
        divisor.value() == unit(0),
{
    Single::one()
}

/// The divisor of the state-machine clock for a program that spends `cycles_per_clock`
/// cycles on each period of `frequency_hz`.
pub fn clock_divisor(system_clock_hz: u32, frequency_hz: u32, cycles_per_clock: u32) -> (divisor:
    Single)
    ensures
        divisor == spec_clock_divisor(system_clock_hz, frequency_hz, cycles_per_clock),
        divisor.wf(),
        divisor.value() >= unit(0),
{
    if system_clock_hz == 0 || frequency_hz == 0 || cycles_per_clock == 0 {
        return default_pio_divisor();
    }
    Single::from_u32(system_clock_hz).div(Single::from_u32(cycles_per_clock)).div(
        Single::from_u32(frequency_hz),
    ).max(default_pio_divisor())
}

/// The clock rate that a program of `cycles_per_clock` cycles per clock period reaches
/// with the default divisor, without its fraction. With no cycle at all the rate is
/// unbounded, or zero for a stopped system clock.
pub fn default_swj_clock_hz(system_clock_hz: u32, cycles_per_clock: u32) -> (frequency_hz: u32)
    ensures
        frequency_hz == spec_default_swj_clock_hz(system_clock_hz, cycles_per_clock),
{
    if cycles_per_clock == 0 {
        return if system_clock_hz == 0 {
            0
        } else {
            u32::MAX
        };
    }
    Single::from_u32(system_clock_hz).div(Single::from_u32(cycles_per_clock)).div(
        default_pio_divisor(),
    ).to_u32()
}

/// The divisor under which the pin program of [`crate::program`] spends one
/// microsecond on ten cycles, or the default divisor for a slower system clock.
pub fn swj_pins_divisor(system_clock_hz: u32) -> (divisor: Single)
    ensures
        divisor == spec_swj_pins_divisor(system_clock_hz),
        divisor.wf(),
        divisor.value() >= unit(0),
{
    Single::from_u32(system_clock_hz).div(Single::from_u32(SWJ_PINS_CYCLE_HZ)).max(
        default_pio_divisor(),
    )
}

/// A positive rate as a single-precision value.
proof fn lemma_rate(x: u32) -> (s: Single)
    requires
        x > 0,
    ensures
        s == Single::spec_from_u32(x),
        s.wf(),
        s.significand > 0,
        -23 <= s.exponent <= 9,
        distance(x as nat, 1, s) * 0x100_0000 <= x * unit(0),
{
    lemma2_to64();
    let e = lemma_integer_exponent(x as nat, 0);
    lemma_grid(x as nat, 1, e);
    law_nearest_error(x as nat, 1, e);
    nearest(x as nat, 1)
}

/// The quotient of two positive rates.
proof fn lemma_ratio(a: Single, b: Single) -> (q: Single)
    requires
        a.wf(),
        b.wf(),
        a.significand > 0,
        b.significand > 0,
        -100 <= a.exponent - b.exponent <= 100,
    ensures
        q == a.spec_div(b),
        q.wf(),
        q.significand > 0,
        a.exponent - b.exponent - 24 <= q.exponent <= a.exponent - b.exponent - 22,
        distance(a.value(), b.value(), q) * 0x100_0000 <= a.value() * unit(0),
        a.value() >= b.value() ==> q.value() >= unit(0),
        a.value() <= b.value() ==> q.spec_max(Single::spec_one()) == Single::spec_one(),
{
    lemma2_to64();
    let e = lemma_quotient_exponent(a, b);
    lemma_grid(a.value(), b.value(), e);
    law_nearest_error(a.value(), b.value(), e);
    lemma_order(a, b);
    lemma_order(b, a);
    let q = nearest(a.value(), b.value());
    lemma_compare_to_one(a, b, e, q);
    q
}

/// A quotient of at least one rounds to at least one, one of at most one to at most one.
proof fn lemma_compare_to_one(a: Single, b: Single, e: int, q: Single)
    requires
        a.wf(),
        b.wf(),
        a.significand > 0,
        b.significand > 0,
        has_exponent(a.value(), b.value(), e),
        q == nearest(a.value(), b.value()),
        q.wf(),
        q.significand > 0,
        e <= q.exponent,
        a.exponent - b.exponent - 24 <= e <= a.exponent - b.exponent - 23,
    ensures
        a.value() >= b.value() ==> q.value() >= unit(0),
        a.value() <= b.value() ==> q.spec_max(Single::spec_one()) == Single::spec_one(),
{
    let one = Single::spec_one();
    lemma2_to64();
    lemma_pow2_adds(23, 177);
    lemma_order(one, q);
    lemma_order(q, one);
    assert(one.value() == unit(0));
    let x = a.value();
    let y = b.value();
    let u = unit(0);
    let v = q.value();
    lemma_order(b, b);
    law_nearest_is_closest(x, y, e, one);
    if x >= y && v < u {
        assert(v * y < u * y <= x * u) by (nonlinear_arith)
            requires
                v < u,
                y > 0,
                x >= y,
        ;
    }
    if x <= y && v > u {
        assert(v * y > u * y >= x * u) by (nonlinear_arith)
            requires
                v > u,
                y > 0,
                x <= y,
        ;
    }
}

/// Whether single precision holds an integer exactly.
pub open spec fn is_exact(x: u32) -> bool {
    Single::spec_from_u32(x).value() == x * unit(0)
}

/// The default divisor leaves the cycle rate as it is.
pub proof fn law_default_divisor_keeps_rate(system_clock_hz: u32, cycles_per_clock: u32)
    requires
        cycles_per_clock > 0,
    ensures
        spec_cycle_rate(system_clock_hz, cycles_per_clock).spec_div(Single::spec_one())
            == spec_cycle_rate(system_clock_hz, cycles_per_clock),
{
    if system_clock_hz == 0 {
        law_small_integers_exact(0);
        assert(0 * unit(0) == 0);
    } else {
        let s = lemma_rate(system_clock_hz);
        let c = lemma_rate(cycles_per_clock);
        let q = lemma_ratio(s, c);
    }
    law_div_by_one(spec_cycle_rate(system_clock_hz, cycles_per_clock));
}

/// A factor of a number with at most 24 significant bits has at most 24 itself.
proof fn lemma_factor(a: nat, b: nat, m: nat, shift: nat) -> (factor: (nat, nat))
    requires
        b > 0,
        a * b == m * pow2(shift),
    ensures
        a == factor.0 * pow2(factor.1),
        factor.0 <= m,
        factor.1 <= shift,
    decreases shift,
{
    lemma2_to64();
    if shift == 0 {
        assert(a <= m) by (nonlinear_arith)
            requires
                a * b == m * pow2(shift),
                pow2(shift) == 1,
                b > 0,
        ;
        assert(a * pow2(0) == a) by (nonlinear_arith)
            requires
                pow2(0) == 1,
        ;
        (a, 0)
    } else {
        let rest = (shift - 1) as nat;
        lemma_pow2_adds(1, rest);
        let p = pow2(rest);
        let h = a / 2;
        let k = b / 2;
        assert(m * (2 * p) == 2 * (m * p)) by (nonlinear_arith);
        if a % 2 == 0 {
            assert(h * b == m * p) by (nonlinear_arith)
                requires
                    (2 * h) * b == 2 * (m * p),
            ;
            let (y, i) = lemma_factor(h, b, m, rest);
            lemma_pow2_adds(1, i);
            assert(2 * (y * pow2(i)) == y * (2 * pow2(i))) by (nonlinear_arith);
            (y, i + 1)
        } else {
            assert(b % 2 == 0) by {
                if b % 2 == 1 {
                    assert(a * b == 2 * (2 * (h * k) + h + k) + 1) by (nonlinear_arith)
                        requires
                            a == 2 * h + 1,
                            b == 2 * k + 1,
                    ;
                }
            }
            assert(a * k == m * p) by (nonlinear_arith)
                requires
                    a * (2 * k) == 2 * (m * p),
            ;
            let (y, i) = lemma_factor(a, k, m, rest);
            (y, i)
        }
    }
}

/// Single precision holds the factors of a number that it holds.
proof fn lemma_factor_exact(x: u32, a: u32, b: u32)
    requires
        b > 0,
        x == a * b,
        is_exact(x),
    ensures
        is_exact(a),
{
    lemma2_to64();
    lemma_pow2_pos(200);
    let u = unit(0);
    if a == 0 {
        law_small_integers_exact(0);
    } else {
        assert(a <= x) by (nonlinear_arith)
            requires
                x == a * b,
                b > 0,
        ;
        let s = lemma_rate(x);
        let m = s.significand as nat;
        if s.exponent >= 0 {
            let e = s.exponent as nat;
            let p = pow2(e);
            lemma_pow2_adds(e, 200);
            assert(x == m * p) by (nonlinear_arith)
                requires
                    x * u == m * (p * u),
                    u > 0,
            ;
            let (y, i) = lemma_factor(a as nat, b as nat, m, e);
            law_integers_exact(a, y as u32, i);
        } else {
            let e = -s.exponent as int;
            let v = unit(-e);
            let p = pow2(e as nat);
            lemma_pow2_pos(e as nat);
            lemma_pow2_pos((200 - e) as nat);
            lemma_pow2_adds(e as nat, (200 - e) as nat);
            assert(x <= m) by (nonlinear_arith)
                requires
                    x * (p * v) == m * v,
                    p >= 1,
                    v > 0,
            ;
            law_small_integers_exact(a);
        }
    }
}

/// The quotient of a number that single precision holds and one that divides it is their
/// ratio.
proof fn lemma_whole_ratio(x: u32, y: u32, ratio: u32)
    requires
        y > 0,
        x == ratio * y,
        is_exact(x),
    ensures
        Single::spec_from_u32(x).spec_div(Single::spec_from_u32(y)) == Single::spec_from_u32(
            ratio,
        ),
{
    let u = unit(0);
    lemma_pow2_pos(200);
    lemma_factor_exact(x, ratio, y);
    if ratio == 0 {
        law_small_integers_exact(0);
        assert(x == 0) by (nonlinear_arith)
            requires
                x == ratio * y,
                ratio == 0,
        ;
        assert(0 * u == 0);
    } else {
        let n = (x * u) as nat;
        let d = (y * u) as nat;
        let r = lemma_rate(ratio);
        assert(x == y * ratio) by (nonlinear_arith)
            requires
                x == ratio * y,
        ;
        lemma_factor_exact(x, y, ratio);
        assert((x * u) * u == (ratio * u) * (y * u)) by (nonlinear_arith)
            requires
                x == ratio * y,
        ;
        assert(d > 0) by (nonlinear_arith)
            requires
                d == y * u,
                y > 0,
                u > 0,
        ;
        law_nearest_exact(n, d, r);
    }
}

/// Where the system clock is a whole multiple of the clock period, the default clock
/// rate is that multiple, as long as single precision holds the system clock.
pub proof fn law_default_clock_of_whole_ratio(
    system_clock_hz: u32,
    cycles_per_clock: u32,
    ratio: u32,
)
    requires
        cycles_per_clock > 0,
        system_clock_hz == ratio * cycles_per_clock,
        is_exact(system_clock_hz),
    ensures
        spec_default_swj_clock_hz(system_clock_hz, cycles_per_clock) == ratio,
{
    law_default_divisor_keeps_rate(system_clock_hz, cycles_per_clock);
    lemma_whole_ratio(system_clock_hz, cycles_per_clock, ratio);
    lemma_factor_exact(system_clock_hz, ratio, cycles_per_clock);
    let u = unit(0);
    lemma_pow2_pos(200);
    vstd::arithmetic::div_mod::lemma_div_by_multiple(ratio as int, u as int);
}

/// Where the cycle rate is a whole multiple of the requested frequency, the divisor is
/// that multiple, as long as single precision holds the system clock.
pub proof fn law_clock_divisor_of_whole_ratio(
    system_clock_hz: u32,
    frequency_hz: u32,
    cycles_per_clock: u32,
    cycle_rate_hz: u32,
    ratio: u32,
)
    requires
        frequency_hz > 0,
        cycles_per_clock > 0,
        ratio > 0,
        system_clock_hz == cycle_rate_hz * cycles_per_clock,
        cycle_rate_hz == ratio * frequency_hz,
        is_exact(system_clock_hz),
    ensures
        spec_clock_divisor(system_clock_hz, frequency_hz, cycles_per_clock)
            == Single::spec_from_u32(ratio),
{
    let u = unit(0);
    assert(system_clock_hz > 0) by (nonlinear_arith)
        requires
            system_clock_hz == cycle_rate_hz * cycles_per_clock,
            cycle_rate_hz == ratio * frequency_hz,
            frequency_hz > 0,
            cycles_per_clock > 0,
            ratio > 0,
    ;
    lemma_factor_exact(system_clock_hz, cycle_rate_hz, cycles_per_clock);
    lemma_factor_exact(cycle_rate_hz, ratio, frequency_hz);
    lemma_whole_ratio(system_clock_hz, cycles_per_clock, cycle_rate_hz);
    lemma_whole_ratio(cycle_rate_hz, frequency_hz, ratio);
    lemma_one();
    assert(ratio * u >= u) by (nonlinear_arith)
        requires
            ratio >= 1,
            u >= 0,
    ;
}

/// A requested frequency at or above the cycle rate gets the default divisor, where both
/// are taken as single precision holds them.
pub proof fn law_clock_divisor_is_default(
    system_clock_hz: u32,
    frequency_hz: u32,
    cycles_per_clock: u32,
)
    requires
        system_clock_hz > 0,
        frequency_hz > 0,
        cycles_per_clock > 0,
        spec_cycle_rate(system_clock_hz, cycles_per_clock).value() <= Single::spec_from_u32(
            frequency_hz,
        ).value(),
    ensures
        spec_clock_divisor(system_clock_hz, frequency_hz, cycles_per_clock)
            == Single::spec_one(),
{
    let s = lemma_rate(system_clock_hz);
    let c = lemma_rate(cycles_per_clock);
    let f = lemma_rate(frequency_hz);
    let rate = lemma_ratio(s, c);
    let q = lemma_ratio(rate, f);
}

/// How far two numbers lie apart.
pub open spec fn apart(a: nat, b: nat) -> nat {
    if a < b {
        (b - a) as nat
    } else {
        (a - b) as nat
    }
}

/// A rounded quotient, multiplied out: `q` is `x / y` to one part in two to the power of
/// 24, and `y` is `n` to the same accuracy.
proof fn lemma_multiplied_out(x: int, y: int, q: int, n: int, u: int)
    requires
        0 <= x,
        0 <= q,
        0 < n,
        0 < u,
        (x * u - q * y) * 0x100_0000 <= x * u,
        (q * y - x * u) * 0x100_0000 <= x * u,
        (n * u - y) * 0x100_0000 <= n * u,
        (y - n * u) * 0x100_0000 <= n * u,
    ensures
        (q * n) * 0xFF_FFFF <= x * 0x100_0001,
        (q * n) * 0x100_0001 >= x * 0xFF_FFFF,
{
    let p = q * n;
    assert((q * (n * u)) == p * u) by (nonlinear_arith)
        requires
            p == q * n,
    ;
    assert(q * (0x100_0000 * y) >= q * (0xFF_FFFF * (n * u))) by (nonlinear_arith)
        requires
            q >= 0,
            0x100_0000 * y >= 0xFF_FFFF * (n * u),
    ;
    assert(q * (0x100_0000 * y) <= q * (0x100_0001 * (n * u))) by (nonlinear_arith)
        requires
            q >= 0,
            0x100_0000 * y <= 0x100_0001 * (n * u),
    ;
    assert(q * (0x100_0000 * y) == 0x100_0000 * (q * y)) by (nonlinear_arith);
    assert(q * (0xFF_FFFF * (n * u)) == 0xFF_FFFF * (q * (n * u))) by (nonlinear_arith);
    assert(q * (0x100_0001 * (n * u)) == 0x100_0001 * (q * (n * u))) by (nonlinear_arith);
    assert(p * 0xFF_FFFF <= x * 0x100_0001) by (nonlinear_arith)
        requires
            0xFF_FFFF * (p * u) <= 0x100_0001 * (x * u),
            u > 0,
    ;
    assert(p * 0x100_0001 >= x * 0xFF_FFFF) by (nonlinear_arith)
        requires
            0x100_0001 * (p * u) >= 0xFF_FFFF * (x * u),
            u > 0,
    ;
}

/// A divisor meets the requested frequency to one part in two to the power of 21 where the
/// cycle rate is at least that: the system clock lies that close to `divisor` times
/// `frequency_hz` times `cycles_per_clock`. For a higher frequency the divisor is one to
/// the same accuracy.
pub proof fn law_clock_divisor_meets_frequency(
    system_clock_hz: u32,
    frequency_hz: u32,
    cycles_per_clock: u32,
)
    requires
        system_clock_hz > 0,
        frequency_hz > 0,
        cycles_per_clock > 0,
    ensures
        ({
            let divisor = spec_clock_divisor(system_clock_hz, frequency_hz, cycles_per_clock);
            let period = (frequency_hz * cycles_per_clock) as nat;
            let clock = (system_clock_hz * unit(0)) as nat;
            &&& system_clock_hz >= period ==> apart(clock, divisor.value() * period) * 0x20_0000
                <= clock
            &&& system_clock_hz <= period ==> apart(unit(0), divisor.value()) * 0x20_0000 <= unit(
                0,
            )
        }),
{
    let u = unit(0) as int;
    lemma_pow2_pos(200);
    lemma_one();
    let s = lemma_rate(system_clock_hz);
    let c = lemma_rate(cycles_per_clock);
    let f = lemma_rate(frequency_hz);
    let rate = lemma_ratio(s, c);
    let q = lemma_ratio(rate, f);
    let divisor = spec_clock_divisor(system_clock_hz, frequency_hz, cycles_per_clock);
    let n = cycles_per_clock as int;
    let g = frequency_hz as int;
    let x = s.value() as int;
    let r = rate.value() as int;
    let v = q.value() as int;
    assert(1 * u == u);
    assert(c.value() * 1 == c.value() && f.value() * 1 == f.value() && s.value() * 1
        == s.value());
    assert(x * u == s.value() * unit(0) && r * u == rate.value() * unit(0));
    lemma_multiplied_out(x, c.value() as int, r, n, u);
    lemma_multiplied_out(r, f.value() as int, v, g, u);
    let clock = system_clock_hz * u;
    let period = g * n;
    let reached = v * period;
    assert(reached == (v * g) * n) by (nonlinear_arith)
        requires
            reached == v * period,
            period == g * n,
    ;
    let w = v * g;
    assert((w * n) * 0xFF_FFFF <= (r * n) * 0x100_0001) by (nonlinear_arith)
        requires
            w * 0xFF_FFFF <= r * 0x100_0001,
            n > 0,
    ;
    assert((w * n) * 0x100_0001 >= (r * n) * 0xFF_FFFF) by (nonlinear_arith)
        requires
            w * 0x100_0001 >= r * 0xFF_FFFF,
            n > 0,
    ;
    assert(x * 0x100_0000 <= clock * 0x100_0001);
    assert(x * 0x100_0000 >= clock * 0xFF_FFFF);
    assert(clock > 0) by (nonlinear_arith)
        requires
            clock == system_clock_hz * u,
            system_clock_hz > 0,
            u > 0,
    ;
    // Five roundings, each to one part in two to the power of 24.
    assert((reached - clock) * 0x20_0000 <= clock);
    assert((clock - reached) * 0x20_0000 <= clock);
    let least = u * period;
    assert(v < u ==> reached < least) by (nonlinear_arith)
        requires
            reached == v * period,
            least == u * period,
            period == g * n,
            g > 0,
            n > 0,
    ;
    if system_clock_hz >= period {
        assert(least <= clock) by (nonlinear_arith)
            requires
                least == u * period,
                clock == system_clock_hz * u,
                system_clock_hz >= period,
                u > 0,
        ;
    }
    if system_clock_hz <= period {
        assert(clock <= least) by (nonlinear_arith)
            requires
                least == u * period,
                clock == system_clock_hz * u,
                system_clock_hz <= period,
                u > 0,
        ;
        assert((v - u) * 0x20_0000 <= u) by (nonlinear_arith)
            requires
                v * period * 0x20_0000 <= (u * period) * 0x20_0001,
                period == g * n,
                g > 0,
                n > 0,
        ;
    }
}

proof fn lemma_one()
    ensures
        Single::spec_one().value() == unit(0),
{
    lemma2_to64();
    lemma_pow2_adds(23, 177);
}

/// Ten cycles of the pin program take one microsecond, to one part in two to the power
/// of 22, under a system clock of at least ten megahertz; under a slower one the
/// program runs undivided.
pub proof fn law_swj_pins_cycle(system_clock_hz: u32)
    ensures
        ({
            let divisor = spec_swj_pins_divisor(system_clock_hz);
            let clock = (system_clock_hz * unit(0)) as nat;
            let reached = divisor.value() * 10_000_000;
            let error = if reached < clock { clock - reached } else { reached - clock };
            &&& system_clock_hz <= 10_000_000 ==> divisor == Single::spec_one()
            &&& system_clock_hz >= 10_000_000 ==> error * 0x40_0000 <= clock
        }),
{
    let u = unit(0);
    lemma_pow2_pos(200);
    lemma_one();
    law_small_integers_exact(10_000_000);
    let h = lemma_rate(10_000_000);
    if system_clock_hz == 0 {
        law_small_integers_exact(0);
        assert(0 * u == 0);
        assert(spec_cycle_rate(0, SWJ_PINS_CYCLE_HZ).value() == 0) by (nonlinear_arith)
            requires
                spec_cycle_rate(0, SWJ_PINS_CYCLE_HZ).significand == 0,
                spec_cycle_rate(0, SWJ_PINS_CYCLE_HZ).value() == spec_cycle_rate(
                    0,
                    SWJ_PINS_CYCLE_HZ,
                ).significand as nat * unit(
                    spec_cycle_rate(0, SWJ_PINS_CYCLE_HZ).exponent as int,
                ),
        ;
    } else {
        let s = lemma_rate(system_clock_hz);
        let q = lemma_ratio(s, h);
        let x = s.value() as int;
        let clock = system_clock_hz * u;
        let limit = 10_000_000 * u;
        if system_clock_hz <= 10_000_000 {
            law_small_integers_exact(system_clock_hz);
            assert(clock <= limit) by (nonlinear_arith)
                requires
                    clock == system_clock_hz * u,
                    limit == 10_000_000 * u,
                    system_clock_hz <= 10_000_000,
            ;
        }
        if system_clock_hz >= 10_000_000 {
            lemma2_to64();
            let e = lemma_integer_exponent(system_clock_hz as nat, 0);
            law_nearest_is_closest(system_clock_hz as nat, 1, e, h);
            assert(limit <= clock) by (nonlinear_arith)
                requires
                    clock == system_clock_hz * u,
                    limit == 10_000_000 * u,
                    system_clock_hz >= 10_000_000,
            ;
            assert(x >= limit);
            let v = q.value() as int;
            let reached = v * 10_000_000;
            assert(v * limit == reached * u) by (nonlinear_arith)
                requires
                    limit == 10_000_000 * u,
                    reached == v * 10_000_000,
            ;
            let step = if x < reached { reached - x } else { x - reached };
            assert(distance(s.value(), h.value(), q) == step * u) by (nonlinear_arith)
                requires
                    step == if x < reached { reached - x } else { x - reached },
                    distance(s.value(), h.value(), q) == if x * u < reached * u {
                        reached * u - x * u
                    } else {
                        x * u - reached * u
                    },
                    u > 0,
            ;
            assert(step * 0x100_0000 <= x) by (nonlinear_arith)
                requires
                    (step * u) * 0x100_0000 <= x * u,
                    u > 0,
            ;
        }
    }
}

/// Without a clock, a frequency or a cycle, the divisor is one.
pub proof fn law_clock_divisor_of_nothing(
    system_clock_hz: u32,
    frequency_hz: u32,
    cycles_per_clock: u32,
)
    requires
        system_clock_hz == 0 || frequency_hz == 0 || cycles_per_clock == 0,
    ensures
        spec_clock_divisor(system_clock_hz, frequency_hz, cycles_per_clock).value() == unit(0),
        spec_clock_divisor(system_clock_hz, frequency_hz, cycles_per_clock).wf(),
{
    lemma_one();
}

/// A divisor is found in two roundings, first of the cycle rate and then of its ratio to the
/// frequency: no other value lies closer to either. Only a ratio below one is raised to
/// one.
pub proof fn law_clock_divisor_rounds_twice(
    system_clock_hz: u32,
    frequency_hz: u32,
    cycles_per_clock: u32,
    other: Single,
)
    requires
        system_clock_hz > 0,
        frequency_hz > 0,
        cycles_per_clock > 0,
        other.wf(),
    ensures
        ({
            let clock = Single::spec_from_u32(system_clock_hz).value();
            let cycles = Single::spec_from_u32(cycles_per_clock).value();
            let frequency = Single::spec_from_u32(frequency_hz).value();
            let rate = spec_cycle_rate(system_clock_hz, cycles_per_clock);
            let divisor = spec_clock_divisor(system_clock_hz, frequency_hz, cycles_per_clock);
            &&& distance(clock, cycles, rate) <= distance(clock, cycles, other)
            &&& divisor.value() >= unit(0)
            &&& distance(rate.value(), frequency, divisor) <= distance(
                rate.value(),
                frequency,
                other,
            ) || (rate.value() < frequency && divisor.value() == unit(0))
        }),
{
    let s = lemma_rate(system_clock_hz);
    let c = lemma_rate(cycles_per_clock);
    let f = lemma_rate(frequency_hz);
    let rate = lemma_ratio(s, c);
    let q = lemma_ratio(rate, f);
    lemma_one();
    law_quotient_to_closest(s, c, other);
    law_quotient_to_closest(rate, f, other);
}

/// The divisor of the pin program is found in one rounding: no other value lies closer to
/// the ratio of the system clock to ten megahertz. Only a ratio below one is raised to one.
pub proof fn law_swj_pins_divisor_rounds(system_clock_hz: u32, other: Single)
    requires
        other.wf(),
    ensures
        ({
            let clock = Single::spec_from_u32(system_clock_hz).value();
            let ten_megahertz = (10_000_000 * unit(0)) as nat;
            let divisor = spec_swj_pins_divisor(system_clock_hz);
            &&& divisor.value() >= unit(0)
            &&& distance(clock, ten_megahertz, divisor) <= distance(clock, ten_megahertz, other)
                || (clock < ten_megahertz && divisor.value() == unit(0))
        }),
{
    let u = unit(0);
    lemma_pow2_pos(200);
    lemma_one();
    law_small_integers_exact(10_000_000);
    let h = lemma_rate(10_000_000);
    let clock = Single::spec_from_u32(system_clock_hz);
    if system_clock_hz == 0 {
        law_small_integers_exact(0);
        assert(0 * u == 0);
        law_quotient_to_closest(clock, h, other);
        let q = clock.spec_div(h);
        lemma_order(q, q);
        assert(u < 10_000_000 * u);
    } else {
        let s = lemma_rate(system_clock_hz);
        let q = lemma_ratio(s, h);
        law_quotient_to_closest(s, h, other);
    }
}

/// The default clock rate is the largest whole number of hertz that is not above the cycle
/// rate, as far as 32 bits go. Without a cycle there is no limit, unless the system clock
/// stands still.
pub proof fn law_default_clock_is_whole_part(system_clock_hz: u32, cycles_per_clock: u32, x: u32)
    ensures
        cycles_per_clock > 0 ==> (x <= spec_default_swj_clock_hz(system_clock_hz, cycles_per_clock)
            <==> x * unit(0) <= spec_cycle_rate(system_clock_hz, cycles_per_clock).value()),
        cycles_per_clock == 0 && system_clock_hz > 0 ==> x <= spec_default_swj_clock_hz(
            system_clock_hz,
            cycles_per_clock,
        ),
        spec_default_swj_clock_hz(0, cycles_per_clock) == 0,
{
    if cycles_per_clock > 0 {
        law_default_divisor_keeps_rate(system_clock_hz, cycles_per_clock);
        law_default_divisor_keeps_rate(0, cycles_per_clock);
        law_whole_part(spec_cycle_rate(system_clock_hz, cycles_per_clock), x);
        law_small_integers_exact(0);
        lemma_pow2_pos(200);
        let zero = spec_cycle_rate(0, cycles_per_clock);
        assert(0 * unit(0) == 0);
        lemma_order(zero, zero);
        law_whole_part(zero, 1);
        assert(1 * unit(0) == unit(0));
    }
}

/// The default clock rate, taken `cycles_per_clock` times, meets the system clock to one
/// part in two to the power of 22 and less than one clock period.
pub proof fn law_default_clock_meets_system_clock(system_clock_hz: u32, cycles_per_clock: u32)
    requires
        cycles_per_clock > 0,
    ensures
        ({
            let frequency = spec_default_swj_clock_hz(system_clock_hz, cycles_per_clock);
            &&& (frequency * cycles_per_clock) * 0x40_0000 <= system_clock_hz * 0x40_0001
            &&& frequency < u32::MAX ==> ((frequency + 1) * cycles_per_clock) * 0x40_0000
                > system_clock_hz * 0x3F_FFFF
        }),
{
    let u = unit(0) as int;
    lemma_pow2_pos(200);
    let h = spec_default_swj_clock_hz(system_clock_hz, cycles_per_clock);
    law_default_clock_is_whole_part(system_clock_hz, cycles_per_clock, h);
    let n = cycles_per_clock as int;
    if system_clock_hz == 0 {
        assert(h * cycles_per_clock == 0) by (nonlinear_arith)
            requires
                h == 0,
        ;
        assert((h + 1) * cycles_per_clock > 0) by (nonlinear_arith)
            requires
                h == 0,
                cycles_per_clock > 0,
        ;
    } else {
        let s = lemma_rate(system_clock_hz);
        let c = lemma_rate(cycles_per_clock);
        let rate = lemma_ratio(s, c);
        let x = s.value() as int;
        let r = rate.value() as int;
        assert(1 * u == u);
        assert(c.value() * 1 == c.value() && s.value() * 1 == s.value());
        assert(x * u == s.value() * unit(0));
        lemma_multiplied_out(x, c.value() as int, r, n, u);
        let clock = system_clock_hz * u;
        assert(x * 0x100_0000 <= clock * 0x100_0001);
        assert(x * 0x100_0000 >= clock * 0xFF_FFFF);
        assert(clock > 0) by (nonlinear_arith)
            requires
                clock == system_clock_hz * u,
                system_clock_hz > 0,
                u > 0,
        ;
        assert((r * n) * 0x40_0000 <= clock * 0x40_0001);
        assert((r * n) * 0x40_0000 >= clock * 0x3F_FFFF);
        assert((h * n) * 0x40_0000 <= system_clock_hz * 0x40_0001) by (nonlinear_arith)
            requires
                h * u <= r,
                n > 0,
                u > 0,
                (r * n) * 0x40_0000 <= (system_clock_hz * u) * 0x40_0001,
        ;
        if h < u32::MAX {
            law_default_clock_is_whole_part(system_clock_hz, cycles_per_clock, (h + 1) as u32);
            assert(((h + 1) * n) * 0x40_0000 > system_clock_hz * 0x3F_FFFF) by (nonlinear_arith)
                requires
                    (h + 1) * u > r,
                    n > 0,
                    u > 0,
                    (r * n) * 0x40_0000 >= (system_clock_hz * u) * 0x3F_FFFF,
            ;
        }
    }
}

} // verus!
