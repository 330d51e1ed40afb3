use vstd::prelude::*;
use vstd::arithmetic::div_mod::lemma_basic_div;
use vstd::arithmetic::div_mod::lemma_div_is_ordered;
use vstd::arithmetic::div_mod::lemma_div_multiples_vanish_fancy;

use crate::GammaError;

verus! {

/// Largest table size the ramp builder accepts.  Large enough for any
/// compositor-reported ramp size while keeping every intermediate product
/// inside `u64`.
pub const MAX_RAMP_SIZE: usize = 0x0100_0000;

/// Rounding division: `round(a / b)` with ties rounded up.
pub open spec fn rdiv(a: nat, b: nat) -> nat
    recommends
        b >= 1,
{
    (a + b / 2) / b
}

/// Fixed-point multiply at scale 65535: `round_down((a * b + half) / 65535)`.
/// The unit value is 65535, so `fmul(65535, b) == b` exactly.
pub open spec fn fmul(a: nat, b: nat) -> nat {
    (a * b + 32767) / 65535
}

/// Integer square root, defined by counting up; characterized by
/// `lemma_isqrt_bounds`.
pub open spec fn isqrt(n: nat) -> nat
    decreases n,
{
    if n == 0 {
        0
    } else {
        let r = isqrt((n - 1) as nat);
        if (r + 1) * (r + 1) <= n {
            r + 1
        } else {
            r
        }
    }
}

/// Square root at fixed-point scale 65535: `sqrt(v / 65535)` scaled back up.
pub open spec fn sqrt_fp(v: nat) -> nat {
    isqrt(v * 65535)
}

/// Left fold of `e` fixed-point multiplications by `x` onto `acc`.
pub open spec fn ipow_fold(acc: nat, x: nat, e: nat) -> nat
    decreases e,
{
    if e == 0 {
        acc
    } else {
        ipow_fold(fmul(acc, x), x, (e - 1) as nat)
    }
}

/// Square-and-multiply over the binary digits of the fractional exponent
/// `rem / g`: each step takes one more square root of `x` and multiplies it
/// into `acc` when the corresponding binary digit of the fraction is set.
pub open spec fn frac_fold(acc: nat, x: nat, rem: nat, g: nat, fuel: nat) -> nat
    decreases fuel,
{
    if fuel == 0 {
        acc
    } else {
        let c = sqrt_fp(x);
        if 2 * rem >= g {
            frac_fold(fmul(acc, c), c, (2 * rem - g) as nat, g, (fuel - 1) as nat)
        } else {
            frac_fold(acc, c, 2 * rem, g, (fuel - 1) as nat)
        }
    }
}

/// Number of fractional-exponent binary digits the curve evaluates.
pub const FRAC_BITS: u64 = 32;

/// The gamma curve at fixed point: `x0` is the input fraction scaled to
/// `[0, 65535]`, `g` the gamma exponent in thousandths, and the result
/// approximates `x0 ^ (1000 / g)` at the same scale.  The exponent's integer
/// part is applied by repeated multiplication and its fractional part by
/// square-and-multiply over `FRAC_BITS` binary digits.
pub open spec fn curve_fp(x0: nat, g: nat) -> nat
    recommends
        g >= 1,
{
    frac_fold(ipow_fold(65535, x0, 1000 as nat / g), x0, 1000 as nat % g, g, FRAC_BITS as nat)
}

/// The value of sample `i` of a gamma ramp with `size` entries and exponent
/// `g` thousandths: endpoints are pinned to 0 and 65535, interior samples
/// follow the fixed-point curve applied to the rounded input fraction
/// `i / (size - 1)`.
pub open spec fn ramp_sample(i: nat, size: nat, g: nat) -> nat
    recommends
        2 <= size,
        i < size,
        g >= 1,
{
    if i == 0 {
        0
    } else if i == size - 1 {
        65535
    } else {
        curve_fp(rdiv(i * 65535, (size - 1) as nat), g)
    }
}

/// A computed gamma ramp: three per-channel lookup tables of equal length.
/// All three channels carry the same single luminance curve.
pub struct GammaRamp {
    pub red: Vec<u16>,
    pub green: Vec<u16>,
    pub blue: Vec<u16>,
}

impl GammaRamp {
    /// The three channels agree, hold `size` samples each, and sample `i`
    /// equals `ramp_sample(i, size, g)`.
    pub open spec fn matches(self, size: nat, g: nat) -> bool {
        &&& self.red.len() == size
        &&& self.green@ == self.red@
        &&& self.blue@ == self.red@
        &&& forall|i: int|
            0 <= i < size ==> self.red@[i] as nat == ramp_sample(i as nat, size, g)
    }
}

/// `r` is the integer square root of `n`.
pub open spec fn sqrt_ok(n: nat, r: nat) -> bool {
    r * r <= n && n < (r + 1) * (r + 1)
}

proof fn lemma_isqrt_bounds(n: nat)
    ensures
        sqrt_ok(n, isqrt(n)),
    decreases n,
{
    if n > 0 {
        lemma_isqrt_bounds((n - 1) as nat);
        let r = isqrt((n - 1) as nat);
        assert(sqrt_ok((n - 1) as nat, r));
        assert(r * r <= n - 1);
        assert(((n - 1) as nat) < (r + 1) * (r + 1));
        if (r + 1) * (r + 1) <= n {
            assert(isqrt(n) == r + 1);
            let s = (r + 1) as nat;
            assert(s * s <= n);
            assert(n < (s + 1) * (s + 1)) by (nonlinear_arith)
                requires
                    s == r + 1,
                    (r + 1) * (r + 1) <= n,
                    n <= (r + 1) * (r + 1),
            ;
            assert(sqrt_ok(n, s));
        } else {
            assert(isqrt(n) == r);
            assert(r * r <= n);
            assert(n < (r + 1) * (r + 1));
            assert(sqrt_ok(n, r));
        }
    } else {
        assert((0 + 1) * (0 + 1) == 1) by (nonlinear_arith);
        assert(isqrt(0) == 0);
        assert(sqrt_ok(0, 0));
    }
}

proof fn lemma_isqrt_unique(n: nat, r: nat)
    requires
        r * r <= n,
        n < (r + 1) * (r + 1),
    ensures
        r == isqrt(n),
{
    lemma_isqrt_bounds(n);
    let s = isqrt(n);
    assert(s * s <= n && n < (s + 1) * (s + 1));
    if r < s {
        assert((r + 1) * (r + 1) <= s * s) by (nonlinear_arith)
            requires
                r + 1 <= s,
        ;
    }
    if s < r {
        assert((s + 1) * (s + 1) <= r * r) by (nonlinear_arith)
            requires
                s + 1 <= r,
        ;
    }
}

proof fn lemma_fmul_le(a: nat, b: nat)
    requires
        a <= 65535,
        b <= 65535,
    ensures
        fmul(a, b) <= 65535,
{
    assert(a * b <= 65535 * 65535) by (nonlinear_arith)
        requires
            a <= 65535,
            b <= 65535,
    ;
    lemma_div_is_ordered((a * b + 32767) as int, (65535 * 65535 + 32767) as int, 65535 as int);
    assert((65535 * 65535 + 32767) / 65535 == 65535);
}

proof fn lemma_sqrt_fp_le(v: nat)
    requires
        v <= 65535,
    ensures
        sqrt_fp(v) <= 65535,
{
    lemma_isqrt_bounds(v * 65535);
    let r = isqrt(v * 65535);
    assert(r * r <= v * 65535);
    assert(v * 65535 <= 65535 * 65535) by (nonlinear_arith)
        requires
            v <= 65535,
    ;
    if r > 65535 {
        assert(65536 * 65536 <= r * r) by (nonlinear_arith)
            requires
                65536 <= r,
        ;
    }
}

fn isqrt_exec(n: u64) -> (r: u64)
    requires
        n < 0x1_0000_0000,
    ensures
        r == isqrt(n as nat),
        r <= 65535,
{
    let mut lo: u64 = 0;
    let mut hi: u64 = 65536;
    while lo + 1 < hi
        invariant
            lo < hi <= 65536,
            (lo * lo) as nat <= n as nat,
            (n as nat) < (hi * hi) as nat,
        decreases hi - lo,
    {
        let mid = lo + (hi - lo) / 2;
        proof {
            assert(lo < mid < hi);
            assert(mid * mid <= 65535 * 65535) by (nonlinear_arith)
                requires
                    mid <= 65535,
            ;
        }
        if mid * mid <= n {
            lo = mid;
        } else {
            hi = mid;
        }
    }
    proof {
        assert(lo + 1 == hi);
        lemma_isqrt_unique(n as nat, lo as nat);
    }
    lo
}

fn sqrt_fp_exec(v: u64) -> (r: u64)
    requires
        v <= 65535,
    ensures
        r == sqrt_fp(v as nat),
        r <= 65535,
{
    proof {
        assert(v * 65535 <= 65535 * 65535) by (nonlinear_arith)
            requires
                v <= 65535,
        ;
        lemma_sqrt_fp_le(v as nat);
    }
    isqrt_exec(v * 65535)
}

fn fmul_exec(a: u64, b: u64) -> (r: u64)
    requires
        a <= 65535,
        b <= 65535,
    ensures
        r == fmul(a as nat, b as nat),
        r <= 65535,
{
    proof {
        assert(a * b <= 65535 * 65535) by (nonlinear_arith)
            requires
                a <= 65535,
                b <= 65535,
        ;
        lemma_fmul_le(a as nat, b as nat);
    }
    (a * b + 32767) / 65535
}

fn curve_fp_exec(x0: u64, g: u64) -> (r: u64)
    requires
        1 <= g <= 0xFFFF_FFFF,
        x0 <= 65535,
    ensures
        r == curve_fp(x0 as nat, g as nat),
        r <= 65535,
{
    let e_int: u64 = 1000 / g;
    let mut rem: u64 = 1000 % g;
    let mut acc: u64 = 65535;
    let mut k: u64 = e_int;
    while k > 0
        invariant
            k <= e_int,
            acc <= 65535,
            x0 <= 65535,
            ipow_fold(acc as nat, x0 as nat, k as nat) == ipow_fold(
                65535,
                x0 as nat,
                e_int as nat,
            ),
        decreases k,
    {
        acc = fmul_exec(acc, x0);
        k = k - 1;
    }
    let mut cur: u64 = x0;
    let mut fuel: u64 = FRAC_BITS;
    while fuel > 0
        invariant
            g >= 1,
            acc <= 65535,
            cur <= 65535,
            rem < g,
            g <= 0xFFFF_FFFF,
            frac_fold(acc as nat, cur as nat, rem as nat, g as nat, fuel as nat) == frac_fold(
                ipow_fold(65535, x0 as nat, e_int as nat),
                x0 as nat,
                (1000 as u64 % g) as nat,
                g as nat,
                FRAC_BITS as nat,
            ),
        decreases fuel,
    {
        cur = sqrt_fp_exec(cur);
        rem = 2 * rem;
        if rem >= g {
            rem = rem - g;
            acc = fmul_exec(acc, cur);
        }
        fuel = fuel - 1;
    }
    acc
}

/// Builds the three-channel gamma lookup table.
///
/// `gamma_milli` is the gamma exponent in thousandths (1000 means 1.0) and
/// must be positive; `size` is the per-channel table length and must be at
/// least 2 and at most `MAX_RAMP_SIZE`.  On success every channel holds
/// exactly `size` samples following `ramp_sample`: 0 at the first entry,
/// 65535 at the last, and the fixed-point curve `fraction ^ (1000 /
/// gamma_milli)` in between.
pub fn compute_ramp(size: usize, gamma_milli: u32) -> (r: Result<GammaRamp, GammaError>)
    ensures
        gamma_milli == 0 ==> r == Err::<GammaRamp, GammaError>(GammaError::InvalidGamma),
        gamma_milli >= 1 && (size < 2 || size > MAX_RAMP_SIZE) ==> r == Err::<
            GammaRamp,
            GammaError,
        >(GammaError::InvalidRampSize),
        gamma_milli >= 1 && 2 <= size <= MAX_RAMP_SIZE ==> r is Ok,
        r matches Ok(ramp) ==> gamma_milli >= 1 && 2 <= size <= MAX_RAMP_SIZE && ramp.matches(
            size as nat,
            gamma_milli as nat,
        ),
{
    if gamma_milli == 0 {
        return Err(GammaError::InvalidGamma);
    }
    if size < 2 || size > MAX_RAMP_SIZE {
        return Err(GammaError::InvalidRampSize);
    }
    let mut red: Vec<u16> = Vec::new();
    let mut i: usize = 0;
    let den: u64 = (size - 1) as u64;
    while i < size
        invariant
            2 <= size <= MAX_RAMP_SIZE,
            den == size - 1,
            1 <= gamma_milli,
            i <= size,
            red.len() == i,
            forall|j: int|
                0 <= j < i ==> red@[j] as nat == ramp_sample(
                    j as nat,
                    size as nat,
                    gamma_milli as nat,
                ),
        decreases size - i,
    {
        let s: u16 = if i == 0 {
            0
        } else if i == size - 1 {
            65535
        } else {
            let num: u64 = (i as u64) * 65535;
            let x0: u64 = (num + den / 2) / den;
            proof {
                assert(num + den / 2 < den * 65536) by (nonlinear_arith)
                    requires
                        num == i * 65535,
                        i < size - 1,
                        den == size - 1,
                        2 <= size,
                ;
                lemma_div_is_ordered((num + den / 2) as int, (den * 65536 - 1) as int, den as int);
                assert((den * 65536 - 1) / (den as int) <= 65535) by (nonlinear_arith)
                    requires
                        den >= 1,
                ;
            }
            curve_fp_exec(x0, gamma_milli as u64) as u16
        };
        red.push(s);
        i = i + 1;
    }
    let green: Vec<u16> = red.clone();
    let blue: Vec<u16> = red.clone();
    proof {
        assert(green@ =~= red@);
        assert(blue@ =~= red@);
    }
    Ok(GammaRamp { red, green, blue })
}

proof fn lemma_frac_fold_zero(acc: nat, x: nat, g: nat, fuel: nat)
    requires
        g >= 1,
    ensures
        frac_fold(acc, x, 0, g, fuel) == acc,
    decreases fuel,
{
    if fuel > 0 {
        lemma_frac_fold_zero(acc, sqrt_fp(x), g, (fuel - 1) as nat);
    }
}

proof fn lemma_fmul_unit(b: nat)
    requires
        b <= 65535,
    ensures
        fmul(65535, b) == b,
{
    lemma_div_multiples_vanish_fancy(b as int, 32767, 65535);
    assert((65535 * (b as int) + 32767) / 65535 == b);
}

/// The rounded input fraction `rdiv(i * 65535, d)` never exceeds the unit
/// value while `i <= d`.
pub proof fn lemma_rdiv_le_unit(i: nat, d: nat)
    requires
        1 <= d,
        i <= d,
    ensures
        rdiv(i * 65535, d) <= 65535,
{
    assert(i * 65535 <= d * 65535) by (nonlinear_arith)
        requires
            i <= d,
    ;
    lemma_div_is_ordered((i * 65535 + d / 2) as int, (d * 65535 + d / 2) as int, d as int);
    lemma_div_multiples_vanish_fancy(65535, (d / 2) as int, d as int);
}

/// A gamma exponent of exactly 1.0 (1000 thousandths) yields the rounded
/// identity ramp: sample `i` equals `round(i * 65535 / (size - 1))`.
pub proof fn lemma_identity_ramp(i: nat, size: nat)
    requires
        2 <= size,
        i < size,
    ensures
        ramp_sample(i, size, 1000) == rdiv(i * 65535, (size - 1) as nat),
{
    let d = (size - 1) as nat;
    if i == 0 {
        assert(i * 65535 == 0) by (nonlinear_arith)
            requires
                i == 0,
        ;
        lemma_basic_div((d / 2) as int, d as int);
        assert(rdiv(0, d) == 0);
    } else if i == size - 1 {
        assert(i * 65535 == d * 65535) by (nonlinear_arith)
            requires
                i == d,
        ;
        lemma_div_multiples_vanish_fancy(65535, (d / 2) as int, d as int);
        assert(rdiv(i * 65535, d) == 65535);
    } else {
        let x0 = rdiv(i * 65535, d);
        lemma_rdiv_le_unit(i, d);
        assert(1000 as nat / 1000 == 1);
        assert(1000 as nat % 1000 == 0);
        assert(curve_fp(x0, 1000) == frac_fold(ipow_fold(65535, x0, 1), x0, 0, 1000, 32));
        assert(ipow_fold(65535, x0, 1) == ipow_fold(fmul(65535, x0), x0, 0));
        lemma_fmul_unit(x0);
        lemma_frac_fold_zero(x0, x0, 1000, 32);
    }
}

/// For every positive exponent the ramp is pinned to 0 at its first entry
/// and to 65535 at its last.
pub proof fn lemma_ramp_endpoints(size: nat, g: nat)
    requires
        2 <= size,
        g >= 1,
    ensures
        ramp_sample(0, size, g) == 0,
        ramp_sample((size - 1) as nat, size, g) == 65535,
{
}

proof fn lemma_fmul_mono(a: nat, b: nat, a2: nat, b2: nat)
    requires
        a <= a2,
        b <= b2,
    ensures
        fmul(a, b) <= fmul(a2, b2),
{
    assert(a * b <= a2 * b2) by (nonlinear_arith)
        requires
            a <= a2,
            b <= b2,
    ;
    lemma_div_is_ordered((a * b + 32767) as int, (a2 * b2 + 32767) as int, 65535 as int);
}

proof fn lemma_isqrt_mono(a: nat, b: nat)
    requires
        a <= b,
    ensures
        isqrt(a) <= isqrt(b),
{
    lemma_isqrt_bounds(a);
    lemma_isqrt_bounds(b);
    let r = isqrt(a);
    let s = isqrt(b);
    assert(r * r <= a);
    assert(b < (s + 1) * (s + 1));
    if s < r {
        assert((s + 1) * (s + 1) <= r * r) by (nonlinear_arith)
            requires
                s + 1 <= r,
        ;
    }
}

proof fn lemma_sqrt_fp_mono(a: nat, b: nat)
    requires
        a <= b,
    ensures
        sqrt_fp(a) <= sqrt_fp(b),
{
    assert(a * 65535 <= b * 65535) by (nonlinear_arith)
        requires
            a <= b,
    ;
    lemma_isqrt_mono(a * 65535, b * 65535);
}

proof fn lemma_ipow_fold_mono(acc: nat, x: nat, acc2: nat, x2: nat, e: nat)
    requires
        acc <= acc2,
        x <= x2,
    ensures
        ipow_fold(acc, x, e) <= ipow_fold(acc2, x2, e),
    decreases e,
{
    if e > 0 {
        lemma_fmul_mono(acc, x, acc2, x2);
        lemma_ipow_fold_mono(fmul(acc, x), x, fmul(acc2, x2), x2, (e - 1) as nat);
    }
}

proof fn lemma_frac_fold_mono(acc: nat, x: nat, acc2: nat, x2: nat, rem: nat, g: nat, fuel: nat)
    requires
        acc <= acc2,
        x <= x2,
    ensures
        frac_fold(acc, x, rem, g, fuel) <= frac_fold(acc2, x2, rem, g, fuel),
    decreases fuel,
{
    if fuel > 0 {
        lemma_sqrt_fp_mono(x, x2);
        let c = sqrt_fp(x);
        let c2 = sqrt_fp(x2);
        if 2 * rem >= g {
            lemma_fmul_mono(acc, c, acc2, c2);
            lemma_frac_fold_mono(
                fmul(acc, c),
                c,
                fmul(acc2, c2),
                c2,
                (2 * rem - g) as nat,
                g,
                (fuel - 1) as nat,
            );
        } else {
            lemma_frac_fold_mono(acc, c, acc2, c2, 2 * rem, g, (fuel - 1) as nat);
        }
    }
}

proof fn lemma_ipow_fold_le(acc: nat, x: nat, e: nat)
    requires
        acc <= 65535,
        x <= 65535,
    ensures
        ipow_fold(acc, x, e) <= 65535,
    decreases e,
{
    if e > 0 {
        lemma_fmul_le(acc, x);
        lemma_ipow_fold_le(fmul(acc, x), x, (e - 1) as nat);
    }
}

proof fn lemma_frac_fold_le(acc: nat, x: nat, rem: nat, g: nat, fuel: nat)
    requires
        acc <= 65535,
        x <= 65535,
    ensures
        frac_fold(acc, x, rem, g, fuel) <= 65535,
    decreases fuel,
{
    if fuel > 0 {
        lemma_sqrt_fp_le(x);
        let c = sqrt_fp(x);
        if 2 * rem >= g {
            lemma_fmul_le(acc, c);
            lemma_frac_fold_le(fmul(acc, c), c, (2 * rem - g) as nat, g, (fuel - 1) as nat);
        } else {
            lemma_frac_fold_le(acc, c, 2 * rem, g, (fuel - 1) as nat);
        }
    }
}

/// The fixed-point curve stays within the unit interval: inputs up to the
/// unit value give results up to the unit value.
pub proof fn lemma_curve_le_unit(x0: nat, g: nat)
    requires
        x0 <= 65535,
    ensures
        curve_fp(x0, g) <= 65535,
{
    lemma_ipow_fold_le(65535, x0, 1000 as nat / g);
    lemma_frac_fold_le(
        ipow_fold(65535, x0, 1000 as nat / g),
        x0,
        1000 as nat % g,
        g,
        FRAC_BITS as nat,
    );
}

/// The fixed-point curve is monotone in its input for a fixed exponent.
pub proof fn lemma_curve_mono(x0: nat, x02: nat, g: nat)
    requires
        x0 <= x02,
    ensures
        curve_fp(x0, g) <= curve_fp(x02, g),
{
    lemma_ipow_fold_mono(65535, x0, 65535, x02, 1000 as nat / g);
    lemma_frac_fold_mono(
        ipow_fold(65535, x0, 1000 as nat / g),
        x0,
        ipow_fold(65535, x02, 1000 as nat / g),
        x02,
        1000 as nat % g,
        g,
        FRAC_BITS as nat,
    );
}

/// Each ramp channel is monotonically non-decreasing: for indices
/// `i <= j` the sample at `i` never exceeds the sample at `j`.
pub proof fn lemma_ramp_monotone(i: nat, j: nat, size: nat, g: nat)
    requires
        2 <= size,
        i <= j,
        j < size,
        g >= 1,
    ensures
        ramp_sample(i, size, g) <= ramp_sample(j, size, g),
{
    let d = (size - 1) as nat;
    if i == 0 || i == j {
    } else if j == size - 1 {
        lemma_rdiv_le_unit(i, d);
        lemma_curve_le_unit(rdiv(i * 65535, d), g);
    } else {
        assert(i * 65535 <= j * 65535) by (nonlinear_arith)
            requires
                i <= j,
        ;
        lemma_div_is_ordered((i * 65535 + d / 2) as int, (j * 65535 + d / 2) as int, d as int);
        lemma_curve_mono(rdiv(i * 65535, d), rdiv(j * 65535, d), g);
    }
}

} // verus!
