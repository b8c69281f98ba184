//! Parts-per-billion ratios, as used for penalty factors, pool commissions and
//! the split of an author's hold between funding and collateral.

use vstd::prelude::*;

verus! {

/// The number of parts that make up a whole.
pub const ACCURACY: u32 = 1_000_000_000;

/// A ratio in `[0, 1]` with a precision of one part in a billion.
#[derive(Clone, Copy, Debug, PartialEq, Eq, Structural)]
pub struct Perbill {
    parts: u32,
}

impl Perbill {
    #[verifier::type_invariant]
    spec fn well_formed(self) -> bool {
        self.parts <= ACCURACY
    }

    /// The number of billionths this ratio stands for.
    pub closed spec fn spec_parts(self) -> nat {
        self.parts as nat
    }

    /// The ratio of `parts` billionths, clamped to one whole.
    pub fn from_parts(parts: u32) -> (r: Perbill)
        ensures
            r.spec_parts() == if parts <= ACCURACY { parts as nat } else { ACCURACY as nat },
    {
        if parts <= ACCURACY {
            Perbill { parts }
        } else {
            Perbill { parts: ACCURACY }
        }
    }

    /// The ratio of `x` percent, clamped to one whole.
    pub fn from_percent(x: u32) -> (r: Perbill)
        ensures
            r.spec_parts() == (if x <= 100 { x as nat } else { 100nat }) * 10_000_000,
    {
        let p: u32 = if x <= 100 { x } else { 100 };
        Perbill { parts: p * 10_000_000 }
    }

    /// The empty ratio.
    pub fn zero() -> (r: Perbill)
        ensures
            r.spec_parts() == 0,
    {
        Perbill { parts: 0 }
    }

    /// One whole.
    pub fn one() -> (r: Perbill)
        ensures
            r.spec_parts() == ACCURACY,
    {
        Perbill { parts: ACCURACY }
    }

    /// The number of billionths.
    pub fn deconstruct(&self) -> (r: u32)
        ensures
            r == self.spec_parts(),
            r <= ACCURACY,
    {
        proof {
            use_type_invariant(self);
        }
        self.parts
    }

    /// Whether the ratio is empty.
    pub fn is_zero(&self) -> (r: bool)
        ensures
            r == (self.spec_parts() == 0),
    {
        self.parts == 0
    }

    /// `floor(x * self)`.
    pub fn mul_floor(&self, x: u128) -> (r: u128)
        ensures
            r == (x as int) * (self.spec_parts() as int) / (ACCURACY as int),
    {
        proof {
            use_type_invariant(self);
        }
        let acc: u128 = 1_000_000_000;
        let p: u128 = self.parts as u128;
        let q: u128 = x / acc;
        let rem: u128 = x % acc;
        proof {
            lemma_split(x as int, p as int, acc as int);
        }
        let low: u128 = rem * p / acc;
        q * p + low
    }

    /// `ceil(x * self)`.
    pub fn mul_ceil(&self, x: u128) -> (r: u128)
        ensures
            r == spec_div_ceil((x as int) * (self.spec_parts() as int), ACCURACY as int),
    {
        proof {
            use_type_invariant(self);
        }
        let acc: u128 = 1_000_000_000;
        let p: u128 = self.parts as u128;
        let q: u128 = x / acc;
        let rem: u128 = x % acc;
        proof {
            lemma_split(x as int, p as int, acc as int);
        }
        let prod: u128 = rem * p;
        let low: u128 = if prod % acc == 0 { prod / acc } else { prod / acc + 1 };
        q * p + low
    }

    /// `p / q` rounded down; one whole where `q` is zero or `p > q`.
    pub fn from_rational(p: u128, q: u128) -> (r: Perbill)
        ensures
            r.spec_parts() == if q == 0 || p > q {
                ACCURACY as nat
            } else {
                ((p as int) * (ACCURACY as int) / (q as int)) as nat
            },
    {
        if q == 0 || p > q {
            return Perbill { parts: ACCURACY };
        }
        if p == q {
            proof {
                assert((p as int) * 1_000_000_000 / (q as int) == 1_000_000_000) by (nonlinear_arith)
                    requires p == q, q > 0;
            }
            return Perbill { parts: ACCURACY };
        }
        let parts = rational_parts(p, q);
        Perbill { parts }
    }
}

/// `ceil(a / b)` for a positive `b`.
pub open spec fn spec_div_ceil(a: int, b: int) -> int {
    if a % b == 0 {
        a / b
    } else {
        a / b + 1
    }
}

/// Splitting `x` into whole billions and a remainder keeps `x * p / acc` exact
/// and within `x`.
proof fn lemma_split(x: int, p: int, acc: int)
    requires
        0 <= x,
        0 <= p <= acc,
        acc == 1_000_000_000,
    ensures
        0 <= x / acc,
        0 <= x % acc < acc,
        (x % acc) * p < acc * acc,
        (x / acc) * p + spec_div_ceil((x % acc) * p, acc) <= x,
        x * p / acc == (x / acc) * p + (x % acc) * p / acc,
        spec_div_ceil(x * p, acc) == (x / acc) * p + spec_div_ceil((x % acc) * p, acc),
{
    let q = x / acc;
    let r = x % acc;
    assert(x == q * acc + r && 0 <= r < acc && q >= 0) by (nonlinear_arith)
        requires
            q == x / acc,
            r == x % acc,
            acc > 0,
            x >= 0,
    ;
    assert(r * p < acc * acc && r * p >= 0 && q * p >= 0 && q * p <= q * acc) by (nonlinear_arith)
        requires
            0 <= r < acc,
            0 <= p <= acc,
            q >= 0,
    ;
    assert(x * p == (q * p) * acc + r * p) by (nonlinear_arith)
        requires
            x == q * acc + r,
    ;
    let a = x * p;
    let b = r * p;
    let c = q * p;
    assert(a / acc == c + b / acc && a % acc == b % acc) by (nonlinear_arith)
        requires
            a == c * acc + b,
            acc > 0,
            b >= 0,
            c >= 0,
    ;
    assert(spec_div_ceil(b, acc) <= r) by {
        if p == acc {
            assert(b == r * acc);
            assert(b % acc == 0 && b / acc == r) by (nonlinear_arith)
                requires
                    b == r * acc,
                    acc > 0,
                    r >= 0,
            ;
        } else if r == 0 {
            assert(b == 0) by (nonlinear_arith)
                requires
                    b == r * p,
                    r == 0,
            ;
        } else {
            assert(b / acc < r) by (nonlinear_arith)
                requires
                    b == r * p,
                    p < acc,
                    r >= 1,
                    acc > 0,
                    p >= 0,
            ;
        }
    }
}

/// `floor(p * 10^9 / q)` for `0 <= p < q`, computed by long division within 128 bits.
fn rational_parts(p: u128, q: u128) -> (r: u32)
    requires
        p < q,
    ensures
        r <= ACCURACY,
        r == (p as int) * 1_000_000_000 / (q as int),
{
    let mut num: u128 = p;
    let mut result: u128 = 0;
    let mut i: u32 = 0;
    let ghost mut scale: int = 1;
    while i < 9
        invariant
            0 <= i <= 9,
            p < q,
            num < q,
            scale == pow10(i as nat),
            1 <= scale <= 1_000_000_000,
            0 <= result < scale,
            (p as int) * scale == (result as int) * (q as int) + num as int,
        decreases 9 - i,
    {
        let (d, n) = div_step(num, q);
        proof {
            lemma_pow10_step(i as nat);
            lemma_digit(p as int, q as int, scale, result as int, num as int, d as int, n as int);
        }
        result = result * 10 + d;
        num = n;
        i = i + 1;
        proof {
            scale = scale * 10;
        }
    }
    proof {
        assert(pow10(9) == 1_000_000_000) by {
            reveal_with_fuel(pow10, 10);
        }
        lemma_div_from_eq((p as int) * 1_000_000_000, result as int, q as int, num as int);
    }
    result as u32
}

proof fn lemma_digit(p: int, q: int, scale: int, result: int, num: int, d: int, n: int)
    requires
        0 <= p < q,
        0 <= num < q,
        0 <= n < q,
        0 <= d,
        1 <= scale,
        0 <= result < scale,
        p * scale == result * q + num,
        num * 10 == d * q + n,
    ensures
        p * (scale * 10) == (result * 10 + d) * q + n,
        0 <= result * 10 + d < scale * 10,
        d <= 9,
{
    assert(p * (scale * 10) == (result * 10 + d) * q + n) by (nonlinear_arith)
        requires
            p * scale == result * q + num,
            num * 10 == d * q + n,
    ;
    assert(d <= 9) by (nonlinear_arith)
        requires
            num * 10 == d * q + n,
            0 <= num < q,
            0 <= n,
            d >= 0,
    ;
    assert(result * 10 + d < scale * 10) by (nonlinear_arith)
        requires
            p * (scale * 10) == (result * 10 + d) * q + n,
            p < q,
            0 <= n,
            q > 0,
            scale >= 1,
            result * 10 + d >= 0,
    ;
}

spec fn pow10(n: nat) -> int
    decreases n,
{
    if n == 0 {
        1
    } else {
        pow10((n - 1) as nat) * 10
    }
}

proof fn lemma_pow10_step(n: nat)
    requires
        n < 9,
    ensures
        pow10(n + 1) == pow10(n) * 10,
        pow10(n + 1) <= 1_000_000_000,
{
    lemma_pow10_mono(n + 1);
}

proof fn lemma_pow10_mono(n: nat)
    requires
        n <= 9,
    ensures
        1 <= pow10(n) <= 1_000_000_000,
{
    lemma_pow10_pos(n);
    lemma_pow10_le(n, 9);
    assert(pow10(9) == 1_000_000_000) by {
        reveal_with_fuel(pow10, 10);
    }
}

proof fn lemma_pow10_le(m: nat, n: nat)
    requires
        m <= n,
    ensures
        pow10(m) <= pow10(n),
    decreases n,
{
    lemma_pow10_pos(m);
    if m < n {
        lemma_pow10_le(m, (n - 1) as nat);
        lemma_pow10_pos((n - 1) as nat);
    }
}

proof fn lemma_pow10_pos(n: nat)
    ensures
        pow10(n) >= 1,
    decreases n,
{
    if n > 0 {
        lemma_pow10_pos((n - 1) as nat);
    }
}

proof fn lemma_div_from_eq(a: int, d: int, q: int, r: int)
    requires
        a == d * q + r,
        0 <= r < q,
    ensures
        a / q == d,
{
    assert(a / q == d) by (nonlinear_arith)
        requires
            a == d * q + r,
            0 <= r < q,
    ;
}

/// One digit of long division: `10 * num == d * q + n` for `num < q`.
fn div_step(num: u128, q: u128) -> (r: (u128, u128))
    requires
        num < q,
    ensures
        r.0 <= 10,
        r.1 < q,
        (num as int) * 10 == (r.0 as int) * (q as int) + r.1 as int,
{
    let mut d: u128 = 0;
    let mut rem: u128 = 0;
    let mut k: u32 = 0;
    while k < 10
        invariant
            0 <= k <= 10,
            num < q,
            rem < q,
            d <= k,
            (num as int) * (k as int) == (d as int) * (q as int) + rem as int,
        decreases 10 - k,
    {
        let ghost d0 = d as int;
        let ghost r0 = rem as int;
        if rem >= q - num {
            rem = rem - (q - num);
            d = d + 1;
        } else {
            rem = rem + num;
        }
        proof {
            assert((num as int) * ((k + 1) as int) == (d as int) * (q as int) + rem as int)
                by (nonlinear_arith)
                requires
                    (num as int) * (k as int) == d0 * (q as int) + r0,
                    (d as int == d0 + 1 && rem as int == r0 + num - q) || (d as int == d0
                        && rem as int == r0 + num),
            ;
        }
        k = k + 1;
    }
    (d, rem)
}

} // verus!
