//! A plain-value model of the fixed-point decimal numbers that carry prices
//! and volumes: a 96-bit magnitude, a sign flag, and a decimal scale of at
//! most 28. The order comparison is implemented and proved against the
//! mathematical value of the number.

use vstd::prelude::*;
use vstd::arithmetic::mul::lemma_mul_inequality;
use vstd::arithmetic::mul::lemma_mul_strict_inequality;

verus! {

/// Largest magnitude representable: `2^96 - 1`.
pub const MAX_MANTISSA: u128 = 79228162514264337593543950335;

/// Largest number of decimal places.
pub const MAX_SCALE: u32 = 28;

/// A decimal number `(-1)^negative * mantissa / 10^scale`.
///
/// A negative flag with a zero mantissa is a negative zero: its value is
/// zero, but the sign flag is still observable, as it is on the values the
/// import pipeline rejects as negative.
#[derive(Debug, Clone, Copy, PartialEq, Eq, Structural)]
pub struct DecimalNumber {
    pub negative: bool,
    pub mantissa: u128,
    pub scale: u32,
}

pub open spec fn pow10(e: nat) -> nat
    decreases e,
{
    if e == 0 {
        1
    } else {
        10 * pow10((e - 1) as nat)
    }
}

impl DecimalNumber {
    pub open spec fn well_formed(self) -> bool {
        self.mantissa <= MAX_MANTISSA && self.scale <= MAX_SCALE
    }

    /// The magnitude of the number, scaled by the fixed factor `10^28`
    /// so that every well-formed number has an integer magnitude.
    pub open spec fn magnitude28(self) -> int {
        self.mantissa * pow10((MAX_SCALE - self.scale) as nat)
    }

    /// The value of the number, scaled by the fixed factor `10^28`.
    pub open spec fn value28(self) -> int {
        if self.negative {
            -self.magnitude28()
        } else {
            self.magnitude28()
        }
    }

    /// The sign flag as import rows carry it: a negative zero counts
    /// as negative here even though its value is zero.
    pub open spec fn spec_is_sign_negative(&self) -> bool {
        self.negative
    }

    pub fn new(negative: bool, mantissa: u128, scale: u32) -> (r: DecimalNumber)
        requires
            mantissa <= MAX_MANTISSA,
            scale <= MAX_SCALE,
        ensures
            r == (DecimalNumber { negative, mantissa, scale }),
            r.well_formed(),
    {
        DecimalNumber { negative, mantissa, scale }
    }

    pub fn zero() -> (r: DecimalNumber)
        ensures
            r.well_formed(),
            r.value28() == 0,
            !r.spec_is_sign_negative(),
    {
        DecimalNumber { negative: false, mantissa: 0, scale: 0 }
    }

    #[verifier::when_used_as_spec(spec_is_sign_negative)]
    pub fn is_sign_negative(&self) -> (r: bool)
        ensures
            r == self.spec_is_sign_negative(),
    {
        self.negative
    }
}

proof fn lemma_pow10_pos(e: nat)
    ensures
        pow10(e) >= 1,
    decreases e,
{
    if e > 0 {
        lemma_pow10_pos((e - 1) as nat);
    }
}

proof fn lemma_pow10_bound()
    ensures
        pow10(28) < u128::MAX,
{
    reveal_with_fuel(pow10, 29);
    assert(pow10(28) == 10000000000000000000000000000int);
}

fn pow10_u128(e: u32) -> (r: u128)
    requires
        e <= MAX_SCALE,
    ensures
        r == pow10(e as nat),
        1 <= r < u128::MAX,
{
    proof {
        lemma_pow10_bound();
        lemma_pow10_pos(e as nat);
    }
    let mut r: u128 = 1;
    let mut i: u32 = 0;
    while i < e
        invariant
            i <= e <= MAX_SCALE,
            r == pow10(i as nat),
        decreases e - i,
    {
        proof {
            assert(pow10((i + 1) as nat) <= pow10(28)) by {
                lemma_pow10_mono((i + 1) as nat, 28);
            };
            lemma_pow10_bound();
        }
        r = r * 10;
        i = i + 1;
    }
    r
}

proof fn lemma_pow10_mono(a: nat, b: nat)
    requires
        a <= b,
    ensures
        pow10(a) <= pow10(b),
    decreases b,
{
    if a < b {
        lemma_pow10_mono(a, (b - 1) as nat);
        lemma_pow10_pos((b - 1) as nat);
    }
}

proof fn lemma_pow10_add(a: nat, b: nat)
    ensures
        pow10(a + b) == pow10(a) * pow10(b),
    decreases a,
{
    if a == 0 {
        assert(pow10(a) == 1);
        assert(pow10(a + b) == pow10(b));
        assert(1 * pow10(b) == pow10(b)) by (nonlinear_arith);
    } else {
        let am1 = (a - 1) as nat;
        lemma_pow10_add(am1, b);
        let x = pow10(am1);
        let y = pow10(b);
        assert(pow10(a + b) == 10 * pow10((a + b - 1) as nat));
        assert((a + b - 1) as nat == am1 + b);
        assert(pow10(am1 + b) == x * y);
        assert(10 * (x * y) == (10 * x) * y) by (nonlinear_arith);
        assert(pow10(a) == 10 * x);
        assert(pow10(a + b) == pow10(a) * pow10(b));
    }
}

/// `ma * 10^(28-sa) <= mb * 10^(28-sb)`, decided by bringing both sides to
/// the smaller scale and watching for overflow.
fn magnitude_le(ma: u128, sa: u32, mb: u128, sb: u32) -> (r: bool)
    requires
        ma <= MAX_MANTISSA,
        mb <= MAX_MANTISSA,
        sa <= MAX_SCALE,
        sb <= MAX_SCALE,
    ensures
        r == (ma * pow10((MAX_SCALE - sa) as nat) <= mb * pow10((MAX_SCALE - sb) as nat)),
{
    proof {
        lemma_pow10_pos((MAX_SCALE - sa) as nat);
        lemma_pow10_pos((MAX_SCALE - sb) as nat);
    }
    if sa == sb {
        proof {
            let p = pow10((MAX_SCALE - sa) as nat) as int;
            assert(ma <= mb ==> ma * p <= mb * p) by {
                if ma <= mb {
                    lemma_mul_inequality(ma as int, mb as int, p);
                }
            };
            assert(ma > mb ==> ma * p > mb * p) by {
                if ma > mb {
                    lemma_mul_strict_inequality(mb as int, ma as int, p);
                }
            };
        }
        ma <= mb
    } else if sa < sb {
        // `a` has the coarser scale: scale its mantissa up by the difference.
        let d = sb - sa;
        let p = pow10_u128(d);
        proof {
            lemma_pow10_add((MAX_SCALE - sb) as nat, d as nat);
            // ma * 10^(28-sa) == (ma * 10^d) * 10^(28-sb)
            assert(ma * (pow10(d as nat) * pow10((MAX_SCALE - sb) as nat)) == (ma * pow10(
                d as nat,
            )) * pow10((MAX_SCALE - sb) as nat)) by (nonlinear_arith);
        }
        match ma.checked_mul(p) {
            None => {
                proof {
                    // ma * p overflows, so it exceeds mb, and the common
                    // factor 10^(28-sb) keeps the order strict.
                    let q = pow10((MAX_SCALE - sb) as nat) as int;
                    lemma_mul_strict_inequality(mb as int, (ma as int) * (p as int), q);
                }
                false
            },
            Some(scaled) => {
                proof {
                    let q = pow10((MAX_SCALE - sb) as nat) as int;
                    assert(scaled <= mb ==> scaled * q <= mb * q) by {
                        if scaled <= mb {
                            lemma_mul_inequality(scaled as int, mb as int, q);
                        }
                    };
                    assert(scaled > mb ==> scaled * q > mb * q) by {
                        if scaled > mb {
                            lemma_mul_strict_inequality(mb as int, scaled as int, q);
                        }
                    };
                }
                scaled <= mb
            },
        }
    } else {
        // `b` has the coarser scale: scale its mantissa up by the difference.
        let d = sa - sb;
        let p = pow10_u128(d);
        proof {
            lemma_pow10_add((MAX_SCALE - sa) as nat, d as nat);
            assert(mb * (pow10(d as nat) * pow10((MAX_SCALE - sa) as nat)) == (mb * pow10(
                d as nat,
            )) * pow10((MAX_SCALE - sa) as nat)) by (nonlinear_arith);
        }
        match mb.checked_mul(p) {
            None => {
                proof {
                    let q = pow10((MAX_SCALE - sa) as nat) as int;
                    lemma_mul_inequality(ma as int, (mb as int) * (p as int), q);
                }
                true
            },
            Some(scaled) => {
                proof {
                    let q = pow10((MAX_SCALE - sa) as nat) as int;
                    assert(ma <= scaled ==> ma * q <= scaled * q) by {
                        if ma <= scaled {
                            lemma_mul_inequality(ma as int, scaled as int, q);
                        }
                    };
                    assert(ma > scaled ==> ma * q > scaled * q) by {
                        if ma > scaled {
                            lemma_mul_strict_inequality(scaled as int, ma as int, q);
                        }
                    };
                }
                ma <= scaled
            },
        }
    }
}

/// Decides `a <= b` on the values of two well-formed decimal numbers.
pub fn dec_le(a: &DecimalNumber, b: &DecimalNumber) -> (r: bool)
    requires
        a.well_formed(),
        b.well_formed(),
    ensures
        r == (a.value28() <= b.value28()),
{
    proof {
        lemma_pow10_pos((MAX_SCALE - a.scale) as nat);
        lemma_pow10_pos((MAX_SCALE - b.scale) as nat);
        let pa = pow10((MAX_SCALE - a.scale) as nat) as int;
        let pb = pow10((MAX_SCALE - b.scale) as nat) as int;
        assert(a.mantissa > 0 ==> a.magnitude28() > 0) by {
            if a.mantissa > 0 {
                lemma_mul_strict_inequality(0, a.mantissa as int, pa);
            }
        };
        assert(b.mantissa > 0 ==> b.magnitude28() > 0) by {
            if b.mantissa > 0 {
                lemma_mul_strict_inequality(0, b.mantissa as int, pb);
            }
        };
        assert(a.mantissa == 0 ==> a.magnitude28() == 0) by {
            if a.mantissa == 0 {
                assert((0 as u128) * pow10((MAX_SCALE - a.scale) as nat) == 0)
                    by (nonlinear_arith);
            }
        };
        assert(b.mantissa == 0 ==> b.magnitude28() == 0) by {
            if b.mantissa == 0 {
                assert((0 as u128) * pow10((MAX_SCALE - b.scale) as nat) == 0)
                    by (nonlinear_arith);
            }
        };
    }
    let a_neg = a.negative && a.mantissa != 0;
    let b_neg = b.negative && b.mantissa != 0;
    if a_neg && !b_neg {
        true
    } else if !a_neg && b_neg {
        false
    } else if !a_neg && !b_neg {
        magnitude_le(a.mantissa, a.scale, b.mantissa, b.scale)
    } else {
        magnitude_le(b.mantissa, b.scale, a.mantissa, a.scale)
    }
}

/// Decides `a < b` on the values of two well-formed decimal numbers.
pub fn dec_lt(a: &DecimalNumber, b: &DecimalNumber) -> (r: bool)
    requires
        a.well_formed(),
        b.well_formed(),
    ensures
        r == (a.value28() < b.value28()),
{
    !dec_le(b, a)
}

/// Decides value equality (a negative zero equals a positive zero).
pub fn dec_eq_value(a: &DecimalNumber, b: &DecimalNumber) -> (r: bool)
    requires
        a.well_formed(),
        b.well_formed(),
    ensures
        r == (a.value28() == b.value28()),
{
    let le = dec_le(a, b);
    let ge = dec_le(b, a);
    le && ge
}

} // verus!
