//! Doubles as bit patterns, and their exact relation to 32-bit integers.
//!
//! The runtime stores a number either as a 32-bit integer or as an IEEE-754
//! double.  Which integers a double stands for, and which double stands for an
//! integer, is stated here over the fields of the bit pattern: a finite double
//! with significand `m` and biased exponent `x` has the value
//! `m * 2^(max(x, 1) - 1075)`, negated where the sign bit is set.

use crate::jsval::Double;
use vstd::arithmetic::power2::{lemma_pow2_pos, lemma_pow2_strictly_increases, lemma_pow2_unfold, pow2, lemma2_to64, lemma2_to64_rest};
use vstd::prelude::*;

verus! {

/// The implicit leading bit of a normal double's significand: 2^52.
pub const HIDDEN_BIT: u64 = 0x10_0000_0000_0000;

/// The mask of the 52 fraction bits.
pub const FRACTION_MASK: u64 = 0xF_FFFF_FFFF_FFFF;

/// The biased exponent of infinities and NaNs.
pub const EXPONENT_SPECIAL: u64 = 0x7FF;

/// The sign bit.
pub const SIGN_BIT: u64 = 0x8000_0000_0000_0000;

impl Double {
    /// Whether the sign bit is set.
    pub open spec fn sign(self) -> bool {
        self.bits & SIGN_BIT != 0
    }

    /// The biased exponent, 0 to 0x7FF.
    pub open spec fn exponent(self) -> nat {
        ((self.bits >> 52) & EXPONENT_SPECIAL) as nat
    }

    /// The 52 fraction bits.
    pub open spec fn fraction(self) -> nat {
        (self.bits & FRACTION_MASK) as nat
    }

    /// Neither an infinity nor a NaN.
    pub open spec fn is_finite(self) -> bool {
        self.exponent() != EXPONENT_SPECIAL
    }

    /// The significand: the fraction, with the hidden bit unless subnormal.
    pub open spec fn significand(self) -> nat {
        if self.exponent() == 0 {
            self.fraction()
        } else {
            HIDDEN_BIT as nat + self.fraction()
        }
    }

    /// The power of two by which the significand is scaled, offset by 1075.
    pub open spec fn scale(self) -> nat {
        if self.exponent() == 0 {
            1
        } else {
            self.exponent()
        }
    }

    /// The absolute value of a finite double, times 2^1075.
    pub open spec fn scaled_magnitude(self) -> nat {
        self.significand() * pow2(self.scale())
    }

    /// The value of this double is exactly the integer `n`.
    pub open spec fn represents(self, n: int) -> bool {
        &&& self.is_finite()
        &&& n >= 0 ==> self.scaled_magnitude() == n * pow2(1075)
        &&& n < 0 ==> self.sign() && self.scaled_magnitude() == (-n) * pow2(1075)
        &&& n > 0 ==> !self.sign()
    }

    /// The absolute value of this double is exactly the natural number `a`.
    pub open spec fn has_magnitude(self, a: nat) -> bool {
        self.is_finite() && self.scaled_magnitude() == a * pow2(1075)
    }

    /// Negative zero: the one double that equals an integer and is not
    /// given back by converting that integer.
    pub open spec fn is_negative_zero(self) -> bool {
        self.bits == SIGN_BIT
    }
}

impl Double {
    /// The integer that this double equals, where it equals one.
    pub open spec fn integer(self) -> int {
        choose|n: int| self.represents(n)
    }

    /// This double equals a signed 32-bit integer, and converting that
    /// integer gives this double back.
    pub open spec fn is_i32(self) -> bool {
        !self.is_negative_zero() && exists|i: i32| self.represents(i as int)
    }

    /// This double equals an unsigned 32-bit integer.
    pub open spec fn is_u32(self) -> bool {
        exists|u: u32| self.represents(u as int)
    }

    /// The double that equals the integer `n`, positive zero for 0.
    pub open spec fn of_integer(n: int) -> Double {
        choose|d: Double| d.represents(n) && !d.is_negative_zero()
    }
}

/// A positive factor can be cancelled from both sides of an equation.
pub proof fn lemma_mul_cancel(a: int, b: int, p: int)
    by (nonlinear_arith)
    requires
        p > 0,
        a * p == b * p,
    ensures
        a == b,
{
}

/// Scaling both sides by a power of two can be undone.
pub proof fn lemma_pow2_cancel(a: nat, b: nat, x: nat, y: nat)
    requires
        a * pow2(x + y) == b * pow2(x),
    ensures
        a * pow2(y) == b,
{
    vstd::arithmetic::power2::lemma_pow2_adds(x, y);
    lemma_pow2_pos(x);
    let px = pow2(x);
    let py = pow2(y);
    assert(a * (px * py) == (a * py) * px) by (nonlinear_arith);
    assert((a * py) * px == b * px ==> a * py == b) by (nonlinear_arith)
        requires
            px > 0,
    ;
}

/// A double stands for at most one integer.
pub proof fn lemma_represents_unique(d: Double, n1: int, n2: int)
    requires
        d.represents(n1),
        d.represents(n2),
    ensures
        n1 == n2,
{
    lemma_pow2_pos(1075);
    let p = pow2(1075);
    let m = d.scaled_magnitude();
    if n1 >= 0 && n2 >= 0 {
        lemma_mul_cancel(n1, n2, p as int);
    } else if n1 < 0 && n2 < 0 {
        lemma_mul_cancel(-n1, -n2, p as int);
    } else if n1 < 0 {
        lemma_mul_cancel(-n1, n2, p as int);
    } else {
        lemma_mul_cancel(n1, -n2, p as int);
    }
}

/// Two finite doubles with the same scaled magnitude have the same exponent
/// and the same fraction.
proof fn lemma_same_magnitude(d1: Double, d2: Double)
    requires
        d1.is_finite(),
        d2.is_finite(),
        d1.scaled_magnitude() == d2.scaled_magnitude(),
        d1.scale() <= d2.scale(),
    ensures
        d1.exponent() == d2.exponent(),
        d1.fraction() == d2.fraction(),
{
    lemma_fields(d1.bits);
    lemma_fields(d2.bits);
    let m1 = d1.significand();
    let m2 = d2.significand();
    let s1 = d1.scale();
    let s2 = d2.scale();
    let k = (s2 - s1) as nat;
    lemma_pow2_pos(s1);
    lemma_pow2_pos(k);
    vstd::arithmetic::power2::lemma_pow2_adds(s1, k);
    let p = pow2(s1);
    let q = pow2(k);
    assert(m2 * (p * q) == (m2 * q) * p) by (nonlinear_arith);
    lemma_mul_cancel(m1 as int, (m2 * q) as int, p as int);
    if k > 0 {
        lemma_pow2_unfold(k);
        lemma_pow2_pos((k - 1) as nat);
        assert(m2 >= HIDDEN_BIT);
        assert(m2 * q >= 2 * m2) by (nonlinear_arith)
            requires
                q >= 2,
        ;
        assert(false);
    }
    assert(q == 1) by {
        lemma2_to64();
    }
    assert(m2 * q == m2) by (nonlinear_arith)
        requires
            q == 1,
    ;
}

/// Among the doubles other than negative zero, only one equals a given
/// integer.
pub proof fn lemma_of_integer(d: Double, n: int)
    requires
        d.represents(n),
        !d.is_negative_zero(),
    ensures
        d == Double::of_integer(n),
{
    let e = Double::of_integer(n);
    assert(e.represents(n) && !e.is_negative_zero());
    if n == 0 {
        lemma_zero_bits(d);
        lemma_zero_bits(e);
    } else {
        if d.scale() <= e.scale() {
            lemma_same_magnitude(d, e);
        } else {
            lemma_same_magnitude(e, d);
        }
        lemma_sign_of(d, n);
        lemma_sign_of(e, n);
        lemma_fields(d.bits);
        lemma_fields(e.bits);
    }
    assert(d.bits == e.bits);
}

/// A magnitude that was scaled up towards the hidden bit has a double.
proof fn lemma_magnitude_has_double(a: nat, m: nat, s: nat, negative: bool)
    requires
        0 < m < 2 * HIDDEN_BIT,
        1023 <= s <= 1075,
        m * pow2(s) == a * pow2(1075),
        m >= pow2((1075 - s) as nat),
    ensures
        exists|d: Double|
            d.is_finite() && d.sign() == negative && #[trigger] d.scaled_magnitude() == a * pow2(
                1075,
            ) && d.exponent() >= 1023,
    decreases s,
{
    lemma2_to64();
    lemma2_to64_rest();
    if m < HIDDEN_BIT {
        let k = (1075 - s) as nat;
        if k >= 52 {
            if k > 52 {
                lemma_pow2_strictly_increases(52, k);
            }
            assert(false);
        }
        lemma_pow2_unfold(s);
        lemma_pow2_unfold(k + 1);
        let ps = pow2((s - 1) as nat);
        assert((2 * m) * ps == m * (2 * ps)) by (nonlinear_arith);
        lemma_magnitude_has_double(a, 2 * m, (s - 1) as nat, negative);
    } else {
        let sign: u64 = if negative { SIGN_BIT } else { 0 };
        let exponent = s as u64;
        let fraction = (m - HIDDEN_BIT) as u64;
        lemma_assemble(sign, exponent, fraction);
        let d = Double { bits: sign | (exponent << 52) | fraction };
        assert(d.scaled_magnitude() == a * pow2(1075));
    }
}

/// Every integer of at most 53 bits is the value of a double.
pub proof fn lemma_integer_has_double(n: int)
    requires
        -2 * HIDDEN_BIT < n < 2 * HIDDEN_BIT,
    ensures
        Double::of_integer(n).represents(n),
        !Double::of_integer(n).is_negative_zero(),
{
    if n == 0 {
        let d = Double { bits: 0 };
        lemma_assemble(0, 0, 0);
        assert(0u64 | (0u64 << 52) | 0u64 == 0) by (bit_vector);
        assert(0 * pow2(1) == 0 * pow2(1075)) by (nonlinear_arith);
        assert(d.represents(0) && !d.is_negative_zero());
    } else {
        let a = (if n < 0 { -n } else { n }) as nat;
        lemma2_to64();
        lemma_magnitude_has_double(a, a, 1075, n < 0);
        let d = choose|d: Double|
            d.is_finite() && d.sign() == (n < 0) && #[trigger] d.scaled_magnitude() == a * pow2(
                1075,
            ) && d.exponent() >= 1023;
        assert(((SIGN_BIT >> 52) & 0x7FFu64) == 0) by (bit_vector);
        assert(d.represents(n) && !d.is_negative_zero());
    }
}

/// A double that equals a nonzero integer has that integer's sign.
proof fn lemma_sign_of(d: Double, n: int)
    requires
        d.represents(n),
        n != 0,
    ensures
        d.sign() == (n < 0),
{
}

/// A double that equals 0 and is not negative zero is positive zero.
proof fn lemma_zero_bits(d: Double)
    requires
        d.represents(0),
        !d.is_negative_zero(),
    ensures
        d.bits == 0,
{
    lemma_fields(d.bits);
    lemma_pow2_pos(d.scale());
    assert(0 * pow2(1075) == 0);
    assert(d.significand() == 0) by (nonlinear_arith)
        requires
            d.significand() * pow2(d.scale()) == 0,
            pow2(d.scale()) > 0,
    ;
    let b = d.bits;
    assert(b == 0 || b == 0x8000_0000_0000_0000u64) by (bit_vector)
        requires
            (b >> 52) & 0x7FFu64 == 0,
            b & 0xF_FFFF_FFFF_FFFFu64 == 0,
    ;
}

/// The fields of a bit pattern assembled from a sign, an exponent and a
/// fraction are those three.
proof fn lemma_assemble(sign: u64, exponent: u64, fraction: u64)
    by (bit_vector)
    requires
        sign == 0 || sign == 0x8000_0000_0000_0000u64,
        exponent <= 0x7FFu64,
        fraction <= 0xF_FFFF_FFFF_FFFFu64,
    ensures
        ((sign | (exponent << 52) | fraction) >> 52) & 0x7FFu64 == exponent,
        (sign | (exponent << 52) | fraction) & 0xF_FFFF_FFFF_FFFFu64 == fraction,
        (sign | (exponent << 52) | fraction) & 0x8000_0000_0000_0000u64 == sign,
{
}

/// A bit pattern is its three fields put together, each within its width.
proof fn lemma_fields(bits: u64)
    by (bit_vector)
    ensures
        (bits >> 52) & 0x7FFu64 <= 0x7FFu64,
        bits & 0xF_FFFF_FFFF_FFFFu64 <= 0xF_FFFF_FFFF_FFFFu64,
        bits & 0x8000_0000_0000_0000u64 == 0 || bits & 0x8000_0000_0000_0000u64
            == 0x8000_0000_0000_0000u64,
        bits == (bits & 0x8000_0000_0000_0000u64) | (((bits >> 52) & 0x7FFu64) << 52) | (bits
            & 0xF_FFFF_FFFF_FFFFu64),
{
}

impl Double {
    /// The double with the given sign whose absolute value is the integer
    /// `magnitude`.
    fn from_magnitude(magnitude: u64, negative: bool) -> (d: Double)
        requires
            magnitude < 2 * HIDDEN_BIT,
        ensures
            d.is_finite(),
            d.sign() == negative,
            d.scaled_magnitude() == magnitude * pow2(1075),
            magnitude == 0 ==> d.bits == if negative { SIGN_BIT } else { 0 },
            magnitude != 0 ==> d.exponent() >= 1023,
    {
        let sign: u64 = if negative { SIGN_BIT } else { 0 };
        if magnitude == 0 {
            proof {
                lemma_assemble(sign, 0, 0);
                assert(sign | (0u64 << 52) | 0u64 == sign) by (bit_vector);
                assert(0 * pow2(1) == 0 * pow2(1075)) by (nonlinear_arith);
            }
            return Double { bits: sign };
        }
        let mut m: u64 = magnitude;
        let mut s: u64 = 1075;
        proof {
            lemma2_to64();
        }
        while m < HIDDEN_BIT
            invariant
                0 < m < 2 * HIDDEN_BIT,
                1023 <= s <= 1075,
                m * pow2(s as nat) == magnitude * pow2(1075),
                m >= pow2((1075 - s) as nat),
            decreases s,
        {
            proof {
                let k = (1075 - s) as nat;
                lemma2_to64_rest();
                assert(pow2(52) == HIDDEN_BIT);
                if k >= 52 {
                    if k > 52 {
                        lemma_pow2_strictly_increases(52, k);
                    }
                    assert(false);
                }
                lemma_pow2_unfold(s as nat);
                lemma_pow2_unfold(k + 1);
                let ps = pow2((s - 1) as nat);
                assert((2 * m) * ps == m * (2 * ps)) by (nonlinear_arith);
            }
            m = 2 * m;
            s = s - 1;
        }
        let fraction: u64 = m - HIDDEN_BIT;
        let bits: u64 = sign | (s << 52) | fraction;
        proof {
            lemma_assemble(sign, s, fraction);
        }
        Double { bits }
    }

    /// The absolute value of this double, where that is an integer below 2^52.
    fn integer_magnitude(&self) -> (r: Option<u64>)
        ensures
            match r {
                Some(a) => a < HIDDEN_BIT && self.has_magnitude(a as nat),
                None => forall|a: nat| a < HIDDEN_BIT ==> !#[trigger] self.has_magnitude(a),
            },
    {
        let exponent: u64 = (self.bits >> 52) & EXPONENT_SPECIAL;
        let fraction: u64 = self.bits & FRACTION_MASK;
        proof {
            lemma_fields(self.bits);
            lemma2_to64_rest();
            assert(pow2(52) == HIDDEN_BIT);
        }
        if exponent == EXPONENT_SPECIAL {
            return None;
        }
        let m0: u64 = if exponent == 0 { fraction } else { HIDDEN_BIT + fraction };
        let s0: u64 = if exponent == 0 { 1 } else { exponent };
        if m0 == 0 {
            proof {
                assert(0 * pow2(s0 as nat) == 0 * pow2(1075)) by (nonlinear_arith);
            }
            return Some(0);
        }
        if s0 >= 1075 {
            proof {
                assert forall|a: nat| a < HIDDEN_BIT implies !#[trigger] self.has_magnitude(a) by {
                    if s0 > 1075 {
                        lemma_pow2_strictly_increases(1075, s0 as nat);
                    }
                    lemma_pow2_pos(1075);
                    let p = pow2(1075);
                    let q = pow2(s0 as nat);
                    assert(a * p < m0 * q) by (nonlinear_arith)
                        requires
                            a < m0,
                            0 < p <= q,
                    ;
                }
            }
            return None;
        }
        let k0: u64 = 1075 - s0;
        let mut k: u64 = k0;
        let mut m: u64 = m0;
        while k > 0 && m % 2 == 0
            invariant
                0 < m <= m0,
                m0 < 2 * HIDDEN_BIT,
                0 <= k <= k0 <= 1074,
                k < k0 ==> m < HIDDEN_BIT,
                m * pow2((1075 - k) as nat) == m0 * pow2(s0 as nat),
            decreases k,
        {
            proof {
                lemma_pow2_unfold((1075 - k + 1) as nat);
                let p = pow2((1075 - k) as nat);
                let h = (m / 2) as nat;
                assert(m == 2 * h);
                assert((2 * h) * p == h * (2 * p)) by (nonlinear_arith);
            }
            m = m / 2;
            k = k - 1;
        }
        if k == 0 {
            Some(m)
        } else {
            proof {
                assert forall|a: nat| a < HIDDEN_BIT implies !#[trigger] self.has_magnitude(a) by {
                    if self.has_magnitude(a) {
                        let x = (1075 - k) as nat;
                        assert(x + k as nat == 1075);
                        lemma_pow2_cancel(a, m as nat, x, k as nat);
                        lemma_pow2_unfold(k as nat);
                        let q = pow2((k - 1) as nat);
                        assert(a * (2 * q) == 2 * (a * q)) by (nonlinear_arith);
                        assert(false);
                    }
                }
            }
            None
        }
    }

    /// The unsigned 32-bit integer that this double equals, if there is one.
    /// Negative zero equals 0.
    pub fn to_u32(&self) -> (r: Option<u32>)
        ensures
            r == if self.is_u32() {
                Some(self.integer() as u32)
            } else {
                None::<u32>
            },
            match r {
                Some(u) => self.represents(u as int),
                None => forall|u: u32| !#[trigger] self.represents(u as int),
            },
    {
        let r = self.to_u32_checked();
        proof {
            if let Some(u) = r {
                lemma_represents_unique(*self, u as int, self.integer());
            }
        }
        r
    }

    fn to_u32_checked(&self) -> (r: Option<u32>)
        ensures
            match r {
                Some(u) => self.represents(u as int),
                None => forall|u: u32| !#[trigger] self.represents(u as int),
            },
    {
        let negative = self.bits & SIGN_BIT != 0;
        match self.integer_magnitude() {
            Some(a) => {
                if a <= 0xFFFF_FFFF && (a == 0 || !negative) {
                    Some(a as u32)
                } else {
                    proof {
                        assert forall|u: u32| !#[trigger] self.represents(u as int) by {
                            if self.represents(u as int) {
                                lemma_pow2_pos(1075);
                                lemma_mul_cancel(u as int, a as int, pow2(1075) as int);
                            }
                        }
                    }
                    None
                }
            },
            None => {
                proof {
                    assert forall|u: u32| !#[trigger] self.represents(u as int) by {
                        assert(!self.has_magnitude(u as nat));
                    }
                }
                None
            },
        }
    }

    /// The signed 32-bit integer that this double equals, if there is one.
    /// Negative zero is no integer here: converting 0 back gives positive
    /// zero.
    pub fn to_i32(&self) -> (r: Option<i32>)
        ensures
            r == if self.is_i32() {
                Some(self.integer() as i32)
            } else {
                None::<i32>
            },
            match r {
                Some(i) => self.represents(i as int) && !self.is_negative_zero(),
                None => forall|i: i32|
                    !(#[trigger] self.represents(i as int) && !self.is_negative_zero()),
            },
    {
        let r = self.to_i32_checked();
        proof {
            if let Some(i) = r {
                lemma_represents_unique(*self, i as int, self.integer());
            }
        }
        r
    }

    fn to_i32_checked(&self) -> (r: Option<i32>)
        ensures
            match r {
                Some(i) => self.represents(i as int) && !self.is_negative_zero(),
                None => forall|i: i32|
                    !(#[trigger] self.represents(i as int) && !self.is_negative_zero()),
            },
    {
        let negative = self.bits & SIGN_BIT != 0;
        proof {
            lemma_fields(self.bits);
            assert(SIGN_BIT & SIGN_BIT != 0) by (bit_vector);
        }
        match self.integer_magnitude() {
            Some(a) => {
                if negative && 0 < a && a <= 0x8000_0000 {
                    proof {
                        if self.is_negative_zero() {
                            assert(((SIGN_BIT >> 52) & 0x7FFu64) == 0 && SIGN_BIT
                                & 0xF_FFFF_FFFF_FFFFu64 == 0) by (bit_vector);
                            lemma_pow2_pos(1075);
                            assert(a * pow2(1075) > 0) by (nonlinear_arith)
                                requires
                                    a > 0,
                                    pow2(1075) > 0,
                            ;
                            assert(self.significand() * pow2(self.scale()) == 0)
                                by (nonlinear_arith)
                                requires
                                    self.significand() == 0,
                            ;
                        }
                    }
                    Some((-(a as i64)) as i32)
                } else if !negative && a <= 0x7FFF_FFFF {
                    Some(a as i32)
                } else {
                    proof {
                        lemma_pow2_pos(1075);
                        if negative && a == 0 {
                            // a zero magnitude leaves no exponent and no fraction bit
                            assert(self.scaled_magnitude() == 0) by (nonlinear_arith)
                                requires
                                    self.scaled_magnitude() == a * pow2(1075),
                                    a == 0,
                            ;
                            lemma_pow2_pos(self.scale());
                            assert(self.significand() == 0) by (nonlinear_arith)
                                requires
                                    self.significand() * pow2(self.scale()) == 0,
                                    pow2(self.scale()) > 0,
                            ;
                            assert(self.is_negative_zero()) by {
                                let b = self.bits;
                                assert(b == SIGN_BIT) by (bit_vector)
                                    requires
                                        b & 0x8000_0000_0000_0000u64 != 0,
                                        (b >> 52) & 0x7FFu64 == 0,
                                        b & 0xF_FFFF_FFFF_FFFFu64 == 0,
                                ;
                            }
                        } else {
                            assert forall|i: i32|
                                !(#[trigger] self.represents(i as int)
                                    && !self.is_negative_zero()) by {
                                if self.represents(i as int) {
                                    if i >= 0 {
                                        lemma_mul_cancel(i as int, a as int, pow2(1075) as int);
                                    } else {
                                        lemma_mul_cancel(-(i as int), a as int, pow2(1075) as int);
                                    }
                                }
                            }
                        }
                    }
                    None
                }
            },
            None => {
                proof {
                    assert forall|i: i32|
                        !(#[trigger] self.represents(i as int) && !self.is_negative_zero()) by {
                        if i >= 0 {
                            assert(!self.has_magnitude(i as nat));
                        } else {
                            assert(!self.has_magnitude((-(i as int)) as nat));
                        }
                    }
                }
                None
            },
        }
    }

    /// The double that equals the given unsigned integer.
    pub fn from_u32(u: u32) -> (d: Double)
        ensures
            d == Double::of_integer(u as int),
            d.represents(u as int),
            !d.is_negative_zero(),
    {
        let d = Double::from_magnitude(u as u64, false);
        proof {
            assert(SIGN_BIT & SIGN_BIT != 0) by (bit_vector);
            lemma_of_integer(d, u as int);
        }
        d
    }

    /// The double that equals the given signed integer; zero gives positive
    /// zero.
    pub fn from_i32(i: i32) -> (d: Double)
        ensures
            d == Double::of_integer(i as int),
            d.represents(i as int),
            !d.is_negative_zero(),
    {
        let d = Double::from_i32_signed(i);
        proof {
            lemma_of_integer(d, i as int);
        }
        d
    }

    fn from_i32_signed(i: i32) -> (d: Double)
        ensures
            d.represents(i as int),
            !d.is_negative_zero(),
    {
        if i < 0 {
            let magnitude: u64 = (-(i as i64)) as u64;
            let d = Double::from_magnitude(magnitude, true);
            proof {
                assert(d.exponent() >= 1023);
                assert(d.bits != SIGN_BIT) by {
                    assert(((SIGN_BIT >> 52) & 0x7FFu64) == 0) by (bit_vector);
                }
            }
            d
        } else {
            let d = Double::from_magnitude(i as u64, false);
            proof {
                assert(SIGN_BIT & SIGN_BIT != 0) by (bit_vector);
            }
            d
        }
    }
}

} // verus!
