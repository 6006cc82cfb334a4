//! Arbitrary-precision natural numbers, held as base-2^32 digits.
//!
//! The digits are plain values; every arithmetic operation is carried out by
//! `num_bigint::BigUint` and its result is stated exactly over the numeric
//! value of the digits.
use num_bigint::BigUint;
use vstd::arithmetic::power::pow;
use vstd::prelude::*;

verus! {

/// Base of one digit.
pub open spec fn digit_base() -> nat {
    4294967296
}

/// Numeric value of little-endian base-2^32 digits.
pub open spec fn digits_value(d: Seq<u32>) -> nat
    decreases d.len(),
{
    if d.len() == 0 {
        0
    } else {
        d[0] as nat + digit_base() * digits_value(d.subrange(1, d.len() as int))
    }
}

/// `base^exponent mod modulus`, for a modulus above one.
pub open spec fn mod_pow_spec(base: nat, exponent: nat, modulus: nat) -> nat
    recommends
        modulus > 1,
{
    (pow(base as int, exponent) % (modulus as int)) as nat
}

/// Digits that are all zero stand for zero.
proof fn lemma_zero_digits(d: Seq<u32>)
    requires
        forall|i: int| 0 <= i < d.len() ==> d[i] == 0,
    ensures
        digits_value(d) == 0,
    decreases d.len(),
{
    if d.len() > 0 {
        lemma_zero_digits(d.subrange(1, d.len() as int));
    }
}

/// Digits with a nonzero one stand for a positive number.
proof fn lemma_nonzero_digit(d: Seq<u32>, i: int)
    requires
        0 <= i < d.len(),
        d[i] != 0,
    ensures
        digits_value(d) >= 1,
    decreases d.len(),
{
    let tail = d.subrange(1, d.len() as int);
    assert(digits_value(d) == d[0] as nat + digit_base() * digits_value(tail));
    if i > 0 {
        assert(tail[i - 1] == d[i]);
        lemma_nonzero_digit(tail, i - 1);
    }
}

/// A natural number of arbitrary size. Never narrowed to a machine word.
pub struct Nat {
    digits: Vec<u32>,
}

impl View for Nat {
    type V = nat;

    closed spec fn view(&self) -> nat {
        digits_value(self.digits@)
    }
}

impl Nat {
    /// The number whose little-endian base-2^32 digits are `digits`.
    pub fn from_digits(digits: Vec<u32>) -> (r: Nat)
        ensures
            r@ == digits_value(digits@),
    {
        Nat { digits }
    }

    /// The digits this number was built from (little-endian, base 2^32).
    pub fn into_digits(self) -> (r: Vec<u32>)
        ensures
            digits_value(r@) == self@,
    {
        self.digits
    }

    /// A copy holding the same value.
    pub fn copy(&self) -> (r: Nat)
        ensures
            r@ == self@,
    {
        let d = self.digits.clone();
        assert(d@ =~= self.digits@);
        Nat { digits: d }
    }

    /// The number `v`.
    pub fn from_u64(v: u64) -> (r: Nat)
        ensures
            r@ == v as nat,
    {
        let lo: u32 = (v % 4294967296) as u32;
        let hi: u32 = (v / 4294967296) as u32;
        let digits = vec![lo, hi];
        proof {
            let s = digits@;
            let t = s.subrange(1, 2);
            assert(t.subrange(1, 1) =~= Seq::<u32>::empty());
            assert(digits_value(t.subrange(1, 1)) == 0);
            assert(t[0] == hi);
            assert(digits_value(t) == hi as nat);
            assert(digits_value(s) == lo as nat + digit_base() * hi as nat);
            assert(v as nat == lo as nat + digit_base() * hi as nat);
        }
        Nat { digits }
    }

    /// The value as a `u64`, when it fits in one: exactly when every digit after
    /// the second is zero.
    pub fn to_u64(&self) -> (r: Option<u64>)
        ensures
            self@ <= u64::MAX ==> r == Some(self@ as u64),
            self@ > u64::MAX ==> r is None,
    {
        let n: usize = self.digits.len();
        let ghost s = self.digits@;
        let mut i: usize = 2;
        while i < n
            invariant
                n == s.len(),
                s == self.digits@,
                2 <= i,
                forall|j: int| 2 <= j < i && j < n ==> s[j] == 0,
            decreases n - i,
        {
            if self.digits[i] != 0 {
                proof {
                    let t = s.subrange(2, n as int);
                    lemma_nonzero_digit(t, i - 2);
                    assert(s.subrange(1, n as int).subrange(1, n - 1) =~= t);
                    let x = digits_value(t);
                    let d1 = digits_value(s.subrange(1, n as int));
                    assert(d1 == s[1] as nat + digit_base() * x);
                    assert(digit_base() * d1 >= digit_base() * digit_base()) by (nonlinear_arith)
                        requires
                            d1 >= digit_base() * x,
                            x >= 1,
                    ;
                }
                return None;
            }
            i = i + 1;
        }
        let lo: u64 = if n > 0 {
            self.digits[0] as u64
        } else {
            0
        };
        let hi: u64 = if n > 1 {
            self.digits[1] as u64
        } else {
            0
        };
        proof {
            if n >= 2 {
                let t = s.subrange(2, n as int);
                lemma_zero_digits(t);
                let u = s.subrange(1, n as int);
                assert(u.subrange(1, n - 1) =~= t);
                assert(digits_value(u) == u[0] as nat + digit_base() * digits_value(t));
                assert(digits_value(s) == s[0] as nat + digit_base() * digits_value(u));
            } else if n == 1 {
                assert(s.subrange(1, 1) =~= Seq::<u32>::empty());
                assert(digits_value(s) == s[0] as nat + digit_base() * digits_value(s.subrange(1, 1)));
            }
            assert(self@ == lo as nat + digit_base() * hi as nat);
            assert(lo + hi * 4294967296 <= u64::MAX) by (nonlinear_arith)
                requires
                    lo <= 4294967295,
                    hi <= 4294967295,
            ;
        }
        Some(lo + hi * 4294967296)
    }

    /// Whether the two numbers are equal.
    pub fn same_value(&self, other: &Nat) -> (r: bool)
        ensures
            r == (self@ == other@),
    {
        equal_raw(self, other)
    }

    /// Whether `self < other`.
    pub fn less_than(&self, other: &Nat) -> (r: bool)
        ensures
            r == (self@ < other@),
    {
        less_raw(self, other)
    }

    /// Number of base-2^32 digits held.
    pub fn digit_count(&self) -> (r: usize)
        ensures
            r == self.digit_len(),
    {
        self.digits.len()
    }

    /// Number of base-2^32 digits held.
    pub closed spec fn digit_len(&self) -> nat {
        self.digits@.len()
    }

    /// `self - other`, for `other <= self`.
    pub fn sub(&self, other: &Nat) -> (r: Nat)
        requires
            other@ <= self@,
        ensures
            r@ == self@ - other@,
    {
        sub_raw(self, other)
    }

    /// `self + other`.
    pub fn add(&self, other: &Nat) -> (r: Nat)
        ensures
            r@ == self@ + other@,
    {
        add_raw(self, other)
    }

    /// `self * other`.
    pub fn mul(&self, other: &Nat) -> (r: Nat)
        ensures
            r@ == self@ * other@,
    {
        mul_raw(self, other)
    }

    /// `self mod modulus`.
    pub fn rem(&self, modulus: &Nat) -> (r: Nat)
        requires
            modulus@ > 0,
        ensures
            r@ == self@ % modulus@,
    {
        rem_raw(self, modulus)
    }

    /// `self^exponent mod modulus`.
    pub fn mod_pow(&self, exponent: &Nat, modulus: &Nat) -> (r: Nat)
        requires
            modulus@ > 1,
        ensures
            r@ == mod_pow_spec(self@, exponent@, modulus@),
    {
        mod_pow_raw(self, exponent, modulus)
    }
}

/// Relies on `BigUint`'s `==`, which compares numeric values.
#[verifier::external_body]
fn equal_raw(a: &Nat, b: &Nat) -> (r: bool)
    ensures
        r == (a@ == b@),
{
    BigUint::from_slice(&a.digits) == BigUint::from_slice(&b.digits)
}

/// Relies on `BigUint`'s `<`, which orders numeric values.
#[verifier::external_body]
fn less_raw(a: &Nat, b: &Nat) -> (r: bool)
    ensures
        r == (a@ < b@),
{
    BigUint::from_slice(&a.digits) < BigUint::from_slice(&b.digits)
}

/// Relies on `BigUint`'s `-`: the exact difference, which panics only when it would
/// be negative.
#[verifier::external_body]
fn sub_raw(a: &Nat, b: &Nat) -> (r: Nat)
    requires
        b@ <= a@,
    ensures
        r@ == a@ - b@,
{
    let d = BigUint::from_slice(&a.digits) - BigUint::from_slice(&b.digits);
    Nat { digits: d.to_u32_digits() }
}

/// Relies on `BigUint`'s `+`: the exact sum.
#[verifier::external_body]
fn add_raw(a: &Nat, b: &Nat) -> (r: Nat)
    ensures
        r@ == a@ + b@,
{
    let s = BigUint::from_slice(&a.digits) + BigUint::from_slice(&b.digits);
    Nat { digits: s.to_u32_digits() }
}

/// Relies on `BigUint`'s `*`: the exact product.
#[verifier::external_body]
fn mul_raw(a: &Nat, b: &Nat) -> (r: Nat)
    ensures
        r@ == a@ * b@,
{
    let p = BigUint::from_slice(&a.digits) * BigUint::from_slice(&b.digits);
    Nat { digits: p.to_u32_digits() }
}

/// Relies on `BigUint`'s `%`: the remainder, which panics only on a zero divisor.
#[verifier::external_body]
fn rem_raw(a: &Nat, m: &Nat) -> (r: Nat)
    requires
        m@ > 0,
    ensures
        r@ == a@ % m@,
{
    let q = BigUint::from_slice(&a.digits) % BigUint::from_slice(&m.digits);
    Nat { digits: q.to_u32_digits() }
}

/// Relies on `BigUint::modpow`: `(base ^ exponent) % modulus`, which panics only on a
/// zero modulus.
#[verifier::external_body]
fn mod_pow_raw(base: &Nat, exponent: &Nat, modulus: &Nat) -> (r: Nat)
    requires
        modulus@ > 1,
    ensures
        r@ == mod_pow_spec(base@, exponent@, modulus@),
{
    let b = BigUint::from_slice(&base.digits);
    let e = BigUint::from_slice(&exponent.digits);
    let r = b.modpow(&e, &BigUint::from_slice(&modulus.digits));
    Nat { digits: r.to_u32_digits() }
}

} // verus!
