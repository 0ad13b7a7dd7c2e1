//! Non-negative amounts of unbounded size.
//!
//! An [`Amount`] keeps its digits as bytes, most significant first, and stands
//! for the natural number that those bytes spell. The arithmetic itself is
//! done by `multiversx_sc::types::BigUint`; this module states what each
//! operation returns over the numbers involved.

use multiversx_sc::types::BigUint;
use multiversx_sc_scenario::api::StaticApi;
use vstd::prelude::*;
use vstd::std_specs::cmp::PartialEqSpecImpl;

verus! {

/// The natural number that `bytes` spells in base 256, most significant byte
/// first. The empty sequence spells zero, and leading zero bytes do not count.
pub open spec fn be_value(bytes: Seq<u8>) -> nat
    decreases bytes.len(),
{
    if bytes.len() == 0 {
        0
    } else {
        be_value(bytes.drop_last()) * 256 + bytes.last() as nat
    }
}

/// A prefix of a byte string never spells more than the whole string.
pub proof fn lemma_be_value_prefix(bytes: Seq<u8>, n: int)
    requires
        0 <= n <= bytes.len(),
    ensures
        be_value(bytes.take(n)) <= be_value(bytes),
    decreases bytes.len() - n,
{
    if n == bytes.len() {
        assert(bytes.take(n) =~= bytes);
    } else {
        lemma_be_value_prefix(bytes, n + 1);
        assert(bytes.take(n + 1).drop_last() =~= bytes.take(n));
    }
}

/// A non-negative amount of any size.
#[derive(Debug)]
pub struct Amount {
    bytes: Vec<u8>,
}

impl View for Amount {
    type V = nat;

    open spec fn view(&self) -> nat {
        be_value(self.spec_bytes())
    }
}

/// The shortest digits of `n`, most significant first.
fn digits_of(n: u64) -> (bytes: Vec<u8>)
    ensures
        be_value(bytes@) == n,
    decreases n,
{
    if n == 0 {
        Vec::new()
    } else {
        let mut bytes = digits_of(n / 256);
        let ghost upper = bytes@;
        bytes.push((n % 256) as u8);
        proof {
            assert(bytes@.drop_last() =~= upper);
        }
        bytes
    }
}

/// Whether two amounts are the same number, by `==` on `BigUint`.
///
/// Not proved: that `BigUint::from_bytes_be` reads digits as the number they
/// spell, most significant byte first, and that `PartialEq::eq` of `BigUint`
/// holds exactly of equal numbers.
#[verifier::external_body]
fn big_equal(a: &Amount, b: &Amount) -> (same: bool)
    ensures
        same == (a@ == b@),
{
    let x = BigUint::<StaticApi>::from_bytes_be(a.bytes.as_slice());
    let y = BigUint::<StaticApi>::from_bytes_be(b.bytes.as_slice());
    x == y
}

/// Whether the first amount is the larger number, by `>` on `BigUint`.
///
/// Not proved: that `BigUint::from_bytes_be` reads digits as the number they
/// spell, and that `PartialOrd::gt` of `BigUint` orders as the numbers do.
#[verifier::external_body]
fn big_greater(a: &Amount, b: &Amount) -> (larger: bool)
    ensures
        larger == (a@ > b@),
{
    let x = BigUint::<StaticApi>::from_bytes_be(a.bytes.as_slice());
    let y = BigUint::<StaticApi>::from_bytes_be(b.bytes.as_slice());
    x > y
}

/// The sum of two amounts, by `+` on `BigUint`.
///
/// Not proved: that `BigUint::from_bytes_be` reads digits as the number they
/// spell, that `Add::add` of `BigUint` adds, and that `BigUint::to_bytes_be`
/// writes digits that spell the number.
#[verifier::external_body]
fn big_sum(a: &Amount, b: &Amount) -> (total: Amount)
    ensures
        total@ == a@ + b@,
{
    let x = BigUint::<StaticApi>::from_bytes_be(a.bytes.as_slice());
    let y = BigUint::<StaticApi>::from_bytes_be(b.bytes.as_slice());
    Amount { bytes: (x + y).to_bytes_be().into_vec() }
}

/// The difference of two amounts, by `-` on `BigUint`.
///
/// Not proved: that `BigUint::from_bytes_be` reads digits as the number they
/// spell, that `Sub::sub` of `BigUint` subtracts, and that
/// `BigUint::to_bytes_be` writes digits that spell the number. `BigUint` does
/// not go below zero, so the first operand must be at least the second.
#[verifier::external_body]
fn big_difference(a: &Amount, b: &Amount) -> (rest: Amount)
    requires
        a@ >= b@,
    ensures
        rest@ == a@ - b@,
{
    let x = BigUint::<StaticApi>::from_bytes_be(a.bytes.as_slice());
    let y = BigUint::<StaticApi>::from_bytes_be(b.bytes.as_slice());
    Amount { bytes: (x - y).to_bytes_be().into_vec() }
}

/// The product of two amounts, by `*` on `BigUint`.
///
/// Not proved: that `BigUint::from_bytes_be` reads digits as the number they
/// spell, that `Mul::mul` of `BigUint` multiplies, and that
/// `BigUint::to_bytes_be` writes digits that spell the number.
#[verifier::external_body]
fn big_product(a: &Amount, b: &Amount) -> (product: Amount)
    ensures
        product@ == a@ * b@,
{
    let x = BigUint::<StaticApi>::from_bytes_be(a.bytes.as_slice());
    let y = BigUint::<StaticApi>::from_bytes_be(b.bytes.as_slice());
    Amount { bytes: (x * y).to_bytes_be().into_vec() }
}

/// The quotient of two amounts, rounded down, by `/` on `BigUint`.
///
/// Not proved: that `BigUint::from_bytes_be` reads digits as the number they
/// spell, that `Div::div` of `BigUint` divides and drops the remainder, and
/// that `BigUint::to_bytes_be` writes digits that spell the number. `BigUint`
/// stops on a zero divisor, so the second operand must be positive.
#[verifier::external_body]
fn big_quotient(a: &Amount, b: &Amount) -> (quotient: Amount)
    requires
        b@ > 0,
    ensures
        quotient@ == a@ / b@,
{
    let x = BigUint::<StaticApi>::from_bytes_be(a.bytes.as_slice());
    let y = BigUint::<StaticApi>::from_bytes_be(b.bytes.as_slice());
    Amount { bytes: (x / y).to_bytes_be().into_vec() }
}

impl Amount {
    /// The digits that this amount keeps.
    pub closed spec fn spec_bytes(&self) -> Seq<u8> {
        self.bytes@
    }

    /// The amount zero.
    pub fn zero() -> (amount: Amount)
        ensures
            amount@ == 0,
    {
        Amount { bytes: Vec::new() }
    }

    /// The amount `n`.
    pub fn from_u64(n: u64) -> (amount: Amount)
        ensures
            amount@ == n,
    {
        Amount { bytes: digits_of(n) }
    }

    /// The amount that `bytes` spells, most significant byte first.
    pub fn from_bytes_be(bytes: Vec<u8>) -> (amount: Amount)
        ensures
            amount@ == be_value(bytes@),
            amount.spec_bytes() == bytes@,
    {
        Amount { bytes }
    }

    /// The digits of this amount, most significant byte first.
    pub fn to_bytes_be(&self) -> (bytes: Vec<u8>)
        ensures
            bytes@ == self.spec_bytes(),
            be_value(bytes@) == self@,
    {
        let bytes = self.bytes.clone();
        assert(bytes@ =~= self.bytes@);
        bytes
    }

    /// This amount as a `u64`, or `None` where it does not fit.
    pub fn to_u64(&self) -> (small: Option<u64>)
        ensures
            match small {
                Some(n) => n == self@,
                None => self@ > u64::MAX,
            },
    {
        let mut value: u64 = 0;
        let mut i: usize = 0;
        while i < self.bytes.len()
            invariant
                i <= self.bytes.len(),
                value == be_value(self.bytes@.take(i as int)),
            decreases self.bytes.len() - i,
        {
            let digit: u64 = self.bytes[i] as u64;
            proof {
                assert(self.bytes@.take(i + 1).drop_last() =~= self.bytes@.take(i as int));
                lemma_be_value_prefix(self.bytes@, i + 1);
            }
            if value > (u64::MAX - digit) / 256 {
                return None;
            }
            value = value * 256 + digit;
            i += 1;
        }
        proof {
            assert(self.bytes@.take(i as int) =~= self.bytes@);
        }
        Some(value)
    }

    /// Whether this amount is zero.
    pub fn is_zero(&self) -> (zero: bool)
        ensures
            zero == (self@ == 0),
    {
        let none = Amount::zero();
        big_equal(self, &none)
    }

    /// The sum of this amount and `other`.
    pub fn sum(&self, other: &Amount) -> (total: Amount)
        ensures
            total@ == self@ + other@,
    {
        big_sum(self, other)
    }

    /// The product of this amount and `other`.
    pub fn product(&self, other: &Amount) -> (product: Amount)
        ensures
            product@ == self@ * other@,
    {
        big_product(self, other)
    }

    /// What is left of this amount once `other` is taken from it, or `None`
    /// where `other` is the larger.
    pub fn checked_sub(&self, other: &Amount) -> (rest: Option<Amount>)
        ensures
            match rest {
                Some(r) => self@ >= other@ && r@ == self@ - other@,
                None => self@ < other@,
            },
    {
        if big_greater(other, self) {
            None
        } else {
            Some(big_difference(self, other))
        }
    }

    /// This amount divided by `divisor`, rounded down. There is no quotient
    /// by zero.
    pub fn quotient(&self, divisor: &Amount) -> (quotient: Amount)
        requires
            divisor@ > 0,
        ensures
            quotient@ == self@ / divisor@,
    {
        big_quotient(self, divisor)
    }
}

impl Clone for Amount {
    fn clone(&self) -> (copy: Amount)
        ensures
            copy@ == self@,
            copy.spec_bytes() == self.spec_bytes(),
    {
        let bytes = self.bytes.clone();
        assert(bytes@ =~= self.bytes@);
        Amount { bytes }
    }
}

impl PartialEq for Amount {
    fn eq(&self, other: &Amount) -> (same: bool) {
        big_equal(self, other)
    }
}

impl PartialEqSpecImpl for Amount {
    open spec fn obeys_eq_spec() -> bool {
        true
    }

    open spec fn eq_spec(&self, other: &Amount) -> bool {
        self@ == other@
    }
}

} // verus!
