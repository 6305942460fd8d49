//! Decimal numbers as plain data: a two's complement integer and a scale.
//!
//! The number that a [`Decimal`] stands for is `unscaled / 10^scale`. The
//! arithmetic on such numbers is done by the `bigdecimal` crate. The four
//! functions at the end of this file make those calls: each hands the plain
//! data over, and takes plain data back. What they promise is read off that
//! crate's source, and is not proved here; everything else in this crate is
//! proved from it.

use bigdecimal::num_bigint::BigInt;
use bigdecimal::BigDecimal;
use vstd::arithmetic::div_mod::lemma_div_by_multiple;
use vstd::arithmetic::div_mod::lemma_div_pos_is_pos;
use vstd::arithmetic::div_mod::lemma_fundamental_div_mod;
use vstd::arithmetic::div_mod::lemma_mod_pos_bound;
use vstd::arithmetic::power::lemma_pow0;
use vstd::arithmetic::power::lemma_pow_adds;
use vstd::arithmetic::power::lemma_pow_positive;
use vstd::arithmetic::power::pow;
use vstd::prelude::*;
use vstd::std_specs::cmp::PartialEqSpecImpl;

verus! {

/// The number of fractional digits of every balance and of every amount that
/// the ledger stores.
pub const PRECISION: i16 = 5;

/// The natural number that `bytes` spell in base 256, most significant byte
/// first.
pub open spec fn unsigned_value(bytes: Seq<u8>) -> nat
    decreases bytes.len(),
{
    if bytes.len() == 0 {
        0
    } else {
        unsigned_value(bytes.drop_last()) * 256 + bytes.last() as nat
    }
}

/// The integer that `bytes` spell in two's complement, most significant byte
/// first. No bytes at all spell zero.
pub open spec fn signed_value(bytes: Seq<u8>) -> int {
    if bytes.len() > 0 && bytes[0] >= 128 {
        unsigned_value(bytes) - pow(256, bytes.len())
    } else {
        unsigned_value(bytes) as int
    }
}

/// The unscaled integer of a number after its scale is changed from `from` to
/// `to`. A larger scale appends zeros; a smaller one drops digits, rounding
/// toward zero.
pub open spec fn rescaled(unscaled: int, from: int, to: int) -> int {
    if to >= from {
        unscaled * pow(10, (to - from) as nat)
    } else if unscaled >= 0 {
        unscaled / pow(10, (from - to) as nat)
    } else {
        -((-unscaled) / pow(10, (from - to) as nat))
    }
}

/// What a [`Decimal`] stands for: the number `unscaled / 10^scale`.
pub struct DecimalView {
    pub unscaled: int,
    pub scale: int,
}

impl DecimalView {
    /// The number in units of `10^-PRECISION`; digits beyond that precision
    /// are dropped.
    pub open spec fn units(self) -> int {
        rescaled(self.unscaled, self.scale, PRECISION as int)
    }

    /// The two stand for one number: written with the larger of their
    /// scales, their unscaled integers are the same.
    pub open spec fn same_number(self, other: DecimalView) -> bool {
        let scale = if self.scale >= other.scale {
            self.scale
        } else {
            other.scale
        };
        rescaled(self.unscaled, self.scale, scale) == rescaled(other.unscaled, other.scale, scale)
    }
}

/// A decimal number of arbitrary size.
#[derive(Debug)]
pub struct Decimal {
    unscaled: Vec<u8>,
    scale: i16,
}

impl View for Decimal {
    type V = DecimalView;

    closed spec fn view(&self) -> DecimalView {
        DecimalView { unscaled: signed_value(self.unscaled@), scale: self.scale as int }
    }
}

impl Decimal {
    /// The number `unscaled / 10^scale`, with `unscaled` given in two's
    /// complement, most significant byte first.
    pub fn new(unscaled: Vec<u8>, scale: i16) -> (r: Decimal)
        ensures
            r@.unscaled == signed_value(unscaled@),
            r@.scale == scale,
    {
        Decimal { unscaled, scale }
    }

    /// Zero, written with `PRECISION` fractional digits.
    pub fn zero() -> (r: Decimal)
        ensures
            r@.unscaled == 0,
            r@.scale == PRECISION,
    {
        Decimal { unscaled: Vec::new(), scale: PRECISION }
    }

    /// The unscaled integer in two's complement, most significant byte first.
    pub fn unscaled_bytes(&self) -> (r: &Vec<u8>)
        ensures
            signed_value(r@) == self@.unscaled,
    {
        &self.unscaled
    }

    /// The number of fractional digits.
    pub fn scale(&self) -> (r: i16)
        ensures
            r == self@.scale,
    {
        self.scale
    }
}

impl Clone for Decimal {
    /// A copy that stands for the same number, written the same way.
    fn clone(&self) -> (r: Decimal)
        ensures
            r@ == self@,
    {
        Decimal { unscaled: self.unscaled.clone(), scale: self.scale }
    }
}

/// `==` on decimals compares the numbers, not the way they are written:
/// `1.5` equals `1.50`. The comparison is exact.
impl PartialEq for Decimal {
    fn eq(&self, other: &Decimal) -> (r: bool) {
        let scale: i16 = if self.scale >= other.scale {
            self.scale
        } else {
            other.scale
        };
        let a = rescale(self, scale);
        let b = rescale(other, scale);
        at_most(&a, &b) && at_most(&b, &a)
    }
}

impl PartialEqSpecImpl for Decimal {
    open spec fn obeys_eq_spec() -> bool {
        true
    }

    open spec fn eq_spec(&self, other: &Decimal) -> bool {
        self@.same_number(other@)
    }
}

/// Written again with the scale it has, a number keeps its unscaled integer.
pub proof fn lemma_rescaled_same_scale(unscaled: int, scale: int)
    ensures
        rescaled(unscaled, scale, scale) == unscaled,
{
    lemma_pow0(10);
}

/// A change of scale never turns the sign of a number.
pub proof fn lemma_rescaled_keeps_sign(unscaled: int, from: int, to: int)
    ensures
        unscaled >= 0 ==> rescaled(unscaled, from, to) >= 0,
        unscaled <= 0 ==> rescaled(unscaled, from, to) <= 0,
{
    if to >= from {
        let p = pow(10, (to - from) as nat);
        lemma_pow_positive(10, (to - from) as nat);
        assert(unscaled >= 0 ==> unscaled * p >= 0) by (nonlinear_arith)
            requires
                p > 0,
        ;
        assert(unscaled <= 0 ==> unscaled * p <= 0) by (nonlinear_arith)
            requires
                p > 0,
        ;
    } else {
        let p = pow(10, (from - to) as nat);
        lemma_pow_positive(10, (from - to) as nat);
        if unscaled >= 0 {
            lemma_div_pos_is_pos(unscaled, p);
        } else {
            lemma_div_pos_is_pos(-unscaled, p);
        }
    }
}

/// A larger scale loses nothing: written with more fractional digits and
/// then with the old scale again, a number is what it was.
pub proof fn lemma_rescaled_up_is_exact(unscaled: int, from: int, to: int)
    requires
        from <= to,
    ensures
        rescaled(rescaled(unscaled, from, to), to, from) == unscaled,
{
    let p = pow(10, (to - from) as nat);
    lemma_pow_positive(10, (to - from) as nat);
    if to == from {
        lemma_pow0(10);
    } else {
        lemma_rescaled_keeps_sign(unscaled, from, to);
        if unscaled >= 0 {
            lemma_div_by_multiple(unscaled, p);
        } else {
            assert(-(unscaled * p) == (-unscaled) * p) by (nonlinear_arith);
            lemma_div_by_multiple(-unscaled, p);
        }
    }
}

/// A smaller scale loses less than one unit of the new last digit, and what
/// it loses brings the number closer to zero.
pub proof fn lemma_rescaled_down_loses_under_one_unit(unscaled: int, from: int, to: int)
    requires
        to < from,
    ensures
        ({
            let p = pow(10, (from - to) as nat);
            let kept = rescaled(unscaled, from, to) * p;
            &&& p > 0
            &&& unscaled >= 0 ==> 0 <= unscaled - kept < p
            &&& unscaled <= 0 ==> -p < unscaled - kept <= 0
        }),
{
    let p = pow(10, (from - to) as nat);
    lemma_pow_positive(10, (from - to) as nat);
    if unscaled >= 0 {
        lemma_fundamental_div_mod(unscaled, p);
        lemma_mod_pos_bound(unscaled, p);
        assert(p * (unscaled / p) == (unscaled / p) * p) by (nonlinear_arith);
    } else {
        let q = (-unscaled) / p;
        lemma_fundamental_div_mod(-unscaled, p);
        lemma_mod_pos_bound(-unscaled, p);
        assert((-q) * p == -(p * q)) by (nonlinear_arith);
    }
}

/// Appending zeros in two steps is appending them in one.
proof fn lemma_rescaled_up_in_steps(unscaled: int, from: int, mid: int, to: int)
    requires
        from <= mid <= to,
    ensures
        rescaled(unscaled, from, to) == rescaled(unscaled, from, mid) * pow(10, (to - mid) as nat),
        pow(10, (to - mid) as nat) > 0,
{
    let p = pow(10, (mid - from) as nat);
    let q = pow(10, (to - mid) as nat);
    lemma_pow_adds(10, (mid - from) as nat, (to - mid) as nat);
    lemma_pow_positive(10, (to - mid) as nat);
    assert(unscaled * (p * q) == (unscaled * p) * q) by (nonlinear_arith);
}

/// Two decimals stand for one number if and only if their unscaled integers
/// agree at any scale that is at least both of theirs.
pub proof fn lemma_same_number_at(a: DecimalView, b: DecimalView, scale: int)
    requires
        a.scale <= scale,
        b.scale <= scale,
    ensures
        a.same_number(b) <==> rescaled(a.unscaled, a.scale, scale) == rescaled(
            b.unscaled,
            b.scale,
            scale,
        ),
{
    let larger = if a.scale >= b.scale {
        a.scale
    } else {
        b.scale
    };
    let q = pow(10, (scale - larger) as nat);
    let x = rescaled(a.unscaled, a.scale, larger);
    let y = rescaled(b.unscaled, b.scale, larger);
    lemma_rescaled_up_in_steps(a.unscaled, a.scale, larger, scale);
    lemma_rescaled_up_in_steps(b.unscaled, b.scale, larger, scale);
    assert(x * q == y * q ==> x == y) by (nonlinear_arith)
        requires
            q > 0,
    ;
}

/// To stand for one number is an equivalence, and at one scale it is to have
/// one unscaled integer.
pub proof fn lemma_same_number_is_equivalence(a: DecimalView, b: DecimalView, c: DecimalView)
    ensures
        a.same_number(a),
        a.same_number(b) ==> b.same_number(a),
        a.same_number(b) && b.same_number(c) ==> a.same_number(c),
        a.scale == b.scale ==> (a.same_number(b) <==> a.unscaled == b.unscaled),
{
    let top = if a.scale >= b.scale && a.scale >= c.scale {
        a.scale
    } else if b.scale >= c.scale {
        b.scale
    } else {
        c.scale
    };
    lemma_same_number_at(a, b, top);
    lemma_same_number_at(b, c, top);
    lemma_same_number_at(a, c, top);
    lemma_rescaled_same_scale(a.unscaled, a.scale);
    lemma_rescaled_same_scale(b.unscaled, b.scale);
}

/// Writes `a` with `scale` fractional digits, by `BigDecimal::with_scale`.
///
/// Not proved: the result has the scale asked for; where the scale grows, the
/// unscaled integer is multiplied by the power of ten, and where it shrinks,
/// divided by it, rounding toward zero. The number goes in through
/// `BigInt::from_signed_bytes_be` and `BigDecimal::new` and comes back through
/// `BigDecimal::into_bigint_and_exponent` and `BigInt::to_signed_bytes_be`,
/// which keep it as it is.
#[verifier::external_body]
pub(crate) fn rescale(a: &Decimal, scale: i16) -> (r: Decimal)
    ensures
        r@.scale == scale,
        r@.unscaled == rescaled(a@.unscaled, a@.scale, scale as int),
{
    let x = BigDecimal::new(BigInt::from_signed_bytes_be(&a.unscaled), i64::from(a.scale));
    let (n, s) = x.with_scale(i64::from(scale)).into_bigint_and_exponent();
    Decimal { unscaled: n.to_signed_bytes_be(), scale: s as i16 }
}

/// Adds two numbers of one scale, by `+=` of `BigDecimal`.
///
/// Not proved: the sum has the scale of the two, and its unscaled integer is
/// the sum of theirs. The numbers go in and come back as in [`rescale`].
#[verifier::external_body]
pub(crate) fn sum(a: &Decimal, b: &Decimal) -> (r: Decimal)
    requires
        a@.scale == b@.scale,
    ensures
        r@.scale == a@.scale,
        r@.unscaled == a@.unscaled + b@.unscaled,
{
    let mut x = BigDecimal::new(BigInt::from_signed_bytes_be(&a.unscaled), i64::from(a.scale));
    let y = BigDecimal::new(BigInt::from_signed_bytes_be(&b.unscaled), i64::from(b.scale));
    x += &y;
    let (n, s) = x.into_bigint_and_exponent();
    Decimal { unscaled: n.to_signed_bytes_be(), scale: s as i16 }
}

/// Takes `b` from `a`, two numbers of one scale, by `-=` of `BigDecimal`.
///
/// Not proved: the difference has the scale of the two, and its unscaled
/// integer is the difference of theirs. The numbers go in and come back as in
/// [`rescale`].
#[verifier::external_body]
pub(crate) fn difference(a: &Decimal, b: &Decimal) -> (r: Decimal)
    requires
        a@.scale == b@.scale,
    ensures
        r@.scale == a@.scale,
        r@.unscaled == a@.unscaled - b@.unscaled,
{
    let mut x = BigDecimal::new(BigInt::from_signed_bytes_be(&a.unscaled), i64::from(a.scale));
    let y = BigDecimal::new(BigInt::from_signed_bytes_be(&b.unscaled), i64::from(b.scale));
    x -= &y;
    let (n, s) = x.into_bigint_and_exponent();
    Decimal { unscaled: n.to_signed_bytes_be(), scale: s as i16 }
}

/// Whether `a` is at most `b`, two numbers of one scale, by `<=` of
/// `BigDecimal`.
///
/// Not proved: the two compare as their unscaled integers do. The numbers go
/// in as in [`rescale`].
#[verifier::external_body]
pub(crate) fn at_most(a: &Decimal, b: &Decimal) -> (r: bool)
    requires
        a@.scale == b@.scale,
    ensures
        r == (a@.unscaled <= b@.unscaled),
{
    let x = BigDecimal::new(BigInt::from_signed_bytes_be(&a.unscaled), i64::from(a.scale));
    let y = BigDecimal::new(BigInt::from_signed_bytes_be(&b.unscaled), i64::from(b.scale));
    x <= y
}

} // verus!
