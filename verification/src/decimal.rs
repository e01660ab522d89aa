//! Fixed point decimal numbers, held as a mantissa and a power of ten
//! scale; the arithmetic itself is done by `rust_decimal`.

use vstd::prelude::*;
use vstd::arithmetic::power::pow;
use crate::text::decimal_digits;

verus! {

/// The largest magnitude of a mantissa (`2^96 - 1`).
pub const MAX_MANTISSA: i128 = 0xFFFF_FFFF_FFFF_FFFF_FFFF_FFFF;

/// The largest number of digits after the decimal point.
pub const MAX_SCALE: u32 = 28;

/// A decimal number whose value is `mantissa / 10^scale`.
#[derive(Clone, Copy, Debug)]
pub struct Decimal {
    mantissa: i128,
    scale: u32,
}

/// `10^e`.
pub open spec fn ten_pow(e: int) -> int {
    pow(10, e as nat)
}

/// The number with parts `a` is smaller than the one with parts `b`.
pub open spec fn parts_lt(a: (int, int), b: (int, int)) -> bool {
    a.0 * ten_pow(b.1) < b.0 * ten_pow(a.1)
}

/// The numbers with parts `a` and `b` have the same value.
pub open spec fn parts_eq(a: (int, int), b: (int, int)) -> bool {
    a.0 * ten_pow(b.1) == b.0 * ten_pow(a.1)
}

/// Parts of the checked sum computed by `rust_decimal`, `None` on overflow.
pub uninterp spec fn checked_sum(a: (int, int), b: (int, int)) -> Option<(int, int)>;

/// The sums that `rust_decimal` computes exactly: adding zero gives the
/// other number back (its parts unchanged); adding two numbers of one
/// scale whose mantissas' sum fits in 96 bits gives that sum at that
/// scale; and adding numbers of different scales, where the mantissa of
/// the one of smaller scale, brought to the larger scale, and the sum of
/// the mantissas at that scale both fit in 96 bits, gives that sum at the
/// larger scale. `None` for the other operands, whose sum this does not
/// say.
pub open spec fn exact_sum(a: (int, int), b: (int, int)) -> Option<(int, int)> {
    if a.0 == 0 {
        Some(b)
    } else if b.0 == 0 {
        Some(a)
    } else if a.1 == b.1 {
        if -MAX_MANTISSA <= a.0 + b.0 <= MAX_MANTISSA {
            Some((a.0 + b.0, a.1))
        } else {
            None
        }
    } else {
        let s = if a.1 < b.1 { b.1 } else { a.1 };
        let ma = a.0 * ten_pow(s - a.1);
        let mb = b.0 * ten_pow(s - b.1);
        if -MAX_MANTISSA <= ma <= MAX_MANTISSA && -MAX_MANTISSA <= mb <= MAX_MANTISSA && -MAX_MANTISSA <= ma + mb
            <= MAX_MANTISSA {
            Some((ma + mb, s))
        } else {
            None
        }
    }
}

/// The differences that `rust_decimal` computes exactly: those of the sums
/// of `exact_sum` with the negated second operand (zero minus a number is
/// its negation, a number minus zero is itself, and two numbers of one
/// scale whose mantissas' difference fits give that difference).
pub open spec fn exact_difference(a: (int, int), b: (int, int)) -> Option<(int, int)> {
    exact_sum(a, (-b.0, b.1))
}

/// Parts of the checked difference computed by `rust_decimal`.
pub uninterp spec fn checked_difference(a: (int, int), b: (int, int)) -> Option<(int, int)>;

/// Parts of the checked product computed by `rust_decimal`.
pub uninterp spec fn checked_product(a: (int, int), b: (int, int)) -> Option<(int, int)>;

/// Parts of the checked quotient computed by `rust_decimal`.
pub uninterp spec fn checked_quotient(a: (int, int), b: (int, int)) -> Option<(int, int)>;

/// The decimal digits of `n`, without leading zeros; none for zero.
pub open spec fn magnitude_digits(n: int) -> Seq<char> {
    if n <= 0 {
        Seq::empty()
    } else {
        decimal_digits(n as nat)
    }
}

/// The digits of the magnitude of the number with parts `p`, with zeros
/// in front where there are fewer digits than the scale.
pub open spec fn padded_digits(p: (int, int)) -> Seq<char> {
    let d = magnitude_digits(if p.0 < 0 { -p.0 } else { p.0 });
    if d.len() < p.1 {
        Seq::new((p.1 - d.len()) as nat, |i: int| '0') + d
    } else {
        d
    }
}

/// How `rust_decimal` writes the number with these parts: a `-` when it
/// is negative, then the digits of its magnitude, padded with zeros to the
/// scale, with a point before the last `scale` of them and a `0` before
/// the point where no digit is left; `0` for zero at scale zero.
pub open spec fn decimal_text(p: (int, int)) -> Seq<char> {
    let padded = padded_digits(p);
    let whole = padded.take(padded.len() - p.1);
    let body = if p.1 == 0 {
        if padded.len() == 0 {
            seq!['0']
        } else {
            padded
        }
    } else {
        (if whole.len() == 0 {
            seq!['0']
        } else {
            whole
        }) + seq!['.'] + padded.skip(padded.len() - p.1)
    };
    (if p.0 < 0 {
        seq!['-']
    } else {
        Seq::empty()
    }) + body
}

/// Parts of the number that `rust_decimal` parses from a string.
pub uninterp spec fn parsed_decimal(s: Seq<char>) -> Option<(int, int)>;

impl View for Decimal {
    type V = (int, int);

    closed spec fn view(&self) -> (int, int) {
        (self.mantissa as int, self.scale as int)
    }
}

impl Decimal {
    /// The decimal with these parts (meaningful for parts in range).
    pub closed spec fn of_parts(p: (int, int)) -> Decimal {
        Decimal { mantissa: p.0 as i128, scale: p.1 as u32 }
    }

    /// A decimal is the one built from its own parts.
    pub proof fn lemma_of_parts(d: Decimal)
        ensures
            #[trigger] Decimal::of_parts(d@) == d,
    {
    }

    /// The decimal built from parts in range has those parts.
    pub proof fn lemma_of_parts_view(p: (int, int))
        requires
            -MAX_MANTISSA <= p.0 <= MAX_MANTISSA,
            0 <= p.1 <= MAX_SCALE,
        ensures
            #[trigger] Decimal::of_parts(p)@ == p,
    {
    }

    #[verifier::type_invariant]
    closed spec fn parts_in_range(self) -> bool {
        &&& -MAX_MANTISSA <= self.mantissa <= MAX_MANTISSA
        &&& self.scale <= MAX_SCALE
    }

    /// The parts of this decimal are in the range `rust_decimal` accepts.
    pub fn parts_in_range_check(&self) -> (b: bool)
        ensures
            b,
            -MAX_MANTISSA <= self@.0 <= MAX_MANTISSA,
            0 <= self@.1 <= MAX_SCALE,
    {
        proof { use_type_invariant(self); }
        true
    }

    /// The decimal `num / 10^scale`.
    pub fn new(num: i64, scale: u32) -> (d: Decimal)
        requires
            scale <= MAX_SCALE,
        ensures
            d@ == (num as int, scale as int),
    {
        Decimal { mantissa: num as i128, scale }
    }

    /// The decimal `num / 10^scale` from a 128 bit mantissa.
    pub fn from_i128_with_scale(num: i128, scale: u32) -> (d: Decimal)
        requires
            scale <= MAX_SCALE,
            -MAX_MANTISSA <= num <= MAX_MANTISSA,
        ensures
            d@ == (num as int, scale as int),
    {
        Decimal { mantissa: num, scale }
    }

    /// Zero, with scale zero.
    pub fn zero() -> (d: Decimal)
        ensures
            d@ == (0int, 0int),
    {
        Decimal { mantissa: 0, scale: 0 }
    }

    /// The mantissa.
    pub fn mantissa(&self) -> (m: i128)
        ensures
            m == self@.0,
    {
        self.mantissa
    }

    /// The scale.
    pub fn scale(&self) -> (s: u32)
        ensures
            s == self@.1,
    {
        self.scale
    }

    /// The negated number (same scale).
    pub fn neg(&self) -> (d: Decimal)
        ensures
            d@ == (-self@.0, self@.1),
    {
        proof { use_type_invariant(self); }
        Decimal { mantissa: -self.mantissa, scale: self.scale }
    }

    /// `self` is zero.
    pub fn is_zero(&self) -> (b: bool)
        ensures
            b == (self@.0 == 0),
    {
        self.mantissa == 0
    }
}

impl Decimal {
    /// `self + other`, `None` on overflow.
    pub fn checked_add(&self, other: &Decimal) -> (r: Option<Decimal>)
        ensures
            r is Some <==> checked_sum(self@, other@) is Some,
            r matches Some(d) ==> d@ == checked_sum(self@, other@)->0,
            exact_sum(self@, other@) is Some ==> checked_sum(self@, other@) == exact_sum(self@, other@),
    {
        outside_checked_add(self, other)
    }

    /// `self - other`, `None` on overflow.
    pub fn checked_sub(&self, other: &Decimal) -> (r: Option<Decimal>)
        ensures
            r is Some <==> checked_difference(self@, other@) is Some,
            r matches Some(d) ==> d@ == checked_difference(self@, other@)->0,
            exact_difference(self@, other@) is Some ==> checked_difference(self@, other@) == exact_difference(self@, other@),
    {
        outside_checked_sub(self, other)
    }

    /// `self * other`, `None` on overflow.
    pub fn checked_mul(&self, other: &Decimal) -> (r: Option<Decimal>)
        ensures
            r is Some <==> checked_product(self@, other@) is Some,
            r matches Some(d) ==> d@ == checked_product(self@, other@)->0,
    {
        outside_checked_mul(self, other)
    }

    /// `self / other`, `None` on overflow or division by zero.
    pub fn checked_div(&self, other: &Decimal) -> (r: Option<Decimal>)
        ensures
            r is Some <==> checked_quotient(self@, other@) is Some,
            r matches Some(d) ==> d@ == checked_quotient(self@, other@)->0,
            other@.0 == 0 ==> r is None,
    {
        outside_checked_div(self, other)
    }

    /// `self + other`, for operands whose sum does not overflow.
    pub(crate) fn add(&self, other: &Decimal) -> (d: Decimal)
        requires
            checked_sum(self@, other@) is Some,
        ensures
            d@ == checked_sum(self@, other@)->0,
            exact_sum(self@, other@) is Some ==> checked_sum(self@, other@) == exact_sum(self@, other@),
    {
        outside_checked_add(self, other).unwrap()
    }

    /// `self - other`, for operands whose difference does not overflow.
    pub(crate) fn sub(&self, other: &Decimal) -> (d: Decimal)
        requires
            checked_difference(self@, other@) is Some,
        ensures
            d@ == checked_difference(self@, other@)->0,
            exact_difference(self@, other@) is Some ==> checked_difference(self@, other@) == exact_difference(self@, other@),
    {
        outside_checked_sub(self, other).unwrap()
    }

    /// `self * other`, for operands whose product does not overflow.
    pub(crate) fn mul(&self, other: &Decimal) -> (d: Decimal)
        requires
            checked_product(self@, other@) is Some,
        ensures
            d@ == checked_product(self@, other@)->0,
    {
        outside_checked_mul(self, other).unwrap()
    }

    /// `self / other`, for a non zero divisor and a quotient that does not
    /// overflow.
    pub(crate) fn div(&self, other: &Decimal) -> (d: Decimal)
        requires
            checked_quotient(self@, other@) is Some,
        ensures
            d@ == checked_quotient(self@, other@)->0,
    {
        outside_checked_div(self, other).unwrap()
    }

    /// `self < other`, comparing values.
    pub fn lt(&self, other: &Decimal) -> (b: bool)
        ensures
            b == parts_lt(self@, other@),
    {
        outside_lt(self, other)
    }

    /// `self > other`, comparing values.
    pub fn gt(&self, other: &Decimal) -> (b: bool)
        ensures
            b == parts_lt(other@, self@),
    {
        outside_lt(other, self)
    }

    /// `self <= other`, comparing values.
    pub fn le(&self, other: &Decimal) -> (b: bool)
        ensures
            b == !parts_lt(other@, self@),
    {
        !outside_lt(other, self)
    }

    /// `self >= other`, comparing values.
    pub fn ge(&self, other: &Decimal) -> (b: bool)
        ensures
            b == !parts_lt(self@, other@),
    {
        !outside_lt(self, other)
    }

    /// `self` and `other` have the same value (possibly at different scales).
    pub fn equals(&self, other: &Decimal) -> (b: bool)
        ensures
            b == parts_eq(self@, other@),
    {
        outside_eq(self, other)
    }

    /// The number written out as `rust_decimal` writes it, such as `"2.50"`
    /// for mantissa 250 and scale 2.
    pub fn to_display_string(&self) -> (s: String)
        ensures
            s@ == decimal_text(self@),
    {
        outside_to_string(self)
    }

    /// Parses a decimal from a string such as `"-2.52"`; `None` when the
    /// string is not a number.
    pub fn from_str(s: &str) -> (r: Option<Decimal>)
        ensures
            r is Some <==> parsed_decimal(s@) is Some,
            r matches Some(d) ==> d@ == parsed_decimal(s@)->0,
    {
        outside_parse(s)
    }
}

impl PartialEq for Decimal {
    fn eq(&self, other: &Decimal) -> (b: bool) {
        outside_eq(self, other)
    }
}

impl vstd::std_specs::cmp::PartialEqSpecImpl for Decimal {
    open spec fn obeys_eq_spec() -> bool {
        true
    }

    open spec fn eq_spec(&self, other: &Decimal) -> bool {
        parts_eq(self@, other@)
    }
}

/// The value of a decimal is zero exactly when its mantissa is zero.
pub proof fn law_zero_value(a: (int, int), z: (int, int))
    requires
        z.0 == 0,
        0 <= a.1,
        0 <= z.1,
    ensures
        parts_eq(a, z) <==> a.0 == 0,
        parts_lt(a, z) <==> a.0 < 0,
        parts_lt(z, a) <==> a.0 > 0,
{
    vstd::arithmetic::power::lemma_pow_positive(10, a.1 as nat);
    vstd::arithmetic::power::lemma_pow_positive(10, z.1 as nat);
    let pa = ten_pow(a.1);
    let pz = ten_pow(z.1);
    assert(a.0 * pz == 0 <==> a.0 == 0) by (nonlinear_arith)
        requires pz > 0;
    assert(a.0 * pz < 0 <==> a.0 < 0) by (nonlinear_arith)
        requires pz > 0;
    assert(a.0 * pz > 0 <==> a.0 > 0) by (nonlinear_arith)
        requires pz > 0;
    assert(z.0 * pa == 0) by (nonlinear_arith)
        requires z.0 == 0;
}


/// The order of decimal numbers: of two numbers exactly one is smaller,
/// or they are equal; and "smaller" is the converse of "greater".
pub proof fn law_order_trichotomy(a: (int, int), b: (int, int))
    ensures
        parts_lt(a, b) || parts_eq(a, b) || parts_lt(b, a),
        !(parts_lt(a, b) && parts_eq(a, b)),
        !(parts_lt(a, b) && parts_lt(b, a)),
        !(parts_eq(a, b) && parts_lt(b, a)),
        parts_eq(a, b) == parts_eq(b, a),
{
}

/// Equality of decimal numbers by value is an equivalence: reflexive and
/// transitive (it is symmetric by the order law).
pub proof fn law_value_equality(a: (int, int), b: (int, int), c: (int, int))
    ensures
        parts_eq(a, a),
        parts_eq(a, b) && parts_eq(b, c) ==> parts_eq(a, c),
{
    if parts_eq(a, b) && parts_eq(b, c) {
        lemma_scale_chain(a, b, c);
    }
}

/// "Smaller" chains through "at most": a < b and b <= c give a < c, and
/// a <= b and b < c give a < c.
pub proof fn law_order_transitive(a: (int, int), b: (int, int), c: (int, int))
    ensures
        parts_lt(a, b) && !parts_lt(c, b) ==> parts_lt(a, c),
        !parts_lt(b, a) && parts_lt(b, c) ==> parts_lt(a, c),
        !parts_lt(b, a) && !parts_lt(c, b) ==> !parts_lt(c, a),
{
    lemma_scale_chain(a, b, c);
}

/// The cross products of three numbers, scaled to a common power of ten.
proof fn lemma_scale_chain(a: (int, int), b: (int, int), c: (int, int))
    ensures
        a.0 * ten_pow(b.1) < b.0 * ten_pow(a.1) && b.0 * ten_pow(c.1) <= c.0 * ten_pow(b.1) ==> a.0 * ten_pow(c.1) < c.0 * ten_pow(a.1),
        a.0 * ten_pow(b.1) <= b.0 * ten_pow(a.1) && b.0 * ten_pow(c.1) < c.0 * ten_pow(b.1) ==> a.0 * ten_pow(c.1) < c.0 * ten_pow(a.1),
        a.0 * ten_pow(b.1) <= b.0 * ten_pow(a.1) && b.0 * ten_pow(c.1) <= c.0 * ten_pow(b.1) ==> a.0 * ten_pow(c.1) <= c.0 * ten_pow(a.1),
        a.0 * ten_pow(b.1) == b.0 * ten_pow(a.1) && b.0 * ten_pow(c.1) == c.0 * ten_pow(b.1) ==> a.0 * ten_pow(c.1) == c.0 * ten_pow(a.1),
{
    vstd::arithmetic::power::lemma_pow_positive(10, a.1 as nat);
    vstd::arithmetic::power::lemma_pow_positive(10, b.1 as nat);
    vstd::arithmetic::power::lemma_pow_positive(10, c.1 as nat);
    let pa = ten_pow(a.1);
    let pb = ten_pow(b.1);
    let pc = ten_pow(c.1);
    lemma_cross_chain(a.0, b.0, c.0, pa, pb, pc);
}

/// Cross multiplication chains through positive factors.
proof fn lemma_cross_chain(x: int, y: int, z: int, px: int, py: int, pz: int)
    by (nonlinear_arith)
    requires
        px > 0,
        py > 0,
        pz > 0,
    ensures
        x * py < y * px && y * pz <= z * py ==> x * pz < z * px,
        x * py <= y * px && y * pz < z * py ==> x * pz < z * px,
        x * py <= y * px && y * pz <= z * py ==> x * pz <= z * px,
        x * py == y * px && y * pz == z * py ==> x * pz == z * px,
{
    if x * py < y * px && y * pz <= z * py {
        assert(x * py * pz < y * px * pz);
        assert(y * pz * px <= z * py * px);
        assert(x * pz * py < z * px * py);
    }
    if x * py <= y * px && y * pz < z * py {
        assert(x * py * pz <= y * px * pz);
        assert(y * pz * px < z * py * px);
        assert(x * pz * py < z * px * py);
    }
    if x * py <= y * px && y * pz <= z * py {
        assert(x * py * pz <= y * px * pz);
        assert(y * pz * px <= z * py * px);
        assert(x * pz * py <= z * px * py);
    }
    if x * py == y * px && y * pz == z * py {
        assert(x * py * pz == y * px * pz);
        assert(y * pz * px == z * py * px);
        assert(x * pz * py == z * px * py);
    }
}

/// Calls `rust_decimal::Decimal::checked_add` on the two numbers; the
/// contract names the result (`None` on overflow), and says that the sums
/// of `exact_sum` come out exact: adding zero returns the other operand,
/// and operands whose mantissas, brought to the larger scale, and their
/// sum fit in 96 bits are added on those mantissas, at that scale
/// (rust_decimal's `add_sub_internal`, `fast_add`, `unaligned_add` and
/// `aligned_add` scale the operand of smaller scale up and round only
/// where that operand or the sum leaves 96 bits).
#[verifier::external_body]
fn outside_checked_add(a: &Decimal, b: &Decimal) -> (r: Option<Decimal>)
    ensures
        r is Some <==> checked_sum(a@, b@) is Some,
        r matches Some(d) ==> d@ == checked_sum(a@, b@)->0 && (exact_sum(a@, b@) is Some ==> d@ == exact_sum(a@, b@)->0),
        exact_sum(a@, b@) is Some ==> r is Some,
{
    let x = rust_decimal::Decimal::from_i128_with_scale(a.mantissa, a.scale);
    let y = rust_decimal::Decimal::from_i128_with_scale(b.mantissa, b.scale);
    x.checked_add(y).map(|d| Decimal { mantissa: d.mantissa(), scale: d.scale() })
}

/// Calls `rust_decimal::Decimal::checked_sub`; the contract names the
/// result (`None` on overflow), and says that the differences of
/// `exact_difference` come out exact (rust_decimal subtracts with the code
/// that adds, `add_sub_internal`, on the negated second operand: zero minus
/// a number returns it negated, a number minus zero returns it, and other
/// operands are subtracted on their mantissas at the larger scale where
/// those and the difference fit in 96 bits).
#[verifier::external_body]
fn outside_checked_sub(a: &Decimal, b: &Decimal) -> (r: Option<Decimal>)
    ensures
        r is Some <==> checked_difference(a@, b@) is Some,
        r matches Some(d) ==> d@ == checked_difference(a@, b@)->0 && (exact_difference(a@, b@) is Some ==> d@ == exact_difference(a@, b@)->0),
        exact_difference(a@, b@) is Some ==> r is Some,
{
    let x = rust_decimal::Decimal::from_i128_with_scale(a.mantissa, a.scale);
    let y = rust_decimal::Decimal::from_i128_with_scale(b.mantissa, b.scale);
    x.checked_sub(y).map(|d| Decimal { mantissa: d.mantissa(), scale: d.scale() })
}

/// Calls `rust_decimal::Decimal::checked_mul`; the contract names the result.
#[verifier::external_body]
fn outside_checked_mul(a: &Decimal, b: &Decimal) -> (r: Option<Decimal>)
    ensures
        r is Some <==> checked_product(a@, b@) is Some,
        r matches Some(d) ==> d@ == checked_product(a@, b@)->0,
{
    let x = rust_decimal::Decimal::from_i128_with_scale(a.mantissa, a.scale);
    let y = rust_decimal::Decimal::from_i128_with_scale(b.mantissa, b.scale);
    x.checked_mul(y).map(|d| Decimal { mantissa: d.mantissa(), scale: d.scale() })
}

/// Calls `rust_decimal::Decimal::checked_div`; the contract names the
/// result, and says that a zero divisor gives `None`.
#[verifier::external_body]
fn outside_checked_div(a: &Decimal, b: &Decimal) -> (r: Option<Decimal>)
    ensures
        r is Some <==> checked_quotient(a@, b@) is Some,
        r matches Some(d) ==> d@ == checked_quotient(a@, b@)->0,
        b@.0 == 0 ==> r is None,
{
    let x = rust_decimal::Decimal::from_i128_with_scale(a.mantissa, a.scale);
    let y = rust_decimal::Decimal::from_i128_with_scale(b.mantissa, b.scale);
    x.checked_div(y).map(|d| Decimal { mantissa: d.mantissa(), scale: d.scale() })
}

/// Compares with `<` on `rust_decimal::Decimal`, which orders by value.
#[verifier::external_body]
fn outside_lt(a: &Decimal, b: &Decimal) -> (r: bool)
    ensures
        r == parts_lt(a@, b@),
{
    let x = rust_decimal::Decimal::from_i128_with_scale(a.mantissa, a.scale);
    let y = rust_decimal::Decimal::from_i128_with_scale(b.mantissa, b.scale);
    x < y
}

/// Compares with `==` on `rust_decimal::Decimal`, which compares values.
#[verifier::external_body]
fn outside_eq(a: &Decimal, b: &Decimal) -> (r: bool)
    ensures
        r == parts_eq(a@, b@),
{
    let x = rust_decimal::Decimal::from_i128_with_scale(a.mantissa, a.scale);
    let y = rust_decimal::Decimal::from_i128_with_scale(b.mantissa, b.scale);
    x == y
}

/// Writes the number with `rust_decimal::Decimal`'s `Display` (through
/// `to_str_internal`, without a precision): the contract states the text
/// as `decimal_text`. The number is built from the mantissa, so zero has
/// no sign.
#[verifier::external_body]
fn outside_to_string(d: &Decimal) -> (s: String)
    ensures
        s@ == decimal_text(d@),
{
    rust_decimal::Decimal::from_i128_with_scale(d.mantissa, d.scale).to_string()
}

/// Calls `<rust_decimal::Decimal as FromStr>::from_str`; the contract
/// names the result.
#[verifier::external_body]
fn outside_parse(s: &str) -> (r: Option<Decimal>)
    ensures
        r is Some <==> parsed_decimal(s@) is Some,
        r matches Some(d) ==> d@ == parsed_decimal(s@)->0,
{
    <rust_decimal::Decimal as std::str::FromStr>::from_str(s).ok().map(
        |d| Decimal { mantissa: d.mantissa(), scale: d.scale() },
    )
}

} // verus!
