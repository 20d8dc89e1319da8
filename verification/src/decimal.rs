//! Fixed-point decimal numbers, as plain values.
//!
//! A [`Decimal`] is a sign, a 96-bit magnitude and a scale of at most 28,
//! standing for `(-1)^negative * magnitude / 10^scale`. The arithmetic that
//! needs rounding is computed by `rust_decimal`, while the sign and zero
//! handling is written here.
use vstd::arithmetic::power::pow;
use vstd::prelude::*;

verus! {

/// Largest supported scale (number of fractional digits).
pub const MAX_SCALE: u32 = 28;

/// Largest magnitude, `2^96 - 1`.
pub const MAX_MAGNITUDE: u128 = 79228162514264337593543950335;

/// The mathematical view of a decimal: `(negative, magnitude, scale)`.
pub type DecimalView = (bool, nat, nat);

/// Signed integer `(-1)^negative * magnitude` of a decimal view.
pub open spec fn signed_mantissa(v: DecimalView) -> int {
    if v.0 {
        -(v.1 as int)
    } else {
        v.1 as int
    }
}

/// `10^n`.
pub open spec fn pow10(n: nat) -> int {
    pow(10, n)
}

/// Sign of the comparison of the two values (`-1`, `0` or `1`), by their numeric value.
pub open spec fn value_cmp(a: DecimalView, b: DecimalView) -> int {
    let x = signed_mantissa(a) * pow10(b.2);
    let y = signed_mantissa(b) * pow10(a.2);
    if x < y {
        -1
    } else if x == y {
        0
    } else {
        1
    }
}

/// The numeric order of decimals is transitive.
pub proof fn lemma_value_cmp_trans(a: DecimalView, b: DecimalView, c: DecimalView)
    requires
        value_cmp(a, b) <= 0,
        value_cmp(b, c) <= 0,
    ensures
        value_cmp(a, c) <= 0,
{
    vstd::arithmetic::power::lemma_pow_positive(10, a.2);
    vstd::arithmetic::power::lemma_pow_positive(10, b.2);
    vstd::arithmetic::power::lemma_pow_positive(10, c.2);
    let (xa, xb, xc) = (signed_mantissa(a), signed_mantissa(b), signed_mantissa(c));
    let (pa, pb, pc) = (pow10(a.2), pow10(b.2), pow10(c.2));
    assert(xa * pc <= xc * pa) by (nonlinear_arith)
        requires
            xa * pb <= xb * pa,
            xb * pc <= xc * pb,
            pa > 0,
            pb > 0,
            pc > 0,
    {
        assert(xa * pb * pc <= xb * pa * pc);
        assert(xb * pc * pa <= xc * pb * pa);
        assert(xa * pc * pb <= xc * pa * pb);
    }
}

/// Numeric equality of the two values, regardless of their scale and of the sign of zero.
pub open spec fn value_eq(a: DecimalView, b: DecimalView) -> bool {
    value_cmp(a, b) == 0
}

/// The view of a negated value.
pub open spec fn view_neg(v: DecimalView) -> DecimalView {
    (!v.0, v.1, v.2)
}

/// The view of a value, or nothing.
pub open spec fn opt_view(d: Option<Decimal>) -> Option<DecimalView> {
    match d {
        Some(x) => Some(x@),
        None => None,
    }
}

/// Result of `rust_decimal`'s `checked_add`.
pub uninterp spec fn decimal_checked_add(a: DecimalView, b: DecimalView) -> Option<DecimalView>;

/// Result of `rust_decimal`'s `checked_sub`.
pub uninterp spec fn decimal_checked_sub(a: DecimalView, b: DecimalView) -> Option<DecimalView>;

/// Result of `rust_decimal`'s `checked_mul`.
pub uninterp spec fn decimal_checked_mul(a: DecimalView, b: DecimalView) -> Option<DecimalView>;

/// Result of `rust_decimal`'s `checked_div`.
pub uninterp spec fn decimal_checked_div(a: DecimalView, b: DecimalView) -> Option<DecimalView>;

/// Result of `rust_decimal`'s `round_dp_with_strategy` with the banker's rounding.
pub uninterp spec fn decimal_round_half_even(a: DecimalView, dp: nat) -> DecimalView;

/// Result of `rust_decimal`'s `rescale`.
pub uninterp spec fn decimal_rescale(a: DecimalView, scale: nat) -> DecimalView;

/// Result of `rust_decimal`'s `normalize`.
pub uninterp spec fn decimal_normalize(a: DecimalView) -> DecimalView;

/// `r` is `a` with the trailing zeros of its fraction stripped: zero becomes `0` with scale 0
/// and no sign; any other value keeps its sign and its value, with the smallest scale that
/// holds it.
pub open spec fn stripped(a: DecimalView, r: DecimalView) -> bool {
    if a.1 == 0 {
        r == (false, 0nat, 0nat)
    } else {
        &&& r.0 == a.0
        &&& r.2 <= a.2
        &&& r.1 * pow10((a.2 - r.2) as nat) == a.1
        &&& (r.2 == 0 || r.1 % 10 != 0)
    }
}

/// Text that `rust_decimal` prints for the value.
pub uninterp spec fn decimal_display(a: DecimalView) -> Seq<char>;

/// Result of `rust_decimal`'s `FromStr`.
pub uninterp spec fn decimal_from_str(s: Seq<char>) -> Option<DecimalView>;

/// Decimal number as a sign, a magnitude and a scale.
#[derive(Clone, Copy, Debug)]
pub struct Decimal {
    negative: bool,
    magnitude: u128,
    scale: u32,
}

impl View for Decimal {
    type V = DecimalView;

    closed spec fn view(&self) -> DecimalView {
        (self.negative, self.magnitude as nat, self.scale as nat)
    }
}

impl Decimal {
    #[verifier::type_invariant]
    spec fn inv(self) -> bool {
        self.magnitude <= MAX_MAGNITUDE && self.scale <= MAX_SCALE
    }

    /// Zero with scale 0.
    pub fn zero() -> (r: Decimal)
        ensures
            r@ == (false, 0nat, 0nat),
    {
        Decimal { negative: false, magnitude: 0, scale: 0 }
    }

    /// One with scale 0.
    pub fn one() -> (r: Decimal)
        ensures
            r@ == (false, 1nat, 0nat),
    {
        Decimal { negative: false, magnitude: 1, scale: 0 }
    }

    /// Creates `num / 10^scale`, as `rust_decimal::Decimal::new` does.
    pub fn new(num: i64, scale: u32) -> (r: Decimal)
        requires
            scale <= MAX_SCALE,
        ensures
            signed_mantissa(r@) == num,
            r@.2 == scale,
            r@.0 == (num < 0),
    {
        let negative = num < 0;
        let magnitude: u128 = if negative {
            (0i128 - (num as i128)) as u128
        } else {
            num as u128
        };
        Decimal { negative, magnitude, scale }
    }

    /// Creates a decimal out of its parts, or `None` when they are out of range.
    pub fn from_parts(negative: bool, magnitude: u128, scale: u32) -> (r: Option<Decimal>)
        ensures
            r is Some <==> (magnitude <= MAX_MAGNITUDE && scale <= MAX_SCALE),
            r matches Some(d) ==> d@ == (negative, magnitude as nat, scale as nat),
    {
        if magnitude <= MAX_MAGNITUDE && scale <= MAX_SCALE {
            Some(Decimal { negative, magnitude, scale })
        } else {
            None
        }
    }

    /// Returns the scale.
    pub fn scale(&self) -> (r: u32)
        ensures
            r == self@.2,
    {
        self.scale
    }

    /// Returns the magnitude.
    pub fn magnitude(&self) -> (r: u128)
        ensures
            r == self@.1,
    {
        self.magnitude
    }

    /// Returns `true` if the value is zero, of any sign and scale.
    pub fn is_zero(&self) -> (r: bool)
        ensures
            r == (self@.1 == 0),
    {
        self.magnitude == 0
    }

    /// Returns `true` unless the sign bit is set (so `-0` is not positive).
    pub fn is_sign_positive(&self) -> (r: bool)
        ensures
            r == !self@.0,
    {
        !self.negative
    }

    /// Returns `true` if the sign bit is set.
    pub fn is_sign_negative(&self) -> (r: bool)
        ensures
            r == self@.0,
    {
        self.negative
    }

    /// Flips the sign bit, as `-x` does.
    pub fn neg(self) -> (r: Decimal)
        ensures
            r@ == view_neg(self@),
    {
        proof {
            use_type_invariant(&self);
        }
        Decimal { negative: !self.negative, magnitude: self.magnitude, scale: self.scale }
    }

    /// Clears the sign bit.
    pub fn abs(self) -> (r: Decimal)
        ensures
            r@ == (false, self@.1, self@.2),
    {
        proof {
            use_type_invariant(&self);
        }
        Decimal { negative: false, magnitude: self.magnitude, scale: self.scale }
    }

    /// Sets the sign bit to `!positive`.
    pub fn set_sign_positive(&mut self, positive: bool)
        ensures
            final(self)@ == (!positive, old(self)@.1, old(self)@.2),
    {
        proof {
            use_type_invariant(&*self);
        }
        let m = self.magnitude;
        let s = self.scale;
        *self = Decimal { negative: !positive, magnitude: m, scale: s };
    }

    /// Splits the value into the words, the sign and the scale that `rust_decimal` takes.
    pub(crate) fn parts(&self) -> (r: (u32, u32, u32, bool, u32))
        ensures
            r.0 as int + r.1 as int * 0x1_0000_0000 + r.2 as int * 0x1_0000_0000_0000_0000
                == self@.1,
            r.3 == self@.0,
            r.4 == self@.2,
    {
        proof {
            use_type_invariant(self);
        }
        let m = self.magnitude;
        let lo = (m % 0x1_0000_0000) as u32;
        let mid = ((m / 0x1_0000_0000) % 0x1_0000_0000) as u32;
        let hi = (m / 0x1_0000_0000_0000_0000) as u32;
        assert(m / 0x1_0000_0000_0000_0000 < 0x1_0000_0000);
        assert(m == (m % 0x1_0000_0000) + ((m / 0x1_0000_0000) % 0x1_0000_0000) * 0x1_0000_0000
            + (m / 0x1_0000_0000_0000_0000) * 0x1_0000_0000_0000_0000) by (nonlinear_arith);
        (lo, mid, hi, self.negative, self.scale)
    }

    /// Numeric equality, regardless of the scale and of the sign of zero.
    pub fn value_eq(&self, other: &Decimal) -> (r: bool)
        ensures
            r == value_eq(self@, other@),
    {
        external_cmp(self, other) == 0
    }

    /// Numeric `<`.
    pub fn value_lt(&self, other: &Decimal) -> (r: bool)
        ensures
            r == (value_cmp(self@, other@) < 0),
    {
        external_cmp(self, other) < 0
    }

    /// `self + other`, or `None` on overflow.
    pub fn checked_add(self, other: Decimal) -> (r: Option<Decimal>)
        ensures
            opt_view(r) == decimal_checked_add(self@, other@),
            self@.1 == 0 ==> r == Some(other),
            self@.1 != 0 && other@.1 == 0 ==> r == Some(self),
    {
        external_checked_add(self, other)
    }

    /// `self - other`, or `None` on overflow.
    pub fn checked_sub(self, other: Decimal) -> (r: Option<Decimal>)
        ensures
            opt_view(r) == decimal_checked_sub(self@, other@),
            other@.1 == 0 && self@.1 != 0 ==> r == Some(self),
            self@.1 == 0 && other@.1 == 0 ==> r == Some(other),
            self@.1 == 0 && other@.1 != 0 ==> opt_view(r) == Some(view_neg(other@)),
    {
        external_checked_sub(self, other)
    }

    /// `self * other`, or `None` on overflow.
    pub fn checked_mul(self, other: Decimal) -> (r: Option<Decimal>)
        ensures
            opt_view(r) == decimal_checked_mul(self@, other@),
    {
        external_checked_mul(self, other)
    }

    /// `self / other`, or `None` on overflow or division by zero.
    pub fn checked_div(self, other: Decimal) -> (r: Option<Decimal>)
        ensures
            opt_view(r) == decimal_checked_div(self@, other@),
            other@.1 == 0 ==> r is None,
    {
        external_checked_div(self, other)
    }

    /// Rounds to `dp` fractional digits, ties to even.
    pub fn round_half_even(self, dp: u32) -> (r: Decimal)
        ensures
            r@ == decimal_round_half_even(self@, dp as nat),
            self@.2 <= dp ==> r == self,
    {
        external_round_half_even(self, dp)
    }

    /// Changes the scale, rounding or padding the value.
    pub fn rescale(self, scale: u32) -> (r: Decimal)
        ensures
            r@ == decimal_rescale(self@, scale as nat),
    {
        external_rescale(self, scale)
    }

    /// Strips the trailing zeros of the fraction.
    pub fn normalize(self) -> (r: Decimal)
        ensures
            r@ == decimal_normalize(self@),
            stripped(self@, r@),
    {
        external_normalize(self)
    }

    /// Text representation, as `rust_decimal` prints it.
    pub fn to_string(&self) -> (r: String)
        ensures
            r@ == decimal_display(self@),
    {
        external_to_string(self)
    }

    /// Parses the text, as `rust_decimal`'s `FromStr` does.
    pub fn parse(s: &str) -> (r: Option<Decimal>)
        ensures
            opt_view(r) == decimal_from_str(s@),
    {
        external_from_str(s)
    }
}

/// Numeric equality, as `rust_decimal` compares.
impl PartialEq for Decimal {
    fn eq(&self, other: &Self) -> (r: bool) {
        self.value_eq(other)
    }
}

impl vstd::std_specs::cmp::PartialEqSpecImpl for Decimal {
    open spec fn obeys_eq_spec() -> bool {
        true
    }

    open spec fn eq_spec(&self, other: &Self) -> bool {
        value_eq(self@, other@)
    }
}

impl Eq for Decimal {

}

/// `rust_decimal::Decimal::cmp`, which compares the numeric values: `-1`, `0` or `1`.
#[verifier::external_body]
fn external_cmp(a: &Decimal, b: &Decimal) -> (r: i8)
    ensures
        r == value_cmp(a@, b@),
{
    let (x, y) = (a.parts(), b.parts());
    let mut p = rust_decimal::Decimal::from_parts(x.0, x.1, x.2, x.3, x.4);
    let mut q = rust_decimal::Decimal::from_parts(y.0, y.1, y.2, y.3, y.4);
    p.set_sign_negative(x.3);
    q.set_sign_negative(y.3);
    match p.cmp(&q) {
        std::cmp::Ordering::Less => -1,
        std::cmp::Ordering::Equal => 0,
        std::cmp::Ordering::Greater => 1,
    }
}

/// `rust_decimal::Decimal::checked_add`; adding a zero gives the other operand back unchanged.
#[verifier::external_body]
fn external_checked_add(a: Decimal, b: Decimal) -> (r: Option<Decimal>)
    ensures
        opt_view(r) == decimal_checked_add(a@, b@),
        a@.1 == 0 ==> r == Some(b),
        a@.1 != 0 && b@.1 == 0 ==> r == Some(a),
{
    let (x, y) = (a.parts(), b.parts());
    let mut p = rust_decimal::Decimal::from_parts(x.0, x.1, x.2, x.3, x.4);
    let mut q = rust_decimal::Decimal::from_parts(y.0, y.1, y.2, y.3, y.4);
    p.set_sign_negative(x.3);
    q.set_sign_negative(y.3);
    p.checked_add(q).map(|v| Decimal { negative: v.is_sign_negative(), magnitude: v.mantissa().unsigned_abs(), scale: v.scale() })
}

/// `rust_decimal::Decimal::checked_sub`; subtracting zero gives `a` back, and subtracting from
/// zero flips the sign of a non-zero `b`.
#[verifier::external_body]
fn external_checked_sub(a: Decimal, b: Decimal) -> (r: Option<Decimal>)
    ensures
        opt_view(r) == decimal_checked_sub(a@, b@),
        b@.1 == 0 && a@.1 != 0 ==> r == Some(a),
        a@.1 == 0 && b@.1 == 0 ==> r == Some(b),
        a@.1 == 0 && b@.1 != 0 ==> opt_view(r) == Some(view_neg(b@)),
{
    let (x, y) = (a.parts(), b.parts());
    let mut p = rust_decimal::Decimal::from_parts(x.0, x.1, x.2, x.3, x.4);
    let mut q = rust_decimal::Decimal::from_parts(y.0, y.1, y.2, y.3, y.4);
    p.set_sign_negative(x.3);
    q.set_sign_negative(y.3);
    p.checked_sub(q).map(|v| Decimal { negative: v.is_sign_negative(), magnitude: v.mantissa().unsigned_abs(), scale: v.scale() })
}

/// `rust_decimal::Decimal::checked_mul`.
#[verifier::external_body]
fn external_checked_mul(a: Decimal, b: Decimal) -> (r: Option<Decimal>)
    ensures
        opt_view(r) == decimal_checked_mul(a@, b@),
{
    let (x, y) = (a.parts(), b.parts());
    let mut p = rust_decimal::Decimal::from_parts(x.0, x.1, x.2, x.3, x.4);
    let mut q = rust_decimal::Decimal::from_parts(y.0, y.1, y.2, y.3, y.4);
    p.set_sign_negative(x.3);
    q.set_sign_negative(y.3);
    p.checked_mul(q).map(|v| Decimal { negative: v.is_sign_negative(), magnitude: v.mantissa().unsigned_abs(), scale: v.scale() })
}

/// `rust_decimal::Decimal::checked_div`; dividing by zero gives `None`.
#[verifier::external_body]
fn external_checked_div(a: Decimal, b: Decimal) -> (r: Option<Decimal>)
    ensures
        opt_view(r) == decimal_checked_div(a@, b@),
        b@.1 == 0 ==> r is None,
{
    let (x, y) = (a.parts(), b.parts());
    let mut p = rust_decimal::Decimal::from_parts(x.0, x.1, x.2, x.3, x.4);
    let mut q = rust_decimal::Decimal::from_parts(y.0, y.1, y.2, y.3, y.4);
    p.set_sign_negative(x.3);
    q.set_sign_negative(y.3);
    p.checked_div(q).map(|v| Decimal { negative: v.is_sign_negative(), magnitude: v.mantissa().unsigned_abs(), scale: v.scale() })
}

/// `rust_decimal::Decimal::round_dp_with_strategy` with `MidpointNearestEven`; a value with no
/// more than `dp` fractional digits is returned unchanged.
#[verifier::external_body]
fn external_round_half_even(a: Decimal, dp: u32) -> (r: Decimal)
    ensures
        r@ == decimal_round_half_even(a@, dp as nat),
        a@.2 <= dp ==> r == a,
{
    let x = a.parts();
    let mut p = rust_decimal::Decimal::from_parts(x.0, x.1, x.2, x.3, x.4);
    p.set_sign_negative(x.3);
    let v = p.round_dp_with_strategy(dp, rust_decimal::RoundingStrategy::MidpointNearestEven);
    Decimal { negative: v.is_sign_negative(), magnitude: v.mantissa().unsigned_abs(), scale: v.scale() }
}

/// `rust_decimal::Decimal::rescale`.
#[verifier::external_body]
fn external_rescale(a: Decimal, scale: u32) -> (r: Decimal)
    ensures
        r@ == decimal_rescale(a@, scale as nat),
{
    let x = a.parts();
    let mut p = rust_decimal::Decimal::from_parts(x.0, x.1, x.2, x.3, x.4);
    p.set_sign_negative(x.3);
    p.rescale(scale);
    Decimal { negative: p.is_sign_negative(), magnitude: p.mantissa().unsigned_abs(), scale: p.scale() }
}

/// `rust_decimal::Decimal::normalize`: strips the trailing zeros of the fraction (while the
/// scale is positive and the mantissa divisible by ten) and turns a zero into `0` with no sign.
#[verifier::external_body]
fn external_normalize(a: Decimal) -> (r: Decimal)
    ensures
        r@ == decimal_normalize(a@),
        stripped(a@, r@),
{
    let x = a.parts();
    let mut p = rust_decimal::Decimal::from_parts(x.0, x.1, x.2, x.3, x.4);
    p.set_sign_negative(x.3);
    let v = p.normalize();
    Decimal { negative: v.is_sign_negative(), magnitude: v.mantissa().unsigned_abs(), scale: v.scale() }
}

/// `Display` of `rust_decimal::Decimal`.
#[verifier::external_body]
fn external_to_string(a: &Decimal) -> (r: String)
    ensures
        r@ == decimal_display(a@),
{
    let x = a.parts();
    let mut p = rust_decimal::Decimal::from_parts(x.0, x.1, x.2, x.3, x.4);
    p.set_sign_negative(x.3);
    p.to_string()
}

/// `FromStr` of `rust_decimal::Decimal`.
#[verifier::external_body]
fn external_from_str(s: &str) -> (r: Option<Decimal>)
    ensures
        opt_view(r) == decimal_from_str(s@),
{
    let v: rust_decimal::Decimal = s.parse().ok()?;
    Some(Decimal { negative: v.is_sign_negative(), magnitude: v.mantissa().unsigned_abs(), scale: v.scale() })
}

} // verus!
