//! Amounts of a single commodity, or zero.
use crate::commodity::{CommodityStore, CommodityTag, map_at};
use crate::context::ReportContext;
use crate::decimal::{
    Decimal, DecimalView, decimal_checked_add, decimal_checked_div, decimal_checked_mul,
    decimal_display, decimal_round_half_even, view_neg,
};
use crate::eval::error::EvalError;
use crate::text::push_str;
use vstd::prelude::*;

verus! {

/// Amount with only one commodity.
#[derive(Debug, PartialEq, Eq, Clone, Copy)]
pub struct SingleAmount {
    pub commodity: CommodityTag,
    pub value: Decimal,
}

/// Display precision of the commodity, if declared in the store.
pub open spec fn decimal_point(store: CommodityStore, c: CommodityTag) -> Option<nat> {
    match map_at(store@.formatting, c.0 as nat) {
        Some(p) => Some(p.value@.2),
        None => None,
    }
}

/// Value rounded to the commodity's precision, if declared.
pub open spec fn rounded_view(store: CommodityStore, c: CommodityTag, v: DecimalView) -> DecimalView {
    match decimal_point(store, c) {
        Some(dp) => decimal_round_half_even(v, (dp as u32) as nat),
        None => v,
    }
}

impl SingleAmount {
    /// Constructs an instance with single commodity.
    pub fn from_value(commodity: CommodityTag, value: Decimal) -> (r: Self)
        ensures
            r.commodity == commodity,
            r.value == value,
    {
        SingleAmount { commodity, value }
    }

    /// Negated amount.
    pub fn neg(self) -> (r: Self)
        ensures
            r.commodity == self.commodity,
            r.value@ == view_neg(self.value@),
    {
        SingleAmount { commodity: self.commodity, value: self.value.neg() }
    }

    /// Multiplies the value, or `None` on overflow.
    pub fn checked_mul(self, rhs: Decimal) -> (r: Option<Self>)
        ensures
            match decimal_checked_mul(self.value@, rhs@) {
                Some(v) => r matches Some(x) && x.commodity == self.commodity && x.value@ == v,
                None => r is None,
            },
    {
        match self.value.checked_mul(rhs) {
            Some(v) => Some(SingleAmount { commodity: self.commodity, value: v }),
            None => None,
        }
    }

    /// Adds the amount keeping the commodity single.
    pub fn check_add(self, rhs: Self) -> (r: Result<Self, EvalError>)
        ensures
            self.commodity != rhs.commodity ==> r == Err::<Self, EvalError>(
                EvalError::UnmatchingCommodities(self.commodity, rhs.commodity),
            ),
            self.commodity == rhs.commodity ==> match decimal_checked_add(self.value@, rhs.value@) {
                Some(v) => (r matches Ok(x) && x.commodity == self.commodity && x.value@ == v),
                None => r == Err::<Self, EvalError>(EvalError::NumberOverflow),
            },
    {
        if self.commodity != rhs.commodity {
            Err(EvalError::UnmatchingCommodities(self.commodity, rhs.commodity))
        } else {
            match self.value.checked_add(rhs.value) {
                Some(v) => Ok(SingleAmount { commodity: self.commodity, value: v }),
                None => Err(EvalError::NumberOverflow),
            }
        }
    }

    /// Subtracts the amount keeping the commodity single: `self + (-rhs)`.
    pub fn check_sub(self, rhs: Self) -> (r: Result<Self, EvalError>)
        ensures
            self.commodity != rhs.commodity ==> r == Err::<Self, EvalError>(
                EvalError::UnmatchingCommodities(self.commodity, rhs.commodity),
            ),
            self.commodity == rhs.commodity ==> match decimal_checked_add(
                self.value@,
                view_neg(rhs.value@),
            ) {
                Some(v) => (r matches Ok(x) && x.commodity == self.commodity && x.value@ == v),
                None => r == Err::<Self, EvalError>(EvalError::NumberOverflow),
            },
    {
        self.check_add(rhs.neg())
    }

    /// Divides by the given decimal.
    pub fn check_div(self, rhs: Decimal) -> (r: Result<Self, EvalError>)
        ensures
            rhs@.1 == 0 ==> r == Err::<Self, EvalError>(EvalError::DivideByZero),
            rhs@.1 != 0 ==> match decimal_checked_div(self.value@, rhs@) {
                Some(v) => (r matches Ok(x) && x.commodity == self.commodity && x.value@ == v),
                None => r == Err::<Self, EvalError>(EvalError::NumberOverflow),
            },
    {
        if rhs.is_zero() {
            return Err(EvalError::DivideByZero);
        }
        match self.value.checked_div(rhs) {
            Some(v) => Ok(SingleAmount { commodity: self.commodity, value: v }),
            None => Err(EvalError::NumberOverflow),
        }
    }

    /// Absolute value.
    pub fn abs(self) -> (r: Self)
        ensures
            r.commodity == self.commodity,
            r.value@ == (false, self.value@.1, self.value@.2),
    {
        SingleAmount { commodity: self.commodity, value: self.value.abs() }
    }

    /// Rounds to the precision the context declares for the commodity.
    pub fn round(self, ctx: &ReportContext) -> (r: Self)
        ensures
            r.commodity == self.commodity,
            decimal_point(ctx.commodities, self.commodity) is None ==> r == self,
            r.value@ == rounded_view(ctx.commodities, self.commodity, self.value@),
    {
        match ctx.commodities.get_decimal_point(self.commodity) {
            None => self,
            Some(dp) => SingleAmount {
                commodity: self.commodity,
                value: self.value.round_half_even(dp),
            },
        }
    }

    /// Same amount with the sign of `sign`.
    pub fn with_sign_of(self, sign: Self) -> (r: Self)
        ensures
            r.commodity == self.commodity,
            r.value@ == (sign.value@.0, self.value@.1, self.value@.2),
    {
        let mut v = self.value;
        v.set_sign_positive(sign.value.is_sign_positive());
        SingleAmount { commodity: self.commodity, value: v }
    }

    /// Text of the amount: the value, a space and the commodity name.
    pub fn to_string(&self, ctx: &ReportContext) -> (r: String)
        ensures
            r@ == decimal_display(self.value@) + " "@ + ctx.commodities@.lossy_name(
                self.commodity.0 as nat,
            ),
    {
        let mut s = self.value.to_string();
        push_str(&mut s, " ");
        let name = self.commodity.to_str_lossy(&ctx.commodities);
        push_str(&mut s, name.as_str());
        s
    }
}

/// Amount with only one commodity, or total zero.
#[derive(Debug, PartialEq, Eq, Clone, Copy)]
pub enum PostingAmount {
    /// Zero without commodity.
    Zero,
    /// Amount of one commodity.
    Single(SingleAmount),
}

impl PostingAmount {
    /// Returns the absolute zero.
    pub fn zero() -> (r: Self)
        ensures
            r == PostingAmount::Zero,
    {
        PostingAmount::Zero
    }

    /// Constructs an instance with single commodity.
    pub fn from_value(commodity: CommodityTag, value: Decimal) -> (r: Self)
        ensures
            r == PostingAmount::Single(SingleAmount { commodity, value }),
    {
        PostingAmount::Single(SingleAmount { commodity, value })
    }

    /// Negated amount.
    pub fn neg(self) -> (r: Self)
        ensures
            self is Zero ==> r is Zero,
            self matches PostingAmount::Single(a) ==> (r matches PostingAmount::Single(b)
                && b.commodity == a.commodity && b.value@ == view_neg(a.value@)),
    {
        match self {
            PostingAmount::Zero => PostingAmount::Zero,
            PostingAmount::Single(amount) => PostingAmount::Single(amount.neg()),
        }
    }

    /// Adds the amount keeping the commodity single; zero is the identity.
    pub fn check_add(self, rhs: Self) -> (r: Result<Self, EvalError>)
        ensures
            self is Zero ==> r == Ok::<Self, EvalError>(rhs),
            !(self is Zero) && rhs is Zero ==> r == Ok::<Self, EvalError>(self),
            self matches PostingAmount::Single(a) ==> rhs matches PostingAmount::Single(b) ==> (
            a.commodity != b.commodity ==> r == Err::<Self, EvalError>(
                EvalError::UnmatchingCommodities(a.commodity, b.commodity),
            )) && (a.commodity == b.commodity ==> match decimal_checked_add(a.value@, b.value@) {
                Some(v) => (r matches Ok(PostingAmount::Single(x)) && x.commodity == a.commodity
                    && x.value@ == v),
                None => r == Err::<Self, EvalError>(EvalError::NumberOverflow),
            }),
    {
        match (self, rhs) {
            (PostingAmount::Zero, _) => Ok(rhs),
            (_, PostingAmount::Zero) => Ok(self),
            (PostingAmount::Single(lhs), PostingAmount::Single(rhs)) => match lhs.check_add(rhs) {
                Ok(x) => Ok(PostingAmount::Single(x)),
                Err(e) => Err(e),
            },
        }
    }

    /// Subtracts the amount keeping the commodity single: `self + (-rhs)`.
    pub fn check_sub(self, rhs: Self) -> (r: Result<Self, EvalError>)
        ensures
            rhs is Zero ==> r == Ok::<Self, EvalError>(self),
            self is Zero ==> (rhs matches PostingAmount::Single(b) ==> (r matches Ok(
                PostingAmount::Single(x),
            ) && x.commodity == b.commodity && x.value@ == view_neg(b.value@))),
            self matches PostingAmount::Single(a) ==> rhs matches PostingAmount::Single(b) ==> (
            a.commodity != b.commodity ==> r == Err::<Self, EvalError>(
                EvalError::UnmatchingCommodities(a.commodity, b.commodity),
            )) && (a.commodity == b.commodity ==> match decimal_checked_add(
                a.value@,
                view_neg(b.value@),
            ) {
                Some(v) => (r matches Ok(PostingAmount::Single(x)) && x.commodity == a.commodity
                    && x.value@ == v),
                None => r == Err::<Self, EvalError>(EvalError::NumberOverflow),
            }),
    {
        self.check_add(rhs.neg())
    }

    /// The single amount, or [`EvalError::SingleAmountRequired`] for zero.
    pub fn to_single(self) -> (r: Result<SingleAmount, EvalError>)
        ensures
            match self {
                PostingAmount::Zero => r == Err::<SingleAmount, EvalError>(
                    EvalError::SingleAmountRequired,
                ),
                PostingAmount::Single(a) => r == Ok::<SingleAmount, EvalError>(a),
            },
    {
        match self {
            PostingAmount::Single(single) => Ok(single),
            PostingAmount::Zero => Err(EvalError::SingleAmountRequired),
        }
    }

    /// Text of the amount: `0` for zero.
    pub fn to_string(&self, ctx: &ReportContext) -> (r: String)
        ensures
            self is Zero ==> r@ == "0"@,
            self matches PostingAmount::Single(a) ==> r@ == decimal_display(a.value@) + " "@
                + ctx.commodities@.lossy_name(a.commodity.0 as nat),
    {
        match self {
            PostingAmount::Zero => {
                proof {
                    reveal_strlit("0");
                }
                let mut s = String::new();
                push_str(&mut s, "0");
                s
            },
            PostingAmount::Single(single) => single.to_string(ctx),
        }
    }
}

} // verus!
