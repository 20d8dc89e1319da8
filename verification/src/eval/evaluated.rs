//! Result of evaluating an expression: a number or an amount.
use crate::commodity::OwnedCommodity;
use crate::context::ReportContext;
use crate::decimal::{
    Decimal, DecimalView, decimal_checked_add, decimal_checked_div, decimal_checked_mul,
    decimal_checked_sub, decimal_display, view_neg,
};
use crate::eval::amount::{
    Amount, AmountView, amount_add, amount_div, amount_is_zero, amount_mul, amount_neg,
    amount_sub, amt_get, entries, inline_text, single_view,
};
use crate::eval::error::{EvalError, EvalErrorView};
use crate::eval::single_amount::{PostingAmount, SingleAmount};
use crate::syntax::expr;
use vstd::prelude::*;

verus! {

/// Abstract view of an [`Evaluated`].
pub enum EvaluatedView {
    Number(DecimalView),
    Commodities(AmountView),
}

/// Result of an evaluation, or its error, as views.
pub type EvalResultView = Result<EvaluatedView, EvalErrorView>;

/// The value is zero (a number, or an amount whose values are all zero).
pub open spec fn ev_is_zero(v: EvaluatedView) -> bool {
    match v {
        EvaluatedView::Number(x) => x.1 == 0,
        EvaluatedView::Commodities(a) => amount_is_zero(a),
    }
}

/// Negation.
pub open spec fn ev_neg(v: EvaluatedView) -> EvaluatedView {
    match v {
        EvaluatedView::Number(x) => EvaluatedView::Number(view_neg(x)),
        EvaluatedView::Commodities(a) => EvaluatedView::Commodities(amount_neg(a)),
    }
}

/// A number result, or the overflow.
pub open spec fn number_or_overflow(x: Option<DecimalView>) -> EvalResultView {
    match x {
        Some(v) => Ok(EvaluatedView::Number(v)),
        None => Err(EvalErrorView::NumberOverflow),
    }
}

/// An amount result, or the overflow.
pub open spec fn amount_or_overflow(x: Option<AmountView>) -> EvalResultView {
    match x {
        Some(v) => Ok(EvaluatedView::Commodities(v)),
        None => Err(EvalErrorView::NumberOverflow),
    }
}

/// `l + r`: numbers with numbers, amounts with amounts.
pub open spec fn ev_add(l: EvaluatedView, r: EvaluatedView) -> EvalResultView {
    match (l, r) {
        (EvaluatedView::Number(x), EvaluatedView::Number(y)) => number_or_overflow(
            decimal_checked_add(x, y),
        ),
        (EvaluatedView::Commodities(x), EvaluatedView::Commodities(y)) => amount_or_overflow(
            amount_add(x, y),
        ),
        _ => Err(EvalErrorView::UnmatchingOperation),
    }
}

/// `l - r`: numbers with numbers, amounts with amounts.
pub open spec fn ev_sub(l: EvaluatedView, r: EvaluatedView) -> EvalResultView {
    match (l, r) {
        (EvaluatedView::Number(x), EvaluatedView::Number(y)) => number_or_overflow(
            decimal_checked_sub(x, y),
        ),
        (EvaluatedView::Commodities(x), EvaluatedView::Commodities(y)) => amount_or_overflow(
            amount_sub(x, y),
        ),
        _ => Err(EvalErrorView::UnmatchingOperation),
    }
}

/// `l * r`: at least one side must be a number.
pub open spec fn ev_mul(l: EvaluatedView, r: EvaluatedView) -> EvalResultView {
    match (l, r) {
        (EvaluatedView::Number(x), EvaluatedView::Number(y)) => number_or_overflow(
            decimal_checked_mul(x, y),
        ),
        (EvaluatedView::Commodities(x), EvaluatedView::Number(y)) => amount_or_overflow(
            amount_mul(x, y),
        ),
        (EvaluatedView::Number(x), EvaluatedView::Commodities(y)) => amount_or_overflow(
            amount_mul(y, x),
        ),
        _ => Err(EvalErrorView::UnmatchingOperation),
    }
}

/// `l / r`: a zero divisor fails first; a number divided by an amount takes the amount's first
/// commodity.
pub open spec fn ev_div(l: EvaluatedView, r: EvaluatedView) -> EvalResultView {
    if ev_is_zero(r) {
        Err(EvalErrorView::DivideByZero)
    } else {
        match (l, r) {
            (EvaluatedView::Number(x), EvaluatedView::Number(y)) => number_or_overflow(
                decimal_checked_div(x, y),
            ),
            (EvaluatedView::Commodities(x), EvaluatedView::Number(y)) => amount_or_overflow(
                amount_div(x, y),
            ),
            (EvaluatedView::Number(x), EvaluatedView::Commodities(y)) => {
                if entries(y).len() == 0 {
                    Err(EvalErrorView::SingleAmountRequired)
                } else {
                    let e = entries(y)[0];
                    if e.1.1 == 0 {
                        Err(EvalErrorView::DivideByZero)
                    } else {
                        match decimal_checked_div(x, e.1) {
                            Some(v) => Ok(EvaluatedView::Commodities(single_view(e.0, v))),
                            None => Err(EvalErrorView::NumberOverflow),
                        }
                    }
                }
            },
            _ => Err(EvalErrorView::UnmatchingOperation),
        }
    }
}

/// View of an evaluation result.
pub open spec fn result_view(r: Result<Evaluated, EvalError>) -> EvalResultView {
    match r {
        Ok(v) => Ok(v@),
        Err(e) => Err(e@),
    }
}

/// Evaluated value of an expression.
#[derive(Debug, PartialEq, Eq)]
pub enum Evaluated {
    Number(Decimal),
    Commodities(Amount),
}

impl View for Evaluated {
    type V = EvaluatedView;

    open spec fn view(&self) -> EvaluatedView {
        match self {
            Evaluated::Number(x) => EvaluatedView::Number(x@),
            Evaluated::Commodities(a) => EvaluatedView::Commodities(a@),
        }
    }
}

/// The amount of a single commodity is `single_view`.
proof fn lemma_single(a: AmountView, c: nat, v: DecimalView)
    requires
        amt_get(a, c) == Some(v),
        forall|k: nat| k != c ==> #[trigger] amt_get(a, k) is None,
        a.len() == c + 1,
    ensures
        a == single_view(c, v),
{
    assert forall|k: int| 0 <= k < a.len() implies a[k] == single_view(c, v)[k] by {
        assert(amt_get(a, k as nat) == a[k]);
    }
    assert(a =~= single_view(c, v));
}

impl Evaluated {
    /// The amount of an expression amount, resolving its commodity in the context.
    pub fn from_expr_amount(ctx: &ReportContext, amount: &expr::Amount) -> (r: Result<
        Evaluated,
        EvalError,
    >)
        ensures
            amount.commodity@.len() == 0 ==> result_view(r) == Ok::<EvaluatedView, EvalErrorView>(
                EvaluatedView::Number(amount.value.value@),
            ),
            amount.commodity@.len() != 0 ==> result_view(r) == match ctx.commodities@.intern.resolve(
                amount.commodity@,
            ) {
                Some(c) => Ok::<EvaluatedView, EvalErrorView>(
                    EvaluatedView::Commodities(single_view(c, amount.value.value@)),
                ),
                None => Err(EvalErrorView::UnknownCommodity(amount.commodity@)),
            },
    {
        if amount.commodity.as_str().is_empty() {
            return Ok(Evaluated::Number(amount.value.value));
        }
        match ctx.commodities.resolve(amount.commodity.as_str()) {
            Some(c) => {
                let a = Amount::from_value(c, amount.value.value);
                proof {
                    lemma_single(a@, c.0 as nat, amount.value.value@);
                }
                Ok(Evaluated::Commodities(a))
            },
            None => Err(
                EvalError::UnknownCommodity(OwnedCommodity::from_string(amount.commodity.clone())),
            ),
        }
    }

    /// Returns `true` if the value is zero.
    pub fn is_zero(&self) -> (r: bool)
        ensures
            r == ev_is_zero(self@),
    {
        match self {
            Evaluated::Number(x) => x.is_zero(),
            Evaluated::Commodities(y) => y.is_zero(),
        }
    }

    /// Negated value.
    pub fn negate(self) -> (r: Self)
        ensures
            r@ == ev_neg(self@),
    {
        match self {
            Evaluated::Number(x) => Evaluated::Number(x.neg()),
            Evaluated::Commodities(x) => Evaluated::Commodities(x.negate()),
        }
    }

    /// Addition.
    pub fn check_add(self, rhs: Self) -> (r: Result<Self, EvalError>)
        ensures
            result_view(r) == ev_add(self@, rhs@),
    {
        match (self, rhs) {
            (Evaluated::Number(l), Evaluated::Number(r)) => match l.checked_add(r) {
                Some(v) => Ok(Evaluated::Number(v)),
                None => Err(EvalError::NumberOverflow),
            },
            (Evaluated::Commodities(l), Evaluated::Commodities(r)) => match l.check_add(r) {
                Ok(v) => Ok(Evaluated::Commodities(v)),
                Err(e) => Err(e),
            },
            _ => Err(EvalError::UnmatchingOperation),
        }
    }

    /// Subtraction.
    pub fn check_sub(self, rhs: Self) -> (r: Result<Self, EvalError>)
        ensures
            result_view(r) == ev_sub(self@, rhs@),
    {
        match (self, rhs) {
            (Evaluated::Number(l), Evaluated::Number(r)) => match l.checked_sub(r) {
                Some(v) => Ok(Evaluated::Number(v)),
                None => Err(EvalError::NumberOverflow),
            },
            (Evaluated::Commodities(l), Evaluated::Commodities(r)) => match l.check_sub(r) {
                Ok(v) => Ok(Evaluated::Commodities(v)),
                Err(e) => Err(e),
            },
            _ => Err(EvalError::UnmatchingOperation),
        }
    }

    /// Multiplication.
    pub fn check_mul(self, rhs: Self) -> (r: Result<Self, EvalError>)
        ensures
            result_view(r) == ev_mul(self@, rhs@),
    {
        match (self, rhs) {
            (Evaluated::Number(x), Evaluated::Number(y)) => match x.checked_mul(y) {
                Some(v) => Ok(Evaluated::Number(v)),
                None => Err(EvalError::NumberOverflow),
            },
            (Evaluated::Commodities(x), Evaluated::Number(y)) => match x.check_mul(y) {
                Ok(v) => Ok(Evaluated::Commodities(v)),
                Err(e) => Err(e),
            },
            (Evaluated::Number(x), Evaluated::Commodities(y)) => match y.check_mul(x) {
                Ok(v) => Ok(Evaluated::Commodities(v)),
                Err(e) => Err(e),
            },
            _ => Err(EvalError::UnmatchingOperation),
        }
    }

    /// Division.
    pub fn check_div(self, rhs: Self) -> (r: Result<Self, EvalError>)
        ensures
            result_view(r) == ev_div(self@, rhs@),
    {
        if rhs.is_zero() {
            return Err(EvalError::DivideByZero);
        }
        match (self, rhs) {
            (Evaluated::Number(x), Evaluated::Number(y)) => match x.checked_div(y) {
                Some(v) => Ok(Evaluated::Number(v)),
                None => Err(EvalError::NumberOverflow),
            },
            (Evaluated::Commodities(x), Evaluated::Number(y)) => match x.check_div(y) {
                Ok(v) => Ok(Evaluated::Commodities(v)),
                Err(e) => Err(e),
            },
            (Evaluated::Number(x), Evaluated::Commodities(y)) => {
                let y = match y.to_single() {
                    Ok(s) => s,
                    Err(e) => {
                        return Err(e);
                    },
                };
                match SingleAmount::from_value(y.commodity, x).check_div(y.value) {
                    Ok(ret) => {
                        let a = Amount::from_single(ret);
                        proof {
                            lemma_single(a@, ret.commodity.0 as nat, ret.value@);
                        }
                        Ok(Evaluated::Commodities(a))
                    },
                    Err(e) => Err(e),
                }
            },
            _ => Err(EvalError::UnmatchingOperation),
        }
    }

    /// The amount: itself, the zero without commodity for the number zero, or
    /// [`EvalError::AmountRequired`] for another number.
    pub fn into_amount(self) -> (r: Result<Amount, EvalError>)
        ensures
            match self@ {
                EvaluatedView::Commodities(a) => r matches Ok(x) && x@ == a,
                EvaluatedView::Number(x) => if x.1 == 0 {
                    r matches Ok(y) && y@.len() == 0
                } else {
                    r == Err::<Amount, EvalError>(EvalError::AmountRequired)
                },
            },
    {
        match self {
            Evaluated::Commodities(x) => Ok(x),
            Evaluated::Number(x) => {
                if x.is_zero() {
                    Ok(Amount::zero())
                } else {
                    Err(EvalError::AmountRequired)
                }
            },
        }
    }

    /// The single amount of the value, see [`Evaluated::into_amount`] and [`Amount::to_single`].
    pub fn into_single(self) -> (r: Result<SingleAmount, EvalError>)
        ensures
            match self@ {
                EvaluatedView::Number(x) => if x.1 == 0 {
                    r == Err::<SingleAmount, EvalError>(EvalError::SingleAmountRequired)
                } else {
                    r == Err::<SingleAmount, EvalError>(EvalError::AmountRequired)
                },
                EvaluatedView::Commodities(a) => if entries(a).len() == 0 {
                    r == Err::<SingleAmount, EvalError>(EvalError::SingleAmountRequired)
                } else {
                    r matches Ok(s) && s.commodity.0 == entries(a)[0].0 && s.value@ == entries(a)[0].1
                },
            },
    {
        match self.into_amount() {
            Ok(a) => {
                proof {
                    if a@.len() == 0 {
                        assert(entries(a@).len() == 0);
                    }
                }
                a.to_single()
            },
            Err(e) => Err(e),
        }
    }

    /// The posting amount of the value, see [`Evaluated::into_amount`] and [`Amount::to_posting`].
    pub fn into_posting(self) -> (r: Result<PostingAmount, EvalError>)
        ensures
            match self@ {
                EvaluatedView::Number(x) => if x.1 == 0 {
                    r == Ok::<PostingAmount, EvalError>(PostingAmount::Zero)
                } else {
                    r == Err::<PostingAmount, EvalError>(EvalError::AmountRequired)
                },
                EvaluatedView::Commodities(a) => if entries(a).len() > 1 {
                    r == Err::<PostingAmount, EvalError>(EvalError::PostingAmountRequired)
                } else if entries(a).len() == 0 {
                    r == Ok::<PostingAmount, EvalError>(PostingAmount::Zero)
                } else {
                    r matches Ok(PostingAmount::Single(s)) && s.commodity.0 == entries(a)[0].0
                        && s.value@ == entries(a)[0].1
                },
            },
    {
        match self.into_amount() {
            Ok(a) => {
                proof {
                    if a@.len() == 0 {
                        assert(entries(a@).len() == 0);
                    }
                }
                a.to_posting()
            },
            Err(e) => Err(e),
        }
    }

    /// Text of the value: the number, or the inline text of the amount.
    pub fn to_string(&self, ctx: &ReportContext) -> (r: String)
        ensures
            match self@ {
                EvaluatedView::Number(x) => r@ == decimal_display(x),
                EvaluatedView::Commodities(a) => r@ == inline_text(ctx.commodities, a),
            },
    {
        match self {
            Evaluated::Number(x) => x.to_string(),
            Evaluated::Commodities(a) => a.to_inline_string(ctx),
        }
    }
}

} // verus!
