//! Errors of expression evaluation.
use crate::commodity::{CommodityStore, CommodityTag, OwnedCommodity};
use crate::context::ReportContext;
use vstd::prelude::*;

verus! {

/// Errors specific to expression evaluation.
#[derive(Debug, PartialEq, Eq, Clone)]
pub enum EvalError {
    /// The operator can't be applied to unmatching types.
    UnmatchingOperation,
    /// Unmatching commodities.
    UnmatchingCommodities(CommodityTag, CommodityTag),
    /// Unknown commodity.
    UnknownCommodity(OwnedCommodity),
    /// Cannot divide by zero.
    DivideByZero,
    /// Overflow happened.
    NumberOverflow,
    /// Expected 0 or an amount with commodities.
    AmountRequired,
    /// Expected 0 or an amount with the single commodity.
    PostingAmountRequired,
    /// Expected an amount with the single commodity.
    SingleAmountRequired,
}

/// Abstract view of an [`EvalError`], with the unknown commodity as text.
pub enum EvalErrorView {
    UnmatchingOperation,
    UnmatchingCommodities(nat, nat),
    UnknownCommodity(Seq<char>),
    DivideByZero,
    NumberOverflow,
    AmountRequired,
    PostingAmountRequired,
    SingleAmountRequired,
}

impl View for EvalError {
    type V = EvalErrorView;

    open spec fn view(&self) -> EvalErrorView {
        match self {
            EvalError::UnmatchingOperation => EvalErrorView::UnmatchingOperation,
            EvalError::UnmatchingCommodities(a, b) => EvalErrorView::UnmatchingCommodities(
                a.0 as nat,
                b.0 as nat,
            ),
            EvalError::UnknownCommodity(c) => EvalErrorView::UnknownCommodity(c.text()),
            EvalError::DivideByZero => EvalErrorView::DivideByZero,
            EvalError::NumberOverflow => EvalErrorView::NumberOverflow,
            EvalError::AmountRequired => EvalErrorView::AmountRequired,
            EvalError::PostingAmountRequired => EvalErrorView::PostingAmountRequired,
            EvalError::SingleAmountRequired => EvalErrorView::SingleAmountRequired,
        }
    }
}

/// Owned version of [`EvalError`], with the commodity names instead of the tags.
#[derive(Debug, PartialEq, Eq, Clone)]
pub enum OwnedEvalError {
    /// The operator can't be applied to unmatching types.
    UnmatchingOperation,
    /// Unmatching commodities.
    UnmatchingCommodities(OwnedCommodity, OwnedCommodity),
    /// Unknown commodity.
    UnknownCommodity(OwnedCommodity),
    /// Cannot divide by zero.
    DivideByZero,
    /// Overflow happened.
    NumberOverflow,
    /// Expected 0 or an amount with commodities.
    AmountRequired,
    /// Expected 0 or an amount with the single commodity.
    PostingAmountRequired,
    /// Expected an amount with the single commodity.
    SingleAmountRequired,
}

/// The owned error corresponds to the error, naming the commodities through the store.
pub open spec fn owned_matches(e: EvalError, o: OwnedEvalError, store: CommodityStore) -> bool {
    match (e, o) {
        (EvalError::UnmatchingOperation, OwnedEvalError::UnmatchingOperation) => true,
        (EvalError::UnmatchingCommodities(c1, c2), OwnedEvalError::UnmatchingCommodities(o1, o2)) => {
            o1.text() == store@.lossy_name(c1.0 as nat) && o2.text() == store@.lossy_name(
                c2.0 as nat,
            )
        },
        (EvalError::UnknownCommodity(c1), OwnedEvalError::UnknownCommodity(o1)) => c1 == o1,
        (EvalError::DivideByZero, OwnedEvalError::DivideByZero) => true,
        (EvalError::NumberOverflow, OwnedEvalError::NumberOverflow) => true,
        (EvalError::AmountRequired, OwnedEvalError::AmountRequired) => true,
        (EvalError::PostingAmountRequired, OwnedEvalError::PostingAmountRequired) => true,
        (EvalError::SingleAmountRequired, OwnedEvalError::SingleAmountRequired) => true,
        _ => false,
    }
}

impl EvalError {
    /// Converts into [`OwnedEvalError`], naming the commodities through the context.
    pub fn into_owned(self, ctx: &ReportContext) -> (r: OwnedEvalError)
        ensures
            owned_matches(self, r, ctx.commodities),
    {
        match self {
            EvalError::UnmatchingOperation => OwnedEvalError::UnmatchingOperation,
            EvalError::UnmatchingCommodities(c1, c2) => OwnedEvalError::UnmatchingCommodities(
                c1.to_owned_lossy(&ctx.commodities),
                c2.to_owned_lossy(&ctx.commodities),
            ),
            EvalError::UnknownCommodity(c1) => OwnedEvalError::UnknownCommodity(c1),
            EvalError::DivideByZero => OwnedEvalError::DivideByZero,
            EvalError::NumberOverflow => OwnedEvalError::NumberOverflow,
            EvalError::AmountRequired => OwnedEvalError::AmountRequired,
            EvalError::PostingAmountRequired => OwnedEvalError::PostingAmountRequired,
            EvalError::SingleAmountRequired => OwnedEvalError::SingleAmountRequired,
        }
    }
}

} // verus!
