//! Evaluation of value expressions into amounts.
pub mod error;
pub mod single_amount;
pub mod amount;
pub mod evaluated;

use crate::commodity::CommodityStoreView;
use crate::context::ReportContext;
use crate::eval::amount::Amount;
use crate::eval::error::{EvalError, EvalErrorView};
use crate::eval::amount::single_view;
use crate::eval::evaluated::{
    EvalResultView, Evaluated, EvaluatedView, ev_add, ev_div, ev_mul, ev_neg, ev_sub, result_view,
};
use crate::intern::InternView;
use crate::syntax::expr::{self, BinaryOp, Expr, UnaryOp, ValueExpr};
use vstd::prelude::*;

verus! {

/// Value of an expression amount; its commodity, if any, must be registered in `store`.
pub open spec fn eval_amount_spec(store: CommodityStoreView, a: expr::Amount) -> EvalResultView {
    if a.commodity@.len() == 0 {
        Ok(EvaluatedView::Number(a.value.value@))
    } else {
        match store.intern.resolve(a.commodity@) {
            Some(c) => Ok(EvaluatedView::Commodities(single_view(c, a.value.value@))),
            None => Err(EvalErrorView::UnknownCommodity(a.commodity@)),
        }
    }
}

/// Applies the binary operator.
pub open spec fn apply_binary(op: BinaryOp, l: EvaluatedView, r: EvaluatedView) -> EvalResultView {
    match op {
        BinaryOp::Add => ev_add(l, r),
        BinaryOp::Sub => ev_sub(l, r),
        BinaryOp::Mul => ev_mul(l, r),
        BinaryOp::Div => ev_div(l, r),
    }
}

/// Value of the expression, evaluated left to right; the first error wins.
pub open spec fn eval_expr(store: CommodityStoreView, e: Expr) -> EvalResultView
    decreases e,
{
    match e {
        Expr::Unary(u) => match eval_expr(store, *u.expr) {
            Ok(v) => Ok(ev_neg(v)),
            Err(x) => Err(x),
        },
        Expr::Binary(b) => match eval_expr(store, *b.lhs) {
            Err(x) => Err(x),
            Ok(l) => match eval_expr(store, *b.rhs) {
                Err(x) => Err(x),
                Ok(r) => apply_binary(b.op, l, r),
            },
        },
        Expr::Value(v) => match *v {
            ValueExpr::Paren(x) => eval_expr(store, x),
            ValueExpr::Amount(a) => eval_amount_spec(store, a),
        },
    }
}

/// Every commodity named in the expression is registered in `store`.
pub open spec fn names_resolve(store: InternView, e: Expr) -> bool
    decreases e,
{
    match e {
        Expr::Unary(u) => names_resolve(store, *u.expr),
        Expr::Binary(b) => names_resolve(store, *b.lhs) && names_resolve(store, *b.rhs),
        Expr::Value(v) => match *v {
            ValueExpr::Paren(x) => names_resolve(store, x),
            ValueExpr::Amount(a) => a.commodity@.len() != 0 ==> store.resolve(a.commodity@) is Some,
        },
    }
}

/// An expression whose commodities are registered evaluates the same in an extended store.
pub proof fn lemma_eval_extended(s1: CommodityStoreView, s2: CommodityStoreView, e: Expr)
    requires
        s1.intern.extended_by(s2.intern),
        names_resolve(s1.intern, e),
    ensures
        eval_expr(s1, e) == eval_expr(s2, e),
        names_resolve(s2.intern, e),
    decreases e,
{
    match e {
        Expr::Unary(u) => {
            lemma_eval_extended(s1, s2, *u.expr);
        },
        Expr::Binary(b) => {
            lemma_eval_extended(s1, s2, *b.lhs);
            lemma_eval_extended(s1, s2, *b.rhs);
        },
        Expr::Value(v) => match *v {
            ValueExpr::Paren(x) => {
                lemma_eval_extended(s1, s2, x);
            },
            ValueExpr::Amount(a) => {
                if a.commodity@.len() != 0 {
                    assert(s2.intern.resolve(a.commodity@) == s1.intern.resolve(a.commodity@));
                }
            },
        },
    }
}

/// Evaluates the expression, resolving commodities in the context.
pub fn eval(e: &Expr, ctx: &ReportContext) -> (r: Result<Evaluated, EvalError>)
    ensures
        result_view(r) == eval_expr(ctx.commodities@, *e),
    decreases e,
{
    match e {
        Expr::Unary(u) => match u.op {
            UnaryOp::Negate => match eval(&u.expr, ctx) {
                Ok(v) => Ok(v.negate()),
                Err(x) => Err(x),
            },
        },
        Expr::Binary(b) => {
            let lhs = match eval(&b.lhs, ctx) {
                Ok(v) => v,
                Err(x) => {
                    return Err(x);
                },
            };
            let rhs = match eval(&b.rhs, ctx) {
                Ok(v) => v,
                Err(x) => {
                    return Err(x);
                },
            };
            match b.op {
                BinaryOp::Add => lhs.check_add(rhs),
                BinaryOp::Sub => lhs.check_sub(rhs),
                BinaryOp::Mul => lhs.check_mul(rhs),
                BinaryOp::Div => lhs.check_div(rhs),
            }
        },
        Expr::Value(v) => match &**v {
            ValueExpr::Paren(x) => eval(x, ctx),
            ValueExpr::Amount(a) => Evaluated::from_expr_amount(ctx, a),
        },
    }
}

/// The value of an expression amount, registering its commodity in the context when new.
fn eval_amount_mut(ctx: &mut ReportContext, amount: &expr::Amount) -> (r: Evaluated)
    ensures
        Ok::<EvaluatedView, EvalErrorView>(r@) == eval_amount_spec(
            final(ctx).commodities@,
            *amount,
        ),
        amount.commodity@.len() != 0 ==> final(ctx).commodities@.intern.resolve(
            amount.commodity@,
        ) is Some,
        old(ctx).commodities@.intern.extended_by(final(ctx).commodities@.intern),
        final(ctx).commodities@.formatting == old(ctx).commodities@.formatting,
        final(ctx).accounts@ == old(ctx).accounts@,
{
    if amount.commodity.as_str().is_empty() {
        return Evaluated::Number(amount.value.value);
    }
    let c = ctx.commodities.ensure(amount.commodity.as_str());
    let a = Amount::from_value(c, amount.value.value);
    proof {
        assert forall|k: int| 0 <= k < a@.len() implies a@[k] == single_view(
            c.0 as nat,
            amount.value.value@,
        )[k] by {
            assert(crate::eval::amount::amt_get(a@, k as nat) == a@[k]);
        }
        assert(a@ =~= single_view(c.0 as nat, amount.value.value@));
    }
    Evaluated::Commodities(a)
}

/// Evaluates the expression, registering the commodities it names.
pub fn eval_mut(e: &Expr, ctx: &mut ReportContext) -> (r: Result<Evaluated, EvalError>)
    ensures
        result_view(r) == eval_expr(final(ctx).commodities@, *e),
        r is Ok ==> names_resolve(final(ctx).commodities@.intern, *e),
        old(ctx).commodities@.intern.extended_by(final(ctx).commodities@.intern),
        final(ctx).commodities@.formatting == old(ctx).commodities@.formatting,
        final(ctx).accounts@ == old(ctx).accounts@,
    decreases e,
{
    match e {
        Expr::Unary(u) => match u.op {
            UnaryOp::Negate => match eval_mut(&u.expr, ctx) {
                Ok(v) => Ok(v.negate()),
                Err(x) => Err(x),
            },
        },
        Expr::Binary(b) => {
            let ghost s0 = ctx.commodities@;
            let lhs = match eval_mut(&b.lhs, ctx) {
                Ok(v) => v,
                Err(x) => {
                    return Err(x);
                },
            };
            let ghost s1 = ctx.commodities@;
            let rhs = match eval_mut(&b.rhs, ctx) {
                Ok(v) => v,
                Err(x) => {
                    proof {
                        lemma_eval_extended(s1, ctx.commodities@, *b.lhs);
                    }
                    return Err(x);
                },
            };
            proof {
                lemma_eval_extended(s1, ctx.commodities@, *b.lhs);
            }
            match b.op {
                BinaryOp::Add => lhs.check_add(rhs),
                BinaryOp::Sub => lhs.check_sub(rhs),
                BinaryOp::Mul => lhs.check_mul(rhs),
                BinaryOp::Div => lhs.check_div(rhs),
            }
        },
        Expr::Value(v) => match &**v {
            ValueExpr::Paren(x) => eval_mut(x, ctx),
            ValueExpr::Amount(a) => Ok(eval_amount_mut(ctx, a)),
        },
    }
}

/// Registers the commodities the expression names, in the order `eval_mut` meets them.
pub fn register_commodities(e: &Expr, ctx: &mut ReportContext)
    ensures
        names_resolve(final(ctx).commodities@.intern, *e),
        old(ctx).commodities@.intern.extended_by(final(ctx).commodities@.intern),
        final(ctx).commodities@.formatting == old(ctx).commodities@.formatting,
        final(ctx).accounts@ == old(ctx).accounts@,
    decreases e,
{
    match e {
        Expr::Unary(u) => register_commodities(&u.expr, ctx),
        Expr::Binary(b) => {
            let ghost s0 = ctx.commodities@;
            register_commodities(&b.lhs, ctx);
            let ghost s1 = ctx.commodities@;
            register_commodities(&b.rhs, ctx);
            proof {
                lemma_eval_extended(s1, ctx.commodities@, *b.lhs);
            }
        },
        Expr::Value(v) => match &**v {
            ValueExpr::Paren(x) => register_commodities(x, ctx),
            ValueExpr::Amount(a) => {
                if !a.commodity.as_str().is_empty() {
                    ctx.commodities.ensure(a.commodity.as_str());
                }
            },
        },
    }
}

} // verus!
