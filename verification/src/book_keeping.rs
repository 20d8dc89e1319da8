//! Book keeping: turns the parsed transactions into evaluated ones, keeping the balance.
use crate::account::Account;
use crate::balance::{Balance, BalanceError, BalanceView, bal_get, bal_get_or_zero, others_unchanged};
use crate::commodity::{CommodityStore, CommodityStoreView};
use crate::context::ReportContext;
use crate::eval::amount::{
    Amount, AmountView, amount_add, amount_is_zero, amount_neg, amount_round, entries, inline_text,
    amt_get, lemma_add_entry_single, lemma_add_zero, part_of, posting_view, single_view,
};
use crate::eval::error::EvalError;
use crate::eval::evaluated::{EvaluatedView, result_view};
use crate::eval::single_amount::{PostingAmount, SingleAmount};
use crate::eval::{eval, eval_expr, lemma_eval_extended, names_resolve};
use crate::intern::{InternError, InternView};
use crate::price_db::PriceEvent;
use crate::date::Date;
use crate::query::{bal_add, bal_fold};
use crate::decimal::{Decimal, view_neg};
use crate::syntax;
use crate::syntax::expr::Expr;
use crate::syntax::span::{TrackedSpan, TrackedValue};
use crate::transaction::{Posting, Transaction};
use vstd::prelude::*;

verus! {

/// Error of the book keeping.
#[derive(Debug, PartialEq, Eq)]
pub enum BookKeepError {
    /// Failed to evaluate an expression.
    EvalFailure(EvalError),
    /// Failed to meet a balance condition.
    BalanceFailure(BalanceError),
    /// The posting amount must be a simple value with commodity, or zero.
    ComplexPostingAmount,
    /// Two postings without amount nor balance: the indices of the first and the second one.
    UndeduciblePostingAmount(TrackedValue<usize>, TrackedValue<usize>),
    /// The postings don't balance: the remaining amount.
    UnbalancedPostings(String),
    /// Balance assertion failed: the actual and the expected balance.
    BalanceAssertionFailure(String, String),
    /// Failed to register an account.
    InvalidAccount(InternError),
    /// Failed to register a commodity.
    InvalidCommodity(InternError),
    /// A posting without commodity has an exchange.
    ZeroAmountWithExchange(TrackedSpan),
    /// The cost or lot exchange is zero.
    ZeroExchangeRate(TrackedSpan),
    /// The cost or lot exchange has the commodity of the amount.
    ExchangeWithAmountCommodity { posting_amount: TrackedSpan, exchange: TrackedSpan },
}

/// Options of the processing.
#[derive(Debug, PartialEq, Eq, Clone)]
pub struct ProcessOptions {
    /// Path to the price DB file.
    pub price_db_path: Option<String>,
    /// Commodity used for conversion.
    pub conversion: Option<String>,
}

impl ProcessOptions {
    /// No price DB, no conversion.
    pub fn new() -> (r: Self)
        ensures
            r.price_db_path is None,
            r.conversion is None,
    {
        ProcessOptions { price_db_path: None, conversion: None }
    }
}

/// The posting has neither an amount nor a balance: its amount is deduced.
pub open spec fn is_unfilled(p: syntax::Posting) -> bool {
    p.amount is None && p.balance is None
}

/// The posting has no cost nor lot price.
pub open spec fn has_no_exchange(p: syntax::Posting) -> bool {
    p.amount matches Some(pa) ==> pa.cost is None && pa.lot.price is None
}

/// The posting is plain: it has no balance assertion.
pub open spec fn is_plain(p: syntax::Posting) -> bool {
    p.balance is None
}

/// The amount of the posting, evaluated in the commodities: `None` when it does not evaluate
/// to zero or to an amount of a single commodity.
pub open spec fn posting_amount_value(store: CommodityStoreView, pa: syntax::PostingAmount) -> Option<AmountView> {
    match eval_expr(store, pa.amount.value) {
        Ok(x) => posting_value_of(x),
        Err(_) => None,
    }
}

/// The amount of a single commodity that the exchange evaluates to, if any.
pub open spec fn exchange_rate(store: CommodityStoreView, x: syntax::Exchange) -> Option<(nat, crate::decimal::DecimalView)> {
    match eval_expr(store, exchange_expr(x)) {
        Ok(v) => single_of(v),
        Err(_) => None,
    }
}

/// The commodity and value of the posting amount when it evaluates to an amount of exactly one
/// commodity.
pub open spec fn posting_single(store: CommodityStoreView, pa: syntax::PostingAmount) -> Option<(nat, crate::decimal::DecimalView)> {
    match eval_expr(store, pa.amount.value) {
        Ok(EvaluatedView::Commodities(a)) => if entries(a).len() == 1 {
            Some(entries(a)[0])
        } else {
            None
        },
        _ => None,
    }
}

/// The exchange is accepted for the posting amount: it evaluates to a non-zero amount of one
/// commodity, and the posting amount is of one other commodity.
pub open spec fn exchange_ok(store: CommodityStoreView, pa: syntax::PostingAmount, x: syntax::Exchange) -> bool {
    &&& exchange_rate(store, x) matches Some(r)
    &&& r.1.1 != 0
    &&& posting_single(store, pa) matches Some(q)
    &&& q.0 != r.0
}

/// The amount of the posting evaluates, and so do its cost and lot price, see [`exchange_ok`].
pub open spec fn amount_computes(store: CommodityStoreView, pa: syntax::PostingAmount) -> bool {
    &&& posting_amount_value(store, pa) is Some
    &&& pa.cost matches Some(c) ==> exchange_ok(store, pa, c.value)
    &&& pa.lot.price matches Some(l) ==> exchange_ok(store, pa, l.value)
}

/// The exchange evaluates to a zero amount of one commodity.
pub open spec fn zero_rate(store: CommodityStoreView, x: syntax::Exchange) -> bool {
    exchange_rate(store, x) matches Some(q) && q.1.1 == 0
}

/// The span of the exchange of the posting amount found to be a zero rate, the cost being
/// checked before the lot price: `None` when neither is.
pub open spec fn zero_rate_span(store: CommodityStoreView, pa: syntax::PostingAmount) -> Option<TrackedSpan> {
    if pa.cost is Some && zero_rate(store, pa.cost->0.value) {
        Some(pa.cost->0.span)
    } else if (pa.cost is None || exchange_ok(store, pa, pa.cost->0.value)) && pa.lot.price is Some && zero_rate(
        store,
        pa.lot.price->0.value,
    ) {
        Some(pa.lot.price->0.span)
    } else {
        None
    }
}

/// The exchange that converts the posting amount for the transaction's total: its lot price,
/// else its cost.
pub open spec fn balance_exchange(pa: syntax::PostingAmount) -> Option<syntax::Exchange> {
    match pa.lot.price {
        Some(l) => Some(l.value),
        None => match pa.cost {
            Some(c) => Some(c.value),
            None => None,
        },
    }
}

/// What the posting amount adds to the transaction's total: the amount itself, or converted
/// by its exchange (`@ rate` times the amount, or `@@ total` with the amount's sign); `None`
/// when the product overflows.
pub open spec fn posting_delta(store: CommodityStoreView, pa: syntax::PostingAmount) -> Option<AmountView> {
    match balance_exchange(pa) {
        None => posting_amount_value(store, pa),
        Some(x) => {
            let r = exchange_rate(store, x)->0;
            let q = posting_single(store, pa)->0;
            match x {
                syntax::Exchange::Rate(_) => match crate::decimal::decimal_checked_mul(r.1, q.1) {
                    Some(m) => Some(single_view(r.0, m)),
                    None => None,
                },
                syntax::Exchange::Total(_) => Some(single_view(r.0, (q.1.0, r.1.1, r.1.2))),
            }
        },
    }
}

/// A posting amount of one commodity is taken from a value of exactly that one commodity.
proof fn lemma_posting_single(v: EvaluatedView, p: PostingAmount)
    requires
        posting_value_of(v) == Some(posting_view(p)),
    ensures
        p matches PostingAmount::Single(a) ==> (v matches EvaluatedView::Commodities(x) && entries(x).len() == 1
            && entries(x)[0] == (a.commodity.0 as nat, a.value@)),
        p is Zero ==> !(v matches EvaluatedView::Commodities(x) && entries(x).len() == 1),
{
    if let PostingAmount::Single(a) = p {
        let w = single_view(a.commodity.0 as nat, a.value@);
        assert(w.len() == a.commodity.0 + 1);
        assert(w[a.commodity.0 as int] == Some(a.value@));
        if let EvaluatedView::Commodities(x) = v {
            if entries(x).len() == 1 {
                let e = entries(x)[0];
                let u = single_view(e.0, e.1);
                assert(u.len() == e.0 + 1);
                assert(u[e.0 as int] == Some(e.1));
            }
        }
    } else {
        if let EvaluatedView::Commodities(x) = v {
            if entries(x).len() == 1 {
                let e = entries(x)[0];
                let u = single_view(e.0, e.1);
                assert(u.len() == e.0 + 1);
            }
        }
    }
}

/// The account that the name resolves to.
pub open spec fn account_of(accounts: InternView, name: Seq<char>) -> Account {
    Account(accounts.resolve(name)->0 as usize)
}

/// The amount that a posting takes from an evaluated value: zero, or a single commodity.
pub open spec fn posting_value_of(v: EvaluatedView) -> Option<AmountView> {
    match v {
        EvaluatedView::Number(x) => if x.1 == 0 {
            Some(Seq::empty())
        } else {
            None
        },
        EvaluatedView::Commodities(a) => if entries(a).len() > 1 {
            None
        } else if entries(a).len() == 0 {
            Some(Seq::empty())
        } else {
            Some(single_view(entries(a)[0].0, entries(a)[0].1))
        },
    }
}

/// The single commodity amount that an evaluated value gives, if any.
pub open spec fn single_of(v: EvaluatedView) -> Option<(nat, crate::decimal::DecimalView)> {
    match v {
        EvaluatedView::Number(x) => None,
        EvaluatedView::Commodities(a) => if entries(a).len() == 0 {
            None
        } else {
            Some(entries(a)[0])
        },
    }
}

/// Sum of the amounts, in order, `None` on overflow.
pub open spec fn amount_sum(ds: Seq<AmountView>) -> Option<AmountView>
    decreases ds.len(),
{
    if ds.len() == 0 {
        Some(Seq::empty())
    } else {
        match amount_sum(ds.drop_last()) {
            Some(a) => amount_add(a, ds.last()),
            None => None,
        }
    }
}

/// The remaining amount of a transaction is acceptable: zero once rounded, or exactly two
/// commodities, which gives the implied price between them.
pub open spec fn balanced(store: CommodityStore, a: AmountView) -> bool {
    let r = amount_round(store, a);
    amount_is_zero(r) || entries(r).len() == 2
}

/// Exchange rate of a posting, evaluated.
enum Exchange {
    /// `@@ total`: the total price of the posting.
    Total(SingleAmount),
    /// `@ rate`: the price of one unit.
    Rate(SingleAmount),
}

/// The single amount inside an exchange.
spec fn exchange_single(x: Exchange) -> SingleAmount {
    match x {
        Exchange::Total(s) => s,
        Exchange::Rate(s) => s,
    }
}

/// The expression of a syntax exchange.
pub open spec fn exchange_expr(x: syntax::Exchange) -> Expr {
    match x {
        syntax::Exchange::Total(e) => e,
        syntax::Exchange::Rate(e) => e,
    }
}

/// Maps an evaluation error.
fn eval_failure<T>(e: EvalError) -> (r: Result<T, BookKeepError>)
    ensures
        r == Err::<T, BookKeepError>(BookKeepError::EvalFailure(e)),
{
    Err(BookKeepError::EvalFailure(e))
}

/// Evaluates the exchange of a posting and checks it against the posting amount.
fn exchange_from_syntax(
    ctx: &ReportContext,
    syntax_amount: &syntax::PostingAmount,
    posting_amount: &PostingAmount,
    exchange: &TrackedValue<syntax::Exchange>,
) -> (r: Result<Exchange, BookKeepError>)
    ensures
        r matches Ok(x) ==> (eval_expr(ctx.commodities@, exchange_expr(exchange.value)) matches Ok(v)
            && single_of(v) == Some((exchange_single(x).commodity.0 as nat, exchange_single(x).value@))),
        r matches Ok(x) ==> exchange_single(x).value@.1 != 0 && (x is Rate <==> exchange.value is Rate),
        r matches Ok(x) ==> (*posting_amount matches PostingAmount::Single(a) && a.commodity
            != exchange_single(x).commodity),
        r matches Err(BookKeepError::ZeroAmountWithExchange(s)) ==> *posting_amount is Zero,
        r matches Err(e) ==> !(e is UndeduciblePostingAmount),
        eval_expr(ctx.commodities@, syntax_amount.amount.value) matches Ok(v) && posting_value_of(v) == Some(
            posting_view(*posting_amount),
        ) ==> (r is Ok <==> exchange_ok(ctx.commodities@, *syntax_amount, exchange.value)),
        r matches Ok(x) ==> exchange_rate(ctx.commodities@, exchange.value) == Some(
            (exchange_single(x).commodity.0 as nat, exchange_single(x).value@),
        ),
        zero_rate(ctx.commodities@, exchange.value) ==> r == Err::<Exchange, BookKeepError>(
            BookKeepError::ZeroExchangeRate(exchange.span),
        ),
{
    proof {
        if let Ok(v) = eval_expr(ctx.commodities@, syntax_amount.amount.value) {
            if posting_value_of(v) == Some(posting_view(*posting_amount)) {
                lemma_posting_single(v, *posting_amount);
            }
        }
    }
    let rate = match eval(exchange_expr_of(&exchange.value), ctx) {
        Ok(v) => match v.into_single() {
            Ok(s) => s,
            Err(e) => {
                return eval_failure(e);
            },
        },
        Err(e) => {
            return eval_failure(e);
        },
    };
    if rate.value.is_zero() {
        return Err(BookKeepError::ZeroExchangeRate(exchange.span()));
    }
    match posting_amount {
        PostingAmount::Zero => Err(BookKeepError::ZeroAmountWithExchange(exchange.span())),
        PostingAmount::Single(amount) => {
            if amount.commodity == rate.commodity {
                Err(
                    BookKeepError::ExchangeWithAmountCommodity {
                        posting_amount: syntax_amount.amount.span(),
                        exchange: exchange.span(),
                    },
                )
            } else {
                match &exchange.value {
                    syntax::Exchange::Rate(_) => Ok(Exchange::Rate(rate)),
                    syntax::Exchange::Total(_) => Ok(Exchange::Total(rate)),
                }
            }
        },
    }
}

/// The expression of a syntax exchange.
fn exchange_expr_of(x: &syntax::Exchange) -> (r: &Expr)
    ensures
        *r == exchange_expr(*x),
{
    match x {
        syntax::Exchange::Total(e) => e,
        syntax::Exchange::Rate(e) => e,
    }
}

/// Posting amount with its evaluated cost and lot price.
struct ComputedPosting {
    amount: PostingAmount,
    cost: Option<Exchange>,
    lot: Option<Exchange>,
}

/// Evaluates the amount of a posting, with its cost and lot price.
fn compute_posting_amount(ctx: &ReportContext, syntax_amount: &syntax::PostingAmount) -> (r: Result<
    ComputedPosting,
    BookKeepError,
>)
    ensures
        r matches Ok(c) ==> (eval_expr(ctx.commodities@, syntax_amount.amount.value) matches Ok(v)
            && posting_value_of(v) == Some(posting_view(c.amount)) && (c.cost is None
            <==> syntax_amount.cost is None) && (c.lot is None <==> syntax_amount.lot.price is None)),
        r matches Err(e) ==> !(e is UndeduciblePostingAmount),
        syntax_amount.cost is None && syntax_amount.lot.price is None ==> (r is Ok <==> posting_amount_value(
            ctx.commodities@,
            *syntax_amount,
        ) is Some),
        r is Ok <==> amount_computes(ctx.commodities@, *syntax_amount),
        r matches Ok(c) ==> (c.cost matches Some(x) ==> (syntax_amount.cost matches Some(sc)
            && exchange_rate(ctx.commodities@, sc.value) == Some(
            (exchange_single(x).commodity.0 as nat, exchange_single(x).value@),
        ) && (x is Rate <==> sc.value is Rate))),
        r matches Ok(c) ==> (c.lot matches Some(x) ==> (syntax_amount.lot.price matches Some(sl)
            && exchange_rate(ctx.commodities@, sl.value) == Some(
            (exchange_single(x).commodity.0 as nat, exchange_single(x).value@),
        ) && (x is Rate <==> sl.value is Rate))),
        r matches Ok(c) ==> ((syntax_amount.cost is Some || syntax_amount.lot.price is Some) ==> c.amount is Single),
        posting_amount_value(ctx.commodities@, *syntax_amount) is Some ==> (zero_rate_span(
            ctx.commodities@,
            *syntax_amount,
        ) matches Some(sp) ==> r == Err::<ComputedPosting, BookKeepError>(BookKeepError::ZeroExchangeRate(sp))),
{
    let amount = match eval(&syntax_amount.amount.value, ctx) {
        Ok(v) => match v.into_posting() {
            Ok(p) => p,
            Err(e) => {
                return eval_failure(e);
            },
        },
        Err(e) => {
            return eval_failure(e);
        },
    };
    let cost = match &syntax_amount.cost {
        Some(x) => match exchange_from_syntax(ctx, syntax_amount, &amount, x) {
            Ok(c) => Some(c),
            Err(e) => {
                return Err(e);
            },
        },
        None => None,
    };
    let lot = match &syntax_amount.lot.price {
        Some(x) => match exchange_from_syntax(ctx, syntax_amount, &amount, x) {
            Ok(c) => Some(c),
            Err(e) => {
                return Err(e);
            },
        },
        None => None,
    };
    Ok(ComputedPosting { amount, cost, lot })
}

/// Amount of the posting in the exchanged commodity: `rate * amount`, or the total with the
/// sign of the amount.
fn calculate_exchanged_amount(cost: &Exchange, amount: SingleAmount) -> (r: Result<
    SingleAmount,
    BookKeepError,
>)
    ensures
        r matches Ok(x) ==> x.commodity == exchange_single(*cost).commodity,
        *cost matches Exchange::Total(t) ==> r matches Ok(x) && x.value@ == (
            amount.value@.0,
            t.value@.1,
            t.value@.2,
        ),
        *cost matches Exchange::Rate(t) ==> match crate::decimal::decimal_checked_mul(
            t.value@,
            amount.value@,
        ) {
            Some(v) => r matches Ok(x) && x.value@ == v,
            None => r == Err::<SingleAmount, BookKeepError>(
                BookKeepError::EvalFailure(EvalError::NumberOverflow),
            ),
        },
        r matches Err(e) ==> !(e is UndeduciblePostingAmount),
{
    match cost {
        Exchange::Rate(rate) => match rate.checked_mul(amount.value) {
            Some(x) => Ok(x),
            None => eval_failure(EvalError::NumberOverflow),
        },
        Exchange::Total(abs) => Ok(abs.with_sign_of(amount)),
    }
}

/// The exchange of the computed posting that converts its amount: its lot price, else its cost.
spec fn computed_exchange(c: ComputedPosting) -> Option<Exchange> {
    match c.lot {
        Some(x) => Some(x),
        None => c.cost,
    }
}

/// The amount converted by the exchange: the rate times the value, or the total with the sign
/// of the value; `None` when the product overflows.
spec fn exchanged_view(x: Exchange, a: SingleAmount) -> Option<AmountView> {
    match x {
        Exchange::Rate(t) => match crate::decimal::decimal_checked_mul(t.value@, a.value@) {
            Some(m) => Some(single_view(t.commodity.0 as nat, m)),
            None => None,
        },
        Exchange::Total(t) => Some(single_view(t.commodity.0 as nat, (a.value@.0, t.value@.1, t.value@.2))),
    }
}

/// The amount a posting adds to the transaction balance: the exchanged amount when the
/// posting has a lot price or a cost (the lot price first), else the amount itself.
fn calculate_balance_amount(computed: &ComputedPosting) -> (r: Result<PostingAmount, BookKeepError>)
    ensures
        computed_exchange(*computed) matches Some(x) ==> (computed.amount matches PostingAmount::Single(a)
            ==> match exchanged_view(x, a) {
            Some(v) => r matches Ok(p) && posting_view(p) == v,
            None => r is Err,
        }),
        computed.cost is None && computed.lot is None ==> r == Ok::<PostingAmount, BookKeepError>(
            computed.amount,
        ),
        (computed.cost is Some || computed.lot is Some) ==> (r matches Ok(p) ==> p is Single),
        r matches Err(e) ==> !(e is UndeduciblePostingAmount),
{
    let x = match &computed.lot {
        Some(x) => x,
        None => match &computed.cost {
            Some(x) => x,
            None => {
                return Ok(computed.amount);
            },
        },
    };
    let single = match computed.amount.to_single() {
        Ok(s) => s,
        Err(e) => {
            return eval_failure(e);
        },
    };
    match calculate_exchanged_amount(x, single) {
        Ok(e) => Ok(PostingAmount::Single(e)),
        Err(e) => Err(e),
    }
}

/// Checks that the remaining amount of a transaction is acceptable, see [`balanced`].
pub fn check_balance(ctx: &ReportContext, balance: Amount) -> (r: Result<(), BookKeepError>)
    ensures
        r is Ok <==> balanced(ctx.commodities, balance@),
        !balanced(ctx.commodities, balance@) ==> (r matches Err(BookKeepError::UnbalancedPostings(s))
            && s@ == inline_text(ctx.commodities, amount_round(ctx.commodities, balance@))),
{
    let rounded = balance.round(ctx);
    if rounded.is_zero() {
        return Ok(());
    }
    match rounded.maybe_pair() {
        Some(_) => Ok(()),
        None => Err(BookKeepError::UnbalancedPostings(rounded.to_inline_string(ctx))),
    }
}

/// The balance assertion `= e` holds for the amount: `e` evaluates to zero and every value of
/// the amount is zero, or to a single commodity amount equal to the amount's value for it.
pub open spec fn balance_assertion_holds(store: CommodityStoreView, cur: AmountView, e: Expr) -> bool {
    eval_expr(store, e) matches Ok(x) && match x {
        EvaluatedView::Number(n) => n.1 == 0 && amount_is_zero(cur),
        EvaluatedView::Commodities(a) => entries(a).len() <= 1 && (entries(a).len() == 0
            ==> amount_is_zero(cur)) && (entries(a).len() == 1 ==> crate::decimal::value_eq(
            entries(a)[0].1,
            part_of(cur, entries(a)[0].0),
        )),
    }
}

/// The amount of one commodity that a balance assertion evaluates to, if it does.
pub open spec fn asserted_single(store: CommodityStoreView, e: Expr) -> Option<(nat, crate::decimal::DecimalView)> {
    match eval_expr(store, e) {
        Ok(EvaluatedView::Commodities(a)) => if entries(a).len() == 1 {
            Some(entries(a)[0])
        } else {
            None
        },
        _ => None,
    }
}

/// A posting with the balance assertion `= e` and no amount sets the balance of the account
/// `a` from `c` to `c2` and adds `d` to the transaction: a zero clears the account (which held
/// at most one commodity) and adds the negated previous amount; an amount of one commodity
/// sets that commodity (dropping it when zero), keeps the others, and adds its difference from
/// the previous value.
pub open spec fn asserted_step(
    store: CommodityStoreView,
    c: BalanceView,
    a: Account,
    e: Expr,
    c2: BalanceView,
    d: AmountView,
) -> bool {
    let prev = bal_get_or_zero(c, a);
    &&& others_unchanged(c, c2, a)
    &&& match asserted_single(store, e) {
        None => {
            &&& eval_expr(store, e) matches Ok(x)
            &&& posting_value_of(x) == Some(Seq::<Option<crate::decimal::DecimalView>>::empty())
            &&& entries(prev).len() <= 1
            &&& bal_get(c2, a) == Some(Seq::<Option<crate::decimal::DecimalView>>::empty())
            &&& d == if entries(prev).len() == 0 {
                Seq::<Option<crate::decimal::DecimalView>>::empty()
            } else {
                single_view(entries(prev)[0].0, view_neg(entries(prev)[0].1))
            }
        },
        Some((k, v)) => {
            &&& crate::decimal::decimal_checked_add(v, view_neg(part_of(prev, k))) matches Some(w)
            &&& d == single_view(k, w)
            &&& bal_get(c2, a) matches Some(n)
            &&& forall|j: nat| j != k ==> #[trigger] amt_get(n, j) == amt_get(prev, j)
            &&& (v.1 == 0 ==> amt_get(n, k) is None)
            &&& (v.1 != 0 ==> amt_get(n, k) == Some(v))
        },
    }
}

/// Booking the posting `p` takes the balances from `c` to `c2` and adds `d` to the
/// transaction's total: a posting without amount nor assertion adds nothing yet; one with
/// only an assertion sets the account (see [`asserted_step`]); one with an amount adds it to
/// the account and its converted value (see [`posting_delta`]) to the total, and its
/// assertion, if any, holds afterwards.
pub open spec fn booking_step(
    store: CommodityStoreView,
    accounts: InternView,
    c: BalanceView,
    p: syntax::Posting,
    c2: BalanceView,
    d: AmountView,
) -> bool {
    let a = account_of(accounts, p.account@);
    match p.amount {
        None => match p.balance {
            None => c2 == c && d == Seq::<Option<crate::decimal::DecimalView>>::empty(),
            Some(x) => asserted_step(store, c, a, x.value, c2, d),
        },
        Some(pa) => {
            &&& posting_amount_value(store, pa) matches Some(v)
            &&& bal_add(c, a, v) == Some(c2)
            &&& posting_delta(store, pa) == Some(d)
            &&& (p.balance matches Some(x) ==> balance_assertion_holds(store, bal_get_or_zero(c2, a), x.value))
        },
    }
}

/// Booking the postings in order, the first `ds.len()` of them, goes through the balances
/// `cs`: posting `k` takes them from `cs[k]` to `cs[k + 1]` and adds `ds[k]` to the total, see
/// [`booking_step`].
pub open spec fn booked_chain(
    store: CommodityStoreView,
    accounts: InternView,
    posts: Seq<TrackedValue<syntax::Posting>>,
    cs: Seq<BalanceView>,
    ds: Seq<AmountView>,
) -> bool {
    &&& cs.len() == ds.len() + 1
    &&& ds.len() <= posts.len()
    &&& forall|k: int|
        0 <= k < ds.len() ==> booking_step(store, accounts, cs[k], posts[k].value, cs[k + 1], #[trigger] ds[k])
}

/// Processes one posting: registers its account, computes its amount and what it adds to the
/// transaction balance, and updates the account balance.
fn process_posting(
    ctx: &mut ReportContext,
    bal: &mut Balance,
    posting: &TrackedValue<syntax::Posting>,
    i: usize,
    unfilled: &mut Option<TrackedValue<usize>>,
) -> (r: Result<(Account, PostingAmount, PostingAmount), BookKeepError>)
    ensures
        final(ctx).commodities == old(ctx).commodities,
        old(ctx).accounts@.extended_by(final(ctx).accounts@),
        r matches Ok((a, v, d)) ==> final(ctx).accounts@.resolve(posting.value.account@) == Some(
            a.0 as nat,
        ),
        r matches Ok((a, v, d)) ==> (is_unfilled(posting.value) ==> v is Zero && d is Zero
            && *final(unfilled) == Some((TrackedValue { value: i, span: posting.span }))),
        r is Ok && !is_unfilled(posting.value) ==> *final(unfilled) == *old(unfilled),
        r matches Ok((a, v, d)) ==> (has_no_exchange(posting.value) ==> d == v),
        r matches Ok((a, v, d)) ==> (posting.value.amount matches Some(pa) ==> (eval_expr(
            old(ctx).commodities@,
            pa.amount.value,
        ) matches Ok(x) && posting_value_of(x) == Some(posting_view(v)))),
        r matches Ok((a, v, d)) ==> (posting.value.amount is Some ==> (posting.value.balance matches Some(
            b,
        ) ==> balance_assertion_holds(
            old(ctx).commodities@,
            bal_get_or_zero(final(bal)@, a),
            b.value,
        ))),
        r matches Err(BookKeepError::UndeduciblePostingAmount(f, s)) ==> is_unfilled(posting.value)
            && *old(unfilled) == Some(f) && s == (TrackedValue { value: i, span: posting.span }),
        is_unfilled(posting.value) && (*old(unfilled)) is Some ==> (r matches Err(
            BookKeepError::UndeduciblePostingAmount(f2, s2),
        )),
        is_unfilled(posting.value) && (*old(unfilled)) is None ==> r is Ok,
        is_unfilled(posting.value) ==> final(bal)@ == old(bal)@,
        final(ctx).accounts@.resolve(posting.value.account@) is Some,
        is_plain(posting.value) && posting.value.amount is Some ==> (r is Ok <==> (amount_computes(
            old(ctx).commodities@,
            posting.value.amount->0,
        ) && posting_delta(old(ctx).commodities@, posting.value.amount->0) is Some && bal_add(
            old(bal)@,
            account_of(final(ctx).accounts@, posting.value.account@),
            posting_amount_value(old(ctx).commodities@, posting.value.amount->0)->0,
        ) is Some)),
        is_plain(posting.value) && posting.value.amount is Some ==> (r matches Ok((a, v, d)) ==> Some(
            posting_view(d),
        ) == posting_delta(old(ctx).commodities@, posting.value.amount->0)),
        is_plain(posting.value) ==> (posting.value.amount matches Some(pa) ==> (posting_amount_value(
            old(ctx).commodities@,
            pa,
        ) is Some ==> (zero_rate_span(old(ctx).commodities@, pa) matches Some(sp) ==> r == Err::<
            (Account, PostingAmount, PostingAmount),
            BookKeepError,
        >(BookKeepError::ZeroExchangeRate(sp))))),
        is_plain(posting.value) && posting.value.amount is Some && r is Ok ==> Some(final(bal)@) == bal_add(
            old(bal)@,
            account_of(final(ctx).accounts@, posting.value.account@),
            posting_amount_value(old(ctx).commodities@, posting.value.amount->0)->0,
        ),
        r matches Ok((a, v, d)) ==> booking_step(
            old(ctx).commodities@,
            final(ctx).accounts@,
            old(bal)@,
            posting.value,
            final(bal)@,
            posting_view(d),
        ),
{
    let posting_span = posting.span();
    let p = &posting.value;
    let account = ctx.accounts.ensure(p.account.as_str());
    match (&p.amount, &p.balance) {
        (None, None) => {
            match unfilled {
                Some(first) => {
                    let f = TrackedValue::new(first.value, first.span);
                    Err(BookKeepError::UndeduciblePostingAmount(f, TrackedValue::new(i, posting_span)))
                },
                None => {
                    *unfilled = Some(TrackedValue::new(i, posting_span));
                    Ok((account, PostingAmount::zero(), PostingAmount::zero()))
                },
            }
        },
        (None, Some(balance_constraints)) => {
            let current = match eval(&balance_constraints.value, ctx) {
                Ok(v) => match v.into_posting() {
                    Ok(x) => x,
                    Err(e) => {
                        return eval_failure(e);
                    },
                },
                Err(e) => {
                    return eval_failure(e);
                },
            };
            let prev = match bal.set_partial(ctx, account, current) {
                Ok(x) => x,
                Err(e) => {
                    return Err(BookKeepError::BalanceFailure(e));
                },
            };
            match current.check_sub(prev) {
                Ok(amount) => Ok((account, amount, amount)),
                Err(e) => eval_failure(e),
            }
        },
        (Some(syntax_amount), balance_constraints) => {
            let computed = match compute_posting_amount(ctx, syntax_amount) {
                Ok(c) => c,
                Err(e) => {
                    return Err(e);
                },
            };
            let expected = match balance_constraints {
                Some(x) => match eval(&x.value, ctx) {
                    Ok(v) => match v.into_posting() {
                        Ok(e) => Some(e),
                        Err(e) => {
                            return eval_failure(e);
                        },
                    },
                    Err(e) => {
                        return eval_failure(e);
                    },
                },
                None => None,
            };
            bal.check_wf();
            let ghost bal_before = bal@;
            let current = match bal.add_posting_amount(account, computed.amount) {
                Ok(c) => c,
                Err(e) => {
                    proof {
                        if let PostingAmount::Single(sa) = computed.amount {
                            lemma_add_entry_single(bal_get_or_zero(bal_before, account), sa.commodity.0 as nat, sa.value@);
                        }
                    }
                    return eval_failure(e);
                },
            };
            bal.check_wf();
            proof {
                match computed.amount {
                    PostingAmount::Zero => {
                        lemma_add_zero(bal_get_or_zero(bal_before, account));
                    },
                    PostingAmount::Single(sa) => {
                        lemma_add_entry_single(bal_get_or_zero(bal_before, account), sa.commodity.0 as nat, sa.value@);
                    },
                }
                crate::query::lemma_bal_set(bal_before, bal@, account, bal_get(bal@, account)->0);
            }
            match expected {
                Some(expected) => {
                    if !current.is_consistent(&expected) {
                        return Err(
                            BookKeepError::BalanceAssertionFailure(
                                current.to_inline_string(ctx),
                                expected.to_string(ctx),
                            ),
                        );
                    }
                },
                None => {},
            }
            proof {
                let store = ctx.commodities@;
                let v = eval_expr(store, syntax_amount.amount.value)->Ok_0;
                lemma_posting_single(v, computed.amount);
            }
            match calculate_balance_amount(&computed) {
                Ok(delta) => Ok((account, computed.amount, delta)),
                Err(e) => Err(e),
            }
        },
    }
}

/// The postings of a transaction after book keeping agree with what it adds to the balance:
/// `deltas` holds what each posting adds, posting by posting, and sums to `total`.
pub open spec fn deltas_agree(
    store: CommodityStore,
    txn: syntax::Transaction,
    postings: Seq<Posting>,
    deltas: Seq<AmountView>,
    total: AmountView,
) -> bool {
    &&& deltas.len() == postings.len()
    &&& amount_sum(deltas) == Some(total)
    &&& forall|k: int|
        0 <= k < deltas.len() && has_no_exchange(txn.posts[k].value) && !is_unfilled(
            txn.posts[k].value,
        ) ==> #[trigger] deltas[k] == postings[k].amount@
    &&& forall|k: int| 0 <= k < deltas.len() && is_unfilled(txn.posts[k].value) ==> #[trigger] deltas[k].len() == 0
    &&& (forall|k: int| 0 <= k < deltas.len() ==> !is_unfilled(#[trigger] txn.posts[k].value))
        ==> balanced(store, total)
    &&& forall|k: int|
        0 <= k < deltas.len() && is_unfilled(#[trigger] txn.posts[k].value) ==> postings[k].amount@
            == amount_neg(total)
}

/// Some amounts added by the postings agree with them, see [`deltas_agree`].
pub open spec fn postings_balance(store: CommodityStore, txn: syntax::Transaction, postings: Seq<Posting>) -> bool {
    exists|ds: Seq<AmountView>, tot: AmountView| deltas_agree(store, txn, postings, ds, tot)
}

/// The value of the amount of the posting, nothing for a posting without amount or whose
/// amount does not evaluate.
pub open spec fn amount_or_empty(store: CommodityStoreView, p: syntax::Posting) -> AmountView {
    match p.amount {
        Some(pa) => match posting_amount_value(store, pa) {
            Some(v) => v,
            None => Seq::empty(),
        },
        None => Seq::empty(),
    }
}

/// What the posting adds to the total of the transaction (see [`posting_delta`]), nothing for
/// a posting without amount or whose amount does not evaluate.
pub open spec fn delta_or_empty(store: CommodityStoreView, p: syntax::Posting) -> AmountView {
    match p.amount {
        Some(pa) => match posting_delta(store, pa) {
            Some(v) => v,
            None => Seq::empty(),
        },
        None => Seq::empty(),
    }
}

/// What the first `n` postings add to the total of the transaction, in order.
pub open spec fn plain_deltas(store: CommodityStoreView, posts: Seq<TrackedValue<syntax::Posting>>, n: int) -> Seq<
    AmountView,
>
    decreases n,
{
    if n <= 0 {
        Seq::empty()
    } else {
        plain_deltas(store, posts, n - 1).push(delta_or_empty(store, posts[n - 1].value))
    }
}

/// The accounts and amounts that the first `n` postings with an amount add to the balances,
/// in order.
pub open spec fn plain_pairs(
    store: CommodityStoreView,
    accounts: InternView,
    posts: Seq<TrackedValue<syntax::Posting>>,
    n: int,
) -> Seq<(Account, AmountView)>
    decreases n,
{
    if n <= 0 {
        Seq::empty()
    } else if posts[n - 1].value.amount is Some {
        plain_pairs(store, accounts, posts, n - 1).push(
            (account_of(accounts, posts[n - 1].value.account@), amount_or_empty(store, posts[n - 1].value)),
        )
    } else {
        plain_pairs(store, accounts, posts, n - 1)
    }
}

/// Number of postings without amount nor balance among the first `n`.
pub open spec fn unfilled_count(posts: Seq<TrackedValue<syntax::Posting>>, n: int) -> nat
    decreases n,
{
    if n <= 0 {
        0
    } else {
        unfilled_count(posts, n - 1) + if is_unfilled(posts[n - 1].value) {
            1nat
        } else {
            0nat
        }
    }
}

/// Every amount of the postings evaluates, with its cost and lot price (see
/// [`amount_computes`]), and converts without overflow (see [`posting_delta`]).
pub open spec fn amounts_evaluate(store: CommodityStoreView, posts: Seq<TrackedValue<syntax::Posting>>) -> bool {
    forall|k: int|
        0 <= k < posts.len() ==> ((#[trigger] posts[k]).value.amount matches Some(pa) ==> amount_computes(
            store,
            pa,
        ) && posting_delta(store, pa) is Some)
}

/// Every amount of the first `n` postings evaluates with its cost and lot price and converts
/// without overflow, see [`amounts_evaluate`].
pub open spec fn amounts_evaluate_upto(store: CommodityStoreView, posts: Seq<TrackedValue<syntax::Posting>>, n: int) -> bool {
    forall|k: int|
        0 <= k < n ==> ((#[trigger] posts[k]).value.amount matches Some(pa) ==> amount_computes(store, pa)
            && posting_delta(store, pa) is Some)
}

/// The posting, without balance assertion, has an amount that evaluates and an exchange of
/// zero rate, see [`zero_rate_span`].
pub open spec fn has_zero_rate(store: CommodityStoreView, p: syntax::Posting) -> bool {
    &&& p.balance is None
    &&& p.amount matches Some(pa)
    &&& posting_amount_value(store, pa) is Some
    &&& zero_rate_span(store, pa) is Some
}

/// The span of the zero exchange rate of posting `k`, when the postings before it book
/// without error (their amounts evaluate, nothing overflows, at most one has no amount) and
/// posting `k` has a zero rate, see [`has_zero_rate`].
pub open spec fn zero_rate_at(
    store: CommodityStoreView,
    accounts: InternView,
    b: BalanceView,
    posts: Seq<TrackedValue<syntax::Posting>>,
    k: int,
) -> Option<TrackedSpan> {
    if 0 <= k < posts.len() && amounts_evaluate_upto(store, posts, k) && bal_fold(b, plain_pairs(store, accounts, posts, k))
        is Some && amount_sum(plain_deltas(store, posts, k)) is Some && unfilled_count(posts, k) <= 1
        && has_zero_rate(store, posts[k].value) {
        zero_rate_span(store, posts[k].value.amount->0)
    } else {
        None
    }
}

/// The balances after booking a transaction without balance assertions (see [`is_plain`])
/// onto `b`, `None` when it is refused: every amount evaluates with its cost and lot price (see
/// [`amounts_evaluate`]), at most one posting is without amount, nothing overflows, the amounts
/// are added to their accounts in order, the total is the sum of what each posting adds (see
/// [`posting_delta`]), and then the posting without amount, if any, takes the negated total;
/// else the total must be balanced (see [`balanced`]).
pub open spec fn plain_booking(
    store: CommodityStore,
    accounts: InternView,
    b: BalanceView,
    txn: syntax::Transaction,
) -> Option<BalanceView> {
    let posts = txn.posts@;
    let n = posts.len() as int;
    if amounts_evaluate(store@, posts) && unfilled_count(posts, n) <= 1 {
        match (amount_sum(plain_deltas(store@, posts, n)), bal_fold(b, plain_pairs(store@, accounts, posts, n))) {
            (Some(total), Some(c)) => if unfilled_count(posts, n) == 1 {
                let u = choose|u: int| 0 <= u < n && is_unfilled(#[trigger] posts[u].value);
                bal_add(c, account_of(accounts, posts[u].value.account@), amount_neg(total))
            } else if balanced(store, total) {
                Some(c)
            } else {
                None
            },
            _ => None,
        }
    } else {
        None
    }
}

proof fn lemma_pairs_stable(
    store: CommodityStoreView,
    a1: InternView,
    a2: InternView,
    posts: Seq<TrackedValue<syntax::Posting>>,
    n: int,
)
    requires
        a1.extended_by(a2),
        forall|k: int| 0 <= k < n ==> a1.resolve((#[trigger] posts[k]).value.account@) is Some,
    ensures
        plain_pairs(store, a1, posts, n) == plain_pairs(store, a2, posts, n),
    decreases n,
{
    if n > 0 {
        lemma_pairs_stable(store, a1, a2, posts, n - 1);
        assert(a1.resolve(posts[n - 1].value.account@) is Some);
    }
}

proof fn lemma_fold_pairs_none(
    store: CommodityStoreView,
    a: InternView,
    b: BalanceView,
    posts: Seq<TrackedValue<syntax::Posting>>,
    n: int,
    m: int,
)
    requires
        0 <= n <= m,
        bal_fold(b, plain_pairs(store, a, posts, n)) is None,
    ensures
        bal_fold(b, plain_pairs(store, a, posts, m)) is None,
    decreases m - n,
{
    if m > n {
        lemma_fold_pairs_none(store, a, b, posts, n, m - 1);
        let p = plain_pairs(store, a, posts, m - 1);
        if posts[m - 1].value.amount is Some {
            let q = plain_pairs(store, a, posts, m);
            assert(q.drop_last() =~= p);
        }
    }
}

proof fn lemma_deltas_none(store: CommodityStoreView, posts: Seq<TrackedValue<syntax::Posting>>, n: int, m: int)
    requires
        0 <= n <= m,
        amount_sum(plain_deltas(store, posts, n)) is None,
    ensures
        amount_sum(plain_deltas(store, posts, m)) is None,
    decreases m - n,
{
    if m > n {
        lemma_deltas_none(store, posts, n, m - 1);
        assert(plain_deltas(store, posts, m).drop_last() =~= plain_deltas(store, posts, m - 1));
    }
}

proof fn lemma_unfilled_grows(posts: Seq<TrackedValue<syntax::Posting>>, n: int, m: int)
    requires
        0 <= n <= m,
    ensures
        unfilled_count(posts, n) <= unfilled_count(posts, m),
    decreases m - n,
{
    if m > n {
        lemma_unfilled_grows(posts, n, m - 1);
    }
}

/// Once the postings are booked to `c`, each adding its part of `ds` to the total: the total
/// does not overflow; the posting without amount, if any, takes the negated total, which its
/// account receives, giving `fb`; else the total is balanced (see [`balanced`]) and `fb` is `c`.
pub open spec fn booking_completes(
    store: CommodityStore,
    accounts: InternView,
    posts: Seq<TrackedValue<syntax::Posting>>,
    c: BalanceView,
    ds: Seq<AmountView>,
    fb: BalanceView,
    postings: Seq<Posting>,
) -> bool {
    match amount_sum(ds) {
        None => false,
        Some(total) => {
            &&& (forall|k: int| 0 <= k < posts.len() ==> !is_unfilled((#[trigger] posts[k]).value)) ==> fb == c
                && balanced(store, total)
            &&& forall|k: int|
                0 <= k < posts.len() && is_unfilled((#[trigger] posts[k]).value) ==> postings[k].amount@
                    == amount_neg(total) && Some(fb) == bal_add(
                    c,
                    account_of(accounts, posts[k].value.account@),
                    amount_neg(total),
                )
        },
    }
}

/// Books the transaction, its commodities being registered: see [`add_transaction`].
#[verifier::spinoff_prover]
#[verifier::rlimit(40)]
fn book_transaction(ctx: &mut ReportContext, bal: &mut Balance, txn: &syntax::Transaction) -> (r:
    Result<Transaction, BookKeepError>)
    ensures
        final(ctx).commodities == old(ctx).commodities,
        old(ctx).accounts@.extended_by(final(ctx).accounts@),
        r matches Ok(t) ==> t.date == txn.date && t.postings.len() == txn.posts.len(),
        r matches Ok(t) ==> forall|k: int|
            0 <= k < t.postings.len() ==> final(ctx).accounts@.resolve(
                (#[trigger] txn.posts[k]).value.account@,
            ) == Some(t.postings[k].account.0 as nat),
        r matches Ok(t) ==> forall|k: int, l: int|
            0 <= k < l < txn.posts.len() ==> !(is_unfilled((#[trigger] txn.posts[k]).value)
                && is_unfilled((#[trigger] txn.posts[l]).value)),
        r matches Ok(t) ==> forall|k: int|
            0 <= k < t.postings.len() ==> ((#[trigger] txn.posts[k]).value.amount matches Some(pa)
                ==> (eval_expr(old(ctx).commodities@, pa.amount.value) matches Ok(x)
                && posting_value_of(x) == Some(t.postings[k].amount@))),
        r matches Ok(t) ==> postings_balance(old(ctx).commodities, *txn, t.postings@),
        r matches Err(BookKeepError::UndeduciblePostingAmount(f, s)) ==> f.value < s.value
            < txn.posts.len() && is_unfilled(txn.posts[f.value as int].value) && is_unfilled(
            txn.posts[s.value as int].value,
        ),
        (forall|k: int| 0 <= k < txn.posts@.len() ==> is_plain((#[trigger] txn.posts@[k]).value)) ==> (r is Ok
            <==> plain_booking(old(ctx).commodities, final(ctx).accounts@, old(bal)@, *txn) is Some),
        (forall|k: int| 0 <= k < txn.posts@.len() ==> is_plain((#[trigger] txn.posts@[k]).value)) && r is Ok
            ==> plain_booking(old(ctx).commodities, final(ctx).accounts@, old(bal)@, *txn) == Some(final(bal)@),
        (forall|k: int| 0 <= k < txn.posts@.len() ==> is_plain((#[trigger] txn.posts@[k]).value)) ==> forall|k: int|
            (#[trigger] zero_rate_at(old(ctx).commodities@, final(ctx).accounts@, old(bal)@, txn.posts@, k) matches Some(sp)
                ==> r == Err::<Transaction, BookKeepError>(BookKeepError::ZeroExchangeRate(sp))),
        (forall|k: int| 0 <= k < txn.posts@.len() ==> is_plain((#[trigger] txn.posts@[k]).value))
            && amounts_evaluate(old(ctx).commodities@, txn.posts@) && amount_sum(
            plain_deltas(old(ctx).commodities@, txn.posts@, txn.posts@.len() as int),
        ) is Some && bal_fold(
            old(bal)@,
            plain_pairs(old(ctx).commodities@, final(ctx).accounts@, txn.posts@, txn.posts@.len() as int),
        ) is Some && unfilled_count(txn.posts@, txn.posts@.len() as int) >= 2 ==> (r matches Err(
            BookKeepError::UndeduciblePostingAmount(f, s),
        ) && f.span == txn.posts@[f.value as int].span && s.span == txn.posts@[s.value as int].span
            && unfilled_count(txn.posts@, s.value as int) == 1),
        (forall|k: int| 0 <= k < txn.posts@.len() ==> is_plain((#[trigger] txn.posts@[k]).value)) ==> (r matches Ok(t)
            ==> forall|k: int|
            0 <= k < t.postings.len() && is_unfilled((#[trigger] txn.posts@[k]).value) ==> Some(
                amount_neg(t.postings[k].amount@),
            ) == amount_sum(plain_deltas(old(ctx).commodities@, txn.posts@, txn.posts@.len() as int))),
        r matches Ok(t) ==> exists|cs: Seq<BalanceView>, ds: Seq<AmountView>|
            #[trigger] booked_chain(old(ctx).commodities@, final(ctx).accounts@, txn.posts@, cs, ds) && ds.len()
                == txn.posts@.len() && cs[0] == old(bal)@ && booking_completes(
                old(ctx).commodities,
                final(ctx).accounts@,
                txn.posts@,
                cs.last(),
                ds,
                final(bal)@,
                t.postings@,
            ),
{
    let ghost store = ctx.commodities;
    let ghost plain = forall|k: int| 0 <= k < txn.posts@.len() ==> is_plain((#[trigger] txn.posts@[k]).value);
    let ghost posts = txn.posts@;
    let ghost bal0 = bal@;
    let mut postings: Vec<Posting> = Vec::new();
    let mut unfilled: Option<TrackedValue<usize>> = None;
    let mut balance = Amount::zero();
    let ghost mut deltas: Seq<AmountView> = Seq::empty();
    let ghost mut cs: Seq<BalanceView> = seq![bal@];
    let n = txn.posts.len();
    let mut i: usize = 0;
    while i < n
        invariant
            n == txn.posts.len(),
            i <= n,
            ctx.commodities == store,
            store == old(ctx).commodities,
            old(ctx).accounts@.extended_by(ctx.accounts@),
            postings.len() == i,
            deltas.len() == i,
            amount_sum(deltas) == Some(balance@),
            forall|k: int|
                0 <= k < i ==> ctx.accounts@.resolve((#[trigger] txn.posts[k]).value.account@) == Some(
                    postings[k].account.0 as nat,
                ),
            unfilled is None ==> forall|k: int| 0 <= k < i ==> !is_unfilled((#[trigger] txn.posts[k]).value),
            unfilled matches Some(u) ==> u.value < i && is_unfilled(txn.posts[u.value as int].value)
                && forall|k: int| 0 <= k < i && k != u.value ==> !is_unfilled((#[trigger] txn.posts[k]).value),
            forall|k: int|
                0 <= k < i ==> ((#[trigger] txn.posts[k]).value.amount matches Some(pa) ==> (eval_expr(
                    store@,
                    pa.amount.value,
                ) matches Ok(x) && posting_value_of(x) == Some(postings[k].amount@))),
            forall|k: int|
                0 <= k < i && has_no_exchange(txn.posts[k].value) && !is_unfilled(txn.posts[k].value)
                    ==> #[trigger] deltas[k] == postings[k].amount@,
            forall|k: int| 0 <= k < i && is_unfilled(txn.posts[k].value) ==> #[trigger] deltas[k].len() == 0,
            forall|k: int| 0 <= k < i && is_unfilled(txn.posts[k].value) ==> #[trigger] postings[k].amount@.len() == 0,
            plain == (forall|k: int| 0 <= k < txn.posts@.len() ==> is_plain((#[trigger] txn.posts@[k]).value)),
            posts == txn.posts@,
            bal0 == old(bal)@,
            plain ==> bal_fold(bal0, plain_pairs(store@, ctx.accounts@, posts, i as int)) == Some(bal@),
            plain ==> deltas == plain_deltas(store@, posts, i as int),
            plain ==> forall|k: int|
                0 <= k < i ==> ((#[trigger] posts[k]).value.amount matches Some(pa) ==> amount_computes(
                    store@,
                    pa,
                ) && posting_delta(store@, pa) is Some),
            unfilled is None ==> unfilled_count(posts, i as int) == 0,
            unfilled is Some ==> unfilled_count(posts, i as int) == 1,
            unfilled matches Some(u) ==> u.span == posts[u.value as int].span,
            plain ==> forall|k: int| 0 <= k < i ==> !has_zero_rate(store@, (#[trigger] posts[k]).value),
            booked_chain(store@, ctx.accounts@, posts, cs, deltas),
            cs.len() == i + 1,
            cs[0] == bal0,
            cs.last() == bal@,
        decreases n - i,
    {
        let ghost accounts_before = ctx.accounts@;
        let ghost unfilled_before = unfilled;
        let ghost bal_before = bal@;
        proof {
            if plain {
                assert(is_plain(posts[i as int].value));
            }
        }
        let (account, value, delta) = match process_posting(ctx, bal, &txn.posts[i], i, &mut unfilled) {
            Ok(x) => x,
            Err(e) => {
                proof {
                    if e is UndeduciblePostingAmount {
                        assert(unfilled_before is Some);
                    }
                    if plain {
                        lemma_pairs_stable(store@, accounts_before, ctx.accounts@, posts, i as int);
                        let p = posts[i as int].value;
                        if is_unfilled(p) {
                            assert(unfilled_count(posts, i + 1) == 2);
                            lemma_unfilled_grows(posts, i + 1, n as int);
                        } else if !(amount_computes(store@, p.amount->0) && posting_delta(store@, p.amount->0) is Some) {
                            assert(!amounts_evaluate(store@, posts)) by {
                                assert(posts[i as int].value.amount matches Some(pa) && !(amount_computes(store@, pa) && posting_delta(store@, pa) is Some));
                            }
                        } else {
                            let q = plain_pairs(store@, ctx.accounts@, posts, i + 1);
                            assert(q.drop_last() =~= plain_pairs(store@, ctx.accounts@, posts, i as int));
                            assert(bal_fold(bal0, q) is None);
                            lemma_fold_pairs_none(store@, ctx.accounts@, bal0, posts, i + 1, n as int);
                        }
                        assert forall|k: int|
                            (#[trigger] zero_rate_at(store@, ctx.accounts@, bal0, posts, k) matches Some(sp)
                                ==> e == BookKeepError::ZeroExchangeRate(sp)) by {
                            if zero_rate_at(store@, ctx.accounts@, bal0, posts, k) is Some {
                                if k < i {
                                    assert(!has_zero_rate(store@, posts[k].value));
                                } else if k > i {
                                    lemma_unfilled_grows(posts, i + 1, k);
                                    assert(amounts_evaluate_upto(store@, posts, k));
                                    assert(posts[i as int].value.amount matches Some(pa) ==> amount_computes(store@, pa)
                                        && posting_delta(store@, pa) is Some);
                                    if is_unfilled(p) {
                                        assert(unfilled_count(posts, i + 1) == unfilled_count(posts, i as int) + 1);
                                    } else {
                                        let q = plain_pairs(store@, ctx.accounts@, posts, i + 1);
                                        assert(q.drop_last() =~= plain_pairs(store@, ctx.accounts@, posts, i as int));
                                        if bal_fold(bal0, q) is None {
                                            lemma_fold_pairs_none(store@, ctx.accounts@, bal0, posts, i + 1, k);
                                        }
                                    }
                                }
                            }
                        }
                    }
                }
                return Err(e);
            },
        };
        proof {
            if plain {
                lemma_pairs_stable(store@, accounts_before, ctx.accounts@, posts, i as int);
                let p = posts[i as int].value;
                let q = plain_pairs(store@, ctx.accounts@, posts, i + 1);
                if p.amount is Some {
                    assert(q.drop_last() =~= plain_pairs(store@, ctx.accounts@, posts, i as int));
                }
                assert(!has_zero_rate(store@, posts[i as int].value));
            }
        }
        let ghost before = balance@;
        match balance.add_posting(delta) {
            Ok(()) => {},
            Err(e) => {
                proof {
                    if plain {
                        if let PostingAmount::Single(sa) = delta {
                            lemma_add_entry_single(before, sa.commodity.0 as nat, sa.value@);
                        }
                        let dl = plain_deltas(store@, posts, i + 1);
                        assert(dl.drop_last() =~= deltas);
                        assert(amount_sum(dl) is None);
                        lemma_deltas_none(store@, posts, i + 1, n as int);
                        assert forall|k: int|
                            (#[trigger] zero_rate_at(store@, ctx.accounts@, bal0, posts, k) matches Some(sp)
                                ==> BookKeepError::EvalFailure(e) == BookKeepError::ZeroExchangeRate(sp)) by {
                            if zero_rate_at(store@, ctx.accounts@, bal0, posts, k) is Some {
                                if k < i {
                                    assert(!has_zero_rate(store@, posts[k].value));
                                } else if k == i {
                                    assert(has_zero_rate(store@, posts[i as int].value));
                                } else {
                                    lemma_deltas_none(store@, posts, i + 1, k);
                                }
                            }
                        }
                    }
                }
                return eval_failure(e);
            },
        }
        proof {
            let dv = posting_view(delta);
            match delta {
                PostingAmount::Zero => {
                    lemma_add_zero(before);
                },
                PostingAmount::Single(sa) => {
                    lemma_add_entry_single(before, sa.commodity.0 as nat, sa.value@);
                },
            }
            assert(deltas.push(dv).drop_last() =~= deltas);
            assert(booking_step(store@, ctx.accounts@, bal_before, posts[i as int].value, bal@, dv));
            let cs2 = cs.push(bal@);
            assert forall|k: int| 0 <= k < deltas.push(dv).len() implies booking_step(
                store@,
                ctx.accounts@,
                cs2[k],
                posts[k].value,
                cs2[k + 1],
                #[trigger] deltas.push(dv)[k],
            ) by {
                if k < i {
                    assert(deltas.push(dv)[k] == deltas[k]);
                    assert(booking_step(store@, accounts_before, cs[k], posts[k].value, cs[k + 1], deltas[k]));
                    assert(accounts_before.resolve(posts[k].value.account@) is Some);
                    assert(account_of(accounts_before, posts[k].value.account@) == account_of(
                        ctx.accounts@,
                        posts[k].value.account@,
                    ));
                }
            }
            cs = cs2;
            deltas = deltas.push(dv);
            assert forall|k: int| 0 <= k < i implies ctx.accounts@.resolve(
                (#[trigger] txn.posts[k]).value.account@,
            ) == Some(postings[k].account.0 as nat) by {
                assert(accounts_before.resolve(txn.posts[k].value.account@) is Some);
            }
        }
        postings.push(Posting { account, amount: Amount::from_posting(value) });
        i = i + 1;
    }
    match unfilled {
        Some(u) => {
            let k = u.value;
            let deduced = balance.clone().negate();
            let account = postings[k].account;
            let deduced_copy = deduced.clone();
            postings.set(k, Posting { account, amount: deduced_copy });
            bal.check_wf();
            let ghost b1 = bal@;
            match bal.add_amount(account, deduced) {
                Ok(_) => {},
                Err(e) => {
                    return eval_failure(e);
                },
            }
            bal.check_wf();
            proof {
                assert(deltas_agree(store, *txn, postings@, deltas, balance@));
                crate::query::lemma_bal_set(b1, bal@, account, bal_get(bal@, account)->0);
                if plain {
                    let w = choose|w: int| 0 <= w < n && is_unfilled(#[trigger] posts[w].value);
                    assert(is_unfilled(posts[k as int].value));
                    assert(w == k as int);
                }
                assert(account_of(ctx.accounts@, posts[k as int].value.account@) == account);
                assert(booking_completes(store, ctx.accounts@, posts, cs.last(), deltas, bal@, postings@));
            }
        },
        None => {
            match check_balance(ctx, balance.clone()) {
                Ok(()) => {},
                Err(e) => {
                    return Err(e);
                },
            }
            proof {
                assert(deltas_agree(store, *txn, postings@, deltas, balance@));
                assert(booking_completes(store, ctx.accounts@, posts, cs.last(), deltas, bal@, postings@));
            }
        },
    }
    assert(booked_chain(store@, ctx.accounts@, posts, cs, deltas));
    let t = Transaction { date: txn.date, postings };
    assert(postings_balance(store, *txn, t.postings@)) by {
        assert(deltas_agree(store, *txn, t.postings@, deltas, balance@));
    }
    Ok(t)
}

/// Number of transactions among the first `n` entries.
pub open spec fn txn_count(entries: Seq<syntax::LedgerEntry>, n: int) -> nat
    decreases n,
{
    if n <= 0 {
        0
    } else {
        txn_count(entries, n - 1) + if entries[n - 1] is Txn {
            1nat
        } else {
            0nat
        }
    }
}

/// The account declaration can be registered in the accounts `v`: its name is not only an
/// alias, and none of its aliases is a canonical name once the name is registered.
pub open spec fn account_declarable(v: InternView, a: syntax::AccountDeclaration) -> bool {
    &&& !(!v.is_canonical(a.name@) && v.is_alias(a.name@))
    &&& forall|i: int|
        0 <= i < a.details@.len() ==> (#[trigger] a.details@[i] matches syntax::AccountDetail::Alias(s)
            ==> !v.is_canonical(s@) && s@ != a.name@)
}

/// The commodity declaration can be registered in the commodities `v`: its name is not only
/// an alias, and none of its aliases is a canonical name once the name is registered.
pub open spec fn commodity_declarable(v: InternView, c: syntax::CommodityDeclaration) -> bool {
    &&& !(!v.is_canonical(c.name@) && v.is_alias(c.name@))
    &&& forall|i: int|
        0 <= i < c.details@.len() ==> (#[trigger] c.details@[i] matches syntax::CommodityDetail::Alias(s)
            ==> !v.is_canonical(s@) && s@ != c.name@)
}

/// `s` is among the first `n` aliases that the account declaration lists.
pub open spec fn account_alias_upto(a: syntax::AccountDeclaration, n: int, s: Seq<char>) -> bool {
    exists|k: int|
        0 <= k < n && k < a.details@.len() && (#[trigger] a.details@[k] matches syntax::AccountDetail::Alias(t)
            && t@ == s)
}

/// `s` is among the first `n` aliases that the commodity declaration lists.
pub open spec fn commodity_alias_upto(c: syntax::CommodityDeclaration, n: int, s: Seq<char>) -> bool {
    exists|k: int|
        0 <= k < n && k < c.details@.len() && (#[trigger] c.details@[k] matches syntax::CommodityDetail::Alias(t)
            && t@ == s)
}

/// Accumulates the transactions and the balance while the entries are processed.
pub struct ProcessAccumulator {
    pub balance: Balance,
    pub txns: Vec<Transaction>,
}

impl ProcessAccumulator {
    /// Empty accumulator.
    pub fn new() -> (r: Self)
        ensures
            r.balance@.len() == 0,
            r.txns.len() == 0,
    {
        ProcessAccumulator { balance: Balance::new(), txns: Vec::new() }
    }

    /// Processes one entry: books a transaction, or registers the declared account or
    /// commodity with its aliases (and the commodity's format).
    pub fn process(&mut self, ctx: &mut ReportContext, entry: &syntax::LedgerEntry) -> (r: Result<
        (),
        BookKeepError,
    >)
        ensures
            r is Ok && entry is Txn ==> final(self).txns.len() == old(self).txns.len() + 1,
            r is Ok && !(entry is Txn) ==> final(self).txns.len() == old(self).txns.len(),
            r is Ok && !(entry is Txn) ==> final(self).balance@ == old(self).balance@,
            r is Ok ==> (entry matches syntax::LedgerEntry::Account(a) ==> final(ctx).accounts@.resolve(
                a.name@,
            ) is Some),
            r is Ok ==> (entry matches syntax::LedgerEntry::Commodity(c) ==> final(ctx).commodities@.intern.resolve(c.name@) is Some),
            !(entry is Account) && !(entry is Commodity) ==> final(ctx).commodities@.formatting == old(ctx).commodities@.formatting,
            entry matches syntax::LedgerEntry::Account(a) ==> (r is Ok <==> account_declarable(
                old(ctx).accounts@,
                *a,
            )),
            entry matches syntax::LedgerEntry::Account(a) ==> (r matches Err(e) ==> e is InvalidAccount),
            entry matches syntax::LedgerEntry::Commodity(c) ==> (r is Ok <==> commodity_declarable(
                old(ctx).commodities@.intern,
                *c,
            )),
            entry matches syntax::LedgerEntry::Commodity(c) ==> (r matches Err(e) ==> e is InvalidCommodity),
            !(entry is Txn) && !(entry is Account) && !(entry is Commodity) ==> r is Ok
                && final(ctx).accounts@ == old(ctx).accounts@ && final(ctx).commodities@ == old(
                ctx,
            ).commodities@ && final(self).txns@ == old(self).txns@,
            !(entry is Txn) ==> final(self).txns@ == old(self).txns@,
            entry matches syntax::LedgerEntry::Txn(t) ==> ((forall|k: int|
                0 <= k < t.posts@.len() ==> is_plain((#[trigger] t.posts@[k]).value)) ==> (r is Ok
                <==> plain_booking(final(ctx).commodities, final(ctx).accounts@, old(self).balance@, *t) is Some)),
            entry matches syntax::LedgerEntry::Txn(t) ==> ((forall|k: int|
                0 <= k < t.posts@.len() ==> is_plain((#[trigger] t.posts@[k]).value)) && r is Ok
                ==> plain_booking(final(ctx).commodities, final(ctx).accounts@, old(self).balance@, *t) == Some(
                final(self).balance@,
            )),
            r is Ok ==> (entry matches syntax::LedgerEntry::Account(a) ==> {
                &&& forall|s: Seq<char>|
                    #[trigger] final(ctx).accounts@.is_canonical(s) <==> (old(ctx).accounts@.is_canonical(s)
                        || s == a.name@)
                &&& forall|s: Seq<char>|
                    #[trigger] final(ctx).accounts@.is_alias(s) <==> (old(ctx).accounts@.is_alias(s)
                        || account_alias_upto(*a, a.details@.len() as int, s))
                &&& final(ctx).commodities@ == old(ctx).commodities@
            }),
            r is Ok ==> (entry matches syntax::LedgerEntry::Commodity(c) ==> {
                &&& forall|s: Seq<char>|
                    #[trigger] final(ctx).commodities@.intern.is_canonical(s) <==> (old(
                        ctx,
                    ).commodities@.intern.is_canonical(s) || s == c.name@)
                &&& forall|s: Seq<char>|
                    #[trigger] final(ctx).commodities@.intern.is_alias(s) <==> (old(
                        ctx,
                    ).commodities@.intern.is_alias(s) || commodity_alias_upto(*c, c.details@.len() as int, s))
                &&& final(ctx).accounts@ == old(ctx).accounts@
            }),
    {
        match entry {
            syntax::LedgerEntry::Txn(txn) => {
                match add_transaction(ctx, &mut self.balance, txn) {
                    Ok(t) => {
                        self.txns.push(t);
                        Ok(())
                    },
                    Err(e) => Err(e),
                }
            },
            syntax::LedgerEntry::Account(account) => {
                let ghost start = ctx.accounts@;
                let canonical = match ctx.accounts.insert_canonical(account.name.as_str()) {
                    Ok(c) => c,
                    Err(e) => {
                        return Err(BookKeepError::InvalidAccount(e));
                    },
                };
                let ghost names = ctx.accounts@.names;
                let ghost mid = ctx.accounts@;
                proof {
                    crate::intern::lemma_same_alias(start, mid);
                }
                let mut i: usize = 0;
                while i < account.details.len()
                    invariant
                        i <= account.details.len(),
                        *entry == syntax::LedgerEntry::Account(*account),
                        canonical.0 < ctx.accounts@.names.len(),
                        ctx.accounts@.resolve(account.name@) == Some(canonical.0 as nat),
                        ctx.accounts@.names == names,
                        start == old(ctx).accounts@,
                        !(!start.is_canonical(account.name@) && start.is_alias(account.name@)),
                        forall|s: Seq<char>|
                            #[trigger] ctx.accounts@.is_canonical(s) <==> (start.is_canonical(s) || s
                                == account.name@),
                        mid.names == names,
                        forall|s: Seq<char>|
                            #[trigger] mid.is_canonical(s) <==> (start.is_canonical(s) || s == account.name@),
                        forall|k: int|
                            0 <= k < i ==> (#[trigger] account.details@[k] matches syntax::AccountDetail::Alias(s)
                                ==> !start.is_canonical(s@) && s@ != account.name@),
                        ctx.commodities@ == old(ctx).commodities@,
                        forall|s: Seq<char>|
                            #[trigger] ctx.accounts@.is_alias(s) <==> (start.is_alias(s) || account_alias_upto(
                                *account,
                                i as int,
                                s,
                            )),
                    decreases account.details.len() - i,
                {
                    let ghost iter_start = ctx.accounts@;
                    match &account.details[i] {
                        syntax::AccountDetail::Alias(alias) => {
                            ctx.accounts.check_wf();
                            let ghost before = ctx.accounts@;
                            match ctx.accounts.register_alias(alias.as_str(), canonical) {
                                Ok(()) => {},
                                Err(e) => {
                                    assert(!account_declarable(start, *account)) by {
                                        assert(before.is_canonical(alias@));
                                        assert(start.is_canonical(alias@) || alias@ == account.name@);
                                        assert(account.details@[i as int] matches syntax::AccountDetail::Alias(s) && s@ == alias@);
                                    }
                                    assert(!account_declarable(old(ctx).accounts@, *account));
                                    return Err(BookKeepError::InvalidAccount(e));
                                },
                            }
                            ctx.accounts.check_wf();
                            proof {
                                if !before.is_canonical(alias@) && !before.is_alias(alias@) {
                                    assert(before.is_canonical(account.name@) ==> ctx.accounts@.is_canonical(account.name@));
                                    assert(ctx.accounts@.resolve(account.name@) == Some(canonical.0 as nat)) by {
                                        if before.is_canonical(account.name@) {
                                            let k = before.canonical_index(account.name@);
                                            assert(ctx.accounts@.names[k] == account.name@);
                                        } else {
                                            let j = choose|j: int| 0 <= j < before.aliases.len() && before.aliases[j].0 == account.name@;
                                            assert(ctx.accounts@.aliases[j].0 == account.name@);
                                            if ctx.accounts@.is_alias(account.name@) {
                                                let j2 = choose|j2: int| 0 <= j2 < ctx.accounts@.aliases.len() && ctx.accounts@.aliases[j2].0 == account.name@;
                                                if j2 != j {
                                                    assert(ctx.accounts@.aliases[j2].0 != ctx.accounts@.aliases[j].0);
                                                }
                                            }
                                        }
                                    }
                                }
                            }
                        },
                        _ => {},
                    }
                    proof {
                        crate::intern::lemma_same_canonical(mid, ctx.accounts@);
                        match account.details@[i as int] {
                            syntax::AccountDetail::Alias(t) => {
                                crate::intern::lemma_alias_after(iter_start, ctx.accounts@, t@, canonical.0 as nat);
                            },
                            _ => {
                                crate::intern::lemma_same_alias(iter_start, ctx.accounts@);
                            },
                        }
                        assert forall|s: Seq<char>| #[trigger] ctx.accounts@.is_alias(s) <==> (start.is_alias(s)
                            || account_alias_upto(*account, i + 1, s)) by {
                            if account_alias_upto(*account, i + 1, s) && !account_alias_upto(*account, i as int, s) {
                                let k = choose|k: int| 0 <= k < i + 1 && k < account.details@.len() && (#[trigger] account.details@[k] matches syntax::AccountDetail::Alias(t) && t@ == s);
                                assert(k == i);
                            }
                            if account.details@[i as int] matches syntax::AccountDetail::Alias(t) && t@ == s {
                                assert(account_alias_upto(*account, i + 1, s));
                            }
                            if account_alias_upto(*account, i as int, s) {
                                let k = choose|k: int| 0 <= k < i && k < account.details@.len() && (#[trigger] account.details@[k] matches syntax::AccountDetail::Alias(t) && t@ == s);
                                assert(account_alias_upto(*account, i + 1, s));
                            }
                        }
                    }
                    i = i + 1;
                }
                Ok(())
            },
            syntax::LedgerEntry::Commodity(commodity) => {
                let ghost start = ctx.commodities@.intern;
                let canonical = match ctx.commodities.insert(commodity.name.as_str()) {
                    Ok(c) => c,
                    Err(e) => {
                        return Err(BookKeepError::InvalidCommodity(e));
                    },
                };
                let ghost names = ctx.commodities@.intern.names;
                let ghost mid = ctx.commodities@.intern;
                proof {
                    crate::intern::lemma_same_alias(start, mid);
                }
                let mut i: usize = 0;
                while i < commodity.details.len()
                    invariant
                        i <= commodity.details.len(),
                        *entry == syntax::LedgerEntry::Commodity(*commodity),
                        canonical.0 < ctx.commodities@.intern.names.len(),
                        ctx.commodities@.intern.resolve(commodity.name@) == Some(canonical.0 as nat),
                        ctx.commodities@.intern.names == names,
                        start == old(ctx).commodities@.intern,
                        !(!start.is_canonical(commodity.name@) && start.is_alias(commodity.name@)),
                        forall|s: Seq<char>|
                            #[trigger] ctx.commodities@.intern.is_canonical(s) <==> (start.is_canonical(s)
                                || s == commodity.name@),
                        mid.names == names,
                        forall|s: Seq<char>|
                            #[trigger] mid.is_canonical(s) <==> (start.is_canonical(s) || s == commodity.name@),
                        forall|k: int|
                            0 <= k < i ==> (#[trigger] commodity.details@[k] matches syntax::CommodityDetail::Alias(s)
                                ==> !start.is_canonical(s@) && s@ != commodity.name@),
                        ctx.accounts@ == old(ctx).accounts@,
                        forall|s: Seq<char>|
                            #[trigger] ctx.commodities@.intern.is_alias(s) <==> (start.is_alias(s)
                                || commodity_alias_upto(*commodity, i as int, s)),
                    decreases commodity.details.len() - i,
                {
                    let ghost iter_start = ctx.commodities@.intern;
                    match &commodity.details[i] {
                        syntax::CommodityDetail::Alias(alias) => {
                            let ghost before = ctx.commodities@.intern;
                            match ctx.commodities.insert_alias(alias.as_str(), canonical) {
                                Ok(()) => {},
                                Err(e) => {
                                    assert(!commodity_declarable(start, *commodity)) by {
                                        assert(before.is_canonical(alias@));
                                        assert(start.is_canonical(alias@) || alias@ == commodity.name@);
                                        assert(commodity.details@[i as int] matches syntax::CommodityDetail::Alias(s) && s@ == alias@);
                                    }
                                    return Err(BookKeepError::InvalidCommodity(e));
                                },
                            }
                            ctx.commodities.check_wf();
                            proof {
                                let after = ctx.commodities@.intern;
                                if !before.is_canonical(alias@) && !before.is_alias(alias@) {
                                    assert(after.resolve(commodity.name@) == Some(canonical.0 as nat)) by {
                                        if before.is_canonical(commodity.name@) {
                                            let k = before.canonical_index(commodity.name@);
                                            assert(after.names[k] == commodity.name@);
                                        } else {
                                            let j = choose|j: int| 0 <= j < before.aliases.len() && before.aliases[j].0 == commodity.name@;
                                            assert(after.aliases[j].0 == commodity.name@);
                                            assert(after.is_alias(commodity.name@));
                                            assert(!after.is_canonical(commodity.name@));
                                            let j2 = choose|j2: int| 0 <= j2 < after.aliases.len() && after.aliases[j2].0 == commodity.name@;
                                            if j2 != j {
                                                assert(after.wf());
                                                assert(after.aliases[j2].0 != after.aliases[j].0);
                                            }
                                        }
                                    }
                                }
                            }
                        },
                        syntax::CommodityDetail::Format(format_amount) => {
                            ctx.commodities.set_format(canonical, format_amount.value);
                        },
                        _ => {},
                    }
                    proof {
                        crate::intern::lemma_same_canonical(mid, ctx.commodities@.intern);
                        match commodity.details@[i as int] {
                            syntax::CommodityDetail::Alias(t) => {
                                crate::intern::lemma_alias_after(iter_start, ctx.commodities@.intern, t@, canonical.0 as nat);
                            },
                            _ => {
                                crate::intern::lemma_same_alias(iter_start, ctx.commodities@.intern);
                            },
                        }
                        assert forall|s: Seq<char>| #[trigger] ctx.commodities@.intern.is_alias(s) <==> (start.is_alias(s)
                            || commodity_alias_upto(*commodity, i + 1, s)) by {
                            if commodity_alias_upto(*commodity, i + 1, s) && !commodity_alias_upto(*commodity, i as int, s) {
                                let k = choose|k: int| 0 <= k < i + 1 && k < commodity.details@.len() && (#[trigger] commodity.details@[k] matches syntax::CommodityDetail::Alias(t) && t@ == s);
                                assert(k == i);
                            }
                            if commodity.details@[i as int] matches syntax::CommodityDetail::Alias(t) && t@ == s {
                                assert(commodity_alias_upto(*commodity, i + 1, s));
                            }
                            if commodity_alias_upto(*commodity, i as int, s) {
                                let k = choose|k: int| 0 <= k < i && k < commodity.details@.len() && (#[trigger] commodity.details@[k] matches syntax::CommodityDetail::Alias(t) && t@ == s);
                                assert(commodity_alias_upto(*commodity, i + 1, s));
                            }
                        }
                    }
                    i = i + 1;
                }
                Ok(())
            },
            _ => Ok(()),
        }
    }
}

/// The exchange a posting records a price from: its cost, else its lot price.
pub open spec fn event_exchange(pa: syntax::PostingAmount) -> Option<syntax::Exchange> {
    match pa.cost {
        Some(c) => Some(c.value),
        None => match pa.lot.price {
            Some(l) => Some(l.value),
            None => None,
        },
    }
}

/// The price a posting records on the date, from the exchange of [`event_exchange`]: a rate
/// prices one unit of the posting's commodity, a total prices the posting's amount (both
/// taken positive).
#[verifier::spinoff_prover]
#[verifier::rlimit(30)]
pub fn posting_price_event(ctx: &ReportContext, pa: &syntax::PostingAmount, date: Date) -> (r: Result<
    Option<PriceEvent>,
    BookKeepError,
>)
    ensures
        event_exchange(*pa) is None ==> r matches Ok(None),
        event_exchange(*pa) is Some ==> !(r matches Ok(None)),
        r matches Ok(Some(e)) ==> {
            &&& e.date == date
            &&& event_exchange(*pa) matches Some(x)
            &&& eval_expr(ctx.commodities@, pa.amount.value) matches Ok(v)
            &&& exists|d: Decimal|
                posting_value_of(v) == Some(
                    posting_view(PostingAmount::Single(SingleAmount { commodity: e.price_x.commodity, value: d })),
                ) && e.price_x.value@ == (if x is Rate { (false, 1nat, 0nat) } else { (false, d@.1, d@.2) })
            &&& eval_expr(ctx.commodities@, exchange_expr(x)) matches Ok(w)
            &&& single_of(w) matches Some(s)
            &&& e.price_y.commodity.0 == s.0
            &&& e.price_y.value@ == (if x is Rate { s.1 } else { (false, s.1.1, s.1.2) })
        },
{
    let exchange = match &pa.cost {
        Some(c) => c,
        None => match &pa.lot.price {
            Some(l) => l,
            None => {
                return Ok(None);
            },
        },
    };
    let amount = match eval(&pa.amount.value, ctx) {
        Ok(v) => match v.into_posting() {
            Ok(p) => p,
            Err(e) => {
                return eval_failure(e);
            },
        },
        Err(e) => {
            return eval_failure(e);
        },
    };
    let x = match exchange_from_syntax(ctx, pa, &amount, exchange) {
        Ok(x) => x,
        Err(e) => {
            return Err(e);
        },
    };
    proof {
        assert(event_exchange(*pa) == Some(exchange.value));
        assert(exchange_rate(ctx.commodities@, exchange.value) == Some(
            (exchange_single(x).commodity.0 as nat, exchange_single(x).value@),
        ));
    }
    match amount {
        PostingAmount::Zero => Err(BookKeepError::ZeroAmountWithExchange(exchange.span())),
        PostingAmount::Single(a) => {
            let e = match x {
                Exchange::Rate(rate) => PriceEvent {
                    date,
                    price_x: SingleAmount { commodity: a.commodity, value: Decimal::one() },
                    price_y: rate,
                },
                Exchange::Total(total) => PriceEvent { date, price_x: a.abs(), price_y: total.abs() },
            };
            Ok(Some(e))
        },
    }
}

/// The posting records a price: it has an amount with a cost or a lot price.
pub open spec fn records_price(p: syntax::Posting) -> bool {
    p.amount matches Some(pa) && event_exchange(pa) is Some
}

/// Number of postings among the first `n` that record a price.
pub open spec fn priced_count(posts: Seq<TrackedValue<syntax::Posting>>, n: int) -> nat
    decreases n,
{
    if n <= 0 {
        0
    } else {
        priced_count(posts, n - 1) + if records_price(posts[n - 1].value) {
            1nat
        } else {
            0nat
        }
    }
}

proof fn lemma_priced_zero(posts: Seq<TrackedValue<syntax::Posting>>, n: int)
    requires
        priced_count(posts, n) == 0,
    ensures
        forall|k: int| 0 <= k < n ==> !records_price(#[trigger] posts[k].value),
    decreases n,
{
    if n > 0 {
        lemma_priced_zero(posts, n - 1);
    }
}

/// The prices that the postings of the transaction record, in order, see
/// [`posting_price_event`]: one for each posting that records a price.
pub fn transaction_price_events(ctx: &ReportContext, txn: &syntax::Transaction) -> (r: Result<
    Vec<PriceEvent>,
    BookKeepError,
>)
    ensures
        r matches Ok(v) ==> forall|i: int| 0 <= i < v@.len() ==> (#[trigger] v@[i]).date == txn.date,
        r matches Ok(v) ==> v@.len() == priced_count(txn.posts@, txn.posts@.len() as int),
        priced_count(txn.posts@, txn.posts@.len() as int) == 0 ==> (r matches Ok(v) && v@.len() == 0),
{
    let mut events: Vec<PriceEvent> = Vec::new();
    let mut i: usize = 0;
    proof {
        if priced_count(txn.posts@, txn.posts@.len() as int) == 0 {
            lemma_priced_zero(txn.posts@, txn.posts@.len() as int);
        }
    }
    while i < txn.posts.len()
        invariant
            i <= txn.posts@.len(),
            forall|k: int| 0 <= k < events@.len() ==> (#[trigger] events@[k]).date == txn.date,
            events@.len() == priced_count(txn.posts@, i as int),
            priced_count(txn.posts@, txn.posts@.len() as int) == 0 ==> priced_count(txn.posts@, i as int) == 0
                && forall|k: int| i <= k < txn.posts@.len() ==> !records_price(#[trigger] txn.posts@[k].value),
        decreases txn.posts@.len() - i,
    {
        match &txn.posts[i].value.amount {
            Some(pa) => match posting_price_event(ctx, pa, txn.date) {
                Ok(Some(e)) => events.push(e),
                Ok(None) => {},
                Err(e) => {
                    return Err(e);
                },
            },
            None => {},
        }
        i = i + 1;
    }
    Ok(events)
}

/// The commodities that the amount of the posting names (in its value, cost and lot price)
/// are registered in `store`.
pub open spec fn amount_names_resolve(store: InternView, p: syntax::Posting) -> bool {
    p.amount matches Some(pa) ==> {
        &&& names_resolve(store, pa.amount.value)
        &&& pa.cost matches Some(c) ==> names_resolve(store, exchange_expr(c.value))
        &&& pa.lot.price matches Some(l) ==> names_resolve(store, exchange_expr(l.value))
    }
}

/// The commodities that the posting names (in its amount, cost, lot price and balance) are
/// registered in `store`.
pub open spec fn posting_names_resolve(store: InternView, p: syntax::Posting) -> bool {
    &&& amount_names_resolve(store, p)
    &&& p.balance matches Some(b) ==> names_resolve(store, b.value)
}

proof fn lemma_amount_names_extended(s1: CommodityStoreView, s2: CommodityStoreView, p: syntax::Posting)
    requires
        s1.intern.extended_by(s2.intern),
        amount_names_resolve(s1.intern, p),
    ensures
        amount_names_resolve(s2.intern, p),
{
    if let Some(pa) = p.amount {
        lemma_eval_extended(s1, s2, pa.amount.value);
        if let Some(c) = pa.cost {
            lemma_eval_extended(s1, s2, exchange_expr(c.value));
        }
        if let Some(l) = pa.lot.price {
            lemma_eval_extended(s1, s2, exchange_expr(l.value));
        }
    }
}

proof fn lemma_posting_names_extended(s1: CommodityStoreView, s2: CommodityStoreView, p: syntax::Posting)
    requires
        s1.intern.extended_by(s2.intern),
        posting_names_resolve(s1.intern, p),
    ensures
        posting_names_resolve(s2.intern, p),
{
    lemma_amount_names_extended(s1, s2, p);
    if let Some(b) = p.balance {
        lemma_eval_extended(s1, s2, b.value);
    }
}

/// Registers the commodities a transaction names: of each posting, those of its amount, cost,
/// lot price and balance, in order.
fn register_transaction_commodities(ctx: &mut ReportContext, txn: &syntax::Transaction)
    ensures
        old(ctx).commodities@.intern.extended_by(final(ctx).commodities@.intern),
        final(ctx).commodities@.formatting == old(ctx).commodities@.formatting,
        final(ctx).accounts@ == old(ctx).accounts@,
        forall|k: int|
            0 <= k < txn.posts@.len() ==> posting_names_resolve(
                final(ctx).commodities@.intern,
                #[trigger] txn.posts@[k].value,
            ),
{
    let ghost start = ctx.commodities@.intern;
    let mut i: usize = 0;
    while i < txn.posts.len()
        invariant
            i <= txn.posts@.len(),
            start == old(ctx).commodities@.intern,
            start.extended_by(ctx.commodities@.intern),
            ctx.commodities@.formatting == old(ctx).commodities@.formatting,
            ctx.accounts@ == old(ctx).accounts@,
            forall|k: int|
                0 <= k < i ==> posting_names_resolve(
                    ctx.commodities@.intern,
                    #[trigger] txn.posts@[k].value,
                ),
        decreases txn.posts@.len() - i,
    {
        let ghost before = ctx.commodities@.intern;
        let ghost sv0 = ctx.commodities@;
        let p = &txn.posts[i].value;
        match &p.amount {
            Some(pa) => {
                crate::eval::register_commodities(&pa.amount.value, ctx);
                match &pa.cost {
                    Some(c) => {
                        let ghost g = ctx.commodities@;
                        crate::eval::register_commodities(exchange_expr_of(&c.value), ctx);
                        proof {
                            lemma_eval_extended(g, ctx.commodities@, pa.amount.value);
                        }
                    },
                    None => {},
                }
                match &pa.lot.price {
                    Some(l) => {
                        let ghost g = ctx.commodities@;
                        crate::eval::register_commodities(exchange_expr_of(&l.value), ctx);
                        proof {
                            lemma_eval_extended(g, ctx.commodities@, pa.amount.value);
                            if pa.cost is Some {
                                lemma_eval_extended(g, ctx.commodities@, exchange_expr(pa.cost->0.value));
                            }
                        }
                    },
                    None => {},
                }
            },
            None => {},
        }
        assert(amount_names_resolve(ctx.commodities@.intern, *p));
        let ghost sv1 = ctx.commodities@;
        match &p.balance {
            Some(b) => {
                crate::eval::register_commodities(&b.value, ctx);
                proof {
                    lemma_amount_names_extended(sv1, ctx.commodities@, *p);
                }
            },
            None => {},
        }
        proof {
            crate::intern::lemma_extended_trans(sv0.intern, sv1.intern, ctx.commodities@.intern);
            assert forall|k: int| 0 <= k < i + 1 implies posting_names_resolve(
                ctx.commodities@.intern,
                #[trigger] txn.posts@[k].value,
            ) by {
                if k < i {
                    lemma_posting_names_extended(sv0, ctx.commodities@, txn.posts@[k].value);
                }
            }
        }
        assert forall|x: Seq<char>| start.resolve(x) is Some implies #[trigger] ctx.commodities@.intern.resolve(x)
            == start.resolve(x) by {
            assert(before.resolve(x) == start.resolve(x));
        }
        i = i + 1;
    }
}

/// Books the transaction: registers its commodities and accounts, evaluates its postings in
/// order (a balance assertion `= X` without amount sets the account's balance to `X` and adds
/// the difference from the previous balance, see [`booking_step`]), deduces the amount of the
/// posting without amount (at most one) as the negated sum of the others, checks that the
/// postings balance otherwise, and updates the balance.
pub fn add_transaction(ctx: &mut ReportContext, bal: &mut Balance, txn: &syntax::Transaction) -> (r:
    Result<Transaction, BookKeepError>)
    ensures
        old(ctx).commodities@.intern.extended_by(final(ctx).commodities@.intern),
        final(ctx).commodities@.formatting == old(ctx).commodities@.formatting,
        old(ctx).accounts@.extended_by(final(ctx).accounts@),
        r matches Ok(t) ==> t.date == txn.date && t.postings.len() == txn.posts.len(),
        r matches Ok(t) ==> forall|k: int|
            0 <= k < t.postings.len() ==> final(ctx).accounts@.resolve(
                (#[trigger] txn.posts[k]).value.account@,
            ) == Some(t.postings[k].account.0 as nat),
        r matches Ok(t) ==> forall|k: int, l: int|
            0 <= k < l < txn.posts.len() ==> !(is_unfilled((#[trigger] txn.posts[k]).value)
                && is_unfilled((#[trigger] txn.posts[l]).value)),
        r matches Ok(t) ==> forall|k: int|
            0 <= k < t.postings.len() ==> ((#[trigger] txn.posts[k]).value.amount matches Some(pa)
                ==> (eval_expr(final(ctx).commodities@, pa.amount.value) matches Ok(x)
                && posting_value_of(x) == Some(t.postings[k].amount@))),
        r matches Ok(t) ==> postings_balance(final(ctx).commodities, *txn, t.postings@),
        r matches Err(BookKeepError::UndeduciblePostingAmount(f, s)) ==> f.value < s.value
            < txn.posts.len() && is_unfilled(txn.posts[f.value as int].value) && is_unfilled(
            txn.posts[s.value as int].value,
        ),
        (forall|k: int| 0 <= k < txn.posts@.len() ==> is_plain((#[trigger] txn.posts@[k]).value)) ==> (r is Ok
            <==> plain_booking(final(ctx).commodities, final(ctx).accounts@, old(bal)@, *txn) is Some),
        (forall|k: int| 0 <= k < txn.posts@.len() ==> is_plain((#[trigger] txn.posts@[k]).value)) && r is Ok
            ==> plain_booking(final(ctx).commodities, final(ctx).accounts@, old(bal)@, *txn) == Some(final(bal)@),
        (forall|k: int| 0 <= k < txn.posts@.len() ==> is_plain((#[trigger] txn.posts@[k]).value)) ==> forall|k: int|
            (#[trigger] zero_rate_at(final(ctx).commodities@, final(ctx).accounts@, old(bal)@, txn.posts@, k) matches Some(sp)
                ==> r == Err::<Transaction, BookKeepError>(BookKeepError::ZeroExchangeRate(sp))),
        (forall|k: int| 0 <= k < txn.posts@.len() ==> is_plain((#[trigger] txn.posts@[k]).value))
            && amounts_evaluate(final(ctx).commodities@, txn.posts@) && amount_sum(
            plain_deltas(final(ctx).commodities@, txn.posts@, txn.posts@.len() as int),
        ) is Some && bal_fold(
            old(bal)@,
            plain_pairs(final(ctx).commodities@, final(ctx).accounts@, txn.posts@, txn.posts@.len() as int),
        ) is Some && unfilled_count(txn.posts@, txn.posts@.len() as int) >= 2 ==> (r matches Err(
            BookKeepError::UndeduciblePostingAmount(f, s),
        ) && f.span == txn.posts@[f.value as int].span && s.span == txn.posts@[s.value as int].span
            && unfilled_count(txn.posts@, s.value as int) == 1),
        (forall|k: int| 0 <= k < txn.posts@.len() ==> is_plain((#[trigger] txn.posts@[k]).value)) ==> (r matches Ok(t)
            ==> forall|k: int|
            0 <= k < t.postings.len() && is_unfilled((#[trigger] txn.posts@[k]).value) ==> Some(
                amount_neg(t.postings[k].amount@),
            ) == amount_sum(plain_deltas(final(ctx).commodities@, txn.posts@, txn.posts@.len() as int))),
        r matches Ok(t) ==> exists|cs: Seq<BalanceView>, ds: Seq<AmountView>|
            #[trigger] booked_chain(final(ctx).commodities@, final(ctx).accounts@, txn.posts@, cs, ds) && ds.len()
                == txn.posts@.len() && cs[0] == old(bal)@ && booking_completes(
                final(ctx).commodities,
                final(ctx).accounts@,
                txn.posts@,
                cs.last(),
                ds,
                final(bal)@,
                t.postings@,
            ),
{
    register_transaction_commodities(ctx, txn);
    let ghost mid = ctx.commodities@.intern;
    let r = book_transaction(ctx, bal, txn);
    assert forall|x: Seq<char>| old(ctx).commodities@.intern.resolve(x) is Some implies #[trigger] ctx.commodities@.intern.resolve(x)
        == old(ctx).commodities@.intern.resolve(x) by {
        assert(mid.resolve(x) == old(ctx).commodities@.intern.resolve(x));
    }
    r
}

} // verus!
