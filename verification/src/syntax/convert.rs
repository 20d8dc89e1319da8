//! The syntax of imported transactions, so that they are printed as Ledger text.
use crate::data;
use crate::pretty::PrettyDecimal;
use crate::syntax::expr::{Amount, Expr, ValueExpr};
use crate::syntax::span::{TrackedSpan, TrackedValue};
use crate::syntax::{ClearState, Exchange, Lot, Metadata, MetadataValue, Posting, PostingAmount, Transaction};
use vstd::prelude::*;

verus! {

/// The clear state of the syntax.
pub open spec fn clear_of(c: data::ClearState) -> ClearState {
    match c {
        data::ClearState::Uncleared => ClearState::Uncleared,
        data::ClearState::Cleared => ClearState::Cleared,
        data::ClearState::Pending => ClearState::Pending,
    }
}

/// The clear state of the syntax, see [`clear_of`].
pub fn clear_state_from(c: data::ClearState) -> (r: ClearState)
    ensures
        r == clear_of(c),
{
    match c {
        data::ClearState::Uncleared => ClearState::Uncleared,
        data::ClearState::Cleared => ClearState::Cleared,
        data::ClearState::Pending => ClearState::Pending,
    }
}

/// The expression is the amount, as a literal without a format.
pub open spec fn is_amount_expr(e: Expr, a: data::Amount) -> bool {
    &&& e matches Expr::Value(v)
    &&& *v matches ValueExpr::Amount(x)
    &&& x.value.format is None
    &&& x.value.value == a.value
    &&& x.commodity@ == a.commodity@
}

/// The amount as a literal expression without a format.
pub fn amount_expr(a: data::Amount) -> (r: Expr)
    ensures
        is_amount_expr(r, a),
{
    Expr::Value(Box::new(ValueExpr::Amount(Amount { value: PrettyDecimal::unformatted(a.value), commodity: a.commodity })))
}

/// The exchange is that of the data, with its amount as a literal.
pub open spec fn is_exchange_of(x: Exchange, e: data::Exchange) -> bool {
    match (x, e) {
        (Exchange::Total(t), data::Exchange::Total(a)) => is_amount_expr(t, a),
        (Exchange::Rate(t), data::Exchange::Rate(a)) => is_amount_expr(t, a),
        _ => false,
    }
}

/// The metadata is the tag `Payee: payee`.
pub open spec fn is_payee_tag(m: Metadata, payee: Seq<char>) -> bool {
    &&& m matches Metadata::KeyValueTag { key, value }
    &&& key@ == "Payee"@
    &&& value matches MetadataValue::Text(t)
    &&& t@ == payee
}

/// The posting of the data: the same account and clear state, the amount and the balance as
/// literals (the exchange as the cost, no lot), and the payee as a `Payee` tag.
pub open spec fn is_posting_of(p: Posting, d: data::Posting) -> bool {
    &&& p.account@ == d.account@
    &&& p.clear_state == clear_of(d.clear_state)
    &&& match (p.amount, d.amount) {
        (Some(pa), Some(x)) => {
            &&& is_amount_expr(pa.amount.value, x.amount)
            &&& match (pa.cost, x.exchange) {
                (Some(c), Some(e)) => is_exchange_of(c.value, e),
                (None, None) => true,
                _ => false,
            }
            &&& pa.lot.price is None && pa.lot.date is None && pa.lot.note is None
        },
        (None, None) => true,
        _ => false,
    }
    &&& match (p.balance, d.balance) {
        (Some(b), Some(a)) => is_amount_expr(b.value, a),
        (None, None) => true,
        _ => false,
    }
    &&& match d.payee {
        Some(v) => p.metadata@.len() == 1 && is_payee_tag(p.metadata@[0], v@),
        None => p.metadata@.len() == 0,
    }
}

/// The transaction of the data: the same date, effective date, code and payee, the clear state
/// of the syntax, no metadata, and the postings of the data's.
pub open spec fn is_transaction_of(t: Transaction, d: data::Transaction) -> bool {
    &&& t.date == d.date
    &&& t.effective_date == d.effective_date
    &&& t.clear_state == clear_of(d.clear_state)
    &&& match (t.code, d.code) {
        (Some(a), Some(b)) => a@ == b@,
        (None, None) => true,
        _ => false,
    }
    &&& t.payee@ == d.payee@
    &&& t.metadata@.len() == 0
    &&& t.posts@.len() == d.posts@.len()
    &&& forall|i: int| 0 <= i < d.posts@.len() ==> is_posting_of(#[trigger] t.posts@[i].value, d.posts@[i])
}

/// The exchange as the syntax's, see [`is_exchange_of`].
pub fn exchange_from(e: data::Exchange) -> (r: Exchange)
    ensures
        is_exchange_of(r, e),
{
    match e {
        data::Exchange::Total(a) => Exchange::Total(amount_expr(a)),
        data::Exchange::Rate(a) => Exchange::Rate(amount_expr(a)),
    }
}

/// An untracked value: one without a source.
fn untracked<T>(value: T) -> (r: TrackedValue<T>)
    ensures
        r.value == value,
{
    TrackedValue::new(value, TrackedSpan::new(0, 0))
}

/// The posting as the syntax's, see [`is_posting_of`].
pub fn posting_from(d: data::Posting) -> (r: Posting)
    ensures
        is_posting_of(r, d),
{
    let ghost orig = d;
    let metadata = match d.payee {
        Some(v) => vec![Metadata::KeyValueTag { key: "Payee".to_string(), value: MetadataValue::Text(v) }],
        None => Vec::new(),
    };
    let amount = match d.amount {
        Some(x) => Some(
            PostingAmount {
                amount: untracked(amount_expr(x.amount)),
                cost: match x.exchange {
                    Some(e) => Some(untracked(exchange_from(e))),
                    None => None,
                },
                lot: Lot { price: None, date: None, note: None },
            },
        ),
        None => None,
    };
    let balance = match d.balance {
        Some(b) => Some(untracked(amount_expr(b))),
        None => None,
    };
    let r = Posting { account: d.account, clear_state: clear_state_from(d.clear_state), amount, balance, metadata };
    assert(is_posting_of(r, orig));
    r
}

/// The transaction as the syntax's, see [`is_transaction_of`].
pub fn transaction_from(d: data::Transaction) -> (r: Transaction)
    ensures
        is_transaction_of(r, d),
{
    let ghost orig = d;
    let data::Transaction { date, effective_date, clear_state, code, payee, posts } = d;
    let mut converted: Vec<TrackedValue<Posting>> = Vec::new();
    let n = posts.len();
    let mut rest = posts;
    let ghost all = rest@;
    let mut i: usize = 0;
    while rest.len() > 0
        invariant
            all == orig.posts@,
            all.len() == n,
            i + rest@.len() == all.len(),
            rest@ == all.subrange(i as int, all.len() as int),
            converted@.len() == i,
            forall|k: int| 0 <= k < i ==> is_posting_of(#[trigger] converted@[k].value, all[k]),
        decreases rest@.len(),
    {
        let p = rest.remove(0);
        assert(p == all[i as int]);
        converted.push(untracked(posting_from(p)));
        i = i + 1;
        assert(rest@ =~= all.subrange(i as int, all.len() as int));
    }
    let r = Transaction {
        date,
        effective_date,
        clear_state: clear_state_from(clear_state),
        code,
        payee,
        posts: converted,
        metadata: Vec::new(),
    };
    assert(is_transaction_of(r, orig));
    r
}

} // verus!
