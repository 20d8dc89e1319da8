//! Processing of the entries of a Ledger into booked transactions, balance and prices.
use crate::book_keeping::{
    account_alias_upto, commodity_alias_upto, transaction_price_events, BookKeepError, ProcessAccumulator,
};
use crate::intern::InternView;
use crate::context::ReportContext;
use crate::price_db::{PriceRepositoryBuilder, PriceSource};
use crate::query::Ledger;
use crate::syntax::LedgerEntry;
use vstd::prelude::*;

verus! {

/// Number of transactions among the entries.
pub open spec fn txn_count(entries: Seq<LedgerEntry>) -> nat
    decreases entries.len(),
{
    if entries.len() == 0 {
        0
    } else {
        txn_count(entries.drop_last()) + if entries.last() is Txn { 1nat } else { 0nat }
    }
}

/// What is registered: the canonical account names, the account aliases, the canonical
/// commodity names and the commodity aliases.
pub type Registered = (Set<Seq<char>>, Set<Seq<char>>, Set<Seq<char>>, Set<Seq<char>>);

/// What the account and commodity stores register.
pub open spec fn registered(accounts: InternView, commodities: InternView) -> Registered {
    (
        Set::new(|s: Seq<char>| accounts.is_canonical(s)),
        Set::new(|s: Seq<char>| accounts.is_alias(s)),
        Set::new(|s: Seq<char>| commodities.is_canonical(s)),
        Set::new(|s: Seq<char>| commodities.is_alias(s)),
    )
}

/// The entry has no transaction to book, and its declaration, if any, is accepted after what
/// is registered: the declared name is not only an alias, and none of its aliases is a
/// canonical name or the declared name. Gives what is registered after it.
pub open spec fn declaration_step(st: Registered, e: LedgerEntry) -> Option<Registered> {
    match e {
        LedgerEntry::Account(a) => if !(!st.0.contains(a.name@) && st.1.contains(a.name@)) && forall|i: int|
            0 <= i < a.details@.len() ==> (#[trigger] a.details@[i] matches crate::syntax::AccountDetail::Alias(t)
                ==> !st.0.contains(t@) && t@ != a.name@) {
            Some(
                (
                    st.0.insert(a.name@),
                    st.1.union(Set::new(|s: Seq<char>| account_alias_upto(a, a.details@.len() as int, s))),
                    st.2,
                    st.3,
                ),
            )
        } else {
            None
        },
        LedgerEntry::Commodity(c) => if !(!st.2.contains(c.name@) && st.3.contains(c.name@)) && forall|i: int|
            0 <= i < c.details@.len() ==> (#[trigger] c.details@[i] matches crate::syntax::CommodityDetail::Alias(t)
                ==> !st.2.contains(t@) && t@ != c.name@) {
            Some(
                (
                    st.0,
                    st.1,
                    st.2.insert(c.name@),
                    st.3.union(Set::new(|s: Seq<char>| commodity_alias_upto(c, c.details@.len() as int, s))),
                ),
            )
        } else {
            None
        },
        _ => Some(st),
    }
}

/// The declarations of the entries accepted in order (see [`declaration_step`]), from what
/// is registered; `None` at the first one refused.
pub open spec fn declarations_run(st: Registered, es: Seq<LedgerEntry>) -> Option<Registered>
    decreases es.len(),
{
    if es.len() == 0 {
        Some(st)
    } else {
        match declarations_run(st, es.drop_last()) {
            Some(t) => declaration_step(t, es.last()),
            None => None,
        }
    }
}

proof fn lemma_run_none(st: Registered, es: Seq<LedgerEntry>, j: int)
    requires
        0 <= j <= es.len(),
        declarations_run(st, es.subrange(0, j)) is None,
    ensures
        declarations_run(st, es) is None,
    decreases es.len() - j,
{
    if j == es.len() {
        assert(es.subrange(0, j) =~= es);
    } else {
        assert(es.subrange(0, j + 1).drop_last() =~= es.subrange(0, j));
        lemma_run_none(st, es, j + 1);
    }
}

/// Processes the entries in order: books each transaction (see
/// [`add_transaction`](crate::book_keeping::add_transaction)), registers the declared
/// accounts and commodities, and records the prices the postings give (see
/// [`posting_price_event`](crate::book_keeping::posting_price_event)); the first error
/// stops it. The Ledger has one booked transaction per transaction entry.
pub fn process(ctx: &mut ReportContext, entries: &Vec<LedgerEntry>) -> (r: Result<Ledger, BookKeepError>)
    ensures
        r matches Ok(l) ==> l.transactions@.len() == txn_count(entries@),
        (forall|k: int| 0 <= k < entries@.len() ==> !(#[trigger] entries@[k] is Txn)) ==> (r is Ok
            <==> declarations_run(registered(old(ctx).accounts@, old(ctx).commodities@.intern), entries@)
            is Some),
        (forall|k: int| 0 <= k < entries@.len() ==> !(#[trigger] entries@[k] is Txn)) && r is Ok
            ==> declarations_run(registered(old(ctx).accounts@, old(ctx).commodities@.intern), entries@)
            == Some(registered(final(ctx).accounts@, final(ctx).commodities@.intern)),
{
    let mut accum = ProcessAccumulator::new();
    let mut prices = PriceRepositoryBuilder::new();
    let mut i: usize = 0;
    assert(entries@.subrange(0, 0) =~= Seq::<LedgerEntry>::empty());
    while i < entries.len()
        invariant
            i <= entries@.len(),
            accum.txns@.len() == txn_count(entries@.subrange(0, i as int)),
            (forall|k: int| 0 <= k < entries@.len() ==> !(#[trigger] entries@[k] is Txn))
                ==> declarations_run(registered(old(ctx).accounts@, old(ctx).commodities@.intern), entries@.subrange(0, i as int))
                == Some(registered(ctx.accounts@, ctx.commodities@.intern)),
        decreases entries@.len() - i,
    {
        assert(entries@.subrange(0, i + 1).drop_last() =~= entries@.subrange(0, i as int));
        let ghost st0 = registered(old(ctx).accounts@, old(ctx).commodities@.intern);
        let ghost pre = registered(ctx.accounts@, ctx.commodities@.intern);
        let ghost pre_acc = ctx.accounts@;
        let ghost pre_com = ctx.commodities@.intern;
        match accum.process(ctx, &entries[i]) {
            Ok(()) => {},
            Err(e) => {
                proof {
                    if forall|k: int| 0 <= k < entries@.len() ==> !(#[trigger] entries@[k] is Txn) {
                        assert(!(entries@[i as int] is Txn));
                        assert(declaration_step(pre, entries@[i as int]) is None);
                        assert(declarations_run(st0, entries@.subrange(0, i + 1)) is None);
                        lemma_run_none(st0, entries@, i + 1);
                    }
                }
                return Err(e);
            },
        }
        proof {
            if forall|k: int| 0 <= k < entries@.len() ==> !(#[trigger] entries@[k] is Txn) {
                assert(!(entries@[i as int] is Txn));
                let post = registered(ctx.accounts@, ctx.commodities@.intern);
                match entries@[i as int] {
                    LedgerEntry::Account(a) => {
                        let q = declaration_step(pre, entries@[i as int])->0;
                        assert(post.0 =~= q.0);
                        assert(post.1 =~= q.1);
                        assert(post.2 =~= q.2);
                        assert(post.3 =~= q.3);
                    },
                    LedgerEntry::Commodity(c) => {
                        let q = declaration_step(pre, entries@[i as int])->0;
                        assert(post.0 =~= q.0);
                        assert(post.1 =~= q.1);
                        assert(post.2 =~= q.2);
                        assert(post.3 =~= q.3);
                    },
                    _ => {
                        assert(post.0 =~= pre.0);
                        assert(post.1 =~= pre.1);
                        assert(post.2 =~= pre.2);
                        assert(post.3 =~= pre.3);
                    },
                }
                assert(declarations_run(st0, entries@.subrange(0, i + 1)) == Some(post));
            }
        }
        match &entries[i] {
            LedgerEntry::Txn(txn) => {
                let events = match transaction_price_events(ctx, txn) {
                    Ok(v) => v,
                    Err(e) => {
                        return Err(e);
                    },
                };
                let mut k: usize = 0;
                while k < events.len()
                    invariant
                        i < entries@.len(),
                        entries@[i as int] is Txn,
                    decreases events@.len() - k,
                {
                    match prices.insert_price(PriceSource::Ledger, events[k]) {
                        Ok(()) => {},
                        Err(e) => {
                            return Err(BookKeepError::EvalFailure(e));
                        },
                    }
                    k = k + 1;
                }
            },
            _ => {},
        }
        i = i + 1;
    }
    assert(entries@.subrange(0, entries@.len() as int) =~= entries@);
    Ok(Ledger { transactions: accum.txns, raw_balance: accum.balance, price_repos: prices.build() })
}

} // verus!
