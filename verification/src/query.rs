//! Queries on the booked Ledger: balances and registers.
use crate::account::{Account, AccountStore};
use crate::balance::{Balance, BalanceView, bal_get, bal_get_or_zero, others_unchanged};
use crate::commodity::{
    CommodityStore, CommodityTag, OwnedCommodity, lemma_none_trimmed_ext, map_at, none_trimmed, trim_none,
};
use crate::context::ReportContext;
use crate::date::Date;
use crate::book_keeping::amount_sum;
use crate::eval::amount::{Amount, AmountView, amount_of_pairs, amt_get, amount_add, amount_round, amount_strip_zero, entries, entry_add};
use crate::eval::error::{EvalError, OwnedEvalError};
use crate::price_db::{ConversionError, NaivePriceRepository, PriceRepository, convert_amount, converts_prefix, with_pairs};
use crate::text::texts;
use crate::transaction::Transaction;
use regex::Error as RegexError;
use vstd::prelude::*;

verus! {

broadcast use vstd::seq_lib::group_seq_properties;

/// `regex::Error`, the error of building a regular expression.
#[verifier::external_type_specification]
#[verifier::external_body]
pub struct ExRegexError(RegexError);

/// Error of a query.
#[derive(Debug)]
pub enum QueryError {
    /// Failed to evaluate the expression.
    EvalFailed(OwnedEvalError),
    /// The commodity is not known.
    CommodityNotFound(OwnedCommodity),
    /// Failed to convert an amount.
    CommodityConversionFailure(ConversionError),
    /// The conversion strategy is not supported by the query.
    UnsupportedConversionStrategy,
}

/// Order of the register entries.
#[derive(Debug, PartialEq, Eq, Structural, Clone, Copy)]
pub enum Sort {
    /// Order of appearance in the source.
    Original,
    /// Stable sort by the transaction date, ascending.
    Date,
}

/// Half-open range of dates `[start, end)`; a missing bound is unbounded.
#[derive(Debug, PartialEq, Eq, Structural, Clone, Copy)]
pub struct DateRange {
    pub start: Option<Date>,
    pub end: Option<Date>,
}

/// The date is in the range.
pub open spec fn range_contains(r: DateRange, d: Date) -> bool {
    (r.start matches Some(s) ==> s@ <= d@) && (r.end matches Some(e) ==> d@ < e@)
}

impl DateRange {
    /// The range without bounds.
    pub fn unbounded() -> (r: Self)
        ensures
            r.start is None && r.end is None,
    {
        DateRange { start: None, end: None }
    }

    /// `true` when the range has no bound.
    pub fn is_bypass(&self) -> (r: bool)
        ensures
            r == (self.start is None && self.end is None),
    {
        self.start.is_none() && self.end.is_none()
    }

    /// `true` when the date is in the range.
    pub fn contains(&self, date: Date) -> (r: bool)
        ensures
            r == range_contains(*self, date),
    {
        match self.start {
            Some(start) => {
                if date.lt(&start) {
                    return false;
                }
            },
            None => {},
        }
        match self.end {
            Some(end) => {
                if end.le(&date) {
                    return false;
                }
            },
            None => {},
        }
        true
    }
}

/// Accounts a query applies to.
#[derive(Debug, PartialEq, Eq, Clone)]
pub enum AccountFilter {
    /// Every account.
    All,
    /// One account.
    Exact(Account),
    /// The accounts of the set (each listed once).
    Accounts(Vec<Account>),
}

/// The filter lets the account through.
pub open spec fn filter_matches(f: AccountFilter, a: Account) -> bool {
    match f {
        AccountFilter::All => true,
        AccountFilter::Exact(t) => a == t,
        AccountFilter::Accounts(ts) => ts@.contains(a),
    }
}

/// `Name of the regular expressions`: whether `regex::RegexSet` builds from the patterns.
pub uninterp spec fn regex_set_valid(patterns: Seq<Seq<char>>) -> bool;

/// Whether one of the patterns of `regex::RegexSet` matches the text.
pub uninterp spec fn regex_set_match(patterns: Seq<Seq<char>>, text: Seq<char>) -> bool;

/// `regex::RegexSet::new` of the patterns: `Err` with its error when one does not compile.
#[verifier::external_body]
fn regex_set_check(patterns: &Vec<String>) -> (r: Result<(), RegexError>)
    ensures
        r is Ok <==> regex_set_valid(texts(patterns@)),
{
    match regex::RegexSet::new(patterns.iter()) {
        Ok(_) => Ok(()),
        Err(e) => Err(e),
    }
}

/// `regex::RegexSet::is_match` of the set built from the valid patterns, on the text.
#[verifier::external_body]
fn regex_set_is_match(patterns: &Vec<String>, text: &str) -> (r: bool)
    requires
        regex_set_valid(texts(patterns@)),
    ensures
        r == regex_set_match(texts(patterns@), text@),
{
    regex::RegexSet::new(patterns.iter()).map(|s| s.is_match(text)).unwrap_or(false)
}

impl AccountFilter {
    /// Filter of the single account.
    pub fn single(account: Account) -> (r: Self)
        ensures
            r == AccountFilter::Exact(account),
    {
        AccountFilter::Exact(account)
    }

    /// Filter of the set: an exact filter for one account.
    fn from_set(accounts: Vec<Account>) -> (r: Self)
        ensures
            accounts@.len() == 1 ==> r == AccountFilter::Exact(accounts@[0]),
            accounts@.len() != 1 ==> r == AccountFilter::Accounts(accounts),
    {
        if accounts.len() == 1 {
            AccountFilter::Exact(accounts[0])
        } else {
            AccountFilter::Accounts(accounts)
        }
    }

    /// Filter of the accounts registered under the names (or aliases); unknown names are
    /// ignored.
    pub fn from_exact_accounts(ctx: &ReportContext, accounts: &Vec<String>) -> (r: Self)
        ensures
            !(r is All),
            r matches AccountFilter::Accounts(s) ==> s@.len() != 1,
            forall|a: Account| filter_matches(r, a) <==> exists|i: int|
                0 <= i < accounts@.len() && ctx.accounts@.resolve(#[trigger] accounts@[i]@) == Some(a.0 as nat),
    {
        let mut matched: Vec<Account> = Vec::new();
        let mut i: usize = 0;
        while i < accounts.len()
            invariant
                i <= accounts@.len(),
                forall|a: Account| matched@.contains(a) <==> exists|j: int|
                    0 <= j < i && ctx.accounts@.resolve(#[trigger] accounts@[j]@) == Some(a.0 as nat),
            decreases accounts@.len() - i,
        {
            match ctx.account(accounts[i].as_str()) {
                Some(account) => {
                    if !vec_contains(&matched, account) {
                        matched.push(account);
                    }
                    proof {
                        assert(matched@.contains(account));
                    }
                },
                None => {},
            }
            proof {
                assert forall|a: Account| matched@.contains(a) <==> exists|j: int|
                    0 <= j < i + 1 && ctx.accounts@.resolve(#[trigger] accounts@[j]@) == Some(a.0 as nat) by {
                    if ctx.accounts@.resolve(accounts@[i as int]@) == Some(a.0 as nat) {
                    }
                }
            }
            i = i + 1;
        }
        let ghost m = matched@;
        proof {
            if m.len() == 1 {
                assert forall|a: Account| m.contains(a) <==> a == m[0] by {}
            }
        }
        let r = AccountFilter::from_set(matched);
        assert forall|a: Account| filter_matches(r, a) <==> m.contains(a) by {}
        r
    }

    /// Filter of the registered accounts whose name one of the regular expressions matches.
    pub fn from_regex_patterns(ctx: &ReportContext, patterns: &Vec<String>) -> (r: Result<Self, RegexError>)
        ensures
            r is Ok <==> regex_set_valid(texts(patterns@)),
            r matches Ok(f) ==> !(f is All),
            r matches Ok(AccountFilter::Accounts(s)) ==> s@.len() != 1,
            r matches Ok(f) ==> forall|a: Account| filter_matches(f, a) <==> (a.0 < ctx.accounts@.names.len()
                && regex_set_match(texts(patterns@), ctx.accounts@.names[a.0 as int])),
    {
        match regex_set_check(patterns) {
            Ok(()) => {},
            Err(e) => {
                return Err(e);
            },
        }
        let mut matched: Vec<Account> = Vec::new();
        let n = ctx.accounts.len();
        let mut i: usize = 0;
        while i < n
            invariant
                i <= n,
                n == ctx.accounts@.names.len(),
                regex_set_valid(texts(patterns@)),
                forall|a: Account| matched@.contains(a) <==> (a.0 < i && regex_set_match(texts(patterns@), ctx.accounts@.names[a.0 as int])),
            decreases n - i,
        {
            let account = Account(i);
            let name = account.as_str(&ctx.accounts);
            if regex_set_is_match(patterns, name) {
                matched.push(account);
            }
            proof {
                assert forall|a: Account| matched@.contains(a) <==> (a.0 < i + 1 && regex_set_match(texts(patterns@), ctx.accounts@.names[a.0 as int])) by {
                    if a.0 == i {
                        assert(a == account);
                    }
                }
            }
            i = i + 1;
        }
        let ghost m = matched@;
        proof {
            if m.len() == 1 {
                assert forall|a: Account| m.contains(a) <==> a == m[0] by {}
            }
        }
        let r = AccountFilter::from_set(matched);
        assert forall|a: Account| filter_matches(r, a) <==> m.contains(a) by {}
        Ok(r)
    }

    /// The filter is a set of no account.
    pub open spec fn is_exhaustive_empty_spec(&self) -> bool {
        self matches AccountFilter::Accounts(s) && s@.len() == 0
    }

    /// `true` for a set filter of no account.
    pub fn is_exhaustive_empty(&self) -> (r: bool)
        ensures
            r == (self matches AccountFilter::Accounts(s) && s@.len() == 0),
    {
        match self {
            AccountFilter::Accounts(s) => s.len() == 0,
            _ => false,
        }
    }

    /// `true` if the filter lets the account through.
    pub fn is_match(&self, account: Account) -> (r: bool)
        ensures
            r == filter_matches(*self, account),
    {
        match self {
            AccountFilter::All => true,
            AccountFilter::Exact(target) => account == *target,
            AccountFilter::Accounts(targets) => vec_contains(targets, account),
        }
    }
}

/// `true` if the account is in the vector.
fn vec_contains(v: &Vec<Account>, a: Account) -> (r: bool)
    ensures
        r == v@.contains(a),
{
    let mut i: usize = 0;
    while i < v.len()
        invariant
            i <= v@.len(),
            forall|k: int| 0 <= k < i ==> v@[k] != a,
        decreases v@.len() - i,
    {
        if v[i] == a {
            assert(v@[i as int] == a);
            return true;
        }
        i = i + 1;
    }
    false
}

/// Strategy of the commodity conversion.
#[derive(Debug, PartialEq, Eq, Structural, Clone, Copy)]
pub enum ConversionStrategy {
    /// Each amount converted at the date of its transaction.
    Historical,
    /// Every amount converted at `today`.
    UpToDate { today: Date },
}

/// Conversion of the amounts into the target commodity.
#[derive(Debug, PartialEq, Eq, Structural, Clone, Copy)]
pub struct Conversion {
    pub strategy: ConversionStrategy,
    pub target: CommodityTag,
}

/// Query of the balance.
#[derive(Debug, PartialEq, Eq, Clone)]
pub struct BalanceQuery {
    pub account: AccountFilter,
    pub conversion: Option<Conversion>,
    pub date_range: DateRange,
}

impl BalanceQuery {
    /// The balance must be computed again from the transactions: the range is bounded, or
    /// the conversion is historical.
    pub fn require_recompute(&self) -> (r: bool)
        ensures
            r == (!(self.date_range.start is None && self.date_range.end is None) || (
            self.conversion matches Some(c) && c.strategy is Historical)),
    {
        if !self.date_range.is_bypass() {
            return true;
        }
        match self.conversion {
            Some(c) => match c.strategy {
                ConversionStrategy::Historical => true,
                _ => false,
            },
            None => false,
        }
    }
}

/// The balance with the account set to `x`.
pub open spec fn bal_set(b: BalanceView, a: Account, x: AmountView) -> BalanceView {
    Seq::new(
        if b.len() < a.0 + 1 { (a.0 + 1) as nat } else { b.len() },
        |k: int| if k == a.0 {
            Some(x)
        } else {
            map_at(b, k as nat)
        },
    )
}

/// The balance with `x` added to the account, zero values removed; `None` on overflow.
pub open spec fn bal_add(b: BalanceView, a: Account, x: AmountView) -> Option<BalanceView> {
    match amount_add(bal_get_or_zero(b, a), x) {
        Some(s) => Some(bal_set(b, a, amount_strip_zero(s))),
        None => None,
    }
}

/// The balance after adding the amounts to their accounts, in order.
pub open spec fn bal_fold(b: BalanceView, ps: Seq<(Account, AmountView)>) -> Option<BalanceView>
    decreases ps.len(),
{
    if ps.len() == 0 {
        Some(b)
    } else {
        match bal_fold(b, ps.drop_last()) {
            Some(c) => bal_add(c, ps.last().0, ps.last().1),
            None => None,
        }
    }
}

/// The postings of the transactions along `order`, as accounts and amounts.
pub open spec fn flat_postings(txns: Seq<Transaction>, order: Seq<usize>) -> Seq<(Account, AmountView)>
    decreases order.len(),
{
    if order.len() == 0 {
        Seq::empty()
    } else {
        flat_postings(txns, order.drop_last()) + txns[order.last() as int].postings@.map_values(
            |p: crate::transaction::Posting| (p.account, p.amount@),
        )
    }
}

/// The postings of the transactions along `order`, with the date of their transaction.
pub open spec fn flat_dated(txns: Seq<Transaction>, order: Seq<usize>) -> Seq<(Date, Account, AmountView)>
    decreases order.len(),
{
    if order.len() == 0 {
        Seq::empty()
    } else {
        let t = txns[order.last() as int];
        flat_dated(txns, order.drop_last()) + t.postings@.map_values(
            |p: crate::transaction::Posting| (t.date, p.account, p.amount@),
        )
    }
}

/// The accounts of the dated postings with the amounts `cps`.
pub open spec fn converted_pairs(dated: Seq<(Date, Account, AmountView)>, cps: Seq<AmountView>) -> Seq<(Account, AmountView)> {
    Seq::new(dated.len(), |q: int| (dated[q].1, cps[q]))
}

/// `b` is the balance of the dated postings, each amount converted into `t` at its date (see
/// [`amount_converts`]) and added to its account in order.
pub open spec fn historical_balance(
    inner: NaivePriceRepository,
    t: nat,
    dated: Seq<(Date, Account, AmountView)>,
    b: BalanceView,
) -> bool {
    exists|cps: Seq<AmountView>|
        cps.len() == dated.len() && (forall|q: int|
            0 <= q < dated.len() ==> amount_converts(inner, dated[q].0, t, dated[q].2, #[trigger] cps[q]))
            && #[trigger] bal_fold(Seq::empty(), converted_pairs(dated, cps)) == Some(b)
}

/// `cv` is the balance `base` with each account's amount converted into `t` on the date (see
/// [`amount_converts`]), zero values removed.
pub open spec fn balance_converted(inner: NaivePriceRepository, date: Date, t: nat, base: BalanceView, cv: BalanceView) -> bool {
    &&& forall|a: Account| #[trigger] bal_get(base, a) is None ==> bal_get(cv, a) is None
    &&& forall|a: Account|
        #[trigger] bal_get(base, a) is Some ==> exists|x: AmountView|
            #[trigger] amount_converts(inner, date, t, bal_get(base, a)->0, x) && bal_get(cv, a) == Some(
                amount_strip_zero(x),
            )
}

/// Every amount rounded.
pub open spec fn bal_round(store: CommodityStore, b: BalanceView) -> BalanceView {
    Seq::new(
        b.len(),
        |k: int| match b[k] {
            Some(a) => Some(amount_round(store, a)),
            None => None,
        },
    )
}

/// Transaction `a` comes before `b`: by date, then by index.
pub open spec fn date_before(txns: Seq<Transaction>, a: usize, b: usize) -> bool {
    txns[a as int].date@ < txns[b as int].date@ || (txns[a as int].date@ == txns[b as int].date@ && a < b)
}

/// `order` lists the transactions in the range, by date then index.
pub open spec fn date_order_of(txns: Seq<Transaction>, range: DateRange, order: Seq<usize>) -> bool {
    &&& forall|k: int| 0 <= k < order.len() ==> (#[trigger] order[k]) < txns.len() && range_contains(range, txns[order[k] as int].date)
    &&& forall|i: int| 0 <= i < txns.len() && range_contains(range, txns[i].date) ==> order.contains(i as usize)
    &&& forall|k: int, l: int| 0 <= k < l < order.len() ==> date_before(txns, #[trigger] order[k], #[trigger] order[l])
}

/// The postings along a prefix of the order are a prefix of the postings along the order.
proof fn lemma_flat_prefix(txns: Seq<Transaction>, order: Seq<usize>, m: int)
    requires
        0 <= m <= order.len(),
    ensures
        flat_postings(txns, order.subrange(0, m)).len() <= flat_postings(txns, order).len(),
        flat_postings(txns, order).subrange(0, flat_postings(txns, order.subrange(0, m)).len() as int)
            == flat_postings(txns, order.subrange(0, m)),
    decreases order.len() - m,
{
    if m == order.len() {
        assert(order.subrange(0, m) =~= order);
        assert(flat_postings(txns, order).subrange(0, flat_postings(txns, order).len() as int) =~= flat_postings(txns, order));
    } else {
        lemma_flat_prefix(txns, order, m + 1);
        let a = flat_postings(txns, order.subrange(0, m));
        let b = flat_postings(txns, order.subrange(0, m + 1));
        assert(order.subrange(0, m + 1).drop_last() =~= order.subrange(0, m));
        assert(b.subrange(0, a.len() as int) =~= a);
        assert(flat_postings(txns, order).subrange(0, a.len() as int) =~= flat_postings(txns, order).subrange(0, b.len() as int).subrange(0, a.len() as int));
    }
}

/// Once a prefix overflows, so do all the postings.
proof fn lemma_fold_prefix_none(b: BalanceView, ps: Seq<(Account, AmountView)>, n: int)
    requires
        0 <= n <= ps.len(),
        bal_fold(b, ps.subrange(0, n)) is None,
    ensures
        bal_fold(b, ps) is None,
    decreases ps.len() - n,
{
    if n == ps.len() {
        assert(ps.subrange(0, n) =~= ps);
    } else {
        assert(ps.subrange(0, n + 1).drop_last() =~= ps.subrange(0, n));
        lemma_fold_prefix_none(b, ps, n + 1);
    }
}

/// A balance view updated at one account is `bal_set`.
pub proof fn lemma_bal_set(b: BalanceView, c: BalanceView, a: Account, x: AmountView)
    requires
        none_trimmed(b),
        none_trimmed(c),
        bal_get(c, a) == Some(x),
        others_unchanged(b, c, a),
    ensures
        c == bal_set(b, a, x),
{
    let s = bal_set(b, a, x);
    assert(none_trimmed(s)) by {
        if s.len() > a.0 + 1 {
            assert(s.last() == b.last());
        }
    }
    assert forall|k: nat| #[trigger] map_at(c, k) == map_at(s, k) by {}
    lemma_none_trimmed_ext(c, s);
}

/// The transactions in the range, by date then index (the order of a stable sort by date).
#[verifier::spinoff_prover]
#[verifier::rlimit(60)]
pub fn date_order(txns: &Vec<Transaction>, range: DateRange) -> (r: Vec<usize>)
    ensures
        date_order_of(txns@, range, r@),
{
    let mut order: Vec<usize> = Vec::new();
    let mut i: usize = 0;
    while i < txns.len()
        invariant
            i <= txns@.len(),
            forall|k: int| 0 <= k < order@.len() ==> (#[trigger] order@[k]) < i && range_contains(range, txns@[order@[k] as int].date),
            forall|q: int| 0 <= q < i && range_contains(range, txns@[q].date) ==> order@.contains(q as usize),
            forall|k: int, l: int| 0 <= k < l < order@.len() ==> date_before(txns@, #[trigger] order@[k], #[trigger] order@[l]),
        decreases txns@.len() - i,
    {
        if range.contains(txns[i].date) {
            let d = txns[i].date;
            let mut p: usize = 0;
            while p < order.len() && txns[order[p]].date.le(&d)
                invariant
                    p <= order@.len(),
                    i < txns@.len(),
                    d == txns@[i as int].date,
                    forall|k: int| 0 <= k < order@.len() ==> (#[trigger] order@[k]) < i,
                    forall|k: int| 0 <= k < p ==> txns@[(#[trigger] order@[k]) as int].date@ <= d@,
                decreases order@.len() - p,
            {
                p = p + 1;
            }
            let ghost before = order@;
            order.insert(p, i);
            proof {
                assert forall|k: int| 0 <= k < order@.len() implies (#[trigger] order@[k]) < i + 1 && range_contains(range, txns@[order@[k] as int].date) by {
                    if k < p as int {
                        assert(order@[k] == before[k]);
                    } else if k > p as int {
                        assert(order@[k] == before[k - 1]);
                    }
                }
                assert forall|q: int| 0 <= q < i + 1 && range_contains(range, txns@[q].date) implies order@.contains(q as usize) by {
                    if q == i {
                        assert(order@[p as int] == i);
                    } else {
                        let k = choose|k: int| 0 <= k < before.len() && before[k] == q as usize;
                        if k < p as int {
                            assert(order@[k] == before[k]);
                        } else {
                            assert(order@[k + 1] == before[k]);
                        }
                    }
                }
                assert forall|k: int, l: int| 0 <= k < l < order@.len() implies date_before(txns@, #[trigger] order@[k], #[trigger] order@[l]) by {
                    let pk = p as int;
                    if l < pk {
                        assert(order@[k] == before[k] && order@[l] == before[l]);
                    } else if l == pk {
                        assert(order@[k] == before[k]);
                    } else if k == pk {
                        assert(order@[l] == before[l - 1]);
                        if pk < before.len() {
                            assert(txns@[before[pk] as int].date@ > d@);
                        }
                    } else if k < pk {
                        assert(order@[k] == before[k] && order@[l] == before[l - 1]);
                    } else {
                        assert(order@[k] == before[k - 1] && order@[l] == before[l - 1]);
                    }
                }
            }
        }
        i = i + 1;
    }
    order
}

/// The amount is of the commodity `t` alone.
pub open spec fn amount_only(x: AmountView, t: nat) -> bool {
    forall|d: nat| d != t ==> #[trigger] amt_get(x, d) is None
}

/// Every amount of the balance is of the commodity `t` alone.
pub open spec fn bal_only(b: BalanceView, t: nat) -> bool {
    forall|a: Account| (#[trigger] bal_get(b, a) matches Some(x) ==> amount_only(x, t))
}

/// Adding two amounts of the commodity `t` alone, and removing the zero values, gives one.
proof fn lemma_only_add(x: AmountView, y: AmountView, t: nat)
    requires
        forall|d: nat| d != t ==> #[trigger] amt_get(x, d) is None,
        forall|d: nat| d != t ==> #[trigger] amt_get(y, d) is None,
        amount_add(x, y) is Some,
    ensures
        forall|d: nat| d != t ==> #[trigger] amt_get(amount_strip_zero(amount_add(x, y)->0), d) is None,
{
    let s = amount_add(x, y)->0;
    let m = s.map_values(|v: Option<crate::decimal::DecimalView>| crate::eval::amount::strip_zero(v));
    crate::commodity::lemma_trim_none(m);
    assert forall|d: nat| d != t implies #[trigger] amt_get(amount_strip_zero(s), d) is None by {
        assert(map_at(trim_none(m), d) == map_at(m, d));
        if d < s.len() {
            assert(entry_add(amt_get(x, d), amt_get(y, d)) is Some);
        }
    }
}

/// Rounding keeps a balance of one commodity.
proof fn lemma_only_round(store: CommodityStore, b: BalanceView, t: nat)
    requires
        bal_only(b, t),
    ensures
        bal_only(bal_round(store, b), t),
{
    assert forall|a: Account| (#[trigger] bal_get(bal_round(store, b), a) matches Some(x) ==> amount_only(x, t)) by {
        if let Some(x) = bal_get(b, a) {
            assert(amount_only(x, t));
            let y = amount_round(store, x);
            assert forall|d: nat| d != t implies #[trigger] amt_get(y, d) is None by {
                assert(amt_get(x, d) is None);
            }
        }
    }
}

/// Balance of the postings of the transactions along `order`: each amount (converted at the
/// date of its transaction for a historical conversion) added to its account, then rounded.
pub fn compute_balance(
    ctx: &ReportContext,
    price_repos: &mut PriceRepository,
    txns: &Vec<Transaction>,
    order: &Vec<usize>,
    conversion: Option<Conversion>,
) -> (r: Result<Balance, QueryError>)
    requires
        forall|k: int| 0 <= k < order@.len() ==> (#[trigger] order@[k]) < txns@.len(),
        conversion matches Some(c) ==> c.target.0 < usize::MAX,
    ensures
        !(conversion matches Some(c) && c.strategy is Historical) ==> match bal_fold(
            Seq::empty(),
            flat_postings(txns@, order@),
        ) {
            Some(b) => r matches Ok(x) && x@ == bal_round(ctx.commodities, b),
            None => r matches Err(QueryError::EvalFailed(OwnedEvalError::NumberOverflow)),
        },
        conversion matches Some(c) ==> (c.strategy is Historical ==> (r matches Ok(x) ==> bal_only(
            x@,
            c.target.0 as nat,
        ))),
        final(price_repos).inner() == old(price_repos).inner(),
        conversion matches Some(c) ==> (c.strategy is Historical ==> (r matches Ok(x) ==> exists|b: BalanceView|
            historical_balance(old(price_repos).inner(), c.target.0 as nat, flat_dated(txns@, order@), b)
                && x@ == bal_round(ctx.commodities, b))),
{
    let mut bal = Balance::new();
    let ghost historical = conversion matches Some(c) && c.strategy is Historical;
    let ghost inner = price_repos.inner();
    let ghost mut cps: Seq<AmountView> = Seq::empty();
    assert(bal@ =~= Seq::<Option<AmountView>>::empty());
    let mut k: usize = 0;
    while k < order.len()
        invariant
            k <= order@.len(),
            forall|q: int| 0 <= q < order@.len() ==> (#[trigger] order@[q]) < txns@.len(),
            conversion matches Some(c) ==> c.target.0 < usize::MAX,
            historical == (conversion matches Some(c) && c.strategy is Historical),
            !historical ==> bal_fold(Seq::empty(), flat_postings(txns@, order@.subrange(0, k as int))) == Some(bal@),
        historical ==> bal_only(bal@, conversion->0.target.0 as nat),
        price_repos.inner() == old(price_repos).inner(),
        inner == old(price_repos).inner(),
        historical ==> cps.len() == flat_dated(txns@, order@.subrange(0, k as int)).len(),
        historical ==> forall|q: int|
            0 <= q < cps.len() ==> amount_converts(
                inner,
                flat_dated(txns@, order@.subrange(0, k as int))[q].0,
                conversion->0.target.0 as nat,
                flat_dated(txns@, order@.subrange(0, k as int))[q].2,
                #[trigger] cps[q],
            ),
        historical ==> bal_fold(Seq::empty(), converted_pairs(flat_dated(txns@, order@.subrange(0, k as int)), cps)) == Some(bal@),
        decreases order@.len() - k,
    {
        let txn = &txns[order[k]];
        let ghost pre = flat_postings(txns@, order@.subrange(0, k as int));
        let ghost ps = txn.postings@.map_values(|p: crate::transaction::Posting| (p.account, p.amount@));
        let ghost pre_d = flat_dated(txns@, order@.subrange(0, k as int));
        let ghost ps_d = txn.postings@.map_values(|p: crate::transaction::Posting| (txn.date, p.account, p.amount@));
        proof {
            let o2 = order@.subrange(0, k + 1);
            assert(o2.drop_last() =~= order@.subrange(0, k as int));
            assert(flat_postings(txns@, o2) == pre + ps);
            assert(flat_dated(txns@, o2) == pre_d + ps_d);
            assert(ps_d.subrange(0, 0) =~= Seq::<(Date, Account, AmountView)>::empty());
            assert(pre_d + ps_d.subrange(0, 0) =~= pre_d);
        }
        let mut j: usize = 0;
        while j < txn.postings.len()
            invariant
                j <= txn.postings@.len(),
                k < order@.len(),
                pre == flat_postings(txns@, order@.subrange(0, k as int)),
                flat_postings(txns@, order@.subrange(0, k + 1)) == pre + ps,
                ps == txn.postings@.map_values(|p: crate::transaction::Posting| (p.account, p.amount@)),
                conversion matches Some(c) ==> c.target.0 < usize::MAX,
                historical == (conversion matches Some(c) && c.strategy is Historical),
                !historical ==> bal_fold(Seq::empty(), pre + ps.subrange(0, j as int)) == Some(bal@),
                historical ==> bal_only(bal@, conversion->0.target.0 as nat),
                price_repos.inner() == old(price_repos).inner(),
                inner == old(price_repos).inner(),
                *txn == txns@[order@[k as int] as int],
                pre_d == flat_dated(txns@, order@.subrange(0, k as int)),
                flat_dated(txns@, order@.subrange(0, k + 1)) == pre_d + ps_d,
                ps_d == txn.postings@.map_values(|p: crate::transaction::Posting| (txn.date, p.account, p.amount@)),
                historical ==> cps.len() == (pre_d + ps_d.subrange(0, j as int)).len(),
                historical ==> forall|q: int|
                    0 <= q < cps.len() ==> amount_converts(
                        inner,
                        (pre_d + ps_d.subrange(0, j as int))[q].0,
                        conversion->0.target.0 as nat,
                        (pre_d + ps_d.subrange(0, j as int))[q].2,
                        #[trigger] cps[q],
                    ),
                historical ==> bal_fold(Seq::empty(), converted_pairs(pre_d + ps_d.subrange(0, j as int), cps)) == Some(bal@),
            decreases txn.postings@.len() - j,
        {
            let posting = &txn.postings[j];
            let delta = match conversion {
                Some(c) => match c.strategy {
                    ConversionStrategy::Historical => match convert_amount(ctx, price_repos, &posting.amount, c.target, txn.date) {
                        Ok(x) => x,
                        Err(e) => {
                            return Err(QueryError::CommodityConversionFailure(e));
                        },
                    },
                    _ => posting.amount.clone(),
                },
                None => posting.amount.clone(),
            };
            let ghost before = bal@;
            bal.check_wf();
            proof {
                let seq2 = pre + ps.subrange(0, j + 1);
                assert(seq2.drop_last() =~= pre + ps.subrange(0, j as int));
                assert(seq2.last() == ps[j as int]);
            }
            match bal.add_amount(posting.account, delta) {
                Ok(_) => {},
                Err(_) => {
                    proof {
                        if !historical {
                            let seq2 = pre + ps.subrange(0, j + 1);
                            assert(bal_fold(Seq::empty(), seq2) is None);
                            lemma_flat_prefix(txns@, order@, k + 1);
                            let whole = flat_postings(txns@, order@);
                            let upto = flat_postings(txns@, order@.subrange(0, k + 1));
                            assert(upto == pre + ps);
                            assert(whole.subrange(0, seq2.len() as int) =~= seq2);
                            lemma_fold_prefix_none(Seq::empty(), whole, seq2.len() as int);
                        }
                    }
                    return Err(QueryError::EvalFailed(OwnedEvalError::NumberOverflow));
                },
            }
            bal.check_wf();
            proof {
                if !historical {
                    lemma_bal_set(before, bal@, posting.account, bal_get(bal@, posting.account)->0);
                } else {
                    lemma_bal_set(before, bal@, posting.account, bal_get(bal@, posting.account)->0);
                    let d1 = pre_d + ps_d.subrange(0, j as int);
                    let d2 = pre_d + ps_d.subrange(0, j + 1);
                    assert(d2 =~= d1.push((txn.date, posting.account, posting.amount@)));
                    let cps2 = cps.push(delta@);
                    assert(converted_pairs(d2, cps2).drop_last() =~= converted_pairs(d1, cps));
                    assert(converted_pairs(d2, cps2).last() == (posting.account, delta@));
                    assert forall|q: int| 0 <= q < cps2.len() implies amount_converts(
                        inner,
                        d2[q].0,
                        conversion->0.target.0 as nat,
                        d2[q].2,
                        #[trigger] cps2[q],
                    ) by {
                        if q < cps.len() {
                            assert(cps2[q] == cps[q]);
                            assert(d2[q] == d1[q]);
                        }
                    }
                    cps = cps2;
                    let t = conversion->0.target.0 as nat;
                    let g = bal_get_or_zero(before, posting.account);
                    assert forall|d: nat| d != t implies #[trigger] amt_get(g, d) is None by {
                        if let Some(x) = bal_get(before, posting.account) {
                            assert(amount_only(x, t));
                        }
                    }
                    lemma_only_add(g, delta@, t);
                    assert forall|a: Account| (#[trigger] bal_get(bal@, a) matches Some(x) ==> amount_only(x, t)) by {
                        if a != posting.account {
                            assert(bal_get(bal@, a) == bal_get(before, a));
                        }
                    }
                }
            }
            j = j + 1;
        }
        proof {
            assert(ps.subrange(0, ps.len() as int) =~= ps);
            assert(ps_d.subrange(0, ps_d.len() as int) =~= ps_d);
        }
        k = k + 1;
    }
    proof {
        assert(order@.subrange(0, order@.len() as int) =~= order@);
    }
    let ghost unrounded = bal@;
    bal.round(ctx);
    proof {
        assert(bal@ =~= bal_round(ctx.commodities, unrounded));
        if historical {
            lemma_only_round(ctx.commodities, unrounded, conversion->0.target.0 as nat);
        }
    }
    Ok(bal)
}

/// The balance view filtered: the accounts the filter lets through, zero values removed.
pub open spec fn bal_filtered(b: BalanceView, f: AccountFilter, a: Account) -> Option<AmountView> {
    if filter_matches(f, a) {
        match bal_get(b, a) {
            Some(x) => Some(amount_strip_zero(x)),
            None => None,
        }
    } else {
        None
    }
}

/// The balance of the accounts the filter lets through.
fn filter_balance(b: &Balance, filter: &AccountFilter) -> (r: Balance)
    ensures
        forall|a: Account| #[trigger] bal_get(r@, a) == bal_filtered(b@, *filter, a),
{
    let items = b.iter();
    let mut filtered = Balance::new();
    let ghost mut seen: Set<Account> = Set::empty();
    let mut i: usize = 0;
    while i < items.len()
        invariant
            i <= items@.len(),
            forall|k: int| 0 <= k < items@.len() ==> bal_get(b@, (#[trigger] items@[k]).0) == Some(items@[k].1@),
            forall|k: int, l: int| 0 <= k < l < items@.len() ==> (#[trigger] items@[k]).0.0 < (#[trigger] items@[l]).0.0,
            forall|a: Account| #[trigger] bal_get(b@, a) is Some ==> exists|k: int| 0 <= k < items@.len() && items@[k].0 == a,
            forall|k: int| 0 <= k < i ==> seen.contains(#[trigger] items@[k].0),
            forall|a: Account| seen.contains(a) ==> exists|k: int| 0 <= k < i && #[trigger] items@[k].0 == a,
            forall|a: Account| #[trigger] bal_get(filtered@, a) == if seen.contains(a) {
                bal_filtered(b@, *filter, a)
            } else {
                None
            },
        decreases items@.len() - i,
    {
        let account = items[i].0;
        proof {
            if seen.contains(account) {
                let k = choose|k: int| 0 <= k < i && #[trigger] items@[k].0 == account;
                assert(items@[k].0.0 < items@[i as int].0.0);
            }
        }
        let ghost before = filtered@;
        let ghost x = items@[i as int].1@;
        proof {
            assert(bal_get(b@, account) == Some(x));
            assert(bal_get(before, account) is None);
        }
        if filter.is_match(account) {
            proof {
                crate::eval::amount::lemma_add_zero(x);
            }
            match filtered.add_amount(account, items[i].1.clone()) {
                Ok(_) => {},
                Err(_) => {},
            }
        }
        proof {
            assert forall|a: Account| #[trigger] bal_get(filtered@, a) == if seen.insert(account).contains(a) {
                bal_filtered(b@, *filter, a)
            } else {
                None
            } by {
                if a != account {
                    assert(bal_get(filtered@, a) == bal_get(before, a));
                }
            }
            seen = seen.insert(account);
            assert forall|a: Account| seen.contains(a) implies exists|k: int| 0 <= k < i + 1 && #[trigger] items@[k].0 == a by {
                if a == account {
                    assert(items@[i as int].0 == a);
                }
            }
        }
        i = i + 1;
    }
    proof {
        assert forall|a: Account| #[trigger] bal_get(filtered@, a) == bal_filtered(b@, *filter, a) by {
            if bal_get(b@, a) is Some {
                let k = choose|k: int| 0 <= k < items@.len() && items@[k].0 == a;
                assert(seen.contains(items@[k].0));
            }
        }
    }
    filtered
}

/// Query of the register.
#[derive(Debug, PartialEq, Eq, Clone)]
pub struct RegisterQuery {
    pub account: AccountFilter,
    pub date_range: DateRange,
    pub conversion: Option<Conversion>,
    pub sort: Sort,
}

/// Entry of the register: a posting with the running total.
#[derive(Debug, PartialEq, Eq)]
pub struct RegisterEntry {
    pub date: Date,
    pub account: Account,
    pub amount: Amount,
    pub total: Amount,
}

/// Context of an evaluation: the date, and the commodity to convert into.
#[derive(Debug, PartialEq, Eq, Clone)]
pub struct EvalContext {
    pub date: Date,
    pub exchange: Option<String>,
}

/// The transactions in their original order.
pub open spec fn identity_order(n: nat) -> Seq<usize> {
    Seq::new(n, |i: int| i as usize)
}

/// The register items of the postings of a transaction on its date: the accounts the filter
/// lets through, with their amounts.
pub open spec fn posting_items(ps: Seq<crate::transaction::Posting>, date: Date, f: AccountFilter) -> Seq<(Date, Account, AmountView)>
    decreases ps.len(),
{
    if ps.len() == 0 {
        Seq::empty()
    } else {
        posting_items(ps.drop_last(), date, f) + if filter_matches(f, ps.last().account) {
            seq![(date, ps.last().account, ps.last().amount@)]
        } else {
            Seq::empty()
        }
    }
}

/// The register items of the transactions along `order`, those in the range.
pub open spec fn reg_items(txns: Seq<Transaction>, order: Seq<usize>, range: DateRange, f: AccountFilter) -> Seq<(Date, Account, AmountView)>
    decreases order.len(),
{
    if order.len() == 0 {
        Seq::empty()
    } else {
        let t = txns[order.last() as int];
        reg_items(txns, order.drop_last(), range, f) + if range_contains(range, t.date) {
            posting_items(t.postings@, t.date, f)
        } else {
            Seq::empty()
        }
    }
}

/// `x` is the amount `a` converted into the commodity `t` on the date: each of its entries
/// converted (see [`converts_prefix`](crate::price_db::converts_prefix)), and summed.
pub open spec fn amount_converts(inner: NaivePriceRepository, date: Date, t: nat, a: AmountView, x: AmountView) -> bool {
    exists|cs: Seq<crate::decimal::DecimalView>|
        cs.len() == entries(a).len() && converts_prefix(inner, date, t, entries(a), cs) && #[trigger] amount_of_pairs(
            with_pairs(t, cs),
        ) == Some(x)
}

/// The entries are the items, each amount converted into `t` at the item's date.
pub open spec fn items_converted(
    items: Seq<(Date, Account, AmountView)>,
    v: Seq<RegisterEntry>,
    inner: NaivePriceRepository,
    t: nat,
) -> bool {
    &&& v.len() == items.len()
    &&& forall|q: int|
        0 <= q < v.len() ==> (#[trigger] v[q]).date == items[q].0 && v[q].account == items[q].1 && amount_converts(
            inner,
            items[q].0,
            t,
            items[q].2,
            v[q].amount@,
        )
}

/// The amounts of the items.
pub open spec fn item_amounts(items: Seq<(Date, Account, AmountView)>) -> Seq<AmountView> {
    items.map_values(|x: (Date, Account, AmountView)| x.2)
}

/// The date, account and amount of the entries.
pub open spec fn entry_views(v: Seq<RegisterEntry>) -> Seq<(Date, Account, AmountView)> {
    v.map_values(|e: RegisterEntry| (e.date, e.account, e.amount@))
}

/// Each entry's total is the sum of the amounts up to it.
pub open spec fn totals_ok(v: Seq<RegisterEntry>) -> bool {
    forall|q: int| 0 <= q < v.len() ==> Some((#[trigger] v[q]).total@) == amount_sum(item_amounts(entry_views(v)).subrange(0, q + 1))
}

/// The register of the items: their entries with running totals, or the overflow.
pub open spec fn register_result(items: Seq<(Date, Account, AmountView)>, r: Result<Vec<RegisterEntry>, QueryError>) -> bool {
    match amount_sum(item_amounts(items)) {
        Some(_) => r matches Ok(v) && entry_views(v@) == items && totals_ok(v@),
        None => r matches Err(QueryError::EvalFailed(OwnedEvalError::NumberOverflow)),
    }
}

/// The register of the query over the transactions, see [`register_result`]: along the
/// original order, or along the date order of the transactions in the range.
pub open spec fn register_of(txns: Seq<Transaction>, query: RegisterQuery, r: Result<Vec<RegisterEntry>, QueryError>) -> bool {
    exists|order: Seq<usize>|
        #![trigger reg_items(txns, order, query.date_range, query.account)]
        (if query.sort is Original { order == identity_order(txns.len()) } else { date_order_of(txns, query.date_range, order) })
            && register_result(reg_items(txns, order, query.date_range, query.account), r)
}

/// Once a prefix of the amounts overflows, so does the sum of all.
proof fn lemma_sum_prefix_none(ds: Seq<AmountView>, n: int)
    requires
        0 <= n <= ds.len(),
        amount_sum(ds.subrange(0, n)) is None,
    ensures
        amount_sum(ds) is None,
    decreases ds.len() - n,
{
    if n == ds.len() {
        assert(ds.subrange(0, n) =~= ds);
    } else {
        assert(ds.subrange(0, n + 1).drop_last() =~= ds.subrange(0, n));
        lemma_sum_prefix_none(ds, n + 1);
    }
}

/// The items of a prefix of the postings are a prefix of the items of the postings.
proof fn lemma_posting_items_prefix(ps: Seq<crate::transaction::Posting>, date: Date, f: AccountFilter, m: int)
    requires
        0 <= m <= ps.len(),
    ensures
        posting_items(ps.subrange(0, m), date, f).len() <= posting_items(ps, date, f).len(),
        posting_items(ps, date, f).subrange(0, posting_items(ps.subrange(0, m), date, f).len() as int) == posting_items(ps.subrange(0, m), date, f),
    decreases ps.len() - m,
{
    if m == ps.len() {
        assert(ps.subrange(0, m) =~= ps);
        assert(posting_items(ps, date, f).subrange(0, posting_items(ps, date, f).len() as int) =~= posting_items(ps, date, f));
    } else {
        lemma_posting_items_prefix(ps, date, f, m + 1);
        let a = posting_items(ps.subrange(0, m), date, f);
        let b = posting_items(ps.subrange(0, m + 1), date, f);
        assert(ps.subrange(0, m + 1).drop_last() =~= ps.subrange(0, m));
        assert(b.subrange(0, a.len() as int) =~= a);
        assert(posting_items(ps, date, f).subrange(0, a.len() as int) =~= posting_items(ps, date, f).subrange(0, b.len() as int).subrange(0, a.len() as int));
    }
}

/// The items along a prefix of the order are a prefix of the items along the order.
proof fn lemma_reg_items_prefix(txns: Seq<Transaction>, order: Seq<usize>, range: DateRange, f: AccountFilter, m: int)
    requires
        0 <= m <= order.len(),
    ensures
        reg_items(txns, order.subrange(0, m), range, f).len() <= reg_items(txns, order, range, f).len(),
        reg_items(txns, order, range, f).subrange(0, reg_items(txns, order.subrange(0, m), range, f).len() as int) == reg_items(txns, order.subrange(0, m), range, f),
    decreases order.len() - m,
{
    if m == order.len() {
        assert(order.subrange(0, m) =~= order);
        assert(reg_items(txns, order, range, f).subrange(0, reg_items(txns, order, range, f).len() as int) =~= reg_items(txns, order, range, f));
    } else {
        lemma_reg_items_prefix(txns, order, range, f, m + 1);
        let a = reg_items(txns, order.subrange(0, m), range, f);
        let b = reg_items(txns, order.subrange(0, m + 1), range, f);
        assert(order.subrange(0, m + 1).drop_last() =~= order.subrange(0, m));
        assert(b.subrange(0, a.len() as int) =~= a);
        assert(reg_items(txns, order, range, f).subrange(0, a.len() as int) =~= reg_items(txns, order, range, f).subrange(0, b.len() as int).subrange(0, a.len() as int));
    }
}

/// An overflow on the items so far is an overflow of the register.
proof fn lemma_register_overflow(
    txns: Seq<Transaction>,
    order: Seq<usize>,
    k: int,
    j: int,
    range: DateRange,
    f: AccountFilter,
    views: Seq<(Date, Account, AmountView)>,
)
    requires
        0 <= k < order.len(),
        0 <= order[k] < txns.len(),
        0 <= j < txns[order[k] as int].postings@.len(),
        range_contains(range, txns[order[k] as int].date),
        views == reg_items(txns, order.subrange(0, k), range, f) + posting_items(txns[order[k] as int].postings@.subrange(0, j + 1), txns[order[k] as int].date, f),
        amount_sum(item_amounts(views)) is None,
    ensures
        amount_sum(item_amounts(reg_items(txns, order, range, f))) is None,
{
    let t = txns[order[k] as int];
    let o2 = order.subrange(0, k + 1);
    assert(o2.drop_last() =~= order.subrange(0, k));
    assert(o2.last() == order[k]);
    lemma_posting_items_prefix(t.postings@, t.date, f, j + 1);
    lemma_reg_items_prefix(txns, order, range, f, k + 1);
    let all = reg_items(txns, order, range, f);
    let upto = reg_items(txns, o2, range, f);
    assert(upto == reg_items(txns, order.subrange(0, k), range, f) + posting_items(t.postings@, t.date, f));
    assert(all.subrange(0, views.len() as int) =~= views);
    assert(item_amounts(all).subrange(0, views.len() as int) =~= item_amounts(views));
    lemma_sum_prefix_none(item_amounts(all), views.len() as int);
}

/// Booked Ledger: the transactions, the balance they gave, and the prices.
pub struct Ledger {
    pub transactions: Vec<Transaction>,
    pub raw_balance: Balance,
    pub price_repos: PriceRepository,
}

/// `0, 1, .., n - 1`.
fn identity(n: usize) -> (r: Vec<usize>)
    ensures
        r@ == identity_order(n as nat),
{
    let mut v: Vec<usize> = Vec::new();
    let mut i: usize = 0;
    while i < n
        invariant
            i <= n,
            v@ == identity_order(i as nat),
        decreases n - i,
    {
        v.push(i);
        i = i + 1;
        assert(v@ =~= identity_order(i as nat));
    }
    v
}

impl Ledger {
    /// The transactions, in their original order.
    pub fn transactions(&self) -> (r: &Vec<Transaction>)
        ensures
            r == &self.transactions,
    {
        &self.transactions
    }

    /// Balance of the query. Without conversion: the booked balance for an unbounded range,
    /// else the balance of the transactions in the range by date (see [`compute_balance`]);
    /// then only the accounts the filter lets through.
    pub fn balance(&mut self, ctx: &ReportContext, query: &BalanceQuery) -> (r: Result<Balance, QueryError>)
        requires
            old(self).transactions@.len() < usize::MAX,
            query.conversion matches Some(c) ==> c.target.0 < usize::MAX,
        ensures
            final(self).transactions@ == old(self).transactions@,
            final(self).raw_balance@ == old(self).raw_balance@,
            final(self).price_repos.inner() == old(self).price_repos.inner(),
            query.conversion is None && query.date_range.start is None && query.date_range.end is None
                ==> (r matches Ok(x) && (query.account is All ==> x@ == old(self).raw_balance@) && forall|a: Account|
                !(query.account is All) ==> #[trigger] bal_get(x@, a) == bal_filtered(old(self).raw_balance@, query.account, a)),
            query.conversion is None && !(query.date_range.start is None && query.date_range.end is None)
                ==> exists|order: Seq<usize>| date_order_of(old(self).transactions@, query.date_range, order) && match bal_fold(
                Seq::empty(),
                flat_postings(old(self).transactions@, order),
            ) {
                Some(b) => r matches Ok(x) && (query.account is All ==> x@ == bal_round(ctx.commodities, b)) && forall|a: Account|
                    !(query.account is All) ==> #[trigger] bal_get(x@, a) == bal_filtered(bal_round(ctx.commodities, b), query.account, a),
                None => r matches Err(QueryError::EvalFailed(OwnedEvalError::NumberOverflow)),
            },
            r matches Ok(x) ==> forall|a: Account| #[trigger] bal_get(x@, a) is Some ==> filter_matches(query.account, a),
            query.conversion matches Some(c) ==> (r matches Ok(x) ==> bal_only(x@, c.target.0 as nat)),
            query.conversion matches Some(Conversion { strategy: ConversionStrategy::UpToDate { today }, target }) ==> (
            r matches Ok(x) ==> exists|base: BalanceView, cv: BalanceView|
                #![trigger balance_converted(old(self).price_repos.inner(), today, target.0 as nat, base, cv)]
                (query.date_range.start is None && query.date_range.end is None ==> base == old(self).raw_balance@)
                    && (!(query.date_range.start is None && query.date_range.end is None) ==> exists|
                    order: Seq<usize>,
                    b0: BalanceView,
                |
                    #![trigger date_order_of(old(self).transactions@, query.date_range, order), bal_round(ctx.commodities, b0)]
                    date_order_of(old(self).transactions@, query.date_range, order) && bal_fold(
                        Seq::empty(),
                        flat_postings(old(self).transactions@, order),
                    ) == Some(b0) && base == bal_round(ctx.commodities, b0)) && balance_converted(
                    old(self).price_repos.inner(),
                    today,
                    target.0 as nat,
                    base,
                    cv,
                ) && (query.account is All ==> x@ == bal_round(ctx.commodities, cv)) && forall|a: Account|
                    !(query.account is All) ==> #[trigger] bal_get(x@, a) == bal_filtered(
                        bal_round(ctx.commodities, cv),
                        query.account,
                        a,
                    )),
            query.conversion matches Some(Conversion { strategy: ConversionStrategy::Historical, target }) ==> (r matches Ok(
                x,
            ) ==> exists|order: Seq<usize>, b: BalanceView|
                #![trigger historical_balance(old(self).price_repos.inner(), target.0 as nat, flat_dated(old(self).transactions@, order), b)]
                (if query.date_range.start is None && query.date_range.end is None {
                    order == identity_order(old(self).transactions@.len())
                } else {
                    date_order_of(old(self).transactions@, query.date_range, order)
                }) && historical_balance(
                    old(self).price_repos.inner(),
                    target.0 as nat,
                    flat_dated(old(self).transactions@, order),
                    b,
                ) && (query.account is All ==> x@ == bal_round(ctx.commodities, b)) && forall|a: Account|
                    !(query.account is All) ==> #[trigger] bal_get(x@, a) == bal_filtered(
                        bal_round(ctx.commodities, b),
                        query.account,
                        a,
                    )),
    {
        let ghost mut ord: Seq<usize> = Seq::empty();
        let base = if !query.require_recompute() {
            self.raw_balance.duplicate()
        } else {
            let order = if query.date_range.is_bypass() {
                identity(self.transactions.len())
            } else {
                date_order(&self.transactions, query.date_range)
            };
            proof {
                assert forall|k: int| 0 <= k < order@.len() implies (#[trigger] order@[k]) < self.transactions@.len() by {}
                ord = order@;
            }
            match compute_balance(ctx, &mut self.price_repos, &self.transactions, &order, query.conversion) {
                Ok(b) => b,
                Err(e) => {
                    return Err(e);
                },
            }
        };
        let converted = match query.conversion {
            Some(c) => match c.strategy {
                ConversionStrategy::UpToDate { today } => {
                    let items = base.iter();
                    let mut converted = Balance::new();
                    let ghost mut convs: Seq<AmountView> = Seq::empty();
                    let mut i: usize = 0;
                    while i < items.len()
                        invariant
                            i <= items@.len(),
                            c.target.0 < usize::MAX,
                            query.conversion == Some(c),
                            self.transactions@ == old(self).transactions@,
                            self.raw_balance@ == old(self).raw_balance@,
                            self.price_repos.inner() == old(self).price_repos.inner(),
                            forall|k: int| 0 <= k < items@.len() ==> bal_get(base@, (#[trigger] items@[k]).0) == Some(items@[k].1@),
                            forall|a: Account| #[trigger] bal_get(converted@, a) is Some ==> bal_get(base@, a) is Some,
                            bal_only(converted@, c.target.0 as nat),
                            forall|k: int, l: int| 0 <= k < l < items@.len() ==> (#[trigger] items@[k]).0.0 < (#[trigger] items@[l]).0.0,
                            forall|a: Account| #[trigger] bal_get(converted@, a) is Some ==> exists|k: int| 0 <= k < i && items@[k].0 == a,
                            convs.len() == i,
                            forall|k: int|
                                0 <= k < i ==> amount_converts(old(self).price_repos.inner(), today, c.target.0 as nat, items@[k].1@, #[trigger] convs[k])
                                    && bal_get(converted@, items@[k].0) == Some(amount_strip_zero(convs[k])),
                        decreases items@.len() - i,
                    {
                        let amount = match convert_amount(ctx, &mut self.price_repos, &items[i].1, c.target, today) {
                            Ok(x) => x,
                            Err(e) => {
                                return Err(QueryError::CommodityConversionFailure(e));
                            },
                        };
                        proof {
                            assert(bal_get(base@, items@[i as int].0) is Some);
                        }
                        let ghost before = converted@;
                        let ghost amount_view = amount@;
                        match converted.add_amount(items[i].0, amount) {
                            Ok(_) => {},
                            Err(_) => {
                                return Err(QueryError::EvalFailed(OwnedEvalError::NumberOverflow));
                            },
                        }
                        proof {
                            let t = c.target.0 as nat;
                            let acc = items@[i as int].0;
                            let g = bal_get_or_zero(before, acc);
                            assert forall|d: nat| d != t implies #[trigger] amt_get(g, d) is None by {
                                if let Some(x) = bal_get(before, acc) {
                                    assert(amount_only(x, t));
                                }
                            }
                            lemma_only_add(g, amount_view, t);
                            assert forall|a: Account| (#[trigger] bal_get(converted@, a) matches Some(x) ==> amount_only(x, t)) by {
                                if a != acc {
                                    assert(bal_get(converted@, a) == bal_get(before, a));
                                }
                            }
                            assert forall|a: Account| #[trigger] bal_get(converted@, a) is Some implies bal_get(base@, a) is Some by {
                                if a != items@[i as int].0 {
                                    assert(bal_get(converted@, a) == bal_get(before, a));
                                }
                            }
                            assert(bal_get(before, acc) is None) by {
                                if bal_get(before, acc) is Some {
                                    let k = choose|k: int| 0 <= k < i && items@[k].0 == acc;
                                    assert(items@[k].0.0 < items@[i as int].0.0);
                                }
                            }
                            crate::eval::amount::lemma_add_zero(amount_view);
                            assert(amount_converts(old(self).price_repos.inner(), today, c.target.0 as nat, items@[i as int].1@, amount_view));
                            assert forall|a: Account| #[trigger] bal_get(converted@, a) is Some implies exists|k: int| 0 <= k < i + 1 && items@[k].0 == a by {
                                if a != acc {
                                    assert(bal_get(converted@, a) == bal_get(before, a));
                                } else {
                                    assert(items@[i as int].0 == a);
                                }
                            }
                            let convs2 = convs.push(amount_view);
                            assert forall|k: int| 0 <= k < i + 1 implies amount_converts(old(self).price_repos.inner(), today, c.target.0 as nat, items@[k].1@, #[trigger] convs2[k])
                                    && bal_get(converted@, items@[k].0) == Some(amount_strip_zero(convs2[k])) by {
                                if k < i {
                                    assert(convs2[k] == convs[k]);
                                    assert(items@[k].0 != acc) by {
                                        assert(items@[k].0.0 < items@[i as int].0.0);
                                    }
                                    assert(bal_get(converted@, items@[k].0) == bal_get(before, items@[k].0));
                                } else {
                                    assert(bal_get(converted@, acc) == Some(amount_strip_zero(amount_view)));
                                }
                            }
                            convs = convs2;
                        }
                        i = i + 1;
                    }
                    let ghost unrounded = converted@;
                    converted.round(ctx);
                    proof {
                        assert(converted@ =~= bal_round(ctx.commodities, unrounded));
                        lemma_only_round(ctx.commodities, unrounded, c.target.0 as nat);
                        assert forall|a: Account| #[trigger] bal_get(base@, a) is None implies bal_get(unrounded, a) is None by {}
                        assert forall|a: Account| #[trigger] bal_get(base@, a) is Some implies exists|x: AmountView|
                            #[trigger] amount_converts(old(self).price_repos.inner(), today, c.target.0 as nat, bal_get(base@, a)->0, x)
                                && bal_get(unrounded, a) == Some(amount_strip_zero(x)) by {
                            let k = choose|k: int| 0 <= k < items@.len() && items@[k].0 == a;
                            assert(bal_get(base@, items@[k].0) == Some(items@[k].1@));
                            let x = convs[k];
                            assert(amount_converts(old(self).price_repos.inner(), today, c.target.0 as nat, items@[k].1@, convs[k]));
                            assert(amount_converts(old(self).price_repos.inner(), today, c.target.0 as nat, bal_get(base@, a)->0, x));
                        }
                        assert(balance_converted(old(self).price_repos.inner(), today, c.target.0 as nat, base@, unrounded));
                    }
                    converted
                },
                ConversionStrategy::Historical => base,
            },
            None => base,
        };
        match &query.account {
            AccountFilter::All => Ok(converted),
            filter => {
                let f = filter_balance(&converted, filter);
                proof {
                    if let Some(c) = query.conversion {
                        let t = c.target.0 as nat;
                        assert forall|a: Account| (#[trigger] bal_get(f@, a) matches Some(x) ==> amount_only(x, t)) by {
                            if let Some(x) = bal_get(converted@, a) {
                                assert(amount_only(x, t));
                                let m = x.map_values(|v: Option<crate::decimal::DecimalView>| crate::eval::amount::strip_zero(v));
                                crate::commodity::lemma_trim_none(m);
                                assert forall|d: nat| d != t implies #[trigger] amt_get(amount_strip_zero(x), d) is None by {
                                    assert(map_at(trim_none(m), d) == map_at(m, d));
                                    assert(amt_get(x, d) is None);
                                }
                            }
                        }
                    }
                }
                Ok(f)
            },
        }
    }

    /// Register of the query: the postings of the accounts the filter lets through, in the
    /// transactions in the range (in their original order, or by date), with the running
    /// total. An up-to-date conversion is not supported.
    pub fn register_entries(&mut self, ctx: &ReportContext, query: &RegisterQuery) -> (r: Result<Vec<RegisterEntry>, QueryError>)
        requires
            old(self).transactions@.len() < usize::MAX,
            query.conversion matches Some(c) ==> c.target.0 < usize::MAX,
        ensures
            final(self).transactions@ == old(self).transactions@,
            final(self).raw_balance@ == old(self).raw_balance@,
            final(self).price_repos.inner() == old(self).price_repos.inner(),
            (query.conversion matches Some(c) && c.strategy is UpToDate) ==> r matches Err(QueryError::UnsupportedConversionStrategy),
            query.conversion is None && (query.account matches AccountFilter::Accounts(s) && s@.len() == 0) ==> (r matches Ok(v) && v@.len() == 0),
            query.conversion is None && !(query.account matches AccountFilter::Accounts(s) && s@.len() == 0) ==> register_of(old(self).transactions@, *query, r),
            r matches Err(QueryError::UnsupportedConversionStrategy) ==> (query.conversion matches Some(c)
                && c.strategy is UpToDate),
            r matches Err(e) ==> (e is UnsupportedConversionStrategy || e is CommodityConversionFailure
                || e == QueryError::EvalFailed(OwnedEvalError::NumberOverflow)),
            r matches Ok(v) ==> totals_ok(v@),
            r matches Ok(v) ==> forall|q: int|
                0 <= q < v@.len() ==> filter_matches(query.account, (#[trigger] v@[q]).account)
                    && range_contains(query.date_range, v@[q].date),
            query.conversion matches Some(c) ==> (r matches Ok(v) ==> forall|q: int, d: nat|
                0 <= q < v@.len() && d != c.target.0 ==> #[trigger] amt_get((#[trigger] v@[q]).amount@, d) is None),
            (query.account matches AccountFilter::Accounts(s) && s@.len() == 0) ==> (r matches Ok(v) ==> v@.len() == 0),
            query.conversion matches Some(c) ==> (!query.account.is_exhaustive_empty_spec() ==> (r matches Ok(v) ==> exists|order: Seq<usize>|
                #![trigger reg_items(old(self).transactions@, order, query.date_range, query.account)]
                (if query.sort is Original { order == identity_order(old(self).transactions@.len()) } else { date_order_of(
                    old(self).transactions@,
                    query.date_range,
                    order,
                ) }) && items_converted(
                    reg_items(old(self).transactions@, order, query.date_range, query.account),
                    v@,
                    old(self).price_repos.inner(),
                    c.target.0 as nat,
                ))),
    {
        match query.conversion {
            Some(c) => match c.strategy {
                ConversionStrategy::UpToDate { .. } => {
                    return Err(QueryError::UnsupportedConversionStrategy);
                },
                ConversionStrategy::Historical => {},
            },
            None => {},
        }
        if query.account.is_exhaustive_empty() {
            return Ok(Vec::new());
        }
        let order = match query.sort {
            Sort::Original => identity(self.transactions.len()),
            Sort::Date => date_order(&self.transactions, query.date_range),
        };
        proof {
            assert forall|q: int| 0 <= q < order@.len() implies (#[trigger] order@[q]) < self.transactions@.len() by {}
        }
        let ghost txns = self.transactions@;
        let ghost historical = query.conversion is Some;
        let mut entries: Vec<RegisterEntry> = Vec::new();
        let mut total = Amount::zero();
        assert(entry_views(entries@) =~= Seq::<(Date, Account, AmountView)>::empty());
        let mut k: usize = 0;
        while k < order.len()
            invariant
                k <= order@.len(),
                forall|q: int| 0 <= q < order@.len() ==> (#[trigger] order@[q]) < txns.len(),
                self.transactions@ == txns,
                self.raw_balance@ == old(self).raw_balance@,
                self.price_repos.inner() == old(self).price_repos.inner(),
                txns == old(self).transactions@,
                !(query.conversion matches Some(c) && c.strategy is UpToDate),
                historical == (query.conversion is Some),
                query.conversion matches Some(c) ==> c.target.0 < usize::MAX,
                (if query.sort is Original { order@ == identity_order(txns.len()) } else { date_order_of(txns, query.date_range, order@) }),
                !historical ==> entry_views(entries@) == reg_items(txns, order@.subrange(0, k as int), query.date_range, query.account),
                !historical ==> totals_ok(entries@),
                !historical ==> amount_sum(item_amounts(entry_views(entries@))) == Some(total@),
                totals_ok(entries@),
                amount_sum(item_amounts(entry_views(entries@))) == Some(total@),
                forall|q: int|
                    0 <= q < entries@.len() ==> filter_matches(query.account, (#[trigger] entries@[q]).account)
                        && range_contains(query.date_range, entries@[q].date),
                historical ==> forall|q: int, d: nat|
                    0 <= q < entries@.len() && d != query.conversion->0.target.0 ==> #[trigger] amt_get((#[trigger] entries@[q]).amount@, d) is None,
                historical ==> items_converted(
                    reg_items(txns, order@.subrange(0, k as int), query.date_range, query.account),
                    entries@,
                    old(self).price_repos.inner(),
                    query.conversion->0.target.0 as nat,
                ),
            decreases order@.len() - k,
        {
            let ghost pre = reg_items(txns, order@.subrange(0, k as int), query.date_range, query.account);
            proof {
                let o2 = order@.subrange(0, k + 1);
                assert(o2.drop_last() =~= order@.subrange(0, k as int));
            }
            let txn = &self.transactions[order[k]];
            if query.date_range.contains(txn.date) {
                let mut j: usize = 0;
                while j < txn.postings.len()
                    invariant
                        j <= txn.postings@.len(),
                        k < order@.len(),
                        forall|q: int| 0 <= q < order@.len() ==> (#[trigger] order@[q]) < txns.len(),
                        self.transactions@ == txns,
                        self.raw_balance@ == old(self).raw_balance@,
                        self.price_repos.inner() == old(self).price_repos.inner(),
                        txns == old(self).transactions@,
                        *txn == txns[order@[k as int] as int],
                        range_contains(query.date_range, txn.date),
                        !(query.conversion matches Some(c) && c.strategy is UpToDate),
                        historical == (query.conversion is Some),
                        query.conversion matches Some(c) ==> c.target.0 < usize::MAX,
                        pre == reg_items(txns, order@.subrange(0, k as int), query.date_range, query.account),
                        (if query.sort is Original { order@ == identity_order(txns.len()) } else { date_order_of(txns, query.date_range, order@) }),
                        !historical ==> entry_views(entries@) == pre + posting_items(txn.postings@.subrange(0, j as int), txn.date, query.account),
                        !historical ==> totals_ok(entries@),
                        !historical ==> amount_sum(item_amounts(entry_views(entries@))) == Some(total@),
                        totals_ok(entries@),
                        amount_sum(item_amounts(entry_views(entries@))) == Some(total@),
                        forall|q: int|
                            0 <= q < entries@.len() ==> filter_matches(query.account, (#[trigger] entries@[q]).account)
                                && range_contains(query.date_range, entries@[q].date),
                        historical ==> forall|q: int, d: nat|
                            0 <= q < entries@.len() && d != query.conversion->0.target.0 ==> #[trigger] amt_get((#[trigger] entries@[q]).amount@, d) is None,
                        historical ==> items_converted(
                            pre + posting_items(txn.postings@.subrange(0, j as int), txn.date, query.account),
                            entries@,
                            old(self).price_repos.inner(),
                            query.conversion->0.target.0 as nat,
                        ),
                    decreases txn.postings@.len() - j,
                {
                    let posting = &txn.postings[j];
                    proof {
                        let s2 = txn.postings@.subrange(0, j + 1);
                        assert(s2.drop_last() =~= txn.postings@.subrange(0, j as int));
                        assert(s2.last() == txn.postings@[j as int]);
                    }
                    if query.account.is_match(posting.account) {
                        let amount = match query.conversion {
                            Some(c) => match convert_amount(ctx, &mut self.price_repos, &posting.amount, c.target, txn.date) {
                                Ok(x) => x,
                                Err(e) => {
                                    return Err(QueryError::CommodityConversionFailure(e));
                                },
                            },
                            None => posting.amount.clone(),
                        };
                        let ghost before = entries@;
                        let next = match total.clone().check_add(amount.clone()) {
                            Ok(t) => t,
                            Err(_) => {
                                proof {
                                    if !historical {
                                        let views = entry_views(before).push((txn.date, posting.account, amount@));
                                        assert(item_amounts(views).drop_last() =~= item_amounts(entry_views(before)));
                                        let s2 = txn.postings@.subrange(0, j + 1);
                                        assert(posting_items(s2, txn.date, query.account) == posting_items(txn.postings@.subrange(0, j as int), txn.date, query.account) + seq![(txn.date, posting.account, posting.amount@)]);
                                        assert(views =~= pre + posting_items(s2, txn.date, query.account));
                                        lemma_register_overflow(txns, order@, k as int, j as int, query.date_range, query.account, views);
                                        let e = Err::<Vec<RegisterEntry>, QueryError>(QueryError::EvalFailed(OwnedEvalError::NumberOverflow));
                                        assert(register_result(reg_items(txns, order@, query.date_range, query.account), e));
                                        assert((if query.sort is Original { order@ == identity_order(txns.len()) } else { date_order_of(txns, query.date_range, order@) }));
                                        assert(register_of(txns, *query, e));
                                    }
                                }
                                return Err(QueryError::EvalFailed(OwnedEvalError::NumberOverflow));
                            },
                        };
                        total = next;
                        let ghost amount_view = amount@;
                        entries.push(RegisterEntry { date: txn.date, account: posting.account, amount, total: total.clone() });
                        proof {
                            if historical {
                                let s2 = txn.postings@.subrange(0, j + 1);
                                assert(posting_items(s2, txn.date, query.account) == posting_items(txn.postings@.subrange(0, j as int), txn.date, query.account) + seq![(txn.date, posting.account, posting.amount@)]);
                                let items2 = pre + posting_items(s2, txn.date, query.account);
                                let items1 = pre + posting_items(txn.postings@.subrange(0, j as int), txn.date, query.account);
                                assert(items2 =~= items1.push((txn.date, posting.account, posting.amount@)));
                                assert(amount_converts(old(self).price_repos.inner(), txn.date, query.conversion->0.target.0 as nat, posting.amount@, amount_view));
                                assert forall|q: int| 0 <= q < entries@.len() implies (#[trigger] entries@[q]).date == items2[q].0
                                    && entries@[q].account == items2[q].1 && amount_converts(
                                    old(self).price_repos.inner(),
                                    items2[q].0,
                                    query.conversion->0.target.0 as nat,
                                    items2[q].2,
                                    entries@[q].amount@,
                                ) by {
                                    if q < before.len() {
                                        assert(entries@[q] == before[q]);
                                        assert(items2[q] == items1[q]);
                                    }
                                }
                            }
                            assert(entry_views(entries@) =~= entry_views(before).push((txn.date, posting.account, amount@)));
                            assert(item_amounts(entry_views(entries@)).drop_last() =~= item_amounts(entry_views(before)));
                            assert forall|q: int| 0 <= q < entries@.len() implies Some((#[trigger] entries@[q]).total@) == amount_sum(item_amounts(entry_views(entries@)).subrange(0, q + 1)) by {
                                if q < before.len() {
                                    assert(item_amounts(entry_views(entries@)).subrange(0, q + 1) =~= item_amounts(entry_views(before)).subrange(0, q + 1));
                                } else {
                                    assert(item_amounts(entry_views(entries@)).subrange(0, q + 1) =~= item_amounts(entry_views(entries@)));
                                }
                            }
                            if !historical {
                                assert(entry_views(entries@) =~= entry_views(before).push((txn.date, posting.account, posting.amount@)));
                                assert(item_amounts(entry_views(entries@)).drop_last() =~= item_amounts(entry_views(before)));
                                assert forall|q: int| 0 <= q < entries@.len() implies Some((#[trigger] entries@[q]).total@) == amount_sum(item_amounts(entry_views(entries@)).subrange(0, q + 1)) by {
                                    if q < before.len() {
                                        assert(item_amounts(entry_views(entries@)).subrange(0, q + 1) =~= item_amounts(entry_views(before)).subrange(0, q + 1));
                                    } else {
                                        assert(item_amounts(entry_views(entries@)).subrange(0, q + 1) =~= item_amounts(entry_views(entries@)));
                                    }
                                }
                            }
                        }
                    }
                    j = j + 1;
                }
                proof {
                    assert(txn.postings@.subrange(0, txn.postings@.len() as int) =~= txn.postings@);
                }
            }
            k = k + 1;
        }
        proof {
            assert(order@.subrange(0, order@.len() as int) =~= order@);
            if !historical {
                assert(register_result(reg_items(txns, order@, query.date_range, query.account), Ok::<Vec<RegisterEntry>, QueryError>(entries)));
            }
        }
        let r = Ok(entries);
        proof {
            if !historical {
                assert(register_result(reg_items(txns, order@, query.date_range, query.account), r));
                assert((if query.sort is Original { order@ == identity_order(txns.len()) } else { date_order_of(txns, query.date_range, order@) }));
                assert(register_of(txns, *query, r));
            }
        }
        r
    }
}

} // verus!
