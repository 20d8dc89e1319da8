//! Balance of every account.
use crate::account::{Account, AccountStore};
use crate::commodity::{lemma_none_trimmed_ext, lemma_trim_none, map_at, none_trimmed, trim_none};
use crate::context::ReportContext;
use crate::eval::amount::{
    Amount, AmountView, amount_add, amount_round, amount_strip_zero, add_entry, amt_get,
    entries, inline_text, zero_view,
};
use crate::eval::error::{EvalError, OwnedEvalError, owned_matches};
use crate::eval::single_amount::{PostingAmount, SingleAmount};
use crate::text::push_str;
use vstd::prelude::*;

verus! {

/// Error of a balance update.
#[derive(Debug, PartialEq, Eq)]
pub enum BalanceError {
    /// `balance = 0` was asserted on an account holding several commodities; carries the
    /// balance text.
    MultiCommodityWithPartialSet(OwnedEvalError, String),
}

impl BalanceError {
    /// Short message of the error.
    pub fn message(&self) -> (r: &'static str)
        ensures
            r@ == "balance = 0 should be used on single commodity balance"@,
    {
        "balance = 0 should be used on single commodity balance"
    }

    /// Note with the actual balance: `actual: <balance>`.
    pub fn note(&self) -> (r: String)
        ensures
            match self {
                BalanceError::MultiCommodityWithPartialSet(_, b) => r@ == "actual: "@ + b@,
            },
    {
        match self {
            BalanceError::MultiCommodityWithPartialSet(_, balance) => {
                let mut s = String::new();
                push_str(&mut s, "actual: ");
                push_str(&mut s, balance.as_str());
                proof {
                    reveal_strlit("actual: ");
                }
                s
            },
        }
    }
}

/// View of a balance: the optional amount of each account index.
pub type BalanceView = Seq<Option<AmountView>>;

/// Amount of the account in the balance view.
pub open spec fn bal_get(b: BalanceView, a: Account) -> Option<AmountView> {
    map_at(b, a.0 as nat)
}

/// The amount of the account, or the zero without commodity.
pub open spec fn bal_get_or_zero(b: BalanceView, a: Account) -> AmountView {
    match bal_get(b, a) {
        Some(x) => x,
        None => Seq::empty(),
    }
}

/// Every account but `a` keeps its amount.
pub open spec fn others_unchanged(b: BalanceView, c: BalanceView, a: Account) -> bool {
    forall|k: nat| k != a.0 ==> #[trigger] map_at(c, k) == map_at(b, k)
}

/// The view of an optional amount.
pub open spec fn opt_amount(x: Option<Amount>) -> Option<AmountView> {
    match x {
        Some(a) => Some(a@),
        None => None,
    }
}

/// The balance of each account.
#[derive(Debug, PartialEq, Eq)]
pub struct Balance {
    accounts: Vec<Option<Amount>>,
}

impl View for Balance {
    type V = BalanceView;

    closed spec fn view(&self) -> BalanceView {
        self.accounts@.map_values(|x: Option<Amount>| opt_amount(x))
    }
}

/// Copy of an optional amount.
fn clone_opt(x: &Option<Amount>) -> (r: Option<Amount>)
    ensures
        opt_amount(r) == opt_amount(*x),
{
    match x {
        Some(a) => Some(a.clone()),
        None => None,
    }
}

impl Balance {
    #[verifier::type_invariant]
    spec fn inv(self) -> bool {
        none_trimmed(self@)
    }

    /// Empty balance.
    pub fn new() -> (r: Self)
        ensures
            r@.len() == 0,
    {
        let r = Balance { accounts: Vec::new() };
        assert(r@ =~= Seq::<Option<AmountView>>::empty());
        r
    }

    /// The balance has no trailing absent account.
    pub fn check_wf(&self)
        ensures
            none_trimmed(self@),
    {
        proof {
            use_type_invariant(self);
        }
    }

    /// Amount of the account, `None` if the account was never updated.
    pub fn get(&self, account: Account) -> (r: Option<&Amount>)
        ensures
            r matches Some(x) ==> bal_get(self@, account) == Some(x@),
            r is None <==> bal_get(self@, account) is None,
    {
        if account.0 < self.accounts.len() {
            match &self.accounts[account.0] {
                Some(a) => Some(a),
                None => None,
            }
        } else {
            None
        }
    }

    /// Copy of the amount of the account, zero if absent.
    fn get_or_zero(&self, account: Account) -> (r: Amount)
        ensures
            r@ == bal_get_or_zero(self@, account),
    {
        match self.get(account) {
            Some(a) => a.clone(),
            None => Amount::zero(),
        }
    }

    /// Sets the amount of the account.
    fn put(&mut self, account: Account, amount: Amount)
        ensures
            bal_get(final(self)@, account) == Some(amount@),
            others_unchanged(old(self)@, final(self)@, account),
    {
        proof {
            use_type_invariant(&*self);
        }
        let ghost prev = self@;
        let mut v: Vec<Option<Amount>> = Vec::new();
        std::mem::swap(&mut v, &mut self.accounts);
        assert(v@.map_values(|x: Option<Amount>| opt_amount(x)) == prev);
        let k = account.0;
        while v.len() <= k
            invariant
                prev.len() <= v@.len(),
                forall|i: int| 0 <= i < prev.len() ==> opt_amount(#[trigger] v@[i]) == prev[i],
                forall|i: int| prev.len() <= i < v@.len() ==> v@[i] is None,
                v@.len() <= prev.len() || v@.len() <= k + 1,
            decreases k + 1 - v.len(),
        {
            v.push(None);
        }
        v.set(k, Some(amount));
        let ghost vv = v@.map_values(|x: Option<Amount>| opt_amount(x));
        proof {
            assert forall|i: nat| i != k implies #[trigger] map_at(vv, i) == map_at(prev, i) by {
                if i < prev.len() {
                    assert(opt_amount(v@[i as int]) == prev[i as int]);
                }
            }
            assert(vv.last() is Some) by {
                if v@.len() - 1 != k {
                    assert(v@.len() == prev.len());
                    assert(opt_amount(v@[v@.len() - 1]) == prev[prev.len() - 1]);
                }
            }
        }
        self.accounts = v;
    }

    /// Adds the amount to the account, and returns the new amount of the account, from which
    /// zero values are removed. The balance is unchanged on overflow.
    pub fn add_amount(&mut self, account: Account, amount: Amount) -> (r: Result<Amount, EvalError>)
        ensures
            match amount_add(bal_get_or_zero(old(self)@, account), amount@) {
                Some(s) => r matches Ok(x) && x@ == amount_strip_zero(s) && bal_get(final(self)@, account)
                    == Some(x@) && others_unchanged(old(self)@, final(self)@, account),
                None => r == Err::<Amount, EvalError>(EvalError::NumberOverflow) && final(self)@ == old(self)@,
            },
    {
        let prev = self.get_or_zero(account);
        match prev.check_add(amount) {
            Ok(mut sum) => {
                sum.remove_zero_entries();
                let ret = sum.clone();
                self.put(account, sum);
                Ok(ret)
            },
            Err(e) => Err(e),
        }
    }

    /// Adds the posting amount to the account, see [`Balance::add_amount`]; the account is
    /// registered even for a zero amount.
    pub fn add_posting_amount(&mut self, account: Account, amount: PostingAmount) -> (r: Result<
        Amount,
        EvalError,
    >)
        ensures
            amount is Zero ==> (r matches Ok(x) && x@ == amount_strip_zero(
                bal_get_or_zero(old(self)@, account),
            ) && bal_get(final(self)@, account) == Some(x@) && others_unchanged(
                old(self)@,
                final(self)@,
                account,
            )),
            amount matches PostingAmount::Single(s) ==> match add_entry(
                bal_get_or_zero(old(self)@, account),
                s.commodity.0 as nat,
                s.value@,
            ) {
                Some(n) => r matches Ok(x) && x@ == amount_strip_zero(n) && bal_get(
                    final(self)@,
                    account,
                ) == Some(x@) && others_unchanged(old(self)@, final(self)@, account),
                None => r == Err::<Amount, EvalError>(EvalError::NumberOverflow) && final(self)@
                    == old(self)@,
            },
    {
        let mut curr = self.get_or_zero(account);
        match curr.add_posting(amount) {
            Ok(()) => {
                curr.remove_zero_entries();
                let ret = curr.clone();
                self.put(account, curr);
                Ok(ret)
            },
            Err(e) => Err(e),
        }
    }

    /// Sets the balance of the account, returning the previous value.
    /// A zero sets the whole account to zero, and fails when it held several commodities;
    /// a single amount sets only its commodity.
    pub fn set_partial(
        &mut self,
        ctx: &ReportContext,
        account: Account,
        amount: PostingAmount,
    ) -> (r: Result<PostingAmount, BalanceError>)
        ensures
            amount is Zero ==> bal_get(final(self)@, account) == Some(Seq::<Option<crate::decimal::DecimalView>>::empty())
                && others_unchanged(old(self)@, final(self)@, account) && ({
                let prev = bal_get_or_zero(old(self)@, account);
                if entries(prev).len() > 1 {
                    r matches Err(BalanceError::MultiCommodityWithPartialSet(e, s)) && owned_matches(
                        EvalError::PostingAmountRequired,
                        e,
                        ctx.commodities,
                    ) && s@ == inline_text(ctx.commodities, prev)
                } else if entries(prev).len() == 0 {
                    r == Ok::<PostingAmount, BalanceError>(PostingAmount::Zero)
                } else {
                    r matches Ok(PostingAmount::Single(x)) && x.commodity.0 == entries(prev)[0].0
                        && x.value@ == entries(prev)[0].1
                }
            }),
            amount matches PostingAmount::Single(s) ==> others_unchanged(
                old(self)@,
                final(self)@,
                account,
            ),
            amount matches PostingAmount::Single(s) ==> (r matches Ok(PostingAmount::Single(p))
                && p.commodity == s.commodity && p.value@ == match amt_get(
                bal_get_or_zero(old(self)@, account),
                s.commodity.0 as nat,
            ) {
                Some(v) => v,
                None => zero_view(),
            }),
            amount matches PostingAmount::Single(s) ==> (bal_get(final(self)@, account) matches Some(n)
                && (forall|c: nat|
                c != s.commodity.0 ==> #[trigger] amt_get(n, c) == amt_get(
                    bal_get_or_zero(old(self)@, account),
                    c,
                )) && (s.value@.1 == 0 ==> amt_get(n, s.commodity.0 as nat) is None) && (
            s.value@.1 != 0 ==> amt_get(n, s.commodity.0 as nat) == Some(s.value@))),
    {
        match amount {
            PostingAmount::Zero => {
                let prev = self.get_or_zero(account);
                self.put(account, Amount::zero());
                match prev.to_posting() {
                    Ok(p) => Ok(p),
                    Err(e) => {
                        let text = prev.to_inline_string(ctx);
                        Err(BalanceError::MultiCommodityWithPartialSet(e.into_owned(ctx), text))
                    },
                }
            },
            PostingAmount::Single(single) => {
                let mut curr = self.get_or_zero(account);
                let prev = curr.set_partial(single);
                self.put(account, curr);
                Ok(PostingAmount::Single(prev))
            },
        }
    }

    /// Rounds every amount to the precision of its commodities.
    pub fn round(&mut self, ctx: &ReportContext)
        ensures
            final(self)@.len() == old(self)@.len(),
            forall|k: int|
                0 <= k < old(self)@.len() ==> #[trigger] final(self)@[k] == match old(self)@[k] {
                    Some(a) => Some(amount_round(ctx.commodities, a)),
                    None => None,
                },
    {
        proof {
            use_type_invariant(&*self);
        }
        let ghost prev = self@;
        let mut v: Vec<Option<Amount>> = Vec::new();
        std::mem::swap(&mut v, &mut self.accounts);
        let mut out: Vec<Option<Amount>> = Vec::new();
        let mut i: usize = 0;
        while i < v.len()
            invariant
                i <= v.len(),
                out@.len() == i,
                prev == v@.map_values(|x: Option<Amount>| opt_amount(x)),
                forall|k: int|
                    0 <= k < i ==> opt_amount(#[trigger] out@[k]) == match prev[k] {
                        Some(a) => Some(amount_round(ctx.commodities, a)),
                        None => None,
                    },
            decreases v.len() - i,
        {
            let e = match &v[i] {
                Some(a) => Some(a.clone().round(ctx)),
                None => None,
            };
            out.push(e);
            i = i + 1;
        }
        proof {
            if out@.len() > 0 {
                assert(opt_amount(out@[out@.len() - 1]) is Some);
            }
        }
        self.accounts = out;
    }

    /// The accounts with an amount, in index order, as [`Balance::iter`] gives them.
    pub fn into_vec(self) -> (r: Vec<(Account, Amount)>)
        ensures
            forall|k: int|
                0 <= k < r.len() ==> bal_get(self@, (#[trigger] r[k]).0) == Some(r[k].1@),
            forall|k: int, l: int| 0 <= k < l < r.len() ==> (#[trigger] r[k]).0.0 < (#[trigger] r[l]).0.0,
            forall|a: Account| #[trigger] bal_get(self@, a) is Some ==> exists|k: int|
                0 <= k < r.len() && r[k].0 == a,
    {
        self.iter()
    }

    /// The accounts with an amount, in index order.
    pub fn iter(&self) -> (r: Vec<(Account, Amount)>)
        ensures
            forall|k: int|
                0 <= k < r.len() ==> bal_get(self@, (#[trigger] r[k]).0) == Some(r[k].1@),
            forall|k: int, l: int| 0 <= k < l < r.len() ==> (#[trigger] r[k]).0.0 < (#[trigger] r[l]).0.0,
            forall|a: Account| #[trigger] bal_get(self@, a) is Some ==> exists|k: int|
                0 <= k < r.len() && r[k].0 == a,
    {
        let mut r: Vec<(Account, Amount)> = Vec::new();
        let mut i: usize = 0;
        while i < self.accounts.len()
            invariant
                i <= self.accounts.len(),
                self@.len() == self.accounts@.len(),
                forall|k: int| 0 <= k < r.len() ==> bal_get(self@, (#[trigger] r[k]).0) == Some(r[k].1@),
                forall|k: int| 0 <= k < r.len() ==> (#[trigger] r[k]).0.0 < i,
                forall|k: int, l: int| 0 <= k < l < r.len() ==> (#[trigger] r[k]).0.0 < (#[trigger] r[l]).0.0,
                forall|a: Account| a.0 < i && #[trigger] bal_get(self@, a) is Some ==> exists|k: int|
                    0 <= k < r.len() && r[k].0 == a,
            decreases self.accounts.len() - i,
        {
            let ghost before = r@;
            match &self.accounts[i] {
                Some(a) => {
                    r.push((Account(i), a.clone()));
                    proof {
                        assert(r[r.len() - 1].0 == Account(i));
                    }
                },
                None => {},
            }
            proof {
                assert forall|a: Account| a.0 < i + 1 && #[trigger] bal_get(self@, a) is Some implies exists|k: int|
                    0 <= k < r.len() && r[k].0 == a by {
                    if a.0 == i {
                        assert(r[r.len() - 1].0 == a);
                    } else {
                        let k = choose|k: int| 0 <= k < before.len() && before[k].0 == a;
                        assert(r[k].0 == a);
                    }
                }
            }
            i = i + 1;
        }
        r
    }

    /// Copy of the balance.
    pub fn duplicate(&self) -> (r: Self)
        ensures
            r@ == self@,
    {
        proof {
            use_type_invariant(self);
        }
        let mut v: Vec<Option<Amount>> = Vec::new();
        let mut i: usize = 0;
        while i < self.accounts.len()
            invariant
                i <= self.accounts@.len(),
                v@.len() == i,
                forall|k: int| 0 <= k < i ==> opt_amount(#[trigger] v@[k]) == opt_amount(self.accounts@[k]),
            decreases self.accounts@.len() - i,
        {
            v.push(clone_opt(&self.accounts[i]));
            i = i + 1;
        }
        let r = Balance { accounts: v };
        assert(r@ =~= self@);
        r
    }}

} // verus!
