//! Single-entry transaction of an imported statement, tied to the statement's account.
use crate::data::{self, AmountView, ClearState, Exchange, ExchangedAmount};
use crate::date::Date;
use crate::decimal::view_neg;
use crate::import::extract::{copy_opt_string, opt_text};
use crate::import::error::ImportError;
use vstd::prelude::*;

verus! {

/// Single-entry transaction, applied to the account of the statement.
pub struct Txn {
    /// Date when the transaction happened.
    pub date: Date,
    /// Date when it took effect, where it differs from `date`.
    pub effective_date: Option<Date>,
    /// Code of the transaction.
    pub code: Option<String>,
    /// Payee (or payer).
    pub payee: String,
    /// The other account.
    pub dest_account: Option<String>,
    /// Clear state of the transaction.
    pub clear_state: ClearState,
    /// Amount for the statement's account: for a bank account positive is a deposit, for a
    /// credit card negative is an expense.
    pub amount: data::Amount,
    /// Balance of the statement's account after the transaction.
    pub balance: Option<data::Amount>,
    /// Exchange rate of the amount.
    pub rate: Option<Exchange>,
    /// Amount transferred, in another commodity.
    pub transferred_amount: Option<ExchangedAmount>,
}

/// View of an exchange: whether it is a total, and its amount.
pub open spec fn opt_exchange(e: Option<Exchange>) -> Option<(bool, AmountView)> {
    match e {
        Some(x) => Some(data::exchange_view(x)),
        None => None,
    }
}

/// View of a transaction: dates as day numbers, texts, amounts as views.
pub struct TxnView {
    pub date: int,
    pub effective_date: Option<int>,
    pub code: Option<Seq<char>>,
    pub payee: Seq<char>,
    pub dest_account: Option<Seq<char>>,
    pub clear_state: ClearState,
    pub amount: AmountView,
    pub balance: Option<AmountView>,
    pub rate: Option<(bool, AmountView)>,
    pub transferred: Option<(AmountView, Option<(bool, AmountView)>)>,
}

/// The view of the transaction.
pub open spec fn txn_view(t: Txn) -> TxnView {
    TxnView {
        date: t.date@,
        effective_date: match t.effective_date {
            Some(d) => Some(d@),
            None => None,
        },
        code: opt_text(t.code),
        payee: t.payee@,
        dest_account: opt_text(t.dest_account),
        clear_state: t.clear_state,
        amount: t.amount@,
        balance: opt_amount(t.balance),
        rate: opt_exchange(t.rate),
        transferred: match t.transferred_amount {
            Some(x) => Some((x.amount@, opt_exchange(x.exchange))),
            None => None,
        },
    }
}

/// The views of the transactions.
pub open spec fn txn_views(v: Seq<Txn>) -> Seq<TxnView> {
    v.map_values(|t: Txn| txn_view(t))
}

/// The posting has the account, clear state, amount (without exchange) and balance.
pub open spec fn posting_is(
    p: data::Posting,
    account: Seq<char>,
    clear_state: ClearState,
    amount: AmountView,
    balance: Option<AmountView>,
) -> bool {
    &&& p.account@ == account
    &&& p.clear_state == clear_state
    &&& p.amount matches Some(x) && x.amount@ == amount && x.exchange is None
    &&& match (p.balance, balance) {
        (Some(b), Some(c)) => b@ == c,
        (None, None) => true,
        _ => false,
    }
    &&& p.payee is None
}

/// View of an optional amount.
pub open spec fn opt_amount(a: Option<data::Amount>) -> Option<AmountView> {
    match a {
        Some(x) => Some(x@),
        None => None,
    }
}

/// Copy of an optional amount.
fn copy_opt_amount(a: &Option<data::Amount>) -> (r: Option<data::Amount>)
    ensures
        opt_amount(r) == opt_amount(*a),
{
    match a {
        Some(x) => Some(x.clone()),
        None => None,
    }
}

/// The double-entry transaction of a single-entry one on the account `src`: cleared, with
/// the posting of the other account (or `Incomes:Unknown` / `Expenses:Unknown`, pending
/// then) for the opposite amount, before the posting of `src` when the amount is positive
/// and after it when negative.
pub open spec fn double_entry(tv: TxnView, src: Seq<char>, t: data::Transaction) -> bool {
    let dest_clear = if tv.dest_account is Some { ClearState::Uncleared } else { ClearState::Pending };
    let neg = (view_neg(tv.amount.0), tv.amount.1);
    &&& t.date@ == tv.date
    &&& match t.effective_date {
        Some(d) => tv.effective_date == Some(d@),
        None => tv.effective_date is None,
    }
    &&& t.clear_state == ClearState::Cleared
    &&& opt_text(t.code) == tv.code
    &&& t.payee@ == tv.payee
    &&& t.posts@.len() == 2
    &&& if !tv.amount.0.0 {
        &&& posting_is(
            t.posts@[0],
            match tv.dest_account {
                Some(d) => d,
                None => "Incomes:Unknown"@,
            },
            dest_clear,
            neg,
            None,
        )
        &&& posting_is(t.posts@[1], src, ClearState::Uncleared, tv.amount, tv.balance)
    } else {
        &&& posting_is(t.posts@[0], src, ClearState::Uncleared, tv.amount, tv.balance)
        &&& posting_is(
            t.posts@[1],
            match tv.dest_account {
                Some(d) => d,
                None => "Expenses:Unknown"@,
            },
            dest_clear,
            neg,
            None,
        )
    }
}

impl Txn {
    /// Transaction of the date, payee and amount: cleared, nothing else set.
    pub fn new(date: Date, payee: &str, amount: data::Amount) -> (r: Txn)
        ensures
            r.date == date,
            r.effective_date is None,
            r.code is None,
            r.payee@ == payee@,
            r.dest_account is None,
            r.clear_state == ClearState::Cleared,
            r.amount@ == amount@,
            r.balance is None,
            r.rate is None,
            r.transferred_amount is None,
    {
        Txn {
            date,
            effective_date: None,
            code: None,
            payee: payee.to_string(),
            dest_account: None,
            clear_state: ClearState::Cleared,
            amount,
            balance: None,
            rate: None,
            transferred_amount: None,
        }
    }

    /// Sets the effective date, only where it differs from the date.
    pub fn effective_date(&mut self, effective_date: Date)
        ensures
            final(self).effective_date == if effective_date != old(self).date {
                Some(effective_date)
            } else {
                old(self).effective_date
            },
            final(self).date == old(self).date,
            final(self).code == old(self).code,
            final(self).payee == old(self).payee,
            final(self).dest_account == old(self).dest_account,
            final(self).clear_state == old(self).clear_state,
            final(self).amount == old(self).amount,
            final(self).balance == old(self).balance,
    {
        if self.date != effective_date {
            self.effective_date = Some(effective_date);
        }
    }

    /// Sets the code, or clears it.
    pub fn code_option(&mut self, code: Option<&str>)
        ensures
            match code {
                Some(c) => final(self).code matches Some(x) && x@ == c@,
                None => final(self).code is None,
            },
            final(self).dest_account == old(self).dest_account,
            final(self).payee == old(self).payee,
    {
        self.code = match code {
            Some(c) => Some(c.to_string()),
            None => None,
        };
    }

    /// Sets the code.
    pub fn code(&mut self, code: &str)
        ensures
            final(self).code matches Some(x) && x@ == code@,
            final(self).dest_account == old(self).dest_account,
            final(self).payee == old(self).payee,
    {
        self.code = Some(code.to_string());
    }

    /// Sets the other account, or clears it.
    pub fn dest_account_option(&mut self, dest_account: Option<&str>)
        ensures
            match dest_account {
                Some(c) => final(self).dest_account matches Some(x) && x@ == c@,
                None => final(self).dest_account is None,
            },
            final(self).code == old(self).code,
            final(self).payee == old(self).payee,
    {
        self.dest_account = match dest_account {
            Some(c) => Some(c.to_string()),
            None => None,
        };
    }

    /// Sets the other account.
    pub fn dest_account(&mut self, dest_account: &str)
        ensures
            final(self).dest_account matches Some(x) && x@ == dest_account@,
            final(self).code == old(self).code,
            final(self).payee == old(self).payee,
    {
        self.dest_account = Some(dest_account.to_string());
    }

    /// Sets the clear state.
    pub fn clear_state(&mut self, clear_state: ClearState)
        ensures
            final(self).clear_state == clear_state,
            final(self).dest_account == old(self).dest_account,
    {
        self.clear_state = clear_state;
    }

    /// Sets the balance after the transaction.
    pub fn balance(&mut self, balance: data::Amount)
        ensures
            final(self).balance matches Some(b) && b@ == balance@,
            final(self).dest_account == old(self).dest_account,
    {
        self.balance = Some(balance);
    }

    /// Sets the exchange rate of the amount.
    pub fn rate(&mut self, rate: Exchange)
        ensures
            final(self).rate == Some(rate),
    {
        self.rate = Some(rate);
    }

    /// Sets the amount transferred in another commodity.
    pub fn transferred_amount(&mut self, amount: ExchangedAmount)
        ensures
            final(self).transferred_amount == Some(amount),
    {
        self.transferred_amount = Some(amount);
    }

    /// The double-entry transaction of the account of the statement: cleared, with the
    /// posting of the other account (or `Incomes:Unknown` / `Expenses:Unknown`, pending
    /// then) for the opposite amount, before the statement's account when the amount is
    /// positive and after it when negative.
    pub fn to_double_entry(&self, src_account: &str) -> (r: Result<data::Transaction, ImportError>)
        ensures
            r matches Ok(t) && double_entry(txn_view(*self), src_account@, t),
    {
        let mut posts: Vec<data::Posting> = Vec::new();
        let post_clear = match &self.dest_account {
            Some(_) => ClearState::Uncleared,
            None => ClearState::Pending,
        };
        let src = data::Posting {
            account: src_account.to_string(),
            clear_state: ClearState::Uncleared,
            amount: Some(ExchangedAmount { amount: self.amount.clone(), exchange: None }),
            balance: copy_opt_amount(&self.balance),
            payee: None,
        };
        if self.amount.is_sign_positive() {
            let dest = data::Posting {
                account: match &self.dest_account {
                    Some(d) => d.clone(),
                    None => "Incomes:Unknown".to_string(),
                },
                clear_state: post_clear,
                amount: Some(ExchangedAmount { amount: self.amount.clone().neg(), exchange: None }),
                balance: None,
                payee: None,
            };
            posts.push(dest);
            posts.push(src);
        } else {
            let dest = data::Posting {
                account: match &self.dest_account {
                    Some(d) => d.clone(),
                    None => "Expenses:Unknown".to_string(),
                },
                clear_state: post_clear,
                amount: Some(ExchangedAmount { amount: self.amount.clone().neg(), exchange: None }),
                balance: None,
                payee: None,
            };
            posts.push(src);
            posts.push(dest);
        }
        Ok(data::Transaction {
            date: self.date,
            effective_date: self.effective_date,
            clear_state: ClearState::Cleared,
            code: copy_opt_string(&self.code),
            payee: self.payee.clone(),
            posts,
        })
    }
}

} // verus!
