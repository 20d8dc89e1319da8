//! Transactions as the importers produce them: plain amounts, postings and their clear state.
use crate::date::Date;
use crate::decimal::{view_neg, Decimal, DecimalView};
use vstd::prelude::*;

verus! {

/// Clear state of a transaction or a posting.
#[derive(Debug, PartialEq, Eq, Structural, Clone, Copy)]
pub enum ClearState {
    /// No specific meaning.
    Uncleared,
    /// Confirmed.
    Cleared,
    /// Still pending.
    Pending,
}

impl Default for ClearState {
    fn default() -> (r: ClearState)
        ensures
            r == ClearState::Uncleared,
    {
        ClearState::Uncleared
    }
}

/// An amount of a commodity.
#[derive(Debug, PartialEq, Eq)]
pub struct Amount {
    pub value: Decimal,
    pub commodity: String,
}

/// View of an amount: the value and the commodity.
pub type AmountView = (DecimalView, Seq<char>);

impl View for Amount {
    type V = AmountView;

    open spec fn view(&self) -> AmountView {
        (self.value@, self.commodity@)
    }
}

impl Clone for Amount {
    fn clone(&self) -> (r: Self)
        ensures
            r@ == self@,
    {
        Amount { value: self.value, commodity: self.commodity.clone() }
    }
}

impl Amount {
    /// Returns `true` if the amount is zero.
    pub fn is_zero(&self) -> (r: bool)
        ensures
            r == (self@.0.1 == 0),
    {
        self.value.is_zero()
    }

    /// Returns `true` if the sign bit of the value is not set.
    pub fn is_sign_positive(&self) -> (r: bool)
        ensures
            r == !self@.0.0,
    {
        self.value.is_sign_positive()
    }

    /// Returns `true` if the sign bit of the value is set.
    pub fn is_sign_negative(&self) -> (r: bool)
        ensures
            r == self@.0.0,
    {
        self.value.is_sign_negative()
    }

    /// The amount with the sign flipped, in the same commodity.
    pub fn neg(self) -> (r: Amount)
        ensures
            r@ == (view_neg(self@.0), self@.1),
    {
        Amount { value: self.value.neg(), commodity: self.commodity }
    }
}

/// Exchange information of a posting.
#[derive(Debug, PartialEq, Eq)]
pub enum Exchange {
    /// The amount is worth this total.
    Total(Amount),
    /// One unit of the amount's commodity is worth this.
    Rate(Amount),
}

/// View of an exchange: whether it is a total, and its amount.
pub open spec fn exchange_view(e: Exchange) -> (bool, AmountView) {
    match e {
        Exchange::Total(a) => (true, a@),
        Exchange::Rate(a) => (false, a@),
    }
}

/// Amount of a posting, with its exchange information.
#[derive(Debug, PartialEq, Eq)]
pub struct ExchangedAmount {
    pub amount: Amount,
    pub exchange: Option<Exchange>,
}

/// Posting of a transaction.
#[derive(Debug, PartialEq, Eq)]
pub struct Posting {
    pub account: String,
    pub clear_state: ClearState,
    pub amount: Option<ExchangedAmount>,
    pub balance: Option<Amount>,
    pub payee: Option<String>,
}

/// Transaction: money transferred across the accounts of its postings.
#[derive(Debug, PartialEq, Eq)]
pub struct Transaction {
    pub date: Date,
    pub effective_date: Option<Date>,
    pub clear_state: ClearState,
    pub code: Option<String>,
    pub payee: String,
    pub posts: Vec<Posting>,
}

impl Transaction {
    /// Transaction of the date and the payee, uncleared, without postings.
    pub fn new(date: Date, payee: String) -> (r: Transaction)
        ensures
            r.date == date,
            r.effective_date is None,
            r.clear_state == ClearState::Uncleared,
            r.code is None,
            r.payee == payee,
            r.posts@.len() == 0,
    {
        Transaction { date, effective_date: None, clear_state: ClearState::Uncleared, code: None, payee, posts: Vec::new() }
    }
}

} // verus!
