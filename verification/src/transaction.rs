//! Transactions after book keeping: every posting has an account and an amount.
use crate::account::Account;
use crate::date::Date;
use crate::eval::amount::Amount;
use vstd::prelude::*;

verus! {

/// Evaluated transaction, already processed to have the right balance.
#[derive(Debug, PartialEq, Eq)]
pub struct Transaction {
    pub date: Date,
    pub postings: Vec<Posting>,
}

/// Evaluated posting of the transaction.
#[derive(Debug, PartialEq, Eq)]
pub struct Posting {
    pub account: Account,
    pub amount: Amount,
}

} // verus!
