//! Syntax tree of the Ledger format.
pub mod expr;
pub mod span;
pub mod display;
pub mod convert;

use crate::date::Date;
use crate::syntax::expr::{Amount, Expr};
use crate::syntax::span::TrackedValue;
use vstd::prelude::*;

verus! {

/// Top-level entry of a Ledger file.
#[derive(Debug, PartialEq, Eq)]
pub enum LedgerEntry {
    /// Transaction.
    Txn(Transaction),
    /// Comment at the top level.
    Comment(TopLevelComment),
    /// `apply tag` directive.
    ApplyTag(ApplyTag),
    /// `end apply tag` directive.
    EndApplyTag,
    /// `include` directive.
    Include(IncludeFile),
    /// `account` directive.
    Account(AccountDeclaration),
    /// `commodity` directive.
    Commodity(CommodityDeclaration),
}

/// Comment at the top level.
#[derive(Debug, PartialEq, Eq, Clone)]
pub struct TopLevelComment(pub String);

/// `apply tag key[: value]`.
#[derive(Debug, PartialEq, Eq, Clone)]
pub struct ApplyTag {
    pub key: String,
    pub value: Option<MetadataValue>,
}

/// Value of a metadata: an expression (`key:: expr`) or a text (`key: text`).
#[derive(Debug, PartialEq, Eq, Clone)]
pub enum MetadataValue {
    Expr(String),
    Text(String),
}

/// `include path`.
#[derive(Debug, PartialEq, Eq, Clone)]
pub struct IncludeFile(pub String);

/// `account name` with its details.
#[derive(Debug, PartialEq, Eq, Clone)]
pub struct AccountDeclaration {
    pub name: String,
    pub details: Vec<AccountDetail>,
}

/// Detail of an account declaration.
#[derive(Debug, PartialEq, Eq, Clone)]
pub enum AccountDetail {
    Comment(String),
    Note(String),
    Alias(String),
}

/// `commodity name` with its details.
#[derive(Debug, PartialEq, Eq, Clone)]
pub struct CommodityDeclaration {
    pub name: String,
    pub details: Vec<CommodityDetail>,
}

/// Detail of a commodity declaration.
#[derive(Debug, PartialEq, Eq, Clone)]
pub enum CommodityDetail {
    Comment(String),
    Note(String),
    Alias(String),
    /// Format of the commodity, given as an example amount.
    Format(Amount),
}

/// Clearing state of a transaction or a posting.
#[derive(Debug, PartialEq, Eq, Structural, Clone, Copy)]
pub enum ClearState {
    /// No specific meaning.
    Uncleared,
    /// Confirmed (`*`).
    Cleared,
    /// Pending (`!`).
    Pending,
}

/// Metadata of a transaction or a posting.
#[derive(Debug, PartialEq, Eq, Clone)]
pub enum Metadata {
    /// Plain comment.
    Comment(String),
    /// `:tag1:tag2:`.
    WordTags(Vec<String>),
    /// `key: value`.
    KeyValueTag { key: String, value: MetadataValue },
}

/// Transaction with its postings.
#[derive(Debug, PartialEq, Eq)]
pub struct Transaction {
    pub date: Date,
    pub effective_date: Option<Date>,
    pub clear_state: ClearState,
    pub code: Option<String>,
    pub payee: String,
    pub posts: Vec<TrackedValue<Posting>>,
    pub metadata: Vec<Metadata>,
}

/// Posting of a transaction.
#[derive(Debug, PartialEq, Eq)]
pub struct Posting {
    pub account: String,
    pub clear_state: ClearState,
    pub amount: Option<PostingAmount>,
    pub balance: Option<TrackedValue<Expr>>,
    pub metadata: Vec<Metadata>,
}

/// Amount of a posting, with its cost and lot.
#[derive(Debug, PartialEq, Eq)]
pub struct PostingAmount {
    pub amount: TrackedValue<Expr>,
    pub cost: Option<TrackedValue<Exchange>>,
    pub lot: Lot,
}

/// Lot information of a posting.
#[derive(Debug, PartialEq, Eq)]
pub struct Lot {
    pub price: Option<TrackedValue<Exchange>>,
    pub date: Option<Date>,
    pub note: Option<String>,
}

/// Exchange of a posting: `@ rate` or `@@ total`.
#[derive(Debug, PartialEq, Eq)]
pub enum Exchange {
    Total(Expr),
    Rate(Expr),
}

} // verus!
