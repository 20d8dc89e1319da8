//! Plain text accounting: amounts, balances, book keeping and reports.
pub mod decimal;
pub mod intern;
pub mod text;
pub mod pretty;
pub mod commodity;
pub mod account;
pub mod context;
pub mod date;
pub mod data;
pub mod eval;
pub mod syntax;
pub mod balance;
pub mod account_tree;
pub mod transaction;
pub mod book_keeping;
pub mod price_db;
pub mod import;
pub mod utility;
pub mod tags;
pub mod query;
pub mod process;
