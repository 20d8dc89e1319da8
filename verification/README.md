# okane

A library for plain-text double-entry accounting in the Ledger format, written in Verus:
the logic is executable Rust whose behaviour is stated in `requires` / `ensures` contracts
and proved by the verifier.

## Layout

- `src/` is the verified library.
  - `decimal.rs`, `date.rs`, `pretty.rs`: numbers and dates, over `rust_decimal`, `chrono`
    and `pretty_decimal` behind small trusted wrappers whose contracts name what they compute.
  - `intern.rs`, `account.rs`, `commodity.rs`, `context.rs`: interned names of accounts and
    commodities.
  - `eval/`, `balance.rs`, `book_keeping.rs`, `process.rs`: evaluation of amount expressions,
    account balances, and the booking of transactions (deduced amounts, costs, lot prices,
    balance checks).
  - `price_db.rs`: recorded exchange rates and the least-distance conversion between
    commodities on a date.
  - `query.rs`, `account_tree.rs`, `tags.rs`: balance and register queries, with account
    filters and conversions.
  - `syntax/`: the syntax tree of a ledger file and its display.
  - `import/`: importers of bank statements (CSV, ISO camt.053, Viseca) driven by rewrite
    rules.
- `tests/` runs the library on concrete values.
- `app/` is the command line around the library: argument handling, reading files, and the
  XML and YAML parsing that fills the library's types.
