use okane::balance::Balance;
use okane::book_keeping::{add_transaction, BookKeepError};
use okane::context::ReportContext;
use okane::date::Date;
use okane::decimal::Decimal;
use okane::eval::amount::Amount;
use okane::eval::single_amount::PostingAmount;
use okane::pretty::PrettyDecimal;
use okane::syntax::expr::{self, BinaryOp, BinaryOpExpr, Expr, ValueExpr};
use okane::syntax::span::{TrackedSpan, TrackedValue};
use okane::syntax::{self, ClearState, Exchange, Lot, Metadata};
use okane::transaction::{Posting, Transaction};

fn dec(num: i64, scale: u32) -> Decimal {
    Decimal::new(num, scale)
}

fn span() -> TrackedSpan {
    TrackedSpan::new(0, 0)
}

fn at0<T>(v: T) -> TrackedValue<T> {
    TrackedValue::new(v, span())
}

/// `"200 JPY"`, `"2.00"` or `"-1,200 JPY"` as an expression.
fn amount(s: &str) -> Expr {
    let (num, commodity) = match s.split_once(' ') {
        Some((n, c)) => (n, c),
        None => (s, ""),
    };
    Expr::Value(Box::new(ValueExpr::Amount(expr::Amount {
        value: PrettyDecimal::parse(num).unwrap(),
        commodity: commodity.to_string(),
    })))
}

fn paren(op: BinaryOp, lhs: &str, rhs: &str) -> Expr {
    Expr::Value(Box::new(ValueExpr::Paren(Expr::Binary(BinaryOpExpr {
        op,
        lhs: Box::new(amount(lhs)),
        rhs: Box::new(amount(rhs)),
    }))))
}

struct P {
    account: &'static str,
    amount: Option<Expr>,
    cost: Option<Exchange>,
    lot: Option<Exchange>,
    balance: Option<Expr>,
    span: TrackedSpan,
    cost_span: TrackedSpan,
}

fn p(account: &'static str) -> P {
    P { account, amount: None, cost: None, lot: None, balance: None, span: span(), cost_span: span() }
}

impl P {
    fn amount(mut self, s: &str) -> P {
        self.amount = Some(amount(s));
        self
    }
    fn amount_expr(mut self, e: Expr) -> P {
        self.amount = Some(e);
        self
    }
    fn cost(mut self, e: Exchange) -> P {
        self.cost = Some(e);
        self
    }
    fn lot(mut self, e: Exchange) -> P {
        self.lot = Some(e);
        self
    }
    fn balance(mut self, s: &str) -> P {
        self.balance = Some(amount(s));
        self
    }
    fn spans(mut self, posting: TrackedSpan, cost: TrackedSpan) -> P {
        self.span = posting;
        self.cost_span = cost;
        self
    }
    fn build(self) -> TrackedValue<syntax::Posting> {
        let cost_span = self.cost_span;
        let amount = self.amount.map(|a| syntax::PostingAmount {
            amount: at0(a),
            cost: self.cost.map(|c| TrackedValue::new(c, cost_span)),
            lot: Lot { price: self.lot.map(at0), date: None, note: None },
        });
        TrackedValue::new(
            syntax::Posting {
                account: self.account.to_string(),
                clear_state: ClearState::Uncleared,
                amount,
                balance: self.balance.map(at0),
                metadata: vec![],
            },
            self.span,
        )
    }
}

fn txn(posts: Vec<P>) -> syntax::Transaction {
    syntax::Transaction {
        date: Date::from_ymd(2024, 8, 1).unwrap(),
        effective_date: None,
        clear_state: ClearState::Uncleared,
        code: None,
        payee: "Sample".to_string(),
        posts: posts.into_iter().map(P::build).collect(),
        metadata: vec![],
    }
}

fn date() -> Date {
    Date::from_ymd(2024, 8, 1).unwrap()
}

#[test]
fn add_transaction_maintains_balance() {
    let mut ctx = ReportContext::new();
    let mut bal = Balance::new();
    let a1 = ctx.accounts.ensure("Account 1");
    let a2 = ctx.accounts.ensure("Account 2");
    let a4 = ctx.accounts.ensure("Account 4");
    let jpy = ctx.commodities.ensure("JPY");
    let eur = ctx.commodities.ensure("EUR");
    let chf = ctx.commodities.ensure("CHF");
    bal.add_posting_amount(a1, PostingAmount::from_value(jpy, dec(1000, 0))).unwrap();
    bal.add_posting_amount(a1, PostingAmount::from_value(eur, dec(123, 0))).unwrap();
    bal.add_posting_amount(a2, PostingAmount::from_value(eur, dec(1, 0))).unwrap();
    bal.add_posting_amount(a4, PostingAmount::from_value(chf, dec(10, 0))).unwrap();
    let t = txn(vec![
        p("Account 1").amount("200 JPY").balance("1200 JPY"),
        p("Account 2").amount("0 JPY").balance("0 JPY"),
        p("Account 2").amount("-100 JPY").balance("-100 JPY"),
        p("Account 2").amount("-100 JPY").balance("-200 JPY"),
        p("Account 3").amount("2.00 CHF").cost(Exchange::Rate(amount("150 JPY"))),
        p("Account 4").balance("-300 JPY"),
    ]);
    let _ = add_transaction(&mut ctx, &mut bal, &t).expect("must succeed");
    let a3 = ctx.accounts.ensure("Account 3");
    assert_eq!(bal.get(a1), Some(&Amount::from_values(vec![(jpy, dec(1200, 0)), (eur, dec(123, 0))])));
    assert_eq!(bal.get(a2), Some(&Amount::from_values(vec![(jpy, dec(-200, 0)), (eur, dec(1, 0))])));
    assert_eq!(bal.get(a3), Some(&Amount::from_value(chf, dec(2, 0))));
    assert_eq!(bal.get(a4), Some(&Amount::from_values(vec![(jpy, dec(-300, 0)), (chf, dec(10, 0))])));
}

#[test]
fn add_transaction_emits_transaction_with_postings() {
    let mut ctx = ReportContext::new();
    let mut bal = Balance::new();
    let t = txn(vec![
        p("Account 1").amount("200 JPY").balance("200 JPY"),
        p("Account 2").amount("-100 JPY").balance("-100 JPY"),
        p("Account 2").amount("-100 JPY").balance("-200 JPY"),
    ]);
    let got = add_transaction(&mut ctx, &mut bal, &t).expect("must succeed");
    let jpy = ctx.commodities.ensure("JPY");
    let want = Transaction {
        date: date(),
        postings: vec![
            Posting { account: ctx.accounts.ensure("Account 1"), amount: Amount::from_value(jpy, dec(200, 0)) },
            Posting { account: ctx.accounts.ensure("Account 2"), amount: Amount::from_value(jpy, dec(-100, 0)) },
            Posting { account: ctx.accounts.ensure("Account 2"), amount: Amount::from_value(jpy, dec(-100, 0)) },
        ],
    };
    assert_eq!(want, got);
}

#[test]
fn add_transaction_emits_transaction_with_deduce_and_balance_concern() {
    let mut ctx = ReportContext::new();
    let mut bal = Balance::new();
    let a1 = ctx.accounts.ensure("Account 1");
    let a2 = ctx.accounts.ensure("Account 2");
    let a3 = ctx.accounts.ensure("Account 3");
    let jpy = ctx.commodities.ensure("JPY");
    let usd = ctx.commodities.ensure("USD");
    bal.add_posting_amount(a1, PostingAmount::from_value(jpy, dec(1000, 0))).unwrap();
    bal.add_posting_amount(a1, PostingAmount::from_value(usd, dec(123, 0))).unwrap();
    bal.add_posting_amount(a2, PostingAmount::from_value(jpy, dec(-100, 0))).unwrap();
    bal.add_posting_amount(a2, PostingAmount::from_value(usd, dec(-30, 0))).unwrap();
    bal.add_posting_amount(a3, PostingAmount::from_value(jpy, dec(-150, 0))).unwrap();
    let t = txn(vec![
        p("Account 1").balance("1200 JPY"),
        p("Account 2").balance("0 JPY"),
        p("Account 3").balance("0"),
        p("Account 4"),
    ]);
    let got = add_transaction(&mut ctx, &mut bal, &t).expect("must succeed");
    let want = Transaction {
        date: date(),
        postings: vec![
            Posting { account: a1, amount: Amount::from_value(jpy, dec(200, 0)) },
            Posting { account: a2, amount: Amount::from_value(jpy, dec(100, 0)) },
            Posting { account: a3, amount: Amount::from_value(jpy, dec(150, 0)) },
            Posting { account: ctx.accounts.ensure("Account 4"), amount: Amount::from_value(jpy, dec(-450, 0)) },
        ],
    };
    assert_eq!(want, got);
}

#[test]
fn add_transaction_deduced_amount_contains_multi_commodity() {
    let mut ctx = ReportContext::new();
    let mut bal = Balance::new();
    let t = txn(vec![
        p("Account 1").amount("1200 JPY"),
        p("Account 2").amount("234 EUR"),
        p("Account 3").amount("34.56 CHF"),
        p("Account 4"),
    ]);
    let got = add_transaction(&mut ctx, &mut bal, &t).expect("must succeed");
    let jpy = ctx.commodities.ensure("JPY");
    let eur = ctx.commodities.ensure("EUR");
    let chf = ctx.commodities.ensure("CHF");
    let want = Transaction {
        date: date(),
        postings: vec![
            Posting { account: ctx.accounts.ensure("Account 1"), amount: Amount::from_value(jpy, dec(1200, 0)) },
            Posting { account: ctx.accounts.ensure("Account 2"), amount: Amount::from_value(eur, dec(234, 0)) },
            Posting { account: ctx.accounts.ensure("Account 3"), amount: Amount::from_value(chf, dec(3456, 2)) },
            Posting {
                account: ctx.accounts.ensure("Account 4"),
                amount: Amount::from_values(vec![(jpy, dec(-1200, 0)), (eur, dec(-234, 0)), (chf, dec(-3456, 2))]),
            },
        ],
    };
    assert_eq!(want, got);
}

#[test]
fn add_transaction_fails_when_two_posting_does_not_have_amount() {
    let mut posts = txn(vec![
        p("Account 1").spans(TrackedSpan::new(20, 42), span()),
        p("Account 2").spans(TrackedSpan::new(44, 66), span()),
    ]);
    posts.posts[0].value.metadata.push(Metadata::Comment("no amount".to_string()));
    posts.posts[1].value.metadata.push(Metadata::Comment("no amount".to_string()));
    let mut ctx = ReportContext::new();
    let mut bal = Balance::new();
    let got = add_transaction(&mut ctx, &mut bal, &posts).expect_err("must fail");
    assert_eq!(
        got,
        BookKeepError::UndeduciblePostingAmount(
            TrackedValue::new(0, TrackedSpan::new(20, 42)),
            TrackedValue::new(1, TrackedSpan::new(44, 66))
        )
    );
}

#[test]
fn add_transaction_fails_when_posting_has_zero_cost() {
    let t = txn(vec![
        p("Account 1").amount("1 AAPL").cost(Exchange::Rate(amount("0 USD"))).spans(span(), TrackedSpan::new(48, 55)),
        p("Account 2").amount("100 USD"),
    ]);
    let mut ctx = ReportContext::new();
    let mut bal = Balance::new();
    let got = add_transaction(&mut ctx, &mut bal, &t).expect_err("must fail");
    assert_eq!(got, BookKeepError::ZeroExchangeRate(TrackedSpan::new(48, 55)));
}

#[test]
fn add_transaction_balances_with_lot() {
    let mut ctx = ReportContext::new();
    let mut bal = Balance::new();
    let t = txn(vec![
        p("Account 1").amount("12 OKANE").lot(Exchange::Rate(amount("100 JPY"))),
        p("Account 2").amount("-1,200 JPY"),
    ]);
    let got = add_transaction(&mut ctx, &mut bal, &t).expect("must succeed");
    let okane = ctx.commodities.resolve("OKANE").unwrap();
    let jpy = ctx.commodities.resolve("JPY").unwrap();
    let want = Transaction {
        date: date(),
        postings: vec![
            Posting { account: ctx.accounts.ensure("Account 1"), amount: Amount::from_value(okane, dec(12, 0)) },
            Posting { account: ctx.accounts.ensure("Account 2"), amount: Amount::from_value(jpy, dec(-1200, 0)) },
        ],
    };
    assert_eq!(want, got);
}

#[test]
fn add_transaction_balances_with_price() {
    let mut ctx = ReportContext::new();
    let mut bal = Balance::new();
    let t = txn(vec![
        p("Account 1").amount("12 OKANE").cost(Exchange::Rate(paren(BinaryOp::Mul, "1", "100 JPY"))),
        p("Account 2").amount("-1,200 JPY"),
    ]);
    let got = add_transaction(&mut ctx, &mut bal, &t).expect("must succeed");
    let want = Transaction {
        date: date(),
        postings: vec![
            Posting {
                account: ctx.accounts.ensure("Account 1"),
                amount: Amount::from_value(ctx.commodities.ensure("OKANE"), dec(12, 0)),
            },
            Posting {
                account: ctx.accounts.ensure("Account 2"),
                amount: Amount::from_value(ctx.commodities.ensure("JPY"), dec(-1200, 0)),
            },
        ],
    };
    assert_eq!(want, got);
}

#[test]
fn add_transaction_balances_with_lot_and_price() {
    let mut ctx = ReportContext::new();
    let mut bal = Balance::new();
    let t = txn(vec![
        p("Account 1")
            .amount("-12 OKANE")
            .lot(Exchange::Rate(amount("100 JPY")))
            .cost(Exchange::Rate(amount("120 JPY"))),
        p("Account 2").amount("1,440 JPY"),
        p("Income").amount("-240 JPY"),
    ]);
    let got = add_transaction(&mut ctx, &mut bal, &t).expect("must succeed");
    let okane = ctx.commodities.resolve("OKANE").unwrap();
    let jpy = ctx.commodities.resolve("JPY").unwrap();
    let want = Transaction {
        date: date(),
        postings: vec![
            Posting { account: ctx.accounts.ensure("Account 1"), amount: Amount::from_value(okane, dec(-12, 0)) },
            Posting { account: ctx.accounts.ensure("Account 2"), amount: Amount::from_value(jpy, dec(1440, 0)) },
            Posting { account: ctx.accounts.ensure("Income"), amount: Amount::from_value(jpy, dec(-240, 0)) },
        ],
    };
    assert_eq!(want, got);
}

#[test]
fn add_transaction_deduces_price_info() {
    let mut ctx = ReportContext::new();
    let mut bal = Balance::new();
    let t = txn(vec![
        p("Account 1").amount("-12 OKANE"),
        p("Account 2").amount("1,000 JPY"),
        p("Account 3").amount("440 JPY"),
    ]);
    let got = add_transaction(&mut ctx, &mut bal, &t).expect("must succeed");
    let okane = ctx.commodities.resolve("OKANE").unwrap();
    let jpy = ctx.commodities.resolve("JPY").unwrap();
    let want = Transaction {
        date: date(),
        postings: vec![
            Posting { account: ctx.accounts.ensure("Account 1"), amount: Amount::from_value(okane, dec(-12, 0)) },
            Posting { account: ctx.accounts.ensure("Account 2"), amount: Amount::from_value(jpy, dec(1000, 0)) },
            Posting { account: ctx.accounts.ensure("Account 3"), amount: Amount::from_value(jpy, dec(440, 0)) },
        ],
    };
    assert_eq!(want, got);
}

#[test]
fn add_transaction_balances_minor_diff() {
    let mut ctx = ReportContext::new();
    let chf = ctx.commodities.insert("CHF").unwrap();
    ctx.commodities.set_format(chf, PrettyDecimal::parse("20,000.00").unwrap());
    let mut bal = Balance::new();
    let t = txn(vec![
        p("Expenses").amount("300 EUR").cost(Exchange::Rate(paren(BinaryOp::Div, "1", "1.0538 CHF"))),
        p("Liabilities").amount("-284.68 CHF"),
    ]);
    let got = add_transaction(&mut ctx, &mut bal, &t).expect("must succeed");
    let eur = ctx.commodities.resolve("EUR").unwrap();
    let want = Transaction {
        date: date(),
        postings: vec![
            Posting { account: ctx.accounts.ensure("Expenses"), amount: Amount::from_value(eur, dec(300, 0)) },
            Posting { account: ctx.accounts.ensure("Liabilities"), amount: Amount::from_value(chf, dec(-28468, 2)) },
        ],
    };
    assert_eq!(want, got);
}

#[test]
fn add_transaction_reports_unbalanced_postings() {
    let mut ctx = ReportContext::new();
    let mut bal = Balance::new();
    let t = txn(vec![p("Account 1").amount("100 JPY"), p("Account 2").amount("-99 JPY")]);
    match add_transaction(&mut ctx, &mut bal, &t) {
        Err(BookKeepError::UnbalancedPostings(_)) => {},
        other => panic!("unexpected: {:?}", other),
    }
}
