use okane::context::ReportContext;
use okane::date::Date;
use okane::decimal::Decimal;
use okane::eval::eval_mut;
use okane::eval::single_amount::SingleAmount;
use okane::pretty::PrettyDecimal;
use okane::price_db::{PriceEvent, PriceRepositoryBuilder, PriceSource};
use okane::syntax::expr::{self, BinaryOp, BinaryOpExpr, Expr, UnaryOp, UnaryOpExpr, ValueExpr};
use okane::syntax::span::{TrackedSpan, TrackedValue};
use okane::syntax::{
    self, ApplyTag, ClearState, IncludeFile, LedgerEntry, Metadata, MetadataValue,
};
use okane::tags::{tags, Tag, TagQuery, TagValue};

fn dec(num: i64, scale: u32) -> Decimal {
    Decimal::new(num, scale)
}

fn ymd(y: i32, m: u32, d: u32) -> Date {
    Date::from_ymd(y, m, d).unwrap()
}

fn amount(s: &str) -> Expr {
    let (num, commodity) = match s.split_once(' ') {
        Some((n, c)) => (n, c),
        None => (s, ""),
    };
    Expr::Value(Box::new(ValueExpr::Amount(expr::Amount {
        value: PrettyDecimal::parse(num).unwrap(),
        commodity: commodity.to_string(),
    })))
}

fn bin(op: BinaryOp, lhs: Expr, rhs: Expr) -> Expr {
    Expr::Binary(BinaryOpExpr { op, lhs: Box::new(lhs), rhs: Box::new(rhs) })
}

fn paren(e: Expr) -> Expr {
    Expr::Value(Box::new(ValueExpr::Paren(e)))
}

#[test]
fn eval_expr_simple() {
    let input = Expr::Value(Box::new(ValueExpr::Amount(expr::Amount {
        value: PrettyDecimal::plain(dec(10012345, 5)),
        commodity: "USD".into(),
    })));
    let mut ctx = ReportContext::new();
    let got = eval_mut(&input, &mut ctx).unwrap().into_amount().expect("not an amount");
    assert_eq!(vec![(ctx.commodities.ensure("USD"), dec(10012345, 5))], got.into_values());
}

#[test]
fn eval_expr_add_negate() {
    // (100 USD + 300 EUR + (-100 USD + 20,000 JPY))
    let input = paren(bin(
        BinaryOp::Add,
        bin(BinaryOp::Add, amount("100 USD"), amount("300 EUR")),
        paren(bin(
            BinaryOp::Add,
            Expr::Unary(UnaryOpExpr { op: UnaryOp::Negate, expr: Box::new(amount("100 USD")) }),
            amount("20,000 JPY"),
        )),
    ));
    let mut ctx = ReportContext::new();
    let got = eval_mut(&input, &mut ctx).unwrap().into_amount().expect("not an amount");
    assert_eq!(
        vec![
            (ctx.commodities.ensure("USD"), dec(0, 0)),
            (ctx.commodities.ensure("EUR"), dec(300, 0)),
            (ctx.commodities.ensure("JPY"), dec(20000, 0)),
        ],
        got.into_values()
    );
}

#[test]
fn eval_expr_complex() {
    // ((100 USD + 200 EUR) * 2 - 100 USD / 5)
    let input = paren(bin(
        BinaryOp::Sub,
        bin(BinaryOp::Mul, paren(bin(BinaryOp::Add, amount("100 USD"), amount("200 EUR"))), amount("2")),
        bin(BinaryOp::Div, amount("100 USD"), amount("5")),
    ));
    let mut ctx = ReportContext::new();
    let got = eval_mut(&input, &mut ctx).unwrap().into_amount().expect("not an amount");
    assert_eq!(
        vec![(ctx.commodities.ensure("USD"), dec(180, 0)), (ctx.commodities.ensure("EUR"), dec(400, 0))],
        got.into_values()
    );
}

#[test]
fn price_db_computes_direct_price() {
    let mut ctx = ReportContext::new();
    let chf = ctx.commodities.ensure("CHF");
    let eur = ctx.commodities.ensure("EUR");
    let mut builder = PriceRepositoryBuilder::new();
    builder
        .insert_price(
            PriceSource::Ledger,
            PriceEvent {
                date: ymd(2024, 10, 1),
                price_x: SingleAmount::from_value(eur, dec(1, 0)),
                price_y: SingleAmount::from_value(chf, dec(8, 1)),
            },
        )
        .unwrap();
    let mut db = builder.build();
    // before the event date, the value cannot be converted.
    let got = db.convert_single(&ctx, SingleAmount::from_value(eur, dec(1, 0)), chf, ymd(2024, 9, 30));
    assert!(got.is_err());
    let got = db.convert_single(&ctx, SingleAmount::from_value(chf, dec(10, 0)), eur, ymd(2024, 9, 30));
    assert!(got.is_err());
    let got = db.convert_single(&ctx, SingleAmount::from_value(eur, dec(10, 1)), chf, ymd(2024, 10, 1));
    assert_eq!(got.unwrap(), SingleAmount::from_value(chf, dec(8, 1)));
    let got = db.convert_single(&ctx, SingleAmount::from_value(chf, dec(100, 1)), eur, ymd(2024, 10, 1));
    assert_eq!(got.unwrap(), SingleAmount::from_value(eur, dec(125, 1)));
}

#[test]
fn price_db_computes_indirect_price() {
    let mut ctx = ReportContext::new();
    let chf = ctx.commodities.ensure("CHF");
    let eur = ctx.commodities.ensure("EUR");
    let usd = ctx.commodities.ensure("USD");
    let jpy = ctx.commodities.ensure("JPY");
    let mut builder = PriceRepositoryBuilder::new();
    builder
        .insert_price(
            PriceSource::Ledger,
            PriceEvent {
                date: ymd(2024, 10, 1),
                price_x: SingleAmount::from_value(chf, dec(8, 1)),
                price_y: SingleAmount::from_value(eur, dec(1, 0)),
            },
        )
        .unwrap();
    builder
        .insert_price(
            PriceSource::Ledger,
            PriceEvent {
                date: ymd(2024, 10, 2),
                price_x: SingleAmount::from_value(eur, dec(8, 1)),
                price_y: SingleAmount::from_value(usd, dec(1, 0)),
            },
        )
        .unwrap();
    builder
        .insert_price(
            PriceSource::Ledger,
            PriceEvent {
                date: ymd(2024, 10, 3),
                price_x: SingleAmount::from_value(jpy, dec(100, 0)),
                price_y: SingleAmount::from_value(usd, dec(1, 0)),
            },
        )
        .unwrap();
    // 1 CHF == 5/4 EUR == (5/4)*(5/4) USD == 156.25 JPY
    let mut db = builder.build();
    let got = db.convert_single(&ctx, SingleAmount::from_value(chf, dec(1, 0)), jpy, ymd(2024, 10, 3));
    assert_eq!(got.unwrap(), SingleAmount::from_value(jpy, dec(15625, 2)));
}

#[test]
fn price_db_prefers_the_rate_from_the_price_db_over_a_ledger_chain() {
    let mut ctx = ReportContext::new();
    let chf = ctx.commodities.ensure("CHF");
    let eur = ctx.commodities.ensure("EUR");
    let jpy = ctx.commodities.ensure("JPY");
    let mut builder = PriceRepositoryBuilder::new();
    builder
        .insert_price(
            PriceSource::Ledger,
            PriceEvent {
                date: ymd(2024, 10, 1),
                price_x: SingleAmount::from_value(chf, dec(8, 1)),
                price_y: SingleAmount::from_value(eur, dec(1, 0)),
            },
        )
        .unwrap();
    builder
        .insert_price(
            PriceSource::Ledger,
            PriceEvent {
                date: ymd(2024, 10, 1),
                price_x: SingleAmount::from_value(jpy, dec(160, 0)),
                price_y: SingleAmount::from_value(eur, dec(1, 0)),
            },
        )
        .unwrap();
    builder
        .insert_price(
            PriceSource::PriceDB,
            PriceEvent {
                date: ymd(2024, 9, 1),
                price_x: SingleAmount::from_value(jpy, dec(150, 0)),
                price_y: SingleAmount::from_value(chf, dec(1, 0)),
            },
        )
        .unwrap();
    // The chain CHF -> EUR -> JPY (200 JPY) uses two rates of the ledger; the direct rate of
    // the price DB uses none, though it is older.
    let mut db = builder.build();
    let got = db.convert_single(&ctx, SingleAmount::from_value(chf, dec(1, 0)), jpy, ymd(2024, 10, 3));
    assert_eq!(got.unwrap(), SingleAmount::from_value(jpy, dec(150, 0)));
}

#[test]
fn decimal_normalize_strips_trailing_zeros() {
    assert_eq!(dec(3100, 3).normalize().to_string(), "3.1");
    assert_eq!(dec(-500, 2).normalize().to_string(), "-5");
    assert_eq!(dec(0, 4).normalize().to_string(), "0");
}

fn ko(key: &str) -> Tag {
    Tag { key: key.to_owned(), value: None }
}

fn kv(key: &str, value: &str) -> Tag {
    Tag { key: key.to_owned(), value: Some(TagValue::Text(value.to_owned())) }
}

fn kve(key: &str, value: &str) -> Tag {
    Tag { key: key.to_owned(), value: Some(TagValue::Expr(value.to_owned())) }
}

fn span() -> TrackedSpan {
    TrackedSpan::new(0, 0)
}

fn post(account: &str, amt: Option<&str>, metadata: Vec<Metadata>) -> TrackedValue<syntax::Posting> {
    TrackedValue::new(
        syntax::Posting {
            account: account.to_string(),
            clear_state: ClearState::Uncleared,
            amount: amt.map(|a| syntax::PostingAmount {
                amount: TrackedValue::new(amount(a), span()),
                cost: None,
                lot: syntax::Lot { price: None, date: None, note: None },
            }),
            balance: None,
            metadata,
        },
        span(),
    )
}

fn txn(date: Date, payee: &str, metadata: Vec<Metadata>, posts: Vec<TrackedValue<syntax::Posting>>) -> LedgerEntry {
    LedgerEntry::Txn(syntax::Transaction {
        date,
        effective_date: None,
        clear_state: ClearState::Uncleared,
        code: None,
        payee: payee.to_string(),
        posts,
        metadata,
    })
}

fn text(key: &str, value: &str) -> Metadata {
    Metadata::KeyValueTag { key: key.to_string(), value: MetadataValue::Text(value.to_string()) }
}

fn all_tags_fixture() -> Vec<LedgerEntry> {
    vec![
        LedgerEntry::ApplyTag(ApplyTag { key: "Workflow".to_string(), value: None }),
        LedgerEntry::ApplyTag(ApplyTag { key: "trip".to_string(), value: Some(MetadataValue::Text("kyoto".to_string())) }),
        txn(
            ymd(2026, 1, 1),
            "lunch",
            vec![
                Metadata::WordTags(vec!["food".to_string(), "trip".to_string()]),
                text("type", "reimbursable"),
                Metadata::Comment("just a comment, not a tag".to_string()),
            ],
            vec![
                post("Expenses:Food", Some("10 CHF"), vec![text("trip", "hokkaido-2026")]),
                post("Assets:Bank:X", None, vec![]),
            ],
        ),
        LedgerEntry::EndApplyTag,
    ]
}

#[test]
fn tags_keys_only() {
    let got = tags(&all_tags_fixture(), TagQuery::KeysOnly);
    assert_eq!(vec![ko("Workflow"), ko("food"), ko("trip"), ko("type")], got);
}

#[test]
fn tags_with_values() {
    let got = tags(&all_tags_fixture(), TagQuery::WithValues);
    assert_eq!(
        vec![
            ko("Workflow"),
            ko("food"),
            ko("trip"),
            kv("trip", "hokkaido-2026"),
            kv("trip", "kyoto"),
            kv("type", "reimbursable"),
        ],
        got,
    );
}

#[test]
fn tags_with_expr_value() {
    let entries = vec![txn(
        ymd(2026, 1, 1),
        "lunch",
        vec![],
        vec![
            post(
                "Expenses:Food",
                Some("10 CHF"),
                vec![Metadata::KeyValueTag { key: "total".to_string(), value: MetadataValue::Expr("1 + 2".to_string()) }],
            ),
            post("Assets:Bank:X", None, vec![]),
        ],
    )];
    assert_eq!(vec![ko("total")], tags(&entries, TagQuery::KeysOnly));
    assert_eq!(vec![kve("total", "1 + 2")], tags(&entries, TagQuery::WithValues));
}

#[test]
fn tags_dedups_across_includes() {
    // The root file includes the child; the entries are those of both, in load order.
    let entries = vec![
        LedgerEntry::Include(IncludeFile("child.ledger".to_string())),
        txn(
            ymd(2026, 1, 2),
            "dinner",
            vec![Metadata::WordTags(vec!["food".to_string()]), text("trip", "kyoto")],
            vec![post("Expenses:Food", Some("20 CHF"), vec![]), post("Assets:Bank:X", None, vec![])],
        ),
        txn(
            ymd(2026, 1, 1),
            "lunch",
            vec![Metadata::WordTags(vec!["food".to_string()]), text("trip", "kyoto")],
            vec![post("Expenses:Food", Some("10 CHF"), vec![]), post("Assets:Bank:X", None, vec![])],
        ),
    ];
    assert_eq!(vec![ko("food"), ko("trip")], tags(&entries, TagQuery::KeysOnly));
    assert_eq!(vec![ko("food"), kv("trip", "kyoto")], tags(&entries, TagQuery::WithValues));
}
