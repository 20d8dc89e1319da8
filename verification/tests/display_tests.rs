use okane::date::Date;
use okane::decimal::Decimal;
use okane::pretty::{Format, PrettyDecimal};
use okane::syntax::display::{Alignment, CommodityDisplayOption, DisplayContext, DisplayContextBuilder};
use okane::syntax::expr::{Amount, BinaryOp, BinaryOpExpr, Expr, UnaryOp, UnaryOpExpr, ValueExpr};
use okane::syntax::span::{TrackedSpan, TrackedValue};
use okane::syntax::{
    ApplyTag, ClearState, CommodityDeclaration, CommodityDetail, Exchange, LedgerEntry, Lot, Metadata, MetadataValue,
    Posting, PostingAmount, TopLevelComment, Transaction,
};

fn at0<T>(v: T) -> TrackedValue<T> {
    TrackedValue::new(v, TrackedSpan::new(0, 0))
}

fn literal(value: PrettyDecimal, commodity: &str) -> Amount {
    Amount { value, commodity: commodity.to_string() }
}

/// An unformatted amount, as a value expression.
fn amount(num: i64, scale: u32, commodity: &str) -> Expr {
    Expr::Value(Box::new(ValueExpr::Amount(literal(PrettyDecimal::unformatted(Decimal::new(num, scale)), commodity))))
}

/// An amount as the parser reads its text.
fn parsed(text: &str, commodity: &str) -> Expr {
    Expr::Value(Box::new(ValueExpr::Amount(literal(PrettyDecimal::parse(text).unwrap(), commodity))))
}

fn paren(e: Expr) -> Expr {
    Expr::Value(Box::new(ValueExpr::Paren(e)))
}

fn binary(lhs: Expr, op: BinaryOp, rhs: Expr) -> Expr {
    Expr::Binary(BinaryOpExpr { op, lhs: Box::new(lhs), rhs: Box::new(rhs) })
}

fn posting(account: &str) -> Posting {
    Posting { account: account.to_string(), clear_state: ClearState::Uncleared, amount: None, balance: None, metadata: Vec::new() }
}

fn no_lot() -> Lot {
    Lot { price: None, date: None, note: None }
}

fn with_amount(p: Posting, amount: Expr, cost: Option<Exchange>, lot: Lot) -> Posting {
    Posting { amount: Some(PostingAmount { amount: at0(amount), cost: cost.map(at0), lot }), ..p }
}

fn with_balance(p: Posting, balance: Expr) -> Posting {
    Posting { balance: Some(at0(balance)), ..p }
}

fn ymd(y: i32, m: u32, d: u32) -> Date {
    Date::from_ymd(y, m, d).unwrap()
}

fn txn(payee: &str, posts: Vec<Posting>) -> Transaction {
    Transaction {
        date: ymd(2024, 1, 1),
        effective_date: None,
        clear_state: ClearState::Uncleared,
        code: None,
        payee: payee.to_string(),
        posts: posts.into_iter().map(at0).collect(),
        metadata: Vec::new(),
    }
}

#[test]
fn display_ledger_entries_no_txn() {
    let ctx = DisplayContext::default();
    assert_eq!(
        [";this\n", ";is\n", ";a pen pineapple apple pen.\n"].concat(),
        ctx.display_entry(&LedgerEntry::Comment(TopLevelComment("this\nis\na pen pineapple apple pen.".to_string())))
    );
    assert_eq!(
        "apply tag foo\n",
        ctx.display_entry(&LedgerEntry::ApplyTag(ApplyTag { key: "foo".to_string(), value: None }))
    );
    assert_eq!(
        "apply tag foo: bar\n",
        ctx.display_entry(&LedgerEntry::ApplyTag(ApplyTag {
            key: "foo".to_string(),
            value: Some(MetadataValue::Text("bar".to_string()))
        }))
    );
    assert_eq!(
        "apply tag foo:: 100\n",
        ctx.display_entry(&LedgerEntry::ApplyTag(ApplyTag {
            key: "foo".to_string(),
            value: Some(MetadataValue::Expr("100".to_string()))
        }))
    );
    assert_eq!("end apply tag\n", ctx.display_entry(&LedgerEntry::EndApplyTag));
}

#[test]
fn display_txn() {
    let mut assets = with_amount(posting("Assets"), amount(12345, 2, "USD"), None, no_lot());
    assets.metadata = vec![Metadata::Comment("single-line".to_string())];
    let t = Transaction {
        date: ymd(2022, 12, 23),
        effective_date: None,
        clear_state: ClearState::Uncleared,
        code: None,
        payee: "Example Grocery".to_string(),
        posts: vec![at0(assets)],
        metadata: vec![
            Metadata::Comment("multi\nline\ntext\n".to_string()),
            Metadata::Comment("works\nfine".to_string()),
        ],
    };
    let got = DisplayContext::default().display_entry(&LedgerEntry::Txn(t));
    let want = [
        "2022/12/23 Example Grocery\n",
        "    ; multi\n",
        "    ; line\n",
        "    ; text\n",
        "    ; works\n",
        "    ; fine\n",
        "    Assets                                    123.45 USD\n",
        "    ; single-line\n"
    ].concat();
    assert_eq!(want, got);
}

fn postings_for_non_expr() -> Vec<Posting> {
    let all = with_balance(
        with_amount(
            posting("Account"),
            amount(1234, 0, "USD"),
            Some(Exchange::Rate(amount(10000, 2, "JPY"))),
            Lot {
                price: Some(at0(Exchange::Rate(amount(11, 1, "USD")))),
                date: Some(ymd(2022, 5, 20)),
                note: Some("printable note".to_string()),
            },
        ),
        amount(1234, 0, "USD"),
    );
    let costbalance = with_balance(
        with_amount(posting("Account"), amount(1234, 0, "USD"), Some(Exchange::Rate(amount(100, 0, "JPY"))), no_lot()),
        amount(1234, 0, "USD"),
    );
    let total = with_amount(posting("Account"), amount(1234, 0, "USD"), Some(Exchange::Total(amount(100, 0, "JPY"))), no_lot());
    let nocost = with_balance(with_amount(posting("Account"), amount(1234, 0, "USD"), None, no_lot()), amount(1234, 0, "USD"));
    let noamount = with_balance(posting("Account"), amount(1234, 0, "USD"));
    let zerobalance = with_balance(posting("Account"), amount(0, 0, ""));
    vec![all, costbalance, total, nocost, noamount, zerobalance]
}

#[test]
fn display_posting_non_expr() {
    let postings = postings_for_non_expr();
    let got: String = postings.iter().map(|p| DisplayContext::default().display_posting(p)).collect();
    assert_eq!(
        [
            "    Account                                     1234 USD {1.1 USD} [2022/05/20] (printable note) @ 100.00 JPY = 1234 USD\n",
            "    Account                                     1234 USD @ 100 JPY = 1234 USD\n",
            "    Account                                     1234 USD @@ 100 JPY\n",
            "    Account                                     1234 USD = 1234 USD\n",
            "    Account                                              = 1234 USD\n",
            "    Account                                          = 0\n"
        ].concat(),
        got,
    );

    // overrides only
    let ctx = DisplayContext::new(
        CommodityDisplayOption::default(),
        vec![("USD".to_string(), CommodityDisplayOption { format: Some(Format::Comma3Dot), min_scale: Some(4) })],
    );
    let got: String = postings.iter().map(|p| ctx.display_posting(p)).collect();
    assert_eq!(
        [
            "    Account                               1,234.0000 USD {1.1000 USD} [2022/05/20] (printable note) @ 100.00 JPY = 1,234.0000 USD\n",
            "    Account                               1,234.0000 USD @ 100 JPY = 1,234.0000 USD\n",
            "    Account                               1,234.0000 USD @@ 100 JPY\n",
            "    Account                               1,234.0000 USD = 1,234.0000 USD\n",
            "    Account                                              = 1,234.0000 USD\n",
            "    Account                                          = 0\n"
        ].concat(),
        got,
    );
}

#[test]
fn fmt_posting_comma_3_dot() {
    let ctx = DisplayContext::default();
    let large = with_amount(
        posting("Account"),
        Expr::Value(Box::new(ValueExpr::Amount(literal(PrettyDecimal::comma3dot(Decimal::new(1234567, 0)), "JPY")))),
        None,
        no_lot(),
    );
    let small = with_amount(
        posting("Account"),
        Expr::Value(Box::new(ValueExpr::Amount(literal(PrettyDecimal::comma3dot(Decimal::new(11, 4)), "JPY")))),
        None,
        no_lot(),
    );

    assert_eq!(
        [
            "    Account                                1,234,567 JPY\n",
            "    Account                                   0.0011 JPY\n",
        ].concat(),
        format!("{}{}", ctx.display_posting(&large), ctx.display_posting(&small)),
    );
}

#[test]
fn display_fmt_with_alignment_simple_amount_without_commodity() {
    let (text, alignment) = DisplayContext::default().fmt_with_alignment(&amount(123, 0, ""));
    assert_eq!("123", text);
    assert_eq!(Alignment::Partial(3), alignment);
}

#[test]
fn display_fmt_with_alignment_simple_amount_with_commodity() {
    let usd1234 = amount(1234, 0, "USD");
    let (text, alignment) = DisplayContext::default().fmt_with_alignment(&usd1234);
    assert_eq!("1234 USD", text);
    assert_eq!(Alignment::Complete(4), alignment);

    let (text, alignment) =
        DisplayContext::new(CommodityDisplayOption { format: None, min_scale: Some(2) }, Vec::new()).fmt_with_alignment(&usd1234);
    assert_eq!("1234.00 USD", text);
    assert_eq!(Alignment::Complete(7), alignment);

    let (text, alignment) = DisplayContext::new(
        CommodityDisplayOption { format: Some(Format::Comma3Dot), min_scale: Some(2) },
        Vec::new(),
    )
    .fmt_with_alignment(&usd1234);
    assert_eq!("1,234.00 USD", text);
    assert_eq!(Alignment::Complete(8), alignment);
}

#[test]
fn display_test_fmt_with_alignment_complex_expr() {
    // ((1.20 + 2.67) * 3.1 USD + 5 USD)
    let expr = paren(binary(
        binary(paren(binary(amount(120, 2, ""), BinaryOp::Add, amount(267, 2, ""))), BinaryOp::Mul, amount(31, 1, "USD")),
        BinaryOp::Add,
        amount(5, 0, "USD"),
    ));
    let (text, alignment) = DisplayContext::default().fmt_with_alignment(&expr);
    assert_eq!("((1.20 + 2.67) * 3.1 USD + 5 USD)", text);
    assert_eq!(Alignment::Complete(20), alignment);
}

#[test]
fn display_unary_and_partial_alignment() {
    let expr = Expr::Unary(UnaryOpExpr { op: UnaryOp::Negate, expr: Box::new(paren(binary(amount(1, 0, ""), BinaryOp::Add, amount(1, 0, "")))) });
    let (text, alignment) = DisplayContext::default().fmt_with_alignment(&expr);
    assert_eq!("-(1 + 1)", text);
    assert_eq!(Alignment::Partial(8), alignment);
}

fn context_of(entries: Vec<LedgerEntry>) -> DisplayContext {
    let mut builder = DisplayContextBuilder::new();
    for entry in &entries {
        builder.observe(entry);
    }
    builder.build()
}

fn option_of(context: &DisplayContext, commodity: &str) -> CommodityDisplayOption {
    CommodityDisplayOption { format: context.decimal_format(commodity), min_scale: context.min_scale(commodity) }
}

fn option(format: Option<Format>, min_scale: u8) -> CommodityDisplayOption {
    CommodityDisplayOption { format, min_scale: Some(min_scale) }
}

fn posting_of(account: &str, amount: Expr) -> Posting {
    with_amount(posting(account), amount, None, no_lot())
}

#[test]
fn observe_takes_the_widest_scale_of_the_literals() {
    let context = context_of(vec![LedgerEntry::Txn(txn(
        "Widen",
        vec![
            posting_of("Expenses:Grocery", parsed("1", "CHF")),
            posting_of("Expenses:Household", parsed("2.345", "CHF")),
            posting_of("Assets:Bank", parsed("-3.34", "CHF")),
        ],
    ))]);

    assert_eq!(option(None, 3), option_of(&context, "CHF"));
}

#[test]
fn observe_prefers_the_style_carrying_more_information() {
    let context = context_of(vec![LedgerEntry::Txn(txn(
        "Mixed",
        vec![
            posting_of("Expenses:Grocery", parsed("1234.00", "CHF")),
            posting_of("Expenses:Household", parsed("5,678.00", "CHF")),
            posting_of("Assets:Bank", parsed("-6912.00", "CHF")),
        ],
    ))]);

    assert_eq!(option(Some(Format::Comma3Dot), 2), option_of(&context, "CHF"));
}

#[test]
fn observe_skips_the_amount_without_commodity() {
    let context = context_of(vec![LedgerEntry::Txn(txn(
        "No commodity",
        vec![
            posting_of("Expenses:Grocery", paren(binary(parsed("-10", ""), BinaryOp::Mul, parsed("2.100", "")))),
            with_balance(posting("Assets:Bank"), parsed("0", "")),
        ],
    ))]);

    assert_eq!(CommodityDisplayOption::default(), option_of(&context, ""));
    assert_eq!(CommodityDisplayOption::default(), option_of(&context, "CHF"));
}

#[test]
fn observe_takes_the_balance_but_not_the_cost_nor_the_lot_price() {
    let broker = with_amount(
        posting("Assets:Broker"),
        parsed("2", "SPINX"),
        Some(Exchange::Rate(parsed("1.6789", "USD"))),
        Lot { price: Some(at0(Exchange::Rate(parsed("1.2345", "USD")))), date: None, note: None },
    );
    let bank = with_balance(posting_of("Assets:Bank", parsed("-3.3", "USD")), parsed("1234.56", "USD"));
    let context = context_of(vec![LedgerEntry::Txn(txn("Exchange", vec![broker, bank]))]);

    assert_eq!(option(Some(Format::Plain), 2), option_of(&context, "USD"));
    assert_eq!(option(None, 0), option_of(&context, "SPINX"));
}

#[test]
fn observe_walks_into_the_expressions() {
    // (-(1.20 EUR) + 2.6700 EUR * 2)
    let expr = paren(binary(
        Expr::Unary(UnaryOpExpr { op: UnaryOp::Negate, expr: Box::new(paren(parsed("1.20", "EUR"))) }),
        BinaryOp::Add,
        binary(parsed("2.6700", "EUR"), BinaryOp::Mul, parsed("2", "")),
    ));
    let context = context_of(vec![LedgerEntry::Txn(txn(
        "Expression",
        vec![posting_of("Expenses:Grocery", expr), posting_of("Assets:Bank", parsed("-4.14", "EUR"))],
    ))]);

    assert_eq!(option(None, 4), option_of(&context, "EUR"));
}

fn commodity_format(name: &str, text: &str, commodity: &str) -> LedgerEntry {
    LedgerEntry::Commodity(CommodityDeclaration {
        name: name.to_string(),
        details: vec![CommodityDetail::Format(literal(PrettyDecimal::parse(text).unwrap(), commodity))],
    })
}

#[test]
fn observe_prefers_the_declared_format_over_the_observed_one() {
    let context = context_of(vec![
        commodity_format("CHF", "1,000.00", "CHF"),
        LedgerEntry::Txn(txn(
            "Precise",
            vec![
                posting_of("Expenses:Grocery", parsed("1.23456", "CHF")),
                posting_of("Assets:Bank", parsed("-1.23456", "CHF")),
            ],
        )),
    ]);

    assert_eq!(option(Some(Format::Comma3Dot), 2), option_of(&context, "CHF"));
}

#[test]
fn observe_binds_the_declaration_to_the_sample_commodity() {
    let context = context_of(vec![commodity_format("CHF", "1,000.00", "USD")]);

    assert_eq!(option(Some(Format::Comma3Dot), 2), option_of(&context, "USD"));
    assert_eq!(CommodityDisplayOption::default(), option_of(&context, "CHF"));
}

#[test]
fn observe_joins_the_declarations_regardless_of_the_order() {
    let plain_first =
        context_of(vec![commodity_format("CHF", "1000.00", "CHF"), commodity_format("CHF", "1,000.000", "CHF")]);
    let comma_first =
        context_of(vec![commodity_format("CHF", "1,000.000", "CHF"), commodity_format("CHF", "1000.00", "CHF")]);

    let want = option(Some(Format::Comma3Dot), 3);
    assert_eq!(want, option_of(&plain_first, "CHF"));
    assert_eq!(want, option_of(&comma_first, "CHF"));
}

#[test]
fn declare_overrides_what_is_observed() {
    let mut builder = DisplayContextBuilder::new();
    builder.observe(&LedgerEntry::Txn(txn("Observed", vec![posting_of("Assets:Bank", parsed("1.234", "JPY"))])));
    builder.declare("JPY", option(Some(Format::Comma3Dot), 0));

    assert_eq!(option(Some(Format::Comma3Dot), 0), option_of(&builder.build(), "JPY"));
}

#[test]
fn default_commodity_applies_to_the_unseen_commodity() {
    let builder = DisplayContextBuilder::new().with_default_commodity(option(Some(Format::Comma3Dot), 2));

    assert_eq!(option(Some(Format::Comma3Dot), 2), option_of(&builder.build(), "CHF"));
}

#[test]
fn display_commodity_declaration_in_context() {
    let ctx = DisplayContext::new(CommodityDisplayOption { format: Some(Format::Comma3Dot), min_scale: None }, Vec::new());
    let entry = LedgerEntry::Commodity(CommodityDeclaration {
        name: "USD".to_string(),
        details: vec![
            CommodityDetail::Comment(" US dollar".to_string()),
            CommodityDetail::Format(literal(PrettyDecimal::unformatted(Decimal::new(100000, 2)), "USD")),
        ],
    });
    assert_eq!("commodity USD\n    ; US dollar\n    format 1,000.00 USD\n", ctx.display_entry(&entry));
}
