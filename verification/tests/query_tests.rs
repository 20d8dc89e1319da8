use okane::account::Account;
use okane::context::ReportContext;
use okane::date::Date;
use okane::decimal::Decimal;
use okane::eval::amount::Amount;
use okane::pretty::PrettyDecimal;
use okane::process::process;
use okane::query::{
    AccountFilter, BalanceQuery, Conversion, ConversionStrategy, DateRange, Ledger, QueryError, RegisterEntry,
    RegisterQuery, Sort,
};
use okane::syntax::expr::{self, Expr, ValueExpr};
use okane::syntax::span::{TrackedSpan, TrackedValue};
use okane::syntax::{
    self, ClearState, CommodityDeclaration, CommodityDetail, Exchange, LedgerEntry, Lot,
};

fn dec(num: i64, scale: u32) -> Decimal {
    Decimal::new(num, scale)
}

fn ymd(y: i32, m: u32, d: u32) -> Date {
    Date::from_ymd(y, m, d).unwrap()
}

fn at0<T>(v: T) -> TrackedValue<T> {
    TrackedValue::new(v, TrackedSpan::new(0, 0))
}

fn amount(s: &str) -> Expr {
    let (num, commodity) = match s.split_once(' ') {
        Some((n, c)) => (n, c),
        None => (s, ""),
    };
    Expr::Value(Box::new(ValueExpr::Amount(expr::Amount {
        value: PrettyDecimal::parse(num).unwrap(),
        commodity: commodity.to_string(),
    })))
}

/// A posting: `account`, then optionally `amount`, `{lot}` and `@ cost`.
fn post(account: &str, amt: Option<&str>, lot: Option<&str>, cost: Option<&str>) -> TrackedValue<syntax::Posting> {
    at0(syntax::Posting {
        account: account.to_string(),
        clear_state: ClearState::Uncleared,
        amount: amt.map(|a| syntax::PostingAmount {
            amount: at0(amount(a)),
            cost: cost.map(|c| at0(Exchange::Rate(amount(c)))),
            lot: Lot { price: lot.map(|l| at0(Exchange::Rate(amount(l)))), date: None, note: None },
        }),
        balance: None,
        metadata: vec![],
    })
}

fn txn(date: Date, payee: &str, posts: Vec<TrackedValue<syntax::Posting>>) -> LedgerEntry {
    LedgerEntry::Txn(syntax::Transaction {
        date,
        effective_date: None,
        clear_state: ClearState::Uncleared,
        code: None,
        payee: payee.to_string(),
        posts,
        metadata: vec![],
    })
}

fn fixture() -> Vec<LedgerEntry> {
    vec![
        LedgerEntry::Commodity(CommodityDeclaration {
            name: "JPY".to_string(),
            details: vec![CommodityDetail::Format(expr::Amount {
                value: PrettyDecimal::parse("1,000").unwrap(),
                commodity: "JPY".to_string(),
            })],
        }),
        txn(
            ymd(2023, 12, 31),
            "rate",
            vec![
                post("Equity", Some("0.00 CHF"), None, Some("168.24 JPY")),
                post("Equity", Some("0.00 EUR"), None, Some("157.12 JPY")),
            ],
        ),
        txn(
            ymd(2024, 1, 1),
            "Initial",
            vec![
                post("Assets:J 銀行", Some("1,000,000 JPY"), None, None),
                post("Assets:CH Bank", Some("2,000.00 CHF"), None, None),
                post("Liabilities:EUR Card", Some("-300.00 EUR"), None, None),
                post("Assets:Broker", Some("5,000.0000 OKANE"), Some("80 JPY"), None),
                post("Equity", None, None, None),
            ],
        ),
        txn(
            ymd(2024, 1, 5),
            "Shopping",
            vec![
                post("Expenses:Grocery", Some("100.00 CHF"), None, Some("171.50 JPY")),
                post("Assets:J 銀行", Some("-17,150 JPY"), None, None),
            ],
        ),
        txn(
            ymd(2024, 1, 9),
            "Buy Stock",
            vec![
                post("Assets:Broker", Some("23.0000 OKANE"), Some("120 JPY"), None),
                post("Assets:J 銀行", Some("-2,760 JPY"), None, None),
            ],
        ),
        txn(
            ymd(2024, 1, 15),
            "Sell Stock",
            vec![
                post("Assets:Broker", Some("12,300 JPY"), None, None),
                post("Assets:Broker", Some("-100.0000 OKANE"), Some("80 JPY"), Some("100 JPY")),
                post("Assets:Broker", Some("-23.0000 OKANE"), Some("120 JPY"), Some("100 JPY")),
                post("Income:Capital Gain", Some("-1540 JPY"), None, None),
            ],
        ),
        txn(
            ymd(2024, 1, 20),
            "Shopping",
            vec![
                post("Expenses:Food", Some("150.00 EUR"), None, Some("0.9464 CHF")),
                post("Assets:CH Bank", Some("-141.96 CHF"), None, None),
            ],
        ),
    ]
}

fn create_ledger() -> (ReportContext, Ledger) {
    let mut ctx = ReportContext::new();
    let ledger = match process(&mut ctx, &fixture()) {
        Ok(v) => v,
        Err(err) => panic!("failed to create the testing Ledger: {:?}", err),
    };
    (ctx, ledger)
}

fn unordered() -> (ReportContext, Ledger) {
    let entries = vec![
        txn(ymd(2024, 3, 1), "Third by file", vec![post("Assets:Bank", Some("300 JPY"), None, None), post("Equity", None, None, None)]),
        txn(ymd(2024, 1, 1), "First by date", vec![post("Assets:Bank", Some("100 JPY"), None, None), post("Equity", None, None, None)]),
        txn(ymd(2024, 2, 1), "Middle by date", vec![post("Assets:Bank", Some("200 JPY"), None, None), post("Equity", None, None, None)]),
    ];
    let mut ctx = ReportContext::new();
    let ledger = process(&mut ctx, &entries).unwrap();
    (ctx, ledger)
}

fn pairs(v: Vec<(okane::commodity::CommodityTag, Decimal)>) -> Amount {
    Amount::from_pairs(v).unwrap()
}

fn sorted(mut v: Vec<(Account, Amount)>) -> Vec<(Account, Amount)> {
    v.sort_by_key(|x| x.0);
    v
}

fn all_range() -> DateRange {
    DateRange { start: None, end: None }
}

fn balance_query(account: AccountFilter, conversion: Option<Conversion>, date_range: DateRange) -> BalanceQuery {
    BalanceQuery { account, conversion, date_range }
}

fn names(v: &[&str]) -> Vec<String> {
    v.iter().map(|s| s.to_string()).collect()
}

#[test]
fn balance_default() {
    let (ctx, mut ledger) = create_ledger();
    let chf = ctx.commodity("CHF").unwrap();
    let eur = ctx.commodity("EUR").unwrap();
    let jpy = ctx.commodity("JPY").unwrap();
    let okane = ctx.commodity("OKANE").unwrap();
    let got = ledger.balance(&ctx, &balance_query(AccountFilter::All, None, all_range())).unwrap();
    let want = vec![
        (ctx.account("Assets:CH Bank").unwrap(), Amount::from_value(chf, dec(185804, 2))),
        (ctx.account("Assets:Broker").unwrap(), pairs(vec![(okane, dec(49000000, 4)), (jpy, dec(12300, 0))])),
        (ctx.account("Assets:J 銀行").unwrap(), Amount::from_value(jpy, dec(980090, 0))),
        (ctx.account("Liabilities:EUR Card").unwrap(), Amount::from_value(eur, dec(-30000, 2))),
        (ctx.account("Income:Capital Gain").unwrap(), Amount::from_value(jpy, dec(-1540, 0))),
        (ctx.account("Expenses:Food").unwrap(), Amount::from_value(eur, dec(15000, 2))),
        (ctx.account("Expenses:Grocery").unwrap(), Amount::from_value(chf, dec(10000, 2))),
        (
            ctx.account("Equity").unwrap(),
            pairs(vec![(jpy, dec(-1_400_000, 0)), (chf, dec(-200000, 2)), (eur, dec(30000, 2))]),
        ),
    ];
    assert_eq!(sorted(want), sorted(got.iter()));
}

#[test]
fn balance_conversion_historical() {
    let (ctx, mut ledger) = create_ledger();
    let jpy = ctx.commodity("JPY").unwrap();
    let got = ledger
        .balance(
            &ctx,
            &balance_query(
                AccountFilter::All,
                Some(Conversion { strategy: ConversionStrategy::Historical, target: jpy }),
                all_range(),
            ),
        )
        .unwrap();
    let want = vec![
        (ctx.account("Assets:CH Bank").unwrap(), Amount::from_value(jpy, dec(312_134, 0))),
        (
            ctx.account("Assets:Broker").unwrap(),
            pairs(vec![
                (jpy, dec(400_000, 0)),
                (jpy, dec(2_760, 0)),
                (jpy, dec(-10_000, 0)),
                (jpy, dec(-2_300, 0)),
                (jpy, dec(12_300, 0)),
            ]),
        ),
        (ctx.account("Assets:J 銀行").unwrap(), Amount::from_value(jpy, dec(980090, 0))),
        (ctx.account("Liabilities:EUR Card").unwrap(), Amount::from_value(jpy, dec(-47_136, 0))),
        (ctx.account("Income:Capital Gain").unwrap(), Amount::from_value(jpy, dec(-1_540, 0))),
        (ctx.account("Expenses:Grocery").unwrap(), Amount::from_value(jpy, dec(17_150, 0))),
        (ctx.account("Expenses:Food").unwrap(), Amount::from_value(jpy, dec(23_568, 0))),
        (
            ctx.account("Equity").unwrap(),
            pairs(vec![(jpy, dec(-1_400_000, 0)), (jpy, dec(-336_480, 0)), (jpy, dec(47_136, 0))]),
        ),
    ];
    assert_eq!(sorted(want), sorted(got.iter()));
}

#[test]
fn balance_conversion_up_to_date() {
    let (ctx, mut ledger) = create_ledger();
    let jpy = ctx.commodity("JPY").unwrap();
    let got = ledger
        .balance(
            &ctx,
            &balance_query(
                AccountFilter::All,
                Some(Conversion { strategy: ConversionStrategy::UpToDate { today: ymd(2024, 1, 16) }, target: jpy }),
                all_range(),
            ),
        )
        .unwrap();
    let want = vec![
        (ctx.account("Assets:CH Bank").unwrap(), Amount::from_value(jpy, dec(318_654, 0))),
        (ctx.account("Assets:Broker").unwrap(), Amount::from_value(jpy, dec(502_300, 0))),
        (ctx.account("Assets:J 銀行").unwrap(), Amount::from_value(jpy, dec(980090, 0))),
        (ctx.account("Liabilities:EUR Card").unwrap(), Amount::from_value(jpy, dec(-47_136, 0))),
        (ctx.account("Income:Capital Gain").unwrap(), Amount::from_value(jpy, dec(-1540, 0))),
        (ctx.account("Expenses:Food").unwrap(), Amount::from_value(jpy, dec(23_568, 0))),
        (ctx.account("Expenses:Grocery").unwrap(), Amount::from_value(jpy, dec(17_150, 0))),
        (
            ctx.account("Equity").unwrap(),
            pairs(vec![(jpy, dec(-1_400_000, 0)), (jpy, dec(-343_000, 0)), (jpy, dec(47_136, 0))]),
        ),
    ];
    assert_eq!(sorted(want), sorted(got.iter()));
}

#[test]
fn balance_date_range() {
    let (ctx, mut ledger) = create_ledger();
    let chf = ctx.commodity("CHF").unwrap();
    let jpy = ctx.commodity("JPY").unwrap();
    let got = ledger
        .balance(
            &ctx,
            &balance_query(AccountFilter::All, None, DateRange { start: Some(ymd(2024, 1, 5)), end: Some(ymd(2024, 1, 9)) }),
        )
        .unwrap();
    let want = vec![
        (ctx.account("Assets:J 銀行").unwrap(), Amount::from_value(jpy, dec(-17150, 0))),
        (ctx.account("Expenses:Grocery").unwrap(), Amount::from_value(chf, dec(10000, 2))),
    ];
    assert_eq!(sorted(want), sorted(got.iter()));
}

type Row = (Date, Account, Amount, Amount);

fn rows(v: Vec<RegisterEntry>) -> Vec<Row> {
    v.into_iter().map(|e| (e.date, e.account, e.amount, e.total)).collect()
}

fn register_query(account: AccountFilter, date_range: DateRange, conversion: Option<Conversion>, sort: Sort) -> RegisterQuery {
    RegisterQuery { account, date_range, conversion, sort }
}

#[test]
fn register_entries_filter_by_account() {
    let (ctx, mut ledger) = create_ledger();
    let jpy = ctx.commodity("JPY").unwrap();
    let bank = ctx.account("Assets:J 銀行").unwrap();
    let got = rows(
        ledger
            .register_entries(&ctx, &register_query(AccountFilter::single(bank), all_range(), None, Sort::Original))
            .unwrap(),
    );
    let want = vec![
        (ymd(2024, 1, 1), bank, Amount::from_value(jpy, dec(1000000, 0)), Amount::from_value(jpy, dec(1000000, 0))),
        (ymd(2024, 1, 5), bank, Amount::from_value(jpy, dec(-17150, 0)), Amount::from_value(jpy, dec(982850, 0))),
        (ymd(2024, 1, 9), bank, Amount::from_value(jpy, dec(-2760, 0)), Amount::from_value(jpy, dec(980090, 0))),
    ];
    assert_eq!(want, got);
}

#[test]
fn register_entries_filter_by_date_range() {
    let (ctx, mut ledger) = create_ledger();
    let jpy = ctx.commodity("JPY").unwrap();
    let chf = ctx.commodity("CHF").unwrap();
    let grocery = ctx.account("Expenses:Grocery").unwrap();
    let bank = ctx.account("Assets:J 銀行").unwrap();
    let got = rows(
        ledger
            .register_entries(
                &ctx,
                &register_query(
                    AccountFilter::All,
                    DateRange { start: Some(ymd(2024, 1, 5)), end: Some(ymd(2024, 1, 9)) },
                    None,
                    Sort::Original,
                ),
            )
            .unwrap(),
    );
    let want = vec![
        (ymd(2024, 1, 5), grocery, Amount::from_value(chf, dec(10000, 2)), Amount::from_value(chf, dec(10000, 2))),
        (ymd(2024, 1, 5), bank, Amount::from_value(jpy, dec(-17150, 0)), pairs(vec![(chf, dec(10000, 2)), (jpy, dec(-17150, 0))])),
    ];
    assert_eq!(want, got);
}

#[test]
fn register_entries_unknown_account_is_empty() {
    let (ctx, mut ledger) = create_ledger();
    let got = ledger
        .register_entries(
            &ctx,
            &register_query(
                AccountFilter::from_exact_accounts(&ctx, &names(&["Does:Not:Exist"])),
                all_range(),
                None,
                Sort::Original,
            ),
        )
        .unwrap();
    assert!(got.is_empty(), "expected empty register, got {:?}", got);
}

#[test]
fn register_entries_historical_conversion() {
    let (ctx, mut ledger) = create_ledger();
    let jpy = ctx.commodity("JPY").unwrap();
    let grocery = ctx.account("Expenses:Grocery").unwrap();
    let bank = ctx.account("Assets:J 銀行").unwrap();
    let got = rows(
        ledger
            .register_entries(
                &ctx,
                &register_query(
                    AccountFilter::All,
                    DateRange { start: Some(ymd(2024, 1, 5)), end: Some(ymd(2024, 1, 6)) },
                    Some(Conversion { strategy: ConversionStrategy::Historical, target: jpy }),
                    Sort::Original,
                ),
            )
            .unwrap(),
    );
    let want = vec![
        (ymd(2024, 1, 5), grocery, Amount::from_value(jpy, dec(1715000, 2)), Amount::from_value(jpy, dec(1715000, 2))),
        (ymd(2024, 1, 5), bank, Amount::from_value(jpy, dec(-17150, 0)), Amount::from_value(jpy, dec(0, 2))),
    ];
    assert_eq!(want, got);
}

#[test]
fn register_entries_rejects_up_to_date_conversion() {
    let (ctx, mut ledger) = create_ledger();
    let jpy = ctx.commodity("JPY").unwrap();
    let err = ledger
        .register_entries(
            &ctx,
            &register_query(
                AccountFilter::All,
                all_range(),
                Some(Conversion { strategy: ConversionStrategy::UpToDate { today: ymd(2024, 1, 20) }, target: jpy }),
                Sort::Original,
            ),
        )
        .err()
        .expect("UpToDate is not supported yet");
    assert!(matches!(err, QueryError::UnsupportedConversionStrategy), "unexpected error: {:?}", err);
}

#[test]
fn register_entries_running_total_accumulates_across_accounts() {
    let (ctx, mut ledger) = create_ledger();
    let got = rows(ledger.register_entries(&ctx, &register_query(AccountFilter::All, all_range(), None, Sort::Original)).unwrap());
    assert!(!got.is_empty());
    let final_total = got.last().map(|r| r.3.clone()).unwrap();
    let mut summed = Amount::zero();
    for r in &got {
        summed = summed.check_add(r.2.clone()).unwrap();
    }
    assert_eq!(summed, final_total);
}

#[test]
fn register_entries_sort_original_preserves_file_order() {
    let (ctx, mut ledger) = unordered();
    let bank = ctx.account("Assets:Bank").unwrap();
    let got = rows(ledger.register_entries(&ctx, &register_query(AccountFilter::single(bank), all_range(), None, Sort::Original)).unwrap());
    let dates: Vec<Date> = got.iter().map(|r| r.0).collect();
    assert_eq!(dates, vec![ymd(2024, 3, 1), ymd(2024, 1, 1), ymd(2024, 2, 1)]);
    assert!(got.iter().all(|r| r.1 == bank));
}

#[test]
fn register_entries_sort_date_yields_ascending_order() {
    let (ctx, mut ledger) = unordered();
    let bank = ctx.account("Assets:Bank").unwrap();
    let got = rows(ledger.register_entries(&ctx, &register_query(AccountFilter::single(bank), all_range(), None, Sort::Date)).unwrap());
    let dates: Vec<Date> = got.iter().map(|r| r.0).collect();
    assert_eq!(dates, vec![ymd(2024, 1, 1), ymd(2024, 2, 1), ymd(2024, 3, 1)]);
}

#[test]
fn register_entries_sort_date_running_total_matches_chronology() {
    let (ctx, mut ledger) = unordered();
    let jpy = ctx.commodity("JPY").unwrap();
    let bank = ctx.account("Assets:Bank").unwrap();
    let got = rows(ledger.register_entries(&ctx, &register_query(AccountFilter::single(bank), all_range(), None, Sort::Date)).unwrap());
    let totals: Vec<Amount> = got.into_iter().map(|r| r.3).collect();
    assert_eq!(
        totals,
        vec![Amount::from_value(jpy, dec(100, 0)), Amount::from_value(jpy, dec(300, 0)), Amount::from_value(jpy, dec(600, 0))]
    );
}

fn account_set(filter: AccountFilter) -> Vec<Account> {
    match filter {
        AccountFilter::Accounts(mut s) => {
            s.sort();
            s
        },
        other => panic!("not a set: {:?}", other),
    }
}

#[test]
fn account_filter_from_regex_patterns_empty_matches_nothing() {
    let (ctx, _ledger) = create_ledger();
    let filter = AccountFilter::from_regex_patterns(&ctx, &names(&[])).unwrap();
    assert!(matches!(filter, AccountFilter::Accounts(ref s) if s.is_empty()));
}

#[test]
fn account_filter_from_regex_patterns_matches_substring() {
    let (ctx, _ledger) = create_ledger();
    let filter = AccountFilter::from_regex_patterns(&ctx, &names(&["Assets"])).unwrap();
    let mut want = vec![
        ctx.account("Assets:CH Bank").unwrap(),
        ctx.account("Assets:Broker").unwrap(),
        ctx.account("Assets:J 銀行").unwrap(),
    ];
    want.sort();
    assert_eq!(account_set(filter), want);
}

#[test]
fn account_filter_from_regex_patterns_multiple_patterns_are_unioned() {
    let (ctx, _ledger) = create_ledger();
    let filter = AccountFilter::from_regex_patterns(&ctx, &names(&["^Income", "Card$"])).unwrap();
    let mut want = vec![ctx.account("Income:Capital Gain").unwrap(), ctx.account("Liabilities:EUR Card").unwrap()];
    want.sort();
    assert_eq!(account_set(filter), want);
}

#[test]
fn account_filter_from_regex_patterns_single_match_collapses_to_exact() {
    let (ctx, _ledger) = create_ledger();
    let filter = AccountFilter::from_regex_patterns(&ctx, &names(&["Grocery"])).unwrap();
    let expected = ctx.account("Expenses:Grocery").unwrap();
    assert!(matches!(filter, AccountFilter::Exact(a) if a == expected));
}

#[test]
fn account_filter_from_exact_accounts_matches_names_verbatim() {
    let (ctx, _ledger) = create_ledger();
    let filter = AccountFilter::from_exact_accounts(&ctx, &names(&["Assets:Broker", ".", "Does:Not:Exist"]));
    let expected = ctx.account("Assets:Broker").unwrap();
    assert!(matches!(filter, AccountFilter::Exact(a) if a == expected));
}

#[test]
fn account_filter_from_exact_accounts_no_matches_is_empty_set() {
    let (ctx, _ledger) = create_ledger();
    let filter = AccountFilter::from_exact_accounts(&ctx, &names(&["Does:Not:Exist"]));
    assert!(matches!(filter, AccountFilter::Accounts(ref s) if s.is_empty()));
}

#[test]
fn account_filter_from_regex_patterns_invalid_regex_errors() {
    let (ctx, _ledger) = create_ledger();
    let err = AccountFilter::from_regex_patterns(&ctx, &names(&["("]));
    assert!(err.is_err(), "expected regex compile error");
}

#[test]
fn balance_with_account_filter() {
    let (ctx, mut ledger) = create_ledger();
    let chf = ctx.commodity("CHF").unwrap();
    let jpy = ctx.commodity("JPY").unwrap();
    let okane = ctx.commodity("OKANE").unwrap();
    let filter = AccountFilter::from_regex_patterns(&ctx, &names(&["^Assets"])).unwrap();
    let got = ledger.balance(&ctx, &balance_query(filter, None, all_range())).unwrap();
    let want = vec![
        (ctx.account("Assets:CH Bank").unwrap(), Amount::from_value(chf, dec(185804, 2))),
        (ctx.account("Assets:Broker").unwrap(), pairs(vec![(okane, dec(49000000, 4)), (jpy, dec(12300, 0))])),
        (ctx.account("Assets:J 銀行").unwrap(), Amount::from_value(jpy, dec(980090, 0))),
    ];
    assert_eq!(sorted(want), sorted(got.iter()));
}

#[test]
fn process_declarations_register_names_and_aliases() {
    let entries = vec![
        LedgerEntry::Account(syntax::AccountDeclaration {
            name: "Assets:Bank".to_string(),
            details: vec![syntax::AccountDetail::Alias("Bank".to_string())],
        }),
        LedgerEntry::Commodity(CommodityDeclaration {
            name: "JPY".to_string(),
            details: vec![CommodityDetail::Alias("円".to_string())],
        }),
    ];
    let mut ctx = ReportContext::new();
    let ledger = process(&mut ctx, &entries).unwrap();
    assert_eq!(ledger.transactions.len(), 0);
    assert!(ctx.accounts.resolve("Bank").is_some());
    assert_eq!(ctx.accounts.resolve("Bank"), ctx.accounts.resolve("Assets:Bank"));
}

#[test]
fn process_declaration_refuses_alias_of_canonical_name() {
    let entries = vec![
        LedgerEntry::Account(syntax::AccountDeclaration { name: "Assets:Bank".to_string(), details: vec![] }),
        LedgerEntry::Account(syntax::AccountDeclaration {
            name: "Assets:Cash".to_string(),
            details: vec![syntax::AccountDetail::Alias("Assets:Bank".to_string())],
        }),
    ];
    let mut ctx = ReportContext::new();
    assert!(process(&mut ctx, &entries).is_err());
}
