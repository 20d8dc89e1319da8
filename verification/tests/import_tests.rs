use okane::data::{self, ClearState};
use okane::date::Date;
use okane::decimal::Decimal;
use okane::import::config::{
    AccountType, CommodityConversion, CommodityFormatSpec, ConfigEntry, ConfigFragment, ConfigSet, Encoding, FieldKey, FieldMatcher,
    FieldPos, FormatSpec, RewriteField, RewriteMatcher, RewriteRule, UnspecifiedCommodityConversion,
};
use okane::import::csv::{resolve_fields, str_to_comma_decimal, CsvImporter, FieldMap, FieldMapValues};
use okane::import::error::ImportError;
use okane::import::extract::{Extractor, Fragment};
use okane::import::single_entry::Txn;
use okane::import::viseca::{parse_decimal, parse_euro_date, Entry, Exchange, Parser, VisecaImporter};
use okane::import::{display_context_of, import, imported_text, Format};
use okane::syntax::display::DisplayContext;

fn ymd(y: i32, m: u32, d: u32) -> Date {
    Date::from_ymd(y, m, d).unwrap()
}

fn dec(num: i64, scale: u32) -> Decimal {
    Decimal::new(num, scale)
}

fn create_empty_config_fragment() -> ConfigFragment {
    ConfigFragment {
        path: "empty/".to_string(),
        account: None,
        account_type: None,
        commodity: None,
        encoding: None,
        format: None,
        operator: None,
        rewrite: Vec::new(),
    }
}

fn create_config_fragment(path: &str) -> ConfigFragment {
    let mut format = FormatSpec::empty();
    format.date = "%Y%m%d".to_owned();
    ConfigFragment {
        account: Some("Account".to_owned()),
        encoding: Some(Encoding(encoding_rs::UTF_8)),
        path: path.to_owned(),
        account_type: Some(AccountType::Asset),
        operator: None,
        commodity: Some("JPY".to_owned()),
        format: Some(format),
        rewrite: vec![],
    }
}

#[test]
fn test_config_select_single_match() {
    let config_set = ConfigSet::new(vec![create_config_fragment("path/to/foo"), create_config_fragment("path/to/bar")]);
    let cfg0: ConfigEntry =
        ConfigEntry::try_from_fragment(config_set.entries[0].clone()).expect("config[0] must be valid ConfigEntry");
    assert_eq!(
        cfg0,
        config_set.select("path/to/foo/202109.csv").expect("select must not fail").expect("select must have result")
    );
}

#[test]
fn test_config_select_no_match() {
    let config_set = ConfigSet::new(vec![create_config_fragment("path/to/foo"), create_config_fragment("path/to/bar")]);
    assert_eq!(None, config_set.select("path/to/baz/202109.csv").expect("select must not fail"));
}

#[test]
fn test_config_select_multi_match() {
    let config_set = ConfigSet::new(vec![create_config_fragment("path/to/foo"), create_config_fragment("path/to")]);
    let cfg0: ConfigEntry =
        ConfigEntry::try_from_fragment(config_set.entries[0].clone()).expect("config[0] must be valid ConfigEntry");
    assert_eq!(
        cfg0,
        config_set.select("path/to/foo/202109.csv").expect("select must not fail").expect("select must have result")
    );
}

#[test]
fn test_config_select_merge_match() {}

#[test]
fn test_config_entry_try_from() {
    let f = create_config_fragment("tmp/foo");
    ConfigEntry::try_from_fragment(f.clone()).expect("create_config_fragment() should return solo valid fragment");
    let err = |x: ConfigFragment| ConfigEntry::try_from_fragment(x).unwrap_err().message();
    assert!(err(ConfigFragment { account: None, ..f.clone() }).contains("account"));
    assert!(err(ConfigFragment { encoding: None, ..f.clone() }).contains("encoding"));
    assert!(err(ConfigFragment { account_type: None, ..f.clone() }).contains("account_type"));
    assert!(err(ConfigFragment { commodity: None, ..f.clone() }).contains("commodity"));
}

#[test]
fn test_config_fragment_merge() {
    let empty = create_empty_config_fragment;
    let account = || ConfigFragment { path: "account/".to_string(), account: Some("foo".to_string()), ..empty() };
    let account_type =
        || ConfigFragment { path: "account_type/".to_string(), account_type: Some(AccountType::Liability), ..empty() };
    let commodity =
        || ConfigFragment { path: "commodity/".to_string(), commodity: Some("FOO COMMODITY".to_string()), ..empty() };
    let operator =
        || ConfigFragment { path: "fragment/".to_string(), operator: Some("foo operator".to_string()), ..empty() };
    let cases: Vec<Box<dyn Fn() -> ConfigFragment>> =
        vec![Box::new(account), Box::new(account_type), Box::new(commodity), Box::new(operator)];
    for case in cases {
        assert_eq!(empty().merge(case()), case());
        assert_eq!(case().merge(empty()), ConfigFragment { path: "empty/".to_string(), ..case() });
    }
}

fn header(v: &[&str]) -> Vec<String> {
    v.iter().map(|s| s.to_string()).collect()
}

#[test]
fn resolve_fields_label_credit_debit() {
    let config = vec![
        (FieldKey::Date, FieldPos::Label("日付".to_owned())),
        (FieldKey::Payee, FieldPos::Label("摘要".to_owned())),
        (FieldKey::Credit, FieldPos::Label("お預け入れ額".to_owned())),
        (FieldKey::Debit, FieldPos::Label("お引き出し額".to_owned())),
        (FieldKey::Balance, FieldPos::Label("残高".to_owned())),
    ];
    let got = resolve_fields(&config, &header(&["日付", "摘要", "お預け入れ額", "お引き出し額", "残高"])).unwrap();
    assert_eq!(
        got,
        FieldMap {
            date: 0,
            payee: 1,
            value: FieldMapValues::CreditDebit { credit: 2, debit: 3 },
            balance: Some(4),
            category: None,
            commodity: None,
            rate: None,
            equivalent_absolute: None,
        }
    );
}

#[test]
fn resolve_fields_index_amount() {
    let config = vec![
        (FieldKey::Date, FieldPos::Index(0)),
        (FieldKey::Payee, FieldPos::Index(1)),
        (FieldKey::Amount, FieldPos::Index(2)),
    ];
    let got = resolve_fields(&config, &header(&["unrelated"])).unwrap();
    assert_eq!(
        got,
        FieldMap {
            date: 0,
            payee: 1,
            value: FieldMapValues::Amount(2),
            balance: None,
            category: None,
            commodity: None,
            rate: None,
            equivalent_absolute: None,
        }
    );
}

#[test]
fn resolve_fields_optionals() {
    let config = vec![
        (FieldKey::Date, FieldPos::Index(0)),
        (FieldKey::Payee, FieldPos::Index(1)),
        (FieldKey::Amount, FieldPos::Index(2)),
        (FieldKey::Balance, FieldPos::Index(3)),
        (FieldKey::Category, FieldPos::Index(4)),
        (FieldKey::Commodity, FieldPos::Index(5)),
        (FieldKey::Rate, FieldPos::Index(6)),
        (FieldKey::EquivalentAbsolute, FieldPos::Index(7)),
    ];
    let got = resolve_fields(&config, &header(&["unrelated"])).unwrap();
    assert_eq!(
        got,
        FieldMap {
            date: 0,
            payee: 1,
            value: FieldMapValues::Amount(2),
            balance: Some(3),
            category: Some(4),
            commodity: Some(5),
            rate: Some(6),
            equivalent_absolute: Some(7),
        }
    );
}

#[test]
fn resolve_fields_reports_missing_labels() {
    let config = vec![(FieldKey::Date, FieldPos::Label("when".to_owned())), (FieldKey::Payee, FieldPos::Index(1))];
    match resolve_fields(&config, &header(&["date", "payee"])) {
        Err(ImportError::Other(m)) => assert!(m.contains("when")),
        other => panic!("unexpected: {:?}", other),
    }
}

#[test]
fn resolve_fields_requires_date_payee_and_amount() {
    let no_date = vec![(FieldKey::Payee, FieldPos::Index(1)), (FieldKey::Amount, FieldPos::Index(2))];
    assert_eq!(Err(ImportError::InvalidConfig("no Date field specified")), resolve_fields(&no_date, &header(&[])));
    let no_payee = vec![(FieldKey::Date, FieldPos::Index(0)), (FieldKey::Amount, FieldPos::Index(2))];
    assert_eq!(Err(ImportError::InvalidConfig("no Payee field specified")), resolve_fields(&no_payee, &header(&[])));
    let only_credit = vec![
        (FieldKey::Date, FieldPos::Index(0)),
        (FieldKey::Payee, FieldPos::Index(1)),
        (FieldKey::Credit, FieldPos::Index(2)),
    ];
    assert_eq!(
        Err(ImportError::InvalidConfig("either amount or credit/debit pair should be set")),
        resolve_fields(&only_credit, &header(&[]))
    );
}

#[test]
fn resolve_fields_takes_the_last_column_of_a_label() {
    let config = vec![
        (FieldKey::Date, FieldPos::Label("d".to_owned())),
        (FieldKey::Payee, FieldPos::Label("p".to_owned())),
        (FieldKey::Amount, FieldPos::Label("a".to_owned())),
    ];
    let got = resolve_fields(&config, &header(&["d", "a", "p", "a"])).unwrap();
    assert_eq!(got.value, FieldMapValues::Amount(3));
    assert_eq!(got.payee, 2);
}

#[test]
fn comma_decimal_ignores_separators() {
    assert_eq!(dec(123456789, 2), str_to_comma_decimal("1,234,567.89").unwrap());
    assert_eq!(Err(ImportError::InvalidDecimal), str_to_comma_decimal("abc"));
}

#[test]
fn extract_test_fragment_add_assign_filled() {
    let mut x = Fragment { cleared: true, payee: Some("foo".to_string()), account: None, conversion: None, code: None };
    let y = Fragment {
        cleared: false,
        payee: Some("bar".to_string()),
        account: Some("baz".to_string()),
        conversion: None,
        code: None,
    };
    x.add_assign(y);
    assert_eq!(
        x,
        Fragment { cleared: true, payee: Some("bar".to_string()), account: Some("baz".to_string()), conversion: None, code: None }
    );
}

#[test]
fn extract_test_fragment_add_assign_empty() {
    let mut x = Fragment { cleared: false, payee: Some("foo".to_string()), account: None, conversion: None, code: None };
    let y = Fragment { cleared: false, payee: None, account: None, conversion: None, code: None };
    x.add_assign(y);
    assert_eq!(x, Fragment { cleared: false, payee: Some("foo".to_string()), account: None, conversion: None, code: None });
}

#[test]
fn test_effective_date_not_set_same_date() {
    let mut txn = Txn::new(ymd(2021, 10, 1), "foo", data::Amount { commodity: "JPY".to_string(), value: dec(10, 0) });
    txn.effective_date(ymd(2021, 10, 1));
    assert_eq!(txn.effective_date, None);
}

#[test]
fn test_effective_date_set_different_date() {
    let mut txn = Txn::new(ymd(2021, 10, 1), "foo", data::Amount { commodity: "JPY".to_string(), value: dec(10, 0) });
    txn.effective_date(ymd(2021, 10, 2));
    assert_eq!(txn.effective_date, Some(ymd(2021, 10, 2)));
}

#[test]
fn to_double_entry_places_the_postings_by_sign() {
    let mut deposit = Txn::new(ymd(2021, 10, 1), "shop", data::Amount { commodity: "JPY".to_string(), value: dec(10, 0) });
    deposit.balance(data::Amount { commodity: "JPY".to_string(), value: dec(100, 0) });
    let t = deposit.to_double_entry("Assets:Bank").unwrap();
    assert_eq!(t.clear_state, ClearState::Cleared);
    assert_eq!(t.posts.len(), 2);
    assert_eq!(t.posts[0].account, "Incomes:Unknown");
    assert_eq!(t.posts[0].clear_state, ClearState::Pending);
    assert_eq!(t.posts[0].amount.as_ref().unwrap().amount.value, dec(-10, 0));
    assert_eq!(t.posts[1].account, "Assets:Bank");
    assert_eq!(t.posts[1].balance.as_ref().unwrap().value, dec(100, 0));

    let mut spend = Txn::new(ymd(2021, 10, 1), "shop", data::Amount { commodity: "JPY".to_string(), value: dec(-10, 0) });
    spend.dest_account("Expenses:Food");
    let t = spend.to_double_entry("Assets:Bank").unwrap();
    assert_eq!(t.posts[0].account, "Assets:Bank");
    assert_eq!(t.posts[1].account, "Expenses:Food");
    assert_eq!(t.posts[1].clear_state, ClearState::Uncleared);
    assert_eq!(t.posts[1].amount.as_ref().unwrap().amount.value, dec(10, 0));
}

fn csv_config(fields: Vec<(FieldKey, FieldPos)>, rewrite: Vec<RewriteRule>) -> ConfigEntry {
    let mut format = FormatSpec::empty();
    format.date = "%Y/%m/%d".to_owned();
    format.fields = fields;
    ConfigEntry {
        path: "bank/".to_owned(),
        encoding: Encoding(encoding_rs::UTF_8),
        account: "Assets:Bank".to_owned(),
        account_type: AccountType::Asset,
        operator: None,
        commodity: "JPY".to_owned(),
        format,
        rewrite,
    }
}

fn payee_rule(pattern: &str, account: Option<&str>, pending: bool) -> RewriteRule {
    RewriteRule {
        matcher: RewriteMatcher::Field(FieldMatcher { fields: vec![(RewriteField::Payee, pattern.to_string())] }),
        pending,
        payee: None,
        account: account.map(|a| a.to_string()),
        conversion: None,
    }
}

#[test]
fn csv_import_applies_rules_and_skips_empty_dates() {
    let config = csv_config(
        vec![
            (FieldKey::Date, FieldPos::Label("date".to_owned())),
            (FieldKey::Payee, FieldPos::Label("payee".to_owned())),
            (FieldKey::Credit, FieldPos::Label("credit".to_owned())),
            (FieldKey::Debit, FieldPos::Label("debit".to_owned())),
            (FieldKey::Balance, FieldPos::Label("balance".to_owned())),
        ],
        vec![payee_rule("Card (?P<payee>.*)", None, false), payee_rule("Grocery", Some("Expenses:Grocery"), false)],
    );
    let input = "date,payee,credit,debit,balance\n2021/09/01,Card Grocery,,\"1,000\",9000\n,summary,,,\n2021/09/02,Salary,500,,9500\n";
    let txns = (CsvImporter {}).import(input.as_bytes(), &config).unwrap();
    assert_eq!(txns.len(), 2);
    assert_eq!(txns[0].date, ymd(2021, 9, 1));
    assert_eq!(txns[0].payee, "Grocery");
    assert_eq!(txns[0].dest_account.as_deref(), Some("Expenses:Grocery"));
    assert_eq!(txns[0].clear_state, ClearState::Cleared);
    assert_eq!(txns[0].amount.value, dec(-1000, 0));
    assert_eq!(txns[0].balance.as_ref().unwrap().value, dec(9000, 0));
    assert_eq!(txns[1].payee, "Salary");
    assert_eq!(txns[1].dest_account, None);
    assert_eq!(txns[1].clear_state, ClearState::Pending);
    assert_eq!(txns[1].amount.value, dec(500, 0));
}

#[test]
fn csv_import_reports_short_records_with_the_line() {
    let config = csv_config(
        vec![
            (FieldKey::Date, FieldPos::Index(0)),
            (FieldKey::Payee, FieldPos::Index(1)),
            (FieldKey::Amount, FieldPos::Index(2)),
        ],
        vec![],
    );
    let input = "date,payee,amount\n2021/09/01,shop\n";
    match (CsvImporter {}).import(input.as_bytes(), &config) {
        Err(ImportError::Other(m)) => assert_eq!(m, "csv record length too short at line 2"),
        other => panic!("unexpected: {:?}", other.map(|v| v.len())),
    }
}

#[test]
fn csv_import_liability_negates_and_converts() {
    let mut config = csv_config(
        vec![
            (FieldKey::Date, FieldPos::Index(0)),
            (FieldKey::Payee, FieldPos::Index(1)),
            (FieldKey::Amount, FieldPos::Index(2)),
            (FieldKey::Rate, FieldPos::Index(3)),
            (FieldKey::EquivalentAbsolute, FieldPos::Index(4)),
        ],
        vec![RewriteRule {
            matcher: RewriteMatcher::Field(FieldMatcher { fields: vec![(RewriteField::Payee, "Abroad".to_string())] }),
            pending: false,
            payee: None,
            account: Some("Expenses:Travel".to_string()),
            conversion: Some(CommodityConversion::Unspecified(UnspecifiedCommodityConversion::Primary)),
        }],
    );
    config.account_type = AccountType::Liability;
    let input = "d,p,a,r,e\n2021/09/01,Abroad,10,1.5,15\n";
    let txns = (CsvImporter {}).import(input.as_bytes(), &config).unwrap();
    assert_eq!(txns[0].amount.value, dec(-10, 0));
    match &txns[0].rate {
        Some(data::Exchange::Rate(a)) => {
            assert_eq!(a.value, dec(15, 1));
            assert_eq!(a.commodity, "JPY");
        },
        other => panic!("unexpected rate: {:?}", other),
    }
    let t = txns[0].transferred_amount.as_ref().unwrap();
    assert_eq!(t.amount.value, dec(15, 0));
    assert_eq!(t.exchange, None);
}

#[test]
fn csv_matcher_rejects_other_fields_and_bad_patterns() {
    let config = csv_config(vec![], vec![payee_rule("(", None, false)]);
    assert_eq!(Err(ImportError::InvalidRegex), Extractor::<okane::import::csv::CsvMatcher>::try_from_rules(&config.rewrite).map(|_| ()));
    let other = RewriteRule {
        matcher: RewriteMatcher::Field(FieldMatcher { fields: vec![(RewriteField::DebtorName, "x".to_string())] }),
        pending: false,
        payee: None,
        account: None,
        conversion: None,
    };
    assert_eq!(
        Err(ImportError::InvalidConfig("CSV only supports payee or category matcher.")),
        Extractor::<okane::import::csv::CsvMatcher>::try_from_rules(&vec![other]).map(|_| ())
    );
    let empty = RewriteRule {
        matcher: RewriteMatcher::Field(FieldMatcher { fields: vec![] }),
        pending: false,
        payee: None,
        account: None,
        conversion: None,
    };
    assert_eq!(
        Err(ImportError::InvalidConfig("empty field matcher is not allowed")),
        Extractor::<okane::import::csv::CsvMatcher>::try_from_rules(&vec![empty]).map(|_| ())
    );
}

#[test]
fn csv_import_rejects_non_csv() {
    let config = csv_config(vec![], vec![]);
    assert!(matches!((CsvImporter {}).import(b"a,\"b\n\xff", &config), Err(_)));
}

#[test]
fn parse_euro_date_valid() {
    assert_eq!(parse_euro_date("22.06.20").unwrap(), ymd(2020, 6, 22));
}

#[test]
fn parse_euro_date_invalid() {
    assert_eq!(parse_euro_date("35.06.20"), None);
}

#[test]
fn parse_decimal_valid() {
    assert_eq!(parse_decimal("1.00").unwrap(), dec(100, 2));
    assert_eq!(parse_decimal("123'456'789.64").unwrap(), dec(12345678964, 2));
}

const VISECA_INPUT: &str = "22.06.20 13.09.21 foo shop 100 1'234.56
Catering Service
10.08.20 11.08.20 Super gas EUR 46.88 52.10
Service stations
Exchange rate 1.092432 of 09.08.20 CHF 51.20
Processing fee 1.75% CHF 0.90
";

#[test]
fn test_parse_entry() {
    let mut p = Parser::new(VISECA_INPUT);
    assert_eq!(
        Some(Entry {
            line_count: 1,
            date: ymd(2020, 6, 22),
            effective_date: ymd(2021, 9, 13),
            payee: "foo shop 100".to_owned(),
            amount: dec(123456, 2),
            category: "Catering Service".to_owned(),
            exchange: None,
        }),
        p.parse_entry().unwrap()
    );
    assert_eq!(
        Some(Entry {
            line_count: 3,
            date: ymd(2020, 8, 10),
            effective_date: ymd(2020, 8, 11),
            payee: "Super gas".to_string(),
            amount: dec(5210, 2),
            category: "Service stations".to_string(),
            exchange: Some(Exchange {
                exchanged_amount: dec(4688, 2),
                exchanged_currency: "EUR".to_string(),
                rate: dec(1092432, 6),
                rate_date: ymd(2020, 8, 9),
                spent_amount: dec(5120, 2),
                spent_currency: "CHF".to_string(),
                fee_percent: dec(175, 2),
                fee_amount: dec(90, 2),
                fee_currency: "CHF".to_string(),
            }),
        }),
        p.parse_entry().unwrap()
    );
    assert_eq!(None, p.parse_entry().unwrap());
}

#[test]
fn viseca_parse_entry_reports_the_missing_category_line() {
    let mut p = Parser::new("22.06.20 13.09.21 foo shop 100 1'234.56\n");
    match p.parse_entry() {
        Err(ImportError::Viseca(m)) => assert_eq!(m, "category line not found @ line 2"),
        other => panic!("unexpected: {:?}", other),
    }
    let mut q = Parser::new("not an entry\n");
    match q.parse_entry() {
        Err(ImportError::Viseca(m)) => assert_eq!(m, "unsupported entry line: not an entry @ line 1"),
        other => panic!("unexpected: {:?}", other),
    }
}

#[test]
fn viseca_import_needs_an_operator_for_exchanges() {
    let mut config = csv_config(vec![], vec![payee_rule("foo", Some("Expenses:Food"), false)]);
    config.commodity = "CHF".to_owned();
    assert_eq!(
        Err(ImportError::InvalidConfig("config should have operator to have charge")),
        (VisecaImporter {}).import(VISECA_INPUT, &config).map(|v| v.len())
    );
    config.operator = Some("Viseca".to_owned());
    let txns = (VisecaImporter {}).import(VISECA_INPUT, &config).unwrap();
    assert_eq!(txns.len(), 2);
    assert_eq!(txns[0].amount.value, dec(-123456, 2));
    assert_eq!(txns[0].effective_date, Some(ymd(2021, 9, 13)));
    assert_eq!(txns[0].payee, "foo shop 100");
    assert_eq!(txns[0].dest_account.as_deref(), Some("Expenses:Food"));
    assert_eq!(txns[0].clear_state, ClearState::Pending);
    assert_eq!(txns[1].dest_account, None);
    let t = txns[1].transferred_amount.as_ref().unwrap();
    assert_eq!(t.amount.value, dec(-4688, 2));
    assert_eq!(t.amount.commodity, "EUR");
}

#[test]
fn import_converts_to_double_entries() {
    let config = csv_config(
        vec![
            (FieldKey::Date, FieldPos::Index(0)),
            (FieldKey::Payee, FieldPos::Index(1)),
            (FieldKey::Amount, FieldPos::Index(2)),
        ],
        vec![],
    );
    let input = "d,p,a\n2021/09/01,shop,-5\n";
    let txns = import(input.as_bytes(), Format::Csv, &config).unwrap();
    assert_eq!(txns.len(), 1);
    assert_eq!(txns[0].posts[0].account, "Assets:Bank");
    assert_eq!(txns[0].posts[1].account, "Expenses:Unknown");
    assert!(matches!(import(input.as_bytes(), Format::IsoCamt053, &config), Err(ImportError::Unimplemented(_))));
    assert_eq!(Err(ImportError::IO), import(b"\xff\xfe", Format::Viseca, &config).map(|v| v.len()));
}

#[test]
fn import_error_messages() {
    assert_eq!(ImportError::InvalidConfig("x").message(), "invalid config x");
    assert_eq!(ImportError::Other("y".to_string()).message(), "other error: y");
    assert_eq!(ImportError::InvalidDecimal.message(), "invalid decimal");
    assert_eq!(ImportError::CSV.message(), "failed to parse CSV");
}

#[test]
fn format_from_extension_picks_the_importer() {
    assert_eq!(Format::from_extension(Some("csv")), Ok(Format::Csv));
    assert_eq!(Format::from_extension(Some("xml")), Ok(Format::IsoCamt053));
    assert_eq!(Format::from_extension(Some("txt")), Ok(Format::Viseca));
    assert_eq!(Format::from_extension(Some("pdf")), Err(ImportError::UnknownFormat));
    assert_eq!(Format::from_extension(None), Err(ImportError::UnknownFormat));
}

#[test]
fn imported_text_prints_each_transaction_then_a_blank_line() {
    let jpy = |num: i64| data::Amount { value: dec(num, 0), commodity: "JPY".to_string() };
    let txn = data::Transaction {
        date: ymd(2021, 10, 1),
        effective_date: None,
        clear_state: ClearState::Cleared,
        code: Some("x1".to_string()),
        payee: "foo".to_string(),
        posts: vec![
            data::Posting {
                account: "Assets:Bank".to_string(),
                clear_state: ClearState::Uncleared,
                amount: Some(data::ExchangedAmount { amount: jpy(-10), exchange: None }),
                balance: Some(jpy(100)),
                payee: None,
            },
            data::Posting {
                account: "Expenses:Food".to_string(),
                clear_state: ClearState::Pending,
                amount: Some(data::ExchangedAmount { amount: jpy(10), exchange: None }),
                balance: None,
                payee: Some("shop".to_string()),
            },
        ],
    };
    let got = imported_text(&DisplayContext::default(), vec![txn]);
    let want = [
        "2021/10/01 * (x1) foo\n",
        "    Assets:Bank                                  -10 JPY = 100 JPY\n",
        "    ! Expenses:Food                               10 JPY\n",
        "    ; Payee: shop\n",
        "\n",
    ]
    .concat();
    assert_eq!(want, got);
}

#[test]
fn display_context_of_config_uses_the_precisions() {
    let mut config = csv_config(Vec::new(), Vec::new());
    config.format.commodity = vec![("JPY".to_string(), CommodityFormatSpec { precision: 2 })];
    let ctx = display_context_of(&config);
    assert_eq!(ctx.min_scale("JPY"), Some(2));
    assert_eq!(ctx.min_scale("USD"), None);
    assert_eq!(ctx.decimal_format("JPY"), None);
}

#[test]
fn resolve_fields_lists_the_missing_and_the_actual_labels_sorted() {
    let config = vec![
        (FieldKey::Date, FieldPos::Label("when".to_owned())),
        (FieldKey::Payee, FieldPos::Label("who".to_owned())),
        (FieldKey::Amount, FieldPos::Label("amount".to_owned())),
        (FieldKey::Note, FieldPos::Label("absent".to_owned())),
    ];
    match resolve_fields(&config, &header(&["payee", "date", "amount", "date"])) {
        Err(ImportError::Other(m)) => {
            assert_eq!(m, "specified labels not found: absent,when,who actual labels: amount,date,payee")
        }
        other => panic!("unexpected: {:?}", other),
    }
}

#[test]
fn csv_import_reports_an_earlier_row_error_before_an_unreadable_record() {
    let config = csv_config(
        vec![
            (FieldKey::Date, FieldPos::Index(0)),
            (FieldKey::Payee, FieldPos::Index(1)),
            (FieldKey::Amount, FieldPos::Index(2)),
        ],
        vec![],
    );
    let mut input = b"date,payee,amount\n2021/09/01,shop\n".to_vec();
    input.extend_from_slice(b"2021/09/02,\xff,1\n");
    match (CsvImporter {}).import(&input, &config) {
        Err(ImportError::Other(m)) => assert_eq!(m, "csv record length too short at line 2"),
        other => panic!("unexpected: {:?}", other.map(|v| v.len())),
    }
}

#[test]
fn csv_import_reports_an_unreadable_record_after_good_rows() {
    let config = csv_config(
        vec![
            (FieldKey::Date, FieldPos::Index(0)),
            (FieldKey::Payee, FieldPos::Index(1)),
            (FieldKey::Amount, FieldPos::Index(2)),
        ],
        vec![],
    );
    let mut input = b"date,payee,amount\n2021/09/01,shop,10\n".to_vec();
    input.extend_from_slice(b"2021/09/02,\xff,1\n");
    assert!(matches!((CsvImporter {}).import(&input, &config), Err(ImportError::CSV)));
}

#[test]
fn csv_import_takes_the_code_a_rule_captures() {
    let config = csv_config(
        vec![
            (FieldKey::Date, FieldPos::Label("date".to_owned())),
            (FieldKey::Payee, FieldPos::Label("payee".to_owned())),
            (FieldKey::Amount, FieldPos::Label("amount".to_owned())),
        ],
        vec![payee_rule("#(?P<code>[0-9]+) (?P<payee>.*)", Some("Expenses:Shop"), false)],
    );
    let input = "date,payee,amount\n2021/09/01,#42 Grocery,-10\n";
    let txns = (CsvImporter {}).import(input.as_bytes(), &config).unwrap();
    assert_eq!(txns.len(), 1);
    assert_eq!(txns[0].code.as_deref(), Some("42"));
    assert_eq!(txns[0].payee, "Grocery");
}
