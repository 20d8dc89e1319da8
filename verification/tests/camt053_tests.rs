use okane::data::{ClearState, Exchange};
use okane::date::Date;
use okane::decimal::Decimal;
use okane::import::config::{
    AccountType, ConfigEntry, Encoding, FieldMatcher, FormatSpec, RewriteField, RewriteMatcher, RewriteRule,
};
use okane::import::error::ImportError;
use okane::import::extract::{EntityMatcher, Extractor, Fragment, Matched};
use okane::import::import_document;
use okane::import::iso_camt053::{
    Amount, AmountWithExchange, BalanceCode, BalanceEntry, ChargeRecord, CreditOrDebit, CurrencyExchange, Document,
    Entry, FieldMatch, IsoCamt053Importer, MatchTarget, Statement, TransactionDetails,
};

fn ymd(y: i32, m: u32, d: u32) -> Date {
    Date::from_ymd(y, m, d).unwrap()
}

fn dec(num: i64, scale: u32) -> Decimal {
    Decimal::new(num, scale)
}

fn chf(num: i64, scale: u32) -> Amount {
    Amount { value: dec(num, scale), currency: "CHF".to_string() }
}

fn test_transaction() -> TransactionDetails {
    TransactionDetails {
        account_servicer_reference: Some("foobar".to_string()),
        credit_or_debit: CreditOrDebit::Credit,
        amount: chf(123, 1),
        amount_details: Some(AmountWithExchange { amount: chf(123, 1), currency_exchange: None }),
        charges: Vec::new(),
        creditor_name: Some("creditor".to_string()),
        creditor_account_id: None,
        ultimate_creditor_name: None,
        debtor_name: Some("debtor".to_string()),
        debtor_account_id: None,
        ultimate_debtor_name: None,
        remittance_unstructured_info: Some("the remittance info".to_string()),
        additional_info: Some("This is additional Info".to_string()),
    }
}

fn entry_with(code: &str, family: &str, sub_family: &str, transactions: Vec<TransactionDetails>) -> Entry {
    Entry {
        amount: chf(120, 0),
        credit_or_debit: CreditOrDebit::Credit,
        booking_date: ymd(2021, 10, 1),
        value_date: ymd(2021, 10, 1),
        domain_code: code.to_string(),
        domain_family_code: family.to_string(),
        domain_sub_family_code: sub_family.to_string(),
        charges: Vec::new(),
        additional_info: "entry additional info".to_string(),
        transactions,
    }
}

fn test_entry() -> Entry {
    entry_with("PMNT", "ICDT", "AUTT", vec![test_transaction()])
}

fn matcher(field: RewriteField, pattern: &str) -> FieldMatch {
    match FieldMatch::try_from_field(field, pattern) {
        Ok(m) => m,
        Err(e) => panic!("matcher must be built: {:?}", e),
    }
}

fn on_entry(m: &FieldMatch, fragment: &Fragment, entry: &Entry) -> Option<Matched> {
    m.captures(fragment, &MatchTarget::of_entry(entry))
}

fn on_transaction(m: &FieldMatch, fragment: &Fragment, entry: &Entry, t: &TransactionDetails) -> Option<Matched> {
    m.captures(fragment, &MatchTarget::of_transaction(entry, t))
}

#[test]
fn field_match_captures_domain_family_match() {
    let m = matcher(RewriteField::DomainFamily, "ICDT");
    assert_eq!(Some(Matched::default()), on_entry(&m, &Fragment::empty(), &test_entry()));
}

#[test]
fn field_match_captures_domain_family_unmatch() {
    let m = matcher(RewriteField::DomainFamily, "RCDT");
    assert_eq!(None, on_entry(&m, &Fragment::empty(), &test_entry()));
}

#[test]
fn field_match_captures_domain_sub_family_match() {
    let m = matcher(RewriteField::DomainSubFamily, "AUTT");
    assert_eq!(Some(Matched::default()), on_entry(&m, &Fragment::empty(), &test_entry()));
}

#[test]
fn field_match_captures_domain_sub_family_unmatch() {
    let m = matcher(RewriteField::DomainSubFamily, "SALA");
    assert_eq!(None, on_entry(&m, &Fragment::empty(), &test_entry()));
}

#[test]
fn field_match_from_invalid_regex() {
    match FieldMatch::try_from_field(RewriteField::Payee, "*") {
        Err(ImportError::InvalidRegex) => {}
        Err(e) => panic!("unexpected type of error: {:?}", e),
        Ok(_) => panic!("an invalid pattern must be refused"),
    }
}

#[test]
fn field_match_from_category_is_unknown_field() {
    match FieldMatch::try_from_field(RewriteField::Category, "food") {
        Err(e) => {
            assert_eq!(e, ImportError::UnknownMatchField(RewriteField::Category));
            assert_eq!(e.message(), "other error: unknown match field: Category");
        }
        Ok(_) => panic!("camt.053 has no category"),
    }
}

#[test]
fn field_match_captures_creditor_debtor() {
    let entry = test_entry();
    let without_ultimate = TransactionDetails {
        debtor_name: Some("expected debtor".to_string()),
        creditor_name: Some("expected creditor".to_string()),
        ultimate_debtor_name: None,
        ultimate_creditor_name: None,
        ..test_transaction()
    };
    let with_ultimate = TransactionDetails {
        debtor_name: Some("expected debtor".to_string()),
        creditor_name: Some("expected creditor".to_string()),
        ultimate_debtor_name: Some("expected ultimate debtor".to_string()),
        ultimate_creditor_name: Some("expected ultimate creditor".to_string()),
        ..test_transaction()
    };
    let empty = Fragment::empty();
    assert_eq!(
        None,
        on_transaction(&matcher(RewriteField::CreditorName, "no match"), &empty, &entry, &with_ultimate)
    );
    assert_eq!(
        Some(Matched::default()),
        on_transaction(&matcher(RewriteField::CreditorName, "expected creditor"), &empty, &entry, &with_ultimate)
    );
    assert_eq!(
        Some(Matched { payee: Some("expected".to_string()), code: Some("creditor".to_string()) }),
        on_transaction(
            &matcher(RewriteField::CreditorName, "(?P<payee>expected) (?P<code>creditor)"),
            &empty,
            &entry,
            &with_ultimate
        )
    );
    assert_eq!(None, on_transaction(&matcher(RewriteField::DebtorName, "no match"), &empty, &entry, &with_ultimate));
    assert_eq!(
        Some(Matched::default()),
        on_transaction(&matcher(RewriteField::DebtorName, "expected debtor"), &empty, &entry, &with_ultimate)
    );
    assert_eq!(
        None,
        on_transaction(&matcher(RewriteField::UltimateDebtorName, "something"), &empty, &entry, &without_ultimate)
    );
    assert_eq!(
        None,
        on_transaction(&matcher(RewriteField::UltimateDebtorName, "something"), &empty, &entry, &with_ultimate)
    );
    assert_eq!(
        Some(Matched::default()),
        on_transaction(
            &matcher(RewriteField::UltimateDebtorName, "expected ultimate debtor"),
            &empty,
            &entry,
            &with_ultimate
        )
    );
}

#[test]
fn field_match_remittance_info_no_txn() {
    let entry = test_entry();
    let txn = TransactionDetails { remittance_unstructured_info: None, ..test_transaction() };
    let m = matcher(RewriteField::RemittanceUnstructuredInfo, "remittance info");

    assert_eq!(None, on_entry(&m, &Fragment::empty(), &entry));
    assert_eq!(None, on_transaction(&m, &Fragment::empty(), &entry, &txn));
}

#[test]
fn field_match_remittance_info_no_match() {
    let entry = test_entry();
    let txn = TransactionDetails {
        remittance_unstructured_info: Some("expected remittance info".to_owned()),
        ..test_transaction()
    };
    let m = matcher(RewriteField::RemittanceUnstructuredInfo, "no match");

    assert_eq!(None, on_transaction(&m, &Fragment::empty(), &entry, &txn));
}

#[test]
fn field_match_remittance_info_match() {
    let entry = test_entry();
    let txn = TransactionDetails {
        remittance_unstructured_info: Some("expected remittance info".to_owned()),
        ..test_transaction()
    };
    let m = matcher(RewriteField::RemittanceUnstructuredInfo, "expected remittance info");

    assert_eq!(Some(Matched::default()), on_transaction(&m, &Fragment::empty(), &entry, &txn));
}

#[test]
fn field_match_additional_transaction_info_match() {
    let entry = test_entry();
    let txn =
        TransactionDetails { additional_info: Some("expected additional transaction info".to_owned()), ..test_transaction() };
    let m = matcher(RewriteField::AdditionalTransactionInfo, "expected additional transaction info");

    assert_eq!(Some(Matched::default()), on_transaction(&m, &Fragment::empty(), &entry, &txn));
}

#[test]
fn field_match_payee_match() {
    let fragment = Fragment { payee: Some("expected payee".to_string()), ..Fragment::empty() };
    let m = matcher(RewriteField::Payee, "expected payee");

    assert_eq!(Some(Matched::default()), on_entry(&m, &fragment, &test_entry()));
}

fn field_rule(fields: Vec<(RewriteField, &str)>, pending: bool, payee: Option<&str>, account: Option<&str>) -> RewriteRule {
    RewriteRule {
        matcher: RewriteMatcher::Field(FieldMatcher {
            fields: fields.into_iter().map(|(f, v)| (f, v.to_string())).collect(),
        }),
        pending,
        payee: payee.map(|p| p.to_string()),
        account: account.map(|a| a.to_string()),
        conversion: None,
    }
}

fn fragment(cleared: bool, payee: Option<&str>, account: Option<&str>) -> Fragment {
    Fragment {
        cleared,
        payee: payee.map(|p| p.to_string()),
        account: account.map(|a| a.to_string()),
        conversion: None,
        code: None,
    }
}

fn extractor(rules: &Vec<RewriteRule>) -> Extractor<FieldMatch> {
    match Extractor::try_from_rules(rules) {
        Ok(x) => x,
        Err(e) => panic!("rules must be valid: {:?}", e),
    }
}

#[test]
fn test_from_config_single_match() {
    let rw = vec![field_rule(
        vec![
            (RewriteField::DomainCode, "PMNT"),
            (RewriteField::DomainFamily, "RCDT"),
            (RewriteField::DomainSubFamily, "SALA"),
        ],
        false,
        Some("Payee"),
        Some("Income"),
    )];
    let input = entry_with("PMNT", "RCDT", "SALA", Vec::new());

    let got = extractor(&rw).extract(&MatchTarget::of_entry(&input));

    assert_eq!(fragment(true, Some("Payee"), Some("Income")), got);
}

fn info_transaction(additional_info: &str) -> TransactionDetails {
    TransactionDetails { additional_info: Some(additional_info.to_string()), ..test_transaction() }
}

#[test]
fn extract_test_from_config_multi_match() {
    let rw = vec![
        field_rule(vec![(RewriteField::AdditionalTransactionInfo, "Some card (?P<payee>.*)")], false, None, None),
        RewriteRule {
            matcher: RewriteMatcher::Or(vec![
                FieldMatcher { fields: vec![(RewriteField::Payee, "Grocery shop".to_string())] },
                FieldMatcher { fields: vec![(RewriteField::Payee, "Another shop".to_string())] },
            ]),
            pending: false,
            payee: None,
            account: Some("Expenses:Grocery".to_string()),
            conversion: None,
        },
        field_rule(vec![(RewriteField::Payee, "Certain Petrol")], true, None, Some("Expenses:Petrol")),
    ];
    let input = entry_with(
        "PMNT",
        "RDDT",
        "OTHR",
        vec![
            info_transaction("Some card Grocery shop"),
            info_transaction("Some card Another shop"),
            info_transaction("Some card Certain Petrol"),
            info_transaction("Some card unknown payee"),
            info_transaction("unrelated"),
        ],
    );
    let want = vec![
        fragment(true, Some("Grocery shop"), Some("Expenses:Grocery")),
        fragment(true, Some("Another shop"), Some("Expenses:Grocery")),
        fragment(false, Some("Certain Petrol"), Some("Expenses:Petrol")),
        fragment(false, Some("unknown payee"), None),
        fragment(false, None, None),
    ];

    let ex = extractor(&rw);
    let got: Vec<Fragment> =
        input.transactions.iter().map(|t| ex.extract(&MatchTarget::of_transaction(&input, t))).collect();
    assert_eq!(want, got);
}

#[test]
fn test_from_config_invalid_regex() {
    let rw = vec![field_rule(vec![(RewriteField::AdditionalTransactionInfo, "*")], false, None, None)];
    match Extractor::<FieldMatch>::try_from_rules(&rw) {
        Err(ImportError::InvalidRegex) => {}
        Err(e) => panic!("unexpected type of error: {:?}", e),
        Ok(_) => panic!("an invalid pattern must be refused"),
    }
}

fn camt_config(operator: Option<&str>, rewrite: Vec<RewriteRule>) -> ConfigEntry {
    ConfigEntry {
        path: "bank/".to_owned(),
        encoding: Encoding(encoding_rs::UTF_8),
        account: "Assets:Bank".to_owned(),
        account_type: AccountType::Asset,
        operator: operator.map(|o| o.to_string()),
        commodity: "CHF".to_owned(),
        format: FormatSpec::empty(),
        rewrite,
    }
}

fn balance(code: BalanceCode, num: i64) -> BalanceEntry {
    BalanceEntry { code, amount: chf(num, 0), credit_or_debit: CreditOrDebit::Credit }
}

fn statement(entries: Vec<Entry>) -> Statement {
    Statement {
        balances: vec![balance(BalanceCode::Opening, 1000), balance(BalanceCode::Other, 7), balance(BalanceCode::Closing, 880)],
        entries,
    }
}

fn debit_entry_without_details() -> Entry {
    Entry {
        amount: chf(120, 0),
        credit_or_debit: CreditOrDebit::Debit,
        booking_date: ymd(2021, 10, 2),
        value_date: ymd(2021, 10, 1),
        domain_code: "PMNT".to_string(),
        domain_family_code: "ICDT".to_string(),
        domain_sub_family_code: "AUTT".to_string(),
        charges: Vec::new(),
        additional_info: "standing order".to_string(),
        transactions: Vec::new(),
    }
}

#[test]
fn camt053_import_statement_with_balances() {
    let rules = vec![field_rule(vec![(RewriteField::DomainSubFamily, "AUTT")], false, Some("Landlord"), Some("Expenses:Rent"))];
    let exchanged = TransactionDetails {
        amount: chf(123, 1),
        amount_details: Some(AmountWithExchange {
            amount: Amount { value: dec(1350, 2), currency: "EUR".to_string() },
            currency_exchange: Some(CurrencyExchange { source_currency: "EUR".to_string(), exchange_rate: dec(911, 3) }),
        }),
        ..test_transaction()
    };
    let doc = Document {
        statements: vec![statement(vec![
            debit_entry_without_details(),
            entry_with("PMNT", "RCDT", "SALA", vec![test_transaction(), exchanged]),
        ])],
    };

    let txns = IsoCamt053Importer {}.import(&doc, &camt_config(None, rules)).unwrap();

    assert_eq!(txns.len(), 4);
    assert_eq!(txns[0].payee, "Initial Balance");
    assert_eq!(txns[0].dest_account.as_deref(), Some("Equity:Adjustments"));
    assert!(txns[0].amount.value.is_zero());
    assert_eq!(txns[0].amount.commodity, "CHF");
    assert_eq!(txns[0].balance.as_ref().unwrap().value, dec(1000, 0));
    assert_eq!(txns[0].date, ymd(2021, 10, 1));

    assert_eq!(txns[1].payee, "Landlord");
    assert_eq!(txns[1].dest_account.as_deref(), Some("Expenses:Rent"));
    assert_eq!(txns[1].clear_state, ClearState::Cleared);
    assert_eq!(txns[1].amount.value, dec(-120, 0));
    assert_eq!(txns[1].date, ymd(2021, 10, 1));
    assert_eq!(txns[1].effective_date, Some(ymd(2021, 10, 2)));
    assert_eq!(txns[1].code, None);

    assert_eq!(txns[2].payee, "unknown payee");
    assert_eq!(txns[2].dest_account, None);
    assert_eq!(txns[2].clear_state, ClearState::Pending);
    assert_eq!(txns[2].code.as_deref(), Some("foobar"));
    assert_eq!(txns[2].amount.value, dec(123, 1));
    assert_eq!(txns[2].effective_date, None);
    assert!(txns[2].transferred_amount.is_none());
    assert!(txns[2].balance.is_none());

    let transferred = txns[3].transferred_amount.as_ref().unwrap();
    assert_eq!(transferred.amount.value, dec(1350, 2));
    assert_eq!(transferred.amount.commodity, "EUR");
    match transferred.exchange.as_ref().unwrap() {
        Exchange::Rate(r) => {
            assert_eq!(r.value, dec(911, 3));
            assert_eq!(r.commodity, "EUR");
        }
        Exchange::Total(_) => panic!("the exchange must be a rate"),
    }
    assert_eq!(txns[3].balance.as_ref().unwrap().value, dec(880, 0));
}

#[test]
fn camt053_import_same_transaction_amount_is_not_transferred() {
    let same_value = TransactionDetails {
        amount: chf(123, 1),
        amount_details: Some(AmountWithExchange { amount: chf(1230, 2), currency_exchange: None }),
        ..test_transaction()
    };
    let doc = Document { statements: vec![Statement { balances: Vec::new(), entries: vec![entry_with("PMNT", "RCDT", "SALA", vec![same_value])] }] };

    let txns = IsoCamt053Importer {}.import(&doc, &camt_config(None, Vec::new())).unwrap();

    assert_eq!(txns.len(), 1);
    assert!(txns[0].transferred_amount.is_none());
}

#[test]
fn camt053_import_closing_balance_goes_to_the_last_transaction_so_far() {
    let doc = Document {
        statements: vec![
            Statement { balances: Vec::new(), entries: vec![debit_entry_without_details()] },
            Statement { balances: vec![balance(BalanceCode::Closing, 42)], entries: Vec::new() },
        ],
    };

    let txns = IsoCamt053Importer {}.import(&doc, &camt_config(None, Vec::new())).unwrap();

    assert_eq!(txns.len(), 1);
    assert_eq!(txns[0].balance.as_ref().unwrap().value, dec(42, 0));
}

#[test]
fn camt053_import_charge_needs_operator() {
    let charged = TransactionDetails {
        charges: vec![ChargeRecord { amount: chf(5, 1), credit_or_debit: CreditOrDebit::Debit, is_charge_included: true }],
        ..test_transaction()
    };
    let free = TransactionDetails {
        charges: vec![ChargeRecord { amount: chf(0, 2), credit_or_debit: CreditOrDebit::Debit, is_charge_included: false }],
        ..test_transaction()
    };
    let with_charge = Document { statements: vec![statement(vec![entry_with("PMNT", "RCDT", "SALA", vec![charged])])] };
    let zero_charge = Document { statements: vec![statement(vec![entry_with("PMNT", "RCDT", "SALA", vec![free])])] };

    let refused = IsoCamt053Importer {}.import(&with_charge, &camt_config(None, Vec::new()));
    match refused {
        Err(e) => assert_eq!(e, ImportError::InvalidConfig("config should have operator to have charge")),
        Ok(_) => panic!("a charge needs an operator"),
    }
    assert!(IsoCamt053Importer {}.import(&with_charge, &camt_config(Some("Bank"), Vec::new())).is_ok());
    assert!(IsoCamt053Importer {}.import(&zero_charge, &camt_config(None, Vec::new())).is_ok());
}

#[test]
fn camt053_import_document_to_double_entries() {
    let doc = Document { statements: vec![Statement { balances: Vec::new(), entries: vec![debit_entry_without_details()] }] };

    let txns = import_document(&doc, &camt_config(None, Vec::new())).unwrap();

    assert_eq!(txns.len(), 1);
    assert_eq!(txns[0].posts.len(), 2);
    assert_eq!(txns[0].posts[0].account, "Assets:Bank");
    assert_eq!(txns[0].posts[1].account, "Expenses:Unknown");
    assert_eq!(txns[0].posts[1].clear_state, ClearState::Pending);
}
