use okane::balance::{Balance, BalanceError};
use okane::commodity::{CommodityStore, CommodityTag, OwnedCommodity};
use okane::context::ReportContext;
use okane::decimal::Decimal;
use okane::eval::amount::Amount;
use okane::eval::error::OwnedEvalError;
use okane::eval::single_amount::PostingAmount;
use okane::intern::{InternError, InternStore, StoredValue};
use okane::pretty::PrettyDecimal;

fn dec(num: i64, scale: u32) -> Decimal {
    Decimal::new(num, scale)
}

#[test]
fn balance_gives_zero_amount_when_not_initalized() {
    let mut ctx = ReportContext::new();
    let balance = Balance::new();
    assert_eq!(balance.get(ctx.accounts.ensure("Expenses")), None);
}

#[test]
fn test_balance_increment_adds_value() {
    let mut ctx = ReportContext::new();
    let mut balance = Balance::new();
    let expenses = ctx.accounts.ensure("Expenses");
    let jpy = ctx.commodities.ensure("JPY");
    let updated = balance.add_posting_amount(expenses, PostingAmount::from_value(jpy, dec(1000, 0))).unwrap();
    assert_eq!(updated, Amount::from_value(jpy, dec(1000, 0)));
    assert_eq!(balance.get(expenses), Some(&updated));
    let updated = balance.add_posting_amount(expenses, PostingAmount::from_value(jpy, dec(-1000, 0))).unwrap();
    assert_eq!(updated, Amount::zero());
    assert_eq!(balance.get(expenses), Some(&updated));
}

#[test]
fn test_balance_set_partial_from_absolute_zero() {
    let mut ctx = ReportContext::new();
    let mut balance = Balance::new();
    let expenses = ctx.accounts.ensure("Expenses");
    let jpy = ctx.commodities.insert("JPY").unwrap();
    let prev = balance.set_partial(&ctx, expenses, PostingAmount::from_value(jpy, dec(1000, 0))).unwrap();
    assert_eq!(prev, PostingAmount::from_value(jpy, dec(0, 0)));
    assert_eq!(balance.get(expenses), Some(&Amount::from_value(jpy, dec(1000, 0))));
}

#[test]
fn test_balance_set_partial_hit_same_commodity() {
    let mut ctx = ReportContext::new();
    let mut balance = Balance::new();
    let jpy = ctx.commodities.ensure("JPY");
    let expenses = ctx.accounts.ensure("Expenses");
    balance.add_posting_amount(expenses, PostingAmount::from_value(jpy, dec(1000, 0))).unwrap();
    let prev = balance.set_partial(&ctx, expenses, PostingAmount::from_value(jpy, dec(-1000, 0))).unwrap();
    assert_eq!(prev, PostingAmount::from_value(jpy, dec(1000, 0)));
    assert_eq!(balance.get(expenses), Some(&Amount::from_value(jpy, dec(-1000, 0))));
}

#[test]
fn test_balance_set_partial_multi_commodities() {
    let mut ctx = ReportContext::new();
    let mut balance = Balance::new();
    let jpy = ctx.commodities.ensure("JPY");
    let chf = ctx.commodities.ensure("CHF");
    let expenses = ctx.accounts.ensure("Expenses");
    balance.add_posting_amount(expenses, PostingAmount::from_value(jpy, dec(1000, 0))).unwrap();
    balance.add_posting_amount(expenses, PostingAmount::from_value(chf, dec(200, 0))).unwrap();
    let prev = balance.set_partial(&ctx, expenses, PostingAmount::from_value(chf, dec(100, 0))).unwrap();
    assert_eq!(prev, PostingAmount::from_value(chf, dec(200, 0)));
    assert_eq!(balance.get(expenses), Some(&Amount::from_values(vec![(jpy, dec(1000, 0)), (chf, dec(100, 0))])));
}

#[test]
fn test_balance_set_partial_zero_on_zero() {
    let mut ctx = ReportContext::new();
    let mut balance = Balance::new();
    let expenses = ctx.accounts.ensure("Expenses");
    let prev = balance.set_partial(&ctx, expenses, PostingAmount::zero()).unwrap();
    assert_eq!(prev, PostingAmount::zero());
    assert_eq!(balance.get(expenses), Some(&Amount::zero()));
}

#[test]
fn test_balance_set_partial_zero_on_single_commodity() {
    let mut ctx = ReportContext::new();
    let mut balance = Balance::new();
    let jpy = ctx.commodities.ensure("JPY");
    let expenses = ctx.accounts.ensure("Expenses");
    balance.add_posting_amount(expenses, PostingAmount::from_value(jpy, dec(1000, 0))).unwrap();
    let prev = balance.set_partial(&ctx, expenses, PostingAmount::zero()).unwrap();
    assert_eq!(prev, PostingAmount::from_value(jpy, dec(1000, 0)));
    assert_eq!(balance.get(expenses), Some(&Amount::zero()));
}

#[test]
fn test_balance_set_partial_zero_fails_on_multi_commodities() {
    let mut ctx = ReportContext::new();
    let mut balance = Balance::new();
    let expenses = ctx.accounts.ensure("Expenses");
    let jpy = ctx.commodities.ensure("JPY");
    let chf = ctx.commodities.ensure("CHF");
    balance.add_posting_amount(expenses, PostingAmount::from_value(jpy, dec(1000, 0))).unwrap();
    balance.add_posting_amount(expenses, PostingAmount::from_value(chf, dec(200, 0))).unwrap();
    let err = balance.set_partial(&ctx, expenses, PostingAmount::zero()).unwrap_err();
    assert_eq!(
        err,
        BalanceError::MultiCommodityWithPartialSet(OwnedEvalError::PostingAmountRequired, "(1000 JPY + 200 CHF)".to_string())
    );
}

#[test]
fn to_owned_lossy() {
    let mut commodities = CommodityStore::new();
    let chf = commodities.insert("CHF").unwrap();
    assert_eq!(OwnedCommodity::from_string("CHF".to_string()), chf.to_owned_lossy(&commodities));
    let unknown = CommodityTag(1);
    assert_eq!(OwnedCommodity::from_string("unknown#1".to_string()), unknown.to_owned_lossy(&commodities));
}

#[test]
fn get_decimal_point_returns_none_if_unspecified() {
    let mut commodities = CommodityStore::new();
    let jpy = commodities.insert("JPY").unwrap();
    assert_eq!(None, commodities.get_decimal_point(jpy));
}

#[test]
fn get_decimal_point_returns_some_if_set() {
    let mut commodities = CommodityStore::new();
    let jpy = commodities.insert("JPY").unwrap();
    commodities.set_format(jpy, PrettyDecimal::comma3dot(dec(1234, 3)));
    assert_eq!(Some(3), commodities.get_decimal_point(jpy));
}

#[test]
fn context_sccount() {
    let mut ctx = ReportContext::new();
    let a1 = ctx.accounts.ensure("Account 1");
    let a3 = ctx.accounts.ensure("Account 3");
    assert_eq!(Some(a1), ctx.account("Account 1"));
    assert_eq!(None, ctx.account("Account 2"));
    assert_eq!(Some(a3), ctx.account("Account 3"));
}

#[test]
fn ensure_gives_distinct_strings() {
    let mut intern_store = InternStore::new();
    let foo = intern_store.ensure("foo");
    let bar = intern_store.ensure("bar");
    assert_ne!(foo, bar);
    assert_eq!(intern_store.name(foo).unwrap(), "foo");
    assert_eq!(intern_store.name(bar).unwrap(), "bar");
}

#[test]
fn ensure_gives_same_obj() {
    let mut intern_store = InternStore::new();
    let foo1 = intern_store.ensure("foo");
    let foo2 = intern_store.ensure("foo");
    assert_eq!(foo1, foo2);
    assert_eq!(intern_store.name(foo2).unwrap(), "foo");
}

#[test]
fn insert_canonical_succeeds_on_non_alias() {
    let mut intern_store = InternStore::new();
    let foo1 = intern_store.insert_canonical("foo").unwrap();
    let foo2 = intern_store.insert_canonical("foo").unwrap();
    let bar = intern_store.insert_canonical("bar").unwrap();
    assert_eq!(foo1, foo2);
    assert_eq!(intern_store.name(foo1).unwrap(), "foo");
    assert_ne!(foo1, bar);
    assert_eq!(intern_store.name(bar).unwrap(), "bar");
}

#[test]
fn insert_canonical_fails_when_already_alias() {
    let mut intern_store = InternStore::new();
    let foo = intern_store.insert_canonical("foo").unwrap();
    intern_store.insert_alias("bar", foo).unwrap();
    assert_eq!(InternError::AlreadyAlias, intern_store.insert_canonical("bar").unwrap_err());
}

#[test]
fn insert_alias_works_on_unregistered_value() {
    let mut intern_store = InternStore::new();
    let foo = intern_store.insert_canonical("foo").unwrap();
    intern_store.insert_alias("bar", foo).unwrap();
    let bar = intern_store.ensure("bar");
    assert_eq!(foo, bar);
}

#[test]
fn insert_alias_works_on_already_alias_value() {
    let mut intern_store = InternStore::new();
    let foo = intern_store.insert_canonical("foo").unwrap();
    intern_store.insert_alias("bar", foo).unwrap();
    intern_store.insert_alias("bar", foo).unwrap();
}

#[test]
fn insert_alias_fails_on_canonical() {
    let mut intern_store = InternStore::new();
    let foo = intern_store.insert_canonical("foo").unwrap();
    intern_store.insert_canonical("bar").unwrap();
    assert_eq!(InternError::AlreadyCanonical, intern_store.insert_alias("bar", foo).unwrap_err());
}

#[test]
fn intern_store_iter_all_elements() {
    let mut intern_store = InternStore::new();
    let v1 = intern_store.ensure("abc");
    let v2 = intern_store.ensure("def");
    intern_store.ensure("def");
    intern_store.insert_alias("efg", v1).expect("efg must be an alias of abc");
    let v3 = intern_store.ensure("ghi");
    let want = [
        StoredValue::Canonical(v1),
        StoredValue::Alias { alias: "efg".to_string(), canonical: v1 },
        StoredValue::Canonical(v2),
        StoredValue::Canonical(v3),
    ];
    let names = |i: usize| intern_store.name(i).unwrap().clone();
    let mut got: Vec<StoredValue<usize>> = intern_store.iter();
    got.sort_by_key(|x| match x {
        StoredValue::Canonical(x) => (names(*x), String::new()),
        StoredValue::Alias { alias, canonical } => (names(*canonical), alias.clone()),
    });
    assert_eq!(want.as_slice(), got.as_slice());
}

#[test]
fn intern_error_messages() {
    assert_eq!(InternError::AlreadyCanonical.message(), "given alias is already registered as canonical");
    assert_eq!(InternError::AlreadyAlias.message(), "given canonical is already registered as an alias");
}

#[test]
fn intern_values_gives_the_canonicals_then_the_aliases() {
    let mut store = InternStore::new();
    let a = store.ensure("a");
    store.insert_canonical("b").unwrap();
    store.insert_alias("x", a).unwrap();
    let mut it = store.values();
    assert_eq!(it.next(), Some(StoredValue::Canonical(0)));
    assert_eq!(it.next(), Some(StoredValue::Canonical(1)));
    assert_eq!(it.next(), Some(StoredValue::Alias { alias: "x".to_string(), canonical: 0 }));
    assert_eq!(it.next(), None);
    assert_eq!(it.next(), None);
}
