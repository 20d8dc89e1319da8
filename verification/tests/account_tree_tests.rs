use okane::account_tree::{split_segments, AccountNode, AccountTree};
use okane::balance::Balance;
use okane::context::ReportContext;
use okane::decimal::Decimal;
use okane::eval::amount::Amount;

fn dec(num: i64, scale: u32) -> Decimal {
    Decimal::new(num, scale)
}

fn balance_of(ctx: &mut ReportContext, entries: Vec<(&str, Amount)>) -> Balance {
    let mut balance = Balance::new();
    for (name, amount) in entries {
        let account = ctx.accounts.ensure(name);
        balance.add_amount(account, amount).unwrap();
    }
    balance
}

fn segments(nodes: &[AccountNode]) -> Vec<&str> {
    nodes.iter().map(|x| x.segment()).collect()
}

#[test]
fn from_balance_empty() {
    let ctx = ReportContext::new();
    let tree = AccountTree::from_balance(&ctx, &Balance::new()).unwrap();

    assert_eq!(tree.roots().len(), 0);
    assert_eq!(tree.total(), &Amount::zero());
}

#[test]
fn from_balance_rolls_up_to_ancestors() {
    let mut ctx = ReportContext::new();
    let usd = ctx.commodities.ensure("USD");
    let balance = balance_of(
        &mut ctx,
        vec![
            ("Assets:Bank:Checking", Amount::from_value(usd, dec(1000, 0))),
            ("Assets:Bank:Savings", Amount::from_value(usd, dec(5000, 0))),
            ("Assets:Cash", Amount::from_value(usd, dec(200, 0))),
            ("Expenses:Food", Amount::from_value(usd, dec(150, 0))),
        ],
    );

    let tree = AccountTree::from_balance(&ctx, &balance).unwrap();

    assert_eq!(tree.total(), &Amount::from_value(usd, dec(6350, 0)));

    let roots = tree.roots();
    assert_eq!(segments(roots), vec!["Assets", "Expenses"]);

    let assets = &roots[0];
    assert_eq!(assets.own_amount(), None);
    assert_eq!(assets.total(), &Amount::from_value(usd, dec(6200, 0)));

    let assets_children = assets.children();
    assert_eq!(segments(assets_children), vec!["Bank", "Cash"]);
    assert_eq!(assets_children[0].total(), &Amount::from_value(usd, dec(6000, 0)));
    assert_eq!(assets_children[1].own_amount(), Some(&Amount::from_value(usd, dec(200, 0))));
    assert_eq!(assets_children[1].children().len(), 0);
}

#[test]
fn from_balance_keeps_own_amount_on_intermediate_account() {
    let mut ctx = ReportContext::new();
    let jpy = ctx.commodities.ensure("JPY");
    let balance = balance_of(
        &mut ctx,
        vec![("Expenses", Amount::from_value(jpy, dec(30, 0))), ("Expenses:Food", Amount::from_value(jpy, dec(70, 0)))],
    );

    let tree = AccountTree::from_balance(&ctx, &balance).unwrap();

    let roots = tree.roots();
    assert_eq!(roots.len(), 1);
    let expenses = &roots[0];
    assert_eq!(expenses.own_amount(), Some(&Amount::from_value(jpy, dec(30, 0))));
    assert_eq!(expenses.total(), &Amount::from_value(jpy, dec(100, 0)));
    assert_eq!(tree.total(), &Amount::from_value(jpy, dec(100, 0)));
}

#[test]
fn from_balance_sums_multiple_commodities() {
    let mut ctx = ReportContext::new();
    let jpy = ctx.commodities.ensure("JPY");
    let chf = ctx.commodities.ensure("CHF");
    let balance = balance_of(
        &mut ctx,
        vec![("Assets:Bank", Amount::from_value(jpy, dec(1000, 0))), ("Assets:Broker", Amount::from_value(chf, dec(25, 0)))],
    );

    let tree = AccountTree::from_balance(&ctx, &balance).unwrap();

    assert_eq!(tree.total(), &Amount::from_values(vec![(jpy, dec(1000, 0)), (chf, dec(25, 0))]));
}

#[test]
fn from_balance_drops_a_cancelled_subtree_to_zero() {
    let mut ctx = ReportContext::new();
    let jpy = ctx.commodities.ensure("JPY");
    let balance = balance_of(
        &mut ctx,
        vec![("Assets:A", Amount::from_value(jpy, dec(10, 0))), ("Assets:B", Amount::from_value(jpy, dec(-10, 0)))],
    );

    let tree = AccountTree::from_balance(&ctx, &balance).unwrap();

    assert_eq!(tree.roots()[0].total(), &Amount::zero());
    assert_eq!(tree.total(), &Amount::zero());
}

#[test]
fn split_segments_keeps_empty_segments() {
    assert_eq!(split_segments("Assets:Bank"), vec!["Assets".to_string(), "Bank".to_string()]);
    assert_eq!(split_segments("a::b:"), vec!["a".to_string(), "".to_string(), "b".to_string(), "".to_string()]);
    assert_eq!(split_segments(""), vec!["".to_string()]);
}
