use okane::context::ReportContext;
use okane::decimal::Decimal;
use okane::eval::amount::Amount;
use okane::eval::error::EvalError;
use okane::eval::evaluated::Evaluated;
use okane::eval::single_amount::{PostingAmount, SingleAmount};
use okane::pretty::PrettyDecimal;

fn dec(num: i64, scale: u32) -> Decimal {
    Decimal::new(num, scale)
}

fn pairs(v: Vec<(okane::commodity::CommodityTag, Decimal)>) -> Amount {
    Amount::from_pairs(v).unwrap()
}

fn eps() -> Decimal {
    Decimal::from_parts(false, 1, 28).unwrap()
}

fn max() -> Decimal {
    Decimal::from_parts(false, (1u128 << 96) - 1, 0).unwrap()
}

#[test]
fn test_default() {
    let ctx = ReportContext::new();
    let amount = Amount::zero();
    assert_eq!(amount.to_inline_string(&ctx), "0")
}

#[test]
fn test_from_value() {
    let mut ctx = ReportContext::new();
    let jpy = ctx.commodities.ensure("JPY");
    let amount = Amount::from_value(jpy, dec(12345, 2));
    assert_eq!(amount.to_inline_string(&ctx), "123.45 JPY")
}

#[test]
fn test_from_values() {
    let mut ctx = ReportContext::new();
    let jpy = ctx.commodities.ensure("JPY");
    let chf = ctx.commodities.ensure("CHF");

    let amount = pairs(vec![(jpy, dec(10, 0)), (chf, dec(1, 0))]);
    assert_eq!(amount.into_values(), vec![(jpy, dec(10, 0)), (chf, dec(1, 0))]);

    let amount = pairs(vec![(jpy, dec(10, 0)), (jpy, dec(1, 0))]);
    assert_eq!(amount.into_values(), vec![(jpy, dec(11, 0))]);

    let amount = pairs(vec![(jpy, dec(10, 0)), (jpy, dec(-10, 0))]);
    assert_eq!(amount.into_values(), vec![(jpy, dec(0, 0))]);
}

#[test]
fn test_is_absolute_zero() {
    let mut ctx = ReportContext::new();
    let jpy = ctx.commodities.ensure("JPY");
    let usd = ctx.commodities.ensure("USD");

    assert!(Amount::zero().is_absolute_zero());
    assert!(!Amount::from_value(jpy, dec(0, 0)).is_absolute_zero());

    let mut amount = pairs(vec![(jpy, dec(0, 0)), (usd, dec(0, 0))]);
    assert!(!amount.is_absolute_zero(), "{}", amount.to_inline_string(&ctx));

    amount.remove_zero_entries();
    assert!(amount.is_absolute_zero(), "{}", amount.to_inline_string(&ctx));
}

#[test]
fn amount_test_is_zero() {
    let mut ctx = ReportContext::new();
    let jpy = ctx.commodities.ensure("JPY");
    let usd = ctx.commodities.ensure("USD");

    assert!(Amount::zero().is_zero());
    assert!(Amount::from_value(jpy, dec(0, 0)).is_zero());
    assert!(pairs(vec![(jpy, dec(0, 0)), (usd, dec(0, 0))]).is_zero());

    assert!(!Amount::from_value(jpy, dec(1, 0)).is_zero());
    assert!(!pairs(vec![(jpy, dec(0, 0)), (usd, dec(1, 0))]).is_zero());
}

#[test]
fn test_neg() {
    let mut ctx = ReportContext::new();
    let jpy = ctx.commodities.ensure("JPY");
    let usd = ctx.commodities.ensure("USD");

    assert_eq!(Amount::zero().negate(), Amount::zero());
    assert_eq!(Amount::from_value(jpy, dec(100, 0)).negate(), Amount::from_value(jpy, dec(-100, 0)));
    assert_eq!(
        pairs(vec![(jpy, dec(100, 0)), (usd, dec(-2035, 2))]).negate(),
        pairs(vec![(jpy, dec(-100, 0)), (usd, dec(2035, 2))]),
    );
}

fn add(a: Amount, b: Amount) -> Amount {
    a.check_add(b).unwrap()
}

fn sub(a: Amount, b: Amount) -> Amount {
    a.check_sub(b).unwrap()
}

#[test]
fn test_add_amount() {
    let mut ctx = ReportContext::new();
    let jpy = ctx.commodities.ensure("JPY");
    let usd = ctx.commodities.ensure("USD");
    let eur = ctx.commodities.ensure("EUR");
    let chf = ctx.commodities.ensure("CHF");

    assert_eq!(add(Amount::zero(), Amount::zero()), Amount::zero());
    assert_eq!(add(Amount::from_value(jpy, dec(1, 0)), Amount::zero()), Amount::from_value(jpy, dec(1, 0)));
    assert_eq!(add(Amount::zero(), Amount::from_value(jpy, dec(1, 0))), Amount::from_value(jpy, dec(1, 0)));
    let mut sum = Amount::from_value(jpy, dec(12345, 2));
    for a in [
        Amount::from_value(jpy, dec(-45, 2)),
        Amount::from_value(usd, dec(456, 0)),
        Amount::from_value(usd, dec(0, 1)),
        Amount::from_value(chf, dec(100, 0)).negate(),
        Amount::from_value(eur, dec(789, 2)),
        Amount::from_value(chf, dec(100, 0)),
    ] {
        sum = add(sum, a);
    }
    assert_eq!(
        pairs(vec![(jpy, dec(12300, 2)), (usd, dec(4560, 1)), (eur, dec(789, 2)), (chf, dec(0, 0))]),
        sum,
    );
    assert_eq!(
        pairs(vec![(jpy, dec(0, 0)), (usd, dec(0, 0)), (chf, dec(0, 0))]),
        add(
            pairs(vec![(jpy, dec(1, 0)), (usd, dec(2, 0)), (chf, dec(3, 0))]),
            pairs(vec![(jpy, dec(-1, 0)), (usd, dec(-2, 0)), (chf, dec(-3, 0))])
        )
    );
}

#[test]
fn test_add_single_amount() {
    let mut ctx = ReportContext::new();
    let jpy = ctx.commodities.ensure("JPY");
    let usd = ctx.commodities.ensure("USD");

    let mut amount = Amount::zero();
    amount.add_single(SingleAmount::from_value(usd, dec(0, 0))).unwrap();
    assert_eq!(amount, Amount::from_value(usd, dec(0, 0)));

    let mut amount = Amount::zero();
    amount.add_single(SingleAmount::from_value(jpy, dec(1, 0))).unwrap();
    assert_eq!(amount, Amount::from_value(jpy, dec(1, 0)));
}

#[test]
fn test_sub() {
    let mut ctx = ReportContext::new();
    let jpy = ctx.commodities.ensure("JPY");
    let usd = ctx.commodities.ensure("USD");
    let eur = ctx.commodities.ensure("EUR");
    let chf = ctx.commodities.ensure("CHF");

    assert_eq!(sub(Amount::zero(), Amount::zero()), Amount::zero());
    assert_eq!(sub(Amount::from_value(jpy, dec(1, 0)), Amount::zero()), Amount::from_value(jpy, dec(1, 0)));
    assert_eq!(sub(Amount::zero(), Amount::from_value(jpy, dec(1, 0))), Amount::from_value(jpy, dec(-1, 0)));
    assert_eq!(
        pairs(vec![(jpy, dec(12345, 0)), (eur, dec(-200, 0)), (chf, dec(133, 1)), (usd, dec(0, 0))]),
        sub(
            pairs(vec![(jpy, dec(12345, 0)), (usd, dec(5678, 2))]),
            pairs(vec![(usd, dec(56780, 3)), (eur, dec(200, 0)), (chf, dec(-133, 1))])
        ),
    );
}

#[test]
fn test_mul() {
    let mut ctx = ReportContext::new();
    let jpy = ctx.commodities.ensure("JPY");
    let eur = ctx.commodities.ensure("EUR");
    let chf = ctx.commodities.ensure("CHF");

    assert_eq!(Amount::zero().check_mul(dec(5, 0)).unwrap(), Amount::zero());
    assert_eq!(Amount::from_value(jpy, dec(1, 0)).check_mul(Decimal::zero()).unwrap(), Amount::from_value(jpy, dec(0, 0)));
    assert_eq!(Amount::from_value(jpy, dec(123, 0)).check_mul(dec(3, 0)).unwrap(), Amount::from_value(jpy, dec(369, 0)));
    assert_eq!(
        pairs(vec![(jpy, dec(10081, 0)), (eur, dec(200, 0)), (chf, dec(-133, 1))])
            .check_mul(dec(-5, 1))
            .unwrap(),
        pairs(vec![(jpy, dec(-50405, 1)), (eur, dec(-1000, 1)), (chf, dec(665, 2))]),
    );
    assert_eq!(Amount::from_value(jpy, eps()).check_mul(eps()).unwrap(), Amount::from_value(jpy, dec(0, 0)));
}

#[test]
fn amount_test_check_div() {
    let mut ctx = ReportContext::new();
    let jpy = ctx.commodities.ensure("JPY");
    let eur = ctx.commodities.ensure("EUR");
    let chf = ctx.commodities.ensure("CHF");

    assert_eq!(Amount::zero().check_div(dec(5, 0)).unwrap(), Amount::zero());
    assert_eq!(Amount::zero().check_div(dec(0, 0)).unwrap_err(), EvalError::DivideByZero);
    assert_eq!(Amount::from_value(jpy, dec(50, 0)).check_div(dec(4, 0)).unwrap(), Amount::from_value(jpy, dec(125, 1)));
    assert_eq!(Amount::from_value(jpy, max()).check_div(eps()).unwrap_err(), EvalError::NumberOverflow);
    assert_eq!(Amount::from_value(jpy, eps()).check_div(max()).unwrap(), Amount::from_value(jpy, dec(0, 0)));
    assert_eq!(
        pairs(vec![(jpy, dec(810, 0)), (eur, dec(-1000, 1)), (chf, dec(666, 2))]).check_div(dec(3, 0)).unwrap(),
        pairs(vec![
            (jpy, dec(270, 0)),
            (eur, Decimal::from_parts(true, 33333333333333333333333333333, 27).unwrap()),
            (chf, dec(222, 2))
        ]),
    );
}

#[test]
fn test_round() {
    let mut ctx = ReportContext::new();
    let jpy = ctx.commodities.ensure("JPY");
    let eur = ctx.commodities.ensure("EUR");
    let chf = ctx.commodities.ensure("CHF");

    ctx.commodities.set_format(jpy, PrettyDecimal::comma3dot(dec(12345, 0)));
    ctx.commodities.set_format(eur, PrettyDecimal::plain(dec(12345, 2)));
    ctx.commodities.set_format(chf, PrettyDecimal::comma3dot(dec(123450, 3)));

    assert_eq!(Amount::zero(), Amount::zero().round(&ctx));
    assert_eq!(
        pairs(vec![(jpy, dec(812, 0)), (eur, dec(-10000, 2)), (chf, dec(6660, 3))]),
        pairs(vec![(jpy, dec(812, 0)), (eur, dec(-1000, 1)), (chf, dec(666, 2))]).round(&ctx),
    );
    assert_eq!(
        pairs(vec![(jpy, dec(812, 0)), (eur, dec(-10002, 2)), (chf, dec(6666, 3))]),
        pairs(vec![(jpy, dec(8125, 1)), (eur, dec(-100015, 3)), (chf, dec(66665, 4))]).round(&ctx),
    );
}

#[test]
fn test_to_string() {
    let mut ctx = ReportContext::new();
    let jpy = ctx.commodities.ensure("JPY");
    let chf = ctx.commodities.ensure("CHF");

    assert_eq!("0", Amount::zero().to_inline_string(&ctx));
    assert_eq!("10 JPY", Amount::from_value(jpy, dec(10, 0)).to_inline_string(&ctx));
    assert_eq!("(10 JPY + 1 CHF)", pairs(vec![(jpy, dec(10, 0)), (chf, dec(1, 0))]).to_inline_string(&ctx));
    assert_eq!("(-10 JPY - 1 CHF)", pairs(vec![(jpy, dec(-10, 0)), (chf, dec(-1, 0))]).to_inline_string(&ctx));
}

#[test]
fn test_into_amount() {
    let mut ctx = ReportContext::new();
    let usd = ctx.commodities.ensure("USD");
    assert_eq!(Evaluated::Number(dec(5, 0)).into_amount().unwrap_err(), EvalError::AmountRequired);
    assert_eq!(Evaluated::Number(dec(0, 0)).into_amount().unwrap(), Amount::zero());
    assert_eq!(
        Evaluated::Commodities(Amount::from_value(usd, dec(1000, 0))).into_amount().unwrap(),
        Amount::from_value(usd, dec(1000, 0))
    );
}

#[test]
fn test_display() {
    let mut ctx = ReportContext::new();
    let usd = ctx.commodities.ensure("USD");
    assert_eq!("0", &Evaluated::Number(dec(0, 0)).to_string(&ctx));
    assert_eq!("1.5", &Evaluated::Number(dec(15, 1)).to_string(&ctx));
    assert_eq!("0 USD", Evaluated::Commodities(Amount::from_value(usd, dec(0, 0))).to_string(&ctx));
}

#[test]
fn evaluated_test_is_zero() {
    let mut ctx = ReportContext::new();
    let usd = ctx.commodities.ensure("USD");
    assert!(Evaluated::Number(dec(0, 0)).is_zero());
    assert!(!Evaluated::Number(dec(15, 1)).is_zero());
    assert!(Evaluated::Commodities(Amount::zero()).is_zero());
    assert!(Evaluated::Commodities(Amount::from_value(usd, dec(0, 0))).is_zero());
    assert!(!Evaluated::Commodities(Amount::from_value(usd, dec(1000, 0))).is_zero());
}

#[test]
fn test_negate() {
    let mut ctx = ReportContext::new();
    let usd = ctx.commodities.ensure("USD");
    assert_eq!(Evaluated::Number(dec(15, 1)).negate(), Evaluated::Number(dec(-15, 1)));
    assert_eq!(
        Evaluated::Commodities(Amount::from_value(usd, dec(1000, 0))).negate(),
        Evaluated::Commodities(Amount::from_value(usd, dec(-1000, 0)))
    );
}

#[test]
fn test_check_add() {
    let mut ctx = ReportContext::new();
    let jpy = ctx.commodities.ensure("JPY");
    let usd = ctx.commodities.ensure("USD");
    assert_eq!(Evaluated::Number(dec(1, 0)).check_add(Evaluated::Number(dec(20, 1))).unwrap(), Evaluated::Number(dec(30, 1)));
    assert_eq!(
        Evaluated::Commodities(Amount::from_value(jpy, dec(1000, 0)))
            .check_add(Evaluated::Commodities(Amount::from_value(usd, dec(100, 0))))
            .unwrap(),
        Evaluated::Commodities(pairs(vec![(jpy, dec(1000, 0)), (usd, dec(100, 0))]))
    );
    assert_eq!(
        Evaluated::Number(dec(1, 0)).check_add(Evaluated::Commodities(Amount::from_value(jpy, dec(1000, 0)))).unwrap_err(),
        EvalError::UnmatchingOperation
    );
    assert_eq!(
        Evaluated::Commodities(Amount::from_value(jpy, dec(1000, 0))).check_add(Evaluated::Number(dec(1, 0))).unwrap_err(),
        EvalError::UnmatchingOperation
    );
}

#[test]
fn test_check_sub() {
    let mut ctx = ReportContext::new();
    let jpy = ctx.commodities.ensure("JPY");
    let usd = ctx.commodities.ensure("USD");
    assert_eq!(Evaluated::Number(dec(1, 0)).check_sub(Evaluated::Number(dec(20, 1))).unwrap(), Evaluated::Number(dec(-10, 1)));
    assert_eq!(
        Evaluated::Commodities(Amount::from_value(jpy, dec(1000, 0)))
            .check_sub(Evaluated::Commodities(Amount::from_value(usd, dec(100, 0))))
            .unwrap(),
        Evaluated::Commodities(pairs(vec![(jpy, dec(1000, 0)), (usd, dec(-100, 0))]))
    );
    assert_eq!(
        Evaluated::Number(dec(1, 0)).check_sub(Evaluated::Commodities(Amount::from_value(jpy, dec(1000, 0)))).unwrap_err(),
        EvalError::UnmatchingOperation
    );
    assert_eq!(
        Evaluated::Commodities(Amount::from_value(jpy, dec(1000, 0))).check_sub(Evaluated::Number(dec(1, 0))).unwrap_err(),
        EvalError::UnmatchingOperation
    );
}

#[test]
fn test_check_mul() {
    let mut ctx = ReportContext::new();
    let jpy = ctx.commodities.ensure("JPY");
    let usd = ctx.commodities.ensure("USD");
    assert_eq!(Evaluated::Number(dec(15, 1)).check_mul(Evaluated::Number(dec(20, 1))).unwrap(), Evaluated::Number(dec(30, 1)));
    assert_eq!(
        Evaluated::Number(dec(-2, 1)).check_mul(Evaluated::Commodities(Amount::from_value(jpy, dec(1000, 0)))).unwrap(),
        Evaluated::Commodities(Amount::from_value(jpy, dec(-200, 0)))
    );
    assert_eq!(
        Evaluated::Commodities(Amount::from_value(usd, dec(315, 2))).check_mul(Evaluated::Number(dec(5, 1))).unwrap(),
        Evaluated::Commodities(Amount::from_value(usd, dec(1575, 3)))
    );
    assert_eq!(
        Evaluated::Commodities(Amount::from_value(jpy, dec(1000, 0)))
            .check_mul(Evaluated::Commodities(Amount::from_value(usd, dec(100, 0))))
            .unwrap_err(),
        EvalError::UnmatchingOperation
    );
}

#[test]
fn evaluated_test_check_div() {
    let mut ctx = ReportContext::new();
    let jpy = ctx.commodities.ensure("JPY");
    let usd = ctx.commodities.ensure("USD");
    assert_eq!(Evaluated::Number(dec(15, 1)).check_div(Evaluated::Number(dec(20, 1))).unwrap(), Evaluated::Number(dec(75, 2)));
    assert_eq!(Evaluated::Number(dec(15, 1)).check_div(Evaluated::Number(dec(0, 0))).unwrap_err(), EvalError::DivideByZero);
    assert_eq!(
        Evaluated::Commodities(Amount::from_value(usd, dec(315, 2))).check_div(Evaluated::Number(dec(5, 1))).unwrap(),
        Evaluated::Commodities(Amount::from_value(usd, dec(630, 2)))
    );
    assert_eq!(
        Evaluated::Number(dec(-2, 1)).check_div(Evaluated::Commodities(Amount::from_value(jpy, dec(100, 0)))).unwrap(),
        Evaluated::Commodities(Amount::from_value(jpy, dec(-2, 3)))
    );
    assert_eq!(
        Evaluated::Commodities(Amount::from_value(jpy, dec(1000, 0)))
            .check_div(Evaluated::Commodities(Amount::from_value(jpy, dec(100, 0))))
            .unwrap_err(),
        EvalError::UnmatchingOperation
    );
}

#[test]
fn neg_test() {
    let mut ctx = ReportContext::new();
    let jpy = ctx.commodities.insert("JPY").unwrap();
    assert_eq!(PostingAmount::Zero, PostingAmount::zero().neg());
    assert_eq!(PostingAmount::from_value(jpy, dec(5, 0)), PostingAmount::from_value(jpy, dec(-5, 0)).neg());
}

#[test]
fn check_add() {
    let mut ctx = ReportContext::new();
    let jpy = ctx.commodities.insert("JPY").unwrap();
    assert_eq!(
        PostingAmount::from_value(jpy, dec(5, 0)),
        PostingAmount::from_value(jpy, dec(5, 0)).check_add(PostingAmount::zero()).unwrap(),
    );
    assert_eq!(
        PostingAmount::from_value(jpy, dec(5, 0)),
        PostingAmount::zero().check_add(PostingAmount::from_value(jpy, dec(5, 0))).unwrap(),
    );
}

#[test]
fn display() {
    let mut ctx = ReportContext::new();
    let jpy = ctx.commodities.insert("JPY").unwrap();
    assert_eq!("0", PostingAmount::zero().to_string(&ctx));
    assert_eq!("1.23 JPY", PostingAmount::from_value(jpy, dec(123, 2)).to_string(&ctx));
}

#[test]
fn neg_returns_negative_value() {
    let mut ctx = ReportContext::new();
    let jpy = ctx.commodities.insert("JPY").unwrap();
    assert_eq!(SingleAmount::from_value(jpy, dec(-5, 0)), SingleAmount::from_value(jpy, dec(5, 0)).neg());
}

#[test]
fn check_add_fails_different_commodity() {
    let mut ctx = ReportContext::new();
    let jpy = ctx.commodities.insert("JPY").unwrap();
    let chf = ctx.commodities.insert("CHF").unwrap();
    assert_eq!(
        Err(EvalError::UnmatchingCommodities(jpy, chf)),
        SingleAmount::from_value(jpy, dec(10, 0)).check_add(SingleAmount::from_value(chf, dec(20, 0)))
    );
}

#[test]
fn check_add_succeeds() {
    let mut ctx = ReportContext::new();
    let jpy = ctx.commodities.insert("JPY").unwrap();
    assert_eq!(
        SingleAmount::from_value(jpy, dec(-10, 0)),
        SingleAmount::from_value(jpy, dec(10, 0)).check_add(SingleAmount::from_value(jpy, dec(-20, 0))).unwrap()
    );
}

#[test]
fn check_sub_fails_different_commodity() {
    let mut ctx = ReportContext::new();
    let jpy = ctx.commodities.insert("JPY").unwrap();
    let chf = ctx.commodities.insert("CHF").unwrap();
    assert_eq!(
        Err(EvalError::UnmatchingCommodities(jpy, chf)),
        SingleAmount::from_value(jpy, dec(10, 0)).check_sub(SingleAmount::from_value(chf, dec(0, 0)))
    );
}

#[test]
fn check_sub_succeeds() {
    let mut ctx = ReportContext::new();
    let jpy = ctx.commodities.insert("JPY").unwrap();
    assert_eq!(
        SingleAmount::from_value(jpy, dec(5, 0)),
        SingleAmount::from_value(jpy, dec(10, 0)).check_sub(SingleAmount::from_value(jpy, dec(5, 0))).unwrap()
    );
}

#[test]
fn single_amount_to_string() {
    let mut ctx = ReportContext::new();
    let usd = ctx.commodities.insert("USD").unwrap();
    assert_eq!("1.20 USD".to_string(), SingleAmount::from_value(usd, dec(120, 2)).to_string(&ctx));
}

#[test]
fn single_amount_round() {
    let mut ctx = ReportContext::new();
    let jpy = ctx.commodities.ensure("JPY");
    let eur = ctx.commodities.ensure("EUR");
    let chf = ctx.commodities.ensure("CHF");
    ctx.commodities.set_format(jpy, PrettyDecimal::comma3dot(dec(12345, 0)));
    ctx.commodities.set_format(eur, PrettyDecimal::plain(dec(12345, 2)));
    ctx.commodities.set_format(chf, PrettyDecimal::comma3dot(dec(123450, 3)));
    assert_eq!(SingleAmount::from_value(jpy, dec(812, 0)), SingleAmount::from_value(jpy, dec(812, 0)).round(&ctx));
    assert_eq!(SingleAmount::from_value(eur, dec(-10000, 2)), SingleAmount::from_value(eur, dec(-1000, 1)).round(&ctx));
    assert_eq!(SingleAmount::from_value(chf, dec(6660, 3)), SingleAmount::from_value(chf, dec(666, 2)).round(&ctx));
    assert_eq!(SingleAmount::from_value(jpy, dec(812, 0)), SingleAmount::from_value(jpy, dec(8125, 1)).round(&ctx));
    assert_eq!(SingleAmount::from_value(eur, dec(-10002, 2)), SingleAmount::from_value(eur, dec(-100015, 3)).round(&ctx));
    assert_eq!(SingleAmount::from_value(chf, dec(6666, 3)), SingleAmount::from_value(chf, dec(66665, 4)).round(&ctx));
}

#[test]
fn with_sign_negative() {
    let mut ctx = ReportContext::new();
    let jpy = ctx.commodities.insert("JPY").unwrap();
    let eur = ctx.commodities.insert("EUR").unwrap();
    let positive = SingleAmount::from_value(jpy, dec(1000, 0));
    assert_eq!(SingleAmount::from_value(eur, dec(15, 0)), SingleAmount::from_value(eur, dec(15, 0)).with_sign_of(positive));
    assert_eq!(SingleAmount::from_value(eur, dec(0, 0)), SingleAmount::from_value(eur, dec(0, 0)).with_sign_of(positive));
    assert_eq!(SingleAmount::from_value(eur, dec(15, 0)), SingleAmount::from_value(eur, dec(-15, 0)).with_sign_of(positive));
    let negative = SingleAmount::from_value(jpy, dec(-1000, 0));
    assert_eq!(SingleAmount::from_value(eur, dec(-15, 0)), SingleAmount::from_value(eur, dec(15, 0)).with_sign_of(negative));
    assert_eq!(SingleAmount::from_value(eur, dec(0, 0)), SingleAmount::from_value(eur, dec(0, 0)).with_sign_of(negative));
    assert_eq!(SingleAmount::from_value(eur, dec(-15, 0)), SingleAmount::from_value(eur, dec(-15, 0)).with_sign_of(negative));
}
