use polymarket_rn2_bot::client::websocket::parse_price_update;
use polymarket_rn2_bot::decimal::Amount;
use polymarket_rn2_bot::json::JsonValue;
use polymarket_rn2_bot::order::paper_executor::{OrderSide, PaperAccount, PaperExecutor, PaperPosition};
use rust_decimal::Decimal;
use std::str::FromStr;

fn amt(m: i128, s: u32) -> Amount {
    Amount::from_parts(m, s).unwrap()
}

fn dec(a: Amount) -> Decimal {
    let mut d = Decimal::from_i128_with_scale(a.mantissa, a.scale);
    d.set_sign_negative(a.negative);
    d
}

fn entry<'a>(ex: &'a PaperExecutor, key: &str) -> &'a polymarket_rn2_bot::order::paper_executor::PaperPosition {
    &ex.account().positions.iter().find(|(k, _)| k == key).unwrap().1
}

fn price_text(t: &str) -> Option<Amount> {
    let payload = JsonValue::Object(vec![
        ("market".to_string(), JsonValue::String("m".to_string())),
        ("token_id".to_string(), JsonValue::String("t".to_string())),
        ("price".to_string(), JsonValue::String(t.to_string())),
    ]);
    parse_price_update(&JsonValue::Object(vec![("price".to_string(), payload)])).map(|u| u.price)
}

#[test]
fn from_parts_rejects_out_of_range() {
    assert!(Amount::from_parts(1, 29).is_none());
    assert!(Amount::from_parts(0x1_0000_0000_0000_0000_0000_0000, 0).is_none());
    assert!(Amount::from_parts(-0xFFFF_FFFF_FFFF_FFFF_FFFF_FFFF, 28).is_some());
    assert!(amt(0, 3).is_zero());
    assert!(!amt(1, 3).is_zero());
}

#[test]
fn exact_cost_and_balance() {
    let mut ex = PaperExecutor::new(amt(10, 0), "s.json");
    ex.buy("m", "t", OrderSide::Buy, amt(2, 0), amt(15, 1)).unwrap();
    assert_eq!(entry(&ex, "m_t_YES").entry_value, amt(30, 1));
    assert_eq!(ex.get_balance(), amt(70, 1));
}

#[test]
fn zero_shares_cost_plain_zero() {
    let mut ex = PaperExecutor::new(amt(10, 0), "s.json");
    ex.buy("m", "t", OrderSide::Buy, amt(5, 1), amt(0, 4)).unwrap();
    assert_eq!(entry(&ex, "m_t_YES").entry_value, amt(0, 0));
    assert_eq!(ex.get_balance(), amt(10, 0));
}

#[test]
fn revenue_aligns_to_larger_scale() {
    let mut ex = PaperExecutor::new(amt(150, 2), "s.json");
    ex.buy("m", "t", OrderSide::Sell, amt(0, 0), amt(2, 0)).unwrap();
    ex.sell("m", "t", OrderSide::Sell, amt(1, 0), amt(2, 0)).unwrap();
    assert_eq!(ex.get_balance(), amt(350, 2));
}

#[test]
fn cancelling_shares_divide_by_zero() {
    let mut ex = PaperExecutor::new(amt(10, 0), "s.json");
    ex.buy("m", "t", OrderSide::Buy, amt(1, 0), amt(1, 0)).unwrap();
    assert_eq!(ex.try_buy("m", "t", OrderSide::Buy, amt(1, 0), amt(-1, 0)), None);
    assert_eq!(entry(&ex, "m_t_YES").shares, amt(1, 0));
    assert_eq!(ex.get_balance(), amt(9, 0));
}

#[test]
fn averaging_gives_a_quarter() {
    let mut ex = PaperExecutor::new(amt(10, 0), "s.json");
    ex.buy("m", "t", OrderSide::Buy, amt(1, 0), amt(1, 0)).unwrap();
    ex.buy("m", "t", OrderSide::Buy, amt(0, 0), amt(3, 0)).unwrap();
    let p = entry(&ex, "m_t_YES");
    assert_eq!(dec(p.avg_price), Decimal::from_str("0.25").unwrap());
    assert_eq!(dec(p.entry_value), Decimal::from_str("1").unwrap());
}

#[test]
fn balance_check_compares_values() {
    let mut ex = PaperExecutor::new(amt(1, 0), "s.json");
    assert_eq!(
        ex.buy("m", "t", OrderSide::Buy, amt(101, 2), amt(1, 0)),
        Err("Saldo tidak cukup: butuh $1.01, tersisa $1.00".to_string())
    );
    assert_eq!(ex.buy("m", "t", OrderSide::Buy, amt(100, 2), amt(1, 0)), Ok(()));
    assert!(dec(ex.get_balance()).is_zero());
}

#[test]
fn refusal_text_has_two_decimals() {
    let mut ex = PaperExecutor::new(amt(5, 0), "s.json");
    assert_eq!(
        ex.buy("m", "t", OrderSide::Buy, amt(1000, 0), amt(1, 0)),
        Err("Saldo tidak cukup: butuh $1000.00, tersisa $5.00".to_string())
    );
}

#[test]
fn price_text_reads_as_decimal() {
    assert_eq!(price_text("0.55"), Some(amt(55, 2)));
    assert_eq!(price_text("-12"), Some(amt(-12, 0)));
    assert_eq!(price_text("abc"), None);
    assert_eq!(price_text("-0"), Some(Amount { mantissa: 0, scale: 0, negative: false }));
    assert_eq!(price_text("-0.50"), Some(Amount { mantissa: -50, scale: 2, negative: true }));
}

#[test]
fn two_decimal_text_cuts_off() {
    let mut ex = PaperExecutor::new(amt(123456, 4), "s.json");
    assert_eq!(
        ex.buy("m", "t", OrderSide::Buy, amt(20009, 3), amt(1, 0)),
        Err("Saldo tidak cukup: butuh $20.00, tersisa $12.34".to_string())
    );
    let mut ex = PaperExecutor::new(amt(5, 3), "s.json");
    assert_eq!(
        ex.buy("m", "t", OrderSide::Buy, amt(-5, 0), amt(-1, 0)),
        Err("Saldo tidak cukup: butuh $5.00, tersisa $0.00".to_string())
    );
    let mut ex = PaperExecutor::new(amt(-75, 1), "s.json");
    assert_eq!(
        ex.buy("m", "t", OrderSide::Buy, amt(0, 0), amt(1, 0)),
        Err("Saldo tidak cukup: butuh $0.00, tersisa $-7.50".to_string())
    );
}

#[test]
fn zero_minus_zero_is_the_subtrahend() {
    let mut ex = PaperExecutor::new(Amount { mantissa: 0, scale: 1, negative: true }, "s.json");
    ex.buy("m", "t", OrderSide::Buy, amt(0, 0), amt(1, 0)).unwrap();
    assert_eq!(ex.get_balance(), Amount { mantissa: 0, scale: 0, negative: false });
}

#[test]
fn cancelling_sum_is_zero() {
    let mut ex = PaperExecutor::new(amt(0, 0), "s.json");
    let position = PaperPosition {
        market_id: "m".to_string(),
        token_id: "t".to_string(),
        side: "YES".to_string(),
        shares: amt(1, 0),
        avg_price: amt(1, 0),
        entry_value: amt(1, 0),
    };
    assert!(ex.load_account(PaperAccount { balance: amt(-1, 0), positions: vec![("m_t_YES".to_string(), position)], trade_count: 0 }));
    ex.sell("m", "t", OrderSide::Buy, amt(1, 0), amt(1, 0)).unwrap();
    assert_eq!(ex.get_balance().mantissa, 0);
    assert!(ex.account().positions.is_empty());
}

