use rust_decimal::Decimal;
use polymarket_rn2_bot::decimal::Amount;
use polymarket_rn2_bot::order::paper_executor::{make_position_key, OrderSide, PaperAccount, PaperExecutor, PaperPosition};

fn amt(m: i128, s: u32) -> Amount {
    Amount::from_parts(m, s).unwrap()
}

fn executor(balance: Amount) -> PaperExecutor {
    PaperExecutor::new(balance, "paper_state.json")
}

fn position<'a>(ex: &'a PaperExecutor, key: &str) -> Option<&'a PaperPosition> {
    ex.account().positions.iter().find(|(k, _)| k == key).map(|(_, p)| p)
}

#[test]
fn new_executor_holds_only_cash() {
    let ex = executor(amt(1000000, 2));
    assert_eq!(ex.get_balance(), amt(1000000, 2));
    assert!(ex.account().positions.is_empty());
    assert_eq!(ex.account().trade_count, 0);
    assert_eq!(ex.state_file(), "paper_state.json");
}

#[test]
fn position_key_joins_market_token_and_side() {
    assert_eq!(make_position_key("m1", "t1", OrderSide::Buy), "m1_t1_YES");
    assert_eq!(make_position_key("m1", "t1", OrderSide::Sell), "m1_t1_NO");
}

#[test]
fn buy_opens_position_and_debits_cost() {
    let mut ex = executor(amt(100, 0));
    assert_eq!(ex.buy("m1", "t1", OrderSide::Buy, amt(40, 2), amt(10, 0)), Ok(()));
    assert_eq!(ex.get_balance(), amt(9600, 2));
    assert_eq!(ex.account().trade_count, 1);
    let p = position(&ex, "m1_t1_YES").unwrap();
    assert_eq!(p.market_id, "m1");
    assert_eq!(p.token_id, "t1");
    assert_eq!(p.side, "YES");
    assert_eq!(p.shares, amt(10, 0));
    assert_eq!(p.avg_price, amt(40, 2));
    assert_eq!(p.entry_value, amt(400, 2));
}

#[test]
fn buy_beyond_balance_is_refused_and_changes_nothing() {
    let mut ex = executor(amt(5, 0));
    let r = ex.buy("m1", "t1", OrderSide::Sell, amt(60, 2), amt(10, 0));
    assert_eq!(r, Err("Saldo tidak cukup: butuh $6.00, tersisa $5.00".to_string()));
    assert_eq!(ex.get_balance(), amt(5, 0));
    assert!(ex.account().positions.is_empty());
    assert_eq!(ex.account().trade_count, 0);
}

#[test]
fn second_buy_averages_the_price() {
    let mut ex = executor(amt(100, 0));
    ex.buy("m1", "t1", OrderSide::Buy, amt(40, 2), amt(10, 0)).unwrap();
    ex.buy("m1", "t1", OrderSide::Buy, amt(60, 2), amt(10, 0)).unwrap();
    let p = position(&ex, "m1_t1_YES").unwrap();
    assert_eq!(p.shares, amt(20, 0));
    let avg = rust_decimal::Decimal::from_i128_with_scale(p.avg_price.mantissa, p.avg_price.scale);
    assert_eq!(avg, rust_decimal::Decimal::new(5, 1));
    assert_eq!(ex.get_balance(), amt(9000, 2));
    assert_eq!(ex.account().trade_count, 2);
    assert_eq!(ex.account().positions.len(), 1);
}

#[test]
fn sides_are_separate_positions() {
    let mut ex = executor(amt(100, 0));
    ex.buy("m1", "t1", OrderSide::Buy, amt(40, 2), amt(10, 0)).unwrap();
    ex.buy("m1", "t1", OrderSide::Sell, amt(60, 2), amt(10, 0)).unwrap();
    assert_eq!(ex.account().positions.len(), 2);
    assert!(position(&ex, "m1_t1_NO").is_some());
}

#[test]
fn partial_sell_credits_revenue_and_keeps_position() {
    let mut ex = executor(amt(100, 0));
    ex.buy("m1", "t1", OrderSide::Buy, amt(40, 2), amt(10, 0)).unwrap();
    assert_eq!(ex.sell("m1", "t1", OrderSide::Buy, amt(50, 2), amt(4, 0)), Ok(()));
    assert_eq!(ex.get_balance(), amt(9800, 2));
    let p = position(&ex, "m1_t1_YES").unwrap();
    assert_eq!(p.shares, amt(6, 0));
    assert_eq!(p.avg_price, amt(40, 2));
    assert_eq!(p.entry_value, amt(240, 2));
    assert_eq!(ex.account().trade_count, 1);
}

#[test]
fn selling_everything_closes_position() {
    let mut ex = executor(amt(100, 0));
    ex.buy("m1", "t1", OrderSide::Buy, amt(40, 2), amt(10, 0)).unwrap();
    ex.sell("m1", "t1", OrderSide::Buy, amt(40, 2), amt(10, 0)).unwrap();
    assert!(ex.account().positions.is_empty());
    assert_eq!(ex.get_balance(), amt(10000, 2));
}

#[test]
fn sell_without_position_is_refused() {
    let mut ex = executor(amt(100, 0));
    let r = ex.sell("m1", "t1", OrderSide::Buy, amt(40, 2), amt(1, 0));
    assert_eq!(r, Err("Posisi tidak ditemukan".to_string()));
    assert_eq!(ex.get_balance(), amt(100, 0));
}

#[test]
fn sell_of_too_many_shares_is_refused() {
    let mut ex = executor(amt(100, 0));
    ex.buy("m1", "t1", OrderSide::Buy, amt(40, 2), amt(10, 0)).unwrap();
    let r = ex.sell("m1", "t1", OrderSide::Buy, amt(40, 2), amt(11, 0));
    assert_eq!(r, Err("Shares tidak mencukupi".to_string()));
    assert_eq!(position(&ex, "m1_t1_YES").unwrap().shares, amt(10, 0));
    assert_eq!(ex.get_balance(), amt(9600, 2));
}

#[test]
fn overflowing_buy_is_none_and_changes_nothing() {
    let big = amt(0xFFFF_FFFF_FFFF_FFFF_FFFF_FFFF, 0);
    let mut ex = executor(big);
    assert!(!ex.can_buy("m1", "t1", OrderSide::Buy, big, big));
    assert_eq!(ex.try_buy("m1", "t1", OrderSide::Buy, big, big), None);
    assert_eq!(ex.get_balance(), big);
    assert!(ex.account().positions.is_empty());
}

#[test]
fn try_sell_reports_refusals() {
    let mut ex = executor(amt(100, 0));
    assert_eq!(ex.try_sell("m", "t", OrderSide::Sell, amt(1, 0), amt(1, 0)), Some(Err("Posisi tidak ditemukan".to_string())));
    assert!(ex.can_sell("m", "t", OrderSide::Sell, amt(1, 0), amt(1, 0)));
}

#[test]
fn buy_then_sell_at_same_price_restores_balance() {
    let mut ex = executor(amt(25000, 2));
    assert_eq!(ex.try_buy("m9", "t9", OrderSide::Sell, amt(37, 2), amt(15, 0)), Some(Ok(())));
    assert_eq!(ex.try_sell("m9", "t9", OrderSide::Sell, amt(37, 2), amt(15, 0)), Some(Ok(())));
    let b = ex.get_balance();
    assert_eq!(rust_decimal::Decimal::from_i128_with_scale(b.mantissa, b.scale), rust_decimal::Decimal::new(250, 0));
    assert!(ex.account().positions.is_empty());
    assert_eq!(ex.account().trade_count, 1);
}

#[test]
fn load_account_checks_well_formedness() {
    let mut ex = executor(amt(1, 0));
    let pos = |m: &str| PaperPosition {
        market_id: m.to_string(),
        token_id: "t".to_string(),
        side: "YES".to_string(),
        shares: amt(1, 0),
        avg_price: amt(1, 1),
        entry_value: amt(1, 1),
    };
    let dup = PaperAccount {
        balance: amt(7, 0),
        positions: vec![("k".to_string(), pos("a")), ("k".to_string(), pos("b"))],
        trade_count: 3,
    };
    assert!(!ex.load_account(dup));
    assert_eq!(ex.get_balance(), amt(1, 0));
    let good = PaperAccount { balance: amt(7, 0), positions: vec![("k".to_string(), pos("a"))], trade_count: 3 };
    assert!(good.is_well_formed());
    assert!(ex.load_account(good));
    assert_eq!(ex.get_balance(), amt(7, 0));
    assert_eq!(ex.account().trade_count, 3);
    let bad_scale = PaperAccount { balance: Amount { mantissa: 1, scale: 40, negative: false }, positions: vec![], trade_count: 0 };
    assert!(!bad_scale.is_well_formed());
}

#[test]
fn fresh_account_is_empty() {
    let a = PaperAccount::new(amt(3, 0));
    assert!(a.positions.is_empty());
    assert_eq!(a.trade_count, 0);
    assert_eq!(a.balance, amt(3, 0));
}

#[test]
fn orders_leave_other_positions_alone() {
    let mut ex = executor(amt(100, 0));
    ex.buy("m1", "t1", OrderSide::Buy, amt(40, 2), amt(10, 0)).unwrap();
    ex.buy("m2", "t2", OrderSide::Sell, amt(30, 2), amt(5, 0)).unwrap();
    ex.sell("m1", "t1", OrderSide::Buy, amt(45, 2), amt(3, 0)).unwrap();
    let other = position(&ex, "m2_t2_NO").unwrap();
    assert_eq!(other.shares, amt(5, 0));
    assert_eq!(other.avg_price, amt(30, 2));
    assert_eq!(other.entry_value, amt(150, 2));
    assert_eq!(ex.account().trade_count, 2);
}

#[test]
fn negative_zero_balance_keeps_its_sign_in_refusals() {
    let mut ex = executor(Amount { mantissa: 0, scale: 2, negative: true });
    assert_eq!(
        ex.buy("m", "t", OrderSide::Buy, amt(1, 0), amt(1, 0)),
        Err("Saldo tidak cukup: butuh $1.00, tersisa $-0.00".to_string())
    );
    let bad_sign = PaperAccount { balance: Amount { mantissa: 5, scale: 0, negative: true }, positions: vec![], trade_count: 0 };
    assert!(!bad_sign.is_well_formed());
}

fn dec(a: Amount) -> rust_decimal::Decimal {
    let mut d = rust_decimal::Decimal::from_i128_with_scale(a.mantissa, a.scale);
    d.set_sign_negative(a.negative);
    d
}

#[test]
fn account_stays_consistent_over_orders() {
    let mut ex = executor(amt(100, 0));
    ex.buy("m1", "t1", OrderSide::Buy, amt(40, 2), amt(10, 0)).unwrap();
    ex.buy("m1", "t1", OrderSide::Buy, amt(60, 2), amt(5, 0)).unwrap();
    ex.buy("m2", "t2", OrderSide::Sell, amt(25, 2), amt(8, 0)).unwrap();
    ex.sell("m1", "t1", OrderSide::Buy, amt(55, 2), amt(7, 0)).unwrap();
    ex.sell("m2", "t2", OrderSide::Sell, amt(30, 2), amt(8, 0)).unwrap();
    assert!(dec(ex.get_balance()) >= rust_decimal::Decimal::ZERO);
    for (key, p) in &ex.account().positions {
        assert_eq!(*key, format!("{}_{}_{}", p.market_id, p.token_id, p.side));
        assert!(p.side == "YES" || p.side == "NO");
        assert!(p.shares.mantissa > 0);
        assert_eq!(dec(p.entry_value), dec(p.avg_price) * dec(p.shares));
    }
}

#[test]
fn balance_over_a_run_is_initial_minus_costs_plus_revenues() {
    let mut ex = executor(amt(50, 0));
    let mut expected = Decimal::new(50, 0);
    let orders: Vec<(bool, &str, Amount, Amount)> = vec![
        (true, "a", amt(35, 2), amt(20, 0)),
        (true, "b", amt(70, 2), amt(10, 0)),
        (false, "a", amt(50, 2), amt(5, 0)),
        (true, "c", amt(99, 2), amt(100, 0)),
        (false, "b", amt(65, 2), amt(10, 0)),
        (false, "z", amt(10, 2), amt(1, 0)),
    ];
    for (is_buy, m, price, shares) in orders {
        let r = if is_buy {
            ex.buy(m, "t", OrderSide::Buy, price, shares)
        } else {
            ex.sell(m, "t", OrderSide::Buy, price, shares)
        };
        if r.is_ok() {
            let flow = dec(price) * dec(shares);
            if is_buy { expected -= flow } else { expected += flow }
        }
    }
    assert_eq!(dec(ex.get_balance()), expected);
    assert_eq!(expected, Decimal::new(4500, 2));
}
