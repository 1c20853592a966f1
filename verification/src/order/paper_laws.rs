//! What holds of every buy and sell of the paper account.
use crate::decimal::{
    add_is_exact, add_result, common_scale, lemma_add_exact_value, lemma_add_sign, lemma_at_scale_lift,
    lemma_at_scale_sign, lemma_mul_not_negative, lemma_sub_equal_is_zero, lemma_sub_exact_value,
    lemma_sub_sign_by_order, lemma_sub_then_add, mul_is_exact, mul_result, pow10, sub_is_exact,
    sub_result, value_eq, value_lt, div_result, Amount,
};
use crate::order::paper_executor::{
    buy_outcome, insufficient_balance_message, insufficient_shares_message, position_after_buy,
    position_key, position_not_found_message, sell_outcome, side_label, AccountView, OrderSide,
    PositionView,
};
use vstd::prelude::*;

verus! {

broadcast use crate::decimal::group_results_wf;

/// A buy is refused exactly when its cost exceeds the balance; the refusal names both and
/// leaves the account as it was.
pub proof fn law_buy_refused_iff_cost_exceeds_balance(
    acct: AccountView,
    market_id: Seq<char>,
    token_id: Seq<char>,
    side: OrderSide,
    price: Amount,
    shares: Amount,
)
    ensures
        buy_outcome(acct, market_id, token_id, side, price, shares) matches Some((after, answer)) ==> {
            &&& (answer is Err <==> (mul_result(price, shares) matches Some(cost) && value_lt(acct.balance, cost)))
            &&& (answer is Err ==> answer == Err::<(), Seq<char>>(
                insufficient_balance_message(cost_of(price, shares), acct.balance),
            ))
            &&& (answer is Err ==> after == acct)
        },
{
}

/// A sell is refused exactly when there is no position under its key, or the position holds
/// fewer shares than are sold; the refusal leaves the account as it was.
pub proof fn law_sell_refused_iff_missing_or_short(
    acct: AccountView,
    market_id: Seq<char>,
    token_id: Seq<char>,
    side: OrderSide,
    price: Amount,
    shares: Amount,
)
    ensures
        ({
            let key = position_key(market_id, token_id, side);
            sell_outcome(acct, market_id, token_id, side, price, shares) matches Some((after, answer)) ==> {
                &&& (!acct.positions.contains_key(key) ==> answer == Err::<(), Seq<char>>(position_not_found_message()))
                &&& (acct.positions.contains_key(key) && value_lt(acct.positions[key].shares, shares) ==> answer
                    == Err::<(), Seq<char>>(insufficient_shares_message()))
                &&& (answer is Err <==> (!acct.positions.contains_key(key) || value_lt(acct.positions[key].shares, shares)))
                &&& (answer is Err ==> after == acct)
            }
        }),
{
}

/// Every accepted buy adds one to the count of buys; a sell never changes it.
pub proof fn law_trade_count_counts_buys(
    acct: AccountView,
    market_id: Seq<char>,
    token_id: Seq<char>,
    side: OrderSide,
    price: Amount,
    shares: Amount,
)
    ensures
        buy_outcome(acct, market_id, token_id, side, price, shares) matches Some((after, answer)) ==> after.trade_count
            == if answer is Ok { acct.trade_count + 1 } else { acct.trade_count as int },
        sell_outcome(acct, market_id, token_id, side, price, shares) matches Some((after, _)) ==> after.trade_count
            == acct.trade_count,
{
}

/// An order touches no position but the one under its own key.
pub proof fn law_orders_touch_only_their_position(
    acct: AccountView,
    market_id: Seq<char>,
    token_id: Seq<char>,
    side: OrderSide,
    price: Amount,
    shares: Amount,
)
    ensures
        ({
            let key = position_key(market_id, token_id, side);
            &&& buy_outcome(acct, market_id, token_id, side, price, shares) matches Some((after, _)) ==> after.positions.remove(key)
                == acct.positions.remove(key)
            &&& sell_outcome(acct, market_id, token_id, side, price, shares) matches Some((after, _)) ==> after.positions.remove(key)
                == acct.positions.remove(key)
        }),
{
    let key = position_key(market_id, token_id, side);
    if let Some((after, _)) = buy_outcome(acct, market_id, token_id, side, price, shares) {
        assert(after.positions.remove(key) =~= acct.positions.remove(key));
    }
    if let Some((after, _)) = sell_outcome(acct, market_id, token_id, side, price, shares) {
        assert(after.positions.remove(key) =~= acct.positions.remove(key));
    }
}

/// Orders keep every number of the account a decimal.
pub proof fn law_orders_keep_account_well_formed(
    acct: AccountView,
    market_id: Seq<char>,
    token_id: Seq<char>,
    side: OrderSide,
    price: Amount,
    shares: Amount,
)
    requires
        acct.wf(),
        price.wf(),
        shares.wf(),
    ensures
        buy_outcome(acct, market_id, token_id, side, price, shares) matches Some((after, _)) ==> after.wf(),
        sell_outcome(acct, market_id, token_id, side, price, shares) matches Some((after, _)) ==> after.wf(),
{
    let key = position_key(market_id, token_id, side);
    if let Some((after, _)) = buy_outcome(acct, market_id, token_id, side, price, shares) {
        if acct.positions.contains_key(key) {
            let pos = acct.positions[key];
            assert(pos.wf());
            if let Some(p) = position_after_buy(pos, shares, cost_of(price, shares)) {
                assert(p.wf());
            }
        }
        assert forall|k: Seq<char>| #[trigger] after.positions.contains_key(k) implies after.positions[k].wf() by {
            if k != key {
                assert(acct.positions.contains_key(k));
            }
        }
    }
    if let Some((after, _)) = sell_outcome(acct, market_id, token_id, side, price, shares) {
        if acct.positions.contains_key(key) {
            assert(acct.positions[key].wf());
        }
        assert forall|k: Seq<char>| #[trigger] after.positions.contains_key(k) implies after.positions[k].wf() by {
            if k != key {
                assert(acct.positions.contains_key(k));
            }
        }
    }
}

/// The cost of a buy, where it is formed.
pub open spec fn cost_of(price: Amount, shares: Amount) -> Amount {
    match mul_result(price, shares) {
        Some(c) => c,
        None => price,
    }
}

/// A buy never takes a balance below zero, whether the new balance is exact or rounded.
pub proof fn law_buy_keeps_balance_not_negative(
    acct: AccountView,
    market_id: Seq<char>,
    token_id: Seq<char>,
    side: OrderSide,
    price: Amount,
    shares: Amount,
)
    requires
        acct.wf(),
        price.wf(),
        shares.wf(),
        acct.balance.mantissa >= 0,
    ensures
        buy_outcome(acct, market_id, token_id, side, price, shares) matches Some((after, _)) ==> after.balance.mantissa >= 0,
{
    if let Some(cost) = mul_result(price, shares) {
        lemma_sub_sign_by_order(acct.balance, cost);
    }
}

/// An accepted buy takes exactly its cost from the balance, where the new balance is formed
/// exactly: at the common scale of balance and cost, the new balance is their difference.
pub proof fn law_buy_debits_cost(
    acct: AccountView,
    market_id: Seq<char>,
    token_id: Seq<char>,
    side: OrderSide,
    price: Amount,
    shares: Amount,
)
    requires
        acct.wf(),
        price.wf(),
        shares.wf(),
        mul_result(price, shares) matches Some(cost) && sub_is_exact(acct.balance, cost),
    ensures
        ({
            let cost = cost_of(price, shares);
            let s = common_scale(acct.balance, cost);
            buy_outcome(acct, market_id, token_id, side, price, shares) matches Some((after, answer)) ==> (answer is Ok
                ==> after.balance.scale <= s && after.balance.at_scale(s) == acct.balance.at_scale(s) - cost.at_scale(s))
        }),
{
    lemma_sub_exact_value(acct.balance, cost_of(price, shares));
}

/// An accepted sell adds exactly its revenue to the balance, where the new balance is formed
/// exactly; where the product is formed exactly too, the revenue is the price times the
/// shares.
pub proof fn law_sell_credits_revenue(
    acct: AccountView,
    market_id: Seq<char>,
    token_id: Seq<char>,
    side: OrderSide,
    price: Amount,
    shares: Amount,
)
    requires
        acct.wf(),
        price.wf(),
        shares.wf(),
        mul_result(price, shares) matches Some(revenue) && add_is_exact(acct.balance, revenue),
    ensures
        ({
            let revenue = cost_of(price, shares);
            let s = common_scale(acct.balance, revenue);
            &&& (sell_outcome(acct, market_id, token_id, side, price, shares) matches Some((after, answer)) ==> (answer is Ok
                ==> after.balance.scale <= s && after.balance.at_scale(s) == acct.balance.at_scale(s) + revenue.at_scale(s)))
            &&& (mul_is_exact(price, shares) ==> revenue.mantissa == price.mantissa * shares.mantissa)
            &&& (mul_is_exact(price, shares) && price.mantissa != 0 && shares.mantissa != 0 ==> revenue.scale
                == price.scale + shares.scale)
        }),
{
    lemma_add_exact_value(acct.balance, cost_of(price, shares));
    let pm = price.mantissa as int;
    let sm = shares.mantissa as int;
    assert(pm == 0 || sm == 0 ==> pm * sm == 0) by (nonlinear_arith);
}

/// Selling every share of a position closes it.
pub proof fn law_selling_all_shares_closes_position(
    acct: AccountView,
    market_id: Seq<char>,
    token_id: Seq<char>,
    side: OrderSide,
    price: Amount,
    shares: Amount,
)
    requires
        acct.wf(),
        price.wf(),
        shares.wf(),
        acct.positions.contains_key(position_key(market_id, token_id, side)),
        value_eq(acct.positions[position_key(market_id, token_id, side)].shares, shares),
    ensures
        sell_outcome(acct, market_id, token_id, side, price, shares) matches Some((after, answer)) ==> answer is Ok
            && !after.positions.contains_key(position_key(market_id, token_id, side)),
{
    let key = position_key(market_id, token_id, side);
    let held = acct.positions[key].shares;
    assert(acct.positions[key].wf());
    lemma_sub_equal_is_zero(held, shares);
    crate::decimal::lemma_compare_at_scale(held, shares, crate::decimal::common_scale(held, shares));
}

/// Buying shares into a new position and selling them again at the same price gives the
/// balance back and leaves the positions as they were; one buy is counted. This holds where
/// the new balance is formed exactly (the cost may be rounded).
pub proof fn law_buy_then_sell_restores_balance(
    acct: AccountView,
    market_id: Seq<char>,
    token_id: Seq<char>,
    side: OrderSide,
    price: Amount,
    shares: Amount,
)
    requires
        acct.wf(),
        price.wf(),
        shares.wf(),
        !acct.positions.contains_key(position_key(market_id, token_id, side)),
        acct.trade_count < u64::MAX,
        mul_result(price, shares) matches Some(cost) && !value_lt(acct.balance, cost) && sub_is_exact(acct.balance, cost),
    ensures
        buy_outcome(acct, market_id, token_id, side, price, shares) matches Some((mid, first)) && {
            &&& first is Ok
            &&& sell_outcome(mid, market_id, token_id, side, price, shares) matches Some((after, second)) && {
                &&& second is Ok
                &&& value_eq(after.balance, acct.balance)
                &&& after.positions == acct.positions
                &&& after.trade_count == acct.trade_count + 1
            }
        },
{
    let key = position_key(market_id, token_id, side);
    let cost = cost_of(price, shares);
    lemma_sub_then_add(acct.balance, cost);
    lemma_sub_equal_is_zero(shares, shares);
    crate::decimal::lemma_compare_at_scale(shares, shares, shares.scale as nat);
    let mid_balance = match sub_result(acct.balance, cost) {
        Some(d) => d,
        None => cost,
    };
    let pos = PositionView {
        market_id,
        token_id,
        side: side_label(side),
        shares,
        avg_price: price,
        entry_value: cost,
    };
    let mid = AccountView {
        balance: mid_balance,
        positions: acct.positions.insert(key, pos),
        trade_count: (acct.trade_count + 1) as u64,
    };
    assert(buy_outcome(acct, market_id, token_id, side, price, shares) == Some((mid, Ok::<(), Seq<char>>(()))));
    assert(mid.positions.contains_key(key));
    assert(mid.positions[key] == pos);
    assert(mid.positions.remove(key) =~= acct.positions);
}


/// A position is consistent under its key: the key is its market, token and side joined by
/// underscores, the side is `YES` or `NO`, it holds more than zero shares, and its entry value
/// is its average price times its shares.
pub open spec fn position_consistent(key: Seq<char>, p: PositionView) -> bool {
    &&& key == p.market_id + "_"@ + p.token_id + "_"@ + p.side
    &&& (p.side == "YES"@ || p.side == "NO"@)
    &&& p.shares.mantissa > 0
    &&& mul_result(p.avg_price, p.shares) == Some(p.entry_value)
}

/// The account is consistent: its balance is not below zero and each position is consistent
/// under its key.
pub open spec fn account_consistent(acct: AccountView) -> bool {
    &&& acct.balance.mantissa >= 0
    &&& forall|k: Seq<char>| #[trigger] acct.positions.contains_key(k) ==> position_consistent(k, acct.positions[k])
}

/// A buy of more than zero shares keeps the account consistent, whether its numbers are
/// formed exactly or rounded.
pub proof fn law_buy_keeps_account_consistent(
    acct: AccountView,
    market_id: Seq<char>,
    token_id: Seq<char>,
    side: OrderSide,
    price: Amount,
    shares: Amount,
)
    requires
        acct.wf(),
        account_consistent(acct),
        price.wf(),
        shares.wf(),
        shares.mantissa > 0,
    ensures
        buy_outcome(acct, market_id, token_id, side, price, shares) matches Some((after, _)) ==> account_consistent(after),
{
    let key = position_key(market_id, token_id, side);
    let cost = cost_of(price, shares);
    if let Some((after, answer)) = buy_outcome(acct, market_id, token_id, side, price, shares) {
        if !value_lt(acct.balance, cost) {
            lemma_sub_sign_by_order(acct.balance, cost);
            let newp = if acct.positions.contains_key(key) {
                let pos = acct.positions[key];
                assert(position_consistent(key, pos));
                assert(pos.wf());
                let s = common_scale(pos.shares, shares);
                lemma_add_sign(pos.shares, shares);
                lemma_at_scale_sign(pos.shares, s);
                lemma_at_scale_sign(shares, s);
                after.positions[key]
            } else {
                after.positions[key]
            };
            assert(position_consistent(key, newp));
            assert forall|k: Seq<char>| #[trigger] after.positions.contains_key(k) implies position_consistent(
                k,
                after.positions[k],
            ) by {
                if k != key {
                    assert(acct.positions.contains_key(k));
                }
            }
        }
    }
}

/// A sell of more than zero shares at a price not below zero keeps the account consistent,
/// whether its numbers are formed exactly or rounded.
pub proof fn law_sell_keeps_account_consistent(
    acct: AccountView,
    market_id: Seq<char>,
    token_id: Seq<char>,
    side: OrderSide,
    price: Amount,
    shares: Amount,
)
    requires
        acct.wf(),
        account_consistent(acct),
        price.wf(),
        shares.wf(),
        price.mantissa >= 0,
        shares.mantissa > 0,
    ensures
        sell_outcome(acct, market_id, token_id, side, price, shares) matches Some((after, _)) ==> account_consistent(after),
{
    let key = position_key(market_id, token_id, side);
    let revenue = cost_of(price, shares);
    lemma_mul_not_negative(price, shares);
    if let Some((after, answer)) = sell_outcome(acct, market_id, token_id, side, price, shares) {
        if acct.positions.contains_key(key) {
            let pos = acct.positions[key];
            assert(position_consistent(key, pos));
            assert(pos.wf());
            if !value_lt(pos.shares, shares) {
                lemma_sub_sign_by_order(pos.shares, shares);
                let bs = common_scale(acct.balance, revenue);
                lemma_add_sign(acct.balance, revenue);
                lemma_at_scale_sign(acct.balance, bs);
                lemma_at_scale_sign(revenue, bs);
                assert forall|k: Seq<char>| #[trigger] after.positions.contains_key(k) implies position_consistent(
                    k,
                    after.positions[k],
                ) by {
                    if k != key {
                        assert(acct.positions.contains_key(k));
                    }
                }
            }
        }
    }
}

/// A sell of fewer shares than a position holds keeps the position, with the shares left
/// (the held shares less those sold, exact or rounded, and more than zero), its average
/// price, and an entry value of that price times the shares left.
pub proof fn law_partial_sell_keeps_position(
    acct: AccountView,
    market_id: Seq<char>,
    token_id: Seq<char>,
    side: OrderSide,
    price: Amount,
    shares: Amount,
)
    requires
        acct.wf(),
        price.wf(),
        shares.wf(),
        acct.positions.contains_key(position_key(market_id, token_id, side)),
        value_lt(shares, acct.positions[position_key(market_id, token_id, side)].shares),
    ensures
        ({
            let key = position_key(market_id, token_id, side);
            let pos = acct.positions[key];
            sell_outcome(acct, market_id, token_id, side, price, shares) matches Some((after, answer)) ==> {
                &&& answer is Ok
                &&& after.positions.contains_key(key)
                &&& sub_result(pos.shares, shares) == Some(after.positions[key].shares)
                &&& after.positions[key].shares.mantissa > 0
                &&& after.positions[key].avg_price == pos.avg_price
                &&& mul_result(pos.avg_price, after.positions[key].shares) == Some(after.positions[key].entry_value)
                &&& after.positions[key].market_id == pos.market_id
                &&& after.positions[key].token_id == pos.token_id
                &&& after.positions[key].side == pos.side
            }
        }),
{
    let key = position_key(market_id, token_id, side);
    let pos = acct.positions[key];
    assert(pos.wf());
    let s = common_scale(pos.shares, shares);
    crate::decimal::lemma_compare_at_scale(pos.shares, shares, s);
    crate::decimal::lemma_compare_at_scale(shares, pos.shares, s);
    lemma_sub_sign_by_order(pos.shares, shares);
}

/// An order of a run: a buy or a sell, with its arguments.
pub struct Order {
    pub is_buy: bool,
    pub market_id: Seq<char>,
    pub token_id: Seq<char>,
    pub side: OrderSide,
    pub price: Amount,
    pub shares: Amount,
}

/// The outcome of an order, as `buy` or `sell` gives it.
pub open spec fn order_outcome(acct: AccountView, o: Order) -> Option<(AccountView, Result<(), Seq<char>>)> {
    if o.is_buy {
        buy_outcome(acct, o.market_id, o.token_id, o.side, o.price, o.shares)
    } else {
        sell_outcome(acct, o.market_id, o.token_id, o.side, o.price, o.shares)
    }
}

/// The order's arguments are decimals, and the balance it leaves is formed exactly from the
/// balance and its cost or revenue (which may itself be rounded).
pub open spec fn order_exact(acct: AccountView, o: Order) -> bool {
    &&& o.price.wf()
    &&& o.shares.wf()
    &&& if o.is_buy {
        sub_is_exact(acct.balance, cost_of(o.price, o.shares))
    } else {
        add_is_exact(acct.balance, cost_of(o.price, o.shares))
    }
}

/// The scale at which every decimal is a whole number of units: 28 digits after the point.
pub open spec fn unit_scale() -> nat {
    28
}

/// What an accepted order moves into the balance, in units of `10^-28`: minus the cost of a
/// buy, plus the revenue of a sell; nothing for a refused order.
pub open spec fn cash_flow(acct: AccountView, o: Order) -> int {
    match order_outcome(acct, o) {
        Some((_, Ok(()))) => if o.is_buy {
            -cost_of(o.price, o.shares).at_scale(unit_scale())
        } else {
            cost_of(o.price, o.shares).at_scale(unit_scale())
        },
        _ => 0,
    }
}

/// The account after a run of orders, in order; none where an order's arithmetic fails.
pub open spec fn run_orders(acct: AccountView, orders: Seq<Order>) -> Option<AccountView>
    decreases orders.len(),
{
    if orders.len() == 0 {
        Some(acct)
    } else {
        match order_outcome(acct, orders[0]) {
            None => None,
            Some((next, _)) => run_orders(next, orders.drop_first()),
        }
    }
}

/// Every order of the run is exact on the account it meets.
pub open spec fn run_exact(acct: AccountView, orders: Seq<Order>) -> bool
    decreases orders.len(),
{
    orders.len() == 0 || (order_exact(acct, orders[0]) && match order_outcome(acct, orders[0]) {
        None => true,
        Some((next, _)) => run_exact(next, orders.drop_first()),
    })
}

/// The sum of what the accepted orders of a run move into the balance.
pub open spec fn run_cash_flow(acct: AccountView, orders: Seq<Order>) -> int
    decreases orders.len(),
{
    if orders.len() == 0 {
        0
    } else {
        cash_flow(acct, orders[0]) + match order_outcome(acct, orders[0]) {
            None => 0,
            Some((next, _)) => run_cash_flow(next, orders.drop_first()),
        }
    }
}

/// One exact order moves the balance by its cash flow.
proof fn lemma_order_moves_balance(acct: AccountView, o: Order)
    requires
        acct.wf(),
        order_exact(acct, o),
    ensures
        order_outcome(acct, o) matches Some((after, _)) ==> after.wf() && after.balance.at_scale(unit_scale())
            == acct.balance.at_scale(unit_scale()) + cash_flow(acct, o),
{
    law_orders_keep_account_well_formed(acct, o.market_id, o.token_id, o.side, o.price, o.shares);
    law_buy_refused_iff_cost_exceeds_balance(acct, o.market_id, o.token_id, o.side, o.price, o.shares);
    law_sell_refused_iff_missing_or_short(acct, o.market_id, o.token_id, o.side, o.price, o.shares);
    if let Some((after, answer)) = order_outcome(acct, o) {
        if answer is Ok {
            let c = cost_of(o.price, o.shares);
            assert(c.wf());
            let s = common_scale(acct.balance, c);
            let t = unit_scale();
            lemma_at_scale_lift(acct.balance, s, t);
            lemma_at_scale_lift(c, s, t);
            let p = pow10((t - s) as nat);
            if o.is_buy {
                law_buy_debits_cost(acct, o.market_id, o.token_id, o.side, o.price, o.shares);
                lemma_at_scale_lift(after.balance, s, t);
                let x = acct.balance.at_scale(s);
                let y = c.at_scale(s);
                assert((x - y) * p == x * p - y * p) by (nonlinear_arith);
            } else {
                law_sell_credits_revenue(acct, o.market_id, o.token_id, o.side, o.price, o.shares);
                lemma_at_scale_lift(after.balance, s, t);
                let x = acct.balance.at_scale(s);
                let y = c.at_scale(s);
                assert((x + y) * p == x * p + y * p) by (nonlinear_arith);
            }
        }
    }
}

/// Over any run of orders on an account, the final balance is the first balance minus the
/// costs of the accepted buys plus the revenues of the accepted sells (each as `rust_decimal`
/// forms it, rounded or not), where every new balance is formed exactly.
pub proof fn law_run_balance(acct: AccountView, orders: Seq<Order>)
    requires
        acct.wf(),
        run_exact(acct, orders),
    ensures
        run_orders(acct, orders) matches Some(after) ==> after.balance.at_scale(unit_scale())
            == acct.balance.at_scale(unit_scale()) + run_cash_flow(acct, orders),
    decreases orders.len(),
{
    if orders.len() > 0 {
        lemma_order_moves_balance(acct, orders[0]);
        if let Some((next, _)) = order_outcome(acct, orders[0]) {
            law_run_balance(next, orders.drop_first());
        }
    }
}

/// An accepted buy debits its cost, price times shares, and puts the shares under its key.
/// Into a new position it opens one at the buy's price, with the cost as entry value. Into a
/// held position it adds the shares, and the new average price is the total cost, the held
/// average price times all the held shares plus the buy's cost, over the new share count; the
/// entry value is that average price times the new share count. Market, token and side stay.
pub proof fn law_buy_averages_total_cost(
    acct: AccountView,
    market_id: Seq<char>,
    token_id: Seq<char>,
    side: OrderSide,
    price: Amount,
    shares: Amount,
)
    ensures
        ({
            let key = position_key(market_id, token_id, side);
            buy_outcome(acct, market_id, token_id, side, price, shares) matches Some((after, answer)) ==> answer is Ok ==> {
                &&& mul_result(price, shares) matches Some(cost) && sub_result(acct.balance, cost) == Some(after.balance)
                &&& after.positions.contains_key(key)
                &&& if acct.positions.contains_key(key) {
                    let pos = acct.positions[key];
                    let np = after.positions[key];
                    &&& add_result(pos.shares, shares) == Some(np.shares)
                    &&& mul_result(pos.avg_price, pos.shares) matches Some(held_cost) && mul_result(price, shares) matches Some(cost)
                        && add_result(held_cost, cost) matches Some(total_cost) && div_result(total_cost, np.shares) == Some(
                        np.avg_price,
                    )
                    &&& mul_result(np.avg_price, np.shares) == Some(np.entry_value)
                    &&& np.market_id == pos.market_id && np.token_id == pos.token_id && np.side == pos.side
                } else {
                    let np = after.positions[key];
                    &&& np.market_id == market_id && np.token_id == token_id && np.side == side_label(side)
                    &&& np.shares == shares && np.avg_price == price
                    &&& mul_result(price, shares) == Some(np.entry_value)
                }
            }
        }),
{
}

} // verus!
