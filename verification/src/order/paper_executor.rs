//! Paper trading: a simulated account that buys and sells outcome shares
//! against a cash balance, with one position per market, token and side.
use crate::decimal::{
    add_result, checked_add, checked_div, checked_mul, checked_sub, div_result,
    lt, mul_result, sub_result, text_2dp, text_2dp_spec, value_lt, Amount, MAX_MANTISSA, MAX_SCALE,
};
use crate::keyed::{
    entries_map, has_key, keys_unique, lemma_entries_map_at, lemma_entries_map_push,
    lemma_entries_map_remove, lemma_entries_map_update,
};
use vstd::prelude::*;
use vstd::string::*;

verus! {

broadcast use crate::decimal::group_results_wf;

/// The side of an order: `Buy` takes the YES outcome, `Sell` the NO outcome.
#[derive(Clone, Copy, Debug, PartialEq, Eq, Structural)]
pub enum OrderSide {
    Buy,
    Sell,
}

/// A position held in the paper account.
#[derive(Clone, Debug)]
pub struct PaperPosition {
    pub market_id: String,
    pub token_id: String,
    pub side: String,
    pub shares: Amount,
    pub avg_price: Amount,
    pub entry_value: Amount,
}

/// The paper account: cash, positions by key, and the number of buys made.
#[derive(Clone, Debug)]
pub struct PaperAccount {
    pub balance: Amount,
    pub positions: Vec<(String, PaperPosition)>,
    pub trade_count: u64,
}

/// Simulates order execution against a [`PaperAccount`]; the account is saved to `state_file`
/// by the caller after each successful order.
pub struct PaperExecutor {
    account: PaperAccount,
    state_file: String,
}

/// A position, as text and numbers.
pub struct PositionView {
    pub market_id: Seq<char>,
    pub token_id: Seq<char>,
    pub side: Seq<char>,
    pub shares: Amount,
    pub avg_price: Amount,
    pub entry_value: Amount,
}

/// An account: its balance, its positions by key, and its count of buys.
pub struct AccountView {
    pub balance: Amount,
    pub positions: Map<Seq<char>, PositionView>,
    pub trade_count: u64,
}

impl PaperPosition {
    pub open spec fn view(&self) -> PositionView {
        PositionView {
            market_id: self.market_id@,
            token_id: self.token_id@,
            side: self.side@,
            shares: self.shares,
            avg_price: self.avg_price,
            entry_value: self.entry_value,
        }
    }

    pub open spec fn wf(&self) -> bool {
        self.view().wf()
    }
}

impl PositionView {
    /// All of its numbers are decimals.
    pub open spec fn wf(self) -> bool {
        self.shares.wf() && self.avg_price.wf() && self.entry_value.wf()
    }
}

/// The key and position of each entry, as text and numbers.
pub open spec fn entry_views(entries: Seq<(String, PaperPosition)>) -> Seq<(Seq<char>, PositionView)> {
    entries.map_values(|e: (String, PaperPosition)| (e.0@, e.1.view()))
}

impl PaperAccount {
    pub open spec fn view(&self) -> AccountView {
        AccountView {
            balance: self.balance,
            positions: entries_map(entry_views(self.positions@)),
            trade_count: self.trade_count,
        }
    }

    /// Keys are unique and every number is a decimal.
    pub open spec fn wf(&self) -> bool {
        &&& self.balance.wf()
        &&& keys_unique(entry_views(self.positions@))
        &&& forall|i: int| 0 <= i < self.positions@.len() ==> (#[trigger] self.positions@[i]).1.wf()
    }
}

impl AccountView {
    /// Every number in the account is a decimal.
    pub open spec fn wf(self) -> bool {
        &&& self.balance.wf()
        &&& forall|k: Seq<char>| #[trigger] self.positions.contains_key(k) ==> self.positions[k].wf()
    }
}

/// The text of a side in a position key: `YES` for a buy, `NO` for a sell.
pub open spec fn side_label(side: OrderSide) -> Seq<char> {
    match side {
        OrderSide::Buy => "YES"@,
        OrderSide::Sell => "NO"@,
    }
}

/// The key of a position: `market_token_side`.
pub open spec fn position_key(market_id: Seq<char>, token_id: Seq<char>, side: OrderSide) -> Seq<char> {
    market_id + "_"@ + token_id + "_"@ + side_label(side)
}

/// The refusal of a buy that costs more than the balance.
pub open spec fn insufficient_balance_message(cost: Amount, balance: Amount) -> Seq<char> {
    "Saldo tidak cukup: butuh $"@ + text_2dp_spec(cost.mantissa, cost.scale, cost.negative) + ", tersisa $"@
        + text_2dp_spec(balance.mantissa, balance.scale, balance.negative)
}

/// The refusal of a sell without a position.
pub open spec fn position_not_found_message() -> Seq<char> {
    "Posisi tidak ditemukan"@
}

/// The refusal of a sell of more shares than are held.
pub open spec fn insufficient_shares_message() -> Seq<char> {
    "Shares tidak mencukupi"@
}

/// A position after buying `shares` more for `cost`: shares are added, the average price is
/// the total cost over the new shares, and the entry value is that average times the shares.
/// None where the arithmetic fails.
pub open spec fn position_after_buy(pos: PositionView, shares: Amount, cost: Amount) -> Option<PositionView> {
    match mul_result(pos.avg_price, pos.shares) {
        None => None,
        Some(held_cost) => match add_result(held_cost, cost) {
            None => None,
            Some(total_cost) => match add_result(pos.shares, shares) {
                None => None,
                Some(new_shares) => match div_result(total_cost, new_shares) {
                    None => None,
                    Some(avg) => match mul_result(avg, new_shares) {
                        None => None,
                        Some(entry) => Some(
                            PositionView {
                                shares: new_shares,
                                avg_price: avg,
                                entry_value: entry,
                                ..pos
                            },
                        ),
                    },
                },
            },
        },
    }
}

/// The outcome of a buy: the account after it and the answer, or none where the arithmetic
/// fails (the cost, the new balance, the position's numbers or the count of buys overflow).
pub open spec fn buy_outcome(
    acct: AccountView,
    market_id: Seq<char>,
    token_id: Seq<char>,
    side: OrderSide,
    price: Amount,
    shares: Amount,
) -> Option<(AccountView, Result<(), Seq<char>>)> {
    match mul_result(price, shares) {
        None => None,
        Some(cost) => if value_lt(acct.balance, cost) {
            Some((acct, Err(insufficient_balance_message(cost, acct.balance))))
        } else if acct.trade_count == u64::MAX {
            None
        } else {
            match sub_result(acct.balance, cost) {
                None => None,
                Some(balance) => {
                    let key = position_key(market_id, token_id, side);
                    let positions = if acct.positions.contains_key(key) {
                        match position_after_buy(acct.positions[key], shares, cost) {
                            None => None,
                            Some(p) => Some(acct.positions.insert(key, p)),
                        }
                    } else {
                        Some(
                            acct.positions.insert(
                                key,
                                PositionView {
                                    market_id,
                                    token_id,
                                    side: side_label(side),
                                    shares,
                                    avg_price: price,
                                    entry_value: cost,
                                },
                            ),
                        )
                    };
                    match positions {
                        None => None,
                        Some(ps) => Some(
                            (
                                AccountView {
                                    balance,
                                    positions: ps,
                                    trade_count: (acct.trade_count + 1) as u64,
                                },
                                Ok(()),
                            ),
                        ),
                    }
                },
            }
        },
    }
}

/// The outcome of a sell, in the same way as [`buy_outcome`]: shares leave the position
/// (which goes when none are left), the price times the shares is credited to the balance.
pub open spec fn sell_outcome(
    acct: AccountView,
    market_id: Seq<char>,
    token_id: Seq<char>,
    side: OrderSide,
    price: Amount,
    shares: Amount,
) -> Option<(AccountView, Result<(), Seq<char>>)> {
    let key = position_key(market_id, token_id, side);
    if !acct.positions.contains_key(key) {
        Some((acct, Err(position_not_found_message())))
    } else {
        let pos = acct.positions[key];
        if value_lt(pos.shares, shares) {
            Some((acct, Err(insufficient_shares_message())))
        } else {
            match sub_result(pos.shares, shares) {
                None => None,
                Some(rest) => match mul_result(price, shares) {
                    None => None,
                    Some(revenue) => match add_result(acct.balance, revenue) {
                        None => None,
                        Some(balance) => if rest.mantissa == 0 {
                            Some((AccountView { balance, positions: acct.positions.remove(key), ..acct }, Ok(())))
                        } else {
                            match mul_result(pos.avg_price, rest) {
                                None => None,
                                Some(entry) => Some(
                                    (
                                        AccountView {
                                            balance,
                                            positions: acct.positions.insert(
                                                key,
                                                PositionView { shares: rest, entry_value: entry, ..pos },
                                            ),
                                            ..acct
                                        },
                                        Ok(()),
                                    ),
                                ),
                            }
                        },
                    },
                },
            }
        }
    }
}

/// The answer of an order agrees with the answer of its outcome.
pub open spec fn answer_matches(r: Result<(), String>, expected: Result<(), Seq<char>>) -> bool {
    match r {
        Ok(()) => expected is Ok,
        Err(e) => expected == Err::<(), Seq<char>>(e@),
    }
}

proof fn lemma_entry_views_len(entries: Seq<(String, PaperPosition)>)
    ensures
        entry_views(entries).len() == entries.len(),
        forall|i: int| 0 <= i < entries.len() ==> #[trigger] entry_views(entries)[i] == (entries[i].0@, entries[i].1.view()),
{
}

// ---------------------------------------------------------------------------------------------
// Executable parts
// ---------------------------------------------------------------------------------------------

/// The text of a side in a position key.
fn side_text(side: OrderSide) -> (r: String)
    ensures
        r@ == side_label(side),
{
    match side {
        OrderSide::Buy => String::from_str("YES"),
        OrderSide::Sell => String::from_str("NO"),
    }
}

/// The key of a position: `market_token_side`.
pub fn make_position_key(market_id: &str, token_id: &str, side: OrderSide) -> (r: String)
    ensures
        r@ == position_key(market_id@, token_id@, side),
{
    let mut key = String::from_str(market_id);
    key.append("_");
    key.append(token_id);
    key.append("_");
    let label = side_text(side);
    key.append(label.as_str());
    key
}

/// The index of the entry with this key, if any.
fn find_entry(entries: &Vec<(String, PaperPosition)>, key: &String) -> (r: Option<usize>)
    ensures
        match r {
            Some(i) => i < entries@.len() && entries@[i as int].0@ == key@,
            None => !has_key(entry_views(entries@), key@),
        },
{
    proof {
        lemma_entry_views_len(entries@);
    }
    let n = entries.len();
    let mut i: usize = 0;
    while i < n
        invariant
            n == entries@.len(),
            i <= n,
            forall|j: int| 0 <= j < i ==> entries@[j].0@ != key@,
            entry_views(entries@).len() == entries@.len(),
            forall|j: int| 0 <= j < entries@.len() ==> #[trigger] entry_views(entries@)[j] == (entries@[j].0@, entries@[j].1.view()),
        decreases n - i,
    {
        if entries[i].0 == *key {
            return Some(i);
        }
        i = i + 1;
    }
    proof {
        if has_key(entry_views(entries@), key@) {
            let j = choose|j: int| 0 <= j < entry_views(entries@).len() && entry_views(entries@)[j].0 == key@;
            assert(entries@[j].0@ == key@);
        }
    }
    None
}

/// The refusal of a buy that costs more than the balance.
fn insufficient_balance_text(cost: Amount, balance: Amount) -> (r: String)
    requires
        cost.wf(),
        balance.wf(),
    ensures
        r@ == insufficient_balance_message(cost, balance),
{
    let mut msg = String::from_str("Saldo tidak cukup: butuh $");
    let c = text_2dp(cost);
    msg.append(c.as_str());
    msg.append(", tersisa $");
    let b = text_2dp(balance);
    msg.append(b.as_str());
    msg
}

impl PaperAccount {
    /// An account holding `balance` and nothing else.
    pub fn new(balance: Amount) -> (r: PaperAccount)
        requires
            balance.wf(),
        ensures
            r.wf(),
            r.view().balance == balance,
            r.view().positions == Map::<Seq<char>, PositionView>::empty(),
            r.view().trade_count == 0,
    {
        let r = PaperAccount { balance, positions: Vec::new(), trade_count: 0 };
        proof {
            assert(entry_views(r.positions@) =~= Seq::empty());
            assert(entries_map(entry_views(r.positions@)) =~= Map::empty());
        }
        r
    }

    /// Whether the account is well formed: every number is a decimal and no key occurs twice.
    pub fn is_well_formed(&self) -> (r: bool)
        ensures
            r == self.wf(),
    {
        proof {
            lemma_entry_views_len(self.positions@);
        }
        if !amount_is_wf(self.balance) {
            return false;
        }
        let n = self.positions.len();
        let mut i: usize = 0;
        while i < n
            invariant
                n == self.positions@.len(),
                i <= n,
                self.balance.wf(),
                entry_views(self.positions@).len() == self.positions@.len(),
                forall|j: int| 0 <= j < self.positions@.len() ==> #[trigger] entry_views(self.positions@)[j] == (self.positions@[j].0@, self.positions@[j].1.view()),
                forall|a: int| 0 <= a < i ==> (#[trigger] self.positions@[a]).1.wf(),
                forall|a: int, b: int| 0 <= a < i && 0 <= b < n && a != b ==> self.positions@[a].0@ != self.positions@[b].0@,
            decreases n - i,
        {
            let p = &self.positions[i].1;
            if !(amount_is_wf(p.shares) && amount_is_wf(p.avg_price) && amount_is_wf(p.entry_value)) {
                return false;
            }
            let mut j: usize = 0;
            while j < n
                invariant
                    n == self.positions@.len(),
                    i < n,
                    j <= n,
                    forall|b: int| 0 <= b < j && b != i ==> self.positions@[i as int].0@ != self.positions@[b].0@,
                    entry_views(self.positions@).len() == self.positions@.len(),
                    forall|c: int| 0 <= c < self.positions@.len() ==> #[trigger] entry_views(self.positions@)[c] == (self.positions@[c].0@, self.positions@[c].1.view()),
                decreases n - j,
            {
                if j != i && self.positions[i].0 == self.positions[j].0 {
                    proof {
                        assert(entry_views(self.positions@)[i as int].0 == entry_views(self.positions@)[j as int].0);
                    }
                    return false;
                }
                j = j + 1;
            }
            i = i + 1;
        }
        true
    }
}

/// Whether a number is a decimal.
fn amount_is_wf(a: Amount) -> (r: bool)
    ensures
        r == a.wf(),
{
    -MAX_MANTISSA <= a.mantissa && a.mantissa <= MAX_MANTISSA && a.scale <= MAX_SCALE && (a.mantissa
        == 0 || a.negative == (a.mantissa < 0))
}

/// What a buy will do, worked out before the account is touched.
enum BuyPlan {
    /// The cost exceeds the balance.
    Refuse { cost: Amount },
    /// The order goes through: the new balance, and the entry to update (or none to add one)
    /// with the position's new numbers.
    Apply { cost: Amount, balance: Amount, slot: Option<usize>, shares: Amount, avg_price: Amount, entry_value: Amount },
}

/// What a sell will do, worked out before the account is touched.
enum SellPlan {
    NotFound,
    TooFew,
    /// The order goes through: the entry, the shares left, the new balance, and the new entry
    /// value (none when no shares are left and the position goes).
    Apply { slot: usize, rest: Amount, balance: Amount, entry_value: Option<Amount> },
}

impl PaperAccount {
    /// Works out a buy; none where its arithmetic fails.
    fn plan_buy(&self, key: &String, price: Amount, shares: Amount) -> (r: Option<BuyPlan>)
        requires
            self.wf(),
            price.wf(),
            shares.wf(),
        ensures
            match r {
                None => match mul_result(price, shares) {
                    None => true,
                    Some(cost) => !value_lt(self.balance, cost) && (self.trade_count == u64::MAX
                        || sub_result(self.balance, cost) is None
                        || (self.view().positions.contains_key(key@) && position_after_buy(
                        self.view().positions[key@], shares, cost) is None)),
                },
                Some(BuyPlan::Refuse { cost }) => mul_result(price, shares) == Some(cost) && value_lt(self.balance, cost),
                Some(BuyPlan::Apply { cost, balance, slot, shares: new_shares, avg_price, entry_value }) => {
                    &&& mul_result(price, shares) == Some(cost)
                    &&& !value_lt(self.balance, cost)
                    &&& self.trade_count < u64::MAX
                    &&& sub_result(self.balance, cost) == Some(balance)
                    &&& balance.wf() && new_shares.wf() && avg_price.wf() && entry_value.wf() && cost.wf()
                    &&& match slot {
                        Some(i) => {
                            &&& i < self.positions@.len()
                            &&& self.positions@[i as int].0@ == key@
                            &&& self.view().positions.contains_key(key@)
                            &&& position_after_buy(self.view().positions[key@], shares, cost) == Some(
                                PositionView { shares: new_shares, avg_price, entry_value, ..self.view().positions[key@] },
                            )
                        },
                        None => {
                            &&& !self.view().positions.contains_key(key@)
                            &&& !has_key(entry_views(self.positions@), key@)
                            &&& new_shares == shares && avg_price == price && entry_value == cost
                        },
                    }
                },
            },
    {
        proof {
            lemma_entry_views_len(self.positions@);
        }
        let cost = match checked_mul(price, shares) {
            Some(c) => c,
            None => return None,
        };
        if lt(self.balance, cost) {
            return Some(BuyPlan::Refuse { cost });
        }
        if self.trade_count == u64::MAX {
            return None;
        }
        let balance = match checked_sub(self.balance, cost) {
            Some(b) => b,
            None => return None,
        };
        match find_entry(&self.positions, key) {
            None => {
                Some(BuyPlan::Apply { cost, balance, slot: None, shares, avg_price: price, entry_value: cost })
            },
            Some(i) => {
                let pos = &self.positions[i].1;
                proof {
                    lemma_entries_map_at(entry_views(self.positions@), i as int);
                    assert(self.positions@[i as int].1.wf());
                }
                let held_cost = match checked_mul(pos.avg_price, pos.shares) {
                    Some(x) => x,
                    None => return None,
                };
                let total_cost = match checked_add(held_cost, cost) {
                    Some(x) => x,
                    None => return None,
                };
                let new_shares = match checked_add(pos.shares, shares) {
                    Some(x) => x,
                    None => return None,
                };
                let avg_price = match checked_div(total_cost, new_shares) {
                    Some(x) => x,
                    None => return None,
                };
                let entry_value = match checked_mul(avg_price, new_shares) {
                    Some(x) => x,
                    None => return None,
                };
                Some(BuyPlan::Apply { cost, balance, slot: Some(i), shares: new_shares, avg_price, entry_value })
            },
        }
    }

    /// Works out a sell; none where its arithmetic fails.
    fn plan_sell(&self, key: &String, price: Amount, shares: Amount) -> (r: Option<SellPlan>)
        requires
            self.wf(),
            price.wf(),
            shares.wf(),
        ensures
            match r {
                None => self.view().positions.contains_key(key@) && !value_lt(self.view().positions[key@].shares, shares) && (
                    match sub_result(self.view().positions[key@].shares, shares) {
                        None => true,
                        Some(rest) => match mul_result(price, shares) {
                            None => true,
                            Some(revenue) => match add_result(self.balance, revenue) {
                                None => true,
                                Some(_) => rest.mantissa != 0 && mul_result(self.view().positions[key@].avg_price, rest) is None,
                            },
                        },
                    }),
                Some(SellPlan::NotFound) => !self.view().positions.contains_key(key@),
                Some(SellPlan::TooFew) => self.view().positions.contains_key(key@) && value_lt(self.view().positions[key@].shares, shares),
                Some(SellPlan::Apply { slot, rest, balance, entry_value }) => {
                    &&& slot < self.positions@.len()
                    &&& self.positions@[slot as int].0@ == key@
                    &&& self.view().positions.contains_key(key@)
                    &&& !value_lt(self.view().positions[key@].shares, shares)
                    &&& sub_result(self.view().positions[key@].shares, shares) == Some(rest)
                    &&& mul_result(price, shares) matches Some(revenue) && add_result(self.balance, revenue) == Some(balance)
                    &&& rest.wf() && balance.wf()
                    &&& match entry_value {
                        None => rest.mantissa == 0,
                        Some(e) => rest.mantissa != 0 && mul_result(self.view().positions[key@].avg_price, rest) == Some(e) && e.wf(),
                    }
                },
            },
    {
        proof {
            lemma_entry_views_len(self.positions@);
        }
        let i = match find_entry(&self.positions, key) {
            None => return Some(SellPlan::NotFound),
            Some(i) => i,
        };
        let pos = &self.positions[i].1;
        proof {
            lemma_entries_map_at(entry_views(self.positions@), i as int);
            assert(self.positions@[i as int].1.wf());
        }
        if lt(pos.shares, shares) {
            return Some(SellPlan::TooFew);
        }
        let rest = match checked_sub(pos.shares, shares) {
            Some(x) => x,
            None => return None,
        };
        let revenue = match checked_mul(price, shares) {
            Some(x) => x,
            None => return None,
        };
        let balance = match checked_add(self.balance, revenue) {
            Some(x) => x,
            None => return None,
        };
        if rest.is_zero() {
            Some(SellPlan::Apply { slot: i, rest, balance, entry_value: None })
        } else {
            match checked_mul(pos.avg_price, rest) {
                Some(e) => Some(SellPlan::Apply { slot: i, rest, balance, entry_value: Some(e) }),
                None => None,
            }
        }
    }
}

impl PaperAccount {
    /// Carries out a buy that was worked out by `plan_buy`.
    fn apply_buy(
        &mut self,
        key: String,
        market_id: &str,
        token_id: &str,
        side: OrderSide,
        balance: Amount,
        slot: Option<usize>,
        shares: Amount,
        avg_price: Amount,
        entry_value: Amount,
    )
        requires
            old(self).wf(),
            balance.wf() && shares.wf() && avg_price.wf() && entry_value.wf(),
            old(self).trade_count < u64::MAX,
            match slot {
                Some(i) => i < old(self).positions@.len() && old(self).positions@[i as int].0@ == key@,
                None => !has_key(entry_views(old(self).positions@), key@),
            },
        ensures
            final(self).wf(),
            final(self).view() == (AccountView {
                balance,
                positions: old(self).view().positions.insert(
                    key@,
                    match slot {
                        Some(i) => PositionView { shares, avg_price, entry_value, ..old(self).view().positions[key@] },
                        None => PositionView {
                            market_id: market_id@,
                            token_id: token_id@,
                            side: side_label(side),
                            shares,
                            avg_price,
                            entry_value,
                        },
                    },
                ),
                trade_count: (old(self).trade_count + 1) as u64,
            }),
    {
        let ghost old_entries = self.positions@;
        proof {
            lemma_entry_views_len(old_entries);
        }
        match slot {
            Some(i) => {
                let old_pos = &self.positions[i].1;
                let p = PaperPosition {
                    market_id: old_pos.market_id.clone(),
                    token_id: old_pos.token_id.clone(),
                    side: old_pos.side.clone(),
                    shares,
                    avg_price,
                    entry_value,
                };
                proof {
                    lemma_entries_map_at(entry_views(old_entries), i as int);
                }
                let ghost pv = p.view();
                self.positions[i] = (key, p);
                proof {
                    lemma_entry_views_len(self.positions@);
                    assert(entry_views(self.positions@) =~= entry_views(old_entries).update(
                        i as int,
                        (entry_views(old_entries)[i as int].0, pv),
                    ));
                    lemma_entries_map_update(entry_views(old_entries), i as int, pv);
                }
            },
            None => {
                let p = PaperPosition {
                    market_id: String::from_str(market_id),
                    token_id: String::from_str(token_id),
                    side: side_text(side),
                    shares,
                    avg_price,
                    entry_value,
                };
                let ghost kv = key@;
                let ghost pv = p.view();
                self.positions.push((key, p));
                proof {
                    lemma_entry_views_len(self.positions@);
                    assert(entry_views(self.positions@) =~= entry_views(old_entries).push((kv, pv)));
                    lemma_entries_map_push(entry_views(old_entries), kv, pv);
                }
            },
        }
        self.balance = balance;
        self.trade_count = self.trade_count + 1;
    }

    /// Carries out a sell that was worked out by `plan_sell`.
    fn apply_sell(&mut self, slot: usize, rest: Amount, balance: Amount, entry_value: Option<Amount>)
        requires
            old(self).wf(),
            balance.wf() && rest.wf(),
            entry_value matches Some(e) ==> e.wf(),
            slot < old(self).positions@.len(),
        ensures
            final(self).wf(),
            final(self).view() == (AccountView {
                balance,
                positions: match entry_value {
                    None => old(self).view().positions.remove(old(self).positions@[slot as int].0@),
                    Some(e) => old(self).view().positions.insert(
                        old(self).positions@[slot as int].0@,
                        PositionView { shares: rest, entry_value: e, ..old(self).view().positions[old(self).positions@[slot as int].0@] },
                    ),
                },
                ..old(self).view()
            }),
    {
        let ghost old_entries = self.positions@;
        proof {
            lemma_entry_views_len(old_entries);
            lemma_entries_map_at(entry_views(old_entries), slot as int);
        }
        match entry_value {
            None => {
                let _ = self.positions.remove(slot);
                proof {
                    lemma_entry_views_len(self.positions@);
                    assert(entry_views(self.positions@) =~= entry_views(old_entries).remove(slot as int));
                    lemma_entries_map_remove(entry_views(old_entries), slot as int);
                }
            },
            Some(e) => {
                let old_key = self.positions[slot].0.clone();
                let old_pos = &self.positions[slot].1;
                let p = PaperPosition {
                    market_id: old_pos.market_id.clone(),
                    token_id: old_pos.token_id.clone(),
                    side: old_pos.side.clone(),
                    shares: rest,
                    avg_price: old_pos.avg_price,
                    entry_value: e,
                };
                let ghost pv = p.view();
                self.positions[slot] = (old_key, p);
                proof {
                    lemma_entry_views_len(self.positions@);
                    assert(entry_views(self.positions@) =~= entry_views(old_entries).update(
                        slot as int,
                        (entry_views(old_entries)[slot as int].0, pv),
                    ));
                    lemma_entries_map_update(entry_views(old_entries), slot as int, pv);
                }
            },
        }
        self.balance = balance;
    }
}

impl View for PaperExecutor {
    type V = AccountView;

    closed spec fn view(&self) -> AccountView {
        self.account.view()
    }
}

impl PaperExecutor {
    #[verifier::type_invariant]
    spec fn inv(self) -> bool {
        self.account.wf()
    }

    /// The path that the account is saved to.
    pub closed spec fn state_file_spec(self) -> Seq<char> {
        self.state_file@
    }

    /// A simulated account holding `initial_balance`, saved to `state_file`.
    pub fn new(initial_balance: Amount, state_file: &str) -> (r: PaperExecutor)
        requires
            initial_balance.wf(),
        ensures
            r@.balance == initial_balance,
            r@.positions == Map::<Seq<char>, PositionView>::empty(),
            r@.trade_count == 0,
            r.state_file_spec() == state_file@,
    {
        PaperExecutor { account: PaperAccount::new(initial_balance), state_file: String::from_str(state_file) }
    }

    /// The cash balance.
    pub fn get_balance(&self) -> (r: Amount)
        ensures
            r == self@.balance,
            r.wf(),
            self@.wf(),
    {
        proof {
            use_type_invariant(self);
        }
        self.account.balance
    }

    /// The account, to be saved.
    pub fn account(&self) -> (r: &PaperAccount)
        ensures
            r.view() == self@,
            r.wf(),
            self@.wf(),
    {
        proof {
            use_type_invariant(self);
        }
        &self.account
    }

    /// The path that the account is saved to.
    pub fn state_file(&self) -> (r: &String)
        ensures
            r@ == self.state_file_spec(),
    {
        &self.state_file
    }

    /// Takes a loaded account in place of the current one, if it is well formed; otherwise
    /// keeps the current one.
    pub fn load_account(&mut self, account: PaperAccount) -> (r: bool)
        ensures
            r == account.wf(),
            r ==> final(self)@ == account.view(),
            !r ==> final(self)@ == old(self)@,
            final(self).state_file_spec() == old(self).state_file_spec(),
    {
        if account.is_well_formed() {
            self.account = account;
            true
        } else {
            false
        }
    }

    /// Whether the arithmetic of this buy goes through, which `buy` asks of its caller.
    pub fn can_buy(&self, market_id: &str, token_id: &str, side: OrderSide, price: Amount, shares: Amount) -> (r: bool)
        requires
            price.wf(),
            shares.wf(),
        ensures
            r == buy_outcome(self@, market_id@, token_id@, side, price, shares) is Some,
    {
        proof {
            use_type_invariant(self);
        }
        let key = make_position_key(market_id, token_id, side);
        let plan = self.account.plan_buy(&key, price, shares);
        plan.is_some()
    }

    /// Buys `shares` of the outcome of `side` at `price`: refused when the cost exceeds the
    /// balance; otherwise the cost leaves the balance, the position under
    /// `market_token_side` gains the shares (at the averaged price) or is opened, and the
    /// count of buys goes up by one.
    pub fn buy(&mut self, market_id: &str, token_id: &str, side: OrderSide, price: Amount, shares: Amount) -> (r: Result<(), String>)
        requires
            price.wf(),
            shares.wf(),
            buy_outcome(old(self)@, market_id@, token_id@, side, price, shares) is Some,
        ensures
            match buy_outcome(old(self)@, market_id@, token_id@, side, price, shares) {
                Some((acct, answer)) => final(self)@ == acct && answer_matches(r, answer),
                None => false,
            },
            final(self).state_file_spec() == old(self).state_file_spec(),
    {
        proof {
            use_type_invariant(&*self);
        }
        let key = make_position_key(market_id, token_id, side);
        let plan = self.account.plan_buy(&key, price, shares);
        match plan {
            None => {
                proof {
                    assert(false);
                }
                Ok(())
            },
            Some(BuyPlan::Refuse { cost }) => Err(insufficient_balance_text(cost, self.account.balance)),
            Some(BuyPlan::Apply { cost, balance, slot, shares: new_shares, avg_price, entry_value }) => {
                let mut acct = PaperAccount::new(Amount { mantissa: 0, scale: 0, negative: false });
                std::mem::swap(&mut self.account, &mut acct);
                acct.apply_buy(key, market_id, token_id, side, balance, slot, new_shares, avg_price, entry_value);
                self.account = acct;
                Ok(())
            },
        }
    }

    /// A buy where its arithmetic goes through; otherwise none, with the account unchanged.
    pub fn try_buy(&mut self, market_id: &str, token_id: &str, side: OrderSide, price: Amount, shares: Amount) -> (r: Option<Result<(), String>>)
        requires
            price.wf(),
            shares.wf(),
        ensures
            match buy_outcome(old(self)@, market_id@, token_id@, side, price, shares) {
                Some((acct, answer)) => r matches Some(x) && final(self)@ == acct && answer_matches(x, answer),
                None => r is None && final(self)@ == old(self)@,
            },
            final(self).state_file_spec() == old(self).state_file_spec(),
    {
        if self.can_buy(market_id, token_id, side, price, shares) {
            Some(self.buy(market_id, token_id, side, price, shares))
        } else {
            None
        }
    }

    /// Whether the arithmetic of this sell goes through, which `sell` asks of its caller.
    pub fn can_sell(&self, market_id: &str, token_id: &str, side: OrderSide, price: Amount, shares: Amount) -> (r: bool)
        requires
            price.wf(),
            shares.wf(),
        ensures
            r == sell_outcome(self@, market_id@, token_id@, side, price, shares) is Some,
    {
        proof {
            use_type_invariant(self);
        }
        let key = make_position_key(market_id, token_id, side);
        let plan = self.account.plan_sell(&key, price, shares);
        plan.is_some()
    }

    /// Sells `shares` of the position under `market_token_side` at `price`: refused when
    /// there is no such position or it holds fewer shares; otherwise the shares leave the
    /// position (which is closed when none are left, else its entry value is its average
    /// price times the shares left) and the price times the shares is credited to the balance.
    pub fn sell(&mut self, market_id: &str, token_id: &str, side: OrderSide, price: Amount, shares: Amount) -> (r: Result<(), String>)
        requires
            price.wf(),
            shares.wf(),
            sell_outcome(old(self)@, market_id@, token_id@, side, price, shares) is Some,
        ensures
            match sell_outcome(old(self)@, market_id@, token_id@, side, price, shares) {
                Some((acct, answer)) => final(self)@ == acct && answer_matches(r, answer),
                None => false,
            },
            final(self).state_file_spec() == old(self).state_file_spec(),
    {
        proof {
            use_type_invariant(&*self);
        }
        let key = make_position_key(market_id, token_id, side);
        let plan = self.account.plan_sell(&key, price, shares);
        match plan {
            None => {
                proof {
                    assert(false);
                }
                Ok(())
            },
            Some(SellPlan::NotFound) => Err(String::from_str("Posisi tidak ditemukan")),
            Some(SellPlan::TooFew) => Err(String::from_str("Shares tidak mencukupi")),
            Some(SellPlan::Apply { slot, rest, balance, entry_value }) => {
                let mut acct = PaperAccount::new(Amount { mantissa: 0, scale: 0, negative: false });
                std::mem::swap(&mut self.account, &mut acct);
                acct.apply_sell(slot, rest, balance, entry_value);
                self.account = acct;
                Ok(())
            },
        }
    }

    /// A sell where its arithmetic goes through; otherwise none, with the account unchanged.
    pub fn try_sell(&mut self, market_id: &str, token_id: &str, side: OrderSide, price: Amount, shares: Amount) -> (r: Option<Result<(), String>>)
        requires
            price.wf(),
            shares.wf(),
        ensures
            match sell_outcome(old(self)@, market_id@, token_id@, side, price, shares) {
                Some((acct, answer)) => r matches Some(x) && final(self)@ == acct && answer_matches(x, answer),
                None => r is None && final(self)@ == old(self)@,
            },
            final(self).state_file_spec() == old(self).state_file_spec(),
    {
        if self.can_sell(market_id, token_id, side, price, shares) {
            Some(self.sell(market_id, token_id, side, price, shares))
        } else {
            None
        }
    }
}

} // verus!
