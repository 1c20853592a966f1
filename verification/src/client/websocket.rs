//! Decoding the price messages of the market feed, and the message that subscribes to it.
use crate::decimal::{decimal_from_str, lift, parse, Amount};
use crate::json::{get_spec, is_text, json_from_text, parse_json_text, str_at, text_value, JsonValue};
use vstd::prelude::*;
use vstd::string::*;

verus! {

/// A new price of one outcome token of a market.
#[derive(Clone, Debug)]
pub struct PriceUpdate {
    pub market_id: String,
    pub token_id: String,
    pub price: Amount,
}

/// The part of a feed message that carries the price: its `price` member, or else its `data`
/// member.
pub open spec fn price_payload(data: JsonValue) -> Option<JsonValue> {
    match get_spec(data, "price"@) {
        Some(p) => Some(p),
        None => get_spec(data, "data"@),
    }
}

/// The update that a feed message carries: the payload's `market` and `token_id` texts and its
/// `price` text read as a decimal; none where any of them is missing or does not read.
pub open spec fn price_update_spec(data: JsonValue) -> Option<(Seq<char>, Seq<char>, Amount)> {
    match price_payload(data) {
        None => None,
        Some(p) => match (str_at(p, "market"@), str_at(p, "token_id"@), str_at(p, "price"@)) {
            (Some(market), Some(token), Some(text)) => match lift(decimal_from_str(text)) {
                Some(price) => Some((market, token, price)),
                None => None,
            },
            _ => None,
        },
    }
}

/// The text under `key`, where there is one.
fn text_at(value: &JsonValue, key: &str) -> (r: Option<String>)
    ensures
        match r {
            Some(t) => str_at(*value, key@) == Some(t@),
            None => str_at(*value, key@) is None,
        },
{
    match value.get(key) {
        Some(v) => match v.as_str() {
            Some(t) => Some(String::from_str(t)),
            None => None,
        },
        None => None,
    }
}

/// The price update that a message of the market feed carries, if it carries one.
pub fn parse_price_update(data: &JsonValue) -> (r: Option<PriceUpdate>)
    ensures
        match r {
            Some(u) => price_update_spec(*data) == Some((u.market_id@, u.token_id@, u.price)),
            None => price_update_spec(*data) is None,
        },
{
    let payload = match data.get("price") {
        Some(p) => p,
        None => match data.get("data") {
            Some(p) => p,
            None => return None,
        },
    };
    let market_id = match text_at(payload, "market") {
        Some(t) => t,
        None => return None,
    };
    let token_id = match text_at(payload, "token_id") {
        Some(t) => t,
        None => return None,
    };
    let text = match text_at(payload, "price") {
        Some(t) => t,
        None => return None,
    };
    match parse(text.as_str()) {
        Some(price) => Some(PriceUpdate { market_id, token_id, price }),
        None => None,
    }
}

/// The update that a text message of the market feed carries: none where the text is not JSON.
pub open spec fn price_message_spec(text: Seq<char>) -> Option<(Seq<char>, Seq<char>, Amount)> {
    match json_from_text(text) {
        Some(data) => price_update_spec(data),
        None => None,
    }
}

/// The price update that a text message of the market feed carries, if it is JSON and carries
/// one.
pub fn decode_price_message(text: &str) -> (r: Option<PriceUpdate>)
    ensures
        match r {
            Some(u) => price_message_spec(text@) == Some((u.market_id@, u.token_id@, u.price)),
            None => price_message_spec(text@) is None,
        },
{
    match parse_json_text(text) {
        Some(data) => parse_price_update(&data),
        None => None,
    }
}

/// The message that subscribes to the market channel:
/// `{"channels": ["market"], "type": "subscribe"}`.
pub open spec fn is_market_subscription(msg: JsonValue) -> bool {
    msg matches JsonValue::Object(members) && members@.len() == 2 && {
        &&& members@[0].0@ == "channels"@
        &&& members@[0].1 matches JsonValue::Array(items) && items@.len() == 1 && is_text(items@[0], "market"@)
        &&& members@[1].0@ == "type"@
        &&& is_text(members@[1].1, "subscribe"@)
    }
}

/// The message that subscribes to the market channel.
pub fn market_subscription() -> (r: JsonValue)
    ensures
        is_market_subscription(r),
{
    let mut channels: Vec<JsonValue> = Vec::new();
    channels.push(text_value("market"));
    let mut members: Vec<(String, JsonValue)> = Vec::new();
    members.push((String::from_str("channels"), JsonValue::Array(channels)));
    members.push((String::from_str("type"), text_value("subscribe")));
    JsonValue::Object(members)
}

} // verus!
