//! The decisions of the pool of market-feed connections: which venue each connection serves,
//! where it connects, what a price message carries, and which updates are new enough to pass on.
use crate::json::{
    get_spec, is_text, json_from_text, number_at, parse_json_text, str_at, text_value, JsonNumber, JsonValue,
};
use dashmap::DashMap;
use crate::text::texts;
use vstd::prelude::*;
use vstd::string::*;

verus! {

/// The number of connections of the default pool.
pub const DEFAULT_POOL_SIZE: u32 = 5u32;

/// The venues of the default pool, one per connection.
pub open spec fn default_venues_spec() -> Seq<Seq<char>> {
    seq!["polymarket"@, "polymarket"@, "kalshi"@, "smarkets"@, "polymarket"@]
}

/// The venues of the default pool, one per connection.
pub fn default_venues() -> (r: Vec<String>)
    ensures
        texts(r@) == default_venues_spec(),
{
    let mut v: Vec<String> = Vec::new();
    v.push(String::from_str("polymarket"));
    v.push(String::from_str("polymarket"));
    v.push(String::from_str("kalshi"));
    v.push(String::from_str("smarkets"));
    v.push(String::from_str("polymarket"));
    proof {
        assert(texts(v@) =~= default_venues_spec());
    }
    v
}

/// The address that a connection to `venue` opens.
pub open spec fn venue_ws_url_spec(venue: Seq<char>) -> Seq<char> {
    if venue == "polymarket"@ {
        "wss://ws-subscriptions-clob.polymarket.com/ws/market"@
    } else if venue == "kalshi"@ {
        "wss://trading-api.kalshi.com/trade/ws"@
    } else if venue == "smarkets"@ {
        "wss://ws-api.smarkets.com/v2/"@
    } else {
        "wss://api.pmxt.dev/ws"@
    }
}

/// The address that a connection to `venue` opens.
pub fn venue_ws_url(venue: &str) -> (r: String)
    ensures
        r@ == venue_ws_url_spec(venue@),
{
    let v = String::from_str(venue);
    if v == String::from_str("polymarket") {
        String::from_str("wss://ws-subscriptions-clob.polymarket.com/ws/market")
    } else if v == String::from_str("kalshi") {
        String::from_str("wss://trading-api.kalshi.com/trade/ws")
    } else if v == String::from_str("smarkets") {
        String::from_str("wss://ws-api.smarkets.com/v2/")
    } else {
        String::from_str("wss://api.pmxt.dev/ws")
    }
}

/// The venue of each of `count` connections: connection `i` serves venue `i` modulo the
/// number of venues.
pub fn connection_venues(count: u32, venues: &Vec<String>) -> (r: Vec<String>)
    requires
        count == 0 || venues@.len() > 0,
    ensures
        r@.len() == count,
        forall|i: int| 0 <= i < count ==> #[trigger] r@[i]@ == venues@[i % venues@.len() as int]@,
{
    let mut out: Vec<String> = Vec::new();
    let mut i: u32 = 0;
    while i < count
        invariant
            i <= count,
            count == 0 || venues@.len() > 0,
            out@.len() == i,
            forall|j: int| 0 <= j < i ==> #[trigger] out@[j]@ == venues@[j % venues@.len() as int]@,
        decreases count - i,
    {
        let k = (i as usize) % venues.len();
        out.push(venues[k].clone());
        i = i + 1;
    }
    out
}

/// The key under which the latest update of a market's token is kept: `market_token`.
pub open spec fn cache_key_spec(market_id: Seq<char>, token_id: Seq<char>) -> Seq<char> {
    market_id + "_"@ + token_id
}

/// The key under which the latest update of a market's token is kept.
pub fn cache_key(market_id: &str, token_id: &str) -> (r: String)
    ensures
        r@ == cache_key_spec(market_id@, token_id@),
{
    let mut key = String::from_str(market_id);
    key.append("_");
    key.append(token_id);
    key
}

/// What a price message of the pool carries: a market, a token and a number.
#[derive(Debug)]
pub struct PmxtQuote {
    pub market_id: String,
    pub token_id: String,
    pub price: JsonNumber,
}

/// The part of a message that carries the price: its `price` member, or else its `data`
/// member.
pub open spec fn quote_payload(data: JsonValue) -> Option<JsonValue> {
    match get_spec(data, "price"@) {
        Some(p) => Some(p),
        None => get_spec(data, "data"@),
    }
}

/// The quote that a message carries: the payload's `market_id` and `token_id` texts and its
/// `price` number; none where any is missing or not of its kind.
pub open spec fn quote_spec(data: JsonValue) -> Option<(Seq<char>, Seq<char>, JsonNumber)> {
    match quote_payload(data) {
        None => None,
        Some(p) => match (str_at(p, "market_id"@), str_at(p, "token_id"@), number_at(p, "price"@)) {
            (Some(market), Some(token), Some(price)) => Some((market, token, price)),
            _ => None,
        },
    }
}

/// The text under `key`, where there is one.
fn text_at(value: &JsonValue, key: &str) -> (r: Option<String>)
    ensures
        match r {
            Some(t) => str_at(*value, key@) == Some(t@),
            None => str_at(*value, key@) is None,
        },
{
    match value.get(key) {
        Some(v) => match v.as_str() {
            Some(t) => Some(String::from_str(t)),
            None => None,
        },
        None => None,
    }
}

/// The quote that a message of the pool carries, if it carries one.
pub fn parse_quote(data: &JsonValue) -> (r: Option<PmxtQuote>)
    ensures
        match r {
            Some(q) => quote_spec(*data) == Some((q.market_id@, q.token_id@, q.price)),
            None => quote_spec(*data) is None,
        },
{
    let payload = match data.get("price") {
        Some(p) => p,
        None => match data.get("data") {
            Some(p) => p,
            None => return None,
        },
    };
    let market_id = match text_at(payload, "market_id") {
        Some(t) => t,
        None => return None,
    };
    let token_id = match text_at(payload, "token_id") {
        Some(t) => t,
        None => return None,
    };
    let price = match payload.get("price") {
        Some(v) => match v.as_number() {
            Some(n) => n,
            None => return None,
        },
        None => return None,
    };
    Some(PmxtQuote { market_id, token_id, price })
}

/// The quote that a text message of the pool carries: none where the text is not JSON.
pub open spec fn quote_message_spec(text: Seq<char>) -> Option<(Seq<char>, Seq<char>, JsonNumber)> {
    match json_from_text(text) {
        Some(data) => quote_spec(data),
        None => None,
    }
}

/// The quote that a text message of the pool carries, if it is JSON and carries one.
pub fn decode_quote(text: &str) -> (r: Option<PmxtQuote>)
    ensures
        match r {
            Some(q) => quote_message_spec(text@) == Some((q.market_id@, q.token_id@, q.price)),
            None => quote_message_spec(text@) is None,
        },
{
    match parse_json_text(text) {
        Some(data) => parse_quote(&data),
        None => None,
    }
}

/// The message that subscribes a connection to a market's tokens:
/// `{"market_id": .., "token_ids": [..], "type": "subscribe"}`.
pub open spec fn is_market_subscription(msg: JsonValue, market_id: Seq<char>, token_ids: Seq<Seq<char>>) -> bool {
    msg matches JsonValue::Object(members) && members@.len() == 3 && {
        &&& members@[0].0@ == "market_id"@
        &&& is_text(members@[0].1, market_id)
        &&& members@[1].0@ == "token_ids"@
        &&& members@[1].1 matches JsonValue::Array(items) && items@.len() == token_ids.len() && forall|i: int|
            0 <= i < token_ids.len() ==> is_text(#[trigger] items@[i], token_ids[i])
        &&& members@[2].0@ == "type"@
        &&& is_text(members@[2].1, "subscribe"@)
    }
}

/// The message that subscribes a connection to a market's tokens.
pub fn subscribe_message(market_id: &str, token_ids: &Vec<String>) -> (r: JsonValue)
    ensures
        is_market_subscription(r, market_id@, texts(token_ids@)),
{
    let mut items: Vec<JsonValue> = Vec::new();
    let n = token_ids.len();
    let mut i: usize = 0;
    while i < n
        invariant
            n == token_ids@.len(),
            i <= n,
            items@.len() == i,
            forall|j: int| 0 <= j < i ==> is_text(#[trigger] items@[j], token_ids@[j]@),
        decreases n - i,
    {
        items.push(text_value(token_ids[i].as_str()));
        i = i + 1;
    }
    let mut members: Vec<(String, JsonValue)> = Vec::new();
    members.push((String::from_str("market_id"), text_value(market_id)));
    members.push((String::from_str("token_ids"), JsonValue::Array(items)));
    members.push((String::from_str("type"), text_value("subscribe")));
    JsonValue::Object(members)
}

/// A moment, as seconds and nanoseconds since the Unix epoch.
#[derive(Clone, Copy, Debug, PartialEq, Eq, Structural)]
pub struct Timestamp {
    pub secs: i64,
    pub nanos: u32,
}

/// `a` is earlier than `b`.
pub open spec fn earlier(a: Timestamp, b: Timestamp) -> bool {
    a.secs < b.secs || (a.secs == b.secs && a.nanos < b.nanos)
}

/// `a` is earlier than `b`.
pub fn is_earlier(a: Timestamp, b: Timestamp) -> (r: bool)
    ensures
        r == earlier(a, b),
{
    a.secs < b.secs || (a.secs == b.secs && a.nanos < b.nanos)
}

/// The times that a map of the price cache keeps, by key.
pub uninterp spec fn kept_times(map: DashMap<String, Timestamp>) -> Map<Seq<char>, Timestamp>;

/// `DashMap::new`. Trusted: the new map keeps nothing.
#[verifier::external_body]
fn empty_time_map() -> (r: DashMap<String, Timestamp>)
    ensures
        kept_times(r) =~= Map::empty(),
{
    DashMap::new()
}

/// `DashMap::get`, the time copied out of the guard. Trusted: it is the time kept under the
/// key, and there is none exactly where nothing is kept under it.
#[verifier::external_body]
fn kept_time(map: &DashMap<String, Timestamp>, key: &String) -> (r: Option<Timestamp>)
    ensures
        match r {
            Some(t) => kept_times(*map).contains_key(key@) && kept_times(*map)[key@] == t,
            None => !kept_times(*map).contains_key(key@),
        },
{
    map.get(key).map(|e| *e.value())
}

/// `DashMap::insert`, whose answer (the time it replaced) is dropped. Trusted: afterwards the
/// map keeps `time` under the key and is otherwise unchanged. The map is taken by `&mut` so
/// that the change is stated; the outside method needs only `&`.
#[verifier::external_body]
fn keep_time(map: &mut DashMap<String, Timestamp>, key: String, time: Timestamp)
    ensures
        kept_times(*final(map)) == kept_times(*old(map)).insert(key@, time),
{
    map.insert(key, time);
}

/// The time of the latest update passed on, for each market's token.
pub struct PriceCache {
    entries: DashMap<String, Timestamp>,
}

/// What offering an update at `time` under `key` does to the cache: it is passed on, and
/// kept, when the cache holds nothing under the key or an earlier time; otherwise it is
/// dropped.
pub open spec fn offer_outcome(cache: Map<Seq<char>, Timestamp>, key: Seq<char>, time: Timestamp) -> (Map<Seq<char>, Timestamp>, bool) {
    if !cache.contains_key(key) || earlier(cache[key], time) {
        (cache.insert(key, time), true)
    } else {
        (cache, false)
    }
}

impl View for PriceCache {
    type V = Map<Seq<char>, Timestamp>;

    closed spec fn view(&self) -> Map<Seq<char>, Timestamp> {
        kept_times(self.entries)
    }
}

impl PriceCache {
    /// An empty cache.
    pub fn new() -> (r: PriceCache)
        ensures
            r@ == Map::<Seq<char>, Timestamp>::empty(),
    {
        PriceCache { entries: empty_time_map() }
    }

    /// The time kept under `key`, if any.
    pub fn get(&self, key: &String) -> (r: Option<Timestamp>)
        ensures
            match r {
                Some(t) => self@.contains_key(key@) && self@[key@] == t,
                None => !self@.contains_key(key@),
            },
    {
        kept_time(&self.entries, key)
    }

    /// Offers an update made at `time` for the token under `key`: it is passed on (true) and
    /// its time kept when nothing is kept under the key or an earlier time is; otherwise it is
    /// dropped (false) and the cache is unchanged.
    pub fn offer(&mut self, key: String, time: Timestamp) -> (r: bool)
        ensures
            (final(self)@, r) == offer_outcome(old(self)@, key@, time),
    {
        let pass = match kept_time(&self.entries, &key) {
            Some(kept) => is_earlier(kept, time),
            None => true,
        };
        if pass {
            keep_time(&mut self.entries, key, time);
        }
        pass
    }
}

/// Offering an update never moves a kept time back: every key stays, with a time no earlier
/// than before, and the offered key ends up with the later of its kept time and the offered one.
pub proof fn law_offer_keeps_latest(cache: Map<Seq<char>, Timestamp>, key: Seq<char>, time: Timestamp)
    ensures
        ({
            let (after, passed) = offer_outcome(cache, key, time);
            &&& forall|k: Seq<char>| #[trigger] cache.contains_key(k) ==> after.contains_key(k) && !earlier(after[k], cache[k])
            &&& after.contains_key(key)
            &&& !earlier(after[key], time)
            &&& passed <==> after[key] == time && (cache.contains_key(key) ==> earlier(cache[key], time))
            &&& after.dom() == cache.dom().insert(key)
        }),
{
    let (after, passed) = offer_outcome(cache, key, time);
    assert(after.dom() =~= cache.dom().insert(key));
}

/// The cache after a run of offers, and for each offer whether it was passed on.
pub open spec fn offer_run(cache: Map<Seq<char>, Timestamp>, offers: Seq<(Seq<char>, Timestamp)>) -> (Map<Seq<char>, Timestamp>, Seq<bool>)
    decreases offers.len(),
{
    if offers.len() == 0 {
        (cache, Seq::empty())
    } else {
        let (before, passed) = offer_run(cache, offers.drop_last());
        let (after, p) = offer_outcome(before, offers.last().0, offers.last().1);
        (after, passed.push(p))
    }
}

/// `b` is not earlier than `a`.
pub open spec fn not_before(a: Timestamp, b: Timestamp) -> bool {
    !earlier(b, a)
}

/// Over a run of offers, the updates passed on under one key come with strictly increasing
/// times, each later than the time the cache held under that key before the run; and at the
/// end the cache holds under each key the time of the last update passed on under it.
pub proof fn law_offers_pass_increasing_times(cache: Map<Seq<char>, Timestamp>, offers: Seq<(Seq<char>, Timestamp)>)
    ensures
        ({
            let (after, passed) = offer_run(cache, offers);
            &&& passed.len() == offers.len()
            &&& forall|i: int, j: int|
                0 <= i < j < offers.len() && passed[i] && passed[j] && offers[i].0 == offers[j].0
                    ==> #[trigger] earlier(offers[i].1, offers[j].1)
            &&& forall|i: int|
                0 <= i < offers.len() && #[trigger] passed[i] && cache.contains_key(offers[i].0)
                    ==> earlier(cache[offers[i].0], offers[i].1)
            &&& forall|i: int|
                0 <= i < offers.len() && #[trigger] passed[i] && (forall|j: int|
                    i < j < offers.len() && passed[j] ==> offers[j].0 != offers[i].0)
                    ==> after.contains_key(offers[i].0) && after[offers[i].0] == offers[i].1
        }),
{
    lemma_offer_run(cache, offers);
}

proof fn lemma_offer_run(cache: Map<Seq<char>, Timestamp>, offers: Seq<(Seq<char>, Timestamp)>)
    ensures
        ({
            let (after, passed) = offer_run(cache, offers);
            &&& passed.len() == offers.len()
            &&& forall|k: Seq<char>| #[trigger] cache.contains_key(k) ==> after.contains_key(k) && not_before(cache[k], after[k])
            &&& forall|i: int|
                0 <= i < offers.len() && #[trigger] passed[i] ==> after.contains_key(offers[i].0) && not_before(offers[i].1, after[offers[i].0])
            &&& forall|i: int, j: int|
                0 <= i < j < offers.len() && passed[i] && passed[j] && offers[i].0 == offers[j].0
                    ==> #[trigger] earlier(offers[i].1, offers[j].1)
            &&& forall|i: int|
                0 <= i < offers.len() && #[trigger] passed[i] && cache.contains_key(offers[i].0)
                    ==> earlier(cache[offers[i].0], offers[i].1)
            &&& forall|i: int|
                0 <= i < offers.len() && #[trigger] passed[i] && (forall|j: int|
                    i < j < offers.len() && passed[j] ==> offers[j].0 != offers[i].0)
                    ==> after.contains_key(offers[i].0) && after[offers[i].0] == offers[i].1
        }),
    decreases offers.len(),
{
    if offers.len() > 0 {
        let init = offers.drop_last();
        lemma_offer_run(cache, init);
        let (before, passed0) = offer_run(cache, init);
        let (after, passed) = offer_run(cache, offers);
        let n = offers.len() - 1;
        let (key, time) = offers.last();
        let p = offer_outcome(before, key, time).1;
        assert(passed == passed0.push(p));
        assert(after == offer_outcome(before, key, time).0);
        assert forall|i: int| 0 <= i < n implies #[trigger] offers[i] == init[i] && passed[i] == passed0[i] by {}
        assert forall|k: Seq<char>| #[trigger] cache.contains_key(k) implies after.contains_key(k) && not_before(cache[k], after[k]) by {
            assert(before.contains_key(k));
        }
        assert forall|i: int| 0 <= i < offers.len() && #[trigger] passed[i] implies after.contains_key(offers[i].0) && not_before(offers[i].1, after[offers[i].0]) by {
            if i < n {
                assert(offers[i] == init[i] && passed[i] == passed0[i]);
            }
        }
        assert forall|i: int, j: int|
            0 <= i < j < offers.len() && passed[i] && passed[j] && offers[i].0 == offers[j].0
            implies #[trigger] earlier(offers[i].1, offers[j].1) by {
            assert(offers[i] == init[i] && passed[i] == passed0[i]);
            if j < n {
                assert(offers[j] == init[j] && passed[j] == passed0[j]);
            }
        }
        assert forall|i: int|
            0 <= i < offers.len() && #[trigger] passed[i] && cache.contains_key(offers[i].0)
            implies earlier(cache[offers[i].0], offers[i].1) by {
            if i < n {
                assert(offers[i] == init[i] && passed[i] == passed0[i]);
            } else {
                assert(before.contains_key(key));
            }
        }
        assert forall|i: int|
            0 <= i < offers.len() && #[trigger] passed[i] && (forall|j: int|
                i < j < offers.len() && passed[j] ==> offers[j].0 != offers[i].0)
            implies after.contains_key(offers[i].0) && after[offers[i].0] == offers[i].1 by {
            if i < n {
                assert(offers[i] == init[i] && passed[i] == passed0[i]);
                assert forall|j: int| i < j < init.len() && passed0[j] implies init[j].0 != init[i].0 by {
                    assert(offers[j] == init[j] && passed[j] == passed0[j]);
                }
                if p {
                    assert(passed[n]);
                    assert(offers[n].0 != offers[i].0);
                }
            }
        }
    }
}

} // verus!
