use polymarket_rn2_bot::client::pmxt_ws_pool::{
    cache_key, connection_venues, default_venues, parse_quote, subscribe_message, venue_ws_url, PriceCache, Timestamp,
    DEFAULT_POOL_SIZE,
};
use polymarket_rn2_bot::client::sports_ws::{match_from_record, parse_sport_data, sports_ws_url};
use polymarket_rn2_bot::client::websocket::{market_subscription, parse_price_update};
use polymarket_rn2_bot::decimal::Amount;
use polymarket_rn2_bot::json::{JsonNumber, JsonValue};

fn s(t: &str) -> JsonValue {
    JsonValue::String(t.to_string())
}

fn obj(members: Vec<(&str, JsonValue)>) -> JsonValue {
    JsonValue::Object(members.into_iter().map(|(k, v)| (k.to_string(), v)).collect())
}

fn text_of(v: &JsonValue) -> Option<&str> {
    match v {
        JsonValue::String(t) => Some(t.as_str()),
        _ => None,
    }
}

#[test]
fn json_lookups() {
    let v = obj(vec![("a", s("x")), ("n", JsonValue::Number(JsonNumber::PosInt(7))), ("b", JsonValue::Bool(true))]);
    assert_eq!(v.get("a").and_then(|x| x.as_str()), Some("x"));
    assert_eq!(v.get("n").and_then(|x| x.as_u64()), Some(7));
    assert_eq!(v.get("b").and_then(|x| x.as_bool()), Some(true));
    assert!(v.get("zz").is_none());
    assert!(s("x").get("a").is_none());
    assert_eq!(JsonValue::Number(JsonNumber::NegInt(-3)).as_u64(), None);
}

#[test]
fn record_fields_fall_back_to_defaults() {
    let rec = obj(vec![("gameId", JsonValue::Number(JsonNumber::PosInt(42))), ("slug", s("ars-che"))]);
    let m = match_from_record(&rec).unwrap();
    assert_eq!(m.game_id, 42);
    assert_eq!(m.slug, "ars-che");
    assert_eq!(m.home_team, "Unknown");
    assert_eq!(m.away_team, "Unknown");
    assert_eq!(m.score, "0-0");
    assert_eq!(m.period, "");
    assert_eq!(m.elapsed, "0");
    assert_eq!(m.status, "Scheduled");
    assert!(!m.live);
}

#[test]
fn record_without_numeric_game_id_is_skipped() {
    assert!(match_from_record(&obj(vec![("gameId", s("42"))])).is_none());
    assert!(match_from_record(&obj(vec![("slug", s("x"))])).is_none());
}

#[test]
fn sport_data_keeps_described_matches_in_order() {
    let full = obj(vec![
        ("gameId", JsonValue::Number(JsonNumber::PosInt(1))),
        ("slug", s("a")),
        ("homeTeam", s("Home")),
        ("awayTeam", s("Away")),
        ("score", s("2-1")),
        ("period", s("2H")),
        ("elapsed", s("67")),
        ("status", s("InProgress")),
        ("live", JsonValue::Bool(true)),
    ]);
    let skipped = obj(vec![("slug", s("b"))]);
    let second = obj(vec![("gameId", JsonValue::Number(JsonNumber::PosInt(2))), ("homeTeam", JsonValue::Number(JsonNumber::PosInt(5)))]);
    let data = obj(vec![("records", JsonValue::Array(vec![full, skipped, second]))]);
    let out = parse_sport_data(&data);
    assert_eq!(out.len(), 2);
    assert_eq!(out[0].game_id, 1);
    assert_eq!(out[0].home_team, "Home");
    assert_eq!(out[0].score, "2-1");
    assert!(out[0].live);
    assert_eq!(out[1].game_id, 2);
    assert_eq!(out[1].home_team, "Unknown");
    assert!(parse_sport_data(&obj(vec![("records", s("none"))])).is_empty());
    assert!(parse_sport_data(&JsonValue::Null).is_empty());
    assert_eq!(sports_ws_url(), "wss://sports-api.polymarket.com/ws");
}

#[test]
fn price_update_from_price_or_data() {
    let payload = obj(vec![("market", s("m")), ("token_id", s("t")), ("price", s("0.515"))]);
    let u = parse_price_update(&obj(vec![("data", payload)])).unwrap();
    assert_eq!(u.market_id, "m");
    assert_eq!(u.token_id, "t");
    assert_eq!(u.price, Amount { mantissa: 515, scale: 3, negative: false });
    let payload = obj(vec![("market", s("m")), ("token_id", s("t")), ("price", s("0.5"))]);
    assert!(parse_price_update(&obj(vec![("price", payload)])).is_some());
}

#[test]
fn price_member_shadows_data_member() {
    let payload = obj(vec![("market", s("m")), ("token_id", s("t")), ("price", s("0.5"))]);
    let data = obj(vec![("data", payload), ("price", s("0.7"))]);
    assert!(parse_price_update(&data).is_none());
}

#[test]
fn price_update_needs_readable_price_text() {
    let payload = obj(vec![("market", s("m")), ("token_id", s("t")), ("price", s("abc"))]);
    assert!(parse_price_update(&obj(vec![("data", payload)])).is_none());
    let payload = obj(vec![("market", s("m")), ("token_id", s("t")), ("price", JsonValue::Number(JsonNumber::PosInt(1)))]);
    assert!(parse_price_update(&obj(vec![("data", payload)])).is_none());
}

#[test]
fn market_subscription_message() {
    match market_subscription() {
        JsonValue::Object(members) => {
            assert_eq!(members.len(), 2);
            assert_eq!(members[0].0, "channels");
            match &members[0].1 {
                JsonValue::Array(items) => assert_eq!(items.iter().map(|v| text_of(v)).collect::<Vec<_>>(), vec![Some("market")]),
                _ => panic!("channels is not an array"),
            }
            assert_eq!(members[1].0, "type");
            assert_eq!(text_of(&members[1].1), Some("subscribe"));
        }
        _ => panic!("not an object"),
    }
}

#[test]
fn quote_reads_numeric_price() {
    let payload = obj(vec![("market_id", s("m")), ("token_id", s("t")), ("price", JsonValue::Number(JsonNumber::Float(0.25f64.to_bits())))]);
    let q = parse_quote(&obj(vec![("price", payload)])).unwrap();
    assert_eq!(q.market_id, "m");
    assert_eq!(q.token_id, "t");
    assert_eq!(q.price, JsonNumber::Float(0.25f64.to_bits()));
    let payload = obj(vec![("market_id", s("m")), ("token_id", s("t")), ("price", s("0.25"))]);
    assert!(parse_quote(&obj(vec![("data", payload)])).is_none());
}

#[test]
fn venues_and_addresses() {
    assert_eq!(DEFAULT_POOL_SIZE, 5);
    assert_eq!(default_venues(), vec!["polymarket", "polymarket", "kalshi", "smarkets", "polymarket"]);
    let venues = vec!["a".to_string(), "b".to_string()];
    assert_eq!(connection_venues(5, &venues), vec!["a", "b", "a", "b", "a"]);
    assert!(connection_venues(0, &vec![]).is_empty());
    assert_eq!(venue_ws_url("polymarket"), "wss://ws-subscriptions-clob.polymarket.com/ws/market");
    assert_eq!(venue_ws_url("kalshi"), "wss://trading-api.kalshi.com/trade/ws");
    assert_eq!(venue_ws_url("smarkets"), "wss://ws-api.smarkets.com/v2/");
    assert_eq!(venue_ws_url("other"), "wss://api.pmxt.dev/ws");
    assert_eq!(cache_key("m", "t"), "m_t");
}

#[test]
fn pool_subscription_message() {
    let tokens = vec!["t1".to_string(), "t2".to_string()];
    match subscribe_message("m", &tokens) {
        JsonValue::Object(members) => {
            let keys: Vec<&str> = members.iter().map(|(k, _)| k.as_str()).collect();
            assert_eq!(keys, vec!["market_id", "token_ids", "type"]);
            assert_eq!(text_of(&members[0].1), Some("m"));
            match &members[1].1 {
                JsonValue::Array(items) => assert_eq!(items.iter().map(|v| text_of(v)).collect::<Vec<_>>(), vec![Some("t1"), Some("t2")]),
                _ => panic!("token_ids is not an array"),
            }
            assert_eq!(text_of(&members[2].1), Some("subscribe"));
        }
        _ => panic!("not an object"),
    }
}

#[test]
fn cache_passes_only_newer_updates() {
    let mut cache = PriceCache::new();
    let t = |secs: i64, nanos: u32| Timestamp { secs, nanos };
    assert!(cache.offer(cache_key("m", "t"), t(10, 5)));
    assert!(!cache.offer(cache_key("m", "t"), t(10, 5)));
    assert!(!cache.offer(cache_key("m", "t"), t(9, 999)));
    assert_eq!(cache.get(&"m_t".to_string()), Some(t(10, 5)));
    assert!(cache.offer(cache_key("m", "t"), t(10, 6)));
    assert_eq!(cache.get(&"m_t".to_string()), Some(t(10, 6)));
    assert!(cache.offer(cache_key("m", "u"), t(1, 0)));
    assert_eq!(cache.get(&"m_u".to_string()), Some(t(1, 0)));
    assert_eq!(cache.get(&"x".to_string()), None);
}
