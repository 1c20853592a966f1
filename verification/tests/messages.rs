use polymarket_rn2_bot::client::pmxt_ws_pool::{decode_quote, PriceCache, Timestamp};
use polymarket_rn2_bot::client::sports_ws::{decode_sport_message, MatchCache};
use polymarket_rn2_bot::client::websocket::decode_price_message;
use polymarket_rn2_bot::decimal::Amount;
use polymarket_rn2_bot::json::JsonNumber;
use polymarket_rn2_bot::order::paper_executor::{OrderSide, PaperExecutor};
use rust_decimal::Decimal;

fn amt(m: i128, s: u32) -> Amount {
    Amount::from_parts(m, s).unwrap()
}

#[test]
fn price_message_text_is_decoded() {
    let u = decode_price_message(r#"{"price": {"market": "m1", "token_id": "t1", "price": "0.42"}}"#).unwrap();
    assert_eq!(u.market_id, "m1");
    assert_eq!(u.token_id, "t1");
    assert_eq!(u.price, amt(42, 2));
    let v = decode_price_message(r#"{"data": {"market": "m2", "token_id": "t2", "price": "1.5"}}"#).unwrap();
    assert_eq!(v.market_id, "m2");
    assert_eq!(v.price, amt(15, 1));
}

#[test]
fn price_message_that_is_not_json_or_lacks_fields_gives_nothing() {
    assert!(decode_price_message("not json").is_none());
    assert!(decode_price_message("").is_none());
    assert!(decode_price_message(r#"{"price": {"market": "m1", "price": "0.42"}}"#).is_none());
    assert!(decode_price_message(r#"{"price": {"market": "m1", "token_id": "t1", "price": 0.42}}"#).is_none());
    assert!(decode_price_message(r#"{"other": 1}"#).is_none());
}

#[test]
fn quote_text_is_decoded_with_its_number() {
    let q = decode_quote(r#"{"data": {"market_id": "m", "token_id": "t", "price": 0.25}}"#).unwrap();
    assert_eq!(q.market_id, "m");
    assert_eq!(q.token_id, "t");
    assert_eq!(q.price, JsonNumber::Float(0.25f64.to_bits()));
    let r = decode_quote(r#"{"price": {"market_id": "m", "token_id": "t", "price": 3}}"#).unwrap();
    assert_eq!(r.price, JsonNumber::PosInt(3));
    let n = decode_quote(r#"{"price": {"market_id": "m", "token_id": "t", "price": -2}}"#).unwrap();
    assert_eq!(n.price, JsonNumber::NegInt(-2));
    assert!(decode_quote(r#"{"price": {"market_id": "m", "token_id": "t", "price": "3"}}"#).is_none());
    assert!(decode_quote("{").is_none());
}

#[test]
fn sport_message_text_is_decoded_in_order() {
    let text = r#"{"records": [
        {"gameId": 1, "slug": "ars-che", "homeTeam": "Arsenal", "awayTeam": "Chelsea", "score": "1-0", "live": true},
        {"slug": "no-id"},
        {"gameId": 2, "slug": "liv-eve"}
    ]}"#;
    let ms = decode_sport_message(text);
    assert_eq!(ms.len(), 2);
    assert_eq!(ms[0].game_id, 1);
    assert_eq!(ms[0].home_team, "Arsenal");
    assert_eq!(ms[0].score, "1-0");
    assert!(ms[0].live);
    assert_eq!(ms[1].game_id, 2);
    assert_eq!(ms[1].home_team, "Unknown");
    assert_eq!(ms[1].status, "Scheduled");
    assert!(!ms[1].live);
    assert!(decode_sport_message("nope").is_empty());
    assert!(decode_sport_message(r#"{"records": 3}"#).is_empty());
}

#[test]
fn later_match_with_a_slug_replaces_earlier_one() {
    let mut cache = MatchCache::new();
    cache.record_message(r#"{"records": [{"gameId": 1, "slug": "a", "score": "0-0"}, {"gameId": 2, "slug": "b"}]}"#);
    cache.record_message(r#"{"records": [{"gameId": 3, "slug": "a", "score": "1-0"}, {"gameId": 4, "slug": "a", "score": "2-0"}]}"#);
    let a = cache.get("a").unwrap();
    assert_eq!(a.game_id, 4);
    assert_eq!(a.score, "2-0");
    let b = cache.get("b").unwrap();
    assert_eq!(b.game_id, 2);
    assert!(cache.get("c").is_none());
    cache.record_message("not json");
    assert_eq!(cache.get("a").unwrap().game_id, 4);
}

#[test]
fn run_of_offers_passes_increasing_times_per_key() {
    let mut cache = PriceCache::new();
    let t = |secs: i64, nanos: u32| Timestamp { secs, nanos };
    let offers = vec![
        ("k1", t(5, 0)),
        ("k2", t(1, 0)),
        ("k1", t(4, 0)),
        ("k1", t(5, 0)),
        ("k1", t(5, 1)),
        ("k2", t(0, 9)),
        ("k1", t(7, 0)),
    ];
    let passed: Vec<bool> = offers.iter().map(|(k, time)| cache.offer(k.to_string(), *time)).collect();
    assert_eq!(passed, vec![true, true, false, false, true, false, true]);
    assert_eq!(cache.get(&"k1".to_string()), Some(t(7, 0)));
    assert_eq!(cache.get(&"k2".to_string()), Some(t(1, 0)));
}

#[test]
fn partial_sell_whose_rest_is_rounded_keeps_the_position() {
    let big: i128 = 79228162514264337593543950335;
    let mut ex = PaperExecutor::new(amt(100, 0), "paper_state.json");
    assert_eq!(ex.try_buy("m", "t", OrderSide::Buy, amt(0, 0), amt(big, 0)), Some(Ok(())));
    assert_eq!(ex.try_sell("m", "t", OrderSide::Buy, amt(0, 0), amt(5, 1)), Some(Ok(())));
    let p = &ex.account().positions.iter().find(|(k, _)| k == "m_t_YES").unwrap().1;
    let expected = Decimal::from_i128_with_scale(big, 0) - Decimal::new(5, 1);
    assert_eq!((p.shares.mantissa, p.shares.scale), (expected.mantissa(), expected.scale()));
    assert!(p.shares.mantissa > 0);
    assert_eq!(ex.get_balance(), amt(100, 0));
}
