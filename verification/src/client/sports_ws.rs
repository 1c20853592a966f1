//! Decoding the live match records that the sports feed sends.
use crate::json::{bool_at, get_spec, json_from_text, parse_json_text, str_at, u64_at, JsonNumber, JsonValue};
use dashmap::DashMap;
use vstd::prelude::*;
use vstd::string::*;

verus! {

/// A live match as the sports feed reports it.
#[derive(Clone, Debug)]
pub struct LiveMatchData {
    pub game_id: u64,
    pub slug: String,
    pub home_team: String,
    pub away_team: String,
    pub score: String,
    pub period: String,
    pub elapsed: String,
    pub status: String,
    pub live: bool,
}

/// A live match, as numbers and text.
pub struct LiveMatchView {
    pub game_id: u64,
    pub slug: Seq<char>,
    pub home_team: Seq<char>,
    pub away_team: Seq<char>,
    pub score: Seq<char>,
    pub period: Seq<char>,
    pub elapsed: Seq<char>,
    pub status: Seq<char>,
    pub live: bool,
}

impl LiveMatchData {
    pub open spec fn view(&self) -> LiveMatchView {
        LiveMatchView {
            game_id: self.game_id,
            slug: self.slug@,
            home_team: self.home_team@,
            away_team: self.away_team@,
            score: self.score@,
            period: self.period@,
            elapsed: self.elapsed@,
            status: self.status@,
            live: self.live,
        }
    }
}

/// The address of the sports feed.
pub open spec fn sports_ws_url_spec() -> Seq<char> {
    "wss://sports-api.polymarket.com/ws"@
}

/// The address of the sports feed.
pub fn sports_ws_url() -> (r: String)
    ensures
        r@ == sports_ws_url_spec(),
{
    String::from_str("wss://sports-api.polymarket.com/ws")
}

/// A text, or the default where there is none.
pub open spec fn text_or(t: Option<Seq<char>>, default: Seq<char>) -> Seq<char> {
    match t {
        Some(x) => x,
        None => default,
    }
}

/// The match that a record describes: a record with a numeric `gameId` gives one, each other
/// field falling back to its default where it is missing or not of its kind.
pub open spec fn record_match(record: JsonValue) -> Option<LiveMatchView> {
    match u64_at(record, "gameId"@) {
        None => None,
        Some(game_id) => Some(
            LiveMatchView {
                game_id,
                slug: text_or(str_at(record, "slug"@), ""@),
                home_team: text_or(str_at(record, "homeTeam"@), "Unknown"@),
                away_team: text_or(str_at(record, "awayTeam"@), "Unknown"@),
                score: text_or(str_at(record, "score"@), "0-0"@),
                period: text_or(str_at(record, "period"@), ""@),
                elapsed: text_or(str_at(record, "elapsed"@), "0"@),
                status: text_or(str_at(record, "status"@), "Scheduled"@),
                live: match bool_at(record, "live"@) {
                    Some(b) => b,
                    None => false,
                },
            },
        ),
    }
}

/// The matches of the records that describe one, in order.
pub open spec fn record_matches(records: Seq<JsonValue>) -> Seq<LiveMatchView>
    decreases records.len(),
{
    if records.len() == 0 {
        Seq::empty()
    } else {
        let before = record_matches(records.drop_last());
        match record_match(records.last()) {
            Some(m) => before.push(m),
            None => before,
        }
    }
}

/// The matches in a message of the sports feed: those of its `records` array, if it has one.
pub open spec fn sport_data_matches(data: JsonValue) -> Seq<LiveMatchView> {
    match get_spec(data, "records"@) {
        Some(JsonValue::Array(records)) => record_matches(records@),
        _ => Seq::empty(),
    }
}

/// The views of a list of matches.
pub open spec fn match_views(v: Seq<LiveMatchData>) -> Seq<LiveMatchView> {
    v.map_values(|m: LiveMatchData| m.view())
}

/// The text under `key`, or the default.
fn text_field(record: &JsonValue, key: &str, default: &str) -> (r: String)
    ensures
        r@ == text_or(str_at(*record, key@), default@),
{
    match record.get(key) {
        Some(v) => match v.as_str() {
            Some(t) => String::from_str(t),
            None => String::from_str(default),
        },
        None => String::from_str(default),
    }
}

/// The match that a record describes, if it has a numeric `gameId`.
pub fn match_from_record(record: &JsonValue) -> (r: Option<LiveMatchData>)
    ensures
        match r {
            Some(m) => record_match(*record) == Some(m.view()),
            None => record_match(*record) is None,
        },
{
    let game_id = match record.get("gameId") {
        Some(v) => match v.as_u64() {
            Some(n) => n,
            None => return None,
        },
        None => return None,
    };
    let live = match record.get("live") {
        Some(v) => match v.as_bool() {
            Some(b) => b,
            None => false,
        },
        None => false,
    };
    Some(
        LiveMatchData {
            game_id,
            slug: text_field(record, "slug", ""),
            home_team: text_field(record, "homeTeam", "Unknown"),
            away_team: text_field(record, "awayTeam", "Unknown"),
            score: text_field(record, "score", "0-0"),
            period: text_field(record, "period", ""),
            elapsed: text_field(record, "elapsed", "0"),
            status: text_field(record, "status", "Scheduled"),
            live,
        },
    )
}

/// The matches in a message of the sports feed, in order; each goes into the cache under its
/// slug, a later one replacing an earlier one.
pub fn parse_sport_data(data: &JsonValue) -> (r: Vec<LiveMatchData>)
    ensures
        match_views(r@) == sport_data_matches(*data),
{
    let mut out: Vec<LiveMatchData> = Vec::new();
    let records = match data.get("records") {
        Some(v) => match v.as_array() {
            Some(items) => items,
            None => return out,
        },
        None => return out,
    };
    let n = records.len();
    let mut i: usize = 0;
    proof {
        assert(match_views(out@) =~= record_matches(records@.take(0)));
    }
    while i < n
        invariant
            n == records@.len(),
            i <= n,
            match_views(out@) == record_matches(records@.take(i as int)),
            sport_data_matches(*data) == record_matches(records@),
        decreases n - i,
    {
        let ghost before = out@;
        proof {
            assert(records@.take(i + 1).drop_last() =~= records@.take(i as int));
            assert(records@.take(i + 1).last() == records@[i as int]);
        }
        match match_from_record(&records[i]) {
            Some(m) => {
                out.push(m);
                proof {
                    assert(match_views(out@) =~= match_views(before).push(out@.last().view()));
                }
            },
            None => {},
        }
        i = i + 1;
    }
    proof {
        assert(records@.take(n as int) =~= records@);
    }
    out
}

/// The matches in a text message of the sports feed: none where the text is not JSON.
pub open spec fn sport_message_matches(text: Seq<char>) -> Seq<LiveMatchView> {
    match json_from_text(text) {
        Some(data) => sport_data_matches(data),
        None => Seq::empty(),
    }
}

/// The matches in a text message of the sports feed, in order.
pub fn decode_sport_message(text: &str) -> (r: Vec<LiveMatchData>)
    ensures
        match_views(r@) == sport_message_matches(text@),
{
    match parse_json_text(text) {
        Some(data) => parse_sport_data(&data),
        None => {
            let out: Vec<LiveMatchData> = Vec::new();
            proof {
                assert(match_views(out@) =~= Seq::<LiveMatchView>::empty());
            }
            out
        },
    }
}

/// The cache after a run of matches went into it in order, each under its slug.
pub open spec fn fold_matches(cache: Map<Seq<char>, LiveMatchView>, ms: Seq<LiveMatchView>) -> Map<Seq<char>, LiveMatchView>
    decreases ms.len(),
{
    if ms.len() == 0 {
        cache
    } else {
        fold_matches(cache, ms.drop_last()).insert(ms.last().slug, ms.last())
    }
}

/// The matches that a map of the sports cache keeps, by slug.
pub uninterp spec fn kept_matches(map: DashMap<String, LiveMatchData>) -> Map<Seq<char>, LiveMatchView>;

/// `DashMap::new`. Trusted: the new map keeps nothing.
#[verifier::external_body]
fn empty_match_map() -> (r: DashMap<String, LiveMatchData>)
    ensures
        kept_matches(r) =~= Map::empty(),
{
    DashMap::new()
}

/// `DashMap::get`, the match cloned out of the guard. Trusted: it is the match kept under the
/// slug (a clone of a `LiveMatchData` copies every field), and there is none exactly where
/// nothing is kept under it.
#[verifier::external_body]
fn kept_match(map: &DashMap<String, LiveMatchData>, slug: &str) -> (r: Option<LiveMatchData>)
    ensures
        match r {
            Some(m) => kept_matches(*map).contains_key(slug@) && kept_matches(*map)[slug@] == m.view(),
            None => !kept_matches(*map).contains_key(slug@),
        },
{
    map.get(slug).map(|e| e.value().clone())
}

/// `DashMap::insert`, whose answer (the match it replaced) is dropped. Trusted: afterwards the
/// map keeps the match under the slug and is otherwise unchanged. The map is taken by `&mut`
/// so that the change is stated; the outside method needs only `&`.
#[verifier::external_body]
fn keep_match(map: &mut DashMap<String, LiveMatchData>, slug: String, m: LiveMatchData)
    ensures
        kept_matches(*final(map)) == kept_matches(*old(map)).insert(slug@, m.view()),
{
    map.insert(slug, m);
}

/// A copy of a match, field by field.
fn copy_match(m: &LiveMatchData) -> (r: LiveMatchData)
    ensures
        r.view() == m.view(),
{
    LiveMatchData {
        game_id: m.game_id,
        slug: m.slug.clone(),
        home_team: m.home_team.clone(),
        away_team: m.away_team.clone(),
        score: m.score.clone(),
        period: m.period.clone(),
        elapsed: m.elapsed.clone(),
        status: m.status.clone(),
        live: m.live,
    }
}

/// The latest report of each live match, by slug.
pub struct MatchCache {
    entries: DashMap<String, LiveMatchData>,
}

impl MatchCache {
    /// The matches kept, by slug.
    pub closed spec fn view(&self) -> Map<Seq<char>, LiveMatchView> {
        kept_matches(self.entries)
    }

    /// An empty cache.
    pub fn new() -> (r: MatchCache)
        ensures
            r.view() == Map::<Seq<char>, LiveMatchView>::empty(),
    {
        MatchCache { entries: empty_match_map() }
    }

    /// The match kept under `slug`, if any.
    pub fn get(&self, slug: &str) -> (r: Option<LiveMatchData>)
        ensures
            match r {
                Some(m) => self.view().contains_key(slug@) && self.view()[slug@] == m.view(),
                None => !self.view().contains_key(slug@),
            },
    {
        kept_match(&self.entries, slug)
    }

    /// Puts the matches into the cache in order, each under its slug, so that a later one
    /// replaces an earlier one.
    pub fn record(&mut self, matches: Vec<LiveMatchData>)
        ensures
            final(self).view() == fold_matches(old(self).view(), match_views(matches@)),
    {
        let ghost start = self.view();
        let ghost all = match_views(matches@);
        let n = matches.len();
        proof {
            assert(all.take(0) =~= Seq::<LiveMatchView>::empty());
        }
        let mut i: usize = 0;
        while i < n
            invariant
                n == matches@.len(),
                all == match_views(matches@),
                i <= n,
                self.view() == fold_matches(start, all.take(i as int)),
            decreases n - i,
        {
            let m = copy_match(&matches[i]);
            proof {
                assert(all.take(i + 1).drop_last() =~= all.take(i as int));
                assert(all.take(i + 1).last() == m.view());
            }
            let slug = m.slug.clone();
            keep_match(&mut self.entries, slug, m);
            i = i + 1;
        }
        proof {
            assert(all.take(n as int) =~= all);
        }
    }

    /// Puts the matches of a text message of the sports feed into the cache, in order.
    pub fn record_message(&mut self, text: &str)
        ensures
            final(self).view() == fold_matches(old(self).view(), sport_message_matches(text@)),
    {
        let matches = decode_sport_message(text);
        self.record(matches);
    }
}

/// A batch of matches leaves under each slug that occurs in it the last match of the batch
/// with that slug, and leaves every other slug as it was.
pub proof fn law_last_match_wins(cache: Map<Seq<char>, LiveMatchView>, ms: Seq<LiveMatchView>, slug: Seq<char>)
    ensures
        forall|i: int|
            0 <= i < ms.len() && #[trigger] ms[i].slug == slug && (forall|j: int| i < j < ms.len() ==> ms[j].slug != slug)
                ==> fold_matches(cache, ms).contains_key(slug) && fold_matches(cache, ms)[slug] == ms[i],
        (forall|i: int| 0 <= i < ms.len() ==> ms[i].slug != slug) ==> fold_matches(cache, ms).contains_key(slug)
            == cache.contains_key(slug) && (cache.contains_key(slug) ==> fold_matches(cache, ms)[slug] == cache[slug]),
    decreases ms.len(),
{
    if ms.len() > 0 {
        let init = ms.drop_last();
        law_last_match_wins(cache, init, slug);
        assert forall|i: int|
            0 <= i < ms.len() && #[trigger] ms[i].slug == slug && (forall|j: int| i < j < ms.len() ==> ms[j].slug != slug)
            implies fold_matches(cache, ms).contains_key(slug) && fold_matches(cache, ms)[slug] == ms[i] by {
            if i < ms.len() - 1 {
                assert(ms[ms.len() - 1].slug != slug);
                assert(init[i] == ms[i]);
                assert forall|j: int| i < j < init.len() implies init[j].slug != slug by {
                    assert(init[j] == ms[j]);
                }
            }
        }
        if forall|i: int| 0 <= i < ms.len() ==> ms[i].slug != slug {
            assert forall|i: int| 0 <= i < init.len() implies init[i].slug != slug by {
                assert(init[i] == ms[i]);
            }
            assert(ms[ms.len() - 1].slug != slug);
        }
    }
}

/// A record gives a match exactly when its `gameId` member is a non-negative integer, and the
/// match reads each field from the record's member of that name: `gameId`, `slug`,
/// `homeTeam`, `awayTeam`, `score`, `period`, `elapsed`, `status` and `live`; a member that is
/// missing or not of its kind gives the field's default (`""`, `"Unknown"`, `"Unknown"`,
/// `"0-0"`, `""`, `"0"`, `"Scheduled"`, `false`).
pub proof fn law_record_fields_come_from_members(record: JsonValue)
    ensures
        record_match(record) is Some <==> get_spec(record, "gameId"@) matches Some(
            JsonValue::Number(JsonNumber::PosInt(_)),
        ),
        record_match(record) matches Some(m) ==> {
            &&& get_spec(record, "gameId"@) == Some(JsonValue::Number(JsonNumber::PosInt(m.game_id)))
            &&& match get_spec(record, "slug"@) {
                Some(JsonValue::String(t)) => m.slug == t@,
                _ => m.slug == ""@,
            }
            &&& match get_spec(record, "homeTeam"@) {
                Some(JsonValue::String(t)) => m.home_team == t@,
                _ => m.home_team == "Unknown"@,
            }
            &&& match get_spec(record, "awayTeam"@) {
                Some(JsonValue::String(t)) => m.away_team == t@,
                _ => m.away_team == "Unknown"@,
            }
            &&& match get_spec(record, "score"@) {
                Some(JsonValue::String(t)) => m.score == t@,
                _ => m.score == "0-0"@,
            }
            &&& match get_spec(record, "period"@) {
                Some(JsonValue::String(t)) => m.period == t@,
                _ => m.period == ""@,
            }
            &&& match get_spec(record, "elapsed"@) {
                Some(JsonValue::String(t)) => m.elapsed == t@,
                _ => m.elapsed == "0"@,
            }
            &&& match get_spec(record, "status"@) {
                Some(JsonValue::String(t)) => m.status == t@,
                _ => m.status == "Scheduled"@,
            }
            &&& match get_spec(record, "live"@) {
                Some(JsonValue::Bool(b)) => m.live == b,
                _ => !m.live,
            }
        },
{
}

/// The matches of a list of records are, in order, those of the records that describe one:
/// each match is the match of some record, each record with a match gives one, and there are
/// never more matches than records.
pub proof fn law_matches_come_from_records(records: Seq<JsonValue>)
    ensures
        record_matches(records).len() <= records.len(),
        forall|i: int|
            0 <= i < record_matches(records).len() ==> exists|j: int|
                0 <= j < records.len() && record_match(#[trigger] records[j]) == Some(
                    #[trigger] record_matches(records)[i],
                ),
        forall|j: int|
            0 <= j < records.len() && (#[trigger] record_match(records[j])) is Some ==> record_matches(
                records,
            ).contains(record_match(records[j])->0),
    decreases records.len(),
{
    if records.len() > 0 {
        let init = records.drop_last();
        law_matches_come_from_records(init);
        let before = record_matches(init);
        let out = record_matches(records);
        assert forall|i: int| 0 <= i < out.len() implies exists|j: int|
            0 <= j < records.len() && record_match(#[trigger] records[j]) == Some(#[trigger] out[i]) by {
            if i < before.len() {
                assert(out[i] == before[i]);
                let j = choose|j: int| 0 <= j < init.len() && record_match(#[trigger] init[j]) == Some(before[i]);
                assert(records[j] == init[j]);
            } else {
                assert(record_match(records[records.len() - 1]) == Some(out[i]));
            }
        }
        assert forall|j: int|
            0 <= j < records.len() && (#[trigger] record_match(records[j])) is Some implies out.contains(
                record_match(records[j])->0,
            ) by {
            if j < init.len() {
                assert(records[j] == init[j]);
                let x = record_match(records[j])->0;
                assert(before.contains(x));
                let k = choose|k: int| 0 <= k < before.len() && before[k] == x;
                assert(out[k] == x);
            } else {
                assert(out[out.len() - 1] == record_match(records[j])->0);
            }
        }
    }
}

} // verus!
