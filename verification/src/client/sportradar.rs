//! The sports schedule service: its games, the addresses of its requests, and which games
//! are live.
use vstd::prelude::*;
use vstd::string::*;

verus! {

/// The day's schedule as the service returns it.
#[derive(Debug)]
pub struct ScheduleResponse {
    pub games: Vec<Game>,
}

/// A scheduled game.
#[derive(Clone, Debug)]
pub struct Game {
    pub id: String,
    pub status: String,
    pub scheduled: String,
    pub home: Team,
    pub away: Team,
    pub home_score: Option<i32>,
    pub away_score: Option<i32>,
}

/// A team of a game.
#[derive(Clone, Debug)]
pub struct Team {
    pub id: String,
    pub name: String,
    pub alias: Option<String>,
}

/// The base address of the service for a sport; soccer for a sport it does not know.
pub open spec fn sport_base_url(sport: Seq<char>) -> Seq<char> {
    if sport == "soccer"@ {
        "https://api.sportradar.com/soccer/trial/v4/en"@
    } else if sport == "nba"@ {
        "https://api.sportradar.com/nba/trial/v7/en"@
    } else if sport == "mlb"@ {
        "https://api.sportradar.com/mlb/trial/v7/en"@
    } else if sport == "global_basketball"@ {
        "https://api.sportradar.com/global-basketball/trial/v7/en"@
    } else {
        "https://api.sportradar.com/soccer/trial/v4/en"@
    }
}

/// The address of a request: the sport's base address, the endpoint, and the key.
pub open spec fn build_url_spec(sport: Seq<char>, endpoint: Seq<char>, api_key: Seq<char>) -> Seq<char> {
    sport_base_url(sport) + endpoint + "?api_key="@ + api_key
}

/// The base address of the service for a sport.
fn base_url(sport: &str) -> (r: String)
    ensures
        r@ == sport_base_url(sport@),
{
    let s = String::from_str(sport);
    if s == String::from_str("soccer") {
        String::from_str("https://api.sportradar.com/soccer/trial/v4/en")
    } else if s == String::from_str("nba") {
        String::from_str("https://api.sportradar.com/nba/trial/v7/en")
    } else if s == String::from_str("mlb") {
        String::from_str("https://api.sportradar.com/mlb/trial/v7/en")
    } else if s == String::from_str("global_basketball") {
        String::from_str("https://api.sportradar.com/global-basketball/trial/v7/en")
    } else {
        String::from_str("https://api.sportradar.com/soccer/trial/v4/en")
    }
}

/// The address of a request for `endpoint` of `sport`, with the key.
pub fn build_url(sport: &str, endpoint: &str, api_key: &str) -> (r: String)
    ensures
        r@ == build_url_spec(sport@, endpoint@, api_key@),
{
    let mut url = base_url(sport);
    url.append(endpoint);
    url.append("?api_key=");
    url.append(api_key);
    url
}

/// The endpoint of the schedule of a day (`YYYY-MM-DD`).
pub fn schedule_endpoint(date: &str) -> (r: String)
    ensures
        r@ == "/games/"@ + date@ + "/schedule"@,
{
    let mut e = String::from_str("/games/");
    e.append(date);
    e.append("/schedule");
    e
}

/// A game is live while it is in progress or at half time.
pub open spec fn is_live_spec(game: Game) -> bool {
    game.status@ == "inprogress"@ || game.status@ == "halftime"@
}

/// The live games of a schedule, in order.
pub open spec fn live_schedule(games: Seq<Game>) -> Seq<Game> {
    games.filter(|g: Game| is_live_spec(g))
}

/// Whether a game is live.
pub fn is_live(game: &Game) -> (r: bool)
    ensures
        r == is_live_spec(*game),
{
    game.status == String::from_str("inprogress") || game.status == String::from_str("halftime")
}

/// The live games, in order.
pub fn live_games(games: Vec<Game>) -> (r: Vec<Game>)
    ensures
        r@ == live_schedule(games@),
{
    let ghost all = games@;
    let ghost pred = |g: Game| is_live_spec(g);
    let mut rest = games;
    let mut out: Vec<Game> = Vec::new();
    let n = rest.len();
    let mut i: usize = 0;
    proof {
        reveal_with_fuel(Seq::filter, 1);
        assert(all.take(0) =~= Seq::<Game>::empty());
        assert(rest@ =~= all.skip(0));
    }
    while i < n
        invariant
            n == all.len(),
            i <= n,
            rest@ == all.skip(i as int),
            out@ == all.take(i as int).filter(pred),
            pred == (|g: Game| is_live_spec(g)),
        decreases n - i,
    {
        let g = rest.remove(0);
        proof {
            reveal_with_fuel(Seq::filter, 1);
            assert(g == all[i as int]);
            assert(all.take(i + 1).drop_last() =~= all.take(i as int));
            assert(all.take(i + 1).last() == g);
            assert(rest@ =~= all.skip(i + 1));
        }
        if is_live(&g) {
            out.push(g);
        }
        i = i + 1;
    }
    proof {
        assert(all.take(n as int) =~= all);
    }
    out
}

/// The live games of a schedule are, in order, exactly its games whose status is `inprogress`
/// or `halftime`: every game returned has one of these statuses, and every game of the
/// schedule with one of them is returned; a game with any other status (`complete`, `closed`,
/// `scheduled`, ..) is not.
pub proof fn law_live_games_are_in_progress_or_half_time(games: Seq<Game>)
    ensures
        live_schedule(games) == games.filter(|g: Game| g.status@ == "inprogress"@ || g.status@ == "halftime"@),
        forall|i: int|
            0 <= i < live_schedule(games).len() ==> (#[trigger] live_schedule(games)[i]).status@ == "inprogress"@
                || live_schedule(games)[i].status@ == "halftime"@,
        forall|i: int|
            0 <= i < games.len() && (games[i].status@ == "inprogress"@ || games[i].status@ == "halftime"@)
                ==> #[trigger] live_schedule(games).contains(games[i]),
{
    let live = |g: Game| is_live_spec(g);
    let by_status = |g: Game| g.status@ == "inprogress"@ || g.status@ == "halftime"@;
    assert(live =~= by_status);
    assert(live_schedule(games) == games.filter(live));
    assert forall|i: int| 0 <= i < games.filter(live).len() implies (#[trigger] games.filter(live)[i]).status@
        == "inprogress"@ || games.filter(live)[i].status@ == "halftime"@ by {
        games.lemma_filter_pred(live, i);
    }
    assert forall|i: int|
        0 <= i < games.len() && (games[i].status@ == "inprogress"@ || games[i].status@ == "halftime"@)
        implies #[trigger] games.filter(live).contains(games[i]) by {
        games.lemma_filter_contains(live, i);
    }
}

} // verus!
