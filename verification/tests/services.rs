use polymarket_rn2_bot::client::sportradar::{build_url, is_live, live_games, schedule_endpoint, Game, ScheduleResponse, Team};
use polymarket_rn2_bot::client::sportsdataio::{default_base_url, live_scores_url, SportsDataIOFixture};
use polymarket_rn2_bot::logger::{log_range, trade_row};

fn team(n: &str) -> Team {
    Team { id: n.to_string(), name: n.to_string(), alias: None }
}

fn game(id: &str, status: &str) -> Game {
    Game {
        id: id.to_string(),
        status: status.to_string(),
        scheduled: "2024-01-01T00:00:00Z".to_string(),
        home: team("h"),
        away: team("a"),
        home_score: Some(1),
        away_score: None,
    }
}

#[test]
fn urls_per_sport() {
    assert_eq!(
        build_url("nba", "/games/2024-01-01/schedule", "K"),
        "https://api.sportradar.com/nba/trial/v7/en/games/2024-01-01/schedule?api_key=K"
    );
    assert_eq!(build_url("mlb", "/x", "K"), "https://api.sportradar.com/mlb/trial/v7/en/x?api_key=K");
    assert_eq!(
        build_url("global_basketball", "/x", "K"),
        "https://api.sportradar.com/global-basketball/trial/v7/en/x?api_key=K"
    );
    assert_eq!(build_url("soccer", "/x", "K"), "https://api.sportradar.com/soccer/trial/v4/en/x?api_key=K");
    assert_eq!(build_url("curling", "/x", "K"), "https://api.sportradar.com/soccer/trial/v4/en/x?api_key=K");
    assert_eq!(schedule_endpoint("2024-05-06"), "/games/2024-05-06/schedule");
}

#[test]
fn live_games_keep_in_progress_and_half_time() {
    let games = vec![game("1", "inprogress"), game("2", "closed"), game("3", "halftime"), game("4", "scheduled")];
    assert!(is_live(&games[0]));
    assert!(!is_live(&games[1]));
    let live = live_games(games);
    let ids: Vec<&str> = live.iter().map(|g| g.id.as_str()).collect();
    assert_eq!(ids, vec!["1", "3"]);
    let schedule = ScheduleResponse { games: vec![game("5", "InProgress")] };
    assert!(live_games(schedule.games).is_empty());
}

#[test]
fn live_scores_address() {
    assert_eq!(default_base_url(), "https://api.sportsdata.io/v4");
    assert_eq!(
        live_scores_url("https://api.sportsdata.io/v4", "EPL", "K"),
        "https://api.sportsdata.io/v4/soccer/scores/json/LiveScores/EPL?key=K"
    );
    let f = SportsDataIOFixture {
        GameID: 1,
        HomeTeam: "A".to_string(),
        AwayTeam: "B".to_string(),
        Status: "InProgress".to_string(),
        HomeScore: Some(1),
        AwayScore: Some(0),
        DateTime: "2024-01-01T12:00:00".to_string(),
    };
    assert_eq!(f.GameID, 1);
}

#[test]
fn trade_log_row() {
    assert_eq!(log_range(), "Logs!A:F");
    let row = trade_row("2024-01-01T00:00:00+00:00".to_string(), "m", "BUY", "0.5".to_string(), "10".to_string(), "FILLED");
    assert_eq!(row, vec!["2024-01-01T00:00:00+00:00", "m", "BUY", "0.5", "10", "FILLED"]);
}
