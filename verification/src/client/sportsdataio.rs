//! The live scores service: its fixtures and the address of its request.
use vstd::prelude::*;
use vstd::string::*;

verus! {

/// A fixture as the live scores service returns it.
#[allow(non_snake_case)]
#[derive(Debug)]
pub struct SportsDataIOFixture {
    pub GameID: u32,
    pub HomeTeam: String,
    pub AwayTeam: String,
    pub Status: String,
    pub HomeScore: Option<u32>,
    pub AwayScore: Option<u32>,
    pub DateTime: String,
}

/// The base address of the service.
pub open spec fn default_base_url_spec() -> Seq<char> {
    "https://api.sportsdata.io/v4"@
}

/// The base address of the service.
pub fn default_base_url() -> (r: String)
    ensures
        r@ == default_base_url_spec(),
{
    String::from_str("https://api.sportsdata.io/v4")
}

/// The address of the live scores of a league.
pub open spec fn live_scores_url_spec(base_url: Seq<char>, league: Seq<char>, api_key: Seq<char>) -> Seq<char> {
    base_url + "/soccer/scores/json/LiveScores/"@ + league + "?key="@ + api_key
}

/// The address of the live scores of a league.
pub fn live_scores_url(base_url: &str, league: &str, api_key: &str) -> (r: String)
    ensures
        r@ == live_scores_url_spec(base_url@, league@, api_key@),
{
    let mut url = String::from_str(base_url);
    url.append("/soccer/scores/json/LiveScores/");
    url.append(league);
    url.append("?key=");
    url.append(api_key);
    url
}

} // verus!
