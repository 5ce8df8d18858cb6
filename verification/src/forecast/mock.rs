//! A stand-in for the weather provider's place search.

use vstd::prelude::*;
use vstd::string::StringExecFns;
use crate::forecast::types::GeocodeResponse;
use crate::text::{chars_of, contains_text, has_substring, lowercase};

verus! {

/// A weather client that answers without a network.
#[derive(Debug, Clone, Copy, PartialEq, Eq, Structural)]
pub struct MockWeatherClient;

/// A place that the stand-in knows, with the lower-case key that a search
/// is matched against.
pub struct KnownPlace {
    pub name: Seq<char>,
    pub key: Seq<char>,
    pub lat: i64,
    pub lon: i64,
    pub state: Seq<char>,
}

/// The places that the stand-in knows, in the order in which it looks
/// through them.
pub open spec fn known_places() -> Seq<KnownPlace> {
    seq![
        KnownPlace {
            name: "Bangkok"@,
            key: "bangkok"@,
            lat: 13_756_300,
            lon: 100_501_800,
            state: "Bangkok"@,
        },
        KnownPlace {
            name: "Chiang Mai"@,
            key: "chiang mai"@,
            lat: 18_788_300,
            lon: 98_985_300,
            state: "Chiang Mai"@,
        },
        KnownPlace {
            name: "Phuket"@,
            key: "phuket"@,
            lat: 7_880_400,
            lon: 98_392_300,
            state: "Phuket"@,
        },
        KnownPlace {
            name: "Pattaya"@,
            key: "pattaya"@,
            lat: 12_923_600,
            lon: 100_882_500,
            state: "Chonburi"@,
        },
    ]
}

/// The place given where a search finds none: unnamed, at Bangkok.
pub open spec fn unknown_place() -> KnownPlace {
    KnownPlace {
        name: "Unknown Location"@,
        key: Seq::empty(),
        lat: 13_756_300,
        lon: 100_501_800,
        state: "Bangkok"@,
    }
}

/// The first known place at or after position `from` whose key holds the
/// lower-case query; the unknown place where there is none.
pub open spec fn found_place(lowered_query: Seq<char>, from: int) -> KnownPlace
    decreases known_places().len() - from,
{
    if from < 0 || from >= known_places().len() {
        unknown_place()
    } else if has_substring(known_places()[from].key, lowered_query) {
        known_places()[from]
    } else {
        found_place(lowered_query, from + 1)
    }
}

/// `answer` names `place`, in Thailand, without local names.
pub open spec fn is_answer_for(answer: GeocodeResponse, place: KnownPlace) -> bool {
    &&& answer.name@ == place.name
    &&& answer.local_names is None
    &&& answer.lat == place.lat
    &&& answer.lon == place.lon
    &&& answer.country@ == "TH"@
    &&& answer.state matches Some(state) && state@ == place.state
}

/// Less than one degree apart.
pub open spec fn is_near(a: int, b: int) -> bool {
    -1_000_000 < a - b < 1_000_000
}

/// The name that the stand-in gives to coordinates: Bangkok or Chiang Mai
/// within one degree of either, else unknown.
pub open spec fn place_name_at(lat: int, lon: int) -> Seq<char> {
    if is_near(lat, 13_756_300) && is_near(lon, 100_501_800) {
        "Bangkok"@
    } else if is_near(lat, 18_788_300) && is_near(lon, 98_985_300) {
        "Chiang Mai"@
    } else {
        "Unknown Location"@
    }
}

fn near(a: i64, b: i64) -> (close: bool)
    ensures
        close == is_near(a as int, b as int),
{
    let distance: i128 = a as i128 - b as i128;
    -1_000_000 < distance && distance < 1_000_000
}

fn answer(name: &str, lat: i64, lon: i64, state: &str) -> (made: GeocodeResponse)
    ensures
        made.name@ == name@,
        made.local_names is None,
        made.lat == lat,
        made.lon == lon,
        made.country@ == "TH"@,
        made.state matches Some(text) && text@ == state@,
{
    GeocodeResponse {
        name: String::from_str(name),
        local_names: None,
        lat,
        lon,
        country: String::from_str("TH"),
        state: Some(String::from_str(state)),
    }
}

fn key_matches(key: &str, lowered_query: &Vec<char>) -> (found: bool)
    ensures
        found == has_substring(key@, lowered_query@),
{
    let letters = chars_of(key);
    contains_text(&letters, lowered_query)
}

/// Searches the known places for a query that is already in lower case.
pub fn search_places(lowered_query: &str) -> (found: GeocodeResponse)
    ensures
        is_answer_for(found, found_place(lowered_query@, 0)),
{
    let wanted = chars_of(lowered_query);
    proof {
        reveal_with_fuel(found_place, 5);
    }
    if key_matches("bangkok", &wanted) {
        answer("Bangkok", 13_756_300, 100_501_800, "Bangkok")
    } else if key_matches("chiang mai", &wanted) {
        answer("Chiang Mai", 18_788_300, 98_985_300, "Chiang Mai")
    } else if key_matches("phuket", &wanted) {
        answer("Phuket", 7_880_400, 98_392_300, "Phuket")
    } else if key_matches("pattaya", &wanted) {
        answer("Pattaya", 12_923_600, 100_882_500, "Chonburi")
    } else {
        answer("Unknown Location", 13_756_300, 100_501_800, "Bangkok")
    }
}

impl MockWeatherClient {
    /// A new stand-in client.
    pub fn new() -> (client: MockWeatherClient)
        ensures
            client == MockWeatherClient,
    {
        MockWeatherClient
    }

    /// Searches the known places by name, ignoring case, and answers with
    /// the first that matches; with the unknown place where none does.
    pub fn geocode_direct(&self, query: &str) -> (answers: Vec<GeocodeResponse>)
        ensures
            answers@.len() == 1,
            is_answer_for(answers@[0], found_place(lowercase(query@), 0)),
    {
        let lowered = query.to_lowercase();
        let mut answers: Vec<GeocodeResponse> = Vec::new();
        answers.push(search_places(lowered.as_str()));
        answers
    }

    /// Names the place at the given coordinates.
    pub fn geocode_reverse(&self, lat: i64, lon: i64) -> (answers: Vec<GeocodeResponse>)
        ensures
            answers@.len() == 1,
            answers@[0].name@ == place_name_at(lat as int, lon as int),
            answers@[0].local_names is None,
            answers@[0].lat == lat,
            answers@[0].lon == lon,
            answers@[0].country@ == "TH"@,
            answers@[0].state matches Some(state) && state@ == "Thailand"@,
    {
        let name = if near(lat, 13_756_300) && near(lon, 100_501_800) {
            "Bangkok"
        } else if near(lat, 18_788_300) && near(lon, 98_985_300) {
            "Chiang Mai"
        } else {
            "Unknown Location"
        };
        let mut answers: Vec<GeocodeResponse> = Vec::new();
        answers.push(answer(name, lat, lon, "Thailand"));
        answers
    }
}

} // verus!
