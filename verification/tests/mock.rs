use laundry_optimizer::ai::MockAiClient;
use laundry_optimizer::forecast::mock::{search_places, MockWeatherClient};

fn fx(value: f64) -> i64 {
    (value * 1_000_000.0).round() as i64
}

#[test]
fn direct_search_ignores_case_and_takes_the_first_match() {
    let client = MockWeatherClient::new();
    let found = client.geocode_direct("CHIANG");
    assert_eq!(found.len(), 1);
    assert_eq!(found[0].name, "Chiang Mai");
    assert_eq!(found[0].local_names, None);
    assert_eq!(found[0].lat, fx(18.7883));
    assert_eq!(found[0].lon, fx(98.9853));
    assert_eq!(found[0].country, "TH");
    assert_eq!(found[0].state, Some("Chiang Mai".to_string()));

    assert_eq!(client.geocode_direct("pattaya")[0].state, Some("Chonburi".to_string()));
    assert_eq!(client.geocode_direct("Phu")[0].name, "Phuket");
    assert_eq!(client.geocode_direct("k")[0].name, "Bangkok");
    assert_eq!(client.geocode_direct("")[0].name, "Bangkok");
    assert_eq!(client.geocode_direct("a")[0].name, "Bangkok");
    assert_eq!(client.geocode_direct("tt")[0].name, "Pattaya");
}

#[test]
fn direct_search_answers_unknown_at_bangkok() {
    let client = MockWeatherClient::new();
    let found = client.geocode_direct("Bangkok City");
    assert_eq!(found.len(), 1);
    assert_eq!(found[0].name, "Unknown Location");
    assert_eq!(found[0].lat, fx(13.7563));
    assert_eq!(found[0].lon, fx(100.5018));
    assert_eq!(found[0].country, "TH");
    assert_eq!(found[0].state, Some("Bangkok".to_string()));
}

#[test]
fn place_search_expects_a_lower_case_query() {
    assert_eq!(search_places("phuket").name, "Phuket");
    assert_eq!(search_places("Phuket").name, "Unknown Location");
    assert_eq!(search_places("chiang mai").name, "Chiang Mai");
}

#[test]
fn reverse_search_names_places_within_a_degree() {
    let client = MockWeatherClient::new();
    let found = client.geocode_reverse(fx(18.0), fx(99.5));
    assert_eq!(found.len(), 1);
    assert_eq!(found[0].name, "Chiang Mai");
    assert_eq!(found[0].lat, fx(18.0));
    assert_eq!(found[0].lon, fx(99.5));
    assert_eq!(found[0].country, "TH");
    assert_eq!(found[0].state, Some("Thailand".to_string()));
    assert_eq!(found[0].local_names, None);

    assert_eq!(client.geocode_reverse(fx(13.7563), fx(100.5018))[0].name, "Bangkok");
    assert_eq!(client.geocode_reverse(fx(14.7562), fx(99.5019))[0].name, "Bangkok");
    assert_eq!(client.geocode_reverse(fx(14.7563), fx(100.5018))[0].name, "Unknown Location");
    assert_eq!(client.geocode_reverse(fx(13.7563), fx(101.5018))[0].name, "Unknown Location");
    assert_eq!(client.geocode_reverse(i64::MIN, i64::MAX)[0].name, "Unknown Location");
}

#[test]
fn stand_ins_are_made_without_arguments() {
    assert_eq!(MockWeatherClient::new(), MockWeatherClient);
    assert_eq!(MockAiClient::new(), MockAiClient);
}
