use laundry_optimizer::config::Config;

fn text(value: &str) -> Option<String> {
    Some(value.to_string())
}

#[test]
fn config_takes_defaults_for_what_is_not_set() {
    let config =
        Config::from_vars(text("ai-key"), None, None, text("weather-key"), None, None, None, None, None, None)
            .unwrap();
    assert_eq!(config.openrouter_api_key, "ai-key");
    assert_eq!(config.openrouter_base_url, "https://openrouter.ai/api/v1/chat/completions");
    assert_eq!(config.or_model, "deepseek/deepseek-chat-v3-0324:free");
    assert_eq!(config.openweather_api_key, "weather-key");
    assert_eq!(config.openweather_base_url, "https://api.openweathermap.org");
    assert_eq!(config.openweather_onecall_path, "/data/3.0/onecall");
    assert_eq!(config.openweather_forecast3h_path, "/data/2.5/forecast");
    assert_eq!(config.openweather_geocode_direct_path, "/geo/1.0/direct");
    assert_eq!(config.openweather_geocode_reverse_path, "/geo/1.0/reverse");
    assert_eq!(config.app_timezone, "Asia/Jakarta");
}

#[test]
fn config_keeps_what_is_set() {
    let config = Config::from_vars(
        text("a"),
        text("b"),
        text("c"),
        text("d"),
        text("e"),
        text("f"),
        text("g"),
        text("h"),
        text("i"),
        text(""),
    )
    .unwrap();
    assert_eq!(config.openrouter_api_key, "a");
    assert_eq!(config.openrouter_base_url, "b");
    assert_eq!(config.or_model, "c");
    assert_eq!(config.openweather_api_key, "d");
    assert_eq!(config.openweather_base_url, "e");
    assert_eq!(config.openweather_onecall_path, "f");
    assert_eq!(config.openweather_forecast3h_path, "g");
    assert_eq!(config.openweather_geocode_direct_path, "h");
    assert_eq!(config.openweather_geocode_reverse_path, "i");
    assert_eq!(config.app_timezone, "");
}

#[test]
fn config_needs_both_keys() {
    let missing_ai =
        Config::from_vars(None, None, None, text("weather-key"), None, None, None, None, None, None);
    assert_eq!(missing_ai.unwrap_err(), "OPENROUTER_API_KEY not set");
    let missing_both = Config::from_vars(None, None, None, None, None, None, None, None, None, None);
    assert_eq!(missing_both.unwrap_err(), "OPENROUTER_API_KEY not set");
    let missing_weather =
        Config::from_vars(text("ai-key"), None, None, None, None, None, None, None, None, None);
    assert_eq!(missing_weather.unwrap_err(), "OPENWEATHER_API_KEY not set");
}
