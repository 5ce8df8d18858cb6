//! Settings of the service.

use vstd::prelude::*;
use vstd::string::StringExecFns;

verus! {

/// Keys, addresses and paths of the services that the optimiser talks to,
/// and the time zone it reports in.
#[derive(Debug, Clone)]
pub struct Config {
    pub openrouter_api_key: String,
    pub openrouter_base_url: String,
    pub or_model: String,
    pub openweather_api_key: String,
    pub openweather_base_url: String,
    pub openweather_onecall_path: String,
    pub openweather_forecast3h_path: String,
    pub openweather_geocode_direct_path: String,
    pub openweather_geocode_reverse_path: String,
    pub app_timezone: String,
}

/// A setting, or its default where it is not set.
pub open spec fn setting_or(value: Option<String>, default: Seq<char>) -> Seq<char> {
    match value {
        Some(text) => text@,
        None => default,
    }
}

fn or_default(value: Option<String>, default: &str) -> (text: String)
    ensures
        text@ == setting_or(value, default@),
{
    match value {
        Some(text) => text,
        None => String::from_str(default),
    }
}

impl Config {
    /// `self` holds the given settings, with the defaults for those that
    /// are not set.
    pub open spec fn holds(
        &self,
        openrouter_api_key: String,
        openrouter_base_url: Option<String>,
        or_model: Option<String>,
        openweather_api_key: String,
        openweather_base_url: Option<String>,
        openweather_onecall_path: Option<String>,
        openweather_forecast3h_path: Option<String>,
        openweather_geocode_direct_path: Option<String>,
        openweather_geocode_reverse_path: Option<String>,
        app_timezone: Option<String>,
    ) -> bool {
        &&& self.openrouter_api_key@ == openrouter_api_key@
        &&& self.openrouter_base_url@ == setting_or(
            openrouter_base_url,
            "https://openrouter.ai/api/v1/chat/completions"@,
        )
        &&& self.or_model@ == setting_or(or_model, "deepseek/deepseek-chat-v3-0324:free"@)
        &&& self.openweather_api_key@ == openweather_api_key@
        &&& self.openweather_base_url@ == setting_or(
            openweather_base_url,
            "https://api.openweathermap.org"@,
        )
        &&& self.openweather_onecall_path@ == setting_or(
            openweather_onecall_path,
            "/data/3.0/onecall"@,
        )
        &&& self.openweather_forecast3h_path@ == setting_or(
            openweather_forecast3h_path,
            "/data/2.5/forecast"@,
        )
        &&& self.openweather_geocode_direct_path@ == setting_or(
            openweather_geocode_direct_path,
            "/geo/1.0/direct"@,
        )
        &&& self.openweather_geocode_reverse_path@ == setting_or(
            openweather_geocode_reverse_path,
            "/geo/1.0/reverse"@,
        )
        &&& self.app_timezone@ == setting_or(app_timezone, "Asia/Jakarta"@)
    }

    /// Builds the settings from what the environment holds. The two keys
    /// must be set; every other setting has a default.
    pub fn from_vars(
        openrouter_api_key: Option<String>,
        openrouter_base_url: Option<String>,
        or_model: Option<String>,
        openweather_api_key: Option<String>,
        openweather_base_url: Option<String>,
        openweather_onecall_path: Option<String>,
        openweather_forecast3h_path: Option<String>,
        openweather_geocode_direct_path: Option<String>,
        openweather_geocode_reverse_path: Option<String>,
        app_timezone: Option<String>,
    ) -> (config: Result<Config, String>)
        ensures
            match (openrouter_api_key, openweather_api_key) {
                (None, _) => config matches Err(complaint) && complaint@
                    == "OPENROUTER_API_KEY not set"@,
                (Some(_), None) => config matches Err(complaint) && complaint@
                    == "OPENWEATHER_API_KEY not set"@,
                (Some(ai_key), Some(weather_key)) => config matches Ok(made) && made.holds(
                    ai_key,
                    openrouter_base_url,
                    or_model,
                    weather_key,
                    openweather_base_url,
                    openweather_onecall_path,
                    openweather_forecast3h_path,
                    openweather_geocode_direct_path,
                    openweather_geocode_reverse_path,
                    app_timezone,
                ),
            },
    {
        let ai_key = match openrouter_api_key {
            Some(key) => key,
            None => {
                return Err(String::from_str("OPENROUTER_API_KEY not set"));
            },
        };
        let weather_key = match openweather_api_key {
            Some(key) => key,
            None => {
                return Err(String::from_str("OPENWEATHER_API_KEY not set"));
            },
        };
        Ok(
            Config {
                openrouter_api_key: ai_key,
                openrouter_base_url: or_default(
                    openrouter_base_url,
                    "https://openrouter.ai/api/v1/chat/completions",
                ),
                or_model: or_default(or_model, "deepseek/deepseek-chat-v3-0324:free"),
                openweather_api_key: weather_key,
                openweather_base_url: or_default(
                    openweather_base_url,
                    "https://api.openweathermap.org",
                ),
                openweather_onecall_path: or_default(openweather_onecall_path, "/data/3.0/onecall"),
                openweather_forecast3h_path: or_default(
                    openweather_forecast3h_path,
                    "/data/2.5/forecast",
                ),
                openweather_geocode_direct_path: or_default(
                    openweather_geocode_direct_path,
                    "/geo/1.0/direct",
                ),
                openweather_geocode_reverse_path: or_default(
                    openweather_geocode_reverse_path,
                    "/geo/1.0/reverse",
                ),
                app_timezone: or_default(app_timezone, "Asia/Jakarta"),
            },
        )
    }
}

} // verus!
