//! The canonical hourly record and the provider payloads it is made from.
//!
//! Numbers that the provider reports as decimals are held in millionths of
//! their unit. A precipitation table lists amounts in millimetres under the
//! provider's period keys (`1h`, `3h`).

use vstd::prelude::*;
use crate::clock::Timestamp;
use crate::scoring::WeatherFeatures;

verus! {

/// Weather of one hour of the timeline.
#[derive(Debug, Clone, Copy, PartialEq, Eq, Structural)]
pub struct HourlyData {
    pub ts: Timestamp,
    pub temp_c: i64,
    pub rh: i64,
    pub wind_ms: i64,
    pub cloud: i64,
    pub rain_p: i64,
    pub rain_mm: i64,
}

impl HourlyData {
    /// The six weather values of the hour, without its timestamp.
    pub open spec fn weather(&self) -> WeatherFeatures {
        WeatherFeatures {
            temp_c: self.temp_c,
            rh: self.rh,
            wind_ms: self.wind_ms,
            cloud: self.cloud,
            rain_p: self.rain_p,
            rain_mm: self.rain_mm,
        }
    }

    /// The hour at `ts` with the given weather.
    pub open spec fn at(ts: Timestamp, weather: WeatherFeatures) -> HourlyData {
        HourlyData {
            ts,
            temp_c: weather.temp_c,
            rh: weather.rh,
            wind_ms: weather.wind_ms,
            cloud: weather.cloud,
            rain_p: weather.rain_p,
            rain_mm: weather.rain_mm,
        }
    }
}

/// The provider's combined answer: an hourly and a daily forecast for a
/// place.
#[derive(Debug, Clone)]
pub struct OneCallResponse {
    pub lat: i64,
    pub lon: i64,
    pub timezone: String,
    pub timezone_offset: i32,
    pub hourly: Vec<OneCallHourly>,
    pub daily: Vec<OneCallDaily>,
}

/// One hour of the hourly forecast. Humidity and cloud cover are in
/// percent, `pop` is the probability of precipitation as a fraction.
#[derive(Debug, Clone)]
pub struct OneCallHourly {
    pub dt: i64,
    pub temp: i64,
    pub humidity: i64,
    pub wind_speed: i64,
    pub clouds: i64,
    pub pop: i64,
    pub rain: Option<Vec<(String, i64)>>,
}

/// One day of the daily forecast, with the day's rain total where rain is
/// expected.
#[derive(Debug, Clone, Copy, PartialEq, Eq, Structural)]
pub struct OneCallDaily {
    pub dt: i64,
    pub temp: OneCallDailyTemp,
    pub humidity: i64,
    pub wind_speed: i64,
    pub clouds: i64,
    pub pop: i64,
    pub rain: Option<i64>,
}

/// The temperatures of one day.
#[derive(Debug, Clone, Copy, PartialEq, Eq, Structural)]
pub struct OneCallDailyTemp {
    pub day: i64,
    pub min: i64,
    pub max: i64,
    pub night: i64,
    pub eve: i64,
    pub morn: i64,
}

/// The provider's forecast in steps of three hours.
#[derive(Debug, Clone)]
pub struct Forecast3hResponse {
    pub cod: String,
    pub message: i64,
    pub cnt: i32,
    pub list: Vec<Forecast3hItem>,
    pub city: Forecast3hCity,
}

/// One three-hour step of the forecast.
#[derive(Debug, Clone)]
pub struct Forecast3hItem {
    pub dt: i64,
    pub main: Forecast3hMain,
    pub weather: Vec<Forecast3hWeather>,
    pub clouds: Forecast3hClouds,
    pub wind: Forecast3hWind,
    pub visibility: Option<i32>,
    pub pop: i64,
    pub rain: Option<Vec<(String, i64)>>,
    pub snow: Option<Vec<(String, i64)>>,
    pub sys: Forecast3hSys,
    pub dt_txt: String,
}

/// Temperature, pressure and humidity of a three-hour step.
#[derive(Debug, Clone, Copy, PartialEq, Eq, Structural)]
pub struct Forecast3hMain {
    pub temp: i64,
    pub feels_like: i64,
    pub temp_min: i64,
    pub temp_max: i64,
    pub pressure: i64,
    pub sea_level: Option<i64>,
    pub grnd_level: Option<i64>,
    pub humidity: i64,
    pub temp_kf: Option<i64>,
}

/// The provider's label for the weather of a step.
#[derive(Debug, Clone)]
pub struct Forecast3hWeather {
    pub id: i32,
    pub main: String,
    pub description: String,
    pub icon: String,
}

/// Cloud cover of a step, in percent.
#[derive(Debug, Clone, Copy, PartialEq, Eq, Structural)]
pub struct Forecast3hClouds {
    pub all: i64,
}

/// Wind of a step.
#[derive(Debug, Clone, Copy, PartialEq, Eq, Structural)]
pub struct Forecast3hWind {
    pub speed: i64,
    pub deg: i64,
    pub gust: Option<i64>,
}

/// The part of the day that a step falls in, as the provider marks it.
#[derive(Debug, Clone)]
pub struct Forecast3hSys {
    pub pod: String,
}

/// The place that a three-hour forecast is for.
#[derive(Debug, Clone)]
pub struct Forecast3hCity {
    pub id: i32,
    pub name: String,
    pub coord: Forecast3hCoord,
    pub country: String,
    pub population: Option<i32>,
    pub timezone: i32,
    pub sunrise: i64,
    pub sunset: i64,
}

/// Coordinates of a place.
#[derive(Debug, Clone, Copy, PartialEq, Eq, Structural)]
pub struct Forecast3hCoord {
    pub lat: i64,
    pub lon: i64,
}

/// A place that a search found. Local names are listed under their
/// language codes.
#[derive(Debug, Clone)]
pub struct GeocodeResponse {
    pub name: String,
    pub local_names: Option<Vec<(String, String)>>,
    pub lat: i64,
    pub lon: i64,
    pub country: String,
    pub state: Option<String>,
}

} // verus!
