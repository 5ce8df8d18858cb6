//! Forecast payloads, their conversion to hourly records, and the fusion
//! of the sources into one timeline.

pub mod merge;
pub mod mock;
pub mod openweather;
pub mod types;
