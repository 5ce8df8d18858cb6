//! Verified engine that fuses weather forecasts into an hourly timeline,
//! groups it into windows and scores each window for drying laundry.
//!
//! All physical quantities are fixed-point integers counted in millionths
//! of their unit, so every result is exact and reproducible.
//!
//! - [`forecast`]: provider payloads, their conversion to hourly records,
//!   the fusion of the sources into a timeline of 168 hours, and the
//!   grouping of a timeline into windows.
//! - [`scoring`]: feature normalisation, the drying score with its rain
//!   veto, and the online learner of the weight vector.
//! - [`fixed`], [`clock`], [`text`]: the arithmetic, the timestamps and the
//!   text handling that the rest is built on.
//! - [`routes`], [`ai`], [`database`], [`limiter`], [`config`], [`utils`]:
//!   the decisions of the service around the engine.

pub mod ai;
pub mod clock;
pub mod config;
pub mod database;
pub mod fixed;
pub mod forecast;
pub mod limiter;
pub mod routes;
pub mod scoring;
pub mod text;
pub mod utils;
