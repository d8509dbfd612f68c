//! A discrete-event replay of a virtual battery through a history of
//! electricity meter readings.
//!
//! All quantities are whole numbers, so that every clamp and every total is
//! exact: energy in milliwatt-hours (a millionth of a kWh), power in
//! milliwatts, time in microseconds since the Unix epoch, and efficiency in
//! parts per million.

pub mod units;
pub mod reading;
pub mod battery;
pub mod strategy;
pub mod report;
pub mod engine;
pub mod laws;
pub mod series;
pub mod grid_meter;
