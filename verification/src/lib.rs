//! A small library behind a development-indicator dashboard: a fixed catalog
//! of indicators, normalization of raw upstream records into clean country
//! and time-series values, and a best-effort comparison pipeline that merges
//! per-country, per-indicator series into one response.

pub mod catalog;
pub mod compare;
pub mod errors;
pub mod favorites;
pub mod json;
pub mod models;
pub mod normalize;
pub mod order;
pub mod selection;
pub mod upstream;
