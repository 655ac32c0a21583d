//! Weather from Open-Meteo: units, locations and settings, the condition
//! marks, the detailed forecast's calendar, and the service's responses.

pub mod air;
pub mod models;
pub mod badge;
pub mod client;
pub mod glyph;
pub mod detail;
