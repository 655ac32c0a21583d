//! Barometer's logic: the weather models and the readings behind the
//! taskbar flyouts, with their contracts.

pub mod flyout;
pub mod geometry;
pub mod json;
pub mod taskbar;
pub mod text;
pub mod theme;
pub mod weather;
