//! The vocabulary every flyout is built from: what a control answers to,
//! and the color roles text is drawn in.

use vstd::prelude::*;

use crate::theme::Color;

verus! {

/// What a control does when it is used.
///
/// The chrome owns `Settings`; everything else is the content's, as a
/// number it interprets, so the vocabulary need not grow a variant for
/// every row of every module.
#[derive(Copy, Clone, Debug, PartialEq, Eq, Structural)]
pub enum Id {
    /// Answers to nothing: a control that does nothing when used.
    Nothing,
    Settings,
    Custom(u32),
}

/// A color role, resolved against the palette and the module's accent at
/// draw time.
#[derive(Copy, Clone, Debug, PartialEq, Eq, Structural)]
pub enum Ink {
    Primary,
    Secondary,
    /// Glyphs only, never words.
    Tertiary,
    /// The module's accent, pushed until it reads as text.
    Accent,
    Caution,
    Critical,
    Custom(Color),
}

} // verus!
