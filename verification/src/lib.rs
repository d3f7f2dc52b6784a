//! Colorful gradients for terminal text.
//!
//! A gradient is an ordered list of [`RGB`] stop colors. The crate distributes
//! the stops over the width of a text block, producing one color request per
//! character position, and wraps each character of the text in ANSI truecolor
//! escape sequences.

mod display;
mod gradients;
mod rgb;
mod text;

pub mod gradient;

pub use crate::display::{ColorType, GradientDisplay, GradientStr};
pub use crate::gradients::Gradient;
pub use crate::rgb::{HexDigitError, ParseRGBError, RGBErrorKind, RGB};
