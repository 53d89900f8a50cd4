//! Terminal color utilities: RGB, HSL and HSV color models, conversions
//! between them, harmony-set generation, text parsing and validation, and
//! ANSI escape-sequence composition.

pub mod component;
pub mod frac;
pub mod ansi;
pub mod harmony;
pub mod hsl;
pub mod hsv;
pub mod rgb;
pub mod text;
pub mod validate;

pub use component::ColorComponent;
pub use component::ColorComponentConvert;
pub use component::Error;
pub use frac::Frac;
