//! A colour-palette library: an RGB colour type, a hex-string codec,
//! palette generators (random, gradient, wal config, stdin lines) and
//! renderers that turn a palette into terminal text.

pub mod codec;
pub mod colour;
pub mod commands;
pub mod display;
pub mod errors;

pub use codec::hexadecimal_to_colour;
pub use colour::Colour;
pub use colour::ColourInfo;
pub use errors::PaletteError;
