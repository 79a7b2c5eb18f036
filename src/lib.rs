//! Truecolor terminal styling: RGB colors, a bitmask of text attributes, and
//! styled text that renders to one deterministic SGR escape sequence.

pub mod color;
pub mod style;
pub mod styled;
