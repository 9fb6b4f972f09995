//! Palette extraction engine: circular interval arithmetic, hue/saturation/
//! lightness regions, bucket partitioning, perceptual (Lab) averaging, and
//! palette generation with accent ranking and foreground/background selection.
//!
//! All color components are fixed-point values: a component carries thousandths
//! of its natural unit (a hue of `345.5` degrees is `345_500`; a saturation of
//! `0.5` is `500`).

pub mod average;
pub mod codec;
pub mod color;
pub mod generate;
pub mod hex;
pub mod mod_arith;
pub mod plugin;
pub mod sequence;
pub mod theme;
