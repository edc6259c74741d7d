//! Auto-ranging resistance meter: range selection with hysteresis, sample
//! smoothing, reading formatting, and the latest-value channel that carries
//! readings to the display.

pub mod text;
pub mod range;
pub mod meter;
pub mod channel;
pub mod display;
