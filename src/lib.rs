//! Button-driven character display: glyph table, shared input slot,
//! edge-interrupt monitor, rate counter rendering and timed display effects.

pub mod glyph;
pub mod effects;
pub mod monitor;
pub mod counter;
