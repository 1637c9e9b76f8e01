//! Verified core of a terminal dashboard that charts live market-data
//! streams: a bounded drop-oldest tick buffer, an adaptive multi-pane
//! layout engine, a chart-model builder, and a gradient border renderer.

pub mod border;
pub mod buffer;
pub mod chart;
pub mod color;
pub mod digits;
pub mod engine;
pub mod feed;
pub mod layout;
pub mod rng;
pub mod state;
pub mod tick;
pub mod timestamp;
pub mod utils;
