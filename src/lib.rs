//! Protocol layer for switching off RGB lighting on a liquid cooler, a fan hub and a
//! GPU lighting controller, plus the decision logic of the temperature daemon.
//!
//! Every function here is pure: it builds command buffers, matches discovery data or
//! decides the next step of a sequence. Opening devices, writing buffers and sleeping
//! is left to the caller.

mod bytes;
pub mod msi;
pub mod sensor;
pub mod gpu;
pub mod lianli;
pub mod daemon;
pub mod command;

pub use msi::FanMode;
pub use gpu::swap_bytes;
