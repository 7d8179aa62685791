//! The nodes that this crate implements itself.

pub use super::delay::DelayNode;
