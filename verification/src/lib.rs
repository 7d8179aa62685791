//! Core of a real-time audio engine: the bookkeeping that moves nodes between a
//! control thread and an audio thread, and the sample-exact parts of the signal
//! path.
//!
//! Node objects themselves live with the caller. This crate sees them through
//! [`engine::NodePtr`] handles and decides which of them render, in which order
//! and from which sample position.

pub mod engine;
pub mod node;
pub mod utils;

pub use engine::AudioController;
pub use node::nodes;
pub use node::NodeId;
pub use utils::MidiNote;
