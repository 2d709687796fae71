//! What is computed from the engine's answers.

pub mod forward_destinations;
