//! The components that come with the engine.
pub mod button;
pub mod label;
