//! What the operations do, said of their inputs and results alone.
pub mod automation;
pub mod config;
pub mod engine;
pub mod error;
pub mod json;
pub mod keybox;
pub mod patch;
pub mod profiles;
pub mod targets;
pub mod text;
