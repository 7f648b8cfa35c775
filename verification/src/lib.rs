//! Engine, target and keybox rules of the TA Enhanced addon.
pub mod automation;
pub mod codec;
pub mod config;
pub mod device;
pub mod engine;
pub mod error;
pub mod fractions;
pub mod json;
pub mod keybox;
pub mod laws;
pub mod packages;
pub mod patch;
pub mod profiles;
pub mod targets;
pub mod text;
