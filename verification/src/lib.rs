//! Rendering of per-application window-management overrides as an automation
//! script, and the canonical ordering of a configuration document.

pub mod config;
pub mod generator;
pub mod identifier;
pub mod laws;
pub mod options;
pub mod script;
pub mod shape;
pub mod sort;
pub mod text;

pub use config::{ApplicationConfiguration, IdWithIdentifier, IdWithIdentifierAndComment};
pub use generator::ApplicationConfigurationGenerator;
pub use identifier::ApplicationIdentifier;
pub use options::ApplicationOptions;
