//! Resolution engine for a continuous-integration build configuration.
//!
//! A watched repository, its branches, named build definitions made of
//! ordered steps, and the links between branches and build definitions are
//! stored as flat rows in a relational store.  This crate turns those rows
//! into a navigable, immutable [`configuration::Configuration`] graph:
//! disabled rows are filtered out, steps are ordered by their explicit order
//! column, and links are resolved to build definitions, with dangling links
//! reported as diagnostics rather than failures.
//!
//! The crate itself never touches the store: callers read the tables into a
//! [`rows::StoreSnapshot`] of plain row values and hand it to
//! [`configuration::Configuration::resolve`].

pub mod assembly;
pub mod configuration;
pub mod facade;
pub mod loaders;
pub mod rows;

pub use configuration::Branch;
pub use configuration::BuildDefinition;
pub use configuration::Configuration;
pub use configuration::ConfigurationError;
pub use configuration::Diagnostic;
pub use configuration::Step;
pub use configuration::StoreError;
pub use rows::BranchRow;
pub use rows::DefinitionRow;
pub use rows::LinkRow;
pub use rows::StepRow;
pub use rows::StoreSnapshot;
