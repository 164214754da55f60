//! Coordination core of an interactive application: a registry of named
//! configuration values, an in-process event bus, and the path-keyed cache
//! that keeps each model from being loaded twice.
pub mod bus;
pub mod models;
pub mod state;
pub mod table;
pub mod types;
pub mod window;
