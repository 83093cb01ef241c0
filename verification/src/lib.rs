//! Hosting runtime for a desktop shell that loads independently compiled
//! plugin modules, keeps them configured from an on-disk configuration file,
//! and reloads everything live when that file changes.
//!
//! The crate holds the decision logic of the host: which candidate files
//! become constructors, which modules are built and in what order, how a
//! configuration reload is applied (and rolled over unharmed when parsing
//! fails), how filesystem events are debounced into a single reload, and how
//! module producers are restarted. The surrounding process (dynamic-library
//! loading, the UI event loop, file watching) hands plain values in and
//! carries plain values out.

pub mod app;
pub mod bus;
pub mod config;
pub mod layout;
pub mod loader;
pub mod registry;
pub mod reload;
pub mod style;
pub mod table;
