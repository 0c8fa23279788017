//! Supervision logic of a desktop shell that runs a local web backend,
//! keeps it alive with growing backoff, and builds the menus around it.

pub mod launch;
pub mod log;
pub mod menu;
pub mod probe;
pub mod supervisor;
pub mod text;
