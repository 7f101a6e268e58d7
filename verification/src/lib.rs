//! Discovery of application launch descriptors and reconciliation of the
//! autostart directories of a desktop session.

pub mod descriptor;
pub mod discovery;
pub mod error;
pub mod paths;
pub mod programs;
pub mod reconcile;
pub mod scope;
pub mod text;
pub mod ui;
