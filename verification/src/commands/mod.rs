//! The command surface that the shared UI invokes, as verified functions on
//! plain values.

pub mod desktop;
pub mod updates;
pub mod notifications;
pub mod runtime;
pub mod settings;
pub mod files;
pub mod process;
pub mod window;
