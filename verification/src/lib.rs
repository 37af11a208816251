//! A verified core for an interactive audio recorder.
//!
//! The library covers the logic of a small recording tool: negotiating a
//! stream configuration from device capabilities, resolving a device by
//! name, accumulating captured sample blocks, deciding when the user asked
//! to stop, and encoding the result as a WAV file. Device enumeration,
//! terminal interaction and file writing live outside the library.

pub mod catalog;
pub mod config;
pub mod session;
pub mod wav;
