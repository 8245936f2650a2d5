//! A single Wayland toplevel window with an EGL rendering surface.
//!
//! The library holds the decisions of the client: which advertised globals
//! are bound, how shell events change the window state and which protocol
//! requests answer them, when the present loop stops, and in which order
//! the resources are released. The protocol and graphics calls themselves
//! are made by the caller, which hands events in and performs the requests
//! that come back.
pub mod error;
pub mod registry;
pub mod shell;
pub mod binder;
pub mod state;
pub mod program;
