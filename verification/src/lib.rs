//! Decision logic of a desktop shell that starts, watches and stops a local
//! DSH web service, and prepares the Node.js tools it needs.
pub mod command;
pub mod desktop;
pub mod process;
pub mod service;
pub mod setup;
pub mod text;
