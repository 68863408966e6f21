//! FunkHunt: a library for browsing a catalogue of e-book files in a
//! terminal application.
//!
//! The library owns the application's state machine: the catalogue of books
//! and its selection cursor, a directory browser for picking a new folder to
//! scan, the two interaction modes, and the router that turns one input key
//! into a state change and at most one action for the caller to perform.
//! Drawing the screen, reading keys and launching a viewer are left to the
//! embedding program; the directory walks the library itself needs go
//! through the narrow trusted wrappers in `scanner`, and everything done
//! with their results is verified.

pub mod book;
pub mod config;
pub mod events;
pub mod paths;
pub mod scanner;
pub mod state;
pub mod text;
