//! Routes keys of a grabbed physical keyboard to synthetic game
//! controllers: each controller claims a set of source keys through its
//! key mapping; a running session dispatches every claimed key event to
//! the controllers that claim it and forwards everything else verbatim
//! to a synthetic passthrough keyboard.
//!
//! This crate is the routing and session core: the per-key routing
//! table, the session lifecycle, the dispatch decisions of the event
//! loop, and the release discipline for the exclusively acquired
//! device. Device I/O, terminal presentation and threads live outside
//! it and drive these decisions with plain values.

pub mod controller;
pub mod device;
pub mod error;
pub mod keys;
pub mod mapping;
pub mod router;
pub mod ui;
