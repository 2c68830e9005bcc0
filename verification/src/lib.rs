//! A small submission-collection library for a time-boxed event.
//!
//! Users hand in short written submissions ("letters"). The library enforces a
//! per-author quota, keeps an optional correlation token linking each stored
//! letter to an externally posted audit message, supports retraction through
//! that token, plans a throttled re-broadcast of everything stored, and keeps
//! a directory of known recipient names for lookup.
//!
//! All state lives in plain in-memory structures whose behaviour is stated in
//! contracts and verified; callers do the surrounding input parsing, network
//! traffic and persistence.

pub mod broadcast;
pub mod db;
pub mod directory;
pub mod error;
pub mod model;
pub mod service;
pub mod store;
pub mod text;
