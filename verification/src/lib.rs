//! Gatekeepers: named conditions on the machine at hand, and a cache of
//! what they gave.
//!
//! A gatekeeper decides whether something applies here: on this host, on
//! this operating system, where this file exists, where another gatekeeper
//! holds. It is written as a script, or declared as data. The library
//! evaluates gatekeepers and keeps their answers in a cache in which an
//! entry lives for a given time, is renewed when its source changes, and is
//! never lost where it was set by hand.
//!
//! The library reads no file and no clock. Its callers hand it the texts of
//! the scripts, the state of the source files and the time, and write what
//! it hands back. What it asks the machine itself is gathered in `host`.
//!
//! - `engine` evaluates by name and drives lookups and syncs of the cache.
//! - `cache` holds the entries and, in `cache::sync`, reconciles them with
//!   the gatekeepers there are; `cache::laws` says what always holds of it.
//! - `lua_executor` runs scripts; `gatekeeper` and `evaluators` evaluate
//!   declarations; `primitives` are the conditions both are made of.
//! - `context` keeps the path of names that are being evaluated and so
//!   finds circles; `resolver` and `paths` turn names into files and back.

pub mod cache;
pub mod context;
pub mod engine;
pub mod environment;
pub mod error;
pub mod evaluators;
pub mod gatekeeper;
pub mod host;
pub mod lua_executor;
pub mod names;
pub mod paths;
pub mod primitives;
pub mod report;
pub mod resolver;
pub mod settings;
pub mod text;
