//! A registry for screen-mirroring sessions.
//!
//! The library tracks long-lived external mirroring processes, keyed by a
//! session identifier derived from the target device and the process's native
//! identifier.  It owns every lifecycle decision: which record a stop request
//! removes, which records a cleanup pass discards, and what a bulk shutdown
//! drains.  The embedding application performs the OS work (spawning,
//! polling, signalling) on the plain values this library hands out, so each
//! process handle is signalled at most once.

pub mod commands;
pub mod device;
pub mod laws;
pub mod options;
pub mod registry;
pub mod strutil;
