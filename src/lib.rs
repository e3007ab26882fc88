//! Resolution and creation of an application cache directory across platforms.
//!
//! A configuration (`CacheDirConfig`) names the cache and enables some of five
//! tiers: application, user, system, temporary and memory. A resolution tries
//! the enabled tiers in that order (the user tier alone when none is enabled),
//! and in each tier its candidate parent directories in order, until the cache
//! directory exists under one of them; otherwise it fails with the trail of
//! every failed attempt.
//!
//! The library performs no input or output itself. `create_cache_dir` returns a
//! `Resolver`, which asks its host for one filesystem request at a time and is
//! told the answer; every decision it takes is verified against `resolution`.
use vstd::prelude::*;

pub mod path;
pub mod trail;
pub mod config;
pub mod provider;
pub mod outcome;
pub mod resolver;
pub mod laws;

pub use config::{CacheDirConfig, TierSelection};
pub use outcome::{CacheDir, CacheDirError, Event};
pub use path::Platform;
pub use provider::HostPaths;
pub use resolver::{create_cache_dir, Request, Resolver};
pub use trail::{Attempt, FailureKind, Reason, Tier};

verus! {

} // verus!
