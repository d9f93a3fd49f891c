//! Cache-invalidation orchestrator for polyglot build and runtime targets.
//!
//! The crate tracks per-target cache freshness (the dimensional cache), runs
//! bust and eviction decisions, delegates rebuild work to subordinate
//! processes under fault monitoring, and escalates recovery when a component
//! fails. Process spawning, file watching and network notification live
//! outside this crate; the decision logic here is verified.

pub mod cache_types;
pub mod cli;
pub mod daemon;
pub mod delegation;
pub mod dimensional_cache;
pub mod evicon_store;
pub mod pow;
pub mod queue;
pub mod self_healing;
pub mod server_api;
pub mod severity;
pub mod watcher;
