//! Package-lifecycle coordination for a single-node application manager:
//! naming and versions, volumes, the container action dispatcher, the typed
//! configuration engine, dependency resolution, status reconciliation and
//! the packaged archive format.

pub mod action;
pub mod backup;
pub mod config;
pub mod context;
pub mod db;
pub mod dependencies;
pub mod disk;
pub mod error;
pub mod graph;
pub mod id;
pub mod install;
pub mod links;
pub mod migration;
pub mod net;
pub mod ordered_map;
pub mod pack;
pub mod path;
pub mod remove;
pub mod s9pk;
pub mod status;
pub mod text;
pub mod util;
pub mod version;
pub mod volume;
