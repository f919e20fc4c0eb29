//! Locating a configuration file and keeping a validated cache of the resolved
//! configuration.
//!
//! The crate performs no input or output itself. A caller looks up the
//! environment, probes the filesystem and reads or writes files, and hands the
//! outcomes to the functions here, which decide what follows from them.
//!
//! - [`get_cfg`](mod@get_cfg) chooses the configuration file.
//! - [`cache`](mod@cache) prepares the cache of a configuration and restores a
//!   configuration from it, refusing a cache of another version.
//! - [`record`] defines the text of a cache record and writes it; [`parse`]
//!   reads it back.

pub mod cache;
pub mod config;
pub mod error;
pub mod get_cfg;
pub mod parse;
pub mod record;
mod scan;
mod text;

pub use crate::cache::{
    cache, cache_path_or_default, cache_written, load_from_cache, version_matches, CacheWrite,
    BONNIE_VERSION, DEFAULT_CACHE_PATH,
};
pub use crate::config::FinalConfig;
pub use crate::error::CfgError;
pub use crate::get_cfg::{
    get_cfg, get_cfg_path, resolve_cfg_path, EnvValue, BONNIE_CONF_VAR, BX_CONF_VAR,
    DEFAULT_BONNIE_CFG_PATH, DEFAULT_BX_CFG_PATH,
};
pub use crate::parse::deserialize;
pub use crate::record::serialize;
