//! Caching a resolved configuration and restoring it.
//!
//! The cache holds the record of one configuration. It is valid for exactly
//! the version of the tool that wrote it: a cache of any other version is
//! refused, however close the two versions are. Writing and reading the file
//! is the caller's part. So is applying the environment files that a restored
//! configuration lists, which is due after a successful load and never after
//! a failed one.

use crate::config::{FinalConfig, FinalConfigView};
use crate::error::{CfgError, CfgErrorView};
use crate::get_cfg::text_of;
use crate::parse::{deserialize, is_record, lemma_record_text_injective};
use crate::record::{record_text, serialize};
use vstd::prelude::*;

verus! {

/// Where the cache is kept when the caller names no other place.
pub const DEFAULT_CACHE_PATH: &'static str = "./.bonnie.cache.json";

/// The version of this tool. A cache is valid only under the version that
/// wrote it.
pub const BONNIE_VERSION: &'static str = "0.3.2";

/// What is to be written to store a configuration: the file and its contents.
#[derive(Debug, PartialEq, Eq)]
pub struct CacheWrite {
    pub path: String,
    pub contents: String,
}

/// The place of the cache: the one given, or the default.
pub open spec fn cache_location(cache_path: Option<Seq<char>>) -> Seq<char> {
    match cache_path {
        Some(path) => path,
        None => DEFAULT_CACHE_PATH@,
    }
}

/// The configuration whose record `text` is. It is determined by `text`
/// wherever `text` is a record, since no two configurations share one.
pub open spec fn record_of(text: Seq<char>) -> FinalConfigView {
    choose|config: FinalConfigView| record_text(config) == text
}

/// What loading comes to, given the place of the cache, what reading it gave
/// and the version in use.
pub open spec fn load_outcome(
    path: Seq<char>,
    contents: Option<Seq<char>>,
    running_version: Seq<char>,
) -> Result<FinalConfigView, CfgErrorView> {
    match contents {
        None => Err(CfgErrorView::CacheReadFailed { path }),
        Some(text) => if !is_record(text) {
            Err(CfgErrorView::CacheDeserializeFailed { path })
        } else if record_of(text).version != running_version {
            Err(
                CfgErrorView::CacheVersionMismatch {
                    cached: record_of(text).version,
                    running: running_version,
                },
            )
        } else {
            Ok(record_of(text))
        },
    }
}

/// What writing the cache to `path` comes to.
pub open spec fn write_outcome(path: Seq<char>, written: bool) -> Result<(), CfgErrorView> {
    if written {
        Ok(())
    } else {
        Err(CfgErrorView::CacheWriteFailed { path })
    }
}

/// The view of a restored configuration or the failure to restore one.
pub open spec fn loaded_of(result: Result<FinalConfig, CfgError>) -> Result<
    FinalConfigView,
    CfgErrorView,
> {
    match result {
        Ok(config) => Ok(config@),
        Err(error) => Err(error@),
    }
}

/// The view of the end of a write.
pub open spec fn written_of(result: Result<(), CfgError>) -> Result<(), CfgErrorView> {
    match result {
        Ok(()) => Ok(()),
        Err(error) => Err(error@),
    }
}

/// The place of the cache: `cache_path`, or the default where none is given.
pub fn cache_path_or_default(cache_path: Option<String>) -> (path: String)
    ensures
        path@ == cache_location(text_of(cache_path)),
{
    match cache_path {
        Some(path) => path,
        None => String::from_str(DEFAULT_CACHE_PATH),
    }
}

/// Prepares the cache of `config`: the record to write, and the file to write
/// it to, which is to replace whatever that file held.
pub fn cache(config: &FinalConfig, cache_path: Option<String>) -> (write: CacheWrite)
    ensures
        write.path@ == cache_location(text_of(cache_path)),
        write.contents@ == record_text(config@),
{
    CacheWrite { path: cache_path_or_default(cache_path), contents: serialize(config) }
}

/// Ends a write of the cache to `path`. `written` says whether the file was
/// written.
pub fn cache_written(path: String, written: bool) -> (result: Result<(), CfgError>)
    ensures
        written_of(result) == write_outcome(path@, written),
{
    if written {
        Ok(())
    } else {
        Err(CfgError::CacheWriteFailed { path })
    }
}

/// Whether a cache written by version `cached` is valid under version
/// `running`: only where the two are the same text.
pub fn version_matches(cached: &str, running: &str) -> (same: bool)
    ensures
        same == (cached@ == running@),
{
    let cached = String::from_str(cached);
    let running = String::from_str(running);
    cached == running
}

/// Restores the configuration from the cache at `cache_path`, or at the
/// default place. `contents` is what reading that file gave, `None` where it
/// could not be read. The load fails where there is nothing to read, where
/// what was read is no record, and where the record was written by another
/// version than `running_version`.
pub fn load_from_cache(
    cache_path: Option<String>,
    contents: Option<String>,
    running_version: &str,
) -> (result: Result<FinalConfig, CfgError>)
    ensures
        loaded_of(result) == load_outcome(
            cache_location(text_of(cache_path)),
            text_of(contents),
            running_version@,
        ),
        result matches Ok(config) ==> config.version@ == running_version@,
{
    let path = cache_path_or_default(cache_path);
    let text = match contents {
        Some(text) => text,
        None => {
            return Err(CfgError::CacheReadFailed { path });
        },
    };
    match deserialize(text.as_str()) {
        Some(config) => {
            proof {
                lemma_record_text_injective(config@, record_of(text@));
            }
            if version_matches(config.version.as_str(), running_version) {
                Ok(config)
            } else {
                Err(
                    CfgError::CacheVersionMismatch {
                        cached: config.version,
                        running: String::from_str(running_version),
                    },
                )
            }
        },
        None => Err(CfgError::CacheDeserializeFailed { path }),
    }
}

/// Round trip: the record of a configuration, loaded under the version that
/// the configuration carries, gives that configuration back, field for field.
pub proof fn lemma_cache_round_trip(config: FinalConfigView, path: Seq<char>)
    ensures
        load_outcome(path, Some(record_text(config)), config.version) == Ok::<
            FinalConfigView,
            CfgErrorView,
        >(config),
{
    lemma_record_text_injective(config, record_of(record_text(config)));
}

/// Invalidation: the record of a configuration, loaded under any version but
/// the one that the configuration carries, is refused as a version mismatch.
pub proof fn lemma_cache_invalidation(
    config: FinalConfigView,
    path: Seq<char>,
    running_version: Seq<char>,
)
    requires
        config.version != running_version,
    ensures
        load_outcome(path, Some(record_text(config)), running_version) == Err::<
            FinalConfigView,
            CfgErrorView,
        >(CfgErrorView::CacheVersionMismatch { cached: config.version, running: running_version }),
{
    lemma_record_text_injective(config, record_of(record_text(config)));
}

/// No stale configuration: whatever a load gives was written by the version
/// in use.
pub proof fn lemma_loaded_version(
    path: Seq<char>,
    contents: Option<Seq<char>>,
    running_version: Seq<char>,
)
    ensures
        load_outcome(path, contents, running_version) matches Ok(config) ==> config.version
            == running_version,
{
}

} // verus!
