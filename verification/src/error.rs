//! The failures that locating a configuration or using the cache can end in.

use vstd::prelude::*;

verus! {

/// Why a configuration could not be located, read, cached or restored.
#[derive(Debug, Clone, PartialEq, Eq)]
pub enum CfgError {
    /// The named environment variable is set, but its value is not valid Unicode.
    EnvironmentValueInvalid { var: String },
    /// The configuration file at `path` could not be read.
    ConfigReadFailed { path: String },
    /// The cache could not be written to `path`.
    CacheWriteFailed { path: String },
    /// The cache at `path` is missing or unreadable.
    CacheReadFailed { path: String },
    /// The cache at `path` does not hold a well-formed cache record.
    CacheDeserializeFailed { path: String },
    /// The cache was produced by version `cached`, but version `running` is in use.
    CacheVersionMismatch { cached: String, running: String },
}

/// The mathematical value of a [`CfgError`]: the same variants over sequences of
/// characters.
pub enum CfgErrorView {
    EnvironmentValueInvalid { var: Seq<char> },
    ConfigReadFailed { path: Seq<char> },
    CacheWriteFailed { path: Seq<char> },
    CacheReadFailed { path: Seq<char> },
    CacheDeserializeFailed { path: Seq<char> },
    CacheVersionMismatch { cached: Seq<char>, running: Seq<char> },
}

impl View for CfgError {
    type V = CfgErrorView;

    open spec fn view(&self) -> CfgErrorView {
        match *self {
            CfgError::EnvironmentValueInvalid { var } => CfgErrorView::EnvironmentValueInvalid {
                var: var@,
            },
            CfgError::ConfigReadFailed { path } => CfgErrorView::ConfigReadFailed { path: path@ },
            CfgError::CacheWriteFailed { path } => CfgErrorView::CacheWriteFailed { path: path@ },
            CfgError::CacheReadFailed { path } => CfgErrorView::CacheReadFailed { path: path@ },
            CfgError::CacheDeserializeFailed { path } => CfgErrorView::CacheDeserializeFailed {
                path: path@,
            },
            CfgError::CacheVersionMismatch { cached, running } => {
                CfgErrorView::CacheVersionMismatch { cached: cached@, running: running@ }
            },
        }
    }
}

impl CfgErrorView {
    /// The text shown to the user for this failure. It names the variable or the
    /// path at fault.
    pub open spec fn message(self) -> Seq<char> {
        match self {
            CfgErrorView::EnvironmentValueInvalid { var } => {
                "The path to your configuration file given in the '"@ + var
                    + "' environment variable contained invalid characters. Please make sure it only contains valid Unicode."@
            },
            CfgErrorView::ConfigReadFailed { path } => {
                "Error reading configuration file at '"@ + path
                    + "', make sure the file is present in this directory and you have the permissions to read it."@
            },
            CfgErrorView::CacheWriteFailed { path } => {
                "Error writing the configuration cache to '"@ + path
                    + "', make sure you have the permissions to write to this location."@
            },
            CfgErrorView::CacheReadFailed { path } => {
                "Error reading the configuration cache at '"@ + path
                    + "', make sure the file is present and you have the permissions to read it."@
            },
            CfgErrorView::CacheDeserializeFailed { path } => {
                "The configuration cache at '"@ + path
                    + "' is malformed and cannot be loaded. Please cache your configuration again."@
            },
            CfgErrorView::CacheVersionMismatch { cached, running } => {
                "The configuration cache was written by version '"@ + cached
                    + "', but the version in use is '"@ + running
                    + "'. Please cache your configuration again."@
            },
        }
    }
}

/// Puts `subject` between `before` and `after`.
fn framed(before: &str, subject: &String, after: &str) -> (text: String)
    ensures
        text@ == before@ + subject@ + after@,
{
    let mut text = String::from_str(before);
    text.append(subject.as_str());
    text.append(after);
    text
}

impl CfgError {
    /// The text shown to the user for this failure.
    pub fn message(&self) -> (text: String)
        ensures
            text@ == self@.message(),
    {
        match self {
            CfgError::EnvironmentValueInvalid { var } => framed(
                "The path to your configuration file given in the '",
                var,
                "' environment variable contained invalid characters. Please make sure it only contains valid Unicode.",
            ),
            CfgError::ConfigReadFailed { path } => framed(
                "Error reading configuration file at '",
                path,
                "', make sure the file is present in this directory and you have the permissions to read it.",
            ),
            CfgError::CacheWriteFailed { path } => framed(
                "Error writing the configuration cache to '",
                path,
                "', make sure you have the permissions to write to this location.",
            ),
            CfgError::CacheReadFailed { path } => framed(
                "Error reading the configuration cache at '",
                path,
                "', make sure the file is present and you have the permissions to read it.",
            ),
            CfgError::CacheDeserializeFailed { path } => framed(
                "The configuration cache at '",
                path,
                "' is malformed and cannot be loaded. Please cache your configuration again.",
            ),
            CfgError::CacheVersionMismatch { cached, running } => {
                let mut text = framed(
                    "The configuration cache was written by version '",
                    cached,
                    "', but the version in use is '",
                );
                text.append(running.as_str());
                text.append("'. Please cache your configuration again.");
                text
            },
        }
    }
}

} // verus!
