//! Choosing the configuration file.
//!
//! The choice depends on two environment variables and on whether the primary
//! default file is present. All three are looked up by the caller, so the
//! functions here are pure.

use crate::error::{CfgError, CfgErrorView};
use vstd::prelude::*;

verus! {

/// The primary default configuration file, used when it is present.
pub const DEFAULT_BX_CFG_PATH: &'static str = "./bx.toml";

/// The legacy default configuration file, used when nothing else applies.
pub const DEFAULT_BONNIE_CFG_PATH: &'static str = "./bonnie.toml";

/// The environment variable that overrides every other choice.
pub const BX_CONF_VAR: &'static str = "BX_CONF";

/// The legacy environment variable, consulted when the first one is not set.
pub const BONNIE_CONF_VAR: &'static str = "BONNIE_CONF";

/// What looking up an environment variable gave.
#[derive(Debug, Clone, PartialEq, Eq)]
pub enum EnvValue {
    /// The variable is set to this text.
    Found(String),
    /// The variable is not set.
    Absent,
    /// The variable is set, but its value is not valid Unicode.
    Invalid,
}

/// The view of an optional string.
pub open spec fn text_of(value: Option<String>) -> Option<Seq<char>> {
    match value {
        Some(text) => Some(text@),
        None => None,
    }
}

/// The path chosen from two optional overrides and the presence of the primary
/// default file: the first override that is set, else one of the two defaults.
pub open spec fn resolved_path(
    override_a: Option<Seq<char>>,
    override_b: Option<Seq<char>>,
    default_a_exists: bool,
) -> Seq<char> {
    match (override_a, override_b) {
        (Some(path), _) => path,
        (None, Some(path)) => path,
        (None, None) => if default_a_exists {
            DEFAULT_BX_CFG_PATH@
        } else {
            DEFAULT_BONNIE_CFG_PATH@
        },
    }
}

/// What [`get_cfg_path`] decides for the two lookups and the presence of the
/// primary default file. The legacy variable is only considered when the first
/// one is not set, so an invalid legacy value is no failure beside a valid
/// first one.
pub open spec fn located_path(
    bx_conf: EnvValue,
    bonnie_conf: EnvValue,
    bx_default_exists: bool,
) -> Result<Seq<char>, CfgErrorView> {
    match bx_conf {
        EnvValue::Found(path) => Ok(path@),
        EnvValue::Invalid => Err(CfgErrorView::EnvironmentValueInvalid { var: BX_CONF_VAR@ }),
        EnvValue::Absent => match bonnie_conf {
            EnvValue::Found(path) => Ok(path@),
            EnvValue::Invalid => Err(
                CfgErrorView::EnvironmentValueInvalid { var: BONNIE_CONF_VAR@ },
            ),
            EnvValue::Absent => Ok(resolved_path(None, None, bx_default_exists)),
        },
    }
}

/// The view of a path or the failure to find one.
pub open spec fn outcome_of(result: Result<String, CfgError>) -> Result<Seq<char>, CfgErrorView> {
    match result {
        Ok(text) => Ok(text@),
        Err(error) => Err(error@),
    }
}

/// Picks the configuration file from the two overrides, both already known to
/// be valid text, and the presence of the primary default file.
pub fn resolve_cfg_path(
    override_a: Option<String>,
    override_b: Option<String>,
    default_a_exists: bool,
) -> (path: String)
    ensures
        path@ == resolved_path(text_of(override_a), text_of(override_b), default_a_exists),
{
    match override_a {
        Some(path) => path,
        None => match override_b {
            Some(path) => path,
            None => if default_a_exists {
                String::from_str(DEFAULT_BX_CFG_PATH)
            } else {
                String::from_str(DEFAULT_BONNIE_CFG_PATH)
            },
        },
    }
}

/// Picks the configuration file from the lookups of `BX_CONF` and
/// `BONNIE_CONF` and the presence of `./bx.toml`, in that order of priority.
/// Fails when the variable that decides holds invalid text.
pub fn get_cfg_path(bx_conf: EnvValue, bonnie_conf: EnvValue, bx_default_exists: bool) -> (result:
    Result<String, CfgError>)
    ensures
        outcome_of(result) == located_path(bx_conf, bonnie_conf, bx_default_exists),
{
    match bx_conf {
        EnvValue::Found(path) => Ok(path),
        EnvValue::Invalid => Err(
            CfgError::EnvironmentValueInvalid { var: String::from_str(BX_CONF_VAR) },
        ),
        EnvValue::Absent => match bonnie_conf {
            EnvValue::Found(path) => Ok(path),
            EnvValue::Invalid => Err(
                CfgError::EnvironmentValueInvalid { var: String::from_str(BONNIE_CONF_VAR) },
            ),
            EnvValue::Absent => Ok(resolve_cfg_path(None, None, bx_default_exists)),
        },
    }
}

/// What reading the configuration file at `path` comes to: the text that was
/// read, or a failure that names the path.
pub open spec fn read_outcome(path: Seq<char>, contents: Option<Seq<char>>) -> Result<
    Seq<char>,
    CfgErrorView,
> {
    match contents {
        Some(text) => Ok(text),
        None => Err(CfgErrorView::ConfigReadFailed { path }),
    }
}

/// Turns the attempt to read the configuration file at `path` into the
/// configuration text. `contents` is `None` when the file could not be read.
pub fn get_cfg(path: String, contents: Option<String>) -> (result: Result<String, CfgError>)
    ensures
        outcome_of(result) == read_outcome(path@, text_of(contents)),
{
    match contents {
        Some(text) => Ok(text),
        None => Err(CfgError::ConfigReadFailed { path }),
    }
}

} // verus!
