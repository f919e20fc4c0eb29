//! The resolved configuration, as far as locating and caching it is concerned.

use vstd::prelude::*;

verus! {

/// A fully resolved configuration.
///
/// Only two parts of it matter here: the version of the tool that produced it,
/// and the environment files it asks for. Everything else is carried along as
/// `body`, text that is kept as it is and never looked into.
#[derive(Debug, Clone, PartialEq, Eq)]
pub struct FinalConfig {
    /// The version of the tool that produced this configuration.
    pub version: String,
    /// The environment files to apply before the configuration is used.
    pub env_files: Vec<String>,
    /// The rest of the configuration.
    pub body: String,
}

/// The mathematical value of a [`FinalConfig`].
pub struct FinalConfigView {
    pub version: Seq<char>,
    pub env_files: Seq<Seq<char>>,
    pub body: Seq<char>,
}

/// The views of a sequence of strings.
pub open spec fn texts_of(items: Seq<String>) -> Seq<Seq<char>> {
    Seq::new(items.len(), |i: int| items[i]@)
}

impl View for FinalConfig {
    type V = FinalConfigView;

    open spec fn view(&self) -> FinalConfigView {
        FinalConfigView {
            version: self.version@,
            env_files: texts_of(self.env_files@),
            body: self.body@,
        }
    }
}

} // verus!
