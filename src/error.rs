//! The library's errors.

use vstd::prelude::*;

verus! {

/// What can go wrong while reading the site's settings or composing a page.
#[derive(Debug, PartialEq, Eq)]
pub enum Error {
    MissingConfigFile(String),
    MissingContentDir(String),
    MissingConfigProperty(String),
    InvalidS3Config,
    SiteDirMissing(String),
    RunnerConfigError(String, String),
    RunnerConfigErrorRunOn(String),
    TomlMissingValue(String),
    TomlError(String),
}

} // verus!
