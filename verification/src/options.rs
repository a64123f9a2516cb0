//! What the caller asks for.

use std::path::PathBuf;
use vstd::prelude::*;

verus! {

/// The name under which the driver is registered unless the caller gives
/// another.
pub const DEFAULT_NAME: &'static str = "cargo-merge-driver";

/// Where and under which name the driver is registered or unregistered.
#[derive(Debug, PartialEq, Eq)]
pub struct Install {
    /// In the user's configuration rather than in the repository's.
    pub global: bool,
    /// The driver's name in git's configuration and in the attributes file.
    pub name: String,
}

/// The files of one three-way merge, as git hands them to a merge driver.
#[derive(Debug, PartialEq, Eq)]
pub struct Merge {
    /// The common ancestor's version.
    pub ancestor: String,
    /// The current branch's version.
    pub current: String,
    /// The other branch's version.
    pub other: String,
    /// The path of the file in the work tree.
    pub placeholder: PathBuf,
}

} // verus!
