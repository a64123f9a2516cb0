//! Planning for a git merge driver that keeps `Cargo.lock` mergeable.
//!
//! The crate decides what has to be done and leaves the doing to its
//! caller. `plan` lists the steps of each subcommand: the git and cargo
//! commands to run and the files to write. `location` finds the
//! attributes file that routes `Cargo.lock` through the driver, and
//! `attributes` computes that file's new contents. `text` holds the
//! handling of characters and lines that the others rest on, and
//! `boundary` what is taken on trust from outside the crate.

pub mod attributes;
pub mod boundary;
pub mod location;
pub mod options;
pub mod plan;
pub mod text;
