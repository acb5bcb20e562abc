//! Discovery of git repositories beneath a directory.
//!
//! A walk over the directory tree lists one directory at a time. For each listing the
//! library classifies every entry ([`classify`]), decides which entries stay in the walk
//! and which are descended into ([`prune`]), and in the end turns the repository markers
//! that were found into working directories without repeats ([`discover`]). The walk
//! itself, the reads of the file system and the git repository validator are the
//! caller's; what they learned reaches the library as plain values.
use vstd::prelude::*;

pub mod kind;
pub mod classify;
pub mod prune;
pub mod workdir;
pub mod discover;
pub mod laws;
pub mod display;

verus! {

} // verus!
