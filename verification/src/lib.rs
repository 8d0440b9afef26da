//! Verified core of a voice-pack switcher for a single game installation.
//!
//! The library holds the logic: parsing the platform's library/manifest
//! configuration text, discovering language assets in a modeled directory
//! tree, planning backup snapshots and their activation through directory
//! links, and gating activation on build-id consistency. All filesystem
//! effects are left to an unverified shell that executes the plans this
//! library produces.

pub mod lang;
pub mod text;
pub mod vdf;
pub mod fstree;
pub mod backup;
pub mod engine;
pub mod laws;
pub mod switcher;

use vstd::prelude::*;

verus! {

/// Errors the planning operations can report. `IoFailure` and `LinkFailure`
/// are constructed by the executing shell when a filesystem operation fails;
/// the planners themselves only produce the first four variants.
#[derive(Debug)]
pub enum SwitchError {
    /// A required source path or record is missing, or discovery found nothing.
    NotFound,
    /// Control files were found without any language folder; capture refused.
    Incomplete,
    /// The snapshot's recorded build id differs from the detected one.
    VersionMismatch { backup_id: String, current_id: String },
    /// A snapshot existed but discovery inside it found nothing to restore.
    NothingToRestore,
    /// A create/copy/delete operation failed at the OS level.
    IoFailure(String),
    /// Directory-link creation or removal failed.
    LinkFailure(String),
}

} // verus!
