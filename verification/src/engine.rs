//! The activation engine and the version guard. Activation materializes a
//! snapshot into the live tree through directory links plus control-file
//! copies; deactivation removes what an activation left behind and nothing
//! else. Both are planned here against scans of the trees involved; the
//! executing shell performs each planned action in order and stops at the
//! first failure, leaving earlier effects in place.

use vstd::prelude::*;

verus! {

use crate::lang::LangCode;
use crate::fstree::{FsEntry, spec_locate, spec_is_link_at, find_voice_files, is_link_at};
use crate::backup::{BackupInfo, lemma_to_set_empty_iff};
use crate::vdf::{SteamInfo, spec_detected_build};
use crate::SwitchError;

/// The version guard: a snapshot may be activated when its recorded build id
/// is empty (unknown, always allowed), when no installation is detected
/// (nothing to verify, do not block), or when the two build ids are equal.
pub open spec fn spec_version_ok(backup_build: Seq<char>, detected_build: Option<Seq<char>>) -> bool {
    ||| backup_build.len() == 0
    ||| detected_build is None
    ||| detected_build->0 == backup_build
}

/// Applies the version guard to the selected snapshot: yields the two build
/// ids exactly when they block activation, and nothing when the guard allows it
/// or no snapshot is listed.
pub fn check_version_match(
    available_backups: &Vec<BackupInfo>,
    selected_backup_idx: usize,
    steam_info: &Option<SteamInfo>,
) -> (r: Option<(String, String)>)
    requires
        available_backups@.len() > 0 ==> selected_backup_idx < available_backups@.len(),
    ensures
        match r {
            Some(pair) => {
                &&& available_backups@.len() > 0
                &&& !spec_version_ok(
                    available_backups@[selected_backup_idx as int].build_id@,
                    spec_detected_build(*steam_info),
                )
                &&& pair.0@ == available_backups@[selected_backup_idx as int].build_id@
                &&& steam_info matches Some(si) && pair.1@ == si.build_id@
            },
            None => available_backups@.len() == 0 || spec_version_ok(
                available_backups@[selected_backup_idx as int].build_id@,
                spec_detected_build(*steam_info),
            ),
        },
{
    if available_backups.len() == 0 {
        return None;
    }
    let backup: &BackupInfo = &available_backups[selected_backup_idx];
    match steam_info {
        Some(si) => {
            if !backup.build_id.as_str().is_empty() && !(backup.build_id == si.build_id) {
                Some((backup.build_id.clone(), si.build_id.clone()))
            } else {
                None
            }
        },
        None => None,
    }
}

/// An activation plan: for every folder path, the shell removes an existing
/// link at the destination under the live root, ensures the destination's
/// parents exist, and creates a directory link from the destination to the
/// snapshot subdirectory at the same relative path; every control-file path
/// is plainly copied from the snapshot to the live root.
pub struct ActivatePlan {
    pub links: Vec<Vec<String>>,
    pub copies: Vec<Vec<String>>,
}

/// Decides an activation of a listed snapshot against a scan of the snapshot
/// directory (`None` when that directory does not exist) and the detected
/// installation.
///
/// The decision is exhaustive, in this order: a missing snapshot directory
/// is `NotFound`, before anything else is considered; then a blocking
/// version guard is `VersionMismatch` carrying both build ids, and no plan —
/// hence no filesystem change — comes out; a snapshot in which discovery
/// finds nothing is `NothingToRestore`; otherwise the plan links exactly the
/// discovered folders and copies exactly the discovered control files. In
/// particular a snapshot with an empty recorded build id is never blocked,
/// whatever the detected build id is.
pub fn activate_plan(
    record: &BackupInfo,
    snapshot: Option<&Vec<FsEntry>>,
    detected: &Option<SteamInfo>,
) -> (r: Result<ActivatePlan, SwitchError>)
    ensures
        match r {
            Ok(plan) => {
                &&& spec_version_ok(record.build_id@, spec_detected_build(*detected))
                &&& snapshot matches Some(s) && {
                    let loc = spec_locate(s@, Seq::<Seq<char>>::empty(), record.lang_code);
                    &&& !(loc.0 == Set::<Seq<Seq<char>>>::empty() && loc.1 == Set::<
                        Seq<Seq<char>>,
                    >::empty())
                    &&& plan.links.deep_view().to_set() == loc.0
                    &&& plan.copies.deep_view().to_set() == loc.1
                }
            },
            Err(SwitchError::VersionMismatch { backup_id, current_id }) => {
                &&& snapshot is Some
                &&& !spec_version_ok(record.build_id@, spec_detected_build(*detected))
                &&& backup_id@ == record.build_id@
                &&& detected matches Some(si) && current_id@ == si.build_id@
            },
            Err(SwitchError::NotFound) => snapshot is None,
            Err(SwitchError::NothingToRestore) => {
                &&& spec_version_ok(record.build_id@, spec_detected_build(*detected))
                &&& snapshot matches Some(s) && spec_locate(
                    s@,
                    Seq::<Seq<char>>::empty(),
                    record.lang_code,
                ) == (Set::<Seq<Seq<char>>>::empty(), Set::<Seq<Seq<char>>>::empty())
            },
            Err(_) => false,
        },
        snapshot is None <==> r matches Err(SwitchError::NotFound),
        record.build_id@.len() == 0 ==> !(r matches Err(SwitchError::VersionMismatch { .. })),
        (spec_version_ok(record.build_id@, spec_detected_build(*detected)) && (snapshot
            matches Some(s) && spec_locate(s@, Seq::<Seq<char>>::empty(), record.lang_code) != (
        Set::<Seq<Seq<char>>>::empty(),
        Set::<Seq<Seq<char>>>::empty(),
        ))) ==> r is Ok,
{
    let entries = match snapshot {
        None => {
            return Err(SwitchError::NotFound);
        },
        Some(entries) => entries,
    };
    match detected {
        Some(si) => {
            if !record.build_id.as_str().is_empty() && !(record.build_id == si.build_id) {
                return Err(
                    SwitchError::VersionMismatch {
                        backup_id: record.build_id.clone(),
                        current_id: si.build_id.clone(),
                    },
                );
            }
        },
        None => {},
    }
    let assets = find_voice_files(entries, record.lang_code);
    proof {
        lemma_to_set_empty_iff(assets.folders.deep_view());
        lemma_to_set_empty_iff(assets.toc_files.deep_view());
    }
    if assets.folders.len() == 0 && assets.toc_files.len() == 0 {
        return Err(SwitchError::NothingToRestore);
    }
    Ok(ActivatePlan { links: assets.folders, copies: assets.toc_files })
}

/// The members of a path set that are currently link points in a tree.
pub open spec fn link_points_of(entries: Seq<FsEntry>, s: Set<Seq<Seq<char>>>) -> Set<
    Seq<Seq<char>>,
> {
    s.filter(|p: Seq<Seq<char>>| spec_is_link_at(entries, p))
}

/// The discovered folders of a code that are currently link points: the only
/// folders a deactivation may remove.
pub open spec fn spec_unlink_set(entries: Seq<FsEntry>, code: LangCode) -> Set<Seq<Seq<char>>> {
    link_points_of(entries, spec_locate(entries, Seq::<Seq<char>>::empty(), code).0)
}

/// A deactivation plan: the shell removes the link at each path under
/// `unlink`, and deletes the file at each path under `delete`.
pub struct DeactivatePlan {
    pub unlink: Vec<Vec<String>>,
    pub delete: Vec<Vec<String>>,
}

/// Skipping one more element of a sequence drops exactly that element from
/// the set of the rest.
proof fn lemma_skip_to_set_step<A>(s: Seq<A>, k: int)
    requires
        1 <= k <= s.len(),
    ensures
        s.skip(k - 1).to_set() =~= s.skip(k).to_set().insert(s[k - 1]),
{
    let a = s.skip(k - 1);
    let b = s.skip(k);
    assert forall|x: A| a.to_set().contains(x) implies b.to_set().insert(s[k - 1]).contains(x) by {
        let i = choose|i: int| 0 <= i < a.len() && a[i] == x;
        if i == 0 {
            assert(a[0] == s[k - 1]);
        } else {
            assert(b[i - 1] == x);
            assert(b.contains(x));
        }
    }
    assert forall|x: A| b.to_set().insert(s[k - 1]).contains(x) implies a.to_set().contains(x) by {
        if b.to_set().contains(x) {
            let i = choose|i: int| 0 <= i < b.len() && b[i] == x;
            assert(a[i + 1] == x);
            assert(a.contains(x));
        } else {
            assert(a[0] == x);
            assert(a.contains(x));
        }
    }
}

/// Copies a relative path.
fn clone_path(p: &Vec<String>) -> (r: Vec<String>)
    ensures
        r.deep_view() =~~= p.deep_view(),
{
    let mut out: Vec<String> = Vec::new();
    let mut i: usize = 0;
    while i < p.len()
        invariant
            0 <= i <= p.len(),
            out.deep_view() =~~= p.deep_view().take(i as int),
        decreases p.len() - i,
    {
        let ghost prev = out.deep_view();
        out.push(p[i].clone());
        proof {
            assert(out.deep_view() =~~= prev.push(p.deep_view()[i as int]));
            assert(p.deep_view().take(i + 1) =~~= p.deep_view().take(i as int).push(
                p.deep_view()[i as int],
            ));
        }
        i = i + 1;
    }
    proof {
        assert(p.deep_view().take(p.deep_view().len() as int) =~~= p.deep_view());
    }
    out
}

/// The destinations an activation clears before it links: of the planned
/// link paths, exactly those that are currently link points in the live
/// tree. A destination that is an ordinary directory or file — real content
/// that happens to stand where a link is to go — is never cleared. The shell
/// removes precisely these links, then creates the planned ones.
pub fn stale_link_plan(root: &Vec<FsEntry>, links: &Vec<Vec<String>>) -> (r: Vec<Vec<String>>)
    ensures
        r.deep_view().to_set() == link_points_of(root@, links.deep_view().to_set()),
        forall|p: Seq<Seq<char>>|
            r.deep_view().to_set().contains(p) ==> #[trigger] spec_is_link_at(root@, p),
{
    let ghost ldv = links.deep_view();
    let mut out: Vec<Vec<String>> = Vec::new();
    let mut i: usize = 0;
    proof {
        assert(ldv.take(0).to_set() =~= Set::<Seq<Seq<char>>>::empty());
        assert(out.deep_view().to_set() =~= link_points_of(root@, ldv.take(0).to_set()));
    }
    while i < links.len()
        invariant
            0 <= i <= links.len(),
            ldv == links.deep_view(),
            out.deep_view().to_set() =~= link_points_of(root@, ldv.take(i as int).to_set()),
        decreases links.len() - i,
    {
        let ghost oprev = out.deep_view();
        let linked = is_link_at(root, &links[i]);
        proof {
            assert(ldv[i as int] == links@[i as int].deep_view());
            assert(ldv.take(i + 1) =~~= ldv.take(i as int).push(ldv[i as int]));
            crate::fstree::lemma_push_to_set(ldv.take(i as int), ldv[i as int]);
            if linked {
                assert(link_points_of(root@, ldv.take(i as int).to_set().insert(ldv[i as int]))
                    =~= link_points_of(root@, ldv.take(i as int).to_set()).insert(ldv[i as int]));
            } else {
                assert(link_points_of(root@, ldv.take(i as int).to_set().insert(ldv[i as int]))
                    =~= link_points_of(root@, ldv.take(i as int).to_set()));
            }
        }
        if linked {
            let p = clone_path(&links[i]);
            out.push(p);
            proof {
                assert(out.deep_view() =~~= oprev.push(ldv[i as int]));
                crate::fstree::lemma_push_to_set(oprev, ldv[i as int]);
            }
        }
        i = i + 1;
    }
    proof {
        assert(ldv.take(ldv.len() as int) =~~= ldv);
    }
    out
}

/// Decides a deactivation for a code against a scan of the live tree
/// (`None` when the source path does not exist).
///
/// Discovery that finds nothing is `NotFound`. Otherwise the plan removes
/// exactly those discovered folders that are currently link points — a
/// discovered folder that is an ordinary directory is real content and is
/// never touched — and deletes every discovered control file, which is
/// always a disposable per-activation copy.
pub fn deactivate_plan(root: Option<&Vec<FsEntry>>, code: LangCode) -> (r: Result<
    DeactivatePlan,
    SwitchError,
>)
    ensures
        match root {
            None => r matches Err(SwitchError::NotFound),
            Some(entries) => {
                let loc = spec_locate(entries@, Seq::<Seq<char>>::empty(), code);
                if loc.0 == Set::<Seq<Seq<char>>>::empty() && loc.1 == Set::<
                    Seq<Seq<char>>,
                >::empty() {
                    r matches Err(SwitchError::NotFound)
                } else {
                    match r {
                        Ok(plan) => {
                            &&& plan.unlink.deep_view().to_set() == spec_unlink_set(entries@, code)
                            &&& forall|p: Seq<Seq<char>>|
                                plan.unlink.deep_view().to_set().contains(p)
                                    ==> #[trigger] spec_is_link_at(entries@, p)
                            &&& plan.delete.deep_view().to_set() == loc.1
                        },
                        Err(_) => false,
                    }
                }
            },
        },
{
    let entries = match root {
        None => {
            return Err(SwitchError::NotFound);
        },
        Some(entries) => entries,
    };
    let assets = find_voice_files(entries, code);
    proof {
        lemma_to_set_empty_iff(assets.folders.deep_view());
        lemma_to_set_empty_iff(assets.toc_files.deep_view());
    }
    if assets.folders.len() == 0 && assets.toc_files.len() == 0 {
        return Err(SwitchError::NotFound);
    }
    let ghost fdv = assets.folders.deep_view();
    let mut remaining: Vec<Vec<String>> = assets.folders;
    let mut unlink: Vec<Vec<String>> = Vec::new();
    proof {
        assert(fdv.skip(fdv.len() as int) =~= Seq::<Seq<Seq<char>>>::empty());
        assert(unlink.deep_view().to_set() =~= link_points_of(
            entries@,
            fdv.skip(fdv.len() as int).to_set(),
        ));
    }
    while remaining.len() > 0
        invariant
            remaining@.len() <= fdv.len(),
            remaining.deep_view() =~~= fdv.take(remaining@.len() as int),
            unlink.deep_view().to_set() =~= link_points_of(
                entries@,
                fdv.skip(remaining@.len() as int).to_set(),
            ),
        decreases remaining@.len(),
    {
        let ghost k = remaining@.len() as int;
        let p: Vec<String> = remaining.pop().unwrap();
        proof {
            assert(p.deep_view() == fdv.take(k)[k - 1]);
            assert(fdv.take(k)[k - 1] == fdv[k - 1]);
            assert(remaining.deep_view() =~~= fdv.take(k - 1));
            lemma_skip_to_set_step(fdv, k);
        }
        let ghost uprev = unlink.deep_view();
        let linked = is_link_at(entries, &p);
        proof {
            let old_set = fdv.skip(k).to_set();
            let new_set = fdv.skip(k - 1).to_set();
            assert(new_set =~= old_set.insert(fdv[k - 1]));
            if linked {
                assert(link_points_of(entries@, new_set) =~= link_points_of(
                    entries@,
                    old_set,
                ).insert(fdv[k - 1]));
            } else {
                assert(link_points_of(entries@, new_set) =~= link_points_of(entries@, old_set));
            }
        }
        if linked {
            unlink.push(p);
            proof {
                assert(unlink.deep_view() =~~= uprev.push(fdv[k - 1]));
                crate::fstree::lemma_push_to_set(uprev, fdv[k - 1]);
            }
        }
    }
    proof {
        assert(fdv.skip(0) =~= fdv);
    }
    Ok(DeactivatePlan { unlink, delete: assets.toc_files })
}

} // verus!
