//! Tests for the backup store, the version guard, the activation engine and
//! the deactivation planner.

use voice_switch::backup::{
    capture_plan, list_backups, parse_manifest_build_id, remove_backup_plan, render_manifest,
    BackupDirEntry, BackupInfo,
};
use voice_switch::engine::{activate_plan, check_version_match, deactivate_plan, stale_link_plan};
use voice_switch::fstree::{FsEntry, FsNode};
use voice_switch::lang::LangCode;
use voice_switch::vdf::SteamInfo;
use voice_switch::SwitchError;

fn dir(name: &str, entries: Vec<FsEntry>) -> FsEntry {
    FsEntry { name: name.to_string(), node: FsNode::Dir(entries) }
}

fn link(name: &str, target: Vec<FsEntry>) -> FsEntry {
    FsEntry { name: name.to_string(), node: FsNode::Link(target) }
}

fn file(name: &str) -> FsEntry {
    FsEntry { name: name.to_string(), node: FsNode::File }
}

fn path(parts: &[&str]) -> Vec<String> {
    parts.iter().map(|s| s.to_string()).collect()
}

fn detected(build: &str) -> Option<SteamInfo> {
    Some(SteamInfo { game_path: "C:\\G".to_string(), build_id: build.to_string() })
}

#[test]
fn capture_stores_discovered_assets_and_build_id() {
    let root = vec![dir("Data", vec![dir("voen", vec![file("a.bin")]), file("voen.toc")])];
    let record = capture_plan(Some(&root), LangCode::En, &detected("123")).expect("capture");
    assert_eq!(record.code, LangCode::En);
    assert_eq!(record.build_id, "123");
    assert_eq!(record.folders, vec![path(&["Data", "voen"])]);
    assert_eq!(record.toc_files, vec![path(&["Data", "voen.toc"])]);
}

#[test]
fn capture_without_detection_records_empty_build_id() {
    let root = vec![dir("en", vec![])];
    let record = capture_plan(Some(&root), LangCode::En, &None).expect("capture");
    assert_eq!(record.build_id, "");
}

#[test]
fn capture_of_missing_root_is_not_found() {
    assert!(matches!(
        capture_plan(None, LangCode::En, &None),
        Err(SwitchError::NotFound)
    ));
}

#[test]
fn capture_of_empty_discovery_is_not_found() {
    let root = vec![dir("Data", vec![dir("unrelated", vec![])])];
    assert!(matches!(
        capture_plan(Some(&root), LangCode::En, &None),
        Err(SwitchError::NotFound)
    ));
}

#[test]
fn capture_refuses_control_files_without_folders() {
    // only en.toc, no en or voen directory: incomplete, nothing is written
    let root = vec![file("en.toc")];
    assert!(matches!(
        capture_plan(Some(&root), LangCode::En, &detected("9")),
        Err(SwitchError::Incomplete)
    ));
}

#[test]
fn manifest_round_trips_build_id() {
    let record = capture_plan(
        Some(&vec![dir("voja", vec![]), file("ja.toc")]),
        LangCode::Ja,
        &detected("20250101"),
    )
    .expect("capture");
    let text = render_manifest(&record);
    assert_eq!(
        text,
        "build_id=20250101\nlang_code=ja\nfolders=voja\ntoc_files=ja.toc\n"
    );
    assert_eq!(parse_manifest_build_id(&text), "20250101");
}

#[test]
fn manifest_renders_nested_paths_with_separators() {
    let record = capture_plan(
        Some(&vec![dir("Data", vec![dir("en", vec![]), dir("voen", vec![]), file("en.toc")])]),
        LangCode::En,
        &None,
    )
    .expect("capture");
    let text = render_manifest(&record);
    assert_eq!(
        text,
        "build_id=\nlang_code=en\nfolders=Data\\en;Data\\voen\ntoc_files=Data\\en.toc\n"
    );
    assert_eq!(parse_manifest_build_id(&text), "");
}

#[test]
fn manifest_parse_tolerates_junk() {
    assert_eq!(parse_manifest_build_id(""), "");
    assert_eq!(parse_manifest_build_id("no key here\nnor here"), "");
    assert_eq!(parse_manifest_build_id("x=1\r\nbuild_id=42\r\ny=2"), "42");
}

#[test]
fn listing_keeps_code_directories_only() {
    let entries = vec![
        BackupDirEntry {
            name: "en".to_string(),
            is_dir: true,
            info_content: Some("build_id=7\nlang_code=en\n".to_string()),
        },
        BackupDirEntry { name: "notacode".to_string(), is_dir: true, info_content: None },
        BackupDirEntry { name: "ja".to_string(), is_dir: false, info_content: None },
        BackupDirEntry { name: "de".to_string(), is_dir: true, info_content: None },
    ];
    let backups = list_backups(&entries);
    assert_eq!(backups.len(), 2);
    assert_eq!(backups[0].lang_code, LangCode::En);
    assert_eq!(backups[0].build_id, "7");
    assert_eq!(backups[1].lang_code, LangCode::De);
    assert_eq!(backups[1].build_id, "");
}

#[test]
fn listing_directory_name_overrides_manifest_code() {
    // the manifest claims another code; the directory name decides
    let entries = vec![BackupDirEntry {
        name: "fr".to_string(),
        is_dir: true,
        info_content: Some("build_id=5\nlang_code=en\n".to_string()),
    }];
    let backups = list_backups(&entries);
    assert_eq!(backups.len(), 1);
    assert_eq!(backups[0].lang_code, LangCode::Fr);
    assert_eq!(backups[0].build_id, "5");
}

#[test]
fn version_guard_blocks_only_a_real_mismatch() {
    let backups = vec![BackupInfo { lang_code: LangCode::En, build_id: "100".to_string() }];
    // mismatch: both ids are reported
    let pair = check_version_match(&backups, 0, &detected("200")).expect("mismatch");
    assert_eq!(pair, ("100".to_string(), "200".to_string()));
    // equal ids pass
    assert!(check_version_match(&backups, 0, &detected("100")).is_none());
    // nothing detected passes
    assert!(check_version_match(&backups, 0, &None).is_none());
    // empty recorded id passes
    let unknown = vec![BackupInfo { lang_code: LangCode::En, build_id: String::new() }];
    assert!(check_version_match(&unknown, 0, &detected("200")).is_none());
    // no backups listed: nothing to check
    assert!(check_version_match(&Vec::new(), 0, &detected("200")).is_none());
}

#[test]
fn activation_blocks_on_version_mismatch_with_no_plan() {
    let record = BackupInfo { lang_code: LangCode::En, build_id: "100".to_string() };
    let snapshot = vec![dir("voen", vec![])];
    let r = activate_plan(&record, Some(&snapshot), &detected("200"));
    match r {
        Err(SwitchError::VersionMismatch { backup_id, current_id }) => {
            assert_eq!(backup_id, "100");
            assert_eq!(current_id, "200");
        },
        _ => panic!("expected a version mismatch"),
    }
}

#[test]
fn activation_with_empty_recorded_build_id_always_proceeds() {
    let record = BackupInfo { lang_code: LangCode::En, build_id: String::new() };
    let snapshot = vec![dir("voen", vec![])];
    let plan = activate_plan(&record, Some(&snapshot), &detected("999")).expect("activate");
    assert_eq!(plan.links, vec![path(&["voen"])]);
    assert!(plan.copies.is_empty());
}

#[test]
fn activation_without_detection_proceeds() {
    let record = BackupInfo { lang_code: LangCode::En, build_id: "100".to_string() };
    let snapshot = vec![file("en.toc")];
    let plan = activate_plan(&record, Some(&snapshot), &None).expect("activate");
    assert!(plan.links.is_empty());
    assert_eq!(plan.copies, vec![path(&["en.toc"])]);
}

#[test]
fn activation_of_missing_snapshot_is_not_found() {
    let record = BackupInfo { lang_code: LangCode::En, build_id: String::new() };
    assert!(matches!(
        activate_plan(&record, None, &None),
        Err(SwitchError::NotFound)
    ));
}

#[test]
fn missing_snapshot_outranks_version_mismatch() {
    // the snapshot directory is gone and the build ids also disagree: the
    // missing record decides, before the version guard is consulted
    let record = BackupInfo { lang_code: LangCode::En, build_id: "100".to_string() };
    assert!(matches!(
        activate_plan(&record, None, &detected("200")),
        Err(SwitchError::NotFound)
    ));
}

#[test]
fn activation_clears_only_stale_links() {
    // of the planned destinations, only the existing link point is cleared:
    // the ordinary directory and the absent path are left alone
    let live = vec![dir("Data", vec![link("voen", vec![]), dir("en", vec![])])];
    let links = vec![
        path(&["Data", "voen"]),
        path(&["Data", "en"]),
        path(&["Data", "missing"]),
    ];
    let stale = stale_link_plan(&live, &links);
    assert_eq!(stale, vec![path(&["Data", "voen"])]);
}

#[test]
fn activation_of_empty_snapshot_is_nothing_to_restore() {
    let record = BackupInfo { lang_code: LangCode::En, build_id: String::new() };
    let snapshot = vec![dir("unrelated", vec![])];
    assert!(matches!(
        activate_plan(&record, Some(&snapshot), &None),
        Err(SwitchError::NothingToRestore)
    ));
}

#[test]
fn capture_then_activate_links_every_captured_asset() {
    // capture from the live tree
    let root = vec![dir("Data", vec![dir("voen", vec![file("v.bin")]), file("voen.toc")])];
    let record = capture_plan(Some(&root), LangCode::En, &detected("100")).expect("capture");
    // the snapshot directory then holds the captured paths
    let snapshot = vec![dir("Data", vec![dir("voen", vec![file("v.bin")]), file("voen.toc")])];
    let info = BackupInfo { lang_code: record.code, build_id: record.build_id.clone() };
    // build id unchanged
    let plan = activate_plan(&info, Some(&snapshot), &detected("100")).expect("activate");
    assert_eq!(plan.links, record.folders);
    assert_eq!(plan.copies, record.toc_files);
}

#[test]
fn deactivation_spares_ordinary_folders() {
    // `de` is an ordinary directory with unrelated files: left untouched
    let root = vec![dir("de", vec![file("keep.bin")])];
    let plan = deactivate_plan(Some(&root), LangCode::De).expect("deactivate");
    assert!(plan.unlink.is_empty());
    assert!(plan.delete.is_empty());
}

#[test]
fn deactivation_removes_links_and_control_files() {
    let root = vec![
        dir("Data", vec![link("voen", vec![]), dir("en", vec![]), file("en.toc")]),
    ];
    let plan = deactivate_plan(Some(&root), LangCode::En).expect("deactivate");
    assert_eq!(plan.unlink, vec![path(&["Data", "voen"])]);
    assert_eq!(plan.delete, vec![path(&["Data", "en.toc"])]);
}

#[test]
fn deactivation_with_nothing_discovered_is_not_found() {
    let root = vec![dir("unrelated", vec![])];
    assert!(matches!(
        deactivate_plan(Some(&root), LangCode::En),
        Err(SwitchError::NotFound)
    ));
    assert!(matches!(
        deactivate_plan(None, LangCode::En),
        Err(SwitchError::NotFound)
    ));
}

#[test]
fn backup_removal_is_a_noop_when_absent() {
    // a present snapshot is named for deletion; an absent one is a
    // successful no-op, never an error
    assert_eq!(remove_backup_plan(LangCode::Ja, true), Some(LangCode::Ja));
    assert_eq!(remove_backup_plan(LangCode::Ja, false), None);
}
