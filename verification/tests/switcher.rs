//! Tests for the session-state type and its methods.

use voice_switch::backup::{BackupDirEntry, BackupInfo};
use voice_switch::fstree::{FsEntry, FsNode};
use voice_switch::lang::LangCode;
use voice_switch::switcher::BF6VoiceSwitcher;
use voice_switch::vdf::{LibraryProbe, SteamInfo, SteamProbe};

#[test]
fn fresh_session_has_catalogue_and_no_detection() {
    let s = BF6VoiceSwitcher::new();
    assert_eq!(s.languages.len(), 8);
    assert_eq!(s.selected_lang_idx, 0);
    assert!(s.steam_info.is_none());
    assert!(s.available_backups.is_empty());
    assert_eq!(s.source_path, "");
    assert_eq!(s.get_selected_lang_code(), "en");
    assert_eq!(s.get_launch_param(), "+miles_language english");
}

#[test]
fn session_detection_fills_source_path() {
    let mut s = BF6VoiceSwitcher::new();
    let manifest = "\t\"installdir\"\t\t\"Battlefield 6\"\n\t\"buildid\"\t\t\"42\"\n";
    let probes = vec![SteamProbe {
        has_marker: true,
        libraries: vec![LibraryProbe {
            lib_path: "D:\\Steam".to_string(),
            manifest: Some(manifest.to_string()),
        }],
    }];
    s.detect_steam(&probes);
    let info = s.steam_info.as_ref().expect("detected");
    assert_eq!(info.build_id, "42");
    assert_eq!(
        s.source_path,
        "D:\\Steam\\steamapps\\common\\Battlefield 6\\Data\\Win32"
    );
    // a failed redetection keeps the previous result
    s.detect_steam(&Vec::new());
    assert!(s.steam_info.is_some());
}

#[test]
fn session_method_faces_match_free_functions() {
    let s = BF6VoiceSwitcher::new();
    assert_eq!(
        s.extract_vdf_value("\t\"buildid\"\t\t\"7\""),
        Some("7".to_string())
    );
    assert!(s.parse_steam_info(&Vec::new()).is_none());
    let root = vec![FsEntry { name: "voen".to_string(), node: FsNode::Dir(Vec::new()) }];
    let assets = s.find_voice_files(&root, LangCode::En);
    assert_eq!(assets.folders, vec![vec!["voen".to_string()]]);
}

#[test]
fn session_refresh_and_version_check() {
    let mut s = BF6VoiceSwitcher::new();
    assert!(s.check_version_match().is_none());
    let entries = vec![BackupDirEntry {
        name: "en".to_string(),
        is_dir: true,
        info_content: Some("build_id=100\n".to_string()),
    }];
    s.refresh_backups(&entries);
    assert_eq!(s.available_backups.len(), 1);
    assert_eq!(s.selected_backup_idx, 0);
    assert_eq!(
        s.available_backups[0].build_id,
        "100"
    );
    s.steam_info = Some(SteamInfo { game_path: "g".to_string(), build_id: "200".to_string() });
    assert_eq!(
        s.check_version_match(),
        Some(("100".to_string(), "200".to_string()))
    );
    s.available_backups = vec![BackupInfo { lang_code: LangCode::En, build_id: String::new() }];
    assert!(s.check_version_match().is_none());
}
