//! Tests for the language catalogue, the configuration-text parser and the
//! installation resolver.

use voice_switch::lang::{
    get_languages, get_launch_param, get_selected_lang_code, code_str, miles_str, parse_lang_code,
    str_eq, LangCode,
};
use voice_switch::text::{contains_substr, join_strings, split_char, split_lines, starts_with};
use voice_switch::vdf::{
    detect_steam, extract_vdf_value, get_library_folders, normalize_seps, parse_app_manifest,
    parse_steam_info, steam_candidate_roots, voice_data_path, LibraryProbe, SteamProbe,
};

#[test]
fn catalogue_has_eight_fixed_entries() {
    let langs = get_languages();
    assert_eq!(langs.len(), 8);
    assert_eq!(langs[0].code, LangCode::En);
    assert_eq!(langs[0].name, "English");
    assert_eq!(langs[0].miles_lang, "english");
    assert_eq!(langs[7].code, LangCode::Ko);
    assert_eq!(langs[7].miles_lang, "korean");
    // codes are unique
    for i in 0..8 {
        for j in 0..8 {
            if i != j {
                assert_ne!(langs[i].code, langs[j].code);
            }
        }
    }
}

#[test]
fn code_strings_round_trip() {
    let langs = get_languages();
    for l in &langs {
        assert_eq!(parse_lang_code(code_str(l.code)), Some(l.code));
    }
    assert_eq!(parse_lang_code("zz"), None);
    assert_eq!(parse_lang_code(""), None);
    assert_eq!(parse_lang_code("EN"), None);
}

#[test]
fn selected_lang_code_follows_catalogue_order() {
    assert_eq!(get_selected_lang_code(0), "en");
    assert_eq!(get_selected_lang_code(2), "cn");
    assert_eq!(get_selected_lang_code(7), "ko");
}

#[test]
fn launch_param_names_engine_token() {
    assert_eq!(get_launch_param(LangCode::En), "+miles_language english");
    assert_eq!(get_launch_param(LangCode::Cn), "+miles_language chinese");
    assert_eq!(miles_str(LangCode::Ru), "russian");
}

#[test]
fn str_eq_compares_content() {
    assert!(str_eq("abc", "abc"));
    assert!(!str_eq("abc", "abd"));
    assert!(str_eq("", ""));
}

#[test]
fn split_char_keeps_end_segments() {
    let parts = split_char("a\"b\"c", '"');
    assert_eq!(parts, vec!["a", "b", "c"]);
    let parts = split_char("\"k\" \"v\"", '"');
    assert_eq!(parts, vec!["", "k", " ", "v", ""]);
    let parts = split_char("no sep", '"');
    assert_eq!(parts, vec!["no sep"]);
    let parts = split_char("", ';');
    assert_eq!(parts, vec![""]);
    let parts = split_char(";;", ';');
    assert_eq!(parts, vec!["", "", ""]);
}

#[test]
fn split_lines_strips_carriage_returns() {
    let lines = split_lines("a\r\nb\nc");
    assert_eq!(lines, vec!["a", "b", "c"]);
    let lines = split_lines("one\n");
    assert_eq!(lines, vec!["one", ""]);
}

#[test]
fn contains_substr_finds_keys() {
    assert!(contains_substr("\t\"path\"\t\t\"D:\\x\"", "\"path\""));
    assert!(!contains_substr("\t\"paths\"", "\"path\"\""));
    assert!(contains_substr("abc", ""));
    assert!(!contains_substr("ab", "abc"));
}

#[test]
fn starts_with_checks_prefix() {
    assert!(starts_with("build_id=77", "build_id="));
    assert!(!starts_with("xbuild_id=77", "build_id="));
    assert!(!starts_with("build", "build_id="));
}

#[test]
fn join_strings_interleaves_separator() {
    let v: Vec<String> = vec!["a".to_string(), "b".to_string(), "c".to_string()];
    assert_eq!(join_strings(&v, ";"), "a;b;c");
    let one: Vec<String> = vec!["solo".to_string()];
    assert_eq!(join_strings(&one, ";"), "solo");
    let none: Vec<String> = Vec::new();
    assert_eq!(join_strings(&none, ";"), "");
}

#[test]
fn vdf_value_is_fourth_quoted_segment() {
    let line = "\t\"installdir\"\t\t\"Battlefield 6\"";
    assert_eq!(extract_vdf_value(line), Some("Battlefield 6".to_string()));
    assert_eq!(extract_vdf_value("\"only\" one pair"), None);
    assert_eq!(extract_vdf_value("no quotes at all"), None);
    assert_eq!(extract_vdf_value("\"k\"\"v\""), Some("v".to_string()));
}

#[test]
fn app_manifest_needs_both_values() {
    let good = "\"AppState\"\n{\n\t\"installdir\"\t\t\"Battlefield 6\"\n\t\"buildid\"\t\t\"20250101\"\n}\n";
    assert_eq!(
        parse_app_manifest(good),
        Some(("Battlefield 6".to_string(), "20250101".to_string()))
    );
    let missing_build = "\t\"installdir\"\t\t\"Battlefield 6\"\n";
    assert_eq!(parse_app_manifest(missing_build), None);
    let empty_value = "\t\"installdir\"\t\t\"\"\n\t\"buildid\"\t\t\"9\"\n";
    assert_eq!(parse_app_manifest(empty_value), None);
    // a later occurrence of a key overwrites the earlier one
    let twice = "\t\"installdir\"\t\t\"Old\"\n\t\"installdir\"\t\t\"New\"\n\t\"buildid\"\t\t\"3\"\n";
    assert_eq!(parse_app_manifest(twice), Some(("New".to_string(), "3".to_string())));
}

#[test]
fn library_folders_include_root_and_distinct_paths() {
    let root = "C:\\Program Files (x86)\\Steam".to_string();
    let vdf = "\"libraryfolders\"\n{\n\t\"0\"\n\t{\n\t\t\"path\"\t\t\"C:\\\\Program Files (x86)\\\\Steam\"\n\t}\n\t\"1\"\n\t{\n\t\t\"path\"\t\t\"D:\\\\Games\"\n\t}\n}\n";
    let folders = get_library_folders(&root, &Some(vdf.to_string()));
    assert_eq!(
        folders,
        vec!["C:\\Program Files (x86)\\Steam".to_string(), "D:\\Games".to_string()]
    );
    // no descriptor: the root alone
    let folders = get_library_folders(&root, &None);
    assert_eq!(folders, vec![root.clone()]);
}

#[test]
fn normalize_seps_collapses_escapes() {
    assert_eq!(normalize_seps("D:\\\\Games\\\\Steam"), "D:\\Games\\Steam");
    assert_eq!(normalize_seps("D:\\Games"), "D:\\Games");
    assert_eq!(normalize_seps(""), "");
}

#[test]
fn steam_detection_takes_first_resolving_candidate() {
    let manifest = "\t\"installdir\"\t\t\"Battlefield 6\"\n\t\"buildid\"\t\t\"100\"\n";
    let probes = vec![
        SteamProbe { has_marker: false, libraries: Vec::new() },
        SteamProbe {
            has_marker: true,
            libraries: vec![
                LibraryProbe { lib_path: "C:\\Steam".to_string(), manifest: None },
                LibraryProbe {
                    lib_path: "D:\\Games".to_string(),
                    manifest: Some(manifest.to_string()),
                },
            ],
        },
    ];
    let info = detect_steam(&probes).expect("an installation is resolved");
    assert_eq!(info.game_path, "D:\\Games\\steamapps\\common\\Battlefield 6");
    assert_eq!(info.build_id, "100");
    assert_eq!(
        voice_data_path(&info.game_path),
        "D:\\Games\\steamapps\\common\\Battlefield 6\\Data\\Win32"
    );
}

#[test]
fn steam_detection_yields_nothing_without_markers() {
    let probes = vec![SteamProbe { has_marker: false, libraries: Vec::new() }];
    assert!(detect_steam(&probes).is_none());
    assert!(parse_steam_info(&Vec::new()).is_none());
}

#[test]
fn candidate_roots_are_the_conventional_six() {
    let roots = steam_candidate_roots();
    assert_eq!(roots.len(), 6);
    assert_eq!(roots[0], "C:\\Program Files (x86)\\Steam");
    assert_eq!(roots[3], "E:\\Steam");
}
