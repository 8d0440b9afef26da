//! Tests for asset discovery over the modeled directory tree.

use voice_switch::fstree::{find_voice_files, is_link_at, FsEntry, FsNode};
use voice_switch::lang::LangCode;

fn dir(name: &str, entries: Vec<FsEntry>) -> FsEntry {
    FsEntry { name: name.to_string(), node: FsNode::Dir(entries) }
}

fn link(name: &str, target: Vec<FsEntry>) -> FsEntry {
    FsEntry { name: name.to_string(), node: FsNode::Link(target) }
}

fn file(name: &str) -> FsEntry {
    FsEntry { name: name.to_string(), node: FsNode::File }
}

fn path(parts: &[&str]) -> Vec<String> {
    parts.iter().map(|s| s.to_string()).collect()
}

#[test]
fn discovery_finds_both_name_variants() {
    let root = vec![
        dir("Data", vec![dir("en", vec![file("x.bin")]), dir("voen", vec![]), file("en.toc"),
            file("voen.toc")]),
    ];
    let assets = find_voice_files(&root, LangCode::En);
    assert_eq!(assets.folders.len(), 2);
    assert!(assets.folders.contains(&path(&["Data", "en"])));
    assert!(assets.folders.contains(&path(&["Data", "voen"])));
    assert_eq!(assets.toc_files.len(), 2);
    assert!(assets.toc_files.contains(&path(&["Data", "en.toc"])));
    assert!(assets.toc_files.contains(&path(&["Data", "voen.toc"])));
}

#[test]
fn discovery_is_code_specific() {
    let root = vec![dir("en", vec![]), dir("vode", vec![]), file("de.toc")];
    let assets = find_voice_files(&root, LangCode::De);
    assert_eq!(assets.folders, vec![path(&["vode"])]);
    assert_eq!(assets.toc_files, vec![path(&["de.toc"])]);
}

#[test]
fn discovery_does_not_search_inside_matched_folders() {
    // a matched folder is recorded and never entered: nested matches stay out
    let root = vec![dir("en", vec![dir("voen", vec![]), file("en.toc")])];
    let assets = find_voice_files(&root, LangCode::En);
    assert_eq!(assets.folders, vec![path(&["en"])]);
    assert!(assets.toc_files.is_empty());
}

#[test]
fn discovery_never_descends_through_links() {
    // root/a is a link whose target shows an `en` folder and an `en.toc`
    // file: neither may be reported
    let root = vec![
        link("a", vec![dir("en", vec![]), file("en.toc")]),
        dir("b", vec![file("en.toc")]),
    ];
    let assets = find_voice_files(&root, LangCode::En);
    assert!(assets.folders.is_empty());
    assert_eq!(assets.toc_files, vec![path(&["b", "en.toc"])]);
}

#[test]
fn matching_link_is_recorded_but_not_entered() {
    let root = vec![link("voen", vec![dir("en", vec![])])];
    let assets = find_voice_files(&root, LangCode::En);
    assert_eq!(assets.folders, vec![path(&["voen"])]);
    assert!(assets.toc_files.is_empty());
}

#[test]
fn empty_tree_yields_empty_asset_set() {
    let root: Vec<FsEntry> = Vec::new();
    let assets = find_voice_files(&root, LangCode::Ja);
    assert!(assets.folders.is_empty());
    assert!(assets.toc_files.is_empty());
}

#[test]
fn discovery_reaches_deeply_nested_assets() {
    let root = vec![dir(
        "a",
        vec![dir("b", vec![dir("c", vec![dir("en", vec![]), file("voen.toc")])])],
    )];
    let assets = find_voice_files(&root, LangCode::En);
    assert_eq!(assets.folders, vec![path(&["a", "b", "c", "en"])]);
    assert_eq!(assets.toc_files, vec![path(&["a", "b", "c", "voen.toc"])]);
}

#[test]
fn discovery_ignores_matching_names_of_the_wrong_kind() {
    // a file named like a folder, and a directory named like a control file
    let root = vec![file("en"), dir("en.toc", vec![dir("voen", vec![])])];
    let assets = find_voice_files(&root, LangCode::En);
    assert_eq!(assets.folders, vec![path(&["en.toc", "voen"])]);
    assert!(assets.toc_files.is_empty());
}

#[test]
fn link_probe_tells_links_from_directories() {
    let root = vec![dir("Data", vec![link("en", vec![]), dir("voen", vec![])])];
    assert!(is_link_at(&root, &path(&["Data", "en"])));
    assert!(!is_link_at(&root, &path(&["Data", "voen"])));
    assert!(!is_link_at(&root, &path(&["Data", "missing"])));
    assert!(!is_link_at(&root, &path(&[])));
}
