//! The configuration-text parser and the installation resolver: quoted
//! values are extracted from line-oriented key/value text, library roots are
//! enumerated from a descriptor, and the install path and build identifier
//! are read from a per-application manifest. All file contents arrive here
//! as plain strings; reading them from disk is the shell's job.

use vstd::prelude::*;

verus! {

use vstd::string::StrSliceExecFns;
use vstd::string::StringExecFns;
use crate::text::{
    spec_split, spec_lines, spec_contains_substr, split_char, split_lines, contains_substr,
};

/// A detected installation: the game's install path and its build
/// identifier.
#[derive(Clone)]
pub struct SteamInfo {
    pub game_path: String,
    pub build_id: String,
}

/// The build id of a detection result, when there is one.
pub open spec fn spec_detected_build(detected: Option<SteamInfo>) -> Option<Seq<char>> {
    match detected {
        Some(info) => Some(info.build_id@),
        None => None,
    }
}

/// The build id a capture records for a detection result: the detected one,
/// or empty when none was detected.
pub open spec fn spec_recorded_build(detected_build: Option<Seq<char>>) -> Seq<char> {
    match detected_build {
        Some(b) => b,
        None => Seq::<char>::empty(),
    }
}

/// The view of an optional string.
pub open spec fn opt_str_view(o: Option<String>) -> Option<Seq<char>> {
    match o {
        Some(s) => Some(s@),
        None => None,
    }
}

/// The value carried by a configuration line: its fourth quote-separated
/// segment, which is the content of the second quoted token on a
/// well-formed `"key" "value"` line.
pub open spec fn spec_vdf_value(line: Seq<char>) -> Option<Seq<char>> {
    let parts = spec_split(line, '"');
    if parts.len() >= 4 {
        Some(parts[3])
    } else {
        None
    }
}

/// Extracts the quoted value of a configuration line, or nothing when the
/// line has fewer than four quote-separated segments.
pub fn extract_vdf_value(line: &str) -> (r: Option<String>)
    ensures
        opt_str_view(r) == spec_vdf_value(line@),
{
    let parts = split_char(line, '"');
    if parts.len() >= 4 {
        let v: String = parts[3].clone();
        proof {
            assert(parts.deep_view()[3] == parts@[3]@);
        }
        Some(v)
    } else {
        None
    }
}

/// A value, or the empty string when there is none.
pub open spec fn spec_value_or_empty(o: Option<Seq<char>>) -> Seq<char> {
    match o {
        Some(v) => v,
        None => Seq::<char>::empty(),
    }
}

/// The install-directory and build-id values after the first `n` lines of a
/// manifest have been read, in order. A line containing the quoted
/// `installdir` key overwrites the first value; otherwise a line containing
/// the quoted `buildid` key overwrites the second. A matching line without a
/// quoted value resets the value to empty.
pub open spec fn spec_manifest_values(lines: Seq<Seq<char>>, n: int) -> (Seq<char>, Seq<char>)
    decreases n,
{
    if n <= 0 {
        (Seq::<char>::empty(), Seq::<char>::empty())
    } else {
        let prev = spec_manifest_values(lines, n - 1);
        let l = lines[n - 1];
        if spec_contains_substr(l, "\"installdir\""@) {
            (spec_value_or_empty(spec_vdf_value(l)), prev.1)
        } else if spec_contains_substr(l, "\"buildid\""@) {
            (prev.0, spec_value_or_empty(spec_vdf_value(l)))
        } else {
            prev
        }
    }
}

/// What parsing a whole manifest yields: the final install-directory and
/// build-id values, provided both are non-empty.
pub open spec fn spec_parse_app_manifest(content: Seq<char>) -> Option<(Seq<char>, Seq<char>)> {
    let lines = spec_lines(content);
    let vals = spec_manifest_values(lines, lines.len() as int);
    if vals.0.len() > 0 && vals.1.len() > 0 {
        Some(vals)
    } else {
        None
    }
}

/// Parses a per-application manifest: yields the install directory and build
/// id exactly when both are present and non-empty.
pub fn parse_app_manifest(content: &str) -> (r: Option<(String, String)>)
    ensures
        match r {
            Some(v) => spec_parse_app_manifest(content@) == Some((v.0@, v.1@)),
            None => spec_parse_app_manifest(content@) is None,
        },
{
    let lines = split_lines(content);
    let mut install_dir: String = String::new();
    let mut build_id: String = String::new();
    let mut i: usize = 0;
    while i < lines.len()
        invariant
            0 <= i <= lines.len(),
            lines.deep_view() =~~= spec_lines(content@),
            (install_dir@, build_id@) == spec_manifest_values(lines.deep_view(), i as int),
        decreases lines.len() - i,
    {
        let line: &String = &lines[i];
        if contains_substr(line.as_str(), "\"installdir\"") {
            install_dir = match extract_vdf_value(line.as_str()) {
                Some(v) => v,
                None => String::new(),
            };
        } else if contains_substr(line.as_str(), "\"buildid\"") {
            build_id = match extract_vdf_value(line.as_str()) {
                Some(v) => v,
                None => String::new(),
            };
        }
        proof {
            assert(lines.deep_view()[i as int] == lines@[i as int]@);
        }
        i = i + 1;
    }
    if !install_dir.as_str().is_empty() && !build_id.as_str().is_empty() {
        Some((install_dir, build_id))
    } else {
        None
    }
}

/// A path with each escaped (doubled) separator normalized to a single one,
/// scanning left to right.
pub open spec fn spec_normalize_seps(s: Seq<char>) -> Seq<char>
    decreases s.len(),
{
    if s.len() == 0 {
        s
    } else if s.len() >= 2 && s[0] == '\\' && s[1] == '\\' {
        seq!['\\'] + spec_normalize_seps(s.skip(2))
    } else {
        seq![s[0]] + spec_normalize_seps(s.skip(1))
    }
}

/// Normalizes escaped separators in a path value.
pub fn normalize_seps(s: &str) -> (r: String)
    ensures
        r@ == spec_normalize_seps(s@),
{
    let n: usize = s.unicode_len();
    let mut acc: String = String::new();
    let mut i: usize = 0;
    proof {
        assert(s@.skip(0) =~= s@);
        assert(acc@ + spec_normalize_seps(s@) =~= spec_normalize_seps(s@));
    }
    while i < n
        invariant
            0 <= i <= n,
            n == s@.len(),
            spec_normalize_seps(s@) =~= acc@ + spec_normalize_seps(s@.skip(i as int)),
        decreases n - i,
    {
        let ghost pre = acc@;
        if i + 1 < n && s.get_char(i) == '\\' && s.get_char(i + 1) == '\\' {
            acc.append("\\");
            proof {
                reveal_strlit("\\");
                let tail = s@.skip(i as int);
                assert(tail.len() >= 2 && tail[0] == '\\' && tail[1] == '\\');
                assert(tail.skip(2) =~= s@.skip(i + 2));
                assert(acc@ =~= pre + seq!['\\']);
                assert(pre + (seq!['\\'] + spec_normalize_seps(s@.skip(i + 2))) =~= acc@ + spec_normalize_seps(s@.skip(i + 2)));
            }
            i = i + 2;
        } else {
            let piece: &str = s.substring_char(i, i + 1);
            acc.append(piece);
            proof {
                let tail = s@.skip(i as int);
                assert(tail.len() >= 1 && tail[0] == s@[i as int]);
                assert(!(tail.len() >= 2 && tail[0] == '\\' && tail[1] == '\\'));
                assert(tail.skip(1) =~= s@.skip(i + 1));
                assert(piece@ =~= seq![s@[i as int]]);
                assert(pre + (seq![s@[i as int]] + spec_normalize_seps(s@.skip(i + 1))) =~= acc@ + spec_normalize_seps(s@.skip(i + 1)));
            }
            i = i + 1;
        }
    }
    proof {
        assert(s@.skip(n as int) =~= Seq::<char>::empty());
        assert(acc@ + Seq::<char>::empty() =~= acc@);
    }
    acc
}

/// The library roots named by the first `n` lines of a library-folders
/// descriptor, starting from the descriptor's own root: each line containing
/// the quoted `path` key contributes its normalized value, once.
pub open spec fn spec_library_folders(root: Seq<char>, lines: Seq<Seq<char>>, n: int) -> Seq<
    Seq<char>,
>
    decreases n,
{
    if n <= 0 {
        seq![root]
    } else {
        let prev = spec_library_folders(root, lines, n - 1);
        let l = lines[n - 1];
        if spec_contains_substr(l, "\"path\""@) && spec_vdf_value(l) is Some {
            let p = spec_normalize_seps(spec_vdf_value(l)->0);
            if prev.contains(p) {
                prev
            } else {
                prev.push(p)
            }
        } else {
            prev
        }
    }
}

/// Whether a path is already among the collected folders.
fn vec_contains_string(v: &Vec<String>, x: &String) -> (r: bool)
    ensures
        r == v.deep_view().contains(x@),
{
    let mut i: usize = 0;
    while i < v.len()
        invariant
            0 <= i <= v.len(),
            forall|j: int| 0 <= j < i ==> v.deep_view()[j] != x@,
        decreases v.len() - i,
    {
        if crate::lang::str_eq(v[i].as_str(), x.as_str()) {
            proof {
                assert(v.deep_view()[i as int] == x@);
            }
            return true;
        }
        proof {
            assert(v.deep_view()[i as int] == v@[i as int]@);
        }
        i = i + 1;
    }
    false
}

/// Enumerates the library roots of an installation: the root itself,
/// followed by each distinct path named in the library-folders descriptor.
/// An unreadable descriptor yields the root alone.
pub fn get_library_folders(steam_path: &String, vdf_content: &Option<String>) -> (r: Vec<String>)
    ensures
        match vdf_content {
            Some(c) => {
                let lines = spec_lines(c@);
                r.deep_view() =~~= spec_library_folders(steam_path@, lines, lines.len() as int)
            },
            None => r.deep_view() =~~= seq![steam_path@],
        },
{
    let mut folders: Vec<String> = Vec::new();
    folders.push(steam_path.clone());
    proof {
        assert(folders.deep_view() =~~= seq![steam_path@]);
    }
    match vdf_content {
        None => folders,
        Some(content) => {
            let lines = split_lines(content.as_str());
            let mut i: usize = 0;
            while i < lines.len()
                invariant
                    0 <= i <= lines.len(),
                    lines.deep_view() =~~= spec_lines(content@),
                    folders.deep_view() =~~= spec_library_folders(
                        steam_path@,
                        lines.deep_view(),
                        i as int,
                    ),
                decreases lines.len() - i,
            {
                let line: &String = &lines[i];
                proof {
                    assert(lines.deep_view()[i as int] == lines@[i as int]@);
                }
                if contains_substr(line.as_str(), "\"path\"") {
                    match extract_vdf_value(line.as_str()) {
                        Some(raw) => {
                            let ghost pre = folders.deep_view();
                            let p = normalize_seps(raw.as_str());
                            if !vec_contains_string(&folders, &p) {
                                folders.push(p);
                                proof {
                                    assert(folders.deep_view() =~~= pre.push(p@));
                                }
                            }
                        },
                        None => {},
                    }
                }
                i = i + 1;
            }
            folders
        },
    }
}

/// One library root together with the content of its per-application
/// manifest, when that file could be read.
pub struct LibraryProbe {
    pub lib_path: String,
    pub manifest: Option<String>,
}

/// The game path inside a library root: the library's common-apps directory
/// followed by the install directory.
pub open spec fn spec_game_path(lib: Seq<char>, install_dir: Seq<char>) -> Seq<char> {
    lib + "\\steamapps\\common\\"@ + install_dir
}

/// The first library whose manifest parses, among the first `n`: the
/// library path with the parsed install directory and build id.
pub open spec fn spec_first_manifest_hit(libs: Seq<LibraryProbe>, n: int) -> Option<
    (Seq<char>, (Seq<char>, Seq<char>)),
>
    decreases n,
{
    if n <= 0 {
        None
    } else {
        let prev = spec_first_manifest_hit(libs, n - 1);
        if prev is Some {
            prev
        } else {
            match libs[n - 1].manifest {
                Some(c) => match spec_parse_app_manifest(c@) {
                    Some(v) => Some((libs[n - 1].lib_path@, v)),
                    None => None,
                },
                None => None,
            }
        }
    }
}

/// A hit among the first `m` libraries stays the hit among any longer
/// prefix.
proof fn lemma_first_manifest_hit_monotone(libs: Seq<LibraryProbe>, m: int, n: int)
    requires
        0 <= m <= n,
        spec_first_manifest_hit(libs, m) is Some,
    ensures
        spec_first_manifest_hit(libs, n) == spec_first_manifest_hit(libs, m),
    decreases n,
{
    if n > m {
        lemma_first_manifest_hit_monotone(libs, m, n - 1);
    }
}

/// Resolves an installation from a list of library probes: the first library
/// whose manifest yields an install directory and build id gives the game
/// path and build id.
pub fn parse_steam_info(libs: &Vec<LibraryProbe>) -> (r: Option<SteamInfo>)
    ensures
        match r {
            Some(info) => {
                &&& spec_first_manifest_hit(libs@, libs@.len() as int) is Some
                &&& {
                    let hit = spec_first_manifest_hit(libs@, libs@.len() as int)->0;
                    info.game_path@ == spec_game_path(hit.0, hit.1.0) && info.build_id@ == hit.1.1
                }
            },
            None => spec_first_manifest_hit(libs@, libs@.len() as int) is None,
        },
{
    let mut i: usize = 0;
    while i < libs.len()
        invariant
            0 <= i <= libs.len(),
            spec_first_manifest_hit(libs@, i as int) is None,
        decreases libs.len() - i,
    {
        let probe: &LibraryProbe = &libs[i];
        match &probe.manifest {
            Some(content) => {
                match parse_app_manifest(content.as_str()) {
                    Some(parsed) => {
                        let game_path = probe.lib_path.clone().concat("\\steamapps\\common\\").concat(parsed.0.as_str());
                        proof {
                            assert(spec_first_manifest_hit(libs@, i + 1) == Some((libs@[i as int].lib_path@, (parsed.0@, parsed.1@))));
                            lemma_first_manifest_hit_monotone(libs@, i + 1, libs@.len() as int);
                            assert(game_path@ =~= spec_game_path(libs@[i as int].lib_path@, parsed.0@));
                        }
                        return Some(SteamInfo { game_path, build_id: parsed.1 });
                    },
                    None => {},
                }
            },
            None => {},
        }
        i = i + 1;
    }
    None
}

/// One candidate installation root: whether its marker executable exists,
/// and the manifest probe of each of its library roots.
pub struct SteamProbe {
    pub has_marker: bool,
    pub libraries: Vec<LibraryProbe>,
}

/// The first candidate with a marker whose libraries resolve, among the
/// first `n`.
pub open spec fn spec_first_install_hit(probes: Seq<SteamProbe>, n: int) -> Option<
    (Seq<char>, (Seq<char>, Seq<char>)),
>
    decreases n,
{
    if n <= 0 {
        None
    } else {
        let prev = spec_first_install_hit(probes, n - 1);
        if prev is Some {
            prev
        } else {
            let p = probes[n - 1];
            if p.has_marker {
                spec_first_manifest_hit(p.libraries@, p.libraries@.len() as int)
            } else {
                None
            }
        }
    }
}

/// A hit among the first `m` candidates stays the hit among any longer
/// prefix.
proof fn lemma_first_install_hit_monotone(probes: Seq<SteamProbe>, m: int, n: int)
    requires
        0 <= m <= n,
        spec_first_install_hit(probes, m) is Some,
    ensures
        spec_first_install_hit(probes, n) == spec_first_install_hit(probes, m),
    decreases n,
{
    if n > m {
        lemma_first_install_hit_monotone(probes, m, n - 1);
    }
}

/// Detects the installation: walks the candidate roots in order and yields
/// the game path and build id of the first that resolves; yields nothing,
/// never an error, when no candidate does.
pub fn detect_steam(probes: &Vec<SteamProbe>) -> (r: Option<SteamInfo>)
    ensures
        match r {
            Some(info) => {
                &&& spec_first_install_hit(probes@, probes@.len() as int) is Some
                &&& {
                    let hit = spec_first_install_hit(probes@, probes@.len() as int)->0;
                    info.game_path@ == spec_game_path(hit.0, hit.1.0) && info.build_id@ == hit.1.1
                }
            },
            None => spec_first_install_hit(probes@, probes@.len() as int) is None,
        },
{
    let mut i: usize = 0;
    while i < probes.len()
        invariant
            0 <= i <= probes.len(),
            spec_first_install_hit(probes@, i as int) is None,
        decreases probes.len() - i,
    {
        let probe: &SteamProbe = &probes[i];
        if probe.has_marker {
            match parse_steam_info(&probe.libraries) {
                Some(info) => {
                    proof {
                        assert(spec_first_install_hit(probes@, i + 1) == spec_first_manifest_hit(
                            probes@[i as int].libraries@,
                            probes@[i as int].libraries@.len() as int,
                        ));
                        lemma_first_install_hit_monotone(probes@, i + 1, probes@.len() as int);
                    }
                    return Some(info);
                },
                None => {},
            }
        }
        i = i + 1;
    }
    None
}

/// The conventional install-root candidates, probed in order.
pub fn steam_candidate_roots() -> (r: Vec<String>)
    ensures
        r.deep_view() =~~= seq![
            "C:\\Program Files (x86)\\Steam"@,
            "C:\\Program Files\\Steam"@,
            "D:\\Steam"@,
            "E:\\Steam"@,
            "D:\\Program Files (x86)\\Steam"@,
            "E:\\Program Files (x86)\\Steam"@,
        ],
{
    let mut v: Vec<String> = Vec::new();
    v.push("C:\\Program Files (x86)\\Steam".to_owned());
    v.push("C:\\Program Files\\Steam".to_owned());
    v.push("D:\\Steam".to_owned());
    v.push("E:\\Steam".to_owned());
    v.push("D:\\Program Files (x86)\\Steam".to_owned());
    v.push("E:\\Program Files (x86)\\Steam".to_owned());
    v
}

/// The data subtree that holds the voice assets, under a game path.
pub fn voice_data_path(game_path: &str) -> (r: String)
    ensures
        r@ == game_path@ + "\\Data\\Win32"@,
{
    game_path.to_owned().concat("\\Data\\Win32")
}

} // verus!

