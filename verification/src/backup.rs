//! The backup store's logic: the snapshot manifest format, the listing of
//! existing snapshots, and the capture decision. The store's directory layout
//! is one snapshot directory per language code under a backup root; reading
//! and writing those directories is the shell's job, directed by the record
//! this module produces.

use vstd::prelude::*;

verus! {

use vstd::string::StrSliceExecFns;
use vstd::string::StringExecFns;
use crate::lang::{LangCode, spec_code_str, spec_parse_lang_code, code_str, parse_lang_code};
use crate::text::{spec_lines, spec_split, spec_join, spec_starts_with, split_lines, starts_with, strip_front, join_strings};
use crate::fstree::{FsEntry, spec_locate, find_voice_files};
use crate::vdf::SteamInfo;
use crate::SwitchError;

/// A snapshot as the listing shows it: the code its directory is named by,
/// and the build id its manifest records (empty when unknown). The directory
/// name is authoritative for the code; nothing read from the manifest can
/// override it.
#[derive(Clone)]
pub struct BackupInfo {
    pub lang_code: LangCode,
    pub build_id: String,
}

impl BackupInfo {
    /// The mathematical content of one listing entry.
    pub open spec fn model(&self) -> (LangCode, Seq<char>) {
        (self.lang_code, self.build_id@)
    }
}

/// A snapshot to be written: the code, the build id at capture time, and the
/// discovered folder and control-file paths, each relative to the scanned
/// root.
pub struct BackupRecord {
    pub code: LangCode,
    pub build_id: String,
    pub folders: Vec<Vec<String>>,
    pub toc_files: Vec<Vec<String>>,
}

/// The manifest text of a snapshot: one `key=value` line for the build id,
/// the code, the folder paths and the control-file paths, the path lists
/// joined by `;` and path components by the platform separator.
pub open spec fn spec_render_manifest(
    build_id: Seq<char>,
    code: LangCode,
    folders: Seq<Seq<Seq<char>>>,
    toc_files: Seq<Seq<Seq<char>>>,
) -> Seq<char> {
    "build_id="@ + build_id + "\nlang_code="@ + spec_code_str(code) + "\nfolders="@ + spec_join(
        folders.map_values(|p: Seq<Seq<char>>| spec_join(p, "\\"@)),
        ";"@,
    ) + "\ntoc_files="@ + spec_join(
        toc_files.map_values(|p: Seq<Seq<char>>| spec_join(p, "\\"@)),
        ";"@,
    ) + "\n"@
}

/// Joins each path's components with the platform separator.
fn render_paths(paths: &Vec<Vec<String>>) -> (r: Vec<String>)
    ensures
        r.deep_view() =~~= paths.deep_view().map_values(|p: Seq<Seq<char>>| spec_join(p, "\\"@)),
{
    let mut out: Vec<String> = Vec::new();
    let mut i: usize = 0;
    while i < paths.len()
        invariant
            0 <= i <= paths.len(),
            out.deep_view() =~~= paths.deep_view().take(i as int).map_values(
                |p: Seq<Seq<char>>| spec_join(p, "\\"@),
            ),
        decreases paths.len() - i,
    {
        let ghost prev = out.deep_view();
        let joined = join_strings(&paths[i], "\\");
        out.push(joined);
        proof {
            let pv = paths.deep_view();
            assert(pv[i as int] == paths@[i as int].deep_view());
            assert(out.deep_view() =~~= prev.push(spec_join(pv[i as int], "\\"@)));
            assert(pv.take(i + 1) =~~= pv.take(i as int).push(pv[i as int]));
            assert(pv.take(i as int).push(pv[i as int]).map_values(
                |p: Seq<Seq<char>>| spec_join(p, "\\"@),
            ) =~~= pv.take(i as int).map_values(|p: Seq<Seq<char>>| spec_join(p, "\\"@)).push(
                spec_join(pv[i as int], "\\"@),
            ));
        }
        i = i + 1;
    }
    proof {
        assert(paths.deep_view().take(paths.deep_view().len() as int) =~~= paths.deep_view());
    }
    out
}

/// Renders a record's manifest text.
pub fn render_manifest(record: &BackupRecord) -> (r: String)
    ensures
        r@ == spec_render_manifest(
            record.build_id@,
            record.code,
            record.folders.deep_view(),
            record.toc_files.deep_view(),
        ),
{
    let folder_list = join_strings(&render_paths(&record.folders), ";");
    let toc_list = join_strings(&render_paths(&record.toc_files), ";");
    let r = "build_id=".to_owned()
        .concat(record.build_id.as_str())
        .concat("\nlang_code=")
        .concat(code_str(record.code))
        .concat("\nfolders=")
        .concat(folder_list.as_str())
        .concat("\ntoc_files=")
        .concat(toc_list.as_str())
        .concat("\n");
    proof {
        assert(r@ =~= spec_render_manifest(
            record.build_id@,
            record.code,
            record.folders.deep_view(),
            record.toc_files.deep_view(),
        ));
    }
    r
}

/// The build id a manifest text records: what follows `build_id=` on the
/// first line that starts with that key, or empty when no line does.
pub open spec fn spec_manifest_build_id(lines: Seq<Seq<char>>) -> Seq<char>
    decreases lines.len(),
{
    if lines.len() == 0 {
        Seq::<char>::empty()
    } else if spec_starts_with(lines[0], "build_id="@) {
        lines[0].skip("build_id="@.len() as int)
    } else {
        spec_manifest_build_id(lines.drop_first())
    }
}

/// Dropping lines that do not carry the key does not change the value.
proof fn lemma_manifest_build_id_skip(lines: Seq<Seq<char>>, i: int)
    requires
        0 <= i <= lines.len(),
        forall|j: int| 0 <= j < i ==> !spec_starts_with(#[trigger] lines[j], "build_id="@),
    ensures
        spec_manifest_build_id(lines) == spec_manifest_build_id(lines.skip(i)),
    decreases i,
{
    if i > 0 {
        assert(lines.drop_first().skip(i - 1) =~~= lines.skip(i));
        lemma_manifest_build_id_skip(lines.drop_first(), i - 1);
    } else {
        assert(lines.skip(0) =~~= lines);
    }
}

/// Reads the recorded build id out of a manifest text.
pub fn parse_manifest_build_id(content: &str) -> (r: String)
    ensures
        r@ == spec_manifest_build_id(spec_lines(content@)),
{
    let lines = split_lines(content);
    let mut i: usize = 0;
    while i < lines.len()
        invariant
            0 <= i <= lines.len(),
            lines.deep_view() =~~= spec_lines(content@),
            forall|j: int|
                0 <= j < i ==> !spec_starts_with(#[trigger] lines.deep_view()[j], "build_id="@),
        decreases lines.len() - i,
    {
        proof {
            assert(lines.deep_view()[i as int] == lines@[i as int]@);
        }
        if starts_with(lines[i].as_str(), "build_id=") {
            let key_len: usize = "build_id=".unicode_len();
            let r = strip_front(lines[i].as_str(), key_len);
            proof {
                lemma_manifest_build_id_skip(lines.deep_view(), i as int);
                assert(lines.deep_view().skip(i as int)[0] == lines.deep_view()[i as int]);
            }
            return r;
        }
        i = i + 1;
    }
    proof {
        lemma_manifest_build_id_skip(lines.deep_view(), lines.deep_view().len() as int);
        assert(lines.deep_view().skip(lines.deep_view().len() as int) =~~= Seq::<Seq<char>>::empty());
    }
    String::new()
}

/// Law: reading a freshly rendered manifest recovers the build id that was
/// written, for every build id free of line breaks (a build id is a version
/// token and never holds one).
pub proof fn lemma_manifest_round_trip(
    build_id: Seq<char>,
    code: LangCode,
    folders: Seq<Seq<Seq<char>>>,
    toc_files: Seq<Seq<Seq<char>>>,
)
    requires
        forall|j: int| 0 <= j < build_id.len() ==> build_id[j] != '\n' && build_id[j] != '\r',
    ensures
        spec_manifest_build_id(
            spec_lines(spec_render_manifest(build_id, code, folders, toc_files)),
        ) == build_id,
{
    let key = "build_id="@;
    let text = spec_render_manifest(build_id, code, folders, toc_files);
    reveal_strlit("build_id=");
    reveal_strlit("\nlang_code=");
    assert(key.len() == 9);
    assert(key[0] == 'b' && key[1] == 'u' && key[2] == 'i' && key[3] == 'l' && key[4] == 'd'
        && key[5] == '_' && key[6] == 'i' && key[7] == 'd' && key[8] == '=');
    let k = 9 + build_id.len() as int;
    assert("\nlang_code="@[0] == '\n');
    assert(text[k] == '\n');
    assert(forall|j: int| 0 <= j < 9 ==> text[j] == key[j] && text[j] != '\n');
    assert(forall|j: int| 9 <= j < k ==> text[j] == build_id[j - 9] && text[j] != '\n');
    crate::text::lemma_split_first_sep(text, '\n', k);
    let line0 = text.take(k);
    assert(spec_split(text, '\n')[0] == line0);
    assert(spec_lines(text)[0] == crate::text::spec_trim_cr(line0));
    assert(line0.len() == k);
    assert(line0[k - 1] != '\r') by {
        if build_id.len() == 0 {
            assert(line0[8] == '=');
        } else {
            assert(line0[k - 1] == build_id[build_id.len() - 1]);
        }
    }
    assert(crate::text::spec_trim_cr(line0) == line0);
    assert(crate::text::spec_starts_with(line0, key)) by {
        assert(line0.take(9) =~= key);
    }
    assert(spec_lines(text).len() >= 1);
    assert(spec_manifest_build_id(spec_lines(text)) == line0.skip(9));
    assert(line0.skip(9) =~= build_id);
}

/// One directory entry under the backup root, as the listing shell saw it:
/// its name, whether it is a directory, and its manifest text when that file
/// could be read.
pub struct BackupDirEntry {
    pub name: String,
    pub is_dir: bool,
    pub info_content: Option<String>,
}

/// The build id recorded for one listed snapshot: the manifest's value, or
/// empty when the manifest could not be read. A read failure is downgraded,
/// never surfaced.
pub open spec fn spec_entry_build_id(e: BackupDirEntry) -> Seq<char> {
    match e.info_content {
        Some(c) => spec_manifest_build_id(spec_lines(c@)),
        None => Seq::<char>::empty(),
    }
}

/// The snapshots among the first `n` entries of the backup root: the
/// directories whose name is a language code, each with its recorded build
/// id. The directory name alone decides the code.
pub open spec fn spec_list_backups(entries: Seq<BackupDirEntry>, n: int) -> Seq<
    (LangCode, Seq<char>),
>
    decreases n,
{
    if n <= 0 {
        Seq::<(LangCode, Seq<char>)>::empty()
    } else {
        let prev = spec_list_backups(entries, n - 1);
        let e = entries[n - 1];
        if e.is_dir && spec_parse_lang_code(e.name@) is Some {
            prev.push((spec_parse_lang_code(e.name@)->0, spec_entry_build_id(e)))
        } else {
            prev
        }
    }
}

/// Lists the snapshots under the backup root: one entry per directory whose
/// name is a language code, in listing order, with the build id its manifest
/// records (empty when unreadable).
pub fn list_backups(entries: &Vec<BackupDirEntry>) -> (r: Vec<BackupInfo>)
    ensures
        r@.map_values(|b: BackupInfo| b.model()) =~~= spec_list_backups(
            entries@,
            entries@.len() as int,
        ),
{
    let mut out: Vec<BackupInfo> = Vec::new();
    let mut i: usize = 0;
    while i < entries.len()
        invariant
            0 <= i <= entries.len(),
            out@.map_values(|b: BackupInfo| b.model()) =~~= spec_list_backups(entries@, i as int),
        decreases entries.len() - i,
    {
        let e: &BackupDirEntry = &entries[i];
        if e.is_dir {
            match parse_lang_code(e.name.as_str()) {
                Some(code) => {
                    let build_id: String = match &e.info_content {
                        Some(c) => parse_manifest_build_id(c.as_str()),
                        None => String::new(),
                    };
                    let ghost prev = out@.map_values(|b: BackupInfo| b.model());
                    out.push(BackupInfo { lang_code: code, build_id });
                    proof {
                        assert(out@.map_values(|b: BackupInfo| b.model()) =~~= prev.push(
                            (code, spec_entry_build_id(entries@[i as int])),
                        ));
                    }
                },
                None => {},
            }
        }
        i = i + 1;
    }
    out
}

/// The build id a capture records: the detected installation's, or empty
/// when none is detected.
pub open spec fn spec_capture_build_id(detected: Option<SteamInfo>) -> Seq<char> {
    crate::vdf::spec_recorded_build(crate::vdf::spec_detected_build(detected))
}

/// Decides a capture for a code against a scan of the source tree (`None`
/// when the source path does not exist).
///
/// The decision is exhaustive: a missing source or an empty discovery is
/// `NotFound`; control files without any language folder are `Incomplete`,
/// and no record — hence no snapshot write — ever comes out of such a
/// capture; otherwise the record to store is returned, carrying exactly the
/// discovered folder and control-file paths and the detected build id. The
/// executing shell replaces any prior snapshot directory for the code with
/// this record's contents and manifest.
pub fn capture_plan(root: Option<&Vec<FsEntry>>, code: LangCode, detected: &Option<SteamInfo>) -> (r:
    Result<BackupRecord, SwitchError>)
    ensures
        match root {
            None => r matches Err(SwitchError::NotFound),
            Some(entries) => {
                let loc = spec_locate(entries@, Seq::<Seq<char>>::empty(), code);
                if loc.0 == Set::<Seq<Seq<char>>>::empty() {
                    if loc.1 == Set::<Seq<Seq<char>>>::empty() {
                        r matches Err(SwitchError::NotFound)
                    } else {
                        r matches Err(SwitchError::Incomplete)
                    }
                } else {
                    match r {
                        Ok(record) => {
                            &&& record.code == code
                            &&& record.build_id@ == spec_capture_build_id(*detected)
                            &&& record.folders.deep_view().to_set() == loc.0
                            &&& record.toc_files.deep_view().to_set() == loc.1
                        },
                        Err(_) => false,
                    }
                }
            },
        },
{
    let entries = match root {
        None => {
            return Err(SwitchError::NotFound);
        },
        Some(entries) => entries,
    };
    let assets = find_voice_files(entries, code);
    let folders_empty = assets.folders.len() == 0;
    let toc_empty = assets.toc_files.len() == 0;
    proof {
        lemma_to_set_empty_iff(assets.folders.deep_view());
        lemma_to_set_empty_iff(assets.toc_files.deep_view());
    }
    if folders_empty && toc_empty {
        return Err(SwitchError::NotFound);
    }
    if folders_empty {
        return Err(SwitchError::Incomplete);
    }
    let build_id: String = match detected {
        Some(info) => info.build_id.clone(),
        None => String::new(),
    };
    Ok(BackupRecord { code, build_id, folders: assets.folders, toc_files: assets.toc_files })
}

/// Decides a snapshot removal for a code: `Some` names the code whose
/// snapshot directory the shell is to delete, exactly when one exists; with
/// no snapshot present the removal succeeds as a no-op and nothing on disk
/// changes. Removal itself has no failure of its own; only the shell's
/// deletion can fail, with `IoFailure`.
pub fn remove_backup_plan(code: LangCode, snapshot_exists: bool) -> (r: Option<LangCode>)
    ensures
        r == (if snapshot_exists {
            Some(code)
        } else {
            None::<LangCode>
        }),
{
    if snapshot_exists {
        Some(code)
    } else {
        None
    }
}

/// A sequence's set is empty exactly when the sequence is.
pub proof fn lemma_to_set_empty_iff<A>(s: Seq<A>)
    ensures
        (s.to_set() == Set::<A>::empty()) <==> s.len() == 0,
{
    if s.len() == 0 {
        assert(s.to_set() =~= Set::<A>::empty());
    } else {
        assert(s.contains(s[0]));
        assert(s.to_set().contains(s[0]));
        assert(!Set::<A>::empty().contains(s[0]));
    }
}

} // verus!
