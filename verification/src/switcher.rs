//! The switcher: the core state one session works with — the catalogue, the
//! current selections, the detected installation and the listed snapshots —
//! with the operations as methods. Every method is a thin face over the
//! planning and parsing functions of the other modules; presentation state
//! (status text, window handling) stays outside the library.

use vstd::prelude::*;

verus! {

use crate::lang::{Language, LangCode, spec_code_str, spec_miles_str, spec_lang_at, get_languages};
use crate::backup::{BackupInfo, BackupDirEntry, spec_list_backups, list_backups};
use crate::vdf::{SteamInfo, SteamProbe, spec_first_install_hit, spec_game_path, voice_data_path, spec_vdf_value, opt_str_view};
use crate::fstree::{FsEntry, AssetSet, spec_locate};
use crate::engine::spec_version_ok;

/// The core state of one session.
pub struct BF6VoiceSwitcher {
    pub languages: Vec<Language>,
    pub selected_lang_idx: usize,
    pub source_path: String,
    pub available_backups: Vec<BackupInfo>,
    pub selected_backup_idx: usize,
    pub steam_info: Option<SteamInfo>,
}

/// The state every operation relies on: the full catalogue and selection
/// indices that point into it and into the listed snapshots.
pub open spec fn switcher_wf(s: &BF6VoiceSwitcher) -> bool {
    &&& s.languages@.len() == 8
    &&& forall|i: int| 0 <= i < 8 ==> (#[trigger] s.languages@[i]).code == spec_lang_at(i)
    &&& s.selected_lang_idx < 8
    &&& s.available_backups@.len() > 0 ==> s.selected_backup_idx < s.available_backups@.len()
}

impl Default for BF6VoiceSwitcher {
    /// A fresh session; detection and listing follow as separate steps,
    /// since they need the shell's filesystem probes.
    fn default() -> (s: Self)
        ensures
            switcher_wf(&s),
            s.steam_info is None,
            s.available_backups@.len() == 0,
            s.source_path@.len() == 0,
    {
        BF6VoiceSwitcher::new()
    }
}

impl BF6VoiceSwitcher {
    /// A fresh session: full catalogue, first language selected, nothing
    /// detected and no snapshots listed yet.
    pub fn new() -> (s: Self)
        ensures
            switcher_wf(&s),
            s.steam_info is None,
            s.available_backups@.len() == 0,
            s.source_path@.len() == 0,
    {
        BF6VoiceSwitcher {
            languages: get_languages(),
            selected_lang_idx: 0,
            source_path: String::new(),
            available_backups: Vec::new(),
            selected_backup_idx: 0,
            steam_info: None,
        }
    }

    /// Resolves the installation from the gathered probes and remembers it,
    /// together with the voice-data path under the game path. A failed
    /// detection leaves any previously remembered detection in place, so a
    /// redetection can never lose a working one.
    pub fn detect_steam(&mut self, probes: &Vec<SteamProbe>)
        requires
            switcher_wf(old(self)),
        ensures
            switcher_wf(final(self)),
            match spec_first_install_hit(probes@, probes@.len() as int) {
                Some(hit) => {
                    &&& final(self).steam_info matches Some(info) && info.game_path@
                        == spec_game_path(hit.0, hit.1.0) && info.build_id@ == hit.1.1
                    &&& final(self).source_path@ == spec_game_path(hit.0, hit.1.0)
                        + "\\Data\\Win32"@
                },
                None => {
                    &&& final(self).steam_info == old(self).steam_info
                    &&& final(self).source_path == old(self).source_path
                },
            },
            final(self).available_backups == old(self).available_backups,
            final(self).selected_backup_idx == old(self).selected_backup_idx,
            final(self).selected_lang_idx == old(self).selected_lang_idx,
            final(self).languages == old(self).languages,
    {
        match crate::vdf::detect_steam(probes) {
            Some(info) => {
                self.source_path = voice_data_path(info.game_path.as_str());
                self.steam_info = Some(info);
            },
            None => {},
        }
    }

    /// Resolves an installation from a list of library probes.
    pub fn parse_steam_info(&self, libs: &Vec<crate::vdf::LibraryProbe>) -> (r: Option<SteamInfo>)
        ensures
            match r {
                Some(info) => {
                    &&& crate::vdf::spec_first_manifest_hit(libs@, libs@.len() as int) is Some
                    &&& {
                        let hit = crate::vdf::spec_first_manifest_hit(libs@, libs@.len() as int)->0;
                        info.game_path@ == spec_game_path(hit.0, hit.1.0) && info.build_id@
                            == hit.1.1
                    }
                },
                None => crate::vdf::spec_first_manifest_hit(libs@, libs@.len() as int) is None,
            },
    {
        crate::vdf::parse_steam_info(libs)
    }

    /// Extracts the quoted value of a configuration line.
    pub fn extract_vdf_value(&self, line: &str) -> (r: Option<String>)
        ensures
            opt_str_view(r) == spec_vdf_value(line@),
    {
        crate::vdf::extract_vdf_value(line)
    }

    /// Relists the snapshots from a fresh reading of the backup root and
    /// resets the snapshot selection.
    pub fn refresh_backups(&mut self, entries: &Vec<BackupDirEntry>)
        requires
            switcher_wf(old(self)),
        ensures
            switcher_wf(final(self)),
            final(self).available_backups@.map_values(|b: BackupInfo| b.model())
                =~~= spec_list_backups(entries@, entries@.len() as int),
            final(self).selected_backup_idx == 0,
            final(self).steam_info == old(self).steam_info,
            final(self).selected_lang_idx == old(self).selected_lang_idx,
            final(self).languages == old(self).languages,
    {
        self.available_backups = list_backups(entries);
        self.selected_backup_idx = 0;
    }

    /// The key of the currently selected language.
    pub fn get_selected_lang_code(&self) -> (r: &'static str)
        requires
            switcher_wf(self),
        ensures
            r@ == spec_code_str(spec_lang_at(self.selected_lang_idx as int)),
    {
        crate::lang::get_selected_lang_code(self.selected_lang_idx)
    }

    /// The launch parameter for the currently selected language.
    pub fn get_launch_param(&self) -> (r: String)
        requires
            switcher_wf(self),
        ensures
            r@ == "+miles_language "@ + spec_miles_str(spec_lang_at(self.selected_lang_idx as int)),
    {
        let code: LangCode = self.languages[self.selected_lang_idx].code;
        crate::lang::get_launch_param(code)
    }

    /// Discovers the folders and control files of a code in a scanned tree.
    pub fn find_voice_files(&self, root: &Vec<FsEntry>, code: LangCode) -> (r: AssetSet)
        ensures
            r.folders_set() == spec_locate(root@, Seq::<Seq<char>>::empty(), code).0,
            r.toc_set() == spec_locate(root@, Seq::<Seq<char>>::empty(), code).1,
    {
        crate::fstree::find_voice_files(root, code)
    }

    /// Applies the version guard to the selected snapshot: yields the two
    /// build ids exactly when they block activation.
    pub fn check_version_match(&self) -> (r: Option<(String, String)>)
        requires
            switcher_wf(self),
        ensures
            match r {
                Some(pair) => {
                    &&& self.available_backups@.len() > 0
                    &&& !spec_version_ok(
                        self.available_backups@[self.selected_backup_idx as int].build_id@,
                        crate::vdf::spec_detected_build(self.steam_info),
                    )
                    &&& pair.0@
                        == self.available_backups@[self.selected_backup_idx as int].build_id@
                    &&& self.steam_info matches Some(si) && pair.1@ == si.build_id@
                },
                None => self.available_backups@.len() == 0 || spec_version_ok(
                    self.available_backups@[self.selected_backup_idx as int].build_id@,
                    crate::vdf::spec_detected_build(self.steam_info),
                ),
            },
    {
        crate::engine::check_version_match(
            &self.available_backups,
            self.selected_backup_idx,
            &self.steam_info,
        )
    }
}

} // verus!
