//! The fixed catalogue of the eight supported voice languages.

use vstd::prelude::*;

verus! {

use vstd::string::StringExecFns;

/// A language code: the unique short key of one catalogue entry. Snapshot
/// directories are named by this code, and every operation is keyed by it.
#[derive(PartialEq, Eq, Structural, Clone, Copy, Debug)]
pub enum LangCode {
    En,
    Ja,
    Cn,
    De,
    Fr,
    Es,
    Ru,
    Ko,
}

/// One catalogue entry: code, display name, and the engine's locale token.
pub struct Language {
    pub code: LangCode,
    pub name: &'static str,
    pub miles_lang: &'static str,
}

/// The short key of a code, as it appears in directory and file names.
pub open spec fn spec_code_str(c: LangCode) -> Seq<char> {
    match c {
        LangCode::En => "en"@,
        LangCode::Ja => "ja"@,
        LangCode::Cn => "cn"@,
        LangCode::De => "de"@,
        LangCode::Fr => "fr"@,
        LangCode::Es => "es"@,
        LangCode::Ru => "ru"@,
        LangCode::Ko => "ko"@,
    }
}

/// The engine locale token of a code, used in the launch parameter.
pub open spec fn spec_miles_str(c: LangCode) -> Seq<char> {
    match c {
        LangCode::En => "english"@,
        LangCode::Ja => "japanese"@,
        LangCode::Cn => "chinese"@,
        LangCode::De => "german"@,
        LangCode::Fr => "french"@,
        LangCode::Es => "spanish"@,
        LangCode::Ru => "russian"@,
        LangCode::Ko => "korean"@,
    }
}

/// The display name of a code.
pub open spec fn spec_name_str(c: LangCode) -> Seq<char> {
    match c {
        LangCode::En => "English"@,
        LangCode::Ja => "Japanese"@,
        LangCode::Cn => "Chinese"@,
        LangCode::De => "German"@,
        LangCode::Fr => "French"@,
        LangCode::Es => "Spanish"@,
        LangCode::Ru => "Russian"@,
        LangCode::Ko => "Korean"@,
    }
}

/// The fixed order of the catalogue, also the order of selection indices.
pub open spec fn spec_lang_at(i: int) -> LangCode {
    if i == 0 {
        LangCode::En
    } else if i == 1 {
        LangCode::Ja
    } else if i == 2 {
        LangCode::Cn
    } else if i == 3 {
        LangCode::De
    } else if i == 4 {
        LangCode::Fr
    } else if i == 5 {
        LangCode::Es
    } else if i == 6 {
        LangCode::Ru
    } else {
        LangCode::Ko
    }
}

/// The immutable eight-entry language catalogue, in selection order.
pub fn get_languages() -> (r: Vec<Language>)
    ensures
        r@.len() == 8,
        forall|i: int|
            0 <= i < 8 ==> {
                &&& (#[trigger] r@[i]).code == spec_lang_at(i)
                &&& r@[i].name@ == spec_name_str(spec_lang_at(i))
                &&& r@[i].miles_lang@ == spec_miles_str(spec_lang_at(i))
            },
{
    let mut langs: Vec<Language> = Vec::new();
    langs.push(Language { code: LangCode::En, name: "English", miles_lang: "english" });
    langs.push(Language { code: LangCode::Ja, name: "Japanese", miles_lang: "japanese" });
    langs.push(Language { code: LangCode::Cn, name: "Chinese", miles_lang: "chinese" });
    langs.push(Language { code: LangCode::De, name: "German", miles_lang: "german" });
    langs.push(Language { code: LangCode::Fr, name: "French", miles_lang: "french" });
    langs.push(Language { code: LangCode::Es, name: "Spanish", miles_lang: "spanish" });
    langs.push(Language { code: LangCode::Ru, name: "Russian", miles_lang: "russian" });
    langs.push(Language { code: LangCode::Ko, name: "Korean", miles_lang: "korean" });
    langs
}

/// The short key of a code as a string slice.
pub fn code_str(c: LangCode) -> (r: &'static str)
    ensures
        r@ == spec_code_str(c),
{
    match c {
        LangCode::En => "en",
        LangCode::Ja => "ja",
        LangCode::Cn => "cn",
        LangCode::De => "de",
        LangCode::Fr => "fr",
        LangCode::Es => "es",
        LangCode::Ru => "ru",
        LangCode::Ko => "ko",
    }
}

/// The engine locale token of a code as a string slice.
pub fn miles_str(c: LangCode) -> (r: &'static str)
    ensures
        r@ == spec_miles_str(c),
{
    match c {
        LangCode::En => "english",
        LangCode::Ja => "japanese",
        LangCode::Cn => "chinese",
        LangCode::De => "german",
        LangCode::Fr => "french",
        LangCode::Es => "spanish",
        LangCode::Ru => "russian",
        LangCode::Ko => "korean",
    }
}

/// What `parse_lang_code` returns: the catalogue entry whose key equals the
/// given name, if any.
pub open spec fn spec_parse_lang_code(name: Seq<char>) -> Option<LangCode> {
    if name == spec_code_str(LangCode::En) {
        Some(LangCode::En)
    } else if name == spec_code_str(LangCode::Ja) {
        Some(LangCode::Ja)
    } else if name == spec_code_str(LangCode::Cn) {
        Some(LangCode::Cn)
    } else if name == spec_code_str(LangCode::De) {
        Some(LangCode::De)
    } else if name == spec_code_str(LangCode::Fr) {
        Some(LangCode::Fr)
    } else if name == spec_code_str(LangCode::Es) {
        Some(LangCode::Es)
    } else if name == spec_code_str(LangCode::Ru) {
        Some(LangCode::Ru)
    } else if name == spec_code_str(LangCode::Ko) {
        Some(LangCode::Ko)
    } else {
        None
    }
}

/// Equality of two string slices, decided by content.
pub fn str_eq(a: &str, b: &str) -> (r: bool)
    ensures
        r == (a@ == b@),
{
    let x: String = a.to_owned();
    let y: String = b.to_owned();
    x == y
}

/// Looks a name up in the catalogue: `Some` exactly when the name is one of
/// the eight language keys.
pub fn parse_lang_code(name: &str) -> (r: Option<LangCode>)
    ensures
        r == spec_parse_lang_code(name@),
{
    if str_eq(name, "en") {
        Some(LangCode::En)
    } else if str_eq(name, "ja") {
        Some(LangCode::Ja)
    } else if str_eq(name, "cn") {
        Some(LangCode::Cn)
    } else if str_eq(name, "de") {
        Some(LangCode::De)
    } else if str_eq(name, "fr") {
        Some(LangCode::Fr)
    } else if str_eq(name, "es") {
        Some(LangCode::Es)
    } else if str_eq(name, "ru") {
        Some(LangCode::Ru)
    } else if str_eq(name, "ko") {
        Some(LangCode::Ko)
    } else {
        None
    }
}

/// The language key at a selection index, in catalogue order.
pub fn get_selected_lang_code(selected_lang_idx: usize) -> (r: &'static str)
    requires
        selected_lang_idx < 8,
    ensures
        r@ == spec_code_str(spec_lang_at(selected_lang_idx as int)),
{
    if selected_lang_idx == 0 {
        "en"
    } else if selected_lang_idx == 1 {
        "ja"
    } else if selected_lang_idx == 2 {
        "cn"
    } else if selected_lang_idx == 3 {
        "de"
    } else if selected_lang_idx == 4 {
        "fr"
    } else if selected_lang_idx == 5 {
        "es"
    } else if selected_lang_idx == 6 {
        "ru"
    } else {
        "ko"
    }
}

/// The launch parameter that selects a code's voice in the engine.
pub fn get_launch_param(code: LangCode) -> (r: String)
    ensures
        r@ == "+miles_language "@ + spec_miles_str(code),
{
    let head: String = "+miles_language ".to_owned();
    head.concat(miles_str(code))
}

} // verus!
