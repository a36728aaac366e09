//! The languages of the user interface.

use vstd::prelude::*;
use vstd::string::*;
use crate::text::same_text;

verus! {

/// The supported languages: code and display name.
pub const SUPPORTED_LANGUAGES: [(&'static str, &'static str); 3] = [
    ("en", "English"),
    ("ko", "한국어"),
    ("ja", "日本語"),
];

/// The display name that a table of languages has for a code: that of the
/// first entry with the code.
pub open spec fn name_in(table: Seq<(&'static str, &'static str)>, code: Seq<char>) -> Option<
    Seq<char>,
>
    decreases table.len(),
{
    if table.len() == 0 {
        None
    } else if table[0].0@ == code {
        Some(table[0].1@)
    } else {
        name_in(table.drop_first(), code)
    }
}

/// Whether a language code is one of the supported languages.
pub open spec fn supported(code: Seq<char>) -> bool {
    name_in(SUPPORTED_LANGUAGES@, code) is Some
}

/// The display name of a language; a language that is not supported is shown
/// as English.
pub open spec fn display_name(code: Seq<char>) -> Seq<char> {
    match name_in(SUPPORTED_LANGUAGES@, code) {
        Some(name) => name,
        None => "English"@,
    }
}

/// Number of characters of a locale before its first hyphen.
pub open spec fn language_len(locale: Seq<char>) -> nat
    decreases locale.len(),
{
    if locale.len() == 0 || locale[0] == '-' {
        0
    } else {
        1 + language_len(locale.drop_first())
    }
}

/// The language of a locale: what stands before its first hyphen.
pub open spec fn language_part(locale: Seq<char>) -> Seq<char> {
    locale.take(language_len(locale) as int)
}

/// The language for the locale that the system reports: the locale's
/// language where it is supported, else English.
pub open spec fn language_for(locale: Option<Seq<char>>) -> Seq<char> {
    match locale {
        Some(locale) if supported(language_part(locale)) => language_part(locale),
        _ => "en"@,
    }
}

/// The display name of a supported language, or `None` for another code.
pub fn language_name(code: &str) -> (name: Option<&'static str>)
    ensures
        match name {
            Some(name) => name_in(SUPPORTED_LANGUAGES@, code@) == Some(name@),
            None => name_in(SUPPORTED_LANGUAGES@, code@) is None,
        },
{
    let table = SUPPORTED_LANGUAGES;
    let mut i: usize = 0;
    assert(table@.skip(0) =~= table@);
    while i < 3
        invariant
            i <= 3,
            table@ == SUPPORTED_LANGUAGES@,
            table@.len() == 3,
            name_in(table@, code@) == name_in(table@.skip(i as int), code@),
        decreases 3 - i,
    {
        assert(table@.skip(i as int)[0] == table@[i as int]);
        assert(table@.skip(i as int).drop_first() =~= table@.skip(i + 1));
        if same_text(table[i].0, code) {
            return Some(table[i].1);
        }
        i += 1;
    }
    None
}

/// Whether a language code is one of the supported languages.
pub fn is_supported(code: &str) -> (yes: bool)
    ensures
        yes == supported(code@),
{
    language_name(code).is_some()
}

/// Whether a text is the display name of a supported language.
pub open spec fn is_display_name(name: Seq<char>) -> bool {
    exists|i: int| 0 <= i < 3 && (#[trigger] SUPPORTED_LANGUAGES@[i]).1@ == name
}

/// English is supported, and a display name is the name of a supported
/// language even where the code is not.
pub proof fn lemma_english_is_supported()
    ensures
        supported("en"@),
        display_name("en"@) == "English"@,
        forall|code: Seq<char>| is_display_name(#[trigger] display_name(code)),
{
    assert(SUPPORTED_LANGUAGES@[0].0@ == "en"@);
    assert(SUPPORTED_LANGUAGES@[0].1@ == "English"@);
    assert forall|code: Seq<char>| is_display_name(#[trigger] display_name(code)) by {
        lemma_name_in_table(SUPPORTED_LANGUAGES@, 0, code);
        assert(SUPPORTED_LANGUAGES@.skip(0) =~= SUPPORTED_LANGUAGES@);
        assert(SUPPORTED_LANGUAGES@.len() == 3);
    }
}

proof fn lemma_name_in_table(table: Seq<(&'static str, &'static str)>, from: int, code: Seq<char>)
    requires
        0 <= from <= table.len(),
    ensures
        match name_in(table.skip(from), code) {
            Some(name) => exists|i: int| from <= i < table.len() && (#[trigger] table[i]).1@ == name,
            None => true,
        },
    decreases table.len() - from,
{
    if from < table.len() {
        assert(table.skip(from)[0] == table[from]);
        assert(table.skip(from).drop_first() =~= table.skip(from + 1));
        lemma_name_in_table(table, from + 1, code);
    }
}

/// The language for the locale that the system reports, if it reports one.
pub fn language_for_locale(locale: Option<&str>) -> (language: String)
    ensures
        language@ == language_for(
            match locale {
                Some(locale) => Some(locale@),
                None => None,
            },
        ),
{
    match locale {
        Some(locale) => {
            let count: usize = locale.unicode_len();
            let mut end: usize = 0;
            assert(locale@.skip(0) =~= locale@);
            while end < count && locale.get_char(end) != '-'
                invariant
                    end <= count,
                    count == locale@.len(),
                    language_len(locale@) == end + language_len(locale@.skip(end as int)),
                decreases count - end,
            {
                assert(locale@.skip(end as int)[0] == locale@[end as int]);
                assert(locale@.skip(end as int).drop_first() =~= locale@.skip(end + 1));
                end += 1;
            }
            assert(language_len(locale@.skip(end as int)) == 0) by {
                if end < count {
                    assert(locale@.skip(end as int)[0] == locale@[end as int]);
                }
            }
            let language = locale.substring_char(0, end);
            assert(language@ =~= language_part(locale@));
            if is_supported(language) {
                language.to_owned()
            } else {
                "en".to_owned()
            }
        },
        None => "en".to_owned(),
    }
}

/// Asks `sys_locale::get_locale` for the locale that the system prefers. The
/// answer depends on the machine and its settings; nothing is claimed of it.
#[verifier::external_body]
fn system_locale() -> (locale: Option<String>) {
    sys_locale::get_locale()
}

/// Hands a locale to `rust_i18n::set_locale`, which keeps it as the current
/// one for the whole process. Nothing is claimed of the call here.
#[verifier::external_body]
fn set_locale(locale: &str) {
    rust_i18n::set_locale(locale)
}

/// The code of the current language, as `rust_i18n::locale` gives it. It is
/// whatever was set last; nothing is claimed of it.
#[verifier::external_body]
pub fn current_language() -> (code: String) {
    rust_i18n::locale().to_string()
}

/// The supported language that fits the system's locale, with English to
/// fall back on.
pub fn detect_system_language() -> (language: String)
    ensures
        supported(language@),
        exists|locale: Option<Seq<char>>| language@ == #[trigger] language_for(locale),
{
    proof {
        lemma_english_is_supported();
    }
    match system_locale() {
        Some(locale) => {
            let language = language_for_locale(Some(locale.as_str()));
            assert(language@ == language_for(Some(locale@)));
            language
        },
        None => {
            let language = language_for_locale(None);
            assert(language@ == language_for(None));
            language
        },
    }
}

/// Sets the language at start-up: the user's preference where there is one,
/// else what fits the system. Returns the language that was set.
pub fn init_language(preference: &Option<String>) -> (language: String)
    ensures
        match preference {
            Some(chosen) => language@ == chosen@,
            None => supported(language@),
        },
{
    let language = match preference {
        Some(chosen) => chosen.clone(),
        None => detect_system_language(),
    };
    set_locale(language.as_str());
    language
}

/// The display name of the current language.
pub fn current_language_name() -> (name: String)
    ensures
        is_display_name(name@),
        exists|code: Seq<char>| name@ == #[trigger] display_name(code),
{
    proof {
        lemma_english_is_supported();
    }
    let current = current_language();
    match language_name(current.as_str()) {
        Some(name) => {
            assert(name@ == display_name(current@));
            name.to_owned()
        },
        None => {
            assert("English"@ == display_name(current@));
            "English".to_owned()
        },
    }
}

/// Changes the current language to a supported one; any other code changes
/// nothing. Returns whether the language was changed.
pub fn change_language(code: &str) -> (changed: bool)
    ensures
        changed == supported(code@),
{
    if is_supported(code) {
        set_locale(code);
        true
    } else {
        false
    }
}

} // verus!
