use sukusho::i18n_helpers::{
    change_language, current_language, current_language_name, detect_system_language, init_language,
    is_supported, language_for_locale, language_name, SUPPORTED_LANGUAGES,
};

#[test]
fn test_supported_languages() {
    assert_eq!(SUPPORTED_LANGUAGES.len(), 3);
    assert!(SUPPORTED_LANGUAGES.iter().any(|(code, _)| *code == "en"));
    assert!(SUPPORTED_LANGUAGES.iter().any(|(code, _)| *code == "ko"));
    assert!(SUPPORTED_LANGUAGES.iter().any(|(code, _)| *code == "ja"));
}

#[test]
fn test_current_language_name() {
    // Default should be English
    let name = current_language_name();
    assert!(!name.is_empty());
}

#[test]
fn supported_codes_have_their_names() {
    assert_eq!(language_name("en"), Some("English"));
    assert_eq!(language_name("ko"), Some("한국어"));
    assert_eq!(language_name("ja"), Some("日本語"));
    assert_eq!(language_name("de"), None);
    assert_eq!(language_name(""), None);
    assert_eq!(language_name("EN"), None);
    assert!(is_supported("ja"));
    assert!(!is_supported("jap"));
}

#[test]
fn locale_is_cut_at_the_first_hyphen() {
    assert_eq!(language_for_locale(Some("en-US")), "en");
    assert_eq!(language_for_locale(Some("ko-KR")), "ko");
    assert_eq!(language_for_locale(Some("ja-JP-u-ca-japanese")), "ja");
    assert_eq!(language_for_locale(Some("ja")), "ja");
}

#[test]
fn unsupported_locale_falls_back_to_english() {
    assert_eq!(language_for_locale(Some("de-DE")), "en");
    assert_eq!(language_for_locale(Some("")), "en");
    assert_eq!(language_for_locale(Some("-ko")), "en");
    assert_eq!(language_for_locale(Some("ko_KR")), "en");
    assert_eq!(language_for_locale(None), "en");
}

#[test]
fn detected_language_is_supported() {
    assert!(is_supported(&detect_system_language()));
}

#[test]
fn language_is_kept_once_set() {
    assert!(change_language("ja"));
    assert_eq!(current_language(), "ja");
    assert_eq!(current_language_name(), "日本語");
    assert!(!change_language("xx"));
    assert!(!change_language(""));
    assert_eq!(current_language(), "ja");
    assert_eq!(init_language(&Some("ko".to_string())), "ko");
    assert_eq!(current_language(), "ko");
    assert_eq!(current_language_name(), "한국어");
    assert_eq!(init_language(&Some("tlh".to_string())), "tlh");
    assert_eq!(current_language(), "tlh");
    assert_eq!(current_language_name(), "English");
    let detected = init_language(&None);
    assert!(is_supported(&detected));
    assert_eq!(current_language(), detected);
}
