//! The interpreter registry.

use text2digits::{get_interpreter, Error, Language};

#[test]
fn known_language_resolves() {
    assert!(matches!(get_interpreter("en"), Ok(Language::English)));
}

#[test]
fn unknown_language_is_an_error_not_a_default() {
    for bad in ["", "fr", "de", "es", "EN", "en-US", "english", "xx"] {
        match get_interpreter(bad) {
            Err(Error::UnsupportedLanguage(l)) => assert_eq!(l, bad),
            _ => panic!("language {bad:?} must be refused"),
        }
    }
}

#[test]
fn error_messages_name_the_offending_input() {
    assert_eq!(
        Error::UnsupportedLanguage("fr".to_string()).message(),
        "unsupported language fr",
    );
    assert_eq!(
        Error::InvalidNumberLiteral("ten five".to_string()).message(),
        "invalid literal for text2num: 'ten five'",
    );
}
