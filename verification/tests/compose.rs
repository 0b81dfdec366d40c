//! Whole-string composition (`text_to_num`).

use text2digits::{text_to_num, Error};

#[test]
fn units_and_teens() {
    assert_eq!(text_to_num("one", "en"), Ok(1));
    assert_eq!(text_to_num("nine", "en"), Ok(9));
    assert_eq!(text_to_num("ten", "en"), Ok(10));
    assert_eq!(text_to_num("fifteen", "en"), Ok(15));
    assert_eq!(text_to_num("nineteen", "en"), Ok(19));
    assert_eq!(text_to_num("zero", "en"), Ok(0));
}

#[test]
fn tens_and_compounds() {
    assert_eq!(text_to_num("eighty-five", "en"), Ok(85));
    assert_eq!(text_to_num("eighty-one", "en"), Ok(81));
    assert_eq!(text_to_num("forty two", "en"), Ok(42));
    assert_eq!(text_to_num("fourty two", "en"), Ok(42));
    assert_eq!(text_to_num("twenty-three", "en"), Ok(23));
}

#[test]
fn hundreds_and_scales() {
    assert_eq!(text_to_num("hundred fifteen", "en"), Ok(115));
    assert_eq!(text_to_num("one hundred fifteen", "en"), Ok(115));
    assert_eq!(text_to_num("thirty-five thousands", "en"), Ok(35000));
    assert_eq!(text_to_num("thousand nine hundred twenty", "en"), Ok(1920));
    assert_eq!(text_to_num("thousand and nine hundred twenty", "en"), Ok(1920));
    assert_eq!(text_to_num("one billion twenty-five millions", "en"), Ok(1_025_000_000));
    assert_eq!(
        text_to_num(
            "fifty-three billion two hundred forty-three thousand seven hundred twenty-four",
            "en",
        ),
        Ok(53_000_243_724),
    );
    assert_eq!(
        text_to_num(
            "fifty-one million five hundred seventy-eight thousand three hundred two",
            "en",
        ),
        Ok(51_578_302),
    );
}

#[test]
fn centuries() {
    assert_eq!(text_to_num("nineteen hundred seventy-three", "en"), Ok(1973));
    assert_eq!(text_to_num("forty five hundred thirty eight", "en"), Ok(4538));
    assert_eq!(text_to_num("sixty hundreds", "en"), Ok(6000));
}

#[test]
fn leading_zeroes_keep_the_value() {
    assert_eq!(text_to_num("zero eight", "en"), Ok(8));
    assert_eq!(text_to_num("o eight", "en"), Ok(8));
    assert_eq!(text_to_num("zero zero hundred twenty five", "en"), Ok(125));
}

#[test]
fn bare_scale_word_means_an_implicit_one() {
    // The grammar lets a magnitude word open a phrase with an elided "one".
    assert_eq!(text_to_num("hundred thousand three", "en"), Ok(100_003));
    assert_eq!(text_to_num("thousand", "en"), Ok(1000));
}

#[test]
fn bare_scale_word_agrees_with_text2num() {
    let en = text2num::Language::english();
    assert_eq!(
        text2num::text2digits("hundred thousand three", &en).unwrap(),
        "100003"
    );
}

#[test]
fn invalid_literals() {
    assert_eq!(text_to_num("thousand thousand two hundreds", "en"), Err(Error::InvalidNumberLiteral("thousand thousand two hundreds".to_string())));
    assert_eq!(text_to_num("sixty fifteen", "en"), Err(Error::InvalidNumberLiteral("sixty fifteen".to_string())));
    assert_eq!(text_to_num("hundred hundreds", "en"), Err(Error::InvalidNumberLiteral("hundred hundreds".to_string())));
    assert_eq!(text_to_num("ten five", "en"), Err(Error::InvalidNumberLiteral("ten five".to_string())));
    assert_eq!(text_to_num("twentieth two", "en"), Err(Error::InvalidNumberLiteral("twentieth two".to_string())));
    assert_eq!(text_to_num("ten oneths", "en"), Err(Error::InvalidNumberLiteral("ten oneths".to_string())));
    assert_eq!(text_to_num("five zero", "en"), Err(Error::InvalidNumberLiteral("five zero".to_string())));
    assert_eq!(text_to_num("fifty zero three", "en"), Err(Error::InvalidNumberLiteral("fifty zero three".to_string())));
    assert_eq!(text_to_num("", "en"), Err(Error::InvalidNumberLiteral("".to_string())));
    assert_eq!(text_to_num("apples", "en"), Err(Error::InvalidNumberLiteral("apples".to_string())));
    // an ordinal form is not an integer literal
    assert_eq!(text_to_num("twenty-first", "en"), Err(Error::InvalidNumberLiteral("twenty-first".to_string())));
}

#[test]
fn unsupported_language_is_never_a_fallback() {
    assert_eq!(text_to_num("one", "fr"), Err(Error::UnsupportedLanguage("fr".to_string())));
    assert_eq!(text_to_num("one", ""), Err(Error::UnsupportedLanguage("".to_string())));
    assert_eq!(text_to_num("one", "EN"), Err(Error::UnsupportedLanguage("EN".to_string())));
}

#[test]
fn composition_agrees_with_text2num() {
    // the text2num crate implements the same English grammar; the two
    // engines must agree on these phrases
    let en = text2num::Language::english();
    for phrase in [
        "one",
        "twelve",
        "twenty-three",
        "one hundred fifteen",
        "nineteen hundred seventy-three",
        "fifty-three billion two hundred forty-three thousand seven hundred twenty-four",
        "zero eight",
    ] {
        let reference: i64 = text2num::text2digits(phrase, &en).unwrap().parse().unwrap();
        assert_eq!(text_to_num(phrase, "en"), Ok(reference), "phrase: {phrase}");
    }
}
