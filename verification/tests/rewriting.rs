//! In-place rewriting of number phrases (`alpha2digit`).

use text2digits::{alpha2digit, Error};

#[test]
fn unsupported_language_rewrite_fails() {
    assert!(matches!(alpha2digit("one two", "es", 3), Err(Error::UnsupportedLanguage(_))));
}

#[test]
fn grouped_converted_isolated_small_kept() {
    // "twenty-three" is grouped and always converted; the isolated "two"
    // stays spelled out under the default threshold; everything around the
    // replaced span is byte-identical to the input.
    assert_eq!(
        alpha2digit("I have twenty-three apples and two pears.", "en", 3).unwrap(),
        "I have 23 apples and two pears.",
    );
}

#[test]
fn rewrite_agrees_with_text2num() {
    let en = text2num::Language::english();
    assert_eq!(
        alpha2digit("I have twenty-three apples and two pears.", "en", 3).unwrap(),
        text2num::replace_numbers_in_text("I have twenty-three apples and two pears.", &en, 3.0),
    );
}

#[test]
fn punctuation_and_spacing_survive() {
    assert_eq!(
        alpha2digit("twenty-five cows, twelve chickens and one hundred twenty five kg of potatoes.", "en", 10).unwrap(),
        "25 cows, 12 chickens and 125 kg of potatoes.",
    );
    assert_eq!(
        alpha2digit("one thousand two hundred and sixty six dollars.", "en", 10).unwrap(),
        "1266 dollars.",
    );
    assert_eq!(
        alpha2digit("twenty-one, thirty-one.", "en", 10).unwrap(),
        "21, 31.",
    );
}

#[test]
fn casing_is_handled() {
    assert_eq!(alpha2digit("FIFTEEN ONE TEN ONE", "en", 0).unwrap(), "15 1 10 1");
}

#[test]
fn ordinals_get_their_suffix() {
    assert_eq!(
        alpha2digit("Fifth third second twenty-first hundredth one thousand two hundred thirtieth.", "en", 0).unwrap(),
        "5th 3rd 2nd 21st 100th 1230th.",
    );
    assert_eq!(alpha2digit("Twenty seconds", "en", 3).unwrap(), "20 seconds");
    assert_eq!(alpha2digit("five hundred first", "en", 3).unwrap(), "501st");
}

#[test]
fn ordinal_rewrites_agree_with_text2num() {
    let en = text2num::Language::english();
    let sentence = "For the fifth time: twenty-five plus fourty-eight equal seventy-three";
    assert_eq!(
        alpha2digit(sentence, "en", 0).unwrap(),
        text2num::replace_numbers_in_text(sentence, &en, 0.0),
    );
    assert_eq!(alpha2digit(sentence, "en", 0).unwrap(), "For the 5th time: 25 plus 48 equal 73");
}

#[test]
fn zero_groups_agree_with_text2num() {
    let en = text2num::Language::english();
    let sentence = "zero nine sixty zero six twelve twenty-one";
    assert_eq!(
        alpha2digit(sentence, "en", 10).unwrap(),
        text2num::replace_numbers_in_text(sentence, &en, 10.0),
    );
    assert_eq!(alpha2digit(sentence, "en", 10).unwrap(), "09 60 06 12 21");
}

#[test]
fn spoken_o_groups_like_zero() {
    let en = text2num::Language::english();
    let sentence = "o nine sixty o six twelve twenty-one";
    assert_eq!(
        alpha2digit(sentence, "en", 10).unwrap(),
        text2num::replace_numbers_in_text(sentence, &en, 10.0),
    );
    assert_eq!(alpha2digit(sentence, "en", 10).unwrap(), "09 60 06 12 21");
    // an isolated "o" is below any positive threshold and stays a letter
    assert_eq!(
        alpha2digit("my name is o s c a r", "en", 10).unwrap(),
        "my name is o s c a r",
    );
}

#[test]
fn fractions_keep_their_plural_suffix() {
    assert_eq!(alpha2digit("twenty-fifths", "en", 0).unwrap(), "25ths");
}

#[test]
fn text_without_numbers_is_unchanged() {
    let sentence = "No numerals here, just words -- and punctuation!\n";
    assert_eq!(alpha2digit(sentence, "en", 3).unwrap(), sentence);
}

#[test]
fn rewriting_twice_changes_nothing_more() {
    for sentence in [
        "I have twenty-three apples and two pears.",
        "zero nine sixty zero six twelve twenty-one",
        "Fifth third second twenty-first hundredth.",
        "one thousand two hundred and sixty six dollars.",
        "No numerals here!",
    ] {
        let once = alpha2digit(sentence, "en", 3).unwrap();
        let twice = alpha2digit(&once, "en", 3).unwrap();
        assert_eq!(once, twice, "sentence: {sentence}");
    }
}

#[test]
fn digit_text_is_not_reinterpreted() {
    assert_eq!(alpha2digit("23 apples and 2 pears", "en", 3).unwrap(), "23 apples and 2 pears");
}
