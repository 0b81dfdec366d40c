//! The occurrence scanner (`find_numbers`) and its isolation policy.

use text2digits::{find_numbers, Error, InputToken};

fn toks(text: &str) -> Vec<InputToken> {
    text.split_whitespace()
        .map(|w| InputToken::new(w.to_string(), false, false))
        .collect()
}

#[test]
fn unsupported_language_scan_fails() {
    let input = toks("one two three");
    assert!(matches!(find_numbers(&input, "de", 3), Err(Error::UnsupportedLanguage(_))));
}

#[test]
fn single_phrase_covers_all_tokens() {
    let input = toks("twenty four");
    let occs = find_numbers(&input, "en", 3).unwrap();
    assert_eq!(occs.len(), 1);
    assert_eq!(occs[0].start(), 0);
    assert_eq!(occs[0].end(), 2);
    assert_eq!(occs[0].value(), 24);
    assert!(!occs[0].is_ordinal());
    assert_eq!(occs[0].digits(), "24");
    assert_eq!(occs[0].text(), "twenty four");
}

#[test]
fn phrase_in_context() {
    let input = toks("i have twenty four dollars in my pocket");
    let occs = find_numbers(&input, "en", 10).unwrap();
    assert_eq!(occs.len(), 1);
    assert_eq!(occs[0].start(), 2);
    assert_eq!(occs[0].end(), 4);
    assert_eq!(occs[0].value(), 24);
}

#[test]
fn isolated_small_cardinal_is_suppressed() {
    // value 2 < threshold 3: no occurrence
    let input = toks("I have two cats");
    let occs = find_numbers(&input, "en", 3).unwrap();
    assert!(occs.is_empty());
}

#[test]
fn isolated_cardinal_at_threshold_is_kept() {
    let input = toks("I have three cats");
    let occs = find_numbers(&input, "en", 3).unwrap();
    assert_eq!(occs.len(), 1);
    assert_eq!(occs[0].value(), 3);
}

#[test]
fn isolated_ordinal_is_always_kept() {
    // "second" has value 2, below the threshold, but ordinals always convert
    let input = toks("the second one");
    let occs = find_numbers(&input, "en", 3).unwrap();
    assert_eq!(occs.len(), 1);
    assert_eq!(occs[0].value(), 2);
    assert!(occs[0].is_ordinal());
    assert_eq!(occs[0].digits(), "2nd");
}

#[test]
fn lone_scale_word_is_kept() {
    let input = toks("a thousand thanks");
    let occs = find_numbers(&input, "en", 2000).unwrap();
    assert_eq!(occs.len(), 1);
    assert_eq!(occs[0].value(), 1000);
}

#[test]
fn grouped_numbers_are_kept_whatever_their_value() {
    let input = toks("zero eight");
    let occs = find_numbers(&input, "en", 100).unwrap();
    assert_eq!(occs.len(), 1);
    assert_eq!(occs[0].value(), 8);
    assert_eq!(occs[0].digits(), "08");
}

#[test]
fn occurrences_are_ordered_and_disjoint() {
    let input = toks("four plus five so eleven then three uh six uh well seven");
    let occs = find_numbers(&input, "en", 0).unwrap();
    assert_eq!(occs.len(), 6);
    for w in occs.windows(2) {
        assert!(w[0].end() <= w[1].start());
    }
    for o in &occs {
        assert!(o.start() < o.end());
        assert!(o.end() <= input.len());
    }
    let values: Vec<u64> = occs.iter().map(|o| o.value()).collect();
    assert_eq!(values, vec![4, 5, 11, 3, 6, 7]);
}

#[test]
fn sentence_boundary_splits_phrases() {
    let mut input = toks("twenty one");
    input[1].nt_separated = true;
    let occs = find_numbers(&input, "en", 0).unwrap();
    assert_eq!(occs.len(), 2);
    assert_eq!(occs[0].value(), 20);
    assert_eq!(occs[1].value(), 1);
}

#[test]
fn not_a_number_part_breaks_a_phrase() {
    let mut input = toks("twenty one");
    input[1].not_a_number_part = true;
    let occs = find_numbers(&input, "en", 0).unwrap();
    assert_eq!(occs.len(), 1);
    assert_eq!(occs[0].value(), 20);
    assert_eq!(occs[0].end(), 1);
}

#[test]
fn back_to_back_phrases_split_where_composition_fails() {
    let input = toks("one two three four twenty fifteen");
    let occs = find_numbers(&input, "en", 0).unwrap();
    let values: Vec<u64> = occs.iter().map(|o| o.value()).collect();
    assert_eq!(values, vec![1, 2, 3, 4, 20, 15]);
}
