//! Proved laws of the composition grammar: spelled-out cardinals compose
//! back to exactly the value they spell.

use vstd::prelude::*;

use crate::digits::{all_zeros, empty_view, put_result, value_of, Marker};
use crate::english::{lemma_of, word_action, Action};
use crate::english::{step_spec};

verus! {

/// The spelling of a unit value.
pub open spec fn unit_word(d: u8) -> Seq<char> {
    if d == 1 { "one"@ } else if d == 2 { "two"@ } else if d == 3 { "three"@ }
    else if d == 4 { "four"@ } else if d == 5 { "five"@ } else if d == 6 { "six"@ }
    else if d == 7 { "seven"@ } else if d == 8 { "eight"@ } else { "nine"@ }
}

/// The spelling of ten plus a unit value.
pub open spec fn teen_word(d: u8) -> Seq<char> {
    if d == 0 { "ten"@ } else if d == 1 { "eleven"@ } else if d == 2 { "twelve"@ }
    else if d == 3 { "thirteen"@ } else if d == 4 { "fourteen"@ } else if d == 5 { "fifteen"@ }
    else if d == 6 { "sixteen"@ } else if d == 7 { "seventeen"@ } else if d == 8 { "eighteen"@ }
    else { "nineteen"@ }
}

/// The spelling of a multiple of ten.
pub open spec fn tens_word(t: u8) -> Seq<char> {
    if t == 2 { "twenty"@ } else if t == 3 { "thirty"@ } else if t == 4 { "forty"@ }
    else if t == 5 { "fifty"@ } else if t == 6 { "sixty"@ } else if t == 7 { "seventy"@ }
    else if t == 8 { "eighty"@ } else { "ninety"@ }
}


/// Law: for every unit value, its spelling composes from a fresh state to a
/// cardinal of exactly that value.
#[verifier::rlimit(100)]
pub proof fn lemma_unit_roundtrip(d: u8)
    requires
        1 <= d <= 9,
    ensures
        step_spec(unit_word(d), empty_view()).r is Ok,
        value_of(step_spec(unit_word(d), empty_view()).v.digits) == d,
        step_spec(unit_word(d), empty_view()).v.marker == Marker::Cardinal,
        !step_spec(unit_word(d), empty_view()).v.frozen,
{
    if d == 1 {
        reveal_strlit("first");
        reveal_strlit("nought");
        reveal_strlit("one");
        reveal_strlit("second");
        reveal_strlit("th");
        reveal_strlit("third");
        reveal_strlit("o");
        reveal_strlit("o");
    reveal_strlit("zero");
        assert(!crate::english::ends_with("one"@, "th"@)) by {
            assert("one"@.subrange(1, 3)[0] == 'n');
        }
        assert(lemma_of("one"@) == "one"@);
        assert(!crate::english::ord_trigger("one"@, "one"@));
    } else if d == 2 {
        reveal_strlit("first");
        reveal_strlit("nought");
        reveal_strlit("one");
        reveal_strlit("oneth");
        reveal_strlit("second");
        reveal_strlit("th");
        reveal_strlit("third");
        reveal_strlit("two");
        reveal_strlit("o");
        reveal_strlit("o");
    reveal_strlit("zero");
        assert("two"@ != "one"@) by {
            assert("two"@[0] != "one"@[0]);
        }
        assert(!crate::english::ends_with("two"@, "th"@)) by {
            assert("two"@.subrange(1, 3)[0] == 'w');
        }
        assert(lemma_of("two"@) == "two"@);
        assert(!crate::english::ord_trigger("two"@, "two"@));
    } else if d == 3 {
        reveal_strlit("first");
        reveal_strlit("nought");
        reveal_strlit("one");
        reveal_strlit("oneth");
        reveal_strlit("second");
        reveal_strlit("th");
        reveal_strlit("third");
        reveal_strlit("three");
        reveal_strlit("two");
        reveal_strlit("o");
        reveal_strlit("o");
    reveal_strlit("zero");
        assert("three"@ != "first"@) by {
            assert("three"@[0] != "first"@[0]);
        }
        assert("three"@ != "oneth"@) by {
            assert("three"@[0] != "oneth"@[0]);
        }
        assert("three"@ != "third"@) by {
            assert("three"@[2] != "third"@[2]);
        }
        assert(!crate::english::ends_with("three"@, "th"@)) by {
            assert("three"@.subrange(3, 5)[0] == 'e');
        }
        assert(lemma_of("three"@) == "three"@);
        assert(!crate::english::ord_trigger("three"@, "three"@));
    } else if d == 4 {
        reveal_strlit("first");
        reveal_strlit("four");
        reveal_strlit("nought");
        reveal_strlit("one");
        reveal_strlit("oneth");
        reveal_strlit("second");
        reveal_strlit("th");
        reveal_strlit("third");
        reveal_strlit("three");
        reveal_strlit("two");
        reveal_strlit("o");
        reveal_strlit("o");
    reveal_strlit("zero");
        assert("four"@ != "zero"@) by {
            assert("four"@[0] != "zero"@[0]);
        }
        assert(!crate::english::ends_with("four"@, "th"@)) by {
            assert("four"@.subrange(2, 4)[0] == 'u');
        }
        assert(lemma_of("four"@) == "four"@);
        assert(!crate::english::ord_trigger("four"@, "four"@));
    } else if d == 5 {
        reveal_strlit("first");
        reveal_strlit("five");
        reveal_strlit("four");
        reveal_strlit("fourth");
        reveal_strlit("nought");
        reveal_strlit("one");
        reveal_strlit("oneth");
        reveal_strlit("second");
        reveal_strlit("th");
        reveal_strlit("third");
        reveal_strlit("three");
        reveal_strlit("two");
        reveal_strlit("o");
        reveal_strlit("o");
    reveal_strlit("zero");
        assert("five"@ != "four"@) by {
            assert("five"@[1] != "four"@[1]);
        }
        assert("five"@ != "zero"@) by {
            assert("five"@[0] != "zero"@[0]);
        }
        assert(!crate::english::ends_with("five"@, "th"@)) by {
            assert("five"@.subrange(2, 4)[0] == 'v');
        }
        assert(lemma_of("five"@) == "five"@);
        assert(!crate::english::ord_trigger("five"@, "five"@));
    } else if d == 6 {
        reveal_strlit("fifth");
        reveal_strlit("first");
        reveal_strlit("five");
        reveal_strlit("four");
        reveal_strlit("fourth");
        reveal_strlit("nought");
        reveal_strlit("one");
        reveal_strlit("oneth");
        reveal_strlit("second");
        reveal_strlit("six");
        reveal_strlit("th");
        reveal_strlit("third");
        reveal_strlit("three");
        reveal_strlit("two");
        reveal_strlit("o");
        reveal_strlit("o");
    reveal_strlit("zero");
        assert("six"@ != "one"@) by {
            assert("six"@[0] != "one"@[0]);
        }
        assert("six"@ != "two"@) by {
            assert("six"@[0] != "two"@[0]);
        }
        assert(!crate::english::ends_with("six"@, "th"@)) by {
            assert("six"@.subrange(1, 3)[0] == 'i');
        }
        assert(lemma_of("six"@) == "six"@);
        assert(!crate::english::ord_trigger("six"@, "six"@));
    } else if d == 7 {
        reveal_strlit("fifth");
        reveal_strlit("first");
        reveal_strlit("five");
        reveal_strlit("four");
        reveal_strlit("fourth");
        reveal_strlit("nought");
        reveal_strlit("one");
        reveal_strlit("oneth");
        reveal_strlit("second");
        reveal_strlit("seven");
        reveal_strlit("six");
        reveal_strlit("sixth");
        reveal_strlit("th");
        reveal_strlit("third");
        reveal_strlit("three");
        reveal_strlit("two");
        reveal_strlit("o");
        reveal_strlit("o");
    reveal_strlit("zero");
        assert("seven"@ != "fifth"@) by {
            assert("seven"@[0] != "fifth"@[0]);
        }
        assert("seven"@ != "first"@) by {
            assert("seven"@[0] != "first"@[0]);
        }
        assert("seven"@ != "oneth"@) by {
            assert("seven"@[0] != "oneth"@[0]);
        }
        assert("seven"@ != "sixth"@) by {
            assert("seven"@[1] != "sixth"@[1]);
        }
        assert("seven"@ != "third"@) by {
            assert("seven"@[0] != "third"@[0]);
        }
        assert("seven"@ != "three"@) by {
            assert("seven"@[0] != "three"@[0]);
        }
        assert(!crate::english::ends_with("seven"@, "th"@)) by {
            assert("seven"@.subrange(3, 5)[0] == 'e');
        }
        assert(lemma_of("seven"@) == "seven"@);
        assert(!crate::english::ord_trigger("seven"@, "seven"@));
    } else if d == 8 {
        reveal_strlit("eight");
        reveal_strlit("fifth");
        reveal_strlit("first");
        reveal_strlit("five");
        reveal_strlit("four");
        reveal_strlit("fourth");
        reveal_strlit("nought");
        reveal_strlit("one");
        reveal_strlit("oneth");
        reveal_strlit("second");
        reveal_strlit("seven");
        reveal_strlit("seventh");
        reveal_strlit("six");
        reveal_strlit("sixth");
        reveal_strlit("th");
        reveal_strlit("third");
        reveal_strlit("three");
        reveal_strlit("two");
        reveal_strlit("o");
        reveal_strlit("o");
    reveal_strlit("zero");
        assert("eight"@ != "fifth"@) by {
            assert("eight"@[0] != "fifth"@[0]);
        }
        assert("eight"@ != "first"@) by {
            assert("eight"@[0] != "first"@[0]);
        }
        assert("eight"@ != "oneth"@) by {
            assert("eight"@[0] != "oneth"@[0]);
        }
        assert("eight"@ != "seven"@) by {
            assert("eight"@[0] != "seven"@[0]);
        }
        assert("eight"@ != "sixth"@) by {
            assert("eight"@[0] != "sixth"@[0]);
        }
        assert("eight"@ != "third"@) by {
            assert("eight"@[0] != "third"@[0]);
        }
        assert("eight"@ != "three"@) by {
            assert("eight"@[0] != "three"@[0]);
        }
        assert(!crate::english::ends_with("eight"@, "th"@)) by {
            assert("eight"@.subrange(3, 5)[0] == 'h');
        }
        assert(lemma_of("eight"@) == "eight"@);
        assert(!crate::english::ord_trigger("eight"@, "eight"@));
    } else {
        reveal_strlit("eight");
        reveal_strlit("eighth");
        reveal_strlit("fifth");
        reveal_strlit("first");
        reveal_strlit("five");
        reveal_strlit("four");
        reveal_strlit("fourth");
        reveal_strlit("nine");
        reveal_strlit("nought");
        reveal_strlit("one");
        reveal_strlit("oneth");
        reveal_strlit("second");
        reveal_strlit("seven");
        reveal_strlit("seventh");
        reveal_strlit("six");
        reveal_strlit("sixth");
        reveal_strlit("th");
        reveal_strlit("third");
        reveal_strlit("three");
        reveal_strlit("two");
        reveal_strlit("o");
        reveal_strlit("o");
    reveal_strlit("zero");
        assert("nine"@ != "five"@) by {
            assert("nine"@[0] != "five"@[0]);
        }
        assert("nine"@ != "four"@) by {
            assert("nine"@[0] != "four"@[0]);
        }
        assert("nine"@ != "zero"@) by {
            assert("nine"@[0] != "zero"@[0]);
        }
        assert(!crate::english::ends_with("nine"@, "th"@)) by {
            assert("nine"@.subrange(2, 4)[0] == 'n');
        }
        assert(lemma_of("nine"@) == "nine"@);
        assert(!crate::english::ord_trigger("nine"@, "nine"@));
    }
    assert(word_action(unit_word(d)) == Action::Unit(d));
    assert(lemma_of(unit_word(d)) == unit_word(d));
    assert(!crate::english::ord_trigger(unit_word(d), unit_word(d)));
    let dd = seq![d];
    assert(dd[0] == d);
    assert(!all_zeros(dd));
    assert(!(dd =~= seq![0u8])) by {
        assert(dd[0] != seq![0u8][0]);
    }
    assert(put_result(Seq::<u8>::empty(), 0, dd) == Some((dd, 0nat)));
    let so = step_spec(unit_word(d), empty_view());
    assert(so.v.digits == dd);
    assert(value_of(so.v.digits) == d) by {
        reveal_with_fuel(value_of, 3);
        assert(dd.drop_last() =~= Seq::<u8>::empty());
        assert(dd.last() == d);
        assert(value_of(Seq::<u8>::empty()) == 0);
    }
}

/// Law: for every teen value, its spelling composes from a fresh state to a
/// cardinal of exactly ten plus the unit.
#[verifier::rlimit(100)]
pub proof fn lemma_teen_roundtrip(d: u8)
    requires
        d <= 9,
    ensures
        step_spec(teen_word(d), empty_view()).r is Ok,
        value_of(step_spec(teen_word(d), empty_view()).v.digits) == 10 + d,
        step_spec(teen_word(d), empty_view()).v.marker == Marker::Cardinal,
{
    if d == 0 {
        reveal_strlit("eight");
        reveal_strlit("eighth");
        reveal_strlit("fifth");
        reveal_strlit("first");
        reveal_strlit("five");
        reveal_strlit("four");
        reveal_strlit("fourth");
        reveal_strlit("nine");
        reveal_strlit("ninth");
        reveal_strlit("nought");
        reveal_strlit("one");
        reveal_strlit("oneth");
        reveal_strlit("second");
        reveal_strlit("seven");
        reveal_strlit("seventh");
        reveal_strlit("six");
        reveal_strlit("sixth");
        reveal_strlit("ten");
        reveal_strlit("th");
        reveal_strlit("third");
        reveal_strlit("three");
        reveal_strlit("two");
        reveal_strlit("o");
        reveal_strlit("o");
    reveal_strlit("zero");
        assert("ten"@ != "one"@) by {
            assert("ten"@[0] != "one"@[0]);
        }
        assert("ten"@ != "six"@) by {
            assert("ten"@[0] != "six"@[0]);
        }
        assert("ten"@ != "two"@) by {
            assert("ten"@[1] != "two"@[1]);
        }
        assert(!crate::english::ends_with("ten"@, "th"@)) by {
            assert("ten"@.subrange(1, 3)[0] == 'e');
        }
        assert(lemma_of("ten"@) == "ten"@);
        assert(!crate::english::ord_trigger("ten"@, "ten"@));
    } else if d == 1 {
        reveal_strlit("eight");
        reveal_strlit("eighth");
        reveal_strlit("eleven");
        reveal_strlit("fifth");
        reveal_strlit("first");
        reveal_strlit("five");
        reveal_strlit("four");
        reveal_strlit("fourth");
        reveal_strlit("nine");
        reveal_strlit("ninth");
        reveal_strlit("nought");
        reveal_strlit("one");
        reveal_strlit("oneth");
        reveal_strlit("second");
        reveal_strlit("seven");
        reveal_strlit("seventh");
        reveal_strlit("six");
        reveal_strlit("sixth");
        reveal_strlit("ten");
        reveal_strlit("tenth");
        reveal_strlit("th");
        reveal_strlit("third");
        reveal_strlit("three");
        reveal_strlit("two");
        reveal_strlit("o");
        reveal_strlit("o");
    reveal_strlit("zero");
        assert("eleven"@ != "eighth"@) by {
            assert("eleven"@[1] != "eighth"@[1]);
        }
        assert("eleven"@ != "fourth"@) by {
            assert("eleven"@[0] != "fourth"@[0]);
        }
        assert("eleven"@ != "nought"@) by {
            assert("eleven"@[0] != "nought"@[0]);
        }
        assert("eleven"@ != "second"@) by {
            assert("eleven"@[0] != "second"@[0]);
        }
        assert(!crate::english::ends_with("eleven"@, "th"@)) by {
            assert("eleven"@.subrange(4, 6)[0] == 'e');
        }
        assert(lemma_of("eleven"@) == "eleven"@);
        assert(!crate::english::ord_trigger("eleven"@, "eleven"@));
    } else if d == 2 {
        reveal_strlit("eight");
        reveal_strlit("eighth");
        reveal_strlit("eleven");
        reveal_strlit("eleventh");
        reveal_strlit("fifth");
        reveal_strlit("first");
        reveal_strlit("five");
        reveal_strlit("four");
        reveal_strlit("fourth");
        reveal_strlit("nine");
        reveal_strlit("ninth");
        reveal_strlit("nought");
        reveal_strlit("one");
        reveal_strlit("oneth");
        reveal_strlit("second");
        reveal_strlit("seven");
        reveal_strlit("seventh");
        reveal_strlit("six");
        reveal_strlit("sixth");
        reveal_strlit("ten");
        reveal_strlit("tenth");
        reveal_strlit("th");
        reveal_strlit("third");
        reveal_strlit("three");
        reveal_strlit("twelve");
        reveal_strlit("two");
        reveal_strlit("o");
        reveal_strlit("o");
    reveal_strlit("zero");
        assert("twelve"@ != "eighth"@) by {
            assert("twelve"@[0] != "eighth"@[0]);
        }
        assert("twelve"@ != "eleven"@) by {
            assert("twelve"@[0] != "eleven"@[0]);
        }
        assert("twelve"@ != "fourth"@) by {
            assert("twelve"@[0] != "fourth"@[0]);
        }
        assert("twelve"@ != "nought"@) by {
            assert("twelve"@[0] != "nought"@[0]);
        }
        assert("twelve"@ != "second"@) by {
            assert("twelve"@[0] != "second"@[0]);
        }
        assert(!crate::english::ends_with("twelve"@, "th"@)) by {
            assert("twelve"@.subrange(4, 6)[0] == 'v');
        }
        assert(lemma_of("twelve"@) == "twelve"@);
        assert(!crate::english::ord_trigger("twelve"@, "twelve"@));
    } else if d == 3 {
        reveal_strlit("eight");
        reveal_strlit("eighth");
        reveal_strlit("eleven");
        reveal_strlit("eleventh");
        reveal_strlit("fifth");
        reveal_strlit("first");
        reveal_strlit("five");
        reveal_strlit("four");
        reveal_strlit("fourth");
        reveal_strlit("nine");
        reveal_strlit("ninth");
        reveal_strlit("nought");
        reveal_strlit("one");
        reveal_strlit("oneth");
        reveal_strlit("second");
        reveal_strlit("seven");
        reveal_strlit("seventh");
        reveal_strlit("six");
        reveal_strlit("sixth");
        reveal_strlit("ten");
        reveal_strlit("tenth");
        reveal_strlit("th");
        reveal_strlit("third");
        reveal_strlit("thirteen");
        reveal_strlit("three");
        reveal_strlit("twelfth");
        reveal_strlit("twelve");
        reveal_strlit("two");
        reveal_strlit("o");
        reveal_strlit("o");
    reveal_strlit("zero");
        assert("thirteen"@ != "eleventh"@) by {
            assert("thirteen"@[0] != "eleventh"@[0]);
        }
        assert(!crate::english::ends_with("thirteen"@, "th"@)) by {
            assert("thirteen"@.subrange(6, 8)[0] == 'e');
        }
        assert(lemma_of("thirteen"@) == "thirteen"@);
        assert(!crate::english::ord_trigger("thirteen"@, "thirteen"@));
    } else if d == 4 {
        reveal_strlit("eight");
        reveal_strlit("eighth");
        reveal_strlit("eleven");
        reveal_strlit("eleventh");
        reveal_strlit("fifth");
        reveal_strlit("first");
        reveal_strlit("five");
        reveal_strlit("four");
        reveal_strlit("fourteen");
        reveal_strlit("fourth");
        reveal_strlit("nine");
        reveal_strlit("ninth");
        reveal_strlit("nought");
        reveal_strlit("one");
        reveal_strlit("oneth");
        reveal_strlit("second");
        reveal_strlit("seven");
        reveal_strlit("seventh");
        reveal_strlit("six");
        reveal_strlit("sixth");
        reveal_strlit("ten");
        reveal_strlit("tenth");
        reveal_strlit("th");
        reveal_strlit("third");
        reveal_strlit("thirteen");
        reveal_strlit("thirteenth");
        reveal_strlit("three");
        reveal_strlit("twelfth");
        reveal_strlit("twelve");
        reveal_strlit("two");
        reveal_strlit("o");
        reveal_strlit("o");
    reveal_strlit("zero");
        assert("fourteen"@ != "eleventh"@) by {
            assert("fourteen"@[0] != "eleventh"@[0]);
        }
        assert("fourteen"@ != "thirteen"@) by {
            assert("fourteen"@[0] != "thirteen"@[0]);
        }
        assert(!crate::english::ends_with("fourteen"@, "th"@)) by {
            assert("fourteen"@.subrange(6, 8)[0] == 'e');
        }
        assert(lemma_of("fourteen"@) == "fourteen"@);
        assert(!crate::english::ord_trigger("fourteen"@, "fourteen"@));
    } else if d == 5 {
        reveal_strlit("eight");
        reveal_strlit("eighth");
        reveal_strlit("eleven");
        reveal_strlit("eleventh");
        reveal_strlit("fifteen");
        reveal_strlit("fifth");
        reveal_strlit("first");
        reveal_strlit("five");
        reveal_strlit("four");
        reveal_strlit("fourteen");
        reveal_strlit("fourteenth");
        reveal_strlit("fourth");
        reveal_strlit("nine");
        reveal_strlit("ninth");
        reveal_strlit("nought");
        reveal_strlit("one");
        reveal_strlit("oneth");
        reveal_strlit("second");
        reveal_strlit("seven");
        reveal_strlit("seventh");
        reveal_strlit("six");
        reveal_strlit("sixth");
        reveal_strlit("ten");
        reveal_strlit("tenth");
        reveal_strlit("th");
        reveal_strlit("third");
        reveal_strlit("thirteen");
        reveal_strlit("thirteenth");
        reveal_strlit("three");
        reveal_strlit("twelfth");
        reveal_strlit("twelve");
        reveal_strlit("two");
        reveal_strlit("o");
        reveal_strlit("o");
    reveal_strlit("zero");
        assert("fifteen"@ != "seventh"@) by {
            assert("fifteen"@[0] != "seventh"@[0]);
        }
        assert("fifteen"@ != "twelfth"@) by {
            assert("fifteen"@[0] != "twelfth"@[0]);
        }
        assert(!crate::english::ends_with("fifteen"@, "th"@)) by {
            assert("fifteen"@.subrange(5, 7)[0] == 'e');
        }
        assert(lemma_of("fifteen"@) == "fifteen"@);
        assert(!crate::english::ord_trigger("fifteen"@, "fifteen"@));
    } else if d == 6 {
        reveal_strlit("eight");
        reveal_strlit("eighth");
        reveal_strlit("eleven");
        reveal_strlit("eleventh");
        reveal_strlit("fifteen");
        reveal_strlit("fifteenth");
        reveal_strlit("fifth");
        reveal_strlit("first");
        reveal_strlit("five");
        reveal_strlit("four");
        reveal_strlit("fourteen");
        reveal_strlit("fourteenth");
        reveal_strlit("fourth");
        reveal_strlit("nine");
        reveal_strlit("ninth");
        reveal_strlit("nought");
        reveal_strlit("one");
        reveal_strlit("oneth");
        reveal_strlit("second");
        reveal_strlit("seven");
        reveal_strlit("seventh");
        reveal_strlit("six");
        reveal_strlit("sixteen");
        reveal_strlit("sixth");
        reveal_strlit("ten");
        reveal_strlit("tenth");
        reveal_strlit("th");
        reveal_strlit("third");
        reveal_strlit("thirteen");
        reveal_strlit("thirteenth");
        reveal_strlit("three");
        reveal_strlit("twelfth");
        reveal_strlit("twelve");
        reveal_strlit("two");
        reveal_strlit("o");
        reveal_strlit("o");
    reveal_strlit("zero");
        assert("sixteen"@ != "fifteen"@) by {
            assert("sixteen"@[0] != "fifteen"@[0]);
        }
        assert("sixteen"@ != "seventh"@) by {
            assert("sixteen"@[1] != "seventh"@[1]);
        }
        assert("sixteen"@ != "twelfth"@) by {
            assert("sixteen"@[0] != "twelfth"@[0]);
        }
        assert(!crate::english::ends_with("sixteen"@, "th"@)) by {
            assert("sixteen"@.subrange(5, 7)[0] == 'e');
        }
        assert(lemma_of("sixteen"@) == "sixteen"@);
        assert(!crate::english::ord_trigger("sixteen"@, "sixteen"@));
    } else if d == 7 {
        reveal_strlit("eight");
        reveal_strlit("eighth");
        reveal_strlit("eleven");
        reveal_strlit("eleventh");
        reveal_strlit("fifteen");
        reveal_strlit("fifteenth");
        reveal_strlit("fifth");
        reveal_strlit("first");
        reveal_strlit("five");
        reveal_strlit("four");
        reveal_strlit("fourteen");
        reveal_strlit("fourteenth");
        reveal_strlit("fourth");
        reveal_strlit("nine");
        reveal_strlit("ninth");
        reveal_strlit("nought");
        reveal_strlit("one");
        reveal_strlit("oneth");
        reveal_strlit("second");
        reveal_strlit("seven");
        reveal_strlit("seventeen");
        reveal_strlit("seventh");
        reveal_strlit("six");
        reveal_strlit("sixteen");
        reveal_strlit("sixteenth");
        reveal_strlit("sixth");
        reveal_strlit("ten");
        reveal_strlit("tenth");
        reveal_strlit("th");
        reveal_strlit("third");
        reveal_strlit("thirteen");
        reveal_strlit("thirteenth");
        reveal_strlit("three");
        reveal_strlit("twelfth");
        reveal_strlit("twelve");
        reveal_strlit("two");
        reveal_strlit("o");
        reveal_strlit("o");
    reveal_strlit("zero");
        assert("seventeen"@ != "fifteenth"@) by {
            assert("seventeen"@[0] != "fifteenth"@[0]);
        }
        assert("seventeen"@ != "sixteenth"@) by {
            assert("seventeen"@[1] != "sixteenth"@[1]);
        }
        assert(!crate::english::ends_with("seventeen"@, "th"@)) by {
            assert("seventeen"@.subrange(7, 9)[0] == 'e');
        }
        assert(lemma_of("seventeen"@) == "seventeen"@);
        assert(!crate::english::ord_trigger("seventeen"@, "seventeen"@));
    } else if d == 8 {
        reveal_strlit("eight");
        reveal_strlit("eighteen");
        reveal_strlit("eighth");
        reveal_strlit("eleven");
        reveal_strlit("eleventh");
        reveal_strlit("fifteen");
        reveal_strlit("fifteenth");
        reveal_strlit("fifth");
        reveal_strlit("first");
        reveal_strlit("five");
        reveal_strlit("four");
        reveal_strlit("fourteen");
        reveal_strlit("fourteenth");
        reveal_strlit("fourth");
        reveal_strlit("nine");
        reveal_strlit("ninth");
        reveal_strlit("nought");
        reveal_strlit("one");
        reveal_strlit("oneth");
        reveal_strlit("second");
        reveal_strlit("seven");
        reveal_strlit("seventeen");
        reveal_strlit("seventeenth");
        reveal_strlit("seventh");
        reveal_strlit("six");
        reveal_strlit("sixteen");
        reveal_strlit("sixteenth");
        reveal_strlit("sixth");
        reveal_strlit("ten");
        reveal_strlit("tenth");
        reveal_strlit("th");
        reveal_strlit("third");
        reveal_strlit("thirteen");
        reveal_strlit("thirteenth");
        reveal_strlit("three");
        reveal_strlit("twelfth");
        reveal_strlit("twelve");
        reveal_strlit("two");
        reveal_strlit("o");
        reveal_strlit("o");
    reveal_strlit("zero");
        assert("eighteen"@ != "eleventh"@) by {
            assert("eighteen"@[1] != "eleventh"@[1]);
        }
        assert("eighteen"@ != "fourteen"@) by {
            assert("eighteen"@[0] != "fourteen"@[0]);
        }
        assert("eighteen"@ != "thirteen"@) by {
            assert("eighteen"@[0] != "thirteen"@[0]);
        }
        assert(!crate::english::ends_with("eighteen"@, "th"@)) by {
            assert("eighteen"@.subrange(6, 8)[0] == 'e');
        }
        assert(lemma_of("eighteen"@) == "eighteen"@);
        assert(!crate::english::ord_trigger("eighteen"@, "eighteen"@));
    } else {
        reveal_strlit("eight");
        reveal_strlit("eighteen");
        reveal_strlit("eighteenth");
        reveal_strlit("eighth");
        reveal_strlit("eleven");
        reveal_strlit("eleventh");
        reveal_strlit("fifteen");
        reveal_strlit("fifteenth");
        reveal_strlit("fifth");
        reveal_strlit("first");
        reveal_strlit("five");
        reveal_strlit("four");
        reveal_strlit("fourteen");
        reveal_strlit("fourteenth");
        reveal_strlit("fourth");
        reveal_strlit("nine");
        reveal_strlit("nineteen");
        reveal_strlit("ninth");
        reveal_strlit("nought");
        reveal_strlit("one");
        reveal_strlit("oneth");
        reveal_strlit("second");
        reveal_strlit("seven");
        reveal_strlit("seventeen");
        reveal_strlit("seventeenth");
        reveal_strlit("seventh");
        reveal_strlit("six");
        reveal_strlit("sixteen");
        reveal_strlit("sixteenth");
        reveal_strlit("sixth");
        reveal_strlit("ten");
        reveal_strlit("tenth");
        reveal_strlit("th");
        reveal_strlit("third");
        reveal_strlit("thirteen");
        reveal_strlit("thirteenth");
        reveal_strlit("three");
        reveal_strlit("twelfth");
        reveal_strlit("twelve");
        reveal_strlit("two");
        reveal_strlit("o");
        reveal_strlit("o");
    reveal_strlit("zero");
        assert("nineteen"@ != "eighteen"@) by {
            assert("nineteen"@[0] != "eighteen"@[0]);
        }
        assert("nineteen"@ != "eleventh"@) by {
            assert("nineteen"@[0] != "eleventh"@[0]);
        }
        assert("nineteen"@ != "fourteen"@) by {
            assert("nineteen"@[0] != "fourteen"@[0]);
        }
        assert("nineteen"@ != "thirteen"@) by {
            assert("nineteen"@[0] != "thirteen"@[0]);
        }
        assert(!crate::english::ends_with("nineteen"@, "th"@)) by {
            assert("nineteen"@.subrange(6, 8)[0] == 'e');
        }
        assert(lemma_of("nineteen"@) == "nineteen"@);
        assert(!crate::english::ord_trigger("nineteen"@, "nineteen"@));
    }
    assert(word_action(teen_word(d)) == Action::Teen(d));
    assert(lemma_of(teen_word(d)) == teen_word(d));
    assert(!crate::english::ord_trigger(teen_word(d), teen_word(d)));
    let dd = seq![1u8, d];
    assert(dd[0] == 1);
    assert(!all_zeros(dd));
    assert(!(dd =~= seq![0u8]));
    assert(put_result(Seq::<u8>::empty(), 0, dd) == Some((dd, 0nat)));
    let so = step_spec(teen_word(d), empty_view());
    assert(so.v.digits == dd);
    assert(value_of(so.v.digits) == 10 + d) by {
        reveal_with_fuel(value_of, 4);
        assert(dd.drop_last() =~= seq![1u8]);
        assert(seq![1u8].drop_last() =~= Seq::<u8>::empty());
        assert(dd.last() == d);
        assert(seq![1u8].last() == 1);
        assert(value_of(Seq::<u8>::empty()) == 0);
    }
}

/// Law: for every multiple of ten, its spelling composes from a fresh state
/// to a cardinal of exactly that value.
#[verifier::rlimit(100)]
pub proof fn lemma_tens_roundtrip(t: u8)
    requires
        2 <= t <= 9,
    ensures
        step_spec(tens_word(t), empty_view()).r is Ok,
        value_of(step_spec(tens_word(t), empty_view()).v.digits) == 10 * t,
        step_spec(tens_word(t), empty_view()).v.marker == Marker::Cardinal,
        step_spec(tens_word(t), empty_view()).v.digits == seq![t, 0u8],
        step_spec(tens_word(t), empty_view()).v.zeros == 0,
        !step_spec(tens_word(t), empty_view()).v.frozen,
{
    if t == 2 {
        reveal_strlit("eight");
        reveal_strlit("eighteen");
        reveal_strlit("eighteenth");
        reveal_strlit("eighth");
        reveal_strlit("eleven");
        reveal_strlit("eleventh");
        reveal_strlit("fifteen");
        reveal_strlit("fifteenth");
        reveal_strlit("fifth");
        reveal_strlit("first");
        reveal_strlit("five");
        reveal_strlit("four");
        reveal_strlit("fourteen");
        reveal_strlit("fourteenth");
        reveal_strlit("fourth");
        reveal_strlit("nine");
        reveal_strlit("nineteen");
        reveal_strlit("nineteenth");
        reveal_strlit("ninth");
        reveal_strlit("nought");
        reveal_strlit("one");
        reveal_strlit("oneth");
        reveal_strlit("second");
        reveal_strlit("seven");
        reveal_strlit("seventeen");
        reveal_strlit("seventeenth");
        reveal_strlit("seventh");
        reveal_strlit("six");
        reveal_strlit("sixteen");
        reveal_strlit("sixteenth");
        reveal_strlit("sixth");
        reveal_strlit("ten");
        reveal_strlit("tenth");
        reveal_strlit("th");
        reveal_strlit("third");
        reveal_strlit("thirteen");
        reveal_strlit("thirteenth");
        reveal_strlit("three");
        reveal_strlit("twelfth");
        reveal_strlit("twelve");
        reveal_strlit("twenty");
        reveal_strlit("two");
        reveal_strlit("o");
        reveal_strlit("o");
    reveal_strlit("zero");
        assert("twenty"@ != "eighth"@) by {
            assert("twenty"@[0] != "eighth"@[0]);
        }
        assert("twenty"@ != "eleven"@) by {
            assert("twenty"@[0] != "eleven"@[0]);
        }
        assert("twenty"@ != "fourth"@) by {
            assert("twenty"@[0] != "fourth"@[0]);
        }
        assert("twenty"@ != "nought"@) by {
            assert("twenty"@[0] != "nought"@[0]);
        }
        assert("twenty"@ != "second"@) by {
            assert("twenty"@[0] != "second"@[0]);
        }
        assert("twenty"@ != "twelve"@) by {
            assert("twenty"@[3] != "twelve"@[3]);
        }
        assert(!crate::english::ends_with("twenty"@, "th"@)) by {
            assert("twenty"@.subrange(4, 6)[1] == 'y');
        }
        assert(lemma_of("twenty"@) == "twenty"@);
        assert(!crate::english::ord_trigger("twenty"@, "twenty"@));
    } else if t == 3 {
        reveal_strlit("eight");
        reveal_strlit("eighteen");
        reveal_strlit("eighteenth");
        reveal_strlit("eighth");
        reveal_strlit("eleven");
        reveal_strlit("eleventh");
        reveal_strlit("fifteen");
        reveal_strlit("fifteenth");
        reveal_strlit("fifth");
        reveal_strlit("first");
        reveal_strlit("five");
        reveal_strlit("four");
        reveal_strlit("fourteen");
        reveal_strlit("fourteenth");
        reveal_strlit("fourth");
        reveal_strlit("nine");
        reveal_strlit("nineteen");
        reveal_strlit("nineteenth");
        reveal_strlit("ninth");
        reveal_strlit("nought");
        reveal_strlit("one");
        reveal_strlit("oneth");
        reveal_strlit("second");
        reveal_strlit("seven");
        reveal_strlit("seventeen");
        reveal_strlit("seventeenth");
        reveal_strlit("seventh");
        reveal_strlit("six");
        reveal_strlit("sixteen");
        reveal_strlit("sixteenth");
        reveal_strlit("sixth");
        reveal_strlit("ten");
        reveal_strlit("tenth");
        reveal_strlit("th");
        reveal_strlit("third");
        reveal_strlit("thirteen");
        reveal_strlit("thirteenth");
        reveal_strlit("thirty");
        reveal_strlit("three");
        reveal_strlit("twelfth");
        reveal_strlit("twelve");
        reveal_strlit("twentieth");
        reveal_strlit("twenty");
        reveal_strlit("two");
        reveal_strlit("o");
        reveal_strlit("o");
    reveal_strlit("zero");
        assert("thirty"@ != "eighth"@) by {
            assert("thirty"@[0] != "eighth"@[0]);
        }
        assert("thirty"@ != "eleven"@) by {
            assert("thirty"@[0] != "eleven"@[0]);
        }
        assert("thirty"@ != "fourth"@) by {
            assert("thirty"@[0] != "fourth"@[0]);
        }
        assert("thirty"@ != "nought"@) by {
            assert("thirty"@[0] != "nought"@[0]);
        }
        assert("thirty"@ != "second"@) by {
            assert("thirty"@[0] != "second"@[0]);
        }
        assert("thirty"@ != "twelve"@) by {
            assert("thirty"@[1] != "twelve"@[1]);
        }
        assert("thirty"@ != "twenty"@) by {
            assert("thirty"@[1] != "twenty"@[1]);
        }
        assert(!crate::english::ends_with("thirty"@, "th"@)) by {
            assert("thirty"@.subrange(4, 6)[1] == 'y');
        }
        assert(lemma_of("thirty"@) == "thirty"@);
        assert(!crate::english::ord_trigger("thirty"@, "thirty"@));
    } else if t == 4 {
        reveal_strlit("eight");
        reveal_strlit("eighteen");
        reveal_strlit("eighteenth");
        reveal_strlit("eighth");
        reveal_strlit("eleven");
        reveal_strlit("eleventh");
        reveal_strlit("fifteen");
        reveal_strlit("fifteenth");
        reveal_strlit("fifth");
        reveal_strlit("first");
        reveal_strlit("five");
        reveal_strlit("forty");
        reveal_strlit("four");
        reveal_strlit("fourteen");
        reveal_strlit("fourteenth");
        reveal_strlit("fourth");
        reveal_strlit("nine");
        reveal_strlit("nineteen");
        reveal_strlit("nineteenth");
        reveal_strlit("ninth");
        reveal_strlit("nought");
        reveal_strlit("one");
        reveal_strlit("oneth");
        reveal_strlit("second");
        reveal_strlit("seven");
        reveal_strlit("seventeen");
        reveal_strlit("seventeenth");
        reveal_strlit("seventh");
        reveal_strlit("six");
        reveal_strlit("sixteen");
        reveal_strlit("sixteenth");
        reveal_strlit("sixth");
        reveal_strlit("ten");
        reveal_strlit("tenth");
        reveal_strlit("th");
        reveal_strlit("third");
        reveal_strlit("thirteen");
        reveal_strlit("thirteenth");
        reveal_strlit("thirtieth");
        reveal_strlit("thirty");
        reveal_strlit("three");
        reveal_strlit("twelfth");
        reveal_strlit("twelve");
        reveal_strlit("twentieth");
        reveal_strlit("twenty");
        reveal_strlit("two");
        reveal_strlit("o");
        reveal_strlit("o");
    reveal_strlit("zero");
        assert("forty"@ != "eight"@) by {
            assert("forty"@[0] != "eight"@[0]);
        }
        assert("forty"@ != "fifth"@) by {
            assert("forty"@[1] != "fifth"@[1]);
        }
        assert("forty"@ != "first"@) by {
            assert("forty"@[1] != "first"@[1]);
        }
        assert("forty"@ != "ninth"@) by {
            assert("forty"@[0] != "ninth"@[0]);
        }
        assert("forty"@ != "oneth"@) by {
            assert("forty"@[0] != "oneth"@[0]);
        }
        assert("forty"@ != "seven"@) by {
            assert("forty"@[0] != "seven"@[0]);
        }
        assert("forty"@ != "sixth"@) by {
            assert("forty"@[0] != "sixth"@[0]);
        }
        assert("forty"@ != "tenth"@) by {
            assert("forty"@[0] != "tenth"@[0]);
        }
        assert("forty"@ != "third"@) by {
            assert("forty"@[0] != "third"@[0]);
        }
        assert("forty"@ != "three"@) by {
            assert("forty"@[0] != "three"@[0]);
        }
        assert(!crate::english::ends_with("forty"@, "th"@)) by {
            assert("forty"@.subrange(3, 5)[1] == 'y');
        }
        assert(lemma_of("forty"@) == "forty"@);
        assert(!crate::english::ord_trigger("forty"@, "forty"@));
    } else if t == 5 {
        reveal_strlit("eight");
        reveal_strlit("eighteen");
        reveal_strlit("eighteenth");
        reveal_strlit("eighth");
        reveal_strlit("eleven");
        reveal_strlit("eleventh");
        reveal_strlit("fifteen");
        reveal_strlit("fifteenth");
        reveal_strlit("fifth");
        reveal_strlit("fifty");
        reveal_strlit("first");
        reveal_strlit("five");
        reveal_strlit("fortieth");
        reveal_strlit("forty");
        reveal_strlit("four");
        reveal_strlit("fourteen");
        reveal_strlit("fourteenth");
        reveal_strlit("fourth");
        reveal_strlit("fourtieth");
        reveal_strlit("fourty");
        reveal_strlit("nine");
        reveal_strlit("nineteen");
        reveal_strlit("nineteenth");
        reveal_strlit("ninth");
        reveal_strlit("nought");
        reveal_strlit("one");
        reveal_strlit("oneth");
        reveal_strlit("second");
        reveal_strlit("seven");
        reveal_strlit("seventeen");
        reveal_strlit("seventeenth");
        reveal_strlit("seventh");
        reveal_strlit("six");
        reveal_strlit("sixteen");
        reveal_strlit("sixteenth");
        reveal_strlit("sixth");
        reveal_strlit("ten");
        reveal_strlit("tenth");
        reveal_strlit("th");
        reveal_strlit("third");
        reveal_strlit("thirteen");
        reveal_strlit("thirteenth");
        reveal_strlit("thirtieth");
        reveal_strlit("thirty");
        reveal_strlit("three");
        reveal_strlit("twelfth");
        reveal_strlit("twelve");
        reveal_strlit("twentieth");
        reveal_strlit("twenty");
        reveal_strlit("two");
        reveal_strlit("o");
        reveal_strlit("o");
    reveal_strlit("zero");
        assert("fifty"@ != "eight"@) by {
            assert("fifty"@[0] != "eight"@[0]);
        }
        assert("fifty"@ != "fifth"@) by {
            assert("fifty"@[4] != "fifth"@[4]);
        }
        assert("fifty"@ != "first"@) by {
            assert("fifty"@[2] != "first"@[2]);
        }
        assert("fifty"@ != "forty"@) by {
            assert("fifty"@[1] != "forty"@[1]);
        }
        assert("fifty"@ != "ninth"@) by {
            assert("fifty"@[0] != "ninth"@[0]);
        }
        assert("fifty"@ != "oneth"@) by {
            assert("fifty"@[0] != "oneth"@[0]);
        }
        assert("fifty"@ != "seven"@) by {
            assert("fifty"@[0] != "seven"@[0]);
        }
        assert("fifty"@ != "sixth"@) by {
            assert("fifty"@[0] != "sixth"@[0]);
        }
        assert("fifty"@ != "tenth"@) by {
            assert("fifty"@[0] != "tenth"@[0]);
        }
        assert("fifty"@ != "third"@) by {
            assert("fifty"@[0] != "third"@[0]);
        }
        assert("fifty"@ != "three"@) by {
            assert("fifty"@[0] != "three"@[0]);
        }
        assert(!crate::english::ends_with("fifty"@, "th"@)) by {
            assert("fifty"@.subrange(3, 5)[1] == 'y');
        }
        assert(lemma_of("fifty"@) == "fifty"@);
        assert(!crate::english::ord_trigger("fifty"@, "fifty"@));
    } else if t == 6 {
        reveal_strlit("eight");
        reveal_strlit("eighteen");
        reveal_strlit("eighteenth");
        reveal_strlit("eighth");
        reveal_strlit("eleven");
        reveal_strlit("eleventh");
        reveal_strlit("fifteen");
        reveal_strlit("fifteenth");
        reveal_strlit("fifth");
        reveal_strlit("fiftieth");
        reveal_strlit("fifty");
        reveal_strlit("first");
        reveal_strlit("five");
        reveal_strlit("fortieth");
        reveal_strlit("forty");
        reveal_strlit("four");
        reveal_strlit("fourteen");
        reveal_strlit("fourteenth");
        reveal_strlit("fourth");
        reveal_strlit("fourtieth");
        reveal_strlit("fourty");
        reveal_strlit("nine");
        reveal_strlit("nineteen");
        reveal_strlit("nineteenth");
        reveal_strlit("ninth");
        reveal_strlit("nought");
        reveal_strlit("one");
        reveal_strlit("oneth");
        reveal_strlit("second");
        reveal_strlit("seven");
        reveal_strlit("seventeen");
        reveal_strlit("seventeenth");
        reveal_strlit("seventh");
        reveal_strlit("six");
        reveal_strlit("sixteen");
        reveal_strlit("sixteenth");
        reveal_strlit("sixth");
        reveal_strlit("sixty");
        reveal_strlit("ten");
        reveal_strlit("tenth");
        reveal_strlit("th");
        reveal_strlit("third");
        reveal_strlit("thirteen");
        reveal_strlit("thirteenth");
        reveal_strlit("thirtieth");
        reveal_strlit("thirty");
        reveal_strlit("three");
        reveal_strlit("twelfth");
        reveal_strlit("twelve");
        reveal_strlit("twentieth");
        reveal_strlit("twenty");
        reveal_strlit("two");
        reveal_strlit("o");
        reveal_strlit("o");
    reveal_strlit("zero");
        assert("sixty"@ != "eight"@) by {
            assert("sixty"@[0] != "eight"@[0]);
        }
        assert("sixty"@ != "fifth"@) by {
            assert("sixty"@[0] != "fifth"@[0]);
        }
        assert("sixty"@ != "fifty"@) by {
            assert("sixty"@[0] != "fifty"@[0]);
        }
        assert("sixty"@ != "first"@) by {
            assert("sixty"@[0] != "first"@[0]);
        }
        assert("sixty"@ != "forty"@) by {
            assert("sixty"@[0] != "forty"@[0]);
        }
        assert("sixty"@ != "ninth"@) by {
            assert("sixty"@[0] != "ninth"@[0]);
        }
        assert("sixty"@ != "oneth"@) by {
            assert("sixty"@[0] != "oneth"@[0]);
        }
        assert("sixty"@ != "seven"@) by {
            assert("sixty"@[1] != "seven"@[1]);
        }
        assert("sixty"@ != "sixth"@) by {
            assert("sixty"@[4] != "sixth"@[4]);
        }
        assert("sixty"@ != "tenth"@) by {
            assert("sixty"@[0] != "tenth"@[0]);
        }
        assert("sixty"@ != "third"@) by {
            assert("sixty"@[0] != "third"@[0]);
        }
        assert("sixty"@ != "three"@) by {
            assert("sixty"@[0] != "three"@[0]);
        }
        assert(!crate::english::ends_with("sixty"@, "th"@)) by {
            assert("sixty"@.subrange(3, 5)[1] == 'y');
        }
        assert(lemma_of("sixty"@) == "sixty"@);
        assert(!crate::english::ord_trigger("sixty"@, "sixty"@));
    } else if t == 7 {
        reveal_strlit("eight");
        reveal_strlit("eighteen");
        reveal_strlit("eighteenth");
        reveal_strlit("eighth");
        reveal_strlit("eleven");
        reveal_strlit("eleventh");
        reveal_strlit("fifteen");
        reveal_strlit("fifteenth");
        reveal_strlit("fifth");
        reveal_strlit("fiftieth");
        reveal_strlit("fifty");
        reveal_strlit("first");
        reveal_strlit("five");
        reveal_strlit("fortieth");
        reveal_strlit("forty");
        reveal_strlit("four");
        reveal_strlit("fourteen");
        reveal_strlit("fourteenth");
        reveal_strlit("fourth");
        reveal_strlit("fourtieth");
        reveal_strlit("fourty");
        reveal_strlit("nine");
        reveal_strlit("nineteen");
        reveal_strlit("nineteenth");
        reveal_strlit("ninth");
        reveal_strlit("nought");
        reveal_strlit("one");
        reveal_strlit("oneth");
        reveal_strlit("second");
        reveal_strlit("seven");
        reveal_strlit("seventeen");
        reveal_strlit("seventeenth");
        reveal_strlit("seventh");
        reveal_strlit("seventy");
        reveal_strlit("six");
        reveal_strlit("sixteen");
        reveal_strlit("sixteenth");
        reveal_strlit("sixth");
        reveal_strlit("sixtieth");
        reveal_strlit("sixty");
        reveal_strlit("ten");
        reveal_strlit("tenth");
        reveal_strlit("th");
        reveal_strlit("third");
        reveal_strlit("thirteen");
        reveal_strlit("thirteenth");
        reveal_strlit("thirtieth");
        reveal_strlit("thirty");
        reveal_strlit("three");
        reveal_strlit("twelfth");
        reveal_strlit("twelve");
        reveal_strlit("twentieth");
        reveal_strlit("twenty");
        reveal_strlit("two");
        reveal_strlit("o");
        reveal_strlit("o");
    reveal_strlit("zero");
        assert("seventy"@ != "fifteen"@) by {
            assert("seventy"@[0] != "fifteen"@[0]);
        }
        assert("seventy"@ != "seventh"@) by {
            assert("seventy"@[6] != "seventh"@[6]);
        }
        assert("seventy"@ != "sixteen"@) by {
            assert("seventy"@[1] != "sixteen"@[1]);
        }
        assert("seventy"@ != "twelfth"@) by {
            assert("seventy"@[0] != "twelfth"@[0]);
        }
        assert(!crate::english::ends_with("seventy"@, "th"@)) by {
            assert("seventy"@.subrange(5, 7)[1] == 'y');
        }
        assert(lemma_of("seventy"@) == "seventy"@);
        assert(!crate::english::ord_trigger("seventy"@, "seventy"@));
    } else if t == 8 {
        reveal_strlit("eight");
        reveal_strlit("eighteen");
        reveal_strlit("eighteenth");
        reveal_strlit("eighth");
        reveal_strlit("eighty");
        reveal_strlit("eleven");
        reveal_strlit("eleventh");
        reveal_strlit("fifteen");
        reveal_strlit("fifteenth");
        reveal_strlit("fifth");
        reveal_strlit("fiftieth");
        reveal_strlit("fifty");
        reveal_strlit("first");
        reveal_strlit("five");
        reveal_strlit("fortieth");
        reveal_strlit("forty");
        reveal_strlit("four");
        reveal_strlit("fourteen");
        reveal_strlit("fourteenth");
        reveal_strlit("fourth");
        reveal_strlit("fourtieth");
        reveal_strlit("fourty");
        reveal_strlit("nine");
        reveal_strlit("nineteen");
        reveal_strlit("nineteenth");
        reveal_strlit("ninth");
        reveal_strlit("nought");
        reveal_strlit("one");
        reveal_strlit("oneth");
        reveal_strlit("second");
        reveal_strlit("seven");
        reveal_strlit("seventeen");
        reveal_strlit("seventeenth");
        reveal_strlit("seventh");
        reveal_strlit("seventieth");
        reveal_strlit("seventy");
        reveal_strlit("six");
        reveal_strlit("sixteen");
        reveal_strlit("sixteenth");
        reveal_strlit("sixth");
        reveal_strlit("sixtieth");
        reveal_strlit("sixty");
        reveal_strlit("ten");
        reveal_strlit("tenth");
        reveal_strlit("th");
        reveal_strlit("third");
        reveal_strlit("thirteen");
        reveal_strlit("thirteenth");
        reveal_strlit("thirtieth");
        reveal_strlit("thirty");
        reveal_strlit("three");
        reveal_strlit("twelfth");
        reveal_strlit("twelve");
        reveal_strlit("twentieth");
        reveal_strlit("twenty");
        reveal_strlit("two");
        reveal_strlit("o");
        reveal_strlit("o");
    reveal_strlit("zero");
        assert("eighty"@ != "eighth"@) by {
            assert("eighty"@[5] != "eighth"@[5]);
        }
        assert("eighty"@ != "eleven"@) by {
            assert("eighty"@[1] != "eleven"@[1]);
        }
        assert("eighty"@ != "fourth"@) by {
            assert("eighty"@[0] != "fourth"@[0]);
        }
        assert("eighty"@ != "fourty"@) by {
            assert("eighty"@[0] != "fourty"@[0]);
        }
        assert("eighty"@ != "nought"@) by {
            assert("eighty"@[0] != "nought"@[0]);
        }
        assert("eighty"@ != "second"@) by {
            assert("eighty"@[0] != "second"@[0]);
        }
        assert("eighty"@ != "thirty"@) by {
            assert("eighty"@[0] != "thirty"@[0]);
        }
        assert("eighty"@ != "twelve"@) by {
            assert("eighty"@[0] != "twelve"@[0]);
        }
        assert("eighty"@ != "twenty"@) by {
            assert("eighty"@[0] != "twenty"@[0]);
        }
        assert(!crate::english::ends_with("eighty"@, "th"@)) by {
            assert("eighty"@.subrange(4, 6)[1] == 'y');
        }
        assert(lemma_of("eighty"@) == "eighty"@);
        assert(!crate::english::ord_trigger("eighty"@, "eighty"@));
    } else {
        reveal_strlit("eight");
        reveal_strlit("eighteen");
        reveal_strlit("eighteenth");
        reveal_strlit("eighth");
        reveal_strlit("eightieth");
        reveal_strlit("eighty");
        reveal_strlit("eleven");
        reveal_strlit("eleventh");
        reveal_strlit("fifteen");
        reveal_strlit("fifteenth");
        reveal_strlit("fifth");
        reveal_strlit("fiftieth");
        reveal_strlit("fifty");
        reveal_strlit("first");
        reveal_strlit("five");
        reveal_strlit("fortieth");
        reveal_strlit("forty");
        reveal_strlit("four");
        reveal_strlit("fourteen");
        reveal_strlit("fourteenth");
        reveal_strlit("fourth");
        reveal_strlit("fourtieth");
        reveal_strlit("fourty");
        reveal_strlit("nine");
        reveal_strlit("nineteen");
        reveal_strlit("nineteenth");
        reveal_strlit("ninety");
        reveal_strlit("ninth");
        reveal_strlit("nought");
        reveal_strlit("one");
        reveal_strlit("oneth");
        reveal_strlit("second");
        reveal_strlit("seven");
        reveal_strlit("seventeen");
        reveal_strlit("seventeenth");
        reveal_strlit("seventh");
        reveal_strlit("seventieth");
        reveal_strlit("seventy");
        reveal_strlit("six");
        reveal_strlit("sixteen");
        reveal_strlit("sixteenth");
        reveal_strlit("sixth");
        reveal_strlit("sixtieth");
        reveal_strlit("sixty");
        reveal_strlit("ten");
        reveal_strlit("tenth");
        reveal_strlit("th");
        reveal_strlit("third");
        reveal_strlit("thirteen");
        reveal_strlit("thirteenth");
        reveal_strlit("thirtieth");
        reveal_strlit("thirty");
        reveal_strlit("three");
        reveal_strlit("twelfth");
        reveal_strlit("twelve");
        reveal_strlit("twentieth");
        reveal_strlit("twenty");
        reveal_strlit("two");
        reveal_strlit("o");
        reveal_strlit("o");
    reveal_strlit("zero");
        assert("ninety"@ != "eighth"@) by {
            assert("ninety"@[0] != "eighth"@[0]);
        }
        assert("ninety"@ != "eighty"@) by {
            assert("ninety"@[0] != "eighty"@[0]);
        }
        assert("ninety"@ != "eleven"@) by {
            assert("ninety"@[0] != "eleven"@[0]);
        }
        assert("ninety"@ != "fourth"@) by {
            assert("ninety"@[0] != "fourth"@[0]);
        }
        assert("ninety"@ != "fourty"@) by {
            assert("ninety"@[0] != "fourty"@[0]);
        }
        assert("ninety"@ != "nought"@) by {
            assert("ninety"@[1] != "nought"@[1]);
        }
        assert("ninety"@ != "second"@) by {
            assert("ninety"@[0] != "second"@[0]);
        }
        assert("ninety"@ != "thirty"@) by {
            assert("ninety"@[0] != "thirty"@[0]);
        }
        assert("ninety"@ != "twelve"@) by {
            assert("ninety"@[0] != "twelve"@[0]);
        }
        assert("ninety"@ != "twenty"@) by {
            assert("ninety"@[0] != "twenty"@[0]);
        }
        assert(!crate::english::ends_with("ninety"@, "th"@)) by {
            assert("ninety"@.subrange(4, 6)[1] == 'y');
        }
        assert(lemma_of("ninety"@) == "ninety"@);
        assert(!crate::english::ord_trigger("ninety"@, "ninety"@));
    }
    assert(word_action(tens_word(t)) == Action::Ten(t));
    assert(lemma_of(tens_word(t)) == tens_word(t));
    assert(!crate::english::ord_trigger(tens_word(t), tens_word(t)));
    let dd = seq![t, 0u8];
    assert(dd[0] == t);
    assert(!all_zeros(dd));
    assert(!(dd =~= seq![0u8]));
    assert(put_result(Seq::<u8>::empty(), 0, dd) == Some((dd, 0nat)));
    let so = step_spec(tens_word(t), empty_view());
    assert(so.v.digits == dd);
    assert(value_of(so.v.digits) == 10 * t) by {
        reveal_with_fuel(value_of, 4);
        assert(dd.drop_last() =~= seq![t]);
        assert(seq![t].drop_last() =~= Seq::<u8>::empty());
        assert(dd.last() == 0);
        assert(seq![t].last() == t);
        assert(value_of(Seq::<u8>::empty()) == 0);
    }
}

/// Law: a tens word followed by a unit word composes to exactly
/// `10 * t + d`: the grammar sums a ten and a unit within one group.
#[verifier::rlimit(100)]
pub proof fn lemma_ten_unit_roundtrip(t: u8, d: u8)
    requires
        2 <= t <= 9,
        1 <= d <= 9,
    ensures
        ({
            let first_step = step_spec(tens_word(t), empty_view());
            let second_step = step_spec(unit_word(d), first_step.v);
            first_step.r is Ok && second_step.r is Ok && value_of(second_step.v.digits) == 10 * t
                + d && second_step.v.marker == Marker::Cardinal
        }),
{
    if d == 1 {
        reveal_strlit("first");
        reveal_strlit("nought");
        reveal_strlit("one");
        reveal_strlit("second");
        reveal_strlit("th");
        reveal_strlit("third");
        reveal_strlit("o");
        reveal_strlit("o");
    reveal_strlit("zero");
        assert(!crate::english::ends_with("one"@, "th"@)) by {
            assert("one"@.subrange(1, 3)[0] == 'n');
        }
        assert(lemma_of("one"@) == "one"@);
        assert(!crate::english::ord_trigger("one"@, "one"@));
    } else if d == 2 {
        reveal_strlit("first");
        reveal_strlit("nought");
        reveal_strlit("one");
        reveal_strlit("oneth");
        reveal_strlit("second");
        reveal_strlit("th");
        reveal_strlit("third");
        reveal_strlit("two");
        reveal_strlit("o");
        reveal_strlit("o");
    reveal_strlit("zero");
        assert("two"@ != "one"@) by {
            assert("two"@[0] != "one"@[0]);
        }
        assert(!crate::english::ends_with("two"@, "th"@)) by {
            assert("two"@.subrange(1, 3)[0] == 'w');
        }
        assert(lemma_of("two"@) == "two"@);
        assert(!crate::english::ord_trigger("two"@, "two"@));
    } else if d == 3 {
        reveal_strlit("first");
        reveal_strlit("nought");
        reveal_strlit("one");
        reveal_strlit("oneth");
        reveal_strlit("second");
        reveal_strlit("th");
        reveal_strlit("third");
        reveal_strlit("three");
        reveal_strlit("two");
        reveal_strlit("o");
        reveal_strlit("o");
    reveal_strlit("zero");
        assert("three"@ != "first"@) by {
            assert("three"@[0] != "first"@[0]);
        }
        assert("three"@ != "oneth"@) by {
            assert("three"@[0] != "oneth"@[0]);
        }
        assert("three"@ != "third"@) by {
            assert("three"@[2] != "third"@[2]);
        }
        assert(!crate::english::ends_with("three"@, "th"@)) by {
            assert("three"@.subrange(3, 5)[0] == 'e');
        }
        assert(lemma_of("three"@) == "three"@);
        assert(!crate::english::ord_trigger("three"@, "three"@));
    } else if d == 4 {
        reveal_strlit("first");
        reveal_strlit("four");
        reveal_strlit("nought");
        reveal_strlit("one");
        reveal_strlit("oneth");
        reveal_strlit("second");
        reveal_strlit("th");
        reveal_strlit("third");
        reveal_strlit("three");
        reveal_strlit("two");
        reveal_strlit("o");
        reveal_strlit("o");
    reveal_strlit("zero");
        assert("four"@ != "zero"@) by {
            assert("four"@[0] != "zero"@[0]);
        }
        assert(!crate::english::ends_with("four"@, "th"@)) by {
            assert("four"@.subrange(2, 4)[0] == 'u');
        }
        assert(lemma_of("four"@) == "four"@);
        assert(!crate::english::ord_trigger("four"@, "four"@));
    } else if d == 5 {
        reveal_strlit("first");
        reveal_strlit("five");
        reveal_strlit("four");
        reveal_strlit("fourth");
        reveal_strlit("nought");
        reveal_strlit("one");
        reveal_strlit("oneth");
        reveal_strlit("second");
        reveal_strlit("th");
        reveal_strlit("third");
        reveal_strlit("three");
        reveal_strlit("two");
        reveal_strlit("o");
        reveal_strlit("o");
    reveal_strlit("zero");
        assert("five"@ != "four"@) by {
            assert("five"@[1] != "four"@[1]);
        }
        assert("five"@ != "zero"@) by {
            assert("five"@[0] != "zero"@[0]);
        }
        assert(!crate::english::ends_with("five"@, "th"@)) by {
            assert("five"@.subrange(2, 4)[0] == 'v');
        }
        assert(lemma_of("five"@) == "five"@);
        assert(!crate::english::ord_trigger("five"@, "five"@));
    } else if d == 6 {
        reveal_strlit("fifth");
        reveal_strlit("first");
        reveal_strlit("five");
        reveal_strlit("four");
        reveal_strlit("fourth");
        reveal_strlit("nought");
        reveal_strlit("one");
        reveal_strlit("oneth");
        reveal_strlit("second");
        reveal_strlit("six");
        reveal_strlit("th");
        reveal_strlit("third");
        reveal_strlit("three");
        reveal_strlit("two");
        reveal_strlit("o");
        reveal_strlit("o");
    reveal_strlit("zero");
        assert("six"@ != "one"@) by {
            assert("six"@[0] != "one"@[0]);
        }
        assert("six"@ != "two"@) by {
            assert("six"@[0] != "two"@[0]);
        }
        assert(!crate::english::ends_with("six"@, "th"@)) by {
            assert("six"@.subrange(1, 3)[0] == 'i');
        }
        assert(lemma_of("six"@) == "six"@);
        assert(!crate::english::ord_trigger("six"@, "six"@));
    } else if d == 7 {
        reveal_strlit("fifth");
        reveal_strlit("first");
        reveal_strlit("five");
        reveal_strlit("four");
        reveal_strlit("fourth");
        reveal_strlit("nought");
        reveal_strlit("one");
        reveal_strlit("oneth");
        reveal_strlit("second");
        reveal_strlit("seven");
        reveal_strlit("six");
        reveal_strlit("sixth");
        reveal_strlit("th");
        reveal_strlit("third");
        reveal_strlit("three");
        reveal_strlit("two");
        reveal_strlit("o");
        reveal_strlit("o");
    reveal_strlit("zero");
        assert("seven"@ != "fifth"@) by {
            assert("seven"@[0] != "fifth"@[0]);
        }
        assert("seven"@ != "first"@) by {
            assert("seven"@[0] != "first"@[0]);
        }
        assert("seven"@ != "oneth"@) by {
            assert("seven"@[0] != "oneth"@[0]);
        }
        assert("seven"@ != "sixth"@) by {
            assert("seven"@[1] != "sixth"@[1]);
        }
        assert("seven"@ != "third"@) by {
            assert("seven"@[0] != "third"@[0]);
        }
        assert("seven"@ != "three"@) by {
            assert("seven"@[0] != "three"@[0]);
        }
        assert(!crate::english::ends_with("seven"@, "th"@)) by {
            assert("seven"@.subrange(3, 5)[0] == 'e');
        }
        assert(lemma_of("seven"@) == "seven"@);
        assert(!crate::english::ord_trigger("seven"@, "seven"@));
    } else if d == 8 {
        reveal_strlit("eight");
        reveal_strlit("fifth");
        reveal_strlit("first");
        reveal_strlit("five");
        reveal_strlit("four");
        reveal_strlit("fourth");
        reveal_strlit("nought");
        reveal_strlit("one");
        reveal_strlit("oneth");
        reveal_strlit("second");
        reveal_strlit("seven");
        reveal_strlit("seventh");
        reveal_strlit("six");
        reveal_strlit("sixth");
        reveal_strlit("th");
        reveal_strlit("third");
        reveal_strlit("three");
        reveal_strlit("two");
        reveal_strlit("o");
        reveal_strlit("o");
    reveal_strlit("zero");
        assert("eight"@ != "fifth"@) by {
            assert("eight"@[0] != "fifth"@[0]);
        }
        assert("eight"@ != "first"@) by {
            assert("eight"@[0] != "first"@[0]);
        }
        assert("eight"@ != "oneth"@) by {
            assert("eight"@[0] != "oneth"@[0]);
        }
        assert("eight"@ != "seven"@) by {
            assert("eight"@[0] != "seven"@[0]);
        }
        assert("eight"@ != "sixth"@) by {
            assert("eight"@[0] != "sixth"@[0]);
        }
        assert("eight"@ != "third"@) by {
            assert("eight"@[0] != "third"@[0]);
        }
        assert("eight"@ != "three"@) by {
            assert("eight"@[0] != "three"@[0]);
        }
        assert(!crate::english::ends_with("eight"@, "th"@)) by {
            assert("eight"@.subrange(3, 5)[0] == 'h');
        }
        assert(lemma_of("eight"@) == "eight"@);
        assert(!crate::english::ord_trigger("eight"@, "eight"@));
    } else {
        reveal_strlit("eight");
        reveal_strlit("eighth");
        reveal_strlit("fifth");
        reveal_strlit("first");
        reveal_strlit("five");
        reveal_strlit("four");
        reveal_strlit("fourth");
        reveal_strlit("nine");
        reveal_strlit("nought");
        reveal_strlit("one");
        reveal_strlit("oneth");
        reveal_strlit("second");
        reveal_strlit("seven");
        reveal_strlit("seventh");
        reveal_strlit("six");
        reveal_strlit("sixth");
        reveal_strlit("th");
        reveal_strlit("third");
        reveal_strlit("three");
        reveal_strlit("two");
        reveal_strlit("o");
        reveal_strlit("o");
    reveal_strlit("zero");
        assert("nine"@ != "five"@) by {
            assert("nine"@[0] != "five"@[0]);
        }
        assert("nine"@ != "four"@) by {
            assert("nine"@[0] != "four"@[0]);
        }
        assert("nine"@ != "zero"@) by {
            assert("nine"@[0] != "zero"@[0]);
        }
        assert(!crate::english::ends_with("nine"@, "th"@)) by {
            assert("nine"@.subrange(2, 4)[0] == 'n');
        }
        assert(lemma_of("nine"@) == "nine"@);
        assert(!crate::english::ord_trigger("nine"@, "nine"@));
    }
    assert(word_action(unit_word(d)) == Action::Unit(d));
    assert(lemma_of(unit_word(d)) == unit_word(d));
    assert(!crate::english::ord_trigger(unit_word(d), unit_word(d)));
    lemma_tens_roundtrip(t);
    let first_step = step_spec(tens_word(t), empty_view());
    let tens = seq![t, 0u8];
    assert(first_step.v.digits == tens);
    assert(!first_step.v.ends_in_ten());
    assert(lemma_of(unit_word(d)) == unit_word(d));
    assert(word_action(unit_word(d)) == Action::Unit(d));
    let dd = seq![d];
    assert(dd[0] == d);
    assert(!all_zeros(dd));
    assert(!(dd =~= seq![0u8]));
    assert(all_zeros(tens.subrange(1, 2))) by {
        assert(tens.subrange(1, 2) =~= seq![0u8]);
    }
    assert(put_result(tens, 0, dd) == Some((tens.subrange(0, 1) + dd, 0nat)));
    let second_step = step_spec(unit_word(d), first_step.v);
    let two = seq![t, d];
    assert(second_step.v.digits == tens.subrange(0, 1) + dd);
    assert(second_step.v.digits == two) by {
        assert(tens.subrange(0, 1) + dd =~= two);
    }
    assert(value_of(two) == 10 * t + d) by {
        reveal_with_fuel(value_of, 4);
        assert(two.drop_last() =~= seq![t]);
        assert(seq![t].drop_last() =~= Seq::<u8>::empty());
        assert(two.last() == d);
        assert(seq![t].last() == t);
        assert(value_of(Seq::<u8>::empty()) == 0);
    }
}

/// Law: a token made of digit characters (the output of a previous
/// rewrite) is never taken for a number word: applying it to any state
/// fails and leaves the state unchanged.
#[verifier::rlimit(100)]
pub proof fn lemma_digit_token_is_no_number_word(w: Seq<char>, v: crate::digits::DsView)
    requires
        w.len() > 0,
        forall|i: int| 0 <= i < w.len() ==> '0' <= #[trigger] w[i] && w[i] <= '9',
    ensures
        crate::english::apply_spec(w, v).r is Err,
        crate::english::apply_spec(w, v).v == v,
{
    reveal_strlit("and");
    reveal_strlit("billion");
    reveal_strlit("billionth");
    reveal_strlit("eight");
    reveal_strlit("eighteen");
    reveal_strlit("eighteenth");
    reveal_strlit("eighth");
    reveal_strlit("eightieth");
    reveal_strlit("eighty");
    reveal_strlit("eleven");
    reveal_strlit("eleventh");
    reveal_strlit("fifteen");
    reveal_strlit("fifteenth");
    reveal_strlit("fifth");
    reveal_strlit("fiftieth");
    reveal_strlit("fifty");
    reveal_strlit("first");
    reveal_strlit("five");
    reveal_strlit("fortieth");
    reveal_strlit("forty");
    reveal_strlit("four");
    reveal_strlit("fourteen");
    reveal_strlit("fourteenth");
    reveal_strlit("fourth");
    reveal_strlit("fourtieth");
    reveal_strlit("fourty");
    reveal_strlit("hundred");
    reveal_strlit("hundredth");
    reveal_strlit("million");
    reveal_strlit("millionth");
    reveal_strlit("nine");
    reveal_strlit("nineteen");
    reveal_strlit("nineteenth");
    reveal_strlit("ninetieth");
    reveal_strlit("ninety");
    reveal_strlit("ninth");
    reveal_strlit("nought");
    reveal_strlit("one");
    reveal_strlit("oneth");
    reveal_strlit("second");
    reveal_strlit("seven");
    reveal_strlit("seventeen");
    reveal_strlit("seventeenth");
    reveal_strlit("seventh");
    reveal_strlit("seventieth");
    reveal_strlit("seventy");
    reveal_strlit("six");
    reveal_strlit("sixteen");
    reveal_strlit("sixteenth");
    reveal_strlit("sixth");
    reveal_strlit("sixtieth");
    reveal_strlit("sixty");
    reveal_strlit("ten");
    reveal_strlit("tenth");
    reveal_strlit("third");
    reveal_strlit("thirteen");
    reveal_strlit("thirteenth");
    reveal_strlit("thirtieth");
    reveal_strlit("thirty");
    reveal_strlit("thousand");
    reveal_strlit("thousandth");
    reveal_strlit("three");
    reveal_strlit("twelfth");
    reveal_strlit("twelve");
    reveal_strlit("twentieth");
    reveal_strlit("twenty");
    reveal_strlit("two");
    reveal_strlit("o");
    reveal_strlit("zero");
    assert(!crate::english::has_hyphen(w)) by {
        assert forall|i: int| 0 <= i < w.len() implies w[i] != '-' by {
            assert('0' <= w[i] && w[i] <= '9');
        }
    }
    assert(w.last() != 's');
    assert(lemma_of(w) == w);
    assert(w != "zero"@) by {
        assert('0' <= w[0] && w[0] <= '9');
    }
    assert(w != "o"@) by {
        assert('0' <= w[0] && w[0] <= '9');
    }
    assert(w != "nought"@) by {
        assert('0' <= w[0] && w[0] <= '9');
    }
    assert(w != "one"@) by {
        assert('0' <= w[0] && w[0] <= '9');
    }
    assert(w != "first"@) by {
        assert('0' <= w[0] && w[0] <= '9');
    }
    assert(w != "oneth"@) by {
        assert('0' <= w[0] && w[0] <= '9');
    }
    assert(w != "two"@) by {
        assert('0' <= w[0] && w[0] <= '9');
    }
    assert(w != "second"@) by {
        assert('0' <= w[0] && w[0] <= '9');
    }
    assert(w != "three"@) by {
        assert('0' <= w[0] && w[0] <= '9');
    }
    assert(w != "third"@) by {
        assert('0' <= w[0] && w[0] <= '9');
    }
    assert(w != "four"@) by {
        assert('0' <= w[0] && w[0] <= '9');
    }
    assert(w != "fourth"@) by {
        assert('0' <= w[0] && w[0] <= '9');
    }
    assert(w != "five"@) by {
        assert('0' <= w[0] && w[0] <= '9');
    }
    assert(w != "fifth"@) by {
        assert('0' <= w[0] && w[0] <= '9');
    }
    assert(w != "six"@) by {
        assert('0' <= w[0] && w[0] <= '9');
    }
    assert(w != "sixth"@) by {
        assert('0' <= w[0] && w[0] <= '9');
    }
    assert(w != "seven"@) by {
        assert('0' <= w[0] && w[0] <= '9');
    }
    assert(w != "seventh"@) by {
        assert('0' <= w[0] && w[0] <= '9');
    }
    assert(w != "eight"@) by {
        assert('0' <= w[0] && w[0] <= '9');
    }
    assert(w != "eighth"@) by {
        assert('0' <= w[0] && w[0] <= '9');
    }
    assert(w != "nine"@) by {
        assert('0' <= w[0] && w[0] <= '9');
    }
    assert(w != "ninth"@) by {
        assert('0' <= w[0] && w[0] <= '9');
    }
    assert(w != "ten"@) by {
        assert('0' <= w[0] && w[0] <= '9');
    }
    assert(w != "tenth"@) by {
        assert('0' <= w[0] && w[0] <= '9');
    }
    assert(w != "eleven"@) by {
        assert('0' <= w[0] && w[0] <= '9');
    }
    assert(w != "eleventh"@) by {
        assert('0' <= w[0] && w[0] <= '9');
    }
    assert(w != "twelve"@) by {
        assert('0' <= w[0] && w[0] <= '9');
    }
    assert(w != "twelfth"@) by {
        assert('0' <= w[0] && w[0] <= '9');
    }
    assert(w != "thirteen"@) by {
        assert('0' <= w[0] && w[0] <= '9');
    }
    assert(w != "thirteenth"@) by {
        assert('0' <= w[0] && w[0] <= '9');
    }
    assert(w != "fourteen"@) by {
        assert('0' <= w[0] && w[0] <= '9');
    }
    assert(w != "fourteenth"@) by {
        assert('0' <= w[0] && w[0] <= '9');
    }
    assert(w != "fifteen"@) by {
        assert('0' <= w[0] && w[0] <= '9');
    }
    assert(w != "fifteenth"@) by {
        assert('0' <= w[0] && w[0] <= '9');
    }
    assert(w != "sixteen"@) by {
        assert('0' <= w[0] && w[0] <= '9');
    }
    assert(w != "sixteenth"@) by {
        assert('0' <= w[0] && w[0] <= '9');
    }
    assert(w != "seventeen"@) by {
        assert('0' <= w[0] && w[0] <= '9');
    }
    assert(w != "seventeenth"@) by {
        assert('0' <= w[0] && w[0] <= '9');
    }
    assert(w != "eighteen"@) by {
        assert('0' <= w[0] && w[0] <= '9');
    }
    assert(w != "eighteenth"@) by {
        assert('0' <= w[0] && w[0] <= '9');
    }
    assert(w != "nineteen"@) by {
        assert('0' <= w[0] && w[0] <= '9');
    }
    assert(w != "nineteenth"@) by {
        assert('0' <= w[0] && w[0] <= '9');
    }
    assert(w != "twenty"@) by {
        assert('0' <= w[0] && w[0] <= '9');
    }
    assert(w != "twentieth"@) by {
        assert('0' <= w[0] && w[0] <= '9');
    }
    assert(w != "thirty"@) by {
        assert('0' <= w[0] && w[0] <= '9');
    }
    assert(w != "thirtieth"@) by {
        assert('0' <= w[0] && w[0] <= '9');
    }
    assert(w != "forty"@) by {
        assert('0' <= w[0] && w[0] <= '9');
    }
    assert(w != "fourty"@) by {
        assert('0' <= w[0] && w[0] <= '9');
    }
    assert(w != "fortieth"@) by {
        assert('0' <= w[0] && w[0] <= '9');
    }
    assert(w != "fourtieth"@) by {
        assert('0' <= w[0] && w[0] <= '9');
    }
    assert(w != "fifty"@) by {
        assert('0' <= w[0] && w[0] <= '9');
    }
    assert(w != "fiftieth"@) by {
        assert('0' <= w[0] && w[0] <= '9');
    }
    assert(w != "sixty"@) by {
        assert('0' <= w[0] && w[0] <= '9');
    }
    assert(w != "sixtieth"@) by {
        assert('0' <= w[0] && w[0] <= '9');
    }
    assert(w != "seventy"@) by {
        assert('0' <= w[0] && w[0] <= '9');
    }
    assert(w != "seventieth"@) by {
        assert('0' <= w[0] && w[0] <= '9');
    }
    assert(w != "eighty"@) by {
        assert('0' <= w[0] && w[0] <= '9');
    }
    assert(w != "eightieth"@) by {
        assert('0' <= w[0] && w[0] <= '9');
    }
    assert(w != "ninety"@) by {
        assert('0' <= w[0] && w[0] <= '9');
    }
    assert(w != "ninetieth"@) by {
        assert('0' <= w[0] && w[0] <= '9');
    }
    assert(w != "hundred"@) by {
        assert('0' <= w[0] && w[0] <= '9');
    }
    assert(w != "hundredth"@) by {
        assert('0' <= w[0] && w[0] <= '9');
    }
    assert(w != "thousand"@) by {
        assert('0' <= w[0] && w[0] <= '9');
    }
    assert(w != "thousandth"@) by {
        assert('0' <= w[0] && w[0] <= '9');
    }
    assert(w != "million"@) by {
        assert('0' <= w[0] && w[0] <= '9');
    }
    assert(w != "millionth"@) by {
        assert('0' <= w[0] && w[0] <= '9');
    }
    assert(w != "billion"@) by {
        assert('0' <= w[0] && w[0] <= '9');
    }
    assert(w != "billionth"@) by {
        assert('0' <= w[0] && w[0] <= '9');
    }
    assert(w != "and"@) by {
        assert('0' <= w[0] && w[0] <= '9');
    }
    assert(word_action(w) == Action::Unknown);
    assert(!crate::english::ord_trigger(w, w)) by {
        reveal_strlit("th");
        reveal_strlit("first");
        reveal_strlit("second");
        reveal_strlit("third");
        if crate::english::ends_with(w, "th"@) {
            assert(w.subrange(w.len() - 2, w.len() as int)[1] == w[w.len() - 1]);
            assert(w[w.len() - 1] == 'h');
            assert(false);
        }
    }
}

/// Law: the digit form of a composed cardinal consists of digit characters
/// only. Together with the law above, the replacement a cardinal leaves in
/// the text can never be taken for a number word by a later scan.
pub proof fn lemma_cardinal_render_is_digits(v: crate::digits::DsView)
    requires
        v.marker == crate::digits::Marker::Cardinal,
    ensures
        forall|i: int| 0 <= i < crate::digits::render_spec(v).len() ==> '0'
            <= #[trigger] crate::digits::render_spec(v)[i]
            && crate::digits::render_spec(v)[i] <= '9',
{
    let r = crate::digits::render_spec(v);
    assert(crate::digits::marker_chars(v.marker) =~= Seq::<char>::empty());
    assert forall|i: int| 0 <= i < r.len() implies '0' <= #[trigger] r[i] && r[i] <= '9' by {
        if i < v.zeros {
            assert(r[i] == '0');
        } else {
            assert(r[i] == crate::digits::digits_chars(v.digits)[i - v.zeros]);
            assert(crate::digits::digits_chars(v.digits)[i - v.zeros]
                == crate::digits::digit_char(v.digits[i - v.zeros]));
        }
    }
}

/// Law: a phrase consisting of one unit word composes, as a whole phrase,
/// to exactly the value it spells, as a cardinal.
#[verifier::rlimit(100)]
pub proof fn lemma_unit_phrase_roundtrip(d: u8)
    requires
        1 <= d <= 9,
    ensures
        crate::english::phrase_spec(seq![unit_word(d)]) is Ok,
        value_of(crate::english::phrase_spec(seq![unit_word(d)])->Ok_0.digits) == d,
        crate::english::phrase_spec(seq![unit_word(d)])->Ok_0.marker == Marker::Cardinal,
{
    lemma_unit_roundtrip(d);
    if d == 1 {
        reveal_strlit("one");
        assert(!crate::english::has_hyphen("one"@)) by {
            assert forall|i: int| 0 <= i < "one"@.len() implies "one"@[i] != '-' by {
                if i == 0 {
                    assert("one"@[0] == 'o');
                }
                if i == 1 {
                    assert("one"@[1] == 'n');
                }
                if i == 2 {
                    assert("one"@[2] == 'e');
                }
            }
        }
    } else if d == 2 {
        reveal_strlit("two");
        assert(!crate::english::has_hyphen("two"@)) by {
            assert forall|i: int| 0 <= i < "two"@.len() implies "two"@[i] != '-' by {
                if i == 0 {
                    assert("two"@[0] == 't');
                }
                if i == 1 {
                    assert("two"@[1] == 'w');
                }
                if i == 2 {
                    assert("two"@[2] == 'o');
                }
            }
        }
    } else if d == 3 {
        reveal_strlit("three");
        assert(!crate::english::has_hyphen("three"@)) by {
            assert forall|i: int| 0 <= i < "three"@.len() implies "three"@[i] != '-' by {
                if i == 0 {
                    assert("three"@[0] == 't');
                }
                if i == 1 {
                    assert("three"@[1] == 'h');
                }
                if i == 2 {
                    assert("three"@[2] == 'r');
                }
                if i == 3 {
                    assert("three"@[3] == 'e');
                }
                if i == 4 {
                    assert("three"@[4] == 'e');
                }
            }
        }
    } else if d == 4 {
        reveal_strlit("four");
        assert(!crate::english::has_hyphen("four"@)) by {
            assert forall|i: int| 0 <= i < "four"@.len() implies "four"@[i] != '-' by {
                if i == 0 {
                    assert("four"@[0] == 'f');
                }
                if i == 1 {
                    assert("four"@[1] == 'o');
                }
                if i == 2 {
                    assert("four"@[2] == 'u');
                }
                if i == 3 {
                    assert("four"@[3] == 'r');
                }
            }
        }
    } else if d == 5 {
        reveal_strlit("five");
        assert(!crate::english::has_hyphen("five"@)) by {
            assert forall|i: int| 0 <= i < "five"@.len() implies "five"@[i] != '-' by {
                if i == 0 {
                    assert("five"@[0] == 'f');
                }
                if i == 1 {
                    assert("five"@[1] == 'i');
                }
                if i == 2 {
                    assert("five"@[2] == 'v');
                }
                if i == 3 {
                    assert("five"@[3] == 'e');
                }
            }
        }
    } else if d == 6 {
        reveal_strlit("six");
        assert(!crate::english::has_hyphen("six"@)) by {
            assert forall|i: int| 0 <= i < "six"@.len() implies "six"@[i] != '-' by {
                if i == 0 {
                    assert("six"@[0] == 's');
                }
                if i == 1 {
                    assert("six"@[1] == 'i');
                }
                if i == 2 {
                    assert("six"@[2] == 'x');
                }
            }
        }
    } else if d == 7 {
        reveal_strlit("seven");
        assert(!crate::english::has_hyphen("seven"@)) by {
            assert forall|i: int| 0 <= i < "seven"@.len() implies "seven"@[i] != '-' by {
                if i == 0 {
                    assert("seven"@[0] == 's');
                }
                if i == 1 {
                    assert("seven"@[1] == 'e');
                }
                if i == 2 {
                    assert("seven"@[2] == 'v');
                }
                if i == 3 {
                    assert("seven"@[3] == 'e');
                }
                if i == 4 {
                    assert("seven"@[4] == 'n');
                }
            }
        }
    } else if d == 8 {
        reveal_strlit("eight");
        assert(!crate::english::has_hyphen("eight"@)) by {
            assert forall|i: int| 0 <= i < "eight"@.len() implies "eight"@[i] != '-' by {
                if i == 0 {
                    assert("eight"@[0] == 'e');
                }
                if i == 1 {
                    assert("eight"@[1] == 'i');
                }
                if i == 2 {
                    assert("eight"@[2] == 'g');
                }
                if i == 3 {
                    assert("eight"@[3] == 'h');
                }
                if i == 4 {
                    assert("eight"@[4] == 't');
                }
            }
        }
    } else {
        reveal_strlit("nine");
        assert(!crate::english::has_hyphen("nine"@)) by {
            assert forall|i: int| 0 <= i < "nine"@.len() implies "nine"@[i] != '-' by {
                if i == 0 {
                    assert("nine"@[0] == 'n');
                }
                if i == 1 {
                    assert("nine"@[1] == 'i');
                }
                if i == 2 {
                    assert("nine"@[2] == 'n');
                }
                if i == 3 {
                    assert("nine"@[3] == 'e');
                }
            }
        }
    }
    assert(!crate::english::has_hyphen(unit_word(d)));
    let words = seq![unit_word(d)];
    assert(words[0] == unit_word(d));
    assert(words.drop_first() =~= Seq::<Seq<char>>::empty());
    let so = crate::english::step_spec(unit_word(d), empty_view());
    assert(crate::english::apply_spec(unit_word(d), empty_view()) == so);
    reveal_with_fuel(crate::english::words_rec, 3);
    assert(crate::english::words_rec(words, empty_view(), false) == Ok::<
        (crate::digits::DsView, bool),
        crate::error::ComposeError,
    >((so.v, false)));
}

/// Law: a phrase consisting of one teen word composes, as a whole phrase,
/// to exactly ten plus the unit it spells, as a cardinal.
#[verifier::rlimit(100)]
pub proof fn lemma_teen_phrase_roundtrip(d: u8)
    requires
        d <= 9,
    ensures
        crate::english::phrase_spec(seq![teen_word(d)]) is Ok,
        value_of(crate::english::phrase_spec(seq![teen_word(d)])->Ok_0.digits) == 10 + d,
        crate::english::phrase_spec(seq![teen_word(d)])->Ok_0.marker == Marker::Cardinal,
{
    lemma_teen_roundtrip(d);
    if d == 0 {
        reveal_strlit("ten");
        assert(!crate::english::has_hyphen("ten"@)) by {
            assert forall|i: int| 0 <= i < "ten"@.len() implies "ten"@[i] != '-' by {
                if i == 0 {
                    assert("ten"@[0] == 't');
                }
                if i == 1 {
                    assert("ten"@[1] == 'e');
                }
                if i == 2 {
                    assert("ten"@[2] == 'n');
                }
            }
        }
    } else if d == 1 {
        reveal_strlit("eleven");
        assert(!crate::english::has_hyphen("eleven"@)) by {
            assert forall|i: int| 0 <= i < "eleven"@.len() implies "eleven"@[i] != '-' by {
                if i == 0 {
                    assert("eleven"@[0] == 'e');
                }
                if i == 1 {
                    assert("eleven"@[1] == 'l');
                }
                if i == 2 {
                    assert("eleven"@[2] == 'e');
                }
                if i == 3 {
                    assert("eleven"@[3] == 'v');
                }
                if i == 4 {
                    assert("eleven"@[4] == 'e');
                }
                if i == 5 {
                    assert("eleven"@[5] == 'n');
                }
            }
        }
    } else if d == 2 {
        reveal_strlit("twelve");
        assert(!crate::english::has_hyphen("twelve"@)) by {
            assert forall|i: int| 0 <= i < "twelve"@.len() implies "twelve"@[i] != '-' by {
                if i == 0 {
                    assert("twelve"@[0] == 't');
                }
                if i == 1 {
                    assert("twelve"@[1] == 'w');
                }
                if i == 2 {
                    assert("twelve"@[2] == 'e');
                }
                if i == 3 {
                    assert("twelve"@[3] == 'l');
                }
                if i == 4 {
                    assert("twelve"@[4] == 'v');
                }
                if i == 5 {
                    assert("twelve"@[5] == 'e');
                }
            }
        }
    } else if d == 3 {
        reveal_strlit("thirteen");
        assert(!crate::english::has_hyphen("thirteen"@)) by {
            assert forall|i: int| 0 <= i < "thirteen"@.len() implies "thirteen"@[i] != '-' by {
                if i == 0 {
                    assert("thirteen"@[0] == 't');
                }
                if i == 1 {
                    assert("thirteen"@[1] == 'h');
                }
                if i == 2 {
                    assert("thirteen"@[2] == 'i');
                }
                if i == 3 {
                    assert("thirteen"@[3] == 'r');
                }
                if i == 4 {
                    assert("thirteen"@[4] == 't');
                }
                if i == 5 {
                    assert("thirteen"@[5] == 'e');
                }
                if i == 6 {
                    assert("thirteen"@[6] == 'e');
                }
                if i == 7 {
                    assert("thirteen"@[7] == 'n');
                }
            }
        }
    } else if d == 4 {
        reveal_strlit("fourteen");
        assert(!crate::english::has_hyphen("fourteen"@)) by {
            assert forall|i: int| 0 <= i < "fourteen"@.len() implies "fourteen"@[i] != '-' by {
                if i == 0 {
                    assert("fourteen"@[0] == 'f');
                }
                if i == 1 {
                    assert("fourteen"@[1] == 'o');
                }
                if i == 2 {
                    assert("fourteen"@[2] == 'u');
                }
                if i == 3 {
                    assert("fourteen"@[3] == 'r');
                }
                if i == 4 {
                    assert("fourteen"@[4] == 't');
                }
                if i == 5 {
                    assert("fourteen"@[5] == 'e');
                }
                if i == 6 {
                    assert("fourteen"@[6] == 'e');
                }
                if i == 7 {
                    assert("fourteen"@[7] == 'n');
                }
            }
        }
    } else if d == 5 {
        reveal_strlit("fifteen");
        assert(!crate::english::has_hyphen("fifteen"@)) by {
            assert forall|i: int| 0 <= i < "fifteen"@.len() implies "fifteen"@[i] != '-' by {
                if i == 0 {
                    assert("fifteen"@[0] == 'f');
                }
                if i == 1 {
                    assert("fifteen"@[1] == 'i');
                }
                if i == 2 {
                    assert("fifteen"@[2] == 'f');
                }
                if i == 3 {
                    assert("fifteen"@[3] == 't');
                }
                if i == 4 {
                    assert("fifteen"@[4] == 'e');
                }
                if i == 5 {
                    assert("fifteen"@[5] == 'e');
                }
                if i == 6 {
                    assert("fifteen"@[6] == 'n');
                }
            }
        }
    } else if d == 6 {
        reveal_strlit("sixteen");
        assert(!crate::english::has_hyphen("sixteen"@)) by {
            assert forall|i: int| 0 <= i < "sixteen"@.len() implies "sixteen"@[i] != '-' by {
                if i == 0 {
                    assert("sixteen"@[0] == 's');
                }
                if i == 1 {
                    assert("sixteen"@[1] == 'i');
                }
                if i == 2 {
                    assert("sixteen"@[2] == 'x');
                }
                if i == 3 {
                    assert("sixteen"@[3] == 't');
                }
                if i == 4 {
                    assert("sixteen"@[4] == 'e');
                }
                if i == 5 {
                    assert("sixteen"@[5] == 'e');
                }
                if i == 6 {
                    assert("sixteen"@[6] == 'n');
                }
            }
        }
    } else if d == 7 {
        reveal_strlit("seventeen");
        assert(!crate::english::has_hyphen("seventeen"@)) by {
            assert forall|i: int| 0 <= i < "seventeen"@.len() implies "seventeen"@[i] != '-' by {
                if i == 0 {
                    assert("seventeen"@[0] == 's');
                }
                if i == 1 {
                    assert("seventeen"@[1] == 'e');
                }
                if i == 2 {
                    assert("seventeen"@[2] == 'v');
                }
                if i == 3 {
                    assert("seventeen"@[3] == 'e');
                }
                if i == 4 {
                    assert("seventeen"@[4] == 'n');
                }
                if i == 5 {
                    assert("seventeen"@[5] == 't');
                }
                if i == 6 {
                    assert("seventeen"@[6] == 'e');
                }
                if i == 7 {
                    assert("seventeen"@[7] == 'e');
                }
                if i == 8 {
                    assert("seventeen"@[8] == 'n');
                }
            }
        }
    } else if d == 8 {
        reveal_strlit("eighteen");
        assert(!crate::english::has_hyphen("eighteen"@)) by {
            assert forall|i: int| 0 <= i < "eighteen"@.len() implies "eighteen"@[i] != '-' by {
                if i == 0 {
                    assert("eighteen"@[0] == 'e');
                }
                if i == 1 {
                    assert("eighteen"@[1] == 'i');
                }
                if i == 2 {
                    assert("eighteen"@[2] == 'g');
                }
                if i == 3 {
                    assert("eighteen"@[3] == 'h');
                }
                if i == 4 {
                    assert("eighteen"@[4] == 't');
                }
                if i == 5 {
                    assert("eighteen"@[5] == 'e');
                }
                if i == 6 {
                    assert("eighteen"@[6] == 'e');
                }
                if i == 7 {
                    assert("eighteen"@[7] == 'n');
                }
            }
        }
    } else {
        reveal_strlit("nineteen");
        assert(!crate::english::has_hyphen("nineteen"@)) by {
            assert forall|i: int| 0 <= i < "nineteen"@.len() implies "nineteen"@[i] != '-' by {
                if i == 0 {
                    assert("nineteen"@[0] == 'n');
                }
                if i == 1 {
                    assert("nineteen"@[1] == 'i');
                }
                if i == 2 {
                    assert("nineteen"@[2] == 'n');
                }
                if i == 3 {
                    assert("nineteen"@[3] == 'e');
                }
                if i == 4 {
                    assert("nineteen"@[4] == 't');
                }
                if i == 5 {
                    assert("nineteen"@[5] == 'e');
                }
                if i == 6 {
                    assert("nineteen"@[6] == 'e');
                }
                if i == 7 {
                    assert("nineteen"@[7] == 'n');
                }
            }
        }
    }
    assert(!crate::english::has_hyphen(teen_word(d)));
    let words = seq![teen_word(d)];
    assert(words[0] == teen_word(d));
    assert(words.drop_first() =~= Seq::<Seq<char>>::empty());
    let so = crate::english::step_spec(teen_word(d), empty_view());
    assert(crate::english::apply_spec(teen_word(d), empty_view()) == so);
    reveal_with_fuel(crate::english::words_rec, 3);
    assert(crate::english::words_rec(words, empty_view(), false) == Ok::<
        (crate::digits::DsView, bool),
        crate::error::ComposeError,
    >((so.v, false)));
}

/// Law: a two-word phrase of a tens word then a unit word composes, as a
/// whole phrase, to exactly `10 * t + d`, as a cardinal. With the two laws
/// above, every spelled cardinal from one to ninety-nine round-trips.
#[verifier::rlimit(100)]
pub proof fn lemma_ten_unit_phrase_roundtrip(t: u8, d: u8)
    requires
        2 <= t <= 9,
        1 <= d <= 9,
    ensures
        crate::english::phrase_spec(seq![tens_word(t), unit_word(d)]) is Ok,
        value_of(crate::english::phrase_spec(seq![tens_word(t), unit_word(d)])->Ok_0.digits)
            == 10 * t + d,
        crate::english::phrase_spec(seq![tens_word(t), unit_word(d)])->Ok_0.marker
            == Marker::Cardinal,
{
    lemma_ten_unit_roundtrip(t, d);
    lemma_unit_roundtrip(d);
    if t == 2 {
        reveal_strlit("twenty");
        assert(!crate::english::has_hyphen("twenty"@)) by {
            assert forall|i: int| 0 <= i < "twenty"@.len() implies "twenty"@[i] != '-' by {
                if i == 0 {
                    assert("twenty"@[0] == 't');
                }
                if i == 1 {
                    assert("twenty"@[1] == 'w');
                }
                if i == 2 {
                    assert("twenty"@[2] == 'e');
                }
                if i == 3 {
                    assert("twenty"@[3] == 'n');
                }
                if i == 4 {
                    assert("twenty"@[4] == 't');
                }
                if i == 5 {
                    assert("twenty"@[5] == 'y');
                }
            }
        }
    } else if t == 3 {
        reveal_strlit("thirty");
        assert(!crate::english::has_hyphen("thirty"@)) by {
            assert forall|i: int| 0 <= i < "thirty"@.len() implies "thirty"@[i] != '-' by {
                if i == 0 {
                    assert("thirty"@[0] == 't');
                }
                if i == 1 {
                    assert("thirty"@[1] == 'h');
                }
                if i == 2 {
                    assert("thirty"@[2] == 'i');
                }
                if i == 3 {
                    assert("thirty"@[3] == 'r');
                }
                if i == 4 {
                    assert("thirty"@[4] == 't');
                }
                if i == 5 {
                    assert("thirty"@[5] == 'y');
                }
            }
        }
    } else if t == 4 {
        reveal_strlit("forty");
        assert(!crate::english::has_hyphen("forty"@)) by {
            assert forall|i: int| 0 <= i < "forty"@.len() implies "forty"@[i] != '-' by {
                if i == 0 {
                    assert("forty"@[0] == 'f');
                }
                if i == 1 {
                    assert("forty"@[1] == 'o');
                }
                if i == 2 {
                    assert("forty"@[2] == 'r');
                }
                if i == 3 {
                    assert("forty"@[3] == 't');
                }
                if i == 4 {
                    assert("forty"@[4] == 'y');
                }
            }
        }
    } else if t == 5 {
        reveal_strlit("fifty");
        assert(!crate::english::has_hyphen("fifty"@)) by {
            assert forall|i: int| 0 <= i < "fifty"@.len() implies "fifty"@[i] != '-' by {
                if i == 0 {
                    assert("fifty"@[0] == 'f');
                }
                if i == 1 {
                    assert("fifty"@[1] == 'i');
                }
                if i == 2 {
                    assert("fifty"@[2] == 'f');
                }
                if i == 3 {
                    assert("fifty"@[3] == 't');
                }
                if i == 4 {
                    assert("fifty"@[4] == 'y');
                }
            }
        }
    } else if t == 6 {
        reveal_strlit("sixty");
        assert(!crate::english::has_hyphen("sixty"@)) by {
            assert forall|i: int| 0 <= i < "sixty"@.len() implies "sixty"@[i] != '-' by {
                if i == 0 {
                    assert("sixty"@[0] == 's');
                }
                if i == 1 {
                    assert("sixty"@[1] == 'i');
                }
                if i == 2 {
                    assert("sixty"@[2] == 'x');
                }
                if i == 3 {
                    assert("sixty"@[3] == 't');
                }
                if i == 4 {
                    assert("sixty"@[4] == 'y');
                }
            }
        }
    } else if t == 7 {
        reveal_strlit("seventy");
        assert(!crate::english::has_hyphen("seventy"@)) by {
            assert forall|i: int| 0 <= i < "seventy"@.len() implies "seventy"@[i] != '-' by {
                if i == 0 {
                    assert("seventy"@[0] == 's');
                }
                if i == 1 {
                    assert("seventy"@[1] == 'e');
                }
                if i == 2 {
                    assert("seventy"@[2] == 'v');
                }
                if i == 3 {
                    assert("seventy"@[3] == 'e');
                }
                if i == 4 {
                    assert("seventy"@[4] == 'n');
                }
                if i == 5 {
                    assert("seventy"@[5] == 't');
                }
                if i == 6 {
                    assert("seventy"@[6] == 'y');
                }
            }
        }
    } else if t == 8 {
        reveal_strlit("eighty");
        assert(!crate::english::has_hyphen("eighty"@)) by {
            assert forall|i: int| 0 <= i < "eighty"@.len() implies "eighty"@[i] != '-' by {
                if i == 0 {
                    assert("eighty"@[0] == 'e');
                }
                if i == 1 {
                    assert("eighty"@[1] == 'i');
                }
                if i == 2 {
                    assert("eighty"@[2] == 'g');
                }
                if i == 3 {
                    assert("eighty"@[3] == 'h');
                }
                if i == 4 {
                    assert("eighty"@[4] == 't');
                }
                if i == 5 {
                    assert("eighty"@[5] == 'y');
                }
            }
        }
    } else {
        reveal_strlit("ninety");
        assert(!crate::english::has_hyphen("ninety"@)) by {
            assert forall|i: int| 0 <= i < "ninety"@.len() implies "ninety"@[i] != '-' by {
                if i == 0 {
                    assert("ninety"@[0] == 'n');
                }
                if i == 1 {
                    assert("ninety"@[1] == 'i');
                }
                if i == 2 {
                    assert("ninety"@[2] == 'n');
                }
                if i == 3 {
                    assert("ninety"@[3] == 'e');
                }
                if i == 4 {
                    assert("ninety"@[4] == 't');
                }
                if i == 5 {
                    assert("ninety"@[5] == 'y');
                }
            }
        }
    }
    assert(!crate::english::has_hyphen(tens_word(t)));
    if d == 1 {
        reveal_strlit("one");
        assert(!crate::english::has_hyphen("one"@)) by {
            assert forall|i: int| 0 <= i < "one"@.len() implies "one"@[i] != '-' by {
                if i == 0 {
                    assert("one"@[0] == 'o');
                }
                if i == 1 {
                    assert("one"@[1] == 'n');
                }
                if i == 2 {
                    assert("one"@[2] == 'e');
                }
            }
        }
    } else if d == 2 {
        reveal_strlit("two");
        assert(!crate::english::has_hyphen("two"@)) by {
            assert forall|i: int| 0 <= i < "two"@.len() implies "two"@[i] != '-' by {
                if i == 0 {
                    assert("two"@[0] == 't');
                }
                if i == 1 {
                    assert("two"@[1] == 'w');
                }
                if i == 2 {
                    assert("two"@[2] == 'o');
                }
            }
        }
    } else if d == 3 {
        reveal_strlit("three");
        assert(!crate::english::has_hyphen("three"@)) by {
            assert forall|i: int| 0 <= i < "three"@.len() implies "three"@[i] != '-' by {
                if i == 0 {
                    assert("three"@[0] == 't');
                }
                if i == 1 {
                    assert("three"@[1] == 'h');
                }
                if i == 2 {
                    assert("three"@[2] == 'r');
                }
                if i == 3 {
                    assert("three"@[3] == 'e');
                }
                if i == 4 {
                    assert("three"@[4] == 'e');
                }
            }
        }
    } else if d == 4 {
        reveal_strlit("four");
        assert(!crate::english::has_hyphen("four"@)) by {
            assert forall|i: int| 0 <= i < "four"@.len() implies "four"@[i] != '-' by {
                if i == 0 {
                    assert("four"@[0] == 'f');
                }
                if i == 1 {
                    assert("four"@[1] == 'o');
                }
                if i == 2 {
                    assert("four"@[2] == 'u');
                }
                if i == 3 {
                    assert("four"@[3] == 'r');
                }
            }
        }
    } else if d == 5 {
        reveal_strlit("five");
        assert(!crate::english::has_hyphen("five"@)) by {
            assert forall|i: int| 0 <= i < "five"@.len() implies "five"@[i] != '-' by {
                if i == 0 {
                    assert("five"@[0] == 'f');
                }
                if i == 1 {
                    assert("five"@[1] == 'i');
                }
                if i == 2 {
                    assert("five"@[2] == 'v');
                }
                if i == 3 {
                    assert("five"@[3] == 'e');
                }
            }
        }
    } else if d == 6 {
        reveal_strlit("six");
        assert(!crate::english::has_hyphen("six"@)) by {
            assert forall|i: int| 0 <= i < "six"@.len() implies "six"@[i] != '-' by {
                if i == 0 {
                    assert("six"@[0] == 's');
                }
                if i == 1 {
                    assert("six"@[1] == 'i');
                }
                if i == 2 {
                    assert("six"@[2] == 'x');
                }
            }
        }
    } else if d == 7 {
        reveal_strlit("seven");
        assert(!crate::english::has_hyphen("seven"@)) by {
            assert forall|i: int| 0 <= i < "seven"@.len() implies "seven"@[i] != '-' by {
                if i == 0 {
                    assert("seven"@[0] == 's');
                }
                if i == 1 {
                    assert("seven"@[1] == 'e');
                }
                if i == 2 {
                    assert("seven"@[2] == 'v');
                }
                if i == 3 {
                    assert("seven"@[3] == 'e');
                }
                if i == 4 {
                    assert("seven"@[4] == 'n');
                }
            }
        }
    } else if d == 8 {
        reveal_strlit("eight");
        assert(!crate::english::has_hyphen("eight"@)) by {
            assert forall|i: int| 0 <= i < "eight"@.len() implies "eight"@[i] != '-' by {
                if i == 0 {
                    assert("eight"@[0] == 'e');
                }
                if i == 1 {
                    assert("eight"@[1] == 'i');
                }
                if i == 2 {
                    assert("eight"@[2] == 'g');
                }
                if i == 3 {
                    assert("eight"@[3] == 'h');
                }
                if i == 4 {
                    assert("eight"@[4] == 't');
                }
            }
        }
    } else {
        reveal_strlit("nine");
        assert(!crate::english::has_hyphen("nine"@)) by {
            assert forall|i: int| 0 <= i < "nine"@.len() implies "nine"@[i] != '-' by {
                if i == 0 {
                    assert("nine"@[0] == 'n');
                }
                if i == 1 {
                    assert("nine"@[1] == 'i');
                }
                if i == 2 {
                    assert("nine"@[2] == 'n');
                }
                if i == 3 {
                    assert("nine"@[3] == 'e');
                }
            }
        }
    }
    assert(!crate::english::has_hyphen(unit_word(d)));
    let words = seq![tens_word(t), unit_word(d)];
    assert(words[0] == tens_word(t));
    let first_step = crate::english::step_spec(tens_word(t), empty_view());
    assert(crate::english::apply_spec(tens_word(t), empty_view()) == first_step);
    let rest = words.drop_first();
    assert(rest =~= seq![unit_word(d)]);
    assert(rest[0] == unit_word(d));
    let second_step = crate::english::step_spec(unit_word(d), first_step.v);
    assert(crate::english::apply_spec(unit_word(d), first_step.v) == second_step);
    assert(rest.drop_first() =~= Seq::<Seq<char>>::empty());
    reveal_with_fuel(crate::english::words_rec, 4);
    assert(crate::english::words_rec(words, empty_view(), false) == Ok::<
        (crate::digits::DsView, bool),
        crate::error::ComposeError,
    >((second_step.v, false)));
}

/// Law: a phrase consisting of one tens word composes, as a whole phrase,
/// to exactly the multiple of ten it spells, as a cardinal.
#[verifier::rlimit(100)]
pub proof fn lemma_tens_phrase_roundtrip(t: u8)
    requires
        2 <= t <= 9,
    ensures
        crate::english::phrase_spec(seq![tens_word(t)]) is Ok,
        value_of(crate::english::phrase_spec(seq![tens_word(t)])->Ok_0.digits) == 10 * t,
        crate::english::phrase_spec(seq![tens_word(t)])->Ok_0.marker == Marker::Cardinal,
{
    lemma_tens_roundtrip(t);
    if t == 2 {
        reveal_strlit("twenty");
        assert(!crate::english::has_hyphen("twenty"@)) by {
            assert forall|i: int| 0 <= i < "twenty"@.len() implies "twenty"@[i] != '-' by {
                if i == 0 {
                    assert("twenty"@[0] == 't');
                }
                if i == 1 {
                    assert("twenty"@[1] == 'w');
                }
                if i == 2 {
                    assert("twenty"@[2] == 'e');
                }
                if i == 3 {
                    assert("twenty"@[3] == 'n');
                }
                if i == 4 {
                    assert("twenty"@[4] == 't');
                }
                if i == 5 {
                    assert("twenty"@[5] == 'y');
                }
            }
        }
    } else if t == 3 {
        reveal_strlit("thirty");
        assert(!crate::english::has_hyphen("thirty"@)) by {
            assert forall|i: int| 0 <= i < "thirty"@.len() implies "thirty"@[i] != '-' by {
                if i == 0 {
                    assert("thirty"@[0] == 't');
                }
                if i == 1 {
                    assert("thirty"@[1] == 'h');
                }
                if i == 2 {
                    assert("thirty"@[2] == 'i');
                }
                if i == 3 {
                    assert("thirty"@[3] == 'r');
                }
                if i == 4 {
                    assert("thirty"@[4] == 't');
                }
                if i == 5 {
                    assert("thirty"@[5] == 'y');
                }
            }
        }
    } else if t == 4 {
        reveal_strlit("forty");
        assert(!crate::english::has_hyphen("forty"@)) by {
            assert forall|i: int| 0 <= i < "forty"@.len() implies "forty"@[i] != '-' by {
                if i == 0 {
                    assert("forty"@[0] == 'f');
                }
                if i == 1 {
                    assert("forty"@[1] == 'o');
                }
                if i == 2 {
                    assert("forty"@[2] == 'r');
                }
                if i == 3 {
                    assert("forty"@[3] == 't');
                }
                if i == 4 {
                    assert("forty"@[4] == 'y');
                }
            }
        }
    } else if t == 5 {
        reveal_strlit("fifty");
        assert(!crate::english::has_hyphen("fifty"@)) by {
            assert forall|i: int| 0 <= i < "fifty"@.len() implies "fifty"@[i] != '-' by {
                if i == 0 {
                    assert("fifty"@[0] == 'f');
                }
                if i == 1 {
                    assert("fifty"@[1] == 'i');
                }
                if i == 2 {
                    assert("fifty"@[2] == 'f');
                }
                if i == 3 {
                    assert("fifty"@[3] == 't');
                }
                if i == 4 {
                    assert("fifty"@[4] == 'y');
                }
            }
        }
    } else if t == 6 {
        reveal_strlit("sixty");
        assert(!crate::english::has_hyphen("sixty"@)) by {
            assert forall|i: int| 0 <= i < "sixty"@.len() implies "sixty"@[i] != '-' by {
                if i == 0 {
                    assert("sixty"@[0] == 's');
                }
                if i == 1 {
                    assert("sixty"@[1] == 'i');
                }
                if i == 2 {
                    assert("sixty"@[2] == 'x');
                }
                if i == 3 {
                    assert("sixty"@[3] == 't');
                }
                if i == 4 {
                    assert("sixty"@[4] == 'y');
                }
            }
        }
    } else if t == 7 {
        reveal_strlit("seventy");
        assert(!crate::english::has_hyphen("seventy"@)) by {
            assert forall|i: int| 0 <= i < "seventy"@.len() implies "seventy"@[i] != '-' by {
                if i == 0 {
                    assert("seventy"@[0] == 's');
                }
                if i == 1 {
                    assert("seventy"@[1] == 'e');
                }
                if i == 2 {
                    assert("seventy"@[2] == 'v');
                }
                if i == 3 {
                    assert("seventy"@[3] == 'e');
                }
                if i == 4 {
                    assert("seventy"@[4] == 'n');
                }
                if i == 5 {
                    assert("seventy"@[5] == 't');
                }
                if i == 6 {
                    assert("seventy"@[6] == 'y');
                }
            }
        }
    } else if t == 8 {
        reveal_strlit("eighty");
        assert(!crate::english::has_hyphen("eighty"@)) by {
            assert forall|i: int| 0 <= i < "eighty"@.len() implies "eighty"@[i] != '-' by {
                if i == 0 {
                    assert("eighty"@[0] == 'e');
                }
                if i == 1 {
                    assert("eighty"@[1] == 'i');
                }
                if i == 2 {
                    assert("eighty"@[2] == 'g');
                }
                if i == 3 {
                    assert("eighty"@[3] == 'h');
                }
                if i == 4 {
                    assert("eighty"@[4] == 't');
                }
                if i == 5 {
                    assert("eighty"@[5] == 'y');
                }
            }
        }
    } else {
        reveal_strlit("ninety");
        assert(!crate::english::has_hyphen("ninety"@)) by {
            assert forall|i: int| 0 <= i < "ninety"@.len() implies "ninety"@[i] != '-' by {
                if i == 0 {
                    assert("ninety"@[0] == 'n');
                }
                if i == 1 {
                    assert("ninety"@[1] == 'i');
                }
                if i == 2 {
                    assert("ninety"@[2] == 'n');
                }
                if i == 3 {
                    assert("ninety"@[3] == 'e');
                }
                if i == 4 {
                    assert("ninety"@[4] == 't');
                }
                if i == 5 {
                    assert("ninety"@[5] == 'y');
                }
            }
        }
    }
    assert(!crate::english::has_hyphen(tens_word(t)));
    let words = seq![tens_word(t)];
    assert(words[0] == tens_word(t));
    assert(words.drop_first() =~= Seq::<Seq<char>>::empty());
    let so = crate::english::step_spec(tens_word(t), empty_view());
    assert(crate::english::apply_spec(tens_word(t), empty_view()) == so);
    reveal_with_fuel(crate::english::words_rec, 3);
    assert(crate::english::words_rec(words, empty_view(), false) == Ok::<
        (crate::digits::DsView, bool),
        crate::error::ComposeError,
    >((so.v, false)));
}

/// Law: the isolation policy decides an isolated token. For a stream of one
/// visible token whose word composes on its own, the scan yields exactly
/// one occurrence — covering that token, with the composed value and
/// ordinal flag — when the policy keeps it, and nothing at all when the
/// policy suppresses it.
pub proof fn lemma_single_token_scan(t: crate::scan::TokView, threshold: nat)
    requires
        !t.skip,
        !t.nan,
        crate::english::apply_spec(t.lower, empty_view()).r is Ok,
        crate::english::apply_spec(t.lower, empty_view()).v.digits.len() > 0
            || crate::english::apply_spec(t.lower, empty_view()).v.zeros > 0,
    ensures
        ({
            let so = crate::english::apply_spec(t.lower, empty_view());
            let kept = crate::scan::emit_policy(
                1,
                value_of(so.v.digits),
                so.v.marker is Ordinal,
                crate::scan::is_scale(t.lower),
                threshold,
            );
            let occs = crate::scan::scan_spec(seq![t], threshold);
            (kept ==> occs.len() == 1 && occs[0].start == 0 && occs[0].end == 1 && occs[0].value
                == value_of(so.v.digits) && occs[0].is_ordinal == (so.v.marker is Ordinal))
                && (!kept ==> occs == Seq::<crate::scan::SpecOcc>::empty())
        }),
{
    let so = crate::english::apply_spec(t.lower, empty_view());
    let toks = seq![t];
    reveal_with_fuel(crate::scan::scan_rec, 3);
    assert(toks[0] == t);
    let st0 = crate::scan::init_st();
    assert(!crate::scan::st_open(st0));
    let st1 = crate::scan::scan_step(t, 0, st0, threshold);
    assert(st1 == (crate::scan::ScanSt {
        v: so.v,
        start: 0,
        end: 1,
        lone: crate::scan::is_scale(t.lower),
        out: Seq::empty(),
    }));
    assert(crate::scan::scan_rec(toks, 0, st0, threshold) == st1);
    assert(crate::scan::st_open(st1));
    let closed = crate::scan::close_st(st1, threshold);
    assert(crate::scan::scan_spec(toks, threshold) == closed.out);
}

} // verus!
