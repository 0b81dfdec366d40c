//! The English number grammar: how English number words drive the
//! composition buffer.

use vstd::prelude::*;

use crate::digits::{
    DigitString, DsView, Marker, StepOut, Suffix, digits_ok, empty_view, range_free, view_put,
    view_shift,
};
use crate::error::ComposeError;
use crate::strutil::eq_str;

verus! {

/// What a single (hyphen-free) English number word asks of the buffer.
#[derive(Clone, Copy, PartialEq, Eq, Structural, Debug)]
pub enum Action {
    /// "zero", "nought": a leading or final zero digit.
    Zero,
    /// A unit word, its digit.
    Unit(u8),
    /// "ten" to "nineteen": `1` then the unit digit.
    Teen(u8),
    /// "twenty" to "ninety": the tens digit then `0`.
    Ten(u8),
    Hundred,
    Thousand,
    Million,
    Billion,
    /// The connector "and".
    And,
    /// Not an English number word.
    Unknown,
}

/// `s` ends with the characters of `t`.
pub open spec fn ends_with(s: Seq<char>, t: Seq<char>) -> bool {
    s.len() >= t.len() && s.subrange(s.len() - t.len(), s.len() as int) == t
}

/// The word with every trailing 's' removed.
pub open spec fn strip_s(w: Seq<char>) -> Seq<char>
    decreases w.len(),
{
    if w.len() > 0 && w.last() == 's' {
        strip_s(w.drop_last())
    } else {
        w
    }
}

/// Crude lemmatization: plural number words lose their trailing 's'
/// ("thousands"), except "seconds", which never denotes a rank.
pub open spec fn lemma_of(w: Seq<char>) -> Seq<char> {
    if w.len() > 0 && w.last() == 's' && w != "seconds"@ {
        strip_s(w)
    } else {
        w
    }
}

/// The vocabulary: one lemmatized word to its buffer action.
pub open spec fn word_action(w: Seq<char>) -> Action {
    if w == "zero"@ || w == "o"@ || w == "nought"@ { Action::Zero }
    else if w == "one"@ || w == "first"@ || w == "oneth"@ { Action::Unit(1) }
    else if w == "two"@ || w == "second"@ { Action::Unit(2) }
    else if w == "three"@ || w == "third"@ { Action::Unit(3) }
    else if w == "four"@ || w == "fourth"@ { Action::Unit(4) }
    else if w == "five"@ || w == "fifth"@ { Action::Unit(5) }
    else if w == "six"@ || w == "sixth"@ { Action::Unit(6) }
    else if w == "seven"@ || w == "seventh"@ { Action::Unit(7) }
    else if w == "eight"@ || w == "eighth"@ { Action::Unit(8) }
    else if w == "nine"@ || w == "ninth"@ { Action::Unit(9) }
    else if w == "ten"@ || w == "tenth"@ { Action::Teen(0) }
    else if w == "eleven"@ || w == "eleventh"@ { Action::Teen(1) }
    else if w == "twelve"@ || w == "twelfth"@ { Action::Teen(2) }
    else if w == "thirteen"@ || w == "thirteenth"@ { Action::Teen(3) }
    else if w == "fourteen"@ || w == "fourteenth"@ { Action::Teen(4) }
    else if w == "fifteen"@ || w == "fifteenth"@ { Action::Teen(5) }
    else if w == "sixteen"@ || w == "sixteenth"@ { Action::Teen(6) }
    else if w == "seventeen"@ || w == "seventeenth"@ { Action::Teen(7) }
    else if w == "eighteen"@ || w == "eighteenth"@ { Action::Teen(8) }
    else if w == "nineteen"@ || w == "nineteenth"@ { Action::Teen(9) }
    else if w == "twenty"@ || w == "twentieth"@ { Action::Ten(2) }
    else if w == "thirty"@ || w == "thirtieth"@ { Action::Ten(3) }
    else if w == "forty"@ || w == "fourty"@ || w == "fortieth"@ || w == "fourtieth"@ {
        Action::Ten(4)
    }
    else if w == "fifty"@ || w == "fiftieth"@ { Action::Ten(5) }
    else if w == "sixty"@ || w == "sixtieth"@ { Action::Ten(6) }
    else if w == "seventy"@ || w == "seventieth"@ { Action::Ten(7) }
    else if w == "eighty"@ || w == "eightieth"@ { Action::Ten(8) }
    else if w == "ninety"@ || w == "ninetieth"@ { Action::Ten(9) }
    else if w == "hundred"@ || w == "hundredth"@ { Action::Hundred }
    else if w == "thousand"@ || w == "thousandth"@ { Action::Thousand }
    else if w == "million"@ || w == "millionth"@ { Action::Million }
    else if w == "billion"@ || w == "billionth"@ { Action::Billion }
    else if w == "and"@ { Action::And }
    else { Action::Unknown }
}

/// The word closes the number as an ordinal (or a frozen plural form).
pub open spec fn ord_trigger(w: Seq<char>, lemma: Seq<char>) -> bool {
    ends_with(lemma, "th"@) || w == "first"@ || w == "second"@ || lemma == "third"@
}

/// The marker kept on the digit form of an ordinal word.
pub open spec fn morph_marker(w: Seq<char>) -> Marker {
    if ends_with(w, "th"@) { Marker::Ordinal(Suffix::Th) }
    else if ends_with(w, "ths"@) { Marker::Ordinal(Suffix::Ths) }
    else if w == "first"@ { Marker::Ordinal(Suffix::St) }
    else if w == "second"@ { Marker::Ordinal(Suffix::Nd) }
    else if w == "third"@ { Marker::Ordinal(Suffix::Rd) }
    else if w == "thirds"@ { Marker::Ordinal(Suffix::Rds) }
    else { Marker::Cardinal }
}

/// Apply the ordinal closing rule after a successful step.
pub open spec fn close_if_ordinal(w: Seq<char>, lemma: Seq<char>, so: StepOut) -> StepOut {
    if so.r is Ok && ord_trigger(w, lemma) {
        StepOut { r: so.r, v: DsView { marker: morph_marker(w), frozen: true, ..so.v } }
    } else {
        so
    }
}

/// One vocabulary action applied to the composition state.
pub open spec fn act_step(a: Action, v: DsView) -> StepOut {
    match a {
        Action::Zero => view_put(v, seq![0u8]),
        Action::Unit(d) => if v.ends_in_ten() {
            StepOut { r: Err(ComposeError::NotANumber), v }
        } else {
            view_put(v, seq![d])
        },
        Action::Teen(d) => view_put(v, seq![1u8, d]),
        Action::Ten(t) => view_put(v, seq![t, 0u8]),
        Action::Hundred => if v.ends_in_double_zero() {
            StepOut { r: Err(ComposeError::Overlap), v }
        } else {
            view_shift(v, 2)
        },
        Action::Thousand => if range_free(v.digits, 3, 5) {
            view_shift(v, 3)
        } else {
            StepOut { r: Err(ComposeError::NotANumber), v }
        },
        Action::Million => if range_free(v.digits, 6, 8) {
            view_shift(v, 6)
        } else {
            StepOut { r: Err(ComposeError::NotANumber), v }
        },
        Action::Billion => view_shift(v, 9),
        Action::And => if v.slen() >= 2 {
            StepOut { r: Err(ComposeError::Incomplete), v }
        } else {
            StepOut { r: Err(ComposeError::NotANumber), v }
        },
        Action::Unknown => StepOut { r: Err(ComposeError::NotANumber), v },
    }
}

/// One hyphen-free English number word applied to the composition state.
pub open spec fn step_spec(w: Seq<char>, v: DsView) -> StepOut {
    let lemma = lemma_of(w);
    close_if_ordinal(w, lemma, act_step(word_action(lemma), v))
}

/// Split on hyphens, keeping empty pieces.
pub open spec fn split_h_acc(w: Seq<char>, cur: Seq<char>) -> Seq<Seq<char>>
    decreases w.len(),
{
    if w.len() == 0 {
        seq![cur]
    } else if w[0] == '-' {
        seq![cur] + split_h_acc(w.drop_first(), Seq::empty())
    } else {
        split_h_acc(w.drop_first(), cur.push(w[0]))
    }
}

pub open spec fn split_hyphens(w: Seq<char>) -> Seq<Seq<char>> {
    split_h_acc(w, Seq::empty())
}

pub open spec fn has_hyphen(w: Seq<char>) -> bool {
    exists|i: int| 0 <= i < w.len() && w[i] == '-'
}

/// Fold a group of hyphen-free words; `inc` records a trailing connector.
pub open spec fn group_rec(parts: Seq<Seq<char>>, v: DsView, inc: bool) -> Result<
    (DsView, bool),
    ComposeError,
>
    decreases parts.len(),
{
    if parts.len() == 0 {
        Ok((v, inc))
    } else {
        let so = step_spec(parts[0], v);
        match so.r {
            Ok(u) => group_rec(parts.drop_first(), so.v, false),
            Err(e) => if e is Incomplete {
                group_rec(parts.drop_first(), so.v, true)
            } else {
                Err(e)
            },
        }
    }
}

/// A whole group (the pieces of one compound word) as all or nothing.
pub open spec fn group_spec(parts: Seq<Seq<char>>) -> Result<DsView, ComposeError> {
    match group_rec(parts, empty_view(), false) {
        Ok(p) => if p.1 {
            Err(ComposeError::Incomplete)
        } else {
            Ok(p.0)
        },
        Err(e) => Err(e),
    }
}

/// A compound word ("twenty-three") applied to the composition state.
pub open spec fn compound_spec(w: Seq<char>, v: DsView) -> StepOut {
    match group_spec(split_hyphens(w)) {
        Err(e) => StepOut { r: Err(e), v },
        Ok(inner) => if 3 < inner.slen() && inner.slen() <= 6 && !range_free(v.digits, 3, 5) {
            StepOut { r: Err(ComposeError::Overlap), v }
        } else {
            let so = view_put(v, inner.digits);
            if so.r is Ok && inner.marker is Ordinal {
                StepOut { r: so.r, v: DsView { marker: inner.marker, frozen: true, ..so.v } }
            } else {
                so
            }
        },
    }
}

/// Any one English number word (simple or compound) applied to the state.
pub open spec fn apply_spec(w: Seq<char>, v: DsView) -> StepOut {
    if has_hyphen(w) {
        compound_spec(w, v)
    } else {
        step_spec(w, v)
    }
}

/// Fold a sequence of whitespace-separated words with the full word rule.
pub open spec fn words_rec(words: Seq<Seq<char>>, v: DsView, inc: bool) -> Result<
    (DsView, bool),
    ComposeError,
>
    decreases words.len(),
{
    if words.len() == 0 {
        Ok((v, inc))
    } else {
        let so = apply_spec(words[0], v);
        match so.r {
            Ok(u) => words_rec(words.drop_first(), so.v, false),
            Err(e) => if e is Incomplete {
                words_rec(words.drop_first(), so.v, true)
            } else {
                Err(e)
            },
        }
    }
}

/// A whole phrase, one number or nothing.
pub open spec fn phrase_spec(words: Seq<Seq<char>>) -> Result<DsView, ComposeError> {
    match words_rec(words, empty_view(), false) {
        Ok(p) => if p.1 {
            Err(ComposeError::Incomplete)
        } else {
            Ok(p.0)
        },
        Err(e) => Err(e),
    }
}

// ------------------------------------------------------------------
// executable grammar
// ------------------------------------------------------------------

fn ends_with_lit(w: &Vec<char>, s: &str) -> (r: bool)
    ensures
        r == ends_with(w@, s@),
{
    let n = s.unicode_len();
    if w.len() < n {
        return false;
    }
    let base = w.len() - n;
    let mut i: usize = 0;
    while i < n
        invariant
            i <= n,
            n == s@.len(),
            n <= w@.len(),
            w@.len() <= usize::MAX,
            base == w@.len() - n,
            forall|j: int| 0 <= j < i ==> w@[base + j] == s@[j],
        decreases n - i,
    {
        proof {
            assert(base + i < w@.len());
        }
        if w[base + i] != s.get_char(i) {
            proof {
                let suf = w@.subrange(w@.len() - s@.len(), w@.len() as int);
                assert(suf[i as int] == w@[base + i]);
            }
            return false;
        }
        i = i + 1;
    }
    proof {
        let suf = w@.subrange(w@.len() - s@.len(), w@.len() as int);
        assert forall|j: int| 0 <= j < suf.len() implies suf[j] == s@[j] by {
            assert(suf[j] == w@[base + j]);
        }
        assert(suf =~= s@);
    }
    true
}

proof fn lemma_strip_s_prefix(w: Seq<char>, k: nat)
    requires
        k <= w.len(),
        forall|j: int| w.len() - k <= j < w.len() ==> w[j] == 's',
        k == w.len() || w[w.len() - k - 1] != 's',
    ensures
        strip_s(w) == w.subrange(0, (w.len() - k) as int),
    decreases k,
{
    if k == 0 {
        assert(w.subrange(0, w.len() as int) =~= w);
    } else {
        assert(w.last() == 's');
        let w2 = w.drop_last();
        assert forall|j: int| w2.len() - (k - 1) <= j < w2.len() implies w2[j] == 's' by {
            assert(w2[j] == w[j]);
        }
        lemma_strip_s_prefix(w2, (k - 1) as nat);
        assert(w2.subrange(0, (w2.len() - (k - 1)) as int) =~= w.subrange(
            0,
            (w.len() - k) as int,
        ));
    }
}

/// The word with every trailing 's' removed.
fn strip_trailing_s(w: &Vec<char>) -> (r: Vec<char>)
    ensures
        r@ == strip_s(w@),
{
    let mut k: usize = 0;
    while k < w.len() && w[w.len() - 1 - k] == 's'
        invariant
            k <= w@.len(),
            forall|j: int| w@.len() - k <= j < w@.len() ==> w@[j] == 's',
        decreases w@.len() - k,
    {
        k = k + 1;
    }
    proof {
        lemma_strip_s_prefix(w@, k as nat);
    }
    let stop = w.len() - k;
    let mut r: Vec<char> = Vec::new();
    let mut i: usize = 0;
    while i < stop
        invariant
            i <= stop,
            stop <= w@.len(),
            r@ == w@.subrange(0, i as int),
        decreases stop - i,
    {
        r.push(w[i]);
        i = i + 1;
        proof {
            assert(r@ =~= w@.subrange(0, i as int));
        }
    }
    r
}

/// Copy of a character vector.
fn copy_chars(w: &Vec<char>) -> (r: Vec<char>)
    ensures
        r@ == w@,
{
    let mut r: Vec<char> = Vec::new();
    let mut i: usize = 0;
    while i < w.len()
        invariant
            i <= w@.len(),
            r@ == w@.subrange(0, i as int),
        decreases w@.len() - i,
    {
        r.push(w[i]);
        i = i + 1;
        proof {
            assert(r@ =~= w@.subrange(0, i as int));
        }
    }
    proof {
        assert(r@ =~= w@);
    }
    r
}

/// Lemmatize an English word as the vocabulary expects it.
pub fn lemmatize_word(w: &Vec<char>) -> (r: Vec<char>)
    ensures
        r@ == lemma_of(w@),
{
    if w.len() > 0 && w[w.len() - 1] == 's' && !eq_str(w, "seconds") {
        strip_trailing_s(w)
    } else {
        copy_chars(w)
    }
}

/// Look a lemmatized word up in the vocabulary.
#[verifier::rlimit(30)]
pub fn action_of_word(w: &Vec<char>) -> (r: Action)
    ensures
        r == word_action(w@),
{
    if eq_str(w, "zero") || eq_str(w, "o") || eq_str(w, "nought") { Action::Zero }
    else if eq_str(w, "one") || eq_str(w, "first") || eq_str(w, "oneth") { Action::Unit(1) }
    else if eq_str(w, "two") || eq_str(w, "second") { Action::Unit(2) }
    else if eq_str(w, "three") || eq_str(w, "third") { Action::Unit(3) }
    else if eq_str(w, "four") || eq_str(w, "fourth") { Action::Unit(4) }
    else if eq_str(w, "five") || eq_str(w, "fifth") { Action::Unit(5) }
    else if eq_str(w, "six") || eq_str(w, "sixth") { Action::Unit(6) }
    else if eq_str(w, "seven") || eq_str(w, "seventh") { Action::Unit(7) }
    else if eq_str(w, "eight") || eq_str(w, "eighth") { Action::Unit(8) }
    else if eq_str(w, "nine") || eq_str(w, "ninth") { Action::Unit(9) }
    else if eq_str(w, "ten") || eq_str(w, "tenth") { Action::Teen(0) }
    else if eq_str(w, "eleven") || eq_str(w, "eleventh") { Action::Teen(1) }
    else if eq_str(w, "twelve") || eq_str(w, "twelfth") { Action::Teen(2) }
    else if eq_str(w, "thirteen") || eq_str(w, "thirteenth") { Action::Teen(3) }
    else if eq_str(w, "fourteen") || eq_str(w, "fourteenth") { Action::Teen(4) }
    else if eq_str(w, "fifteen") || eq_str(w, "fifteenth") { Action::Teen(5) }
    else if eq_str(w, "sixteen") || eq_str(w, "sixteenth") { Action::Teen(6) }
    else if eq_str(w, "seventeen") || eq_str(w, "seventeenth") { Action::Teen(7) }
    else if eq_str(w, "eighteen") || eq_str(w, "eighteenth") { Action::Teen(8) }
    else if eq_str(w, "nineteen") || eq_str(w, "nineteenth") { Action::Teen(9) }
    else if eq_str(w, "twenty") || eq_str(w, "twentieth") { Action::Ten(2) }
    else if eq_str(w, "thirty") || eq_str(w, "thirtieth") { Action::Ten(3) }
    else if eq_str(w, "forty") || eq_str(w, "fourty") || eq_str(w, "fortieth") || eq_str(
        w,
        "fourtieth",
    ) { Action::Ten(4) }
    else if eq_str(w, "fifty") || eq_str(w, "fiftieth") { Action::Ten(5) }
    else if eq_str(w, "sixty") || eq_str(w, "sixtieth") { Action::Ten(6) }
    else if eq_str(w, "seventy") || eq_str(w, "seventieth") { Action::Ten(7) }
    else if eq_str(w, "eighty") || eq_str(w, "eightieth") { Action::Ten(8) }
    else if eq_str(w, "ninety") || eq_str(w, "ninetieth") { Action::Ten(9) }
    else if eq_str(w, "hundred") || eq_str(w, "hundredth") { Action::Hundred }
    else if eq_str(w, "thousand") || eq_str(w, "thousandth") { Action::Thousand }
    else if eq_str(w, "million") || eq_str(w, "millionth") { Action::Million }
    else if eq_str(w, "billion") || eq_str(w, "billionth") { Action::Billion }
    else if eq_str(w, "and") { Action::And }
    else { Action::Unknown }
}

/// The ordinal marker a word carries on its digit form.
fn morph_of(w: &Vec<char>) -> (r: Marker)
    ensures
        r == morph_marker(w@),
{
    if ends_with_lit(w, "th") { Marker::Ordinal(Suffix::Th) }
    else if ends_with_lit(w, "ths") { Marker::Ordinal(Suffix::Ths) }
    else if eq_str(w, "first") { Marker::Ordinal(Suffix::St) }
    else if eq_str(w, "second") { Marker::Ordinal(Suffix::Nd) }
    else if eq_str(w, "third") { Marker::Ordinal(Suffix::Rd) }
    else if eq_str(w, "thirds") { Marker::Ordinal(Suffix::Rds) }
    else { Marker::Cardinal }
}

/// The digits an action carries are in the decimal range.
pub open spec fn action_wf(a: Action) -> bool {
    match a {
        Action::Unit(d) => 1 <= d <= 9,
        Action::Teen(d) => d <= 9,
        Action::Ten(t) => 2 <= t <= 9,
        _ => true,
    }
}

/// Run one vocabulary action on the buffer.
#[verifier::rlimit(50)]
fn apply_action(act: Action, ds: &mut DigitString) -> (r: Result<(), ComposeError>)
    requires
        old(ds).wf(),
        action_wf(act),
    ensures
        final(ds).wf(),
        act_step(act, old(ds)@) == (StepOut { r, v: final(ds)@ }),
        r is Err ==> *final(ds) == *old(ds),
{
    match act {
        Action::Zero => {
            let mut d: Vec<u8> = Vec::new();
            d.push(0);
            proof {
                assert(d@ =~= seq![0u8]);
            }
            ds.put(&d)
        },
        Action::Unit(u) => {
            if ds.ends_in_ten() {
                Err(ComposeError::NotANumber)
            } else {
                let mut d: Vec<u8> = Vec::new();
                d.push(u);
                proof {
                    assert(d@ =~= seq![u]);
                }
                ds.put(&d)
            }
        },
        Action::Teen(u) => {
            let mut d: Vec<u8> = Vec::new();
            d.push(1);
            d.push(u);
            proof {
                assert(d@ =~= seq![1u8, u]);
            }
            ds.put(&d)
        },
        Action::Ten(t) => {
            let mut d: Vec<u8> = Vec::new();
            d.push(t);
            d.push(0);
            proof {
                assert(d@ =~= seq![t, 0u8]);
            }
            ds.put(&d)
        },
        Action::Hundred => {
            if ds.ends_in_double_zero() {
                Err(ComposeError::Overlap)
            } else {
                ds.shift(2)
            }
        },
        Action::Thousand => {
            if ds.is_range_free(3, 5) {
                ds.shift(3)
            } else {
                Err(ComposeError::NotANumber)
            }
        },
        Action::Million => {
            if ds.is_range_free(6, 8) {
                ds.shift(6)
            } else {
                Err(ComposeError::NotANumber)
            }
        },
        Action::Billion => ds.shift(9),
        Action::And => {
            if ds.len_ge(2) {
                Err(ComposeError::Incomplete)
            } else {
                Err(ComposeError::NotANumber)
            }
        },
        Action::Unknown => Err(ComposeError::NotANumber),
    }
}

/// Apply one hyphen-free English number word to the buffer.
pub fn apply_simple(w: &Vec<char>, ds: &mut DigitString) -> (r: Result<(), ComposeError>)
    requires
        old(ds).wf(),
    ensures
        final(ds).wf(),
        step_spec(w@, old(ds)@) == (StepOut { r, v: final(ds)@ }),
        r is Err ==> *final(ds) == *old(ds),
{
    let lemma = lemmatize_word(w);
    let act = action_of_word(&lemma);
    proof {
        assert(action_wf(act));
    }
    let r = apply_action(act, ds);
    if r.is_ok() {
        let closing = ends_with_lit(&lemma, "th") || eq_str(w, "first") || eq_str(w, "second")
            || eq_str(&lemma, "third");
        if closing {
            let m = morph_of(w);
            ds.set_marker(m);
            ds.freeze();
        }
    }
    r
}

/// Fold the pieces of one compound word into a fresh buffer.
fn exec_group(parts: &Vec<Vec<char>>, Ghost(pviews): Ghost<Seq<Seq<char>>>) -> (r: Result<
    DigitString,
    ComposeError,
>)
    requires
        pviews.len() == parts@.len(),
        forall|i: int| 0 <= i < parts@.len() ==> #[trigger] parts@[i]@ == pviews[i],
    ensures
        match group_spec(pviews) {
            Ok(v) => r is Ok && r->Ok_0@ == v && r->Ok_0.wf(),
            Err(e) => r == Err::<DigitString, ComposeError>(e),
        },
{
    let mut ds = DigitString::new();
    let mut inc = false;
    let mut i: usize = 0;
    proof {
        assert(ds@ == empty_view());
        assert(pviews.subrange(0, pviews.len() as int) =~= pviews);
    }
    while i < parts.len()
        invariant
            i <= parts@.len(),
            pviews.len() == parts@.len(),
            forall|j: int| 0 <= j < parts@.len() ==> #[trigger] parts@[j]@ == pviews[j],
            ds.wf(),
            group_rec(pviews, empty_view(), false) == group_rec(
                pviews.subrange(i as int, pviews.len() as int),
                ds@,
                inc,
            ),
        decreases parts@.len() - i,
    {
        let ghost rest = pviews.subrange(i as int, pviews.len() as int);
        let r = apply_simple(&parts[i], &mut ds);
        proof {
            assert(rest[0] == pviews[i as int]);
            assert(rest.drop_first() =~= pviews.subrange(i + 1, pviews.len() as int));
        }
        match r {
            Ok(_) => {
                inc = false;
            },
            Err(e) => {
                if matches!(e, ComposeError::Incomplete) {
                    inc = true;
                } else {
                    return Err(e);
                }
            },
        }
        i = i + 1;
    }
    proof {
        assert(pviews.subrange(pviews.len() as int, pviews.len() as int) =~= Seq::empty());
    }
    if inc {
        Err(ComposeError::Incomplete)
    } else {
        Ok(ds)
    }
}

/// Split a word on its hyphens, keeping empty pieces.
fn split_on_hyphens(w: &Vec<char>) -> (r: Vec<Vec<char>>)
    ensures
        r@.len() >= 1,
        r@.map_values(|p: Vec<char>| p@) == split_hyphens(w@),
{
    let mut done: Vec<Vec<char>> = Vec::new();
    let mut cur: Vec<char> = Vec::new();
    let mut i: usize = 0;
    proof {
        assert(done@.map_values(|p: Vec<char>| p@) =~= Seq::<Seq<char>>::empty());
        assert(w@.subrange(0, w@.len() as int) =~= w@);
        assert(Seq::<Seq<char>>::empty() + split_h_acc(w@, Seq::empty()) =~= split_h_acc(
            w@,
            Seq::empty(),
        ));
    }
    while i < w.len()
        invariant
            i <= w@.len(),
            split_hyphens(w@) == done@.map_values(|p: Vec<char>| p@) + split_h_acc(
                w@.subrange(i as int, w@.len() as int),
                cur@,
            ),
        decreases w@.len() - i,
    {
        let ghost rest = w@.subrange(i as int, w@.len() as int);
        proof {
            assert(rest[0] == w@[i as int]);
            assert(rest.drop_first() =~= w@.subrange(i + 1, w@.len() as int));
        }
        if w[i] == '-' {
            let ghost dv = done@.map_values(|p: Vec<char>| p@);
            done.push(cur);
            cur = Vec::new();
            proof {
                assert(done@.map_values(|p: Vec<char>| p@) =~= dv.push(done@.last()@));
                assert(dv + (seq![done@.last()@] + split_h_acc(
                    w@.subrange(i + 1, w@.len() as int),
                    Seq::empty(),
                )) =~= (dv.push(done@.last()@)) + split_h_acc(
                    w@.subrange(i + 1, w@.len() as int),
                    Seq::empty(),
                ));
            }
        } else {
            cur.push(w[i]);
        }
        i = i + 1;
    }
    proof {
        assert(w@.subrange(w@.len() as int, w@.len() as int) =~= Seq::<char>::empty());
    }
    let ghost dv = done@.map_values(|p: Vec<char>| p@);
    done.push(cur);
    proof {
        assert(done@.map_values(|p: Vec<char>| p@) =~= dv + seq![done@.last()@]);
    }
    done
}

/// Does the word contain a hyphen?
fn contains_hyphen(w: &Vec<char>) -> (r: bool)
    ensures
        r == has_hyphen(w@),
{
    let mut i: usize = 0;
    while i < w.len()
        invariant
            i <= w@.len(),
            forall|j: int| 0 <= j < i ==> w@[j] != '-',
        decreases w@.len() - i,
    {
        if w[i] == '-' {
            return true;
        }
        i = i + 1;
    }
    false
}

/// Apply one English number word, simple or compound, to the buffer.
#[verifier::rlimit(100)]
pub fn apply(w: &Vec<char>, ds: &mut DigitString) -> (r: Result<(), ComposeError>)
    requires
        old(ds).wf(),
    ensures
        final(ds).wf(),
        apply_spec(w@, old(ds)@) == (StepOut { r, v: final(ds)@ }),
        r is Err ==> *final(ds) == *old(ds),
{
    if !contains_hyphen(w) {
        return apply_simple(w, ds);
    }
    let parts = split_on_hyphens(w);
    let ghost pviews = parts@.map_values(|p: Vec<char>| p@);
    proof {
        assert(forall|i: int| 0 <= i < parts@.len() ==> #[trigger] parts@[i]@ == pviews[i]);
    }
    let inner = match exec_group(&parts, Ghost(pviews)) {
        Ok(d) => d,
        Err(e) => {
            return Err(e);
        },
    };
    if inner.len_ge(4) && !inner.len_ge(7) && !ds.is_range_free(3, 5) {
        return Err(ComposeError::Overlap);
    }
    let r = if inner.digits.len() == 0 {
        if ds.frozen {
            Err(ComposeError::Frozen)
        } else {
            proof {
                assert(crate::digits::put_result(ds@.digits, ds@.zeros, inner@.digits)
                    is None);
            }
            Err(ComposeError::Overlap)
        }
    } else {
        ds.put(&inner.digits)
    };
    if r.is_ok() && inner.is_ordinal() {
        ds.set_marker(inner.marker);
        ds.freeze();
    }
    r
}

/// Fold a whole phrase of words into a fresh buffer, all or nothing.
pub fn exec_phrase(words: &Vec<Vec<char>>, Ghost(wviews): Ghost<Seq<Seq<char>>>) -> (r: Result<
    DigitString,
    ComposeError,
>)
    requires
        wviews.len() == words@.len(),
        forall|i: int| 0 <= i < words@.len() ==> #[trigger] words@[i]@ == wviews[i],
    ensures
        match phrase_spec(wviews) {
            Ok(v) => r is Ok && r->Ok_0@ == v && r->Ok_0.wf(),
            Err(e) => r == Err::<DigitString, ComposeError>(e),
        },
{
    let mut ds = DigitString::new();
    let mut inc = false;
    let mut i: usize = 0;
    proof {
        assert(ds@ == empty_view());
        assert(wviews.subrange(0, wviews.len() as int) =~= wviews);
    }
    while i < words.len()
        invariant
            i <= words@.len(),
            wviews.len() == words@.len(),
            forall|j: int| 0 <= j < words@.len() ==> #[trigger] words@[j]@ == wviews[j],
            ds.wf(),
            words_rec(wviews, empty_view(), false) == words_rec(
                wviews.subrange(i as int, wviews.len() as int),
                ds@,
                inc,
            ),
        decreases words@.len() - i,
    {
        let ghost rest = wviews.subrange(i as int, wviews.len() as int);
        let r = apply(&words[i], &mut ds);
        proof {
            assert(rest[0] == wviews[i as int]);
            assert(rest.drop_first() =~= wviews.subrange(i + 1, wviews.len() as int));
        }
        match r {
            Ok(_) => {
                inc = false;
            },
            Err(e) => {
                if matches!(e, ComposeError::Incomplete) {
                    inc = true;
                } else {
                    return Err(e);
                }
            },
        }
        i = i + 1;
    }
    proof {
        assert(wviews.subrange(wviews.len() as int, wviews.len() as int) =~= Seq::empty());
    }
    if inc {
        Err(ComposeError::Incomplete)
    } else {
        Ok(ds)
    }
}

} // verus!
