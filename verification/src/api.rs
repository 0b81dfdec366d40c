//! The public operations: language registry, whole-string composition and
//! number search in a token stream.

use vstd::prelude::*;

use crate::digits::{pow10, value_of, lemma_value_bound, lemma_pow10_mono};
use crate::english::{phrase_spec};
use crate::error::Error;
use crate::scan::{ScanTok, TokView, occs_ordered, scan, scan_spec};
use crate::strutil::{chars_of, eq_str, is_space, lower_chars, lower_seq, push_chars, string_of};

verus! {

/// A supported language's grammar, resolved from its identifier.
pub enum Language {
    English,
}

/// The language identifiers the registry knows.
pub open spec fn supported_lang(code: Seq<char>) -> bool {
    code == "en"@
}

/// Resolve a language identifier; unknown identifiers are an error, never a
/// fallback to a default grammar. English ("en") is the one grammar the
/// registry holds.
pub fn get_interpreter(lang: &str) -> (r: Result<Language, Error>)
    ensures
        r is Ok <==> supported_lang(lang@),
        !supported_lang(lang@) ==> (r matches Err(e) && e matches Error::UnsupportedLanguage(l)
            && l@ == lang@),
        supported_lang(lang@) ==> r == Ok::<Language, Error>(Language::English),
{
    let c = chars_of(lang);
    if eq_str(&c, "en") {
        Ok(Language::English)
    } else {
        Err(Error::UnsupportedLanguage(String::from_str(lang)))
    }
}

/// Split on ASCII whitespace, dropping empty pieces.
pub open spec fn split_ws_acc(w: Seq<char>, cur: Seq<char>) -> Seq<Seq<char>>
    decreases w.len(),
{
    if w.len() == 0 {
        if cur.len() == 0 {
            Seq::empty()
        } else {
            seq![cur]
        }
    } else if is_space(w[0]) {
        (if cur.len() == 0 {
            Seq::<Seq<char>>::empty()
        } else {
            seq![cur]
        }) + split_ws_acc(w.drop_first(), Seq::empty())
    } else {
        split_ws_acc(w.drop_first(), cur.push(w[0]))
    }
}

pub open spec fn split_ws(w: Seq<char>) -> Seq<Seq<char>> {
    split_ws_acc(w, Seq::empty())
}

/// Split a character sequence into whitespace-separated words.
fn split_on_ws(w: &Vec<char>) -> (r: Vec<Vec<char>>)
    ensures
        r@.map_values(|p: Vec<char>| p@) == split_ws(w@),
{
    let mut done: Vec<Vec<char>> = Vec::new();
    let mut cur: Vec<char> = Vec::new();
    let mut i: usize = 0;
    proof {
        assert(done@.map_values(|p: Vec<char>| p@) =~= Seq::<Seq<char>>::empty());
        assert(w@.subrange(0, w@.len() as int) =~= w@);
        assert(Seq::<Seq<char>>::empty() + split_ws_acc(w@, Seq::empty()) =~= split_ws_acc(
            w@,
            Seq::empty(),
        ));
    }
    while i < w.len()
        invariant
            i <= w@.len(),
            split_ws(w@) == done@.map_values(|p: Vec<char>| p@) + split_ws_acc(
                w@.subrange(i as int, w@.len() as int),
                cur@,
            ),
        decreases w@.len() - i,
    {
        let ghost rest = w@.subrange(i as int, w@.len() as int);
        proof {
            assert(rest[0] == w@[i as int]);
            assert(rest.drop_first() =~= w@.subrange(i + 1, w@.len() as int));
        }
        if crate::strutil::exec_is_space(w[i]) {
            if cur.len() > 0 {
                let ghost dv = done@.map_values(|p: Vec<char>| p@);
                done.push(cur);
                cur = Vec::new();
                proof {
                    assert(done@.map_values(|p: Vec<char>| p@) =~= dv.push(done@.last()@));
                    assert(dv + (seq![done@.last()@] + split_ws_acc(
                        w@.subrange(i + 1, w@.len() as int),
                        Seq::empty(),
                    )) =~= (dv.push(done@.last()@)) + split_ws_acc(
                        w@.subrange(i + 1, w@.len() as int),
                        Seq::empty(),
                    ));
                }
            } else {
                proof {
                    assert(cur@ =~= Seq::<char>::empty());
                    assert(Seq::<Seq<char>>::empty() + split_ws_acc(
                        w@.subrange(i + 1, w@.len() as int),
                        Seq::empty(),
                    ) =~= split_ws_acc(w@.subrange(i + 1, w@.len() as int), Seq::empty()));
                }
            }
        } else {
            cur.push(w[i]);
        }
        i = i + 1;
    }
    proof {
        assert(w@.subrange(w@.len() as int, w@.len() as int) =~= Seq::<char>::empty());
    }
    if cur.len() > 0 {
        let ghost dv = done@.map_values(|p: Vec<char>| p@);
        done.push(cur);
        proof {
            assert(done@.map_values(|p: Vec<char>| p@) =~= dv + seq![done@.last()@]);
        }
    } else {
        proof {
            assert(done@.map_values(|p: Vec<char>| p@) + Seq::<Seq<char>>::empty()
                =~= done@.map_values(|p: Vec<char>| p@));
        }
    }
    done
}

/// Convert a whole string, which must spell exactly one number, to its value.
///
/// The input is lower-cased, split on whitespace and composed under the
/// language's grammar; any residue, ordinal form or empty input is an
/// invalid literal.
pub fn text_to_num(text: &str, lang: &str) -> (r: Result<i64, Error>)
    ensures
        !supported_lang(lang@) ==> (r matches Err(e) && e matches Error::UnsupportedLanguage(l)
            && l@ == lang@),
        supported_lang(lang@) ==> match phrase_spec(split_ws(lower_seq(text@))) {
            Ok(v) => if v.marker is Ordinal || (v.digits.len() == 0 && v.zeros == 0) {
                r matches Err(e) && e matches Error::InvalidNumberLiteral(t) && t@ == text@
            } else {
                r == Ok::<i64, Error>(value_of(v.digits) as i64)
            },
            Err(e) => (r matches Err(e2) && e2 matches Error::InvalidNumberLiteral(t) && t@
                == text@),
        },
{
    let interp = get_interpreter(lang);
    if interp.is_err() {
        return Err(Error::UnsupportedLanguage(String::from_str(lang)));
    }
    let c = chars_of(text);
    let lc = lower_chars(&c);
    let words = split_on_ws(&lc);
    let ghost wviews = words@.map_values(|p: Vec<char>| p@);
    proof {
        assert(forall|i: int| 0 <= i < words@.len() ==> #[trigger] words@[i]@ == wviews[i]);
    }
    let ds = match crate::english::exec_phrase(&words, Ghost(wviews)) {
        Ok(d) => d,
        Err(_) => {
            return Err(Error::InvalidNumberLiteral(String::from_str(text)));
        },
    };
    if ds.is_ordinal() {
        return Err(Error::InvalidNumberLiteral(String::from_str(text)));
    }
    if ds.is_empty() {
        return Err(Error::InvalidNumberLiteral(String::from_str(text)));
    }
    let v = ds.value();
    proof {
        lemma_value_bound(ds@.digits);
        lemma_pow10_mono(ds@.digits.len(), 18nat);
        reveal_with_fuel(pow10, 19);
        assert(pow10(18) == 1_000_000_000_000_000_000);
    }
    Ok(v as i64)
}

/// A token handed in by the caller's tokenizer, reduced to the capabilities
/// the engine reads: its text, its lower-cased text, whether it can never be
/// part of a number, and whether a sentence boundary separates it from the
/// token before it.
pub struct InputToken {
    pub text: String,
    pub lowercase: String,
    pub not_a_number_part: bool,
    pub nt_separated: bool,
}

impl InputToken {
    /// Build a token from its text, caching the lower-cased form the
    /// grammar matches against.
    pub fn new(text: String, not_a_number_part: bool, nt_separated: bool) -> (r: InputToken)
        ensures
            r.text@ == text@,
            r.lowercase@ == lower_seq(text@),
            r.not_a_number_part == not_a_number_part,
            r.nt_separated == nt_separated,
    {
        let tc = chars_of(text.as_str());
        let lc = lower_chars(&tc);
        let lowercase = string_of(&lc);
        InputToken { text, lowercase, not_a_number_part, nt_separated }
    }
}

/// A number found in a token stream; it can span several adjacent tokens.
pub struct NumOccurence {
    /// Offset in the sequence of tokens where the number starts.
    pub start: usize,
    /// Offset in the sequence of tokens where the number ends (exclusive).
    pub end: usize,
    /// The composed value of the number.
    pub value: u64,
    /// The original phrase, its tokens joined with single spaces.
    pub text: String,
    /// The digit form of the number, ordinal suffix included.
    pub digits: String,
    /// Did the phrase use an ordinal form?
    pub is_ordinal: bool,
}

impl NumOccurence {
    /// Offset in the sequence of tokens where the number starts.
    pub fn start(&self) -> (r: usize)
        ensures
            r == self.start,
    {
        self.start
    }

    /// Offset in the sequence of tokens where the number ends.
    pub fn end(&self) -> (r: usize)
        ensures
            r == self.end,
    {
        self.end
    }

    /// The value of the number.
    pub fn value(&self) -> (r: u64)
        ensures
            r == self.value,
    {
        self.value
    }

    /// The text representation of the number phrase.
    pub fn text(&self) -> (r: &str)
        ensures
            r@ == self.text@,
    {
        self.text.as_str()
    }

    /// The digit form the phrase converts to.
    pub fn digits(&self) -> (r: &str)
        ensures
            r@ == self.digits@,
    {
        self.digits.as_str()
    }

    /// Is this an ordinal?
    pub fn is_ordinal(&self) -> (r: bool)
        ensures
            r == self.is_ordinal,
    {
        self.is_ordinal
    }
}

/// Every character of the sequence is whitespace.
pub open spec fn all_space_seq(s: Seq<char>) -> bool {
    forall|j: int| 0 <= j < s.len() ==> is_space(#[trigger] s[j])
}

/// What the scanner reads of one caller-supplied token.
pub open spec fn in_tok_view(t: InputToken) -> TokView {
    TokView {
        lower: t.lowercase@,
        skip: t.text@ == "-"@ || all_space_seq(t.text@),
        nan: t.not_a_number_part,
        sep_before: t.nt_separated,
    }
}

/// The texts of tokens `s..e`, joined with single spaces.
pub open spec fn join_texts(toks: Seq<InputToken>, s: int, e: int) -> Seq<char>
    decreases e - s,
{
    if e <= s || e > toks.len() {
        Seq::empty()
    } else if e == s + 1 {
        toks[e - 1].text@
    } else {
        join_texts(toks, s, e - 1) + seq![' '] + toks[e - 1].text@
    }
}

/// Public occurrences are ordered, non-empty and non-overlapping.
pub open spec fn num_occs_ordered(s: Seq<NumOccurence>, n: nat) -> bool {
    (forall|i: int| 0 <= i < s.len() ==> s[i].start < #[trigger] s[i].end <= n) && (forall|i: int|
        0 <= i < s.len() - 1 ==> #[trigger] s[i].end <= s[i + 1].start)
}

/// Is every character of the token whitespace?
fn all_space(w: &Vec<char>) -> (r: bool)
    ensures
        r == (forall|j: int| 0 <= j < w@.len() ==> is_space(#[trigger] w@[j])),
{
    let mut i: usize = 0;
    while i < w.len()
        invariant
            i <= w@.len(),
            forall|j: int| 0 <= j < i ==> is_space(#[trigger] w@[j]),
        decreases w@.len() - i,
    {
        if !crate::strutil::exec_is_space(w[i]) {
            return false;
        }
        i = i + 1;
    }
    true
}

/// Find the numbers and their positions in a stream of tokens.
///
/// The returned occurrences are in ascending token order and never overlap.
#[verifier::rlimit(100)]
pub fn find_numbers(input: &Vec<InputToken>, lang: &str, threshold: u64) -> (r: Result<
    Vec<NumOccurence>,
    Error,
>)
    ensures
        r is Ok <==> supported_lang(lang@),
        !supported_lang(lang@) ==> (r matches Err(e) && e matches Error::UnsupportedLanguage(l)
            && l@ == lang@),
        r is Ok ==> num_occs_ordered(r->Ok_0@, input@.len()),
        r is Ok ==> ({
            let occs = scan_spec(
                input@.map_values(|t: InputToken| in_tok_view(t)),
                threshold as nat,
            );
            r->Ok_0@.len() == occs.len() && (forall|j: int| 0 <= j < occs.len()
                ==> (#[trigger] r->Ok_0@[j]).start == occs[j].start && r->Ok_0@[j].end
                == occs[j].end && r->Ok_0@[j].value as nat == occs[j].value
                && r->Ok_0@[j].is_ordinal == occs[j].is_ordinal && r->Ok_0@[j].digits@
                == occs[j].digits && r->Ok_0@[j].text@ == join_texts(
                input@,
                occs[j].start,
                occs[j].end,
            ))
        }),
{
    let interp = get_interpreter(lang);
    if interp.is_err() {
        return Err(Error::UnsupportedLanguage(String::from_str(lang)));
    }
    let mut toks: Vec<ScanTok> = Vec::new();
    let mut i: usize = 0;
    while i < input.len()
        invariant
            i <= input@.len(),
            toks@.len() == i,
            forall|k: int| 0 <= k < i ==> #[trigger] toks@[k]@ == in_tok_view(input@[k]),
        decreases input@.len() - i,
    {
        let tc = chars_of(input[i].text.as_str());
        let lower = chars_of(input[i].lowercase.as_str());
        let skip = eq_str(&tc, "-") || all_space(&tc);
        toks.push(
            ScanTok {
                lower,
                skip,
                nan: input[i].not_a_number_part,
                sep_before: input[i].nt_separated,
            },
        );
        i = i + 1;
        proof {
            assert(toks@.last()@ == in_tok_view(input@[i - 1]));
        }
    }
    proof {
        assert(toks@.map_values(|t: ScanTok| t@) =~= input@.map_values(
            |t: InputToken| in_tok_view(t),
        ));
    }
    let occs = scan(&toks, threshold);
    let mut out: Vec<NumOccurence> = Vec::new();
    let mut k: usize = 0;
    while k < occs.len()
        invariant
            k <= occs@.len(),
            out@.len() == k,
            toks@.len() == input@.len(),
            occs_ordered(occs@, input@.len() as nat),
            forall|j: int| 0 <= j < k ==> (#[trigger] out@[j]).start == occs@[j].start
                && out@[j].end == occs@[j].end,
            forall|j: int| 0 <= j < k ==> (#[trigger] out@[j]).value == occs@[j].value
                && out@[j].is_ordinal == occs@[j].is_ordinal && out@[j].digits@
                == occs@[j].digits@ && out@[j].text@ == join_texts(
                input@,
                occs@[j].start as int,
                occs@[j].end as int,
            ),
        decreases occs@.len() - k,
    {
        let start = occs[k].start;
        let end = occs[k].end;
        let mut text_chars: Vec<char> = Vec::new();
        let mut t: usize = start;
        proof {
            assert(text_chars@ =~= join_texts(input@, start as int, start as int));
        }
        while t < end
            invariant
                start <= t <= end,
                end <= input@.len(),
                text_chars@ == join_texts(input@, start as int, t as int),
            decreases end - t,
        {
            if t > start {
                text_chars.push(' ');
            }
            let tc = chars_of(input[t].text.as_str());
            push_chars(&mut text_chars, &tc);
            t = t + 1;
            proof {
                assert(text_chars@ =~= join_texts(input@, start as int, t as int));
            }
        }
        let occ = NumOccurence {
            start,
            end,
            value: occs[k].value,
            text: string_of(&text_chars),
            digits: string_of(&occs[k].digits),
            is_ordinal: occs[k].is_ordinal,
        };
        out.push(occ);
        k = k + 1;
        proof {
            assert(out@[k - 1].start == occs@[k - 1].start && out@[k - 1].end == occs@[
                k - 1].end);
            assert(out@[k - 1].text@ == join_texts(
                input@,
                occs@[k - 1].start as int,
                occs@[k - 1].end as int,
            ));
        }
    }
    proof {
        assert forall|j: int| 0 <= j < out@.len() implies out@[j].start < #[trigger] out@[j].end
            <= input@.len() by {
            let o = out@[j];
            assert(o.start == occs@[j].start && o.end == occs@[j].end);
            assert(occs@[j].start < occs@[j].end <= input@.len());
        }
        assert forall|j: int| 0 <= j < out@.len() - 1 implies #[trigger] out@[j].end <= out@[j
            + 1].start by {
            let o = out@[j];
            let o2 = out@[j + 1];
            assert(o.start == occs@[j].start && o.end == occs@[j].end);
            assert(o2.start == occs@[j + 1].start);
            assert(occs@[j].end <= occs@[j + 1].start);
        }
    }
    Ok(out)
}

} // verus!
