//! The text replacement engine: tokenize raw text, scan it for number
//! phrases, and rebuild it with those phrases in digit form.

use vstd::prelude::*;

use crate::api::{all_space_seq, supported_lang};
use crate::error::Error;
use crate::scan::{RawOcc, ScanTok, SpecOcc, TokView, occs_ordered, scan, scan_spec};
use crate::strutil::{
    chars_of, eq_str, exec_is_space, exec_is_word_part, exec_is_word_start, is_space,
    is_word_part, is_word_start, lower_chars, lower_seq, push_chars, string_of,
};

verus! {

/// One token of the raw text: a half-open character range.
pub struct Span {
    pub start: usize,
    pub end: usize,
}

/// Mathematical image of a text token.
pub struct SpanV {
    pub start: int,
    pub end: int,
}

impl View for Span {
    type V = SpanV;

    open spec fn view(&self) -> SpanV {
        SpanV { start: self.start as int, end: self.end as int }
    }
}

/// The spans tile the whole text: non-empty, adjacent, starting at zero.
pub open spec fn spans_tile(s: Seq<Span>, n: nat) -> bool {
    (forall|i: int| 0 <= i < s.len() ==> s[i].start < #[trigger] s[i].end <= n) && (forall|i: int|
        0 <= i < s.len() - 1 ==> #[trigger] s[i].end == s[i + 1].start) && (s.len() == 0 ==> n
        == 0) && (s.len() > 0 ==> s[0].start == 0 && s[s.len() - 1].end == n)
}

// ------------------------------------------------------------------
// tokenization, stated
// ------------------------------------------------------------------

/// End of the word that continues at `j`.
pub open spec fn word_end(c: Seq<char>, j: int) -> int
    decreases c.len() - j,
{
    if 0 <= j < c.len() && is_word_part(c[j]) {
        word_end(c, j + 1)
    } else {
        j
    }
}

/// End of the separator run that continues at `j`.
pub open spec fn sep_end(c: Seq<char>, j: int) -> int
    decreases c.len() - j,
{
    if 0 <= j < c.len() && !is_word_start(c[j]) {
        sep_end(c, j + 1)
    } else {
        j
    }
}

/// The tokens of the text from position `i` on: alternating words (letters
/// and digits, with inner hyphens and apostrophes) and separator runs.
pub open spec fn spans_from(c: Seq<char>, i: int) -> Seq<SpanV>
    decreases c.len() - i,
{
    if i < 0 || i >= c.len() {
        Seq::empty()
    } else {
        let j0 = if is_word_start(c[i]) {
            word_end(c, i + 1)
        } else {
            sep_end(c, i + 1)
        };
        let j = if j0 <= i {
            i + 1
        } else if j0 > c.len() {
            c.len() as int
        } else {
            j0
        };
        seq![SpanV { start: i, end: j }] + spans_from(c, j)
    }
}

proof fn lemma_word_end_bounds(c: Seq<char>, j: int)
    requires
        0 <= j <= c.len(),
    ensures
        j <= word_end(c, j) <= c.len(),
        j <= sep_end(c, j) <= c.len(),
    decreases c.len() - j,
{
    if j < c.len() {
        lemma_word_end_bounds(c, j + 1);
    }
}

/// What the scanner reads of one text token.
pub open spec fn span_tok(c: Seq<char>, sp: SpanV) -> TokView {
    let piece = c.subrange(sp.start, sp.end);
    TokView {
        lower: lower_seq(piece),
        skip: piece == "-"@ || all_space_seq(piece),
        nan: false,
        sep_before: false,
    }
}

/// The scanner's whole view of a raw text.
pub open spec fn span_toks(c: Seq<char>) -> Seq<TokView> {
    spans_from(c, 0).map_values(|sp: SpanV| span_tok(c, sp))
}

// ------------------------------------------------------------------
// rebuilding, stated
// ------------------------------------------------------------------

/// The rewritten text from token `ti` on: a token starting an occurrence is
/// replaced, with its whole span, by the occurrence's digit form; any other
/// token is copied from the source, character for character.
pub open spec fn rebuild_from(
    c: Seq<char>,
    spans: Seq<SpanV>,
    occs: Seq<SpecOcc>,
    ti: int,
    oi: int,
) -> Seq<char>
    decreases spans.len() - ti,
{
    if ti < 0 || ti >= spans.len() {
        Seq::empty()
    } else if 0 <= oi < occs.len() && occs[oi].start == ti {
        let nxt = if occs[oi].end <= ti {
            ti + 1
        } else if occs[oi].end > spans.len() {
            spans.len() as int
        } else {
            occs[oi].end
        };
        occs[oi].digits + rebuild_from(c, spans, occs, nxt, oi + 1)
    } else {
        c.subrange(spans[ti].start, spans[ti].end) + rebuild_from(c, spans, occs, ti + 1, oi)
    }
}

/// The whole rewriting, stated: tokenize, scan, rebuild.
pub open spec fn rewrite_spec(c: Seq<char>, threshold: nat) -> Seq<char> {
    rebuild_from(c, spans_from(c, 0), scan_spec(span_toks(c), threshold), 0, 0)
}

// ------------------------------------------------------------------
// executable engine
// ------------------------------------------------------------------

/// Split text into word and separator tokens, in place.
fn tokenize(c: &Vec<char>) -> (r: Vec<Span>)
    ensures
        spans_tile(r@, c@.len()),
        r@.map_values(|sp: Span| sp@) == spans_from(c@, 0),
{
    let n = c.len();
    let mut r: Vec<Span> = Vec::new();
    let mut i: usize = 0;
    proof {
        assert(r@.map_values(|sp: Span| sp@) =~= Seq::<SpanV>::empty());
        assert(Seq::<SpanV>::empty() + spans_from(c@, 0) =~= spans_from(c@, 0));
    }
    while i < n
        invariant
            i <= n,
            n == c@.len(),
            forall|k: int| 0 <= k < r@.len() ==> r@[k].start < #[trigger] r@[k].end <= i,
            forall|k: int| 0 <= k < r@.len() - 1 ==> #[trigger] r@[k].end == r@[k + 1].start,
            r@.len() == 0 ==> i == 0,
            r@.len() > 0 ==> r@[0].start == 0 && r@[r@.len() - 1].end == i,
            spans_from(c@, 0) == r@.map_values(|sp: Span| sp@) + spans_from(c@, i as int),
        decreases n - i,
    {
        let mut j = i + 1;
        if exec_is_word_start(c[i]) {
            while j < n && exec_is_word_part(c[j])
                invariant
                    i < j <= n,
                    n == c@.len(),
                    word_end(c@, i + 1) == word_end(c@, j as int),
                decreases n - j,
            {
                j = j + 1;
            }
            proof {
                assert(word_end(c@, j as int) == j);
            }
        } else {
            while j < n && !exec_is_word_start(c[j])
                invariant
                    i < j <= n,
                    n == c@.len(),
                    sep_end(c@, i + 1) == sep_end(c@, j as int),
                decreases n - j,
            {
                j = j + 1;
            }
            proof {
                assert(sep_end(c@, j as int) == j);
            }
        }
        let ghost before = r@.map_values(|sp: Span| sp@);
        r.push(Span { start: i, end: j });
        proof {
            assert(spans_from(c@, i as int) == seq![SpanV { start: i as int, end: j as int }]
                + spans_from(c@, j as int));
            assert(r@.map_values(|sp: Span| sp@) =~= before.push(r@.last()@));
            assert(before + (seq![SpanV { start: i as int, end: j as int }] + spans_from(
                c@,
                j as int,
            )) =~= (before.push(SpanV { start: i as int, end: j as int })) + spans_from(
                c@,
                j as int,
            ));
        }
        i = j;
    }
    r
}

/// Copy the characters of a span out of the text.
fn slice_chars(c: &Vec<char>, start: usize, end: usize) -> (r: Vec<char>)
    requires
        start <= end <= c@.len(),
    ensures
        r@ == c@.subrange(start as int, end as int),
{
    let mut r: Vec<char> = Vec::new();
    let mut i = start;
    while i < end
        invariant
            start <= i <= end,
            end <= c@.len(),
            r@ == c@.subrange(start as int, i as int),
        decreases end - i,
    {
        r.push(c[i]);
        i = i + 1;
        proof {
            assert(r@ =~= c@.subrange(start as int, i as int));
        }
    }
    r
}

/// Rebuild the text: tokens outside any occurrence are copied verbatim,
/// tokens inside one are dropped and replaced once by its digit form.
fn rebuild(c: &Vec<char>, spans: &Vec<Span>, occs: &Vec<RawOcc>) -> (out: Vec<char>)
    requires
        spans_tile(spans@, c@.len()),
        occs_ordered(occs@, spans@.len()),
    ensures
        out@ == rebuild_from(
            c@,
            spans@.map_values(|sp: Span| sp@),
            occs@.map_values(|o: RawOcc| o@),
            0,
            0,
        ),
        occs@.len() == 0 ==> out@ == c@,
{
    let ghost spansv = spans@.map_values(|sp: Span| sp@);
    let ghost occsv = occs@.map_values(|o: RawOcc| o@);
    let mut out: Vec<char> = Vec::new();
    let mut oi: usize = 0;
    let mut ti: usize = 0;
    proof {
        assert(Seq::<char>::empty() + rebuild_from(c@, spansv, occsv, 0, 0) =~= rebuild_from(
            c@,
            spansv,
            occsv,
            0,
            0,
        ));
    }
    while ti < spans.len()
        invariant
            ti <= spans@.len(),
            oi <= occs@.len(),
            spans_tile(spans@, c@.len()),
            occs_ordered(occs@, spans@.len()),
            spansv == spans@.map_values(|sp: Span| sp@),
            occsv == occs@.map_values(|o: RawOcc| o@),
            oi < occs@.len() ==> ti <= occs@[oi as int].start,
            rebuild_from(c@, spansv, occsv, 0, 0) == out@ + rebuild_from(
                c@,
                spansv,
                occsv,
                ti as int,
                oi as int,
            ),
            occs@.len() == 0 ==> out@ == c@.subrange(
                0,
                if ti < spans@.len() { spans@[ti as int].start as int } else { c@.len() as int },
            ),
        decreases spans@.len() - ti,
    {
        let ghost tail = rebuild_from(c@, spansv, occsv, ti as int, oi as int);
        if oi < occs.len() && ti == occs[oi].start {
            proof {
                assert(occsv[oi as int] == occs@[oi as int]@);
                assert(occs@[oi as int].start < occs@[oi as int].end <= spans@.len());
                assert(tail == occsv[oi as int].digits + rebuild_from(
                    c@,
                    spansv,
                    occsv,
                    occs@[oi as int].end as int,
                    oi + 1,
                ));
            }
            push_chars(&mut out, &occs[oi].digits);
            ti = occs[oi].end;
            oi = oi + 1;
            proof {
                assert(rebuild_from(c@, spansv, occsv, 0, 0) =~= out@ + rebuild_from(
                    c@,
                    spansv,
                    occsv,
                    ti as int,
                    oi as int,
                ));
            }
        } else {
            proof {
                assert(spansv[ti as int] == spans@[ti as int]@);
                assert(tail == c@.subrange(
                    spans@[ti as int].start as int,
                    spans@[ti as int].end as int,
                ) + rebuild_from(c@, spansv, occsv, ti + 1, oi as int));
            }
            let piece = slice_chars(c, spans[ti].start, spans[ti].end);
            push_chars(&mut out, &piece);
            proof {
                if occs@.len() == 0 {
                    assert(out@ =~= c@.subrange(
                        0,
                        if ti + 1 < spans@.len() {
                            spans@[ti + 1].start as int
                        } else {
                            c@.len() as int
                        },
                    ));
                }
                assert(rebuild_from(c@, spansv, occsv, 0, 0) =~= out@ + rebuild_from(
                    c@,
                    spansv,
                    occsv,
                    ti + 1,
                    oi as int,
                ));
            }
            ti = ti + 1;
        }
    }
    proof {
        assert(rebuild_from(c@, spansv, occsv, ti as int, oi as int) =~= Seq::<char>::empty());
        assert(out@ =~= rebuild_from(c@, spansv, occsv, 0, 0));
        if occs@.len() == 0 {
            if spans@.len() == 0 {
                assert(out@ =~= c@);
            } else {
                assert(out@ =~= c@);
            }
        }
    }
    out
}

/// Rewrite `text` with every recognised number phrase in digit form.
///
/// The output is exactly `rewrite_spec`: the text is tokenized, the scanner
/// locates number phrases under the isolation policy, each located span is
/// replaced once by its digit form, and every other character — spacing and
/// punctuation included — is copied from the source. A text in which the
/// scan finds nothing comes back unchanged. An unknown language identifier
/// is an error, never a fallback.
pub fn alpha2digit(text: &str, lang: &str, threshold: u64) -> (r: Result<String, Error>)
    ensures
        r is Ok <==> supported_lang(lang@),
        !supported_lang(lang@) ==> (r matches Err(e) && e matches Error::UnsupportedLanguage(l)
            && l@ == lang@),
        supported_lang(lang@) ==> (r matches Ok(s) && s@ == rewrite_spec(
            text@,
            threshold as nat,
        )),
        supported_lang(lang@) && scan_spec(span_toks(text@), threshold as nat)
            == Seq::<SpecOcc>::empty() ==> (r matches Ok(s) && s@ == text@),
{
    let interp = crate::api::get_interpreter(lang);
    if interp.is_err() {
        return Err(Error::UnsupportedLanguage(String::from_str(lang)));
    }
    let c = chars_of(text);
    let spans = tokenize(&c);
    let ghost spansv = spans@.map_values(|sp: Span| sp@);
    let mut toks: Vec<ScanTok> = Vec::new();
    let mut i: usize = 0;
    while i < spans.len()
        invariant
            i <= spans@.len(),
            toks@.len() == i,
            c@ == text@,
            spans_tile(spans@, c@.len()),
            spansv == spans@.map_values(|sp: Span| sp@),
            forall|k: int| 0 <= k < i ==> #[trigger] toks@[k]@ == span_tok(c@, spansv[k]),
        decreases spans@.len() - i,
    {
        let piece = slice_chars(&c, spans[i].start, spans[i].end);
        let lower = lower_chars(&piece);
        let skip = eq_str(&piece, "-") || all_space_chars(&piece);
        toks.push(ScanTok { lower, skip, nan: false, sep_before: false });
        i = i + 1;
        proof {
            assert(spansv[i - 1] == spans@[i - 1]@);
            assert(toks@.last()@ == span_tok(c@, spansv[i - 1]));
        }
    }
    proof {
        assert(toks@.map_values(|t: ScanTok| t@) =~= span_toks(c@));
    }
    let occs = scan(&toks, threshold);
    let out = rebuild(&c, &spans, &occs);
    proof {
        assert(occs@.map_values(|o: RawOcc| o@) == scan_spec(span_toks(text@), threshold as nat));
        assert(out@ == rewrite_spec(text@, threshold as nat));
        if scan_spec(span_toks(text@), threshold as nat) == Seq::<SpecOcc>::empty() {
            assert(occs@.map_values(|o: RawOcc| o@).len() == 0);
            assert(occs@.len() == 0);
            assert(out@ == c@);
        }
    }
    Ok(string_of(&out))
}

/// Is every character whitespace?
fn all_space_chars(w: &Vec<char>) -> (r: bool)
    ensures
        r == (forall|j: int| 0 <= j < w@.len() ==> is_space(#[trigger] w@[j])),
{
    let mut i: usize = 0;
    while i < w.len()
        invariant
            i <= w@.len(),
            forall|j: int| 0 <= j < i ==> is_space(#[trigger] w@[j]),
        decreases w@.len() - i,
    {
        if !exec_is_space(w[i]) {
            return false;
        }
        i = i + 1;
    }
    true
}

} // verus!
