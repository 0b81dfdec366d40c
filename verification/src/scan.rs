//! The occurrence scanner: locate maximal number phrases in a token stream
//! and apply the isolation policy.

use vstd::prelude::*;

use crate::digits::{DigitString, DsView, empty_view, render_spec, value_of};
use crate::english;
use crate::error::ComposeError;

verus! {

/// What the scanner needs to know of one token.
pub struct ScanTok {
    /// Lower-cased text of the token.
    pub lower: Vec<char>,
    /// The token is invisible to the scanner (pure whitespace, or a bare
    /// hyphen between number words).
    pub skip: bool,
    /// The token can never be part of a number.
    pub nan: bool,
    /// A sentence boundary separates this token from the previous one.
    pub sep_before: bool,
}

/// Mathematical image of a [`ScanTok`].
pub struct TokView {
    pub lower: Seq<char>,
    pub skip: bool,
    pub nan: bool,
    pub sep_before: bool,
}

impl View for ScanTok {
    type V = TokView;

    open spec fn view(&self) -> TokView {
        TokView { lower: self.lower@, skip: self.skip, nan: self.nan, sep_before: self.sep_before }
    }
}

/// One located number phrase.
pub struct RawOcc {
    /// Index of the first token of the phrase.
    pub start: usize,
    /// Index just after the last token of the phrase.
    pub end: usize,
    /// The composed integer value.
    pub value: u64,
    /// The phrase used an ordinal form.
    pub is_ordinal: bool,
    /// The digit form (leading zeros and ordinal suffix included).
    pub digits: Vec<char>,
}

/// Mathematical image of a located phrase.
pub struct SpecOcc {
    pub start: int,
    pub end: int,
    pub value: nat,
    pub is_ordinal: bool,
    pub digits: Seq<char>,
}

impl View for RawOcc {
    type V = SpecOcc;

    open spec fn view(&self) -> SpecOcc {
        SpecOcc {
            start: self.start as int,
            end: self.end as int,
            value: self.value as nat,
            is_ordinal: self.is_ordinal,
            digits: self.digits@,
        }
    }
}

/// Occurrences are in order, non-empty, non-overlapping, within `n` tokens.
pub open spec fn occs_ordered(s: Seq<RawOcc>, n: nat) -> bool {
    (forall|i: int| 0 <= i < s.len() ==> s[i].start < #[trigger] s[i].end <= n) && (forall|i: int|
        0 <= i < s.len() - 1 ==> #[trigger] s[i].end <= s[i + 1].start)
}

/// The isolation policy: a located phrase is kept iff it spans several
/// tokens, is an ordinal form, is a lone magnitude word, or reaches the
/// threshold value.
pub open spec fn emit_policy(
    span: nat,
    value: nat,
    is_ordinal: bool,
    lone_scale: bool,
    threshold: nat,
) -> bool {
    span >= 2 || is_ordinal || lone_scale || value >= threshold
}

pub fn should_emit(
    span: usize,
    value: u64,
    is_ordinal: bool,
    lone_scale: bool,
    threshold: u64,
) -> (r: bool)
    ensures
        r == emit_policy(span as nat, value as nat, is_ordinal, lone_scale, threshold as nat),
{
    span >= 2 || is_ordinal || lone_scale || value >= threshold
}

/// The isolation policy on a phrase of exactly one token that is neither an
/// ordinal form nor a lone magnitude word: it is kept if and only if its
/// value reaches the threshold.
pub proof fn lemma_isolation_policy(value: nat, threshold: nat)
    ensures
        emit_policy(1, value, false, false, threshold) == (value >= threshold),
        emit_policy(1, value, true, false, threshold),
{
}

/// The word is a bare magnitude word ("hundred", "thousand", ...).
pub open spec fn is_scale(w: Seq<char>) -> bool {
    !english::has_hyphen(w) && match english::word_action(english::lemma_of(w)) {
        english::Action::Hundred => true,
        english::Action::Thousand => true,
        english::Action::Million => true,
        english::Action::Billion => true,
        _ => false,
    }
}

fn is_scale_word(w: &Vec<char>) -> (r: bool)
    ensures
        r == is_scale(w@),
{
    let mut i: usize = 0;
    while i < w.len()
        invariant
            i <= w@.len(),
            forall|j: int| 0 <= j < i ==> w@[j] != '-',
        decreases w@.len() - i,
    {
        if w[i] == '-' {
            return false;
        }
        i = i + 1;
    }
    let lemma = english::lemmatize_word(w);
    match english::action_of_word(&lemma) {
        english::Action::Hundred => true,
        english::Action::Thousand => true,
        english::Action::Million => true,
        english::Action::Billion => true,
        _ => false,
    }
}

// ------------------------------------------------------------------
// the scan, stated: a left-to-right fold over the tokens
// ------------------------------------------------------------------

/// The scanner's whole state: the open composition, the open phrase's token
/// span, whether its first word was a lone magnitude word, and the
/// occurrences emitted so far.
pub struct ScanSt {
    pub v: DsView,
    pub start: int,
    pub end: int,
    pub lone: bool,
    pub out: Seq<SpecOcc>,
}

pub open spec fn init_st() -> ScanSt {
    ScanSt { v: empty_view(), start: 0, end: 0, lone: false, out: Seq::empty() }
}

/// A phrase is open: something was composed, even if only a spoken zero.
pub open spec fn st_open(st: ScanSt) -> bool {
    st.v.digits.len() > 0 || st.v.zeros > 0
}

/// Close the open phrase: emit it if the policy keeps it, reset the buffer,
/// and collapse the span.
pub open spec fn close_st(st: ScanSt, threshold: nat) -> ScanSt {
    let occ = SpecOcc {
        start: st.start,
        end: st.end,
        value: value_of(st.v.digits),
        is_ordinal: st.v.marker is Ordinal,
        digits: render_spec(st.v),
    };
    ScanSt {
        v: empty_view(),
        start: st.end,
        end: st.end,
        lone: st.lone,
        out: if emit_policy(
            (st.end - st.start) as nat,
            value_of(st.v.digits),
            st.v.marker is Ordinal,
            st.lone,
            threshold,
        ) {
            st.out.push(occ)
        } else {
            st.out
        },
    }
}

/// One token of the scan, per the grammar and the isolation policy:
/// a skipped token changes nothing; a non-number token closes the open
/// phrase; a sentence boundary closes it first; then the token is folded
/// into the composition, a failure closing the phrase and retrying the
/// token as the start of a new one.
pub open spec fn scan_step(t: TokView, i: int, st: ScanSt, threshold: nat) -> ScanSt {
    if t.skip {
        st
    } else if t.nan {
        if st_open(st) {
            close_st(st, threshold)
        } else {
            st
        }
    } else {
        let st1 = if st_open(st) && t.sep_before {
            close_st(st, threshold)
        } else {
            st
        };
        let so = english::apply_spec(t.lower, st1.v);
        if so.r is Ok {
            if st1.start == st1.end {
                ScanSt { v: so.v, start: i, end: i + 1, lone: is_scale(t.lower), out: st1.out }
            } else {
                ScanSt { v: so.v, start: st1.start, end: i + 1, lone: false, out: st1.out }
            }
        } else if so.r == Err::<(), ComposeError>(ComposeError::Incomplete) {
            st1
        } else if st_open(st1) {
            let st2 = close_st(st1, threshold);
            let so2 = english::apply_spec(t.lower, st2.v);
            if so2.r is Ok {
                ScanSt { v: so2.v, start: i, end: i + 1, lone: is_scale(t.lower), out: st2.out }
            } else {
                ScanSt { v: so2.v, start: st2.start, end: st2.end, lone: st2.lone, out: st2.out }
            }
        } else {
            st1
        }
    }
}

pub open spec fn scan_rec(toks: Seq<TokView>, i: int, st: ScanSt, threshold: nat) -> ScanSt
    decreases toks.len() - i,
{
    if i < 0 || i >= toks.len() {
        st
    } else {
        scan_rec(toks, i + 1, scan_step(toks[i], i, st, threshold), threshold)
    }
}

/// The occurrences a left-to-right scan of `toks` yields.
pub open spec fn scan_spec(toks: Seq<TokView>, threshold: nat) -> Seq<SpecOcc> {
    let st = scan_rec(toks, 0, init_st(), threshold);
    if st_open(st) {
        close_st(st, threshold).out
    } else {
        st.out
    }
}

// ------------------------------------------------------------------
// the scan, executed
// ------------------------------------------------------------------

/// Close the open phrase: emit it if the policy keeps it, reset the buffer.
fn close_phrase(
    out: &mut Vec<RawOcc>,
    ds: &mut DigitString,
    start: usize,
    end: usize,
    lone_scale: bool,
    threshold: u64,
)
    requires
        old(ds).wf(),
        start < end,
        occs_ordered(old(out)@, start as nat),
        old(out)@.len() > 0 ==> old(out)@.last().end <= start,
    ensures
        final(ds).wf(),
        final(ds)@ == empty_view(),
        occs_ordered(final(out)@, end as nat),
        final(out)@.len() > 0 ==> final(out)@.last().end <= end,
        final(out)@.map_values(|o: RawOcc| o@) == (if emit_policy(
            (end - start) as nat,
            value_of(old(ds)@.digits),
            old(ds)@.marker is Ordinal,
            lone_scale,
            threshold as nat,
        ) {
            old(out)@.map_values(|o: RawOcc| o@).push(
                SpecOcc {
                    start: start as int,
                    end: end as int,
                    value: value_of(old(ds)@.digits),
                    is_ordinal: old(ds)@.marker is Ordinal,
                    digits: render_spec(old(ds)@),
                },
            )
        } else {
            old(out)@.map_values(|o: RawOcc| o@)
        }),
{
    let is_ordinal = ds.is_ordinal();
    let value = ds.value();
    let digits = ds.render();
    let span = end - start;
    if should_emit(span, value, is_ordinal, lone_scale, threshold) {
        let occ = RawOcc { start, end, value, is_ordinal, digits };
        let ghost before = out@.map_values(|o: RawOcc| o@);
        out.push(occ);
        proof {
            assert(out@.map_values(|o: RawOcc| o@) =~= before.push(out@.last()@));
        }
    }
    *ds = DigitString::new();
}

/// The scanner's live state matched against the mathematical fold.
pub open spec fn live_st(
    v: DsView,
    start: usize,
    end: usize,
    lone: bool,
    out: Seq<RawOcc>,
) -> ScanSt {
    ScanSt {
        v,
        start: start as int,
        end: end as int,
        lone,
        out: out.map_values(|o: RawOcc| o@),
    }
}

/// Scan a token stream left to right for number phrases.
///
/// The result is exactly the fold `scan_spec` describes — which phrases are
/// found, their spans, values, digit forms and the isolation policy — and
/// is ordered by position, free of overlaps.
#[verifier::rlimit(100)]
pub fn scan(tokens: &Vec<ScanTok>, threshold: u64) -> (r: Vec<RawOcc>)
    ensures
        occs_ordered(r@, tokens@.len()),
        r@.map_values(|o: RawOcc| o@) == scan_spec(
            tokens@.map_values(|t: ScanTok| t@),
            threshold as nat,
        ),
{
    let ghost tviews = tokens@.map_values(|t: ScanTok| t@);
    let n = tokens.len();
    let mut out: Vec<RawOcc> = Vec::new();
    let mut ds = DigitString::new();
    let mut start: usize = 0;
    let mut end: usize = 0;
    let mut lone_scale = false;
    let mut i: usize = 0;
    proof {
        assert(out@.map_values(|o: RawOcc| o@) =~= Seq::<SpecOcc>::empty());
        assert(live_st(ds@, 0, 0, false, out@) == init_st());
    }
    while i < n
        invariant
            i <= n,
            n == tokens@.len(),
            tviews == tokens@.map_values(|t: ScanTok| t@),
            ds.wf(),
            start <= end <= i,
            (ds.digits@.len() == 0 && ds.zeros == 0) || start < end,
            occs_ordered(out@, start as nat),
            out@.len() > 0 ==> out@.last().end <= start,
            scan_rec(tviews, 0, init_st(), threshold as nat) == scan_rec(
                tviews,
                i as int,
                live_st(ds@, start, end, lone_scale, out@),
                threshold as nat,
            ),
        decreases n - i,
    {
        let ghost st0 = live_st(ds@, start, end, lone_scale, out@);
        let ghost t = tviews[i as int];
        proof {
            assert(t == tokens@[i as int]@);
            assert(scan_rec(tviews, i as int, st0, threshold as nat) == scan_rec(
                tviews,
                i + 1,
                scan_step(t, i as int, st0, threshold as nat),
                threshold as nat,
            ));
        }
        if tokens[i].skip {
            i = i + 1;
            continue;
        }
        if tokens[i].nan {
            if !ds.is_empty() {
                close_phrase(&mut out, &mut ds, start, end, lone_scale, threshold);
                start = end;
                proof {
                    assert(live_st(ds@, start, end, lone_scale, out@) == close_st(
                        st0,
                        threshold as nat,
                    ));
                }
            }
            i = i + 1;
            continue;
        }
        if !ds.is_empty() && tokens[i].sep_before {
            close_phrase(&mut out, &mut ds, start, end, lone_scale, threshold);
            start = end;
        }
        let ghost st1 = live_st(ds@, start, end, lone_scale, out@);
        proof {
            assert(st1 == (if st_open(st0) && t.sep_before {
                close_st(st0, threshold as nat)
            } else {
                st0
            }));
        }
        let r = english::apply(&tokens[i].lower, &mut ds);
        proof {
            assert(english::apply_spec(t.lower, st1.v) == (crate::digits::StepOut { r, v: ds@ }));
        }
        match r {
            Ok(_) => {
                if start == end {
                    start = i;
                    lone_scale = is_scale_word(&tokens[i].lower);
                } else {
                    lone_scale = false;
                }
                end = i + 1;
                proof {
                    assert(live_st(ds@, start, end, lone_scale, out@) == scan_step(
                        t,
                        i as int,
                        st0,
                        threshold as nat,
                    ));
                }
            },
            Err(e) => {
                if !matches!(e, ComposeError::Incomplete) {
                    if !ds.is_empty() {
                        close_phrase(&mut out, &mut ds, start, end, lone_scale, threshold);
                        start = end;
                        let ghost st2 = live_st(ds@, start, end, lone_scale, out@);
                        proof {
                            assert(st2 == close_st(st1, threshold as nat));
                        }
                        let r2 = english::apply(&tokens[i].lower, &mut ds);
                        proof {
                            assert(english::apply_spec(t.lower, st2.v) == (crate::digits::StepOut {
                                r: r2,
                                v: ds@,
                            }));
                        }
                        if r2.is_ok() {
                            start = i;
                            lone_scale = is_scale_word(&tokens[i].lower);
                            end = i + 1;
                        } else {
                            start = end;
                        }
                        proof {
                            assert(live_st(ds@, start, end, lone_scale, out@) == scan_step(
                                t,
                                i as int,
                                st0,
                                threshold as nat,
                            ));
                        }
                    } else {
                        proof {
                            assert(live_st(ds@, start, end, lone_scale, out@) == scan_step(
                                t,
                                i as int,
                                st0,
                                threshold as nat,
                            ));
                        }
                    }
                } else {
                    proof {
                        assert(live_st(ds@, start, end, lone_scale, out@) == scan_step(
                            t,
                            i as int,
                            st0,
                            threshold as nat,
                        ));
                    }
                }
            },
        }
        i = i + 1;
    }
    proof {
        let st = live_st(ds@, start, end, lone_scale, out@);
        assert(scan_rec(tviews, n as int, st, threshold as nat) == st);
    }
    if !ds.is_empty() {
        let ghost st = live_st(ds@, start, end, lone_scale, out@);
        close_phrase(&mut out, &mut ds, start, end, lone_scale, threshold);
        proof {
            assert(out@.map_values(|o: RawOcc| o@) == close_st(st, threshold as nat).out);
        }
    }
    out
}

} // verus!
