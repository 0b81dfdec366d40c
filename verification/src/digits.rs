//! The composition buffer: a base-10 positional digit string.
//!
//! Number words are interpreted as elementary operations on this buffer
//! (placing digits on free positions, shifting for magnitude words), so that
//! the buffer refuses any incoherent composition step by construction.

use vstd::prelude::*;

use crate::error::ComposeError;

verus! {

/// Ordinal suffix retained on the digit form of an ordinal word.
#[derive(Clone, Copy, PartialEq, Eq, Structural, Debug)]
pub enum Suffix {
    St,
    Nd,
    Rd,
    Th,
    Ths,
    Rds,
}

/// Marks whether the composed number is a plain cardinal or an ordinal form.
#[derive(Clone, Copy, PartialEq, Eq, Structural, Debug)]
pub enum Marker {
    Cardinal,
    Ordinal(Suffix),
}

/// Every element is a decimal digit.
pub open spec fn digits_ok(s: Seq<u8>) -> bool {
    forall|i: int| 0 <= i < s.len() ==> s[i] <= 9
}

/// Every element is zero.
pub open spec fn all_zeros(s: Seq<u8>) -> bool {
    forall|i: int| 0 <= i < s.len() ==> s[i] == 0
}

/// Number of consecutive zeros at the start of `s`.
pub open spec fn lead_zeros(s: Seq<u8>) -> nat
    decreases s.len(),
{
    if s.len() == 0 || s[0] != 0 {
        0
    } else {
        1 + lead_zeros(s.drop_first())
    }
}

/// The numeric value of a digit sequence, most significant digit first.
pub open spec fn value_of(s: Seq<u8>) -> nat
    decreases s.len(),
{
    if s.len() == 0 {
        0
    } else {
        (value_of(s.drop_last()) * 10 + s.last()) as nat
    }
}

/// Ten to the `n`.
pub open spec fn pow10(n: nat) -> nat
    decreases n,
{
    if n == 0 {
        1
    } else {
        10 * pow10((n - 1) as nat)
    }
}

/// A sequence of `n` zero digits.
pub open spec fn zero_seq(n: nat) -> Seq<u8> {
    Seq::new(n, |i: int| 0u8)
}

pub proof fn lemma_pow10_pos(n: nat)
    ensures
        pow10(n) >= 1,
    decreases n,
{
    if n > 0 {
        lemma_pow10_pos((n - 1) as nat);
    }
}

pub proof fn lemma_value_bound(s: Seq<u8>)
    requires
        digits_ok(s),
    ensures
        value_of(s) < pow10(s.len()),
    decreases s.len(),
{
    if s.len() == 0 {
    } else {
        assert(digits_ok(s.drop_last())) by {
            assert(forall|i: int| 0 <= i < s.drop_last().len() ==> s.drop_last()[i] == s[i]);
        }
        lemma_value_bound(s.drop_last());
        assert(s.last() <= 9);
    }
}

pub proof fn lemma_pow10_mono(a: nat, b: nat)
    requires
        a <= b,
    ensures
        pow10(a) <= pow10(b),
    decreases b,
{
    if a < b {
        lemma_pow10_mono(a, (b - 1) as nat);
        lemma_pow10_pos((b - 1) as nat);
    }
}

proof fn lemma_lead_zeros_eq(s: Seq<u8>, k: nat)
    requires
        k <= s.len(),
        forall|i: int| 0 <= i < k ==> s[i] == 0,
        k == s.len() || s[k as int] != 0,
    ensures
        lead_zeros(s) == k,
    decreases s.len(),
{
    if k == 0 {
    } else {
        assert(s[0] == 0);
        lemma_lead_zeros_eq(s.drop_first(), (k - 1) as nat);
    }
}

/// Outcome of placing `d` on the buffer `b` with `zeros` leading zeros:
/// `None` is a refusal, `Some` gives the new buffer and leading-zero count.
pub open spec fn put_result(b: Seq<u8>, zeros: nat, d: Seq<u8>) -> Option<(Seq<u8>, nat)> {
    if b.len() == 0 && d =~= seq![0u8] {
        Some((b, zeros + 1))
    } else if all_zeros(d) {
        None
    } else if b.len() == 0 {
        Some((d, zeros))
    } else if b.len() < d.len() {
        None
    } else if all_zeros(b.subrange(b.len() - d.len(), b.len() as int)) {
        Some((b.subrange(0, b.len() - d.len()) + d, zeros))
    } else {
        None
    }
}

/// Outcome of multiplying the pending group by ten to the `n` (placing a
/// magnitude word): `None` is a refusal, `Some` the new buffer.
pub open spec fn shift_result(b: Seq<u8>, n: nat) -> Option<Seq<u8>> {
    let b1 = if b.len() == 0 { seq![1u8] } else { b };
    let l = b1.len();
    if n == 0 {
        Some(b)
    } else if l <= n {
        Some(b1 + zero_seq(n))
    } else {
        let pz = lead_zeros(b1.subrange(l - n, l as int));
        let b2 = if pz == n { b1.update(l - 1, 1u8) } else { b1 };
        let pz2: nat = if pz == n { (n - 1) as nat } else { pz };
        let span = 2 * n - pz2;
        if l >= span && all_zeros(b2.subrange(l - span, l - n)) {
            Some(b2.subrange(0, l - span) + b2.subrange(l - n + pz2, l as int) + zero_seq(n))
        } else {
            None
        }
    }
}

/// The rightmost `start..=end` decimal positions hold no digit other than zero.
pub open spec fn range_free(b: Seq<u8>, start: nat, end: nat) -> bool {
    start >= b.len() || all_zeros(
        b.subrange(if end >= b.len() { 0int } else { b.len() - end - 1 }, b.len() - start),
    )
}

/// Mathematical image of a [`DigitString`]: what the contracts speak of.
pub struct DsView {
    pub digits: Seq<u8>,
    pub zeros: nat,
    pub frozen: bool,
    pub marker: Marker,
}

/// Saturating conversion of a count to the machine-word range.
pub open spec fn cap_usize(z: nat) -> nat {
    if z > usize::MAX { usize::MAX as nat } else { z }
}

impl DsView {
    /// Well-formedness of the image: decimal digits, bounded length, a
    /// representable leading-zero count.
    pub open spec fn wf(&self) -> bool {
        digits_ok(self.digits) && self.digits.len() <= 18 && self.zeros <= usize::MAX
    }

    /// Total number of spoken digit positions, leading zeros included.
    pub open spec fn slen(&self) -> nat {
        self.digits.len() + self.zeros
    }

    /// The buffer ends in the teen pattern `10`.
    pub open spec fn ends_in_ten(&self) -> bool {
        self.digits.len() >= 2 && self.digits[self.digits.len() - 2] == 1
            && self.digits[self.digits.len() - 1] == 0
    }

    /// The two rightmost positions are exactly `00`.
    pub open spec fn ends_in_double_zero(&self) -> bool {
        self.digits.len() >= 2 && self.digits[self.digits.len() - 2] == 0
            && self.digits[self.digits.len() - 1] == 0
    }
}

/// An empty composition state.
pub open spec fn empty_view() -> DsView {
    DsView { digits: Seq::empty(), zeros: 0, frozen: false, marker: Marker::Cardinal }
}

/// One composition step: the outcome and the state after it.
pub struct StepOut {
    pub r: Result<(), ComposeError>,
    pub v: DsView,
}

/// `put` at the level of the mathematical image.
pub open spec fn view_put(v: DsView, d: Seq<u8>) -> StepOut {
    if v.frozen {
        StepOut { r: Err(ComposeError::Frozen), v }
    } else {
        match put_result(v.digits, v.zeros, d) {
            Some(p) => StepOut {
                r: Ok(()),
                v: DsView { digits: p.0, zeros: cap_usize(p.1), ..v },
            },
            None => StepOut { r: Err(ComposeError::Overlap), v },
        }
    }
}

/// `shift` at the level of the mathematical image.
pub open spec fn view_shift(v: DsView, n: nat) -> StepOut {
    if v.frozen {
        StepOut { r: Err(ComposeError::Frozen), v }
    } else {
        match shift_result(v.digits, n) {
            Some(b2) => StepOut { r: Ok(()), v: DsView { digits: b2, ..v } },
            None => StepOut { r: Err(ComposeError::Overlap), v },
        }
    }
}

/// The character for one decimal digit.
pub open spec fn digit_char(d: u8) -> char {
    if d == 0 { '0' } else if d == 1 { '1' } else if d == 2 { '2' } else if d == 3 { '3' }
    else if d == 4 { '4' } else if d == 5 { '5' } else if d == 6 { '6' } else if d == 7 { '7' }
    else if d == 8 { '8' } else { '9' }
}

/// The characters of a digit sequence.
pub open spec fn digits_chars(s: Seq<u8>) -> Seq<char> {
    s.map_values(|d: u8| digit_char(d))
}

/// The characters of the ordinal suffix kept on the digit form.
pub open spec fn marker_chars(m: Marker) -> Seq<char> {
    match m {
        Marker::Cardinal => Seq::empty(),
        Marker::Ordinal(sfx) => match sfx {
            Suffix::St => seq!['s', 't'],
            Suffix::Nd => seq!['n', 'd'],
            Suffix::Rd => seq!['r', 'd'],
            Suffix::Th => seq!['t', 'h'],
            Suffix::Ths => seq!['t', 'h', 's'],
            Suffix::Rds => seq!['r', 'd', 's'],
        },
    }
}

/// The digit form of a composed number: leading zeros, digits, then the
/// ordinal suffix if one was spoken.
pub open spec fn render_spec(v: DsView) -> Seq<char> {
    Seq::new(v.zeros, |i: int| '0') + digits_chars(v.digits) + marker_chars(v.marker)
}

/// The in-progress digit form of one number phrase.
pub struct DigitString {
    /// Composed digits, most significant first; each element is `0..=9`.
    pub digits: Vec<u8>,
    /// Count of leading zeros spoken before the first significant digit.
    pub zeros: usize,
    /// Set once an ordinal word closed the number.
    pub frozen: bool,
    /// Cardinal or ordinal form.
    pub marker: Marker,
}

impl View for DigitString {
    type V = DsView;

    open spec fn view(&self) -> DsView {
        DsView {
            digits: self.digits@,
            zeros: self.zeros as nat,
            frozen: self.frozen,
            marker: self.marker,
        }
    }
}

impl DigitString {
    /// Well-formedness: decimal digits only, and few enough of them that the
    /// value fits comfortably in a machine word.
    pub open spec fn wf(&self) -> bool {
        digits_ok(self.digits@) && self.digits@.len() <= 18
    }

    /// The numeric value composed so far.
    pub open spec fn spec_value(&self) -> nat {
        value_of(self.digits@)
    }

    /// Total number of spoken digit positions, leading zeros included.
    pub open spec fn spec_len(&self) -> nat {
        (self.digits@.len() + self.zeros) as nat
    }

    pub fn new() -> (r: DigitString)
        ensures
            r.wf(),
            r.digits@ =~= Seq::<u8>::empty(),
            r.zeros == 0,
            !r.frozen,
            r.marker == Marker::Cardinal,
    {
        DigitString { digits: Vec::new(), zeros: 0, frozen: false, marker: Marker::Cardinal }
    }

    /// Nothing at all was composed yet, not even a leading zero.
    pub fn is_empty(&self) -> (r: bool)
        ensures
            r == (self.digits@.len() == 0 && self.zeros == 0),
    {
        self.digits.len() == 0 && self.zeros == 0
    }

    /// At least `k` digit positions (leading zeros included) are filled.
    pub fn len_ge(&self, k: usize) -> (r: bool)
        ensures
            r == (self.spec_len() >= k),
    {
        if self.digits.len() >= k {
            true
        } else {
            self.zeros >= k - self.digits.len()
        }
    }

    /// The buffer ends in the teen pattern `10`, which no unit may overwrite.
    pub fn ends_in_ten(&self) -> (r: bool)
        ensures
            r == (self.digits@.len() >= 2 && self.digits@[self.digits@.len() - 2] == 1
                && self.digits@[self.digits@.len() - 1] == 0),
    {
        let l = self.digits.len();
        l >= 2 && self.digits[l - 2] == 1 && self.digits[l - 1] == 0
    }

    /// The two rightmost positions are exactly `00` (blocks a second
    /// "hundred" from re-opening a filled pair of positions).
    pub fn ends_in_double_zero(&self) -> (r: bool)
        ensures
            r == (self.digits@.len() >= 2 && self.digits@[self.digits@.len() - 2] == 0
                && self.digits@[self.digits@.len() - 1] == 0),
    {
        let l = self.digits.len();
        l >= 2 && self.digits[l - 2] == 0 && self.digits[l - 1] == 0
    }

    /// The rightmost `start..=end` decimal positions are free.
    pub fn is_range_free(&self, start: usize, end: usize) -> (r: bool)
        requires
            start < end,
        ensures
            r == range_free(self.digits@, start as nat, end as nat),
    {
        let l = self.digits.len();
        if start >= l {
            return true;
        }
        let left: usize = if end >= l { 0 } else { l - end - 1 };
        let mut k: usize = left;
        let mut free = true;
        let ghost mut wit: int = 0;
        while k < l - start
            invariant
                left <= k <= l - start,
                start < l,
                l == self.digits@.len(),
                left == (if end >= l { 0int } else { l - end - 1 }),
                free ==> forall|j: int| left <= j < k ==> self.digits@[j] == 0,
                !free ==> left <= wit < k && self.digits@[wit] != 0,
            decreases l - start - k,
        {
            if self.digits[k] != 0 {
                free = false;
                proof {
                    wit = k as int;
                }
            }
            k = k + 1;
        }
        proof {
            let sub = self.digits@.subrange(left as int, l - start);
            if free {
                assert forall|i: int| 0 <= i < sub.len() implies sub[i] == 0 by {
                    assert(sub[i] == self.digits@[left + i]);
                }
            } else {
                assert(sub[wit - left] != 0);
            }
        }
        free
    }

    pub fn freeze(&mut self)
        ensures
            *final(self) == (DigitString { frozen: true, ..*old(self) }),
    {
        self.frozen = true;
    }

    pub fn set_marker(&mut self, m: Marker)
        ensures
            *final(self) == (DigitString { marker: m, ..*old(self) }),
    {
        self.marker = m;
    }

    pub fn is_ordinal(&self) -> (r: bool)
        ensures
            r == (self.marker is Ordinal),
    {
        match self.marker {
            Marker::Ordinal(_) => true,
            Marker::Cardinal => false,
        }
    }

    /// Place a digit group, right aligned, on free (empty or zero) positions.
    pub fn put(&mut self, d: &Vec<u8>) -> (r: Result<(), ComposeError>)
        requires
            old(self).wf(),
            digits_ok(d@),
            1 <= d@.len() <= 18,
        ensures
            final(self).wf(),
            final(self).frozen == old(self).frozen,
            final(self).marker == old(self).marker,
            old(self).frozen ==> r == Err::<(), ComposeError>(ComposeError::Frozen) && *final(self)
                == *old(self),
            !old(self).frozen ==> match put_result(old(self).digits@, old(self).zeros as nat, d@) {
                Some(p) => r == Ok::<(), ComposeError>(()) && final(self).digits@ =~= p.0
                    && (final(self).zeros as nat == p.1
                    || (p.1 > usize::MAX && final(self).zeros == usize::MAX)),
                None => r == Err::<(), ComposeError>(ComposeError::Overlap) && *final(self)
                    == *old(self),
            },
    {
        if self.frozen {
            return Err(ComposeError::Frozen);
        }
        if self.digits.len() == 0 && d.len() == 1 && d[0] == 0 {
            proof {
                assert(d@ =~= seq![0u8]);
            }
            if self.zeros < usize::MAX {
                self.zeros = self.zeros + 1;
            }
            return Ok(());
        }
        let mut all_z = true;
        let mut i: usize = 0;
        let ghost mut witd: int = 0;
        while i < d.len()
            invariant
                i <= d@.len(),
                all_z ==> forall|j: int| 0 <= j < i ==> d@[j] == 0,
                !all_z ==> 0 <= witd < i && d@[witd] != 0,
            decreases d@.len() - i,
        {
            if d[i] != 0 {
                all_z = false;
                proof {
                    witd = i as int;
                }
            }
            i = i + 1;
        }
        proof {
            if all_z {
                assert(all_zeros(d@));
            } else {
                assert(!all_zeros(d@));
            }
        }
        if all_z {
            return Err(ComposeError::Overlap);
        }
        let l = self.digits.len();
        if l == 0 {
            let mut nd: Vec<u8> = Vec::new();
            let mut j: usize = 0;
            while j < d.len()
                invariant
                    j <= d@.len(),
                    nd@ == d@.subrange(0, j as int),
                decreases d@.len() - j,
            {
                nd.push(d[j]);
                j = j + 1;
                proof {
                    assert(nd@ =~= d@.subrange(0, j as int));
                }
            }
            proof {
                assert(nd@ =~= d@);
            }
            self.digits = nd;
            return Ok(());
        }
        if l < d.len() {
            return Err(ComposeError::Overlap);
        }
        let start = l - d.len();
        let mut tail_z = true;
        let mut k: usize = start;
        let ghost mut witt: int = 0;
        while k < l
            invariant
                start <= k <= l,
                l == self.digits@.len(),
                start == l - d@.len(),
                tail_z ==> forall|j: int| start <= j < k ==> self.digits@[j] == 0,
                !tail_z ==> start <= witt < k && self.digits@[witt] != 0,
            decreases l - k,
        {
            if self.digits[k] != 0 {
                tail_z = false;
                proof {
                    witt = k as int;
                }
            }
            k = k + 1;
        }
        proof {
            let sub = self.digits@.subrange(start as int, l as int);
            if tail_z {
                assert forall|i: int| 0 <= i < sub.len() implies sub[i] == 0 by {
                    assert(sub[i] == self.digits@[start + i]);
                }
            } else {
                assert(sub[witt - start] != 0);
            }
        }
        if !tail_z {
            return Err(ComposeError::Overlap);
        }
        let mut nd: Vec<u8> = Vec::new();
        let mut j: usize = 0;
        while j < start
            invariant
                j <= start,
                start <= self.digits@.len(),
                nd@ == self.digits@.subrange(0, j as int),
            decreases start - j,
        {
            nd.push(self.digits[j]);
            j = j + 1;
            proof {
                assert(nd@ =~= self.digits@.subrange(0, j as int));
            }
        }
        let mut j2: usize = 0;
        while j2 < d.len()
            invariant
                j2 <= d@.len(),
                start <= self.digits@.len(),
                nd@ == self.digits@.subrange(0, start as int) + d@.subrange(0, j2 as int),
            decreases d@.len() - j2,
        {
            nd.push(d[j2]);
            j2 = j2 + 1;
            proof {
                assert(nd@ =~= self.digits@.subrange(0, start as int) + d@.subrange(
                    0,
                    j2 as int,
                ));
            }
        }
        proof {
            assert(nd@ =~= self.digits@.subrange(0, start as int) + d@);
        }
        self.digits = nd;
        Ok(())
    }

    /// Shift for a magnitude word: multiply the pending group by ten to `n`.
    pub fn shift(&mut self, n: usize) -> (r: Result<(), ComposeError>)
        requires
            old(self).wf(),
            1 <= n <= 9,
        ensures
            final(self).wf(),
            final(self).zeros == old(self).zeros,
            final(self).frozen == old(self).frozen,
            final(self).marker == old(self).marker,
            old(self).frozen ==> r == Err::<(), ComposeError>(ComposeError::Frozen) && *final(self)
                == *old(self),
            !old(self).frozen ==> match shift_result(old(self).digits@, n as nat) {
                Some(b2) => r == Ok::<(), ComposeError>(()) && final(self).digits@ =~= b2,
                None => r == Err::<(), ComposeError>(ComposeError::Overlap) && *final(self)
                    == *old(self),
            },
    {
        if self.frozen {
            return Err(ComposeError::Frozen);
        }
        let l = self.digits.len();
        if l <= n {
            // the whole (possibly implicit 1) group moves up by n positions
            let mut nd: Vec<u8> = Vec::new();
            if l == 0 {
                nd.push(1);
            } else {
                let mut j: usize = 0;
                while j < l
                    invariant
                        j <= l,
                        l == self.digits@.len(),
                        nd@ == self.digits@.subrange(0, j as int),
                    decreases l - j,
                {
                    nd.push(self.digits[j]);
                    j = j + 1;
                    proof {
                        assert(nd@ =~= self.digits@.subrange(0, j as int));
                    }
                }
            }
            let ghost head = nd@;
            let mut j3: usize = 0;
            while j3 < n
                invariant
                    j3 <= n,
                    nd@ == head + zero_seq(j3 as nat),
                decreases n - j3,
            {
                nd.push(0);
                j3 = j3 + 1;
                proof {
                    assert(nd@ =~= head + zero_seq(j3 as nat));
                }
            }
            proof {
                if l == 0 {
                    assert(head =~= seq![1u8]);
                } else {
                    assert(head =~= self.digits@);
                }
            }
            self.digits = nd;
            return Ok(());
        }
        // l > n >= 1: count the zeros heading the rightmost n positions
        let ghost b1 = self.digits@;
        let mut pz: usize = 0;
        while pz < n && self.digits[l - n + pz] == 0
            invariant
                pz <= n,
                n < l,
                l == self.digits@.len(),
                forall|i: int| 0 <= i < pz ==> #[trigger] self.digits@[l - n + i] == 0,
            decreases n - pz,
        {
            pz = pz + 1;
        }
        proof {
            let s = b1.subrange(l - n, l as int);
            assert forall|i: int| 0 <= i < pz implies s[i] == 0 by {
                assert(s[i] == self.digits@[l - n + i]);
            }
            assert(pz == s.len() || s[pz as int] != 0);
            lemma_lead_zeros_eq(s, pz as nat);
        }
        let pz2: usize = if pz == n { n - 1 } else { pz };
        let ghost b2 = if pz == n { b1.update(l - 1, 1u8) } else { b1 };
        let span = 2 * n - pz2;
        if l < span {
            return Err(ComposeError::Overlap);
        }
        let mut mid_z = true;
        let mut k: usize = l - span;
        let ghost mut witm: int = 0;
        while k < l - n
            invariant
                l - span <= k <= l - n,
                n < l,
                span <= l,
                span == 2 * n - pz2,
                pz2 < n,
                l == self.digits@.len(),
                self.digits@ == b1,
                b2 == (if pz == n as int { b1.update(l - 1, 1u8) } else { b1 }),
                mid_z ==> forall|j: int| l - span <= j < k ==> b2[j] == 0,
                !mid_z ==> l - span <= witm < k && b2[witm] != 0,
            decreases l - n - k,
        {
            proof {
                assert(b2[k as int] == b1[k as int]);
            }
            if self.digits[k] != 0 {
                mid_z = false;
                proof {
                    witm = k as int;
                }
            }
            k = k + 1;
        }
        proof {
            let sub = b2.subrange(l - span, l - n);
            if mid_z {
                assert forall|i: int| 0 <= i < sub.len() implies sub[i] == 0 by {
                    assert(sub[i] == b2[l - span + i]);
                }
            } else {
                assert(sub[witm - (l - span)] != 0);
            }
        }
        if !mid_z {
            return Err(ComposeError::Overlap);
        }
        // result: prefix, then the moved group, then n zeros
        let mut nd: Vec<u8> = Vec::new();
        let mut j: usize = 0;
        while j < l - span
            invariant
                j <= l - span,
                span <= l,
                n < l,
                pz2 < n,
                span == 2 * n - pz2,
                l == self.digits@.len(),
                self.digits@ == b1,
                b2 == (if pz == n as int { b1.update(l - 1, 1u8) } else { b1 }),
                nd@ == b2.subrange(0, j as int),
            decreases l - span - j,
        {
            proof {
                assert(b2[j as int] == b1[j as int]);
            }
            nd.push(self.digits[j]);
            j = j + 1;
            proof {
                assert(nd@ =~= b2.subrange(0, j as int));
            }
        }
        let mut j2: usize = l - n + pz2;
        while j2 < l
            invariant
                l - n + pz2 <= j2 <= l,
                span <= l,
                n < l,
                pz2 < n,
                pz <= n,
                span == 2 * n - pz2,
                pz2 == (if pz == n as int { n - 1 } else { pz as int }),
                l == self.digits@.len(),
                self.digits@ == b1,
                b2 == (if pz == n as int { b1.update(l - 1, 1u8) } else { b1 }),
                nd@ == b2.subrange(0, (l - span) as int) + b2.subrange((l - n + pz2) as int, j2 as int),
            decreases l - j2,
        {
            let v: u8 = if pz == n && j2 == l - 1 { 1 } else { self.digits[j2] };
            proof {
                assert(v == b2[j2 as int]);
            }
            nd.push(v);
            j2 = j2 + 1;
            proof {
                assert(nd@ =~= b2.subrange(0, (l - span) as int) + b2.subrange(
                    (l - n + pz2) as int,
                    j2 as int,
                ));
            }
        }
        let ghost before_zeros = nd@;
        let mut j3: usize = 0;
        while j3 < n
            invariant
                j3 <= n,
                nd@ == before_zeros + zero_seq(j3 as nat),
            decreases n - j3,
        {
            nd.push(0);
            j3 = j3 + 1;
            proof {
                assert(nd@ =~= before_zeros + zero_seq(j3 as nat));
            }
        }
        proof {
            assert(nd@ =~= b2.subrange(0, (l - span) as int) + b2.subrange(
                (l - n + pz2) as int,
                l as int,
            ) + zero_seq(n as nat));
            assert(all_zeros(b2.subrange(l - span, l - n)));
            assert(shift_result(b1, n as nat) == Some(nd@));
            assert(nd@.len() == l);
        }
        self.digits = nd;
        Ok(())
    }

    /// The digit form of the composed number, as characters.
    pub fn render(&self) -> (r: Vec<char>)
        requires
            self.wf(),
        ensures
            r@ == render_spec(self@),
    {
        let mut r: Vec<char> = Vec::new();
        let mut z: usize = 0;
        while z < self.zeros
            invariant
                z <= self.zeros,
                r@ == Seq::new(z as nat, |i: int| '0'),
            decreases self.zeros - z,
        {
            r.push('0');
            z = z + 1;
            proof {
                assert(r@ =~= Seq::new(z as nat, |i: int| '0'));
            }
        }
        let ghost zpart = r@;
        let mut i: usize = 0;
        while i < self.digits.len()
            invariant
                i <= self.digits@.len(),
                self.wf(),
                zpart == Seq::new(self.zeros as nat, |k: int| '0'),
                r@ == zpart + digits_chars(self.digits@.subrange(0, i as int)),
            decreases self.digits@.len() - i,
        {
            let d = self.digits[i];
            let c: char = if d == 0 { '0' } else if d == 1 { '1' } else if d == 2 { '2' }
                else if d == 3 { '3' } else if d == 4 { '4' } else if d == 5 { '5' }
                else if d == 6 { '6' } else if d == 7 { '7' } else if d == 8 { '8' }
                else { '9' };
            proof {
                assert(c == digit_char(self.digits@[i as int]));
            }
            r.push(c);
            i = i + 1;
            proof {
                assert(r@ =~= zpart + digits_chars(self.digits@.subrange(0, i as int)));
            }
        }
        proof {
            assert(self.digits@.subrange(0, self.digits@.len() as int) =~= self.digits@);
        }
        let ghost dpart = r@;
        match self.marker {
            Marker::Cardinal => {},
            Marker::Ordinal(sfx) => match sfx {
                Suffix::St => {
                    r.push('s');
                    r.push('t');
                },
                Suffix::Nd => {
                    r.push('n');
                    r.push('d');
                },
                Suffix::Rd => {
                    r.push('r');
                    r.push('d');
                },
                Suffix::Th => {
                    r.push('t');
                    r.push('h');
                },
                Suffix::Ths => {
                    r.push('t');
                    r.push('h');
                    r.push('s');
                },
                Suffix::Rds => {
                    r.push('r');
                    r.push('d');
                    r.push('s');
                },
            },
        }
        proof {
            assert(r@ =~= dpart + marker_chars(self.marker));
            assert(r@ =~= render_spec(self@));
        }
        r
    }

    /// The composed value, as a machine integer.
    pub fn value(&self) -> (r: u64)
        requires
            self.wf(),
        ensures
            r as nat == self.spec_value(),
    {
        let mut acc: u64 = 0;
        let mut i: usize = 0;
        proof {
            lemma_value_bound(self.digits@.subrange(0, 0));
        }
        while i < self.digits.len()
            invariant
                i <= self.digits@.len(),
                self.wf(),
                acc as nat == value_of(self.digits@.subrange(0, i as int)),
            decreases self.digits@.len() - i,
        {
            proof {
                let pre = self.digits@.subrange(0, i as int);
                let post = self.digits@.subrange(0, i + 1);
                assert(digits_ok(pre));
                lemma_value_bound(pre);
                lemma_pow10_mono(pre.len(), 17nat);
                reveal_with_fuel(pow10, 19);
                assert(pow10(17) == 100_000_000_000_000_000);
                assert(post.drop_last() =~= pre);
                assert(post.last() == self.digits@[i as int]);
            }
            acc = acc * 10 + (self.digits[i] as u64);
            i = i + 1;
        }
        proof {
            assert(self.digits@.subrange(0, self.digits@.len() as int) =~= self.digits@);
        }
        acc
    }
}

} // verus!
