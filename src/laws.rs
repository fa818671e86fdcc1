use vstd::prelude::*;

use crate::model::{
    blank_end, in_class, is_digit, is_letter, lemma_run_end_is, scan, CharClass,
};
use crate::text::lower_seq;
use crate::types::{keyword_of, TokenView};

verus! {

/// The number written by the decimal digits `d`, most significant first.
pub open spec fn decimal_value(d: Seq<char>) -> nat
    decreases d.len(),
{
    if d.len() == 0 {
        0
    } else {
        decimal_value(d.drop_last()) * 10 + (d.last() as nat - '0' as nat) as nat
    }
}

/// Once a scan reports end of input, the scanner stands still: a scan from
/// where it stopped reports end of input again and ends at the same place,
/// so every later scan does too.
pub proof fn lemma_end_of_input_repeats(s: Seq<char>, p: int)
    requires
        0 <= p <= s.len(),
        scan(s, p).0 is Eof,
    ensures
        scan(s, scan(s, p).1) == (TokenView::Eof, scan(s, p).1),
{
    crate::model::lemma_scan_progress(s, p);
    assert(blank_end(s, s.len() as int) == s.len());
}

/// A maximal run of ASCII letters that is no keyword, in any letter case,
/// scans to one identifier carrying the run exactly as written, and the scan
/// ends right after the run.
pub proof fn lemma_word_is_identifier(s: Seq<char>, p: int, e: int)
    requires
        0 <= p < e <= s.len(),
        forall|i: int| p <= i < e ==> is_letter(#[trigger] s[i]),
        e == s.len() || !is_letter(s[e]),
        keyword_of(lower_seq(s.subrange(p, e))) is None,
    ensures
        scan(s, p) == (TokenView::Ident(s.subrange(p, e)), e),
{
    assert(blank_end(s, p) == p);
    assert forall|i: int| p <= i < e implies in_class(CharClass::Letter, #[trigger] s[i]) by {
        assert(is_letter(s[i]));
    }
    lemma_run_end_is(s, p, e, CharClass::Letter);
}

/// A maximal run of decimal digits scans to one integer literal whose text
/// is the run itself: as many digits, denoting the same number, and the scan
/// ends right after the run.
pub proof fn lemma_digits_are_integer(s: Seq<char>, p: int, e: int)
    requires
        0 <= p < e <= s.len(),
        forall|i: int| p <= i < e ==> is_digit(#[trigger] s[i]),
        e == s.len() || !is_digit(s[e]),
    ensures
        scan(s, p).1 == e,
        scan(s, p).0 matches TokenView::Int(d) && d == s.subrange(p, e) && d.len() == e - p
            && decimal_value(d) == decimal_value(s.subrange(p, e)),
{
    assert(blank_end(s, p) == p);
    assert forall|i: int| p <= i < e implies in_class(CharClass::Digit, #[trigger] s[i]) by {
        assert(is_digit(s[i]));
    }
    lemma_run_end_is(s, p, e, CharClass::Digit);
}

} // verus!
