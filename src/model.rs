use vstd::prelude::*;

use crate::types::{classify, TokenView};

verus! {

/// Characters skipped between tokens: space, tab, line feed, carriage return.
pub open spec fn is_blank(c: char) -> bool {
    c == ' ' || c == '\t' || c == '\n' || c == '\r'
}

pub open spec fn is_digit(c: char) -> bool {
    '0' <= c && c <= '9'
}

/// ASCII letters only.
pub open spec fn is_letter(c: char) -> bool {
    ('a' <= c && c <= 'z') || ('A' <= c && c <= 'Z')
}

pub fn blank(c: char) -> (r: bool)
    ensures
        r == is_blank(c),
{
    c == ' ' || c == '\t' || c == '\n' || c == '\r'
}

/// The kinds of character run that the scanner consumes as one lexeme.
#[derive(Clone, Copy)]
pub enum CharClass {
    /// Decimal digits.
    Digit,
    /// ASCII letters.
    Letter,
    /// Anything but a double quote: the inside of a string literal.
    InString,
}

pub open spec fn in_class(k: CharClass, c: char) -> bool {
    match k {
        CharClass::Digit => is_digit(c),
        CharClass::Letter => is_letter(c),
        CharClass::InString => c != '"',
    }
}

pub fn class_has(k: CharClass, c: char) -> (r: bool)
    ensures
        r == in_class(k, c),
{
    match k {
        CharClass::Digit => '0' <= c && c <= '9',
        CharClass::Letter => ('a' <= c && c <= 'z') || ('A' <= c && c <= 'Z'),
        CharClass::InString => c != '"',
    }
}

/// The first position at or after `p` that does not hold a blank.
pub open spec fn blank_end(s: Seq<char>, p: int) -> int
    decreases s.len() - p,
{
    if 0 <= p < s.len() && is_blank(s[p]) {
        blank_end(s, p + 1)
    } else {
        p
    }
}

/// The end of the maximal run of characters of class `k` that starts at `p`.
pub open spec fn run_end(s: Seq<char>, p: int, k: CharClass) -> int
    decreases s.len() - p,
{
    if 0 <= p < s.len() && in_class(k, s[p]) {
        run_end(s, p + 1, k)
    } else {
        p
    }
}

/// The token of a one-character operator or delimiter.
pub open spec fn punct(c: char) -> Option<TokenView> {
    if c == '(' {
        Some(TokenView::LParen)
    } else if c == ')' {
        Some(TokenView::RParen)
    } else if c == '{' {
        Some(TokenView::LBrace)
    } else if c == '}' {
        Some(TokenView::RBrace)
    } else if c == '[' {
        Some(TokenView::LBracket)
    } else if c == ']' {
        Some(TokenView::RBracket)
    } else if c == ',' {
        Some(TokenView::Comma)
    } else if c == ';' {
        Some(TokenView::Semicolon)
    } else if c == ':' {
        Some(TokenView::Colon)
    } else if c == '+' {
        Some(TokenView::Plus)
    } else if c == '-' {
        Some(TokenView::Minus)
    } else if c == '*' {
        Some(TokenView::Asterisk)
    } else if c == '/' {
        Some(TokenView::Slash)
    } else if c == '<' {
        Some(TokenView::Lt)
    } else if c == '>' {
        Some(TokenView::Gt)
    } else {
        None
    }
}

/// Whether position `i` of `s` holds the character `c`.
pub open spec fn has_at(s: Seq<char>, i: int, c: char) -> bool {
    0 <= i < s.len() && s[i] == c
}

/// The token that a scan of `s` from position `p` produces, and the position
/// just after the lexeme it consumed (blanks before it included).
pub open spec fn scan(s: Seq<char>, p: int) -> (TokenView, int) {
    let q = blank_end(s, p);
    if !(0 <= q < s.len()) {
        (TokenView::Eof, q)
    } else {
        let c = s[q];
        match punct(c) {
            Some(t) => (t, q + 1),
            None => {
                if c == '=' {
                    if has_at(s, q + 1, '=') {
                        (TokenView::Eq, q + 2)
                    } else {
                        (TokenView::Assign, q + 1)
                    }
                } else if c == '!' {
                    if has_at(s, q + 1, '=') {
                        (TokenView::NotEq, q + 2)
                    } else {
                        (TokenView::Bang, q + 1)
                    }
                } else if is_digit(c) {
                    let e = run_end(s, q, CharClass::Digit);
                    (TokenView::Int(s.subrange(q, e)), e)
                } else if is_letter(c) {
                    let e = run_end(s, q, CharClass::Letter);
                    (classify(s.subrange(q, e)), e)
                } else if c == '"' {
                    let e = run_end(s, q + 1, CharClass::InString);
                    (TokenView::Str(s.subrange(q + 1, e)), if e < s.len() {
                        e + 1
                    } else {
                        e
                    })
                } else {
                    (TokenView::Illegal, q + 1)
                }
            },
        }
    }
}

/// The position that `n` successive scans of `s` reach from its start.
pub open spec fn pos_after(s: Seq<char>, n: nat) -> int
    decreases n,
{
    if n == 0 {
        0
    } else {
        scan(s, pos_after(s, (n - 1) as nat)).1
    }
}

pub proof fn lemma_blank_end_bounds(s: Seq<char>, p: int)
    requires
        0 <= p <= s.len(),
    ensures
        p <= blank_end(s, p) <= s.len(),
        blank_end(s, p) < s.len() ==> !is_blank(s[blank_end(s, p)]),
    decreases s.len() - p,
{
    if p < s.len() && is_blank(s[p]) {
        lemma_blank_end_bounds(s, p + 1);
    }
}

pub proof fn lemma_run_end_bounds(s: Seq<char>, p: int, k: CharClass)
    requires
        0 <= p <= s.len(),
    ensures
        p <= run_end(s, p, k) <= s.len(),
        forall|i: int| p <= i < run_end(s, p, k) ==> in_class(k, #[trigger] s[i]),
        run_end(s, p, k) < s.len() ==> !in_class(k, s[run_end(s, p, k)]),
    decreases s.len() - p,
{
    if p < s.len() && in_class(k, s[p]) {
        lemma_run_end_bounds(s, p + 1, k);
    }
}

/// A run of class `k` from `p` to `e` that no character of the class
/// follows ends at `e`.
pub proof fn lemma_run_end_is(s: Seq<char>, p: int, e: int, k: CharClass)
    requires
        0 <= p <= e <= s.len(),
        forall|i: int| p <= i < e ==> in_class(k, #[trigger] s[i]),
        e == s.len() || !in_class(k, s[e]),
    ensures
        run_end(s, p, k) == e,
    decreases e - p,
{
    if p < e {
        lemma_run_end_is(s, p + 1, e, k);
    }
}

/// A scan never moves backwards nor past the end; it moves forward unless it
/// reports end of input, which it does exactly at the end of the text.
pub proof fn lemma_scan_progress(s: Seq<char>, p: int)
    requires
        0 <= p <= s.len(),
    ensures
        p <= scan(s, p).1 <= s.len(),
        scan(s, p).0 is Eof <==> scan(s, p).1 == s.len() && blank_end(s, p) == s.len(),
        !(scan(s, p).0 is Eof) ==> p < scan(s, p).1,
{
    let q = blank_end(s, p);
    lemma_blank_end_bounds(s, p);
    if q < s.len() {
        lemma_run_end_bounds(s, q, CharClass::Digit);
        lemma_run_end_bounds(s, q, CharClass::Letter);
        lemma_run_end_bounds(s, q + 1, CharClass::InString);
    }
}

} // verus!
