use vstd::prelude::*;

use crate::model::{
    blank, blank_end, class_has, lemma_scan_progress, pos_after, punct, run_end, scan, CharClass,
};
use crate::text::chars_of;
use crate::types::Token;

verus! {

/// The character at position `i` of `s`, or `'\0'` past its end.
pub open spec fn char_at(s: Seq<char>, i: int) -> char {
    if 0 <= i < s.len() {
        s[i]
    } else {
        '\0'
    }
}

/// A scanner over one input text: the text, and the position of the next
/// character to read.
pub struct Lexer {
    input: String,
    chars: Vec<char>,
    position: usize,
}

impl Lexer {
    /// The text being scanned.
    pub closed spec fn text(&self) -> Seq<char> {
        self.chars@
    }

    /// The position of the next character to read.
    pub closed spec fn pos(&self) -> int {
        self.position as int
    }

    pub closed spec fn wf(&self) -> bool {
        &&& self.chars@ == self.input@
        &&& self.position <= self.chars@.len()
    }

    /// A scanner at the start of `input`.
    pub fn new(input: String) -> (r: Lexer)
        ensures
            r.wf(),
            r.text() == input@,
            r.pos() == 0,
    {
        let chars = chars_of(input.as_str());
        Lexer { input, chars, position: 0 }
    }

    /// The character under the cursor, or `'\0'` at the end of the text.
    fn read(&self) -> (r: char)
        requires
            self.wf(),
        ensures
            r == char_at(self.text(), self.pos()),
    {
        if self.position < self.chars.len() {
            self.chars[self.position]
        } else {
            '\0'
        }
    }

    /// The character one past the cursor, or `'\0'` where there is none.
    fn peek(&self) -> (r: char)
        requires
            self.wf(),
        ensures
            r == char_at(self.text(), self.pos() + 1),
    {
        if self.position < self.chars.len() && self.position + 1 < self.chars.len() {
            self.chars[self.position + 1]
        } else {
            '\0'
        }
    }

    fn advance(&mut self)
        requires
            old(self).wf(),
            old(self).pos() < old(self).text().len(),
        ensures
            final(self).wf(),
            final(self).text() == old(self).text(),
            final(self).pos() == old(self).pos() + 1,
    {
        if self.position < self.chars.len() {
            self.position = self.position + 1;
        }
    }

    /// Moves the cursor past the blanks in front of it.
    fn skip_blanks(&mut self)
        requires
            old(self).wf(),
        ensures
            final(self).wf(),
            final(self).text() == old(self).text(),
            final(self).pos() == blank_end(old(self).text(), old(self).pos()),
    {
        while self.position < self.chars.len() && blank(self.chars[self.position])
            invariant
                self.wf(),
                self.text() == old(self).text(),
                blank_end(self.text(), self.pos()) == blank_end(
                    old(self).text(),
                    old(self).pos(),
                ),
            decreases self.text().len() - self.pos(),
        {
            self.position = self.position + 1;
        }
    }

    /// Moves the cursor to the end of the run of class `k` that starts under
    /// it, and gives the run's bounds.
    fn read_string(&mut self, k: CharClass) -> (r: (usize, usize))
        requires
            old(self).wf(),
        ensures
            final(self).wf(),
            final(self).text() == old(self).text(),
            r.0 == old(self).pos(),
            r.1 == final(self).pos(),
            r.0 <= r.1,
            final(self).pos() == run_end(old(self).text(), old(self).pos(), k),
    {
        let start = self.position;
        while self.position < self.chars.len() && class_has(k, self.chars[self.position])
            invariant
                self.wf(),
                self.text() == old(self).text(),
                start == old(self).pos(),
                start <= self.position,
                run_end(self.text(), self.pos(), k) == run_end(old(self).text(), old(self).pos(), k),
            decreases self.text().len() - self.pos(),
        {
            self.position = self.position + 1;
        }
        (start, self.position)
    }

    /// With the cursor on an opening double quote: moves it past the string
    /// literal, closing quote included where there is one, and gives the
    /// bounds of the text between the quotes.
    fn read_full_string(&mut self) -> (r: (usize, usize))
        requires
            old(self).wf(),
            old(self).pos() < old(self).text().len(),
        ensures
            final(self).wf(),
            final(self).text() == old(self).text(),
            r.0 == old(self).pos() + 1,
            r.0 <= r.1 <= old(self).text().len(),
            r.1 == run_end(old(self).text(), old(self).pos() + 1, CharClass::InString),
            final(self).pos() == if r.1 < old(self).text().len() {
                r.1 + 1
            } else {
                r.1 as int
            },
    {
        self.advance();
        let (start, end) = self.read_string(CharClass::InString);
        if self.position < self.chars.len() {
            self.advance();
        }
        (start, end)
    }

    /// The text of positions `start` to `end`.
    fn slice(&self, start: usize, end: usize) -> (r: &str)
        requires
            self.wf(),
            start <= end <= self.text().len(),
        ensures
            r@ == self.text().subrange(start as int, end as int),
    {
        self.input.as_str().substring_char(start, end)
    }
    /// Skips the blanks under the cursor, then consumes exactly one lexeme and
    /// gives its token; at the end of the text it gives `Token::Eof` and
    /// consumes nothing, however often it is called.
    pub fn next_token(&mut self) -> (r: Token)
        requires
            old(self).wf(),
        ensures
            final(self).wf(),
            final(self).text() == old(self).text(),
            r@ == scan(old(self).text(), old(self).pos()).0,
            final(self).pos() == scan(old(self).text(), old(self).pos()).1,
    {
        self.skip_blanks();
        if self.position >= self.chars.len() {
            return Token::Eof;
        }
        let c = self.read();
        match punct_token(c) {
            Some(t) => {
                self.advance();
                t
            },
            None => {
                if c == '=' {
                    if self.peek() == '=' {
                        self.advance();
                        self.advance();
                        Token::Eq
                    } else {
                        self.advance();
                        Token::Assign
                    }
                } else if c == '!' {
                    if self.peek() == '=' {
                        self.advance();
                        self.advance();
                        Token::NotEq
                    } else {
                        self.advance();
                        Token::Bang
                    }
                } else if class_has(CharClass::Digit, c) {
                    let (start, end) = self.read_string(CharClass::Digit);
                    Token::Int(self.slice(start, end).to_string())
                } else if class_has(CharClass::Letter, c) {
                    let (start, end) = self.read_string(CharClass::Letter);
                    Token::get_keyword(self.slice(start, end))
                } else if c == '"' {
                    let (start, end) = self.read_full_string();
                    Token::String(self.slice(start, end).to_string())
                } else {
                    self.advance();
                    Token::Illegal
                }
            },
        }
    }
}

/// The token of a one-character operator or delimiter, if `c` is one.
fn punct_token(c: char) -> (r: Option<Token>)
    ensures
        match r {
            Some(t) => punct(c) == Some(t@),
            None => punct(c) is None,
        },
{
    match c {
        '(' => Some(Token::LParen),
        ')' => Some(Token::RParen),
        '{' => Some(Token::LBrace),
        '}' => Some(Token::RBrace),
        '[' => Some(Token::LBracket),
        ']' => Some(Token::RBracket),
        ',' => Some(Token::Comma),
        ';' => Some(Token::Semicolon),
        ':' => Some(Token::Colon),
        '+' => Some(Token::Plus),
        '-' => Some(Token::Minus),
        '*' => Some(Token::Asterisk),
        '/' => Some(Token::Slash),
        '<' => Some(Token::Lt),
        '>' => Some(Token::Gt),
        _ => None,
    }
}

/// The tokens of `input` in order, up to and not including end of input: the
/// `i`-th is what the `i`-th successive scan from the start gives.
pub fn tokenize(input: &str) -> (r: Vec<Token>)
    ensures
        forall|i: int|
            0 <= i < r@.len() ==> (#[trigger] r@[i])@ == scan(input@, pos_after(input@, i as nat)).0
                && !(r@[i]@ is Eof),
        scan(input@, pos_after(input@, r@.len())).0 is Eof,
{
    let mut lexer = Lexer::new(input.to_string());
    let mut out: Vec<Token> = Vec::new();
    loop
        invariant_except_break
            lexer.pos() == pos_after(input@, out@.len()),
        invariant
            lexer.wf(),
            lexer.text() == input@,
            forall|i: int|
                0 <= i < out@.len() ==> (#[trigger] out@[i])@ == scan(
                    input@,
                    pos_after(input@, i as nat),
                ).0 && !(out@[i]@ is Eof),
        ensures
            forall|i: int|
                0 <= i < out@.len() ==> (#[trigger] out@[i])@ == scan(
                    input@,
                    pos_after(input@, i as nat),
                ).0 && !(out@[i]@ is Eof),
            scan(input@, pos_after(input@, out@.len())).0 is Eof,
        decreases input@.len() - lexer.pos(),
    {
        proof {
            lemma_scan_progress(input@, lexer.pos());
        }
        let t = lexer.next_token();
        match t {
            Token::Eof => {
                break;
            },
            other => {
                out.push(other);
                assert(pos_after(input@, out@.len()) == scan(
                    input@,
                    pos_after(input@, (out@.len() - 1) as nat),
                ).1);
            },
        }
    }
    out
}

} // verus!
