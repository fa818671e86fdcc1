use vstd::prelude::*;

use crate::text::{chars_of, lower_seq, to_lower_char};

verus! {

/// One lexical token. Identifiers and integer literals carry their text as
/// written; string literals carry the text between the quotes.
#[derive(Debug, PartialEq, Eq)]
pub enum Token {
    Illegal,
    Eof,
    Ident(String),
    Int(String),
    String(String),
    Assign,
    Plus,
    Minus,
    Bang,
    Asterisk,
    Slash,
    Lt,
    Gt,
    Eq,
    NotEq,
    Comma,
    Semicolon,
    Colon,
    LParen,
    RParen,
    LBrace,
    RBrace,
    LBracket,
    RBracket,
    Function,
    Let,
    True,
    False,
    If,
    Else,
    Return,
}

/// The mathematical value of a `Token`: the same variants, with the text of
/// a payload as a sequence of characters.
pub enum TokenView {
    Illegal,
    Eof,
    Ident(Seq<char>),
    Int(Seq<char>),
    Str(Seq<char>),
    Assign,
    Plus,
    Minus,
    Bang,
    Asterisk,
    Slash,
    Lt,
    Gt,
    Eq,
    NotEq,
    Comma,
    Semicolon,
    Colon,
    LParen,
    RParen,
    LBrace,
    RBrace,
    LBracket,
    RBracket,
    Function,
    Let,
    True,
    False,
    If,
    Else,
    Return,
}

impl View for Token {
    type V = TokenView;

    open spec fn view(&self) -> TokenView {
        match self {
            Token::Illegal => TokenView::Illegal,
            Token::Eof => TokenView::Eof,
            Token::Ident(s) => TokenView::Ident(s@),
            Token::Int(s) => TokenView::Int(s@),
            Token::String(s) => TokenView::Str(s@),
            Token::Assign => TokenView::Assign,
            Token::Plus => TokenView::Plus,
            Token::Minus => TokenView::Minus,
            Token::Bang => TokenView::Bang,
            Token::Asterisk => TokenView::Asterisk,
            Token::Slash => TokenView::Slash,
            Token::Lt => TokenView::Lt,
            Token::Gt => TokenView::Gt,
            Token::Eq => TokenView::Eq,
            Token::NotEq => TokenView::NotEq,
            Token::Comma => TokenView::Comma,
            Token::Semicolon => TokenView::Semicolon,
            Token::Colon => TokenView::Colon,
            Token::LParen => TokenView::LParen,
            Token::RParen => TokenView::RParen,
            Token::LBrace => TokenView::LBrace,
            Token::RBrace => TokenView::RBrace,
            Token::LBracket => TokenView::LBracket,
            Token::RBracket => TokenView::RBracket,
            Token::Function => TokenView::Function,
            Token::Let => TokenView::Let,
            Token::True => TokenView::True,
            Token::False => TokenView::False,
            Token::If => TokenView::If,
            Token::Else => TokenView::Else,
            Token::Return => TokenView::Return,
        }
    }
}

/// The keyword table: the keyword spelled `w` (in lower case), if any.
pub open spec fn keyword_of(w: Seq<char>) -> Option<TokenView> {
    if w == seq!['f', 'n'] {
        Some(TokenView::Function)
    } else if w == seq!['l', 'e', 't'] {
        Some(TokenView::Let)
    } else if w == seq!['t', 'r', 'u', 'e'] {
        Some(TokenView::True)
    } else if w == seq!['f', 'a', 'l', 's', 'e'] {
        Some(TokenView::False)
    } else if w == seq!['i', 'f'] {
        Some(TokenView::If)
    } else if w == seq!['e', 'l', 's', 'e'] {
        Some(TokenView::Else)
    } else if w == seq!['r', 'e', 't', 'u', 'r', 'n'] {
        Some(TokenView::Return)
    } else {
        None
    }
}

/// The token for the word `w`: its keyword when `w` folded to lower case is
/// in the keyword table, otherwise an identifier carrying `w` unchanged.
pub open spec fn classify(w: Seq<char>) -> TokenView {
    match keyword_of(lower_seq(w)) {
        Some(k) => k,
        None => TokenView::Ident(w),
    }
}

/// Whether `w` is the sequence of characters `k`.
fn same_chars(w: &Vec<char>, k: &Vec<char>) -> (r: bool)
    ensures
        r == (w@ == k@),
{
    if w.len() != k.len() {
        return false;
    }
    let mut i: usize = 0;
    while i < w.len()
        invariant
            w@.len() == k@.len(),
            i <= w@.len(),
            forall|j: int| 0 <= j < i ==> w@[j] == k@[j],
        decreases w@.len() - i,
    {
        if w[i] != k[i] {
            return false;
        }
        i = i + 1;
    }
    assert(w@ =~= k@);
    true
}

impl Token {
    /// The keyword token for `s` when `s`, folded to lower case, is a
    /// keyword; otherwise an identifier carrying `s` as written.
    pub fn get_keyword(s: &str) -> (r: Token)
        ensures
            r@ == classify(s@),
    {
        let w = chars_of(s);
        let mut lower: Vec<char> = Vec::new();
        let mut i: usize = 0;
        while i < w.len()
            invariant
                i <= w@.len(),
                lower@ == lower_seq(w@.subrange(0, i as int)),
            decreases w@.len() - i,
        {
            lower.push(to_lower_char(w[i]));
            i = i + 1;
            assert(lower_seq(w@.subrange(0, i as int)) =~= lower@);
        }
        assert(w@.subrange(0, w@.len() as int) =~= w@);
        if same_chars(&lower, &vec!['f', 'n']) {
            Token::Function
        } else if same_chars(&lower, &vec!['l', 'e', 't']) {
            Token::Let
        } else if same_chars(&lower, &vec!['t', 'r', 'u', 'e']) {
            Token::True
        } else if same_chars(&lower, &vec!['f', 'a', 'l', 's', 'e']) {
            Token::False
        } else if same_chars(&lower, &vec!['i', 'f']) {
            Token::If
        } else if same_chars(&lower, &vec!['e', 'l', 's', 'e']) {
            Token::Else
        } else if same_chars(&lower, &vec!['r', 'e', 't', 'u', 'r', 'n']) {
            Token::Return
        } else {
            Token::Ident(s.to_string())
        }
    }
}

} // verus!
