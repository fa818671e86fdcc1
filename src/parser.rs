use vstd::prelude::*;

use crate::lexer::Lexer;
use crate::model::scan;
use crate::types::Token;

verus! {

/// The front of a parser: a scanner together with the token under
/// consideration and the one after it.
pub struct Parser {
    pub cur_token: Token,
    pub next_token: Token,
    pub lexer: Lexer,
}

impl Parser {
    /// Takes the first two tokens from `l`.
    pub fn new(l: Lexer) -> (r: Parser)
        requires
            l.wf(),
        ensures
            r.lexer.wf(),
            r.lexer.text() == l.text(),
            r.cur_token@ == scan(l.text(), l.pos()).0,
            r.next_token@ == scan(l.text(), scan(l.text(), l.pos()).1).0,
            r.lexer.pos() == scan(l.text(), scan(l.text(), l.pos()).1).1,
    {
        let mut l = l;
        let cur_token = l.next_token();
        let next_token = l.next_token();
        Parser { cur_token, next_token, lexer: l }
    }
}

} // verus!
