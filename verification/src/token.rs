//! Lexical tokens.

use vstd::prelude::*;

verus! {

/// The class of a token.
#[derive(Clone, Copy, Debug, PartialEq, Eq, Structural)]
pub enum TokenType {
    Number,
    Word,
    Single,
}

/// A token: its class and the piece of source text that it covers.
#[derive(Clone, Copy, Debug, PartialEq, Eq)]
pub struct Token<'a> {
    pub token_type: TokenType,
    pub slice: &'a str,
}

/// The mathematical value of a token.
pub struct TokenView {
    pub kind: TokenType,
    pub text: Seq<char>,
}

impl<'a> View for Token<'a> {
    type V = TokenView;

    open spec fn view(&self) -> TokenView {
        TokenView { kind: self.token_type, text: self.slice@ }
    }
}

impl<'a> Token<'a> {
    /// A token of class `token_type` that covers `slice`.
    pub fn new(token_type: TokenType, slice: &'a str) -> (r: Token<'a>)
        ensures
            r.token_type == token_type,
            r.slice@ == slice@,
            r@ == (TokenView { kind: token_type, text: slice@ }),
    {
        Token { token_type, slice }
    }
}

/// Whether two pieces of text hold the same characters.
pub fn same_text(a: &str, b: &str) -> (r: bool)
    ensures
        r == (a@ == b@),
{
    let left = a.to_owned();
    let right = b.to_owned();
    left == right
}

} // verus!
