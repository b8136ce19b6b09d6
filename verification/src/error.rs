//! The conditions that end a parse.

use vstd::prelude::*;

verus! {

/// Why a parse was given up.
#[derive(Clone, Copy, Debug, PartialEq, Eq, Structural)]
pub enum ParseError {
    /// An opening bracket has no matching closing bracket.
    UnmatchedBracket,
    /// A token was left over that is neither a separator nor a bare name.
    UnexpectedToken,
    /// A rule's constructor got captures that it cannot build a node from.
    RuleMismatch,
    /// A new name needed a slot and every slot number was taken.
    SlotsExhausted,
}

impl ParseError {
    /// The message of the condition.
    pub fn message(&self) -> (r: String)
        ensures
            r@ == match *self {
                ParseError::UnmatchedBracket => "unmatched opening bracket"@,
                ParseError::UnexpectedToken => "unexpected token"@,
                ParseError::RuleMismatch => "rule and constructor do not fit"@,
                ParseError::SlotsExhausted => "no storage slot left"@,
            },
    {
        match self {
            ParseError::UnmatchedBracket => String::from_str("unmatched opening bracket"),
            ParseError::UnexpectedToken => String::from_str("unexpected token"),
            ParseError::RuleMismatch => String::from_str("rule and constructor do not fit"),
            ParseError::SlotsExhausted => String::from_str("no storage slot left"),
        }
    }
}

} // verus!
