//! The failure side of an expansion: every error carries the kind of
//! divergence and the position of the offending token, and can be
//! rendered as a human-readable message.

use vstd::prelude::*;

use crate::num::{dec_str, u64_to_dec};

verus! {

/// The token the header grammar expected at the point of divergence.
#[derive(Clone, Copy, Debug, PartialEq, Eq, Structural)]
pub enum HeaderExpect {
    /// The bound variable: an identifier.
    Variable,
    /// The keyword `in`.
    InKeyword,
    /// The integer literal that starts the range.
    RangeStart,
    /// One of the two `.` punctuations between the range ends.
    RangeDot,
    /// Either `=` (inclusive range) or the integer literal that stops
    /// the range.
    StopOrEquals,
    /// The integer literal that stops the range.
    RangeStop,
    /// The end of the header.
    HeaderEnd,
}

/// Why an expansion failed. Every failure is terminal: no partial
/// output is produced.
#[derive(Clone, Copy, Debug, PartialEq, Eq, Structural)]
pub enum ExpandError {
    /// The header does not match `<ident> in <int> ..[=] <int>`;
    /// `pos` is the position of the first divergent token.
    HeaderSyntax { pos: u64, expected: HeaderExpect },
    /// A range literal is not a plain decimal unsigned 64-bit value.
    RangeConversion { pos: u64 },
    /// The invocation lacks a brace-delimited body group.
    MissingBody,
}

pub open spec fn expect_text(x: HeaderExpect) -> Seq<char> {
    match x {
        HeaderExpect::Variable => "an identifier"@,
        HeaderExpect::InKeyword => "the keyword `in`"@,
        HeaderExpect::RangeStart => "an integer literal"@,
        HeaderExpect::RangeDot => "a `.` punctuation"@,
        HeaderExpect::StopOrEquals => "`=` or an integer literal"@,
        HeaderExpect::RangeStop => "an integer literal"@,
        HeaderExpect::HeaderEnd => "the end of the header"@,
    }
}

pub open spec fn position_of(e: ExpandError) -> u64 {
    match e {
        ExpandError::HeaderSyntax { pos, .. } => pos,
        ExpandError::RangeConversion { pos } => pos,
        ExpandError::MissingBody => 0,
    }
}

pub open spec fn message_of(e: ExpandError) -> Seq<char> {
    match e {
        ExpandError::HeaderSyntax { pos, expected } => "malformed header: expected "@
            + expect_text(expected) + " at position "@ + dec_str(pos as nat),
        ExpandError::RangeConversion { pos } => "range literal does not fit in u64 at position "@
            + dec_str(pos as nat),
        ExpandError::MissingBody => "no brace-delimited body group"@,
    }
}

impl ExpandError {
    /// The best-known source position of the offending construct.
    pub fn position(&self) -> (r: u64)
        ensures
            r == position_of(*self),
    {
        match self {
            ExpandError::HeaderSyntax { pos, .. } => *pos,
            ExpandError::RangeConversion { pos } => *pos,
            ExpandError::MissingBody => 0,
        }
    }

    /// A human-readable rendering of the diagnostic.
    pub fn message(&self) -> (r: String)
        ensures
            r@ == message_of(*self),
    {
        match self {
            ExpandError::HeaderSyntax { pos, expected } => {
                let mut m = "malformed header: expected ".to_owned();
                let what = match expected {
                    HeaderExpect::Variable => "an identifier",
                    HeaderExpect::InKeyword => "the keyword `in`",
                    HeaderExpect::RangeStart => "an integer literal",
                    HeaderExpect::RangeDot => "a `.` punctuation",
                    HeaderExpect::StopOrEquals => "`=` or an integer literal",
                    HeaderExpect::RangeStop => "an integer literal",
                    HeaderExpect::HeaderEnd => "the end of the header",
                };
                m.append(what);
                m.append(" at position ");
                let p = u64_to_dec(*pos);
                m.append(p.as_str());
                m
            },
            ExpandError::RangeConversion { pos } => {
                let mut m = "range literal does not fit in u64 at position ".to_owned();
                let p = u64_to_dec(*pos);
                m.append(p.as_str());
                m
            },
            ExpandError::MissingBody => "no brace-delimited body group".to_owned(),
        }
    }
}

} // verus!
