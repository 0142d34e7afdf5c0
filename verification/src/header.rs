//! The header parser: a flat node sequence of the shape
//! `<ident> in <int> .. <int>` or `<ident> in <int> ..= <int>` becomes
//! an expansion specification, or a diagnostic at the first divergent
//! token.

use vstd::prelude::*;

use crate::diag::{ExpandError, HeaderExpect};
use crate::node::{fragment_view, node_view, Node, NodeV};
use crate::num::{dec_val, is_u64_lit, parse_u64};

verus! {

/// What one expansion runs over: the bound variable and the numeric
/// range.
#[derive(Debug)]
pub struct ExpansionSpec {
    pub variable: String,
    pub start: u64,
    pub stop: u64,
    pub stop_is_inclusive: bool,
}

/// The mathematical image of an `ExpansionSpec`.
#[verifier::ext_equal]
pub ghost struct HeaderV {
    pub variable: Seq<char>,
    pub start: u64,
    pub stop: u64,
    pub stop_is_inclusive: bool,
}

impl View for ExpansionSpec {
    type V = HeaderV;

    open spec fn view(&self) -> HeaderV {
        HeaderV {
            variable: self.variable@,
            start: self.start,
            stop: self.stop,
            stop_is_inclusive: self.stop_is_inclusive,
        }
    }
}

/// The position carried by a node.
pub open spec fn pos_of(n: NodeV) -> u64 {
    match n {
        NodeV::Ident { pos, .. } => pos,
        NodeV::Lit { pos, .. } => pos,
        NodeV::Punct { pos, .. } => pos,
        NodeV::Group { pos, .. } => pos,
    }
}

/// The position reported for the token expected at index `i`: the
/// token's own position, or, past the end of the sequence, the position
/// of the last token, or zero for an empty sequence.
pub open spec fn pos_at(s: Seq<NodeV>, i: int) -> u64 {
    if 0 <= i < s.len() {
        pos_of(s[i])
    } else if s.len() > 0 {
        pos_of(s[s.len() - 1])
    } else {
        0
    }
}

/// The header grammar: identifier, keyword `in`, integer literal, two
/// `.` punctuations, an optional `=` marking an inclusive range,
/// integer literal, end of sequence. The first divergent token decides
/// the error: a non-literal where a literal is due is a syntax error, a
/// literal that is not a plain decimal u64 is a conversion error.
pub open spec fn header_parse(s: Seq<NodeV>) -> Result<HeaderV, ExpandError> {
    if !(s.len() > 0 && s[0] is Ident) {
        Err(ExpandError::HeaderSyntax { pos: pos_at(s, 0), expected: HeaderExpect::Variable })
    } else if !(s.len() > 1 && (s[1] matches NodeV::Ident { name, .. } && name == "in"@)) {
        Err(ExpandError::HeaderSyntax { pos: pos_at(s, 1), expected: HeaderExpect::InKeyword })
    } else if !(s.len() > 2 && s[2] is Lit) {
        Err(ExpandError::HeaderSyntax { pos: pos_at(s, 2), expected: HeaderExpect::RangeStart })
    } else if !is_u64_lit(s[2]->text) {
        Err(ExpandError::RangeConversion { pos: pos_at(s, 2) })
    } else if !(s.len() > 3 && (s[3] matches NodeV::Punct { ch: c3, .. } && c3 == '.')) {
        Err(ExpandError::HeaderSyntax { pos: pos_at(s, 3), expected: HeaderExpect::RangeDot })
    } else if !(s.len() > 4 && (s[4] matches NodeV::Punct { ch: c4, .. } && c4 == '.')) {
        Err(ExpandError::HeaderSyntax { pos: pos_at(s, 4), expected: HeaderExpect::RangeDot })
    } else if !(s.len() > 5) {
        Err(ExpandError::HeaderSyntax { pos: pos_at(s, 5), expected: HeaderExpect::StopOrEquals })
    } else if s[5] matches NodeV::Punct { ch: c5, .. } && c5 == '=' {
        if !(s.len() > 6 && s[6] is Lit) {
            Err(ExpandError::HeaderSyntax { pos: pos_at(s, 6), expected: HeaderExpect::RangeStop })
        } else if !is_u64_lit(s[6]->text) {
            Err(ExpandError::RangeConversion { pos: pos_at(s, 6) })
        } else if s.len() != 7 {
            Err(ExpandError::HeaderSyntax { pos: pos_at(s, 7), expected: HeaderExpect::HeaderEnd })
        } else {
            Ok(
                HeaderV {
                    variable: s[0]->name,
                    start: dec_val(s[2]->text) as u64,
                    stop: dec_val(s[6]->text) as u64,
                    stop_is_inclusive: true,
                },
            )
        }
    } else if s[5] is Lit {
        if !is_u64_lit(s[5]->text) {
            Err(ExpandError::RangeConversion { pos: pos_at(s, 5) })
        } else if s.len() != 6 {
            Err(ExpandError::HeaderSyntax { pos: pos_at(s, 6), expected: HeaderExpect::HeaderEnd })
        } else {
            Ok(
                HeaderV {
                    variable: s[0]->name,
                    start: dec_val(s[2]->text) as u64,
                    stop: dec_val(s[5]->text) as u64,
                    stop_is_inclusive: false,
                },
            )
        }
    } else {
        Err(ExpandError::HeaderSyntax { pos: pos_at(s, 5), expected: HeaderExpect::StopOrEquals })
    }
}

/// The position carried by the node.
pub fn node_pos(n: &Node) -> (r: u64)
    ensures
        r == pos_of(n@),
{
    match n {
        Node::Ident { pos, .. } => *pos,
        Node::Lit { pos, .. } => *pos,
        Node::Punct { pos, .. } => *pos,
        Node::Group { pos, .. } => *pos,
    }
}

/// The reported position for the token expected at index `i` of `ns`.
fn vec_pos_at(ns: &Vec<Node>, i: usize) -> (r: u64)
    ensures
        r == pos_at(fragment_view(ns@), i as int),
{
    broadcast use crate::node::lemma_fragment_view_len, crate::node::lemma_fragment_view_index;

    if i < ns.len() {
        node_pos(&ns[i])
    } else if ns.len() > 0 {
        node_pos(&ns[ns.len() - 1])
    } else {
        0
    }
}

/// Parses the header node sequence, reporting the first divergent
/// token.
pub fn parse_header(header: &Vec<Node>) -> (r: Result<ExpansionSpec, ExpandError>)
    ensures
        (r matches Ok(h) ==> header_parse(fragment_view(header@)) == Ok::<HeaderV, ExpandError>(
            h@,
        )),
        (r matches Err(e) ==> header_parse(fragment_view(header@)) == Err::<HeaderV, ExpandError>(
            e,
        )),
{
    broadcast use crate::node::lemma_fragment_view_len, crate::node::lemma_fragment_view_index;

    let ghost s = fragment_view(header@);
    let n = header.len();
    if n == 0 {
        return Err(
            ExpandError::HeaderSyntax { pos: vec_pos_at(header, 0), expected: HeaderExpect::Variable },
        );
    }
    let variable: String = match &header[0] {
        Node::Ident { name, .. } => name.clone(),
        _ => {
            return Err(
                ExpandError::HeaderSyntax {
                    pos: vec_pos_at(header, 0),
                    expected: HeaderExpect::Variable,
                },
            );
        },
    };
    let kw_ok = if n > 1 {
        match &header[1] {
            Node::Ident { name, .. } => *name == "in".to_owned(),
            _ => false,
        }
    } else {
        false
    };
    if !kw_ok {
        return Err(
            ExpandError::HeaderSyntax { pos: vec_pos_at(header, 1), expected: HeaderExpect::InKeyword },
        );
    }
    let start: u64 = if n > 2 {
        match &header[2] {
            Node::Lit { text, .. } => {
                match parse_u64(text.as_str()) {
                    Some(v) => v,
                    None => {
                        return Err(ExpandError::RangeConversion { pos: vec_pos_at(header, 2) });
                    },
                }
            },
            _ => {
                return Err(
                    ExpandError::HeaderSyntax {
                        pos: vec_pos_at(header, 2),
                        expected: HeaderExpect::RangeStart,
                    },
                );
            },
        }
    } else {
        return Err(
            ExpandError::HeaderSyntax {
                pos: vec_pos_at(header, 2),
                expected: HeaderExpect::RangeStart,
            },
        );
    };
    if !(n > 3 && is_dot(&header[3])) {
        return Err(
            ExpandError::HeaderSyntax { pos: vec_pos_at(header, 3), expected: HeaderExpect::RangeDot },
        );
    }
    if !(n > 4 && is_dot(&header[4])) {
        return Err(
            ExpandError::HeaderSyntax { pos: vec_pos_at(header, 4), expected: HeaderExpect::RangeDot },
        );
    }
    if !(n > 5) {
        return Err(
            ExpandError::HeaderSyntax {
                pos: vec_pos_at(header, 5),
                expected: HeaderExpect::StopOrEquals,
            },
        );
    }
    let equals = match &header[5] {
        Node::Punct { ch, .. } => *ch == '=',
        _ => false,
    };
    if equals {
        let stop: u64 = if n > 6 {
            match &header[6] {
                Node::Lit { text, .. } => {
                    match parse_u64(text.as_str()) {
                        Some(v) => v,
                        None => {
                            return Err(ExpandError::RangeConversion { pos: vec_pos_at(header, 6) });
                        },
                    }
                },
                _ => {
                    return Err(
                        ExpandError::HeaderSyntax {
                            pos: vec_pos_at(header, 6),
                            expected: HeaderExpect::RangeStop,
                        },
                    );
                },
            }
        } else {
            return Err(
                ExpandError::HeaderSyntax {
                    pos: vec_pos_at(header, 6),
                    expected: HeaderExpect::RangeStop,
                },
            );
        };
        if n != 7 {
            return Err(
                ExpandError::HeaderSyntax {
                    pos: vec_pos_at(header, 7),
                    expected: HeaderExpect::HeaderEnd,
                },
            );
        }
        Ok(ExpansionSpec { variable, start, stop, stop_is_inclusive: true })
    } else {
        let stop: u64 = match &header[5] {
            Node::Lit { text, .. } => {
                match parse_u64(text.as_str()) {
                    Some(v) => v,
                    None => {
                        return Err(ExpandError::RangeConversion { pos: vec_pos_at(header, 5) });
                    },
                }
            },
            _ => {
                return Err(
                    ExpandError::HeaderSyntax {
                        pos: vec_pos_at(header, 5),
                        expected: HeaderExpect::StopOrEquals,
                    },
                );
            },
        };
        if n != 6 {
            return Err(
                ExpandError::HeaderSyntax {
                    pos: vec_pos_at(header, 6),
                    expected: HeaderExpect::HeaderEnd,
                },
            );
        }
        Ok(ExpansionSpec { variable, start, stop, stop_is_inclusive: false })
    }
}

/// Whether the node is a `.` punctuation.
fn is_dot(n: &Node) -> (r: bool)
    ensures
        r == (n@ matches NodeV::Punct { ch, .. } && ch == '.'),
{
    match n {
        Node::Punct { ch, .. } => *ch == '.',
        _ => false,
    }
}

} // verus!
