//! The engine's driver: the invocation input is split into header
//! tokens and a brace-delimited body group; the header is parsed; the
//! scanner runs once over the body; if it found a marker anywhere its
//! output stands, otherwise the whole body is repeated once per index
//! of the range.

use vstd::prelude::*;

use crate::diag::ExpandError;
use crate::header::{header_parse, parse_header};
use crate::node::{copy_fragment, fragment_view, node_view, Delim, Node, NodeV};
use crate::scan::{eff_stop, repeat_expansion, repeat_subst, scan, scan_found, scan_out};

verus! {

/// Whether the node is a brace-delimited group.
pub open spec fn is_brace_group(n: NodeV) -> bool {
    n matches NodeV::Group { delim, .. } && delim == Delim::Brace
}

/// The children of the last brace-delimited group among the top-level
/// nodes, if any: the loop body of the invocation.
pub open spec fn split_body(s: Seq<NodeV>) -> Option<Seq<NodeV>>
    decreases s.len(),
{
    if s.len() == 0 {
        None
    } else if is_brace_group(s.last()) {
        Some(s.last()->children)
    } else {
        split_body(s.drop_last())
    }
}

/// The header tokens: the top-level nodes that are not brace groups,
/// in order.
pub open spec fn split_header(s: Seq<NodeV>) -> Seq<NodeV>
    decreases s.len(),
{
    if s.len() == 0 {
        Seq::empty()
    } else if is_brace_group(s.last()) {
        split_header(s.drop_last())
    } else {
        split_header(s.drop_last()).push(s.last())
    }
}

/// What the engine returns on the given invocation input: the error of
/// the missing body or of the malformed header, or the expanded body —
/// the scanner's single-pass output where a marker exists anywhere, the
/// whole-body repetition otherwise.
pub open spec fn expand_spec(s: Seq<NodeV>) -> Result<Seq<NodeV>, ExpandError> {
    match split_body(s) {
        None => Err(ExpandError::MissingBody),
        Some(b) => match header_parse(split_header(s)) {
            Err(e) => Err(e),
            Ok(h) => {
                let lo = h.start as int;
                let hi = eff_stop(h.stop, h.stop_is_inclusive);
                if scan_found(b) {
                    Ok(scan_out(b, h.variable, lo, hi))
                } else {
                    Ok(repeat_subst(b, h.variable, lo, hi))
                }
            },
        },
    }
}

/// Whether the node is a brace-delimited group.
fn brace_group(n: &Node) -> (r: bool)
    ensures
        r == is_brace_group(n@),
{
    match n {
        Node::Group { delim, .. } => *delim == Delim::Brace,
        _ => false,
    }
}

/// Runs the whole engine on the invocation input. On success the
/// result is the expanded fragment; on failure no output is produced
/// and the diagnostic names the offending construct.
pub fn expand(input: &Vec<Node>) -> (r: Result<Vec<Node>, ExpandError>)
    ensures
        (r matches Ok(out) ==> expand_spec(fragment_view(input@)) == Ok::<
            Seq<NodeV>,
            ExpandError,
        >(fragment_view(out@))),
        (r matches Err(e) ==> expand_spec(fragment_view(input@)) == Err::<
            Seq<NodeV>,
            ExpandError,
        >(e)),
{
    broadcast use crate::node::lemma_fragment_view_len, crate::node::lemma_fragment_view_index, crate::node::lemma_fragment_view_push;

    let ghost full = fragment_view(input@);
    let mut header: Vec<Node> = Vec::new();
    let mut body: Option<Vec<Node>> = None;
    let mut i: usize = 0;
    proof {
        assert(full.subrange(0, 0) =~= Seq::<NodeV>::empty());
    }
    while i < input.len()
        invariant
            i <= input.len(),
            full == fragment_view(input@),
            fragment_view(header@) == split_header(full.subrange(0, i as int)),
            (body matches Option::None ==> split_body(full.subrange(0, i as int)) is None),
            (body matches Option::Some(b) ==> split_body(full.subrange(0, i as int)) == Some(
                fragment_view(b@),
            )),
        decreases input.len() - i,
    {
        broadcast use crate::node::lemma_fragment_view_len, crate::node::lemma_fragment_view_index, crate::node::lemma_fragment_view_push;

        let ghost pre = full.subrange(0, i as int);
        let ghost cur = full.subrange(0, i as int + 1);
        proof {
            assert(cur.drop_last() =~= pre);
            assert(cur.last() == node_view(input@[i as int]));
        }
        if brace_group(&input[i]) {
            match &input[i] {
                Node::Group { children, .. } => {
                    body = Some(copy_fragment(children));
                },
                _ => {
                    proof {
                        assert(false);
                    }
                },
            }
        } else {
            let c = crate::node::copy_node(&input[i]);
            header.push(c);
        }
        i = i + 1;
    }
    proof {
        assert(full.subrange(0, input@.len() as int) =~= full);
    }
    let body_vec = match body {
        None => {
            return Err(ExpandError::MissingBody);
        },
        Some(b) => b,
    };
    let spec_res = parse_header(&header);
    let h = match spec_res {
        Err(e) => {
            return Err(e);
        },
        Ok(h) => h,
    };
    let mut found = false;
    let scanned = scan(&body_vec, &h.variable, h.start, h.stop, h.stop_is_inclusive, &mut found);
    if found {
        Ok(scanned)
    } else {
        Ok(repeat_expansion(&body_vec, &h.variable, h.start, h.stop, h.stop_is_inclusive))
    }
}

} // verus!
