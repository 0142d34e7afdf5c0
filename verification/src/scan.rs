//! The repeat-marker scanner: one recursive walk over the body that
//! replaces every marker (`#`, a parenthesis group, `*`) with the
//! expansions of the group over the whole range, and reports through a
//! shared flag whether any marker was found anywhere in the tree.

use vstd::prelude::*;

use crate::node::{fragment_view, node_view, Delim, Node, NodeV};
use crate::subst::{is_punct, subst_seq, substitute};

verus! {

/// The exclusive upper end of the expansion range.
pub open spec fn eff_stop(stop: u64, inclusive: bool) -> int {
    if inclusive {
        stop + 1
    } else {
        stop as int
    }
}

/// The concatenation of one substituted copy of `body` for each index
/// in `[lo, hi)`, in ascending order.
pub open spec fn repeat_subst(body: Seq<NodeV>, var: Seq<char>, lo: int, hi: int) -> Seq<NodeV>
    decreases hi - lo,
{
    if lo < hi {
        subst_seq(body, var, lo as nat) + repeat_subst(body, var, lo + 1, hi)
    } else {
        Seq::empty()
    }
}

pub proof fn lemma_repeat_subst_snoc(body: Seq<NodeV>, var: Seq<char>, lo: int, hi: int)
    requires
        lo <= hi,
    ensures
        repeat_subst(body, var, lo, hi + 1) == repeat_subst(body, var, lo, hi) + subst_seq(
            body,
            var,
            hi as nat,
        ),
    decreases hi - lo,
{
    if lo == hi {
        assert(repeat_subst(body, var, lo, hi) =~= Seq::empty());
        assert(repeat_subst(body, var, hi + 1, hi + 1) =~= Seq::empty());
        assert(repeat_subst(body, var, lo, hi + 1) =~= subst_seq(body, var, hi as nat));
        assert(Seq::empty() + subst_seq(body, var, hi as nat) =~= subst_seq(body, var, hi as nat));
    } else {
        lemma_repeat_subst_snoc(body, var, lo + 1, hi);
        assert(repeat_subst(body, var, lo, hi + 1) =~= repeat_subst(body, var, lo, hi)
            + subst_seq(body, var, hi as nat));
    }
}

/// Whether `s` starts with the three-node repeat marker: the marker
/// punctuation `#`, a parenthesis group, the continuation punctuation
/// `*`.
pub open spec fn marker_at(s: Seq<NodeV>) -> bool {
    &&& s.len() >= 3
    &&& s[0] matches NodeV::Punct { ch: c0, .. } && c0 == '#'
    &&& s[1] matches NodeV::Group { delim: d1, .. } && d1 == Delim::Paren
    &&& s[2] matches NodeV::Punct { ch: c2, .. } && c2 == '*'
}

/// Whether the scan finds a repeat marker anywhere in `s`, including
/// inside nested groups.
pub open spec fn scan_found(s: Seq<NodeV>) -> bool
    decreases s,
    via scan_found_decreases
{
    if s.len() == 0 {
        false
    } else if marker_at(s) {
        true
    } else {
        match s[0] {
            NodeV::Group { children, .. } => scan_found(children) || scan_found(
                s.subrange(1, s.len() as int),
            ),
            _ => scan_found(s.subrange(1, s.len() as int)),
        }
    }
}

#[via_fn]
proof fn scan_found_decreases(s: Seq<NodeV>) {
    if s.len() > 0 {
        assert(decreases_to!(s => s[0]));
    }
}

/// The scanner's output: each marker is replaced by the expansions of
/// its group over `[lo, hi)`; every other group is rebuilt around the
/// scan of its children; every other node is kept as it is.
pub open spec fn scan_out(s: Seq<NodeV>, var: Seq<char>, lo: int, hi: int) -> Seq<NodeV>
    decreases s,
    via scan_out_decreases
{
    if s.len() == 0 {
        Seq::empty()
    } else if marker_at(s) {
        repeat_subst(s[1]->children, var, lo, hi) + scan_out(
            s.subrange(3, s.len() as int),
            var,
            lo,
            hi,
        )
    } else {
        match s[0] {
            NodeV::Group { delim, children, pos } => seq![
                NodeV::Group { delim, children: scan_out(children, var, lo, hi), pos },
            ] + scan_out(s.subrange(1, s.len() as int), var, lo, hi),
            _ => seq![s[0]] + scan_out(s.subrange(1, s.len() as int), var, lo, hi),
        }
    }
}

#[via_fn]
proof fn scan_out_decreases(s: Seq<NodeV>, var: Seq<char>, lo: int, hi: int) {
    if s.len() > 0 {
        assert(decreases_to!(s => s[0]));
        if marker_at(s) {
            assert(decreases_to!(s => s[1]));
        }
    }
}

/// The concatenation of one substituted copy of `body` for each index
/// of the range, in ascending order: the whole-body repetition that the
/// engine falls back to when no marker exists.
pub fn repeat_expansion(body: &Vec<Node>, var: &String, start: u64, stop: u64, inclusive: bool) -> (r:
    Vec<Node>)
    ensures
        fragment_view(r@) == repeat_subst(
            fragment_view(body@),
            var@,
            start as int,
            eff_stop(stop, inclusive),
        ),
{
    broadcast use crate::node::lemma_fragment_view_len, crate::node::lemma_fragment_view_index, crate::node::lemma_fragment_view_concat;

    let ghost full = fragment_view(body@);
    let ghost hi = eff_stop(stop, inclusive);
    let mut out: Vec<Node> = Vec::new();
    let empty_range = if inclusive {
        start > stop
    } else {
        start >= stop
    };
    if empty_range {
        assert(repeat_subst(full, var@, start as int, hi) =~= fragment_view(out@));
        return out;
    }
    let mut idx: u64 = start;
    proof {
        assert(repeat_subst(full, var@, start as int, start as int) =~= Seq::empty());
        assert(fragment_view(out@) =~= Seq::empty());
    }
    loop
        invariant_except_break
            start <= idx,
            idx < hi,
            hi == eff_stop(stop, inclusive),
            full == fragment_view(body@),
            fragment_view(out@) == repeat_subst(full, var@, start as int, idx as int),
        ensures
            fragment_view(out@) == repeat_subst(full, var@, start as int, hi),
        decreases hi - idx,
    {
        broadcast use crate::node::lemma_fragment_view_len, crate::node::lemma_fragment_view_index, crate::node::lemma_fragment_view_concat;

        let mut one = substitute(body, var, idx);
        proof {
            lemma_repeat_subst_snoc(full, var@, start as int, idx as int);
            assert(fragment_view(out@ + one@) =~= fragment_view(out@) + fragment_view(one@));
        }
        out.append(&mut one);
        let last = if inclusive {
            idx == stop
        } else {
            idx + 1 == stop
        };
        if last {
            break;
        }
        idx = idx + 1;
    }
    out
}

/// Whether the node is a parenthesis-delimited group.
pub fn is_paren_group(n: &Node) -> (r: bool)
    ensures
        r == (n@ matches NodeV::Group { delim, .. } && delim == Delim::Paren),
{
    match n {
        Node::Group { delim, .. } => *delim == Delim::Paren,
        _ => false,
    }
}

/// One scanning pass over `body`: every repeat marker is replaced in
/// place by the expansions of its parenthesis group over the range, and
/// `found` is raised if any marker was matched anywhere in the tree;
/// the flag is aggregated across the whole recursive walk and is never
/// lowered.
pub fn scan(
    body: &Vec<Node>,
    var: &String,
    start: u64,
    stop: u64,
    inclusive: bool,
    found: &mut bool,
) -> (r: Vec<Node>)
    ensures
        fragment_view(r@) == scan_out(
            fragment_view(body@),
            var@,
            start as int,
            eff_stop(stop, inclusive),
        ),
        *final(found) == (*old(found) || scan_found(fragment_view(body@))),
    decreases body@,
{
    broadcast use crate::node::lemma_fragment_view_len, crate::node::lemma_fragment_view_index, crate::node::lemma_fragment_view_push, crate::node::lemma_fragment_view_concat;

    let ghost full = fragment_view(body@);
    let ghost lo = start as int;
    let ghost hi = eff_stop(stop, inclusive);
    let ghost found0 = *found;
    let mut out: Vec<Node> = Vec::new();
    let mut i: usize = 0;
    proof {
        assert(full.subrange(0, full.len() as int) =~= full);
        assert(fragment_view(out@) =~= Seq::<NodeV>::empty());
        assert(Seq::<NodeV>::empty() + scan_out(full, var@, lo, hi) =~= scan_out(
            full,
            var@,
            lo,
            hi,
        ));
    }
    while i < body.len()
        invariant
            i <= body.len(),
            full == fragment_view(body@),
            lo == start as int,
            hi == eff_stop(stop, inclusive),
            fragment_view(out@) + scan_out(
                full.subrange(i as int, full.len() as int),
                var@,
                lo,
                hi,
            ) == scan_out(full, var@, lo, hi),
            found0 ==> *found,
            (*found || scan_found(full.subrange(i as int, full.len() as int))) == (found0
                || scan_found(full)),
        decreases body.len() - i,
    {
        broadcast use crate::node::lemma_fragment_view_len, crate::node::lemma_fragment_view_index, crate::node::lemma_fragment_view_push, crate::node::lemma_fragment_view_concat;

        let ghost sfx = full.subrange(i as int, full.len() as int);
        let ghost rest1 = full.subrange(i as int + 1, full.len() as int);
        proof {
            assert(sfx[0] == node_view(body@[i as int]));
            assert(sfx.subrange(1, sfx.len() as int) =~= rest1);
        }
        let ghost out0 = fragment_view(out@);
        let ghost found_pre = *found;
        let marker = body.len() - i > 2 && is_punct(&body[i], '#') && is_paren_group(&body[i + 1])
            && is_punct(&body[i + 2], '*');
        if marker {
            proof {
                assert(sfx[1] == node_view(body@[i as int + 1]));
                assert(sfx[2] == node_view(body@[i as int + 2]));
                assert(marker_at(sfx));
                assert(sfx.subrange(3, sfx.len() as int) =~= full.subrange(
                    i as int + 3,
                    full.len() as int,
                ));
            }
            match &body[i + 1] {
                Node::Group { children, .. } => {
                    let mut reps = repeat_expansion(children, var, start, stop, inclusive);
                    proof {
                        assert(sfx[1]->children == fragment_view(children@));
                        assert(scan_out(sfx, var@, lo, hi) == repeat_subst(
                            fragment_view(children@),
                            var@,
                            lo,
                            hi,
                        ) + scan_out(
                            full.subrange(i as int + 3, full.len() as int),
                            var@,
                            lo,
                            hi,
                        ));
                        assert(fragment_view(out@ + reps@) =~= fragment_view(out@)
                            + fragment_view(reps@));
                    }
                    out.append(&mut reps);
                    *found = true;
                    i = i + 3;
                    proof {
                        assert(fragment_view(out@) + scan_out(
                            full.subrange(i as int, full.len() as int),
                            var@,
                            lo,
                            hi,
                        ) =~= out0 + scan_out(sfx, var@, lo, hi));
                    }
                },
                _ => {
                    proof {
                        assert(false);
                    }
                },
            }
        } else {
            proof {
                if body@.len() - i > 2 {
                    assert(sfx[1] == node_view(body@[i as int + 1]));
                    assert(sfx[2] == node_view(body@[i as int + 2]));
                }
                assert(!marker_at(sfx));
            }
            match &body[i] {
                Node::Group { delim, children, pos } => {
                    proof {
                        assert(decreases_to!(body@ => body@[i as int]));
                        assert(body@[i as int]->children == *children);
                        assert(decreases_to!(body@[i as int] => *children));
                        assert(decreases_to!(*children => children@));
                    }
                    let sub = scan(children, var, start, stop, inclusive, found);
                    let nd = Node::Group { delim: *delim, children: sub, pos: *pos };
                    proof {
                        assert(sfx[0] matches NodeV::Group { children: cv, .. } && cv
                            == fragment_view(children@));
                        assert(scan_out(sfx, var@, lo, hi) == seq![node_view(nd)] + scan_out(
                            rest1,
                            var@,
                            lo,
                            hi,
                        ));
                        assert(scan_found(sfx) == (scan_found(fragment_view(children@))
                            || scan_found(rest1)));
                    }
                    out.push(nd);
                    i = i + 1;
                    proof {
                        assert(fragment_view(out@) + scan_out(rest1, var@, lo, hi) =~= out0 + (
                        seq![node_view(nd)] + scan_out(rest1, var@, lo, hi)));
                    }
                },
                Node::Ident { name, pos } => {
                    let nd = Node::Ident { name: name.clone(), pos: *pos };
                    proof {
                        assert(scan_out(sfx, var@, lo, hi) == seq![node_view(nd)] + scan_out(
                            rest1,
                            var@,
                            lo,
                            hi,
                        ));
                    }
                    out.push(nd);
                    i = i + 1;
                    proof {
                        assert(fragment_view(out@) + scan_out(rest1, var@, lo, hi) =~= out0 + (
                        seq![node_view(nd)] + scan_out(rest1, var@, lo, hi)));
                    }
                },
                Node::Lit { text, pos } => {
                    let nd = Node::Lit { text: text.clone(), pos: *pos };
                    proof {
                        assert(scan_out(sfx, var@, lo, hi) == seq![node_view(nd)] + scan_out(
                            rest1,
                            var@,
                            lo,
                            hi,
                        ));
                    }
                    out.push(nd);
                    i = i + 1;
                    proof {
                        assert(fragment_view(out@) + scan_out(rest1, var@, lo, hi) =~= out0 + (
                        seq![node_view(nd)] + scan_out(rest1, var@, lo, hi)));
                    }
                },
                Node::Punct { ch, joint, pos } => {
                    let nd = Node::Punct { ch: *ch, joint: *joint, pos: *pos };
                    proof {
                        assert(scan_out(sfx, var@, lo, hi) == seq![node_view(nd)] + scan_out(
                            rest1,
                            var@,
                            lo,
                            hi,
                        ));
                    }
                    out.push(nd);
                    i = i + 1;
                    proof {
                        assert(fragment_view(out@) + scan_out(rest1, var@, lo, hi) =~= out0 + (
                        seq![node_view(nd)] + scan_out(rest1, var@, lo, hi)));
                    }
                },
            }
        }
    }
    proof {
        assert(full.subrange(body@.len() as int, full.len() as int) =~= Seq::<NodeV>::empty());
        assert(fragment_view(out@) + Seq::<NodeV>::empty() =~= fragment_view(out@));
    }
    out
}

} // verus!
