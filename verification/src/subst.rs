//! The substitution engine: one pass over a node sequence that replaces
//! bare occurrences of the bound variable with an integer literal and
//! collapses paste-chains (`ident ~ ident ...`) into one identifier.

use vstd::prelude::*;

use crate::node::{fragment_view, node_view, Node, NodeV};
use crate::num::{dec_str, u64_to_dec};

verus! {

/// Whether `s` starts with one paste link: a `~` punctuation followed by
/// an identifier. A `~` not followed by an identifier forms no link and
/// is passed through unchanged.
pub open spec fn is_paste_link(s: Seq<NodeV>) -> bool {
    &&& s.len() >= 2
    &&& s[0] matches NodeV::Punct { ch, .. } && ch == '~'
    &&& s[1] is Ident
}

/// How many nodes of `s` the paste links at its front span.
pub open spec fn chain_ext_len(s: Seq<NodeV>) -> nat
    decreases s.len(),
{
    if is_paste_link(s) {
        (2 + chain_ext_len(s.subrange(2, s.len() as int))) as nat
    } else {
        0
    }
}

/// The name accumulated by following the paste links at the front of
/// `s`, starting from `acc`: each linked identifier appends its own
/// name, or the decimal text of `value` if it is the bound variable.
pub open spec fn chain_text(acc: Seq<char>, s: Seq<NodeV>, var: Seq<char>, value: nat) -> Seq<char>
    decreases s.len(),
{
    if is_paste_link(s) {
        let piece = if s[1]->name == var {
            dec_str(value)
        } else {
            s[1]->name
        };
        chain_text(acc + piece, s.subrange(2, s.len() as int), var, value)
    } else {
        acc
    }
}

pub proof fn lemma_chain_ext_len_le(s: Seq<NodeV>)
    ensures
        chain_ext_len(s) <= s.len(),
    decreases s.len(),
{
    if is_paste_link(s) {
        lemma_chain_ext_len_le(s.subrange(2, s.len() as int));
    }
}

/// The substitution of `value` for `var` in the node sequence `s`:
/// groups are rebuilt around the substitution of their children; an
/// identifier that starts a paste-chain becomes the single identifier
/// the chain spells; a bare occurrence of `var` becomes an unsuffixed
/// integer literal; every other node is kept as it is.
pub open spec fn subst_seq(s: Seq<NodeV>, var: Seq<char>, value: nat) -> Seq<NodeV>
    decreases s,
    via subst_seq_decreases
{
    if s.len() == 0 {
        Seq::empty()
    } else {
        let rest = s.subrange(1, s.len() as int);
        match s[0] {
            NodeV::Group { delim, children, pos } => seq![
                NodeV::Group { delim, children: subst_seq(children, var, value), pos },
            ] + subst_seq(rest, var, value),
            NodeV::Ident { name, pos } => if is_paste_link(rest) {
                seq![NodeV::Ident { name: chain_text(name, rest, var, value), pos }]
                    + subst_seq(rest.subrange(chain_ext_len(rest) as int, rest.len() as int), var, value)
            } else if name == var {
                seq![NodeV::Lit { text: dec_str(value), pos }] + subst_seq(rest, var, value)
            } else {
                seq![s[0]] + subst_seq(rest, var, value)
            },
            _ => seq![s[0]] + subst_seq(rest, var, value),
        }
    }
}

#[via_fn]
proof fn subst_seq_decreases(s: Seq<NodeV>, var: Seq<char>, value: nat) {
    if s.len() > 0 {
        let rest = s.subrange(1, s.len() as int);
        assert(decreases_to!(s => s[0]));
        match s[0] {
            NodeV::Group { delim, children, pos } => {},
            NodeV::Ident { name, pos } => {
                if is_paste_link(rest) {
                    lemma_chain_ext_len_le(rest);
                }
            },
            _ => {},
        }
    }
}

/// Whether the node is a punctuation with the given character.
pub fn is_punct(n: &Node, c: char) -> (r: bool)
    ensures
        r == (n@ matches NodeV::Punct { ch, .. } && ch == c),
{
    match n {
        Node::Punct { ch, .. } => *ch == c,
        _ => false,
    }
}

/// Whether the node is an identifier.
pub fn is_ident(n: &Node) -> (r: bool)
    ensures
        r == (n@ is Ident),
{
    match n {
        Node::Ident { .. } => true,
        _ => false,
    }
}

/// One expansion: the copy of `body` in which `value` stands for the
/// bound variable `var`, with bare occurrences turned into an integer
/// literal and paste-chains collapsed into single identifiers.
pub fn substitute(body: &Vec<Node>, var: &String, value: u64) -> (r: Vec<Node>)
    ensures
        fragment_view(r@) == subst_seq(fragment_view(body@), var@, value as nat),
    decreases body@,
{
    broadcast use crate::node::lemma_fragment_view_len, crate::node::lemma_fragment_view_index, crate::node::lemma_fragment_view_push;

    let ghost full = fragment_view(body@);
    let mut out: Vec<Node> = Vec::new();
    let mut i: usize = 0;
    proof {
        assert(full.subrange(0, full.len() as int) =~= full);
        assert(fragment_view(out@) =~= Seq::<NodeV>::empty());
        assert(Seq::<NodeV>::empty() + subst_seq(full, var@, value as nat) =~= subst_seq(
            full,
            var@,
            value as nat,
        ));
    }
    while i < body.len()
        invariant
            i <= body.len(),
            full == fragment_view(body@),
            fragment_view(out@) + subst_seq(
                full.subrange(i as int, full.len() as int),
                var@,
                value as nat,
            ) == subst_seq(full, var@, value as nat),
        decreases body.len() - i,
    {
        broadcast use crate::node::lemma_fragment_view_len, crate::node::lemma_fragment_view_index, crate::node::lemma_fragment_view_push;

        let ghost sfx = full.subrange(i as int, full.len() as int);
        let ghost rest = full.subrange(i as int + 1, full.len() as int);
        proof {
            assert(sfx[0] == node_view(body@[i as int]));
            assert(sfx.subrange(1, sfx.len() as int) =~= rest);
        }
        let ghost out0 = fragment_view(out@);
        match &body[i] {
            Node::Group { delim, children, pos } => {
                proof {
                    assert(decreases_to!(body@ => body@[i as int]));
                    assert(body@[i as int]->children == *children);
                    assert(decreases_to!(body@[i as int] => *children));
                    assert(decreases_to!(*children => children@));
                }
                let sub = substitute(children, var, value);
                let nd = Node::Group { delim: *delim, children: sub, pos: *pos };
                proof {
                    assert(sfx[0] matches NodeV::Group { children: cv, .. } && cv == fragment_view(
                        children@,
                    ));
                    assert(subst_seq(sfx, var@, value as nat) == seq![node_view(nd)] + subst_seq(
                        rest,
                        var@,
                        value as nat,
                    ));
                }
                out.push(nd);
                i = i + 1;
                proof {
                    assert(fragment_view(out@) + subst_seq(rest, var@, value as nat) =~= out0 + (
                    seq![node_view(nd)] + subst_seq(rest, var@, value as nat)));
                }
            },
            Node::Ident { name, pos } => {
                if body.len() - i > 2 && is_punct(&body[i + 1], '~') && is_ident(&body[i + 2]) {
                    proof {
                        assert(rest[0] == node_view(body@[i as int + 1]));
                        assert(rest[1] == node_view(body@[i as int + 2]));
                        assert(is_paste_link(rest));
                    }
                    let mut acc = name.clone();
                    let ghost name0 = name@;
                    let mut j: usize = i + 1;
                    while body.len() - j > 1 && is_punct(&body[j], '~') && is_ident(&body[j + 1])
                        invariant
                            i + 1 <= j <= body.len(),
                            body.len() == full.len(),
                            full == fragment_view(body@),
                            chain_text(name0, rest, var@, value as nat) == chain_text(
                                acc@,
                                full.subrange(j as int, full.len() as int),
                                var@,
                                value as nat,
                            ),
                            i as int + 1 + chain_ext_len(rest) == j as int + chain_ext_len(
                                full.subrange(j as int, full.len() as int),
                            ),
                            rest == full.subrange(i as int + 1, full.len() as int),
                        decreases body.len() - j,
                    {
                        broadcast use crate::node::lemma_fragment_view_len, crate::node::lemma_fragment_view_index;

                        let ghost link = full.subrange(j as int, full.len() as int);
                        let ghost acc0 = acc@;
                        proof {
                            assert(link[0] == node_view(body@[j as int]));
                            assert(link[1] == node_view(body@[j as int + 1]));
                            assert(is_paste_link(link));
                            assert(link.subrange(2, link.len() as int) =~= full.subrange(
                                j as int + 2,
                                full.len() as int,
                            ));
                        }
                        match &body[j + 1] {
                            Node::Ident { name: next_name, .. } => {
                                if *next_name == *var {
                                    let dec = u64_to_dec(value);
                                    acc.append(dec.as_str());
                                } else {
                                    acc.append(next_name.as_str());
                                }
                            },
                            _ => {
                                proof {
                                    assert(false);
                                }
                            },
                        }
                        proof {
                            let piece = if link[1]->name == var@ {
                                dec_str(value as nat)
                            } else {
                                link[1]->name
                            };
                            assert(acc@ == acc0 + piece);
                            assert(chain_text(acc0, link, var@, value as nat) == chain_text(
                                acc0 + piece,
                                link.subrange(2, link.len() as int),
                                var@,
                                value as nat,
                            ));
                            assert(chain_ext_len(link) == 2 + chain_ext_len(
                                link.subrange(2, link.len() as int),
                            ));
                        }
                        j = j + 2;
                    }
                    let ghost tail = full.subrange(j as int, full.len() as int);
                    proof {
                        if j + 1 < body.len() {
                            assert(tail[0] == node_view(body@[j as int]));
                            if tail[0] matches NodeV::Punct { ch, .. } && ch == '~' {
                                assert(tail[1] == node_view(body@[j as int + 1]));
                            }
                        }
                        assert(!is_paste_link(tail));
                        assert(chain_text(name0, rest, var@, value as nat) == acc@);
                        assert(chain_ext_len(rest) == j - (i as int + 1));
                        assert(rest.subrange(
                            chain_ext_len(rest) as int,
                            rest.len() as int,
                        ) =~= tail);
                    }
                    let nd = Node::Ident { name: acc, pos: *pos };
                    proof {
                        assert(subst_seq(sfx, var@, value as nat) == seq![node_view(nd)]
                            + subst_seq(tail, var@, value as nat));
                    }
                    out.push(nd);
                    i = j;
                    proof {
                        assert(fragment_view(out@) + subst_seq(tail, var@, value as nat) =~= out0
                            + (seq![node_view(nd)] + subst_seq(tail, var@, value as nat)));
                    }
                } else {
                    proof {
                        if i + 2 < body.len() {
                            assert(rest[0] == node_view(body@[i as int + 1]));
                            if rest[0] matches NodeV::Punct { ch, .. } && ch == '~' {
                                assert(rest[1] == node_view(body@[i as int + 2]));
                            }
                        }
                        assert(!is_paste_link(rest));
                    }
                    let nd = if *name == *var {
                        Node::Lit { text: u64_to_dec(value), pos: *pos }
                    } else {
                        Node::Ident { name: name.clone(), pos: *pos }
                    };
                    proof {
                        assert(subst_seq(sfx, var@, value as nat) == seq![node_view(nd)]
                            + subst_seq(rest, var@, value as nat));
                    }
                    out.push(nd);
                    i = i + 1;
                    proof {
                        assert(fragment_view(out@) + subst_seq(rest, var@, value as nat) =~= out0
                            + (seq![node_view(nd)] + subst_seq(rest, var@, value as nat)));
                    }
                }
            },
            Node::Lit { text, pos } => {
                let nd = Node::Lit { text: text.clone(), pos: *pos };
                proof {
                    assert(subst_seq(sfx, var@, value as nat) == seq![node_view(nd)] + subst_seq(
                        rest,
                        var@,
                        value as nat,
                    ));
                }
                out.push(nd);
                i = i + 1;
                proof {
                    assert(fragment_view(out@) + subst_seq(rest, var@, value as nat) =~= out0 + (
                    seq![node_view(nd)] + subst_seq(rest, var@, value as nat)));
                }
            },
            Node::Punct { ch, joint, pos } => {
                let nd = Node::Punct { ch: *ch, joint: *joint, pos: *pos };
                proof {
                    assert(subst_seq(sfx, var@, value as nat) == seq![node_view(nd)] + subst_seq(
                        rest,
                        var@,
                        value as nat,
                    ));
                }
                out.push(nd);
                i = i + 1;
                proof {
                    assert(fragment_view(out@) + subst_seq(rest, var@, value as nat) =~= out0 + (
                    seq![node_view(nd)] + subst_seq(rest, var@, value as nat)));
                }
            },
        }
    }
    proof {
        assert(full.subrange(body@.len() as int, full.len() as int) =~= Seq::<NodeV>::empty());
        assert(fragment_view(out@) + Seq::<NodeV>::empty() =~= fragment_view(out@));
    }
    out
}

} // verus!
