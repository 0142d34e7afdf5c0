//! The shared syntax-tree model: a fragment is a sequence of nodes, each
//! node a leaf (identifier, literal, punctuation) or a delimited group of
//! child nodes. Every node carries a position, used only for diagnostics.

use vstd::prelude::*;

verus! {

/// The delimiter kind of a group.
#[derive(Clone, Copy, Debug, PartialEq, Eq, Structural)]
pub enum Delim {
    Paren,
    Brace,
    Bracket,
}

/// One node of a syntax fragment. `pos` is provenance metadata for
/// diagnostics; the expansion algorithms never branch on it, they only
/// carry it through.
#[derive(Debug, PartialEq, Eq)]
pub enum Node {
    Ident { name: String, pos: u64 },
    Lit { text: String, pos: u64 },
    Punct { ch: char, joint: bool, pos: u64 },
    Group { delim: Delim, children: Vec<Node>, pos: u64 },
}

/// The mathematical image of a `Node`: strings become character
/// sequences and child vectors become sequences.
#[verifier::ext_equal]
pub ghost enum NodeV {
    Ident { name: Seq<char>, pos: u64 },
    Lit { text: Seq<char>, pos: u64 },
    Punct { ch: char, joint: bool, pos: u64 },
    Group { delim: Delim, children: Seq<NodeV>, pos: u64 },
}

pub open spec fn node_view(n: Node) -> NodeV
    decreases n,
{
    match n {
        Node::Ident { name, pos } => NodeV::Ident { name: name@, pos },
        Node::Lit { text, pos } => NodeV::Lit { text: text@, pos },
        Node::Punct { ch, joint, pos } => NodeV::Punct { ch, joint, pos },
        Node::Group { delim, children, pos } => NodeV::Group {
            delim,
            children: fragment_view(children@),
            pos,
        },
    }
}

/// The image of a sequence of nodes.
pub open spec fn fragment_view(ns: Seq<Node>) -> Seq<NodeV>
    decreases ns,
{
    if ns.len() == 0 {
        Seq::empty()
    } else {
        seq![node_view(ns[0])] + fragment_view(ns.subrange(1, ns.len() as int))
    }
}

impl View for Node {
    type V = NodeV;

    open spec fn view(&self) -> NodeV {
        node_view(*self)
    }
}

pub broadcast proof fn lemma_fragment_view_len(ns: Seq<Node>)
    ensures
        #[trigger] fragment_view(ns).len() == ns.len(),
    decreases ns.len(),
{
    if ns.len() > 0 {
        lemma_fragment_view_len(ns.subrange(1, ns.len() as int));
    }
}

pub broadcast proof fn lemma_fragment_view_index(ns: Seq<Node>, i: int)
    requires
        0 <= i < ns.len(),
    ensures
        #[trigger] fragment_view(ns)[i] == node_view(ns[i]),
    decreases ns.len(),
{
    lemma_fragment_view_len(ns);
    if i > 0 {
        lemma_fragment_view_index(ns.subrange(1, ns.len() as int), i - 1);
    }
}

pub broadcast proof fn lemma_fragment_view_concat(a: Seq<Node>, b: Seq<Node>)
    ensures
        #[trigger] fragment_view(a + b) == fragment_view(a) + fragment_view(b),
{
    broadcast use lemma_fragment_view_len, lemma_fragment_view_index;

    assert(fragment_view(a + b) =~= fragment_view(a) + fragment_view(b));
}

pub broadcast proof fn lemma_fragment_view_push(ns: Seq<Node>, n: Node)
    ensures
        #[trigger] fragment_view(ns.push(n)) == fragment_view(ns).push(node_view(n)),
{
    broadcast use lemma_fragment_view_len, lemma_fragment_view_index;

    assert(fragment_view(ns.push(n)) =~= fragment_view(ns).push(node_view(n)));
}

/// A structural copy of the node, equal in image.
pub fn copy_node(n: &Node) -> (r: Node)
    ensures
        node_view(r) == node_view(*n),
    decreases *n,
{
    match n {
        Node::Ident { name, pos } => Node::Ident { name: name.clone(), pos: *pos },
        Node::Lit { text, pos } => Node::Lit { text: text.clone(), pos: *pos },
        Node::Punct { ch, joint, pos } => Node::Punct { ch: *ch, joint: *joint, pos: *pos },
        Node::Group { delim, children, pos } => {
            proof {
                assert(decreases_to!(*n => *children));
            }
            Node::Group { delim: *delim, children: copy_fragment(children), pos: *pos }
        },
    }
}

/// A structural copy of the node sequence, equal in image.
pub fn copy_fragment(ns: &Vec<Node>) -> (r: Vec<Node>)
    ensures
        fragment_view(r@) == fragment_view(ns@),
    decreases ns@,
{
    broadcast use lemma_fragment_view_len, lemma_fragment_view_index;

    let mut out: Vec<Node> = Vec::new();
    let mut i: usize = 0;
    while i < ns.len()
        invariant
            i <= ns.len(),
            out@.len() == i,
            forall|k: int| 0 <= k < i ==> node_view(#[trigger] out@[k]) == node_view(ns@[k]),
        decreases ns.len() - i,
    {
        proof {
            assert(decreases_to!(ns@ => ns@[i as int]));
        }
        let c = copy_node(&ns[i]);
        out.push(c);
        i = i + 1;
    }
    proof {
        assert(fragment_view(out@) =~= fragment_view(ns@));
    }
    out
}

} // verus!
