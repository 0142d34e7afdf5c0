//! The general laws of the expander, stated and proved over the same
//! spec functions that the executable functions' contracts use.

use vstd::prelude::*;

use crate::node::NodeV;
use crate::num::dec_str;
use crate::scan::{eff_stop, marker_at, repeat_subst, scan_found, scan_out};
use crate::subst::{is_paste_link, subst_seq};

verus! {

/// The individual substituted copies that the whole-body repetition
/// over `[lo, hi)` concatenates, in ascending index order.
pub open spec fn expansion_copies(body: Seq<NodeV>, var: Seq<char>, lo: int, hi: int) -> Seq<
    Seq<NodeV>,
>
    decreases hi - lo,
{
    if lo < hi {
        seq![subst_seq(body, var, lo as nat)] + expansion_copies(body, var, lo + 1, hi)
    } else {
        Seq::empty()
    }
}

/// Range cardinality: the whole-body repetition over `[lo, hi)` is the
/// concatenation of exactly `hi - lo` substituted copies of the body,
/// and an empty range yields an empty output.
pub proof fn lemma_range_cardinality(body: Seq<NodeV>, var: Seq<char>, lo: int, hi: int)
    requires
        lo <= hi,
    ensures
        expansion_copies(body, var, lo, hi).len() == hi - lo,
        repeat_subst(body, var, lo, hi) == expansion_copies(body, var, lo, hi).flatten(),
        lo == hi ==> repeat_subst(body, var, lo, hi) == Seq::<NodeV>::empty(),
        forall|k: int|
            0 <= k < hi - lo ==> #[trigger] expansion_copies(body, var, lo, hi)[k] == subst_seq(
                body,
                var,
                (lo + k) as nat,
            ),
    decreases hi - lo,
{
    if lo == hi {
        assert(expansion_copies(body, var, lo, hi).flatten() =~= Seq::<NodeV>::empty());
    } else {
        lemma_range_cardinality(body, var, lo + 1, hi);
        let copies = expansion_copies(body, var, lo, hi);
        let rest = expansion_copies(body, var, lo + 1, hi);
        assert(copies.drop_first() =~= rest);
        assert(copies.first() == subst_seq(body, var, lo as nat));
        assert(copies.flatten() == subst_seq(body, var, lo as nat) + rest.flatten());
    }
}

/// Range cardinality over the header's own range form: for
/// `start <= stop`, the whole-body repetition concatenates exactly
/// `stop - start` copies, or `stop - start + 1` when the stop is
/// inclusive; an exclusive range with `start == stop` yields an empty
/// output.
pub proof fn lemma_range_cardinality_of_header(
    body: Seq<NodeV>,
    var: Seq<char>,
    start: u64,
    stop: u64,
    inclusive: bool,
)
    requires
        start <= stop,
    ensures
        expansion_copies(body, var, start as int, eff_stop(stop, inclusive)).len() == (
        if inclusive {
            stop - start + 1
        } else {
            stop - start
        }),
        repeat_subst(body, var, start as int, eff_stop(stop, inclusive)) == expansion_copies(
            body,
            var,
            start as int,
            eff_stop(stop, inclusive),
        ).flatten(),
        start == stop && !inclusive ==> repeat_subst(
            body,
            var,
            start as int,
            eff_stop(stop, inclusive),
        ) == Seq::<NodeV>::empty(),
{
    lemma_range_cardinality(body, var, start as int, eff_stop(stop, inclusive));
}

/// Whether no paste-operator punctuation occurs anywhere in `s`,
/// nested groups included.
pub open spec fn no_paste(s: Seq<NodeV>) -> bool
    decreases s,
    via no_paste_decreases
{
    if s.len() == 0 {
        true
    } else {
        (match s[0] {
            NodeV::Punct { ch, .. } => ch != '~',
            NodeV::Group { children, .. } => no_paste(children),
            _ => true,
        }) && no_paste(s.subrange(1, s.len() as int))
    }
}

#[via_fn]
proof fn no_paste_decreases(s: Seq<NodeV>) {
    if s.len() > 0 {
        assert(decreases_to!(s => s[0]));
    }
}

/// The pointwise image of substitution without paste-chains: each
/// identifier equal to the bound variable becomes the integer literal,
/// groups recurse, and every other node is the same.
pub open spec fn plain_subst(s: Seq<NodeV>, var: Seq<char>, value: nat) -> Seq<NodeV>
    decreases s,
    via plain_subst_decreases
{
    if s.len() == 0 {
        Seq::empty()
    } else {
        let head = match s[0] {
            NodeV::Ident { name, pos } => if name == var {
                NodeV::Lit { text: dec_str(value), pos }
            } else {
                s[0]
            },
            NodeV::Group { delim, children, pos } => NodeV::Group {
                delim,
                children: plain_subst(children, var, value),
                pos,
            },
            _ => s[0],
        };
        seq![head] + plain_subst(s.subrange(1, s.len() as int), var, value)
    }
}

#[via_fn]
proof fn plain_subst_decreases(s: Seq<NodeV>, var: Seq<char>, value: nat) {
    if s.len() > 0 {
        assert(decreases_to!(s => s[0]));
    }
}

/// Substitution totality: in a body holding no paste operator, the
/// substitution replaces every bare occurrence of the bound variable —
/// at any nesting depth — with the integer literal of the value, and
/// alters no other node.
pub proof fn lemma_substitution_totality(s: Seq<NodeV>, var: Seq<char>, value: nat)
    requires
        no_paste(s),
    ensures
        subst_seq(s, var, value) == plain_subst(s, var, value),
    decreases s,
{
    if s.len() > 0 {
        let rest = s.subrange(1, s.len() as int);
        assert(decreases_to!(s => s[0]));
        assert(no_paste(rest));
        assert(!is_paste_link(rest));
        match s[0] {
            NodeV::Group { delim, children, pos } => {
                lemma_substitution_totality(children, var, value);
                lemma_substitution_totality(rest, var, value);
            },
            _ => {
                lemma_substitution_totality(rest, var, value);
            },
        }
    }
}

/// Whether no identifier named `var` occurs anywhere in `s`, nested
/// groups included.
pub open spec fn no_bound_var(s: Seq<NodeV>, var: Seq<char>) -> bool
    decreases s,
    via no_bound_var_decreases
{
    if s.len() == 0 {
        true
    } else {
        (match s[0] {
            NodeV::Ident { name, .. } => name != var,
            NodeV::Group { children, .. } => no_bound_var(children, var),
            _ => true,
        }) && no_bound_var(s.subrange(1, s.len() as int), var)
    }
}

#[via_fn]
proof fn no_bound_var_decreases(s: Seq<NodeV>, var: Seq<char>) {
    if s.len() > 0 {
        assert(decreases_to!(s => s[0]));
    }
}

/// Whether the three-node repeat marker occurs at no position of `s`,
/// nested groups included.
pub open spec fn no_marker(s: Seq<NodeV>) -> bool
    decreases s,
    via no_marker_decreases
{
    if s.len() == 0 {
        true
    } else {
        &&& !marker_at(s)
        &&& (match s[0] {
            NodeV::Group { children, .. } => no_marker(children),
            _ => true,
        })
        &&& no_marker(s.subrange(1, s.len() as int))
    }
}

#[via_fn]
proof fn no_marker_decreases(s: Seq<NodeV>) {
    if s.len() > 0 {
        assert(decreases_to!(s => s[0]));
    }
}

/// A sequence holding neither the bound variable nor a paste operator
/// is returned unchanged by substitution, whatever the value.
pub proof fn lemma_subst_inert(s: Seq<NodeV>, var: Seq<char>, value: nat)
    requires
        no_bound_var(s, var),
        no_paste(s),
    ensures
        subst_seq(s, var, value) == s,
    decreases s,
{
    if s.len() > 0 {
        let rest = s.subrange(1, s.len() as int);
        assert(decreases_to!(s => s[0]));
        assert(no_paste(rest));
        assert(!is_paste_link(rest));
        lemma_subst_inert(rest, var, value);
        match s[0] {
            NodeV::Group { delim, children, pos } => {
                lemma_subst_inert(children, var, value);
            },
            _ => {},
        }
        assert(subst_seq(s, var, value) =~= s);
    }
}

/// A sequence holding no repeat marker leaves the scan's output equal
/// to its input, whatever the range, and the found flag stays down.
pub proof fn lemma_scan_inert(s: Seq<NodeV>, var: Seq<char>, lo: int, hi: int)
    requires
        no_marker(s),
    ensures
        scan_out(s, var, lo, hi) == s,
        !scan_found(s),
    decreases s,
{
    if s.len() > 0 {
        let rest = s.subrange(1, s.len() as int);
        assert(decreases_to!(s => s[0]));
        lemma_scan_inert(rest, var, lo, hi);
        match s[0] {
            NodeV::Group { delim, children, pos } => {
                lemma_scan_inert(children, var, lo, hi);
            },
            _ => {},
        }
        assert(scan_out(s, var, lo, hi) =~= s);
    }
}

/// Idempotence of non-participating nodes: a node sequence holding
/// neither the bound variable, nor a paste operator, nor a repeat
/// marker comes back unchanged from both the substitution and the
/// scan, whatever the range, and the scan reports no find.
pub proof fn lemma_inert_unchanged(s: Seq<NodeV>, var: Seq<char>, value: nat, lo: int, hi: int)
    requires
        no_bound_var(s, var),
        no_paste(s),
        no_marker(s),
    ensures
        subst_seq(s, var, value) == s,
        scan_out(s, var, lo, hi) == s,
        !scan_found(s),
{
    lemma_subst_inert(s, var, value);
    lemma_scan_inert(s, var, lo, hi);
}

/// Marker discovery: a marker standing at any offset of the top-level
/// sequence is found by the scan.
pub proof fn lemma_marker_found(s: Seq<NodeV>, i: int)
    requires
        0 <= i <= s.len(),
        marker_at(s.subrange(i, s.len() as int)),
    ensures
        scan_found(s),
    decreases i,
{
    if i == 0 {
        assert(s.subrange(0, s.len() as int) =~= s);
    } else {
        let t = s.subrange(1, s.len() as int);
        assert(t.subrange(i - 1, t.len() as int) =~= s.subrange(i, s.len() as int));
        lemma_marker_found(t, i - 1);
    }
}

/// Flag propagation: a marker found inside the children of any group
/// of the sequence is reported by the scan of the whole sequence — the
/// flag is aggregated up through every recursive branch, never reset.
pub proof fn lemma_found_propagates(s: Seq<NodeV>, i: int)
    requires
        0 <= i < s.len(),
        s[i] is Group,
        scan_found(s[i]->children),
    ensures
        scan_found(s),
    decreases i,
{
    if !marker_at(s) {
        if i == 0 {
        } else {
            let t = s.subrange(1, s.len() as int);
            assert(t[i - 1] == s[i]);
            lemma_found_propagates(t, i - 1);
        }
    }
}

} // verus!
