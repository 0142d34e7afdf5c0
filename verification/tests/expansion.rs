//! End-to-end tests of the expansion engine.

use seq_expand::diag::{ExpandError, HeaderExpect};
use seq_expand::expand::expand;
use seq_expand::{Delim, Node};

fn id(name: &str, pos: u64) -> Node {
    Node::Ident { name: name.to_string(), pos }
}

fn lit(text: &str, pos: u64) -> Node {
    Node::Lit { text: text.to_string(), pos }
}

fn punct(ch: char, pos: u64) -> Node {
    Node::Punct { ch, joint: false, pos }
}

fn group(delim: Delim, children: Vec<Node>, pos: u64) -> Node {
    Node::Group { delim, children, pos }
}

/// `<var> in <start>..<stop>` header tokens, then the body group.
fn invocation(var: &str, start: &str, inclusive: bool, stop: &str, body: Vec<Node>) -> Vec<Node> {
    let mut input = vec![
        id(var, 0),
        id("in", 1),
        lit(start, 2),
        punct('.', 3),
        punct('.', 4),
    ];
    if inclusive {
        input.push(punct('=', 5));
    }
    input.push(lit(stop, 6));
    input.push(group(Delim::Brace, body, 7));
    input
}

#[test]
fn whole_body_repetition_counts_copies() {
    // Three copies of a two-node body: six nodes out, in order.
    let input = invocation("N", "0", false, "3", vec![id("a", 10), punct(';', 11)]);
    let out = expand(&input).unwrap();
    assert_eq!(
        out,
        vec![
            id("a", 10),
            punct(';', 11),
            id("a", 10),
            punct(';', 11),
            id("a", 10),
            punct(';', 11),
        ]
    );
}

#[test]
fn empty_exclusive_range_yields_empty_output() {
    let input = invocation("N", "2", false, "2", vec![id("a", 10)]);
    let out = expand(&input).unwrap();
    assert_eq!(out, Vec::<Node>::new());
}

#[test]
fn reversed_range_yields_empty_output() {
    let input = invocation("N", "5", false, "2", vec![id("a", 10)]);
    assert_eq!(expand(&input).unwrap(), Vec::<Node>::new());
    let input = invocation("N", "5", true, "2", vec![id("a", 10)]);
    assert_eq!(expand(&input).unwrap(), Vec::<Node>::new());
}

#[test]
fn inclusive_range_adds_one_copy() {
    let input = invocation("N", "0", true, "2", vec![id("x", 10)]);
    let out = expand(&input).unwrap();
    assert_eq!(out, vec![id("x", 10), id("x", 10), id("x", 10)]);
}

#[test]
fn bare_variable_becomes_value_literal() {
    // Every bare occurrence is replaced by the index; nothing else is
    // altered.
    let input = invocation(
        "N",
        "5",
        false,
        "6",
        vec![id("N", 10), id("other", 11), lit("9", 12), punct('+', 13)],
    );
    let out = expand(&input).unwrap();
    assert_eq!(
        out,
        vec![lit("5", 10), id("other", 11), lit("9", 12), punct('+', 13)]
    );
}

#[test]
fn paste_two_copies() {
    // Body `foo~N` with `N in 3..5` gives the identifiers foo3, foo4.
    let input = invocation(
        "N",
        "3",
        false,
        "5",
        vec![id("foo", 10), punct('~', 11), id("N", 12)],
    );
    let out = expand(&input).unwrap();
    assert_eq!(out, vec![id("foo3", 10), id("foo4", 10)]);
}

#[test]
fn marker_isolation() {
    // Body `fn f() {} #( struct S~N; )* const C: u32 = 1;` with
    // `N in 0..2`: the unmarked parts appear exactly once, the marked
    // block once per index.
    let body = vec![
        id("fn", 10),
        id("f", 11),
        group(Delim::Paren, vec![], 12),
        group(Delim::Brace, vec![], 13),
        punct('#', 14),
        group(
            Delim::Paren,
            vec![id("struct", 15), id("S", 16), punct('~', 17), id("N", 18), punct(';', 19)],
            20,
        ),
        punct('*', 21),
        id("const", 22),
        id("C", 23),
        punct(':', 24),
        id("u32", 25),
        punct('=', 26),
        lit("1", 27),
        punct(';', 28),
    ];
    let input = invocation("N", "0", false, "2", body);
    let out = expand(&input).unwrap();
    assert_eq!(
        out,
        vec![
            id("fn", 10),
            id("f", 11),
            group(Delim::Paren, vec![], 12),
            group(Delim::Brace, vec![], 13),
            id("struct", 15),
            id("S0", 16),
            punct(';', 19),
            id("struct", 15),
            id("S1", 16),
            punct(';', 19),
            id("const", 22),
            id("C", 23),
            punct(':', 24),
            id("u32", 25),
            punct('=', 26),
            lit("1", 27),
            punct(';', 28),
        ]
    );
}

#[test]
fn marker_two_groups_deep_is_found() {
    // The marker sits inside a bracket group inside the body; the
    // found flag propagates out, so the unmarked remainder appears
    // exactly once.
    let marker_part = vec![
        punct('#', 14),
        group(Delim::Paren, vec![id("N", 15)], 16),
        punct('*', 17),
    ];
    let body = vec![
        id("before", 10),
        group(
            Delim::Bracket,
            vec![group(Delim::Paren, marker_part, 12)],
            11,
        ),
        id("after", 18),
    ];
    let input = invocation("N", "1", false, "3", body);
    let out = expand(&input).unwrap();
    assert_eq!(
        out,
        vec![
            id("before", 10),
            group(
                Delim::Bracket,
                vec![group(Delim::Paren, vec![lit("1", 15), lit("2", 15)], 12)],
                11,
            ),
            id("after", 18),
        ]
    );
}

#[test]
fn marker_without_continuation_is_no_marker() {
    // `#` then a parenthesis group with no `*` after it: no marker
    // exists, so the whole body is repeated and the variable inside
    // the group is substituted in each copy.
    let body = vec![punct('#', 10), group(Delim::Paren, vec![id("N", 11)], 12)];
    let input = invocation("N", "0", false, "2", body);
    let out = expand(&input).unwrap();
    assert_eq!(
        out,
        vec![
            punct('#', 10),
            group(Delim::Paren, vec![lit("0", 11)], 12),
            punct('#', 10),
            group(Delim::Paren, vec![lit("1", 11)], 12),
        ]
    );
}

#[test]
fn unmarked_remainder_is_not_substituted() {
    // With a marker present, the bound variable in the unmarked part
    // stays as it is: substitution only runs inside the marked group.
    let body = vec![
        id("N", 10),
        punct('#', 11),
        group(Delim::Paren, vec![id("N", 12)], 13),
        punct('*', 14),
    ];
    let input = invocation("N", "0", false, "2", body);
    let out = expand(&input).unwrap();
    assert_eq!(out, vec![id("N", 10), lit("0", 12), lit("1", 12)]);
}

#[test]
fn largest_value_inclusive_range() {
    // One copy at the largest u64 index; the inclusive stop does not
    // overflow.
    let max = "18446744073709551615";
    let input = invocation("N", max, true, max, vec![id("N", 10)]);
    let out = expand(&input).unwrap();
    assert_eq!(out, vec![lit(max, 10)]);
}

#[test]
fn header_missing_in_keyword_fails_at_first_divergent_token() {
    // Header `N 0..5`: the token at index 1 is not the keyword `in`.
    let input = vec![
        id("N", 0),
        lit("0", 1),
        punct('.', 2),
        punct('.', 3),
        lit("5", 4),
        group(Delim::Brace, vec![id("a", 10)], 5),
    ];
    let err = expand(&input).unwrap_err();
    assert_eq!(
        err,
        ExpandError::HeaderSyntax { pos: 1, expected: HeaderExpect::InKeyword }
    );
    assert_eq!(err.position(), 1);
    assert_eq!(
        err.message(),
        "malformed header: expected the keyword `in` at position 1"
    );
}

#[test]
fn missing_body_fails() {
    let input = vec![
        id("N", 0),
        id("in", 1),
        lit("0", 2),
        punct('.', 3),
        punct('.', 4),
        lit("5", 5),
    ];
    let err = expand(&input).unwrap_err();
    assert_eq!(err, ExpandError::MissingBody);
    assert_eq!(err.position(), 0);
    assert_eq!(err.message(), "no brace-delimited body group");
}

#[test]
fn range_literal_too_large_fails() {
    let input = invocation("N", "18446744073709551616", false, "5", vec![id("a", 10)]);
    let err = expand(&input).unwrap_err();
    assert_eq!(err, ExpandError::RangeConversion { pos: 2 });
    assert_eq!(
        err.message(),
        "range literal does not fit in u64 at position 2"
    );
}

#[test]
fn range_literal_not_decimal_fails() {
    let input = invocation("N", "0x10", false, "5", vec![id("a", 10)]);
    let err = expand(&input).unwrap_err();
    assert_eq!(err, ExpandError::RangeConversion { pos: 2 });
}

#[test]
fn trailing_header_tokens_fail() {
    let mut input = vec![
        id("N", 0),
        id("in", 1),
        lit("0", 2),
        punct('.', 3),
        punct('.', 4),
        lit("5", 5),
        id("extra", 6),
    ];
    input.push(group(Delim::Brace, vec![id("a", 10)], 7));
    let err = expand(&input).unwrap_err();
    assert_eq!(
        err,
        ExpandError::HeaderSyntax { pos: 6, expected: HeaderExpect::HeaderEnd }
    );
}

#[test]
fn last_brace_group_is_the_body() {
    // Two brace groups at the top level: the later one is the body and
    // the earlier one is dropped, as the splitter keeps the last.
    let mut input = vec![
        id("N", 0),
        id("in", 1),
        lit("0", 2),
        punct('.', 3),
        punct('.', 4),
        lit("1", 5),
    ];
    input.push(group(Delim::Brace, vec![id("first", 10)], 6));
    input.push(group(Delim::Brace, vec![id("second", 11)], 7));
    let out = expand(&input).unwrap();
    assert_eq!(out, vec![id("second", 11)]);
}
