//! Unit tests of the engine's components: the substitution engine, the
//! repeat-marker scanner, the header parser and the decimal helpers.

use seq_expand::diag::{ExpandError, HeaderExpect};
use seq_expand::header::parse_header;
use seq_expand::num::{parse_u64, u64_to_dec};
use seq_expand::scan::{repeat_expansion, scan};
use seq_expand::subst::substitute;
use seq_expand::{Delim, Node};

fn id(name: &str, pos: u64) -> Node {
    Node::Ident { name: name.to_string(), pos }
}

fn lit(text: &str, pos: u64) -> Node {
    Node::Lit { text: text.to_string(), pos }
}

fn punct(ch: char, pos: u64) -> Node {
    Node::Punct { ch, joint: false, pos }
}

fn group(delim: Delim, children: Vec<Node>, pos: u64) -> Node {
    Node::Group { delim, children, pos }
}

fn var(name: &str) -> String {
    name.to_string()
}

#[test]
fn substitute_replaces_bare_occurrences_at_depth() {
    let body = vec![
        id("N", 0),
        group(Delim::Bracket, vec![id("N", 1), id("M", 2)], 3),
    ];
    let out = substitute(&body, &var("N"), 42);
    assert_eq!(
        out,
        vec![
            lit("42", 0),
            group(Delim::Bracket, vec![lit("42", 1), id("M", 2)], 3),
        ]
    );
}

#[test]
fn substitute_long_paste_chain() {
    // foo~N~bar~N collapses into one identifier at the chain's first
    // position.
    let body = vec![
        id("foo", 0),
        punct('~', 1),
        id("N", 2),
        punct('~', 3),
        id("bar", 4),
        punct('~', 5),
        id("N", 6),
    ];
    let out = substitute(&body, &var("N"), 7);
    assert_eq!(out, vec![id("foo7bar7", 0)]);
}

#[test]
fn substitute_chain_starting_with_variable_keeps_its_text() {
    // An identifier equal to the variable that starts a paste-chain is
    // resolved as a chain, not replaced by a literal: its own literal
    // text opens the accumulated name.
    let body = vec![id("N", 0), punct('~', 1), id("foo", 2)];
    let out = substitute(&body, &var("N"), 3);
    assert_eq!(out, vec![id("Nfoo", 0)]);
}

#[test]
fn substitute_trailing_paste_operator_passes_through() {
    let body = vec![id("foo", 0), punct('~', 1)];
    let out = substitute(&body, &var("N"), 3);
    assert_eq!(out, vec![id("foo", 0), punct('~', 1)]);
}

#[test]
fn substitute_paste_operator_without_preceding_identifier_passes_through() {
    let body = vec![punct('~', 0), id("N", 1)];
    let out = substitute(&body, &var("N"), 3);
    assert_eq!(out, vec![punct('~', 0), lit("3", 1)]);
}

#[test]
fn substitute_leaves_inert_sequence_unchanged() {
    let body = vec![
        id("a", 0),
        lit("1", 1),
        punct('+', 2),
        group(Delim::Paren, vec![id("b", 3)], 4),
    ];
    let out = substitute(&body, &var("N"), 9);
    assert_eq!(out, body);
}

#[test]
fn scan_leaves_inert_sequence_unchanged_and_flag_down() {
    let body = vec![
        id("a", 0),
        group(Delim::Paren, vec![id("b", 1)], 2),
        punct('*', 3),
    ];
    let mut found = false;
    let out = scan(&body, &var("N"), 0, 5, false, &mut found);
    assert!(!found);
    assert_eq!(out, body);
}

#[test]
fn scan_never_lowers_the_flag() {
    let body = vec![id("a", 0)];
    let mut found = true;
    let out = scan(&body, &var("N"), 0, 2, false, &mut found);
    assert!(found);
    assert_eq!(out, body);
}

#[test]
fn scan_expands_marker_in_place() {
    let body = vec![
        id("left", 0),
        punct('#', 1),
        group(Delim::Paren, vec![id("N", 2)], 3),
        punct('*', 4),
        id("right", 5),
    ];
    let mut found = false;
    let out = scan(&body, &var("N"), 3, 5, false, &mut found);
    assert!(found);
    assert_eq!(
        out,
        vec![id("left", 0), lit("3", 2), lit("4", 2), id("right", 5)]
    );
}

#[test]
fn scan_finds_marker_nested_in_group() {
    let body = vec![group(
        Delim::Brace,
        vec![
            punct('#', 1),
            group(Delim::Paren, vec![id("N", 2)], 3),
            punct('*', 4),
        ],
        0,
    )];
    let mut found = false;
    let out = scan(&body, &var("N"), 0, 2, false, &mut found);
    assert!(found);
    assert_eq!(
        out,
        vec![group(Delim::Brace, vec![lit("0", 2), lit("1", 2)], 0)]
    );
}

#[test]
fn scan_marker_with_brace_group_does_not_match() {
    // The marker needs a parenthesis group; a brace group after `#` is
    // an ordinary group and is recursed into.
    let body = vec![
        punct('#', 0),
        group(Delim::Brace, vec![id("x", 1)], 2),
        punct('*', 3),
    ];
    let mut found = false;
    let out = scan(&body, &var("N"), 0, 2, false, &mut found);
    assert!(!found);
    assert_eq!(out, body);
}

#[test]
fn repeat_expansion_empty_and_inclusive_ranges() {
    let body = vec![id("N", 0)];
    assert_eq!(repeat_expansion(&body, &var("N"), 4, 4, false), vec![]);
    assert_eq!(repeat_expansion(&body, &var("N"), 5, 4, true), vec![]);
    assert_eq!(
        repeat_expansion(&body, &var("N"), 4, 4, true),
        vec![lit("4", 0)]
    );
    assert_eq!(
        repeat_expansion(&body, &var("N"), 1, 3, false),
        vec![lit("1", 0), lit("2", 0)]
    );
}

#[test]
fn parse_header_accepts_both_range_forms() {
    let exclusive = vec![
        id("N", 0),
        id("in", 1),
        lit("2", 2),
        punct('.', 3),
        punct('.', 4),
        lit("9", 5),
    ];
    let h = parse_header(&exclusive).unwrap();
    assert_eq!(h.variable, "N");
    assert_eq!(h.start, 2);
    assert_eq!(h.stop, 9);
    assert!(!h.stop_is_inclusive);

    let inclusive = vec![
        id("K", 0),
        id("in", 1),
        lit("0", 2),
        punct('.', 3),
        punct('.', 4),
        punct('=', 5),
        lit("7", 6),
    ];
    let h = parse_header(&inclusive).unwrap();
    assert_eq!(h.variable, "K");
    assert_eq!(h.start, 0);
    assert_eq!(h.stop, 7);
    assert!(h.stop_is_inclusive);
}

#[test]
fn parse_header_reports_each_divergence() {
    let empty: Vec<Node> = vec![];
    assert_eq!(
        parse_header(&empty).unwrap_err(),
        ExpandError::HeaderSyntax { pos: 0, expected: HeaderExpect::Variable }
    );

    let not_ident = vec![lit("3", 9)];
    assert_eq!(
        parse_header(&not_ident).unwrap_err(),
        ExpandError::HeaderSyntax { pos: 9, expected: HeaderExpect::Variable }
    );

    let no_start = vec![id("N", 0), id("in", 1), id("x", 2)];
    assert_eq!(
        parse_header(&no_start).unwrap_err(),
        ExpandError::HeaderSyntax { pos: 2, expected: HeaderExpect::RangeStart }
    );

    let one_dot = vec![id("N", 0), id("in", 1), lit("0", 2), punct('.', 3), lit("5", 4)];
    assert_eq!(
        parse_header(&one_dot).unwrap_err(),
        ExpandError::HeaderSyntax { pos: 4, expected: HeaderExpect::RangeDot }
    );

    let no_stop = vec![
        id("N", 0),
        id("in", 1),
        lit("0", 2),
        punct('.', 3),
        punct('.', 4),
    ];
    assert_eq!(
        parse_header(&no_stop).unwrap_err(),
        ExpandError::HeaderSyntax { pos: 4, expected: HeaderExpect::StopOrEquals }
    );

    let no_stop_after_equals = vec![
        id("N", 0),
        id("in", 1),
        lit("0", 2),
        punct('.', 3),
        punct('.', 4),
        punct('=', 5),
    ];
    assert_eq!(
        parse_header(&no_stop_after_equals).unwrap_err(),
        ExpandError::HeaderSyntax { pos: 5, expected: HeaderExpect::RangeStop }
    );
}

#[test]
fn parse_u64_accepts_exactly_plain_decimal_u64() {
    assert_eq!(parse_u64("0"), Some(0));
    assert_eq!(parse_u64("42"), Some(42));
    assert_eq!(parse_u64("18446744073709551615"), Some(u64::MAX));
    assert_eq!(parse_u64("18446744073709551616"), None);
    assert_eq!(parse_u64(""), None);
    assert_eq!(parse_u64("12a"), None);
    assert_eq!(parse_u64("-3"), None);
    assert_eq!(parse_u64("1_000"), None);
}

#[test]
fn u64_to_dec_prints_decimal() {
    assert_eq!(u64_to_dec(0), "0");
    assert_eq!(u64_to_dec(10), "10");
    assert_eq!(u64_to_dec(907), "907");
    assert_eq!(u64_to_dec(u64::MAX), "18446744073709551615");
}

#[test]
fn substitute_pastes_plain_identifiers_too() {
    // A chain of identifiers none of which is the bound variable still
    // collapses into one identifier.
    let body = vec![id("foo", 0), punct('~', 1), id("bar", 2)];
    let out = substitute(&body, &var("N"), 3);
    assert_eq!(out, vec![id("foobar", 0)]);
}

#[test]
fn substitute_chain_of_variable_with_itself() {
    // `N~N`: the chain's first identifier keeps its literal text, the
    // linked one becomes the value.
    let body = vec![id("N", 0), punct('~', 1), id("N", 2)];
    let out = substitute(&body, &var("N"), 3);
    assert_eq!(out, vec![id("N3", 0)]);
}

#[test]
fn substitute_preserves_joint_spacing_and_positions() {
    let body = vec![
        Node::Punct { ch: ':', joint: true, pos: 4 },
        Node::Punct { ch: ':', joint: false, pos: 5 },
        group(Delim::Brace, vec![lit("8", 6)], 7),
    ];
    let out = substitute(&body, &var("N"), 0);
    assert_eq!(out, body);
}

#[test]
fn scan_expands_two_markers_independently() {
    let body = vec![
        punct('#', 0),
        group(Delim::Paren, vec![id("N", 1)], 2),
        punct('*', 3),
        punct(';', 4),
        punct('#', 5),
        group(Delim::Paren, vec![id("b", 6)], 7),
        punct('*', 8),
    ];
    let mut found = false;
    let out = scan(&body, &var("N"), 0, 2, false, &mut found);
    assert!(found);
    assert_eq!(
        out,
        vec![
            lit("0", 1),
            lit("1", 1),
            punct(';', 4),
            id("b", 6),
            id("b", 6),
        ]
    );
}

#[test]
fn scan_marker_group_substitutes_chains_inside() {
    let body = vec![
        punct('#', 0),
        group(
            Delim::Paren,
            vec![id("f", 1), punct('~', 2), id("N", 3), group(Delim::Paren, vec![], 4)],
            5,
        ),
        punct('*', 6),
    ];
    let mut found = false;
    let out = scan(&body, &var("N"), 1, 3, false, &mut found);
    assert!(found);
    assert_eq!(
        out,
        vec![
            id("f1", 1),
            group(Delim::Paren, vec![], 4),
            id("f2", 1),
            group(Delim::Paren, vec![], 4),
        ]
    );
}
