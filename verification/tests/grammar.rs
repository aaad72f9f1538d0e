//! Scenario tests for the shared grammar primitives.

use eaccess::grammar::{literal, number, parse_pairs, word};

#[test]
fn word_takes_the_run_up_to_the_first_terminator() {
    let (tok, next) = word(b"abc\tdef\n", 0, b"\t").unwrap();
    assert_eq!(tok, b"abc");
    assert_eq!(next, 4);
    let (tok, next) = word(b"abc\tdef\n", 4, b"\t\n").unwrap();
    assert_eq!(tok, b"def");
    assert_eq!(next, 8);
}

#[test]
fn word_token_may_be_empty() {
    let (tok, next) = word(b"\tx", 0, b"\t").unwrap();
    assert_eq!(tok, b"");
    assert_eq!(next, 1);
}

#[test]
fn word_without_terminator_fails() {
    assert!(word(b"abc", 0, b"\t").is_none());
}

#[test]
fn number_reads_base_ten() {
    let (v, next) = number(b"117\t", 0).unwrap();
    assert_eq!(v, 117);
    assert_eq!(next, 3);
}

#[test]
fn number_rejects_an_empty_digit_run() {
    assert!(number(b"\t", 0).is_none());
    assert!(number(b"x1", 0).is_none());
}

#[test]
fn number_accepts_exactly_the_64_bit_range() {
    let (v, _) = number(b"18446744073709551615\t", 0).unwrap();
    assert_eq!(v, u64::MAX);
    assert!(number(b"18446744073709551616\t", 0).is_none());
}

#[test]
fn literal_requires_the_exact_bytes() {
    assert_eq!(literal(b"KEY\tx", 0, b"KEY\t"), Some(4));
    assert!(literal(b"KEX\tx", 0, b"KEY\t").is_none());
    assert!(literal(b"KE", 0, b"KEY\t").is_none());
}

#[test]
fn pairs_are_consumed_greedily() {
    let (ps, end) = parse_pairs(b"a\tb\tc\td\n", 0, b'\t');
    assert_eq!(ps.len(), 2);
    assert_eq!(ps[0].0, b"a");
    assert_eq!(ps[0].1, b"b");
    assert_eq!(ps[1].0, b"c");
    assert_eq!(ps[1].1, b"d");
    assert_eq!(end, 8);
}

#[test]
fn a_failing_pair_stops_the_repetition_where_it_began() {
    let (ps, end) = parse_pairs(b"a\tb\tc\n", 0, b'\t');
    assert_eq!(ps.len(), 1);
    assert_eq!(end, 4);
    let (ps, end) = parse_pairs(b"", 0, b'\t');
    assert_eq!(ps.len(), 0);
    assert_eq!(end, 0);
}
