use rscheck::report::Severity;
use rscheck::rules::duplicates::{classify_literal, duplicate_logic_finding, overlapping_pairs, side_by_side};
use rscheck::span::{Location, Span};

#[test]
fn pairs_sharing_fingerprints_are_listed_in_order_with_their_counts() {
    let sets = vec![vec![1, 2, 3, 4], vec![9], vec![3, 4, 5], vec![1, 4, 7, 8, 9]];
    let tokens = vec![50, 50, 50, 50];
    let pairs = overlapping_pairs(&sets, &tokens, 10);
    let got: Vec<(usize, usize, usize, usize, usize)> =
        pairs.iter().map(|p| (p.first, p.second, p.first_len, p.second_len, p.shared)).collect();
    assert_eq!(got, vec![(0, 2, 4, 3, 2), (0, 3, 4, 5, 2), (1, 3, 1, 5, 1), (2, 3, 3, 5, 1)]);
}

#[test]
fn short_or_empty_functions_are_not_compared() {
    let sets = vec![vec![1, 2], vec![1, 2], vec![], vec![1, 2]];
    let tokens = vec![5, 50, 50, 50];
    let pairs = overlapping_pairs(&sets, &tokens, 10);
    let got: Vec<(usize, usize)> = pairs.iter().map(|p| (p.first, p.second)).collect();
    assert_eq!(got, vec![(1, 3)]);
}

#[test]
fn literals_are_classified_by_their_first_characters() {
    assert_eq!(classify_literal("\"text\""), "STR");
    assert_eq!(classify_literal("r#\"raw\"#"), "STR");
    assert_eq!(classify_literal("b\"bytes\""), "STR");
    assert_eq!(classify_literal("42u8"), "INT");
    assert_eq!(classify_literal("-1"), "INT");
    assert_eq!(classify_literal("'c'"), "LIT");
    assert_eq!(classify_literal(""), "LIT");
}

#[test]
fn side_by_side_lays_out_both_texts() {
    let text = side_by_side("a\n\tb\nc\n", "a\nX\nc\n");
    assert_eq!(text, "A | B\n---|---\na   | a\n    b | \n    | X\nc   | c\n");
}

#[test]
fn duplicate_finding_names_both_functions() {
    let span = |line: u32| Span::new("src/lib.rs", Location { line, column: 1 }, Location { line, column: 2 });
    let f = duplicate_logic_finding(Severity::Warn, "93", "a", span(1), "b", span(5), String::from("A | B\n"));
    assert_eq!(f.message(), "duplicate logic: 93% similarity between `a` and `b`");
    assert_eq!(f.help(), Some("Extract shared code or delete one copy."));
    assert_eq!(f.secondary().len(), 1);
    assert_eq!(f.rule_id(), "shape.duplicate_logic");
}
