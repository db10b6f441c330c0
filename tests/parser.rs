use diff_tool::diff::{digit_count, largest_line_number, Diff, DiffKind, DiffLine};
use diff_tool::parser::{get_diff, DiffParser};

fn rows(lines: &[DiffLine]) -> Vec<(String, DiffKind, Option<usize>)> {
    lines
        .iter()
        .map(|l| (l.content().to_string(), *l.kind(), *l.line_number()))
        .collect()
}

fn row(content: &str, kind: DiffKind, n: Option<usize>) -> (String, DiffKind, Option<usize>) {
    (content.to_string(), kind, n)
}

#[test]
fn end_to_end_example() {
    let diff = Diff::parse_diff("@@ -1,3 +1,3 @@\n kept line\n-old line\n+new line");
    assert_eq!(
        rows(diff.old_diff()),
        vec![
            row("kept line", DiffKind::Neutral, Some(1)),
            row("old line", DiffKind::Removal, Some(2)),
        ]
    );
    assert_eq!(
        rows(diff.current_diff()),
        vec![
            row("kept line", DiffKind::Neutral, Some(1)),
            row("new line", DiffKind::Addition, Some(2)),
        ]
    );
}

#[test]
fn columns_have_equal_length() {
    let texts = [
        "",
        "@@ x @@\n-a\n-b\n-c",
        "@@ x @@\n+a\n+b",
        "@@ x @@\n+a\n-b\n-c\n d\n+e",
        "diff --git a/f b/f\n--- a/f\n+++ b/f\n@@ -1,2 +1,3 @@\n a\n-b\n+c\n+d\n e\n",
    ];
    for text in texts {
        let diff = Diff::parse_diff(text);
        assert_eq!(diff.old_diff().len(), diff.current_diff().len(), "{text:?}");
    }
}

#[test]
fn parsing_twice_gives_the_same_columns() {
    let text = "@@ -1,4 +1,4 @@\n a\n-b\n+c\n d\n-e";
    let first = Diff::parse_diff(text);
    let second = Diff::parse_diff(text);
    assert_eq!(rows(first.old_diff()), rows(second.old_diff()));
    assert_eq!(rows(first.current_diff()), rows(second.current_diff()));
}

#[test]
fn text_without_hunk_header_gives_empty_diff() {
    let diff = Diff::parse_diff("diff --git a/f b/f\nindex 123..456\n--- a/f\n+++ b/f\n-x\n+y\n z");
    assert!(diff.old_diff().is_empty());
    assert!(diff.current_diff().is_empty());
    let empty = Diff::parse_diff("");
    assert!(empty.old_diff().is_empty());
    assert!(empty.current_diff().is_empty());
}

#[test]
fn three_removals_one_addition_then_context() {
    let diff = Diff::parse_diff("@@ -1,4 +1,2 @@\n-r1\n-r2\n-r3\n+a1\n n");
    assert_eq!(
        rows(diff.old_diff()),
        vec![
            row("r1", DiffKind::Removal, Some(1)),
            row("r2", DiffKind::Removal, Some(2)),
            row("r3", DiffKind::Removal, Some(3)),
            row("n", DiffKind::Neutral, Some(4)),
        ]
    );
    assert_eq!(
        rows(diff.current_diff()),
        vec![
            row("a1", DiffKind::Addition, Some(1)),
            row("", DiffKind::Blank, None),
            row("", DiffKind::Blank, None),
            row("n", DiffKind::Neutral, Some(2)),
        ]
    );
    let blanks_old = diff.old_diff().iter().filter(|l| *l.kind() == DiffKind::Blank).count();
    assert_eq!(blanks_old, 0);
}

#[test]
fn additions_without_removals_pad_the_left_column_at_the_end() {
    let diff = Diff::parse_diff("@@ x @@\n+a\n+b");
    assert_eq!(
        rows(diff.old_diff()),
        vec![row("", DiffKind::Blank, None), row("", DiffKind::Blank, None)]
    );
    assert_eq!(
        rows(diff.current_diff()),
        vec![row("a", DiffKind::Addition, Some(1)), row("b", DiffKind::Addition, Some(2))]
    );
}

#[test]
fn line_numbers_count_each_side() {
    let diff = Diff::parse_diff("@@ x @@\n a\n-b\n-c\n+d\n e\n+f\n g");
    let old: Vec<Option<usize>> = diff.old_diff().iter().map(|l| *l.line_number()).collect();
    let new: Vec<Option<usize>> = diff.current_diff().iter().map(|l| *l.line_number()).collect();
    assert_eq!(old, vec![Some(1), Some(2), Some(3), Some(4), None, Some(5)]);
    assert_eq!(new, vec![Some(1), Some(2), None, Some(3), Some(4), Some(5)]);
    for l in diff.old_diff() {
        assert_ne!(*l.kind(), DiffKind::Addition);
        if *l.kind() == DiffKind::Blank {
            assert_eq!(*l.line_number(), None);
            assert_eq!(l.content(), "");
        }
    }
    for l in diff.current_diff() {
        assert_ne!(*l.kind(), DiffKind::Removal);
    }
}

#[test]
fn marker_only_and_empty_lines() {
    let diff = Diff::parse_diff("@@ x @@\n-\n+\n");
    assert_eq!(
        rows(diff.old_diff()),
        vec![row("", DiffKind::Removal, Some(1)), row("", DiffKind::Neutral, Some(2))]
    );
    assert_eq!(
        rows(diff.current_diff()),
        vec![row("", DiffKind::Addition, Some(1)), row("", DiffKind::Neutral, Some(2))]
    );
}

#[test]
fn counters_carry_across_hunks() {
    let diff = Diff::parse_diff("@@ -1 +1 @@\n-a\n@@ -5 +5 @@\n b");
    assert_eq!(
        rows(diff.old_diff()),
        vec![row("a", DiffKind::Removal, Some(1)), row("b", DiffKind::Neutral, Some(2))]
    );
    assert_eq!(
        rows(diff.current_diff()),
        vec![row("", DiffKind::Blank, None), row("b", DiffKind::Neutral, Some(1))]
    );
}

#[test]
fn header_with_trailing_context_is_a_body_line() {
    let diff = Diff::parse_diff("@@ -1 +1 @@\n@@ -1 +1 @@ fn main()\n x");
    assert_eq!(
        rows(diff.old_diff()),
        vec![
            row("@ -1 +1 @@ fn main()", DiffKind::Neutral, Some(1)),
            row("x", DiffKind::Neutral, Some(2)),
        ]
    );
}

#[test]
fn get_diff_matches_parse_diff() {
    let text = "@@ a @@\n k\n-r\n+a";
    assert_eq!(rows(get_diff(text).old_diff()), rows(Diff::parse_diff(text).old_diff()));
    assert_eq!(rows(get_diff(text).diff_two()), rows(Diff::parse_diff(text).current_diff()));
    assert_eq!(get_diff(text).diff_one().len(), 2);
}

#[test]
fn parser_fed_line_by_line() {
    let mut parser = DiffParser::new();
    for line in ["@@ @@", "-x", "-y", "+z"] {
        let chars: Vec<char> = line.chars().collect();
        parser.feed_line(&chars);
    }
    let diff = parser.finish();
    assert_eq!(
        rows(diff.current_diff()),
        vec![row("z", DiffKind::Addition, Some(1)), row("", DiffKind::Blank, None)]
    );
}

#[test]
fn kind_markers() {
    assert_eq!(DiffKind::Addition.value(), "+");
    assert_eq!(DiffKind::Removal.value(), "-");
    assert_eq!(DiffKind::Neutral.value(), " ");
    assert_eq!(DiffKind::Blank.value(), " ");
}

#[test]
fn longest_diff_len_is_last_index_of_longer_column() {
    let diff = Diff::parse_diff("@@ x @@\n a\n-b\n-c\n+d");
    assert_eq!(diff.longest_diff_len(), 2);
}

#[test]
fn line_number_width_has_floor_of_four() {
    let small = Diff::parse_diff("@@ x @@\n a\n b");
    assert_eq!(small.largest_line_number_len(), 4);
    assert_eq!(small.largest_line_number_char_len(), 4);
    let mut text = String::from("@@ x @@\n");
    for i in 0..12345 {
        text.push_str(&format!(" line {i}\n"));
    }
    let big = Diff::parse_diff(&text);
    assert_eq!(big.largest_line_number(), (12346, 12346));
    assert_eq!(big.largest_line_number_len(), 5);
    assert_eq!(big.largest_line_number_char_len(), 5);
}

#[test]
fn largest_line_number_of_a_column() {
    let diff = Diff::parse_diff("@@ x @@\n-a\n-b\n+c");
    assert_eq!(largest_line_number(diff.old_diff()), 2);
    assert_eq!(largest_line_number(diff.current_diff()), 1);
    assert_eq!(largest_line_number(&[]), 0);
    assert_eq!(diff.largest_line_number(), (2, 1));
}

#[test]
fn digit_counts() {
    assert_eq!(digit_count(0), 1);
    assert_eq!(digit_count(9), 1);
    assert_eq!(digit_count(10), 2);
    assert_eq!(digit_count(99999), 5);
    assert_eq!(digit_count(usize::MAX), usize::MAX.to_string().len());
}
