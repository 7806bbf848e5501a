use justanothergitgui::diff::{
    parse_diff_rows, parse_hunk_header, to_side_by_side, DiffLineKind, ParsedDiffLine,
    SideBySideEntry, SideCell,
};

#[test]
fn parses_hunk_start_line_numbers() {
    assert_eq!(
        parse_hunk_header("@@ -14,3 +20,7 @@ fn render()"),
        Some((14, 20))
    );
}

#[test]
fn assigns_old_and_new_line_numbers_to_diff_rows() {
    let rows = parse_diff_rows("diff --git a/src/app.rs b/src/app.rs\n@@ -10,2 +10,3 @@\n line one\n-line removed\n+line added\n+line added too\n");

    assert_eq!(rows[0].kind, DiffLineKind::FileHeader);
    assert_eq!(rows[1].kind, DiffLineKind::HunkHeader);
    assert_eq!(rows[2].old_line_number, Some(10));
    assert_eq!(rows[2].new_line_number, Some(10));
    assert_eq!(rows[3].kind, DiffLineKind::Removed);
    assert_eq!(rows[3].old_line_number, Some(11));
    assert_eq!(rows[3].new_line_number, None);
    assert_eq!(rows[4].kind, DiffLineKind::Added);
    assert_eq!(rows[4].old_line_number, None);
    assert_eq!(rows[4].new_line_number, Some(11));
    assert_eq!(rows[5].new_line_number, Some(12));
}

fn line(
    kind: DiffLineKind,
    old: Option<usize>,
    new: Option<usize>,
    content: &str,
) -> ParsedDiffLine {
    ParsedDiffLine {
        old_line_number: old,
        new_line_number: new,
        kind,
        content: content.to_string(),
    }
}

fn old_content(entry: &SideBySideEntry) -> Option<&str> {
    match entry {
        SideBySideEntry::Row(row) => match &row.old {
            SideCell::Line { content, .. } => Some(content),
            SideCell::Empty => None,
        },
        SideBySideEntry::Header(_) => None,
    }
}

fn new_content(entry: &SideBySideEntry) -> Option<&str> {
    match entry {
        SideBySideEntry::Row(row) => match &row.new {
            SideCell::Line { content, .. } => Some(content),
            SideCell::Empty => None,
        },
        SideBySideEntry::Header(_) => None,
    }
}

#[test]
fn pairs_a_one_for_one_replacement_on_the_same_row() {
    let rows = vec![
        line(DiffLineKind::Removed, Some(1), None, "before"),
        line(DiffLineKind::Added, None, Some(1), "after"),
    ];

    let entries = to_side_by_side(&rows);

    assert_eq!(entries.len(), 1);
    assert_eq!(old_content(&entries[0]), Some("before"));
    assert_eq!(new_content(&entries[0]), Some("after"));
}

#[test]
fn pads_the_shorter_side_of_an_uneven_replacement() {
    let rows = vec![
        line(DiffLineKind::Removed, Some(1), None, "one"),
        line(DiffLineKind::Removed, Some(2), None, "two"),
        line(DiffLineKind::Removed, Some(3), None, "three"),
        line(DiffLineKind::Added, None, Some(1), "only"),
    ];

    let entries = to_side_by_side(&rows);

    assert_eq!(entries.len(), 3);
    assert_eq!(new_content(&entries[0]), Some("only"));
    assert_eq!(old_content(&entries[1]), Some("two"));
    assert_eq!(new_content(&entries[1]), None);
    assert_eq!(new_content(&entries[2]), None);
}

#[test]
fn leaves_the_new_side_empty_for_pure_deletions() {
    let rows = vec![line(DiffLineKind::Removed, Some(7), None, "gone")];

    let entries = to_side_by_side(&rows);

    assert_eq!(entries.len(), 1);
    assert_eq!(old_content(&entries[0]), Some("gone"));
    assert_eq!(new_content(&entries[0]), None);
}

#[test]
fn leaves_the_old_side_empty_for_pure_insertions() {
    let rows = vec![line(DiffLineKind::Added, None, Some(7), "fresh")];

    let entries = to_side_by_side(&rows);

    assert_eq!(entries.len(), 1);
    assert_eq!(old_content(&entries[0]), None);
    assert_eq!(new_content(&entries[0]), Some("fresh"));
}

#[test]
fn repeats_context_lines_on_both_sides() {
    let rows = vec![line(DiffLineKind::Context, Some(4), Some(9), "shared")];

    let entries = to_side_by_side(&rows);

    assert_eq!(old_content(&entries[0]), Some("shared"));
    assert_eq!(new_content(&entries[0]), Some("shared"));
    match &entries[0] {
        SideBySideEntry::Row(row) => {
            assert!(matches!(
                row.old,
                SideCell::Line {
                    number: Some(4),
                    ..
                }
            ));
            assert!(matches!(
                row.new,
                SideCell::Line {
                    number: Some(9),
                    ..
                }
            ));
        }
        SideBySideEntry::Header(_) => panic!("expected a row"),
    }
}

#[test]
fn keeps_headers_in_order_and_starts_a_new_group_after_them() {
    let rows = parse_diff_rows("diff --git a/a.rs b/a.rs\n@@ -1,2 +1,2 @@\n-old\n+new\n tail\n");

    let entries = to_side_by_side(&rows);

    assert!(
        matches!(&entries[0], SideBySideEntry::Header(text) if text.starts_with("diff --git"))
    );
    assert!(matches!(&entries[1], SideBySideEntry::Header(text) if text.starts_with("@@")));
    assert_eq!(old_content(&entries[2]), Some("old"));
    assert_eq!(new_content(&entries[2]), Some("new"));
    assert_eq!(old_content(&entries[3]), Some("tail"));
}

#[test]
fn separates_back_to_back_replacement_groups() {
    let rows = vec![
        line(DiffLineKind::Removed, Some(1), None, "a-old"),
        line(DiffLineKind::Added, None, Some(1), "a-new"),
        line(DiffLineKind::Removed, Some(2), None, "b-old"),
        line(DiffLineKind::Added, None, Some(2), "b-new"),
    ];

    let entries = to_side_by_side(&rows);

    assert_eq!(entries.len(), 2);
    assert_eq!(old_content(&entries[0]), Some("a-old"));
    assert_eq!(new_content(&entries[0]), Some("a-new"));
    assert_eq!(old_content(&entries[1]), Some("b-old"));
    assert_eq!(new_content(&entries[1]), Some("b-new"));
}
