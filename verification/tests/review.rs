use justanothergitgui::review::{ReviewBase, ReviewBaseSource, ReviewSummary};

#[test]
fn the_header_says_which_base_it_is() {
    let recorded = ReviewBase {
        oid: "a".repeat(40),
        short_oid: "aaaaaaa".into(),
        source: ReviewBaseSource::Recorded,
    };
    let derived = ReviewBase {
        source: ReviewBaseSource::ForkPoint,
        ..recorded.clone()
    };

    assert_ne!(recorded.description(), derived.description());
    assert!(derived.description().contains("fork point"));
}

#[test]
fn the_summary_reads_as_one_line() {
    let many = ReviewSummary {
        files_changed: 8,
        insertions: 120,
        deletions: 45,
    };
    assert_eq!(many.label(), "8 files, +120 -45");

    let one = ReviewSummary {
        files_changed: 1,
        insertions: 3,
        deletions: 0,
    };
    assert_eq!(one.label(), "1 file, +3 -0");

    let none = ReviewSummary::default();
    assert!(none.is_empty());
    assert_eq!(none.label(), "No changes since its base");
}

/// A missing glyph renders as a box the painted-text tests would accept, so
/// the signs have to stay inside ASCII.
#[test]
fn the_summary_uses_no_characters_the_bundled_fonts_lack() {
    let summary = ReviewSummary {
        files_changed: 2,
        insertions: 1,
        deletions: 1,
    };
    assert!(summary.label().is_ascii());
}
