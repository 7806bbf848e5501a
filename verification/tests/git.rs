use justanothergitgui::git::{commit_labels, relative_time};
use justanothergitgui::tags::tag_ref_name;

#[test]
fn relative_time_names_the_largest_unit_that_fits() {
    assert_eq!(relative_time(1_000, 1_000), "just now");
    assert_eq!(relative_time(1_059, 1_000), "just now");
    assert_eq!(relative_time(1_060, 1_000), "1m ago");
    assert_eq!(relative_time(1_000 + 3_600, 1_000), "1h ago");
    assert_eq!(relative_time(1_000 + 86_400, 1_000), "1d ago");
    assert_eq!(relative_time(1_000 + 2_592_000, 1_000), "1mo ago");
}

#[test]
fn an_instant_in_the_future_says_so() {
    assert_eq!(relative_time(1_000, 2_000), "in the future");
}

#[test]
fn history_rows_show_branches_before_tags_for_their_commit() {
    let refs = vec![
        ("main".to_string(), "aaa".to_string()),
        ("topic".to_string(), "bbb".to_string()),
        ("release".to_string(), "aaa".to_string()),
        ("v1.0.0.0".to_string(), "aaa".to_string()),
    ];
    assert_eq!(
        commit_labels("aaa", &refs),
        vec!["main".to_string(), "release".to_string(), "v1.0.0.0".to_string()]
    );
    assert_eq!(commit_labels("bbb", &refs), vec!["topic".to_string()]);
    assert!(commit_labels("ccc", &refs).is_empty());
    assert_eq!(tag_ref_name("v1.0.0.0"), "refs/tags/v1.0.0.0");
}
