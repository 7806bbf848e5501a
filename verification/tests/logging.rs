use justanothergitgui::logging::{
    log_file_name_for, log_line, repo_log_file_name, sanitize_log_text, summarize_for_ui, AppLogger, LogFileRead,
};

#[test]
fn repo_log_file_name_differs_per_repository() {
    let a = repo_log_file_name("/home/me/project-a");
    let b = repo_log_file_name("/home/me/project-b");

    assert_ne!(a, b);
    assert!(a.starts_with("repo-project-a-"));
    assert!(a.ends_with(".log"));
}

#[test]
fn repo_log_file_name_is_stable_for_same_repository() {
    let path = "/home/me/project";
    assert_eq!(repo_log_file_name(path), repo_log_file_name(path));
}

#[test]
fn repo_log_file_name_distinguishes_same_folder_name_in_different_paths() {
    let a = repo_log_file_name("/home/me/work/app");
    let b = repo_log_file_name("/home/me/personal/app");

    // Same readable slug, but the path hash keeps the files separate.
    assert_ne!(a, b);
    assert!(a.starts_with("repo-app-"));
    assert!(b.starts_with("repo-app-"));
}

#[test]
fn repo_log_file_name_sanitizes_unsafe_characters() {
    let name = repo_log_file_name("/tmp/weird name!/repo@#");

    assert!(name.starts_with("repo-repo__-"));
    let slug_and_hash = name.trim_start_matches("repo-").trim_end_matches(".log");
    assert!(
        slug_and_hash
            .chars()
            .all(|ch| ch.is_ascii_alphanumeric() || ch == '-' || ch == '_')
    );
}

#[test]
fn log_error_falls_back_to_memory_when_log_file_is_unavailable() {
    let mut logger = AppLogger::new("/nonexistent-dir/justanothergitgui-fallback");
    let line = log_line(1_700_000_000, "Settings", "disk full");

    logger.write_to_fallback(1_700_000_000, &line, "Could not open log file: No such file or directory (os error 2)");

    let entries = logger.read_entries(&LogFileRead::Missing);
    assert!(logger.has_entries(false));
    assert!(entries.contains("Logger failure: Could not open log file:"));
    assert!(entries.contains("Settings: disk full"));

    logger.clear_fallback_entries();
    assert!(!logger.has_entries(false));
    assert_eq!(logger.read_entries(&LogFileRead::Missing), "No logs written yet.");
}

#[test]
fn a_log_file_name_spells_the_hash_as_sixteen_hex_digits() {
    assert_eq!(log_file_name_for("/home/me/project-a", 0x1234), "repo-project-a-0000000000001234.log");
    assert_eq!(log_file_name_for("/home/me/app", u64::MAX), "repo-app-ffffffffffffffff.log");
    assert_eq!(log_file_name_for("/", 0xabc), "repo-repo-0000000000000abc.log");
}
