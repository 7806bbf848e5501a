use justanothergitgui::github::{
    is_github_https_url, parse_github_remote_slug, parse_link_header_next,
    repo_name_from_clone_url,
};
use justanothergitgui::tags::{parse_semver_tag, suggest_next_tag};

#[test]
fn treats_https_github_remotes_as_app_auth_candidates() {
    assert!(is_github_https_url(
        "https://github.com/octocat/hello-world.git"
    ));
}

#[test]
fn keeps_github_ssh_remotes_on_system_auth_path() {
    assert_eq!(
        parse_github_remote_slug("git@github.com:octocat/hello-world.git"),
        Some(("octocat".into(), "hello-world".into()))
    );
    assert_eq!(
        parse_github_remote_slug("ssh://git@github.com/octocat/hello-world.git"),
        Some(("octocat".into(), "hello-world".into()))
    );
    assert!(!is_github_https_url(
        "git@github.com:octocat/hello-world.git"
    ));
    assert!(!is_github_https_url(
        "ssh://git@github.com/octocat/hello-world.git"
    ));
}

#[test]
fn parse_semver_tag_accepts_plain_and_v_prefixed() {
    assert_eq!(parse_semver_tag("v1.2.3.4"), Some(([1, 2, 3, 4], true)));
    assert_eq!(parse_semver_tag("0.10.4.7"), Some(([0, 10, 4, 7], false)));
}

#[test]
fn parse_semver_tag_rejects_non_semver() {
    assert!(parse_semver_tag("v1.2").is_none());
    assert!(parse_semver_tag("v1.2.3").is_none());
    assert!(parse_semver_tag("v1.2.3.4.5").is_none());
    assert!(parse_semver_tag("release-5").is_none());
    assert!(parse_semver_tag("v1.2.3.4-rc1").is_none());
}

#[test]
fn repo_name_strips_git_suffix_and_picks_last_segment() {
    assert_eq!(
        repo_name_from_clone_url("https://github.com/octocat/Hello-World.git"),
        Some("Hello-World".to_string())
    );
    assert_eq!(
        repo_name_from_clone_url("https://github.com/octocat/Hello-World"),
        Some("Hello-World".to_string())
    );
    assert_eq!(
        repo_name_from_clone_url("git@github.com:octocat/Hello-World.git"),
        Some("Hello-World".to_string())
    );
    assert_eq!(
        repo_name_from_clone_url("  https://example.com/a/b/repo/  "),
        Some("repo".to_string())
    );
    assert_eq!(repo_name_from_clone_url(""), None);
    assert_eq!(repo_name_from_clone_url("   "), None);
}

#[test]
fn repo_name_rejects_traversal_segments() {
    assert_eq!(repo_name_from_clone_url("https://example.com/a/."), None);
    assert_eq!(repo_name_from_clone_url("https://example.com/a/.."), None);
    assert_eq!(
        repo_name_from_clone_url("https://example.com/a/../b/."),
        None
    );
    assert_eq!(
        repo_name_from_clone_url("https://example.com/a/..git"),
        None
    );
    assert_eq!(repo_name_from_clone_url("/"), None);
    assert_eq!(
        repo_name_from_clone_url("https://example.com/a/foo\\bar"),
        None
    );
}

#[test]
fn parse_link_header_finds_next_url() {
    let header = "<https://api.github.com/user/repos?page=2>; rel=\"next\", <https://api.github.com/user/repos?page=5>; rel=\"last\"";
    assert_eq!(
        parse_link_header_next(header).as_deref(),
        Some("https://api.github.com/user/repos?page=2")
    );

    let last_only = "<https://api.github.com/user/repos?page=5>; rel=\"last\"";
    assert_eq!(parse_link_header_next(last_only), None);
}

#[test]
fn suggest_next_tag_bumps_patch_from_highest_existing_tag() {
    let tags: Vec<String> = [
        "v0.9.0.0",
        "v1.2.3.5",
        "v1.2.0.0",
        "nightly-2024",
        "v2.0.0.0-rc1",
    ]
    .iter()
    .map(|tag| tag.to_string())
    .collect();

    assert_eq!(suggest_next_tag(&tags), "v1.2.3.6");
}

#[test]
fn suggest_next_tag_defaults_when_no_tags_exist() {
    assert_eq!(suggest_next_tag(&[]), "v1.0.0.0");
}

#[test]
fn suggest_next_tag_preserves_prefix_style_of_highest_tag() {
    let tags: Vec<String> = ["v0.1.0.0", "3.4.5.2"].iter().map(|tag| tag.to_string()).collect();

    assert_eq!(suggest_next_tag(&tags), "3.4.5.3");
}
