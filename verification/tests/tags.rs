use camino::Utf8PathBuf;
use cargo_workspaces::git::{GitOpt, RepoVersion};
use semver::Version;

fn git_opt() -> GitOpt {
    GitOpt {
        no_git_commit: false,
        allow_branch: None,
        amend: false,
        message: None,
        no_git_tag: false,
        no_individual_tags: false,
        no_global_tag: false,
        tag_prefix: "v".to_string(),
        individual_tag_prefix: "%n@".to_string(),
        no_git_push: false,
        git_remote: "origin".to_string(),
        root_tracking_commit: false,
    }
}

fn version_text(v: &str) -> String {
    Version::parse(v).expect("valid version").to_string()
}

#[test]
fn individual_tag_uses_global_prefix_for_independent_package_in_separate_repo() {
    let git = git_opt();
    let workspace_root = Utf8PathBuf::from("/workspace");
    let root = Utf8PathBuf::from("/workspace/submodule");
    let version = Version::parse("1.2.3").expect("valid version");

    let tag = git.individual_tag(
        workspace_root.as_str(),
        root.as_str(),
        "crate",
        &version.to_string(),
        true,
    );

    assert_eq!(tag, "v1.2.3");
}

#[test]
fn root_package_tag_is_skipped_when_global_tag_exists() {
    let git = git_opt();
    let workspace_root = Utf8PathBuf::from("/workspace");

    let skipped = git.should_skip_individual_tag(
        workspace_root.as_str(),
        workspace_root.as_str(),
        &RepoVersion {
            version: version_text("1.2.3"),
            independent: false,
            root: true,
        },
        true,
    );

    assert!(skipped);
}

#[test]
fn non_root_package_tag_is_not_skipped_when_global_tag_exists() {
    let git = git_opt();
    let workspace_root = Utf8PathBuf::from("/workspace");

    let skipped = git.should_skip_individual_tag(
        workspace_root.as_str(),
        workspace_root.as_str(),
        &RepoVersion {
            version: version_text("1.2.3"),
            independent: false,
            root: false,
        },
        true,
    );

    assert!(!skipped);
}

#[test]
fn root_package_tag_is_not_skipped_without_global_tag() {
    let git = git_opt();
    let workspace_root = Utf8PathBuf::from("/workspace");

    let skipped = git.should_skip_individual_tag(
        workspace_root.as_str(),
        workspace_root.as_str(),
        &RepoVersion {
            version: version_text("1.2.3"),
            independent: false,
            root: true,
        },
        false,
    );

    assert!(!skipped);
}

#[test]
fn individual_tag_uses_package_prefix_for_independent_package_in_workspace_repo() {
    let git = git_opt();
    let workspace_root = Utf8PathBuf::from("/workspace");
    let version = Version::parse("1.2.3").expect("valid version");

    let tag = git.individual_tag(
        workspace_root.as_str(),
        workspace_root.as_str(),
        "crate",
        &version.to_string(),
        true,
    );

    assert_eq!(tag, "crate@1.2.3");
}

#[test]
fn individual_tag_uses_package_prefix_for_non_independent_package_in_separate_repo() {
    let git = git_opt();
    let workspace_root = Utf8PathBuf::from("/workspace");
    let root = Utf8PathBuf::from("/workspace/submodule");
    let version = Version::parse("1.2.3").expect("valid version");

    let tag = git.individual_tag(
        workspace_root.as_str(),
        root.as_str(),
        "crate",
        &version.to_string(),
        false,
    );

    assert_eq!(tag, "crate@1.2.3");
}

#[test]
fn individual_tag_uses_custom_global_prefix_for_independent_package_in_separate_repo() {
    let mut git = git_opt();
    let workspace_root = Utf8PathBuf::from("/workspace");
    let root = Utf8PathBuf::from("/workspace/submodule");
    let version = Version::parse("1.2.3").expect("valid version");

    git.tag_prefix = "release-".to_string();

    let tag = git.individual_tag(
        workspace_root.as_str(),
        root.as_str(),
        "crate",
        &version.to_string(),
        true,
    );

    assert_eq!(tag, "release-1.2.3");
}

#[test]
fn individual_tag_replaces_every_name_placeholder() {
    let mut git = git_opt();
    git.individual_tag_prefix = "%n/%n-".to_string();
    let tag = git.individual_tag("/w", "/w", "pkg", "0.2.0", false);
    assert_eq!(tag, "pkg/pkg-0.2.0");
}

#[test]
fn individual_tag_treats_trailing_separator_as_same_path() {
    // camino compares paths by their components.
    let git = git_opt();
    let tag = git.individual_tag("/workspace/", "/workspace", "crate", "1.0.0", true);
    assert_eq!(tag, "crate@1.0.0");
}

#[test]
fn root_package_tag_is_kept_in_other_repository_even_with_global_tag() {
    let git = git_opt();
    let skipped = git.should_skip_individual_tag(
        "/workspace",
        "/workspace/nested",
        &RepoVersion { version: "1.0.0".to_string(), independent: false, root: true },
        true,
    );
    assert!(!skipped);
}

#[test]
fn commit_msg_lists_each_package_on_its_own_line() {
    let git = git_opt();
    let versions = vec![
        ("alpha".to_string(), "0.1.0".to_string()),
        ("beta".to_string(), "2.0.0-rc.1".to_string()),
    ];
    let msg = git.commit_msg("Release %v", &versions);
    assert_eq!(
        msg,
        "Release %v\n\nalpha@0.1.0\nbeta@2.0.0-rc.1\n\nGenerated by cargo-workspaces"
    );
}

#[test]
fn commit_msg_lists_names_ascending_as_given_by_a_map() {
    let git = git_opt();
    let mut map = std::collections::BTreeMap::new();
    map.insert("b".to_string(), Version::parse("2.0.0").unwrap().to_string());
    map.insert("a".to_string(), Version::parse("1.0.0").unwrap().to_string());
    let versions: Vec<(String, String)> = map.into_iter().collect();
    assert!(cargo_workspaces::git::pairs_in_order(&versions));
    let msg = git.commit_msg("Release %v", &versions);
    assert_eq!(msg, "Release %v\n\na@1.0.0\nb@2.0.0\n\nGenerated by cargo-workspaces");
}

#[test]
fn pairs_out_of_order_are_detected() {
    let versions = vec![
        ("b".to_string(), "2.0.0".to_string()),
        ("a".to_string(), "1.0.0".to_string()),
    ];
    assert!(!cargo_workspaces::git::pairs_in_order(&versions));
    let twice = vec![("a".to_string(), "1".to_string()), ("a".to_string(), "2".to_string())];
    assert!(!cargo_workspaces::git::pairs_in_order(&twice));
}

#[test]
fn text_less_orders_like_str() {
    for (a, b) in [("a", "b"), ("a", "ab"), ("", "a"), ("Z", "a"), ("é", "z"), ("same", "same")] {
        assert_eq!(cargo_workspaces::git::text_less(a, b), a < b, "{} < {}", a, b);
        assert_eq!(cargo_workspaces::git::text_less(b, a), b < a, "{} < {}", b, a);
    }
}

#[test]
fn commit_msg_with_external_sections() {
    let git = git_opt();
    let local = vec![("m".to_string(), "0.1.1".to_string())];
    let external = vec![("n".to_string(), "0.2.0".to_string())];
    assert_eq!(
        git.commit_msg_with_external("Release", &local, &external),
        "Release\n\nLocal Packages:\nm@0.1.1\n\nExternal Packages:\nn@0.2.0\n\nGenerated by cargo-workspaces"
    );
    assert_eq!(
        git.commit_msg_with_external("Release", &local, &Vec::new()),
        "Release\n\nm@0.1.1\n\nGenerated by cargo-workspaces"
    );
}

#[test]
fn package_prefix_must_name_the_package() {
    assert!(cargo_workspaces::git::prefix_names_package("%n@"));
    assert!(!cargo_workspaces::git::prefix_names_package("pkg-"));
}

#[test]
fn commit_msg_without_packages() {
    let git = git_opt();
    let msg = git.commit_msg("Bump", &Vec::new());
    assert_eq!(msg, "Bump\n\n\n\nGenerated by cargo-workspaces");
}
