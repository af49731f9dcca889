use cargo_workspaces::git::{GitError, GitOpt, GitReply, Step, WorkspaceConfig};

fn git_opt() -> GitOpt {
    GitOpt {
        no_git_commit: false,
        allow_branch: None,
        amend: false,
        message: None,
        no_git_tag: false,
        no_individual_tags: false,
        no_global_tag: false,
        tag_prefix: "v".to_string(),
        individual_tag_prefix: "%n@".to_string(),
        no_git_push: false,
        git_remote: "origin".to_string(),
        root_tracking_commit: false,
    }
}

fn no_config() -> WorkspaceConfig {
    WorkspaceConfig { allow_branch: None, no_individual_tags: None }
}

fn ok(out: &str) -> GitReply {
    GitReply { success: true, stdout: out.to_string(), stderr: String::new() }
}

fn args(parts: &[&str]) -> Vec<String> {
    parts.iter().map(|p| p.to_string()).collect()
}

/// Runs the check with the given replies, returning the commands asked for
/// and the outcome.
fn run(
    opt: &GitOpt,
    config: &WorkspaceConfig,
    n_roots: usize,
    replies: &[GitReply],
) -> (Vec<(usize, Vec<String>)>, Result<Vec<String>, GitError>) {
    let roots: Vec<String> = (0..n_roots).map(|i| format!("/repo{}", i)).collect();
    let (mut check, mut step) = opt.validate(&roots, config);
    let mut commands = Vec::new();
    let mut next = 0;
    loop {
        match step {
            Step::Run(cmd) => {
                commands.push((cmd.root, cmd.args));
                step = check.step(&replies[next]);
                next += 1;
            }
            Step::Done(outcome) => return (commands, outcome),
        }
    }
}

#[test]
fn validate_checks_branch_and_remote() {
    let replies = [
        ok("12"),
        ok("master"),
        ok("abc refs/remotes/origin/master"),
        ok(""),
        ok("0"),
    ];
    let (commands, outcome) = run(&git_opt(), &no_config(), 1, &replies);
    assert_eq!(outcome, Ok(vec!["master".to_string()]));
    assert_eq!(
        commands,
        vec![
            (0, args(&["rev-list", "--count", "--all", "--max-count=1"])),
            (0, args(&["rev-parse", "--abbrev-ref", "HEAD"])),
            (0, args(&["show-ref", "--verify", "refs/remotes/origin/master"])),
            (0, args(&["remote", "update"])),
            (0, args(&["rev-list", "--left-only", "--count", "origin/master...master"])),
        ]
    );
}

#[test]
fn validate_counts_main_as_master() {
    let mut opt = git_opt();
    opt.no_git_push = true;
    let (commands, outcome) = run(&opt, &no_config(), 1, &[ok("3"), ok("main")]);
    assert_eq!(outcome, Ok(vec!["main".to_string()]));
    assert_eq!(commands.len(), 2);
}

#[test]
fn validate_goes_through_every_root_without_push() {
    let mut opt = git_opt();
    opt.no_git_push = true;
    opt.allow_branch = Some("*".to_string());
    let replies = [ok("1"), ok("dev"), ok("4"), ok("feature/x")];
    let (commands, outcome) = run(&opt, &no_config(), 2, &replies);
    assert_eq!(outcome, Ok(vec!["dev".to_string(), "feature/x".to_string()]));
    let roots: Vec<usize> = commands.iter().map(|c| c.0).collect();
    assert_eq!(roots, vec![0, 0, 1, 1]);
}

#[test]
fn validate_uses_workspace_pattern() {
    let mut opt = git_opt();
    opt.no_git_push = true;
    let config = WorkspaceConfig { allow_branch: Some("release-*".to_string()), no_individual_tags: None };
    let (_, outcome) = run(&opt, &config, 1, &[ok("1"), ok("release-1")]);
    assert_eq!(outcome, Ok(vec!["release-1".to_string()]));
    let (_, outcome) = run(&opt, &config, 1, &[ok("1"), ok("master")]);
    assert_eq!(
        outcome,
        Err(GitError::BranchNotAllowed {
            branch: "master".to_string(),
            pattern: "release-*".to_string()
        })
    );
}

#[test]
fn validate_skipped_without_commits() {
    let mut opt = git_opt();
    opt.no_git_commit = true;
    let (commands, outcome) = run(&opt, &no_config(), 3, &[]);
    assert!(commands.is_empty());
    assert_eq!(outcome, Ok(Vec::new()));
}

#[test]
fn validate_refuses_directory_outside_repository() {
    let reply = GitReply {
        success: false,
        stdout: String::new(),
        stderr: "fatal: not a git repository".to_string(),
    };
    let (_, outcome) = run(&git_opt(), &no_config(), 1, &[reply]);
    assert_eq!(outcome, Err(GitError::NotGit));
}

#[test]
fn validate_refuses_repository_without_commits() {
    let (_, outcome) = run(&git_opt(), &no_config(), 1, &[ok("0")]);
    assert_eq!(outcome, Err(GitError::NoCommits));
}

#[test]
fn validate_refuses_detached_head() {
    let (_, outcome) = run(&git_opt(), &no_config(), 1, &[ok("1"), ok("HEAD")]);
    assert_eq!(outcome, Err(GitError::NotBranch));
}

#[test]
fn validate_refuses_branch_outside_pattern() {
    let (_, outcome) = run(&git_opt(), &no_config(), 1, &[ok("1"), ok("feature")]);
    assert_eq!(
        outcome,
        Err(GitError::BranchNotAllowed {
            branch: "feature".to_string(),
            pattern: "master".to_string()
        })
    );
}

#[test]
fn validate_refuses_pattern_that_does_not_compile() {
    let mut opt = git_opt();
    opt.allow_branch = Some("[".to_string());
    let (_, outcome) = run(&opt, &no_config(), 1, &[ok("1"), ok("master")]);
    assert_eq!(outcome, Err(GitError::InvalidGlob { pattern: "[".to_string() }));
}

#[test]
fn validate_refuses_branch_missing_on_remote() {
    let (_, outcome) = run(&git_opt(), &no_config(), 1, &[ok("1"), ok("master"), ok("")]);
    assert_eq!(
        outcome,
        Err(GitError::NoRemote { remote: "origin".to_string(), branch: "master".to_string() })
    );
}

#[test]
fn validate_refuses_branch_behind_remote() {
    let replies = [ok("1"), ok("master"), ok("x"), ok(""), ok("2")];
    let (_, outcome) = run(&git_opt(), &no_config(), 1, &replies);
    assert_eq!(
        outcome,
        Err(GitError::BehindRemote {
            branch: "master".to_string(),
            upstream: "origin/master".to_string()
        })
    );
}

#[test]
fn validate_refuses_deeply_nested_pattern_without_panicking() {
    let mut opt = git_opt();
    let pattern = format!("{}a{}", "{".repeat(300), "}".repeat(300));
    opt.allow_branch = Some(pattern.clone());
    let (_, outcome) = run(&opt, &no_config(), 1, &[ok("1"), ok("master")]);
    assert_eq!(outcome, Err(GitError::InvalidGlob { pattern }));
}

#[test]
fn validate_reports_first_failing_root_after_passing_ones() {
    let mut opt = git_opt();
    opt.no_git_push = true;
    let replies = [ok("1"), ok("master"), ok("2"), ok("HEAD"), ok("3"), ok("master")];
    let (commands, outcome) = run(&opt, &no_config(), 3, &replies);
    assert_eq!(outcome, Err(GitError::NotBranch));
    let roots: Vec<usize> = commands.iter().map(|c| c.0).collect();
    assert_eq!(roots, vec![0, 0, 1, 1]);
}
