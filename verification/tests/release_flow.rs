use cargo_workspaces::git::{GitError, GitOpt, GitReply, RepoVersion, Step, WorkspaceConfig};

fn git_opt() -> GitOpt {
    GitOpt {
        no_git_commit: false,
        allow_branch: None,
        amend: false,
        message: None,
        no_git_tag: false,
        no_individual_tags: false,
        no_global_tag: false,
        tag_prefix: "v".to_string(),
        individual_tag_prefix: "%n@".to_string(),
        no_git_push: false,
        git_remote: "origin".to_string(),
        root_tracking_commit: false,
    }
}

fn no_config() -> WorkspaceConfig {
    WorkspaceConfig { allow_branch: None, no_individual_tags: None }
}

fn ok(out: &str) -> GitReply {
    GitReply { success: true, stdout: out.to_string(), stderr: String::new() }
}

fn failed(out: &str, err: &str) -> GitReply {
    GitReply { success: false, stdout: out.to_string(), stderr: err.to_string() }
}

fn args(parts: &[&str]) -> Vec<String> {
    parts.iter().map(|p| p.to_string()).collect()
}

fn package(name: &str, version: &str, independent: bool, root: bool) -> (String, RepoVersion) {
    (name.to_string(), RepoVersion { version: version.to_string(), independent, root })
}

struct Plan {
    roots: Vec<String>,
    workspace_root: String,
    new_version: Option<String>,
    new_versions: Vec<(String, Vec<(String, RepoVersion)>)>,
    branches: Vec<String>,
}

fn workspace_plan() -> Plan {
    Plan {
        roots: vec!["/ws".to_string()],
        workspace_root: "/ws".to_string(),
        new_version: Some("1.2.3".to_string()),
        new_versions: vec![(
            "/ws".to_string(),
            vec![package("a", "1.2.3", false, true), package("b", "1.2.3", false, false)],
        )],
        branches: vec!["main".to_string()],
    }
}

/// Runs the release; each command gets the next scripted reply, or a
/// successful empty one when the script has run out.
fn run(
    opt: &GitOpt,
    config: &WorkspaceConfig,
    plan: &Plan,
    replies: &[GitReply],
) -> (Vec<(usize, Vec<String>)>, Result<(), GitError>) {
    let (mut release, mut step) = opt.commit(
        &plan.roots,
        &plan.workspace_root,
        &plan.new_version,
        &plan.new_versions,
        &plan.branches,
        config,
    );
    let mut commands = Vec::new();
    let mut next = 0;
    loop {
        match step {
            Step::Run(cmd) => {
                commands.push((cmd.root, cmd.args));
                let reply = replies.get(next).cloned().unwrap_or_else(|| ok("changed"));
                step = release.step(&reply);
                next += 1;
            }
            Step::Done(outcome) => return (commands, outcome),
        }
    }
}

#[test]
fn release_commits_tags_and_pushes() {
    let (commands, outcome) = run(&git_opt(), &no_config(), &workspace_plan(), &[]);
    assert_eq!(outcome, Ok(()));
    assert_eq!(
        commands,
        vec![
            (0, args(&["add", "-u"])),
            (0, args(&["diff", "--cached", "--name-only"])),
            (
                0,
                args(&[
                    "commit",
                    "-m",
                    "Release 1.2.3\n\na@1.2.3\nb@1.2.3\n\nGenerated by cargo-workspaces"
                ])
            ),
            (0, args(&["tag", "v1.2.3", "-m", "v1.2.3"])),
            (0, args(&["tag", "b@1.2.3", "-m", "b@1.2.3"])),
            (0, args(&["push", "--follow-tags", "origin", "main"])),
        ]
    );
}

#[test]
fn release_without_global_tag_tags_root_package() {
    let mut opt = git_opt();
    opt.no_global_tag = true;
    let (commands, outcome) = run(&opt, &no_config(), &workspace_plan(), &[]);
    assert_eq!(outcome, Ok(()));
    let tags: Vec<String> =
        commands.iter().filter(|c| c.1[0] == "tag").map(|c| c.1[1].clone()).collect();
    assert_eq!(tags, vec!["a@1.2.3".to_string(), "b@1.2.3".to_string()]);
}

#[test]
fn release_in_nested_repository() {
    let plan = Plan {
        roots: vec!["/ws".to_string(), "/ws/nested".to_string()],
        workspace_root: "/ws".to_string(),
        new_version: None,
        new_versions: vec![
            ("/ws".to_string(), vec![package("m", "0.1.1", true, false)]),
            ("/ws/nested/".to_string(), vec![package("n", "0.2.0", true, false)]),
        ],
        branches: vec!["master".to_string(), "trunk".to_string()],
    };
    let (commands, outcome) = run(&git_opt(), &no_config(), &plan, &[]);
    assert_eq!(outcome, Ok(()));
    assert_eq!(
        commands,
        vec![
            (1, args(&["add", "-u"])),
            (1, args(&["diff", "--cached", "--name-only"])),
            (1, args(&["commit", "-m", "Release v0.2.0\n\nn@0.2.0\n\nGenerated by cargo-workspaces"])),
            (1, args(&["tag", "v0.2.0", "-m", "v0.2.0"])),
            (1, args(&["push", "--follow-tags", "origin", "trunk"])),
            (0, args(&["add", "-u"])),
            (0, args(&["diff", "--cached", "--name-only"])),
            (
                0,
                args(&[
                    "commit",
                    "-m",
                    "Release m@0.1.1\n\nLocal Packages:\nm@0.1.1\n\nExternal Packages:\nn@0.2.0\n\nGenerated by cargo-workspaces"
                ])
            ),
            (0, args(&["tag", "m@0.1.1", "-m", "m@0.1.1"])),
            (0, args(&["push", "--follow-tags", "origin", "master"])),
        ]
    );
}

fn no_push() -> GitOpt {
    let mut opt = git_opt();
    opt.no_git_push = true;
    opt
}

fn tags_of(commands: &[(usize, Vec<String>)], root: usize) -> Vec<String> {
    let mut tags: Vec<String> = commands
        .iter()
        .filter(|c| c.0 == root && c.1[0] == "tag")
        .map(|c| c.1[1].clone())
        .collect();
    tags.sort();
    tags
}

fn subject_of(commands: &[(usize, Vec<String>)], root: usize) -> Option<String> {
    commands
        .iter()
        .find(|c| c.0 == root && c.1[0] == "commit")
        .map(|c| c.1[2].lines().next().unwrap_or("").to_string())
}

fn message_of(commands: &[(usize, Vec<String>)], root: usize) -> Option<String> {
    commands.iter().find(|c| c.0 == root && c.1[0] == "commit").map(|c| c.1[2].clone())
}

/// A workspace whose root package and a member live in the workspace's
/// repository, and one package lives in the nested repository.
fn nested_plan(nested_independent: bool, local: bool) -> Plan {
    let mut new_versions = Vec::new();
    if local {
        new_versions.push((
            "/ws".to_string(),
            vec![package("ws-member", "0.1.1", false, false), package("ws-root", "0.1.1", false, true)],
        ));
    }
    new_versions.push((
        "/ws/nested".to_string(),
        vec![package("ws-nested", "0.1.1", nested_independent, false)],
    ));
    Plan {
        roots: vec!["/ws".to_string(), "/ws/nested".to_string()],
        workspace_root: "/ws".to_string(),
        new_version: Some("0.1.1".to_string()),
        new_versions,
        branches: vec!["master".to_string(), "master".to_string()],
    }
}

#[test]
fn release_nested_repository_gets_repo_tag_and_subject() {
    let (commands, outcome) = run(&no_push(), &no_config(), &nested_plan(true, true), &[]);
    assert_eq!(outcome, Ok(()));
    assert_eq!(commands[0].0, 1);
    assert_eq!(tags_of(&commands, 0), vec!["v0.1.1".to_string(), "ws-member@0.1.1".to_string()]);
    assert_eq!(tags_of(&commands, 1), vec!["v0.1.1".to_string()]);
    assert_eq!(subject_of(&commands, 1), Some("Release v0.1.1".to_string()));
    let root_message = message_of(&commands, 0).unwrap();
    assert!(root_message.contains("External Packages:\nws-nested@0.1.1"));
    assert!(root_message.contains("Local Packages:\nws-member@0.1.1"));
}

#[test]
fn release_non_independent_nested_repository_uses_repo_tag_label() {
    let (commands, outcome) = run(&no_push(), &no_config(), &nested_plan(false, true), &[]);
    assert_eq!(outcome, Ok(()));
    assert_eq!(tags_of(&commands, 0), vec!["v0.1.1".to_string(), "ws-member@0.1.1".to_string()]);
    assert_eq!(tags_of(&commands, 1), vec!["v0.1.1".to_string()]);
    assert_eq!(subject_of(&commands, 1), Some("Release v0.1.1".to_string()));
}

#[test]
fn release_leaves_workspace_alone_when_only_nested_repository_releases() {
    let (commands, outcome) = run(&no_push(), &no_config(), &nested_plan(false, false), &[]);
    assert_eq!(outcome, Ok(()));
    assert!(commands.iter().all(|c| c.0 == 1));
    assert_eq!(tags_of(&commands, 0), Vec::<String>::new());
    assert_eq!(subject_of(&commands, 1), Some("Release v0.1.1".to_string()));
}

#[test]
fn release_tracking_commit_records_external_releases() {
    let mut opt = no_push();
    opt.root_tracking_commit = true;
    let (commands, outcome) = run(&opt, &no_config(), &nested_plan(false, false), &[]);
    assert_eq!(outcome, Ok(()));
    let root: Vec<&(usize, Vec<String>)> = commands.iter().filter(|c| c.0 == 0).collect();
    assert_eq!(root.len(), 3);
    assert_eq!(
        root[2].1,
        args(&[
            "commit",
            "-m",
            "Track external releases\n\nExternal Packages:\nws-nested@0.1.1\n\nGenerated by cargo-workspaces"
        ])
    );
    assert_eq!(subject_of(&commands, 0), Some("Track external releases".to_string()));
    assert_eq!(tags_of(&commands, 0), Vec::<String>::new());
}

#[test]
fn release_labels_several_packages_as_independent() {
    let mut plan = workspace_plan();
    plan.new_version = None;
    let mut opt = git_opt();
    opt.message = Some("Publish %v".to_string());
    opt.no_git_tag = true;
    opt.no_git_push = true;
    let (commands, outcome) = run(&opt, &no_config(), &plan, &[]);
    assert_eq!(outcome, Ok(()));
    assert_eq!(commands.len(), 3);
    assert_eq!(
        commands[2].1,
        args(&[
            "commit",
            "-m",
            "Publish independent packages\n\na@1.2.3\nb@1.2.3\n\nGenerated by cargo-workspaces"
        ])
    );
}

#[test]
fn release_skips_repository_without_staged_changes() {
    let mut plan = workspace_plan();
    plan.roots.insert(0, "/other".to_string());
    plan.branches.insert(0, "dev".to_string());
    plan.new_versions.push(("/other".to_string(), vec![package("c", "3.0.0", true, false)]));
    let replies = [ok(""), ok("")];
    let (commands, outcome) = run(&git_opt(), &no_config(), &plan, &replies);
    assert_eq!(outcome, Ok(()));
    assert_eq!(commands[0], (0, args(&["add", "-u"])));
    assert_eq!(commands[1], (0, args(&["diff", "--cached", "--name-only"])));
    assert_eq!(commands[2], (1, args(&["add", "-u"])));
    assert_eq!(commands.len(), 8);
}

#[test]
fn release_commits_other_repository_without_packages() {
    let mut plan = workspace_plan();
    plan.roots.push("/other".to_string());
    plan.branches.push("dev".to_string());
    let (commands, outcome) = run(&git_opt(), &no_config(), &plan, &[]);
    assert_eq!(outcome, Ok(()));
    assert_eq!(
        commands[..4].to_vec(),
        vec![
            (1, args(&["add", "-u"])),
            (1, args(&["diff", "--cached", "--name-only"])),
            (1, args(&["commit", "-m", "Release 1.2.3\n\n\n\nGenerated by cargo-workspaces"])),
            (1, args(&["push", "--follow-tags", "origin", "dev"])),
        ]
    );
    assert!(commands[4..].iter().all(|c| c.0 == 0));
    assert_eq!(commands.len(), 10);
}

/// A workspace whose nested repository releases the given packages.
fn nested_only_plan(packages: Vec<(String, RepoVersion)>) -> Plan {
    Plan {
        roots: vec!["/ws".to_string(), "/ws/nested".to_string()],
        workspace_root: "/ws".to_string(),
        new_version: Some("0.1.1".to_string()),
        new_versions: vec![("/ws/nested".to_string(), packages)],
        branches: vec!["master".to_string(), "master".to_string()],
    }
}

#[test]
fn release_tags_each_independent_package_of_other_repository() {
    let plan = nested_only_plan(vec![
        package("p", "0.1.1", true, false),
        package("q", "0.1.1", true, false),
    ]);
    let (commands, outcome) = run(&no_push(), &no_config(), &plan, &[]);
    assert_eq!(outcome, Ok(()));
    let tags: Vec<Vec<String>> =
        commands.iter().filter(|c| c.0 == 1 && c.1[0] == "tag").map(|c| c.1.clone()).collect();
    assert_eq!(tags, vec![args(&["tag", "v0.1.1", "-m", "v0.1.1"]), args(&["tag", "v0.1.1", "-m", "v0.1.1"])]);
    assert_eq!(subject_of(&commands, 1), Some("Release v0.1.1".to_string()));
}

#[test]
fn release_tags_dependent_packages_of_other_repository_once() {
    let plan = nested_only_plan(vec![
        package("p", "0.1.1", false, false),
        package("q", "0.1.1", false, false),
    ]);
    let (commands, outcome) = run(&no_push(), &no_config(), &plan, &[]);
    assert_eq!(outcome, Ok(()));
    assert_eq!(tags_of(&commands, 1), vec!["v0.1.1".to_string()]);
}

#[test]
fn release_tags_mixed_packages_of_other_repository_each() {
    let plan = nested_only_plan(vec![
        package("p", "0.1.1", false, false),
        package("q", "0.1.1", true, false),
    ]);
    let (commands, outcome) = run(&no_push(), &no_config(), &plan, &[]);
    assert_eq!(outcome, Ok(()));
    assert_eq!(tags_of(&commands, 1), vec!["p@0.1.1".to_string(), "v0.1.1".to_string()]);
}

#[test]
fn release_without_package_tags_leaves_other_repository_untagged() {
    let plan = nested_only_plan(vec![package("p", "0.1.1", false, false)]);
    let mut opt = no_push();
    opt.no_individual_tags = true;
    let (commands, outcome) = run(&opt, &no_config(), &plan, &[]);
    assert_eq!(outcome, Ok(()));
    assert_eq!(tags_of(&commands, 1), Vec::<String>::new());
    assert_eq!(subject_of(&commands, 1), Some("Release v0.1.1".to_string()));
}

#[test]
fn release_labels_other_repository_without_shared_version_by_workspace_version() {
    let plan = nested_only_plan(vec![
        package("p", "0.1.0", true, false),
        package("q", "0.2.0", true, false),
    ]);
    let (commands, outcome) = run(&no_push(), &no_config(), &plan, &[]);
    assert_eq!(outcome, Ok(()));
    assert_eq!(subject_of(&commands, 1), Some("Release 0.1.1".to_string()));
    assert_eq!(tags_of(&commands, 1), vec!["v0.1.0".to_string(), "v0.2.0".to_string()]);
}

#[test]
fn release_without_push_needs_no_branches() {
    let mut plan = workspace_plan();
    plan.branches.clear();
    let (commands, outcome) = run(&no_push(), &no_config(), &plan, &[]);
    assert_eq!(outcome, Ok(()));
    assert_eq!(commands.len(), 5);
    assert!(commands.iter().all(|c| c.1[0] != "push"));
}

#[test]
fn release_checked_refuses_repeated_repository_path() {
    let mut plan = nested_only_plan(vec![package("p", "0.1.1", true, false)]);
    plan.new_versions.push(("/ws/nested/".to_string(), vec![package("q", "0.1.1", true, false)]));
    let opt = git_opt();
    let config = no_config();
    assert!(opt
        .commit_checked(
            &plan.roots,
            &plan.workspace_root,
            &plan.new_version,
            &plan.new_versions,
            &plan.branches,
            &config,
        )
        .is_none());
    plan.new_versions.pop();
    assert!(opt
        .commit_checked(
            &plan.roots,
            &plan.workspace_root,
            &plan.new_version,
            &plan.new_versions,
            &plan.branches,
            &config,
        )
        .is_some());
}

#[test]
fn release_amends() {
    let mut opt = git_opt();
    opt.amend = true;
    opt.no_git_push = true;
    let config = WorkspaceConfig { allow_branch: None, no_individual_tags: Some(true) };
    let (commands, outcome) = run(&opt, &config, &workspace_plan(), &[]);
    assert_eq!(outcome, Ok(()));
    assert_eq!(commands[2].1, args(&["commit", "--amend", "--no-edit"]));
    assert_eq!(commands[3].1, args(&["tag", "v1.2.3", "-m", "v1.2.3"]));
    assert_eq!(commands.len(), 4);
}

#[test]
fn release_without_commits_does_nothing() {
    let mut opt = git_opt();
    opt.no_git_commit = true;
    let mut plan = workspace_plan();
    plan.branches.clear();
    let (commands, outcome) = run(&opt, &no_config(), &plan, &[]);
    assert!(commands.is_empty());
    assert_eq!(outcome, Ok(()));
}

#[test]
fn release_reports_failed_add() {
    let (_, outcome) = run(&git_opt(), &no_config(), &workspace_plan(), &[failed("o", "e")]);
    assert_eq!(outcome, Err(GitError::NotAdded("o".to_string(), "e".to_string())));
}

#[test]
fn release_reports_failed_diff() {
    let (_, outcome) =
        run(&git_opt(), &no_config(), &workspace_plan(), &[ok(""), failed("", "bad")]);
    assert_eq!(outcome, Err(GitError::Bail));
}

#[test]
fn release_reports_failed_commit() {
    let replies = [ok(""), ok("x"), failed("", "nothing")];
    let (_, outcome) = run(&git_opt(), &no_config(), &workspace_plan(), &replies);
    assert_eq!(outcome, Err(GitError::NotCommitted(String::new(), "nothing".to_string())));
}

#[test]
fn release_reports_failed_tag() {
    let replies = [ok(""), ok("x"), ok(""), ok(""), failed("", "exists")];
    let (_, outcome) = run(&git_opt(), &no_config(), &workspace_plan(), &replies);
    assert_eq!(
        outcome,
        Err(GitError::NotTagged("b@1.2.3".to_string(), String::new(), "exists".to_string()))
    );
    let replies = [ok(""), ok("x"), ok(""), failed("", "exists")];
    let (_, outcome) = run(&git_opt(), &no_config(), &workspace_plan(), &replies);
    assert_eq!(
        outcome,
        Err(GitError::NotTagged("v1.2.3".to_string(), String::new(), "exists".to_string()))
    );
}

#[test]
fn release_reports_failed_push() {
    let replies = [ok(""), ok("x"), ok(""), ok(""), ok(""), failed("", "rejected")];
    let (_, outcome) = run(&git_opt(), &no_config(), &workspace_plan(), &replies);
    assert_eq!(outcome, Err(GitError::NotPushed(String::new(), "rejected".to_string())));
}
