//! The options and values that release bookkeeping works on, the git
//! commands it asks for and the replies it reads, and the tag and message
//! texts it writes.

use vstd::prelude::*;
use vstd::utf8::{decode_utf8, valid_utf8};

use crate::outside::{paths_equal, same_path, string_from_utf8};
use crate::text::{joined, replace_all, replaced, trim, trimmed};

verus! {

/// Why a release step was refused.
#[derive(Clone, Debug, PartialEq, Eq)]
pub enum GitError {
    /// The directory is not inside a git repository.
    NotGit,
    /// The repository has no commit yet.
    NoCommits,
    /// HEAD is detached: no branch is checked out.
    NotBranch,
    /// The allowed-branch pattern is not a glob that can be compiled.
    InvalidGlob { pattern: String },
    /// The checked-out branch does not match the allowed-branch pattern.
    BranchNotAllowed { branch: String, pattern: String },
    /// The remote has no branch of that name.
    NoRemote { remote: String, branch: String },
    /// The local branch lacks commits that its upstream has.
    BehindRemote { branch: String, upstream: String },
    /// `git add` failed, with its output and error output.
    NotAdded(String, String),
    /// Listing the staged changes failed.
    Bail,
    /// `git commit` failed, with its output and error output.
    NotCommitted(String, String),
    /// `git tag` failed for the tag, with its output and error output.
    NotTagged(String, String, String),
    /// `git push` failed, with its output and error output.
    NotPushed(String, String),
    /// git printed something that is not UTF-8.
    NotUtf8,
}

/// An [`GitError`] with its texts taken as character sequences.
pub enum GitErrorView {
    NotGit,
    NoCommits,
    NotBranch,
    InvalidGlob { pattern: Seq<char> },
    BranchNotAllowed { branch: Seq<char>, pattern: Seq<char> },
    NoRemote { remote: Seq<char>, branch: Seq<char> },
    BehindRemote { branch: Seq<char>, upstream: Seq<char> },
    NotAdded(Seq<char>, Seq<char>),
    Bail,
    NotCommitted(Seq<char>, Seq<char>),
    NotTagged(Seq<char>, Seq<char>, Seq<char>),
    NotPushed(Seq<char>, Seq<char>),
    NotUtf8,
}

impl View for GitError {
    type V = GitErrorView;

    open spec fn view(&self) -> GitErrorView {
        match self {
            GitError::NotGit => GitErrorView::NotGit,
            GitError::NoCommits => GitErrorView::NoCommits,
            GitError::NotBranch => GitErrorView::NotBranch,
            GitError::InvalidGlob { pattern } => GitErrorView::InvalidGlob { pattern: pattern@ },
            GitError::BranchNotAllowed { branch, pattern } => GitErrorView::BranchNotAllowed {
                branch: branch@,
                pattern: pattern@,
            },
            GitError::NoRemote { remote, branch } => GitErrorView::NoRemote {
                remote: remote@,
                branch: branch@,
            },
            GitError::BehindRemote { branch, upstream } => GitErrorView::BehindRemote {
                branch: branch@,
                upstream: upstream@,
            },
            GitError::NotAdded(o, e) => GitErrorView::NotAdded(o@, e@),
            GitError::Bail => GitErrorView::Bail,
            GitError::NotCommitted(o, e) => GitErrorView::NotCommitted(o@, e@),
            GitError::NotTagged(t, o, e) => GitErrorView::NotTagged(t@, o@, e@),
            GitError::NotPushed(o, e) => GitErrorView::NotPushed(o@, e@),
            GitError::NotUtf8 => GitErrorView::NotUtf8,
        }
    }
}

/// What a finished git command reported: whether it exited successfully,
/// and its output and error output with white space trimmed at both ends.
#[derive(Clone, Debug, PartialEq, Eq)]
pub struct GitReply {
    pub success: bool,
    pub stdout: String,
    pub stderr: String,
}

/// A [`GitReply`] with its texts taken as character sequences.
pub struct ReplyView {
    pub success: bool,
    pub stdout: Seq<char>,
    pub stderr: Seq<char>,
}

impl View for GitReply {
    type V = ReplyView;

    open spec fn view(&self) -> ReplyView {
        ReplyView { success: self.success, stdout: self.stdout@, stderr: self.stderr@ }
    }
}

impl GitReply {
    /// The reply that git's raw exit status, output and error output make:
    /// both outputs decoded as UTF-8 and trimmed of white space at both ends.
    pub fn from_output(success: bool, stdout: Vec<u8>, stderr: Vec<u8>) -> (r: Result<
        GitReply,
        GitError,
    >)
        ensures
            r is Ok <==> valid_utf8(stdout@) && valid_utf8(stderr@),
            r matches Err(e) ==> e is NotUtf8,
            r matches Ok(reply) ==> reply@ == (ReplyView {
                success,
                stdout: trimmed(decode_utf8(stdout@)),
                stderr: trimmed(decode_utf8(stderr@)),
            }),
    {
        let out = match string_from_utf8(stdout) {
            Some(s) => s,
            None => return Err(GitError::NotUtf8),
        };
        let err = match string_from_utf8(stderr) {
            Some(s) => s,
            None => return Err(GitError::NotUtf8),
        };
        Ok(GitReply { success, stdout: trim(out.as_str()), stderr: trim(err.as_str()) })
    }
}

/// A git command to run: in the repository `roots[root]` of the roots the
/// caller handed over, with the arguments `args` after `git`.
#[derive(Clone, Debug, PartialEq, Eq)]
pub struct GitCommand {
    pub root: usize,
    pub args: Vec<String>,
}

/// What to do next: run a git command and report its reply, or stop with
/// the outcome.
#[derive(Debug, PartialEq, Eq)]
pub enum Step<T> {
    Run(GitCommand),
    Done(Result<T, GitError>),
}

/// A [`Step`] with its texts taken as character sequences.
pub enum StepView<V> {
    Run { root: nat, args: Seq<Seq<char>> },
    Done(Result<V, GitErrorView>),
}

/// An optional text taken as a character sequence.
pub open spec fn opt_text(o: Option<String>) -> Option<Seq<char>> {
    match o {
        Some(s) => Some(s@),
        None => None,
    }
}

/// The view of a git command.
pub open spec fn command_view<V>(c: GitCommand) -> StepView<V> {
    StepView::Run { root: c.root as nat, args: c.args.deep_view() }
}

/// What the release commit and tags record of a package: the text of its
/// version, whether it is versioned independently of the workspace, and
/// whether it is the package at the workspace root.
#[derive(Clone, Debug, PartialEq, Eq)]
pub struct RepoVersion {
    pub version: String,
    pub independent: bool,
    pub root: bool,
}

/// What the workspace's own configuration says about git.
#[derive(Clone, Debug, PartialEq, Eq)]
pub struct WorkspaceConfig {
    /// The allowed-branch pattern, where the workspace sets one.
    pub allow_branch: Option<String>,
    /// Whether individual package tags are switched off.
    pub no_individual_tags: Option<bool>,
}

/// The git options of a release.
#[derive(Clone, Debug, PartialEq, Eq)]
pub struct GitOpt {
    /// Do not commit version changes.
    pub no_git_commit: bool,
    /// The pattern of branches a release may be made from (default: master).
    pub allow_branch: Option<String>,
    /// Amend the existing commit instead of making a new one.
    pub amend: bool,
    /// The commit message (default: `Release %v`).
    pub message: Option<String>,
    /// Do not tag the commit.
    pub no_git_tag: bool,
    /// Do not tag each package's version.
    pub no_individual_tags: bool,
    /// Do not create a tag for the whole workspace.
    pub no_global_tag: bool,
    /// The prefix of tags (may be empty).
    pub tag_prefix: String,
    /// The prefix of a package's tag; `%n` stands for the package's name.
    pub individual_tag_prefix: String,
    /// Do not push the commit and tags.
    pub no_git_push: bool,
    /// The remote to push to.
    pub git_remote: String,
    /// Commit in the workspace's repository when only other repositories
    /// release packages, recording their releases.
    pub root_tracking_commit: bool,
}

/// The tag of package `pkg` at `version`: the plain tag prefix when the
/// package is versioned independently and lives in a repository other than
/// the workspace's, else the individual prefix with `%n` replaced by the
/// package's name.
pub open spec fn individual_tag_text(
    tag_prefix: Seq<char>,
    individual_tag_prefix: Seq<char>,
    workspace_root: Seq<char>,
    root: Seq<char>,
    pkg: Seq<char>,
    version: Seq<char>,
    independent: bool,
) -> Seq<char> {
    (if independent && !same_path(root, workspace_root) {
        tag_prefix
    } else {
        replaced(individual_tag_prefix, "%n"@, pkg)
    }) + version
}

/// Whether text `a` comes before text `b`: character by character, a
/// shorter text before any text it begins. This is the order of `str`
/// (byte order of UTF-8, which is the order of the characters' values).
pub open spec fn text_lt(a: Seq<char>, b: Seq<char>) -> bool
    decreases a.len(),
{
    if a.len() == 0 {
        b.len() > 0
    } else if b.len() == 0 {
        false
    } else if a[0] != b[0] {
        (a[0] as u32) < (b[0] as u32)
    } else {
        text_lt(a.skip(1), b.skip(1))
    }
}

/// Each name comes before the next one, as the keys of a `BTreeMap` are
/// walked: ascending, so no name occurs twice in a row.
pub open spec fn names_ascending(names: Seq<Seq<char>>) -> bool {
    forall|i: int| 0 <= i && i + 1 < names.len() ==> #[trigger] text_lt(names[i], names[i + 1])
}

/// The names of a list of pairs of name and version.
pub open spec fn pair_names(v: Seq<(Seq<char>, Seq<char>)>) -> Seq<Seq<char>> {
    v.map_values(|p: (Seq<char>, Seq<char>)| p.0)
}

/// Whether text `a` comes before text `b`.
pub fn text_less(a: &str, b: &str) -> (r: bool)
    ensures
        r == text_lt(a@, b@),
{
    let x = crate::text::chars_of(a);
    let y = crate::text::chars_of(b);
    let mut i: usize = 0;
    assert(a@.skip(0) =~= a@);
    assert(b@.skip(0) =~= b@);
    while i < x.len() && i < y.len() && x[i] == y[i]
        invariant
            x@ == a@,
            y@ == b@,
            i <= a@.len(),
            i <= b@.len(),
            text_lt(a@, b@) == text_lt(a@.skip(i as int), b@.skip(i as int)),
        decreases a@.len() - i,
    {
        assert(a@.skip(i as int).skip(1) =~= a@.skip(i + 1));
        assert(b@.skip(i as int).skip(1) =~= b@.skip(i + 1));
        i = i + 1;
    }
    if i == x.len() {
        return i < y.len();
    }
    if i == y.len() {
        return false;
    }
    (x[i] as u32) < (y[i] as u32)
}

/// Whether the names of the pairs are ascending.
pub fn pairs_in_order(v: &Vec<(String, String)>) -> (r: bool)
    ensures
        r == names_ascending(pair_names(pairs_view(v@))),
{
    let ghost names = pair_names(pairs_view(v@));
    if v.len() == 0 {
        return true;
    }
    let last = v.len() - 1;
    let mut i: usize = 0;
    while i < last
        invariant
            last + 1 == v@.len(),
            names == pair_names(pairs_view(v@)),
            names.len() == v@.len(),
            forall|j: int| 0 <= j < i && j + 1 < names.len() ==> #[trigger] text_lt(names[j], names[j + 1]),
        decreases v.len() - i,
    {
        if !text_less(v[i].0.as_str(), v[i + 1].0.as_str()) {
            assert(names[i as int] == v@[i as int].0@);
            assert(names[i + 1] == v@[i + 1].0@);
            assert(!text_lt(names[i as int], names[i as int + 1]));
            return false;
        }
        i = i + 1;
    }
    true
}

/// Whether a package prefix names the package: it holds `%n`.
pub fn prefix_names_package(prefix: &str) -> (r: bool)
    ensures
        r == crate::text::contains_seq(prefix@, "%n"@),
{
    crate::text::contains_text(prefix, "%n")
}

/// The line that names a package at its version: `name@version`.
pub open spec fn release_line(name: Seq<char>, version: Seq<char>) -> Seq<char> {
    name + "@"@ + version
}

/// The lines of a list of packages and versions.
pub open spec fn release_lines(versions: Seq<(Seq<char>, Seq<char>)>) -> Seq<Seq<char>> {
    versions.map_values(|p: (Seq<char>, Seq<char>)| release_line(p.0, p.1))
}

/// A list of packages and versions with its texts taken as sequences.
pub open spec fn pairs_view(v: Seq<(String, String)>) -> Seq<(Seq<char>, Seq<char>)> {
    v.map_values(|p: (String, String)| (p.0@, p.1@))
}

/// The commit message built from `msg`: the message, a blank line, one
/// `name@version` line per package, a blank line and a closing note.
pub open spec fn commit_msg_text(msg: Seq<char>, versions: Seq<(Seq<char>, Seq<char>)>) -> Seq<
    char,
> {
    msg + "\n\n"@ + joined(release_lines(versions), "\n"@) + "\n\nGenerated by cargo-workspaces"@
}

/// The commit message of a repository that records other repositories'
/// releases too: the message, then a `Local Packages:` section with the
/// repository's own `name@version` lines when it has any, an
/// `External Packages:` section with the others', and a closing note. With
/// no others' releases it is [`commit_msg_text`].
pub open spec fn sectioned_msg_text(
    msg: Seq<char>,
    local: Seq<(Seq<char>, Seq<char>)>,
    external: Seq<(Seq<char>, Seq<char>)>,
) -> Seq<char> {
    if external.len() == 0 {
        commit_msg_text(msg, local)
    } else {
        msg + (if local.len() == 0 {
            Seq::empty()
        } else {
            "\n\nLocal Packages:\n"@ + joined(release_lines(local), "\n"@)
        }) + "\n\nExternal Packages:\n"@ + joined(release_lines(external), "\n"@)
            + "\n\nGenerated by cargo-workspaces"@
    }
}

/// The lines `name@version` of the pairs, one per line.
pub fn join_release_lines(versions: &Vec<(String, String)>) -> (r: String)
    ensures
        r@ == joined(release_lines(pairs_view(versions@)), "\n"@),
{
    let ghost lines = release_lines(pairs_view(versions@));
    let mut body = String::new();
    let mut k: usize = 0;
    while k < versions.len()
        invariant
            lines == release_lines(pairs_view(versions@)),
            lines.len() == versions@.len(),
            k <= versions@.len(),
            body@ == joined(lines.take(k as int), "\n"@),
        decreases versions.len() - k,
    {
        let ghost before = body@;
        if k > 0 {
            body.append("\n");
        }
        body.append(versions[k].0.as_str());
        body.append("@");
        body.append(versions[k].1.as_str());
        assert(lines.take(k + 1).drop_last() =~= lines.take(k as int));
        assert(lines[k as int] == release_line(versions@[k as int].0@, versions@[k as int].1@));
        if k == 0 {
            assert(lines.take(1) =~= seq![lines[0]]);
            assert(before =~= Seq::<char>::empty());
        }
        assert(body@ =~= joined(lines.take(k + 1), "\n"@));
        k = k + 1;
    }
    assert(lines.take(k as int) =~= lines);
    body
}

/// Whether the tag of a package is left out: it is the workspace root's
/// package, in the workspace's own repository, and a workspace tag is made.
pub open spec fn skip_individual_tag(
    workspace_root: Seq<char>,
    root: Seq<char>,
    is_root_package: bool,
    has_global_tag: bool,
) -> bool {
    has_global_tag && same_path(root, workspace_root) && is_root_package
}

/// The root of the repository, as `git rev-parse --show-toplevel` reported
/// it: refused when git says the directory is not in a repository.
pub open spec fn repository_root_outcome(reply: ReplyView) -> Result<Seq<char>, GitErrorView> {
    if crate::text::contains_seq(reply.stderr, "not a git repository"@) {
        Err(GitErrorView::NotGit)
    } else {
        Ok(reply.stdout)
    }
}

/// Reads the root of the repository from the reply to
/// `git rev-parse --show-toplevel`.
pub fn git_repository_root(reply: &GitReply) -> (r: Result<String, GitError>)
    ensures
        match r {
            Ok(root) => repository_root_outcome(reply@) == Ok::<Seq<char>, GitErrorView>(root@),
            Err(e) => repository_root_outcome(reply@) == Err::<Seq<char>, GitErrorView>(e@),
        },
{
    if crate::text::contains_text(reply.stderr.as_str(), "not a git repository") {
        return Err(GitError::NotGit);
    }
    Ok(reply.stdout.clone())
}

impl GitOpt {
    /// The tag of package `pkg_name` at `version`, released from the
    /// repository at `root` of the workspace at `workspace_root`.
    pub fn individual_tag(
        &self,
        workspace_root: &str,
        root: &str,
        pkg_name: &str,
        version: &str,
        independent: bool,
    ) -> (tag: String)
        ensures
            tag@ == individual_tag_text(
                self.tag_prefix@,
                self.individual_tag_prefix@,
                workspace_root@,
                root@,
                pkg_name@,
                version@,
                independent,
            ),
            root@ == workspace_root@ ==> tag@ == replaced(
                self.individual_tag_prefix@,
                "%n"@,
                pkg_name@,
            ) + version@,
    {
        let mut tag = if independent && !paths_equal(root, workspace_root) {
            self.tag_prefix.clone()
        } else {
            replace_all(self.individual_tag_prefix.as_str(), "%n", pkg_name)
        };
        tag.append(version);
        tag
    }

    /// Whether the tag of a package is left out (see [`skip_individual_tag`]).
    pub fn should_skip_individual_tag(
        &self,
        workspace_root: &str,
        root: &str,
        version: &RepoVersion,
        has_global_tag: bool,
    ) -> (r: bool)
        ensures
            r == skip_individual_tag(workspace_root@, root@, version.root, has_global_tag),
            root@ == workspace_root@ ==> r == (has_global_tag && version.root),
    {
        has_global_tag && paths_equal(root, workspace_root) && version.root
    }

    /// The commit message built from `msg` and the packages released, given
    /// as pairs of name and version in ascending order of name.
    pub fn commit_msg(&self, msg: &str, new_versions: &Vec<(String, String)>) -> (r: String)
        requires
            names_ascending(pair_names(pairs_view(new_versions@))),
        ensures
            r@ == commit_msg_text(msg@, pairs_view(new_versions@)),
    {
        let body = join_release_lines(new_versions);
        let mut r = msg.to_owned();
        r.append("\n\n");
        r.append(body.as_str());
        r.append("\n\nGenerated by cargo-workspaces");
        r
    }

    /// The commit message built from `msg`, the repository's own packages
    /// (ascending by name) and the packages other repositories release.
    pub fn commit_msg_with_external(
        &self,
        msg: &str,
        local: &Vec<(String, String)>,
        external: &Vec<(String, String)>,
    ) -> (r: String)
        requires
            names_ascending(pair_names(pairs_view(local@))),
        ensures
            r@ == sectioned_msg_text(msg@, pairs_view(local@), pairs_view(external@)),
    {
        if external.len() == 0 {
            return self.commit_msg(msg, local);
        }
        let mut r = msg.to_owned();
        if local.len() > 0 {
            r.append("\n\nLocal Packages:\n");
            let body = join_release_lines(local);
            r.append(body.as_str());
        }
        r.append("\n\nExternal Packages:\n");
        let others = join_release_lines(external);
        r.append(others.as_str());
        r.append("\n\nGenerated by cargo-workspaces");
        r
    }
}

} // verus!
