//! Recording a release in git. The repositories other than the workspace's
//! come first, so that the workspace's commit records their new commits.
//! In each repository: stage the changes, commit them when there are any,
//! tag the repository's version and each package's version, and push.
//! The workspace's repository takes part when it releases packages; when
//! only other repositories release, it gets a tracking commit on request and
//! is otherwise left alone.
//!
//! The release is a state machine: [`GitOpt::commit`] starts it and asks for
//! the first git command, and [`Release::step`] reads each reply and asks for
//! the next command, until every repository is done or a command failed.

use vstd::prelude::*;

use crate::args::{push_arg, strings};
use crate::git::{
    command_view, individual_tag_text, names_ascending, opt_text, pair_names, pairs_view,
    release_line, sectioned_msg_text, skip_individual_tag, text_less, text_lt, GitCommand,
    GitError, GitErrorView, GitOpt, GitReply, ReplyView, RepoVersion, Step, StepView,
    WorkspaceConfig,
};
use crate::outside::{paths_equal, same_path};
use crate::text::{replace_all, replaced, text_eq};

verus! {

/// What the release records of a package, with texts taken as sequences.
pub struct PackageView {
    pub name: Seq<char>,
    pub version: Seq<char>,
    pub independent: bool,
    pub root: bool,
}

/// Everything a release reads, with texts taken as sequences.
pub struct ReleaseContext {
    pub no_git_commit: bool,
    pub amend: bool,
    pub message: Option<Seq<char>>,
    pub no_git_tag: bool,
    /// Whether package tags are made: neither the option nor the
    /// workspace switched them off.
    pub individual_tags: bool,
    pub no_global_tag: bool,
    pub tag_prefix: Seq<char>,
    pub individual_tag_prefix: Seq<char>,
    pub no_git_push: bool,
    pub git_remote: Seq<char>,
    pub root_tracking_commit: bool,
    /// The repositories.
    pub roots: Seq<Seq<char>>,
    pub workspace_root: Seq<char>,
    /// The version of the whole workspace, when it has one.
    pub new_version: Option<Seq<char>>,
    /// For each repository that has packages to release, its path and its
    /// packages, ascending by name.
    pub new_versions: Seq<(Seq<char>, Seq<PackageView>)>,
    /// The branch of each repository, in the order of `roots`.
    pub branches: Seq<Seq<char>>,
}

/// A package and what is recorded of it, as a sequence view.
pub open spec fn package_view(p: (String, RepoVersion)) -> PackageView {
    PackageView {
        name: p.0@,
        version: p.1.version@,
        independent: p.1.independent,
        root: p.1.root,
    }
}

/// The packages of a repository, as sequence views.
pub open spec fn packages_view(ps: Seq<(String, RepoVersion)>) -> Seq<PackageView> {
    ps.map_values(|p: (String, RepoVersion)| package_view(p))
}

/// The context of a release that the given inputs make.
pub open spec fn release_context(
    opt: GitOpt,
    roots: Seq<String>,
    workspace_root: Seq<char>,
    new_version: Option<String>,
    new_versions: Seq<(String, Vec<(String, RepoVersion)>)>,
    branches: Seq<String>,
    config: WorkspaceConfig,
) -> ReleaseContext {
    ReleaseContext {
        no_git_commit: opt.no_git_commit,
        amend: opt.amend,
        message: opt_text(opt.message),
        no_git_tag: opt.no_git_tag,
        individual_tags: !(opt.no_individual_tags || match config.no_individual_tags {
            Some(b) => b,
            None => false,
        }),
        no_global_tag: opt.no_global_tag,
        tag_prefix: opt.tag_prefix@,
        individual_tag_prefix: opt.individual_tag_prefix@,
        no_git_push: opt.no_git_push,
        git_remote: opt.git_remote@,
        root_tracking_commit: opt.root_tracking_commit,
        roots: roots.map_values(|s: String| s@),
        workspace_root,
        new_version: opt_text(new_version),
        new_versions: new_versions.map_values(
            |e: (String, Vec<(String, RepoVersion)>)| (e.0@, packages_view(e.1@)),
        ),
        branches: branches.map_values(|s: String| s@),
    }
}

/// Where the release of the current repository stands.
#[derive(Clone, Copy, Debug, PartialEq, Eq)]
pub enum ReleaseStage {
    /// Asked to stage the changes of tracked files.
    Add,
    /// Asked for the names of the staged files.
    Diff,
    /// Asked to commit.
    Commit,
    /// Asked to tag the repository's version.
    RepoTag,
    /// Asked to tag the version of the package at this position.
    PackageTag(usize),
    /// Asked to push.
    Push,
    /// Done; no more commands.
    Finished,
}

/// Where a release stands: the position in the release order and the stage.
pub struct ReleaseView {
    pub pos: nat,
    pub stage: ReleaseStage,
}

/// The names of a list of packages.
pub open spec fn package_names(ps: Seq<PackageView>) -> Seq<Seq<char>> {
    ps.map_values(|p: PackageView| p.name)
}

/// Every repository's packages are ascending by name, as a `BTreeMap`
/// walks them.
pub open spec fn packages_ordered(ctx: ReleaseContext) -> bool {
    forall|j: int|
        0 <= j < ctx.new_versions.len() ==> names_ascending(
            package_names(#[trigger] ctx.new_versions[j].1),
        )
}

/// Whether repository `r` is the workspace's.
pub open spec fn at_workspace(ctx: ReleaseContext, r: nat) -> bool {
    same_path(ctx.roots[r as int], ctx.workspace_root)
}

/// The positions, among the first `n` repositories, of those that are
/// (`at_ws`) or are not the workspace's, in order.
pub open spec fn picked(ctx: ReleaseContext, at_ws: bool, n: nat) -> Seq<nat>
    decreases n,
{
    if n == 0 {
        Seq::empty()
    } else {
        let p = picked(ctx, at_ws, (n - 1) as nat);
        if at_workspace(ctx, (n - 1) as nat) == at_ws {
            p.push((n - 1) as nat)
        } else {
            p
        }
    }
}

/// The order in which repositories are released: the others first, then
/// the workspace's, each group in the order given.
pub open spec fn release_order(ctx: ReleaseContext) -> Seq<nat> {
    picked(ctx, false, ctx.roots.len()) + picked(ctx, true, ctx.roots.len())
}

/// The first entry of `new_versions`, from `j` on, whose path is the same
/// path as `root`.
pub open spec fn first_repo_from(
    new_versions: Seq<(Seq<char>, Seq<PackageView>)>,
    root: Seq<char>,
    j: nat,
) -> Option<nat>
    decreases new_versions.len() - j,
{
    if j >= new_versions.len() {
        None
    } else if same_path(new_versions[j as int].0, root) {
        Some(j)
    } else {
        first_repo_from(new_versions, root, j + 1)
    }
}

/// The packages released from repository `r`: those of the entry for its
/// path, or none.
pub open spec fn repo_packages(ctx: ReleaseContext, r: nat) -> Seq<PackageView> {
    match first_repo_from(ctx.new_versions, ctx.roots[r as int], 0) {
        Some(j) => ctx.new_versions[j as int].1,
        None => Seq::empty(),
    }
}

/// The packages of the entries from `j` on whose path is not the
/// workspace's, in the order of the entries.
pub open spec fn external_from(ctx: ReleaseContext, j: nat) -> Seq<PackageView>
    decreases ctx.new_versions.len() - j,
{
    if j >= ctx.new_versions.len() {
        Seq::empty()
    } else {
        (if same_path(ctx.new_versions[j as int].0, ctx.workspace_root) {
            Seq::empty()
        } else {
            ctx.new_versions[j as int].1
        }) + external_from(ctx, j + 1)
    }
}

/// The packages released from repositories other than the workspace's.
pub open spec fn external_packages(ctx: ReleaseContext) -> Seq<PackageView> {
    external_from(ctx, 0)
}

/// Repository `r` releases packages of its own.
pub open spec fn repo_released(ctx: ReleaseContext, r: nat) -> bool {
    repo_packages(ctx, r).len() > 0
}

/// Repository `r` gets a tracking commit: it is the workspace's, releases
/// nothing of its own, other repositories release, and such commits are on.
pub open spec fn repo_tracked(ctx: ReleaseContext, r: nat) -> bool {
    &&& !repo_released(ctx, r)
    &&& at_workspace(ctx, r)
    &&& ctx.root_tracking_commit
    &&& external_packages(ctx).len() > 0
}

/// Repository `r` takes part in the release: every repository other than
/// the workspace's, and the workspace's when it releases packages or gets a
/// tracking commit.
pub open spec fn repo_active(ctx: ReleaseContext, r: nat) -> bool {
    !at_workspace(ctx, r) || repo_released(ctx, r) || repo_tracked(ctx, r)
}

/// The first position from `p` on whose repository takes part.
pub open spec fn next_active(ctx: ReleaseContext, p: nat) -> Option<nat>
    decreases release_order(ctx).len() - p,
{
    if p >= release_order(ctx).len() {
        None
    } else if repo_active(ctx, release_order(ctx)[p as int]) {
        Some(p)
    } else {
        next_active(ctx, p + 1)
    }
}

/// The version all the given packages share, when there are some and they
/// do.
pub open spec fn common_version(ps: Seq<PackageView>) -> Option<Seq<char>> {
    if ps.len() > 0 && forall|k: int| 0 <= k < ps.len() ==> #[trigger] ps[k].version == ps[0].version {
        Some(ps[0].version)
    } else {
        None
    }
}

/// None of the given packages is versioned independently.
pub open spec fn none_independent(ps: Seq<PackageView>) -> bool {
    forall|k: int| 0 <= k < ps.len() ==> !(#[trigger] ps[k]).independent
}

/// The tag of repository `r`'s version, when it gets one; none when such
/// tags are off. In the workspace's repository: the tag prefix with the
/// workspace's version. In another: the tag prefix with the version its
/// packages share, standing in for their package tags, when package tags
/// are on and none of its packages is independent (an independent package's
/// own tag is already that text).
pub open spec fn repo_tag(ctx: ReleaseContext, r: nat) -> Option<Seq<char>> {
    if ctx.no_global_tag {
        None
    } else if at_workspace(ctx, r) {
        match ctx.new_version {
            Some(v) => Some(ctx.tag_prefix + v),
            None => None,
        }
    } else if ctx.individual_tags && none_independent(repo_packages(ctx, r)) {
        match common_version(repo_packages(ctx, r)) {
            Some(x) => Some(ctx.tag_prefix + x),
            None => None,
        }
    } else {
        None
    }
}

/// The pairs of name and version of the given packages.
pub open spec fn commit_versions(ps: Seq<PackageView>) -> Seq<(Seq<char>, Seq<char>)> {
    ps.map_values(|p: PackageView| (p.name, p.version))
}

/// What `%v` stands for in repository `r`'s commit message. In the
/// workspace's repository: the workspace's version, else `name@version` of
/// its only package, else `independent packages`. In another: the tag label
/// of the version its packages share, else the workspace's version, else
/// `independent packages`.
pub open spec fn version_label(ctx: ReleaseContext, r: nat) -> Seq<char> {
    let ps = repo_packages(ctx, r);
    if at_workspace(ctx, r) {
        match ctx.new_version {
            Some(v) => v,
            None => if ps.len() == 1 {
                release_line(ps[0].name, ps[0].version)
            } else {
                "independent packages"@
            },
        }
    } else {
        match common_version(ps) {
            Some(x) => ctx.tag_prefix + x,
            None => match ctx.new_version {
                Some(v) => v,
                None => "independent packages"@,
            },
        }
    }
}

/// The other repositories' releases that repository `r`'s commit records:
/// all of them in the workspace's repository, none elsewhere.
pub open spec fn repo_external(ctx: ReleaseContext, r: nat) -> Seq<(Seq<char>, Seq<char>)> {
    if at_workspace(ctx, r) {
        commit_versions(external_packages(ctx))
    } else {
        Seq::empty()
    }
}

/// The template of the release commit message: the option's, else
/// `Release %v`.
pub open spec fn message_template(ctx: ReleaseContext) -> Seq<char> {
    match ctx.message {
        Some(m) => m,
        None => "Release %v"@,
    }
}

/// The message of repository `r`'s release commit: the template and the
/// package sections, with `%v` replaced throughout.
pub open spec fn release_message(ctx: ReleaseContext, r: nat) -> Seq<char> {
    replaced(
        sectioned_msg_text(
            message_template(ctx),
            commit_versions(repo_packages(ctx, r)),
            repo_external(ctx, r),
        ),
        "%v"@,
        version_label(ctx, r),
    )
}

/// The message of the workspace's tracking commit.
pub open spec fn tracking_message(ctx: ReleaseContext, r: nat) -> Seq<char> {
    sectioned_msg_text("Track external releases"@, Seq::empty(), repo_external(ctx, r))
}

/// `git add -u`
pub open spec fn add_args() -> Seq<Seq<char>> {
    seq!["add"@, "-u"@]
}

/// `git diff --cached --name-only`
pub open spec fn diff_args() -> Seq<Seq<char>> {
    seq!["diff"@, "--cached"@, "--name-only"@]
}

/// `git commit --amend --no-edit`, or `git commit -m <message>`.
pub open spec fn commit_args(ctx: ReleaseContext, r: nat) -> Seq<Seq<char>> {
    if ctx.amend {
        seq!["commit"@, "--amend"@, "--no-edit"@]
    } else if repo_tracked(ctx, r) {
        seq!["commit"@, "-m"@, tracking_message(ctx, r)]
    } else {
        seq!["commit"@, "-m"@, release_message(ctx, r)]
    }
}

/// `git tag <tag> -m <tag>`
pub open spec fn tag_args(tag: Seq<char>) -> Seq<Seq<char>> {
    seq!["tag"@, tag, "-m"@, tag]
}

/// `git push --follow-tags <remote> <branch>`
pub open spec fn push_args(ctx: ReleaseContext, r: nat) -> Seq<Seq<char>> {
    seq!["push"@, "--follow-tags"@, ctx.git_remote, ctx.branches[r as int]]
}

/// The tag of package `k` of repository `r`.
pub open spec fn package_tag(ctx: ReleaseContext, r: nat, k: nat) -> Seq<char> {
    let p = repo_packages(ctx, r)[k as int];
    individual_tag_text(
        ctx.tag_prefix,
        ctx.individual_tag_prefix,
        ctx.workspace_root,
        ctx.roots[r as int],
        p.name,
        p.version,
        p.independent,
    )
}

/// Whether the tag of package `k` of repository `r` is left out: in the
/// workspace's repository, by [`skip_individual_tag`]; in another, when the
/// repository's version is tagged in its place.
pub open spec fn package_skipped(ctx: ReleaseContext, r: nat, k: nat) -> bool {
    if at_workspace(ctx, r) {
        skip_individual_tag(
            ctx.workspace_root,
            ctx.roots[r as int],
            repo_packages(ctx, r)[k as int].root,
            repo_tag(ctx, r) is Some,
        )
    } else {
        repo_tag(ctx, r) is Some && !repo_packages(ctx, r)[k as int].independent
    }
}

/// The first package of repository `r`, from `k` on, that is tagged.
pub open spec fn next_package(ctx: ReleaseContext, r: nat, k: nat) -> Option<nat>
    decreases repo_packages(ctx, r).len() - k,
{
    if k >= repo_packages(ctx, r).len() {
        None
    } else if !package_skipped(ctx, r, k) {
        Some(k)
    } else {
        next_package(ctx, r, k + 1)
    }
}

/// The repository at position `p` of the release order.
pub open spec fn root_at(ctx: ReleaseContext, p: nat) -> nat {
    release_order(ctx)[p as int]
}

/// The release stopped at position `p` with `outcome`.
pub open spec fn release_finish(p: nat, outcome: Result<(), GitErrorView>) -> (
    ReleaseView,
    StepView<()>,
) {
    (ReleaseView { pos: p, stage: ReleaseStage::Finished }, StepView::Done(outcome))
}

/// Start on the first repository from position `p` on that takes part, or
/// finish.
pub open spec fn release_enter(ctx: ReleaseContext, p: nat, at: nat) -> (ReleaseView, StepView<()>) {
    match next_active(ctx, p) {
        Some(q) => (
            ReleaseView { pos: q, stage: ReleaseStage::Add },
            StepView::Run { root: root_at(ctx, q), args: add_args() },
        ),
        None => release_finish(at, Ok(())),
    }
}

/// The repository at position `p` is done: go on with the next one that
/// takes part, or finish.
pub open spec fn release_next_root(ctx: ReleaseContext, p: nat) -> (ReleaseView, StepView<()>) {
    release_enter(ctx, p + 1, p)
}

/// The tags at position `p` are done: push, unless pushing is off.
pub open spec fn release_after_tags(ctx: ReleaseContext, p: nat) -> (ReleaseView, StepView<()>) {
    if !ctx.no_git_push {
        (
            ReleaseView { pos: p, stage: ReleaseStage::Push },
            StepView::Run { root: root_at(ctx, p), args: push_args(ctx, root_at(ctx, p)) },
        )
    } else {
        release_next_root(ctx, p)
    }
}

/// Tag the next package at position `p` from `k` on that is tagged, or go
/// on when there is none.
pub open spec fn release_tags_from(ctx: ReleaseContext, p: nat, k: nat) -> (
    ReleaseView,
    StepView<()>,
) {
    let r = root_at(ctx, p);
    match next_package(ctx, r, k) {
        Some(k2) => (
            ReleaseView { pos: p, stage: ReleaseStage::PackageTag(k2 as usize) },
            StepView::Run { root: r, args: tag_args(package_tag(ctx, r, k2)) },
        ),
        None => release_after_tags(ctx, p),
    }
}

/// The repository's tag at position `p` is done, or there is none: the
/// package tags come next, when they are on.
pub open spec fn release_after_repo_tag(ctx: ReleaseContext, p: nat) -> (ReleaseView, StepView<()>) {
    if ctx.individual_tags {
        release_tags_from(ctx, p, 0)
    } else {
        release_after_tags(ctx, p)
    }
}

/// The repository at position `p` is committed: tag a release, unless
/// tagging is off or it released no packages (a tracking commit, or another
/// repository with nothing of its own to release).
pub open spec fn release_after_commit(ctx: ReleaseContext, p: nat) -> (ReleaseView, StepView<()>) {
    let r = root_at(ctx, p);
    if ctx.no_git_tag || !repo_released(ctx, r) {
        release_after_tags(ctx, p)
    } else {
        match repo_tag(ctx, r) {
            Some(t) => (
                ReleaseView { pos: p, stage: ReleaseStage::RepoTag },
                StepView::Run { root: r, args: tag_args(t) },
            ),
            None => release_after_repo_tag(ctx, p),
        }
    }
}

/// How a release starts.
pub open spec fn release_start(ctx: ReleaseContext) -> (ReleaseView, StepView<()>) {
    if ctx.no_git_commit {
        release_finish(0, Ok(()))
    } else {
        release_enter(ctx, 0, 0)
    }
}

/// How a release goes on from `v` after `reply`.
pub open spec fn release_next(ctx: ReleaseContext, v: ReleaseView, reply: ReplyView) -> (
    ReleaseView,
    StepView<()>,
) {
    let p = v.pos;
    let r = root_at(ctx, p);
    match v.stage {
        ReleaseStage::Add => if !reply.success {
            release_finish(p, Err(GitErrorView::NotAdded(reply.stdout, reply.stderr)))
        } else {
            (
                ReleaseView { pos: p, stage: ReleaseStage::Diff },
                StepView::Run { root: r, args: diff_args() },
            )
        },
        ReleaseStage::Diff => if !reply.success {
            release_finish(p, Err(GitErrorView::Bail))
        } else if reply.stdout.len() == 0 {
            release_next_root(ctx, p)
        } else {
            (
                ReleaseView { pos: p, stage: ReleaseStage::Commit },
                StepView::Run { root: r, args: commit_args(ctx, r) },
            )
        },
        ReleaseStage::Commit => if !reply.success {
            release_finish(p, Err(GitErrorView::NotCommitted(reply.stdout, reply.stderr)))
        } else {
            release_after_commit(ctx, p)
        },
        ReleaseStage::RepoTag => if !reply.success {
            release_finish(
                p,
                Err(GitErrorView::NotTagged(repo_tag(ctx, r)->0, reply.stdout, reply.stderr)),
            )
        } else {
            release_after_repo_tag(ctx, p)
        },
        ReleaseStage::PackageTag(k) => if !reply.success {
            release_finish(
                p,
                Err(GitErrorView::NotTagged(package_tag(ctx, r, k as nat), reply.stdout, reply.stderr)),
            )
        } else {
            release_tags_from(ctx, p, k as nat + 1)
        },
        ReleaseStage::Push => if !reply.success {
            release_finish(p, Err(GitErrorView::NotPushed(reply.stdout, reply.stderr)))
        } else {
            release_next_root(ctx, p)
        },
        ReleaseStage::Finished => release_finish(p, Err(GitErrorView::Bail)),
    }
}

/// The view of a step of a release.
pub open spec fn release_step_view(s: Step<()>) -> StepView<()> {
    match s {
        Step::Run(c) => command_view(c),
        Step::Done(Ok(())) => StepView::Done(Ok(())),
        Step::Done(Err(e)) => StepView::Done(Err(e@)),
    }
}

/// A list of positions, as naturals.
pub open spec fn order_view(v: Seq<usize>) -> Seq<nat> {
    v.map_values(|x: usize| x as nat)
}

/// A release under way.
pub struct Release<'a> {
    opt: &'a GitOpt,
    roots: &'a Vec<String>,
    workspace_root: &'a str,
    new_version: &'a Option<String>,
    new_versions: &'a Vec<(String, Vec<(String, RepoVersion)>)>,
    branches: &'a Vec<String>,
    config: &'a WorkspaceConfig,
    individual_tags: bool,
    has_external: bool,
    order: Vec<usize>,
    pos: usize,
    stage: ReleaseStage,
    root: usize,
    repo: Option<usize>,
    at_ws: bool,
    repo_tag: Option<String>,
}

impl<'a> View for Release<'a> {
    type V = ReleaseView;

    closed spec fn view(&self) -> ReleaseView {
        ReleaseView { pos: self.pos as nat, stage: self.stage }
    }
}

/// `git add -u` in root `root`.
fn add_command(root: usize) -> (c: GitCommand)
    ensures
        c.root == root,
        c.args.deep_view() == add_args(),
{
    let args = strings(&["add", "-u"]);
    assert(args.deep_view() =~= add_args());
    GitCommand { root, args }
}

/// `git diff --cached --name-only` in root `root`.
fn diff_command(root: usize) -> (c: GitCommand)
    ensures
        c.root == root,
        c.args.deep_view() == diff_args(),
{
    let args = strings(&["diff", "--cached", "--name-only"]);
    assert(args.deep_view() =~= diff_args());
    GitCommand { root, args }
}

/// `git tag <tag> -m <tag>` in root `root`.
fn tag_command(root: usize, tag: &String) -> (c: GitCommand)
    ensures
        c.root == root,
        c.args.deep_view() == tag_args(tag@),
{
    let mut args = strings(&["tag"]);
    assert(args.deep_view() =~= seq!["tag"@]);
    push_arg(&mut args, tag.clone());
    push_arg(&mut args, "-m".to_owned());
    push_arg(&mut args, tag.clone());
    assert(args.deep_view() =~= tag_args(tag@));
    GitCommand { root, args }
}

/// Whether the packages are ascending by name.
pub fn packages_in_order(ps: &Vec<(String, RepoVersion)>) -> (r: bool)
    ensures
        r == names_ascending(package_names(packages_view(ps@))),
{
    let ghost names = package_names(packages_view(ps@));
    if ps.len() == 0 {
        return true;
    }
    let last = ps.len() - 1;
    let mut i: usize = 0;
    while i < last
        invariant
            last + 1 == ps@.len(),
            names == package_names(packages_view(ps@)),
            names.len() == ps@.len(),
            forall|j: int| 0 <= j < i && j + 1 < names.len() ==> #[trigger] text_lt(names[j], names[j + 1]),
        decreases last - i,
    {
        if !text_less(ps[i].0.as_str(), ps[i + 1].0.as_str()) {
            assert(names[i as int] == ps@[i as int].0@);
            assert(names[i + 1] == ps@[i + 1].0@);
            assert(!text_lt(names[i as int], names[i as int + 1]));
            return false;
        }
        i = i + 1;
    }
    true
}

/// Whether none of the packages is versioned independently.
fn none_independent_in(ps: &Vec<(String, RepoVersion)>) -> (r: bool)
    ensures
        r == none_independent(packages_view(ps@)),
{
    let ghost view = packages_view(ps@);
    let mut k: usize = 0;
    while k < ps.len()
        invariant
            view == packages_view(ps@),
            view.len() == ps@.len(),
            k <= ps@.len(),
            forall|m: int| 0 <= m < k ==> !(#[trigger] view[m]).independent,
        decreases ps.len() - k,
    {
        if ps[k].1.independent {
            assert(view[k as int].independent);
            return false;
        }
        k = k + 1;
    }
    true
}

/// The version all the packages share, when there are some and they do.
fn shared_version(ps: &Vec<(String, RepoVersion)>) -> (r: Option<String>)
    ensures
        opt_text(r) == common_version(packages_view(ps@)),
{
    let ghost view = packages_view(ps@);
    if ps.len() == 0 {
        return None;
    }
    let mut k: usize = 1;
    while k < ps.len()
        invariant
            view == packages_view(ps@),
            view.len() == ps@.len(),
            1 <= k <= ps@.len(),
            forall|m: int| 0 <= m < k ==> #[trigger] view[m].version == view[0].version,
        decreases ps.len() - k,
    {
        if !text_eq(ps[k].1.version.as_str(), ps[0].1.version.as_str()) {
            assert(view[k as int].version != view[0].version);
            return None;
        }
        k = k + 1;
    }
    Some(ps[0].1.version.clone())
}

/// No two entries of `new_versions` name the same repository path, as the
/// keys of a map of paths never do.
pub open spec fn repo_paths_distinct(new_versions: Seq<(String, Vec<(String, RepoVersion)>)>) -> bool {
    forall|i: int, j: int|
        0 <= i < j < new_versions.len() ==> !(#[trigger] same_path(
            new_versions[i].0@,
            new_versions[j].0@,
        ))
}

/// Whether no two entries of `new_versions` name the same repository path.
pub fn repo_paths_are_distinct(new_versions: &Vec<(String, Vec<(String, RepoVersion)>)>) -> (r:
    bool)
    ensures
        r == repo_paths_distinct(new_versions@),
{
    let n = new_versions.len();
    let mut i: usize = 0;
    while i < n
        invariant
            n == new_versions@.len(),
            i <= n,
            forall|a: int, b: int|
                0 <= a < i && a < b < n ==> !(#[trigger] same_path(
                    new_versions@[a].0@,
                    new_versions@[b].0@,
                )),
        decreases n - i,
    {
        let mut j: usize = i + 1;
        while j < n
            invariant
                n == new_versions@.len(),
                i < n,
                i + 1 <= j <= n,
                forall|a: int, b: int|
                    0 <= a < i && a < b < n ==> !(#[trigger] same_path(
                        new_versions@[a].0@,
                        new_versions@[b].0@,
                    )),
                forall|b: int|
                    i < b < j ==> !(#[trigger] same_path(new_versions@[i as int].0@, new_versions@[b].0@)),
            decreases n - j,
        {
            if paths_equal(new_versions[i].0.as_str(), new_versions[j].0.as_str()) {
                assert(same_path(new_versions@[i as int].0@, new_versions@[j as int].0@));
                return false;
            }
            j = j + 1;
        }
        i = i + 1;
    }
    true
}

impl GitOpt {
    /// Starts recording a release, as [`GitOpt::commit`] does, once it has
    /// checked that no two entries of `new_versions` name the same
    /// repository path; gives `None`, and starts nothing, when two do and
    /// commits are on.
    pub fn commit_checked<'a>(
        &'a self,
        roots: &'a Vec<String>,
        workspace_root: &'a str,
        new_version: &'a Option<String>,
        new_versions: &'a Vec<(String, Vec<(String, RepoVersion)>)>,
        branches: &'a Vec<String>,
        config: &'a WorkspaceConfig,
    ) -> (r: Option<(Release<'a>, Step<()>)>)
        requires
            !self.no_git_commit && !self.no_git_push ==> branches@.len() == roots@.len(),
            !self.no_git_commit ==> forall|j: int|
                0 <= j < new_versions@.len() ==> names_ascending(
                    package_names(packages_view(#[trigger] new_versions@[j].1@)),
                ),
        ensures
            r is None <==> (!self.no_git_commit && !repo_paths_distinct(new_versions@)),
            r matches Some(x) ==> {
                &&& x.0.wf()
                &&& x.0.context() == release_context(
                    *self,
                    roots@,
                    workspace_root@,
                    *new_version,
                    new_versions@,
                    branches@,
                    *config,
                )
                &&& (x.0@, release_step_view(x.1)) == release_start(x.0.context())
            },
    {
        if !self.no_git_commit && !repo_paths_are_distinct(new_versions) {
            return None;
        }
        Some(self.commit(roots, workspace_root, new_version, new_versions, branches, config))
    }

    /// Starts recording a release in the repositories at `roots`, whose
    /// branches `validate` returned, in the order of `roots`.
    /// `new_versions` holds, per repository path, its packages to release,
    /// ascending by name, as the workspace's maps give them, and no path
    /// twice.
    pub fn commit<'a>(
        &'a self,
        roots: &'a Vec<String>,
        workspace_root: &'a str,
        new_version: &'a Option<String>,
        new_versions: &'a Vec<(String, Vec<(String, RepoVersion)>)>,
        branches: &'a Vec<String>,
        config: &'a WorkspaceConfig,
    ) -> (r: (Release<'a>, Step<()>))
        requires
            !self.no_git_commit && !self.no_git_push ==> branches@.len() == roots@.len(),
            !self.no_git_commit ==> forall|j: int|
                0 <= j < new_versions@.len() ==> names_ascending(
                    package_names(packages_view(#[trigger] new_versions@[j].1@)),
                ),
            !self.no_git_commit ==> repo_paths_distinct(new_versions@),
        ensures
            r.0.wf(),
            r.0.context() == release_context(
                *self,
                roots@,
                workspace_root@,
                *new_version,
                new_versions@,
                branches@,
                *config,
            ),
            (r.0@, release_step_view(r.1)) == release_start(r.0.context()),
    {
        let config_off = match config.no_individual_tags {
            Some(b) => b,
            None => false,
        };
        let mut release = Release {
            opt: self,
            roots,
            workspace_root,
            new_version,
            new_versions,
            branches,
            config,
            individual_tags: !(self.no_individual_tags || config_off),
            has_external: false,
            order: Vec::new(),
            pos: 0,
            stage: ReleaseStage::Finished,
            root: 0,
            repo: None,
            at_ws: false,
            repo_tag: None,
        };
        if self.no_git_commit {
            return (release, Step::Done(Ok(())));
        }
        let ghost ctx = release.context();
        assert forall|j: int| 0 <= j < ctx.new_versions.len() implies names_ascending(
            package_names(#[trigger] ctx.new_versions[j].1),
        ) by {
            assert(ctx.new_versions[j].1 == packages_view(new_versions@[j].1@));
        }
        release.has_external = release.find_external();
        release.order = release.find_order();
        let step = release.enter(0, 0);
        (release, step)
    }
}

impl<'a> Release<'a> {
    /// What the release reads.
    pub closed spec fn context(&self) -> ReleaseContext {
        release_context(
            *self.opt,
            self.roots@,
            self.workspace_root@,
            *self.new_version,
            self.new_versions@,
            self.branches@,
            *self.config,
        )
    }

    /// The two releases read the same inputs.
    pub closed spec fn same_inputs(&self, other: Release<'a>) -> bool {
        &&& self.opt == other.opt
        &&& self.roots == other.roots
        &&& self.workspace_root == other.workspace_root
        &&& self.new_version == other.new_version
        &&& self.new_versions == other.new_versions
        &&& self.branches == other.branches
        &&& self.config == other.config
        &&& self.individual_tags == other.individual_tags
        &&& self.has_external == other.has_external
        &&& self.order == other.order
    }

    /// What holds of a release whatever its stage.
    closed spec fn base_wf(&self) -> bool {
        let ctx = self.context();
        &&& ctx.individual_tags == self.individual_tags
        &&& !ctx.no_git_commit ==> {
            &&& self.has_external == (external_packages(ctx).len() > 0)
            &&& !ctx.no_git_push ==> self.branches@.len() == self.roots@.len()
            &&& packages_ordered(ctx)
            &&& order_view(self.order@) == release_order(ctx)
            &&& forall|q: int| 0 <= q < self.order@.len() ==> #[trigger] self.order@[q] < self.roots@.len()
        }
    }

    /// What holds of a release between steps.
    pub closed spec fn wf(&self) -> bool {
        let ctx = self.context();
        let r = self.root as nat;
        &&& self.base_wf()
        &&& self.stage !is Finished ==> {
            &&& !ctx.no_git_commit
            &&& self.pos < self.order@.len()
            &&& self.root == self.order@[self.pos as int]
            &&& match self.repo {
                Some(j) => j < self.new_versions@.len() && first_repo_from(
                    ctx.new_versions,
                    ctx.roots[r as int],
                    0,
                ) == Some(j as nat),
                None => first_repo_from(ctx.new_versions, ctx.roots[r as int], 0) is None,
            }
            &&& self.at_ws == at_workspace(ctx, r)
            &&& opt_text(self.repo_tag) == repo_tag(ctx, r)
            &&& repo_active(ctx, r)
        }
        &&& self.stage is RepoTag ==> repo_tag(ctx, r) is Some && repo_released(ctx, r)
        &&& self.stage matches ReleaseStage::PackageTag(k) ==> k < repo_packages(ctx, r).len()
    }

    /// Whether other repositories than the workspace's release packages.
    fn find_external(&self) -> (r: bool)
        ensures
            r == (external_packages(self.context()).len() > 0),
    {
        let ghost ctx = self.context();
        let mut j: usize = 0;
        while j < self.new_versions.len()
            invariant
                ctx == self.context(),
                ctx.new_versions.len() == self.new_versions@.len(),
                j <= self.new_versions@.len(),
                (external_from(ctx, 0).len() > 0) == (external_from(ctx, j as nat).len() > 0),
            decreases self.new_versions.len() - j,
        {
            assert(ctx.new_versions[j as int].0 == self.new_versions@[j as int].0@);
            assert(ctx.new_versions[j as int].1.len() == self.new_versions@[j as int].1@.len());
            if !paths_equal(self.new_versions[j].0.as_str(), self.workspace_root)
                && self.new_versions[j].1.len() > 0 {
                return true;
            }
            j = j + 1;
        }
        false
    }

    /// The release order of the repositories.
    fn find_order(&self) -> (r: Vec<usize>)
        ensures
            order_view(r@) == release_order(self.context()),
            forall|q: int| 0 <= q < r@.len() ==> #[trigger] r@[q] < self.roots@.len(),
    {
        let ghost ctx = self.context();
        let n = self.roots.len();
        let mut order: Vec<usize> = Vec::new();
        let mut pass: usize = 0;
        while pass < 2
            invariant
                ctx == self.context(),
                n == self.roots@.len(),
                ctx.roots.len() == n,
                pass <= 2,
                order_view(order@) == if pass == 0 {
                    Seq::<nat>::empty()
                } else if pass == 1 {
                    picked(ctx, false, n as nat)
                } else {
                    release_order(ctx)
                },
                forall|q: int| 0 <= q < order@.len() ==> #[trigger] order@[q] < n,
            decreases 2 - pass,
        {
            let want = pass == 1;
            let ghost base = order_view(order@);
            let mut i: usize = 0;
            while i < n
                invariant
                    ctx == self.context(),
                    n == self.roots@.len(),
                    ctx.roots.len() == n,
                    i <= n,
                    order_view(order@) == base + picked(ctx, want, i as nat),
                    forall|q: int| 0 <= q < order@.len() ==> #[trigger] order@[q] < n,
                decreases n - i,
            {
                assert(ctx.roots[i as int] == self.roots@[i as int]@);
                let at = paths_equal(self.roots[i].as_str(), self.workspace_root);
                if at == want {
                    let ghost before = order@;
                    order.push(i);
                    assert(order_view(order@) =~= order_view(before).push(i as nat));
                    assert(base + picked(ctx, want, (i + 1) as nat) =~= (base + picked(ctx, want, i as nat)).push(i as nat));
                }
                i = i + 1;
            }
            assert(base + picked(ctx, want, n as nat) =~= if pass == 0 {
                picked(ctx, false, n as nat)
            } else {
                release_order(ctx)
            });
            pass = pass + 1;
        }
        order
    }

    /// The entry of `new_versions` for repository `r`: the first whose path
    /// is the same path.
    fn find_repo(&self, r: usize) -> (res: Option<usize>)
        requires
            r < self.roots@.len(),
        ensures
            match res {
                Some(j) => j < self.new_versions@.len() && first_repo_from(
                    self.context().new_versions,
                    self.context().roots[r as int],
                    0,
                ) == Some(j as nat),
                None => first_repo_from(
                    self.context().new_versions,
                    self.context().roots[r as int],
                    0,
                ) is None,
            },
    {
        let ghost ctx = self.context();
        let root: &str = self.roots[r].as_str();
        assert(ctx.roots[r as int] == root@);
        let mut j: usize = 0;
        while j < self.new_versions.len()
            invariant
                ctx == self.context(),
                ctx.new_versions.len() == self.new_versions@.len(),
                root@ == ctx.roots[r as int],
                j <= self.new_versions@.len(),
                first_repo_from(ctx.new_versions, root@, 0) == first_repo_from(
                    ctx.new_versions,
                    root@,
                    j as nat,
                ),
            decreases self.new_versions.len() - j,
        {
            assert(ctx.new_versions[j as int].0 == self.new_versions@[j as int].0@);
            if paths_equal(self.new_versions[j].0.as_str(), root) {
                return Some(j);
            }
            j = j + 1;
        }
        None
    }

    /// The number of packages of the entry `repo`, none when absent.
    fn count_of(&self, r: usize, repo: Option<usize>) -> (n: usize)
        requires
            r < self.roots@.len(),
            match repo {
                Some(j) => j < self.new_versions@.len() && first_repo_from(
                    self.context().new_versions,
                    self.context().roots[r as int],
                    0,
                ) == Some(j as nat),
                None => first_repo_from(
                    self.context().new_versions,
                    self.context().roots[r as int],
                    0,
                ) is None,
            },
        ensures
            n == repo_packages(self.context(), r as nat).len(),
    {
        match repo {
            Some(j) => {
                assert(repo_packages(self.context(), r as nat) == packages_view(
                    self.new_versions@[j as int].1@,
                ));
                self.new_versions[j].1.len()
            },
            None => 0,
        }
    }

    /// The tag of repository `r`'s version, when it gets one.
    fn find_repo_tag(&self, r: usize, repo: Option<usize>, at_ws: bool) -> (t: Option<String>)
        requires
            r < self.roots@.len(),
            at_ws == at_workspace(self.context(), r as nat),
            match repo {
                Some(j) => j < self.new_versions@.len() && first_repo_from(
                    self.context().new_versions,
                    self.context().roots[r as int],
                    0,
                ) == Some(j as nat),
                None => first_repo_from(
                    self.context().new_versions,
                    self.context().roots[r as int],
                    0,
                ) is None,
            },
        ensures
            opt_text(t) == repo_tag(self.context(), r as nat),
    {
        let ghost ctx = self.context();
        if self.opt.no_global_tag {
            return None;
        }
        let config_off = match self.config.no_individual_tags {
            Some(b) => b,
            None => false,
        };
        let individual_tags = !(self.opt.no_individual_tags || config_off);
        let version: Option<String> = if at_ws {
            match self.new_version {
                Some(v) => Some(v.clone()),
                None => None,
            }
        } else {
            match repo {
                Some(j) => {
                    assert(repo_packages(ctx, r as nat) == packages_view(
                        self.new_versions@[j as int].1@,
                    ));
                    if individual_tags && none_independent_in(&self.new_versions[j].1) {
                        shared_version(&self.new_versions[j].1)
                    } else {
                        None
                    }
                },
                None => {
                    assert(common_version(repo_packages(ctx, r as nat)) is None);
                    None
                },
            }
        };
        match version {
            Some(v) => {
                let mut tag = self.opt.tag_prefix.clone();
                tag.append(v.as_str());
                Some(tag)
            },
            None => None,
        }
    }

    /// Whether repository `r` takes part in the release.
    fn is_active(&self, r: usize) -> (b: bool)
        requires
            self.base_wf(),
            !self.context().no_git_commit,
            r < self.roots@.len(),
        ensures
            b == repo_active(self.context(), r as nat),
    {
        let ghost ctx = self.context();
        assert(ctx.roots[r as int] == self.roots@[r as int]@);
        let at = paths_equal(self.roots[r].as_str(), self.workspace_root);
        if !at {
            return true;
        }
        let repo = self.find_repo(r);
        if self.count_of(r, repo) > 0 {
            return true;
        }
        self.opt.root_tracking_commit && self.has_external
    }

    /// Starts on the first repository from position `from` on that takes
    /// part; finishes at position `at` when none does.
    fn enter(&mut self, from: usize, at: usize) -> (s: Step<()>)
        requires
            old(self).base_wf(),
            !old(self).context().no_git_commit,
        ensures
            final(self).wf(),
            final(self).same_inputs(*old(self)),
            (final(self)@, release_step_view(s)) == release_enter(
                old(self).context(),
                from as nat,
                at as nat,
            ),
    {
        let ghost ctx = self.context();
        let mut q: usize = from;
        while q < self.order.len()
            invariant
                ctx == self.context(),
                self.same_inputs(*old(self)),
                self.base_wf(),
                !ctx.no_git_commit,
                q >= from,
                next_active(ctx, from as nat) == next_active(ctx, q as nat),
            decreases self.order.len() - q,
        {
            let r = self.order[q];
            assert(order_view(self.order@)[q as int] == r as nat);
            if self.is_active(r) {
                let repo = self.find_repo(r);
                assert(ctx.roots[r as int] == self.roots@[r as int]@);
                let at_ws = paths_equal(self.roots[r].as_str(), self.workspace_root);
                let tag = self.find_repo_tag(r, repo, at_ws);
                self.pos = q;
                self.root = r;
                self.repo = repo;
                self.at_ws = at_ws;
                self.repo_tag = tag;
                self.stage = ReleaseStage::Add;
                return Step::Run(add_command(r));
            }
            q = q + 1;
        }
        self.pos = at;
        self.stage = ReleaseStage::Finished;
        Step::Done(Ok(()))
    }

    /// Stops with `outcome`.
    fn finish(&mut self, outcome: Result<(), GitError>) -> (r: Step<()>)
        ensures
            final(self).same_inputs(*old(self)),
            final(self).pos == old(self).pos,
            final(self).root == old(self).root,
            final(self).repo == old(self).repo,
            final(self).stage is Finished,
            (final(self)@, release_step_view(r)) == release_finish(
                old(self)@.pos,
                match outcome {
                    Ok(()) => Ok(()),
                    Err(e) => Err(e@),
                },
            ),
    {
        self.stage = ReleaseStage::Finished;
        Step::Done(outcome)
    }

    /// The current repository is done: go on with the next one that takes
    /// part, or finish.
    fn next_root(&mut self) -> (r: Step<()>)
        requires
            old(self).wf(),
            old(self).stage !is Finished,
        ensures
            final(self).wf(),
            final(self).same_inputs(*old(self)),
            (final(self)@, release_step_view(r)) == release_next_root(
                old(self).context(),
                old(self)@.pos,
            ),
    {
        let at = self.pos;
        let n = self.order.len();
        assert(at < n);
        self.enter(at + 1, at)
    }

    /// The tags of the current repository are done: push, or go on.
    fn after_tags(&mut self) -> (r: Step<()>)
        requires
            old(self).wf(),
            old(self).stage !is Finished,
        ensures
            final(self).wf(),
            final(self).same_inputs(*old(self)),
            (final(self)@, release_step_view(r)) == release_after_tags(
                old(self).context(),
                old(self)@.pos,
            ),
    {
        let ghost ctx = self.context();
        assert(order_view(self.order@)[self.pos as int] == self.root as nat);
        if !self.opt.no_git_push {
            self.stage = ReleaseStage::Push;
            let mut args = strings(&["push", "--follow-tags"]);
            assert(args.deep_view() =~= seq!["push"@, "--follow-tags"@]);
            push_arg(&mut args, self.opt.git_remote.clone());
            push_arg(&mut args, self.branches[self.root].clone());
            assert(args.deep_view() =~= push_args(ctx, self.root as nat));
            Step::Run(GitCommand { root: self.root, args })
        } else {
            self.next_root()
        }
    }

    /// Tags the next package of the current repository from `k` on that is
    /// tagged, or goes on when there is none.
    fn tags_from(&mut self, k: usize) -> (r: Step<()>)
        requires
            old(self).wf(),
            old(self).stage !is Finished,
        ensures
            final(self).wf(),
            final(self).same_inputs(*old(self)),
            (final(self)@, release_step_view(r)) == release_tags_from(
                old(self).context(),
                old(self)@.pos,
                k as nat,
            ),
    {
        let ghost ctx = self.context();
        let ghost r = self.root as nat;
        assert(order_view(self.order@)[self.pos as int] == r);
        let packages: &Vec<(String, RepoVersion)> = match self.repo {
            Some(j) => &self.new_versions[j].1,
            None => {
                return self.after_tags();
            },
        };
        assert(repo_packages(ctx, r) == packages_view(packages@));
        let root: &str = self.roots[self.root].as_str();
        assert(root@ == ctx.roots[r as int]);
        let mut m: usize = k;
        while m < packages.len()
            invariant
                ctx == self.context(),
                *self == *old(self),
                r == self.root,
                self.wf(),
                self.stage !is Finished,
                root@ == ctx.roots[r as int],
                repo_packages(ctx, r) == packages_view(packages@),
                next_package(ctx, r, k as nat) == next_package(ctx, r, m as nat),
            decreases packages.len() - m,
        {
            let skip = if self.at_ws {
                self.opt.should_skip_individual_tag(
                    self.workspace_root,
                    root,
                    &packages[m].1,
                    self.repo_tag.is_some(),
                )
            } else {
                self.repo_tag.is_some() && !packages[m].1.independent
            };
            if !skip {
                let tag = self.opt.individual_tag(
                    self.workspace_root,
                    root,
                    packages[m].0.as_str(),
                    packages[m].1.version.as_str(),
                    packages[m].1.independent,
                );
                self.stage = ReleaseStage::PackageTag(m);
                return Step::Run(tag_command(self.root, &tag));
            }
            m = m + 1;
        }
        self.after_tags()
    }

    /// The repository's tag is done, or there is none: tag the packages,
    /// when that is on, or go on.
    fn after_repo_tag(&mut self) -> (r: Step<()>)
        requires
            old(self).wf(),
            old(self).stage !is Finished,
        ensures
            final(self).wf(),
            final(self).same_inputs(*old(self)),
            (final(self)@, release_step_view(r)) == release_after_repo_tag(
                old(self).context(),
                old(self)@.pos,
            ),
    {
        if self.individual_tags {
            self.tags_from(0)
        } else {
            self.after_tags()
        }
    }

    /// The current repository is committed: tag a release, or go on.
    fn after_commit(&mut self) -> (r: Step<()>)
        requires
            old(self).wf(),
            old(self).stage !is Finished,
        ensures
            final(self).wf(),
            final(self).same_inputs(*old(self)),
            (final(self)@, release_step_view(r)) == release_after_commit(
                old(self).context(),
                old(self)@.pos,
            ),
    {
        let ghost ctx = self.context();
        assert(order_view(self.order@)[self.pos as int] == self.root as nat);
        let count = self.count_of(self.root, self.repo);
        if self.opt.no_git_tag || count == 0 {
            return self.after_tags();
        }
        match &self.repo_tag {
            Some(tag) => {
                let tag = tag.clone();
                self.stage = ReleaseStage::RepoTag;
                Step::Run(tag_command(self.root, &tag))
            },
            None => self.after_repo_tag(),
        }
    }

    /// The names and versions of the packages of the current repository.
    fn local_versions(&self) -> (r: Vec<(String, String)>)
        requires
            self.wf(),
            self.stage !is Finished,
        ensures
            pairs_view(r@) == commit_versions(repo_packages(self.context(), self.root as nat)),
    {
        let ghost ctx = self.context();
        let ghost i = self.root as nat;
        let r: Vec<(String, String)> = Vec::new();
        match self.repo {
            Some(j) => {
                assert(repo_packages(ctx, i) == packages_view(self.new_versions@[j as int].1@));
                append_versions(r, &self.new_versions[j].1)
            },
            None => {
                assert(pairs_view(r@) =~= commit_versions(repo_packages(ctx, i)));
                r
            },
        }
    }

    /// The names and versions of the packages that repositories other than
    /// the workspace's release, in the order of their entries.
    fn external_versions(&self) -> (r: Vec<(String, String)>)
        ensures
            pairs_view(r@) == commit_versions(external_packages(self.context())),
    {
        let ghost ctx = self.context();
        let mut out: Vec<(String, String)> = Vec::new();
        let mut j: usize = 0;
        while j < self.new_versions.len()
            invariant
                ctx == self.context(),
                ctx.new_versions.len() == self.new_versions@.len(),
                j <= self.new_versions@.len(),
                commit_versions(external_from(ctx, 0)) == pairs_view(out@) + commit_versions(
                    external_from(ctx, j as nat),
                ),
            decreases self.new_versions.len() - j,
        {
            assert(ctx.new_versions[j as int].0 == self.new_versions@[j as int].0@);
            assert(ctx.new_versions[j as int].1 == packages_view(self.new_versions@[j as int].1@));
            let ghost part = if same_path(ctx.new_versions[j as int].0, ctx.workspace_root) {
                Seq::<PackageView>::empty()
            } else {
                ctx.new_versions[j as int].1
            };
            assert(commit_versions(external_from(ctx, j as nat)) =~= commit_versions(part)
                + commit_versions(external_from(ctx, (j + 1) as nat)));
            let ghost before = pairs_view(out@);
            if !paths_equal(self.new_versions[j].0.as_str(), self.workspace_root) {
                out = append_versions(out, &self.new_versions[j].1);
            } else {
                assert(commit_versions(part) =~= Seq::<(Seq<char>, Seq<char>)>::empty());
            }
            assert(pairs_view(out@) =~= before + commit_versions(part));
            j = j + 1;
        }
        assert(external_from(ctx, j as nat) =~= Seq::<PackageView>::empty());
        assert(pairs_view(out@) =~= commit_versions(external_from(ctx, 0)));
        out
    }

    /// What `%v` stands for in the current repository's commit message.
    fn version_label(&self) -> (r: String)
        requires
            self.wf(),
            self.stage !is Finished,
        ensures
            r@ == version_label(self.context(), self.root as nat),
    {
        let ghost ctx = self.context();
        let ghost i = self.root as nat;
        if self.at_ws {
            match self.new_version {
                Some(v) => {
                    let l = v.clone();
                    assert(l@ == version_label(ctx, i));
                    l
                },
                None => {
                    let local = self.local_versions();
                    if local.len() == 1 {
                        let mut l = local[0].0.clone();
                        l.append("@");
                        l.append(local[0].1.as_str());
                        let ghost ps = repo_packages(ctx, i);
                        assert(pairs_view(local@).len() == ps.len());
                        assert(commit_versions(ps)[0] == (ps[0].name, ps[0].version));
                        assert(pairs_view(local@)[0] == (local@[0].0@, local@[0].1@));
                        assert(l@ == version_label(ctx, i));
                        l
                    } else {
                        let l = "independent packages".to_owned();
                        assert(pairs_view(local@).len() == repo_packages(ctx, i).len());
                        assert(l@ == version_label(ctx, i));
                        l
                    }
                },
            }
        } else {
            let shared = match self.repo {
                Some(j) => {
                    assert(repo_packages(ctx, i) == packages_view(
                        self.new_versions@[j as int].1@,
                    ));
                    shared_version(&self.new_versions[j].1)
                },
                None => {
                    assert(common_version(repo_packages(ctx, i)) is None);
                    None
                },
            };
            match shared {
                Some(x) => {
                    let mut l = self.opt.tag_prefix.clone();
                    l.append(x.as_str());
                    assert(l@ == version_label(ctx, i));
                    l
                },
                None => match self.new_version {
                    Some(v) => {
                        let l = v.clone();
                        assert(l@ == version_label(ctx, i));
                        l
                    },
                    None => {
                        let l = "independent packages".to_owned();
                        assert(l@ == version_label(ctx, i));
                        l
                    },
                },
            }
        }
    }

    /// The other repositories' releases the current repository's commit
    /// records.
    fn repo_external_versions(&self) -> (r: Vec<(String, String)>)
        requires
            self.wf(),
            self.stage !is Finished,
        ensures
            pairs_view(r@) == repo_external(self.context(), self.root as nat),
    {
        if self.at_ws {
            self.external_versions()
        } else {
            let r: Vec<(String, String)> = Vec::new();
            assert(pairs_view(r@) =~= Seq::<(Seq<char>, Seq<char>)>::empty());
            r
        }
    }

    /// The commit command of the current repository.
    fn commit_command(&self) -> (c: GitCommand)
        requires
            self.wf(),
            self.stage !is Finished,
        ensures
            c.root == self.root,
            c.args.deep_view() == commit_args(self.context(), self.root as nat),
    {
        let ghost ctx = self.context();
        let ghost i = self.root as nat;
        if self.opt.amend {
            let args = strings(&["commit", "--amend", "--no-edit"]);
            assert(args.deep_view() =~= seq!["commit"@, "--amend"@, "--no-edit"@]);
            return GitCommand { root: self.root, args };
        }
        let local = self.local_versions();
        let external = self.repo_external_versions();
        proof {
            if let Some(j) = self.repo {
                assert(repo_packages(ctx, i) == ctx.new_versions[j as int].1);
                assert(names_ascending(package_names(ctx.new_versions[j as int].1)));
            }
            assert(pair_names(pairs_view(local@)) =~= package_names(repo_packages(ctx, i)));
        }
        let message = if !(self.at_ws && local.len() == 0) {
            let base: &str = match &self.opt.message {
                Some(m) => m.as_str(),
                None => "Release %v",
            };
            let text = self.opt.commit_msg_with_external(base, &local, &external);
            let label = self.version_label();
            replace_all(text.as_str(), "%v", label.as_str())
        } else {
            let none: Vec<(String, String)> = Vec::new();
            assert(pairs_view(none@) =~= Seq::<(Seq<char>, Seq<char>)>::empty());
            self.opt.commit_msg_with_external("Track external releases", &none, &external)
        };
        let mut args = strings(&["commit", "-m"]);
        assert(args.deep_view() =~= seq!["commit"@, "-m"@]);
        push_arg(&mut args, message);
        assert(args.deep_view() =~= commit_args(ctx, i));
        GitCommand { root: self.root, args }
    }

    /// How many packages the current repository has.
    fn package_count(&self) -> (n: usize)
        requires
            self.wf(),
            self.stage !is Finished,
        ensures
            n == repo_packages(self.context(), self.root as nat).len(),
    {
        self.count_of(self.root, self.repo)
    }

    /// The tag of package `k` of the current repository.
    fn package_tag(&self, k: usize) -> (r: String)
        requires
            self.wf(),
            self.stage !is Finished,
            k < repo_packages(self.context(), self.root as nat).len(),
        ensures
            r@ == package_tag(self.context(), self.root as nat, k as nat),
    {
        let ghost ctx = self.context();
        let j = match self.repo {
            Some(j) => j,
            None => {
                return String::new();
            },
        };
        let packages: &Vec<(String, RepoVersion)> = &self.new_versions[j].1;
        assert(repo_packages(ctx, self.root as nat) == packages_view(packages@));
        let root: &str = self.roots[self.root].as_str();
        self.opt.individual_tag(
            self.workspace_root,
            root,
            packages[k].0.as_str(),
            packages[k].1.version.as_str(),
            packages[k].1.independent,
        )
    }

    /// Reads the reply to the last command and says what comes next.
    pub fn step(&mut self, reply: &GitReply) -> (r: Step<()>)
        requires
            old(self).wf(),
            old(self)@.stage !is Finished,
        ensures
            final(self).wf(),
            final(self).context() == old(self).context(),
            (final(self)@, release_step_view(r)) == release_next(
                old(self).context(),
                old(self)@,
                reply@,
            ),
    {
        let ghost ctx = self.context();
        assert(order_view(self.order@)[self.pos as int] == self.root as nat);
        match self.stage {
            ReleaseStage::Add => {
                if !reply.success {
                    let e = GitError::NotAdded(reply.stdout.clone(), reply.stderr.clone());
                    return self.finish(Err(e));
                }
                self.stage = ReleaseStage::Diff;
                Step::Run(diff_command(self.root))
            },
            ReleaseStage::Diff => {
                if !reply.success {
                    return self.finish(Err(GitError::Bail));
                }
                if reply.stdout.as_str().is_empty() {
                    return self.next_root();
                }
                self.stage = ReleaseStage::Commit;
                Step::Run(self.commit_command())
            },
            ReleaseStage::Commit => {
                if !reply.success {
                    let e = GitError::NotCommitted(reply.stdout.clone(), reply.stderr.clone());
                    return self.finish(Err(e));
                }
                self.after_commit()
            },
            ReleaseStage::RepoTag => {
                if !reply.success {
                    let tag = match &self.repo_tag {
                        Some(t) => t.clone(),
                        None => String::new(),
                    };
                    let e = GitError::NotTagged(tag, reply.stdout.clone(), reply.stderr.clone());
                    return self.finish(Err(e));
                }
                self.after_repo_tag()
            },
            ReleaseStage::PackageTag(k) => {
                if !reply.success {
                    let tag = self.package_tag(k);
                    let e = GitError::NotTagged(tag, reply.stdout.clone(), reply.stderr.clone());
                    return self.finish(Err(e));
                }
                // k is below the number of packages, so k + 1 fits.
                let count = self.package_count();
                let next = if k < count {
                    k + 1
                } else {
                    count
                };
                self.tags_from(next)
            },
            ReleaseStage::Push => {
                if !reply.success {
                    let e = GitError::NotPushed(reply.stdout.clone(), reply.stderr.clone());
                    return self.finish(Err(e));
                }
                self.next_root()
            },
            ReleaseStage::Finished => self.finish(Err(GitError::Bail)),
        }
    }
}

/// `out` followed by the names and versions of the packages.
fn append_versions(out: Vec<(String, String)>, ps: &Vec<(String, RepoVersion)>) -> (r: Vec<
    (String, String),
>)
    ensures
        pairs_view(r@) == pairs_view(out@) + commit_versions(packages_view(ps@)),
{
    let mut r = out;
    let ghost start = pairs_view(r@);
    let ghost view = packages_view(ps@);
    let mut m: usize = 0;
    while m < ps.len()
        invariant
            view == packages_view(ps@),
            m <= ps@.len(),
            pairs_view(r@) == start + commit_versions(view.take(m as int)),
        decreases ps.len() - m,
    {
        let ghost before = r@;
        let name = ps[m].0.clone();
        let version = ps[m].1.version.clone();
        r.push((name, version));
        assert(r@ == before.push((name, version)));
        assert(view.take(m + 1) =~= view.take(m as int).push(package_view(ps@[m as int])));
        assert(pairs_view(r@) =~= pairs_view(before).push((name@, version@)));
        assert(pairs_view(r@) =~= start + commit_versions(view.take(m + 1)));
        m = m + 1;
    }
    assert(view.take(m as int) =~= view);
    r
}

} // verus!
