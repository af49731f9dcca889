//! What holds of every run of a release, whatever git replies: the order of
//! the repositories, which repositories take part, which tags are asked
//! for, progress, and the text of the release commits.

use vstd::prelude::*;

use crate::git::{
    release_lines, sectioned_msg_text, ReplyView, RepoVersion, StepView,
    GitOpt, WorkspaceConfig,
};
use crate::laws::{
    lemma_concat_no_percent, lemma_joined_no_percent, lemma_replaced_keeps_plain_prefix,
    lemma_replaced_plain, lemma_replaced_split, no_percent,
};
use crate::outside::same_path;
use crate::release::{
    at_workspace, common_version, commit_versions, external_packages, first_repo_from,
    message_template, next_active, next_package, package_skipped, picked, release_context,
    release_message, release_next, release_order, release_start, repo_active, repo_external,
    none_independent, repo_packages, repo_released, repo_tag, root_at, tracking_message, version_label,
    PackageView, ReleaseContext, ReleaseStage, ReleaseView,
};
use crate::text::{joined, replaced};

verus! {

/// What holds of the inputs of a release: one branch per repository when
/// pushing, and package lists that a `Vec` can hold.
pub open spec fn release_ctx_wf(ctx: ReleaseContext) -> bool {
    &&& !ctx.no_git_push ==> ctx.branches.len() == ctx.roots.len()
    &&& forall|j: int| 0 <= j < ctx.new_versions.len() ==> #[trigger] ctx.new_versions[j].1.len() <= usize::MAX
}

/// What holds of every state a release reaches.
pub open spec fn release_inv(ctx: ReleaseContext, v: ReleaseView) -> bool {
    let r = root_at(ctx, v.pos);
    &&& release_ctx_wf(ctx)
    &&& v.stage !is Finished ==> {
        &&& !ctx.no_git_commit
        &&& v.pos < release_order(ctx).len()
        &&& r < ctx.roots.len()
        &&& repo_active(ctx, r)
    }
    &&& v.stage is RepoTag ==> !ctx.no_git_tag && repo_released(ctx, r) && repo_tag(ctx, r) is Some
    &&& v.stage matches ReleaseStage::PackageTag(k) ==> {
        &&& !ctx.no_git_tag
        &&& ctx.individual_tags
        &&& repo_released(ctx, r)
        &&& k < repo_packages(ctx, r).len()
        &&& !package_skipped(ctx, r, k as nat)
    }
    &&& v.stage is Push ==> !ctx.no_git_push
}

/// The order of the stages of the release of one repository.
pub open spec fn release_rank(ctx: ReleaseContext, v: ReleaseView) -> nat {
    let n = repo_packages(ctx, root_at(ctx, v.pos)).len();
    match v.stage {
        ReleaseStage::Add => 0,
        ReleaseStage::Diff => 1,
        ReleaseStage::Commit => 2,
        ReleaseStage::RepoTag => 3,
        ReleaseStage::PackageTag(k) => 4 + k as nat,
        ReleaseStage::Push => 4 + n,
        ReleaseStage::Finished => 5 + n,
    }
}

/// The repositories picked among the first `n` are among them, and are
/// (or are not) the workspace's as asked.
pub proof fn lemma_picked(ctx: ReleaseContext, at_ws: bool, n: nat)
    ensures
        forall|q: int|
            0 <= q < picked(ctx, at_ws, n).len() ==> #[trigger] picked(ctx, at_ws, n)[q] < n
                && at_workspace(ctx, picked(ctx, at_ws, n)[q]) == at_ws,
    decreases n,
{
    if n > 0 {
        lemma_picked(ctx, at_ws, (n - 1) as nat);
        let p = picked(ctx, at_ws, (n - 1) as nat);
        assert forall|q: int| 0 <= q < picked(ctx, at_ws, n).len() implies #[trigger] picked(
            ctx,
            at_ws,
            n,
        )[q] < n && at_workspace(ctx, picked(ctx, at_ws, n)[q]) == at_ws by {
            if q < p.len() {
                assert(picked(ctx, at_ws, n)[q] == p[q]);
            }
        }
    }
}

/// Every position of the release order names a repository.
pub proof fn lemma_release_order_bounded(ctx: ReleaseContext)
    ensures
        forall|q: int|
            0 <= q < release_order(ctx).len() ==> #[trigger] release_order(ctx)[q] < ctx.roots.len(),
{
    let n = ctx.roots.len();
    lemma_picked(ctx, false, n);
    lemma_picked(ctx, true, n);
    let a = picked(ctx, false, n);
    assert forall|q: int| 0 <= q < release_order(ctx).len() implies #[trigger] release_order(
        ctx,
    )[q] < n by {
        if q < a.len() {
            assert(release_order(ctx)[q] == a[q]);
        } else {
            assert(release_order(ctx)[q] == picked(ctx, true, n)[q - a.len()]);
        }
    }
}

/// The workspace's repository is released after every other one, so that
/// its commit records their new commits.
pub proof fn lemma_workspace_released_last(ctx: ReleaseContext)
    ensures
        forall|a: int, b: int|
            0 <= a < b < release_order(ctx).len() && at_workspace(ctx, #[trigger] release_order(ctx)[a])
                ==> at_workspace(ctx, #[trigger] release_order(ctx)[b]),
{
    let n = ctx.roots.len();
    lemma_picked(ctx, false, n);
    lemma_picked(ctx, true, n);
    let p0 = picked(ctx, false, n);
    let p1 = picked(ctx, true, n);
    assert forall|a: int, b: int|
        0 <= a < b < release_order(ctx).len() && at_workspace(ctx, #[trigger] release_order(ctx)[a])
        implies at_workspace(ctx, #[trigger] release_order(ctx)[b]) by {
        if a < p0.len() {
            assert(release_order(ctx)[a] == p0[a]);
        }
        assert(release_order(ctx)[b] == p1[b - p0.len()]);
    }
}

/// The first position from `p` on that takes part is a position of the
/// order whose repository takes part.
pub proof fn lemma_next_active(ctx: ReleaseContext, p: nat)
    ensures
        next_active(ctx, p) matches Some(q) ==> p <= q < release_order(ctx).len() && repo_active(
            ctx,
            root_at(ctx, q),
        ),
    decreases release_order(ctx).len() - p,
{
    if p < release_order(ctx).len() && !repo_active(ctx, release_order(ctx)[p as int]) {
        lemma_next_active(ctx, p + 1);
    }
}

/// The first package from `k` on that is tagged is one whose tag is not
/// left out.
pub proof fn lemma_next_package(ctx: ReleaseContext, r: nat, k: nat)
    ensures
        next_package(ctx, r, k) matches Some(m) ==> {
            &&& k <= m < repo_packages(ctx, r).len()
            &&& !package_skipped(ctx, r, m)
        },
    decreases repo_packages(ctx, r).len() - k,
{
    if k < repo_packages(ctx, r).len() && package_skipped(ctx, r, k) {
        lemma_next_package(ctx, r, k + 1);
    }
}

/// The entry found for a repository is one of the entries.
pub proof fn lemma_first_repo_from(
    new_versions: Seq<(Seq<char>, Seq<PackageView>)>,
    root: Seq<char>,
    j: nat,
)
    ensures
        first_repo_from(new_versions, root, j) matches Some(m) ==> j <= m < new_versions.len(),
    decreases new_versions.len() - j,
{
    if j < new_versions.len() && !same_path(new_versions[j as int].0, root) {
        lemma_first_repo_from(new_versions, root, j + 1);
    }
}

/// The packages of a repository are few enough for a `Vec`.
pub proof fn lemma_repo_packages_bounded(ctx: ReleaseContext, r: nat)
    requires
        release_ctx_wf(ctx),
    ensures
        repo_packages(ctx, r).len() <= usize::MAX,
{
    lemma_first_repo_from(ctx.new_versions, ctx.roots[r as int], 0);
    if let Some(j) = first_repo_from(ctx.new_versions, ctx.roots[r as int], 0) {
        assert(ctx.new_versions[j as int].1.len() <= usize::MAX);
    }
}

/// The inputs that [`GitOpt::commit`] takes, with one branch per
/// repository when pushing, make a well-formed context.
pub proof fn lemma_release_context_wf(
    opt: GitOpt,
    roots: Vec<String>,
    workspace_root: Seq<char>,
    new_version: Option<String>,
    new_versions: Vec<(String, Vec<(String, RepoVersion)>)>,
    branches: Vec<String>,
    config: WorkspaceConfig,
)
    requires
        !opt.no_git_push ==> branches@.len() == roots@.len(),
    ensures
        release_ctx_wf(
            release_context(
                opt,
                roots@,
                workspace_root,
                new_version,
                new_versions@,
                branches@,
                config,
            ),
        ),
{
    let ctx = release_context(
        opt,
        roots@,
        workspace_root,
        new_version,
        new_versions@,
        branches@,
        config,
    );
    assert forall|j: int| 0 <= j < ctx.new_versions.len() implies #[trigger] ctx.new_versions[j].1.len()
        <= usize::MAX by {
        let v = new_versions@[j].1;
        assert(v.len() == v@.len());
    }
}

/// A release starts in a state where its invariant holds.
pub proof fn lemma_release_start(ctx: ReleaseContext)
    requires
        release_ctx_wf(ctx),
    ensures
        release_inv(ctx, release_start(ctx).0),
{
    lemma_next_active(ctx, 0);
    lemma_release_order_bounded(ctx);
}

/// Each step of a release keeps its invariant, runs its command in the
/// repository it is at, and moves on: to a later position of the order, or
/// to a later stage of the same repository.
pub proof fn lemma_release_step(ctx: ReleaseContext, v: ReleaseView, reply: ReplyView)
    requires
        release_inv(ctx, v),
        v.stage !is Finished,
    ensures
        release_inv(ctx, release_next(ctx, v, reply).0),
        release_next(ctx, v, reply).1 matches StepView::Run { root, args } ==> root == root_at(
            ctx,
            release_next(ctx, v, reply).0.pos,
        ) && root < ctx.roots.len(),
        release_next(ctx, v, reply).0.pos > v.pos || (release_next(ctx, v, reply).0.pos == v.pos
            && release_rank(ctx, release_next(ctx, v, reply).0) > release_rank(ctx, v)),
{
    let r = root_at(ctx, v.pos);
    lemma_repo_packages_bounded(ctx, r);
    lemma_release_order_bounded(ctx);
    lemma_next_active(ctx, v.pos + 1);
    lemma_next_package(ctx, r, 0);
    if let ReleaseStage::PackageTag(k) = v.stage {
        lemma_next_package(ctx, r, k as nat + 1);
    }
}

/// A release asks only for the tags of packages whose tags are not left
/// out: no tag of its own for the package at the workspace root when the
/// workspace's version is tagged, and none for the packages of another
/// repository whose version is tagged.
pub proof fn lemma_no_tag_for_skipped_package(
    ctx: ReleaseContext,
    v: ReleaseView,
    reply: ReplyView,
)
    requires
        release_inv(ctx, v),
        v.stage !is Finished,
    ensures
        release_next(ctx, v, reply).0.stage matches ReleaseStage::PackageTag(k) ==> {
            let r = root_at(ctx, release_next(ctx, v, reply).0.pos);
            &&& !package_skipped(ctx, r, k as nat)
            &&& at_workspace(ctx, r) ==> !(repo_tag(ctx, r) is Some && repo_packages(
                ctx,
                r,
            )[k as int].root)
            &&& !at_workspace(ctx, r) ==> repo_tag(ctx, r) is None
        },
{
    lemma_release_step(ctx, v, reply);
}

/// A repository's version is tagged only when it releases packages, such
/// tags and tagging are on, and it has a version: the workspace's in the
/// workspace's repository; in another, the one its packages share, when
/// package tags are on and none of its packages is independent.
pub proof fn lemma_repo_tag_only_where_due(ctx: ReleaseContext, v: ReleaseView, reply: ReplyView)
    requires
        release_inv(ctx, v),
        v.stage !is Finished,
    ensures
        release_next(ctx, v, reply).0.stage is RepoTag ==> {
            let r = root_at(ctx, release_next(ctx, v, reply).0.pos);
            &&& !ctx.no_git_tag
            &&& !ctx.no_global_tag
            &&& repo_released(ctx, r)
            &&& at_workspace(ctx, r) ==> ctx.new_version is Some
            &&& !at_workspace(ctx, r) ==> {
                &&& common_version(repo_packages(ctx, r)) is Some
                &&& ctx.individual_tags
                &&& none_independent(repo_packages(ctx, r))
            }
        },
{
    lemma_release_step(ctx, v, reply);
}

/// With tagging off no tag is asked for, and with pushing off no push.
pub proof fn lemma_switches_respected(ctx: ReleaseContext, v: ReleaseView, reply: ReplyView)
    requires
        release_inv(ctx, v),
        v.stage !is Finished,
    ensures
        ctx.no_git_tag ==> !(release_next(ctx, v, reply).0.stage is RepoTag)
            && !(release_next(ctx, v, reply).0.stage is PackageTag),
        ctx.no_git_push ==> !(release_next(ctx, v, reply).0.stage is Push),
{
    lemma_release_step(ctx, v, reply);
}

/// The workspace's repository takes part only when it releases packages,
/// or when a tracking commit is asked for and others release; only
/// repositories that release packages are tagged.
pub proof fn lemma_workspace_takes_part_only_when_due(
    ctx: ReleaseContext,
    v: ReleaseView,
    reply: ReplyView,
)
    requires
        release_inv(ctx, v),
        v.stage !is Finished,
    ensures
        !(release_next(ctx, v, reply).0.stage is Finished) ==> {
            let r = root_at(ctx, release_next(ctx, v, reply).0.pos);
            at_workspace(ctx, r) ==> {
                ||| repo_released(ctx, r)
                ||| ctx.root_tracking_commit && external_packages(ctx).len() > 0
            }
        },
        (release_next(ctx, v, reply).0.stage is RepoTag || release_next(
            ctx,
            v,
            reply,
        ).0.stage is PackageTag) ==> repo_released(
            ctx,
            root_at(ctx, release_next(ctx, v, reply).0.pos),
        ),
{
    lemma_release_step(ctx, v, reply);
}

/// A commit message is its template with `%v` replaced, then a line
/// break: for a one-line template and label, the first line is the
/// template with `%v` replaced.
pub proof fn lemma_message_first_line(ctx: ReleaseContext, r: nat)
    ensures
        exists|tail: Seq<char>|
            release_message(ctx, r) == replaced(message_template(ctx), "%v"@, version_label(ctx, r))
                + "\n"@ + tail,
{
    reveal_strlit("\n");
    reveal_strlit("\n\n");
    reveal_strlit("\n\nLocal Packages:\n");
    reveal_strlit("\n\nExternal Packages:\n");
    let t = message_template(ctx);
    let local = commit_versions(repo_packages(ctx, r));
    let ext = repo_external(ctx, r);
    let w = version_label(ctx, r);
    let text = sectioned_msg_text(t, local, ext);
    let rest = text.skip(t.len() as int);
    assert(text =~= t + rest);
    assert(rest.len() > 0 && rest[0] == '\n') by {
        if ext.len() == 0 {
            assert(rest[0] == "\n\n"@[0]);
        } else if local.len() == 0 {
            assert(rest[0] == "\n\nExternal Packages:\n"@[0]);
        } else {
            assert(rest[0] == "\n\nLocal Packages:\n"@[0]);
        }
    }
    lemma_replaced_split(t, rest, w);
    assert(rest =~= "\n"@ + rest.skip(1));
    assert(no_percent("\n"@));
    lemma_replaced_keeps_plain_prefix("\n"@, rest.skip(1), w);
    let tail = replaced(rest.skip(1), "%v"@, w);
    assert(release_message(ctx, r) =~= replaced(t, "%v"@, w) + "\n"@ + tail);
}

/// Replacing `%v` in `Release %v` followed by a text without `%` gives
/// `Release `, the label and that text.
pub proof fn lemma_release_template(rest: Seq<char>, w: Seq<char>)
    requires
        no_percent(rest),
    ensures
        replaced("Release %v"@ + rest, "%v"@, w) == "Release "@ + w + rest,
{
    reveal_strlit("Release %v");
    reveal_strlit("Release ");
    reveal_strlit("%v");
    assert("Release %v"@ + rest =~= "Release "@ + ("%v"@ + rest));
    assert(no_percent("Release "@));
    lemma_replaced_keeps_plain_prefix("Release "@, "%v"@ + rest, w);
    let x = "%v"@ + rest;
    assert(x.take(2) =~= "%v"@);
    assert(x.skip(2) =~= rest);
    lemma_replaced_plain(rest, w);
    assert("Release "@ + (w + rest) =~= "Release "@ + w + rest);
}

/// The `name@version` lines of packages without `%` hold no `%`.
pub proof fn lemma_lines_no_percent(ps: Seq<PackageView>)
    requires
        forall|k: int|
            0 <= k < ps.len() ==> no_percent(#[trigger] ps[k].name) && no_percent(ps[k].version),
    ensures
        no_percent(joined(release_lines(commit_versions(ps)), "\n"@)),
{
    reveal_strlit("@");
    reveal_strlit("\n");
    let lines = release_lines(commit_versions(ps));
    assert forall|k: int| 0 <= k < lines.len() implies no_percent(#[trigger] lines[k]) by {
        lemma_concat_no_percent(ps[k].name, "@"@);
        lemma_concat_no_percent(ps[k].name + "@"@, ps[k].version);
    }
    lemma_joined_no_percent(lines, "\n"@);
}

/// With the default message, the release commit of a repository other
/// than the workspace's whose packages share version `x` says
/// `Release <tag prefix><x>`, a blank line, its `name@version` lines, a
/// blank line and `Generated by cargo-workspaces` (when no package's name
/// or version holds `%`).
pub proof fn lemma_separate_repository_message(ctx: ReleaseContext, r: nat)
    requires
        ctx.message is None,
        !at_workspace(ctx, r),
        common_version(repo_packages(ctx, r)) is Some,
        forall|k: int|
            0 <= k < repo_packages(ctx, r).len() ==> no_percent(#[trigger] repo_packages(ctx, r)[k].name)
                && no_percent(repo_packages(ctx, r)[k].version),
    ensures
        release_message(ctx, r) == "Release "@ + ctx.tag_prefix + common_version(
            repo_packages(ctx, r),
        )->0 + "\n\n"@ + joined(release_lines(commit_versions(repo_packages(ctx, r))), "\n"@)
            + "\n\nGenerated by cargo-workspaces"@,
{
    reveal_strlit("\n\n");
    reveal_strlit("\n\nGenerated by cargo-workspaces");
    let ps = repo_packages(ctx, r);
    let body = joined(release_lines(commit_versions(ps)), "\n"@);
    lemma_lines_no_percent(ps);
    let rest = "\n\n"@ + body + "\n\nGenerated by cargo-workspaces"@;
    lemma_concat_no_percent("\n\n"@, body);
    lemma_concat_no_percent("\n\n"@ + body, "\n\nGenerated by cargo-workspaces"@);
    assert(sectioned_msg_text(message_template(ctx), commit_versions(ps), repo_external(ctx, r))
        =~= "Release %v"@ + rest);
    lemma_release_template(rest, version_label(ctx, r));
    assert("Release "@ + version_label(ctx, r) + rest =~= "Release "@ + ctx.tag_prefix
        + common_version(ps)->0 + "\n\n"@ + body + "\n\nGenerated by cargo-workspaces"@);
}

/// With the default message, the release commit of the workspace's
/// repository, when it and other repositories release, says `Release
/// <label>`, then a `Local Packages:` section with its own `name@version`
/// lines, an `External Packages:` section with the others', and
/// `Generated by cargo-workspaces` (when no package's name or version holds
/// `%`).
pub proof fn lemma_workspace_message_sections(ctx: ReleaseContext, r: nat)
    requires
        ctx.message is None,
        at_workspace(ctx, r),
        repo_packages(ctx, r).len() > 0,
        external_packages(ctx).len() > 0,
        forall|k: int|
            0 <= k < repo_packages(ctx, r).len() ==> no_percent(#[trigger] repo_packages(ctx, r)[k].name)
                && no_percent(repo_packages(ctx, r)[k].version),
        forall|k: int|
            0 <= k < external_packages(ctx).len() ==> no_percent(
                #[trigger] external_packages(ctx)[k].name,
            ) && no_percent(external_packages(ctx)[k].version),
    ensures
        release_message(ctx, r) == "Release "@ + version_label(ctx, r) + "\n\nLocal Packages:\n"@
            + joined(release_lines(commit_versions(repo_packages(ctx, r))), "\n"@)
            + "\n\nExternal Packages:\n"@ + joined(
            release_lines(commit_versions(external_packages(ctx))),
            "\n"@,
        ) + "\n\nGenerated by cargo-workspaces"@,
{
    reveal_strlit("\n\nLocal Packages:\n");
    reveal_strlit("\n\nExternal Packages:\n");
    reveal_strlit("\n\nGenerated by cargo-workspaces");
    let ps = repo_packages(ctx, r);
    let es = external_packages(ctx);
    let local = joined(release_lines(commit_versions(ps)), "\n"@);
    let ext = joined(release_lines(commit_versions(es)), "\n"@);
    lemma_lines_no_percent(ps);
    assert forall|k: int| 0 <= k < es.len() implies no_percent(#[trigger] es[k].name) && no_percent(
        es[k].version,
    ) by {
        assert(no_percent(external_packages(ctx)[k].name));
    }
    lemma_lines_no_percent(es);
    let a = "\n\nLocal Packages:\n"@;
    let b = "\n\nExternal Packages:\n"@;
    let c = "\n\nGenerated by cargo-workspaces"@;
    lemma_concat_no_percent(a, local);
    lemma_concat_no_percent(a + local, b);
    lemma_concat_no_percent(a + local + b, ext);
    lemma_concat_no_percent(a + local + b + ext, c);
    let rest = a + local + b + ext + c;
    assert(commit_versions(es).len() > 0);
    assert(sectioned_msg_text(message_template(ctx), commit_versions(ps), repo_external(ctx, r))
        =~= "Release %v"@ + rest);
    lemma_release_template(rest, version_label(ctx, r));
    assert("Release "@ + version_label(ctx, r) + rest =~= "Release "@ + version_label(ctx, r)
        + a + local + b + ext + c);
}

/// The tracking commit says `Track external releases`, then an
/// `External Packages:` section with the other repositories' releases and
/// `Generated by cargo-workspaces`.
pub proof fn lemma_tracking_message(ctx: ReleaseContext, r: nat)
    requires
        at_workspace(ctx, r),
        external_packages(ctx).len() > 0,
    ensures
        tracking_message(ctx, r) == "Track external releases"@ + "\n\nExternal Packages:\n"@
            + joined(release_lines(commit_versions(external_packages(ctx))), "\n"@)
            + "\n\nGenerated by cargo-workspaces"@,
{
    assert(commit_versions(external_packages(ctx)).len() > 0);
    assert(Seq::<char>::empty() + "\n\nExternal Packages:\n"@ =~= "\n\nExternal Packages:\n"@);
    assert("Track external releases"@ + Seq::<char>::empty() =~= "Track external releases"@);
}

/// With pushing on, a repository that was committed is pushed before the
/// release moves on: after a successful commit, and after each successful
/// tag, the release stays at that repository and asks for a tag or for the
/// push, whatever the tagging switches say; the repository's tag comes at
/// most once and package tags go forward through its packages, so the push
/// is reached.
pub proof fn lemma_committed_repository_is_pushed(ctx: ReleaseContext, v: ReleaseView, reply: ReplyView)
    requires
        release_inv(ctx, v),
        !ctx.no_git_push,
        reply.success,
        v.stage is Commit || v.stage is RepoTag || v.stage is PackageTag,
    ensures
        ({
            let w = release_next(ctx, v, reply).0;
            &&& w.pos == v.pos
            &&& w.stage is RepoTag || w.stage is PackageTag || w.stage is Push
            &&& v.stage !is Commit ==> w.stage !is RepoTag
            &&& w.stage matches ReleaseStage::PackageTag(k2) ==> {
                &&& k2 < repo_packages(ctx, root_at(ctx, v.pos)).len()
                &&& v.stage matches ReleaseStage::PackageTag(k) ==> k < k2
            }
            &&& w.stage is Push ==> release_next(ctx, v, reply).1 == StepView::<()>::Run {
                root: root_at(ctx, v.pos),
                args: seq![
                    "push"@,
                    "--follow-tags"@,
                    ctx.git_remote,
                    ctx.branches[root_at(ctx, v.pos) as int],
                ],
            }
        }),
{
    let r = root_at(ctx, v.pos);
    lemma_release_order_bounded(ctx);
    lemma_repo_packages_bounded(ctx, r);
    lemma_next_package(ctx, r, 0);
    if let ReleaseStage::PackageTag(k) = v.stage {
        lemma_next_package(ctx, r, k as nat + 1);
    }
}

/// In the workspace's repository, a package's own tag is left out exactly
/// when it is the root package and the workspace's version is tagged there
/// (global tags on and a workspace version given); every other package,
/// and with no workspace version every package, gets its tag step when the
/// package tags reach it.
pub proof fn lemma_workspace_package_tags(ctx: ReleaseContext, r: nat, k: nat)
    requires
        at_workspace(ctx, r),
        k < repo_packages(ctx, r).len(),
    ensures
        package_skipped(ctx, r, k) <==> (!ctx.no_global_tag && ctx.new_version is Some
            && repo_packages(ctx, r)[k as int].root),
        (next_package(ctx, r, k) == Some(k)) <==> !(!ctx.no_global_tag && ctx.new_version is Some
            && repo_packages(ctx, r)[k as int].root),
        ctx.new_version is None ==> next_package(ctx, r, k) == Some(k),
{
    lemma_next_package(ctx, r, k + 1);
}

} // verus!
