//! The tagging rules, facts about replacing `%v`, and what holds of every
//! run of the branch check, whatever git replies.

use vstd::prelude::*;

use crate::branch::{
    branch_accepted, check_next, check_start, check_wf, count_commits_args, resolved_allow_branch,
    CheckStage, CheckView,
};
use crate::text::{contains_seq, occurs_at, trim_end_seq, trim_start_seq, trimmed, white_space};
use crate::git::{
    repository_root_outcome, GitErrorView, individual_tag_text, skip_individual_tag, GitOpt, ReplyView, StepView, WorkspaceConfig,
};
use crate::outside::{glob_matches, glob_valid, same_path};
use crate::text::{joined, replaced};

verus! {

/// A package versioned independently and released from a repository other
/// than the workspace's is tagged with the plain tag prefix and its version.
pub proof fn lemma_independent_package_elsewhere_uses_tag_prefix(
    tag_prefix: Seq<char>,
    individual_tag_prefix: Seq<char>,
    workspace_root: Seq<char>,
    root: Seq<char>,
    pkg: Seq<char>,
    version: Seq<char>,
)
    requires
        !same_path(root, workspace_root),
    ensures
        individual_tag_text(
            tag_prefix,
            individual_tag_prefix,
            workspace_root,
            root,
            pkg,
            version,
            true,
        ) == tag_prefix + version,
{
}

/// Any other package, independent or not, is tagged with the package
/// prefix, its `%n` replaced by the package's name, and its version.
pub proof fn lemma_other_packages_use_package_prefix(
    tag_prefix: Seq<char>,
    individual_tag_prefix: Seq<char>,
    workspace_root: Seq<char>,
    root: Seq<char>,
    pkg: Seq<char>,
    version: Seq<char>,
    independent: bool,
)
    requires
        !independent || same_path(root, workspace_root),
    ensures
        individual_tag_text(
            tag_prefix,
            individual_tag_prefix,
            workspace_root,
            root,
            pkg,
            version,
            independent,
        ) == replaced(individual_tag_prefix, "%n"@, pkg) + version,
{
}

/// With the default package prefix `%n@`, a package's tag is
/// `name@version`.
pub proof fn lemma_default_package_prefix(pkg: Seq<char>)
    ensures
        replaced("%n@"@, "%n"@, pkg) == pkg + "@"@,
{
    reveal_strlit("%n@");
    reveal_strlit("%n");
    reveal_strlit("@");
    let s = "%n@"@;
    assert(s.take(2) =~= "%n"@);
    assert(s.skip(2) =~= "@"@);
    assert(replaced("@"@, "%n"@, pkg) == "@"@);
}

/// A package's tag is left out exactly when it is the package at the
/// workspace root, released from the workspace's repository, and the
/// workspace's version is tagged there.
pub proof fn lemma_skip_only_root_package_under_global_tag(
    workspace_root: Seq<char>,
    root: Seq<char>,
    is_root_package: bool,
    has_global_tag: bool,
)
    ensures
        skip_individual_tag(workspace_root, root, is_root_package, has_global_tag) <==> (
        has_global_tag && is_root_package && same_path(root, workspace_root)),
{
}

/// No character of `s` is `%`.
pub open spec fn no_percent(s: Seq<char>) -> bool {
    forall|i: int| 0 <= i < s.len() ==> s[i] != '%'
}

/// Replacing `%v` leaves a leading part without `%` as it is.
pub proof fn lemma_replaced_keeps_plain_prefix(a: Seq<char>, r: Seq<char>, w: Seq<char>)
    requires
        no_percent(a),
    ensures
        replaced(a + r, "%v"@, w) == a + replaced(r, "%v"@, w),
    decreases a.len(),
{
    reveal_strlit("%v");
    if a.len() == 0 {
        assert(a + r =~= r);
    } else {
        let s = a + r;
        if s.len() < 2 {
            assert(r.len() == 0);
            assert(replaced(r, "%v"@, w) == r);
        } else {
            assert(s.take(2)[0] == a[0]);
            assert(s.take(2) != "%v"@);
            assert(s.skip(1) =~= a.skip(1) + r);
            lemma_replaced_keeps_plain_prefix(a.skip(1), r, w);
            assert(seq![s[0]] + (a.skip(1) + replaced(r, "%v"@, w)) =~= a + replaced(r, "%v"@, w));
        }
    }
}

/// Replacing `%v` in two texts joined, where the second does not begin
/// with `v`, replaces it in each: no occurrence spans the join.
pub proof fn lemma_replaced_split(a: Seq<char>, b: Seq<char>, w: Seq<char>)
    requires
        b.len() == 0 || b[0] != 'v',
    ensures
        replaced(a + b, "%v"@, w) == replaced(a, "%v"@, w) + replaced(b, "%v"@, w),
    decreases a.len(),
{
    reveal_strlit("%v");
    let s = a + b;
    if a.len() == 0 {
        assert(s =~= b);
        assert(replaced(a, "%v"@, w) =~= Seq::<char>::empty());
    } else if a.len() == 1 {
        assert(replaced(a, "%v"@, w) == a);
        if s.len() < 2 {
            assert(b.len() == 0);
            assert(replaced(b, "%v"@, w) == b);
            assert(s =~= a);
        } else {
            assert(s.take(2)[1] == b[0]);
            assert(s.take(2) != "%v"@);
            assert(s.skip(1) =~= b);
            assert(seq![s[0]] =~= a);
        }
    } else {
        assert(s.take(2) =~= a.take(2));
        if a.take(2) == "%v"@ {
            assert(s.skip(2) =~= a.skip(2) + b);
            lemma_replaced_split(a.skip(2), b, w);
        } else {
            assert(s.skip(1) =~= a.skip(1) + b);
            lemma_replaced_split(a.skip(1), b, w);
        }
    }
}

/// Replacing `%v` in a text without `%` changes nothing.
pub proof fn lemma_replaced_plain(s: Seq<char>, w: Seq<char>)
    requires
        no_percent(s),
    ensures
        replaced(s, "%v"@, w) == s,
{
    lemma_replaced_keeps_plain_prefix(s, Seq::empty(), w);
    assert(s + Seq::<char>::empty() =~= s);
    reveal_strlit("%v");
    assert(replaced(Seq::<char>::empty(), "%v"@, w) == Seq::<char>::empty());
}

/// Pieces without `%`, joined by a separator without `%`, hold no `%`.
pub proof fn lemma_joined_no_percent(lines: Seq<Seq<char>>, sep: Seq<char>)
    requires
        no_percent(sep),
        forall|k: int| 0 <= k < lines.len() ==> no_percent(#[trigger] lines[k]),
    ensures
        no_percent(joined(lines, sep)),
    decreases lines.len(),
{
    if lines.len() > 1 {
        lemma_joined_no_percent(lines.drop_last(), sep);
        let a = joined(lines.drop_last(), sep);
        let j = a + sep + lines.last();
        assert forall|i: int| 0 <= i < j.len() implies j[i] != '%' by {
            if i < a.len() {
            } else if i < a.len() + sep.len() {
                assert(j[i] == sep[i - a.len()]);
            } else {
                assert(j[i] == lines.last()[i - a.len() - sep.len()]);
            }
        }
    }
}

/// Two texts without `%` make a text without `%`.
pub proof fn lemma_concat_no_percent(a: Seq<char>, b: Seq<char>)
    requires
        no_percent(a),
        no_percent(b),
    ensures
        no_percent(a + b),
{
    assert forall|i: int| 0 <= i < (a + b).len() implies (a + b)[i] != '%' by {
        if i >= a.len() {
            assert((a + b)[i] == b[i - a.len()]);
        }
    }
}

/// The order of the stages of the branch check of one root.
pub open spec fn check_rank(s: CheckStage) -> nat {
    match s {
        CheckStage::CountCommits => 0,
        CheckStage::ReadBranch => 1,
        CheckStage::ShowRemoteRef => 2,
        CheckStage::UpdateRemote => 3,
        CheckStage::CountBehind => 4,
        CheckStage::Finished => 5,
    }
}

/// The branch check starts in a state where its invariant holds.
pub proof fn lemma_check_start(opt: GitOpt, config: WorkspaceConfig, n_roots: nat)
    ensures
        check_wf(check_start(opt, config, n_roots).0),
{
}

/// Each step of the branch check keeps its invariant, runs its command in
/// the root it is at, and moves on: to a later root, or to a later stage of
/// the same root.
pub proof fn lemma_check_step(v: CheckView, reply: ReplyView)
    requires
        check_wf(v),
        v.stage !is Finished,
    ensures
        check_wf(check_next(v, reply).0),
        check_next(v, reply).1 matches StepView::Run { root, args } ==> root == check_next(
            v,
            reply,
        ).0.index && root < v.n_roots,
        check_next(v, reply).0.index > v.index || (check_next(v, reply).0.index == v.index
            && check_rank(check_next(v, reply).0.stage) > check_rank(v.stage)),
{
}

/// The branch check accepts a list of branches only when it holds one
/// branch per root and every one of them is a branch that the pattern in
/// force admits.
pub proof fn lemma_check_accepts_only_allowed_branches(v: CheckView, reply: ReplyView)
    requires
        check_wf(v),
        v.stage !is Finished,
    ensures
        check_next(v, reply).1 matches StepView::Done(Ok(branches)) ==> {
            &&& branches.len() == v.n_roots
            &&& forall|j: int|
                0 <= j < branches.len() ==> branch_accepted(#[trigger] branches[j], v.allow_branch)
        },
{
}

/// Without pushing, the branch check never asks the remote anything.
pub proof fn lemma_check_no_remote_without_push(v: CheckView, reply: ReplyView)
    requires
        check_wf(v),
        v.stage !is Finished,
        v.remote is None,
    ensures
        check_next(v, reply).0.remote is None,
        check_next(v, reply).0.stage is CountCommits || check_next(v, reply).0.stage is ReadBranch
            || check_next(v, reply).0.stage is Finished,
{
}

/// The check from state `v`, after step `s`, fed `replies` one per command
/// until it is done or the replies run out: its state and last step.
pub open spec fn check_run(
    v: CheckView,
    s: StepView<Seq<Seq<char>>>,
    replies: Seq<ReplyView>,
) -> (CheckView, StepView<Seq<Seq<char>>>)
    decreases replies.len(),
{
    if replies.len() > 0 && s is Run {
        let (w, t) = check_next(v, replies[0]);
        check_run(w, t, replies.skip(1))
    } else {
        (v, s)
    }
}

/// Feeding two lists of replies in turn is feeding them joined.
pub proof fn lemma_check_run_concat(
    v: CheckView,
    s: StepView<Seq<Seq<char>>>,
    a: Seq<ReplyView>,
    b: Seq<ReplyView>,
)
    ensures
        check_run(v, s, a + b) == check_run(check_run(v, s, a).0, check_run(v, s, a).1, b),
    decreases a.len(),
{
    if a.len() == 0 {
        assert(a + b =~= b);
    } else if s is Run {
        let (w, t) = check_next(v, a[0]);
        assert((a + b).skip(1) =~= a.skip(1) + b);
        assert((a + b)[0] == a[0]);
        lemma_check_run_concat(w, t, a.skip(1), b);
    } else {
        assert((a + b).len() > 0);
    }
}

/// The replies git gives for a root that passes the check with branch `b`:
/// it has commits, `b` is checked out and admitted by the pattern, and, when
/// comparing with a remote, the remote has `b` and the local branch lacks
/// none of its commits.
pub open spec fn root_passes(
    rs: Seq<ReplyView>,
    b: Seq<char>,
    allow_branch: Seq<char>,
    remote: Option<Seq<char>>,
) -> bool {
    &&& rs.len() == if remote is Some {
        5int
    } else {
        2int
    }
    &&& !contains_seq(rs[0].stderr, "not a git repository"@)
    &&& rs[0].stdout != "0"@
    &&& rs[1].stdout == b
    &&& branch_accepted(b, allow_branch)
    &&& remote is Some ==> rs[2].stdout.len() > 0 && rs[4].stdout == "0"@
}

/// A root that passes takes the check from its first command to the first
/// command of the next root, or to the end with every root's branch.
proof fn lemma_root_passes(
    v: CheckView,
    rs: Seq<ReplyView>,
    b: Seq<char>,
    bs: Seq<Seq<char>>,
)
    requires
        v.stage is CountCommits,
        v.index < v.n_roots,
        v.n_roots == bs.len(),
        v.branches == bs.take(v.index as int),
        bs[v.index as int] == b,
        root_passes(rs, b, v.allow_branch, v.remote),
    ensures
        ({
            let (w, t) = check_run(v, StepView::Run { root: v.index, args: count_commits_args() }, rs);
            if v.index + 1 < v.n_roots {
                &&& w.stage is CountCommits
                &&& w.index == v.index + 1
                &&& w.branches == bs.take(v.index as int + 1)
                &&& w.n_roots == v.n_roots
                &&& w.allow_branch == v.allow_branch
                &&& w.remote == v.remote
                &&& t == StepView::<Seq<Seq<char>>>::Run { root: v.index + 1, args: count_commits_args() }
            } else {
                t == StepView::<Seq<Seq<char>>>::Done(Ok(bs))
            }
        }),
{
    reveal_strlit("HEAD");
    let s0 = StepView::<Seq<Seq<char>>>::Run { root: v.index, args: count_commits_args() };
    assert(bs.take(v.index as int).push(b) =~= bs.take(v.index as int + 1));
    if v.index + 1 >= v.n_roots {
        assert(bs.take(v.index as int + 1) =~= bs);
    }
    let (v1, s1) = check_next(v, rs[0]);
    assert(check_run(v, s0, rs) == check_run(v1, s1, rs.skip(1)));
    let (v2, s2) = check_next(v1, rs.skip(1)[0]);
    assert(rs.skip(1)[0] == rs[1]);
    assert(check_run(v1, s1, rs.skip(1)) == check_run(v2, s2, rs.skip(1).skip(1)));
    if v.remote is None {
        assert(rs.skip(1).skip(1).len() == 0);
    } else {
        let r2 = rs.skip(1).skip(1);
        assert(r2[0] == rs[2]);
        let (v3, s3) = check_next(v2, r2[0]);
        assert(check_run(v2, s2, r2) == check_run(v3, s3, r2.skip(1)));
        let r3 = r2.skip(1);
        assert(r3[0] == rs[3]);
        let (v4, s4) = check_next(v3, r3[0]);
        assert(check_run(v3, s3, r3) == check_run(v4, s4, r3.skip(1)));
        let r4 = r3.skip(1);
        assert(r4[0] == rs[4]);
        let (v5, s5) = check_next(v4, r4[0]);
        assert(check_run(v4, s4, r4) == check_run(v5, s5, r4.skip(1)));
        assert(r4.skip(1).len() == 0);
    }
}

/// From the first command of root `i`, roots that all pass lead the check
/// to the end with every root's branch.
proof fn lemma_roots_pass_from(
    v: CheckView,
    groups: Seq<Seq<ReplyView>>,
    bs: Seq<Seq<char>>,
)
    requires
        v.stage is CountCommits,
        v.index < v.n_roots,
        v.n_roots == bs.len(),
        groups.len() == bs.len(),
        v.branches == bs.take(v.index as int),
        forall|i: int|
            0 <= i < groups.len() ==> root_passes(#[trigger] groups[i], bs[i], v.allow_branch, v.remote),
    ensures
        check_run(
            v,
            StepView::Run { root: v.index, args: count_commits_args() },
            groups.skip(v.index as int).flatten(),
        ).1 == StepView::<Seq<Seq<char>>>::Done(Ok(bs)),
    decreases v.n_roots - v.index,
{
    let i = v.index as int;
    let s0 = StepView::<Seq<Seq<char>>>::Run { root: v.index, args: count_commits_args() };
    let g = groups[i];
    let rest = groups.skip(i + 1).flatten();
    assert(groups.skip(i).first() == g);
    assert(groups.skip(i).drop_first() =~= groups.skip(i + 1));
    assert(groups.skip(i).flatten() == g + rest);
    lemma_check_run_concat(v, s0, g, rest);
    lemma_root_passes(v, g, bs[i], bs);
    let (w, t) = check_run(v, s0, g);
    if v.index + 1 < v.n_roots {
        lemma_roots_pass_from(w, groups, bs);
    } else {
        assert(groups.skip(i + 1) =~= Seq::<Seq<ReplyView>>::empty());
        assert(rest.len() == 0);
    }
}

/// When every root passes, the check, fed git's replies root by root,
/// returns the branch git reported for each root, in the order of the
/// roots.
pub proof fn lemma_check_returns_reported_branches(
    opt: GitOpt,
    config: WorkspaceConfig,
    groups: Seq<Seq<ReplyView>>,
    bs: Seq<Seq<char>>,
)
    requires
        !opt.no_git_commit,
        bs.len() > 0,
        groups.len() == bs.len(),
        forall|i: int|
            0 <= i < groups.len() ==> root_passes(
                #[trigger] groups[i],
                bs[i],
                resolved_allow_branch(opt, config),
                if opt.no_git_push {
                    None
                } else {
                    Some(opt.git_remote@)
                },
            ),
    ensures
        ({
            let (v, s) = check_start(opt, config, bs.len());
            check_run(v, s, groups.flatten()).1 == StepView::<Seq<Seq<char>>>::Done(Ok(bs))
        }),
{
    let (v, s) = check_start(opt, config, bs.len());
    assert(bs.take(0) =~= Seq::<Seq<char>>::empty());
    assert(groups.skip(0) =~= groups);
    lemma_roots_pass_from(v, groups, bs);
}


/// From the first command of root `i`, roots `i` up to `groups.len()` that
/// all pass bring the check to the first command of root `groups.len()`,
/// holding their branches.
proof fn lemma_roots_pass_upto(v: CheckView, groups: Seq<Seq<ReplyView>>, bs: Seq<Seq<char>>)
    requires
        v.stage is CountCommits,
        v.index <= groups.len(),
        groups.len() == bs.len(),
        bs.len() < v.n_roots,
        v.branches == bs.take(v.index as int),
        forall|i: int|
            0 <= i < groups.len() ==> root_passes(#[trigger] groups[i], bs[i], v.allow_branch, v.remote),
    ensures
        ({
            let (w, t) = check_run(
                v,
                StepView::Run { root: v.index, args: count_commits_args() },
                groups.skip(v.index as int).flatten(),
            );
            &&& w.stage is CountCommits
            &&& w.index == bs.len()
            &&& w.branches == bs
            &&& w.n_roots == v.n_roots
            &&& w.allow_branch == v.allow_branch
            &&& w.remote == v.remote
            &&& t == StepView::<Seq<Seq<char>>>::Run { root: bs.len(), args: count_commits_args() }
        }),
    decreases groups.len() - v.index,
{
    let i = v.index as int;
    let s0 = StepView::<Seq<Seq<char>>>::Run { root: v.index, args: count_commits_args() };
    if i == groups.len() {
        assert(groups.skip(i) =~= Seq::<Seq<ReplyView>>::empty());
        assert(groups.skip(i).flatten().len() == 0);
        assert(bs.take(i) =~= bs);
    } else {
        let full = bs + Seq::new((v.n_roots - bs.len()) as nat, |j: int| Seq::<char>::empty());
        assert(full.take(i) =~= bs.take(i));
        assert(full.take(i + 1) =~= bs.take(i + 1));
        assert(full[i] == bs[i]);
        let g = groups[i];
        let rest = groups.skip(i + 1).flatten();
        assert(groups.skip(i).first() == g);
        assert(groups.skip(i).drop_first() =~= groups.skip(i + 1));
        assert(groups.skip(i).flatten() == g + rest);
        lemma_check_run_concat(v, s0, g, rest);
        lemma_root_passes(v, g, bs[i], full);
        let (w, t) = check_run(v, s0, g);
        lemma_roots_pass_upto(w, groups, bs);
    }
}

/// Roots are checked in their order: when the first roots pass, the check
/// reaches the next root holding their branches, and when that root's
/// replies end the check, the whole run ends as they do, whatever replies
/// would follow. So a refused release reports the first root that fails.
pub proof fn lemma_check_stops_at_first_failing_root(
    opt: GitOpt,
    config: WorkspaceConfig,
    n_roots: nat,
    groups: Seq<Seq<ReplyView>>,
    bs: Seq<Seq<char>>,
    failing: Seq<ReplyView>,
    later: Seq<ReplyView>,
)
    requires
        !opt.no_git_commit,
        groups.len() == bs.len(),
        bs.len() < n_roots,
        forall|i: int|
            0 <= i < groups.len() ==> root_passes(
                #[trigger] groups[i],
                bs[i],
                resolved_allow_branch(opt, config),
                if opt.no_git_push {
                    None
                } else {
                    Some(opt.git_remote@)
                },
            ),
    ensures
        ({
            let (v, s) = check_start(opt, config, n_roots);
            let (w, t) = check_run(v, s, groups.flatten());
            &&& w.stage is CountCommits
            &&& w.index == bs.len()
            &&& w.branches == bs
            &&& t == StepView::<Seq<Seq<char>>>::Run { root: bs.len(), args: count_commits_args() }
            &&& check_run(w, t, failing).1 is Done ==> check_run(
                v,
                s,
                groups.flatten() + failing + later,
            ).1 == check_run(w, t, failing).1
        }),
{
    let (v, s) = check_start(opt, config, n_roots);
    assert(bs.take(0) =~= Seq::<Seq<char>>::empty());
    assert(groups.skip(0) =~= groups);
    lemma_roots_pass_upto(v, groups, bs);
    let (w, t) = check_run(v, s, groups.flatten());
    lemma_check_run_concat(v, s, groups.flatten(), failing);
    lemma_check_run_concat(v, s, groups.flatten() + failing, later);
    let (x, u) = check_run(w, t, failing);
    if u is Done {
        lemma_check_run_done(x, u, later);
    }
}

/// A check that is done reads no more replies.
proof fn lemma_check_run_done(v: CheckView, s: StepView<Seq<Seq<char>>>, replies: Seq<ReplyView>)
    requires
        s is Done,
    ensures
        check_run(v, s, replies) == (v, s),
{
}

/// A branch read from git is tested against the pattern by its own name:
/// it is refused as not allowed exactly when the pattern compiles and does
/// not match that name. Only `main` under the pattern `master` is tested
/// as `master`.
pub proof fn lemma_branch_tested_by_own_name(v: CheckView, reply: ReplyView)
    requires
        v.stage is ReadBranch,
        reply.stdout != "HEAD"@,
    ensures
        ({
            let b = reply.stdout;
            let p = v.allow_branch;
            let t = check_next(v, reply).1;
            &&& !(b == "main"@ && p == "master"@) ==> {
                &&& (t == StepView::<Seq<Seq<char>>>::Done(
                    Err(GitErrorView::BranchNotAllowed { branch: b, pattern: p }),
                )) <==> (glob_valid(p) && !glob_matches(p, b))
                &&& (glob_valid(p) && glob_matches(p, b)) ==> !(t matches StepView::Done(Err(_)))
            }
            &&& (b == "main"@ && p == "master"@) ==> (!(t matches StepView::Done(Err(_))) <==> (
            glob_valid(p) && glob_matches(p, "master"@)))
            &&& !(t matches StepView::Done(Err(_))) ==> {
                &&& t matches StepView::Done(Ok(bs)) ==> bs == v.branches.push(b)
                &&& t is Run ==> check_next(v, reply).0.branches == v.branches.push(b)
            }
        }),
{
}

/// Where the leading white space of `s` ends.
proof fn trim_start_index(s: Seq<char>) -> (i: int)
    ensures
        0 <= i <= s.len(),
        trim_start_seq(s) == s.skip(i),
        forall|k: int| 0 <= k < i ==> white_space(#[trigger] s[k]),
        i < s.len() ==> !white_space(s[i]),
    decreases s.len(),
{
    if s.len() > 0 && white_space(s[0]) {
        let i1 = trim_start_index(s.skip(1));
        assert(s.skip(1).skip(i1) =~= s.skip(i1 + 1));
        assert forall|k: int| 0 <= k < i1 + 1 implies white_space(#[trigger] s[k]) by {
            if k > 0 {
                assert(s[k] == s.skip(1)[k - 1]);
            }
        }
        if i1 + 1 < s.len() {
            assert(s[i1 + 1] == s.skip(1)[i1]);
        }
        i1 + 1
    } else {
        assert(s.skip(0) =~= s);
        0
    }
}

/// Where the trailing white space of `t` begins.
proof fn trim_end_index(t: Seq<char>) -> (j: int)
    ensures
        0 <= j <= t.len(),
        trim_end_seq(t) == t.take(j),
        forall|k: int| j <= k < t.len() ==> white_space(#[trigger] t[k]),
        j > 0 ==> !white_space(t[j - 1]),
    decreases t.len(),
{
    if t.len() > 0 && white_space(t.last()) {
        let d = t.drop_last();
        let j1 = trim_end_index(d);
        assert(d.take(j1) =~= t.take(j1));
        assert forall|k: int| j1 <= k < t.len() implies white_space(#[trigger] t[k]) by {
            if k < t.len() - 1 {
                assert(t[k] == d[k]);
            }
        }
        if j1 > 0 {
            assert(t[j1 - 1] == d[j1 - 1]);
        }
        j1
    } else {
        assert(t.take(t.len() as int) =~= t);
        t.len() as int
    }
}

/// Trimming keeps one contiguous piece of the text and removes only white
/// space around it: everything before and after the piece is white space,
/// and the piece, when not empty, starts and ends with a character that is
/// not. So line breaks inside the text are kept.
pub proof fn lemma_trim_keeps_inner_piece(s: Seq<char>)
    ensures
        exists|i: int, j: int|
            #![trigger s.subrange(i, j)]
            0 <= i <= j <= s.len() && trimmed(s) == s.subrange(i, j) && (forall|k: int|
                0 <= k < i ==> white_space(#[trigger] s[k])) && (forall|k: int|
                j <= k < s.len() ==> white_space(#[trigger] s[k])) && (i < j ==> !white_space(s[i])
                && !white_space(s[j - 1])),
{
    let i = trim_start_index(s);
    let t = s.skip(i);
    let j1 = trim_end_index(t);
    let j = i + j1;
    assert(t.take(j1) =~= s.subrange(i, j));
    assert forall|k: int| j <= k < s.len() implies white_space(#[trigger] s[k]) by {
        assert(s[k] == t[k - i]);
    }
    if i < j {
        assert(s[j - 1] == t[j1 - 1]);
    }
    assert(trimmed(s) == s.subrange(i, j));
}

/// The root of the repository is what git printed, unless its error output
/// says, anywhere in it, `not a git repository`; nothing else git writes to
/// its error output changes the answer.
pub proof fn lemma_repository_root_reads_phrase(reply: ReplyView)
    ensures
        (exists|i: int|
            0 <= i && i + "not a git repository"@.len() <= reply.stderr.len() && #[trigger] reply.stderr.subrange(
                i,
                i + "not a git repository"@.len(),
            ) == "not a git repository"@) ==> repository_root_outcome(reply) == Err::<
            Seq<char>,
            GitErrorView,
        >(GitErrorView::NotGit),
        !(exists|i: int|
            0 <= i && i + "not a git repository"@.len() <= reply.stderr.len() && #[trigger] reply.stderr.subrange(
                i,
                i + "not a git repository"@.len(),
            ) == "not a git repository"@) ==> repository_root_outcome(reply) == Ok::<
            Seq<char>,
            GitErrorView,
        >(reply.stdout),
{
    let e = reply.stderr;
    let needle = "not a git repository"@;
    if exists|i: int|
        0 <= i && i + needle.len() <= e.len() && #[trigger] e.subrange(i, i + needle.len()) == needle {
        let i = choose|i: int|
            0 <= i && i + needle.len() <= e.len() && #[trigger] e.subrange(i, i + needle.len()) == needle;
        assert(occurs_at(e, needle, i));
    }
    if contains_seq(e, needle) {
        let i = choose|i: int| occurs_at(e, needle, i);
        assert(e.subrange(i, i + needle.len()) == needle);
    }
}

} // verus!
