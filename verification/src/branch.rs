//! Checking, before a release, that every repository is on a branch that
//! releases may be made from and, when pushing, level with its remote.
//!
//! The check is a state machine: [`GitOpt::validate`] starts it and asks for
//! the first git command, and [`BranchCheck::step`] reads each reply and asks
//! for the next command, until it is done with the branch of each root or
//! with the reason for refusing.

use vstd::prelude::*;

use crate::args::{push_arg, strings};
use crate::git::{
    command_view, opt_text, GitCommand, GitError, GitErrorView, GitOpt, GitReply, ReplyView,
    Step, StepView, WorkspaceConfig,
};
use crate::outside::{glob_is_match, glob_matches, glob_valid};
use crate::text::{contains_seq, contains_text, text_eq};

verus! {

/// Where the check of the current root stands.
#[derive(Clone, Copy, Debug, PartialEq, Eq)]
pub enum CheckStage {
    /// Asked whether the repository has a commit.
    CountCommits,
    /// Asked for the checked-out branch.
    ReadBranch,
    /// Asked whether the remote has the branch.
    ShowRemoteRef,
    /// Asked to fetch the remote.
    UpdateRemote,
    /// Asked how many commits of the remote branch the local one lacks.
    CountBehind,
    /// Done; no more commands.
    Finished,
}

/// The state of a [`BranchCheck`], with texts taken as sequences.
pub struct CheckView {
    /// The pattern that branches must match.
    pub allow_branch: Seq<char>,
    /// The remote to compare with, when pushing.
    pub remote: Option<Seq<char>>,
    /// How many roots there are.
    pub n_roots: nat,
    /// The root being checked.
    pub index: nat,
    pub stage: CheckStage,
    /// The branch of the root being checked, once read.
    pub branch: Seq<char>,
    /// The branches of the roots accepted so far.
    pub branches: Seq<Seq<char>>,
}

/// The check of the branches of a list of roots, under way.
pub struct BranchCheck {
    allow_branch: String,
    remote: Option<String>,
    n_roots: usize,
    index: usize,
    stage: CheckStage,
    branch: String,
    branches: Vec<String>,
}

impl View for BranchCheck {
    type V = CheckView;

    closed spec fn view(&self) -> CheckView {
        CheckView {
            allow_branch: self.allow_branch@,
            remote: opt_text(self.remote),
            n_roots: self.n_roots as nat,
            index: self.index as nat,
            stage: self.stage,
            branch: self.branch@,
            branches: self.branches.deep_view(),
        }
    }
}

/// `git rev-list --count --all --max-count=1`
pub open spec fn count_commits_args() -> Seq<Seq<char>> {
    seq!["rev-list"@, "--count"@, "--all"@, "--max-count=1"@]
}

/// `git rev-parse --abbrev-ref HEAD`
pub open spec fn read_branch_args() -> Seq<Seq<char>> {
    seq!["rev-parse"@, "--abbrev-ref"@, "HEAD"@]
}

/// The name of the branch on the remote: `remote/branch`.
pub open spec fn remote_branch(remote: Seq<char>, branch: Seq<char>) -> Seq<char> {
    remote + "/"@ + branch
}

/// `git show-ref --verify refs/remotes/<remote branch>`
pub open spec fn show_ref_args(remote_branch: Seq<char>) -> Seq<Seq<char>> {
    seq!["show-ref"@, "--verify"@, "refs/remotes/"@ + remote_branch]
}

/// `git remote update`
pub open spec fn remote_update_args() -> Seq<Seq<char>> {
    seq!["remote"@, "update"@]
}

/// `git rev-list --left-only --count <remote branch>...<branch>`
pub open spec fn count_behind_args(remote_branch: Seq<char>, branch: Seq<char>) -> Seq<Seq<char>> {
    seq!["rev-list"@, "--left-only"@, "--count"@, remote_branch + "..."@ + branch]
}

/// The branch name that is matched against the pattern: `main` counts as
/// `master` when the pattern is `master`.
pub open spec fn branch_under_test(branch: Seq<char>, allow_branch: Seq<char>) -> Seq<char> {
    if branch == "main"@ && allow_branch == "master"@ {
        "master"@
    } else {
        branch
    }
}

/// A branch that releases may be made from: a branch (not a detached HEAD)
/// that the pattern, which must compile, matches.
pub open spec fn branch_accepted(branch: Seq<char>, allow_branch: Seq<char>) -> bool {
    &&& branch != "HEAD"@
    &&& glob_valid(allow_branch)
    &&& glob_matches(allow_branch, branch_under_test(branch, allow_branch))
}

/// The pattern in force: the option's, else the workspace's, else `master`.
pub open spec fn resolved_allow_branch(opt: GitOpt, config: WorkspaceConfig) -> Seq<char> {
    match opt.allow_branch {
        Some(a) => a@,
        None => match config.allow_branch {
            Some(a) => a@,
            None => "master"@,
        },
    }
}

/// What holds of the check's state between steps.
pub open spec fn check_wf(v: CheckView) -> bool {
    &&& v.stage !is Finished ==> v.index < v.n_roots
    &&& (v.stage is CountCommits || v.stage is ReadBranch) ==> v.branches.len() == v.index
    &&& (v.stage is ShowRemoteRef || v.stage is UpdateRemote || v.stage is CountBehind) ==> {
        &&& v.remote is Some
        &&& v.branches.len() == v.index + 1
        &&& v.branches.last() == v.branch
    }
    &&& forall|j: int| 0 <= j < v.branches.len() ==> branch_accepted(#[trigger] v.branches[j], v.allow_branch)
}

/// The check stopped with `outcome`.
pub open spec fn check_finish(v: CheckView, outcome: Result<Seq<Seq<char>>, GitErrorView>) -> (
    CheckView,
    StepView<Seq<Seq<char>>>,
) {
    (CheckView { stage: CheckStage::Finished, branches: Seq::empty(), ..v }, StepView::Done(outcome))
}

/// The current root passed: go on with the next one, or finish with the
/// branches of all of them.
pub open spec fn check_next_root(v: CheckView) -> (CheckView, StepView<Seq<Seq<char>>>) {
    if v.index + 1 < v.n_roots {
        (
            CheckView { index: v.index + 1, stage: CheckStage::CountCommits, ..v },
            StepView::Run { root: v.index + 1, args: count_commits_args() },
        )
    } else {
        check_finish(v, Ok(v.branches))
    }
}

/// How the check starts.
pub open spec fn check_start(opt: GitOpt, config: WorkspaceConfig, n_roots: nat) -> (
    CheckView,
    StepView<Seq<Seq<char>>>,
) {
    let v = CheckView {
        allow_branch: resolved_allow_branch(opt, config),
        remote: if opt.no_git_push {
            None
        } else {
            Some(opt.git_remote@)
        },
        n_roots,
        index: 0,
        stage: CheckStage::CountCommits,
        branch: Seq::empty(),
        branches: Seq::empty(),
    };
    if opt.no_git_commit || n_roots == 0 {
        check_finish(v, Ok(Seq::empty()))
    } else {
        (v, StepView::Run { root: 0, args: count_commits_args() })
    }
}

/// How the check goes on from state `v` after `reply`.
pub open spec fn check_next(v: CheckView, reply: ReplyView) -> (CheckView, StepView<Seq<Seq<char>>>) {
    let rb = remote_branch(v.remote->0, v.branch);
    match v.stage {
        CheckStage::CountCommits => {
            if contains_seq(reply.stderr, "not a git repository"@) {
                check_finish(v, Err(GitErrorView::NotGit))
            } else if reply.stdout == "0"@ {
                check_finish(v, Err(GitErrorView::NoCommits))
            } else {
                (
                    CheckView { stage: CheckStage::ReadBranch, ..v },
                    StepView::Run { root: v.index, args: read_branch_args() },
                )
            }
        },
        CheckStage::ReadBranch => {
            let b = reply.stdout;
            if b == "HEAD"@ {
                check_finish(v, Err(GitErrorView::NotBranch))
            } else if !glob_valid(v.allow_branch) {
                check_finish(v, Err(GitErrorView::InvalidGlob { pattern: v.allow_branch }))
            } else if !glob_matches(v.allow_branch, branch_under_test(b, v.allow_branch)) {
                check_finish(
                    v,
                    Err(GitErrorView::BranchNotAllowed { branch: b, pattern: v.allow_branch }),
                )
            } else {
                let w = CheckView { branch: b, branches: v.branches.push(b), ..v };
                match v.remote {
                    None => check_next_root(w),
                    Some(r) => (
                        CheckView { stage: CheckStage::ShowRemoteRef, ..w },
                        StepView::Run {
                            root: v.index,
                            args: show_ref_args(remote_branch(r, b)),
                        },
                    ),
                }
            }
        },
        CheckStage::ShowRemoteRef => {
            if reply.stdout.len() == 0 {
                check_finish(
                    v,
                    Err(GitErrorView::NoRemote { remote: v.remote->0, branch: v.branch }),
                )
            } else {
                (
                    CheckView { stage: CheckStage::UpdateRemote, ..v },
                    StepView::Run { root: v.index, args: remote_update_args() },
                )
            }
        },
        CheckStage::UpdateRemote => (
            CheckView { stage: CheckStage::CountBehind, ..v },
            StepView::Run { root: v.index, args: count_behind_args(rb, v.branch) },
        ),
        CheckStage::CountBehind => {
            if reply.stdout != "0"@ {
                check_finish(
                    v,
                    Err(GitErrorView::BehindRemote { branch: v.branch, upstream: rb }),
                )
            } else {
                check_next_root(v)
            }
        },
        CheckStage::Finished => check_finish(v, Err(GitErrorView::Bail)),
    }
}

/// The view of a step of the check.
pub open spec fn check_step_view(s: Step<Vec<String>>) -> StepView<Seq<Seq<char>>> {
    match s {
        Step::Run(c) => command_view(c),
        Step::Done(Ok(b)) => StepView::Done(Ok(b.deep_view())),
        Step::Done(Err(e)) => StepView::Done(Err(e@)),
    }
}

/// `git rev-list --count --all --max-count=1` in root `root`.
fn count_commits_command(root: usize) -> (c: GitCommand)
    ensures
        c.root == root,
        c.args.deep_view() == count_commits_args(),
{
    let args = strings(&["rev-list", "--count", "--all", "--max-count=1"]);
    assert(args.deep_view() =~= count_commits_args());
    GitCommand { root, args }
}

/// `git rev-parse --abbrev-ref HEAD` in root `root`.
fn read_branch_command(root: usize) -> (c: GitCommand)
    ensures
        c.root == root,
        c.args.deep_view() == read_branch_args(),
{
    let args = strings(&["rev-parse", "--abbrev-ref", "HEAD"]);
    assert(args.deep_view() =~= read_branch_args());
    GitCommand { root, args }
}

/// `git remote update` in root `root`.
fn remote_update_command(root: usize) -> (c: GitCommand)
    ensures
        c.root == root,
        c.args.deep_view() == remote_update_args(),
{
    let args = strings(&["remote", "update"]);
    assert(args.deep_view() =~= remote_update_args());
    GitCommand { root, args }
}

impl GitOpt {
    /// Starts checking the branches of the repositories at `roots`: none are
    /// checked when commits are switched off.
    pub fn validate(&self, roots: &Vec<String>, config: &WorkspaceConfig) -> (r: (
        BranchCheck,
        Step<Vec<String>>,
    ))
        ensures
            check_wf(r.0@),
            (r.0@, check_step_view(r.1)) == check_start(*self, *config, roots@.len()),
    {
        let allow_branch = match &self.allow_branch {
            Some(a) => a.clone(),
            None => match &config.allow_branch {
                Some(a) => a.clone(),
                None => "master".to_owned(),
            },
        };
        let remote = if self.no_git_push {
            None
        } else {
            Some(self.git_remote.clone())
        };
        let mut check = BranchCheck {
            allow_branch,
            remote,
            n_roots: roots.len(),
            index: 0,
            stage: CheckStage::CountCommits,
            branch: String::new(),
            branches: Vec::new(),
        };
        assert(check.branches.deep_view() =~= Seq::<Seq<char>>::empty());
        if self.no_git_commit || roots.len() == 0 {
            let step = check.finish(true, GitError::Bail);
            return (check, step);
        }
        (check, Step::Run(count_commits_command(0)))
    }
}

impl BranchCheck {
    /// Stops: with the accepted branches when `ok`, else with `err`.
    fn finish(&mut self, ok: bool, err: GitError) -> (r: Step<Vec<String>>)
        ensures
            (final(self)@, check_step_view(r)) == check_finish(
                old(self)@,
                if ok {
                    Ok(old(self)@.branches)
                } else {
                    Err(err@)
                },
            ),
    {
        let mut branches: Vec<String> = Vec::new();
        std::mem::swap(&mut branches, &mut self.branches);
        self.stage = CheckStage::Finished;
        assert(self.branches.deep_view() =~= Seq::<Seq<char>>::empty());
        if ok {
            Step::Done(Ok(branches))
        } else {
            Step::Done(Err(err))
        }
    }

    /// Moves on to the next root, or finishes with the accepted branches.
    fn next_root(&mut self) -> (r: Step<Vec<String>>)
        requires
            old(self)@.index < old(self)@.n_roots,
        ensures
            (final(self)@, check_step_view(r)) == check_next_root(old(self)@),
    {
        if self.index + 1 < self.n_roots {
            self.index = self.index + 1;
            self.stage = CheckStage::CountCommits;
            Step::Run(count_commits_command(self.index))
        } else {
            self.finish(true, GitError::Bail)
        }
    }

    /// The remote branch of the current root, `remote/branch`.
    fn remote_branch(&self) -> (r: String)
        requires
            self@.remote is Some,
        ensures
            r@ == remote_branch(self@.remote->0, self@.branch),
    {
        let mut r = match &self.remote {
            Some(remote) => remote.clone(),
            None => String::new(),
        };
        r.append("/");
        r.append(self.branch.as_str());
        r
    }

    /// Reads the reply to the last command and says what comes next.
    pub fn step(&mut self, reply: &GitReply) -> (r: Step<Vec<String>>)
        requires
            check_wf(old(self)@),
            old(self)@.stage !is Finished,
        ensures
            check_wf(final(self)@),
            (final(self)@, check_step_view(r)) == check_next(old(self)@, reply@),
    {
        match self.stage {
            CheckStage::CountCommits => {
                if contains_text(reply.stderr.as_str(), "not a git repository") {
                    return self.finish(false, GitError::NotGit);
                }
                if text_eq(reply.stdout.as_str(), "0") {
                    return self.finish(false, GitError::NoCommits);
                }
                self.stage = CheckStage::ReadBranch;
                Step::Run(read_branch_command(self.index))
            },
            CheckStage::ReadBranch => {
                let branch = reply.stdout.clone();
                if text_eq(branch.as_str(), "HEAD") {
                    return self.finish(false, GitError::NotBranch);
                }
                let tested = if text_eq(branch.as_str(), "main") && text_eq(
                    self.allow_branch.as_str(),
                    "master",
                ) {
                    "master".to_owned()
                } else {
                    branch.clone()
                };
                match glob_is_match(self.allow_branch.as_str(), tested.as_str()) {
                    Err(_) => {
                        let pattern = self.allow_branch.clone();
                        return self.finish(false, GitError::InvalidGlob { pattern });
                    },
                    Ok(false) => {
                        let pattern = self.allow_branch.clone();
                        return self.finish(false, GitError::BranchNotAllowed { branch, pattern });
                    },
                    Ok(true) => {},
                }
                let ghost before = self.branches.deep_view();
                self.branches.push(branch.clone());
                assert(self.branches.deep_view() =~= before.push(branch@));
                self.branch = branch;
                if self.remote.is_none() {
                    return self.next_root();
                }
                self.stage = CheckStage::ShowRemoteRef;
                let mut refname = "refs/remotes/".to_owned();
                let rb = self.remote_branch();
                refname.append(rb.as_str());
                let mut args = strings(&["show-ref", "--verify"]);
                assert(args.deep_view() =~= seq!["show-ref"@, "--verify"@]);
                push_arg(&mut args, refname);
                assert(args.deep_view() =~= show_ref_args(remote_branch(old(self)@.remote->0, reply@.stdout)));
                Step::Run(GitCommand { root: self.index, args })
            },
            CheckStage::ShowRemoteRef => {
                if reply.stdout.as_str().is_empty() {
                    let remote = match &self.remote {
                        Some(remote) => remote.clone(),
                        None => String::new(),
                    };
                    let branch = self.branch.clone();
                    return self.finish(false, GitError::NoRemote { remote, branch });
                }
                self.stage = CheckStage::UpdateRemote;
                Step::Run(remote_update_command(self.index))
            },
            CheckStage::UpdateRemote => {
                self.stage = CheckStage::CountBehind;
                let mut range = self.remote_branch();
                range.append("...");
                range.append(self.branch.as_str());
                let mut args = strings(&["rev-list", "--left-only", "--count"]);
                assert(args.deep_view() =~= seq!["rev-list"@, "--left-only"@, "--count"@]);
                push_arg(&mut args, range);
                assert(args.deep_view() =~= count_behind_args(remote_branch(self@.remote->0, self@.branch), self@.branch));
                Step::Run(GitCommand { root: self.index, args })
            },
            CheckStage::CountBehind => {
                if !text_eq(reply.stdout.as_str(), "0") {
                    let branch = self.branch.clone();
                    let upstream = self.remote_branch();
                    return self.finish(false, GitError::BehindRemote { branch, upstream });
                }
                self.next_root()
            },
            CheckStage::Finished => self.finish(false, GitError::Bail),
        }
    }
}

} // verus!
