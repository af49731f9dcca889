# cargo_workspaces (git bookkeeping)

The part of a cargo-workspaces release that deals with git, written in Verus.

- `src/git.rs` — options, package versions, git commands and replies, errors;
  the tag and commit-message texts; reading git's raw output.
- `src/branch.rs` — the pre-release branch check, as a state machine that asks
  for git commands and reads their replies.
- `src/release.rs` — committing, tagging and pushing a release, as a state
  machine of the same kind. Repositories nested in the workspace are released
  first and the workspace's own repository last; a nested repository's commit
  is labelled with the tag prefix and its packages' shared version, and its
  packages are tagged one by one, except that packages none of which is
  independent share one repository tag with that label. The workspace's
  message lists its local and external packages apart. The workspace's
  repository is committed when it releases packages itself, or, with
  `root_tracking_commit`, to record external releases only.
- `src/laws.rs`, `src/release_laws.rs` — what every run of the two machines
  keeps, the tagging rules and the shape of the commit messages, as proof
  functions.
- `src/text.rs`, `src/args.rs` — text operations and argument lists.
- `src/outside.rs` — the calls into `globset`, `camino` and std whose
  contracts are trusted.
- `app/` — running git, command-line options (clap), and converting paths and
  semver versions; it drives the two machines.
