use cargo_workspaces::git::{git_repository_root, GitError, GitReply};
use cargo_workspaces::text::{contains_text, replace_all, trim};

#[test]
fn replace_all_replaces_left_to_right_without_overlap() {
    assert_eq!(replace_all("aaa", "aa", "b"), "ba");
    assert_eq!(replace_all("Release %v (%v)", "%v", "1.0.0"), "Release 1.0.0 (1.0.0)");
    assert_eq!(replace_all("none here", "%v", "x"), "none here");
    assert_eq!(replace_all("", "%v", "x"), "");
    assert_eq!(replace_all("%", "%v", "x"), "%");
    assert_eq!(replace_all("abc", "", "-"), "abc".replace("", "-"));
    assert_eq!(replace_all("", "", "-"), "-");
}

#[test]
fn contains_text_finds_substrings() {
    assert!(contains_text("fatal: not a git repository (or any parent)", "not a git repository"));
    assert!(!contains_text("fatal: something else", "not a git repository"));
    assert!(contains_text("abc", ""));
    assert!(!contains_text("", "a"));
}

#[test]
fn whitespace_matches_std() {
    for u in 0u32..0x3100 {
        if let Some(c) = char::from_u32(u) {
            assert_eq!(cargo_workspaces::text::char_is_whitespace(c), c.is_whitespace(), "{:x}", u);
        }
    }
}

#[test]
fn trim_removes_white_space_at_both_ends() {
    assert_eq!(trim("  main\n"), "main");
    assert_eq!(trim("\t\u{3000}x y\u{a0}"), "x y");
    assert_eq!(trim(" \n "), "");
}

#[test]
fn reply_from_output_decodes_and_trims() {
    let reply = GitReply::from_output(true, b"main\n".to_vec(), b"  \n".to_vec()).unwrap();
    assert_eq!(
        reply,
        GitReply { success: true, stdout: "main".to_string(), stderr: String::new() }
    );
}

#[test]
fn reply_from_output_refuses_invalid_utf8() {
    let r = GitReply::from_output(false, vec![0xff, 0xfe], Vec::new());
    assert_eq!(r, Err(GitError::NotUtf8));
    let r = GitReply::from_output(false, Vec::new(), vec![0xc3]);
    assert_eq!(r, Err(GitError::NotUtf8));
}

#[test]
fn repository_root_reads_toplevel() {
    let reply = GitReply { success: true, stdout: "/home/me/ws".to_string(), stderr: String::new() };
    assert_eq!(git_repository_root(&reply), Ok("/home/me/ws".to_string()));
}

#[test]
fn repository_root_refuses_outside_repository() {
    let reply = GitReply {
        success: false,
        stdout: String::new(),
        stderr: "fatal: not a git repository (or any of the parent directories): .git".to_string(),
    };
    assert_eq!(git_repository_root(&reply), Err(GitError::NotGit));
}
