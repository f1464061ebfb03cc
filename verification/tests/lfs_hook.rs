use iroh_git::lfs_hook::{
    classify, find_unguarded, guard, hooks_dir, insert_guard, pre_push_path, warn_if_unguarded,
    HookKind, Outcome, GUARD_MARKER,
};
use iroh_git::error::Failure;
use iroh_git::git::GitOutput;
use iroh_git::paths::PathStyle;

/// What `git lfs install` actually writes, as captured from git-lfs 3.7.1.
const GIT_LFS_HOOK: &str = "#!/bin/sh\n\
    command -v git-lfs >/dev/null 2>&1 || { printf >&2 \"missing git-lfs\"; exit 2; }\n\
    git lfs pre-push \"$@\"\n";

#[test]
fn classifies_the_hooks_that_matter() {
    assert_eq!(classify(GIT_LFS_HOOK), HookKind::UnguardedGitLfs);
    assert_eq!(classify("#!/bin/sh\necho hello\n"), HookKind::Other);
    // Merely naming LFS is not running it.
    assert_eq!(classify("#!/bin/sh\n# nothing to do with git lfs here\n"), HookKind::Other);
}

#[test]
fn guarding_is_idempotent_and_keeps_the_original_hook() {
    let guarded = insert_guard(GIT_LFS_HOOK);

    // The shebang still leads, and every original line survives.
    assert!(guarded.starts_with("#!/bin/sh\n"));
    assert!(guarded.contains("git lfs pre-push \"$@\""));
    assert!(guarded.contains("command -v git-lfs"));

    // The guard runs before git-lfs, or it buys nothing.
    let guard_at = guarded.find("case \"$2\"").unwrap();
    let lfs_at = guarded.find("git lfs pre-push").unwrap();
    assert!(guard_at < lfs_at, "the guard must run before git-lfs");

    // Now classified as guarded, so a second pass is a no-op.
    assert_eq!(classify(&guarded), HookKind::GuardedGitLfs);
}

#[test]
fn the_guard_only_skips_a_repository_with_no_transfer_agent() {
    let guarded = insert_guard(GIT_LFS_HOOK);
    // Pinning the shape of the shell, since the whole design rests on it:
    // iroh remotes are matched, and skipped only when the `git config` probe
    // for a standalone agent fails.
    assert!(guarded.contains("case \"$2\" in iroh://*)"));
    assert!(guarded
        .contains("git config --get lfs.standalonetransferagent >/dev/null 2>&1 || exit 0 ;;"));
}

#[test]
fn a_hook_without_a_shebang_still_gets_the_guard_first() {
    let original = "git lfs pre-push \"$@\"\n";
    let guarded = insert_guard(original);
    assert!(guarded.starts_with(&format!("# {GUARD_MARKER}")));
    assert!(guarded.trim_end().ends_with("git lfs pre-push \"$@\""));
}

#[test]
fn the_guarded_hook_is_exactly_the_hook_with_the_guard_in_it() {
    let block = "# git-iroh: skip git-lfs on iroh:// remotes it cannot transfer over\n\
         # git-lfs reads the iroh:// scheme as an SSH hostname and retries a doomed\n\
         # `ssh iroh` several times, adding ~20 s to every push - even in a repository\n\
         # that tracks no LFS files. Once `git iroh lfs-setup` has run, git-lfs uses the\n\
         # iroh transfer agent instead and works normally, so only an unconfigured\n\
         # repository skips it. Every other remote falls through untouched.\n\
         case \"$2\" in iroh://*)\n\
         \tgit config --get lfs.standalonetransferagent >/dev/null 2>&1 || exit 0 ;;\n\
         esac\n";
    assert_eq!(insert_guard("#!/bin/sh\na\n"), format!("#!/bin/sh\n{block}a\n"));
    assert_eq!(insert_guard("a\n"), format!("{block}a\n"));
    // A shebang without a line feed is all there is before the guard.
    assert_eq!(insert_guard("#!/bin/sh"), format!("#!/bin/sh{block}"));
    assert_eq!(insert_guard(""), block);
}

#[test]
fn the_dashed_invocation_counts_too() {
    assert_eq!(classify("git-lfs-pre-push\n"), HookKind::UnguardedGitLfs);
    // The marker alone does not make a hook run git-lfs.
    assert_eq!(classify(GUARD_MARKER), HookKind::Other);
}

#[test]
fn a_hook_that_names_the_invocation_in_a_comment_is_left_alone() {
    let off = "#!/bin/sh\n# git lfs pre-push is off here\n";
    assert_eq!(classify(off), HookKind::Other);
    assert_eq!(guard(Some(off)), (Outcome::NothingToDo, None));
    assert!(!find_unguarded(Some(off)));
    assert!(warn_if_unguarded("p", Some(off)).is_empty());
    // The comment may be indented, or end in a carriage return, or have no line end.
    assert_eq!(classify("#!/bin/sh\n \t# git lfs pre-push\r\ntrue\n"), HookKind::Other);
    assert_eq!(classify("# git-lfs-pre-push"), HookKind::Other);
    // Beside a line that runs git-lfs, a comment changes nothing.
    assert_eq!(
        classify("#!/bin/sh\n# git lfs pre-push\ngit lfs pre-push \"$@\"\n"),
        HookKind::UnguardedGitLfs
    );
    // A shebang is no comment, but only in the first place.
    assert_eq!(classify("#!/usr/bin/env git-lfs-pre-push"), HookKind::UnguardedGitLfs);
    assert_eq!(classify("\n#!/usr/bin/env git-lfs-pre-push"), HookKind::Other);
    let on = insert_guard("#!/usr/bin/env git-lfs-pre-push");
    assert_eq!(classify(&on), HookKind::GuardedGitLfs);
    // The marker in a comment does not make a hook one that runs git-lfs.
    assert_eq!(classify(&insert_guard(off)), HookKind::Other);
}

#[test]
fn guarding_reports_what_it_did() {
    assert_eq!(guard(None), (Outcome::NothingToDo, None));
    assert_eq!(guard(Some("#!/bin/sh\ntrue\n")), (Outcome::NothingToDo, None));
    let (outcome, new) = guard(Some(GIT_LFS_HOOK));
    assert_eq!(outcome, Outcome::Added);
    let new = new.unwrap();
    assert_eq!(new, insert_guard(GIT_LFS_HOOK));
    assert_eq!(guard(Some(&new)), (Outcome::AlreadyGuarded, None));
}

#[test]
fn only_an_unguarded_hook_is_warned_about() {
    assert!(find_unguarded(Some(GIT_LFS_HOOK)));
    assert!(!find_unguarded(Some(&insert_guard(GIT_LFS_HOOK))));
    assert!(!find_unguarded(None));
    assert!(warn_if_unguarded("/r/.git/hooks/pre-push", None).is_empty());
    let lines = warn_if_unguarded("/r/.git/hooks/pre-push", Some(GIT_LFS_HOOK));
    assert_eq!(lines.len(), 5);
    assert_eq!(lines[0], "");
    assert_eq!(
        lines[1],
        "warning: this repository has a git-lfs pre-push hook (/r/.git/hooks/pre-push)."
    );
    assert_eq!(
        lines[4],
        "  Run `git iroh guard-lfs-hook` to skip git-lfs where it can't transfer anyway."
    );
}

#[test]
fn the_hooks_directory_is_what_git_says() {
    let said = |success: bool, stdout: &[u8]| GitOutput {
        success,
        stdout: stdout.to_vec(),
        stderr: Vec::new(),
    };
    assert_eq!(hooks_dir(said(true, b".git/hooks\n")), Ok(".git/hooks".to_string()));
    assert_eq!(hooks_dir(said(false, b"")), Err(Failure::HooksPathFailed));
    let cause = String::from_utf8(vec![0xff]).unwrap_err().to_string();
    assert_eq!(hooks_dir(said(true, &[0xff])), Err(Failure::GitOutputNotUtf8 { cause }));
    assert_eq!(pre_push_path(PathStyle::Unix, ".git/hooks"), ".git/hooks/pre-push");
}
