use iroh_git::cli::{
    agent_name, failure_line, grant_lines, guard_lines, keygen_action, keygen_line, keygen_roles,
    lfs_disable_line, lfs_enable_lines, list, pull_end, pull_start_line, push_end,
    push_start_lines, repos, revoke_all_line, revoke_line, revoke_selection, setup_config,
    setup_lines, split_present, stop_all_line, stop_selection, stop_share_line, stop_this_line,
    KeygenAction, StopWhat,
};
use iroh_git::config::{GrantOutcome, Grants, Member, RepoGrant};
use iroh_git::error::Failure;
use iroh_git::identity::Role;
use iroh_git::lfs::UploadOutcome;
use iroh_git::lfs_hook::Outcome;
use iroh_git::share::{Granted, LfsToggle, RevokeWhat, Revoked};
use iroh_git::ticket::RepoId;

#[test]
fn keygen_overwrites_only_what_is_selected_and_forced() {
    assert_eq!(keygen_roles(false, false, false), Ok(vec![Role::Client, Role::Server]));
    assert_eq!(keygen_roles(true, false, true), Ok(vec![Role::Client]));
    assert_eq!(keygen_roles(false, true, false), Ok(vec![Role::Server]));
    assert_eq!(keygen_roles(true, true, true), Ok(vec![Role::Client, Role::Server]));
    assert_eq!(
        keygen_roles(false, false, true).unwrap_err().message(),
        "--force requires --client and/or --server (refusing to overwrite both keys implicitly)"
    );
    assert_eq!(keygen_action(false, false), KeygenAction::Create);
    assert_eq!(keygen_action(false, true), KeygenAction::Create);
    assert_eq!(keygen_action(true, false), KeygenAction::Keep);
    assert_eq!(keygen_action(true, true), KeygenAction::Regenerate);
    assert_eq!(
        keygen_line(Role::Client, KeygenAction::Keep, "id"),
        "client: exists (id) - use --force to regenerate"
    );
    assert_eq!(keygen_line(Role::Server, KeygenAction::Create, "id"), "server: created (id)");
    assert_eq!(keygen_line(Role::Client, KeygenAction::Regenerate, "id"), "client: regenerated (id)");
}

fn granted(outcome: GrantOutcome, lfs_added: bool, lfs_enabled: bool) -> Granted {
    Granted {
        outcome,
        node_id: "n".to_string(),
        repo_path: "/r".to_string(),
        repo_id: "i".to_string(),
        allow_lfs: lfs_added,
        lfs_added,
        lfs_enabled,
    }
}

#[test]
fn a_grant_is_reported() {
    let lines = |g: Granted, lfs: bool| grant_lines(&g, lfs);
    assert_eq!(
        lines(granted(GrantOutcome::Added, false, false), false),
        vec!["granted read-only access to /r"]
    );
    assert_eq!(
        lines(granted(GrantOutcome::AddedWrite, true, true), true),
        vec!["granted read-write access to /r", "granted LFS access to n"]
    );
    assert_eq!(
        lines(granted(GrantOutcome::UpgradedToWrite, false, true), true),
        vec![
            "upgraded n to read-write - their existing remote is unchanged",
            "n already had LFS access"
        ]
    );
    assert_eq!(
        lines(granted(GrantOutcome::Unchanged, false, true), false),
        vec!["n already has access - their existing remote is unchanged"]
    );
    // Nothing is said to be unchanged when LFS changed.
    assert_eq!(
        lines(granted(GrantOutcome::Unchanged, true, false), true),
        vec![
            "granted LFS access to n",
            "note: LFS isn't enabled on this repository yet - run `git iroh lfs-enable` so members can use it"
        ]
    );
}

#[test]
fn a_revoke_is_selected_and_reported() {
    assert_eq!(revoke_selection(false, false), Ok(RevokeWhat::Member));
    assert_eq!(revoke_selection(true, false), Ok(RevokeWhat::Write));
    assert_eq!(revoke_selection(false, true), Ok(RevokeWhat::Lfs));
    assert_eq!(
        revoke_selection(true, true).unwrap_err().message(),
        "pass only one of --write or --lfs"
    );
    assert_eq!(
        revoke_all_line("n", 0, RevokeWhat::Write),
        "n had no write access to revoke in any repository"
    );
    assert_eq!(
        revoke_all_line("n", 0, RevokeWhat::Lfs),
        "n had no LFS access to revoke in any repository"
    );
    assert_eq!(
        revoke_all_line("n", 0, RevokeWhat::Member),
        "n was not a member of any repository"
    );
    assert_eq!(
        revoke_all_line("n", 1, RevokeWhat::Write),
        "revoked write access for n in 1 repository"
    );
    assert_eq!(
        revoke_all_line("n", 2, RevokeWhat::Lfs),
        "revoked LFS access for n in 2 repositories"
    );
    assert_eq!(
        revoke_all_line("n", 10, RevokeWhat::Member),
        "revoked all access for n in 10 repositories"
    );
    let line = |r: Revoked| revoke_line("n", r).map_err(|e| e.message());
    assert_eq!(line(Revoked::RemovedMember).unwrap(), "revoked all access for n");
    assert_eq!(
        line(Revoked::DowngradedToReadOnly).unwrap(),
        "revoked write access for n (still read-only)"
    );
    assert_eq!(line(Revoked::AlreadyReadOnly).unwrap(), "n already had read-only access");
    assert_eq!(line(Revoked::LfsRevoked).unwrap(), "revoked LFS access for n");
    assert_eq!(line(Revoked::AlreadyNoLfs).unwrap(), "n already had no LFS access");
    assert_eq!(
        line(Revoked::NotAMember).unwrap_err(),
        "n was not granted access to this repository"
    );
    assert_eq!(line(Revoked::RepoNotShared).unwrap_err(), "this repository isn't shared");
}

#[test]
fn stop_wants_exactly_one_selector() {
    let id = RepoId::from_bytes([1; 16]);
    assert_eq!(stop_selection(Some(&id.to_text()), false, false), Ok(StopWhat::Share(id)));
    assert_eq!(stop_selection(None, true, false), Ok(StopWhat::This));
    assert_eq!(stop_selection(None, false, true), Ok(StopWhat::All));
    assert_eq!(stop_selection(None, true, true), Err(Failure::ManySelectors));
    assert_eq!(stop_selection(Some("x"), true, false), Err(Failure::ManySelectors));
    assert_eq!(stop_selection(Some("x"), false, true), Err(Failure::ManySelectors));
    assert_eq!(
        stop_selection(None, true, true).unwrap_err().message(),
        "pass only one of a SHARE_ID, --this, or --all"
    );
    assert_eq!(
        stop_selection(None, false, false).unwrap_err().message(),
        "give a SHARE_ID (from `list`), or pass --this for the current repository or --all for every repository"
    );
    assert_eq!(
        stop_selection(Some("x!"), false, false).unwrap_err().message(),
        "invalid SHARE_ID \"x!\": repo id is not valid base32: invalid symbol at 1"
    );
    assert_eq!(stop_all_line(0), "no shared repositories");
    assert_eq!(stop_all_line(1), "stopped sharing 1 repository");
    assert_eq!(stop_this_line("/r", true).unwrap(), "stopped sharing /r");
    assert!(stop_this_line("/r", false).is_err());
    assert_eq!(stop_share_line("i", true).unwrap(), "stopped sharing the repository with id i");
    assert_eq!(
        stop_share_line("i", false).unwrap_err().message(),
        "no shared repository with id i"
    );
    assert_eq!(repos(0), "0 repositories");
}

#[test]
fn the_list_shows_repositories_and_members() {
    assert_eq!(list(&Grants::default()), vec!["no shared repositories"]);
    let m = |node: &str, nick: &str, push: bool, lfs: bool| Member {
        node_id: node.to_string(),
        nickname: nick.to_string(),
        allow_push: push,
        allow_lfs: lfs,
    };
    let g = Grants {
        repos: vec![
            RepoGrant {
                id: "vx".to_string(),
                path: "C:\\repositories\\my_repo".to_string(),
                lfs_enabled: false,
                members: vec![m("877c", "erik", true, false), m("99", "", false, true)],
            },
            RepoGrant {
                id: "wy".to_string(),
                path: "/r".to_string(),
                lfs_enabled: true,
                members: vec![],
            },
        ],
    };
    assert_eq!(
        list(&g),
        vec![
            "C:\\repositories\\my_repo  [vx]",
            "    rw  erik  (877c)",
            "    ro +lfs  99",
            "/r  [wy]  (LFS on)",
            "    (no members)",
        ]
    );
}

#[test]
fn the_lfs_switch_is_reported() {
    let hint = "grant members LFS access with `git iroh grant <node_id> --lfs [--write]`";
    assert_eq!(
        lfs_enable_lines("/r", LfsToggle::Enabled),
        Ok(("LFS enabled for /r".to_string(), Some(hint.to_string())))
    );
    assert_eq!(
        lfs_enable_lines("/r", LfsToggle::AlreadyInThatState),
        Ok(("LFS already enabled for /r".to_string(), None))
    );
    assert_eq!(
        lfs_enable_lines("/r", LfsToggle::NotShared).unwrap_err().message(),
        "/r isn't shared yet; grant someone access first (e.g. `git iroh grant <node_id> --lfs`)"
    );
    assert_eq!(lfs_disable_line("/r", LfsToggle::Disabled), "LFS disabled for /r");
    assert_eq!(
        lfs_disable_line("/r", LfsToggle::AlreadyInThatState),
        "LFS already disabled for /r"
    );
    assert_eq!(
        lfs_disable_line("/r", LfsToggle::NotShared),
        "/r isn't shared; nothing to disable"
    );
}

#[test]
fn lfs_setup_points_git_lfs_at_one_agent() {
    let config = setup_config("/bin/git-lfs-iroh");
    assert_eq!(
        config,
        vec![
            ("lfs.standalonetransferagent", "iroh".to_string()),
            ("lfs.customtransfer.iroh.path", "/bin/git-lfs-iroh".to_string()),
            ("lfs.customtransfer.iroh.concurrent", "false".to_string()),
        ]
    );
    assert_eq!(setup_lines("/a")[1], "  agent: /a");
    assert_eq!(setup_lines("/a").len(), 3);
    assert_eq!(agent_name(".exe"), "git-lfs-iroh.exe");
}

#[test]
fn guarding_is_reported() {
    assert_eq!(
        guard_lines(Outcome::Added, Some("/h")),
        vec![
            "guarded /h",
            "iroh:// pushes now skip git-lfs unless `git iroh lfs-setup` has run here;",
            "every other remote is unchanged.",
        ]
    );
    assert_eq!(guard_lines(Outcome::AlreadyGuarded, Some("/h")), vec!["already guarded; nothing to do."]);
    assert_eq!(
        guard_lines(Outcome::NothingToDo, Some("/h")),
        vec!["left /h alone: it doesn't run git-lfs."]
    );
    assert_eq!(
        guard_lines(Outcome::NothingToDo, None),
        vec!["no pre-push hook here; nothing to guard."]
    );
}

#[test]
fn objects_are_parted_into_present_and_missing() {
    let oids: Vec<String> = ["a", "b", "c"].iter().map(|s| s.to_string()).collect();
    let (here, missing) = split_present(&oids, &vec![true, false, true]);
    assert_eq!(here, vec!["a", "c"]);
    assert_eq!(missing, vec!["b"]);
}

#[test]
fn pulls_and_pushes_are_summed_up() {
    assert_eq!(pull_start_line(0), "LFS: all referenced objects already present");
    assert_eq!(pull_start_line(12), "LFS: fetching 12 object(s) over iroh...");
    assert_eq!(failure_line("o", "why"), "  failed o: why");
    assert_eq!(pull_end(2, 0), ("LFS: fetched 2 object(s)".to_string(), Ok(())));
    let (line, result) = pull_end(2, 3);
    assert_eq!(line, "LFS: fetched 2 object(s)");
    assert_eq!(result.unwrap_err().message(), "3 LFS object(s) failed to download");
    assert_eq!(push_start_lines(0, 0), vec!["LFS: no local objects to push"]);
    assert_eq!(
        push_start_lines(2, 1),
        vec![
            "LFS: skipping 1 referenced object(s) not present in the local store",
            "LFS: pushing 2 object(s) over iroh...",
        ]
    );
    let done = vec![UploadOutcome::Uploaded, UploadOutcome::AlreadyHad, UploadOutcome::Uploaded];
    let (line, result) = push_end(&done, 0);
    assert_eq!(line, "LFS: uploaded 2, already present 1");
    assert_eq!(result, Ok(()));
    assert_eq!(
        push_end(&done, 1).1.unwrap_err().message(),
        "1 LFS object(s) failed to upload"
    );
}
