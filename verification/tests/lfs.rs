use std::path::Path;

use iroh_git::digest::ObjectDigest;
use iroh_git::error::Failure;
use iroh_git::git::{resolve_repo, GitOutput, RepoQuery, ResolveStep};
use iroh_git::lfs::{
    check_download, dot_git_path, download_reply, git_dir, ls_files_args, normalize_oid,
    object_path, object_store, oids_in_listing, random_suffix, referenced_oids, remote_ticket,
    resolve_remote_url, serve, stage_dir, staged_path, suffix_of, tmp_name, upload_reply, upload_result,
    DotGit, RemoteStep, ServeAction, ServeEvent, ServeState, Session, UploadOutcome,
};
use iroh_git::node::NodeId;
use iroh_git::paths::{join, strip_verbatim, PathStyle};
use iroh_git::protocol::{LfsOp, LfsResponse, LFS_VERSION};
use iroh_git::ticket::{RepoId, Ticket};

fn said(success: bool, stdout: &[u8], stderr: &[u8]) -> GitOutput {
    GitOutput { success, stdout: stdout.to_vec(), stderr: stderr.to_vec() }
}

#[test]
fn normalize_accepts_prefixed_and_bare() {
    let bare = "a".repeat(64);
    assert_eq!(normalize_oid(&bare).unwrap(), bare);
    assert_eq!(normalize_oid(&format!("sha256:{bare}")).unwrap(), bare);
    assert_eq!(normalize_oid(&format!("  {}\n", bare.to_uppercase())).unwrap(), bare);
}

#[test]
fn normalize_rejects_junk() {
    assert!(normalize_oid("").is_err());
    assert!(normalize_oid("../etc/passwd").is_err());
    assert!(normalize_oid(&"g".repeat(64)).is_err());
    assert!(normalize_oid(&"a".repeat(63)).is_err());
}

#[test]
fn object_path_uses_lfs_fanout() {
    let oid = "ab".to_string() + &"c".repeat(62);
    let p = object_path(PathStyle::Unix, "/store", &oid);
    assert!(Path::new(&p).ends_with(Path::new("ab").join("cc").join(&oid)));
}

#[test]
fn normalizing_takes_the_prefix_before_the_white_space() {
    let bare = "0".repeat(64);
    assert_eq!(normalize_oid(&format!("sha256: {bare}")).unwrap(), bare);
    assert!(normalize_oid(&format!(" sha256:{bare}")).is_err());
    assert!(normalize_oid(&format!("SHA256:{bare}")).is_err());
    assert_eq!(normalize_oid(&format!("\u{a0}\u{2003}{bare}\u{3000}")).unwrap(), bare);
    // 64 bytes that are not 64 digits.
    assert!(normalize_oid(&"\u{e9}".repeat(32)).is_err());
    let e = normalize_oid("x\"y").unwrap_err();
    assert_eq!(e, Failure::NotAnOid { oid: "x\"y".to_string() });
    assert_eq!(e.message(), "not a sha256 lfs oid: \"x\\\"y\"");
}

#[test]
fn paths_follow_the_style() {
    let oid = "ab".to_string() + &"c".repeat(62);
    assert_eq!(object_path(PathStyle::Unix, "/store", &oid), format!("/store/ab/cc/{oid}"));
    assert_eq!(object_path(PathStyle::Windows, "C:\\s", &oid), format!("C:\\s\\ab\\cc\\{oid}"));
    assert_eq!(join(PathStyle::Unix, "", "a"), "a");
    assert_eq!(join(PathStyle::Unix, "/", "a"), "/a");
    assert_eq!(join(PathStyle::Unix, "x\\", "a"), "x\\/a");
    assert_eq!(join(PathStyle::Windows, "C:", "a"), "C:a");
    assert_eq!(join(PathStyle::Windows, "C:/", "a"), "C:/a");
    assert_eq!(join(PathStyle::Windows, "C:\\", "a"), "C:\\a");
    assert_eq!(join(PathStyle::Windows, "\\\\?\\UNC\\s\\d/", "a"), "\\\\?\\UNC\\s\\d/\\a");
}

#[test]
fn the_verbatim_prefix_is_stripped_except_from_unc_paths() {
    assert_eq!(strip_verbatim("\\\\?\\C:\\x".to_string()), "C:\\x");
    assert_eq!(strip_verbatim("\\\\?\\UNC\\s\\d".to_string()), "\\\\?\\UNC\\s\\d");
    assert_eq!(strip_verbatim("/x".to_string()), "/x");
    assert_eq!(strip_verbatim("\\\\?\\".to_string()), "");
}

#[test]
fn the_store_lies_in_the_git_directory() {
    let style = PathStyle::Unix;
    assert_eq!(dot_git_path(style, "/r"), "/r/.git");
    assert_eq!(git_dir(style, "/r", DotGit::Directory).unwrap(), "/r/.git");
    assert_eq!(object_store(style, "/r", DotGit::Directory).unwrap(), "/r/.git/lfs/objects");
    assert_eq!(object_store(style, "/r", DotGit::Absent).unwrap(), "/r/lfs/objects");
    assert_eq!(stage_dir(style, "/r", DotGit::Directory).unwrap(), "/r/.git/lfs/tmp");
    assert_eq!(stage_dir(style, "/r", DotGit::File), None);
    let e = object_store(style, "/r", DotGit::File).unwrap_err();
    assert_eq!(e, Failure::LinkedWorktree { repo: "/r".to_string() });
    assert_eq!(
        e.message(),
        "/r is a linked worktree or submodule (.git file); LFS over iroh needs a normal or bare repository"
    );
}

#[test]
fn referenced_oids_come_once_and_in_order() {
    let (a, b) = ("a".repeat(64), "b".repeat(64));
    let listing = format!("{b} * one.bin\r\n\n{a} - two.bin\n  \njunk here\n{b} * three.bin\n{a}");
    assert_eq!(referenced_oids(said(true, listing.as_bytes(), b"")).unwrap(), vec![b.clone(), a.clone()]);
    assert_eq!(oids_in_listing(&format!("\t{} x", a.to_uppercase())), vec![a]);
    assert!(oids_in_listing("").is_empty());
}

fn not_utf8(bytes: &[u8]) -> String {
    String::from_utf8(bytes.to_vec()).unwrap_err().to_string()
}

#[test]
fn a_failed_listing_says_why() {
    let e = referenced_oids(said(false, b"", b" oops\n")).unwrap_err();
    assert_eq!(e, Failure::LsFilesFailed { stderr: "oops".to_string() });
    assert_eq!(e.message(), "git lfs ls-files failed: oops");
    let e = referenced_oids(said(false, b"", b"\xff!")).unwrap_err();
    assert_eq!(e, Failure::LsFilesFailed { stderr: "\u{fffd}!".to_string() });
    let e = referenced_oids(said(true, b"\xff", b"")).unwrap_err();
    assert_eq!(e, Failure::LsFilesNotUtf8 { cause: not_utf8(b"\xff") });
    assert_eq!(
        e.message(),
        format!("git lfs ls-files output was not UTF-8: {}", not_utf8(b"\xff"))
    );
    assert_eq!(
        ls_files_args(&vec!["main".to_string(), "v1".to_string()]),
        vec!["lfs", "ls-files", "--long", "main", "v1"]
    );
}

#[test]
fn remotes_resolve_through_git_config() {
    assert_eq!(
        resolve_remote_url("iroh://x", None),
        Ok(RemoteStep::Url("iroh://x".to_string()))
    );
    assert_eq!(
        resolve_remote_url("origin", None),
        Ok(RemoteStep::Ask("remote.origin.url".to_string()))
    );
    assert_eq!(
        resolve_remote_url("origin", Some(said(true, b"iroh://abc\n", b""))),
        Ok(RemoteStep::Url("iroh://abc".to_string()))
    );
    let e = resolve_remote_url("or\"igin", Some(said(false, b"", b""))).unwrap_err();
    assert_eq!(e.message(), "no url configured for remote \"or\\\"igin\"");
    assert_eq!(
        resolve_remote_url("origin", Some(said(true, b"\xff", b""))),
        Err(Failure::RemoteUrlNotUtf8 { cause: not_utf8(b"\xff") })
    );
}

#[test]
fn a_remote_that_is_no_ticket_is_named() {
    let t = Ticket {
        node_id: NodeId::of_seed(&[1; 32]),
        relay_url: None,
        repo_id: RepoId::from_bytes([1; 16]),
        name: "r".to_string(),
    };
    assert_eq!(remote_ticket("origin", &t.encode()), Ok(t));
    let e = remote_ticket("origin", "https://x").unwrap_err();
    assert_eq!(
        e.message(),
        "remote \"origin\" is not an iroh:// remote (url: https://x): not an iroh:// url: https://x"
    );
    let e = remote_ticket("origin", "iroh://a!").unwrap_err();
    assert_eq!(
        e.message(),
        "remote \"origin\" is not an iroh:// remote (url: iroh://a!): ticket is not valid base32: invalid symbol at 1"
    );
}

#[test]
fn repositories_resolve_in_two_questions() {
    assert_eq!(RepoQuery::IsBare.flag(), "--is-bare-repository");
    assert_eq!(RepoQuery::AbsoluteGitDir.flag(), "--absolute-git-dir");
    assert_eq!(RepoQuery::ShowToplevel.flag(), "--show-toplevel");
    assert_eq!(
        resolve_repo("d", RepoQuery::IsBare, said(true, b"true\n", b"")),
        Ok(ResolveStep::Ask(RepoQuery::AbsoluteGitDir))
    );
    assert_eq!(
        resolve_repo("d", RepoQuery::IsBare, said(true, b"false\n", b"")),
        Ok(ResolveStep::Ask(RepoQuery::ShowToplevel))
    );
    assert_eq!(
        resolve_repo("d", RepoQuery::IsBare, said(true, b"true\xff", b"")),
        Ok(ResolveStep::Ask(RepoQuery::ShowToplevel))
    );
    assert_eq!(
        resolve_repo("d", RepoQuery::ShowToplevel, said(true, b"/r\n", b"")),
        Ok(ResolveStep::Path("/r".to_string()))
    );
    let e = resolve_repo("d", RepoQuery::IsBare, said(false, b"", b"")).unwrap_err();
    assert_eq!(e.message(), "not a git repository: d");
    let e = resolve_repo("d", RepoQuery::AbsoluteGitDir, said(false, b"", b"")).unwrap_err();
    assert_eq!(e.message(), "could not resolve repository path for d");
    let e = resolve_repo("d", RepoQuery::ShowToplevel, said(true, b"\xff", b"")).unwrap_err();
    assert_eq!(e.message(), format!("git output was not UTF-8: {}", not_utf8(b"\xff")));
}

#[test]
fn directories_with_the_same_answers_resolve_alike() {
    let resolve = |dir: &str| {
        let Ok(ResolveStep::Ask(query)) = resolve_repo(dir, RepoQuery::IsBare, said(true, b"false\n", b""))
        else {
            panic!("no question follows");
        };
        assert_eq!(query, RepoQuery::ShowToplevel);
        resolve_repo(dir, query, said(true, b"/work\n", b"")).unwrap()
    };
    assert_eq!(resolve("/work/a"), ResolveStep::Path("/work".to_string()));
    assert_eq!(resolve("/work/a"), resolve("/work/b/c"));
    assert_eq!(resolve("/work"), ResolveStep::Path("/work".to_string()));
}

#[test]
fn a_digest_is_of_all_chunks() {
    let mut d = ObjectDigest::new();
    d.update(b"ab");
    d.update(b"");
    d.update(b"c");
    let (oid, total) = d.finish();
    assert_eq!(oid, "ba7816bf8f01cfea414140de5dae2223b00361a396177a9cb410ff61f20015ad");
    assert_eq!(total, 3);
    let (oid, total) = ObjectDigest::new().finish();
    assert_eq!(oid, "e3b0c44298fc1c149afbf4c8996fb92427ae41e4649b934ca495991b7852b855");
    assert_eq!(total, 0);
}

#[test]
fn staging_names_carry_the_random_suffix() {
    assert_eq!(tmp_name("obj", &[0, 1, 2, 3, 4, 5, 6, 255]), "obj.00010203040506ff.tmp");
    assert_eq!(random_suffix().len(), 8);
}

#[test]
fn a_session_asks_for_its_repository_in_normal_form() {
    let t = Ticket {
        node_id: NodeId::of_seed(&[1; 32]),
        relay_url: None,
        repo_id: RepoId::from_bytes([9; 16]),
        name: String::new(),
    };
    let session = Session::connect(&t);
    let oid = "a".repeat(64);
    let q = session.upload(&format!("sha256:{oid}"), 5).unwrap();
    assert_eq!(q.version, LFS_VERSION);
    assert_eq!(q.repo_id, [9; 16]);
    assert_eq!(q.op, LfsOp::Upload);
    assert_eq!(q.oid, oid);
    assert_eq!(q.size, 5);
    let q = session.download(&oid.to_uppercase()).unwrap();
    assert_eq!((q.op, q.oid.as_str(), q.size), (LfsOp::Download, oid.as_str(), 0));
    assert!(session.download("..").is_err());
    assert!(session.upload("..", 1).is_err());
    assert_eq!(session.request(LfsOp::Download, "x", 7).oid, "x");
    assert_eq!(staged_path(PathStyle::Unix, "/tmp/s", &oid).unwrap(), format!("/tmp/s/{oid}"));
    assert!(staged_path(PathStyle::Unix, "/tmp/s", "../x").is_err());
}

#[test]
fn the_client_follows_the_daemon() {
    let err = || LfsResponse::Error("why".to_string());
    assert_eq!(download_reply("o", LfsResponse::Proceed), Ok(()));
    assert_eq!(
        download_reply("o", LfsResponse::Have).unwrap_err().message(),
        "daemon returned Have for a download"
    );
    assert_eq!(
        download_reply("o", err()).unwrap_err().message(),
        "daemon refused download of o: why"
    );
    assert_eq!(check_download("o", "o"), Ok(()));
    assert_eq!(
        check_download("o", "p").unwrap_err().message(),
        "object o failed verification (got p)"
    );
    assert_eq!(upload_reply("o", LfsResponse::Proceed), Ok(None));
    assert_eq!(upload_reply("o", LfsResponse::Have), Ok(Some(UploadOutcome::AlreadyHad)));
    assert_eq!(
        upload_reply("o", err()).unwrap_err().message(),
        "daemon refused upload of o: why"
    );
    assert_eq!(upload_result("o", LfsResponse::Proceed), Ok(UploadOutcome::Uploaded));
    assert_eq!(upload_result("o", LfsResponse::Have), Ok(UploadOutcome::Uploaded));
    assert_eq!(
        upload_result("o", err()).unwrap_err().message(),
        "daemon rejected upload of o: why"
    );
}

fn started(op: LfsOp, oid: &str, size: u64) -> ServeState {
    ServeState::Start { op, oid: oid.to_string(), size }
}

fn located() -> ServeEvent {
    ServeEvent::Located { store: "/s".to_string() }
}

#[test]
fn a_download_is_served_from_the_store() {
    let style = PathStyle::Unix;
    let oid = "a".repeat(64);
    let path = format!("/s/aa/aa/{oid}");
    let (state, action) = serve(style, started(LfsOp::Download, &oid.to_uppercase(), 0), ServeEvent::Begin);
    assert_eq!(action, ServeAction::Locate);
    let (state, action) = serve(style, state, located());
    assert_eq!(action, ServeAction::Open(path));
    let opened = serve(style, state, ServeEvent::Opened(true));
    assert_eq!(opened, (ServeState::Ended, ServeAction::ReplyAndSend(LfsResponse::Proceed)));
    let missing = serve(style, ServeState::Opening { oid: oid.clone() }, ServeEvent::Opened(false));
    assert_eq!(
        missing,
        (
            ServeState::Ended,
            ServeAction::Reply(LfsResponse::Error(format!("object {oid} not present")))
        )
    );
}

#[test]
fn a_junk_oid_is_refused_before_anything_is_looked_at() {
    let refused = serve(PathStyle::Unix, started(LfsOp::Upload, "../x", 1), ServeEvent::Begin);
    assert_eq!(
        refused,
        (
            ServeState::Ended,
            ServeAction::Reply(LfsResponse::Error("not a sha256 lfs oid: \"../x\"".to_string()))
        )
    );
}

#[test]
fn an_upload_is_stored_only_if_digest_and_size_match() {
    let style = PathStyle::Unix;
    let oid = "a".repeat(64);
    let path = format!("/s/aa/aa/{oid}");
    let looking = || {
        let (state, _) = serve(style, started(LfsOp::Upload, &oid, 3), ServeEvent::Begin);
        let (state, action) = serve(style, state, located());
        assert_eq!(action, ServeAction::Look(path.clone()));
        state
    };
    assert_eq!(
        serve(style, looking(), ServeEvent::Present(true)),
        (ServeState::Ended, ServeAction::Reply(LfsResponse::Have))
    );
    let receive = |got: &str, total: u64, present: bool| {
        let (state, action) = serve(style, looking(), ServeEvent::Present(false));
        assert_eq!(action, ServeAction::ReplyAndReceive(LfsResponse::Proceed));
        let event = ServeEvent::Received { got: got.to_string(), total, present };
        let (state, action) = serve(style, state, event);
        assert_eq!(state, ServeState::Ended);
        action
    };
    assert_eq!(
        receive(&oid, 3, false),
        ServeAction::Store { path: path.clone(), reply: LfsResponse::Proceed }
    );
    assert_eq!(receive(&oid, 3, true), ServeAction::Discard(LfsResponse::Proceed));
    assert_eq!(
        receive(&oid, 4, false),
        ServeAction::Discard(LfsResponse::Error(format!("verification failed (oid {oid}, 4 bytes)")))
    );
    assert_eq!(
        receive("b", 3, true),
        ServeAction::Discard(LfsResponse::Error("verification failed (oid b, 3 bytes)".to_string()))
    );
    // What does not fit the state ends the transfer.
    assert_eq!(
        serve(style, ServeState::Ended, ServeEvent::Begin),
        (ServeState::Ended, ServeAction::Nothing)
    );
}

#[test]
fn a_stored_object_is_served_and_verifies() {
    let style = PathStyle::Unix;
    let mut digest = ObjectDigest::new();
    digest.update(b"hello");
    let (oid, size) = digest.finish();
    let (state, _) = serve(style, started(LfsOp::Upload, &oid, size), ServeEvent::Begin);
    let (state, _) = serve(style, state, located());
    let (state, _) = serve(style, state, ServeEvent::Present(false));
    let event = ServeEvent::Received { got: oid.clone(), total: size, present: false };
    let ServeAction::Store { path, .. } = serve(style, state, event).1 else {
        panic!("not stored");
    };
    let (state, _) = serve(style, started(LfsOp::Download, &oid, 0), ServeEvent::Begin);
    assert_eq!(serve(style, state, located()).1, ServeAction::Open(path));
    assert_eq!(check_download(&oid, &oid), Ok(()));
}

#[test]
fn a_suffix_is_what_was_drawn_for_it_or_zeros() {
    assert_eq!(suffix_of(Ok([1, 2, 3, 4, 5, 6, 7, 8])), [1, 2, 3, 4, 5, 6, 7, 8]);
    assert_eq!(suffix_of(Err("out of luck".to_string())), [0; 8]);
}
