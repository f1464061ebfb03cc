use iroh_git::config::{Grants, Member, RepoGrant};
use iroh_git::daemon::{
    answer_lfs, answer_pack, authorize, authorize_lfs, closed_line, confirm_pack, lfs_session_authorized,
    online_lines, reload, resolve_member, serve_args, ActiveSession, Denied, LfsAnswer,
    LfsConnection, LfsEvent, LfsStep, PackAnswer, Reauth, Sessions, Status,
    MAX_LFS_STREAMS_PER_CONN, NOT_AUTHORIZED,
};
use iroh_git::node::NodeId;
use iroh_git::protocol::{
    LfsOp, LfsRequest, LfsResponse, Request, Response, Service, LFS_VERSION, VERSION,
};
use iroh_git::ticket::RepoId;

fn key(n: u8) -> NodeId {
    NodeId::of_seed(&[n; 32])
}

fn grants_with(repo: &RepoId, member: &NodeId, allow_push: bool) -> Grants {
    Grants {
        repos: vec![RepoGrant {
            id: repo.to_text(),
            path: "/tmp/repo".to_string(),
            // LFS on by default in tests so the LFS-authz cases exercise the
            // member-level checks; the repo/member gates are toggled per test.
            lfs_enabled: true,
            members: vec![Member {
                node_id: member.to_text(),
                nickname: String::new(),
                allow_push,
                allow_lfs: true,
            }],
        }],
    }
}

fn req(repo: &RepoId, service: Service) -> Request {
    Request { version: VERSION, repo_id: *repo.as_bytes(), service }
}

#[test]
fn member_may_fetch() {
    let repo = RepoId::random().unwrap();
    let m = key(1);
    let g = grants_with(&repo, &m, false);
    assert!(authorize(&g, &req(&repo, Service::UploadPack), &m).is_ok());
}

#[test]
fn non_member_denied() {
    let repo = RepoId::random().unwrap();
    let g = grants_with(&repo, &key(1), false);
    assert!(authorize(&g, &req(&repo, Service::UploadPack), &key(2)).is_err());
}

#[test]
fn unknown_repo_denied() {
    let known = RepoId::random().unwrap();
    let other = RepoId::random().unwrap();
    let m = key(1);
    let g = grants_with(&known, &m, false);
    assert!(authorize(&g, &req(&other, Service::UploadPack), &m).is_err());
}

#[test]
fn push_requires_allow_push() {
    let repo = RepoId::random().unwrap();
    let m = key(1);
    let ro = grants_with(&repo, &m, false);
    assert!(authorize(&ro, &req(&repo, Service::ReceivePack), &m).is_err());
    assert!(authorize(&ro, &req(&repo, Service::UploadPack), &m).is_ok());

    let rw = grants_with(&repo, &m, true);
    assert!(authorize(&rw, &req(&repo, Service::ReceivePack), &m).is_ok());
}

#[test]
fn wrong_version_denied() {
    let repo = RepoId::random().unwrap();
    let m = key(1);
    let g = grants_with(&repo, &m, false);
    let mut r = req(&repo, Service::UploadPack);
    r.version = VERSION.wrapping_add(1);
    assert!(authorize(&g, &r, &m).is_err());
}

// The predicate `close_revoked_sessions` relies on: once the grants change so
// that a live session would no longer be authorized, re-running `authorize`
// against the new grants must flip to an error.
#[test]
fn revoking_member_flips_to_denied() {
    let repo = RepoId::random().unwrap();
    let m = key(1);
    let r = req(&repo, Service::ReceivePack);

    let mut g = grants_with(&repo, &m, true);
    assert!(authorize(&g, &r, &m).is_ok());

    // Full revoke: member removed entirely.
    g.repos[0].members.clear();
    assert!(authorize(&g, &r, &m).is_err());
}

#[test]
fn downgrading_write_stops_in_flight_push_but_not_fetch() {
    let repo = RepoId::random().unwrap();
    let m = key(1);
    let mut g = grants_with(&repo, &m, true);

    // Downgrade to read-only.
    g.repos[0].members[0].allow_push = false;
    assert!(authorize(&g, &req(&repo, Service::ReceivePack), &m).is_err());
    assert!(authorize(&g, &req(&repo, Service::UploadPack), &m).is_ok());
}

fn lfs_req(repo: &RepoId, op: LfsOp) -> LfsRequest {
    LfsRequest { version: LFS_VERSION, repo_id: *repo.as_bytes(), op, oid: "a".repeat(64), size: 0 }
}

#[test]
fn lfs_download_needs_membership_upload_needs_push() {
    let repo = RepoId::random().unwrap();
    let m = key(1);

    let ro = grants_with(&repo, &m, false);
    assert!(authorize_lfs(&ro, &lfs_req(&repo, LfsOp::Download), &m).is_ok());
    assert!(authorize_lfs(&ro, &lfs_req(&repo, LfsOp::Upload), &m).is_err());

    let rw = grants_with(&repo, &m, true);
    assert!(authorize_lfs(&rw, &lfs_req(&repo, LfsOp::Upload), &m).is_ok());
}

#[test]
fn lfs_non_member_denied() {
    let repo = RepoId::random().unwrap();
    let g = grants_with(&repo, &key(1), false);
    assert!(authorize_lfs(&g, &lfs_req(&repo, LfsOp::Download), &key(2)).is_err());
}

#[test]
fn lfs_denied_when_repo_lfs_disabled() {
    let repo = RepoId::random().unwrap();
    let m = key(1);
    let mut g = grants_with(&repo, &m, true);
    g.repos[0].lfs_enabled = false;
    // Even a write member with the LFS right can't transfer when the repo's
    // LFS switch is off.
    assert!(authorize_lfs(&g, &lfs_req(&repo, LfsOp::Download), &m).is_err());
    assert!(authorize_lfs(&g, &lfs_req(&repo, LfsOp::Upload), &m).is_err());
}

#[test]
fn lfs_denied_without_member_lfs_right() {
    let repo = RepoId::random().unwrap();
    let m = key(1);
    let mut g = grants_with(&repo, &m, true);
    g.repos[0].members[0].allow_lfs = false;
    // Repo LFS is on, member can clone/push, but lacks the explicit LFS grant.
    assert!(authorize_lfs(&g, &lfs_req(&repo, LfsOp::Download), &m).is_err());
}

fn denied(public: &str, log: &str) -> Denied {
    Denied { public: public.to_string(), log: log.to_string() }
}

#[test]
fn denials_say_exactly_this() {
    let repo = RepoId::from_bytes([1; 16]);
    let other = RepoId::from_bytes([2; 16]);
    let m = key(1);
    let ro = grants_with(&repo, &m, false);
    let mut r = req(&repo, Service::UploadPack);
    assert_eq!(authorize(&ro, &r, &m), Ok(("/tmp/repo".to_string(), Service::UploadPack)));
    r.version = 7;
    let unsupported = "unsupported protocol version 7";
    assert_eq!(authorize(&ro, &r, &m), Err(denied(unsupported, unsupported)));
    assert_eq!(
        authorize(&ro, &req(&other, Service::UploadPack), &m),
        Err(denied(NOT_AUTHORIZED, "unknown repository"))
    );
    assert_eq!(
        authorize(&ro, &req(&repo, Service::UploadPack), &key(2)),
        Err(denied(NOT_AUTHORIZED, "caller is not a member"))
    );
    let read_only = "this repository is read-only for you";
    assert_eq!(
        authorize(&ro, &req(&repo, Service::ReceivePack), &m),
        Err(denied(read_only, read_only))
    );
    assert_eq!(
        authorize_lfs(&ro, &lfs_req(&repo, LfsOp::Upload), &m),
        Err(denied(read_only, read_only))
    );
    let mut l = lfs_req(&repo, LfsOp::Download);
    l.version = 255;
    let unsupported = "unsupported LFS protocol version 255";
    assert_eq!(authorize_lfs(&ro, &l, &m), Err(denied(unsupported, unsupported)));
    let mut g = grants_with(&repo, &m, true);
    g.repos[0].members[0].allow_lfs = false;
    let no_lfs = "you do not have LFS access to this repository";
    assert_eq!(
        authorize_lfs(&g, &lfs_req(&repo, LfsOp::Download), &m),
        Err(denied(no_lfs, no_lfs))
    );
    g.repos[0].lfs_enabled = false;
    let off = "LFS is not enabled for this repository";
    assert_eq!(authorize_lfs(&g, &lfs_req(&repo, LfsOp::Download), &m), Err(denied(off, off)));
    assert_eq!(authorize_lfs(&ro, &lfs_req(&repo, LfsOp::Download), &m), Ok("/tmp/repo".to_string()));
}

#[test]
fn a_member_may_be_stored_in_base32() {
    let repo = RepoId::from_bytes([1; 16]);
    let m = key(1);
    let mut g = grants_with(&repo, &m, false);
    g.repos[0].members[0].node_id = data_encoding::BASE32_NOPAD.encode(m.as_bytes()).to_lowercase();
    assert!(authorize(&g, &req(&repo, Service::UploadPack), &m).is_ok());
    // Hexadecimal in capitals is no node id.
    g.repos[0].members[0].node_id = m.to_text().to_uppercase();
    assert!(authorize(&g, &req(&repo, Service::UploadPack), &m).is_err());
    g.repos[0].members[0].node_id = "junk".to_string();
    assert!(authorize(&g, &req(&repo, Service::UploadPack), &m).is_err());
}

#[test]
fn the_first_matching_entry_counts() {
    let repo = RepoId::from_bytes([1; 16]);
    let m = key(1);
    let mut g = grants_with(&repo, &m, false);
    g.repos[0].members.push(Member {
        node_id: m.to_text(),
        nickname: "again".to_string(),
        allow_push: true,
        allow_lfs: false,
    });
    let (r, member) = resolve_member(&g, repo.as_bytes(), &m).unwrap();
    assert_eq!(r.path, "/tmp/repo");
    assert!(!member.allow_push);
    assert!(member.allow_lfs);
}

#[test]
fn an_lfs_session_lives_while_downloads_are_allowed() {
    let repo = RepoId::from_bytes([1; 16]);
    let m = key(1);
    let mut g = grants_with(&repo, &m, false);
    assert!(lfs_session_authorized(&g, repo.as_bytes(), &m));
    assert!(!lfs_session_authorized(&g, repo.as_bytes(), &key(2)));
    assert!(!lfs_session_authorized(&g, &[9; 16], &m));
    g.repos[0].members[0].allow_lfs = false;
    assert!(!lfs_session_authorized(&g, repo.as_bytes(), &m));
    g.repos[0].members[0].allow_lfs = true;
    g.repos[0].lfs_enabled = false;
    assert!(!lfs_session_authorized(&g, repo.as_bytes(), &m));
}

#[test]
fn a_sweep_names_the_revoked_sessions() {
    let repo = RepoId::from_bytes([1; 16]);
    let (m, other) = (key(1), key(2));
    let mut sessions = Sessions::new();
    let push = sessions.register(m, Reauth::Pack(req(&repo, Service::ReceivePack)));
    let fetch = sessions.register(m, Reauth::Pack(req(&repo, Service::UploadPack)));
    let lfs = sessions.register(m, Reauth::Lfs(*repo.as_bytes()));
    let stranger = sessions.register(other, Reauth::Pack(req(&repo, Service::UploadPack)));
    assert_eq!((push, fetch, lfs, stranger), (0, 1, 2, 3));

    let rw = grants_with(&repo, &m, true);
    assert_eq!(sessions.close_revoked_sessions(&rw), vec![(stranger, other)]);
    sessions.remove(stranger);
    assert!(sessions.close_revoked_sessions(&rw).is_empty());

    // Write revoked mid-push, and LFS dropped.
    let mut ro = grants_with(&repo, &m, false);
    ro.repos[0].members[0].allow_lfs = false;
    let mut gone = sessions.close_revoked_sessions(&ro);
    gone.sort_by_key(|x| x.0);
    assert_eq!(gone, vec![(push, m), (lfs, m)]);

    // Unshared: nobody stays.
    assert_eq!(sessions.close_revoked_sessions(&Grants::default()).len(), 3);
    let s = ActiveSession { caller: m, auth: Reauth::Lfs(*repo.as_bytes()) };
    assert!(s.still_authorized(&rw));
    assert!(!s.still_authorized(&ro));
}

#[test]
fn answers_carry_the_reply_and_the_log_line() {
    let repo = RepoId::from_bytes([1; 16]);
    let m = key(1);
    let short = m.to_text()[..10].to_string();
    assert_eq!(m.short_text(), short);
    let g = grants_with(&repo, &m, false);
    assert_eq!(
        answer_pack(&g, &req(&repo, Service::UploadPack), &m),
        PackAnswer::Serve {
            path: "/tmp/repo".to_string(),
            service: Service::UploadPack,
            log: format!("{short} -> upload-pack /tmp/repo"),
        }
    );
    assert_eq!(
        answer_pack(&g, &req(&RepoId::from_bytes([9; 16]), Service::UploadPack), &m),
        PackAnswer::Refuse {
            reply: Response::Error(NOT_AUTHORIZED.to_string()),
            log: format!("rejected {short}: unknown repository"),
        }
    );
    let oid = "a".repeat(64);
    assert_eq!(
        answer_lfs(&g, &lfs_req(&repo, LfsOp::Download), &m),
        LfsAnswer::Serve {
            path: "/tmp/repo".to_string(),
            log: format!("{short} -> lfs download {oid}"),
            timed_out: format!("lfs download of {oid} timed out"),
        }
    );
    assert_eq!(
        answer_lfs(&g, &lfs_req(&repo, LfsOp::Upload), &m),
        LfsAnswer::Refuse {
            reply: LfsResponse::Error("this repository is read-only for you".to_string()),
            log: format!("rejected lfs {short}: this repository is read-only for you"),
        }
    );
}

#[test]
fn git_checks_objects_only_on_push() {
    assert_eq!(serve_args(Service::UploadPack, "/r"), vec!["upload-pack", "/r"]);
    assert_eq!(
        serve_args(Service::ReceivePack, "/r"),
        vec!["-c", "receive.fsckObjects=true", "receive-pack", "/r"]
    );
}

#[test]
fn an_lfs_connection_is_pinned_to_one_repository() {
    let mut conn = LfsConnection::new();
    let ask = |n: u8| LfsEvent::Request { repo_id: [n; 16] };
    assert_eq!(conn.step(LfsEvent::Garbled), LfsStep::Wait);
    assert_eq!(conn.step(ask(1)), LfsStep::RegisterAndServe);
    assert_eq!(conn.step(ask(1)), LfsStep::Serve);
    assert_eq!(
        conn.step(ask(2)),
        LfsStep::Refuse(LfsResponse::Error(
            "an LFS connection may address only one repository".to_string()
        ))
    );
    assert_eq!(conn.step(ask(1)), LfsStep::Serve);
    let busy = MAX_LFS_STREAMS_PER_CONN - 1;
    assert_eq!(conn.step(LfsEvent::Idle { available: busy }), LfsStep::Wait);
    assert_eq!(conn.step(LfsEvent::Idle { available: MAX_LFS_STREAMS_PER_CONN }), LfsStep::End);
    assert_eq!(conn.step(LfsEvent::Closed), LfsStep::End);
}

#[test]
fn a_reload_counts_the_repositories_and_sweeps() {
    let repo = RepoId::from_bytes([1; 16]);
    let m = key(1);
    let mut sessions = Sessions::new();
    let id = sessions.register(m, Reauth::Pack(req(&repo, Service::ReceivePack)));
    let mut status = Status::default();
    status.come_online("n".to_string(), None);
    let r = reload(&mut status, &sessions, &grants_with(&repo, &m, false));
    assert_eq!(status.repos, 1);
    assert!(status.online);
    assert_eq!(r.revoked, vec![(id, m)]);
    assert_eq!(r.line, "grants reloaded (1 repositories)");
    let r = reload(&mut status, &sessions, &grants_with(&repo, &m, true));
    assert!(r.revoked.is_empty());
    assert_eq!(closed_line(&m), format!("closed revoked session for {}", &m.to_text()[..10]));
}

#[test]
fn the_status_follows_the_daemon() {
    let mut s = Status::default();
    assert!(!s.online && s.node_id.is_none() && s.relay.is_none() && s.repos == 0);
    s.repos = 2;
    s.come_online("id".to_string(), Some("https://r/".to_string()));
    assert!(s.online);
    assert_eq!(s.repos, 2);
    assert_eq!(
        online_lines("id", &s.relay, 2),
        vec!["iroh-git-daemon online", "NODE_ID: id", "relay:   https://r/", "serving 2 repositories"]
    );
    assert_eq!(
        online_lines("id", &None, 0),
        vec!["iroh-git-daemon online", "NODE_ID: id", "serving 0 repositories"]
    );
}

#[test]
fn an_accepted_request_is_confirmed_by_the_grants_of_the_moment() {
    let repo = RepoId::from_bytes([1; 16]);
    let m = key(1);
    let push = req(&repo, Service::ReceivePack);
    assert_eq!(
        confirm_pack(&grants_with(&repo, &m, true), &push, &m, "/p"),
        Some(vec![
            "-c".to_string(),
            "receive.fsckObjects=true".to_string(),
            "receive-pack".to_string(),
            "/p".to_string(),
        ])
    );
    assert_eq!(confirm_pack(&grants_with(&repo, &m, false), &push, &m, "/p"), None);
    let fetch = req(&repo, Service::UploadPack);
    assert_eq!(
        confirm_pack(&grants_with(&repo, &m, false), &fetch, &m, "/p"),
        Some(vec!["upload-pack".to_string(), "/p".to_string()])
    );
}

#[test]
fn a_plain_denial_says_the_same_to_both() {
    let d = Denied::plain("no".to_string());
    assert_eq!((d.public.as_str(), d.log.as_str()), ("no", "no"));
}
