//! What the daemon decides: who may reach which repository, which live sessions a change of the
//! grants ends, and how each connection is answered.
//!
//! Every connection is authorized by matching the caller's cryptographic NODE_ID against the
//! addressed repository's member list.

use crate::config::{Grants, Member, MemberView, RepoGrant, RepoView};
use crate::node::{names_key, names_one_key, same_bytes, NodeId};
use crate::protocol::{
    LfsOp, LfsRequest, LfsRequestView, LfsResponse, LfsResponseView, Request, RequestView, Response,
    ResponseView, Service, LFS_VERSION, VERSION,
};
use crate::sequences::{first_where, lemma_first_where, lemma_first_where_bounds};
use crate::share::{repo_has_id, repo_with_id};
use crate::text::{decimal, decimal_text, hex_text, option_view, texts};
use crate::ticket::{names_repo, RepoId};
use std::collections::HashMap;
use vstd::prelude::*;

verus! {

/// Cap on concurrent in-flight connections. Excess connections are dropped rather than queued.
pub const MAX_CONCURRENT_CONNECTIONS: usize = 64;

/// How many seconds a freshly accepted connection has to open its stream and send its handshake.
pub const HANDSHAKE_TIMEOUT: u64 = 10;

/// How many seconds a rejected caller has to read the rejection.
pub const REJECTION_LINGER: u64 = 5;

/// QUIC application close code used when a session is torn down because its access was revoked.
pub const CLOSE_REVOKED: u32 = 1;

/// Max concurrent object transfers served per LFS connection.
pub const MAX_LFS_STREAMS_PER_CONN: usize = 16;

/// Max number of seconds that a single LFS object transfer may run before it is aborted.
pub const LFS_TRANSFER_TIMEOUT: u64 = 600;

/// How many seconds an LFS connection may sit idle - no new object stream and nothing in flight -
/// before the daemon closes it and reclaims its connection slot.
pub const LFS_IDLE_TIMEOUT: u64 = 60;

/// The vague rejection shown to the caller for both unknown-repository and not-a-member, so that the
/// two are indistinguishable from the outside.
pub const NOT_AUTHORIZED: &'static str = "not authorized for this repository";

/// A rejected request. `public` is sent to the caller; `log` is recorded by the daemon. They differ
/// deliberately for the unknown-repository and not-a-member cases: both return the same vague
/// `public` text, so that a stranger holding a (possibly leaked) ticket cannot tell "this repository
/// doesn't exist here" apart from "you aren't a member of it".
#[derive(Debug, PartialEq, Eq)]
pub struct Denied {
    pub public: String,
    pub log: String,
}

/// What a rejection says.
#[verifier::ext_equal]
pub struct DeniedView {
    pub public: Seq<char>,
    pub log: Seq<char>,
}

impl View for Denied {
    type V = DeniedView;

    open spec fn view(&self) -> DeniedView {
        DeniedView { public: self.public@, log: self.log@ }
    }
}

/// A rejection that says the same to the caller as to the log.
pub open spec fn plainly(msg: Seq<char>) -> DeniedView {
    DeniedView { public: msg, log: msg }
}

impl Denied {
    /// A denial whose caller-visible and logged text are identical (used when the reason reveals
    /// nothing that a legitimate caller doesn't already know).
    pub fn plain(msg: String) -> (r: Denied)
        ensures
            r@ == plainly(msg@),
    {
        Denied { public: msg.clone(), log: msg }
    }
}

/// The offset of the first member whose node id is `key`, or the number of members.
pub open spec fn caller_at(members: Seq<MemberView>, key: Seq<u8>) -> int {
    first_where(members, |m: MemberView| names_key(m.node_id, key))
}

/// The repository that `repo_id` addresses and the member that `caller` is, or why there are none.
pub open spec fn member_for(repos: Seq<RepoView>, repo_id: Seq<u8>, caller: Seq<u8>) -> Result<
    (RepoView, MemberView),
    DeniedView,
> {
    let at = repo_with_id(repos, repo_id);
    if at == repos.len() {
        Err(DeniedView { public: NOT_AUTHORIZED@, log: "unknown repository"@ })
    } else {
        let repo = repos[at];
        let who = caller_at(repo.members, caller);
        if who == repo.members.len() {
            Err(DeniedView { public: NOT_AUTHORIZED@, log: "caller is not a member"@ })
        } else {
            Ok((repo, repo.members[who]))
        }
    }
}

/// Whether a member's stored node id is the caller's.
fn member_is(member: &Member, caller: &NodeId) -> (r: bool)
    ensures
        r == names_key(member@.node_id, caller@),
{
    match NodeId::parse(member.node_id.as_str()) {
        Ok(id) => {
            proof {
                if names_key(member@.node_id, caller@) {
                    names_one_key(member@.node_id, id@, caller@);
                }
            }
            id.same(caller)
        },
        Err(_) => false,
    }
}

/// Resolve the repository addressed by `repo_id` and the member matching `caller`. The
/// unknown-repository and not-a-member denials use the same vague `public` text so that an outsider
/// holding a (possibly leaked) ticket can't tell them apart, while the `log` records the precise
/// reason.
pub fn resolve_member<'a>(grants: &'a Grants, repo_id: &[u8; 16], caller: &NodeId) -> (r: Result<
    (&'a RepoGrant, &'a Member),
    Denied,
>)
    ensures
        match member_for(grants@, repo_id@, caller@) {
            Ok((repo, member)) => r matches Ok((x, m)) && x@ == repo && m@ == member,
            Err(d) => r matches Err(e) && e@ == d,
        },
{
    let id = RepoId::from_bytes(*repo_id);
    let ghost has_id = |repo: RepoView| names_repo(repo.id, repo_id@);
    let mut k: usize = 0;
    while k < grants.repos.len() && !repo_has_id(&grants.repos[k], &id)
        invariant
            k <= grants.repos.len(),
            id@ == repo_id@,
            has_id == (|repo: RepoView| names_repo(repo.id, repo_id@)),
            forall|i: int| 0 <= i < k ==> !has_id(#[trigger] grants@[i]),
        decreases grants.repos.len() - k,
    {
        k = k + 1;
    }
    assert(grants@.len() == grants.repos@.len());
    proof {
        if k < grants@.len() {
            assert(has_id(grants@[k as int]));
        }
        lemma_first_where(grants@, has_id, k as int);
    }
    if k == grants.repos.len() {
        return Err(
            Denied { public: NOT_AUTHORIZED.to_owned(), log: "unknown repository".to_owned() },
        );
    }
    let repo = &grants.repos[k];
    let ghost is_caller = |m: MemberView| names_key(m.node_id, caller@);
    let mut i: usize = 0;
    while i < repo.members.len() && !member_is(&repo.members[i], caller)
        invariant
            i <= repo.members.len(),
            is_caller == (|m: MemberView| names_key(m.node_id, caller@)),
            forall|j: int| 0 <= j < i ==> !is_caller(#[trigger] repo@.members[j]),
        decreases repo.members.len() - i,
    {
        i = i + 1;
    }
    assert(repo@.members.len() == repo.members@.len());
    proof {
        if i < repo@.members.len() {
            assert(is_caller(repo@.members[i as int]));
        }
        lemma_first_where(repo@.members, is_caller, i as int);
    }
    if i == repo.members.len() {
        return Err(
            Denied { public: NOT_AUTHORIZED.to_owned(), log: "caller is not a member".to_owned() },
        );
    }
    Ok((repo, &repo.members[i]))
}

/// The verdict on a pack request: the path of the repository to serve, or the rejection.
pub open spec fn pack_verdict(repos: Seq<RepoView>, q: RequestView, caller: Seq<u8>) -> Result<Seq<char>, DeniedView> {
    if q.version != VERSION {
        Err(plainly("unsupported protocol version "@ + decimal(q.version as nat)))
    } else {
        match member_for(repos, q.repo_id, caller) {
            Err(d) => Err(d),
            Ok((repo, member)) => if q.service == Service::ReceivePack && !member.allow_push {
                Err(plainly("this repository is read-only for you"@))
            } else {
                Ok(repo.path)
            },
        }
    }
}

/// Authorize a pack request: the repository must exist, the caller must be a member, and push
/// requires `allow_push`.
pub fn authorize(grants: &Grants, req: &Request, caller: &NodeId) -> (r: Result<(String, Service), Denied>)
    ensures
        match pack_verdict(grants@, req@, caller@) {
            Ok(path) => r matches Ok((p, service)) && p@ == path && service == req.service,
            Err(d) => r matches Err(e) && e@ == d,
        },
{
    if req.version != VERSION {
        return Err(
            Denied::plain(
                "unsupported protocol version ".to_owned().concat(decimal_text(req.version as u64).as_str()),
            ),
        );
    }
    match resolve_member(grants, &req.repo_id, caller) {
        Err(d) => Err(d),
        Ok((repo, member)) => {
            if req.service == Service::ReceivePack && !member.allow_push {
                return Err(Denied::plain("this repository is read-only for you".to_owned()));
            }
            Ok((repo.path.clone(), req.service))
        },
    }
}

/// The verdict on an LFS request: the path of the repository to serve, or the rejection.
pub open spec fn lfs_verdict(repos: Seq<RepoView>, q: LfsRequestView, caller: Seq<u8>) -> Result<
    Seq<char>,
    DeniedView,
> {
    if q.version != LFS_VERSION {
        Err(plainly("unsupported LFS protocol version "@ + decimal(q.version as nat)))
    } else {
        match member_for(repos, q.repo_id, caller) {
            Err(d) => Err(d),
            Ok((repo, member)) => if !repo.lfs_enabled {
                Err(plainly("LFS is not enabled for this repository"@))
            } else if !member.allow_lfs {
                Err(plainly("you do not have LFS access to this repository"@))
            } else if q.op == LfsOp::Upload && !member.allow_push {
                Err(plainly("this repository is read-only for you"@))
            } else {
                Ok(repo.path)
            },
        }
    }
}

/// Authorize an LFS object transfer. On top of [`authorize`]'s repository and member check, the
/// repository's LFS switch must be on and the member must hold the LFS right; uploads also require
/// push access. The LFS-specific denials are clearer because they only come for an established
/// member, who already knows that the repository exists.
pub fn authorize_lfs(grants: &Grants, req: &LfsRequest, caller: &NodeId) -> (r: Result<String, Denied>)
    ensures
        match lfs_verdict(grants@, req@, caller@) {
            Ok(path) => r matches Ok(p) && p@ == path,
            Err(d) => r matches Err(e) && e@ == d,
        },
{
    if req.version != LFS_VERSION {
        return Err(
            Denied::plain(
                "unsupported LFS protocol version ".to_owned().concat(
                    decimal_text(req.version as u64).as_str(),
                ),
            ),
        );
    }
    match resolve_member(grants, &req.repo_id, caller) {
        Err(d) => Err(d),
        Ok((repo, member)) => {
            if !repo.lfs_enabled {
                return Err(Denied::plain("LFS is not enabled for this repository".to_owned()));
            }
            if !member.allow_lfs {
                return Err(Denied::plain("you do not have LFS access to this repository".to_owned()));
            }
            if req.op == LfsOp::Upload && !member.allow_push {
                return Err(Denied::plain("this repository is read-only for you".to_owned()));
            }
            Ok(repo.path.clone())
        },
    }
}

/// Whether the caller may use LFS on the repository.
pub open spec fn lfs_allowed(repos: Seq<RepoView>, repo_id: Seq<u8>, caller: Seq<u8>) -> bool {
    member_for(repos, repo_id, caller) matches Ok((repo, member)) && repo.lfs_enabled && member.allow_lfs
}

/// Whether `caller` may still use LFS on the repository identified by `repo_id` (a member of a
/// repository whose LFS is enabled, holding the LFS right). Drives the connection-level teardown for
/// LFS; the direction of each object is re-checked per stream by [`authorize_lfs`].
pub fn lfs_session_authorized(grants: &Grants, repo_id: &[u8; 16], caller: &NodeId) -> (r: bool)
    ensures
        r == lfs_allowed(grants@, repo_id@, caller@),
{
    match resolve_member(grants, repo_id, caller) {
        Ok((repo, member)) => repo.lfs_enabled && member.allow_lfs,
        Err(_) => false,
    }
}

/// How to re-check a live session against reloaded grants.
#[derive(Clone, Copy, Debug, PartialEq, Eq)]
pub enum Reauth {
    /// A git pack session: re-run the full pack authorization.
    Pack(Request),
    /// An LFS connection (one per friend, many object streams): keep it only while the caller still
    /// has LFS access to this repository.
    Lfs([u8; 16]),
}

/// Everything needed to re-authorize a live session.
#[derive(Clone, Copy, Debug, PartialEq, Eq)]
pub struct ActiveSession {
    pub caller: NodeId,
    pub auth: Reauth,
}

/// Whether the grants authorize a live session.
pub open spec fn session_allowed(repos: Seq<RepoView>, s: ActiveSession) -> bool {
    match s.auth {
        Reauth::Pack(q) => pack_verdict(repos, q@, s.caller@) is Ok,
        Reauth::Lfs(repo_id) => lfs_allowed(repos, repo_id@, s.caller@),
    }
}

impl ActiveSession {
    /// Whether the reloaded `grants` still authorize this live session.
    pub fn still_authorized(&self, grants: &Grants) -> (r: bool)
        ensures
            r == session_allowed(grants@, *self),
    {
        match &self.auth {
            Reauth::Pack(req) => authorize(grants, req, &self.caller).is_ok(),
            Reauth::Lfs(repo_id) => lfs_session_authorized(grants, repo_id, &self.caller),
        }
    }
}

/// In-flight sessions, keyed by a unique id, so that a change of the grants can close any whose
/// caller the new grants no longer authorize.
pub struct Sessions {
    next: u64,
    live: HashMap<u64, ActiveSession>,
}

impl View for Sessions {
    type V = Map<u64, ActiveSession>;

    closed spec fn view(&self) -> Map<u64, ActiveSession> {
        self.live@
    }
}

/// The ids of the sessions that the grants no longer authorize.
pub open spec fn revoked_ids(live: Map<u64, ActiveSession>, repos: Seq<RepoView>) -> Set<u64> {
    live.dom().filter(|id: u64| !session_allowed(repos, live[id]))
}

impl Sessions {
    /// The id that the next session gets.
    pub closed spec fn next_id(self) -> u64 {
        self.next
    }

    /// No sessions yet.
    pub fn new() -> (r: Sessions)
        ensures
            r@ == Map::<u64, ActiveSession>::empty(),
            r.next_id() == 0,
    {
        Sessions { next: 0, live: HashMap::new() }
    }

    /// Register a live session; its id removes it again when the serve finishes. The ids count up,
    /// and begin anew after the last.
    pub fn register(&mut self, caller: NodeId, auth: Reauth) -> (r: u64)
        ensures
            r == old(self).next_id(),
            final(self).next_id() == if old(self).next_id() == u64::MAX {
                0
            } else {
                old(self).next_id() + 1
            },
            final(self)@ == old(self)@.insert(r, ActiveSession { caller, auth }),
    {
        broadcast use vstd::std_specs::hash::group_hash_axioms;

        let id = self.next;
        self.next = if id == u64::MAX { 0 } else { id + 1 };
        self.live.insert(id, ActiveSession { caller, auth });
        id
    }

    /// Forget a session that has ended.
    pub fn remove(&mut self, id: u64)
        ensures
            final(self).next_id() == old(self).next_id(),
            final(self)@ == old(self)@.remove(id),
    {
        broadcast use vstd::std_specs::hash::group_hash_axioms;

        self.live.remove(&id);
        assert(self@ =~= old(self)@.remove(id));
    }

    /// Every in-flight session that the just-reloaded `grants` no longer authorize (member removed,
    /// repository unshared, write revoked mid-push, or LFS access dropped), with its caller. Closing
    /// its connection ends the session.
    pub fn close_revoked_sessions(&self, grants: &Grants) -> (r: Vec<(u64, NodeId)>)
        ensures
            r@.map_values(|x: (u64, NodeId)| x.0).to_set() == revoked_ids(self@, grants@),
            r@.map_values(|x: (u64, NodeId)| x.0).no_duplicates(),
            forall|i: int| 0 <= i < r@.len() ==> (#[trigger] r@[i]).1 == self@[r@[i].0].caller,
    {
        broadcast use vstd::std_specs::hash::group_hash_axioms;

        let mut r: Vec<(u64, NodeId)> = Vec::new();
        let ghost ids = |v: Seq<(u64, NodeId)>| v.map_values(|x: (u64, NodeId)| x.0);
        let ghost gone = |id: u64| !session_allowed(grants@, self@[id]);
        for key in it: self.live.keys()
            invariant
                ids == (|v: Seq<(u64, NodeId)>| v.map_values(|x: (u64, NodeId)| x.0)),
                gone == (|id: u64| !session_allowed(grants@, self@[id])),
                it.seq().unref().to_set() == self@.dom(),
                it.seq().no_duplicates(),
                forall|i: int|
                    0 <= i < it.index() && gone(#[trigger] it.seq().unref()[i]) ==> ids(r@).contains(
                        it.seq().unref()[i],
                    ),
                forall|j: int|
                    0 <= j < r@.len() ==> gone(#[trigger] ids(r@)[j]) && it.seq().unref().take(
                        it.index() as int,
                    ).contains(ids(r@)[j]),
                ids(r@).no_duplicates(),
                forall|i: int| 0 <= i < r@.len() ==> (#[trigger] r@[i]).1 == self@[r@[i].0].caller,
        {
            let ghost keys = it.seq().unref();
            let ghost k = it.index() as int;
            let ghost was = ids(r@);
            assert(keys[k] == *key);
            assert(keys.to_set().contains(keys[k]));
            let id: u64 = *key;
            if let Some(session) = self.live.get(&id) {
                if !session.still_authorized(grants) {
                    r.push((id, session.caller));
                    assert(ids(r@) =~= was.push(id));
                    assert(ids(r@)[was.len() as int] == id);
                    assert(was.contains(id) ==> keys.take(k).contains(id));
                    assert(!keys.take(k).contains(id));
                }
            }
            assert(keys.take(k + 1) =~= keys.take(k).push(id));
            assert forall|i: int| 0 <= i < k + 1 && gone(#[trigger] keys[i]) implies ids(r@).contains(keys[i]) by {
                if i < k {
                    assert(was.contains(keys[i]));
                    let j = choose|j: int| 0 <= j < was.len() && was[j] == keys[i];
                    assert(ids(r@)[j] == keys[i]);
                } else {
                    assert(ids(r@)[was.len() as int] == id);
                }
            }
            assert forall|j: int| 0 <= j < r@.len() implies gone(#[trigger] ids(r@)[j]) && keys.take(
                k + 1,
            ).contains(ids(r@)[j]) by {
                if j < was.len() {
                    assert(ids(r@)[j] == was[j]);
                    assert(keys.take(k).contains(was[j]));
                    let i = choose|i: int| 0 <= i < k && keys.take(k)[i] == was[j];
                    assert(keys.take(k + 1)[i] == was[j]);
                } else {
                    assert(keys.take(k + 1)[k] == id);
                }
            }
        }
        assert(ids(r@).to_set() =~= revoked_ids(self@, grants@));
        r
    }
}

/// How a pack connection goes on once its request has been read.
#[derive(Debug, PartialEq, Eq)]
pub enum PackAnswer {
    /// Reply [`Response::Accept`] and serve the repository at `path`.
    Serve { path: String, service: Service, log: String },
    /// Send the reply and close.
    Refuse { reply: Response, log: String },
}

/// Answer a pack request. The log line names the caller briefly; a refusal is logged with its precise
/// reason, while the caller only gets the vague form.
pub fn answer_pack(grants: &Grants, req: &Request, caller: &NodeId) -> (r: PackAnswer)
    ensures
        match pack_verdict(grants@, req@, caller@) {
            Ok(p) => r matches PackAnswer::Serve { path, service, log } && path@ == p && service == req.service
                && log@ == hex_text(caller@.take(5)) + " -> "@ + req.service.subcommand() + " "@ + p,
            Err(d) => r matches PackAnswer::Refuse { reply, log } && reply@ == ResponseView::Error(d.public)
                && log@ == "rejected "@ + hex_text(caller@.take(5)) + ": "@ + d.log,
        },
{
    match authorize(grants, req, caller) {
        Ok((path, service)) => {
            let log = caller.short_text().concat(" -> ").concat(service.git_subcommand()).concat(" ").concat(
                path.as_str(),
            );
            PackAnswer::Serve { path, service, log }
        },
        Err(denied) => {
            let log = "rejected ".to_owned().concat(caller.short_text().as_str()).concat(": ").concat(
                denied.log.as_str(),
            );
            PackAnswer::Refuse { reply: Response::Error(denied.public), log }
        },
    }
}

/// The arguments with which git serves a repository.
pub open spec fn serve_text(service: Service, path: Seq<char>) -> Seq<Seq<char>> {
    (match service {
        Service::ReceivePack => seq!["-c"@, "receive.fsckObjects=true"@],
        Service::UploadPack => Seq::empty(),
    }) + seq![service.subcommand(), path]
}

/// The arguments with which git serves a repository. Incoming objects are validated on push, so that
/// a write-authorized peer can't seed the repository with malformed objects that would later be
/// served to everyone else.
pub fn serve_args(service: Service, path: &str) -> (r: Vec<String>)
    ensures
        texts(r@) == serve_text(service, path@),
{
    let mut args: Vec<String> = Vec::new();
    if service == Service::ReceivePack {
        args.push("-c".to_owned());
        args.push("receive.fsckObjects=true".to_owned());
    }
    args.push(service.git_subcommand().to_owned());
    args.push(path.to_owned());
    assert(texts(args@) =~= serve_text(service, path@));
    args
}

/// How git serves an accepted request once its session has been registered, if the grants of that
/// moment still authorize it.
pub open spec fn confirmed(repos: Seq<RepoView>, q: RequestView, caller: Seq<u8>, path: Seq<char>) -> Option<
    Seq<Seq<char>>,
> {
    if pack_verdict(repos, q, caller) is Ok {
        Some(serve_text(q.service, path))
    } else {
        None
    }
}

/// Confirm a request that was accepted for the repository at `path`, once its session has been
/// registered: the arguments for git, or nothing where it is not to be served after all. A change of
/// the grants may have come between the answer and the registration, when its sweep could not see the
/// session yet.
pub fn confirm_pack(grants: &Grants, req: &Request, caller: &NodeId, path: &str) -> (r: Option<Vec<String>>)
    ensures
        match confirmed(grants@, req@, caller@, path@) {
            Some(args) => r matches Some(v) && texts(v@) == args,
            None => r is None,
        },
{
    if authorize(grants, req, caller).is_ok() {
        Some(serve_args(req.service, path))
    } else {
        None
    }
}

/// The name of an LFS operation in log lines.
pub open spec fn op_name(op: LfsOp) -> Seq<char> {
    match op {
        LfsOp::Download => "download"@,
        LfsOp::Upload => "upload"@,
    }
}

fn op_text(op: LfsOp) -> (r: &'static str)
    ensures
        r@ == op_name(op),
{
    match op {
        LfsOp::Download => "download",
        LfsOp::Upload => "upload",
    }
}

/// How an LFS stream goes on once its request has been read.
#[derive(Debug, PartialEq, Eq)]
pub enum LfsAnswer {
    /// Run the transfer in the repository at `path`; `timed_out` is what to report if it takes too
    /// long.
    Serve { path: String, log: String, timed_out: String },
    /// Send the reply and close the stream.
    Refuse { reply: LfsResponse, log: String },
}

/// Answer an LFS request.
pub fn answer_lfs(grants: &Grants, req: &LfsRequest, caller: &NodeId) -> (r: LfsAnswer)
    ensures
        match lfs_verdict(grants@, req@, caller@) {
            Ok(p) => r matches LfsAnswer::Serve { path, log, timed_out } && path@ == p && log@ == hex_text(
                caller@.take(5),
            ) + " -> lfs "@ + op_name(req.op) + " "@ + req.oid@ && timed_out@ == "lfs "@ + op_name(req.op)
                + " of "@ + req.oid@ + " timed out"@,
            Err(d) => r matches LfsAnswer::Refuse { reply, log } && reply@ == LfsResponseView::Error(d.public)
                && log@ == "rejected lfs "@ + hex_text(caller@.take(5)) + ": "@ + d.log,
        },
{
    match authorize_lfs(grants, req, caller) {
        Ok(path) => {
            let op = op_text(req.op);
            let log = caller.short_text().concat(" -> lfs ").concat(op).concat(" ").concat(req.oid.as_str());
            let timed_out = "lfs ".to_owned().concat(op).concat(" of ").concat(req.oid.as_str()).concat(
                " timed out",
            );
            LfsAnswer::Serve { path, log, timed_out }
        },
        Err(denied) => {
            let log = "rejected lfs ".to_owned().concat(caller.short_text().as_str()).concat(": ").concat(
                denied.log.as_str(),
            );
            LfsAnswer::Refuse { reply: LfsResponse::Error(denied.public), log }
        },
    }
}

/// What happens on an LFS connection.
#[derive(Clone, Copy, Debug, PartialEq, Eq)]
pub enum LfsEvent {
    /// The client has closed it.
    Closed,
    /// No new stream has come for the idle timeout; so many stream permits are free.
    Idle { available: usize },
    /// A stream came whose request was slow or broken.
    Garbled,
    /// A stream came that addresses this repository.
    Request { repo_id: [u8; 16] },
}

/// What the daemon does about it.
#[derive(Debug, PartialEq, Eq)]
pub enum LfsStep {
    /// Close the connection and give its slot back.
    End,
    /// Wait for the next stream.
    Wait,
    /// Register the connection under the repository (so that a revoke can close it), and serve the
    /// stream.
    RegisterAndServe,
    /// Serve the stream.
    Serve,
    /// Refuse the stream, and wait for the next.
    Refuse(LfsResponse),
}

/// What happens on an LFS connection, over bytes.
pub enum LfsEventView {
    Closed,
    Idle { available: int },
    Garbled,
    Request { repo_id: Seq<u8> },
}

/// What the daemon does about it, over characters.
pub enum LfsStepView {
    End,
    Wait,
    RegisterAndServe,
    Serve,
    Refuse(LfsResponseView),
}

impl View for LfsEvent {
    type V = LfsEventView;

    open spec fn view(&self) -> LfsEventView {
        match self {
            LfsEvent::Closed => LfsEventView::Closed,
            LfsEvent::Idle { available } => LfsEventView::Idle { available: *available as int },
            LfsEvent::Garbled => LfsEventView::Garbled,
            LfsEvent::Request { repo_id } => LfsEventView::Request { repo_id: repo_id@ },
        }
    }
}

impl View for LfsStep {
    type V = LfsStepView;

    open spec fn view(&self) -> LfsStepView {
        match self {
            LfsStep::End => LfsStepView::End,
            LfsStep::Wait => LfsStepView::Wait,
            LfsStep::RegisterAndServe => LfsStepView::RegisterAndServe,
            LfsStep::Serve => LfsStepView::Serve,
            LfsStep::Refuse(reply) => LfsStepView::Refuse(reply@),
        }
    }
}

/// How an LFS connection goes on that is pinned to a repository, or not yet. It is pinned to the
/// repository of its first object, because the connection-level revoke check tracks only one. It is
/// closed for idleness only when nothing is in flight: a running transfer holds a stream permit.
pub open spec fn lfs_step(pinned: Option<Seq<u8>>, event: LfsEventView) -> (Option<Seq<u8>>, LfsStepView) {
    match event {
        LfsEventView::Closed => (pinned, LfsStepView::End),
        LfsEventView::Idle { available } => (
            pinned,
            if available == MAX_LFS_STREAMS_PER_CONN {
                LfsStepView::End
            } else {
                LfsStepView::Wait
            },
        ),
        LfsEventView::Garbled => (pinned, LfsStepView::Wait),
        LfsEventView::Request { repo_id } => match pinned {
            None => (Some(repo_id), LfsStepView::RegisterAndServe),
            Some(id) => (
                pinned,
                if id == repo_id {
                    LfsStepView::Serve
                } else {
                    LfsStepView::Refuse(
                        LfsResponseView::Error("an LFS connection may address only one repository"@),
                    )
                },
            ),
        },
    }
}

/// A connection over which LFS objects are served, one stream each.
pub struct LfsConnection {
    pinned: Option<[u8; 16]>,
}

impl View for LfsConnection {
    type V = Option<Seq<u8>>;

    /// The repository to which the connection is pinned.
    closed spec fn view(&self) -> Option<Seq<u8>> {
        match self.pinned {
            Some(id) => Some(id@),
            None => None,
        }
    }
}

impl LfsConnection {
    /// A connection on which nothing has come yet.
    pub fn new() -> (r: LfsConnection)
        ensures
            r@ is None,
    {
        LfsConnection { pinned: None }
    }

    /// Decide about what has happened.
    pub fn step(&mut self, event: LfsEvent) -> (r: LfsStep)
        ensures
            final(self)@ == lfs_step(old(self)@, event@).0,
            r@ == lfs_step(old(self)@, event@).1,
    {
        match event {
            LfsEvent::Closed => LfsStep::End,
            LfsEvent::Idle { available } => {
                if available == MAX_LFS_STREAMS_PER_CONN {
                    LfsStep::End
                } else {
                    LfsStep::Wait
                }
            },
            LfsEvent::Garbled => LfsStep::Wait,
            LfsEvent::Request { repo_id } => match self.pinned {
                None => {
                    self.pinned = Some(repo_id);
                    LfsStep::RegisterAndServe
                },
                Some(id) => {
                    if same_bytes(&id, &repo_id) {
                        LfsStep::Serve
                    } else {
                        LfsStep::Refuse(
                            LfsResponse::Error(
                                "an LFS connection may address only one repository".to_owned(),
                            ),
                        )
                    }
                },
            },
        }
    }
}

/// An LFS connection serves one repository only: once it is pinned it stays so, and every stream that
/// is served addresses the repository under which the connection is registered.
pub proof fn lfs_connection_serves_one_repository(pinned: Option<Seq<u8>>, event: LfsEventView)
    ensures
        ({
            let (after, step) = lfs_step(pinned, event);
            &&& pinned is Some ==> after == pinned
            &&& step == LfsStepView::Serve || step == LfsStepView::RegisterAndServe ==> (event
                matches LfsEventView::Request { repo_id } && after == Some(repo_id))
            &&& step == LfsStepView::RegisterAndServe <==> pinned is None && after is Some
        }),
{
}

/// A snapshot of the daemon's state, for interfaces that want to show status.
#[derive(Clone, Debug, PartialEq, Eq)]
pub struct Status {
    /// True once the endpoint has reached a relay and is reachable.
    pub online: bool,
    /// The daemon's NODE_ID (hex), set once online.
    pub node_id: Option<String>,
    /// The relay that the daemon is homed on, if any.
    pub relay: Option<String>,
    /// Number of repositories currently shared.
    pub repos: usize,
}

impl Default for Status {
    /// Not online yet, and nothing shared.
    fn default() -> (r: Status)
        ensures
            r == (Status { online: false, node_id: None, relay: None, repos: 0 }),
    {
        Status { online: false, node_id: None, relay: None, repos: 0 }
    }
}

impl Status {
    /// The daemon has come online under this node id, homed on this relay.
    pub fn come_online(&mut self, node_id: String, relay: Option<String>)
        ensures
            *final(self) == (Status { online: true, node_id: Some(node_id), relay, repos: old(self).repos }),
    {
        self.online = true;
        self.node_id = Some(node_id);
        self.relay = relay;
    }
}

/// What a reload of the grants leads to.
#[derive(Debug, PartialEq, Eq)]
pub struct Reload {
    /// The sessions to close, with their callers.
    pub revoked: Vec<(u64, NodeId)>,
    /// What to print.
    pub line: String,
}

/// Take reloaded grants into account, which have been published before: the status shows how many
/// repositories are shared, and the sessions that the grants no longer authorize are to be closed.
pub fn reload(status: &mut Status, sessions: &Sessions, grants: &Grants) -> (r: Reload)
    ensures
        *final(status) == (Status { repos: grants.repos@.len() as usize, ..*old(status) }),
        final(status).repos == grants@.len(),
        r.revoked@.map_values(|x: (u64, NodeId)| x.0).to_set() == revoked_ids(sessions@, grants@),
        r.revoked@.map_values(|x: (u64, NodeId)| x.0).no_duplicates(),
        forall|i: int| 0 <= i < r.revoked@.len() ==> (#[trigger] r.revoked@[i]).1 == sessions@[r.revoked@[i].0].caller,
        r.line@ == "grants reloaded ("@ + decimal(grants@.len()) + " repositories)"@,
{
    let n = grants.repos.len();
    status.repos = n;
    let line = "grants reloaded (".to_owned().concat(decimal_text(n as u64).as_str()).concat(" repositories)");
    Reload { revoked: sessions.close_revoked_sessions(grants), line }
}

/// What to log about a session that was closed because its caller's access was revoked.
pub fn closed_line(caller: &NodeId) -> (r: String)
    ensures
        r@ == "closed revoked session for "@ + hex_text(caller@.take(5)),
{
    "closed revoked session for ".to_owned().concat(caller.short_text().as_str())
}

/// What the daemon prints when it has come online.
pub open spec fn online_text(node_id: Seq<char>, relay: Option<Seq<char>>, repos: nat) -> Seq<Seq<char>> {
    seq!["iroh-git-daemon online"@, "NODE_ID: "@ + node_id] + (match relay {
        Some(url) => seq!["relay:   "@ + url],
        None => Seq::empty(),
    }) + seq!["serving "@ + decimal(repos) + " repositories"@]
}

/// What the daemon prints when it has come online, line by line.
pub fn online_lines(node_id: &str, relay: &Option<String>, repos: usize) -> (r: Vec<String>)
    ensures
        texts(r@) == online_text(node_id@, option_view(*relay), repos as nat),
{
    let mut r: Vec<String> = Vec::new();
    r.push("iroh-git-daemon online".to_owned());
    r.push("NODE_ID: ".to_owned().concat(node_id));
    if let Some(url) = relay {
        r.push("relay:   ".to_owned().concat(url.as_str()));
    }
    r.push("serving ".to_owned().concat(decimal_text(repos as u64).as_str()).concat(" repositories"));
    assert(texts(r@) =~= online_text(node_id@, option_view(*relay), repos as nat));
    r
}

/// The id addresses the repository at this offset: it is the first whose id it is.
pub open spec fn addresses(repos: Seq<RepoView>, id: Seq<u8>, at: int) -> bool {
    &&& 0 <= at < repos.len()
    &&& names_repo(repos[at].id, id)
    &&& forall|i: int| 0 <= i < at ==> !names_repo((#[trigger] repos[i]).id, id)
}

/// The entry at this offset is the one by which the members' list knows the caller: the first whose
/// node id is the caller's.
pub open spec fn listed_at(members: Seq<MemberView>, caller: Seq<u8>, who: int) -> bool {
    &&& 0 <= who < members.len()
    &&& names_key(members[who].node_id, caller)
    &&& forall|i: int| 0 <= i < who ==> !names_key((#[trigger] members[i]).node_id, caller)
}

/// The caller is a member, by the entry `who`, of the repository at `at`, which the id addresses.
pub open spec fn is_member_by(repos: Seq<RepoView>, id: Seq<u8>, caller: Seq<u8>, at: int, who: int) -> bool {
    addresses(repos, id, at) && listed_at(repos[at].members, caller, who)
}

proof fn lemma_member_for(repos: Seq<RepoView>, id: Seq<u8>, caller: Seq<u8>, at: int, who: int)
    requires
        is_member_by(repos, id, caller, at, who),
    ensures
        member_for(repos, id, caller) == Ok::<(RepoView, MemberView), DeniedView>(
            (repos[at], repos[at].members[who]),
        ),
{
    let p = |repo: RepoView| names_repo(repo.id, id);
    assert forall|i: int| 0 <= i < at implies !p(#[trigger] repos[i]) by {}
    assert(p(repos[at]));
    lemma_first_where(repos, p, at);
    let members = repos[at].members;
    let q = |m: MemberView| names_key(m.node_id, caller);
    assert forall|i: int| 0 <= i < who implies !q(#[trigger] members[i]) by {}
    assert(q(members[who]));
    lemma_first_where(members, q, who);
}

proof fn lemma_no_member_for(repos: Seq<RepoView>, id: Seq<u8>, caller: Seq<u8>)
    ensures
        member_for(repos, id, caller) is Err <==> forall|at: int, who: int|
            !is_member_by(repos, id, caller, at, who),
        member_for(repos, id, caller) matches Err(d) ==> d.public == "not authorized for this repository"@,
        member_for(repos, id, caller) matches Err(d) ==> if forall|at: int| !addresses(repos, id, at) {
            d.log == "unknown repository"@
        } else {
            d.log == "caller is not a member"@
        },
{
    let p = |repo: RepoView| names_repo(repo.id, id);
    lemma_first_where_bounds(repos, p);
    let at = repo_with_id(repos, id);
    assert forall|i: int| 0 <= i < at implies !names_repo((#[trigger] repos[i]).id, id) by {
        assert(!p(repos[i]));
    }
    if at < repos.len() {
        assert(p(repos[at]));
        assert(addresses(repos, id, at));
        let members = repos[at].members;
        let q = |m: MemberView| names_key(m.node_id, caller);
        lemma_first_where_bounds(members, q);
        let who = caller_at(members, caller);
        assert forall|i: int| 0 <= i < who implies !names_key((#[trigger] members[i]).node_id, caller) by {
            assert(!q(members[i]));
        }
        if who < members.len() {
            assert(q(members[who]));
            assert(is_member_by(repos, id, caller, at, who));
        } else {
            assert forall|a: int, w: int| !is_member_by(repos, id, caller, a, w) by {
                if is_member_by(repos, id, caller, a, w) {
                    lemma_member_for(repos, id, caller, a, w);
                }
            }
        }
    } else {
        assert forall|a: int| !addresses(repos, id, a) by {
            if addresses(repos, id, a) {
                assert(!p(repos[a]));
            }
        }
    }
}

/// Every git request is judged by the entry of its caller in the repository that it addresses, and
/// served from the path of that repository: a member may fetch, and may push where the entry allows
/// it. Nobody else is served anything.
pub proof fn pack_requests_are_judged_by_the_callers_entry(repos: Seq<RepoView>, q: RequestView, caller: Seq<u8>)
    ensures
        forall|at: int, who: int| #[trigger]
            is_member_by(repos, q.repo_id, caller, at, who) && q.version == 0 ==> {
                let allowed = q.service == Service::UploadPack || repos[at].members[who].allow_push;
                match pack_verdict(repos, q, caller) {
                    Ok(path) => allowed && path == repos[at].path,
                    Err(d) => !allowed && d.public == "this repository is read-only for you"@ && d.log
                        == d.public,
                }
            },
        pack_verdict(repos, q, caller) is Ok ==> q.version == 0 && exists|at: int, who: int| #[trigger]
            is_member_by(repos, q.repo_id, caller, at, who),
{
    lemma_no_member_for(repos, q.repo_id, caller);
    assert forall|at: int, who: int| #[trigger]
        is_member_by(repos, q.repo_id, caller, at, who) && q.version == 0 implies {
        let allowed = q.service == Service::UploadPack || repos[at].members[who].allow_push;
        match pack_verdict(repos, q, caller) {
            Ok(path) => allowed && path == repos[at].path,
            Err(d) => !allowed && d.public == "this repository is read-only for you"@ && d.log == d.public,
        }
    } by {
        lemma_member_for(repos, q.repo_id, caller, at, who);
    }
}

/// Every LFS request is judged by the entry of its caller in the repository that it addresses, and
/// served from the path of that repository: a transfer takes the repository's switch and the entry's
/// LFS right, and an upload also its right to push. Which of these is missing is said, the switch
/// first. Nobody else is served anything.
pub proof fn lfs_requests_are_judged_by_the_callers_entry(repos: Seq<RepoView>, l: LfsRequestView, caller: Seq<u8>)
    ensures
        forall|at: int, who: int| #[trigger]
            is_member_by(repos, l.repo_id, caller, at, who) && l.version == 0 ==> {
                let (on, m) = (repos[at].lfs_enabled, repos[at].members[who]);
                let allowed = on && m.allow_lfs && (l.op == LfsOp::Download || m.allow_push);
                match lfs_verdict(repos, l, caller) {
                    Ok(path) => allowed && path == repos[at].path,
                    Err(d) => {
                        &&& !allowed && d.log == d.public
                        &&& !on <==> d.public == "LFS is not enabled for this repository"@
                        &&& on && !m.allow_lfs <==> d.public == "you do not have LFS access to this repository"@
                        &&& on && m.allow_lfs <==> d.public == "this repository is read-only for you"@
                    },
                }
            },
        lfs_verdict(repos, l, caller) is Ok ==> l.version == 0 && exists|at: int, who: int| #[trigger]
            is_member_by(repos, l.repo_id, caller, at, who),
{
    reveal_strlit("LFS is not enabled for this repository");
    reveal_strlit("you do not have LFS access to this repository");
    reveal_strlit("this repository is read-only for you");
    lemma_no_member_for(repos, l.repo_id, caller);
    assert("LFS is not enabled for this repository"@.len() == 38);
    assert("you do not have LFS access to this repository"@.len() == 45);
    assert("this repository is read-only for you"@.len() == 36);
    assert forall|at: int, who: int| #[trigger]
        is_member_by(repos, l.repo_id, caller, at, who) && l.version == 0 implies {
        let (on, m) = (repos[at].lfs_enabled, repos[at].members[who]);
        let allowed = on && m.allow_lfs && (l.op == LfsOp::Download || m.allow_push);
        match lfs_verdict(repos, l, caller) {
            Ok(path) => allowed && path == repos[at].path,
            Err(d) => {
                &&& !allowed && d.log == d.public
                &&& !on <==> d.public == "LFS is not enabled for this repository"@
                &&& on && !m.allow_lfs <==> d.public == "you do not have LFS access to this repository"@
                &&& on && m.allow_lfs <==> d.public == "this repository is read-only for you"@
            },
        }
    } by {
        lemma_member_for(repos, l.repo_id, caller, at, who);
    }
}

/// An LFS transfer and a fetch that address the same repository are served from the same path: that of
/// the repository which the id addresses.
pub proof fn transfers_and_fetches_reach_the_same_repository(
    repos: Seq<RepoView>,
    l: LfsRequestView,
    q: RequestView,
    caller: Seq<u8>,
    at: int,
)
    requires
        l.repo_id == q.repo_id,
        addresses(repos, q.repo_id, at),
    ensures
        lfs_verdict(repos, l, caller) matches Ok(p) ==> p == repos[at].path,
        pack_verdict(repos, q, caller) matches Ok(p) ==> p == repos[at].path,
        lfs_verdict(repos, l, caller) is Ok && pack_verdict(repos, q, caller) is Ok ==> lfs_verdict(repos, l, caller)
            == pack_verdict(repos, q, caller),
{
    pack_requests_are_judged_by_the_callers_entry(repos, q, caller);
    lfs_requests_are_judged_by_the_callers_entry(repos, l, caller);
    assert forall|a: int, w: int| is_member_by(repos, q.repo_id, caller, a, w) implies a == at by {
        if a < at {
            assert(!names_repo(repos[a].id, q.repo_id));
        } else if at < a {
            assert(!names_repo(repos[at].id, q.repo_id));
        }
    }
}

/// Whoever is no member of the repository that a request addresses is told the same, whether or not
/// there is such a repository, and the log tells the two apart.
pub proof fn refused_strangers_are_logged_precisely(
    repos: Seq<RepoView>,
    q: RequestView,
    l: LfsRequestView,
    caller: Seq<u8>,
)
    requires
        q.version == 0,
        l.version == 0,
        q.repo_id == l.repo_id,
        forall|at: int, who: int| !is_member_by(repos, q.repo_id, caller, at, who),
    ensures
        ({
            let log = if exists|at: int| addresses(repos, q.repo_id, at) {
                "caller is not a member"@
            } else {
                "unknown repository"@
            };
            let denied = DeniedView { public: "not authorized for this repository"@, log };
            &&& pack_verdict(repos, q, caller) == Err::<Seq<char>, DeniedView>(denied)
            &&& lfs_verdict(repos, l, caller) == Err::<Seq<char>, DeniedView>(denied)
        }),
{
    lemma_no_member_for(repos, q.repo_id, caller);
}

/// A request of another version is refused whoever sends it and whatever it addresses, and the refusal
/// names the version.
pub proof fn other_versions_are_refused(repos: Seq<RepoView>, q: RequestView, l: LfsRequestView, caller: Seq<u8>)
    ensures
        q.version != 0 ==> (pack_verdict(repos, q, caller) matches Err(d) && d.public
            == "unsupported protocol version "@ + decimal(q.version as nat) && d.log == d.public),
        l.version != 0 ==> (lfs_verdict(repos, l, caller) matches Err(d) && d.public
            == "unsupported LFS protocol version "@ + decimal(l.version as nat) && d.log == d.public),
{
}

/// A live session is kept exactly while its caller's entry in its repository would let it begin anew: a
/// git session while its request would be served, and an LFS session while a download would be.
pub proof fn sessions_live_while_they_could_begin(repos: Seq<RepoView>, s: ActiveSession, oid: Seq<char>, size: nat)
    ensures
        s.auth matches Reauth::Pack(q) ==> {
            &&& session_allowed(repos, s) <==> pack_verdict(repos, q@, s.caller@) is Ok
            &&& session_allowed(repos, s) <==> q.version == 0 && exists|at: int, who: int|
                {
                    &&& #[trigger] is_member_by(repos, q.repo_id@, s.caller@, at, who)
                    &&& q.service == Service::ReceivePack ==> repos[at].members[who].allow_push
                }
        },
        s.auth matches Reauth::Lfs(id) ==> {
            &&& session_allowed(repos, s) <==> lfs_verdict(
                repos,
                LfsRequestView { version: 0, repo_id: id@, op: LfsOp::Download, oid, size },
                s.caller@,
            ) is Ok
            &&& session_allowed(repos, s) <==> exists|at: int, who: int|
                {
                    &&& #[trigger] is_member_by(repos, id@, s.caller@, at, who)
                    &&& repos[at].lfs_enabled
                    &&& repos[at].members[who].allow_lfs
                }
        },
{
    match s.auth {
        Reauth::Pack(q) => {
            pack_requests_are_judged_by_the_callers_entry(repos, q@, s.caller@);
        },
        Reauth::Lfs(id) => {
            lfs_requests_are_judged_by_the_callers_entry(
                repos,
                LfsRequestView { version: 0, repo_id: id@, op: LfsOp::Download, oid, size },
                s.caller@,
            );
        },
    }
}

/// Turning off a repository's LFS switch closes every LFS session of it, and no git session.
pub proof fn turning_lfs_off_closes_its_sessions(
    live: Map<u64, ActiveSession>,
    repos: Seq<RepoView>,
    at: int,
    key: u64,
    id: [u8; 16],
)
    requires
        addresses(repos, id@, at),
        live.contains_key(key),
    ensures
        ({
            let off = repos.update(at, RepoView { lfs_enabled: false, ..repos[at] });
            &&& live[key].auth == Reauth::Lfs(id) ==> revoked_ids(live, off).contains(key)
            &&& live[key].auth is Pack ==> (revoked_ids(live, off).contains(key) <==> revoked_ids(
                live,
                repos,
            ).contains(key))
        }),
{
    let off = repos.update(at, RepoView { lfs_enabled: false, ..repos[at] });
    let s = live[key];
    assert forall|i: [u8; 16], a: int, w: int|
        is_member_by(repos, i@, s.caller@, a, w) <==> is_member_by(off, i@, s.caller@, a, w) by {
        assert forall|j: int| 0 <= j < repos.len() implies (#[trigger] off[j]).id == repos[j].id && off[j].members
            == repos[j].members by {}
        if is_member_by(repos, i@, s.caller@, a, w) {
            assert forall|j: int| 0 <= j < a implies !names_repo((#[trigger] off[j]).id, i@) by {
                assert(!names_repo(repos[j].id, i@));
            }
        }
        if is_member_by(off, i@, s.caller@, a, w) {
            assert forall|j: int| 0 <= j < a implies !names_repo((#[trigger] repos[j]).id, i@) by {
                assert(!names_repo(off[j].id, i@));
            }
        }
    }
    sessions_live_while_they_could_begin(repos, s, Seq::empty(), 0);
    sessions_live_while_they_could_begin(off, s, Seq::empty(), 0);
    match s.auth {
        Reauth::Lfs(i) => {
            if i == id && session_allowed(off, s) {
                let (a, w) = choose|a: int, w: int|
                    #[trigger] is_member_by(off, i@, s.caller@, a, w) && off[a].lfs_enabled
                        && off[a].members[w].allow_lfs;
                assert(is_member_by(repos, i@, s.caller@, a, w));
                if a < at {
                    assert(!names_repo(repos[a].id, id@));
                } else if at < a {
                    assert(!names_repo(repos[at].id, id@));
                }
            }
        },
        Reauth::Pack(q) => {
            if session_allowed(off, s) {
                let (a, w) = choose|a: int, w: int|
                    #[trigger] is_member_by(off, q.repo_id@, s.caller@, a, w) && (q.service
                        == Service::ReceivePack ==> off[a].members[w].allow_push);
                assert(is_member_by(repos, q.repo_id@, s.caller@, a, w));
            }
            if session_allowed(repos, s) {
                let (a, w) = choose|a: int, w: int|
                    #[trigger] is_member_by(repos, q.repo_id@, s.caller@, a, w) && (q.service
                        == Service::ReceivePack ==> repos[a].members[w].allow_push);
                assert(is_member_by(off, q.repo_id@, s.caller@, a, w));
            }
        },
    }
}

/// Whatever [`authorize`] and [`authorize_lfs`] grant is the path of the repository that the request
/// addresses, to a member of it; the service granted is the one asked for.
pub proof fn what_is_granted_is_what_was_addressed(
    grants: &Grants,
    req: &Request,
    lfs: &LfsRequest,
    caller: &NodeId,
    pack: Result<(String, Service), Denied>,
    transfer: Result<String, Denied>,
)
    requires
        call_ensures(authorize, (grants, req, caller), pack),
        call_ensures(authorize_lfs, (grants, lfs, caller), transfer),
    ensures
        pack matches Ok((path, service)) ==> service == req.service && req.version == 0 && exists|at: int, who: int|
            {
                &&& #[trigger] is_member_by(grants@, req.repo_id@, caller@, at, who)
                &&& path@ == grants@[at].path
                &&& service == Service::ReceivePack ==> grants@[at].members[who].allow_push
            },
        transfer matches Ok(path) ==> lfs.version == 0 && exists|at: int, who: int|
            {
                &&& #[trigger] is_member_by(grants@, lfs.repo_id@, caller@, at, who)
                &&& path@ == grants@[at].path
                &&& grants@[at].lfs_enabled
                &&& grants@[at].members[who].allow_lfs
                &&& lfs.op == LfsOp::Upload ==> grants@[at].members[who].allow_push
            },
{
    pack_requests_are_judged_by_the_callers_entry(grants@, req@, caller@);
    lfs_requests_are_judged_by_the_callers_entry(grants@, lfs@, caller@);
}

/// Every member is granted what their entry allows: a fetch always, a push with the right to push, and
/// a transfer where the switch and the rights for it are on.
pub proof fn members_are_granted_what_their_entry_allows(
    grants: &Grants,
    req: &Request,
    lfs: &LfsRequest,
    caller: &NodeId,
    pack: Result<(String, Service), Denied>,
    transfer: Result<String, Denied>,
    at: int,
    who: int,
)
    requires
        call_ensures(authorize, (grants, req, caller), pack),
        call_ensures(authorize_lfs, (grants, lfs, caller), transfer),
        req.repo_id == lfs.repo_id,
        req.version == 0,
        lfs.version == 0,
        is_member_by(grants@, req.repo_id@, caller@, at, who),
    ensures
        req.service == Service::UploadPack ==> pack is Ok,
        grants@[at].members[who].allow_push ==> pack is Ok,
        grants@[at].lfs_enabled && grants@[at].members[who].allow_lfs && lfs.op == LfsOp::Download ==> transfer is Ok,
        grants@[at].lfs_enabled && grants@[at].members[who].allow_lfs && grants@[at].members[who].allow_push
            ==> transfer is Ok,
{
    pack_requests_are_judged_by_the_callers_entry(grants@, req@, caller@);
    lfs_requests_are_judged_by_the_callers_entry(grants@, lfs@, caller@);
}

/// A connection is answered as [`authorize`] decides: it is served what is granted, and a refusal
/// carries its public reason to the caller and its precise reason to the log.
pub proof fn connections_are_answered_as_decided(
    grants: &Grants,
    req: &Request,
    caller: &NodeId,
    verdict: Result<(String, Service), Denied>,
    answer: PackAnswer,
)
    requires
        call_ensures(authorize, (grants, req, caller), verdict),
        call_ensures(answer_pack, (grants, req, caller), answer),
    ensures
        verdict is Ok <==> answer is Serve,
        verdict matches Ok((p, s)) ==> (answer matches PackAnswer::Serve { path, service, log } && path@ == p@
            && service == s && log@ == hex_text(caller@.take(5)) + " -> "@ + (if s == Service::UploadPack {
            "upload-pack"@
        } else {
            "receive-pack"@
        }) + " "@ + p@),
        verdict matches Err(d) ==> (answer matches PackAnswer::Refuse { reply: Response::Error(m), log } && m@
            == d.public@ && log@ == "rejected "@ + hex_text(caller@.take(5)) + ": "@ + d.log@),
{
}

/// An LFS stream is answered as [`authorize_lfs`] decides, in the same way.
pub proof fn lfs_streams_are_answered_as_decided(
    grants: &Grants,
    req: &LfsRequest,
    caller: &NodeId,
    verdict: Result<String, Denied>,
    answer: LfsAnswer,
)
    requires
        call_ensures(authorize_lfs, (grants, req, caller), verdict),
        call_ensures(answer_lfs, (grants, req, caller), answer),
    ensures
        verdict is Ok <==> answer is Serve,
        verdict matches Ok(p) ==> ({
            let what = if req.op == LfsOp::Download {
                "download"@
            } else {
                "upload"@
            };
            answer matches LfsAnswer::Serve { path, log, timed_out } && path@ == p@ && log@ == hex_text(
                caller@.take(5),
            ) + " -> lfs "@ + what + " "@ + req.oid@ && timed_out@ == "lfs "@ + what + " of "@ + req.oid@
                + " timed out"@
        }),
        verdict matches Err(d) ==> (answer matches LfsAnswer::Refuse { reply: LfsResponse::Error(m), log } && m@
            == d.public@ && log@ == "rejected lfs "@ + hex_text(caller@.take(5)) + ": "@ + d.log@),
{
}

/// An accepted request is confirmed exactly if the grants of that moment still authorize it, and git
/// then serves the accepted path with the service asked for.
pub proof fn confirmation_asks_again(
    grants: &Grants,
    req: &Request,
    caller: &NodeId,
    path: &str,
    verdict: Result<(String, Service), Denied>,
    args: Option<Vec<String>>,
)
    requires
        call_ensures(authorize, (grants, req, caller), verdict),
        call_ensures(confirm_pack, (grants, req, caller, path), args),
    ensures
        args is Some <==> verdict is Ok,
        args matches Some(v) ==> texts(v@) == serve_text(req.service, path@),
{
}

/// Git is run with the subcommand of the service and then the path, as the last two arguments; before
/// a push it is told to check every object, and nothing else comes before them.
pub proof fn git_serves_the_path(service: Service, path: &str, args: Vec<String>)
    requires
        call_ensures(serve_args, (service, path), args),
    ensures
        args@.len() >= 2,
        args@.last()@ == path@,
        args@[args@.len() - 2]@ == if service == Service::ReceivePack {
            "receive-pack"@
        } else {
            "upload-pack"@
        },
        service == Service::UploadPack ==> args@.len() == 2,
        service == Service::ReceivePack ==> args@.len() == 4 && args@[0]@ == "-c"@ && args@[1]@
            == "receive.fsckObjects=true"@,
{
    let n = args@.len() as int;
    assert(texts(args@).len() == n);
    assert(texts(args@)[n - 1] == args@[n - 1]@);
    assert(texts(args@)[n - 2] == args@[n - 2]@);
    if n == 4 {
        assert(texts(args@)[0] == args@[0]@);
        assert(texts(args@)[1] == args@[1]@);
    }
}

/// The sweep names every live session that the grants no longer authorize, with its caller, and no
/// other; what it leaves is authorized.
pub proof fn the_sweep_finds_exactly_the_revoked(
    sessions: &Sessions,
    grants: &Grants,
    found: Vec<(u64, NodeId)>,
    id: u64,
    caller: NodeId,
    kept: bool,
)
    requires
        call_ensures(Sessions::close_revoked_sessions, (sessions, grants), found),
        sessions@.contains_key(id) ==> call_ensures(
            ActiveSession::still_authorized,
            (&sessions@[id], grants),
            kept,
        ),
    ensures
        found@.contains((id, caller)) <==> sessions@.contains_key(id) && !kept && sessions@[id].caller == caller,
{
    let ids = found@.map_values(|x: (u64, NodeId)| x.0);
    if found@.contains((id, caller)) {
        let i = choose|i: int| 0 <= i < found@.len() && found@[i] == (id, caller);
        assert(ids[i] == id);
        assert(ids.to_set().contains(id));
        assert(found@[i].1 == sessions@[found@[i].0].caller);
    }
    if sessions@.contains_key(id) && !kept && sessions@[id].caller == caller {
        assert(revoked_ids(sessions@, grants@).contains(id));
        assert(ids.to_set().contains(id));
        let i = choose|i: int| 0 <= i < ids.len() && ids[i] == id;
        assert(found@[i].0 == id);
        assert(found@[i].1 == sessions@[found@[i].0].caller);
        assert(found@[i] == (id, caller));
    }
}

/// A session that is kept is one that the grants authorize, by its caller's entry in its repository:
/// for git the right that its service takes, for LFS the switch and the LFS right.
pub proof fn kept_sessions_have_their_rights(session: &ActiveSession, grants: &Grants, kept: bool)
    requires
        call_ensures(ActiveSession::still_authorized, (session, grants), kept),
    ensures
        session.auth matches Reauth::Pack(q) ==> (kept <==> q.version == 0 && exists|at: int, who: int|
            {
                &&& #[trigger] is_member_by(grants@, q.repo_id@, session.caller@, at, who)
                &&& q.service == Service::ReceivePack ==> grants@[at].members[who].allow_push
            }),
        session.auth matches Reauth::Lfs(id) ==> (kept <==> exists|at: int, who: int|
            {
                &&& #[trigger] is_member_by(grants@, id@, session.caller@, at, who)
                &&& grants@[at].lfs_enabled
                &&& grants@[at].members[who].allow_lfs
            }),
{
    sessions_live_while_they_could_begin(grants@, *session, Seq::empty(), 0);
}

/// A session that was registered is live under the id that it got until that id is removed, and the
/// next session gets another id.
pub proof fn sessions_live_under_their_own_ids(
    sessions: &mut Sessions,
    caller: NodeId,
    auth: Reauth,
    id: u64,
    other: u64,
)
    requires
        call_ensures(Sessions::register, (sessions, caller, auth), id),
    ensures
        final(sessions)@.contains_key(id),
        final(sessions)@[id].caller == caller,
        final(sessions)@[id].auth == auth,
        other != id ==> (final(sessions)@.contains_key(other) <==> old(sessions)@.contains_key(other)),
        other != id && old(sessions)@.contains_key(other) ==> final(sessions)@[other] == old(sessions)@[other],
        id == old(sessions).next_id(),
        final(sessions).next_id() != id,
        id < u64::MAX ==> final(sessions).next_id() > id,
{
}

/// On idleness an LFS connection ends exactly when all of its sixteen stream permits are free; while a
/// transfer holds one, the daemon waits on.
pub proof fn idle_connections_end_only_when_nothing_runs(pinned: Option<Seq<u8>>, available: int)
    ensures
        ({
            let step = lfs_step(pinned, LfsEventView::Idle { available }).1;
            &&& step == LfsStepView::End <==> available == 16
            &&& step == LfsStepView::Wait <==> available != 16
            &&& lfs_step(pinned, LfsEventView::Idle { available }).0 == pinned
        }),
{
}

/// An LFS connection ends only when the client closes it or nothing has come for long while nothing
/// runs; a slow or broken stream, or one that is refused, leaves it open and pinned as it was. The
/// first repository that is asked for is the one to be served from then on: every stream that addresses
/// it is served, and every other is refused.
pub proof fn lfs_connections_serve_what_they_began_with(pinned: Option<Seq<u8>>, event: LfsEventView)
    ensures
        ({
            let (after, step) = lfs_step(pinned, event);
            &&& step == LfsStepView::End <==> event == LfsEventView::Closed || (event matches LfsEventView::Idle {
                available,
            } && available == 16)
            &&& !(event is Request) ==> after == pinned && (step == LfsStepView::End || step == LfsStepView::Wait)
            &&& event matches LfsEventView::Request { repo_id } ==> {
                &&& pinned is None ==> after == Some(repo_id) && step == LfsStepView::RegisterAndServe
                &&& pinned matches Some(id) ==> after == pinned && if repo_id == id {
                    step == LfsStepView::Serve
                } else {
                    step == LfsStepView::Refuse(
                        LfsResponseView::Error("an LFS connection may address only one repository"@),
                    )
                }
            }
        }),
{
}

/// The same of a connection as it goes on.
pub proof fn a_connection_goes_on_as_it_began(connection: &mut LfsConnection, event: LfsEvent, step: LfsStep)
    requires
        call_ensures(LfsConnection::step, (connection, event), step),
    ensures
        old(connection)@ is Some ==> final(connection)@ == old(connection)@,
        !(event is Request) ==> final(connection)@ == old(connection)@,
        event matches LfsEvent::Idle { available } ==> if available == 16 {
            step is End
        } else {
            step is Wait
        },
        event is Closed ==> step is End,
        event is Garbled ==> step is Wait,
        event matches LfsEvent::Request { repo_id } ==> {
            &&& old(connection)@ is None ==> step is RegisterAndServe && final(connection)@ == Some(repo_id@)
            &&& old(connection)@ == Some(repo_id@) ==> step is Serve
            &&& (old(connection)@ matches Some(id) && id != repo_id@) ==> step is Refuse
        },
{
}

/// The daemon shows itself online with the node id, the relay and the number of repositories that it
/// has, each in a line of its own, and the relay only where there is one.
pub proof fn the_online_lines_name_the_daemon(node_id: &str, relay: &Option<String>, repos: usize, lines: Vec<String>)
    requires
        call_ensures(online_lines, (node_id, relay, repos), lines),
    ensures
        lines@.len() == if relay is Some {
            4int
        } else {
            3
        },
        lines@[0]@ == "iroh-git-daemon online"@,
        lines@[1]@ == "NODE_ID: "@ + node_id@,
        relay matches Some(url) ==> lines@[2]@ == "relay:   "@ + url@,
        lines@.last()@ == "serving "@ + decimal(repos as nat) + " repositories"@,
{
    let t = texts(lines@);
    assert(t.len() == lines@.len());
    assert(t[0] == lines@[0]@ && t[1] == lines@[1]@ && t[2] == lines@[2]@);
    assert(t[t.len() - 1] == lines@[lines@.len() - 1]@);
}

/// After a reload the daemon shows the number of repositories in the new grants and nothing else changes
/// in what it shows; the sessions to close are those that the sweep finds, and the line names the number.
pub proof fn a_reload_shows_the_new_grants(
    status: &mut Status,
    sessions: &Sessions,
    grants: &Grants,
    reloaded: Reload,
    id: u64,
    kept: bool,
)
    requires
        call_ensures(reload, (status, sessions, grants), reloaded),
        sessions@.contains_key(id) ==> call_ensures(
            ActiveSession::still_authorized,
            (&sessions@[id], grants),
            kept,
        ),
    ensures
        final(status).repos == grants@.len(),
        final(status).online == old(status).online,
        final(status).node_id == old(status).node_id,
        final(status).relay == old(status).relay,
        (exists|i: int| 0 <= i < reloaded.revoked@.len() && (#[trigger] reloaded.revoked@[i]).0 == id)
            <==> sessions@.contains_key(id) && !kept,
        reloaded.line@ == "grants reloaded ("@ + decimal(grants@.len()) + " repositories)"@,
{
    let ids = reloaded.revoked@.map_values(|x: (u64, NodeId)| x.0);
    assert(ids.to_set() == revoked_ids(sessions@, grants@));
    if exists|i: int| 0 <= i < reloaded.revoked@.len() && (#[trigger] reloaded.revoked@[i]).0 == id {
        let i = choose|i: int| 0 <= i < reloaded.revoked@.len() && (#[trigger] reloaded.revoked@[i]).0 == id;
        assert(ids[i] == id);
        assert(ids.to_set().contains(id));
    }
    if sessions@.contains_key(id) && !kept {
        assert(revoked_ids(sessions@, grants@).contains(id));
        assert(ids.to_set().contains(id));
        let i = choose|i: int| 0 <= i < ids.len() && ids[i] == id;
        assert(reloaded.revoked@[i].0 == id);
    }
}

/// A daemon that has come online shows that it is, under the node id and on the relay that it has, and
/// shares what it shared before; at first it is not online and shares nothing.
pub proof fn a_daemon_shows_how_it_came_online(
    status: &mut Status,
    node_id: String,
    relay: Option<String>,
    unit: (),
    fresh: Status,
)
    requires
        call_ensures(Status::come_online, (status, node_id, relay), unit),
        call_ensures(<Status as Default>::default, (), fresh),
    ensures
        final(status).online,
        final(status).node_id == Some(node_id),
        final(status).relay == relay,
        final(status).repos == old(status).repos,
        !fresh.online && fresh.node_id is None && fresh.relay is None && fresh.repos == 0,
{
}

/// The limits that the daemon keeps: how many connections and transfers it serves at a time, and how many
/// seconds it waits.
pub proof fn the_daemons_limits()
    ensures
        MAX_CONCURRENT_CONNECTIONS == 64,
        MAX_LFS_STREAMS_PER_CONN == 16,
        HANDSHAKE_TIMEOUT == 10,
        REJECTION_LINGER == 5,
        LFS_IDLE_TIMEOUT == 60,
        LFS_TRANSFER_TIMEOUT == 600,
        CLOSE_REVOKED == 1,
{
}

/// A session that has ended is forgotten, and no other; at first there are none, and a new connection is
/// pinned to nothing.
pub proof fn ended_sessions_are_forgotten(
    sessions: &mut Sessions,
    id: u64,
    other: u64,
    unit: (),
    none: Sessions,
    connection: LfsConnection,
)
    requires
        call_ensures(Sessions::remove, (sessions, id), unit),
        call_ensures(Sessions::new, (), none),
        call_ensures(LfsConnection::new, (), connection),
    ensures
        !final(sessions)@.contains_key(id),
        other != id ==> (final(sessions)@.contains_key(other) <==> old(sessions)@.contains_key(other)),
        other != id && old(sessions)@.contains_key(other) ==> final(sessions)@[other] == old(sessions)@[other],
        final(sessions).next_id() == old(sessions).next_id(),
        !none@.contains_key(other),
        connection@ is None,
{
}

} // verus!
