//! What holds of access as a whole: how grants, revocations and the daemon's verdicts fit together.

use crate::config::{
    after_grant, after_revoke_lfs, after_revoke_member, after_revoke_write, is_member, member_at,
    member_of, new_repo, repo_at, GrantOutcome, Grants, MemberView, RepoView,
};
use crate::daemon::{
    addresses, caller_at, confirmed, is_member_by, lfs_allowed,
    lfs_requests_are_judged_by_the_callers_entry, lfs_verdict, listed_at, member_for,
    pack_requests_are_judged_by_the_callers_entry, pack_verdict, revoked_ids, session_allowed,
    ActiveSession, DeniedView, Reauth, NOT_AUTHORIZED,
};
use crate::error::Failure;
use crate::node::{is_public_key, lemma_key_named, names_key, names_one_key, NodeId};
use crate::paths::{is_slash, only_slashes_have_no_name, the_last_name_is_what_was_written};
use crate::protocol::{
    LfsOp, LfsRequestView, Request, RequestView, Service, LFS_VERSION, VERSION,
};
use crate::remote_helper::request_for;
use crate::sequences::{first_where, lemma_filter_step, lemma_first_where, lemma_first_where_bounds};
use crate::share::{
    after_revoke, build_ticket, canonical, grant, is_name_char, repo_name_of, repo_with_id, revoke_at,
    revoke_everywhere, revoke_hits, revoke_report, sanitized, set_repo_lfs, ticket_for, unshare,
    unshare_all, unshare_by_id, Granted, LfsToggle, RevokeWhat, Revoked,
};
use crate::text::{ends_with, hex_digit, hex_text, is_white_space, option_view, trim};
use crate::ticket::{
    names_repo, repo_id_is_what_the_text_names, repo_id_roundtrip, repo_id_text, RepoId, Ticket,
};
use vstd::prelude::*;

verus! {

/// A stranger cannot tell a repository that does not exist from one that they are no member of: in
/// both cases, and whatever the grants are, a request of the right version gets the same reply.
pub proof fn strangers_learn_nothing(
    here: Seq<RepoView>,
    there: Seq<RepoView>,
    q: RequestView,
    l: LfsRequestView,
    caller: Seq<u8>,
)
    requires
        q.version == VERSION,
        l.version == LFS_VERSION,
        q.repo_id == l.repo_id,
        member_for(here, q.repo_id, caller) is Err,
        member_for(there, q.repo_id, caller) is Err,
    ensures
        pack_verdict(here, q, caller) matches Err(d) && d.public == NOT_AUTHORIZED@,
        pack_verdict(there, q, caller) matches Err(d) && d.public == NOT_AUTHORIZED@,
        lfs_verdict(here, l, caller) matches Err(d) && d.public == NOT_AUTHORIZED@,
        lfs_verdict(there, l, caller) matches Err(d) && d.public == NOT_AUTHORIZED@,
{
}

/// Whoever may push to a repository may fetch from it.
pub proof fn push_implies_fetch(repos: Seq<RepoView>, push: RequestView, fetch: RequestView, caller: Seq<u8>)
    requires
        push.service == Service::ReceivePack,
        fetch == (RequestView { service: Service::UploadPack, ..push }),
        pack_verdict(repos, push, caller) is Ok,
    ensures
        pack_verdict(repos, fetch, caller) == pack_verdict(repos, push, caller),
{
}

/// Whoever may upload an LFS object may download it, and whoever may download one may fetch from the
/// repository.
pub proof fn upload_implies_download_implies_fetch(
    repos: Seq<RepoView>,
    up: LfsRequestView,
    down: LfsRequestView,
    fetch: RequestView,
    caller: Seq<u8>,
)
    requires
        up.op == LfsOp::Upload,
        down.op == LfsOp::Download,
        down.version == up.version,
        down.repo_id == up.repo_id,
        fetch == (RequestView { version: VERSION, repo_id: up.repo_id, service: Service::UploadPack }),
    ensures
        lfs_verdict(repos, up, caller) is Ok ==> lfs_verdict(repos, down, caller) is Ok,
        lfs_verdict(repos, up, caller) is Ok ==> pack_verdict(
            repos,
            RequestView { service: Service::ReceivePack, ..fetch },
            caller,
        ) is Ok,
        lfs_verdict(repos, down, caller) is Ok ==> pack_verdict(repos, fetch, caller) is Ok,
{
}

/// An LFS connection is kept exactly as long as its caller may download.
pub proof fn lfs_session_lives_while_download_is_allowed(repos: Seq<RepoView>, q: LfsRequestView, caller: Seq<u8>)
    requires
        q.op == LfsOp::Download,
        q.version == LFS_VERSION,
    ensures
        lfs_allowed(repos, q.repo_id, caller) <==> lfs_verdict(repos, q, caller) is Ok,
{
}

/// After a change of the grants, the sessions that are left once the revoked ones are closed are
/// exactly those that the new grants authorize.
pub proof fn sweep_leaves_the_authorized(live: Map<u64, ActiveSession>, repos: Seq<RepoView>, id: u64)
    ensures
        live.remove_keys(revoked_ids(live, repos)).contains_key(id) <==> live.contains_key(id) && session_allowed(
            repos,
            live[id],
        ),
{
}

/// A pack session that a change of the grants revokes does not escape, whichever comes first: if it is
/// registered before the sweep, the sweep finds it, and if it is registered after, it is not served.
pub proof fn revoked_sessions_do_not_escape(
    live: Map<u64, ActiveSession>,
    repos: Seq<RepoView>,
    id: u64,
    session: ActiveSession,
    req: Request,
    path: Seq<char>,
)
    requires
        session.auth == Reauth::Pack(req),
        pack_verdict(repos, req@, session.caller@) is Err,
    ensures
        revoked_ids(live.insert(id, session), repos).contains(id),
        confirmed(repos, req@, session.caller@, path) is None,
{
}

/// The text is the hexadecimal form of a public key.
pub open spec fn is_canonical(node_id: Seq<char>) -> bool {
    exists|key: Seq<u8>| #[trigger] is_public_key(key) && key.len() == 32 && node_id == hex_text(key)
}

/// Every member is stored in the canonical form, as [`canonical`] has it: in hexadecimal.
pub open spec fn canonical_members(repo: RepoView) -> bool {
    forall|i: int| 0 <= i < repo.members.len() ==> is_canonical((#[trigger] repo.members[i]).node_id)
}

/// Every entry for the key is in its canonical form.
pub open spec fn only_canonical_entries(repo: RepoView, key: Seq<u8>) -> bool {
    forall|i: int|
        0 <= i < repo.members.len() && names_key((#[trigger] repo.members[i]).node_id, key) ==> repo.members[i].node_id
            == hex_text(key)
}

/// The member that the daemon takes the key for, if any.
pub open spec fn seen_as(repo: RepoView, key: Seq<u8>) -> Option<MemberView> {
    let who = caller_at(repo.members, key);
    if who < repo.members.len() {
        Some(repo.members[who])
    } else {
        None
    }
}

/// The entry that the daemon takes the key for, if any, is in the canonical form.
pub open spec fn seen_canonically(repo: RepoView, key: Seq<u8>) -> bool {
    seen_as(repo, key) matches Some(m) ==> m.node_id == hex_text(key)
}

/// Grants store node ids in the canonical form: a repository begins without members, and granting and
/// revoking add no other form. Then every entry for a key is in its canonical form, and so is the one
/// that the daemon takes the key for.
pub proof fn stored_node_ids_are_canonical(
    repo: RepoView,
    id: Seq<u8>,
    path: Seq<char>,
    node_id: Seq<char>,
    write: bool,
    lfs: bool,
    nickname: Seq<char>,
    what: RevokeWhat,
    key: Seq<u8>,
)
    requires
        canonical_members(repo),
        canonical(node_id) is Some,
    ensures
        canonical_members(new_repo(id, path)),
        canonical_members(after_grant(repo, canonical(node_id).unwrap(), write, lfs, nickname)),
        canonical_members(after_revoke(repo, canonical(node_id).unwrap(), what)),
        only_canonical_entries(repo, key),
        seen_canonically(repo, key),
{
    let granted = choose|k: Seq<u8>| names_key(trim(node_id), k);
    let node = hex_text(granted);
    assert(is_canonical(node));
    lemma_first_where_bounds(repo.members, |m: MemberView| m.node_id == node);
    let after = after_grant(repo, node, write, lfs, nickname);
    grant_never_lowers_access(repo, node, write, lfs, nickname);
    assert forall|i: int| 0 <= i < after.members.len() implies is_canonical((#[trigger] after.members[i]).node_id) by {
        if i < repo.members.len() {
            assert(repo.members[i].node_id == after.members[i].node_id);
        }
    }
    let left = after_revoke(repo, node, what);
    let keep = |m: MemberView| m.node_id != node;
    assert forall|i: int| 0 <= i < left.members.len() implies is_canonical((#[trigger] left.members[i]).node_id) by {
        match what {
            RevokeWhat::Member => {
                lemma_filter_is_part(repo.members, keep, i);
                let j = choose|j: int| 0 <= j < repo.members.len() && repo.members[j] == left.members[i];
                assert(is_canonical(repo.members[j].node_id));
            },
            _ => {
                assert(is_canonical(repo.members[i].node_id));
            },
        }
    }
    assert forall|i: int|
        0 <= i < repo.members.len() && names_key((#[trigger] repo.members[i]).node_id, key) implies repo.members[i].node_id
        == hex_text(key) by {
        let text = repo.members[i].node_id;
        assert(is_canonical(text));
        let k = choose|k: Seq<u8>| #[trigger] is_public_key(k) && k.len() == 32 && text == hex_text(k);
        assert(names_key(text, k));
        names_one_key(text, k, key);
    }
    lemma_first_where_bounds(repo.members, |m: MemberView| names_key(m.node_id, key));
}

/// The first entry in a key's canonical form does not come before the one that the daemon takes the
/// key for, which is the same one where it is in that form.
proof fn lemma_entries_of(repo: RepoView, key: Seq<u8>)
    requires
        key.len() == 32,
        is_public_key(key),
    ensures
        0 <= caller_at(repo.members, key) <= member_at(repo.members, hex_text(key)) <= repo.members.len(),
        seen_canonically(repo, key) <==> caller_at(repo.members, key) == member_at(repo.members, hex_text(key)),
        forall|i: int|
            0 <= i < caller_at(repo.members, key) ==> !names_key((#[trigger] repo.members[i]).node_id, key),
        is_member(repo, hex_text(key)) ==> member_of(repo, hex_text(key)).node_id == hex_text(key),
        seen_as(repo, key) matches Some(m) ==> names_key(m.node_id, key),
{
    let node = hex_text(key);
    let p = |m: MemberView| m.node_id == node;
    let q = |m: MemberView| names_key(m.node_id, key);
    lemma_first_where_bounds(repo.members, p);
    lemma_first_where_bounds(repo.members, q);
    let k = first_where(repo.members, p);
    let c = first_where(repo.members, q);
    assert(names_key(node, key));
    if k < repo.members.len() {
        assert(p(repo.members[k]));
        assert(q(repo.members[k]));
    }
    if c < repo.members.len() {
        assert(q(repo.members[c]));
        if c < k {
            assert(!p(repo.members[c]));
        }
    }
    assert forall|i: int| 0 <= i < c implies !names_key((#[trigger] repo.members[i]).node_id, key) by {
        assert(!q(repo.members[i]));
    }
}

/// Where the entries before an offset are not the key's and the one at it is, the daemon takes the key
/// for the latter.
proof fn lemma_caller_at(members: Seq<MemberView>, key: Seq<u8>, at: int)
    requires
        0 <= at <= members.len(),
        forall|i: int| 0 <= i < at ==> !names_key((#[trigger] members[i]).node_id, key),
        at < members.len() ==> names_key(members[at].node_id, key),
    ensures
        caller_at(members, key) == at,
{
    let q = |m: MemberView| names_key(m.node_id, key);
    assert forall|i: int| 0 <= i < at implies !q(#[trigger] members[i]) by {
        assert(!names_key(members[i].node_id, key));
    }
    lemma_first_where(members, q, at);
}

/// Replacing a repository's members leaves it at the same place under its id.
proof fn lemma_same_repo(repos: Seq<RepoView>, id: Seq<u8>, repo: RepoView)
    requires
        repo_with_id(repos, id) < repos.len(),
        repo.id == repos[repo_with_id(repos, id)].id,
    ensures
        0 <= repo_with_id(repos, id),
        repo_with_id(repos.update(repo_with_id(repos, id), repo), id) == repo_with_id(repos, id),
{
    let p = |r: RepoView| names_repo(r.id, id);
    lemma_first_where_bounds(repos, p);
    let at = repo_with_id(repos, id);
    let after = repos.update(at, repo);
    assert forall|i: int| 0 <= i < at implies !p(#[trigger] after[i]) by {
        assert(after[i] == repos[i]);
    }
    assert(p(repos[at]));
    assert(p(after[at]));
    lemma_first_where(after, p, at);
}

/// Granting never lowers anybody's access: every member stays, in place, with at least the rights
/// that they had, and everybody but the granted node stays exactly as they were.
pub proof fn grant_never_lowers_access(repo: RepoView, node: Seq<char>, write: bool, lfs: bool, nickname: Seq<char>)
    ensures
        ({
            let after = after_grant(repo, node, write, lfs, nickname);
            &&& after.id == repo.id && after.path == repo.path && after.lfs_enabled == repo.lfs_enabled
            &&& after.members.len() >= repo.members.len()
            &&& forall|i: int|
                0 <= i < repo.members.len() ==> {
                    let (was, is) = (#[trigger] repo.members[i], after.members[i]);
                    &&& is.node_id == was.node_id
                    &&& was.allow_push ==> is.allow_push
                    &&& was.allow_lfs ==> is.allow_lfs
                    &&& was.node_id != node ==> is == was
                }
            &&& is_member(after, node)
            &&& write ==> member_of(after, node).allow_push
            &&& lfs ==> member_of(after, node).allow_lfs
        }),
{
    let p = |m: MemberView| m.node_id == node;
    lemma_first_where_bounds(repo.members, p);
    let after = after_grant(repo, node, write, lfs, nickname);
    let k = member_at(repo.members, node);
    assert forall|i: int| 0 <= i < k implies !p(#[trigger] after.members[i]) by {
        assert(after.members[i] == repo.members[i]);
    }
    if k < repo.members.len() {
        assert(p(repo.members[k]));
    }
    assert(p(after.members[k]));
    lemma_first_where(after.members, p, k);
}

/// Granting the same access twice is granting it once.
pub proof fn grant_is_idempotent(repo: RepoView, node: Seq<char>, write: bool, lfs: bool, nickname: Seq<char>)
    ensures
        ({
            let once = after_grant(repo, node, write, lfs, nickname);
            after_grant(once, node, write, lfs, nickname) == once
        }),
{
    grant_never_lowers_access(repo, node, write, lfs, nickname);
    let p = |m: MemberView| m.node_id == node;
    lemma_first_where_bounds(repo.members, p);
    let once = after_grant(repo, node, write, lfs, nickname);
    lemma_first_where_bounds(once.members, p);
    let twice = after_grant(once, node, write, lfs, nickname);
    let k = member_at(once.members, node);
    assert(p(once.members[k]));
    let j = member_at(repo.members, node);
    assert(!(k < j)) by {
        if k < j {
            assert(once.members[k] == repo.members[k]);
            assert(!p(repo.members[k]));
        }
    }
    assert(p(once.members[j])) by {
        if j < repo.members.len() {
            assert(p(repo.members[j]));
        }
    }
    assert(k == j);
    assert(twice.members =~= once.members);
}

proof fn lemma_filter_is_part<A>(s: Seq<A>, keep: spec_fn(A) -> bool, i: int)
    requires
        0 <= i < s.filter(keep).len(),
    ensures
        s.contains(s.filter(keep)[i]),
    decreases s.len(),
{
    reveal(Seq::filter);
    if s.len() > 0 {
        let t = s.drop_last();
        if i < t.filter(keep).len() {
            lemma_filter_is_part(t, keep, i);
            let j = choose|j: int| 0 <= j < t.len() && t[j] == t.filter(keep)[i];
            assert(s[j] == s.filter(keep)[i]);
        } else {
            assert(s[s.len() - 1] == s.filter(keep)[i]);
        }
    }
}

/// Revoking twice is revoking once: the second time nothing is left to take away.
pub proof fn revoke_is_idempotent(repo: RepoView, node: Seq<char>, what: RevokeWhat)
    ensures
        after_revoke(after_revoke(repo, node, what), node, what) == after_revoke(repo, node, what),
        !revoke_hits(after_revoke(repo, node, what), node, what),
{
    let p = |m: MemberView| m.node_id == node;
    let keep = |m: MemberView| m.node_id != node;
    let once = after_revoke(repo, node, what);
    lemma_first_where_bounds(repo.members, p);
    let k = member_at(repo.members, node);
    match what {
        RevokeWhat::Member => {
            assert forall|i: int| 0 <= i < once.members.len() implies keep(#[trigger] once.members[i]) by {
                broadcast use vstd::seq_lib::group_filter_ensures;

                assert(keep(repo.members.filter(keep)[i]));
            }
            lemma_filter_of_kept(once.members, keep);
            lemma_first_where(once.members, p, once.members.len() as int);
        },
        _ => {
            assert forall|i: int| 0 <= i < k implies !p(#[trigger] once.members[i]) by {
                assert(once.members[i] == repo.members[i]);
            }
            if k < repo.members.len() {
                assert(p(repo.members[k]));
                assert(p(once.members[k]));
            }
            lemma_first_where(once.members, p, k);
            assert(after_revoke(once, node, what).members =~= once.members);
        },
    }
}

/// Revoking a member undoes the grant that made them one.
pub proof fn revoke_undoes_grant(repo: RepoView, node: Seq<char>, write: bool, lfs: bool, nickname: Seq<char>)
    requires
        !is_member(repo, node),
    ensures
        after_revoke_member(after_grant(repo, node, write, lfs, nickname), node) == repo,
{
    let p = |m: MemberView| m.node_id == node;
    let keep = |m: MemberView| m.node_id != node;
    let granted = after_grant(repo, node, write, lfs, nickname);
    lemma_first_where_bounds(repo.members, p);
    assert forall|i: int| 0 <= i < repo.members.len() implies keep(#[trigger] repo.members[i]) by {
        assert(!p(repo.members[i]));
    }
    lemma_filter_of_kept(repo.members, keep);
    lemma_filter_step(granted.members, keep, repo.members.len() as int);
    assert(granted.members.take(repo.members.len() as int) =~= repo.members);
    assert(granted.members.take(granted.members.len() as int) =~= granted.members);
}

/// Stopping undoes sharing: once a repository that was not shared has been shared and stopped again,
/// the grants are as before.
pub proof fn stopping_undoes_sharing(repos: Seq<RepoView>, repo: RepoView)
    requires
        repo_at(repos, repo.path) == repos.len(),
    ensures
        repos.push(repo).filter(|r: RepoView| r.path != repo.path) == repos,
{
    let p = |r: RepoView| r.path == repo.path;
    let keep = |r: RepoView| r.path != repo.path;
    let shared = repos.push(repo);
    lemma_first_where_bounds(repos, p);
    assert forall|i: int| 0 <= i < repos.len() implies keep(#[trigger] repos[i]) by {
        assert(!p(repos[i]));
    }
    lemma_filter_of_kept(repos, keep);
    lemma_filter_step(shared, keep, repos.len() as int);
    assert(shared.take(repos.len() as int) =~= repos);
    assert(shared.take(shared.len() as int) =~= shared);
}

/// A filter that keeps every item leaves the list as it is.
proof fn lemma_filter_of_kept<A>(s: Seq<A>, keep: spec_fn(A) -> bool)
    requires
        forall|i: int| 0 <= i < s.len() ==> keep(#[trigger] s[i]),
    ensures
        s.filter(keep) == s,
    decreases s.len(),
{
    reveal(Seq::filter);
    if s.len() > 0 {
        assert forall|i: int| 0 <= i < s.drop_last().len() implies keep(#[trigger] s.drop_last()[i]) by {
            assert(keep(s[i]));
        }
        lemma_filter_of_kept(s.drop_last(), keep);
        assert(s.drop_last().push(s.last()) =~= s);
    }
}

/// A granted node is authorized: it may fetch, it may push if it was granted write access or had it,
/// and it may use LFS if it was granted that right or had it and the repository's switch is on. Rights
/// that are granted do not reach a node that is listed before in another form than the canonical one:
/// the daemon goes on judging it by that entry.
pub proof fn granted_node_is_authorized(
    repos: Seq<RepoView>,
    id: Seq<u8>,
    key: Seq<u8>,
    write: bool,
    lfs: bool,
    nickname: Seq<char>,
)
    requires
        repo_with_id(repos, id) < repos.len(),
        key.len() == 32,
        is_public_key(key),
    ensures
        ({
            let at = repo_with_id(repos, id);
            let repo = repos[at];
            let reached = seen_canonically(repo, key);
            let had_push = seen_as(repo, key) matches Some(m) && m.allow_push;
            let had_lfs = seen_as(repo, key) matches Some(m) && m.allow_lfs;
            let after = repos.update(at, after_grant(repo, hex_text(key), write, lfs, nickname));
            let fetch = RequestView { version: VERSION, repo_id: id, service: Service::UploadPack };
            let push = RequestView { version: VERSION, repo_id: id, service: Service::ReceivePack };
            &&& pack_verdict(after, fetch, key) == Ok::<Seq<char>, DeniedView>(repo.path)
            &&& pack_verdict(after, push, key) is Ok <==> had_push || (write && reached)
            &&& pack_verdict(after, push, key) matches Ok(path) ==> path == repo.path
            &&& lfs_allowed(after, id, key) <==> repo.lfs_enabled && (had_lfs || (lfs && reached))
        }),
{
    let at = repo_with_id(repos, id);
    let repo = repos[at];
    let node = hex_text(key);
    let new = after_grant(repo, node, write, lfs, nickname);
    lemma_same_repo(repos, id, new);
    lemma_entries_of(repo, key);
    assert(names_key(node, key));
    let c = caller_at(repo.members, key);
    assert forall|i: int| 0 <= i < c implies !names_key((#[trigger] new.members[i]).node_id, key) by {
        assert(new.members[i] == repo.members[i]);
    }
    lemma_caller_at(new.members, key, c);
}

/// Removing a member denies that node everything on the repository, if no entry for it is left in
/// another form: no request of theirs is authorized any more, neither fetch nor push nor LFS.
pub proof fn removed_member_is_denied(
    repos: Seq<RepoView>,
    id: Seq<u8>,
    key: Seq<u8>,
    q: RequestView,
    l: LfsRequestView,
)
    requires
        repo_with_id(repos, id) < repos.len(),
        only_canonical_entries(repos[repo_with_id(repos, id)], key),
        q.repo_id == id,
        l.repo_id == id,
    ensures
        ({
            let at = repo_with_id(repos, id);
            let after = repos.update(at, after_revoke_member(repos[at], hex_text(key)));
            &&& pack_verdict(after, q, key) is Err
            &&& lfs_verdict(after, l, key) is Err
            &&& !lfs_allowed(after, id, key)
        }),
{
    broadcast use vstd::seq_lib::group_filter_ensures;

    let at = repo_with_id(repos, id);
    let repo = repos[at];
    let node = hex_text(key);
    let keep = |m: MemberView| m.node_id != node;
    let new = after_revoke_member(repo, node);
    lemma_same_repo(repos, id, new);
    assert forall|i: int| 0 <= i < new.members.len() implies !names_key((#[trigger] new.members[i]).node_id, key) by {
        assert(keep(repo.members.filter(keep)[i]));
        lemma_filter_is_part(repo.members, keep, i);
        let j = choose|j: int| 0 <= j < repo.members.len() && repo.members[j] == new.members[i];
        if names_key(repo.members[j].node_id, key) {
            assert(repo.members[j].node_id == node);
        }
    }
    lemma_caller_at(new.members, key, new.members.len() as int);
}

/// Revoking write access stops a member's pushes and uploads, where the daemon knows the member by the
/// canonical form, and nothing else: fetches and downloads are judged as before.
pub proof fn write_revoke_stops_only_writes(
    repos: Seq<RepoView>,
    id: Seq<u8>,
    key: Seq<u8>,
    q: RequestView,
    l: LfsRequestView,
)
    requires
        repo_with_id(repos, id) < repos.len(),
        key.len() == 32,
        is_public_key(key),
        q.repo_id == id,
        l.repo_id == id,
    ensures
        ({
            let at = repo_with_id(repos, id);
            let after = repos.update(at, after_revoke_write(repos[at], hex_text(key)));
            let reached = seen_canonically(repos[at], key);
            &&& reached && q.service == Service::ReceivePack ==> pack_verdict(after, q, key) is Err
            &&& reached && l.op == LfsOp::Upload ==> lfs_verdict(after, l, key) is Err
            &&& q.service == Service::UploadPack ==> pack_verdict(after, q, key) == pack_verdict(repos, q, key)
            &&& l.op == LfsOp::Download ==> lfs_verdict(after, l, key) == lfs_verdict(repos, l, key)
        }),
{
    let at = repo_with_id(repos, id);
    let repo = repos[at];
    let new = after_revoke_write(repo, hex_text(key));
    lemma_same_repo(repos, id, new);
    lemma_entries_of(repo, key);
    lemma_entry_stays(repo, new, key);
}

/// Revoking LFS access stops a member's LFS transfers, where the daemon knows the member by the
/// canonical form, and nothing else: fetches and pushes are judged as before.
pub proof fn lfs_revoke_stops_only_lfs(
    repos: Seq<RepoView>,
    id: Seq<u8>,
    key: Seq<u8>,
    q: RequestView,
    l: LfsRequestView,
)
    requires
        repo_with_id(repos, id) < repos.len(),
        key.len() == 32,
        is_public_key(key),
        q.repo_id == id,
        l.repo_id == id,
    ensures
        ({
            let at = repo_with_id(repos, id);
            let after = repos.update(at, after_revoke_lfs(repos[at], hex_text(key)));
            let reached = seen_canonically(repos[at], key);
            &&& reached ==> lfs_verdict(after, l, key) is Err
            &&& reached ==> !lfs_allowed(after, id, key)
            &&& pack_verdict(after, q, key) == pack_verdict(repos, q, key)
        }),
{
    let at = repo_with_id(repos, id);
    let repo = repos[at];
    let new = after_revoke_lfs(repo, hex_text(key));
    lemma_same_repo(repos, id, new);
    lemma_entries_of(repo, key);
    lemma_entry_stays(repo, new, key);
}

/// Changing the rights of the first entry in a key's canonical form leaves the entry that the daemon
/// takes the key for in its place, and changes it only where it is that entry.
proof fn lemma_entry_stays(repo: RepoView, new: RepoView, key: Seq<u8>)
    requires
        key.len() == 32,
        is_public_key(key),
        new.members.len() == repo.members.len(),
        forall|i: int| 0 <= i < repo.members.len() ==> (#[trigger] new.members[i]).node_id == repo.members[i].node_id,
    ensures
        caller_at(new.members, key) == caller_at(repo.members, key),
        0 <= caller_at(repo.members, key) <= member_at(repo.members, hex_text(key)) <= repo.members.len(),
        seen_canonically(repo, key) <==> caller_at(repo.members, key) == member_at(repo.members, hex_text(key)),
{
    lemma_entries_of(repo, key);
    let c = caller_at(repo.members, key);
    assert forall|i: int| 0 <= i < c implies !names_key((#[trigger] new.members[i]).node_id, key) by {
        assert(new.members[i].node_id == repo.members[i].node_id);
        assert(!names_key(repo.members[i].node_id, key));
    }
    if c < repo.members.len() {
        assert(new.members[c].node_id == repo.members[c].node_id);
    }
    lemma_caller_at(new.members, key, c);
}

/// Once no repository with the share id is left, every request for it is denied, whoever sends it.
pub proof fn stopped_share_is_denied(repos: Seq<RepoView>, id: Seq<u8>, q: RequestView, l: LfsRequestView, caller: Seq<u8>)
    requires
        q.repo_id == id,
        l.repo_id == id,
    ensures
        ({
            let after = repos.filter(|repo: RepoView| !names_repo(repo.id, id));
            &&& pack_verdict(after, q, caller) is Err
            &&& lfs_verdict(after, l, caller) is Err
        }),
{
    broadcast use vstd::seq_lib::group_filter_ensures;

    let keep = |repo: RepoView| !names_repo(repo.id, id);
    let after = repos.filter(keep);
    assert forall|i: int| 0 <= i < after.len() implies !names_repo((#[trigger] after[i]).id, id) by {
        assert(keep(repos.filter(keep)[i]));
    }
    lemma_first_where(after, |repo: RepoView| names_repo(repo.id, id), after.len() as int);
}

/// Once sharing of a path has been stopped, no request is served from it, whoever sends it.
pub proof fn stopped_path_is_not_served(
    repos: Seq<RepoView>,
    path: Seq<char>,
    q: RequestView,
    l: LfsRequestView,
    caller: Seq<u8>,
)
    ensures
        ({
            let after = repos.filter(|repo: RepoView| repo.path != path);
            &&& pack_verdict(after, q, caller) != Ok::<Seq<char>, DeniedView>(path)
            &&& lfs_verdict(after, l, caller) != Ok::<Seq<char>, DeniedView>(path)
        }),
{
    broadcast use vstd::seq_lib::group_filter_ensures;

    let keep = |repo: RepoView| repo.path != path;
    let after = repos.filter(keep);
    assert forall|i: int| 0 <= i < after.len() implies (#[trigger] after[i]).path != path by {
        assert(keep(repos.filter(keep)[i]));
    }
    lemma_first_where_bounds(after, |repo: RepoView| names_repo(repo.id, q.repo_id));
    lemma_first_where_bounds(after, |repo: RepoView| names_repo(repo.id, l.repo_id));
}

/// With a repository's LFS switch off, no LFS request for it is authorized, whatever rights its
/// members hold.
pub proof fn lfs_switch_off_denies_lfs(repos: Seq<RepoView>, id: Seq<u8>, l: LfsRequestView, caller: Seq<u8>)
    requires
        repo_with_id(repos, id) < repos.len(),
        l.repo_id == id,
    ensures
        ({
            let at = repo_with_id(repos, id);
            let after = repos.update(at, RepoView { lfs_enabled: false, ..repos[at] });
            lfs_verdict(after, l, caller) is Err
        }),
{
    let at = repo_with_id(repos, id);
    lemma_same_repo(repos, id, RepoView { lfs_enabled: false, ..repos[at] });
}

/// Granting or revoking one node's access changes nothing for any other node.
pub proof fn only_the_named_node_is_touched(
    repo: RepoView,
    key: Seq<u8>,
    other: Seq<u8>,
    write: bool,
    lfs: bool,
    nickname: Seq<char>,
    what: RevokeWhat,
)
    requires
        is_public_key(key),
        key.len() == 32,
        key != other,
    ensures
        seen_as(after_grant(repo, hex_text(key), write, lfs, nickname), other) == seen_as(repo, other),
        seen_as(after_revoke(repo, hex_text(key), what), other) == seen_as(repo, other),
{
    let node = hex_text(key);
    let q = |m: MemberView| names_key(m.node_id, other);
    assert(names_key(node, key));
    assert(!names_key(node, other)) by {
        if names_key(node, other) {
            names_one_key(node, key, other);
        }
    }
    let p = |m: MemberView| m.node_id == node;
    lemma_first_where_bounds(repo.members, p);
    lemma_first_where_bounds(repo.members, q);
    let k = caller_at(repo.members, other);
    if k < repo.members.len() {
        assert(q(repo.members[k]));
    }
    let granted = after_grant(repo, node, write, lfs, nickname);
    lemma_same_first(repo.members, granted.members, q, k);
    match what {
        RevokeWhat::Member => {
            lemma_filter_keeps_first(repo.members, |m: MemberView| m.node_id != node, q);
        },
        RevokeWhat::Write => {
            lemma_same_first(repo.members, after_revoke_write(repo, node).members, q, k);
        },
        RevokeWhat::Lfs => {
            lemma_same_first(repo.members, after_revoke_lfs(repo, node).members, q, k);
        },
    }
}

/// Two lists that agree on the items with a property have the same first such item.
proof fn lemma_same_first(s: Seq<MemberView>, t: Seq<MemberView>, q: spec_fn(MemberView) -> bool, k: int)
    requires
        k == first_where(s, q),
        s.len() <= t.len(),
        forall|i: int| 0 <= i < s.len() ==> q(#[trigger] s[i]) == q(t[i]) && (q(s[i]) ==> s[i] == t[i]),
        forall|i: int| s.len() <= i < t.len() ==> !q(#[trigger] t[i]),
    ensures
        k < s.len() ==> first_where(t, q) == k && t[k] == s[k],
        k == s.len() ==> first_where(t, q) == t.len(),
{
    lemma_first_where_bounds(s, q);
    if k < s.len() {
        assert(q(s[k]));
        assert forall|i: int| 0 <= i < k implies !q(#[trigger] t[i]) by {
            assert(!q(s[i]));
        }
        lemma_first_where(t, q, k);
    } else {
        assert forall|i: int| 0 <= i < t.len() implies !q(#[trigger] t[i]) by {
            if i < s.len() {
                assert(!q(s[i]));
            }
        }
        lemma_first_where(t, q, t.len() as int);
    }
}

/// A filter that keeps every item with a property keeps the first such item first.
proof fn lemma_filter_keeps_first<A>(s: Seq<A>, keep: spec_fn(A) -> bool, q: spec_fn(A) -> bool)
    requires
        forall|x: A| #[trigger] q(x) ==> keep(x),
    ensures
        first_where(s, q) < s.len() <==> first_where(s.filter(keep), q) < s.filter(keep).len(),
        first_where(s, q) < s.len() ==> s.filter(keep)[first_where(s.filter(keep), q)] == s[first_where(s, q)],
    decreases s.len(),
{
    reveal(Seq::filter);
    let f = s.filter(keep);
    lemma_first_where_bounds(s, q);
    lemma_first_where_bounds(f, q);
    if s.len() > 0 {
        let t = s.drop_last();
        let g = t.filter(keep);
        lemma_filter_keeps_first(t, keep, q);
        lemma_first_where_bounds(t, q);
        lemma_first_where_bounds(g, q);
        lemma_first_where_push(t, s.last(), q);
        assert(s =~= t.push(s.last()));
        if keep(s.last()) {
            lemma_first_where_push(g, s.last(), q);
            assert(f =~= g.push(s.last()));
        }
    }
}

/// One more item at the end is found only if none before it has the property.
proof fn lemma_first_where_push<A>(s: Seq<A>, x: A, q: spec_fn(A) -> bool)
    ensures
        first_where(s.push(x), q) == if first_where(s, q) < s.len() {
            first_where(s, q)
        } else if q(x) {
            s.len() as int
        } else {
            s.len() as int + 1
        },
{
    lemma_first_where_bounds(s, q);
    let t = s.push(x);
    let k = first_where(s, q);
    assert forall|i: int| 0 <= i < k implies !q(#[trigger] t[i]) by {
        assert(t[i] == s[i]);
    }
    if k < s.len() {
        assert(q(t[k]));
        lemma_first_where(t, q, k);
    } else if q(x) {
        assert(q(t[k]));
        lemma_first_where(t, q, k);
    } else {
        assert(!q(t[k]));
        lemma_first_where(t, q, k + 1);
    }
}

/// Canonicalizing is idempotent, and gives one form for all the ways to write a key.
pub proof fn canonical_form_is_unique(a: Seq<char>, b: Seq<char>, key: Seq<u8>)
    requires
        names_key(trim(a), key),
        names_key(trim(b), key),
    ensures
        canonical(a) == Some(hex_text(key)),
        canonical(a) == canonical(b),
        canonical(hex_text(key)) == Some(hex_text(key)),
{
    lemma_key_named(trim(a), key);
    lemma_key_named(trim(b), key);
    let h = hex_text(key);
    assert(!is_white_space(h[0])) by {
        let d = key[0] as int / 16;
        assert(h[0] == hex_digit(d));
    }
    assert(!is_white_space(h.last())) by {
        let d = key[31] as int % 16;
        assert(h[63] == hex_digit(d));
    }
    assert(trim(h) == h);
    lemma_key_named(h, key);
}

/// The entry of a node id: the first on the list, or the end of the list where there is none.
pub open spec fn entry_at(members: Seq<MemberView>, node: Seq<char>, k: int) -> bool {
    &&& 0 <= k <= members.len()
    &&& forall|i: int| 0 <= i < k ==> (#[trigger] members[i]).node_id != node
    &&& k < members.len() ==> members[k].node_id == node
}

proof fn lemma_entry_at(members: Seq<MemberView>, node: Seq<char>, k: int)
    requires
        entry_at(members, node, k),
    ensures
        member_at(members, node) == k,
{
    let p = |m: MemberView| m.node_id == node;
    assert forall|i: int| 0 <= i < k implies !p(#[trigger] members[i]) by {}
    lemma_first_where(members, p, k);
}

/// A grant touches the entry of the node it names and nothing else: to an entry that is there it adds
/// the rights that are granted, and gives it the nickname if there is one; where there is none it puts a
/// new one at the end, with the rights that are granted and no others.
pub proof fn a_grant_touches_one_entry(
    repo: RepoView,
    node: Seq<char>,
    write: bool,
    lfs: bool,
    nickname: Seq<char>,
    k: int,
)
    requires
        entry_at(repo.members, node, k),
    ensures
        ({
            let after = after_grant(repo, node, write, lfs, nickname);
            let n = repo.members.len();
            &&& after.id == repo.id && after.path == repo.path && after.lfs_enabled == repo.lfs_enabled
            &&& after.members.len() == if k < n {
                n
            } else {
                n + 1
            }
            &&& forall|i: int| 0 <= i < n && i != k ==> #[trigger] after.members[i] == repo.members[i]
            &&& after.members[k].node_id == node
            &&& after.members[k].allow_push == (write || (k < n && repo.members[k].allow_push))
            &&& after.members[k].allow_lfs == (lfs || (k < n && repo.members[k].allow_lfs))
            &&& nickname.len() > 0 || k == n ==> after.members[k].nickname == nickname
            &&& nickname.len() == 0 && k < n ==> after.members[k].nickname == repo.members[k].nickname
        }),
{
    lemma_entry_at(repo.members, node, k);
}

/// What a grant reports is what it did to read and write access: whether the node had an entry before,
/// and whether it may push now and could not before. What it reports of LFS is the right that the node
/// has now, whether it is new, and whether the repository's switch is on.
pub proof fn a_grant_reports_what_it_did(
    g: Granted,
    repo: RepoView,
    node: Seq<char>,
    write: bool,
    lfs: bool,
    nickname: Seq<char>,
    k: int,
)
    requires
        entry_at(repo.members, node, k),
        g.reports(repo, node, write, lfs),
    ensures
        ({
            let after = after_grant(repo, node, write, lfs, nickname);
            let was = k < repo.members.len();
            let (before, now) = (repo.members[k], after.members[k]);
            &&& g.outcome == GrantOutcome::Added <==> !was && !now.allow_push
            &&& g.outcome == GrantOutcome::AddedWrite <==> !was && now.allow_push
            &&& g.outcome == GrantOutcome::UpgradedToWrite <==> was && !before.allow_push && now.allow_push
            &&& g.outcome == GrantOutcome::Unchanged <==> was && before.allow_push == now.allow_push
            &&& g.allow_lfs == now.allow_lfs
            &&& g.lfs_added == (now.allow_lfs && !(was && before.allow_lfs))
            &&& g.lfs_enabled == after.lfs_enabled
            &&& g.node_id@ == now.node_id
            &&& g.repo_path@ == after.path
            &&& g.repo_id@ == after.id
        }),
{
    a_grant_touches_one_entry(repo, node, write, lfs, nickname, k);
    lemma_entry_at(repo.members, node, k);
}

/// Revoking a right takes that right from the entry of the node it names, and nothing else from anybody.
pub proof fn a_revoked_right_is_all_that_goes(repo: RepoView, node: Seq<char>, k: int)
    requires
        entry_at(repo.members, node, k),
    ensures
        ({
            let (w, l) = (after_revoke(repo, node, RevokeWhat::Write), after_revoke(repo, node, RevokeWhat::Lfs));
            let n = repo.members.len();
            &&& w.id == repo.id && w.path == repo.path && w.lfs_enabled == repo.lfs_enabled
            &&& l.id == repo.id && l.path == repo.path && l.lfs_enabled == repo.lfs_enabled
            &&& w.members.len() == n && l.members.len() == n
            &&& forall|i: int| 0 <= i < n && i != k ==> #[trigger] w.members[i] == repo.members[i]
            &&& forall|i: int| 0 <= i < n && i != k ==> #[trigger] l.members[i] == repo.members[i]
            &&& k < n ==> w.members[k] == (MemberView { allow_push: false, ..repo.members[k] })
            &&& k < n ==> l.members[k] == (MemberView { allow_lfs: false, ..repo.members[k] })
        }),
{
    lemma_entry_at(repo.members, node, k);
}

/// Removing a member removes every entry of that node and no other, and leaves the others in their
/// order: what is left of a list is what is left of its beginning and then of its end.
pub proof fn a_removed_member_has_no_entry_left(repo: RepoView, node: Seq<char>, n: int, m: MemberView)
    requires
        0 <= n <= repo.members.len(),
    ensures
        ({
            let after = after_revoke(repo, node, RevokeWhat::Member);
            let head = after_revoke(RepoView { members: repo.members.take(n), ..repo }, node, RevokeWhat::Member);
            let tail = after_revoke(RepoView { members: repo.members.skip(n), ..repo }, node, RevokeWhat::Member);
            &&& after.id == repo.id && after.path == repo.path && after.lfs_enabled == repo.lfs_enabled
            &&& after.members.contains(m) <==> repo.members.contains(m) && m.node_id != node
            &&& after.members == head.members + tail.members
        }),
        after_revoke(RepoView { members: seq![m], ..repo }, node, RevokeWhat::Member).members == if m.node_id == node {
            Seq::empty()
        } else {
            seq![m]
        },
{
    broadcast use vstd::seq_lib::group_filter_ensures;

    let keep = |m: MemberView| m.node_id != node;
    let after = repo.members.filter(keep);
    if after.contains(m) {
        let i = choose|i: int| 0 <= i < after.len() && after[i] == m;
        lemma_filter_is_part(repo.members, keep, i);
        assert(keep(after[i]));
    }
    if repo.members.contains(m) && m.node_id != node {
        let j = choose|j: int| 0 <= j < repo.members.len() && repo.members[j] == m;
        lemma_filter_has(repo.members, keep, j);
    }
    lemma_filter_of_parts(repo.members.take(n), repo.members.skip(n), keep);
    assert(repo.members.take(n) + repo.members.skip(n) =~= repo.members);
    reveal(Seq::filter);
    assert(seq![m].drop_last() =~= Seq::<MemberView>::empty());
    assert(Seq::<MemberView>::empty().filter(keep) =~= Seq::<MemberView>::empty());
    assert(Seq::<MemberView>::empty().push(m) =~= seq![m]);
}

proof fn lemma_filter_has<A>(s: Seq<A>, keep: spec_fn(A) -> bool, j: int)
    requires
        0 <= j < s.len(),
        keep(s[j]),
    ensures
        s.filter(keep).contains(s[j]),
    decreases s.len(),
{
    reveal(Seq::filter);
    let t = s.drop_last();
    let f = t.filter(keep);
    if j < t.len() {
        lemma_filter_has(t, keep, j);
        let i = choose|i: int| 0 <= i < f.len() && f[i] == s[j];
        assert(s.filter(keep)[i] == s[j]);
    } else {
        assert(s.filter(keep)[f.len() as int] == s[j]);
    }
}

proof fn lemma_filter_of_parts<A>(a: Seq<A>, b: Seq<A>, keep: spec_fn(A) -> bool)
    ensures
        (a + b).filter(keep) == a.filter(keep) + b.filter(keep),
    decreases b.len(),
{
    reveal(Seq::filter);
    if b.len() == 0 {
        assert(a + b =~= a);
        assert(a.filter(keep) + b.filter(keep) =~= a.filter(keep));
    } else {
        lemma_filter_of_parts(a, b.drop_last(), keep);
        assert((a + b).drop_last() =~= a + b.drop_last());
        assert((a + b).filter(keep) =~= a.filter(keep) + b.filter(keep));
    }
}

/// What a revoke reports is what it did: that the node had no entry, or else which right went, or that
/// there was none to take. It counts as a hit exactly if it changed the repository.
pub proof fn a_revoke_reports_what_it_did(repo: RepoView, node: Seq<char>, what: RevokeWhat, k: int)
    requires
        entry_at(repo.members, node, k),
    ensures
        ({
            let (report, after) = (revoke_report(repo, node, what), after_revoke(repo, node, what));
            let was = k < repo.members.len();
            &&& report == Revoked::NotAMember <==> !was
            &&& report == Revoked::RemovedMember <==> was && what == RevokeWhat::Member
            &&& report == Revoked::DowngradedToReadOnly <==> was && what == RevokeWhat::Write && after != repo
            &&& report == Revoked::AlreadyReadOnly <==> was && what == RevokeWhat::Write && after == repo
            &&& report == Revoked::LfsRevoked <==> was && what == RevokeWhat::Lfs && after != repo
            &&& report == Revoked::AlreadyNoLfs <==> was && what == RevokeWhat::Lfs && after == repo
            &&& revoke_hits(repo, node, what) <==> after != repo
        }),
{
    lemma_entry_at(repo.members, node, k);
    let after = after_revoke(repo, node, what);
    match what {
        RevokeWhat::Member => {
            a_removed_member_has_no_entry_left(repo, node, 0, repo.members[k]);
            if k < repo.members.len() {
                assert(repo.members.contains(repo.members[k]));
                assert(after != repo);
            } else {
                let keep = |m: MemberView| m.node_id != node;
                assert forall|i: int| 0 <= i < repo.members.len() implies keep(#[trigger] repo.members[i]) by {}
                lemma_filter_of_kept(repo.members, keep);
                assert(after =~= repo);
            }
        },
        _ => {
            a_revoked_right_is_all_that_goes(repo, node, k);
            if k < repo.members.len() {
                let had = if what == RevokeWhat::Write {
                    repo.members[k].allow_push
                } else {
                    repo.members[k].allow_lfs
                };
                if had {
                    assert(after.members[k] != repo.members[k]);
                } else {
                    assert(after.members =~= repo.members);
                }
            }
        },
    }
}

/// How many entries of two lists of repositories differ.
pub open spec fn changes(before: Seq<RepoView>, after: Seq<RepoView>) -> nat
    decreases before.len(),
{
    if before.len() == 0 || after.len() == 0 {
        0
    } else {
        changes(before.drop_last(), after.drop_last()) + if before.last() == after.last() {
            0nat
        } else {
            1
        }
    }
}

proof fn lemma_entry_exists(members: Seq<MemberView>, node: Seq<char>) -> (k: int)
    ensures
        entry_at(members, node, k),
{
    let p = |m: MemberView| m.node_id == node;
    lemma_first_where_bounds(members, p);
    let k = first_where(members, p);
    assert forall|i: int| 0 <= i < k implies (#[trigger] members[i]).node_id != node by {
        assert(!p(members[i]));
    }
    k
}

proof fn lemma_hits_are_changes(repos: Seq<RepoView>, node: Seq<char>, what: RevokeWhat)
    ensures
        repos.filter(|repo: RepoView| revoke_hits(repo, node, what)).len() == changes(
            repos,
            repos.map_values(|repo: RepoView| after_revoke(repo, node, what)),
        ),
    decreases repos.len(),
{
    reveal(Seq::filter);
    let f = |repo: RepoView| after_revoke(repo, node, what);
    if repos.len() > 0 {
        let last = repos.last();
        let k = lemma_entry_exists(last.members, node);
        a_revoke_reports_what_it_did(last, node, what, k);
        lemma_hits_are_changes(repos.drop_last(), node, what);
        assert(repos.map_values(f).drop_last() =~= repos.drop_last().map_values(f));
        assert(repos.map_values(f).last() == f(last));
    }
}

/// Revoking everywhere revokes in each repository alike, leaves them all in their places, and counts the
/// repositories that it changed. A text that is no node id changes nothing.
pub proof fn revoking_everywhere_counts_what_changed(
    grants: &mut Grants,
    node_id: &str,
    what: RevokeWhat,
    count: Result<usize, Failure>,
    key: Seq<u8>,
)
    requires
        call_ensures(revoke_everywhere, (grants, node_id, what), count),
    ensures
        count is Err ==> final(grants)@ == old(grants)@,
        names_key(trim(node_id@), key) ==> (count matches Ok(n) && n == changes(old(grants)@, final(grants)@)),
        names_key(trim(node_id@), key) ==> final(grants)@.len() == old(grants)@.len() && forall|i: int|
            0 <= i < old(grants)@.len() ==> #[trigger] final(grants)@[i] == after_revoke(
                old(grants)@[i],
                hex_text(key),
                what,
            ),
{
    if names_key(trim(node_id@), key) {
        lemma_key_named(trim(node_id@), key);
        lemma_hits_are_changes(old(grants)@, hex_text(key), what);
    }
}

/// A text is a NODE_ID exactly if it names a key, perhaps with white space around it.
pub proof fn node_ids_are_texts_that_name_keys(node_id: Seq<char>)
    ensures
        canonical(node_id) is Some <==> exists|key: Seq<u8>| names_key(trim(node_id), key),
        canonical(node_id) matches Some(text) ==> exists|key: Seq<u8>|
            #[trigger] names_key(trim(node_id), key) && text == hex_text(key),
{
}

/// A grant gives the node the rights that are granted, in the repository at the path, which is shared
/// from then on; no other repository is touched, and what is reported is the path, the stored id and the
/// node in its canonical form. A text that is no node id changes nothing.
pub proof fn a_grant_reaches_the_repository_at_the_path(
    grants: &mut Grants,
    path: &str,
    node_id: &str,
    write: bool,
    lfs: bool,
    nickname: &str,
    granted: Result<Granted, Failure>,
    key: Seq<u8>,
    at: int,
)
    requires
        call_ensures(grant, (grants, path, node_id, write, lfs, nickname), granted),
        names_key(trim(node_id@), key),
        0 <= at <= old(grants)@.len(),
        forall|i: int| 0 <= i < at ==> (#[trigger] old(grants)@[i]).path != path@,
        at < old(grants)@.len() ==> old(grants)@[at].path == path@,
    ensures
        at < old(grants)@.len() ==> granted is Ok && final(grants)@.len() == old(grants)@.len(),
        granted is Err ==> final(grants)@ == old(grants)@,
        granted matches Ok(g) ==> {
            let now = final(grants)@;
            &&& now.len() == if at < old(grants)@.len() {
                old(grants)@.len()
            } else {
                old(grants)@.len() + 1
            }
            &&& forall|i: int| 0 <= i < old(grants)@.len() && i != at ==> #[trigger] now[i] == old(grants)@[i]
            &&& now[at].path == path@
            &&& at < old(grants)@.len() ==> now[at].id == old(grants)@[at].id && now[at].lfs_enabled
                == old(grants)@[at].lfs_enabled
            &&& at == old(grants)@.len() ==> !now[at].lfs_enabled && now[at].members.len() == 1 && exists|id: Seq<u8>|
                #[trigger] names_repo(now[at].id, id)
            &&& exists|who: int|
                {
                    &&& #[trigger] entry_at(now[at].members, hex_text(key), who)
                    &&& who < now[at].members.len()
                    &&& write ==> now[at].members[who].allow_push
                    &&& lfs ==> now[at].members[who].allow_lfs
                    &&& trim(nickname@).len() > 0 ==> now[at].members[who].nickname == trim(nickname@)
                    &&& g.allow_lfs == now[at].members[who].allow_lfs
                }
            &&& g.repo_path@ == path@
            &&& g.repo_id@ == now[at].id
            &&& g.node_id@ == hex_text(key)
            &&& g.lfs_enabled == now[at].lfs_enabled
        },
{
    lemma_key_named(trim(node_id@), key);
    let node = hex_text(key);
    let p = |r: RepoView| r.path == path@;
    let before = old(grants)@;
    assert forall|i: int| 0 <= i < at implies !p(#[trigger] before[i]) by {}
    lemma_first_where(before, p, at);
    if let Ok(g) = granted {
        let now = final(grants)@;
        let nick = trim(nickname@);
        if at < before.len() {
            let k = lemma_entry_exists(before[at].members, node);
            a_grant_touches_one_entry(before[at], node, write, lfs, nick, k);
            a_grant_reports_what_it_did(g, before[at], node, write, lfs, nick, k);
            assert(now[at] == after_grant(before[at], node, write, lfs, nick));
            assert(entry_at(now[at].members, node, k));
        } else {
            let id = choose|id: Seq<u8>|
                {
                    let repo = #[trigger] new_repo(id, path@);
                    &&& id.len() == 16
                    &&& now == before.push(after_grant(repo, node, write, lfs, nick))
                    &&& g.reports(repo, node, write, lfs)
                };
            let repo = new_repo(id, path@);
            let k = lemma_entry_exists(repo.members, node);
            a_grant_touches_one_entry(repo, node, write, lfs, nick, k);
            a_grant_reports_what_it_did(g, repo, node, write, lfs, nick, k);
            assert(entry_at(now[at].members, node, k));
            repo_id_roundtrip(id);
            repo_id_is_what_the_text_names(repo.id, id);
            assert(names_repo(now[at].id, id));
        }
    }
}

/// Turning a repository's LFS switch sets it in the first repository at the path and changes nothing
/// else. It is reported whether the path is shared and whether the switch was turned, and the grants are
/// written back exactly if it was.
pub proof fn turning_the_switch_turns_only_it(
    grants: &mut Grants,
    path: &str,
    enabled: bool,
    toggle: LfsToggle,
    saves: bool,
    at: int,
)
    requires
        call_ensures(set_repo_lfs, (grants, path, enabled), toggle),
        call_ensures(LfsToggle::saves, (toggle,), saves),
        0 <= at <= old(grants)@.len(),
        forall|i: int| 0 <= i < at ==> (#[trigger] old(grants)@[i]).path != path@,
        at < old(grants)@.len() ==> old(grants)@[at].path == path@,
    ensures
        toggle == LfsToggle::NotShared <==> at == old(grants)@.len(),
        final(grants)@.len() == old(grants)@.len(),
        forall|i: int| 0 <= i < old(grants)@.len() && i != at ==> #[trigger] final(grants)@[i] == old(grants)@[i],
        at < old(grants)@.len() ==> final(grants)@[at].lfs_enabled == enabled,
        at < old(grants)@.len() ==> final(grants)@[at].id == old(grants)@[at].id && final(grants)@[at].path
            == path@ && final(grants)@[at].members == old(grants)@[at].members,
        saves <==> final(grants)@ != old(grants)@,
        toggle == LfsToggle::Enabled ==> enabled && saves,
        toggle == LfsToggle::Disabled ==> !enabled && saves,
        toggle == LfsToggle::AlreadyInThatState ==> at < old(grants)@.len() && !saves,
{
    let before = old(grants)@;
    let p = |r: RepoView| r.path == path@;
    assert forall|i: int| 0 <= i < at implies !p(#[trigger] before[i]) by {}
    lemma_first_where(before, p, at);
    if at < before.len() {
        if before[at].lfs_enabled == enabled {
            assert(final(grants)@ =~= before);
        } else {
            assert(final(grants)@[at] != before[at]);
        }
    }
}

/// Stopping to share a path removes every repository at it and no other; whether there was one is told.
/// Stopping by a share id removes every repository that has it and no other.
pub proof fn stopping_removes_what_is_named(
    grants: &mut Grants,
    path: &str,
    removed: bool,
    others: &mut Grants,
    id: RepoId,
    gone: bool,
    repo: RepoView,
)
    requires
        call_ensures(unshare, (grants, path), removed),
        call_ensures(unshare_by_id, (others, id), gone),
    ensures
        final(grants)@.contains(repo) <==> old(grants)@.contains(repo) && repo.path != path@,
        removed <==> exists|i: int| 0 <= i < old(grants)@.len() && (#[trigger] old(grants)@[i]).path == path@,
        !removed ==> final(grants)@ == old(grants)@,
        final(others)@.contains(repo) <==> old(others)@.contains(repo) && !names_repo(repo.id, id@),
        gone <==> exists|i: int| 0 <= i < old(others)@.len() && names_repo((#[trigger] old(others)@[i]).id, id@),
        !gone ==> final(others)@ == old(others)@,
{
    let elsewhere = |r: RepoView| r.path != path@;
    let here = |r: RepoView| r.path == path@;
    lemma_filter_and_first(old(grants)@, elsewhere, here, repo);
    let other = |r: RepoView| !names_repo(r.id, id@);
    let it = |r: RepoView| names_repo(r.id, id@);
    lemma_filter_and_first(old(others)@, other, it, repo);
    if removed {
        let k = first_where(old(grants)@, here);
        assert(here(old(grants)@[k]));
    }
    assert forall|i: int| 0 <= i < old(grants)@.len() && (#[trigger] old(grants)@[i]).path == path@ implies removed by {
        assert(here(old(grants)@[i]));
    }
    if gone {
        let k = first_where(old(others)@, it);
        assert(it(old(others)@[k]));
    }
    assert forall|i: int| 0 <= i < old(others)@.len() && names_repo((#[trigger] old(others)@[i]).id, id@) implies gone by {
        assert(it(old(others)@[i]));
    }
}

/// A filter keeps the items with the property and no others, and all of them where no item lacks it.
proof fn lemma_filter_and_first(s: Seq<RepoView>, keep: spec_fn(RepoView) -> bool, drop: spec_fn(RepoView) -> bool, x: RepoView)
    requires
        forall|r: RepoView| #[trigger] keep(r) == !drop(r),
    ensures
        s.filter(keep).contains(x) <==> s.contains(x) && keep(x),
        first_where(s, drop) == s.len() ==> s.filter(keep) == s,
        0 <= first_where(s, drop) <= s.len(),
        first_where(s, drop) < s.len() ==> drop(s[first_where(s, drop)]),
        forall|i: int| 0 <= i < s.len() && drop(#[trigger] s[i]) ==> first_where(s, drop) < s.len(),
{
    broadcast use vstd::seq_lib::group_filter_ensures;

    lemma_first_where_bounds(s, drop);
    let f = s.filter(keep);
    if f.contains(x) {
        let i = choose|i: int| 0 <= i < f.len() && f[i] == x;
        lemma_filter_is_part(s, keep, i);
        assert(keep(f[i]));
    }
    if s.contains(x) && keep(x) {
        let j = choose|j: int| 0 <= j < s.len() && s[j] == x;
        lemma_filter_has(s, keep, j);
    }
    if first_where(s, drop) == s.len() {
        assert forall|i: int| 0 <= i < s.len() implies keep(#[trigger] s[i]) by {
            assert(!drop(s[i]));
        }
        lemma_filter_of_kept(s, keep);
    }
}

/// A repository that has just been shared has the id it was given, is at its path, serves no LFS objects
/// and lets nobody in.
pub proof fn a_new_repository_lets_nobody_in(
    repos: Seq<RepoView>,
    id: Seq<u8>,
    path: Seq<char>,
    q: RequestView,
    l: LfsRequestView,
    caller: Seq<u8>,
)
    requires
        id.len() == 16,
        q.repo_id == id,
        l.repo_id == id,
        forall|i: int| 0 <= i < repos.len() ==> !names_repo((#[trigger] repos[i]).id, id),
    ensures
        names_repo(new_repo(id, path).id, id),
        new_repo(id, path).path == path,
        !new_repo(id, path).lfs_enabled,
        addresses(repos.push(new_repo(id, path)), id, repos.len() as int),
        pack_verdict(repos.push(new_repo(id, path)), q, caller) is Err,
        lfs_verdict(repos.push(new_repo(id, path)), l, caller) is Err,
{
    repo_id_roundtrip(id);
    repo_id_is_what_the_text_names(repo_id_text(id), id);
    let after = repos.push(new_repo(id, path));
    let n = repos.len() as int;
    assert forall|i: int| 0 <= i < n implies !names_repo((#[trigger] after[i]).id, id) by {
        assert(after[i] == repos[i]);
    }
    assert(addresses(after, id, n));
    pack_requests_are_judged_by_the_callers_entry(after, q, caller);
    lfs_requests_are_judged_by_the_callers_entry(after, l, caller);
    assert forall|at: int, who: int| !is_member_by(after, id, caller, at, who) by {
        if is_member_by(after, id, caller, at, who) {
            if at < n {
                assert(!names_repo(after[at].id, id));
            }
        }
    }
}

/// The ticket that is minted for a shared path leads to that path: the request that a client makes with
/// it, of the daemon that it names, is served from there to every member, and from nowhere else to
/// anybody, as long as no repository listed before has the same id.
pub proof fn a_ticket_leads_to_its_repository(
    grants: &Grants,
    path: &str,
    server: &NodeId,
    relay: Option<String>,
    ticket: Ticket,
    service: Service,
    q: Request,
    caller: Seq<u8>,
    at: int,
)
    requires
        call_ensures(ticket_for, (grants, path, server, relay), Ok::<Option<Ticket>, Failure>(Some(ticket))),
        call_ensures(request_for, (&ticket, service), q),
        0 <= at < grants@.len(),
        grants@[at].path == path@,
        forall|i: int| 0 <= i < at ==> (#[trigger] grants@[i]).path != path@,
        forall|i: int| 0 <= i < at ==> !names_repo((#[trigger] grants@[i]).id, ticket.repo_id@),
    ensures
        ticket.node_id@ == server@,
        ticket@.relay_url == option_view(relay),
        addresses(grants@, q.repo_id@, at),
        q.service == service,
        pack_verdict(grants@, q@, caller) matches Ok(p) ==> p == path@,
        (exists|who: int| listed_at(grants@[at].members, caller, who)) && service == Service::UploadPack ==> pack_verdict(
            grants@,
            q@,
            caller,
        ) is Ok,
{
    let p = |r: RepoView| r.path == path@;
    assert forall|i: int| 0 <= i < at implies !p(#[trigger] grants@[i]) by {}
    lemma_first_where(grants@, p, at);
    assert(ticket@.repo_id == ticket.repo_id@ && ticket@.node_id == ticket.node_id@);
    assert(q@.repo_id == q.repo_id@);
    repo_id_is_what_the_text_names(grants@[at].id, ticket.repo_id@);
    assert(addresses(grants@, q.repo_id@, at));
    pack_requests_are_judged_by_the_callers_entry(grants@, q@, caller);
    if exists|who: int| listed_at(grants@[at].members, caller, who) {
        let who = choose|who: int| listed_at(grants@[at].members, caller, who);
        assert(is_member_by(grants@, q.repo_id@, caller, at, who));
    }
    assert forall|a: int, w: int| is_member_by(grants@, q.repo_id@, caller, a, w) implies a == at by {
        if at < a {
            assert(!names_repo(grants@[at].id, q.repo_id@));
        }
    }
}

/// The name in a ticket is the name of the repository's directory, whatever directories it lies in and
/// whichever slashes follow it, without the `.git` of a bare repository, and with a `-` for what a url's
/// segment may not hold.
pub proof fn tickets_carry_the_directorys_name(dir: Seq<char>, slash: char, name: Seq<char>, slashes: Seq<char>)
    requires
        is_slash(slash),
        name.len() > 0,
        forall|i: int| 0 <= i < name.len() ==> !is_slash(#[trigger] name[i]),
        forall|i: int| 0 <= i < slashes.len() ==> is_slash(#[trigger] slashes[i]),
    ensures
        !ends_with(name, ".git"@) ==> repo_name_of(dir + seq![slash] + name + slashes) == sanitized(name),
        repo_name_of(dir + seq![slash] + (name + ".git"@) + slashes) == sanitized(name),
        (forall|i: int| 0 <= i < name.len() ==> is_name_char(#[trigger] name[i])) ==> sanitized(name) == name,
{
    reveal_strlit(".git");
    let bare = name + ".git"@;
    assert forall|i: int| 0 <= i < bare.len() implies !is_slash(#[trigger] bare[i]) by {
        if i < name.len() {
            assert(bare[i] == name[i]);
        }
    }
    the_last_name_is_what_was_written(dir, slash, name, slashes);
    the_last_name_is_what_was_written(dir, slash, bare, slashes);
    assert(bare.skip(name.len() as int) =~= ".git"@);
    assert(bare.take(name.len() as int) =~= name);
    if forall|i: int| 0 <= i < name.len() ==> is_name_char(#[trigger] name[i]) {
        assert(sanitized(name) =~= name);
    }
}

/// A revoke touches the first repository at the path and no other, and there the node that the text
/// names; it is told where the path is not shared. Whatever it changed is written back.
pub proof fn a_revoke_reaches_the_repository_at_the_path(
    grants: &mut Grants,
    path: &str,
    node_id: &str,
    what: RevokeWhat,
    revoked: Result<Revoked, Failure>,
    saves: bool,
    key: Seq<u8>,
    at: int,
)
    requires
        call_ensures(revoke_at, (grants, path, node_id, what), revoked),
        revoked matches Ok(r) ==> call_ensures(Revoked::saves, (r,), saves),
        names_key(trim(node_id@), key),
        0 <= at <= old(grants)@.len(),
        forall|i: int| 0 <= i < at ==> (#[trigger] old(grants)@[i]).path != path@,
        at < old(grants)@.len() ==> old(grants)@[at].path == path@,
    ensures
        revoked is Ok,
        revoked == Ok::<Revoked, Failure>(Revoked::RepoNotShared) <==> at == old(grants)@.len(),
        final(grants)@.len() == old(grants)@.len(),
        forall|i: int| 0 <= i < old(grants)@.len() && i != at ==> #[trigger] final(grants)@[i] == old(grants)@[i],
        at < old(grants)@.len() ==> final(grants)@[at] == after_revoke(old(grants)@[at], hex_text(key), what),
        final(grants)@ != old(grants)@ ==> saves,
        revoked == Ok::<Revoked, Failure>(Revoked::NotAMember) || revoked == Ok::<Revoked, Failure>(
            Revoked::RepoNotShared,
        ) ==> !saves && final(grants)@ == old(grants)@,
{
    lemma_key_named(trim(node_id@), key);
    let before = old(grants)@;
    let p = |r: RepoView| r.path == path@;
    assert forall|i: int| 0 <= i < at implies !p(#[trigger] before[i]) by {}
    lemma_first_where(before, p, at);
    if at < before.len() {
        let node = hex_text(key);
        let k = lemma_entry_exists(before[at].members, node);
        a_revoke_reports_what_it_did(before[at], node, what, k);
        if revoke_report(before[at], node, what) == Revoked::NotAMember {
            assert(!revoke_hits(before[at], node, what));
            assert(final(grants)@ =~= before);
        }
    }
}

/// A ticket that is minted carries the stored repository id, the server, its relay and the name of the
/// directory.
pub proof fn a_minted_ticket_carries_what_it_was_minted_for(
    repo_id: &str,
    path: &str,
    server: &NodeId,
    relay: Option<String>,
    ticket: Result<Ticket, Failure>,
)
    requires
        call_ensures(build_ticket, (repo_id, path, server, relay), ticket),
    ensures
        ticket is Ok <==> exists|id: Seq<u8>| names_repo(repo_id@, id),
        ticket matches Ok(t) ==> names_repo(repo_id@, t.repo_id@) && t.node_id@ == server@ && option_view(t.relay_url)
            == option_view(relay) && t.name@ == repo_name_of(path@),
{
    if let Ok(t) = ticket {
        assert(t@.repo_id == t.repo_id@ && t@.node_id == t.node_id@ && t@.name == t.name@);
        assert(t@.relay_url == option_view(t.relay_url));
        repo_id_is_what_the_text_names(repo_id@, t.repo_id@);
    }
    if exists|id: Seq<u8>| names_repo(repo_id@, id) {
        let id = choose|id: Seq<u8>| names_repo(repo_id@, id);
        repo_id_is_what_the_text_names(repo_id@, id);
    }
}

/// In a name every character that a url's segment may not hold is a `-`, and every other is kept: letters,
/// digits, `-`, `_` and `.`.
pub proof fn names_keep_what_they_may_hold(s: Seq<char>, i: int)
    requires
        0 <= i < s.len(),
    ensures
        sanitized(s).len() == s.len(),
        is_name_char(s[i]) ==> sanitized(s)[i] == s[i],
        !is_name_char(s[i]) ==> sanitized(s)[i] == '-',
        s[i] == '/' || s[i] == ' ' || s[i] == ':' || s[i] > 'z' ==> sanitized(s)[i] == '-',
        ('a' <= s[i] <= 'z' || 'A' <= s[i] <= 'Z' || '0' <= s[i] <= '9') ==> sanitized(s)[i] == s[i],
{
}

/// Stopping to share everything leaves nothing shared, and counts what was.
pub proof fn stopping_everything_leaves_nothing(grants: &mut Grants, count: usize)
    requires
        call_ensures(unshare_all, (grants,), count),
    ensures
        final(grants)@.len() == 0,
        count == old(grants)@.len(),
{
}

/// A repository at the root, or one whose directory is named `.git` and nothing more, is called `repo`.
pub proof fn nameless_repositories_are_called_repo(dir: Seq<char>, slash: char, slashes: Seq<char>)
    requires
        is_slash(slash),
        forall|i: int| 0 <= i < slashes.len() ==> is_slash(#[trigger] slashes[i]),
    ensures
        repo_name_of(slashes) == "repo"@,
        repo_name_of(dir + seq![slash] + ".git"@ + slashes) == "repo"@,
{
    reveal_strlit(".git");
    the_last_name_is_what_was_written(dir, slash, ".git"@, slashes);
    only_slashes_have_no_name(slashes);
    assert(".git"@.skip(0) =~= ".git"@);
    let empty = Seq::<char>::empty();
    assert(!ends_with(empty, ".git"@));
}

/// Nothing is done for a text that names no key: neither a grant nor a revoke changes anything, and each
/// says which text it was.
pub proof fn nothing_is_done_for_a_text_that_names_no_key(
    a: &mut Grants,
    b: &mut Grants,
    c: &mut Grants,
    path: &str,
    node_id: &str,
    write: bool,
    lfs: bool,
    nickname: &str,
    what: RevokeWhat,
    granted: Result<Granted, Failure>,
    revoked: Result<Revoked, Failure>,
    count: Result<usize, Failure>,
)
    requires
        call_ensures(grant, (a, path, node_id, write, lfs, nickname), granted),
        call_ensures(revoke_at, (b, path, node_id, what), revoked),
        call_ensures(revoke_everywhere, (c, node_id, what), count),
        forall|key: Seq<u8>| !names_key(trim(node_id@), key),
    ensures
        final(a)@ == old(a)@ && (granted matches Err(Failure::InvalidNodeId { node_id: n, cause }) && n@ == node_id@),
        final(b)@ == old(b)@ && (revoked matches Err(Failure::InvalidNodeId { node_id: n, cause }) && n@ == node_id@),
        final(c)@ == old(c)@ && (count matches Err(Failure::InvalidNodeId { node_id: n, cause }) && n@ == node_id@),
{
    assert(canonical(node_id@) is None);
}

} // verus!
