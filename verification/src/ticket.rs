//! The `iroh://…` ticket: pure addressing, no secret.
//!
//! A ticket names the daemon (its node id and an optional relay hint) and which repository to ask
//! for. Authorization is entirely the daemon's node-id allowlist, so a ticket is safe to reuse and
//! even republish: a leaked ticket only lets a stranger *attempt* a connection that the daemon will
//! reject.

use crate::base32::{
    base32_bytes, base32_case, base32_refusal, base32_roundtrip, base32_text, decode_base32,
    encode_base32,
};
use crate::error::Failure;
use crate::node::{is_public_key, same_bytes, NodeId};
use crate::random::draw;
use crate::text::{
    after_last, ascii_upper, byte_count, byte_len, cut_prefix, cut_suffix, ends_with, find_char,
    first_at, leaf, lemma_after_last, lemma_first_at, lowered, option_view, starts_with,
    the_leaf_follows_the_last_separator, to_lower, to_uppercase, uppercase, uppered, without_suffix,
};
use crate::wire::{
    decode_ticket_record, encode_ticket_record, option_text_bytes, read_option_text,
    read_ticket_record, read_varint, ticket_record, ticket_record_refusal, ticket_record_roundtrip,
};
use vstd::prelude::*;
use vstd::utf8::{is_ascii_chars, is_ascii_chars_encode_utf8};

verus! {

/// URL scheme that git maps to the `git-remote-iroh` helper.
pub const SCHEME: &'static str = "iroh://";

/// Opaque per-repository identifier, minted when a repository is first shared.
#[derive(Clone, Copy, Debug, PartialEq, Eq)]
pub struct RepoId {
    bytes: [u8; 16],
}

impl View for RepoId {
    type V = Seq<u8>;

    closed spec fn view(&self) -> Seq<u8> {
        self.bytes@
    }
}

/// `text` is a way to write the repository id `id`: its base32 in either case.
pub open spec fn names_repo(text: Seq<char>, id: Seq<u8>) -> bool {
    id.len() == 16 && base32_text(id) == uppercase(text)
}

/// A repository id as grants store it: base32 in lower case.
pub open spec fn repo_id_text(id: Seq<u8>) -> Seq<char> {
    lowered(base32_text(id))
}

/// What the capitals of a text are as a repository id.
pub open spec fn repo_id_of_capitals(upper: Seq<char>) -> Option<Seq<u8>> {
    match base32_bytes(upper) {
        Some(bytes) => if bytes.len() == 16 {
            Some(bytes)
        } else {
            None
        },
        None => None,
    }
}

/// What a text is as a repository id.
pub open spec fn repo_id_of(text: Seq<char>) -> Option<Seq<u8>> {
    if byte_len(uppercase(text)) > usize::MAX / 8 {
        None
    } else {
        repo_id_of_capitals(uppercase(text))
    }
}

/// The failure says why the capitals of a text are no repository id.
pub open spec fn refuses_repo_capitals(e: Failure, upper: Seq<char>) -> bool {
    match base32_bytes(upper) {
        None => e matches Failure::RepoIdNotBase32 { cause } && cause@ == base32_refusal(upper),
        Some(bytes) => e matches Failure::RepoIdLength { cause } && cause@ == array_refusal(bytes),
    }
}

/// The failure says why a text is no repository id.
pub open spec fn refuses_repo_id(e: Failure, text: Seq<char>) -> bool {
    if byte_len(uppercase(text)) > usize::MAX / 8 {
        e == Failure::RepoIdTooLong
    } else {
        refuses_repo_capitals(e, uppercase(text))
    }
}

/// What the error of `TryFrom` from a slice to an array says of a slice of another length.
pub uninterp spec fn array_refusal(bytes: Seq<u8>) -> Seq<char>;

/// `TryFrom<&[u8]>` for `[u8; 16]` of the standard library: the array with these bytes where there are
/// 16 of them, or else the text of the error, which is named, not described.
#[verifier::external_body]
fn sixteen(bytes: &[u8]) -> (r: Result<[u8; 16], String>)
    ensures
        match r {
            Ok(array) => bytes@.len() == 16 && array@ == bytes@,
            Err(cause) => bytes@.len() != 16 && cause@ == array_refusal(bytes@),
        },
{
    match <[u8; 16]>::try_from(bytes) {
        Ok(array) => Ok(array),
        Err(e) => Err(e.to_string()),
    }
}

impl RepoId {
    /// Mint a fresh random repository id.
    pub fn random() -> (r: Result<RepoId, Failure>)
        ensures
            r matches Ok(id) ==> id@.len() == 16,
            r matches Err(e) ==> e is NoRandomRepoId,
    {
        RepoId::from_drawn(draw::<16>())
    }

    /// The repository id of the random bytes that were drawn, or why there is none.
    pub fn from_drawn(drawn: Result<[u8; 16], String>) -> (r: Result<RepoId, Failure>)
        ensures
            match drawn {
                Ok(bytes) => r matches Ok(id) && id@ == bytes@,
                Err(cause) => r == Err::<RepoId, Failure>(Failure::NoRandomRepoId { cause }),
            },
    {
        match drawn {
            Ok(bytes) => Ok(RepoId { bytes }),
            Err(cause) => Err(Failure::NoRandomRepoId { cause }),
        }
    }

    pub fn from_bytes(bytes: [u8; 16]) -> (r: RepoId)
        ensures
            r@ == bytes@,
    {
        RepoId { bytes }
    }

    pub fn as_bytes(&self) -> (r: &[u8; 16])
        ensures
            r@ == self@,
            self@.len() == 16,
    {
        &self.bytes
    }

    /// Parse a repository id from its base32 form, in either case.
    pub fn parse(s: &str) -> (r: Result<RepoId, Failure>)
        ensures
            match repo_id_of(s@) {
                Some(id) => r matches Ok(x) && x@ == id,
                None => r matches Err(e) && refuses_repo_id(e, s@),
            },
    {
        let upper = to_uppercase(s);
        if byte_count(upper.as_str()) > usize::MAX / 8 {
            return Err(Failure::RepoIdTooLong);
        }
        RepoId::from_capitals(upper.as_str())
    }

    /// Parse a repository id from its base32 form in capitals.
    pub fn from_capitals(upper: &str) -> (r: Result<RepoId, Failure>)
        requires
            byte_len(upper@) <= usize::MAX / 8,
        ensures
            match repo_id_of_capitals(upper@) {
                Some(id) => r matches Ok(x) && x@ == id,
                None => r matches Err(e) && refuses_repo_capitals(e, upper@),
            },
    {
        match decode_base32(upper) {
            Err(cause) => Err(Failure::RepoIdNotBase32 { cause }),
            Ok(bytes) => {
                proof {
                    base32_roundtrip(bytes@);
                }
                match sixteen(bytes.as_slice()) {
                    Ok(bytes) => Ok(RepoId { bytes }),
                    Err(cause) => Err(Failure::RepoIdLength { cause }),
                }
            },
        }
    }

    /// The repository id in the form in which grants store it.
    pub fn to_text(&self) -> (r: String)
        ensures
            r@ == repo_id_text(self@),
    {
        to_lower(encode_base32(self.bytes.as_slice()).as_str())
    }

    /// Whether two repository ids are the same.
    pub fn same(&self, other: &RepoId) -> (r: bool)
        ensures
            r == (self@ == other@),
    {
        same_bytes(&self.bytes, &other.bytes)
    }
}

/// A repository id is read from exactly the texts that name it.
pub proof fn repo_id_is_what_the_text_names(text: Seq<char>, id: Seq<u8>)
    ensures
        names_repo(text, id) <==> repo_id_of(text) == Some(id),
{
    if names_repo(text, id) {
        base32_roundtrip(id);
        base32_case(id);
        is_ascii_chars_encode_utf8(uppercase(text));
    }
}

/// Parsing the text of a repository id gives the id back.
pub proof fn repo_id_roundtrip(id: Seq<u8>)
    requires
        id.len() == 16,
    ensures
        repo_id_of(repo_id_text(id)) == Some(id),
{
    base32_case(id);
    repo_id_is_what_the_text_names(repo_id_text(id), id);
}

/// A decoded `iroh://` ticket.
#[derive(Clone, Debug, PartialEq, Eq)]
pub struct Ticket {
    /// The daemon's node id.
    pub node_id: NodeId,
    /// Relay URL hint; discovery can recover the daemon without it.
    pub relay_url: Option<String>,
    /// Which repository on that daemon this ticket addresses.
    pub repo_id: RepoId,
    /// Cosmetic repository name appended to the URL as `/<name>.git`, so that a bare `git clone`
    /// lands in a sensibly named directory. Not part of the addressing.
    pub name: String,
}

/// What a ticket says.
#[verifier::ext_equal]
pub struct TicketView {
    pub node_id: Seq<u8>,
    pub relay_url: Option<Seq<char>>,
    pub repo_id: Seq<u8>,
    pub name: Seq<char>,
}

impl View for Ticket {
    type V = TicketView;

    open spec fn view(&self) -> TicketView {
        TicketView {
            node_id: self.node_id@,
            relay_url: option_view(self.relay_url),
            repo_id: self.repo_id@,
            name: self.name@,
        }
    }
}

/// The bytes inside a ticket's token.
pub open spec fn ticket_bytes(t: TicketView) -> Seq<u8> {
    ticket_record(t.node_id, t.relay_url, t.repo_id)
}

/// What follows the token: `/<name>.git`, or nothing where the name is empty.
pub open spec fn ticket_suffix(name: Seq<char>) -> Seq<char> {
    if name.len() == 0 {
        Seq::empty()
    } else {
        "/"@ + name + ".git"@
    }
}

/// A ticket as a git remote: `iroh://<base32>[/<name>.git]`.
pub open spec fn ticket_url(t: TicketView) -> Seq<char> {
    SCHEME@ + lowered(base32_text(ticket_bytes(t))) + ticket_suffix(t.name)
}

/// The token of a url whose scheme has been taken off: what stands before the first `/`.
pub open spec fn token_part(rest: Seq<char>) -> Seq<char> {
    rest.take(first_at(rest, '/'))
}

/// The name in a url whose scheme has been taken off: the last path segment, without `.git`.
pub open spec fn name_part(rest: Seq<char>) -> Seq<char> {
    let slash = first_at(rest, '/');
    if slash < rest.len() {
        without_suffix(after_last(rest.skip(slash + 1), '/'), ".git"@)
    } else {
        Seq::empty()
    }
}

/// What the capitals of a token are as a ticket with that name.
pub open spec fn ticket_of_capitals(upper: Seq<char>, name: Seq<char>) -> Option<TicketView> {
    match base32_bytes(upper) {
        Some(bytes) => match read_ticket_record(bytes) {
            Some((node_id, relay_url, repo_id)) => if is_public_key(node_id) {
                Some(TicketView { node_id, relay_url, repo_id, name })
            } else {
                None
            },
            None => None,
        },
        None => None,
    }
}

/// What a url is as a ticket.
pub open spec fn ticket_of(url: Seq<char>) -> Option<TicketView> {
    let rest = url.skip(SCHEME@.len() as int);
    let upper = uppercase(token_part(rest));
    if !starts_with(url, SCHEME@) || byte_len(upper) > usize::MAX / 8 {
        None
    } else {
        ticket_of_capitals(upper, name_part(rest))
    }
}

/// The failure says why the capitals of a token are no ticket.
pub open spec fn refuses_ticket_capitals(e: Failure, upper: Seq<char>) -> bool {
    match base32_bytes(upper) {
        None => e matches Failure::TicketNotBase32 { cause } && cause@ == base32_refusal(upper),
        Some(bytes) => match read_ticket_record(bytes) {
            None => e matches Failure::TicketLayout { cause } && cause@ == ticket_record_refusal(bytes),
            Some(_) => e matches Failure::TicketNodeId { cause } && cause@ == "data is not a valid public key"@,
        },
    }
}

/// The failure says why a url is no ticket.
pub open spec fn refuses_ticket(e: Failure, url: Seq<char>) -> bool {
    let upper = uppercase(token_part(url.skip(SCHEME@.len() as int)));
    if !starts_with(url, SCHEME@) {
        e matches Failure::NotIrohUrl { url: u } && u@ == url
    } else if byte_len(upper) > usize::MAX / 8 {
        e == Failure::TicketTooLong
    } else {
        refuses_ticket_capitals(e, upper)
    }
}

impl Ticket {
    /// Encode as `iroh://<base32>[/<name>.git]` for use as a git remote. The trailing name makes a
    /// bare `git clone` choose `<name>` as its directory. The ticket's bytes must be few enough for
    /// the length of their base32 to be counted.
    pub fn encode(&self) -> (r: String)
        requires
            ticket_bytes(self@).len() <= usize::MAX / 512,
        ensures
            r@ == ticket_url(self@),
    {
        let bytes = encode_ticket_record(self.node_id.as_bytes(), &self.relay_url, self.repo_id.as_bytes());
        let token = to_lower(encode_base32(bytes.as_slice()).as_str());
        let url = SCHEME.to_owned().concat(token.as_str());
        if self.name.as_str().is_empty() {
            assert(url@ + Seq::<char>::empty() =~= url@);
            url
        } else {
            let r = url.concat("/").concat(self.name.as_str()).concat(".git");
            assert(r@ =~= ticket_url(self@));
            r
        }
    }

    /// Parse an `iroh://<base32>[/<name>.git]` remote url back into a ticket. The trailing name is
    /// cosmetic and recovered for completeness only.
    pub fn parse(s: &str) -> (r: Result<Ticket, Failure>)
        ensures
            match ticket_of(s@) {
                Some(t) => r matches Ok(x) && x@ == t,
                None => r matches Err(e) && refuses_ticket(e, s@),
            },
    {
        let rest = match cut_prefix(s, SCHEME) {
            None => {
                return Err(Failure::NotIrohUrl { url: s.to_owned() });
            },
            Some(rest) => rest,
        };
        let slash = find_char(rest, '/');
        let end = rest.unicode_len();
        let token = rest.substring_char(0, slash);
        let name = if slash < end {
            cut_suffix(leaf(rest.substring_char(slash + 1, end), '/'), ".git").to_owned()
        } else {
            String::new()
        };
        assert(token@ =~= token_part(rest@));
        assert(slash < end ==> rest@.subrange(slash + 1, end as int) =~= rest@.skip(slash + 1));
        let upper = to_uppercase(token);
        if byte_count(upper.as_str()) > usize::MAX / 8 {
            return Err(Failure::TicketTooLong);
        }
        Ticket::from_capitals(upper.as_str(), name)
    }

    /// The ticket with this name whose token, in capitals, is `upper`.
    pub fn from_capitals(upper: &str, name: String) -> (r: Result<Ticket, Failure>)
        requires
            byte_len(upper@) <= usize::MAX / 8,
        ensures
            match ticket_of_capitals(upper@, name@) {
                Some(t) => r matches Ok(x) && x@ == t,
                None => r matches Err(e) && refuses_ticket_capitals(e, upper@),
            },
    {
        let bytes = match decode_base32(upper) {
            Err(cause) => {
                return Err(Failure::TicketNotBase32 { cause });
            },
            Ok(bytes) => bytes,
        };
        proof {
            base32_roundtrip(bytes@);
        }
        let (node, relay_url, repo) = match decode_ticket_record(bytes.as_slice()) {
            Err(cause) => {
                return Err(Failure::TicketLayout { cause });
            },
            Ok(record) => record,
        };
        match NodeId::from_bytes(&node) {
            Err(cause) => Err(Failure::TicketNodeId { cause }),
            Ok(node_id) => Ok(Ticket { node_id, relay_url, repo_id: RepoId::from_bytes(repo), name }),
        }
    }
}

/// Parsing the url of a ticket gives the ticket back, whatever relay hint it carries, as long as
/// its name has no `/` in it.
pub proof fn ticket_roundtrip(t: TicketView)
    requires
        t.node_id.len() == 32,
        is_public_key(t.node_id),
        t.repo_id.len() == 16,
        !t.name.contains('/'),
        ticket_bytes(t).len() <= usize::MAX / 512,
    ensures
        ticket_of(ticket_url(t)) == Some(t),
{
    let url = ticket_url(t);
    let bytes = ticket_bytes(t);
    let token = lowered(base32_text(bytes));
    let rest = token + ticket_suffix(t.name);
    assert(url.take(SCHEME@.len() as int) =~= SCHEME@);
    assert(url.skip(SCHEME@.len() as int) =~= rest);
    base32_case(bytes);
    base32_roundtrip(bytes);
    assert forall|i: int| 0 <= i < token.len() implies #[trigger] rest[i] != '/' by {
        assert(rest[i] == token[i]);
    }
    reveal_strlit("/");
    reveal_strlit(".git");
    let k = token.len() as int;
    if t.name.len() > 0 {
        assert(rest[k] == '/');
        lemma_first_at(rest, '/', k);
        let path = rest.skip(k + 1);
        assert(path =~= t.name + ".git"@);
        assert forall|i: int| 0 <= i < path.len() implies #[trigger] path[i] != '/' by {
            if i < t.name.len() {
                assert(path[i] == t.name[i]);
                assert(t.name.contains(t.name[i]));
            }
        }
        lemma_after_last(path, '/', 0);
        assert(path.skip(0) =~= path);
        assert(path.skip(path.len() - 4) =~= ".git"@);
        assert(path.take(path.len() - 4) =~= t.name);
    } else {
        lemma_first_at(rest, '/', k);
        assert(t.name =~= Seq::<char>::empty());
    }
    assert(token_part(rest) =~= token);
    is_ascii_chars_encode_utf8(base32_text(bytes));
    ticket_record_roundtrip(t.node_id, t.relay_url, t.repo_id);
}

/// A ticket is read from its url in either case, whatever path follows the token: the name is the last
/// segment of the path, without `.git`, and empty where there is no path.
pub proof fn tickets_are_read_in_either_case(t: TicketView, token: Seq<char>, dirs: Seq<char>, name: Seq<char>)
    requires
        t.node_id.len() == 32,
        is_public_key(t.node_id),
        t.repo_id.len() == 16,
        ticket_bytes(t).len() <= usize::MAX / 512,
        is_ascii_chars(token),
        uppered(token) == base32_text(ticket_bytes(t)),
        !name.contains('/'),
    ensures
        ticket_of("iroh://"@ + token) == Some(TicketView { name: Seq::empty(), ..t }),
        ticket_of("iroh://"@ + (token + seq!['/'] + (name + ".git"@))) == Some(TicketView { name, ..t }),
        ticket_of("iroh://"@ + (token + seq!['/'] + (dirs + seq!['/'] + (name + ".git"@)))) == Some(
            TicketView { name, ..t },
        ),
        !ends_with(name, ".git"@) ==> ticket_of("iroh://"@ + (token + seq!['/'] + name)) == Some(
            TicketView { name, ..t },
        ),
{
    reveal_strlit("iroh://");
    reveal_strlit(".git");
    let bytes = ticket_bytes(t);
    base32_case(bytes);
    base32_roundtrip(bytes);
    is_ascii_chars_encode_utf8(base32_text(bytes));
    ticket_record_roundtrip(t.node_id, t.relay_url, t.repo_id);
    assert(token.len() == base32_text(bytes).len());
    assert forall|i: int| 0 <= i < token.len() implies #[trigger] token[i] != '/' by {
        assert(uppered(token)[i] == ascii_upper(token[i]));
    }
    let leaf = name + ".git"@;
    assert(!leaf.contains('/')) by {
        if leaf.contains('/') {
            let i = choose|i: int| 0 <= i < leaf.len() && leaf[i] == '/';
            if i < name.len() {
                assert(name[i] == '/');
            }
        }
    }
    assert(leaf.skip(leaf.len() - 4) =~= ".git"@);
    assert(leaf.take(leaf.len() - 4) =~= name);
    the_leaf_follows_the_last_separator(dirs, '/', leaf);
    the_leaf_follows_the_last_separator(dirs, '/', name);
    lemma_ticket_of_token(t, token, leaf);
    lemma_ticket_of_token(t, token, dirs + seq!['/'] + leaf);
    lemma_ticket_of_token(t, token, name);
    let url = "iroh://"@ + token;
    assert(url.take(7) =~= "iroh://"@);
    assert(url.skip(7) =~= token);
    lemma_first_at(token, '/', token.len() as int);
    assert(token_part(token) =~= token);
}

/// What a token with a path behind it is as a ticket.
proof fn lemma_ticket_of_token(t: TicketView, token: Seq<char>, path: Seq<char>)
    requires
        is_ascii_chars(token),
        forall|i: int| 0 <= i < token.len() ==> #[trigger] token[i] != '/',
    ensures
        ({
            let url = "iroh://"@ + (token + seq!['/'] + path);
            ticket_of(url) == if byte_len(uppered(token)) > usize::MAX / 8 {
                None
            } else {
                ticket_of_capitals(uppered(token), without_suffix(after_last(path, '/'), ".git"@))
            }
        }),
{
    reveal_strlit("iroh://");
    let rest = token + seq!['/'] + path;
    let url = "iroh://"@ + rest;
    let k = token.len() as int;
    assert(url.take(7) =~= "iroh://"@);
    assert(url.skip(7) =~= rest);
    assert forall|i: int| 0 <= i < k implies #[trigger] rest[i] != '/' by {
        assert(rest[i] == token[i]);
    }
    assert(rest[k] == '/');
    lemma_first_at(rest, '/', k);
    assert(token_part(rest) =~= token);
    assert(rest.skip(k + 1) =~= path);
}

/// Whatever is read as a ticket is written in the scheme, and names a public key and a repository id.
pub proof fn tickets_name_a_key_and_a_repository(url: Seq<char>)
    ensures
        ticket_of(url) matches Some(t) ==> {
            &&& starts_with(url, "iroh://"@)
            &&& t.node_id.len() == 32
            &&& is_public_key(t.node_id)
            &&& t.repo_id.len() == 16
            &&& exists|bytes: Seq<u8>|
                {
                    &&& #[trigger] base32_text(bytes) == uppercase(token_part(url.skip(7)))
                    &&& bytes.take(32) == t.node_id
                    &&& bytes.len() >= 49
                }
        },
{
    reveal_strlit("iroh://");
    if ticket_of(url) is Some {
        let upper = uppercase(token_part(url.skip(7)));
        let bytes = choose|bytes: Seq<u8>| #[trigger] base32_text(bytes) == upper;
        assert(base32_bytes(upper) == Some(bytes));
        assert(read_ticket_record(bytes) is Some);
        let after = bytes.skip(32);
        assert(read_option_text(after) is Some);
        let b2 = read_option_text(after).unwrap().1;
        lemma_option_text_is_read(after);
        assert(b2.len() >= 16);
    }
}

proof fn lemma_option_text_is_read(b: Seq<u8>)
    ensures
        read_option_text(b) matches Some((_, rest)) ==> rest.len() < b.len(),
{
    if b.len() > 0 && b[0] == 1 {
        lemma_varint_is_read(b.skip(1), 5, 15);
        lemma_varint_is_read(b.skip(1), 10, 1);
    }
}

proof fn lemma_varint_is_read(b: Seq<u8>, room: nat, top: nat)
    ensures
        read_varint(b, room, top) matches Some((_, rest)) ==> rest.len() < b.len(),
    decreases room,
{
    if room > 0 && b.len() > 0 && b[0] >= 128 {
        lemma_varint_is_read(b.skip(1), (room - 1) as nat, top);
    }
}

/// A repository id is written in 26 characters, `a` to `z` and `2` to `7`, and two ids in different ones.
pub proof fn repo_ids_are_written_apart(a: Seq<u8>, b: Seq<u8>)
    requires
        a.len() == 16,
        b.len() == 16,
    ensures
        repo_id_text(a).len() == 26,
        forall|i: int|
            0 <= i < 26 ==> ('a' <= #[trigger] repo_id_text(a)[i] <= 'z' || '2' <= repo_id_text(a)[i] <= '7'),
        repo_id_text(a) == repo_id_text(b) ==> a == b,
{
    base32_case(a);
    repo_id_roundtrip(a);
    repo_id_roundtrip(b);
}

/// A ticket's url is the scheme, its record in lower-case base32, and then its name, if it has one,
/// between a `/` and `.git`: it is all in lower case but for the name.
pub proof fn urls_are_written_in_lower_case(t: TicketView)
    ensures
        exists|token: Seq<char>|
            {
                &&& uppered(token) == base32_text(ticket_bytes(t))
                &&& forall|i: int|
                    0 <= i < token.len() ==> ('a' <= #[trigger] token[i] <= 'z' || '2' <= token[i] <= '7')
                &&& t.name.len() == 0 ==> ticket_url(t) == "iroh://"@ + token
                &&& t.name.len() > 0 ==> ticket_url(t) == #[trigger] ("iroh://"@ + token) + ("/"@ + t.name + ".git"@)
            },
        ticket_bytes(t) == t.node_id + option_text_bytes(t.relay_url) + t.repo_id,
{
    let token = lowered(base32_text(ticket_bytes(t)));
    base32_case(ticket_bytes(t));
    let head = "iroh://"@ + token;
    assert(head + Seq::<char>::empty() =~= head);
}

/// A url that is no ticket is refused for the first thing that is wrong with it: the scheme, the base32
/// of the token, the record in it, or the key in the record.
pub proof fn refusals_name_the_first_fault(s: &str, parsed: Result<Ticket, Failure>)
    requires
        call_ensures(Ticket::parse, (s,), parsed),
    ensures
        parsed is Ok <==> ticket_of(s@) is Some,
        parsed matches Ok(t) ==> ticket_of(s@) == Some(t@),
        parsed matches Err(e) ==> {
            let upper = uppercase(token_part(s@.skip(7)));
            let is_base32 = exists|bytes: Seq<u8>| #[trigger] base32_text(bytes) == upper;
            &&& e is NotIrohUrl <==> !starts_with(s@, "iroh://"@)
            &&& e is TicketTooLong <==> starts_with(s@, "iroh://"@) && byte_len(upper) > usize::MAX / 8
            &&& e is TicketNotBase32 ==> !is_base32
            &&& e is TicketLayout ==> exists|bytes: Seq<u8>|
                #[trigger] base32_text(bytes) == upper && read_ticket_record(bytes) is None
            &&& e is TicketNodeId ==> exists|bytes: Seq<u8>|
                #[trigger] base32_text(bytes) == upper && (read_ticket_record(bytes) matches Some(r) && !is_public_key(
                    r.0,
                ))
            &&& e is NotIrohUrl || e is TicketTooLong || e is TicketNotBase32 || e is TicketLayout || e is TicketNodeId
        },
{
    reveal_strlit("iroh://");
    if let Err(e) = parsed {
        let upper = uppercase(token_part(s@.skip(7)));
        if exists|bytes: Seq<u8>| #[trigger] base32_text(bytes) == upper {
            let bytes = choose|bytes: Seq<u8>| #[trigger] base32_text(bytes) == upper;
            assert(base32_bytes(upper) == Some(bytes));
        }
    }
}

/// A text that is no repository id is refused because it is not base32, or because it is base32 of
/// another length.
pub proof fn ids_are_refused_by_their_base32_or_length(s: &str, parsed: Result<RepoId, Failure>)
    requires
        call_ensures(RepoId::parse, (s,), parsed),
    ensures
        parsed matches Ok(id) ==> names_repo(s@, id@),
        parsed is Ok <==> exists|id: Seq<u8>| names_repo(s@, id),
        parsed matches Err(e) ==> {
            &&& e is RepoIdTooLong <==> byte_len(uppercase(s@)) > usize::MAX / 8
            &&& e is RepoIdNotBase32 ==> forall|bytes: Seq<u8>| #[trigger] base32_text(bytes) != uppercase(s@)
            &&& e is RepoIdLength ==> exists|bytes: Seq<u8>|
                #[trigger] base32_text(bytes) == uppercase(s@) && bytes.len() != 16
            &&& e is RepoIdTooLong || e is RepoIdNotBase32 || e is RepoIdLength
        },
{
    if let Ok(id) = parsed {
        repo_id_is_what_the_text_names(s@, id@);
        assert(names_repo(s@, id@));
    }
    if exists|id: Seq<u8>| names_repo(s@, id) {
        let id = choose|id: Seq<u8>| names_repo(s@, id);
        repo_id_is_what_the_text_names(s@, id);
    }
    let upper = uppercase(s@);
    if exists|bytes: Seq<u8>| #[trigger] base32_text(bytes) == upper {
        let bytes = choose|bytes: Seq<u8>| #[trigger] base32_text(bytes) == upper;
        assert(base32_bytes(upper) == Some(bytes));
    }
}

} // verus!
