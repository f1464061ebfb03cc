//! The byte layout of tickets and handshake messages (postcard's), and reading it back.
//!
//! Numbers are little-endian groups of seven bits, a text is its length followed by its UTF-8, a
//! choice is the number of its variant, and a record is its fields one after the other.

use crate::text::{byte_len, option_view};
use vstd::prelude::*;
use vstd::utf8::{
    decode_utf8, encode_utf8, encode_utf8_decode_utf8, encode_utf8_valid_utf8, valid_utf8,
};

verus! {

/// `n` in groups of seven bits, the lowest first; every group but the last has its top bit set.
pub open spec fn varint(n: nat) -> Seq<u8>
    decreases n,
{
    if n < 128 {
        seq![n as u8]
    } else {
        seq![(128 + n % 128) as u8] + varint(n / 128)
    }
}

/// The number at the front of `b` and what follows it. At most `room` groups are read, and the last
/// of that many may not exceed `top`.
pub open spec fn read_varint(b: Seq<u8>, room: nat, top: nat) -> Option<(nat, Seq<u8>)>
    decreases room,
{
    if room == 0 || b.len() == 0 {
        None
    } else if b[0] < 128 {
        if room == 1 && b[0] > top {
            None
        } else {
            Some((b[0] as nat, b.skip(1)))
        }
    } else {
        match read_varint(b.skip(1), (room - 1) as nat, top) {
            Some((n, rest)) => Some(((b[0] - 128 + 128 * n) as nat, rest)),
            None => None,
        }
    }
}

/// A number of at most 32 bits at the front of `b`.
pub open spec fn read_u32(b: Seq<u8>) -> Option<(nat, Seq<u8>)> {
    read_varint(b, 5, 15)
}

/// A number of at most 64 bits at the front of `b`.
pub open spec fn read_u64(b: Seq<u8>) -> Option<(nat, Seq<u8>)> {
    read_varint(b, 10, 1)
}

/// A length at the front of `b`, as wide as the machine's `usize`.
pub open spec fn read_len(b: Seq<u8>) -> Option<(nat, Seq<u8>)> {
    if usize::BITS == 32 {
        read_u32(b)
    } else {
        read_u64(b)
    }
}

/// `n` bytes at the front of `b`.
pub open spec fn read_bytes(b: Seq<u8>, n: nat) -> Option<(Seq<u8>, Seq<u8>)> {
    if n <= b.len() {
        Some((b.take(n as int), b.skip(n as int)))
    } else {
        None
    }
}

/// A text: its length in bytes, then its UTF-8.
pub open spec fn text_bytes(s: Seq<char>) -> Seq<u8> {
    varint(byte_len(s)) + encode_utf8(s)
}

/// A text at the front of `b`.
pub open spec fn read_text(b: Seq<u8>) -> Option<(Seq<char>, Seq<u8>)> {
    match read_len(b) {
        Some((n, rest)) => match read_bytes(rest, n) {
            Some((body, tail)) => if valid_utf8(body) {
                Some((decode_utf8(body), tail))
            } else {
                None
            },
            None => None,
        },
        None => None,
    }
}

/// An optional text: 0, or 1 and the text.
pub open spec fn option_text_bytes(s: Option<Seq<char>>) -> Seq<u8> {
    match s {
        None => seq![0u8],
        Some(t) => seq![1u8] + text_bytes(t),
    }
}

/// An optional text at the front of `b`.
pub open spec fn read_option_text(b: Seq<u8>) -> Option<(Option<Seq<char>>, Seq<u8>)> {
    if b.len() == 0 || b[0] > 1 {
        None
    } else if b[0] == 0 {
        Some((None, b.skip(1)))
    } else {
        match read_text(b.skip(1)) {
            Some((t, rest)) => Some((Some(t), rest)),
            None => None,
        }
    }
}

/// The record inside a ticket: the daemon's key, the relay hint, the repository id.
pub open spec fn ticket_record(node: Seq<u8>, relay: Option<Seq<char>>, repo: Seq<u8>) -> Seq<u8> {
    node + option_text_bytes(relay) + repo
}

/// The ticket record at the front of `b`.
pub open spec fn read_ticket_record(b: Seq<u8>) -> Option<(Seq<u8>, Option<Seq<char>>, Seq<u8>)> {
    match read_bytes(b, 32) {
        Some((node, b1)) => match read_option_text(b1) {
            Some((relay, b2)) => match read_bytes(b2, 16) {
                Some((repo, _)) => Some((node, relay, repo)),
                None => None,
            },
            None => None,
        },
        None => None,
    }
}

/// The record of a pack request: version, repository id, service.
pub open spec fn request_record(version: u8, repo: Seq<u8>, service: nat) -> Seq<u8> {
    seq![version] + repo + varint(service)
}

/// The pack request record at the front of `b`.
pub open spec fn read_request_record(b: Seq<u8>) -> Option<(u8, Seq<u8>, nat)> {
    match read_bytes(b, 17) {
        Some((head, rest)) => match read_u32(rest) {
            Some((service, _)) => Some((head[0], head.skip(1), service)),
            None => None,
        },
        None => None,
    }
}

/// The record of an LFS request: version, repository id, operation, object id, size.
pub open spec fn lfs_request_record(version: u8, repo: Seq<u8>, op: nat, oid: Seq<char>, size: nat) -> Seq<u8> {
    seq![version] + repo + varint(op) + text_bytes(oid) + varint(size)
}

/// The LFS request record at the front of `b`.
pub open spec fn read_lfs_request_record(b: Seq<u8>) -> Option<(u8, Seq<u8>, nat, Seq<char>, nat)> {
    match read_bytes(b, 17) {
        Some((head, b1)) => match read_u32(b1) {
            Some((op, b2)) => match read_text(b2) {
                Some((oid, b3)) => match read_u64(b3) {
                    Some((size, _)) => Some((head[0], head.skip(1), op, oid, size)),
                    None => None,
                },
                None => None,
            },
            None => None,
        },
        None => None,
    }
}

/// `postcard::to_stdvec` of a ticket record.
#[verifier::external_body]
pub(crate) fn encode_ticket_record(node: &[u8; 32], relay: &Option<String>, repo: &[u8; 16]) -> (r: Vec<u8>)
    ensures
        r@ == ticket_record(node@, option_view(*relay), repo@),
{
    postcard::to_stdvec(&(node, relay, repo)).expect("a ticket record always encodes")
}

/// What postcard's error says of bytes that no ticket record begins.
pub uninterp spec fn ticket_record_refusal(bytes: Seq<u8>) -> Seq<char>;

/// `postcard::from_bytes` of a ticket record; what follows the record is ignored. Where there is no
/// record it gives the text of the error, which is named, not described.
#[verifier::external_body]
pub(crate) fn decode_ticket_record(bytes: &[u8]) -> (r: Result<([u8; 32], Option<String>, [u8; 16]), String>)
    ensures
        match r {
            Ok((node, relay, repo)) => read_ticket_record(bytes@) == Some(
                (node@, option_view(relay), repo@),
            ),
            Err(cause) => read_ticket_record(bytes@) is None && cause@ == ticket_record_refusal(bytes@),
        },
{
    match postcard::from_bytes(bytes) {
        Ok(record) => Ok(record),
        Err(e) => Err(e.to_string()),
    }
}

/// `postcard::to_stdvec` of a pack request record.
#[verifier::external_body]
pub(crate) fn encode_request_record(version: u8, repo: &[u8; 16], service: u32) -> (r: Vec<u8>)
    ensures
        r@ == request_record(version, repo@, service as nat),
{
    postcard::to_stdvec(&(version, repo, service)).expect("a request record always encodes")
}

/// What postcard's error says of bytes that no pack request record begins.
pub uninterp spec fn request_record_refusal(bytes: Seq<u8>) -> Seq<char>;

/// `postcard::from_bytes` of a pack request record; what follows the record is ignored. Where there
/// is no record it gives the text of the error, which is named, not described.
#[verifier::external_body]
pub(crate) fn decode_request_record(bytes: &[u8]) -> (r: Result<(u8, [u8; 16], u32), String>)
    ensures
        match r {
            Ok((version, repo, service)) => read_request_record(bytes@) == Some(
                (version, repo@, service as nat),
            ),
            Err(cause) => read_request_record(bytes@) is None && cause@ == request_record_refusal(bytes@),
        },
{
    match postcard::from_bytes(bytes) {
        Ok(record) => Ok(record),
        Err(e) => Err(e.to_string()),
    }
}

/// `postcard::to_stdvec` of an LFS request record.
#[verifier::external_body]
pub(crate) fn encode_lfs_request_record(version: u8, repo: &[u8; 16], op: u32, oid: &str, size: u64) -> (r: Vec<u8>)
    ensures
        r@ == lfs_request_record(version, repo@, op as nat, oid@, size as nat),
{
    postcard::to_stdvec(&(version, repo, op, oid, size)).expect("a request record always encodes")
}

/// What postcard's error says of bytes that no LFS request record begins.
pub uninterp spec fn lfs_request_record_refusal(bytes: Seq<u8>) -> Seq<char>;

/// `postcard::from_bytes` of an LFS request record; what follows the record is ignored. Where there
/// is no record it gives the text of the error, which is named, not described.
#[verifier::external_body]
pub(crate) fn decode_lfs_request_record(bytes: &[u8]) -> (r: Result<(u8, [u8; 16], u32, String, u64), String>)
    ensures
        match r {
            Ok((version, repo, op, oid, size)) => read_lfs_request_record(bytes@) == Some(
                (version, repo@, op as nat, oid@, size as nat),
            ),
            Err(cause) => read_lfs_request_record(bytes@) is None && cause@ == lfs_request_record_refusal(bytes@),
        },
{
    match postcard::from_bytes(bytes) {
        Ok(record) => Ok(record),
        Err(e) => Err(e.to_string()),
    }
}

/// `postcard::to_stdvec` of the number of a variant without contents.
#[verifier::external_body]
pub(crate) fn encode_tag(tag: u32) -> (r: Vec<u8>)
    ensures
        r@ == varint(tag as nat),
{
    postcard::to_stdvec(&tag).expect("a number always encodes")
}

/// `postcard::to_stdvec` of the number of a variant and the text that it holds.
#[verifier::external_body]
pub(crate) fn encode_tagged_text(tag: u32, text: &str) -> (r: Vec<u8>)
    ensures
        r@ == varint(tag as nat) + text_bytes(text@),
{
    postcard::to_stdvec(&(tag, text)).expect("a text always encodes")
}

/// What postcard's error says of bytes that no number of a variant begins.
pub uninterp spec fn tag_refusal(bytes: Seq<u8>) -> Seq<char>;

/// `postcard::take_from_bytes` of the number of a variant, with the bytes that follow it. Where there
/// is no number it gives the text of the error, which is named, not described.
#[verifier::external_body]
pub(crate) fn decode_tag<'a>(bytes: &'a [u8]) -> (r: Result<(u32, &'a [u8]), String>)
    ensures
        match r {
            Ok((tag, rest)) => read_u32(bytes@) == Some((tag as nat, rest@)),
            Err(cause) => read_u32(bytes@) is None && cause@ == tag_refusal(bytes@),
        },
{
    match postcard::take_from_bytes(bytes) {
        Ok(tag) => Ok(tag),
        Err(e) => Err(e.to_string()),
    }
}

/// What postcard's error says of bytes that no text begins.
pub uninterp spec fn text_refusal(bytes: Seq<u8>) -> Seq<char>;

/// `postcard::from_bytes` of a text; what follows the text is ignored. Where there is no text it gives
/// the text of the error, which is named, not described.
#[verifier::external_body]
pub(crate) fn decode_text(bytes: &[u8]) -> (r: Result<String, String>)
    ensures
        match r {
            Ok(t) => read_text(bytes@) matches Some((text, _)) && text == t@,
            Err(cause) => read_text(bytes@) is None && cause@ == text_refusal(bytes@),
        },
{
    match postcard::from_bytes(bytes) {
        Ok(t) => Ok(t),
        Err(e) => Err(e.to_string()),
    }
}

/// What postcard says of the number of a variant that there is not.
pub open spec fn unknown_variant() -> Seq<char> {
    "Serde Deserialization Error"@
}

/// `postcard::Error::SerdeDeCustom`'s `Display`: the message of the error that postcard makes of one
/// that comes from the type being read, such as the number of a variant that there is not.
#[verifier::external_body]
pub(crate) fn unknown_variant_text() -> (r: String)
    ensures
        r@ == unknown_variant(),
{
    postcard::Error::SerdeDeCustom.to_string()
}

/// The greatest number plus one that `room` groups hold, the last at most `top`.
pub open spec fn varint_limit(room: nat, top: nat) -> nat
    decreases room,
{
    if room == 0 {
        0
    } else if room == 1 {
        top + 1
    } else {
        128 * varint_limit((room - 1) as nat, top)
    }
}

/// Reading gives back the number that was written, and leaves what follows it.
pub proof fn varint_roundtrip(n: nat, rest: Seq<u8>, room: nat, top: nat)
    requires
        n < varint_limit(room, top),
        top < 128,
    ensures
        read_varint(varint(n) + rest, room, top) == Some((n, rest)),
    decreases room,
{
    let b = varint(n) + rest;
    if n < 128 {
        assert(b[0] == n as u8);
        assert(b.skip(1) =~= rest);
        if room == 1 {
            assert(n <= top);
        }
    } else {
        assert(room > 1);
        assert(b[0] == (128 + n % 128) as u8);
        assert(b.skip(1) =~= varint(n / 128) + rest);
        assert(n / 128 < varint_limit((room - 1) as nat, top));
        varint_roundtrip(n / 128, rest, (room - 1) as nat, top);
    }
}

/// A number takes at most as many groups as its size asks for.
pub proof fn varint_is_short(n: nat, room: nat)
    requires
        room > 0,
        n < varint_limit(room, 127),
    ensures
        varint(n).len() <= room,
    decreases room,
{
    if n >= 128 {
        assert(room > 1);
        varint_is_short(n / 128, (room - 1) as nat);
    }
}

pub proof fn u32_roundtrip(n: nat, rest: Seq<u8>)
    requires
        n <= u32::MAX,
    ensures
        read_u32(varint(n) + rest) == Some((n, rest)),
{
    reveal_with_fuel(varint_limit, 6);
    varint_roundtrip(n, rest, 5, 15);
}

pub proof fn u64_roundtrip(n: nat, rest: Seq<u8>)
    requires
        n <= u64::MAX,
    ensures
        read_u64(varint(n) + rest) == Some((n, rest)),
{
    reveal_with_fuel(varint_limit, 11);
    varint_roundtrip(n, rest, 10, 1);
}

pub proof fn text_roundtrip(s: Seq<char>, rest: Seq<u8>)
    requires
        byte_len(s) <= usize::MAX,
    ensures
        read_text(text_bytes(s) + rest) == Some((s, rest)),
{
    let body = encode_utf8(s);
    assert(text_bytes(s) + rest =~= varint(byte_len(s)) + (body + rest));
    if usize::BITS == 32 {
        u32_roundtrip(byte_len(s), body + rest);
    } else {
        u64_roundtrip(byte_len(s), body + rest);
    }
    assert((body + rest).take(body.len() as int) =~= body);
    assert((body + rest).skip(body.len() as int) =~= rest);
    encode_utf8_valid_utf8(s);
    encode_utf8_decode_utf8(s);
}

pub proof fn option_text_roundtrip(s: Option<Seq<char>>, rest: Seq<u8>)
    requires
        s matches Some(t) ==> byte_len(t) <= usize::MAX,
    ensures
        read_option_text(option_text_bytes(s) + rest) == Some((s, rest)),
{
    let b = option_text_bytes(s) + rest;
    match s {
        None => {
            assert(b.skip(1) =~= rest);
        },
        Some(t) => {
            assert(b.skip(1) =~= text_bytes(t) + rest);
            text_roundtrip(t, rest);
        },
    }
}

/// Reading a ticket record gives back what was written.
pub proof fn ticket_record_roundtrip(node: Seq<u8>, relay: Option<Seq<char>>, repo: Seq<u8>)
    requires
        node.len() == 32,
        repo.len() == 16,
        relay matches Some(t) ==> byte_len(t) <= usize::MAX,
    ensures
        read_ticket_record(ticket_record(node, relay, repo)) == Some((node, relay, repo)),
{
    let b = ticket_record(node, relay, repo);
    assert(b.take(32) =~= node);
    assert(b.skip(32) =~= option_text_bytes(relay) + repo);
    option_text_roundtrip(relay, repo);
    assert(repo.take(16) =~= repo);
}

/// Reading a pack request record gives back what was written.
pub proof fn request_record_roundtrip(version: u8, repo: Seq<u8>, service: nat)
    requires
        repo.len() == 16,
        service <= u32::MAX,
    ensures
        read_request_record(request_record(version, repo, service)) == Some((version, repo, service)),
{
    let b = request_record(version, repo, service);
    assert(b.take(17).skip(1) =~= repo);
    assert(b.take(17)[0] == version);
    assert(b.skip(17) =~= varint(service) + Seq::<u8>::empty());
    u32_roundtrip(service, Seq::empty());
}

/// Reading an LFS request record gives back what was written.
pub proof fn lfs_request_record_roundtrip(version: u8, repo: Seq<u8>, op: nat, oid: Seq<char>, size: nat)
    requires
        repo.len() == 16,
        op <= u32::MAX,
        byte_len(oid) <= usize::MAX,
        size <= u64::MAX,
    ensures
        read_lfs_request_record(lfs_request_record(version, repo, op, oid, size)) == Some(
            (version, repo, op, oid, size),
        ),
{
    let b = lfs_request_record(version, repo, op, oid, size);
    let tail = varint(size) + Seq::<u8>::empty();
    assert(b.take(17).skip(1) =~= repo);
    assert(b.take(17)[0] == version);
    assert(b.skip(17) =~= varint(op) + (text_bytes(oid) + tail));
    u32_roundtrip(op, text_bytes(oid) + tail);
    text_roundtrip(oid, tail);
    u64_roundtrip(size, Seq::empty());
}

} // verus!
