//! The tiny handshake spoken over an iroh stream before git's native protocol, and the protocol by
//! which Git LFS objects travel.
//!
//! The remote helper opens a bidirectional stream, sends a [`Request`], and reads a [`Response`].
//! On [`Response::Accept`] both sides fall through to relaying raw git pack-protocol bytes.
//!
//! LFS runs over its own ALPN, one object per bidirectional stream. Download: the client sends an
//! [`LfsRequest`]; the daemon replies [`LfsResponse::Proceed`] and streams the object, or
//! [`LfsResponse::Error`]. Upload: the client sends an [`LfsRequest`]; the daemon replies
//! [`LfsResponse::Have`] (skip the body), [`LfsResponse::Error`], or [`LfsResponse::Proceed`] (send
//! the body); after the body it replies a final [`LfsResponse::Proceed`] (stored) or
//! [`LfsResponse::Error`] (mismatch).
//!
//! A message travels in a frame: its length in four bytes, the lowest first, then its bytes.

use crate::error::Failure;
use crate::text::byte_len;
use crate::wire::{
    decode_lfs_request_record, decode_request_record, decode_tag, decode_text,
    encode_lfs_request_record, encode_request_record, encode_tag, encode_tagged_text,
    lfs_request_record, lfs_request_record_refusal, lfs_request_record_roundtrip,
    read_lfs_request_record, read_request_record, read_text, read_u32, request_record,
    request_record_refusal, request_record_roundtrip, tag_refusal, text_bytes, text_refusal,
    text_roundtrip, u32_roundtrip, u64_roundtrip, unknown_variant, unknown_variant_text, varint,
};
use vstd::prelude::*;

verus! {

/// ALPN advertised by the daemon and dialed by the remote helper for the git pack protocol.
pub const ALPN: &'static str = "iroh-git/0";

/// ALPN for the Git LFS sub-protocol. A client that dials it against a daemon that does not
/// advertise it fails ALPN negotiation cleanly.
pub const LFS_ALPN: &'static str = "iroh-git-lfs/0";

/// Handshake protocol version.
pub const VERSION: u8 = 0;

/// Version of the LFS sub-protocol, independent of [`VERSION`].
pub const LFS_VERSION: u8 = 0;

/// Upper bound on a framed message, to bound allocation. Object bodies stream raw and are not bound
/// by this.
pub const MAX_FRAME: u32 = 65536;

/// Which git service the caller wants.
#[derive(Clone, Copy, Debug, PartialEq, Eq, Structural)]
pub enum Service {
    /// Fetch / clone - served by `git upload-pack`.
    UploadPack,
    /// Push - served by `git receive-pack`.
    ReceivePack,
}

impl Service {
    /// The number of the service in a request.
    pub open spec fn tag(self) -> nat {
        match self {
            Service::UploadPack => 0,
            Service::ReceivePack => 1,
        }
    }

    /// The service with a given number.
    pub open spec fn of_tag(tag: nat) -> Option<Service> {
        if tag == 0 {
            Some(Service::UploadPack)
        } else if tag == 1 {
            Some(Service::ReceivePack)
        } else {
            None
        }
    }

    /// The git plumbing subcommand that serves this request.
    pub open spec fn subcommand(self) -> Seq<char> {
        match self {
            Service::UploadPack => "upload-pack"@,
            Service::ReceivePack => "receive-pack"@,
        }
    }

    /// The git plumbing subcommand that serves this request.
    pub fn git_subcommand(self) -> (r: &'static str)
        ensures
            r@ == self.subcommand(),
    {
        match self {
            Service::UploadPack => "upload-pack",
            Service::ReceivePack => "receive-pack",
        }
    }

    /// The service that a `connect <service>` argument asks for: `git-` and its subcommand.
    pub open spec fn of_connect_arg(arg: Seq<char>) -> Option<Service> {
        if arg == "git-upload-pack"@ {
            Some(Service::UploadPack)
        } else if arg == "git-receive-pack"@ {
            Some(Service::ReceivePack)
        } else {
            None
        }
    }

    /// Map a remote-helper `connect <service>` argument to a [`Service`].
    pub fn from_connect_arg(arg: &str) -> (r: Option<Service>)
        ensures
            r == Service::of_connect_arg(arg@),
    {
        if arg.eq("git-upload-pack") {
            Some(Service::UploadPack)
        } else if arg.eq("git-receive-pack") {
            Some(Service::ReceivePack)
        } else {
            None
        }
    }
}

/// The argument that asks for a service is `git-` followed by its subcommand.
pub proof fn connect_arg_names_subcommand(service: Service)
    ensures
        Service::of_connect_arg("git-"@ + service.subcommand()) == Some(service),
{
    reveal_strlit("git-");
    reveal_strlit("upload-pack");
    reveal_strlit("receive-pack");
    reveal_strlit("git-upload-pack");
    reveal_strlit("git-receive-pack");
    match service {
        Service::UploadPack => {
            assert("git-"@ + "upload-pack"@ =~= "git-upload-pack"@);
        },
        Service::ReceivePack => {
            assert("git-"@ + "receive-pack"@ =~= "git-receive-pack"@);
            assert("git-receive-pack"@.len() != "git-upload-pack"@.len());
        },
    }
}

/// Sent by the helper to open a session.
#[derive(Clone, Copy, Debug, PartialEq, Eq)]
pub struct Request {
    pub version: u8,
    pub repo_id: [u8; 16],
    pub service: Service,
}

/// What a request says.
#[verifier::ext_equal]
pub struct RequestView {
    pub version: u8,
    pub repo_id: Seq<u8>,
    pub service: Service,
}

impl View for Request {
    type V = RequestView;

    open spec fn view(&self) -> RequestView {
        RequestView { version: self.version, repo_id: self.repo_id@, service: self.service }
    }
}

/// The bytes of a request.
pub open spec fn request_bytes(q: RequestView) -> Seq<u8> {
    request_record(q.version, q.repo_id, q.service.tag())
}

/// The request that the bytes begin with.
pub open spec fn read_request(b: Seq<u8>) -> Option<RequestView> {
    match read_request_record(b) {
        Some((version, repo_id, tag)) => match Service::of_tag(tag) {
            Some(service) => Some(RequestView { version, repo_id, service }),
            None => None,
        },
        None => None,
    }
}

/// The failure says why no request begins the bytes: there is no record, or it names no service.
pub open spec fn refuses_request(e: Failure, b: Seq<u8>) -> bool {
    e matches Failure::MessageLayout { cause } && cause@ == match read_request_record(b) {
        Some(_) => unknown_variant(),
        None => request_record_refusal(b),
    }
}

impl Request {
    pub fn to_bytes(&self) -> (r: Vec<u8>)
        ensures
            r@ == request_bytes(self@),
    {
        let tag: u32 = match self.service {
            Service::UploadPack => 0,
            Service::ReceivePack => 1,
        };
        encode_request_record(self.version, &self.repo_id, tag)
    }

    /// Read a request from the contents of a frame.
    pub fn from_bytes(bytes: &[u8]) -> (r: Result<Request, Failure>)
        ensures
            match r {
                Ok(q) => read_request(bytes@) == Some(q@),
                Err(e) => read_request(bytes@) is None && refuses_request(e, bytes@),
            },
    {
        match decode_request_record(bytes) {
            Ok((version, repo_id, 0)) => Ok(
                Request { version, repo_id, service: Service::UploadPack },
            ),
            Ok((version, repo_id, 1)) => Ok(
                Request { version, repo_id, service: Service::ReceivePack },
            ),
            Ok(_) => Err(Failure::MessageLayout { cause: unknown_variant_text() }),
            Err(cause) => Err(Failure::MessageLayout { cause }),
        }
    }
}

/// The daemon reads the request that the helper wrote.
pub proof fn request_roundtrip(q: RequestView)
    requires
        q.repo_id.len() == 16,
    ensures
        read_request(request_bytes(q)) == Some(q),
{
    request_record_roundtrip(q.version, q.repo_id, q.service.tag());
}

/// The daemon's verdict on a [`Request`].
#[derive(Debug, PartialEq, Eq)]
pub enum Response {
    Accept,
    Error(String),
}

/// What a response says.
pub enum ResponseView {
    Accept,
    Error(Seq<char>),
}

impl View for Response {
    type V = ResponseView;

    open spec fn view(&self) -> ResponseView {
        match self {
            Response::Accept => ResponseView::Accept,
            Response::Error(m) => ResponseView::Error(m@),
        }
    }
}

/// The bytes of a response.
pub open spec fn response_bytes(a: ResponseView) -> Seq<u8> {
    match a {
        ResponseView::Accept => varint(0),
        ResponseView::Error(m) => varint(1) + text_bytes(m),
    }
}

/// The response that the bytes begin with.
pub open spec fn read_response(b: Seq<u8>) -> Option<ResponseView> {
    match read_u32(b) {
        Some((tag, rest)) => if tag == 0 {
            Some(ResponseView::Accept)
        } else if tag == 1 {
            match read_text(rest) {
                Some((m, _)) => Some(ResponseView::Error(m)),
                None => None,
            }
        } else {
            None
        },
        None => None,
    }
}

/// The failure says why no response begins the bytes: there is no number of a variant, or an unknown
/// one, or no text where one belongs.
pub open spec fn refuses_response(e: Failure, b: Seq<u8>) -> bool {
    e matches Failure::MessageLayout { cause } && cause@ == match read_u32(b) {
        Some((tag, rest)) => if tag == 1 {
            text_refusal(rest)
        } else {
            unknown_variant()
        },
        None => tag_refusal(b),
    }
}

impl Response {
    pub fn to_bytes(&self) -> (r: Vec<u8>)
        ensures
            r@ == response_bytes(self@),
    {
        match self {
            Response::Accept => encode_tag(0),
            Response::Error(m) => encode_tagged_text(1, m.as_str()),
        }
    }

    /// Read a response from the contents of a frame.
    pub fn from_bytes(bytes: &[u8]) -> (r: Result<Response, Failure>)
        ensures
            match r {
                Ok(a) => read_response(bytes@) == Some(a@),
                Err(e) => read_response(bytes@) is None && refuses_response(e, bytes@),
            },
    {
        match decode_tag(bytes) {
            Ok((0, _)) => Ok(Response::Accept),
            Ok((1, rest)) => match decode_text(rest) {
                Ok(m) => Ok(Response::Error(m)),
                Err(cause) => Err(Failure::MessageLayout { cause }),
            },
            Ok(_) => Err(Failure::MessageLayout { cause: unknown_variant_text() }),
            Err(cause) => Err(Failure::MessageLayout { cause }),
        }
    }
}

/// The helper reads the response that the daemon wrote.
pub proof fn response_roundtrip(a: ResponseView)
    requires
        a matches ResponseView::Error(m) ==> byte_len(m) <= usize::MAX,
    ensures
        read_response(response_bytes(a)) == Some(a),
{
    match a {
        ResponseView::Accept => {
            u32_roundtrip(0, Seq::empty());
            assert(varint(0) + Seq::<u8>::empty() =~= varint(0));
        },
        ResponseView::Error(m) => {
            u32_roundtrip(1, text_bytes(m));
            text_roundtrip(m, Seq::empty());
            assert(text_bytes(m) + Seq::<u8>::empty() =~= text_bytes(m));
        },
    }
}

/// Which LFS transfer the client wants on this stream.
#[derive(Clone, Copy, Debug, PartialEq, Eq, Structural)]
pub enum LfsOp {
    /// Fetch one object from the daemon's store.
    Download,
    /// Store one object into the daemon's store (requires push access).
    Upload,
}

impl LfsOp {
    /// The number of the operation in a request.
    pub open spec fn tag(self) -> nat {
        match self {
            LfsOp::Download => 0,
            LfsOp::Upload => 1,
        }
    }

    /// The operation with a given number.
    pub open spec fn of_tag(tag: nat) -> Option<LfsOp> {
        if tag == 0 {
            Some(LfsOp::Download)
        } else if tag == 1 {
            Some(LfsOp::Upload)
        } else {
            None
        }
    }
}

/// Opens an LFS transfer for a single content-addressed object.
#[derive(Clone, Debug, PartialEq, Eq)]
pub struct LfsRequest {
    pub version: u8,
    pub repo_id: [u8; 16],
    pub op: LfsOp,
    /// Bare 64-hex sha256 oid (no `sha256:` prefix).
    pub oid: String,
    /// Object size in bytes. Authoritative for uploads; ignored for downloads.
    pub size: u64,
}

/// What an LFS request says.
#[verifier::ext_equal]
pub struct LfsRequestView {
    pub version: u8,
    pub repo_id: Seq<u8>,
    pub op: LfsOp,
    pub oid: Seq<char>,
    pub size: nat,
}

impl View for LfsRequest {
    type V = LfsRequestView;

    open spec fn view(&self) -> LfsRequestView {
        LfsRequestView {
            version: self.version,
            repo_id: self.repo_id@,
            op: self.op,
            oid: self.oid@,
            size: self.size as nat,
        }
    }
}

/// The bytes of an LFS request.
pub open spec fn lfs_request_bytes(q: LfsRequestView) -> Seq<u8> {
    lfs_request_record(q.version, q.repo_id, q.op.tag(), q.oid, q.size)
}

/// The LFS request that the bytes begin with.
pub open spec fn read_lfs_request(b: Seq<u8>) -> Option<LfsRequestView> {
    match read_lfs_request_record(b) {
        Some((version, repo_id, tag, oid, size)) => match LfsOp::of_tag(tag) {
            Some(op) => Some(LfsRequestView { version, repo_id, op, oid, size }),
            None => None,
        },
        None => None,
    }
}

/// The failure says why no LFS request begins the bytes: its first three fields, which are laid out as
/// in a pack request, are not there, or they name no operation, or the others are not there.
pub open spec fn refuses_lfs_request(e: Failure, b: Seq<u8>) -> bool {
    e matches Failure::MessageLayout { cause } && cause@ == match read_request_record(b) {
        Some((_, _, tag)) => if LfsOp::of_tag(tag) is Some {
            lfs_request_record_refusal(b)
        } else {
            unknown_variant()
        },
        None => request_record_refusal(b),
    }
}

impl LfsRequest {
    pub fn to_bytes(&self) -> (r: Vec<u8>)
        ensures
            r@ == lfs_request_bytes(self@),
    {
        let tag: u32 = match self.op {
            LfsOp::Download => 0,
            LfsOp::Upload => 1,
        };
        encode_lfs_request_record(self.version, &self.repo_id, tag, self.oid.as_str(), self.size)
    }

    /// Read an LFS request from the contents of a frame.
    pub fn from_bytes(bytes: &[u8]) -> (r: Result<LfsRequest, Failure>)
        ensures
            match r {
                Ok(q) => read_lfs_request(bytes@) == Some(q@),
                Err(e) => read_lfs_request(bytes@) is None && refuses_lfs_request(e, bytes@),
            },
    {
        let op: LfsOp = match decode_request_record(bytes) {
            Ok((_, _, 0)) => LfsOp::Download,
            Ok((_, _, 1)) => LfsOp::Upload,
            Ok(_) => {
                return Err(Failure::MessageLayout { cause: unknown_variant_text() });
            },
            Err(cause) => {
                return Err(Failure::MessageLayout { cause });
            },
        };
        match decode_lfs_request_record(bytes) {
            Ok((version, repo_id, _, oid, size)) => Ok(LfsRequest { version, repo_id, op, oid, size }),
            Err(cause) => Err(Failure::MessageLayout { cause }),
        }
    }
}

/// The daemon reads the LFS request that the client wrote.
pub proof fn lfs_request_roundtrip(q: LfsRequestView)
    requires
        q.repo_id.len() == 16,
        byte_len(q.oid) <= usize::MAX,
        q.size <= u64::MAX,
    ensures
        read_lfs_request(lfs_request_bytes(q)) == Some(q),
{
    lfs_request_record_roundtrip(q.version, q.repo_id, q.op.tag(), q.oid, q.size);
}

/// The daemon's reply within an LFS transfer. The meaning of [`Self::Proceed`] depends on the phase
/// (see the module's protocol notes).
#[derive(Debug, PartialEq, Eq)]
pub enum LfsResponse {
    /// Download: bytes follow. Upload phase 1: send the body. Upload phase 2: stored.
    Proceed,
    /// Upload only: the object is already present; skip sending the body.
    Have,
    /// The transfer was refused or failed (unauthorized, missing, or mismatch).
    Error(String),
}

/// What an LFS response says.
pub enum LfsResponseView {
    Proceed,
    Have,
    Error(Seq<char>),
}

impl View for LfsResponse {
    type V = LfsResponseView;

    open spec fn view(&self) -> LfsResponseView {
        match self {
            LfsResponse::Proceed => LfsResponseView::Proceed,
            LfsResponse::Have => LfsResponseView::Have,
            LfsResponse::Error(m) => LfsResponseView::Error(m@),
        }
    }
}

/// The bytes of an LFS response.
pub open spec fn lfs_response_bytes(a: LfsResponseView) -> Seq<u8> {
    match a {
        LfsResponseView::Proceed => varint(0),
        LfsResponseView::Have => varint(1),
        LfsResponseView::Error(m) => varint(2) + text_bytes(m),
    }
}

/// The LFS response that the bytes begin with.
pub open spec fn read_lfs_response(b: Seq<u8>) -> Option<LfsResponseView> {
    match read_u32(b) {
        Some((tag, rest)) => if tag == 0 {
            Some(LfsResponseView::Proceed)
        } else if tag == 1 {
            Some(LfsResponseView::Have)
        } else if tag == 2 {
            match read_text(rest) {
                Some((m, _)) => Some(LfsResponseView::Error(m)),
                None => None,
            }
        } else {
            None
        },
        None => None,
    }
}

/// The failure says why no LFS response begins the bytes: there is no number of a variant, or an
/// unknown one, or no text where one belongs.
pub open spec fn refuses_lfs_response(e: Failure, b: Seq<u8>) -> bool {
    e matches Failure::MessageLayout { cause } && cause@ == match read_u32(b) {
        Some((tag, rest)) => if tag == 2 {
            text_refusal(rest)
        } else {
            unknown_variant()
        },
        None => tag_refusal(b),
    }
}

impl LfsResponse {
    pub fn to_bytes(&self) -> (r: Vec<u8>)
        ensures
            r@ == lfs_response_bytes(self@),
    {
        match self {
            LfsResponse::Proceed => encode_tag(0),
            LfsResponse::Have => encode_tag(1),
            LfsResponse::Error(m) => encode_tagged_text(2, m.as_str()),
        }
    }

    /// Read an LFS response from the contents of a frame.
    pub fn from_bytes(bytes: &[u8]) -> (r: Result<LfsResponse, Failure>)
        ensures
            match r {
                Ok(a) => read_lfs_response(bytes@) == Some(a@),
                Err(e) => read_lfs_response(bytes@) is None && refuses_lfs_response(e, bytes@),
            },
    {
        match decode_tag(bytes) {
            Ok((0, _)) => Ok(LfsResponse::Proceed),
            Ok((1, _)) => Ok(LfsResponse::Have),
            Ok((2, rest)) => match decode_text(rest) {
                Ok(m) => Ok(LfsResponse::Error(m)),
                Err(cause) => Err(Failure::MessageLayout { cause }),
            },
            Ok(_) => Err(Failure::MessageLayout { cause: unknown_variant_text() }),
            Err(cause) => Err(Failure::MessageLayout { cause }),
        }
    }
}

/// The client reads the LFS response that the daemon wrote.
pub proof fn lfs_response_roundtrip(a: LfsResponseView)
    requires
        a matches LfsResponseView::Error(m) ==> byte_len(m) <= usize::MAX,
    ensures
        read_lfs_response(lfs_response_bytes(a)) == Some(a),
{
    match a {
        LfsResponseView::Proceed => {
            u32_roundtrip(0, Seq::empty());
            assert(varint(0) + Seq::<u8>::empty() =~= varint(0));
        },
        LfsResponseView::Have => {
            u32_roundtrip(1, Seq::empty());
            assert(varint(1) + Seq::<u8>::empty() =~= varint(1));
        },
        LfsResponseView::Error(m) => {
            u32_roundtrip(2, text_bytes(m));
            text_roundtrip(m, Seq::empty());
            assert(text_bytes(m) + Seq::<u8>::empty() =~= text_bytes(m));
        },
    }
}

/// A number in four bytes, the lowest first.
pub open spec fn le_bytes(n: nat) -> Seq<u8> {
    seq![
        (n % 256) as u8,
        (n / 256 % 256) as u8,
        (n / 65536 % 256) as u8,
        (n / 16777216 % 256) as u8,
    ]
}

/// The number in four bytes, the lowest first.
pub open spec fn le_number(b: Seq<u8>) -> nat {
    (b[0] + 256 * b[1] + 65536 * b[2] + 16777216 * b[3]) as nat
}

/// What the error of `TryFrom` from `usize` to `u32` says of a number that does not fit.
pub uninterp spec fn length_refusal(len: nat) -> Seq<char>;

/// `TryFrom<usize>` for `u32` of the standard library: the number where it fits, or else the text of
/// the error, which is named, not described.
#[verifier::external_body]
fn short_length(len: usize) -> (r: Result<u32, String>)
    ensures
        match r {
            Ok(n) => n == len,
            Err(cause) => len > u32::MAX && cause@ == length_refusal(len as nat),
        },
{
    match u32::try_from(len) {
        Ok(n) => Ok(n),
        Err(e) => Err(e.to_string()),
    }
}

/// Frame a message: its length, then its bytes.
pub fn frame(message: &Vec<u8>) -> (r: Result<Vec<u8>, Failure>)
    ensures
        match r {
            Ok(f) => message@.len() <= u32::MAX && f@ == le_bytes(message@.len()) + message@,
            Err(e) => message@.len() > u32::MAX && (e matches Failure::MessageTooLarge { cause } && cause@
                == length_refusal(message@.len())),
        },
{
    let len: u32 = match short_length(message.len()) {
        Ok(n) => n,
        Err(cause) => {
            return Err(Failure::MessageTooLarge { cause });
        },
    };
    let mut f: Vec<u8> = Vec::new();
    f.push((len % 256) as u8);
    f.push((len / 256 % 256) as u8);
    f.push((len / 65536 % 256) as u8);
    f.push((len / 16777216 % 256) as u8);
    assert(f@ =~= le_bytes(message@.len()));
    f.extend_from_slice(message.as_slice());
    assert(f@ =~= le_bytes(message@.len()) + message@);
    Ok(f)
}

/// How many bytes follow the four that begin a frame. A frame over the limit is refused.
pub fn frame_len(header: [u8; 4]) -> (r: Result<u32, Failure>)
    ensures
        match r {
            Ok(n) => n == le_number(header@) && n <= MAX_FRAME,
            Err(e) => le_number(header@) > MAX_FRAME && e == (Failure::FrameTooLong {
                len: le_number(header@) as u64,
            }),
        },
{
    let n: u32 = header[0] as u32 + 256 * header[1] as u32 + 65536 * header[2] as u32
        + 16777216 * header[3] as u32;
    if n > MAX_FRAME {
        return Err(Failure::FrameTooLong { len: n as u64 });
    }
    Ok(n)
}

/// The beginning of a frame announces exactly the bytes that follow.
pub proof fn frame_roundtrip(message: Seq<u8>)
    requires
        message.len() <= u32::MAX,
    ensures
        le_number((le_bytes(message.len()) + message).take(4)) == message.len(),
        (le_bytes(message.len()) + message).skip(4) == message,
{
    let n = message.len();
    let f = le_bytes(n) + message;
    assert(f.take(4) =~= le_bytes(n));
    assert(f.skip(4) =~= message);
    assert(n == n % 256 + 256 * (n / 256 % 256) + 65536 * (n / 65536 % 256) + 16777216 * (n / 16777216
        % 256));
}

/// A framed request arrives: the frame is within the limit, and the daemon reads the request that the
/// helper wrote.
pub proof fn framed_requests_arrive(q: RequestView)
    requires
        q.repo_id.len() == 16,
    ensures
        ({
            let bytes = request_bytes(q);
            let framed = le_bytes(bytes.len()) + bytes;
            &&& le_number(framed.take(4)) == bytes.len() <= MAX_FRAME
            &&& read_request(framed.skip(4)) == Some(q)
        }),
{
    let bytes = request_bytes(q);
    assert(bytes.len() == 18);
    frame_roundtrip(bytes);
    request_roundtrip(q);
}

/// A framed LFS request that is within the limit arrives: the daemon reads the request that the client
/// wrote.
pub proof fn framed_lfs_requests_arrive(q: LfsRequestView)
    requires
        q.repo_id.len() == 16,
        q.size <= u64::MAX,
        lfs_request_bytes(q).len() <= MAX_FRAME,
    ensures
        ({
            let bytes = lfs_request_bytes(q);
            let framed = le_bytes(bytes.len()) + bytes;
            &&& le_number(framed.take(4)) == bytes.len()
            &&& read_lfs_request(framed.skip(4)) == Some(q)
        }),
{
    frame_roundtrip(lfs_request_bytes(q));
    lfs_request_roundtrip(q);
}

/// A request is eighteen bytes: the version, the repository id, and 0 to fetch or 1 to push. An LFS
/// request begins alike, with 0 to download or 1 to upload, and goes on with the object id and the size.
pub proof fn requests_are_laid_out_byte_by_byte(q: RequestView, l: LfsRequestView)
    requires
        q.repo_id.len() == 16,
        l.repo_id.len() == 16,
    ensures
        request_bytes(q) == seq![q.version] + q.repo_id + seq![
            if q.service == Service::ReceivePack {
                1u8
            } else {
                0u8
            },
        ],
        lfs_request_bytes(l) == seq![l.version] + l.repo_id + seq![
            if l.op == LfsOp::Upload {
                1u8
            } else {
                0u8
            },
        ] + text_bytes(l.oid) + varint(l.size),
{
}

/// Acceptance is the byte 0, and a refusal the byte 1 and its reason; of an LFS transfer, to proceed is
/// the byte 0, to have the object already is 1, and a refusal is 2 and its reason.
pub proof fn responses_are_laid_out_byte_by_byte(m: Seq<char>)
    ensures
        response_bytes(ResponseView::Accept) == seq![0u8],
        response_bytes(ResponseView::Error(m)) == seq![1u8] + text_bytes(m),
        lfs_response_bytes(LfsResponseView::Proceed) == seq![0u8],
        lfs_response_bytes(LfsResponseView::Have) == seq![1u8],
        lfs_response_bytes(LfsResponseView::Error(m)) == seq![2u8] + text_bytes(m),
{
}

/// Reading a request stops where it ends: what follows it is not looked at.
pub proof fn readers_of_requests_take_no_more(q: RequestView, l: LfsRequestView, rest: Seq<u8>)
    requires
        q.repo_id.len() == 16,
        l.repo_id.len() == 16,
        byte_len(l.oid) <= usize::MAX,
        l.size <= u64::MAX,
    ensures
        read_request(request_bytes(q) + rest) == Some(q),
        read_lfs_request(lfs_request_bytes(l) + rest) == Some(l),
{
    let r = request_bytes(q) + rest;
    assert(r.take(17).skip(1) =~= q.repo_id);
    assert(r.take(17)[0] == q.version);
    assert(r.skip(17) =~= varint(q.service.tag()) + rest);
    u32_roundtrip(q.service.tag(), rest);
    let f = lfs_request_bytes(l) + rest;
    let tail = varint(l.size) + rest;
    assert(f.take(17).skip(1) =~= l.repo_id);
    assert(f.take(17)[0] == l.version);
    assert(f.skip(17) =~= varint(l.op.tag()) + (text_bytes(l.oid) + tail));
    u32_roundtrip(l.op.tag(), text_bytes(l.oid) + tail);
    text_roundtrip(l.oid, tail);
    u64_roundtrip(l.size, rest);
}

/// Reading a response stops where it ends: what follows it is not looked at.
pub proof fn readers_of_responses_take_no_more(a: ResponseView, b: LfsResponseView, rest: Seq<u8>)
    requires
        a matches ResponseView::Error(m) ==> byte_len(m) <= usize::MAX,
        b matches LfsResponseView::Error(m) ==> byte_len(m) <= usize::MAX,
    ensures
        read_response(response_bytes(a) + rest) == Some(a),
        read_lfs_response(lfs_response_bytes(b) + rest) == Some(b),
{
    match a {
        ResponseView::Accept => {
            u32_roundtrip(0, rest);
        },
        ResponseView::Error(m) => {
            assert(response_bytes(a) + rest =~= varint(1) + (text_bytes(m) + rest));
            u32_roundtrip(1, text_bytes(m) + rest);
            text_roundtrip(m, rest);
        },
    }
    match b {
        LfsResponseView::Proceed => {
            u32_roundtrip(0, rest);
        },
        LfsResponseView::Have => {
            u32_roundtrip(1, rest);
        },
        LfsResponseView::Error(m) => {
            assert(lfs_response_bytes(b) + rest =~= varint(2) + (text_bytes(m) + rest));
            u32_roundtrip(2, text_bytes(m) + rest);
            text_roundtrip(m, rest);
        },
    }
}

/// A number that stands for no service, operation or answer is not read as one.
pub proof fn unknown_numbers_are_not_read(version: u8, repo_id: Seq<u8>, n: u8, rest: Seq<u8>)
    requires
        repo_id.len() == 16,
        1 < n < 128,
    ensures
        read_request(seq![version] + repo_id + seq![n] + rest) is None,
        read_lfs_request(seq![version] + repo_id + seq![n] + rest) is None,
        read_response(seq![n] + rest) is None,
        n > 2 ==> read_lfs_response(seq![n] + rest) is None,
{
    u32_roundtrip(n as nat, rest);
    assert(varint(n as nat) =~= seq![n]);
    let bad = seq![version] + repo_id + seq![n] + rest;
    assert(bad.skip(17) =~= seq![n] + rest);
}

/// A frame carries the message behind four bytes, the lowest first, from which the reader learns its
/// length; it is taken exactly if it has at most 65536 bytes.
pub proof fn frames_announce_their_message(
    message: &Vec<u8>,
    framed: Vec<u8>,
    header: [u8; 4],
    len: Result<u32, Failure>,
)
    requires
        call_ensures(frame, (message,), Ok::<Vec<u8>, Failure>(framed)),
        call_ensures(frame_len, (header,), len),
        header@ == framed@.take(4),
    ensures
        framed@.len() == message@.len() + 4,
        framed@.skip(4) == message@,
        len is Ok <==> message@.len() <= 65536,
        len matches Ok(n) ==> n == message@.len(),
        header@[0] == message@.len() % 256,
        header@[1] == message@.len() / 256 % 256,
        header@[2] == message@.len() / 65536 % 256,
{
    frame_roundtrip(message@);
    assert(framed@.take(4) =~= le_bytes(message@.len()));
}

/// The only arguments that ask for a service are `git-upload-pack` and `git-receive-pack`: `git-` and the
/// subcommand that serves it.
pub proof fn only_two_services_can_be_asked_for(arg: Seq<char>)
    ensures
        Service::of_connect_arg(arg) matches Some(service) ==> arg == "git-"@ + service.subcommand(),
        Service::UploadPack.subcommand() == "upload-pack"@,
        Service::ReceivePack.subcommand() == "receive-pack"@,
{
    reveal_strlit("git-");
    reveal_strlit("upload-pack");
    reveal_strlit("receive-pack");
    reveal_strlit("git-upload-pack");
    reveal_strlit("git-receive-pack");
    assert("git-"@ + "upload-pack"@ =~= "git-upload-pack"@);
    assert("git-"@ + "receive-pack"@ =~= "git-receive-pack"@);
}

} // verus!
