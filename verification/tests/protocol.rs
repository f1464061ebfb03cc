use iroh_git::error::Failure;
use iroh_git::protocol::{
    frame, frame_len, LfsOp, LfsRequest, LfsResponse, Request, Response, Service, ALPN, LFS_ALPN,
    MAX_FRAME,
};

fn broken(why: &str) -> Failure {
    Failure::MessageLayout { cause: why.to_string() }
}

const ENDED: &str = "Hit the end of buffer, expected more data";
const NO_VARIANT: &str = "Serde Deserialization Error";
const NOT_UTF8: &str = "Tried to parse invalid utf-8";
const NO_NUMBER: &str =
    "Found a varint that didn't terminate. Is the usize too big for this platform?";

#[test]
fn services_name_git_subcommands() {
    assert_eq!(Service::UploadPack.git_subcommand(), "upload-pack");
    assert_eq!(Service::ReceivePack.git_subcommand(), "receive-pack");
    assert_eq!(Service::from_connect_arg("git-upload-pack"), Some(Service::UploadPack));
    assert_eq!(Service::from_connect_arg("git-receive-pack"), Some(Service::ReceivePack));
    assert_eq!(Service::from_connect_arg("git-upload-archive"), None);
    assert_eq!(Service::from_connect_arg(""), None);
    assert_eq!((ALPN, LFS_ALPN), ("iroh-git/0", "iroh-git-lfs/0"));
}

#[test]
fn a_request_is_eighteen_bytes() {
    let q = Request { version: 0, repo_id: [0xAB; 16], service: Service::ReceivePack };
    let mut bytes = vec![0u8];
    bytes.extend_from_slice(&[0xAB; 16]);
    bytes.push(1);
    assert_eq!(q.to_bytes(), bytes);
    assert_eq!(Request::from_bytes(&bytes), Ok(q));
    // What follows is ignored; an overlong number is read; an unknown service is not.
    bytes[17] = 0x81;
    bytes.push(0);
    bytes.push(9);
    assert_eq!(Request::from_bytes(&bytes), Ok(q));
    bytes[17] = 2;
    assert_eq!(Request::from_bytes(&bytes), Err(broken(NO_VARIANT)));
    assert_eq!(Request::from_bytes(&bytes[..17]), Err(broken(ENDED)));
    assert_eq!(
        Request::from_bytes(&[]).unwrap_err().message(),
        "decoding message: Hit the end of buffer, expected more data"
    );
}

#[test]
fn responses_roundtrip() {
    assert_eq!(Response::Accept.to_bytes(), vec![0]);
    let e = Response::Error("n\u{f6}".to_string());
    assert_eq!(e.to_bytes(), vec![1, 3, b'n', 0xc3, 0xb6]);
    assert_eq!(Response::from_bytes(&[0]), Ok(Response::Accept));
    assert_eq!(Response::from_bytes(&e.to_bytes()), Ok(e));
    assert_eq!(Response::from_bytes(&[1, 2, 0xc3, 0x28]), Err(broken(NOT_UTF8)));
    assert_eq!(Response::from_bytes(&[1, 2, b'x']), Err(broken(ENDED)));
    assert_eq!(Response::from_bytes(&[2]), Err(broken(NO_VARIANT)));
    assert_eq!(Response::from_bytes(&[]), Err(broken(ENDED)));
    assert_eq!(Response::from_bytes(&[0xff; 6]), Err(broken(NO_NUMBER)));
}

#[test]
fn a_long_text_has_its_length_in_groups_of_seven_bits() {
    let e = Response::Error("x".repeat(300));
    let bytes = e.to_bytes();
    assert_eq!(&bytes[..3], &[1, 0xac, 0x02]);
    assert_eq!(bytes.len(), 303);
    assert_eq!(Response::from_bytes(&bytes), Ok(e));
}

#[test]
fn lfs_requests_roundtrip() {
    let q = LfsRequest {
        version: 0,
        repo_id: [1; 16],
        op: LfsOp::Upload,
        oid: "ab".to_string(),
        size: u64::MAX,
    };
    let mut bytes = vec![0u8];
    bytes.extend_from_slice(&[1; 16]);
    bytes.extend_from_slice(&[1, 2, b'a', b'b']);
    bytes.extend_from_slice(&[0xff, 0xff, 0xff, 0xff, 0xff, 0xff, 0xff, 0xff, 0xff, 0x01]);
    assert_eq!(q.to_bytes(), bytes);
    assert_eq!(LfsRequest::from_bytes(&bytes), Ok(q));
    // One more than fits.
    let last = bytes.len() - 1;
    bytes[last] = 2;
    assert_eq!(LfsRequest::from_bytes(&bytes), Err(broken(NO_NUMBER)));
    // An unknown operation is found before what is wrong behind it.
    bytes[17] = 2;
    assert_eq!(LfsRequest::from_bytes(&bytes), Err(broken(NO_VARIANT)));
    assert_eq!(LfsRequest::from_bytes(&bytes[..17]), Err(broken(ENDED)));
    bytes[last] = 1;
    assert_eq!(LfsRequest::from_bytes(&bytes), Err(broken(NO_VARIANT)));
    bytes[17] = 0;
    assert_eq!(LfsRequest::from_bytes(&bytes).unwrap().op, LfsOp::Download);
}

#[test]
fn lfs_responses_roundtrip() {
    let all = [
        (LfsResponse::Proceed, vec![0u8]),
        (LfsResponse::Have, vec![1]),
        (LfsResponse::Error("no".to_string()), vec![2, 2, b'n', b'o']),
    ];
    for (a, bytes) in all {
        assert_eq!(a.to_bytes(), bytes);
        assert_eq!(LfsResponse::from_bytes(&bytes), Ok(a));
    }
    assert_eq!(LfsResponse::from_bytes(&[3]), Err(broken(NO_VARIANT)));
    assert_eq!(LfsResponse::from_bytes(&[2]), Err(broken(ENDED)));
}

#[test]
fn a_frame_begins_with_its_length() {
    assert_eq!(frame(&vec![7, 8]), Ok(vec![2, 0, 0, 0, 7, 8]));
    let f = frame(&vec![0; 0x10203]).unwrap();
    assert_eq!(&f[..4], &[3, 2, 1, 0]);
    assert_eq!(frame_len([2, 0, 0, 0]), Ok(2));
    assert_eq!(frame_len([0, 0, 1, 0]), Ok(MAX_FRAME));
    assert_eq!(frame_len([1, 0, 1, 0]), Err(Failure::FrameTooLong { len: 65537 }));
    assert_eq!(
        frame_len([255, 255, 255, 255]).unwrap_err().message(),
        "handshake frame of 4294967295 bytes exceeds 65536 limit"
    );
    let e = Failure::MessageTooLarge { cause: "it does not fit".to_string() };
    assert_eq!(e.message(), "message too large: it does not fit");
}

#[test]
fn a_framed_request_arrives() {
    let q = Request { version: 0, repo_id: [3; 16], service: Service::UploadPack };
    let framed = frame(&q.to_bytes()).unwrap();
    let len = frame_len([framed[0], framed[1], framed[2], framed[3]]).unwrap() as usize;
    assert_eq!(len, 18);
    assert_eq!(Request::from_bytes(&framed[4..4 + len]), Ok(q));
    let l = LfsRequest {
        version: 0,
        repo_id: [3; 16],
        op: LfsOp::Download,
        oid: "a".repeat(64),
        size: u64::MAX,
    };
    let framed = frame(&l.to_bytes()).unwrap();
    let len = frame_len([framed[0], framed[1], framed[2], framed[3]]).unwrap() as usize;
    assert_eq!(len, framed.len() - 4);
    assert_eq!(LfsRequest::from_bytes(&framed[4..]), Ok(l));
}
