use iroh_git::error::Failure;
use iroh_git::node::NodeId;
use iroh_git::share::{build_ticket, repo_name};
use iroh_git::ticket::{RepoId, Ticket, SCHEME};

fn key(n: u8) -> NodeId {
    NodeId::of_seed(&[n; 32])
}

fn ticket(relay: Option<&str>, name: &str) -> Ticket {
    Ticket {
        node_id: key(7),
        relay_url: relay.map(str::to_string),
        repo_id: RepoId::from_bytes([0xAB; 16]),
        name: name.to_string(),
    }
}

#[test]
fn ticket_roundtrips() {
    let node_id = key(7);
    let ticket = Ticket {
        node_id,
        relay_url: Some("https://relay.example./".to_string()),
        repo_id: RepoId::from_bytes([0xAB; 16]),
        name: "myrepo".to_string(),
    };

    let encoded = ticket.encode();
    assert!(encoded.starts_with(SCHEME));
    assert!(encoded.ends_with("/myrepo.git"), "url should end in the repo name");
    assert_eq!(encoded, encoded.to_lowercase(), "token must be lowercase");

    let decoded = Ticket::parse(&encoded).expect("round-trip parse");
    assert_eq!(decoded, ticket);
}

#[test]
fn rejects_non_iroh_url() {
    assert!(Ticket::parse("https://example.com").is_err());
}

#[test]
fn a_token_is_the_base32_of_the_key_the_relay_and_the_id() {
    let t = ticket(Some("r"), "");
    let mut bytes: Vec<u8> = t.node_id.as_bytes().to_vec();
    bytes.extend_from_slice(&[1, 1, b'r']);
    bytes.extend_from_slice(&[0xAB; 16]);
    let token = data_encoding::BASE32_NOPAD.encode(&bytes).to_lowercase();
    assert_eq!(t.encode(), format!("iroh://{token}"));

    let t = ticket(None, "x");
    let mut bytes: Vec<u8> = t.node_id.as_bytes().to_vec();
    bytes.push(0);
    bytes.extend_from_slice(&[0xAB; 16]);
    let token = data_encoding::BASE32_NOPAD.encode(&bytes).to_lowercase();
    assert_eq!(t.encode(), format!("iroh://{token}/x.git"));
}

#[test]
fn a_ticket_is_read_in_either_case_and_with_any_path() {
    let t = ticket(Some("https://relay.example./"), "myrepo");
    let url = t.encode();
    let token = url["iroh://".len()..url.len() - "/myrepo.git".len()].to_string();
    assert_eq!(Ticket::parse(&format!("iroh://{}/myrepo.git", token.to_uppercase())), Ok(t));
    // The last segment is the name, without `.git` where it has it.
    assert_eq!(Ticket::parse(&format!("iroh://{token}/a/b")).unwrap().name, "b");
    assert_eq!(Ticket::parse(&format!("iroh://{token}/a/")).unwrap().name, "");
    assert_eq!(Ticket::parse(&format!("iroh://{token}")).unwrap().name, "");
    assert_eq!(Ticket::parse(&format!("iroh://{token}/b.git.git")).unwrap().name, "b.git");
}

#[test]
fn a_name_with_a_slash_comes_back_as_its_last_segment() {
    let t = ticket(None, "a/b");
    assert_eq!(Ticket::parse(&t.encode()).unwrap().name, "b");
}

fn not_base32(text: &str) -> String {
    data_encoding::BASE32_NOPAD.decode(text.as_bytes()).unwrap_err().to_string()
}

#[test]
fn a_broken_ticket_says_how_it_is_broken() {
    assert_eq!(
        Ticket::parse("https://example.com"),
        Err(Failure::NotIrohUrl { url: "https://example.com".to_string() })
    );
    assert_eq!(
        Ticket::parse("https://example.com").unwrap_err().message(),
        "not an iroh:// url: https://example.com"
    );
    assert_eq!(Ticket::parse("iroh://1"), Err(Failure::TicketNotBase32 { cause: not_base32("1") }));
    // A non-ASCII token is turned into capitals before it is found not to be base32.
    assert_eq!(
        Ticket::parse("iroh://\u{e9}"),
        Err(Failure::TicketNotBase32 { cause: not_base32("\u{c9}") })
    );
    let ended = "Hit the end of buffer, expected more data";
    assert_eq!(Ticket::parse("iroh://"), Err(Failure::TicketLayout { cause: ended.to_string() }));
    assert_eq!(Ticket::parse("iroh:///x.git"), Err(Failure::TicketLayout { cause: ended.to_string() }));
    // 32 bytes that are no curve point, no relay, an id.
    let mut bytes = vec![2u8];
    bytes.extend_from_slice(&[0u8; 31]);
    bytes.push(0);
    bytes.extend_from_slice(&[0u8; 16]);
    let token = data_encoding::BASE32_NOPAD.encode(&bytes);
    assert_eq!(
        Ticket::parse(&format!("iroh://{token}")).unwrap_err().message(),
        "ticket has an invalid node id: data is not a valid public key"
    );
    // A tag of an optional relay that is neither 0 nor 1.
    let mut bytes = key(1).as_bytes().to_vec();
    bytes.push(2);
    bytes.extend_from_slice(&[0u8; 40]);
    let token = data_encoding::BASE32_NOPAD.encode(&bytes);
    assert_eq!(
        Ticket::parse(&format!("iroh://{token}")).unwrap_err().message(),
        "ticket has an unexpected layout: Found an Option discriminant that wasn't 0 or 1"
    );
    assert_eq!(
        Ticket::parse("iroh://a!").unwrap_err().message(),
        "ticket is not valid base32: invalid symbol at 1"
    );
}

#[test]
fn a_token_can_be_read_by_its_capitals() {
    let t = ticket(None, "");
    let url = t.encode();
    let upper = url["iroh://".len()..].to_uppercase();
    assert_eq!(Ticket::from_capitals(&upper, String::new()), Ok(t));
    assert_eq!(
        Ticket::from_capitals(&upper.to_lowercase(), String::new()),
        Err(Failure::TicketNotBase32 { cause: not_base32(&upper.to_lowercase()) })
    );
}

#[test]
fn repo_ids_roundtrip_in_either_case() {
    let id = RepoId::from_bytes([0x5F; 16]);
    let text = id.to_text();
    assert_eq!(text, data_encoding::BASE32_NOPAD.encode(&[0x5F; 16]).to_lowercase());
    assert_eq!(text.len(), 26);
    assert_eq!(RepoId::parse(&text), Ok(id));
    assert_eq!(RepoId::parse(&text.to_uppercase()), Ok(id));
    assert_eq!(RepoId::from_capitals(&text.to_uppercase()), Ok(id));
    assert_eq!(id.as_bytes(), &[0x5F; 16]);
    assert!(id.same(&RepoId::from_bytes([0x5F; 16])));
    assert!(!id.same(&RepoId::from_bytes([0x5E; 16])));
}

#[test]
fn a_text_that_is_no_repo_id_is_refused() {
    assert_eq!(
        RepoId::parse("not base32!"),
        Err(Failure::RepoIdNotBase32 { cause: not_base32("NOT BASE32!") })
    );
    // Trailing bits that are not zero.
    assert_eq!(
        RepoId::parse("ab").unwrap_err().message(),
        "repo id is not valid base32: non-zero trailing bits at 1"
    );
    let short = <[u8; 16]>::try_from(&[0u8][..]).unwrap_err().to_string();
    assert_eq!(RepoId::parse("aa"), Err(Failure::RepoIdLength { cause: short.clone() }));
    assert_eq!(
        RepoId::parse("").unwrap_err().message(),
        format!("repo id is not 16 bytes: {short}")
    );
}

#[test]
fn random_repo_ids_differ() {
    let a = RepoId::random().unwrap();
    let b = RepoId::random().unwrap();
    assert!(!a.same(&b));
    assert_eq!(RepoId::parse(&a.to_text()), Ok(a));
}

#[test]
fn repo_names_are_directory_names_without_git() {
    assert_eq!(repo_name("/srv/git/foo.git"), "foo");
    assert_eq!(repo_name("C:\\repositories\\my_repo"), "my_repo");
    assert_eq!(repo_name("C:\\repositories\\my_repo\\"), "my_repo");
    assert_eq!(repo_name("/a/b c+d/"), "b-c-d");
    assert_eq!(repo_name("/a/\u{e9}t\u{e9}"), "-t-");
    assert_eq!(repo_name("/"), "repo");
    assert_eq!(repo_name(""), "repo");
    assert_eq!(repo_name("/a/.git"), "repo");
}

#[test]
fn a_minted_ticket_names_the_shared_repository() {
    let id = RepoId::from_bytes([3; 16]);
    let t = build_ticket(&id.to_text(), "/srv/foo.git", &key(1), Some("https://r/".to_string())).unwrap();
    assert_eq!(t.node_id, key(1));
    assert_eq!(t.repo_id, id);
    assert_eq!(t.relay_url.as_deref(), Some("https://r/"));
    assert_eq!(t.name, "foo");
    assert_eq!(Ticket::parse(&t.encode()), Ok(t));
    assert_eq!(
        build_ticket("junk!", "/srv/foo.git", &key(1), None),
        Err(Failure::RepoIdNotBase32 { cause: not_base32("JUNK!") })
    );
}
