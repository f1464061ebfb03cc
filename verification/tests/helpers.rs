use iroh_git::error::Failure;
use iroh_git::git::{git_program, run_git, SearchDir};
use iroh_git::node::NodeId;
use iroh_git::protocol::Service;
use iroh_git::remote_helper::{
    helper_step, is_version_flag, pkt_line_err, refusal_bytes, request_for, HelperStep,
    CAPABILITIES,
};
use iroh_git::ticket::{RepoId, Ticket};
use iroh_git::transfer_agent::{
    act, complete, event_of, init_reply, read_line, upload_size, AgentAction, AgentEvent, AgentLine,
    Transfer,
};

#[test]
fn git_is_answered_line_by_line() {
    assert_eq!(helper_step("\n"), Ok(HelperStep::Ignore));
    assert_eq!(helper_step("capabilities\n"), Ok(HelperStep::Capabilities));
    assert_eq!(CAPABILITIES, "connect\n\n");
    assert_eq!(
        helper_step("connect git-upload-pack\n"),
        Ok(HelperStep::Connect(Service::UploadPack))
    );
    assert_eq!(
        helper_step("connect   git-receive-pack \r\n"),
        Ok(HelperStep::Connect(Service::ReceivePack))
    );
    assert_eq!(
        helper_step("connect git-upload-archive\n"),
        Err(Failure::UnsupportedService { service: "git-upload-archive".to_string() })
    );
    assert_eq!(
        helper_step("connect git-x").unwrap_err().message(),
        "unsupported service: git-x"
    );
    // Without an argument nothing is left of the separator.
    assert_eq!(
        helper_step("connect \n").unwrap_err().message(),
        "unexpected command from git: \"connect\""
    );
    assert_eq!(
        helper_step(" capabilities\n"),
        Err(Failure::UnexpectedCommand { command: " capabilities".to_string() })
    );
}

#[test]
fn version_flags_are_known() {
    for flag in ["--version", "-V", "version"] {
        assert!(is_version_flag(flag));
    }
    assert!(!is_version_flag("-v"));
    assert!(!is_version_flag(""));
}

#[test]
fn an_error_packet_counts_its_own_length() {
    assert_eq!(pkt_line_err("x"), b"0009ERR x".to_vec());
    assert_eq!(pkt_line_err(""), b"0008ERR ".to_vec());
    assert_eq!(pkt_line_err("\u{e9}"), "000aERR \u{e9}".as_bytes().to_vec());
    let long = pkt_line_err(&"y".repeat(300));
    assert_eq!(&long[..8], b"0134ERR ");
    assert_eq!(long.len(), 0x134);
    assert_eq!(&pkt_line_err(&"z".repeat(70_000))[..5], b"11178");
    assert_eq!(refusal_bytes("no"), b"\n0010ERR iroh: no".to_vec());
}

#[test]
fn the_request_addresses_the_ticket() {
    let t = Ticket {
        node_id: NodeId::of_seed(&[1; 32]),
        relay_url: None,
        repo_id: RepoId::from_bytes([5; 16]),
        name: String::new(),
    };
    let q = request_for(&t, Service::ReceivePack);
    assert_eq!((q.version, q.repo_id, q.service), (0, [5; 16], Service::ReceivePack));
}

#[test]
fn the_first_git_in_an_absolute_directory_is_run() {
    let dir = |dir: &str, absolute: bool, has_git: bool| SearchDir {
        dir: dir.to_string(),
        absolute,
        has_git,
    };
    let path = vec![
        dir("", false, true),
        dir("C:\\a", true, false),
        dir("C:\\b\\", true, true),
        dir("C:\\c", true, true),
    ];
    assert_eq!(git_program(&path), "C:\\b\\git.exe");
    assert_eq!(git_program(&path[..2].iter().map(|d| dir(&d.dir, d.absolute, d.has_git)).collect()), "git");
    assert_eq!(git_program(&vec![]), "git");
}

#[test]
fn a_failed_git_command_is_named() {
    let args = vec!["config".to_string(), "--local".to_string(), "a".to_string()];
    assert_eq!(run_git(&args, true), Ok(()));
    assert_eq!(run_git(&args, false).unwrap_err().message(), "git config --local a failed");
    assert_eq!(run_git(&vec![], false).unwrap_err().message(), "git  failed");
}

#[test]
fn agent_lines_are_json_events() {
    assert_eq!(read_line("  \n"), AgentLine::Blank);
    assert_eq!(
        read_line("{\"event\":\"init\",\"operation\":\"download\",\"remote\":\"origin\"}"),
        AgentLine::Event(AgentEvent::Init { remote: "origin".to_string() })
    );
    assert_eq!(
        read_line("{\"event\":\"download\",\"oid\":\"ab\",\"size\":3}\n"),
        AgentLine::Event(AgentEvent::Download { oid: "ab".to_string() })
    );
    assert_eq!(
        read_line("{\"event\":\"upload\",\"oid\":\"ab\",\"path\":\"/x\\ty\",\"size\":3}"),
        AgentLine::Event(AgentEvent::Upload {
            oid: "ab".to_string(),
            path: "/x\ty".to_string(),
            size: Some(3),
        })
    );
    assert_eq!(
        read_line("{\"event\":\"upload\",\"size\":-1,\"oid\":7}"),
        AgentLine::Event(AgentEvent::Upload {
            oid: String::new(),
            path: String::new(),
            size: None,
        })
    );
    assert_eq!(read_line("{\"event\":\"terminate\"}"), AgentLine::Event(AgentEvent::Terminate));
    assert_eq!(read_line("{\"event\":\"dance\"}"), AgentLine::Event(AgentEvent::Unknown));
    assert_eq!(read_line("[1]"), AgentLine::Event(AgentEvent::Unknown));
    match read_line("{nonsense") {
        AgentLine::Unparseable(w) => {
            assert!(w.starts_with("git-lfs-iroh: ignoring unparseable message: "));
            assert!(w.len() > "git-lfs-iroh: ignoring unparseable message: ".len());
        }
        other => panic!("{other:?}"),
    }
}

#[test]
fn fields_make_events() {
    let some = |t: &str| Some(t.to_string());
    assert_eq!(
        event_of(some("init"), None, None, None, None),
        AgentEvent::Init { remote: String::new() }
    );
    assert_eq!(
        event_of(some("download"), some("r"), some("o"), some("p"), Some(1)),
        AgentEvent::Download { oid: "o".to_string() }
    );
    assert_eq!(
        event_of(some("upload"), None, some("o"), some("p"), Some(1)),
        AgentEvent::Upload { oid: "o".to_string(), path: "p".to_string(), size: Some(1) }
    );
    assert_eq!(event_of(some("terminate"), None, None, None, None), AgentEvent::Terminate);
    assert_eq!(event_of(some("Init"), None, None, None, None), AgentEvent::Unknown);
    assert_eq!(event_of(None, None, None, None, None), AgentEvent::Unknown);
}

#[test]
fn replies_are_lines_of_json() {
    assert_eq!(init_reply(None), "{}\n");
    assert_eq!(
        init_reply(Some("a \"b\"")),
        "{\"error\":{\"code\":1,\"message\":\"a \\\"b\\\"\"}}\n"
    );
    assert_eq!(
        complete("ab", &Transfer::Downloaded("C:\\x\ny\u{1}\u{7f}\u{e9}".to_string())),
        "{\"event\":\"complete\",\"oid\":\"ab\",\"path\":\"C:\\\\x\\ny\\u0001\u{7f}\u{e9}\"}\n"
    );
    assert_eq!(complete("ab", &Transfer::Uploaded), "{\"event\":\"complete\",\"oid\":\"ab\"}\n");
    assert_eq!(
        complete("ab", &Transfer::Failed("\t\r\u{8}\u{c}".to_string())),
        "{\"error\":{\"code\":2,\"message\":\"\\t\\r\\b\\f\"},\"event\":\"complete\",\"oid\":\"ab\"}\n"
    );
    // git-lfs reads back what was meant.
    let line = complete("ab", &Transfer::Failed("x\n\"y\"\\".to_string()));
    let value: serde_json::Value = serde_json::from_str(&line).unwrap();
    assert_eq!(value["error"]["message"].as_str(), Some("x\n\"y\"\\"));
    assert_eq!(value["error"]["code"].as_u64(), Some(2));
    assert_eq!(value["event"].as_str(), Some("complete"));
    assert_eq!(value["oid"].as_str(), Some("ab"));
}

#[test]
fn replies_are_what_serde_json_writes() {
    let odd = "C:\\a \"b\"\n\u{1}\u{1f}\u{7f}\u{2028}\u{e9}";
    let text = |t: &str| serde_json::Value::String(t.to_string());
    let object = |fields: &[(&str, serde_json::Value)]| {
        let mut map = serde_json::Map::new();
        for (key, value) in fields {
            map.insert(key.to_string(), value.clone());
        }
        serde_json::Value::Object(map)
    };
    let error = |code: u64| {
        object(&[("code", serde_json::Value::from(code)), ("message", text(odd))])
    };
    let line = |value: serde_json::Value| format!("{value}\n");
    assert_eq!(init_reply(None), line(object(&[])));
    assert_eq!(init_reply(Some(odd)), line(object(&[("error", error(1))])));
    assert_eq!(
        complete(odd, &Transfer::Downloaded(odd.to_string())),
        line(object(&[("event", text("complete")), ("oid", text(odd)), ("path", text(odd))]))
    );
    assert_eq!(
        complete("o", &Transfer::Uploaded),
        line(object(&[("event", text("complete")), ("oid", text("o"))]))
    );
    assert_eq!(
        complete("o", &Transfer::Failed(odd.to_string())),
        line(object(&[("event", text("complete")), ("oid", text("o")), ("error", error(2))]))
    );
}

#[test]
fn transfers_need_an_init() {
    let download = || AgentEvent::Download { oid: "o".to_string() };
    let upload = || AgentEvent::Upload { oid: "o".to_string(), path: "p".to_string(), size: None };
    assert_eq!(act(true, download()), AgentAction::Download { oid: "o".to_string() });
    assert_eq!(
        act(true, upload()),
        AgentAction::Upload { oid: "o".to_string(), path: "p".to_string(), size: None }
    );
    assert_eq!(
        act(false, download()),
        AgentAction::Reply(complete("o", &Transfer::Failed("download before init".to_string())))
    );
    assert_eq!(
        act(false, upload()),
        AgentAction::Reply(complete("o", &Transfer::Failed("upload before init".to_string())))
    );
    assert_eq!(
        act(false, AgentEvent::Init { remote: "r".to_string() }),
        AgentAction::Connect { remote: "r".to_string() }
    );
    assert_eq!(act(true, AgentEvent::Terminate), AgentAction::Stop);
    assert_eq!(act(true, AgentEvent::Unknown), AgentAction::Skip);
}

#[test]
fn a_missing_size_is_the_files() {
    assert_eq!(upload_size(Some(3), Some(4)), 3);
    assert_eq!(upload_size(None, Some(4)), 4);
    assert_eq!(upload_size(None, None), 0);
}
