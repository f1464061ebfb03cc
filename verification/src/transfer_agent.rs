//! The Git LFS custom transfer agent: git-lfs's line-delimited JSON protocol.
//!
//! Configured as a *standalone* transfer agent, so that git-lfs skips its HTTP batch API and hands
//! over each object to move: an `init`, then one `download` or `upload` per object, then
//! `terminate`.

use crate::text::{
    a_part_stands_between_two_others, contains_text, ends_with, hex_digit, is_blank, option_view,
    starts_with, trim, trimmed, trimming_leaves_the_rest,
};
use vstd::prelude::*;

verus! {

/// What JSON holds at a key of its top level, as text and as a whole number, or what is wrong with
/// the JSON.
pub uninterp spec fn json_field(line: Seq<char>, key: Seq<char>) -> Result<
    (Option<Seq<char>>, Option<u64>),
    Seq<char>,
>;

/// `serde_json::from_str` into a `serde_json::Value`, and of it the value at a key by `as_str` and
/// `as_u64`; or the text of the error. What JSON is, is named, not described.
#[verifier::external_body]
fn read_json_field(line: &str, key: &str) -> (r: Result<(Option<String>, Option<u64>), String>)
    ensures
        match r {
            Ok((text, number)) => json_field(line@, key@) == Ok::<_, Seq<char>>((option_view(text), number)),
            Err(e) => json_field(line@, key@) == Err::<(Option<Seq<char>>, Option<u64>), _>(e@),
        },
{
    match serde_json::from_str::<serde_json::Value>(line) {
        Ok(value) => Ok((value[key].as_str().map(str::to_string), value[key].as_u64())),
        Err(e) => Err(e.to_string()),
    }
}

/// A character inside a JSON string: quotes, backslashes and control characters are escaped.
pub open spec fn json_escaped(c: char) -> Seq<char> {
    if c == '"' {
        "\\\""@
    } else if c == '\\' {
        "\\\\"@
    } else if c == '\u{8}' {
        "\\b"@
    } else if c == '\t' {
        "\\t"@
    } else if c == '\n' {
        "\\n"@
    } else if c == '\u{c}' {
        "\\f"@
    } else if c == '\r' {
        "\\r"@
    } else if 0x20 > c as int {
        "\\u00"@ + seq![hex_digit(c as int / 16), hex_digit(c as int % 16)]
    } else {
        seq![c]
    }
}

/// The inside of a JSON string.
pub open spec fn json_inside(s: Seq<char>) -> Seq<char>
    decreases s.len(),
{
    if s.len() == 0 {
        Seq::empty()
    } else {
        json_inside(s.drop_last()) + json_escaped(s.last())
    }
}

/// A text as a JSON string.
pub open spec fn json_string(s: Seq<char>) -> Seq<char> {
    "\""@ + json_inside(s) + "\""@
}

/// `serde_json::Value::String`'s `Display`: the text as a JSON string.
#[verifier::external_body]
fn json_text(s: &str) -> (r: String)
    ensures
        r@ == json_string(s@),
{
    serde_json::Value::String(s.to_string()).to_string()
}

/// A message from git-lfs.
#[derive(Debug, PartialEq, Eq)]
pub enum AgentEvent {
    /// Connect to this remote.
    Init { remote: String },
    /// Fetch this object.
    Download { oid: String },
    /// Send this object, which lies at `path`; git-lfs may leave the size out.
    Upload { oid: String, path: String, size: Option<u64> },
    /// There is nothing more to do.
    Terminate,
    /// Something that this agent does not know.
    Unknown,
}

/// What an agent's event says.
pub enum AgentEventView {
    Init { remote: Seq<char> },
    Download { oid: Seq<char> },
    Upload { oid: Seq<char>, path: Seq<char>, size: Option<u64> },
    Terminate,
    Unknown,
}

impl View for AgentEvent {
    type V = AgentEventView;

    open spec fn view(&self) -> AgentEventView {
        match self {
            AgentEvent::Init { remote } => AgentEventView::Init { remote: remote@ },
            AgentEvent::Download { oid } => AgentEventView::Download { oid: oid@ },
            AgentEvent::Upload { oid, path, size } => AgentEventView::Upload {
                oid: oid@,
                path: path@,
                size: *size,
            },
            AgentEvent::Terminate => AgentEventView::Terminate,
            AgentEvent::Unknown => AgentEventView::Unknown,
        }
    }
}

/// The text of a field, or nothing where it is missing or not a text.
pub open spec fn text_or_empty(field: Option<Seq<char>>) -> Seq<char> {
    match field {
        Some(t) => t,
        None => Seq::empty(),
    }
}

/// The event that the fields of a message make.
pub open spec fn event_in(
    kind: Option<Seq<char>>,
    remote: Option<Seq<char>>,
    oid: Option<Seq<char>>,
    path: Option<Seq<char>>,
    size: Option<u64>,
) -> AgentEventView {
    if kind == Some("init"@) {
        AgentEventView::Init { remote: text_or_empty(remote) }
    } else if kind == Some("download"@) {
        AgentEventView::Download { oid: text_or_empty(oid) }
    } else if kind == Some("upload"@) {
        AgentEventView::Upload { oid: text_or_empty(oid), path: text_or_empty(path), size }
    } else if kind == Some("terminate"@) {
        AgentEventView::Terminate
    } else {
        AgentEventView::Unknown
    }
}

fn or_empty(field: Option<String>) -> (r: String)
    ensures
        r@ == text_or_empty(option_view(field)),
{
    match field {
        Some(t) => t,
        None => String::new(),
    }
}

/// The event that the fields of a message make.
pub fn event_of(
    kind: Option<String>,
    remote: Option<String>,
    oid: Option<String>,
    path: Option<String>,
    size: Option<u64>,
) -> (r: AgentEvent)
    ensures
        r@ == event_in(option_view(kind), option_view(remote), option_view(oid), option_view(path), size),
{
    match kind {
        None => AgentEvent::Unknown,
        Some(k) => {
            if k.as_str().eq("init") {
                AgentEvent::Init { remote: or_empty(remote) }
            } else if k.as_str().eq("download") {
                AgentEvent::Download { oid: or_empty(oid) }
            } else if k.as_str().eq("upload") {
                AgentEvent::Upload { oid: or_empty(oid), path: or_empty(path), size }
            } else if k.as_str().eq("terminate") {
                AgentEvent::Terminate
            } else {
                AgentEvent::Unknown
            }
        },
    }
}

/// The text at a key of a JSON message.
pub open spec fn text_at(line: Seq<char>, key: Seq<char>) -> Option<Seq<char>> {
    match json_field(line, key) {
        Ok((text, _)) => text,
        Err(_) => None,
    }
}

/// The whole number at a key of a JSON message.
pub open spec fn number_at(line: Seq<char>, key: Seq<char>) -> Option<u64> {
    match json_field(line, key) {
        Ok((_, number)) => number,
        Err(_) => None,
    }
}

fn read_text_at(line: &str, key: &str) -> (r: Option<String>)
    ensures
        option_view(r) == text_at(line@, key@),
{
    match read_json_field(line, key) {
        Ok((text, _)) => text,
        Err(_) => None,
    }
}

fn read_number_at(line: &str, key: &str) -> (r: Option<u64>)
    ensures
        r == number_at(line@, key@),
{
    match read_json_field(line, key) {
        Ok((_, number)) => number,
        Err(_) => None,
    }
}

/// What a line from git-lfs holds.
#[derive(Debug, PartialEq, Eq)]
pub enum AgentLine {
    /// Nothing.
    Blank,
    /// Something that is not JSON: it is skipped with this warning, since giving up here would fail
    /// every remaining object, not just this one.
    Unparseable(String),
    Event(AgentEvent),
}

/// Read one line of the protocol.
pub fn read_line(line: &str) -> (r: AgentLine)
    ensures
        if trim(line@).len() == 0 {
            r == AgentLine::Blank
        } else {
            match json_field(line@, "event"@) {
                Err(e) => r matches AgentLine::Unparseable(w) && w@
                    == "git-lfs-iroh: ignoring unparseable message: "@ + e,
                Ok((kind, _)) => r matches AgentLine::Event(event) && event@ == event_in(
                    kind,
                    text_at(line@, "remote"@),
                    text_at(line@, "oid"@),
                    text_at(line@, "path"@),
                    number_at(line@, "size"@),
                ),
            }
        },
{
    if trimmed(line).is_empty() {
        return AgentLine::Blank;
    }
    match read_json_field(line, "event") {
        Err(e) => AgentLine::Unparseable(
            "git-lfs-iroh: ignoring unparseable message: ".to_owned().concat(e.as_str()),
        ),
        Ok((kind, _)) => AgentLine::Event(
            event_of(
                kind,
                read_text_at(line, "remote"),
                read_text_at(line, "oid"),
                read_text_at(line, "path"),
                read_number_at(line, "size"),
            ),
        ),
    }
}

/// How a transfer ended.
#[derive(Debug, PartialEq, Eq)]
pub enum Transfer {
    /// The object was downloaded to this path.
    Downloaded(String),
    /// The object was uploaded.
    Uploaded,
    /// The transfer failed, with this message.
    Failed(String),
}

/// How a transfer ended, over characters.
pub enum TransferView {
    Downloaded(Seq<char>),
    Uploaded,
    Failed(Seq<char>),
}

impl View for Transfer {
    type V = TransferView;

    open spec fn view(&self) -> TransferView {
        match self {
            Transfer::Downloaded(path) => TransferView::Downloaded(path@),
            Transfer::Uploaded => TransferView::Uploaded,
            Transfer::Failed(message) => TransferView::Failed(message@),
        }
    }
}

/// An error in a reply.
pub open spec fn error_json(code: Seq<char>, message: Seq<char>) -> Seq<char> {
    "{\"code\":"@ + code + ",\"message\":"@ + json_string(message) + "}"@
}

fn error_object(code: &str, message: &str) -> (r: String)
    ensures
        r@ == error_json(code@, message@),
{
    "{\"code\":".to_owned().concat(code).concat(",\"message\":").concat(json_text(message).as_str()).concat("}")
}

/// The line that reports a transfer.
pub open spec fn complete_line(oid: Seq<char>, result: TransferView) -> Seq<char> {
    match result {
        TransferView::Downloaded(path) => "{\"event\":\"complete\",\"oid\":"@ + json_string(oid) + ",\"path\":"@
            + json_string(path) + "}\n"@,
        TransferView::Uploaded => "{\"event\":\"complete\",\"oid\":"@ + json_string(oid) + "}\n"@,
        TransferView::Failed(message) => "{\"error\":"@ + error_json("2"@, message)
            + ",\"event\":\"complete\",\"oid\":"@ + json_string(oid) + "}\n"@,
    }
}

/// Build the `complete` reply for a transfer, with the line feed that ends it.
pub fn complete(oid: &str, result: &Transfer) -> (r: String)
    ensures
        r@ == complete_line(oid@, result@),
{
    let oid_text = json_text(oid);
    match result {
        Transfer::Downloaded(path) => "{\"event\":\"complete\",\"oid\":".to_owned().concat(oid_text.as_str()).concat(
            ",\"path\":",
        ).concat(json_text(path.as_str()).as_str()).concat("}\n"),
        Transfer::Uploaded => "{\"event\":\"complete\",\"oid\":".to_owned().concat(oid_text.as_str()).concat("}\n"),
        Transfer::Failed(message) => "{\"error\":".to_owned().concat(
            error_object("2", message.as_str()).as_str(),
        ).concat(",\"event\":\"complete\",\"oid\":").concat(oid_text.as_str()).concat("}\n"),
    }
}

/// The reply to an `init`: an empty object signals success.
pub fn init_reply(error: Option<&str>) -> (r: String)
    ensures
        r@ == match error {
            None => "{}\n"@,
            Some(message) => "{\"error\":"@ + error_json("1"@, message@) + "}\n"@,
        },
{
    match error {
        None => "{}\n".to_owned(),
        Some(message) => "{\"error\":".to_owned().concat(error_object("1", message).as_str()).concat("}\n"),
    }
}

/// What the agent does about an event.
#[derive(Debug, PartialEq, Eq)]
pub enum AgentAction {
    /// Connect to the remote and send the reply to `init`.
    Connect { remote: String },
    /// Fetch the object and send the `complete` reply.
    Download { oid: String },
    /// Send the object and then the `complete` reply. A missing size is that of the file.
    Upload { oid: String, path: String, size: Option<u64> },
    /// Send this reply.
    Reply(String),
    /// Read on.
    Skip,
    /// Close the connection and end.
    Stop,
}

/// The size to announce for an upload: the one that git-lfs gave, or else the file's, if it has one
/// (the daemon would refuse a size of 0 as a mismatch).
pub fn upload_size(given: Option<u64>, file_len: Option<u64>) -> (r: u64)
    ensures
        r == match given {
            Some(n) => n,
            None => match file_len {
                Some(n) => n,
                None => 0,
            },
        },
{
    match given {
        Some(n) => n,
        None => match file_len {
            Some(n) => n,
            None => 0,
        },
    }
}

/// Decide what to do about an event, given whether an `init` has succeeded.
pub fn act(connected: bool, event: AgentEvent) -> (r: AgentAction)
    ensures
        match event@ {
            AgentEventView::Init { remote } => r matches AgentAction::Connect { remote: m } && m@ == remote,
            AgentEventView::Download { oid } => if connected {
                r matches AgentAction::Download { oid: o } && o@ == oid
            } else {
                r matches AgentAction::Reply(line) && line@ == complete_line(
                    oid,
                    TransferView::Failed("download before init"@),
                )
            },
            AgentEventView::Upload { oid, path, size } => if connected {
                r matches AgentAction::Upload { oid: o, path: p, size: n } && o@ == oid && p@ == path && n == size
            } else {
                r matches AgentAction::Reply(line) && line@ == complete_line(
                    oid,
                    TransferView::Failed("upload before init"@),
                )
            },
            AgentEventView::Terminate => r == AgentAction::Stop,
            AgentEventView::Unknown => r == AgentAction::Skip,
        },
{
    match event {
        AgentEvent::Init { remote } => AgentAction::Connect { remote },
        AgentEvent::Download { oid } => {
            if connected {
                AgentAction::Download { oid }
            } else {
                AgentAction::Reply(
                    complete(oid.as_str(), &Transfer::Failed("download before init".to_owned())),
                )
            }
        },
        AgentEvent::Upload { oid, path, size } => {
            if connected {
                AgentAction::Upload { oid, path, size }
            } else {
                AgentAction::Reply(
                    complete(oid.as_str(), &Transfer::Failed("upload before init".to_owned())),
                )
            }
        },
        AgentEvent::Terminate => AgentAction::Stop,
        AgentEvent::Unknown => AgentAction::Skip,
    }
}

/// No line feed in a text.
pub open spec fn one_line(s: Seq<char>) -> bool {
    forall|i: int| 0 <= i < s.len() ==> #[trigger] s[i] != '\n'
}

proof fn lemma_one_line_concat(a: Seq<char>, b: Seq<char>)
    requires
        one_line(a),
        one_line(b),
    ensures
        one_line(a + b),
{
    assert forall|i: int| 0 <= i < (a + b).len() implies #[trigger] (a + b)[i] != '\n' by {
        if i < a.len() {
            assert((a + b)[i] == a[i]);
        } else {
            assert((a + b)[i] == b[i - a.len()]);
        }
    }
}

/// A JSON string stays on one line, whatever text it stands for.
pub proof fn json_string_is_one_line(s: Seq<char>)
    ensures
        one_line(json_string(s)),
{
    reveal_strlit("\"");
    lemma_json_inside_is_one_line(s);
    lemma_one_line_concat("\""@, json_inside(s));
    lemma_one_line_concat("\""@ + json_inside(s), "\""@);
}

proof fn lemma_hex_digits_stay_on_the_line(c: char)
    ensures
        0x20 > c as int ==> hex_digit(c as int / 16) != '\n' && hex_digit(c as int % 16) != '\n',
{
    let n = c as int;
    if n < 0x20 {
        let (high, low) = (n / 16, n % 16);
        assert(0 <= n);
        assert(0 <= high < 2 && 0 <= low < 16);
        assert(hex_digit(high) as int == 48 + high);
        assert(hex_digit(low) as int == if low < 10 { 48 + low } else { 87 + low });
    }
}

proof fn lemma_json_inside_is_one_line(s: Seq<char>)
    ensures
        one_line(json_inside(s)),
    decreases s.len(),
{
    if s.len() > 0 {
        lemma_json_inside_is_one_line(s.drop_last());
        let c = s.last();
        assert(one_line(json_escaped(c))) by {
            reveal_strlit("\\\"");
            reveal_strlit("\\\\");
            reveal_strlit("\\b");
            reveal_strlit("\\t");
            reveal_strlit("\\n");
            reveal_strlit("\\f");
            reveal_strlit("\\r");
            reveal_strlit("\\u00");
            lemma_hex_digits_stay_on_the_line(c);
        }
        lemma_one_line_concat(json_inside(s.drop_last()), json_escaped(c));
    }
}

/// A `complete` reply is one line: its only line feed is its last character. So no object id, path or
/// message can break the line-delimited protocol.
pub proof fn complete_reply_is_one_line(oid: Seq<char>, result: TransferView)
    ensures
        complete_line(oid, result).len() > 0,
        complete_line(oid, result).last() == '\n',
        one_line(complete_line(oid, result).drop_last()),
{
    reveal_strlit("{\"event\":\"complete\",\"oid\":");
    reveal_strlit(",\"event\":\"complete\",\"oid\":");
    reveal_strlit(",\"path\":");
    reveal_strlit("{\"error\":");
    reveal_strlit("{\"code\":");
    reveal_strlit(",\"message\":");
    reveal_strlit("2");
    reveal_strlit("}");
    reveal_strlit("}\n");
    json_string_is_one_line(oid);
    let head = match result {
        TransferView::Downloaded(path) => {
            json_string_is_one_line(path);
            let a = "{\"event\":\"complete\",\"oid\":"@;
            lemma_one_line_concat(a, json_string(oid));
            lemma_one_line_concat(a + json_string(oid), ",\"path\":"@);
            lemma_one_line_concat(a + json_string(oid) + ",\"path\":"@, json_string(path));
            a + json_string(oid) + ",\"path\":"@ + json_string(path)
        },
        TransferView::Uploaded => {
            let a = "{\"event\":\"complete\",\"oid\":"@;
            lemma_one_line_concat(a, json_string(oid));
            a + json_string(oid)
        },
        TransferView::Failed(message) => {
            json_string_is_one_line(message);
            let c = "{\"code\":"@ + "2"@;
            lemma_one_line_concat("{\"code\":"@, "2"@);
            lemma_one_line_concat(c, ",\"message\":"@);
            lemma_one_line_concat(c + ",\"message\":"@, json_string(message));
            lemma_one_line_concat(c + ",\"message\":"@ + json_string(message), "}"@);
            let a = "{\"error\":"@;
            let b = ",\"event\":\"complete\",\"oid\":"@;
            lemma_one_line_concat(a, error_json("2"@, message));
            lemma_one_line_concat(a + error_json("2"@, message), b);
            lemma_one_line_concat(a + error_json("2"@, message) + b, json_string(oid));
            a + error_json("2"@, message) + b + json_string(oid)
        },
    };
    assert(one_line(head));
    assert(complete_line(oid, result) == head + "}\n"@);
    assert((head + "}\n"@).drop_last() =~= head + "}"@);
    lemma_one_line_concat(head, "}"@);
}

/// A message asks for what its event says, of the object and the file that it names; one with another
/// event, or none, asks for nothing.
pub proof fn messages_ask_for_what_their_event_says(
    kind: Option<String>,
    remote: Option<String>,
    oid: Option<String>,
    path: Option<String>,
    size: Option<u64>,
    event: AgentEvent,
)
    requires
        call_ensures(event_of, (kind, remote, oid, path, size), event),
    ensures
        event is Init <==> option_view(kind) == Some("init"@),
        event is Download <==> option_view(kind) == Some("download"@),
        event is Upload <==> option_view(kind) == Some("upload"@),
        event is Terminate <==> option_view(kind) == Some("terminate"@),
        event matches AgentEvent::Init { remote: r } ==> r@ == text_or_empty(option_view(remote)),
        event matches AgentEvent::Download { oid: o } ==> o@ == text_or_empty(option_view(oid)),
        event matches AgentEvent::Upload { oid: o, path: p, size: n } ==> o@ == text_or_empty(option_view(oid)) && p@
            == text_or_empty(option_view(path)) && n == size,
        oid matches Some(o) ==> text_or_empty(option_view(oid)) == o@,
        oid is None ==> text_or_empty(option_view(oid)).len() == 0,
{
    reveal_strlit("init");
    reveal_strlit("download");
    reveal_strlit("upload");
    reveal_strlit("terminate");
    assert("init"@.len() == 4 && "download"@.len() == 8 && "upload"@.len() == 6 && "terminate"@.len() == 9);
}

/// Before the agent is connected it transfers nothing, and answers each object with the reason; once it
/// is, it transfers exactly the object that git-lfs asks for. It stops when it is told to, and only
/// then.
pub proof fn the_agent_transfers_what_is_asked_for(connected: bool, event: AgentEvent, action: AgentAction)
    requires
        call_ensures(act, (connected, event), action),
    ensures
        action is Stop <==> event is Terminate,
        action is Skip <==> event is Unknown,
        action is Connect <==> event is Init,
        event matches AgentEvent::Init { remote } ==> (action matches AgentAction::Connect { remote: r } && r@
            == remote@),
        action is Download <==> event is Download && connected,
        action is Upload <==> event is Upload && connected,
        event matches AgentEvent::Download { oid } ==> if connected {
            action matches AgentAction::Download { oid: o } && o@ == oid@
        } else {
            action matches AgentAction::Reply(line) && line@ == complete_line(
                oid@,
                TransferView::Failed("download before init"@),
            )
        },
        event matches AgentEvent::Upload { oid, path, size } ==> if connected {
            action matches AgentAction::Upload { oid: o, path: p, size: n } && o@ == oid@ && p@ == path@ && n == size
        } else {
            action matches AgentAction::Reply(line) && line@ == complete_line(
                oid@,
                TransferView::Failed("upload before init"@),
            )
        },
{
}

/// The size that is announced is the one that git-lfs gave; only where it gave none is it the file's.
pub proof fn the_announced_size_is_the_given_one(given: Option<u64>, file_len: Option<u64>, size: u64)
    requires
        call_ensures(upload_size, (given, file_len), size),
    ensures
        given matches Some(n) ==> size == n,
        given is None ==> (file_len matches Some(n) ==> size == n),
        given is None && file_len is None ==> size == 0,
{
}

/// A reply names its object, and with it the path of a download or the reason of a failure, whose code is
/// 2; it is an object in braces, in a line of its own.
pub proof fn replies_name_their_object(oid: &str, result: &Transfer, line: String)
    requires
        call_ensures(complete, (oid, result), line),
    ensures
        contains_text(line@, "\"event\":\"complete\",\"oid\":"@ + json_string(oid@)),
        result matches Transfer::Downloaded(path) ==> contains_text(
            line@,
            "\"oid\":"@ + json_string(oid@) + ",\"path\":"@ + json_string(path@),
        ),
        result matches Transfer::Failed(message) ==> starts_with(
            line@,
            "{\"error\":{\"code\":2,\"message\":"@ + json_string(message@),
        ),
        !(result is Failed) ==> starts_with(line@, "{\"event\":"@),
        result is Uploaded ==> line@ == "{\"event\":\"complete\",\"oid\":"@ + json_string(oid@) + "}\n"@,
        ends_with(line@, "}\n"@),
{
    match result {
        Transfer::Downloaded(path) => {
            lemma_download_is_named(oid@, path@);
        },
        Transfer::Uploaded => {
            lemma_upload_is_named(oid@);
        },
        Transfer::Failed(message) => {
            lemma_failure_is_named(oid@, message@);
        },
    }
}

proof fn lemma_event_texts()
    ensures
        "{\"event\":\"complete\",\"oid\":"@ == "{"@ + "\"event\":\"complete\",\"oid\":"@,
        "{\"event\":\"complete\",\"oid\":"@ == "{\"event\":"@ + "\"complete\","@ + "\"oid\":"@,
        "}\n"@.len() == 2,
{
    reveal_strlit("{\"event\":\"complete\",\"oid\":");
    reveal_strlit("\"event\":\"complete\",\"oid\":");
    reveal_strlit("{\"event\":");
    reveal_strlit("\"complete\",");
    reveal_strlit("\"oid\":");
    reveal_strlit("{");
    reveal_strlit("}\n");
    assert("{\"event\":\"complete\",\"oid\":"@ =~= "{"@ + "\"event\":\"complete\",\"oid\":"@);
    assert("{\"event\":\"complete\",\"oid\":"@ =~= "{\"event\":"@ + "\"complete\","@ + "\"oid\":"@);
}

/// Where the parts of a text stand in it, which begins with `head` and goes on with `id` and `rest`.
proof fn lemma_parts_of(
    brace: Seq<char>,
    named: Seq<char>,
    event: Seq<char>,
    key: Seq<char>,
    head: Seq<char>,
    id: Seq<char>,
    rest: Seq<char>,
    end: Seq<char>,
)
    requires
        head == brace + named,
        head == event + key,
    ensures
        contains_text(head + id + rest + end, named + id),
        contains_text(head + id + rest + end, key + id + rest),
        starts_with(head + id + rest + end, event),
        ends_with(head + id + rest + end, end),
{
    let s = head + id + rest + end;
    a_part_stands_between_two_others(brace, named + id, rest + end, s);
    assert(brace + (named + id) + (rest + end) =~= s);
    a_part_stands_between_two_others(event, key + id + rest, end, s);
    assert(event + (key + id + rest) + end =~= s);
    assert(s.take(event.len() as int) =~= event);
    assert(s.skip(s.len() - end.len()) =~= end);
}

proof fn lemma_download_is_named(oid: Seq<char>, path: Seq<char>)
    ensures
        ({
            let line = complete_line(oid, TransferView::Downloaded(path));
            &&& contains_text(line, "\"event\":\"complete\",\"oid\":"@ + json_string(oid))
            &&& contains_text(line, "\"oid\":"@ + json_string(oid) + ",\"path\":"@ + json_string(path))
            &&& starts_with(line, "{\"event\":"@)
            &&& ends_with(line, "}\n"@)
        }),
{
    lemma_event_texts();
    lemma_download_parts(json_string(oid), json_string(path));
}

proof fn lemma_download_parts(id: Seq<char>, file: Seq<char>)
    ensures
        ({
            let line = "{\"event\":\"complete\",\"oid\":"@ + id + ",\"path\":"@ + file + "}\n"@;
            &&& contains_text(line, "\"event\":\"complete\",\"oid\":"@ + id)
            &&& contains_text(line, "\"oid\":"@ + id + ",\"path\":"@ + file)
            &&& starts_with(line, "{\"event\":"@)
            &&& ends_with(line, "}\n"@)
        }),
{
    lemma_event_texts();
    let head = "{\"event\":\"complete\",\"oid\":"@;
    let (complete, which) = ("\"complete\","@, "\"oid\":"@);
    let rest = ",\"path\":"@ + file;
    let line = head + id + ",\"path\":"@ + file + "}\n"@;
    assert("{\"event\":"@ + complete + which =~= "{\"event\":"@ + (complete + which));
    lemma_parts_of(
        "{"@,
        "\"event\":\"complete\",\"oid\":"@,
        "{\"event\":"@,
        complete + which,
        head,
        id,
        rest,
        "}\n"@,
    );
    assert(head + id + rest + "}\n"@ =~= line);
    let held = which + id + ",\"path\":"@ + file;
    assert(complete + which + id + rest =~= complete + held);
    lemma_held_after(line, complete, held);
}

proof fn lemma_held_after(s: Seq<char>, before: Seq<char>, held: Seq<char>)
    requires
        contains_text(s, before + held),
    ensures
        contains_text(s, held),
{
    a_part_stands_between_two_others(Seq::empty(), before + held, Seq::empty(), s);
    let (a, b) = choose|a: Seq<char>, b: Seq<char>| s == #[trigger] (a + (before + held) + b);
    a_part_stands_between_two_others(a + before, held, b, s);
    assert(a + before + held + b =~= s);
}

proof fn lemma_upload_is_named(oid: Seq<char>)
    ensures
        ({
            let line = complete_line(oid, TransferView::Uploaded);
            &&& contains_text(line, "\"event\":\"complete\",\"oid\":"@ + json_string(oid))
            &&& starts_with(line, "{\"event\":"@)
            &&& ends_with(line, "}\n"@)
        }),
{
    lemma_upload_parts(json_string(oid));
}

proof fn lemma_upload_parts(id: Seq<char>)
    ensures
        ({
            let line = "{\"event\":\"complete\",\"oid\":"@ + id + "}\n"@;
            &&& contains_text(line, "\"event\":\"complete\",\"oid\":"@ + id)
            &&& starts_with(line, "{\"event\":"@)
            &&& ends_with(line, "}\n"@)
        }),
{
    lemma_event_texts();
    let head = "{\"event\":\"complete\",\"oid\":"@;
    let (complete, which) = ("\"complete\","@, "\"oid\":"@);
    assert("{\"event\":"@ + complete + which =~= "{\"event\":"@ + (complete + which));
    lemma_parts_of(
        "{"@,
        "\"event\":\"complete\",\"oid\":"@,
        "{\"event\":"@,
        complete + which,
        head,
        id,
        Seq::empty(),
        "}\n"@,
    );
    assert(head + id + Seq::<char>::empty() + "}\n"@ =~= head + id + "}\n"@);
}

proof fn lemma_failure_is_named(oid: Seq<char>, message: Seq<char>)
    ensures
        ({
            let line = complete_line(oid, TransferView::Failed(message));
            &&& contains_text(line, "\"event\":\"complete\",\"oid\":"@ + json_string(oid))
            &&& starts_with(line, "{\"error\":{\"code\":2,\"message\":"@ + json_string(message))
            &&& ends_with(line, "}\n"@)
        }),
{
    reveal_strlit(",\"event\":\"complete\",\"oid\":");
    reveal_strlit("\"event\":\"complete\",\"oid\":");
    reveal_strlit("{\"error\":");
    reveal_strlit("{\"code\":");
    reveal_strlit("2");
    reveal_strlit(",\"message\":");
    reveal_strlit("{\"error\":{\"code\":2,\"message\":");
    reveal_strlit("}");
    reveal_strlit("}\n");
    let line = complete_line(oid, TransferView::Failed(message));
    let named = "\"event\":\"complete\",\"oid\":"@ + json_string(oid);
    let why = "{\"error\":{\"code\":2,\"message\":"@;
    assert(why =~= "{\"error\":"@ + ("{\"code\":"@ + "2"@ + ",\"message\":"@));
    assert(",\"event\":\"complete\",\"oid\":"@ =~= seq![','] + "\"event\":\"complete\",\"oid\":"@);
    let start = why + json_string(message);
    let before = start + "}"@ + seq![','];
    assert(line =~= before + named + "}\n"@);
    a_part_stands_between_two_others(before, named, "}\n"@, line);
    assert(line.take(start.len() as int) =~= start);
    assert(line.skip(line.len() - 2) =~= "}\n"@);
}

/// The answer to `init` is an empty object exactly if it succeeded, and otherwise gives the reason, with
/// the code 1.
pub proof fn the_answer_to_init_tells_success(error: Option<&str>, line: String)
    requires
        call_ensures(init_reply, (error,), line),
    ensures
        error is None <==> line@ == "{}\n"@,
        error matches Some(message) ==> line@ == "{\"error\":{\"code\":1,\"message\":"@ + json_string(message@)
            + "}}\n"@,
{
    reveal_strlit("{}\n");
    reveal_strlit("{\"error\":");
    reveal_strlit("{\"code\":");
    reveal_strlit("1");
    reveal_strlit(",\"message\":");
    reveal_strlit("{\"error\":{\"code\":1,\"message\":");
    reveal_strlit("}");
    reveal_strlit("}\n");
    reveal_strlit("}}\n");
    if let Some(message) = error {
        assert(line@ =~= "{\"error\":{\"code\":1,\"message\":"@ + json_string(message@) + "}}\n"@);
        assert(line@.len() > 3);
    }
}

/// A line is read by its fields: the event at `event`, and what it is about at `remote`, `oid`, `path` and
/// `size`. A blank line holds nothing, and one that is not JSON is skipped with a warning.
pub proof fn lines_are_read_by_their_fields(line: &str, read: AgentLine)
    requires
        call_ensures(read_line, (line,), read),
    ensures
        read is Blank <==> is_blank(line@),
        read is Unparseable <==> !is_blank(line@) && json_field(line@, "event"@) is Err,
        read matches AgentLine::Event(event) ==> {
            &&& event is Download <==> text_at(line@, "event"@) == Some("download"@)
            &&& event is Upload <==> text_at(line@, "event"@) == Some("upload"@)
            &&& event matches AgentEvent::Init { remote } ==> remote@ == text_or_empty(text_at(line@, "remote"@))
            &&& event matches AgentEvent::Download { oid } ==> oid@ == text_or_empty(text_at(line@, "oid"@))
            &&& event matches AgentEvent::Upload { oid, path, size } ==> oid@ == text_or_empty(text_at(line@, "oid"@))
                && path@ == text_or_empty(text_at(line@, "path"@)) && size == number_at(line@, "size"@)
        },
{
    reveal_strlit("init");
    reveal_strlit("download");
    reveal_strlit("upload");
    reveal_strlit("terminate");
    assert("init"@.len() == 4 && "download"@.len() == 8 && "upload"@.len() == 6 && "terminate"@.len() == 9);
    trimming_leaves_the_rest(line@);
}

} // verus!
