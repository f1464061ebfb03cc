//! The git remote helper for `iroh://` urls: its side of git's remote-helper protocol.
//!
//! Only the `connect` capability is advertised: git then asks to `connect git-upload-pack` (fetch)
//! or `connect git-receive-pack` (push), and once the handshake with the daemon is done its native
//! protocol is relayed byte for byte.

use crate::error::Failure;
use crate::protocol::{
    connect_arg_names_subcommand, only_two_services_can_be_asked_for, Request, RequestView, Service,
    VERSION,
};
use crate::text::{
    byte_count, byte_len, cut_prefix, hex_digit, hex_digits_write_the_number, hex_number,
    hex_number_text, hex_value, is_blank, is_white_space, starts_with, trim, trim_end, trimmed,
    trimmed_end, trimming_leaves_the_rest, trimming_takes_white_space_off, utf8_of_concat,
};
use crate::ticket::Ticket;
use vstd::prelude::*;
use vstd::utf8::{encode_utf8, is_ascii_chars, is_ascii_chars_encode_utf8};

verus! {

/// The answer to git's question for capabilities.
pub const CAPABILITIES: &'static str = "connect\n\n";

/// What a line from git asks for.
#[derive(Clone, Copy, Debug, PartialEq, Eq, Structural)]
pub enum HelperStep {
    /// Nothing: read on.
    Ignore,
    /// Write [`CAPABILITIES`].
    Capabilities,
    /// Connect to the daemon for this service, and relay.
    Connect(Service),
}

/// Whether a command line asks for the version: one of its arguments is a version flag.
pub fn is_version_flag(arg: &str) -> (r: bool)
    ensures
        r == (arg@ == "--version"@ || arg@ == "-V"@ || arg@ == "version"@),
{
    arg.eq("--version") || arg.eq("-V") || arg.eq("version")
}

/// Read one line of the remote-helper protocol.
pub fn helper_step(line: &str) -> (r: Result<HelperStep, Failure>)
    ensures
        ({
            let cmd = trim_end(line@);
            if cmd.len() == 0 {
                r == Ok::<HelperStep, Failure>(HelperStep::Ignore)
            } else if cmd == "capabilities"@ {
                r == Ok::<HelperStep, Failure>(HelperStep::Capabilities)
            } else if starts_with(cmd, "connect "@) {
                let arg = trim(cmd.skip("connect "@.len() as int));
                match Service::of_connect_arg(arg) {
                    Some(service) => r == Ok::<HelperStep, Failure>(HelperStep::Connect(service)),
                    None => r matches Err(Failure::UnsupportedService { service }) && service@ == arg,
                }
            } else {
                r matches Err(Failure::UnexpectedCommand { command }) && command@ == cmd
            }
        }),
{
    let cmd = trimmed_end(line);
    if cmd.is_empty() {
        return Ok(HelperStep::Ignore);
    }
    if cmd.eq("capabilities") {
        return Ok(HelperStep::Capabilities);
    }
    match cut_prefix(cmd, "connect ") {
        Some(rest) => {
            let arg = trimmed(rest);
            match Service::from_connect_arg(arg) {
                Some(service) => Ok(HelperStep::Connect(service)),
                None => Err(Failure::UnsupportedService { service: arg.to_owned() }),
            }
        },
        None => Err(Failure::UnexpectedCommand { command: cmd.to_owned() }),
    }
}

/// The request that asks the daemon of a ticket for a service on the ticket's repository.
pub fn request_for(ticket: &Ticket, service: Service) -> (r: Request)
    ensures
        r@ == (RequestView { version: VERSION, repo_id: ticket@.repo_id, service }),
{
    Request { version: VERSION, repo_id: *ticket.repo_id.as_bytes(), service }
}

/// A git pkt-line: its own length in at least four hexadecimal digits, then `ERR ` and the message.
pub open spec fn err_packet(msg: Seq<char>) -> Seq<char> {
    let payload = "ERR "@ + msg;
    hex_number(byte_len(payload) + 4, 4) + payload
}

/// Build a git pkt-line `ERR <msg>` packet. When git reads this as the first line of a ref
/// advertisement, it dies with `fatal: remote error: <msg>`.
pub fn pkt_line_err(msg: &str) -> (r: Vec<u8>)
    requires
        byte_len("ERR "@ + msg@) + 4 <= usize::MAX,
    ensures
        r@ == encode_utf8(err_packet(msg@)),
{
    let payload = "ERR ".to_owned().concat(msg);
    let n: usize = byte_count(payload.as_str()) + 4;
    let packet = hex_number_text(n as u64, 4).concat(payload.as_str());
    let mut bytes: Vec<u8> = Vec::new();
    bytes.extend_from_slice(packet.as_str().as_bytes());
    assert(bytes@ =~= encode_utf8(err_packet(msg@)));
    bytes
}

/// What git is told when the daemon has refused: first that the connection is live (an empty line),
/// then a protocol-level error, so that git itself shows the daemon's message.
pub fn refusal_bytes(msg: &str) -> (r: Vec<u8>)
    requires
        byte_len("ERR "@ + ("iroh: "@ + msg@)) + 4 <= usize::MAX,
    ensures
        r@ == seq![10u8] + encode_utf8(err_packet("iroh: "@ + msg@)),
{
    let mut bytes: Vec<u8> = Vec::new();
    bytes.push(10);
    let packet = pkt_line_err("iroh: ".to_owned().concat(msg).as_str());
    bytes.extend_from_slice(packet.as_slice());
    assert(bytes@ =~= seq![10u8] + encode_utf8(err_packet("iroh: "@ + msg@)));
    bytes
}

/// The length that begins a packet is that of the whole packet, as git expects, for every message
/// whose packet's length has four hexadecimal digits.
pub proof fn err_packet_counts_itself(msg: Seq<char>)
    requires
        byte_len("ERR "@ + msg) + 4 <= 0xffff,
    ensures
        ({
            let n = byte_len("ERR "@ + msg) + 4;
            &&& encode_utf8(err_packet(msg)).len() == n
            &&& err_packet(msg).take(4) == hex_number(n, 4)
            &&& err_packet(msg).skip(4) == "ERR "@ + msg
        }),
{
    let n = byte_len("ERR "@ + msg) + 4;
    let head = hex_number(n, 4);
    reveal_with_fuel(hex_number, 6);
    assert(n / 16 / 16 / 16 / 16 == 0);
    assert(head.len() == 4);
    assert(head =~= seq![
        hex_digit((n / 16 / 16 / 16 % 16) as int),
        hex_digit((n / 16 / 16 % 16) as int),
        hex_digit((n / 16 % 16) as int),
        hex_digit((n % 16) as int),
    ]);
    assert(is_ascii_chars(head));
    is_ascii_chars_encode_utf8(head);
    utf8_of_concat(head, "ERR "@ + msg);
    assert(err_packet(msg).take(4) =~= head);
    assert(err_packet(msg).skip(4) =~= "ERR "@ + msg);
}

/// A line from git asks for what its words say, however much white space ends it: `connect` and the name
/// of a service asks for that service, `capabilities` for the capabilities, and a blank line for nothing.
/// No other line is answered.
pub proof fn lines_from_git_ask_for_what_they_say(
    line: &str,
    step: Result<HelperStep, Failure>,
    service: Service,
    gap: Seq<char>,
    end: Seq<char>,
)
    requires
        call_ensures(helper_step, (line,), step),
        is_blank(gap),
        is_blank(end),
    ensures
        line@ == "connect "@ + gap + ("git-"@ + service.subcommand()) + end ==> step == Ok::<HelperStep, Failure>(
            HelperStep::Connect(service),
        ),
        line@ == "capabilities"@ + end ==> step == Ok::<HelperStep, Failure>(HelperStep::Capabilities),
        is_blank(line@) <==> step == Ok::<HelperStep, Failure>(HelperStep::Ignore),
        step == Ok::<HelperStep, Failure>(HelperStep::Capabilities) ==> trim_end(line@) == "capabilities"@,
        step matches Ok(HelperStep::Connect(s)) ==> starts_with(line@, "connect "@) && trim(line@.skip(8)) == "git-"@
            + s.subcommand(),
{
    reveal_strlit("connect ");
    reveal_strlit("capabilities");
    reveal_strlit("git-");
    reveal_strlit("upload-pack");
    reveal_strlit("receive-pack");
    let name = "git-"@ + service.subcommand();
    let cmd = trim_end(line@);
    lemma_trim_end_of(line@);
    let e = Seq::<char>::empty();
    if line@ == "connect "@ + gap + name + end {
        let whole = "connect "@ + gap + name;
        assert(whole[0] == 'c');
        assert(whole.last() == name.last());
        trimming_takes_white_space_off(e, whole, end);
        assert(e + whole + end =~= line@);
        assert(e + whole =~= whole);
        assert(cmd.take(8) =~= "connect "@);
        assert(cmd.skip(8) =~= gap + name + e);
        assert(name[0] == 'g');
        trimming_takes_white_space_off(gap, name, e);
        connect_arg_names_subcommand(service);
        assert(cmd != "capabilities"@) by {
            assert(cmd[1] == 'o' && "capabilities"@[1] == 'a');
        }
    }
    if line@ == "capabilities"@ + end {
        let whole = "capabilities"@;
        trimming_takes_white_space_off(e, whole, end);
        assert(e + whole + end =~= line@);
        assert(e + whole =~= whole);
    }
    if let Ok(HelperStep::Connect(s)) = step {
        only_two_services_can_be_asked_for(trim(cmd.skip(8)));
        let rest = line@.skip(cmd.len() as int);
        assert(line@ =~= cmd + rest);
        assert(line@.take(8) =~= cmd.take(8));
        trimming_leaves_the_rest(cmd.skip(8));
        let t = trim(cmd.skip(8));
        let (a, b) = choose|a: Seq<char>, b: Seq<char>|
            #[trigger] is_blank(a) && #[trigger] is_blank(b) && cmd.skip(8) == a + t + b;
        assert(line@.skip(8) =~= cmd.skip(8) + rest);
        assert(a + t + b + rest =~= a + t + (b + rest));
        assert(is_blank(b + rest)) by {
            assert forall|i: int| 0 <= i < (b + rest).len() implies is_white_space(#[trigger] (b + rest)[i]) by {
                if i < b.len() {
                    assert((b + rest)[i] == b[i]);
                } else {
                    assert((b + rest)[i] == rest[i - b.len()]);
                }
            }
        }
        trimming_takes_white_space_off(a, t, b + rest);
    }
}

/// What is left of a text without the white space at its end, and that this is all that is missing.
proof fn lemma_trim_end_of(s: Seq<char>)
    ensures
        trim_end(s).len() <= s.len(),
        s.take(trim_end(s).len() as int) == trim_end(s),
        is_blank(s.skip(trim_end(s).len() as int)),
        trim_end(s).len() == 0 <==> is_blank(s),
    decreases s.len(),
{
    if s.len() > 0 && is_white_space(s.last()) {
        let t = s.drop_last();
        lemma_trim_end_of(t);
        let k = trim_end(t).len() as int;
        assert(s.take(k) =~= t.take(k));
        assert forall|i: int| 0 <= i < s.skip(k).len() implies is_white_space(#[trigger] s.skip(k)[i]) by {
            if i < t.skip(k).len() {
                assert(s.skip(k)[i] == t.skip(k)[i]);
            }
        }
        if is_blank(t) {
            assert forall|i: int| 0 <= i < s.len() implies is_white_space(#[trigger] s[i]) by {
                if i < t.len() {
                    assert(s[i] == t[i]);
                }
            }
        }
        if is_blank(s) {
            assert forall|i: int| 0 <= i < t.len() implies is_white_space(#[trigger] t[i]) by {
                assert(t[i] == s[i]);
            }
        }
    } else {
        assert(s.take(s.len() as int) =~= s);
        if s.len() > 0 {
            assert(!is_white_space(s[s.len() - 1]));
        }
    }
}

/// The length that begins an error packet, read as hexadecimal, is that of the packet in bytes.
pub proof fn the_packet_begins_with_its_length(msg: Seq<char>)
    requires
        byte_len("ERR "@ + msg) + 4 <= 0xffff,
    ensures
        hex_value(err_packet(msg).take(4)) == encode_utf8(err_packet(msg)).len(),
        err_packet(msg).skip(4) == "ERR "@ + msg,
{
    err_packet_counts_itself(msg);
    hex_digits_write_the_number(byte_len("ERR "@ + msg) + 4, 4);
}

/// A client asks the daemon for the repository of its ticket, and for the service that git wants.
pub proof fn a_client_asks_for_its_tickets_repository(ticket: &Ticket, service: Service, q: Request)
    requires
        call_ensures(request_for, (ticket, service), q),
    ensures
        q.version == 0,
        q.repo_id@ == ticket.repo_id@,
        q.service == service,
{
    assert(q@.repo_id == ticket@.repo_id);
}

/// A refusal tells git first that the connection is live, with an empty line, and then the daemon's
/// reason, in a packet that git shows as an error.
pub proof fn refusals_are_shown_by_git(msg: &str, bytes: Vec<u8>)
    requires
        call_ensures(refusal_bytes, (msg,), bytes),
        byte_len("ERR "@ + ("iroh: "@ + msg@)) + 4 <= 0xffff,
    ensures
        bytes@[0] == '\n' as u8,
        exists|packet: Seq<char>|
            {
                &&& bytes@.skip(1) == #[trigger] encode_utf8(packet)
                &&& hex_value(packet.take(4)) == bytes@.len() - 1
                &&& packet.skip(4) == "ERR iroh: "@ + msg@
            },
{
    reveal_strlit("ERR ");
    reveal_strlit("iroh: ");
    reveal_strlit("ERR iroh: ");
    let packet = err_packet("iroh: "@ + msg@);
    the_packet_begins_with_its_length("iroh: "@ + msg@);
    assert(bytes@.skip(1) =~= encode_utf8(packet));
    assert("ERR "@ + ("iroh: "@ + msg@) =~= "ERR iroh: "@ + msg@);
}

/// The version is asked for by `--version`, `-V` or `version`, and by nothing else.
pub proof fn three_flags_ask_for_the_version(arg: &str, asked: bool)
    requires
        call_ensures(is_version_flag, (arg,), asked),
    ensures
        asked <==> arg@ == "--version"@ || arg@ == "-V"@ || arg@ == "version"@,
{
}

/// However long a message is, its packet is the number of bytes in it, in hexadecimal, and then the
/// message behind `ERR `.
pub proof fn every_packet_counts_its_bytes(msg: Seq<char>)
    ensures
        ({
            let n = err_packet(msg).len() - ("ERR "@ + msg).len();
            &&& n >= 4
            &&& hex_value(err_packet(msg).take(n)) == byte_len("ERR "@ + msg) + 4
            &&& err_packet(msg).skip(n) == "ERR "@ + msg
        }),
{
    let payload = "ERR "@ + msg;
    let head = hex_number(byte_len(payload) + 4, 4);
    hex_digits_write_the_number(byte_len(payload) + 4, 4);
    assert(err_packet(msg).take(head.len() as int) =~= head);
    assert(err_packet(msg).skip(head.len() as int) =~= payload);
}

} // verus!
