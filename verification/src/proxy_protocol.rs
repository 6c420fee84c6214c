//! The proxy wire protocols: the SOCKS5 handshake and HTTP CONNECT request a local
//! client sends, and the line protocol between client node and provider node
//! ("AUTH <username> <password>\n", then "<host:port>\n", then raw bytes).
//!
//! The functions here decide; the caller reads and writes the bytes.
use crate::text::{
    decimal, decimal_string, is_white_space, push_char, push_text, split_whitespace_words, substring,
    trim, trim_end, trim_start, trim_text, utf8_lossy, utf8_lossy_text, whitespace_words,
};
use crate::table::KeyedTable;
use vstd::prelude::*;

verus! {

/// Errors of the SOCKS5 handshake.
#[derive(Debug, Clone, Copy, PartialEq, Eq, Structural)]
pub enum Socks5Error {
    /// The greeting does not start with version 5.
    NotSocks5,
    /// The request is not a version 5 CONNECT; carries the command byte.
    UnsupportedCommand(u8),
    /// The request names an unknown address type; carries the type byte.
    UnknownAddressType(u8),
}

/// Where the SOCKS5 handshake stands: what the next read must deliver.
#[derive(Debug, Clone, Copy, PartialEq, Eq, Structural)]
pub enum Socks5State {
    /// Awaiting version and method count (2 bytes).
    Greeting,
    /// The version byte 5 has been read; awaiting the method count (1 byte).
    MethodCount,
    /// Awaiting this many method bytes.
    Methods(u8),
    /// Awaiting the request header: version, command, reserved, address type (4 bytes).
    Request,
    /// Awaiting an IPv4 address and port (6 bytes).
    Ipv4,
    /// Awaiting the length of a domain name (1 byte).
    DomainLength,
    /// Awaiting a domain name of this length and a port.
    Domain(u8),
    /// Awaiting an IPv6 address and port (18 bytes).
    Ipv6,
    /// The handshake has ended.
    Done,
}

/// The destination a SOCKS5 client asks for.
#[derive(Debug, Clone)]
pub enum Socks5Target {
    Ipv4 { addr: Vec<u8>, port: u16 },
    Domain { name: Vec<u8>, port: u16 },
    Ipv6 { addr: Vec<u8>, port: u16 },
}

/// What the caller does after a handshake step.
#[derive(Debug, Clone)]
pub enum Socks5Action {
    /// Read the bytes the new state awaits, then step again.
    Continue,
    /// Write the method selection reply (no authentication), then read the bytes
    /// the new state awaits and step again.
    AcceptMethods,
    /// The handshake is complete: open the tunnel to this destination.
    Connect(Socks5Target),
    /// Fail; when the flag is set, first write the command-not-supported reply.
    Fail(Socks5Error, bool),
}

/// Number of bytes a state awaits.
pub open spec fn socks5_awaits(state: Socks5State) -> nat {
    match state {
        Socks5State::Greeting => 2,
        Socks5State::MethodCount => 1,
        Socks5State::Methods(n) => n as nat,
        Socks5State::Request => 4,
        Socks5State::Ipv4 => 6,
        Socks5State::DomainLength => 1,
        Socks5State::Domain(n) => n as nat + 2,
        Socks5State::Ipv6 => 18,
        Socks5State::Done => 0,
    }
}

/// A port in network byte order.
pub open spec fn port_of(hi: u8, lo: u8) -> nat {
    hi as nat * 256 + lo as nat
}

/// The state after `count` methods have been announced: straight to the request
/// when there are none.
pub open spec fn after_method_count(count: u8) -> (Socks5State, bool) {
    if count == 0 {
        (Socks5State::Request, true)
    } else {
        (Socks5State::Methods(count), false)
    }
}

/// The protocol a local client speaks on the unified proxy port.
#[derive(Debug, Clone, Copy, PartialEq, Eq, Structural)]
pub enum ClientProtocol {
    /// SOCKS5: the first byte was the version byte 5; the handshake goes on
    /// with the method count.
    Socks5,
    /// Anything else is taken for an HTTP CONNECT request starting with that byte.
    HttpConnect,
}

/// Tells the protocol of a unified-port connection by its first byte.
pub fn detect_client_protocol(first_byte: u8) -> (p: ClientProtocol)
    ensures
        p == (if first_byte == 5 {
            ClientProtocol::Socks5
        } else {
            ClientProtocol::HttpConnect
        }),
{
    if first_byte == 5 {
        ClientProtocol::Socks5
    } else {
        ClientProtocol::HttpConnect
    }
}

/// Number of bytes `state` awaits.
pub fn socks5_bytes_awaited(state: Socks5State) -> (n: usize)
    ensures
        n == socks5_awaits(state),
{
    match state {
        Socks5State::Greeting => 2,
        Socks5State::MethodCount => 1,
        Socks5State::Methods(n) => n as usize,
        Socks5State::Request => 4,
        Socks5State::Ipv4 => 6,
        Socks5State::DomainLength => 1,
        Socks5State::Domain(n) => n as usize + 2,
        Socks5State::Ipv6 => 18,
        Socks5State::Done => 0,
    }
}

/// One step of the SOCKS5 handshake: `input` holds exactly the bytes `state`
/// awaits.
///
/// - Greeting `[v, n]`: fails (no reply) unless `v` is 5; otherwise as MethodCount `[n]`.
/// - MethodCount `[n]`: awaits `n` method bytes, or, for `n = 0`, accepts and awaits the request.
/// - Methods: accepts (the methods offered are not examined) and awaits the request.
/// - Request `[v, c, _, t]`: unless `v` is 5 and `c` is 1 (CONNECT), fails with the
///   command-not-supported reply; then address type 1, 3, 4 await an IPv4 address,
///   a domain length, an IPv6 address; any other type fails without a reply.
/// - Ipv4, Domain, Ipv6: the destination, with the port in network byte order.
pub fn socks5_step(state: Socks5State, input: &[u8]) -> (r: (Socks5State, Socks5Action))
    requires
        input@.len() == socks5_awaits(state),
        state != Socks5State::Done,
    ensures
        match state {
            Socks5State::Greeting => if input@[0] != 5 {
                r.0 == Socks5State::Done && (r.1 matches Socks5Action::Fail(e, reply) && e == Socks5Error::NotSocks5 && !reply)
            } else {
                r.0 == after_method_count(input@[1]).0 && (if after_method_count(input@[1]).1 {
                    r.1 is AcceptMethods
                } else {
                    r.1 is Continue
                })
            },
            Socks5State::MethodCount => r.0 == after_method_count(input@[0]).0 && (if after_method_count(input@[0]).1 {
                r.1 is AcceptMethods
            } else {
                r.1 is Continue
            }),
            Socks5State::Methods(_) => r.0 == Socks5State::Request && r.1 is AcceptMethods,
            Socks5State::Request => if input@[0] != 5 || input@[1] != 1 {
                r.0 == Socks5State::Done && (r.1 matches Socks5Action::Fail(e, reply) && e == Socks5Error::UnsupportedCommand(input@[1]) && reply)
            } else if input@[3] == 1 {
                r.0 == Socks5State::Ipv4 && r.1 is Continue
            } else if input@[3] == 3 {
                r.0 == Socks5State::DomainLength && r.1 is Continue
            } else if input@[3] == 4 {
                r.0 == Socks5State::Ipv6 && r.1 is Continue
            } else {
                r.0 == Socks5State::Done && (r.1 matches Socks5Action::Fail(e, reply) && e == Socks5Error::UnknownAddressType(input@[3]) && !reply)
            },
            Socks5State::Ipv4 => r.0 == Socks5State::Done && (r.1 matches Socks5Action::Connect(Socks5Target::Ipv4 { addr, port })
                && addr@ == input@.subrange(0, 4) && port == port_of(input@[4], input@[5])),
            Socks5State::DomainLength => r.0 == Socks5State::Domain(input@[0]) && r.1 is Continue,
            Socks5State::Domain(n) => r.0 == Socks5State::Done && (r.1 matches Socks5Action::Connect(Socks5Target::Domain { name, port })
                && name@ == input@.subrange(0, n as int) && port == port_of(input@[n as int], input@[n + 1])),
            Socks5State::Ipv6 => r.0 == Socks5State::Done && (r.1 matches Socks5Action::Connect(Socks5Target::Ipv6 { addr, port })
                && addr@ == input@.subrange(0, 16) && port == port_of(input@[16], input@[17])),
            Socks5State::Done => false,
        },
{
    match state {
        Socks5State::Greeting => {
            if input[0] != 5 {
                (Socks5State::Done, Socks5Action::Fail(Socks5Error::NotSocks5, false))
            } else {
                method_count_step(input[1])
            }
        },
        Socks5State::MethodCount => method_count_step(input[0]),
        Socks5State::Methods(_) => (Socks5State::Request, Socks5Action::AcceptMethods),
        Socks5State::Request => {
            if input[0] != 5 || input[1] != 1 {
                (Socks5State::Done, Socks5Action::Fail(Socks5Error::UnsupportedCommand(input[1]), true))
            } else if input[3] == 1 {
                (Socks5State::Ipv4, Socks5Action::Continue)
            } else if input[3] == 3 {
                (Socks5State::DomainLength, Socks5Action::Continue)
            } else if input[3] == 4 {
                (Socks5State::Ipv6, Socks5Action::Continue)
            } else {
                (Socks5State::Done, Socks5Action::Fail(Socks5Error::UnknownAddressType(input[3]), false))
            }
        },
        Socks5State::Ipv4 => {
            let addr = slice_bytes(input, 0, 4);
            let port = port_from(input[4], input[5]);
            (Socks5State::Done, Socks5Action::Connect(Socks5Target::Ipv4 { addr, port }))
        },
        Socks5State::DomainLength => (Socks5State::Domain(input[0]), Socks5Action::Continue),
        Socks5State::Domain(n) => {
            let len = n as usize;
            let name = slice_bytes(input, 0, len);
            let port = port_from(input[len], input[len + 1]);
            (Socks5State::Done, Socks5Action::Connect(Socks5Target::Domain { name, port }))
        },
        Socks5State::Ipv6 => {
            let addr = slice_bytes(input, 0, 16);
            let port = port_from(input[16], input[17]);
            (Socks5State::Done, Socks5Action::Connect(Socks5Target::Ipv6 { addr, port }))
        },
        Socks5State::Done => (Socks5State::Done, Socks5Action::Continue),
    }
}

fn method_count_step(count: u8) -> (r: (Socks5State, Socks5Action))
    ensures
        r.0 == after_method_count(count).0,
        after_method_count(count).1 ==> r.1 is AcceptMethods,
        !after_method_count(count).1 ==> r.1 is Continue,
{
    if count == 0 {
        (Socks5State::Request, Socks5Action::AcceptMethods)
    } else {
        (Socks5State::Methods(count), Socks5Action::Continue)
    }
}

fn port_from(hi: u8, lo: u8) -> (p: u16)
    ensures
        p == port_of(hi, lo),
{
    (hi as u16) * 256 + (lo as u16)
}

fn slice_bytes(input: &[u8], from: usize, to: usize) -> (r: Vec<u8>)
    requires
        from <= to <= input@.len(),
    ensures
        r@ == input@.subrange(from as int, to as int),
{
    let mut r: Vec<u8> = Vec::new();
    let mut i: usize = from;
    while i < to
        invariant
            from <= i <= to <= input@.len(),
            r@ == input@.subrange(from as int, i as int),
        decreases to - i,
    {
        r.push(input[i]);
        i = i + 1;
        assert(r@ =~= input@.subrange(from as int, i as int));
    }
    r
}

/// The method selection reply: version 5, no authentication.
pub fn socks5_method_reply() -> (r: Vec<u8>)
    ensures
        r@ == seq![5u8, 0u8],
{
    let r = vec![5u8, 0u8];
    assert(r@ =~= seq![5u8, 0u8]);
    r
}

/// The reply to an unsupported command: version 5, "command not supported",
/// IPv4 address 0.0.0.0, port 0.
pub fn socks5_command_not_supported_reply() -> (r: Vec<u8>)
    ensures
        r@ == seq![5u8, 7u8, 0u8, 1u8, 0u8, 0u8, 0u8, 0u8, 0u8, 0u8],
{
    let r = vec![5u8, 7u8, 0u8, 1u8, 0u8, 0u8, 0u8, 0u8, 0u8, 0u8];
    assert(r@ =~= seq![5u8, 7u8, 0u8, 1u8, 0u8, 0u8, 0u8, 0u8, 0u8, 0u8]);
    r
}

/// The success reply: version 5, "succeeded", bound to 0.0.0.0 port 0.
pub fn socks5_success_reply() -> (r: Vec<u8>)
    ensures
        r@ == seq![5u8, 0u8, 0u8, 1u8, 0u8, 0u8, 0u8, 0u8, 0u8, 0u8],
{
    let r = vec![5u8, 0u8, 0u8, 1u8, 0u8, 0u8, 0u8, 0u8, 0u8, 0u8];
    assert(r@ =~= seq![5u8, 0u8, 0u8, 1u8, 0u8, 0u8, 0u8, 0u8, 0u8, 0u8]);
    r
}

/// "a.b.c.d:port" for an IPv4 destination.
pub open spec fn ipv4_target_text(addr: Seq<u8>, port: nat) -> Seq<char> {
    decimal(addr[0] as nat) + seq!['.'] + decimal(addr[1] as nat) + seq!['.'] + decimal(addr[2] as nat)
        + seq!['.'] + decimal(addr[3] as nat) + seq![':'] + decimal(port)
}

/// "name:port" for a domain destination, the name decoded as lossy UTF-8.
pub open spec fn domain_target_text(name: Seq<u8>, port: nat) -> Seq<char> {
    utf8_lossy_text(name) + seq![':'] + decimal(port)
}

/// The "host:port" text of an IPv4 or domain destination. IPv6 destinations are
/// written with the standard library's address formatting by the caller, so
/// none is returned for them.
pub fn socks5_target_text(target: &Socks5Target) -> (r: Option<String>)
    requires
        target matches Socks5Target::Ipv4 { addr, .. } ==> addr@.len() == 4,
    ensures
        match target {
            Socks5Target::Ipv4 { addr, port } => r matches Some(s) && s@ == ipv4_target_text(addr@, *port as nat),
            Socks5Target::Domain { name, port } => r matches Some(s) && s@ == domain_target_text(name@, *port as nat),
            Socks5Target::Ipv6 { .. } => r is None,
        },
{
    match target {
        Socks5Target::Ipv4 { addr, port } => {
            let mut s = decimal_string(addr[0] as u64);
            push_char(&mut s, '.');
            let a1 = decimal_string(addr[1] as u64);
            push_text(&mut s, a1.as_str());
            push_char(&mut s, '.');
            let a2 = decimal_string(addr[2] as u64);
            push_text(&mut s, a2.as_str());
            push_char(&mut s, '.');
            let a3 = decimal_string(addr[3] as u64);
            push_text(&mut s, a3.as_str());
            push_char(&mut s, ':');
            let p = decimal_string(*port as u64);
            push_text(&mut s, p.as_str());
            proof {
                assert(s@ =~= ipv4_target_text(addr@, *port as nat));
            }
            Some(s)
        },
        Socks5Target::Domain { name, port } => {
            let mut s = utf8_lossy(name.as_slice());
            push_char(&mut s, ':');
            let p = decimal_string(*port as u64);
            push_text(&mut s, p.as_str());
            proof {
                assert(s@ =~= domain_target_text(name@, *port as nat));
            }
            Some(s)
        },
        Socks5Target::Ipv6 { .. } => None,
    }
}

// ---------------------------------------------------------------- HTTP CONNECT

/// Errors of an HTTP CONNECT request.
#[derive(Debug, Clone, Copy, PartialEq, Eq, Structural)]
pub enum HttpConnectError {
    /// The request line has fewer than three words or is not a CONNECT.
    BadRequest,
}

/// The request line is complete once a carriage return read after the first
/// byte is followed by a line feed: the last two of at least three bytes are
/// "\r\n".
pub fn request_line_complete(line: &[u8]) -> (b: bool)
    ensures
        b == (line@.len() >= 3 && line@[line@.len() - 2] == 13u8 && line@[line@.len() - 1] == 10u8),
{
    let n = line.len();
    n >= 3 && line[n - 2] == 13 && line[n - 1] == 10
}

/// The header block is complete once it ends with "\r\n\r\n".
pub fn headers_complete(buf: &[u8]) -> (b: bool)
    ensures
        b == (buf@.len() >= 4 && buf@.subrange(buf@.len() - 4, buf@.len() as int) == seq![13u8, 10u8, 13u8, 10u8]),
{
    let n = buf.len();
    if n < 4 {
        return false;
    }
    let r = buf[n - 4] == 13 && buf[n - 3] == 10 && buf[n - 2] == 13 && buf[n - 1] == 10;
    proof {
        let tail = buf@.subrange(n - 4, n as int);
        if r {
            assert(tail =~= seq![13u8, 10u8, 13u8, 10u8]);
        } else {
            if tail == seq![13u8, 10u8, 13u8, 10u8] {
                assert(tail[0] == buf@[n - 4]);
                assert(tail[1] == buf@[n - 3]);
                assert(tail[2] == buf@[n - 2]);
                assert(tail[3] == buf@[n - 1]);
            }
        }
    }
    r
}

/// The word "CONNECT".
pub open spec fn connect_word() -> Seq<char> {
    seq!['C', 'O', 'N', 'N', 'E', 'C', 'T']
}

/// The destination of an HTTP CONNECT request line: its second word, when the
/// line (decoded as lossy UTF-8) has at least three words and the first is
/// "CONNECT".
pub open spec fn connect_target(line: Seq<u8>) -> Option<Seq<char>> {
    let words = whitespace_words(utf8_lossy_text(line));
    if words.len() >= 3 && words[0] == connect_word() {
        Some(words[1])
    } else {
        None
    }
}

fn is_connect_word(w: &String) -> (b: bool)
    ensures
        b == (w@ == connect_word()),
{
    let s = w.as_str();
    let n = s.unicode_len();
    if n != 7 {
        return false;
    }
    let r = s.get_char(0) == 'C' && s.get_char(1) == 'O' && s.get_char(2) == 'N' && s.get_char(3) == 'N'
        && s.get_char(4) == 'E' && s.get_char(5) == 'C' && s.get_char(6) == 'T';
    proof {
        if r {
            assert(w@ =~= connect_word());
        }
    }
    r
}

/// Parses the request line of an HTTP CONNECT request (see `connect_target`).
pub fn parse_connect_request(line: &[u8]) -> (r: Result<String, HttpConnectError>)
    ensures
        match connect_target(line@) {
            Some(t) => r matches Ok(s) && s@ == t,
            None => r == Err::<String, HttpConnectError>(HttpConnectError::BadRequest),
        },
{
    let text = utf8_lossy(line);
    let parts = split_whitespace_words(text.as_str());
    proof {
        assert(parts@.len() == whitespace_words(text@).len());
    }
    if parts.len() < 3 || !is_connect_word(&parts[0]) {
        proof {
            if parts@.len() >= 3 {
                assert(parts@.map_values(|w: String| w@)[0] == parts@[0]@);
            }
        }
        return Err(HttpConnectError::BadRequest);
    }
    proof {
        assert(parts@.map_values(|w: String| w@)[0] == parts@[0]@);
        assert(parts@.map_values(|w: String| w@)[1] == parts@[1]@);
    }
    Ok(parts[1].clone())
}

/// Reply to a malformed HTTP request.
pub fn http_bad_request_reply() -> (r: &'static str)
    ensures
        r@ == "HTTP/1.1 400 Bad Request\r\n\r\n"@,
{
    "HTTP/1.1 400 Bad Request\r\n\r\n"
}

/// Reply once the tunnel is open.
pub fn http_connection_established_reply() -> (r: &'static str)
    ensures
        r@ == "HTTP/1.1 200 Connection Established\r\n\r\n"@,
{
    "HTTP/1.1 200 Connection Established\r\n\r\n"
}

// ------------------------------------------------------ node-to-provider lines

/// The credentials a client node presents to the provider.
#[derive(Debug, Clone)]
pub struct ProxyCredentials {
    pub username: String,
    pub password: String,
}

/// Errors of the provider side of a proxy stream.
#[derive(Debug, Clone, Copy, PartialEq, Eq, Structural)]
pub enum ProxyStreamError {
    /// The AUTH line names an unknown user or the wrong password.
    AuthFailed,
    /// The AUTH line lacks the space between username and password.
    MalformedAuth,
    /// Credentials are required but the first line is not an AUTH line.
    MissingAuth,
    /// The destination line is empty.
    EmptyTarget,
}

/// What the provider does with the first line of a proxy stream.
#[derive(Debug, Clone)]
pub enum ProviderDecision {
    /// Check these credentials against the allowed ones, then read the destination line.
    CheckCredentials { username: String, password: String },
    /// Read the next line: it holds the destination.
    ReadTargetLine,
    /// The line itself is the destination.
    Target(String),
    /// Refuse the stream.
    Reject(ProxyStreamError),
}

/// "AUTH ".
pub open spec fn auth_prefix() -> Seq<char> {
    seq!['A', 'U', 'T', 'H', ' ']
}

/// Position of the first space in `s`, if any.
pub open spec fn first_space(s: Seq<char>) -> Option<int> {
    if exists|i: int| 0 <= i < s.len() && s[i] == ' ' {
        Some(choose|i: int| 0 <= i < s.len() && s[i] == ' ' && forall|j: int| 0 <= j < i ==> s[j] != ' ')
    } else {
        None
    }
}

/// The provider's reading of a first line (trimmed): an "AUTH <user> <password>"
/// line asks for a credential check when `verify` is set and is otherwise
/// skipped; an AUTH line without the space fails when `verify` is set; any other
/// line fails when `verify` is set and is otherwise the destination, which must
/// not be empty.
pub open spec fn provider_first_line_spec(line: Seq<char>, verify: bool) -> ProviderOutcome {
    let t = trim(line);
    if t.len() >= 5 && t.subrange(0, 5) == auth_prefix() {
        auth_outcome(t.subrange(5, t.len() as int), verify)
    } else if verify {
        ProviderOutcome::Reject(ProxyStreamError::MissingAuth)
    } else if t.len() == 0 {
        ProviderOutcome::Reject(ProxyStreamError::EmptyTarget)
    } else {
        ProviderOutcome::Target(t)
    }
}

/// The reading of what follows "AUTH ": user name up to the first space, password
/// after it.
pub open spec fn auth_outcome(rest: Seq<char>, verify: bool) -> ProviderOutcome {
    match first_space(rest) {
        Some(i) => if verify {
            ProviderOutcome::Check(rest.subrange(0, i), rest.subrange(i + 1, rest.len() as int))
        } else {
            ProviderOutcome::ReadTarget
        },
        None => if verify {
            ProviderOutcome::Reject(ProxyStreamError::MalformedAuth)
        } else {
            ProviderOutcome::ReadTarget
        },
    }
}

/// The meaning of a `ProviderDecision`, over text.
pub enum ProviderOutcome {
    Check(Seq<char>, Seq<char>),
    ReadTarget,
    Target(Seq<char>),
    Reject(ProxyStreamError),
}

/// The meaning of a decision.
pub open spec fn decision_outcome(d: ProviderDecision) -> ProviderOutcome {
    match d {
        ProviderDecision::CheckCredentials { username, password } => ProviderOutcome::Check(username@, password@),
        ProviderDecision::ReadTargetLine => ProviderOutcome::ReadTarget,
        ProviderDecision::Target(t) => ProviderOutcome::Target(t@),
        ProviderDecision::Reject(e) => ProviderOutcome::Reject(e),
    }
}

fn find_space(s: &str) -> (r: Option<usize>)
    ensures
        r is None <==> first_space(s@) is None,
        r matches Some(i) ==> i < s@.len() && first_space(s@) == Some(i as int),
{
    let n = s.unicode_len();
    let mut i: usize = 0;
    while i < n
        invariant
            n == s@.len(),
            i <= n,
            forall|j: int| 0 <= j < i ==> s@[j] != ' ',
        decreases n - i,
    {
        if s.get_char(i) == ' ' {
            proof {
                let k = choose|k: int| 0 <= k < s@.len() && s@[k] == ' ' && forall|j: int| 0 <= j < k ==> s@[j] != ' ';
                assert(s@[i as int] == ' ');
                if k < i {
                    assert(s@[k] != ' ');
                }
                if k > i {
                    assert(s@[i as int] != ' ');
                }
            }
            return Some(i);
        }
        i = i + 1;
    }
    None
}

fn starts_with_auth(t: &str) -> (b: bool)
    ensures
        b == (t@.len() >= 5 && t@.subrange(0, 5) == auth_prefix()),
{
    let n = t.unicode_len();
    if n < 5 {
        return false;
    }
    let b = t.get_char(0) == 'A' && t.get_char(1) == 'U' && t.get_char(2) == 'T' && t.get_char(3) == 'H'
        && t.get_char(4) == ' ';
    proof {
        if b {
            assert(t@.subrange(0, 5) =~= auth_prefix());
        } else if t@.subrange(0, 5) == auth_prefix() {
            assert(t@.subrange(0, 5)[0] == t@[0]);
            assert(t@.subrange(0, 5)[1] == t@[1]);
            assert(t@.subrange(0, 5)[2] == t@[2]);
            assert(t@.subrange(0, 5)[3] == t@[3]);
            assert(t@.subrange(0, 5)[4] == t@[4]);
        }
    }
    b
}

fn auth_decision(rs: &str, verify: bool) -> (d: ProviderDecision)
    ensures
        decision_outcome(d) == auth_outcome(rs@, verify),
{
    match find_space(rs) {
        Some(i) => {
            if verify {
                let rn = rs.unicode_len();
                let username = substring(rs, 0, i);
                let password = substring(rs, i + 1, rn);
                ProviderDecision::CheckCredentials { username, password }
            } else {
                ProviderDecision::ReadTargetLine
            }
        },
        None => {
            if verify {
                ProviderDecision::Reject(ProxyStreamError::MalformedAuth)
            } else {
                ProviderDecision::ReadTargetLine
            }
        },
    }
}

/// Decides on the first line of a proxy stream; `verify` says whether credentials
/// are required (see `provider_first_line_spec`).
pub fn provider_first_line(line: &str, verify: bool) -> (d: ProviderDecision)
    ensures
        decision_outcome(d) == provider_first_line_spec(line@, verify),
{
    let t = trim_text(line);
    let ts = t.as_str();
    if starts_with_auth(ts) {
        let n = ts.unicode_len();
        let rest = substring(ts, 5, n);
        auth_decision(rest.as_str(), verify)
    } else if verify {
        ProviderDecision::Reject(ProxyStreamError::MissingAuth)
    } else if ts.unicode_len() == 0 {
        ProviderDecision::Reject(ProxyStreamError::EmptyTarget)
    } else {
        ProviderDecision::Target(t)
    }
}

/// Checks a password against the one expected for the user (none when the user
/// is unknown).
pub fn provider_check_password(password: &String, expected: Option<&String>) -> (r: Result<(), ProxyStreamError>)
    ensures
        r is Ok <==> (expected matches Some(e) && e@ == password@),
        r is Err ==> r == Err::<(), ProxyStreamError>(ProxyStreamError::AuthFailed),
{
    match expected {
        Some(e) => {
            if *e == *password {
                Ok(())
            } else {
                Err(ProxyStreamError::AuthFailed)
            }
        },
        None => Err(ProxyStreamError::AuthFailed),
    }
}

/// Checks credentials against a table of allowed username/password pairs.
pub fn provider_check_credentials(username: &String, password: &String, allowed: &KeyedTable<String>) -> (r: Result<(), ProxyStreamError>)
    requires
        allowed.wf(),
    ensures
        r is Ok <==> (allowed@.contains_key(username@) && allowed@[username@]@ == password@),
        r is Err ==> r == Err::<(), ProxyStreamError>(ProxyStreamError::AuthFailed),
{
    provider_check_password(password, allowed.get(username))
}

/// The destination line, trimmed; it must not be empty.
pub fn provider_target_line(line: &str) -> (r: Result<String, ProxyStreamError>)
    ensures
        trim(line@).len() == 0 ==> r == Err::<String, ProxyStreamError>(ProxyStreamError::EmptyTarget),
        trim(line@).len() > 0 ==> (r matches Ok(t) && t@ == trim(line@)),
{
    let t = trim_text(line);
    if t.as_str().unicode_len() == 0 {
        Err(ProxyStreamError::EmptyTarget)
    } else {
        Ok(t)
    }
}

/// "AUTH <username> <password>\n".
pub open spec fn auth_line_text(username: Seq<char>, password: Seq<char>) -> Seq<char> {
    auth_prefix() + username + seq![' '] + password + seq!['\n']
}

/// The credentials line a client node sends first.
pub fn auth_line(username: &str, password: &str) -> (r: String)
    ensures
        r@ == auth_line_text(username@, password@),
{
    let mut s = String::new();
    push_char(&mut s, 'A');
    push_char(&mut s, 'U');
    push_char(&mut s, 'T');
    push_char(&mut s, 'H');
    push_char(&mut s, ' ');
    push_text(&mut s, username);
    push_char(&mut s, ' ');
    push_text(&mut s, password);
    push_char(&mut s, '\n');
    proof {
        assert(s@ =~= auth_line_text(username@, password@));
    }
    s
}

/// The destination line a client node sends: "<host:port>\n".
pub fn target_line(target: &str) -> (r: String)
    ensures
        r@ == target@ + seq!['\n'],
{
    let mut s = String::new();
    push_text(&mut s, target);
    push_char(&mut s, '\n');
    s
}

proof fn lemma_trim_no_outer_space(s: Seq<char>)
    requires
        s.len() > 0,
        !is_white_space(s[0]),
        !is_white_space(s.last()),
    ensures
        trim(s) == s,
{
    assert(trim_start(s) == s);
}

proof fn lemma_trim_newline(s: Seq<char>)
    requires
        s.len() > 0,
        !is_white_space(s[0]),
        !is_white_space(s.last()),
    ensures
        trim(s + seq!['\n']) == s,
{
    let t = s + seq!['\n'];
    assert(t[0] == s[0]);
    assert(trim_start(t) == t);
    assert(is_white_space(t.last()));
    assert(t.drop_last() =~= s);
    assert(trim_end(t) == trim_end(s));
}

/// What a client node sends is what the provider accepts: the credentials line
/// built by `auth_line` is read back as the same username and password (when
/// the username has no space and the password is not empty and does not end in
/// whitespace), and the destination line built by `target_line` is read back as
/// the destination (when it is not empty and has no surrounding whitespace).
pub proof fn lemma_client_lines_accepted(username: Seq<char>, password: Seq<char>, target: Seq<char>)
    requires
        forall|i: int| 0 <= i < username.len() ==> username[i] != ' ',
        password.len() > 0,
        !is_white_space(password.last()),
        target.len() > 0,
        !is_white_space(target[0]),
        !is_white_space(target.last()),
    ensures
        provider_first_line_spec(auth_line_text(username, password), true) == ProviderOutcome::Check(username, password),
        provider_first_line_spec(auth_line_text(username, password), false) == ProviderOutcome::ReadTarget,
        trim(target + seq!['\n']) == target,
{
    let body = auth_prefix() + username + seq![' '] + password;
    assert(auth_line_text(username, password) =~= body + seq!['\n']);
    assert(body[0] == 'A');
    assert(body.last() == password.last());
    lemma_trim_newline(body);
    let t = trim(auth_line_text(username, password));
    assert(t == body);
    assert(t.subrange(0, 5) =~= auth_prefix());
    let rest = t.subrange(5, t.len() as int);
    assert(rest =~= username + seq![' '] + password);
    let u = username.len() as int;
    assert(rest[u] == ' ');
    assert(forall|j: int| 0 <= j < u ==> rest[j] == username[j]);
    let i = choose|i: int| 0 <= i < rest.len() && rest[i] == ' ' && forall|j: int| 0 <= j < i ==> rest[j] != ' ';
    assert(i == u) by {
        if i < u {
            assert(rest[i] == username[i]);
        }
        if i > u {
            assert(rest[u] != ' ');
        }
    }
    assert(first_space(rest) == Some(u));
    assert(rest.subrange(0, u) =~= username);
    assert(rest.subrange(u + 1, rest.len() as int) =~= password);
    lemma_trim_newline(target);
}

} // verus!
