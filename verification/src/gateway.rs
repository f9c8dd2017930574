//! The gateway that agents' hooks talk to: who is let in, what a request asks
//! for, and what events and requests for popups lead to.

use vstd::prelude::*;
use crate::env::Reading;
use crate::http;
use crate::http::decode_lossy;
use crate::interaction;
use crate::interaction::Decision;
use crate::json;
use crate::json::{get, parse_stored, print_compact, print_pretty, text_field, Json, JsonView};
use crate::payload;
use crate::payload::{normalize_interaction, source_label, timeout_of, truncate_str};
use crate::random::random_bytes;
use crate::session;
use crate::state;
use crate::state::{Activity, GatewayState, TimerState, TimerView};
use crate::text;
use crate::text::{cat2, cat3, chars_of, decimal, find_char, has_prefix, hex, parse_number, same};
use crate::text::{text_between, to_lower, trim};
use crate::time;
use crate::time::iso8601_ms;

verus! {

broadcast use crate::json::group_json;

/// The version of what the gateway speaks.
pub const GATEWAY_VERSION: u32 = 2;

/// The port that the gateway listens on first.
pub const DEFAULT_PORT: u16 = 5277;

/// How many ports are tried, one after the other.
pub const PORT_ATTEMPTS: u16 = 20;

/// The longest body that a request may have, in bytes.
pub const BODY_LIMIT: usize = 262_144;

/// How long after a break was suggested none is suggested again.
pub const BREAK_SUGGEST_COOLDOWN_MS: i64 = 600_000;

/// How long the suggestion of a break waits for an answer.
pub const BREAK_SUGGEST_TIMEOUT_MS: u64 = 120_000;

// ---------------------------------------------------------------------------
// Starting
// ---------------------------------------------------------------------------

/// The port as others are told it: none where the gateway does not run.
pub fn port(listening: u16) -> (r: Option<u16>)
    ensures
        r == (if listening == 0 {
            None
        } else {
            Some(listening)
        }),
{
    if listening == 0 {
        None
    } else {
        Some(listening)
    }
}

/// Whether the gateway runs.
pub fn is_running(listening: u16) -> (r: bool)
    ensures
        r == (listening != 0),
{
    listening != 0
}

/// The port that is tried first: a 16-bit number that the environment gives, else
/// the usual one.
pub open spec fn base_of(set: Option<Seq<char>>) -> int {
    match set {
        Some(s) => match text::number_of(s, 10, 65535) {
            Some(n) => n,
            None => DEFAULT_PORT as int,
        },
        None => DEFAULT_PORT as int,
    }
}

/// The ports to try, in order: those from the first on that there are.
pub fn port_candidates(set: &Option<String>) -> (r: Vec<u16>)
    ensures
        r@.len() == (if base_of(interaction::opt_text(*set)) + PORT_ATTEMPTS <= 65536 {
            PORT_ATTEMPTS as int
        } else {
            65536 - base_of(interaction::opt_text(*set))
        }),
        forall|i: int|
            0 <= i < r@.len() ==> #[trigger] r@[i] == base_of(interaction::opt_text(*set)) + i,
{
    let base: u16 = match set {
        Some(s) => match parse_number(s.as_str(), 10, 65535) {
            Some(n) => n as u16,
            None => DEFAULT_PORT,
        },
        None => DEFAULT_PORT,
    };
    let n: u32 = if base as u32 + PORT_ATTEMPTS as u32 <= 65536 {
        PORT_ATTEMPTS as u32
    } else {
        65536 - base as u32
    };
    let mut r: Vec<u16> = Vec::new();
    let mut i: u32 = 0;
    while i < n
        invariant
            i <= n,
            base + n <= 65536,
            r@.len() == i,
            forall|k: int| 0 <= k < i ==> #[trigger] r@[k] == base + k,
        decreases n - i,
    {
        r.push((base as u32 + i) as u16);
        i += 1;
    }
    r
}

/// A token of `bytes` random bytes in hexadecimal; empty where the system has no
/// random bytes, and then the gateway does not start.
pub fn random_hex(bytes: usize) -> (r: String)
    requires
        2 * bytes <= isize::MAX,
    ensures
        r@.len() == 0 || exists|b: Seq<u8>| b.len() == bytes && r@ == #[trigger] text::hex_text(b),
        r@.len() == 0 || r@.len() == 2 * bytes,
{
    let read = random_bytes(bytes);
    proof {
        if let Some(b) = interaction::opt_bytes(read) {
            text::lemma_hex_len(b);
        }
    }
    token_from(read)
}

/// The token that random bytes make: their hexadecimal digits, and the empty one
/// where there are none.
pub open spec fn token_text(read: Option<Seq<u8>>) -> Seq<char> {
    match read {
        Some(b) => text::hex_text(b),
        None => Seq::empty(),
    }
}

/// The token that random bytes make. `read` is none where the system has no random
/// bytes.
pub fn token_from(read: Option<Vec<u8>>) -> (r: String)
    ensures
        r@ == token_text(interaction::opt_bytes(read)),
{
    match read {
        Some(b) => hex(&b),
        None => String::new(),
    }
}

/// What is said where none of the ports can be listened on. `last` is the error of the
/// last.
pub fn listen_error(candidates: &Vec<u16>, last: &str) -> (r: String)
    requires
        candidates@.len() > 0,
    ensures
        r@ == "端口 "@ + text::int_text(candidates@[0] as int) + "~"@ + text::int_text(
            candidates@.last() as int,
        ) + " 均无法监听："@ + last@,
{
    let mut r = cat3("端口 ", decimal(candidates[0] as u64).as_str(), "~");
    r.append(decimal(candidates[candidates.len() - 1] as u64).as_str());
    r.append(" 均无法监听：");
    r.append(last);
    r
}

/// What the discovery file says.
pub open spec fn discovery(port: int, token: Seq<char>, pid: int, now: int) -> JsonView {
    JsonView::object().with("port"@, JsonView::Int(port)).with("token"@, JsonView::Str(token)).with(
        "pid"@,
        JsonView::Int(pid),
    ).with("version"@, JsonView::Int(GATEWAY_VERSION as int)).with(
        "startedAt"@,
        JsonView::Str(time::iso_text(now)),
    )
}

/// What the discovery file says; none without a token.
pub fn discovery_body(port: u16, token: &str, pid: u32, now: i64) -> (r: Option<Json>)
    ensures
        session::owned_view(r) == (if token@.len() == 0 {
            None
        } else {
            Some(discovery(port as int, token@, pid as int, now as int))
        }),
{
    if token.is_empty() {
        return None;
    }
    Some(
        Json::object().with("port", Json::PosInt(port as u64)).with("token", Json::text(token)).with(
            "pid",
            Json::PosInt(pid as u64),
        ).with("version", Json::PosInt(GATEWAY_VERSION as u64)).with(
            "startedAt",
            Json::Str(iso8601_ms(now)),
        ),
    )
}

proof fn lemma_discovery_reads_back(port: int, token: Seq<char>, pid: int, now: int)
    requires
        0 < port <= u16::MAX,
        0 <= pid <= u32::MAX,
        token.len() > 0,
    ensures
        json::plain(discovery(port, token, pid, now), 1),
        http::described_gateway(discovery(port, token, pid, now)) == Some(
            http::GatewayView { port, token },
        ),
{
    broadcast use crate::json::group_fields;

    reveal_strlit("port");
    reveal_strlit("token");
    reveal_strlit("pid");
    reveal_strlit("version");
    reveal_strlit("startedAt");
    assert("port"@.len() == 4 && "token"@.len() == 5 && "pid"@.len() == 3);
    assert("version"@.len() == 7 && "startedAt"@.len() == 9);
    let o = JsonView::object();
    assert(json::plain(o, 1));
    let a = o.with("port"@, JsonView::Int(port));
    json::lemma_plain_with(o, "port"@, JsonView::Int(port), 1);
    let b = a.with("token"@, JsonView::Str(token));
    json::lemma_plain_with(a, "token"@, JsonView::Str(token), 1);
    let c = b.with("pid"@, JsonView::Int(pid));
    json::lemma_plain_with(b, "pid"@, JsonView::Int(pid), 1);
    let d = c.with("version"@, JsonView::Int(GATEWAY_VERSION as int));
    json::lemma_plain_with(c, "version"@, JsonView::Int(GATEWAY_VERSION as int), 1);
    json::lemma_plain_with(d, "startedAt"@, JsonView::Str(time::iso_text(now)), 1);
    let keys: Seq<&str> = seq!["token"];
    assert(keys[0]@ == "token"@);
}

/// The text of the discovery file; none without a token. Whoever reads the file
/// finds the gateway's port and token in it.
pub fn write_discovery(port: u16, token: &str, pid: u32, now: i64) -> (r: Option<String>)
    ensures
        r matches Some(t) ==> port > 0 ==> http::first_described(http::readable(seq![t@])) == Some(
            http::GatewayView { port: port as int, token: token@ },
        ),
        interaction::opt_text(r) == (if token@.len() == 0 {
            None
        } else {
            Some(json::pretty(discovery(port as int, token@, pid as int, now as int)))
        }),
{
    match discovery_body(port, token, pid, now) {
        Some(b) => {
            let t = print_pretty(&b);
            proof {
                if port > 0 {
                    lemma_discovery_reads_back(port as int, token@, pid as int, now as int);
                    json::lemma_plain_deeper(b@, 1, json::MAX_DEPTH as int);
                    assert(seq![t@].drop_last() =~= Seq::empty());
                    reveal_with_fuel(http::readable, 2);
                    assert(http::readable(seq![t@]) =~= seq![b@]);
                }
            }
            Some(t)
        },
        None => None,
    }
}

// ---------------------------------------------------------------------------
// Who is let in
// ---------------------------------------------------------------------------

/// Whether all characters are decimal digits.
pub open spec fn all_digits(s: Seq<char>) -> bool {
    forall|i: int| 0 <= i < s.len() ==> '0' <= #[trigger] s[i] <= '9'
}

/// What may follow a host's name: nothing, or a colon and a port in digits.
pub open spec fn port_or_nothing(tail: Seq<char>) -> bool {
    tail.len() == 0 || (tail.len() > 1 && tail[0] == ':' && all_digits(tail.skip(1)))
}

/// The place where the name that a host header gives ends: after its closing
/// bracket where it begins with a bracket, else before the first colon. None where
/// the bracket is not closed.
pub open spec fn name_end(h: Seq<char>) -> Option<int> {
    if h.len() > 0 && h[0] == '[' {
        if text::index_of(h, ']') < h.len() {
            Some(text::index_of(h, ']') + 1)
        } else {
            None
        }
    } else {
        Some(text::index_of(h, ':'))
    }
}

/// The name that a host header gives, with the brackets where it has some. None
/// where the header is malformed.
pub open spec fn host_name(h: Seq<char>) -> Option<Seq<char>> {
    match name_end(h) {
        Some(k) if port_or_nothing(h.skip(k)) => Some(h.take(k)),
        _ => None,
    }
}

/// Whether a host header names this machine, alone or with a port. Only the
/// address of version 6 stands in brackets, and only there.
pub open spec fn loopback(host: Seq<char>) -> bool {
    match host_name(text::lowered(text::trimmed(host))) {
        Some(n) => n == "127.0.0.1"@ || n == "localhost"@ || n == "[::1]"@,
        None => false,
    }
}

fn digits_from(v: &Vec<char>, from: usize) -> (r: bool)
    requires
        from <= v@.len(),
    ensures
        r == all_digits(v@.skip(from as int)),
{
    let mut i: usize = from;
    while i < v.len()
        invariant
            from <= i <= v@.len(),
            forall|k: int| from <= k < i ==> '0' <= #[trigger] v@[k] <= '9',
        decreases v.len() - i,
    {
        if !('0' <= v[i] && v[i] <= '9') {
            assert(v@.skip(from as int)[i - from] == v@[i as int]);
            return false;
        }
        i += 1;
    }
    assert forall|k: int| 0 <= k < v@.skip(from as int).len() implies '0' <= #[trigger] v@.skip(
        from as int,
    )[k] <= '9' by {
        assert(v@.skip(from as int)[k] == v@[from + k]);
    }
    true
}

fn is_port_or_nothing(v: &Vec<char>, from: usize) -> (r: bool)
    requires
        from <= v@.len(),
    ensures
        r == port_or_nothing(v@.skip(from as int)),
{
    if from == v.len() {
        return true;
    }
    let ghost tail = v@.skip(from as int);
    assert(tail[0] == v@[from as int]);
    if v[from] != ':' || from + 1 == v.len() {
        return false;
    }
    assert(tail.skip(1) =~= v@.skip(from as int + 1));
    digits_from(v, from + 1)
}

/// Whether a host header names this machine, alone or with a port.
pub fn host_is_loopback(host: &str) -> (r: bool)
    ensures
        r == loopback(host@),
{
    let h = chars_of(to_lower(trim(host).as_str()).as_str());
    proof {
        text::lemma_index_of(h@, ']');
        text::lemma_index_of(h@, ':');
    }
    let end: usize = if h.len() > 0 && h[0] == '[' {
        let k: usize = find_char(&h, ']');
        if k >= h.len() {
            return false;
        }
        k + 1
    } else {
        find_char(&h, ':')
    };
    if !is_port_or_nothing(&h, end) {
        return false;
    }
    let name = text_between(&h, 0, end);
    assert(h@.subrange(0, end as int) =~= h@.take(end as int));
    same(name.as_str(), "127.0.0.1") || same(name.as_str(), "localhost") || same(
        name.as_str(),
        "[::1]",
    )
}

/// The way a request asks.
#[derive(Clone, Copy, PartialEq, Eq, Structural, Debug)]
pub enum Verb {
    Get,
    Post,
    Other,
}

/// A request's head.
pub struct Request {
    pub verb: Verb,
    pub url: String,
    /// The headers, by name and value, in order.
    pub headers: Vec<(String, String)>,
}

/// The model of a [`Request`].
pub struct RequestView {
    pub verb: Verb,
    pub url: Seq<char>,
    pub headers: Seq<(Seq<char>, Seq<char>)>,
}

impl View for Request {
    type V = RequestView;

    open spec fn view(&self) -> RequestView {
        RequestView {
            verb: self.verb,
            url: self.url@,
            headers: self.headers@.map_values(|h: (String, String)| (h.0@, h.1@)),
        }
    }
}

/// Whether a header has this name, in any case.
pub open spec fn is_named(h: (Seq<char>, Seq<char>), name: Seq<char>) -> bool {
    text::lowered(h.0) == name
}

/// Whether a request is meant for this machine: it has a host header, and every
/// one of them names this machine.
pub open spec fn host_allowed(headers: Seq<(Seq<char>, Seq<char>)>) -> bool {
    &&& exists|i: int| 0 <= i < headers.len() && is_named(#[trigger] headers[i], "host"@)
    &&& forall|i: int|
        0 <= i < headers.len() && is_named(#[trigger] headers[i], "host"@) ==> loopback(
            headers[i].1,
        )
}

/// Whether a request is meant for this machine.
pub fn host_ok(req: &Request) -> (r: bool)
    ensures
        r == host_allowed(req@.headers),
{
    let mut seen = false;
    let mut i: usize = 0;
    let ghost hs = req@.headers;
    let ghost mut at: int = 0;
    while i < req.headers.len()
        invariant
            i <= req.headers@.len(),
            hs == req@.headers,
            seen ==> 0 <= at < i && is_named(hs[at], "host"@),
            !seen ==> forall|k: int| 0 <= k < i ==> !is_named(#[trigger] hs[k], "host"@),
            forall|k: int|
                0 <= k < i && is_named(#[trigger] hs[k], "host"@) ==> loopback(hs[k].1),
        decreases req.headers.len() - i,
    {
        assert(hs[i as int] == (req.headers@[i as int].0@, req.headers@[i as int].1@));
        if same(to_lower(req.headers[i].0.as_str()).as_str(), "host") {
            if !host_is_loopback(req.headers[i].1.as_str()) {
                return false;
            }
            seen = true;
            proof {
                at = i as int;
            }
        }
        i += 1;
    }
    seen
}

/// The value of the first header with this name.
pub open spec fn first_header(headers: Seq<(Seq<char>, Seq<char>)>, name: Seq<char>) -> Option<
    Seq<char>,
>
    decreases headers.len(),
{
    if headers.len() == 0 {
        None
    } else if is_named(headers[0], name) {
        Some(headers[0].1)
    } else {
        first_header(headers.drop_first(), name)
    }
}

/// The value of the first header with this name, which is given in small letters.
pub fn header_value(req: &Request, name: &str) -> (r: Option<String>)
    ensures
        interaction::opt_text(r) == first_header(req@.headers, name@),
{
    let mut i: usize = 0;
    let ghost hs = req@.headers;
    assert(hs.skip(0) =~= hs);
    while i < req.headers.len()
        invariant
            i <= req.headers@.len(),
            hs == req@.headers,
            first_header(hs, name@) == first_header(hs.skip(i as int), name@),
        decreases req.headers.len() - i,
    {
        assert(hs.skip(i as int).drop_first() =~= hs.skip(i as int + 1));
        assert(hs.skip(i as int)[0] == (req.headers@[i as int].0@, req.headers@[i as int].1@));
        if same(to_lower(req.headers[i].0.as_str()).as_str(), name) {
            return Some(req.headers[i].1.clone());
        }
        i += 1;
    }
    None
}

/// The token that an authorization header bears.
pub open spec fn bearer(value: Seq<char>) -> Option<Seq<char>> {
    if text::starts_with(value, "Bearer "@) || text::starts_with(value, "bearer "@) {
        Some(text::trimmed(value.skip(7)))
    } else {
        None
    }
}

/// Whether a request bears the token. Nobody does where there is no token.
pub open spec fn has_token(headers: Seq<(Seq<char>, Seq<char>)>, token: Seq<char>) -> bool {
    match first_header(headers, "authorization"@) {
        Some(v) => token.len() > 0 && bearer(v) == Some(token),
        None => false,
    }
}

/// Whether two lists of bytes are the same. Every pair of bytes is looked at
/// whatever the ones before it were.
pub fn constant_time_eq(a: &[u8], b: &[u8]) -> (r: bool)
    ensures
        r == (a@ == b@),
{
    if a.len() != b.len() {
        return false;
    }
    let mut diff: u8 = 0;
    let mut i: usize = 0;
    while i < a.len()
        invariant
            i <= a@.len(),
            a@.len() == b@.len(),
            diff == 0 <==> forall|k: int| 0 <= k < i ==> #[trigger] a@[k] == b@[k],
        decreases a.len() - i,
    {
        let (x, y): (u8, u8) = (a[i], b[i]);
        assert((diff | (x ^ y)) == 0 <==> (diff == 0 && x == y)) by (bit_vector);
        diff = diff | (x ^ y);
        i += 1;
    }
    proof {
        if diff == 0 {
            assert(a@ =~= b@);
        }
    }
    diff == 0
}

/// Whether a request bears the token.
pub fn authorized(req: &Request, token: &str) -> (r: bool)
    ensures
        r == has_token(req@.headers, token@),
{
    let value = match header_value(req, "authorization") {
        Some(v) => v,
        None => return false,
    };
    if !(has_prefix(value.as_str(), "Bearer ") || has_prefix(value.as_str(), "bearer ")) {
        return false;
    }
    proof {
        reveal_strlit("Bearer ");
        reveal_strlit("bearer ");
        assert("Bearer "@.len() == 7 && "bearer "@.len() == 7);
    }
    if token.is_empty() {
        return false;
    }
    let v = chars_of(value.as_str());
    let rest = text_between(&v, 7, v.len());
    assert(v@.subrange(7, v@.len() as int) =~= value@.skip(7));
    let given = trim(rest.as_str());
    proof {
        vstd::utf8::encode_utf8_decode_utf8(given@);
        vstd::utf8::encode_utf8_decode_utf8(token@);
    }
    constant_time_eq(given.as_str().as_bytes(), token.as_bytes())
}

// ---------------------------------------------------------------------------
// What a request asks for
// ---------------------------------------------------------------------------

/// A reply to a request.
pub struct Answer {
    pub code: u16,
    pub body: Json,
}

/// The model of an [`Answer`].
pub struct AnswerView {
    pub code: int,
    pub body: JsonView,
}

impl View for Answer {
    type V = AnswerView;

    open spec fn view(&self) -> AnswerView {
        AnswerView { code: self.code as int, body: self.body@ }
    }
}

/// What a request with a body asks for.
#[derive(Clone, Copy, PartialEq, Eq, Structural, Debug)]
pub enum Endpoint {
    Notify,
    Event,
    Confirm,
    Interaction,
    Timer,
}

/// What a request leads to.
pub enum Routed {
    /// It is answered at once.
    Reply(Answer),
    /// It asks for the state.
    Status,
    /// Its body is read.
    Body(Endpoint),
}

/// The model of a [`Routed`].
pub enum RoutedView {
    Reply(AnswerView),
    Status,
    Body(Endpoint),
}

impl View for Routed {
    type V = RoutedView;

    open spec fn view(&self) -> RoutedView {
        match *self {
            Routed::Reply(a) => RoutedView::Reply(a@),
            Routed::Status => RoutedView::Status,
            Routed::Body(e) => RoutedView::Body(e),
        }
    }
}

/// An answer that says what was wrong.
pub open spec fn refusal(code: int, error: Seq<char>) -> AnswerView {
    AnswerView {
        code,
        body: JsonView::object().with("ok"@, JsonView::Bool(false)).with(
            "error"@,
            JsonView::Str(error),
        ),
    }
}

fn refuse(code: u16, error: &str) -> (r: Answer)
    ensures
        r@ == refusal(code as int, error@),
{
    Answer {
        code,
        body: Json::object().with("ok", Json::Bool(false)).with("error", Json::text(error)),
    }
}

/// The answer that all went well.
pub open spec fn fine() -> AnswerView {
    AnswerView { code: 200, body: JsonView::object().with("ok"@, JsonView::Bool(true)) }
}

fn all_fine() -> (r: Answer)
    ensures
        r@ == fine(),
{
    Answer { code: 200, body: Json::object().with("ok", Json::Bool(true)) }
}

/// The answer that the gateway is alive, which says nothing else.
pub open spec fn alive() -> AnswerView {
    AnswerView {
        code: 200,
        body: JsonView::object().with("ok"@, JsonView::Bool(true)).with(
            "app"@,
            JsonView::Str("pomodoro-fluent"@),
        ).with("gateway"@, JsonView::Int(GATEWAY_VERSION as int)),
    }
}

/// The path of an address: what comes before a question mark.
pub open spec fn path_of(url: Seq<char>) -> Seq<char> {
    url.take(text::index_of(url, '?'))
}

/// What is asked for at a path.
pub open spec fn endpoint_of(path: Seq<char>) -> Option<Endpoint> {
    if path == "/api/notify"@ {
        Some(Endpoint::Notify)
    } else if path == "/api/event"@ {
        Some(Endpoint::Event)
    } else if path == "/api/confirm"@ {
        Some(Endpoint::Confirm)
    } else if path == "/api/interaction"@ {
        Some(Endpoint::Interaction)
    } else if path == "/api/timer"@ {
        Some(Endpoint::Timer)
    } else {
        None
    }
}

/// What a request leads to: whether the gateway is alive is told to everyone, all
/// else only to those that mean this machine and bear the token.
pub open spec fn routed(req: RequestView, token: Seq<char>) -> RoutedView {
    let path = path_of(req.url);
    if req.verb == Verb::Get && path == "/health"@ {
        RoutedView::Reply(alive())
    } else if !host_allowed(req.headers) {
        RoutedView::Reply(refusal(403, "forbidden host"@))
    } else if !has_token(req.headers, token) {
        RoutedView::Reply(refusal(401, "unauthorized"@))
    } else if req.verb == Verb::Get && path == "/api/status"@ {
        RoutedView::Status
    } else if req.verb == Verb::Post && endpoint_of(path) is Some {
        RoutedView::Body(endpoint_of(path)->0)
    } else {
        RoutedView::Reply(refusal(404, "not found"@))
    }
}

fn read_endpoint(path: &str) -> (r: Option<Endpoint>)
    ensures
        r == endpoint_of(path@),
{
    if same(path, "/api/notify") {
        Some(Endpoint::Notify)
    } else if same(path, "/api/event") {
        Some(Endpoint::Event)
    } else if same(path, "/api/confirm") {
        Some(Endpoint::Confirm)
    } else if same(path, "/api/interaction") {
        Some(Endpoint::Interaction)
    } else if same(path, "/api/timer") {
        Some(Endpoint::Timer)
    } else {
        None
    }
}

/// What a request leads to.
pub fn handle_request(req: &Request, token: &str) -> (r: Routed)
    ensures
        r@ == routed(req@, token@),
{
    let url = chars_of(req.url.as_str());
    proof {
        text::lemma_index_of(url@, '?');
    }
    let k: usize = find_char(&url, '?');
    let path = text_between(&url, 0, k);
    assert(url@.subrange(0, k as int) =~= url@.take(k as int));
    if req.verb == Verb::Get && same(path.as_str(), "/health") {
        return Routed::Reply(
            Answer {
                code: 200,
                body: Json::object().with("ok", Json::Bool(true)).with(
                    "app",
                    Json::text("pomodoro-fluent"),
                ).with("gateway", Json::PosInt(GATEWAY_VERSION as u64)),
            },
        );
    }
    if !host_ok(req) {
        return Routed::Reply(refuse(403, "forbidden host"));
    }
    if !authorized(req, token) {
        return Routed::Reply(refuse(401, "unauthorized"));
    }
    if req.verb == Verb::Get && same(path.as_str(), "/api/status") {
        return Routed::Status;
    }
    if req.verb == Verb::Post {
        if let Some(e) = read_endpoint(path.as_str()) {
            return Routed::Body(e);
        }
    }
    Routed::Reply(refuse(404, "not found"))
}

/// The text of a body that was read, or the answer where it could not be read or
/// is too long.
pub open spec fn body_text(read: Option<Seq<u8>>) -> Result<Seq<char>, AnswerView> {
    match read {
        None => Err(refusal(400, "read error"@)),
        Some(b) => if b.len() > BODY_LIMIT {
            Err(refusal(413, "body too large"@))
        } else {
            Ok(http::lossy_text(b))
        },
    }
}

/// The value of a body: nothing counts as the object without members.
pub open spec fn body_value(raw: Seq<char>) -> Result<JsonView, AnswerView> {
    if text::trimmed(raw).len() == 0 {
        Ok(JsonView::object())
    } else {
        match json::parsed(raw) {
            Some(v) => Ok(v),
            None => Err(refusal(400, "invalid json"@)),
        }
    }
}

/// The model of a value or an answer.
pub open spec fn value_view(r: Result<Json, Answer>) -> Result<JsonView, AnswerView> {
    match r {
        Ok(v) => Ok(v@),
        Err(a) => Err(a@),
    }
}

/// The value of a body, from its text.
pub fn parse_body(raw: &str) -> (r: Result<Json, Answer>)
    ensures
        value_view(r) == body_value(raw@),
{
    if trim(raw).as_str().is_empty() {
        return Ok(Json::object());
    }
    match parse_stored(raw) {
        Some(v) => Ok(v),
        None => Err(refuse(400, "invalid json")),
    }
}

/// The value of a body, from up to one byte more than it may have. `read` is none
/// where reading failed.
pub fn read_body(read: Option<Vec<u8>>) -> (r: Result<Json, Answer>)
    ensures
        value_view(r) == (match body_text(interaction::opt_bytes(read)) {
            Ok(raw) => body_value(raw),
            Err(a) => Err(a),
        }),
        read matches Some(b) ==> (b@.len() <= BODY_LIMIT && vstd::utf8::valid_utf8(b@)
            ==> value_view(r) == body_value(vstd::utf8::decode_utf8(b@))),
{
    match read {
        None => Err(refuse(400, "read error")),
        Some(b) => if b.len() > BODY_LIMIT {
            Err(refuse(413, "body too large"))
        } else {
            parse_body(decode_lossy(b.as_slice()).as_str())
        },
    }
}

/// The command for the timer that a body gives.
pub open spec fn command_of(body: JsonView) -> Option<Seq<char>> {
    let c = interaction::named(body, "command"@);
    if c == "toggle"@ || c == "reset"@ || c == "skip"@ {
        Some(c)
    } else {
        None
    }
}

/// The command for the timer that a body gives, or the answer where it gives none.
pub fn timer_command(body: &Json) -> (r: Result<String, Answer>)
    ensures
        match r {
            Ok(c) => command_of(body@) == Some(c@),
            Err(a) => command_of(body@) is None && a@ == refusal(
                400,
                "command must be toggle|reset|skip"@,
            ),
        },
{
    let c = match text_field(body, "command") {
        Some(s) => s.to_owned(),
        None => String::new(),
    };
    if same(c.as_str(), "toggle") || same(c.as_str(), "reset") || same(c.as_str(), "skip") {
        Ok(c)
    } else {
        Err(refuse(400, "command must be toggle|reset|skip"))
    }
}

/// What a body asks to be shown: at the older address always something custom.
pub open spec fn asked(endpoint: Endpoint, body: JsonView) -> JsonView {
    if endpoint == Endpoint::Confirm {
        body.set("kind"@, JsonView::Str("custom"@))
    } else {
        body
    }
}

/// What a body asks to be shown.
pub fn request_payload(endpoint: Endpoint, body: Json) -> (r: Json)
    ensures
        r@ == asked(endpoint, body@),
{
    if endpoint == Endpoint::Confirm {
        body.set("kind", Json::text("custom"))
    } else {
        body
    }
}

/// The answer to a request that went well.
pub fn done() -> (r: Answer)
    ensures
        r@ == fine(),
{
    all_fine()
}

/// The answer with a value.
pub fn answer(body: Json) -> (r: Answer)
    ensures
        r@ == (AnswerView { code: 200, body: body@ }),
{
    Answer { code: 200, body }
}

/// The text of an answer's body. The hook reads a plain one as it was, unless the
/// answer is an error.
pub fn answer_text(a: &Answer) -> (r: String)
    ensures
        r@ == json::compact(a.body@),
        a.code < 400 && json::plain(a.body@, json::MAX_DEPTH as int) ==> http::reply_value(
            http::reply_of(a.code as int, r@),
        ) == Ok::<JsonView, Seq<char>>(a.body@),
{
    print_compact(&a.body)
}

// ---------------------------------------------------------------------------
// The state
// ---------------------------------------------------------------------------

/// The gateway's state as it is seen by a report of the timer's phase: a new
/// working phase begins with nothing done.
pub open spec fn observed(s: GatewayView, phase: Seq<char>, now: i64) -> GatewayView {
    if phase.len() == 0 || s.prev_phase == Some(phase) {
        s
    } else if phase == "work"@ {
        GatewayView {
            activity: Activity {
                since: Some(now),
                tool_calls: 0,
                interruptions: 0,
                stops: 0,
                sessions: 0,
            },
            prev_phase: Some(phase),
            ..s
        }
    } else {
        GatewayView { prev_phase: Some(phase), ..s }
    }
}

/// The model of a [`GatewayState`].
pub struct GatewayView {
    pub activity: Activity,
    pub prev_phase: Option<Seq<char>>,
    pub last_break_suggest_at: i64,
}

/// The model of the gateway's state.
pub open spec fn state_view(s: GatewayState) -> GatewayView {
    GatewayView {
        activity: s.activity,
        prev_phase: interaction::opt_text(s.prev_phase),
        last_break_suggest_at: s.last_break_suggest_at,
    }
}

/// Takes a report of the timer's phase in. Whether what agents did starts anew,
/// and is to be shown.
pub fn observe_timer_state(s: &mut GatewayState, phase: &str, now: i64) -> (publish: bool)
    ensures
        state_view(*final(s)) == observed(state_view(*old(s)), phase@, now),
        publish == (phase@ == "work"@ && state_view(*old(s)).prev_phase != Some(phase@)
            && phase@.len() > 0),
{
    if phase.is_empty() {
        return false;
    }
    let seen = match &s.prev_phase {
        Some(p) => same(p.as_str(), phase),
        None => false,
    };
    if seen {
        return false;
    }
    let work = same(phase, "work");
    if work {
        s.activity = Activity {
            since: Some(now),
            tool_calls: 0,
            interruptions: 0,
            stops: 0,
            sessions: 0,
        };
    }
    s.prev_phase = Some(phase.to_owned());
    work
}

/// What the state is told as.
pub open spec fn status(t: TimerView, a: Activity, pending: int, port: int) -> JsonView {
    JsonView::object().with("ok"@, JsonView::Bool(true)).with(
        "timer"@,
        JsonView::object().with("phase"@, JsonView::Str(t.phase)).with(
            "running"@,
            JsonView::Bool(t.running),
        ).with("remainMs"@, t.remain_ms).with("totalMs"@, t.total_ms).with(
            "completedFocus"@,
            t.completed_focus,
        ).with("roundInCycle"@, t.round_in_cycle).with("rounds"@, t.rounds),
    ).with("activity"@, state::activity_json(a)).with("pending"@, JsonView::Int(pending)).with(
        "gateway"@,
        JsonView::object().with("version"@, JsonView::Int(GATEWAY_VERSION as int)).with(
            "port"@,
            JsonView::Int(port),
        ),
    )
}

/// What the state is told as.
pub fn status_body(t: &TimerState, a: &Activity, pending: usize, port: u16) -> (r: Json)
    ensures
        r@ == status(t@, *a, pending as int, port as int),
{
    let timer = Json::object().with("phase", Json::text(t.phase.as_str())).with(
        "running",
        Json::Bool(t.running),
    ).with("remainMs", t.remain_ms.clone()).with("totalMs", t.total_ms.clone()).with(
        "completedFocus",
        t.completed_focus.clone(),
    ).with("roundInCycle", t.round_in_cycle.clone()).with("rounds", t.rounds.clone());
    Json::object().with("ok", Json::Bool(true)).with("timer", timer).with("activity", a.to_json()).with(
        "pending",
        Json::PosInt(pending as u64),
    ).with(
        "gateway",
        Json::object().with("version", Json::PosInt(GATEWAY_VERSION as u64)).with(
            "port",
            Json::PosInt(port as u64),
        ),
    )
}

/// What the main window is told of the gateway.
pub fn gateway_state(listening: u16, hook_path: &str, plugin_path: &str, a: &Activity) -> (r: Json)
    ensures
        r@ == JsonView::object().with("enabled"@, JsonView::Bool(listening != 0)).with(
            "port"@,
            if listening == 0 {
                JsonView::Null
            } else {
                JsonView::Int(listening as int)
            },
        ).with("hookPath"@, JsonView::Str(hook_path@)).with(
            "pluginPath"@,
            JsonView::Str(plugin_path@),
        ).with("activity"@, state::activity_json(*a)),
{
    let p = match port(listening) {
        Some(n) => Json::PosInt(n as u64),
        None => Json::Null,
    };
    Json::object().with("enabled", Json::Bool(is_running(listening))).with("port", p).with(
        "hookPath",
        Json::text(hook_path),
    ).with("pluginPath", Json::text(plugin_path)).with("activity", a.to_json())
}

// ---------------------------------------------------------------------------
// Popups
// ---------------------------------------------------------------------------

/// What a notification shows: a request that names no kind is a notification.
pub open spec fn notice(p: JsonView, written: Reading) -> JsonView {
    let o = JsonView::Obj(p.members());
    payload::normal_form(
        if o.field("kind"@) is Some {
            o
        } else {
            o.set("kind"@, JsonView::Str("notification"@))
        },
        written,
    )
}

/// What a notification shows. `written` is what its `timeoutMs` reads as where
/// that is a text.
pub fn notify_popup(p: Json, written: Reading) -> (r: Json)
    ensures
        r@ == notice(p@, written),
{
    let o = match p {
        Json::Obj(o) => Json::Obj(o),
        _ => Json::object(),
    };
    let named = match get(&o, "kind") {
        Some(_) => true,
        None => false,
    };
    let o = if named {
        o
    } else {
        o.set("kind", Json::text("notification"))
    };
    normalize_interaction(&o, written)
}

/// What a request for a popup leads to.
pub enum Plan {
    /// A popup that waits for nothing is shown, and the request answered.
    Show(Json, Json),
    /// A popup of this kind is shown and waits this long.
    Wait(String, Json, u64),
}

/// The model of a [`Plan`].
pub enum PlanView {
    Show(JsonView, JsonView),
    Wait(Seq<char>, JsonView, int),
}

impl View for Plan {
    type V = PlanView;

    open spec fn view(&self) -> PlanView {
        match *self {
            Plan::Show(p, a) => PlanView::Show(p@, a@),
            Plan::Wait(k, p, t) => PlanView::Wait(k@, p@, t as int),
        }
    }
}

/// The answer to a request whose popup waits for nothing.
pub open spec fn shown_answer(kind: Seq<char>) -> JsonView {
    interaction::decision_json(interaction::bare(Some("shown"@), "shown"@), kind)
}

/// The kind of a request in its normal form.
pub open spec fn plan_kind(norm: JsonView) -> Seq<char> {
    match norm.text_field("kind"@) {
        Some(k) => k,
        None => "custom"@,
    }
}

/// What a request in its normal form leads to: a notification without buttons
/// waits for nothing, nor does a question without anything to answer, which
/// becomes a notification.
pub open spec fn planned(norm: JsonView) -> PlanView {
    let kind = plan_kind(norm);
    if kind == "notification"@ && norm.items("actions"@).len() == 0 {
        PlanView::Show(notice(norm, Reading::Absent), shown_answer(kind))
    } else if kind == "ask"@ && norm.items("questions"@).len() == 0 {
        let n = norm.set("kind"@, JsonView::Str("notification"@)).set(
            "flavor"@,
            JsonView::Str("ask"@),
        );
        PlanView::Show(notice(n, Reading::Absent), shown_answer("notification"@))
    } else {
        PlanView::Wait(kind, norm, payload::clamp_of(norm.field("timeoutMs"@), Reading::Absent))
    }
}

/// What a request for a popup leads to. `written` is what its `timeoutMs` reads
/// as where that is a text.
pub fn request(raw: &Json, written: Reading) -> (r: Plan)
    ensures
        r@ == planned(payload::normal_form(raw@, written)),
{
    plan(normalize_interaction(raw, written))
}

/// What a request in its normal form leads to.
pub fn plan(norm: Json) -> (r: Plan)
    requires
        norm@ is Obj,
    ensures
        r@ == planned(norm@),
{
    let kind = match text_field(&norm, "kind") {
        Some(k) => k.to_owned(),
        None => "custom".to_owned(),
    };
    if same(kind.as_str(), "notification") && json::arr(&norm, "actions").len() == 0 {
        let reply = Decision::shown().to_json(kind.as_str());
        return Plan::Show(notify_popup(norm, Reading::Absent), reply);
    }
    if same(kind.as_str(), "ask") && json::arr(&norm, "questions").len() == 0 {
        let n = norm.set("kind", Json::text("notification")).set("flavor", Json::text("ask"));
        let reply = Decision::shown().to_json("notification");
        return Plan::Show(notify_popup(n, Reading::Absent), reply);
    }
    let ms: u64 = timeout_of(&norm, Reading::Absent);
    Plan::Wait(kind, norm, ms)
}

/// A popup with its id.
pub fn identified(p: Json, id: &str) -> (r: Json)
    ensures
        r@ == p@.set("id"@, JsonView::Str(id@)),
{
    p.set("id", Json::text(id))
}

/// How long a popup still waits once it is open: opening it took its share, but a
/// moment is always left.
pub fn remaining_ms(timeout_ms: u64, elapsed_ms: u64) -> (r: u64)
    ensures
        r == (if elapsed_ms < timeout_ms {
            timeout_ms - elapsed_ms
        } else {
            1
        }),
{
    if elapsed_ms < timeout_ms {
        timeout_ms - elapsed_ms
    } else {
        1
    }
}

// ---------------------------------------------------------------------------
// Events
// ---------------------------------------------------------------------------

/// The kinds of events.
pub open spec fn known_event(kind: Seq<char>) -> bool {
    kind == "notification"@ || kind == "ask"@ || kind == "permission"@ || kind == "stop"@ || kind
        == "subagent-start"@ || kind == "subagent-stop"@ || kind == "tool-before"@ || kind
        == "tool-after"@ || kind == "session-start"@ || kind == "session-end"@ || kind
        == "pre-compact"@ || kind == "prompt"@
}

/// Whether an event says that something waits for the user.
pub open spec fn interrupts(kind: Seq<char>) -> bool {
    kind == "notification"@ || kind == "ask"@ || kind == "permission"@
}

/// What agents did after one more event.
pub open spec fn counted(a: Activity, kind: Seq<char>) -> Activity {
    if kind == "tool-after"@ {
        Activity { tool_calls: (a.tool_calls + 1) as u64, ..a }
    } else if interrupts(kind) {
        Activity { interruptions: (a.interruptions + 1) as u64, ..a }
    } else if kind == "stop"@ {
        Activity { stops: (a.stops + 1) as u64, ..a }
    } else if kind == "session-start"@ || kind == "session-end"@ {
        Activity { sessions: (a.sessions + 1) as u64, ..a }
    } else {
        a
    }
}

/// Whether the count that an event of a kind raises, if any, can go on.
pub open spec fn room(a: Activity, kind: Seq<char>) -> bool {
    if kind == "tool-after"@ {
        a.tool_calls < u64::MAX
    } else if interrupts(kind) {
        a.interruptions < u64::MAX
    } else if kind == "stop"@ {
        a.stops < u64::MAX
    } else if kind == "session-start"@ || kind == "session-end"@ {
        a.sessions < u64::MAX
    } else {
        true
    }
}

/// Whether the count that an event raises, if any, can go on.
pub fn has_room(a: &Activity, ev: &Json) -> (r: bool)
    ensures
        r == room(*a, interaction::named(ev@, "kind"@)),
{
    let kind = match text_field(ev, "kind") {
        Some(k) => k.to_owned(),
        None => String::new(),
    };
    if same(kind.as_str(), "tool-after") {
        a.tool_calls < u64::MAX
    } else if is_interruption(kind.as_str()) {
        a.interruptions < u64::MAX
    } else if same(kind.as_str(), "stop") {
        a.stops < u64::MAX
    } else if same(kind.as_str(), "session-start") || same(kind.as_str(), "session-end") {
        a.sessions < u64::MAX
    } else {
        true
    }
}

/// What is shown for an event that says that something waits for the user: it
/// cannot be answered there.
pub open spec fn event_notice(ev: JsonView, kind: Seq<char>, lead: Seq<char>) -> JsonView {
    let title = match ev.text_field("title"@) {
        Some(t) => t,
        None => if kind == "permission"@ {
            "Agent 需要权限确认"@
        } else {
            "Agent 需要你的确认"@
        },
    };
    let source = interaction::named(ev, "source"@);
    let o = JsonView::object().with("kind"@, JsonView::Str(kind)).with(
        "title"@,
        JsonView::Str(text::cut(title, 120)),
    ).with("message"@, JsonView::Str(text::cut(interaction::named(ev, "message"@), 360))).with(
        "sub"@,
        JsonView::Str(payload::label_of(source, lead)),
    ).with("source"@, JsonView::Str(source));
    match ev.field("context"@) {
        Some(c) => o.with("context"@, c),
        None => o,
    }
}

fn make_event_notice(ev: &Json, kind: &str, lead: &str) -> (r: Json)
    ensures
        r@ == event_notice(ev@, kind@, lead@),
{
    let title = match text_field(ev, "title") {
        Some(t) => t.to_owned(),
        None => if same(kind, "permission") {
            "Agent 需要权限确认".to_owned()
        } else {
            "Agent 需要你的确认".to_owned()
        },
    };
    let source = match text_field(ev, "source") {
        Some(s) => s.to_owned(),
        None => String::new(),
    };
    let message = match text_field(ev, "message") {
        Some(s) => s.to_owned(),
        None => String::new(),
    };
    let o = Json::object().with("kind", Json::text(kind)).with(
        "title",
        Json::Str(truncate_str(title.as_str(), 120)),
    ).with("message", Json::Str(truncate_str(message.as_str(), 360))).with(
        "sub",
        Json::Str(source_label(source.as_str(), lead)),
    ).with("source", Json::Str(source));
    match get(ev, "context") {
        Some(c) => o.with("context", c.clone()),
        None => o,
    }
}

/// What the gateway sees when an event comes in.
pub struct Scene {
    /// How many popups wait.
    pub pending: usize,
    /// The timer's phase.
    pub phase: String,
    pub running: bool,
    pub now: i64,
    /// The name of the lead host.
    pub lead: String,
}

/// Whether a break is suggested: nothing waits for the user, the timer runs in
/// its working phase, and none was suggested lately.
pub open spec fn suggests(s: GatewayView, at: Scene) -> bool {
    at.pending == 0 && at.phase@ == "work"@ && at.running && at.now - s.last_break_suggest_at
        >= BREAK_SUGGEST_COOLDOWN_MS
}

/// The task that an event's context names.
pub open spec fn task_of(ev: JsonView) -> Seq<char> {
    match ev.field("context"@) {
        Some(c) => interaction::named(c, "task"@),
        None => Seq::empty(),
    }
}

/// The buttons of the suggestion of a break.
pub open spec fn break_actions() -> JsonView {
    JsonView::Arr(
        Seq::empty().push(
            JsonView::object().with("id"@, JsonView::Str("break"@)).with(
                "label"@,
                JsonView::Str("休息一下"@),
            ).with("style"@, JsonView::Str("primary"@)),
        ).push(
            JsonView::object().with("id"@, JsonView::Str("keep"@)).with(
                "label"@,
                JsonView::Str("继续专注"@),
            ),
        ).push(
            JsonView::object().with("id"@, JsonView::Str("ignore"@)).with(
                "label"@,
                JsonView::Str("忽略"@),
            ),
        ),
    )
}

/// The suggestion of a break.
pub open spec fn break_request(ev: JsonView) -> JsonView {
    let task = task_of(ev);
    let message = if task.len() == 0 {
        "这轮任务跑完了，要趁机休息一下吗？"@
    } else {
        "「"@ + task + "」这轮跑完了，要趁机休息一下吗？"@
    };
    let o = JsonView::object().with("kind"@, JsonView::Str("custom"@)).with(
        "title"@,
        JsonView::Str("Agent 空闲了"@),
    ).with("message"@, JsonView::Str(message)).with(
        "sub"@,
        JsonView::Str("选择「休息一下」将提前结束本段专注进入休息"@),
    ).with("actions"@, break_actions()).with("defaultAction"@, JsonView::Str("ignore"@)).with(
        "timeoutMs"@,
        JsonView::Int(BREAK_SUGGEST_TIMEOUT_MS as int),
    );
    let o = match ev.field("source"@) {
        Some(s) => o.with("source"@, s),
        None => o,
    };
    match ev.field("context"@) {
        Some(c) => o.with("context"@, c),
        None => o,
    }
}

fn make_break_actions() -> (r: Json)
    ensures
        r@ == break_actions(),
{
    let mut v: Vec<Json> = Vec::new();
    v.push(
        Json::object().with("id", Json::text("break")).with("label", Json::text("休息一下")).with(
            "style",
            Json::text("primary"),
        ),
    );
    v.push(Json::object().with("id", Json::text("keep")).with("label", Json::text("继续专注")));
    v.push(Json::object().with("id", Json::text("ignore")).with("label", Json::text("忽略")));
    assert(json::views(v@) =~= break_actions()->Arr_0);
    Json::Arr(v)
}

fn make_break_request(ev: &Json) -> (r: Json)
    ensures
        r@ == break_request(ev@),
{
    let task = match get(ev, "context") {
        Some(c) => match text_field(c, "task") {
            Some(t) => t.to_owned(),
            None => String::new(),
        },
        None => String::new(),
    };
    let message = if task.as_str().is_empty() {
        "这轮任务跑完了，要趁机休息一下吗？".to_owned()
    } else {
        cat3("「", task.as_str(), "」这轮跑完了，要趁机休息一下吗？")
    };
    let o = Json::object().with("kind", Json::text("custom")).with(
        "title",
        Json::text("Agent 空闲了"),
    ).with("message", Json::Str(message)).with(
        "sub",
        Json::text("选择「休息一下」将提前结束本段专注进入休息"),
    ).with("actions", make_break_actions()).with("defaultAction", Json::text("ignore")).with(
        "timeoutMs",
        Json::PosInt(BREAK_SUGGEST_TIMEOUT_MS),
    );
    let o = match get(ev, "source") {
        Some(s) => o.with("source", s.clone()),
        None => o,
    };
    match get(ev, "context") {
        Some(c) => o.with("context", c.clone()),
        None => o,
    }
}

/// Suggests a break, where that is due.
pub fn maybe_suggest_break(s: &mut GatewayState, ev: &Json, at: &Scene) -> (r: Option<Json>)
    ensures
        session::owned_view(r) == (if suggests(state_view(*old(s)), *at) {
            Some(break_request(ev@))
        } else {
            None
        }),
        state_view(*final(s)) == (if suggests(state_view(*old(s)), *at) {
            GatewayView { last_break_suggest_at: at.now, ..state_view(*old(s)) }
        } else {
            state_view(*old(s))
        }),
{
    if at.pending > 0 {
        return None;
    }
    if !same(at.phase.as_str(), "work") || !at.running {
        return None;
    }
    if (at.now as i128) - (s.last_break_suggest_at as i128) < BREAK_SUGGEST_COOLDOWN_MS as i128 {
        return None;
    }
    s.last_break_suggest_at = at.now;
    Some(make_break_request(ev))
}

/// Whether the answer to the suggestion of a break takes it.
pub fn takes_break(reply: &Json) -> (r: bool)
    ensures
        r == (reply@.text_field("action"@) == Some("break"@)),
{
    match text_field(reply, "action") {
        Some(a) => same(a, "break"),
        None => false,
    }
}

/// What an event leads to.
pub struct Outcome {
    /// The answer.
    pub reply: Json,
    /// A popup that is shown and waits for nothing.
    pub popup: Option<Json>,
    /// A suggestion of a break, whose answer decides.
    pub suggestion: Option<Json>,
    /// Whether what agents did is to be shown anew.
    pub publish: bool,
}

/// What is shown for an event at once, if anything.
pub open spec fn event_popup(ev: JsonView, at: Scene) -> Option<JsonView> {
    let kind = interaction::named(ev, "kind"@);
    if interrupts(kind) {
        Some(notice(event_notice(ev, kind, at.lead@), Reading::Absent))
    } else {
        None
    }
}

/// The break that an event suggests, if any.
pub open spec fn event_suggestion(s: GatewayView, ev: JsonView, at: Scene) -> Option<JsonView> {
    if interaction::named(ev, "kind"@) == "stop"@ && suggests(s, at) {
        Some(break_request(ev))
    } else {
        None
    }
}

/// The gateway's state after an event.
pub open spec fn after_event(s: GatewayView, ev: JsonView, at: Scene) -> GatewayView {
    let kind = interaction::named(ev, "kind"@);
    if !known_event(kind) {
        s
    } else {
        let c = GatewayView { activity: counted(s.activity, kind), ..s };
        if kind == "stop"@ && suggests(s, at) {
            GatewayView { last_break_suggest_at: at.now, ..c }
        } else {
            c
        }
    }
}

/// What an event is said to have led to.
pub open spec fn triggered(s: GatewayView, ev: JsonView, at: Scene) -> JsonView {
    let kind = interaction::named(ev, "kind"@);
    if interrupts(kind) {
        JsonView::Str("notify"@)
    } else if kind == "stop"@ && suggests(s, at) {
        JsonView::Str("break-suggest"@)
    } else {
        JsonView::Null
    }
}

/// The answer to an event.
pub open spec fn event_reply(s: GatewayView, ev: JsonView, at: Scene) -> JsonView {
    let kind = interaction::named(ev, "kind"@);
    if !known_event(kind) {
        JsonView::object().with("ok"@, JsonView::Bool(false)).with(
            "error"@,
            JsonView::Str("unknown kind: "@ + kind),
        )
    } else {
        JsonView::object().with("ok"@, JsonView::Bool(true)).with(
            "triggered"@,
            triggered(s, ev, at),
        ).with("activity"@, state::activity_json(after_event(s, ev, at).activity))
    }
}

fn is_known_event(kind: &str) -> (r: bool)
    ensures
        r == known_event(kind@),
{
    same(kind, "notification") || same(kind, "ask") || same(kind, "permission") || same(
        kind,
        "stop",
    ) || same(kind, "subagent-start") || same(kind, "subagent-stop") || same(kind, "tool-before")
        || same(kind, "tool-after") || same(kind, "session-start") || same(kind, "session-end")
        || same(kind, "pre-compact") || same(kind, "prompt")
}

fn is_interruption(kind: &str) -> (r: bool)
    ensures
        r == interrupts(kind@),
{
    same(kind, "notification") || same(kind, "ask") || same(kind, "permission")
}

fn count_event(a: &mut Activity, kind: &str)
    requires
        room(*old(a), kind@),
    ensures
        *final(a) == counted(*old(a), kind@),
{
    if same(kind, "tool-after") {
        a.tool_calls = a.tool_calls + 1;
    } else if is_interruption(kind) {
        a.interruptions = a.interruptions + 1;
    } else if same(kind, "stop") {
        a.stops = a.stops + 1;
    } else if same(kind, "session-start") || same(kind, "session-end") {
        a.sessions = a.sessions + 1;
    }
}

/// Takes an event in: it is counted, and may show a popup or suggest a break, but
/// it never waits.
pub fn handle_event(s: &mut GatewayState, ev: &Json, at: &Scene) -> (r: Outcome)
    requires
        room(old(s).activity, interaction::named(ev@, "kind"@)),
    ensures
        state_view(*final(s)) == after_event(state_view(*old(s)), ev@, *at),
        r.reply@ == event_reply(state_view(*old(s)), ev@, *at),
        session::owned_view(r.popup) == (if interrupts(interaction::named(ev@, "kind"@)) {
            Some(notice(
                event_notice(ev@, interaction::named(ev@, "kind"@), at.lead@),
                Reading::Absent,
            ))
        } else {
            None
        }),
        session::owned_view(r.suggestion) == (if interaction::named(ev@, "kind"@) == "stop"@
            && suggests(state_view(*old(s)), *at) {
            Some(break_request(ev@))
        } else {
            None
        }),
        r.publish == known_event(interaction::named(ev@, "kind"@)),
        session::owned_view(r.popup) == event_popup(ev@, *at),
        session::owned_view(r.suggestion) == event_suggestion(state_view(*old(s)), ev@, *at),
{
    let kind = match text_field(ev, "kind") {
        Some(k) => k.to_owned(),
        None => String::new(),
    };
    if !is_known_event(kind.as_str()) {
        let reply = Json::object().with("ok", Json::Bool(false)).with(
            "error",
            Json::Str(cat2("unknown kind: ", kind.as_str())),
        );
        return Outcome { reply, popup: None, suggestion: None, publish: false };
    }
    count_event(&mut s.activity, kind.as_str());
    let mut popup: Option<Json> = None;
    let mut suggestion: Option<Json> = None;
    let mut led_to = Json::Null;
    if is_interruption(kind.as_str()) {
        popup = Some(notify_popup(make_event_notice(ev, kind.as_str(), at.lead.as_str()), Reading::Absent));
        led_to = Json::text("notify");
    } else if same(kind.as_str(), "stop") {
        suggestion = maybe_suggest_break(s, ev, at);
        if suggestion.is_some() {
            led_to = Json::text("break-suggest");
        }
    }
    proof {
        lemma_stop_is_no_interruption();
    }
    let reply = Json::object().with("ok", Json::Bool(true)).with("triggered", led_to).with(
        "activity",
        s.activity.to_json(),
    );
    Outcome { reply, popup, suggestion, publish: true }
}

proof fn lemma_stop_is_no_interruption()
    ensures
        !interrupts("stop"@),
        known_event("stop"@),
        forall|k: Seq<char>| #[trigger] interrupts(k) ==> known_event(k),
{
    reveal_strlit("stop");
    reveal_strlit("ask");
    reveal_strlit("permission");
    reveal_strlit("notification");
    assert("stop"@.len() == 4 && "ask"@.len() == 3 && "permission"@.len() == 10
        && "notification"@.len() == 12);
}

// ---------------------------------------------------------------------------
// Laws
// ---------------------------------------------------------------------------

/// Nobody who does not mean this machine, or does not bear the token, gets
/// anything but a refusal, or the word that the gateway is alive.
pub proof fn law_strangers_get_nothing(req: RequestView, token: Seq<char>)
    requires
        !host_allowed(req.headers) || !has_token(req.headers, token),
    ensures
        routed(req, token) == RoutedView::Reply(alive()) || routed(req, token) == RoutedView::Reply(
            refusal(403, "forbidden host"@),
        ) || routed(req, token) == RoutedView::Reply(refusal(401, "unauthorized"@)),
{
}

/// One host header that does not name this machine is enough to be refused,
/// whatever other host headers say.
pub proof fn law_every_host_header_counts(req: RequestView, token: Seq<char>, i: int)
    requires
        0 <= i < req.headers.len(),
        is_named(req.headers[i], "host"@),
        !loopback(req.headers[i].1),
        !(req.verb == Verb::Get && path_of(req.url) == "/health"@),
    ensures
        routed(req, token) == RoutedView::Reply(refusal(403, "forbidden host"@)),
{
}

/// Without a token nobody is let in.
pub proof fn law_no_token_lets_nobody_in(headers: Seq<(Seq<char>, Seq<char>)>)
    ensures
        !has_token(headers, Seq::empty()),
{
}

/// A popup that waits can be answered: a question has something to answer, and a
/// notification has buttons.
pub proof fn law_waiting_popups_can_be_answered(norm: JsonView)
    ensures
        planned(norm) matches PlanView::Wait(kind, p, ms) ==> {
            &&& p == norm
            &&& kind == "ask"@ ==> norm.items("questions"@).len() > 0
            &&& kind == "notification"@ ==> norm.items("actions"@).len() > 0
            &&& 5_000 <= ms <= 7_200_000
        },
{
}

/// An event counts once, under one heading, and never takes anything away.
pub proof fn law_events_count_once(a: Activity, kind: Seq<char>)
    requires
        room(a, kind),
    ensures
        ({
            let b = counted(a, kind);
            let before = a.tool_calls + a.interruptions + a.stops + a.sessions;
            let after = b.tool_calls + b.interruptions + b.stops + b.sessions;
            &&& b.since == a.since
            &&& before <= after <= before + 1
            &&& b.tool_calls >= a.tool_calls && b.interruptions >= a.interruptions && b.stops
                >= a.stops && b.sessions >= a.sessions
        }),
{
}

/// After a break was suggested, none is suggested again for ten minutes.
pub proof fn law_breaks_are_not_suggested_often(s: GatewayView, ev: JsonView, at: Scene, later: Scene)
    requires
        interaction::named(ev, "kind"@) == "stop"@,
        suggests(s, at),
        later.now - at.now < BREAK_SUGGEST_COOLDOWN_MS,
    ensures
        !suggests(after_event(s, ev, at), later),
{
    lemma_stop_is_no_interruption();
}

/// A new working phase begins with nothing done; seeing the same phase again
/// changes nothing.
pub proof fn law_work_begins_anew(s: GatewayView, phase: Seq<char>, now: i64, later: i64)
    ensures
        observed(observed(s, phase, now), phase, later) == observed(s, phase, now),
        phase == "work"@ && phase.len() > 0 && s.prev_phase != Some(phase) ==> {
            let a = observed(s, phase, now).activity;
            a.since == Some(now) && a.tool_calls == 0 && a.interruptions == 0 && a.stops == 0
                && a.sessions == 0
        },
{
}

// ---------------------------------------------------------------------------
// What the gateway answers, word for word
// ---------------------------------------------------------------------------

/// Whether an address is this path, alone or with a query.
pub open spec fn is_at(url: Seq<char>, path: Seq<char>) -> bool {
    &&& url.len() >= path.len()
    &&& url.take(path.len() as int) == path
    &&& url.len() > path.len() ==> url[path.len() as int] == '?'
}

proof fn lemma_path(url: Seq<char>, path: Seq<char>)
    requires
        is_at(url, path),
        forall|i: int| 0 <= i < path.len() ==> #[trigger] path[i] != '?',
    ensures
        path_of(url) == path,
{
    text::lemma_index_of(url, '?');
    let k = text::index_of(url, '?');
    let n = path.len() as int;
    assert forall|i: int| 0 <= i < n implies #[trigger] url[i] != '?' by {
        assert(url[i] == url.take(n)[i]);
        assert(path[i] != '?');
    }
    if k < n {
        assert(url[k] == '?');
    }
    if k > n {
        assert(url[n] != '?');
    }
    assert(k == n);
}

proof fn lemma_paths()
    ensures
        forall|i: int| 0 <= i < "/health"@.len() ==> #[trigger] "/health"@[i] != '?',
        forall|i: int| 0 <= i < "/api/status"@.len() ==> #[trigger] "/api/status"@[i] != '?',
        forall|i: int| 0 <= i < "/api/notify"@.len() ==> #[trigger] "/api/notify"@[i] != '?',
        forall|i: int| 0 <= i < "/api/event"@.len() ==> #[trigger] "/api/event"@[i] != '?',
        forall|i: int| 0 <= i < "/api/confirm"@.len() ==> #[trigger] "/api/confirm"@[i] != '?',
        forall|i: int|
            0 <= i < "/api/interaction"@.len() ==> #[trigger] "/api/interaction"@[i] != '?',
        forall|i: int| 0 <= i < "/api/timer"@.len() ==> #[trigger] "/api/timer"@[i] != '?',
{
    reveal_strlit("/health");
    reveal_strlit("/api/status");
    reveal_strlit("/api/notify");
    reveal_strlit("/api/event");
    reveal_strlit("/api/confirm");
    reveal_strlit("/api/interaction");
    reveal_strlit("/api/timer");
    assert forall|i: int| 0 <= i < "/health"@.len() implies #[trigger] "/health"@[i] != '?' by {
        assert(i == 0 || i == 1 || i == 2 || i == 3 || i == 4 || i == 5 || i == 6);
        assert("/health"@[0] == '/');
        assert("/health"@[1] == 'h');
        assert("/health"@[2] == 'e');
        assert("/health"@[3] == 'a');
        assert("/health"@[4] == 'l');
        assert("/health"@[5] == 't');
        assert("/health"@[6] == 'h');
    }
    assert forall|i: int| 0 <= i < "/api/status"@.len() implies #[trigger] "/api/status"@[i] != '?' by {
        assert(i == 0 || i == 1 || i == 2 || i == 3 || i == 4 || i == 5 || i == 6 || i == 7 || i == 8 || i == 9 || i == 10);
        assert("/api/status"@[0] == '/');
        assert("/api/status"@[1] == 'a');
        assert("/api/status"@[2] == 'p');
        assert("/api/status"@[3] == 'i');
        assert("/api/status"@[4] == '/');
        assert("/api/status"@[5] == 's');
        assert("/api/status"@[6] == 't');
        assert("/api/status"@[7] == 'a');
        assert("/api/status"@[8] == 't');
        assert("/api/status"@[9] == 'u');
        assert("/api/status"@[10] == 's');
    }
    assert forall|i: int| 0 <= i < "/api/notify"@.len() implies #[trigger] "/api/notify"@[i] != '?' by {
        assert(i == 0 || i == 1 || i == 2 || i == 3 || i == 4 || i == 5 || i == 6 || i == 7 || i == 8 || i == 9 || i == 10);
        assert("/api/notify"@[0] == '/');
        assert("/api/notify"@[1] == 'a');
        assert("/api/notify"@[2] == 'p');
        assert("/api/notify"@[3] == 'i');
        assert("/api/notify"@[4] == '/');
        assert("/api/notify"@[5] == 'n');
        assert("/api/notify"@[6] == 'o');
        assert("/api/notify"@[7] == 't');
        assert("/api/notify"@[8] == 'i');
        assert("/api/notify"@[9] == 'f');
        assert("/api/notify"@[10] == 'y');
    }
    assert forall|i: int| 0 <= i < "/api/event"@.len() implies #[trigger] "/api/event"@[i] != '?' by {
        assert(i == 0 || i == 1 || i == 2 || i == 3 || i == 4 || i == 5 || i == 6 || i == 7 || i == 8 || i == 9);
        assert("/api/event"@[0] == '/');
        assert("/api/event"@[1] == 'a');
        assert("/api/event"@[2] == 'p');
        assert("/api/event"@[3] == 'i');
        assert("/api/event"@[4] == '/');
        assert("/api/event"@[5] == 'e');
        assert("/api/event"@[6] == 'v');
        assert("/api/event"@[7] == 'e');
        assert("/api/event"@[8] == 'n');
        assert("/api/event"@[9] == 't');
    }
    assert forall|i: int| 0 <= i < "/api/confirm"@.len() implies #[trigger] "/api/confirm"@[i] != '?' by {
        assert(i == 0 || i == 1 || i == 2 || i == 3 || i == 4 || i == 5 || i == 6 || i == 7 || i == 8 || i == 9 || i == 10 || i == 11);
        assert("/api/confirm"@[0] == '/');
        assert("/api/confirm"@[1] == 'a');
        assert("/api/confirm"@[2] == 'p');
        assert("/api/confirm"@[3] == 'i');
        assert("/api/confirm"@[4] == '/');
        assert("/api/confirm"@[5] == 'c');
        assert("/api/confirm"@[6] == 'o');
        assert("/api/confirm"@[7] == 'n');
        assert("/api/confirm"@[8] == 'f');
        assert("/api/confirm"@[9] == 'i');
        assert("/api/confirm"@[10] == 'r');
        assert("/api/confirm"@[11] == 'm');
    }
    assert forall|i: int| 0 <= i < "/api/interaction"@.len() implies #[trigger] "/api/interaction"@[i] != '?' by {
        assert(i == 0 || i == 1 || i == 2 || i == 3 || i == 4 || i == 5 || i == 6 || i == 7 || i == 8 || i == 9 || i == 10 || i == 11 || i == 12 || i == 13 || i == 14 || i == 15);
        assert("/api/interaction"@[0] == '/');
        assert("/api/interaction"@[1] == 'a');
        assert("/api/interaction"@[2] == 'p');
        assert("/api/interaction"@[3] == 'i');
        assert("/api/interaction"@[4] == '/');
        assert("/api/interaction"@[5] == 'i');
        assert("/api/interaction"@[6] == 'n');
        assert("/api/interaction"@[7] == 't');
        assert("/api/interaction"@[8] == 'e');
        assert("/api/interaction"@[9] == 'r');
        assert("/api/interaction"@[10] == 'a');
        assert("/api/interaction"@[11] == 'c');
        assert("/api/interaction"@[12] == 't');
        assert("/api/interaction"@[13] == 'i');
        assert("/api/interaction"@[14] == 'o');
        assert("/api/interaction"@[15] == 'n');
    }
    assert forall|i: int| 0 <= i < "/api/timer"@.len() implies #[trigger] "/api/timer"@[i] != '?' by {
        assert(i == 0 || i == 1 || i == 2 || i == 3 || i == 4 || i == 5 || i == 6 || i == 7 || i == 8 || i == 9);
        assert("/api/timer"@[0] == '/');
        assert("/api/timer"@[1] == 'a');
        assert("/api/timer"@[2] == 'p');
        assert("/api/timer"@[3] == 'i');
        assert("/api/timer"@[4] == '/');
        assert("/api/timer"@[5] == 't');
        assert("/api/timer"@[6] == 'i');
        assert("/api/timer"@[7] == 'm');
        assert("/api/timer"@[8] == 'e');
        assert("/api/timer"@[9] == 'r');
    }
}

/// Each address takes what it is for: a request from this machine that bears the
/// token and is posted to one of them has its body read as just that. What is
/// fetched there, or at any other address, is not found, but for the state and the
/// word that the gateway lives.
pub proof fn law_each_address_takes_what_it_is_for(req: RequestView, token: Seq<char>)
    requires
        host_allowed(req.headers),
        has_token(req.headers, token),
    ensures
        req.verb is Post && is_at(req.url, "/api/interaction"@) ==> routed(req, token)
            == RoutedView::Body(Endpoint::Interaction),
        req.verb is Post && is_at(req.url, "/api/notify"@) ==> routed(req, token)
            == RoutedView::Body(Endpoint::Notify),
        req.verb is Post && is_at(req.url, "/api/event"@) ==> routed(req, token)
            == RoutedView::Body(Endpoint::Event),
        req.verb is Post && is_at(req.url, "/api/confirm"@) ==> routed(req, token)
            == RoutedView::Body(Endpoint::Confirm),
        req.verb is Post && is_at(req.url, "/api/timer"@) ==> routed(req, token)
            == RoutedView::Body(Endpoint::Timer),
        req.verb is Get && is_at(req.url, "/api/status"@) ==> routed(req, token)
            == RoutedView::Status,
        routed(req, token) is Status ==> req.verb is Get && is_at(req.url, "/api/status"@),
        routed(req, token) matches RoutedView::Body(e) ==> req.verb is Post && is_at(
            req.url,
            match e {
                Endpoint::Interaction => "/api/interaction"@,
                Endpoint::Notify => "/api/notify"@,
                Endpoint::Event => "/api/event"@,
                Endpoint::Confirm => "/api/confirm"@,
                Endpoint::Timer => "/api/timer"@,
            },
        ),
        routed(req, token) matches RoutedView::Reply(a) ==> {
            ||| req.verb is Get && is_at(req.url, "/health"@)
            ||| a.code == 404 && a.body.field("ok"@) == Some(JsonView::Bool(false))
                && a.body.field("error"@) == Some(JsonView::Str("not found"@))
        },
{
    broadcast use crate::json::group_fields;

    lemma_paths();
    reveal_strlit("ok");
    reveal_strlit("error");
    reveal_strlit("/health");
    reveal_strlit("/api/status");
    reveal_strlit("/api/notify");
    reveal_strlit("/api/event");
    reveal_strlit("/api/confirm");
    reveal_strlit("/api/interaction");
    reveal_strlit("/api/timer");
    assert("ok"@.len() == 2);
    assert("error"@.len() == 5);
    assert("/health"@.len() == 7);
    assert("/api/status"@.len() == 11);
    assert("/api/notify"@.len() == 11);
    assert("/api/event"@.len() == 10);
    assert("/api/confirm"@.len() == 12);
    assert("/api/interaction"@.len() == 16);
    assert("/api/timer"@.len() == 10);
    assert("/api/status"@[5] == 's');
    assert("/api/notify"@[5] == 'n');
    assert("/api/event"@[5] == 'e');
    assert("/api/timer"@[5] == 't');
    if is_at(req.url, "/api/interaction"@) {
        lemma_path(req.url, "/api/interaction"@);
    }
    if is_at(req.url, "/api/notify"@) {
        lemma_path(req.url, "/api/notify"@);
    }
    if is_at(req.url, "/api/event"@) {
        lemma_path(req.url, "/api/event"@);
    }
    if is_at(req.url, "/api/confirm"@) {
        lemma_path(req.url, "/api/confirm"@);
    }
    if is_at(req.url, "/api/timer"@) {
        lemma_path(req.url, "/api/timer"@);
    }
    if is_at(req.url, "/api/status"@) {
        lemma_path(req.url, "/api/status"@);
    }
    text::lemma_index_of(req.url, '?');
    let path = path_of(req.url);
    assert(is_at(req.url, path));
}

/// Everyone is told that the gateway lives, in the same words.
pub proof fn law_everyone_is_told_that_it_lives(req: RequestView, token: Seq<char>)
    requires
        req.verb is Get,
        is_at(req.url, "/health"@),
    ensures
        routed(req, token) matches RoutedView::Reply(a) && a.code == 200 && a.body.field("ok"@)
            == Some(JsonView::Bool(true)) && a.body.field("app"@) == Some(
            JsonView::Str("pomodoro-fluent"@),
        ) && a.body.field("gateway"@) == Some(JsonView::Int(2)),
{
    broadcast use crate::json::group_fields;

    lemma_paths();
    reveal_strlit("ok");
    reveal_strlit("app");
    reveal_strlit("gateway");
    assert("ok"@.len() == 2);
    assert("app"@.len() == 3);
    assert("gateway"@.len() == 7);
    lemma_path(req.url, "/health"@);
}

/// Whoever does not mean this machine is refused with 403, whoever means it but does
/// not bear the token with 401, and neither is told anything else.
pub proof fn law_strangers_are_refused_by_code(req: RequestView, token: Seq<char>)
    requires
        !(req.verb is Get && is_at(req.url, "/health"@)),
    ensures
        !host_allowed(req.headers) ==> (routed(req, token) matches RoutedView::Reply(a) && a.code
            == 403 && a.body.field("ok"@) == Some(JsonView::Bool(false)) && a.body.field("error"@)
            == Some(JsonView::Str("forbidden host"@)) && a.body.members().len() == 2),
        host_allowed(req.headers) && !has_token(req.headers, token) ==> (routed(
            req,
            token,
        ) matches RoutedView::Reply(a) && a.code == 401 && a.body.field("ok"@) == Some(
            JsonView::Bool(false),
        ) && a.body.field("error"@) == Some(JsonView::Str("unauthorized"@))
            && a.body.members().len() == 2),
{
    broadcast use crate::json::group_fields;

    lemma_paths();
    reveal_strlit("ok");
    reveal_strlit("error");
    assert("ok"@.len() == 2);
    assert("error"@.len() == 5);
    text::lemma_index_of(req.url, '?');
    assert(is_at(req.url, path_of(req.url)));
}

/// A body that cannot be read, or is no JSON, is refused with 400, one of more than
/// 256 KiB with 413; an empty one counts as the object without members, and any
/// other is taken as it is.
pub proof fn law_bodies_are_refused_by_code(read: Seq<u8>, raw: Seq<char>)
    ensures
        body_text(None) matches Err(a) && a.code == 400 && a.body.field("error"@) == Some(
            JsonView::Str("read error"@),
        ),
        read.len() > 262_144 ==> (body_text(Some(read)) matches Err(a) && a.code == 413
            && a.body.field("error"@) == Some(JsonView::Str("body too large"@))),
        read.len() <= 262_144 ==> body_text(Some(read)) == Ok::<Seq<char>, AnswerView>(
            http::lossy_text(read),
        ),
        text::trimmed(raw).len() == 0 ==> (body_value(raw) matches Ok(v)
            && v == JsonView::Obj(Seq::empty())),
        text::trimmed(raw).len() > 0 ==> (json::parsed(raw) matches Some(v) ==> body_value(raw)
            == Ok::<JsonView, AnswerView>(v)),
        text::trimmed(raw).len() > 0 && json::parsed(raw) is None ==> (body_value(
            raw,
        ) matches Err(a) && a.code == 400 && a.body.field("error"@) == Some(
            JsonView::Str("invalid json"@),
        ) && a.body.field("ok"@) == Some(JsonView::Bool(false))),
{
    broadcast use crate::json::group_fields;

    reveal_strlit("ok");
    reveal_strlit("error");
    assert("ok"@.len() == 2);
    assert("error"@.len() == 5);
}

/// The timer takes three commands, each as it is named, and no other.
pub proof fn law_the_timer_takes_three_commands(body: JsonView, c: Seq<char>)
    requires
        body.field("command"@) == Some(JsonView::Str(c)),
    ensures
        c == "toggle"@ ==> command_of(body) == Some("toggle"@),
        c == "reset"@ ==> command_of(body) == Some("reset"@),
        c == "skip"@ ==> command_of(body) == Some("skip"@),
        c != "toggle"@ && c != "reset"@ && c != "skip"@ ==> command_of(body) is None,
{
}

/// What is asked for at the older address is always something custom, with all else
/// that the body says; at the newer one the body is taken as it is.
pub proof fn law_the_older_address_asks_for_something_custom(body: JsonView, key: Seq<char>)
    ensures
        asked(Endpoint::Confirm, body).field("kind"@) == Some(JsonView::Str("custom"@)),
        key != "kind"@ ==> asked(Endpoint::Confirm, body).field(key) == body.field(key),
        asked(Endpoint::Interaction, body) == body,
{
    broadcast use crate::json::group_fields;

}

proof fn lemma_kinds_differ()
    ensures
        "notification"@ != "ask"@,
        "notification"@ != "permission"@,
        "ask"@ != "permission"@,
        forall|k: Seq<char>|
            (k == "stop"@ || k == "tool-after"@ || k == "session-start"@ || k == "session-end"@ || k
                == "subagent-start"@ || k == "subagent-stop"@ || k == "tool-before"@ || k
                == "pre-compact"@ || k == "prompt"@) ==> !#[trigger] interrupts(k),
        "stop"@ != "tool-after"@,
        "stop"@ != "session-start"@,
        "stop"@ != "session-end"@,
        "tool-after"@ != "session-start"@,
        "tool-after"@ != "session-end"@,
        !interrupts("tool-after"@),
{
    reveal_strlit("notification");
    reveal_strlit("ask");
    reveal_strlit("permission");
    reveal_strlit("stop");
    reveal_strlit("tool-after");
    reveal_strlit("session-start");
    reveal_strlit("session-end");
    reveal_strlit("subagent-start");
    reveal_strlit("subagent-stop");
    reveal_strlit("tool-before");
    reveal_strlit("pre-compact");
    reveal_strlit("prompt");
    assert("notification"@.len() == 12);
    assert("ask"@.len() == 3);
    assert("permission"@.len() == 10);
    assert("stop"@.len() == 4);
    assert("tool-after"@.len() == 10);
    assert("session-start"@.len() == 13);
    assert("session-end"@.len() == 11);
    assert("subagent-start"@.len() == 14);
    assert("subagent-stop"@.len() == 13);
    assert("tool-before"@.len() == 11);
    assert("pre-compact"@.len() == 11);
    assert("prompt"@.len() == 6);
    assert("permission"@[0] == 'p');
    assert("tool-after"@[0] == 't');
    assert("session-start"@[1] == 'e');
    assert("session-end"@[0] == 's');
    assert("subagent-stop"@[1] == 'u');
    assert("tool-before"@[0] == 't');
    assert("pre-compact"@[0] == 'p');
}

/// An event that says that something waits for the user is one interruption more and
/// nothing else, shows a popup of its own kind at once, and is answered with that.
pub proof fn law_what_waits_for_the_user_is_shown(
    s: GatewayView,
    ev: JsonView,
    at: Scene,
    kind: Seq<char>,
)
    requires
        ev.field("kind"@) == Some(JsonView::Str(kind)),
        kind == "notification"@ || kind == "ask"@ || kind == "permission"@,
        s.activity.interruptions < u64::MAX,
    ensures
        event_popup(ev, at) matches Some(p) && p.field("kind"@) == Some(JsonView::Str(kind)),
        event_suggestion(s, ev, at) is None,
        ({
            let reply = event_reply(s, ev, at);
            let told = reply.field("activity"@);
            &&& reply.field("ok"@) == Some(JsonView::Bool(true))
            &&& reply.field("triggered"@) == Some(JsonView::Str("notify"@))
            &&& told matches Some(a) && a.field("interruptions"@) == Some(
                JsonView::Int(s.activity.interruptions + 1),
            )
        }),
        ({
            let after = after_event(s, ev, at);
            &&& after.activity.interruptions == s.activity.interruptions + 1
            &&& after.activity.tool_calls == s.activity.tool_calls
            &&& after.activity.stops == s.activity.stops
            &&& after.activity.sessions == s.activity.sessions
            &&& after.activity.since == s.activity.since
            &&& after.last_break_suggest_at == s.last_break_suggest_at
            &&& after.prev_phase == s.prev_phase
        }),
{
    broadcast use crate::json::group_fields;

    lemma_kinds_differ();
    lemma_stop_is_no_interruption();
    reveal_strlit("notification");
    reveal_strlit("ask");
    reveal_strlit("permission");
    reveal_strlit("stop");
    reveal_strlit("tool-after");
    reveal_strlit("ok");
    reveal_strlit("triggered");
    reveal_strlit("activity");
    assert("notification"@.len() == 12);
    assert("ask"@.len() == 3);
    assert("permission"@.len() == 10);
    assert("stop"@.len() == 4);
    assert("tool-after"@.len() == 10);
    assert("ok"@.len() == 2);
    assert("triggered"@.len() == 9);
    assert("activity"@.len() == 8);
    assert("permission"@[0] == 'p');
    assert("tool-after"@[0] == 't');
    state::law_activity_is_told(after_event(s, ev, at).activity);
    lemma_event_notice_fields(ev, kind, at.lead@);
    let n = event_notice(ev, kind, at.lead@);
    payload::law_the_kind_is_kept(n, Reading::Absent, kind);
    assert(JsonView::Obj(n.members()) == n);
}

proof fn lemma_event_notice_fields(ev: JsonView, kind: Seq<char>, lead: Seq<char>)
    ensures
        ({
            let n = event_notice(ev, kind, lead);
            &&& n is Obj
            &&& n.field("kind"@) == Some(JsonView::Str(kind))
            &&& n.field("title"@) == Some(
                JsonView::Str(
                    text::cut(
                        match ev.text_field("title"@) {
                            Some(t) => t,
                            None => if kind == "permission"@ {
                                "Agent 需要权限确认"@
                            } else {
                                "Agent 需要你的确认"@
                            },
                        },
                        120,
                    ),
                ),
            )
            &&& n.field("message"@) == Some(
                JsonView::Str(text::cut(interaction::named(ev, "message"@), 360)),
            )
            &&& n.field("source"@) == Some(JsonView::Str(interaction::named(ev, "source"@)))
            &&& n.field("sub"@) == Some(
                JsonView::Str(payload::label_of(interaction::named(ev, "source"@), lead)),
            )
            &&& n.field("context"@) == ev.field("context"@)
            &&& n.field("defaultAction"@) is None
            &&& n.field("actions"@) is None
        }),
{
    broadcast use crate::json::group_fields;

    reveal_strlit("kind");
    reveal_strlit("title");
    reveal_strlit("message");
    reveal_strlit("sub");
    reveal_strlit("source");
    reveal_strlit("context");
    reveal_strlit("defaultAction");
    reveal_strlit("actions");
    assert("kind"@.len() == 4);
    assert("title"@.len() == 5);
    assert("message"@.len() == 7);
    assert("sub"@.len() == 3);
    assert("source"@.len() == 6);
    assert("context"@.len() == 7);
    assert("defaultAction"@.len() == 13);
    assert("actions"@.len() == 7);
    assert("message"@[0] == 'm');
    assert("context"@[0] == 'c');
    assert("actions"@[0] == 'a');
}

/// The popup of an event tells what the event told: its title, or what stands for
/// one, its message and who sent it.
pub proof fn law_the_popup_of_an_event_tells_it(
    ev: JsonView,
    at: Scene,
    kind: Seq<char>,
    title: Seq<char>,
    message: Seq<char>,
    source: Seq<char>,
)
    requires
        ev.field("kind"@) == Some(JsonView::Str(kind)),
        kind == "notification"@ || kind == "ask"@ || kind == "permission"@,
        ev.field("message"@) == Some(JsonView::Str(message)),
        message.len() <= 360,
        ev.field("source"@) == Some(JsonView::Str(source)),
        source.len() <= 32,
    ensures
        event_popup(ev, at) matches Some(p) && p.field("message"@) == Some(JsonView::Str(message))
            && p.field("source"@) == Some(JsonView::Str(source)) && p.items("actions"@).len() == 0,
        ev.field("title"@) == Some(JsonView::Str(title)) && 0 < title.len() <= 120 ==> event_popup(
            ev,
            at,
        )->0.field("title"@) == Some(JsonView::Str(title)),
        ev.field("title"@) is None && kind == "permission"@ ==> event_popup(ev, at)->0.field(
            "title"@,
        ) == Some(JsonView::Str("Agent 需要权限确认"@)),
        ev.field("title"@) is None && kind != "permission"@ ==> event_popup(ev, at)->0.field(
            "title"@,
        ) == Some(JsonView::Str("Agent 需要你的确认"@)),
{
    broadcast use crate::json::group_fields;

    lemma_kinds_differ();
    reveal_strlit("notification");
    reveal_strlit("ask");
    reveal_strlit("permission");
    reveal_strlit("Agent 需要权限确认");
    reveal_strlit("Agent 需要你的确认");
    reveal_strlit("custom");
    assert("notification"@.len() == 12);
    assert("ask"@.len() == 3);
    assert("permission"@.len() == 10);
    assert("Agent 需要权限确认"@.len() == 12);
    assert("Agent 需要你的确认"@.len() == 12);
    assert("custom"@.len() == 6);
    assert("notification"@[0] == 'n');
    assert("Agent 需要权限确认"@[0] == 'A');
    assert("Agent 需要权限确认"@[8] == '权');
    assert("Agent 需要你的确认"@[0] == 'A');
    assert("Agent 需要你的确认"@[8] == '你');
    lemma_event_notice_fields(ev, kind, at.lead@);
    let n = event_notice(ev, kind, at.lead@);
    assert(JsonView::Obj(n.members()) == n);
    payload::law_the_kind_is_kept(n, Reading::Absent, kind);
    let shown = match ev.text_field("title"@) {
        Some(t) => t,
        None => if kind == "permission"@ {
            "Agent 需要权限确认"@
        } else {
            "Agent 需要你的确认"@
        },
    };
    if 0 < shown.len() <= 120 {
        payload::law_words_are_shown(n, Reading::Absent, "title"@, shown);
    }
    payload::law_words_are_shown(n, Reading::Absent, "message"@, message);
    payload::law_words_are_shown(n, Reading::Absent, "source"@, source);
    payload::law_only_custom_popups_get_a_button(n, Reading::Absent);
}

/// Every other known event counts under its own heading, if any, shows no popup, and
/// is answered as fine: a tool's use, the end of a turn, the start and the end of a
/// session.
pub proof fn law_other_events_are_only_counted(
    s: GatewayView,
    ev: JsonView,
    at: Scene,
    kind: Seq<char>,
)
    requires
        ev.field("kind"@) == Some(JsonView::Str(kind)),
        s.activity.tool_calls < u64::MAX,
        s.activity.stops < u64::MAX,
        s.activity.sessions < u64::MAX,
    ensures
        ({
            let a = s.activity;
            let b = after_event(s, ev, at).activity;
            &&& kind == "tool-after"@ ==> b == (Activity {
                tool_calls: (a.tool_calls + 1) as u64,
                ..a
            }) && b.tool_calls == a.tool_calls + 1
            &&& kind == "stop"@ ==> b == (Activity { stops: (a.stops + 1) as u64, ..a }) && b.stops
                == a.stops + 1
            &&& kind == "session-start"@ || kind == "session-end"@ ==> b == (Activity {
                sessions: (a.sessions + 1) as u64,
                ..a
            }) && b.sessions == a.sessions + 1
            &&& kind == "subagent-start"@ || kind == "subagent-stop"@ || kind == "tool-before"@ || kind
                == "pre-compact"@ || kind == "prompt"@ ==> b == a
        }),
        kind == "tool-after"@ || kind == "stop"@ || kind == "session-start"@ || kind
            == "session-end"@ || kind == "subagent-start"@ || kind == "subagent-stop"@ || kind
            == "tool-before"@ || kind == "pre-compact"@ || kind == "prompt"@ ==> event_popup(ev, at)
            is None && event_reply(s, ev, at).field("ok"@) == Some(JsonView::Bool(true)),
        kind != "stop"@ && event_popup(ev, at) is None ==> event_suggestion(s, ev, at) is None
            && after_event(s, ev, at).last_break_suggest_at == s.last_break_suggest_at,
        kind == "tool-after"@ || kind == "session-start"@ || kind == "session-end"@ || kind
            == "subagent-start"@ || kind == "subagent-stop"@ || kind == "tool-before"@ || kind
            == "pre-compact"@ || kind == "prompt"@ ==> event_reply(s, ev, at).field("triggered"@)
            == Some(JsonView::Null),
{
    broadcast use crate::json::group_fields;

    lemma_kinds_differ();
    reveal_strlit("notification");
    reveal_strlit("ask");
    reveal_strlit("permission");
    reveal_strlit("stop");
    reveal_strlit("tool-after");
    reveal_strlit("session-start");
    reveal_strlit("session-end");
    reveal_strlit("subagent-start");
    reveal_strlit("subagent-stop");
    reveal_strlit("tool-before");
    reveal_strlit("pre-compact");
    reveal_strlit("prompt");
    reveal_strlit("ok");
    reveal_strlit("triggered");
    reveal_strlit("activity");
    assert("notification"@.len() == 12);
    assert("ask"@.len() == 3);
    assert("permission"@.len() == 10);
    assert("stop"@.len() == 4);
    assert("tool-after"@.len() == 10);
    assert("session-start"@.len() == 13);
    assert("session-end"@.len() == 11);
    assert("subagent-start"@.len() == 14);
    assert("subagent-stop"@.len() == 13);
    assert("tool-before"@.len() == 11);
    assert("pre-compact"@.len() == 11);
    assert("prompt"@.len() == 6);
    assert("ok"@.len() == 2);
    assert("triggered"@.len() == 9);
    assert("activity"@.len() == 8);
    assert("permission"@[0] == 'p');
    assert("tool-after"@[0] == 't');
    assert("session-start"@[1] == 'e');
    assert("session-end"@[0] == 's');
    assert("subagent-stop"@[1] == 'u');
    assert("tool-before"@[0] == 't');
    assert("pre-compact"@[0] == 'p');
}

/// An event of any other kind is answered with what it was called, and changes
/// nothing.
pub proof fn law_unknown_events_change_nothing(
    s: GatewayView,
    ev: JsonView,
    at: Scene,
    kind: Seq<char>,
)
    requires
        ev.field("kind"@) == Some(JsonView::Str(kind)),
        kind != "notification"@,
        kind != "ask"@,
        kind != "permission"@,
        kind != "stop"@,
        kind != "subagent-start"@,
        kind != "subagent-stop"@,
        kind != "tool-before"@,
        kind != "tool-after"@,
        kind != "session-start"@,
        kind != "session-end"@,
        kind != "pre-compact"@,
        kind != "prompt"@,
    ensures
        after_event(s, ev, at) == s,
        event_popup(ev, at) is None,
        event_suggestion(s, ev, at) is None,
        event_reply(s, ev, at).field("ok"@) == Some(JsonView::Bool(false)),
        event_reply(s, ev, at).field("error"@) == Some(JsonView::Str("unknown kind: "@ + kind)),
{
    broadcast use crate::json::group_fields;

    reveal_strlit("ok");
    reveal_strlit("error");
    assert("ok"@.len() == 2);
    assert("error"@.len() == 5);
}

/// The end of a turn suggests a break where no popup waits, the timer runs in its
/// working phase, and ten minutes went by since the last suggestion; only there, and
/// the answer says so.
pub proof fn law_a_break_is_suggested_when_it_is_due(s: GatewayView, ev: JsonView, at: Scene)
    requires
        ev.field("kind"@) == Some(JsonView::Str("stop"@)),
    ensures
        ({
            let due = at.pending == 0 && at.phase@ == "work"@ && at.running && at.now
                - s.last_break_suggest_at >= 600_000;
            let reply = event_reply(s, ev, at);
            let after = after_event(s, ev, at);
            &&& (event_suggestion(s, ev, at) is Some) == due
            &&& reply.field("triggered"@) == Some(
                if due {
                    JsonView::Str("break-suggest"@)
                } else {
                    JsonView::Null
                },
            )
            &&& after.last_break_suggest_at == (if due {
                at.now
            } else {
                s.last_break_suggest_at
            })
        }),
{
    broadcast use crate::json::group_fields;

    lemma_kinds_differ();
    lemma_stop_is_no_interruption();
    reveal_strlit("ok");
    reveal_strlit("triggered");
    reveal_strlit("activity");
    assert("ok"@.len() == 2);
    assert("triggered"@.len() == 9);
    assert("activity"@.len() == 8);
}

/// The suggestion of a break offers three answers, takes none of them to be meant
/// where nobody answers, waits two minutes, and passes on who had the turn; of the
/// answers one takes the break.
pub proof fn law_a_break_can_be_refused(s: GatewayView, ev: JsonView, at: Scene)
    requires
        event_suggestion(s, ev, at) is Some,
    ensures
        ({
            let o = event_suggestion(s, ev, at)->0;
            let buttons = o.items("actions"@);
            &&& o.field("kind"@) == Some(JsonView::Str("custom"@))
            &&& buttons.len() == 3
            &&& buttons[0].field("id"@) == Some(JsonView::Str("break"@))
            &&& buttons[0].field("label"@) == Some(JsonView::Str("休息一下"@))
            &&& buttons[0].field("style"@) == Some(JsonView::Str("primary"@))
            &&& buttons[1].field("id"@) == Some(JsonView::Str("keep"@))
            &&& buttons[1].field("label"@) == Some(JsonView::Str("继续专注"@))
            &&& buttons[2].field("id"@) == Some(JsonView::Str("ignore"@))
            &&& buttons[2].field("label"@) == Some(JsonView::Str("忽略"@))
            &&& o.field("defaultAction"@) == Some(JsonView::Str("ignore"@))
            &&& o.field("timeoutMs"@) == Some(JsonView::Int(120_000))
            &&& o.field("title"@) == Some(JsonView::Str("Agent 空闲了"@))
            &&& o.field("source"@) == ev.field("source"@)
            &&& o.field("context"@) == ev.field("context"@)
        }),
{
    broadcast use crate::json::group_fields;

    reveal_strlit("id");
    reveal_strlit("label");
    reveal_strlit("style");
    reveal_strlit("kind");
    reveal_strlit("title");
    reveal_strlit("message");
    reveal_strlit("sub");
    reveal_strlit("actions");
    reveal_strlit("defaultAction");
    reveal_strlit("timeoutMs");
    reveal_strlit("source");
    reveal_strlit("context");
    assert("id"@.len() == 2);
    assert("label"@.len() == 5);
    assert("style"@.len() == 5);
    assert("kind"@.len() == 4);
    assert("title"@.len() == 5);
    assert("message"@.len() == 7);
    assert("sub"@.len() == 3);
    assert("actions"@.len() == 7);
    assert("defaultAction"@.len() == 13);
    assert("timeoutMs"@.len() == 9);
    assert("source"@.len() == 6);
    assert("context"@.len() == 7);
    assert("label"@[0] == 'l');
    assert("style"@[0] == 's');
    assert("title"@[0] == 't');
    assert("message"@[0] == 'm');
    assert("actions"@[0] == 'a');
    assert("context"@[0] == 'c');
}

/// The suggestion of a break names the task that was worked on.
pub proof fn law_a_break_names_its_task(
    s: GatewayView,
    ev: JsonView,
    at: Scene,
    context: JsonView,
    task: Seq<char>,
)
    requires
        event_suggestion(s, ev, at) is Some,
    ensures
        ev.field("context"@) == Some(context) && context.field("task"@) == Some(JsonView::Str(task))
            && task.len() > 0 ==> event_suggestion(s, ev, at)->0.field("message"@) == Some(
            JsonView::Str("「"@ + task + "」这轮跑完了，要趁机休息一下吗？"@),
        ),
        ev.field("context"@) is None ==> event_suggestion(s, ev, at)->0.field("message"@) == Some(
            JsonView::Str("这轮任务跑完了，要趁机休息一下吗？"@),
        ),
{
    broadcast use crate::json::group_fields;

    reveal_strlit("kind");
    reveal_strlit("title");
    reveal_strlit("message");
    reveal_strlit("sub");
    reveal_strlit("actions");
    reveal_strlit("defaultAction");
    reveal_strlit("timeoutMs");
    reveal_strlit("source");
    reveal_strlit("context");
    assert("kind"@.len() == 4);
    assert("title"@.len() == 5);
    assert("message"@.len() == 7);
    assert("sub"@.len() == 3);
    assert("actions"@.len() == 7);
    assert("defaultAction"@.len() == 13);
    assert("timeoutMs"@.len() == 9);
    assert("source"@.len() == 6);
    assert("context"@.len() == 7);
    assert("message"@[0] == 'm');
    assert("actions"@[0] == 'a');
    assert("context"@[0] == 'c');
}

/// Seeing a phase that was not seen before remembers it; only the working phase
/// begins the counts anew.
pub proof fn law_only_work_begins_anew(s: GatewayView, phase: Seq<char>, now: i64)
    ensures
        phase.len() > 0 ==> observed(s, phase, now).prev_phase == Some(phase),
        phase.len() == 0 ==> observed(s, phase, now) == s,
        phase != "work"@ ==> observed(s, phase, now).activity == s.activity,
        observed(s, phase, now).last_break_suggest_at == s.last_break_suggest_at,
{
}

/// The state is told as it is: the timer's members, the counts, how many popups
/// wait, and where the gateway listens.
pub proof fn law_the_state_is_told(t: TimerView, a: Activity, pending: int, port: int)
    ensures
        ({
            let s = status(t, a, pending, port);
            let timer = s.field("timer"@);
            let told = s.field("activity"@);
            let gateway = s.field("gateway"@);
            &&& s.field("ok"@) == Some(JsonView::Bool(true))
            &&& s.field("pending"@) == Some(JsonView::Int(pending))
            &&& timer is Some && told is Some && gateway is Some
            &&& timer->0.field("phase"@) == Some(JsonView::Str(t.phase))
            &&& timer->0.field("running"@) == Some(JsonView::Bool(t.running))
            &&& timer->0.field("remainMs"@) == Some(t.remain_ms)
            &&& timer->0.field("totalMs"@) == Some(t.total_ms)
            &&& timer->0.field("completedFocus"@) == Some(t.completed_focus)
            &&& timer->0.field("roundInCycle"@) == Some(t.round_in_cycle)
            &&& timer->0.field("rounds"@) == Some(t.rounds)
            &&& told->0.field("toolCalls"@) == Some(JsonView::Int(a.tool_calls as int))
            &&& told->0.field("interruptions"@) == Some(JsonView::Int(a.interruptions as int))
            &&& told->0.field("stops"@) == Some(JsonView::Int(a.stops as int))
            &&& told->0.field("sessions"@) == Some(JsonView::Int(a.sessions as int))
            &&& gateway->0.field("version"@) == Some(JsonView::Int(2))
            &&& gateway->0.field("port"@) == Some(JsonView::Int(port))
        }),
{
    broadcast use crate::json::group_fields;

    state::law_activity_is_told(a);
    reveal_strlit("ok");
    reveal_strlit("timer");
    reveal_strlit("activity");
    reveal_strlit("pending");
    reveal_strlit("gateway");
    reveal_strlit("phase");
    reveal_strlit("running");
    reveal_strlit("remainMs");
    reveal_strlit("totalMs");
    reveal_strlit("completedFocus");
    reveal_strlit("roundInCycle");
    reveal_strlit("rounds");
    reveal_strlit("version");
    reveal_strlit("port");
    assert("ok"@.len() == 2);
    assert("timer"@.len() == 5);
    assert("activity"@.len() == 8);
    assert("pending"@.len() == 7);
    assert("gateway"@.len() == 7);
    assert("phase"@.len() == 5);
    assert("running"@.len() == 7);
    assert("remainMs"@.len() == 8);
    assert("totalMs"@.len() == 7);
    assert("completedFocus"@.len() == 14);
    assert("roundInCycle"@.len() == 12);
    assert("rounds"@.len() == 6);
    assert("version"@.len() == 7);
    assert("port"@.len() == 4);
    assert("timer"@[0] == 't');
    assert("activity"@[0] == 'a');
    assert("pending"@[0] == 'p');
    assert("gateway"@[0] == 'g');
    assert("phase"@[0] == 'p');
    assert("running"@[0] == 'r');
    assert("remainMs"@[0] == 'r');
    assert("totalMs"@[0] == 't');
    assert("version"@[0] == 'v');
}

/// The discovery file tells where the gateway listens, what lets one in, and which
/// process it is.
pub proof fn law_the_discovery_file_tells(port: int, token: Seq<char>, pid: int, now: int)
    ensures
        ({
            let d = discovery(port, token, pid, now);
            &&& d.field("port"@) == Some(JsonView::Int(port))
            &&& d.field("token"@) == Some(JsonView::Str(token))
            &&& d.field("pid"@) == Some(JsonView::Int(pid))
            &&& d.field("version"@) == Some(JsonView::Int(2))
            &&& d.field("startedAt"@) == Some(JsonView::Str(time::iso_text(now)))
        }),
{
    broadcast use crate::json::group_fields;

    reveal_strlit("port");
    reveal_strlit("token");
    reveal_strlit("pid");
    reveal_strlit("version");
    reveal_strlit("startedAt");
    assert("port"@.len() == 4);
    assert("token"@.len() == 5);
    assert("pid"@.len() == 3);
    assert("version"@.len() == 7);
    assert("startedAt"@.len() == 9);
}

/// The gateway listens on 5277 first, unless the environment names another port.
pub proof fn law_the_first_port(set: Seq<char>)
    ensures
        base_of(None) == 5277,
        text::number_of(set, 10, 65535) is None ==> base_of(Some(set)) == 5277,
        text::number_of(set, 10, 65535) matches Some(n) ==> base_of(Some(set)) == n,
        PORT_ATTEMPTS == 20,
{
}

proof fn lemma_shown_answer(kind: Seq<char>)
    ensures
        shown_answer(kind).field("ok"@) == Some(JsonView::Bool(true)),
        shown_answer(kind).field("kind"@) == Some(JsonView::Str(kind)),
        shown_answer(kind).field("action"@) == Some(JsonView::Str("shown"@)),
        shown_answer(kind).field("decidedBy"@) == Some(JsonView::Str("shown"@)),
{
    broadcast use crate::json::group_fields;

    reveal_strlit("ok");
    reveal_strlit("kind");
    reveal_strlit("action");
    reveal_strlit("answers");
    reveal_strlit("text");
    reveal_strlit("decidedBy");
    assert("ok"@.len() == 2);
    assert("kind"@.len() == 4);
    assert("action"@.len() == 6);
    assert("answers"@.len() == 7);
    assert("text"@.len() == 4);
    assert("decidedBy"@.len() == 9);
    assert("kind"@[0] == 'k');
    assert("text"@[0] == 't');
}

/// A popup that nothing can be answered in is shown and not waited for: a
/// notification without buttons, and a question without questions, which is shown
/// as a notification that looks like a question. Who asked is told that it was
/// shown, not that the user decided. Every other popup is waited for, as long as the
/// request says.
pub proof fn law_only_what_can_be_answered_is_waited_for(norm: JsonView, kind: Seq<char>)
    requires
        norm is Obj,
        norm.field("kind"@) == Some(JsonView::Str(kind)),
    ensures
        kind == "notification"@ && norm.items("actions"@).len() == 0 ==> (planned(
            norm,
        ) matches PlanView::Show(p, a) && p.field("kind"@) == Some(JsonView::Str("notification"@))
            && a.field("kind"@) == Some(JsonView::Str("notification"@)) && a.field("action"@)
            == Some(JsonView::Str("shown"@)) && a.field("decidedBy"@) == Some(
            JsonView::Str("shown"@),
        )),
        kind == "ask"@ && norm.items("questions"@).len() == 0 ==> (planned(
            norm,
        ) matches PlanView::Show(p, a) && p.field("kind"@) == Some(JsonView::Str("notification"@))
            && p.field("flavor"@) == Some(JsonView::Str("ask"@)) && a.field("kind"@) == Some(
            JsonView::Str("notification"@),
        ) && a.field("decidedBy"@) == Some(JsonView::Str("shown"@))),
        !(kind == "notification"@ && norm.items("actions"@).len() == 0) && !(kind == "ask"@
            && norm.items("questions"@).len() == 0) ==> (planned(norm) matches PlanView::Wait(k, p, ms)
            && k == kind && p == norm && ms == payload::clamp_of(
            norm.field("timeoutMs"@),
            Reading::Absent,
        )),
{
    broadcast use crate::json::group_fields;

    reveal_strlit("kind");
    reveal_strlit("flavor");
    reveal_strlit("notification");
    reveal_strlit("ask");
    assert("kind"@.len() == 4);
    assert("flavor"@.len() == 6);
    assert("notification"@.len() == 12);
    assert("ask"@.len() == 3);
    lemma_shown_answer("notification"@);
    assert(JsonView::Obj(norm.members()) == norm);
    if kind == "notification"@ {
        payload::law_the_kind_is_kept(norm, Reading::Absent, "notification"@);
    }
    let n = norm.set("kind"@, JsonView::Str("notification"@)).set("flavor"@, JsonView::Str("ask"@));
    assert(JsonView::Obj(n.members()) == n);
    payload::law_the_kind_is_kept(n, Reading::Absent, "notification"@);
    payload::law_the_flavor_is_kept(n, Reading::Absent, "ask"@);
}

/// A request that names no kind at the address for notifications is one; one that
/// names its kind keeps it.
pub proof fn law_what_names_no_kind_is_a_notification(p: JsonView, written: Reading, kind: Seq<char>)
    requires
        p is Obj,
    ensures
        p.field("kind"@) is None ==> notice(p, written).field("kind"@) == Some(
            JsonView::Str("notification"@),
        ),
        p.field("kind"@) == Some(JsonView::Str(kind)) && (kind == "ask"@ || kind == "permission"@
            || kind == "notification"@ || kind == "custom"@) ==> notice(p, written).field("kind"@)
            == Some(JsonView::Str(kind)),
{
    broadcast use crate::json::group_fields;

    assert(JsonView::Obj(p.members()) == p);
    if p.field("kind"@) is None {
        payload::law_the_kind_is_kept(
            p.set("kind"@, JsonView::Str("notification"@)),
            written,
            "notification"@,
        );
    }
    if p.field("kind"@) == Some(JsonView::Str(kind)) && (kind == "ask"@ || kind == "permission"@
        || kind == "notification"@ || kind == "custom"@) {
        payload::law_the_kind_is_kept(p, written, kind);
    }
}

// ---------------------------------------------------------------------------
// Who is let in, word for word
// ---------------------------------------------------------------------------

/// What follows a host's name: nothing, or a colon and digits.
pub open spec fn is_port(port: Seq<char>) -> bool {
    port.len() == 0 || (port.len() > 1 && port[0] == ':' && forall|i: int|
        1 <= i < port.len() ==> '0' <= #[trigger] port[i] <= '9')
}

proof fn lemma_is_port(port: Seq<char>)
    ensures
        is_port(port) == port_or_nothing(port),
{
    if port.len() > 1 {
        let digits = port.skip(1);
        if is_port(port) {
            assert forall|i: int| 0 <= i < digits.len() implies '0' <= #[trigger] digits[i] <= '9' by {
                assert(digits[i] == port[i + 1]);
            }
        }
        if port_or_nothing(port) {
            assert forall|i: int| 1 <= i < port.len() implies '0' <= #[trigger] port[i] <= '9' by {
                assert(digits[i - 1] == port[i]);
            }
        }
    }
}

proof fn lemma_first_at(s: Seq<char>, c: char, k: int)
    requires
        0 <= k <= s.len(),
        forall|i: int| 0 <= i < k ==> #[trigger] s[i] != c,
        k < s.len() ==> s[k] == c,
    ensures
        text::index_of(s, c) == k,
{
    text::lemma_index_of(s, c);
    let j = text::index_of(s, c);
    if j < k {
        assert(s[j] != c);
    }
    if k < j {
        assert(s[k] != c);
    }
}

/// This machine is known by its three names, in any case, with or without a port.
pub proof fn law_this_machine_is_known_by_its_names(
    host: Seq<char>,
    name: Seq<char>,
    port: Seq<char>,
)
    requires
        text::lowered(text::trimmed(host)) == name + port,
        name == "127.0.0.1"@ || name == "localhost"@ || name == "[::1]"@,
        is_port(port),
    ensures
        loopback(host),
{
    let h = name + port;
    let n = name.len() as int;
    lemma_is_port(port);
    reveal_strlit("127.0.0.1");
    reveal_strlit("localhost");
    reveal_strlit("[::1]");
    assert("127.0.0.1"@.len() == 9);
    assert("127.0.0.1"@[0] == '1');
    assert("127.0.0.1"@[1] == '2');
    assert("127.0.0.1"@[2] == '7');
    assert("127.0.0.1"@[3] == '.');
    assert("127.0.0.1"@[4] == '0');
    assert("127.0.0.1"@[5] == '.');
    assert("127.0.0.1"@[6] == '0');
    assert("127.0.0.1"@[7] == '.');
    assert("127.0.0.1"@[8] == '1');
    assert("localhost"@.len() == 9);
    assert("localhost"@[0] == 'l');
    assert("localhost"@[1] == 'o');
    assert("localhost"@[2] == 'c');
    assert("localhost"@[3] == 'a');
    assert("localhost"@[4] == 'l');
    assert("localhost"@[5] == 'h');
    assert("localhost"@[6] == 'o');
    assert("localhost"@[7] == 's');
    assert("localhost"@[8] == 't');
    assert("[::1]"@.len() == 5);
    assert("[::1]"@[0] == '[');
    assert("[::1]"@[1] == ':');
    assert("[::1]"@[2] == ':');
    assert("[::1]"@[3] == '1');
    assert("[::1]"@[4] == ']');
    assert(h.take(n) =~= name);
    assert(h.skip(n) =~= port);
    assert(h[0] == name[0]);
    if name == "[::1]"@ {
        assert(h[0] == '[' && h[1] == ':' && h[2] == ':' && h[3] == '1' && h[4] == ']');
        lemma_first_at(h, ']', 4);
    } else if name == "127.0.0.1"@ {
        assert forall|i: int| 0 <= i < "127.0.0.1"@.len() implies #[trigger] "127.0.0.1"@[i] != ':' by {
            assert(i == 0 || i == 1 || i == 2 || i == 3 || i == 4 || i == 5 || i == 6 || i == 7 || i == 8);
            assert("127.0.0.1"@[0] == '1');
            assert("127.0.0.1"@[1] == '2');
            assert("127.0.0.1"@[2] == '7');
            assert("127.0.0.1"@[3] == '.');
            assert("127.0.0.1"@[4] == '0');
            assert("127.0.0.1"@[5] == '.');
            assert("127.0.0.1"@[6] == '0');
            assert("127.0.0.1"@[7] == '.');
            assert("127.0.0.1"@[8] == '1');
        }
        assert forall|i: int| 0 <= i < n implies #[trigger] h[i] != ':' by {
            assert(h[i] == name[i]);
        }
        if n < h.len() {
            assert(h[n] == port[0]);
        }
        lemma_first_at(h, ':', n);
    } else {
        assert forall|i: int| 0 <= i < "localhost"@.len() implies #[trigger] "localhost"@[i] != ':' by {
            assert(i == 0 || i == 1 || i == 2 || i == 3 || i == 4 || i == 5 || i == 6 || i == 7 || i == 8);
            assert("localhost"@[0] == 'l');
            assert("localhost"@[1] == 'o');
            assert("localhost"@[2] == 'c');
            assert("localhost"@[3] == 'a');
            assert("localhost"@[4] == 'l');
            assert("localhost"@[5] == 'h');
            assert("localhost"@[6] == 'o');
            assert("localhost"@[7] == 's');
            assert("localhost"@[8] == 't');
        }
        assert forall|i: int| 0 <= i < n implies #[trigger] h[i] != ':' by {
            assert(h[i] == name[i]);
        }
        if n < h.len() {
            assert(h[n] == port[0]);
        }
        lemma_first_at(h, ':', n);
    }
}

/// No other name is this machine's.
pub proof fn law_no_other_name_is_this_machines(host: Seq<char>)
    requires
        loopback(host),
    ensures
        exists|port: Seq<char>|
            #[trigger] is_port(port) && (text::lowered(text::trimmed(host)) == "127.0.0.1"@ + port
                || text::lowered(text::trimmed(host)) == "localhost"@ + port || text::lowered(
                text::trimmed(host),
            ) == "[::1]"@ + port),
{
    let h = text::lowered(text::trimmed(host));
    let k = name_end(h)->0;
    text::lemma_index_of(h, ']');
    text::lemma_index_of(h, ':');
    let port = h.skip(k);
    lemma_is_port(port);
    assert(h =~= h.take(k) + port);
    assert(is_port(port));
}

proof fn lemma_first_header(headers: Seq<(Seq<char>, Seq<char>)>, name: Seq<char>, i: int)
    requires
        0 <= i < headers.len(),
        text::lowered(headers[i].0) == name,
        forall|j: int| 0 <= j < i ==> text::lowered((#[trigger] headers[j]).0) != name,
    ensures
        first_header(headers, name) == Some(headers[i].1),
    decreases headers.len(),
{
    if i > 0 {
        let rest = headers.drop_first();
        assert(text::lowered(headers[0].0) != name);
        assert(rest[i - 1] == headers[i]);
        assert forall|j: int| 0 <= j < i - 1 implies text::lowered((#[trigger] rest[j]).0) != name by {
            assert(rest[j] == headers[j + 1]);
        }
        lemma_first_header(rest, name, i - 1);
    }
}

proof fn lemma_no_header(headers: Seq<(Seq<char>, Seq<char>)>, name: Seq<char>)
    requires
        forall|j: int| 0 <= j < headers.len() ==> text::lowered((#[trigger] headers[j]).0) != name,
    ensures
        first_header(headers, name) is None,
    decreases headers.len(),
{
    if headers.len() > 0 {
        let rest = headers.drop_first();
        assert(text::lowered(headers[0].0) != name);
        assert forall|j: int| 0 <= j < rest.len() implies text::lowered((#[trigger] rest[j]).0) != name by {
            assert(rest[j] == headers[j + 1]);
        }
        lemma_no_header(rest, name);
    }
}

/// Whoever bears the token in the first authorization header is let in; whoever bears
/// another, or bears it otherwise, or has no such header, is not.
pub proof fn law_the_token_lets_in(
    headers: Seq<(Seq<char>, Seq<char>)>,
    token: Seq<char>,
    i: int,
    other: Seq<char>,
)
    requires
        0 <= i < headers.len(),
        text::lowered(headers[i].0) == "authorization"@,
        forall|j: int| 0 <= j < i ==> text::lowered((#[trigger] headers[j]).0) != "authorization"@,
        token.len() > 0,
        !text::white(token[0]),
        !text::white(token.last()),
        other.len() > 0,
        !text::white(other[0]),
        !text::white(other.last()),
    ensures
        headers[i].1 == "Bearer "@ + token ==> has_token(headers, token),
        headers[i].1 == "bearer "@ + token ==> has_token(headers, token),
        headers[i].1 == "Bearer "@ + other && other != token ==> !has_token(headers, token),
        headers[i].1 == token ==> !has_token(headers, token) || text::starts_with(token, "Bearer "@)
            || text::starts_with(token, "bearer "@),
{
    lemma_first_header(headers, "authorization"@, i);
    reveal_strlit("Bearer ");
    reveal_strlit("bearer ");
    assert("Bearer "@.len() == 7 && "bearer "@.len() == 7);
    let a = "Bearer "@ + token;
    let b = "bearer "@ + token;
    let c = "Bearer "@ + other;
    assert(a.subrange(0, 7) =~= "Bearer "@);
    assert(b.subrange(0, 7) =~= "bearer "@);
    assert(c.subrange(0, 7) =~= "Bearer "@);
    assert(a.skip(7) =~= token);
    assert(b.skip(7) =~= token);
    assert(c.skip(7) =~= other);
    text::law_what_is_trimmed_stays(token);
    text::law_what_is_trimmed_stays(other);
}

/// Without an authorization header nobody is let in, and without a host header no
/// request is meant for this machine.
pub proof fn law_missing_headers_let_nobody_in(
    headers: Seq<(Seq<char>, Seq<char>)>,
    token: Seq<char>,
)
    ensures
        (forall|j: int|
            0 <= j < headers.len() ==> text::lowered((#[trigger] headers[j]).0) != "authorization"@)
            ==> !has_token(headers, token),
        (forall|j: int|
            0 <= j < headers.len() ==> text::lowered((#[trigger] headers[j]).0) != "host"@)
            ==> !host_allowed(headers),
{
    if forall|j: int|
        0 <= j < headers.len() ==> text::lowered((#[trigger] headers[j]).0) != "authorization"@ {
        lemma_no_header(headers, "authorization"@);
    }
}

/// A request with one host header that names this machine is meant for it.
pub proof fn law_one_host_header_is_enough(headers: Seq<(Seq<char>, Seq<char>)>, i: int)
    requires
        0 <= i < headers.len(),
        text::lowered(headers[i].0) == "host"@,
        loopback(headers[i].1),
        forall|j: int|
            0 <= j < headers.len() && j != i ==> text::lowered((#[trigger] headers[j]).0) != "host"@,
    ensures
        host_allowed(headers),
{
    assert(is_named(headers[i], "host"@));
}

/// The suggestion of a break says what taking it means.
pub proof fn law_a_break_says_what_it_means(ev: JsonView)
    ensures
        break_request(ev).field("sub"@) == Some(
            JsonView::Str("选择「休息一下」将提前结束本段专注进入休息"@),
        ),
        break_request(ev).field("title"@) == Some(JsonView::Str("Agent 空闲了"@)),
{
    broadcast use crate::json::group_fields;

    reveal_strlit("kind");
    reveal_strlit("title");
    reveal_strlit("message");
    reveal_strlit("sub");
    reveal_strlit("actions");
    reveal_strlit("defaultAction");
    reveal_strlit("timeoutMs");
    reveal_strlit("source");
    reveal_strlit("context");
    assert("kind"@.len() == 4);
    assert("title"@.len() == 5);
    assert("message"@.len() == 7);
    assert("sub"@.len() == 3);
    assert("actions"@.len() == 7);
    assert("defaultAction"@.len() == 13);
    assert("timeoutMs"@.len() == 9);
    assert("source"@.len() == 6);
    assert("context"@.len() == 7);
    assert("message"@[0] == 'm');
    assert("actions"@[0] == 'a');
    assert("context"@[0] == 'c');
}

} // verus!
