//! Finding the gateway and speaking HTTP/1.1 to it: framing requests, reading
//! responses.

use vstd::prelude::*;
use crate::env;
use crate::env::env_str;
use crate::gateway;
use crate::json;
use crate::json::{get, pick_str, Json, JsonView};
use crate::text;
use crate::text::{cat2, chars_of, contains_text, decimal, find_char, parse_number, read_second_word, same};
use crate::text::{split_text, text_between, to_lower, trim};

verus! {

broadcast use crate::json::group_json;

// ---------------------------------------------------------------------------
// The gateway
// ---------------------------------------------------------------------------

/// Where the gateway listens, and the token that it wants.
#[derive(Debug)]
pub struct Gateway {
    pub port: u16,
    pub token: String,
}

/// What went wrong, in words.
#[derive(Debug)]
pub struct HttpError(pub String);

/// The model of a [`Gateway`].
pub struct GatewayView {
    pub port: int,
    pub token: Seq<char>,
}

impl View for Gateway {
    type V = GatewayView;

    open spec fn view(&self) -> GatewayView {
        GatewayView { port: self.port as int, token: self.token@ }
    }
}

/// The model of an optional gateway.
pub open spec fn gateway_view(g: Option<Gateway>) -> Option<GatewayView> {
    match g {
        Some(x) => Some(x@),
        None => None,
    }
}

/// The gateway that the environment names: a port that is a positive 32-bit
/// number, of which the low 16 bits count, and a token.
pub open spec fn named_gateway(port: Option<String>, token: Option<String>) -> Option<GatewayView> {
    match (env::said(port), env::said(token)) {
        (Some(p), Some(t)) => match text::number_of(text::trimmed(p), 10, u32::MAX as int) {
            Some(n) if n > 0 => Some(GatewayView { port: n % 65536, token: t }),
            _ => None,
        },
        _ => None,
    }
}

/// The gateway that a discovery file describes: a port in range and a token.
pub open spec fn described_gateway(info: JsonView) -> Option<GatewayView> {
    let token = info.pick_text(seq!["token"]);
    match info.field("port"@) {
        Some(JsonView::Int(n)) if 0 < n <= 65535 && token.len() > 0 => Some(
            GatewayView { port: n, token },
        ),
        _ => None,
    }
}

/// The first gateway that a row of discovery files describes.
pub open spec fn first_described(files: Seq<JsonView>) -> Option<GatewayView>
    decreases files.len(),
{
    if files.len() == 0 {
        None
    } else {
        match described_gateway(files[0]) {
            Some(g) => Some(g),
            None => first_described(files.drop_first()),
        }
    }
}

fn read_named(port: &Option<String>, token: &Option<String>) -> (r: Option<Gateway>)
    ensures
        gateway_view(r) == named_gateway(*port, *token),
{
    let p = match env_str(port) {
        Some(p) => p,
        None => return None,
    };
    let t = match env_str(token) {
        Some(t) => t,
        None => return None,
    };
    match parse_number(trim(p.as_str()).as_str(), 10, 0xFFFF_FFFF) {
        Some(n) => if n > 0 {
            Some(Gateway { port: (n % 65536) as u16, token: t })
        } else {
            None
        },
        None => None,
    }
}

fn read_described(info: &Json) -> (r: Option<Gateway>)
    ensures
        gateway_view(r) == described_gateway(info@),
{
    let token = pick_str(info, &["token"]);
    match get(info, "port") {
        Some(Json::PosInt(n)) => if 0 < *n && *n <= 65535 && !token.as_str().is_empty() {
            Some(Gateway { port: *n as u16, token })
        } else {
            None
        },
        Some(Json::NegInt(n)) => if 0 < *n && *n <= 65535 && !token.as_str().is_empty() {
            Some(Gateway { port: *n as u16, token })
        } else {
            None
        },
        _ => None,
    }
}

/// The values that texts hold, those that are not JSON left out.
pub open spec fn readable(texts: Seq<Seq<char>>) -> Seq<JsonView>
    decreases texts.len(),
{
    if texts.len() == 0 {
        Seq::empty()
    } else {
        match json::parsed(texts.last()) {
            Some(v) => readable(texts.drop_last()).push(v),
            None => readable(texts.drop_last()),
        }
    }
}

/// Finds the gateway: as the environment names it, else as the first of the
/// discovery files does that describes one. `texts` holds what the files hold
/// that could be read, in order.
pub fn find_gateway(port: &Option<String>, token: &Option<String>, texts: &[String]) -> (r: Option<
    Gateway,
>)
    ensures
        gateway_view(r) == (match named_gateway(*port, *token) {
            Some(g) => Some(g),
            None => first_described(readable(text::texts(texts@))),
        }),
{
    let ghost all = text::texts(texts@);
    let mut files: Vec<Json> = Vec::new();
    let mut i: usize = 0;
    assert(all.take(0) =~= Seq::empty());
    assert(json::views(files@) =~= Seq::empty());
    while i < texts.len()
        invariant
            i <= texts@.len(),
            all == text::texts(texts@),
            json::views(files@) == readable(all.take(i as int)),
        decreases texts.len() - i,
    {
        let ghost before = json::views(files@);
        assert(all.take(i as int + 1).drop_last() =~= all.take(i as int));
        assert(all.take(i as int + 1).last() == texts@[i as int]@);
        if let Some(v) = json::parse_stored(texts[i].as_str()) {
            files.push(v);
            assert(json::views(files@) =~= before.push(v@));
        }
        i += 1;
    }
    assert(all.take(i as int) =~= all);
    pick_gateway(port, token, files.as_slice())
}

/// Finds the gateway: as the environment names it, else as the first of the
/// discovery files does that describes one. `files` holds the values of those
/// that could be read, in order.
pub fn pick_gateway(port: &Option<String>, token: &Option<String>, files: &[Json]) -> (r: Option<
    Gateway,
>)
    ensures
        gateway_view(r) == (match named_gateway(*port, *token) {
            Some(g) => Some(g),
            None => first_described(json::views(files@)),
        }),
{
    if let Some(g) = read_named(port, token) {
        return Some(g);
    }
    let mut i: usize = 0;
    let ghost all = json::views(files@);
    assert(all.skip(0) =~= all);
    while i < files.len()
        invariant
            i <= files@.len(),
            all == json::views(files@),
            named_gateway(*port, *token) is None,
            first_described(all) == first_described(all.skip(i as int)),
        decreases files.len() - i,
    {
        assert(all.skip(i as int).drop_first() =~= all.skip(i as int + 1));
        assert(all.skip(i as int)[0] == files@[i as int]@);
        if let Some(g) = read_described(&files[i]) {
            return Some(g);
        }
        i += 1;
    }
    None
}

// ---------------------------------------------------------------------------
// Requests
// ---------------------------------------------------------------------------

/// The head and the body of a request to the gateway. The length counts the
/// bytes of the body.
pub open spec fn request_text(
    port: int,
    token: Seq<char>,
    method: Seq<char>,
    path: Seq<char>,
    data: Option<Seq<char>>,
) -> Seq<char> {
    let line = method + " "@ + path + " HTTP/1.1\r\n"@;
    let host = line + "Host: 127.0.0.1:"@ + text::int_text(port) + "\r\n"@
        + "Accept: application/json\r\n"@;
    let auth = if token.len() > 0 {
        host + "Authorization: Bearer "@ + token + "\r\n"@
    } else {
        host
    };
    match data {
        Some(d) => auth + "Content-Type: application/json\r\n"@ + "Content-Length: "@
            + text::int_text(vstd::utf8::encode_utf8(d).len() as int) + "\r\n"@
            + "Connection: close\r\n\r\n"@ + d,
        None => auth + "Connection: close\r\n\r\n"@,
    }
}

/// Frames a request whose body is already printed.
pub fn frame_request(port: u16, token: &str, method: &str, path: &str, data: Option<&str>) -> (r:
    String)
    ensures
        r@ == request_text(
            port as int,
            token@,
            method@,
            path@,
            match data {
                Some(d) => Some(d@),
                None => None,
            },
        ),
{
    let mut r = method.to_owned();
    r.append(" ");
    r.append(path);
    r.append(" HTTP/1.1\r\n");
    r.append("Host: 127.0.0.1:");
    r.append(decimal(port as u64).as_str());
    r.append("\r\n");
    r.append("Accept: application/json\r\n");
    if !token.is_empty() {
        r.append("Authorization: Bearer ");
        r.append(token);
        r.append("\r\n");
    }
    match data {
        Some(d) => {
            r.append("Content-Type: application/json\r\n");
            r.append("Content-Length: ");
            r.append(decimal(d.as_bytes().len() as u64).as_str());
            r.append("\r\n");
            r.append("Connection: close\r\n\r\n");
            r.append(d);
        },
        None => {
            r.append("Connection: close\r\n\r\n");
        },
    }
    r
}

/// Frames a request with a JSON body. The gateway reads a plain body as it was.
pub fn raw_request(port: u16, token: &str, method: &str, path: &str, body: Option<&Json>) -> (r:
    String)
    ensures
        r@ == request_text(
            port as int,
            token@,
            method@,
            path@,
            match body {
                Some(b) => Some(json::compact(b@)),
                None => None,
            },
        ),
        body matches Some(b) ==> (json::plain(b@, json::MAX_DEPTH as int) ==> gateway::body_value(
            json::compact(b@),
        ) == Ok::<JsonView, gateway::AnswerView>(b@)),
{
    match body {
        Some(b) => {
            let data = json::compact_text(b);
            frame_request(port, token, method, path, Some(data.as_str()))
        },
        None => frame_request(port, token, method, path, None),
    }
}

// ---------------------------------------------------------------------------
// Decoding
// ---------------------------------------------------------------------------

/// What `String::from_utf8_lossy` of the standard library makes of bytes.
pub uninterp spec fn lossy_text(bytes: Seq<u8>) -> Seq<char>;

/// `String::from_utf8_lossy` of the standard library: bytes in UTF-8 give their
/// text, and what is not UTF-8 is replaced in a way that depends on the bytes
/// alone.
#[verifier::external_body]
pub(crate) fn decode_lossy(bytes: &[u8]) -> (r: String)
    ensures
        r@ == lossy_text(bytes@),
        vstd::utf8::valid_utf8(bytes@) ==> r@ == vstd::utf8::decode_utf8(bytes@),
{
    String::from_utf8_lossy(bytes).into_owned()
}

/// `std::str::from_utf8` of the standard library: the text of bytes in UTF-8,
/// and none for others.
#[verifier::external_body]
fn decode_strict(bytes: &[u8]) -> (r: Option<String>)
    ensures
        r is Some == vstd::utf8::valid_utf8(bytes@),
        r matches Some(s) ==> s@ == vstd::utf8::decode_utf8(bytes@),
{
    std::str::from_utf8(bytes).ok().map(|s| s.to_owned())
}

// ---------------------------------------------------------------------------
// Responses
// ---------------------------------------------------------------------------

/// What the head of a response says of its body.
#[derive(Clone, Copy, PartialEq, Eq, Structural, Debug)]
pub struct Headers {
    pub content_length: Option<usize>,
    pub chunked: bool,
}

/// The headers after one more line: a later length counts, and once the body is
/// said to come in chunks it does.
pub open spec fn with_line(h: Headers, line: Seq<char>) -> Headers {
    let i = text::index_of(line, ':');
    if i < line.len() {
        let name = text::lowered(text::trimmed(line.take(i)));
        let value = text::trimmed(line.skip(i + 1));
        if name == "content-length"@ {
            Headers {
                content_length: match text::number_of(value, 10, usize::MAX as int) {
                    Some(n) => Some(n as usize),
                    None => None,
                },
                chunked: h.chunked,
            }
        } else if name == "transfer-encoding"@ && text::contains(
            text::lowered(value),
            "chunked"@,
        ) {
            Headers { content_length: h.content_length, chunked: true }
        } else {
            h
        }
    } else {
        h
    }
}

/// The headers after the lines from place `i` up to the first empty one.
pub open spec fn with_lines(h: Headers, lines: Seq<Seq<char>>, i: int) -> Headers
    decreases lines.len() - i,
{
    if i < 0 || i >= lines.len() || lines[i].len() == 0 {
        h
    } else {
        with_lines(with_line(h, lines[i]), lines, i + 1)
    }
}

/// The status and the headers of a response's head, or the status line where it
/// has no status.
pub open spec fn head_of(head: Seq<char>) -> Result<(int, Headers), Seq<char>> {
    let lines = text::split_by(head, "\r\n"@);
    match text::number_of(text::second_word(lines[0]), 10, 65535) {
        Some(status) => Ok(
            (status, with_lines(Headers { content_length: None, chunked: false }, lines, 1)),
        ),
        None => Err(lines[0]),
    }
}

fn read_line(h: Headers, line: &str) -> (r: Headers)
    ensures
        r == with_line(h, line@),
{
    let v = chars_of(line);
    let i: usize = find_char(&v, ':');
    if i >= v.len() {
        return h;
    }
    let raw_name = text_between(&v, 0, i);
    let raw_value = text_between(&v, i + 1, v.len());
    proof {
        assert(v@.subrange(0, i as int) =~= line@.take(i as int));
        assert(v@.subrange(i + 1, v@.len() as int) =~= line@.skip(i + 1));
    }
    let name = to_lower(trim(raw_name.as_str()).as_str());
    let value = trim(raw_value.as_str());
    if same(name.as_str(), "content-length") {
        let n = parse_number(value.as_str(), 10, usize::MAX as u64);
        return Headers {
            content_length: match n {
                Some(x) => Some(x as usize),
                None => None,
            },
            chunked: h.chunked,
        };
    }
    if same(name.as_str(), "transfer-encoding") && contains_text(
        to_lower(value.as_str()).as_str(),
        "chunked",
    ) {
        return Headers { content_length: h.content_length, chunked: true };
    }
    h
}

/// Reads the head of a response.
pub fn parse_head(head: &str) -> (r: Result<(u16, Headers), HttpError>)
    ensures
        match head_of(head@) {
            Ok((status, h)) => r matches Ok((s, g)) && s == status && g == h,
            Err(line) => r matches Err(e) && e.0@ == "状态行无法解析: "@ + line,
        },
{
    proof {
        reveal_strlit("\r\n");
    }
    let lines = split_text(head, "\r\n");
    let ghost all = text::split_by(head@, "\r\n"@);
    assert(all.len() == lines@.len());
    assert(all.len() > 0);
    assert(all[0] == lines@[0]@);
    let code = read_second_word(lines[0].as_str());
    let status: u64 = match parse_number(code.as_str(), 10, 65535) {
        Some(n) => n,
        None => return Err(HttpError(cat2("状态行无法解析: ", lines[0].as_str()))),
    };
    let start = Headers { content_length: None, chunked: false };
    let mut h = start;
    let mut i: usize = 1;
    while i < lines.len() && !lines[i].as_str().is_empty()
        invariant
            1 <= i <= lines@.len(),
            all == text::texts(lines@),
            with_lines(start, all, 1) == with_lines(h, all, i as int),
        decreases lines.len() - i,
    {
        assert(all[i as int] == lines@[i as int]@);
        h = read_line(h, lines[i].as_str());
        i += 1;
    }
    if i < lines.len() {
        assert(all[i as int] == lines@[i as int]@);
    }
    Ok((status as u16, h))
}

/// The first place where `needle` stands in `haystack`; none for the empty one.
pub fn find_subslice(haystack: &[u8], needle: &[u8]) -> (r: Option<usize>)
    ensures
        match r {
            Some(i) => needle@.len() > 0 && text::seek(haystack@, needle@, 0) == Some(i as int) && i
                + needle@.len() <= haystack@.len(),
            None => needle@.len() == 0 || text::seek(haystack@, needle@, 0) is None,
        },
{
    if needle.len() == 0 {
        return None;
    }
    find_from(haystack, needle, 0)
}

fn find_from(haystack: &[u8], needle: &[u8], from: usize) -> (r: Option<usize>)
    requires
        from <= haystack@.len(),
        needle@.len() > 0,
    ensures
        match r {
            Some(i) => text::seek(haystack@, needle@, from as int) == Some(i as int) && from <= i
                && i + needle@.len() <= haystack@.len(),
            None => text::seek(haystack@, needle@, from as int) is None,
        },
{
    let mut i: usize = from;
    while i < haystack.len() && needle.len() <= haystack.len() - i
        invariant
            from <= i <= haystack@.len(),
            needle@.len() > 0,
            text::seek(haystack@, needle@, from as int) == text::seek(
                haystack@,
                needle@,
                i as int,
            ),
        decreases haystack.len() - i,
    {
        let mut k: usize = 0;
        while k < needle.len() && haystack[i + k] == needle[k]
            invariant
                k <= needle.len(),
                i + needle.len() <= haystack.len(),
                forall|j: int| 0 <= j < k ==> haystack@[i + j] == needle@[j],
            decreases needle.len() - k,
        {
            k += 1;
        }
        if k == needle.len() {
            assert(haystack@.subrange(i as int, i + needle@.len()) =~= needle@);
            return Some(i);
        }
        assert(haystack@.subrange(i as int, i + needle@.len())[k as int] != needle@[k as int]);
        i += 1;
    }
    None
}

/// The end of a line.
pub open spec fn crlf() -> Seq<u8> {
    seq![13u8, 10u8]
}

/// The end of a head.
pub open spec fn blank_line() -> Seq<u8> {
    seq![13u8, 10u8, 13u8, 10u8]
}

/// The size that a chunk's first line gives: hexadecimal, before any semicolon.
pub open spec fn chunk_size(line: Seq<u8>) -> Option<int> {
    if vstd::utf8::valid_utf8(line) {
        let s = vstd::utf8::decode_utf8(line);
        text::number_of(text::trimmed(s.take(text::index_of(s, ';'))), 16, usize::MAX as int)
    } else {
        None
    }
}

/// The body that the chunks from place `i` on make up, once the last of them,
/// which is empty, is there. The end of a line follows each chunk; what breaks that is
/// no body.
pub open spec fn chunks_from(data: Seq<u8>, i: int) -> Option<Seq<u8>>
    decreases data.len() - i,
{
    match text::seek(data, crlf(), i) {
        Some(e) if 0 <= i <= e && e + 2 <= data.len() => match chunk_size(data.subrange(i, e)) {
            Some(n) if n == 0 => Some(Seq::empty()),
            Some(n) if n > 0 && e + 2 + n + 2 <= data.len() && data.subrange(
                e + 2 + n,
                e + 2 + n + 2,
            ) == crlf() => match chunks_from(data, e + 2 + n + 2) {
                Some(rest) => Some(data.subrange(e + 2, e + 2 + n) + rest),
                None => None,
            },
            _ => None,
        },
        _ => None,
    }
}

fn read_chunk_size(data: &[u8], from: usize, to: usize) -> (r: Option<usize>)
    requires
        from <= to <= data@.len(),
    ensures
        match r {
            Some(n) => chunk_size(data@.subrange(from as int, to as int)) == Some(n as int),
            None => chunk_size(data@.subrange(from as int, to as int)) is None,
        },
{
    let line = vstd::slice::slice_subrange(data, from, to);
    let s = match decode_strict(line) {
        Some(s) => s,
        None => return None,
    };
    let v = chars_of(s.as_str());
    let i: usize = find_char(&v, ';');
    let part = text_between(&v, 0, i);
    assert(v@.subrange(0, i as int) =~= s@.take(i as int));
    match parse_number(trim(part.as_str()).as_str(), 16, usize::MAX as u64) {
        Some(n) => Some(n as usize),
        None => None,
    }
}

fn push_range(out: &mut Vec<u8>, data: &[u8], from: usize, to: usize)
    requires
        from <= to <= data@.len(),
    ensures
        final(out)@ == old(out)@ + data@.subrange(from as int, to as int),
{
    out.extend_from_slice(vstd::slice::slice_subrange(data, from, to));
}

/// Decodes a body that comes in chunks; none as long as it is not complete.
pub fn decode_chunked(data: &[u8]) -> (r: Option<Vec<u8>>)
    ensures
        match r {
            Some(b) => chunks_from(data@, 0) == Some(b@),
            None => chunks_from(data@, 0) is None,
        },
{
    let mut out: Vec<u8> = Vec::new();
    let mut i: usize = 0;
    proof {
        if let Some(rest) = chunks_from(data@, 0) {
            assert(out@ + rest =~= rest);
        }
    }
    loop
        invariant
            i <= data@.len(),
            chunks_from(data@, 0) == (match chunks_from(data@, i as int) {
                Some(rest) => Some(out@ + rest),
                None => None,
            }),
        decreases data@.len() - i,
    {
        let mark: [u8; 2] = [13u8, 10u8];
        assert(mark@ =~= crlf());
        let e: usize = match find_from(data, mark.as_slice(), i) {
            Some(e) => e,
            None => return None,
        };
        let n: usize = match read_chunk_size(data, i, e) {
            Some(n) => n,
            None => return None,
        };
        assert(e + 2 <= data.len());
        let start: usize = e + 2;
        if n == 0 {
            assert(out@ + Seq::<u8>::empty() =~= out@);
            return Some(out);
        }
        if n > data.len() - start || data.len() - start - n < 2 {
            return None;
        }
        let after: usize = start + n;
        let ghost end = data@.subrange(after as int, after + 2);
        assert(end[0] == data@[after as int] && end[1] == data@[after + 1]);
        if data[after] != 13u8 || data[after + 1] != 10u8 {
            return None;
        }
        assert(end =~= crlf());
        let ghost before = out@;
        push_range(&mut out, data, start, start + n);
        proof {
            if let Some(rest) = chunks_from(data@, start + n + 2) {
                assert(before + (data@.subrange(start as int, start + n) + rest) =~= out@ + rest);
            }
        }
        i = start + n + 2;
    }
}

/// How far the reading of a response has come.
pub enum Progress {
    /// More has to be read.
    More,
    /// The response is complete: its status and its body.
    Done(u16, Vec<u8>),
    /// The response is broken.
    Failed(HttpError),
}

/// The model of a [`Progress`].
pub enum ProgressView {
    More,
    Done(int, Seq<u8>),
    Failed(Seq<char>),
}

impl View for Progress {
    type V = ProgressView;

    open spec fn view(&self) -> ProgressView {
        match *self {
            Progress::More => ProgressView::More,
            Progress::Done(status, body) => ProgressView::Done(status as int, body@),
            Progress::Failed(e) => ProgressView::Failed(e.0@),
        }
    }
}

/// How far a response has come whose head is read: `rest` is what follows the
/// head. A body of known length is complete when it is all there, one in chunks
/// when the last chunk is, and any other when the connection is closed.
pub open spec fn body_progress(status: int, h: Headers, rest: Seq<u8>, closed: bool) -> ProgressView {
    if h.content_length is Some && rest.len() >= h.content_length->0 {
        ProgressView::Done(status, rest.take(h.content_length->0 as int))
    } else if h.content_length is None && h.chunked && chunks_from(rest, 0) is Some {
        ProgressView::Done(status, chunks_from(rest, 0)->0)
    } else if closed {
        ProgressView::Done(
            status,
            if h.chunked {
                match chunks_from(rest, 0) {
                    Some(b) => b,
                    None => Seq::empty(),
                }
            } else {
                rest
            },
        )
    } else {
        ProgressView::More
    }
}

/// How far a response has come of which `buf` is read; `closed` says that no
/// more will come.
pub open spec fn progress_of(buf: Seq<u8>, closed: bool) -> ProgressView {
    match text::seek(buf, blank_line(), 0) {
        Some(pos) => match head_of(lossy_text(buf.take(pos + 4))) {
            Ok((status, h)) => body_progress(status, h, buf.skip(pos + 4), closed),
            Err(line) => ProgressView::Failed("状态行无法解析: "@ + line),
        },
        None => if closed {
            ProgressView::Failed("响应头不完整（连接被关闭）"@)
        } else {
            ProgressView::More
        },
    }
}

/// How far a response has come whose head is read.
pub fn read_body(status: u16, h: Headers, rest: &[u8], closed: bool) -> (r: Progress)
    ensures
        r@ == body_progress(status as int, h, rest@, closed),
{
    if let Some(n) = h.content_length {
        if rest.len() >= n {
            let mut body: Vec<u8> = Vec::new();
            push_range(&mut body, rest, 0, n);
            assert(body@ =~= rest@.take(n as int));
            return Progress::Done(status, body);
        }
    } else if h.chunked {
        if let Some(body) = decode_chunked(rest) {
            return Progress::Done(status, body);
        }
    }
    if !closed {
        return Progress::More;
    }
    if h.chunked {
        match decode_chunked(rest) {
            Some(body) => Progress::Done(status, body),
            None => {
                let body: Vec<u8> = Vec::new();
                assert(body@ =~= Seq::empty());
                Progress::Done(status, body)
            },
        }
    } else {
        let mut body: Vec<u8> = Vec::new();
        push_range(&mut body, rest, 0, rest.len());
        assert(body@ =~= rest@);
        Progress::Done(status, body)
    }
}

/// How far a response has come of which `buf` is read; `closed` says that no
/// more will come.
pub fn read_response(buf: &[u8], closed: bool) -> (r: Progress)
    ensures
        r@ == progress_of(buf@, closed),
{
    let mark: [u8; 4] = [13u8, 10u8, 13u8, 10u8];
    assert(mark@ =~= blank_line());
    match find_subslice(buf, mark.as_slice()) {
        Some(pos) => {
            assert(pos + 4 <= buf.len());
            let end: usize = pos + 4;
            let head_bytes = vstd::slice::slice_subrange(buf, 0, end);
            assert(buf@.subrange(0, end as int) =~= buf@.take(end as int));
            let head = decode_lossy(head_bytes);
            match parse_head(head.as_str()) {
                Ok((status, h)) => {
                    let rest = vstd::slice::slice_subrange(buf, end, buf.len());
                    assert(buf@.subrange(end as int, buf@.len() as int) =~= buf@.skip(end as int));
                    read_body(status, h, rest, closed)
                },
                Err(e) => Progress::Failed(e),
            }
        },
        None => if closed {
            Progress::Failed(HttpError("响应头不完整（连接被关闭）".to_owned()))
        } else {
            Progress::More
        },
    }
}

proof fn lemma_chunks_more(data: Seq<u8>, more: Seq<u8>, i: int)
    requires
        chunks_from(data, i) is Some,
    ensures
        chunks_from(data + more, i) == chunks_from(data, i),
    decreases data.len() - i,
{
    let all = data + more;
    text::lemma_seek_more(data, more, crlf(), i);
    let e = text::seek(data, crlf(), i)->0;
    assert(all.subrange(i, e) =~= data.subrange(i, e));
    let n = chunk_size(data.subrange(i, e))->0;
    if n > 0 {
        lemma_chunks_more(data, more, e + 2 + n + 2);
        assert(all.subrange(e + 2 + n, e + 2 + n + 2) =~= data.subrange(e + 2 + n, e + 2 + n + 2));
        assert(all.subrange(e + 2, e + 2 + n) =~= data.subrange(e + 2, e + 2 + n));
    }
}

/// A response that is complete, or has failed, stays as it is when more bytes
/// come or the connection is closed.
pub proof fn law_complete_response_stays(buf: Seq<u8>, more: Seq<u8>, closed: bool)
    requires
        !(progress_of(buf, false) is More),
    ensures
        progress_of(buf + more, closed) == progress_of(buf, false),
{
    let all = buf + more;
    let mark = blank_line();
    text::lemma_seek_more(buf, more, mark, 0);
    text::lemma_seek(buf, mark, 0);
    let pos = text::seek(buf, mark, 0)->0;
    assert(mark.len() == 4);
    assert(all.take(pos + 4) =~= buf.take(pos + 4));
    assert(all.skip(pos + 4) =~= buf.skip(pos + 4) + more);
    match head_of(lossy_text(buf.take(pos + 4))) {
        Ok((status, h)) => {
            let rest = buf.skip(pos + 4);
            if h.content_length is Some && rest.len() >= h.content_length->0 {
                assert((rest + more).take(h.content_length->0 as int) =~= rest.take(
                    h.content_length->0 as int,
                ));
            } else {
                lemma_chunks_more(rest, more, 0);
            }
        },
        Err(_) => {},
    }
}

/// What a response says.
pub enum Reply {
    /// An error, with the status and the beginning of the body.
    Failed(HttpError),
    /// Nothing, which counts as `null`.
    Nothing,
    /// A text to be read as JSON, or as `null` where it is none.
    Text(String),
}

/// The model of a [`Reply`].
pub enum ReplyView {
    Failed(Seq<char>),
    Nothing,
    Text(Seq<char>),
}

impl View for Reply {
    type V = ReplyView;

    open spec fn view(&self) -> ReplyView {
        match *self {
            Reply::Failed(e) => ReplyView::Failed(e.0@),
            Reply::Nothing => ReplyView::Nothing,
            Reply::Text(s) => ReplyView::Text(s@),
        }
    }
}

/// What a response with this status and body says.
pub open spec fn reply_of(status: int, body: Seq<char>) -> ReplyView {
    if status >= 400 {
        ReplyView::Failed(
            "HTTP "@ + text::int_text(status) + ": "@ + (if body.len() > 200 {
                body.take(200)
            } else {
                body
            }),
        )
    } else if body.len() == 0 {
        ReplyView::Nothing
    } else {
        ReplyView::Text(body)
    }
}

/// What a response with this status and body says.
pub fn reply_text(status: u16, body: String) -> (r: Reply)
    ensures
        r@ == reply_of(status as int, body@),
{
    if status >= 400 {
        let v = chars_of(body.as_str());
        let n: usize = if v.len() > 200 {
            200
        } else {
            v.len()
        };
        let mut m = cat2("HTTP ", decimal(status as u64).as_str());
        m.append(": ");
        m.append(text_between(&v, 0, n).as_str());
        proof {
            if body@.len() > 200 {
                assert(v@.subrange(0, n as int) =~= body@.take(200));
            } else {
                assert(v@.subrange(0, n as int) =~= body@);
            }
        }
        return Reply::Failed(HttpError(m));
    }
    if body.as_str().is_empty() {
        Reply::Nothing
    } else {
        Reply::Text(body)
    }
}

/// What a response with this status and these bytes says.
pub fn read_reply(status: u16, body: &[u8]) -> (r: Reply)
    ensures
        r@ == reply_of(status as int, lossy_text(body@)),
        vstd::utf8::valid_utf8(body@) ==> r@ == reply_of(
            status as int,
            vstd::utf8::decode_utf8(body@),
        ),
{
    reply_text(status, decode_lossy(body))
}

/// The value that a reply stands for: what is not JSON counts as `null`.
pub open spec fn reply_value(reply: ReplyView) -> Result<JsonView, Seq<char>> {
    match reply {
        ReplyView::Failed(e) => Err(e),
        ReplyView::Nothing => Ok(JsonView::Null),
        ReplyView::Text(s) => Ok(or_null(json::parsed(s))),
    }
}

/// A value, or `null` where there is none.
pub open spec fn or_null(v: Option<JsonView>) -> JsonView {
    match v {
        Some(x) => x,
        None => JsonView::Null,
    }
}

/// The value that a reply stands for.
pub fn reply_json(reply: Reply) -> (r: Result<Json, HttpError>)
    ensures
        match r {
            Ok(v) => reply_value(reply@) == Ok::<JsonView, Seq<char>>(v@),
            Err(e) => reply_value(reply@) == Err::<JsonView, Seq<char>>(e.0@),
        },
{
    match reply {
        Reply::Failed(e) => Err(e),
        Reply::Nothing => Ok(Json::Null),
        Reply::Text(s) => match json::parse_stored(s.as_str()) {
            Some(v) => Ok(v),
            None => Ok(Json::Null),
        },
    }
}

// ---------------------------------------------------------------------------
// Addresses
// ---------------------------------------------------------------------------

/// The port and the path of an address.
pub struct ParsedUrl {
    pub port: u16,
    pub path: String,
}

/// The model of a [`ParsedUrl`].
pub struct ParsedUrlView {
    pub port: int,
    pub path: Seq<char>,
}

impl View for ParsedUrl {
    type V = ParsedUrlView;

    open spec fn view(&self) -> ParsedUrlView {
        ParsedUrlView { port: self.port as int, path: self.path@ }
    }
}

/// The place of the last `c` in `s`, or -1 when there is none.
pub open spec fn last_index_of(s: Seq<char>, c: char) -> int
    decreases s.len(),
{
    if s.len() == 0 {
        -1
    } else if s.last() == c {
        s.len() - 1
    } else {
        last_index_of(s.drop_last(), c)
    }
}

/// The port and the path of an address `http://host[:port][/path]`. Without a
/// port, and where it is none, it is 80; without a path it is `/`.
pub open spec fn url_of(url: Seq<char>) -> Option<ParsedUrlView> {
    if !text::starts_with(url, "http://"@) {
        None
    } else {
        let rest = url.skip("http://"@.len() as int);
        let slash = text::index_of(rest, '/');
        let authority = rest.take(slash);
        let path = if slash < rest.len() {
            rest.skip(slash)
        } else {
            "/"@
        };
        let colon = last_index_of(authority, ':');
        let host = if colon >= 0 {
            authority.take(colon)
        } else {
            authority
        };
        let port = if colon >= 0 {
            match text::number_of(authority.skip(colon + 1), 10, 65535) {
                Some(n) => n,
                None => 80,
            }
        } else {
            80
        };
        if host.len() == 0 {
            None
        } else {
            Some(ParsedUrlView { port, path })
        }
    }
}

fn find_last(v: &Vec<char>, from: usize, to: usize, c: char) -> (r: Option<usize>)
    requires
        from <= to <= v@.len(),
    ensures
        match r {
            Some(i) => from <= i < to && last_index_of(v@.subrange(from as int, to as int), c) == i
                - from,
            None => last_index_of(v@.subrange(from as int, to as int), c) == -1,
        },
{
    let ghost all = v@.subrange(from as int, to as int);
    let mut i: usize = to;
    while i > from
        invariant
            from <= i <= to <= v@.len(),
            all == v@.subrange(from as int, to as int),
            last_index_of(all, c) == last_index_of(v@.subrange(from as int, i as int), c),
        decreases i,
    {
        let ghost t = v@.subrange(from as int, i as int);
        assert(t.last() == v@[i - 1]);
        assert(t.drop_last() =~= v@.subrange(from as int, i - 1));
        if v[i - 1] == c {
            return Some(i - 1);
        }
        i -= 1;
    }
    None
}

/// Reads an address.
pub fn parse_http_url(url: &str) -> (r: Option<ParsedUrl>)
    ensures
        match r {
            Some(u) => url_of(url@) == Some(u@),
            None => url_of(url@) is None,
        },
{
    let v = chars_of(url);
    let scheme = chars_of("http://");
    if !text::matches_at(&v, &scheme, 0) {
        return None;
    }
    let from: usize = scheme.len();
    let ghost rest = url@.skip(from as int);
    let mut slash: usize = from;
    proof {
        text::lemma_index_of(rest, '/');
    }
    while slash < v.len() && v[slash] != '/'
        invariant
            from <= slash <= v@.len(),
            rest == v@.skip(from as int),
            0 <= slash - from <= text::index_of(rest, '/') <= rest.len(),
            text::index_of(rest, '/') < rest.len() ==> rest[text::index_of(rest, '/')] == '/',
            forall|j: int| 0 <= j < text::index_of(rest, '/') ==> #[trigger] rest[j] != '/',
        decreases v.len() - slash,
    {
        assert(rest[slash - from] == v@[slash as int]);
        slash += 1;
    }
    proof {
        if slash < v@.len() {
            assert(rest[slash - from] == '/');
        }
        assert(slash - from == text::index_of(rest, '/'));
        assert(v@.subrange(from as int, slash as int) =~= rest.take(slash - from));
    }
    let path = if slash < v.len() {
        assert(v@.subrange(slash as int, v@.len() as int) =~= rest.skip(slash - from));
        text_between(&v, slash, v.len())
    } else {
        "/".to_owned()
    };
    let ghost authority = rest.take(slash - from);
    match find_last(&v, from, slash, ':') {
        Some(c) => {
            let port_text = text_between(&v, c + 1, slash);
            proof {
                assert(v@.subrange(c + 1, slash as int) =~= authority.skip(c - from + 1));
            }
            if c == from {
                return None;
            }
            let port: u64 = match parse_number(port_text.as_str(), 10, 65535) {
                Some(n) => n,
                None => 80,
            };
            Some(ParsedUrl { port: port as u16, path })
        },
        None => {
            if slash == from {
                return None;
            }
            Some(ParsedUrl { port: 80, path })
        },
    }
}

/// The bytes that stand for themselves in an address.
pub open spec fn safe_byte(b: u8) -> bool {
    text::alnum(b as char) || b == 45 || b == 95 || b == 46 || b == 33 || b == 126 || b == 42 || b
        == 39 || b == 40 || b == 41
}

/// A capital hexadecimal digit.
pub open spec fn big_hex(n: int) -> char {
    if n < 10 {
        ('0' as u32 + n) as char
    } else {
        ('A' as u32 + n - 10) as char
    }
}

/// Bytes as they stand in an address: safe ones as they are, others as a percent
/// sign and two capital hexadecimal digits.
pub open spec fn encoded_bytes(bytes: Seq<u8>) -> Seq<char>
    decreases bytes.len(),
{
    if bytes.len() == 0 {
        Seq::empty()
    } else {
        let head = encoded_bytes(bytes.drop_last());
        let b = bytes.last();
        if safe_byte(b) {
            head.push(b as char)
        } else {
            head.push('%').push(big_hex(b as int / 16)).push(big_hex(b as int % 16))
        }
    }
}

/// A text as it stands in an address, by its UTF-8 bytes.
pub open spec fn encoded(s: Seq<char>) -> Seq<char> {
    encoded_bytes(vstd::utf8::encode_utf8(s))
}

fn big_hex_char(n: u8) -> (c: char)
    requires
        n < 16,
    ensures
        c == big_hex(n as int),
{
    if n < 10 {
        (48u8 + n) as char
    } else {
        (55u8 + n) as char
    }
}

/// Writes a text as it stands in an address.
pub fn encode_uri_component(s: &str) -> (r: String)
    ensures
        r@ == encoded(s@),
{
    let bytes = s.as_bytes();
    let mut r = String::new();
    let mut i: usize = 0;
    while i < bytes.len()
        invariant
            i <= bytes@.len(),
            r@ == encoded_bytes(bytes@.take(i as int)),
        decreases bytes.len() - i,
    {
        assert(bytes@.take(i as int + 1).drop_last() =~= bytes@.take(i as int));
        let b: u8 = bytes[i];
        if text::is_alnum(b as char) || b == 45 || b == 95 || b == 46 || b == 33 || b == 126 || b
            == 42 || b == 39 || b == 40 || b == 41 {
            r.push(b as char);
        } else {
            r.push('%');
            r.push(big_hex_char(b / 16));
            r.push(big_hex_char(b % 16));
        }
        i += 1;
    }
    assert(bytes@.take(i as int) =~= bytes@);
    r
}

// ---------------------------------------------------------------------------
// What goes over the line, word for word
// ---------------------------------------------------------------------------

/// A request goes to this machine, bears the token where there is one, and carries its
/// data with their length in bytes; it asks that the connection be closed.
pub proof fn law_requests_bear_the_token(
    port: int,
    token: Seq<char>,
    method: Seq<char>,
    path: Seq<char>,
    data: Seq<char>,
)
    requires
        token.len() > 0,
    ensures
        ({
            let r = request_text(port, token, method, path, Some(data));
            let line = method + " "@ + path + " HTTP/1.1\r\n"@;
            let head = line + "Host: 127.0.0.1:"@ + text::int_text(port) + "\r\n"@
                + "Accept: application/json\r\n"@ + "Authorization: Bearer "@ + token + "\r\n"@
                + "Content-Type: application/json\r\n"@ + "Content-Length: "@ + text::int_text(
                vstd::utf8::encode_utf8(data).len() as int,
            ) + "\r\n"@ + "Connection: close\r\n\r\n"@;
            r == head + data
        }),
        ({
            let r = request_text(port, token, method, path, None);
            let line = method + " "@ + path + " HTTP/1.1\r\n"@;
            r == line + "Host: 127.0.0.1:"@ + text::int_text(port) + "\r\n"@
                + "Accept: application/json\r\n"@ + "Authorization: Bearer "@ + token + "\r\n"@
                + "Connection: close\r\n\r\n"@
        }),
{
}

/// A reply of 400 and above is an error, which names its code and what it says, in 200
/// characters at most; any other is what it holds, if anything.
pub proof fn law_replies_of_400_are_errors(status: int, body: Seq<char>)
    ensures
        status >= 400 && body.len() <= 200 ==> reply_of(status, body) == ReplyView::Failed(
            "HTTP "@ + text::int_text(status) + ": "@ + body,
        ),
        status >= 400 && body.len() > 200 ==> reply_of(status, body) == ReplyView::Failed(
            "HTTP "@ + text::int_text(status) + ": "@ + body.take(200),
        ),
        status < 400 && body.len() == 0 ==> reply_of(status, body) is Nothing,
        status < 400 && body.len() > 0 ==> reply_of(status, body) == ReplyView::Text(body),
        status < 400 && body.len() > 0 ==> (json::parsed(body) matches Some(v) ==> reply_value(
            reply_of(status, body),
        ) == Ok::<JsonView, Seq<char>>(v)),
        status >= 400 ==> reply_value(reply_of(status, body)) is Err,
{
}

/// A gateway is described by its port and its token; a description without either, or
/// with a port that there is not, describes none.
pub proof fn law_a_gateway_is_its_port_and_token(info: JsonView, n: int, token: Seq<char>)
    requires
        info.field("port"@) == Some(JsonView::Int(n)),
        info.field("token"@) == Some(JsonView::Str(token)),
    ensures
        0 < n <= 65535 && token.len() > 0 ==> described_gateway(info) == Some(
            GatewayView { port: n, token },
        ),
        n <= 0 || n > 65535 || token.len() == 0 ==> described_gateway(info) is None,
{
    json::lemma_picked(info, "token", JsonView::Str(token));
}

/// Of several descriptions the first that describes a gateway counts.
pub proof fn law_the_first_description_counts(files: Seq<JsonView>, i: int)
    requires
        0 <= i < files.len(),
        described_gateway(files[i]) is Some,
        forall|j: int| 0 <= j < i ==> described_gateway(#[trigger] files[j]) is None,
    ensures
        first_described(files) == described_gateway(files[i]),
    decreases files.len(),
{
    if i > 0 {
        let rest = files.drop_first();
        assert(described_gateway(files[0]) is None);
        assert(rest[i - 1] == files[i]);
        assert forall|j: int| 0 <= j < i - 1 implies described_gateway(#[trigger] rest[j]) is None by {
            assert(rest[j] == files[j + 1]);
        }
        law_the_first_description_counts(rest, i - 1);
    }
}

proof fn lemma_last_colon(s: Seq<char>, k: int)
    requires
        0 <= k < s.len(),
        s[k] == ':',
        forall|i: int| k < i < s.len() ==> #[trigger] s[i] != ':',
    ensures
        last_index_of(s, ':') == k,
    decreases s.len(),
{
    if k < s.len() - 1 {
        assert(s[s.len() - 1] != ':');
        let t = s.drop_last();
        assert forall|i: int| k < i < t.len() implies #[trigger] t[i] != ':' by {
            assert(t[i] == s[i]);
        }
        lemma_last_colon(t, k);
    }
}

proof fn lemma_digits_only(n: nat)
    ensures
        forall|i: int|
            0 <= i < text::decimal_text(n).len() ==> '0' <= #[trigger] text::decimal_text(n)[i] <= '9',
    decreases n,
{
    assert(text::digit((n % 10) as nat) as u32 == 48 + n % 10);
    if n >= 10 {
        lemma_digits_only(n / 10);
        let head = text::decimal_text(n / 10);
        let all = text::decimal_text(n);
        assert(all == head.push(text::digit(n % 10)));
        assert forall|i: int| 0 <= i < all.len() implies '0' <= #[trigger] all[i] <= '9' by {
            if i < head.len() {
                assert(all[i] == head[i]);
            }
        }
    }
}

/// An address is read as it is written: the port after the host, 80 where there is
/// none, and the path, or the root where there is none.
pub proof fn law_addresses_read_as_written(host: Seq<char>, port: nat, path: Seq<char>)
    requires
        host.len() > 0,
        forall|i: int| 0 <= i < host.len() ==> #[trigger] host[i] != '/' && host[i] != ':',
        port <= 65535,
        path.len() > 0,
        path[0] == '/',
    ensures
        url_of("http://"@ + (host + ":"@ + text::int_text(port as int)) + path) == Some(
            ParsedUrlView { port: port as int, path },
        ),
        url_of("http://"@ + host + path) == Some(ParsedUrlView { port: 80, path }),
        url_of("http://"@ + host) == Some(ParsedUrlView { port: 80, path: "/"@ }),
{
    reveal_strlit("http://");
    reveal_strlit(":");
    assert("http://"@.len() == 7 && ":"@.len() == 1 && ":"@[0] == ':');
    let d = text::int_text(port as int);
    text::law_numbers_read_back(port);
    lemma_digits_only(port);
    let a = host + ":"@ + d;
    let n = host.len() as int;
    assert forall|i: int| 0 <= i < a.len() implies #[trigger] a[i] != '/' by {
        if i < n {
            assert(a[i] == host[i]);
        } else if i > n {
            assert(a[i] == d[i - n - 1]);
        }
    }
    assert(a[n] == ':');
    assert forall|i: int| n < i < a.len() implies #[trigger] a[i] != ':' by {
        assert(a[i] == d[i - n - 1]);
    }
    lemma_last_colon(a, n);
    assert(a.take(n) =~= host);
    assert(a.skip(n + 1) =~= d);
    lemma_url_parts(a, path);
    lemma_url_parts(host, path);
    lemma_no_colon(host);
    assert("http://"@ + a + path =~= "http://"@ + (host + ":"@ + d) + path);
    let u = "http://"@ + host;
    assert(u.subrange(0, 7) =~= "http://"@);
    assert(u.skip(7) =~= host);
    text::lemma_index_of(host, '/');
    if text::index_of(host, '/') < host.len() {
        assert(host[text::index_of(host, '/')] == '/');
    }
    assert(host.take(host.len() as int) =~= host);
}

proof fn lemma_no_colon(s: Seq<char>)
    requires
        forall|i: int| 0 <= i < s.len() ==> #[trigger] s[i] != '/' && s[i] != ':',
    ensures
        last_index_of(s, ':') == -1,
    decreases s.len(),
{
    if s.len() > 0 {
        let t = s.drop_last();
        assert(s[s.len() - 1] != ':');
        assert forall|i: int| 0 <= i < t.len() implies #[trigger] t[i] != '/' && t[i] != ':' by {
            assert(t[i] == s[i]);
        }
        lemma_no_colon(t);
    }
}

proof fn lemma_url_parts(authority: Seq<char>, path: Seq<char>)
    requires
        forall|i: int| 0 <= i < authority.len() ==> #[trigger] authority[i] != '/',
        path.len() > 0,
        path[0] == '/',
    ensures
        ({
            let url = "http://"@ + authority + path;
            let rest = url.skip("http://"@.len() as int);
            &&& text::starts_with(url, "http://"@)
            &&& rest == authority + path
            &&& text::index_of(rest, '/') == authority.len()
            &&& rest.take(authority.len() as int) == authority
            &&& rest.skip(authority.len() as int) == path
        }),
{
    reveal_strlit("http://");
    let url = "http://"@ + authority + path;
    assert(url.subrange(0, 7) =~= "http://"@);
    let rest = url.skip(7);
    let n = authority.len() as int;
    assert(rest =~= authority + path);
    assert(rest.take(n) =~= authority);
    assert(rest.skip(n) =~= path);
    text::lemma_index_of(rest, '/');
    let k = text::index_of(rest, '/');
    assert(rest[n] == '/');
    if k < n {
        assert(rest[k] == authority[k]);
    }
    if k > n {
        assert(rest[n] != '/');
    }
}

/// Only addresses without encryption are read: all others are none.
pub proof fn law_only_plain_addresses_are_read(url: Seq<char>)
    requires
        !text::starts_with(url, "http://"@),
    ensures
        url_of(url) is None,
{
}

/// In an encoded text a letter or a digit stands for itself, and any other byte, but
/// for a few marks, for its two hexadecimal digits after a percent sign.
pub proof fn law_what_is_encoded(head: Seq<u8>, b: u8)
    ensures
        (97 <= b <= 122 || 65 <= b <= 90 || 48 <= b <= 57 || b == 45 || b == 95 || b == 46 || b == 126)
            ==> encoded_bytes(head.push(b)) == encoded_bytes(head).push(b as char),
        b == 47 ==> encoded_bytes(head.push(b)) == encoded_bytes(head) + seq!['%', '2', 'F'],
        b == 32 ==> encoded_bytes(head.push(b)) == encoded_bytes(head) + seq!['%', '2', '0'],
        b >= 128 ==> encoded_bytes(head.push(b)).len() == encoded_bytes(head).len() + 3
            && encoded_bytes(head.push(b))[encoded_bytes(head).len() as int] == '%',
{
    let all = head.push(b);
    assert(all.drop_last() =~= head);
    assert(all.last() == b);
    let c = b as char;
    assert(c as u32 == b as u32);
    assert(big_hex(2) as u32 == 50 && big_hex(15) as u32 == 70 && big_hex(0) as u32 == 48);
    let h = encoded_bytes(head);
    assert(h + seq!['%', '2', 'F'] =~= h.push('%').push('2').push('F'));
    assert(h + seq!['%', '2', '0'] =~= h.push('%').push('2').push('0'));
}

/// A length that a response names is the length that is taken, and a response in chunks
/// is known as one.
pub proof fn law_headers_are_read(h: Headers, n: nat)
    requires
        n <= usize::MAX,
    ensures
        with_line(h, "content-length: "@ + text::int_text(n as int)).content_length == Some(
            n as usize,
        ),
        with_line(h, "transfer-encoding: chunked"@).chunked,
        with_line(h, "transfer-encoding: chunked"@).content_length == h.content_length,
{
    let d = text::int_text(n as int);
    text::law_numbers_read_back(n);
    lemma_digits_only(n);
    reveal_strlit("content-length: ");
    reveal_strlit("content-length");
    assert("content-length"@.len() == 14);
    assert("content-length"@[0] == 'c');
    assert("content-length"@[1] == 'o');
    assert("content-length"@[2] == 'n');
    assert("content-length"@[3] == 't');
    assert("content-length"@[4] == 'e');
    assert("content-length"@[5] == 'n');
    assert("content-length"@[6] == 't');
    assert("content-length"@[7] == '-');
    assert("content-length"@[8] == 'l');
    assert("content-length"@[9] == 'e');
    assert("content-length"@[10] == 'n');
    assert("content-length"@[11] == 'g');
    assert("content-length"@[12] == 't');
    assert("content-length"@[13] == 'h');
    assert("content-length: "@.len() == 16);
    assert("content-length: "@[14] == ':' && "content-length: "@[15] == ' ');
    assert("content-length: "@[0] == 'c');
    assert("content-length: "@[1] == 'o');
    assert("content-length: "@[2] == 'n');
    assert("content-length: "@[3] == 't');
    assert("content-length: "@[4] == 'e');
    assert("content-length: "@[5] == 'n');
    assert("content-length: "@[6] == 't');
    assert("content-length: "@[7] == '-');
    assert("content-length: "@[8] == 'l');
    assert("content-length: "@[9] == 'e');
    assert("content-length: "@[10] == 'n');
    assert("content-length: "@[11] == 'g');
    assert("content-length: "@[12] == 't');
    assert("content-length: "@[13] == 'h');
    assert forall|i: int| 0 <= i < 14 implies #[trigger] "content-length: "@[i] == "content-length"@[i] by {
        assert(i == 0 || i == 1 || i == 2 || i == 3 || i == 4 || i == 5 || i == 6 || i == 7 || i == 8 || i == 9 || i == 10 || i == 11 || i == 12 || i == 13);
    }
    let line = "content-length: "@ + d;
    assert forall|i: int| 0 <= i < 14 implies #[trigger] line[i] != ':' by {
        assert(line[i] == "content-length: "@[i]);
        assert("content-length: "@[i] == "content-length"@[i]);
        assert(i == 0 || i == 1 || i == 2 || i == 3 || i == 4 || i == 5 || i == 6 || i == 7 || i == 8
            || i == 9 || i == 10 || i == 11 || i == 12 || i == 13);
    }
    assert(line[14] == ':');
    lemma_index_is(line, ':', 14);
    assert(line.take(14) =~= "content-length"@);
    let v = line.skip(15);
    assert(v =~= " "@ + d) by {
        reveal_strlit(" ");
    }
    lemma_blank_before(d);
    text::law_what_is_trimmed_stays("content-length"@);
    assert(text::lowered("content-length"@) =~= "content-length"@);
    lemma_chunked_line(h);
}

proof fn lemma_index_is(s: Seq<char>, c: char, k: int)
    requires
        0 <= k < s.len(),
        s[k] == c,
        forall|i: int| 0 <= i < k ==> #[trigger] s[i] != c,
    ensures
        text::index_of(s, c) == k,
{
    text::lemma_index_of(s, c);
    let j = text::index_of(s, c);
    if j < k {
        assert(s[j] != c);
    }
    if k < j {
        assert(s[k] != c);
    }
}

proof fn lemma_blank_before(d: Seq<char>)
    requires
        d.len() > 0,
        !text::white(d[0]),
        !text::white(d.last()),
    ensures
        text::trimmed(" "@ + d) == d,
{
    reveal_strlit(" ");
    let s = " "@ + d;
    assert(s[0] == ' ');
    assert(text::white(' '));
    assert(s.drop_first() =~= d);
    assert(text::trimmed_start(s) == text::trimmed_start(d));
}

proof fn lemma_chunked_line(h: Headers)
    ensures
        with_line(h, "transfer-encoding: chunked"@) == (Headers {
            content_length: h.content_length,
            chunked: true,
        }),
{
    let line = "transfer-encoding: chunked"@;
    reveal_strlit("transfer-encoding: chunked");
    reveal_strlit("transfer-encoding");
    reveal_strlit("content-length");
    reveal_strlit("chunked");
    reveal_strlit(" ");
    assert("transfer-encoding"@.len() == 17);
    assert("transfer-encoding"@[0] == 't');
    assert("transfer-encoding"@[1] == 'r');
    assert("transfer-encoding"@[2] == 'a');
    assert("transfer-encoding"@[3] == 'n');
    assert("transfer-encoding"@[4] == 's');
    assert("transfer-encoding"@[5] == 'f');
    assert("transfer-encoding"@[6] == 'e');
    assert("transfer-encoding"@[7] == 'r');
    assert("transfer-encoding"@[8] == '-');
    assert("transfer-encoding"@[9] == 'e');
    assert("transfer-encoding"@[10] == 'n');
    assert("transfer-encoding"@[11] == 'c');
    assert("transfer-encoding"@[12] == 'o');
    assert("transfer-encoding"@[13] == 'd');
    assert("transfer-encoding"@[14] == 'i');
    assert("transfer-encoding"@[15] == 'n');
    assert("transfer-encoding"@[16] == 'g');
    assert("chunked"@.len() == 7);
    assert("chunked"@[0] == 'c');
    assert("chunked"@[1] == 'h');
    assert("chunked"@[2] == 'u');
    assert("chunked"@[3] == 'n');
    assert("chunked"@[4] == 'k');
    assert("chunked"@[5] == 'e');
    assert("chunked"@[6] == 'd');
    assert("content-length"@.len() == 14);
    assert(line.len() == 26);
    assert("transfer-encoding: chunked"@[0] == 't');
    assert("transfer-encoding: chunked"@[1] == 'r');
    assert("transfer-encoding: chunked"@[2] == 'a');
    assert("transfer-encoding: chunked"@[3] == 'n');
    assert("transfer-encoding: chunked"@[4] == 's');
    assert("transfer-encoding: chunked"@[5] == 'f');
    assert("transfer-encoding: chunked"@[6] == 'e');
    assert("transfer-encoding: chunked"@[7] == 'r');
    assert("transfer-encoding: chunked"@[8] == '-');
    assert("transfer-encoding: chunked"@[9] == 'e');
    assert("transfer-encoding: chunked"@[10] == 'n');
    assert("transfer-encoding: chunked"@[11] == 'c');
    assert("transfer-encoding: chunked"@[12] == 'o');
    assert("transfer-encoding: chunked"@[13] == 'd');
    assert("transfer-encoding: chunked"@[14] == 'i');
    assert("transfer-encoding: chunked"@[15] == 'n');
    assert("transfer-encoding: chunked"@[16] == 'g');
    assert forall|i: int| 0 <= i < 17 implies #[trigger] "transfer-encoding: chunked"@[i] == "transfer-encoding"@[i] by {
        assert(i == 0 || i == 1 || i == 2 || i == 3 || i == 4 || i == 5 || i == 6 || i == 7 || i == 8 || i == 9 || i == 10 || i == 11 || i == 12 || i == 13 || i == 14 || i == 15 || i == 16);
    }
    assert("transfer-encoding: chunked"@[19] == 'c');
    assert("transfer-encoding: chunked"@[20] == 'h');
    assert("transfer-encoding: chunked"@[21] == 'u');
    assert("transfer-encoding: chunked"@[22] == 'n');
    assert("transfer-encoding: chunked"@[23] == 'k');
    assert("transfer-encoding: chunked"@[24] == 'e');
    assert("transfer-encoding: chunked"@[25] == 'd');
    assert(line[17] == ':' && line[18] == ' ');
    assert forall|i: int| 0 <= i < 17 implies #[trigger] line[i] != ':' by {
        assert(line[i] == "transfer-encoding"@[i]);
        assert(i == 0 || i == 1 || i == 2 || i == 3 || i == 4 || i == 5 || i == 6 || i == 7 || i == 8
            || i == 9 || i == 10 || i == 11 || i == 12 || i == 13 || i == 14 || i == 15 || i == 16);
    }
    lemma_index_is(line, ':', 17);
    assert(line.take(17) =~= "transfer-encoding"@);
    assert(line.skip(18) =~= " "@ + "chunked"@);
    lemma_blank_before("chunked"@);
    text::law_what_is_trimmed_stays("transfer-encoding"@);
    assert(text::lowered("transfer-encoding"@) =~= "transfer-encoding"@);
    assert(text::lowered("chunked"@) =~= "chunked"@);
    assert("chunked"@.subrange(0, 7) =~= "chunked"@);
    assert(text::occurs_at("chunked"@, "chunked"@, 0));
}

/// A response that ends before its headers do has failed; one that has not ended is
/// waited for.
pub proof fn law_responses_without_headers(buf: Seq<u8>)
    requires
        text::seek(buf, blank_line(), 0) is None,
    ensures
        progress_of(buf, true) == ProgressView::Failed("响应头不完整（连接被关闭）"@),
        progress_of(buf, false) == ProgressView::More,
{
}

} // verus!
