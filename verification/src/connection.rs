//! The JSON-RPC bridge to one analyzer process.
//!
//! Outgoing messages are serialized and wrapped in the LSP base-protocol
//! framing: a `Content-Length` header giving the byte length of the JSON
//! payload, a blank line, and the payload. Incoming bytes are split the
//! same way, and each decoded message is correlated against the table of
//! in-flight request ids: a matching id completes that request, a method
//! without an id is a notification, and anything else is discarded.

use vstd::prelude::*;
use vstd::string::StringExecFns;
use vstd::utf8::encode_utf8;

use crate::text::{dec_rep, dec_string_u64};

verus! {

/// The character for one hexadecimal digit.
pub open spec fn hex_digit(d: nat) -> char {
    if d < 10 {
        crate::text::dec_digit(d)
    } else if d == 10 {
        'a'
    } else if d == 11 {
        'b'
    } else if d == 12 {
        'c'
    } else if d == 13 {
        'd'
    } else if d == 14 {
        'e'
    } else {
        'f'
    }
}

/// The JSON string-escape of one character.
pub open spec fn json_escaped_char(c: char) -> Seq<char> {
    if c == '"' {
        seq!['\\', '"']
    } else if c == '\\' {
        seq!['\\', '\\']
    } else if c == '\n' {
        seq!['\\', 'n']
    } else if c == '\r' {
        seq!['\\', 'r']
    } else if c == '\t' {
        seq!['\\', 't']
    } else if (c as u32) < 0x20 {
        seq!['\\', 'u', '0', '0', hex_digit((c as u32 / 16) as nat), hex_digit(
            (c as u32 % 16) as nat,
        )]
    } else {
        seq![c]
    }
}

/// The JSON string-escape of a character sequence.
pub open spec fn json_escaped(s: Seq<char>) -> Seq<char>
    decreases s.len(),
{
    if s.len() == 0 {
        Seq::<char>::empty()
    } else {
        json_escaped(s.drop_last()) + json_escaped_char(s.last())
    }
}

fn hex_digit_exec(d: u32) -> (c: char)
    requires
        d < 16,
    ensures
        c == hex_digit(d as nat),
{
    if d < 10 {
        crate::text::digit_char(d as u64)
    } else if d == 10 {
        'a'
    } else if d == 11 {
        'b'
    } else if d == 12 {
        'c'
    } else if d == 13 {
        'd'
    } else if d == 14 {
        'e'
    } else {
        'f'
    }
}

/// Escapes a string for embedding in a JSON string literal.
pub fn json_escape(s: &str) -> (r: Vec<char>)
    ensures
        r@ == json_escaped(s@),
{
    let chars = crate::text::chars_of(s);
    let mut r: Vec<char> = Vec::new();
    let mut i: usize = 0;
    while i < chars.len()
        invariant
            i <= chars@.len(),
            chars@ == s@,
            r@ == json_escaped(s@.subrange(0, i as int)),
        decreases chars@.len() - i,
    {
        let c = chars[i];
        proof {
            let pref = s@.subrange(0, i + 1);
            assert(pref.drop_last() =~= s@.subrange(0, i as int));
            assert(pref.last() == c);
        }
        if c == '"' {
            r.push('\\');
            r.push('"');
        } else if c == '\\' {
            r.push('\\');
            r.push('\\');
        } else if c == '\n' {
            r.push('\\');
            r.push('n');
        } else if c == '\r' {
            r.push('\\');
            r.push('r');
        } else if c == '\t' {
            r.push('\\');
            r.push('t');
        } else if (c as u32) < 0x20 {
            r.push('\\');
            r.push('u');
            r.push('0');
            r.push('0');
            r.push(hex_digit_exec((c as u32) / 16));
            r.push(hex_digit_exec((c as u32) % 16));
        } else {
            r.push(c);
        }
        proof {
            assert(r@ =~= json_escaped(s@.subrange(0, i as int)) + json_escaped_char(c));
        }
        i = i + 1;
    }
    proof {
        assert(s@.subrange(0, s@.len() as int) =~= s@);
    }
    r
}

/// The serialized JSON-RPC request with the given id, method and
/// pre-serialized params document.
pub open spec fn request_json(id: nat, method: Seq<char>, params: Option<Seq<char>>) -> Seq<char> {
    let head = "{\"jsonrpc\":\"2.0\",\"id\":"@ + dec_rep(id) + ",\"method\":\""@ + json_escaped(
        method,
    ) + "\""@;
    match params {
        Some(p) => head + ",\"params\":"@ + p + "}"@,
        None => head + "}"@,
    }
}

/// The serialized JSON-RPC notification with the given method and
/// pre-serialized params document.
pub open spec fn notification_json(method: Seq<char>, params: Option<Seq<char>>) -> Seq<char> {
    let head = "{\"jsonrpc\":\"2.0\",\"method\":\""@ + json_escaped(method) + "\""@;
    match params {
        Some(p) => head + ",\"params\":"@ + p + "}"@,
        None => head + "}"@,
    }
}

/// The LSP base-protocol frame around a payload: a `Content-Length`
/// header counting the payload's UTF-8 bytes, a blank line, the payload.
pub open spec fn framed(payload: Seq<char>) -> Seq<char> {
    "Content-Length: "@ + dec_rep(encode_utf8(payload).len()) + "\r\n\r\n"@ + payload
}

/// Wraps a serialized message in the LSP base-protocol frame.
pub fn frame_message(payload: &str) -> (r: String)
    ensures
        r@ == framed(payload@),
{
    let mut r = String::from_str("Content-Length: ");
    let byte_len: usize = payload.as_bytes().len();
    let num = dec_string_u64(byte_len as u64);
    r.append(num.as_str());
    r.append("\r\n\r\n");
    r.append(payload);
    proof {
        assert(r@ =~= framed(payload@));
    }
    r
}

/// Builds the framed JSON-RPC request text for the wire.
pub fn request_frame(id: u64, method: &str, params_json: Option<&str>) -> (r: String)
    ensures
        r@ == framed(
            request_json(
                id as nat,
                method@,
                match params_json {
                    Some(p) => Some(p@),
                    None => None,
                },
            ),
        ),
{
    let mut body = String::from_str("{\"jsonrpc\":\"2.0\",\"id\":");
    let num = dec_string_u64(id);
    body.append(num.as_str());
    body.append(",\"method\":\"");
    let esc = json_escape(method);
    let esc_s = crate::text::string_from_chars(&esc);
    body.append(esc_s.as_str());
    body.append("\"");
    match params_json {
        Some(p) => {
            body.append(",\"params\":");
            body.append(p);
        },
        None => {
        },
    }
    body.append("}");
    frame_message(body.as_str())
}

/// Builds the framed JSON-RPC notification text for the wire.
pub fn notification_frame(method: &str, params_json: Option<&str>) -> (r: String)
    ensures
        r@ == framed(
            notification_json(
                method@,
                match params_json {
                    Some(p) => Some(p@),
                    None => None,
                },
            ),
        ),
{
    let mut body = String::from_str("{\"jsonrpc\":\"2.0\",\"method\":\"");
    let esc = json_escape(method);
    let esc_s = crate::text::string_from_chars(&esc);
    body.append(esc_s.as_str());
    body.append("\"");
    match params_json {
        Some(p) => {
            body.append(",\"params\":");
            body.append(p);
        },
        None => {
        },
    }
    body.append("}");
    frame_message(body.as_str())
}

/// The header/payload separator of the base protocol: an empty line.
pub open spec fn header_sep() -> Seq<u8> {
    seq![13u8, 10u8, 13u8, 10u8]
}

/// The bytes of the `Content-Length:` header label.
pub open spec fn cl_label() -> Seq<u8> {
    seq![67u8, 111u8, 110u8, 116u8, 101u8, 110u8, 116u8, 45u8, 76u8, 101u8, 110u8, 103u8, 116u8, 104u8, 58u8]
}

/// The first position at or after `from` where `pat` occurs in `hay`.
pub open spec fn bfind(hay: Seq<u8>, pat: Seq<u8>, from: nat) -> Option<int>
    decreases hay.len() + 1 - from,
{
    if from + pat.len() > hay.len() {
        None::<int>
    } else if hay.subrange(from as int, from + pat.len() as int) == pat {
        Some(from as int)
    } else {
        bfind(hay, pat, from + 1)
    }
}

fn bstarts_with_at(hay: &Vec<u8>, pat: &Vec<u8>, at: usize) -> (r: bool)
    requires
        at + pat@.len() <= hay@.len(),
    ensures
        r == (hay@.subrange(at as int, at + pat@.len()) == pat@),
{
    let hay_len: usize = hay.len();
    proof {
        assert(hay_len == hay@.len());
    }
    let mut j: usize = 0;
    while j < pat.len()
        invariant
            at + pat@.len() <= hay@.len(),
            hay@.len() == hay_len,
            j <= pat@.len(),
            forall|k: int| 0 <= k < j ==> hay@[at + k] == pat@[k],
        decreases pat@.len() - j,
    {
        if hay[at + j] != pat[j] {
            proof {
                assert(hay@.subrange(at as int, at + pat@.len())[j as int] != pat@[j as int]);
            }
            return false;
        }
        j = j + 1;
    }
    proof {
        assert(hay@.subrange(at as int, at + pat@.len()) =~= pat@);
    }
    true
}

fn bfind_exec(hay: &Vec<u8>, pat: &Vec<u8>, from: usize) -> (r: Option<usize>)
    ensures
        match r {
            Some(i) => from <= i && i + pat@.len() <= hay@.len() && bfind(hay@, pat@, from as nat)
                == Some(i as int),
            None => bfind(hay@, pat@, from as nat) is None,
        },
{
    let hay_len: usize = hay.len();
    let pat_len: usize = pat.len();
    if pat_len > hay_len || from > hay_len - pat_len {
        return None;
    }
    let last = hay_len - pat_len;
    let mut i: usize = from;
    while i < last
        invariant
            from <= i <= last,
            last + pat@.len() == hay@.len(),
            bfind(hay@, pat@, from as nat) == bfind(hay@, pat@, i as nat),
        decreases last - i,
    {
        if bstarts_with_at(hay, pat, i) {
            return Some(i);
        }
        i = i + 1;
    }
    if bstarts_with_at(hay, pat, last) {
        Some(last)
    } else {
        proof {
            assert(bfind(hay@, pat@, (last + 1) as nat) is None);
            assert(bfind(hay@, pat@, last as nat) is None);
        }
        None
    }
}

fn bsubvec(v: &Vec<u8>, from: usize, to: usize) -> (r: Vec<u8>)
    requires
        from <= to <= v@.len(),
    ensures
        r@ == v@.subrange(from as int, to as int),
{
    let mut r: Vec<u8> = Vec::new();
    let mut i: usize = from;
    while i < to
        invariant
            from <= i <= to <= v@.len(),
            r@ =~= v@.subrange(from as int, i as int),
        decreases to - i,
    {
        r.push(v[i]);
        proof {
            assert(v@.subrange(from as int, i + 1) =~= v@.subrange(from as int, i as int).push(
                v@[i as int],
            ));
        }
        i = i + 1;
    }
    r
}

/// Whether a byte is a decimal digit.
pub open spec fn is_digit_b(b: u8) -> bool {
    48 <= b <= 57
}

/// The numeric value of a digit-byte string read left to right.
pub open spec fn dec_val_b(s: Seq<u8>) -> nat
    decreases s.len(),
{
    if s.len() == 0 {
        0
    } else {
        dec_val_b(s.drop_last()) * 10 + (s.last() - 48) as nat
    }
}

/// Whether every byte of the sequence is a decimal digit.
pub open spec fn all_digits_b(s: Seq<u8>) -> bool {
    forall|i: int| 0 <= i < s.len() ==> is_digit_b(#[trigger] s[i])
}

/// The value of a `Content-Length` header field: optional leading spaces
/// or tabs, then one to nine decimal digits.
pub open spec fn parse_cl_field(s: Seq<u8>) -> Option<nat>
    decreases s.len(),
{
    if s.len() > 0 && (s[0] == 32 || s[0] == 9) {
        parse_cl_field(s.drop_first())
    } else if 0 < s.len() <= 9 && all_digits_b(s) {
        Some(dec_val_b(s))
    } else {
        None::<nat>
    }
}

fn parse_digits_b(v: &Vec<u8>, from: usize) -> (r: Option<usize>)
    requires
        from <= v@.len(),
    ensures
        ({
            let s = v@.subrange(from as int, v@.len() as int);
            match r {
                Some(n) => 0 < s.len() <= 9 && all_digits_b(s) && n == dec_val_b(s),
                None => !(0 < s.len() <= 9 && all_digits_b(s)),
            }
        }),
{
    let len = v.len();
    if len == from || len - from > 9 {
        return None;
    }
    let ghost s = v@.subrange(from as int, v@.len() as int);
    let mut acc: usize = 0;
    let mut i: usize = from;
    while i < len
        invariant
            from <= i <= len,
            len == v@.len(),
            len - from <= 9,
            s == v@.subrange(from as int, v@.len() as int),
            all_digits_b(s.subrange(0, i - from)),
            acc == dec_val_b(s.subrange(0, i - from)),
            acc < crate::text::pow10((i - from) as nat),
        decreases len - i,
    {
        let b = v[i];
        if !(48 <= b && b <= 57) {
            proof {
                assert(s[i - from] == v@[i as int]);
            }
            return None;
        }
        let d: usize = (b - 48) as usize;
        proof {
            assert(crate::text::pow10((i - from) as nat) <= crate::text::pow10(8)) by {
                crate::text::lemma_pow10_increases((i - from) as nat, 8);
            };
            assert(crate::text::pow10(8) == 100000000) by {
                reveal_with_fuel(crate::text::pow10, 9);
            };
            assert(s.subrange(0, i + 1 - from).drop_last() =~= s.subrange(0, i - from));
            assert(s.subrange(0, i + 1 - from).last() == v@[i as int]);
        }
        acc = acc * 10 + d;
        i = i + 1;
    }
    proof {
        assert(s.subrange(0, s.len() as int) =~= s);
    }
    Some(acc)
}

fn parse_cl_field_exec(v: &Vec<u8>) -> (r: Option<usize>)
    ensures
        match r {
            Some(n) => parse_cl_field(v@) == Some(n as nat),
            None => parse_cl_field(v@) is None,
        },
{
    proof {
        assert(v@.subrange(0, v@.len() as int) =~= v@);
    }
    let mut j: usize = 0;
    while j < v.len() && (v[j] == 32 || v[j] == 9)
        invariant
            j <= v@.len(),
            parse_cl_field(v@) == parse_cl_field(v@.subrange(j as int, v@.len() as int)),
        decreases v@.len() - j,
    {
        proof {
            assert(v@.subrange(j as int, v@.len() as int).drop_first() =~= v@.subrange(
                j + 1,
                v@.len() as int,
            ));
        }
        j = j + 1;
    }
    let ghost tail = v@.subrange(j as int, v@.len() as int);
    proof {
        if tail.len() > 0 {
            assert(tail[0] == v@[j as int]);
        }
    }
    parse_digits_b(v, j)
}

/// The `Content-Length` value announced by a header section: the value of
/// the field following the first occurrence of the label, up to the end
/// of that header line.
pub open spec fn content_length_of(h: Seq<u8>) -> Option<nat> {
    match bfind(h, cl_label(), 0) {
        Some(i) => {
            let field_start = i + cl_label().len();
            let field_end = match bfind(h, seq![13u8, 10u8], field_start as nat) {
                Some(j) => j,
                None => h.len() as int,
            };
            parse_cl_field(h.subrange(field_start, field_end))
        },
        None => None::<nat>,
    }
}

fn cl_label_exec() -> (r: Vec<u8>)
    ensures
        r@ == cl_label(),
{
    let r: Vec<u8> = vec![
        67u8, 111u8, 110u8, 116u8, 101u8, 110u8, 116u8, 45u8, 76u8, 101u8, 110u8, 103u8, 116u8,
        104u8, 58u8,
    ];
    proof {
        assert(r@ =~= cl_label());
    }
    r
}

fn content_length_exec(h: &Vec<u8>) -> (r: Option<usize>)
    ensures
        match r {
            Some(n) => content_length_of(h@) == Some(n as nat),
            None => content_length_of(h@) is None,
        },
{
    let label = cl_label_exec();
    let h_len: usize = h.len();
    match bfind_exec(h, &label, 0) {
        Some(i) => {
            let field_start = i + label.len();
            let crlf: Vec<u8> = vec![13u8, 10u8];
            proof {
                assert(crlf@ =~= seq![13u8, 10u8]);
            }
            let field_end = match bfind_exec(h, &crlf, field_start) {
                Some(j) => j,
                None => h.len(),
            };
            let field = bsubvec(h, field_start, field_end);
            parse_cl_field_exec(&field)
        },
        None => None,
    }
}

/// One step of splitting buffered bytes into frames.
pub enum FrameStep {
    /// No complete frame is buffered yet.
    NeedMore,
    /// A complete frame was removed from the buffer; this is its payload.
    Frame(Vec<u8>),
    /// The buffered header section does not announce a payload length.
    Corrupt,
}

/// Buffered bytes read from the analyzer's output, split into frames on
/// demand.
pub struct FrameBuffer {
    buf: Vec<u8>,
}

impl FrameBuffer {
    /// The bytes buffered and not yet taken as frames.
    pub closed spec fn contents(self) -> Seq<u8> {
        self.buf@
    }

    /// Creates an empty buffer.
    pub fn new() -> (r: FrameBuffer)
        ensures
            r.contents() == Seq::<u8>::empty(),
    {
        let r = FrameBuffer { buf: Vec::new() };
        proof {
            assert(r.contents() =~= Seq::<u8>::empty());
        }
        r
    }

    /// Appends bytes read from the stream.
    pub fn push_chunk(&mut self, chunk: &[u8])
        ensures
            final(self).contents() == old(self).contents() + chunk@,
    {
        let mut i: usize = 0;
        while i < chunk.len()
            invariant
                i <= chunk@.len(),
                self.buf@ =~= old(self).buf@ + chunk@.subrange(0, i as int),
            decreases chunk@.len() - i,
        {
            self.buf.push(chunk[i]);
            proof {
                assert(old(self).buf@ + chunk@.subrange(0, i + 1) =~= (old(self).buf@
                    + chunk@.subrange(0, i as int)).push(chunk@[i as int]));
            }
            i = i + 1;
        }
        proof {
            assert(chunk@.subrange(0, chunk@.len() as int) =~= chunk@);
        }
    }

    /// Takes the next complete frame off the buffer, if one is there.
    ///
    /// A buffered header section that announces no parseable payload
    /// length is reported as corrupt; nothing is consumed then, and the
    /// connection should be torn down.
    pub fn take_frame(&mut self) -> (r: FrameStep)
        ensures
            ({
                let b = old(self).contents();
                match bfind(b, header_sep(), 0) {
                    None => r is NeedMore && final(self).contents() == b,
                    Some(h) => match content_length_of(b.subrange(0, h)) {
                        None => r is Corrupt && final(self).contents() == b,
                        Some(n) => if b.len() < h + 4 + n {
                            r is NeedMore && final(self).contents() == b
                        } else {
                            (r matches FrameStep::Frame(p) && p@ == b.subrange(h + 4, h + 4 + n)
                                && final(self).contents() == b.subrange(
                                h + 4 + n,
                                b.len() as int,
                            ))
                        },
                    },
                }
            }),
    {
        let sep: Vec<u8> = vec![13u8, 10u8, 13u8, 10u8];
        proof {
            assert(sep@ =~= header_sep());
        }
        match bfind_exec(&self.buf, &sep, 0) {
            None => FrameStep::NeedMore,
            Some(h) => {
                let headers = bsubvec(&self.buf, 0, h);
                match content_length_exec(&headers) {
                    None => FrameStep::Corrupt,
                    Some(n) => {
                        if n > self.buf.len() - (h + 4) {
                            FrameStep::NeedMore
                        } else {
                            let payload = bsubvec(&self.buf, h + 4, h + 4 + n);
                            let rest = bsubvec(&self.buf, h + 4 + n, self.buf.len());
                            self.buf = rest;
                            FrameStep::Frame(payload)
                        }
                    },
                }
            },
        }
    }
}

/// The numeric `id` member of the JSON document decoded from the bytes:
/// absent when the bytes are not a JSON document or the member is
/// missing or not an unsigned integer.
pub uninterp spec fn id_field_of(payload: Seq<u8>) -> Option<u64>;

/// The string `method` member of the JSON document decoded from the
/// bytes: absent when the bytes are not a JSON document or the member is
/// missing or not a string.
pub uninterp spec fn method_field_of(payload: Seq<u8>) -> Option<Seq<char>>;

/// The `error` member of the JSON document decoded from the bytes, as
/// its numeric `code` (zero when absent or not an integer) and its
/// `message` text (empty when absent or not a string): absent when the
/// bytes are not a JSON document or carry no `error` member.
pub uninterp spec fn error_field_of(payload: Seq<u8>) -> Option<(i64, Seq<char>)>;

/// The `result` member of the JSON document decoded from the bytes,
/// re-serialized to JSON text: absent when the bytes are not a JSON
/// document or carry no `result` member.
pub uninterp spec fn result_field_of(payload: Seq<u8>) -> Option<Seq<char>>;

/// Relies on `serde_json::from_slice`, `Value::get`, `Value::as_u64` and
/// `Value::as_str`: the `id` and `method` members of the decoded
/// document, functions of the bytes alone.
#[verifier::external_body]
fn decode_fields(payload: &[u8]) -> (r: (Option<u64>, Option<String>))
    ensures
        r.0 == id_field_of(payload@),
        match r.1 {
            Some(m) => method_field_of(payload@) == Some(m@),
            None => method_field_of(payload@) is None,
        },
{
    match serde_json::from_slice::<serde_json::Value>(payload) {
        Ok(v) => (
            v.get("id").and_then(serde_json::Value::as_u64),
            v.get("method").and_then(serde_json::Value::as_str).map(String::from),
        ),
        Err(_) => (None, None),
    }
}

/// Relies on `serde_json::from_slice`, `Value::get`, `Value::as_i64`,
/// `Value::as_str` and `Value`'s display form: the `error` member's code
/// and message and the re-serialized `result` member of the decoded
/// document, functions of the bytes alone.
#[verifier::external_body]
pub(crate) fn decode_response_fields(payload: &[u8]) -> (r: (Option<(i64, String)>, Option<String>))
    ensures
        match r.0 {
            Some(e) => (error_field_of(payload@) matches Some(f) && f.0 == e.0 && f.1 == e.1@),
            None => error_field_of(payload@) is None,
        },
        match r.1 {
            Some(b) => result_field_of(payload@) == Some(b@),
            None => result_field_of(payload@) is None,
        },
{
    match serde_json::from_slice::<serde_json::Value>(payload) {
        Ok(v) => {
            let error = v.get("error").map(|e| (
                e.get("code").and_then(serde_json::Value::as_i64).unwrap_or(0),
                e.get("message").and_then(serde_json::Value::as_str).unwrap_or("").to_string(),
            ));
            let result = v.get("result").map(|r| r.to_string());
            (error, result)
        },
        Err(_) => (None, None),
    }
}

/// Whether `id` occurs in the sequence of in-flight request ids.
pub open spec fn has_id(s: Seq<u64>, id: u64) -> bool {
    exists|i: int| 0 <= i < s.len() && s[i] == id
}

/// What one inbound message meant.
pub enum ConnEvent {
    /// The message answered the in-flight request with this id, which is
    /// no longer pending.
    Response { id: u64 },
    /// The message was a notification for this method.
    Notification { method: String },
    /// The message matched no pending request and carried no method; it
    /// is dropped.
    Discarded,
}

/// One side's view of the JSON-RPC conversation with a child process:
/// the buffered inbound bytes and the table of in-flight request ids.
pub struct ProcessConnection {
    next_id: u64,
    pending: Vec<u64>,
    reader: FrameBuffer,
}

impl ProcessConnection {
    /// The correlation id the next request will get.
    pub closed spec fn next_id_spec(self) -> u64 {
        self.next_id
    }

    /// The ids of requests sent and not yet answered.
    pub closed spec fn pending_ids(self) -> Seq<u64> {
        self.pending@
    }

    /// The inbound bytes not yet split off as frames.
    pub closed spec fn buffered(self) -> Seq<u8> {
        self.reader.contents()
    }

    /// Ids are assigned monotonically and never reused while in flight.
    pub open spec fn wf(self) -> bool {
        &&& forall|i: int| 0 <= i < self.pending_ids().len() ==> self.pending_ids()[i] < self.next_id_spec()
        &&& forall|i: int, j: int|
            0 <= i < j < self.pending_ids().len() ==> self.pending_ids()[i] != self.pending_ids()[j]
    }

    /// Creates the connection state for a freshly spawned process.
    pub fn new() -> (r: ProcessConnection)
        ensures
            r.wf(),
            r.next_id_spec() == 0,
            r.pending_ids() == Seq::<u64>::empty(),
            r.buffered() == Seq::<u8>::empty(),
    {
        let r = ProcessConnection { next_id: 0, pending: Vec::new(), reader: FrameBuffer::new() };
        proof {
            assert(r.pending_ids() =~= Seq::<u64>::empty());
        }
        r
    }

    /// How many requests are in flight.
    pub fn pending_count(&self) -> (n: usize)
        ensures
            n == self.pending_ids().len(),
    {
        self.pending.len()
    }

    /// Assigns the next correlation id to a request and renders the
    /// framed wire text to write to the child's input.
    pub fn begin_request(&mut self, method: &str, params_json: Option<&str>) -> (r: (u64, String))
        requires
            old(self).wf(),
            old(self).next_id_spec() < u64::MAX,
        ensures
            final(self).wf(),
            r.0 == old(self).next_id_spec(),
            final(self).next_id_spec() == old(self).next_id_spec() + 1,
            final(self).pending_ids() == old(self).pending_ids().push(r.0),
            final(self).buffered() == old(self).buffered(),
            r.1@ == framed(
                request_json(
                    r.0 as nat,
                    method@,
                    match params_json {
                        Some(p) => Some(p@),
                        None => None,
                    },
                ),
            ),
    {
        let id = self.next_id;
        self.next_id = self.next_id + 1;
        self.pending.push(id);
        proof {
            assert forall|i: int|
                0 <= i < self.pending@.len() implies self.pending@[i] < self.next_id by {
                if i < old(self).pending@.len() {
                    assert(old(self).pending_ids()[i] < old(self).next_id_spec());
                }
            }
            assert forall|a: int, b: int|
                0 <= a < b < self.pending@.len() implies self.pending@[a] != self.pending@[b] by {
                if b < old(self).pending@.len() {
                    assert(old(self).pending_ids()[a] != old(self).pending_ids()[b]);
                } else {
                    assert(old(self).pending_ids()[a] < old(self).next_id_spec());
                }
            }
        }
        let frame = request_frame(id, method, params_json);
        (id, frame)
    }

    /// Buffers bytes read from the child's output.
    pub fn feed_bytes(&mut self, chunk: &[u8])
        ensures
            final(self).buffered() == old(self).buffered() + chunk@,
            final(self).pending_ids() == old(self).pending_ids(),
            final(self).next_id_spec() == old(self).next_id_spec(),
            old(self).wf() ==> final(self).wf(),
    {
        self.reader.push_chunk(chunk);
    }

    /// Takes the next complete frame out of the buffered bytes.
    pub fn next_frame(&mut self) -> (r: FrameStep)
        ensures
            final(self).pending_ids() == old(self).pending_ids(),
            final(self).next_id_spec() == old(self).next_id_spec(),
            old(self).wf() ==> final(self).wf(),
            ({
                let b = old(self).buffered();
                match bfind(b, header_sep(), 0) {
                    None => r is NeedMore && final(self).buffered() == b,
                    Some(h) => match content_length_of(b.subrange(0, h)) {
                        None => r is Corrupt && final(self).buffered() == b,
                        Some(n) => if b.len() < h + 4 + n {
                            r is NeedMore && final(self).buffered() == b
                        } else {
                            (r matches FrameStep::Frame(p) && p@ =~= b.subrange(h + 4, h + 4 + n)
                                && final(self).buffered() =~= b.subrange(h + 4 + n, b.len() as int))
                        },
                    },
                }
            }),
    {
        let r = self.reader.take_frame();
        proof {
            assert(self.pending_ids() == old(self).pending_ids());
            assert(self.next_id_spec() == old(self).next_id_spec());
            if old(self).wf() {
                assert forall|i: int|
                    0 <= i < self.pending_ids().len() implies self.pending_ids()[i]
                    < self.next_id_spec() by {
                    assert(old(self).pending_ids()[i] < old(self).next_id_spec());
                }
                assert forall|a: int, b: int|
                    0 <= a < b < self.pending_ids().len() implies self.pending_ids()[a]
                    != self.pending_ids()[b] by {
                    assert(old(self).pending_ids()[a] != old(self).pending_ids()[b]);
                }
            }
        }
        r
    }

    /// Removes `n` from the in-flight table, if it is there.
    pub fn take_pending(&mut self, n: u64) -> (found: bool)
        requires
            old(self).wf(),
        ensures
            final(self).wf(),
            final(self).next_id_spec() == old(self).next_id_spec(),
            final(self).buffered() == old(self).buffered(),
            found == has_id(old(self).pending_ids(), n),
            !found ==> *final(self) == *old(self),
            found ==> !has_id(final(self).pending_ids(), n),
            found ==> final(self).pending_ids().len() == old(self).pending_ids().len() - 1,
            forall|m: u64|
                m != n ==> (#[trigger] has_id(final(self).pending_ids(), m) <==> has_id(
                    old(self).pending_ids(),
                    m,
                )),
    {
        let mut i: usize = 0;
        while i < self.pending.len()
            invariant
                old(self).wf(),
                i <= self.pending@.len(),
                *self == *old(self),
                forall|j: int| 0 <= j < i ==> self.pending@[j] != n,
            decreases self.pending@.len() - i,
        {
            if self.pending[i] == n {
                let ghost before = self.pending@;
                self.pending.remove(i);
                proof {
                    assert(before == old(self).pending_ids());
                    assert forall|a: int, b: int|
                        0 <= a < b < before.len() implies before[a] != before[b] by {
                        assert(old(self).pending_ids()[a] != old(self).pending_ids()[b]);
                    }
                    assert forall|j: int|
                        0 <= j < before.len() implies before[j] < self.next_id by {
                        assert(old(self).pending_ids()[j] < old(self).next_id_spec());
                    }
                    assert(before[i as int] == n);
                    assert forall|j: int|
                        0 <= j < self.pending@.len() implies self.pending@[j] != n by {
                        if j < i {
                            assert(self.pending@[j] == before[j]);
                        } else {
                            assert(self.pending@[j] == before[j + 1]);
                            assert(before[j + 1] != before[i as int]);
                        }
                    }
                    assert forall|m: u64|
                        m != n && has_id(before, m) implies #[trigger] has_id(
                        self.pending@,
                        m,
                    ) by {
                        let k = choose|k: int| 0 <= k < before.len() && before[k] == m;
                        if k < i {
                            assert(self.pending@[k] == m);
                        } else {
                            assert(k != i);
                            assert(self.pending@[k - 1] == m);
                        }
                    }
                    assert forall|m: u64|
                        m != n && has_id(self.pending@, m) implies #[trigger] has_id(
                        before,
                        m,
                    ) by {
                        let k = choose|k: int| 0 <= k < self.pending@.len() && self.pending@[k] == m;
                        if k < i {
                            assert(before[k] == m);
                        } else {
                            assert(before[k + 1] == m);
                        }
                    }
                    assert forall|a: int, b: int|
                        0 <= a < b < self.pending@.len() implies self.pending@[a]
                        != self.pending@[b] by {
                        let a0: int = if a < i {
                            a
                        } else {
                            a + 1
                        };
                        let b0: int = if b < i {
                            b
                        } else {
                            b + 1
                        };
                        assert(self.pending@[a] == before[a0]);
                        assert(self.pending@[b] == before[b0]);
                    }
                    assert forall|j: int|
                        0 <= j < self.pending@.len() implies self.pending@[j] < self.next_id by {
                        if j < i {
                            assert(self.pending@[j] == before[j]);
                        } else {
                            assert(self.pending@[j] == before[j + 1]);
                        }
                    }
                    assert(self.pending_ids() == self.pending@);
                    assert(old(self).pending_ids() == before);
                    assert(!has_id(self.pending_ids(), n));
                    assert forall|m: u64|
                        m != n implies (#[trigger] has_id(self.pending_ids(), m) <==> has_id(
                        old(self).pending_ids(),
                        m,
                    )) by {
                        if has_id(before, m) {
                            assert(has_id(self.pending@, m));
                        }
                        if has_id(self.pending@, m) {
                            assert(has_id(before, m));
                        }
                    }
                    assert(old(self).pending_ids()[i as int] == n);
                    assert(has_id(old(self).pending_ids(), n));
                }
                return true;
            }
            i = i + 1;
        }
        proof {
            assert forall|j: int|
                0 <= j < old(self).pending_ids().len() implies old(self).pending_ids()[j]
                != n by {
                assert(self.pending@[j] != n);
            }
            assert(!has_id(old(self).pending_ids(), n));
        }
        false
    }

    /// Correlates one decoded message, given its `id` and `method`
    /// members, against the table of in-flight requests.
    ///
    /// A message whose id matches a pending request completes exactly
    /// that request. A message with an id that was never sent (or
    /// answered before) is discarded and changes nothing. A message with
    /// a method and no id is a notification. Anything else is discarded.
    pub fn classify(&mut self, id: Option<u64>, method: Option<String>) -> (ev: ConnEvent)
        requires
            old(self).wf(),
        ensures
            final(self).wf(),
            final(self).next_id_spec() == old(self).next_id_spec(),
            final(self).buffered() == old(self).buffered(),
            match id {
                Some(n) => {
                    if has_id(old(self).pending_ids(), n) {
                        &&& (ev matches ConnEvent::Response { id: rid } && rid == n)
                        &&& !has_id(final(self).pending_ids(), n)
                        &&& forall|m: u64|
                            m != n ==> (#[trigger] has_id(final(self).pending_ids(), m) <==> has_id(
                                old(self).pending_ids(),
                                m,
                            ))
                        &&& final(self).pending_ids().len() == old(self).pending_ids().len() - 1
                    } else {
                        ev is Discarded && *final(self) == *old(self)
                    }
                },
                None => {
                    match method {
                        Some(m) => (ev matches ConnEvent::Notification { method: em } && em == m)
                            && *final(self) == *old(self),
                        None => ev is Discarded && *final(self) == *old(self),
                    }
                },
            },
    {
        match id {
            Some(n) => {
                if self.take_pending(n) {
                    ConnEvent::Response { id: n }
                } else {
                    ConnEvent::Discarded
                }
            },
            None => {
                match method {
                    Some(m) => ConnEvent::Notification { method: m },
                    None => ConnEvent::Discarded,
                }
            },
        }
    }

    /// Decodes one framed payload and correlates it.
    ///
    /// The event is exactly what [`Self::classify`] decides on the
    /// payload's decoded `id` and `method` members: a payload carrying a
    /// pending id completes that request; one with an id never sent is
    /// discarded and changes nothing; one with a method and no id is a
    /// notification; anything else is discarded.
    pub fn on_payload(&mut self, payload: &[u8]) -> (ev: ConnEvent)
        requires
            old(self).wf(),
        ensures
            final(self).wf(),
            final(self).next_id_spec() == old(self).next_id_spec(),
            final(self).buffered() == old(self).buffered(),
            match id_field_of(payload@) {
                Some(n) => {
                    if has_id(old(self).pending_ids(), n) {
                        &&& (ev matches ConnEvent::Response { id: rid } && rid == n)
                        &&& !has_id(final(self).pending_ids(), n)
                        &&& forall|m: u64|
                            m != n ==> (#[trigger] has_id(final(self).pending_ids(), m) <==> has_id(
                                old(self).pending_ids(),
                                m,
                            ))
                        &&& final(self).pending_ids().len() == old(self).pending_ids().len() - 1
                    } else {
                        ev is Discarded && *final(self) == *old(self)
                    }
                },
                None => match method_field_of(payload@) {
                    Some(m) => (ev matches ConnEvent::Notification { method: em } && em@ == m)
                        && *final(self) == *old(self),
                    None => ev is Discarded && *final(self) == *old(self),
                },
            },
    {
        let fields = decode_fields(payload);
        self.classify(fields.0, fields.1)
    }
}

} // verus!
