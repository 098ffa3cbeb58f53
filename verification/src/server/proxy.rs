//! The decisions of the development proxy: where a request goes, when it is
//! a WebSocket upgrade, the handshake forwarded to the framework's server,
//! and the `Sec-WebSocket-Accept` key returned to the client.

use vstd::prelude::*;
use base64::Engine;
use sha1::Digest;
use crate::text::{
    chars_of, contains_seq, contains_str, decimal, decimal_string, lowercase_of, push_str_chars,
    string_of, to_lowercase,
};

verus! {

/// The SHA-1 digest of `data`, as `sha1::Sha1` computes it.
pub uninterp spec fn sha1_of(data: Seq<u8>) -> Seq<u8>;

/// `<sha1::Sha1 as Digest>::digest`. Claimed: the result is the SHA-1 digest
/// of `data`, named `sha1_of(data@)`, and is 20 bytes long.
#[verifier::external_body]
fn sha1_digest(data: &[u8]) -> (d: Vec<u8>)
    ensures
        d@ == sha1_of(data@),
        d@.len() == 20,
{
    sha1::Sha1::digest(data).to_vec()
}

/// The character of the standard base64 alphabet (RFC 4648) for `v < 64`.
pub open spec fn base64_char(v: int) -> char {
    if v < 26 {
        (65 + v) as char
    } else if v < 52 {
        (97 + v - 26) as char
    } else if v < 62 {
        (48 + v - 52) as char
    } else if v == 62 {
        '+'
    } else {
        '/'
    }
}

/// Standard base64 with `=` padding (RFC 4648, section 4): each group of
/// three bytes, the last possibly shorter, becomes four characters.
pub open spec fn base64_standard(data: Seq<u8>) -> Seq<char>
    decreases data.len(),
{
    if data.len() == 0 {
        seq![]
    } else {
        let b1: int = if data.len() > 1 { data[1] as int } else { 0 };
        let b2: int = if data.len() > 2 { data[2] as int } else { 0 };
        let n = data[0] as int * 65536 + b1 * 256 + b2;
        let c2 = if data.len() > 1 { base64_char((n / 64) % 64) } else { '=' };
        let c3 = if data.len() > 2 { base64_char(n % 64) } else { '=' };
        let group = seq![base64_char(n / 262144), base64_char((n / 4096) % 64), c2, c3];
        if data.len() > 3 {
            group + base64_standard(data.skip(3))
        } else {
            group
        }
    }
}

/// Standard base64 gives four characters for every started group of three
/// bytes, the last group padded with `=`: one `=` when two bytes are left
/// over, two when one is.
pub proof fn lemma_base64_shape(data: Seq<u8>)
    ensures
        base64_standard(data).len() == ((data.len() + 2) / 3) * 4,
        data.len() % 3 == 2 ==> base64_standard(data).last() == '=',
        data.len() % 3 == 1 ==> base64_standard(data).last() == '=' && base64_standard(data)[base64_standard(data).len() - 2] == '=',
    decreases data.len(),
{
    if data.len() > 3 {
        lemma_base64_shape(data.skip(3));
    }
}

/// `base64::engine::general_purpose::STANDARD.encode`. Claimed: the result
/// is `base64_standard(data@)`. The length bound is where the crate's
/// output-size computation does not overflow (it panics otherwise).
#[verifier::external_body]
fn base64_encode(data: &[u8]) -> (s: String)
    requires
        (data@.len() / 3) * 4 + 4 <= usize::MAX,
    ensures
        s@ == base64_standard(data@),
{
    base64::engine::general_purpose::STANDARD.encode(data)
}

/// The GUID that RFC 6455 appends to a client's WebSocket key.
pub open spec fn websocket_guid() -> Seq<char> {
    "258EAFA5-E914-47DA-95CA-C5AB0DC85B11"@
}

/// The bytes hashed for a client key: its UTF-8 encoding followed by that of the GUID.
pub open spec fn accept_key_source(key: Seq<char>) -> Seq<u8> {
    vstd::utf8::encode_utf8(key) + vstd::utf8::encode_utf8(websocket_guid())
}

/// The bytes hashed for a key are the key's own UTF-8 bytes, unchanged,
/// followed by the 36 bytes of the GUID.
pub proof fn lemma_accept_key_source_layout(key: Seq<char>)
    ensures
        accept_key_source(key).len() == vstd::utf8::encode_utf8(key).len() + 36,
        accept_key_source(key).take(vstd::utf8::encode_utf8(key).len() as int)
            == vstd::utf8::encode_utf8(key),
        accept_key_source(key).skip(vstd::utf8::encode_utf8(key).len() as int)
            == vstd::utf8::encode_utf8("258EAFA5-E914-47DA-95CA-C5AB0DC85B11"@),
{
    reveal_strlit("258EAFA5-E914-47DA-95CA-C5AB0DC85B11");
    let g = "258EAFA5-E914-47DA-95CA-C5AB0DC85B11"@;
    assert(vstd::utf8::is_ascii_chars(g));
    vstd::utf8::is_ascii_chars_encode_utf8(g);
    let e = vstd::utf8::encode_utf8(key);
    let gb = vstd::utf8::encode_utf8(g);
    assert((e + gb).take(e.len() as int) =~= e);
    assert((e + gb).skip(e.len() as int) =~= gb);
}

/// Different keys are hashed from different bytes: no two keys share an
/// accept value's input, so no character of a key is dropped or altered.
pub proof fn lemma_accept_key_source_injective(k1: Seq<char>, k2: Seq<char>)
    ensures
        accept_key_source(k1) == accept_key_source(k2) ==> k1 == k2,
{
    if accept_key_source(k1) == accept_key_source(k2) {
        lemma_accept_key_source_layout(k1);
        lemma_accept_key_source_layout(k2);
        let e1 = vstd::utf8::encode_utf8(k1);
        let e2 = vstd::utf8::encode_utf8(k2);
        assert(e1 == e2);
        vstd::utf8::encode_utf8_decode_utf8(k1);
        vstd::utf8::encode_utf8_decode_utf8(k2);
    }
}

fn append_bytes(out: &mut Vec<u8>, b: &[u8])
    ensures
        final(out)@ == old(out)@ + b@,
{
    let mut k: usize = 0;
    while k < b.len()
        invariant
            k <= b@.len(),
            out@ == old(out)@ + b@.take(k as int),
        decreases b@.len() - k,
    {
        out.push(b[k]);
        assert(old(out)@ + b@.take(k as int).push(b@[k as int]) =~= old(out)@ + b@.take(k + 1));
        k = k + 1;
    }
    assert(b@.take(b@.len() as int) =~= b@);
}

/// The `Sec-WebSocket-Accept` value for a client's `Sec-WebSocket-Key`
/// (RFC 6455, section 4.2.2): base64 of the SHA-1 of the key followed by the GUID.
pub fn derive_accept_key(key: &str) -> (accept: String)
    ensures
        accept@ == base64_standard(sha1_of(accept_key_source(key@))),
        accept@ == base64_standard(
            sha1_of(
                vstd::utf8::encode_utf8(key@) + vstd::utf8::encode_utf8(
                    "258EAFA5-E914-47DA-95CA-C5AB0DC85B11"@,
                ),
            ),
        ),
        accept@.len() == 28,
        accept@.last() == '=',
{
    let mut input: Vec<u8> = Vec::new();
    append_bytes(&mut input, key.as_bytes());
    append_bytes(&mut input, "258EAFA5-E914-47DA-95CA-C5AB0DC85B11".as_bytes());
    let digest = sha1_digest(input.as_slice());
    proof {
        lemma_base64_shape(digest@);
    }
    base64_encode(digest.as_slice())
}

/// The accept value owed to a client whose key header is `key`.
pub open spec fn owed_accept(key: Option<&str>) -> Seq<char> {
    base64_standard(
        sha1_of(
            accept_key_source(
                match key {
                    Some(k) => k@,
                    None => Seq::empty(),
                },
            ),
        ),
    )
}

/// The accept value sent back when the client's key header is `key`; an
/// absent or non-text key counts as the empty key.
pub fn accept_header_value(key: Option<&str>) -> (accept: String)
    ensures
        accept@ == owed_accept(key),
        accept@.len() == 28,
        accept@.last() == '=',
{
    match key {
        Some(k) => derive_accept_key(k),
        None => {
            proof {
                reveal_strlit("");
            }
            let empty = "";
            assert(empty@ =~= Seq::<char>::empty());
            derive_accept_key(empty)
        },
    }
}

/// The address of the framework's development server.
pub open spec fn dev_server_addr_text(port: u16) -> Seq<char> {
    "127.0.0.1:"@ + decimal(port as nat)
}

/// `127.0.0.1:<port>`, where the proxy finds the development server.
pub fn dev_server_addr(port: u16) -> (a: String)
    ensures
        a@ == dev_server_addr_text(port),
{
    let mut v: Vec<char> = Vec::new();
    push_str_chars(&mut v, "127.0.0.1:");
    let p = decimal_string(port as u64);
    push_str_chars(&mut v, &p);
    string_of(&v)
}

/// The URI a request is forwarded to: the development server, with the
/// request's path and query, or `/` when it has none.
pub fn proxy_target_uri(port: u16, path_and_query: Option<&str>) -> (uri: String)
    ensures
        uri@ == "http://"@ + dev_server_addr_text(port) + match path_and_query {
            Some(p) => p@,
            None => "/"@,
        },
{
    let mut v: Vec<char> = Vec::new();
    push_str_chars(&mut v, "http://");
    let a = dev_server_addr(port);
    push_str_chars(&mut v, &a);
    match path_and_query {
        Some(p) => push_str_chars(&mut v, p),
        None => push_str_chars(&mut v, "/"),
    }
    string_of(&v)
}

/// Whether a lower-cased `Upgrade` header value names the WebSocket protocol.
pub fn names_websocket(lowered: &str) -> (b: bool)
    ensures
        b == contains_seq(lowered@, "websocket"@),
{
    contains_str(lowered, "websocket")
}

/// Whether a request with this `Upgrade` header (absent, or not text, as
/// `None`) asks for a WebSocket: its lower-cased value contains `websocket`.
pub fn is_websocket_upgrade(upgrade: Option<&str>) -> (b: bool)
    ensures
        b == (upgrade matches Some(v) && contains_seq(lowercase_of(v@), "websocket"@)),
{
    match upgrade {
        Some(v) => {
            let lowered = to_lowercase(v);
            names_websocket(&lowered)
        },
        None => false,
    }
}

/// The header lines of a forwarded handshake: `name: value\r\n` for each
/// header whose value is text, in order; the others are left out.
pub open spec fn header_lines(headers: Seq<(String, Option<String>)>) -> Seq<char>
    decreases headers.len(),
{
    if headers.len() == 0 {
        seq![]
    } else {
        let rest = header_lines(headers.skip(1));
        match headers[0].1 {
            Some(v) => headers[0].0@ + ": "@ + v@ + "\r\n"@ + rest,
            None => rest,
        }
    }
}

/// The header lines of two runs of headers are those of the first followed
/// by those of the second.
pub proof fn lemma_header_lines_concat(
    a: Seq<(String, Option<String>)>,
    b: Seq<(String, Option<String>)>,
)
    ensures
        header_lines(a + b) == header_lines(a) + header_lines(b),
    decreases a.len(),
{
    if a.len() == 0 {
        assert(a + b =~= b);
        assert(header_lines(a) =~= Seq::<char>::empty());
        assert(Seq::<char>::empty() + header_lines(b) =~= header_lines(b));
    } else {
        assert((a + b)[0] == a[0]);
        assert((a + b).skip(1) =~= a.skip(1) + b);
        lemma_header_lines_concat(a.skip(1), b);
        match a[0].1 {
            Some(v) => {
                assert(header_lines(a + b) =~= header_lines(a) + header_lines(b));
            },
            None => {},
        }
    }
}

/// A header with a text value gives the one line `name: value\r\n`; a
/// header whose value is not text gives none.
pub proof fn lemma_header_lines_single(h: (String, Option<String>))
    ensures
        header_lines(seq![h]) == match h.1 {
            Some(v) => h.0@ + ": "@ + v@ + "\r\n"@,
            None => Seq::<char>::empty(),
        },
{
    let hs = seq![h];
    assert(hs.skip(1) =~= Seq::<(String, Option<String>)>::empty());
    assert(header_lines(hs.skip(1)) =~= Seq::<char>::empty());
    match h.1 {
        Some(v) => {
            assert(header_lines(hs) =~= h.0@ + ": "@ + v@ + "\r\n"@);
        },
        None => {},
    }
}

/// Every header whose value is text is forwarded, in its place: the lines
/// are those of the headers before it, then its own line, then those of the
/// headers after it.
pub proof fn lemma_every_text_header_forwarded(headers: Seq<(String, Option<String>)>, i: int)
    requires
        0 <= i < headers.len(),
        headers[i].1 is Some,
    ensures
        header_lines(headers) == header_lines(headers.take(i)) + (headers[i].0@ + ": "@
            + headers[i].1->0@ + "\r\n"@) + header_lines(headers.skip(i + 1)),
{
    assert(headers =~= headers.take(i) + (seq![headers[i]] + headers.skip(i + 1)));
    lemma_header_lines_concat(headers.take(i), seq![headers[i]] + headers.skip(i + 1));
    lemma_header_lines_concat(seq![headers[i]], headers.skip(i + 1));
    lemma_header_lines_single(headers[i]);
}

/// The handshake text forwarded to the development server.
pub open spec fn handshake_text(path: Seq<char>, headers: Seq<(String, Option<String>)>) -> Seq<
    char,
> {
    "GET "@ + path + " HTTP/1.1\r\n"@ + header_lines(headers) + "\r\n"@
}

/// The WebSocket handshake forwarded to the development server for a
/// request to `path` with `headers` (name, and value when it is text).
pub fn ws_handshake(path: &str, headers: &Vec<(String, Option<String>)>) -> (h: String)
    ensures
        h@ == handshake_text(path@, headers@),
{
    let mut v: Vec<char> = Vec::new();
    push_str_chars(&mut v, "GET ");
    push_str_chars(&mut v, path);
    push_str_chars(&mut v, " HTTP/1.1\r\n");
    let ghost prefix = v@;
    let mut i: usize = 0;
    assert(headers@.skip(0) =~= headers@);
    while i < headers.len()
        invariant
            i <= headers@.len(),
            prefix + header_lines(headers@) == v@ + header_lines(headers@.skip(i as int)),
        decreases headers@.len() - i,
    {
        let ghost t = headers@.skip(i as int);
        assert(t.skip(1) =~= headers@.skip(i + 1));
        let ghost v0 = v@;
        match &headers[i].1 {
            Some(val) => {
                push_str_chars(&mut v, &headers[i].0);
                push_str_chars(&mut v, ": ");
                push_str_chars(&mut v, val);
                push_str_chars(&mut v, "\r\n");
                assert(v0 + header_lines(t) =~= v@ + header_lines(headers@.skip(i + 1)));
            },
            None => {},
        }
        i = i + 1;
    }
    assert(headers@.skip(i as int) =~= Seq::<(String, Option<String>)>::empty());
    push_str_chars(&mut v, "\r\n");
    assert(v@ =~= handshake_text(path@, headers@));
    string_of(&v)
}

/// What reading one line of the development server's handshake reply means.
#[derive(Clone, Copy, Debug, PartialEq, Eq, Structural)]
pub enum ReplyLine {
    /// The blank line that ends the headers: start piping frames.
    HeadersDone,
    /// The connection closed or failed: give up.
    Closed,
    /// Another header line: read on.
    More,
}

/// Classifies one read of the reply: `bytes_read` is `None` when the read
/// failed, else the number of bytes read, and `line` what was read.
pub fn classify_reply_line(bytes_read: Option<usize>, line: &str) -> (r: ReplyLine)
    ensures
        r == (match bytes_read {
            None => ReplyLine::Closed,
            Some(n) => if line@ == "\r\n"@ {
                ReplyLine::HeadersDone
            } else if n == 0 {
                ReplyLine::Closed
            } else {
                ReplyLine::More
            },
        }),
{
    match bytes_read {
        None => ReplyLine::Closed,
        Some(n) => {
            let v = chars_of(line);
            proof {
                reveal_strlit("\r\n");
            }
            if v.len() == 2 && v[0] == '\r' && v[1] == '\n' {
                assert(v@ =~= "\r\n"@);
                ReplyLine::HeadersDone
            } else {
                assert(v@ != "\r\n"@) by {
                    if v@ == "\r\n"@ {
                        assert(v@[0] == '\r' && v@[1] == '\n');
                    }
                }
                if n == 0 {
                    ReplyLine::Closed
                } else {
                    ReplyLine::More
                }
            }
        },
    }
}

/// The answer to a WebSocket upgrade request, given at once while the
/// frames are relayed in the background.
pub struct UpgradeAnswer {
    pub status: u16,
    /// The `Upgrade` header.
    pub upgrade: String,
    /// The `Connection` header.
    pub connection: String,
    /// The `Sec-WebSocket-Accept` header.
    pub accept: String,
}

/// What the proxy does with a request.
pub enum ProxyAction {
    /// Answer with this upgrade answer (empty body) and relay the WebSocket
    /// to the development server; the HTTP client is not used.
    Upgrade(UpgradeAnswer),
    /// Forward the request with the HTTP client.
    Forward,
}

/// What to do with a request whose `Upgrade` header is `upgrade` and whose
/// `Sec-WebSocket-Key` header is `key` (each `None` when absent or not
/// text): a WebSocket request is answered `101` with `Upgrade: websocket`,
/// `Connection: upgrade` and the accept value; any other is forwarded.
pub fn proxy_action(upgrade: Option<&str>, key: Option<&str>) -> (a: ProxyAction)
    ensures
        (upgrade matches Some(v) && contains_seq(lowercase_of(v@), "websocket"@)) ==> (a matches ProxyAction::Upgrade(ans)
            && ans.status == 101 && ans.upgrade@ == "websocket"@ && ans.connection@ == "upgrade"@
            && ans.accept@ == owed_accept(key) && ans.accept@.len() == 28),
        !(upgrade matches Some(v) && contains_seq(lowercase_of(v@), "websocket"@)) ==> a is Forward,
{
    if is_websocket_upgrade(upgrade) {
        let accept = accept_header_value(key);
        let upgrade_header = "websocket".to_owned();
        let connection = "upgrade".to_owned();
        ProxyAction::Upgrade(
            UpgradeAnswer { status: 101, upgrade: upgrade_header, connection, accept },
        )
    } else {
        ProxyAction::Forward
    }
}

/// The answer given when the development server cannot be reached: status
/// `502` and this body.
pub fn unavailable_answer() -> (a: (u16, String))
    ensures
        a.0 == 502,
        a.1@ == "Dev server unavailable - is it running?"@,
{
    (502, "Dev server unavailable - is it running?".to_owned())
}

/// What one read of the reply means (see `classify_reply_line`).
pub open spec fn reply_line_kind(read: (Option<usize>, Seq<char>)) -> ReplyLine {
    match read.0 {
        None => ReplyLine::Closed,
        Some(n) => if read.1 == "\r\n"@ {
            ReplyLine::HeadersDone
        } else if n == 0 {
            ReplyLine::Closed
        } else {
            ReplyLine::More
        },
    }
}

/// A read that returned a nonempty line other than the blank line.
pub open spec fn is_header_line(read: (Option<usize>, Seq<char>)) -> bool {
    read.0 matches Some(n) && n > 0 && read.1 != "\r\n"@
}

/// Where reading the reply stands after the reads `reads`, in order: still
/// reading (`More`) until the first read that is not a header line decides.
pub open spec fn reply_state(reads: Seq<(Option<usize>, Seq<char>)>) -> ReplyLine
    decreases reads.len(),
{
    if reads.len() == 0 {
        ReplyLine::More
    } else {
        let before = reply_state(reads.drop_last());
        if before == ReplyLine::More {
            reply_line_kind(reads.last())
        } else {
            before
        }
    }
}

/// The state after one more read: a decided state stays; otherwise the read decides.
pub fn next_reply_state(state: ReplyLine, bytes_read: Option<usize>, line: &str) -> (r: ReplyLine)
    ensures
        r == (if state == ReplyLine::More {
            reply_line_kind((bytes_read, line@))
        } else {
            state
        }),
{
    if state == ReplyLine::More {
        classify_reply_line(bytes_read, line)
    } else {
        state
    }
}

proof fn lemma_reply_state_cases(reads: Seq<(Option<usize>, Seq<char>)>)
    ensures
        reply_state(reads) == ReplyLine::More <==> forall|j: int|
            0 <= j < reads.len() ==> reply_line_kind(#[trigger] reads[j]) == ReplyLine::More,
        reply_state(reads) != ReplyLine::More ==> exists|k: int|
            0 <= k < reads.len() && reply_line_kind(#[trigger] reads[k]) == reply_state(reads)
                && forall|j: int| 0 <= j < k ==> reply_line_kind(#[trigger] reads[j]) == ReplyLine::More,
    decreases reads.len(),
{
    if reads.len() > 0 {
        let d = reads.drop_last();
        lemma_reply_state_cases(d);
        assert forall|j: int| 0 <= j < d.len() implies d[j] == reads[j] by {}
        if reply_state(d) != ReplyLine::More {
            let k = choose|k: int|
                0 <= k < d.len() && reply_line_kind(#[trigger] d[k]) == reply_state(d) && forall|j: int|
                    0 <= j < k ==> reply_line_kind(#[trigger] d[j]) == ReplyLine::More;
            assert(reply_line_kind(reads[k]) == reply_state(reads));
            assert forall|j: int| 0 <= j < k implies reply_line_kind(#[trigger] reads[j])
                == ReplyLine::More by {
                assert(d[j] == reads[j]);
            }
            assert(!(forall|j: int|
                0 <= j < reads.len() ==> reply_line_kind(#[trigger] reads[j]) == ReplyLine::More)) by {
                assert(reads[k] == d[k]);
            }
        } else {
            let n = reads.len() - 1;
            assert(reads[n] == reads.last());
            if reply_state(reads) != ReplyLine::More {
                assert forall|j: int| 0 <= j < n implies reply_line_kind(#[trigger] reads[j])
                    == ReplyLine::More by {
                    assert(d[j] == reads[j]);
                }
            } else {
                assert forall|j: int| 0 <= j < reads.len() implies reply_line_kind(
                    #[trigger] reads[j],
                ) == ReplyLine::More by {
                    if j < n {
                        assert(d[j] == reads[j]);
                    }
                }
            }
        }
    }
}

/// Frames are relayed only once the reply's headers are done, and that
/// happens exactly at the first read that returns the blank line `\r\n`
/// when every read before it returned a nonempty header line; a failed or
/// empty read before it closes the relay instead. Once decided, the state
/// never changes.
pub proof fn lemma_relay_only_after_blank_line(
    reads: Seq<(Option<usize>, Seq<char>)>,
    more: Seq<(Option<usize>, Seq<char>)>,
)
    ensures
        reply_state(reads) == ReplyLine::HeadersDone <==> exists|k: int|
            0 <= k < reads.len() && (#[trigger] reads[k]).0 is Some && reads[k].1 == "\r\n"@
                && forall|j: int|
                0 <= j < k ==> is_header_line(#[trigger] reads[j]),
        reply_state(reads) != ReplyLine::More ==> reply_state(reads + more) == reply_state(reads),
    decreases more.len(),
{
    lemma_reply_state_cases(reads);
    if reply_state(reads) == ReplyLine::HeadersDone {
        let k = choose|k: int|
            0 <= k < reads.len() && reply_line_kind(#[trigger] reads[k]) == reply_state(reads)
                && forall|j: int| 0 <= j < k ==> reply_line_kind(#[trigger] reads[j]) == ReplyLine::More;
        assert(reads[k].0 is Some && reads[k].1 == "\r\n"@);
    }
    if exists|k: int|
        0 <= k < reads.len() && (#[trigger] reads[k]).0 is Some && reads[k].1 == "\r\n"@
            && forall|j: int|
            0 <= j < k ==> is_header_line(#[trigger] reads[j]) {
        let k = choose|k: int|
            0 <= k < reads.len() && (#[trigger] reads[k]).0 is Some && reads[k].1 == "\r\n"@
                && forall|j: int|
                0 <= j < k ==> is_header_line(#[trigger] reads[j]);
        assert(reply_line_kind(reads[k]) == ReplyLine::HeadersDone);
        assert(reply_state(reads) != ReplyLine::More);
        let k2 = choose|k2: int|
            0 <= k2 < reads.len() && reply_line_kind(#[trigger] reads[k2]) == reply_state(reads)
                && forall|j: int| 0 <= j < k2 ==> reply_line_kind(#[trigger] reads[j]) == ReplyLine::More;
        if k2 < k {
            assert(reply_line_kind(reads[k2]) == ReplyLine::More);
        } else if k < k2 {
            assert(reply_line_kind(reads[k]) == ReplyLine::More);
        }
    }
    if more.len() > 0 {
        lemma_relay_only_after_blank_line(reads, more.drop_last());
        assert((reads + more).drop_last() =~= reads + more.drop_last());
    } else {
        assert(reads + more =~= reads);
    }
}

} // verus!
