//! The wire envelope of the core-start route.
//!
//! A start request carries a core-variant selector and a configuration file
//! path; the response is a success marker, or an error marker with a
//! human-readable cause.  Both travel as a minimal JSON object in canonical
//! form: no surrounding whitespace, fields in a fixed order, and string
//! contents escaped exactly as [`escape_bytes`] describes.  The library frames
//! and checks these bytes itself; converting them to richer values is the
//! shell's concern.

use vstd::prelude::*;

verus! {

/// A request to start the managed core process.
pub struct StartRequest {
    /// The core-variant selector, passed through without validation.
    pub core_type: Vec<u8>,
    /// The configuration file path for the core process.
    pub config_file: Vec<u8>,
}

/// The outcome of the start route, as put on the wire.
pub enum StartResponse {
    /// The lifecycle client reported success.
    Success,
    /// The lifecycle client reported a failure, with its stringified cause.
    Failure { message: Vec<u8> },
}

/// The HTTP status of a successful start.
pub const STATUS_OK: u16 = 200;

/// The HTTP status of a reported start failure.
pub const STATUS_INTERNAL_ERROR: u16 = 500;

/// The lowercase hexadecimal digit of a nibble.
pub open spec fn hex_digit(n: u8) -> u8
    recommends
        n < 16,
{
    if n < 10 {
        ((48 + n) as u8)
    } else {
        ((87 + n) as u8)
    }
}

/// The JSON escape of one byte of string content: quote and backslash get a
/// backslash escape, control bytes a lowercase `\u00..` escape, and every
/// other byte stands for itself.
pub open spec fn escape_byte(b: u8) -> Seq<u8> {
    if b == '"' as u8 {
        seq!['\\' as u8, '"' as u8]
    } else if b == '\\' as u8 {
        seq!['\\' as u8, '\\' as u8]
    } else if b < 32 {
        seq!['\\' as u8, 'u' as u8, '0' as u8, '0' as u8, hex_digit(b / 16), hex_digit(b % 16)]
    } else {
        seq![b]
    }
}

/// The JSON escape of a whole string content, byte by byte.
pub open spec fn escape_bytes(s: Seq<u8>) -> Seq<u8>
    decreases s.len(),
{
    if s.len() == 0 {
        Seq::empty()
    } else {
        escape_byte(s[0]) + escape_bytes(s.drop_first())
    }
}

/// Escaping distributes over appending one byte at the end.
pub proof fn lemma_escape_bytes_push(s: Seq<u8>, b: u8)
    ensures
        escape_bytes(s.push(b)) == escape_bytes(s) + escape_byte(b),
    decreases s.len(),
{
    if s.len() == 0 {
        assert(s.push(b).drop_first() =~= Seq::<u8>::empty());
        assert(s.push(b)[0] == b);
        assert(escape_bytes(s.push(b)) == escape_byte(b) + escape_bytes(Seq::<u8>::empty()));
        assert(escape_byte(b) + Seq::<u8>::empty() =~= escape_byte(b));
        assert(escape_bytes(s) + escape_byte(b) =~= escape_byte(b));
    } else {
        assert(s.push(b).drop_first() =~= s.drop_first().push(b));
        lemma_escape_bytes_push(s.drop_first(), b);
        assert(escape_bytes(s.push(b)) =~= escape_bytes(s) + escape_byte(b));
    }
}

/// The lowercase hexadecimal digit of a nibble, as executable code.
pub fn hex_digit_of(n: u8) -> (r: u8)
    requires
        n < 16,
    ensures
        r == hex_digit(n),
{
    if n < 10 {
        48 + n
    } else {
        87 + n
    }
}

/// Escapes string content for embedding in a canonical JSON string.
pub fn escape_json(s: &[u8]) -> (r: Vec<u8>)
    ensures
        r@ == escape_bytes(s@),
{
    let mut out: Vec<u8> = Vec::new();
    let mut i: usize = 0;
    while i < s.len()
        invariant
            0 <= i <= s@.len(),
            out@ == escape_bytes(s@.take(i as int)),
        decreases s@.len() - i,
    {
        let b = s[i];
        proof {
            assert(s@.take(i + 1 as int) =~= s@.take(i as int).push(s@[i as int]));
            lemma_escape_bytes_push(s@.take(i as int), s@[i as int]);
        }
        if b == '"' as u8 {
            out.push('\\' as u8);
            out.push('"' as u8);
        } else if b == '\\' as u8 {
            out.push('\\' as u8);
            out.push('\\' as u8);
        } else if b < 32 {
            out.push('\\' as u8);
            out.push('u' as u8);
            out.push('0' as u8);
            out.push('0' as u8);
            out.push(hex_digit_of(b / 16));
            out.push(hex_digit_of(b % 16));
        } else {
            out.push(b);
        }
        proof {
            assert(out@ =~= escape_bytes(s@.take(i as int)) + escape_byte(b));
        }
        i += 1;
    }
    proof {
        assert(s@.take(s@.len() as int) =~= s@);
    }
    out
}

/// The canonical JSON bytes of `{"type":"success"}`.
pub open spec fn success_json() -> Seq<u8> {
    seq![
        '{' as u8, '"' as u8, 't' as u8, 'y' as u8, 'p' as u8, 'e' as u8, '"' as u8, ':' as u8,
        '"' as u8, 's' as u8, 'u' as u8, 'c' as u8, 'c' as u8, 'e' as u8, 's' as u8, 's' as u8,
        '"' as u8, '}' as u8,
    ]
}

/// The canonical JSON bytes that open `{"type":"error","message":"`.
pub open spec fn error_json_open() -> Seq<u8> {
    seq![
        '{' as u8, '"' as u8, 't' as u8, 'y' as u8, 'p' as u8, 'e' as u8, '"' as u8, ':' as u8,
        '"' as u8, 'e' as u8, 'r' as u8, 'r' as u8, 'o' as u8, 'r' as u8, '"' as u8, ',' as u8,
        '"' as u8, 'm' as u8, 'e' as u8, 's' as u8, 's' as u8, 'a' as u8, 'g' as u8, 'e' as u8,
        '"' as u8, ':' as u8, '"' as u8,
    ]
}

/// The canonical JSON bytes that close an error envelope: `"}`.
pub open spec fn error_json_close() -> Seq<u8> {
    seq!['"' as u8, '}' as u8]
}

/// The canonical JSON encoding of a start response.
pub open spec fn response_json(r: StartResponse) -> Seq<u8> {
    match r {
        StartResponse::Success => success_json(),
        StartResponse::Failure { message } => error_json_open() + escape_bytes(
            message@,
        ) + error_json_close(),
    }
}

/// Encodes a start response as canonical JSON bytes.
pub fn encode_response(r: &StartResponse) -> (out: Vec<u8>)
    ensures
        out@ == response_json(*r),
{
    match r {
        StartResponse::Success => {
            let mut out: Vec<u8> = Vec::new();
            out.push('{' as u8);
            out.push('"' as u8);
            out.push('t' as u8);
            out.push('y' as u8);
            out.push('p' as u8);
            out.push('e' as u8);
            out.push('"' as u8);
            out.push(':' as u8);
            out.push('"' as u8);
            out.push('s' as u8);
            out.push('u' as u8);
            out.push('c' as u8);
            out.push('c' as u8);
            out.push('e' as u8);
            out.push('s' as u8);
            out.push('s' as u8);
            out.push('"' as u8);
            out.push('}' as u8);
            proof {
                assert(out@ =~= success_json());
            }
            out
        },
        StartResponse::Failure { message } => {
            let mut out: Vec<u8> = Vec::new();
            out.push('{' as u8);
            out.push('"' as u8);
            out.push('t' as u8);
            out.push('y' as u8);
            out.push('p' as u8);
            out.push('e' as u8);
            out.push('"' as u8);
            out.push(':' as u8);
            out.push('"' as u8);
            out.push('e' as u8);
            out.push('r' as u8);
            out.push('r' as u8);
            out.push('o' as u8);
            out.push('r' as u8);
            out.push('"' as u8);
            out.push(',' as u8);
            out.push('"' as u8);
            out.push('m' as u8);
            out.push('e' as u8);
            out.push('s' as u8);
            out.push('s' as u8);
            out.push('a' as u8);
            out.push('g' as u8);
            out.push('e' as u8);
            out.push('"' as u8);
            out.push(':' as u8);
            out.push('"' as u8);
            proof {
                assert(out@ =~= error_json_open());
            }
            let escaped = escape_json(message.as_slice());
            let mut j: usize = 0;
            while j < escaped.len()
                invariant
                    0 <= j <= escaped@.len(),
                    out@ == error_json_open() + escaped@.take(j as int),
                decreases escaped@.len() - j,
            {
                out.push(escaped[j]);
                proof {
                    assert(escaped@.take(j + 1 as int) =~= escaped@.take(j as int).push(
                        escaped@[j as int],
                    ));
                    assert(out@ =~= error_json_open() + escaped@.take(j + 1 as int));
                }
                j += 1;
            }
            proof {
                assert(escaped@.take(escaped@.len() as int) =~= escaped@);
            }
            out.push('"' as u8);
            out.push('}' as u8);
            proof {
                assert(out@ =~= error_json_open() + escape_bytes(message@) + error_json_close());
            }
            out
        },
    }
}

/// Decides the start route's reply from the lifecycle client's reported
/// outcome: success becomes status 200 with the success envelope, and any
/// reported failure becomes status 500 with the cause in the error envelope.
pub fn start_response(outcome: Result<(), Vec<u8>>) -> (r: (u16, StartResponse))
    ensures
        r.0 == STATUS_OK <==> outcome is Ok,
        outcome is Ok ==> r.1 is Success,
        outcome matches Err(m) ==> (r.0 == STATUS_INTERNAL_ERROR && (r.1
            matches StartResponse::Failure { message } && message@ == m@)),
{
    match outcome {
        Ok(()) => (STATUS_OK, StartResponse::Success),
        Err(m) => (STATUS_INTERNAL_ERROR, StartResponse::Failure { message: m }),
    }
}

/// One byte is a lowercase hexadecimal digit.
pub open spec fn is_hex_lower(b: u8) -> bool {
    (48 <= b <= 57) || (97 <= b <= 102)
}

/// The nibble value of a lowercase hexadecimal digit.
pub open spec fn hex_val(b: u8) -> u8
    recommends
        is_hex_lower(b),
{
    if 48 <= b <= 57 {
        ((b - 48) as u8)
    } else {
        ((b - 87) as u8)
    }
}

/// Parses one JSON string body in canonical form, up to and including its
/// closing quote: exactly the escape images of [`escape_byte`] are accepted,
/// so a raw control byte or a stray escape is refused.  Returns the decoded
/// content and how many input bytes were consumed.
pub open spec fn spec_parse_body(s: Seq<u8>) -> Option<(Seq<u8>, int)>
    decreases s.len(),
{
    if s.len() == 0 {
        None
    } else if s[0] == '"' as u8 {
        Some((Seq::empty(), 1))
    } else if s[0] == '\\' as u8 {
        if s.len() >= 2 && s[1] == '"' as u8 {
            match spec_parse_body(s.skip(2)) {
                Some((c, n)) => Some((seq!['"' as u8] + c, n + 2)),
                None => None,
            }
        } else if s.len() >= 2 && s[1] == '\\' as u8 {
            match spec_parse_body(s.skip(2)) {
                Some((c, n)) => Some((seq!['\\' as u8] + c, n + 2)),
                None => None,
            }
        } else if s.len() >= 6 && s[1] == 'u' as u8 && s[2] == '0' as u8 && s[3] == '0' as u8
            && is_hex_lower(s[4]) && is_hex_lower(s[5]) && 16 * hex_val(s[4]) + hex_val(s[5])
            < 32 {
            match spec_parse_body(s.skip(6)) {
                Some((c, n)) => Some(
                    (seq![((16 * hex_val(s[4]) + hex_val(s[5])) as u8)] + c, n + 6),
                ),
                None => None,
            }
        } else {
            None
        }
    } else if s[0] >= 32 {
        match spec_parse_body(s.skip(1)) {
            Some((c, n)) => Some((seq![s[0]] + c, n + 1)),
            None => None,
        }
    } else {
        None
    }
}

/// Escaping distributes over splitting off the first byte.
pub proof fn lemma_escape_bytes_cons(b: u8, c: Seq<u8>)
    ensures
        escape_bytes(seq![b] + c) == escape_byte(b) + escape_bytes(c),
{
    assert((seq![b] + c)[0] == b);
    assert((seq![b] + c).drop_first() =~= c);
    assert(escape_bytes(seq![b] + c) == escape_byte(b) + escape_bytes(c));
}

/// The body parser accepts the escape image of any content, followed by a
/// closing quote, whatever comes after, and decodes it to that content.
pub proof fn lemma_parse_body_complete(c: Seq<u8>, rest: Seq<u8>)
    ensures
        spec_parse_body(escape_bytes(c) + seq!['"' as u8] + rest) == Some(
            (c, escape_bytes(c).len() + 1 as int),
        ),
    decreases c.len(),
{
    let s = escape_bytes(c) + seq!['"' as u8] + rest;
    if c.len() == 0 {
        assert(escape_bytes(c) =~= Seq::<u8>::empty());
        assert(s[0] == '"' as u8);
        assert(c =~= Seq::<u8>::empty());
    } else {
        let b = c[0];
        let tail = c.drop_first();
        let s2 = escape_bytes(tail) + seq!['"' as u8] + rest;
        lemma_parse_body_complete(tail, rest);
        assert(escape_bytes(c) == escape_byte(b) + escape_bytes(tail));
        assert(seq![b] + tail =~= c);
        if b == '"' as u8 {
            assert(s[0] == '\\' as u8 && s[1] == '"' as u8 && s.len() >= 2);
            assert(s.skip(2) =~= s2);
        } else if b == '\\' as u8 {
            assert(s[0] == '\\' as u8 && s[1] == '\\' as u8 && s.len() >= 2);
            assert(s.skip(2) =~= s2);
        } else if b < 32 {
            assert(s.len() >= 6);
            assert(s[0] == '\\' as u8 && s[1] == 'u' as u8 && s[2] == '0' as u8 && s[3]
                == '0' as u8);
            assert(s[4] == hex_digit(b / 16) && s[5] == hex_digit(b % 16));
            assert(is_hex_lower(s[4]) && hex_val(s[4]) == b / 16);
            assert(is_hex_lower(s[5]) && hex_val(s[5]) == b % 16);
            assert(16 * hex_val(s[4]) + hex_val(s[5]) == b);
            assert(s.skip(6) =~= s2);
        } else {
            assert(s[0] == b && !(b == '"' as u8) && !(b == '\\' as u8) && b >= 32);
            assert(s.skip(1) =~= s2);
        }
    }
}

/// Whatever the body parser accepts is exactly the escape image of what it
/// decoded, with the closing quote.
pub proof fn lemma_parse_body_sound(s: Seq<u8>)
    ensures
        spec_parse_body(s) matches Some((c, n)) ==> (1 <= n <= s.len() && s.take(n)
            == escape_bytes(c) + seq!['"' as u8]),
    decreases s.len(),
{
    if s.len() == 0 {
    } else if s[0] == '"' as u8 {
        assert(s.take(1) =~= seq!['"' as u8]);
        assert(escape_bytes(Seq::<u8>::empty()) + seq!['"' as u8] =~= seq!['"' as u8]);
    } else if s[0] == '\\' as u8 {
        if s.len() >= 2 && (s[1] == '"' as u8 || s[1] == '\\' as u8) {
            lemma_parse_body_sound(s.skip(2));
            match spec_parse_body(s.skip(2)) {
                Some((c2, n2)) => {
                    lemma_escape_bytes_cons(s[1], c2);
                    assert(escape_byte(s[1]) =~= seq!['\\' as u8, s[1]]);
                    assert(s.take(n2 + 2) =~= seq!['\\' as u8, s[1]] + s.skip(2).take(n2));
                    assert(s.take(n2 + 2) =~= escape_bytes(seq![s[1]] + c2) + seq!['"' as u8]);
                },
                None => {},
            }
        } else if s.len() >= 6 && s[1] == 'u' as u8 && s[2] == '0' as u8 && s[3] == '0' as u8
            && is_hex_lower(s[4]) && is_hex_lower(s[5]) && 16 * hex_val(s[4]) + hex_val(s[5])
            < 32 {
            lemma_parse_body_sound(s.skip(6));
            match spec_parse_body(s.skip(6)) {
                Some((c2, n2)) => {
                    let v = ((16 * hex_val(s[4]) + hex_val(s[5])) as u8);
                    lemma_escape_bytes_cons(v, c2);
                    assert(hex_val(s[4]) < 2);
                    assert(v / 16 == hex_val(s[4]) && v % 16 == hex_val(s[5]));
                    assert(hex_digit(v / 16) == s[4] && hex_digit(v % 16) == s[5]);
                    assert(escape_byte(v) =~= seq![
                        '\\' as u8, 'u' as u8, '0' as u8, '0' as u8, s[4], s[5],
                    ]);
                    assert(s.take(n2 + 6) =~= escape_byte(v) + s.skip(6).take(n2));
                    assert(s.take(n2 + 6) =~= escape_bytes(seq![v] + c2) + seq!['"' as u8]);
                },
                None => {},
            }
        }
    } else if s[0] >= 32 {
        lemma_parse_body_sound(s.skip(1));
        match spec_parse_body(s.skip(1)) {
            Some((c2, n2)) => {
                lemma_escape_bytes_cons(s[0], c2);
                assert(escape_byte(s[0]) =~= seq![s[0]]);
                assert(s.take(n2 + 1) =~= seq![s[0]] + s.skip(1).take(n2));
                assert(s.take(n2 + 1) =~= escape_bytes(seq![s[0]] + c2) + seq!['"' as u8]);
            },
            None => {},
        }
    }
}


/// The canonical bytes that open a start request: `{"core_type":"`.
pub open spec fn request_open() -> Seq<u8> {
    seq![
        '{' as u8, '"' as u8, 'c' as u8, 'o' as u8, 'r' as u8, 'e' as u8, '_' as u8, 't' as u8,
        'y' as u8, 'p' as u8, 'e' as u8, '"' as u8, ':' as u8, '"' as u8,
    ]
}

/// The canonical bytes between the two fields: `,"config_file":"`.
pub open spec fn request_mid() -> Seq<u8> {
    seq![
        ',' as u8, '"' as u8, 'c' as u8, 'o' as u8, 'n' as u8, 'f' as u8, 'i' as u8, 'g' as u8,
        '_' as u8, 'f' as u8, 'i' as u8, 'l' as u8, 'e' as u8, '"' as u8, ':' as u8, '"' as u8,
    ]
}

/// The canonical byte that closes a start request: `}`.
pub open spec fn request_close() -> Seq<u8> {
    seq!['}' as u8]
}

/// The canonical JSON encoding of a start request.
pub open spec fn request_json(core_type: Seq<u8>, config_file: Seq<u8>) -> Seq<u8> {
    request_open() + escape_bytes(core_type) + seq!['"' as u8] + request_mid() + escape_bytes(
        config_file,
    ) + seq!['"' as u8] + request_close()
}

/// Parses a whole start request in canonical form: the fixed framing in fixed
/// order, each field a canonical JSON string body, nothing before or after.
pub open spec fn spec_parse_request(s: Seq<u8>) -> Option<(Seq<u8>, Seq<u8>)> {
    if s.len() >= 14 && s.take(14) == request_open() {
        match spec_parse_body(s.skip(14)) {
            Some((ct, n)) => {
                let t = s.skip(14).skip(n);
                if t.len() >= 16 && t.take(16) == request_mid() {
                    match spec_parse_body(t.skip(16)) {
                        Some((cf, m)) => {
                            if t.skip(16).skip(m) == request_close() {
                                Some((ct, cf))
                            } else {
                                None
                            }
                        },
                        None => None,
                    }
                } else {
                    None
                }
            },
            None => None,
        }
    } else {
        None
    }
}

/// Whatever the request parser accepts is exactly the canonical encoding of
/// the two fields it decoded.
pub proof fn lemma_parse_request_sound(s: Seq<u8>)
    ensures
        spec_parse_request(s) matches Some((ct, cf)) ==> s == request_json(ct, cf),
{
    if s.len() >= 14 && s.take(14) == request_open() {
        lemma_parse_body_sound(s.skip(14));
        match spec_parse_body(s.skip(14)) {
            Some((ct, n)) => {
                let t = s.skip(14).skip(n);
                assert(t =~= s.skip(14 + n));
                if t.len() >= 16 && t.take(16) == request_mid() {
                    lemma_parse_body_sound(t.skip(16));
                    match spec_parse_body(t.skip(16)) {
                        Some((cf, m)) => {
                            if t.skip(16).skip(m) == request_close() {
                                assert(s.skip(14).take(n) == escape_bytes(ct) + seq!['"' as u8]);
                                assert(t.skip(16).take(m) == escape_bytes(cf) + seq!['"' as u8]);
                                assert(t.skip(16).skip(m) == request_close());
                                assert(s =~= s.take(14) + s.skip(14).take(n) + t.take(16) + t.skip(
                                    16,
                                ).take(m) + t.skip(16).skip(m));
                                assert(s =~= request_json(ct, cf));
                            }
                        },
                        None => {},
                    }
                }
            },
            None => {},
        }
    }
}

/// The request parser accepts the canonical encoding of any two fields and
/// decodes it to exactly those fields.
pub proof fn lemma_parse_request_complete(ct: Seq<u8>, cf: Seq<u8>)
    ensures
        spec_parse_request(request_json(ct, cf)) == Some((ct, cf)),
{
    let s = request_json(ct, cf);
    let rest1 = request_mid() + escape_bytes(cf) + seq!['"' as u8] + request_close();
    assert(s.take(14) =~= request_open());
    assert(s.skip(14) =~= escape_bytes(ct) + seq!['"' as u8] + rest1);
    lemma_parse_body_complete(ct, rest1);
    let n = escape_bytes(ct).len() + 1 as int;
    assert(spec_parse_body(s.skip(14)) == Some((ct, n)));
    let t = s.skip(14).skip(n);
    assert(t =~= rest1);
    assert(t.take(16) =~= request_mid());
    assert(t.skip(16) =~= escape_bytes(cf) + seq!['"' as u8] + request_close());
    lemma_parse_body_complete(cf, request_close());
    let m = escape_bytes(cf).len() + 1 as int;
    assert(spec_parse_body(t.skip(16)) == Some((cf, m)));
    assert(t.skip(16).skip(m) =~= request_close());
}

/// Builds the canonical request-open framing as bytes.
fn request_open_bytes() -> (r: Vec<u8>)
    ensures
        r@ == request_open(),
{
    let mut r: Vec<u8> = Vec::new();
    r.push('{' as u8);
    r.push('"' as u8);
    r.push('c' as u8);
    r.push('o' as u8);
    r.push('r' as u8);
    r.push('e' as u8);
    r.push('_' as u8);
    r.push('t' as u8);
    r.push('y' as u8);
    r.push('p' as u8);
    r.push('e' as u8);
    r.push('"' as u8);
    r.push(':' as u8);
    r.push('"' as u8);
    proof {
        assert(r@ =~= request_open());
    }
    r
}

/// Builds the canonical framing between the two fields as bytes.
fn request_mid_bytes() -> (r: Vec<u8>)
    ensures
        r@ == request_mid(),
{
    let mut r: Vec<u8> = Vec::new();
    r.push(',' as u8);
    r.push('"' as u8);
    r.push('c' as u8);
    r.push('o' as u8);
    r.push('n' as u8);
    r.push('f' as u8);
    r.push('i' as u8);
    r.push('g' as u8);
    r.push('_' as u8);
    r.push('f' as u8);
    r.push('i' as u8);
    r.push('l' as u8);
    r.push('e' as u8);
    r.push('"' as u8);
    r.push(':' as u8);
    r.push('"' as u8);
    proof {
        assert(r@ =~= request_mid());
    }
    r
}

/// Appends a byte string to the end of a buffer.
pub(crate) fn extend_from(out: &mut Vec<u8>, s: &[u8])
    ensures
        final(out)@ == old(out)@ + s@,
{
    let mut i: usize = 0;
    while i < s.len()
        invariant
            0 <= i <= s@.len(),
            out@ == old(out)@ + s@.take(i as int),
        decreases s@.len() - i,
    {
        out.push(s[i]);
        proof {
            assert(s@.take(i + 1 as int) =~= s@.take(i as int).push(s@[i as int]));
            assert(out@ =~= old(out)@ + s@.take(i + 1 as int));
        }
        i += 1;
    }
    proof {
        assert(s@.take(s@.len() as int) =~= s@);
    }
}

/// Encodes a start request as canonical JSON bytes, the form that
/// [`parse_start_request`] accepts.
pub fn encode_start_request(req: &StartRequest) -> (out: Vec<u8>)
    ensures
        out@ == request_json(req.core_type@, req.config_file@),
{
    let mut out = request_open_bytes();
    let escaped_ct = escape_json(req.core_type.as_slice());
    extend_from(&mut out, escaped_ct.as_slice());
    out.push('"' as u8);
    let mid = request_mid_bytes();
    extend_from(&mut out, mid.as_slice());
    let escaped_cf = escape_json(req.config_file.as_slice());
    extend_from(&mut out, escaped_cf.as_slice());
    out.push('"' as u8);
    out.push('}' as u8);
    proof {
        assert(out@ =~= request_json(req.core_type@, req.config_file@));
    }
    out
}

/// Checks that the bytes of `lit` stand in `s` at position `pos`.
fn match_at(s: &[u8], pos: usize, lit: &[u8]) -> (r: bool)
    requires
        pos <= s@.len(),
    ensures
        r <==> (pos + lit@.len() <= s@.len() && s@.subrange(
            pos as int,
            pos as int + lit@.len() as int,
        ) == lit@),
{
    let s_len = s.len();
    if s_len - pos < lit.len() {
        return false;
    }
    let mut j: usize = 0;
    while j < lit.len()
        invariant
            0 <= j <= lit@.len(),
            pos + lit@.len() <= s@.len(),
            s@.len() == s_len,
            forall|k: int| 0 <= k < j ==> s@[pos + k] == lit@[k],
        decreases lit@.len() - j,
    {
        if s[pos + j] != lit[j] {
            proof {
                assert(s@.subrange(pos as int, pos as int + lit@.len() as int)[j as int]
                    != lit@[j as int]);
            }
            return false;
        }
        j += 1;
    }
    proof {
        assert(s@.subrange(pos as int, pos as int + lit@.len() as int) =~= lit@);
    }
    true
}

/// The nibble value of a lowercase hexadecimal digit, as executable code.
fn nibble_val(b: u8) -> (r: Option<u8>)
    ensures
        (r is Some) <==> is_hex_lower(b),
        r matches Some(v) ==> (v == hex_val(b) && v < 16),
{
    if 48 <= b && b <= 57 {
        Some(b - 48)
    } else if 97 <= b && b <= 102 {
        Some(b - 87)
    } else {
        None
    }
}

/// Parses one canonical JSON string body starting at `i`, appending the
/// decoded content to `out`; returns the position just past the closing
/// quote.
fn parse_body_into(s: &[u8], i: usize, out: &mut Vec<u8>) -> (r: Option<usize>)
    requires
        i <= s@.len(),
    ensures
        (r is Some) <==> (spec_parse_body(s@.skip(i as int)) is Some),
        r matches Some(end) ==> (spec_parse_body(s@.skip(i as int)) matches Some((c, n)) && i + n
            == end && i < end <= s@.len() && final(out)@ == old(out)@ + c),
    decreases s@.len() - i,
{
    if i >= s.len() {
        return None;
    }
    let ghost su = s@.skip(i as int);
    proof {
        assert(su.len() == s@.len() - i);
        assert(su[0] == s@[i as int]);
    }
    let b = s[i];
    if b == '"' as u8 {
        proof {
            assert(spec_parse_body(su) == Some((Seq::<u8>::empty(), 1int)));
            assert(out@ =~= out@ + Seq::<u8>::empty());
        }
        return Some(i + 1);
    }
    if b == '\\' as u8 {
        if s.len() - i >= 2 && (s[i + 1] == '"' as u8 || s[i + 1] == '\\' as u8) {
            proof {
                assert(su[1] == s@[i + 1 as int]);
                assert(su.skip(2) =~= s@.skip(i + 2 as int));
            }
            out.push(s[i + 1]);
            let ghost mid = out@;
            match parse_body_into(s, i + 2, out) {
                Some(end) => {
                    proof {
                        match spec_parse_body(s@.skip(i + 2 as int)) {
                            Some((c2, n2)) => {
                                assert(out@ =~= mid + c2);
                                assert(out@ =~= old(out)@ + (seq![s@[i + 1 as int]] + c2));
                            },
                            None => {},
                        }
                    }
                    Some(end)
                },
                None => None,
            }
        } else if s.len() - i >= 6 && s[i + 1] == 'u' as u8 && s[i + 2] == '0' as u8 && s[i + 3]
            == '0' as u8 {
            proof {
                assert(su[1] == s@[i + 1 as int]);
                assert(su[2] == s@[i + 2 as int]);
                assert(su[3] == s@[i + 3 as int]);
                assert(su[4] == s@[i + 4 as int]);
                assert(su[5] == s@[i + 5 as int]);
            }
            let v1 = match nibble_val(s[i + 4]) {
                Some(v) => v,
                None => {
                    return None;
                },
            };
            let v2 = match nibble_val(s[i + 5]) {
                Some(v) => v,
                None => {
                    return None;
                },
            };
            let v = 16 * v1 + v2;
            if v >= 32 {
                return None;
            }
            proof {
                assert(su.skip(6) =~= s@.skip(i + 6 as int));
            }
            out.push(v);
            let ghost mid = out@;
            match parse_body_into(s, i + 6, out) {
                Some(end) => {
                    proof {
                        match spec_parse_body(s@.skip(i + 6 as int)) {
                            Some((c2, n2)) => {
                                assert(out@ =~= mid + c2);
                                assert(out@ =~= old(out)@ + (seq![v] + c2));
                            },
                            None => {},
                        }
                    }
                    Some(end)
                },
                None => None,
            }
        } else {
            proof {
                if su.len() >= 2 {
                    assert(su[1] == s@[i + 1 as int]);
                }
                if su.len() >= 6 {
                    assert(su[2] == s@[i + 2 as int]);
                    assert(su[3] == s@[i + 3 as int]);
                }
            }
            None
        }
    } else if b >= 32 {
        proof {
            assert(su.skip(1) =~= s@.skip(i + 1 as int));
        }
        out.push(b);
        let ghost mid = out@;
        match parse_body_into(s, i + 1, out) {
            Some(end) => {
                proof {
                    match spec_parse_body(s@.skip(i + 1 as int)) {
                        Some((c2, n2)) => {
                            assert(out@ =~= mid + c2);
                            assert(out@ =~= old(out)@ + (seq![s@[i as int]] + c2));
                        },
                        None => {},
                    }
                }
                Some(end)
            },
            None => None,
        }
    } else {
        None
    }
}

/// Parses the canonical encoding of a start request; refuses anything else.
fn parse_request_inner(s: &[u8]) -> (r: Option<StartRequest>)
    ensures
        r matches Some(req) ==> (spec_parse_request(s@) matches Some((ct, cf)) && req.core_type@
            == ct && req.config_file@ == cf),
        r is None ==> spec_parse_request(s@) is None,
{
    let open = request_open_bytes();
    if !match_at(s, 0, open.as_slice()) {
        proof {
            assert(s@.len() >= 14 ==> s@.subrange(0, 14) =~= s@.take(14));
        }
        return None;
    }
    proof {
        assert(s@.take(14) =~= s@.subrange(0, 14));
    }
    let mut ct: Vec<u8> = Vec::new();
    let end1 = match parse_body_into(s, 14, &mut ct) {
        Some(e) => e,
        None => {
            return None;
        },
    };
    let ghost n = end1 - 14;
    let ghost t = s@.skip(14).skip(n);
    proof {
        assert(t =~= s@.skip(end1 as int));
    }
    let mid = request_mid_bytes();
    if !match_at(s, end1, mid.as_slice()) {
        proof {
            if t.len() >= 16 {
                assert(t.take(16) =~= s@.subrange(end1 as int, end1 + 16 as int));
            }
        }
        return None;
    }
    proof {
        assert(t.take(16) =~= s@.subrange(end1 as int, end1 + 16 as int));
        assert(t.skip(16) =~= s@.skip(end1 + 16 as int));
    }
    let mut cf: Vec<u8> = Vec::new();
    let s_len = s.len();
    proof {
        assert(end1 + 16 <= s@.len() && s@.len() == s_len);
    }
    let end2 = match parse_body_into(s, end1 + 16, &mut cf) {
        Some(e) => e,
        None => {
            return None;
        },
    };
    let ghost m = end2 - (end1 + 16);
    proof {
        assert(t.skip(16).skip(m) =~= s@.skip(end2 as int));
        assert(request_close().len() == 1);
    }
    if s.len() - end2 != 1 {
        proof {
            assert(s@.skip(end2 as int).len() != 1);
        }
        return None;
    }
    if s[end2] != '}' as u8 {
        proof {
            assert(s@.skip(end2 as int)[0] == s@[end2 as int]);
            assert(s@.skip(end2 as int) != request_close());
        }
        return None;
    }
    proof {
        assert(s@.skip(end2 as int) =~= request_close());
    }
    Some(StartRequest { core_type: ct, config_file: cf })
}

/// Parses a start request from canonical JSON bytes.
///
/// Succeeds exactly on the canonical encoding of some pair of fields — the
/// bytes that [`encode_start_request`] produces — and then returns exactly
/// the fields that were encoded; every other byte string is refused.
pub fn parse_start_request(s: &[u8]) -> (r: Option<StartRequest>)
    ensures
        r matches Some(req) ==> s@ == request_json(req.core_type@, req.config_file@),
        r is None ==> (forall|ct: Seq<u8>, cf: Seq<u8>| s@ != request_json(ct, cf)),
{
    let r = parse_request_inner(s);
    proof {
        match r {
            Some(ref req) => {
                lemma_parse_request_sound(s@);
            },
            None => {
                assert forall|ct: Seq<u8>, cf: Seq<u8>| s@ != request_json(ct, cf) by {
                    if s@ == request_json(ct, cf) {
                        lemma_parse_request_complete(ct, cf);
                    }
                }
            },
        }
    }
    r
}

} // verus!
