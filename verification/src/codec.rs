//! Encodings handled by outside crates: Base64 (the `base64` crate's standard
//! engine), UUIDs (`uuid`) and URLs (`url`).
use vstd::prelude::*;

verus! {

// ---------------------------------------------------------------------------
// Base64
// ---------------------------------------------------------------------------

/// A six-bit value as a character of the standard Base64 alphabet.
pub open spec fn b64_char(v: nat) -> char {
    if v < 26 {
        (65 + v) as char
    } else if v < 52 {
        (97 + v - 26) as char
    } else if v < 62 {
        (48 + v - 52) as char
    } else if v == 62 {
        '+'
    } else {
        '/'
    }
}

/// Standard Base64 with `=` padding (RFC 4648, section 4): every three bytes
/// become four characters; a final one or two bytes become two or three
/// characters and padding.
pub open spec fn b64_encode(b: Seq<u8>) -> Seq<char>
    decreases b.len(),
{
    if b.len() == 0 {
        seq![]
    } else if b.len() == 1 {
        seq![b64_char(b[0] as nat / 4), b64_char((b[0] as nat % 4) * 16), '=', '=']
    } else if b.len() == 2 {
        seq![
            b64_char(b[0] as nat / 4),
            b64_char((b[0] as nat % 4) * 16 + b[1] as nat / 16),
            b64_char((b[1] as nat % 16) * 4),
            '=',
        ]
    } else {
        seq![
            b64_char(b[0] as nat / 4),
            b64_char((b[0] as nat % 4) * 16 + b[1] as nat / 16),
            b64_char((b[1] as nat % 16) * 4 + b[2] as nat / 64),
            b64_char(b[2] as nat % 64),
        ] + b64_encode(b.skip(3))
    }
}

proof fn lemma_b64_char(v: nat, w: nat)
    requires
        v < 64,
        w < 64,
    ensures
        b64_char(v) != '=',
        b64_char(v) == b64_char(w) ==> v == w,
{
    assert(b64_char(v) as u32 != 61);
    assert(b64_char(v) == b64_char(w) ==> b64_char(v) as u32 == b64_char(w) as u32);
}

proof fn lemma_digits(p: int, q: int, r: int, t: int, m: int)
    requires
        m > 0,
        0 <= q < m,
        0 <= t < m,
        p * m + q == r * m + t,
    ensures
        p == r,
        q == t,
{
    assert(p == r) by (nonlinear_arith)
        requires
            m > 0,
            0 <= q < m,
            0 <= t < m,
            p * m + q == r * m + t,
    ;
}

proof fn lemma_byte_split(x: u8, y: u8, d: int)
    requires
        d > 0,
        x as int / d == y as int / d,
        x as int % d == y as int % d,
    ensures
        x == y,
{
    vstd::arithmetic::div_mod::lemma_fundamental_div_mod(x as int, d);
    vstd::arithmetic::div_mod::lemma_fundamental_div_mod(y as int, d);
}

proof fn lemma_b64_shape(b: Seq<u8>)
    ensures
        b.len() == 0 <==> b64_encode(b).len() == 0,
        b.len() > 0 ==> b64_encode(b).len() >= 4,
        b.len() == 1 ==> b64_encode(b)[2] == '=' && b64_encode(b)[3] == '=',
        b.len() == 2 ==> b64_encode(b)[2] != '=' && b64_encode(b)[3] == '=',
        b.len() >= 3 ==> b64_encode(b)[2] != '=' && b64_encode(b)[3] != '=',
{
    if b.len() == 2 {
        lemma_b64_char((b[1] as nat % 16) * 4, 0);
    } else if b.len() >= 3 {
        lemma_b64_char((b[1] as nat % 16) * 4 + b[2] as nat / 64, 0);
        lemma_b64_char(b[2] as nat % 64, 0);
    }
}

proof fn lemma_b64_prefix(b: Seq<u8>)
    requires
        b.len() > 0,
    ensures
        b64_encode(b)[0] == b64_char(b[0] as nat / 4),
        b.len() == 1 ==> b64_encode(b)[1] == b64_char((b[0] as nat % 4) * 16),
        b.len() >= 2 ==> b64_encode(b)[1] == b64_char((b[0] as nat % 4) * 16 + b[1] as nat / 16),
        b.len() == 2 ==> b64_encode(b)[2] == b64_char((b[1] as nat % 16) * 4),
        b.len() >= 3 ==> b64_encode(b)[2] == b64_char((b[1] as nat % 16) * 4 + b[2] as nat / 64),
        b.len() >= 3 ==> b64_encode(b)[3] == b64_char(b[2] as nat % 64),
{
}

/// Standard Base64 encodes different bytes differently: the text gives the
/// bytes back.
pub proof fn lemma_b64_injective(a: Seq<u8>, b: Seq<u8>)
    requires
        b64_encode(a) == b64_encode(b),
    ensures
        a == b,
    decreases a.len(),
{
    lemma_b64_shape(a);
    lemma_b64_shape(b);
    let e = b64_encode(a);
    if a.len() > 0 {
        lemma_b64_prefix(a);
    }
    if b.len() > 0 {
        lemma_b64_prefix(b);
    }
    if a.len() == 0 {
        assert(b.len() == 0);
        assert(a =~= b);
        return;
    }
    // The two texts begin with the same four characters.
    let a0 = a[0] as nat;
    let b0 = b[0] as nat;
    lemma_b64_char(a0 / 4, b0 / 4);
    if a.len() == 1 {
        assert(b.len() == 1);
        lemma_b64_char((a0 % 4) * 16, (b0 % 4) * 16);
        lemma_byte_split(a[0], b[0], 4);
        assert(a =~= b);
    } else {
        assert(b.len() >= 2);
        let a1 = a[1] as nat;
        let b1 = b[1] as nat;
        lemma_b64_char((a0 % 4) * 16 + a1 / 16, (b0 % 4) * 16 + b1 / 16);
        lemma_digits((a0 % 4) as int, (a1 / 16) as int, (b0 % 4) as int, (b1 / 16) as int, 16);
        lemma_byte_split(a[0], b[0], 4);
        if a.len() == 2 {
            assert(b.len() == 2);
            lemma_b64_char((a1 % 16) * 4, (b1 % 16) * 4);
            lemma_byte_split(a[1], b[1], 16);
            assert(a =~= b);
        } else {
            assert(b.len() >= 3);
            let a2 = a[2] as nat;
            let b2 = b[2] as nat;
            lemma_b64_char((a1 % 16) * 4 + a2 / 64, (b1 % 16) * 4 + b2 / 64);
            lemma_digits((a1 % 16) as int, (a2 / 64) as int, (b1 % 16) as int, (b2 / 64) as int, 4);
            lemma_b64_char(a2 % 64, b2 % 64);
            lemma_byte_split(a[1], b[1], 16);
            lemma_byte_split(a[2], b[2], 64);
            let ra = b64_encode(a.skip(3));
            let rb = b64_encode(b.skip(3));
            assert(ra =~= e.skip(4));
            assert(rb =~= b64_encode(b).skip(4));
            lemma_b64_injective(a.skip(3), b.skip(3));
            assert(a =~= a.take(3) + a.skip(3));
            assert(b =~= b.take(3) + b.skip(3));
            assert(a.take(3) =~= b.take(3));
        }
    }
}

/// Decoding what was encoded gives the bytes back: a text that some bytes
/// encode to is accepted, and whatever the decoder returns for it are those
/// bytes.
pub proof fn lemma_base64_round_trip(original_bytes: Seq<u8>, decoded: Seq<u8>)
    requires
        b64_encode(decoded) == b64_encode(original_bytes),
    ensures
        decoded == original_bytes,
{
    lemma_b64_injective(decoded, original_bytes);
}

/// `base64::engine::general_purpose::STANDARD.encode`: the standard, padded
/// Base64 text of the bytes, as [`b64_encode`] states it.
#[verifier::external_body]
pub(crate) fn base64_encode(bytes: &Vec<u8>) -> (s: String)
    ensures
        s@ == b64_encode(bytes@),
{
    base64::Engine::encode(&base64::engine::general_purpose::STANDARD, bytes)
}

/// `base64::engine::general_purpose::STANDARD.decode`. The standard engine
/// requires canonical padding and no trailing bits, so it accepts exactly the
/// texts [`b64_encode`] produces and gives back the bytes they encode; the
/// crate's error is returned as its message, which is not stated.
#[verifier::external_body]
pub(crate) fn base64_decode(text: &str) -> (r: Result<Vec<u8>, String>)
    ensures
        match r {
            Ok(b) => b64_encode(b@) == text@,
            Err(_) => forall|b: Seq<u8>| b64_encode(b) != text@,
        },
{
    match base64::Engine::decode(&base64::engine::general_purpose::STANDARD, text.as_bytes()) {
        Ok(b) => Ok(b),
        Err(e) => Err(e.to_string()),
    }
}

/// A `data:` URL holding Base64 content of the given media type.
pub open spec fn data_url(mime: Seq<char>, b64: Seq<char>) -> Seq<char> {
    "data:"@ + mime + ";base64,"@ + b64
}

pub fn image_data_url(mime: &str, b64: &str) -> (r: String)
    ensures
        r@ == data_url(mime@, b64@),
{
    let mut out = crate::text::owned("data:");
    crate::text::push_str(&mut out, mime);
    crate::text::push_str(&mut out, ";base64,");
    crate::text::push_str(&mut out, b64);
    out
}

// ---------------------------------------------------------------------------
// UUIDs
// ---------------------------------------------------------------------------

/// The 128-bit value `uuid::Uuid::parse_str` reads from a text (simple,
/// hyphenated, braced or URN form), or none when it rejects the text.
pub uninterp spec fn uuid_value(s: Seq<char>) -> Option<u128>;

/// `uuid::Uuid::parse_str`, giving the UUID as its 128-bit value; the grammar
/// it accepts is the crate's and is named, not stated, here.
#[verifier::external_body]
pub(crate) fn parse_uuid(s: &str) -> (r: Option<u128>)
    ensures
        r == uuid_value(s@),
{
    match uuid::Uuid::parse_str(s) {
        Ok(u) => Some(u.as_u128()),
        Err(_) => None,
    }
}

// ---------------------------------------------------------------------------
// URLs
// ---------------------------------------------------------------------------

/// What the logic reads of a parsed URL: its host, its path segments (none for
/// a URL that cannot be a base), and its decoded query pairs.
pub struct UrlParts {
    pub host: Option<String>,
    pub segments: Option<Vec<String>>,
    pub query: Vec<(String, String)>,
}

pub open spec fn url_parts_view(p: UrlParts) -> (Option<Seq<char>>, Option<Seq<Seq<char>>>, Seq<(Seq<char>, Seq<char>)>) {
    (
        match p.host { Some(h) => Some(h@), None => None },
        match p.segments { Some(s) => Some(s@.map_values(|x: String| x@)), None => None },
        p.query@.map_values(|q: (String, String)| (q.0@, q.1@)),
    )
}

/// What `url::Url::parse` makes of a text, read through `host_str`,
/// `path_segments` and `query_pairs` (WHATWG URL parsing, named, not stated).
pub uninterp spec fn url_reading(s: Seq<char>) -> Option<(Option<Seq<char>>, Option<Seq<Seq<char>>>, Seq<(Seq<char>, Seq<char>)>)>;

/// `url::Url::parse` followed by `host_str`, `path_segments` and
/// `query_pairs`; a text the parser rejects gives none. `path_segments` splits
/// the path after its leading `/` at every `/`, so it always yields at least
/// one segment.
#[verifier::external_body]
pub(crate) fn parse_url(s: &str) -> (r: Option<UrlParts>)
    ensures
        match r {
            Some(p) => url_reading(s@) == Some(url_parts_view(p)) && (p.segments matches Some(v) ==> v.len() >= 1),
            None => url_reading(s@) is None,
        },
{
    match url::Url::parse(s) {
        Ok(u) => Some(UrlParts {
            host: u.host_str().map(|h| h.to_string()),
            segments: u.path_segments().map(|it| it.map(|x| x.to_string()).collect()),
            query: u.query_pairs().map(|(k, v)| (k.into_owned(), v.into_owned())).collect(),
        }),
        Err(_) => None,
    }
}

} // verus!
