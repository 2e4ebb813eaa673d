//! The codec of status links: failure text is compressed with Snappy and
//! written in the URL-safe Base64 alphabet without padding.
use vstd::prelude::*;
use vstd::string::StringSliceAdditionalSpecFns;
use vstd::utf8::{encode_utf8, encode_utf8_decode_utf8};

verus! {

/// The largest input, in bytes, that the codec promises to encode.
pub const MAX_TEXT_BYTES: usize = 1_000_000_000;

/// The raw Snappy compression of `b`.
pub uninterp spec fn snappy_compressed(b: Seq<u8>) -> Seq<u8>;

/// The URL-safe Base64 text of `b`, without padding.
pub uninterp spec fn base64_url(b: Seq<u8>) -> Seq<char>;

/// The URL-safe Base64 decoding of `s`, if `s` is Base64 text.
pub uninterp spec fn base64_url_decoded(s: Seq<char>) -> Option<Seq<u8>>;

/// The raw Snappy decompression of `b`, if `b` is Snappy data.
pub uninterp spec fn snappy_decompressed(b: Seq<u8>) -> Option<Seq<u8>>;

/// The standard Base64 decoding of `s` that skips whitespace, if `s` is one.
pub uninterp spec fn base64_mime_decoded(s: Seq<char>) -> Option<Seq<u8>>;

pub open spec fn is_url_safe_char(c: char) -> bool {
    ('A' <= c && c <= 'Z') || ('a' <= c && c <= 'z') || ('0' <= c && c <= '9') || c == '-'
        || c == '_'
}

/// The token that stands for the text `s` in a status link.
pub open spec fn status_token(s: Seq<char>) -> Seq<char> {
    base64_url(snappy_compressed(encode_utf8(s)))
}

/// Relies on `snap::Encoder::compress_vec`: it fails only on inputs longer
/// than `u32::MAX` bytes or whose bound `32 + n + n / 6` exceeds it, and its
/// output never exceeds that bound.
#[verifier::external_body]
fn snappy_compress(b: &[u8]) -> (r: Option<Vec<u8>>)
    ensures
        r matches Some(c) ==> c@ == snappy_compressed(b@) && b@.len() <= u32::MAX,
        r matches Some(c) ==> c@.len() <= 32 + b@.len() + b@.len() / 6,
        b@.len() <= MAX_TEXT_BYTES ==> r is Some,
{
    snap::Encoder::new().compress_vec(b).ok()
}

/// Relies on `snap::Decoder::decompress_vec`, which gives back what
/// `snap::Encoder` compressed.
#[verifier::external_body]
fn snappy_decompress(b: &[u8]) -> (r: Option<Vec<u8>>)
    ensures
        r is None <==> snappy_decompressed(b@) is None,
        r matches Some(d) ==> snappy_decompressed(b@) == Some(d@),
        r is None ==> forall|x: Seq<u8>| x.len() <= MAX_TEXT_BYTES ==> snappy_compressed(x) != b@,
        r matches Some(d) ==> forall|x: Seq<u8>| x.len() <= MAX_TEXT_BYTES && snappy_compressed(x) == b@ ==> d@ == x,
{
    snap::Decoder::new().decompress_vec(b).ok()
}

/// Relies on `base64::encode_config` with `URL_SAFE_NO_PAD`.
#[verifier::external_body]
fn base64_url_encode(b: &[u8]) -> (r: String)
    requires
        b@.len() <= usize::MAX / 2,
    ensures
        r@ == base64_url(b@),
{
    base64::encode_config(b, base64::URL_SAFE_NO_PAD)
}

/// Relies on `base64::decode_config` with `URL_SAFE_NO_PAD`: it decodes what
/// `encode_config` wrote, rejects any byte that is neither in the alphabet
/// nor `=`, and rejects inputs whose length in bytes is 1 more than a
/// multiple of 4.
#[verifier::external_body]
fn base64_url_decode(s: &str) -> (r: Option<Vec<u8>>)
    ensures
        r is None <==> base64_url_decoded(s@) is None,
        r matches Some(d) ==> base64_url_decoded(s@) == Some(d@),
        r is None ==> forall|x: Seq<u8>| base64_url(x) != s@,
        r matches Some(d) ==> forall|x: Seq<u8>| base64_url(x) == s@ ==> d@ == x,
        r is Some ==> encode_utf8(s@).len() % 4 != 1,
        (exists|i: int| 0 <= i < s@.len() && !is_url_safe_char(s@[i]) && s@[i] != '=') ==> r is None,
{
    base64::decode_config(s, base64::URL_SAFE_NO_PAD).ok()
}

/// Relies on `base64::decode_config` with `MIME`, which skips whitespace.
#[verifier::external_body]
fn base64_mime_decode(s: &str) -> (r: Option<Vec<u8>>)
    ensures
        match r {
            Some(d) => base64_mime_decoded(s@) == Some(d@),
            None => base64_mime_decoded(s@) is None,
        },
{
    base64::decode_config(s, base64::MIME).ok()
}

/// Relies on `String::from_utf8`, which succeeds exactly on valid UTF-8.
#[verifier::external_body]
fn utf8_string(b: Vec<u8>) -> (r: Option<String>)
    ensures
        r matches Some(t) ==> encode_utf8(t@) == b@,
        (exists|cs: Seq<char>| encode_utf8(cs) == b@) ==> r is Some,
{
    String::from_utf8(b).ok()
}

/// Why a status token could not be read.
#[derive(Clone, Copy, Debug, PartialEq, Eq, Structural)]
pub enum DecodeError {
    /// The token is not Base64 of Snappy-compressed data.
    InvalidEncoding,
    /// The decompressed bytes are not UTF-8.
    InvalidUtf8,
}

/// The status token of `s`; `None` only when `s` is too long to compress.
pub fn encode(s: &str) -> (r: Option<String>)
    ensures
        r matches Some(t) ==> t@ == status_token(s@),
        encode_utf8(s@).len() <= MAX_TEXT_BYTES ==> r is Some,
{
    let bytes = s.as_bytes();
    match snappy_compress(bytes) {
        Some(c) => {
            if c.len() > usize::MAX / 2 {
                return None;
            }
            Some(base64_url_encode(c.as_slice()))
        },
        None => None,
    }
}

/// The outcome of reading the status token `t`.
pub open spec fn decode_spec(t: Seq<char>) -> Result<Seq<char>, DecodeError> {
    match base64_url_decoded(t) {
        None => Err(DecodeError::InvalidEncoding),
        Some(c) => match snappy_decompressed(c) {
            None => Err(DecodeError::InvalidEncoding),
            Some(b) => if exists|cs: Seq<char>| encode_utf8(cs) == b {
                Ok(choose|cs: Seq<char>| encode_utf8(cs) == b)
            } else {
                Err(DecodeError::InvalidUtf8)
            },
        },
    }
}

/// The text that the status token `t` stands for. Every token that `encode`
/// gives decodes to the text it was made from.
pub fn decode(t: &str) -> (r: Result<String, DecodeError>)
    ensures
        match r {
            Ok(x) => decode_spec(t@) == Ok::<Seq<char>, DecodeError>(x@),
            Err(e) => decode_spec(t@) == Err::<Seq<char>, DecodeError>(e),
        },
        forall|s: Seq<char>|
            encode_utf8(s).len() <= MAX_TEXT_BYTES && #[trigger] status_token(s) == t@ ==> (r matches Ok(x)
                && x@ == s),
        (exists|i: int| 0 <= i < t@.len() && !is_url_safe_char(t@[i]) && t@[i] != '=') ==> r
            == Err::<String, DecodeError>(DecodeError::InvalidEncoding),
        encode_utf8(t@).len() % 4 == 1 ==> r == Err::<String, DecodeError>(DecodeError::InvalidEncoding),
{
    let compressed = match base64_url_decode(t) {
        Some(c) => c,
        None => {
            return Err(DecodeError::InvalidEncoding);
        },
    };
    let bytes = match snappy_decompress(compressed.as_slice()) {
        Some(b) => b,
        None => {
            return Err(DecodeError::InvalidEncoding);
        },
    };
    let ghost bv = bytes@;
    match utf8_string(bytes) {
        Some(x) => {
            proof {
                let cs = choose|cs: Seq<char>| encode_utf8(cs) == bv;
                encode_utf8_decode_utf8(cs);
                encode_utf8_decode_utf8(x@);
                assert forall|s: Seq<char>|
                    encode_utf8(s).len() <= MAX_TEXT_BYTES && #[trigger] status_token(s) == t@ implies x@
                    == s by {
                    encode_utf8_decode_utf8(s);
                    encode_utf8_decode_utf8(x@);
                }
            }
            Ok(x)
        },
        None => Err(DecodeError::InvalidUtf8),
    }
}

/// The bytes of a policy file's content as the provider sends it: standard
/// Base64 broken into lines.
pub fn decode_content(content: &str) -> (r: Option<Vec<u8>>)
    ensures
        match r {
            Some(d) => base64_mime_decoded(content@) == Some(d@),
            None => base64_mime_decoded(content@) is None,
        },
{
    base64_mime_decode(content)
}

} // verus!
