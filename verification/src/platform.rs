//! The crate's trusted boundary: every call into an outside crate or into an
//! unspecified part of std goes through exactly one wrapper here. Each
//! wrapper's contract states only what the called crate's source or
//! documentation shows; deterministic results that are too large to state
//! are given names (`sha256_of`, `base64_of`, ...) that the rest of the
//! library reasons with.

use vstd::prelude::*;

use base64::Engine;
use sha2::Digest;

verus! {

/// The SHA-256 digest of a byte sequence, as the `sha2` crate computes it.
pub uninterp spec fn sha256_of(data: Seq<u8>) -> Seq<u8>;

/// The standard padded base64 encoding of a byte sequence, as the `base64`
/// crate computes it.
pub uninterp spec fn base64_of(data: Seq<u8>) -> Seq<char>;

/// What the `base64` crate's standard padded decoder makes of a text:
/// the decoded bytes, or nothing when the text is not valid base64.
pub uninterp spec fn base64_decoded(text: Seq<char>) -> Option<Seq<u8>>;

/// What `String::from_utf8` makes of a byte sequence: the decoded
/// characters, or nothing when the bytes are not valid UTF-8.
pub uninterp spec fn utf8_decoded(data: Seq<u8>) -> Option<Seq<char>>;

/// The character for one lowercase hexadecimal digit value.
pub open spec fn hex_digit(v: nat) -> char
    recommends
        v < 16,
{
    if v < 10 {
        ((v + 48) as u8) as char
    } else {
        ((v + 87) as u8) as char
    }
}

/// Lowercase hexadecimal rendering of a byte sequence, two digits per byte,
/// high nibble first.
pub open spec fn hex_of(data: Seq<u8>) -> Seq<char> {
    Seq::new(
        data.len() * 2,
        |i: int|
            if i % 2 == 0 {
                hex_digit((data[i / 2] >> 4u8) as nat)
            } else {
                hex_digit((data[i / 2] & 0x0fu8) as nat)
            },
    )
}

/// A lowercase hexadecimal digit character.
pub open spec fn is_hex_char(c: char) -> bool {
    ('0' <= c && c <= '9') || ('a' <= c && c <= 'f')
}

/// Every character of a hexadecimal rendering is a lowercase hex digit.
pub proof fn lemma_hex_of_chars(data: Seq<u8>)
    ensures
        forall|i: int| 0 <= i < hex_of(data).len() ==> is_hex_char(#[trigger] hex_of(data)[i]),
{
    assert forall|i: int| 0 <= i < hex_of(data).len() implies is_hex_char(
        #[trigger] hex_of(data)[i],
    ) by {
        let b = data[i / 2];
        assert(b >> 4u8 < 16 && b & 0x0fu8 < 16) by (bit_vector);
        let v: nat = if i % 2 == 0 {
            (b >> 4u8) as nat
        } else {
            (b & 0x0fu8) as nat
        };
        assert(hex_of(data)[i] == hex_digit(v));
        if v < 10 {
            assert(hex_digit(v) as int == v + 48);
        } else {
            assert(hex_digit(v) as int == v + 87);
        }
    }
}

/// Relies on `sha2::Sha256` via the `Digest` trait: a 32-byte digest that is
/// a function of the input bytes alone.
#[verifier::external_body]
pub(crate) fn sha256(data: &[u8]) -> (r: Vec<u8>)
    ensures
        r@ == sha256_of(data@),
        r@.len() == 32,
{
    let digest = sha2::Sha256::digest(data);
    digest.to_vec()
}

/// Relies on `base64::engine::general_purpose::STANDARD.encode`: four output
/// characters for every started group of three input bytes, and a result
/// that depends on the input alone.
#[verifier::external_body]
pub(crate) fn base64_encode(data: &[u8]) -> (r: String)
    ensures
        r@ == base64_of(data@),
        r@.len() == 4 * ((data@.len() + 2) / 3),
{
    base64::engine::general_purpose::STANDARD.encode(data)
}

/// Relies on `base64::engine::general_purpose::STANDARD.decode`: the decoded
/// bytes when the text is valid standard base64, an error otherwise.
#[verifier::external_body]
pub(crate) fn base64_decode(text: &str) -> (r: Option<Vec<u8>>)
    ensures
        match r {
            Some(v) => base64_decoded(text@) == Some(v@),
            None => base64_decoded(text@) is None,
        },
{
    base64::engine::general_purpose::STANDARD.decode(text.as_bytes()).ok()
}

/// Relies on `String::from_utf8`: the decoded string when the bytes are
/// valid UTF-8, an error otherwise.
#[verifier::external_body]
pub(crate) fn utf8_string(data: Vec<u8>) -> (r: Option<String>)
    ensures
        match r {
            Some(s) => utf8_decoded(data@) == Some(s@),
            None => utf8_decoded(data@) is None,
        },
{
    String::from_utf8(data).ok()
}

/// Relies on `String::push`: appends one character.
#[verifier::external_body]
pub(crate) fn push_char(s: &mut String, c: char)
    ensures
        final(s)@ == old(s)@.push(c),
{
    s.push(c);
}

/// Relies on `hex::encode`: two lowercase hexadecimal digits per input byte,
/// high nibble first.
#[verifier::external_body]
pub(crate) fn hex_encode(data: &[u8]) -> (r: String)
    ensures
        r@ == hex_of(data@),
{
    hex::encode(data)
}

/// Relies on `std::time::SystemTime::now`: milliseconds since the Unix
/// epoch. The clock decides the value, so nothing is promised of it.
#[verifier::external_body]
pub fn now_unix_ms() -> i64 {
    std::time::SystemTime::now()
        .duration_since(std::time::UNIX_EPOCH)
        .unwrap_or_default()
        .as_millis() as i64
}

/// The current time in epoch milliseconds, under the name the embedding
/// application reads its clock by.
pub fn now_ms() -> i64 {
    now_unix_ms()
}

/// Relies on `chrono::Utc::now`: the current time rendered as RFC 3339.
/// The clock decides the value, so nothing is promised of it.
#[verifier::external_body]
pub fn now_rfc3339() -> String {
    chrono::Utc::now().to_rfc3339()
}

/// Relies on `uuid::Uuid::new_v4` and its `Display` impl: a random
/// identifier in the 36-character hyphenated form.
#[verifier::external_body]
pub(crate) fn new_uuid() -> (r: String)
    ensures
        r@.len() == 36,
{
    uuid::Uuid::new_v4().to_string()
}

/// Relies on `mac_address::get_mac_address`: the primary interface's MAC
/// address rendered by its `Display` impl, when the host reports one.
#[verifier::external_body]
pub(crate) fn mac_address_string() -> Option<String> {
    match mac_address::get_mac_address() {
        Ok(Some(m)) => Some(m.to_string()),
        _ => None,
    }
}

/// Relies on `local_ip_address::local_ip`: the host's local IP address as
/// text, plus its octets when it is IPv4.
#[verifier::external_body]
pub(crate) fn local_ip_info() -> Option<(String, Option<[u8; 4]>)> {
    match local_ip_address::local_ip() {
        Ok(ip) => {
            let octets = match ip {
                core::net::IpAddr::V4(v4) => Some(v4.octets()),
                core::net::IpAddr::V6(_) => None,
            };
            Some((ip.to_string(), octets))
        },
        Err(_) => None,
    }
}

/// Relies on `hostname::get`: the host's name when it is valid Unicode.
#[verifier::external_body]
pub(crate) fn hostname_string() -> Option<String> {
    match hostname::get() {
        Ok(h) => h.into_string().ok(),
        Err(_) => None,
    }
}

} // verus!
