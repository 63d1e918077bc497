//! ULIDs: 128-bit identifiers whose first 48 bits are a Unix time in
//! milliseconds, written as 26 characters of Crockford base 32. The `ulid`
//! crate makes, writes and reads them.
use vstd::prelude::*;

verus! {

/// Why a text is not a ULID: the variants of `ulid::DecodeError`.
#[derive(Clone, Copy, Debug, PartialEq, Eq, Structural)]
pub enum UlidDecodeError {
    /// The text is not 26 bytes long.
    InvalidLength,
    /// The text holds a character outside Crockford's base 32.
    InvalidChar,
}

/// The value of a byte in Crockford's base 32, as `ulid` reads it: the
/// digits, and the letters of either case but I, L, O and U.
pub open spec fn crockford_value(b: u8) -> Option<u128> {
    let upper: int = if 97 <= b && b <= 122 {
        b - 32
    } else {
        b as int
    };
    if 48 <= b && b <= 57 {
        Some((b - 48) as u128)
    } else if 65 <= upper && upper <= 72 {
        Some((upper - 55) as u128)
    } else if upper == 74 || upper == 75 {
        Some((upper - 56) as u128)
    } else if upper == 77 || upper == 78 {
        Some((upper - 57) as u128)
    } else if 80 <= upper && upper <= 84 {
        Some((upper - 58) as u128)
    } else if 86 <= upper && upper <= 90 {
        Some((upper - 59) as u128)
    } else {
        None
    }
}

/// The value of a string of base-32 bytes, most significant first, each
/// byte shifting in five bits (bits shifted past 128 are lost).
pub open spec fn crockford_decode(bytes: Seq<u8>) -> Result<u128, UlidDecodeError>
    decreases bytes.len(),
{
    if bytes.len() == 0 {
        Ok(0u128)
    } else {
        match crockford_decode(bytes.drop_last()) {
            Err(e) => Err(e),
            Ok(high) => match crockford_value(bytes.last()) {
                Some(digit) => Ok((high << 5u128) | digit),
                None => Err(UlidDecodeError::InvalidChar),
            },
        }
    }
}

/// What `ulid::Ulid::from_string` makes of a text: its UTF-8 bytes must
/// number 26, each a base-32 digit.
pub open spec fn ulid_decode(text: Seq<char>) -> Result<u128, UlidDecodeError> {
    let bytes = vstd::utf8::encode_utf8(text);
    if bytes.len() != 26 {
        Err(UlidDecodeError::InvalidLength)
    } else {
        crockford_decode(bytes)
    }
}

/// The base-32 digit for the value `d` (below 32).
pub open spec fn crockford_char(d: u128) -> char {
    seq![
        '0', '1', '2', '3', '4', '5', '6', '7', '8', '9', 'A', 'B', 'C', 'D', 'E', 'F', 'G',
        'H', 'J', 'K', 'M', 'N', 'P', 'Q', 'R', 'S', 'T', 'V', 'W', 'X', 'Y', 'Z',
    ][d as int]
}

/// The text that `ulid::Ulid::to_string` writes for a ULID: 26 base-32
/// digits, five bits each, most significant first.
pub open spec fn ulid_encode(value: u128) -> Seq<char> {
    Seq::new(26, |i: int| crockford_char((value >> ((5 * (25 - i)) as u128)) & 31u128))
}

/// Calls `ulid::Ulid::from_string`, which reads a ULID from its base-32
/// text, as `ulid_decode` states.
#[verifier::external_body]
pub(crate) fn decode_ulid(text: &str) -> (r: Result<u128, UlidDecodeError>)
    ensures
        r == ulid_decode(text@),
{
    match ulid::Ulid::from_string(text) {
        Ok(u) => Ok(u.0),
        Err(ulid::DecodeError::InvalidLength) => Err(UlidDecodeError::InvalidLength),
        Err(ulid::DecodeError::InvalidChar) => Err(UlidDecodeError::InvalidChar),
    }
}

/// Calls `ulid::Ulid::to_string`, which writes a ULID as 26 base-32
/// characters, as `ulid_encode` states.
#[verifier::external_body]
pub(crate) fn encode_ulid(value: u128) -> (r: String)
    ensures
        r@ == ulid_encode(value),
{
    ulid::Ulid(value).to_string()
}

/// Calls `ulid::Ulid::generate`, which makes a ULID from the current time
/// and random bits; nothing is promised of the value.
#[verifier::external_body]
pub(crate) fn generate_ulid() -> (r: u128) {
    ulid::Ulid::generate().0
}

/// The time a ULID records: its first 48 bits, in milliseconds since the
/// Unix epoch.
pub open spec fn ulid_millis(ulid: u128) -> u128 {
    ulid >> 80u128
}

/// The 48 bits of a time in milliseconds since the Unix epoch that a ULID
/// can hold.
pub open spec fn millis_bits(unix_ms: u64) -> u128 {
    (unix_ms as u128) % 0x1_0000_0000_0000u128
}

/// Calls `ulid::Ulid::from_datetime` on the instant `unix_ms` milliseconds
/// after the Unix epoch. It keeps the low 48 bits of the instant's
/// milliseconds since the epoch as the ULID's first 48 bits and draws the
/// other 80 bits at random, so only the time is promised. (`SystemTime`
/// holds every `u64` count of milliseconds on the Unix targets this crate
/// builds for.)
#[verifier::external_body]
pub(crate) fn ulid_at(unix_ms: u64) -> (r: u128)
    ensures
        ulid_millis(r) == millis_bits(unix_ms),
{
    ulid::Ulid::from_datetime(std::time::UNIX_EPOCH + std::time::Duration::from_millis(unix_ms)).0
}

} // verus!
