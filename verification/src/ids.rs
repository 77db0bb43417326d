//! Identifiers and timestamps: random v4 UUIDs (held as `u128`) and UTC instants.
use vstd::prelude::*;

verus! {

/// Whether a 128-bit value is a version-4, RFC 4122-variant UUID: the version
/// nibble holds 4 and the two variant bits hold `0b10`.
pub open spec fn is_v4_uuid(id: u128) -> bool {
    (id >> 76u128) & 0xFu128 == 4 && (id >> 62u128) & 0x3u128 == 2
}

/// `uuid::Uuid::new_v4`, as its 128-bit big-endian value: a random UUID whose
/// version is 4 and whose variant is RFC 4122, which the crate's source sets by
/// masking the random bits. Nothing else is known of the value.
#[verifier::external_body]
pub(crate) fn new_id() -> (id: u128)
    ensures
        is_v4_uuid(id),
{
    uuid::Uuid::new_v4().as_u128()
}

/// A lower-case hexadecimal digit.
pub open spec fn hex_digit(d: nat) -> char {
    if d < 10 {
        ((d + 48) as u32) as char
    } else {
        ((d + 87) as u32) as char
    }
}

/// The `width` lowest hexadecimal digits of `x`, most significant first.
pub open spec fn hex_of(x: nat, width: nat) -> Seq<char>
    decreases width,
{
    if width == 0 {
        Seq::empty()
    } else {
        hex_of(x / 16, (width - 1) as nat).push(hex_digit(x % 16))
    }
}

/// The hyphenated lower-case text of a UUID (`8-4-4-4-12` hexadecimal digits).
pub open spec fn uuid_text(id: u128) -> Seq<char> {
    let x = id as nat;
    hex_of(x / 0x1_0000_0000_0000_0000_0000_0000, 8) + seq!['-'] + hex_of(
        x / 0x1_0000_0000_0000_0000_0000,
        4,
    ) + seq!['-'] + hex_of(x / 0x1_0000_0000_0000_0000, 4) + seq!['-'] + hex_of(
        x / 0x1_0000_0000_0000,
        4,
    ) + seq!['-'] + hex_of(x, 12)
}

/// `Display` of `uuid::Uuid`: the crate formats a UUID as its hyphenated
/// lower-case hexadecimal text.
#[verifier::external_body]
pub(crate) fn id_text(id: u128) -> (r: String)
    ensures
        r@ == uuid_text(id),
{
    uuid::Uuid::from_u128(id).to_string()
}

/// What `uuid::Uuid::parse_str` accepts and yields: the UUID's value, or `None` for
/// text that the crate rejects.
pub uninterp spec fn uuid_parse(s: Seq<char>) -> Option<u128>;

/// `uuid::Uuid::parse_str`: the value of a UUID written in one of the crate's
/// text forms, or `None`.
#[verifier::external_body]
pub(crate) fn parse_id(s: &str) -> (r: Option<u128>)
    ensures
        r == uuid_parse(s@),
{
    uuid::Uuid::parse_str(s).ok().map(|u| u.as_u128())
}

/// An instant in UTC: whole seconds since the Unix epoch and the nanoseconds past them.
#[derive(Clone, Copy, Debug, PartialEq, Eq)]
pub struct Timestamp {
    pub secs: i64,
    pub nanos: u32,
}

/// `chrono::Utc::now`: the current time as the system clock gives it. Nothing is
/// known of the value.
#[verifier::external_body]
pub(crate) fn now() -> (t: Timestamp) {
    let n = chrono::Utc::now();
    Timestamp { secs: n.timestamp(), nanos: n.timestamp_subsec_nanos() }
}

} // verus!
