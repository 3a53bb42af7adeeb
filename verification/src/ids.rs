//! Identifiers and instants read or made by outside crates: UUIDs and
//! RFC 3339 timestamps.
use vstd::prelude::*;

verus! {

/// A hexadecimal digit, in either case.
pub open spec fn hex_char(c: char) -> bool {
    ('0' <= c && c <= '9') || ('a' <= c && c <= 'f') || ('A' <= c && c <= 'F')
}

/// The hyphenated form: 32 hexadecimal digits in groups of 8, 4, 4, 4 and
/// 12, joined by hyphens.
pub open spec fn uuid_hyphenated(t: Seq<char>) -> bool {
    &&& t.len() == 36
    &&& forall|i: int|
        0 <= i < 36 ==> if i == 8 || i == 13 || i == 18 || i == 23 {
            #[trigger] t[i] == '-'
        } else {
            hex_char(t[i])
        }
}

/// `urn:uuid:`, letters in either case.
pub open spec fn urn_prefix(p: Seq<char>) -> bool {
    &&& p.len() == 9
    &&& (p[0] == 'u' || p[0] == 'U') && (p[1] == 'r' || p[1] == 'R') && (p[2] == 'n' || p[2] == 'N')
    &&& p[3] == ':'
    &&& (p[4] == 'u' || p[4] == 'U') && (p[5] == 'u' || p[5] == 'U') && (p[6] == 'i' || p[6] == 'I')
    &&& (p[7] == 'd' || p[7] == 'D')
    &&& p[8] == ':'
}

/// The texts `uuid::Uuid::parse_str` accepts: 32 hexadecimal digits; the
/// hyphenated form; the hyphenated form in braces; or `urn:uuid:` and the
/// hyphenated form.
pub open spec fn uuid_text_ok(t: Seq<char>) -> bool {
    ||| t.len() == 32 && forall|i: int| 0 <= i < 32 ==> hex_char(#[trigger] t[i])
    ||| uuid_hyphenated(t)
    ||| t.len() == 38 && t[0] == '{' && t[37] == '}' && uuid_hyphenated(t.subrange(1, 37))
    ||| t.len() == 45 && urn_prefix(t.subrange(0, 9)) && uuid_hyphenated(t.subrange(9, 45))
}

/// Whether `uuid::Uuid::parse_str` accepts the text: its parser takes a
/// 32-byte input as plain digits, a 36-byte one as hyphenated, a 38-byte
/// one in braces and a 45-byte one after a `urn:uuid:` prefix (compared
/// without case); any other byte than these is refused, so an accepted text
/// is ASCII and its characters are its bytes (see `uuid_text_ok`).
#[verifier::external_body]
pub(crate) fn uuid_parses(text: &str) -> (r: bool)
    ensures
        r == uuid_text_ok(text@),
{
    uuid::Uuid::parse_str(text).is_ok()
}

/// A fresh random version-4 UUID (`uuid::Uuid::new_v4().to_string()`):
/// `Display` writes the hyphenated form in lowercase; `new_v4` sets the
/// version digit to 4 and the variant bits to `10`, so the first digit of
/// the fourth group is 8, 9, a or b. The other digits are random and
/// unstated.
#[verifier::external_body]
pub(crate) fn new_uuid_text() -> (r: String)
    ensures
        uuid_hyphenated(r@),
        forall|i: int| 0 <= i < 36 ==> !('A' <= #[trigger] r@[i] && r@[i] <= 'F'),
        r@[14] == '4',
        r@[19] == '8' || r@[19] == '9' || r@[19] == 'a' || r@[19] == 'b',
{
    uuid::Uuid::new_v4().to_string()
}

/// The instant an RFC 3339 text denotes, as whole Unix seconds and the
/// nanosecond within that second, when `time` parses it.
pub uninterp spec fn rfc3339_instant(text: Seq<char>) -> Option<(int, int)>;

/// `time::OffsetDateTime::parse` with the RFC 3339 format, read as its Unix
/// timestamp and nanosecond. The crate's dates lie within the years -9999 to
/// 9999, so the timestamp's magnitude is below 2^40; the nanosecond is below
/// one billion. Which texts parse is left to the crate.
#[verifier::external_body]
pub(crate) fn parse_rfc3339(text: &str) -> (r: Option<(i64, u32)>)
    ensures
        match r {
            Some((s, n)) => rfc3339_instant(text@) == Some((s as int, n as int)) && -0x100_0000_0000
                < s < 0x100_0000_0000 && n < 1_000_000_000,
            None => rfc3339_instant(text@) is None,
        },
{
    match time::OffsetDateTime::parse(text, &time::format_description::well_known::Rfc3339) {
        Ok(t) => Some((t.unix_timestamp(), t.nanosecond())),
        Err(_) => None,
    }
}

} // verus!
