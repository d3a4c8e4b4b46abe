//! Points in time, as the engine writes and reads them.
use crate::text;
use crate::text::show_hex;
use vstd::prelude::*;

verus! {

/// The last second that a calendar date can be given for: the end of the year 262142.
pub const LAST_SECOND: i64 = 8_210_266_876_799;

/// The last second of the last year that is written with four digits, 9999.
pub const LAST_FOUR_DIGIT_SECOND: i64 = 253_402_300_799;

/// Pattern of an ISO 8601 time stamp, `YYYY-MM-DDTHH:MM:SSZ`.
pub const ISO_PATTERN: &'static str = "%Y-%m-%dT%H:%M:%SZ";

/// Pattern of a slug-safe time stamp, `YYYYMMDDTHHMM`.
pub const TAG_PATTERN: &'static str = "%Y%m%dT%H%M";

/// What `chrono` writes for the second `secs` after the start of 1970, in UTC, by `pattern`.
pub uninterp spec fn utc_text(secs: int, pattern: Seq<char>) -> Seq<char>;

/// The second after the start of 1970 that `chrono` reads in an RFC 3339 time stamp; none where
/// it reads no time stamp.
pub uninterp spec fn rfc3339_seconds(text: Seq<char>) -> Option<int>;

/// Whether `s` has the form `YYYY-MM-DDTHH:MM:SSZ`.
pub open spec fn has_iso_form(s: Seq<char>) -> bool {
    &&& s.len() == 20
    &&& s[4] == '-' && s[7] == '-' && s[10] == 'T'
    &&& s[13] == ':' && s[16] == ':' && s[19] == 'Z'
    &&& forall|i: int|
        0 <= i < 20 && i != 4 && i != 7 && i != 10 && i != 13 && i != 16 && i != 19 ==> text::is_digit(
            #[trigger] s[i],
        )
}

/// Whether `s` has the form `YYYYMMDDTHHMM`.
pub open spec fn has_tag_form(s: Seq<char>) -> bool {
    &&& s.len() == 13
    &&& s[8] == 'T'
    &&& forall|i: int| 0 <= i < 13 && i != 8 ==> text::is_digit(#[trigger] s[i])
}

/// The error of `chrono` on a text that is no time stamp.
#[verifier::external_type_specification]
#[verifier::external_body]
pub struct ExParseError(chrono::ParseError);

/// Reads the clock by `chrono::Utc::now`, in whole seconds. Every date that `chrono` can hold
/// lies in the stated range, and `Utc::now` panics on a machine whose clock stands before 1970.
#[verifier::external_body]
fn utc_seconds() -> (secs: i64)
    ensures
        0 <= secs <= LAST_SECOND,
{
    chrono::Utc::now().timestamp()
}

/// Writes a second by `DateTime::format`. The result is named. Up to the year 9999 the two
/// patterns give the two forms, and `DateTime::parse_from_rfc3339` reads an ISO time stamp back
/// as the second it was written for.
#[verifier::external_body]
fn format_utc(secs: i64, pattern: &str) -> (r: String)
    requires
        0 <= secs <= LAST_SECOND,
        pattern@ == ISO_PATTERN@ || pattern@ == TAG_PATTERN@,
    ensures
        r@ == utc_text(secs as int, pattern@),
        secs <= LAST_FOUR_DIGIT_SECOND && pattern@ == ISO_PATTERN@ ==> has_iso_form(r@)
            && rfc3339_seconds(r@) == Some(secs as int),
        secs <= LAST_FOUR_DIGIT_SECOND && pattern@ == TAG_PATTERN@ ==> has_tag_form(r@),
{
    chrono::DateTime::from_timestamp(secs, 0).unwrap().format(pattern).to_string()
}

/// Reads an RFC 3339 time stamp by `DateTime::parse_from_rfc3339`, as the second after the start
/// of 1970 that it names. Both outcomes are named.
#[verifier::external_body]
fn read_rfc3339(text: &str) -> (r: Result<i64, chrono::ParseError>)
    ensures
        r matches Ok(secs) ==> rfc3339_seconds(text@) == Some(secs as int),
        r is Err ==> rfc3339_seconds(text@) is None,
{
    Ok(chrono::DateTime::parse_from_rfc3339(text)?.timestamp())
}

/// The text of an ISO time stamp for the second `secs`.
pub open spec fn iso_text(secs: int) -> Seq<char> {
    utc_text(secs, ISO_PATTERN@)
}

/// The text of a slug-safe time stamp for the second `secs`.
pub open spec fn tag_text(secs: int) -> Seq<char> {
    utc_text(secs, TAG_PATTERN@)
}

/// The current UTC time in the form `YYYY-MM-DDTHH:MM:SSZ`.
pub fn now_iso() -> (r: String)
    ensures
        exists|secs: int|
            0 <= secs <= LAST_SECOND && r@ == #[trigger] iso_text(secs) && (secs
                <= LAST_FOUR_DIGIT_SECOND ==> has_iso_form(r@) && rfc3339_seconds(r@) == Some(
                secs,
            )),
{
    let secs: i64 = utc_seconds();
    let r = format_utc(secs, ISO_PATTERN);
    proof {
        assert(r@ == iso_text(secs as int));
    }
    r
}

/// The current UTC time in the form `YYYYMMDDTHHMM`.
pub fn short_ts() -> (r: String)
    ensures
        exists|secs: int|
            0 <= secs <= LAST_SECOND && r@ == #[trigger] tag_text(secs) && (secs
                <= LAST_FOUR_DIGIT_SECOND ==> has_tag_form(r@)),
{
    let secs: i64 = utc_seconds();
    let r = format_utc(secs, TAG_PATTERN);
    proof {
        assert(r@ == tag_text(secs as int));
    }
    r
}

/// Reads an ISO 8601 time stamp as the second after the start of 1970 that it names. A malformed
/// one counts as missing.
pub fn parse_iso(ts: &str) -> (r: Option<i64>)
    ensures
        match r {
            Some(secs) => rfc3339_seconds(ts@) == Some(secs as int),
            None => rfc3339_seconds(ts@) is None,
        },
{
    match read_rfc3339(ts) {
        Ok(secs) => Some(secs),
        Err(_) => None,
    }
}

/// The hexadecimal suffix that sets a branch name apart, for a count of nanoseconds: its low 64
/// bits.
pub open spec fn id_text(nanos: int) -> Seq<char> {
    text::numeral((nanos % 0x1_0000_0000_0000_0000) as nat, 16)
}

/// The suffix that sets a branch name apart, made of the nanoseconds since the start of 1970.
pub fn short_id(nanos: u128) -> (r: String)
    ensures
        r@ == id_text(nanos as int),
{
    show_hex((nanos % 0x1_0000_0000_0000_0000) as u64)
}

/// A moment, in every form in which the engine writes it down.
#[derive(Debug, PartialEq, Eq)]
pub struct Stamp {
    /// Whole seconds since the start of 1970.
    pub secs: u64,
    /// The moment as an ISO 8601 time stamp.
    pub iso: String,
    /// The moment as a slug-safe time stamp.
    pub tag: String,
    /// The suffix that sets a branch name apart.
    pub id: String,
}

impl Stamp {
    /// Whether the four forms belong to the second `secs` and to `nanos` nanoseconds.
    pub open spec fn marks(&self, secs: int, nanos: int) -> bool {
        &&& self.secs == secs
        &&& self.iso@ == iso_text(secs)
        &&& self.tag@ == tag_text(secs)
        &&& self.id@ == id_text(nanos)
    }

    /// Whether reading the ISO form back gives the second of the stamp.
    pub open spec fn reads_back(&self) -> bool {
        rfc3339_seconds(self.iso@) == Some(self.secs as int)
    }

    /// The stamp of a given moment.
    pub fn at(secs: i64, nanos: u128) -> (r: Stamp)
        requires
            0 <= secs <= LAST_SECOND,
        ensures
            r.marks(secs as int, nanos as int),
            secs <= LAST_FOUR_DIGIT_SECOND ==> r.reads_back() && has_iso_form(r.iso@)
                && has_tag_form(r.tag@),
    {
        Stamp {
            secs: secs as u64,
            iso: format_utc(secs, ISO_PATTERN),
            tag: format_utc(secs, TAG_PATTERN),
            id: short_id(nanos),
        }
    }

    /// The stamp of the current moment. `nanos` are the nanoseconds since the start of 1970.
    pub fn take(nanos: u128) -> (r: Stamp)
        ensures
            r.secs <= LAST_SECOND,
            r.marks(r.secs as int, nanos as int),
            r.secs <= LAST_FOUR_DIGIT_SECOND ==> r.reads_back() && has_iso_form(r.iso@)
                && has_tag_form(r.tag@),
    {
        let secs: i64 = utc_seconds();
        Stamp::at(secs, nanos)
    }
}

} // verus!
