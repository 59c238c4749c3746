//! Fresh identifiers and the current time, for records.
use vstd::prelude::*;

verus! {

/// A version 4 UUID as `Uuid`'s `Display` writes it: 36 characters, lower
/// case hexadecimal digits in groups of 8, 4, 4, 4 and 12 joined by
/// hyphens, the version digit (the 15th character) being `4`.
pub open spec fn uuid_v4_text(s: Seq<char>) -> bool {
    &&& s.len() == 36
    &&& forall|i: int|
        0 <= i < 36 ==> if i == 8 || i == 13 || i == 18 || i == 23 {
            #[trigger] s[i] == '-'
        } else {
            ('0' <= s[i] <= '9') || ('a' <= s[i] <= 'f')
        }
    &&& s[14] == '4'
}

/// A fresh identifier: a random (version 4) UUID in its hyphenated form,
/// from `uuid::Uuid::new_v4`.  Which UUID it is is not stated; only its
/// form.
#[verifier::external_body]
pub(crate) fn new_op_id() -> (r: String)
    ensures
        uuid_v4_text(r@),
{
    uuid::Uuid::new_v4().to_string()
}

/// A UTC time in the form `DateTime::<Utc>::to_rfc3339` writes it: the
/// date and time (at least `YYYY-MM-DDTHH:MM:SS`) then the offset `+00:00`.
pub open spec fn utc_stamp(s: Seq<char>) -> bool {
    &&& s.len() >= 25
    &&& s.subrange(s.len() - 6, s.len() as int) == "+00:00"@
}

/// The current time in RFC 3339 form, from `chrono::Utc::now` and
/// `DateTime::to_rfc3339`.  Which time it is is not stated; only its form:
/// the date and time, then the zero offset written as `+00:00`.
#[verifier::external_body]
pub(crate) fn now_rfc3339() -> (r: String)
    ensures
        utc_stamp(r@),
{
    chrono::Utc::now().to_rfc3339()
}

} // verus!
