//! The DNS record types the tool understands, and their textual spellings.

use vstd::prelude::*;
use crate::strutil::str_eq;

verus! {

/// The four record types a query may ask for.
#[derive(Clone, Copy, Debug, PartialEq, Eq, Structural)]
pub enum RecordType {
    A,
    CNAME,
    SOA,
    AAAA,
}

/// The record type named by a flag value: exactly one of the four
/// spellings `A`, `CNAME`, `SOA` and `AAAA`; anything else is rejected.
pub open spec fn spec_record_type(s: Seq<char>) -> Option<RecordType> {
    if s == "A"@ {
        Some(RecordType::A)
    } else if s == "CNAME"@ {
        Some(RecordType::CNAME)
    } else if s == "SOA"@ {
        Some(RecordType::SOA)
    } else if s == "AAAA"@ {
        Some(RecordType::AAAA)
    } else {
        None
    }
}

/// Parses a record-type name, as [`spec_record_type`] states.
pub fn parse_record_type(s: &str) -> (r: Option<RecordType>)
    ensures
        r == spec_record_type(s@),
{
    if str_eq(s, "A") {
        Some(RecordType::A)
    } else if str_eq(s, "CNAME") {
        Some(RecordType::CNAME)
    } else if str_eq(s, "SOA") {
        Some(RecordType::SOA)
    } else if str_eq(s, "AAAA") {
        Some(RecordType::AAAA)
    } else {
        None
    }
}

} // verus!
