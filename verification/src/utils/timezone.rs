//! Timezone validation against the IANA database.

use std::str::FromStr;
use vstd::prelude::*;

verus! {

/// Whether the string names a timezone of the IANA database.  The full
/// list is external; `is_valid_timezone` is held to it.
pub uninterp spec fn recognized_timezone(s: Seq<char>) -> bool;

/// Relies on chrono_tz::Tz::from_str: parsing succeeds exactly for the
/// identifiers of the IANA timezone database, as a function of the string
/// alone.
#[verifier::external_body]
pub fn is_valid_timezone(tz: &str) -> (r: bool)
    ensures
        r == recognized_timezone(tz@),
{
    chrono_tz::Tz::from_str(tz).is_ok()
}

} // verus!
