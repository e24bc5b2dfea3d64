//! The local time as text, for stamping new tasks.
use vstd::prelude::*;
use crate::text::is_digits;

verus! {

/// The pattern of a creation time: day-month-year hours:minutes.
pub open spec fn timestamp_pattern() -> Seq<char> {
    "%d-%m-%Y %H:%M"@
}

/// The shape of a creation time: two-digit day and month, a year of at
/// least four characters, then a space and two-digit hours and minutes.
pub open spec fn is_timestamp_shape(t: Seq<char>) -> bool {
    let n = t.len() as int;
    &&& n >= 16
    &&& is_digits(t.subrange(0, 2)) && t[2] == '-'
    &&& is_digits(t.subrange(3, 5)) && t[5] == '-'
    &&& t[n - 6] == ' ' && is_digits(t.subrange(n - 5, n - 3))
    &&& t[n - 3] == ':' && is_digits(t.subrange(n - 2, n))
}

/// Relies on `chrono::Local::now` and `DateTime::format`: the local time now,
/// written by the strftime pattern `pattern`, whose `%d`, `%m`, `%H` and `%M`
/// are zero-padded to two digits and whose `%Y` has at least four.
#[verifier::external_body]
pub(crate) fn local_time_text(pattern: &str) -> (r: String)
    requires
        pattern@ == timestamp_pattern(),
    ensures
        is_timestamp_shape(r@),
{
    chrono::Local::now().format(pattern).to_string()
}

/// The local time now, as a creation time.
pub fn timestamp_now() -> (r: String)
    ensures
        is_timestamp_shape(r@),
{
    proof {
        reveal_strlit("%d-%m-%Y %H:%M");
    }
    local_time_text("%d-%m-%Y %H:%M")
}

} // verus!
