use vstd::prelude::*;

use crate::span::Span;
use crate::text::{lower_of, parse_u32, push_char, trim_ws, u32_text};
use crate::times::{parse_dur, parse_text, DurError};

verus! {

/// The words that explain a refused duration.
pub open spec fn reason_text(e: DurError) -> Seq<char> {
    match e {
        DurError::ExpectingNumber => "Expecting a number"@,
        DurError::UnknownUnit => "Unknown unit"@,
        DurError::TooLarge => "Duration too large"@,
    }
}

impl DurError {
    /// The words that explain this refusal.
    pub fn reason(&self) -> (r: &'static str)
        ensures
            r@ == reason_text(*self),
    {
        match self {
            DurError::ExpectingNumber => "Expecting a number",
            DurError::UnknownUnit => "Unknown unit",
            DurError::TooLarge => "Duration too large",
        }
    }
}

/// The message for a refused argument: the value quoted, then why.
pub open spec fn refusal(val: Seq<char>, why: Seq<char>) -> Seq<char> {
    seq!['\''] + val + why
}

/// Accepts a process id: an unsigned decimal that fits in `u32`.
pub fn is_pid(val: String) -> (r: Result<(), String>)
    ensures
        r is Ok <==> u32_text(val@) is Some,
        r matches Err(m) ==> m@ == refusal(val@, "' is not a valid pid"@),
{
    match parse_u32(val.as_str()) {
        Some(_) => Ok(()),
        None => {
            let mut m = String::new();
            push_char(&mut m, '\'');
            m.append(val.as_str());
            m.append("' is not a valid pid");
            assert(m@ =~= refusal(val@, "' is not a valid pid"@));
            Err(m)
        },
    }
}

/// Accepts a duration text; `seconds` is its value as a plain number of
/// seconds, where it reads as one (see `parse_dur`).
pub fn is_dur(val: String, seconds: Option<Span>) -> (r: Result<(), String>)
    ensures
        r is Ok <==> parse_text(lower_of(trim_ws(val@)), seconds) is Ok,
        r matches Err(m) ==> parse_text(lower_of(trim_ws(val@)), seconds) matches Err(e)
            && m@ == refusal(
            val@,
            "' is not a valid duration ("@ + reason_text(e) + ")"@,
        ),
{
    match parse_dur(val.as_str(), seconds) {
        Ok(_) => Ok(()),
        Err(e) => {
            let mut m = String::new();
            push_char(&mut m, '\'');
            m.append(val.as_str());
            m.append("' is not a valid duration (");
            m.append(e.reason());
            m.append(")");
            assert(m@ =~= refusal(val@, "' is not a valid duration ("@ + reason_text(e) + ")"@));
            Err(m)
        },
    }
}

} // verus!
