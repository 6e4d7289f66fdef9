//! Status codes of HTTP responses.

use vstd::prelude::*;

use crate::text::{decimal, law_decimal_round_trip, parsed_u64};

verus! {

/// A code of success.
pub open spec fn is_success(code: u16) -> bool {
    200 <= code <= 299
}

/// A code of an error, of the client or of the server.
pub open spec fn is_error(code: u16) -> bool {
    400 <= code <= 599
}

/// The status code of a response: a number of three digits.
#[derive(Debug, Clone, Copy, PartialEq, Eq)]
pub struct Status {
    code: u16,
}

impl Status {
    #[verifier::type_invariant]
    spec fn has_three_digits(self) -> bool {
        100 <= self.code <= 999
    }

    /// The number of the status.
    pub closed spec fn number(self) -> u16 {
        self.code
    }

    /// The status of a number; none where the number does not have three digits.
    pub fn new(code: u16) -> (status: Option<Status>)
        ensures
            match status {
                Some(s) => 100 <= code <= 999 && s.number() == code,
                None => !(100 <= code <= 999),
            },
    {
        if 100 <= code && code <= 999 {
            Some(Status { code })
        } else {
            None
        }
    }

    /// The number of the status.
    pub fn code(self) -> (code: u16)
        ensures
            code == self.number(),
            100 <= code <= 999,
    {
        proof {
            use_type_invariant(self);
        }
        self.code
    }

    /// Whether the request succeeded.
    pub fn is_success(self) -> (success: bool)
        ensures
            success == is_success(self.number()),
    {
        200 <= self.code && self.code <= 299
    }

    /// Whether the response is an error.
    pub fn is_error(self) -> (error: bool)
        ensures
            error == is_error(self.number()),
    {
        400 <= self.code && self.code <= 599
    }
}

/// The words that `reqwest::StatusCode` writes behind the number of a status.
pub uninterp spec fn status_reason(code: u16) -> Seq<char>;

/// A status as a message shows it: its number and the words for it.
pub open spec fn status_line(code: u16) -> Seq<char> {
    decimal(code as nat) + " "@ + status_reason(code)
}

/// The text of a `reqwest::StatusCode`, as its `Display` writes it: the number, a space and
/// the words for it.
#[verifier::external_body]
pub(crate) fn status_text(code: u16) -> (text: String)
    requires
        100 <= code <= 999,
    ensures
        text@ == decimal(code as nat) + " "@ + status_reason(code),
{
    reqwest::StatusCode::from_u16(code).unwrap().to_string()
}

/// The first digit of a status tells success, which is two, from an error, which is four or
/// five. The line of a status starts with its number.
pub proof fn law_first_digit_decides(code: u16)
    ensures
        is_success(code) <==> code / 100 == 2,
        is_error(code) <==> code / 100 == 4 || code / 100 == 5,
        status_line(code) == decimal(code as nat) + " "@ + status_reason(code),
        parsed_u64(decimal(code as nat)) == Some(code as u64),
{
    law_decimal_round_trip(code as u64);
}

} // verus!
