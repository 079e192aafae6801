use crate::reply::{request_entity_to_large, Reply};
use crate::request::RequestInfo;
use vstd::prelude::*;

verus! {

/// Whether `s` is a non-empty run of ASCII digits.
pub open spec fn all_digits(s: Seq<char>) -> bool {
    s.len() > 0 && forall|i: int| 0 <= i < s.len() ==> '0' <= #[trigger] s[i] <= '9'
}

/// The value of a run of decimal digits.
pub open spec fn digits_value(s: Seq<char>) -> int
    decreases s.len(),
{
    if s.len() == 0 {
        0
    } else {
        digits_value(s.drop_last()) * 10 + (s.last() as int - '0' as int)
    }
}

/// The `i64` that a decimal string denotes: an optional sign, then at least
/// one digit, within the range of `i64`.
pub open spec fn decimal_i64(s: Seq<char>) -> Option<int> {
    if s.len() > 0 && s[0] == '-' && all_digits(s.drop_first()) {
        if -digits_value(s.drop_first()) >= i64::MIN {
            Some(-digits_value(s.drop_first()))
        } else {
            None
        }
    } else if s.len() > 0 && s[0] == '+' && all_digits(s.drop_first()) {
        if digits_value(s.drop_first()) <= i64::MAX {
            Some(digits_value(s.drop_first()))
        } else {
            None
        }
    } else if all_digits(s) && digits_value(s) <= i64::MAX {
        Some(digits_value(s))
    } else {
        None
    }
}

/// Relies on `str::parse::<i64>`: it accepts an optional `+` or `-` followed
/// by one or more ASCII digits whose value fits in `i64`, and nothing else.
#[verifier::external_body]
fn parse_i64(s: &str) -> (r: Option<i64>)
    ensures
        match r {
            Some(v) => decimal_i64(s@) == Some(v as int),
            None => decimal_i64(s@) is None,
        },
{
    s.parse::<i64>().ok()
}

/// Whether a request with this `Content-Length` header is over `limit`:
/// only a header that parses as a number larger than the limit is.
pub open spec fn over_limit(content_length: Option<String>, limit: i64) -> bool {
    match content_length {
        Some(s) => match decimal_i64(s@) {
            Some(v) => v > limit,
            None => false,
        },
        None => false,
    }
}

/// Rejects requests whose declared body is larger than a limit.
#[derive(Debug, Clone, Copy)]
pub struct MaxBodySize {
    pub limit: i64,
}

impl MaxBodySize {
    pub fn new(limit: i64) -> (r: MaxBodySize)
        ensures
            r.limit == limit,
    {
        MaxBodySize { limit }
    }

    /// Passes the request, or answers 413 when its `Content-Length` parses
    /// and exceeds the limit; an absent or unparsable header passes.
    pub fn modify_request(&self, request: &RequestInfo) -> (r: Result<(), Reply>)
        ensures
            over_limit(request.content_length, self.limit) <==> r is Err,
            r matches Err(reply) ==> reply.status == 413,
    {
        if let Some(length) = &request.content_length {
            if let Some(parsed_length) = parse_i64(length.as_str()) {
                if parsed_length > self.limit {
                    return Err(request_entity_to_large());
                }
            }
        }
        Ok(())
    }
}

} // verus!
