//! The IP-info check: the service answers with the caller's address; a
//! healthy answer is `200 OK` whose text starts with a digit.
use vstd::prelude::*;
use crate::health::{CheckError, HttpResponse, HTTP_OK};

verus! {

pub const HEALTH_URL: &'static str = "https://ipinfo.shn.hk/";

/// Value of the `accept` header sent with the request.
pub const ACCEPT: &'static str = "text/plain";

/// Bytes of the answer that are read and judged.
pub const BODY_LIMIT: usize = 128;

/// A character that may appear in an IPv4 or IPv6 address: a hexadecimal
/// digit, `.` or `:`.
pub open spec fn is_address_char(c: char) -> bool {
    ||| ('0' <= c && c <= '9')
    ||| ('a' <= c && c <= 'f')
    ||| ('A' <= c && c <= 'F')
    ||| c == '.'
    ||| c == ':'
}

/// `s` looks like an IPv4 or IPv6 address: it is not empty, holds a `.` or a
/// `:`, and holds nothing but hexadecimal digits, `.` and `:`.
pub open spec fn looks_like_ip(s: Seq<char>) -> bool {
    &&& s.len() > 0
    &&& (s.contains('.') || s.contains(':'))
    &&& forall|i: int| 0 <= i < s.len() ==> is_address_char(#[trigger] s[i])
}

/// Lightweight check that `s` looks like an IPv4 or IPv6 address.
pub fn is_ip_address(s: &str) -> (looks: bool)
    ensures
        looks == looks_like_ip(s@),
{
    let n = s.unicode_len();
    if n == 0 {
        return false;
    }
    let mut has_separator = false;
    let mut i: usize = 0;
    while i < n
        invariant
            n == s@.len(),
            i <= n,
            forall|j: int| 0 <= j < i ==> is_address_char(#[trigger] s@[j]),
            has_separator == exists|j: int| 0 <= j < i && (s@[j] == '.' || s@[j] == ':'),
        decreases n - i,
    {
        let c = s.get_char(i);
        let allowed = ('0' <= c && c <= '9') || ('a' <= c && c <= 'f') || ('A' <= c && c <= 'F')
            || c == '.' || c == ':';
        if !allowed {
            return false;
        }
        if c == '.' || c == ':' {
            has_separator = true;
        }
        i += 1;
    }
    proof {
        if has_separator {
            let j = choose|j: int| 0 <= j < n && (s@[j] == '.' || s@[j] == ':');
            if s@[j] == '.' {
                assert(s@.contains('.'));
            } else {
                assert(s@.contains(':'));
            }
        }
    }
    has_separator
}

/// `s` starts with a decimal digit.
pub open spec fn starts_with_digit(s: Seq<char>) -> bool {
    s.len() > 0 && '0' <= s[0] && s[0] <= '9'
}

/// Whether an answer passes: status `200` and a body whose first character
/// is a decimal digit.
pub open spec fn response_ok_spec(status: u16, body: Seq<char>) -> bool {
    status == HTTP_OK && starts_with_digit(body)
}

/// An answer with status 200 passes exactly when its text starts with one of
/// the ten decimal digits `'0'` to `'9'` (code points 48 to 57), whatever
/// follows; an empty answer, an answer starting with anything else, and any
/// other status fail.
pub proof fn law_ipinfo_leading_digit(status: u16, body: Seq<char>, first: char, rest: Seq<char>)
    ensures
        ('0' <= first && first <= '9') ==> response_ok_spec(200, seq![first] + rest),
        response_ok_spec(200, seq![first] + rest) <==> (48 <= first as u32 && first as u32 <= 57),
        response_ok_spec(200, seq!['9'] + rest),
        response_ok_spec(200, seq!['0'] + rest),
        status != 200 ==> !response_ok_spec(status, body),
        !response_ok_spec(status, Seq::<char>::empty()),
{
    assert((seq![first] + rest)[0] == first);
    assert((seq!['9'] + rest)[0] == '9');
    assert((seq!['0'] + rest)[0] == '0');
}

/// The answer passes when its status is `200` and the first character of
/// its body is a digit.
pub fn response_ok(status: u16, body: &str) -> (pass: bool)
    ensures
        pass == response_ok_spec(status, body@),
{
    if status != HTTP_OK || body.is_empty() {
        return false;
    }
    let c = body.get_char(0);
    '0' <= c && c <= '9'
}

/// The check's verdict on what the request gave back. Any error fails it.
pub fn ok(outcome: Result<HttpResponse, CheckError>) -> (pass: bool)
    ensures
        pass == match outcome {
            Ok(response) => response_ok_spec(response.status, response.body@),
            Err(_) => false,
        },
{
    match outcome {
        Ok(response) => response_ok(response.status, response.body.as_str()),
        Err(_) => false,
    }
}

} // verus!
