//! The UK railway journey recorder API check: its health endpoint must
//! answer `200 OK` with the body `{"status":"ok"}`.
use vstd::prelude::*;
use crate::health::{CheckError, HttpResponse, HTTP_OK};
use crate::text::str_equals;

verus! {

pub const HEALTH_URL: &'static str = "https://uk-railway-journey-recorder-api.shn.hk/api/health";

/// Value of the `accept` header sent with the request.
pub const ACCEPT: &'static str = "application/json";

/// Bytes of the answer that are read and judged.
pub const BODY_LIMIT: usize = 128;

/// The body of a healthy answer.
pub const HEALTHY_BODY: &'static str = r#"{"status":"ok"}"#;

/// Whether an answer passes: status `200` and exactly the healthy body.
pub open spec fn response_ok_spec(status: u16, body: Seq<char>) -> bool {
    status == HTTP_OK && body == HEALTHY_BODY@
}

/// The answer passes when its status is `200` and its body is exactly
/// `{"status":"ok"}`.
pub fn response_ok(status: u16, body: &str) -> (pass: bool)
    ensures
        pass == response_ok_spec(status, body@),
{
    status == HTTP_OK && str_equals(body, HEALTHY_BODY)
}

/// The check's verdict on what the request gave back. Any error fails it.
pub fn ok(outcome: Result<HttpResponse, CheckError>) -> (pass: bool)
    ensures
        pass == match outcome {
            Ok(response) => response_ok_spec(response.status, response.body@),
            Err(_) => false,
        },
{
    match outcome {
        Ok(response) => response_ok(response.status, response.body.as_str()),
        Err(_) => false,
    }
}

} // verus!
