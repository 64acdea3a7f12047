//! The Polaris site check: the page must answer `200 OK`.
use vstd::prelude::*;
use crate::health::{CheckError, HTTP_OK};

verus! {

pub const HEALTH_URL: &'static str = "https://syv.red/zh-TW";

/// Value of the `accept` header sent with the request.
pub const ACCEPT: &'static str = "text/html";

/// Whether an answer with this status passes the check.
pub open spec fn response_ok_spec(status: u16) -> bool {
    status == HTTP_OK
}

/// The page passes when it answers `200 OK`.
pub fn response_ok(status: u16) -> (pass: bool)
    ensures
        pass == response_ok_spec(status),
{
    status == HTTP_OK
}

/// The check's verdict on what the request gave back: the answer's status,
/// or the error that stopped it. Any error fails the check.
pub fn ok(outcome: Result<u16, CheckError>) -> (pass: bool)
    ensures
        pass == match outcome {
            Ok(status) => response_ok_spec(status),
            Err(_) => false,
        },
{
    match outcome {
        Ok(status) => response_ok(status),
        Err(_) => false,
    }
}

} // verus!
