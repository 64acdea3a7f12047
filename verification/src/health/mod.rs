//! Health checks of the services shown on the panel. The firmware makes the
//! HTTP requests; these modules say what to send and judge what came back.
pub mod graphviz;
pub mod ipinfo;
pub mod polaris;
pub mod railway;

use vstd::prelude::*;

verus! {

/// HTTP status of a successful answer.
pub const HTTP_OK: u16 = 200;

/// Seconds a health request may take before it is abandoned.
pub const REQUEST_TIMEOUT_SECS: u64 = 10;

/// A server's answer: its status and (the readable start of) its body.
#[derive(Debug, Clone)]
pub struct HttpResponse {
    pub status: u16,
    pub body: String,
}

/// Why a check had no answer to judge.
#[derive(Debug, Clone, Copy, PartialEq, Eq)]
pub enum CheckError {
    /// A setting the check needs is not configured.
    NotConfigured,
    /// The request failed, or its answer could not be read as text.
    Transport,
}

} // verus!
