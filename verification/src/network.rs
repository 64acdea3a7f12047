//! Wi-Fi and SNTP start-up decisions: which credentials are usable, how the
//! station authenticates, when to retry a connection and when to stop
//! waiting for the clock.
use vstd::prelude::*;
use crate::text::{trim, trim_spec};

verus! {

/// Longest SSID the ESP Wi-Fi driver takes, in bytes.
pub const SSID_MAX_BYTES: usize = 32;
/// Longest password the ESP Wi-Fi driver takes, in bytes.
pub const PASS_MAX_BYTES: usize = 64;

/// Connection attempts before giving up.
pub const CONNECT_ATTEMPTS: u32 = 3;
/// Wait after a failed connection attempt, in milliseconds.
pub const RETRY_DELAY_MS: u32 = 1500;

/// Clock-synchronization polls before carrying on without it.
pub const SNTP_POLLS: u32 = 20;
/// Wait between clock-synchronization polls, in milliseconds.
pub const SNTP_POLL_DELAY_MS: u32 = 500;

/// Why the configured credentials cannot be used.
#[derive(Debug, Clone, Copy, PartialEq, Eq)]
pub enum WifiConfigError {
    /// No SSID, or one made only of white space.
    SsidNotSet,
    /// The SSID is longer than 32 bytes.
    SsidTooLong,
    /// The password is longer than 64 bytes.
    PasswordTooLong,
}

/// How the station authenticates.
#[derive(Debug, Clone, Copy, PartialEq, Eq)]
pub enum AuthMethod {
    /// Open network: no password.
    Open,
    Wpa2Personal,
}

/// Credentials the Wi-Fi driver can take.
#[derive(Debug, Clone, Copy)]
pub struct WifiCredentials<'a> {
    pub ssid: &'a str,
    pub password: &'a str,
    pub auth_method: AuthMethod,
}

/// Length in bytes of the UTF-8 encoding of `s`.
pub open spec fn utf8_len(s: Seq<char>) -> int {
    vstd::utf8::encode_utf8(s).len() as int
}

/// The verdict on configured credentials, given the SSID without surrounding
/// white space and the password: `None` when usable, else the first problem.
pub open spec fn credentials_problem(ssid: Seq<char>, password: Seq<char>) -> Option<
    WifiConfigError,
> {
    if ssid.len() == 0 {
        Some(WifiConfigError::SsidNotSet)
    } else if utf8_len(ssid) > SSID_MAX_BYTES {
        Some(WifiConfigError::SsidTooLong)
    } else if utf8_len(password) > PASS_MAX_BYTES {
        Some(WifiConfigError::PasswordTooLong)
    } else {
        None
    }
}

/// The characters of an optional string, empty when absent.
pub open spec fn or_empty(s: Option<&str>) -> Seq<char> {
    match s {
        Some(t) => t@,
        None => Seq::<char>::empty(),
    }
}

/// Check the configured SSID and password. The SSID is taken without
/// surrounding white space; a missing value counts as empty. An empty
/// password means an open network, any other WPA2-Personal.
pub fn wifi_credentials<'a>(ssid: Option<&'a str>, password: Option<&'a str>) -> (creds: Result<
    WifiCredentials<'a>,
    WifiConfigError,
>)
    ensures
        match creds {
            Ok(c) => {
                &&& credentials_problem(trim_spec(or_empty(ssid)), or_empty(password)) is None
                &&& c.ssid@ == trim_spec(or_empty(ssid))
                &&& c.password@ == or_empty(password)
                &&& (c.auth_method is Open <==> c.password@.len() == 0)
            },
            Err(e) => credentials_problem(trim_spec(or_empty(ssid)), or_empty(password)) == Some(e),
        },
{
    let ssid = match ssid {
        Some(s) => trim(s),
        None => "",
    };
    let password = match password {
        Some(p) => p,
        None => "",
    };
    proof {
        reveal_strlit("");
        assert(trim_spec(Seq::<char>::empty()) =~= Seq::<char>::empty());
    }
    if ssid.is_empty() {
        return Err(WifiConfigError::SsidNotSet);
    }
    if ssid.as_bytes().len() > SSID_MAX_BYTES {
        return Err(WifiConfigError::SsidTooLong);
    }
    if password.as_bytes().len() > PASS_MAX_BYTES {
        return Err(WifiConfigError::PasswordTooLong);
    }
    let auth_method = if password.is_empty() {
        AuthMethod::Open
    } else {
        AuthMethod::Wpa2Personal
    };
    Ok(WifiCredentials { ssid, password, auth_method })
}

/// What to do after a connection attempt.
#[derive(Debug, Clone, Copy, PartialEq, Eq)]
pub enum ConnectAction {
    /// The station is up: report the connection.
    ReportConnected,
    /// Disconnect and wait `delay_ms`; then try again if `retry`, else give
    /// up with the last error.
    DisconnectAndWait { delay_ms: u32, retry: bool },
}


/// The action after attempt `attempt`: report a success; after a failure
/// disconnect and wait, and retry unless it was the last attempt.
pub open spec fn connect_action_spec(attempt: int, succeeded: bool) -> ConnectAction {
    if succeeded {
        ConnectAction::ReportConnected
    } else {
        ConnectAction::DisconnectAndWait {
            delay_ms: RETRY_DELAY_MS,
            retry: attempt < CONNECT_ATTEMPTS,
        }
    }
}

/// Attempts made from attempt number `attempt` on, when attempt `k`
/// succeeds exactly if `results[k - 1]`, and whether the last one
/// connected.
pub open spec fn connect_run(results: Seq<bool>, attempt: int) -> (int, bool)
    decreases CONNECT_ATTEMPTS - attempt,
{
    if attempt < 1 || attempt > CONNECT_ATTEMPTS {
        (0, false)
    } else {
        match connect_action_spec(attempt, results[attempt - 1]) {
            ConnectAction::ReportConnected => (1, true),
            ConnectAction::DisconnectAndWait { retry, .. } => if retry {
                let rest = connect_run(results, attempt + 1);
                (1 + rest.0, rest.1)
            } else {
                (1, false)
            },
        }
    }
}

proof fn lemma_connect_run(results: Seq<bool>, attempt: int)
    requires
        1 <= attempt <= CONNECT_ATTEMPTS,
        results.len() >= CONNECT_ATTEMPTS,
    ensures
        1 <= connect_run(results, attempt).0 <= CONNECT_ATTEMPTS - attempt + 1,
        connect_run(results, attempt).1 <==> exists|k: int|
            attempt - 1 <= k < CONNECT_ATTEMPTS && #[trigger] results[k],
        connect_run(results, attempt).1 ==> results[attempt - 1 + connect_run(results, attempt).0
            - 1],
    decreases CONNECT_ATTEMPTS - attempt,
{
    if !results[attempt - 1] && attempt < CONNECT_ATTEMPTS {
        lemma_connect_run(results, attempt + 1);
    }
}

/// Wi-Fi gets three tries: starting from the first attempt, the station
/// connects exactly when one of the first three attempts succeeds, stops at
/// that attempt, and never makes more than three.
pub proof fn law_connect_at_most_three(results: Seq<bool>)
    requires
        results.len() >= CONNECT_ATTEMPTS,
    ensures
        1 <= connect_run(results, 1).0 <= CONNECT_ATTEMPTS,
        connect_run(results, 1).1 <==> exists|k: int| 0 <= k < CONNECT_ATTEMPTS && #[trigger] results[k],
        connect_run(results, 1).1 ==> results[connect_run(results, 1).0 - 1],
{
    lemma_connect_run(results, 1);
}

/// After connection attempt number `attempt` (from 1) succeeded or failed:
/// a success is reported; a failure is followed by a disconnect and a wait,
/// then another attempt unless this was the last of the three.
pub fn after_connect_attempt(attempt: u32, succeeded: bool) -> (action: ConnectAction)
    requires
        1 <= attempt <= CONNECT_ATTEMPTS,
    ensures
        action == connect_action_spec(attempt as int, succeeded),
{
    if succeeded {
        ConnectAction::ReportConnected
    } else {
        ConnectAction::DisconnectAndWait {
            delay_ms: RETRY_DELAY_MS,
            retry: attempt < CONNECT_ATTEMPTS,
        }
    }
}

/// What to do after polling the clock synchronization.
#[derive(Debug, Clone, Copy, PartialEq, Eq)]
pub enum SntpAction {
    /// The clock is set.
    Synchronized,
    /// Wait `delay_ms`; then poll again if `poll_again`, else carry on
    /// without a synchronized clock.
    Wait { delay_ms: u32, poll_again: bool },
}


/// The action after poll `poll`: stop once synchronized; otherwise wait and
/// poll again unless it was the last poll.
pub open spec fn sntp_action_spec(poll: int, completed: bool) -> SntpAction {
    if completed {
        SntpAction::Synchronized
    } else {
        SntpAction::Wait { delay_ms: SNTP_POLL_DELAY_MS, poll_again: poll < SNTP_POLLS }
    }
}

/// Polls made from poll number `poll` on, when poll `k` finds the clock set
/// exactly if `done[k - 1]`, and whether the clock got set.
pub open spec fn sntp_run(done: Seq<bool>, poll: int) -> (int, bool)
    decreases SNTP_POLLS - poll,
{
    if poll < 1 || poll > SNTP_POLLS {
        (0, false)
    } else {
        match sntp_action_spec(poll, done[poll - 1]) {
            SntpAction::Synchronized => (1, true),
            SntpAction::Wait { poll_again, .. } => if poll_again {
                let rest = sntp_run(done, poll + 1);
                (1 + rest.0, rest.1)
            } else {
                (1, false)
            },
        }
    }
}

proof fn lemma_sntp_run(done: Seq<bool>, poll: int)
    requires
        1 <= poll <= SNTP_POLLS,
        done.len() >= SNTP_POLLS,
    ensures
        1 <= sntp_run(done, poll).0 <= SNTP_POLLS - poll + 1,
        sntp_run(done, poll).1 <==> exists|k: int| poll - 1 <= k < SNTP_POLLS && #[trigger] done[k],
    decreases SNTP_POLLS - poll,
{
    if !done[poll - 1] && poll < SNTP_POLLS {
        lemma_sntp_run(done, poll + 1);
    }
}

/// The clock gets twenty polls: starting from the first, it is reported
/// synchronized exactly when one of the first twenty polls finds it so, and
/// no more than twenty polls are made.
pub proof fn law_sntp_at_most_twenty(done: Seq<bool>)
    requires
        done.len() >= SNTP_POLLS,
    ensures
        1 <= sntp_run(done, 1).0 <= SNTP_POLLS,
        sntp_run(done, 1).1 <==> exists|k: int| 0 <= k < SNTP_POLLS && #[trigger] done[k],
{
    lemma_sntp_run(done, 1);
}

/// After poll number `poll` (from 1) found the clock synchronized or not:
/// stop when it is; otherwise wait half a second and poll again, up to
/// twenty polls.
pub fn after_sntp_poll(poll: u32, completed: bool) -> (action: SntpAction)
    requires
        1 <= poll <= SNTP_POLLS,
    ensures
        action == sntp_action_spec(poll as int, completed),
{
    if completed {
        SntpAction::Synchronized
    } else {
        SntpAction::Wait { delay_ms: SNTP_POLL_DELAY_MS, poll_again: poll < SNTP_POLLS }
    }
}

} // verus!
