use esp32_lcd_test::health::graphviz::{self, Setting};
use esp32_lcd_test::health::{ipinfo, polaris, railway, CheckError, HttpResponse};

fn response(status: u16, body: &str) -> HttpResponse {
    HttpResponse { status, body: body.to_string() }
}

#[test]
fn ip_addresses_are_recognised() {
    assert!(ipinfo::is_ip_address("192.168.0.1"));
    assert!(ipinfo::is_ip_address("203.0.113.77"));
    assert!(ipinfo::is_ip_address("2001:db8::1"));
    assert!(ipinfo::is_ip_address("::1"));
    assert!(ipinfo::is_ip_address("FE80::ABCD"));
}

#[test]
fn non_addresses_are_rejected() {
    assert!(!ipinfo::is_ip_address(""));
    assert!(!ipinfo::is_ip_address("abc"));
    assert!(!ipinfo::is_ip_address("12345"));
    assert!(!ipinfo::is_ip_address("1.2.3.4x"));
    assert!(!ipinfo::is_ip_address(" 1.2.3.4"));
    assert!(!ipinfo::is_ip_address("<html>"));
}

#[test]
fn ipinfo_needs_a_leading_digit() {
    assert!(ipinfo::response_ok(200, "203.0.113.5\n"));
    assert!(ipinfo::response_ok(200, "12345"));
    assert!(ipinfo::response_ok(200, "2001:db8::1"));
    assert!(!ipinfo::response_ok(200, "::1"));
    assert!(!ipinfo::response_ok(200, "fe80::1"));
    assert!(!ipinfo::response_ok(200, " 203.0.113.5"));
    assert!(!ipinfo::response_ok(200, "\n203.0.113.5"));
    assert!(!ipinfo::response_ok(200, ""));
    assert!(!ipinfo::response_ok(500, "203.0.113.5\n"));
    assert!(!ipinfo::response_ok(200, "error: 1.2.3.4"));
}

#[test]
fn ipinfo_ok_fails_on_errors() {
    assert!(ipinfo::ok(Ok(response(200, "198.51.100.2\n"))));
    assert!(!ipinfo::ok(Ok(response(404, "198.51.100.2\n"))));
    assert!(!ipinfo::ok(Err(CheckError::Transport)));
}

#[test]
fn polaris_needs_200() {
    assert!(polaris::response_ok(200));
    assert!(!polaris::response_ok(301));
    assert!(!polaris::response_ok(503));
    assert!(polaris::ok(Ok(200)));
    assert!(!polaris::ok(Ok(500)));
    assert!(!polaris::ok(Err(CheckError::Transport)));
}

#[test]
fn extract_status_reads_the_first_status_value() {
    let body = r#"{"data":{"deployments":{"edges":[{"node":{"id":"abc","status":"SUCCESS"}}]}}}"#;
    assert_eq!(graphviz::extract_status(body), Some("SUCCESS"));
    assert_eq!(
        graphviz::extract_status(r#"{"status":"FAILED","x":{"status":"SUCCESS"}}"#),
        Some("FAILED")
    );
    assert_eq!(graphviz::extract_status(r#"{"status":""}"#), Some(""));
}

#[test]
fn extract_status_without_key_or_closing_quote() {
    assert_eq!(graphviz::extract_status(r#"{"data":null}"#), None);
    assert_eq!(graphviz::extract_status(r#"{"status": "SUCCESS"}"#), None);
    assert_eq!(graphviz::extract_status(r#"{"status":"SUCC"#), None);
    assert_eq!(graphviz::extract_status(""), None);
}

#[test]
fn extract_status_after_multibyte_text() {
    assert_eq!(graphviz::extract_status(r#"{"név":"é","status":"SLEEPING"}"#), Some("SLEEPING"));
}

#[test]
fn graphviz_accepts_success_and_sleeping() {
    let ok = |s: &str| format!(r#"{{"data":{{"deployments":{{"edges":[{{"node":{{"id":"1","status":"{s}"}}}}]}}}}}}"#);
    assert!(graphviz::response_ok(200, &ok("SUCCESS")));
    assert!(graphviz::response_ok(200, &ok("SLEEPING")));
    assert!(graphviz::response_ok(200, &format!("\n  {}  \n", ok("SUCCESS"))));
    assert!(!graphviz::response_ok(200, &ok("CRASHED")));
    assert!(!graphviz::response_ok(200, &ok("success")));
    assert!(!graphviz::response_ok(200, r#"{"errors":[]}"#));
    assert!(!graphviz::response_ok(401, &ok("SUCCESS")));
}

#[test]
fn graphviz_ok_fails_on_errors() {
    let body = r#"{"status":"SUCCESS"}"#;
    assert!(graphviz::ok(Ok(response(200, body))));
    assert!(!graphviz::ok(Ok(response(500, body))));
    assert!(!graphviz::ok(Err(CheckError::NotConfigured)));
    assert!(!graphviz::ok(Err(CheckError::Transport)));
}

#[test]
fn deployment_query_text() {
    let q = graphviz::deployment_query(Some("tok"), Some("p1"), Some("s2"), Some("e3")).unwrap();
    assert_eq!(q.authorization, "Bearer tok");
    let (project_id, service_id, environment_id) = ("p1", "s2", "e3");
    let expected = format!(
        r#"{{"query":"query($projectId: String!, $serviceId: String!, $environmentId: String!) {{ deployments(input: {{ projectId: $projectId, serviceId: $serviceId, environmentId: $environmentId }}, first: 1) {{ edges {{ node {{ id status }} }} }} }}","variables":{{"projectId":"{project_id}","serviceId":"{service_id}","environmentId":"{environment_id}"}}}}"#
    );
    assert_eq!(q.body, expected);
}

#[test]
fn deployment_query_reports_the_first_missing_setting() {
    let err = |t, p, s, e| graphviz::deployment_query(t, p, s, e).unwrap_err();
    assert_eq!(err(None, None, None, None), Setting::Token);
    assert_eq!(err(Some("t"), None, None, Some("e")), Setting::ProjectId);
    assert_eq!(err(Some("t"), Some("p"), None, None), Setting::ServiceId);
    assert_eq!(err(Some("t"), Some("p"), Some("s"), None), Setting::EnvironmentId);
}

#[test]
fn railway_needs_the_exact_healthy_body() {
    assert!(railway::response_ok(200, r#"{"status":"ok"}"#));
    assert!(!railway::response_ok(503, r#"{"status":"ok"}"#));
    assert!(!railway::response_ok(200, r#"{"status":"degraded"}"#));
    assert!(!railway::response_ok(200, ""));
    assert!(railway::ok(Ok(response(200, r#"{"status":"ok"}"#))));
    assert!(!railway::ok(Err(CheckError::Transport)));
}
