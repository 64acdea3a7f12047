//! The Railway deployment check for the Graphviz service: a GraphQL query
//! for the latest deployment, which must be `SUCCESS` or `SLEEPING`.
use vstd::prelude::*;
use crate::health::{CheckError, HttpResponse, HTTP_OK};
use crate::text::{
    find_char, find_char_from, find_from, find_str, law_find, law_find_char, occurs_at,
    str_equals, trim, trim_spec,
};

verus! {

pub const HEALTH_URL: &'static str = "https://backboard.railway.com/graphql/v2";

/// Value of the `content-type` header sent with the query.
pub const CONTENT_TYPE: &'static str = "application/json";

/// Bytes of the answer that are read and judged.
pub const BODY_LIMIT: usize = 512;

/// Prefix of the `authorization` header value.
pub const BEARER: &'static str = "Bearer ";

/// The query text up to the project id.
pub const QUERY_HEAD: &'static str = r#"{"query":"query($projectId: String!, $serviceId: String!, $environmentId: String!) { deployments(input: { projectId: $projectId, serviceId: $serviceId, environmentId: $environmentId }, first: 1) { edges { node { id status } } } }","variables":{"projectId":""#;

/// The query text between the project id and the service id.
pub const QUERY_SERVICE: &'static str = r#"","serviceId":""#;

/// The query text between the service id and the environment id.
pub const QUERY_ENVIRONMENT: &'static str = r#"","environmentId":""#;

/// The query text after the environment id.
pub const QUERY_TAIL: &'static str = r#""}}"#;

/// The key whose string value is the deployment status.
pub const STATUS_KEY: &'static str = r#""status":""#;

/// Deployment statuses that count as healthy.
pub const STATUS_SUCCESS: &'static str = "SUCCESS";
pub const STATUS_SLEEPING: &'static str = "SLEEPING";

/// A setting the check needs, read from the build environment.
#[derive(Debug, Clone, Copy, PartialEq, Eq)]
pub enum Setting {
    Token,
    ProjectId,
    ServiceId,
    EnvironmentId,
}

/// What to post: the `authorization` header value and the JSON body.
#[derive(Debug, Clone)]
pub struct DeploymentQuery {
    pub authorization: String,
    pub body: String,
}

/// The first setting, in the order token, project, service, environment,
/// that is missing.
pub open spec fn first_missing(
    token: bool,
    project_id: bool,
    service_id: bool,
    environment_id: bool,
) -> Option<Setting> {
    if !token {
        Some(Setting::Token)
    } else if !project_id {
        Some(Setting::ProjectId)
    } else if !service_id {
        Some(Setting::ServiceId)
    } else if !environment_id {
        Some(Setting::EnvironmentId)
    } else {
        None
    }
}

/// The JSON body of the latest-deployment query for these ids.
pub open spec fn query_body_spec(
    project_id: Seq<char>,
    service_id: Seq<char>,
    environment_id: Seq<char>,
) -> Seq<char> {
    QUERY_HEAD@ + project_id + QUERY_SERVICE@ + service_id + QUERY_ENVIRONMENT@ + environment_id
        + QUERY_TAIL@
}

/// The latest-deployment query: fails on the first missing setting (token,
/// project, service, environment), else carries `Bearer <token>` and the
/// JSON body naming the three ids.
pub fn deployment_query(
    token: Option<&str>,
    project_id: Option<&str>,
    service_id: Option<&str>,
    environment_id: Option<&str>,
) -> (query: Result<DeploymentQuery, Setting>)
    ensures
        match query {
            Ok(q) => {
                &&& first_missing(
                    token is Some,
                    project_id is Some,
                    service_id is Some,
                    environment_id is Some,
                ) is None
                &&& q.authorization@ == BEARER@ + token.unwrap()@
                &&& q.body@ == query_body_spec(
                    project_id.unwrap()@,
                    service_id.unwrap()@,
                    environment_id.unwrap()@,
                )
            },
            Err(missing) => first_missing(
                token is Some,
                project_id is Some,
                service_id is Some,
                environment_id is Some,
            ) == Some(missing),
        },
{
    let token = match token {
        Some(t) => t,
        None => return Err(Setting::Token),
    };
    let project_id = match project_id {
        Some(p) => p,
        None => return Err(Setting::ProjectId),
    };
    let service_id = match service_id {
        Some(s) => s,
        None => return Err(Setting::ServiceId),
    };
    let environment_id = match environment_id {
        Some(e) => e,
        None => return Err(Setting::EnvironmentId),
    };

    let mut body = String::new();
    body.append(QUERY_HEAD);
    body.append(project_id);
    body.append(QUERY_SERVICE);
    body.append(service_id);
    body.append(QUERY_ENVIRONMENT);
    body.append(environment_id);
    body.append(QUERY_TAIL);

    let mut authorization = String::new();
    authorization.append(BEARER);
    authorization.append(token);
    assert(authorization@ =~= BEARER@ + token@);
    assert(body@ =~= query_body_spec(project_id@, service_id@, environment_id@));
    Ok(DeploymentQuery { authorization, body })
}

/// The string value of the first `"status":"` key in `body`, up to the next
/// `"`; `None` when there is no such key or the value is not closed.
pub open spec fn extract_status_spec(body: Seq<char>) -> Option<Seq<char>> {
    match find_from(body, STATUS_KEY@, 0) {
        None => None,
        Some(p) => match find_char_from(body, '"', p + STATUS_KEY@.len()) {
            None => None,
            Some(e) => Some(body.subrange(p + STATUS_KEY@.len(), e)),
        },
    }
}


/// The status found is the text that follows the first `"status":"` key up
/// to the next `"`: it holds no `"`, and a `"` closes it. No status is found
/// exactly when the key is absent or nothing closes the value after it.
pub proof fn law_extract_status(body: Seq<char>)
    ensures
        match extract_status_spec(body) {
            Some(v) => exists|p: int|
                {
                    &&& #[trigger] occurs_at(body, STATUS_KEY@, p)
                    &&& forall|q: int| 0 <= q < p ==> !occurs_at(body, STATUS_KEY@, q)
                    &&& p + STATUS_KEY@.len() + v.len() < body.len()
                    &&& body.subrange(p + STATUS_KEY@.len(), p + STATUS_KEY@.len() + v.len()) == v
                    &&& body[p + STATUS_KEY@.len() + v.len()] == '"'
                    &&& !v.contains('"')
                },
            None => (forall|q: int| 0 <= q ==> !occurs_at(body, STATUS_KEY@, q)) || exists|p: int|
                {
                    &&& #[trigger] occurs_at(body, STATUS_KEY@, p)
                    &&& forall|q: int| 0 <= q < p ==> !occurs_at(body, STATUS_KEY@, q)
                    &&& forall|r: int| p + STATUS_KEY@.len() <= r < body.len() ==> body[r] != '"'
                },
        },
{
    let key = STATUS_KEY@;
    law_find(body, key, 0);
    match find_from(body, key, 0) {
        None => {},
        Some(p) => {
            let start = p + key.len();
            law_find_char(body, '"', start);
            match find_char_from(body, '"', start) {
                None => {
                    assert(occurs_at(body, key, p));
                },
                Some(e) => {
                    let v = body.subrange(start, e);
                    assert(v.len() == e - start);
                    assert(!v.contains('"')) by {
                        assert forall|j: int| 0 <= j < v.len() implies v[j] != '"' by {
                            assert(v[j] == body[start + j]);
                        }
                    }
                    assert(body.subrange(start, start + v.len()) == v);
                    assert(occurs_at(body, key, p));
                },
            }
        },
    }
}

/// The deployment status in a GraphQL answer: the value of its first
/// `"status":"` key.
pub fn extract_status(body: &str) -> (status: Option<&str>)
    ensures
        match status {
            Some(s) => extract_status_spec(body@) == Some(s@),
            None => extract_status_spec(body@) is None,
        },
{
    let key_len = STATUS_KEY.unicode_len();
    let key_start = match find_str(body, STATUS_KEY) {
        Some(p) => p,
        None => return None,
    };
    let start = key_start + key_len;
    let end = match find_char(body, '"', start) {
        Some(e) => e,
        None => return None,
    };
    Some(body.substring_char(start, end))
}

/// A deployment status that counts as healthy.
pub open spec fn healthy_status(status: Seq<char>) -> bool {
    status == STATUS_SUCCESS@ || status == STATUS_SLEEPING@
}

/// Whether an answer passes: status `200`, and in the trimmed body a
/// deployment status of `SUCCESS` or `SLEEPING` (a missing one counts as
/// empty).
pub open spec fn response_ok_spec(status: u16, body: Seq<char>) -> bool {
    status == HTTP_OK && healthy_status(
        match extract_status_spec(trim_spec(body)) {
            Some(s) => s,
            None => Seq::<char>::empty(),
        },
    )
}

/// The answer passes when its status is `200` and the latest deployment is
/// `SUCCESS` or `SLEEPING`.
pub fn response_ok(status: u16, body: &str) -> (pass: bool)
    ensures
        pass == response_ok_spec(status, body@),
{
    if status != HTTP_OK {
        return false;
    }
    let body = trim(body);
    let deployment_status = match extract_status(body) {
        Some(s) => s,
        None => "",
    };
    let pass = str_equals(deployment_status, STATUS_SUCCESS) || str_equals(
        deployment_status,
        STATUS_SLEEPING,
    );
    proof {
        if extract_status_spec(body@) is None {
            reveal_strlit("");
            assert(deployment_status@ =~= Seq::<char>::empty());
        }
    }
    pass
}

/// The check's verdict on what the request gave back. Any error, a missing
/// setting included, fails it.
pub fn ok(outcome: Result<HttpResponse, CheckError>) -> (pass: bool)
    ensures
        pass == match outcome {
            Ok(response) => response_ok_spec(response.status, response.body@),
            Err(_) => false,
        },
{
    match outcome {
        Ok(response) => response_ok(response.status, response.body.as_str()),
        Err(_) => false,
    }
}

} // verus!
