use serde_json::Value;
use tracker::github::{
    graphql_reply, is_success, read_commit_sha, Exchange, GitHubClient, GraphqlReply, Method, Request, RequestError,
    Target, Verdict,
};

fn client() -> GitHubClient {
    GitHubClient::new("secret".into())
}

fn json(text: &str) -> Value {
    serde_json::from_str(text).unwrap()
}

fn headers(request: &Request) -> Vec<(&str, &str)> {
    request.headers.iter().map(|(n, v)| (n.as_str(), v.as_str())).collect()
}

fn failure(verdict: Verdict) -> String {
    match verdict {
        Verdict::Fail(error) => error.message(),
        _ => panic!("the exchange goes on"),
    }
}

fn retry(verdict: Verdict) -> u64 {
    match verdict {
        Verdict::Retry { wait } => wait,
        _ => panic!("the exchange is over"),
    }
}

#[test]
fn rate_limit_wait_doubles_up_to_eight_minutes() {
    let waits: Vec<u64> = (0..6).map(GitHubClient::rate_limit_wait).collect();
    assert_eq!(waits, vec![60, 120, 240, 480, 480, 480]);
    assert_eq!(GitHubClient::rate_limit_wait(63), 480);
}

#[test]
fn is_success_means_two_hundreds() {
    assert!(!is_success(199));
    assert!(is_success(200));
    assert!(is_success(299));
    assert!(!is_success(300));
    assert!(!is_success(403));
}

#[test]
fn get_json_asks_for_a_document() {
    let (request, exchange) = client().get_json("https://api.github.com/rate_limit");
    assert_eq!(request.method, Method::Get);
    assert_eq!(request.url, "https://api.github.com/rate_limit");
    assert_eq!(
        headers(&request),
        vec![
            ("authorization", "Bearer secret"),
            ("user-agent", "tracker"),
            ("accept", "application/vnd.github.v3+json"),
        ]
    );
    assert!(request.body.is_none());
    assert!(matches!(exchange.target, Target::Document { url } if url == "https://api.github.com/rate_limit"));
    assert_eq!(exchange.attempt, 0);
}

#[test]
fn get_raw_content_asks_for_a_file() {
    let (request, exchange) = client().get_raw_content("paseo-network", "runtimes", "dir/Cargo.lock", "main");
    assert_eq!(request.method, Method::Get);
    assert_eq!(request.url, "https://raw.githubusercontent.com/paseo-network/runtimes/main/dir/Cargo.lock");
    assert_eq!(headers(&request), vec![("authorization", "Bearer secret"), ("user-agent", "tracker")]);
    assert!(request.body.is_none());
    assert!(matches!(exchange.target, Target::File { url } if url == request.url));
}

#[test]
fn get_latest_commit_asks_for_the_branch() {
    let (request, _) = client().get_latest_commit("paseo-network", "runtimes", "main");
    assert_eq!(request.url, "https://api.github.com/repos/paseo-network/runtimes/commits/main");
    assert_eq!(headers(&request).len(), 3);
}

#[test]
fn graphql_query_posts_query_and_variables() {
    let (request, exchange) = client().graphql_query("query { viewer { login } }", json(r#"{"n": 3}"#));
    assert_eq!(request.method, Method::Post);
    assert_eq!(request.url, "https://api.github.com/graphql");
    assert_eq!(headers(&request), vec![("authorization", "Bearer secret"), ("user-agent", "tracker")]);
    assert_eq!(request.body, Some(json(r#"{"query": "query { viewer { login } }", "variables": {"n": 3}}"#)));
    assert!(matches!(exchange.target, Target::Graphql));
}

#[test]
fn rate_limited_document_is_tried_five_times() {
    let (_, mut exchange) = client().get_json("https://a/b");
    let waits: Vec<u64> = [403, 429, 403, 403].iter().map(|s| retry(exchange.on_failure(*s, String::new()))).collect();
    assert_eq!(waits, vec![60, 120, 240, 480]);
    match exchange.on_failure(429, String::new()) {
        Verdict::GiveUp { wait, error } => {
            assert_eq!(wait, 480);
            assert_eq!(error.message(), "GET https://a/b rate limit exceeded after 5 retries");
        }
        _ => panic!("the exchange goes on"),
    }
}

#[test]
fn error_status_of_a_document_is_reported() {
    let (_, mut exchange) = client().get_json("https://a/b");
    let verdict = exchange.on_failure(404, "gone".into());
    assert_eq!(failure(verdict), "GET https://a/b returned 404 Not Found: gone");
    assert_eq!(exchange.attempt, 0);
}

#[test]
fn status_without_a_reason_is_reported() {
    let (_, mut exchange) = client().get_json("https://a/b");
    let verdict = exchange.on_failure(599, String::new());
    assert_eq!(failure(verdict), "GET https://a/b returned 599 <unknown status code>: ");
}

#[test]
fn rate_limited_file_is_not_tried_again() {
    let (_, mut exchange) = client().get_raw_content("o", "r", "p", "b");
    let verdict = exchange.on_failure(403, "slow down".into());
    assert_eq!(
        failure(verdict),
        "GET https://raw.githubusercontent.com/o/r/b/p returned 403 Forbidden: slow down"
    );
}

#[test]
fn rate_limited_graphql_is_tried_five_times() {
    let mut exchange = Exchange { target: Target::Graphql, attempt: 0 };
    let limited = br#"{"errors": [{"type": "RATE_LIMITED", "message": "wait"}]}"#;
    assert_eq!(retry(exchange.on_success(limited)), 60);
    assert_eq!(retry(exchange.on_failure(403, String::new())), 120);
    assert_eq!(retry(exchange.on_success(limited)), 240);
    assert_eq!(retry(exchange.on_failure(429, String::new())), 480);
    match exchange.on_success(limited) {
        Verdict::GiveUp { wait, error } => {
            assert_eq!(wait, 480);
            assert_eq!(error.message(), "GraphQL rate limit exceeded after 5 retries");
        }
        _ => panic!("the exchange goes on"),
    }
}

#[test]
fn graphql_errors_are_reported() {
    let mut exchange = Exchange { target: Target::Graphql, attempt: 0 };
    let verdict = exchange.on_success(br#"{"data": null, "errors": [ {"type": "X", "message": "no"} ]}"#);
    assert_eq!(failure(verdict), r#"GraphQL errors: [{"message":"no","type":"X"}]"#);
    let verdict = exchange.on_failure(502, "upstream".into());
    assert_eq!(failure(verdict), "GraphQL request returned 502 Bad Gateway: upstream");
}

#[test]
fn graphql_errors_count_even_when_null() {
    assert!(matches!(graphql_reply(json(r#"{"errors": null}"#)), GraphqlReply::Errors(text) if text == "null"));
    assert!(matches!(graphql_reply(json(r#"{"errors": "RATE_LIMIT"}"#)), GraphqlReply::RateLimited));
    assert!(matches!(graphql_reply(json("[1]")), GraphqlReply::Data(value) if value == json("[1]")));
}

#[test]
fn delivered_document_is_the_one_received() {
    let mut exchange = Exchange { target: Target::Graphql, attempt: 2 };
    let verdict = exchange.on_success(br#" {"data": {"pr0": null}} "#);
    assert!(matches!(verdict, Verdict::Deliver(value) if value == json(r#"{"data":{"pr0":null}}"#)));
    assert_eq!(exchange.attempt, 2);
    let (_, mut exchange) = client().get_json("https://a/b");
    let verdict = exchange.on_success(br#"{"errors": "RATE_LIMIT"}"#);
    assert!(matches!(verdict, Verdict::Deliver(value) if value == json(r#"{"errors":"RATE_LIMIT"}"#)));
}

#[test]
fn malformed_document_is_reported() {
    let cases = [
        (&b"{"[..], "EOF while parsing an object at line 1 column 1"),
        (&b""[..], "EOF while parsing a value at line 1 column 0"),
        (&b"{} x"[..], "trailing characters at line 1 column 4"),
        (&b"\xff"[..], "expected value at line 1 column 1"),
    ];
    for (body, reason) in cases {
        let mut exchange = Exchange { target: Target::Graphql, attempt: 0 };
        match exchange.on_success(body) {
            Verdict::Fail(error) => {
                assert_eq!(error.message(), "error decoding response body");
                assert_eq!(error.cause().map(|c| c.as_str()), Some(reason));
            }
            _ => panic!("the exchange goes on"),
        }
        assert_eq!(exchange.attempt, 0);
    }
    assert_eq!(RequestError::GraphqlRateLimited.cause(), None);
}

#[test]
fn read_commit_sha_wants_a_text() {
    assert_eq!(read_commit_sha(&json(r#"{"sha": "abc123", "url": "x"}"#)).ok().unwrap(), "abc123");
    for response in [r#"{}"#, r#"{"sha": 1}"#, r#"["sha"]"#, "null"] {
        let error = read_commit_sha(&json(response)).err().unwrap();
        assert_eq!(error.message(), "no sha in commit response");
    }
}
