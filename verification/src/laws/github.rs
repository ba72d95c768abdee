//! Laws of the requests, and of what becomes of them.
use vstd::prelude::*;

use crate::github::{
    base_headers, commit_url, document_request, limited, raw_url, reports_rate_limit, status_line, success, wait_after,
    Exchange, Method, Request, RequestError, Target, Verdict,
};
use crate::json::{compact, contents, Json};
use crate::text::occurs;

verus! {

/// The statuses from 200 to 299 mean success; 403 and 429 mean that there were too many requests, and no other does.
pub proof fn law_statuses(status: u16)
    ensures
        success(status) <==> 200 <= status <= 299,
        limited(status) <==> status == 403 || status == 429,
{
}

/// The waits after the attempts of an exchange, in seconds.
pub proof fn law_waits()
    ensures
        wait_after(0) == 60,
        wait_after(1) == 120,
        wait_after(2) == 240,
        wait_after(3) == 480,
        wait_after(4) == 480,
{
    vstd::arithmetic::power2::lemma2_to64();
}

/// After a rate-limited attempt the request is sent again, unless it was the fifth; then the exchange has failed,
/// with an error that says so. Each time there is a wait first.
pub proof fn law_rate_limited(exchange: Exchange, next: Exchange, verdict: Verdict)
    requires
        exchange.after_limit(next, verdict),
    ensures
        next.target == exchange.target,
        next.attempt == exchange.attempt + 1,
        exchange.attempt < 4 ==> (verdict matches Verdict::Retry { wait } && wait == wait_after(exchange.attempt as nat)),
        exchange.attempt >= 4 ==> {
            &&& verdict matches Verdict::GiveUp { wait, error }
            &&& wait == wait_after(exchange.attempt as nat)
            &&& match exchange.target {
                Target::Graphql => error is GraphqlRateLimited,
                Target::Document { url } => error matches RequestError::GetRateLimited { url: u } && u@ == url@,
                Target::File { url } => error matches RequestError::GetRateLimited { url: u } && u@ == url@,
            }
        },
{
}

/// The address that an exchange reports is the one that it was started for.
pub proof fn law_exchange_url(url: String, attempt: u32)
    ensures
        (Exchange { target: Target::Document { url }, attempt }).url() == url@,
        (Exchange { target: Target::File { url }, attempt }).url() == url@,
{
}

/// A GraphQL response reports too many requests where its errors, as text, say `RATE_LIMIT`.
pub proof fn law_reports_rate_limit(response: Json)
    ensures
        reports_rate_limit(response) <==> response.has("errors"@) && exists|head: Seq<char>, tail: Seq<char>|
            compact(response.at("errors"@)) == #[trigger] (head + "RATE_LIMIT"@ + tail),
{
    crate::laws::text::law_occurs(compact(response.at("errors"@)), "RATE_LIMIT"@);
    assert(occurs(compact(response.at("errors"@)), "RATE_LIMIT"@) <==> exists|head: Seq<char>, tail: Seq<char>|
        compact(response.at("errors"@)) == #[trigger] (head + "RATE_LIMIT"@ + tail));
}

/// The requests for documents, files and commits: where they go, and with which headers.
pub proof fn law_requests(
    token: Seq<char>,
    url: Seq<char>,
    owner: Seq<char>,
    repo: Seq<char>,
    path: Seq<char>,
    git_ref: Seq<char>,
)
    ensures
        base_headers(token) == seq![("authorization"@, "Bearer "@ + token), ("user-agent"@, "tracker"@)],
        document_request(token, url).method == Method::Get,
        document_request(token, url).url == url,
        document_request(token, url).headers == seq![
            ("authorization"@, "Bearer "@ + token),
            ("user-agent"@, "tracker"@),
            ("accept"@, "application/vnd.github.v3+json"@),
        ],
        document_request(token, url).body is None,
        raw_url(owner, repo, path, git_ref) == "https://raw.githubusercontent.com/"@ + owner + "/"@ + repo + "/"@ + git_ref
            + "/"@ + path,
        commit_url(owner, repo, git_ref) == "https://api.github.com/repos/"@ + owner + "/"@ + repo + "/commits/"@ + git_ref,
{
    assert(document_request(token, url).headers =~= seq![
        ("authorization"@, "Bearer "@ + token),
        ("user-agent"@, "tracker"@),
        ("accept"@, "application/vnd.github.v3+json"@),
    ]);
}

/// What the logic reads of a request is what the request holds.
pub proof fn law_request_view(request: Request, i: int)
    ensures
        request@.method == request.method,
        request@.url == request.url@,
        request@.headers.len() == request.headers@.len(),
        0 <= i < request.headers@.len() ==> request@.headers[i] == (request.headers@[i].0@, request.headers@[i].1@),
        request.body is None <==> request@.body is None,
        request.body matches Some(value) ==> request@.body == Some(contents(value)),
{
}

/// What errors tell: where a request went, which status and body came back, or what was reported; and, for a
/// response that is not JSON, the reason behind it.
pub proof fn law_request_errors(url: String, status: u16, body: String)
    ensures
        (RequestError::GetReturned { url, status, body }).text() == "GET "@ + url@ + " returned "@ + status_line(status) + ": "@
            + body@,
        (RequestError::GetRateLimited { url }).text() == "GET "@ + url@ + " rate limit exceeded after 5 retries"@,
        (RequestError::GraphqlReturned { status, body }).text() == "GraphQL request returned "@ + status_line(status) + ": "@
            + body@,
        RequestError::GraphqlRateLimited.text() == "GraphQL rate limit exceeded after 5 retries"@,
        (RequestError::GraphqlErrors { errors: body }).text() == "GraphQL errors: "@ + body@,
        (RequestError::Malformed { reason: body }).text() == "error decoding response body"@,
        RequestError::NoSha.text() == "no sha in commit response"@,
        (RequestError::Malformed { reason: body }).cause_text() == Some(body@),
        (RequestError::GetReturned { url, status, body }).cause_text() is None,
        (RequestError::GetReturned { url, status, body }).possible() <==> 100 <= status <= 999,
        (RequestError::GraphqlReturned { status, body }).possible() <==> 100 <= status <= 999,
{
}

} // verus!
