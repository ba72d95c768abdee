//! Requests to the GitHub REST and GraphQL APIs, and what to do with the replies.
use vstd::arithmetic::power2::{lemma2_to64, lemma_pow2_strictly_increases, pow2};
use vstd::prelude::*;

use crate::json::{as_text, at, compact, compact_text, contents, empty_object, from_text, get, parse, parsed, set_member, Json};
use crate::text::{contains, decimal, occurs};

verus! {

/// What the status line of a response shows: the code and the reason phrase.
pub uninterp spec fn status_line(code: u16) -> Seq<char>;

/// The `Display` form of `reqwest::StatusCode`, made by `from_u16`: the code in decimal, a space, and the
/// reason phrase of the code. The table of reason phrases is left to the name `status_line`. For codes
/// outside of 100 to 999 there is no `StatusCode`.
#[verifier::external_body]
pub(crate) fn status_text(code: u16) -> (text: String)
    requires
        100 <= code < 1000,
    ensures
        text@ == status_line(code),
        (decimal(code as nat) + " "@).is_prefix_of(text@),
{
    reqwest::StatusCode::from_u16(code).unwrap().to_string()
}

/// The number of times that a request is sent at most.
pub const MAX_ATTEMPTS: u32 = 5;

/// Whether a status means that the request succeeded.
pub open spec fn success(status: u16) -> bool {
    200 <= status < 300
}

/// Whether a status means that the request succeeded.
pub fn is_success(status: u16) -> (yes: bool)
    ensures
        yes == success(status),
{
    200 <= status && status < 300
}

/// Whether a status means that the client sent too many requests: 403 Forbidden or 429 Too Many Requests.
pub open spec fn limited(status: u16) -> bool {
    status == 403 || status == 429
}

/// The seconds to wait after a rate-limited attempt: a minute, doubled with each attempt up to eight.
pub open spec fn wait_after(attempt: nat) -> nat {
    60 * if pow2(attempt) < 8 {
        pow2(attempt)
    } else {
        8
    }
}

/// The wait doubles from attempt to attempt until it is eight minutes long, and stays there.
pub proof fn law_wait_doubles(attempt: nat)
    ensures
        wait_after(0) == 60,
        wait_after(attempt + 1) == if wait_after(attempt) < 480 {
            2 * wait_after(attempt)
        } else {
            480
        },
        60 <= wait_after(attempt) <= 480,
{
    lemma2_to64();
    if attempt > 3 {
        lemma_pow2_strictly_increases(3, attempt);
    }
    if attempt > 2 {
        lemma_pow2_strictly_increases(3, attempt + 1);
    }
}

/// HTTP method of a request.
#[derive(Clone, Copy, PartialEq, Eq, Structural, Debug)]
pub enum Method {
    Get,
    Post,
}

/// A request to send.
pub struct Request {
    /// Method.
    pub method: Method,
    /// Address.
    pub url: String,
    /// Names and values of the headers.
    pub headers: Vec<(String, String)>,
    /// JSON body.
    pub body: Option<serde_json::Value>,
}

/// What a request says.
pub struct RequestView {
    pub method: Method,
    pub url: Seq<char>,
    pub headers: Seq<(Seq<char>, Seq<char>)>,
    pub body: Option<Json>,
}

impl View for Request {
    type V = RequestView;

    open spec fn view(&self) -> RequestView {
        RequestView {
            method: self.method,
            url: self.url@,
            headers: self.headers@.map_values(|h: (String, String)| (h.0@, h.1@)),
            body: match self.body {
                Some(value) => Some(contents(value)),
                None => None,
            },
        }
    }
}

/// Why a request did not bring what it was sent for.
pub enum RequestError {
    /// A GET request was answered with an error status.
    GetReturned { url: String, status: u16, body: String },
    /// A GET request was rate-limited at every attempt.
    GetRateLimited { url: String },
    /// A GraphQL request was answered with an error status.
    GraphqlReturned { status: u16, body: String },
    /// A GraphQL request was rate-limited at every attempt.
    GraphqlRateLimited,
    /// A GraphQL response reports errors.
    GraphqlErrors { errors: String },
    /// A response is not JSON, for a reason.
    Malformed { reason: String },
    /// A response about a commit does not name it.
    NoSha,
}

impl RequestError {
    /// What the error tells the user. The status is one that a response can have.
    pub open spec fn text(self) -> Seq<char> {
        match self {
            RequestError::GetReturned { url, status, body } => "GET "@ + url@ + " returned "@ + status_line(status)
                + ": "@ + body@,
            RequestError::GetRateLimited { url } => "GET "@ + url@ + " rate limit exceeded after 5 retries"@,
            RequestError::GraphqlReturned { status, body } => "GraphQL request returned "@ + status_line(status)
                + ": "@ + body@,
            RequestError::GraphqlRateLimited => "GraphQL rate limit exceeded after 5 retries"@,
            RequestError::GraphqlErrors { errors } => "GraphQL errors: "@ + errors@,
            RequestError::Malformed { .. } => "error decoding response body"@,
            RequestError::NoSha => "no sha in commit response"@,
        }
    }

    /// What is behind the error, where there is more to tell than it tells itself: why a response is not JSON.
    pub open spec fn cause_text(self) -> Option<Seq<char>> {
        match self {
            RequestError::Malformed { reason } => Some(reason@),
            _ => None,
        }
    }

    /// What is behind the error, where there is more to tell than it tells itself.
    pub fn cause(&self) -> (text: Option<&String>)
        ensures
            match text {
                Some(t) => self.cause_text() == Some(t@),
                None => self.cause_text() is None,
            },
    {
        match self {
            RequestError::Malformed { reason } => Some(reason),
            _ => None,
        }
    }

    /// Whether the status that the error holds, if any, is one that a response can have.
    pub open spec fn possible(self) -> bool {
        match self {
            RequestError::GetReturned { status, .. } => 100 <= status < 1000,
            RequestError::GraphqlReturned { status, .. } => 100 <= status < 1000,
            _ => true,
        }
    }

    /// What the error tells the user.
    pub fn message(&self) -> (text: String)
        requires
            self.possible(),
        ensures
            text@ == self.text(),
    {
        match self {
            RequestError::GetReturned { url, status, body } => {
                let mut text = "GET ".to_string();
                text.append(url.as_str());
                text.append(" returned ");
                text.append(status_text(*status).as_str());
                text.append(": ");
                text.append(body.as_str());
                text
            },
            RequestError::GetRateLimited { url } => {
                let mut text = "GET ".to_string();
                text.append(url.as_str());
                text.append(" rate limit exceeded after 5 retries");
                text
            },
            RequestError::GraphqlReturned { status, body } => {
                let mut text = "GraphQL request returned ".to_string();
                text.append(status_text(*status).as_str());
                text.append(": ");
                text.append(body.as_str());
                text
            },
            RequestError::GraphqlRateLimited => "GraphQL rate limit exceeded after 5 retries".to_string(),
            RequestError::GraphqlErrors { errors } => {
                let mut text = "GraphQL errors: ".to_string();
                text.append(errors.as_str());
                text
            },
            RequestError::Malformed { .. } => "error decoding response body".to_string(),
            RequestError::NoSha => "no sha in commit response".to_string(),
        }
    }
}

/// Where a request goes.
pub enum Target {
    /// A JSON document of the REST API.
    Document { url: String },
    /// A raw file.
    File { url: String },
    /// The GraphQL API.
    Graphql,
}

/// A request that is under way, with the number of attempts that were rate-limited.
pub struct Exchange {
    /// Where the request goes.
    pub target: Target,
    /// Rate-limited attempts so far.
    pub attempt: u32,
}

/// What to do next in an exchange.
pub enum Verdict {
    /// The document is here: the exchange is over.
    Deliver(serde_json::Value),
    /// Wait for some seconds and send the request again.
    Retry { wait: u64 },
    /// Wait for some seconds, then the exchange has failed.
    GiveUp { wait: u64, error: RequestError },
    /// The exchange has failed.
    Fail(RequestError),
}

/// What a GraphQL response that is JSON amounts to.
pub enum GraphqlReply {
    /// It reports no error.
    Data(serde_json::Value),
    /// It reports that there were too many requests.
    RateLimited,
    /// It reports other errors.
    Errors(String),
}

/// Whether a GraphQL response reports errors, and among them that there were too many requests.
pub open spec fn reports_rate_limit(response: Json) -> bool {
    response.has("errors"@) && occurs(compact(response.at("errors"@)), "RATE_LIMIT"@)
}

/// Judges a GraphQL response that is JSON.
pub fn graphql_reply(response: serde_json::Value) -> (reply: GraphqlReply)
    ensures
        match reply {
            GraphqlReply::Data(value) => value == response && !contents(response).has("errors"@),
            GraphqlReply::RateLimited => reports_rate_limit(contents(response)),
            GraphqlReply::Errors(text) => {
                &&& contents(response).has("errors"@)
                &&& !reports_rate_limit(contents(response))
                &&& text@ == compact(contents(response).at("errors"@))
            },
        },
{
    if let Some(errors) = get(&response, "errors") {
        let text = compact_text(errors);
        if contains(text.as_str(), "RATE_LIMIT") {
            return GraphqlReply::RateLimited;
        }
        return GraphqlReply::Errors(text);
    }
    GraphqlReply::Data(response)
}

impl Exchange {
    /// The address of a document or a file.
    pub open spec fn url(self) -> Seq<char> {
        match self.target {
            Target::Document { url } => url@,
            Target::File { url } => url@,
            Target::Graphql => Seq::empty(),
        }
    }

    /// What follows a rate-limited attempt: a wait and another attempt, until there were five.
    pub open spec fn after_limit(self, next: Exchange, verdict: Verdict) -> bool {
        &&& next.target == self.target
        &&& next.attempt == self.attempt + 1
        &&& if next.attempt < MAX_ATTEMPTS {
            verdict matches Verdict::Retry { wait } && wait == wait_after(self.attempt as nat)
        } else {
            &&& verdict matches Verdict::GiveUp { wait, error }
            &&& wait == wait_after(self.attempt as nat)
            &&& if self.target is Graphql {
                error is GraphqlRateLimited
            } else {
                error matches RequestError::GetRateLimited { url } && url@ == self.url()
            }
        }
    }

    /// Takes note of a rate-limited attempt.
    fn limit(&mut self) -> (verdict: Verdict)
        requires
            old(self).attempt < MAX_ATTEMPTS,
        ensures
            old(self).after_limit(*final(self), verdict),
    {
        let wait: u64 = GitHubClient::rate_limit_wait(self.attempt);
        self.attempt = self.attempt + 1;
        if self.attempt < MAX_ATTEMPTS {
            return Verdict::Retry { wait };
        }
        let error = match &self.target {
            Target::Document { url } => RequestError::GetRateLimited { url: url.clone() },
            Target::File { url } => RequestError::GetRateLimited { url: url.clone() },
            Target::Graphql => RequestError::GraphqlRateLimited,
        };
        Verdict::GiveUp { wait, error }
    }

    /// Judges a response whose status is no success. Documents and GraphQL calls are tried again when
    /// the status means that there were too many requests; files are not.
    pub fn on_failure(&mut self, status: u16, body: String) -> (verdict: Verdict)
        requires
            old(self).attempt < MAX_ATTEMPTS,
            100 <= status < 1000,
            !success(status),
        ensures
            limited(status) && !(old(self).target is File) ==> old(self).after_limit(*final(self), verdict),
            !limited(status) || old(self).target is File ==> {
                &&& *final(self) == *old(self)
                &&& verdict matches Verdict::Fail(error)
                &&& error.possible()
                &&& if old(self).target is Graphql {
                    &&& error matches RequestError::GraphqlReturned { status: s, body: b }
                    &&& s == status
                    &&& b == body
                } else {
                    &&& error matches RequestError::GetReturned { url, status: s, body: b }
                    &&& url@ == old(self).url()
                    &&& s == status
                    &&& b == body
                }
            },
    {
        let again: bool = match &self.target {
            Target::File { .. } => false,
            _ => status == 403 || status == 429,
        };
        if again {
            return self.limit();
        }
        match &self.target {
            Target::Document { url } => Verdict::Fail(RequestError::GetReturned { url: url.clone(), status, body }),
            Target::File { url } => Verdict::Fail(RequestError::GetReturned { url: url.clone(), status, body }),
            Target::Graphql => Verdict::Fail(RequestError::GraphqlReturned { status, body }),
        }
    }

    /// Judges the body of a response whose status is a success: it must be JSON, and in a GraphQL
    /// exchange report no error. Being told of too many requests in the body leads to another attempt.
    /// The body of a file is not judged: it is the file.
    pub fn on_success(&mut self, body: &[u8]) -> (verdict: Verdict)
        requires
            old(self).attempt < MAX_ATTEMPTS,
            !(old(self).target is File),
        ensures
            match parsed(body@) {
                Err(why) => {
                    &&& *final(self) == *old(self)
                    &&& verdict matches Verdict::Fail(error)
                    &&& error matches RequestError::Malformed { reason }
                    &&& reason@ == why
                },
                Ok(json) => if !(old(self).target is Graphql) || !json.has("errors"@) {
                    &&& *final(self) == *old(self)
                    &&& verdict matches Verdict::Deliver(value)
                    &&& contents(value) == json
                } else if reports_rate_limit(json) {
                    old(self).after_limit(*final(self), verdict)
                } else {
                    &&& *final(self) == *old(self)
                    &&& verdict matches Verdict::Fail(error)
                    &&& error matches RequestError::GraphqlErrors { errors }
                    &&& errors@ == compact(json.at("errors"@))
                },
            },
    {
        let value = match parse(body) {
            Ok(value) => value,
            Err(reason) => return Verdict::Fail(RequestError::Malformed { reason }),
        };
        match &self.target {
            Target::Graphql => match graphql_reply(value) {
                GraphqlReply::Data(value) => Verdict::Deliver(value),
                GraphqlReply::RateLimited => self.limit(),
                GraphqlReply::Errors(errors) => Verdict::Fail(RequestError::GraphqlErrors { errors }),
            },
            _ => Verdict::Deliver(value),
        }
    }
}

/// Makes requests with an access token.
pub struct GitHubClient {
    /// Personal access token.
    pub token: String,
}

/// The headers that every request carries: who asks, and with what right.
pub open spec fn base_headers(token: Seq<char>) -> Seq<(Seq<char>, Seq<char>)> {
    seq![("authorization"@, "Bearer "@ + token), ("user-agent"@, "tracker"@)]
}

/// The address of a raw file.
pub open spec fn raw_url(owner: Seq<char>, repo: Seq<char>, path: Seq<char>, git_ref: Seq<char>) -> Seq<char> {
    "https://raw.githubusercontent.com/"@ + owner + "/"@ + repo + "/"@ + git_ref + "/"@ + path
}

/// The address of the latest commit of a branch.
pub open spec fn commit_url(owner: Seq<char>, repo: Seq<char>, branch: Seq<char>) -> Seq<char> {
    "https://api.github.com/repos/"@ + owner + "/"@ + repo + "/commits/"@ + branch
}

/// The request for a JSON document.
pub open spec fn document_request(token: Seq<char>, url: Seq<char>) -> RequestView {
    RequestView {
        method: Method::Get,
        url,
        headers: base_headers(token).push(("accept"@, "application/vnd.github.v3+json"@)),
        body: None,
    }
}

impl GitHubClient {
    /// Makes a client that uses the given token.
    pub fn new(token: String) -> (client: Self)
        ensures
            client.token == token,
    {
        GitHubClient { token }
    }

    /// The seconds to wait after a rate-limited attempt.
    pub fn rate_limit_wait(attempt: u32) -> (wait: u64)
        requires
            attempt < 64,
        ensures
            wait == wait_after(attempt as nat),
    {
        proof {
            lemma2_to64();
            if attempt > 3 {
                lemma_pow2_strictly_increases(3, attempt as nat);
            }
        }
        if attempt >= 3 {
            60 * 8
        } else if attempt == 2 {
            60 * 4
        } else if attempt == 1 {
            60 * 2
        } else {
            60
        }
    }

    /// The headers that every request carries.
    fn headers(&self) -> (headers: Vec<(String, String)>)
        ensures
            headers@.map_values(|h: (String, String)| (h.0@, h.1@)) == base_headers(self.token@),
    {
        let mut bearer = "Bearer ".to_string();
        bearer.append(self.token.as_str());
        let mut headers: Vec<(String, String)> = Vec::new();
        headers.push(("authorization".to_string(), bearer));
        headers.push(("user-agent".to_string(), "tracker".to_string()));
        assert(headers@.map_values(|h: (String, String)| (h.0@, h.1@)) =~= base_headers(self.token@));
        headers
    }

    /// Starts an exchange that fetches a JSON document.
    pub fn get_json(&self, url: &str) -> (start: (Request, Exchange))
        ensures
            start.0@ == document_request(self.token@, url@),
            start.1.target matches Target::Document { url: u } && u@ == url@,
            start.1.attempt == 0,
    {
        let mut headers = self.headers();
        headers.push(("accept".to_string(), "application/vnd.github.v3+json".to_string()));
        let request = Request { method: Method::Get, url: url.to_string(), headers, body: None };
        assert(request@.headers =~= document_request(self.token@, url@).headers);
        (request, Exchange { target: Target::Document { url: url.to_string() }, attempt: 0 })
    }

    /// Starts an exchange that fetches a raw file, for files that are too large for the contents API.
    pub fn get_raw_content(&self, owner: &str, repo: &str, path: &str, git_ref: &str) -> (start: (Request, Exchange))
        ensures
            start.0@ == (RequestView {
                method: Method::Get,
                url: raw_url(owner@, repo@, path@, git_ref@),
                headers: base_headers(self.token@),
                body: None,
            }),
            start.1.target matches Target::File { url: u } && u@ == raw_url(owner@, repo@, path@, git_ref@),
            start.1.attempt == 0,
    {
        let mut url = "https://raw.githubusercontent.com/".to_string();
        url.append(owner);
        url.append("/");
        url.append(repo);
        url.append("/");
        url.append(git_ref);
        url.append("/");
        url.append(path);
        let request = Request { method: Method::Get, url: url.clone(), headers: self.headers(), body: None };
        (request, Exchange { target: Target::File { url }, attempt: 0 })
    }

    /// Starts an exchange that makes a GraphQL call.
    pub fn graphql_query(&self, query: &str, variables: serde_json::Value) -> (start: (Request, Exchange))
        ensures
            start.0@ == (RequestView {
                method: Method::Post,
                url: "https://api.github.com/graphql"@,
                headers: base_headers(self.token@),
                body: Some(
                    Json::Object(
                        Map::empty().insert("query"@, Json::Text(query@)).insert("variables"@, contents(variables)),
                    ),
                ),
            }),
            start.1.target is Graphql,
            start.1.attempt == 0,
    {
        let mut body = empty_object();
        set_member(&mut body, "query", from_text(query));
        set_member(&mut body, "variables", variables);
        let request = Request {
            method: Method::Post,
            url: "https://api.github.com/graphql".to_string(),
            headers: self.headers(),
            body: Some(body),
        };
        (request, Exchange { target: Target::Graphql, attempt: 0 })
    }

    /// Starts an exchange that fetches the latest commit of a branch.
    pub fn get_latest_commit(&self, owner: &str, repo: &str, branch: &str) -> (start: (Request, Exchange))
        ensures
            start.0@ == document_request(self.token@, commit_url(owner@, repo@, branch@)),
            start.1.target matches Target::Document { url: u } && u@ == commit_url(owner@, repo@, branch@),
            start.1.attempt == 0,
    {
        let mut url = "https://api.github.com/repos/".to_string();
        url.append(owner);
        url.append("/");
        url.append(repo);
        url.append("/commits/");
        url.append(branch);
        self.get_json(url.as_str())
    }
}

/// Reads the hash of a commit from the response about it.
pub fn read_commit_sha(response: &serde_json::Value) -> (sha: Result<String, RequestError>)
    ensures
        match sha {
            Ok(text) => contents(*response).at("sha"@).text() == Some(text@),
            Err(e) => contents(*response).at("sha"@).text() is None && e is NoSha,
        },
{
    match as_text(at(response, "sha")) {
        Some(sha) => Ok(sha.to_string()),
        None => Err(RequestError::NoSha),
    }
}

} // verus!
