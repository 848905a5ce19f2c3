//! The PipeLLM search service, which has a second address for when the first does not serve.
use vstd::prelude::*;

use crate::error::{failure_behind, outcome, ErrorView, ToolError};
use crate::json::{as_list, as_text, field, tree, trees, Json, JsonTree};
use crate::text::{chained, lossy, optional_str, readable, same_text};
use crate::web::{
    decode, decoded, entry, is_success, law_refusal_tells_the_beginning, or_else, or_none_of,
    push_entry, refusal, refusal_text, success, ten_at_most, text_or, told, Reply, ReplyView,
    RequestView, WebRequest, MAX_RESULTS,
};

verus! {

/// Which of the service's addresses is asked.
#[derive(Debug, Copy, Clone, PartialEq, Eq, Structural)]
pub enum Domain {
    First,
    Second,
}

/// The address.
pub open spec fn base_url(domain: Domain) -> Seq<char> {
    match domain {
        Domain::First => "https://api.pipellm.ai"@,
        Domain::Second => "https://api.pipellm.com"@,
    }
}

/// The address.
fn base_url_text(domain: Domain) -> (url: &'static str)
    ensures
        url@ == base_url(domain),
{
    match domain {
        Domain::First => "https://api.pipellm.ai",
        Domain::Second => "https://api.pipellm.com",
    }
}

/// What is asked for at the address, by the kind of search.
pub open spec fn endpoint(kind: Option<Seq<char>>) -> Seq<char> {
    if kind == Some("news"@) {
        "v1/websearch/search-news"@
    } else if kind == Some("deep"@) {
        "v1/websearch/search"@
    } else {
        "v1/websearch/simple-search"@
    }
}

/// The request of a search.
pub open spec fn pipellm_request_spec(
    query: Seq<char>,
    api_key: Seq<char>,
    kind: Option<Seq<char>>,
    domain: Domain,
) -> RequestView {
    RequestView {
        post: false,
        url: base_url(domain) + "/"@ + endpoint(kind),
        query: seq![("q"@, query)],
        headers: seq![],
        bearer: Some(api_key),
        body: None,
    }
}

/// What is asked for at the address (see [`endpoint`]).
fn endpoint_text(kind: Option<&str>) -> (path: &'static str)
    ensures
        path@ == endpoint(optional_str(kind)),
{
    match kind {
        Some(k) => {
            if same_text(k, "news") {
                "v1/websearch/search-news"
            } else if same_text(k, "deep") {
                "v1/websearch/search"
            } else {
                "v1/websearch/simple-search"
            }
        },
        None => "v1/websearch/simple-search",
    }
}

/// The request of a search (see [`pipellm_request_spec`]).
pub fn pipellm_request(query: &str, api_key: &str, kind: Option<&str>, domain: Domain) -> (request:
    WebRequest)
    ensures
        request@ == pipellm_request_spec(query@, api_key@, optional_str(kind), domain),
{
    let mut url = base_url_text(domain).to_owned();
    url.append("/");
    url.append(endpoint_text(kind));
    let mut pairs: Vec<(String, String)> = Vec::new();
    pairs.push(("q".to_owned(), query.to_owned()));
    let request = WebRequest {
        post: false,
        url,
        query: pairs,
        headers: Vec::new(),
        bearer: Some(api_key.to_owned()),
        body: None,
    };
    assert(request@.query =~= seq![("q"@, query@)]);
    assert(request@.headers =~= seq![]);
    request
}

/// The first text, or the second where the first is missing.
pub open spec fn either(first: Option<Seq<char>>, second: Option<Seq<char>>) -> Option<Seq<char>> {
    if first is Some {
        first
    } else {
        second
    }
}

/// The results in the answer to a search: at its top, or else under `data`.
pub open spec fn pipellm_results(json: JsonTree) -> Seq<JsonTree> {
    match as_list(field(json, "organic"@)) {
        Some(l) => l,
        None => or_none_of(as_list(field(field(json, "data"@), "organic"@))),
    }
}

/// One result.
pub open spec fn pipellm_entry(result: JsonTree) -> Seq<char> {
    entry(
        or_else(as_text(field(result, "title"@)), "(no title)"@),
        or_else(either(as_text(field(result, "link"@)), as_text(field(result, "url"@))), ""@),
        or_else(
            either(as_text(field(result, "snippet"@)), as_text(field(result, "content"@))),
            ""@,
        ),
    )
}

/// What is told of the answer to a search.
pub open spec fn pipellm_report_spec(json: JsonTree) -> Seq<char> {
    let results = pipellm_results(json);
    if results.len() == 0 {
        "No results found."@
    } else {
        chained(told(results).map_values(|result: JsonTree| pipellm_entry(result)))
    }
}

/// The text under the first key, or under the second, or none.
fn text_under<'a>(result: &'a Json, first: &str, second: &str) -> (text: &'a str)
    ensures
        text@ == or_else(
            either(as_text(field(tree(*result), first@)), as_text(field(tree(*result), second@))),
            ""@,
        ),
{
    match result.text_at(first) {
        Some(t) => t,
        None => match result.text_at(second) {
            Some(t) => t,
            None => "",
        },
    }
}

/// Adds one result (see [`pipellm_entry`]).
fn push_result(out: &mut String, result: &Json)
    ensures
        final(out)@ == old(out)@ + pipellm_entry(tree(*result)),
{
    let title = match result.text_at("title") {
        Some(t) => t,
        None => "(no title)",
    };
    let url = text_under(result, "link", "url");
    let about = text_under(result, "snippet", "content");
    push_entry(out, title, url, about);
}

/// What is told of the answer to a search (see [`pipellm_report_spec`]).
pub fn pipellm_report(json: &Json) -> (report: String)
    ensures
        report@ == pipellm_report_spec(tree(*json)),
{
    let found = match json.list_at("organic") {
        Some(all) => Some(all),
        None => match json.get("data") {
            Some(data) => data.list_at("organic"),
            None => None,
        },
    };
    let ghost results = pipellm_results(tree(*json));
    let all = match found {
        Some(all) => all,
        None => {
            return "No results found.".to_owned();
        },
    };
    assert(results == trees(all@));
    if all.len() == 0 {
        return "No results found.".to_owned();
    }
    let n: usize = if all.len() < MAX_RESULTS { all.len() } else { MAX_RESULTS };
    let ghost entries = told(results).map_values(|result: JsonTree| pipellm_entry(result));
    let mut out = String::new();
    let mut i: usize = 0;
    assert(out@ =~= chained(entries.take(0)));
    while i < n
        invariant
            i <= n <= all.len(),
            n == entries.len(),
            results == trees(all@),
            entries == told(results).map_values(|result: JsonTree| pipellm_entry(result)),
            out@ == chained(entries.take(i as int)),
        decreases n - i,
    {
        push_result(&mut out, &all[i]);
        assert(entries[i as int] == pipellm_entry(tree(all@[i as int])));
        assert(entries.take(i + 1).drop_last() == entries.take(i as int));
        i = i + 1;
    }
    assert(entries.take(n as int) == entries);
    out
}

/// What came of one request of a search.
#[derive(Debug)]
pub enum Attempt {
    /// The search has its outcome.
    Settled(Result<String, ToolError>),
    /// The address did not serve.
    Unserved {
        /// Why.
        error: String,
    },
}

/// What came of one request of a search, as values.
pub enum AttemptView {
    Settled(Result<Seq<char>, ErrorView>),
    Unserved { error: Seq<char> },
}

impl View for Attempt {
    type V = AttemptView;

    open spec fn view(&self) -> AttemptView {
        match self {
            Attempt::Settled(result) => AttemptView::Settled(outcome(*result)),
            Attempt::Unserved { error } => AttemptView::Unserved { error: error@ },
        }
    }
}

/// What came of the request at one address. An answer that cannot be read, or is no JSON, settles
/// the search; a refusal, or no answer, does not.
pub open spec fn pipellm_attempt_spec(domain: Domain, reply: ReplyView) -> AttemptView {
    match reply {
        ReplyView::Failed { error } => AttemptView::Unserved { error: error.message },
        ReplyView::Unread { error } => AttemptView::Settled(
            Err(failure_behind("parse pipellm response"@, error)),
        ),
        ReplyView::Received { status, status_text, body, undecodable } => if !success(status) {
            AttemptView::Unserved {
                error: refusal(status_text, " from "@ + base_url(domain), readable(body)),
            }
        } else {
            AttemptView::Settled(
                match decoded(body, undecodable) {
                    Ok(json) => Ok(pipellm_report_spec(json)),
                    Err(error) => Err(failure_behind("parse pipellm response"@, error)),
                },
            )
        },
    }
}

/// What came of the request at one address (see [`pipellm_attempt_spec`]).
pub fn pipellm_attempt(domain: Domain, reply: &Reply) -> (attempt: Attempt)
    ensures
        attempt@ == pipellm_attempt_spec(domain, reply@),
{
    match reply {
        Reply::Failed { error } => Attempt::Unserved { error: error.message.clone() },
        Reply::Unread { error } => Attempt::Settled(
            Err(ToolError::with_cause("parse pipellm response", error)),
        ),
        Reply::Received { status, status_text, body, undecodable } => {
            if !is_success(*status) {
                let text = lossy(body.as_slice());
                let mut between = " from ".to_owned();
                between.append(base_url_text(domain));
                return Attempt::Unserved {
                    error: refusal_text(status_text.as_str(), between.as_str(), text.as_str()),
                };
            }
            Attempt::Settled(
                match decode(body.as_slice(), undecodable.as_str()) {
                    Ok(json) => Ok(pipellm_report(&json)),
                    Err(error) => Err(ToolError::with_cause("parse pipellm response", &error)),
                },
            )
        },
    }
}

// ---- Laws ----

/// A search asks for the query at the address, at a place of its own for news and for deep
/// searches, with the key as the bearer token. The two addresses differ.
pub proof fn law_pipellm_request_asks_for_the_query(
    query: Seq<char>,
    api_key: Seq<char>,
    kind: Option<Seq<char>>,
    domain: Domain,
)
    ensures
        ({
            let request = pipellm_request_spec(query, api_key, kind, domain);
            &&& !request.post
            &&& request.url == (match domain {
                Domain::First => "https://api.pipellm.ai"@,
                Domain::Second => "https://api.pipellm.com"@,
            }) + "/v1/websearch/"@ + (if kind == Some("news"@) {
                "search-news"@
            } else if kind == Some("deep"@) {
                "search"@
            } else {
                "simple-search"@
            })
            &&& request.query == seq![("q"@, query)]
            &&& request.headers.len() == 0
            &&& request.bearer == Some(api_key)
            &&& request.body is None
        }),
        base_url(Domain::First) != base_url(Domain::Second),
{
    reveal_strlit("/");
    reveal_strlit("/v1/websearch/");
    reveal_strlit("search-news");
    reveal_strlit("search");
    reveal_strlit("simple-search");
    reveal_strlit("v1/websearch/search-news");
    reveal_strlit("v1/websearch/search");
    reveal_strlit("v1/websearch/simple-search");
    reveal_strlit("https://api.pipellm.ai");
    reveal_strlit("https://api.pipellm.com");
    reveal_strlit("news");
    reveal_strlit("deep");
    assert("news"@[0] == 'n' && "deep"@[0] == 'd');
    let base = base_url(domain);
    assert(base + "/"@ + "v1/websearch/search-news"@ =~= base + "/v1/websearch/"@
        + "search-news"@);
    assert(base + "/"@ + "v1/websearch/search"@ =~= base + "/v1/websearch/"@ + "search"@);
    assert(base + "/"@ + "v1/websearch/simple-search"@ =~= base + "/v1/websearch/"@
        + "simple-search"@);
    assert(base_url(Domain::First).len() != base_url(Domain::Second).len());
}

/// What is told of an answer is its results, the first ten of them, one after the other and in
/// order: of each its title, its link or else its address, and its snippet or else its content. The
/// results are those at the top of the answer, or those under `data` where there is no list at the
/// top.
pub proof fn law_pipellm_results_are_told(
    json: JsonTree,
    results: Seq<JsonTree>,
    parts: Seq<Seq<char>>,
)
    requires
        results.len() > 0,
        JsonTree::List(results) == (if field(json, "organic"@) is List {
            field(json, "organic"@)
        } else {
            field(field(json, "data"@), "organic"@)
        }),
        parts.len() == ten_at_most(results.len()),
        forall|i: int|
            0 <= i < parts.len() ==> #[trigger] parts[i] == "- **"@ + text_or(
                field(results[i], "title"@),
                "(no title)"@,
            ) + "** <"@ + text_or(
                field(results[i], "link"@),
                text_or(field(results[i], "url"@), ""@),
            ) + ">\n  "@ + text_or(
                field(results[i], "snippet"@),
                text_or(field(results[i], "content"@), ""@),
            ) + "\n"@,
    ensures
        pipellm_report_spec(json) == chained(parts),
{
    assert(told(results).map_values(|result: JsonTree| pipellm_entry(result)) =~= parts);
}

/// Where there is no list of results in either place, or the one that counts is empty, just that is
/// told.
pub proof fn law_pipellm_tells_where_there_are_no_results(json: JsonTree)
    requires
        ({
            let results = if field(json, "organic"@) is List {
                field(json, "organic"@)
            } else {
                field(field(json, "data"@), "organic"@)
            };
            !(results is List) || results->List_0.len() == 0
        }),
    ensures
        pipellm_report_spec(json) == "No results found."@,
{
}

/// An address did not serve where the request failed, which is told in the client's own words, and
/// where the service refused it, which is told by its status, the address, and the beginning of
/// what the service said: 300 characters or all.
pub proof fn law_unserved_attempt_says_why(
    domain: Domain,
    error: ErrorView,
    reply: ReplyView,
    said: Seq<char>,
)
    requires
        reply matches ReplyView::Received { status, body, .. } && status / 100 != 2
            && said.is_prefix_of(readable(body)) && said.len() == (if readable(body).len() < 300 {
            readable(body).len()
        } else {
            300
        }),
    ensures
        pipellm_attempt_spec(domain, ReplyView::Failed { error }) == (AttemptView::Unserved {
            error: error.message,
        }),
        pipellm_attempt_spec(domain, reply) == (AttemptView::Unserved {
            error: reply->status_text + " from "@ + (match domain {
                Domain::First => "https://api.pipellm.ai"@,
                Domain::Second => "https://api.pipellm.com"@,
            }) + ": "@ + said,
        }),
{
    let between = " from "@ + base_url(domain);
    law_refusal_tells_the_beginning(reply->status_text, between, readable(reply->body), said);
    assert(reply->status_text + between + ": "@ + said =~= reply->status_text + " from "@
        + base_url(domain) + ": "@ + said);
}

/// An attempt is seen as what it came to.
pub proof fn law_attempt_is_seen_as_what_it_came_to(attempt: Attempt)
    ensures
        attempt matches Attempt::Settled(result) ==> attempt@ == AttemptView::Settled(
            outcome(result),
        ),
        attempt matches Attempt::Unserved { error } ==> attempt@ == (AttemptView::Unserved {
            error: error@,
        }),
{
}

} // verus!
