//! A web search from its arguments to what is told of it: which service is asked for what, and what
//! is made of its replies.
use vstd::prelude::*;

use crate::brave::{
    brave_outcome, brave_reply, brave_request, brave_request_spec, law_brave_results_are_told,
    law_brave_tells_where_there_are_no_results, snippet_lines,
};
use crate::error::{failure, outcome, ErrorView, ToolError};
use crate::json::{as_text, field, json_contents, parsed_json, tree, Json, JsonTree};
use crate::pipellm::{
    law_pipellm_results_are_told, law_pipellm_tells_where_there_are_no_results, pipellm_attempt,
    pipellm_attempt_spec, pipellm_request, pipellm_request_spec, Attempt, AttemptView, Domain,
};
use crate::tavily::{
    law_tavily_results_are_told, tavily_outcome, tavily_reply, tavily_request, tavily_request_spec,
};
use crate::text::{chained, optional_str, optional_view, readable, same_text};
use crate::web::{
    law_refusal_tells_the_beginning, success, ten_at_most, text_or, Reply, ReplyView, RequestView,
    WebRequest,
};

verus! {

/// What the user has set up.
#[derive(Debug)]
pub struct AssistantConfig {
    /// The search service, by name.
    pub web_search_provider: Option<String>,
    /// The key for it.
    pub web_search_api_key: Option<String>,
}

/// A search service, and which of its addresses where it has more than one.
#[derive(Debug, Copy, Clone, PartialEq, Eq, Structural)]
pub enum Provider {
    Brave,
    Pipellm(Domain),
    Tavily,
}

/// A web search whose next request is to be sent.
#[derive(Debug)]
pub struct WebSearch {
    /// The service that is asked.
    pub provider: Provider,
    /// What is looked for.
    pub query: String,
    /// The key for the service.
    pub api_key: String,
    /// The kind of search.
    pub kind: Option<String>,
    /// How fresh the results are to be.
    pub freshness: Option<String>,
    /// How thorough the search is to be.
    pub search_depth: Option<String>,
}

/// What a web search says.
pub struct SearchView {
    pub provider: Provider,
    pub query: Seq<char>,
    pub api_key: Seq<char>,
    pub kind: Option<Seq<char>>,
    pub freshness: Option<Seq<char>>,
    pub search_depth: Option<Seq<char>>,
}

impl View for WebSearch {
    type V = SearchView;

    open spec fn view(&self) -> SearchView {
        SearchView {
            provider: self.provider,
            query: self.query@,
            api_key: self.api_key@,
            kind: optional_view(self.kind),
            freshness: optional_view(self.freshness),
            search_depth: optional_view(self.search_depth),
        }
    }
}

/// The service with this name.
pub open spec fn provider_named(name: Seq<char>) -> Option<Provider> {
    if name == "brave"@ {
        Some(Provider::Brave)
    } else if name == "pipellm"@ {
        Some(Provider::Pipellm(Domain::First))
    } else if name == "tavily"@ {
        Some(Provider::Tavily)
    } else {
        None
    }
}

/// The search that the arguments ask for, or what is missing for it.
pub open spec fn begun(
    args: JsonTree,
    provider: Option<Seq<char>>,
    api_key: Option<Seq<char>>,
) -> Result<SearchView, ErrorView> {
    if as_text(field(args, "query"@)) is None {
        Err(failure("missing query"@))
    } else if provider is None {
        Err(failure("web_search provider not configured"@))
    } else if api_key is None {
        Err(failure("web_search api key missing"@))
    } else if provider_named(provider->0) is None {
        Err(failure("unknown web_search provider: "@ + provider->0))
    } else {
        Ok(
            SearchView {
                provider: provider_named(provider->0)->0,
                query: as_text(field(args, "query"@))->0,
                api_key: api_key->0,
                kind: as_text(field(args, "kind"@)),
                freshness: as_text(field(args, "freshness"@)),
                search_depth: as_text(field(args, "search_depth"@)),
            },
        )
    }
}

/// The text under this key, if there is one.
fn owned_text(args: &Json, key: &str) -> (text: Option<String>)
    ensures
        optional_view(text) == as_text(field(tree(*args), key@)),
{
    match args.text_at(key) {
        Some(t) => Some(t.to_owned()),
        None => None,
    }
}

/// The search that the arguments ask for, or what is missing for it (see [`begun`]).
pub fn begin_web_search(args: &Json, config: &AssistantConfig) -> (search: Result<
    WebSearch,
    ToolError,
>)
    ensures
        match search {
            Ok(s) => begun(
                tree(*args),
                optional_view(config.web_search_provider),
                optional_view(config.web_search_api_key),
            ) == Ok::<SearchView, ErrorView>(s@),
            Err(e) => begun(
                tree(*args),
                optional_view(config.web_search_provider),
                optional_view(config.web_search_api_key),
            ) == Err::<SearchView, ErrorView>(e@),
        },
{
    let query = match args.text_at("query") {
        Some(q) => q,
        None => {
            return Err(ToolError::new("missing query"));
        },
    };
    let name = match &config.web_search_provider {
        Some(n) => n,
        None => {
            return Err(ToolError::new("web_search provider not configured"));
        },
    };
    let api_key = match &config.web_search_api_key {
        Some(k) => k,
        None => {
            return Err(ToolError::new("web_search api key missing"));
        },
    };
    let provider = if same_text(name.as_str(), "brave") {
        Provider::Brave
    } else if same_text(name.as_str(), "pipellm") {
        Provider::Pipellm(Domain::First)
    } else if same_text(name.as_str(), "tavily") {
        Provider::Tavily
    } else {
        let mut message = "unknown web_search provider: ".to_owned();
        message.append(name.as_str());
        return Err(ToolError::new(message.as_str()));
    };
    Ok(
        WebSearch {
            provider,
            query: query.to_owned(),
            api_key: api_key.clone(),
            kind: owned_text(args, "kind"),
            freshness: owned_text(args, "freshness"),
            search_depth: owned_text(args, "search_depth"),
        },
    )
}

/// The search that the arguments ask for, or what is missing for it (see [`begun`]), with the
/// arguments as `serde_json` holds them.
pub fn exec_web_search(args: serde_json::Value, config: &AssistantConfig) -> (search: Result<
    WebSearch,
    ToolError,
>)
    ensures
        match search {
            Ok(s) => begun(
                json_contents(args),
                optional_view(config.web_search_provider),
                optional_view(config.web_search_api_key),
            ) == Ok::<SearchView, ErrorView>(s@),
            Err(e) => begun(
                json_contents(args),
                optional_view(config.web_search_provider),
                optional_view(config.web_search_api_key),
            ) == Err::<SearchView, ErrorView>(e@),
        },
{
    begin_web_search(&Json::from_value(args), config)
}

/// The text, borrowed.
fn borrowed(text: &Option<String>) -> (slice: Option<&str>)
    ensures
        optional_str(slice) == optional_view(*text),
{
    match text {
        Some(t) => Some(t.as_str()),
        None => None,
    }
}

/// The request that the search sends next.
pub open spec fn request_of(search: SearchView) -> RequestView {
    match search.provider {
        Provider::Brave => brave_request_spec(
            search.query,
            search.api_key,
            search.kind,
            search.freshness,
        ),
        Provider::Pipellm(domain) => pipellm_request_spec(
            search.query,
            search.api_key,
            search.kind,
            domain,
        ),
        Provider::Tavily => tavily_request_spec(
            search.query,
            search.api_key,
            search.kind,
            search.freshness,
            search.search_depth,
        ),
    }
}

/// What a reply makes of a search: its outcome, or the search with another request to send.
#[derive(Debug)]
pub enum Step {
    Done(Result<String, ToolError>),
    Next(WebSearch),
}

/// What a reply makes of a search, as values.
pub enum StepView {
    Done(Result<Seq<char>, ErrorView>),
    Next(SearchView),
}

impl View for Step {
    type V = StepView;

    open spec fn view(&self) -> StepView {
        match self {
            Step::Done(result) => StepView::Done(outcome(*result)),
            Step::Next(search) => StepView::Next(search@),
        }
    }
}

/// What a reply makes of a search. Only the first of two addresses is followed by another request,
/// and only where it did not serve.
pub open spec fn step_of(search: SearchView, reply: ReplyView) -> StepView {
    match search.provider {
        Provider::Brave => StepView::Done(brave_outcome(search.kind, reply)),
        Provider::Tavily => StepView::Done(tavily_outcome(reply)),
        Provider::Pipellm(domain) => match (pipellm_attempt_spec(domain, reply), domain) {
            (AttemptView::Settled(result), _) => StepView::Done(result),
            (AttemptView::Unserved { .. }, Domain::First) => StepView::Next(
                SearchView { provider: Provider::Pipellm(Domain::Second), ..search },
            ),
            (AttemptView::Unserved { error }, Domain::Second) => StepView::Done(
                Err(failure("pipellm search failed: "@ + error)),
            ),
        },
    }
}

impl WebSearch {
    /// The request that the search sends next (see [`request_of`]).
    pub fn request(&self) -> (request: WebRequest)
        ensures
            request@ == request_of(self@),
    {
        match self.provider {
            Provider::Brave => brave_request(
                self.query.as_str(),
                self.api_key.as_str(),
                borrowed(&self.kind),
                borrowed(&self.freshness),
            ),
            Provider::Pipellm(domain) => pipellm_request(
                self.query.as_str(),
                self.api_key.as_str(),
                borrowed(&self.kind),
                domain,
            ),
            Provider::Tavily => tavily_request(
                self.query.as_str(),
                self.api_key.as_str(),
                borrowed(&self.kind),
                borrowed(&self.freshness),
                borrowed(&self.search_depth),
            ),
        }
    }

    /// What the reply to that request makes of the search (see [`step_of`]).
    pub fn receive(self, reply: &Reply) -> (step: Step)
        ensures
            step@ == step_of(self@, reply@),
    {
        match self.provider {
            Provider::Brave => Step::Done(brave_reply(borrowed(&self.kind), reply)),
            Provider::Tavily => Step::Done(tavily_reply(reply)),
            Provider::Pipellm(domain) => match pipellm_attempt(domain, reply) {
                Attempt::Settled(result) => Step::Done(result),
                Attempt::Unserved { error } => match domain {
                    Domain::First => Step::Next(
                        WebSearch { provider: Provider::Pipellm(Domain::Second), ..self },
                    ),
                    Domain::Second => {
                        let mut message = "pipellm search failed: ".to_owned();
                        message.append(error.as_str());
                        Step::Done(Err(ToolError::new(message.as_str())))
                    },
                },
            },
        }
    }
}

// ---- Laws ----

/// A search is over after its second reply at the latest.
pub proof fn law_search_takes_two_replies_at_most(
    search: SearchView,
    first: ReplyView,
    second: ReplyView,
)
    ensures
        match step_of(search, first) {
            StepView::Done(_) => true,
            StepView::Next(rest) => step_of(rest, second) is Done,
        },
{
}

/// A second request is the first at another address.
pub proof fn law_second_request_differs_in_address_alone(search: SearchView, reply: ReplyView)
    ensures
        step_of(search, reply) matches StepView::Next(rest) ==> request_of(rest) == (RequestView {
            url: request_of(rest).url,
            ..request_of(search)
        }),
{
}

/// The key goes to the service in a header or as the bearer token, whatever the provider. The
/// address, the query and what is posted do not depend on it.
pub proof fn law_key_is_sent_apart(search: SearchView, other_key: Seq<char>)
    ensures
        ({
            let a = request_of(search);
            let b = request_of(SearchView { api_key: other_key, ..search });
            &&& a.url == b.url
            &&& a.query == b.query
            &&& a.body == b.body
            &&& a.bearer == Some(search.api_key) || a.headers.contains(
                ("X-Subscription-Token"@, search.api_key),
            )
        }),
{
    let a = request_of(search);
    if search.provider is Brave {
        assert(a.headers[0] == ("X-Subscription-Token"@, search.api_key));
    }
}

/// Whether the service served the request, with an answer that could be read.
pub open spec fn served(reply: ReplyView) -> bool {
    reply matches ReplyView::Received { status, .. } && success(status)
}

/// A reply that does not serve the request is never told as a result: the search goes on, or fails.
pub proof fn law_unserved_request_gives_no_result(search: SearchView, reply: ReplyView)
    requires
        !served(reply),
    ensures
        step_of(search, reply) is Next || step_of(search, reply)->Done_0 is Err,
{
}

/// A reply that serves the request ends the search, with a result exactly where its body is JSON.
pub proof fn law_served_request_ends_the_search(search: SearchView, reply: ReplyView)
    requires
        served(reply),
    ensures
        step_of(search, reply) is Done,
        step_of(search, reply)->Done_0 is Ok <==> parsed_json(reply->body) is Ok,
{
}

/// Behind the failure of a search whose answer is no JSON stand the client's words for that, and
/// behind them the parser's, whatever the provider.
pub proof fn law_undecodable_answer_keeps_its_causes(search: SearchView, reply: ReplyView)
    requires
        served(reply),
        parsed_json(reply->body) is Err,
    ensures
        step_of(search, reply) is Done,
        step_of(search, reply)->Done_0 is Err,
        step_of(search, reply)->Done_0->Err_0.causes == seq![
            reply->undecodable,
            parsed_json(reply->body)->Err_0,
        ],
{
}

/// A search begins exactly where there is a query, and a known service with its key is set up.
pub proof fn law_search_begins_when_set_up(
    args: JsonTree,
    provider: Option<Seq<char>>,
    api_key: Option<Seq<char>>,
)
    ensures
        begun(args, provider, api_key) is Ok <==> {
            &&& as_text(field(args, "query"@)) is Some
            &&& provider is Some
            &&& api_key is Some
            &&& provider->0 == "brave"@ || provider->0 == "pipellm"@ || provider->0 == "tavily"@
        },
{
}

/// A search is seen as what its fields hold, one for one.
pub proof fn law_search_is_seen_field_by_field(search: WebSearch)
    ensures
        search@.provider == search.provider,
        search@.query == search.query@,
        search@.api_key == search.api_key@,
        search.kind matches Some(kind) ==> search@.kind == Some(kind@),
        search.kind is None ==> search@.kind is None,
        search.freshness matches Some(freshness) ==> search@.freshness == Some(freshness@),
        search.freshness is None ==> search@.freshness is None,
        search.search_depth matches Some(depth) ==> search@.search_depth == Some(depth@),
        search.search_depth is None ==> search@.search_depth is None,
{
}

/// The search that begins is for the query in the arguments, with the kind, the freshness and the
/// depth that these give as texts, at the service that is set up, with its key.
pub proof fn law_search_begins_as_the_arguments_say(
    args: JsonTree,
    query: Seq<char>,
    provider: Seq<char>,
    api_key: Seq<char>,
)
    requires
        field(args, "query"@) == JsonTree::Text(query),
        provider == "brave"@ || provider == "pipellm"@ || provider == "tavily"@,
    ensures
        begun(args, Some(provider), Some(api_key)) is Ok,
        ({
            let search = begun(args, Some(provider), Some(api_key))->Ok_0;
            &&& search.query == query
            &&& search.api_key == api_key
            &&& provider == "brave"@ ==> search.provider == Provider::Brave
            &&& provider == "pipellm"@ ==> search.provider == Provider::Pipellm(Domain::First)
            &&& provider == "tavily"@ ==> search.provider == Provider::Tavily
            &&& search.kind == (match field(args, "kind"@) {
                JsonTree::Text(text) => Some(text),
                _ => None,
            })
            &&& search.freshness == (match field(args, "freshness"@) {
                JsonTree::Text(text) => Some(text),
                _ => None,
            })
            &&& search.search_depth == (match field(args, "search_depth"@) {
                JsonTree::Text(text) => Some(text),
                _ => None,
            })
        }),
{
    reveal_strlit("brave");
    reveal_strlit("pipellm");
    reveal_strlit("tavily");
    assert("brave"@.len() != "pipellm"@.len() && "brave"@.len() != "tavily"@.len());
    assert("pipellm"@.len() != "tavily"@.len());
}

/// What is missing for a search is told, the query before the service, the service before its key,
/// and a service that is not known by its name.
pub proof fn law_what_is_missing_is_told(
    args: JsonTree,
    provider: Option<Seq<char>>,
    api_key: Option<Seq<char>>,
)
    ensures
        begun(args, provider, api_key) matches Err(error) ==> {
            &&& error.causes.len() == 0
            &&& error.message == (if !(field(args, "query"@) is Text) {
                "missing query"@
            } else if provider is None {
                "web_search provider not configured"@
            } else if api_key is None {
                "web_search api key missing"@
            } else {
                "unknown web_search provider: "@ + provider->0
            })
        },
{
}

/// The next request is one that the service asked understands, and says all that the search says
/// and the service can be told.
pub proof fn law_request_is_that_of_the_service(search: SearchView, domain: Domain)
    ensures
        search.provider == Provider::Brave ==> request_of(search) == brave_request_spec(
            search.query,
            search.api_key,
            search.kind,
            search.freshness,
        ),
        search.provider == Provider::Pipellm(domain) ==> request_of(search)
            == pipellm_request_spec(search.query, search.api_key, search.kind, domain),
        search.provider == Provider::Tavily ==> request_of(search) == tavily_request_spec(
            search.query,
            search.api_key,
            search.kind,
            search.freshness,
            search.search_depth,
        ),
{
}

/// A Brave search that is served ends with the results of the answer, the first ten of them, one
/// after the other and in order: of each its title, its address, its description and its further
/// snippets. A search for news finds them at the top of the answer, any other under `web`.
pub proof fn law_brave_search_tells_its_results(
    search: SearchView,
    reply: ReplyView,
    json: JsonTree,
    results: Seq<JsonTree>,
    parts: Seq<Seq<char>>,
)
    requires
        search.provider is Brave,
        reply matches ReplyView::Received { status, body, .. } && status / 100 == 2
            && parsed_json(body) == Ok::<JsonTree, Seq<char>>(json),
        results.len() > 0,
        JsonTree::List(results) == (if search.kind == Some("news"@) {
            field(json, "results"@)
        } else {
            field(field(json, "web"@), "results"@)
        }),
        parts.len() == ten_at_most(results.len()),
        forall|i: int|
            0 <= i < parts.len() ==> #[trigger] parts[i] == "- **"@ + text_or(
                field(results[i], "title"@),
                "(no title)"@,
            ) + "** <"@ + text_or(field(results[i], "url"@), ""@) + ">\n  "@ + text_or(
                field(results[i], "description"@),
                ""@,
            ) + "\n"@ + snippet_lines(results[i]),
    ensures
        step_of(search, reply) == StepView::Done(Ok(chained(parts))),
{
    law_brave_results_are_told(json, search.kind, results, parts);
}

/// A Brave search that is served with an answer without results tells that there are none.
pub proof fn law_brave_search_tells_of_no_results(
    search: SearchView,
    reply: ReplyView,
    json: JsonTree,
)
    requires
        search.provider is Brave,
        reply matches ReplyView::Received { status, body, .. } && status / 100 == 2
            && parsed_json(body) == Ok::<JsonTree, Seq<char>>(json),
        ({
            let results = if search.kind == Some("news"@) {
                field(json, "results"@)
            } else {
                field(field(json, "web"@), "results"@)
            };
            !(results is List) || results->List_0.len() == 0
        }),
    ensures
        step_of(search, reply) == StepView::Done(Ok("No results found."@)),
{
    law_brave_tells_where_there_are_no_results(json, search.kind);
}

/// A Tavily search that is served ends with the service's own answer, where it gave one that is not
/// empty, and the results of the answer, the first ten of them, one after the other and in order:
/// of each its title, its address and its content. Where there is neither, just that is told.
pub proof fn law_tavily_search_tells_its_results(
    search: SearchView,
    reply: ReplyView,
    json: JsonTree,
    results: Seq<JsonTree>,
    parts: Seq<Seq<char>>,
)
    requires
        search.provider is Tavily,
        reply matches ReplyView::Received { status, body, .. } && status / 100 == 2
            && parsed_json(body) == Ok::<JsonTree, Seq<char>>(json),
        field(json, "results"@) == JsonTree::List(results) || (!(field(json, "results"@) is List)
            && results.len() == 0),
        parts.len() == ten_at_most(results.len()),
        forall|i: int|
            0 <= i < parts.len() ==> #[trigger] parts[i] == "- **"@ + text_or(
                field(results[i], "title"@),
                "(no title)"@,
            ) + "** <"@ + text_or(field(results[i], "url"@), ""@) + ">\n  "@ + text_or(
                field(results[i], "content"@),
                ""@,
            ) + "\n"@,
    ensures
        ({
            let answer = text_or(field(json, "answer"@), ""@);
            step_of(search, reply) == StepView::Done(
                Ok(
                    if answer.len() > 0 {
                        "**Answer:** "@ + answer + "\n\n"@ + chained(parts)
                    } else if results.len() > 0 {
                        chained(parts)
                    } else {
                        "No results found."@
                    },
                ),
            )
        }),
{
    law_tavily_results_are_told(json, results, parts);
}

/// A PipeLLM search that is served, at either address, ends with the results of the answer, the
/// first ten of them, one after the other and in order: of each its title, its link or else its
/// address, and its snippet or else its content. They are at the top of the answer, or under `data`
/// where there is no list at the top.
pub proof fn law_pipellm_search_tells_its_results(
    search: SearchView,
    reply: ReplyView,
    json: JsonTree,
    results: Seq<JsonTree>,
    parts: Seq<Seq<char>>,
)
    requires
        search.provider is Pipellm,
        reply matches ReplyView::Received { status, body, .. } && status / 100 == 2
            && parsed_json(body) == Ok::<JsonTree, Seq<char>>(json),
        results.len() > 0,
        JsonTree::List(results) == (if field(json, "organic"@) is List {
            field(json, "organic"@)
        } else {
            field(field(json, "data"@), "organic"@)
        }),
        parts.len() == ten_at_most(results.len()),
        forall|i: int|
            0 <= i < parts.len() ==> #[trigger] parts[i] == "- **"@ + text_or(
                field(results[i], "title"@),
                "(no title)"@,
            ) + "** <"@ + text_or(
                field(results[i], "link"@),
                text_or(field(results[i], "url"@), ""@),
            ) + ">\n  "@ + text_or(
                field(results[i], "snippet"@),
                text_or(field(results[i], "content"@), ""@),
            ) + "\n"@,
    ensures
        step_of(search, reply) == StepView::Done(Ok(chained(parts))),
{
    law_pipellm_results_are_told(json, results, parts);
}

/// A PipeLLM search that is served with an answer without results tells that there are none.
pub proof fn law_pipellm_search_tells_of_no_results(
    search: SearchView,
    reply: ReplyView,
    json: JsonTree,
)
    requires
        search.provider is Pipellm,
        reply matches ReplyView::Received { status, body, .. } && status / 100 == 2
            && parsed_json(body) == Ok::<JsonTree, Seq<char>>(json),
        ({
            let results = if field(json, "organic"@) is List {
                field(json, "organic"@)
            } else {
                field(field(json, "data"@), "organic"@)
            };
            !(results is List) || results->List_0.len() == 0
        }),
    ensures
        step_of(search, reply) == StepView::Done(Ok("No results found."@)),
{
    law_pipellm_tells_where_there_are_no_results(json);
}

/// A request that could not be sent, or had no answer, ends a search with the client's failure
/// behind the search's own. At the first of two addresses the search goes on instead, at the second
/// and otherwise as it was; from there it ends with the client's words alone.
pub proof fn law_failed_request_is_told(search: SearchView, error: ErrorView)
    ensures
        ({
            let step = step_of(search, ReplyView::Failed { error });
            match search.provider {
                Provider::Brave => step matches StepView::Done(Err(told)) && told.message
                    == "brave search request failed"@ && told.causes == seq![error.message]
                    + error.causes,
                Provider::Tavily => step matches StepView::Done(Err(told)) && told.message
                    == "tavily search request failed"@ && told.causes == seq![error.message]
                    + error.causes,
                Provider::Pipellm(Domain::First) => step == StepView::Next(
                    SearchView {
                        provider: Provider::Pipellm(Domain::Second),
                        query: search.query,
                        api_key: search.api_key,
                        kind: search.kind,
                        freshness: search.freshness,
                        search_depth: search.search_depth,
                    },
                ),
                Provider::Pipellm(Domain::Second) => step matches StepView::Done(Err(told))
                    && told.message == "pipellm search failed: "@ + error.message
                    && told.causes.len() == 0,
            }
        }),
{
}

/// An answer that could not be read ends a search as one that could not be parsed, with the
/// client's failure behind that. No other address is asked.
pub proof fn law_unreadable_answer_is_told(search: SearchView, error: ErrorView)
    ensures
        ({
            let step = step_of(search, ReplyView::Unread { error });
            &&& step matches StepView::Done(Err(told))
            &&& told.message == (match search.provider {
                Provider::Brave => "parse brave response"@,
                Provider::Tavily => "parse tavily response"@,
                Provider::Pipellm(_) => "parse pipellm response"@,
            })
            &&& told.causes == seq![error.message] + error.causes
        }),
{
}

/// An answer with success that is no JSON ends a search as one that could not be parsed, with the
/// client's words and the parser's behind that. No other address is asked.
pub proof fn law_undecodable_answer_is_told(search: SearchView, reply: ReplyView)
    requires
        reply matches ReplyView::Received { status, body, .. } && status / 100 == 2
            && parsed_json(body) is Err,
    ensures
        step_of(search, reply) matches StepView::Done(Err(told)) && told.message == (
        match search.provider {
            Provider::Brave => "parse brave response"@,
            Provider::Tavily => "parse tavily response"@,
            Provider::Pipellm(_) => "parse pipellm response"@,
        }) && told.causes == seq![reply->undecodable, parsed_json(reply->body)->Err_0],
{
}

/// A refusal ends a search with the service's status and the beginning of what it said, 300
/// characters or all. At the first of two addresses the search goes on instead, at the second and
/// otherwise as it was; from there the refusal names that address.
pub proof fn law_refusal_is_told(search: SearchView, reply: ReplyView, said: Seq<char>)
    requires
        reply matches ReplyView::Received { status, body, .. } && status / 100 != 2
            && said.is_prefix_of(readable(body)) && said.len() == (if readable(body).len() < 300 {
            readable(body).len()
        } else {
            300
        }),
    ensures
        match search.provider {
            Provider::Brave => step_of(search, reply) matches StepView::Done(Err(told))
                && told.message == "brave search returned "@ + reply->status_text + ": "@ + said
                && told.causes.len() == 0,
            Provider::Tavily => step_of(search, reply) matches StepView::Done(Err(told))
                && told.message == "tavily search returned "@ + reply->status_text + ": "@ + said
                && told.causes.len() == 0,
            Provider::Pipellm(Domain::First) => step_of(search, reply) == StepView::Next(
                SearchView {
                    provider: Provider::Pipellm(Domain::Second),
                    query: search.query,
                    api_key: search.api_key,
                    kind: search.kind,
                    freshness: search.freshness,
                    search_depth: search.search_depth,
                },
            ),
            Provider::Pipellm(Domain::Second) => step_of(search, reply) matches StepView::Done(
                Err(told),
            ) && told.message == "pipellm search failed: "@ + reply->status_text
                + " from https://api.pipellm.com"@ + ": "@ + said && told.causes.len() == 0,
        },
{
    let status_text = reply->status_text;
    let body = readable(reply->body);
    reveal_strlit("");
    law_refusal_tells_the_beginning(status_text, ""@, body, said);
    assert("brave search returned "@ + (status_text + ""@ + ": "@ + said)
        =~= "brave search returned "@ + status_text + ": "@ + said);
    assert("tavily search returned "@ + (status_text + ""@ + ": "@ + said)
        =~= "tavily search returned "@ + status_text + ": "@ + said);
    let between = " from "@ + "https://api.pipellm.com"@;
    law_refusal_tells_the_beginning(status_text, between, body, said);
    reveal_strlit(" from ");
    reveal_strlit("https://api.pipellm.com");
    reveal_strlit(" from https://api.pipellm.com");
    assert(between =~= " from https://api.pipellm.com"@);
    assert("pipellm search failed: "@ + (status_text + between + ": "@ + said)
        =~= "pipellm search failed: "@ + status_text + " from https://api.pipellm.com"@ + ": "@
        + said);
}

/// A step of a search at a service with one address is the outcome of the reply, and at PipeLLM it
/// is what the attempt at the address came to.
pub proof fn law_step_is_what_the_reply_came_to(
    search: SearchView,
    reply: ReplyView,
    domain: Domain,
)
    ensures
        search.provider == Provider::Brave ==> step_of(search, reply) == StepView::Done(
            brave_outcome(search.kind, reply),
        ),
        search.provider == Provider::Tavily ==> step_of(search, reply) == StepView::Done(
            tavily_outcome(reply),
        ),
        search.provider == Provider::Pipellm(domain) ==> (pipellm_attempt_spec(
            domain,
            reply,
        ) matches AttemptView::Settled(result) ==> step_of(search, reply) == StepView::Done(
            result,
        )),
        search.provider == Provider::Pipellm(domain) ==> (pipellm_attempt_spec(
            domain,
            reply,
        ) is Unserved <==> reply is Failed || (reply is Received && reply->status / 100 != 2)),
{
}

/// A step is seen as the outcome or the search that it is.
pub proof fn law_step_is_seen_as_what_it_is(step: Step)
    ensures
        step matches Step::Done(result) ==> step@ == StepView::Done(outcome(result)),
        step matches Step::Next(search) ==> step@ == StepView::Next(search@),
{
}

} // verus!
