//! The Brave search service.
use vstd::prelude::*;

use crate::error::{failure, failure_behind, outcome, ErrorView, ToolError};
use crate::json::{as_list, as_text, field, tree, trees, Json, JsonTree};
use crate::text::{chained, lossy, optional_str, readable, same_text};
use crate::web::{
    decode, decoded, entry, is_success, or_else, or_none_of, push_entry, refusal, refusal_text,
    success, ten_at_most, text_or, told, Reply, ReplyView, RequestView, WebRequest, MAX_RESULTS,
};

verus! {

/// How many of a result's further snippets are told.
pub const MAX_SNIPPETS: usize = 3;

/// Whether news are asked for.
pub open spec fn wants_news(kind: Option<Seq<char>>) -> bool {
    kind == Some("news"@)
}

/// Whether news are asked for.
pub(crate) fn asks_for_news(kind: Option<&str>) -> (yes: bool)
    ensures
        yes == wants_news(optional_str(kind)),
{
    match kind {
        Some(k) => same_text(k, "news"),
        None => false,
    }
}

/// The request of a search.
pub open spec fn brave_request_spec(
    query: Seq<char>,
    api_key: Seq<char>,
    kind: Option<Seq<char>>,
    freshness: Option<Seq<char>>,
) -> RequestView {
    RequestView {
        post: false,
        url: if wants_news(kind) {
            "https://api.search.brave.com/res/v1/news/search"@
        } else {
            "https://api.search.brave.com/res/v1/web/search"@
        },
        query: seq![("q"@, query), ("count"@, "10"@), ("extra_snippets"@, "true"@)] + (
        match freshness {
            Some(f) => seq![("freshness"@, f)],
            None => seq![],
        }),
        headers: seq![("X-Subscription-Token"@, api_key), ("Accept"@, "application/json"@)],
        bearer: None,
        body: None,
    }
}

/// The request of a search (see [`brave_request_spec`]).
pub fn brave_request(query: &str, api_key: &str, kind: Option<&str>, freshness: Option<&str>) -> (
request: WebRequest)
    ensures
        request@ == brave_request_spec(
            query@,
            api_key@,
            optional_str(kind),
            optional_str(freshness),
        ),
{
    let url = if asks_for_news(kind) {
        "https://api.search.brave.com/res/v1/news/search".to_owned()
    } else {
        "https://api.search.brave.com/res/v1/web/search".to_owned()
    };
    let mut pairs: Vec<(String, String)> = Vec::new();
    pairs.push(("q".to_owned(), query.to_owned()));
    pairs.push(("count".to_owned(), "10".to_owned()));
    pairs.push(("extra_snippets".to_owned(), "true".to_owned()));
    if let Some(f) = freshness {
        pairs.push(("freshness".to_owned(), f.to_owned()));
    }
    let mut headers: Vec<(String, String)> = Vec::new();
    headers.push(("X-Subscription-Token".to_owned(), api_key.to_owned()));
    headers.push(("Accept".to_owned(), "application/json".to_owned()));
    let request = WebRequest {
        post: false,
        url,
        query: pairs,
        headers,
        bearer: None,
        body: None,
    };
    proof {
        let spec_request = brave_request_spec(
            query@,
            api_key@,
            optional_str(kind),
            optional_str(freshness),
        );
        assert(request@.query =~= spec_request.query);
        assert(request@.headers =~= spec_request.headers);
    }
    request
}

/// The results in the answer to a search: news are at its top, others under `web`.
pub open spec fn brave_results(json: JsonTree, kind: Option<Seq<char>>) -> Seq<JsonTree> {
    or_none_of(
        as_list(
            field(
                if wants_news(kind) {
                    json
                } else {
                    field(json, "web"@)
                },
                "results"@,
            ),
        ),
    )
}

/// A further snippet of a result; what is no text is left out.
pub open spec fn snippet_line(snippet: JsonTree) -> Seq<char> {
    match as_text(snippet) {
        Some(text) => "  > "@ + text + "\n"@,
        None => seq![],
    }
}

/// The further snippets of a result, as many as are told.
pub open spec fn snippet_lines(result: JsonTree) -> Seq<char> {
    let all = or_none_of(as_list(field(result, "extra_snippets"@)));
    let few = if all.len() <= MAX_SNIPPETS {
        all
    } else {
        all.take(MAX_SNIPPETS as int)
    };
    chained(few.map_values(|snippet: JsonTree| snippet_line(snippet)))
}

/// One result with its further snippets.
pub open spec fn brave_entry(result: JsonTree) -> Seq<char> {
    entry(
        or_else(as_text(field(result, "title"@)), "(no title)"@),
        or_else(as_text(field(result, "url"@)), ""@),
        or_else(as_text(field(result, "description"@)), ""@),
    ) + snippet_lines(result)
}

/// What is told of the answer to a search.
pub open spec fn brave_report_spec(json: JsonTree, kind: Option<Seq<char>>) -> Seq<char> {
    let results = brave_results(json, kind);
    if results.len() == 0 {
        "No results found."@
    } else {
        chained(told(results).map_values(|result: JsonTree| brave_entry(result)))
    }
}

/// Adds the further snippets of a result (see [`snippet_lines`]).
fn push_snippets(out: &mut String, result: &Json)
    ensures
        final(out)@ == old(out)@ + snippet_lines(tree(*result)),
{
    let ghost before = out@;
    if let Some(extras) = result.list_at("extra_snippets") {
        let n: usize = if extras.len() < MAX_SNIPPETS { extras.len() } else { MAX_SNIPPETS };
        let ghost few = trees(extras@).take(n as int);
        let ghost all_lines = few.map_values(|snippet: JsonTree| snippet_line(snippet));
        let mut i: usize = 0;
        assert(all_lines.take(0) == Seq::<Seq<char>>::empty());
        assert(out@ =~= before + chained(all_lines.take(0)));
        while i < n
            invariant
                i <= n <= extras.len(),
                few == trees(extras@).take(n as int),
                all_lines == few.map_values(|snippet: JsonTree| snippet_line(snippet)),
                out@ == before + chained(all_lines.take(i as int)),
            decreases n - i,
        {
            let snippet = &extras[i];
            assert(few[i as int] == tree(*snippet));
            assert(all_lines[i as int] == snippet_line(tree(*snippet)));
            assert(all_lines.take(i + 1).drop_last() == all_lines.take(i as int));
            if let Json::Text(text) = snippet {
                out.append("  > ");
                out.append(text.as_str());
                out.append("\n");
            }
            i = i + 1;
            assert(out@ =~= before + chained(all_lines.take(i as int)));
        }
        assert(all_lines.take(n as int) == all_lines);
        assert(few == trees(extras@) || extras.len() > MAX_SNIPPETS);
    } else {
        assert(chained(Seq::<Seq<char>>::empty()) == Seq::<char>::empty());
    }
    assert(out@ =~= before + snippet_lines(tree(*result)));
}

/// Adds one result with its further snippets (see [`brave_entry`]).
fn push_result(out: &mut String, result: &Json)
    ensures
        final(out)@ == old(out)@ + brave_entry(tree(*result)),
{
    let ghost before = out@;
    let title = match result.text_at("title") {
        Some(t) => t,
        None => "(no title)",
    };
    let url = match result.text_at("url") {
        Some(t) => t,
        None => "",
    };
    let about = match result.text_at("description") {
        Some(t) => t,
        None => "",
    };
    push_entry(out, title, url, about);
    push_snippets(out, result);
    assert(out@ =~= before + brave_entry(tree(*result)));
}

/// What is told of the answer to a search (see [`brave_report_spec`]).
pub fn brave_report(json: &Json, kind: Option<&str>) -> (report: String)
    ensures
        report@ == brave_report_spec(tree(*json), optional_str(kind)),
{
    let found = if asks_for_news(kind) {
        json.list_at("results")
    } else {
        match json.get("web") {
            Some(web) => web.list_at("results"),
            None => None,
        }
    };
    let ghost results = brave_results(tree(*json), optional_str(kind));
    let all = match found {
        Some(all) => all,
        None => {
            return "No results found.".to_owned();
        },
    };
    assert(results == trees(all@));
    if all.len() == 0 {
        return "No results found.".to_owned();
    }
    let n: usize = if all.len() < MAX_RESULTS { all.len() } else { MAX_RESULTS };
    let ghost entries = told(results).map_values(|result: JsonTree| brave_entry(result));
    let mut out = String::new();
    let mut i: usize = 0;
    assert(out@ =~= chained(entries.take(0)));
    while i < n
        invariant
            i <= n <= all.len(),
            n == entries.len(),
            results == trees(all@),
            entries == told(results).map_values(|result: JsonTree| brave_entry(result)),
            out@ == chained(entries.take(i as int)),
        decreases n - i,
    {
        push_result(&mut out, &all[i]);
        assert(entries[i as int] == brave_entry(tree(all@[i as int])));
        assert(entries.take(i + 1).drop_last() == entries.take(i as int));
        i = i + 1;
    }
    assert(entries.take(n as int) == entries);
    out
}

/// The outcome of a search, by what came of the request.
pub open spec fn brave_outcome(kind: Option<Seq<char>>, reply: ReplyView) -> Result<
    Seq<char>,
    ErrorView,
> {
    match reply {
        ReplyView::Failed { error } => Err(
            failure_behind("brave search request failed"@, error),
        ),
        ReplyView::Unread { error } => Err(failure_behind("parse brave response"@, error)),
        ReplyView::Received { status, status_text, body, undecodable } => if !success(status) {
            Err(
                failure("brave search returned "@ + refusal(status_text, ""@, readable(body))),
            )
        } else {
            match decoded(body, undecodable) {
                Ok(json) => Ok(brave_report_spec(json, kind)),
                Err(error) => Err(failure_behind("parse brave response"@, error)),
            }
        },
    }
}

/// The outcome of a search, by what came of the request (see [`brave_outcome`]).
pub fn brave_reply(kind: Option<&str>, reply: &Reply) -> (result: Result<String, ToolError>)
    ensures
        outcome(result) == brave_outcome(optional_str(kind), reply@),
{
    match reply {
        Reply::Failed { error } => Err(
            ToolError::with_cause("brave search request failed", error),
        ),
        Reply::Unread { error } => Err(ToolError::with_cause("parse brave response", error)),
        Reply::Received { status, status_text, body, undecodable } => {
            if !is_success(*status) {
                let text = lossy(body.as_slice());
                let mut message = "brave search returned ".to_owned();
                message.append(refusal_text(status_text.as_str(), "", text.as_str()).as_str());
                return Err(ToolError::new(message.as_str()));
            }
            match decode(body.as_slice(), undecodable.as_str()) {
                Ok(json) => Ok(brave_report(&json, kind)),
                Err(error) => Err(ToolError::with_cause("parse brave response", &error)),
            }
        },
    }
}

// ---- Laws ----

/// A search gets the address for news exactly where its kind is news. It asks for the query, for
/// ten results and for further snippets, and for how fresh they are to be where that is given, in
/// so many words; the key goes into a header.
pub proof fn law_brave_request_asks_for_the_query(
    query: Seq<char>,
    api_key: Seq<char>,
    kind: Option<Seq<char>>,
    freshness: Option<Seq<char>>,
)
    ensures
        ({
            let request = brave_request_spec(query, api_key, kind, freshness);
            &&& !request.post
            &&& request.url == (if kind == Some("news"@) {
                "https://api.search.brave.com/res/v1/news/search"@
            } else {
                "https://api.search.brave.com/res/v1/web/search"@
            })
            &&& request.query.len() == (if freshness is Some {
                4nat
            } else {
                3
            })
            &&& request.query[0] == ("q"@, query)
            &&& request.query[1] == ("count"@, "10"@)
            &&& request.query[2] == ("extra_snippets"@, "true"@)
            &&& freshness matches Some(f) ==> request.query[3] == ("freshness"@, f)
            &&& request.headers == seq![
                ("X-Subscription-Token"@, api_key),
                ("Accept"@, "application/json"@),
            ]
            &&& request.bearer is None
            &&& request.body is None
        }),
{
}

/// The further snippets of a result are told one below the other, the first three of them, but for
/// those that are no text. Where there is no list of them, none is told.
pub proof fn law_three_snippets_are_told(
    result: JsonTree,
    snippets: Seq<JsonTree>,
    lines: Seq<Seq<char>>,
)
    requires
        lines.len() == (if snippets.len() < 3 {
            snippets.len()
        } else {
            3
        }),
        forall|i: int|
            0 <= i < lines.len() ==> #[trigger] lines[i] == (match snippets[i] {
                JsonTree::Text(text) => "  > "@ + text + "\n"@,
                _ => seq![],
            }),
    ensures
        field(result, "extra_snippets"@) == JsonTree::List(snippets) ==> snippet_lines(result)
            == chained(lines),
        !(field(result, "extra_snippets"@) is List) ==> snippet_lines(result).len() == 0,
{
    if field(result, "extra_snippets"@) == JsonTree::List(snippets) {
        let few = if snippets.len() <= MAX_SNIPPETS {
            snippets
        } else {
            snippets.take(MAX_SNIPPETS as int)
        };
        assert(few.map_values(|snippet: JsonTree| snippet_line(snippet)) =~= lines);
    }
    if !(field(result, "extra_snippets"@) is List) {
        let none = Seq::<JsonTree>::empty();
        assert(none.map_values(|snippet: JsonTree| snippet_line(snippet)) =~= Seq::<
            Seq<char>,
        >::empty());
    }
}

/// What is told of an answer is its results, the first ten of them, one after the other and in
/// order: of each its title, its address, its description and its further snippets. The results are
/// those at the top of the answer where the kind of search is news, and else those under `web`.
pub proof fn law_brave_results_are_told(
    json: JsonTree,
    kind: Option<Seq<char>>,
    results: Seq<JsonTree>,
    parts: Seq<Seq<char>>,
)
    requires
        results.len() > 0,
        JsonTree::List(results) == (if kind == Some("news"@) {
            field(json, "results"@)
        } else {
            field(field(json, "web"@), "results"@)
        }),
        parts.len() == ten_at_most(results.len()),
        forall|i: int|
            0 <= i < parts.len() ==> #[trigger] parts[i] == "- **"@ + text_or(
                field(results[i], "title"@),
                "(no title)"@,
            ) + "** <"@ + text_or(field(results[i], "url"@), ""@) + ">\n  "@ + text_or(
                field(results[i], "description"@),
                ""@,
            ) + "\n"@ + snippet_lines(results[i]),
    ensures
        brave_report_spec(json, kind) == chained(parts),
{
    assert(told(results).map_values(|result: JsonTree| brave_entry(result)) =~= parts);
}

/// Where there is no list of results, or an empty one, just that is told.
pub proof fn law_brave_tells_where_there_are_no_results(json: JsonTree, kind: Option<Seq<char>>)
    requires
        ({
            let results = if kind == Some("news"@) {
                field(json, "results"@)
            } else {
                field(field(json, "web"@), "results"@)
            };
            !(results is List) || results->List_0.len() == 0
        }),
    ensures
        brave_report_spec(json, kind) == "No results found."@,
{
}

} // verus!
