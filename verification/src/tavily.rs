//! The Tavily search service.
use vstd::prelude::*;

use crate::error::{failure, failure_behind, outcome, ErrorView, ToolError};
use crate::json::{as_list, as_text, field, member, said, tree, trees, Json, JsonTree};
use crate::text::{
    chained, decimal, decimal_text, law_decimal_grows_digit_by_digit,
    law_decimal_spells_the_number, law_small_number_is_read_back,
    lossy, optional_str, parse_small_number, readable, same_text, small_number,
};
use crate::web::{
    decode, decoded, entry, is_success, or_else, or_none_of, push_entry, refusal, refusal_text,
    success, ten_at_most, text_or, told, Reply, ReplyView, RequestView, WebRequest, MAX_RESULTS,
};

verus! {

/// How many days back a freshness reaches: a day, a week, a month, a year, or the number that it
/// spells. What is none of these counts as a week.
pub open spec fn freshness_days_spec(freshness: Seq<char>) -> u32 {
    if freshness == "pd"@ {
        1
    } else if freshness == "pw"@ {
        7
    } else if freshness == "pm"@ {
        31
    } else if freshness == "py"@ {
        365
    } else {
        match small_number(freshness) {
            Some(days) => days,
            None => 7,
        }
    }
}

/// How many days back a freshness reaches (see [`freshness_days_spec`]).
pub fn freshness_days(freshness: &str) -> (days: u32)
    ensures
        days == freshness_days_spec(freshness@),
{
    if same_text(freshness, "pd") {
        1
    } else if same_text(freshness, "pw") {
        7
    } else if same_text(freshness, "pm") {
        31
    } else if same_text(freshness, "py") {
        365
    } else {
        match parse_small_number(freshness) {
            Some(days) => days,
            None => 7,
        }
    }
}

/// Whether the kind of search is a topic that the service knows.
pub open spec fn is_topic(kind: Seq<char>) -> bool {
    kind == "news"@ || kind == "finance"@
}

/// The members of what is posted.
pub open spec fn tavily_members(
    query: Seq<char>,
    kind: Option<Seq<char>>,
    freshness: Option<Seq<char>>,
    search_depth: Option<Seq<char>>,
) -> Seq<(Seq<char>, JsonTree)> {
    seq![
        ("query"@, JsonTree::Text(query)),
        ("max_results"@, JsonTree::Number(decimal(MAX_RESULTS as nat))),
        ("include_answer"@, JsonTree::Bool(true)),
    ] + (if kind is Some && is_topic(kind->0) {
        seq![("topic"@, JsonTree::Text(kind->0))]
    } else {
        seq![]
    }) + (match search_depth {
        Some(depth) => seq![("search_depth"@, JsonTree::Text(depth))],
        None => seq![],
    }) + (match freshness {
        Some(f) => seq![("days"@, JsonTree::Number(decimal(freshness_days_spec(f) as nat)))],
        None => seq![],
    })
}

/// The request of a search.
pub open spec fn tavily_request_spec(
    query: Seq<char>,
    api_key: Seq<char>,
    kind: Option<Seq<char>>,
    freshness: Option<Seq<char>>,
    search_depth: Option<Seq<char>>,
) -> RequestView {
    RequestView {
        post: true,
        url: "https://api.tavily.com/search"@,
        query: seq![],
        headers: seq![],
        bearer: Some(api_key),
        body: Some(JsonTree::Object(tavily_members(query, kind, freshness, search_depth))),
    }
}

/// Adds a member.
fn push_member(members: &mut Vec<(String, Json)>, key: &str, value: Json)
    ensures
        said(final(members)@) == said(old(members)@).push((key@, tree(value))),
{
    members.push((key.to_owned(), value));
    assert(said(members@) =~= said(old(members)@).push((key@, tree(value))));
}

/// The request of a search (see [`tavily_request_spec`]).
pub fn tavily_request(
    query: &str,
    api_key: &str,
    kind: Option<&str>,
    freshness: Option<&str>,
    search_depth: Option<&str>,
) -> (request: WebRequest)
    ensures
        request@ == tavily_request_spec(
            query@,
            api_key@,
            optional_str(kind),
            optional_str(freshness),
            optional_str(search_depth),
        ),
{
    let mut members: Vec<(String, Json)> = Vec::new();
    push_member(&mut members, "query", Json::Text(query.to_owned()));
    push_member(&mut members, "max_results", Json::Number(decimal_text(MAX_RESULTS as u128)));
    push_member(&mut members, "include_answer", Json::Bool(true));
    if let Some(k) = kind {
        if same_text(k, "news") || same_text(k, "finance") {
            push_member(&mut members, "topic", Json::Text(k.to_owned()));
        }
    }
    if let Some(depth) = search_depth {
        push_member(&mut members, "search_depth", Json::Text(depth.to_owned()));
    }
    if let Some(f) = freshness {
        let days = freshness_days(f);
        push_member(&mut members, "days", Json::Number(decimal_text(days as u128)));
    }
    let ghost wanted = tavily_members(
        query@,
        optional_str(kind),
        optional_str(freshness),
        optional_str(search_depth),
    );
    assert(said(members@) =~= wanted);
    let body = Json::Object(members);
    assert(tree(body)->Object_0 =~= said(members@));
    let request = WebRequest {
        post: true,
        url: "https://api.tavily.com/search".to_owned(),
        query: Vec::new(),
        headers: Vec::new(),
        bearer: Some(api_key.to_owned()),
        body: Some(body),
    };
    assert(request@.query =~= seq![]);
    assert(request@.headers =~= seq![]);
    request
}

/// One result.
pub open spec fn tavily_entry(result: JsonTree) -> Seq<char> {
    entry(
        or_else(as_text(field(result, "title"@)), "(no title)"@),
        or_else(as_text(field(result, "url"@)), ""@),
        or_else(as_text(field(result, "content"@)), ""@),
    )
}

/// The answer that the service itself gives, if it gives one.
pub open spec fn tavily_answer(json: JsonTree) -> Seq<char> {
    match as_text(field(json, "answer"@)) {
        Some(answer) => if answer.len() > 0 {
            "**Answer:** "@ + answer + "\n\n"@
        } else {
            seq![]
        },
        None => seq![],
    }
}

/// What is told of the answer to a search.
pub open spec fn tavily_report_spec(json: JsonTree) -> Seq<char> {
    let results = or_none_of(as_list(field(json, "results"@)));
    let answer = tavily_answer(json);
    if results.len() == 0 && answer.len() == 0 {
        "No results found."@
    } else {
        answer + chained(told(results).map_values(|result: JsonTree| tavily_entry(result)))
    }
}

/// Adds one result (see [`tavily_entry`]).
fn push_result(out: &mut String, result: &Json)
    ensures
        final(out)@ == old(out)@ + tavily_entry(tree(*result)),
{
    let title = match result.text_at("title") {
        Some(t) => t,
        None => "(no title)",
    };
    let url = match result.text_at("url") {
        Some(t) => t,
        None => "",
    };
    let about = match result.text_at("content") {
        Some(t) => t,
        None => "",
    };
    push_entry(out, title, url, about);
}

/// What is told of the answer to a search (see [`tavily_report_spec`]).
pub fn tavily_report(json: &Json) -> (report: String)
    ensures
        report@ == tavily_report_spec(tree(*json)),
{
    let ghost results = or_none_of(as_list(field(tree(*json), "results"@)));
    let ghost answer_line = tavily_answer(tree(*json));
    let ghost entries = told(results).map_values(|result: JsonTree| tavily_entry(result));
    let mut out = String::new();
    if let Some(answer) = json.text_at("answer") {
        if !answer.is_empty() {
            out.append("**Answer:** ");
            out.append(answer);
            out.append("\n\n");
        }
    }
    assert(out@ =~= answer_line);
    let empty: Vec<Json> = Vec::new();
    let all = match json.list_at("results") {
        Some(all) => all,
        None => &empty,
    };
    assert(results =~= trees(all@));
    if all.len() == 0 && out.as_str().is_empty() {
        return "No results found.".to_owned();
    }
    let n: usize = if all.len() < MAX_RESULTS { all.len() } else { MAX_RESULTS };
    let mut i: usize = 0;
    assert(out@ =~= answer_line + chained(entries.take(0)));
    while i < n
        invariant
            i <= n <= all.len(),
            n == entries.len(),
            results == trees(all@),
            entries == told(results).map_values(|result: JsonTree| tavily_entry(result)),
            out@ == answer_line + chained(entries.take(i as int)),
        decreases n - i,
    {
        push_result(&mut out, &all[i]);
        assert(entries[i as int] == tavily_entry(tree(all@[i as int])));
        assert(entries.take(i + 1).drop_last() == entries.take(i as int));
        i = i + 1;
        assert(out@ =~= answer_line + chained(entries.take(i as int)));
    }
    assert(entries.take(n as int) == entries);
    out
}

/// The outcome of a search, by what came of the request.
pub open spec fn tavily_outcome(reply: ReplyView) -> Result<Seq<char>, ErrorView> {
    match reply {
        ReplyView::Failed { error } => Err(
            failure_behind("tavily search request failed"@, error),
        ),
        ReplyView::Unread { error } => Err(failure_behind("parse tavily response"@, error)),
        ReplyView::Received { status, status_text, body, undecodable } => if !success(status) {
            Err(
                failure("tavily search returned "@ + refusal(status_text, ""@, readable(body))),
            )
        } else {
            match decoded(body, undecodable) {
                Ok(json) => Ok(tavily_report_spec(json)),
                Err(error) => Err(failure_behind("parse tavily response"@, error)),
            }
        },
    }
}

/// The outcome of a search, by what came of the request (see [`tavily_outcome`]).
pub fn tavily_reply(reply: &Reply) -> (result: Result<String, ToolError>)
    ensures
        outcome(result) == tavily_outcome(reply@),
{
    match reply {
        Reply::Failed { error } => Err(
            ToolError::with_cause("tavily search request failed", error),
        ),
        Reply::Unread { error } => Err(ToolError::with_cause("parse tavily response", error)),
        Reply::Received { status, status_text, body, undecodable } => {
            if !is_success(*status) {
                let text = lossy(body.as_slice());
                let mut message = "tavily search returned ".to_owned();
                message.append(refusal_text(status_text.as_str(), "", text.as_str()).as_str());
                return Err(ToolError::new(message.as_str()));
            }
            match decode(body.as_slice(), undecodable.as_str()) {
                Ok(json) => Ok(tavily_report(&json)),
                Err(error) => Err(ToolError::with_cause("parse tavily response", &error)),
            }
        },
    }
}

// ---- Laws ----

/// A freshness that spells a number of days reaches back just so many.
pub proof fn law_numeric_freshness_is_that_many_days(days: u32)
    ensures
        freshness_days_spec(decimal(days as nat)) == days,
{
    law_small_number_is_read_back(days);
    law_decimal_spells_the_number(days as nat);
    let s = decimal(days as nat);
    assert('0' <= s[0] <= '9');
    reveal_strlit("pd");
    reveal_strlit("pw");
    reveal_strlit("pm");
    reveal_strlit("py");
    assert("pd"@[0] == 'p' && "pw"@[0] == 'p' && "pm"@[0] == 'p' && "py"@[0] == 'p');
}

/// Every search asks the service for as many results as are told, and for an answer of its own.
pub proof fn law_request_asks_for_what_is_told(
    query: Seq<char>,
    kind: Option<Seq<char>>,
    freshness: Option<Seq<char>>,
    search_depth: Option<Seq<char>>,
)
    ensures
        ({
            let body = JsonTree::Object(tavily_members(query, kind, freshness, search_depth));
            &&& field(body, "query"@) == JsonTree::Text(query)
            &&& field(body, "max_results"@) == JsonTree::Number(decimal(MAX_RESULTS as nat))
            &&& field(body, "include_answer"@) == JsonTree::Bool(true)
        }),
{
    let members = tavily_members(query, kind, freshness, search_depth);
    reveal_strlit("query");
    reveal_strlit("max_results");
    reveal_strlit("include_answer");
    assert("query"@.len() != "max_results"@.len());
    assert("query"@.len() != "include_answer"@.len());
    assert("max_results"@.len() != "include_answer"@.len());
    reveal_with_fuel(member, 4);
    assert(members.skip(1)[0] == members[1]);
    assert(members.skip(1).skip(1)[0] == members[2]);
}

/// The words for a day, a week, a month and a year reach back so many days. Any other freshness
/// reaches back as many as it spells, and a week where it spells no number.
pub proof fn law_freshness_words_are_days(freshness: Seq<char>)
    ensures
        freshness_days_spec("pd"@) == 1,
        freshness_days_spec("pw"@) == 7,
        freshness_days_spec("pm"@) == 31,
        freshness_days_spec("py"@) == 365,
        freshness != "pd"@ && freshness != "pm"@ && freshness != "py"@ ==> freshness_days_spec(
            freshness,
        ) == (match small_number(freshness) {
            Some(days) => days,
            None => 7,
        }),
{
    reveal_strlit("pd");
    reveal_strlit("pw");
    reveal_strlit("pm");
    reveal_strlit("py");
    assert("pd"@[1] == 'd' && "pw"@[1] == 'w' && "pm"@[1] == 'm' && "py"@[1] == 'y');
    assert("pw"@[0] == 'p');
    assert(small_number("pw"@) is None) by {
        assert(!('0' <= "pw"@[0] <= '9'));
    }
}

/// The request is posted to the one address, with the key as the bearer token. What is posted asks
/// for the query, for ten results and for an answer; for news or finance where the kind of search
/// is one of these; for the depth, and for so many days back, where these are given; and for
/// nothing else.
pub proof fn law_tavily_request_asks_for_the_query(
    query: Seq<char>,
    api_key: Seq<char>,
    kind: Option<Seq<char>>,
    freshness: Option<Seq<char>>,
    search_depth: Option<Seq<char>>,
)
    ensures
        ({
            let request = tavily_request_spec(query, api_key, kind, freshness, search_depth);
            let members = request.body->0->Object_0;
            let topic = kind == Some("news"@) || kind == Some("finance"@);
            let topics: int = if topic {
                1
            } else {
                0
            };
            let depths: int = if search_depth is Some {
                1
            } else {
                0
            };
            let days: int = if freshness is Some {
                1
            } else {
                0
            };
            &&& request.post
            &&& request.url == "https://api.tavily.com/search"@
            &&& request.query.len() == 0
            &&& request.headers.len() == 0
            &&& request.bearer == Some(api_key)
            &&& request.body matches Some(JsonTree::Object(_))
            &&& members.len() == 3 + topics + depths + days
            &&& members[0] == ("query"@, JsonTree::Text(query))
            &&& members[1] == ("max_results"@, JsonTree::Number("10"@))
            &&& members[2] == ("include_answer"@, JsonTree::Bool(true))
            &&& topic ==> members[3] == ("topic"@, JsonTree::Text(kind->0))
            &&& search_depth matches Some(depth) ==> members[3 + topics] == (
                "search_depth"@,
                JsonTree::Text(depth),
            )
            &&& freshness matches Some(f) ==> members[3 + topics + depths] == (
                "days"@,
                JsonTree::Number(decimal(freshness_days_spec(f) as nat)),
            )
        }),
{
    reveal_strlit("10");
    law_decimal_grows_digit_by_digit(1, 0);
    law_decimal_grows_digit_by_digit(0, 1);
    assert(decimal(MAX_RESULTS as nat) =~= "10"@);
}

/// What is told of an answer is the service's own answer, where it gave one that is not empty, and
/// then the results, the first ten of them, one after the other and in order: of each its title,
/// its address and its content.
pub proof fn law_tavily_results_are_told(
    json: JsonTree,
    results: Seq<JsonTree>,
    parts: Seq<Seq<char>>,
)
    requires
        field(json, "results"@) == JsonTree::List(results) || (!(field(json, "results"@) is List)
            && results.len() == 0),
        parts.len() == ten_at_most(results.len()),
        forall|i: int|
            0 <= i < parts.len() ==> #[trigger] parts[i] == "- **"@ + text_or(
                field(results[i], "title"@),
                "(no title)"@,
            ) + "** <"@ + text_or(field(results[i], "url"@), ""@) + ">\n  "@ + text_or(
                field(results[i], "content"@),
                ""@,
            ) + "\n"@,
    ensures
        ({
            let answer = text_or(field(json, "answer"@), ""@);
            &&& answer.len() > 0 ==> tavily_report_spec(json) == "**Answer:** "@ + answer + "\n\n"@
                + chained(parts)
            &&& answer.len() == 0 && results.len() > 0 ==> tavily_report_spec(json) == chained(
                parts,
            )
            &&& answer.len() == 0 && results.len() == 0 ==> tavily_report_spec(json)
                == "No results found."@
        }),
{
    reveal_strlit("");
    reveal_strlit("**Answer:** ");
    assert(told(results).map_values(|result: JsonTree| tavily_entry(result)) =~= parts);
    let answer = text_or(field(json, "answer"@), ""@);
    if answer.len() == 0 {
        assert(tavily_answer(json).len() == 0);
        if results.len() > 0 {
            assert(tavily_report_spec(json) =~= chained(parts));
        }
    } else {
        assert(tavily_answer(json) == "**Answer:** "@ + answer + "\n\n"@);
    }
}

} // verus!
