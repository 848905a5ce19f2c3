//! Requests to a search service and its replies, as plain data. Sending is left to the caller.
use vstd::prelude::*;

use crate::error::{failure, failure_behind, ErrorView, ToolError};
use crate::json::{parsed_json, tree, Json, JsonTree};
use crate::text::{first_chars, law_first_chars_are_a_beginning, optional_view, take_chars};

verus! {

/// A request over HTTP.
#[derive(Debug)]
pub struct WebRequest {
    /// Whether it posts; otherwise it gets.
    pub post: bool,
    /// The address, without the query.
    pub url: String,
    /// The names and values of the query.
    pub query: Vec<(String, String)>,
    /// The names and values of the headers, but for the authorization.
    pub headers: Vec<(String, String)>,
    /// The token of a bearer authorization.
    pub bearer: Option<String>,
    /// What is posted, as JSON.
    pub body: Option<Json>,
}

/// What a request says.
pub struct RequestView {
    pub post: bool,
    pub url: Seq<char>,
    pub query: Seq<(Seq<char>, Seq<char>)>,
    pub headers: Seq<(Seq<char>, Seq<char>)>,
    pub bearer: Option<Seq<char>>,
    pub body: Option<JsonTree>,
}

/// Pairs of texts as pairs of sequences of characters.
pub open spec fn pair_views(pairs: Seq<(String, String)>) -> Seq<(Seq<char>, Seq<char>)> {
    pairs.map_values(|p: (String, String)| (p.0@, p.1@))
}

impl View for WebRequest {
    type V = RequestView;

    open spec fn view(&self) -> RequestView {
        RequestView {
            post: self.post,
            url: self.url@,
            query: pair_views(self.query@),
            headers: pair_views(self.headers@),
            bearer: optional_view(self.bearer),
            body: match self.body {
                Some(json) => Some(tree(json)),
                None => None,
            },
        }
    }
}

/// What came of a request.
#[derive(Debug)]
pub enum Reply {
    /// It could not be sent, or no answer came.
    Failed {
        /// Why, as the client tells it.
        error: ToolError,
    },
    /// An answer with a status of success came, and its body could not be read.
    Unread {
        /// Why, as the client tells it.
        error: ToolError,
    },
    /// An answer came.
    Received {
        /// The status code.
        status: u16,
        /// The status code with its reason, such as `404 Not Found`.
        status_text: String,
        /// The body.
        body: Vec<u8>,
        /// The words that the client has for a body that it cannot decode.
        undecodable: String,
    },
}

/// What came of a request, as values.
pub enum ReplyView {
    Failed { error: ErrorView },
    Unread { error: ErrorView },
    Received { status: u16, status_text: Seq<char>, body: Seq<u8>, undecodable: Seq<char> },
}

impl View for Reply {
    type V = ReplyView;

    open spec fn view(&self) -> ReplyView {
        match self {
            Reply::Failed { error } => ReplyView::Failed { error: error@ },
            Reply::Unread { error } => ReplyView::Unread { error: error@ },
            Reply::Received { status, status_text, body, undecodable } => ReplyView::Received {
                status: *status,
                status_text: status_text@,
                body: body@,
                undecodable: undecodable@,
            },
        }
    }
}

/// Whether a status code tells of success.
pub open spec fn success(status: u16) -> bool {
    200 <= status < 300
}

/// Whether a status code tells of success.
pub fn is_success(status: u16) -> (yes: bool)
    ensures
        yes == success(status),
{
    200 <= status && status < 300
}

/// The JSON in a body, or the client's failure to decode it, with the parser's behind it.
pub open spec fn decoded(body: Seq<u8>, undecodable: Seq<char>) -> Result<JsonTree, ErrorView> {
    match parsed_json(body) {
        Ok(json) => Ok(json),
        Err(words) => Err(failure_behind(undecodable, failure(words))),
    }
}

/// The JSON in a body, or the client's failure to decode it (see [`decoded`]).
pub fn decode(body: &[u8], undecodable: &str) -> (result: Result<Json, ToolError>)
    ensures
        match result {
            Ok(json) => decoded(body@, undecodable@) == Ok::<JsonTree, ErrorView>(tree(json)),
            Err(error) => decoded(body@, undecodable@) == Err::<JsonTree, ErrorView>(error@),
        },
{
    match Json::parse(body) {
        Ok(json) => Ok(json),
        Err(words) => Err(ToolError::with_cause(undecodable, &ToolError::new(words.as_str()))),
    }
}

/// How many characters of a refusal are told.
pub const MAX_REFUSAL_CHARS: usize = 300;

/// How many results are told.
pub const MAX_RESULTS: usize = 10;

/// What a service said when it refused: its status, then the beginning of the body.
pub open spec fn refusal(status_text: Seq<char>, between: Seq<char>, body: Seq<char>) -> Seq<char> {
    status_text + between + ": "@ + first_chars(body, MAX_REFUSAL_CHARS as nat)
}

/// What a service said when it refused (see [`refusal`]).
pub fn refusal_text(status_text: &str, between: &str, body: &str) -> (text: String)
    ensures
        text@ == refusal(status_text@, between@, body@),
{
    let mut text = status_text.to_owned();
    text.append(between);
    text.append(": ");
    text.append(take_chars(body, MAX_REFUSAL_CHARS).as_str());
    text
}

/// One result: its title and address, then a line on what it is about.
pub open spec fn entry(title: Seq<char>, url: Seq<char>, about: Seq<char>) -> Seq<char> {
    "- **"@ + title + "** <"@ + url + ">\n  "@ + about + "\n"@
}

/// Adds one result (see [`entry`]).
pub fn push_entry(out: &mut String, title: &str, url: &str, about: &str)
    ensures
        final(out)@ == old(out)@ + entry(title@, url@, about@),
{
    let ghost before = out@;
    out.append("- **");
    out.append(title);
    out.append("** <");
    out.append(url);
    out.append(">\n  ");
    out.append(about);
    out.append("\n");
    assert(out@ =~= before + entry(title@, url@, about@));
}

/// The first results, as many as are told.
pub open spec fn told(results: Seq<JsonTree>) -> Seq<JsonTree> {
    if results.len() <= MAX_RESULTS {
        results
    } else {
        results.take(MAX_RESULTS as int)
    }
}

/// The items of a list that may be missing.
pub open spec fn or_none_of(items: Option<Seq<JsonTree>>) -> Seq<JsonTree> {
    match items {
        Some(l) => l,
        None => seq![],
    }
}

/// The text, or another where it is missing.
pub open spec fn or_else(text: Option<Seq<char>>, other: Seq<char>) -> Seq<char> {
    match text {
        Some(t) => t,
        None => other,
    }
}

// ---- Laws ----

/// What is told of the results is their beginning, ten of them at most, and all of them where there
/// are no more.
pub proof fn law_first_ten_results_are_told(results: Seq<JsonTree>)
    ensures
        told(results).is_prefix_of(results),
        told(results).len() <= 10,
        results.len() <= 10 ==> told(results) == results,
        results.len() > 10 ==> told(results).len() == 10,
{
}

/// A request is seen as what its fields hold, one for one.
pub proof fn law_request_is_seen_field_by_field(request: WebRequest)
    ensures
        request@.post == request.post,
        request@.url == request.url@,
        request@.query.len() == request.query@.len(),
        forall|i: int|
            0 <= i < request.query@.len() ==> #[trigger] request@.query[i] == (
                request.query@[i].0@,
                request.query@[i].1@,
            ),
        request@.headers.len() == request.headers@.len(),
        forall|i: int|
            0 <= i < request.headers@.len() ==> #[trigger] request@.headers[i] == (
                request.headers@[i].0@,
                request.headers@[i].1@,
            ),
        request.bearer matches Some(token) ==> request@.bearer == Some(token@),
        request.bearer is None ==> request@.bearer is None,
        request.body matches Some(json) ==> request@.body == Some(tree(json)),
        request.body is None ==> request@.body is None,
{
}

/// A reply is seen as what it is and what its fields hold.
pub proof fn law_reply_is_seen_field_by_field(reply: Reply)
    ensures
        reply matches Reply::Failed { error } ==> reply@ == (ReplyView::Failed { error: error@ }),
        reply matches Reply::Unread { error } ==> reply@ == (ReplyView::Unread { error: error@ }),
        reply matches Reply::Received { status, status_text, body, undecodable } ==> reply@ == (
        ReplyView::Received {
            status,
            status_text: status_text@,
            body: body@,
            undecodable: undecodable@,
        }),
{
}

/// Success is the statuses from 200 to 299.
pub proof fn law_success_is_the_two_hundreds(status: u16)
    ensures
        success(status) <==> status / 100 == 2,
{
}

/// A body is decoded to the JSON that it spells. One that spells none gives the client's words, and
/// behind them the parser's.
pub proof fn law_body_is_decoded_as_it_parses(body: Seq<u8>, undecodable: Seq<char>)
    ensures
        match parsed_json(body) {
            Ok(json) => decoded(body, undecodable) == Ok::<JsonTree, ErrorView>(json),
            Err(words) => decoded(body, undecodable) is Err && decoded(
                body,
                undecodable,
            )->Err_0.message == undecodable && decoded(body, undecodable)->Err_0.causes == seq![
                words,
            ],
        },
{
}

/// A refusal is told by the status, what goes between, a colon, and the beginning of what the
/// service said: 300 characters of it, or all where there are fewer.
pub proof fn law_refusal_tells_the_beginning(
    status_text: Seq<char>,
    between: Seq<char>,
    body: Seq<char>,
    told: Seq<char>,
)
    requires
        told.is_prefix_of(body),
        told.len() == (if body.len() < 300 {
            body.len()
        } else {
            300
        }),
    ensures
        refusal(status_text, between, body) == status_text + between + ": "@ + told,
{
    law_first_chars_are_a_beginning(body, MAX_REFUSAL_CHARS as nat);
    assert(told =~= body.take(told.len() as int));
    assert(first_chars(body, MAX_REFUSAL_CHARS as nat) =~= told);
}

/// A result is told by its title in bold, its address in angle brackets and, on a line of its own,
/// what it is about.
pub proof fn law_entry_tells_title_address_and_content(
    title: Seq<char>,
    url: Seq<char>,
    about: Seq<char>,
)
    ensures
        entry(title, url, about) == "- **"@ + title + "** <"@ + url + ">\n  "@ + about + "\n"@,
{
}

/// The text, where the value is one, and else another.
pub open spec fn text_or(json: JsonTree, other: Seq<char>) -> Seq<char> {
    match json {
        JsonTree::Text(text) => text,
        _ => other,
    }
}

/// How many of so many results are told: ten at most.
pub open spec fn ten_at_most(n: nat) -> nat {
    if n < 10 {
        n
    } else {
        10
    }
}

} // verus!
