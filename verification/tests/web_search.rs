use kaku_tools::brave::{brave_reply, brave_report, brave_request};
use kaku_tools::error::ToolError;
use kaku_tools::json::Json;
use kaku_tools::pipellm::{pipellm_report, pipellm_request, Domain};
use kaku_tools::tavily::{freshness_days, tavily_reply, tavily_report, tavily_request};
use kaku_tools::web::{is_success, Reply, WebRequest};
use kaku_tools::web_search::{
    begin_web_search, exec_web_search, AssistantConfig, Provider, Step, WebSearch,
};

fn json(text: &str) -> Json {
    Json::parse(text.as_bytes()).unwrap()
}

fn received(status: u16, status_text: &str, body: &str) -> Reply {
    Reply::Received {
        status,
        status_text: status_text.to_string(),
        body: body.as_bytes().to_vec(),
        undecodable: "error decoding response body".to_string(),
    }
}

fn failed(error: &str) -> Reply {
    Reply::Failed { error: ToolError::new(error) }
}

fn unread(error: &str, cause: &str) -> Reply {
    Reply::Unread { error: ToolError::with_cause(error, &ToolError::new(cause)) }
}

fn pairs(list: &[(&str, &str)]) -> Vec<(String, String)> {
    list.iter().map(|(a, b)| (a.to_string(), b.to_string())).collect()
}

fn config(provider: Option<&str>, key: Option<&str>) -> AssistantConfig {
    AssistantConfig {
        web_search_provider: provider.map(|s| s.to_string()),
        web_search_api_key: key.map(|s| s.to_string()),
    }
}

#[test]
fn json_text_becomes_plain_data() {
    let j = json(r#"{"a": [null, true, 1.5, "x"], "b": {"c": "deep"}, "b2": 7}"#);
    let list = j.list_at("a").unwrap();
    assert_eq!(list.len(), 4);
    assert!(matches!(list[0], Json::Null));
    assert!(matches!(list[1], Json::Bool(true)));
    assert!(matches!(&list[2], Json::Number(n) if n == "1.5"));
    assert!(matches!(&list[3], Json::Text(t) if t == "x"));
    assert_eq!(j.get("b").unwrap().text_at("c"), Some("deep"));
    assert!(j.get("missing").is_none());
    assert!(j.text_at("a").is_none());
    assert!(j.list_at("b").is_none());
    assert!(list[0].get("a").is_none());
}

#[test]
fn later_members_replace_earlier_ones_when_parsed() {
    assert_eq!(json(r#"{"k": "1", "k": "2"}"#).text_at("k"), Some("2"));
}

#[test]
fn what_is_no_json_is_not_parsed() {
    assert!(Json::parse(b"").is_err());
    assert!(Json::parse(b"{").is_err());
    assert!(Json::parse(b"[1,]").is_err());
    assert!(Json::parse(b"[1] x").is_err());
    assert!(Json::parse(b"\"\xff\"").is_err());
    assert!(Json::parse(b" [1] ").is_ok());
}

#[test]
fn brave_requests() {
    let r = brave_request("rust", "KEY", None, None);
    assert!(!r.post);
    assert_eq!(r.url, "https://api.search.brave.com/res/v1/web/search");
    assert_eq!(
        r.query,
        pairs(&[("q", "rust"), ("count", "10"), ("extra_snippets", "true")])
    );
    assert_eq!(
        r.headers,
        pairs(&[("X-Subscription-Token", "KEY"), ("Accept", "application/json")])
    );
    assert!(r.bearer.is_none());
    assert!(r.body.is_none());
    let r = brave_request("rust", "KEY", Some("news"), Some("pw"));
    assert_eq!(r.url, "https://api.search.brave.com/res/v1/news/search");
    assert_eq!(r.query[3], ("freshness".to_string(), "pw".to_string()));
}

#[test]
fn brave_reports() {
    let body = r#"{"web": {"results": [
        {"title": "T", "url": "U", "description": "D",
         "extra_snippets": ["s1", 2, "s3", "s4"]},
        {"url": 5}
    ]}}"#;
    assert_eq!(
        brave_report(&json(body), None),
        "- **T** <U>\n  D\n  > s1\n  > s3\n- **(no title)** <>\n  \n"
    );
    assert_eq!(brave_report(&json(body), Some("news")), "No results found.");
    let news = r#"{"results": [{"title": "N"}]}"#;
    assert_eq!(brave_report(&json(news), Some("news")), "- **N** <>\n  \n");
    assert_eq!(brave_report(&json(news), Some("web")), "No results found.");
    assert_eq!(brave_report(&json("[]"), None), "No results found.");
}

#[test]
fn ten_results_are_told() {
    let many: Vec<String> = (0..12).map(|i| format!(r#"{{"title": "t{}"}}"#, i)).collect();
    let list = many.join(",");
    let reports = [
        brave_report(&json(&format!(r#"{{"results": [{}]}}"#, list)), Some("news")),
        tavily_report(&json(&format!(r#"{{"results": [{}]}}"#, list))),
        pipellm_report(&json(&format!(r#"{{"organic": [{}]}}"#, list))),
    ];
    for report in reports {
        assert_eq!(report.matches("- **").count(), 10);
        assert!(report.contains("- **t9**"));
        assert!(!report.contains("t10"));
    }
}

#[test]
fn brave_replies() {
    assert_eq!(
        brave_reply(None, &failed("no route")).unwrap_err().message,
        "brave search request failed"
    );
    assert_eq!(
        brave_reply(None, &received(429, "429 Too Many Requests", "slow down"))
            .unwrap_err()
            .message,
        "brave search returned 429 Too Many Requests: slow down"
    );
    assert_eq!(
        brave_reply(None, &received(500, "500 X", &"é".repeat(400))).unwrap_err().message,
        format!("brave search returned 500 X: {}", "é".repeat(300))
    );
    assert_eq!(
        brave_reply(None, &received(200, "200 OK", "<html>")).unwrap_err().message,
        "parse brave response"
    );
    assert_eq!(
        brave_reply(None, &received(200, "200 OK", "{}")).unwrap(),
        "No results found."
    );
}

#[test]
fn refusals_that_are_not_unicode_are_told_with_replacements() {
    let reply = Reply::Received {
        status: 404,
        status_text: "404 Not Found".to_string(),
        body: vec![b'n', 0xff],
        undecodable: String::new(),
    };
    assert_eq!(
        tavily_reply(&reply).unwrap_err().message,
        "tavily search returned 404 Not Found: n\u{fffd}"
    );
}

#[test]
fn success_is_the_two_hundreds() {
    assert!(!is_success(199));
    assert!(is_success(200));
    assert!(is_success(299));
    assert!(!is_success(300));
    assert!(!is_success(404));
}

#[test]
fn tavily_freshness() {
    assert_eq!(freshness_days("pd"), 1);
    assert_eq!(freshness_days("pw"), 7);
    assert_eq!(freshness_days("pm"), 31);
    assert_eq!(freshness_days("py"), 365);
    assert_eq!(freshness_days("14"), 14);
    assert_eq!(freshness_days("soon"), 7);
    assert_eq!(freshness_days("-3"), 7);
}

fn member_texts(r: &WebRequest) -> Vec<(String, String)> {
    match r.body.as_ref().unwrap() {
        Json::Object(members) => members
            .iter()
            .map(|(k, v)| {
                let text = match v {
                    Json::Text(t) => format!("{:?}", t),
                    Json::Number(n) => n.clone(),
                    Json::Bool(b) => format!("{}", b),
                    _ => panic!("unexpected"),
                };
                (k.clone(), text)
            })
            .collect(),
        _ => panic!("no object"),
    }
}

#[test]
fn tavily_requests() {
    let r = tavily_request("q", "KEY", None, None, None);
    assert!(r.post);
    assert_eq!(r.url, "https://api.tavily.com/search");
    assert!(r.query.is_empty());
    assert!(r.headers.is_empty());
    assert_eq!(r.bearer.as_deref(), Some("KEY"));
    assert_eq!(
        member_texts(&r),
        pairs(&[("query", "\"q\""), ("max_results", "10"), ("include_answer", "true")])
    );
    let r = tavily_request("q", "KEY", Some("finance"), Some("pm"), Some("advanced"));
    assert_eq!(
        member_texts(&r)[3..].to_vec(),
        pairs(&[("topic", "\"finance\""), ("search_depth", "\"advanced\""), ("days", "31")])
    );
    let r = tavily_request("q", "KEY", Some("deep"), None, None);
    assert_eq!(member_texts(&r).len(), 3);
}

#[test]
fn tavily_reports() {
    assert_eq!(
        tavily_report(&json(
            r#"{"answer": "42", "results": [{"title": "T", "url": "U", "content": "C"}]}"#
        )),
        "**Answer:** 42\n\n- **T** <U>\n  C\n"
    );
    assert_eq!(tavily_report(&json(r#"{"answer": "42"}"#)), "**Answer:** 42\n\n");
    assert_eq!(
        tavily_report(&json(r#"{"answer": "", "results": []}"#)),
        "No results found."
    );
    assert_eq!(
        tavily_reply(&failed("x")).unwrap_err().message,
        "tavily search request failed"
    );
    assert_eq!(
        tavily_reply(&received(200, "200 OK", "nope")).unwrap_err().message,
        "parse tavily response"
    );
    assert_eq!(
        tavily_reply(&received(201, "201 Created", r#"{"answer": "a"}"#)).unwrap(),
        "**Answer:** a\n\n"
    );
}

#[test]
fn pipellm_requests() {
    let r = pipellm_request("q", "KEY", Some("news"), Domain::First);
    assert!(!r.post);
    assert_eq!(r.url, "https://api.pipellm.ai/v1/websearch/search-news");
    assert_eq!(r.query, pairs(&[("q", "q")]));
    assert!(r.headers.is_empty());
    assert_eq!(r.bearer.as_deref(), Some("KEY"));
    assert!(r.body.is_none());
    assert_eq!(
        pipellm_request("q", "KEY", Some("deep"), Domain::Second).url,
        "https://api.pipellm.com/v1/websearch/search"
    );
    assert_eq!(
        pipellm_request("q", "KEY", None, Domain::First).url,
        "https://api.pipellm.ai/v1/websearch/simple-search"
    );
}

#[test]
fn pipellm_reports() {
    assert_eq!(
        pipellm_report(&json(
            r#"{"organic": [{"title": "T", "link": "L", "url": "U", "snippet": "S", "content": "C"},
                            {"url": "U", "content": "C"}]}"#
        )),
        "- **T** <L>\n  S\n- **(no title)** <U>\n  C\n"
    );
    assert_eq!(
        pipellm_report(&json(r#"{"data": {"organic": [{"title": "T"}]}}"#)),
        "- **T** <>\n  \n"
    );
    assert_eq!(
        pipellm_report(&json(r#"{"organic": [], "data": {"organic": [{"title": "T"}]}}"#)),
        "No results found."
    );
    assert_eq!(pipellm_report(&json("{}")), "No results found.");
}

fn search(provider: &str) -> WebSearch {
    begin_web_search(&json(r#"{"query": "q"}"#), &config(Some(provider), Some("KEY"))).unwrap()
}

fn next(step: Step) -> WebSearch {
    match step {
        Step::Next(s) => s,
        Step::Done(r) => panic!("settled: {:?}", r),
    }
}

fn done(step: Step) -> Result<String, String> {
    match step {
        Step::Done(r) => r.map_err(|e| e.message),
        Step::Next(s) => panic!("goes on: {:?}", s),
    }
}

#[test]
fn pipellm_falls_back_to_its_second_domain() {
    for bad in [failed("timeout"), received(503, "503 Service Unavailable", "busy")] {
        let second = next(search("pipellm").receive(&bad));
        let request = second.request();
        assert_eq!(request.url, "https://api.pipellm.com/v1/websearch/simple-search");
        assert_eq!(request.query, pairs(&[("q", "q")]));
        let ok = received(200, "200 OK", r#"{"organic": [{"title": "T"}]}"#);
        assert_eq!(done(second.receive(&ok)), Ok("- **T** <>\n  \n".to_string()));
    }
}

#[test]
fn pipellm_gives_up_after_its_second_domain() {
    let second = next(search("pipellm").receive(&failed("first")));
    assert_eq!(
        done(second.receive(&received(503, "503 X", "busy"))),
        Err("pipellm search failed: 503 X from https://api.pipellm.com: busy".to_string())
    );
    let second = next(search("pipellm").receive(&received(500, "500 Y", "")));
    assert_eq!(
        done(second.receive(&failed("second"))),
        Err("pipellm search failed: second".to_string())
    );
}

#[test]
fn pipellm_does_not_retry_an_unreadable_answer() {
    assert_eq!(
        done(search("pipellm").receive(&received(200, "200 OK", "nope"))),
        Err("parse pipellm response".to_string())
    );
}

#[test]
fn other_services_are_asked_once() {
    assert_eq!(
        done(search("brave").receive(&failed("x"))),
        Err("brave search request failed".to_string())
    );
    assert_eq!(
        done(search("tavily").receive(&failed("x"))),
        Err("tavily search request failed".to_string())
    );
}

#[test]
fn a_search_needs_query_provider_and_key() {
    let message = |args: &str, provider: Option<&str>, key: Option<&str>| {
        begin_web_search(&json(args), &config(provider, key)).unwrap_err().message
    };
    let ok = r#"{"query": "q"}"#;
    assert_eq!(message("{}", None, None), "missing query");
    assert_eq!(message(r#"{"query": 5}"#, Some("brave"), Some("k")), "missing query");
    assert_eq!(message(ok, None, None), "web_search provider not configured");
    assert_eq!(message(ok, Some("bing"), None), "web_search api key missing");
    assert_eq!(
        message(ok, Some("bing"), Some("k")),
        "unknown web_search provider: bing"
    );
}

#[test]
fn a_search_takes_its_arguments() {
    let args: serde_json::Value = serde_json::from_str(
        r#"{"query": "q", "kind": "news", "freshness": "pd", "search_depth": "basic"}"#,
    )
    .unwrap();
    let s = exec_web_search(args, &config(Some("tavily"), Some("KEY"))).unwrap();
    assert_eq!(s.provider, Provider::Tavily);
    assert_eq!(s.query, "q");
    assert_eq!(s.kind.as_deref(), Some("news"));
    assert_eq!(s.freshness.as_deref(), Some("pd"));
    assert_eq!(s.search_depth.as_deref(), Some("basic"));
    assert_eq!(
        member_texts(&s.request())[3..].to_vec(),
        pairs(&[("topic", "\"news\""), ("search_depth", "\"basic\""), ("days", "1")])
    );
    assert_eq!(search("brave").provider, Provider::Brave);
    assert_eq!(search("pipellm").provider, Provider::Pipellm(Domain::First));
}

#[test]
fn the_key_is_no_part_of_address_or_body() {
    for provider in ["brave", "pipellm", "tavily"] {
        let s = begin_web_search(
            &json(r#"{"query": "q"}"#),
            &config(Some(provider), Some("s3cret")),
        )
        .unwrap();
        let r = s.request();
        assert!(!r.url.contains("s3cret"));
        assert!(!format!("{:?}", r.query).contains("s3cret"));
        assert!(!format!("{:?}", r.body).contains("s3cret"));
        assert!(format!("{:?}{:?}", r.headers, r.bearer).contains("s3cret"));
    }
}

fn pipellm_error(reply: &Reply) -> ToolError {
    match search("pipellm").receive(reply) {
        Step::Done(Err(e)) => e,
        other => panic!("unexpected {:?}", other),
    }
}

#[test]
fn failures_keep_their_cause() {
    let e = brave_reply(None, &failed("no route")).unwrap_err();
    assert_eq!(e.causes, vec!["no route"]);
    let e = tavily_reply(&failed("reset")).unwrap_err();
    assert_eq!(e.causes, vec!["reset"]);
    let deep = Reply::Failed {
        error: ToolError::with_cause(
            "error sending request",
            &ToolError::with_cause("connect", &ToolError::new("refused")),
        ),
    };
    let e = brave_reply(None, &deep).unwrap_err();
    assert_eq!(e.message, "brave search request failed");
    assert_eq!(e.causes, vec!["error sending request", "connect", "refused"]);
    let e = tavily_reply(&deep).unwrap_err();
    assert_eq!(e.causes, vec!["error sending request", "connect", "refused"]);
}

#[test]
fn undecodable_answers_are_the_clients_failure_before_the_parsers() {
    let words = serde_json::from_slice::<serde_json::Value>(b"nope").unwrap_err().to_string();
    assert_eq!(Json::parse(b"nope").unwrap_err(), words);
    let bad = received(200, "200 OK", "nope");
    let causes = vec!["error decoding response body".to_string(), words];
    assert_eq!(brave_reply(None, &bad).unwrap_err().causes, causes);
    assert_eq!(tavily_reply(&bad).unwrap_err().causes, causes);
    assert_eq!(pipellm_error(&bad).causes, causes);
}

#[test]
fn answers_that_cannot_be_read_are_not_parsed() {
    let cut = unread("error reading a body", "connection reset");
    let causes = vec!["error reading a body", "connection reset"];
    let e = brave_reply(None, &cut).unwrap_err();
    assert_eq!(e.message, "parse brave response");
    assert_eq!(e.causes, causes);
    let e = tavily_reply(&cut).unwrap_err();
    assert_eq!(e.message, "parse tavily response");
    assert_eq!(e.causes, causes);
    let e = pipellm_error(&cut);
    assert_eq!(e.message, "parse pipellm response");
    assert_eq!(e.causes, causes);
}

#[test]
fn pipellm_tells_only_the_outermost_words_of_a_failed_request() {
    let deep = Reply::Failed { error: ToolError::with_cause("sending", &ToolError::new("dns")) };
    let second = next(search("pipellm").receive(&deep));
    match second.receive(&deep) {
        Step::Done(Err(e)) => {
            assert_eq!(e.message, "pipellm search failed: sending");
            assert!(e.causes.is_empty());
        }
        other => panic!("unexpected {:?}", other),
    }
}

#[test]
fn refusals_have_no_cause() {
    let refused = received(403, "403 Forbidden", "no");
    assert!(brave_reply(None, &refused).unwrap_err().causes.is_empty());
    assert!(tavily_reply(&refused).unwrap_err().causes.is_empty());
    let e = begin_web_search(&json("{}"), &config(None, None)).unwrap_err();
    assert!(e.causes.is_empty());
}
