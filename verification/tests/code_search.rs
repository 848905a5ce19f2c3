use kaku_tools::command::{
    grep_command_at, grep_search_command, symbol_command_at, symbol_search_command, GrepQuery,
};
use kaku_tools::grep_search::{grep_search_outcome, keep_complaint, report_matches, GrepLines};
use kaku_tools::path::FilePath;
use kaku_tools::pattern::{escape_regex, symbol_pattern, symbol_patterns};
use kaku_tools::symbol_search::{is_definition, rank_lines, report_symbols, symbol_search_outcome};
use kaku_tools::watch::{watch_step, SearchEnd, WatchAction, WatchEvent};

fn strings(parts: &[&str]) -> Vec<String> {
    parts.iter().map(|s| s.to_string()).collect()
}

#[test]
fn special_characters_are_escaped() {
    assert_eq!(escape_regex("a.b"), "a\\.b");
    assert_eq!(
        escape_regex("\\.+*?()|[]{}^$"),
        "\\\\\\.\\+\\*\\?\\(\\)\\|\\[\\]\\{\\}\\^\\$"
    );
    assert_eq!(escape_regex("plain_name-1 ü/#"), "plain_name-1 ü/#");
    assert_eq!(escape_regex(""), "");
}

#[test]
fn escaping_can_be_undone() {
    for s in ["a.b(c)", "\\\\", "^$", "x", ""] {
        let escaped = escape_regex(s);
        let mut back = String::new();
        let mut it = escaped.chars();
        while let Some(c) = it.next() {
            back.push(if c == '\\' { it.next().unwrap() } else { c });
        }
        assert_eq!(back, s);
    }
}

#[test]
fn patterns_depend_on_the_kind() {
    assert_eq!(
        symbol_patterns("f$", "function"),
        vec![
            r"(fn|function|def|func)\s+f\$",
            r"(const|let|var)\s+f\$\s*=\s*(async\s+)?\(",
        ]
    );
    assert_eq!(
        symbol_patterns("T", "type"),
        vec![r"(type|struct|enum|interface|typedef)\s+T"]
    );
    assert_eq!(symbol_patterns("C", "class"), vec![r"(class|struct)\s+C"]);
    assert_eq!(
        symbol_patterns("m", "method"),
        vec![r"(fn|def|func|function)\s+m", r"\.m\s*=\s*function"]
    );
    assert_eq!(
        symbol_patterns("x", "any"),
        vec![
            r"(fn|function|def|func)\s+x",
            r"(const|let|var)\s+x\s*=\s*(async\s+)?\(",
            r"(type|struct|enum|interface|class|trait|typedef)\s+x",
            r"(pub\s+)?(mod|module)\s+x",
        ]
    );
    assert_eq!(
        symbol_pattern("m", "method"),
        r"(fn|def|func|function)\s+m|\.m\s*=\s*function"
    );
}

#[test]
fn symbol_command_for_ripgrep() {
    let line = symbol_search_command(
        "C",
        "class",
        &FilePath::from_text("/src"),
        Some("*.rs"),
        true,
    );
    assert_eq!(line.program, "rg");
    assert_eq!(
        line.args,
        vec![
            "--line-number",
            "--no-heading",
            "--color=never",
            "--max-count=50",
            "--glob",
            "*.rs",
            r"(class|struct)\s+C",
            "/src",
        ]
    );
}

#[test]
fn symbol_command_for_grep() {
    let line = symbol_command_at(false, "p", "/src", Some("*.rs"));
    assert_eq!(line.program, "grep");
    assert_eq!(
        line.args,
        vec!["-rn", "--color=never", "-E", "--include", "*.rs", "p", "/src"]
    );
    let line = symbol_command_at(false, "p", "/src", None);
    assert_eq!(line.args, vec!["-rn", "--color=never", "-E", "p", "/src"]);
}

fn grep_query(case_insensitive: bool, glob: Option<&str>) -> GrepQuery {
    GrepQuery {
        pattern: "needle".to_string(),
        glob: glob.map(|g| g.to_string()),
        context_lines: 2,
        case_insensitive,
        max_results: 120,
    }
}

#[test]
fn grep_command_for_ripgrep() {
    let line = grep_search_command(
        &grep_query(true, Some("*.md")),
        &FilePath { bytes: vec![b'/', 0xff] },
        true,
    );
    assert_eq!(line.program, "rg");
    assert_eq!(
        line.args,
        vec![
            "--line-number",
            "--no-heading",
            "--color=never",
            "--context=2",
            "--max-count=120",
            "--ignore-case",
            "--glob",
            "*.md",
            "needle",
            "/\u{fffd}",
        ]
    );
}

#[test]
fn grep_command_for_grep() {
    let line = grep_command_at(false, &grep_query(true, Some("*.md")), "/docs");
    assert_eq!(line.program, "grep");
    assert_eq!(
        line.args,
        vec!["-rn", "-C2", "--color=never", "-i", "--include", "*.md", "needle", "/docs"]
    );
    let line = grep_command_at(false, &grep_query(false, None), "/docs");
    assert_eq!(line.args, vec!["-rn", "-C2", "--color=never", "needle", "/docs"]);
}

#[test]
fn watching_stops_in_time() {
    let tick = |canceled, elapsed_secs| watch_step(WatchEvent::Tick { canceled, elapsed_secs });
    let stop = |ended, kill| WatchAction::Stop { ended, kill };
    assert_eq!(tick(false, 0), WatchAction::AskChild);
    assert_eq!(tick(false, 29), WatchAction::AskChild);
    assert_eq!(tick(false, 30), stop(SearchEnd::TimedOut, true));
    assert_eq!(tick(true, 0), stop(SearchEnd::Canceled, true));
    assert_eq!(tick(true, 31), stop(SearchEnd::Canceled, true));
    assert_eq!(
        watch_step(WatchEvent::Child { exited: true }),
        stop(SearchEnd::Exited, false)
    );
    assert_eq!(
        watch_step(WatchEvent::Child { exited: false }),
        WatchAction::Sleep { millis: 50 }
    );
}

#[test]
fn definitions_come_first_in_order() {
    let all = strings(&["a: use x", "b: fn x()", "c: call", "d: struct X {", "e: let y"]);
    assert_eq!(
        rank_lines(&all),
        strings(&["b: fn x()", "d: struct X {", "a: use x", "c: call", "e: let y"])
    );
    for word in [
        "fn ", "function ", "def ", "struct ", "class ", "type ", "enum ", "trait ", "interface ",
    ] {
        assert!(is_definition(&format!("1: {}x", word)));
    }
    assert!(!is_definition("1: fnx mod y const z"));
}

#[test]
fn symbol_reports() {
    assert_eq!(report_symbols("q", "x\nfn q\r\n", false), "fn q\nx");
    assert_eq!(
        report_symbols("q", "x\n", true),
        "x\n[... timed out after 30s, results may be partial]"
    );
    assert_eq!(
        report_symbols("q", " \n\t", false),
        "No symbol definitions found for 'q'."
    );
    assert_eq!(
        report_symbols("q", "", true),
        "symbol_search timed out after 30s with no results for 'q'."
    );
}

#[test]
fn symbol_report_reads_a_hundred_lines() {
    let mut text = String::new();
    for i in 0..150 {
        text.push_str(&format!("line {}\n", i));
    }
    text.push_str("fn late\n");
    let report = report_symbols("q", &text, false);
    assert_eq!(report.lines().count(), 100);
    assert!(report.ends_with("line 99"));
    assert!(!report.contains("late"));
}

#[test]
fn symbol_outcomes() {
    let raw = vec![b'f', b'n', b' ', 0xff];
    assert_eq!(
        symbol_search_outcome("q", &raw, SearchEnd::Exited).unwrap(),
        "fn \u{fffd}"
    );
    assert_eq!(
        symbol_search_outcome("q", &raw, SearchEnd::TimedOut).unwrap(),
        "fn \u{fffd}\n[... timed out after 30s, results may be partial]"
    );
    assert_eq!(
        symbol_search_outcome("q", &raw, SearchEnd::Canceled)
            .unwrap_err()
            .message,
        "symbol_search canceled"
    );
}

fn taken(max: usize, answer: &[&str]) -> GrepLines {
    let mut all = GrepLines::new(max);
    for line in answer {
        if !all.accept(line.to_string()) {
            break;
        }
    }
    all
}

fn told(all: &GrepLines, ended: SearchEnd) -> String {
    grep_search_outcome(all, ended, &vec![]).unwrap()
}

#[test]
fn separators_do_not_count_as_results() {
    let all = taken(2, &["a", "--", "b", "--"]);
    assert_eq!(told(&all, SearchEnd::Exited), "a\n--\nb\n--");
    let all = taken(2, &["a", "--", "b", "--", "c", "d"]);
    assert_eq!(
        told(&all, SearchEnd::Exited),
        "a\n--\nb\n--\n[... truncated at 2 results]"
    );
}

#[test]
fn nothing_is_taken_after_the_cut() {
    let mut all = GrepLines::new(1);
    assert!(all.accept("a".to_string()));
    assert!(!all.accept("b".to_string()));
    assert!(!all.accept("--".to_string()));
    assert_eq!(
        told(&all, SearchEnd::Exited),
        "a\n[... truncated at 1 results]"
    );
    let mut none = GrepLines::new(0);
    assert!(!none.accept("a".to_string()));
    assert_eq!(told(&none, SearchEnd::Exited), "No matches found.");
}

#[test]
fn grep_reports_say_why_there_may_be_more() {
    let all = taken(9, &["a"]);
    assert_eq!(
        told(&all, SearchEnd::TimedOut),
        "a\n[... timed out after 30s, results may be partial]"
    );
    assert_eq!(told(&all, SearchEnd::Canceled), "a\n[... canceled by user]");
    let cut = taken(1, &["a", "b"]);
    assert_eq!(
        told(&cut, SearchEnd::Canceled),
        "a\n[... truncated at 1 results]\n[... canceled by user]"
    );
}

#[test]
fn grep_reports_without_results() {
    let none = GrepLines::new(5);
    assert_eq!(
        told(&none, SearchEnd::TimedOut),
        "grep_search timed out after 30s with no results."
    );
    assert_eq!(
        grep_search_outcome(&none, SearchEnd::Canceled, &vec![])
            .unwrap_err()
            .message,
        "grep_search canceled"
    );
    assert_eq!(
        grep_search_outcome(&none, SearchEnd::Exited, &b"  bad\xffregex \n".to_vec()).unwrap(),
        "No matches. (bad\u{fffd}regex)"
    );
    let long = "e".repeat(300);
    assert_eq!(
        report_matches(&vec![], false, 5, SearchEnd::Exited, &long).unwrap(),
        format!("No matches. ({})", "e".repeat(200))
    );
}

#[test]
fn complaints_are_kept_up_to_a_size() {
    let stream: Vec<u8> = (0..2000u32).map(|i| (i % 251) as u8).collect();
    for size in [1usize, 7, 511, 512, 513, 2000] {
        let mut kept = Vec::new();
        for piece in stream.chunks(size) {
            keep_complaint(&mut kept, piece);
        }
        assert_eq!(kept, stream[..512].to_vec());
    }
    let mut kept = b"abc".to_vec();
    keep_complaint(&mut kept, b"de");
    assert_eq!(kept, b"abcde".to_vec());
}
