//! What is made of the answer to a search for symbol definitions.
use vstd::prelude::*;

use crate::error::{failure, outcome, ErrorView, ToolError};
use crate::text::{
    blank, contains, decimal, decimal_text, has_part, is_blank, join, joined,
    law_decimal_grows_digit_by_digit, law_part_has_something_around_it, lines, lines_of, lossy,
    readable, views, white_space,
};
use crate::watch::{SearchEnd, SEARCH_TIMEOUT_SECS};

verus! {

/// How many lines of the answer are read.
pub const MAX_SYMBOL_LINES: usize = 100;

/// Whether a line looks like a definition: it holds a word that definitions begin with.
pub open spec fn definition(line: Seq<char>) -> bool {
    ||| has_part(line, "fn "@)
    ||| has_part(line, "function "@)
    ||| has_part(line, "def "@)
    ||| has_part(line, "struct "@)
    ||| has_part(line, "class "@)
    ||| has_part(line, "type "@)
    ||| has_part(line, "enum "@)
    ||| has_part(line, "trait "@)
    ||| has_part(line, "interface "@)
}

/// The first `n` lines of a text, or all of them where there are fewer.
pub open spec fn first_lines(s: Seq<char>, n: nat) -> Seq<Seq<char>> {
    if lines_of(s).len() <= n {
        lines_of(s)
    } else {
        lines_of(s).take(n as int)
    }
}

/// The lines with those that look like definitions first, each part in the order it had.
pub open spec fn definitions_first(all: Seq<Seq<char>>) -> Seq<Seq<char>> {
    all.filter(|line: Seq<char>| definition(line)) + all.filter(
        |line: Seq<char>| !definition(line),
    )
}

/// What is told when the time was up and the answer may go on.
pub open spec fn partial_note() -> Seq<char> {
    "\n[... timed out after "@ + decimal(SEARCH_TIMEOUT_SECS as nat)
        + "s, results may be partial]"@
}

/// What is told of the search for `query` when the program answered `text`.
pub open spec fn symbol_report(query: Seq<char>, text: Seq<char>, timed_out: bool) -> Seq<char> {
    if blank(text) {
        if timed_out {
            "symbol_search timed out after "@ + decimal(SEARCH_TIMEOUT_SECS as nat)
                + "s with no results for '"@ + query + "'."@
        } else {
            "No symbol definitions found for '"@ + query + "'."@
        }
    } else {
        joined(definitions_first(first_lines(text, MAX_SYMBOL_LINES as nat)), "\n"@) + (
        if timed_out {
            partial_note()
        } else {
            seq![]
        })
    }
}

/// The outcome of the search for `query`, by how the wait for the program ended.
pub open spec fn symbol_outcome(query: Seq<char>, text: Seq<char>, ended: SearchEnd) -> Result<
    Seq<char>,
    ErrorView,
> {
    match ended {
        SearchEnd::Canceled => Err(failure("symbol_search canceled"@)),
        SearchEnd::TimedOut => Ok(symbol_report(query, text, true)),
        SearchEnd::Exited => Ok(symbol_report(query, text, false)),
    }
}

/// Whether a line looks like a definition (see [`definition`]).
pub fn is_definition(line: &str) -> (yes: bool)
    ensures
        yes == definition(line@),
{
    contains(line, "fn ") || contains(line, "function ") || contains(line, "def ")
        || contains(line, "struct ") || contains(line, "class ") || contains(line, "type ")
        || contains(line, "enum ") || contains(line, "trait ") || contains(line, "interface ")
}

/// The lines with those that look like definitions first (see [`definitions_first`]).
pub fn rank_lines(all: &Vec<String>) -> (ranked: Vec<String>)
    ensures
        views(ranked@) == definitions_first(views(all@)),
{
    let mut first: Vec<String> = Vec::new();
    let mut rest: Vec<String> = Vec::new();
    let mut i: usize = 0;
    let ghost yes = |line: Seq<char>| definition(line);
    let ghost no = |line: Seq<char>| !definition(line);
    proof {
        reveal(Seq::filter);
    }
    assert(views(first@) == views(all@).take(0).filter(yes));
    assert(views(rest@) == views(all@).take(0).filter(no));
    while i < all.len()
        invariant
            yes == (|line: Seq<char>| definition(line)),
            no == (|line: Seq<char>| !definition(line)),
            i <= all.len(),
            views(first@) == views(all@).take(i as int).filter(yes),
            views(rest@) == views(all@).take(i as int).filter(no),
        decreases all.len() - i,
    {
        proof {
            reveal(Seq::filter);
            assert(views(all@).take(i + 1).drop_last() == views(all@).take(i as int));
        }
        let line = all[i].clone();
        let ghost old_first = first@;
        let ghost old_rest = rest@;
        if is_definition(line.as_str()) {
            first.push(line);
            assert(views(first@) == views(old_first).push(line@));
        } else {
            rest.push(line);
            assert(views(rest@) == views(old_rest).push(line@));
        }
        i = i + 1;
    }
    assert(views(all@).take(i as int) == views(all@));
    let ghost old_first = first@;
    let ghost old_rest = rest@;
    first.append(&mut rest);
    assert(views(first@) =~= views(old_first) + views(old_rest));
    first
}

/// What is told when the time was up and the answer may go on.
pub(crate) fn partial_note_text() -> (note: String)
    ensures
        note@ == partial_note(),
{
    let mut note = "\n[... timed out after ".to_owned();
    note.append(decimal_text(SEARCH_TIMEOUT_SECS as u128).as_str());
    note.append("s, results may be partial]");
    note
}

/// What is told of the search for `query` when the program answered `text` (see
/// [`symbol_report`]).
pub fn report_symbols(query: &str, text: &str, timed_out: bool) -> (report: String)
    ensures
        report@ == symbol_report(query@, text@, timed_out),
{
    if is_blank(text) {
        let mut report;
        if timed_out {
            report = "symbol_search timed out after ".to_owned();
            report.append(decimal_text(SEARCH_TIMEOUT_SECS as u128).as_str());
            report.append("s with no results for '");
        } else {
            report = "No symbol definitions found for '".to_owned();
        }
        report.append(query);
        report.append("'.");
        return report;
    }
    let mut all = lines(text);
    let ghost whole = all@;
    if all.len() > MAX_SYMBOL_LINES {
        all.truncate(MAX_SYMBOL_LINES);
    }
    assert(views(all@) =~= first_lines(text@, MAX_SYMBOL_LINES as nat)) by {
        assert(lines_of(text@) == views(whole));
    }
    let ranked = rank_lines(&all);
    let mut report = join(&ranked, "\n");
    if timed_out {
        report.append(partial_note_text().as_str());
    }
    assert(report@ =~= symbol_report(query@, text@, timed_out));
    report
}

/// The outcome of the search for `query` when the program wrote `raw` (see [`symbol_outcome`]).
pub fn symbol_search_outcome(query: &str, raw: &Vec<u8>, ended: SearchEnd) -> (result: Result<
    String,
    ToolError,
>)
    ensures
        outcome(result) == symbol_outcome(query@, readable(raw@), ended),
{
    match ended {
        SearchEnd::Canceled => Err(ToolError::new("symbol_search canceled")),
        SearchEnd::TimedOut => {
            let text = lossy(raw.as_slice());
            Ok(report_symbols(query, text.as_str(), true))
        },
        SearchEnd::Exited => {
            let text = lossy(raw.as_slice());
            Ok(report_symbols(query, text.as_str(), false))
        },
    }
}

// ---- Laws ----

/// Ranking neither loses a line nor adds one.
pub proof fn law_ranking_keeps_the_lines(all: Seq<Seq<char>>)
    ensures
        definitions_first(all).to_multiset() == all.to_multiset(),
    decreases all.len(),
{
    let yes = |line: Seq<char>| definition(line);
    let no = |line: Seq<char>| !definition(line);
    reveal(Seq::filter);
    broadcast use vstd::seq_lib::group_to_multiset_ensures;

    if all.len() > 0 {
        let head = all.drop_last();
        law_ranking_keeps_the_lines(head);
        assert(all == head.push(all.last()));
        vstd::seq_lib::lemma_multiset_commutative(head.filter(yes), head.filter(no));
        vstd::seq_lib::lemma_multiset_commutative(all.filter(yes), all.filter(no));
        assert(definitions_first(all).to_multiset() =~= all.to_multiset());
    } else {
        assert(definitions_first(all) =~= all);
    }
}

/// After ranking no line that looks like a definition stands behind one that does not.
pub proof fn law_ranking_puts_definitions_first(all: Seq<Seq<char>>, i: int, j: int)
    requires
        0 <= i < j < definitions_first(all).len(),
        definition(definitions_first(all)[j]),
    ensures
        definition(definitions_first(all)[i]),
{
    let yes = |line: Seq<char>| definition(line);
    let no = |line: Seq<char>| !definition(line);
    let first = all.filter(yes);
    let rest = all.filter(no);
    if j >= first.len() {
        all.lemma_filter_pred(no, j - first.len());
        assert(no(rest[j - first.len()]));
    } else {
        all.lemma_filter_pred(yes, i);
        assert(yes(first[i]));
    }
}

/// Ranking keeps the order among the lines that look like definitions, and among the others.
pub proof fn law_ranking_keeps_the_order(all: Seq<Seq<char>>)
    ensures
        definitions_first(all).filter(|line: Seq<char>| definition(line)) == all.filter(
            |line: Seq<char>| definition(line),
        ),
        definitions_first(all).filter(|line: Seq<char>| !definition(line)) == all.filter(
            |line: Seq<char>| !definition(line),
        ),
{
    let yes = |line: Seq<char>| definition(line);
    let no = |line: Seq<char>| !definition(line);
    let first = all.filter(yes);
    let rest = all.filter(no);
    Seq::filter_distributes_over_add(first, rest, yes);
    Seq::filter_distributes_over_add(first, rest, no);
    assert forall|i: int| 0 <= i < first.len() implies yes(#[trigger] first[i]) && !no(first[i]) by {
        all.lemma_filter_pred(yes, i);
    }
    assert forall|i: int| 0 <= i < rest.len() implies no(#[trigger] rest[i]) && !yes(rest[i]) by {
        all.lemma_filter_pred(no, i);
    }
    lemma_filter_all(first, yes);
    lemma_filter_none(first, no);
    lemma_filter_all(rest, no);
    lemma_filter_none(rest, yes);
    assert(definitions_first(all).filter(yes) =~= first);
    assert(definitions_first(all).filter(no) =~= rest);
}

/// Only a canceled search fails. Every other outcome is told.
pub proof fn law_symbol_search_fails_only_when_canceled(
    query: Seq<char>,
    text: Seq<char>,
    ended: SearchEnd,
)
    ensures
        symbol_outcome(query, text, ended) is Err <==> ended == SearchEnd::Canceled,
{
}

proof fn lemma_filter_all(s: Seq<Seq<char>>, pred: spec_fn(Seq<char>) -> bool)
    requires
        forall|i: int| 0 <= i < s.len() ==> pred(#[trigger] s[i]),
    ensures
        s.filter(pred) == s,
    decreases s.len(),
{
    reveal(Seq::filter);
    if s.len() > 0 {
        assert(pred(s.last()));
        lemma_filter_all(s.drop_last(), pred);
        assert(s.filter(pred) =~= s);
    }
}

proof fn lemma_filter_none(s: Seq<Seq<char>>, pred: spec_fn(Seq<char>) -> bool)
    requires
        forall|i: int| 0 <= i < s.len() ==> !pred(#[trigger] s[i]),
    ensures
        s.filter(pred).len() == 0,
    decreases s.len(),
{
    reveal(Seq::filter);
    if s.len() > 0 {
        assert(!pred(s.last()));
        lemma_filter_none(s.drop_last(), pred);
    }
}

/// A line looks like a definition exactly where it holds one of nine words with a blank behind it.
pub proof fn law_definitions_have_a_word_before_the_name(line: Seq<char>)
    ensures
        definition(line) <==> exists|before: Seq<char>, word: Seq<char>, after: Seq<char>|
            {
                &&& line == #[trigger] (before + word + after)
                &&& seq![
                    "fn "@,
                    "function "@,
                    "def "@,
                    "struct "@,
                    "class "@,
                    "type "@,
                    "enum "@,
                    "trait "@,
                    "interface "@,
                ].contains(word)
            },
{
    let words = seq![
        "fn "@,
        "function "@,
        "def "@,
        "struct "@,
        "class "@,
        "type "@,
        "enum "@,
        "trait "@,
        "interface "@,
    ];
    assert forall|word: Seq<char>| words.contains(word) && has_part(line, word) implies exists|
        before: Seq<char>,
        w: Seq<char>,
        after: Seq<char>,
    | line == #[trigger] (before + w + after) && words.contains(w) by {
        law_part_has_something_around_it(line, word);
        let (before, after) = choose|before: Seq<char>, after: Seq<char>|
            line == #[trigger] (before + word + after);
        assert(line == before + word + after && words.contains(word));
    }
    if definition(line) {
        assert(words[0] == "fn "@ && words[1] == "function "@ && words[2] == "def "@);
        assert(words[3] == "struct "@ && words[4] == "class "@ && words[5] == "type "@);
        assert(words[6] == "enum "@ && words[7] == "trait "@ && words[8] == "interface "@);
        assert(words.contains("fn "@) && words.contains("function "@) && words.contains("def "@));
        assert(words.contains("struct "@) && words.contains("class "@));
        assert(words.contains("type "@) && words.contains("enum "@));
        assert(words.contains("trait "@) && words.contains("interface "@));
    }
    if exists|before: Seq<char>, word: Seq<char>, after: Seq<char>|
        line == #[trigger] (before + word + after) && words.contains(word) {
        let (before, word, after) = choose|before: Seq<char>, word: Seq<char>, after: Seq<char>|
            line == #[trigger] (before + word + after) && words.contains(word);
        law_part_has_something_around_it(line, word);
        assert(has_part(line, word));
    }
}

/// What is told of an answer that is more than white space is the first hundred of its lines, or
/// all of them where there are fewer, one below the other, in their ranking. Where the time was up,
/// a note on that follows.
pub proof fn law_symbol_lines_are_told(query: Seq<char>, text: Seq<char>, all: Seq<Seq<char>>)
    requires
        exists|i: int| 0 <= i < text.len() && !white_space(#[trigger] text[i]),
        all.is_prefix_of(lines_of(text)),
        all.len() == (if lines_of(text).len() < 100 {
            lines_of(text).len()
        } else {
            100
        }),
    ensures
        symbol_report(query, text, false) == joined(definitions_first(all), "\n"@),
        symbol_report(query, text, true) == joined(definitions_first(all), "\n"@)
            + "\n[... timed out after 30s, results may be partial]"@,
        symbol_outcome(query, text, SearchEnd::Exited) == Ok::<Seq<char>, ErrorView>(
            symbol_report(query, text, false),
        ),
        symbol_outcome(query, text, SearchEnd::TimedOut) == Ok::<Seq<char>, ErrorView>(
            symbol_report(query, text, true),
        ),
{
    let k = choose|i: int| 0 <= i < text.len() && !white_space(#[trigger] text[i]);
    assert(!blank(text));
    let lines = lines_of(text);
    assert(all =~= lines.take(all.len() as int));
    assert(lines.take(lines.len() as int) =~= lines);
    assert(first_lines(text, MAX_SYMBOL_LINES as nat) == all);
    lemma_partial_note();
    let shown = joined(definitions_first(all), "\n"@);
    assert(shown + Seq::<char>::empty() =~= shown);
}

/// The note on an answer that may go on.
pub(crate) proof fn lemma_partial_note()
    ensures
        partial_note() == "\n[... timed out after 30s, results may be partial]"@,
{
    lemma_thirty();
    reveal_strlit("\n[... timed out after ");
    reveal_strlit("s, results may be partial]");
    reveal_strlit("\n[... timed out after 30s, results may be partial]");
    assert(partial_note() =~= "\n[... timed out after 30s, results may be partial]"@);
}

/// Thirty in decimal.
pub(crate) proof fn lemma_thirty()
    ensures
        decimal(SEARCH_TIMEOUT_SECS as nat) == seq!['3', '0'],
{
    law_decimal_grows_digit_by_digit(3, 0);
    law_decimal_grows_digit_by_digit(0, 3);
    assert(decimal(30) =~= seq!['3', '0']);
}

/// Of an answer that is white space only, it is told that nothing was found, or that the time was
/// up, and for which symbol. A canceled search says just that.
pub proof fn law_missing_symbol_is_named(query: Seq<char>, text: Seq<char>)
    ensures
        (forall|i: int| 0 <= i < text.len() ==> white_space(#[trigger] text[i])) ==> {
            &&& symbol_report(query, text, false) == "No symbol definitions found for '"@ + query
                + "'."@
            &&& symbol_report(query, text, true)
                == "symbol_search timed out after 30s with no results for '"@ + query + "'."@
            &&& symbol_outcome(query, text, SearchEnd::Exited) == Ok::<Seq<char>, ErrorView>(
                symbol_report(query, text, false),
            )
            &&& symbol_outcome(query, text, SearchEnd::TimedOut) == Ok::<Seq<char>, ErrorView>(
                symbol_report(query, text, true),
            )
        },
        symbol_outcome(query, text, SearchEnd::Canceled)->Err_0.message
            == "symbol_search canceled"@,
        symbol_outcome(query, text, SearchEnd::Canceled)->Err_0.causes.len() == 0,
{
    lemma_thirty();
    reveal_strlit("symbol_search timed out after ");
    reveal_strlit("s with no results for '");
    reveal_strlit("symbol_search timed out after 30s with no results for '");
    assert("symbol_search timed out after "@ + decimal(SEARCH_TIMEOUT_SECS as nat)
        + "s with no results for '"@ =~= "symbol_search timed out after 30s with no results for '"@);
}

} // verus!
