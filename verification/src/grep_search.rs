//! What is made of the answer to a content search.
use vstd::prelude::*;

use crate::error::{failure, outcome, ErrorView, ToolError};
use crate::symbol_search::{lemma_partial_note, lemma_thirty, partial_note, partial_note_text};
use crate::text::{
    decimal, decimal_text, first_chars, join, joined, law_blank_text_trims_to_nothing,
    law_first_chars_are_a_beginning, lossy, readable, starts_with, take_chars, trim, trimmed,
    views, white_space,
};
use crate::watch::{SearchEnd, SEARCH_TIMEOUT_SECS};

verus! {

// ---- The lines of the answer ----

/// Whether a line counts as a result: all do but those that separate groups of lines.
pub open spec fn counted(line: Seq<char>) -> bool {
    !"--"@.is_prefix_of(line)
}

/// How many of the lines count as results.
pub open spec fn results_in(all: Seq<Seq<char>>) -> nat
    decreases all.len(),
{
    if all.len() == 0 {
        0
    } else {
        results_in(all.drop_last()) + if counted(all.last()) {
            1nat
        } else {
            0
        }
    }
}

/// The lines of the answer so far, of which no more than a number of results is wanted. The view
/// is the lines, in the order in which they came, and whether one was turned away because there
/// were results enough.
#[derive(Debug)]
pub struct GrepLines {
    lines: Vec<String>,
    truncated: bool,
    max_results: usize,
    results: usize,
}

impl View for GrepLines {
    type V = (Seq<Seq<char>>, bool);

    closed spec fn view(&self) -> (Seq<Seq<char>>, bool) {
        (views(self.lines@), self.truncated)
    }
}

impl GrepLines {
    /// The number of results is the number of lines that count, and no more than is wanted.
    pub closed spec fn wf(self) -> bool {
        self.results == results_in(self@.0) && self.results <= self.max_results
    }

    /// How many results are wanted.
    pub closed spec fn limit(self) -> usize {
        self.max_results
    }

    /// No lines yet.
    pub fn new(max_results: usize) -> (all: GrepLines)
        ensures
            all.wf(),
            all.limit() == max_results,
            all@ == (Seq::<Seq<char>>::empty(), false),
    {
        let all = GrepLines { lines: Vec::new(), truncated: false, max_results, results: 0 };
        assert(views(all.lines@) =~= Seq::<Seq<char>>::empty());
        all
    }

    /// Takes the next line of the answer, and says whether to go on reading. A line that counts is
    /// turned away when there are results enough; from then on nothing is taken.
    pub fn accept(&mut self, line: String) -> (more: bool)
        requires
            old(self).wf(),
        ensures
            final(self).wf(),
            final(self).limit() == old(self).limit(),
            final(self)@ == next_lines(old(self)@, line@, old(self).limit() as nat),
            more == !final(self)@.1,
    {
        if self.truncated {
            return false;
        }
        let counts = !starts_with(line.as_str(), "--");
        if counts {
            if self.results >= self.max_results {
                self.truncated = true;
                return false;
            }
            self.results = self.results + 1;
        }
        let ghost before = views(self.lines@);
        self.lines.push(line);
        assert(views(self.lines@) =~= before.push(line@));
        assert(before.push(line@).drop_last() =~= before);
        true
    }
}

/// What one more line makes of the lines so far and of whether any was turned away.
pub open spec fn next_lines(
    so_far: (Seq<Seq<char>>, bool),
    line: Seq<char>,
    max_results: nat,
) -> (Seq<Seq<char>>, bool) {
    if so_far.1 || (counted(line) && results_in(so_far.0) >= max_results) {
        (so_far.0, true)
    } else {
        (so_far.0.push(line), false)
    }
}

/// What is left of the whole answer once its lines have been taken one by one.
pub open spec fn taken(answer: Seq<Seq<char>>, max_results: nat) -> (Seq<Seq<char>>, bool)
    decreases answer.len(),
{
    if answer.len() == 0 {
        (seq![], false)
    } else {
        next_lines(taken(answer.drop_last(), max_results), answer.last(), max_results)
    }
}

// ---- What the program complains of ----

/// How many bytes of the program's complaints are kept.
pub const MAX_COMPLAINT_BYTES: usize = 512;

/// The first bytes, as many as are kept.
pub open spec fn kept_bytes(bytes: Seq<u8>) -> Seq<u8> {
    if bytes.len() <= MAX_COMPLAINT_BYTES {
        bytes
    } else {
        bytes.take(MAX_COMPLAINT_BYTES as int)
    }
}

/// The bytes kept once another piece has come: as much of it as there is room for.
pub open spec fn with_piece(kept: Seq<u8>, piece: Seq<u8>) -> Seq<u8> {
    if kept.len() >= MAX_COMPLAINT_BYTES {
        kept
    } else {
        kept_bytes(kept + piece)
    }
}

/// Takes the next piece of what the program complains of, as far as there is room.
pub fn keep_complaint(kept: &mut Vec<u8>, piece: &[u8])
    ensures
        final(kept)@ == with_piece(old(kept)@, piece@),
{
    let ghost before = kept@;
    if kept.len() >= MAX_COMPLAINT_BYTES {
        return;
    }
    let room: usize = MAX_COMPLAINT_BYTES - kept.len();
    let n: usize = if room < piece.len() { room } else { piece.len() };
    let mut i: usize = 0;
    while i < n
        invariant
            i <= n <= piece.len(),
            kept@ == before + piece@.take(i as int),
        decreases n - i,
    {
        kept.push(piece[i]);
        i = i + 1;
        assert(kept@ =~= before + piece@.take(i as int));
    }
    assert(kept@ =~= with_piece(before, piece@));
}

// ---- The report ----

/// How many characters of the complaints are told.
pub const MAX_HINT_CHARS: usize = 200;

/// What is told where there are no results.
pub open spec fn no_results(ended: SearchEnd, complaint: Seq<char>) -> Result<
    Seq<char>,
    ErrorView,
> {
    let hint = first_chars(trimmed(complaint), MAX_HINT_CHARS as nat);
    match ended {
        SearchEnd::Canceled => Err(failure("grep_search canceled"@)),
        SearchEnd::TimedOut => Ok(
            "grep_search timed out after "@ + decimal(SEARCH_TIMEOUT_SECS as nat)
                + "s with no results."@,
        ),
        SearchEnd::Exited => if hint.len() > 0 {
            Ok("No matches. ("@ + hint + ")"@)
        } else {
            Ok("No matches found."@)
        },
    }
}

/// What is told where there are results: the lines, and why there may be more.
pub open spec fn some_results(
    all: Seq<Seq<char>>,
    truncated: bool,
    max_results: nat,
    ended: SearchEnd,
) -> Seq<char> {
    joined(all, "\n"@) + (if truncated {
        "\n[... truncated at "@ + decimal(max_results) + " results]"@
    } else {
        seq![]
    }) + (match ended {
        SearchEnd::TimedOut => partial_note(),
        SearchEnd::Canceled => "\n[... canceled by user]"@,
        SearchEnd::Exited => seq![],
    })
}

/// The outcome of a content search.
pub open spec fn grep_outcome(
    all: Seq<Seq<char>>,
    truncated: bool,
    max_results: nat,
    ended: SearchEnd,
    complaint: Seq<char>,
) -> Result<Seq<char>, ErrorView> {
    if all.len() == 0 {
        no_results(ended, complaint)
    } else {
        Ok(some_results(all, truncated, max_results, ended))
    }
}

/// The outcome of a content search whose program complained of `complaint` (see
/// [`grep_outcome`]).
pub fn report_matches(
    all: &Vec<String>,
    truncated: bool,
    max_results: usize,
    ended: SearchEnd,
    complaint: &str,
) -> (result: Result<String, ToolError>)
    ensures
        outcome(result) == grep_outcome(
            views(all@),
            truncated,
            max_results as nat,
            ended,
            complaint@,
        ),
{
    if all.len() == 0 {
        match ended {
            SearchEnd::Canceled => Err(ToolError::new("grep_search canceled")),
            SearchEnd::TimedOut => {
                let mut report = "grep_search timed out after ".to_owned();
                report.append(decimal_text(SEARCH_TIMEOUT_SECS as u128).as_str());
                report.append("s with no results.");
                Ok(report)
            },
            SearchEnd::Exited => {
                let whole = trim(complaint);
                let hint = take_chars(whole.as_str(), MAX_HINT_CHARS);
                if hint.as_str().is_empty() {
                    Ok("No matches found.".to_owned())
                } else {
                    let mut report = "No matches. (".to_owned();
                    report.append(hint.as_str());
                    report.append(")");
                    Ok(report)
                }
            },
        }
    } else {
        let mut report = join(all, "\n");
        if truncated {
            report.append("\n[... truncated at ");
            report.append(decimal_text(max_results as u128).as_str());
            report.append(" results]");
        }
        match ended {
            SearchEnd::TimedOut => {
                report.append(partial_note_text().as_str());
            },
            SearchEnd::Canceled => {
                report.append("\n[... canceled by user]");
            },
            SearchEnd::Exited => {},
        }
        assert(report@ =~= some_results(views(all@), truncated, max_results as nat, ended));
        Ok(report)
    }
}

/// The outcome of a content search: the lines that were taken, and the bytes kept of what the
/// program complained of.
pub fn grep_search_outcome(all: &GrepLines, ended: SearchEnd, complaint: &Vec<u8>) -> (result:
    Result<String, ToolError>)
    ensures
        outcome(result) == grep_outcome(
            all@.0,
            all@.1,
            all.limit() as nat,
            ended,
            readable(complaint@),
        ),
{
    let text = lossy(complaint.as_slice());
    report_matches(&all.lines, all.truncated, all.max_results, ended, text.as_str())
}

// ---- Laws ----

/// What is taken of an answer comes line by line: nothing of no lines, and with each further line
/// what [`GrepLines::accept`] makes of it.
pub proof fn law_answer_is_taken_line_by_line(
    answer: Seq<Seq<char>>,
    line: Seq<char>,
    max_results: nat,
)
    ensures
        taken(seq![], max_results) == (Seq::<Seq<char>>::empty(), false),
        taken(answer.push(line), max_results) == next_lines(
            taken(answer, max_results),
            line,
            max_results,
        ),
{
    assert(answer.push(line).drop_last() == answer);
}

/// What is taken of an answer is its longest beginning with no more results than are wanted: what
/// follows, if anything, begins with a result too many, and only then is the answer marked as cut.
pub proof fn law_taken_is_the_longest_fitting_prefix(answer: Seq<Seq<char>>, max_results: nat)
    ensures
        ({
            let (all, truncated) = taken(answer, max_results);
            &&& all.is_prefix_of(answer)
            &&& results_in(all) <= max_results
            &&& truncated <==> all.len() < answer.len()
            &&& truncated ==> counted(answer[all.len() as int]) && results_in(all) == max_results
        }),
    decreases answer.len(),
{
    if answer.len() > 0 {
        let head = answer.drop_last();
        law_taken_is_the_longest_fitting_prefix(head, max_results);
        let (all, truncated) = taken(head, max_results);
        if !truncated && !(counted(answer.last()) && results_in(all) >= max_results) {
            assert(all =~= head);
            assert(all.push(answer.last()) =~= answer);
            assert(answer.drop_last() =~= all);
        } else {
            if !truncated {
                assert(all =~= head);
            }
            assert(all =~= answer.take(all.len() as int)) by {
                assert(all =~= head.take(all.len() as int));
            }
        }
    }
}

/// An answer with no more results than are wanted is taken whole and is not marked as cut.
pub proof fn law_short_answer_is_taken_whole(answer: Seq<Seq<char>>, max_results: nat)
    requires
        results_in(answer) <= max_results,
    ensures
        taken(answer, max_results) == (answer, false),
{
    law_taken_is_the_longest_fitting_prefix(answer, max_results);
    let (all, truncated) = taken(answer, max_results);
    if truncated {
        lemma_results_grow(answer, all.len() as int + 1);
        assert(answer.take(all.len() as int + 1).drop_last() =~= all);
    }
    assert(all =~= answer);
}

proof fn lemma_results_grow(all: Seq<Seq<char>>, n: int)
    requires
        0 <= n <= all.len(),
    ensures
        results_in(all.take(n)) <= results_in(all),
    decreases all.len(),
{
    if n < all.len() {
        lemma_results_grow(all.drop_last(), n);
        assert(all.drop_last().take(n) =~= all.take(n));
    } else {
        assert(all.take(n) =~= all);
    }
}

/// The bytes kept of a complaint do not depend on the pieces it came in: with every piece they
/// stay the first bytes of all that has come.
pub proof fn law_kept_complaint_is_a_prefix(before: Seq<u8>, piece: Seq<u8>)
    ensures
        with_piece(kept_bytes(before), piece) == kept_bytes(before + piece),
        kept_bytes(before).is_prefix_of(before),
{
    assert(with_piece(kept_bytes(before), piece) =~= kept_bytes(before + piece));
}

/// Only a canceled search without results fails. Every other outcome is told.
pub proof fn law_grep_fails_only_when_canceled_empty(
    all: Seq<Seq<char>>,
    truncated: bool,
    max_results: nat,
    ended: SearchEnd,
    complaint: Seq<char>,
)
    ensures
        grep_outcome(all, truncated, max_results, ended, complaint) is Err <==> all.len() == 0
            && ended == SearchEnd::Canceled,
{
}

/// Every line counts as one result, but for those that begin with two dashes, which count as none.
/// Lines in a row count as much as they do one by one.
pub proof fn law_results_are_counted_line_by_line(
    line: Seq<char>,
    a: Seq<Seq<char>>,
    b: Seq<Seq<char>>,
)
    ensures
        counted(line) <==> !(line.len() >= 2 && line[0] == '-' && line[1] == '-'),
        results_in(seq![]) == 0,
        results_in(seq![line]) == (if line.len() >= 2 && line[0] == '-' && line[1] == '-' {
            0nat
        } else {
            1
        }),
        results_in(a + b) == results_in(a) + results_in(b),
    decreases b.len(),
{
    reveal_strlit("--");
    if line.len() >= 2 && line[0] == '-' && line[1] == '-' {
        assert("--"@ =~= line.take(2));
    } else if "--"@.is_prefix_of(line) {
        assert(line.take(2)[0] == '-' && line.take(2)[1] == '-');
    }
    assert(seq![line].drop_last() =~= Seq::<Seq<char>>::empty());
    assert(results_in(seq![line].drop_last()) == 0);
    if b.len() > 0 {
        law_results_are_counted_line_by_line(line, a, b.drop_last());
        assert((a + b).drop_last() =~= a + b.drop_last());
        assert((a + b).last() == b.last());
    } else {
        assert(a + b =~= a);
    }
}

/// One more line is kept behind those there are, unless one was turned away before, or it is a
/// result and there are as many as are wanted. Then nothing is kept any more.
pub proof fn law_lines_are_kept_until_there_are_enough(
    so_far: Seq<Seq<char>>,
    line: Seq<char>,
    max_results: nat,
)
    ensures
        next_lines((so_far, true), line, max_results) == (so_far, true),
        next_lines((so_far, false), line, max_results).1 <==> results_in(so_far) + results_in(
            seq![line],
        ) > max_results && results_in(seq![line]) == 1,
        next_lines((so_far, false), line, max_results).0 == (if next_lines(
            (so_far, false),
            line,
            max_results,
        ).1 {
            so_far
        } else {
            so_far + seq![line]
        }),
{
    law_results_are_counted_line_by_line(line, so_far, seq![line]);
    assert(so_far.push(line) =~= so_far + seq![line]);
}

/// Of what the program complains of, the first 512 bytes are kept, or all where there are fewer.
/// Bytes that were kept stay.
pub proof fn law_512_bytes_of_a_complaint_are_kept(kept: Seq<u8>, piece: Seq<u8>)
    ensures
        kept_bytes(kept).is_prefix_of(kept),
        kept_bytes(kept).len() == (if kept.len() < 512 {
            kept.len()
        } else {
            512
        }),
        kept.len() >= 512 ==> with_piece(kept, piece) == kept,
        kept.len() <= 512 ==> {
            &&& with_piece(kept, piece).is_prefix_of(kept + piece)
            &&& with_piece(kept, piece).len() == (if kept.len() + piece.len() < 512 {
                kept.len() + piece.len()
            } else {
                512
            })
        },
{
    assert(kept =~= kept.take(kept.len() as int));
    if kept.len() == 512 {
        assert(kept =~= (kept + piece).take(512));
    }
    assert(kept + piece =~= (kept + piece).take((kept + piece).len() as int));
}

/// The lines of a search with results are told as they are, one below the other. What follows them
/// says whether some were turned away, and how many were wanted, and whether the search was
/// stopped; where neither is so, nothing follows.
pub proof fn law_result_lines_are_told(
    all: Seq<Seq<char>>,
    max_results: nat,
    complaint: Seq<char>,
)
    requires
        all.len() > 0,
    ensures
        ({
            let told = |truncated: bool, ended: SearchEnd|
                grep_outcome(all, truncated, max_results, ended, complaint);
            let cut = "\n[... truncated at "@ + decimal(max_results) + " results]"@;
            let text = joined(all, "\n"@);
            &&& told(false, SearchEnd::Exited) == Ok::<Seq<char>, ErrorView>(text)
            &&& told(true, SearchEnd::Exited) == Ok::<Seq<char>, ErrorView>(text + cut)
            &&& told(false, SearchEnd::TimedOut) == Ok::<Seq<char>, ErrorView>(
                text + "\n[... timed out after 30s, results may be partial]"@,
            )
            &&& told(true, SearchEnd::TimedOut) == Ok::<Seq<char>, ErrorView>(
                text + cut + "\n[... timed out after 30s, results may be partial]"@,
            )
            &&& told(false, SearchEnd::Canceled) == Ok::<Seq<char>, ErrorView>(
                text + "\n[... canceled by user]"@,
            )
            &&& told(true, SearchEnd::Canceled) == Ok::<Seq<char>, ErrorView>(
                text + cut + "\n[... canceled by user]"@,
            )
        }),
{
    lemma_partial_note();
    let cut = "\n[... truncated at "@ + decimal(max_results) + " results]"@;
    let text = joined(all, "\n"@);
    let none = Seq::<char>::empty();
    assert(text + none =~= text);
    assert(text + cut + none =~= text + cut);
}

/// Where there are no lines: a canceled search fails, one whose time was up says so, and any other
/// says that there is nothing. It tells what the program complained of, without the white space
/// around it and 200 characters of it at most, where that is more than white space.
pub proof fn law_empty_search_tells_the_complaint(
    truncated: bool,
    max_results: nat,
    complaint: Seq<char>,
)
    ensures
        ({
            let told = |ended: SearchEnd|
                grep_outcome(seq![], truncated, max_results, ended, complaint);
            &&& told(SearchEnd::Canceled)->Err_0.message == "grep_search canceled"@
            &&& told(SearchEnd::Canceled)->Err_0.causes.len() == 0
            &&& told(SearchEnd::TimedOut) == Ok::<Seq<char>, ErrorView>(
                "grep_search timed out after 30s with no results."@,
            )
            &&& if forall|i: int|
                0 <= i < complaint.len() ==> white_space(#[trigger] complaint[i]) {
                told(SearchEnd::Exited) == Ok::<Seq<char>, ErrorView>("No matches found."@)
            } else {
                exists|hint: Seq<char>|
                    {
                        &&& #[trigger] hint.is_prefix_of(trimmed(complaint))
                        &&& hint.len() == (if trimmed(complaint).len() < 200 {
                            trimmed(complaint).len()
                        } else {
                            200
                        })
                        &&& told(SearchEnd::Exited) == Ok::<Seq<char>, ErrorView>(
                            "No matches. ("@ + hint + ")"@,
                        )
                    }
            }
        }),
{
    lemma_thirty();
    reveal_strlit("grep_search timed out after ");
    reveal_strlit("s with no results.");
    reveal_strlit("grep_search timed out after 30s with no results.");
    assert("grep_search timed out after "@ + decimal(SEARCH_TIMEOUT_SECS as nat)
        + "s with no results."@ =~= "grep_search timed out after 30s with no results."@);
    law_blank_text_trims_to_nothing(complaint);
    law_first_chars_are_a_beginning(trimmed(complaint), MAX_HINT_CHARS as nat);
    let hint = first_chars(trimmed(complaint), MAX_HINT_CHARS as nat);
    assert(hint.is_prefix_of(trimmed(complaint)));
}

} // verus!
