//! Why a tool gives no result.
use vstd::prelude::*;

use crate::text::views;

verus! {

/// The reason, in the words that whoever called the tool gets to read, and what lay behind it.
#[derive(Debug)]
pub struct ToolError {
    /// The words.
    pub message: String,
    /// The failures further down that led to this one, each in its own words and before the one
    /// that led to it.
    pub causes: Vec<String>,
}

/// What an error says.
#[verifier::ext_equal]
pub struct ErrorView {
    pub message: Seq<char>,
    pub causes: Seq<Seq<char>>,
}

impl View for ToolError {
    type V = ErrorView;

    open spec fn view(&self) -> ErrorView {
        ErrorView { message: self.message@, causes: views(self.causes@) }
    }
}

/// The error with these words, and nothing behind it.
pub open spec fn failure(message: Seq<char>) -> ErrorView {
    ErrorView { message, causes: seq![] }
}

/// The error with these words that another one led to: that one is behind it, with all that is
/// behind that one.
pub open spec fn failure_behind(message: Seq<char>, cause: ErrorView) -> ErrorView {
    ErrorView { message, causes: seq![cause.message] + cause.causes }
}

impl ToolError {
    /// The error with these words, and nothing behind it.
    pub fn new(message: &str) -> (error: ToolError)
        ensures
            error@ == failure(message@),
    {
        let error = ToolError { message: message.to_owned(), causes: Vec::new() };
        assert(error@ =~= failure(message@));
        error
    }

    /// The error with these words that `cause` led to (see [`failure_behind`]).
    pub fn with_cause(message: &str, cause: &ToolError) -> (error: ToolError)
        ensures
            error@ == failure_behind(message@, cause@),
    {
        let mut causes = vec![cause.message.clone()];
        let mut i: usize = 0;
        while i < cause.causes.len()
            invariant
                i <= cause.causes@.len(),
                views(causes@) == seq![cause.message@] + views(cause.causes@).take(i as int),
            decreases cause.causes@.len() - i,
        {
            let ghost before = views(causes@);
            causes.push(cause.causes[i].clone());
            assert(views(causes@) =~= before.push(views(cause.causes@)[i as int]));
            i = i + 1;
            assert(views(causes@) =~= seq![cause.message@] + views(cause.causes@).take(i as int));
        }
        assert(views(cause.causes@).take(i as int) =~= views(cause.causes@));
        ToolError { message: message.to_owned(), causes }
    }
}

/// A tool's outcome, as values.
pub open spec fn outcome(result: Result<String, ToolError>) -> Result<Seq<char>, ErrorView> {
    match result {
        Ok(text) => Ok(text@),
        Err(error) => Err(error@),
    }
}

// ---- Laws ----

/// Nothing behind an error is lost when it leads to another: the failures behind the new one, from
/// the second on, are those behind the old one.
pub proof fn law_cause_keeps_what_is_behind_it(message: Seq<char>, cause: ErrorView)
    ensures
        failure_behind(message, cause).message == message,
        failure_behind(message, cause).causes.len() == 1 + cause.causes.len(),
        failure_behind(message, cause).causes[0] == cause.message,
        failure_behind(message, cause).causes.skip(1) == cause.causes,
{
}

/// An error says its own words, and those of what is behind it, in their order. An error that
/// nothing led to has nothing behind it. The outcome of a tool is what its text or its error says.
pub proof fn law_errors_say_their_words(error: ToolError, text: String, message: Seq<char>)
    ensures
        error@.message == error.message@,
        error@.causes.len() == error.causes@.len(),
        forall|i: int|
            0 <= i < error.causes@.len() ==> #[trigger] error@.causes[i] == error.causes@[i]@,
        failure(message).message == message,
        failure(message).causes.len() == 0,
        outcome(Ok(text)) == Ok::<Seq<char>, ErrorView>(text@),
        outcome(Err(error)) == Err::<Seq<char>, ErrorView>(error@),
{
}

} // verus!
