//! How long a search program is waited for.
use vstd::prelude::*;

verus! {

/// Wall-clock ceiling for symbol_search / grep_search.
pub const SEARCH_TIMEOUT_SECS: u64 = 30;

/// How long to sleep between two looks at the program, in milliseconds.
pub const WATCH_SLEEP_MILLIS: u64 = 50;

/// What is seen while the program runs.
#[derive(Debug, Copy, Clone, PartialEq, Eq, Structural)]
pub enum WatchEvent {
    /// The time has come for another look.
    Tick {
        /// Whether the user has canceled the search.
        canceled: bool,
        /// The whole seconds since the program was started.
        elapsed_secs: u64,
    },
    /// The answer to whether the program has come to its end.
    Child { exited: bool },
}

/// What is to be done next.
#[derive(Debug, Copy, Clone, PartialEq, Eq, Structural)]
pub enum WatchAction {
    /// Ask whether the program has come to its end.
    AskChild,
    /// Sleep, then look again.
    Sleep { millis: u64 },
    /// Kill the program where `kill` says so, and watch no longer.
    Stop { ended: SearchEnd, kill: bool },
}

/// How the wait for the program ended.
#[derive(Debug, Copy, Clone, PartialEq, Eq, Structural)]
pub enum SearchEnd {
    /// The program came to its end.
    Exited,
    /// The program took too long.
    TimedOut,
    /// The user canceled the search.
    Canceled,
}

/// What to do on an event: a canceled search stops at once, one whose time is up stops before the
/// program is asked, and a program that still runs is looked at again after a pause.
pub open spec fn watch_step_spec(event: WatchEvent) -> WatchAction {
    match event {
        WatchEvent::Tick { canceled, elapsed_secs } => if canceled {
            WatchAction::Stop { ended: SearchEnd::Canceled, kill: true }
        } else if elapsed_secs >= SEARCH_TIMEOUT_SECS {
            WatchAction::Stop { ended: SearchEnd::TimedOut, kill: true }
        } else {
            WatchAction::AskChild
        },
        WatchEvent::Child { exited } => if exited {
            WatchAction::Stop { ended: SearchEnd::Exited, kill: false }
        } else {
            WatchAction::Sleep { millis: WATCH_SLEEP_MILLIS }
        },
    }
}

/// What to do on an event (see [`watch_step_spec`]).
pub fn watch_step(event: WatchEvent) -> (action: WatchAction)
    ensures
        action == watch_step_spec(event),
{
    match event {
        WatchEvent::Tick { canceled, elapsed_secs } => {
            if canceled {
                WatchAction::Stop { ended: SearchEnd::Canceled, kill: true }
            } else if elapsed_secs >= SEARCH_TIMEOUT_SECS {
                WatchAction::Stop { ended: SearchEnd::TimedOut, kill: true }
            } else {
                WatchAction::AskChild
            }
        },
        WatchEvent::Child { exited } => {
            if exited {
                WatchAction::Stop { ended: SearchEnd::Exited, kill: false }
            } else {
                WatchAction::Sleep { millis: WATCH_SLEEP_MILLIS }
            }
        },
    }
}

// ---- Laws ----

/// A canceled search is stopped as canceled, however long it has run, and a look at a search whose
/// time is up always stops it.
pub proof fn law_watch_is_bounded(canceled: bool, elapsed_secs: u64)
    ensures
        canceled ==> watch_step_spec(WatchEvent::Tick { canceled, elapsed_secs })
            == (WatchAction::Stop { ended: SearchEnd::Canceled, kill: true }),
        elapsed_secs >= SEARCH_TIMEOUT_SECS ==> watch_step_spec(
            WatchEvent::Tick { canceled, elapsed_secs },
        ) is Stop,
{
}

/// The program is killed exactly where it is given up before its end.
pub proof fn law_watch_kills_what_it_gives_up(event: WatchEvent)
    ensures
        watch_step_spec(event) matches WatchAction::Stop { ended, kill } ==> (kill <==> ended
            != SearchEnd::Exited),
{
}

/// A search that was not canceled is watched for thirty seconds: before that the program is asked
/// whether it has ended, and from then on it is stopped as timed out.
pub proof fn law_watch_lasts_thirty_seconds(elapsed_secs: u64)
    ensures
        elapsed_secs < 30 <==> watch_step_spec(WatchEvent::Tick { canceled: false, elapsed_secs })
            is AskChild,
        elapsed_secs >= 30 <==> watch_step_spec(WatchEvent::Tick { canceled: false, elapsed_secs })
            == (WatchAction::Stop { ended: SearchEnd::TimedOut, kill: true }),
{
}

/// A program that has ended is watched no longer and not killed. One that has not is looked at
/// again after fifty milliseconds.
pub proof fn law_watch_ends_with_the_program(exited: bool)
    ensures
        exited <==> watch_step_spec(WatchEvent::Child { exited }) == (WatchAction::Stop {
            ended: SearchEnd::Exited,
            kill: false,
        }),
        !exited <==> watch_step_spec(WatchEvent::Child { exited }) == (WatchAction::Sleep {
            millis: 50,
        }),
{
}

} // verus!
