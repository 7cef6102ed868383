use vstd::prelude::*;
use crate::text::{trim, trim_text};

verus! {

/// How many times a search request is tried.
pub const SEARCH_ATTEMPTS: usize = 5;

/// How many times a page of the site is requested before giving up.
pub const PAGE_ATTEMPTS: usize = 5;

/// How many times the search for a comic's identifier is tried.
pub const LOOKUP_ATTEMPTS: usize = 3;

/// What to do before a request: send it, stop because the user cancelled, or give
/// up because every attempt failed.
#[derive(Debug, Clone, Copy, PartialEq, Eq)]
pub enum AttemptDecision {
    Attempt,
    Cancelled,
    GiveUp,
}

/// The decision before a request, once `attempts_made` requests have failed.
pub open spec fn attempt_decision(attempts_made: nat, max_attempts: nat, cancelled: bool) -> AttemptDecision {
    if attempts_made >= max_attempts {
        AttemptDecision::GiveUp
    } else if cancelled {
        AttemptDecision::Cancelled
    } else {
        AttemptDecision::Attempt
    }
}

/// Decides, before a request, whether to send it: never more than `max_attempts`
/// requests, and none once the user has cancelled.
pub fn next_attempt(attempts_made: usize, max_attempts: usize, cancelled: bool) -> (res: AttemptDecision)
    ensures
        res == attempt_decision(attempts_made as nat, max_attempts as nat, cancelled),
{
    if attempts_made >= max_attempts {
        AttemptDecision::GiveUp
    } else if cancelled {
        AttemptDecision::Cancelled
    } else {
        AttemptDecision::Attempt
    }
}

/// The number of requests sent when each one fails and the user never cancels.
pub open spec fn requests_until_give_up(made: nat, max_attempts: nat) -> nat
    decreases max_attempts - made,
{
    if attempt_decision(made, max_attempts, false) == AttemptDecision::Attempt {
        1 + requests_until_give_up(made + 1, max_attempts)
    } else {
        0
    }
}

/// When every request fails, exactly `max_attempts` requests are sent before giving up.
pub proof fn lemma_requests_bounded(made: nat, max_attempts: nat)
    requires
        made <= max_attempts,
    ensures
        requests_until_give_up(made, max_attempts) == max_attempts - made,
    decreases max_attempts - made,
{
    if made < max_attempts {
        lemma_requests_bounded(made + 1, max_attempts);
    }
}

/// What a line read from the console leads to.
#[derive(Debug, Clone, PartialEq, Eq)]
pub enum LineStep {
    /// A non-blank line, trimmed.
    Accept(String),
    /// A blank line: ask again.
    AskAgain,
    /// The input ended or could not be read.
    Stop,
}

/// Decides on a line read from the console (`None` where the input ended or failed):
/// a blank line is asked again, any other is taken trimmed.
pub fn line_step(read: Option<&str>) -> (res: LineStep)
    ensures
        match read {
            None => res == LineStep::Stop,
            Some(line) => match res {
                LineStep::Accept(t) => t@ == trim(line@) && trim(line@).len() > 0,
                LineStep::AskAgain => trim(line@).len() == 0,
                LineStep::Stop => false,
            },
        },
{
    match read {
        None => LineStep::Stop,
        Some(line) => {
            let t = trim_text(line);
            if t.as_str().is_empty() {
                LineStep::AskAgain
            } else {
                LineStep::Accept(t)
            }
        },
    }
}

/// The entries of the main menu.
#[derive(Debug, Clone, Copy, PartialEq, Eq)]
pub enum MenuAction {
    Search,
    CheckUpdates,
    Quit,
    Invalid,
}

/// The main menu's choice for the number entered (`None` where no number was read).
pub fn menu_action(choice: Option<usize>) -> (res: MenuAction)
    ensures
        res == match choice {
            Some(1) => MenuAction::Search,
            Some(2) => MenuAction::CheckUpdates,
            Some(3) => MenuAction::Quit,
            _ => MenuAction::Invalid,
        },
{
    match choice {
        Some(1) => MenuAction::Search,
        Some(2) => MenuAction::CheckUpdates,
        Some(3) => MenuAction::Quit,
        _ => MenuAction::Invalid,
    }
}

/// Whether the program must end: the second Ctrl+C quits.
pub fn exit_requested(cancel_count: usize) -> (res: bool)
    ensures
        res == (cancel_count >= 2),
{
    cancel_count >= 2
}

/// The entries of the home screen.
#[derive(Debug, Clone, Copy, PartialEq, Eq)]
pub enum HomeChoice {
    Search,
    ViewDownloads,
    CheckUpdates,
    Exit,
    Invalid,
}

/// The home screen's entry for the number entered.
pub fn home_choice(n: i32) -> (res: HomeChoice)
    ensures
        res == if n == 1 {
            HomeChoice::Search
        } else if n == 2 {
            HomeChoice::ViewDownloads
        } else if n == 3 {
            HomeChoice::CheckUpdates
        } else if n == 4 {
            HomeChoice::Exit
        } else {
            HomeChoice::Invalid
        },
{
    if n == 1 {
        HomeChoice::Search
    } else if n == 2 {
        HomeChoice::ViewDownloads
    } else if n == 3 {
        HomeChoice::CheckUpdates
    } else if n == 4 {
        HomeChoice::Exit
    } else {
        HomeChoice::Invalid
    }
}

/// What happened in one try at downloading an image.
#[derive(Debug, Clone, Copy, PartialEq, Eq)]
pub enum PageEvent {
    /// The user had cancelled before the try (after a failed try, the file that
    /// try created is left empty and is deleted).
    Cancelled,
    /// The image was received whole.
    Finished,
    /// The user cancelled while the image was being received.
    Interrupted,
    /// The site answered with an error status.
    BadStatus,
    /// The request failed.
    RequestFailed,
}

/// What to do after a try at downloading an image.
#[derive(Debug, Clone, Copy, PartialEq, Eq)]
pub enum PageAction {
    /// Stop trying.
    Stop,
    /// The image is saved; report that a retry succeeded where an earlier try failed.
    Done { announce_recovery: bool },
    /// Delete the partly written file and stop.
    DiscardAndStop,
    /// Wait and try again; report the failure where it is the first one.
    RetryLater { announce_failure: bool },
}

/// The action after a try, given whether an earlier try of this image failed, and
/// whether a try has now failed.
pub open spec fn page_transition(had_error: bool, event: PageEvent) -> (bool, PageAction) {
    match event {
        PageEvent::Cancelled => (had_error, if had_error { PageAction::DiscardAndStop } else { PageAction::Stop }),
        PageEvent::Finished => (had_error, PageAction::Done { announce_recovery: had_error }),
        PageEvent::Interrupted => (had_error, PageAction::DiscardAndStop),
        PageEvent::BadStatus => (true, PageAction::RetryLater { announce_failure: !had_error }),
        PageEvent::RequestFailed => (true, PageAction::RetryLater { announce_failure: !had_error }),
    }
}

/// Decides what follows a try at downloading an image.
pub fn page_step(had_error: bool, event: PageEvent) -> (res: (bool, PageAction))
    ensures
        res == page_transition(had_error, event),
{
    match event {
        PageEvent::Cancelled => (had_error, if had_error { PageAction::DiscardAndStop } else { PageAction::Stop }),
        PageEvent::Finished => (had_error, PageAction::Done { announce_recovery: had_error }),
        PageEvent::Interrupted => (had_error, PageAction::DiscardAndStop),
        PageEvent::BadStatus => (true, PageAction::RetryLater { announce_failure: !had_error }),
        PageEvent::RequestFailed => (true, PageAction::RetryLater { announce_failure: !had_error }),
    }
}

/// The number of failure reports over a run of tries, starting from `had_error`.
pub open spec fn failure_reports(had_error: bool, events: Seq<PageEvent>) -> nat
    decreases events.len(),
{
    if events.len() == 0 {
        0
    } else {
        let (next, action) = page_transition(had_error, events[0]);
        (if action == (PageAction::RetryLater { announce_failure: true }) { 1nat } else { 0nat })
            + failure_reports(next, events.drop_first())
    }
}

/// However many tries of an image fail, its failure is reported at most once, and
/// not at all once an earlier failure was reported.
pub proof fn lemma_failure_reported_once(had_error: bool, events: Seq<PageEvent>)
    ensures
        failure_reports(had_error, events) <= 1,
        had_error ==> failure_reports(had_error, events) == 0,
    decreases events.len(),
{
    if events.len() > 0 {
        let (next, action) = page_transition(had_error, events[0]);
        lemma_failure_reported_once(next, events.drop_first());
        if action == (PageAction::RetryLater { announce_failure: true }) {
            assert(next);
        }
    }
}


/// Whether a try at downloading an image failed (an error status or a failed request).
pub open spec fn failed_try(event: PageEvent) -> bool {
    event == PageEvent::BadStatus || event == PageEvent::RequestFailed
}

/// A failed try never ends an image's download: it is always followed by another try
/// after a pause, the failure is remembered, and it is reported exactly when no
/// earlier try had failed. Only a cancellation, an interrupted transfer or a finished
/// transfer ends the tries; the memory of a failure is never lost.
pub proof fn lemma_failed_try_retries(had_error: bool, event: PageEvent)
    ensures
        failed_try(event) ==> page_transition(had_error, event) == (
            true,
            PageAction::RetryLater { announce_failure: !had_error },
        ),
        !failed_try(event) ==> !(page_transition(had_error, event).1 is RetryLater),
        page_transition(had_error, event).0 == (had_error || failed_try(event)),
        event == PageEvent::Finished ==> page_transition(had_error, event).1 == (PageAction::Done {
            announce_recovery: had_error,
        }),
{
}

} // verus!
