//! The decisions of a bounded retry: whether another attempt is made, and
//! what follows from the outcome of one. The caller makes the attempts and
//! waits between them.

use vstd::prelude::*;

verus! {

/// How one attempt to fetch something ended.
#[derive(Clone, Copy, Debug, PartialEq, Eq, Structural)]
pub enum Outcome {
    /// The answer came and could be used.
    Success,
    /// The server said that the address does not exist.
    NotFound,
    /// The server answered with another failure status.
    BadStatus,
    /// The answer came and could not be read.
    Unreadable,
    /// No answer came.
    SendFailed,
}

/// What a response's status code says of a request.
#[derive(Clone, Copy, Debug, PartialEq, Eq, Structural)]
pub enum StatusClass {
    /// The request was served: a code from 200 to 299.
    Served,
    /// The address does not exist: code 404.
    Missing,
    /// Any other code.
    Refused,
}

/// The class of a status code.
pub open spec fn status_class_of(code: u16) -> StatusClass {
    if code == 404 {
        StatusClass::Missing
    } else if 200 <= code < 300 {
        StatusClass::Served
    } else {
        StatusClass::Refused
    }
}

/// The outcome of an attempt that was answered with the given status code
/// and, where the request was served, a body that was readable or not.
pub open spec fn outcome_of(code: u16, readable: bool) -> Outcome {
    match status_class_of(code) {
        StatusClass::Missing => Outcome::NotFound,
        StatusClass::Refused => Outcome::BadStatus,
        StatusClass::Served => if readable {
            Outcome::Success
        } else {
            Outcome::Unreadable
        },
    }
}

/// What the caller does after an attempt.
#[derive(Clone, Copy, Debug, PartialEq, Eq, Structural)]
pub enum Step {
    /// Hand the answer on.
    Finish,
    /// Wait, then try again.
    Retry,
    /// Give up and report the outcome.
    GiveUp,
}

/// What follows after `attempts` attempts of at most `max_attempts`, the
/// last of which ended in `outcome`: success ends the work, a missing
/// address is final at once, and any other failure is retried while
/// attempts are left.
pub open spec fn step_after(attempts: usize, max_attempts: usize, outcome: Outcome) -> Step {
    match outcome {
        Outcome::Success => Step::Finish,
        Outcome::NotFound => Step::GiveUp,
        _ => if attempts < max_attempts {
            Step::Retry
        } else {
            Step::GiveUp
        },
    }
}

/// Classifies a status code.
pub fn classify_status(code: u16) -> (class: StatusClass)
    ensures
        class == status_class_of(code),
{
    if code == 404 {
        StatusClass::Missing
    } else if 200 <= code && code < 300 {
        StatusClass::Served
    } else {
        StatusClass::Refused
    }
}

/// The outcome of an attempt that was answered.
pub fn answered(code: u16, readable: bool) -> (outcome: Outcome)
    ensures
        outcome == outcome_of(code, readable),
{
    match classify_status(code) {
        StatusClass::Missing => Outcome::NotFound,
        StatusClass::Refused => Outcome::BadStatus,
        StatusClass::Served => if readable {
            Outcome::Success
        } else {
            Outcome::Unreadable
        },
    }
}

/// Whether an attempt is made after `attempts` attempts.
pub fn may_attempt(attempts: usize, max_attempts: usize) -> (b: bool)
    ensures
        b == (attempts < max_attempts),
{
    attempts < max_attempts
}

/// Decides what follows an attempt.
pub fn next_step(attempts: usize, max_attempts: usize, outcome: Outcome) -> (step: Step)
    ensures
        step == step_after(attempts, max_attempts, outcome),
{
    match outcome {
        Outcome::Success => Step::Finish,
        Outcome::NotFound => Step::GiveUp,
        _ => if attempts < max_attempts {
            Step::Retry
        } else {
            Step::GiveUp
        },
    }
}

/// No more than `max_attempts` attempts are made: a retry is asked for only
/// while attempts are left.
pub proof fn lemma_retries_are_bounded(attempts: usize, max_attempts: usize, outcome: Outcome)
    ensures
        step_after(attempts, max_attempts, outcome) == Step::Retry ==> attempts < max_attempts,
{
}

} // verus!
