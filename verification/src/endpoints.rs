use vstd::prelude::*;

use crate::database::SubmittedUrl;

verus! {

/// A URL sent in by a form.
#[derive(Debug)]
pub struct Submission {
    pub url: String,
}

/// How many times a URL submission is tried before the request fails.
pub const SUBMIT_ATTEMPTS: u32 = 3;

/// What to do after a URL submission was tried.
#[derive(Debug)]
pub enum AttemptOutcome {
    /// Answer the request with the submission.
    Respond(SubmittedUrl),
    /// Try the submission again.
    Retry,
    /// Answer the request with an error.
    GiveUp,
}

/// Decides, after `attempts_made` tries of which the last gave `submitted`,
/// whether to answer with it, try again, or fail: a successful submission is
/// answered at once, and a failed one is tried again until `SUBMIT_ATTEMPTS`
/// tries were made.
pub fn after_attempt(attempts_made: u32, submitted: SubmittedUrl) -> (res: AttemptOutcome)
    ensures
        submitted.success ==> (res matches AttemptOutcome::Respond(r) && r == submitted),
        !submitted.success && attempts_made < SUBMIT_ATTEMPTS ==> res is Retry,
        !submitted.success && attempts_made >= SUBMIT_ATTEMPTS ==> res is GiveUp,
{
    if submitted.success {
        AttemptOutcome::Respond(submitted)
    } else if attempts_made < SUBMIT_ATTEMPTS {
        AttemptOutcome::Retry
    } else {
        AttemptOutcome::GiveUp
    }
}

} // verus!
