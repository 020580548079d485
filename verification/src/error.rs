//! What can go wrong, as values.
use vstd::prelude::*;

verus! {

/// Every failure the planner reports. Paths are carried as text.
#[derive(Debug, Clone)]
pub enum Error {
    NoDatabase(String),
    NotAGitRepo(String),
    Git(String),
    UnknownRepo(String),
    NoSuchPlan(String),
    AmbiguousPlan(String, usize, String),
    NoSuchSlice(String, String),
    DuplicateSlice(String, String),
    DuplicatePlan(String),
    Conflict(String, i64, i64),
    AlreadyClaimed(String, String, String),
    PlanIsHeld(String, usize, String),
    Invalid(String),
}

impl Error {
    pub fn invalid(msg: String) -> (e: Error)
        ensures
            e matches Error::Invalid(m) && m@ == msg@,
    {
        Error::Invalid(msg)
    }
}

} // verus!
