//! The states a trainee's onboarding session can be in.

use vstd::prelude::*;

verus! {

/// State of one onboarding session. A session walks from `Pending` through
/// the review exercise to `PendingManagerReview`, where a manager decides
/// between `Completed` and `Denied`.
#[derive(Clone, Copy, Debug, PartialEq, Eq, Structural)]
pub enum OnboardState {
    Pending,
    Started,
    QueueRemindedReviewer,
    Claimed,
    InQuiz,
    PendingManagerReview,
    Denied,
    Completed,
}

impl OnboardState {
    /// Terminal states: no trainee-initiated transition leaves them.
    /// `Denied` and `Completed` can only be left through a manager reset.
    pub open spec fn is_terminal(self) -> bool {
        self == OnboardState::Denied || self == OnboardState::Completed
    }

    /// States the expiry reaper may force back to `Pending` once the
    /// session's deadline has passed. A session awaiting manager review and
    /// a completed session are never reaped.
    pub open spec fn is_reapable(self) -> bool {
        self != OnboardState::PendingManagerReview && self != OnboardState::Completed
    }

    /// Executable form of `is_terminal`.
    pub fn terminal(&self) -> (r: bool)
        ensures
            r == self.is_terminal(),
    {
        matches!(self, OnboardState::Denied | OnboardState::Completed)
    }

    /// Executable form of `is_reapable`.
    pub fn reapable(&self) -> (r: bool)
        ensures
            r == self.is_reapable(),
    {
        !matches!(self, OnboardState::PendingManagerReview | OnboardState::Completed)
    }

    /// Stable snake_case name of the state, as stored and shown to callers.
    pub fn name(&self) -> (r: &'static str)
        ensures
            r@ == self.spec_name(),
    {
        match self {
            OnboardState::Pending => "pending",
            OnboardState::Started => "started",
            OnboardState::QueueRemindedReviewer => "queue_reminded_reviewer",
            OnboardState::Claimed => "claimed",
            OnboardState::InQuiz => "in_quiz",
            OnboardState::PendingManagerReview => "pending_manager_review",
            OnboardState::Denied => "denied",
            OnboardState::Completed => "completed",
        }
    }

    /// The name `name` returns, as a sequence of characters.
    pub open spec fn spec_name(self) -> Seq<char> {
        match self {
            OnboardState::Pending => "pending"@,
            OnboardState::Started => "started"@,
            OnboardState::QueueRemindedReviewer => "queue_reminded_reviewer"@,
            OnboardState::Claimed => "claimed"@,
            OnboardState::InQuiz => "in_quiz"@,
            OnboardState::PendingManagerReview => "pending_manager_review"@,
            OnboardState::Denied => "denied"@,
            OnboardState::Completed => "completed"@,
        }
    }
}

} // verus!
