//! Typed rejections returned by the session engine.
//!
//! Guard and state errors are always recovered into these values; they never
//! cross the engine boundary as anything else. Each carries enough to build
//! a human-readable explanation through `message`.

use vstd::prelude::*;

use crate::states::OnboardState;

verus! {

/// Why a guard on an otherwise legal transition failed.
#[derive(Clone, Copy, Debug, PartialEq, Eq, Structural)]
pub enum GuardReason {
    /// The decision reason was shorter than the required 30 characters.
    ReasonTooShort,
    /// The action targeted something other than the designated sandbox resource.
    WrongTarget,
    /// A force-claim was attempted without a prior reminder.
    ReminderRequired,
    /// No quiz has been assigned to the session yet.
    QuizMissing,
    /// The guide was never requested, so no verification seed exists.
    GuideNotRequested,
    /// A sampled question has no submitted answer.
    AnswerMissing,
    /// A short-answer response was under 50 characters.
    ShortAnswerTooShort,
    /// A long-answer response was under 750 characters.
    LongAnswerTooShort,
    /// A multiple-choice response was not one of the allowed choices.
    InvalidChoice,
    /// The submitted verification code held a non-alphanumeric character.
    CodeNotAlphanumeric,
    /// The submitted verification code did not match the derived code.
    WrongCode,
    /// The client-supplied fragment does not match the session's seed.
    WrongFragment,
}

/// A rejected transition request.
#[derive(Clone, Copy, Debug, PartialEq, Eq, Structural)]
pub enum Rejection {
    /// The requested trigger is illegal from the current state, which is named.
    InvalidState(OnboardState),
    /// A precondition on a legal transition failed.
    GuardFailed(GuardReason),
    /// Workspace provisioning is blocked by the global admission cap.
    CapacityExceeded,
    /// The session changed between the caller's read and this request.
    ConcurrentModification,
    /// The workspace provider failed; the caller may retry.
    ProviderUnavailable,
}

impl GuardReason {
    /// The explanation shown for this guard failure.
    pub open spec fn spec_message(self) -> Seq<char> {
        match self {
            GuardReason::ReasonTooShort => "the reason must be at least 30 characters long"@,
            GuardReason::WrongTarget => "only the sandbox resource can be targeted here"@,
            GuardReason::ReminderRequired => "send the reminder before force-claiming"@,
            GuardReason::QuizMissing => "no quiz has been assigned to this session"@,
            GuardReason::GuideNotRequested => "request the guide first to obtain a verification code"@,
            GuardReason::AnswerMissing => "every sampled question needs an answer"@,
            GuardReason::ShortAnswerTooShort => "short answers must be at least 50 characters long"@,
            GuardReason::LongAnswerTooShort => "long answers must be at least 750 characters long"@,
            GuardReason::InvalidChoice => "the answer must be one of the allowed choices"@,
            GuardReason::CodeNotAlphanumeric => "the verification code must be alphanumeric"@,
            GuardReason::WrongCode => "incorrect verification code"@,
            GuardReason::WrongFragment => "the fragment does not match the current guide"@,
        }
    }

    /// Human-readable explanation of the failure.
    pub fn message(&self) -> (r: &'static str)
        ensures
            r@ == self.spec_message(),
    {
        match self {
            GuardReason::ReasonTooShort => "the reason must be at least 30 characters long",
            GuardReason::WrongTarget => "only the sandbox resource can be targeted here",
            GuardReason::ReminderRequired => "send the reminder before force-claiming",
            GuardReason::QuizMissing => "no quiz has been assigned to this session",
            GuardReason::GuideNotRequested => "request the guide first to obtain a verification code",
            GuardReason::AnswerMissing => "every sampled question needs an answer",
            GuardReason::ShortAnswerTooShort => "short answers must be at least 50 characters long",
            GuardReason::LongAnswerTooShort => "long answers must be at least 750 characters long",
            GuardReason::InvalidChoice => "the answer must be one of the allowed choices",
            GuardReason::CodeNotAlphanumeric => "the verification code must be alphanumeric",
            GuardReason::WrongCode => "incorrect verification code",
            GuardReason::WrongFragment => "the fragment does not match the current guide",
        }
    }
}

impl Rejection {
    /// The explanation shown for this rejection.
    pub open spec fn spec_message(self) -> Seq<char> {
        match self {
            Rejection::InvalidState(s) => "this request is not allowed in the current state: "@
                + s.spec_name(),
            Rejection::GuardFailed(g) => g.spec_message(),
            Rejection::CapacityExceeded => "too many workspaces are open right now; try again later"@,
            Rejection::ConcurrentModification => "the session is no longer active; reload and retry"@,
            Rejection::ProviderUnavailable => "the workspace provider is unavailable; try again later"@,
        }
    }

    /// Human-readable explanation of the rejection.
    pub fn message(&self) -> (r: String)
        ensures
            r@ == self.spec_message(),
    {
        match self {
            Rejection::InvalidState(s) => String::from_str(
                "this request is not allowed in the current state: ",
            ).concat(s.name()),
            Rejection::GuardFailed(g) => String::from_str(g.message()),
            Rejection::CapacityExceeded => String::from_str(
                "too many workspaces are open right now; try again later",
            ),
            Rejection::ConcurrentModification => String::from_str(
                "the session is no longer active; reload and retry",
            ),
            Rejection::ProviderUnavailable => String::from_str(
                "the workspace provider is unavailable; try again later",
            ),
        }
    }
}

} // verus!
