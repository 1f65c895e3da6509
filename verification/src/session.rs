//! The onboarding session row and its internal invariant.

use vstd::prelude::*;

use crate::challenge;
use crate::quiz::{Answer, Question};
use crate::states::OnboardState;

verus! {

/// What the trainee decided about the sandbox resource, recorded when the
/// decision is submitted.
#[derive(Clone, Copy, Debug, PartialEq, Eq, Structural)]
pub enum VerdictAction {
    Approve,
    Deny,
}

/// The trainee's decision on the sandbox resource.
#[derive(Debug)]
pub struct Verdict {
    pub action: VerdictAction,
    pub reason: String,
    /// When the review ended, as seconds since the epoch.
    pub end_review_time: i64,
}

/// One onboarding attempt. Mutated exclusively through the engine's
/// transition methods, never by direct field writes from callers.
#[derive(Debug)]
pub struct OnboardingSession {
    /// Opaque unique identifier, assigned at creation, immutable.
    pub id: u64,
    /// Identifier of the human being onboarded.
    pub trainee_id: String,
    pub state: OnboardState,
    /// Reference to the ephemeral external workspace, present once
    /// provisioned and cleared on teardown.
    pub workspace_id: Option<u64>,
    /// Per-session secret behind the verification challenge; regenerated on
    /// every guide request, which invalidates earlier display codes.
    pub verification_seed: Option<String>,
    /// Session start, as seconds since the epoch; reset whenever the
    /// session is forced back to `Pending`.
    pub created_at: i64,
    /// Marks a superseded session so lookups skip it without the row being
    /// deleted.
    pub void: bool,
    /// Snapshot of the sampled question set, once a quiz is assigned.
    pub quiz_questions: Option<Vec<Question>>,
    /// The submitted answers, once the quiz is submitted.
    pub quiz_answers: Option<Vec<Answer>>,
    pub verdict: Option<Verdict>,
}

/// A caller-facing snapshot of a session.
#[derive(Debug)]
pub struct SessionView {
    pub id: u64,
    pub trainee_id: String,
    pub state: OnboardState,
    pub workspace_id: Option<u64>,
    pub created_at: i64,
}

impl OnboardingSession {
    /// The snapshot of this session.
    pub open spec fn spec_view_of(self) -> SessionView {
        SessionView {
            id: self.id,
            trainee_id: self.trainee_id,
            state: self.state,
            workspace_id: self.workspace_id,
            created_at: self.created_at,
        }
    }

    /// Builds the snapshot of this session.
    pub fn view_of(&self) -> (r: SessionView)
        ensures
            r == self.spec_view_of(),
    {
        SessionView {
            id: self.id,
            trainee_id: self.trainee_id.clone(),
            state: self.state,
            workspace_id: self.workspace_id,
            created_at: self.created_at,
        }
    }

    /// The structural invariant of a live session:
    /// - the workspace reference is present exactly outside `Pending` and
    ///   `Completed` (provisioning binds it on entering the queue; approval
    ///   and resets tear it down);
    /// - a verification seed exists only once the guide was requested in
    ///   the current attempt, never in `Pending`, and is always 76
    ///   characters of alphanumeric text;
    /// - the verdict exists exactly from the decision submission onward;
    /// - quiz data appears only from quiz assignment onward, and submitted
    ///   answers exactly from quiz submission onward;
    /// - the start timestamp is never negative.
    pub open spec fn shape_inv(self) -> bool {
        &&& self.created_at >= 0
        &&& (self.workspace_id is Some <==> (self.state != OnboardState::Pending && self.state
            != OnboardState::Completed))
        &&& (self.state == OnboardState::Pending ==> self.verification_seed is None)
        &&& (match self.verification_seed {
            Some(s) => s@.len() == challenge::SEED_LEN as int && challenge::all_alnum(s@),
            None => true,
        })
        &&& (self.verdict is Some <==> (self.state == OnboardState::InQuiz || self.state
            == OnboardState::PendingManagerReview || self.state == OnboardState::Denied
            || self.state == OnboardState::Completed))
        &&& (self.quiz_questions is Some ==> (self.state == OnboardState::InQuiz || self.state
            == OnboardState::PendingManagerReview || self.state == OnboardState::Denied
            || self.state == OnboardState::Completed))
        &&& (self.quiz_answers is Some <==> (self.state == OnboardState::PendingManagerReview
            || self.state == OnboardState::Denied || self.state == OnboardState::Completed))
        &&& (self.quiz_answers is Some ==> self.quiz_questions is Some)
    }

    /// Whether the session has outlived the timeout at the given instant.
    pub open spec fn spec_expired(self, now: i64, timeout_secs: i64) -> bool {
        now - self.created_at > timeout_secs
    }

    /// Executable form of `spec_expired`.
    pub fn expired(&self, now: i64, timeout_secs: i64) -> (r: bool)
        requires
            now >= 0,
            self.created_at >= 0,
            timeout_secs >= 0,
        ensures
            r == self.spec_expired(now, timeout_secs),
    {
        now >= self.created_at && now - self.created_at > timeout_secs
    }
}

} // verus!
