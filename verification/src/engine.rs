//! The session engine: the single authoritative store of onboarding
//! sessions and the only authority over transitions.
//!
//! Every caller reads a session, decides on a trigger, and hands the engine
//! the state it observed; the engine re-checks that state against the store
//! before applying anything and answers `ConcurrentModification` when the
//! session changed in between, so a request racing a reaper sweep or a
//! concurrent decision loses deterministically.
//!
//! Each transition method's contract is the corresponding `*_spec`
//! function, which is the transition table of the machine: it gives, for
//! every store and request, both the reply and the new store.

use vstd::prelude::*;

use crate::challenge;
use crate::errors::{GuardReason, Rejection};
use crate::quiz::{validate_answers, validate_spec, Answer, Question};
use crate::reaper::torn_model;
use crate::session::{OnboardingSession, SessionView, Verdict, VerdictAction};
use crate::states::OnboardState;

verus! {

/// Configuration of the engine, passed in so that tests can run with their
/// own timeouts and caps.
#[derive(Clone, Copy, Debug, PartialEq, Eq, Structural)]
pub struct EngineConfig {
    /// Seconds a session may live outside `PendingManagerReview` and
    /// `Completed` before the reaper resets it.
    pub timeout_secs: i64,
    /// Global cap on concurrently open ephemeral workspaces.
    pub workspace_cap: u64,
    /// Identifier of the designated sandbox resource trainees review.
    pub sandbox_resource: u64,
}

/// A transition outcome: the updated session snapshot and, where the
/// transition released a workspace, that workspace's reference so the
/// caller can tear it down.
#[derive(Debug)]
pub struct StepOutcome {
    pub view: SessionView,
    pub teardown: Option<u64>,
}

/// The engine: configuration plus the session store.
pub struct Engine {
    pub config: EngineConfig,
    sessions: Vec<OnboardingSession>,
}

impl View for Engine {
    type V = Seq<OnboardingSession>;

    /// The store's contents, oldest row first.
    closed spec fn view(&self) -> Seq<OnboardingSession> {
        self.sessions@
    }
}

/// The first index holding a session with the given id, or -1.
pub open spec fn find_idx(s: Seq<OnboardingSession>, id: u64) -> int
    decreases s.len(),
{
    if s.len() == 0 {
        -1
    } else if s.first().id == id {
        0
    } else if find_idx(s.drop_first(), id) == -1 {
        -1
    } else {
        1 + find_idx(s.drop_first(), id)
    }
}

/// The session with the given id, if any.
pub open spec fn find_session(s: Seq<OnboardingSession>, id: u64) -> Option<OnboardingSession> {
    if find_idx(s, id) < 0 {
        None
    } else {
        Some(s[find_idx(s, id)])
    }
}

/// The first index holding a live (non-void) session of the given trainee,
/// or -1.
pub open spec fn trainee_idx(s: Seq<OnboardingSession>, trainee: Seq<char>) -> int
    decreases s.len(),
{
    if s.len() == 0 {
        -1
    } else if !s.first().void && s.first().trainee_id@ == trainee {
        0
    } else if trainee_idx(s.drop_first(), trainee) == -1 {
        -1
    } else {
        1 + trainee_idx(s.drop_first(), trainee)
    }
}

/// The first index holding a live (non-void) session bound to the given
/// workspace, or -1.
pub open spec fn workspace_idx(s: Seq<OnboardingSession>, workspace_id: u64) -> int
    decreases s.len(),
{
    if s.len() == 0 {
        -1
    } else if !s.first().void && s.first().workspace_id == Some(workspace_id) {
        0
    } else if workspace_idx(s.drop_first(), workspace_id) == -1 {
        -1
    } else {
        1 + workspace_idx(s.drop_first(), workspace_id)
    }
}

/// The optimistic-concurrency gate: the session a request may act on, which
/// exists only when a session with that id is present, has not been
/// superseded, and still holds the state the caller observed.
pub open spec fn gate(s: Seq<OnboardingSession>, id: u64, expected: OnboardState) -> Option<
    OnboardingSession,
> {
    match find_session(s, id) {
        None => None,
        Some(sess) => if sess.void || sess.state != expected {
            None
        } else {
            Some(sess)
        },
    }
}

/// A freshly created session: pending, unprovisioned, with nothing
/// requested or recorded yet.
pub open spec fn pending_session(id: u64, trainee_id: String, created_at: i64) -> OnboardingSession {
    OnboardingSession {
        id,
        trainee_id,
        state: OnboardState::Pending,
        workspace_id: None,
        verification_seed: None,
        created_at,
        void: false,
        quiz_questions: None,
        quiz_answers: None,
        verdict: None,
    }
}

/// The session after entering the review queue with a provisioned
/// workspace bound to it.
pub open spec fn queued(s: OnboardingSession, workspace_id: u64) -> OnboardingSession {
    OnboardingSession { state: OnboardState::Started, workspace_id: Some(workspace_id), ..s }
}

/// The session after the reminder was sent.
pub open spec fn reminded(s: OnboardingSession) -> OnboardingSession {
    OnboardingSession { state: OnboardState::QueueRemindedReviewer, ..s }
}

/// The session after the sandbox resource was force-claimed.
pub open spec fn claimed(s: OnboardingSession) -> OnboardingSession {
    OnboardingSession { state: OnboardState::Claimed, ..s }
}

/// The session after the trainee submitted a decision on the sandbox
/// resource: the verdict is recorded and the quiz begins.
pub open spec fn decided(s: OnboardingSession, approve: bool, reason: String, now: i64) -> OnboardingSession {
    OnboardingSession {
        state: OnboardState::InQuiz,
        verdict: Some(
            Verdict {
                action: if approve {
                    VerdictAction::Approve
                } else {
                    VerdictAction::Deny
                },
                reason,
                end_review_time: now,
            },
        ),
        ..s
    }
}

/// The session after a guide request: the verification seed is replaced,
/// which invalidates every code derived from the previous seed.
pub open spec fn guide_requested(s: OnboardingSession, seed: String) -> OnboardingSession {
    OnboardingSession { verification_seed: Some(seed), ..s }
}

/// The session after a sampled question set was bound to it.
pub open spec fn quiz_assigned(s: OnboardingSession, questions: Vec<Question>) -> OnboardingSession {
    OnboardingSession { quiz_questions: Some(questions), ..s }
}

/// The session after a successful quiz submission, awaiting manager review.
pub open spec fn quiz_submitted(s: OnboardingSession, answers: Vec<Answer>) -> OnboardingSession {
    OnboardingSession {
        state: OnboardState::PendingManagerReview,
        quiz_answers: Some(answers),
        ..s
    }
}

/// The session after manager approval; its workspace is released.
pub open spec fn approved(s: OnboardingSession) -> OnboardingSession {
    OnboardingSession { state: OnboardState::Completed, workspace_id: None, ..s }
}

/// The session after manager denial. The workspace stays bound until a
/// reset or a reaper sweep reclaims it.
pub open spec fn denied(s: OnboardingSession) -> OnboardingSession {
    OnboardingSession { state: OnboardState::Denied, ..s }
}

/// The session after being forced back to the start: a fresh deadline, no
/// workspace, no seed, no quiz data, no verdict.
pub open spec fn reset_session(s: OnboardingSession, now: i64) -> OnboardingSession {
    OnboardingSession {
        state: OnboardState::Pending,
        workspace_id: None,
        verification_seed: None,
        created_at: now,
        quiz_questions: None,
        quiz_answers: None,
        verdict: None,
        ..s
    }
}

/// The session once superseded by a newer attempt of the same trainee.
pub open spec fn superseded(s: OnboardingSession) -> OnboardingSession {
    OnboardingSession { void: true, workspace_id: None, ..s }
}

/// Transition table for `enter_queue`: from `Pending`, with a provisioned
/// workspace, the session starts; any other gated state is rejected.
pub open spec fn enter_queue_spec(
    pre: Seq<OnboardingSession>,
    session_id: u64,
    expected: OnboardState,
    workspace_id: u64,
) -> (Result<SessionView, Rejection>, Seq<OnboardingSession>) {
    match gate(pre, session_id, expected) {
        None => (Err(Rejection::ConcurrentModification), pre),
        Some(sess) => if sess.state == OnboardState::Pending {
            (
                Ok(queued(sess, workspace_id).spec_view_of()),
                pre.update(find_idx(pre, session_id), queued(sess, workspace_id)),
            )
        } else {
            (Err(Rejection::InvalidState(sess.state)), pre)
        },
    }
}

/// Transition table for `remind_reviewer`: from `Started`, targeting the
/// sandbox resource, the reminder is recorded.
pub open spec fn remind_reviewer_spec(
    pre: Seq<OnboardingSession>,
    session_id: u64,
    expected: OnboardState,
    target: u64,
    sandbox_resource: u64,
) -> (Result<SessionView, Rejection>, Seq<OnboardingSession>) {
    match gate(pre, session_id, expected) {
        None => (Err(Rejection::ConcurrentModification), pre),
        Some(sess) => if sess.state != OnboardState::Started {
            (Err(Rejection::InvalidState(sess.state)), pre)
        } else if target != sandbox_resource {
            (Err(Rejection::GuardFailed(GuardReason::WrongTarget)), pre)
        } else {
            (
                Ok(reminded(sess).spec_view_of()),
                pre.update(find_idx(pre, session_id), reminded(sess)),
            )
        },
    }
}

/// Transition table for `force_claim`: allowed only after the reminder was
/// sent; from `Started` it is refused with a guard failure.
pub open spec fn force_claim_spec(
    pre: Seq<OnboardingSession>,
    session_id: u64,
    expected: OnboardState,
) -> (Result<SessionView, Rejection>, Seq<OnboardingSession>) {
    match gate(pre, session_id, expected) {
        None => (Err(Rejection::ConcurrentModification), pre),
        Some(sess) => if sess.state == OnboardState::QueueRemindedReviewer {
            (Ok(claimed(sess).spec_view_of()), pre.update(find_idx(pre, session_id), claimed(sess)))
        } else if sess.state == OnboardState::Started {
            (Err(Rejection::GuardFailed(GuardReason::ReminderRequired)), pre)
        } else {
            (Err(Rejection::InvalidState(sess.state)), pre)
        },
    }
}

/// Transition table for `submit_decision`: from `Claimed`, targeting the
/// sandbox resource, with a reason of at least 30 characters, the verdict
/// is recorded and the quiz begins.
pub open spec fn submit_decision_spec(
    pre: Seq<OnboardingSession>,
    session_id: u64,
    expected: OnboardState,
    target: u64,
    sandbox_resource: u64,
    approve: bool,
    reason: String,
    now: i64,
) -> (Result<SessionView, Rejection>, Seq<OnboardingSession>) {
    match gate(pre, session_id, expected) {
        None => (Err(Rejection::ConcurrentModification), pre),
        Some(sess) => if sess.state != OnboardState::Claimed {
            (Err(Rejection::InvalidState(sess.state)), pre)
        } else if target != sandbox_resource {
            (Err(Rejection::GuardFailed(GuardReason::WrongTarget)), pre)
        } else if reason@.len() < 30 {
            (Err(Rejection::GuardFailed(GuardReason::ReasonTooShort)), pre)
        } else {
            (
                Ok(decided(sess, approve, reason, now).spec_view_of()),
                pre.update(find_idx(pre, session_id), decided(sess, approve, reason, now)),
            )
        },
    }
}

/// Whether a guide request is allowed from the gated state: any state of
/// the active exercise, from entering the queue up to the quiz.
pub open spec fn guide_allowed(state: OnboardState) -> bool {
    state == OnboardState::Started || state == OnboardState::QueueRemindedReviewer || state
        == OnboardState::Claimed || state == OnboardState::InQuiz
}

/// Transition table for `submit_quiz`: from `InQuiz`, with a quiz
/// assigned, a seed issued, the right verification code and valid answers,
/// the session moves to manager review. The checks run in that order, and
/// the first failure decides the error.
pub open spec fn submit_quiz_spec(
    pre: Seq<OnboardingSession>,
    session_id: u64,
    expected: OnboardState,
    answers: Vec<Answer>,
    code: Seq<char>,
) -> (Result<SessionView, Rejection>, Seq<OnboardingSession>) {
    match gate(pre, session_id, expected) {
        None => (Err(Rejection::ConcurrentModification), pre),
        Some(sess) => if sess.state != OnboardState::InQuiz {
            (Err(Rejection::InvalidState(sess.state)), pre)
        } else if sess.quiz_questions is None {
            (Err(Rejection::GuardFailed(GuardReason::QuizMissing)), pre)
        } else if sess.verification_seed is None {
            (Err(Rejection::GuardFailed(GuardReason::GuideNotRequested)), pre)
        } else {
            match challenge::check_spec(
                sess.verification_seed->0@,
                sess.trainee_id@,
                code,
            ) {
                Err(g) => (Err(Rejection::GuardFailed(g)), pre),
                Ok(false) => (Err(Rejection::GuardFailed(GuardReason::WrongCode)), pre),
                Ok(true) => match validate_spec(sess.quiz_questions->0@, answers@) {
                    Err(g) => (Err(Rejection::GuardFailed(g)), pre),
                    Ok(()) => (
                        Ok(quiz_submitted(sess, answers).spec_view_of()),
                        pre.update(find_idx(pre, session_id), quiz_submitted(sess, answers)),
                    ),
                },
            }
        },
    }
}

/// Transition table for `manager_approve`: from `PendingManagerReview` the
/// session completes and its workspace is released for teardown.
pub open spec fn manager_approve_spec(
    pre: Seq<OnboardingSession>,
    session_id: u64,
    expected: OnboardState,
) -> (Result<StepOutcome, Rejection>, Seq<OnboardingSession>) {
    match gate(pre, session_id, expected) {
        None => (Err(Rejection::ConcurrentModification), pre),
        Some(sess) => if sess.state == OnboardState::PendingManagerReview {
            (
                Ok(StepOutcome { view: approved(sess).spec_view_of(), teardown: sess.workspace_id }),
                pre.update(find_idx(pre, session_id), approved(sess)),
            )
        } else {
            (Err(Rejection::InvalidState(sess.state)), pre)
        },
    }
}

/// Transition table for `manager_deny`: from `PendingManagerReview` the
/// session is denied; only a manager reset or the reaper can move it on.
pub open spec fn manager_deny_spec(
    pre: Seq<OnboardingSession>,
    session_id: u64,
    expected: OnboardState,
) -> (Result<SessionView, Rejection>, Seq<OnboardingSession>) {
    match gate(pre, session_id, expected) {
        None => (Err(Rejection::ConcurrentModification), pre),
        Some(sess) => if sess.state == OnboardState::PendingManagerReview {
            (Ok(denied(sess).spec_view_of()), pre.update(find_idx(pre, session_id), denied(sess)))
        } else {
            (Err(Rejection::InvalidState(sess.state)), pre)
        },
    }
}

/// Transition table for `manager_reset`: from review, denial or
/// completion, the session returns to `Pending` with a fresh deadline, its
/// verdict cleared and its workspace released for teardown.
pub open spec fn manager_reset_spec(
    pre: Seq<OnboardingSession>,
    session_id: u64,
    expected: OnboardState,
    now: i64,
) -> (Result<StepOutcome, Rejection>, Seq<OnboardingSession>) {
    match gate(pre, session_id, expected) {
        None => (Err(Rejection::ConcurrentModification), pre),
        Some(sess) => if sess.state == OnboardState::PendingManagerReview || sess.state
            == OnboardState::Denied || sess.state == OnboardState::Completed {
            (
                Ok(
                    StepOutcome {
                        view: reset_session(sess, now).spec_view_of(),
                        teardown: sess.workspace_id,
                    },
                ),
                pre.update(find_idx(pre, session_id), reset_session(sess, now)),
            )
        } else {
            (Err(Rejection::InvalidState(sess.state)), pre)
        },
    }
}

/// Transition table for `begin`, keyed by the trainee rather than a
/// session id. `fresh_id` is the id a created session receives.
pub open spec fn begin_spec(
    pre: Seq<OnboardingSession>,
    trainee_id: String,
    now: i64,
    open_workspaces: u64,
    cap: u64,
    timeout_secs: i64,
    fresh_id: u64,
) -> (Result<StepOutcome, Rejection>, Seq<OnboardingSession>) {
    let j = trainee_idx(pre, trainee_id@);
    if j == -1 {
        if open_workspaces >= cap {
            (Err(Rejection::CapacityExceeded), pre)
        } else {
            (
                Ok(
                    StepOutcome {
                        view: pending_session(fresh_id, trainee_id, now).spec_view_of(),
                        teardown: None,
                    },
                ),
                pre.push(pending_session(fresh_id, trainee_id, now)),
            )
        }
    } else {
        let sess = pre[j];
        if sess.state.is_terminal() || sess.state == OnboardState::PendingManagerReview {
            (Err(Rejection::InvalidState(sess.state)), pre)
        } else if !sess.spec_expired(now, timeout_secs) {
            (Ok(StepOutcome { view: sess.spec_view_of(), teardown: None }), pre)
        } else if open_workspaces >= cap {
            (Err(Rejection::CapacityExceeded), pre)
        } else {
            (
                Ok(
                    StepOutcome {
                        view: pending_session(fresh_id, trainee_id, now).spec_view_of(),
                        teardown: sess.workspace_id,
                    },
                ),
                pre.update(j, superseded(sess)).push(pending_session(fresh_id, trainee_id, now)),
            )
        }
    }
}

/// Store-level invariant, quantified over the rows.
spec fn store_inv(s: Seq<OnboardingSession>) -> bool {
    &&& forall|i: int, j: int|
        0 <= i < s.len() && 0 <= j < s.len() && i != j ==> (#[trigger] s[i]).id != (
        #[trigger] s[j]).id
    &&& forall|i: int| 0 <= i < s.len() ==> (((#[trigger] s[i]).id as int) < s.len())
    &&& forall|i: int, j: int|
        0 <= i < s.len() && 0 <= j < s.len() && i != j && !s[i].void && !s[j].void ==> (
        #[trigger] s[i]).trainee_id@ != (#[trigger] s[j]).trainee_id@
    &&& forall|i: int| 0 <= i < s.len() ==> (#[trigger] s[i]).created_at >= 0
    &&& forall|i: int| 0 <= i < s.len() && !s[i].void ==> (#[trigger] s[i]).shape_inv()
}

/// Updating a row in place preserves the store invariant as long as the
/// row keeps its id and trainee, does not come back from the void, stays
/// timestamped, and satisfies the session invariant when live.
proof fn lemma_store_inv_update(s: Seq<OnboardingSession>, i: int, ns: OnboardingSession)
    requires
        store_inv(s),
        0 <= i < s.len(),
        ns.id == s[i].id,
        ns.trainee_id@ == s[i].trainee_id@,
        !ns.void ==> !s[i].void,
        ns.created_at >= 0,
        !ns.void ==> ns.shape_inv(),
    ensures
        store_inv(s.update(i, ns)),
{
}

impl Engine {
    /// The engine's configuration.
    pub closed spec fn cfg(self) -> EngineConfig {
        self.config
    }

    /// Well-formedness of the store. Includes the central invariant: at
    /// most one live (non-void) session exists per trainee, whatever its
    /// state.
    pub closed spec fn wf(self) -> bool {
        &&& self.config.timeout_secs >= 0
        &&& store_inv(self.sessions@)
    }

    /// A fresh engine with no sessions.
    pub fn new(config: EngineConfig) -> (r: Engine)
        requires
            config.timeout_secs >= 0,
        ensures
            r.wf(),
            r@ == Seq::<OnboardingSession>::empty(),
            r.cfg() == config,
    {
        Engine { config, sessions: Vec::new() }
    }

    /// How many session rows the store holds, live or void.
    pub fn session_count(&self) -> (r: usize)
        ensures
            r == self@.len(),
    {
        self.sessions.len()
    }

    /// Reads the session with the given id, live or void.
    pub fn get(&self, session_id: u64) -> (r: Option<&OnboardingSession>)
        ensures
            match r {
                Some(s) => find_session(self@, session_id) == Some(*s),
                None => find_session(self@, session_id) is None,
            },
    {
        match self.find(session_id) {
            None => None,
            Some(i) => Some(&self.sessions[i]),
        }
    }

    /// Locates the index of the session with the given id.
    fn find(&self, session_id: u64) -> (r: Option<usize>)
        ensures
            match r {
                Some(i) => 0 <= i < self@.len() && find_idx(self@, session_id) == i as int,
                None => find_idx(self@, session_id) == -1,
            },
    {
        let mut i: usize = 0;
        proof {
            assert(self.sessions@.skip(0) =~= self.sessions@);
        }
        while i < self.sessions.len()
            invariant
                0 <= i <= self.sessions@.len(),
                find_idx(self.sessions@, session_id) == (if find_idx(
                    self.sessions@.skip(i as int),
                    session_id,
                ) == -1 {
                    -1int
                } else {
                    i + find_idx(self.sessions@.skip(i as int), session_id)
                }),
            decreases self.sessions@.len() - i,
        {
            if self.sessions[i].id == session_id {
                proof {
                    assert(self.sessions@.skip(i as int).first() == self.sessions@[i as int]);
                    assert(find_idx(self.sessions@.skip(i as int), session_id) == 0);
                }
                return Some(i);
            }
            proof {
                let tail = self.sessions@.skip(i as int);
                lemma_find_idx_range(self.sessions@.skip(i + 1), session_id);
                assert(tail.first() == self.sessions@[i as int]);
                assert(tail.drop_first() =~= self.sessions@.skip(i + 1));
                assert(find_idx(tail, session_id) == (if find_idx(
                    self.sessions@.skip(i + 1),
                    session_id,
                ) == -1 {
                    -1int
                } else {
                    1 + find_idx(self.sessions@.skip(i + 1), session_id)
                }));
            }
            i += 1;
        }
        None
    }

    /// Locates the index of the first live session of the given trainee.
    fn find_trainee(&self, trainee_id: &String) -> (r: Option<usize>)
        ensures
            match r {
                Some(i) => 0 <= i < self@.len() && trainee_idx(self@, trainee_id@) == i as int,
                None => trainee_idx(self@, trainee_id@) == -1,
            },
    {
        let mut i: usize = 0;
        proof {
            assert(self.sessions@.skip(0) =~= self.sessions@);
        }
        while i < self.sessions.len()
            invariant
                0 <= i <= self.sessions@.len(),
                trainee_idx(self.sessions@, trainee_id@) == (if trainee_idx(
                    self.sessions@.skip(i as int),
                    trainee_id@,
                ) == -1 {
                    -1int
                } else {
                    i + trainee_idx(self.sessions@.skip(i as int), trainee_id@)
                }),
            decreases self.sessions@.len() - i,
        {
            if !self.sessions[i].void && self.sessions[i].trainee_id.eq(trainee_id) {
                proof {
                    assert(self.sessions@.skip(i as int).first() == self.sessions@[i as int]);
                    assert(trainee_idx(self.sessions@.skip(i as int), trainee_id@) == 0);
                }
                return Some(i);
            }
            proof {
                let tail = self.sessions@.skip(i as int);
                lemma_trainee_idx_range(self.sessions@.skip(i + 1), trainee_id@);
                assert(tail.first() == self.sessions@[i as int]);
                assert(tail.drop_first() =~= self.sessions@.skip(i + 1));
                assert(trainee_idx(tail, trainee_id@) == (if trainee_idx(
                    self.sessions@.skip(i + 1),
                    trainee_id@,
                ) == -1 {
                    -1int
                } else {
                    1 + trainee_idx(self.sessions@.skip(i + 1), trainee_id@)
                }));
            }
            i += 1;
        }
        None
    }

    /// Applies the concurrency gate: re-reads the session and rejects the
    /// request when it is gone, superseded, or no longer in the state the
    /// caller observed.
    fn locate(&self, session_id: u64, expected: OnboardState) -> (r: Result<usize, Rejection>)
        ensures
            match r {
                Ok(i) => 0 <= i < self@.len() && find_idx(self@, session_id) == i as int && gate(
                    self@,
                    session_id,
                    expected,
                ) == Some(self@[i as int]),
                Err(e) => e == Rejection::ConcurrentModification && gate(
                    self@,
                    session_id,
                    expected,
                ) is None,
            },
    {
        match self.find(session_id) {
            None => Err(Rejection::ConcurrentModification),
            Some(i) => {
                if self.sessions[i].void || self.sessions[i].state != expected {
                    Err(Rejection::ConcurrentModification)
                } else {
                    Ok(i)
                }
            },
        }
    }

    /// Takes the session at a located index out of the store; `restore`
    /// puts its successor back.
    fn take(&mut self, i: usize) -> (r: OnboardingSession)
        requires
            i < old(self)@.len(),
        ensures
            r == old(self)@[i as int],
            final(self)@ == old(self)@.remove(i as int),
            final(self).cfg() == old(self).cfg(),
    {
        self.sessions.remove(i)
    }

    /// Puts the successor of a taken session back at its index.
    fn restore(&mut self, i: usize, session: OnboardingSession)
        requires
            i <= old(self)@.len(),
        ensures
            final(self)@ == old(self)@.insert(i as int, session),
            final(self).cfg() == old(self).cfg(),
    {
        self.sessions.insert(i, session);
    }

    /// Starts onboarding for a trainee.
    ///
    /// With no live session, admission is checked against the workspace
    /// cap and a fresh `Pending` session is created (its id is returned in
    /// the view and is new to the store). A live finished or under-review
    /// session rejects the request; a live fresh session is simply
    /// returned again; a live expired session is superseded — its
    /// workspace handed back for teardown — and replaced by a fresh one.
    pub fn begin(&mut self, trainee_id: String, now: i64, open_workspaces: u64) -> (r: Result<
        StepOutcome,
        Rejection,
    >)
        requires
            old(self).wf(),
            now >= 0,
        ensures
            final(self).wf(),
            final(self).cfg() == old(self).cfg(),
            r == begin_spec(
                old(self)@,
                trainee_id,
                now,
                open_workspaces,
                old(self).cfg().workspace_cap,
                old(self).cfg().timeout_secs,
                old(self)@.len() as u64,
            ).0,
            final(self)@ == begin_spec(
                old(self)@,
                trainee_id,
                now,
                open_workspaces,
                old(self).cfg().workspace_cap,
                old(self).cfg().timeout_secs,
                old(self)@.len() as u64,
            ).1,
    {
        let ghost pre = self.sessions@;
        let ghost t = trainee_id@;
        match self.find_trainee(&trainee_id) {
            None => {
                if open_workspaces >= self.config.workspace_cap {
                    return Err(Rejection::CapacityExceeded);
                }
                let id = self.sessions.len() as u64;
                let ns = OnboardingSession {
                    id,
                    trainee_id,
                    state: OnboardState::Pending,
                    workspace_id: None,
                    verification_seed: None,
                    created_at: now,
                    void: false,
                    quiz_questions: None,
                    quiz_answers: None,
                    verdict: None,
                };
                let view = ns.view_of();
                self.sessions.push(ns);
                proof {
                    lemma_trainee_idx_none(pre, t);
                    lemma_store_inv_push(pre, ns);
                }
                Ok(StepOutcome { view, teardown: None })
            },
            Some(j) => {
                let st = self.sessions[j].state;
                if st.terminal() || st == OnboardState::PendingManagerReview {
                    return Err(Rejection::InvalidState(st));
                }
                proof {
                    assert(self.sessions@[j as int].created_at >= 0);
                }
                let is_expired = self.sessions[j].expired(now, self.config.timeout_secs);
                if !is_expired {
                    return Ok(StepOutcome { view: self.sessions[j].view_of(), teardown: None });
                }
                if open_workspaces >= self.config.workspace_cap {
                    return Err(Rejection::CapacityExceeded);
                }
                proof {
                    lemma_trainee_idx_found(pre, t);
                }
                let s = self.take(j);
                let teardown = s.workspace_id;
                let voided = OnboardingSession { void: true, workspace_id: None, ..s };
                self.restore(j, voided);
                proof {
                    assert(self.sessions@ =~= pre.update(j as int, voided));
                    lemma_store_inv_update(pre, j as int, voided);
                }
                let ghost mid = self.sessions@;
                let id = self.sessions.len() as u64;
                let ns = OnboardingSession {
                    id,
                    trainee_id,
                    state: OnboardState::Pending,
                    workspace_id: None,
                    verification_seed: None,
                    created_at: now,
                    void: false,
                    quiz_questions: None,
                    quiz_answers: None,
                    verdict: None,
                };
                let view = ns.view_of();
                self.sessions.push(ns);
                proof {
                    assert forall|k: int|
                        0 <= k < mid.len() && !(#[trigger] mid[k]).void implies mid[k].trainee_id@
                        != ns.trainee_id@ by {
                        assert(k != j as int);
                        assert(mid[k] == pre[k]);
                    }
                    lemma_store_inv_push(mid, ns);
                }
                Ok(StepOutcome { view, teardown })
            },
        }
    }

    /// Enters the review queue: `Pending` becomes `Started`, with the
    /// provisioned workspace bound to the session. The caller provisions
    /// the workspace first, after checking admission.
    pub fn enter_queue(
        &mut self,
        session_id: u64,
        expected: OnboardState,
        workspace_id: u64,
    ) -> (r: Result<SessionView, Rejection>)
        requires
            old(self).wf(),
        ensures
            final(self).wf(),
            final(self).cfg() == old(self).cfg(),
            r == enter_queue_spec(old(self)@, session_id, expected, workspace_id).0,
            final(self)@ == enter_queue_spec(old(self)@, session_id, expected, workspace_id).1,
    {
        let ghost pre = self.sessions@;
        let i = match self.locate(session_id, expected) {
            Err(e) => {
                return Err(e);
            },
            Ok(i) => i,
        };
        if self.sessions[i].state != OnboardState::Pending {
            return Err(Rejection::InvalidState(self.sessions[i].state));
        }
        let s = self.take(i);
        let ns = OnboardingSession {
            state: OnboardState::Started,
            workspace_id: Some(workspace_id),
            ..s
        };
        let view = ns.view_of();
        proof {
            assert(pre.remove(i as int).insert(i as int, ns) =~= pre.update(i as int, ns));
            lemma_store_inv_update(pre, i as int, ns);
        }
        self.restore(i, ns);
        Ok(view)
    }

    /// Records the reminder about the sandbox resource: `Started` becomes
    /// `QueueRemindedReviewer`.
    pub fn remind_reviewer(&mut self, session_id: u64, expected: OnboardState, target: u64) -> (r:
        Result<SessionView, Rejection>)
        requires
            old(self).wf(),
        ensures
            final(self).wf(),
            final(self).cfg() == old(self).cfg(),
            r == remind_reviewer_spec(
                old(self)@,
                session_id,
                expected,
                target,
                old(self).cfg().sandbox_resource,
            ).0,
            final(self)@ == remind_reviewer_spec(
                old(self)@,
                session_id,
                expected,
                target,
                old(self).cfg().sandbox_resource,
            ).1,
    {
        let ghost pre = self.sessions@;
        let i = match self.locate(session_id, expected) {
            Err(e) => {
                return Err(e);
            },
            Ok(i) => i,
        };
        if self.sessions[i].state != OnboardState::Started {
            return Err(Rejection::InvalidState(self.sessions[i].state));
        }
        if target != self.config.sandbox_resource {
            return Err(Rejection::GuardFailed(GuardReason::WrongTarget));
        }
        let s = self.take(i);
        let ns = OnboardingSession { state: OnboardState::QueueRemindedReviewer, ..s };
        let view = ns.view_of();
        proof {
            assert(pre.remove(i as int).insert(i as int, ns) =~= pre.update(i as int, ns));
            lemma_store_inv_update(pre, i as int, ns);
        }
        self.restore(i, ns);
        Ok(view)
    }

    /// Force-claims the sandbox resource: allowed only from
    /// `QueueRemindedReviewer`; from `Started` the trainee is told to
    /// send the reminder first.
    pub fn force_claim(&mut self, session_id: u64, expected: OnboardState) -> (r: Result<
        SessionView,
        Rejection,
    >)
        requires
            old(self).wf(),
        ensures
            final(self).wf(),
            final(self).cfg() == old(self).cfg(),
            r == force_claim_spec(old(self)@, session_id, expected).0,
            final(self)@ == force_claim_spec(old(self)@, session_id, expected).1,
    {
        let ghost pre = self.sessions@;
        let i = match self.locate(session_id, expected) {
            Err(e) => {
                return Err(e);
            },
            Ok(i) => i,
        };
        if self.sessions[i].state == OnboardState::Started {
            return Err(Rejection::GuardFailed(GuardReason::ReminderRequired));
        }
        if self.sessions[i].state != OnboardState::QueueRemindedReviewer {
            return Err(Rejection::InvalidState(self.sessions[i].state));
        }
        let s = self.take(i);
        let ns = OnboardingSession { state: OnboardState::Claimed, ..s };
        let view = ns.view_of();
        proof {
            assert(pre.remove(i as int).insert(i as int, ns) =~= pre.update(i as int, ns));
            lemma_store_inv_update(pre, i as int, ns);
        }
        self.restore(i, ns);
        Ok(view)
    }

    /// Submits the trainee's decision on the sandbox resource: from
    /// `Claimed`, with the sandbox targeted and a reason of at least 30
    /// characters, the verdict is recorded and the quiz begins.
    pub fn submit_decision(
        &mut self,
        session_id: u64,
        expected: OnboardState,
        target: u64,
        approve: bool,
        reason: String,
        now: i64,
    ) -> (r: Result<SessionView, Rejection>)
        requires
            old(self).wf(),
        ensures
            final(self).wf(),
            final(self).cfg() == old(self).cfg(),
            r == submit_decision_spec(
                old(self)@,
                session_id,
                expected,
                target,
                old(self).cfg().sandbox_resource,
                approve,
                reason,
                now,
            ).0,
            final(self)@ == submit_decision_spec(
                old(self)@,
                session_id,
                expected,
                target,
                old(self).cfg().sandbox_resource,
                approve,
                reason,
                now,
            ).1,
    {
        let ghost pre = self.sessions@;
        let i = match self.locate(session_id, expected) {
            Err(e) => {
                return Err(e);
            },
            Ok(i) => i,
        };
        if self.sessions[i].state != OnboardState::Claimed {
            return Err(Rejection::InvalidState(self.sessions[i].state));
        }
        if target != self.config.sandbox_resource {
            return Err(Rejection::GuardFailed(GuardReason::WrongTarget));
        }
        if reason.as_str().unicode_len() < 30 {
            return Err(Rejection::GuardFailed(GuardReason::ReasonTooShort));
        }
        let s = self.take(i);
        let action = if approve {
            VerdictAction::Approve
        } else {
            VerdictAction::Deny
        };
        let ns = OnboardingSession {
            state: OnboardState::InQuiz,
            verdict: Some(Verdict { action, reason, end_review_time: now }),
            ..s
        };
        let view = ns.view_of();
        proof {
            assert(pre.remove(i as int).insert(i as int, ns) =~= pre.update(i as int, ns));
            lemma_store_inv_update(pre, i as int, ns);
        }
        self.restore(i, ns);
        Ok(view)
    }

    /// Issues a fresh verification seed for the session's guide. Allowed
    /// through the whole active exercise; every request replaces the seed,
    /// so codes derived from earlier seeds stop matching. Returns the view
    /// and the seed now bound to the session.
    pub fn request_guide(&mut self, session_id: u64, expected: OnboardState) -> (r: Result<
        (SessionView, String),
        Rejection,
    >)
        requires
            old(self).wf(),
        ensures
            final(self).wf(),
            final(self).cfg() == old(self).cfg(),
            gate(old(self)@, session_id, expected) is None ==> r == Err::<
                (SessionView, String),
                Rejection,
            >(Rejection::ConcurrentModification) && final(self)@ == old(self)@,
            gate(old(self)@, session_id, expected) matches Some(sess) ==> ({
                &&& !guide_allowed(sess.state) ==> r == Err::<(SessionView, String), Rejection>(
                    Rejection::InvalidState(sess.state),
                ) && final(self)@ == old(self)@
                &&& guide_allowed(sess.state) ==> r is Ok
                &&& (r matches Ok(pair) ==> {
                    &&& pair.1@.len() == challenge::SEED_LEN as int
                    &&& challenge::all_alnum(pair.1@)
                    &&& final(self)@ == old(self)@.update(
                        find_idx(old(self)@, session_id),
                        guide_requested(sess, pair.1),
                    )
                    &&& pair.0 == guide_requested(sess, pair.1).spec_view_of()
                })
            }),
    {
        let ghost pre = self.sessions@;
        let i = match self.locate(session_id, expected) {
            Err(e) => {
                return Err(e);
            },
            Ok(i) => i,
        };
        let st = self.sessions[i].state;
        if !(st == OnboardState::Started || st == OnboardState::QueueRemindedReviewer || st
            == OnboardState::Claimed || st == OnboardState::InQuiz) {
            return Err(Rejection::InvalidState(st));
        }
        let seed = challenge::fresh_seed();
        let seed_copy = seed.clone();
        let s = self.take(i);
        let ns = OnboardingSession { verification_seed: Some(seed), ..s };
        let view = ns.view_of();
        proof {
            assert(pre.remove(i as int).insert(i as int, ns) =~= pre.update(i as int, ns));
            lemma_store_inv_update(pre, i as int, ns);
        }
        self.restore(i, ns);
        Ok((view, seed_copy))
    }

    /// Returns the display code for the session's current seed, gated on a
    /// client-supplied fragment that must be a prefix of the seed — proof
    /// that the caller loaded the matching guide page.
    pub fn fetch_guide_code(&self, session_id: u64, frag: &String) -> (r: Result<String, Rejection>)
        requires
            self.wf(),
        ensures
            match find_session(self@, session_id) {
                None => r == Err::<String, Rejection>(Rejection::ConcurrentModification),
                Some(sess) => {
                    if sess.void {
                        r == Err::<String, Rejection>(Rejection::ConcurrentModification)
                    } else {
                        match sess.verification_seed {
                            None => r == Err::<String, Rejection>(
                                Rejection::GuardFailed(GuardReason::GuideNotRequested),
                            ),
                            Some(seed) => {
                                if !is_prefix(frag@, seed@) {
                                    r == Err::<String, Rejection>(
                                        Rejection::GuardFailed(GuardReason::WrongFragment),
                                    )
                                } else {
                                    r matches Ok(code) && code@ == challenge::code_of(
                                        seed@,
                                        sess.trainee_id@,
                                    )
                                }
                            },
                        }
                    }
                },
            },
    {
        let i = match self.find(session_id) {
            None => {
                return Err(Rejection::ConcurrentModification);
            },
            Some(i) => i,
        };
        if self.sessions[i].void {
            return Err(Rejection::ConcurrentModification);
        }
        proof {
            assert(self.sessions@[i as int].shape_inv());
        }
        match &self.sessions[i].verification_seed {
            None => Err(Rejection::GuardFailed(GuardReason::GuideNotRequested)),
            Some(seed) => {
                if !str_prefix(frag.as_str(), seed.as_str()) {
                    Err(Rejection::GuardFailed(GuardReason::WrongFragment))
                } else {
                    Ok(
                        challenge::derive_display_code(
                            seed.as_str(),
                            self.sessions[i].trainee_id.as_str(),
                        ),
                    )
                }
            },
        }
    }

    /// Binds a sampled question set to the session's quiz, once: a second
    /// request returns the session untouched and reports the quiz as
    /// cached.
    pub fn assign_quiz(&mut self, session_id: u64, expected: OnboardState, questions: Vec<
        Question,
    >) -> (r: Result<(SessionView, bool), Rejection>)
        requires
            old(self).wf(),
        ensures
            final(self).wf(),
            final(self).cfg() == old(self).cfg(),
            gate(old(self)@, session_id, expected) is None ==> r == Err::<
                (SessionView, bool),
                Rejection,
            >(Rejection::ConcurrentModification) && final(self)@ == old(self)@,
            gate(old(self)@, session_id, expected) matches Some(sess) ==> ({
                &&& sess.state != OnboardState::InQuiz ==> r == Err::<
                    (SessionView, bool),
                    Rejection,
                >(Rejection::InvalidState(sess.state)) && final(self)@ == old(self)@
                &&& (sess.state == OnboardState::InQuiz && sess.quiz_questions is Some) ==> r
                    == Ok::<(SessionView, bool), Rejection>((sess.spec_view_of(), true))
                    && final(self)@ == old(self)@
                &&& (sess.state == OnboardState::InQuiz && sess.quiz_questions is None) ==> r
                    == Ok::<(SessionView, bool), Rejection>(
                    (quiz_assigned(sess, questions).spec_view_of(), false),
                ) && final(self)@ == old(self)@.update(
                    find_idx(old(self)@, session_id),
                    quiz_assigned(sess, questions),
                )
            }),
    {
        let ghost pre = self.sessions@;
        let i = match self.locate(session_id, expected) {
            Err(e) => {
                return Err(e);
            },
            Ok(i) => i,
        };
        if self.sessions[i].state != OnboardState::InQuiz {
            return Err(Rejection::InvalidState(self.sessions[i].state));
        }
        if self.sessions[i].quiz_questions.is_some() {
            return Ok((self.sessions[i].view_of(), true));
        }
        let s = self.take(i);
        let ns = OnboardingSession { quiz_questions: Some(questions), ..s };
        let view = ns.view_of();
        proof {
            assert(pre.remove(i as int).insert(i as int, ns) =~= pre.update(i as int, ns));
            lemma_store_inv_update(pre, i as int, ns);
        }
        self.restore(i, ns);
        Ok((view, false))
    }

    /// Submits the quiz: from `InQuiz`, with a quiz assigned, a seed
    /// issued, the right verification code and answers meeting every
    /// question's rule, the session moves to manager review. A wrong code
    /// or a bad answer leaves the session unchanged.
    pub fn submit_quiz(
        &mut self,
        session_id: u64,
        expected: OnboardState,
        answers: Vec<Answer>,
        code: &String,
    ) -> (r: Result<SessionView, Rejection>)
        requires
            old(self).wf(),
        ensures
            final(self).wf(),
            final(self).cfg() == old(self).cfg(),
            r == submit_quiz_spec(old(self)@, session_id, expected, answers, code@).0,
            final(self)@ == submit_quiz_spec(old(self)@, session_id, expected, answers, code@).1,
    {
        let ghost pre = self.sessions@;
        let i = match self.locate(session_id, expected) {
            Err(e) => {
                return Err(e);
            },
            Ok(i) => i,
        };
        if self.sessions[i].state != OnboardState::InQuiz {
            return Err(Rejection::InvalidState(self.sessions[i].state));
        }
        if self.sessions[i].quiz_questions.is_none() {
            return Err(Rejection::GuardFailed(GuardReason::QuizMissing));
        }
        proof {
            assert(self.sessions@[i as int].shape_inv());
        }
        let passed = match &self.sessions[i].verification_seed {
            None => {
                return Err(Rejection::GuardFailed(GuardReason::GuideNotRequested));
            },
            Some(seed) => {
                match challenge::check(
                    seed.as_str(),
                    self.sessions[i].trainee_id.as_str(),
                    code.as_str(),
                ) {
                    Err(g) => {
                        return Err(Rejection::GuardFailed(g));
                    },
                    Ok(ok) => ok,
                }
            },
        };
        if !passed {
            return Err(Rejection::GuardFailed(GuardReason::WrongCode));
        }
        match &self.sessions[i].quiz_questions {
            None => {
                return Err(Rejection::GuardFailed(GuardReason::QuizMissing));
            },
            Some(questions) => {
                if let Err(g) = validate_answers(questions, &answers) {
                    return Err(Rejection::GuardFailed(g));
                }
            },
        }
        let s = self.take(i);
        let ns = OnboardingSession {
            state: OnboardState::PendingManagerReview,
            quiz_answers: Some(answers),
            ..s
        };
        let view = ns.view_of();
        proof {
            assert(pre.remove(i as int).insert(i as int, ns) =~= pre.update(i as int, ns));
            lemma_store_inv_update(pre, i as int, ns);
        }
        self.restore(i, ns);
        Ok(view)
    }

    /// Manager approval: the session completes and its workspace is
    /// released for teardown. The command layer resolves whether the
    /// caller holds approval authority before invoking this.
    pub fn manager_approve(&mut self, session_id: u64, expected: OnboardState) -> (r: Result<
        StepOutcome,
        Rejection,
    >)
        requires
            old(self).wf(),
        ensures
            final(self).wf(),
            final(self).cfg() == old(self).cfg(),
            r == manager_approve_spec(old(self)@, session_id, expected).0,
            final(self)@ == manager_approve_spec(old(self)@, session_id, expected).1,
    {
        let ghost pre = self.sessions@;
        let i = match self.locate(session_id, expected) {
            Err(e) => {
                return Err(e);
            },
            Ok(i) => i,
        };
        if self.sessions[i].state != OnboardState::PendingManagerReview {
            return Err(Rejection::InvalidState(self.sessions[i].state));
        }
        let s = self.take(i);
        let teardown = s.workspace_id;
        let ns = OnboardingSession { state: OnboardState::Completed, workspace_id: None, ..s };
        let view = ns.view_of();
        proof {
            assert(pre.remove(i as int).insert(i as int, ns) =~= pre.update(i as int, ns));
            lemma_store_inv_update(pre, i as int, ns);
        }
        self.restore(i, ns);
        Ok(StepOutcome { view, teardown })
    }

    /// Manager denial: the session is denied and blocks further trainee
    /// action until a manager reset or a reaper sweep.
    pub fn manager_deny(&mut self, session_id: u64, expected: OnboardState) -> (r: Result<
        SessionView,
        Rejection,
    >)
        requires
            old(self).wf(),
        ensures
            final(self).wf(),
            final(self).cfg() == old(self).cfg(),
            r == manager_deny_spec(old(self)@, session_id, expected).0,
            final(self)@ == manager_deny_spec(old(self)@, session_id, expected).1,
    {
        let ghost pre = self.sessions@;
        let i = match self.locate(session_id, expected) {
            Err(e) => {
                return Err(e);
            },
            Ok(i) => i,
        };
        if self.sessions[i].state != OnboardState::PendingManagerReview {
            return Err(Rejection::InvalidState(self.sessions[i].state));
        }
        let s = self.take(i);
        let ns = OnboardingSession { state: OnboardState::Denied, ..s };
        let view = ns.view_of();
        proof {
            assert(pre.remove(i as int).insert(i as int, ns) =~= pre.update(i as int, ns));
            lemma_store_inv_update(pre, i as int, ns);
        }
        self.restore(i, ns);
        Ok(view)
    }

    /// Manager reset: from review, denial or completion the session
    /// returns to `Pending` with a fresh deadline; the verdict, quiz data
    /// and seed are cleared and any bound workspace is released for
    /// teardown.
    pub fn manager_reset(&mut self, session_id: u64, expected: OnboardState, now: i64) -> (r:
        Result<StepOutcome, Rejection>)
        requires
            old(self).wf(),
            now >= 0,
        ensures
            final(self).wf(),
            final(self).cfg() == old(self).cfg(),
            r == manager_reset_spec(old(self)@, session_id, expected, now).0,
            final(self)@ == manager_reset_spec(old(self)@, session_id, expected, now).1,
    {
        let ghost pre = self.sessions@;
        let i = match self.locate(session_id, expected) {
            Err(e) => {
                return Err(e);
            },
            Ok(i) => i,
        };
        let st = self.sessions[i].state;
        if !(st == OnboardState::PendingManagerReview || st == OnboardState::Denied || st
            == OnboardState::Completed) {
            return Err(Rejection::InvalidState(st));
        }
        let s = self.take(i);
        let teardown = s.workspace_id;
        let ns = OnboardingSession {
            state: OnboardState::Pending,
            workspace_id: None,
            verification_seed: None,
            created_at: now,
            quiz_questions: None,
            quiz_answers: None,
            verdict: None,
            ..s
        };
        let view = ns.view_of();
        proof {
            assert(pre.remove(i as int).insert(i as int, ns) =~= pre.update(i as int, ns));
            lemma_store_inv_update(pre, i as int, ns);
        }
        self.restore(i, ns);
        Ok(StepOutcome { view, teardown })
    }

    /// The trainee's current non-terminal session, if one is live: what a
    /// workspace-join callback looks up before inviting the trainee in.
    pub fn active_session(&self, trainee_id: &String) -> (r: Option<SessionView>)
        requires
            self.wf(),
        ensures
            ({
                let j = trainee_idx(self@, trainee_id@);
                if j == -1 {
                    r is None
                } else if self@[j].state.is_terminal() {
                    r is None
                } else {
                    r == Some(self@[j].spec_view_of())
                }
            }),
    {
        match self.find_trainee(trainee_id) {
            None => None,
            Some(j) => {
                if self.sessions[j].state.terminal() {
                    None
                } else {
                    Some(self.sessions[j].view_of())
                }
            },
        }
    }

    /// The live session bound to a workspace, if any: what a command
    /// issued inside a workspace resolves before requesting a transition.
    pub fn session_by_workspace(&self, workspace_id: u64) -> (r: Option<SessionView>)
        ensures
            ({
                let j = workspace_idx(self@, workspace_id);
                if j == -1 {
                    r is None
                } else {
                    r == Some(self@[j].spec_view_of())
                }
            }),
    {
        let mut i: usize = 0;
        proof {
            assert(self.sessions@.skip(0) =~= self.sessions@);
        }
        while i < self.sessions.len()
            invariant
                0 <= i <= self.sessions@.len(),
                workspace_idx(self.sessions@, workspace_id) == (if workspace_idx(
                    self.sessions@.skip(i as int),
                    workspace_id,
                ) == -1 {
                    -1int
                } else {
                    i + workspace_idx(self.sessions@.skip(i as int), workspace_id)
                }),
            decreases self.sessions@.len() - i,
        {
            let hit = !self.sessions[i].void && match self.sessions[i].workspace_id {
                Some(w) => w == workspace_id,
                None => false,
            };
            if hit {
                proof {
                    assert(self.sessions@.skip(i as int).first() == self.sessions@[i as int]);
                    assert(workspace_idx(self.sessions@.skip(i as int), workspace_id) == 0);
                }
                return Some(self.sessions[i].view_of());
            }
            proof {
                let tail = self.sessions@.skip(i as int);
                lemma_workspace_idx_range(self.sessions@.skip(i + 1), workspace_id);
                assert(tail.first() == self.sessions@[i as int]);
                assert(tail.drop_first() =~= self.sessions@.skip(i + 1));
                assert(workspace_idx(tail, workspace_id) == (if workspace_idx(
                    self.sessions@.skip(i + 1),
                    workspace_id,
                ) == -1 {
                    -1int
                } else {
                    1 + workspace_idx(self.sessions@.skip(i + 1), workspace_id)
                }));
            }
            i += 1;
        }
        None
    }

    /// One reaper sweep: every live session in a reapable state whose
    /// deadline has passed is reset to `Pending` with a fresh deadline,
    /// and the workspaces those sessions held are returned for teardown.
    /// A failure to tear one down costs nothing: the next sweep never
    /// reaps a freshly reset session, and teardown is idempotent.
    pub fn sweep(&mut self, now: i64) -> (torn: Vec<u64>)
        requires
            old(self).wf(),
            now >= 0,
        ensures
            final(self).wf(),
            final(self).cfg() == old(self).cfg(),
            final(self)@ == crate::reaper::sweep_model(
                old(self)@,
                now,
                old(self).cfg().timeout_secs,
            ),
            torn@ == crate::reaper::torn_model(old(self)@, now, old(self).cfg().timeout_secs),
    {
        let ghost pre = self.sessions@;
        let ghost cfg0 = self.config;
        let timeout = self.config.timeout_secs;
        let mut torn: Vec<u64> = Vec::new();
        let mut i: usize = 0;
        proof {
            assert(pre.skip(0) =~= pre);
        }
        while i < self.sessions.len()
            invariant
                0 <= i <= pre.len(),
                self.sessions@.len() == pre.len(),
                self.config == cfg0,
                timeout == cfg0.timeout_secs,
                timeout >= 0,
                now >= 0,
                store_inv(self.sessions@),
                forall|j: int|
                    0 <= j < i ==> self.sessions@[j] == crate::reaper::reap_one(
                        pre[j],
                        now,
                        timeout,
                    ),
                forall|j: int| i <= j < pre.len() ==> self.sessions@[j] == pre[j],
                torn_model(pre, now, timeout) == torn@ + torn_model(pre.skip(i as int), now, timeout),
            decreases pre.len() - i,
        {
            let ghost snap = self.sessions@;
            let ghost torn0 = torn@;
            proof {
                let tail = pre.skip(i as int);
                assert(tail.first() == pre[i as int]);
                assert(tail.drop_first() =~= pre.skip(i + 1));
            }
            let reap = !self.sessions[i].void && self.sessions[i].state.reapable()
                && self.sessions[i].expired(now, timeout);
            if reap {
                let s = self.take(i);
                if let Some(w) = s.workspace_id {
                    torn.push(w);
                    proof {
                        assert(torn@ =~= torn0 + seq![w]);
                    }
                }
                let ns = OnboardingSession {
                    state: OnboardState::Pending,
                    workspace_id: None,
                    verification_seed: None,
                    created_at: now,
                    quiz_questions: None,
                    quiz_answers: None,
                    verdict: None,
                    ..s
                };
                self.restore(i, ns);
                proof {
                    assert(self.sessions@ =~= snap.update(i as int, ns));
                    assert(ns.shape_inv());
                    lemma_store_inv_update(snap, i as int, ns);
                    assert(ns == crate::reaper::reap_one(pre[i as int], now, timeout));
                    if pre[i as int].workspace_id is Some {
                        let w = pre[i as int].workspace_id->0;
                        assert(torn_model(pre.skip(i as int), now, timeout) == seq![w]
                            + torn_model(pre.skip(i + 1), now, timeout));
                        assert((torn0 + seq![w]) + torn_model(pre.skip(i + 1), now, timeout) =~= torn0
                            + (seq![w] + torn_model(pre.skip(i + 1), now, timeout)));
                    } else {
                        assert(torn_model(pre.skip(i as int), now, timeout) =~= Seq::<u64>::empty()
                            + torn_model(pre.skip(i + 1), now, timeout));
                        assert(Seq::<u64>::empty() + torn_model(pre.skip(i + 1), now, timeout) =~= torn_model(
                            pre.skip(i + 1),
                            now,
                            timeout,
                        ));
                    }
                }
            } else {
                proof {
                    assert(!crate::reaper::reapable_now(pre[i as int], now, timeout));
                    assert(torn_model(pre.skip(i as int), now, timeout) =~= Seq::<u64>::empty()
                        + torn_model(pre.skip(i + 1), now, timeout));
                    assert(Seq::<u64>::empty() + torn_model(pre.skip(i + 1), now, timeout) =~= torn_model(
                        pre.skip(i + 1),
                        now,
                        timeout,
                    ));
                }
            }
            i += 1;
        }
        proof {
            assert(pre.skip(pre.len() as int) =~= Seq::<OnboardingSession>::empty());
            assert(torn@ + Seq::<u64>::empty() =~= torn@);
            assert(self.sessions@ =~= crate::reaper::sweep_model(pre, now, timeout));
        }
        torn
    }
}

/// Whether `p` is a prefix of `s`.
pub open spec fn is_prefix(p: Seq<char>, s: Seq<char>) -> bool {
    p.len() <= s.len() && p == s.subrange(0, p.len() as int)
}

/// Checks whether one string is a prefix of another.
fn str_prefix(p: &str, s: &str) -> (r: bool)
    ensures
        r == is_prefix(p@, s@),
{
    let pn = p.unicode_len();
    let sn = s.unicode_len();
    if pn > sn {
        return false;
    }
    let mut i: usize = 0;
    while i < pn
        invariant
            pn == p@.len(),
            sn == s@.len(),
            pn <= sn,
            0 <= i <= pn,
            forall|j: int| 0 <= j < i ==> p@[j] == s@[j],
        decreases pn - i,
    {
        if p.get_char(i) != s.get_char(i) {
            proof {
                assert(p@[i as int] != s@.subrange(0, p@.len() as int)[i as int]);
            }
            return false;
        }
        i += 1;
    }
    proof {
        assert(p@ =~= s@.subrange(0, p@.len() as int));
    }
    true
}

/// A session index is never below -1.
proof fn lemma_find_idx_range(s: Seq<OnboardingSession>, id: u64)
    ensures
        find_idx(s, id) >= -1,
    decreases s.len(),
{
    if s.len() > 0 {
        lemma_find_idx_range(s.drop_first(), id);
    }
}

/// A workspace index is never below -1.
proof fn lemma_workspace_idx_range(s: Seq<OnboardingSession>, workspace_id: u64)
    ensures
        workspace_idx(s, workspace_id) >= -1,
    decreases s.len(),
{
    if s.len() > 0 {
        lemma_workspace_idx_range(s.drop_first(), workspace_id);
    }
}

/// A trainee index is never below -1.
proof fn lemma_trainee_idx_range(s: Seq<OnboardingSession>, trainee: Seq<char>)
    ensures
        trainee_idx(s, trainee) >= -1,
    decreases s.len(),
{
    if s.len() > 0 {
        lemma_trainee_idx_range(s.drop_first(), trainee);
    }
}

/// When no live session of a trainee is found, none exists.
proof fn lemma_trainee_idx_none(s: Seq<OnboardingSession>, trainee: Seq<char>)
    requires
        trainee_idx(s, trainee) == -1,
    ensures
        forall|j: int| 0 <= j < s.len() ==> !(!(#[trigger] s[j]).void && s[j].trainee_id@ == trainee),
    decreases s.len(),
{
    if s.len() > 0 {
        lemma_trainee_idx_range(s.drop_first(), trainee);
        lemma_trainee_idx_none(s.drop_first(), trainee);
        assert forall|j: int|
            0 <= j < s.len() implies !(!(#[trigger] s[j]).void && s[j].trainee_id@ == trainee) by {
            if j > 0 {
                assert(s.drop_first()[j - 1] == s[j]);
            }
        }
    }
}

/// A found trainee index points at a live session of that trainee.
proof fn lemma_trainee_idx_found(s: Seq<OnboardingSession>, trainee: Seq<char>)
    requires
        trainee_idx(s, trainee) >= 0,
    ensures
        0 <= trainee_idx(s, trainee) < s.len(),
        !s[trainee_idx(s, trainee)].void,
        s[trainee_idx(s, trainee)].trainee_id@ == trainee,
    decreases s.len(),
{
    if s.len() > 0 {
        if !(!s.first().void && s.first().trainee_id@ == trainee) {
            lemma_trainee_idx_found(s.drop_first(), trainee);
            assert(s.drop_first()[trainee_idx(s, trainee) - 1] == s[trainee_idx(s, trainee)]);
        }
    }
}

/// Appending a session with a fresh id and, when live, a trainee no other
/// live row holds, preserves the store invariant.
proof fn lemma_store_inv_push(s: Seq<OnboardingSession>, ns: OnboardingSession)
    requires
        store_inv(s),
        ns.id == s.len(),
        ns.created_at >= 0,
        !ns.void ==> ns.shape_inv(),
        !ns.void ==> forall|k: int|
            0 <= k < s.len() && !(#[trigger] s[k]).void ==> s[k].trainee_id@ != ns.trainee_id@,
    ensures
        store_inv(s.push(ns)),
{
    let p = s.push(ns);
    assert forall|i: int| 0 <= i < p.len() implies (((#[trigger] p[i]).id as int) < p.len()) by {
        if i < s.len() {
            assert(p[i] == s[i]);
        }
    }
    assert forall|i: int, j: int|
        0 <= i < p.len() && 0 <= j < p.len() && i != j implies (#[trigger] p[i]).id != (
    #[trigger] p[j]).id by {
        if i < s.len() && j < s.len() {
            assert(p[i] == s[i] && p[j] == s[j]);
        } else if i < s.len() {
            assert(p[i] == s[i] && p[j] == ns);
        } else {
            assert(p[i] == ns && p[j] == s[j]);
        }
    }
    assert forall|i: int, j: int|
        0 <= i < p.len() && 0 <= j < p.len() && i != j && !p[i].void && !p[j].void implies (
    #[trigger] p[i]).trainee_id@ != (#[trigger] p[j]).trainee_id@ by {
        if i < s.len() && j < s.len() {
            assert(p[i] == s[i] && p[j] == s[j]);
        } else if i < s.len() {
            assert(p[i] == s[i] && p[j] == ns);
        } else {
            assert(p[i] == ns && p[j] == s[j]);
        }
    }
    assert forall|i: int| 0 <= i < p.len() implies (#[trigger] p[i]).created_at >= 0 by {
        if i < s.len() {
            assert(p[i] == s[i]);
        }
    }
    assert forall|i: int| 0 <= i < p.len() && !p[i].void implies (#[trigger] p[i]).shape_inv() by {
        if i < s.len() {
            assert(p[i] == s[i]);
        }
    }
}

/// At most one live session per trainee is in a non-terminal state at any
/// instant. The store keeps the stronger invariant that at most one live
/// session exists per trainee in any state, from which this follows.
pub proof fn lemma_single_active_session(e: &Engine)
    requires
        e.wf(),
    ensures
        forall|i: int, j: int|
            0 <= i < e@.len() && 0 <= j < e@.len() && !e@[i].void && !e@[j].void
                && !e@[i].state.is_terminal() && !e@[j].state.is_terminal() && (
            #[trigger] e@[i]).trainee_id@ == (#[trigger] e@[j]).trainee_id@ ==> i == j,
{
}

} // verus!
