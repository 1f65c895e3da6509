use persepolis::challenge::derive_display_code;
use persepolis::engine::{Engine, EngineConfig};
use persepolis::errors::{GuardReason, Rejection};
use persepolis::quiz::{Answer, Question, QuestionData};
use persepolis::session::VerdictAction;
use persepolis::states::OnboardState;

const SANDBOX: u64 = 42;
const WORKSPACE: u64 = 777;

fn engine() -> Engine {
    engine_with_timeout(10_800)
}

fn engine_with_timeout(timeout_secs: i64) -> Engine {
    Engine::new(EngineConfig {
        timeout_secs,
        workspace_cap: 10,
        sandbox_resource: SANDBOX,
    })
}

fn reason30() -> String {
    let r = String::from("this bot failed every basic test");
    assert!(r.chars().count() >= 30);
    r
}

fn questions() -> Vec<Question> {
    vec![
        Question {
            question: String::from("short one"),
            data: QuestionData::Short,
            guidance: None,
            pinned: false,
        },
        Question {
            question: String::from("pick one"),
            data: QuestionData::MultipleChoice(vec![
                String::from("alpha"),
                String::from("beta"),
            ]),
            guidance: Some(String::from("alpha is right")),
            pinned: true,
        },
    ]
}

fn good_answers() -> Vec<Answer> {
    vec![
        Answer {
            question: String::from("short one"),
            answer: "x".repeat(50),
        },
        Answer {
            question: String::from("pick one"),
            answer: String::from("beta"),
        },
    ]
}

fn to_claimed(e: &mut Engine, trainee: &str, now: i64) -> u64 {
    let out = e.begin(String::from(trainee), now, 0).unwrap();
    let id = out.view.id;
    e.enter_queue(id, OnboardState::Pending, WORKSPACE).unwrap();
    e.remind_reviewer(id, OnboardState::Started, SANDBOX).unwrap();
    e.force_claim(id, OnboardState::QueueRemindedReviewer).unwrap();
    id
}

fn to_in_quiz(e: &mut Engine, trainee: &str, now: i64) -> u64 {
    let id = to_claimed(e, trainee, now);
    e.submit_decision(id, OnboardState::Claimed, SANDBOX, true, reason30(), now)
        .unwrap();
    id
}

fn to_review(e: &mut Engine, trainee: &str, now: i64) -> u64 {
    let id = to_in_quiz(e, trainee, now);
    let (_, seed) = e.request_guide(id, OnboardState::InQuiz).unwrap();
    e.assign_quiz(id, OnboardState::InQuiz, questions()).unwrap();
    let code = derive_display_code(&seed, trainee);
    e.submit_quiz(id, OnboardState::InQuiz, good_answers(), &code)
        .unwrap();
    id
}

#[test]
fn happy_path_reaches_completed() {
    let mut e = engine();
    let id = to_review(&mut e, "1234567890", 0);
    let s = e.get(id).unwrap();
    assert_eq!(s.state, OnboardState::PendingManagerReview);
    assert!(s.quiz_answers.is_some());
    let out = e.manager_approve(id, OnboardState::PendingManagerReview).unwrap();
    assert_eq!(out.teardown, Some(WORKSPACE));
    assert_eq!(out.view.state, OnboardState::Completed);
    let s = e.get(id).unwrap();
    assert_eq!(s.state, OnboardState::Completed);
    assert_eq!(s.workspace_id, None);
    assert!(s.verdict.is_some());
}

#[test]
fn decision_reason_under_30_chars_is_rejected() {
    let mut e = engine();
    let id = to_claimed(&mut e, "1234567890", 0);
    let short = String::from("too short");
    assert_eq!(short.chars().count(), 9);
    let r = e.submit_decision(id, OnboardState::Claimed, SANDBOX, false, short, 0);
    assert_eq!(r.unwrap_err(), Rejection::GuardFailed(GuardReason::ReasonTooShort));
    assert_eq!(e.get(id).unwrap().state, OnboardState::Claimed);

    let exactly30 = "a".repeat(30);
    let v = e
        .submit_decision(id, OnboardState::Claimed, SANDBOX, false, exactly30, 5)
        .unwrap();
    assert_eq!(v.state, OnboardState::InQuiz);
    let s = e.get(id).unwrap();
    let verdict = s.verdict.as_ref().unwrap();
    assert_eq!(verdict.action, VerdictAction::Deny);
    assert_eq!(verdict.reason, "a".repeat(30));
    assert_eq!(verdict.end_review_time, 5);
}

#[test]
fn wrong_verification_code_keeps_state() {
    let mut e = engine();
    let id = to_in_quiz(&mut e, "1234567890", 0);
    let (_, seed) = e.request_guide(id, OnboardState::InQuiz).unwrap();
    e.assign_quiz(id, OnboardState::InQuiz, questions()).unwrap();
    let code = derive_display_code(&seed, "1234567890");
    let mut tampered: Vec<char> = code.chars().collect();
    tampered[0] = if tampered[0] == 'z' { 'y' } else { 'z' };
    let tampered: String = tampered.into_iter().collect();

    let r = e.submit_quiz(id, OnboardState::InQuiz, good_answers(), &tampered);
    assert_eq!(r.unwrap_err(), Rejection::GuardFailed(GuardReason::WrongCode));
    assert_eq!(e.get(id).unwrap().state, OnboardState::InQuiz);

    let v = e
        .submit_quiz(id, OnboardState::InQuiz, good_answers(), &code)
        .unwrap();
    assert_eq!(v.state, OnboardState::PendingManagerReview);
}

#[test]
fn capacity_cap_blocks_session_creation() {
    let mut e = engine();
    let r = e.begin(String::from("1234567890"), 0, 10);
    assert_eq!(r.unwrap_err(), Rejection::CapacityExceeded);
    assert_eq!(e.session_count(), 0);

    let r = e.begin(String::from("1234567890"), 0, 11);
    assert_eq!(r.unwrap_err(), Rejection::CapacityExceeded);
    assert_eq!(e.session_count(), 0);

    assert!(e.begin(String::from("1234567890"), 0, 9).is_ok());
    assert_eq!(e.session_count(), 1);
}

#[test]
fn manager_reset_on_denied_clears_everything() {
    let mut e = engine();
    let id = to_review(&mut e, "1234567890", 0);
    e.manager_deny(id, OnboardState::PendingManagerReview).unwrap();
    let s = e.get(id).unwrap();
    assert_eq!(s.state, OnboardState::Denied);
    assert_eq!(s.workspace_id, Some(WORKSPACE));
    assert!(s.verdict.is_some());

    let out = e.manager_reset(id, OnboardState::Denied, 99).unwrap();
    assert_eq!(out.teardown, Some(WORKSPACE));
    assert_eq!(out.view.state, OnboardState::Pending);
    let s = e.get(id).unwrap();
    assert_eq!(s.state, OnboardState::Pending);
    assert_eq!(s.workspace_id, None);
    assert!(s.verdict.is_none());
    assert!(s.verification_seed.is_none());
    assert!(s.quiz_questions.is_none());
    assert!(s.quiz_answers.is_none());
    assert_eq!(s.created_at, 99);
}

#[test]
fn reaper_resets_stuck_session_and_is_idempotent() {
    let mut e = engine_with_timeout(100);
    let out = e.begin(String::from("1234567890"), 0, 0).unwrap();
    let id = out.view.id;
    e.enter_queue(id, OnboardState::Pending, 7).unwrap();
    assert_eq!(e.get(id).unwrap().state, OnboardState::Started);

    let torn = e.sweep(200);
    assert_eq!(torn, vec![7]);
    let s = e.get(id).unwrap();
    assert_eq!(s.state, OnboardState::Pending);
    assert_eq!(s.workspace_id, None);
    assert_eq!(s.created_at, 200);

    let torn = e.sweep(200);
    assert!(torn.is_empty());
    let s = e.get(id).unwrap();
    assert_eq!(s.state, OnboardState::Pending);
    assert_eq!(s.created_at, 200);
}

#[test]
fn reaper_spares_review_and_completed() {
    let mut e = engine_with_timeout(100);
    let reviewing = to_review(&mut e, "1234567890", 0);
    let finished = to_review(&mut e, "5550001234", 0);
    e.manager_approve(finished, OnboardState::PendingManagerReview)
        .unwrap();
    let torn = e.sweep(1_000_000);
    assert!(torn.is_empty());
    assert_eq!(
        e.get(reviewing).unwrap().state,
        OnboardState::PendingManagerReview
    );
    assert_eq!(e.get(finished).unwrap().state, OnboardState::Completed);
}

#[test]
fn reaper_reclaims_denied_sessions() {
    let mut e = engine_with_timeout(100);
    let id = to_review(&mut e, "1234567890", 0);
    e.manager_deny(id, OnboardState::PendingManagerReview).unwrap();
    let torn = e.sweep(500);
    assert_eq!(torn, vec![WORKSPACE]);
    assert_eq!(e.get(id).unwrap().state, OnboardState::Pending);
}

#[test]
fn stale_observation_loses_deterministically() {
    let mut e = engine();
    let out = e.begin(String::from("1234567890"), 0, 0).unwrap();
    let id = out.view.id;
    let r = e.force_claim(id, OnboardState::Started);
    assert_eq!(r.unwrap_err(), Rejection::ConcurrentModification);
    let r = e.enter_queue(9999, OnboardState::Pending, 1);
    assert_eq!(r.unwrap_err(), Rejection::ConcurrentModification);
}

#[test]
fn out_of_state_request_names_current_state() {
    let mut e = engine();
    let out = e.begin(String::from("1234567890"), 0, 0).unwrap();
    let id = out.view.id;
    let r = e.manager_approve(id, OnboardState::Pending);
    assert_eq!(r.unwrap_err(), Rejection::InvalidState(OnboardState::Pending));
    let r = e.submit_quiz(id, OnboardState::Pending, good_answers(), &String::from("abc123"));
    assert_eq!(r.unwrap_err(), Rejection::InvalidState(OnboardState::Pending));
}

#[test]
fn begin_returns_existing_fresh_session() {
    let mut e = engine();
    let first = e.begin(String::from("1234567890"), 0, 0).unwrap();
    let second = e.begin(String::from("1234567890"), 50, 0).unwrap();
    assert_eq!(first.view.id, second.view.id);
    assert_eq!(second.teardown, None);
    assert_eq!(e.session_count(), 1);
}

#[test]
fn begin_supersedes_expired_session() {
    let mut e = engine_with_timeout(100);
    let first = e.begin(String::from("1234567890"), 0, 0).unwrap();
    let old_id = first.view.id;
    e.enter_queue(old_id, OnboardState::Pending, 5).unwrap();

    let second = e.begin(String::from("1234567890"), 500, 0).unwrap();
    assert_ne!(second.view.id, old_id);
    assert_eq!(second.teardown, Some(5));
    assert_eq!(second.view.state, OnboardState::Pending);
    let old = e.get(old_id).unwrap();
    assert!(old.void);
    assert_eq!(old.workspace_id, None);
    assert_eq!(e.session_count(), 2);
}

#[test]
fn begin_is_blocked_by_review_denial_and_completion() {
    let mut e = engine();
    let id = to_review(&mut e, "1234567890", 0);
    let r = e.begin(String::from("1234567890"), 1, 0);
    assert_eq!(
        r.unwrap_err(),
        Rejection::InvalidState(OnboardState::PendingManagerReview)
    );
    e.manager_deny(id, OnboardState::PendingManagerReview).unwrap();
    let r = e.begin(String::from("1234567890"), 2, 0);
    assert_eq!(r.unwrap_err(), Rejection::InvalidState(OnboardState::Denied));

    let other = to_review(&mut e, "5550001234", 0);
    e.manager_approve(other, OnboardState::PendingManagerReview)
        .unwrap();
    let r = e.begin(String::from("5550001234"), 3, 0);
    assert_eq!(r.unwrap_err(), Rejection::InvalidState(OnboardState::Completed));
}

#[test]
fn quiz_guards_fire_in_order() {
    let mut e = engine();
    let id = to_in_quiz(&mut e, "1234567890", 0);
    // No quiz assigned yet.
    let r = e.submit_quiz(id, OnboardState::InQuiz, good_answers(), &String::from("abc123"));
    assert_eq!(r.unwrap_err(), Rejection::GuardFailed(GuardReason::QuizMissing));
    // Quiz assigned, but the guide was never requested.
    e.assign_quiz(id, OnboardState::InQuiz, questions()).unwrap();
    let r = e.submit_quiz(id, OnboardState::InQuiz, good_answers(), &String::from("abc123"));
    assert_eq!(
        r.unwrap_err(),
        Rejection::GuardFailed(GuardReason::GuideNotRequested)
    );
}

#[test]
fn answer_rules_reject_bad_submissions() {
    let mut e = engine();
    let id = to_in_quiz(&mut e, "1234567890", 0);
    let (_, seed) = e.request_guide(id, OnboardState::InQuiz).unwrap();
    let qs = vec![
        Question {
            question: String::from("short one"),
            data: QuestionData::Short,
            guidance: None,
            pinned: false,
        },
        Question {
            question: String::from("long one"),
            data: QuestionData::Long,
            guidance: None,
            pinned: false,
        },
        Question {
            question: String::from("pick one"),
            data: QuestionData::MultipleChoice(vec![String::from("alpha")]),
            guidance: None,
            pinned: false,
        },
    ];
    e.assign_quiz(id, OnboardState::InQuiz, qs).unwrap();
    let code = derive_display_code(&seed, "1234567890");

    let short_49 = vec![
        Answer { question: String::from("short one"), answer: "x".repeat(49) },
        Answer { question: String::from("long one"), answer: "y".repeat(750) },
        Answer { question: String::from("pick one"), answer: String::from("alpha") },
    ];
    let r = e.submit_quiz(id, OnboardState::InQuiz, short_49, &code);
    assert_eq!(
        r.unwrap_err(),
        Rejection::GuardFailed(GuardReason::ShortAnswerTooShort)
    );

    let long_749 = vec![
        Answer { question: String::from("short one"), answer: "x".repeat(50) },
        Answer { question: String::from("long one"), answer: "y".repeat(749) },
        Answer { question: String::from("pick one"), answer: String::from("alpha") },
    ];
    let r = e.submit_quiz(id, OnboardState::InQuiz, long_749, &code);
    assert_eq!(
        r.unwrap_err(),
        Rejection::GuardFailed(GuardReason::LongAnswerTooShort)
    );

    let bad_choice = vec![
        Answer { question: String::from("short one"), answer: "x".repeat(50) },
        Answer { question: String::from("long one"), answer: "y".repeat(750) },
        Answer { question: String::from("pick one"), answer: String::from("gamma") },
    ];
    let r = e.submit_quiz(id, OnboardState::InQuiz, bad_choice, &code);
    assert_eq!(r.unwrap_err(), Rejection::GuardFailed(GuardReason::InvalidChoice));

    let missing = vec![
        Answer { question: String::from("short one"), answer: "x".repeat(50) },
        Answer { question: String::from("pick one"), answer: String::from("alpha") },
    ];
    let r = e.submit_quiz(id, OnboardState::InQuiz, missing, &code);
    assert_eq!(r.unwrap_err(), Rejection::GuardFailed(GuardReason::AnswerMissing));

    let good = vec![
        Answer { question: String::from("short one"), answer: "x".repeat(50) },
        Answer { question: String::from("long one"), answer: "y".repeat(750) },
        Answer { question: String::from("pick one"), answer: String::from("alpha") },
    ];
    let v = e.submit_quiz(id, OnboardState::InQuiz, good, &code).unwrap();
    assert_eq!(v.state, OnboardState::PendingManagerReview);
}

#[test]
fn requesting_the_guide_again_invalidates_old_codes() {
    let mut e = engine();
    let id = to_in_quiz(&mut e, "1234567890", 0);
    e.assign_quiz(id, OnboardState::InQuiz, questions()).unwrap();
    let (_, old_seed) = e.request_guide(id, OnboardState::InQuiz).unwrap();
    let old_code = derive_display_code(&old_seed, "1234567890");
    let (_, new_seed) = e.request_guide(id, OnboardState::InQuiz).unwrap();
    assert_ne!(old_seed, new_seed);

    let r = e.submit_quiz(id, OnboardState::InQuiz, good_answers(), &old_code);
    assert_eq!(r.unwrap_err(), Rejection::GuardFailed(GuardReason::WrongCode));
    let new_code = derive_display_code(&new_seed, "1234567890");
    let v = e
        .submit_quiz(id, OnboardState::InQuiz, good_answers(), &new_code)
        .unwrap();
    assert_eq!(v.state, OnboardState::PendingManagerReview);
}

#[test]
fn assign_quiz_is_cached_after_first_assignment() {
    let mut e = engine();
    let id = to_in_quiz(&mut e, "1234567890", 0);
    let (_, cached) = e.assign_quiz(id, OnboardState::InQuiz, questions()).unwrap();
    assert!(!cached);
    let other = vec![Question {
        question: String::from("different"),
        data: QuestionData::Short,
        guidance: None,
        pinned: false,
    }];
    let (_, cached) = e.assign_quiz(id, OnboardState::InQuiz, other).unwrap();
    assert!(cached);
    let s = e.get(id).unwrap();
    assert_eq!(s.quiz_questions.as_ref().unwrap().len(), 2);
}

#[test]
fn fetch_guide_code_requires_matching_fragment() {
    let mut e = engine();
    let id = to_claimed(&mut e, "1234567890", 0);
    let r = e.fetch_guide_code(id, &String::from("anything"));
    assert_eq!(
        r.unwrap_err(),
        Rejection::GuardFailed(GuardReason::GuideNotRequested)
    );

    let (_, seed) = e.request_guide(id, OnboardState::Claimed).unwrap();
    let frag: String = seed.chars().take(20).collect();
    let code = e.fetch_guide_code(id, &frag).unwrap();
    assert_eq!(code, derive_display_code(&seed, "1234567890"));

    let r = e.fetch_guide_code(id, &String::from("00000000000000000000"));
    assert_eq!(r.unwrap_err(), Rejection::GuardFailed(GuardReason::WrongFragment));
}

#[test]
fn sandbox_target_is_enforced() {
    let mut e = engine();
    let out = e.begin(String::from("1234567890"), 0, 0).unwrap();
    let id = out.view.id;
    e.enter_queue(id, OnboardState::Pending, WORKSPACE).unwrap();
    let r = e.remind_reviewer(id, OnboardState::Started, SANDBOX + 1);
    assert_eq!(r.unwrap_err(), Rejection::GuardFailed(GuardReason::WrongTarget));

    e.remind_reviewer(id, OnboardState::Started, SANDBOX).unwrap();
    e.force_claim(id, OnboardState::QueueRemindedReviewer).unwrap();
    let r = e.submit_decision(id, OnboardState::Claimed, SANDBOX + 1, true, reason30(), 0);
    assert_eq!(r.unwrap_err(), Rejection::GuardFailed(GuardReason::WrongTarget));
}

#[test]
fn force_claim_requires_prior_reminder() {
    let mut e = engine();
    let out = e.begin(String::from("1234567890"), 0, 0).unwrap();
    let id = out.view.id;
    e.enter_queue(id, OnboardState::Pending, WORKSPACE).unwrap();
    let r = e.force_claim(id, OnboardState::Started);
    assert_eq!(
        r.unwrap_err(),
        Rejection::GuardFailed(GuardReason::ReminderRequired)
    );
}

#[test]
fn trainees_have_independent_sessions() {
    let mut e = engine();
    let a = e.begin(String::from("1234567890"), 0, 0).unwrap().view.id;
    let b = e.begin(String::from("5550001234"), 0, 1).unwrap().view.id;
    assert_ne!(a, b);
    e.enter_queue(a, OnboardState::Pending, 1).unwrap();
    assert_eq!(e.get(a).unwrap().state, OnboardState::Started);
    assert_eq!(e.get(b).unwrap().state, OnboardState::Pending);
    assert_eq!(e.active_session(&String::from("1234567890")).unwrap().id, a);
    assert_eq!(e.active_session(&String::from("5550001234")).unwrap().id, b);
}

#[test]
fn sessions_are_found_by_workspace() {
    let mut e = engine();
    assert!(e.session_by_workspace(WORKSPACE).is_none());
    let id = to_claimed(&mut e, "1234567890", 0);
    let v = e.session_by_workspace(WORKSPACE).unwrap();
    assert_eq!(v.id, id);
    assert_eq!(v.state, OnboardState::Claimed);
    assert!(e.session_by_workspace(WORKSPACE + 1).is_none());
}

#[test]
fn public_question_strips_guidance() {
    let q = Question {
        question: String::from("What did you test?"),
        data: QuestionData::MultipleChoice(vec![String::from("yes")]),
        guidance: Some(String::from("hidden marking scheme")),
        pinned: true,
    };
    let p = q.to_public();
    assert_eq!(p.question, "What did you test?");
    assert!(p.pinned);
    match p.data {
        QuestionData::MultipleChoice(cs) => assert_eq!(cs, vec![String::from("yes")]),
        _ => panic!("expected a multiple-choice question"),
    }
}

#[test]
fn active_session_lookup_skips_terminal_sessions() {
    let mut e = engine();
    assert!(e.active_session(&String::from("1234567890")).is_none());
    let id = to_review(&mut e, "1234567890", 0);
    let v = e.active_session(&String::from("1234567890")).unwrap();
    assert_eq!(v.id, id);
    assert_eq!(v.state, OnboardState::PendingManagerReview);
    assert_eq!(v.workspace_id, Some(WORKSPACE));
    e.manager_deny(id, OnboardState::PendingManagerReview).unwrap();
    assert!(e.active_session(&String::from("1234567890")).is_none());
}
