use persepolis::errors::{GuardReason, Rejection};
use persepolis::lifecycle::{
    check_admission, decide_teardown, ensure_entry_point, grant_entry_role, ChannelRecord,
    RoleRecord, TeardownAction,
};
use persepolis::states::OnboardState;

#[test]
fn admission_is_granted_strictly_below_the_cap() {
    assert!(check_admission(9, 10).is_ok());
    assert!(check_admission(0, 10).is_ok());
    assert_eq!(check_admission(10, 10), Err(Rejection::CapacityExceeded));
    assert_eq!(check_admission(11, 10), Err(Rejection::CapacityExceeded));
    assert_eq!(check_admission(0, 0), Err(Rejection::CapacityExceeded));
}

#[test]
fn teardown_decision_covers_every_case() {
    assert_eq!(decide_teardown(false, false), TeardownAction::NoOp);
    assert_eq!(decide_teardown(false, true), TeardownAction::NoOp);
    assert_eq!(decide_teardown(true, true), TeardownAction::Delete);
    assert_eq!(decide_teardown(true, false), TeardownAction::Leave);
}

#[test]
fn entry_point_plan_reuses_existing_channels() {
    let channels = vec![
        ChannelRecord { id: 1, name: String::from("general") },
        ChannelRecord { id: 2, name: String::from("readme") },
        ChannelRecord { id: 3, name: String::from("readme") },
    ];
    let plan = ensure_entry_point(&channels);
    assert_eq!(plan.entry_channel, Some(2));
    assert_eq!(plan.general_channel, Some(1));
}

#[test]
fn entry_point_plan_creates_missing_channels() {
    let none: Vec<ChannelRecord> = Vec::new();
    let plan = ensure_entry_point(&none);
    assert_eq!(plan.entry_channel, None);
    assert_eq!(plan.general_channel, None);

    let only_general = vec![ChannelRecord { id: 9, name: String::from("general") }];
    let plan = ensure_entry_point(&only_general);
    assert_eq!(plan.entry_channel, None);
    assert_eq!(plan.general_channel, Some(9));
}

#[test]
fn entry_role_is_found_by_name() {
    let roles = vec![
        RoleRecord { id: 5, name: String::from("admin") },
        RoleRecord { id: 6, name: String::from("onboard-user") },
    ];
    assert_eq!(grant_entry_role(&roles), Some(6));
    let no_match = vec![RoleRecord { id: 5, name: String::from("admin") }];
    assert_eq!(grant_entry_role(&no_match), None);
}

#[test]
fn rejection_messages_are_actionable() {
    let m = Rejection::InvalidState(OnboardState::Pending).message();
    assert_eq!(m, "this request is not allowed in the current state: pending");
    assert_eq!(
        Rejection::GuardFailed(GuardReason::ReasonTooShort).message(),
        "the reason must be at least 30 characters long"
    );
    assert_eq!(
        Rejection::CapacityExceeded.message(),
        "too many workspaces are open right now; try again later"
    );
    assert_eq!(
        Rejection::ConcurrentModification.message(),
        "the session is no longer active; reload and retry"
    );
}

#[test]
fn state_names_are_stable() {
    assert_eq!(OnboardState::Pending.name(), "pending");
    assert_eq!(OnboardState::QueueRemindedReviewer.name(), "queue_reminded_reviewer");
    assert_eq!(OnboardState::PendingManagerReview.name(), "pending_manager_review");
    assert_eq!(OnboardState::InQuiz.name(), "in_quiz");
}
