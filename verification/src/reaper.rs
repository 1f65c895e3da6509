//! The expiry reaper's model: which sessions a sweep resets, what the
//! store looks like afterwards, and which workspaces are reclaimed.
//!
//! The sweep itself is `Engine::sweep`; its contract is stated with the
//! functions here. A session is reaped when it is live, in a reapable
//! state (anything but `PendingManagerReview` and `Completed`), and past
//! its deadline; it is reset to `Pending` with a fresh deadline before its
//! workspace is torn down, so a racing trainee request observes the state
//! change first and aborts.

use vstd::prelude::*;

use crate::engine::reset_session;
use crate::session::OnboardingSession;

verus! {

/// Whether a sweep at the given instant reaps this session.
pub open spec fn reapable_now(s: OnboardingSession, now: i64, timeout_secs: i64) -> bool {
    !s.void && s.state.is_reapable() && s.spec_expired(now, timeout_secs)
}

/// What one session looks like after a sweep: reset when reaped, else
/// untouched.
pub open spec fn reap_one(s: OnboardingSession, now: i64, timeout_secs: i64) -> OnboardingSession {
    if reapable_now(s, now, timeout_secs) {
        reset_session(s, now)
    } else {
        s
    }
}

/// The whole store after a sweep.
pub open spec fn sweep_model(s: Seq<OnboardingSession>, now: i64, timeout_secs: i64) -> Seq<
    OnboardingSession,
> {
    Seq::new(s.len(), |i: int| reap_one(s[i], now, timeout_secs))
}

/// The workspaces a sweep reclaims, in store order.
pub open spec fn torn_model(s: Seq<OnboardingSession>, now: i64, timeout_secs: i64) -> Seq<u64>
    decreases s.len(),
{
    if s.len() == 0 {
        Seq::empty()
    } else {
        let head = if reapable_now(s.first(), now, timeout_secs) && s.first().workspace_id
            is Some {
            seq![s.first().workspace_id->0]
        } else {
            Seq::<u64>::empty()
        };
        head + torn_model(s.drop_first(), now, timeout_secs)
    }
}

/// A sweep over sessions none of which it would reap reclaims nothing.
proof fn lemma_torn_empty(s: Seq<OnboardingSession>, now: i64, timeout_secs: i64)
    requires
        forall|i: int| 0 <= i < s.len() ==> !reapable_now(#[trigger] s[i], now, timeout_secs),
    ensures
        torn_model(s, now, timeout_secs) == Seq::<u64>::empty(),
    decreases s.len(),
{
    if s.len() > 0 {
        assert(!reapable_now(s[0], now, timeout_secs));
        assert forall|i: int|
            0 <= i < s.drop_first().len() implies !reapable_now(
            #[trigger] s.drop_first()[i],
            now,
            timeout_secs,
        ) by {
            assert(s.drop_first()[i] == s[i + 1]);
        }
        lemma_torn_empty(s.drop_first(), now, timeout_secs);
        assert(Seq::<u64>::empty() + Seq::<u64>::empty() =~= Seq::<u64>::empty());
    }
}

/// Reaping is idempotent on one session: a reaped session carries a fresh
/// deadline, so an immediate second sweep leaves it alone.
proof fn lemma_reap_one_idempotent(s: OnboardingSession, now: i64, timeout_secs: i64)
    requires
        timeout_secs >= 0,
    ensures
        reap_one(reap_one(s, now, timeout_secs), now, timeout_secs) == reap_one(
            s,
            now,
            timeout_secs,
        ),
        !reapable_now(reap_one(s, now, timeout_secs), now, timeout_secs),
{
}

/// Running the sweep twice in a row has no additional effect: the second
/// sweep changes no session and reclaims no workspace.
pub proof fn lemma_sweep_idempotent(s: Seq<OnboardingSession>, now: i64, timeout_secs: i64)
    requires
        timeout_secs >= 0,
    ensures
        sweep_model(sweep_model(s, now, timeout_secs), now, timeout_secs) == sweep_model(
            s,
            now,
            timeout_secs,
        ),
        torn_model(sweep_model(s, now, timeout_secs), now, timeout_secs) == Seq::<u64>::empty(),
{
    let once = sweep_model(s, now, timeout_secs);
    assert forall|i: int| 0 <= i < once.len() implies !reapable_now(
        #[trigger] once[i],
        now,
        timeout_secs,
    ) by {
        lemma_reap_one_idempotent(s[i], now, timeout_secs);
    }
    assert forall|i: int|
        0 <= i < once.len() implies reap_one(#[trigger] once[i], now, timeout_secs) == once[i] by {
        lemma_reap_one_idempotent(s[i], now, timeout_secs);
    }
    assert(sweep_model(once, now, timeout_secs) =~= once);
    lemma_torn_empty(once, now, timeout_secs);
}

} // verus!
