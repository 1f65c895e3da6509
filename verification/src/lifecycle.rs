//! Workspace lifecycle decisions: admission against the global cap, the
//! idempotent teardown choice, and the idempotent re-entrant plans for the
//! entry channels and the restricted entrant role.
//!
//! The workspace provider itself is an external collaborator; these
//! functions take a snapshot of what it reports and decide what to do, so
//! that an interrupted provisioning run can be resumed and a second
//! teardown of the same workspace is a no-op.

use vstd::prelude::*;

use crate::errors::Rejection;

verus! {

/// Admission control for provisioning: a new ephemeral workspace may open
/// exactly when the provider reports fewer open ones than the cap. The
/// count comes from querying the provider, not a local counter, so the
/// rule survives process restarts.
pub fn check_admission(open_workspaces: u64, cap: u64) -> (r: Result<(), Rejection>)
    ensures
        r is Ok <==> open_workspaces < cap,
        r is Err ==> r == Err::<(), Rejection>(Rejection::CapacityExceeded),
{
    if open_workspaces < cap {
        Ok(())
    } else {
        Err(Rejection::CapacityExceeded)
    }
}

/// What tearing a workspace down amounts to for the calling identity.
#[derive(Clone, Copy, Debug, PartialEq, Eq, Structural)]
pub enum TeardownAction {
    /// The caller owns the workspace: delete it outright.
    Delete,
    /// The caller is a member but not the owner: depart from it.
    Leave,
    /// The workspace is gone or the caller is no longer in it: teardown
    /// succeeds silently.
    NoOp,
}

/// Decides teardown from a snapshot of the provider's answer: owners
/// delete, members leave, and an already-gone workspace is never an
/// error.
pub fn decide_teardown(is_member: bool, is_owner: bool) -> (r: TeardownAction)
    ensures
        r == (if !is_member {
            TeardownAction::NoOp
        } else if is_owner {
            TeardownAction::Delete
        } else {
            TeardownAction::Leave
        }),
{
    if !is_member {
        TeardownAction::NoOp
    } else if is_owner {
        TeardownAction::Delete
    } else {
        TeardownAction::Leave
    }
}

/// A channel of the workspace, as the provider reports it.
pub struct ChannelRecord {
    pub id: u64,
    pub name: String,
}

/// A role of the workspace, as the provider reports it.
pub struct RoleRecord {
    pub id: u64,
    pub name: String,
}

/// The idempotent entry-point plan: which of the two onboarding channels
/// already exist and which must be created to finish an interrupted
/// provisioning run. The trainee is invited into the read-first channel.
pub struct EntryPointPlan {
    /// The existing read-first channel, or `None` when one must be created.
    pub entry_channel: Option<u64>,
    /// The existing general channel, or `None` when one must be created.
    pub general_channel: Option<u64>,
}

/// The first channel with the given name.
pub open spec fn channel_named(channels: Seq<ChannelRecord>, name: Seq<char>) -> Option<u64>
    decreases channels.len(),
{
    if channels.len() == 0 {
        None
    } else if channels.first().name@ == name {
        Some(channels.first().id)
    } else {
        channel_named(channels.drop_first(), name)
    }
}

/// The first role with the given name.
pub open spec fn role_named(roles: Seq<RoleRecord>, name: Seq<char>) -> Option<u64>
    decreases roles.len(),
{
    if roles.len() == 0 {
        None
    } else if roles.first().name@ == name {
        Some(roles.first().id)
    } else {
        role_named(roles.drop_first(), name)
    }
}

/// Finds the first channel with the given name.
fn find_channel(channels: &Vec<ChannelRecord>, name: &String) -> (r: Option<u64>)
    ensures
        r == channel_named(channels@, name@),
{
    let mut i: usize = 0;
    proof {
        assert(channels@.skip(0) =~= channels@);
    }
    while i < channels.len()
        invariant
            0 <= i <= channels@.len(),
            channel_named(channels@, name@) == channel_named(channels@.skip(i as int), name@),
        decreases channels@.len() - i,
    {
        if channels[i].name.eq(name) {
            return Some(channels[i].id);
        }
        proof {
            assert(channels@.skip(i as int).drop_first() =~= channels@.skip(i + 1));
        }
        i += 1;
    }
    None
}

/// Finds the first role with the given name.
fn find_role(roles: &Vec<RoleRecord>, name: &String) -> (r: Option<u64>)
    ensures
        r == role_named(roles@, name@),
{
    let mut i: usize = 0;
    proof {
        assert(roles@.skip(0) =~= roles@);
    }
    while i < roles.len()
        invariant
            0 <= i <= roles@.len(),
            role_named(roles@, name@) == role_named(roles@.skip(i as int), name@),
        decreases roles@.len() - i,
    {
        if roles[i].name.eq(name) {
            return Some(roles[i].id);
        }
        proof {
            assert(roles@.skip(i as int).drop_first() =~= roles@.skip(i + 1));
        }
        i += 1;
    }
    None
}

/// Plans the idempotent entry-point setup over a snapshot of the
/// workspace's channels: the read-first channel and the general channel
/// are each reused when present and created when absent, so a
/// provisioning run interrupted between the two can be resumed.
pub fn ensure_entry_point(channels: &Vec<ChannelRecord>) -> (r: EntryPointPlan)
    ensures
        r.entry_channel == channel_named(channels@, "readme"@),
        r.general_channel == channel_named(channels@, "general"@),
{
    let readme = String::from_str("readme");
    let general = String::from_str("general");
    EntryPointPlan {
        entry_channel: find_channel(channels, &readme),
        general_channel: find_channel(channels, &general),
    }
}

/// Plans the idempotent entrant-role grant over a snapshot of the
/// workspace's roles: the restricted role the trainee receives before
/// full membership review is reused when it exists and created when not.
pub fn grant_entry_role(roles: &Vec<RoleRecord>) -> (r: Option<u64>)
    ensures
        r == role_named(roles@, "onboard-user"@),
{
    let entrant = String::from_str("onboard-user");
    find_role(roles, &entrant)
}

} // verus!
