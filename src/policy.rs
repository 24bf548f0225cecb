use vstd::prelude::*;

verus! {

/// The default-device slots that the audio system keeps, one per use.
#[derive(Clone, Copy, Debug, PartialEq, Eq, Structural)]
pub enum Role {
    General,
    Multimedia,
    Communications,
}

/// A set-default call for one role failed; the roles before it stay committed.
#[derive(Clone, Copy, Debug, PartialEq, Eq, Structural)]
pub struct CommitError {
    pub role: Role,
}

/// Where a multi-role commit stands.
#[derive(Clone, Copy, Debug, PartialEq, Eq, Structural)]
pub enum CommitState {
    /// The set-default call for this role is to be made next.
    Setting(Role),
    /// Every role was set.
    Committed,
    /// The call for this role failed; no later role is attempted.
    Failed(Role),
}

/// The roles in the order in which they are committed.
pub open spec fn role_order() -> Seq<Role> {
    seq![Role::General, Role::Multimedia, Role::Communications]
}

/// The role that follows `r` in the commit order, if any.
pub open spec fn role_after(r: Role) -> Option<Role> {
    match r {
        Role::General => Some(Role::Multimedia),
        Role::Multimedia => Some(Role::Communications),
        Role::Communications => None,
    }
}

/// The state after the pending call reported `succeeded`.
pub open spec fn commit_step(state: CommitState, succeeded: bool) -> CommitState {
    match state {
        CommitState::Setting(r) => if !succeeded {
            CommitState::Failed(r)
        } else {
            match role_after(r) {
                Some(n) => CommitState::Setting(n),
                None => CommitState::Committed,
            }
        },
        _ => state,
    }
}

/// Runs a commit on the call results `outcomes`, taken in order: the roles
/// for which a call was made, and the state in which the run stops.
pub open spec fn commit_run(state: CommitState, outcomes: Seq<bool>) -> (Seq<Role>, CommitState)
    decreases outcomes.len(),
{
    match state {
        CommitState::Setting(r) => if outcomes.len() == 0 {
            (Seq::empty(), state)
        } else {
            let (rest, fin) = commit_run(commit_step(state, outcomes[0]), outcomes.drop_first());
            (seq![r] + rest, fin)
        },
        _ => (Seq::empty(), state),
    }
}

/// What a finished commit reports.
pub open spec fn outcome_of(state: CommitState) -> Result<(), CommitError> {
    match state {
        CommitState::Failed(r) => Err(CommitError { role: r }),
        _ => Ok(()),
    }
}

/// The first state of a commit: the general role is set first.
pub fn commit_start() -> (r: CommitState)
    ensures
        r == CommitState::Setting(Role::General),
{
    CommitState::Setting(Role::General)
}

/// Advances a commit by the result of the call that `state` asked for.
/// A failure ends the commit at once; finished states stay as they are.
pub fn commit_advance(state: CommitState, succeeded: bool) -> (r: CommitState)
    ensures
        r == commit_step(state, succeeded),
{
    match state {
        CommitState::Setting(role) => {
            if !succeeded {
                CommitState::Failed(role)
            } else {
                match role {
                    Role::General => CommitState::Setting(Role::Multimedia),
                    Role::Multimedia => CommitState::Setting(Role::Communications),
                    Role::Communications => CommitState::Committed,
                }
            }
        },
        _ => state,
    }
}

/// The role whose call `state` waits for, if the commit is still running.
pub fn pending_role(state: CommitState) -> (r: Option<Role>)
    ensures
        r == (match state {
            CommitState::Setting(role) => Some(role),
            _ => None,
        }),
{
    match state {
        CommitState::Setting(role) => Some(role),
        _ => None,
    }
}

/// The result that a commit reports once it has stopped.
pub fn commit_outcome(state: CommitState) -> (r: Result<(), CommitError>)
    requires
        !(state is Setting),
    ensures
        r == outcome_of(state),
{
    match state {
        CommitState::Failed(role) => Err(CommitError { role }),
        _ => Ok(()),
    }
}

impl Role {
    /// The label by which messages name the role.
    pub fn label(&self) -> (r: &'static str)
        ensures
            r@ == self.label_spec(),
    {
        match self {
            Role::General => "Console",
            Role::Multimedia => "Multimedia",
            Role::Communications => "Communications",
        }
    }

    /// The label of the role, as text.
    pub open spec fn label_spec(&self) -> Seq<char> {
        match *self {
            Role::General => "Console"@,
            Role::Multimedia => "Multimedia"@,
            Role::Communications => "Communications"@,
        }
    }
}

impl CommitError {
    /// The message shown to the user: which role could not be set.
    pub fn message(&self) -> (r: String)
        ensures
            r@ == "Failed to set "@ + self.role.label_spec() + " default"@,
    {
        let mut text = String::from_str("Failed to set ");
        text.append(self.role.label());
        text.append(" default");
        text
    }
}

/// With every call succeeding, the roles are set exactly once each, in the
/// order general, multimedia, communications, and the commit succeeds.
pub proof fn lemma_commit_all_roles(outcomes: Seq<bool>)
    requires
        outcomes.len() >= 3,
        outcomes[0] && outcomes[1] && outcomes[2],
    ensures
        commit_run(commit_start_spec(), outcomes).0 == role_order(),
        commit_run(commit_start_spec(), outcomes).1 == CommitState::Committed,
        outcome_of(commit_run(commit_start_spec(), outcomes).1) == Ok::<(), CommitError>(()),
{
    let o1 = outcomes.drop_first();
    let o2 = o1.drop_first();
    let o3 = o2.drop_first();
    assert(commit_run(CommitState::Committed, o3) == (Seq::<Role>::empty(), CommitState::Committed));
    assert(commit_run(CommitState::Setting(Role::Communications), o2).0 =~= seq![Role::Communications]);
    assert(commit_run(CommitState::Setting(Role::Multimedia), o1).0 =~= seq![Role::Multimedia, Role::Communications]);
    assert(commit_run(commit_start_spec(), outcomes).0 =~= role_order());
}

/// If the multimedia call fails after the general one succeeded, the general
/// role stays committed, the communications role is never attempted, and the
/// commit reports the multimedia role as the one that failed. What the later
/// entries of `outcomes` say does not matter.
pub proof fn lemma_multimedia_failure_stops(outcomes: Seq<bool>)
    requires
        outcomes.len() >= 2,
        outcomes[0],
        !outcomes[1],
    ensures
        commit_run(commit_start_spec(), outcomes).0 == seq![Role::General, Role::Multimedia],
        commit_run(commit_start_spec(), outcomes).1 == CommitState::Failed(Role::Multimedia),
        outcome_of(commit_run(commit_start_spec(), outcomes).1) == Err::<(), CommitError>(
            CommitError { role: Role::Multimedia },
        ),
{
    let o1 = outcomes.drop_first();
    let o2 = o1.drop_first();
    assert(commit_run(CommitState::Failed(Role::Multimedia), o2) == (
        Seq::<Role>::empty(),
        CommitState::Failed(Role::Multimedia),
    ));
    assert(commit_run(CommitState::Setting(Role::Multimedia), o1).0 =~= seq![Role::Multimedia]);
    assert(commit_run(commit_start_spec(), outcomes).0 =~= seq![Role::General, Role::Multimedia]);
}

/// A commit stops at the first failed call: every call before it succeeded,
/// no call follows it, and the failing role is the one reported.
pub proof fn lemma_first_failure_reported(outcomes: Seq<bool>, k: int)
    requires
        0 <= k < 3,
        k < outcomes.len(),
        !outcomes[k],
        forall|j: int| 0 <= j < k ==> outcomes[j],
    ensures
        commit_run(commit_start_spec(), outcomes).0 == role_order().take(k + 1),
        outcome_of(commit_run(commit_start_spec(), outcomes).1) == Err::<(), CommitError>(
            CommitError { role: role_order()[k] },
        ),
{
    if k == 0 {
        let o1 = outcomes.drop_first();
        assert(commit_run(CommitState::Failed(Role::General), o1) == (
            Seq::<Role>::empty(),
            CommitState::Failed(Role::General),
        ));
        assert(commit_run(commit_start_spec(), outcomes).0 =~= role_order().take(1));
    } else if k == 1 {
        lemma_multimedia_failure_stops(outcomes);
        assert(role_order().take(2) =~= seq![Role::General, Role::Multimedia]);
    } else {
        let o1 = outcomes.drop_first();
        let o2 = o1.drop_first();
        let o3 = o2.drop_first();
        assert(commit_run(CommitState::Failed(Role::Communications), o3) == (
            Seq::<Role>::empty(),
            CommitState::Failed(Role::Communications),
        ));
        assert(commit_run(CommitState::Setting(Role::Communications), o2).0 =~= seq![Role::Communications]);
        assert(commit_run(CommitState::Setting(Role::Multimedia), o1).0 =~= seq![Role::Multimedia, Role::Communications]);
        assert(commit_run(commit_start_spec(), outcomes).0 =~= role_order().take(3));
    }
}

/// The first state of a commit, as a value of the model.
pub open spec fn commit_start_spec() -> CommitState {
    CommitState::Setting(Role::General)
}

} // verus!
