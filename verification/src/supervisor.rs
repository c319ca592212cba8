//! The connection supervisor's decisions: how a failed connection setup
//! is answered (recovery steps and the wait before the next attempt) and
//! what a successful one resets.

use crate::command::{next_backoff, spec_next_backoff, INITIAL_BACKOFF_SECS, MAX_BACKOFF_SECS};
use crate::resilience::{
    spec_after_failure, spec_after_success, spec_rung_skips, LadderAction, LadderView,
    ResilienceLadder, ResilienceState, RungSkips,
};
use vstd::prelude::*;

verus! {

/// One recovery step, performed in the order given.
#[derive(Debug, Clone, Copy, PartialEq, Eq, Structural)]
pub enum RecoveryStep {
    /// Power-cycle the BLE adapter.
    PowerCycleAdapter,
    /// Write the escalation state to its file durably.
    PersistState,
    /// Reboot the host.
    RebootHost,
}

/// The recovery steps for a ladder action: a power-cycle is followed by
/// persisting the state; the state is persisted before a reboot; the other
/// actions need none.
pub open spec fn spec_recovery_steps(action: LadderAction) -> Seq<RecoveryStep> {
    match action {
        LadderAction::PowerCycle => seq![
            RecoveryStep::PowerCycleAdapter,
            RecoveryStep::PersistState,
        ],
        LadderAction::Reboot => seq![RecoveryStep::PersistState, RecoveryStep::RebootHost],
        _ => Seq::empty(),
    }
}

/// Lists the recovery steps for a ladder action.
pub fn recovery_steps(action: LadderAction) -> (steps: Vec<RecoveryStep>)
    ensures
        steps@ == spec_recovery_steps(action),
{
    let mut steps: Vec<RecoveryStep> = Vec::new();
    match action {
        LadderAction::PowerCycle => {
            steps.push(RecoveryStep::PowerCycleAdapter);
            steps.push(RecoveryStep::PersistState);
        },
        LadderAction::Reboot => {
            steps.push(RecoveryStep::PersistState);
            steps.push(RecoveryStep::RebootHost);
        },
        _ => {},
    }
    assert(steps@ =~= spec_recovery_steps(action));
    steps
}

/// The escalation state is on disk before every reboot: in the steps for a
/// reboot, persisting comes first and the reboot last.
pub proof fn lemma_state_persisted_before_reboot(action: LadderAction)
    ensures
        forall|i: int|
            0 <= i < spec_recovery_steps(action).len() && #[trigger] spec_recovery_steps(
                action,
            )[i] == RecoveryStep::RebootHost ==> exists|j: int|
                0 <= j < i && #[trigger] spec_recovery_steps(action)[j]
                    == RecoveryStep::PersistState,
{
    if action == LadderAction::Reboot {
        assert(spec_recovery_steps(action)[0] == RecoveryStep::PersistState);
    }
}

/// Only a power-cycle touches the adapter and only a reboot reboots the
/// host: a power-cycle is the adapter power-cycle followed by saving the
/// state, a reboot saves the state and then reboots, and the other actions
/// do nothing.
pub proof fn lemma_steps_match_action(action: LadderAction)
    ensures
        action == LadderAction::PowerCycle ==> spec_recovery_steps(action).len() == 2
            && spec_recovery_steps(action)[0] == RecoveryStep::PowerCycleAdapter
            && spec_recovery_steps(action)[1] == RecoveryStep::PersistState,
        action == LadderAction::Reboot ==> spec_recovery_steps(action).len() == 2
            && spec_recovery_steps(action)[0] == RecoveryStep::PersistState
            && spec_recovery_steps(action)[1] == RecoveryStep::RebootHost,
        (action == LadderAction::NoEscalation || action == LadderAction::KeepRetrying)
            ==> spec_recovery_steps(action).len() == 0,
{
}

/// How a failed connection setup is answered.
#[derive(Debug, Clone, PartialEq, Eq)]
pub struct FailureResponse {
    /// The ladder's action.
    pub action: LadderAction,
    /// The recovery steps to perform, in order.
    pub steps: Vec<RecoveryStep>,
    /// Seconds to wait before the next attempt.
    pub wait_secs: u64,
    /// The rungs that were due but held back by their rate limits.
    pub skips: RungSkips,
}

/// The supervisor as the contracts see it.
pub struct SupervisorView {
    pub ladder: LadderView,
    pub backoff_secs: u64,
}

/// The ladder and the reconnect backoff of the connection supervisor.
pub struct ConnectionSupervisor {
    ladder: ResilienceLadder,
    backoff_secs: u64,
}

impl View for ConnectionSupervisor {
    type V = SupervisorView;

    closed spec fn view(&self) -> SupervisorView {
        SupervisorView { ladder: self.ladder@, backoff_secs: self.backoff_secs }
    }
}

impl ConnectionSupervisor {
    #[verifier::type_invariant]
    closed spec fn backoff_in_range(self) -> bool {
        INITIAL_BACKOFF_SECS <= self.backoff_secs <= MAX_BACKOFF_SECS
    }

    /// A supervisor that starts from persisted escalation state, with the
    /// first delay of one second.
    pub fn new(state: ResilienceState) -> (supervisor: Self)
        ensures
            supervisor@.backoff_secs == INITIAL_BACKOFF_SECS,
            supervisor@.ladder.consecutive_failures == 0,
            supervisor@.ladder.failure_timestamps == Seq::<i128>::empty(),
            supervisor@.ladder.last_power_cycle_at == state.last_power_cycle_at,
            supervisor@.ladder.reboot_timestamps == state.reboot_timestamps@,
    {
        ConnectionSupervisor {
            ladder: ResilienceLadder::from_state(state),
            backoff_secs: INITIAL_BACKOFF_SECS,
        }
    }

    /// The ladder, whose state is persisted.
    pub fn ladder(&self) -> (ladder: &ResilienceLadder)
        ensures
            ladder@ == self@.ladder,
    {
        &self.ladder
    }

    /// The delay before the next attempt, in seconds.
    pub fn backoff_secs(&self) -> (secs: u64)
        ensures
            secs == self@.backoff_secs,
            INITIAL_BACKOFF_SECS <= secs <= MAX_BACKOFF_SECS,
    {
        proof {
            use_type_invariant(self);
        }
        self.backoff_secs
    }

    /// Records a successful setup: the ladder's streak is cleared and the
    /// backoff returns to one second.
    pub fn on_setup_success(&mut self)
        ensures
            final(self)@.ladder == spec_after_success(old(self)@.ladder),
            final(self)@.backoff_secs == INITIAL_BACKOFF_SECS,
    {
        proof {
            use_type_invariant(&*self);
        }
        let mut ladder = ResilienceLadder::new();
        std::mem::swap(&mut ladder, &mut self.ladder);
        ladder.on_connection_success();
        self.ladder = ladder;
        self.backoff_secs = INITIAL_BACKOFF_SECS;
    }

    /// Records a failed setup at `now`: the ladder's action and its recovery
    /// steps, then a wait of the current backoff, which doubles (up to 60
    /// seconds) for the next failure.
    pub fn on_setup_failure(&mut self, now: i128) -> (response: FailureResponse)
        requires
            old(self)@.ladder.consecutive_failures < u32::MAX,
        ensures
            (final(self)@.ladder, response.action) == spec_after_failure(old(self)@.ladder, now),
            response.steps@ == spec_recovery_steps(response.action),
            response.skips == spec_rung_skips(old(self)@.ladder, now),
            response.wait_secs == old(self)@.backoff_secs,
            final(self)@.backoff_secs == spec_next_backoff(old(self)@.backoff_secs),
    {
        proof {
            use_type_invariant(&*self);
        }
        let mut ladder = ResilienceLadder::new();
        std::mem::swap(&mut ladder, &mut self.ladder);
        let (action, skips) = ladder.on_connection_failure_with_skips(now);
        self.ladder = ladder;
        let wait_secs = self.backoff_secs;
        self.backoff_secs = next_backoff(wait_secs);
        FailureResponse { action, steps: recovery_steps(action), wait_secs, skips }
    }
}

/// The reconnect delay never leaves the range of one to sixty seconds,
/// whatever sequence of failures and successes occurs.
pub proof fn lemma_backoff_stays_in_range(backoff_secs: u64)
    requires
        INITIAL_BACKOFF_SECS <= backoff_secs <= MAX_BACKOFF_SECS,
    ensures
        INITIAL_BACKOFF_SECS <= spec_next_backoff(backoff_secs) <= MAX_BACKOFF_SECS,
        backoff_secs <= spec_next_backoff(backoff_secs),
{
}

} // verus!
