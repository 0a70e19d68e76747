//! The supervisor of one consumer's source.
//!
//! A supervisor watches the state that the leader of the group
//! publishes. When the state names another execution than the one its
//! source runs under, it stops that source and starts one for the new
//! execution. It ends when its lock is lost or the sink is closed.

use crate::consumer_source::SourceError;
use crate::types::ExecutionId;
use vstd::prelude::*;

verus! {

/// What the leader publishes of its group.
#[derive(Clone, Debug, PartialEq, Eq)]
pub enum ConsumerGroupState {
    /// No execution is live.
    Idle,
    /// An execution is live; consumers may commit under it.
    InProgress(ExecutionId),
}

/// What a supervisor is to do about its source.
#[derive(Clone, Copy, Debug, PartialEq, Eq, Structural)]
pub enum SupervisorAction {
    /// Leave things as they are.
    Keep,
    /// Interrupt the source that runs, if one does, read the offsets of
    /// the execution now live, and start a source from them with a fresh
    /// interrupt channel.
    Restart,
    /// End without an error.
    Finish,
    /// End with this error.
    Fail(SourceError),
}

/// How a supervisor stands.
#[derive(Debug)]
pub struct ConsumerSourceSupervisor {
    /// The execution that the last source was started for.
    execution_id: Option<ExecutionId>,
    /// Whether a source runs.
    running: bool,
    /// Whether the supervisor has ended.
    ended: bool,
}

/// A supervisor as contracts see it.
pub struct SupervisorView {
    pub execution_id: Option<Seq<u8>>,
    pub running: bool,
    pub ended: bool,
}

/// What one call of a supervisor leads to.
pub struct Supervised {
    pub state: SupervisorView,
    pub action: SupervisorAction,
}

impl SupervisorView {
    /// The leader's state changed. A live execution other than the one
    /// that the last source was started for restarts the source under it;
    /// anything else changes nothing.
    pub open spec fn on_state(self, state: Option<Seq<u8>>) -> Supervised {
        if self.ended {
            Supervised { state: self, action: SupervisorAction::Keep }
        } else {
            match state {
                Some(execution_id) => if self.execution_id == Some(execution_id) {
                    Supervised { state: self, action: SupervisorAction::Keep }
                } else {
                    Supervised {
                        state: SupervisorView {
                            execution_id: Some(execution_id),
                            running: true,
                            ended: false,
                        },
                        action: SupervisorAction::Restart,
                    }
                },
                None => Supervised { state: self, action: SupervisorAction::Keep },
            }
        }
    }

    /// The source ended. A source that was fenced leaves the supervisor
    /// waiting for another execution; a closed sink ends the supervisor;
    /// any other error ends it with that error. A source that ended
    /// without one was interrupted for a restart, which changes nothing.
    pub open spec fn on_source_ended(self, result: Result<(), SourceError>) -> Supervised {
        if self.ended {
            Supervised { state: self, action: SupervisorAction::Keep }
        } else {
            match result {
                Ok(()) => Supervised { state: self, action: SupervisorAction::Keep },
                Err(SourceError::Fenced) => Supervised {
                    state: SupervisorView { running: false, ..self },
                    action: SupervisorAction::Keep,
                },
                Err(SourceError::SinkClosed) => Supervised {
                    state: SupervisorView { running: false, ended: true, ..self },
                    action: SupervisorAction::Finish,
                },
                Err(error) => Supervised {
                    state: SupervisorView { running: false, ended: true, ..self },
                    action: SupervisorAction::Fail(error),
                },
            }
        }
    }

    /// The lock was lost: the supervisor ends.
    pub open spec fn on_lock_lost(self) -> Supervised {
        if self.ended {
            Supervised { state: self, action: SupervisorAction::Keep }
        } else {
            Supervised {
                state: SupervisorView { running: false, ended: true, ..self },
                action: SupervisorAction::Fail(SourceError::CoordError),
            }
        }
    }
}

/// The execution that a state names, if one is live.
pub open spec fn live_execution(state: ConsumerGroupState) -> Option<Seq<u8>> {
    match state {
        ConsumerGroupState::Idle => None,
        ConsumerGroupState::InProgress(execution_id) => Some(execution_id@),
    }
}

/// Whether two identifiers hold the same bytes.
fn same_bytes(a: &Vec<u8>, b: &Vec<u8>) -> (same: bool)
    ensures
        same == (a@ == b@),
{
    if a.len() != b.len() {
        return false;
    }
    let mut i: usize = 0;
    while i < a.len()
        invariant
            0 <= i <= a@.len(),
            a@.len() == b@.len(),
            forall|j: int| 0 <= j < i ==> a@[j] == b@[j],
        decreases a@.len() - i,
    {
        if a[i] != b[i] {
            return false;
        }
        i += 1;
    }
    assert(a@ =~= b@);
    true
}

impl View for ConsumerSourceSupervisor {
    type V = SupervisorView;

    closed spec fn view(&self) -> SupervisorView {
        SupervisorView {
            execution_id: match self.execution_id {
                Some(execution_id) => Some(execution_id@),
                None => None,
            },
            running: self.running,
            ended: self.ended,
        }
    }
}

impl ConsumerSourceSupervisor {
    /// A supervisor whose source has not been started for any execution.
    pub fn new() -> (supervisor: Self)
        ensures
            supervisor@ == (SupervisorView { execution_id: None, running: false, ended: false }),
    {
        ConsumerSourceSupervisor { execution_id: None, running: false, ended: false }
    }

    /// Whether a source runs.
    pub fn is_running(&self) -> (running: bool)
        ensures
            running == self@.running,
    {
        self.running
    }

    /// Whether the supervisor has ended.
    pub fn has_ended(&self) -> (ended: bool)
        ensures
            ended == self@.ended,
    {
        self.ended
    }

    /// Takes the state that the leader published.
    pub fn on_state(&mut self, state: ConsumerGroupState) -> (action: SupervisorAction)
        ensures
            final(self)@ == old(self)@.on_state(live_execution(state)).state,
            action == old(self)@.on_state(live_execution(state)).action,
    {
        if self.ended {
            return SupervisorAction::Keep;
        }
        match state {
            ConsumerGroupState::Idle => SupervisorAction::Keep,
            ConsumerGroupState::InProgress(execution_id) => {
                let same = match &self.execution_id {
                    Some(current) => same_bytes(current, &execution_id),
                    None => false,
                };
                if same {
                    SupervisorAction::Keep
                } else {
                    self.execution_id = Some(execution_id);
                    self.running = true;
                    SupervisorAction::Restart
                }
            },
        }
    }

    /// Takes the result with which the source ended.
    pub fn on_source_ended(&mut self, result: Result<(), SourceError>) -> (action:
        SupervisorAction)
        ensures
            final(self)@ == old(self)@.on_source_ended(result).state,
            action == old(self)@.on_source_ended(result).action,
    {
        if self.ended {
            return SupervisorAction::Keep;
        }
        match result {
            Ok(()) => SupervisorAction::Keep,
            Err(SourceError::Fenced) => {
                self.running = false;
                SupervisorAction::Keep
            },
            Err(SourceError::SinkClosed) => {
                self.running = false;
                self.ended = true;
                SupervisorAction::Finish
            },
            Err(error) => {
                self.running = false;
                self.ended = true;
                SupervisorAction::Fail(error)
            },
        }
    }

    /// Takes the loss of the consumer's lock.
    pub fn on_lock_lost(&mut self) -> (action: SupervisorAction)
        ensures
            final(self)@ == old(self)@.on_lock_lost().state,
            action == old(self)@.on_lock_lost().action,
    {
        if self.ended {
            return SupervisorAction::Keep;
        }
        self.running = false;
        self.ended = true;
        SupervisorAction::Fail(SourceError::CoordError)
    }
}

/// A supervisor restarts its source exactly when the leader names a live
/// execution other than the one the last source was started for; a
/// source that was fenced is not started again before that.
pub proof fn law_restart_only_on_new_execution(
    supervisor: SupervisorView,
    state: Option<Seq<u8>>,
    result: Result<(), SourceError>,
)
    ensures
        supervisor.on_state(state).action == SupervisorAction::Restart <==> !supervisor.ended
            && state is Some && supervisor.execution_id != state,
        supervisor.on_state(state).action == SupervisorAction::Restart
            ==> supervisor.on_state(state).state.execution_id == state,
        supervisor.on_source_ended(result).action != SupervisorAction::Restart,
        supervisor.on_source_ended(result).state.execution_id == supervisor.execution_id,
        supervisor.on_lock_lost().action != SupervisorAction::Restart,
{
}

} // verus!
