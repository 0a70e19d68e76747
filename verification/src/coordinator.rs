//! The coordinator of the consumer groups on one host, as a machine that
//! is driven from outside.
//!
//! The coordinator serves two commands, creating a group and joining one,
//! and keeps track of what runs on its behalf: at most one election and
//! one leader per group, the watches that the members of a group share,
//! and the supervisors of the consumers that joined. It holds no handle
//! of a task or a channel itself. Each call takes an event and returns
//! the effects that the driver is to carry out, in order.

use crate::consumer_source::{
    initial_run, positions_of, snapshot, ConsumerContext, ConsumerSource, OffsetsByEventType,
    SourceError, DEFAULT_OFFSET_COMMIT_INTERVAL,
};
use crate::shard_iterator::ShardFilter;
use crate::types::{BlockchainEventType, ConsumerGroupId, ConsumerId, ShardOffsetMap, Slot};
use std::collections::BTreeSet;
use vstd::prelude::*;

verus! {

/// Where a new group starts to read.
#[derive(Clone, Copy, Debug, PartialEq, Eq, Structural)]
pub enum SeekLocation {
    Earliest,
    Latest,
    SlotApprox { desired_slot: Slot, min_slot: Slot },
}

/// How settled an event must be before the group sees it.
#[derive(Clone, Copy, Debug, PartialEq, Eq, Structural)]
pub enum CommitmentLevel {
    Processed,
    Confirmed,
    Finalized,
}

#[derive(Debug, PartialEq, Eq)]
pub struct CreateConsumerGroupArgs {
    pub seek_loc: SeekLocation,
    pub subscribed_blockchain_events: Vec<BlockchainEventType>,
    pub commitment_level: CommitmentLevel,
    pub consumer_id_list: Vec<ConsumerId>,
    /// Address of whoever asked, as text.
    pub requestor_ipaddr: Option<String>,
}

#[derive(Debug, PartialEq, Eq)]
pub struct JoinGroupArgs {
    pub consumer_group_id: ConsumerGroupId,
    pub consumer_id: ConsumerId,
    pub filter: Option<ShardFilter>,
}

/// The right to start the source of one consumer, given out once its lock
/// is held and the watches of its group exist.
#[derive(Clone, Debug, PartialEq, Eq)]
pub struct JoinPermit {
    pub consumer_group_id: ConsumerGroupId,
    pub consumer_id: ConsumerId,
    pub filter: Option<ShardFilter>,
}

/// The map that a list of maps by event type holds last for one type.
pub open spec fn latest_map(
    maps: Seq<(BlockchainEventType, ShardOffsetMap)>,
    event_type: BlockchainEventType,
) -> Option<ShardOffsetMap>
    decreases maps.len(),
{
    if maps.len() == 0 {
        None
    } else if maps.last().0 == event_type {
        Some(maps.last().1)
    } else {
        latest_map(maps.drop_last(), event_type)
    }
}

impl JoinPermit {
    /// Makes the source of the consumer that the permit is for, from the
    /// context of its execution and the offsets that were read for each
    /// event type the context subscribes to. The source has one fresh
    /// cursor for each shard of the map of each type, the permit's filter
    /// and the default commit interval. A context that subscribes to no
    /// event type is refused.
    pub fn spawn(
        self,
        ctx: ConsumerContext,
        shard_offset_map_by_ev_types: Vec<(BlockchainEventType, ShardOffsetMap)>,
    ) -> (made: Result<ConsumerSource, SourceError>)
        ensures
            made is Err <==> ctx@.subscribed_event_types.len() == 0,
            made matches Err(error) ==> error == SourceError::NoEventSubscribed,
            made matches Ok(source) ==> {
                &&& source@.wf()
                &&& source@.ctx == ctx@
                &&& source@.filter == self.filter
                &&& source@.offset_commit_interval == DEFAULT_OFFSET_COMMIT_INTERVAL
                &&& source@.run == initial_run()
                &&& snapshot(source@.cursors, BlockchainEventType::AccountUpdate) == positions_of(
                    latest_map(shard_offset_map_by_ev_types@, BlockchainEventType::AccountUpdate),
                )
                &&& snapshot(source@.cursors, BlockchainEventType::NewTransaction) == positions_of(
                    latest_map(shard_offset_map_by_ev_types@, BlockchainEventType::NewTransaction),
                )
                &&& forall|i: int|
                    0 <= i < source@.cursors.len() ==> (#[trigger] source@.cursors[i]).buffered.len()
                        == 0
            },
    {
        let mut account_update: Option<ShardOffsetMap> = None;
        let mut new_transaction: Option<ShardOffsetMap> = None;
        let ghost maps = shard_offset_map_by_ev_types@;
        for entry in it: shard_offset_map_by_ev_types
            invariant
                it.seq() == maps,
                account_update == latest_map(
                    maps.take(it.index()),
                    BlockchainEventType::AccountUpdate,
                ),
                new_transaction == latest_map(
                    maps.take(it.index()),
                    BlockchainEventType::NewTransaction,
                ),
        {
            proof {
                let upto = maps.take(it.index() + 1);
                assert(upto.drop_last() =~= maps.take(it.index()));
                assert(upto.last() == entry);
            }
            let (event_type, map) = entry;
            match event_type {
                BlockchainEventType::AccountUpdate => {
                    account_update = Some(map);
                },
                BlockchainEventType::NewTransaction => {
                    new_transaction = Some(map);
                },
            }
        }
        proof {
            assert(maps.take(maps.len() as int) =~= maps);
        }
        ConsumerSource::new(
            ctx,
            OffsetsByEventType { account_update, new_transaction },
            None,
            self.filter,
        )
    }
}

/// A supervisor that runs for this coordinator.
#[derive(Debug, PartialEq, Eq)]
pub struct ConsumerSourceSupervisorHandle {
    pub consumer_group_id: ConsumerGroupId,
    pub consumer_id: ConsumerId,
}

#[derive(Debug, PartialEq, Eq)]
pub enum CoordinatorCommand {
    CreateConsumerGroup(CreateConsumerGroupArgs),
    JoinGroup(JoinGroupArgs),
}

/// Why a command failed, or the coordinator stopped.
#[derive(Clone, Copy, Debug, PartialEq, Eq, Structural)]
pub enum CoordinatorError {
    /// The slot `(group, consumer)` is held by another instance.
    LockContended,
    /// The coordination store failed.
    CoordError,
    /// The store failed.
    StoreError,
    /// The group would subscribe to no event type.
    ConfigError,
    /// The group exists already.
    GroupAlreadyExists,
}

/// What became of the attempt to take a consumer's lock.
#[derive(Clone, Copy, Debug, PartialEq, Eq, Structural)]
pub enum LockOutcome {
    Acquired,
    AlreadyHeld,
    Failed,
}

/// What became of the attempt to write a group's record.
#[derive(Clone, Copy, Debug, PartialEq, Eq, Structural)]
pub enum GroupCreation {
    Created(ConsumerGroupId),
    AlreadyExists,
    Failed,
}

/// How an election attempt ended.
#[derive(Clone, Copy, Debug, PartialEq, Eq, Structural)]
pub enum ElectionOutcome {
    Won,
    Lost,
    Failed,
}

/// What happened, as the driver tells the coordinator.
#[derive(Debug, PartialEq, Eq)]
pub enum CoordinatorEvent {
    /// A command arrived.
    Command(CoordinatorCommand),
    /// The answer to `TryLock`.
    Lock(LockOutcome),
    /// The answer to `WatchLeaderElection`: whether the watch exists now.
    ElectionWatch(bool),
    /// The answer to `WatchLeaderState`: whether the watch exists now.
    StateWatch(bool),
    /// The answer to `ObserveLeader`: whether the group has a leader.
    LeaderObserved(bool),
    /// The answer to `IssuePermit`: whether the caller used the permit
    /// and a supervisor runs.
    Supervisor(bool),
    /// The answer to `CreateGroupRecord`.
    GroupCreated(GroupCreation),
    /// The answer to `WriteStateLog`: whether it was written.
    StateLog(bool),
    /// The election attempt of a group ended.
    Election(ConsumerGroupId, ElectionOutcome),
    /// The supervisor at this index of the list ended, in whatever way.
    ConsumerFinished(usize),
    /// The leader of a group ended, in whatever way.
    LeaderFinished(ConsumerGroupId),
}

/// What the driver is to do. Effects that ask for an answer say so; the
/// answer comes back as the event named.
#[derive(Debug, PartialEq, Eq)]
pub enum CoordinatorEffect {
    /// Try to take the lock of `(group, consumer)`; answer with `Lock`.
    TryLock { consumer_group_id: ConsumerGroupId, consumer_id: ConsumerId },
    /// Let go of the lock that was taken for the join under way.
    ReleaseLock { consumer_group_id: ConsumerGroupId, consumer_id: ConsumerId },
    /// Watch the group's leader election; answer with `ElectionWatch`.
    WatchLeaderElection { consumer_group_id: ConsumerGroupId },
    /// Watch the group's state; answer with `StateWatch`.
    WatchLeaderState { consumer_group_id: ConsumerGroupId },
    /// Read the newest value of the election watch; answer with
    /// `LeaderObserved`.
    ObserveLeader { consumer_group_id: ConsumerGroupId },
    /// Start an attempt to become the group's leader in the background.
    StartElection { consumer_group_id: ConsumerGroupId },
    /// Hand the permit to the caller of the join under way and wait for
    /// the supervisor it starts; answer with `Supervisor`.
    IssuePermit(JoinPermit),
    /// Tell the caller of the join under way that it failed.
    ReplyJoin(CoordinatorError),
    /// Write the record of a new group; answer with `GroupCreated`.
    CreateGroupRecord(CreateConsumerGroupArgs),
    /// Write the first entry of the group's state log; answer with
    /// `StateLog`.
    WriteStateLog { consumer_group_id: ConsumerGroupId },
    /// Tell the caller of the creation under way how it ended.
    ReplyCreate(Result<ConsumerGroupId, CoordinatorError>),
    /// Abort the leader that runs for the group.
    AbortLeader { consumer_group_id: ConsumerGroupId },
    /// Start a leader for the group on the lease that was won.
    StartLeader { consumer_group_id: ConsumerGroupId },
    /// The event was not one that the coordinator waits for; it was
    /// ignored.
    Refused,
}

/// What the coordinator is in the middle of.
#[derive(Debug, PartialEq, Eq)]
pub enum Pending {
    /// Nothing: it waits for a command or for a task to end.
    Idle,
    /// A join that waits for its lock.
    JoinLock(JoinGroupArgs),
    /// A join that waits for the election watch of its group.
    JoinElectionWatch(JoinGroupArgs),
    /// A join that waits for the state watch of its group.
    JoinStateWatch(JoinGroupArgs),
    /// A join that waits to learn whether its group has a leader.
    JoinObserve(JoinGroupArgs),
    /// A join whose permit is out, and which waits for the supervisor.
    JoinHandle(ConsumerSourceSupervisorHandle),
    /// A creation that waits for the group's record.
    CreateRecord,
    /// A creation that waits for the first entry of the state log.
    CreateLog(ConsumerGroupId),
}

/// A coordinator as contracts see it.
#[verifier::ext_equal]
pub struct CoordinatorView {
    /// Groups for which an election attempt of this host is under way.
    pub elections: Set<ConsumerGroupId>,
    /// Groups for which a leader runs on this host.
    pub leaders: Set<ConsumerGroupId>,
    /// Groups whose leader election is watched.
    pub election_watches: Set<ConsumerGroupId>,
    /// Groups whose state is watched.
    pub state_watches: Set<ConsumerGroupId>,
    /// The supervisors that run, in the order in which they were started.
    pub consumers: Seq<ConsumerSourceSupervisorHandle>,
    pub pending: Pending,
}

/// What one call of the coordinator leads to.
pub struct Outcome {
    pub state: CoordinatorView,
    pub effects: Seq<CoordinatorEffect>,
}

impl CoordinatorView {
    /// A join that has come past a watch of its group has that watch in
    /// place.
    pub open spec fn wf(self) -> bool {
        match self.pending {
            Pending::JoinStateWatch(args) => self.election_watches.contains(
                args.consumer_group_id,
            ),
            Pending::JoinObserve(args) => self.election_watches.contains(args.consumer_group_id)
                && self.state_watches.contains(args.consumer_group_id),
            _ => true,
        }
    }

    /// The coordinator in the middle of something else.
    pub open spec fn waiting(self, pending: Pending) -> CoordinatorView {
        CoordinatorView { pending, ..self }
    }

    /// The event was not waited for: nothing changes.
    pub open spec fn refused(self) -> Outcome {
        Outcome { state: self, effects: seq![CoordinatorEffect::Refused] }
    }

    /// The join under way fails with `error`; a lock that it holds is let
    /// go.
    pub open spec fn join_failed(
        self,
        args: JoinGroupArgs,
        error: CoordinatorError,
        locked: bool,
    ) -> Outcome {
        Outcome {
            state: self.waiting(Pending::Idle),
            effects: if locked {
                seq![
                    CoordinatorEffect::ReleaseLock {
                        consumer_group_id: args.consumer_group_id,
                        consumer_id: args.consumer_id,
                    },
                    CoordinatorEffect::ReplyJoin(error),
                ]
            } else {
                seq![CoordinatorEffect::ReplyJoin(error)]
            },
        }
    }

    /// The join goes on to the election watch of its group: one that
    /// exists is shared, else it is asked for.
    pub open spec fn get_leader_election_watch(self, args: JoinGroupArgs) -> Outcome {
        if self.election_watches.contains(args.consumer_group_id) {
            self.get_leader_state_watch(args)
        } else {
            Outcome {
                state: self.waiting(Pending::JoinElectionWatch(args)),
                effects: seq![
                    CoordinatorEffect::WatchLeaderElection {
                        consumer_group_id: args.consumer_group_id,
                    },
                ],
            }
        }
    }

    /// The join goes on to the state watch of its group: one that exists
    /// is shared, else it is asked for.
    pub open spec fn get_leader_state_watch(self, args: JoinGroupArgs) -> Outcome {
        if self.state_watches.contains(args.consumer_group_id) {
            self.observe_leader(args)
        } else {
            Outcome {
                state: self.waiting(Pending::JoinStateWatch(args)),
                effects: seq![
                    CoordinatorEffect::WatchLeaderState { consumer_group_id: args.consumer_group_id },
                ],
            }
        }
    }

    /// The join goes on to ask whether its group has a leader.
    pub open spec fn observe_leader(self, args: JoinGroupArgs) -> Outcome {
        Outcome {
            state: self.waiting(Pending::JoinObserve(args)),
            effects: seq![
                CoordinatorEffect::ObserveLeader { consumer_group_id: args.consumer_group_id },
            ],
        }
    }

    /// A command arrives. A join begins with the lock of its consumer. A
    /// creation that subscribes to no event type is refused as a
    /// configuration error; any other begins with the group's record.
    pub open spec fn interpret_command(self, cmd: CoordinatorCommand) -> Outcome {
        if !(self.pending is Idle) {
            self.refused()
        } else {
            match cmd {
                CoordinatorCommand::JoinGroup(args) => Outcome {
                    state: self.waiting(Pending::JoinLock(args)),
                    effects: seq![
                        CoordinatorEffect::TryLock {
                            consumer_group_id: args.consumer_group_id,
                            consumer_id: args.consumer_id,
                        },
                    ],
                },
                CoordinatorCommand::CreateConsumerGroup(args) => if args.subscribed_blockchain_events@.len()
                    == 0 {
                    Outcome {
                        state: self,
                        effects: seq![
                            CoordinatorEffect::ReplyCreate(Err(CoordinatorError::ConfigError)),
                        ],
                    }
                } else {
                    Outcome {
                        state: self.waiting(Pending::CreateRecord),
                        effects: seq![CoordinatorEffect::CreateGroupRecord(args)],
                    }
                },
            }
        }
    }

    /// The lock was tried. A lock that is held elsewhere fails the join
    /// as contended, a failure of the coordination store fails it as
    /// such; with the lock the join goes on to its watches.
    pub open spec fn on_lock(self, outcome: LockOutcome) -> Outcome {
        match self.pending {
            Pending::JoinLock(args) => match outcome {
                LockOutcome::AlreadyHeld => self.join_failed(
                    args,
                    CoordinatorError::LockContended,
                    false,
                ),
                LockOutcome::Failed => self.join_failed(args, CoordinatorError::CoordError, false),
                LockOutcome::Acquired => self.get_leader_election_watch(args),
            },
            _ => self.refused(),
        }
    }

    /// The election watch was asked for. One that exists now is kept for
    /// the group and the join goes on; else the join fails.
    pub open spec fn on_election_watch(self, exists: bool) -> Outcome {
        match self.pending {
            Pending::JoinElectionWatch(args) => if exists {
                CoordinatorView {
                    election_watches: self.election_watches.insert(args.consumer_group_id),
                    ..self
                }.get_leader_state_watch(args)
            } else {
                self.join_failed(args, CoordinatorError::CoordError, true)
            },
            _ => self.refused(),
        }
    }

    /// The state watch was asked for. One that exists now is kept for the
    /// group and the join goes on; else the join fails.
    pub open spec fn on_state_watch(self, exists: bool) -> Outcome {
        match self.pending {
            Pending::JoinStateWatch(args) => if exists {
                CoordinatorView {
                    state_watches: self.state_watches.insert(args.consumer_group_id),
                    ..self
                }.observe_leader(args)
            } else {
                self.join_failed(args, CoordinatorError::CoordError, true)
            },
            _ => self.refused(),
        }
    }

    /// An election attempt for the group is started unless one is under
    /// way.
    pub open spec fn try_become_leader_bg(self, consumer_group_id: ConsumerGroupId) -> Outcome {
        if self.elections.contains(consumer_group_id) {
            Outcome { state: self, effects: seq![] }
        } else {
            Outcome {
                state: CoordinatorView {
                    elections: self.elections.insert(consumer_group_id),
                    ..self
                },
                effects: seq![CoordinatorEffect::StartElection { consumer_group_id }],
            }
        }
    }

    /// It is known whether the group has a leader. Without one an
    /// election attempt is started unless one is under way. Then the
    /// permit goes out.
    pub open spec fn on_leader_observed(self, has_leader: bool) -> Outcome {
        match self.pending {
            Pending::JoinObserve(args) => {
                let elected = if has_leader {
                    Outcome { state: self, effects: seq![] }
                } else {
                    self.try_become_leader_bg(args.consumer_group_id)
                };
                Outcome {
                    state: elected.state.waiting(
                        Pending::JoinHandle(
                            ConsumerSourceSupervisorHandle {
                                consumer_group_id: args.consumer_group_id,
                                consumer_id: args.consumer_id,
                            },
                        ),
                    ),
                    effects: elected.effects.push(
                        CoordinatorEffect::IssuePermit(
                            JoinPermit {
                                consumer_group_id: args.consumer_group_id,
                                consumer_id: args.consumer_id,
                                filter: args.filter,
                            },
                        ),
                    ),
                }
            },
            _ => self.refused(),
        }
    }

    /// The supervisor is added to those that run.
    pub open spec fn register_consumer_handle(
        self,
        handle: ConsumerSourceSupervisorHandle,
    ) -> CoordinatorView {
        CoordinatorView { consumers: self.consumers.push(handle), ..self }
    }

    /// The permit was used or dropped. A supervisor that was started is
    /// added to those that run.
    pub open spec fn on_supervisor(self, started: bool) -> Outcome {
        match self.pending {
            Pending::JoinHandle(handle) => Outcome {
                state: if started {
                    self.register_consumer_handle(handle).waiting(Pending::Idle)
                } else {
                    self.waiting(Pending::Idle)
                },
                effects: seq![],
            },
            _ => self.refused(),
        }
    }

    /// The group's record was tried. A group that exists, or a failure of
    /// the store, ends the creation with that error; a record that was
    /// written is followed by the first entry of the group's state log.
    pub open spec fn on_group_created(self, creation: GroupCreation) -> Outcome {
        match self.pending {
            Pending::CreateRecord => match creation {
                GroupCreation::Created(consumer_group_id) => Outcome {
                    state: self.waiting(Pending::CreateLog(consumer_group_id)),
                    effects: seq![CoordinatorEffect::WriteStateLog { consumer_group_id }],
                },
                GroupCreation::AlreadyExists => Outcome {
                    state: self.waiting(Pending::Idle),
                    effects: seq![
                        CoordinatorEffect::ReplyCreate(Err(CoordinatorError::GroupAlreadyExists)),
                    ],
                },
                GroupCreation::Failed => Outcome {
                    state: self.waiting(Pending::Idle),
                    effects: seq![CoordinatorEffect::ReplyCreate(Err(CoordinatorError::StoreError))],
                },
            },
            _ => self.refused(),
        }
    }

    /// The first entry of the state log was tried: the caller gets the
    /// group's id, or the error of the coordination store.
    pub open spec fn on_state_log(self, written: bool) -> Outcome {
        match self.pending {
            Pending::CreateLog(consumer_group_id) => Outcome {
                state: self.waiting(Pending::Idle),
                effects: seq![
                    CoordinatorEffect::ReplyCreate(
                        if written {
                            Ok(consumer_group_id)
                        } else {
                            Err(CoordinatorError::CoordError)
                        },
                    ),
                ],
            },
            _ => self.refused(),
        }
    }

    /// A leader is started for the group; one that runs for it already is
    /// aborted first.
    pub open spec fn create_leader_node(self, consumer_group_id: ConsumerGroupId) -> Outcome {
        Outcome {
            state: CoordinatorView { leaders: self.leaders.insert(consumer_group_id), ..self },
            effects: if self.leaders.contains(consumer_group_id) {
                seq![
                    CoordinatorEffect::AbortLeader { consumer_group_id },
                    CoordinatorEffect::StartLeader { consumer_group_id },
                ]
            } else {
                seq![CoordinatorEffect::StartLeader { consumer_group_id }]
            },
        }
    }

    /// The election attempt of a group ended: it is no longer under way,
    /// and if it was won a leader is started.
    pub open spec fn on_election(
        self,
        consumer_group_id: ConsumerGroupId,
        outcome: ElectionOutcome,
    ) -> Outcome {
        if !(self.pending is Idle) {
            self.refused()
        } else {
            let resolved = CoordinatorView {
                elections: self.elections.remove(consumer_group_id),
                ..self
            };
            match outcome {
                ElectionOutcome::Won => resolved.create_leader_node(consumer_group_id),
                _ => Outcome { state: resolved, effects: seq![] },
            }
        }
    }

    /// The supervisor at `index` ended, with or without an error, or
    /// because its task was aborted: it leaves the list, the others stay
    /// in their order, and the coordinator goes on.
    pub open spec fn on_consumer_finished(self, index: usize) -> Outcome {
        if !(self.pending is Idle) || index >= self.consumers.len() {
            self.refused()
        } else {
            Outcome {
                state: CoordinatorView { consumers: self.consumers.remove(index as int), ..self },
                effects: seq![],
            }
        }
    }

    /// The leader of a group ended: none runs for the group any more.
    pub open spec fn on_leader_finished(self, consumer_group_id: ConsumerGroupId) -> Outcome {
        if !(self.pending is Idle) {
            self.refused()
        } else {
            Outcome {
                state: CoordinatorView { leaders: self.leaders.remove(consumer_group_id), ..self },
                effects: seq![],
            }
        }
    }

    /// One step of the coordinator's loop.
    pub open spec fn run(self, event: CoordinatorEvent) -> Outcome {
        match event {
            CoordinatorEvent::Command(cmd) => self.interpret_command(cmd),
            CoordinatorEvent::Lock(outcome) => self.on_lock(outcome),
            CoordinatorEvent::ElectionWatch(exists) => self.on_election_watch(exists),
            CoordinatorEvent::StateWatch(exists) => self.on_state_watch(exists),
            CoordinatorEvent::LeaderObserved(has_leader) => self.on_leader_observed(has_leader),
            CoordinatorEvent::Supervisor(started) => self.on_supervisor(started),
            CoordinatorEvent::GroupCreated(creation) => self.on_group_created(creation),
            CoordinatorEvent::StateLog(written) => self.on_state_log(written),
            CoordinatorEvent::Election(consumer_group_id, outcome) => self.on_election(
                consumer_group_id,
                outcome,
            ),
            CoordinatorEvent::ConsumerFinished(index) => self.on_consumer_finished(index),
            CoordinatorEvent::LeaderFinished(consumer_group_id) => self.on_leader_finished(
                consumer_group_id,
            ),
        }
    }
}

/// A leader is started for a group only when an election for it was won.
/// The start is the last effect of that step; a leader that runs for the
/// group at that moment is aborted by the effect just before it, and no
/// leader is aborted otherwise. So the leaders that this coordinator has
/// started and not aborted are never two for one group.
pub proof fn law_one_leader_per_group(
    state: CoordinatorView,
    event: CoordinatorEvent,
    consumer_group_id: ConsumerGroupId,
    i: int,
)
    requires
        0 <= i < state.run(event).effects.len(),
    ensures
        ({
            let out = state.run(event);
            let start = CoordinatorEffect::StartLeader { consumer_group_id };
            let abort = CoordinatorEffect::AbortLeader { consumer_group_id };
            &&& out.effects[i] == start ==> {
                &&& event == CoordinatorEvent::Election(consumer_group_id, ElectionOutcome::Won)
                &&& i == out.effects.len() - 1
                &&& out.state.leaders == state.leaders.insert(consumer_group_id)
                &&& state.leaders.contains(consumer_group_id) ==> i == 1 && out.effects[0] == abort
                &&& !state.leaders.contains(consumer_group_id) ==> i == 0
            }
            &&& out.effects[i] == abort ==> {
                &&& state.leaders.contains(consumer_group_id)
                &&& i == 0
                &&& out.effects.len() == 2
                &&& out.effects[1] == start
            }
        }),
{
}

/// An election attempt is started for a group only while none is under
/// way for it, and is counted as under way from then on.
pub proof fn law_one_election_per_group(
    state: CoordinatorView,
    event: CoordinatorEvent,
    consumer_group_id: ConsumerGroupId,
    i: int,
)
    requires
        0 <= i < state.run(event).effects.len(),
        state.run(event).effects[i] == (CoordinatorEffect::StartElection { consumer_group_id }),
    ensures
        !state.elections.contains(consumer_group_id),
        state.run(event).state.elections == state.elections.insert(consumer_group_id),
        event == CoordinatorEvent::LeaderObserved(false),
{
}

/// A join whose lock was not acquired gets no permit: the caller is told
/// that the lock is contended, or that the coordination store failed, and
/// the coordinator is left as it was before the join.
pub proof fn law_no_permit_without_lock(
    state: CoordinatorView,
    args: JoinGroupArgs,
    outcome: LockOutcome,
)
    requires
        state.pending == Pending::JoinLock(args),
        outcome != LockOutcome::Acquired,
    ensures
        state.on_lock(outcome).state == state.waiting(Pending::Idle),
        state.on_lock(outcome).effects == seq![
            CoordinatorEffect::ReplyJoin(
                if outcome == LockOutcome::AlreadyHeld {
                    CoordinatorError::LockContended
                } else {
                    CoordinatorError::CoordError
                },
            ),
        ],
{
}

/// A permit goes out only at the end of a join: for the consumer of that
/// join, after its lock was acquired and the watches of its group
/// exist.
pub proof fn law_permit_ends_a_join(
    state: CoordinatorView,
    event: CoordinatorEvent,
    permit: JoinPermit,
    i: int,
)
    requires
        0 <= i < state.run(event).effects.len(),
        state.run(event).effects[i] == CoordinatorEffect::IssuePermit(permit),
    ensures
        state.pending == Pending::JoinObserve(
            JoinGroupArgs {
                consumer_group_id: permit.consumer_group_id,
                consumer_id: permit.consumer_id,
                filter: permit.filter,
            },
        ),
        event is LeaderObserved,
        i == state.run(event).effects.len() - 1,
        state.run(event).state.pending == Pending::JoinHandle(
            ConsumerSourceSupervisorHandle {
                consumer_group_id: permit.consumer_group_id,
                consumer_id: permit.consumer_id,
            },
        ),
{
}

/// Every step keeps a well-formed coordinator well formed.
pub proof fn law_run_keeps_wf(state: CoordinatorView, event: CoordinatorEvent)
    requires
        state.wf(),
    ensures
        state.run(event).state.wf(),
{
}

/// A join reaches the point where its permit goes out only with both
/// watches of its group in place; a watch that existed is shared, not
/// made again.
pub proof fn law_join_shares_watches(state: CoordinatorView, event: CoordinatorEvent)
    requires
        state.wf(),
        state.run(event).state.pending is JoinObserve,
    ensures
        state.run(event).state.wf(),
        ({
            let args = state.run(event).state.pending->JoinObserve_0;
            &&& state.run(event).state.election_watches.contains(args.consumer_group_id)
            &&& state.run(event).state.state_watches.contains(args.consumer_group_id)
            &&& state.election_watches.contains(args.consumer_group_id)
                ==> state.run(event).state.election_watches == state.election_watches
            &&& state.state_watches.contains(args.consumer_group_id)
                ==> state.run(event).state.state_watches == state.state_watches
        }),
{
}

/// The end of a supervisor, however it came, takes that supervisor off
/// the list and nothing else: the others keep their order, no effect is
/// asked for, and the coordinator waits for the next event as before.
pub proof fn law_coordinator_outlives_its_supervisors(state: CoordinatorView, index: usize)
    requires
        state.pending is Idle,
        index < state.consumers.len(),
    ensures
        ({
            let out = state.run(CoordinatorEvent::ConsumerFinished(index));
            &&& out.effects == Seq::<CoordinatorEffect>::empty()
            &&& out.state.pending is Idle
            &&& out.state.consumers.len() == state.consumers.len() - 1
            &&& forall|i: int| 0 <= i < index ==> out.state.consumers[i] == state.consumers[i]
            &&& forall|i: int|
                index <= i < out.state.consumers.len() ==> out.state.consumers[i]
                    == state.consumers[i + 1]
            &&& out.state.elections == state.elections
            &&& out.state.leaders == state.leaders
            &&& out.state.election_watches == state.election_watches
            &&& out.state.state_watches == state.state_watches
        }),
{
}

/// A call left the coordinator, and returned the effects, that the
/// outcome says.
pub open spec fn reached(
    after: CoordinatorView,
    effects: Seq<CoordinatorEffect>,
    outcome: Outcome,
) -> bool {
    after == outcome.state && effects == outcome.effects
}

/// Whether a group is in a set of groups.
fn holds(groups: &BTreeSet<ConsumerGroupId>, consumer_group_id: ConsumerGroupId) -> (held: bool)
    ensures
        held == groups@.contains(consumer_group_id),
{
    broadcast use vstd::std_specs::btree::group_btree_axioms;
    broadcast use vstd::laws_cmp::group_laws_cmp;

    groups.contains(&consumer_group_id)
}

/// Puts a group into a set of groups.
fn put(groups: &mut BTreeSet<ConsumerGroupId>, consumer_group_id: ConsumerGroupId)
    ensures
        final(groups)@ == old(groups)@.insert(consumer_group_id),
{
    broadcast use vstd::std_specs::btree::group_btree_axioms;
    broadcast use vstd::laws_cmp::group_laws_cmp;

    groups.insert(consumer_group_id);
}

/// Takes a group out of a set of groups.
fn take_out(groups: &mut BTreeSet<ConsumerGroupId>, consumer_group_id: ConsumerGroupId)
    ensures
        final(groups)@ == old(groups)@.remove(consumer_group_id),
{
    broadcast use vstd::std_specs::btree::group_btree_axioms;
    broadcast use vstd::laws_cmp::group_laws_cmp;

    groups.remove(&consumer_group_id);
}

pub struct ConsumerGroupCoordinatorBackend {
    background_leader_attempt: BTreeSet<ConsumerGroupId>,
    leader_handles: BTreeSet<ConsumerGroupId>,
    consumer_handles: Vec<ConsumerSourceSupervisorHandle>,
    leader_election_watch_map: BTreeSet<ConsumerGroupId>,
    leader_state_watch_map: BTreeSet<ConsumerGroupId>,
    pending: Pending,
}

impl View for ConsumerGroupCoordinatorBackend {
    type V = CoordinatorView;

    closed spec fn view(&self) -> CoordinatorView {
        CoordinatorView {
            elections: self.background_leader_attempt@,
            leaders: self.leader_handles@,
            election_watches: self.leader_election_watch_map@,
            state_watches: self.leader_state_watch_map@,
            consumers: self.consumer_handles@,
            pending: self.pending,
        }
    }
}

/// The client's side of a coordinator: it words the commands.
#[derive(Clone, Copy, Debug)]
pub struct ConsumerGroupCoordinator;

impl ConsumerGroupCoordinator {
    /// The command that creates a group.
    pub fn create_consumer_group(
        &self,
        seek_loc: SeekLocation,
        subscribed_blockchain_events: Vec<BlockchainEventType>,
        consumer_id_list: Vec<ConsumerId>,
        commitment_level: CommitmentLevel,
        requestor_ipaddr: Option<String>,
    ) -> (cmd: CoordinatorCommand)
        ensures
            cmd == CoordinatorCommand::CreateConsumerGroup(
                CreateConsumerGroupArgs {
                    seek_loc,
                    subscribed_blockchain_events,
                    commitment_level,
                    consumer_id_list,
                    requestor_ipaddr,
                },
            ),
    {
        CoordinatorCommand::CreateConsumerGroup(
            CreateConsumerGroupArgs {
                seek_loc,
                subscribed_blockchain_events,
                commitment_level,
                consumer_id_list,
                requestor_ipaddr,
            },
        )
    }

    /// The command that joins a consumer to its group.
    pub fn try_join_consumer_group(
        &self,
        consumer_group_id: ConsumerGroupId,
        consumer_id: ConsumerId,
        filter: Option<ShardFilter>,
    ) -> (cmd: CoordinatorCommand)
        ensures
            cmd == CoordinatorCommand::JoinGroup(
                JoinGroupArgs { consumer_group_id, consumer_id, filter },
            ),
    {
        CoordinatorCommand::JoinGroup(JoinGroupArgs { consumer_group_id, consumer_id, filter })
    }
}

impl ConsumerGroupCoordinatorBackend {
    /// A coordinator for which nothing runs yet, with its client's side.
    pub fn spawn() -> (made: (ConsumerGroupCoordinator, ConsumerGroupCoordinatorBackend))
        ensures
            made.1@.wf(),
            made.1@ == (CoordinatorView {
                elections: Set::empty(),
                leaders: Set::empty(),
                election_watches: Set::empty(),
                state_watches: Set::empty(),
                consumers: Seq::empty(),
                pending: Pending::Idle,
            }),
    {
        (
            ConsumerGroupCoordinator,
            ConsumerGroupCoordinatorBackend {
                background_leader_attempt: BTreeSet::new(),
                leader_handles: BTreeSet::new(),
                consumer_handles: Vec::new(),
                leader_election_watch_map: BTreeSet::new(),
                leader_state_watch_map: BTreeSet::new(),
                pending: Pending::Idle,
            },
        )
    }

    /// Whether the coordinator waits for a command or for a task to end.
    pub fn is_idle(&self) -> (idle: bool)
        ensures
            idle == (self@.pending is Idle),
    {
        match &self.pending {
            Pending::Idle => true,
            _ => false,
        }
    }

    /// Whether an election attempt is under way for the group.
    pub fn has_election(&self, consumer_group_id: ConsumerGroupId) -> (under_way: bool)
        ensures
            under_way == self@.elections.contains(consumer_group_id),
    {
        holds(&self.background_leader_attempt, consumer_group_id)
    }

    /// Whether a leader runs for the group.
    pub fn has_leader(&self, consumer_group_id: ConsumerGroupId) -> (runs: bool)
        ensures
            runs == self@.leaders.contains(consumer_group_id),
    {
        holds(&self.leader_handles, consumer_group_id)
    }

    /// Number of supervisors that run.
    pub fn consumer_count(&self) -> (count: usize)
        ensures
            count == self@.consumers.len(),
    {
        self.consumer_handles.len()
    }

    /// The supervisors that run.
    pub fn consumer_handles(&self) -> (handles: &Vec<ConsumerSourceSupervisorHandle>)
        ensures
            handles@ == self@.consumers,
    {
        &self.consumer_handles
    }

    fn take_pending(&mut self) -> (pending: Pending)
        ensures
            pending == old(self)@.pending,
            final(self)@ == old(self)@.waiting(Pending::Idle),
    {
        let mut pending = Pending::Idle;
        core::mem::swap(&mut self.pending, &mut pending);
        pending
    }

    fn refuse(&mut self, pending: Pending) -> (effects: Vec<CoordinatorEffect>)
        ensures
            final(self)@ == old(self)@.waiting(pending),
            effects@ == seq![CoordinatorEffect::Refused],
    {
        self.pending = pending;
        let mut effects = Vec::new();
        effects.push(CoordinatorEffect::Refused);
        assert(effects@ =~= seq![CoordinatorEffect::Refused]);
        effects
    }

    fn join_failed(args: JoinGroupArgs, error: CoordinatorError, locked: bool) -> (effects: Vec<
        CoordinatorEffect,
    >)
        ensures
            effects@ == if locked {
                seq![
                    CoordinatorEffect::ReleaseLock {
                        consumer_group_id: args.consumer_group_id,
                        consumer_id: args.consumer_id,
                    },
                    CoordinatorEffect::ReplyJoin(error),
                ]
            } else {
                seq![CoordinatorEffect::ReplyJoin(error)]
            },
    {
        let mut effects = Vec::new();
        if locked {
            effects.push(
                CoordinatorEffect::ReleaseLock {
                    consumer_group_id: args.consumer_group_id,
                    consumer_id: args.consumer_id,
                },
            );
        }
        effects.push(CoordinatorEffect::ReplyJoin(error));
        assert(effects@ =~= if locked {
            seq![
                CoordinatorEffect::ReleaseLock {
                    consumer_group_id: args.consumer_group_id,
                    consumer_id: args.consumer_id,
                },
                CoordinatorEffect::ReplyJoin(error),
            ]
        } else {
            seq![CoordinatorEffect::ReplyJoin(error)]
        });
        effects
    }

    fn single(effect: CoordinatorEffect) -> (effects: Vec<CoordinatorEffect>)
        ensures
            effects@ == seq![effect],
    {
        let mut effects = Vec::new();
        effects.push(effect);
        assert(effects@ =~= seq![effect]);
        effects
    }

    fn observe_leader(&mut self, args: JoinGroupArgs) -> (effects: Vec<CoordinatorEffect>)
        ensures
            reached(final(self)@, effects@, old(self)@.observe_leader(args)),
    {
        let consumer_group_id = args.consumer_group_id;
        self.pending = Pending::JoinObserve(args);
        Self::single(CoordinatorEffect::ObserveLeader { consumer_group_id })
    }

    fn get_leader_state_watch(&mut self, args: JoinGroupArgs) -> (effects: Vec<CoordinatorEffect>)
        ensures
            reached(final(self)@, effects@, old(self)@.get_leader_state_watch(args)),
    {
        let consumer_group_id = args.consumer_group_id;
        if holds(&self.leader_state_watch_map, consumer_group_id) {
            self.observe_leader(args)
        } else {
            self.pending = Pending::JoinStateWatch(args);
            Self::single(CoordinatorEffect::WatchLeaderState { consumer_group_id })
        }
    }

    fn get_leader_election_watch(&mut self, args: JoinGroupArgs) -> (effects: Vec<
        CoordinatorEffect,
    >)
        ensures
            reached(final(self)@, effects@, old(self)@.get_leader_election_watch(args)),
    {
        let consumer_group_id = args.consumer_group_id;
        if holds(&self.leader_election_watch_map, consumer_group_id) {
            self.get_leader_state_watch(args)
        } else {
            self.pending = Pending::JoinElectionWatch(args);
            Self::single(CoordinatorEffect::WatchLeaderElection { consumer_group_id })
        }
    }

    fn interpret_command(&mut self, cmd: CoordinatorCommand) -> (effects: Vec<CoordinatorEffect>)
        ensures
            reached(final(self)@, effects@, old(self)@.interpret_command(cmd)),
    {
        match self.take_pending() {
            Pending::Idle => {},
            other => {
                return self.refuse(other);
            },
        }
        match cmd {
            CoordinatorCommand::JoinGroup(args) => {
                let effect = CoordinatorEffect::TryLock {
                    consumer_group_id: args.consumer_group_id,
                    consumer_id: args.consumer_id.clone(),
                };
                self.pending = Pending::JoinLock(args);
                Self::single(effect)
            },
            CoordinatorCommand::CreateConsumerGroup(args) => {
                if args.subscribed_blockchain_events.len() == 0 {
                    Self::single(CoordinatorEffect::ReplyCreate(Err(CoordinatorError::ConfigError)))
                } else {
                    self.pending = Pending::CreateRecord;
                    Self::single(CoordinatorEffect::CreateGroupRecord(args))
                }
            },
        }
    }

    fn on_lock(&mut self, outcome: LockOutcome) -> (effects: Vec<CoordinatorEffect>)
        ensures
            reached(final(self)@, effects@, old(self)@.on_lock(outcome)),
    {
        match self.take_pending() {
            Pending::JoinLock(args) => match outcome {
                LockOutcome::AlreadyHeld => Self::join_failed(
                    args,
                    CoordinatorError::LockContended,
                    false,
                ),
                LockOutcome::Failed => Self::join_failed(args, CoordinatorError::CoordError, false),
                LockOutcome::Acquired => self.get_leader_election_watch(args),
            },
            other => self.refuse(other),
        }
    }

    fn on_election_watch(&mut self, exists: bool) -> (effects: Vec<CoordinatorEffect>)
        ensures
            reached(final(self)@, effects@, old(self)@.on_election_watch(exists)),
    {
        match self.take_pending() {
            Pending::JoinElectionWatch(args) => {
                if exists {
                    put(&mut self.leader_election_watch_map, args.consumer_group_id);
                    self.get_leader_state_watch(args)
                } else {
                    Self::join_failed(args, CoordinatorError::CoordError, true)
                }
            },
            other => self.refuse(other),
        }
    }

    fn on_state_watch(&mut self, exists: bool) -> (effects: Vec<CoordinatorEffect>)
        ensures
            reached(final(self)@, effects@, old(self)@.on_state_watch(exists)),
    {
        match self.take_pending() {
            Pending::JoinStateWatch(args) => {
                if exists {
                    put(&mut self.leader_state_watch_map, args.consumer_group_id);
                    self.observe_leader(args)
                } else {
                    Self::join_failed(args, CoordinatorError::CoordError, true)
                }
            },
            other => self.refuse(other),
        }
    }

    fn try_become_leader_bg(&mut self, consumer_group_id: ConsumerGroupId) -> (effects: Vec<
        CoordinatorEffect,
    >)
        ensures
            reached(final(self)@, effects@, old(self)@.try_become_leader_bg(consumer_group_id)),
    {
        if holds(&self.background_leader_attempt, consumer_group_id) {
            let effects = Vec::new();
            assert(effects@ =~= seq![]);
            effects
        } else {
            put(&mut self.background_leader_attempt, consumer_group_id);
            Self::single(CoordinatorEffect::StartElection { consumer_group_id })
        }
    }

    fn on_leader_observed(&mut self, has_leader: bool) -> (effects: Vec<CoordinatorEffect>)
        ensures
            reached(final(self)@, effects@, old(self)@.on_leader_observed(has_leader)),
    {
        match self.take_pending() {
            Pending::JoinObserve(args) => {
                let mut effects = if has_leader {
                    let effects = Vec::new();
                    assert(effects@ =~= seq![]);
                    effects
                } else {
                    self.try_become_leader_bg(args.consumer_group_id)
                };
                self.pending = Pending::JoinHandle(
                    ConsumerSourceSupervisorHandle {
                        consumer_group_id: args.consumer_group_id,
                        consumer_id: args.consumer_id.clone(),
                    },
                );
                effects.push(
                    CoordinatorEffect::IssuePermit(
                        JoinPermit {
                            consumer_group_id: args.consumer_group_id,
                            consumer_id: args.consumer_id,
                            filter: args.filter,
                        },
                    ),
                );
                effects
            },
            other => self.refuse(other),
        }
    }

    fn register_consumer_handle(&mut self, consumer_handle: ConsumerSourceSupervisorHandle)
        ensures
            final(self)@ == old(self)@.register_consumer_handle(consumer_handle),
    {
        self.consumer_handles.push(consumer_handle);
    }

    fn on_supervisor(&mut self, started: bool) -> (effects: Vec<CoordinatorEffect>)
        ensures
            reached(final(self)@, effects@, old(self)@.on_supervisor(started)),
    {
        match self.take_pending() {
            Pending::JoinHandle(handle) => {
                if started {
                    self.register_consumer_handle(handle);
                }
                let effects = Vec::new();
                assert(effects@ =~= seq![]);
                effects
            },
            other => self.refuse(other),
        }
    }

    fn on_group_created(&mut self, creation: GroupCreation) -> (effects: Vec<CoordinatorEffect>)
        ensures
            reached(final(self)@, effects@, old(self)@.on_group_created(creation)),
    {
        match self.take_pending() {
            Pending::CreateRecord => match creation {
                GroupCreation::Created(consumer_group_id) => {
                    self.pending = Pending::CreateLog(consumer_group_id);
                    Self::single(CoordinatorEffect::WriteStateLog { consumer_group_id })
                },
                GroupCreation::AlreadyExists => Self::single(
                    CoordinatorEffect::ReplyCreate(Err(CoordinatorError::GroupAlreadyExists)),
                ),
                GroupCreation::Failed => Self::single(
                    CoordinatorEffect::ReplyCreate(Err(CoordinatorError::StoreError)),
                ),
            },
            other => self.refuse(other),
        }
    }

    fn on_state_log(&mut self, written: bool) -> (effects: Vec<CoordinatorEffect>)
        ensures
            reached(final(self)@, effects@, old(self)@.on_state_log(written)),
    {
        match self.take_pending() {
            Pending::CreateLog(consumer_group_id) => Self::single(
                CoordinatorEffect::ReplyCreate(
                    if written {
                        Ok(consumer_group_id)
                    } else {
                        Err(CoordinatorError::CoordError)
                    },
                ),
            ),
            other => self.refuse(other),
        }
    }

    fn create_leader_node(&mut self, consumer_group_id: ConsumerGroupId) -> (effects: Vec<
        CoordinatorEffect,
    >)
        ensures
            reached(final(self)@, effects@, old(self)@.create_leader_node(consumer_group_id)),
    {
        let mut effects = Vec::new();
        let replaced = holds(&self.leader_handles, consumer_group_id);
        if replaced {
            effects.push(CoordinatorEffect::AbortLeader { consumer_group_id });
        }
        effects.push(CoordinatorEffect::StartLeader { consumer_group_id });
        put(&mut self.leader_handles, consumer_group_id);
        assert(effects@ =~= if replaced {
            seq![
                CoordinatorEffect::AbortLeader { consumer_group_id },
                CoordinatorEffect::StartLeader { consumer_group_id },
            ]
        } else {
            seq![CoordinatorEffect::StartLeader { consumer_group_id }]
        });
        effects
    }

    fn on_election(&mut self, consumer_group_id: ConsumerGroupId, outcome: ElectionOutcome) -> (effects:
        Vec<CoordinatorEffect>)
        ensures
            reached(final(self)@, effects@, old(self)@.on_election(consumer_group_id, outcome)),
    {
        match self.take_pending() {
            Pending::Idle => {},
            other => {
                return self.refuse(other);
            },
        }
        take_out(&mut self.background_leader_attempt, consumer_group_id);
        match outcome {
            ElectionOutcome::Won => self.create_leader_node(consumer_group_id),
            _ => {
                let effects = Vec::new();
                assert(effects@ =~= seq![]);
                effects
            },
        }
    }

    fn on_consumer_finished(&mut self, index: usize) -> (effects: Vec<CoordinatorEffect>)
        ensures
            reached(final(self)@, effects@, old(self)@.on_consumer_finished(index)),
    {
        match self.take_pending() {
            Pending::Idle => {},
            other => {
                return self.refuse(other);
            },
        }
        if index >= self.consumer_handles.len() {
            return self.refuse(Pending::Idle);
        }
        self.consumer_handles.remove(index);
        let effects = Vec::new();
        assert(effects@ =~= seq![]);
        effects
    }

    fn on_leader_finished(&mut self, consumer_group_id: ConsumerGroupId) -> (effects: Vec<
        CoordinatorEffect,
    >)
        ensures
            reached(final(self)@, effects@, old(self)@.on_leader_finished(consumer_group_id)),
    {
        match self.take_pending() {
            Pending::Idle => {},
            other => {
                return self.refuse(other);
            },
        }
        take_out(&mut self.leader_handles, consumer_group_id);
        let effects = Vec::new();
        assert(effects@ =~= seq![]);
        effects
    }

    /// Takes one event of the coordinator's loop and returns the effects
    /// to carry out, in order.
    pub fn run(&mut self, event: CoordinatorEvent) -> (effects: Vec<CoordinatorEffect>)
        ensures
            reached(final(self)@, effects@, old(self)@.run(event)),
            old(self)@.wf() ==> final(self)@.wf(),
    {
        proof {
            if old(self)@.wf() {
                law_run_keeps_wf(old(self)@, event);
            }
        }
        match event {
            CoordinatorEvent::Command(cmd) => self.interpret_command(cmd),
            CoordinatorEvent::Lock(outcome) => self.on_lock(outcome),
            CoordinatorEvent::ElectionWatch(exists) => self.on_election_watch(exists),
            CoordinatorEvent::StateWatch(exists) => self.on_state_watch(exists),
            CoordinatorEvent::LeaderObserved(has_leader) => self.on_leader_observed(has_leader),
            CoordinatorEvent::Supervisor(started) => self.on_supervisor(started),
            CoordinatorEvent::GroupCreated(creation) => self.on_group_created(creation),
            CoordinatorEvent::StateLog(written) => self.on_state_log(written),
            CoordinatorEvent::Election(consumer_group_id, outcome) => self.on_election(
                consumer_group_id,
                outcome,
            ),
            CoordinatorEvent::ConsumerFinished(index) => self.on_consumer_finished(index),
            CoordinatorEvent::LeaderFinished(consumer_group_id) => self.on_leader_finished(
                consumer_group_id,
            ),
        }
    }
}

} // verus!
