//! The fetch loop of one consumer, as a machine that is driven from
//! outside.
//!
//! A source owns one cursor per `(event type, shard)`. It sweeps them in a
//! fixed order, looks for an interrupt before each, sends what a cursor
//! yields to the sink, and after a sweep writes its progress when the
//! commit deadline has passed. The machine itself performs none of this:
//! each call takes what happened and returns what to do next.

use crate::commit::{OffsetCommit, OffsetCommitView, Positions};
use crate::shard_iterator::{CursorView, FetchRequest, ShardFilter, ShardIterator};
use crate::types::{
    entries, record, BlockchainEvent, BlockchainEventType, ConsumerGroupId, ConsumerId, ExecutionId,
    ProducerId, Revision, ShardId, ShardOffset, ShardOffsetMap, Slot, UNDEFINED_SLOT,
};
use vstd::prelude::*;

verus! {

/// A send that takes longer than this shows a consumer that lags, in
/// milliseconds.
pub const CLIENT_LAG_WARN_THRESHOLD: u64 = 250;

/// Time between two writes of progress where none is chosen, in milliseconds.
pub const DEFAULT_OFFSET_COMMIT_INTERVAL: u64 = 500;

/// A row that takes longer than this to arrive is worth a warning, in
/// milliseconds.
pub const FETCH_MICRO_BATCH_LATENCY_WARN_THRESHOLD: u64 = 500;

/// Least time between two reports of the slot reached, in milliseconds.
pub const PRINT_CONSUMER_SLOT_REACH_DELAY: u64 = 5000;

/// Who a source reads for.
#[derive(Clone, Debug, PartialEq, Eq)]
pub struct ConsumerContext {
    pub consumer_group_id: ConsumerGroupId,
    pub consumer_id: ConsumerId,
    pub producer_id: ProducerId,
    pub execution_id: ExecutionId,
    pub subscribed_event_types: Vec<BlockchainEventType>,
}

/// A context as contracts see it.
#[verifier::ext_equal]
pub struct ContextView {
    pub consumer_group_id: ConsumerGroupId,
    pub consumer_id: Seq<char>,
    pub producer_id: ProducerId,
    pub execution_id: Seq<u8>,
    pub subscribed_event_types: Seq<BlockchainEventType>,
}

impl View for ConsumerContext {
    type V = ContextView;

    open spec fn view(&self) -> ContextView {
        ContextView {
            consumer_group_id: self.consumer_group_id,
            consumer_id: self.consumer_id@,
            producer_id: self.producer_id,
            execution_id: self.execution_id@,
            subscribed_event_types: self.subscribed_event_types@,
        }
    }
}

/// The positions a source starts from, one map per event type.
#[derive(Debug)]
pub struct OffsetsByEventType {
    pub account_update: Option<ShardOffsetMap>,
    pub new_transaction: Option<ShardOffsetMap>,
}

/// The positions that an optional offset map holds.
pub open spec fn positions_of(map: Option<ShardOffsetMap>) -> Positions {
    match map {
        Some(m) => m@,
        None => Map::empty(),
    }
}

/// Some cursor of `cursors` reads `(event_type, shard_id)`.
pub open spec fn has_cursor(
    cursors: Seq<CursorView>,
    event_type: BlockchainEventType,
    shard_id: ShardId,
) -> bool {
    exists|i: int| is_cursor_of(cursors, i, event_type, shard_id)
}

/// The cursor at `i` reads `(event_type, shard_id)`.
pub open spec fn is_cursor_of(
    cursors: Seq<CursorView>,
    i: int,
    event_type: BlockchainEventType,
    shard_id: ShardId,
) -> bool {
    0 <= i < cursors.len() && cursors[i].event_type == event_type && cursors[i].shard_id
        == shard_id
}

/// No two cursors read the same `(event type, shard)`.
pub open spec fn distinct_cursors(cursors: Seq<CursorView>) -> bool {
    forall|i: int, j: int|
        0 <= i < j < cursors.len() ==> !((#[trigger] cursors[i]).event_type == (
        #[trigger] cursors[j]).event_type && cursors[i].shard_id == cursors[j].shard_id)
}

/// Where the cursors of one event type stand: for each shard that one of
/// them reads, the offset and slot of the last row it handed out.
pub open spec fn snapshot(cursors: Seq<CursorView>, event_type: BlockchainEventType) -> Positions {
    Map::new(
        |shard_id: ShardId| has_cursor(cursors, event_type, shard_id),
        |shard_id: ShardId|
            {
                let i = choose|i: int| is_cursor_of(cursors, i, event_type, shard_id);
                (cursors[i].last_offset, cursors[i].last_slot)
            },
    )
}

/// The two maps of a write of progress. With one event type subscribed
/// both are the snapshot of that type, which keeps the row's shape; with
/// both subscribed each type has its own.
pub open spec fn commit_maps(subscribed: Seq<BlockchainEventType>, cursors: Seq<CursorView>) -> (
    Positions,
    Positions,
) {
    let accounts = subscribed.contains(BlockchainEventType::AccountUpdate);
    let transactions = subscribed.contains(BlockchainEventType::NewTransaction);
    if accounts && !transactions {
        (
            snapshot(cursors, BlockchainEventType::AccountUpdate),
            snapshot(cursors, BlockchainEventType::AccountUpdate),
        )
    } else if transactions && !accounts {
        (
            snapshot(cursors, BlockchainEventType::NewTransaction),
            snapshot(cursors, BlockchainEventType::NewTransaction),
        )
    } else {
        (
            snapshot(cursors, BlockchainEventType::AccountUpdate),
            snapshot(cursors, BlockchainEventType::NewTransaction),
        )
    }
}

/// The snapshot of cursors with one more behind them: the new cursor adds
/// its own position where it is of the event type asked for.
pub proof fn lemma_snapshot_push(
    cursors: Seq<CursorView>,
    cursor: CursorView,
    event_type: BlockchainEventType,
)
    requires
        distinct_cursors(cursors.push(cursor)),
    ensures
        snapshot(cursors.push(cursor), event_type) == if cursor.event_type == event_type {
            snapshot(cursors, event_type).insert(
                cursor.shard_id,
                (cursor.last_offset, cursor.last_slot),
            )
        } else {
            snapshot(cursors, event_type)
        },
{
    let more = cursors.push(cursor);
    let n = cursors.len() as int;
    let expected = if cursor.event_type == event_type {
        snapshot(cursors, event_type).insert(cursor.shard_id, (cursor.last_offset, cursor.last_slot))
    } else {
        snapshot(cursors, event_type)
    };
    assert forall|shard_id: ShardId| #[trigger]
        snapshot(more, event_type).contains_key(shard_id) == expected.contains_key(shard_id) by {
        if has_cursor(more, event_type, shard_id) {
            let i = choose|i: int| is_cursor_of(more, i, event_type, shard_id);
            if i < n {
                assert(more[i] == cursors[i]);
                assert(is_cursor_of(cursors, i, event_type, shard_id));
            }
        }
        if has_cursor(cursors, event_type, shard_id) {
            let i = choose|i: int| is_cursor_of(cursors, i, event_type, shard_id);
            assert(more[i] == cursors[i]);
            assert(is_cursor_of(more, i, event_type, shard_id));
        }
        if cursor.event_type == event_type && cursor.shard_id == shard_id {
            assert(is_cursor_of(more, n, event_type, shard_id));
        }
    }
    assert forall|shard_id: ShardId| #[trigger]
        snapshot(more, event_type).contains_key(shard_id) implies snapshot(more, event_type)[shard_id]
        == expected[shard_id] by {
        let i = choose|i: int| is_cursor_of(more, i, event_type, shard_id);
        assert(is_cursor_of(more, i, event_type, shard_id));
        if i < n {
            assert(more[i] == cursors[i]);
            assert(is_cursor_of(cursors, i, event_type, shard_id));
            let j = choose|j: int| is_cursor_of(cursors, j, event_type, shard_id);
            assert(more[j] == cursors[j]);
            if i != j {
                assert(more[i].event_type == more[j].event_type);
            }
            if cursor.event_type == event_type && cursor.shard_id == shard_id {
                assert(more[n] == cursor);
                assert(more[i].event_type == more[n].event_type);
            }
        } else {
            assert(more[n] == cursor);
        }
    }
    assert(snapshot(more, event_type) =~= expected);
}

/// The snapshot of a type holds the position of each cursor of that type.
pub proof fn lemma_snapshot_at(cursors: Seq<CursorView>, i: int)
    requires
        distinct_cursors(cursors),
        0 <= i < cursors.len(),
    ensures
        snapshot(cursors, cursors[i].event_type).contains_key(cursors[i].shard_id),
        snapshot(cursors, cursors[i].event_type)[cursors[i].shard_id] == (
            cursors[i].last_offset,
            cursors[i].last_slot,
        ),
{
    let event_type = cursors[i].event_type;
    let shard_id = cursors[i].shard_id;
    assert(is_cursor_of(cursors, i, event_type, shard_id));
    let j = choose|j: int| is_cursor_of(cursors, j, event_type, shard_id);
    if i != j {
        assert(cursors[i].event_type == cursors[j].event_type);
    }
}

/// Why a source stopped, or could not be made.
#[derive(Clone, Copy, Debug, PartialEq, Eq, Structural)]
pub enum SourceError {
    /// The context subscribes to no event type.
    NoEventSubscribed,
    /// The conditional write of progress failed its predicate: the lock is
    /// compromised.
    Fenced,
    /// The interrupt channel was closed without a signal.
    OrphanSource,
    /// The sink was closed by its reader.
    SinkClosed,
    /// A read or write of the store failed, or a read brought rows that
    /// do not continue the cursor.
    StoreError,
    /// The coordination store gave no fencing token.
    CoordError,
    /// The machine was told of something it had not asked for.
    OutOfTurn,
}

/// What a source waits for.
#[derive(Clone, Copy, Debug, PartialEq, Eq, Structural)]
pub enum Phase {
    /// Not started yet.
    Ready,
    /// The state of the interrupt channel.
    AwaitInterrupt,
    /// The rows of the read it asked for.
    AwaitRows,
    /// The outcome of a send to the sink.
    AwaitSend,
    /// A fencing token.
    AwaitToken,
    /// The outcome of the conditional write.
    AwaitCommit,
    /// To be called again after it gave way to other tasks.
    AwaitResume,
    /// Nothing: it has stopped.
    Done,
}

/// The part of a source that changes from step to step, apart from its
/// cursors. Times are readings of one monotonic clock, in milliseconds.
#[derive(Clone, Copy, Debug, PartialEq, Eq, Structural)]
pub struct RunState {
    pub phase: Phase,
    /// Index of the cursor whose turn it is.
    pub turn: usize,
    /// An interrupt was seen: the write under way is the last.
    pub stopping: bool,
    /// Progress is written after the first sweep that ends later than this.
    pub commit_deadline: u64,
    pub max_seen_slot: Slot,
    pub num_event_between_two_slots: u64,
    /// The slot reached is reported once the clock is past this.
    pub next_trace_schedule: u64,
    /// When the last event was sent, or the source started.
    pub last_progress: u64,
}

/// A source as contracts see it.
#[verifier::ext_equal]
pub struct SourceView {
    pub ctx: ContextView,
    pub offset_commit_interval: u64,
    pub filter: Option<ShardFilter>,
    pub cursors: Seq<CursorView>,
    pub run: RunState,
}

impl SourceView {
    /// The context subscribes to something; the cursors are well formed,
    /// read from the context's producer and no two of them read the same
    /// `(event type, shard)`.
    pub open spec fn sound(self) -> bool {
        &&& self.ctx.subscribed_event_types.len() > 0
        &&& self.cursors.len() <= usize::MAX
        &&& distinct_cursors(self.cursors)
        &&& forall|i: int|
            0 <= i < self.cursors.len() ==> (#[trigger] self.cursors[i]).wf()
                && self.cursors[i].producer_id == self.ctx.producer_id
    }

    /// The source is sound and, while a cursor has its turn, that cursor
    /// exists. A source without cursors looks for an interrupt all the
    /// same, at turn zero.
    pub open spec fn wf(self) -> bool {
        &&& self.sound()
        &&& (self.run.phase == Phase::AwaitRows || self.run.phase == Phase::AwaitSend)
            ==> self.run.turn < self.cursors.len()
        &&& self.run.phase == Phase::AwaitInterrupt ==> self.run.turn < self.cursors.len()
            || self.cursors.len() == 0
    }

    /// The conditional write that records where the cursors stand, under
    /// the token `revision`.
    pub open spec fn commit_of(self, revision: Revision) -> OffsetCommitView {
        let maps = commit_maps(self.ctx.subscribed_event_types, self.cursors);
        OffsetCommitView {
            consumer_group_id: self.ctx.consumer_group_id,
            consumer_id: self.ctx.consumer_id,
            execution_id: self.ctx.execution_id,
            acc: maps.0,
            tx: maps.1,
            revision,
        }
    }
}

/// What the interrupt channel held when it was looked at.
#[derive(Clone, Copy, Debug, PartialEq, Eq, Structural)]
pub enum InterruptPoll {
    /// Nothing yet.
    Empty,
    /// The signal to stop.
    Signalled,
    /// The sender is gone and never signalled.
    Closed,
}

/// What the driver of a source is to do next.
#[derive(Debug, PartialEq, Eq)]
pub enum SourceAction {
    /// Look at the interrupt channel without waiting, then call
    /// `on_interrupt`.
    PollInterrupt,
    /// Read the store for the cursor at `index`, then call `on_rows`.
    Fetch { index: usize, request: FetchRequest },
    /// Send the event to the sink, then call `on_sent`.
    Send(BlockchainEvent),
    /// Ask the lock for a fencing token, then call `on_token`.
    GenerateToken,
    /// Run the conditional write, then call `on_commit`.
    Commit(OffsetCommit),
    /// Give way to other tasks, then call `on_resume`.
    Resume,
    /// Stop driving: the source has ended with this result.
    Stop(Result<(), SourceError>),
}

/// An action as contracts see it.
pub enum ActionView {
    PollInterrupt,
    Fetch { index: usize, request: FetchRequest },
    Send(BlockchainEvent),
    GenerateToken,
    Commit(OffsetCommitView),
    Resume,
    Stop(Result<(), SourceError>),
}

impl View for SourceAction {
    type V = ActionView;

    open spec fn view(&self) -> ActionView {
        match *self {
            SourceAction::PollInterrupt => ActionView::PollInterrupt,
            SourceAction::Fetch { index, request } => ActionView::Fetch { index, request },
            SourceAction::Send(event) => ActionView::Send(event),
            SourceAction::GenerateToken => ActionView::GenerateToken,
            SourceAction::Commit(commit) => ActionView::Commit(commit@),
            SourceAction::Resume => ActionView::Resume,
            SourceAction::Stop(outcome) => ActionView::Stop(outcome),
        }
    }
}

/// A slot that was left behind, with the number of events sent since it
/// began.
#[derive(Clone, Copy, Debug, PartialEq, Eq, Structural)]
pub struct SlotReached {
    pub slot: Slot,
    pub events: u64,
}

/// What a step found worth telling, for the driver to log.
#[derive(Clone, Copy, Debug, PartialEq, Eq, Structural)]
pub struct SourceNotes {
    /// The event took this many milliseconds to arrive, more than 500.
    pub slow_fetch: Option<u64>,
    /// The event opened a new slot and a report was due: the slot reached
    /// before it, and the number of events sent since that slot began.
    pub slot_reached: Option<SlotReached>,
    /// The sink took this many milliseconds to take the event, more than 250.
    pub slow_consumer: Option<u64>,
}

/// What one call of the machine returns.
#[derive(Debug, PartialEq, Eq)]
pub struct SourceStep {
    pub action: SourceAction,
    pub notes: SourceNotes,
}

/// A step as contracts see it: the source after it, and what it returned.
pub struct StepView {
    pub state: SourceView,
    pub action: ActionView,
    pub notes: SourceNotes,
}

/// Nothing worth telling.
pub open spec fn no_notes() -> SourceNotes {
    SourceNotes { slow_fetch: None, slot_reached: None, slow_consumer: None }
}

impl SourceView {
    /// The source with another run state.
    pub open spec fn with_run(self, run: RunState) -> SourceView {
        SourceView { run, ..self }
    }

    /// The source in another phase.
    pub open spec fn in_phase(self, phase: Phase) -> SourceView {
        self.with_run(RunState { phase, ..self.run })
    }

    /// The source with the cursor at `i` replaced.
    pub open spec fn with_cursor(self, i: int, cursor: CursorView) -> SourceView {
        SourceView { cursors: self.cursors.update(i, cursor), ..self }
    }

    /// The source ends with `outcome`.
    pub open spec fn stopped(self, outcome: Result<(), SourceError>) -> StepView {
        StepView {
            state: self.in_phase(Phase::Done),
            action: ActionView::Stop(outcome),
            notes: no_notes(),
        }
    }

    /// The call was not asked for: nothing changes.
    pub open spec fn refused(self) -> StepView {
        StepView {
            state: self,
            action: ActionView::Stop(Err(SourceError::OutOfTurn)),
            notes: no_notes(),
        }
    }

    /// A sweep begins with a look at the interrupt channel, before the
    /// first cursor; a source without cursors looks all the same.
    pub open spec fn begin_sweep(self) -> StepView {
        StepView {
            state: self.with_run(RunState { phase: Phase::AwaitInterrupt, turn: 0, ..self.run }),
            action: ActionView::PollInterrupt,
            notes: no_notes(),
        }
    }

    /// A sweep has ended at time `now`: progress is written if the commit
    /// deadline has passed, else the next sweep begins.
    pub open spec fn sweep_end(self, now: u64) -> StepView {
        if now > self.run.commit_deadline {
            StepView {
                state: self.with_run(
                    RunState { phase: Phase::AwaitToken, stopping: false, ..self.run },
                ),
                action: ActionView::GenerateToken,
                notes: no_notes(),
            }
        } else {
            self.begin_sweep()
        }
    }

    /// The cursor whose turn it was is done with: the next has its turn,
    /// or the sweep ends.
    pub open spec fn end_of_turn(self, now: u64) -> StepView {
        if self.run.turn + 1 < self.cursors.len() {
            StepView {
                state: self.with_run(
                    RunState {
                        phase: Phase::AwaitInterrupt,
                        turn: (self.run.turn + 1) as usize,
                        ..self.run
                    },
                ),
                action: ActionView::PollInterrupt,
                notes: no_notes(),
            }
        } else {
            self.sweep_end(now)
        }
    }

    /// The cursor whose turn it is hands out its next row, at time `now`.
    /// The row is to be sent. A row that took more than 500 ms since the
    /// last send is noted. A row of a higher slot than any before resets
    /// the count of events, and is reported if a report is due, which puts
    /// the next report 5 s off.
    pub open spec fn yield_event(self, now: u64) -> StepView {
        let turn = self.run.turn as int;
        let event = self.cursors[turn].buffered[0];
        let waited = now.saturating_sub(self.run.last_progress);
        let new_slot = self.run.max_seen_slot < event.slot;
        let report = new_slot && now > self.run.next_trace_schedule;
        StepView {
            state: self.with_cursor(turn, self.cursors[turn].advanced()).with_run(
                RunState {
                    phase: Phase::AwaitSend,
                    max_seen_slot: if new_slot {
                        event.slot
                    } else {
                        self.run.max_seen_slot
                    },
                    num_event_between_two_slots: if new_slot {
                        0
                    } else {
                        self.run.num_event_between_two_slots
                    },
                    next_trace_schedule: if report {
                        now.saturating_add(PRINT_CONSUMER_SLOT_REACH_DELAY)
                    } else {
                        self.run.next_trace_schedule
                    },
                    ..self.run
                },
            ),
            action: ActionView::Send(event),
            notes: SourceNotes {
                slow_fetch: if waited > FETCH_MICRO_BATCH_LATENCY_WARN_THRESHOLD {
                    Some(waited)
                } else {
                    None
                },
                slot_reached: if report {
                    Some(
                        SlotReached {
                            slot: self.run.max_seen_slot,
                            events: self.run.num_event_between_two_slots,
                        },
                    )
                } else {
                    None
                },
                slow_consumer: None,
            },
        }
    }

    /// The source starts at time `now`: the first write of progress is due
    /// one interval later, the first report 5 s later, and the first sweep
    /// begins.
    pub open spec fn start(self, now: u64) -> StepView {
        if self.run.phase != Phase::Ready {
            self.refused()
        } else {
            self.with_run(
                RunState {
                    phase: Phase::Ready,
                    turn: 0,
                    stopping: false,
                    commit_deadline: now.saturating_add(self.offset_commit_interval),
                    max_seen_slot: UNDEFINED_SLOT,
                    num_event_between_two_slots: 0,
                    next_trace_schedule: now.saturating_add(PRINT_CONSUMER_SLOT_REACH_DELAY),
                    last_progress: now,
                },
            ).begin_sweep()
        }
    }

    /// The interrupt channel was looked at. A signal begins the last write
    /// of progress; a closed channel ends the source as an orphan;
    /// otherwise the cursor whose turn it is hands out a buffered row, or
    /// has the store read when it holds none. A source without cursors
    /// gives way to other tasks instead, and its empty sweep ends when it
    /// is called again.
    pub open spec fn on_interrupt(self, poll: InterruptPoll, now: u64) -> StepView {
        if self.run.phase != Phase::AwaitInterrupt {
            self.refused()
        } else {
            match poll {
                InterruptPoll::Signalled => StepView {
                    state: self.with_run(
                        RunState { phase: Phase::AwaitToken, stopping: true, ..self.run },
                    ),
                    action: ActionView::GenerateToken,
                    notes: no_notes(),
                },
                InterruptPoll::Closed => self.stopped(Err(SourceError::OrphanSource)),
                InterruptPoll::Empty => {
                    let turn = self.run.turn as int;
                    if self.cursors.len() == 0 {
                        StepView {
                            state: self.in_phase(Phase::AwaitResume),
                            action: ActionView::Resume,
                            notes: no_notes(),
                        }
                    } else if self.cursors[turn].buffered.len() > 0 {
                        self.yield_event(now)
                    } else {
                        StepView {
                            state: self.in_phase(Phase::AwaitRows),
                            action: ActionView::Fetch {
                                index: self.run.turn,
                                request: self.cursors[turn].next_read(),
                            },
                            notes: no_notes(),
                        }
                    }
                },
            }
        }
    }

    /// The read came back at time `now`, with rows or, for `None`, with a
    /// failure. A failure, or rows that the cursor does not admit, end the
    /// source. Else the rows are buffered and the first is handed out;
    /// with no row at all the cursor's turn is over.
    pub open spec fn on_rows(self, rows: Option<Seq<BlockchainEvent>>, now: u64) -> StepView {
        if self.run.phase != Phase::AwaitRows {
            self.refused()
        } else {
            let turn = self.run.turn as int;
            match rows {
                None => self.stopped(Err(SourceError::StoreError)),
                Some(rows) => if !self.cursors[turn].admits_all(rows) {
                    self.stopped(Err(SourceError::StoreError))
                } else {
                    let fed = self.with_cursor(turn, self.cursors[turn].supplied(rows));
                    if fed.cursors[turn].buffered.len() > 0 {
                        fed.yield_event(now)
                    } else {
                        fed.end_of_turn(now)
                    }
                },
            }
        }
    }

    /// The send came back at time `now`, after `latency` milliseconds. A
    /// sink that is closed ends the source. Else the event counts, a send
    /// of more than 250 ms is noted, and the cursor's turn is over.
    pub open spec fn on_sent(self, delivered: bool, latency: u64, now: u64) -> StepView {
        if self.run.phase != Phase::AwaitSend {
            self.refused()
        } else if !delivered {
            self.stopped(Err(SourceError::SinkClosed))
        } else {
            let next = self.with_run(
                RunState {
                    num_event_between_two_slots: self.run.num_event_between_two_slots.saturating_add(
                        1,
                    ),
                    last_progress: now,
                    ..self.run
                },
            ).end_of_turn(now);
            StepView {
                notes: SourceNotes {
                    slow_consumer: if latency > CLIENT_LAG_WARN_THRESHOLD {
                        Some(latency)
                    } else {
                        None
                    },
                    ..next.notes
                },
                ..next
            }
        }
    }

    /// The lock answered with a token or, for `None`, with a failure. A
    /// failure ends the source; a token is used for the conditional write
    /// of where the cursors stand.
    pub open spec fn on_token(self, token: Option<Revision>) -> StepView {
        if self.run.phase != Phase::AwaitToken {
            self.refused()
        } else {
            match token {
                None => self.stopped(Err(SourceError::CoordError)),
                Some(revision) => StepView {
                    state: self.in_phase(Phase::AwaitCommit),
                    action: ActionView::Commit(self.commit_of(revision)),
                    notes: no_notes(),
                },
            }
        }
    }

    /// The conditional write came back at time `now`: applied, not
    /// applied, or, for `None`, failed. A failure ends the source; a
    /// write that was not applied ends it as fenced, with no retry. After
    /// a write that was applied a source that was interrupted ends well;
    /// any other has its next write due one interval later and begins the
    /// next sweep.
    pub open spec fn on_commit(self, applied: Option<bool>, now: u64) -> StepView {
        if self.run.phase != Phase::AwaitCommit {
            self.refused()
        } else {
            match applied {
                None => self.stopped(Err(SourceError::StoreError)),
                Some(false) => self.stopped(Err(SourceError::Fenced)),
                Some(true) => if self.run.stopping {
                    self.stopped(Ok(()))
                } else {
                    self.with_run(
                        RunState {
                            commit_deadline: now.saturating_add(self.offset_commit_interval),
                            ..self.run
                        },
                    ).begin_sweep()
                },
            }
        }
    }

    /// A source without cursors is called again at time `now`, after it
    /// gave way: its empty sweep has ended.
    pub open spec fn on_resume(self, now: u64) -> StepView {
        if self.run.phase != Phase::AwaitResume {
            self.refused()
        } else {
            self.sweep_end(now)
        }
    }
}

/// What happened, as the driver tells the source. Times are readings of
/// one monotonic clock, in milliseconds.
#[derive(Debug)]
pub enum SourceEvent {
    /// The driver begins, at this time.
    Started(u64),
    /// What the interrupt channel held, and when.
    Interrupt(InterruptPoll, u64),
    /// The rows that the read brought, or `None` for a failure, and when.
    Rows(Option<Vec<BlockchainEvent>>, u64),
    /// Whether the sink took the event, how long the send took, and the
    /// time after it.
    Sent(bool, u64, u64),
    /// The fencing token, or `None` for a failure.
    Token(Option<Revision>),
    /// Whether the conditional write was applied, or `None` for a
    /// failure, and when.
    Commit(Option<bool>, u64),
    /// The driver calls again after giving way, at this time.
    Resumed(u64),
}

/// An event as contracts see it.
pub enum EventView {
    Started(u64),
    Interrupt(InterruptPoll, u64),
    Rows(Option<Seq<BlockchainEvent>>, u64),
    Sent(bool, u64, u64),
    Token(Option<Revision>),
    Commit(Option<bool>, u64),
    Resumed(u64),
}

impl View for SourceEvent {
    type V = EventView;

    open spec fn view(&self) -> EventView {
        match *self {
            SourceEvent::Started(now) => EventView::Started(now),
            SourceEvent::Interrupt(poll, now) => EventView::Interrupt(poll, now),
            SourceEvent::Rows(rows, now) => EventView::Rows(
                match rows {
                    Some(rows) => Some(rows@),
                    None => None,
                },
                now,
            ),
            SourceEvent::Sent(delivered, latency, now) => EventView::Sent(delivered, latency, now),
            SourceEvent::Token(token) => EventView::Token(token),
            SourceEvent::Commit(applied, now) => EventView::Commit(applied, now),
            SourceEvent::Resumed(now) => EventView::Resumed(now),
        }
    }
}

impl SourceView {
    /// One step of the source's loop.
    pub open spec fn run(self, event: EventView) -> StepView {
        match event {
            EventView::Started(now) => self.start(now),
            EventView::Interrupt(poll, now) => self.on_interrupt(poll, now),
            EventView::Rows(rows, now) => self.on_rows(rows, now),
            EventView::Sent(delivered, latency, now) => self.on_sent(delivered, latency, now),
            EventView::Token(token) => self.on_token(token),
            EventView::Commit(applied, now) => self.on_commit(applied, now),
            EventView::Resumed(now) => self.on_resume(now),
        }
    }
}

/// One conditional write to the older table of progress, which holds a
/// row per consumer, producer, shard and event type: set offset, slot and
/// revision if the stored revision is below `revision`.
#[derive(Debug, PartialEq, Eq)]
pub struct ShardOffsetRow {
    pub offset: ShardOffset,
    pub slot: Slot,
    /// The token under which the row is written, and above which the
    /// stored revision must not lie.
    pub revision: Revision,
    pub consumer_id: ConsumerId,
    pub producer_id: ProducerId,
    pub shard_id: ShardId,
    pub event_type: BlockchainEventType,
}

/// The row records, for the consumer and under the token, where the
/// cursor stands.
pub open spec fn records_cursor(
    row: ShardOffsetRow,
    consumer_id: Seq<char>,
    revision: Revision,
    cursor: CursorView,
) -> bool {
    &&& row.offset == cursor.last_offset
    &&& row.slot == cursor.last_slot
    &&& row.revision == revision
    &&& row.consumer_id@ == consumer_id
    &&& row.producer_id == cursor.producer_id
    &&& row.shard_id == cursor.shard_id
    &&& row.event_type == cursor.event_type
}

/// A source was told to stop and did so after its last write.
#[derive(Clone, Copy, Debug, PartialEq, Eq, Structural)]
pub struct Interrupted;

impl Interrupted {
    /// The word by which the interruption is reported.
    pub fn message(&self) -> (text: String)
        ensures
            text@ == "Interrupted"@,
    {
        "Interrupted".to_owned()
    }
}

/// What a consumer's sink takes, made from an event of the log.
pub trait FromBlockchainEvent: Send + Sized + 'static {
    fn from(blockchain_event: BlockchainEvent) -> Self;
}

/// A call left the source and returned what the step says.
pub open spec fn stepped(after: SourceView, returned: SourceStep, step: StepView) -> bool {
    &&& after == step.state
    &&& returned.action@ == step.action
    &&& returned.notes == step.notes
}

/// The cursors that a list of iterators stands for.
pub open spec fn cursors_of(iterators: Seq<ShardIterator>) -> Seq<CursorView> {
    Seq::new(iterators.len(), |i: int| iterators[i]@)
}

/// A cursor that has handed out nothing yet.
pub open spec fn fresh_cursor(
    producer_id: ProducerId,
    event_type: BlockchainEventType,
    shard_id: ShardId,
    offset: ShardOffset,
    slot: Slot,
) -> CursorView {
    CursorView {
        producer_id,
        shard_id,
        event_type,
        last_offset: offset,
        last_slot: slot,
        buffered: Seq::empty(),
    }
}

/// A state in which a source has not started.
pub open spec fn initial_run() -> RunState {
    RunState {
        phase: Phase::Ready,
        turn: 0,
        stopping: false,
        commit_deadline: 0,
        max_seen_slot: UNDEFINED_SLOT,
        num_event_between_two_slots: 0,
        next_trace_schedule: 0,
        last_progress: 0,
    }
}

pub struct ConsumerSource {
    ctx: ConsumerContext,
    offset_commit_interval: u64,
    filter: Option<ShardFilter>,
    shard_iterators: Vec<ShardIterator>,
    run: RunState,
}

impl View for ConsumerSource {
    type V = SourceView;

    closed spec fn view(&self) -> SourceView {
        SourceView {
            ctx: self.ctx@,
            offset_commit_interval: self.offset_commit_interval,
            filter: self.filter,
            cursors: cursors_of(self.shard_iterators@),
            run: self.run,
        }
    }
}

/// Adds to `iterators` one fresh cursor of `event_type` for each shard of
/// `map`, at the position that the map gives.
fn push_cursors(
    iterators: &mut Vec<ShardIterator>,
    producer_id: ProducerId,
    event_type: BlockchainEventType,
    map: &ShardOffsetMap,
)
    requires
        distinct_cursors(cursors_of(old(iterators)@)),
        forall|i: int|
            0 <= i < old(iterators)@.len() ==> (#[trigger] old(iterators)@[i])@.event_type
                != event_type,
    ensures
        distinct_cursors(cursors_of(final(iterators)@)),
        final(iterators)@.len() == old(iterators)@.len() + map@.dom().len(),
        forall|i: int|
            0 <= i < old(iterators)@.len() ==> (#[trigger] final(iterators)@[i])@ == old(
                iterators,
            )@[i]@,
        forall|i: int|
            old(iterators)@.len() <= i < final(iterators)@.len() ==> {
                &&& map@.contains_key((#[trigger] final(iterators)@[i])@.shard_id)
                &&& final(iterators)@[i]@ == fresh_cursor(
                    producer_id,
                    event_type,
                    final(iterators)@[i]@.shard_id,
                    map@[final(iterators)@[i]@.shard_id].0,
                    map@[final(iterators)@[i]@.shard_id].1,
                )
            },
        snapshot(cursors_of(final(iterators)@), event_type) == map@,
        forall|other: BlockchainEventType|
            other != event_type ==> #[trigger] snapshot(cursors_of(final(iterators)@), other)
                == snapshot(cursors_of(old(iterators)@), other),
{
    let listed = entries(map);
    let ghost base = iterators@.len() as int;
    let mut k: usize = 0;
    while k < listed.len()
        invariant
            0 <= k <= listed@.len(),
            base == old(iterators)@.len(),
            iterators@.len() == base + k,
            listed@.len() == map@.dom().len(),
            forall|i: int|
                0 <= i < listed@.len() ==> map@.contains_key(#[trigger] listed@[i].0)
                    && map@[listed@[i].0] == (listed@[i].1, listed@[i].2),
            forall|key: ShardId|
                map@.contains_key(key) ==> exists|i: int|
                    0 <= i < listed@.len() && #[trigger] listed@[i].0 == key,
            forall|i: int, j: int|
                0 <= i < j < listed@.len() ==> #[trigger] listed@[i].0 != #[trigger] listed@[j].0,
            forall|i: int| 0 <= i < base ==> (#[trigger] iterators@[i]) == old(iterators)@[i],
            forall|i: int|
                0 <= i < k ==> (#[trigger] iterators@[base + i])@ == fresh_cursor(
                    producer_id,
                    event_type,
                    listed@[i].0,
                    listed@[i].1,
                    listed@[i].2,
                ),
        decreases listed@.len() - k,
    {
        let entry = listed[k];
        iterators.push(ShardIterator::new(producer_id, entry.0, entry.1, entry.2, event_type));
        k += 1;
    }
    proof {
        let before = cursors_of(old(iterators)@);
        let after = cursors_of(iterators@);
        assert forall|i: int, j: int| 0 <= i < j < after.len() implies !((#[trigger] after[i]).event_type
            == (#[trigger] after[j]).event_type && after[i].shard_id == after[j].shard_id) by {
            if j < base {
                assert(after[i] == before[i] && after[j] == before[j]);
            } else if i < base {
                assert(after[i] == old(iterators)@[i]@);
                assert(after[j] == iterators@[base + (j - base)]@);
            } else {
                assert(after[i] == iterators@[base + (i - base)]@);
                assert(after[j] == iterators@[base + (j - base)]@);
                assert(listed@[i - base].0 != listed@[j - base].0);
            }
        }
        assert forall|i: int| base <= i < iterators@.len() implies {
            &&& map@.contains_key((#[trigger] iterators@[i])@.shard_id)
            &&& iterators@[i]@ == fresh_cursor(
                producer_id,
                event_type,
                iterators@[i]@.shard_id,
                map@[iterators@[i]@.shard_id].0,
                map@[iterators@[i]@.shard_id].1,
            )
        } by {
            assert(iterators@[i] == iterators@[base + (i - base)]);
            assert(map@.contains_key(listed@[i - base].0));
        }
        let snap = snapshot(after, event_type);
        assert forall|key: ShardId| #[trigger] snap.contains_key(key) == map@.contains_key(key) by {
            if map@.contains_key(key) {
                let j = choose|j: int| 0 <= j < listed@.len() && #[trigger] listed@[j].0 == key;
                assert(after[base + j] == iterators@[base + j]@);
                assert(is_cursor_of(after, base + j, event_type, key));
            }
            if has_cursor(after, event_type, key) {
                let i = choose|i: int| is_cursor_of(after, i, event_type, key);
                if i < base {
                    assert(after[i] == old(iterators)@[i]@);
                } else {
                    assert(after[i] == iterators@[i]@);
                }
            }
        }
        assert forall|key: ShardId| #[trigger] snap.contains_key(key) implies snap[key] == map@[key] by {
            let i = choose|i: int| is_cursor_of(after, i, event_type, key);
            assert(is_cursor_of(after, i, event_type, key));
            if i < base {
                assert(after[i] == old(iterators)@[i]@);
            } else {
                assert(after[i] == iterators@[i]@);
            }
        }
        assert(snap =~= map@);
        assert forall|other: BlockchainEventType| other != event_type implies #[trigger] snapshot(
            after,
            other,
        ) == snapshot(before, other) by {
            let new = snapshot(after, other);
            let was = snapshot(before, other);
            assert forall|key: ShardId| #[trigger] new.contains_key(key) == was.contains_key(key) by {
                if has_cursor(after, other, key) {
                    let i = choose|i: int| is_cursor_of(after, i, other, key);
                    if i < base {
                        assert(after[i] == before[i]);
                        assert(is_cursor_of(before, i, other, key));
                    } else {
                        assert(after[i] == iterators@[i]@);
                    }
                }
                if has_cursor(before, other, key) {
                    let i = choose|i: int| is_cursor_of(before, i, other, key);
                    assert(after[i] == before[i]);
                    assert(is_cursor_of(after, i, other, key));
                }
            }
            assert forall|key: ShardId| #[trigger] new.contains_key(key) implies new[key]
                == was[key] by {
                let i = choose|i: int| is_cursor_of(before, i, other, key);
                assert(is_cursor_of(before, i, other, key));
                assert(after[i] == before[i]);
                lemma_snapshot_at(after, i);
                lemma_snapshot_at(before, i);
            }
            assert(new =~= was);
        }
    }
}

/// Without cursors every snapshot is empty.
pub proof fn lemma_snapshot_empty(event_type: BlockchainEventType)
    ensures
        snapshot(Seq::<CursorView>::empty(), event_type) == Map::<
            ShardId,
            (ShardOffset, Slot),
        >::empty(),
{
    assert(snapshot(Seq::<CursorView>::empty(), event_type) =~= Map::<
        ShardId,
        (ShardOffset, Slot),
    >::empty());
}

impl ConsumerSource {
    /// Makes the source of a consumer: one fresh cursor for each shard of
    /// each map, at the position that the map gives, and nothing started.
    /// A context that subscribes to no event type is refused. Without an
    /// interval, progress is written every 500 ms.
    pub fn new(
        ctx: ConsumerContext,
        shard_offset_map_per_blockchain_event_type: OffsetsByEventType,
        offset_commit_interval: Option<u64>,
        filter: Option<ShardFilter>,
    ) -> (made: Result<Self, SourceError>)
        ensures
            made is Err <==> ctx@.subscribed_event_types.len() == 0,
            made matches Err(error) ==> error == SourceError::NoEventSubscribed,
            made matches Ok(source) ==> {
                &&& source@.wf()
                &&& source@.ctx == ctx@
                &&& source@.filter == filter
                &&& source@.offset_commit_interval == match offset_commit_interval {
                    Some(interval) => interval,
                    None => DEFAULT_OFFSET_COMMIT_INTERVAL,
                }
                &&& source@.run == initial_run()
                &&& snapshot(source@.cursors, BlockchainEventType::AccountUpdate) == positions_of(
                    shard_offset_map_per_blockchain_event_type.account_update,
                )
                &&& snapshot(source@.cursors, BlockchainEventType::NewTransaction) == positions_of(
                    shard_offset_map_per_blockchain_event_type.new_transaction,
                )
                &&& source@.cursors.len() == positions_of(
                    shard_offset_map_per_blockchain_event_type.account_update,
                ).dom().len() + positions_of(
                    shard_offset_map_per_blockchain_event_type.new_transaction,
                ).dom().len()
                &&& forall|i: int|
                    0 <= i < source@.cursors.len() ==> (#[trigger] source@.cursors[i]).buffered.len()
                        == 0
            },
    {
        if ctx.subscribed_event_types.len() == 0 {
            return Err(SourceError::NoEventSubscribed);
        }
        let mut shard_iterators: Vec<ShardIterator> = Vec::new();
        proof {
            lemma_snapshot_empty(BlockchainEventType::AccountUpdate);
            lemma_snapshot_empty(BlockchainEventType::NewTransaction);
            assert(cursors_of(shard_iterators@) =~= Seq::<CursorView>::empty());
        }
        match &shard_offset_map_per_blockchain_event_type.account_update {
            Some(map) => {
                push_cursors(
                    &mut shard_iterators,
                    ctx.producer_id,
                    BlockchainEventType::AccountUpdate,
                    map,
                );
            },
            None => {},
        }
        let ghost accounts = shard_iterators@;
        match &shard_offset_map_per_blockchain_event_type.new_transaction {
            Some(map) => {
                assert forall|i: int| 0 <= i < shard_iterators@.len() implies (
                #[trigger] shard_iterators@[i])@.event_type
                    != BlockchainEventType::NewTransaction by {}
                push_cursors(
                    &mut shard_iterators,
                    ctx.producer_id,
                    BlockchainEventType::NewTransaction,
                    map,
                );
            },
            None => {},
        }
        let interval = match offset_commit_interval {
            Some(interval) => interval,
            None => DEFAULT_OFFSET_COMMIT_INTERVAL,
        };
        let count = shard_iterators.len();
        let source = ConsumerSource {
            ctx,
            offset_commit_interval: interval,
            filter,
            shard_iterators,
            run: RunState {
                phase: Phase::Ready,
                turn: 0,
                stopping: false,
                commit_deadline: 0,
                max_seen_slot: UNDEFINED_SLOT,
                num_event_between_two_slots: 0,
                next_trace_schedule: 0,
                last_progress: 0,
            },
        };
        proof {
            assert(source@.cursors.len() == count);
            assert(Map::<ShardId, (ShardOffset, Slot)>::empty().dom().len() == 0);
            assert forall|i: int| 0 <= i < source@.cursors.len() implies (
            #[trigger] source@.cursors[i]).wf() && source@.cursors[i].producer_id
                == source@.ctx.producer_id && source@.cursors[i].buffered.len() == 0 by {
                assert(source@.cursors[i] == source.shard_iterators@[i]@);
                if i < accounts.len() {
                    assert(source.shard_iterators@[i]@ == accounts[i]@);
                }
            }
        }
        Ok(source)
    }

    /// Whether the context subscribes to an event type.
    fn is_subscribed(&self, event_type: BlockchainEventType) -> (subscribed: bool)
        ensures
            subscribed == self@.ctx.subscribed_event_types.contains(event_type),
    {
        let mut i: usize = 0;
        while i < self.ctx.subscribed_event_types.len()
            invariant
                0 <= i <= self.ctx.subscribed_event_types@.len(),
                forall|j: int| 0 <= j < i ==> self.ctx.subscribed_event_types@[j] != event_type,
            decreases self.ctx.subscribed_event_types@.len() - i,
        {
            if self.ctx.subscribed_event_types[i] == event_type {
                return true;
            }
            i += 1;
        }
        false
    }

    /// Where the cursors of one event type stand.
    pub fn get_shard_offset_map(&self, ev_type: BlockchainEventType) -> (map: ShardOffsetMap)
        requires
            self@.wf(),
        ensures
            map@ == snapshot(self@.cursors, ev_type),
    {
        let mut map = ShardOffsetMap::new();
        let ghost cursors = self@.cursors;
        proof {
            lemma_snapshot_empty(ev_type);
            assert(cursors.take(0) =~= Seq::<CursorView>::empty());
        }
        let mut i: usize = 0;
        while i < self.shard_iterators.len()
            invariant
                0 <= i <= self.shard_iterators@.len(),
                cursors == self@.cursors,
                cursors.len() == self.shard_iterators@.len(),
                distinct_cursors(cursors),
                map@ == snapshot(cursors.take(i as int), ev_type),
            decreases self.shard_iterators@.len() - i,
        {
            let it = &self.shard_iterators[i];
            proof {
                assert(cursors[i as int] == it@);
                assert(cursors.take(i as int).push(cursors[i as int]) =~= cursors.take(i + 1));
                assert(distinct_cursors(cursors.take(i + 1)));
                lemma_snapshot_push(cursors.take(i as int), cursors[i as int], ev_type);
            }
            if it.event_type() == ev_type {
                record(&mut map, it.shard_id(), it.last_offset(), it.last_slot());
            }
            i += 1;
        }
        proof {
            assert(cursors.take(cursors.len() as int) =~= cursors);
        }
        map
    }

    /// The conditional write that records where the cursors stand, under
    /// the token `revision`. With one event type subscribed both maps are
    /// the snapshot of that type.
    pub fn update_consumer_shard_offsets_v2(&self, revision: Revision) -> (commit: OffsetCommit)
        requires
            self@.wf(),
        ensures
            commit@ == self@.commit_of(revision),
    {
        let accounts = self.is_subscribed(BlockchainEventType::AccountUpdate);
        let transactions = self.is_subscribed(BlockchainEventType::NewTransaction);
        let (acc_shard_offset_map, tx_shard_offset_map) = if accounts && !transactions {
            let map = self.get_shard_offset_map(BlockchainEventType::AccountUpdate);
            (map.clone(), map)
        } else if transactions && !accounts {
            let map = self.get_shard_offset_map(BlockchainEventType::NewTransaction);
            (map.clone(), map)
        } else {
            (
                self.get_shard_offset_map(BlockchainEventType::AccountUpdate),
                self.get_shard_offset_map(BlockchainEventType::NewTransaction),
            )
        };
        let execution_id = self.ctx.execution_id.clone();
        assert(execution_id@ =~= self.ctx.execution_id@);
        OffsetCommit {
            consumer_group_id: self.ctx.consumer_group_id,
            consumer_id: self.ctx.consumer_id.clone(),
            execution_id,
            acc_shard_offset_map,
            tx_shard_offset_map,
            revision,
        }
    }

    pub fn context(&self) -> (ctx: &ConsumerContext)
        ensures
            ctx@ == self@.ctx,
    {
        &self.ctx
    }

    /// The filter that the store is to apply to every read.
    pub fn filter(&self) -> (filter: &Option<ShardFilter>)
        ensures
            *filter == self@.filter,
    {
        &self.filter
    }

    pub fn phase(&self) -> (phase: Phase)
        ensures
            phase == self@.run.phase,
    {
        self.run.phase
    }

    pub fn run_state(&self) -> (run: RunState)
        ensures
            run == self@.run,
    {
        self.run
    }

    /// Number of cursors.
    pub fn shard_iterator_count(&self) -> (count: usize)
        ensures
            count == self@.cursors.len(),
    {
        self.shard_iterators.len()
    }

    /// The read that warms the cursor at `index`; `None` where there is no
    /// such cursor.
    pub fn warm_request(&self, index: usize) -> (request: Option<FetchRequest>)
        ensures
            request == if index < self@.cursors.len() {
                Some(self@.cursors[index as int].next_read())
            } else {
                None
            },
    {
        if index < self.shard_iterators.len() {
            Some(self.shard_iterators[index].warm())
        } else {
            None
        }
    }

    /// The source takes in the rows that warmed the cursor at `index`,
    /// before it starts. Rows for a cursor that does not exist, or that
    /// the cursor does not admit, are refused with a store error and
    /// change nothing.
    pub fn supply_warm(&mut self, index: usize, rows: Vec<BlockchainEvent>) -> (outcome: Result<
        (),
        SourceError,
    >)
        requires
            old(self)@.wf(),
        ensures
            final(self)@.wf(),
            outcome is Ok <==> index < old(self)@.cursors.len() && old(self)@.cursors[index as int].admits_all(
                rows@,
            ),
            outcome matches Err(error) ==> error == SourceError::StoreError && final(self)@ == old(
                self,
            )@,
            outcome is Ok ==> final(self)@ == old(self)@.with_cursor(
                index as int,
                old(self)@.cursors[index as int].supplied(rows@),
            ),
    {
        if index >= self.shard_iterators.len() {
            return Err(SourceError::StoreError);
        }
        let ghost before = self@;
        assert(before.cursors[index as int] == self.shard_iterators@[index as int]@);
        let fed = self.shard_iterators[index].supply(rows);
        proof {
            if fed is Ok {
                assert(self@.cursors =~= before.cursors.update(
                    index as int,
                    before.cursors[index as int].supplied(rows@),
                ));
            } else {
                assert(self@.cursors =~= before.cursors);
            }
            assert(self@.ctx =~= before.ctx);
        }
        match fed {
            Ok(()) => Ok(()),
            Err(_) => Err(SourceError::StoreError),
        }
    }

    fn plain(action: SourceAction) -> (step: SourceStep)
        ensures
            step.action == action,
            step.notes == no_notes(),
    {
        SourceStep {
            action,
            notes: SourceNotes { slow_fetch: None, slot_reached: None, slow_consumer: None },
        }
    }

    fn stop(&mut self, outcome: Result<(), SourceError>) -> (step: SourceStep)
        requires
            old(self)@.sound(),
        ensures
            final(self)@.wf(),
            stepped(final(self)@, step, old(self)@.stopped(outcome)),
    {
        self.run.phase = Phase::Done;
        Self::plain(SourceAction::Stop(outcome))
    }

    fn refuse(&self) -> (step: SourceStep)
        ensures
            stepped(self@, step, self@.refused()),
    {
        Self::plain(SourceAction::Stop(Err(SourceError::OutOfTurn)))
    }

    fn begin_sweep(&mut self) -> (step: SourceStep)
        requires
            old(self)@.sound(),
        ensures
            final(self)@.wf(),
            stepped(final(self)@, step, old(self)@.begin_sweep()),
    {
        self.run.turn = 0;
        self.run.phase = Phase::AwaitInterrupt;
        Self::plain(SourceAction::PollInterrupt)
    }

    fn sweep_end(&mut self, now: u64) -> (step: SourceStep)
        requires
            old(self)@.sound(),
        ensures
            final(self)@.wf(),
            stepped(final(self)@, step, old(self)@.sweep_end(now)),
    {
        if now > self.run.commit_deadline {
            self.run.phase = Phase::AwaitToken;
            self.run.stopping = false;
            Self::plain(SourceAction::GenerateToken)
        } else {
            self.begin_sweep()
        }
    }

    fn end_of_turn(&mut self, now: u64) -> (step: SourceStep)
        requires
            old(self)@.sound(),
            old(self)@.run.turn < old(self)@.cursors.len(),
        ensures
            final(self)@.wf(),
            stepped(final(self)@, step, old(self)@.end_of_turn(now)),
    {
        let count = self.shard_iterators.len();
        assert(self@.cursors.len() == count);
        if self.run.turn + 1 < count {
            self.run.turn = self.run.turn + 1;
            self.run.phase = Phase::AwaitInterrupt;
            Self::plain(SourceAction::PollInterrupt)
        } else {
            self.sweep_end(now)
        }
    }

    fn yield_event(&mut self, now: u64) -> (step: SourceStep)
        requires
            old(self)@.sound(),
            old(self)@.run.turn < old(self)@.cursors.len(),
            old(self)@.cursors[old(self)@.run.turn as int].buffered.len() > 0,
        ensures
            final(self)@.wf(),
            stepped(final(self)@, step, old(self)@.yield_event(now)),
    {
        let ghost before = self@;
        let turn = self.run.turn;
        assert(before.cursors[turn as int] == self.shard_iterators@[turn as int]@);
        let next = self.shard_iterators[turn].try_next();
        proof {
            assert(self@.cursors =~= before.cursors.update(
                turn as int,
                before.cursors[turn as int].advanced(),
            ));
            assert(self@.ctx =~= before.ctx);
        }
        match next {
            Some(event) => {
                let waited = now.saturating_sub(self.run.last_progress);
                let new_slot = self.run.max_seen_slot < event.slot;
                let report = new_slot && now > self.run.next_trace_schedule;
                let notes = SourceNotes {
                    slow_fetch: if waited > FETCH_MICRO_BATCH_LATENCY_WARN_THRESHOLD {
                        Some(waited)
                    } else {
                        None
                    },
                    slot_reached: if report {
                        Some(
                            SlotReached {
                                slot: self.run.max_seen_slot,
                                events: self.run.num_event_between_two_slots,
                            },
                        )
                    } else {
                        None
                    },
                    slow_consumer: None,
                };
                if report {
                    self.run.next_trace_schedule = now.saturating_add(
                        PRINT_CONSUMER_SLOT_REACH_DELAY,
                    );
                }
                if new_slot {
                    self.run.max_seen_slot = event.slot;
                    self.run.num_event_between_two_slots = 0;
                }
                self.run.phase = Phase::AwaitSend;
                SourceStep { action: SourceAction::Send(event), notes }
            },
            None => {
                assert(false);
                self.stop(Err(SourceError::StoreError))
            },
        }
    }

    /// Starts the source at time `now`.
    pub fn start(&mut self, now: u64) -> (step: SourceStep)
        requires
            old(self)@.wf(),
        ensures
            final(self)@.wf(),
            stepped(final(self)@, step, old(self)@.start(now)),
    {
        if self.run.phase != Phase::Ready {
            return self.refuse();
        }
        self.run = RunState {
            phase: Phase::Ready,
            turn: 0,
            stopping: false,
            commit_deadline: now.saturating_add(self.offset_commit_interval),
            max_seen_slot: UNDEFINED_SLOT,
            num_event_between_two_slots: 0,
            next_trace_schedule: now.saturating_add(PRINT_CONSUMER_SLOT_REACH_DELAY),
            last_progress: now,
        };
        self.begin_sweep()
    }

    /// Takes what the interrupt channel held at time `now`.
    pub fn on_interrupt(&mut self, poll: InterruptPoll, now: u64) -> (step: SourceStep)
        requires
            old(self)@.wf(),
        ensures
            final(self)@.wf(),
            stepped(final(self)@, step, old(self)@.on_interrupt(poll, now)),
    {
        if self.run.phase != Phase::AwaitInterrupt {
            return self.refuse();
        }
        match poll {
            InterruptPoll::Signalled => {
                self.run.phase = Phase::AwaitToken;
                self.run.stopping = true;
                Self::plain(SourceAction::GenerateToken)
            },
            InterruptPoll::Closed => self.stop(Err(SourceError::OrphanSource)),
            InterruptPoll::Empty => {
                let turn = self.run.turn;
                if self.shard_iterators.len() == 0 {
                    self.run.phase = Phase::AwaitResume;
                    return Self::plain(SourceAction::Resume);
                }
                assert(self@.cursors[turn as int] == self.shard_iterators@[turn as int]@);
                if self.shard_iterators[turn].buffered_len() > 0 {
                    self.yield_event(now)
                } else {
                    let request = self.shard_iterators[turn].warm();
                    self.run.phase = Phase::AwaitRows;
                    Self::plain(SourceAction::Fetch { index: turn, request })
                }
            },
        }
    }

    /// Takes the rows that the read brought at time `now`; `None` when
    /// the read failed.
    pub fn on_rows(&mut self, rows: Option<Vec<BlockchainEvent>>, now: u64) -> (step: SourceStep)
        requires
            old(self)@.wf(),
        ensures
            final(self)@.wf(),
            stepped(
                final(self)@,
                step,
                old(self)@.on_rows(
                    match rows {
                        Some(rows) => Some(rows@),
                        None => None,
                    },
                    now,
                ),
            ),
    {
        if self.run.phase != Phase::AwaitRows {
            return self.refuse();
        }
        let rows = match rows {
            Some(rows) => rows,
            None => {
                return self.stop(Err(SourceError::StoreError));
            },
        };
        let ghost before = self@;
        let turn = self.run.turn;
        assert(before.cursors[turn as int] == self.shard_iterators@[turn as int]@);
        let fed = self.shard_iterators[turn].supply(rows);
        proof {
            assert(self@.ctx =~= before.ctx);
            if fed is Ok {
                assert(self@.cursors =~= before.cursors.update(
                    turn as int,
                    before.cursors[turn as int].supplied(rows@),
                ));
            } else {
                assert(self@.cursors =~= before.cursors);
            }
        }
        match fed {
            Err(_) => self.stop(Err(SourceError::StoreError)),
            Ok(()) => {
                assert(self@.cursors[turn as int] == self.shard_iterators@[turn as int]@);
                if self.shard_iterators[turn].buffered_len() > 0 {
                    self.yield_event(now)
                } else {
                    self.end_of_turn(now)
                }
            },
        }
    }

    /// Takes the outcome of the send: whether the sink took the event,
    /// how many milliseconds that took, and the time after it.
    pub fn on_sent(&mut self, delivered: bool, latency: u64, now: u64) -> (step: SourceStep)
        requires
            old(self)@.wf(),
        ensures
            final(self)@.wf(),
            stepped(final(self)@, step, old(self)@.on_sent(delivered, latency, now)),
    {
        if self.run.phase != Phase::AwaitSend {
            return self.refuse();
        }
        if !delivered {
            return self.stop(Err(SourceError::SinkClosed));
        }
        self.run.num_event_between_two_slots = self.run.num_event_between_two_slots.saturating_add(
            1,
        );
        self.run.last_progress = now;
        let next = self.end_of_turn(now);
        SourceStep {
            action: next.action,
            notes: SourceNotes {
                slow_fetch: next.notes.slow_fetch,
                slot_reached: next.notes.slot_reached,
                slow_consumer: if latency > CLIENT_LAG_WARN_THRESHOLD {
                    Some(latency)
                } else {
                    None
                },
            },
        }
    }

    /// Takes the fencing token that the lock gave; `None` when it gave
    /// none.
    pub fn on_token(&mut self, token: Option<Revision>) -> (step: SourceStep)
        requires
            old(self)@.wf(),
        ensures
            final(self)@.wf(),
            stepped(final(self)@, step, old(self)@.on_token(token)),
    {
        if self.run.phase != Phase::AwaitToken {
            return self.refuse();
        }
        match token {
            None => self.stop(Err(SourceError::CoordError)),
            Some(revision) => {
                let commit = self.update_consumer_shard_offsets_v2(revision);
                self.run.phase = Phase::AwaitCommit;
                Self::plain(SourceAction::Commit(commit))
            },
        }
    }

    /// Takes the outcome of the conditional write at time `now`: whether
    /// it was applied; `None` when the write failed.
    pub fn on_commit(&mut self, applied: Option<bool>, now: u64) -> (step: SourceStep)
        requires
            old(self)@.wf(),
        ensures
            final(self)@.wf(),
            stepped(final(self)@, step, old(self)@.on_commit(applied, now)),
    {
        if self.run.phase != Phase::AwaitCommit {
            return self.refuse();
        }
        match applied {
            None => self.stop(Err(SourceError::StoreError)),
            Some(false) => self.stop(Err(SourceError::Fenced)),
            Some(true) => {
                if self.run.stopping {
                    self.stop(Ok(()))
                } else {
                    self.run.commit_deadline = now.saturating_add(self.offset_commit_interval);
                    self.begin_sweep()
                }
            },
        }
    }

    /// Calls a source without cursors again, at time `now`.
    pub fn on_resume(&mut self, now: u64) -> (step: SourceStep)
        requires
            old(self)@.wf(),
        ensures
            final(self)@.wf(),
            stepped(final(self)@, step, old(self)@.on_resume(now)),
    {
        if self.run.phase != Phase::AwaitResume {
            return self.refuse();
        }
        self.sweep_end(now)
    }

    /// Takes one event of the source's loop and returns what to do next.
    pub fn run(&mut self, event: SourceEvent) -> (step: SourceStep)
        requires
            old(self)@.wf(),
        ensures
            final(self)@.wf(),
            stepped(final(self)@, step, old(self)@.run(event@)),
    {
        match event {
            SourceEvent::Started(now) => self.start(now),
            SourceEvent::Interrupt(poll, now) => self.on_interrupt(poll, now),
            SourceEvent::Rows(rows, now) => self.on_rows(rows, now),
            SourceEvent::Sent(delivered, latency, now) => self.on_sent(delivered, latency, now),
            SourceEvent::Token(token) => self.on_token(token),
            SourceEvent::Commit(applied, now) => self.on_commit(applied, now),
            SourceEvent::Resumed(now) => self.on_resume(now),
        }
    }

    /// The conditional writes to the older table of progress: one for
    /// each cursor, in the order of the sweep, all under the token
    /// `revision`.
    pub fn update_consumer_shard_offsets(&self, revision: Revision) -> (values: Vec<
        ShardOffsetRow,
    >)
        ensures
            values@.len() == self@.cursors.len(),
            forall|i: int|
                0 <= i < values@.len() ==> records_cursor(
                    #[trigger] values@[i],
                    self@.ctx.consumer_id,
                    revision,
                    self@.cursors[i],
                ),
    {
        let mut values: Vec<ShardOffsetRow> = Vec::new();
        let mut i: usize = 0;
        while i < self.shard_iterators.len()
            invariant
                0 <= i <= self.shard_iterators@.len(),
                values@.len() == i,
                forall|j: int|
                    0 <= j < i ==> records_cursor(
                        #[trigger] values@[j],
                        self.ctx.consumer_id@,
                        revision,
                        self.shard_iterators@[j]@,
                    ),
            decreases self.shard_iterators@.len() - i,
        {
            let shard_it = &self.shard_iterators[i];
            values.push(
                ShardOffsetRow {
                    offset: shard_it.last_offset(),
                    slot: shard_it.last_slot(),
                    revision,
                    consumer_id: self.ctx.consumer_id.clone(),
                    producer_id: shard_it.producer_id(),
                    shard_id: shard_it.shard_id(),
                    event_type: shard_it.event_type(),
                },
            );
            i += 1;
        }
        values
    }
}

} // verus!
