//! What holds of every run of a consumer's source.
//!
//! The laws here speak of the steps of the source as contracts see them:
//! that an interrupt leads to one last write and a clean end, that a
//! fenced source stops, and that the rows of each partition are sent in
//! the order of the log, none skipped, each within finitely many sweeps.

use crate::consumer_source::{
    lemma_snapshot_at, snapshot, ActionView, InterruptPoll, Phase, SourceError, SourceView,
    StepView,
};
use crate::shard_iterator::{
    begins, is_partition_log, law_every_row_is_handed_out, law_next_row_is_next_in_log,
    law_read_keeps_track, rows_after, stands_in, tracks, truthful_read,
};
use crate::types::{BlockchainEvent, Revision};
use vstd::prelude::*;

verus! {

/// Every sweep begins with a look at the interrupt channel, whether the
/// source has cursors or not: a source that starts, or that has written
/// its progress, or that ends a sweep before a write is due, asks for the
/// poll next; and the signal, once seen, leads to the last write.
pub proof fn law_every_sweep_looks_for_the_interrupt(source: SourceView, now: u64)
    ensures
        source.run.phase == Phase::Ready ==> source.start(now).action
            == ActionView::PollInterrupt,
        source.begin_sweep().action == ActionView::PollInterrupt,
        source.sweep_end(now).action == ActionView::PollInterrupt || source.sweep_end(
            now,
        ).action == ActionView::GenerateToken,
        source.run.phase == Phase::AwaitCommit && !source.run.stopping ==> source.on_commit(
            Some(true),
            now,
        ).action == ActionView::PollInterrupt,
        source.run.phase == Phase::AwaitInterrupt && source.cursors.len() == 0 ==> {
            &&& source.on_interrupt(InterruptPoll::Empty, now).action == ActionView::Resume
            &&& source.on_interrupt(InterruptPoll::Signalled, now).action
                == ActionView::GenerateToken
        },
{
}

/// The source is in its last write of progress, or has stopped.
pub open spec fn closing(source: SourceView) -> bool {
    ||| source.run.phase == Phase::Done
    ||| source.run.stopping && (source.run.phase == Phase::AwaitToken || source.run.phase
        == Phase::AwaitCommit)
}

/// The step moved no cursor and asked for no event, read or poll.
pub open spec fn quiet(before: SourceView, step: StepView) -> bool {
    &&& step.state.cursors == before.cursors
    &&& !(step.action is Send)
    &&& !(step.action is Fetch)
    &&& !(step.action is PollInterrupt)
    &&& !(step.action is Resume)
}

/// An interrupt that is seen before a cursor's turn leads to one write of
/// where the cursors stood at that moment and, once that write is
/// applied, to a clean end. No cursor moves on the way.
pub proof fn law_interrupt_commits_once_and_stops(
    source: SourceView,
    now: u64,
    revision: Revision,
    later: u64,
)
    requires
        source.run.phase == Phase::AwaitInterrupt,
    ensures
        ({
            let seen = source.on_interrupt(InterruptPoll::Signalled, now);
            let asked = seen.state.on_token(Some(revision));
            let written = asked.state.on_commit(Some(true), later);
            &&& seen.action == ActionView::GenerateToken
            &&& quiet(source, seen)
            &&& closing(seen.state)
            &&& asked.action == ActionView::Commit(source.commit_of(revision))
            &&& asked.state.cursors == source.cursors
            &&& closing(asked.state)
            &&& written.action == ActionView::Stop(Ok(()))
            &&& written.state.cursors == source.cursors
            &&& written.state.run.phase == Phase::Done
        }),
{
}

/// While a source is in its last write, or has stopped, no call moves a
/// cursor or asks for an event, a read or a poll, and the source stays
/// so. The write itself is asked for once: only by the call that brings
/// the token, after which the source waits for the write's outcome.
pub proof fn law_nothing_is_sent_after_an_interrupt(
    source: SourceView,
    poll: InterruptPoll,
    rows: Option<Seq<BlockchainEvent>>,
    delivered: bool,
    latency: u64,
    token: Option<Revision>,
    applied: Option<bool>,
    now: u64,
)
    requires
        closing(source),
    ensures
        quiet(source, source.start(now)) && closing(source.start(now).state),
        quiet(source, source.on_interrupt(poll, now)) && closing(
            source.on_interrupt(poll, now).state,
        ),
        quiet(source, source.on_rows(rows, now)) && closing(source.on_rows(rows, now).state),
        quiet(source, source.on_sent(delivered, latency, now)) && closing(
            source.on_sent(delivered, latency, now).state,
        ),
        quiet(source, source.on_token(token)) && closing(source.on_token(token).state),
        quiet(source, source.on_commit(applied, now)) && closing(
            source.on_commit(applied, now).state,
        ),
        quiet(source, source.on_resume(now)) && closing(source.on_resume(now).state),
        !(source.start(now).action is Commit),
        !(source.on_interrupt(poll, now).action is Commit),
        !(source.on_rows(rows, now).action is Commit),
        !(source.on_sent(delivered, latency, now).action is Commit),
        !(source.on_commit(applied, now).action is Commit),
        !(source.on_resume(now).action is Commit),
        source.on_token(token).action is Commit ==> source.run.phase == Phase::AwaitToken
            && source.on_token(token).state.run.phase == Phase::AwaitCommit,
{
}

/// A source that has stopped refuses every call and changes no more.
pub proof fn law_stopped_source_stays_stopped(
    source: SourceView,
    poll: InterruptPoll,
    rows: Option<Seq<BlockchainEvent>>,
    delivered: bool,
    latency: u64,
    token: Option<Revision>,
    applied: Option<bool>,
    now: u64,
)
    requires
        source.run.phase == Phase::Done,
    ensures
        source.start(now) == source.refused(),
        source.on_interrupt(poll, now) == source.refused(),
        source.on_rows(rows, now) == source.refused(),
        source.on_sent(delivered, latency, now) == source.refused(),
        source.on_token(token) == source.refused(),
        source.on_commit(applied, now) == source.refused(),
        source.on_resume(now) == source.refused(),
        source.refused().state == source,
{
}

/// A write that the store did not apply ends the source as fenced; the
/// source asks for no other token and no other write.
pub proof fn law_fenced_source_stops(source: SourceView, now: u64)
    requires
        source.run.phase == Phase::AwaitCommit,
    ensures
        source.on_commit(Some(false), now).action == ActionView::Stop(
            Err(SourceError::Fenced),
        ),
        source.on_commit(Some(false), now).state.run.phase == Phase::Done,
        source.on_commit(Some(false), now).state.cursors == source.cursors,
{
}

/// The event that a step sends lies strictly after the position of the
/// cursor that yields it and not before its slot, and from then on the
/// snapshot of the event's type holds the event's position for its shard.
/// No other cursor moves.
pub proof fn law_sent_event_is_recorded(source: SourceView, now: u64)
    requires
        source.sound(),
        source.run.turn < source.cursors.len(),
        source.cursors[source.run.turn as int].buffered.len() > 0,
    ensures
        ({
            let turn = source.run.turn as int;
            let event = source.cursors[turn].buffered[0];
            let step = source.yield_event(now);
            &&& step.action == ActionView::Send(event)
            &&& event.offset > source.cursors[turn].last_offset
            &&& event.slot >= source.cursors[turn].last_slot
            &&& step.state.sound()
            &&& snapshot(step.state.cursors, event.event_type).contains_key(event.shard_id)
            &&& snapshot(step.state.cursors, event.event_type)[event.shard_id] == (
                event.offset,
                event.slot,
            )
            &&& forall|i: int|
                0 <= i < source.cursors.len() && i != turn ==> step.state.cursors[i]
                    == source.cursors[i]
        }),
{
    let turn = source.run.turn as int;
    let step = source.yield_event(now);
    source.cursors[turn].lemma_advanced();
    assert(source.cursors[turn].wf());
    assert forall|i: int, j: int| 0 <= i < j < step.state.cursors.len() implies !((
    #[trigger] step.state.cursors[i]).event_type == (#[trigger] step.state.cursors[j]).event_type
        && step.state.cursors[i].shard_id == step.state.cursors[j].shard_id) by {
        assert(step.state.cursors[i].event_type == source.cursors[i].event_type);
        assert(step.state.cursors[j].event_type == source.cursors[j].event_type);
        assert(step.state.cursors[i].shard_id == source.cursors[i].shard_id);
        assert(step.state.cursors[j].shard_id == source.cursors[j].shard_id);
    }
    assert forall|i: int| 0 <= i < step.state.cursors.len() implies (
    #[trigger] step.state.cursors[i]).wf() && step.state.cursors[i].producer_id
        == step.state.ctx.producer_id by {
        if i != turn {
            assert(step.state.cursors[i] == source.cursors[i]);
        }
    }
    lemma_snapshot_at(step.state.cursors, turn);
}

/// A source whose cursor tracks the log of its partition sends the rows
/// of that log in order and skips none. Whatever a read brings from the
/// beginning of the rows after those the cursor holds is taken in; if the
/// cursor then holds a row, the event sent is the first row of the log
/// after the cursor's position, and the cursor goes on tracking the log.
pub proof fn law_source_sends_the_log_in_order(
    source: SourceView,
    log: Seq<BlockchainEvent>,
    rows: Seq<BlockchainEvent>,
    now: u64,
)
    requires
        source.wf(),
        source.run.phase == Phase::AwaitRows,
        is_partition_log(
            log,
            source.cursors[source.run.turn as int].shard_id,
            source.cursors[source.run.turn as int].event_type,
        ),
        tracks(source.cursors[source.run.turn as int], log),
        begins(rows_after(log, source.cursors[source.run.turn as int].read_upto()), rows),
        stands_in(source.cursors[source.run.turn as int], log),
    ensures
        ({
            let turn = source.run.turn as int;
            let cursor = source.cursors[turn];
            let step = source.on_rows(Some(rows), now);
            &&& !(step.action is Stop)
            &&& tracks(step.state.cursors[turn], log)
            &&& cursor.buffered.len() + rows.len() > 0 ==> step.action == ActionView::Send(
                rows_after(log, cursor.last_offset)[0],
            )
            &&& cursor.buffered.len() + rows.len() == 0 ==> step.state.cursors == source.cursors
        }),
{
    let turn = source.run.turn as int;
    let cursor = source.cursors[turn];
    law_read_keeps_track(cursor, log, rows);
    cursor.lemma_supplied_wf(rows);
    let fed = cursor.supplied(rows);
    if fed.buffered.len() > 0 {
        law_next_row_is_next_in_log(fed, log);
    } else {
        assert(fed.buffered =~= cursor.buffered);
        assert(source.with_cursor(turn, fed).cursors =~= source.cursors);
    }
}

/// A turn serves its cursor and passes on. While no interrupt is seen and
/// the sink takes what it is sent, the cursor whose turn it is hands out
/// one row, from its buffer or from the read that the source asks for,
/// and that row is sent; then the next cursor has its turn, or, after the
/// last, the sweep ends: with the look at the interrupt channel that
/// begins the next sweep, or with the write of progress that comes before
/// it. A cursor for which the read brings nothing passes on without a
/// send. So every sweep gives every cursor one turn.
pub proof fn law_a_turn_serves_its_cursor_and_passes_on(
    source: SourceView,
    rows: Seq<BlockchainEvent>,
    latency: u64,
    now: u64,
    then: u64,
    later: u64,
)
    requires
        source.wf(),
        source.run.phase == Phase::AwaitInterrupt,
        source.run.turn < source.cursors.len(),
        source.cursors[source.run.turn as int].buffered.len() == 0
            ==> source.cursors[source.run.turn as int].admits_all(rows),
    ensures
        ({
            let turn = source.run.turn as int;
            let cursor = source.cursors[turn];
            let polled = source.on_interrupt(InterruptPoll::Empty, now);
            let served = if cursor.buffered.len() > 0 {
                polled
            } else {
                polled.state.on_rows(Some(rows), then)
            };
            let passed = if served.action is Send {
                served.state.on_sent(true, latency, later)
            } else {
                served
            };
            &&& cursor.buffered.len() == 0 ==> polled.action == (ActionView::Fetch {
                index: source.run.turn,
                request: cursor.next_read(),
            })
            &&& served.action is Send <==> cursor.buffered.len() + rows.len() > 0
            &&& served.action is Send ==> served.action == ActionView::Send(
                cursor.turn_head(rows)->Some_0,
            ) && served.state.cursors == source.cursors.update(turn, cursor.turn_of(rows))
            &&& passed.state.cursors == served.state.cursors
            &&& turn + 1 < source.cursors.len() ==> passed.action == ActionView::PollInterrupt
                && passed.state.run.phase == Phase::AwaitInterrupt && passed.state.run.turn == turn
                + 1
            &&& turn + 1 == source.cursors.len() ==> {
                ||| passed.action == ActionView::PollInterrupt && passed.state.run.phase
                    == Phase::AwaitInterrupt && passed.state.run.turn == 0
                ||| passed.action == ActionView::GenerateToken && passed.state.run.phase
                    == Phase::AwaitToken && !passed.state.run.stopping
            }
        }),
{
    let turn = source.run.turn as int;
    let cursor = source.cursors[turn];
    if cursor.buffered.len() == 0 {
        let fed = cursor.supplied(rows);
        assert(fed.buffered =~= rows);
        if rows.len() == 0 {
            assert(source.with_cursor(turn, fed).cursors =~= source.cursors);
        }
    }
}

/// What the driver brings to one turn of a source while nothing
/// interrupts it: the rows of the read, should one be asked for, the time
/// the send takes, the times at which each answer comes, and the token
/// for a write of progress, should one fall due.
pub struct TurnFeed {
    pub rows: Seq<BlockchainEvent>,
    pub latency: u64,
    pub polled_at: u64,
    pub read_at: u64,
    pub sent_at: u64,
    pub token: Revision,
    pub written_at: u64,
}

impl SourceView {
    /// The source after one whole turn in which no interrupt is seen, the
    /// sink takes what it is sent, and a write of progress that falls due
    /// is applied: the source waits for the next look at the interrupt
    /// channel.
    #[verifier::opaque]
    pub open spec fn after_turn(self, feed: TurnFeed) -> SourceView {
        let polled = self.on_interrupt(InterruptPoll::Empty, feed.polled_at);
        let served = if polled.action is Fetch {
            polled.state.on_rows(Some(feed.rows), feed.read_at)
        } else {
            polled
        };
        let passed = if served.action is Send {
            served.state.on_sent(true, feed.latency, feed.sent_at)
        } else {
            served
        };
        if passed.action is GenerateToken {
            passed.state.on_token(Some(feed.token)).state.on_commit(
                Some(true),
                feed.written_at,
            ).state
        } else {
            passed.state
        }
    }

    /// The event that is sent in such a turn, if one is.
    #[verifier::opaque]
    pub open spec fn sent_in_turn(self, feed: TurnFeed) -> Option<BlockchainEvent> {
        let polled = self.on_interrupt(InterruptPoll::Empty, feed.polled_at);
        let served = if polled.action is Fetch {
            polled.state.on_rows(Some(feed.rows), feed.read_at)
        } else {
            polled
        };
        match served.action {
            ActionView::Send(event) => Some(event),
            _ => None,
        }
    }

    /// The source after `sweeps` whole sweeps and the first `turns` turns
    /// of the next, the turn of cursor `t` in sweep `j` being fed by
    /// `feeds[j][t]`.
    pub open spec fn after_sweeps(self, feeds: Seq<Seq<TurnFeed>>, sweeps: nat, turns: nat) -> SourceView
        decreases sweeps, turns,
    {
        if turns > 0 {
            self.after_sweeps(feeds, sweeps, (turns - 1) as nat).after_turn(
                feeds[sweeps as int][turns - 1],
            )
        } else if sweeps > 0 {
            self.after_sweeps(feeds, (sweeps - 1) as nat, self.cursors.len())
        } else {
            self
        }
    }
}

/// Number of rows that a cursor has sent after it had `turns` turns, of
/// `unsent` rows that lay after it.
pub open spec fn rows_sent(turns: nat, unsent: nat) -> nat {
    if turns <= unsent {
        turns
    } else {
        unsent
    }
}

/// One turn of a source whose store answers truthfully sends the next row
/// of the cursor's log, if one is left, and passes the turn on: the cursor
/// stands on the row sent and tracks its log still, no other cursor has
/// moved, and the next cursor has its turn, or the next sweep begins.
pub proof fn law_turn_sends_the_next_row(source: SourceView, log: Seq<BlockchainEvent>, feed: TurnFeed)
    requires
        source.wf(),
        source.run.phase == Phase::AwaitInterrupt,
        source.run.turn < source.cursors.len(),
        is_partition_log(
            log,
            source.cursors[source.run.turn as int].shard_id,
            source.cursors[source.run.turn as int].event_type,
        ),
        tracks(source.cursors[source.run.turn as int], log),
        stands_in(source.cursors[source.run.turn as int], log),
        truthful_read(source.cursors[source.run.turn as int], log, feed.rows),
    ensures
        ({
            let turn = source.run.turn as int;
            let cursor = source.cursors[turn];
            let rest = rows_after(log, cursor.last_offset);
            let next = source.after_turn(feed);
            &&& next.wf()
            &&& next.ctx == source.ctx
            &&& next.run.phase == Phase::AwaitInterrupt
            &&& next.run.turn == if turn + 1 < source.cursors.len() {
                turn + 1
            } else {
                0
            }
            &&& next.cursors.len() == source.cursors.len()
            &&& forall|s: int|
                0 <= s < source.cursors.len() && s != turn ==> next.cursors[s] == source.cursors[s]
            &&& next.cursors[turn].shard_id == cursor.shard_id
            &&& next.cursors[turn].event_type == cursor.event_type
            &&& tracks(next.cursors[turn], log)
            &&& stands_in(next.cursors[turn], log)
            &&& rows_after(log, next.cursors[turn].last_offset) == rest.skip(
                if rest.len() > 0 {
                    1int
                } else {
                    0int
                },
            )
            &&& source.sent_in_turn(feed) == if rest.len() > 0 {
                Some(rest[0])
            } else {
                None
            }
        }),
{
    reveal(SourceView::after_turn);
    reveal(SourceView::sent_in_turn);
    let turn = source.run.turn as int;
    let cursor = source.cursors[turn];
    let rest = rows_after(log, cursor.last_offset);
    let next = source.after_turn(feed);
    assert(cursor.wf());
    if rest.len() > 0 {
        let reads = seq![feed.rows];
        assert(cursor.after_turns(reads, 0) == cursor);
        assert(cursor.truthful_reads(log, reads, 1)) by {
            assert forall|i: nat| i < 1 implies truthful_read(
                #[trigger] cursor.after_turns(reads, i),
                log,
                reads[i as int],
            ) by {
                assert(cursor.after_turns(reads, i) == cursor);
            }
        }
        law_every_row_is_handed_out(cursor, log, reads, 1);
        assert(cursor.after_turns(reads, 1) == cursor.turn_of(feed.rows));
        if cursor.buffered.len() == 0 {
            law_read_keeps_track(cursor, log, feed.rows);
            assert(cursor.supplied(feed.rows).buffered =~= feed.rows);
        }
        let moved = cursor.turn_of(feed.rows);
        assert(next.cursors =~= source.cursors.update(turn, moved));
        assert forall|i: int, j: int| 0 <= i < j < next.cursors.len() implies !((
        #[trigger] next.cursors[i]).event_type == (#[trigger] next.cursors[j]).event_type
            && next.cursors[i].shard_id == next.cursors[j].shard_id) by {
            assert(next.cursors[i].event_type == source.cursors[i].event_type);
            assert(next.cursors[j].event_type == source.cursors[j].event_type);
            assert(next.cursors[i].shard_id == source.cursors[i].shard_id);
            assert(next.cursors[j].shard_id == source.cursors[j].shard_id);
        }
        assert forall|i: int| 0 <= i < next.cursors.len() implies (#[trigger] next.cursors[i]).wf()
            && next.cursors[i].producer_id == next.ctx.producer_id by {
            if i != turn {
                assert(next.cursors[i] == source.cursors[i]);
            }
        }
    } else {
        assert(cursor.buffered.len() == 0);
        assert(feed.rows.len() == 0);
        assert(cursor.supplied(feed.rows).buffered =~= cursor.buffered);
        assert(source.with_cursor(turn, cursor.supplied(feed.rows)).cursors =~= source.cursors);
        assert(next.cursors =~= source.cursors);
        assert(rest.skip(0) =~= rest);
    }
}

/// Every row is sent after finitely many sweeps. Take a source at the
/// beginning of a sweep whose cursors each track the log of their
/// partition. While no interrupt is seen, the sink takes what it is sent,
/// the store answers every read truthfully and every write of progress
/// is applied, then after `sweeps` whole sweeps and `turns` turns of the
/// next each cursor has been served once per sweep and has moved past one
/// row of its log for each of its turns, as long as rows were left; and
/// the turn of a cursor in sweep `k`, counted from zero, sends the row at
/// index `k` of what lay after that cursor at the beginning, or nothing
/// if fewer rows lay there. So the row at index `k` has been sent when
/// `k + 1` sweeps are over, after all rows before it.
pub proof fn law_every_row_is_sent_within_finitely_many_sweeps(
    source: SourceView,
    logs: Seq<Seq<BlockchainEvent>>,
    feeds: Seq<Seq<TurnFeed>>,
    sweeps: nat,
    turns: nat,
)
    requires
        source.wf(),
        source.run.phase == Phase::AwaitInterrupt,
        source.run.turn == 0,
        source.cursors.len() > 0,
        turns <= source.cursors.len(),
        logs.len() == source.cursors.len(),
        forall|s: int|
            0 <= s < source.cursors.len() ==> {
                &&& is_partition_log(
                    #[trigger] logs[s],
                    source.cursors[s].shard_id,
                    source.cursors[s].event_type,
                )
                &&& tracks(source.cursors[s], logs[s])
                &&& stands_in(source.cursors[s], logs[s])
            },
        forall|a: nat, b: nat|
            (a < sweeps && b < source.cursors.len()) || (a == sweeps && b < turns)
                ==> truthful_read(
                (#[trigger] source.after_sweeps(feeds, a, b)).cursors[b as int],
                logs[b as int],
                feeds[a as int][b as int].rows,
            ),
    ensures
        ({
            let reached = source.after_sweeps(feeds, sweeps, turns);
            &&& reached.wf()
            &&& reached.ctx == source.ctx
            &&& reached.run.phase == Phase::AwaitInterrupt
            &&& reached.cursors.len() == source.cursors.len()
            &&& reached.run.turn == if turns < source.cursors.len() {
                turns
            } else {
                0
            }
            &&& forall|s: int|
                0 <= s < source.cursors.len() ==> {
                    let unsent = rows_after(logs[s], source.cursors[s].last_offset);
                    let served = if s < turns {
                        sweeps + 1
                    } else {
                        sweeps
                    };
                    &&& (#[trigger] reached.cursors[s]).shard_id == source.cursors[s].shard_id
                    &&& reached.cursors[s].event_type == source.cursors[s].event_type
                    &&& tracks(reached.cursors[s], logs[s])
                    &&& stands_in(reached.cursors[s], logs[s])
                    &&& rows_after(logs[s], reached.cursors[s].last_offset) == unsent.skip(
                        rows_sent(served as nat, unsent.len()) as int,
                    )
                }
            &&& turns > 0 ==> {
                let unsent = rows_after(logs[turns - 1], source.cursors[turns - 1].last_offset);
                source.after_sweeps(feeds, sweeps, (turns - 1) as nat).sent_in_turn(
                    feeds[sweeps as int][turns - 1],
                ) == if sweeps < unsent.len() {
                    Some(unsent[sweeps as int])
                } else {
                    None
                }
            }
        }),
    decreases sweeps, turns,
{
    let count = source.cursors.len();
    let reached = source.after_sweeps(feeds, sweeps, turns);
    if turns > 0 {
        let before = (turns - 1) as nat;
        law_every_row_is_sent_within_finitely_many_sweeps(source, logs, feeds, sweeps, before);
        let prev = source.after_sweeps(feeds, sweeps, before);
        let feed = feeds[sweeps as int][before as int];
        let log = logs[before as int];
        assert(prev.run.turn == before);
        assert(prev.cursors[before as int].shard_id == source.cursors[before as int].shard_id);
        assert(is_partition_log(
            log,
            source.cursors[before as int].shard_id,
            source.cursors[before as int].event_type,
        ));
        assert(truthful_read(prev.cursors[before as int], log, feed.rows));
        law_turn_sends_the_next_row(prev, log, feed);
        assert(reached == prev.after_turn(feed));
        let lay = rows_after(log, source.cursors[before as int].last_offset);
        let rest = rows_after(log, prev.cursors[before as int].last_offset);
        assert(rest == lay.skip(rows_sent(sweeps, lay.len()) as int));
        if sweeps < lay.len() {
            assert(rest[0] == lay[sweeps as int]);
        }
        assert forall|s: int| 0 <= s < count implies {
            let unsent = rows_after(logs[s], source.cursors[s].last_offset);
            let served = if s < turns {
                sweeps + 1
            } else {
                sweeps
            };
            &&& (#[trigger] reached.cursors[s]).shard_id == source.cursors[s].shard_id
            &&& reached.cursors[s].event_type == source.cursors[s].event_type
            &&& tracks(reached.cursors[s], logs[s])
            &&& stands_in(reached.cursors[s], logs[s])
            &&& rows_after(logs[s], reached.cursors[s].last_offset) == unsent.skip(
                rows_sent(served as nat, unsent.len()) as int,
            )
        } by {
            let unsent = rows_after(logs[s], source.cursors[s].last_offset);
            assert(prev.cursors[s].shard_id == source.cursors[s].shard_id);
            if s == before {
                let rest = rows_after(log, prev.cursors[s].last_offset);
                assert(rest == unsent.skip(rows_sent(sweeps, unsent.len()) as int));
                if sweeps < unsent.len() {
                    assert(rest.skip(1) =~= unsent.skip((sweeps + 1) as int));
                } else {
                    assert(rest.skip(0) =~= rest);
                }
            } else {
                assert(reached.cursors[s] == prev.cursors[s]);
            }
        }
    } else if sweeps > 0 {
        law_every_row_is_sent_within_finitely_many_sweeps(
            source,
            logs,
            feeds,
            (sweeps - 1) as nat,
            count,
        );
    } else {
        assert forall|s: int| 0 <= s < count implies rows_after(
            logs[s],
            (#[trigger] source.cursors[s]).last_offset,
        ) == rows_after(logs[s], source.cursors[s].last_offset).skip(0) by {
            let unsent = rows_after(logs[s], source.cursors[s].last_offset);
            assert(unsent.skip(0) =~= unsent);
        }
    }
}

} // verus!
