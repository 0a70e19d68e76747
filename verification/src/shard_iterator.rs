//! Cursor over one partition of the log.
//!
//! The cursor never reads the store itself. It says which rows it needs
//! next, checks the rows it is given against its position, and hands them
//! out one by one; every row that it hands out lies strictly after the one
//! before.

use crate::types::{BlockchainEvent, BlockchainEventType, ProducerId, ShardId, ShardOffset, Slot};
use std::collections::VecDeque;
use vstd::prelude::*;

verus! {

/// What a cursor asks the store for: the rows of one partition that lie
/// after an offset, by ascending offset. An optional filter of the
/// consumer is applied by the store, so rows that it discards never reach
/// the cursor and never move it.
#[derive(Clone, Copy, Debug, PartialEq, Eq, Structural)]
pub struct FetchRequest {
    pub producer_id: ProducerId,
    pub shard_id: ShardId,
    pub event_type: BlockchainEventType,
    pub after_offset: ShardOffset,
}

/// What a consumer wants to see of its shards. The store applies it when
/// it answers a read; the cursors only carry it along.
#[derive(Clone, Debug, Default, PartialEq, Eq)]
pub struct ShardFilter {
    pub tx_account_keys: Vec<Vec<u8>>,
    pub account_owners: Vec<Vec<u8>>,
    pub account_pubkeys: Vec<Vec<u8>>,
}

/// Why a cursor refused the rows it was given.
#[derive(Clone, Copy, Debug, PartialEq, Eq, Structural)]
pub enum ShardIteratorError {
    /// The row at this index belongs to another partition.
    ForeignRow(usize),
    /// The row at this index does not lie after the row before it, or
    /// after what the cursor already holds.
    OutOfOrder(usize),
}

/// A cursor as contracts see it.
pub struct CursorView {
    pub producer_id: ProducerId,
    pub shard_id: ShardId,
    pub event_type: BlockchainEventType,
    /// Offset of the last row handed out, or the offset started from.
    pub last_offset: ShardOffset,
    /// Slot of the last row handed out, or the slot started from.
    pub last_slot: Slot,
    /// The rows read ahead and not handed out yet, oldest first.
    pub buffered: Seq<BlockchainEvent>,
}

impl CursorView {
    /// The rows read ahead are of this partition, lie after the cursor,
    /// rise strictly in offset and never fall in slot.
    pub open spec fn wf(self) -> bool {
        &&& forall|i: int|
            0 <= i < self.buffered.len() ==> {
                &&& (#[trigger] self.buffered[i]).shard_id == self.shard_id
                &&& self.buffered[i].event_type == self.event_type
                &&& self.buffered[i].offset > self.last_offset
                &&& self.buffered[i].slot >= self.last_slot
            }
        &&& forall|i: int, j: int|
            0 <= i < j < self.buffered.len() ==> (#[trigger] self.buffered[i]).offset < (
            #[trigger] self.buffered[j]).offset && self.buffered[i].slot <= self.buffered[j].slot
    }

    /// Offset after which the store is to be read next: that of the last
    /// row read ahead, or the cursor's own when nothing is buffered.
    pub open spec fn read_upto(self) -> ShardOffset {
        if self.buffered.len() > 0 {
            self.buffered.last().offset
        } else {
            self.last_offset
        }
    }

    /// Slot below which no further row may lie.
    pub open spec fn read_slot(self) -> Slot {
        if self.buffered.len() > 0 {
            self.buffered.last().slot
        } else {
            self.last_slot
        }
    }

    /// The read that brings the rows after everything the cursor holds.
    pub open spec fn next_read(self) -> FetchRequest {
        FetchRequest {
            producer_id: self.producer_id,
            shard_id: self.shard_id,
            event_type: self.event_type,
            after_offset: self.read_upto(),
        }
    }

    /// The row handed out next, if one is buffered.
    pub open spec fn head(self) -> Option<BlockchainEvent> {
        if self.buffered.len() > 0 {
            Some(self.buffered[0])
        } else {
            None
        }
    }

    /// The cursor after it has handed out its next row: it stands on that
    /// row. With nothing buffered it stays as it is.
    pub open spec fn advanced(self) -> CursorView {
        if self.buffered.len() > 0 {
            CursorView {
                last_offset: self.buffered[0].offset,
                last_slot: self.buffered[0].slot,
                buffered: self.buffered.drop_first(),
                ..self
            }
        } else {
            self
        }
    }

    /// The row at `i` is of this partition and lies after the row before
    /// it, or after everything the cursor holds when it is the first.
    pub open spec fn admits(self, rows: Seq<BlockchainEvent>, i: int) -> bool {
        &&& rows[i].shard_id == self.shard_id
        &&& rows[i].event_type == self.event_type
        &&& rows[i].offset > if i == 0 {
            self.read_upto()
        } else {
            rows[i - 1].offset
        }
        &&& rows[i].slot >= if i == 0 {
            self.read_slot()
        } else {
            rows[i - 1].slot
        }
    }

    /// Every one of `rows` is admitted.
    pub open spec fn admits_all(self, rows: Seq<BlockchainEvent>) -> bool {
        forall|i: int| 0 <= i < rows.len() ==> self.admits(rows, i)
    }

    /// The error for the first of `rows` that is not admitted, at `i`.
    pub open spec fn refusal(self, rows: Seq<BlockchainEvent>, i: int) -> ShardIteratorError {
        if rows[i].shard_id != self.shard_id || rows[i].event_type != self.event_type {
            ShardIteratorError::ForeignRow(i as usize)
        } else {
            ShardIteratorError::OutOfOrder(i as usize)
        }
    }

    /// `i` is the first index of `rows` that is not admitted.
    pub open spec fn first_refused(self, rows: Seq<BlockchainEvent>, i: int) -> bool {
        &&& 0 <= i < rows.len()
        &&& !self.admits(rows, i)
        &&& forall|j: int| 0 <= j < i ==> self.admits(rows, j)
    }

    /// The cursor with `rows` buffered behind what it held.
    pub open spec fn supplied(self, rows: Seq<BlockchainEvent>) -> CursorView {
        CursorView { buffered: self.buffered + rows, ..self }
    }

    /// A row among rows that are all admitted lies after everything the
    /// cursor holds and after each row before it.
    pub proof fn lemma_admitted_rows(self, rows: Seq<BlockchainEvent>, b: int)
        requires
            self.wf(),
            self.admits_all(rows),
            0 <= b < rows.len(),
        ensures
            rows[b].shard_id == self.shard_id,
            rows[b].event_type == self.event_type,
            rows[b].offset > self.read_upto(),
            rows[b].slot >= self.read_slot(),
            self.read_upto() >= self.last_offset,
            self.read_slot() >= self.last_slot,
            forall|k: int|
                0 <= k < self.buffered.len() ==> (#[trigger] self.buffered[k]).offset
                    <= self.read_upto() && self.buffered[k].slot <= self.read_slot(),
            forall|a: int|
                0 <= a < b ==> (#[trigger] rows[a]).offset < rows[b].offset && rows[a].slot
                    <= rows[b].slot,
        decreases b,
    {
        assert(self.admits(rows, b));
        if b > 0 {
            self.lemma_admitted_rows(rows, b - 1);
        }
        if self.buffered.len() > 0 {
            let last = self.buffered.len() - 1;
            assert(self.buffered[last].offset > self.last_offset);
        }
    }

    /// Buffering admitted rows keeps a cursor well formed.
    pub proof fn lemma_supplied_wf(self, rows: Seq<BlockchainEvent>)
        requires
            self.wf(),
            self.admits_all(rows),
        ensures
            self.supplied(rows).wf(),
    {
        let all = self.buffered + rows;
        let n = self.buffered.len() as int;
        assert forall|k: int| 0 <= k < all.len() implies {
            &&& (#[trigger] all[k]).shard_id == self.shard_id
            &&& all[k].event_type == self.event_type
            &&& all[k].offset > self.last_offset
            &&& all[k].slot >= self.last_slot
        } by {
            if k >= n {
                self.lemma_admitted_rows(rows, k - n);
            }
        }
        assert forall|a: int, b: int| 0 <= a < b < all.len() implies (#[trigger] all[a]).offset < (
        #[trigger] all[b]).offset && all[a].slot <= all[b].slot by {
            if b >= n {
                self.lemma_admitted_rows(rows, b - n);
            }
        }
    }

    /// Handing out a row keeps a cursor well formed, and moves it strictly
    /// forward in offset and never backward in slot.
    pub proof fn lemma_advanced(self)
        requires
            self.wf(),
        ensures
            self.advanced().wf(),
            self.buffered.len() > 0 ==> self.advanced().last_offset > self.last_offset
                && self.advanced().last_slot >= self.last_slot,
    {
        if self.buffered.len() > 0 {
            let rest = self.buffered.drop_first();
            assert forall|i: int| 0 <= i < rest.len() implies (#[trigger] rest[i]).offset
                > self.buffered[0].offset && rest[i].slot >= self.buffered[0].slot && rest[i].shard_id
                == self.shard_id && rest[i].event_type == self.event_type by {
                assert(rest[i] == self.buffered[i + 1]);
            }
            assert forall|i: int, j: int| 0 <= i < j < rest.len() implies (#[trigger] rest[i]).offset
                < (#[trigger] rest[j]).offset && rest[i].slot <= rest[j].slot by {
                assert(rest[i] == self.buffered[i + 1]);
                assert(rest[j] == self.buffered[j + 1]);
            }
        }
    }
}

/// The rows of one partition as the store holds them: all of that
/// partition, offsets rising strictly and slots never falling.
pub open spec fn is_partition_log(
    log: Seq<BlockchainEvent>,
    shard_id: ShardId,
    event_type: BlockchainEventType,
) -> bool {
    &&& forall|i: int|
        0 <= i < log.len() ==> (#[trigger] log[i]).shard_id == shard_id && log[i].event_type
            == event_type
    &&& forall|i: int, j: int|
        0 <= i < j < log.len() ==> (#[trigger] log[i]).offset < (#[trigger] log[j]).offset
            && log[i].slot <= log[j].slot
}

/// Number of leading rows of `log` whose offset is `offset` or less.
pub open spec fn rows_upto(log: Seq<BlockchainEvent>, offset: ShardOffset) -> int
    decreases log.len(),
{
    if log.len() == 0 || log[0].offset > offset {
        0
    } else {
        1 + rows_upto(log.drop_first(), offset)
    }
}

/// The rows of a partition log that lie after `offset`, oldest first:
/// what a read after `offset` can bring.
pub open spec fn rows_after(log: Seq<BlockchainEvent>, offset: ShardOffset) -> Seq<
    BlockchainEvent,
> {
    log.skip(rows_upto(log, offset))
}

/// `part` is the beginning of `whole`.
pub open spec fn begins(whole: Seq<BlockchainEvent>, part: Seq<BlockchainEvent>) -> bool {
    part.len() <= whole.len() && whole.take(part.len() as int) == part
}

/// The rows that a cursor has read ahead are the first rows of the log
/// after its position: it has skipped none and holds none twice.
pub open spec fn tracks(cursor: CursorView, log: Seq<BlockchainEvent>) -> bool {
    begins(rows_after(log, cursor.last_offset), cursor.buffered)
}

/// The cursor stands at a position that the log has reached: no row after
/// its offset lies in an earlier slot than its own.
pub open spec fn stands_in(cursor: CursorView, log: Seq<BlockchainEvent>) -> bool {
    forall|i: int|
        0 <= i < log.len() && (#[trigger] log[i]).offset > cursor.last_offset ==> log[i].slot
            >= cursor.last_slot
}

/// In a partition log the rows up to an offset come first, and all the
/// others lie after it.
pub proof fn lemma_rows_upto(log: Seq<BlockchainEvent>, offset: ShardOffset)
    requires
        forall|i: int, j: int|
            0 <= i < j < log.len() ==> (#[trigger] log[i]).offset < (#[trigger] log[j]).offset,
    ensures
        0 <= rows_upto(log, offset) <= log.len(),
        forall|i: int| 0 <= i < rows_upto(log, offset) ==> (#[trigger] log[i]).offset <= offset,
        forall|i: int|
            rows_upto(log, offset) <= i < log.len() ==> (#[trigger] log[i]).offset > offset,
    decreases log.len(),
{
    if log.len() == 0 || log[0].offset > offset {
    } else {
        let rest = log.drop_first();
        assert forall|i: int, j: int| 0 <= i < j < rest.len() implies (#[trigger] rest[i]).offset < (
        #[trigger] rest[j]).offset by {
            assert(rest[i] == log[i + 1] && rest[j] == log[j + 1]);
        }
        lemma_rows_upto(rest, offset);
        let k = rows_upto(rest, offset);
        assert forall|i: int| 0 <= i < k + 1 implies (#[trigger] log[i]).offset <= offset by {
            if i > 0 {
                assert(log[i] == rest[i - 1]);
            }
        }
        assert forall|i: int| k + 1 <= i < log.len() implies (#[trigger] log[i]).offset
            > offset by {
            assert(log[i] == rest[i - 1]);
        }
    }
}

/// The number of rows up to an offset is the one index that parts the
/// log into rows up to the offset and rows after it.
pub proof fn lemma_rows_upto_is(log: Seq<BlockchainEvent>, offset: ShardOffset, k: int)
    requires
        forall|i: int, j: int|
            0 <= i < j < log.len() ==> (#[trigger] log[i]).offset < (#[trigger] log[j]).offset,
        0 <= k <= log.len(),
        forall|i: int| 0 <= i < k ==> (#[trigger] log[i]).offset <= offset,
        forall|i: int| k <= i < log.len() ==> (#[trigger] log[i]).offset > offset,
    ensures
        rows_upto(log, offset) == k,
{
    lemma_rows_upto(log, offset);
    let found = rows_upto(log, offset);
    if found < k {
        assert(log[found].offset > offset);
    } else if found > k {
        assert(log[k].offset <= offset);
    }
}

/// A fresh cursor tracks every log.
pub proof fn law_fresh_cursor_tracks(cursor: CursorView, log: Seq<BlockchainEvent>)
    requires
        cursor.buffered.len() == 0,
    ensures
        tracks(cursor, log),
{
    assert(rows_after(log, cursor.last_offset).take(0) =~= cursor.buffered);
}

/// A cursor that tracks the log admits whatever a read after its rows
/// brings from the beginning of the rest, and tracks the log still once
/// those rows are buffered. The cursor must stand at a position that the
/// log has reached.
pub proof fn law_read_keeps_track(
    cursor: CursorView,
    log: Seq<BlockchainEvent>,
    rows: Seq<BlockchainEvent>,
)
    requires
        cursor.wf(),
        is_partition_log(log, cursor.shard_id, cursor.event_type),
        tracks(cursor, log),
        begins(rows_after(log, cursor.read_upto()), rows),
        stands_in(cursor, log),
    ensures
        cursor.admits_all(rows),
        tracks(cursor.supplied(rows), log),
{
    lemma_rows_upto(log, cursor.last_offset);
    lemma_rows_upto(log, cursor.read_upto());
    let start = rows_upto(log, cursor.last_offset);
    let held = cursor.buffered.len() as int;
    let rest = rows_after(log, cursor.last_offset);
    assert forall|i: int| 0 <= i < held implies cursor.buffered[i] == log[start + i] by {
        assert(rest.take(held)[i] == rest[i]);
    }
    if held > 0 {
        assert(cursor.buffered[held - 1] == log[start + held - 1]);
    }
    lemma_rows_upto_is(log, cursor.read_upto(), start + held);
    let more = rows_after(log, cursor.read_upto());
    assert forall|i: int| 0 <= i < rows.len() implies rows[i] == log[start + held + i] by {
        assert(more.take(rows.len() as int)[i] == more[i]);
    }
    assert forall|i: int| 0 <= i < rows.len() implies cursor.admits(rows, i) by {
        assert(rows[i] == log[start + held + i]);
        if i > 0 {
            assert(rows[i - 1] == log[start + held + i - 1]);
        } else if held > 0 {
            assert(cursor.buffered[held - 1] == log[start + held - 1]);
        } else {
            assert(log[start].offset > cursor.last_offset);
        }
    }
    assert(rest.take(held + rows.len()) =~= cursor.buffered + rows);
}

/// A cursor that tracks the log hands out, as its next row, the first
/// row of the log after its position, and tracks the log from there.
pub proof fn law_next_row_is_next_in_log(cursor: CursorView, log: Seq<BlockchainEvent>)
    requires
        cursor.wf(),
        is_partition_log(log, cursor.shard_id, cursor.event_type),
        tracks(cursor, log),
        cursor.buffered.len() > 0,
    ensures
        cursor.head() == Some(rows_after(log, cursor.last_offset)[0]),
        tracks(cursor.advanced(), log),
{
    lemma_rows_upto(log, cursor.last_offset);
    let start = rows_upto(log, cursor.last_offset);
    let rest = rows_after(log, cursor.last_offset);
    let held = cursor.buffered.len() as int;
    assert forall|i: int| 0 <= i < held implies cursor.buffered[i] == log[start + i] by {
        assert(rest.take(held)[i] == rest[i]);
    }
    assert(cursor.buffered[0] == log[start]);
    lemma_rows_upto_is(log, cursor.buffered[0].offset, start + 1);
    let next = rows_after(log, cursor.buffered[0].offset);
    assert(next.take(held - 1) =~= cursor.buffered.drop_first());
}

/// Rows that are appended to the log behind its last row leave what lies
/// after an offset as it was, with the new rows behind.
pub proof fn law_log_grows(
    log: Seq<BlockchainEvent>,
    more: Seq<BlockchainEvent>,
    shard_id: ShardId,
    event_type: BlockchainEventType,
    cursor: CursorView,
)
    requires
        is_partition_log(log + more, shard_id, event_type),
        tracks(cursor, log),
    ensures
        begins(rows_after(log + more, cursor.last_offset), rows_after(log, cursor.last_offset)),
        tracks(cursor, log + more),
{
    let all = log + more;
    let offset = cursor.last_offset;
    assert forall|i: int, j: int| 0 <= i < j < log.len() implies (#[trigger] log[i]).offset < (
    #[trigger] log[j]).offset by {
        assert(log[i] == all[i] && log[j] == all[j]);
    }
    lemma_rows_upto(log, offset);
    lemma_rows_upto(all, offset);
    let k = rows_upto(log, offset);
    let rest = rows_after(log, offset);
    if k < log.len() {
        assert forall|i: int| 0 <= i < k implies (#[trigger] all[i]).offset <= offset by {
            assert(all[i] == log[i]);
        }
        assert forall|i: int| k <= i < all.len() implies (#[trigger] all[i]).offset > offset by {
            assert(all[k] == log[k]);
        }
        lemma_rows_upto_is(all, offset, k);
        assert(rows_after(all, offset).take(rest.len() as int) =~= rest);
    } else {
        assert(rest.len() == 0);
        assert(rows_after(all, offset).take(0) =~= rest);
    }
    let whole = rows_after(all, offset);
    let held = cursor.buffered.len() as int;
    assert(whole.take(held) =~= whole.take(rest.len() as int).take(held));
}

/// A cursor that starts again from a later position reads a tail of what
/// the earlier one reads: the rows between the two positions come first
/// in the earlier reading, and the later reading follows them with no gap.
pub proof fn law_restart_reads_a_tail(
    log: Seq<BlockchainEvent>,
    earlier: ShardOffset,
    later: ShardOffset,
)
    requires
        forall|i: int, j: int|
            0 <= i < j < log.len() ==> (#[trigger] log[i]).offset < (#[trigger] log[j]).offset,
        earlier <= later,
    ensures
        rows_upto(log, earlier) <= rows_upto(log, later),
        rows_after(log, earlier) == log.subrange(rows_upto(log, earlier), rows_upto(log, later))
            + rows_after(log, later),
        forall|i: int|
            rows_upto(log, earlier) <= i < rows_upto(log, later) ==> earlier < (
            #[trigger] log[i]).offset <= later,
{
    lemma_rows_upto(log, earlier);
    lemma_rows_upto(log, later);
    let a = rows_upto(log, earlier);
    let b = rows_upto(log, later);
    if b < a {
        assert(log[b].offset > later);
    }
    assert(rows_after(log, earlier) =~= log.subrange(a, b) + rows_after(log, later));
}

/// What a read for the cursor brings when the store answers truthfully:
/// rows from the beginning of those after the rows that the cursor holds,
/// and at least one of them if there is one.
pub open spec fn truthful_read(
    cursor: CursorView,
    log: Seq<BlockchainEvent>,
    rows: Seq<BlockchainEvent>,
) -> bool {
    &&& begins(rows_after(log, cursor.read_upto()), rows)
    &&& rows_after(log, cursor.read_upto()).len() > 0 ==> rows.len() > 0
}

impl CursorView {
    /// The cursor after one turn: it hands out a row that it holds, or,
    /// holding none, takes in what the read brought and hands out the
    /// first of that.
    pub open spec fn turn_of(self, rows: Seq<BlockchainEvent>) -> CursorView {
        if self.buffered.len() > 0 {
            self.advanced()
        } else {
            self.supplied(rows).advanced()
        }
    }

    /// The row that the turn hands out, if it hands one out.
    pub open spec fn turn_head(self, rows: Seq<BlockchainEvent>) -> Option<BlockchainEvent> {
        if self.buffered.len() > 0 {
            self.head()
        } else {
            self.supplied(rows).head()
        }
    }

    /// The cursor after `n` turns, the turn `i` being served by the read
    /// `reads[i]`.
    pub open spec fn after_turns(self, reads: Seq<Seq<BlockchainEvent>>, n: nat) -> CursorView
        decreases n,
    {
        if n == 0 {
            self
        } else {
            self.after_turns(reads, (n - 1) as nat).turn_of(reads[n - 1])
        }
    }

    /// Each of the first `n` reads answers truthfully for the cursor as it
    /// stands when the read is made.
    pub open spec fn truthful_reads(
        self,
        log: Seq<BlockchainEvent>,
        reads: Seq<Seq<BlockchainEvent>>,
        n: nat,
    ) -> bool {
        forall|i: nat|
            i < n ==> truthful_read(#[trigger] self.after_turns(reads, i), log, reads[i as int])
    }
}

/// The rows after the first row after an offset are the rows after that
/// offset, less the first.
pub proof fn lemma_rows_after_step(log: Seq<BlockchainEvent>, offset: ShardOffset)
    requires
        forall|i: int, j: int|
            0 <= i < j < log.len() ==> (#[trigger] log[i]).offset < (#[trigger] log[j]).offset,
        rows_after(log, offset).len() > 0,
    ensures
        rows_after(log, rows_after(log, offset)[0].offset) == rows_after(log, offset).drop_first(),
        rows_after(log, offset)[0] == log[rows_upto(log, offset)],
        rows_upto(log, rows_after(log, offset)[0].offset) == rows_upto(log, offset) + 1,
{
    lemma_rows_upto(log, offset);
    let start = rows_upto(log, offset);
    assert(rows_after(log, offset)[0] == log[start]);
    assert forall|i: int| 0 <= i < start + 1 implies (#[trigger] log[i]).offset
        <= log[start].offset by {}
    assert forall|i: int| start + 1 <= i < log.len() implies (#[trigger] log[i]).offset
        > log[start].offset by {}
    lemma_rows_upto_is(log, log[start].offset, start + 1);
    assert(rows_after(log, log[start].offset) =~= rows_after(log, offset).drop_first());
}

/// Every row of the log after a cursor's position is handed out, in the
/// order of the log, one in each turn that the cursor is given: whatever
/// the sizes of the reads, if the store answers truthfully then after `n`
/// turns the cursor has handed out exactly the first `n` of those rows,
/// the last of them in the `n`-th turn, and stands on it. So the row at
/// index `k` is handed out in turn `k + 1`, after all rows before it.
pub proof fn law_every_row_is_handed_out(
    cursor: CursorView,
    log: Seq<BlockchainEvent>,
    reads: Seq<Seq<BlockchainEvent>>,
    n: nat,
)
    requires
        cursor.wf(),
        is_partition_log(log, cursor.shard_id, cursor.event_type),
        tracks(cursor, log),
        stands_in(cursor, log),
        cursor.truthful_reads(log, reads, n),
        n <= rows_after(log, cursor.last_offset).len(),
    ensures
        ({
            let unsent = rows_after(log, cursor.last_offset);
            let reached = cursor.after_turns(reads, n);
            &&& reached.wf()
            &&& reached.shard_id == cursor.shard_id
            &&& reached.event_type == cursor.event_type
            &&& reached.producer_id == cursor.producer_id
            &&& tracks(reached, log)
            &&& stands_in(reached, log)
            &&& rows_after(log, reached.last_offset) == unsent.skip(n as int)
            &&& n > 0 ==> {
                &&& cursor.after_turns(reads, (n - 1) as nat).turn_head(reads[n - 1]) == Some(
                    unsent[n - 1],
                )
                &&& reached.last_offset == unsent[n - 1].offset
                &&& reached.last_slot == unsent[n - 1].slot
            }
        }),
    decreases n,
{
    let unsent = rows_after(log, cursor.last_offset);
    if n == 0 {
        assert(unsent.skip(0) =~= unsent);
    } else {
        let m = (n - 1) as nat;
        assert(cursor.truthful_reads(log, reads, m)) by {
            assert forall|i: nat| i < m implies truthful_read(
                #[trigger] cursor.after_turns(reads, i),
                log,
                reads[i as int],
            ) by {}
        }
        law_every_row_is_handed_out(cursor, log, reads, m);
        let prev = cursor.after_turns(reads, m);
        let rows = reads[m as int];
        assert(truthful_read(prev, log, rows));
        let rest = rows_after(log, prev.last_offset);
        assert(rest == unsent.skip(m as int));
        assert(rest.len() > 0);
        assert(rest[0] == unsent[m as int]);
        let holding = if prev.buffered.len() > 0 {
            prev
        } else {
            prev.supplied(rows)
        };
        if prev.buffered.len() == 0 {
            law_read_keeps_track(prev, log, rows);
            prev.lemma_supplied_wf(rows);
            assert(holding.buffered =~= rows);
        }
        law_next_row_is_next_in_log(holding, log);
        holding.lemma_advanced();
        let reached = holding.advanced();
        assert(reached == cursor.after_turns(reads, n));
        lemma_rows_after_step(log, prev.last_offset);
        assert(unsent.skip(m as int).drop_first() =~= unsent.skip(n as int));
        lemma_rows_upto(log, prev.last_offset);
        let at = rows_upto(log, prev.last_offset);
        assert(rest[0] == log[at]);
        assert forall|i: int| 0 <= i < log.len() && (#[trigger] log[i]).offset
            > reached.last_offset implies log[i].slot >= reached.last_slot by {
            if i <= at {
                if i < at {
                    assert(log[i].offset < log[at].offset);
                }
            }
        }
    }
}

pub struct ShardIterator {
    producer_id: ProducerId,
    shard_id: ShardId,
    event_type: BlockchainEventType,
    last_offset: ShardOffset,
    last_slot: Slot,
    buffered: VecDeque<BlockchainEvent>,
}

impl View for ShardIterator {
    type V = CursorView;

    closed spec fn view(&self) -> CursorView {
        CursorView {
            producer_id: self.producer_id,
            shard_id: self.shard_id,
            event_type: self.event_type,
            last_offset: self.last_offset,
            last_slot: self.last_slot,
            buffered: self.buffered@,
        }
    }
}

impl ShardIterator {
    /// A cursor at `(offset, slot)` with nothing read ahead.
    pub fn new(
        producer_id: ProducerId,
        shard_id: ShardId,
        offset: ShardOffset,
        slot: Slot,
        event_type: BlockchainEventType,
    ) -> (it: Self)
        ensures
            it@ == (CursorView {
                producer_id,
                shard_id,
                event_type,
                last_offset: offset,
                last_slot: slot,
                buffered: Seq::empty(),
            }),
            it@.wf(),
    {
        ShardIterator {
            producer_id,
            shard_id,
            event_type,
            last_offset: offset,
            last_slot: slot,
            buffered: VecDeque::new(),
        }
    }

    pub fn producer_id(&self) -> (id: ProducerId)
        ensures
            id == self@.producer_id,
    {
        self.producer_id
    }

    pub fn shard_id(&self) -> (id: ShardId)
        ensures
            id == self@.shard_id,
    {
        self.shard_id
    }

    pub fn event_type(&self) -> (event_type: BlockchainEventType)
        ensures
            event_type == self@.event_type,
    {
        self.event_type
    }

    pub fn last_offset(&self) -> (offset: ShardOffset)
        ensures
            offset == self@.last_offset,
    {
        self.last_offset
    }

    pub fn last_slot(&self) -> (slot: Slot)
        ensures
            slot == self@.last_slot,
    {
        self.last_slot
    }

    /// Number of rows read ahead.
    pub fn buffered_len(&self) -> (len: usize)
        ensures
            len == self@.buffered.len(),
    {
        self.buffered.len()
    }

    /// The read that brings the rows after everything this cursor holds.
    /// On a fresh cursor this is the read that warms it.
    pub fn warm(&self) -> (request: FetchRequest)
        ensures
            request == self@.next_read(),
    {
        let len = self.buffered.len();
        let after_offset = if len > 0 {
            self.buffered[len - 1].offset
        } else {
            self.last_offset
        };
        FetchRequest {
            producer_id: self.producer_id,
            shard_id: self.shard_id,
            event_type: self.event_type,
            after_offset,
        }
    }

    /// Takes in the rows that a read brought. They are buffered behind
    /// those already held if every one of them is admitted; otherwise
    /// nothing changes and the error names the first that is not.
    pub fn supply(&mut self, rows: Vec<BlockchainEvent>) -> (outcome: Result<
        (),
        ShardIteratorError,
    >)
        requires
            old(self)@.wf(),
        ensures
            final(self)@.wf(),
            old(self)@.admits_all(rows@) ==> outcome is Ok,
            outcome is Ok ==> old(self)@.admits_all(rows@) && final(self)@ == old(self)@.supplied(
                rows@,
            ),
            outcome matches Err(error) ==> final(self)@ == old(self)@ && exists|i: int|
                old(self)@.first_refused(rows@, i) && error == old(self)@.refusal(rows@, i),
    {
        let held = self.buffered.len();
        let mut offset = if held > 0 {
            self.buffered[held - 1].offset
        } else {
            self.last_offset
        };
        let mut slot = if held > 0 {
            self.buffered[held - 1].slot
        } else {
            self.last_slot
        };
        let mut i: usize = 0;
        while i < rows.len()
            invariant
                0 <= i <= rows@.len(),
                *self == *old(self),
                old(self)@.wf(),
                forall|j: int| 0 <= j < i ==> old(self)@.admits(rows@, j),
                offset == if i == 0 {
                    old(self)@.read_upto()
                } else {
                    rows@[i - 1].offset
                },
                slot == if i == 0 {
                    old(self)@.read_slot()
                } else {
                    rows@[i - 1].slot
                },
            decreases rows@.len() - i,
        {
            let row = &rows[i];
            if row.shard_id != self.shard_id || row.event_type != self.event_type {
                assert(old(self)@.first_refused(rows@, i as int));
                return Err(ShardIteratorError::ForeignRow(i));
            }
            if row.offset <= offset || row.slot < slot {
                assert(old(self)@.first_refused(rows@, i as int));
                return Err(ShardIteratorError::OutOfOrder(i));
            }
            assert(old(self)@.admits(rows@, i as int));
            offset = row.offset;
            slot = row.slot;
            i += 1;
        }
        let ghost before = self.buffered@;
        for row in it: rows
            invariant
                it.seq() == rows@,
                self.buffered@ == before + rows@.take(it.index()),
                self.producer_id == old(self).producer_id,
                self.shard_id == old(self).shard_id,
                self.event_type == old(self).event_type,
                self.last_offset == old(self).last_offset,
                self.last_slot == old(self).last_slot,
        {
            self.buffered.push_back(row);
            assert(rows@.take(it.index() + 1) =~= rows@.take(it.index() as int).push(row));
        }
        proof {
            assert(rows@.take(rows@.len() as int) =~= rows@);
            old(self)@.lemma_supplied_wf(rows@);
        }
        Ok(())
    }

    /// Hands out the next buffered row and moves the cursor onto it;
    /// `None`, with nothing changed, when nothing is buffered. A row that
    /// is handed out lies strictly after the cursor's offset and not
    /// before its slot.
    pub fn try_next(&mut self) -> (next: Option<BlockchainEvent>)
        requires
            old(self)@.wf(),
        ensures
            final(self)@.wf(),
            next == old(self)@.head(),
            final(self)@ == old(self)@.advanced(),
            next matches Some(event) ==> {
                &&& event.offset > old(self)@.last_offset
                &&& event.slot >= old(self)@.last_slot
                &&& event.shard_id == old(self)@.shard_id
                &&& event.event_type == old(self)@.event_type
                &&& final(self)@.last_offset == event.offset
                &&& final(self)@.last_slot == event.slot
            },
    {
        proof {
            old(self)@.lemma_advanced();
        }
        match self.buffered.pop_front() {
            Some(event) => {
                self.last_offset = event.offset;
                self.last_slot = event.slot;
                Some(event)
            },
            None => None,
        }
    }
}

} // verus!
