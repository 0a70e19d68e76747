//! The fenced write of a consumer's progress.
//!
//! Progress is kept in one durable row per `(group, consumer,
//! execution)`. A write carries a fencing token and is applied only where
//! the row's revision is strictly below it, so a consumer that lost its
//! lease cannot write over the progress of the one that replaced it.

use crate::types::{
    ConsumerGroupId, ConsumerId, ExecutionId, Revision, ShardId, ShardOffset, ShardOffsetMap, Slot,
};
use vstd::prelude::*;

verus! {

/// Positions per shard, as contracts see an offset map.
pub type Positions = Map<ShardId, (ShardOffset, Slot)>;

/// One conditional write: set both maps and the revision of the row of
/// `(consumer_group_id, consumer_id, execution_id)` if the row's revision
/// is below `revision`.
#[derive(Clone, Debug, PartialEq, Eq)]
pub struct OffsetCommit {
    pub consumer_group_id: ConsumerGroupId,
    pub consumer_id: ConsumerId,
    pub execution_id: ExecutionId,
    pub acc_shard_offset_map: ShardOffsetMap,
    pub tx_shard_offset_map: ShardOffsetMap,
    pub revision: Revision,
}

/// A conditional write as contracts see it.
pub struct OffsetCommitView {
    pub consumer_group_id: ConsumerGroupId,
    pub consumer_id: Seq<char>,
    pub execution_id: Seq<u8>,
    pub acc: Positions,
    pub tx: Positions,
    pub revision: Revision,
}

impl View for OffsetCommit {
    type V = OffsetCommitView;

    open spec fn view(&self) -> OffsetCommitView {
        OffsetCommitView {
            consumer_group_id: self.consumer_group_id,
            consumer_id: self.consumer_id@,
            execution_id: self.execution_id@,
            acc: self.acc_shard_offset_map@,
            tx: self.tx_shard_offset_map@,
            revision: self.revision,
        }
    }
}

/// What a durable row holds.
pub struct RecordView {
    pub acc: Positions,
    pub tx: Positions,
    pub revision: Revision,
}

impl RecordView {
    /// The row after a conditional write was tried on it.
    pub open spec fn written(self, commit: OffsetCommitView) -> RecordView {
        if self.revision < commit.revision {
            RecordView { acc: commit.acc, tx: commit.tx, revision: commit.revision }
        } else {
            self
        }
    }

    /// The row after each of `commits` was tried on it in turn.
    pub open spec fn written_all(self, commits: Seq<OffsetCommitView>) -> RecordView
        decreases commits.len(),
    {
        if commits.len() == 0 {
            self
        } else {
            self.written_all(commits.drop_last()).written(commits.last())
        }
    }
}

/// The durable row of one `(group, consumer, execution)`, held in memory.
pub struct ConsumerOffsetRecord {
    acc_shard_offset_map: ShardOffsetMap,
    tx_shard_offset_map: ShardOffsetMap,
    revision: Revision,
}

impl View for ConsumerOffsetRecord {
    type V = RecordView;

    closed spec fn view(&self) -> RecordView {
        RecordView {
            acc: self.acc_shard_offset_map@,
            tx: self.tx_shard_offset_map@,
            revision: self.revision,
        }
    }
}

impl ConsumerOffsetRecord {
    /// A row as it is first written for an execution.
    pub fn new(
        acc_shard_offset_map: ShardOffsetMap,
        tx_shard_offset_map: ShardOffsetMap,
        revision: Revision,
    ) -> (record: Self)
        ensures
            record@ == (RecordView {
                acc: acc_shard_offset_map@,
                tx: tx_shard_offset_map@,
                revision,
            }),
    {
        ConsumerOffsetRecord { acc_shard_offset_map, tx_shard_offset_map, revision }
    }

    pub fn revision(&self) -> (revision: Revision)
        ensures
            revision == self@.revision,
    {
        self.revision
    }

    pub fn acc_shard_offset_map(&self) -> (map: &ShardOffsetMap)
        ensures
            map@ == self@.acc,
    {
        &self.acc_shard_offset_map
    }

    pub fn tx_shard_offset_map(&self) -> (map: &ShardOffsetMap)
        ensures
            map@ == self@.tx,
    {
        &self.tx_shard_offset_map
    }

    /// Tries a conditional write on the row and says whether it was
    /// applied: it is exactly when the row's revision is strictly below
    /// the write's; a write that is not applied leaves the row as it was.
    pub fn apply(&mut self, commit: &OffsetCommit) -> (applied: bool)
        ensures
            applied == (old(self)@.revision < commit.revision),
            final(self)@ == old(self)@.written(commit@),
    {
        if self.revision < commit.revision {
            self.acc_shard_offset_map = commit.acc_shard_offset_map.clone();
            self.tx_shard_offset_map = commit.tx_shard_offset_map.clone();
            self.revision = commit.revision;
            true
        } else {
            false
        }
    }
}

/// A write whose token is not above the row's revision changes nothing.
pub proof fn law_stale_write_is_dropped(row: RecordView, commit: OffsetCommitView)
    requires
        commit.revision <= row.revision,
    ensures
        row.written(commit) == row,
{
}

/// Writing the same commit twice leaves the row as writing it once.
pub proof fn law_same_token_twice(row: RecordView, commit: OffsetCommitView)
    ensures
        row.written(commit).written(commit) == row.written(commit),
{
}

/// The revision of a row never falls, whatever is written to it.
pub proof fn law_revision_never_falls(row: RecordView, commits: Seq<OffsetCommitView>)
    ensures
        row.written_all(commits).revision >= row.revision,
    decreases commits.len(),
{
    if commits.len() > 0 {
        law_revision_never_falls(row, commits.drop_last());
    }
}

/// Once a consumer has tried a write with some token, no write with a
/// lower token is ever applied again, whatever was written in between: a
/// consumer whose tokens all lie below those of its successor leaves no
/// trace after the successor's first write.
pub proof fn law_fenced_writer_leaves_no_trace(
    row: RecordView,
    fresh: OffsetCommitView,
    between: Seq<OffsetCommitView>,
    stale: OffsetCommitView,
)
    requires
        stale.revision < fresh.revision,
    ensures
        ({
            let reached = row.written(fresh).written_all(between);
            &&& reached.revision >= fresh.revision
            &&& reached.written(stale) == reached
        }),
{
    law_revision_never_falls(row.written(fresh), between);
}

/// Writes tried in rising order of token are all applied, and the row
/// ends as the last of them says.
pub proof fn law_rising_tokens_all_apply(row: RecordView, commits: Seq<OffsetCommitView>)
    requires
        commits.len() > 0,
        row.revision < commits[0].revision,
        forall|i: int, j: int|
            0 <= i < j < commits.len() ==> (#[trigger] commits[i]).revision < (
            #[trigger] commits[j]).revision,
    ensures
        row.written_all(commits) == (RecordView {
            acc: commits.last().acc,
            tx: commits.last().tx,
            revision: commits.last().revision,
        }),
    decreases commits.len(),
{
    let init = commits.drop_last();
    if commits.len() > 1 {
        law_rising_tokens_all_apply(row, init);
        assert(init.last() == commits[commits.len() - 2]);
        assert(commits[commits.len() - 2].revision < commits[commits.len() - 1].revision);
    } else {
        assert(row.written_all(init) == row);
        assert(commits.last() == commits[0]);
    }
}

} // verus!
