//! Identifiers and records shared by every component.

use std::collections::BTreeMap;
use vstd::std_specs::iter::IteratorSpec;
use vstd::prelude::*;

verus! {

/// Identifier of a consumer group.
pub type ConsumerGroupId = u128;

/// Name of one member of a consumer group.
pub type ConsumerId = String;

/// Identifier of the producer that feeds the log.
pub type ProducerId = u8;

/// Identifier of one partition of the log.
pub type ShardId = i16;

/// Position of an event inside its partition.
pub type ShardOffset = i64;

/// Position of an event on the chain.
pub type Slot = i64;

/// Identifier of one run of a group under a single plan.
pub type ExecutionId = Vec<u8>;

/// Revision handed out by the coordination store; it fences durable writes.
pub type Revision = i64;

/// Last position reached on each shard.
pub type ShardOffsetMap = BTreeMap<ShardId, (ShardOffset, Slot)>;

/// Slot of a cursor that has seen no event yet.
pub const UNDEFINED_SLOT: Slot = -1;

/// The kinds of event that a group can subscribe to.
#[derive(Clone, Copy, Debug, PartialEq, Eq, Structural, Hash)]
pub enum BlockchainEventType {
    AccountUpdate,
    NewTransaction,
}

/// One record of the log.
#[derive(Clone, Debug, PartialEq, Eq)]
pub struct BlockchainEvent {
    pub shard_id: ShardId,
    pub offset: ShardOffset,
    pub slot: Slot,
    pub event_type: BlockchainEventType,
    pub payload: Vec<u8>,
}

/// Records the position reached on a shard, in place of an earlier one.
pub fn record(map: &mut ShardOffsetMap, shard_id: ShardId, offset: ShardOffset, slot: Slot)
    ensures
        final(map)@ == old(map)@.insert(shard_id, (offset, slot)),
{
    broadcast use vstd::std_specs::btree::group_btree_axioms;
    broadcast use vstd::laws_cmp::group_laws_cmp;

    map.insert(shard_id, (offset, slot));
}

/// Lists the entries of an offset map, each shard once.
pub fn entries(map: &ShardOffsetMap) -> (listed: Vec<(ShardId, ShardOffset, Slot)>)
    ensures
        listed@.len() == map@.dom().len(),
        forall|i: int|
            0 <= i < listed@.len() ==> map@.contains_key(#[trigger] listed@[i].0)
                && map@[listed@[i].0] == (listed@[i].1, listed@[i].2),
        forall|k: ShardId|
            map@.contains_key(k) ==> exists|i: int|
                0 <= i < listed@.len() && #[trigger] listed@[i].0 == k,
        forall|i: int, j: int|
            0 <= i < j < listed@.len() ==> #[trigger] listed@[i].0 != #[trigger] listed@[j].0,
{
    broadcast use vstd::std_specs::btree::group_btree_axioms;
    broadcast use vstd::laws_cmp::group_laws_cmp;

    let mut listed: Vec<(ShardId, ShardOffset, Slot)> = Vec::new();
    for entry in it: map.iter()
        invariant
            it.seq().no_duplicates(),
            listed@.len() == it.index(),
            forall|i: int|
                0 <= i < listed@.len() ==> listed@[i].0 == *it.seq()[i].0 && (
                listed@[i].1,
                listed@[i].2,
                ) == *it.seq()[i].1,
            forall|i: int, j: int|
                0 <= i < j < listed@.len() ==> #[trigger] listed@[i].0 != #[trigger] listed@[j].0,
    {
        let (shard_id, position) = entry;
        proof {
            let at = it.index() - 1;
            assert forall|i: int| 0 <= i < listed@.len() implies listed@[i].0 != *shard_id by {
                if listed@[i].0 == *shard_id {
                    assert(map@.contains_key(*it.seq()[i].0));
                    assert(map@[*it.seq()[i].0] == *it.seq()[i].1);
                    assert(map@.contains_key(*it.seq()[at].0));
                    assert(map@[*it.seq()[at].0] == *it.seq()[at].1);
                    assert(it.seq()[i] == it.seq()[at]);
                }
            }
        }
        listed.push((*shard_id, position.0, position.1));
    }
    listed
}

} // verus!
