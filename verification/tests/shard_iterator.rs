use consumer_group::shard_iterator::{FetchRequest, ShardIterator, ShardIteratorError};
use consumer_group::types::{
    entries, record, BlockchainEvent, BlockchainEventType, ShardOffsetMap, UNDEFINED_SLOT,
};

fn account_event(shard_id: i16, offset: i64, slot: i64) -> BlockchainEvent {
    BlockchainEvent {
        shard_id,
        offset,
        slot,
        event_type: BlockchainEventType::AccountUpdate,
        payload: vec![offset as u8],
    }
}

#[test]
fn fresh_iterator_reads_after_its_offset() {
    let it = ShardIterator::new(1, 3, 40, 7, BlockchainEventType::AccountUpdate);
    assert_eq!(it.producer_id(), 1);
    assert_eq!(it.shard_id(), 3);
    assert_eq!(it.last_offset(), 40);
    assert_eq!(it.last_slot(), 7);
    assert_eq!(it.event_type(), BlockchainEventType::AccountUpdate);
    assert_eq!(it.buffered_len(), 0);
    assert_eq!(
        it.warm(),
        FetchRequest {
            producer_id: 1,
            shard_id: 3,
            event_type: BlockchainEventType::AccountUpdate,
            after_offset: 40,
        }
    );
}

#[test]
fn try_next_on_empty_partition_is_none_and_keeps_the_cursor() {
    let mut it = ShardIterator::new(1, 3, 40, 7, BlockchainEventType::AccountUpdate);
    assert_eq!(it.try_next(), None);
    assert_eq!(it.last_offset(), 40);
    assert_eq!(it.last_slot(), 7);
}

#[test]
fn rows_come_out_in_order_and_move_the_cursor() {
    let mut it = ShardIterator::new(1, 3, 0, UNDEFINED_SLOT, BlockchainEventType::AccountUpdate);
    assert_eq!(it.supply(vec![account_event(3, 1, 10), account_event(3, 2, 11)]), Ok(()));
    assert_eq!(it.buffered_len(), 2);
    assert_eq!(it.last_offset(), 0);
    assert_eq!(it.try_next(), Some(account_event(3, 1, 10)));
    assert_eq!((it.last_offset(), it.last_slot()), (1, 10));
    assert_eq!(it.try_next(), Some(account_event(3, 2, 11)));
    assert_eq!((it.last_offset(), it.last_slot()), (2, 11));
    assert_eq!(it.try_next(), None);
    assert_eq!((it.last_offset(), it.last_slot()), (2, 11));
}

#[test]
fn next_read_follows_the_rows_read_ahead() {
    let mut it = ShardIterator::new(1, 3, 0, UNDEFINED_SLOT, BlockchainEventType::AccountUpdate);
    assert_eq!(it.supply(vec![account_event(3, 5, 10), account_event(3, 9, 10)]), Ok(()));
    assert_eq!(it.warm().after_offset, 9);
    assert_eq!(it.supply(vec![account_event(3, 12, 10)]), Ok(()));
    assert_eq!(it.warm().after_offset, 12);
    assert_eq!(it.buffered_len(), 3);
    assert_eq!(it.try_next().map(|e| e.offset), Some(5));
    assert_eq!(it.try_next().map(|e| e.offset), Some(9));
    assert_eq!(it.try_next().map(|e| e.offset), Some(12));
}

#[test]
fn row_of_another_shard_is_refused() {
    let mut it = ShardIterator::new(1, 3, 0, UNDEFINED_SLOT, BlockchainEventType::AccountUpdate);
    let outcome = it.supply(vec![account_event(3, 1, 10), account_event(4, 2, 10)]);
    assert_eq!(outcome, Err(ShardIteratorError::ForeignRow(1)));
    assert_eq!(it.buffered_len(), 0);
    assert_eq!(it.try_next(), None);
}

#[test]
fn row_of_another_event_type_is_refused() {
    let mut it = ShardIterator::new(1, 3, 0, UNDEFINED_SLOT, BlockchainEventType::NewTransaction);
    let outcome = it.supply(vec![account_event(3, 1, 10)]);
    assert_eq!(outcome, Err(ShardIteratorError::ForeignRow(0)));
}

#[test]
fn row_at_the_cursor_offset_is_refused() {
    let mut it = ShardIterator::new(1, 3, 2, 11, BlockchainEventType::AccountUpdate);
    assert_eq!(it.supply(vec![account_event(3, 2, 11)]), Err(ShardIteratorError::OutOfOrder(0)));
    assert_eq!(it.supply(vec![account_event(3, 3, 11)]), Ok(()));
}

#[test]
fn offsets_that_do_not_rise_are_refused() {
    let mut it = ShardIterator::new(1, 3, 0, UNDEFINED_SLOT, BlockchainEventType::AccountUpdate);
    let outcome = it.supply(vec![account_event(3, 4, 10), account_event(3, 4, 10)]);
    assert_eq!(outcome, Err(ShardIteratorError::OutOfOrder(1)));
    assert_eq!(it.buffered_len(), 0);
}

#[test]
fn slot_that_falls_is_refused() {
    let mut it = ShardIterator::new(1, 3, 0, 10, BlockchainEventType::AccountUpdate);
    assert_eq!(it.supply(vec![account_event(3, 1, 9)]), Err(ShardIteratorError::OutOfOrder(0)));
    let outcome = it.supply(vec![account_event(3, 1, 10), account_event(3, 2, 9)]);
    assert_eq!(outcome, Err(ShardIteratorError::OutOfOrder(1)));
}

#[test]
fn rows_behind_buffered_rows_must_follow_them() {
    let mut it = ShardIterator::new(1, 3, 0, UNDEFINED_SLOT, BlockchainEventType::AccountUpdate);
    assert_eq!(it.supply(vec![account_event(3, 5, 10)]), Ok(()));
    assert_eq!(it.supply(vec![account_event(3, 5, 10)]), Err(ShardIteratorError::OutOfOrder(0)));
    assert_eq!(it.supply(vec![account_event(3, 3, 10)]), Err(ShardIteratorError::OutOfOrder(0)));
    assert_eq!(it.buffered_len(), 1);
}

#[test]
fn returned_offsets_rise_strictly_and_slots_never_fall() {
    let mut it = ShardIterator::new(1, 0, 0, UNDEFINED_SLOT, BlockchainEventType::AccountUpdate);
    let rows: Vec<BlockchainEvent> =
        vec![(1, 5), (2, 5), (7, 6), (8, 6), (20, 9)].into_iter().map(|(o, s)| account_event(0, o, s)).collect();
    assert_eq!(it.supply(rows), Ok(()));
    let mut last = (it.last_offset(), it.last_slot());
    let mut count = 0;
    while let Some(event) = it.try_next() {
        assert!(event.offset > last.0);
        assert!(event.slot >= last.1);
        assert_eq!((it.last_offset(), it.last_slot()), (event.offset, event.slot));
        last = (event.offset, event.slot);
        count += 1;
    }
    assert_eq!(count, 5);
}

#[test]
fn offset_map_helpers() {
    let mut map = ShardOffsetMap::new();
    record(&mut map, 4, 10, 2);
    record(&mut map, 1, 7, 1);
    record(&mut map, 4, 11, 3);
    assert_eq!(map.get(&4), Some(&(11, 3)));
    assert_eq!(map.get(&1), Some(&(7, 1)));
    assert_eq!(map.get(&2), None);
    let mut listed = entries(&map);
    listed.sort();
    assert_eq!(listed, vec![(1, 7, 1), (4, 11, 3)]);
}

#[test]
fn reads_of_any_size_hand_out_the_log_in_order() {
    let log: Vec<BlockchainEvent> = (1..=7).map(|o| account_event(2, o * 3, o / 2)).collect();
    for batch in 1..=8 {
        let mut it = ShardIterator::new(1, 2, 0, UNDEFINED_SLOT, BlockchainEventType::AccountUpdate);
        let mut handed_out = Vec::new();
        for turn in 0..log.len() {
            if it.buffered_len() == 0 {
                let after = it.warm().after_offset;
                let rows: Vec<BlockchainEvent> =
                    log.iter().filter(|e| e.offset > after).take(batch).cloned().collect();
                assert_eq!(it.supply(rows), Ok(()));
            }
            let next = it.try_next().unwrap();
            assert_eq!(next, log[turn]);
            handed_out.push(next);
        }
        assert_eq!(handed_out, log);
        assert_eq!(it.try_next(), None);
    }
}
