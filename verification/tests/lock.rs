use consumer_group::commit::{ConsumerOffsetRecord, OffsetCommit};
use consumer_group::coordinator::{
    ConsumerGroupCoordinator, ConsumerGroupCoordinatorBackend, CoordinatorEffect, CoordinatorError,
    CoordinatorEvent, LockOutcome,
};
use consumer_group::lock::{ConsumerLocker, LockError};
use consumer_group::types::ShardOffsetMap;

#[test]
fn first_to_ask_gets_the_slot_and_the_others_are_refused() {
    let mut locker = ConsumerLocker::new();
    let consumer = "c1".to_string();
    let lock = locker.try_lock_instance_id(7, &consumer).unwrap();
    assert_eq!((lock.consumer_group_id, lock.consumer_id.as_str(), lock.lease), (7, "c1", 1));
    assert!(locker.is_locked(7, &consumer));
    for _ in 0..3 {
        assert_eq!(locker.try_lock_instance_id(7, &consumer), Err(LockError::AlreadyHeld));
    }
    assert_eq!(locker.revision(), 1);
}

#[test]
fn slots_of_other_consumers_and_groups_are_free() {
    let mut locker = ConsumerLocker::new();
    assert!(locker.try_lock_instance_id(7, &"c1".to_string()).is_ok());
    assert!(locker.try_lock_instance_id(7, &"c2".to_string()).is_ok());
    assert!(locker.try_lock_instance_id(8, &"c1".to_string()).is_ok());
    assert!(!locker.is_locked(8, &"c2".to_string()));
    assert_eq!(locker.try_lock_instance_id(8, &"c1".to_string()), Err(LockError::AlreadyHeld));
}

#[test]
fn fencing_tokens_rise_strictly() {
    let mut locker = ConsumerLocker::new();
    let lock = locker.try_lock_instance_id(7, &"c1".to_string()).unwrap();
    let other = locker.try_lock_instance_id(7, &"c2".to_string()).unwrap();
    let mut last = lock.lease;
    for turn in 0..6 {
        let token =
            locker.generate_fencing_token(if turn % 2 == 0 { &lock } else { &other }).unwrap();
        assert!(token > last);
        last = token;
    }
    assert_eq!(last, 8);
    assert_eq!(locker.revision(), 8);
}

#[test]
fn released_lock_frees_its_slot_and_gives_no_token() {
    let mut locker = ConsumerLocker::new();
    let consumer = "c1".to_string();
    let first = locker.try_lock_instance_id(7, &consumer).unwrap();
    let other = locker.try_lock_instance_id(7, &"c2".to_string()).unwrap();
    assert_eq!(locker.generate_fencing_token(&first), Ok(3));
    locker.release(&first);
    assert!(!locker.is_locked(7, &consumer));
    assert_eq!(locker.generate_fencing_token(&first), Err(LockError::LeaseLost));
    assert_eq!(locker.generate_fencing_token(&other), Ok(4));
    let second = locker.try_lock_instance_id(7, &consumer).unwrap();
    assert_eq!(second.lease, 5);
    assert_eq!(locker.generate_fencing_token(&first), Err(LockError::LeaseLost));
    assert_eq!(locker.generate_fencing_token(&second), Ok(6));
    locker.release(&first);
    assert!(locker.is_locked(7, &consumer));
}

fn commit(revision: i64, offset: i64) -> OffsetCommit {
    OffsetCommit {
        consumer_group_id: 7,
        consumer_id: "c1".to_string(),
        execution_id: vec![1],
        acc_shard_offset_map: [(0, (offset, 1))].into_iter().collect(),
        tx_shard_offset_map: ShardOffsetMap::new(),
        revision,
    }
}

#[test]
fn successor_fences_the_holder_it_replaced() {
    let mut locker = ConsumerLocker::new();
    let mut record = ConsumerOffsetRecord::new(ShardOffsetMap::new(), ShardOffsetMap::new(), 0);
    let consumer = "c1".to_string();

    let s1 = locker.try_lock_instance_id(7, &consumer).unwrap();
    let stale = locker.generate_fencing_token(&s1).unwrap();
    assert!(record.apply(&commit(stale, 10)));
    let late = locker.generate_fencing_token(&s1).unwrap();

    locker.release(&s1);
    let s2 = locker.try_lock_instance_id(7, &consumer).unwrap();
    let fresh = locker.generate_fencing_token(&s2).unwrap();
    assert!(fresh > late);
    assert!(record.apply(&commit(fresh, 20)));

    assert!(!record.apply(&commit(late, 11)));
    assert_eq!(record.revision(), fresh);
    assert_eq!(record.acc_shard_offset_map().get(&0), Some(&(20, 1)));
}

#[test]
fn joins_of_one_slot_end_with_one_permit() {
    let mut locker = ConsumerLocker::new();
    let (_client, mut backend) = ConsumerGroupCoordinatorBackend::spawn();
    let mut permits = 0;
    let mut contended = 0;
    for _ in 0..5 {
        let mut effects = backend.run(CoordinatorEvent::Command(
            ConsumerGroupCoordinator.try_join_consumer_group(7, "c1".to_string(), None),
        ));
        while let Some(effect) = effects.pop() {
            let answer = match effect {
                CoordinatorEffect::TryLock { consumer_group_id, consumer_id } => {
                    CoordinatorEvent::Lock(match locker.try_lock_instance_id(consumer_group_id, &consumer_id) {
                        Ok(_) => LockOutcome::Acquired,
                        Err(LockError::AlreadyHeld) => LockOutcome::AlreadyHeld,
                        Err(_) => LockOutcome::Failed,
                    })
                }
                CoordinatorEffect::WatchLeaderElection { .. } => CoordinatorEvent::ElectionWatch(true),
                CoordinatorEffect::WatchLeaderState { .. } => CoordinatorEvent::StateWatch(true),
                CoordinatorEffect::ObserveLeader { .. } => CoordinatorEvent::LeaderObserved(true),
                CoordinatorEffect::IssuePermit(_) => {
                    permits += 1;
                    CoordinatorEvent::Supervisor(true)
                }
                CoordinatorEffect::ReplyJoin(CoordinatorError::LockContended) => {
                    contended += 1;
                    continue;
                }
                other => panic!("unexpected {:?}", other),
            };
            effects = backend.run(answer);
        }
    }
    assert_eq!((permits, contended), (1, 4));
    assert_eq!(backend.consumer_count(), 1);
}
