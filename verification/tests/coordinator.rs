use consumer_group::consumer_source::{ConsumerContext, SourceError};
use consumer_group::coordinator::{
    CommitmentLevel, ConsumerGroupCoordinator, ConsumerGroupCoordinatorBackend,
    ConsumerSourceSupervisorHandle, CoordinatorCommand, CoordinatorEffect, CoordinatorError,
    CoordinatorEvent, CreateConsumerGroupArgs, ElectionOutcome, GroupCreation, JoinGroupArgs,
    JoinPermit, LockOutcome, SeekLocation,
};
use consumer_group::shard_iterator::ShardFilter;
use consumer_group::types::{BlockchainEventType, ShardOffsetMap};

fn join(group: u128, consumer: &str) -> CoordinatorEvent {
    CoordinatorEvent::Command(ConsumerGroupCoordinator.try_join_consumer_group(
        group,
        consumer.to_string(),
        None,
    ))
}

fn permit(group: u128, consumer: &str) -> CoordinatorEffect {
    CoordinatorEffect::IssuePermit(JoinPermit {
        consumer_group_id: group,
        consumer_id: consumer.to_string(),
        filter: None,
    })
}

/// Joins a consumer to a group whose watches do not exist yet.
fn join_first(backend: &mut ConsumerGroupCoordinatorBackend, group: u128, consumer: &str, has_leader: bool) -> Vec<CoordinatorEffect> {
    assert_eq!(
        backend.run(join(group, consumer)),
        vec![CoordinatorEffect::TryLock { consumer_group_id: group, consumer_id: consumer.to_string() }]
    );
    assert_eq!(
        backend.run(CoordinatorEvent::Lock(LockOutcome::Acquired)),
        vec![CoordinatorEffect::WatchLeaderElection { consumer_group_id: group }]
    );
    assert_eq!(
        backend.run(CoordinatorEvent::ElectionWatch(true)),
        vec![CoordinatorEffect::WatchLeaderState { consumer_group_id: group }]
    );
    assert_eq!(
        backend.run(CoordinatorEvent::StateWatch(true)),
        vec![CoordinatorEffect::ObserveLeader { consumer_group_id: group }]
    );
    let effects = backend.run(CoordinatorEvent::LeaderObserved(has_leader));
    assert_eq!(backend.run(CoordinatorEvent::Supervisor(true)), vec![]);
    effects
}

#[test]
fn new_coordinator_is_idle_and_empty() {
    let (_client, backend) = ConsumerGroupCoordinatorBackend::spawn();
    assert!(backend.is_idle());
    assert!(!backend.has_election(1));
    assert!(!backend.has_leader(1));
    assert_eq!(backend.consumer_count(), 0);
}

#[test]
fn client_words_the_commands() {
    let client = ConsumerGroupCoordinator;
    assert_eq!(
        client.create_consumer_group(
            SeekLocation::Latest,
            vec![BlockchainEventType::NewTransaction],
            vec!["a".to_string(), "b".to_string()],
            CommitmentLevel::Confirmed,
            Some("10.0.0.1".to_string()),
        ),
        CoordinatorCommand::CreateConsumerGroup(CreateConsumerGroupArgs {
            seek_loc: SeekLocation::Latest,
            subscribed_blockchain_events: vec![BlockchainEventType::NewTransaction],
            commitment_level: CommitmentLevel::Confirmed,
            consumer_id_list: vec!["a".to_string(), "b".to_string()],
            requestor_ipaddr: Some("10.0.0.1".to_string()),
        })
    );
    assert_eq!(
        client.try_join_consumer_group(5, "a".to_string(), Some(ShardFilter::default())),
        CoordinatorCommand::JoinGroup(JoinGroupArgs {
            consumer_group_id: 5,
            consumer_id: "a".to_string(),
            filter: Some(ShardFilter::default()),
        })
    );
}

#[test]
fn first_join_starts_an_election_and_issues_a_permit() {
    let (_client, mut backend) = ConsumerGroupCoordinatorBackend::spawn();
    let effects = join_first(&mut backend, 5, "a", false);
    assert_eq!(effects, vec![CoordinatorEffect::StartElection { consumer_group_id: 5 }, permit(5, "a")]);
    assert!(backend.has_election(5));
    assert!(backend.is_idle());
    assert_eq!(
        backend.consumer_handles(),
        &vec![ConsumerSourceSupervisorHandle { consumer_group_id: 5, consumer_id: "a".to_string() }]
    );
}

#[test]
fn second_join_shares_the_watches_and_the_election() {
    let (_client, mut backend) = ConsumerGroupCoordinatorBackend::spawn();
    join_first(&mut backend, 5, "a", false);
    backend.run(join(5, "b"));
    assert_eq!(
        backend.run(CoordinatorEvent::Lock(LockOutcome::Acquired)),
        vec![CoordinatorEffect::ObserveLeader { consumer_group_id: 5 }]
    );
    assert_eq!(backend.run(CoordinatorEvent::LeaderObserved(false)), vec![permit(5, "b")]);
    assert_eq!(backend.run(CoordinatorEvent::Supervisor(true)), vec![]);
    assert_eq!(backend.consumer_count(), 2);
}

#[test]
fn join_of_a_group_with_a_leader_starts_no_election() {
    let (_client, mut backend) = ConsumerGroupCoordinatorBackend::spawn();
    let effects = join_first(&mut backend, 5, "a", true);
    assert_eq!(effects, vec![permit(5, "a")]);
    assert!(!backend.has_election(5));
}

#[test]
fn contended_lock_fails_the_join() {
    let (_client, mut backend) = ConsumerGroupCoordinatorBackend::spawn();
    backend.run(join(5, "a"));
    assert_eq!(
        backend.run(CoordinatorEvent::Lock(LockOutcome::AlreadyHeld)),
        vec![CoordinatorEffect::ReplyJoin(CoordinatorError::LockContended)]
    );
    assert!(backend.is_idle());
    assert_eq!(backend.consumer_count(), 0);
    assert!(!backend.has_election(5));
}

#[test]
fn only_the_lock_holder_of_concurrent_joins_gets_a_permit() {
    let (_client, mut backend) = ConsumerGroupCoordinatorBackend::spawn();
    let mut permits = 0;
    let mut contended = 0;
    for attempt in 0..4 {
        backend.run(join(5, "a"));
        let outcome = if attempt == 0 { LockOutcome::Acquired } else { LockOutcome::AlreadyHeld };
        let mut effects = backend.run(CoordinatorEvent::Lock(outcome));
        loop {
            let next = match effects.last() {
                Some(CoordinatorEffect::WatchLeaderElection { .. }) => CoordinatorEvent::ElectionWatch(true),
                Some(CoordinatorEffect::WatchLeaderState { .. }) => CoordinatorEvent::StateWatch(true),
                Some(CoordinatorEffect::ObserveLeader { .. }) => CoordinatorEvent::LeaderObserved(true),
                Some(CoordinatorEffect::IssuePermit(_)) => {
                    permits += 1;
                    CoordinatorEvent::Supervisor(true)
                }
                Some(CoordinatorEffect::ReplyJoin(CoordinatorError::LockContended)) => {
                    contended += 1;
                    break;
                }
                _ => break,
            };
            effects = backend.run(next);
        }
    }
    assert_eq!(permits, 1);
    assert_eq!(contended, 3);
    assert_eq!(backend.consumer_count(), 1);
}

#[test]
fn failed_lock_attempt_is_a_coordination_error() {
    let (_client, mut backend) = ConsumerGroupCoordinatorBackend::spawn();
    backend.run(join(5, "a"));
    assert_eq!(
        backend.run(CoordinatorEvent::Lock(LockOutcome::Failed)),
        vec![CoordinatorEffect::ReplyJoin(CoordinatorError::CoordError)]
    );
}

#[test]
fn failed_watch_releases_the_lock() {
    let (_client, mut backend) = ConsumerGroupCoordinatorBackend::spawn();
    backend.run(join(5, "a"));
    backend.run(CoordinatorEvent::Lock(LockOutcome::Acquired));
    assert_eq!(
        backend.run(CoordinatorEvent::ElectionWatch(false)),
        vec![
            CoordinatorEffect::ReleaseLock { consumer_group_id: 5, consumer_id: "a".to_string() },
            CoordinatorEffect::ReplyJoin(CoordinatorError::CoordError),
        ]
    );
    assert!(backend.is_idle());

    backend.run(join(5, "a"));
    backend.run(CoordinatorEvent::Lock(LockOutcome::Acquired));
    backend.run(CoordinatorEvent::ElectionWatch(true));
    assert_eq!(
        backend.run(CoordinatorEvent::StateWatch(false)),
        vec![
            CoordinatorEffect::ReleaseLock { consumer_group_id: 5, consumer_id: "a".to_string() },
            CoordinatorEffect::ReplyJoin(CoordinatorError::CoordError),
        ]
    );
    backend.run(join(5, "a"));
    assert_eq!(
        backend.run(CoordinatorEvent::Lock(LockOutcome::Acquired)),
        vec![CoordinatorEffect::WatchLeaderState { consumer_group_id: 5 }]
    );
}

#[test]
fn unused_permit_registers_no_supervisor() {
    let (_client, mut backend) = ConsumerGroupCoordinatorBackend::spawn();
    backend.run(join(5, "a"));
    backend.run(CoordinatorEvent::Lock(LockOutcome::Acquired));
    backend.run(CoordinatorEvent::ElectionWatch(true));
    backend.run(CoordinatorEvent::StateWatch(true));
    backend.run(CoordinatorEvent::LeaderObserved(true));
    assert_eq!(backend.run(CoordinatorEvent::Supervisor(false)), vec![]);
    assert_eq!(backend.consumer_count(), 0);
    assert!(backend.is_idle());
}

#[test]
fn leader_loss_is_followed_by_a_new_election_and_leader() {
    let (_client, mut backend) = ConsumerGroupCoordinatorBackend::spawn();
    join_first(&mut backend, 5, "a", false);
    assert_eq!(
        backend.run(CoordinatorEvent::Election(5, ElectionOutcome::Won)),
        vec![CoordinatorEffect::StartLeader { consumer_group_id: 5 }]
    );
    assert!(backend.has_leader(5));
    assert!(!backend.has_election(5));

    // The leader stays registered while the new election is won.
    backend.run(join(5, "b"));
    backend.run(CoordinatorEvent::Lock(LockOutcome::Acquired));
    assert_eq!(
        backend.run(CoordinatorEvent::LeaderObserved(false)),
        vec![CoordinatorEffect::StartElection { consumer_group_id: 5 }, permit(5, "b")]
    );
    backend.run(CoordinatorEvent::Supervisor(true));
    assert_eq!(
        backend.run(CoordinatorEvent::Election(5, ElectionOutcome::Won)),
        vec![
            CoordinatorEffect::AbortLeader { consumer_group_id: 5 },
            CoordinatorEffect::StartLeader { consumer_group_id: 5 },
        ]
    );
    assert!(backend.has_leader(5));
}

#[test]
fn finished_leader_is_forgotten() {
    let (_client, mut backend) = ConsumerGroupCoordinatorBackend::spawn();
    backend.run(CoordinatorEvent::Election(5, ElectionOutcome::Won));
    assert_eq!(backend.run(CoordinatorEvent::LeaderFinished(5)), vec![]);
    assert!(!backend.has_leader(5));
    assert_eq!(
        backend.run(CoordinatorEvent::Election(5, ElectionOutcome::Won)),
        vec![CoordinatorEffect::StartLeader { consumer_group_id: 5 }]
    );
}

#[test]
fn lost_or_failed_election_is_forgotten() {
    let (_client, mut backend) = ConsumerGroupCoordinatorBackend::spawn();
    join_first(&mut backend, 5, "a", false);
    assert_eq!(backend.run(CoordinatorEvent::Election(5, ElectionOutcome::Lost)), vec![]);
    assert!(!backend.has_election(5));
    assert!(!backend.has_leader(5));
    join_first(&mut backend, 6, "a", false);
    assert_eq!(backend.run(CoordinatorEvent::Election(6, ElectionOutcome::Failed)), vec![]);
    assert!(!backend.has_election(6));
}

#[test]
fn finished_supervisor_leaves_the_list() {
    let (_client, mut backend) = ConsumerGroupCoordinatorBackend::spawn();
    join_first(&mut backend, 5, "a", true);
    join_first(&mut backend, 6, "b", true);
    join_first(&mut backend, 7, "c", true);
    assert_eq!(backend.run(CoordinatorEvent::ConsumerFinished(1)), vec![]);
    assert_eq!(
        backend.consumer_handles().iter().map(|h| h.consumer_id.clone()).collect::<Vec<_>>(),
        vec!["a".to_string(), "c".to_string()]
    );
    assert_eq!(backend.run(CoordinatorEvent::ConsumerFinished(0)), vec![]);
    assert_eq!(backend.consumer_count(), 1);
    assert_eq!(backend.run(CoordinatorEvent::ConsumerFinished(3)), vec![CoordinatorEffect::Refused]);
    assert_eq!(backend.consumer_count(), 1);
}

#[test]
fn coordinator_goes_on_after_a_supervisor_ended() {
    let (_client, mut backend) = ConsumerGroupCoordinatorBackend::spawn();
    join_first(&mut backend, 5, "a", true);
    join_first(&mut backend, 6, "b", true);
    assert_eq!(backend.run(CoordinatorEvent::ConsumerFinished(0)), vec![]);
    assert!(backend.is_idle());
    assert_eq!(
        backend.consumer_handles(),
        &vec![ConsumerSourceSupervisorHandle { consumer_group_id: 6, consumer_id: "b".to_string() }]
    );
    assert_eq!(
        backend.run(join(5, "c")),
        vec![CoordinatorEffect::TryLock { consumer_group_id: 5, consumer_id: "c".to_string() }]
    );
}

fn create(subscribed: Vec<BlockchainEventType>) -> CoordinatorEvent {
    CoordinatorEvent::Command(ConsumerGroupCoordinator.create_consumer_group(
        SeekLocation::Earliest,
        subscribed,
        vec!["a".to_string()],
        CommitmentLevel::Processed,
        None,
    ))
}

#[test]
fn created_group_gets_its_state_log_and_its_id_is_returned() {
    let (_client, mut backend) = ConsumerGroupCoordinatorBackend::spawn();
    let effects = backend.run(create(vec![BlockchainEventType::AccountUpdate]));
    assert!(matches!(effects.as_slice(), [CoordinatorEffect::CreateGroupRecord(_)]));
    assert_eq!(
        backend.run(CoordinatorEvent::GroupCreated(GroupCreation::Created(77))),
        vec![CoordinatorEffect::WriteStateLog { consumer_group_id: 77 }]
    );
    assert_eq!(
        backend.run(CoordinatorEvent::StateLog(true)),
        vec![CoordinatorEffect::ReplyCreate(Ok(77))]
    );
    assert!(backend.is_idle());
}

#[test]
fn group_without_event_type_is_a_config_error() {
    let (_client, mut backend) = ConsumerGroupCoordinatorBackend::spawn();
    assert_eq!(
        backend.run(create(vec![])),
        vec![CoordinatorEffect::ReplyCreate(Err(CoordinatorError::ConfigError))]
    );
    assert!(backend.is_idle());
}

#[test]
fn duplicate_group_and_failures_are_reported() {
    let (_client, mut backend) = ConsumerGroupCoordinatorBackend::spawn();
    backend.run(create(vec![BlockchainEventType::AccountUpdate]));
    assert_eq!(
        backend.run(CoordinatorEvent::GroupCreated(GroupCreation::AlreadyExists)),
        vec![CoordinatorEffect::ReplyCreate(Err(CoordinatorError::GroupAlreadyExists))]
    );
    backend.run(create(vec![BlockchainEventType::AccountUpdate]));
    assert_eq!(
        backend.run(CoordinatorEvent::GroupCreated(GroupCreation::Failed)),
        vec![CoordinatorEffect::ReplyCreate(Err(CoordinatorError::StoreError))]
    );
    backend.run(create(vec![BlockchainEventType::AccountUpdate]));
    backend.run(CoordinatorEvent::GroupCreated(GroupCreation::Created(3)));
    assert_eq!(
        backend.run(CoordinatorEvent::StateLog(false)),
        vec![CoordinatorEffect::ReplyCreate(Err(CoordinatorError::CoordError))]
    );
    assert!(backend.is_idle());
}

#[test]
fn events_out_of_turn_are_refused() {
    let (_client, mut backend) = ConsumerGroupCoordinatorBackend::spawn();
    assert_eq!(backend.run(CoordinatorEvent::Lock(LockOutcome::Acquired)), vec![CoordinatorEffect::Refused]);
    assert_eq!(backend.run(CoordinatorEvent::StateLog(true)), vec![CoordinatorEffect::Refused]);
    backend.run(join(5, "a"));
    assert_eq!(backend.run(join(5, "b")), vec![CoordinatorEffect::Refused]);
    assert_eq!(
        backend.run(CoordinatorEvent::Election(5, ElectionOutcome::Won)),
        vec![CoordinatorEffect::Refused]
    );
    assert!(!backend.has_leader(5));
    assert_eq!(
        backend.run(CoordinatorEvent::Lock(LockOutcome::AlreadyHeld)),
        vec![CoordinatorEffect::ReplyJoin(CoordinatorError::LockContended)]
    );
}

fn offsets(entries: &[(i16, i64, i64)]) -> ShardOffsetMap {
    entries.iter().map(|(shard, offset, slot)| (*shard, (*offset, *slot))).collect()
}

#[test]
fn permit_spawns_a_source_from_the_offsets_read() {
    let permit = JoinPermit {
        consumer_group_id: 5,
        consumer_id: "a".to_string(),
        filter: Some(ShardFilter { tx_account_keys: vec![vec![7]], account_owners: vec![], account_pubkeys: vec![] }),
    };
    let ctx = ConsumerContext {
        consumer_group_id: 5,
        consumer_id: "a".to_string(),
        producer_id: 1,
        execution_id: vec![1],
        subscribed_event_types: vec![BlockchainEventType::AccountUpdate, BlockchainEventType::NewTransaction],
    };
    let source = permit
        .spawn(
            ctx.clone(),
            vec![
                (BlockchainEventType::AccountUpdate, offsets(&[(0, 1, 1)])),
                (BlockchainEventType::NewTransaction, offsets(&[(0, 2, 2), (1, 3, 3)])),
                (BlockchainEventType::AccountUpdate, offsets(&[(4, 9, 9)])),
            ],
        )
        .unwrap();
    assert_eq!(source.get_shard_offset_map(BlockchainEventType::AccountUpdate), offsets(&[(4, 9, 9)]));
    assert_eq!(
        source.get_shard_offset_map(BlockchainEventType::NewTransaction),
        offsets(&[(0, 2, 2), (1, 3, 3)])
    );
    assert_eq!(source.shard_iterator_count(), 3);
    assert_eq!(source.context(), &ctx);
    assert_eq!(source.filter().as_ref().unwrap().tx_account_keys, vec![vec![7]]);
}

#[test]
fn permit_for_a_context_without_subscription_fails() {
    let permit = JoinPermit { consumer_group_id: 5, consumer_id: "a".to_string(), filter: None };
    let ctx = ConsumerContext {
        consumer_group_id: 5,
        consumer_id: "a".to_string(),
        producer_id: 1,
        execution_id: vec![1],
        subscribed_event_types: vec![],
    };
    assert!(matches!(permit.spawn(ctx, vec![]), Err(SourceError::NoEventSubscribed)));
}
