use consumer_group::commit::{ConsumerOffsetRecord, OffsetCommit};
use consumer_group::consumer_source::{
    ConsumerContext, ConsumerSource, FromBlockchainEvent, InterruptPoll, Interrupted,
    OffsetsByEventType, Phase, ShardOffsetRow, SlotReached, SourceAction, SourceError, SourceEvent,
    SourceNotes, SourceStep, CLIENT_LAG_WARN_THRESHOLD, DEFAULT_OFFSET_COMMIT_INTERVAL,
    FETCH_MICRO_BATCH_LATENCY_WARN_THRESHOLD, PRINT_CONSUMER_SLOT_REACH_DELAY,
};
use consumer_group::shard_iterator::{FetchRequest, ShardFilter};
use consumer_group::types::{BlockchainEvent, BlockchainEventType, ShardOffsetMap, UNDEFINED_SLOT};

const ACC: BlockchainEventType = BlockchainEventType::AccountUpdate;
const TX: BlockchainEventType = BlockchainEventType::NewTransaction;

fn event(event_type: BlockchainEventType, shard_id: i16, offset: i64, slot: i64) -> BlockchainEvent {
    BlockchainEvent { shard_id, offset, slot, event_type, payload: vec![shard_id as u8, offset as u8] }
}

fn context(subscribed: Vec<BlockchainEventType>) -> ConsumerContext {
    ConsumerContext {
        consumer_group_id: 42,
        consumer_id: "consumer-1".to_string(),
        producer_id: 9,
        execution_id: vec![0xAB, 0xCD],
        subscribed_event_types: subscribed,
    }
}

fn map_of(entries: &[(i16, i64, i64)]) -> ShardOffsetMap {
    entries.iter().map(|(shard, offset, slot)| (*shard, (*offset, *slot))).collect()
}

fn source(
    subscribed: Vec<BlockchainEventType>,
    acc: Option<&[(i16, i64, i64)]>,
    tx: Option<&[(i16, i64, i64)]>,
) -> ConsumerSource {
    ConsumerSource::new(
        context(subscribed),
        OffsetsByEventType { account_update: acc.map(map_of), new_transaction: tx.map(map_of) },
        None,
        None,
    )
    .unwrap()
}

fn patient_source(acc: &[(i16, i64, i64)]) -> ConsumerSource {
    ConsumerSource::new(
        context(vec![ACC]),
        OffsetsByEventType { account_update: Some(map_of(acc)), new_transaction: None },
        Some(1_000_000),
        None,
    )
    .unwrap()
}

fn no_notes() -> SourceNotes {
    SourceNotes { slow_fetch: None, slot_reached: None, slow_consumer: None }
}

fn read(log: &[BlockchainEvent], request: &FetchRequest) -> Vec<BlockchainEvent> {
    let mut rows: Vec<BlockchainEvent> = log
        .iter()
        .filter(|e| {
            e.shard_id == request.shard_id
                && e.event_type == request.event_type
                && e.offset > request.after_offset
        })
        .cloned()
        .collect();
    rows.sort_by_key(|e| e.offset);
    rows
}

struct Run {
    sent: Vec<BlockchainEvent>,
    commits: Vec<OffsetCommit>,
    result: Result<(), SourceError>,
}

/// Drives a source against a log and a durable row; the interrupt is
/// signalled at the poll with the given number, counted from one.
fn drive(
    source: &mut ConsumerSource,
    log: &[BlockchainEvent],
    record: &mut ConsumerOffsetRecord,
    token: i64,
    signal_at_poll: usize,
) -> Run {
    let mut run = Run { sent: Vec::new(), commits: Vec::new(), result: Ok(()) };
    let mut polls = 0;
    let mut step = source.start(0);
    for _ in 0..10_000 {
        step = match step.action {
            SourceAction::PollInterrupt => {
                polls += 1;
                let poll =
                    if polls >= signal_at_poll { InterruptPoll::Signalled } else { InterruptPoll::Empty };
                source.on_interrupt(poll, 1)
            }
            SourceAction::Fetch { index: _, request } => source.on_rows(Some(read(log, &request)), 1),
            SourceAction::Send(event) => {
                run.sent.push(event);
                source.on_sent(true, 0, 1)
            }
            SourceAction::GenerateToken => source.on_token(Some(token)),
            SourceAction::Commit(commit) => {
                let applied = record.apply(&commit);
                run.commits.push(commit);
                source.on_commit(Some(applied), 1)
            }
            SourceAction::Resume => source.on_resume(1),
            SourceAction::Stop(result) => {
                run.result = result;
                return run;
            }
        };
    }
    panic!("the source did not stop");
}

fn empty_record() -> ConsumerOffsetRecord {
    ConsumerOffsetRecord::new(ShardOffsetMap::new(), ShardOffsetMap::new(), 0)
}

#[test]
fn source_without_subscription_is_refused() {
    let made = ConsumerSource::new(
        context(vec![]),
        OffsetsByEventType { account_update: Some(map_of(&[(0, 0, 0)])), new_transaction: None },
        None,
        None,
    );
    assert!(matches!(made, Err(SourceError::NoEventSubscribed)));
}

#[test]
fn new_source_has_one_cursor_per_event_type_and_shard() {
    let s = source(vec![ACC, TX], Some(&[(0, 5, 1), (1, 6, 1)]), Some(&[(0, 7, 2)]));
    assert_eq!(s.shard_iterator_count(), 3);
    assert_eq!(s.phase(), Phase::Ready);
    assert_eq!(s.get_shard_offset_map(ACC), map_of(&[(0, 5, 1), (1, 6, 1)]));
    assert_eq!(s.get_shard_offset_map(TX), map_of(&[(0, 7, 2)]));
    assert_eq!(s.context(), &context(vec![ACC, TX]));
    assert_eq!(s.filter(), &None);
}

#[test]
fn new_source_keeps_its_filter_and_interval() {
    let filter = ShardFilter {
        tx_account_keys: vec![vec![1, 2]],
        account_owners: vec![],
        account_pubkeys: vec![vec![3]],
    };
    let mut s = ConsumerSource::new(
        context(vec![ACC]),
        OffsetsByEventType { account_update: None, new_transaction: None },
        Some(2_000),
        Some(filter.clone()),
    )
    .unwrap();
    assert_eq!(s.filter(), &Some(filter));
    s.start(100);
    assert_eq!(s.run_state().commit_deadline, 2_100);
}

#[test]
fn default_commit_interval_is_half_a_second() {
    assert_eq!(DEFAULT_OFFSET_COMMIT_INTERVAL, 500);
    assert_eq!(CLIENT_LAG_WARN_THRESHOLD, 250);
    assert_eq!(FETCH_MICRO_BATCH_LATENCY_WARN_THRESHOLD, 500);
    assert_eq!(PRINT_CONSUMER_SLOT_REACH_DELAY, 5_000);
    let mut s = source(vec![ACC], Some(&[(0, 0, UNDEFINED_SLOT)]), None);
    let step = s.start(1_000);
    assert_eq!(step, SourceStep { action: SourceAction::PollInterrupt, notes: no_notes() });
    let run = s.run_state();
    assert_eq!(run.commit_deadline, 1_500);
    assert_eq!(run.next_trace_schedule, 6_000);
    assert_eq!(run.last_progress, 1_000);
    assert_eq!(run.max_seen_slot, UNDEFINED_SLOT);
    assert_eq!(run.num_event_between_two_slots, 0);
    assert_eq!(run.phase, Phase::AwaitInterrupt);
}

#[test]
fn deadlines_saturate_at_the_end_of_the_clock() {
    let mut s = source(vec![ACC], Some(&[(0, 0, UNDEFINED_SLOT)]), None);
    s.start(u64::MAX - 3);
    assert_eq!(s.run_state().commit_deadline, u64::MAX);
    assert_eq!(s.run_state().next_trace_schedule, u64::MAX);
}

#[test]
fn single_shard_two_events_then_nothing_new() {
    let log = vec![event(ACC, 0, 1, 10), event(ACC, 0, 2, 11)];
    let mut record = empty_record();

    let mut first = source(vec![ACC], Some(&[(0, 0, UNDEFINED_SLOT)]), None);
    let run = drive(&mut first, &log, &mut record, 4, 3);
    assert_eq!(run.result, Ok(()));
    assert_eq!(run.sent, log);
    assert_eq!(run.commits.len(), 1);
    assert_eq!(run.commits[0].revision, 4);
    assert_eq!(run.commits[0].acc_shard_offset_map, map_of(&[(0, 2, 11)]));
    assert_eq!(record.revision(), 4);
    assert_eq!(record.acc_shard_offset_map(), &map_of(&[(0, 2, 11)]));

    let mut second = source(vec![ACC], Some(&[(0, 2, 11)]), None);
    let run = drive(&mut second, &log, &mut record, 5, 2);
    assert_eq!(run.result, Ok(()));
    assert_eq!(run.sent, vec![]);
    assert_eq!(record.acc_shard_offset_map(), &map_of(&[(0, 2, 11)]));
    assert_eq!(record.revision(), 5);
}

#[test]
fn restart_from_committed_offsets_delivers_the_rest_without_gaps() {
    let log: Vec<BlockchainEvent> = (1..=6).map(|o| event(ACC, 0, o, 10 + o)).collect();
    let mut record = empty_record();
    let mut first = source(vec![ACC], Some(&[(0, 0, UNDEFINED_SLOT)]), None);
    let run = drive(&mut first, &log, &mut record, 1, 4);
    assert_eq!(run.sent, log[..3].to_vec());
    assert_eq!(record.acc_shard_offset_map(), &map_of(&[(0, 3, 13)]));

    let mut second = source(vec![ACC], Some(&[(0, 3, 13)]), None);
    let run = drive(&mut second, &log, &mut record, 2, 4);
    assert_eq!(run.sent, log[3..].to_vec());
    assert_eq!(record.acc_shard_offset_map(), &map_of(&[(0, 6, 16)]));
}

#[test]
fn commit_race_fences_the_stale_source() {
    let log = vec![event(ACC, 0, 1, 10)];
    let mut record = empty_record();
    let mut s2 = source(vec![ACC], Some(&[(0, 0, UNDEFINED_SLOT)]), None);
    let run = drive(&mut s2, &log, &mut record, 7, 2);
    assert_eq!(run.result, Ok(()));
    assert_eq!(record.revision(), 7);

    let mut s1 = source(vec![ACC], Some(&[(0, 0, UNDEFINED_SLOT)]), None);
    let run = drive(&mut s1, &[], &mut record, 5, 1);
    assert_eq!(run.result, Err(SourceError::Fenced));
    assert_eq!(run.commits.len(), 1);
    assert_eq!(run.commits[0].revision, 5);
    assert_eq!(record.revision(), 7);
    assert_eq!(record.acc_shard_offset_map(), &map_of(&[(0, 1, 10)]));
    assert_eq!(s1.phase(), Phase::Done);
    assert_eq!(s1.on_token(Some(9)).action, SourceAction::Stop(Err(SourceError::OutOfTurn)));
}

#[test]
fn sink_stall_is_noted_and_no_event_is_lost() {
    let mut s = source(vec![ACC], Some(&[(0, 0, UNDEFINED_SLOT)]), None);
    s.start(0);
    let step = s.on_interrupt(InterruptPoll::Empty, 0);
    assert!(matches!(step.action, SourceAction::Fetch { index: 0, .. }));
    let step = s.on_rows(Some(vec![event(ACC, 0, 1, 10), event(ACC, 0, 2, 10)]), 1);
    assert_eq!(step.action, SourceAction::Send(event(ACC, 0, 1, 10)));
    let step = s.on_sent(true, 251, 252);
    assert_eq!(step.notes.slow_consumer, Some(251));
    assert_eq!(step.action, SourceAction::PollInterrupt);
    let step = s.on_interrupt(InterruptPoll::Empty, 253);
    assert_eq!(step.action, SourceAction::Send(event(ACC, 0, 2, 10)));
    let step = s.on_sent(true, 250, 503);
    assert_eq!(step.notes.slow_consumer, None);
    assert_eq!(s.run_state().num_event_between_two_slots, 2);
}

#[test]
fn two_event_types_give_two_maps() {
    let s = source(vec![ACC, TX], Some(&[(0, 5, 1)]), Some(&[(0, 8, 2)]));
    let commit = s.update_consumer_shard_offsets_v2(3);
    assert_eq!(commit.acc_shard_offset_map, map_of(&[(0, 5, 1)]));
    assert_eq!(commit.tx_shard_offset_map, map_of(&[(0, 8, 2)]));
    assert_eq!(commit.revision, 3);
    assert_eq!(commit.consumer_group_id, 42);
    assert_eq!(commit.consumer_id, "consumer-1");
    assert_eq!(commit.execution_id, vec![0xAB, 0xCD]);
}

#[test]
fn one_event_type_fills_both_maps_with_its_snapshot() {
    let s = source(vec![ACC], Some(&[(0, 5, 1), (3, 6, 1)]), None);
    let commit = s.update_consumer_shard_offsets_v2(3);
    assert_eq!(commit.acc_shard_offset_map, map_of(&[(0, 5, 1), (3, 6, 1)]));
    assert_eq!(commit.tx_shard_offset_map, commit.acc_shard_offset_map);

    let s = source(vec![TX], None, Some(&[(2, 9, 4)]));
    let commit = s.update_consumer_shard_offsets_v2(3);
    assert_eq!(commit.tx_shard_offset_map, map_of(&[(2, 9, 4)]));
    assert_eq!(commit.acc_shard_offset_map, map_of(&[(2, 9, 4)]));
}

#[test]
fn subscribed_type_without_cursors_gives_an_empty_map() {
    let s = source(vec![ACC, TX], Some(&[(0, 5, 1)]), None);
    let commit = s.update_consumer_shard_offsets_v2(1);
    assert_eq!(commit.acc_shard_offset_map, map_of(&[(0, 5, 1)]));
    assert_eq!(commit.tx_shard_offset_map, ShardOffsetMap::new());
}

#[test]
fn interrupt_mid_sweep_commits_what_was_delivered() {
    let log = vec![event(ACC, 0, 5, 20), event(ACC, 1, 10, 21)];
    let mut record = empty_record();
    let mut s = source(vec![ACC], Some(&[(0, 4, 19), (1, 9, 3)]), None);
    let run = drive(&mut s, &log, &mut record, 2, 2);
    assert_eq!(run.result, Ok(()));
    assert_eq!(run.sent.len(), 1);
    let delivered = run.sent[0].clone();
    let untouched = if delivered.shard_id == 0 { (1, 9, 3) } else { (0, 4, 19) };
    let mut expected = map_of(&[untouched]);
    expected.insert(delivered.shard_id, (delivered.offset, delivered.slot));
    assert_eq!(run.commits.len(), 1);
    assert_eq!(run.commits[0].acc_shard_offset_map, expected);
    assert_eq!(record.acc_shard_offset_map(), &expected);
}

#[test]
fn interrupt_leads_to_exactly_one_commit_and_no_send() {
    let mut s = source(vec![ACC], Some(&[(0, 0, UNDEFINED_SLOT)]), None);
    s.start(0);
    let step = s.on_interrupt(InterruptPoll::Signalled, 5);
    assert_eq!(step, SourceStep { action: SourceAction::GenerateToken, notes: no_notes() });
    assert!(s.run_state().stopping);
    let step = s.on_token(Some(11));
    let expected = s.update_consumer_shard_offsets_v2(11);
    assert_eq!(step.action, SourceAction::Commit(expected));
    let step = s.on_commit(Some(true), 6);
    assert_eq!(step.action, SourceAction::Stop(Ok(())));
    assert_eq!(s.phase(), Phase::Done);
    assert_eq!(s.on_interrupt(InterruptPoll::Empty, 7).action, SourceAction::Stop(Err(SourceError::OutOfTurn)));
    assert_eq!(s.phase(), Phase::Done);
}

#[test]
fn closed_interrupt_channel_is_an_orphan() {
    let mut s = source(vec![ACC], Some(&[(0, 0, UNDEFINED_SLOT)]), None);
    s.start(0);
    let step = s.on_interrupt(InterruptPoll::Closed, 1);
    assert_eq!(step.action, SourceAction::Stop(Err(SourceError::OrphanSource)));
    assert_eq!(s.phase(), Phase::Done);
}

#[test]
fn closed_sink_stops_the_source() {
    let mut s = source(vec![ACC], Some(&[(0, 0, UNDEFINED_SLOT)]), None);
    s.start(0);
    s.on_interrupt(InterruptPoll::Empty, 0);
    s.on_rows(Some(vec![event(ACC, 0, 1, 1)]), 0);
    let step = s.on_sent(false, 0, 1);
    assert_eq!(step.action, SourceAction::Stop(Err(SourceError::SinkClosed)));
}

#[test]
fn failed_read_and_bad_rows_are_store_errors() {
    let mut s = source(vec![ACC], Some(&[(0, 5, 1)]), None);
    s.start(0);
    s.on_interrupt(InterruptPoll::Empty, 0);
    assert_eq!(s.on_rows(None, 1).action, SourceAction::Stop(Err(SourceError::StoreError)));

    let mut s = source(vec![ACC], Some(&[(0, 5, 1)]), None);
    s.start(0);
    s.on_interrupt(InterruptPoll::Empty, 0);
    let step = s.on_rows(Some(vec![event(ACC, 0, 5, 1)]), 1);
    assert_eq!(step.action, SourceAction::Stop(Err(SourceError::StoreError)));
    assert_eq!(s.get_shard_offset_map(ACC), map_of(&[(0, 5, 1)]));
}

#[test]
fn missing_token_and_failed_write_stop_the_source() {
    let mut s = source(vec![ACC], Some(&[(0, 5, 1)]), None);
    s.start(0);
    s.on_interrupt(InterruptPoll::Signalled, 0);
    assert_eq!(s.on_token(None).action, SourceAction::Stop(Err(SourceError::CoordError)));

    let mut s = source(vec![ACC], Some(&[(0, 5, 1)]), None);
    s.start(0);
    s.on_interrupt(InterruptPoll::Signalled, 0);
    s.on_token(Some(1));
    assert_eq!(s.on_commit(None, 1).action, SourceAction::Stop(Err(SourceError::StoreError)));
}

#[test]
fn call_out_of_turn_changes_nothing() {
    let mut s = source(vec![ACC], Some(&[(0, 5, 1)]), None);
    let before = s.run_state();
    assert_eq!(s.on_sent(true, 0, 9).action, SourceAction::Stop(Err(SourceError::OutOfTurn)));
    assert_eq!(s.on_rows(Some(vec![]), 9).action, SourceAction::Stop(Err(SourceError::OutOfTurn)));
    assert_eq!(s.on_commit(Some(true), 9).action, SourceAction::Stop(Err(SourceError::OutOfTurn)));
    assert_eq!(s.on_resume(9).action, SourceAction::Stop(Err(SourceError::OutOfTurn)));
    assert_eq!(s.run_state(), before);
    assert_eq!(s.start(1).action, SourceAction::PollInterrupt);
    assert_eq!(s.start(2).action, SourceAction::Stop(Err(SourceError::OutOfTurn)));
}

#[test]
fn commit_is_due_only_after_the_deadline() {
    let mut s = source(vec![ACC], Some(&[(0, 0, UNDEFINED_SLOT)]), None);
    s.start(0);
    s.on_interrupt(InterruptPoll::Empty, 0);
    assert_eq!(s.on_rows(Some(vec![]), 500).action, SourceAction::PollInterrupt);
    s.on_interrupt(InterruptPoll::Empty, 500);
    assert_eq!(s.on_rows(Some(vec![]), 501).action, SourceAction::GenerateToken);
    assert!(!s.run_state().stopping);
    assert!(matches!(s.on_token(Some(1)).action, SourceAction::Commit(_)));
    assert_eq!(s.on_commit(Some(true), 510).action, SourceAction::PollInterrupt);
    assert_eq!(s.run_state().commit_deadline, 1_010);
}

#[test]
fn sweep_visits_every_cursor_before_it_commits() {
    let mut s = source(vec![ACC], Some(&[(0, 0, 0), (1, 0, 0), (2, 0, 0)]), None);
    s.start(0);
    let mut indices = Vec::new();
    for _ in 0..3 {
        match s.on_interrupt(InterruptPoll::Empty, 1_000).action {
            SourceAction::Fetch { index, .. } => indices.push(index),
            other => panic!("unexpected {:?}", other),
        }
        let step = s.on_rows(Some(vec![]), 1_000);
        if indices.len() < 3 {
            assert_eq!(step.action, SourceAction::PollInterrupt);
        } else {
            assert_eq!(step.action, SourceAction::GenerateToken);
        }
    }
    assert_eq!(indices, vec![0, 1, 2]);
}

#[test]
fn slow_fetch_is_noted_past_500_ms() {
    let mut s = patient_source(&[(0, 0, UNDEFINED_SLOT)]);
    s.start(100);
    s.on_interrupt(InterruptPoll::Empty, 100);
    let rows = vec![event(ACC, 0, 1, 10), event(ACC, 0, 2, 10), event(ACC, 0, 3, 10)];
    let step = s.on_rows(Some(rows), 601);
    assert_eq!(step.notes.slow_fetch, Some(501));
    s.on_sent(true, 0, 700);
    let step = s.on_interrupt(InterruptPoll::Empty, 1_200);
    assert_eq!(step.notes.slow_fetch, None);
    assert_eq!(step.action, SourceAction::Send(event(ACC, 0, 2, 10)));
    s.on_sent(true, 0, 1_200);
    let step = s.on_interrupt(InterruptPoll::Empty, 1_201 + 500);
    assert_eq!(step.notes.slow_fetch, Some(501));
}

#[test]
fn slot_reports_are_throttled_to_one_in_five_seconds() {
    let mut s = patient_source(&[(0, 0, UNDEFINED_SLOT)]);
    s.start(0);
    s.on_interrupt(InterruptPoll::Empty, 0);
    let rows = vec![event(ACC, 0, 1, 10), event(ACC, 0, 2, 10), event(ACC, 0, 3, 11), event(ACC, 0, 4, 12)];
    let step = s.on_rows(Some(rows), 1);
    assert_eq!(step.notes.slot_reached, None);
    assert_eq!(s.run_state().max_seen_slot, 10);
    s.on_sent(true, 0, 2);
    s.on_interrupt(InterruptPoll::Empty, 3);
    s.on_sent(true, 0, 4);
    assert_eq!(s.run_state().num_event_between_two_slots, 2);
    let step = s.on_interrupt(InterruptPoll::Empty, 5_001);
    assert_eq!(step.notes.slot_reached, Some(SlotReached { slot: 10, events: 2 }));
    assert_eq!(s.run_state().next_trace_schedule, 10_001);
    assert_eq!(s.run_state().max_seen_slot, 11);
    assert_eq!(s.run_state().num_event_between_two_slots, 0);
    s.on_sent(true, 0, 5_002);
    let step = s.on_interrupt(InterruptPoll::Empty, 5_003);
    assert_eq!(step.notes.slot_reached, None);
    assert_eq!(s.run_state().max_seen_slot, 12);
}

#[test]
fn source_without_cursors_gives_way_and_still_commits() {
    let mut s = source(vec![ACC], None, None);
    assert_eq!(s.start(0).action, SourceAction::PollInterrupt);
    assert_eq!(s.on_interrupt(InterruptPoll::Empty, 1).action, SourceAction::Resume);
    assert_eq!(s.on_resume(500).action, SourceAction::PollInterrupt);
    assert_eq!(s.on_interrupt(InterruptPoll::Empty, 500).action, SourceAction::Resume);
    assert_eq!(s.on_resume(501).action, SourceAction::GenerateToken);
    let step = s.on_token(Some(1));
    match step.action {
        SourceAction::Commit(commit) => {
            assert_eq!(commit.acc_shard_offset_map, ShardOffsetMap::new());
            assert_eq!(commit.tx_shard_offset_map, ShardOffsetMap::new());
        }
        other => panic!("unexpected {:?}", other),
    }
}

#[test]
fn source_without_cursors_is_interrupted_like_any_other() {
    let mut record = empty_record();
    let mut s = source(vec![ACC, TX], None, None);
    let run = drive(&mut s, &[], &mut record, 3, 4);
    assert_eq!(run.result, Ok(()));
    assert_eq!(run.sent, vec![]);
    assert_eq!(run.commits.len(), 1);
    assert_eq!(run.commits[0].revision, 3);
    assert_eq!(record.revision(), 3);
    assert_eq!(s.phase(), Phase::Done);

    let mut s = source(vec![ACC], None, None);
    s.start(0);
    assert_eq!(
        s.on_interrupt(InterruptPoll::Closed, 1).action,
        SourceAction::Stop(Err(SourceError::OrphanSource))
    );
}

#[test]
fn every_row_is_sent_by_the_sweep_of_its_rank() {
    let mut log = Vec::new();
    for offset in 1..=5 {
        log.push(event(ACC, 0, offset, 10 + offset));
    }
    log.push(event(ACC, 1, 7, 3));
    log.push(event(TX, 0, 2, 4));
    log.push(event(TX, 0, 9, 4));
    let mut s = ConsumerSource::new(
        context(vec![ACC, TX]),
        OffsetsByEventType {
            account_update: Some(map_of(&[(0, 0, UNDEFINED_SLOT), (1, 0, UNDEFINED_SLOT)])),
            new_transaction: Some(map_of(&[(0, 0, UNDEFINED_SLOT)])),
        },
        Some(1_000_000),
        None,
    )
    .unwrap();
    let mut sent_in_sweep: Vec<Vec<BlockchainEvent>> = vec![Vec::new()];
    let mut step = s.start(0);
    while sent_in_sweep.len() <= 6 {
        step = match step.action {
            SourceAction::PollInterrupt => {
                if s.run_state().turn == 0 && !sent_in_sweep.last().unwrap().is_empty() {
                    sent_in_sweep.push(Vec::new());
                } else if s.run_state().turn == 0 && sent_in_sweep.len() > 5 {
                    break;
                }
                s.on_interrupt(InterruptPoll::Empty, 1)
            }
            SourceAction::Fetch { request, .. } => {
                let mut rows = read(&log, &request);
                rows.truncate(2);
                s.on_rows(Some(rows), 1)
            }
            SourceAction::Send(event) => {
                sent_in_sweep.last_mut().unwrap().push(event);
                s.on_sent(true, 0, 1)
            }
            other => panic!("unexpected {:?}", other),
        };
    }
    for (partition, shard) in [(ACC, 0), (ACC, 1), (TX, 0)] {
        let rows: Vec<&BlockchainEvent> =
            log.iter().filter(|e| e.event_type == partition && e.shard_id == shard).collect();
        for (rank, row) in rows.iter().enumerate() {
            let hits: Vec<&BlockchainEvent> = sent_in_sweep[rank]
                .iter()
                .filter(|e| e.event_type == partition && e.shard_id == shard)
                .collect();
            assert_eq!(hits, vec![*row]);
        }
    }
    let total: usize = sent_in_sweep.iter().map(Vec::len).sum();
    assert_eq!(total, log.len());
}

#[test]
fn warm_rows_are_buffered_before_the_start() {
    let mut s = source(vec![ACC], Some(&[(4, 0, UNDEFINED_SLOT)]), None);
    let request = s.warm_request(0).unwrap();
    assert_eq!(request, FetchRequest { producer_id: 9, shard_id: 4, event_type: ACC, after_offset: 0 });
    assert_eq!(s.warm_request(1), None);
    assert_eq!(s.supply_warm(0, vec![event(ACC, 4, 1, 1)]), Ok(()));
    assert_eq!(s.supply_warm(0, vec![event(ACC, 4, 1, 1)]), Err(SourceError::StoreError));
    assert_eq!(s.supply_warm(1, vec![]), Err(SourceError::StoreError));
    s.start(0);
    let step = s.on_interrupt(InterruptPoll::Empty, 1);
    assert_eq!(step.action, SourceAction::Send(event(ACC, 4, 1, 1)));
}

#[test]
fn run_dispatches_events() {
    let mut s = source(vec![ACC], Some(&[(0, 0, UNDEFINED_SLOT)]), None);
    assert_eq!(s.run(SourceEvent::Started(0)).action, SourceAction::PollInterrupt);
    assert!(matches!(
        s.run(SourceEvent::Interrupt(InterruptPoll::Empty, 1)).action,
        SourceAction::Fetch { index: 0, .. }
    ));
    assert_eq!(
        s.run(SourceEvent::Rows(Some(vec![event(ACC, 0, 3, 3)]), 2)).action,
        SourceAction::Send(event(ACC, 0, 3, 3))
    );
    assert_eq!(s.run(SourceEvent::Sent(true, 1, 3)).action, SourceAction::PollInterrupt);
    assert_eq!(
        s.run(SourceEvent::Interrupt(InterruptPoll::Signalled, 4)).action,
        SourceAction::GenerateToken
    );
    assert!(matches!(s.run(SourceEvent::Token(Some(8))).action, SourceAction::Commit(_)));
    assert_eq!(s.run(SourceEvent::Commit(Some(true), 5)).action, SourceAction::Stop(Ok(())));
    assert_eq!(
        s.run(SourceEvent::Resumed(6)).action,
        SourceAction::Stop(Err(SourceError::OutOfTurn))
    );
}

#[test]
fn older_table_gets_one_fenced_write_per_cursor() {
    let s = source(vec![ACC, TX], Some(&[(1, 5, 2)]), Some(&[(1, 8, 3)]));
    let rows = s.update_consumer_shard_offsets(12);
    assert_eq!(
        rows,
        vec![
            ShardOffsetRow {
                offset: 5,
                slot: 2,
                revision: 12,
                consumer_id: "consumer-1".to_string(),
                producer_id: 9,
                shard_id: 1,
                event_type: ACC,
            },
            ShardOffsetRow {
                offset: 8,
                slot: 3,
                revision: 12,
                consumer_id: "consumer-1".to_string(),
                producer_id: 9,
                shard_id: 1,
                event_type: TX,
            },
        ]
    );
}

#[test]
fn interrupted_is_reported_by_its_name() {
    assert_eq!(Interrupted.message(), "Interrupted");
}

struct Offset(i64);

impl FromBlockchainEvent for Offset {
    fn from(blockchain_event: BlockchainEvent) -> Self {
        Offset(blockchain_event.offset)
    }
}

#[test]
fn sink_items_are_made_from_events() {
    let item = <Offset as FromBlockchainEvent>::from(event(ACC, 0, 17, 1));
    assert_eq!(item.0, 17);
}
