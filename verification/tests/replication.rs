use rustweb::codec::{decode_operation, encode_operation, CodecError};
use rustweb::executor::{Action, Event, Executor};
use rustweb::log::{copy_of, entries_before, key_of, LogFault, TransactionLog};
use rustweb::replica::{
    backoff, Replica, ReplicaAction, ReplicaEvent, ReplicaPhase, ReplicaState, RETRY_BASE_MS,
    RETRY_DOUBLINGS,
};
use rustweb::role::Role;
use std::sync::Arc;

fn query(sql: &str, path: &str) -> rustdb::GenQuery {
    let mut q = rustdb::GenTransaction::new().qy;
    q.sql = Arc::new(sql.to_string());
    q.path = path.to_string();
    q.params.insert("k".to_string(), "v".to_string());
    q.now = 1234;
    q
}

fn streaming_at(position: u64) -> Replica {
    let mut r = Replica::new();
    r.step(ReplicaEvent::Start);
    r.step(ReplicaEvent::Handshaken { is_new: false, resume_at: position });
    r
}

#[test]
fn copy_of_copies() {
    assert_eq!(copy_of(&vec![1, 2, 3]), vec![1, 2, 3]);
    assert_eq!(copy_of(&Vec::new()), Vec::<u8>::new());
}

#[test]
fn a_new_log_is_empty() {
    let log = TransactionLog::new();
    assert_eq!(log.len(), 0);
    assert_eq!(log.entry(0), None);
    assert_eq!(log.entries_from(0, 10), Vec::<Vec<u8>>::new());
}

#[test]
fn append_returns_the_position_and_keeps_what_was_there() {
    let mut log = TransactionLog::new();
    assert_eq!(log.append(vec![1]), 0);
    assert_eq!(log.append(vec![2, 2]), 1);
    assert_eq!(log.append(vec![]), 2);
    assert_eq!(log.len(), 3);
    assert_eq!(log.entry(0), Some(vec![1]));
    assert_eq!(log.entry(1), Some(vec![2, 2]));
    assert_eq!(log.entry(2), Some(vec![]));
    assert_eq!(log.entry(3), None);
}

#[test]
fn entries_are_served_from_a_position_in_order() {
    let mut log = TransactionLog::new();
    for i in 0..5u8 {
        log.append(vec![i]);
    }
    assert_eq!(log.entries_from(0, 100), vec![vec![0], vec![1], vec![2], vec![3], vec![4]]);
    assert_eq!(log.entries_from(3, 100), vec![vec![3], vec![4]]);
    assert_eq!(log.entries_from(1, 2), vec![vec![1], vec![2]]);
    assert_eq!(log.entries_from(4, 1), vec![vec![4]]);
    assert_eq!(log.entries_from(2, 0), Vec::<Vec<u8>>::new());
    assert_eq!(log.entries_from(5, 100), Vec::<Vec<u8>>::new());
    assert_eq!(log.entries_from(6, 100), Vec::<Vec<u8>>::new());
    assert_eq!(log.entries_from(0, usize::MAX), log.entries_from(0, 5));
}

#[test]
fn what_was_served_stays_after_an_append() {
    let mut log = TransactionLog::new();
    log.append(vec![7]);
    log.append(vec![8]);
    let before = log.entries_from(0, 10);
    log.append(vec![9]);
    let after = log.entries_from(0, 10);
    assert_eq!(&after[..before.len()], &before[..]);
    assert_eq!(after.len(), 3);
}

#[test]
fn an_operation_survives_the_log() {
    let q = query("EXEC web.Main()", "/order");
    let bytes = encode_operation(&q).unwrap();
    assert!(!bytes.is_empty());
    let back = decode_operation(&bytes).unwrap();
    assert_eq!(*back.sql, "EXEC web.Main()");
    assert_eq!(back.path, "/order");
    assert_eq!(back.params.get("k").map(|v| v.as_str()), Some("v"));
    assert_eq!(back.now, 1234);
    assert!(back.form.is_empty());
}

#[test]
fn different_operations_have_different_entries() {
    let a = encode_operation(&query("A", "/a")).unwrap();
    let b = encode_operation(&query("B", "/b")).unwrap();
    assert_ne!(a, b);
}

#[test]
fn bytes_that_are_no_operation_are_refused() {
    assert!(matches!(decode_operation(&vec![0xc1]), Err(CodecError::Decode)));
    assert!(matches!(decode_operation(&Vec::new()), Err(CodecError::Decode)));
}

#[test]
fn record_appends_the_serialised_operation() {
    let mut log = TransactionLog::new();
    log.append(vec![1]);
    let q = query("INSERT", "/p");
    assert_eq!(log.record(&q), Ok(1));
    assert_eq!(log.len(), 2);
    assert_eq!(log.entry(0), Some(vec![1]));
    assert_eq!(log.entry(1), Some(encode_operation(&q).unwrap()));
}

#[test]
fn a_replica_starts_with_a_handshake() {
    let mut r = Replica::new();
    assert_eq!(r.state(), ReplicaState { phase: ReplicaPhase::Uninitialized, position: 0, failures: 0 });
    assert!(!r.serves_reads());
    assert_eq!(r.step(ReplicaEvent::Start), ReplicaAction::Handshake);
    assert_eq!(r.state().phase, ReplicaPhase::Handshaking);
    assert!(!r.serves_reads());
}

#[test]
fn a_new_replica_bootstraps_before_it_serves_reads() {
    let mut master_log = TransactionLog::new();
    for i in 0..3u8 {
        master_log.append(vec![i]);
    }
    let mut r = Replica::new();
    r.step(ReplicaEvent::Start);
    assert_eq!(
        r.step(ReplicaEvent::Handshaken { is_new: true, resume_at: 99 }),
        ReplicaAction::Bootstrap
    );
    assert_eq!(r.state().phase, ReplicaPhase::Bootstrapping);
    assert_eq!(r.position(), 0);
    assert!(!r.serves_reads());
    // nothing is applied while the bootstrap is under way
    assert_eq!(r.receive(0, master_log.entries_from(0, 10)), Vec::<Vec<u8>>::new());
    assert_eq!(r.position(), 0);
    assert_eq!(
        r.step(ReplicaEvent::Bootstrapped { position: master_log.len() }),
        ReplicaAction::Pull { from: 3 }
    );
    assert_eq!(r.state().phase, ReplicaPhase::Streaming);
    assert!(r.serves_reads());
    // later entries are applied in order
    master_log.append(vec![3]);
    master_log.append(vec![4]);
    let apply = r.receive(r.position(), master_log.entries_from(r.position(), 10));
    assert_eq!(apply, vec![vec![3], vec![4]]);
    assert_eq!(r.position(), master_log.len());
}

#[test]
fn a_replica_with_state_resumes_where_it_ended() {
    let mut r = Replica::new();
    r.step(ReplicaEvent::Start);
    assert_eq!(
        r.step(ReplicaEvent::Handshaken { is_new: false, resume_at: 17 }),
        ReplicaAction::Pull { from: 17 }
    );
    assert_eq!(r.state(), ReplicaState { phase: ReplicaPhase::Resuming, position: 17, failures: 0 });
    assert!(!r.serves_reads());
    assert_eq!(r.receive(17, Vec::new()), Vec::<Vec<u8>>::new());
    assert_eq!(r.state().phase, ReplicaPhase::Streaming);
    assert_eq!(r.position(), 17);
    assert!(r.serves_reads());
}

#[test]
fn a_failed_handshake_is_final() {
    let mut r = Replica::new();
    r.step(ReplicaEvent::Start);
    assert_eq!(r.step(ReplicaEvent::HandshakeFailed), ReplicaAction::Abort);
    assert_eq!(r.state().phase, ReplicaPhase::Failed);
    assert_eq!(r.step(ReplicaEvent::Start), ReplicaAction::Ignore);
    assert_eq!(r.step(ReplicaEvent::Handshaken { is_new: false, resume_at: 0 }), ReplicaAction::Ignore);
    assert_eq!(r.step(ReplicaEvent::StreamFailed), ReplicaAction::Ignore);
    assert_eq!(r.receive(0, vec![vec![1]]), Vec::<Vec<u8>>::new());
    assert_eq!(r.state().phase, ReplicaPhase::Failed);
    assert!(!r.serves_reads());
}

#[test]
fn a_failed_bootstrap_is_final() {
    let mut r = Replica::new();
    r.step(ReplicaEvent::Start);
    r.step(ReplicaEvent::Handshaken { is_new: true, resume_at: 0 });
    assert_eq!(r.step(ReplicaEvent::BootstrapFailed), ReplicaAction::Abort);
    assert_eq!(r.state().phase, ReplicaPhase::Failed);
    assert_eq!(r.step(ReplicaEvent::Bootstrapped { position: 0 }), ReplicaAction::Ignore);
    assert!(!r.serves_reads());
}

#[test]
fn reports_out_of_turn_are_ignored() {
    let mut r = Replica::new();
    assert_eq!(r.step(ReplicaEvent::Handshaken { is_new: true, resume_at: 0 }), ReplicaAction::Ignore);
    assert_eq!(r.step(ReplicaEvent::Bootstrapped { position: 5 }), ReplicaAction::Ignore);
    assert_eq!(r.step(ReplicaEvent::StreamFailed), ReplicaAction::Ignore);
    assert_eq!(r.state(), ReplicaState { phase: ReplicaPhase::Uninitialized, position: 0, failures: 0 });
    r.step(ReplicaEvent::Start);
    assert_eq!(r.step(ReplicaEvent::Start), ReplicaAction::Ignore);
    assert_eq!(r.step(ReplicaEvent::BootstrapFailed), ReplicaAction::Ignore);
    assert_eq!(r.state().phase, ReplicaPhase::Handshaking);
}

#[test]
fn stream_failures_back_off_and_are_not_fatal() {
    let mut r = streaming_at(4);
    r.receive(4, vec![vec![1]]);
    assert!(r.serves_reads());
    let expected: [u64; 9] = [1000, 2000, 4000, 8000, 16000, 32000, 64000, 64000, 64000];
    for (n, delay_ms) in expected.iter().enumerate() {
        assert_eq!(
            r.step(ReplicaEvent::StreamFailed),
            ReplicaAction::RetryAfter { delay_ms: *delay_ms }
        );
        assert_eq!(r.state().failures as usize, n + 1);
        assert_eq!(r.state().phase, ReplicaPhase::Streaming);
        assert_eq!(r.position(), 5);
        assert!(r.serves_reads());
    }
    // an answer from the master ends the run of failures
    assert_eq!(r.receive(5, vec![vec![2]]), vec![vec![2]]);
    assert_eq!(r.state().failures, 0);
    assert_eq!(r.step(ReplicaEvent::StreamFailed), ReplicaAction::RetryAfter { delay_ms: 1000 });
}

#[test]
fn backoff_doubles_up_to_its_cap() {
    assert_eq!(RETRY_BASE_MS, 1000);
    assert_eq!(RETRY_DOUBLINGS, 6);
    assert_eq!(backoff(0), 1000);
    assert_eq!(backoff(1), 2000);
    assert_eq!(backoff(5), 32000);
    assert_eq!(backoff(6), 64000);
    assert_eq!(backoff(7), 64000);
    assert_eq!(backoff(u32::MAX), 64000);
}

#[test]
fn a_resuming_replica_retries_as_well() {
    let mut r = streaming_at(3);
    assert_eq!(r.state().phase, ReplicaPhase::Resuming);
    assert_eq!(r.step(ReplicaEvent::StreamFailed), ReplicaAction::RetryAfter { delay_ms: 1000 });
    assert_eq!(r.step(ReplicaEvent::StreamFailed), ReplicaAction::RetryAfter { delay_ms: 2000 });
    assert_eq!(r.state(), ReplicaState { phase: ReplicaPhase::Resuming, position: 3, failures: 2 });
    assert!(!r.serves_reads());
}

#[test]
fn a_batch_past_the_position_is_not_applied() {
    let mut r = streaming_at(2);
    assert_eq!(r.receive(3, vec![vec![3], vec![4]]), Vec::<Vec<u8>>::new());
    assert_eq!(r.state(), ReplicaState { phase: ReplicaPhase::Resuming, position: 2, failures: 0 });
}

#[test]
fn entries_applied_before_are_left_out() {
    let mut r = streaming_at(2);
    let apply = r.receive(0, vec![vec![0], vec![1], vec![2], vec![3]]);
    assert_eq!(apply, vec![vec![2], vec![3]]);
    assert_eq!(r.position(), 4);
    // the same answer again brings nothing new
    assert_eq!(r.receive(0, vec![vec![0], vec![1], vec![2], vec![3]]), Vec::<Vec<u8>>::new());
    assert_eq!(r.position(), 4);
    // an answer that ends before the position changes nothing
    assert_eq!(r.receive(0, vec![vec![0]]), Vec::<Vec<u8>>::new());
    assert_eq!(r.position(), 4);
}

#[test]
fn a_batch_that_would_pass_the_largest_position_is_not_applied() {
    let mut r = streaming_at(u64::MAX);
    assert_eq!(r.receive(u64::MAX, vec![vec![1]]), Vec::<Vec<u8>>::new());
    assert_eq!(r.position(), u64::MAX);
    assert_eq!(r.receive(u64::MAX, Vec::new()), Vec::<Vec<u8>>::new());
    assert_eq!(r.state().phase, ReplicaPhase::Streaming);
}

#[test]
fn one_logged_commit_reaches_the_replica_as_one_entry() {
    // master
    let mut master = Executor::new(Role::Master);
    let mut master_log = TransactionLog::new();
    master_log.record(&query("EARLIER", "/0")).unwrap();
    // a replica that has everything so far
    let mut replica = streaming_at(master_log.len());
    let mut replica_exec = Executor::new(Role::Replica);
    let mut replica_rows = master_log.len();
    let prior = replica.position();

    let op = query("INSERT INTO t VALUES (1)", "/insert");
    assert_eq!(master.step(Event::Submitted { logged: true }), Action::Run { ticket: 0 });
    assert_eq!(
        master.step(Event::Executed { failed: false, changed: true }),
        Action::Commit { log: true }
    );
    let before = master_log.len();
    master_log.record(&op).unwrap();
    assert_eq!(
        master.step(Event::Saved { pages: 2 }),
        Action::Reply { ticket: 0, notify: true, failed: false }
    );
    assert_eq!(master_log.len(), before + 1);
    assert_eq!(master.state().logged, 1);
    let stored = decode_operation(&master_log.entry(before).unwrap()).unwrap();
    assert_eq!(*stored.sql, *op.sql);
    assert_eq!(stored.path, op.path);
    assert_eq!(stored.params, op.params);
    assert_eq!(stored.now, op.now);

    // the replica polls from its prior position
    let batch = master_log.entries_from(prior, 100);
    assert_eq!(batch.len(), 1);
    let apply = replica.receive(prior, batch);
    assert_eq!(apply.len(), 1);
    for entry in apply.iter() {
        let received = decode_operation(entry).unwrap();
        assert_eq!(*received.sql, "INSERT INTO t VALUES (1)");
        assert_eq!(replica_exec.step(Event::Submitted { logged: true }), Action::Run { ticket: 0 });
        assert_eq!(
            replica_exec.step(Event::Executed { failed: false, changed: true }),
            Action::Commit { log: false }
        );
        replica_exec.step(Event::Saved { pages: 2 });
        replica_rows += 1;
    }
    assert_eq!(replica_rows, master_log.len());
    assert_eq!(replica.position(), master_log.len());
}

#[test]
fn a_replica_that_applies_every_batch_holds_a_prefix_of_the_log() {
    let mut master_log = TransactionLog::new();
    let mut replica = streaming_at(0);
    let mut applied: Vec<Vec<u8>> = Vec::new();
    for round in 0..40u64 {
        for k in 0..(round % 4) {
            master_log.append(vec![round as u8, k as u8]);
        }
        // answers may overlap what the replica has, or be cut short
        let from = replica.position().saturating_sub(round % 3);
        let batch = master_log.entries_from(from, (round % 5) as usize);
        applied.extend(replica.receive(from, batch));
        assert_eq!(applied.len() as u64, replica.position());
        assert_eq!(applied, master_log.entries_from(0, applied.len()));
    }
    let rest = master_log.entries_from(replica.position(), usize::MAX);
    applied.extend(replica.receive(replica.position(), rest));
    assert_eq!(applied, master_log.entries_from(0, usize::MAX));
}

#[test]
fn keys_start_at_one() {
    assert_eq!(key_of(0), Some(1));
    assert_eq!(key_of(41), Some(42));
    assert_eq!(key_of(i64::MAX as u64 - 1), Some(i64::MAX));
    assert_eq!(key_of(i64::MAX as u64), None);
    assert_eq!(key_of(u64::MAX), None);
}

#[test]
fn the_next_key_tells_how_many_entries_there_are() {
    assert_eq!(entries_before(1), 0);
    assert_eq!(entries_before(2), 1);
    assert_eq!(entries_before(43), 42);
    assert_eq!(entries_before(i64::MAX), i64::MAX as u64 - 1);
    assert_eq!(entries_before(0), 0);
    assert_eq!(entries_before(-7), 0);
    assert_eq!(entries_before(i64::MIN), 0);
    for position in [0u64, 1, 99] {
        assert_eq!(entries_before(key_of(position).unwrap()), position);
    }
}

#[test]
fn a_log_is_taken_over_when_count_and_entries_are_sound() {
    let a = encode_operation(&query("A", "/a")).unwrap();
    let b = encode_operation(&query("B", "/b")).unwrap();
    let log = TransactionLog::restore(vec![a.clone(), b.clone()], 3).unwrap();
    assert_eq!(log.len(), 2);
    assert_eq!(log.entry(0), Some(a));
    assert_eq!(log.entry(1), Some(b));
    let empty = TransactionLog::restore(Vec::new(), 1).unwrap();
    assert_eq!(empty.len(), 0);
}

#[test]
fn a_log_with_the_wrong_count_is_refused() {
    let a = encode_operation(&query("A", "/a")).unwrap();
    assert_eq!(TransactionLog::restore(vec![a.clone()], 3).err(), Some(LogFault::Count));
    assert_eq!(TransactionLog::restore(vec![a.clone()], 1).err(), Some(LogFault::Count));
    assert_eq!(TransactionLog::restore(Vec::new(), 0).err(), Some(LogFault::Count));
    assert_eq!(TransactionLog::restore(Vec::new(), -1).err(), Some(LogFault::Count));
    // the count is looked at first
    assert_eq!(TransactionLog::restore(vec![vec![0xc1]], 5).err(), Some(LogFault::Count));
}

#[test]
fn a_log_with_an_entry_that_is_no_operation_is_refused() {
    let a = encode_operation(&query("A", "/a")).unwrap();
    assert_eq!(
        TransactionLog::restore(vec![a.clone(), vec![0xc1], Vec::new()], 4).err(),
        Some(LogFault::Unreadable(1))
    );
    assert_eq!(
        TransactionLog::restore(vec![Vec::new(), a], 3).err(),
        Some(LogFault::Unreadable(0))
    );
}
