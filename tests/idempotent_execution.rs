use std::cell::Cell;
use zero2prod::coordinator::{execute_idempotent, finish_attempt, start_attempt, Attempt, ExecuteError};
use zero2prod::error::IdempotencyError;
use zero2prod::key::IdempotencyKey;
use zero2prod::response::{HeaderEntry, ResponseRecord};
use zero2prod::store::{get_saved_response, save_response, ResponseStore, Transaction};

const U1: u128 = 1;
const U2: u128 = 2;

fn key(raw: &str) -> IdempotencyKey {
    IdempotencyKey::parse(raw.to_string()).unwrap()
}

fn ok_response(body: &[u8]) -> ResponseRecord {
    ResponseRecord { status_code: 200, headers: vec![], body: body.to_vec() }
}

fn summary(r: &ResponseRecord) -> (u16, Vec<(String, Vec<u8>)>, Vec<u8>) {
    (
        r.status_code,
        r.headers.iter().map(|h| (h.name.clone(), h.value.clone())).collect(),
        r.body.clone(),
    )
}

#[test]
fn replay_without_rerunning_business_logic() {
    let mut store = ResponseStore::new();
    let runs = Cell::new(0u32);
    let k = key("abc123");
    let compute = |mut tx: Transaction| {
        runs.set(runs.get() + 1);
        tx.record_write(b"subscription".to_vec());
        (tx, Ok::<ResponseRecord, String>(ok_response(b"ok")))
    };
    let first = execute_idempotent(&mut store, U1, &k, compute).unwrap();
    assert_eq!(summary(&first), (200, vec![], b"ok".to_vec()));
    let second = execute_idempotent(&mut store, U1, &k, |tx: Transaction| {
        runs.set(runs.get() + 1);
        (tx, Ok::<ResponseRecord, String>(ok_response(b"other")))
    })
    .unwrap();
    assert_eq!(summary(&second), (200, vec![], b"ok".to_vec()));
    assert_eq!(runs.get(), 1);
    assert_eq!(store.committed_writes(), 1);
    assert_eq!(store.row_count(), 1);
}

#[test]
fn replays_are_identical_every_time() {
    let mut store = ResponseStore::new();
    let runs = Cell::new(0u32);
    let k = key("repeat");
    let make = || ResponseRecord {
        status_code: 201,
        headers: vec![
            HeaderEntry { name: "set-cookie".to_string(), value: b"a=1".to_vec() },
            HeaderEntry { name: "set-cookie".to_string(), value: b"b=2".to_vec() },
        ],
        body: vec![1, 2, 3],
    };
    let first = execute_idempotent(&mut store, U1, &k, |mut tx: Transaction| {
        runs.set(runs.get() + 1);
        tx.record_write(b"w".to_vec());
        (tx, Ok::<ResponseRecord, ()>(make()))
    })
    .unwrap();
    for _ in 0..5 {
        let again = execute_idempotent(&mut store, U1, &k, |tx: Transaction| {
            runs.set(runs.get() + 1);
            (tx, Ok::<ResponseRecord, ()>(ok_response(b"different")))
        })
        .unwrap();
        assert_eq!(summary(&again), summary(&first));
    }
    assert_eq!(runs.get(), 1);
    assert_eq!(store.committed_writes(), 1);
}

#[test]
fn keys_are_scoped_by_caller() {
    let mut store = ResponseStore::new();
    let k = key("shared");
    let a = execute_idempotent(&mut store, U1, &k, |tx: Transaction| {
        (tx, Ok::<ResponseRecord, ()>(ok_response(b"one")))
    })
    .unwrap();
    let b = execute_idempotent(&mut store, U2, &k, |tx: Transaction| {
        (tx, Ok::<ResponseRecord, ()>(ok_response(b"two")))
    })
    .unwrap();
    assert_eq!(a.body, b"one".to_vec());
    assert_eq!(b.body, b"two".to_vec());
    assert_eq!(store.row_count(), 2);
}

#[test]
fn failed_computation_leaves_no_row_and_reruns() {
    let mut store = ResponseStore::new();
    let runs = Cell::new(0u32);
    let k = key("flaky");
    let failed = execute_idempotent(&mut store, U1, &k, |mut tx: Transaction| {
        runs.set(runs.get() + 1);
        tx.record_write(b"partial".to_vec());
        (tx, Err::<ResponseRecord, String>("boom".to_string()))
    });
    match failed {
        Err(ExecuteError::Business(e)) => assert_eq!(e, "boom"),
        _ => panic!("expected the business error"),
    }
    assert_eq!(store.row_count(), 0);
    assert_eq!(store.committed_writes(), 0);
    assert!(get_saved_response(&store, &k, U1).unwrap().is_none());
    let retried = execute_idempotent(&mut store, U1, &k, |mut tx: Transaction| {
        runs.set(runs.get() + 1);
        tx.record_write(b"full".to_vec());
        (tx, Ok::<ResponseRecord, String>(ok_response(b"done")))
    })
    .unwrap();
    assert_eq!(retried.body, b"done".to_vec());
    assert_eq!(runs.get(), 2);
    assert_eq!(store.committed_writes(), 1);
}

#[test]
fn invalid_status_from_computation_is_not_recorded() {
    let mut store = ResponseStore::new();
    let k = key("badstatus");
    let r = execute_idempotent(&mut store, U1, &k, |tx: Transaction| {
        (tx, Ok::<ResponseRecord, ()>(ResponseRecord { status_code: 700, headers: vec![], body: vec![] }))
    });
    assert!(matches!(r, Err(ExecuteError::Idempotency(IdempotencyError::InvalidStatusCode))));
    assert_eq!(store.row_count(), 0);
}

#[test]
fn concurrent_first_calls_agree_on_winner() {
    let mut store = ResponseStore::new();
    let k = key("dup1");
    let mut runs = 0u32;
    let Ok(Attempt::Execute(mut tx1)) = start_attempt(&store, U2, &k) else {
        panic!("first attempt should execute")
    };
    let Ok(Attempt::Execute(mut tx2)) = start_attempt(&store, U2, &k) else {
        panic!("second attempt should execute")
    };
    runs += 1;
    tx1.record_write(b"winner".to_vec());
    runs += 1;
    tx2.record_write(b"loser".to_vec());
    let r1 = finish_attempt::<()>(&mut store, U2, &k, tx1, Ok(ok_response(b"first"))).unwrap();
    let r2 = finish_attempt::<()>(&mut store, U2, &k, tx2, Ok(ok_response(b"second"))).unwrap();
    assert_eq!(r1.body, b"first".to_vec());
    assert_eq!(summary(&r2), summary(&r1));
    assert_eq!(runs, 2);
    assert_eq!(store.committed_writes(), 1);
    assert_eq!(store.row_count(), 1);
    match start_attempt(&store, U2, &k) {
        Ok(Attempt::Replay(r)) => assert_eq!(r.body, b"first".to_vec()),
        _ => panic!("a response should be saved"),
    }
}

#[test]
fn concurrent_saves_for_one_pair_admit_one() {
    let mut store = ResponseStore::new();
    let k = key("dup1");
    let mut tx1 = store.begin();
    let mut tx2 = store.begin();
    tx1.record_write(b"a".to_vec());
    tx2.record_write(b"b".to_vec());
    assert_eq!(tx2.pending_writes(), 1);
    let first = save_response(&mut store, &mut tx1, &k, U2, ok_response(b"one")).unwrap();
    assert_eq!(first.body, b"one".to_vec());
    assert_eq!(store.reservation_count(), 1);
    assert_eq!(
        save_response(&mut store, &mut tx2, &k, U2, ok_response(b"two")).unwrap_err(),
        IdempotencyError::KeyInUse
    );
    assert!(get_saved_response(&store, &k, U2).unwrap().is_none());
    assert!(store.commit(tx1).is_ok());
    assert_eq!(
        save_response(&mut store, &mut tx2, &k, U2, ok_response(b"two")).unwrap_err(),
        IdempotencyError::DuplicateKey
    );
    store.rollback(tx2);
    assert_eq!(store.reservation_count(), 0);
    assert_eq!(store.row_count(), 1);
    assert_eq!(store.committed_writes(), 1);
    let saved = get_saved_response(&store, &k, U2).unwrap().unwrap();
    assert_eq!(saved.body, b"one".to_vec());
    let mut later = store.begin();
    assert_eq!(
        save_response(&mut store, &mut later, &k, U2, ok_response(b"three")).unwrap_err(),
        IdempotencyError::DuplicateKey
    );
}

#[test]
fn rollback_frees_the_pair() {
    let mut store = ResponseStore::new();
    let k = key("retry");
    let mut tx1 = store.begin();
    save_response(&mut store, &mut tx1, &k, U1, ok_response(b"abandoned")).unwrap();
    store.rollback(tx1);
    assert_eq!(store.reservation_count(), 0);
    assert_eq!(store.row_count(), 0);
    let mut tx2 = store.begin();
    let staged = save_response(&mut store, &mut tx2, &k, U1, ok_response(b"kept")).unwrap();
    assert_eq!(staged.body, b"kept".to_vec());
    store.commit(tx2).unwrap();
    assert_eq!(get_saved_response(&store, &k, U1).unwrap().unwrap().body, b"kept".to_vec());
}

#[test]
fn commit_rejects_pair_committed_meanwhile() {
    let mut store = ResponseStore::new();
    let k = key("meanwhile");
    let mut tx1 = store.begin();
    save_response(&mut store, &mut tx1, &k, U1, ok_response(b"one")).unwrap();
    store.commit(tx1).unwrap();
    let other = ResponseStore::new();
    let mut foreign = other.begin();
    let mut scratch = ResponseStore::new();
    save_response(&mut scratch, &mut foreign, &k, U1, ok_response(b"two")).unwrap();
    foreign.record_write(b"lost".to_vec());
    assert_eq!(store.commit(foreign).unwrap_err(), IdempotencyError::DuplicateKey);
    assert_eq!(store.row_count(), 1);
    assert_eq!(store.committed_writes(), 0);
}

#[test]
fn lost_race_after_save_replays_winner() {
    let mut store = ResponseStore::new();
    let k = key("late");
    let Ok(Attempt::Execute(tx_late)) = start_attempt(&store, U1, &k) else {
        panic!("should execute")
    };
    let winner = execute_idempotent(&mut store, U1, &k, |tx: Transaction| {
        (tx, Ok::<ResponseRecord, ()>(ok_response(b"winner")))
    })
    .unwrap();
    let late = finish_attempt::<()>(&mut store, U1, &k, tx_late, Ok(ok_response(b"late"))).unwrap();
    assert_eq!(summary(&late), summary(&winner));
}

#[test]
fn interleaved_attempts_answer_with_winner() {
    let mut store = ResponseStore::new();
    let k = key("dup1");
    let Ok(Attempt::Execute(mut tx_a)) = start_attempt(&store, U2, &k) else {
        panic!("should execute")
    };
    let Ok(Attempt::Execute(mut tx_b)) = start_attempt(&store, U2, &k) else {
        panic!("should execute")
    };
    tx_a.record_write(b"a".to_vec());
    tx_b.record_write(b"b".to_vec());
    save_response(&mut store, &mut tx_a, &k, U2, ok_response(b"winner")).unwrap();
    assert_eq!(
        save_response(&mut store, &mut tx_b, &k, U2, ok_response(b"loser")).unwrap_err(),
        IdempotencyError::KeyInUse
    );
    store.commit(tx_a).unwrap();
    let b = finish_attempt::<()>(&mut store, U2, &k, tx_b, Ok(ok_response(b"loser"))).unwrap();
    assert_eq!(b.body, b"winner".to_vec());
    assert_eq!(store.committed_writes(), 1);
    assert_eq!(store.reservation_count(), 0);
}

#[test]
fn attempt_blocked_by_open_transaction_reports_unexpected() {
    let mut store = ResponseStore::new();
    let k = key("held");
    let mut holder = store.begin();
    save_response(&mut store, &mut holder, &k, U1, ok_response(b"held")).unwrap();
    let tx = store.begin();
    let r = finish_attempt::<()>(&mut store, U1, &k, tx, Ok(ok_response(b"other")));
    assert!(matches!(r, Err(ExecuteError::Idempotency(IdempotencyError::UnexpectedError))));
    assert_eq!(store.row_count(), 0);
    assert_eq!(store.reservation_count(), 1);
}
