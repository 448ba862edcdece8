use crate::error::IdempotencyError;
use crate::key::IdempotencyKey;
use crate::response::{
    decode_spec, encode_spec, lemma_round_trip, valid_status, ResponseModel, ResponseRecord,
};
use crate::store::{
    commit_spec, conflicts, get_saved_response, has_pair, is_reserved, lemma_release_keeps,
    release, rollback_spec, lemma_concat_wf, lemma_saved_iff_row, row_matches,
    rows_wf, save_response, save_spec, saved, unique_pairs, CallerId, ResponseStore, RowModel,
    StoreModel, Transaction, TxModel,
};
use vstd::prelude::*;

verus! {

/// Why an idempotent execution did not produce a response.
#[derive(Debug)]
pub enum ExecuteError<E> {
    /// The business computation failed; nothing was recorded.
    Business(E),
    /// The idempotency machinery failed.
    Idempotency(IdempotencyError),
}

/// How an attempt begins: with a saved response to replay, or with a fresh
/// transaction in which the business computation is to run.
pub enum Attempt {
    Replay(ResponseRecord),
    Execute(Transaction),
}

pub open spec fn outcome_view<E>(o: Result<ResponseRecord, E>) -> Result<ResponseModel, E> {
    match o {
        Ok(r) => Ok(r@),
        Err(e) => Err(e),
    }
}

pub open spec fn reply_view<E>(r: Result<ResponseRecord, ExecuteError<E>>) -> Result<
    ResponseModel,
    ExecuteError<E>,
> {
    match r {
        Ok(x) => Ok(x@),
        Err(e) => Err(e),
    }
}

/// The answer given after losing a race: the winner's saved response, or
/// an unexpected error when no winner's row is visible.
pub open spec fn replay_spec<E>(s: StoreModel, caller: CallerId, key: Seq<char>) -> Result<
    ResponseModel,
    ExecuteError<E>,
> {
    match saved(s, caller, key) {
        Some(w) => Ok(w),
        None => Err(ExecuteError::Idempotency(IdempotencyError::UnexpectedError)),
    }
}

/// The store and the reply after an attempt whose business computation
/// left transaction `t` and produced `o`.
pub open spec fn finish_spec<E>(
    s: StoreModel,
    caller: CallerId,
    key: Seq<char>,
    t: TxModel,
    o: Result<ResponseModel, E>,
) -> (StoreModel, Result<ResponseModel, ExecuteError<E>>) {
    match o {
        Err(e) => (rollback_spec(s, t), Err(ExecuteError::Business(e))),
        Ok(r) => match save_spec(s, t, caller, key, r) {
            Ok((s1, t1)) => {
                let (s2, committed) = commit_spec(s1, t1);
                match committed {
                    Ok(()) => (s2, Ok(r)),
                    Err(_) => (s2, replay_spec(s2, caller, key)),
                }
            },
            Err(IdempotencyError::DuplicateKey) => {
                let s2 = rollback_spec(s, t);
                (s2, replay_spec(s2, caller, key))
            },
            Err(IdempotencyError::KeyInUse) => (
                rollback_spec(s, t),
                Err(ExecuteError::Idempotency(IdempotencyError::UnexpectedError)),
            ),
            Err(e) => (rollback_spec(s, t), Err(ExecuteError::Idempotency(e))),
        },
    }
}

/// The store and the reply of a whole execution: a replay when a response
/// is saved for (caller, key), otherwise the attempt with `t` and `o`.
pub open spec fn execute_spec<E>(
    s: StoreModel,
    caller: CallerId,
    key: Seq<char>,
    t: TxModel,
    o: Result<ResponseModel, E>,
) -> (StoreModel, Result<ResponseModel, ExecuteError<E>>) {
    match saved(s, caller, key) {
        Some(w) => (s, Ok(w)),
        None => finish_spec(s, caller, key, t, o),
    }
}

/// The store and the replies after a series of executions for one
/// (caller, key), each given by the transaction and outcome its business
/// computation would produce if it ran.
pub open spec fn run_calls<E>(
    s: StoreModel,
    caller: CallerId,
    key: Seq<char>,
    calls: Seq<(TxModel, Result<ResponseModel, E>)>,
) -> (StoreModel, Seq<Result<ResponseModel, ExecuteError<E>>>)
    decreases calls.len(),
{
    if calls.len() == 0 {
        (s, Seq::empty())
    } else {
        let (s1, o) = execute_spec(s, caller, key, calls[0].0, calls[0].1);
        let (sn, os) = run_calls(s1, caller, key, calls.drop_first());
        (sn, seq![o] + os)
    }
}

/// A first attempt for a fresh pair, whose computation succeeded with a
/// valid response `r`, commits: its writes become visible once, and `r` is
/// saved for the pair.
pub proof fn lemma_first_success_commits<E>(
    s: StoreModel,
    caller: CallerId,
    key: Seq<char>,
    t: TxModel,
    r: ResponseModel,
)
    requires
        rows_wf(s.rows),
        saved(s, caller, key) is None,
        !is_reserved(s.reserved, caller, key),
        t.rows.len() == 0,
        valid_status(r.status),
    ensures
        ({
            let (s1, o) = finish_spec::<E>(s, caller, key, t, Ok(r));
            &&& o == Ok::<ResponseModel, ExecuteError<E>>(r)
            &&& rows_wf(s1.rows)
            &&& s1.writes == s.writes + t.writes
            &&& s1.reserved == s.reserved
            &&& saved(s1, caller, key) == Some(r)
        }),
{
    lemma_saved_iff_row(s, caller, key);
    let row = RowModel { caller, key, response: encode_spec(r) };
    let t2 = TxModel { rows: t.rows.push(row), writes: t.writes };
    let sa = StoreModel { rows: s.rows, writes: s.writes, reserved: s.reserved.push((caller, key)) };
    assert(save_spec(s, t, caller, key, r) == Ok::<(StoreModel, TxModel), IdempotencyError>((sa, t2)));
    assert(t2.rows =~= seq![row]);
    assert(!conflicts(s.rows, t2.rows)) by {
        if conflicts(s.rows, t2.rows) {
            let i = choose|i: int|
                0 <= i < t2.rows.len() && has_pair(
                    s.rows,
                    (#[trigger] t2.rows[i]).caller,
                    t2.rows[i].key,
                );
            assert(i == 0);
        }
    }
    assert(unique_pairs(t2.rows));
    assert(rows_wf(t2.rows));
    lemma_concat_wf(s.rows, t2.rows);
    assert(row_matches(t2.rows[0], caller, key));
    assert(sa.reserved.drop_last() =~= s.reserved);
    assert(release(sa.reserved, t2.rows) == release(s.reserved, t2.rows));
    assert forall|i: int| 0 <= i < s.reserved.len() implies !has_pair(
        t2.rows,
        (#[trigger] s.reserved[i]).0,
        s.reserved[i].1,
    ) by {
        if has_pair(t2.rows, s.reserved[i].0, s.reserved[i].1) {
            let j = choose|j: int|
                0 <= j < t2.rows.len() && row_matches(#[trigger] t2.rows[j], s.reserved[i].0, s.reserved[i].1);
            assert(j == 0);
            assert(s.reserved[i] == (caller, key));
        }
    }
    lemma_release_keeps(s.reserved, t2.rows);
    let s1 = StoreModel { rows: s.rows + t2.rows, writes: s.writes + t2.writes, reserved: s.reserved };
    assert(commit_spec(sa, t2) == (s1, Ok::<(), IdempotencyError>(())));
    let n = s.rows.len() as int;
    assert(s1.rows[n] == row);
    assert(row_matches(s1.rows[n], caller, key));
    let j = choose|j: int| 0 <= j < s1.rows.len() && row_matches(#[trigger] s1.rows[j], caller, key);
    assert(j == n);
    lemma_round_trip(r);
    assert(decode_spec(encode_spec(r)) == Ok::<ResponseModel, IdempotencyError>(r));
}

/// Two first attempts for the same pair that race: whichever finishes
/// first commits its response, and the other is rolled back and answers
/// with that same response. Only the winner's writes become visible.
pub proof fn lemma_racing_attempts_agree<E>(
    s: StoreModel,
    caller: CallerId,
    key: Seq<char>,
    t1: TxModel,
    r1: ResponseModel,
    t2: TxModel,
    r2: ResponseModel,
)
    requires
        rows_wf(s.rows),
        saved(s, caller, key) is None,
        !is_reserved(s.reserved, caller, key),
        t1.rows.len() == 0,
        t2.rows.len() == 0,
        valid_status(r1.status),
        valid_status(r2.status),
    ensures
        ({
            let (s1, o1) = finish_spec::<E>(s, caller, key, t1, Ok(r1));
            let (s2, o2) = finish_spec::<E>(s1, caller, key, t2, Ok(r2));
            &&& o1 == Ok::<ResponseModel, ExecuteError<E>>(r1)
            &&& o2 == Ok::<ResponseModel, ExecuteError<E>>(r1)
            &&& s2 == s1
            &&& s1.writes == s.writes + t1.writes
        }),
{
    lemma_first_success_commits::<E>(s, caller, key, t1, r1);
    let s1 = finish_spec::<E>(s, caller, key, t1, Ok(r1)).0;
    lemma_saved_iff_row(s1, caller, key);
    lemma_release_keeps(s1.reserved, t2.rows);
}

/// Two first attempts for the same pair whose storage steps interleave: A
/// saves; B's save finds the pair held by A's open transaction and must
/// wait (`KeyInUse`); A commits; B's retried save finds A's row
/// (`DuplicateKey`), so B rolls back and answers with A's response. Only
/// A's writes become visible.
pub proof fn lemma_interleaved_attempts_agree<E>(
    s: StoreModel,
    caller: CallerId,
    key: Seq<char>,
    ta: TxModel,
    ra: ResponseModel,
    tb: TxModel,
    rb: ResponseModel,
)
    requires
        rows_wf(s.rows),
        saved(s, caller, key) is None,
        !is_reserved(s.reserved, caller, key),
        ta.rows.len() == 0,
        tb.rows.len() == 0,
        valid_status(ra.status),
        valid_status(rb.status),
    ensures
        save_spec(s, ta, caller, key, ra) is Ok,
        ({
            let (s1, ta1) = save_spec(s, ta, caller, key, ra)->Ok_0;
            let (s2, committed) = commit_spec(s1, ta1);
            &&& save_spec(s1, tb, caller, key, rb) == Err::<(StoreModel, TxModel), IdempotencyError>(
                IdempotencyError::KeyInUse,
            )
            &&& committed is Ok
            &&& s2.writes == s.writes + ta.writes
            &&& saved(s2, caller, key) == Some(ra)
            &&& save_spec(s2, tb, caller, key, rb) == Err::<(StoreModel, TxModel), IdempotencyError>(
                IdempotencyError::DuplicateKey,
            )
            &&& finish_spec::<E>(s2, caller, key, tb, Ok(rb)) == (s2, Ok::<
                ResponseModel,
                ExecuteError<E>,
            >(ra))
        }),
{
    lemma_saved_iff_row(s, caller, key);
    lemma_first_success_commits::<E>(s, caller, key, ta, ra);
    let (s1, ta1) = save_spec(s, ta, caller, key, ra)->Ok_0;
    assert(s1.reserved[s.reserved.len() as int] == (caller, key));
    assert(is_reserved(s1.reserved, caller, key));
    let s2 = commit_spec(s1, ta1).0;
    lemma_saved_iff_row(s2, caller, key);
    lemma_release_keeps(s2.reserved, tb.rows);
}

/// After a first successful execution, every later execution for the same
/// pair, whatever its computation would do, replays the same response and
/// leaves the store as it is: the computation's writes are visible once.
pub proof fn lemma_replay_is_stable<E>(
    s: StoreModel,
    caller: CallerId,
    key: Seq<char>,
    t: TxModel,
    r: ResponseModel,
    calls: Seq<(TxModel, Result<ResponseModel, E>)>,
)
    requires
        rows_wf(s.rows),
        saved(s, caller, key) is None,
        !is_reserved(s.reserved, caller, key),
        t.rows.len() == 0,
        valid_status(r.status),
    ensures
        ({
            let (s1, o) = execute_spec::<E>(s, caller, key, t, Ok(r));
            &&& o == Ok::<ResponseModel, ExecuteError<E>>(r)
            &&& s1.writes == s.writes + t.writes
            &&& run_calls(s1, caller, key, calls) == (s1, Seq::new(
                calls.len(),
                |i: int| Ok::<ResponseModel, ExecuteError<E>>(r),
            ))
        }),
{
    lemma_first_success_commits::<E>(s, caller, key, t, r);
    let s1 = execute_spec::<E>(s, caller, key, t, Ok(r)).0;
    lemma_replays_repeat(s1, caller, key, r, calls);
}

proof fn lemma_replays_repeat<E>(
    s: StoreModel,
    caller: CallerId,
    key: Seq<char>,
    r: ResponseModel,
    calls: Seq<(TxModel, Result<ResponseModel, E>)>,
)
    requires
        saved(s, caller, key) == Some(r),
    ensures
        run_calls(s, caller, key, calls) == (s, Seq::new(
            calls.len(),
            |i: int| Ok::<ResponseModel, ExecuteError<E>>(r),
        )),
    decreases calls.len(),
{
    if calls.len() > 0 {
        lemma_replays_repeat(s, caller, key, r, calls.drop_first());
        let rest = run_calls(s, caller, key, calls.drop_first()).1;
        assert(seq![Ok::<ResponseModel, ExecuteError<E>>(r)] + rest =~= Seq::new(
            calls.len(),
            |i: int| Ok::<ResponseModel, ExecuteError<E>>(r),
        ));
    } else {
        assert(Seq::<Result<ResponseModel, ExecuteError<E>>>::empty() =~= Seq::new(
            calls.len(),
            |i: int| Ok::<ResponseModel, ExecuteError<E>>(r),
        ));
    }
}

/// A failed computation records nothing: its transaction is rolled back
/// (so the store is left as it was when the transaction staged no row), no
/// response is saved for the pair, and the next execution runs its
/// computation again.
pub proof fn lemma_failed_attempt_leaves_no_row<E>(
    s: StoreModel,
    caller: CallerId,
    key: Seq<char>,
    t: TxModel,
    e: E,
    t2: TxModel,
    o2: Result<ResponseModel, E>,
)
    requires
        saved(s, caller, key) is None,
    ensures
        ({
            let (s1, o) = execute_spec(s, caller, key, t, Err::<ResponseModel, E>(e));
            &&& o == Err::<ResponseModel, ExecuteError<E>>(ExecuteError::Business(e))
            &&& s1 == rollback_spec(s, t)
            &&& t.rows.len() == 0 ==> s1 == s
            &&& saved(s1, caller, key) is None
            &&& execute_spec(s1, caller, key, t2, o2) == finish_spec(s1, caller, key, t2, o2)
        }),
{
    if t.rows.len() == 0 {
        lemma_release_keeps(s.reserved, t.rows);
    }
}

/// The fast path: replays a saved response for (caller, key), or opens a
/// transaction for a first execution. Changes nothing.
pub fn start_attempt(store: &ResponseStore, caller: CallerId, key: &IdempotencyKey) -> (r: Result<
    Attempt,
    IdempotencyError,
>)
    requires
        store.wf(),
    ensures
        match r {
            Ok(Attempt::Replay(x)) => saved(store@, caller, key@) == Some(x@),
            Ok(Attempt::Execute(t)) => saved(store@, caller, key@) is None && t@.rows.len() == 0
                && t@.writes.len() == 0,
            Err(_) => false,
        },
{
    match get_saved_response(store, key, caller) {
        Ok(Some(x)) => Ok(Attempt::Replay(x)),
        Ok(None) => Ok(Attempt::Execute(store.begin())),
        Err(e) => Err(e),
    }
}

fn replay_saved<E>(store: &ResponseStore, caller: CallerId, key: &IdempotencyKey) -> (r: Result<
    ResponseRecord,
    ExecuteError<E>,
>)
    requires
        store.wf(),
    ensures
        reply_view(r) == replay_spec::<E>(store@, caller, key@),
{
    match get_saved_response(store, key, caller) {
        Ok(Some(x)) => Ok(x),
        Ok(None) => Err(ExecuteError::Idempotency(IdempotencyError::UnexpectedError)),
        Err(e) => Err(ExecuteError::Idempotency(e)),
    }
}

/// Completes an attempt whose business computation ran in `tx` and gave
/// `outcome`. A failed computation is rolled back and reported unchanged.
/// A successful one is saved and committed together with its writes; when
/// a concurrent attempt has already recorded a response for the same
/// (caller, key), this attempt is rolled back and that response is returned.
/// When a concurrent attempt still holds the pair in an open transaction,
/// this attempt is rolled back and reports an unexpected error, after which
/// the caller may retry.
pub fn finish_attempt<E>(
    store: &mut ResponseStore,
    caller: CallerId,
    key: &IdempotencyKey,
    tx: Transaction,
    outcome: Result<ResponseRecord, E>,
) -> (r: Result<ResponseRecord, ExecuteError<E>>)
    requires
        old(store).wf(),
    ensures
        final(store).wf(),
        (final(store)@, reply_view(r)) == finish_spec(
            old(store)@,
            caller,
            key@,
            tx@,
            outcome_view(outcome),
        ),
{
    match outcome {
        Err(e) => {
            store.rollback(tx);
            Err(ExecuteError::Business(e))
        },
        Ok(record) => {
            let mut tx = tx;
            match save_response(store, &mut tx, key, caller, record) {
                Ok(reply) => match store.commit(tx) {
                    Ok(()) => Ok(reply),
                    Err(_) => replay_saved(store, caller, key),
                },
                Err(IdempotencyError::DuplicateKey) => {
                    store.rollback(tx);
                    replay_saved(store, caller, key)
                },
                Err(IdempotencyError::KeyInUse) => {
                    store.rollback(tx);
                    Err(ExecuteError::Idempotency(IdempotencyError::UnexpectedError))
                },
                Err(e) => {
                    store.rollback(tx);
                    Err(ExecuteError::Idempotency(e))
                },
            }
        },
    }
}

/// Runs `compute` at most once per (caller, key): replays the saved
/// response when there is one, and otherwise runs `compute` in a fresh
/// transaction and records its response atomically with its writes.
pub fn execute_idempotent<E, F>(
    store: &mut ResponseStore,
    caller: CallerId,
    key: &IdempotencyKey,
    compute: F,
) -> (r: Result<ResponseRecord, ExecuteError<E>>) where
    F: FnOnce(Transaction) -> (Transaction, Result<ResponseRecord, E>),

    requires
        old(store).wf(),
        forall|t: Transaction| compute.requires((t,)),
    ensures
        final(store).wf(),
        match saved(old(store)@, caller, key@) {
            Some(w) => final(store)@ == old(store)@ && reply_view(r) == Ok::<
                ResponseModel,
                ExecuteError<E>,
            >(w),
            None => exists|t0: Transaction, t: Transaction, o: Result<ResponseRecord, E>|
                {
                    &&& t0@.rows.len() == 0
                    &&& t0@.writes.len() == 0
                    &&& compute.ensures((t0,), (t, o))
                    &&& (final(store)@, reply_view(r)) == execute_spec(
                        old(store)@,
                        caller,
                        key@,
                        t@,
                        outcome_view(o),
                    )
                },
        },
{
    match start_attempt(store, caller, key) {
        Ok(Attempt::Replay(x)) => Ok(x),
        Ok(Attempt::Execute(t0)) => {
            let ghost g0 = t0;
            let (t, o) = compute(t0);
            let ghost g = t;
            let ghost go = o;
            let r = finish_attempt(store, caller, key, t, o);
            assert(compute.ensures((g0,), (g, go)));
            r
        },
        Err(e) => Err(ExecuteError::Idempotency(e)),
    }
}

} // verus!
