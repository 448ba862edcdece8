use crate::coordinator::{execute_spec, ExecuteError};
use crate::store::{
    commit_spec, has_pair, is_reserved, rollback_spec, saved, CallerId, RowModel, StoreModel, TxModel,
};
use crate::error::IdempotencyError;
use crate::response::{
    encode, encode_spec, valid_status, ResponseModel, ResponseRecord, StoredModel, StoredResponse,
};
use vstd::prelude::*;

verus! {

/// Where one idempotent request stands, for a driver that talks to an
/// external store.
#[derive(Debug, Clone, Copy, PartialEq, Eq, Structural)]
pub enum Stage {
    /// The fast-path read has been requested.
    Started,
    /// The computation runs inside an open transaction.
    Executing,
    /// The row insert was requested inside the open transaction.
    Saving,
    /// The commit was requested.
    Committing,
    /// The transaction was rolled back after losing a race; the saved
    /// response is being read again.
    Rereading,
    /// A reply or an error was handed out.
    Finished,
}

/// What the driver reports back after carrying out a step.
pub enum Event<E> {
    /// The read of the saved response for the pair gave this.
    Read(Option<ResponseRecord>),
    /// The computation, run in the open transaction, gave this.
    Computed(Result<ResponseRecord, E>),
    /// The insert of the row gave this.
    Inserted(Result<(), IdempotencyError>),
    /// The commit gave this.
    Committed(Result<(), IdempotencyError>),
}

/// What the driver must do next.
pub enum Step<E> {
    /// Read the saved response for the pair, outside any transaction.
    ReadSaved,
    /// Open a transaction and run the computation in it.
    Execute,
    /// Insert these response columns for the pair in the open transaction.
    Save(StoredResponse),
    /// Commit the open transaction.
    Commit,
    /// Roll the open transaction back, then read the saved response again.
    RollbackAndReread,
    /// Roll back any open transaction and answer with this response.
    Reply(ResponseRecord),
    /// Roll back any open transaction and answer with this error.
    Fail(ExecuteError<E>),
}

/// A driver's report, mathematically.
pub enum EventModel<E> {
    Read(Option<ResponseModel>),
    Computed(Result<ResponseModel, E>),
    Inserted(Result<(), IdempotencyError>),
    Committed(Result<(), IdempotencyError>),
}

/// A step, mathematically.
pub enum StepModel<E> {
    ReadSaved,
    Execute,
    Save(StoredModel),
    Commit,
    RollbackAndReread,
    Reply(ResponseModel),
    Fail(ExecuteError<E>),
}

impl<E> View for Event<E> {
    type V = EventModel<E>;

    open spec fn view(&self) -> EventModel<E> {
        match self {
            Event::Read(Some(x)) => EventModel::Read(Some(x@)),
            Event::Read(None) => EventModel::Read(None),
            Event::Computed(Ok(x)) => EventModel::Computed(Ok(x@)),
            Event::Computed(Err(e)) => EventModel::Computed(Err(*e)),
            Event::Inserted(r) => EventModel::Inserted(*r),
            Event::Committed(r) => EventModel::Committed(*r),
        }
    }
}

impl<E> View for Step<E> {
    type V = StepModel<E>;

    open spec fn view(&self) -> StepModel<E> {
        match self {
            Step::ReadSaved => StepModel::ReadSaved,
            Step::Execute => StepModel::Execute,
            Step::Save(s) => StepModel::Save(s@),
            Step::Commit => StepModel::Commit,
            Step::RollbackAndReread => StepModel::RollbackAndReread,
            Step::Reply(x) => StepModel::Reply(x@),
            Step::Fail(e) => StepModel::Fail(*e),
        }
    }
}

/// The transition table: from a stage, the response held for the reply,
/// and the driver's report, the next stage, the held response, and the
/// next step. Reports that do not fit the stage end the request with an
/// unexpected error.
pub open spec fn advance_spec<E>(
    stage: Stage,
    pending: Option<ResponseModel>,
    event: EventModel<E>,
) -> (Stage, Option<ResponseModel>, StepModel<E>) {
    match (stage, event) {
        (Stage::Started, EventModel::Read(Some(x))) | (Stage::Rereading, EventModel::Read(Some(x))) => (
            Stage::Finished,
            pending,
            StepModel::Reply(x),
        ),
        (Stage::Started, EventModel::Read(None)) => (Stage::Executing, pending, StepModel::Execute),
        (Stage::Executing, EventModel::Computed(Err(e))) => (
            Stage::Finished,
            pending,
            StepModel::Fail(ExecuteError::Business(e)),
        ),
        (Stage::Executing, EventModel::Computed(Ok(x))) => if valid_status(x.status) {
            (Stage::Saving, Some(x), StepModel::Save(encode_spec(x)))
        } else {
            (
                Stage::Finished,
                pending,
                StepModel::Fail(ExecuteError::Idempotency(IdempotencyError::InvalidStatusCode)),
            )
        },
        (Stage::Saving, EventModel::Inserted(Ok(()))) => (Stage::Committing, pending, StepModel::Commit),
        (Stage::Saving, EventModel::Inserted(Err(IdempotencyError::DuplicateKey)))
        | (Stage::Committing, EventModel::Committed(Err(IdempotencyError::DuplicateKey))) => (
            Stage::Rereading,
            pending,
            StepModel::RollbackAndReread,
        ),
        (Stage::Committing, EventModel::Committed(Ok(()))) => match pending {
            Some(p) => (Stage::Finished, None, StepModel::Reply(p)),
            None => (
                Stage::Finished,
                None,
                StepModel::Fail(ExecuteError::Idempotency(IdempotencyError::UnexpectedError)),
            ),
        },
        _ => (
            Stage::Finished,
            pending,
            StepModel::Fail(ExecuteError::Idempotency(IdempotencyError::UnexpectedError)),
        ),
    }
}

/// The decisions of one idempotent request, separated from the storage
/// work that a driver performs between them.
pub struct Flow {
    stage: Stage,
    pending: Option<ResponseRecord>,
}

impl Flow {
    pub closed spec fn stage(&self) -> Stage {
        self.stage
    }

    pub closed spec fn pending(&self) -> Option<ResponseModel> {
        match self.pending {
            Some(r) => Some(r@),
            None => None,
        }
    }

    /// A new request; the first step is the fast-path read.
    pub fn start<E>() -> (r: (Flow, Step<E>))
        ensures
            r.0.stage() == Stage::Started,
            r.0.pending() is None,
            r.1@ == StepModel::<E>::ReadSaved,
    {
        (Flow { stage: Stage::Started, pending: None }, Step::ReadSaved)
    }

    /// The stage the request is in.
    pub fn current(&self) -> (r: Stage)
        ensures
            r == self.stage(),
    {
        self.stage
    }

    /// Takes the driver's report of the last step and gives the next step.
    pub fn advance<E>(&mut self, event: Event<E>) -> (step: Step<E>)
        ensures
            (final(self).stage(), final(self).pending(), step@) == advance_spec(
                old(self).stage(),
                old(self).pending(),
                event@,
            ),
    {
        let stage = self.stage;
        match (stage, event) {
            (Stage::Started, Event::Read(Some(x))) | (Stage::Rereading, Event::Read(Some(x))) => {
                self.stage = Stage::Finished;
                Step::Reply(x)
            },
            (Stage::Started, Event::Read(None)) => {
                self.stage = Stage::Executing;
                Step::Execute
            },
            (Stage::Executing, Event::Computed(Err(e))) => {
                self.stage = Stage::Finished;
                Step::Fail(ExecuteError::Business(e))
            },
            (Stage::Executing, Event::Computed(Ok(x))) => {
                if x.status_code < crate::response::MIN_STATUS || x.status_code
                    > crate::response::MAX_STATUS {
                    self.stage = Stage::Finished;
                    return Step::Fail(ExecuteError::Idempotency(IdempotencyError::InvalidStatusCode));
                }
                let columns = encode(x.duplicate());
                self.stage = Stage::Saving;
                self.pending = Some(x);
                Step::Save(columns)
            },
            (Stage::Saving, Event::Inserted(Ok(()))) => {
                self.stage = Stage::Committing;
                Step::Commit
            },
            (Stage::Saving, Event::Inserted(Err(IdempotencyError::DuplicateKey)))
            | (Stage::Committing, Event::Committed(Err(IdempotencyError::DuplicateKey))) => {
                self.stage = Stage::Rereading;
                Step::RollbackAndReread
            },
            (Stage::Committing, Event::Committed(Ok(()))) => {
                self.stage = Stage::Finished;
                match self.pending.take() {
                    Some(p) => Step::Reply(p),
                    None => Step::Fail(ExecuteError::Idempotency(IdempotencyError::UnexpectedError)),
                }
            },
            _ => {
                self.stage = Stage::Finished;
                Step::Fail(ExecuteError::Idempotency(IdempotencyError::UnexpectedError))
            },
        }
    }
}

/// Runs the step machine against a store in state `s`: each step is
/// answered as the store would answer it and changes the store as it
/// would, the computation leaves transaction `t` and produces `o`, and the
/// staged row joins `t`. Gives the reply or error the machine ends with.
pub open spec fn drive<E>(
    s: StoreModel,
    caller: CallerId,
    key: Seq<char>,
    o: Result<ResponseModel, E>,
    stage: Stage,
    pending: Option<ResponseModel>,
    step: StepModel<E>,
    t: TxModel,
    fuel: nat,
) -> Result<ResponseModel, ExecuteError<E>>
    decreases fuel,
{
    if fuel == 0 {
        Err(ExecuteError::Idempotency(IdempotencyError::UnexpectedError))
    } else {
        match step {
            StepModel::Reply(w) => Ok(w),
            StepModel::Fail(e) => Err(e),
            StepModel::ReadSaved => {
                let (st, p, next) = advance_spec(stage, pending, EventModel::Read(saved(s, caller, key)));
                drive(s, caller, key, o, st, p, next, t, (fuel - 1) as nat)
            },
            StepModel::RollbackAndReread => {
                let s2 = rollback_spec(s, t);
                let (st, p, next) = advance_spec(stage, pending, EventModel::Read(saved(s2, caller, key)));
                drive(s2, caller, key, o, st, p, next, t, (fuel - 1) as nat)
            },
            StepModel::Execute => {
                let (st, p, next) = advance_spec(stage, pending, EventModel::Computed(o));
                drive(s, caller, key, o, st, p, next, t, (fuel - 1) as nat)
            },
            StepModel::Save(columns) => if has_pair(s.rows, caller, key) {
                let (st, p, next) = advance_spec(
                    stage,
                    pending,
                    EventModel::<E>::Inserted(Err(IdempotencyError::DuplicateKey)),
                );
                drive(s, caller, key, o, st, p, next, t, (fuel - 1) as nat)
            } else if is_reserved(s.reserved, caller, key) || has_pair(t.rows, caller, key) {
                let (st, p, next) = advance_spec(
                    stage,
                    pending,
                    EventModel::<E>::Inserted(Err(IdempotencyError::KeyInUse)),
                );
                drive(s, caller, key, o, st, p, next, t, (fuel - 1) as nat)
            } else {
                let t2 = TxModel {
                    rows: t.rows.push(RowModel { caller, key, response: columns }),
                    writes: t.writes,
                };
                let s2 = StoreModel {
                    rows: s.rows,
                    writes: s.writes,
                    reserved: s.reserved.push((caller, key)),
                };
                let (st, p, next) = advance_spec(stage, pending, EventModel::<E>::Inserted(Ok(())));
                drive(s2, caller, key, o, st, p, next, t2, (fuel - 1) as nat)
            },
            StepModel::Commit => {
                let (s2, report) = commit_spec(s, t);
                let (st, p, next) = advance_spec(stage, pending, EventModel::<E>::Committed(report));
                drive(s2, caller, key, o, st, p, next, t, (fuel - 1) as nat)
            },
        }
    }
}

/// A driver that carries out the machine's steps against a store and
/// reports the store's answers ends with exactly the reply of the
/// coordinator's execution for the same store, transaction and outcome.
pub proof fn lemma_flow_agrees_with_coordinator<E>(
    s: StoreModel,
    caller: CallerId,
    key: Seq<char>,
    t: TxModel,
    o: Result<ResponseModel, E>,
)
    ensures
        drive(s, caller, key, o, Stage::Started, None, StepModel::ReadSaved, t, 6) == execute_spec(
            s,
            caller,
            key,
            t,
            o,
        ).1,
{
    reveal_with_fuel(drive, 7);
}

} // verus!
