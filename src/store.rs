use crate::error::IdempotencyError;
use crate::key::IdempotencyKey;
use crate::response::{
    copy_bytes, copy_headers, decode, decode_spec, encode, encode_spec, valid_status,
    ResponseModel, ResponseRecord, StoredModel, StoredResponse,
};
use vstd::prelude::*;

verus! {

/// The authenticated principal under which keys are scoped.
pub type CallerId = u128;

/// A stored row, mathematically.
pub struct RowModel {
    pub caller: CallerId,
    pub key: Seq<char>,
    pub response: StoredModel,
}

/// A (caller, key) pair.
pub type PairModel = (CallerId, Seq<char>);

/// The state of the store: its committed idempotency rows and the business
/// writes that committed alongside them, both in commit order, and the
/// pairs that open transactions have saved a row for and not yet committed
/// or rolled back, as a unique index holds them.
pub struct StoreModel {
    pub rows: Seq<RowModel>,
    pub writes: Seq<Seq<u8>>,
    pub reserved: Seq<PairModel>,
}

/// What an open transaction holds and has not yet committed.
pub struct TxModel {
    pub rows: Seq<RowModel>,
    pub writes: Seq<Seq<u8>>,
}

pub open spec fn row_matches(row: RowModel, caller: CallerId, key: Seq<char>) -> bool {
    row.caller == caller && row.key == key
}

pub open spec fn has_pair(rows: Seq<RowModel>, caller: CallerId, key: Seq<char>) -> bool {
    exists|i: int| 0 <= i < rows.len() && row_matches(#[trigger] rows[i], caller, key)
}

/// At most one row per (caller, key) pair.
pub open spec fn unique_pairs(rows: Seq<RowModel>) -> bool {
    forall|i: int, j: int|
        0 <= i < rows.len() && 0 <= j < rows.len() && i != j ==> !row_matches(
            #[trigger] rows[i],
            (#[trigger] rows[j]).caller,
            rows[j].key,
        )
}

/// Rows are unique per pair and hold valid status codes only.
pub open spec fn rows_wf(rows: Seq<RowModel>) -> bool {
    &&& unique_pairs(rows)
    &&& forall|i: int| 0 <= i < rows.len() ==> valid_status(#[trigger] rows[i].response.status)
}

/// The stored response of the row for (caller, key), if there is one.
pub open spec fn lookup(rows: Seq<RowModel>, caller: CallerId, key: Seq<char>) -> Option<
    StoredModel,
> {
    if has_pair(rows, caller, key) {
        let i = choose|i: int| 0 <= i < rows.len() && row_matches(#[trigger] rows[i], caller, key);
        Some(rows[i].response)
    } else {
        None
    }
}

/// The response recorded for (caller, key), if one committed.
pub open spec fn saved(s: StoreModel, caller: CallerId, key: Seq<char>) -> Option<ResponseModel> {
    match lookup(s.rows, caller, key) {
        Some(st) => match decode_spec(st) {
            Ok(m) => Some(m),
            Err(_) => None,
        },
        None => None,
    }
}

/// Some pending row names a pair that already has a committed row.
pub open spec fn conflicts(committed: Seq<RowModel>, pending: Seq<RowModel>) -> bool {
    exists|i: int|
        0 <= i < pending.len() && has_pair(committed, (#[trigger] pending[i]).caller, pending[i].key)
}

/// Some open transaction has saved a row for (caller, key).
pub open spec fn is_reserved(reserved: Seq<PairModel>, caller: CallerId, key: Seq<char>) -> bool {
    exists|i: int| 0 <= i < reserved.len() && #[trigger] reserved[i] == (caller, key)
}

/// The reservations left once a transaction whose staged rows are `staged`
/// ends: those for its pairs are dropped, the others kept in order.
pub open spec fn release(reserved: Seq<PairModel>, staged: Seq<RowModel>) -> Seq<PairModel>
    decreases reserved.len(),
{
    if reserved.len() == 0 {
        reserved
    } else {
        let rest = release(reserved.drop_last(), staged);
        let p = reserved.last();
        if has_pair(staged, p.0, p.1) {
            rest
        } else {
            rest.push(p)
        }
    }
}

/// The store after the transaction `t` is rolled back: nothing of it is
/// applied and its reservations are dropped.
pub open spec fn rollback_spec(s: StoreModel, t: TxModel) -> StoreModel {
    StoreModel { rows: s.rows, writes: s.writes, reserved: release(s.reserved, t.rows) }
}

/// Committing applies every pending row and write, or nothing when a
/// pending row collides with a committed one or with another pending row.
/// Either way the transaction ends and its reservations are dropped.
pub open spec fn commit_spec(s: StoreModel, t: TxModel) -> (StoreModel, Result<(), IdempotencyError>) {
    if conflicts(s.rows, t.rows) || !unique_pairs(t.rows) {
        (rollback_spec(s, t), Err(IdempotencyError::DuplicateKey))
    } else {
        (
            StoreModel {
                rows: s.rows + t.rows,
                writes: s.writes + t.writes,
                reserved: release(s.reserved, t.rows),
            },
            Ok(()),
        )
    }
}

/// Saving stages one row in the transaction and reserves its pair in the
/// store. It is refused for a status outside the HTTP range; with
/// `DuplicateKey` exactly when a committed row holds the pair; and with
/// `KeyInUse` when an open transaction (this one included) has saved a row
/// for the pair, where an insert would wait for that transaction to end.
pub open spec fn save_spec(
    s: StoreModel,
    t: TxModel,
    caller: CallerId,
    key: Seq<char>,
    r: ResponseModel,
) -> Result<(StoreModel, TxModel), IdempotencyError> {
    if !valid_status(r.status) {
        Err(IdempotencyError::InvalidStatusCode)
    } else if has_pair(s.rows, caller, key) {
        Err(IdempotencyError::DuplicateKey)
    } else if is_reserved(s.reserved, caller, key) || has_pair(t.rows, caller, key) {
        Err(IdempotencyError::KeyInUse)
    } else {
        Ok(
            (
                StoreModel { rows: s.rows, writes: s.writes, reserved: s.reserved.push((caller, key)) },
                TxModel {
                    rows: t.rows.push(RowModel { caller, key, response: encode_spec(r) }),
                    writes: t.writes,
                },
            ),
        )
    }
}

/// Releasing for staged rows whose pairs hold no reservation keeps every
/// reservation.
pub proof fn lemma_release_keeps(reserved: Seq<PairModel>, staged: Seq<RowModel>)
    requires
        forall|i: int| 0 <= i < reserved.len() ==> !has_pair(staged, (#[trigger] reserved[i]).0, reserved[i].1),
    ensures
        release(reserved, staged) == reserved,
    decreases reserved.len(),
{
    if reserved.len() > 0 {
        let rest = reserved.drop_last();
        assert forall|i: int| 0 <= i < rest.len() implies !has_pair(staged, (#[trigger] rest[i]).0, rest[i].1) by {
            assert(rest[i] == reserved[i]);
        }
        lemma_release_keeps(rest, staged);
        assert(rest.push(reserved.last()) =~= reserved);
    }
}

/// Once a save for (caller, key) has succeeded, every other save for that
/// pair gets `KeyInUse` while the saving transaction is open, there being
/// no committed row yet; once it has committed, every save gets
/// `DuplicateKey`.
pub proof fn lemma_save_excludes(
    s: StoreModel,
    t1: TxModel,
    t2: TxModel,
    caller: CallerId,
    key: Seq<char>,
    r1: ResponseModel,
    r2: ResponseModel,
)
    requires
        save_spec(s, t1, caller, key, r1) is Ok,
        valid_status(r2.status),
    ensures
        ({
            let (s1, t1s) = save_spec(s, t1, caller, key, r1)->Ok_0;
            &&& !has_pair(s1.rows, caller, key)
            &&& save_spec(s1, t2, caller, key, r2) == Err::<(StoreModel, TxModel), IdempotencyError>(
                IdempotencyError::KeyInUse,
            )
            &&& commit_spec(s1, t1s).1 is Ok ==> save_spec(commit_spec(s1, t1s).0, t2, caller, key, r2)
                == Err::<(StoreModel, TxModel), IdempotencyError>(IdempotencyError::DuplicateKey)
        }),
{
    let (s1, t1s) = save_spec(s, t1, caller, key, r1)->Ok_0;
    assert(s1.reserved[s.reserved.len() as int] == (caller, key));
    assert(is_reserved(s1.reserved, caller, key));
    let n = t1.rows.len() as int;
    assert(row_matches(t1s.rows[n], caller, key));
    let s2 = commit_spec(s1, t1s).0;
    if commit_spec(s1, t1s).1 is Ok {
        assert(s2.rows[s1.rows.len() + n] == t1s.rows[n]);
        assert(has_pair(s2.rows, caller, key));
    }
}

/// Two row lists with no pair in common concatenate into a well-formed list.
pub proof fn lemma_concat_wf(a: Seq<RowModel>, b: Seq<RowModel>)
    requires
        rows_wf(a),
        rows_wf(b),
        !conflicts(a, b),
    ensures
        rows_wf(a + b),
{
    let c = a + b;
    assert forall|i: int, j: int|
        0 <= i < c.len() && 0 <= j < c.len() && i != j implies !row_matches(
            #[trigger] c[i],
            (#[trigger] c[j]).caller,
            c[j].key,
        ) by {
        if i < a.len() && j >= a.len() {
            if row_matches(c[i], c[j].caller, c[j].key) {
                assert(row_matches(a[i], b[j - a.len()].caller, b[j - a.len()].key));
                assert(has_pair(a, b[j - a.len()].caller, b[j - a.len()].key));
            }
        } else if j < a.len() && i >= a.len() {
            if row_matches(c[i], c[j].caller, c[j].key) {
                assert(row_matches(a[j], b[i - a.len()].caller, b[i - a.len()].key));
                assert(has_pair(a, b[i - a.len()].caller, b[i - a.len()].key));
            }
        } else if i >= a.len() {
            assert(c[i] == b[i - a.len()] && c[j] == b[j - a.len()]);
        }
    }
    assert forall|i: int| 0 <= i < c.len() implies valid_status(#[trigger] c[i].response.status) by {
        if i >= a.len() {
            assert(c[i] == b[i - a.len()]);
        }
    }
}

/// Two row lists, each unique per pair and with no pair in common,
/// concatenate into a list unique per pair.
pub proof fn lemma_concat_unique(a: Seq<RowModel>, b: Seq<RowModel>)
    requires
        unique_pairs(a),
        unique_pairs(b),
        !conflicts(a, b),
    ensures
        unique_pairs(a + b),
{
    let c = a + b;
    assert forall|i: int, j: int|
        0 <= i < c.len() && 0 <= j < c.len() && i != j implies !row_matches(
            #[trigger] c[i],
            (#[trigger] c[j]).caller,
            c[j].key,
        ) by {
        if i < a.len() && j >= a.len() {
            if row_matches(c[i], c[j].caller, c[j].key) {
                assert(row_matches(a[i], b[j - a.len()].caller, b[j - a.len()].key));
                assert(has_pair(a, b[j - a.len()].caller, b[j - a.len()].key));
            }
        } else if j < a.len() && i >= a.len() {
            if row_matches(c[i], c[j].caller, c[j].key) {
                assert(row_matches(a[j], b[i - a.len()].caller, b[i - a.len()].key));
                assert(has_pair(a, b[i - a.len()].caller, b[i - a.len()].key));
            }
        } else if i >= a.len() {
            assert(c[i] == b[i - a.len()] && c[j] == b[j - a.len()]);
        }
    }
}

/// Extending a row list unique per pair keeps the row of every pair it
/// already held.
pub proof fn lemma_lookup_prefix(a: Seq<RowModel>, b: Seq<RowModel>, caller: CallerId, key: Seq<char>)
    requires
        unique_pairs(b),
        a.len() <= b.len(),
        b.subrange(0, a.len() as int) == a,
        has_pair(a, caller, key),
    ensures
        has_pair(b, caller, key),
        lookup(b, caller, key) == lookup(a, caller, key),
{
    let i = choose|i: int| 0 <= i < a.len() && row_matches(#[trigger] a[i], caller, key);
    assert(b[i] == b.subrange(0, a.len() as int)[i]);
    assert(row_matches(b[i], caller, key));
    let j = choose|j: int| 0 <= j < b.len() && row_matches(#[trigger] b[j], caller, key);
    assert(j == i);
}

/// The store and the results after committing the transactions `txs` one
/// after another.
pub open spec fn commit_all(s: StoreModel, txs: Seq<TxModel>) -> (StoreModel, Seq<
    Result<(), IdempotencyError>,
>)
    decreases txs.len(),
{
    if txs.len() == 0 {
        (s, Seq::empty())
    } else {
        let (s1, r) = commit_spec(s, txs[0]);
        let (sn, rs) = commit_all(s1, txs.drop_first());
        (sn, seq![r] + rs)
    }
}

/// Over any sequence of commits, at most one transaction holding a row for
/// (caller, key) commits, and none does when the store already holds such a
/// row; committed rows are never replaced, so the response saved for a
/// pair stays the same once it is there.
pub proof fn lemma_one_commit_per_pair(
    s: StoreModel,
    txs: Seq<TxModel>,
    caller: CallerId,
    key: Seq<char>,
)
    requires
        unique_pairs(s.rows),
    ensures
        ({
            let (sn, rs) = commit_all(s, txs);
            &&& rs.len() == txs.len()
            &&& unique_pairs(sn.rows)
            &&& s.rows.len() <= sn.rows.len()
            &&& sn.rows.subrange(0, s.rows.len() as int) == s.rows
            &&& has_pair(s.rows, caller, key) ==> forall|i: int|
                0 <= i < txs.len() && has_pair((#[trigger] txs[i]).rows, caller, key) ==> rs[i]
                    == Err::<(), IdempotencyError>(IdempotencyError::DuplicateKey)
            &&& forall|i: int, j: int|
                0 <= i < j < txs.len() && has_pair((#[trigger] txs[i]).rows, caller, key) && has_pair(
                    (#[trigger] txs[j]).rows,
                    caller,
                    key,
                ) && rs[i] is Ok ==> rs[j] == Err::<(), IdempotencyError>(IdempotencyError::DuplicateKey)
            &&& has_pair(s.rows, caller, key) ==> saved(sn, caller, key) == saved(s, caller, key)
        }),
    decreases txs.len(),
{
    let (sn, rs) = commit_all(s, txs);
    if txs.len() == 0 {
        assert(s.rows.subrange(0, s.rows.len() as int) =~= s.rows);
    } else {
        let t0 = txs[0];
        let rest = txs.drop_first();
        let (s1, r0) = commit_spec(s, t0);
        let rs1 = commit_all(s1, rest).1;
        if r0 is Ok {
            lemma_concat_unique(s.rows, t0.rows);
        }
        assert(s1.rows.subrange(0, s.rows.len() as int) =~= s.rows);
        lemma_one_commit_per_pair(s1, rest, caller, key);
        assert(sn.rows.subrange(0, s.rows.len() as int) =~= sn.rows.subrange(
            0,
            s1.rows.len() as int,
        ).subrange(0, s.rows.len() as int));
        assert(rs == seq![r0] + rs1);
        assert forall|i: int| 0 <= i < rest.len() implies #[trigger] rest[i] == txs[i + 1] by {}
        if has_pair(s.rows, caller, key) {
            lemma_lookup_prefix(s.rows, s1.rows, caller, key);
            assert forall|i: int|
                0 <= i < txs.len() && has_pair((#[trigger] txs[i]).rows, caller, key) implies rs[i]
                    == Err::<(), IdempotencyError>(IdempotencyError::DuplicateKey) by {
                if i == 0 {
                    let m = choose|m: int| 0 <= m < t0.rows.len() && row_matches(#[trigger] t0.rows[m], caller, key);
                    assert(has_pair(s.rows, t0.rows[m].caller, t0.rows[m].key));
                    assert(conflicts(s.rows, t0.rows));
                } else {
                    assert(rest[i - 1] == txs[i]);
                    assert(rs[i] == rs1[i - 1]);
                }
            }
            lemma_lookup_prefix(s1.rows, sn.rows, caller, key);
        }
        assert forall|i: int, j: int|
            0 <= i < j < txs.len() && has_pair((#[trigger] txs[i]).rows, caller, key) && has_pair(
                (#[trigger] txs[j]).rows,
                caller,
                key,
            ) && rs[i] is Ok implies rs[j] == Err::<(), IdempotencyError>(IdempotencyError::DuplicateKey) by {
            assert(rest[j - 1] == txs[j]);
            assert(rs[j] == rs1[j - 1]);
            if i == 0 {
                let m = choose|m: int| 0 <= m < t0.rows.len() && row_matches(#[trigger] t0.rows[m], caller, key);
                assert(s1.rows[s.rows.len() + m] == t0.rows[m]);
                assert(has_pair(s1.rows, caller, key));
            } else {
                assert(rest[i - 1] == txs[i]);
                assert(rs[i] == rs1[i - 1]);
            }
        }
    }
}

/// A well-formed store holds a row for a pair exactly when a response is
/// saved for it.
pub proof fn lemma_saved_iff_row(s: StoreModel, caller: CallerId, key: Seq<char>)
    requires
        rows_wf(s.rows),
    ensures
        saved(s, caller, key) is Some <==> has_pair(s.rows, caller, key),
{
    if has_pair(s.rows, caller, key) {
        let i = choose|i: int| 0 <= i < s.rows.len() && row_matches(#[trigger] s.rows[i], caller, key);
        assert(valid_status(s.rows[i].response.status));
    }
}

/// Once a transaction holding a row for (caller, key) has committed, no
/// other transaction holding a row for the same pair can commit.
pub proof fn lemma_single_commit(
    s: StoreModel,
    t1: TxModel,
    t2: TxModel,
    caller: CallerId,
    key: Seq<char>,
)
    requires
        has_pair(t1.rows, caller, key),
        has_pair(t2.rows, caller, key),
        commit_spec(s, t1).1 is Ok,
    ensures
        commit_spec(commit_spec(s, t1).0, t2).1 == Err::<(), IdempotencyError>(
            IdempotencyError::DuplicateKey,
        ),
{
    let s1 = commit_spec(s, t1).0;
    let i1 = choose|i: int| 0 <= i < t1.rows.len() && row_matches(#[trigger] t1.rows[i], caller, key);
    let i2 = choose|i: int| 0 <= i < t2.rows.len() && row_matches(#[trigger] t2.rows[i], caller, key);
    assert(s1.rows[s.rows.len() + i1] == t1.rows[i1]);
    assert(has_pair(s1.rows, t2.rows[i2].caller, t2.rows[i2].key));
    assert(conflicts(s1.rows, t2.rows));
}

/// A committed row.
pub struct IdempotencyRow {
    caller: CallerId,
    key: IdempotencyKey,
    response: StoredResponse,
}

impl View for IdempotencyRow {
    type V = RowModel;

    closed spec fn view(&self) -> RowModel {
        RowModel { caller: self.caller, key: self.key@, response: self.response@ }
    }
}

impl IdempotencyRow {
    #[verifier::type_invariant]
    closed spec fn inv(&self) -> bool {
        valid_status(self.response@.status)
    }

    fn is_for(&self, caller: CallerId, key: &IdempotencyKey) -> (r: bool)
        ensures
            r == row_matches(self@, caller, key@),
    {
        self.caller == caller && self.key.same_as(key)
    }

    /// The row's response, decoded from a copy of its columns.
    fn response_copy(&self) -> (r: Result<ResponseRecord, IdempotencyError>)
        ensures
            match r {
                Ok(x) => decode_spec(self@.response) == Ok::<ResponseModel, IdempotencyError>(x@),
                Err(e) => decode_spec(self@.response) == Err::<ResponseModel, IdempotencyError>(e),
            },
    {
        decode(
            StoredResponse {
                status_code: self.response.status_code,
                headers: copy_headers(&self.response.headers),
                body: copy_bytes(&self.response.body),
            },
        )
    }
}

pub open spec fn rows_view(rows: Seq<IdempotencyRow>) -> Seq<RowModel> {
    rows.map_values(|r: IdempotencyRow| r@)
}

pub open spec fn writes_view(writes: Seq<Vec<u8>>) -> Seq<Seq<u8>> {
    writes.map_values(|w: Vec<u8>| w@)
}

/// Index of a row for (caller, key) among the first `end` rows, if any.
fn find_row(rows: &Vec<IdempotencyRow>, end: usize, caller: CallerId, key: &IdempotencyKey) -> (r:
    Option<usize>)
    requires
        end <= rows@.len(),
    ensures
        match r {
            Some(i) => i < end && row_matches(rows_view(rows@)[i as int], caller, key@),
            None => forall|j: int|
                0 <= j < end ==> !row_matches(#[trigger] rows_view(rows@)[j], caller, key@),
        },
{
    let mut i: usize = 0;
    while i < end
        invariant
            0 <= i <= end,
            end <= rows@.len(),
            forall|j: int| 0 <= j < i ==> !row_matches(#[trigger] rows_view(rows@)[j], caller, key@),
        decreases end - i,
    {
        if rows[i].is_for(caller, key) {
            return Some(i);
        }
        i = i + 1;
    }
    None
}

/// An open storage transaction: business writes and idempotency rows that
/// become visible together at commit, or never.
pub struct Transaction {
    rows: Vec<IdempotencyRow>,
    writes: Vec<Vec<u8>>,
}

impl View for Transaction {
    type V = TxModel;

    closed spec fn view(&self) -> TxModel {
        TxModel { rows: rows_view(self.rows@), writes: writes_view(self.writes@) }
    }
}

impl Transaction {
    /// Stages a business write in this transaction.
    pub fn record_write(&mut self, payload: Vec<u8>)
        ensures
            final(self)@ == (TxModel { rows: old(self)@.rows, writes: old(self)@.writes.push(payload@) }),
    {
        self.writes.push(payload);
        assert(rows_view(self.rows@) =~= old(self)@.rows);
        assert(writes_view(self.writes@) =~= old(self)@.writes.push(payload@));
    }

    /// Number of business writes staged so far.
    pub fn pending_writes(&self) -> (r: usize)
        ensures
            r == self@.writes.len(),
    {
        self.writes.len()
    }
}

pub open spec fn reserved_view(reserved: Seq<(CallerId, IdempotencyKey)>) -> Seq<PairModel> {
    reserved.map_values(|p: (CallerId, IdempotencyKey)| (p.0, p.1@))
}

/// Whether some reservation names (caller, key).
fn find_reservation(reserved: &Vec<(CallerId, IdempotencyKey)>, caller: CallerId, key: &IdempotencyKey) -> (r: bool)
    ensures
        r == is_reserved(reserved_view(reserved@), caller, key@),
{
    let ghost v = reserved_view(reserved@);
    let mut i: usize = 0;
    while i < reserved.len()
        invariant
            0 <= i <= reserved.len(),
            v == reserved_view(reserved@),
            forall|j: int| 0 <= j < i ==> #[trigger] v[j] != (caller, key@),
        decreases reserved.len() - i,
    {
        if reserved[i].0 == caller && reserved[i].1.same_as(key) {
            assert(v[i as int] == (caller, key@));
            return true;
        }
        i = i + 1;
    }
    false
}

/// The reservations that are left once a transaction staging `staged` ends.
fn release_exec(reserved: &Vec<(CallerId, IdempotencyKey)>, staged: &Vec<IdempotencyRow>) -> (r: Vec<
    (CallerId, IdempotencyKey),
>)
    ensures
        reserved_view(r@) == release(reserved_view(reserved@), rows_view(staged@)),
{
    let ghost v = reserved_view(reserved@);
    let ghost st = rows_view(staged@);
    let mut kept: Vec<(CallerId, IdempotencyKey)> = Vec::new();
    let mut i: usize = 0;
    assert(v.take(0) =~= Seq::<PairModel>::empty());
    assert(reserved_view(kept@) =~= Seq::<PairModel>::empty());
    while i < reserved.len()
        invariant
            0 <= i <= reserved.len(),
            v == reserved_view(reserved@),
            st == rows_view(staged@),
            reserved_view(kept@) == release(v.take(i as int), st),
        decreases reserved.len() - i,
    {
        let pair = &reserved[i];
        let found = find_row(staged, staged.len(), pair.0, &pair.1);
        assert(v.take(i + 1).drop_last() =~= v.take(i as int));
        assert(v.take(i + 1).last() == v[i as int]);
        if found.is_none() {
            assert(!has_pair(st, v[i as int].0, v[i as int].1));
            kept.push((pair.0, pair.1.clone()));
            assert(reserved_view(kept@) =~= release(v.take(i as int), st).push(v[i as int]));
        } else {
            let k = found.unwrap();
            assert(row_matches(st[k as int], v[i as int].0, v[i as int].1));
        }
        i = i + 1;
    }
    assert(v.take(reserved@.len() as int) =~= v);
    kept
}

/// The durable table of idempotency rows, with a uniqueness constraint on
/// (caller, key), together with the business writes committed with them.
/// A pair that an open transaction has saved a row for stays reserved
/// until that transaction commits or rolls back.
pub struct ResponseStore {
    rows: Vec<IdempotencyRow>,
    writes: Vec<Vec<u8>>,
    reserved: Vec<(CallerId, IdempotencyKey)>,
}

impl View for ResponseStore {
    type V = StoreModel;

    closed spec fn view(&self) -> StoreModel {
        StoreModel {
            rows: rows_view(self.rows@),
            writes: writes_view(self.writes@),
            reserved: reserved_view(self.reserved@),
        }
    }
}

impl ResponseStore {
    /// Rows unique per pair, with valid status codes.
    pub open spec fn wf(&self) -> bool {
        rows_wf(self@.rows)
    }

    /// An empty store.
    pub fn new() -> (r: ResponseStore)
        ensures
            r.wf(),
            r@.rows.len() == 0,
            r@.writes.len() == 0,
            r@.reserved.len() == 0,
    {
        let r = ResponseStore { rows: Vec::new(), writes: Vec::new(), reserved: Vec::new() };
        assert(rows_view(r.rows@) =~= Seq::<RowModel>::empty());
        r
    }

    /// Opens a transaction that holds nothing yet.
    pub fn begin(&self) -> (t: Transaction)
        ensures
            t@.rows.len() == 0,
            t@.writes.len() == 0,
    {
        Transaction { rows: Vec::new(), writes: Vec::new() }
    }

    /// Number of committed business writes.
    pub fn committed_writes(&self) -> (r: usize)
        ensures
            r == self@.writes.len(),
    {
        self.writes.len()
    }

    /// Number of committed idempotency rows.
    pub fn row_count(&self) -> (r: usize)
        ensures
            r == self@.rows.len(),
    {
        self.rows.len()
    }

    /// Number of pairs reserved by open transactions.
    pub fn reservation_count(&self) -> (r: usize)
        ensures
            r == self@.reserved.len(),
    {
        self.reserved.len()
    }

    /// Rolls `tx` back: none of it is applied, and the pairs it saved rows
    /// for are free again.
    pub fn rollback(&mut self, tx: Transaction)
        ensures
            final(self)@ == rollback_spec(old(self)@, tx@),
    {
        self.reserved = release_exec(&self.reserved, &tx.rows);
    }

    /// Commits `tx`: all of its rows and writes become visible, or, when
    /// one of its rows collides with a committed row or with another of its
    /// rows, none of them do. Either way its reservations are dropped.
    pub fn commit(&mut self, tx: Transaction) -> (r: Result<(), IdempotencyError>)
        requires
            old(self).wf(),
        ensures
            final(self).wf(),
            (final(self)@, r) == commit_spec(old(self)@, tx@),
    {
        let ghost t = tx@;
        let kept = release_exec(&self.reserved, &tx.rows);
        let mut i: usize = 0;
        while i < tx.rows.len()
            invariant
                0 <= i <= tx.rows.len(),
                t == tx@,
                self@ == old(self)@,
                reserved_view(kept@) == release(old(self)@.reserved, t.rows),
                rows_wf(self@.rows),
                forall|j: int|
                    0 <= j < i ==> !has_pair(
                        self@.rows,
                        (#[trigger] t.rows[j]).caller,
                        t.rows[j].key,
                    ),
                forall|j: int| 0 <= j < i ==> valid_status(#[trigger] t.rows[j].response.status),
                forall|a: int, b: int|
                    0 <= a < i && 0 <= b < i && a != b ==> !row_matches(
                        #[trigger] t.rows[a],
                        (#[trigger] t.rows[b]).caller,
                        t.rows[b].key,
                    ),
            decreases tx.rows.len() - i,
        {
            let row = &tx.rows[i];
            proof {
                use_type_invariant(row);
            }
            assert(t.rows[i as int] == row@);
            if let Some(k) = find_row(&self.rows, self.rows.len(), row.caller, &row.key) {
                assert(row_matches(self@.rows[k as int], t.rows[i as int].caller, t.rows[i as int].key));
                assert(has_pair(self@.rows, t.rows[i as int].caller, t.rows[i as int].key));
                self.reserved = kept;
                return Err(IdempotencyError::DuplicateKey);
            }
            if let Some(k) = find_row(&tx.rows, i, row.caller, &row.key) {
                assert(row_matches(t.rows[k as int], t.rows[i as int].caller, t.rows[i as int].key));
                assert(!unique_pairs(t.rows));
                self.reserved = kept;
                return Err(IdempotencyError::DuplicateKey);
            }
            i = i + 1;
        }
        proof {
            assert(!conflicts(self@.rows, t.rows));
            lemma_concat_wf(self@.rows, t.rows);
        }
        let Transaction { rows: mut pending, writes: mut pending_writes } = tx;
        self.rows.append(&mut pending);
        self.writes.append(&mut pending_writes);
        self.reserved = kept;
        assert(rows_view(self.rows@) =~= old(self)@.rows + t.rows);
        assert(writes_view(self.writes@) =~= old(self)@.writes + t.writes);
        Ok(())
    }
}

/// Reads the response saved for (caller, key). Needs no transaction and
/// changes nothing.
pub fn get_saved_response(store: &ResponseStore, key: &IdempotencyKey, caller: CallerId) -> (r:
    Result<Option<ResponseRecord>, IdempotencyError>)
    requires
        store.wf(),
    ensures
        match r {
            Ok(Some(x)) => saved(store@, caller, key@) == Some(x@),
            Ok(None) => saved(store@, caller, key@) is None,
            Err(_) => false,
        },
{
    match find_row(&store.rows, store.rows.len(), caller, key) {
        None => {
            assert(!has_pair(store@.rows, caller, key@));
            Ok(None)
        },
        Some(i) => {
            proof {
                let rows = store@.rows;
                let j = choose|j: int| 0 <= j < rows.len() && row_matches(#[trigger] rows[j], caller, key@);
                assert(row_matches(rows[i as int], caller, key@));
                assert(j == i);
            }
            match store.rows[i].response_copy() {
                Ok(x) => Ok(Some(x)),
                Err(e) => Err(e),
            }
        },
    }
}

/// Stages the row for (caller, key) with `record` in `tx` and reserves the
/// pair, so that no other save for it succeeds while `tx` is open: those
/// get `KeyInUse` and may be retried once `tx` ends. Returns
/// the response rebuilt from what was staged. The row becomes visible when
/// `tx` commits.
pub fn save_response(
    store: &mut ResponseStore,
    tx: &mut Transaction,
    key: &IdempotencyKey,
    caller: CallerId,
    record: ResponseRecord,
) -> (r: Result<ResponseRecord, IdempotencyError>)
    ensures
        final(store).wf() == old(store).wf(),
        match save_spec(old(store)@, old(tx)@, caller, key@, record@) {
            Ok((s, t)) => r matches Ok(x) && x@ == record@ && final(store)@ == s && final(tx)@ == t,
            Err(e) => r == Err::<ResponseRecord, IdempotencyError>(e) && final(store)@ == old(store)@
                && final(tx)@ == old(tx)@,
        },
{
    if record.status_code < crate::response::MIN_STATUS || record.status_code
        > crate::response::MAX_STATUS {
        return Err(IdempotencyError::InvalidStatusCode);
    }
    if let Some(k) = find_row(&store.rows, store.rows.len(), caller, key) {
        assert(row_matches(store@.rows[k as int], caller, key@));
        return Err(IdempotencyError::DuplicateKey);
    }
    let reserved = find_reservation(&store.reserved, caller, key);
    let in_tx = find_row(&tx.rows, tx.rows.len(), caller, key);
    if reserved || in_tx.is_some() {
        proof {
            if let Some(k) = in_tx {
                assert(row_matches(old(tx)@.rows[k as int], caller, key@));
            }
        }
        return Err(IdempotencyError::KeyInUse);
    }
    assert(!has_pair(store@.rows, caller, key@));
    assert(!has_pair(old(tx)@.rows, caller, key@));
    let ghost m = record@;
    let stored = encode(record);
    let row = IdempotencyRow { caller, key: key.clone(), response: stored };
    let reply = row.response_copy();
    tx.rows.push(row);
    store.reserved.push((caller, key.clone()));
    assert(rows_view(tx.rows@) =~= old(tx)@.rows.push(
        RowModel { caller, key: key@, response: encode_spec(m) },
    ));
    assert(writes_view(tx.writes@) =~= old(tx)@.writes);
    assert(reserved_view(store.reserved@) =~= old(store)@.reserved.push((caller, key@)));
    assert(rows_view(store.rows@) =~= old(store)@.rows);
    assert(writes_view(store.writes@) =~= old(store)@.writes);
    match reply {
        Ok(x) => Ok(x),
        Err(e) => Err(e),
    }
}

} // verus!
