//! The queue of updates of indexes: what of a table is kept in memory, and
//! what an update does to each index.

use vstd::prelude::*;
use vstd::string::*;

use crate::bson::Bson;
use crate::error::{ErrV, StorageError};
use crate::index_sync::{has_keys, is_projected, item_has_index_keys, project_item};
use crate::item::{opt_item, Item, ItemV};
use crate::schema::{schema_view, AttributeDefinition, KeySchemaElement, KeyType, Projection};
use crate::schema_json::{
    defs_of, defs_view, projection_of, read_defs, read_projection, read_schema, schema_of,
    ProjectionV,
};
use crate::text::{contains_text, occurs_in, text_eq};

verus! {

/// How many tasks take updates from the queue.
pub const NUM_WORKERS: u64 = 4;

/// How many updates a task takes at once.
pub const BATCH_SIZE: i64 = 100;

/// For how many milliseconds what is known of a table is used.
pub const CACHE_MILLIS: u128 = 30_000;

/// For how many milliseconds a task without updates waits.
pub const POLL_MILLIS: u64 = 1_000;

/// What is known of a table may be used at an age in milliseconds.
pub fn is_fresh(age: u128) -> (r: bool)
    ensures
        r == (age < CACHE_MILLIS),
{
    age < CACHE_MILLIS
}

/// An error that says that a relation does not exist.
pub open spec fn is_missing_table(e: ErrV) -> bool {
    e matches ErrV::Internal(m) && occurs_in(m, "42P01"@)
}

/// Whether an error says that a relation does not exist.
pub fn is_undefined_table(e: &StorageError) -> (r: bool)
    ensures
        r == is_missing_table(e@),
{
    match e {
        StorageError::Internal(m) => contains_text(m.as_str(), "42P01"),
        _ => false,
    }
}

/// The outcome of an update of an index: that the index is gone is passed
/// over.
pub fn tolerate(r: Result<(), StorageError>) -> (out: Result<(), StorageError>)
    ensures
        match r {
            Ok(_) => out is Ok,
            Err(e) => if is_missing_table(e@) {
                out is Ok
            } else {
                out == r
            },
        },
{
    match r {
        Ok(_) => Ok(()),
        Err(e) => if is_undefined_table(&e) {
            Ok(())
        } else {
            Err(e)
        },
    }
}

/// What a task does after a batch.
#[derive(Debug, Clone, Copy, PartialEq, Eq, Structural)]
pub enum AfterBatch {
    /// Take the next batch.
    Again,
    /// Wait until there are updates, or for a while.
    Wait,
    /// Wait for a while.
    Sleep,
}

/// What a task does after a batch of so many updates, or a failure.
pub fn after_batch(processed: Option<usize>) -> (r: AfterBatch)
    ensures
        r == (match processed {
            Some(n) => if n == 0 {
                AfterBatch::Wait
            } else {
                AfterBatch::Again
            },
            None => AfterBatch::Sleep,
        }),
{
    match processed {
        Some(n) => if n == 0 {
            AfterBatch::Wait
        } else {
            AfterBatch::Again
        },
        None => AfterBatch::Sleep,
    }
}

// --- A batch -------------------------------------------------------------------------

/// Where a batch stands. A row is taken off the queue, applied and committed in
/// one transaction; `taken` is the number of rows so far.
#[derive(Debug, PartialEq)]
pub enum BatchState {
    /// The transaction of the next row is being begun.
    Beginning { after: i64, taken: i64 },
    /// The next row that is ready is being taken off the queue.
    Claiming { after: i64, taken: i64 },
    /// The updates of the row are being applied.
    Applying { row: i64, taken: i64 },
    /// The transaction of the row is being ended.
    Ending { row: i64, taken: i64 },
}

/// What a batch does next.
#[derive(Debug, PartialEq)]
pub enum BatchAction {
    /// Begin a transaction.
    Begin,
    /// Take the first row with a greater number off the queue, within the
    /// transaction.
    Claim { after: i64 },
    /// Apply the updates of a row, within the transaction.
    Apply { row: i64 },
    /// Make what was done in the transaction last.
    Commit,
    /// Undo what was done in the transaction, because of an error.
    RollBack(StorageError),
}

/// What came of an action.
#[derive(Debug, PartialEq)]
pub enum BatchEvent {
    Begun,
    /// The number of the row that was taken; none where no row is ready.
    Claimed(Option<i64>),
    Applied(Result<(), StorageError>),
    Ended,
    /// The database refused the action.
    Refused(StorageError),
}

/// A step of a batch.
#[derive(Debug, PartialEq)]
pub enum BatchStep {
    Do(BatchState, BatchAction),
    /// The batch has ended with so many rows, or was refused.
    Done(Result<usize, StorageError>),
}

/// A batch takes no more rows than it may.
pub open spec fn is_batch(state: BatchState) -> bool {
    match state {
        BatchState::Beginning { taken, .. } => 0 <= taken < BATCH_SIZE,
        BatchState::Claiming { taken, .. } => 0 <= taken < BATCH_SIZE,
        BatchState::Applying { taken, .. } => 0 < taken <= BATCH_SIZE,
        BatchState::Ending { taken, .. } => 0 < taken <= BATCH_SIZE,
    }
}

/// How a batch goes on with what came of an action. A row whose updates fail
/// is put back by undoing its transaction, and the batch goes on behind it.
pub open spec fn batch_goes_on(state: BatchState, event: BatchEvent, step: BatchStep) -> bool {
    match (state, event) {
        (_, BatchEvent::Refused(e)) => step == BatchStep::Done(Err(e)),
        (BatchState::Beginning { after, taken }, BatchEvent::Begun) => step == BatchStep::Do(
            BatchState::Claiming { after, taken },
            BatchAction::Claim { after },
        ),
        (BatchState::Claiming { taken, .. }, BatchEvent::Claimed(None)) => step == BatchStep::Done(
            Ok(taken as usize),
        ),
        (BatchState::Claiming { taken, .. }, BatchEvent::Claimed(Some(row))) => step
            == BatchStep::Do(
            BatchState::Applying { row, taken: (taken + 1) as i64 },
            BatchAction::Apply { row },
        ),
        (BatchState::Applying { row, taken }, BatchEvent::Applied(Ok(_))) => step == BatchStep::Do(
            BatchState::Ending { row, taken },
            BatchAction::Commit,
        ),
        (BatchState::Applying { row, taken }, BatchEvent::Applied(Err(e))) => step
            == BatchStep::Do(BatchState::Ending { row, taken }, BatchAction::RollBack(e)),
        (BatchState::Ending { row, taken }, BatchEvent::Ended) => if taken < BATCH_SIZE {
            step == BatchStep::Do(
                BatchState::Beginning { after: row, taken },
                BatchAction::Begin,
            )
        } else {
            step == BatchStep::Done(Ok(taken as usize))
        },
        _ => step matches BatchStep::Done(Err(e)) && e@ == ErrV::Internal("unexpected event"@),
    }
}

/// Begins a batch.
pub fn batch_start() -> (step: BatchStep)
    ensures
        step == BatchStep::Do(
            BatchState::Beginning { after: i64::MIN, taken: 0 },
            BatchAction::Begin,
        ),
{
    BatchStep::Do(BatchState::Beginning { after: i64::MIN, taken: 0 }, BatchAction::Begin)
}

/// Goes on with a batch.
pub fn batch_next(state: BatchState, event: BatchEvent) -> (step: BatchStep)
    requires
        is_batch(state),
    ensures
        batch_goes_on(state, event, step),
        step matches BatchStep::Do(s, _) ==> is_batch(s),
{
    match (state, event) {
        (_, BatchEvent::Refused(e)) => BatchStep::Done(Err(e)),
        (BatchState::Beginning { after, taken }, BatchEvent::Begun) => BatchStep::Do(
            BatchState::Claiming { after, taken },
            BatchAction::Claim { after },
        ),
        (BatchState::Claiming { taken, .. }, BatchEvent::Claimed(None)) => BatchStep::Done(
            Ok(taken as usize),
        ),
        (BatchState::Claiming { taken, .. }, BatchEvent::Claimed(Some(row))) => BatchStep::Do(
            BatchState::Applying { row, taken: taken + 1 },
            BatchAction::Apply { row },
        ),
        (BatchState::Applying { row, taken }, BatchEvent::Applied(Ok(_))) => BatchStep::Do(
            BatchState::Ending { row, taken },
            BatchAction::Commit,
        ),
        (BatchState::Applying { row, taken }, BatchEvent::Applied(Err(e))) => BatchStep::Do(
            BatchState::Ending { row, taken },
            BatchAction::RollBack(e),
        ),
        (BatchState::Ending { row, taken }, BatchEvent::Ended) => if taken < BATCH_SIZE {
            BatchStep::Do(BatchState::Beginning { after: row, taken }, BatchAction::Begin)
        } else {
            BatchStep::Done(Ok(taken as usize))
        },
        _ => BatchStep::Done(Err(StorageError::internal("unexpected event"))),
    }
}

// --- What is known of indexes --------------------------------------------------------

/// The delay of an index in milliseconds: its own, where it has one that is
/// not negative, or else that of the system.
pub open spec fn delay_of(own: Option<i32>, system: u64) -> u64 {
    match own {
        Some(ms) => if ms >= 0 {
            ms as u64
        } else {
            system
        },
        None => system,
    }
}

/// The delay of an index in milliseconds.
pub fn effective_delay(own: Option<i32>, system: u64) -> (r: u64)
    ensures
        r == delay_of(own, system),
{
    match own {
        Some(ms) => if ms >= 0 {
            ms as u64
        } else {
            system
        },
        None => system,
    }
}

/// A row of the catalog that describes an index.
#[derive(Debug, PartialEq)]
pub struct IndexRow {
    pub index_id: String,
    pub index_type: String,
    pub key_schema: Bson,
    pub projection: Bson,
    pub delay_ms: Option<i32>,
}

/// What an update needs to know of an index.
#[derive(Debug, PartialEq)]
pub struct IndexMeta {
    pub index_id: String,
    pub key_schema: Vec<KeySchemaElement>,
    pub projection: Projection,
    pub effective_delay_ms: u64,
}

/// The model of what an update needs to know of an index.
#[verifier::ext_equal]
pub struct MetaV {
    pub index_id: Seq<char>,
    pub key_schema: Seq<(Seq<char>, KeyType)>,
    pub projection: ProjectionV,
    pub effective_delay_ms: u64,
}

impl View for IndexMeta {
    type V = MetaV;

    open spec fn view(&self) -> MetaV {
        MetaV {
            index_id: self.index_id@,
            key_schema: schema_view(self.key_schema@),
            projection: self.projection@,
            effective_delay_ms: self.effective_delay_ms,
        }
    }
}

/// The models of what is known of indexes.
pub open spec fn meta_seq(v: Seq<IndexMeta>) -> Seq<MetaV> {
    Seq::new(v.len(), |i: int| v[i]@)
}

/// The index of a row goes through the queue: a local index does not, nor one
/// that is updated at once.
pub open spec fn is_queued(r: IndexRow, system: u64) -> bool {
    r.index_type@ != "LSI"@ && delay_of(r.delay_ms, system) != 0
}

/// What the row of an index tells.
pub open spec fn meta_of(r: IndexRow, system: u64) -> Result<MetaV, ErrV> {
    match schema_of(r.key_schema@) {
        None => Err(ErrV::Internal("key_schema: not a key schema"@)),
        Some(key_schema) => match projection_of(r.projection@) {
            None => Err(ErrV::Internal("projection: not a projection"@)),
            Some(projection) => Ok(
                MetaV {
                    index_id: r.index_id@,
                    key_schema,
                    projection,
                    effective_delay_ms: delay_of(r.delay_ms, system),
                },
            ),
        },
    }
}

/// What the first `n` rows tell of the indexes that go through the queue.
pub open spec fn metas_to(rows: Seq<IndexRow>, n: nat, system: u64) -> Result<Seq<MetaV>, ErrV>
    decreases n,
{
    if n == 0 {
        Ok(Seq::empty())
    } else {
        match metas_to(rows, (n - 1) as nat, system) {
            Err(e) => Err(e),
            Ok(rest) => if is_queued(rows[n - 1], system) {
                match meta_of(rows[n - 1], system) {
                    Err(e) => Err(e),
                    Ok(m) => Ok(rest.push(m)),
                }
            } else {
                Ok(rest)
            },
        }
    }
}

proof fn lemma_metas_error(rows: Seq<IndexRow>, i: nat, n: nat, system: u64, e: ErrV)
    requires
        i <= n,
        metas_to(rows, i, system) == Err::<Seq<MetaV>, ErrV>(e),
    ensures
        metas_to(rows, n, system) == Err::<Seq<MetaV>, ErrV>(e),
    decreases n,
{
    if i < n {
        lemma_metas_error(rows, i, (n - 1) as nat, system, e);
    }
}

fn read_meta(r: &IndexRow, system: u64) -> (m: Result<IndexMeta, StorageError>)
    ensures
        match m {
            Ok(m) => meta_of(*r, system) == Ok::<MetaV, ErrV>(m@),
            Err(e) => meta_of(*r, system) == Err::<MetaV, ErrV>(e@),
        },
{
    let key_schema = match read_schema(&r.key_schema) {
        Some(s) => s,
        None => {
            return Err(StorageError::internal("key_schema: not a key schema"));
        },
    };
    let projection = match read_projection(&r.projection) {
        Some(p) => p,
        None => {
            return Err(StorageError::internal("projection: not a projection"));
        },
    };
    Ok(
        IndexMeta {
            index_id: r.index_id.clone(),
            key_schema,
            projection,
            effective_delay_ms: effective_delay(r.delay_ms, system),
        },
    )
}

/// Reads what rows tell of the indexes that go through the queue; `system` is
/// the delay of the system in milliseconds.
pub fn read_index_rows(rows: &Vec<IndexRow>, system: u64) -> (r: Result<
    Vec<IndexMeta>,
    StorageError,
>)
    ensures
        match r {
            Ok(v) => metas_to(rows@, rows@.len(), system) == Ok::<Seq<MetaV>, ErrV>(
                meta_seq(v@),
            ),
            Err(e) => metas_to(rows@, rows@.len(), system) == Err::<Seq<MetaV>, ErrV>(e@),
        },
{
    let mut out: Vec<IndexMeta> = Vec::new();
    let mut i: usize = 0;
    assert(meta_seq(out@) =~= Seq::empty());
    while i < rows.len()
        invariant
            i <= rows.len(),
            metas_to(rows@, i as nat, system) == Ok::<Seq<MetaV>, ErrV>(meta_seq(out@)),
        decreases rows.len() - i,
    {
        let row = &rows[i];
        if !text_eq(row.index_type.as_str(), "LSI") && effective_delay(row.delay_ms, system) != 0 {
            match read_meta(row, system) {
                Err(e) => {
                    proof {
                        lemma_metas_error(rows@, (i + 1) as nat, rows@.len(), system, e@);
                    }
                    return Err(e);
                },
                Ok(m) => {
                    let ghost before = out@;
                    out.push(m);
                    assert(meta_seq(out@) =~= meta_seq(before).push(m@));
                },
            }
        }
        i += 1;
    }
    Ok(out)
}

// --- Looking a table up --------------------------------------------------------------

/// What is kept of a table.
#[derive(Debug, PartialEq)]
pub struct TableMeta {
    pub base_key_schema: Vec<KeySchemaElement>,
    pub attr_defs: Vec<AttributeDefinition>,
    pub indexes: Vec<IndexMeta>,
}

/// What the lookup of a table does next.
#[derive(Debug, PartialEq)]
pub enum MetaStep {
    /// Use what is kept.
    UseKept,
    /// Read the schema of the table from the catalog.
    ReadTable,
    /// The table is gone: forget what is kept.
    Forget,
    /// Read the indexes of the table from the catalog.
    ReadIndexes { base_key_schema: Vec<KeySchemaElement>, attr_defs: Vec<AttributeDefinition> },
    /// Keep and use what was read.
    Keep(TableMeta),
    Fail(StorageError),
}

/// Begins the lookup of a table; `age` is that of what is kept, in
/// milliseconds.
pub fn lookup_start(age: Option<u128>) -> (r: MetaStep)
    ensures
        r == (if age matches Some(a) && a < CACHE_MILLIS {
            MetaStep::UseKept
        } else {
            MetaStep::ReadTable
        }),
{
    match age {
        Some(a) => if is_fresh(a) {
            MetaStep::UseKept
        } else {
            MetaStep::ReadTable
        },
        None => MetaStep::ReadTable,
    }
}

/// Goes on with the key schema and the attribute definitions of the table,
/// where it exists.
pub fn lookup_table(row: &Option<(Bson, Bson)>) -> (r: MetaStep)
    ensures
        match row {
            None => r == MetaStep::Forget,
            Some((ks, ad)) => match (schema_of(ks@), defs_of(ad@)) {
                (None, _) => r matches MetaStep::Fail(e) && e@ == ErrV::Internal(
                    "key_schema: not a key schema"@,
                ),
                (Some(_), None) => r matches MetaStep::Fail(e) && e@ == ErrV::Internal(
                    "attr_defs: not attribute definitions"@,
                ),
                (Some(s), Some(d)) => r matches MetaStep::ReadIndexes {
                    base_key_schema,
                    attr_defs,
                } && schema_view(base_key_schema@) == s && defs_view(attr_defs@) == d,
            },
        },
{
    match row {
        None => MetaStep::Forget,
        Some((ks, ad)) => match read_schema(ks) {
            None => MetaStep::Fail(StorageError::internal("key_schema: not a key schema")),
            Some(base_key_schema) => match read_defs(ad) {
                None => MetaStep::Fail(
                    StorageError::internal("attr_defs: not attribute definitions"),
                ),
                Some(attr_defs) => MetaStep::ReadIndexes { base_key_schema, attr_defs },
            },
        },
    }
}

/// Goes on with the indexes of the table; `system` is the delay of the system
/// in milliseconds.
pub fn lookup_indexes(
    base_key_schema: Vec<KeySchemaElement>,
    attr_defs: Vec<AttributeDefinition>,
    rows: &Vec<IndexRow>,
    system: u64,
) -> (r: MetaStep)
    ensures
        match metas_to(rows@, rows@.len(), system) {
            Err(e) => r matches MetaStep::Fail(x) && x@ == e,
            Ok(metas) => {
                &&& r matches MetaStep::Keep(t)
                &&& t.base_key_schema == base_key_schema
                &&& t.attr_defs == attr_defs
                &&& meta_seq(t.indexes@) == metas
            },
        },
{
    match read_index_rows(rows, system) {
        Err(e) => MetaStep::Fail(e),
        Ok(indexes) => MetaStep::Keep(TableMeta { base_key_schema, attr_defs, indexes }),
    }
}

// --- What an update does -------------------------------------------------------------

/// A change of a row of an index.
#[derive(Debug, PartialEq)]
pub enum RowStep {
    /// The row of the item as it was is removed.
    Remove { index: usize },
    /// A row for the item as it is, with the part of it that the index holds,
    /// is stored.
    Store { index: usize, projected: Item },
}

/// An item that may be absent has the attributes of the key of an index.
pub open spec fn appears(item: Option<ItemV>, m: MetaV) -> bool {
    item matches Some(i) && has_keys(i, m.key_schema)
}

/// How many changes the first `n` indexes need.
pub open spec fn steps_before(metas: Seq<MetaV>, old_item: Option<ItemV>, new_item: Option<ItemV>, n: nat) -> nat
    decreases n,
{
    if n == 0 {
        0
    } else {
        steps_before(metas, old_item, new_item, (n - 1) as nat) + (if appears(
            old_item,
            metas[n - 1],
        ) {
            1nat
        } else {
            0nat
        }) + (if appears(new_item, metas[n - 1]) {
            1nat
        } else {
            0nat
        })
    }
}

/// The step stores the part of the item that an index holds.
pub open spec fn stores(
    s: RowStep,
    k: int,
    item: Option<ItemV>,
    m: MetaV,
    base: Seq<(Seq<char>, KeyType)>,
) -> bool {
    &&& s matches RowStep::Store { index, projected }
    &&& index == k
    &&& item matches Some(i)
    &&& is_projected(i, m.key_schema, base, m.projection, projected@)
}

/// The steps are those of the first `n` indexes, in order: of each, the row of
/// the item as it was is removed, and then one for the item as it is is
/// stored, as far as the item appears in the index.
pub open spec fn are_steps(
    steps: Seq<RowStep>,
    metas: Seq<MetaV>,
    base: Seq<(Seq<char>, KeyType)>,
    old_item: Option<ItemV>,
    new_item: Option<ItemV>,
    n: nat,
) -> bool {
    &&& steps.len() == steps_before(metas, old_item, new_item, n)
    &&& forall|k: int|
        0 <= k < n ==> {
            let i = steps_before(metas, old_item, new_item, k as nat) as int;
            &&& appears(old_item, #[trigger] metas[k]) ==> i < steps.len() && steps[i] == (
            RowStep::Remove { index: k as usize })
            &&& appears(new_item, metas[k]) ==> {
                let j = i + (if appears(old_item, metas[k]) {
                    1int
                } else {
                    0int
                });
                j < steps.len() && stores(steps[j], k, new_item, metas[k], base)
            }
        }
}

/// Plans what an update of an item does to each index.
pub fn plan_row(
    metas: &Vec<IndexMeta>,
    base: &Vec<KeySchemaElement>,
    old_item: &Option<Item>,
    new_item: &Option<Item>,
) -> (r: Vec<RowStep>)
    ensures
        are_steps(
            r@,
            meta_seq(metas@),
            schema_view(base@),
            opt_item(*old_item),
            opt_item(*new_item),
            metas@.len(),
        ),
{
    let ghost ms = meta_seq(metas@);
    let ghost b = schema_view(base@);
    let ghost o = opt_item(*old_item);
    let ghost w = opt_item(*new_item);
    let mut out: Vec<RowStep> = Vec::new();
    let mut i: usize = 0;
    while i < metas.len()
        invariant
            i <= metas.len(),
            ms == meta_seq(metas@),
            b == schema_view(base@),
            o == opt_item(*old_item),
            w == opt_item(*new_item),
            are_steps(out@, ms, b, o, w, i as nat),
        decreases metas.len() - i,
    {
        let m = &metas[i];
        let ghost before = out@;
        assert(ms[i as int] == m@);
        let was = match old_item {
            Some(x) => item_has_index_keys(x, &m.key_schema),
            None => false,
        };
        if was {
            out.push(RowStep::Remove { index: i });
        }
        let ghost middle = out@;
        if let Some(x) = new_item {
            if item_has_index_keys(x, &m.key_schema) {
                let projected = project_item(x, &m.key_schema, base, &m.projection);
                let step = RowStep::Store { index: i, projected };
                assert(stores(step, i as int, w, ms[i as int], b));
                out.push(step);
            }
        }
        proof {
            assert(out@.len() == steps_before(ms, o, w, (i + 1) as nat));
            assert forall|k: int| 0 <= k < i + 1 implies {
                let p = steps_before(ms, o, w, k as nat) as int;
                &&& appears(o, #[trigger] ms[k]) ==> p < out@.len() && out@[p] == (
                RowStep::Remove { index: k as usize })
                &&& appears(w, ms[k]) ==> {
                    let j = p + (if appears(o, ms[k]) {
                        1int
                    } else {
                        0int
                    });
                    j < out@.len() && stores(out@[j], k, w, ms[k], b)
                }
            } by {
                if k < i {
                    assert(ms[k] == ms[k]);
                    assert(forall|q: int| 0 <= q < before.len() ==> out@[q] == before[q]);
                }
            }
        }
        i += 1;
    }
    out
}

// --- Laws --------------------------------------------------------------------------

/// A row whose updates fail ends in a rollback of the transaction that claimed
/// it, with nothing in between: the row is applied as soon as it is claimed,
/// and the failure undoes that transaction.
pub proof fn law_failed_row_is_rolled_back(
    after: i64,
    taken: i64,
    row: i64,
    e: StorageError,
    claimed: BatchStep,
    failed: BatchStep,
)
    requires
        is_batch(BatchState::Claiming { after, taken }),
        batch_goes_on(
            BatchState::Claiming { after, taken },
            BatchEvent::Claimed(Some(row)),
            claimed,
        ),
        claimed matches BatchStep::Do(s, _) ==> batch_goes_on(
            s,
            BatchEvent::Applied(Err(e)),
            failed,
        ),
    ensures
        claimed matches BatchStep::Do(_, a) && a == (BatchAction::Apply { row }),
        failed matches BatchStep::Do(_, a) && a == BatchAction::RollBack(e),
{
}

/// A transaction is committed only where the updates of its row were applied.
pub proof fn law_commit_follows_updates(state: BatchState, event: BatchEvent, step: BatchStep)
    requires
        batch_goes_on(state, event, step),
        step matches BatchStep::Do(_, a) && a is Commit,
    ensures
        state is Applying,
        event matches BatchEvent::Applied(Ok(_)),
{
}

/// A batch takes at most so many rows as it may, and tells how many it took.
pub proof fn law_batch_is_bounded(state: BatchState, event: BatchEvent, step: BatchStep)
    requires
        is_batch(state),
        batch_goes_on(state, event, step),
    ensures
        step matches BatchStep::Do(s, _) ==> is_batch(s),
        step matches BatchStep::Done(Ok(n)) ==> n <= BATCH_SIZE && n == (match state {
            BatchState::Claiming { taken, .. } => taken as int,
            BatchState::Ending { taken, .. } => taken as int,
            _ => 0,
        }),
{
}

/// An index with a delay of zero of its own is updated at once, whatever the
/// delay of the system.
pub proof fn law_own_delay_comes_first(own: i32, system: u64)
    requires
        own >= 0,
    ensures
        delay_of(Some(own), system) == own,
{
}

/// An update of an item that appears in no index changes no row.
pub proof fn law_unindexed_item_changes_nothing(
    metas: Seq<MetaV>,
    old_item: Option<ItemV>,
    new_item: Option<ItemV>,
    n: nat,
)
    requires
        forall|k: int|
            0 <= k < n ==> !appears(old_item, #[trigger] metas[k]) && !appears(new_item, metas[k]),
    ensures
        steps_before(metas, old_item, new_item, n) == 0,
    decreases n,
{
    if n > 0 {
        law_unindexed_item_changes_nothing(metas, old_item, new_item, (n - 1) as nat);
        assert(!appears(old_item, metas[n - 1]));
    }
}

} // verus!
