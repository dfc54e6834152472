//! Transactions over several items.
//!
//! All reads and writes of a request run in one database transaction. An
//! operation that is refused does not stop the others from being examined, so
//! that the caller is told of every one; if any was refused, nothing is kept.

use vstd::prelude::*;
use vstd::string::*;

use crate::bson::{copy_doc, doc1, lemma_doc1, obj1, Bson, BsonV, DocV, Document};
use crate::data::{
    collection_name, data_collection_name, item_document, item_to_document, key_filter, pk_filter,
    ItemKey,
};
use crate::effects::{
    command_of, has_typed_key, is_removed, is_replaced, is_same_key, keeps_to,
    law_key_finds_its_item, lemma_found_by_key, lemma_picked, lemma_removed, lemma_replaced, one_if,
    others_kept, place_of, reads_back, stands_under, state_of, table_place, takes_effect,
};
use crate::error::{reason_seq, res_doc, CancellationReason, ErrV, ReasonV, StorageError};
use crate::item::{copy_item, opt_item, Item, ItemV};
use crate::meaning::{
    lemma_field, lemma_is_part, lemma_one_asked, lemma_one_clause, lemma_one_part, lemma_words,
    matches_filter,
};
use crate::protocol::{
    fail_unexpected, fails, in_data, run, runs, unexpected, Action, ActionV, Command, CommandV,
    DbError, Event, Place, PlaceV, Reply, Step,
};
use crate::put_item::{found_item, read_found};
use crate::schema::{copy_schema, schema_view, KeySchemaElement};
use crate::text::text_eq;

verus! {

// --- Reading -------------------------------------------------------------------------

/// One read of a transaction.
#[derive(Debug, PartialEq)]
pub struct ReadOp {
    pub table_id: String,
    pub key_schema: Vec<KeySchemaElement>,
    pub key: Item,
    /// Whether the key is valid, or why not.
    pub valid: Result<(), String>,
}

/// A transaction that reads.
#[derive(Debug, PartialEq)]
pub struct ReadTx {
    /// The reads that are left.
    pub left: Vec<ReadOp>,
    /// What was read so far.
    pub results: Vec<Option<Item>>,
}

/// Where a reading transaction stands.
#[derive(Debug, PartialEq)]
pub enum ReadState {
    Starting(ReadTx),
    /// The key of an item is being asked for.
    Keying(ReadTx, ReadOp),
    /// An item is being looked up.
    Finding(ReadTx),
    Committing(Vec<Option<Item>>),
}

/// The models of a list of items that may be there.
pub open spec fn opt_item_seq(v: Seq<Option<Item>>) -> Seq<Option<ItemV>> {
    Seq::new(v.len(), |i: int| opt_item(v[i]))
}

/// Why a read is refused before it starts.
pub open spec fn read_reason(op: ReadOp) -> ReasonV {
    match op.valid {
        Ok(_) => ReasonV::NoReason,
        Err(m) => ReasonV::ValidationError(m@),
    }
}

/// Why each read is refused before it starts.
pub open spec fn read_reasons(ops: Seq<ReadOp>) -> Seq<ReasonV> {
    Seq::new(ops.len(), |i: int| read_reason(ops[i]))
}

/// No operation was refused.
pub open spec fn none_refused(r: Seq<ReasonV>) -> bool {
    forall|i: int| 0 <= i < r.len() ==> (#[trigger] r[i]) is NoReason
}

/// How a reading transaction begins.
pub open spec fn read_begins(
    ops: Vec<ReadOp>,
    step: Step<ReadState, Vec<Option<Item>>>,
) -> bool {
    if none_refused(read_reasons(ops@)) {
        step matches Step::Do(ReadState::Starting(tx), a) && tx.left == ops && opt_item_seq(
            tx.results@,
        ) == Seq::<Option<ItemV>>::empty() && a@ == ActionV::Run(
            CommandV::StartTransaction { durable: false },
        )
    } else {
        fails(step, ErrV::TransactionCanceled(read_reasons(ops@)))
    }
}

/// A reading transaction goes on with the next read, or commits.
pub open spec fn read_proceeds(
    left: Seq<ReadOp>,
    results: Seq<Option<ItemV>>,
    step: Step<ReadState, Vec<Option<Item>>>,
) -> bool {
    if left.len() == 0 {
        step matches Step::Do(ReadState::Committing(r), a) && opt_item_seq(r@) == results && a@
            == ActionV::Run(CommandV::CommitTransaction)
    } else {
        &&& step matches Step::Do(ReadState::Keying(tx, op), a)
        &&& op == left[0]
        &&& tx.left@ == left.skip(1)
        &&& opt_item_seq(tx.results@) == results
        &&& a@ == (ActionV::KeyOf {
            op: results.len() as usize,
            item: op.key@,
            key_schema: schema_view(op.key_schema@),
        })
    }
}

/// How a reading transaction goes on with an event.
pub open spec fn read_goes_on(
    state: ReadState,
    event: Event,
    step: Step<ReadState, Vec<Option<Item>>>,
) -> bool {
    match (state, event) {
        (ReadState::Starting(tx), Event::Replied(Reply::Done)) => read_proceeds(
            tx.left@,
            opt_item_seq(tx.results@),
            step,
        ),
        (ReadState::Keying(tx, op), Event::Key(Err(e))) => fails(step, e@),
        (ReadState::Keying(tx, op), Event::Key(Ok(k))) => match key_filter(op.key@, k) {
            Err(e) => fails(step, e),
            Ok(filter) => runs(
                step,
                ReadState::Finding(tx),
                CommandV::FindOne { at: in_data(collection_name(op.table_id@)), filter },
            ),
        },
        (ReadState::Finding(tx), Event::Replied(Reply::One(d))) => match found_item(d) {
            Err(e) => fails(step, e),
            Ok(i) => read_proceeds(tx.left@, opt_item_seq(tx.results@).push(i), step),
        },
        (ReadState::Committing(r), Event::Replied(Reply::Done)) => step == Step::<
            ReadState,
            Vec<Option<Item>>,
        >::Done(Ok(r)),
        (_, Event::Replied(Reply::Failed(e))) => fails(step, ErrV::Internal(e.message@)),
        _ => fails(step, unexpected()),
    }
}

/// Begins a transaction that reads.
pub fn transact_get_start(ops: Vec<ReadOp>) -> (step: Step<ReadState, Vec<Option<Item>>>)
    ensures
        read_begins(ops, step),
{
    let mut reasons: Vec<CancellationReason> = Vec::new();
    let mut any_failed = false;
    let mut i: usize = 0;
    let ghost rs = read_reasons(ops@);
    while i < ops.len()
        invariant
            i <= ops.len(),
            rs == read_reasons(ops@),
            reasons@.len() == i,
            forall|j: int| 0 <= j < i ==> (#[trigger] reasons@[j])@ == rs[j],
            any_failed == (exists|j: int| 0 <= j < i && !((#[trigger] rs[j]) is NoReason)),
        decreases ops.len() - i,
    {
        match &ops[i].valid {
            Ok(_) => {
                assert(rs[i as int] is NoReason);
                reasons.push(CancellationReason::NoReason);
            },
            Err(m) => {
                assert(!(rs[i as int] is NoReason));
                any_failed = true;
                reasons.push(CancellationReason::ValidationError(m.clone()));
            },
        }
        i += 1;
    }
    if any_failed {
        assert(reason_seq(reasons@) =~= rs);
        return Step::Done(Err(StorageError::TransactionCanceled(reasons)));
    }
    let results: Vec<Option<Item>> = Vec::new();
    assert(opt_item_seq(results@) =~= Seq::empty());
    run(
        ReadState::Starting(ReadTx { left: ops, results }),
        Command::StartTransaction { durable: false },
    )
}

fn read_proceed(tx: ReadTx) -> (step: Step<ReadState, Vec<Option<Item>>>)
    ensures
        read_proceeds(tx.left@, opt_item_seq(tx.results@), step),
{
    if tx.left.len() == 0 {
        return run(ReadState::Committing(tx.results), Command::CommitTransaction);
    }
    let mut left = tx.left;
    let ghost before = left@;
    let op = left.remove(0);
    assert(left@ =~= before.skip(1));
    let action = Action::KeyOf {
        op: tx.results.len(),
        item: copy_item(&op.key),
        key_schema: copy_schema(&op.key_schema),
    };
    Step::Do(ReadState::Keying(ReadTx { left, results: tx.results }, op), action)
}

/// Goes on with a transaction that reads.
pub fn transact_get_next(state: ReadState, event: Event) -> (step: Step<
    ReadState,
    Vec<Option<Item>>,
>)
    ensures
        read_goes_on(state, event, step),
{
    match (state, event) {
        (ReadState::Starting(tx), Event::Replied(Reply::Done)) => read_proceed(tx),
        (ReadState::Keying(_, _), Event::Key(Err(e))) => Step::Done(Err(e)),
        (ReadState::Keying(tx, op), Event::Key(Ok(k))) => match pk_filter(&op.key, &k) {
            Err(e) => Step::Done(Err(e)),
            Ok(filter) => {
                let name = data_collection_name(op.table_id.as_str());
                run(
                    ReadState::Finding(tx),
                    Command::FindOne { at: Place::data(name.as_str()), filter },
                )
            },
        },
        (ReadState::Finding(tx), Event::Replied(Reply::One(d))) => match read_found(&d) {
            Err(e) => Step::Done(Err(e)),
            Ok(i) => {
                let mut results = tx.results;
                let ghost before = results@;
                results.push(i);
                assert(opt_item_seq(results@) =~= opt_item_seq(before).push(opt_item(i)));
                read_proceed(ReadTx { left: tx.left, results })
            },
        },
        (ReadState::Committing(r), Event::Replied(Reply::Done)) => Step::Done(Ok(r)),
        (_, Event::Replied(Reply::Failed(e))) => Step::Done(
            Err(StorageError::Internal(e.message)),
        ),
        _ => fail_unexpected(),
    }
}

// --- Writing -------------------------------------------------------------------------

/// The kinds of write operations.
#[derive(Debug, Clone, Copy, PartialEq, Eq, Structural)]
pub enum WriteKind {
    Put,
    Delete,
    Update,
    ConditionCheck,
}

/// One operation of a transaction.
#[derive(Debug, PartialEq)]
pub struct WriteOp {
    pub kind: WriteKind,
    pub table_id: String,
    pub key_schema: Vec<KeySchemaElement>,
    /// The item to put, or the key of the item.
    pub item: Item,
    /// Whether the operation has a condition. A condition check always has.
    pub conditional: bool,
    /// Whether the item or the key is valid, or why not.
    pub valid: Result<(), String>,
}

/// A transaction that writes.
#[derive(Debug, PartialEq)]
pub struct WriteTx {
    /// The operations that are left.
    pub left: Vec<WriteOp>,
    /// What became of those before.
    pub reasons: Vec<CancellationReason>,
}

/// The operation that is being performed.
#[derive(Debug, PartialEq)]
pub struct Work {
    pub tx: WriteTx,
    pub op: WriteOp,
    pub filter: Document,
    pub key: ItemKey,
}

/// The token by which a request is known when it is sent again.
#[derive(Debug, PartialEq)]
pub struct Token {
    pub token: String,
    /// What the request holds.
    pub fingerprint: String,
}

/// Where a writing transaction stands.
#[derive(Debug, PartialEq)]
pub enum WriteState {
    Starting(WriteTx, Option<Token>, i64),
    /// The token is being looked up.
    FindingToken(WriteTx, Token, i64),
    /// The request was seen before: the transaction is being given up.
    Refusing { replay: bool },
    /// The token is being stored.
    StoringToken(WriteTx),
    /// The key of an operation is being asked for.
    Keying(WriteTx, WriteOp),
    /// The stored document is being looked up.
    Looking(Work),
    /// The condition is being evaluated on the stored item.
    Evaluating(Work, Option<Item>),
    /// The update is being applied to the stored item.
    Applying(Work),
    /// The key of the updated item is being asked for.
    NewKey(Work, Item),
    /// The operation is being performed.
    Writing(WriteTx),
    /// The transaction is being given up.
    Aborting(StorageError),
    Committing,
}

/// How many of the next operations are not valid.
pub open spec fn leading_invalid(left: Seq<WriteOp>) -> nat
    decreases left.len(),
{
    if left.len() == 0 {
        0
    } else {
        match left[0].valid {
            Ok(_) => 0,
            Err(_) => 1 + leading_invalid(left.skip(1)),
        }
    }
}

/// The reason why an operation is not valid.
pub open spec fn invalid_reason(op: WriteOp) -> ReasonV {
    match op.valid {
        Ok(_) => ReasonV::NoReason,
        Err(m) => ReasonV::ValidationError(m@),
    }
}

/// The reasons after the operations that are not valid were passed over.
pub open spec fn passed_over(left: Seq<WriteOp>, reasons: Seq<ReasonV>) -> Seq<ReasonV> {
    reasons + Seq::new(leading_invalid(left), |i: int| invalid_reason(left[i]))
}

/// The transaction is given up, and the request ends in an error.
pub open spec fn gives_up(e: ErrV, step: Step<WriteState, ()>) -> bool {
    step matches Step::Do(WriteState::Aborting(x), a) && x@ == e && a@ == ActionV::Run(
        CommandV::AbortTransaction,
    )
}

/// A writing transaction goes on with the next valid operation, or ends: with
/// a commit where nothing was refused, by giving up otherwise.
pub open spec fn write_proceeds(
    left: Seq<WriteOp>,
    reasons: Seq<ReasonV>,
    step: Step<WriteState, ()>,
) -> bool {
    let n = leading_invalid(left);
    let rs = passed_over(left, reasons);
    if n < left.len() {
        &&& step matches Step::Do(WriteState::Keying(tx, op), a)
        &&& op == left[n as int]
        &&& tx.left@ == left.skip(n as int + 1)
        &&& reason_seq(tx.reasons@) == rs
        &&& a@ == (ActionV::KeyOf {
            op: rs.len() as usize,
            item: op.item@,
            key_schema: schema_view(op.key_schema@),
        })
    } else if none_refused(rs) {
        runs(step, WriteState::Committing, CommandV::CommitTransaction)
    } else {
        gives_up(ErrV::TransactionCanceled(rs), step)
    }
}

/// The operation ended, with a reason where it was refused.
pub open spec fn op_ends(tx: WriteTx, reason: ReasonV, step: Step<WriteState, ()>) -> bool {
    write_proceeds(tx.left@, reason_seq(tx.reasons@).push(reason), step)
}

/// The collection that an operation works on.
pub open spec fn op_place(op: WriteOp) -> PlaceV {
    in_data(collection_name(op.table_id@))
}

/// An item is stored in place of the one that was found.
pub open spec fn stores(w: Work, item: ItemV, key: ItemKey, step: Step<WriteState, ()>) -> bool {
    match item_document(item, key) {
        Err(e) => gives_up(e, step),
        Ok(document) => runs(
            step,
            WriteState::Writing(w.tx),
            CommandV::Replace {
                at: op_place(w.op),
                filter: w.filter@,
                document,
                upsert: true,
            },
        ),
    }
}

/// The item of a key is removed.
pub open spec fn removes(w: Work, step: Step<WriteState, ()>) -> bool {
    runs(
        step,
        WriteState::Writing(w.tx),
        CommandV::DeleteOne { at: op_place(w.op), filter: w.filter@ },
    )
}

/// The update is applied to the stored item, or to the key where there is
/// none.
pub open spec fn updates(w: Work, existing: Option<ItemV>, step: Step<WriteState, ()>) -> bool {
    step matches Step::Do(WriteState::Applying(w2), a) && w2 == w && a@ == (ActionV::Apply {
        op: w.tx.reasons@.len() as usize,
        item: match existing {
            Some(i) => i,
            None => w.op.item@,
        },
    })
}

/// What an operation does once its condition holds, or where it has none.
pub open spec fn performs(w: Work, existing: Option<ItemV>, step: Step<WriteState, ()>) -> bool {
    match w.op.kind {
        WriteKind::Put => stores(w, w.op.item@, w.key, step),
        WriteKind::Delete => removes(w, step),
        WriteKind::Update => updates(w, existing, step),
        WriteKind::ConditionCheck => op_ends(w.tx, ReasonV::NoReason, step),
    }
}

/// An operation has a condition to evaluate.
pub open spec fn has_condition(op: WriteOp) -> bool {
    op.conditional || op.kind == WriteKind::ConditionCheck
}

/// An operation needs the stored document.
pub open spec fn needs_document(op: WriteOp) -> bool {
    op.kind != WriteKind::Delete || op.conditional
}

/// The document that a token is stored as.
pub open spec fn token_document(t: Token, now: i64) -> DocV {
    doc1("_id"@, BsonV::Str(t.token@)).with("fingerprint"@, BsonV::Str(t.fingerprint@)).with(
        "created_at"@,
        BsonV::DateTime(now),
    )
}

/// How a writing transaction goes on with an event.
pub open spec fn write_goes_on(
    state: WriteState,
    event: Event,
    step: Step<WriteState, ()>,
) -> bool {
    match (state, event) {
        (WriteState::Starting(tx, None, now), Event::Replied(Reply::Done)) => write_proceeds(
            tx.left@,
            reason_seq(tx.reasons@),
            step,
        ),
        (WriteState::Starting(tx, Some(t), now), Event::Replied(Reply::Done)) => runs(
            step,
            WriteState::FindingToken(tx, t, now),
            CommandV::FindOne {
                at: in_data("idempotency_tokens"@),
                filter: doc1("_id"@, BsonV::Str(t.token@)),
            },
        ),
        (
            WriteState::FindingToken(tx, t, now),
            Event::Replied(Reply::One(Some(d))),
        ) => runs(
            step,
            WriteState::Refusing { replay: d@.str_or("fingerprint"@, ""@) == t.fingerprint@ },
            CommandV::AbortTransaction,
        ),
        (WriteState::FindingToken(tx, t, now), Event::Replied(Reply::One(None))) => runs(
            step,
            WriteState::StoringToken(tx),
            CommandV::Insert {
                at: in_data("idempotency_tokens"@),
                document: token_document(t, now),
            },
        ),
        (WriteState::Refusing { replay }, Event::Replied(Reply::Done)) => fails(
            step,
            if replay {
                ErrV::IdempotentReplay
            } else {
                ErrV::IdempotentMismatch
            },
        ),
        (WriteState::StoringToken(tx), Event::Replied(Reply::Done)) => write_proceeds(
            tx.left@,
            reason_seq(tx.reasons@),
            step,
        ),
        (WriteState::Keying(tx, op), Event::Key(Err(e))) => gives_up(e@, step),
        (WriteState::Keying(tx, op), Event::Key(Ok(k))) => match key_filter(op.item@, k) {
            Err(e) => gives_up(e, step),
            Ok(f) => if needs_document(op) {
                &&& step matches Step::Do(WriteState::Looking(w), a)
                &&& w.tx == tx
                &&& w.op == op
                &&& w.filter@ == f
                &&& w.key == k
                &&& a@ == ActionV::Run(CommandV::FindOne { at: op_place(op), filter: f })
            } else {
                runs(
                    step,
                    WriteState::Writing(tx),
                    CommandV::DeleteOne { at: op_place(op), filter: f },
                )
            },
        },
        (WriteState::Looking(w), Event::Replied(Reply::One(d))) => if w.op.kind == WriteKind::Put
            && !w.op.conditional {
            stores(w, w.op.item@, w.key, step)
        } else {
            match found_item(d) {
                Err(e) => gives_up(e, step),
                Ok(existing) => if has_condition(w.op) {
                    &&& step matches Step::Do(WriteState::Evaluating(w2, x), a)
                    &&& w2 == w
                    &&& opt_item(x) == existing
                    &&& a@ == (ActionV::Evaluate {
                        op: w.tx.reasons@.len() as usize,
                        item: match existing {
                            Some(i) => i,
                            None => ItemV::empty(),
                        },
                    })
                } else {
                    performs(w, existing, step)
                },
            }
        },
        (WriteState::Evaluating(w, x), Event::Evaluated(Err(m))) => op_ends(
            w.tx,
            ReasonV::ValidationError(m@),
            step,
        ),
        (WriteState::Evaluating(w, x), Event::Evaluated(Ok(false))) => op_ends(
            w.tx,
            ReasonV::ConditionCheckFailed(None),
            step,
        ),
        (WriteState::Evaluating(w, x), Event::Evaluated(Ok(true))) => performs(
            w,
            opt_item(x),
            step,
        ),
        (WriteState::Applying(w), Event::Applied(Err(m))) => op_ends(
            w.tx,
            ReasonV::ValidationError(m@),
            step,
        ),
        (WriteState::Applying(w), Event::Applied(Ok(new))) => {
            &&& step matches Step::Do(WriteState::NewKey(w2, n2), a)
            &&& w2 == w
            &&& n2 == new
            &&& a@ == (ActionV::KeyOf {
                op: w.tx.reasons@.len() as usize,
                item: new@,
                key_schema: schema_view(w.op.key_schema@),
            })
        },
        (WriteState::NewKey(w, new), Event::Key(Err(e))) => gives_up(e@, step),
        (WriteState::NewKey(w, new), Event::Key(Ok(k))) => stores(w, new@, k, step),
        (WriteState::Writing(tx), Event::Replied(Reply::Matched(_))) => op_ends(
            tx,
            ReasonV::NoReason,
            step,
        ),
        (WriteState::Writing(tx), Event::Replied(Reply::Deleted(_))) => op_ends(
            tx,
            ReasonV::NoReason,
            step,
        ),
        (WriteState::Looking(_), Event::Replied(Reply::Failed(e))) => gives_up(
            ErrV::Internal(e.message@),
            step,
        ),
        (WriteState::Writing(_), Event::Replied(Reply::Failed(e))) => gives_up(
            ErrV::Internal(e.message@),
            step,
        ),
        (WriteState::Aborting(x), Event::Replied(_)) => step == Step::<WriteState, ()>::Done(
            Err(x),
        ),
        (WriteState::Committing, Event::Replied(Reply::Done)) => step == Step::<
            WriteState,
            (),
        >::Done(Ok(())),
        (_, Event::Replied(Reply::Failed(e))) => fails(step, ErrV::Internal(e.message@)),
        _ => fails(step, unexpected()),
    }
}

/// How a writing transaction begins.
pub open spec fn write_begins(
    ops: Vec<WriteOp>,
    token: Option<Token>,
    now: i64,
    step: Step<WriteState, ()>,
) -> bool {
    step matches Step::Do(WriteState::Starting(tx, t, n), a) && tx.left == ops && reason_seq(
        tx.reasons@,
    ) == Seq::<ReasonV>::empty() && t == token && n == now && a@ == ActionV::Run(
        CommandV::StartTransaction { durable: true },
    )
}

/// Begins a transaction that writes. `now` is the time in milliseconds.
pub fn transact_write_start(ops: Vec<WriteOp>, token: Option<Token>, now: i64) -> (step: Step<
    WriteState,
    (),
>)
    ensures
        write_begins(ops, token, now, step),
{
    let reasons: Vec<CancellationReason> = Vec::new();
    assert(reason_seq(reasons@) =~= Seq::empty());
    run(
        WriteState::Starting(WriteTx { left: ops, reasons }, token, now),
        Command::StartTransaction { durable: true },
    )
}

fn give_up(e: StorageError) -> (step: Step<WriteState, ()>)
    ensures
        gives_up(e@, step),
{
    run(WriteState::Aborting(e), Command::AbortTransaction)
}

fn any_refused(reasons: &Vec<CancellationReason>) -> (r: bool)
    ensures
        r == !none_refused(reason_seq(reasons@)),
{
    let ghost rs = reason_seq(reasons@);
    let mut i: usize = 0;
    while i < reasons.len()
        invariant
            i <= reasons.len(),
            rs == reason_seq(reasons@),
            forall|j: int| 0 <= j < i ==> (#[trigger] rs[j]) is NoReason,
        decreases reasons.len() - i,
    {
        match &reasons[i] {
            CancellationReason::NoReason => {},
            _ => {
                assert(!(rs[i as int] is NoReason));
                return true;
            },
        }
        i += 1;
    }
    false
}

proof fn lemma_leading_invalid(left: Seq<WriteOp>)
    ensures
        leading_invalid(left) <= left.len(),
        forall|i: int| 0 <= i < leading_invalid(left) ==> (#[trigger] left[i]).valid is Err,
    decreases left.len(),
{
    if left.len() > 0 && left[0].valid is Err {
        lemma_leading_invalid(left.skip(1));
        assert forall|i: int| 0 <= i < leading_invalid(left) implies (#[trigger] left[i]).valid is Err by {
            if i > 0 {
                assert(left[i] == left.skip(1)[i - 1]);
            }
        }
    }
}

fn write_proceed(tx: WriteTx) -> (step: Step<WriteState, ()>)
    ensures
        write_proceeds(tx.left@, reason_seq(tx.reasons@), step),
    decreases tx.left@.len(),
{
    if tx.left.len() == 0 {
        assert(passed_over(tx.left@, reason_seq(tx.reasons@)) =~= reason_seq(tx.reasons@));
        if any_refused(&tx.reasons) {
            return give_up(StorageError::TransactionCanceled(tx.reasons));
        }
        return run(WriteState::Committing, Command::CommitTransaction);
    }
    let ghost before = tx.left@;
    let ghost rs = reason_seq(tx.reasons@);
    let mut left = tx.left;
    let op = left.remove(0);
    assert(left@ =~= before.skip(1));
    let mut reasons = tx.reasons;
    match &op.valid {
        Err(m) => {
            reasons.push(CancellationReason::ValidationError(m.clone()));
            proof {
                assert(reason_seq(reasons@) =~= rs.push(ReasonV::ValidationError(m@)));
                assert(passed_over(left@, reason_seq(reasons@)) =~= passed_over(before, rs)) by {
                    let n = leading_invalid(left@);
                    lemma_leading_invalid(left@);
                    assert forall|i: int| 0 <= i < n implies #[trigger] left@[i] == before[i
                        + 1] by {}
                }
                let n = leading_invalid(before);
                if n < before.len() {
                    assert(left@[n - 1] == before[n as int]);
                    assert(left@.skip(n as int) =~= before.skip(n as int + 1));
                }
            }
            write_proceed(WriteTx { left, reasons })
        },
        Ok(_) => {
            assert(passed_over(before, rs) =~= rs);
            let action = Action::KeyOf {
                op: reasons.len(),
                item: copy_item(&op.item),
                key_schema: copy_schema(&op.key_schema),
            };
            Step::Do(WriteState::Keying(WriteTx { left, reasons }, op), action)
        },
    }
}

fn end_op(tx: WriteTx, reason: CancellationReason) -> (step: Step<WriteState, ()>)
    ensures
        op_ends(tx, reason@, step),
{
    let mut reasons = tx.reasons;
    let ghost before = reasons@;
    reasons.push(reason);
    assert(reason_seq(reasons@) =~= reason_seq(before).push(reason@));
    write_proceed(WriteTx { left: tx.left, reasons })
}

fn store(w: Work, document: Result<Document, StorageError>) -> (step: Step<WriteState, ()>)
    ensures
        forall|item: ItemV, key: ItemKey|
            res_doc(document) == item_document(item, key) ==> #[trigger] stores(
                w,
                item,
                key,
                step,
            ),
{
    match document {
        Err(e) => give_up(e),
        Ok(document) => {
            let name = data_collection_name(w.op.table_id.as_str());
            run(
                WriteState::Writing(w.tx),
                Command::Replace {
                    at: Place::data(name.as_str()),
                    filter: w.filter,
                    document,
                    upsert: true,
                },
            )
        },
    }
}

fn perform(w: Work, existing: Option<Item>) -> (step: Step<WriteState, ()>)
    ensures
        performs(w, opt_item(existing), step),
{
    match w.op.kind {
        WriteKind::Put => {
            let document = item_to_document(&w.op.item, &w.key);
            store(w, document)
        },
        WriteKind::Delete => {
            let name = data_collection_name(w.op.table_id.as_str());
            run(
                WriteState::Writing(w.tx),
                Command::DeleteOne { at: Place::data(name.as_str()), filter: w.filter },
            )
        },
        WriteKind::Update => {
            let item = match existing {
                Some(i) => i,
                None => copy_item(&w.op.item),
            };
            let op = w.tx.reasons.len();
            Step::Do(WriteState::Applying(w), Action::Apply { op, item })
        },
        WriteKind::ConditionCheck => end_op(w.tx, CancellationReason::NoReason),
    }
}

/// Goes on with a transaction that writes.
pub fn transact_write_next(state: WriteState, event: Event) -> (step: Step<WriteState, ()>)
    ensures
        write_goes_on(state, event, step),
{
    match (state, event) {
        (WriteState::Starting(tx, None, _), Event::Replied(Reply::Done)) => write_proceed(tx),
        (WriteState::Starting(tx, Some(t), now), Event::Replied(Reply::Done)) => {
            let filter = Document::new().with("_id", Bson::text(t.token.as_str()));
            run(
                WriteState::FindingToken(tx, t, now),
                Command::FindOne { at: Place::data("idempotency_tokens"), filter },
            )
        },
        (WriteState::FindingToken(_, t, _), Event::Replied(Reply::One(Some(d)))) => {
            let stored = d.str_or("fingerprint", "");
            let replay = text_eq(stored.as_str(), t.fingerprint.as_str());
            run(WriteState::Refusing { replay }, Command::AbortTransaction)
        },
        (WriteState::FindingToken(tx, t, now), Event::Replied(Reply::One(None))) => {
            let document = Document::new().with("_id", Bson::String(t.token)).with(
                "fingerprint",
                Bson::String(t.fingerprint),
            ).with("created_at", Bson::DateTime(now));
            run(
                WriteState::StoringToken(tx),
                Command::Insert { at: Place::data("idempotency_tokens"), document },
            )
        },
        (WriteState::Refusing { replay }, Event::Replied(Reply::Done)) => if replay {
            Step::Done(Err(StorageError::IdempotentReplay))
        } else {
            Step::Done(Err(StorageError::IdempotentMismatch))
        },
        (WriteState::StoringToken(tx), Event::Replied(Reply::Done)) => write_proceed(tx),
        (WriteState::Keying(_, _), Event::Key(Err(e))) => give_up(e),
        (WriteState::Keying(tx, op), Event::Key(Ok(k))) => match pk_filter(&op.item, &k) {
            Err(e) => give_up(e),
            Ok(filter) => {
                let name = data_collection_name(op.table_id.as_str());
                let at = Place::data(name.as_str());
                if op.kind != WriteKind::Delete || op.conditional {
                    let command = Command::FindOne { at, filter: copy_doc(&filter) };
                    run(WriteState::Looking(Work { tx, op, filter, key: k }), command)
                } else {
                    run(WriteState::Writing(tx), Command::DeleteOne { at, filter })
                }
            },
        },
        (WriteState::Looking(w), Event::Replied(Reply::One(d))) => {
            if w.op.kind == WriteKind::Put && !w.op.conditional {
                return perform(w, None);
            }
            match read_found(&d) {
                Err(e) => give_up(e),
                Ok(existing) => if w.op.conditional || w.op.kind == WriteKind::ConditionCheck {
                    let item = match &existing {
                        Some(i) => copy_item(i),
                        None => Item::new(),
                    };
                    let op = w.tx.reasons.len();
                    Step::Do(
                        WriteState::Evaluating(w, existing),
                        Action::Evaluate { op, item },
                    )
                } else {
                    perform(w, existing)
                },
            }
        },
        (WriteState::Evaluating(w, _), Event::Evaluated(Err(m))) => end_op(
            w.tx,
            CancellationReason::ValidationError(m),
        ),
        (WriteState::Evaluating(w, _), Event::Evaluated(Ok(false))) => end_op(
            w.tx,
            CancellationReason::ConditionCheckFailed(None),
        ),
        (WriteState::Evaluating(w, x), Event::Evaluated(Ok(true))) => perform(w, x),
        (WriteState::Applying(w), Event::Applied(Err(m))) => end_op(
            w.tx,
            CancellationReason::ValidationError(m),
        ),
        (WriteState::Applying(w), Event::Applied(Ok(new))) => {
            let action = Action::KeyOf {
                op: w.tx.reasons.len(),
                item: copy_item(&new),
                key_schema: copy_schema(&w.op.key_schema),
            };
            Step::Do(WriteState::NewKey(w, new), action)
        },
        (WriteState::NewKey(_, _), Event::Key(Err(e))) => give_up(e),
        (WriteState::NewKey(w, new), Event::Key(Ok(k))) => store(w, item_to_document(&new, &k)),
        (WriteState::Writing(tx), Event::Replied(Reply::Matched(_))) => end_op(
            tx,
            CancellationReason::NoReason,
        ),
        (WriteState::Writing(tx), Event::Replied(Reply::Deleted(_))) => end_op(
            tx,
            CancellationReason::NoReason,
        ),
        (WriteState::Looking(_), Event::Replied(Reply::Failed(e))) => give_up(
            StorageError::Internal(e.message),
        ),
        (WriteState::Writing(_), Event::Replied(Reply::Failed(e))) => give_up(
            StorageError::Internal(e.message),
        ),
        (WriteState::Aborting(x), Event::Replied(_)) => Step::Done(Err(x)),
        (WriteState::Committing, Event::Replied(Reply::Done)) => Step::Done(Ok(())),
        (_, Event::Replied(Reply::Failed(e))) => Step::Done(
            Err(StorageError::Internal(e.message)),
        ),
        _ => fail_unexpected(),
    }
}

// --- Old tokens ----------------------------------------------------------------------

/// The filter of the tokens from before a time in milliseconds.
pub open spec fn old_tokens(cutoff: i64) -> DocV {
    doc1("created_at"@, obj1("$lt"@, BsonV::DateTime(cutoff)))
}

/// The command that removes idempotency tokens from before a time in
/// milliseconds.
pub fn cleanup_tokens_command(cutoff: i64) -> (r: Command)
    ensures
        r@ == (CommandV::DeleteMany {
            at: in_data("idempotency_tokens"@),
            filter: old_tokens(cutoff),
        }),
{
    Command::DeleteMany {
        at: Place::data("idempotency_tokens"),
        filter: Document::new().with("created_at", Bson::obj1("$lt", Bson::DateTime(cutoff))),
    }
}

// --- Laws --------------------------------------------------------------------------

/// A transaction is committed only where no operation was refused.
pub proof fn law_commit_only_if_none_refused(
    left: Seq<WriteOp>,
    reasons: Seq<ReasonV>,
    step: Step<WriteState, ()>,
)
    requires
        write_proceeds(left, reasons, step),
        step matches Step::Do(_, a) && a@ == ActionV::Run(CommandV::CommitTransaction),
    ensures
        none_refused(reasons),
        forall|i: int| 0 <= i < left.len() ==> (#[trigger] left[i]).valid is Ok,
{
    let rs = passed_over(left, reasons);
    lemma_leading_invalid(left);
    assert forall|i: int| 0 <= i < reasons.len() implies (#[trigger] reasons[i]) is NoReason by {
        assert(rs[i] == reasons[i]);
    }
    assert forall|i: int| 0 <= i < left.len() implies (#[trigger] left[i]).valid is Ok by {
        assert(rs[reasons.len() + i] == invalid_reason(left[i]));
    }
}

/// Once an operation was refused, the transaction ends by being given up, with
/// the reasons of all its operations.
pub proof fn law_refusal_cancels(
    reasons: Seq<ReasonV>,
    step: Step<WriteState, ()>,
)
    requires
        write_proceeds(Seq::empty(), reasons, step),
        !none_refused(reasons),
    ensures
        gives_up(ErrV::TransactionCanceled(reasons), step),
{
    assert(passed_over(Seq::empty(), reasons) =~= reasons);
}

/// What became of the operations before, as long as there is more to do.
pub open spec fn reasons_so_far(state: WriteState) -> Option<Seq<ReasonV>> {
    match state {
        WriteState::Starting(tx, _, _) => Some(reason_seq(tx.reasons@)),
        WriteState::FindingToken(tx, _, _) => Some(reason_seq(tx.reasons@)),
        WriteState::StoringToken(tx) => Some(reason_seq(tx.reasons@)),
        WriteState::Keying(tx, _) => Some(reason_seq(tx.reasons@)),
        WriteState::Looking(w) => Some(reason_seq(w.tx.reasons@)),
        WriteState::Evaluating(w, _) => Some(reason_seq(w.tx.reasons@)),
        WriteState::Applying(w) => Some(reason_seq(w.tx.reasons@)),
        WriteState::NewKey(w, _) => Some(reason_seq(w.tx.reasons@)),
        WriteState::Writing(tx) => Some(reason_seq(tx.reasons@)),
        WriteState::Refusing { .. } => None,
        WriteState::Aborting(_) => None,
        WriteState::Committing => None,
    }
}

/// A transaction will not be committed: an operation was refused, or it is
/// being given up.
pub open spec fn is_lost(state: WriteState) -> bool {
    match reasons_so_far(state) {
        Some(r) => !none_refused(r),
        None => !(state is Committing),
    }
}

/// A step leaves a transaction lost: nothing is committed, and it does not end
/// well.
pub open spec fn stays_lost(step: Step<WriteState, ()>) -> bool {
    match step {
        Step::Do(s, a) => is_lost(s) && a@ != ActionV::Run(CommandV::CommitTransaction),
        Step::Done(r) => r is Err,
    }
}

proof fn lemma_refused_stays(left: Seq<WriteOp>, reasons: Seq<ReasonV>, step: Step<WriteState, ()>)
    requires
        !none_refused(reasons),
        write_proceeds(left, reasons, step),
    ensures
        stays_lost(step),
{
    let rs = passed_over(left, reasons);
    let i = choose|i: int| 0 <= i < reasons.len() && !((#[trigger] reasons[i]) is NoReason);
    assert(rs[i] == reasons[i]);
}

/// Once an operation of a transaction was refused, or the transaction is being
/// given up, no step commits it, whatever the database answers, and it ends in
/// an error.
pub proof fn law_lost_stays_lost(state: WriteState, event: Event, step: Step<WriteState, ()>)
    requires
        is_lost(state),
        write_goes_on(state, event, step),
    ensures
        stays_lost(step),
{
    match (state, event) {
        (WriteState::Starting(tx, None, _), Event::Replied(Reply::Done)) => {
            lemma_refused_stays(tx.left@, reason_seq(tx.reasons@), step);
        },
        (WriteState::StoringToken(tx), Event::Replied(Reply::Done)) => {
            lemma_refused_stays(tx.left@, reason_seq(tx.reasons@), step);
        },
        (WriteState::Evaluating(w, _), Event::Evaluated(r)) => {
            match r {
                Err(m) => lemma_refused_ends(w.tx, ReasonV::ValidationError(m@), step),
                Ok(false) => lemma_refused_ends(w.tx, ReasonV::ConditionCheckFailed(None), step),
                Ok(true) => if w.op.kind == WriteKind::ConditionCheck {
                    lemma_refused_ends(w.tx, ReasonV::NoReason, step);
                },
            }
        },
        (WriteState::Applying(w), Event::Applied(Err(m))) => {
            lemma_refused_ends(w.tx, ReasonV::ValidationError(m@), step);
        },
        (WriteState::Writing(tx), Event::Replied(Reply::Matched(_))) => {
            lemma_refused_ends(tx, ReasonV::NoReason, step);
        },
        (WriteState::Writing(tx), Event::Replied(Reply::Deleted(_))) => {
            lemma_refused_ends(tx, ReasonV::NoReason, step);
        },
        _ => {},
    }
}

proof fn lemma_refused_ends(tx: WriteTx, reason: ReasonV, step: Step<WriteState, ()>)
    requires
        !none_refused(reason_seq(tx.reasons@)),
        op_ends(tx, reason, step),
    ensures
        stays_lost(step),
{
    let rs = reason_seq(tx.reasons@);
    let i = choose|i: int| 0 <= i < rs.len() && !((#[trigger] rs[i]) is NoReason);
    assert(rs.push(reason)[i] == rs[i]);
    lemma_refused_stays(tx.left@, rs.push(reason), step);
}

/// A condition that does not hold loses the transaction, whatever became of
/// its other operations.
pub proof fn law_failed_condition_loses(
    w: Work,
    existing: Option<Item>,
    step: Step<WriteState, ()>,
)
    requires
        write_goes_on(WriteState::Evaluating(w, existing), Event::Evaluated(Ok(false)), step),
    ensures
        stays_lost(step),
{
    let rs = reason_seq(w.tx.reasons@).push(ReasonV::ConditionCheckFailed(None));
    assert(!(rs[rs.len() - 1] is NoReason));
    lemma_refused_stays(w.tx.left@, rs, step);
}

/// A request that was seen before performs no operation: it ends with the
/// transaction given up.
pub proof fn law_seen_token_writes_nothing(
    state: WriteState,
    event: Event,
    step: Step<WriteState, ()>,
)
    requires
        state is FindingToken,
        event matches Event::Replied(Reply::One(Some(_))),
        write_goes_on(state, event, step),
    ensures
        step matches Step::Do(WriteState::Refusing { .. }, a) && a@ == ActionV::Run(
            CommandV::AbortTransaction,
        ),
{
}

// --- What a transaction does ---------------------------------------------------------

/// How many operations a transaction has: those that are left, those that were
/// dealt with, and the one that is being performed.
pub open spec fn operations(state: WriteState) -> Option<nat> {
    match state {
        WriteState::Starting(tx, _, _) => Some(tx.left@.len() + tx.reasons@.len()),
        WriteState::FindingToken(tx, _, _) => Some(tx.left@.len() + tx.reasons@.len()),
        WriteState::StoringToken(tx) => Some(tx.left@.len() + tx.reasons@.len()),
        WriteState::Keying(tx, _) => Some(tx.left@.len() + tx.reasons@.len() + 1),
        WriteState::Looking(w) => Some(w.tx.left@.len() + w.tx.reasons@.len() + 1),
        WriteState::Evaluating(w, _) => Some(w.tx.left@.len() + w.tx.reasons@.len() + 1),
        WriteState::Applying(w) => Some(w.tx.left@.len() + w.tx.reasons@.len() + 1),
        WriteState::NewKey(w, _) => Some(w.tx.left@.len() + w.tx.reasons@.len() + 1),
        WriteState::Writing(tx) => Some(tx.left@.len() + tx.reasons@.len() + 1),
        WriteState::Refusing { .. } => None,
        WriteState::Aborting(_) => None,
        WriteState::Committing => None,
    }
}

/// The operations that are left.
pub open spec fn operations_left(state: WriteState) -> Seq<WriteOp> {
    match state {
        WriteState::Starting(tx, _, _) => tx.left@,
        WriteState::FindingToken(tx, _, _) => tx.left@,
        WriteState::StoringToken(tx) => tx.left@,
        WriteState::Keying(tx, _) => tx.left@,
        WriteState::Looking(w) => w.tx.left@,
        WriteState::Evaluating(w, _) => w.tx.left@,
        WriteState::Applying(w) => w.tx.left@,
        WriteState::NewKey(w, _) => w.tx.left@,
        WriteState::Writing(tx) => tx.left@,
        _ => Seq::empty(),
    }
}

/// An event ends the operation that is being performed well: the database has
/// written or removed its document, or the condition of a check holds.
pub open spec fn ends_well(state: WriteState, event: Event) -> bool {
    match (state, event) {
        (WriteState::Writing(_), Event::Replied(Reply::Matched(_))) => true,
        (WriteState::Writing(_), Event::Replied(Reply::Deleted(_))) => true,
        (WriteState::Evaluating(w, _), Event::Evaluated(Ok(b))) => b && w.op.kind
            == WriteKind::ConditionCheck,
        _ => false,
    }
}

proof fn lemma_proceeds_counts(left: Seq<WriteOp>, reasons: Seq<ReasonV>, step: Step<WriteState, ()>)
    requires
        write_proceeds(left, reasons, step),
    ensures
        match step {
            Step::Do(s, a) => match operations(s) {
                Some(n) => n == left.len() + reasons.len(),
                None => s is Aborting || (s is Committing && left.len() == 0 && none_refused(
                    reasons,
                )),
            },
            Step::Done(_) => false,
        },
{
    lemma_leading_invalid(left);
    let n = leading_invalid(left);
    let rs = passed_over(left, reasons);
    if n == left.len() && none_refused(rs) {
        law_commit_only_if_none_refused(left, reasons, step);
        if left.len() > 0 {
            assert(left[0].valid is Err);
        }
    } else if n < left.len() {
        let s = state_of(step);
        assert(s->Keying_0.reasons@.len() == reason_seq(s->Keying_0.reasons@).len());
    }
}

/// A transaction deals with every one of its operations: no step loses one,
/// and it is committed only after the last has ended well, with none refused
/// before.
pub proof fn law_commit_follows_all_operations(
    state: WriteState,
    event: Event,
    step: Step<WriteState, ()>,
)
    requires
        write_goes_on(state, event, step),
        operations(state) is Some,
        step is Do,
    ensures
        operations(state_of(step)) matches Some(n) ==> Some(n) == operations(state),
        operations(state_of(step)) is None ==> {
            ||| state_of(step) is Aborting
            ||| state_of(step) is Refusing
            ||| state_of(step) is Committing && operations_left(state).len() == 0 && none_refused(
                reasons_so_far(state)->0,
            ) && (state is Starting || state is StoringToken || ends_well(state, event))
        },
        command_of(step) == Some(CommandV::CommitTransaction) <==> state_of(step) is Committing,
{
    match (state, event) {
        (WriteState::Starting(tx, None, _), Event::Replied(Reply::Done)) => {
            lemma_proceeds_counts(tx.left@, reason_seq(tx.reasons@), step);
        },
        (WriteState::StoringToken(tx), Event::Replied(Reply::Done)) => {
            lemma_proceeds_counts(tx.left@, reason_seq(tx.reasons@), step);
        },
        (WriteState::Evaluating(w, _), Event::Evaluated(r)) => {
            match r {
                Err(m) => lemma_ends_counts(w.tx, ReasonV::ValidationError(m@), step),
                Ok(false) => lemma_ends_counts(w.tx, ReasonV::ConditionCheckFailed(None), step),
                Ok(true) => if w.op.kind == WriteKind::ConditionCheck {
                    lemma_ends_counts(w.tx, ReasonV::NoReason, step);
                },
            }
        },
        (WriteState::Applying(w), Event::Applied(Err(m))) => {
            lemma_ends_counts(w.tx, ReasonV::ValidationError(m@), step);
        },
        (WriteState::Writing(tx), Event::Replied(Reply::Matched(_))) => {
            lemma_ends_counts(tx, ReasonV::NoReason, step);
        },
        (WriteState::Writing(tx), Event::Replied(Reply::Deleted(_))) => {
            lemma_ends_counts(tx, ReasonV::NoReason, step);
        },
        _ => {},
    }
}

proof fn lemma_ends_counts(tx: WriteTx, reason: ReasonV, step: Step<WriteState, ()>)
    requires
        op_ends(tx, reason, step),
    ensures
        match step {
            Step::Do(s, a) => match operations(s) {
                Some(n) => n == tx.left@.len() + tx.reasons@.len() + 1,
                None => s is Aborting || (s is Committing && tx.left@.len() == 0 && none_refused(
                    reason_seq(tx.reasons@),
                ) && reason is NoReason),
            },
            Step::Done(_) => false,
        },
{
    let rs = reason_seq(tx.reasons@);
    lemma_proceeds_counts(tx.left@, rs.push(reason), step);
    if none_refused(rs.push(reason)) {
        assert forall|i: int| 0 <= i < rs.len() implies (#[trigger] rs[i]) is NoReason by {
            assert(rs.push(reason)[i] == rs[i]);
        }
        assert(rs.push(reason)[rs.len() as int] == reason);
    }
}

/// The operations of a transaction come in the order in which they were given:
/// the next is the first that is valid of those that are left.
pub proof fn law_operations_come_in_order(
    left: Seq<WriteOp>,
    reasons: Seq<ReasonV>,
    step: Step<WriteState, ()>,
)
    requires
        write_proceeds(left, reasons, step),
        exists|i: int| 0 <= i < left.len() && (#[trigger] left[i]).valid is Ok,
    ensures
        step matches Step::Do(WriteState::Keying(tx, op), a) && {
            let n = left.len() - tx.left@.len() - 1;
            &&& 0 <= n < left.len()
            &&& op == left[n]
            &&& op.valid is Ok
            &&& tx.left@ == left.skip(n + 1)
            &&& forall|i: int| 0 <= i < n ==> (#[trigger] left[i]).valid is Err
            &&& a@ matches ActionV::KeyOf { item, key_schema, .. } && item == op.item@
                && key_schema == schema_view(op.key_schema@)
        },
{
    lemma_leading_invalid(left);
    let n = leading_invalid(left);
    let i = choose|i: int| 0 <= i < left.len() && (#[trigger] left[i]).valid is Ok;
    assert(n <= i);
    lemma_next_is_valid(left);
}

proof fn lemma_next_is_valid(left: Seq<WriteOp>)
    ensures
        leading_invalid(left) < left.len() ==> left[leading_invalid(left) as int].valid is Ok,
    decreases left.len(),
{
    if left.len() > 0 && left[0].valid is Err {
        lemma_next_is_valid(left.skip(1));
        let n = leading_invalid(left);
        if n < left.len() {
            assert(left[n as int] == left.skip(1)[n - 1]);
        }
    }
}

/// The collection of the table of the operation that is being performed.
pub open spec fn work_place(state: WriteState) -> Option<PlaceV> {
    match state {
        WriteState::Keying(_, op) => Some(table_place(op.table_id@)),
        WriteState::Looking(w) => Some(table_place(w.op.table_id@)),
        WriteState::Evaluating(w, _) => Some(table_place(w.op.table_id@)),
        WriteState::Applying(w) => Some(table_place(w.op.table_id@)),
        WriteState::NewKey(w, _) => Some(table_place(w.op.table_id@)),
        WriteState::Starting(_, _, _) => Some(in_data("idempotency_tokens"@)),
        WriteState::FindingToken(_, _, _) => Some(in_data("idempotency_tokens"@)),
        _ => None,
    }
}

/// A command that begins or ends a transaction.
pub open spec fn is_boundary(c: CommandV) -> bool {
    c is StartTransaction || c is CommitTransaction || c is AbortTransaction
}

/// A transaction runs no command but those that read, replace and remove
/// documents of the table of the operation that is being performed, or look up
/// and store its token, and those that end it.
pub proof fn law_transaction_keeps_to_tables(
    state: WriteState,
    event: Event,
    step: Step<WriteState, ()>,
)
    requires
        write_goes_on(state, event, step),
        command_of(step) matches Some(c) && !is_boundary(c),
    ensures
        work_place(state) matches Some(at) && keeps_to(step, at),
{
}

/// An operation that is valid and keyed deletes the item of its key: without a
/// condition at once, and with one once the condition was found to hold of
/// what stands under the key. Nothing stands under the key then, and every
/// other document of the table is as it was. No other command is run.
pub proof fn law_transaction_deletes(
    before: spec_fn(BsonV, BsonV) -> bool,
    tx: WriteTx,
    op: WriteOp,
    k: ItemKey,
    docs: Seq<DocV>,
    x: Option<ItemV>,
    found: Seq<DocV>,
    found_reply: Reply,
    after: Seq<DocV>,
    reply: Reply,
    s1: Step<WriteState, ()>,
    s2: Step<WriteState, ()>,
    s3: Step<WriteState, ()>,
)
    requires
        op.kind == WriteKind::Delete,
        has_typed_key(op.item@, k),
        stands_under(before, docs, key_filter(op.item@, k)->Ok_0, x),
        write_goes_on(WriteState::Keying(tx, op), Event::Key(Ok(k)), s1),
        op.conditional ==> {
            &&& command_of(s1) matches Some(c) ==> takes_effect(before, c, docs, found, found_reply)
            &&& write_goes_on(state_of(s1), Event::Replied(found_reply), s2)
            &&& write_goes_on(state_of(s2), Event::Evaluated(Ok(true)), s3)
        },
    ensures
        op.conditional ==> {
            &&& found == docs
            &&& s2 matches Step::Do(_, a) && a@ == (ActionV::Evaluate {
                op: tx.reasons@.len() as usize,
                item: match x {
                    Some(i) => i,
                    None => ItemV::empty(),
                },
            })
        },
        ({
            let removal = if op.conditional {
                s3
            } else {
                s1
            };
            &&& command_of(removal) matches Some(c) && c is DeleteOne && place_of(c) == Some(
                table_place(op.table_id@),
            ) && (takes_effect(before, c, docs, after, reply) ==> stands_under(
                before,
                after,
                key_filter(op.item@, k)->Ok_0,
                None,
            ) && others_kept(before, key_filter(op.item@, k)->Ok_0, docs, after))
            &&& state_of(removal) == WriteState::Writing(tx)
        }),
{
    lemma_found_by_key(before, op.item@, k);
    let f = key_filter(op.item@, k)->Ok_0;
    if op.conditional {
        lemma_picked(before, docs, f, found_reply->One_0, x);
    }
    let removal = if op.conditional {
        s3
    } else {
        s1
    };
    let c = command_of(removal)->0;
    if takes_effect(before, c, docs, after, reply) {
        let old = choose|old: Option<DocV>| #[trigger]
            is_removed(before, docs, f, after, old) && reply == Reply::Deleted(one_if(old));
        lemma_removed(before, docs, f, after, old, x);
    }
}

/// An operation that puts an item stores it under its key, with a condition
/// only once that was found to hold of what stands there; every other document
/// of the table is as it was.
pub proof fn law_transaction_puts(
    before: spec_fn(BsonV, BsonV) -> bool,
    tx: WriteTx,
    op: WriteOp,
    k: ItemKey,
    docs: Seq<DocV>,
    x: Option<ItemV>,
    found: Seq<DocV>,
    found_reply: Reply,
    after: Seq<DocV>,
    reply: Reply,
    s1: Step<WriteState, ()>,
    s2: Step<WriteState, ()>,
    s3: Step<WriteState, ()>,
)
    requires
        op.kind == WriteKind::Put,
        has_typed_key(op.item@, k),
        reads_back(op.item@, k),
        stands_under(before, docs, key_filter(op.item@, k)->Ok_0, x),
        write_goes_on(WriteState::Keying(tx, op), Event::Key(Ok(k)), s1),
        command_of(s1) matches Some(c) ==> takes_effect(before, c, docs, found, found_reply),
        write_goes_on(state_of(s1), Event::Replied(found_reply), s2),
        op.conditional ==> write_goes_on(state_of(s2), Event::Evaluated(Ok(true)), s3),
    ensures
        found == docs,
        op.conditional ==> (s2 matches Step::Do(_, a) && a@ == (ActionV::Evaluate {
            op: tx.reasons@.len() as usize,
            item: match x {
                Some(i) => i,
                None => ItemV::empty(),
            },
        })),
        ({
            let writing = if op.conditional {
                s3
            } else {
                s2
            };
            &&& command_of(writing) matches Some(c) && c is Replace && place_of(c) == Some(
                table_place(op.table_id@),
            ) && (takes_effect(before, c, docs, after, reply) ==> stands_under(
                before,
                after,
                key_filter(op.item@, k)->Ok_0,
                Some(op.item@),
            ) && others_kept(before, key_filter(op.item@, k)->Ok_0, docs, after))
            &&& state_of(writing) == WriteState::Writing(tx)
        }),
{
    lemma_found_by_key(before, op.item@, k);
    let f = key_filter(op.item@, k)->Ok_0;
    lemma_picked(before, docs, f, found_reply->One_0, x);
    let writing = if op.conditional {
        s3
    } else {
        s2
    };
    let c = command_of(writing)->0;
    if takes_effect(before, c, docs, after, reply) {
        let document = item_document(op.item@, k)->Ok_0;
        let old = choose|old: Option<DocV>| #[trigger]
            is_replaced(before, docs, f, document, true, after, old) && reply == Reply::Matched(
                one_if(old),
            );
        lemma_replaced(before, docs, f, document, true, after, old, x, op.item@);
    }
}

/// An operation that updates an item has the update applied to what stands
/// under its key, or to the key where nothing does, with a condition only once
/// that was found to hold; what comes of it is stored under the key.
pub proof fn law_transaction_updates(
    before: spec_fn(BsonV, BsonV) -> bool,
    tx: WriteTx,
    op: WriteOp,
    k: ItemKey,
    new: Item,
    k2: ItemKey,
    docs: Seq<DocV>,
    x: Option<ItemV>,
    found: Seq<DocV>,
    found_reply: Reply,
    after: Seq<DocV>,
    reply: Reply,
    s1: Step<WriteState, ()>,
    s2: Step<WriteState, ()>,
    s3: Step<WriteState, ()>,
    s4: Step<WriteState, ()>,
    s5: Step<WriteState, ()>,
)
    requires
        op.kind == WriteKind::Update,
        has_typed_key(op.item@, k),
        has_typed_key(new@, k2),
        reads_back(new@, k2),
        k.sort_key is Some == k2.sort_key is Some,
        k.sort_key matches Some(sk) ==> k2.sort_key->0.name@ == sk.name@ && k2.sort_key->0.kind
            == sk.kind,
        is_same_key(op.item@, k, new@, k2),
        stands_under(before, docs, key_filter(op.item@, k)->Ok_0, x),
        write_goes_on(WriteState::Keying(tx, op), Event::Key(Ok(k)), s1),
        command_of(s1) matches Some(c) ==> takes_effect(before, c, docs, found, found_reply),
        write_goes_on(state_of(s1), Event::Replied(found_reply), s2),
        if op.conditional {
            write_goes_on(state_of(s2), Event::Evaluated(Ok(true)), s3)
        } else {
            s3 == s2
        },
        write_goes_on(state_of(s3), Event::Applied(Ok(new)), s4),
        write_goes_on(state_of(s4), Event::Key(Ok(k2)), s5),
    ensures
        found == docs,
        op.conditional ==> (s2 matches Step::Do(_, a) && a@ == (ActionV::Evaluate {
            op: tx.reasons@.len() as usize,
            item: match x {
                Some(i) => i,
                None => ItemV::empty(),
            },
        })),
        s3 matches Step::Do(_, a) && a@ == (ActionV::Apply {
            op: tx.reasons@.len() as usize,
            item: match x {
                Some(i) => i,
                None => op.item@,
            },
        }),
        s4 matches Step::Do(_, a) && a@ == (ActionV::KeyOf {
            op: tx.reasons@.len() as usize,
            item: new@,
            key_schema: schema_view(op.key_schema@),
        }),
        command_of(s5) matches Some(c) && c is Replace && place_of(c) == Some(
            table_place(op.table_id@),
        ) && (takes_effect(before, c, docs, after, reply) ==> stands_under(
            before,
            after,
            key_filter(op.item@, k)->Ok_0,
            Some(new@),
        ) && others_kept(before, key_filter(op.item@, k)->Ok_0, docs, after)),
        state_of(s5) == WriteState::Writing(tx),
{
    lemma_found_by_key(before, op.item@, k);
    let f = key_filter(op.item@, k)->Ok_0;
    lemma_picked(before, docs, f, found_reply->One_0, x);
    law_key_finds_its_item(before, op.item@, k, new@, k2);
    let c = command_of(s5)->0;
    if takes_effect(before, c, docs, after, reply) {
        let document = item_document(new@, k2)->Ok_0;
        let old = choose|old: Option<DocV>| #[trigger]
            is_replaced(before, docs, f, document, true, after, old) && reply == Reply::Matched(
                one_if(old),
            );
        lemma_replaced(before, docs, f, document, true, after, old, x, new@);
    }
}

/// A check has its condition evaluated on what stands under its key and writes
/// nothing: where the condition holds the transaction goes on with the next
/// operation.
pub proof fn law_transaction_checks(
    before: spec_fn(BsonV, BsonV) -> bool,
    tx: WriteTx,
    op: WriteOp,
    k: ItemKey,
    docs: Seq<DocV>,
    x: Option<ItemV>,
    found: Seq<DocV>,
    found_reply: Reply,
    s1: Step<WriteState, ()>,
    s2: Step<WriteState, ()>,
    s3: Step<WriteState, ()>,
)
    requires
        op.kind == WriteKind::ConditionCheck,
        has_typed_key(op.item@, k),
        stands_under(before, docs, key_filter(op.item@, k)->Ok_0, x),
        write_goes_on(WriteState::Keying(tx, op), Event::Key(Ok(k)), s1),
        command_of(s1) matches Some(c) ==> takes_effect(before, c, docs, found, found_reply),
        write_goes_on(state_of(s1), Event::Replied(found_reply), s2),
        write_goes_on(state_of(s2), Event::Evaluated(Ok(true)), s3),
    ensures
        found == docs,
        s2 matches Step::Do(_, a) && a@ == (ActionV::Evaluate {
            op: tx.reasons@.len() as usize,
            item: match x {
                Some(i) => i,
                None => ItemV::empty(),
            },
        }),
        command_of(s3) matches Some(c) ==> is_boundary(c),
        operations(state_of(s3)) matches Some(n) ==> n == tx.left@.len() + tx.reasons@.len() + 1,
{
    lemma_found_by_key(before, op.item@, k);
    lemma_picked(before, docs, key_filter(op.item@, k)->Ok_0, found_reply->One_0, x);
    lemma_ends_counts(tx, ReasonV::NoReason, s3);
}

/// Every operation but a delete without a condition begins by looking at what
/// stands under its key in the collection of its table.
pub proof fn law_operation_looks_first(
    tx: WriteTx,
    op: WriteOp,
    k: ItemKey,
    step: Step<WriteState, ()>,
)
    requires
        has_typed_key(op.item@, k),
        write_goes_on(WriteState::Keying(tx, op), Event::Key(Ok(k)), step),
        op.kind != WriteKind::Delete || op.conditional,
    ensures
        command_of(step) matches Some(CommandV::FindOne { at, filter }) && at == table_place(
            op.table_id@,
        ) && filter == key_filter(op.item@, k)->Ok_0,
{
    lemma_found_by_key(|a: BsonV, b: BsonV| false, op.item@, k);
}

/// A token is known again: the lookup of a token finds the document of another
/// just where the tokens are the same, and a request whose token was stored is
/// refused, as sent again where it holds the same, as another otherwise. A
/// token that was not stored is stored before any operation is performed.
pub proof fn law_token_is_known_again(
    before: spec_fn(BsonV, BsonV) -> bool,
    tx: WriteTx,
    t: Token,
    now: i64,
    stored: Token,
    earlier: i64,
    d: Document,
    first: Step<WriteState, ()>,
    seen: Step<WriteState, ()>,
    refused: Step<WriteState, ()>,
    fresh: Step<WriteState, ()>,
)
    requires
        d@ == token_document(stored, earlier),
        write_goes_on(WriteState::Starting(tx, Some(t), now), Event::Replied(Reply::Done), first),
        write_goes_on(state_of(first), Event::Replied(Reply::One(Some(d))), seen),
        write_goes_on(state_of(seen), Event::Replied(Reply::Done), refused),
        write_goes_on(state_of(first), Event::Replied(Reply::One(None)), fresh),
    ensures
        command_of(first) matches Some(CommandV::FindOne { at, filter }) && at == in_data(
            "idempotency_tokens"@,
        ) && matches_filter(before, filter, d@) == (t.token@ == stored.token@),
        command_of(seen) == Some(CommandV::AbortTransaction),
        refused matches Step::Done(Err(e)) && e@ == (if t.fingerprint@ == stored.fingerprint@ {
            ErrV::IdempotentReplay
        } else {
            ErrV::IdempotentMismatch
        }),
        state_of(fresh) == WriteState::StoringToken(tx),
        command_of(fresh) matches Some(CommandV::Insert { at, document }) && at == in_data(
            "idempotency_tokens"@,
        ) && matches_filter(before, doc1("_id"@, BsonV::Str(t.token@)), document)
            && document.get_str("fingerprint"@) == Some(t.fingerprint@) && document.get_datetime(
            "created_at"@,
        ) == Some(now),
{
    broadcast use crate::bson::group_document_fields;

    reveal_strlit("_id");
    reveal_strlit("fingerprint");
    reveal_strlit("created_at");
    assert("_id"@.len() == 3 && "fingerprint"@.len() == 11 && "created_at"@.len() == 10);
    let filter = BsonV::Str(t.token@);
    lemma_field("_id"@);
    lemma_is_part("_id"@);
    lemma_one_part(BsonV::Doc(d@), "_id"@);
    lemma_one_clause(before, "_id"@, filter, d@);
    let own = token_document(t, now);
    lemma_one_part(BsonV::Doc(own), "_id"@);
    lemma_one_clause(before, "_id"@, filter, own);
}

/// Tokens are removed once they are older than a time, and no others.
pub proof fn law_old_tokens_are_removed(
    before: spec_fn(BsonV, BsonV) -> bool,
    cutoff: i64,
    t: Token,
    now: i64,
)
    requires
        forall|a: i64, b: i64| #[trigger]
            before(BsonV::DateTime(a), BsonV::DateTime(b)) == (a < b),
    ensures
        matches_filter(before, old_tokens(cutoff), token_document(t, now)) == (now < cutoff),
{
    broadcast use crate::bson::group_document_fields;

    lemma_words();
    reveal_strlit("_id");
    reveal_strlit("fingerprint");
    reveal_strlit("created_at");
    reveal_strlit("$lt");
    assert("_id"@.len() == 3 && "fingerprint"@.len() == 11 && "created_at"@.len() == 10);
    let d = token_document(t, now);
    lemma_field("created_at"@);
    lemma_is_part("created_at"@);
    lemma_one_part(BsonV::Doc(d), "created_at"@);
    lemma_doc1("$lt"@, BsonV::DateTime(cutoff));
    lemma_one_asked(before, "$lt"@, BsonV::DateTime(cutoff), d.get("created_at"@));
    lemma_one_clause(before, "created_at"@, obj1("$lt"@, BsonV::DateTime(cutoff)), d);
}

/// A read of a transaction looks in the collection of its table for what stands
/// under its key, and that is added behind what was read before.
pub proof fn law_transaction_reads(
    before: spec_fn(BsonV, BsonV) -> bool,
    tx: ReadTx,
    op: ReadOp,
    k: ItemKey,
    docs: Seq<DocV>,
    x: Option<ItemV>,
    after: Seq<DocV>,
    reply: Reply,
    s1: Step<ReadState, Vec<Option<Item>>>,
    s2: Step<ReadState, Vec<Option<Item>>>,
)
    requires
        has_typed_key(op.key@, k),
        stands_under(before, docs, key_filter(op.key@, k)->Ok_0, x),
        read_goes_on(ReadState::Keying(tx, op), Event::Key(Ok(k)), s1),
        command_of(s1) matches Some(c) ==> takes_effect(before, c, docs, after, reply),
        read_goes_on(state_of(s1), Event::Replied(reply), s2),
    ensures
        after == docs,
        keeps_to(s1, table_place(op.table_id@)),
        tx.left@.len() == 0 ==> (s2 matches Step::Do(ReadState::Committing(r), _) && opt_item_seq(
            r@,
        ) == opt_item_seq(tx.results@).push(x) && command_of(s2) == Some(
            CommandV::CommitTransaction,
        )),
        tx.left@.len() > 0 ==> (s2 matches Step::Do(ReadState::Keying(tx2, op2), a) && opt_item_seq(
            tx2.results@,
        ) == opt_item_seq(tx.results@).push(x) && op2 == tx.left@[0] && tx2.left@ == tx.left@.skip(1)
            && a@ == (ActionV::KeyOf {
            op: (tx.results@.len() + 1) as usize,
            item: op2.key@,
            key_schema: schema_view(op2.key_schema@),
        })),
{
    lemma_found_by_key(before, op.key@, k);
    lemma_picked(before, docs, key_filter(op.key@, k)->Ok_0, reply->One_0, x);
}

/// A read of a transaction runs a command that reads, and nothing that writes
/// is ever run by a reading transaction.
pub proof fn law_reading_writes_nothing(
    state: ReadState,
    event: Event,
    step: Step<ReadState, Vec<Option<Item>>>,
)
    requires
        read_goes_on(state, event, step),
        command_of(step) is Some,
    ensures
        command_of(step) matches Some(c) && (is_boundary(c) || c is FindOne),
        state is Keying ==> command_of(step) matches Some(CommandV::FindOne { .. }),
        command_of(step) == Some(CommandV::CommitTransaction) ==> state_of(step) is Committing,
{
}

/// What a reading transaction has read is what it hands out, once it was
/// committed.
pub proof fn law_reads_are_handed_out(
    r: Vec<Option<Item>>,
    event: Event,
    step: Step<ReadState, Vec<Option<Item>>>,
)
    requires
        read_goes_on(ReadState::Committing(r), event, step),
        event == Event::Replied(Reply::Done),
    ensures
        step == Step::<ReadState, Vec<Option<Item>>>::Done(Ok(r)),
{
}

/// The reasons of a transaction are those of its operations, one for each in
/// their order: those of the operations before stand first, and an operation
/// that is not valid has its message. The number under which the host is asked
/// about an operation is its place among them.
pub proof fn law_reasons_follow_operations(
    left: Seq<WriteOp>,
    reasons: Seq<ReasonV>,
    step: Step<WriteState, ()>,
    i: int,
)
    requires
        write_proceeds(left, reasons, step),
        0 <= i < left.len(),
    ensures
        match step {
            Step::Do(WriteState::Keying(tx, op), a) => {
                let n = left.len() - tx.left@.len() - 1;
                let all = reason_seq(tx.reasons@);
                &&& all.len() == reasons.len() + n
                &&& all.take(reasons.len() as int) == reasons
                &&& i < n ==> (left[i].valid matches Err(m) && all[reasons.len() + i]
                    == ReasonV::ValidationError(m@))
                &&& a@ matches ActionV::KeyOf { op, .. } && op == all.len() as usize
            },
            Step::Do(WriteState::Aborting(e), _) => {
                &&& e@ matches ErrV::TransactionCanceled(all)
                &&& all.len() == reasons.len() + left.len()
                &&& all.take(reasons.len() as int) == reasons
                &&& left[i].valid matches Err(m)
                &&& all[reasons.len() + i] == ReasonV::ValidationError(m@)
            },
            _ => false,
        },
{
    lemma_leading_invalid(left);
    let n = leading_invalid(left);
    let all = passed_over(left, reasons);
    assert(all.take(reasons.len() as int) =~= reasons);
    if i < n {
        assert(left[i].valid is Err);
        assert(all[reasons.len() + i] == invalid_reason(left[i]));
    }
    if n == left.len() {
        assert(left[0].valid is Err);
        assert(all[reasons.len() as int] == invalid_reason(left[0]));
    }
}

/// What becomes of an operation: one whose condition or update cannot be
/// worked out is invalid, one whose condition fails is refused for that, and
/// one that was performed has no reason against it. The next step goes on with
/// that reason added.
pub proof fn law_operation_has_its_reason(
    w: Work,
    x: Option<Item>,
    m: String,
    n: u64,
    unknown: Step<WriteState, ()>,
    failed: Step<WriteState, ()>,
    unapplied: Step<WriteState, ()>,
    written: Step<WriteState, ()>,
    removed: Step<WriteState, ()>,
)
    requires
        write_goes_on(WriteState::Evaluating(w, x), Event::Evaluated(Err(m)), unknown),
        write_goes_on(WriteState::Evaluating(w, x), Event::Evaluated(Ok(false)), failed),
        write_goes_on(WriteState::Applying(w), Event::Applied(Err(m)), unapplied),
        write_goes_on(WriteState::Writing(w.tx), Event::Replied(Reply::Matched(n)), written),
        write_goes_on(WriteState::Writing(w.tx), Event::Replied(Reply::Deleted(n)), removed),
    ensures
        ({
            let before = reason_seq(w.tx.reasons@);
            let left = w.tx.left@;
            &&& write_proceeds(left, before.push(ReasonV::ValidationError(m@)), unknown)
            &&& write_proceeds(left, before.push(ReasonV::ConditionCheckFailed(None)), failed)
            &&& write_proceeds(left, before.push(ReasonV::ValidationError(m@)), unapplied)
            &&& write_proceeds(left, before.push(ReasonV::NoReason), written)
            &&& write_proceeds(left, before.push(ReasonV::NoReason), removed)
        }),
{
}

/// A transaction that breaks off is undone before its error is told: where a
/// key cannot be told, or the database refuses to look up or to write.
pub proof fn law_broken_transaction_is_undone(
    tx: WriteTx,
    op: WriteOp,
    w: Work,
    new: Item,
    e: StorageError,
    f: DbError,
    any: Reply,
    unkeyed: Step<WriteState, ()>,
    rekeyed: Step<WriteState, ()>,
    unread: Step<WriteState, ()>,
    unwritten: Step<WriteState, ()>,
    ended: Step<WriteState, ()>,
)
    requires
        write_goes_on(WriteState::Keying(tx, op), Event::Key(Err(e)), unkeyed),
        write_goes_on(WriteState::NewKey(w, new), Event::Key(Err(e)), rekeyed),
        write_goes_on(WriteState::Looking(w), Event::Replied(Reply::Failed(f)), unread),
        write_goes_on(WriteState::Writing(tx), Event::Replied(Reply::Failed(f)), unwritten),
        write_goes_on(WriteState::Aborting(e), Event::Replied(any), ended),
    ensures
        command_of(unkeyed) == Some(CommandV::AbortTransaction) && state_of(unkeyed)->Aborting_0@
            == e@,
        command_of(rekeyed) == Some(CommandV::AbortTransaction) && state_of(rekeyed)->Aborting_0@
            == e@,
        command_of(unread) == Some(CommandV::AbortTransaction) && state_of(unread)->Aborting_0@
            == ErrV::Internal(f.message@),
        command_of(unwritten) == Some(CommandV::AbortTransaction) && state_of(
            unwritten,
        )->Aborting_0@ == ErrV::Internal(f.message@),
        ended == Step::<WriteState, ()>::Done(Err(e)),
{
}

} // verus!
