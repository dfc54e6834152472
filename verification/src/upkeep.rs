//! What the upkeep of tables does: items that expire are found, sizes are
//! counted, tables reach the status they are due for, and queued changes of
//! indexes are taken one by one.

use vstd::prelude::*;
use vstd::string::*;

use crate::bson::{doc1, doc_seq, lemma_doc1, BsonV, DocV, Document};
use crate::data::document_item;
use crate::effects::{command_of, state_of, table_place};
use crate::error::ErrV;
use crate::gsi_queue::{
    batch_goes_on, is_queued, meta_of, metas_to, BatchAction, BatchEvent, BatchState, BatchStep,
    IndexRow, MetaV,
};
use crate::item::{item_seq, AvV, Item, ItemV};
use crate::item_json::{av_json, item_json};
use crate::meaning::{
    is_field, is_part, lemma_field, lemma_is_part, lemma_one_clause, lemma_one_part,
    lemma_path_joined, lemma_two_asked, lemma_words, matches_filter, value_at,
};
use crate::number::i64_of_text;
use crate::protocol::{in_catalog, CommandV, Db, Event, Reply, Step};
use crate::reading::comes_before;
use crate::script::{script_goes_on, Turn};
use crate::selection::{holds_item, lemma_item_json_get, lemma_stored_under};
use crate::ttl::{
    expired_goes_on, expired_to, is_expired, note_size_of, search_expired_of, size_goes_on,
    ttl_field, ExpiredState, SizeState,
};
use crate::worker::{
    activate_lines, activate_of, all_became, is_under_way, removal_lines, removal_turns,
    stuck_seq, stuck_tables, transition_seq, worker_goes_on, Outcome, StuckV, Sweep, Transition,
    WorkerState,
};

verus! {

// --- Items that expire ---------------------------------------------------------------

/// An item expires at a time: the attribute holds a number of seconds from
/// 1 on that has come.
pub open spec fn item_expires(item: ItemV, attribute: Seq<char>, now: i64) -> bool {
    item.get(attribute) matches Some(AvV::N(n)) && (i64_of_text(n) matches Some(t) && 1 <= t
        && t <= now)
}

/// The number text that an attribute of an item holds.
pub open spec fn number_of(item: ItemV, attribute: Seq<char>) -> Option<Seq<char>> {
    match item.get(attribute) {
        Some(AvV::N(n)) => Some(n),
        _ => None,
    }
}

proof fn lemma_number_under(v: AvV)
    ensures
        av_json(v) is Doc,
        av_json(v)->Doc_0.get("N"@) == (match v {
            AvV::N(n) => Some(BsonV::Str(n)),
            _ => None,
        }),
        is_part("N"@),
{
    reveal_strlit("S");
    reveal_strlit("N");
    assert("S"@[0] == 'S' && "N"@[0] == 'N');
    lemma_is_part("N"@);
    lemma_stored_under(v, "N"@);
    lemma_one_part(av_json(v), "N"@);
}

/// A document has expired just where the item that it holds has.
pub proof fn law_document_expires_as_item(d: DocV, item: ItemV, attribute: Seq<char>, now: i64)
    requires
        holds_item(d, item),
    ensures
        is_expired(d, attribute, now) == item_expires(item, attribute, now),
{
    lemma_item_json_get(item, attribute);
    if let Some(v) = item.get(attribute) {
        lemma_number_under(v);
    }
}

proof fn lemma_expiry_path(d: DocV, item: ItemV, attribute: Seq<char>)
    requires
        holds_item(d, item),
        is_part(attribute),
    ensures
        is_field(ttl_field(attribute)),
        value_at(BsonV::Doc(d), ttl_field(attribute)) == (match number_of(item, attribute) {
            Some(n) => Some(BsonV::Str(n)),
            None => None,
        }),
{
    reveal_strlit("item_data");
    reveal_strlit("item_data.");
    reveal_strlit(".");
    reveal_strlit(".N");
    reveal_strlit("N");
    let rest = attribute + "."@ + "N"@;
    assert(ttl_field(attribute) =~= "item_data"@ + "."@ + rest);
    assert(ttl_field(attribute)[0] == 'i');
    lemma_is_part("item_data"@);
    lemma_path_joined(BsonV::Doc(d), "item_data"@, rest);
    lemma_one_part(BsonV::Doc(d), "item_data"@);
    let stored = BsonV::Doc(item_json(item));
    lemma_path_joined(stored, attribute, "N"@);
    lemma_one_part(stored, attribute);
    lemma_item_json_get(item, attribute);
    if let Some(v) = item.get(attribute) {
        lemma_number_under(v);
        lemma_one_part(av_json(v), "N"@);
    }
}

/// The search for expired items looks through the items of the table that have
/// a number under the attribute, from the least upwards, twice as many as
/// asked for.
pub proof fn law_candidates_are_searched(
    before: spec_fn(BsonV, BsonV) -> bool,
    table_id: Seq<char>,
    attribute: Seq<char>,
    limit: usize,
    d: DocV,
    item: ItemV,
    d2: DocV,
    item2: ItemV,
)
    requires
        holds_item(d, item),
        holds_item(d2, item2),
        is_part(attribute),
        limit * 2 <= i64::MAX,
    ensures
        search_expired_of(table_id, attribute, limit) matches CommandV::Find { at, filter, paging }
            && {
            &&& at == table_place(table_id)
            &&& matches_filter(before, filter, d) == (number_of(item, attribute) is Some)
            &&& paging.limit matches Some(n) && n == limit * 2
            &&& paging.sort is Some
            &&& number_of(item, attribute) matches Some(x) ==> (number_of(item2, attribute)
                matches Some(y) ==> comes_before(before, paging.sort->0.entries, d, d2) == (x != y
                && before(BsonV::Str(x), BsonV::Str(y))))
        },
{
    lemma_words();
    lemma_expiry_path(d, item, attribute);
    lemma_expiry_path(d2, item2, attribute);
    reveal_strlit("$exists");
    reveal_strlit("$ne");
    assert("$exists"@.len() == 7 && "$ne"@.len() == 3);
    let f = ttl_field(attribute);
    let x = value_at(BsonV::Doc(d), f);
    let ops = doc1("$exists"@, BsonV::Boolean(true)).with("$ne"@, BsonV::Null);
    lemma_field(f);
    lemma_two_asked(before, "$exists"@, BsonV::Boolean(true), "$ne"@, BsonV::Null, x);
    assert(ops.entries[0].0[0] == '$');
    lemma_one_clause(before, f, BsonV::Doc(ops), d);
    lemma_doc1(f, BsonV::Int32(1));
    let by = doc1(f, BsonV::Int32(1)).entries;
    assert(by[0] == (f, BsonV::Int32(1)));
    assert(by.skip(1).len() == 0);
    reveal_with_fuel(comes_before, 2);
}

/// Every item that has expired among those that were searched is picked,
/// unless as many as asked for were picked.
pub proof fn law_expired_are_picked(
    docs: Seq<DocV>,
    n: nat,
    attribute: Seq<char>,
    now: i64,
    limit: nat,
    j: int,
)
    requires
        0 <= j < n <= docs.len(),
        expired_to(docs, n, attribute, now, limit) is Ok,
        is_expired(docs[j], attribute, now),
    ensures
        expired_to(docs, n, attribute, now, limit)->Ok_0.len() >= limit || (document_item(docs[j])
            is Ok && expired_to(docs, n, attribute, now, limit)->Ok_0.contains(
            document_item(docs[j])->Ok_0,
        )),
    decreases n,
{
    let before_last = expired_to(docs, (n - 1) as nat, attribute, now, limit);
    let items = expired_to(docs, n, attribute, now, limit)->Ok_0;
    if j < n - 1 {
        law_expired_are_picked(docs, (n - 1) as nat, attribute, now, limit, j);
        if document_item(docs[j]) is Ok && before_last->Ok_0.contains(document_item(docs[j])->Ok_0) {
            let i = choose|i: int|
                0 <= i < before_last->Ok_0.len() && before_last->Ok_0[i] == document_item(
                    docs[j],
                )->Ok_0;
            assert(items[i] == document_item(docs[j])->Ok_0);
        }
    } else if before_last->Ok_0.len() < limit {
        assert(items[items.len() - 1] == document_item(docs[j])->Ok_0);
    }
}

/// The whole search: it looks in the collection of the table and hands out,
/// of what was found there, items that have expired and no others, all of
/// them unless there are as many as asked for.
pub proof fn law_search_hands_out_expired(
    table_name: String,
    attribute: String,
    limit: usize,
    now: i64,
    table: Document,
    docs: Vec<Document>,
    held: Seq<ItemV>,
    s1: Step<ExpiredState, Vec<Item>>,
    s2: Step<ExpiredState, Vec<Item>>,
    x: ItemV,
)
    requires
        table@.get_str("table_id"@) is Some,
        expired_goes_on(
            ExpiredState::Finding { table_name, attribute, limit, now },
            Event::Replied(Reply::One(Some(table))),
            s1,
        ),
        expired_goes_on(state_of(s1), Event::Replied(Reply::Many(docs)), s2),
        held.len() == docs@.len(),
        forall|i: int|
            0 <= i < docs@.len() ==> holds_item((#[trigger] docs@[i])@, held[i]) && document_item(
                docs@[i]@,
            ) == Ok::<ItemV, ErrV>(held[i]),
    ensures
        command_of(s1) == Some(
            search_expired_of(table@.get_str("table_id"@)->0, attribute@, limit),
        ),
        s2 matches Step::Done(Ok(v)) && {
            &&& v@.len() <= limit
            &&& item_seq(v@).contains(x) ==> held.contains(x) && item_expires(x, attribute@, now)
            &&& held.contains(x) && item_expires(x, attribute@, now) ==> item_seq(v@).contains(x)
                || v@.len() == limit
        },
{
    let ds = doc_seq(docs@);
    let n = ds.len();
    assert forall|i: int| 0 <= i < n implies document_item(#[trigger] ds[i]) == Ok::<ItemV, ErrV>(
        held[i],
    ) && holds_item(ds[i], held[i]) by {
        assert(ds[i] == docs@[i]@);
    }
    lemma_all_read(ds, held, n, attribute@, now, limit as nat);
    let items = expired_to(ds, n, attribute@, now, limit as nat)->Ok_0;
    crate::ttl::law_expired_within_limit(ds, n, attribute@, now, limit as nat);
    if items.contains(x) {
        let k = choose|k: int| 0 <= k < items.len() && items[k] == x;
        crate::ttl::law_only_expired_are_picked(ds, n, attribute@, now, limit as nat, k);
        let j = choose|j: int|
            0 <= j < n && is_expired(ds[j], attribute@, now) && #[trigger] document_item(ds[j])
                == Ok::<ItemV, ErrV>(items[k]);
        assert(held[j] == x);
        law_document_expires_as_item(ds[j], held[j], attribute@, now);
    }
    if held.contains(x) && item_expires(x, attribute@, now) {
        let j = choose|j: int| 0 <= j < held.len() && held[j] == x;
        assert(document_item(ds[j]) == Ok::<ItemV, ErrV>(x));
        law_document_expires_as_item(ds[j], held[j], attribute@, now);
        law_expired_are_picked(ds, n, attribute@, now, limit as nat, j);
    }
    assert(item_seq(s2->Done_0->Ok_0@) == items);
    assert(s2->Done_0->Ok_0@.len() == items.len());
}

proof fn lemma_all_read(
    docs: Seq<DocV>,
    held: Seq<ItemV>,
    n: nat,
    attribute: Seq<char>,
    now: i64,
    limit: nat,
)
    requires
        n <= docs.len(),
        forall|i: int|
            0 <= i < n ==> document_item(#[trigger] docs[i]) == Ok::<ItemV, ErrV>(held[i]),
    ensures
        expired_to(docs, n, attribute, now, limit) is Ok,
    decreases n,
{
    if n > 0 {
        lemma_all_read(docs, held, (n - 1) as nat, attribute, now, limit);
        assert(document_item(docs[n - 1]) is Ok);
    }
}

// --- Sizes ---------------------------------------------------------------------------

/// The size of a table is taken from its collection: all its documents are
/// counted, the database is asked for the size, and both are noted.
pub proof fn law_size_is_taken(
    account_id: String,
    table_name: String,
    table: Document,
    count: u64,
    stats: Document,
    bytes: i64,
    any: Reply,
    s1: Step<SizeState, ()>,
    s2: Step<SizeState, ()>,
    s3: Step<SizeState, ()>,
    s4: Step<SizeState, ()>,
)
    requires
        table@.get_str("table_id"@) is Some,
        stats@.get_i64("size"@) == Some(bytes),
        !(any is Failed),
        size_goes_on(
            SizeState::Finding { account_id, table_name },
            Event::Replied(Reply::One(Some(table))),
            s1,
        ),
        size_goes_on(state_of(s1), Event::Replied(Reply::Counted(count)), s2),
        size_goes_on(state_of(s2), Event::Replied(Reply::One(Some(stats))), s3),
        size_goes_on(state_of(s3), Event::Replied(any), s4),
    ensures
        command_of(s1) == Some(
            CommandV::Count {
                at: table_place(table@.get_str("table_id"@)->0),
                filter: DocV::empty(),
            },
        ),
        command_of(s2) == Some(
            CommandV::Run {
                db: Db::Data,
                command: doc1(
                    "collStats"@,
                    BsonV::Str(table_place(table@.get_str("table_id"@)->0).collection),
                ),
            },
        ),
        command_of(s3) == Some(note_size_of(account_id@, table_name@, count, bytes)),
        s4 == Step::<SizeState, ()>::Done(Ok(())),
{
}

// --- Tables that are completed -------------------------------------------------------

/// Every table that is due for it is activated, and is told of as activated.
pub proof fn law_due_tables_are_activated(docs: Seq<DocV>, i: int)
    requires
        0 <= i < docs.len(),
    ensures
        activate_lines(stuck_tables(docs)).len() == docs.len(),
        activate_lines(stuck_tables(docs))[i] == (
            activate_of(
                crate::ttl::id_part(docs[i], "account_id"@),
                crate::ttl::id_part(docs[i], "table_name"@),
            ),
            true,
        ),
        all_became(stuck_tables(docs), Outcome::Activated).len() == docs.len(),
        all_became(stuck_tables(docs), Outcome::Activated)[i] == (
            crate::ttl::id_part(docs[i], "table_name"@),
            Outcome::Activated,
        ),
{
}

/// What is left of a table goes: the collection of every index that was
/// listed, and the entries of its indexes, of its tags and of itself.
pub proof fn law_removal_clears_all(t: StuckV, index_ids: Seq<Seq<char>>, i: int)
    requires
        0 <= i < index_ids.len(),
    ensures
        removal_lines(t, index_ids).len() == index_ids.len() + 3,
        removal_lines(t, index_ids)[i].0 == (CommandV::DropCollection {
            at: table_place(index_ids[i]),
        }),
        !removal_lines(t, index_ids)[i].1,
        removal_lines(t, index_ids)[index_ids.len() as int] == (
            CommandV::DeleteMany {
                at: in_catalog("indexes"@),
                filter: crate::catalog::indexes_filter_of(t.table_id),
            },
            true,
        ),
        removal_lines(t, index_ids)[index_ids.len() as int + 1] == (
            CommandV::DeleteMany {
                at: in_catalog("tags"@),
                filter: crate::tags::tags_filter_of(t.table_arn),
            },
            true,
        ),
{
}

/// A sweep deals with its tables one after another and loses none: it goes on
/// to the next only after the last line of the removal of one, and ends only
/// after the last of them, with all that were deleted told of.
pub proof fn law_sweep_deals_with_each(
    sweep: Sweep,
    turn: Turn,
    step: Step<WorkerState, Vec<Transition>>,
)
    requires
        sweep.at < sweep.tables@.len(),
        removal_turns(sweep@, turn, step),
        turn is Finished,
    ensures
        sweep.at + 1 < sweep.tables@.len() ==> (step matches Step::Do(
            WorkerState::DroppingData(w),
            _,
        ) && w@.tables == sweep@.tables && w.at == sweep.at + 1 && w@.done == sweep@.done.push(
            (sweep.tables@[sweep.at as int].table_name@, Outcome::Deleted),
        ) && command_of(step) == Some(
            CommandV::DropCollection {
                at: table_place(sweep.tables@[sweep.at + 1].table_id@),
            },
        )),
        sweep.at + 1 == sweep.tables@.len() ==> (step matches Step::Done(Ok(v)) && transition_seq(
            v@,
        ) == sweep@.done.push((sweep.tables@[sweep.at as int].table_name@, Outcome::Deleted))),
{
    assert(sweep.tables.len() == sweep.tables@.len());
    assert(stuck_seq(sweep.tables@)[sweep.at as int] == sweep.tables@[sweep.at as int]@);
    if sweep.at + 1 < sweep.tables@.len() {
        assert(stuck_seq(sweep.tables@)[sweep.at + 1] == sweep.tables@[sweep.at + 1]@);
    }
}

/// The completion of tables ends only with the last table: it is done where
/// no table was to be deleted, or where the last one was.
pub proof fn law_completion_ends_with_last(
    state: WorkerState,
    event: Event,
    step: Step<WorkerState, Vec<Transition>>,
)
    requires
        is_under_way(state),
        worker_goes_on(state, event, step),
        step matches Step::Done(Ok(_)),
    ensures
        match state {
            WorkerState::Removing { sweep, .. } => sweep.at + 1 == sweep.tables@.len(),
            WorkerState::ListingDeleting { .. } => event matches Event::Replied(Reply::Many(docs))
                && docs@.len() == 0,
            _ => false,
        },
{
    match (state, event) {
        (WorkerState::Removing { sweep, script }, Event::Replied(r)) => {
            let turn = choose|turn: Turn|
                script_goes_on(script, r, turn) && #[trigger] removal_turns(sweep@, turn, step);
            assert(sweep.tables.len() == sweep.tables@.len());
        },
        _ => {},
    }
}

/// Along a sweep the table that is dealt with stays the same from the drop of
/// its collection to the last line of its removal, and its indexes are those
/// of its identifier.
pub proof fn law_sweep_keeps_its_table(
    w: Sweep,
    reply: Reply,
    listing: Step<WorkerState, Vec<Transition>>,
)
    requires
        w.at < w.tables@.len(),
        worker_goes_on(WorkerState::DroppingData(w), Event::Replied(reply), listing),
    ensures
        listing matches Step::Do(WorkerState::ListingIndexes(v), _) && v == w,
        command_of(listing) matches Some(CommandV::Find { at, filter, paging }) && at
            == in_catalog("indexes"@) && filter == crate::catalog::indexes_filter_of(
            w.tables@[w.at as int].table_id@,
        ) && paging.limit is None,
{
}

// --- Queued changes ------------------------------------------------------------------

/// A batch takes rows upwards: it begins the next transaction behind the row
/// that it has just ended, and claims what lies behind that.
pub proof fn law_batch_moves_on(
    row: i64,
    taken: i64,
    ended: BatchStep,
    begun: BatchStep,
)
    requires
        batch_goes_on(BatchState::Ending { row, taken }, BatchEvent::Ended, ended),
        ended matches BatchStep::Do(s, _) ==> batch_goes_on(s, BatchEvent::Begun, begun),
    ensures
        taken < crate::gsi_queue::BATCH_SIZE ==> (ended matches BatchStep::Do(s, a) && a is Begin
            && begun == BatchStep::Do(
            BatchState::Claiming { after: row, taken },
            BatchAction::Claim { after: row },
        )),
        taken >= crate::gsi_queue::BATCH_SIZE ==> ended is Done,
{
}

/// A row that is claimed is applied, and once it was applied it is committed;
/// each counts once.
pub proof fn law_claimed_row_is_committed(
    after: i64,
    taken: i64,
    row: i64,
    claimed: BatchStep,
    applied: BatchStep,
)
    requires
        0 <= taken < crate::gsi_queue::BATCH_SIZE,
        batch_goes_on(
            BatchState::Claiming { after, taken },
            BatchEvent::Claimed(Some(row)),
            claimed,
        ),
        claimed matches BatchStep::Do(s, _) ==> batch_goes_on(s, BatchEvent::Applied(Ok(())), applied),
    ensures
        claimed matches BatchStep::Do(_, a) && a == (BatchAction::Apply { row }),
        applied matches BatchStep::Do(s, a) && a is Commit && s == (BatchState::Ending {
            row,
            taken: (taken + 1) as i64,
        }),
{
}

/// The indexes that are updated through the queue are the global ones with a
/// delay: of their own, or of the system where they have none.
pub proof fn law_delayed_global_indexes_are_queued(r: IndexRow, system: u64)
    ensures
        is_queued(r, system) == (r.index_type@ != "LSI"@ && match r.delay_ms {
            Some(own) => if own < 0 {
                system > 0
            } else {
                own > 0
            },
            None => system > 0,
        }),
{
}

/// What is known of the indexes of a table holds every one that is updated
/// through the queue, and no other.
pub proof fn law_queued_indexes_are_known(
    rows: Seq<IndexRow>,
    n: nat,
    system: u64,
    m: MetaV,
)
    requires
        n <= rows.len(),
        metas_to(rows, n, system) is Ok,
    ensures
        metas_to(rows, n, system)->Ok_0.contains(m) <==> exists|i: int|
            0 <= i < n && is_queued(rows[i], system) && #[trigger] meta_of(rows[i], system) == Ok::<
                MetaV,
                ErrV,
            >(m),
    decreases n,
{
    let all = metas_to(rows, n, system)->Ok_0;
    if n > 0 {
        let prev = (n - 1) as nat;
        law_queued_indexes_are_known(rows, prev, system, m);
        let rest = metas_to(rows, prev, system)->Ok_0;
        if rest.contains(m) {
            let j = choose|j: int| 0 <= j < rest.len() && rest[j] == m;
            assert(all[j] == m);
            let i = choose|i: int|
                0 <= i < prev && is_queued(rows[i], system) && #[trigger] meta_of(rows[i], system)
                    == Ok::<MetaV, ErrV>(m);
            assert(meta_of(rows[i], system) == Ok::<MetaV, ErrV>(m));
        }
        if is_queued(rows[n - 1], system) && meta_of(rows[n - 1], system) == Ok::<MetaV, ErrV>(m) {
            assert(all[all.len() - 1] == m);
        }
        if all.contains(m) && !rest.contains(m) {
            let j = choose|j: int| 0 <= j < all.len() && all[j] == m;
            if j < rest.len() {
                assert(rest[j] == m);
            }
            assert(meta_of(rows[n - 1], system) == Ok::<MetaV, ErrV>(m));
        }
        if exists|i: int|
            0 <= i < n && is_queued(rows[i], system) && #[trigger] meta_of(rows[i], system) == Ok::<
                MetaV,
                ErrV,
            >(m) {
            let i = choose|i: int|
                0 <= i < n && is_queued(rows[i], system) && #[trigger] meta_of(rows[i], system)
                    == Ok::<MetaV, ErrV>(m);
            if i < prev {
                assert(rest.contains(m));
            }
        }
    }
}

} // verus!
