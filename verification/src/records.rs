//! What streams hold and hand out: which records are written, and which are
//! read in which order.

use vstd::prelude::*;
use vstd::string::*;
use vstd::utf8::encode_utf8;

use crate::bson::{doc1, doc_seq, lemma_doc1, obj1, BsonV, DocV, Document};
use crate::catalog::table_filter_of;
use crate::effects::{command_of, state_of};
use crate::index_sync::is_projected;
use crate::encoding::{base64_text, crc32_of};
use crate::item::{AvV, ItemV};
use crate::lookup::{
    is_name, is_plain_update, is_seed, is_updated, lemma_asked_clause, lemma_one_sort,
    lemma_plain_clause, lemma_update_words,
};
use crate::meaning::{lemma_more_clauses, lemma_one_clause, lemma_words, matches_filter};
use crate::protocol::{in_catalog, in_data, CommandV, Event, Reply, Step};
use crate::reading::{comes_before, orders_texts};
use crate::schema::{KeyType, ProjectionType};
use crate::schema_json::{ProjectionV, StreamViewType};
use crate::sequence::{sequence_text, shard_id_text};
use crate::stream::{
    assign_goes_on, capture_begins, capture_goes_on, counter_value, draw_sequence_of,
    expire_records_of, hours_before, latest_record_of, law_stored_record_reads_back,
    list_shards_of, read_records_of, record_in, shard_document, stored_record, texts_under,
    write_record_goes_on, AssignState, Capture, CaptureState, WriteRecordState,
};
use crate::stream_admin::page_shards_of;
use crate::stream_record::{images_read_back, RecordV, StreamEventName, StreamRecord};
use crate::order::text_lt;

verus! {

/// Points in time are ordered as their numbers.
pub open spec fn orders_times(before: spec_fn(BsonV, BsonV) -> bool) -> bool {
    forall|a: i64, b: i64| #[trigger] before(BsonV::DateTime(a), BsonV::DateTime(b)) == (a < b)
}

proof fn lemma_record_fields(r: RecordV, shard_id: Seq<char>, table_id: Seq<char>, now: i64)
    ensures
        is_name("sequence_number"@),
        is_name("shard_id"@),
        is_name("table_id"@),
        is_name("created_at"@),
        ({
            let d = stored_record(r, shard_id, table_id, now);
            &&& d.get("sequence_number"@) == Some(BsonV::Str(r.sequence_number))
            &&& d.get("shard_id"@) == Some(BsonV::Str(shard_id))
            &&& d.get("table_id"@) == Some(BsonV::Str(table_id))
            &&& d.get("created_at"@) == Some(BsonV::DateTime(now))
        }),
{
    broadcast use crate::bson::group_document_fields;

    reveal_strlit("sequence_number");
    reveal_strlit("shard_id");
    reveal_strlit("table_id");
    reveal_strlit("event_name");
    reveal_strlit("record_data");
    reveal_strlit("created_at");
    assert("sequence_number"@.len() == 15 && "shard_id"@.len() == 8 && "table_id"@.len() == 8);
    assert("event_name"@.len() == 10 && "record_data"@.len() == 11 && "created_at"@.len() == 10);
    assert("shard_id"@[0] == 's' && "table_id"@[0] == 't');
    assert("event_name"@[0] == 'e' && "created_at"@[0] == 'c');
}

// --- Reading -------------------------------------------------------------------------

/// Reading a shard reads the records that were stored in it, those behind a
/// sequence number where one is given, from the smallest sequence number
/// upwards, and no more than asked for.
pub proof fn law_shard_is_read_upwards(
    before: spec_fn(BsonV, BsonV) -> bool,
    shard_id: Seq<char>,
    after: Option<Seq<char>>,
    limit: i64,
    r: RecordV,
    of: Seq<char>,
    table_id: Seq<char>,
    now: i64,
    r2: RecordV,
    of2: Seq<char>,
    table_id2: Seq<char>,
    now2: i64,
)
    requires
        orders_texts(before),
    ensures
        read_records_of(shard_id, after, limit) matches CommandV::Find { at, filter, paging } && {
            &&& at == in_data("stream_records"@)
            &&& matches_filter(before, filter, stored_record(r, of, table_id, now)) == (of
                == shard_id && (after matches Some(s) ==> text_lt(s, r.sequence_number)))
            &&& paging.limit == Some(limit)
            &&& paging.sort is Some
            &&& comes_before(
                before,
                paging.sort->0.entries,
                stored_record(r, of, table_id, now),
                stored_record(r2, of2, table_id2, now2),
            ) == text_lt(r.sequence_number, r2.sequence_number)
        },
{
    broadcast use crate::bson::group_document_fields;

    lemma_words();
    reveal_strlit("$gt");
    lemma_record_fields(r, of, table_id, now);
    lemma_record_fields(r2, of2, table_id2, now2);
    let d = stored_record(r, of, table_id, now);
    let d2 = stored_record(r2, of2, table_id2, now2);
    let f = doc1("shard_id"@, BsonV::Str(shard_id));
    lemma_one_clause(before, "shard_id"@, BsonV::Str(shard_id), d);
    lemma_plain_clause(before, "shard_id"@, BsonV::Str(shard_id), d);
    reveal_strlit("sequence_number");
    reveal_strlit("shard_id");
    assert("sequence_number"@.len() == 15 && "shard_id"@.len() == 8);
    if let Some(s) = after {
        let more = obj1("$gt"@, BsonV::Str(s));
        lemma_more_clauses(before, f, "sequence_number"@, more, d);
        lemma_asked_clause(before, "sequence_number"@, "$gt"@, BsonV::Str(s), d);
    }
    lemma_one_sort(before, "sequence_number"@, 1, d, d2);
    crate::order::lemma_lt_irreflexive(r.sequence_number);
}

/// The last record of a shard is looked for among those that were stored in
/// it, from the greatest sequence number downwards.
pub proof fn law_latest_comes_first(
    before: spec_fn(BsonV, BsonV) -> bool,
    shard_id: Seq<char>,
    r: RecordV,
    of: Seq<char>,
    table_id: Seq<char>,
    now: i64,
    r2: RecordV,
    of2: Seq<char>,
    table_id2: Seq<char>,
    now2: i64,
)
    requires
        orders_texts(before),
    ensures
        latest_record_of(shard_id) matches CommandV::Find { at, filter, paging } && {
            &&& at == in_data("stream_records"@)
            &&& matches_filter(before, filter, stored_record(r, of, table_id, now)) == (of
                == shard_id)
            &&& paging.limit == Some(1i64)
            &&& paging.sort is Some
            &&& comes_before(
                before,
                paging.sort->0.entries,
                stored_record(r, of, table_id, now),
                stored_record(r2, of2, table_id2, now2),
            ) == text_lt(r2.sequence_number, r.sequence_number)
        },
{
    lemma_record_fields(r, of, table_id, now);
    lemma_record_fields(r2, of2, table_id2, now2);
    let d = stored_record(r, of, table_id, now);
    let d2 = stored_record(r2, of2, table_id2, now2);
    lemma_one_clause(before, "shard_id"@, BsonV::Str(shard_id), d);
    lemma_plain_clause(before, "shard_id"@, BsonV::Str(shard_id), d);
    lemma_one_sort(before, "sequence_number"@, (-1) as i32, d, d2);
    crate::order::lemma_lt_irreflexive(r.sequence_number);
}

/// Records are removed once they are older than so many hours, and no others.
pub proof fn law_old_records_are_removed(
    before: spec_fn(BsonV, BsonV) -> bool,
    now_seconds: i64,
    hours: i64,
    r: RecordV,
    shard_id: Seq<char>,
    table_id: Seq<char>,
    stored_at: i64,
)
    requires
        orders_times(before),
        0 <= hours,
        i64::MIN <= hours_before(now_seconds, hours) <= i64::MAX,
    ensures
        expire_records_of(hours_before(now_seconds, hours) as i64) matches CommandV::DeleteMany {
            at,
            filter,
        } && at == in_data("stream_records"@) && matches_filter(
            before,
            filter,
            stored_record(r, shard_id, table_id, stored_at),
        ) == (stored_at < now_seconds * 1000 - hours * 3600000),
{
    lemma_words();
    reveal_strlit("$lt");
    lemma_record_fields(r, shard_id, table_id, stored_at);
    let d = stored_record(r, shard_id, table_id, stored_at);
    let cutoff = BsonV::DateTime(hours_before(now_seconds, hours) as i64);
    assert(hours_before(now_seconds, hours) == now_seconds * 1000 - hours * 3600000) by (nonlinear_arith);
    lemma_one_clause(before, "created_at"@, obj1("$lt"@, cutoff), d);
    lemma_asked_clause(before, "created_at"@, "$lt"@, cutoff, d);
}

// --- Shards --------------------------------------------------------------------------

/// The shards of a table are found by its identifier, in the order of their
/// own, and are known by the identifiers that they were created with.
pub proof fn law_shards_are_found(
    before: spec_fn(BsonV, BsonV) -> bool,
    table_id: Seq<char>,
    start: Option<Seq<char>>,
    limit: i64,
    name: Seq<char>,
    of: Seq<char>,
    i: nat,
    now: i64,
    name2: Seq<char>,
    of2: Seq<char>,
    i2: nat,
    now2: i64,
)
    requires
        orders_texts(before),
        limit < i64::MAX,
    ensures
        shard_document(name, of, i, now).get_str("shard_id"@) == Some(shard_id_text(name, i)),
        list_shards_of(table_id) matches CommandV::Find { at, filter, paging } && {
            &&& at == in_data("stream_shards"@)
            &&& matches_filter(before, filter, shard_document(name, of, i, now)) == (of == table_id)
            &&& paging.limit is None
            &&& paging.sort is Some
            &&& comes_before(
                before,
                paging.sort->0.entries,
                shard_document(name, of, i, now),
                shard_document(name2, of2, i2, now2),
            ) == text_lt(shard_id_text(name, i), shard_id_text(name2, i2))
        },
        page_shards_of(table_id, start, limit) matches CommandV::Find { at, filter, paging } && {
            &&& at == in_data("stream_shards"@)
            &&& matches_filter(before, filter, shard_document(name, of, i, now)) == (of == table_id
                && (start matches Some(s) ==> text_lt(s, shard_id_text(name, i))))
            &&& paging.limit == Some((limit + 1) as i64)
            &&& paging.sort is Some
            &&& comes_before(
                before,
                paging.sort->0.entries,
                shard_document(name, of, i, now),
                shard_document(name2, of2, i2, now2),
            ) == text_lt(shard_id_text(name, i), shard_id_text(name2, i2))
        },
{
    broadcast use crate::bson::group_document_fields;

    lemma_words();
    reveal_strlit("$gt");
    reveal_strlit("shard_id");
    reveal_strlit("table_id");
    reveal_strlit("starting_sequence_number");
    reveal_strlit("created_at");
    assert("shard_id"@.len() == 8 && "table_id"@.len() == 8 && "created_at"@.len() == 10);
    assert("starting_sequence_number"@.len() == 24);
    assert("shard_id"@[0] == 's' && "table_id"@[0] == 't');
    assert(is_name("shard_id"@) && is_name("table_id"@));
    let d = shard_document(name, of, i, now);
    let d2 = shard_document(name2, of2, i2, now2);
    let f = doc1("table_id"@, BsonV::Str(table_id));
    lemma_one_clause(before, "table_id"@, BsonV::Str(table_id), d);
    lemma_plain_clause(before, "table_id"@, BsonV::Str(table_id), d);
    if let Some(s) = start {
        lemma_more_clauses(before, f, "shard_id"@, obj1("$gt"@, BsonV::Str(s)), d);
        lemma_asked_clause(before, "shard_id"@, "$gt"@, BsonV::Str(s), d);
    }
    lemma_one_sort(before, "shard_id"@, 1, d, d2);
    crate::order::lemma_lt_irreflexive(shard_id_text(name, i));
}

/// Sequence numbers are drawn upwards from one counter: each draw gives the
/// number after the one before, the first one gives 1.
pub proof fn law_numbers_are_drawn_upwards(
    before: spec_fn(BsonV, BsonV) -> bool,
    d: DocV,
    r: DocV,
    seed: DocV,
    first: DocV,
)
    requires
        draw_sequence_of() matches CommandV::FindAndUpdate { filter, update, .. } && is_updated(
            update,
            false,
            d,
            r,
        ) && is_updated(update, true, seed, first) && is_seed(filter, seed),
        d.get_i64("value"@) is Some,
        d.get_i64("value"@)->0 < i64::MAX,
        !(d.get("_id"@) matches Some(BsonV::Array(_))),
    ensures
        draw_sequence_of() matches CommandV::FindAndUpdate { at, filter, update } && at == in_data(
            "counters"@,
        ) && is_plain_update(update) && matches_filter(before, filter, d) == (d.get("_id"@) == Some(
            BsonV::Str("stream_seq"@),
        )),
        counter_value(r) == d.get_i64("value"@)->0 + 1,
        r.get("_id"@) == d.get("_id"@),
        counter_value(first) == 1,
        first.get("_id"@) == Some(BsonV::Str("stream_seq"@)),
{
    broadcast use crate::bson::group_document_fields;

    lemma_update_words();
    reveal_strlit("_id");
    reveal_strlit("value");
    assert("_id"@.len() == 3 && "value"@.len() == 5);
    assert(is_name("_id"@) && is_name("value"@));
    lemma_doc1("$inc"@, obj1("value"@, BsonV::Int64(1)));
    let c = draw_sequence_of();
    assert(r.get("value"@) == crate::lookup::field_after(
        c->FindAndUpdate_update,
        false,
        "value"@,
        d.get("value"@),
    ));
    assert(r.get("_id"@) == crate::lookup::field_after(
        c->FindAndUpdate_update,
        false,
        "_id"@,
        d.get("_id"@),
    ));
    assert(seed.get("value"@) is None);
    assert(seed.get("_id"@) == Some(BsonV::Str("stream_seq"@)));
    assert(first.get("value"@) == crate::lookup::field_after(
        c->FindAndUpdate_update,
        true,
        "value"@,
        seed.get("value"@),
    ));
    assert(first.get("_id"@) == crate::lookup::field_after(
        c->FindAndUpdate_update,
        true,
        "_id"@,
        seed.get("_id"@),
    ));
    lemma_one_clause(before, "_id"@, BsonV::Str("stream_seq"@), d);
    lemma_plain_clause(before, "_id"@, BsonV::Str("stream_seq"@), d);
}

// --- Writing -------------------------------------------------------------------------

/// A record tells of a change: what happened, to which key, when, and the
/// items that its view shows.
pub open spec fn tells_of(
    r: RecordV,
    schema: Seq<(Seq<char>, KeyType)>,
    c: Capture,
    was: Option<ItemV>,
    is: Option<ItemV>,
) -> bool {
    &&& r.event_name == StreamEventName::Insert <==> was is None && is is Some
    &&& r.event_name == StreamEventName::Modify <==> was is Some && is is Some
    &&& r.event_name == StreamEventName::Remove <==> was is Some && is is None
    &&& is_projected(
        if is is Some {
            is->0
        } else {
            was->0
        },
        schema,
        schema,
        ProjectionV { kind: ProjectionType::KeysOnly, attributes: None },
        r.keys,
    )
    &&& r.new_image == (if c.view_type == StreamViewType::NewImage || c.view_type
        == StreamViewType::NewAndOldImages {
        is
    } else {
        None
    })
    &&& r.old_image == (if c.view_type == StreamViewType::OldImage || c.view_type
        == StreamViewType::NewAndOldImages {
        was
    } else {
        None
    })
    &&& r.view_type == c.view_type
    &&& r.event_id == c.event_id@
    &&& r.aws_region == c.region@
    &&& r.created == c.now_seconds
    &&& r.size_bytes == c.size || c.size > i64::MAX
}

/// The text of an attribute of an item, by which its shard is chosen.
pub open spec fn key_text(item: ItemV, name: Seq<char>) -> Seq<char> {
    match item.get(name) {
        Some(AvV::S(s)) => s,
        Some(AvV::N(n)) => n,
        Some(AvV::B(b)) => base64_text(b),
        _ => Seq::empty(),
    }
}

/// A change is recorded: a record that tells of it is stored, under a number
/// that was drawn for it, in one of the shards of the table. Where nothing
/// was and nothing is, nothing is recorded.
pub proof fn law_change_is_recorded(
    account_id: Seq<char>,
    table_name: Seq<char>,
    schema: Seq<(Seq<char>, KeyType)>,
    c: Capture,
    was: Option<ItemV>,
    is: Option<ItemV>,
    table: Document,
    shards: Vec<Document>,
    counter: Document,
    owner: Document,
    s0: Step<CaptureState, ()>,
    s1: Step<CaptureState, ()>,
    s2: Step<CaptureState, ()>,
    s3: Step<CaptureState, ()>,
    s4: Step<CaptureState, ()>,
    s5: Step<CaptureState, ()>,
) -> (r: RecordV)
    requires
        capture_begins(account_id, table_name, schema, c, was, is, s0),
        was is Some || is is Some,
        capture_goes_on(state_of(s0), Event::Replied(Reply::One(Some(table))), s1),
        capture_goes_on(state_of(s1), Event::Replied(Reply::Many(shards)), s2),
        texts_under(doc_seq(shards@), "shard_id"@).len() > 0,
        capture_goes_on(state_of(s2), Event::Replied(Reply::One(Some(counter))), s3),
        capture_goes_on(state_of(s3), Event::Replied(Reply::One(Some(owner))), s4),
        capture_goes_on(state_of(s4), Event::Replied(Reply::Done), s5),
    ensures
        tells_of(r, schema, c, was, is),
        r.sequence_number == sequence_text(counter_value(counter@) as int),
        schema.len() > 0 ==> state_of(s0)->FindingTable_0.partition_key@ == key_text(
            if is is Some {
                is->0
            } else {
                was->0
            },
            schema[0].0,
        ),
        command_of(s0) == Some(
            CommandV::FindOne {
                at: in_catalog("tables"@),
                filter: table_filter_of(account_id, table_name),
            },
        ),
        command_of(s1) == Some(list_shards_of(table@.str_or("table_id"@, ""@))),
        command_of(s2) == Some(draw_sequence_of()),
        command_of(s3) == command_of(s0),
        command_of(s4) matches Some(CommandV::Insert { at, document }) && {
            &&& at == in_data("stream_records"@)
            &&& images_read_back(r) ==> record_in(document) == Ok::<RecordV, crate::error::ErrV>(r)
            &&& document.get_str("sequence_number"@) == Some(r.sequence_number)
            &&& document.get_str("table_id"@) == Some(owner@.str_or("table_id"@, ""@))
            &&& document.get_datetime("created_at"@) == Some(c.now_millis)
            &&& document.get_str("shard_id"@) matches Some(id) && texts_under(
                doc_seq(shards@),
                "shard_id"@,
            ).contains(id)
        },
        s5 == Step::<CaptureState, ()>::Done(Ok(())),
{
    reveal_strlit("");
    assert(""@ =~= Seq::empty());
    let r = state_of(s3)->FindingOwner_0.record@;
    let id = state_of(s3)->FindingOwner_1@;
    let tid = owner@.str_or("table_id"@, ""@);
    lemma_record_fields(r, id, tid, c.now_millis);
    if images_read_back(r) {
        law_stored_record_reads_back(r, id, tid, c.now_millis);
    }
    r
}

/// Nothing is recorded where nothing was and nothing is.
pub proof fn law_nothing_is_recorded(
    account_id: Seq<char>,
    table_name: Seq<char>,
    schema: Seq<(Seq<char>, KeyType)>,
    c: Capture,
    step: Step<CaptureState, ()>,
)
    requires
        capture_begins(account_id, table_name, schema, c, None, None, step),
    ensures
        step == Step::<CaptureState, ()>::Done(Ok(())),
{
}

/// The shard of a partition key is one of those listed, the same for the same
/// key, and the same whether it is asked for or a record is written.
pub proof fn law_shard_of_key_is_one(
    table_name: String,
    partition_key: String,
    p: crate::stream::Pending,
    shards: Vec<Document>,
    asked: Step<AssignState, String>,
    written: Step<CaptureState, ()>,
)
    requires
        p.partition_key@ == partition_key@,
        texts_under(doc_seq(shards@), "shard_id"@).len() > 0,
        assign_goes_on(
            AssignState::ListingShards { table_name, partition_key },
            Event::Replied(Reply::Many(shards)),
            asked,
        ),
        capture_goes_on(
            CaptureState::ListingShards(p),
            Event::Replied(Reply::Many(shards)),
            written,
        ),
    ensures
        asked matches Step::Done(Ok(id)) && {
            let ids = texts_under(doc_seq(shards@), "shard_id"@);
            let hash = crc32_of(encode_utf8(partition_key@));
            &&& ids.contains(id@)
            &&& id@ == ids[hash as int % ids.len() as int]
            &&& state_of(written)->Numbering_1@ == id@
            &&& state_of(written)->Numbering_0 == p
        },
{
}

/// A checksum selects a shard by its remainder.
pub proof fn law_shard_is_remainder(hash: u32, count: nat)
    requires
        count > 0,
    ensures
        0 <= crate::stream::shard_index(hash, count) < count,
        exists|q: int| #[trigger] (q * count) + crate::stream::shard_index(hash, count) == hash,
{
    let q = hash as int / count as int;
    vstd::arithmetic::div_mod::lemma_fundamental_div_mod(hash as int, count as int);
    assert(q * count == count * q) by (nonlinear_arith);
    assert((q * count) + crate::stream::shard_index(hash, count) == hash);
}

/// A record that is handed in is stored in the shard that is named.
pub proof fn law_record_is_stored(
    record: StreamRecord,
    shard_id: String,
    table_name: String,
    now: i64,
    owner: Document,
    s1: Step<WriteRecordState, ()>,
    s2: Step<WriteRecordState, ()>,
)
    requires
        write_record_goes_on(
            WriteRecordState::FindingOwner { record, shard_id, table_name, now },
            Event::Replied(Reply::One(Some(owner))),
            s1,
        ),
        write_record_goes_on(state_of(s1), Event::Replied(Reply::Done), s2),
        images_read_back(record@),
    ensures
        command_of(s1) matches Some(CommandV::Insert { at, document }) && {
            &&& at == in_data("stream_records"@)
            &&& record_in(document) == Ok::<RecordV, crate::error::ErrV>(record@)
            &&& document.get_str("sequence_number"@) == Some(record@.sequence_number)
            &&& document.get_str("table_id"@) == Some(owner@.str_or("table_id"@, ""@))
            &&& document.get_datetime("created_at"@) == Some(now)
            &&& document.get_str("shard_id"@) == Some(shard_id@)
        },
        s2 == Step::<WriteRecordState, ()>::Done(Ok(())),
{
    let tid = owner@.str_or("table_id"@, ""@);
    lemma_record_fields(record@, shard_id@, tid, now);
    law_stored_record_reads_back(record@, shard_id@, tid, now);
}

/// The shard of a key is looked for among those of its table.
pub proof fn law_shards_of_table_are_asked(
    table_name: String,
    partition_key: String,
    d: Document,
    table_id: Seq<char>,
    missing: Step<AssignState, String>,
    listing: Step<AssignState, String>,
)
    requires
        d@.get("table_id"@) == Some(BsonV::Str(table_id)),
        assign_goes_on(
            AssignState::FindingTable { table_name, partition_key },
            Event::Replied(Reply::One(None)),
            missing,
        ),
        assign_goes_on(
            AssignState::FindingTable { table_name, partition_key },
            Event::Replied(Reply::One(Some(d))),
            listing,
        ),
    ensures
        missing matches Step::Done(Err(_)),
        command_of(listing) == Some(list_shards_of(table_id)),
        state_of(listing) == (AssignState::ListingShards { table_name, partition_key }),
{
}

} // verus!
