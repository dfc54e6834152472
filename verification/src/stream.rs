//! Streams: capturing changes, numbering them, and reading them.

use vstd::prelude::*;
use vstd::string::*;
use vstd::utf8::encode_utf8;

use crate::bson::{
    doc1, doc_seq, obj1, opt_string, opt_text, Bson, BsonV, DocV, Document,
};
use crate::catalog::{find_table, find_table_of};
use crate::encoding::{base64_encode, base64_text, crc32, crc32_of};
use crate::error::{ErrV, StorageError};
use crate::index_sync::{is_projected, project_item};
use crate::item::{lemma_av_view, opt_item, AttributeValue, AvV, Item, ItemV};
use crate::protocol::{
    fail_internal, fail_unexpected, fails, in_data, page_by, run, runs, sorted_by, unexpected,
    ActionV, Command, CommandV, Event, Paging, Place, Reply, Step,
};
use crate::schema::{schema_view, KeySchemaElement, KeyType, Projection, ProjectionType};
use crate::schema_json::{ProjectionV, StreamViewType};
use crate::sequence::{format_sequence, format_shard_id, sequence_text, shard_id_text};
use crate::stream_record::{
    event_label, event_label_text, identity_view, read_record, record_doc, record_of,
    record_to_bson, RecordV, StreamEventName, StreamRecord, UserIdentity,
};
use crate::text::{join2, join3};

verus! {

// --- Shards --------------------------------------------------------------------------

/// The document of a shard of a table.
pub open spec fn shard_document(
    table_name: Seq<char>,
    table_id: Seq<char>,
    i: nat,
    now: i64,
) -> DocV {
    doc1("shard_id"@, BsonV::Str(shard_id_text(table_name, i))).with(
        "table_id"@,
        BsonV::Str(table_id),
    ).with("starting_sequence_number"@, BsonV::Str(sequence_text(0))).with(
        "created_at"@,
        BsonV::DateTime(now),
    )
}

/// The command that creates a shard of a table.
pub open spec fn create_shard_of(
    table_name: Seq<char>,
    table_id: Seq<char>,
    i: nat,
    now: i64,
) -> CommandV {
    CommandV::Insert {
        at: in_data("stream_shards"@),
        document: shard_document(table_name, table_id, i, now),
    }
}

/// The command that creates a shard of a table.
pub fn create_shard(table_name: &str, table_id: &str, i: u32, now: i64) -> (r: Command)
    ensures
        r@ == create_shard_of(table_name@, table_id@, i as nat, now),
{
    let id = format_shard_id(table_name, i);
    let start = format_sequence(0);
    Command::Insert {
        at: Place::data("stream_shards"),
        document: Document::new().with("shard_id", Bson::String(id)).with(
            "table_id",
            Bson::text(table_id),
        ).with("starting_sequence_number", Bson::String(start)).with(
            "created_at",
            Bson::DateTime(now),
        ),
    }
}

/// The texts under a name, of the documents that have one.
pub open spec fn texts_under(docs: Seq<DocV>, k: Seq<char>) -> Seq<Seq<char>>
    decreases docs.len(),
{
    if docs.len() == 0 {
        Seq::empty()
    } else {
        let rest = texts_under(docs.drop_last(), k);
        match docs.last().get_str(k) {
            Some(s) => rest.push(s),
            None => rest,
        }
    }
}

/// Collects the texts under a name.
pub fn collect_texts(docs: &Vec<Document>, k: &str) -> (r: Vec<String>)
    ensures
        crate::bson::text_seq(r@) == texts_under(doc_seq(docs@), k@),
{
    let ghost ds = doc_seq(docs@);
    let mut out: Vec<String> = Vec::new();
    let mut i: usize = 0;
    assert(ds.take(0) =~= Seq::empty());
    assert(crate::bson::text_seq(out@) =~= Seq::empty());
    while i < docs.len()
        invariant
            i <= docs.len(),
            ds == doc_seq(docs@),
            crate::bson::text_seq(out@) == texts_under(ds.take(i as int), k@),
        decreases docs.len() - i,
    {
        proof {
            assert(ds.take(i + 1).drop_last() =~= ds.take(i as int));
            assert(ds.take(i + 1).last() == docs@[i as int]@);
        }
        if let Some(s) = docs[i].get_str(k) {
            let ghost before = out@;
            out.push(s.to_owned());
            assert(crate::bson::text_seq(out@) =~= crate::bson::text_seq(before).push(s@));
        }
        i += 1;
    }
    assert(ds.take(ds.len() as int) =~= ds);
    out
}

/// The shard that a checksum selects.
pub open spec fn shard_index(hash: u32, count: nat) -> int {
    hash as int % count as int
}

/// The shard that a checksum selects, of at least one.
pub fn pick_shard(hash: u32, count: usize) -> (r: usize)
    requires
        count > 0,
    ensures
        r == shard_index(hash, count as nat),
        r < count,
{
    let n: u64 = hash as u64 % count as u64;
    n as usize
}

// --- Capturing a change --------------------------------------------------------------

/// What happened, from the items before and after.
pub open spec fn event_from(old: Option<ItemV>, new: Option<ItemV>) -> Option<StreamEventName> {
    match (old, new) {
        (None, Some(_)) => Some(StreamEventName::Insert),
        (Some(_), Some(_)) => Some(StreamEventName::Modify),
        (Some(_), None) => Some(StreamEventName::Remove),
        (None, None) => None,
    }
}

/// The new item is in a record of this view.
pub open spec fn shows_new(v: StreamViewType) -> bool {
    v == StreamViewType::NewImage || v == StreamViewType::NewAndOldImages
}

/// The old item is in a record of this view.
pub open spec fn shows_old(v: StreamViewType) -> bool {
    v == StreamViewType::OldImage || v == StreamViewType::NewAndOldImages
}

/// The text of the partition key of an item, by which it is put into a shard.
pub open spec fn partition_text(item: ItemV, pk_name: Seq<char>) -> Seq<char> {
    match item.get(pk_name) {
        Some(AvV::S(s)) => s,
        Some(AvV::N(n)) => n,
        Some(AvV::B(b)) => base64_text(b),
        _ => ""@,
    }
}

/// A size in bytes as it is recorded.
pub open spec fn recorded_size(size: usize) -> i64 {
    if size <= i64::MAX {
        size as i64
    } else {
        i64::MAX
    }
}

/// What is recorded of a change besides the items.
#[derive(Debug, PartialEq)]
pub struct Capture {
    pub view_type: StreamViewType,
    pub region: String,
    pub user_identity: Option<UserIdentity>,
    /// A new identifier for the record.
    pub event_id: String,
    /// The size of the item in bytes.
    pub size: usize,
    /// The time in seconds.
    pub now_seconds: i64,
    /// The time in milliseconds.
    pub now_millis: i64,
}

/// A record that waits for its shard and its sequence number.
#[derive(Debug, PartialEq)]
pub struct Pending {
    pub account_id: String,
    pub table_name: String,
    pub partition_key: String,
    pub record: StreamRecord,
    /// The time in milliseconds.
    pub now: i64,
}

/// Where the writing of a record stands.
#[derive(Debug, PartialEq)]
pub enum CaptureState {
    /// The table is being looked up for its shards.
    FindingTable(Pending),
    /// The shards of the table are being listed.
    ListingShards(Pending),
    /// A sequence number is being drawn.
    Numbering(Pending, String),
    /// The table is being looked up for the record.
    FindingOwner(Pending, String),
    /// The record is being stored.
    Storing,
}

/// `p` is the record of a change that waits to be written.
pub open spec fn is_pending(
    p: Pending,
    account_id: Seq<char>,
    table_name: Seq<char>,
    schema: Seq<(Seq<char>, KeyType)>,
    c: Capture,
    old: Option<ItemV>,
    new: Option<ItemV>,
) -> bool {
    let source = match new {
        Some(n) => n,
        None => old->0,
    };
    &&& p.account_id@ == account_id
    &&& p.table_name@ == table_name
    &&& p.partition_key@ == partition_text(source, schema[0].0)
    &&& p.now == c.now_millis
    &&& is_projected(
        source,
        schema,
        schema,
        ProjectionV { kind: ProjectionType::KeysOnly, attributes: None },
        p.record@.keys,
    )
    &&& p.record@ == (RecordV {
        event_id: c.event_id@,
        event_name: event_from(old, new)->0,
        event_version: "1.1"@,
        event_source: "aws:dynamodb"@,
        aws_region: c.region@,
        created: c.now_seconds,
        keys: p.record@.keys,
        new_image: if shows_new(c.view_type) {
            new
        } else {
            None
        },
        old_image: if shows_old(c.view_type) {
            old
        } else {
            None
        },
        sequence_number: ""@,
        size_bytes: recorded_size(c.size),
        view_type: c.view_type,
        user_identity: identity_view(c.user_identity),
    })
}

/// How the writing of a record begins. Where there is neither an old nor a new
/// item, nothing is recorded.
pub open spec fn capture_begins(
    account_id: Seq<char>,
    table_name: Seq<char>,
    schema: Seq<(Seq<char>, KeyType)>,
    c: Capture,
    old: Option<ItemV>,
    new: Option<ItemV>,
    step: Step<CaptureState, ()>,
) -> bool {
    if event_from(old, new) is None {
        step == Step::<CaptureState, ()>::Done(Ok(()))
    } else {
        step matches Step::Do(CaptureState::FindingTable(p), a) && is_pending(
            p,
            account_id,
            table_name,
            schema,
            c,
            old,
            new,
        ) && a@ == ActionV::Run(find_table_of(account_id, table_name))
    }
}

/// The command that draws the next sequence number.
pub open spec fn draw_sequence_of() -> CommandV {
    CommandV::FindAndUpdate {
        at: in_data("counters"@),
        filter: doc1("_id"@, BsonV::Str("stream_seq"@)),
        update: doc1("$inc"@, obj1("value"@, BsonV::Int64(1))),
    }
}

/// The command that lists the shards of a table in the order of their
/// identifiers.
pub open spec fn list_shards_of(table_id: Seq<char>) -> CommandV {
    CommandV::Find {
        at: in_data("stream_shards"@),
        filter: doc1("table_id"@, BsonV::Str(table_id)),
        paging: sorted_by(doc1("shard_id"@, BsonV::Int32(1))),
    }
}

/// The document of a record.
pub open spec fn stored_record(r: RecordV, shard_id: Seq<char>, table_id: Seq<char>, now: i64) -> DocV {
    doc1("sequence_number"@, BsonV::Str(r.sequence_number)).with(
        "shard_id"@,
        BsonV::Str(shard_id),
    ).with("table_id"@, BsonV::Str(table_id)).with(
        "event_name"@,
        BsonV::Str(event_label(r.event_name)),
    ).with("record_data"@, BsonV::Doc(record_doc(r))).with("created_at"@, BsonV::DateTime(now))
}

/// The command that stores a record of a table.
pub open spec fn store_record_of(r: RecordV, shard_id: Seq<char>, table: DocV, now: i64) -> CommandV {
    CommandV::Insert {
        at: in_data("stream_records"@),
        document: stored_record(r, shard_id, table.str_or("table_id"@, ""@), now),
    }
}

/// The sequence number that a counter holds.
pub open spec fn counter_value(d: DocV) -> i64 {
    match d.get_i64("value"@) {
        Some(v) => v,
        None => 1,
    }
}

/// How the writing of a record goes on with an event.
pub open spec fn capture_goes_on(
    state: CaptureState,
    event: Event,
    step: Step<CaptureState, ()>,
) -> bool {
    match (state, event) {
        (CaptureState::FindingTable(p), Event::Replied(Reply::One(None))) => fails(
            step,
            ErrV::Internal("Table "@ + p.table_name@ + " not found"@),
        ),
        (CaptureState::FindingTable(p), Event::Replied(Reply::One(Some(d)))) => runs(
            step,
            CaptureState::ListingShards(p),
            list_shards_of(d@.str_or("table_id"@, ""@)),
        ),
        (CaptureState::ListingShards(p), Event::Replied(Reply::Many(docs))) => {
            let ids = texts_under(doc_seq(docs@), "shard_id"@);
            if ids.len() == 0 {
                fails(step, ErrV::Internal("No stream shards for table "@ + p.table_name@))
            } else {
                step matches Step::Do(CaptureState::Numbering(p2, id), a) && p2 == p && id@
                    == ids[shard_index(
                    crc32_of(encode_utf8(p.partition_key@)),
                    ids.len(),
                )] && a@ == ActionV::Run(draw_sequence_of())
            }
        },
        (CaptureState::Numbering(p, id), Event::Replied(Reply::One(None))) => fails(
            step,
            ErrV::Internal("Failed to generate sequence number"@),
        ),
        (CaptureState::Numbering(p, id), Event::Replied(Reply::One(Some(d)))) => {
            &&& step matches Step::Do(CaptureState::FindingOwner(p2, id2), a)
            &&& id2 == id
            &&& p2.account_id == p.account_id
            &&& p2.table_name == p.table_name
            &&& p2.now == p.now
            &&& p2.record@ == (RecordV {
                sequence_number: sequence_text(counter_value(d@) as int),
                ..p.record@
            })
            &&& a@ == ActionV::Run(find_table_of(p.account_id@, p.table_name@))
        },
        (CaptureState::FindingOwner(p, id), Event::Replied(Reply::One(None))) => fails(
            step,
            ErrV::Internal("Table "@ + p.table_name@ + " not found in catalog"@),
        ),
        (CaptureState::FindingOwner(p, id), Event::Replied(Reply::One(Some(d)))) => runs(
            step,
            CaptureState::Storing,
            store_record_of(p.record@, id@, d@, p.now),
        ),
        (CaptureState::Storing, Event::Replied(Reply::Done)) => step == Step::<
            CaptureState,
            (),
        >::Done(Ok(())),
        (_, Event::Replied(Reply::Failed(e))) => fails(step, ErrV::Internal(e.message@)),
        _ => fails(step, unexpected()),
    }
}

fn partition_key_text(item: &Item, pk_name: &str) -> (r: String)
    ensures
        r@ == partition_text(item@, pk_name@),
{
    broadcast use lemma_av_view;

    match item.get(pk_name) {
        Some(AttributeValue::S(s)) => s.clone(),
        Some(AttributeValue::N(n)) => n.clone(),
        Some(AttributeValue::B(b)) => base64_encode(b),
        _ => "".to_owned(),
    }
}

fn clamp_size(size: usize) -> (r: i64)
    ensures
        r == recorded_size(size),
{
    if size as u64 <= 9223372036854775807u64 {
        size as i64
    } else {
        i64::MAX
    }
}

/// What happened, from the items before and after.
pub fn stream_event(old_item: &Option<Item>, new_item: &Option<Item>) -> (r: Option<
    StreamEventName,
>)
    ensures
        r == event_from(opt_item(*old_item), opt_item(*new_item)),
{
    match (old_item, new_item) {
        (None, Some(_)) => Some(StreamEventName::Insert),
        (Some(_), Some(_)) => Some(StreamEventName::Modify),
        (Some(_), None) => Some(StreamEventName::Remove),
        (None, None) => None,
    }
}

/// Begins writing the record of a change.
pub fn capture_start(
    account_id: &str,
    table_name: &str,
    key_schema: &Vec<KeySchemaElement>,
    c: Capture,
    old_item: Option<Item>,
    new_item: Option<Item>,
) -> (step: Step<CaptureState, ()>)
    requires
        key_schema@.len() > 0,
    ensures
        capture_begins(
            account_id@,
            table_name@,
            schema_view(key_schema@),
            c,
            opt_item(old_item),
            opt_item(new_item),
            step,
        ),
{
    let event_name = match stream_event(&old_item, &new_item) {
        Some(e) => e,
        None => {
            return Step::Done(Ok(()));
        },
    };
    let keys_only = Projection {
        projection_type: ProjectionType::KeysOnly,
        non_key_attributes: None,
    };
    let (keys, partition_key) = match (&new_item, &old_item) {
        (Some(s), _) => (
            project_item(s, key_schema, key_schema, &keys_only),
            partition_key_text(s, key_schema[0].attribute_name.as_str()),
        ),
        (None, Some(s)) => (
            project_item(s, key_schema, key_schema, &keys_only),
            partition_key_text(s, key_schema[0].attribute_name.as_str()),
        ),
        (None, None) => (Item::new(), String::new()),
    };
    let new_image = match c.view_type {
        StreamViewType::NewImage | StreamViewType::NewAndOldImages => new_item,
        _ => None,
    };
    let old_image = match c.view_type {
        StreamViewType::OldImage | StreamViewType::NewAndOldImages => old_item,
        _ => None,
    };
    let record = StreamRecord {
        event_id: c.event_id,
        event_name,
        event_version: "1.1".to_owned(),
        event_source: "aws:dynamodb".to_owned(),
        aws_region: c.region,
        created: c.now_seconds,
        keys,
        new_image,
        old_image,
        sequence_number: "".to_owned(),
        size_bytes: clamp_size(c.size),
        view_type: c.view_type,
        user_identity: c.user_identity,
    };
    let p = Pending {
        account_id: account_id.to_owned(),
        table_name: table_name.to_owned(),
        partition_key,
        record,
        now: c.now_millis,
    };
    run(CaptureState::FindingTable(p), find_table(account_id, table_name))
}

/// Picks the shard of a partition key among those listed.
fn shard_for(ids: &Vec<String>, partition_key: &str) -> (r: String)
    requires
        ids@.len() > 0,
    ensures
        r@ == ids@[shard_index(crc32_of(encode_utf8(partition_key@)), ids@.len())]@,
{
    let i = pick_shard(crc32(partition_key.as_bytes()), ids.len());
    ids[i].clone()
}

fn store_record(r: &StreamRecord, shard_id: String, table: &Document, now: i64) -> (c: Command)
    ensures
        c@ == store_record_of(r@, shard_id@, table@, now),
{
    let table_id = table.str_or("table_id", "");
    let document = Document::new().with(
        "sequence_number",
        Bson::text(r.sequence_number.as_str()),
    ).with("shard_id", Bson::String(shard_id)).with("table_id", Bson::String(table_id)).with(
        "event_name",
        Bson::text(event_label_text(r.event_name)),
    ).with("record_data", record_to_bson(r)).with("created_at", Bson::DateTime(now));
    Command::Insert { at: Place::data("stream_records"), document }
}

/// Goes on with writing a record.
pub fn capture_next(state: CaptureState, event: Event) -> (step: Step<CaptureState, ()>)
    ensures
        capture_goes_on(state, event, step),
{
    match (state, event) {
        (CaptureState::FindingTable(p), Event::Replied(Reply::One(None))) => {
            let m = join3("Table ", p.table_name.as_str(), " not found");
            fail_internal(m.as_str())
        },
        (CaptureState::FindingTable(p), Event::Replied(Reply::One(Some(d)))) => {
            let table_id = d.str_or("table_id", "");
            run(CaptureState::ListingShards(p), list_shards(table_id.as_str()))
        },
        (CaptureState::ListingShards(p), Event::Replied(Reply::Many(docs))) => {
            let ids = collect_texts(&docs, "shard_id");
            if ids.len() == 0 {
                let m = join2("No stream shards for table ", p.table_name.as_str());
                return fail_internal(m.as_str());
            }
            let id = shard_for(&ids, p.partition_key.as_str());
            run(CaptureState::Numbering(p, id), draw_sequence())
        },
        (CaptureState::Numbering(_, _), Event::Replied(Reply::One(None))) => fail_internal(
            "Failed to generate sequence number",
        ),
        (CaptureState::Numbering(p, id), Event::Replied(Reply::One(Some(d)))) => {
            let n = read_counter(&d);
            let mut p = p;
            p.record.sequence_number = format_sequence(n);
            let command = find_table(p.account_id.as_str(), p.table_name.as_str());
            run(CaptureState::FindingOwner(p, id), command)
        },
        (CaptureState::FindingOwner(p, _), Event::Replied(Reply::One(None))) => {
            let m = join3("Table ", p.table_name.as_str(), " not found in catalog");
            fail_internal(m.as_str())
        },
        (CaptureState::FindingOwner(p, id), Event::Replied(Reply::One(Some(d)))) => {
            run(CaptureState::Storing, store_record(&p.record, id, &d, p.now))
        },
        (CaptureState::Storing, Event::Replied(Reply::Done)) => Step::Done(Ok(())),
        (_, Event::Replied(Reply::Failed(e))) => Step::Done(
            Err(StorageError::Internal(e.message)),
        ),
        _ => fail_unexpected(),
    }
}

fn list_shards(table_id: &str) -> (r: Command)
    ensures
        r@ == list_shards_of(table_id@),
{
    Command::Find {
        at: Place::data("stream_shards"),
        filter: Document::new().with("table_id", Bson::text(table_id)),
        paging: Paging::sorted(Document::new().with("shard_id", Bson::Int32(1))),
    }
}

/// The command that draws the next sequence number.
pub fn draw_sequence() -> (r: Command)
    ensures
        r@ == draw_sequence_of(),
{
    Command::FindAndUpdate {
        at: Place::data("counters"),
        filter: Document::new().with("_id", Bson::text("stream_seq")),
        update: Document::new().with("$inc", Bson::obj1("value", Bson::Int64(1))),
    }
}

fn read_counter(d: &Document) -> (r: i64)
    ensures
        r == counter_value(d@),
{
    match d.get_i64("value") {
        Some(v) => v,
        None => 1,
    }
}

// --- Reading records -----------------------------------------------------------------

// --- The parts of a capture ----------------------------------------------------------

/// What was done last to find the shard of a partition key.
#[derive(Debug, PartialEq)]
pub enum AssignState {
    FindingTable { table_name: String, partition_key: String },
    ListingShards { table_name: String, partition_key: String },
}

/// A further step of finding the shard of a partition key.
pub open spec fn assign_goes_on(
    state: AssignState,
    event: Event,
    step: Step<AssignState, String>,
) -> bool {
    match (state, event) {
        (AssignState::FindingTable { table_name, .. }, Event::Replied(Reply::One(None))) => fails(
            step,
            ErrV::Internal("Table "@ + table_name@ + " not found"@),
        ),
        (
            AssignState::FindingTable { table_name, partition_key },
            Event::Replied(Reply::One(Some(d))),
        ) => runs(
            step,
            AssignState::ListingShards { table_name, partition_key },
            list_shards_of(d@.str_or("table_id"@, ""@)),
        ),
        (
            AssignState::ListingShards { table_name, partition_key },
            Event::Replied(Reply::Many(docs)),
        ) => {
            let ids = texts_under(doc_seq(docs@), "shard_id"@);
            if ids.len() == 0 {
                fails(step, ErrV::Internal("No stream shards for table "@ + table_name@))
            } else {
                step matches Step::Done(Ok(id)) && id@ == ids[shard_index(
                    crc32_of(encode_utf8(partition_key@)),
                    ids.len(),
                )]
            }
        },
        (_, Event::Replied(Reply::Failed(e))) => fails(step, ErrV::Internal(e.message@)),
        _ => fails(step, unexpected()),
    }
}

/// Begins to find the shard of a partition key.
pub fn assign_shard_start(account_id: &str, table_name: &str, partition_key: &str) -> (step: Step<
    AssignState,
    String,
>)
    ensures
        step matches Step::Do(AssignState::FindingTable { table_name: t, partition_key: k }, a)
            && t@ == table_name@ && k@ == partition_key@ && a@ == ActionV::Run(
            find_table_of(account_id@, table_name@),
        ),
{
    run(
        AssignState::FindingTable {
            table_name: table_name.to_owned(),
            partition_key: partition_key.to_owned(),
        },
        find_table(account_id, table_name),
    )
}

/// Goes on with finding the shard of a partition key.
pub fn assign_shard_next(state: AssignState, event: Event) -> (step: Step<AssignState, String>)
    ensures
        assign_goes_on(state, event, step),
{
    match (state, event) {
        (AssignState::FindingTable { table_name, .. }, Event::Replied(Reply::One(None))) => {
            let m = join3("Table ", table_name.as_str(), " not found");
            fail_internal(m.as_str())
        },
        (
            AssignState::FindingTable { table_name, partition_key },
            Event::Replied(Reply::One(Some(d))),
        ) => {
            let table_id = d.str_or("table_id", "");
            run(
                AssignState::ListingShards { table_name, partition_key },
                list_shards(table_id.as_str()),
            )
        },
        (
            AssignState::ListingShards { table_name, partition_key },
            Event::Replied(Reply::Many(docs)),
        ) => {
            let ids = collect_texts(&docs, "shard_id");
            if ids.len() == 0 {
                let m = join2("No stream shards for table ", table_name.as_str());
                return fail_internal(m.as_str());
            }
            Step::Done(Ok(shard_for(&ids, partition_key.as_str())))
        },
        (_, Event::Replied(Reply::Failed(e))) => Step::Done(
            Err(StorageError::Internal(e.message)),
        ),
        _ => fail_unexpected(),
    }
}

/// The sequence number that the answer to a draw gives.
pub open spec fn sequence_said(reply: Reply) -> Result<Seq<char>, ErrV> {
    match reply {
        Reply::One(Some(d)) => Ok(sequence_text(counter_value(d@) as int)),
        Reply::One(None) => Err(ErrV::Internal("Failed to generate sequence number"@)),
        Reply::Failed(e) => Err(ErrV::Internal(e.message@)),
        _ => Err(unexpected()),
    }
}

/// Reads the sequence number that was drawn.
pub fn drawn_sequence(reply: &Reply) -> (r: Result<String, StorageError>)
    ensures
        crate::error::res_text(r) == sequence_said(*reply),
{
    match reply {
        Reply::One(Some(d)) => Ok(format_sequence(read_counter(d))),
        Reply::One(None) => Err(StorageError::internal("Failed to generate sequence number")),
        Reply::Failed(e) => Err(StorageError::Internal(e.message.clone())),
        _ => Err(StorageError::internal("unexpected event")),
    }
}

/// What was done last to store a record.
#[derive(Debug, PartialEq)]
pub enum WriteRecordState {
    FindingOwner { record: StreamRecord, shard_id: String, table_name: String, now: i64 },
    Storing,
}

/// A further step of storing a record.
pub open spec fn write_record_goes_on(
    state: WriteRecordState,
    event: Event,
    step: Step<WriteRecordState, ()>,
) -> bool {
    match (state, event) {
        (
            WriteRecordState::FindingOwner { table_name, .. },
            Event::Replied(Reply::One(None)),
        ) => fails(step, ErrV::Internal("Table "@ + table_name@ + " not found in catalog"@)),
        (
            WriteRecordState::FindingOwner { record, shard_id, table_name, now },
            Event::Replied(Reply::One(Some(d))),
        ) => runs(
            step,
            WriteRecordState::Storing,
            store_record_of(record@, shard_id@, d@, now),
        ),
        (WriteRecordState::Storing, Event::Replied(Reply::Done)) => step == Step::<
            WriteRecordState,
            (),
        >::Done(Ok(())),
        (_, Event::Replied(Reply::Failed(e))) => fails(step, ErrV::Internal(e.message@)),
        _ => fails(step, unexpected()),
    }
}

/// Begins to store a record in a shard of the stream of a table.
pub fn write_record_start(
    account_id: &str,
    table_name: &str,
    record: StreamRecord,
    shard_id: &str,
    now: i64,
) -> (step: Step<WriteRecordState, ()>)
    ensures
        step matches Step::Do(
            WriteRecordState::FindingOwner { record: r, shard_id: s, table_name: t, now: n },
            a,
        ) && r == record && s@ == shard_id@ && t@ == table_name@ && n == now && a@ == ActionV::Run(
            find_table_of(account_id@, table_name@),
        ),
{
    run(
        WriteRecordState::FindingOwner {
            record,
            shard_id: shard_id.to_owned(),
            table_name: table_name.to_owned(),
            now,
        },
        find_table(account_id, table_name),
    )
}

/// Goes on with storing a record.
pub fn write_record_next(state: WriteRecordState, event: Event) -> (step: Step<
    WriteRecordState,
    (),
>)
    ensures
        write_record_goes_on(state, event, step),
{
    match (state, event) {
        (
            WriteRecordState::FindingOwner { table_name, .. },
            Event::Replied(Reply::One(None)),
        ) => {
            let m = join3("Table ", table_name.as_str(), " not found in catalog");
            fail_internal(m.as_str())
        },
        (
            WriteRecordState::FindingOwner { record, shard_id, now, .. },
            Event::Replied(Reply::One(Some(d))),
        ) => run(WriteRecordState::Storing, store_record(&record, shard_id, &d, now)),
        (WriteRecordState::Storing, Event::Replied(Reply::Done)) => Step::Done(Ok(())),
        (_, Event::Replied(Reply::Failed(e))) => Step::Done(
            Err(StorageError::Internal(e.message)),
        ),
        _ => fail_unexpected(),
    }
}

/// The command that reads records of a shard.
pub open spec fn read_records_of(
    shard_id: Seq<char>,
    after: Option<Seq<char>>,
    limit: i64,
) -> CommandV {
    let d = doc1("shard_id"@, BsonV::Str(shard_id));
    CommandV::Find {
        at: in_data("stream_records"@),
        filter: match after {
            Some(s) => d.with("sequence_number"@, obj1("$gt"@, BsonV::Str(s))),
            None => d,
        },
        paging: page_by(doc1("sequence_number"@, BsonV::Int32(1)), limit),
    }
}

/// The command that reads records of a shard.
pub fn get_records_command(shard_id: &str, after_sequence: Option<&str>, limit: i64) -> (r: Command)
    ensures
        r@ == read_records_of(shard_id@, opt_text(after_sequence), limit),
{
    let d = Document::new().with("shard_id", Bson::text(shard_id));
    let filter = match after_sequence {
        Some(s) => d.with("sequence_number", Bson::obj1("$gt", Bson::text(s))),
        None => d,
    };
    Command::Find {
        at: Place::data("stream_records"),
        filter,
        paging: Paging::page(Document::new().with("sequence_number", Bson::Int32(1)), limit),
    }
}

/// The record in a document.
pub open spec fn record_in(d: DocV) -> Result<RecordV, ErrV> {
    match d.get("record_data"@) {
        None => Err(ErrV::Internal("Missing record_data"@)),
        Some(b) => match record_of(b) {
            Some(r) => Ok(r),
            None => Err(ErrV::Internal("record_data is not a stream record"@)),
        },
    }
}

/// The records in the first `n` documents.
pub open spec fn records_to(docs: Seq<DocV>, n: nat) -> Result<Seq<RecordV>, ErrV>
    decreases n,
{
    if n == 0 {
        Ok(Seq::empty())
    } else {
        match records_to(docs, (n - 1) as nat) {
            Err(e) => Err(e),
            Ok(s) => match record_in(docs[n - 1]) {
                Err(e) => Err(e),
                Ok(r) => Ok(s.push(r)),
            },
        }
    }
}

/// The models of a list of records.
pub open spec fn record_seq(v: Seq<StreamRecord>) -> Seq<RecordV> {
    Seq::new(v.len(), |i: int| v[i]@)
}

proof fn lemma_records_error(docs: Seq<DocV>, i: nat, n: nat, e: ErrV)
    requires
        i < n,
        records_to(docs, i + 1) == Err::<Seq<RecordV>, ErrV>(e),
    ensures
        records_to(docs, n) == Err::<Seq<RecordV>, ErrV>(e),
    decreases n,
{
    if i + 1 < n {
        lemma_records_error(docs, i, (n - 1) as nat, e);
    }
}

/// Records of a shard, with the sequence number of the last one.
#[derive(Debug, PartialEq)]
pub struct RecordPage {
    pub records: Vec<StreamRecord>,
    pub last_sequence: Option<String>,
}

/// Reads the records in the documents of a shard.
pub fn records_page(docs: &Vec<Document>) -> (r: Result<RecordPage, StorageError>)
    ensures
        match r {
            Ok(p) => records_to(doc_seq(docs@), docs@.len()) == Ok::<Seq<RecordV>, ErrV>(
                record_seq(p.records@),
            ) && opt_string(p.last_sequence) == (if p.records@.len() == 0 {
                None
            } else {
                Some(record_seq(p.records@).last().sequence_number)
            }),
            Err(e) => records_to(doc_seq(docs@), docs@.len()) == Err::<Seq<RecordV>, ErrV>(e@),
        },
{
    let ghost ds = doc_seq(docs@);
    let mut out: Vec<StreamRecord> = Vec::new();
    let mut i: usize = 0;
    assert(record_seq(out@) =~= Seq::empty());
    while i < docs.len()
        invariant
            i <= docs.len(),
            ds == doc_seq(docs@),
            records_to(ds, i as nat) == Ok::<Seq<RecordV>, ErrV>(record_seq(out@)),
        decreases docs.len() - i,
    {
        assert(ds[i as int] == docs@[i as int]@);
        match docs[i].get("record_data") {
            None => {
                let e = StorageError::internal("Missing record_data");
                proof {
                    lemma_records_error(ds, i as nat, ds.len(), e@);
                }
                return Err(e);
            },
            Some(b) => match read_record(b) {
                Some(x) => {
                    let ghost before = out@;
                    out.push(x);
                    assert(record_seq(out@) =~= record_seq(before).push(x@));
                },
                None => {
                    let e = StorageError::internal("record_data is not a stream record");
                    proof {
                        lemma_records_error(ds, i as nat, ds.len(), e@);
                    }
                    return Err(e);
                },
            },
        }
        i += 1;
    }
    let last_sequence = if out.len() == 0 {
        None
    } else {
        Some(out[out.len() - 1].sequence_number.clone())
    };
    Ok(RecordPage { records: out, last_sequence })
}

/// The command that finds the last record of a shard.
pub open spec fn latest_record_of(shard_id: Seq<char>) -> CommandV {
    CommandV::Find {
        at: in_data("stream_records"@),
        filter: doc1("shard_id"@, BsonV::Str(shard_id)),
        paging: page_by(doc1("sequence_number"@, BsonV::Int32((-1) as i32)), 1),
    }
}

/// The command that finds the last record of a shard.
pub fn latest_record_command(shard_id: &str) -> (r: Command)
    ensures
        r@ == latest_record_of(shard_id@),
{
    Command::Find {
        at: Place::data("stream_records"),
        filter: Document::new().with("shard_id", Bson::text(shard_id)),
        paging: Paging::page(Document::new().with("sequence_number", Bson::Int32(-1)), 1),
    }
}

/// The sequence number of the first document.
pub fn latest_sequence(docs: &Vec<Document>) -> (r: Option<String>)
    ensures
        opt_string(r) == (if docs@.len() == 0 {
            None
        } else {
            docs@[0]@.get_str("sequence_number"@)
        }),
{
    if docs.len() == 0 {
        return None;
    }
    match docs[0].get_str("sequence_number") {
        Some(s) => Some(s.to_owned()),
        None => None,
    }
}

/// The command that removes the records from before a point in time.
pub open spec fn expire_records_of(cutoff: i64) -> CommandV {
    CommandV::DeleteMany {
        at: in_data("stream_records"@),
        filter: doc1("created_at"@, obj1("$lt"@, BsonV::DateTime(cutoff))),
    }
}

/// The point in time so many hours before `now`, in whole seconds, as
/// milliseconds.
pub open spec fn hours_before(now_seconds: i64, hours: i64) -> int {
    (now_seconds - hours * 3600) * 1000
}

/// The command that removes the records that are older than so many hours.
pub fn cleanup_records_command(now_seconds: i64, retention_hours: i64) -> (r: Command)
    requires
        0 <= retention_hours,
        i64::MIN <= hours_before(now_seconds, retention_hours) <= i64::MAX,
        i64::MIN <= now_seconds - retention_hours * 3600 <= i64::MAX,
    ensures
        r@ == expire_records_of(hours_before(now_seconds, retention_hours) as i64),
{
    let cutoff: i128 = (now_seconds as i128 - retention_hours as i128 * 3600) * 1000;
    Command::DeleteMany {
        at: Place::data("stream_records"),
        filter: Document::new().with(
            "created_at",
            Bson::obj1("$lt", Bson::DateTime(cutoff as i64)),
        ),
    }
}

// --- Laws --------------------------------------------------------------------------

/// Every partition key goes to one of the shards, and always to the same.
pub proof fn law_shard_in_range(hash: u32, count: nat)
    requires
        count > 0,
    ensures
        0 <= shard_index(hash, count) < count,
{
}

/// A record shows the images that its view type asks for and no others.
pub proof fn law_record_images(
    p: Pending,
    account_id: Seq<char>,
    table_name: Seq<char>,
    schema: Seq<(Seq<char>, KeyType)>,
    c: Capture,
    old: Option<ItemV>,
    new: Option<ItemV>,
)
    requires
        event_from(old, new) is Some,
        is_pending(p, account_id, table_name, schema, c, old, new),
    ensures
        c.view_type == StreamViewType::KeysOnly ==> p.record@.new_image is None
            && p.record@.old_image is None,
        c.view_type == StreamViewType::NewImage ==> p.record@.new_image == new
            && p.record@.old_image is None,
        c.view_type == StreamViewType::OldImage ==> p.record@.old_image == old
            && p.record@.new_image is None,
        c.view_type == StreamViewType::NewAndOldImages ==> p.record@.new_image == new
            && p.record@.old_image == old,
{
}

/// Reading the document of a record gives the record back, where its items
/// read back.
pub proof fn law_stored_record_reads_back(
    r: RecordV,
    shard_id: Seq<char>,
    table_id: Seq<char>,
    now: i64,
)
    requires
        crate::stream_record::images_read_back(r),
    ensures
        record_in(stored_record(r, shard_id, table_id, now)) == Ok::<RecordV, ErrV>(r),
{
    broadcast use crate::bson::group_document_fields;

    crate::stream_record::law_record_round_trip(r);
    reveal_strlit("record_data");
    reveal_strlit("created_at");
    assert("record_data"@.len() == 11 && "created_at"@.len() == 10);
}

} // verus!
