//! Describing and listing streams, and checking shards.

use vstd::prelude::*;
use vstd::string::*;

use crate::bson::{doc1, doc_seq, obj1, opt_string, opt_text, Bson, BsonV, DocV, Document};
use crate::catalog::{table_filter, table_filter_of};
use crate::error::{ErrV, StorageError};
use crate::protocol::{
    fail_internal, fail_unexpected, fails, in_catalog, in_data, page_by, run, runs, unexpected,
    ActionV, Command, CommandV, Event, Paging, Place, Reply, Step,
};
use crate::schema::{schema_view, KeySchemaElement, KeyType};
use crate::schema_json::{read_schema, read_view_type, schema_of, view_type_of, StreamViewType};
use crate::text::{join3, text_eq};

verus! {

/// The message that a stream does not exist.
pub open spec fn no_stream(arn: Seq<char>) -> ErrV {
    ErrV::TableNotFound("Requested resource not found: Stream: "@ + arn + " not found."@)
}

fn stream_missing(arn: &str) -> (r: StorageError)
    ensures
        r@ == no_stream(arn@),
{
    StorageError::TableNotFound(
        join3("Requested resource not found: Stream: ", arn, " not found."),
    )
}

/// The command that finds the table of a stream.
pub open spec fn find_stream_of(
    account_id: Seq<char>,
    table_name: Seq<char>,
    label: Seq<char>,
) -> CommandV {
    CommandV::FindOne {
        at: in_catalog("tables"@),
        filter: table_filter_of(account_id, table_name).with("stream_label"@, BsonV::Str(label)),
    }
}

fn find_stream(account_id: &str, table_name: &str, label: &str) -> (r: Command)
    ensures
        r@ == find_stream_of(account_id@, table_name@, label@),
{
    Command::FindOne {
        at: Place::catalog("tables"),
        filter: table_filter(account_id, table_name).with("stream_label", Bson::text(label)),
    }
}

// --- Describing a stream -----------------------------------------------------------

/// Whether a stream takes new records.
#[derive(Debug, Clone, Copy, PartialEq, Eq, Structural)]
pub enum StreamStatus {
    Enabled,
    Disabling,
}

/// A shard of a stream.
#[derive(Debug, PartialEq)]
pub struct Shard {
    pub shard_id: String,
    pub parent_shard_id: Option<String>,
    pub starting_sequence_number: String,
    pub ending_sequence_number: Option<String>,
}

/// The model of a shard.
#[verifier::ext_equal]
pub struct ShardV {
    pub shard_id: Seq<char>,
    pub parent_shard_id: Option<Seq<char>>,
    pub starting_sequence_number: Seq<char>,
    pub ending_sequence_number: Option<Seq<char>>,
}

impl View for Shard {
    type V = ShardV;

    open spec fn view(&self) -> ShardV {
        ShardV {
            shard_id: self.shard_id@,
            parent_shard_id: opt_string(self.parent_shard_id),
            starting_sequence_number: self.starting_sequence_number@,
            ending_sequence_number: opt_string(self.ending_sequence_number),
        }
    }
}

/// The models of a list of shards.
pub open spec fn shard_seq(v: Seq<Shard>) -> Seq<ShardV> {
    Seq::new(v.len(), |i: int| v[i]@)
}

/// The shard that a document describes.
pub open spec fn shard_of(d: DocV) -> Option<ShardV> {
    match (d.get_str("shard_id"@), d.get_str("starting_sequence_number"@)) {
        (Some(shard_id), Some(starting_sequence_number)) => Some(
            ShardV {
                shard_id,
                parent_shard_id: d.get_str("parent_shard_id"@),
                starting_sequence_number,
                ending_sequence_number: d.get_str("ending_sequence_number"@),
            },
        ),
        _ => None,
    }
}

/// The shards that documents describe.
pub open spec fn shards_of(docs: Seq<DocV>) -> Seq<ShardV>
    decreases docs.len(),
{
    if docs.len() == 0 {
        Seq::empty()
    } else {
        let rest = shards_of(docs.drop_last());
        match shard_of(docs.last()) {
            Some(s) => rest.push(s),
            None => rest,
        }
    }
}

fn owned(s: Option<&str>) -> (r: Option<String>)
    ensures
        opt_string(r) == opt_text(s),
{
    match s {
        Some(s) => Some(s.to_owned()),
        None => None,
    }
}

fn read_shard(d: &Document) -> (r: Option<Shard>)
    ensures
        match r {
            Some(s) => shard_of(d@) == Some(s@),
            None => shard_of(d@) is None,
        },
{
    match (d.get_str("shard_id"), d.get_str("starting_sequence_number")) {
        (Some(id), Some(start)) => Some(
            Shard {
                shard_id: id.to_owned(),
                parent_shard_id: owned(d.get_str("parent_shard_id")),
                starting_sequence_number: start.to_owned(),
                ending_sequence_number: owned(d.get_str("ending_sequence_number")),
            },
        ),
        _ => None,
    }
}

/// Reads the shards in the first `n` documents.
fn read_shards(docs: &Vec<Document>, n: usize) -> (r: Vec<Shard>)
    requires
        n <= docs@.len(),
    ensures
        shard_seq(r@) == shards_of(doc_seq(docs@).take(n as int)),
{
    let ghost ds = doc_seq(docs@);
    let mut out: Vec<Shard> = Vec::new();
    let mut i: usize = 0;
    assert(ds.take(0) =~= Seq::empty());
    assert(shard_seq(out@) =~= Seq::empty());
    while i < n
        invariant
            i <= n <= docs.len(),
            ds == doc_seq(docs@),
            shard_seq(out@) == shards_of(ds.take(i as int)),
        decreases n - i,
    {
        proof {
            assert(ds.take(i + 1).drop_last() =~= ds.take(i as int));
            assert(ds.take(i + 1).last() == docs@[i as int]@);
        }
        if let Some(s) = read_shard(&docs[i]) {
            let ghost before = out@;
            out.push(s);
            assert(shard_seq(out@) =~= shard_seq(before).push(s@));
        }
        i += 1;
    }
    out
}

/// What is asked of a stream.
#[derive(Debug, PartialEq)]
pub struct DescribeStream {
    pub stream_arn: String,
    pub account_id: String,
    pub table_name: String,
    pub stream_label: String,
    /// How many shards to describe; some number is chosen where none is given.
    pub limit: Option<i64>,
    /// The shard after which the list begins.
    pub start_shard: Option<String>,
}

/// How many shards are described where no number is given.
pub const DEFAULT_SHARDS: i64 = 100;

/// How many shards to describe.
pub open spec fn shard_limit_of(asked: Option<i64>) -> i64 {
    match asked {
        Some(l) => l,
        None => DEFAULT_SHARDS,
    }
}

/// How many shards to describe.
fn shard_limit(asked: Option<i64>) -> (r: i64)
    ensures
        r == shard_limit_of(asked),
{
    match asked {
        Some(l) => l,
        None => DEFAULT_SHARDS,
    }
}

/// A description of a stream.
#[derive(Debug, PartialEq)]
pub struct StreamDescription {
    pub status: StreamStatus,
    pub view_type: StreamViewType,
    pub key_schema: Vec<KeySchemaElement>,
    pub shards: Vec<Shard>,
    /// The shard after which the next list begins, where there is one.
    pub last_shard: Option<String>,
}

/// Where the description of a stream stands.
#[derive(Debug, PartialEq)]
pub enum DescribeState {
    FindingTable(DescribeStream),
    /// The shards are being listed; what the table tells is known.
    ListingShards {
        limit: i64,
        status: StreamStatus,
        view_type: StreamViewType,
        key_schema: Vec<KeySchemaElement>,
    },
}

/// The view type that a table is set to.
pub open spec fn table_view_type(d: DocV) -> StreamViewType {
    match d.get_document("stream_specification"@) {
        Some(s) => match s.get_str("StreamViewType"@) {
            Some(t) => match view_type_of(t) {
                Some(v) => v,
                None => StreamViewType::KeysOnly,
            },
            None => StreamViewType::KeysOnly,
        },
        None => StreamViewType::KeysOnly,
    }
}

/// The status of the stream of a table.
pub open spec fn table_stream_status(d: DocV) -> StreamStatus {
    if d.str_or("table_status"@, "ACTIVE"@) == "DELETING"@ {
        StreamStatus::Disabling
    } else {
        StreamStatus::Enabled
    }
}

/// The key schema of a table.
pub open spec fn table_schema(d: DocV) -> Option<Seq<(Seq<char>, KeyType)>> {
    match d.get("key_schema"@) {
        Some(b) => schema_of(b),
        None => None,
    }
}

/// The command that lists shards of a table.
pub open spec fn page_shards_of(
    table_id: Seq<char>,
    start: Option<Seq<char>>,
    limit: i64,
) -> CommandV {
    let d = doc1("table_id"@, BsonV::Str(table_id));
    CommandV::Find {
        at: in_data("stream_shards"@),
        filter: match start {
            Some(s) => d.with("shard_id"@, obj1("$gt"@, BsonV::Str(s))),
            None => d,
        },
        paging: page_by(doc1("shard_id"@, BsonV::Int32(1)), (limit + 1) as i64),
    }
}

/// How the description of a stream begins.
pub open spec fn describe_begins(q: DescribeStream, step: Step<DescribeState, StreamDescription>) -> bool {
    runs(
        step,
        DescribeState::FindingTable(q),
        find_stream_of(q.account_id@, q.table_name@, q.stream_label@),
    )
}

/// How the description of a stream goes on with an event.
pub open spec fn describe_goes_on(
    state: DescribeState,
    event: Event,
    step: Step<DescribeState, StreamDescription>,
) -> bool {
    match (state, event) {
        (DescribeState::FindingTable(q), Event::Replied(Reply::One(None))) => fails(
            step,
            no_stream(q.stream_arn@),
        ),
        (DescribeState::FindingTable(q), Event::Replied(Reply::One(Some(d)))) => match table_schema(
            d@,
        ) {
            None => fails(step, ErrV::Internal("Missing key_schema"@)),
            Some(schema) => {
                &&& step matches Step::Do(
                    DescribeState::ListingShards { limit, status, view_type, key_schema },
                    a,
                )
                &&& limit == shard_limit_of(q.limit)
                &&& status == table_stream_status(d@)
                &&& view_type == table_view_type(d@)
                &&& schema_view(key_schema@) == schema
                &&& a@ == ActionV::Run(
                    page_shards_of(
                        d@.str_or("table_id"@, ""@),
                        opt_string(q.start_shard),
                        shard_limit_of(q.limit),
                    ),
                )
            },
        },
        (
            DescribeState::ListingShards { limit, status, view_type, key_schema },
            Event::Replied(Reply::Many(docs)),
        ) => {
            let ds = doc_seq(docs@);
            let more = 0 < limit < ds.len();
            &&& step matches Step::Done(Ok(r))
            &&& r.status == status
            &&& r.view_type == view_type
            &&& r.key_schema == key_schema
            &&& shard_seq(r.shards@) == shards_of(
                if more {
                    ds.take(limit as int)
                } else {
                    ds
                },
            )
            &&& opt_string(r.last_shard) == (if more {
                ds[limit - 1].get_str("shard_id"@)
            } else {
                None
            })
        },
        (_, Event::Replied(Reply::Failed(e))) => fails(step, ErrV::Internal(e.message@)),
        _ => fails(step, unexpected()),
    }
}

/// Begins describing a stream.
pub fn describe_stream_start(q: DescribeStream) -> (step: Step<DescribeState, StreamDescription>)
    ensures
        describe_begins(q, step),
{
    let command = find_stream(
        q.account_id.as_str(),
        q.table_name.as_str(),
        q.stream_label.as_str(),
    );
    run(DescribeState::FindingTable(q), command)
}

fn read_table_view_type(d: &Document) -> (r: StreamViewType)
    ensures
        r == table_view_type(d@),
{
    match d.get_document("stream_specification") {
        Some(s) => match s.get_str("StreamViewType") {
            Some(t) => match read_view_type(t) {
                Some(v) => v,
                None => StreamViewType::KeysOnly,
            },
            None => StreamViewType::KeysOnly,
        },
        None => StreamViewType::KeysOnly,
    }
}

/// Goes on with describing a stream.
pub fn describe_stream_next(state: DescribeState, event: Event) -> (step: Step<
    DescribeState,
    StreamDescription,
>)
    requires
        state matches DescribeState::FindingTable(q) ==> shard_limit_of(q.limit) < i64::MAX,
        (state, event) matches (
            DescribeState::ListingShards { limit, .. },
            Event::Replied(Reply::Many(docs)),
        ) ==> limit != 0 || docs@.len() == 0,
    ensures
        describe_goes_on(state, event, step),
{
    match (state, event) {
        (DescribeState::FindingTable(q), Event::Replied(Reply::One(None))) => Step::Done(
            Err(stream_missing(q.stream_arn.as_str())),
        ),
        (DescribeState::FindingTable(q), Event::Replied(Reply::One(Some(d)))) => {
            let key_schema = match d.get("key_schema") {
                None => {
                    return fail_internal("Missing key_schema");
                },
                Some(b) => match read_schema(b) {
                    Some(s) => s,
                    None => {
                        return fail_internal("Missing key_schema");
                    },
                },
            };
            let view_type = read_table_view_type(&d);
            let st = d.str_or("table_status", "ACTIVE");
            let status = if text_eq(st.as_str(), "DELETING") {
                StreamStatus::Disabling
            } else {
                StreamStatus::Enabled
            };
            let table_id = d.str_or("table_id", "");
            let f = Document::new().with("table_id", Bson::text(table_id.as_str()));
            let filter = match &q.start_shard {
                Some(s) => f.with("shard_id", Bson::obj1("$gt", Bson::text(s.as_str()))),
                None => f,
            };
            let limit = shard_limit(q.limit);
            run(
                DescribeState::ListingShards { limit, status, view_type, key_schema },
                Command::Find {
                    at: Place::data("stream_shards"),
                    filter,
                    paging: Paging::page(
                        Document::new().with("shard_id", Bson::Int32(1)),
                        limit + 1,
                    ),
                },
            )
        },
        (
            DescribeState::ListingShards { limit, status, view_type, key_schema },
            Event::Replied(Reply::Many(docs)),
        ) => {
            let more = 0 < limit && (limit as u64) < docs.len() as u64;
            let n: usize = if more {
                limit as usize
            } else {
                docs.len()
            };
            let shards = read_shards(&docs, n);
            let last_shard = if more {
                owned(docs[n - 1].get_str("shard_id"))
            } else {
                None
            };
            assert(!more ==> doc_seq(docs@).take(n as int) =~= doc_seq(docs@));
            Step::Done(
                Ok(StreamDescription { status, view_type, key_schema, shards, last_shard }),
            )
        },
        (_, Event::Replied(Reply::Failed(e))) => Step::Done(
            Err(StorageError::Internal(e.message)),
        ),
        _ => fail_unexpected(),
    }
}

// --- Listing streams -----------------------------------------------------------------

/// The stream after which a list begins: its table and its label.
#[derive(Debug, PartialEq)]
pub struct StreamStart {
    pub table_name: String,
    pub label: String,
}

/// The filter of a list of streams.
pub open spec fn streams_filter(
    account_id: Seq<char>,
    table_name: Option<Seq<char>>,
    start: Option<(Seq<char>, Seq<char>)>,
) -> DocV {
    let d = doc1("_id.account_id"@, BsonV::Str(account_id)).with(
        "stream_label"@,
        obj1("$ne"@, BsonV::Null),
    );
    let d = match table_name {
        Some(t) => d.with("_id.table_name"@, BsonV::Str(t)),
        None => d,
    };
    match start {
        None => d,
        Some((table, label)) => if table_name is Some {
            d.with("stream_label"@, obj1("$gt"@, BsonV::Str(label)))
        } else {
            d.with(
                "$or"@,
                BsonV::Array(
                    seq![
                        obj1("_id.table_name"@, obj1("$gt"@, BsonV::Str(table))),
                        BsonV::Doc(
                            doc1("_id.table_name"@, BsonV::Str(table)).with(
                                "stream_label"@,
                                obj1("$gt"@, BsonV::Str(label)),
                            ),
                        ),
                    ],
                ),
            )
        },
    }
}

/// The command of a list of streams.
pub open spec fn list_streams_of(
    account_id: Seq<char>,
    table_name: Option<Seq<char>>,
    start: Option<(Seq<char>, Seq<char>)>,
    limit: i64,
) -> CommandV {
    CommandV::Find {
        at: in_catalog("tables"@),
        filter: streams_filter(account_id, table_name, start),
        paging: page_by(
            doc1("_id.table_name"@, BsonV::Int32(1)).with("stream_label"@, BsonV::Int32(1)),
            (limit + 1) as i64,
        ),
    }
}

/// The model of a start.
pub open spec fn start_view(s: Option<StreamStart>) -> Option<(Seq<char>, Seq<char>)> {
    match s {
        Some(s) => Some((s.table_name@, s.label@)),
        None => None,
    }
}

/// The command of a list of streams.
pub fn list_streams_command(
    account_id: &str,
    table_name: Option<&str>,
    start: &Option<StreamStart>,
    limit: i64,
) -> (r: Command)
    requires
        limit < i64::MAX,
    ensures
        r@ == list_streams_of(account_id@, opt_text(table_name), start_view(*start), limit),
{
    let d = Document::new().with("_id.account_id", Bson::text(account_id)).with(
        "stream_label",
        Bson::obj1("$ne", Bson::Null),
    );
    let d = match table_name {
        Some(t) => d.with("_id.table_name", Bson::text(t)),
        None => d,
    };
    let filter = match start {
        None => d,
        Some(s) => if table_name.is_some() {
            d.with("stream_label", Bson::obj1("$gt", Bson::text(s.label.as_str())))
        } else {
            let later_table = Bson::obj1(
                "_id.table_name",
                Bson::obj1("$gt", Bson::text(s.table_name.as_str())),
            );
            let later_label = Bson::Document(
                Document::new().with("_id.table_name", Bson::text(s.table_name.as_str())).with(
                    "stream_label",
                    Bson::obj1("$gt", Bson::text(s.label.as_str())),
                ),
            );
            d.with("$or", Bson::array2(later_table, later_label))
        },
    };
    Command::Find {
        at: Place::catalog("tables"),
        filter,
        paging: Paging::page(
            Document::new().with("_id.table_name", Bson::Int32(1)).with(
                "stream_label",
                Bson::Int32(1),
            ),
            limit + 1,
        ),
    }
}

/// The stream that a document of a table describes: its table and its label.
pub open spec fn stream_of(d: DocV) -> Option<(Seq<char>, Seq<char>)> {
    match d.get_document("_id"@) {
        Some(id) => match (id.get_str("table_name"@), d.get_str("stream_label"@)) {
            (Some(t), Some(l)) => Some((t, l)),
            _ => None,
        },
        None => None,
    }
}

/// The streams that documents describe.
pub open spec fn streams_of(docs: Seq<DocV>) -> Seq<(Seq<char>, Seq<char>)>
    decreases docs.len(),
{
    if docs.len() == 0 {
        Seq::empty()
    } else {
        let rest = streams_of(docs.drop_last());
        match stream_of(docs.last()) {
            Some(s) => rest.push(s),
            None => rest,
        }
    }
}

/// The models of a list of pairs of texts.
pub open spec fn pair_seq(v: Seq<(String, String)>) -> Seq<(Seq<char>, Seq<char>)> {
    Seq::new(v.len(), |i: int| (v[i].0@, v[i].1@))
}

/// A list of streams: their tables and labels, and whether there are more.
#[derive(Debug, PartialEq)]
pub struct StreamList {
    pub streams: Vec<(String, String)>,
    pub more: bool,
}

/// Reads a list of streams. A list that is not cut off has no more to come; a
/// negative limit cuts nothing off.
pub fn read_streams(docs: &Vec<Document>, limit: i64) -> (r: StreamList)
    ensures
        r.more == (0 <= limit < docs@.len()),
        pair_seq(r.streams@) == streams_of(
            if 0 <= limit < docs@.len() {
                doc_seq(docs@).take(limit as int)
            } else {
                doc_seq(docs@)
            },
        ),
{
    let ghost ds = doc_seq(docs@);
    let more = limit >= 0 && docs.len() as u64 > limit as u64;
    let n: usize = if more {
        limit as usize
    } else {
        docs.len()
    };
    let mut out: Vec<(String, String)> = Vec::new();
    let mut i: usize = 0;
    assert(ds.take(0) =~= Seq::empty());
    assert(pair_seq(out@) =~= Seq::empty());
    while i < n
        invariant
            i <= n <= docs.len(),
            ds == doc_seq(docs@),
            pair_seq(out@) == streams_of(ds.take(i as int)),
        decreases n - i,
    {
        proof {
            assert(ds.take(i + 1).drop_last() =~= ds.take(i as int));
            assert(ds.take(i + 1).last() == docs@[i as int]@);
        }
        if let Some(id) = docs[i].get_document("_id") {
            match (id.get_str("table_name"), docs[i].get_str("stream_label")) {
                (Some(t), Some(l)) => {
                    let ghost before = out@;
                    out.push((t.to_owned(), l.to_owned()));
                    assert(pair_seq(out@) =~= pair_seq(before).push((t@, l@)));
                },
                _ => {},
            }
        }
        i += 1;
    }
    assert(!more ==> ds.take(n as int) =~= ds);
    StreamList { streams: out, more }
}

// --- Checking a shard ------------------------------------------------------------------

/// Where the check of a shard stands.
#[derive(Debug, PartialEq)]
pub enum ShardCheck {
    FindingTable { stream_arn: String, shard_id: String },
    FindingShard { stream_arn: String },
}

/// How the check of a shard goes on with an event.
pub open spec fn check_goes_on(state: ShardCheck, event: Event, step: Step<ShardCheck, ()>) -> bool {
    match (state, event) {
        (
            ShardCheck::FindingTable { stream_arn, shard_id },
            Event::Replied(Reply::One(None)),
        ) => fails(step, no_stream(stream_arn@)),
        (
            ShardCheck::FindingTable { stream_arn, shard_id },
            Event::Replied(Reply::One(Some(d))),
        ) => runs(
            step,
            ShardCheck::FindingShard { stream_arn },
            CommandV::FindOne {
                at: in_data("stream_shards"@),
                filter: doc1("shard_id"@, BsonV::Str(shard_id@)).with(
                    "table_id"@,
                    BsonV::Str(d@.str_or("table_id"@, ""@)),
                ),
            },
        ),
        (ShardCheck::FindingShard { stream_arn }, Event::Replied(Reply::One(d))) => if d is None {
            fails(step, no_stream(stream_arn@))
        } else {
            step == Step::<ShardCheck, ()>::Done(Ok(()))
        },
        (_, Event::Replied(Reply::Failed(e))) => fails(step, ErrV::Internal(e.message@)),
        _ => fails(step, unexpected()),
    }
}

/// Begins checking that a shard belongs to a stream.
pub fn validate_shard_start(
    account_id: &str,
    stream_arn: &str,
    table_name: &str,
    label: &str,
    shard_id: &str,
) -> (step: Step<ShardCheck, ()>)
    ensures
        step matches Step::Do(ShardCheck::FindingTable { stream_arn: a, shard_id: s }, x) && a@
            == stream_arn@ && s@ == shard_id@ && x@ == ActionV::Run(
            find_stream_of(account_id@, table_name@, label@),
        ),
{
    run(
        ShardCheck::FindingTable {
            stream_arn: stream_arn.to_owned(),
            shard_id: shard_id.to_owned(),
        },
        find_stream(account_id, table_name, label),
    )
}

/// Goes on with checking a shard.
pub fn validate_shard_next(state: ShardCheck, event: Event) -> (step: Step<ShardCheck, ()>)
    ensures
        check_goes_on(state, event, step),
{
    match (state, event) {
        (ShardCheck::FindingTable { stream_arn, .. }, Event::Replied(Reply::One(None))) => {
            Step::Done(Err(stream_missing(stream_arn.as_str())))
        },
        (
            ShardCheck::FindingTable { stream_arn, shard_id },
            Event::Replied(Reply::One(Some(d))),
        ) => {
            let table_id = d.str_or("table_id", "");
            run(
                ShardCheck::FindingShard { stream_arn },
                Command::FindOne {
                    at: Place::data("stream_shards"),
                    filter: Document::new().with("shard_id", Bson::String(shard_id)).with(
                        "table_id",
                        Bson::String(table_id),
                    ),
                },
            )
        },
        (ShardCheck::FindingShard { stream_arn }, Event::Replied(Reply::One(d))) => {
            if d.is_none() {
                Step::Done(Err(stream_missing(stream_arn.as_str())))
            } else {
                Step::Done(Ok(()))
            }
        },
        (_, Event::Replied(Reply::Failed(e))) => Step::Done(
            Err(StorageError::Internal(e.message)),
        ),
        _ => fail_unexpected(),
    }
}

} // verus!
