//! Creating a table.

use vstd::prelude::*;
use vstd::string::*;

use crate::bson::{doc1, Bson, BsonV, DocV, Document};
use crate::catalog::{account_check, validate_account_id};
use crate::clock::{is_time, label_at, second_of, seconds_at, stream_label, Fresh};
use crate::data::{collection_name, data_collection_name, sk_field};
use crate::error::{ErrV, StorageError};
use crate::protocol::{
    fail_unexpected, fails, in_catalog, in_data, runs, unexpected, Action, ActionV, Command,
    CommandV, Event, IndexOptions, IndexOptionsV, Place, Reply, Step,
};
use crate::put_item::is_key_taken;
use crate::schema::{
    copy_schema, schema_view, AttributeDefinition, KeySchemaElement, ScalarAttributeType,
};
use crate::schema_json::{
    copy_defs, defs_view, ProvisionedThroughput, StreamSpecification,
};
use crate::script::{
    add_line, line_seq, must, no_lines, script_goes_on, script_next, script_start, turns_to, Line,
    Script, Turn,
};
use crate::sequence::SHARDS_PER_STREAM;
use crate::stream::{create_shard, create_shard_of};
use crate::table::{
    describe_new_index, globals, index_document, index_document_of, index_seq,
    law_index_document_reads_back, law_index_order_is_free, lemma_indexes_parted, locals,
    new_index, no_throughput, opt_index_seq, table_document, table_document_of, BillingMode,
    IndexDescription, IndexDescriptionV, IndexSpec, IndexType, TableDescription, TableStatus,
    TableV,
};
use crate::tags::{add_tags, tag_lines, tag_seq, Tag};
use crate::text::contains_text;

verus! {

/// A table that is to be created.
#[derive(Debug, PartialEq)]
pub struct CreateTable {
    pub account_id: String,
    pub table_name: String,
    pub table_arn: String,
    pub key_schema: Vec<KeySchemaElement>,
    pub attribute_definitions: Vec<AttributeDefinition>,
    /// The type of the sort key, where there is one.
    pub sort_key: Option<ScalarAttributeType>,
    pub billing_mode: Option<BillingMode>,
    pub throughput: Option<ProvisionedThroughput>,
    pub stream_specification: Option<StreamSpecification>,
    pub deletion_protection: Option<bool>,
    pub global_indexes: Option<Vec<IndexSpec>>,
    pub local_indexes: Option<Vec<IndexSpec>>,
    pub tags: Option<Vec<Tag>>,
}

/// Where the creation of a table stands.
#[derive(Debug, PartialEq)]
pub enum CreateState {
    /// The table is being entered in the catalog; the commands that follow,
    /// and what is handed out in the end, are known.
    Entering { lines: Vec<Line>, description: TableDescription },
    Running { script: Script, description: TableDescription },
}

// --- What is handed out --------------------------------------------------------------

/// How many indexes are to be created.
pub open spec fn index_count(v: Option<Vec<IndexSpec>>) -> nat {
    match v {
        Some(v) => v@.len(),
        None => 0,
    }
}

/// The request names as many indexes as there are new identifiers, and the
/// time is one.
pub open spec fn has_ids(q: CreateTable, f: Fresh) -> bool {
    &&& f.ids@.len() == index_count(q.global_indexes) + index_count(q.local_indexes)
    &&& is_time(f.now_nanos)
}

/// What new indexes are described as.
pub open spec fn described_indexes(kind: IndexType, v: Option<Vec<IndexSpec>>) -> Option<
    Seq<IndexDescriptionV>,
> {
    match v {
        Some(v) => Some(Seq::new(v@.len(), |i: int| new_index(kind, v@[i]))),
        None => None,
    }
}

/// Whether a table is created with a stream.
pub open spec fn is_streaming(s: Option<StreamSpecification>) -> bool {
    s matches Some(s) && s.stream_enabled
}

/// The throughput of a new table.
pub open spec fn throughput_or_none(t: Option<ProvisionedThroughput>) -> ProvisionedThroughput {
    match t {
        Some(t) => t,
        None => no_throughput(),
    }
}

/// What a new table is described as.
pub open spec fn created_table(q: CreateTable, f: Fresh) -> TableV {
    TableV {
        account_id: q.account_id@,
        table_name: q.table_name@,
        key_schema: schema_view(q.key_schema@),
        attribute_definitions: defs_view(q.attribute_definitions@),
        table_status: TableStatus::Active,
        creation_millis: (second_of(f.now_nanos as int) * 1000) as i64,
        table_size_bytes: 0,
        item_count: 0,
        table_arn: q.table_arn@,
        table_id: f.id@,
        throughput: throughput_or_none(q.throughput),
        billing_mode: match q.billing_mode {
            Some(b) => b,
            None => BillingMode::Provisioned,
        },
        global_indexes: described_indexes(IndexType::Gsi, q.global_indexes),
        local_indexes: described_indexes(IndexType::Lsi, q.local_indexes),
        stream_specification: q.stream_specification,
        stream_label: if is_streaming(q.stream_specification) {
            Some(label_at(f.now_nanos))
        } else {
            None
        },
        deletion_protection: q.deletion_protection == Some(true),
    }
}

// --- The commands --------------------------------------------------------------------

/// The keys of the index on the key of a table.
pub open spec fn key_index_keys(sort_key: Option<ScalarAttributeType>) -> DocV {
    let pk = doc1("pk"@, BsonV::Int32(1));
    match sort_key {
        Some(t) => pk.with(sk_field(t), BsonV::Int32(1)),
        None => pk,
    }
}

/// The options of the index on the key of a table: keys occur once, and sort
/// keys that are texts are compared byte by byte.
pub open spec fn key_index_options(sort_key: Option<ScalarAttributeType>) -> IndexOptionsV {
    IndexOptionsV {
        unique: true,
        sparse: false,
        simple_collation: sort_key == Some(ScalarAttributeType::S),
        name: None,
        expire_after: None,
        partial: None,
    }
}

/// The commands that make the collection of a table.
pub open spec fn collection_lines(
    table_id: Seq<char>,
    sort_key: Option<ScalarAttributeType>,
) -> Seq<(CommandV, bool)> {
    let at = in_data(collection_name(table_id));
    seq![
        (CommandV::CreateCollection { at }, true),
        (
            CommandV::CreateIndex {
                at,
                keys: key_index_keys(sort_key),
                options: key_index_options(sort_key),
            },
            true,
        ),
    ]
}

/// The commands that create the shards of a stream.
pub open spec fn shard_lines(table_name: Seq<char>, table_id: Seq<char>, now: i64) -> Seq<
    (CommandV, bool),
> {
    Seq::new(
        SHARDS_PER_STREAM as nat,
        |i: int| (create_shard_of(table_name, table_id, i as nat, now), true),
    )
}

/// The command that enters an index in the catalog.
pub open spec fn enter_index_of(
    table_id: Seq<char>,
    kind: IndexType,
    index_id: Seq<char>,
    i: IndexSpec,
) -> CommandV {
    CommandV::Insert {
        at: in_catalog("indexes"@),
        document: index_document_of(table_id, kind, index_id, new_index(kind, i)),
    }
}

/// The commands that enter indexes in the catalog; their identifiers begin at
/// `first`.
pub open spec fn index_lines(
    table_id: Seq<char>,
    kind: IndexType,
    v: Option<Vec<IndexSpec>>,
    ids: Seq<String>,
    first: nat,
) -> Seq<(CommandV, bool)> {
    match v {
        Some(v) => Seq::new(
            v@.len(),
            |i: int| (enter_index_of(table_id, kind, ids[first + i]@, v@[i]), true),
        ),
        None => Seq::empty(),
    }
}

/// The commands that set the tags of a new table.
pub open spec fn opt_tag_lines(arn: Seq<char>, tags: Option<Vec<Tag>>) -> Seq<(CommandV, bool)> {
    match tags {
        Some(t) => tag_lines(arn, tag_seq(t@)),
        None => Seq::empty(),
    }
}

/// The commands that follow the entry of a new table in the catalog, all of
/// which have to succeed.
pub open spec fn create_lines(q: CreateTable, f: Fresh) -> Seq<(CommandV, bool)> {
    collection_lines(f.id@, q.sort_key) + (if is_streaming(q.stream_specification) {
        shard_lines(q.table_name@, f.id@, f.now_millis)
    } else {
        Seq::empty()
    }) + index_lines(f.id@, IndexType::Gsi, q.global_indexes, f.ids@, 0) + index_lines(
        f.id@,
        IndexType::Lsi,
        q.local_indexes,
        f.ids@,
        index_count(q.global_indexes),
    ) + opt_tag_lines(q.table_arn@, q.tags)
}

/// How the creation of a table begins.
pub open spec fn create_begins(
    q: CreateTable,
    f: Fresh,
    step: Step<CreateState, TableDescription>,
) -> bool {
    match account_check(q.account_id@) {
        Err(e) => fails(step, e),
        Ok(_) => {
            &&& step matches Step::Do(CreateState::Entering { lines, description }, a)
            &&& line_seq(lines@) == create_lines(q, f)
            &&& description@ == created_table(q, f)
            &&& a@ == ActionV::Run(
                CommandV::Insert {
                    at: in_catalog("tables"@),
                    document: table_document_of(created_table(q, f), q.throughput),
                },
            )
        },
    }
}

/// The step takes the turn of a script, and hands out the description at its
/// end.
pub open spec fn create_turns(
    turn: Turn,
    description: TableDescription,
    step: Step<CreateState, TableDescription>,
) -> bool {
    match turn {
        Turn::Perform(script, c) => runs(
            step,
            CreateState::Running { script, description },
            c@,
        ),
        Turn::Finished => step == Step::<CreateState, TableDescription>::Done(Ok(description)),
        Turn::Refused(e) => fails(step, ErrV::Internal(e.message@)),
    }
}

/// How the creation of a table goes on with an event.
pub open spec fn create_goes_on(
    state: CreateState,
    event: Event,
    step: Step<CreateState, TableDescription>,
) -> bool {
    match (state, event) {
        (
            CreateState::Entering { lines, description },
            Event::Replied(Reply::Failed(e)),
        ) => if is_key_taken(e.message@) {
            fails(step, ErrV::TableAlreadyExists(description.table_name@))
        } else {
            fails(step, ErrV::Internal(e.message@))
        },
        (CreateState::Entering { lines, description }, Event::Replied(_)) => exists|turn: Turn|
            turns_to(line_seq(lines@), turn) && #[trigger] create_turns(turn, description, step),
        (CreateState::Running { script, description }, Event::Replied(r)) => exists|turn: Turn|
            script_goes_on(script, r, turn) && #[trigger] create_turns(turn, description, step),
        _ => fails(step, unexpected()),
    }
}

// --- Building ------------------------------------------------------------------------

/// Appends the commands that create the shards of a stream.
pub fn add_shards(lines: &mut Vec<Line>, table_name: &str, table_id: &str, now: i64)
    ensures
        line_seq(final(lines)@) == line_seq(old(lines)@) + shard_lines(
            table_name@,
            table_id@,
            now,
        ),
{
    let ghost before = line_seq(lines@);
    let ghost all = shard_lines(table_name@, table_id@, now);
    let mut i: u32 = 0;
    assert(before =~= before + all.take(0));
    while i < SHARDS_PER_STREAM
        invariant
            i <= SHARDS_PER_STREAM,
            all == shard_lines(table_name@, table_id@, now),
            line_seq(lines@) == before + all.take(i as int),
        decreases SHARDS_PER_STREAM - i,
    {
        let command = create_shard(table_name, table_id, i, now);
        assert(command@ == all[i as int].0);
        add_line(lines, must(command));
        assert((before + all.take(i as int)).push(all[i as int]) =~= before + all.take(i + 1));
        i += 1;
    }
    assert(all.take(SHARDS_PER_STREAM as int) =~= all);
}

fn add_indexes(
    lines: &mut Vec<Line>,
    table_id: &str,
    kind: IndexType,
    v: &Option<Vec<IndexSpec>>,
    ids: &Vec<String>,
    first: usize,
)
    requires
        first + index_count(*v) <= ids@.len(),
    ensures
        line_seq(final(lines)@) == line_seq(old(lines)@) + index_lines(
            table_id@,
            kind,
            *v,
            ids@,
            first as nat,
        ),
{
    let ghost before = line_seq(lines@);
    let ghost all = index_lines(table_id@, kind, *v, ids@, first as nat);
    match v {
        None => {
            assert(before =~= before + all);
        },
        Some(v2) => {
            let known: usize = ids.len();
            let mut i: usize = 0;
            assert(before =~= before + all.take(0));
            while i < v2.len()
                invariant
                    i <= v2.len(),
                    *v == Some(*v2),
                    first + v2@.len() <= known == ids@.len(),
                    all == index_lines(table_id@, kind, *v, ids@, first as nat),
                    line_seq(lines@) == before + all.take(i as int),
                decreases v2.len() - i,
            {
                let command = Command::Insert {
                    at: Place::catalog("indexes"),
                    document: index_document(table_id, kind, ids[first + i].as_str(), &v2[i]),
                };
                assert(command@ == all[i as int].0);
                add_line(lines, must(command));
                assert((before + all.take(i as int)).push(all[i as int]) =~= before + all.take(
                    i + 1,
                ));
                i += 1;
            }
            assert(all.take(v2@.len() as int) =~= all);
        },
    }
}

fn describe_indexes(kind: IndexType, v: &Option<Vec<IndexSpec>>) -> (r: Option<
    Vec<IndexDescription>,
>)
    ensures
        opt_index_seq(r) == described_indexes(kind, *v),
{
    match v {
        None => None,
        Some(v) => {
            let mut out: Vec<IndexDescription> = Vec::new();
            let mut i: usize = 0;
            while i < v.len()
                invariant
                    i <= v.len(),
                    out@.len() == i,
                    forall|j: int| 0 <= j < i ==> (#[trigger] out@[j])@ == new_index(kind, v@[j]),
                decreases v.len() - i,
            {
                out.push(describe_new_index(kind, &v[i]));
                i += 1;
            }
            assert(index_seq(out@) =~= Seq::new(v@.len(), |i: int| new_index(kind, v@[i])));
            Some(out)
        },
    }
}

/// The index on the key of a table.
fn key_index(at: Place, sort_key: Option<ScalarAttributeType>) -> (r: Command)
    ensures
        r@ == (CommandV::CreateIndex {
            at: at@,
            keys: key_index_keys(sort_key),
            options: key_index_options(sort_key),
        }),
{
    let pk = Document::new().with("pk", Bson::Int32(1));
    let keys = match sort_key {
        Some(ScalarAttributeType::S) => pk.with("sk_s", Bson::Int32(1)),
        Some(ScalarAttributeType::N) => pk.with("sk_n", Bson::Int32(1)),
        Some(ScalarAttributeType::B) => pk.with("sk_b", Bson::Int32(1)),
        None => pk,
    };
    let texts = match sort_key {
        Some(ScalarAttributeType::S) => true,
        _ => false,
    };
    Command::CreateIndex {
        at,
        keys,
        options: IndexOptions {
            unique: true,
            sparse: false,
            simple_collation: texts,
            name: None,
            expire_after: None,
            partial: None,
        },
    }
}

fn count(v: &Option<Vec<IndexSpec>>) -> (r: usize)
    ensures
        r == index_count(*v),
{
    match v {
        Some(v) => v.len(),
        None => 0,
    }
}

fn build_lines(q: &CreateTable, f: &Fresh) -> (r: Vec<Line>)
    requires
        has_ids(*q, *f),
    ensures
        line_seq(r@) == create_lines(*q, *f),
{
    let table_id = f.id.as_str();
    let name = data_collection_name(table_id);
    let mut lines = no_lines();
    add_line(&mut lines, must(Command::CreateCollection { at: Place::data(name.as_str()) }));
    add_line(&mut lines, must(key_index(Place::data(name.as_str()), q.sort_key)));
    assert(line_seq(lines@) =~= collection_lines(f.id@, q.sort_key));
    let streaming = match &q.stream_specification {
        Some(s) => s.stream_enabled,
        None => false,
    };
    if streaming {
        add_shards(&mut lines, q.table_name.as_str(), table_id, f.now_millis);
    } else {
        assert(line_seq(lines@) + Seq::<(CommandV, bool)>::empty() =~= line_seq(lines@));
    }
    add_indexes(&mut lines, table_id, IndexType::Gsi, &q.global_indexes, &f.ids, 0);
    let n = count(&q.global_indexes);
    add_indexes(&mut lines, table_id, IndexType::Lsi, &q.local_indexes, &f.ids, n);
    match &q.tags {
        Some(t) => add_tags(&mut lines, q.table_arn.as_str(), t),
        None => {
            assert(line_seq(lines@) + Seq::<(CommandV, bool)>::empty() =~= line_seq(lines@));
        },
    }
    lines
}

fn build_description(q: &CreateTable, f: &Fresh) -> (r: TableDescription)
    requires
        has_ids(*q, *f),
    ensures
        r@ == created_table(*q, *f),
{
    let seconds = seconds_at(f.now_nanos);
    let stream_label = match &q.stream_specification {
        Some(s) => if s.stream_enabled {
            Some(stream_label(f.now_nanos))
        } else {
            None
        },
        None => None,
    };
    TableDescription {
        account_id: q.account_id.clone(),
        table_name: q.table_name.clone(),
        key_schema: copy_schema(&q.key_schema),
        attribute_definitions: copy_defs(&q.attribute_definitions),
        table_status: TableStatus::Active,
        creation_millis: seconds * 1000,
        table_size_bytes: 0,
        item_count: 0,
        table_arn: q.table_arn.clone(),
        table_id: f.id.clone(),
        throughput: match q.throughput {
            Some(t) => t,
            None => ProvisionedThroughput { read_capacity_units: 0, write_capacity_units: 0 },
        },
        billing_mode: match q.billing_mode {
            Some(b) => b,
            None => BillingMode::Provisioned,
        },
        global_indexes: describe_indexes(IndexType::Gsi, &q.global_indexes),
        local_indexes: describe_indexes(IndexType::Lsi, &q.local_indexes),
        stream_specification: q.stream_specification,
        stream_label,
        deletion_protection: match q.deletion_protection {
            Some(b) => b,
            None => false,
        },
    }
}

// --- The operation -------------------------------------------------------------------

/// Begins the creation of a table.
pub fn create_table_start(q: CreateTable, f: Fresh) -> (step: Step<CreateState, TableDescription>)
    requires
        has_ids(q, f),
    ensures
        create_begins(q, f, step),
{
    if let Err(e) = validate_account_id(q.account_id.as_str()) {
        return Step::Done(Err(e));
    }
    let description = build_description(&q, &f);
    let document = table_document(&description, &q.throughput);
    let lines = build_lines(&q, &f);
    Step::Do(
        CreateState::Entering { lines, description },
        Action::Run(Command::Insert { at: Place::catalog("tables"), document }),
    )
}

fn take_turn(turn: Turn, description: TableDescription) -> (step: Step<
    CreateState,
    TableDescription,
>)
    ensures
        create_turns(turn, description, step),
{
    match turn {
        Turn::Perform(script, c) => Step::Do(
            CreateState::Running { script, description },
            Action::Run(c),
        ),
        Turn::Finished => Step::Done(Ok(description)),
        Turn::Refused(e) => Step::Done(Err(StorageError::Internal(e.message))),
    }
}

/// Goes on with the creation of a table.
pub fn create_table_next(state: CreateState, event: Event) -> (step: Step<
    CreateState,
    TableDescription,
>)
    ensures
        create_goes_on(state, event, step),
{
    match (state, event) {
        (
            CreateState::Entering { lines, description },
            Event::Replied(Reply::Failed(e)),
        ) => if contains_text(e.message.as_str(), "E11000") {
            Step::Done(Err(StorageError::TableAlreadyExists(description.table_name)))
        } else {
            Step::Done(Err(StorageError::Internal(e.message)))
        },
        (CreateState::Entering { lines, description }, Event::Replied(_)) => {
            let turn = script_start(lines);
            take_turn(turn, description)
        },
        (CreateState::Running { script, description }, Event::Replied(r)) => {
            let turn = script_next(script, r);
            take_turn(turn, description)
        },
        _ => fail_unexpected(),
    }
}

// --- Laws --------------------------------------------------------------------------

/// A table that already exists is left as it is: the refused entry is the
/// only command.
pub proof fn law_existing_table_is_kept(
    lines: Vec<Line>,
    description: TableDescription,
    e: crate::protocol::DbError,
    step: Step<CreateState, TableDescription>,
)
    requires
        is_key_taken(e.message@),
        create_goes_on(
            CreateState::Entering { lines, description },
            Event::Replied(Reply::Failed(e)),
            step,
        ),
    ensures
        fails(step, ErrV::TableAlreadyExists(description.table_name@)),
{
}

/// The table that a creation enters in the catalog is, without its indexes,
/// the one that it describes.
pub proof fn law_created_table_is_entered(q: CreateTable, f: Fresh)
    ensures
        crate::table::table_of(
            table_document_of(created_table(q, f), q.throughput),
        ) == Ok::<TableV, ErrV>(
            (TableV { global_indexes: None, local_indexes: None, ..created_table(q, f) }),
        ),
{
    let t = TableV { global_indexes: None, local_indexes: None, ..created_table(q, f) };
    assert(table_document_of(created_table(q, f), q.throughput) == table_document_of(
        t,
        q.throughput,
    ));
    crate::table::law_table_document_reads_back(t, q.throughput);
}

/// The documents of the indexes that a creation enters in the catalog.
pub open spec fn entered_indexes(q: CreateTable, f: Fresh) -> Seq<DocV> {
    kind_documents(f.id@, IndexType::Gsi, q.global_indexes, f.ids@, 0) + kind_documents(
        f.id@,
        IndexType::Lsi,
        q.local_indexes,
        f.ids@,
        index_count(q.global_indexes),
    )
}

/// The documents of the new indexes of a kind.
pub open spec fn kind_documents(
    table_id: Seq<char>,
    kind: IndexType,
    v: Option<Vec<IndexSpec>>,
    ids: Seq<String>,
    first: nat,
) -> Seq<DocV> {
    match v {
        Some(v) => Seq::new(
            v@.len(),
            |i: int| index_document_of(table_id, kind, ids[first + i]@, new_index(kind, v@[i])),
        ),
        None => Seq::empty(),
    }
}

/// A creation enters the documents of its indexes: each is inserted by a
/// command that has to succeed.
pub proof fn law_indexes_are_entered(q: CreateTable, f: Fresh, k: int)
    requires
        0 <= k < entered_indexes(q, f).len(),
    ensures
        create_lines(q, f).contains(
            (
                CommandV::Insert {
                    at: in_catalog("indexes"@),
                    document: entered_indexes(q, f)[k],
                },
                true,
            ),
        ),
{
    let start = collection_lines(f.id@, q.sort_key) + (if is_streaming(q.stream_specification) {
        shard_lines(q.table_name@, f.id@, f.now_millis)
    } else {
        Seq::empty()
    });
    let line = create_lines(q, f)[start.len() + k];
    assert(line == (
        CommandV::Insert { at: in_catalog("indexes"@), document: entered_indexes(q, f)[k] },
        true,
    ));
}

/// The indexes of a kind are read back from their documents.
proof fn lemma_kind_reads_back(
    table_id: Seq<char>,
    kind: IndexType,
    v: Option<Vec<IndexSpec>>,
    ids: Seq<String>,
    first: nat,
    n: nat,
)
    requires
        n <= index_count(v),
    ensures
        crate::table::all_indexes(kind_documents(table_id, kind, v, ids, first)),
        globals(kind_documents(table_id, kind, v, ids, first).take(n as int)) == (if kind
            == IndexType::Gsi && v is Some {
            described_indexes(kind, v)->0.take(n as int)
        } else {
            Seq::empty()
        }),
        locals(kind_documents(table_id, kind, v, ids, first).take(n as int)) == (if kind
            == IndexType::Lsi && v is Some {
            described_indexes(kind, v)->0.take(n as int)
        } else {
            Seq::empty()
        }),
    decreases n,
{
    let docs = kind_documents(table_id, kind, v, ids, first);
    if let Some(list) = v {
        assert forall|i: int| 0 <= i < docs.len() implies (#[trigger] crate::table::index_of(
            docs[i],
        )) is Ok by {
            law_index_document_reads_back(table_id, kind, ids[first + i]@, list@[i]);
        }
        if n > 0 {
            lemma_kind_reads_back(table_id, kind, v, ids, first, (n - 1) as nat);
            let t = docs.take(n as int);
            let last = new_index(kind, list@[n - 1]);
            law_index_document_reads_back(table_id, kind, ids[first + n - 1]@, list@[n - 1]);
            assert(t.drop_last() =~= docs.take(n - 1));
            reveal_strlit("GSI");
            reveal_strlit("LSI");
            assert("GSI"@[0] == 'G' && "LSI"@[0] == 'L');
            let all = described_indexes(kind, v)->0;
            assert(all.take(n - 1) + seq![last] =~= all.take(n as int));
            let none = Seq::<IndexDescriptionV>::empty();
            assert(none + none =~= none);
            assert(all.take(n - 1) + none =~= all.take(n - 1));
        } else if kind == IndexType::Gsi {
            assert(described_indexes(kind, v)->0.take(0) =~= Seq::empty());
        } else {
            assert(described_indexes(kind, v)->0.take(0) =~= Seq::empty());
        }
    }
}

proof fn lemma_parts_together(a: Seq<DocV>, b: Seq<DocV>)
    ensures
        globals(a + b) == globals(a) + globals(b),
        locals(a + b) == locals(a) + locals(b),
    decreases b.len(),
{
    if b.len() == 0 {
        assert(a + b =~= a);
        assert(globals(a) + globals(b) =~= globals(a));
        assert(locals(a) + locals(b) =~= locals(a));
    } else {
        lemma_parts_together(a, b.drop_last());
        assert((a + b).drop_last() =~= a + b.drop_last());
        assert((a + b).last() == b.last());
        assert(globals(a + b) =~= globals(a) + globals(b));
        assert(locals(a + b) =~= locals(a) + locals(b));
    }
}

/// Two lists of indexes hold the same ones, in whatever order.
pub open spec fn has_same_indexes(
    a: Option<Seq<IndexDescriptionV>>,
    b: Option<Seq<IndexDescriptionV>>,
) -> bool {
    match (a, b) {
        (Some(x), Some(y)) => x.to_multiset() == y.to_multiset(),
        (None, None) => true,
        _ => false,
    }
}

/// Two descriptions of a table are the same but for the order of the indexes.
pub open spec fn is_same_table(a: TableV, b: TableV) -> bool {
    &&& (TableV { global_indexes: None, local_indexes: None, ..a }) == (TableV {
        global_indexes: None,
        local_indexes: None,
        ..b
    })
    &&& has_same_indexes(a.global_indexes, b.global_indexes)
    &&& has_same_indexes(a.local_indexes, b.local_indexes)
}

/// A list of new indexes is absent or names some.
pub open spec fn is_absent_or_some(v: Option<Vec<IndexSpec>>) -> bool {
    v matches Some(v) ==> v@.len() > 0
}

/// A created table reads back as it was described, with its indexes: from the
/// document that was entered for it, and the documents that were entered for
/// its indexes, in whatever order these come.
pub proof fn law_created_table_reads_back(q: CreateTable, f: Fresh, docs: Seq<DocV>)
    requires
        docs.to_multiset() == entered_indexes(q, f).to_multiset(),
        is_absent_or_some(q.global_indexes),
        is_absent_or_some(q.local_indexes),
    ensures
        crate::table::table_of(table_document_of(created_table(q, f), q.throughput)) is Ok,
        ({
            let entered = crate::table::table_of(
                table_document_of(created_table(q, f), q.throughput),
            )->Ok_0;
            crate::table::with_indexes(entered, docs) matches Ok(t) && is_same_table(
                t,
                created_table(q, f),
            )
        }),
{
    broadcast use vstd::seq_lib::group_to_multiset_ensures;

    law_created_table_is_entered(q, f);
    let a = kind_documents(f.id@, IndexType::Gsi, q.global_indexes, f.ids@, 0);
    let b = kind_documents(
        f.id@,
        IndexType::Lsi,
        q.local_indexes,
        f.ids@,
        index_count(q.global_indexes),
    );
    let all = entered_indexes(q, f);
    lemma_kind_reads_back(
        f.id@,
        IndexType::Gsi,
        q.global_indexes,
        f.ids@,
        0,
        index_count(q.global_indexes),
    );
    lemma_kind_reads_back(
        f.id@,
        IndexType::Lsi,
        q.local_indexes,
        f.ids@,
        index_count(q.global_indexes),
        index_count(q.local_indexes),
    );
    assert(a.take(a.len() as int) =~= a);
    assert(b.take(b.len() as int) =~= b);
    lemma_parts_together(a, b);
    law_index_order_is_free(docs, all);
    assert forall|i: int| 0 <= i < docs.len() implies (#[trigger] crate::table::index_of(
        docs[i],
    )) is Ok by {
        assert(docs.contains(docs[i]));
        assert(docs.to_multiset().count(docs[i]) > 0);
        assert(all.contains(docs[i]));
        let j = choose|j: int| 0 <= j < all.len() && all[j] == docs[i];
        if j < a.len() {
            assert(crate::table::index_of(a[j]) is Ok);
        } else {
            assert(crate::table::index_of(b[j - a.len()]) is Ok);
        }
    }
    lemma_indexes_parted(docs, docs.len());
    assert(docs.take(docs.len() as int) =~= docs);
    let g = globals(a);
    let l = locals(b);
    assert(globals(all) =~= g);
    assert(locals(all) =~= l);
    assert(globals(docs).to_multiset().len() == globals(docs).len());
    assert(locals(docs).to_multiset().len() == locals(docs).len());
    assert(g.to_multiset().len() == g.len() && l.to_multiset().len() == l.len());
    if let Some(v) = q.global_indexes {
        assert(described_indexes(IndexType::Gsi, q.global_indexes)->0.take(v@.len() as int)
            =~= described_indexes(IndexType::Gsi, q.global_indexes)->0);
    }
    if let Some(v) = q.local_indexes {
        assert(described_indexes(IndexType::Lsi, q.local_indexes)->0.take(v@.len() as int)
            =~= described_indexes(IndexType::Lsi, q.local_indexes)->0);
    }
}

} // verus!
