//! What the data operations need to know of tables and indexes.

use vstd::prelude::*;
use vstd::string::*;

use crate::bson::{Bson, BsonV, DocV, Document};
use crate::catalog::{
    account_check, find_table, find_table_of, index_filter, index_filter_of, indexes_filter,
    indexes_filter_of, validate_account_id,
};
use crate::error::{ErrV, StorageError};
use crate::protocol::{
    fail_unexpected, fails, in_catalog, run, unexpected, Action, ActionV, Command, CommandV, Event,
    Place, Reply, Step,
};
use crate::schema::{
    schema_view, AttributeDefinition, KeySchemaElement, KeyType, Projection, ScalarAttributeType,
};
use crate::schema_json::{
    defs_of, defs_view, projection_of, read_defs, read_projection, read_schema, read_stream_spec,
    schema_of, stream_spec_of, ProjectionV, StreamSpecification,
};
use crate::table::IndexType;
use crate::text::{join2, text_eq};

verus! {

/// What the data operations need to know of a table.
#[derive(Debug, PartialEq)]
pub struct TableKeyInfo {
    pub table_name: String,
    pub account_id: String,
    pub table_id: String,
    pub key_schema: Vec<KeySchemaElement>,
    pub attribute_definitions: Vec<AttributeDefinition>,
    pub has_lsi: bool,
    pub stream_specification: Option<StreamSpecification>,
}

/// The model of what is known of a table.
#[verifier::ext_equal]
pub struct KeyInfoV {
    pub table_name: Seq<char>,
    pub account_id: Seq<char>,
    pub table_id: Seq<char>,
    pub key_schema: Seq<(Seq<char>, KeyType)>,
    pub attribute_definitions: Seq<(Seq<char>, ScalarAttributeType)>,
    pub has_lsi: bool,
    pub stream_specification: Option<StreamSpecification>,
}

impl View for TableKeyInfo {
    type V = KeyInfoV;

    open spec fn view(&self) -> KeyInfoV {
        KeyInfoV {
            table_name: self.table_name@,
            account_id: self.account_id@,
            table_id: self.table_id@,
            key_schema: schema_view(self.key_schema@),
            attribute_definitions: defs_view(self.attribute_definitions@),
            has_lsi: self.has_lsi,
            stream_specification: self.stream_specification,
        }
    }
}

/// What the document of a table tells; whether it has local indexes is not
/// known yet. Only an active table may be used.
pub open spec fn key_info_of(account_id: Seq<char>, table_name: Seq<char>, d: DocV) -> Result<
    KeyInfoV,
    ErrV,
> {
    if d.str_or("table_status"@, "ACTIVE"@) != "ACTIVE"@ {
        Err(ErrV::TableNotActive(table_name))
    } else {
        match d.get_str("table_id"@) {
            None => Err(ErrV::Internal("missing table_id"@)),
            Some(table_id) => match d.get("key_schema"@) {
                None => Err(ErrV::Internal("missing key_schema"@)),
                Some(ks) => match schema_of(ks) {
                    None => Err(ErrV::Internal("key_schema parse error: not a key schema"@)),
                    Some(key_schema) => match d.get("attribute_definitions"@) {
                        None => Err(ErrV::Internal("missing attribute_definitions"@)),
                        Some(ad) => match defs_of(ad) {
                            None => Err(
                                ErrV::Internal(
                                    "attr_defs parse error: not attribute definitions"@,
                                ),
                            ),
                            Some(attribute_definitions) => Ok(
                                KeyInfoV {
                                    table_name,
                                    account_id,
                                    table_id,
                                    key_schema,
                                    attribute_definitions,
                                    has_lsi: false,
                                    stream_specification: stream_spec_of(
                                        d.get("stream_specification"@),
                                    ),
                                },
                            ),
                        },
                    },
                },
            },
        }
    }
}

fn read_key_info(account_id: String, table_name: String, d: &Document) -> (r: Result<
    TableKeyInfo,
    StorageError,
>)
    ensures
        match r {
            Ok(t) => key_info_of(account_id@, table_name@, d@) == Ok::<KeyInfoV, ErrV>(t@),
            Err(e) => key_info_of(account_id@, table_name@, d@) == Err::<KeyInfoV, ErrV>(e@),
        },
{
    let status = d.str_or("table_status", "ACTIVE");
    if !text_eq(status.as_str(), "ACTIVE") {
        return Err(StorageError::TableNotActive(table_name));
    }
    let table_id = match d.get_str("table_id") {
        Some(s) => s.to_owned(),
        None => {
            return Err(StorageError::internal("missing table_id"));
        },
    };
    let key_schema = match d.get("key_schema") {
        None => {
            return Err(StorageError::internal("missing key_schema"));
        },
        Some(b) => match read_schema(b) {
            Some(s) => s,
            None => {
                return Err(StorageError::internal("key_schema parse error: not a key schema"));
            },
        },
    };
    let attribute_definitions = match d.get("attribute_definitions") {
        None => {
            return Err(StorageError::internal("missing attribute_definitions"));
        },
        Some(b) => match read_defs(b) {
            Some(s) => s,
            None => {
                return Err(
                    StorageError::internal("attr_defs parse error: not attribute definitions"),
                );
            },
        },
    };
    Ok(
        TableKeyInfo {
            table_name,
            account_id,
            table_id,
            key_schema,
            attribute_definitions,
            has_lsi: false,
            stream_specification: read_stream_spec(d, "stream_specification"),
        },
    )
}

/// Where the lookup of a table stands.
#[derive(Debug, PartialEq)]
pub enum KeyInfoState {
    FindingTable { account_id: String, table_name: String },
    /// The local indexes of the table are being counted.
    Counting(TableKeyInfo),
}

/// The command that counts the local indexes of a table.
pub open spec fn count_local_of(table_id: Seq<char>) -> CommandV {
    CommandV::Count {
        at: in_catalog("indexes"@),
        filter: indexes_filter_of(table_id).with("index_type"@, BsonV::Str("LSI"@)),
    }
}

/// How the lookup of a table begins.
pub open spec fn key_info_begins(
    account_id: Seq<char>,
    table_name: Seq<char>,
    step: Step<KeyInfoState, TableKeyInfo>,
) -> bool {
    match account_check(account_id) {
        Err(e) => fails(step, e),
        Ok(_) => {
            &&& step matches Step::Do(
                KeyInfoState::FindingTable { account_id: a, table_name: n },
                x,
            )
            &&& a@ == account_id
            &&& n@ == table_name
            &&& x@ == ActionV::Run(find_table_of(account_id, table_name))
        },
    }
}

/// How the lookup of a table goes on with an event.
pub open spec fn key_info_goes_on(
    state: KeyInfoState,
    event: Event,
    step: Step<KeyInfoState, TableKeyInfo>,
) -> bool {
    match (state, event) {
        (
            KeyInfoState::FindingTable { account_id, table_name },
            Event::Replied(Reply::One(None)),
        ) => fails(step, ErrV::TableNotFound(table_name@)),
        (
            KeyInfoState::FindingTable { account_id, table_name },
            Event::Replied(Reply::One(Some(d))),
        ) => match key_info_of(account_id@, table_name@, d@) {
            Err(e) => fails(step, e),
            Ok(info) => {
                &&& step matches Step::Do(KeyInfoState::Counting(i), a)
                &&& i@ == info
                &&& a@ == ActionV::Run(count_local_of(info.table_id))
            },
        },
        (KeyInfoState::Counting(i), Event::Replied(Reply::Counted(n))) => {
            &&& step matches Step::Done(Ok(info))
            &&& info@ == (KeyInfoV { has_lsi: n > 0, ..i@ })
        },
        (_, Event::Replied(Reply::Failed(e))) => fails(step, ErrV::Internal(e.message@)),
        _ => fails(step, unexpected()),
    }
}

/// Begins the lookup of a table.
pub fn table_key_info_start(account_id: &str, table_name: &str) -> (step: Step<
    KeyInfoState,
    TableKeyInfo,
>)
    ensures
        key_info_begins(account_id@, table_name@, step),
{
    if let Err(e) = validate_account_id(account_id) {
        return Step::Done(Err(e));
    }
    run(
        KeyInfoState::FindingTable {
            account_id: account_id.to_owned(),
            table_name: table_name.to_owned(),
        },
        find_table(account_id, table_name),
    )
}

/// Goes on with the lookup of a table.
pub fn table_key_info_next(state: KeyInfoState, event: Event) -> (step: Step<
    KeyInfoState,
    TableKeyInfo,
>)
    ensures
        key_info_goes_on(state, event, step),
{
    match (state, event) {
        (KeyInfoState::FindingTable { table_name, .. }, Event::Replied(Reply::One(None))) => {
            Step::Done(Err(StorageError::TableNotFound(table_name)))
        },
        (
            KeyInfoState::FindingTable { account_id, table_name },
            Event::Replied(Reply::One(Some(d))),
        ) => match read_key_info(account_id, table_name, &d) {
            Err(e) => Step::Done(Err(e)),
            Ok(info) => {
                let filter = indexes_filter(info.table_id.as_str()).with(
                    "index_type",
                    Bson::text("LSI"),
                );
                run(
                    KeyInfoState::Counting(info),
                    Command::Count { at: Place::catalog("indexes"), filter },
                )
            },
        },
        (KeyInfoState::Counting(i), Event::Replied(Reply::Counted(n))) => {
            let mut info = i;
            info.has_lsi = n > 0;
            Step::Done(Ok(info))
        },
        (_, Event::Replied(Reply::Failed(e))) => Step::Done(
            Err(StorageError::Internal(e.message)),
        ),
        _ => fail_unexpected(),
    }
}

// --- Indexes -------------------------------------------------------------------------

/// What the data operations need to know of an index.
#[derive(Debug, PartialEq)]
pub struct IndexInfo {
    pub index_name: String,
    pub index_id: String,
    pub index_type: IndexType,
    pub key_schema: Vec<KeySchemaElement>,
    pub projection: Projection,
}

/// The model of what is known of an index.
#[verifier::ext_equal]
pub struct IndexInfoV {
    pub index_name: Seq<char>,
    pub index_id: Seq<char>,
    pub index_type: IndexType,
    pub key_schema: Seq<(Seq<char>, KeyType)>,
    pub projection: ProjectionV,
}

impl View for IndexInfo {
    type V = IndexInfoV;

    open spec fn view(&self) -> IndexInfoV {
        IndexInfoV {
            index_name: self.index_name@,
            index_id: self.index_id@,
            index_type: self.index_type,
            key_schema: schema_view(self.key_schema@),
            projection: self.projection@,
        }
    }
}

/// The kind of index that a stored name stands for.
pub open spec fn index_type_of(t: Seq<char>) -> Result<IndexType, ErrV> {
    if t == "GSI"@ {
        Ok(IndexType::Gsi)
    } else if t == "LSI"@ {
        Ok(IndexType::Lsi)
    } else {
        Err(ErrV::Internal("unknown index type: "@ + t))
    }
}

/// What the document of an index tells.
pub open spec fn index_info_of(index_name: Seq<char>, d: DocV) -> Result<IndexInfoV, ErrV> {
    match d.get_str("index_id"@) {
        None => Err(ErrV::Internal("missing index_id"@)),
        Some(index_id) => match d.get_str("index_type"@) {
            None => Err(ErrV::Internal("missing index_type"@)),
            Some(t) => match index_type_of(t) {
                Err(e) => Err(e),
                Ok(index_type) => match d.get("key_schema"@) {
                    None => Err(ErrV::Internal("missing key_schema in index"@)),
                    Some(ks) => match schema_of(ks) {
                        None => Err(ErrV::Internal("index key_schema parse: not a key schema"@)),
                        Some(key_schema) => match d.get("projection"@) {
                            None => Err(ErrV::Internal("missing projection in index"@)),
                            Some(p) => match projection_of(p) {
                                None => Err(
                                    ErrV::Internal("index projection parse: not a projection"@),
                                ),
                                Some(projection) => Ok(
                                    IndexInfoV {
                                        index_name,
                                        index_id,
                                        index_type,
                                        key_schema,
                                        projection,
                                    },
                                ),
                            },
                        },
                    },
                },
            },
        },
    }
}

/// The command that looks an index up.
pub open spec fn find_index_of(table_id: Seq<char>, index_name: Seq<char>) -> CommandV {
    CommandV::FindOne {
        at: in_catalog("indexes"@),
        filter: index_filter_of(table_id, index_name),
    }
}

/// The command that looks an index up.
pub fn index_info_command(table_id: &str, index_name: &str) -> (r: Command)
    ensures
        r@ == find_index_of(table_id@, index_name@),
{
    Command::FindOne {
        at: Place::catalog("indexes"),
        filter: index_filter(table_id, index_name),
    }
}

/// What the answer to the lookup of an index says.
pub open spec fn index_info_said(index_name: Seq<char>, reply: Reply) -> Result<IndexInfoV, ErrV> {
    match reply {
        Reply::One(None) => Err(ErrV::IndexNotFound(index_name)),
        Reply::One(Some(d)) => index_info_of(index_name, d@),
        Reply::Failed(e) => Err(ErrV::Internal(e.message@)),
        _ => Err(unexpected()),
    }
}

fn read_index_info(index_name: &str, d: &Document) -> (r: Result<IndexInfo, StorageError>)
    ensures
        match r {
            Ok(i) => index_info_of(index_name@, d@) == Ok::<IndexInfoV, ErrV>(i@),
            Err(e) => index_info_of(index_name@, d@) == Err::<IndexInfoV, ErrV>(e@),
        },
{
    let index_id = match d.get_str("index_id") {
        Some(s) => s.to_owned(),
        None => {
            return Err(StorageError::internal("missing index_id"));
        },
    };
    let index_type = match d.get_str("index_type") {
        None => {
            return Err(StorageError::internal("missing index_type"));
        },
        Some(t) => if text_eq(t, "GSI") {
            IndexType::Gsi
        } else if text_eq(t, "LSI") {
            IndexType::Lsi
        } else {
            return Err(StorageError::Internal(join2("unknown index type: ", t)));
        },
    };
    let key_schema = match d.get("key_schema") {
        None => {
            return Err(StorageError::internal("missing key_schema in index"));
        },
        Some(b) => match read_schema(b) {
            Some(s) => s,
            None => {
                return Err(StorageError::internal("index key_schema parse: not a key schema"));
            },
        },
    };
    let projection = match d.get("projection") {
        None => {
            return Err(StorageError::internal("missing projection in index"));
        },
        Some(b) => match read_projection(b) {
            Some(p) => p,
            None => {
                return Err(StorageError::internal("index projection parse: not a projection"));
            },
        },
    };
    Ok(
        IndexInfo {
            index_name: index_name.to_owned(),
            index_id,
            index_type,
            key_schema,
            projection,
        },
    )
}

/// Reads the answer to the lookup of an index.
pub fn index_info_reply(index_name: &str, reply: &Reply) -> (r: Result<IndexInfo, StorageError>)
    ensures
        match r {
            Ok(i) => index_info_said(index_name@, *reply) == Ok::<IndexInfoV, ErrV>(i@),
            Err(e) => index_info_said(index_name@, *reply) == Err::<IndexInfoV, ErrV>(e@),
        },
{
    match reply {
        Reply::One(None) => Err(StorageError::IndexNotFound(index_name.to_owned())),
        Reply::One(Some(d)) => read_index_info(index_name, d),
        Reply::Failed(e) => Err(StorageError::Internal(e.message.clone())),
        _ => Err(StorageError::internal("unexpected event")),
    }
}

// --- An index by its table ---------------------------------------------------------

/// What was done last to look an index up by the name of its table.
#[derive(Debug, PartialEq)]
pub enum IndexInfoState {
    Table { index_name: String, inner: KeyInfoState },
    Index { index_name: String },
}

/// What follows a step of the lookup of the table.
pub open spec fn table_leads(
    index_name: Seq<char>,
    inner: Step<KeyInfoState, TableKeyInfo>,
    step: Step<IndexInfoState, IndexInfo>,
) -> bool {
    match inner {
        Step::Do(s, a) => {
            &&& step matches Step::Do(IndexInfoState::Table { index_name: n, inner: i }, x)
            &&& n@ == index_name
            &&& i == s
            &&& x == a
        },
        Step::Done(Err(e)) => step == Step::<IndexInfoState, IndexInfo>::Done(Err(e)),
        Step::Done(Ok(info)) => {
            &&& step matches Step::Do(IndexInfoState::Index { index_name: n }, x)
            &&& n@ == index_name
            &&& x@ == ActionV::Run(find_index_of(info.table_id@, index_name))
        },
    }
}

/// The first step of the lookup of an index by the name of its table.
pub open spec fn index_info_begins(
    account_id: Seq<char>,
    table_name: Seq<char>,
    index_name: Seq<char>,
    step: Step<IndexInfoState, IndexInfo>,
) -> bool {
    exists|x: Step<KeyInfoState, TableKeyInfo>|
        key_info_begins(account_id, table_name, x) && #[trigger] table_leads(index_name, x, step)
}

/// A further step of the lookup of an index by the name of its table.
pub open spec fn index_info_goes_on(
    state: IndexInfoState,
    event: Event,
    step: Step<IndexInfoState, IndexInfo>,
) -> bool {
    match (state, event) {
        (IndexInfoState::Table { index_name, inner }, _) => exists|
            x: Step<KeyInfoState, TableKeyInfo>,
        |
            key_info_goes_on(inner, event, x) && #[trigger] table_leads(index_name@, x, step),
        (IndexInfoState::Index { index_name }, Event::Replied(r)) => match index_info_said(
            index_name@,
            r,
        ) {
            Ok(info) => step matches Step::Done(Ok(i)) && i@ == info,
            Err(e) => fails(step, e),
        },
        _ => fails(step, unexpected()),
    }
}

fn lead_table(index_name: String, inner: Step<KeyInfoState, TableKeyInfo>) -> (step: Step<
    IndexInfoState,
    IndexInfo,
>)
    ensures
        table_leads(index_name@, inner, step),
{
    match inner {
        Step::Do(s, a) => Step::Do(IndexInfoState::Table { index_name, inner: s }, a),
        Step::Done(Err(e)) => Step::Done(Err(e)),
        Step::Done(Ok(info)) => {
            let command = index_info_command(info.table_id.as_str(), index_name.as_str());
            Step::Do(IndexInfoState::Index { index_name }, Action::Run(command))
        },
    }
}

/// Begins to look an index up by the name of its table.
pub fn index_info_start(account_id: &str, table_name: &str, index_name: &str) -> (step: Step<
    IndexInfoState,
    IndexInfo,
>)
    ensures
        index_info_begins(account_id@, table_name@, index_name@, step),
{
    let x = table_key_info_start(account_id, table_name);
    lead_table(index_name.to_owned(), x)
}

/// Goes on with the lookup of an index by the name of its table.
pub fn index_info_next(state: IndexInfoState, event: Event) -> (step: Step<
    IndexInfoState,
    IndexInfo,
>)
    ensures
        index_info_goes_on(state, event, step),
{
    match (state, event) {
        (IndexInfoState::Table { index_name, inner }, event) => {
            let x = table_key_info_next(inner, event);
            lead_table(index_name, x)
        },
        (IndexInfoState::Index { index_name }, Event::Replied(r)) => Step::Done(
            index_info_reply(index_name.as_str(), &r),
        ),
        _ => fail_unexpected(),
    }
}

// --- Laws --------------------------------------------------------------------------

/// What is known of an index is what was entered when it was created.
#[verifier::rlimit(30)]
pub proof fn law_index_reads_back(
    table_id: Seq<char>,
    kind: IndexType,
    index_id: Seq<char>,
    i: crate::table::IndexDescriptionV,
)
    ensures
        index_info_of(
            i.index_name,
            crate::table::index_document_of(table_id, kind, index_id, i),
        ) == Ok::<IndexInfoV, ErrV>(
            (IndexInfoV {
                index_name: i.index_name,
                index_id,
                index_type: kind,
                key_schema: i.key_schema,
                projection: i.projection,
            }),
        ),
{
    broadcast use crate::bson::group_document_fields;

    crate::schema_json::law_schema_round_trip(i.key_schema);
    crate::schema_json::law_projection_round_trip(i.projection);
    reveal_strlit("_id");
    reveal_strlit("index_id");
    reveal_strlit("index_type");
    reveal_strlit("key_schema");
    reveal_strlit("projection");
    reveal_strlit("index_status");
    reveal_strlit("provisioned_throughput");
    reveal_strlit("GSI");
    reveal_strlit("LSI");
    assert("_id"@.len() == 3 && "index_id"@.len() == 8 && "index_status"@.len() == 12);
    assert("index_type"@.len() == 10 && "key_schema"@.len() == 10 && "projection"@.len() == 10);
    assert("index_type"@[0] == 'i' && "key_schema"@[0] == 'k' && "projection"@[0] == 'p');
    assert("provisioned_throughput"@.len() == 22);
    assert("GSI"@[0] == 'G' && "LSI"@[0] == 'L');
}

} // verus!
