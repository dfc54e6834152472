//! Tables and indexes: their descriptions and their documents in the catalog.

use vstd::prelude::*;
use vstd::string::*;

use crate::bson::{doc1, doc_seq, opt_string, Bson, BsonV, DocV, Document};
use crate::catalog::{index_id_value, index_key, table_id_value, table_key};
use crate::error::{ErrV, StorageError};
use crate::schema::{
    copy_schema, schema_view, AttributeDefinition, KeySchemaElement, KeyType, Projection,
    ScalarAttributeType,
};
use crate::schema_json::{
    copy_projection, defs_bson, defs_of, defs_to_bson, defs_view, opt_stream_spec_bson,
    opt_throughput_bson, projection_bson, projection_of, projection_to_bson, read_defs,
    read_projection, read_schema, read_stream_spec, read_throughput, schema_bson, schema_of,
    schema_to_bson, stream_spec_of, stream_spec_to_bson, throughput_of, throughput_to_bson,
    ProjectionV, ProvisionedThroughput, StreamSpecification,
};
use crate::text::text_eq;

verus! {

/// How the capacity of a table is paid for.
#[derive(Debug, Clone, Copy, PartialEq, Eq, Structural)]
pub enum BillingMode {
    Provisioned,
    PayPerRequest,
}

/// The status of a table.
#[derive(Debug, Clone, Copy, PartialEq, Eq, Structural)]
pub enum TableStatus {
    Creating,
    Active,
    Deleting,
    Updating,
}

/// The kinds of secondary indexes.
#[derive(Debug, Clone, Copy, PartialEq, Eq, Structural)]
pub enum IndexType {
    Gsi,
    Lsi,
}

/// An index that is to be created.
#[derive(Debug, PartialEq)]
pub struct IndexSpec {
    pub index_name: String,
    pub key_schema: Vec<KeySchemaElement>,
    pub projection: Projection,
    pub throughput: Option<ProvisionedThroughput>,
}

/// A description of an index.
#[derive(Debug, PartialEq)]
pub struct IndexDescription {
    pub index_name: String,
    pub key_schema: Vec<KeySchemaElement>,
    pub projection: Projection,
    pub index_status: String,
    pub throughput: Option<ProvisionedThroughput>,
}

/// A description of a table.
#[derive(Debug, PartialEq)]
pub struct TableDescription {
    pub account_id: String,
    pub table_name: String,
    pub key_schema: Vec<KeySchemaElement>,
    pub attribute_definitions: Vec<AttributeDefinition>,
    pub table_status: TableStatus,
    /// The time in milliseconds.
    pub creation_millis: i64,
    pub table_size_bytes: i64,
    pub item_count: i64,
    pub table_arn: String,
    pub table_id: String,
    pub throughput: ProvisionedThroughput,
    pub billing_mode: BillingMode,
    pub global_indexes: Option<Vec<IndexDescription>>,
    pub local_indexes: Option<Vec<IndexDescription>>,
    pub stream_specification: Option<StreamSpecification>,
    pub stream_label: Option<String>,
    pub deletion_protection: bool,
}

/// The model of a description of an index.
#[verifier::ext_equal]
pub struct IndexDescriptionV {
    pub index_name: Seq<char>,
    pub key_schema: Seq<(Seq<char>, KeyType)>,
    pub projection: ProjectionV,
    pub index_status: Seq<char>,
    pub throughput: Option<ProvisionedThroughput>,
}

/// The model of a description of a table.
#[verifier::ext_equal]
pub struct TableV {
    pub account_id: Seq<char>,
    pub table_name: Seq<char>,
    pub key_schema: Seq<(Seq<char>, KeyType)>,
    pub attribute_definitions: Seq<(Seq<char>, ScalarAttributeType)>,
    pub table_status: TableStatus,
    pub creation_millis: i64,
    pub table_size_bytes: i64,
    pub item_count: i64,
    pub table_arn: Seq<char>,
    pub table_id: Seq<char>,
    pub throughput: ProvisionedThroughput,
    pub billing_mode: BillingMode,
    pub global_indexes: Option<Seq<IndexDescriptionV>>,
    pub local_indexes: Option<Seq<IndexDescriptionV>>,
    pub stream_specification: Option<StreamSpecification>,
    pub stream_label: Option<Seq<char>>,
    pub deletion_protection: bool,
}

impl View for IndexDescription {
    type V = IndexDescriptionV;

    open spec fn view(&self) -> IndexDescriptionV {
        IndexDescriptionV {
            index_name: self.index_name@,
            key_schema: schema_view(self.key_schema@),
            projection: self.projection@,
            index_status: self.index_status@,
            throughput: self.throughput,
        }
    }
}

/// The models of a list of descriptions of indexes.
pub open spec fn index_seq(v: Seq<IndexDescription>) -> Seq<IndexDescriptionV> {
    Seq::new(v.len(), |i: int| v[i]@)
}

/// The models of a list of descriptions of indexes that may be absent.
pub open spec fn opt_index_seq(v: Option<Vec<IndexDescription>>) -> Option<Seq<IndexDescriptionV>> {
    match v {
        Some(v) => Some(index_seq(v@)),
        None => None,
    }
}

impl View for TableDescription {
    type V = TableV;

    open spec fn view(&self) -> TableV {
        TableV {
            account_id: self.account_id@,
            table_name: self.table_name@,
            key_schema: schema_view(self.key_schema@),
            attribute_definitions: defs_view(self.attribute_definitions@),
            table_status: self.table_status,
            creation_millis: self.creation_millis,
            table_size_bytes: self.table_size_bytes,
            item_count: self.item_count,
            table_arn: self.table_arn@,
            table_id: self.table_id@,
            throughput: self.throughput,
            billing_mode: self.billing_mode,
            global_indexes: opt_index_seq(self.global_indexes),
            local_indexes: opt_index_seq(self.local_indexes),
            stream_specification: self.stream_specification,
            stream_label: opt_string(self.stream_label),
            deletion_protection: self.deletion_protection,
        }
    }
}

/// Since when the requests of a table are paid one by one.
#[derive(Debug, Clone, Copy, PartialEq, Eq, Structural)]
pub struct BillingModeSummary {
    pub billing_mode: BillingMode,
    /// The time in milliseconds.
    pub last_update_to_pay_per_request: i64,
}

/// The summary of the billing of a table. One whose requests are paid one by
/// one counts as such since its creation; one with a fixed throughput has none.
pub open spec fn billing_summary_of(t: TableV) -> Option<BillingModeSummary> {
    match t.billing_mode {
        BillingMode::PayPerRequest => Some(
            BillingModeSummary {
                billing_mode: BillingMode::PayPerRequest,
                last_update_to_pay_per_request: t.creation_millis,
            },
        ),
        BillingMode::Provisioned => None,
    }
}

impl TableDescription {
    /// The summary of the billing of the table.
    pub fn billing_mode_summary(&self) -> (r: Option<BillingModeSummary>)
        ensures
            r == billing_summary_of(self@),
    {
        match self.billing_mode {
            BillingMode::PayPerRequest => Some(
                BillingModeSummary {
                    billing_mode: BillingMode::PayPerRequest,
                    last_update_to_pay_per_request: self.creation_millis,
                },
            ),
            BillingMode::Provisioned => None,
        }
    }
}

// --- Documents ---------------------------------------------------------------------

/// The stored name of a billing mode.
pub open spec fn billing_text(b: BillingMode) -> Seq<char> {
    match b {
        BillingMode::Provisioned => "PROVISIONED"@,
        BillingMode::PayPerRequest => "PAY_PER_REQUEST"@,
    }
}

/// The stored name of a billing mode.
pub fn billing_name(b: BillingMode) -> (r: &'static str)
    ensures
        r@ == billing_text(b),
{
    match b {
        BillingMode::Provisioned => "PROVISIONED",
        BillingMode::PayPerRequest => "PAY_PER_REQUEST",
    }
}

/// The stored name of a kind of index.
pub open spec fn index_type_text(t: IndexType) -> Seq<char> {
    match t {
        IndexType::Gsi => "GSI"@,
        IndexType::Lsi => "LSI"@,
    }
}

/// A text that may be absent, as a value.
pub open spec fn opt_text_bson(t: Option<Seq<char>>) -> BsonV {
    match t {
        Some(s) => BsonV::Str(s),
        None => BsonV::Null,
    }
}

/// The document of a table in the catalog.
pub open spec fn table_document_of(t: TableV, throughput: Option<ProvisionedThroughput>) -> DocV {
    doc1("_id"@, table_key(t.account_id, t.table_name)).with(
        "key_schema"@,
        schema_bson(t.key_schema),
    ).with("attribute_definitions"@, defs_bson(t.attribute_definitions)).with(
        "billing_mode"@,
        BsonV::Str(billing_text(t.billing_mode)),
    ).with("provisioned_throughput"@, opt_throughput_bson(throughput)).with(
        "stream_specification"@,
        opt_stream_spec_bson(t.stream_specification),
    ).with("table_status"@, BsonV::Str("ACTIVE"@)).with(
        "creation_date_time"@,
        BsonV::DateTime(t.creation_millis),
    ).with("table_size_bytes"@, BsonV::Int64(0)).with("item_count"@, BsonV::Int64(0)).with(
        "table_arn"@,
        BsonV::Str(t.table_arn),
    ).with("table_id"@, BsonV::Str(t.table_id)).with(
        "deletion_protection_enabled"@,
        BsonV::Boolean(t.deletion_protection),
    ).with("ttl_attribute"@, BsonV::Null).with("stream_label"@, opt_text_bson(t.stream_label)).with(
        "status_transition_at"@,
        BsonV::Null,
    ).with("ttl_index_ready"@, BsonV::Boolean(false))
}

/// The document of a new table.
pub fn table_document(t: &TableDescription, throughput: &Option<ProvisionedThroughput>) -> (r:
    Document)
    ensures
        r@ == table_document_of(t@, *throughput),
{
    let label = match &t.stream_label {
        Some(l) => Bson::text(l.as_str()),
        None => Bson::Null,
    };
    Document::new().with(
        "_id",
        table_id_value(t.account_id.as_str(), t.table_name.as_str()),
    ).with("key_schema", schema_to_bson(&t.key_schema)).with(
        "attribute_definitions",
        defs_to_bson(&t.attribute_definitions),
    ).with("billing_mode", Bson::text(billing_name(t.billing_mode))).with(
        "provisioned_throughput",
        throughput_to_bson(throughput),
    ).with("stream_specification", stream_spec_to_bson(&t.stream_specification)).with(
        "table_status",
        Bson::text("ACTIVE"),
    ).with("creation_date_time", Bson::DateTime(t.creation_millis)).with(
        "table_size_bytes",
        Bson::Int64(0),
    ).with("item_count", Bson::Int64(0)).with("table_arn", Bson::text(t.table_arn.as_str())).with(
        "table_id",
        Bson::text(t.table_id.as_str()),
    ).with("deletion_protection_enabled", Bson::Boolean(t.deletion_protection)).with(
        "ttl_attribute",
        Bson::Null,
    ).with("stream_label", label).with("status_transition_at", Bson::Null).with(
        "ttl_index_ready",
        Bson::Boolean(false),
    )
}

/// The document of an index in the catalog.
pub open spec fn index_document_of(
    table_id: Seq<char>,
    kind: IndexType,
    index_id: Seq<char>,
    d: IndexDescriptionV,
) -> DocV {
    doc1("_id"@, index_key(table_id, d.index_name)).with("index_id"@, BsonV::Str(index_id)).with(
        "index_type"@,
        BsonV::Str(index_type_text(kind)),
    ).with("key_schema"@, schema_bson(d.key_schema)).with(
        "projection"@,
        projection_bson(d.projection),
    ).with("index_status"@, BsonV::Str("ACTIVE"@)).with(
        "provisioned_throughput"@,
        opt_throughput_bson(d.throughput),
    )
}

/// What a new index is described as. A local index has no throughput of its
/// own.
pub open spec fn new_index(kind: IndexType, i: IndexSpec) -> IndexDescriptionV {
    IndexDescriptionV {
        index_name: i.index_name@,
        key_schema: schema_view(i.key_schema@),
        projection: i.projection@,
        index_status: "ACTIVE"@,
        throughput: match kind {
            IndexType::Gsi => i.throughput,
            IndexType::Lsi => None,
        },
    }
}

/// What a new index is described as.
pub fn describe_new_index(kind: IndexType, i: &IndexSpec) -> (r: IndexDescription)
    ensures
        r@ == new_index(kind, *i),
{
    IndexDescription {
        index_name: i.index_name.clone(),
        key_schema: copy_schema(&i.key_schema),
        projection: copy_projection(&i.projection),
        index_status: "ACTIVE".to_owned(),
        throughput: match kind {
            IndexType::Gsi => i.throughput,
            IndexType::Lsi => None,
        },
    }
}

/// The document of a new index.
pub fn index_document(table_id: &str, kind: IndexType, index_id: &str, i: &IndexSpec) -> (r:
    Document)
    ensures
        r@ == index_document_of(table_id@, kind, index_id@, new_index(kind, *i)),
{
    let t = match kind {
        IndexType::Gsi => "GSI",
        IndexType::Lsi => "LSI",
    };
    let throughput: Option<ProvisionedThroughput> = match kind {
        IndexType::Gsi => i.throughput,
        IndexType::Lsi => None,
    };
    Document::new().with("_id", index_id_value(table_id, i.index_name.as_str())).with(
        "index_id",
        Bson::text(index_id),
    ).with("index_type", Bson::text(t)).with("key_schema", schema_to_bson(&i.key_schema)).with(
        "projection",
        projection_to_bson(&i.projection),
    ).with("index_status", Bson::text("ACTIVE")).with(
        "provisioned_throughput",
        throughput_to_bson(&throughput),
    )
}

// --- Reading descriptions -------------------------------------------------------------

/// The status that a stored name stands for. An unknown name counts as
/// active.
pub open spec fn status_of(t: Seq<char>) -> TableStatus {
    if t == "CREATING"@ {
        TableStatus::Creating
    } else if t == "DELETING"@ {
        TableStatus::Deleting
    } else if t == "UPDATING"@ {
        TableStatus::Updating
    } else {
        TableStatus::Active
    }
}

fn read_status(t: &str) -> (r: TableStatus)
    ensures
        r == status_of(t@),
{
    if text_eq(t, "CREATING") {
        TableStatus::Creating
    } else if text_eq(t, "DELETING") {
        TableStatus::Deleting
    } else if text_eq(t, "UPDATING") {
        TableStatus::Updating
    } else {
        TableStatus::Active
    }
}

/// No throughput.
pub open spec fn no_throughput() -> ProvisionedThroughput {
    ProvisionedThroughput { read_capacity_units: 0, write_capacity_units: 0 }
}

/// A number under a name, or else zero.
pub open spec fn number_or_zero(d: DocV, k: Seq<char>) -> i64 {
    match d.get_i64(k) {
        Some(n) => n,
        None => 0,
    }
}

/// A point in time under a name, or else zero.
pub open spec fn time_or_zero(d: DocV, k: Seq<char>) -> i64 {
    match d.get_datetime(k) {
        Some(n) => n,
        None => 0,
    }
}

/// A truth value under a name, or else a default.
pub open spec fn bool_or(d: DocV, k: Seq<char>, default: bool) -> bool {
    match d.get_bool(k) {
        Some(b) => b,
        None => default,
    }
}

/// The table that a document describes, without its indexes.
pub open spec fn table_of(d: DocV) -> Result<TableV, ErrV> {
    match d.get_document("_id"@) {
        None => Err(ErrV::Internal("missing _id"@)),
        Some(id) => match id.get_str("table_name"@) {
            None => Err(ErrV::Internal("missing table_name"@)),
            Some(table_name) => match id.get_str("account_id"@) {
                None => Err(ErrV::Internal("missing account_id"@)),
                Some(account_id) => table_with_name(d, account_id, table_name),
            },
        },
    }
}

/// The table that a document describes, with a name.
pub open spec fn table_with_name(
    d: DocV,
    account_id: Seq<char>,
    table_name: Seq<char>,
) -> Result<TableV, ErrV> {
    match d.get_str("table_id"@) {
        None => Err(ErrV::Internal("missing table_id"@)),
        Some(table_id) => match d.get_str("table_arn"@) {
            None => Err(ErrV::Internal("missing table_arn"@)),
            Some(table_arn) => match d.get("key_schema"@) {
                None => Err(ErrV::Internal("missing key_schema"@)),
                Some(ks) => match schema_of(ks) {
                    None => Err(ErrV::Internal("key_schema: not a key schema"@)),
                    Some(key_schema) => match d.get("attribute_definitions"@) {
                        None => Err(ErrV::Internal("missing attribute_definitions"@)),
                        Some(ad) => match defs_of(ad) {
                            None => Err(
                                ErrV::Internal("attr_defs: not attribute definitions"@),
                            ),
                            Some(attribute_definitions) => Ok(
                                TableV {
                                    account_id,
                                    table_name,
                                    key_schema,
                                    attribute_definitions,
                                    table_status: status_of(
                                        d.str_or("table_status"@, "ACTIVE"@),
                                    ),
                                    creation_millis: time_or_zero(d, "creation_date_time"@),
                                    table_size_bytes: number_or_zero(d, "table_size_bytes"@),
                                    item_count: number_or_zero(d, "item_count"@),
                                    table_arn,
                                    table_id,
                                    throughput: match throughput_of(
                                        d.get("provisioned_throughput"@),
                                    ) {
                                        Some(t) => t,
                                        None => no_throughput(),
                                    },
                                    billing_mode: if d.str_or("billing_mode"@, "PROVISIONED"@)
                                        == "PAY_PER_REQUEST"@ {
                                        BillingMode::PayPerRequest
                                    } else {
                                        BillingMode::Provisioned
                                    },
                                    global_indexes: None,
                                    local_indexes: None,
                                    stream_specification: stream_spec_of(
                                        d.get("stream_specification"@),
                                    ),
                                    stream_label: d.get_str("stream_label"@),
                                    deletion_protection: bool_or(
                                        d,
                                        "deletion_protection_enabled"@,
                                        false,
                                    ),
                                },
                            ),
                        },
                    },
                },
            },
        },
    }
}

/// Reads the description of a table, without its indexes.
pub fn read_table(d: &Document) -> (r: Result<TableDescription, StorageError>)
    ensures
        match r {
            Ok(t) => table_of(d@) == Ok::<TableV, ErrV>(t@),
            Err(e) => table_of(d@) == Err::<TableV, ErrV>(e@),
        },
{
    let id = match d.get_document("_id") {
        Some(id) => id,
        None => {
            return Err(StorageError::internal("missing _id"));
        },
    };
    let table_name = match id.get_str("table_name") {
        Some(s) => s.to_owned(),
        None => {
            return Err(StorageError::internal("missing table_name"));
        },
    };
    let account_id = match id.get_str("account_id") {
        Some(s) => s.to_owned(),
        None => {
            return Err(StorageError::internal("missing account_id"));
        },
    };
    let table_id = match d.get_str("table_id") {
        Some(s) => s.to_owned(),
        None => {
            return Err(StorageError::internal("missing table_id"));
        },
    };
    let table_arn = match d.get_str("table_arn") {
        Some(s) => s.to_owned(),
        None => {
            return Err(StorageError::internal("missing table_arn"));
        },
    };
    let key_schema = match d.get("key_schema") {
        Some(b) => match read_schema(b) {
            Some(s) => s,
            None => {
                return Err(StorageError::internal("key_schema: not a key schema"));
            },
        },
        None => {
            return Err(StorageError::internal("missing key_schema"));
        },
    };
    let attribute_definitions = match d.get("attribute_definitions") {
        Some(b) => match read_defs(b) {
            Some(s) => s,
            None => {
                return Err(StorageError::internal("attr_defs: not attribute definitions"));
            },
        },
        None => {
            return Err(StorageError::internal("missing attribute_definitions"));
        },
    };
    let status = d.str_or("table_status", "ACTIVE");
    let billing = d.str_or("billing_mode", "PROVISIONED");
    let creation_millis: i64 = match d.get_datetime("creation_date_time") {
        Some(t) => t,
        None => 0,
    };
    let table_size_bytes: i64 = match d.get_i64("table_size_bytes") {
        Some(n) => n,
        None => 0,
    };
    let item_count: i64 = match d.get_i64("item_count") {
        Some(n) => n,
        None => 0,
    };
    let deletion_protection = match d.get_bool("deletion_protection_enabled") {
        Some(b) => b,
        None => false,
    };
    let throughput = match read_throughput(d, "provisioned_throughput") {
        Some(t) => t,
        None => ProvisionedThroughput { read_capacity_units: 0, write_capacity_units: 0 },
    };
    let billing_mode = if text_eq(billing.as_str(), "PAY_PER_REQUEST") {
        BillingMode::PayPerRequest
    } else {
        BillingMode::Provisioned
    };
    let stream_label = match d.get_str("stream_label") {
        Some(s) => Some(s.to_owned()),
        None => None,
    };
    Ok(
        TableDescription {
            account_id,
            table_name,
            key_schema,
            attribute_definitions,
            table_status: read_status(status.as_str()),
            creation_millis,
            table_size_bytes,
            item_count,
            table_arn,
            table_id,
            throughput,
            billing_mode,
            global_indexes: None,
            local_indexes: None,
            stream_specification: read_stream_spec(d, "stream_specification"),
            stream_label,
            deletion_protection,
        },
    )
}

/// The index that a document describes, with the stored name of its kind.
pub open spec fn index_of(d: DocV) -> Result<(Seq<char>, IndexDescriptionV), ErrV> {
    match d.get_document("_id"@) {
        None => Err(ErrV::Internal("missing index _id"@)),
        Some(id) => match id.get_str("index_name"@) {
            None => Err(ErrV::Internal("missing index_name"@)),
            Some(index_name) => match d.get("key_schema"@) {
                None => Err(ErrV::Internal("missing index key_schema"@)),
                Some(ks) => match schema_of(ks) {
                    None => Err(ErrV::Internal("index key_schema: not a key schema"@)),
                    Some(key_schema) => match d.get("projection"@) {
                        None => Err(ErrV::Internal("missing index projection"@)),
                        Some(p) => match projection_of(p) {
                            None => Err(ErrV::Internal("index projection: not a projection"@)),
                            Some(projection) => Ok(
                                (
                                    d.str_or("index_type"@, "GSI"@),
                                    IndexDescriptionV {
                                        index_name,
                                        key_schema,
                                        projection,
                                        index_status: d.str_or("index_status"@, "ACTIVE"@),
                                        throughput: throughput_of(
                                            d.get("provisioned_throughput"@),
                                        ),
                                    },
                                ),
                            ),
                        },
                    },
                },
            },
        },
    }
}

/// The global and the local indexes that the first `n` documents describe. A
/// local index has no status and no throughput of its own.
pub open spec fn indexes_to(docs: Seq<DocV>, n: nat) -> Result<
    (Seq<IndexDescriptionV>, Seq<IndexDescriptionV>),
    ErrV,
>
    decreases n,
{
    if n == 0 {
        Ok((Seq::empty(), Seq::empty()))
    } else {
        match indexes_to(docs, (n - 1) as nat) {
            Err(e) => Err(e),
            Ok((g, l)) => match index_of(docs[n - 1]) {
                Err(e) => Err(e),
                Ok((kind, i)) => if kind == "GSI"@ {
                    Ok((g.push(i), l))
                } else if kind == "LSI"@ {
                    Ok(
                        (
                            g,
                            l.push(
                                IndexDescriptionV {
                                    index_status: "ACTIVE"@,
                                    throughput: None,
                                    ..i
                                },
                            ),
                        ),
                    )
                } else {
                    Ok((g, l))
                },
            },
        }
    }
}

/// A list that is left out where it is empty.
pub open spec fn if_any(s: Seq<IndexDescriptionV>) -> Option<Seq<IndexDescriptionV>> {
    if s.len() == 0 {
        None
    } else {
        Some(s)
    }
}

/// The table with the indexes that documents describe.
pub open spec fn with_indexes(t: TableV, docs: Seq<DocV>) -> Result<TableV, ErrV> {
    match indexes_to(docs, docs.len()) {
        Err(e) => Err(e),
        Ok((g, l)) => Ok(
            TableV { global_indexes: if_any(g), local_indexes: if_any(l), ..t },
        ),
    }
}

fn read_index(d: &Document) -> (r: Result<(String, IndexDescription), StorageError>)
    ensures
        match r {
            Ok(i) => index_of(d@) == Ok::<(Seq<char>, IndexDescriptionV), ErrV>((i.0@, i.1@)),
            Err(e) => index_of(d@) == Err::<(Seq<char>, IndexDescriptionV), ErrV>(e@),
        },
{
    let id = match d.get_document("_id") {
        Some(id) => id,
        None => {
            return Err(StorageError::internal("missing index _id"));
        },
    };
    let index_name = match id.get_str("index_name") {
        Some(s) => s.to_owned(),
        None => {
            return Err(StorageError::internal("missing index_name"));
        },
    };
    let key_schema = match d.get("key_schema") {
        Some(b) => match read_schema(b) {
            Some(s) => s,
            None => {
                return Err(StorageError::internal("index key_schema: not a key schema"));
            },
        },
        None => {
            return Err(StorageError::internal("missing index key_schema"));
        },
    };
    let projection = match d.get("projection") {
        Some(b) => match read_projection(b) {
            Some(p) => p,
            None => {
                return Err(StorageError::internal("index projection: not a projection"));
            },
        },
        None => {
            return Err(StorageError::internal("missing index projection"));
        },
    };
    Ok(
        (
            d.str_or("index_type", "GSI"),
            IndexDescription {
                index_name,
                key_schema,
                projection,
                index_status: d.str_or("index_status", "ACTIVE"),
                throughput: read_throughput(d, "provisioned_throughput"),
            },
        ),
    )
}

proof fn lemma_indexes_error(docs: Seq<DocV>, i: nat, n: nat, e: ErrV)
    requires
        i < n,
        indexes_to(docs, i + 1) == Err::<(Seq<IndexDescriptionV>, Seq<IndexDescriptionV>), ErrV>(
            e,
        ),
    ensures
        indexes_to(docs, n) == Err::<(Seq<IndexDescriptionV>, Seq<IndexDescriptionV>), ErrV>(e),
    decreases n,
{
    if i + 1 < n {
        lemma_indexes_error(docs, i, (n - 1) as nat, e);
    }
}

/// Adds the indexes that documents describe to the description of a table.
pub fn add_indexes(t: TableDescription, docs: &Vec<Document>) -> (r: Result<
    TableDescription,
    StorageError,
>)
    ensures
        match r {
            Ok(x) => with_indexes(t@, doc_seq(docs@)) == Ok::<TableV, ErrV>(x@),
            Err(e) => with_indexes(t@, doc_seq(docs@)) == Err::<TableV, ErrV>(e@),
        },
{
    let ghost ds = doc_seq(docs@);
    let mut gsis: Vec<IndexDescription> = Vec::new();
    let mut lsis: Vec<IndexDescription> = Vec::new();
    let mut i: usize = 0;
    assert(index_seq(gsis@) =~= Seq::empty());
    while i < docs.len()
        invariant
            i <= docs.len(),
            ds == doc_seq(docs@),
            indexes_to(ds, i as nat) == Ok::<
                (Seq<IndexDescriptionV>, Seq<IndexDescriptionV>),
                ErrV,
            >((index_seq(gsis@), index_seq(lsis@))),
        decreases docs.len() - i,
    {
        assert(ds[i as int] == docs@[i as int]@);
        match read_index(&docs[i]) {
            Err(e) => {
                proof {
                    lemma_indexes_error(ds, i as nat, ds.len(), e@);
                }
                return Err(e);
            },
            Ok((kind, x)) => {
                let ghost bg = gsis@;
                let ghost bl = lsis@;
                if text_eq(kind.as_str(), "GSI") {
                    gsis.push(x);
                    assert(index_seq(gsis@) =~= index_seq(bg).push(x@));
                } else if text_eq(kind.as_str(), "LSI") {
                    let y = IndexDescription {
                        index_name: x.index_name,
                        key_schema: x.key_schema,
                        projection: x.projection,
                        index_status: "ACTIVE".to_owned(),
                        throughput: None,
                    };
                    lsis.push(y);
                    assert(index_seq(lsis@) =~= index_seq(bl).push(y@));
                }
            },
        }
        i += 1;
    }
    let mut t = t;
    t.global_indexes = if gsis.len() == 0 {
        None
    } else {
        Some(gsis)
    };
    t.local_indexes = if lsis.len() == 0 {
        None
    } else {
        Some(lsis)
    };
    Ok(t)
}

// --- Laws --------------------------------------------------------------------------

/// Reading the document of a new table gives the table back, without its
/// indexes.
#[verifier::rlimit(60)]
#[verifier::spinoff_prover]
pub proof fn law_table_document_reads_back(t: TableV, throughput: Option<ProvisionedThroughput>)
    requires
        t.table_status == TableStatus::Active,
        t.table_size_bytes == 0,
        t.item_count == 0,
        t.global_indexes is None,
        t.local_indexes is None,
        t.throughput == (match throughput {
            Some(x) => x,
            None => no_throughput(),
        }),
    ensures
        table_of(table_document_of(t, throughput)) == Ok::<TableV, ErrV>(t),
{
    broadcast use crate::bson::group_document_fields;

    crate::schema_json::law_schema_round_trip(t.key_schema);
    crate::schema_json::law_definitions_round_trip(t.attribute_definitions);
    crate::schema_json::law_throughput_round_trip(throughput);
    crate::schema_json::law_stream_settings_round_trip(t.stream_specification);
    reveal_strlit("_id");
    reveal_strlit("account_id");
    reveal_strlit("table_name");
    reveal_strlit("key_schema");
    reveal_strlit("attribute_definitions");
    reveal_strlit("billing_mode");
    reveal_strlit("provisioned_throughput");
    reveal_strlit("stream_specification");
    reveal_strlit("table_status");
    reveal_strlit("creation_date_time");
    reveal_strlit("table_size_bytes");
    reveal_strlit("item_count");
    reveal_strlit("table_arn");
    reveal_strlit("table_id");
    reveal_strlit("deletion_protection_enabled");
    reveal_strlit("ttl_attribute");
    reveal_strlit("stream_label");
    reveal_strlit("status_transition_at");
    reveal_strlit("ttl_index_ready");
    reveal_strlit("ACTIVE");
    reveal_strlit("CREATING");
    reveal_strlit("DELETING");
    reveal_strlit("UPDATING");
    reveal_strlit("PROVISIONED");
    reveal_strlit("PAY_PER_REQUEST");
    assert("_id"@.len() == 3 && "account_id"@.len() == 10 && "table_name"@.len() == 10);
    assert("account_id"@[0] == 'a' && "table_name"@[0] == 't');
    assert("key_schema"@.len() == 10 && "item_count"@.len() == 10);
    assert("key_schema"@[0] == 'k' && "item_count"@[0] == 'i');
    assert("attribute_definitions"@.len() == 21 && "provisioned_throughput"@.len() == 22);
    assert("billing_mode"@.len() == 12 && "table_status"@.len() == 12 && "stream_label"@.len()
        == 12);
    assert("billing_mode"@[0] == 'b' && "table_status"@[0] == 't' && "stream_label"@[0] == 's');
    assert("stream_specification"@.len() == 20 && "creation_date_time"@.len() == 18);
    assert("status_transition_at"@.len() == 20 && "ttl_index_ready"@.len() == 15);
    assert("stream_specification"@[2] == 'r' && "status_transition_at"@[2] == 'a');
    assert("table_size_bytes"@.len() == 16 && "table_arn"@.len() == 9 && "table_id"@.len() == 8);
    assert("deletion_protection_enabled"@.len() == 27 && "ttl_attribute"@.len() == 13);
    assert("ACTIVE"@.len() == 6 && "CREATING"@.len() == 8 && "DELETING"@.len() == 8
        && "UPDATING"@.len() == 8);
    assert("PROVISIONED"@.len() == 11 && "PAY_PER_REQUEST"@.len() == 15);
}

/// Reading the document of a new index gives the index back.
#[verifier::rlimit(40)]
#[verifier::spinoff_prover]
pub proof fn law_index_document_reads_back(
    table_id: Seq<char>,
    kind: IndexType,
    index_id: Seq<char>,
    i: IndexSpec,
)
    ensures
        index_of(index_document_of(table_id, kind, index_id, new_index(kind, i))) == Ok::<
            (Seq<char>, IndexDescriptionV),
            ErrV,
        >((index_type_text(kind), new_index(kind, i))),
{
    broadcast use crate::bson::group_document_fields;

    let d = new_index(kind, i);
    crate::schema_json::law_schema_round_trip(d.key_schema);
    crate::schema_json::law_projection_round_trip(d.projection);
    crate::schema_json::law_throughput_round_trip(d.throughput);
    reveal_strlit("_id");
    reveal_strlit("table_id");
    reveal_strlit("index_name");
    reveal_strlit("index_id");
    reveal_strlit("index_type");
    reveal_strlit("key_schema");
    reveal_strlit("projection");
    reveal_strlit("index_status");
    reveal_strlit("provisioned_throughput");
    assert("_id"@.len() == 3 && "table_id"@.len() == 8 && "index_id"@.len() == 8);
    assert("index_name"@.len() == 10 && "index_type"@.len() == 10 && "key_schema"@.len() == 10
        && "projection"@.len() == 10);
    assert("index_type"@[0] == 'i' && "key_schema"@[0] == 'k' && "projection"@[0] == 'p');
    assert("index_status"@.len() == 12 && "provisioned_throughput"@.len() == 22);
}

/// The global indexes among documents of indexes.
pub open spec fn globals(docs: Seq<DocV>) -> Seq<IndexDescriptionV>
    decreases docs.len(),
{
    if docs.len() == 0 {
        Seq::empty()
    } else {
        globals(docs.drop_last()) + global_in(docs.last())
    }
}

/// The local indexes among documents of indexes.
pub open spec fn locals(docs: Seq<DocV>) -> Seq<IndexDescriptionV>
    decreases docs.len(),
{
    if docs.len() == 0 {
        Seq::empty()
    } else {
        locals(docs.drop_last()) + local_in(docs.last())
    }
}

/// The global index that a document describes, if it does.
pub open spec fn global_in(d: DocV) -> Seq<IndexDescriptionV> {
    match index_of(d) {
        Ok((kind, i)) => if kind == "GSI"@ {
            seq![i]
        } else {
            Seq::empty()
        },
        Err(_) => Seq::empty(),
    }
}

/// The local index that a document describes, if it does.
pub open spec fn local_in(d: DocV) -> Seq<IndexDescriptionV> {
    match index_of(d) {
        Ok((kind, i)) => if kind != "GSI"@ && kind == "LSI"@ {
            seq![IndexDescriptionV { index_status: "ACTIVE"@, throughput: None, ..i }]
        } else {
            Seq::empty()
        },
        Err(_) => Seq::empty(),
    }
}

/// All documents describe indexes.
pub open spec fn all_indexes(docs: Seq<DocV>) -> bool {
    forall|i: int| 0 <= i < docs.len() ==> (#[trigger] index_of(docs[i])) is Ok
}

/// What is read from documents of indexes are the global and the local ones
/// among them.
pub proof fn lemma_indexes_parted(docs: Seq<DocV>, n: nat)
    requires
        n <= docs.len(),
        all_indexes(docs),
    ensures
        indexes_to(docs, n) == Ok::<(Seq<IndexDescriptionV>, Seq<IndexDescriptionV>), ErrV>(
            (globals(docs.take(n as int)), locals(docs.take(n as int))),
        ),
    decreases n,
{
    let t = docs.take(n as int);
    if n > 0 {
        lemma_indexes_parted(docs, (n - 1) as nat);
        assert(t.drop_last() =~= docs.take(n - 1));
        assert(t.last() == docs[n - 1]);
        assert(index_of(docs[n - 1]) is Ok);
        let g = globals(docs.take(n - 1));
        let l = locals(docs.take(n - 1));
        assert(g + Seq::<IndexDescriptionV>::empty() =~= g);
        assert(l + Seq::<IndexDescriptionV>::empty() =~= l);
        let (kind, i) = index_of(docs[n - 1])->Ok_0;
        assert(g + seq![i] =~= g.push(i));
        let x = IndexDescriptionV { index_status: "ACTIVE"@, throughput: None, ..i };
        assert(l + seq![x] =~= l.push(x));
    }
}

/// Taking a document out of the list takes its index out.
proof fn lemma_index_removed(docs: Seq<DocV>, j: int)
    requires
        0 <= j < docs.len(),
    ensures
        globals(docs).to_multiset() == globals(docs.remove(j)).to_multiset().add(
            global_in(docs[j]).to_multiset(),
        ),
        locals(docs).to_multiset() == locals(docs.remove(j)).to_multiset().add(
            local_in(docs[j]).to_multiset(),
        ),
    decreases docs.len(),
{
    broadcast use vstd::seq_lib::group_to_multiset_ensures;

    let last = docs.len() - 1;
    let rest = docs.remove(j);
    vstd::seq_lib::lemma_multiset_commutative(globals(docs.drop_last()), global_in(docs.last()));
    vstd::seq_lib::lemma_multiset_commutative(locals(docs.drop_last()), local_in(docs.last()));
    if j == last {
        assert(rest =~= docs.drop_last());
    } else {
        lemma_index_removed(docs.drop_last(), j);
        assert(rest.drop_last() =~= docs.drop_last().remove(j));
        assert(rest.last() == docs.last());
        vstd::seq_lib::lemma_multiset_commutative(
            globals(rest.drop_last()),
            global_in(rest.last()),
        );
        vstd::seq_lib::lemma_multiset_commutative(locals(rest.drop_last()), local_in(rest.last()));
        let a = globals(rest.drop_last()).to_multiset();
        assert(a.add(global_in(docs[j]).to_multiset()).add(global_in(docs.last()).to_multiset())
            =~= a.add(global_in(docs.last()).to_multiset()).add(
            global_in(docs[j]).to_multiset(),
        ));
        let b = locals(rest.drop_last()).to_multiset();
        assert(b.add(local_in(docs[j]).to_multiset()).add(local_in(docs.last()).to_multiset())
            =~= b.add(local_in(docs.last()).to_multiset()).add(local_in(docs[j]).to_multiset()));
    }
}

/// The order in which the documents of indexes come changes only the order of
/// the indexes.
pub proof fn law_index_order_is_free(a: Seq<DocV>, b: Seq<DocV>)
    requires
        a.to_multiset() == b.to_multiset(),
    ensures
        globals(a).to_multiset() == globals(b).to_multiset(),
        locals(a).to_multiset() == locals(b).to_multiset(),
    decreases a.len(),
{
    broadcast use vstd::seq_lib::group_to_multiset_ensures;

    assert(a.to_multiset().len() == a.len() && b.to_multiset().len() == b.len());
    if a.len() > 0 {
        let d = a.last();
        assert(a.contains(d));
        assert(a.to_multiset().contains(d));
        assert(b.contains(d));
        let j = choose|j: int| 0 <= j < b.len() && b[j] == d;
        assert(a.drop_last() =~= a.remove(a.len() - 1));
        law_index_order_is_free(a.drop_last(), b.remove(j));
        lemma_index_removed(a, a.len() - 1);
        lemma_index_removed(b, j);
    }
}

} // verus!
