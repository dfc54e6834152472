//! Backups of tables, and restoring tables from them.

use vstd::prelude::*;
use vstd::string::*;

use crate::bson::{
    copy_bson, doc1, doc_seq, obj1, opt_string, opt_text, Bson, BsonV, DocV, Document,
};
use crate::catalog::{table_filter, table_filter_of};
use crate::create_table::CreateTable;
use crate::data::{collection_name, data_collection_name, document_item, item_document, ItemKey};
use crate::encoding::{decimal128_text, show_decimal128};
use crate::error::{ErrV, StorageError};
use crate::item::ItemV;
use crate::number::{nat_text, u128_text, u64_text};
use crate::protocol::{
    fail_unexpected, fails, in_catalog, in_data, run, runs, sorted_by, unexpected, unpaged,
    ActionV, Command, CommandV, Event, Paging, Place, Reply, Step,
};
use crate::schema::{
    schema_view, AttributeDefinition, KeySchemaElement, KeyType, ScalarAttributeType,
};
use crate::schema_json::{
    defs_of, defs_view, read_defs, read_schema, schema_of, ProvisionedThroughput,
};
use crate::script::{
    add_line, line_seq, must, no_lines, script_goes_on, script_next, script_start, turns_to, Line,
    Script, Turn,
};
use crate::table::{number_or_zero, time_or_zero, BillingMode, TableDescription};
use crate::text::{join2, join3, text_eq};
use crate::ttl::active_table_of;

verus! {

/// The name of the backup that a restore to a point in time goes through.
pub fn point_in_time_backup_name() -> (r: &'static str)
    ensures
        r@ == "__pitr_restore__"@,
{
    "__pitr_restore__"
}

/// The properties of a backup.
#[derive(Debug, PartialEq)]
pub struct BackupDetails {
    pub backup_arn: String,
    pub backup_name: String,
    pub backup_status: String,
    pub backup_type: String,
    pub backup_size_bytes: i64,
    /// The time of the backup in milliseconds.
    pub creation_millis: i128,
}

/// The model of the properties of a backup.
#[verifier::ext_equal]
pub struct DetailsV {
    pub backup_arn: Seq<char>,
    pub backup_name: Seq<char>,
    pub backup_status: Seq<char>,
    pub backup_type: Seq<char>,
    pub backup_size_bytes: i64,
    pub creation_millis: i128,
}

impl View for BackupDetails {
    type V = DetailsV;

    open spec fn view(&self) -> DetailsV {
        DetailsV {
            backup_arn: self.backup_arn@,
            backup_name: self.backup_name@,
            backup_status: self.backup_status@,
            backup_type: self.backup_type@,
            backup_size_bytes: self.backup_size_bytes,
            creation_millis: self.creation_millis,
        }
    }
}

// --- Copies of items -----------------------------------------------------------------

/// A value, or null where it is absent.
pub open spec fn or_null(b: Option<BsonV>) -> BsonV {
    match b {
        Some(v) => v,
        None => BsonV::Null,
    }
}

/// The copy of the document of an item in a backup.
pub open spec fn backup_copy(arn: Seq<char>, d: DocV) -> DocV {
    let c = doc1("backup_arn"@, BsonV::Str(arn)).with(
        "item_data"@,
        or_null(d.get("item_data"@)),
    ).with("pk"@, BsonV::Str(d.str_or("pk"@, ""@)));
    let c = match d.get("_id"@) {
        Some(id) => c.with("item_id"@, id),
        None => c,
    };
    match d.get_str("sk_s"@) {
        Some(s) => c.with("sk"@, BsonV::Str(s)),
        None => match d.get("sk_n"@) {
            Some(n) => c.with("sk_n"@, n),
            None => match d.get("sk_b"@) {
                Some(b) => c.with("sk_b"@, b),
                None => c,
            },
        },
    }
}

/// The text of a numeric sort key in the `_id` of a document.
pub open spec fn number_text(b: BsonV) -> Option<Seq<char>> {
    match b {
        BsonV::Decimal128(d) => if d.len() == 16 {
            Some(decimal128_text(d))
        } else {
            None
        },
        BsonV::Double(t) => Some(t),
        _ => None,
    }
}

/// The `_id` of the item that a copy without one stands for: the partition
/// key, with the sort key behind it where that is a text or a number.
pub open spec fn copied_id(c: DocV) -> Seq<char> {
    let pk = c.str_or("pk"@, ""@);
    match c.get_str("sk"@) {
        Some(s) => pk + "#"@ + s,
        None => match c.get("sk_n"@) {
            Some(n) => match number_text(n) {
                Some(t) => pk + "#"@ + t,
                None => pk,
            },
            None => pk,
        },
    }
}

/// The document of an item that is restored from its copy in a backup.
pub open spec fn restored(c: DocV) -> DocV {
    let d = match c.get("pk"@) {
        Some(pk) => DocV::empty().with("pk"@, pk),
        None => DocV::empty(),
    };
    let d = match c.get("item_data"@) {
        Some(data) => d.with("item_data"@, data),
        None => d,
    };
    let d = match c.get_str("sk"@) {
        Some(s) => d.with("sk_s"@, BsonV::Str(s)),
        None => match c.get("sk_n"@) {
            Some(n) => d.with("sk_n"@, n),
            None => match c.get("sk_b"@) {
                Some(b) => d.with("sk_b"@, b),
                None => d,
            },
        },
    };
    d.with(
        "_id"@,
        match c.get("item_id"@) {
            Some(id) => id,
            None => BsonV::Str(copied_id(c)),
        },
    )
}

/// Copies the document of an item for a backup.
pub fn copy_for_backup(arn: &str, d: &Document) -> (r: Document)
    ensures
        r@ == backup_copy(arn@, d@),
{
    let data = match d.get("item_data") {
        Some(b) => copy_bson(b),
        None => Bson::Null,
    };
    let mut c = Document::new().with("backup_arn", Bson::text(arn)).with("item_data", data).with(
        "pk",
        Bson::String(d.str_or("pk", "")),
    );
    if let Some(id) = d.get("_id") {
        c.insert("item_id", copy_bson(id));
    }
    if let Some(s) = d.get_str("sk_s") {
        c.insert("sk", Bson::text(s));
    } else if let Some(n) = d.get("sk_n") {
        c.insert("sk_n", copy_bson(n));
    } else if let Some(b) = d.get("sk_b") {
        c.insert("sk_b", copy_bson(b));
    }
    c
}

fn build_copied_id(c: &Document) -> (r: String)
    ensures
        r@ == copied_id(c@),
{
    let pk = c.str_or("pk", "");
    if let Some(s) = c.get_str("sk") {
        return join3(pk.as_str(), "#", s);
    }
    match c.get("sk_n") {
        Some(Bson::Decimal128(b)) => {
            if b.len() == 16 {
                let t = show_decimal128(b);
                return join3(pk.as_str(), "#", t.as_str());
            }
            pk
        },
        Some(Bson::Double(t)) => join3(pk.as_str(), "#", t.as_str()),
        _ => pk,
    }
}

/// Restores the document of an item from its copy in a backup.
pub fn restore_from_copy(c: &Document) -> (r: Document)
    ensures
        r@ == restored(c@),
{
    let mut d = Document::new();
    if let Some(pk) = c.get("pk") {
        d.insert("pk", copy_bson(pk));
    }
    if let Some(data) = c.get("item_data") {
        d.insert("item_data", copy_bson(data));
    }
    if let Some(s) = c.get_str("sk") {
        d.insert("sk_s", Bson::text(s));
    } else if let Some(n) = c.get("sk_n") {
        d.insert("sk_n", copy_bson(n));
    } else if let Some(b) = c.get("sk_b") {
        d.insert("sk_b", copy_bson(b));
    }
    let id = match c.get("item_id") {
        Some(id) => copy_bson(id),
        None => Bson::String(build_copied_id(c)),
    };
    d.insert("_id", id);
    d
}

// --- Creating a backup ---------------------------------------------------------------

/// A backup that is to be created.
#[derive(Debug, PartialEq)]
pub struct CreateBackup {
    pub account_id: String,
    pub table_name: String,
    pub backup_name: String,
    pub region: String,
    /// The time in milliseconds, by which the backup is named.
    pub epoch_millis: u128,
    /// The time in milliseconds.
    pub now_millis: i64,
    /// The time in seconds.
    pub now_secs: u64,
}

/// The resource name of a backup.
pub open spec fn backup_arn_of(q: CreateBackup) -> Seq<char> {
    "arn:aws:dynamodb:"@ + q.region@ + ":"@ + q.account_id@ + ":table/"@ + q.table_name@
        + "/backup/"@ + nat_text(q.epoch_millis as nat)
}

fn backup_arn(q: &CreateBackup) -> (r: String)
    ensures
        r@ == backup_arn_of(*q),
{
    let mut s = join3("arn:aws:dynamodb:", q.region.as_str(), ":");
    s.append(q.account_id.as_str());
    s.append(":table/");
    s.append(q.table_name.as_str());
    s.append("/backup/");
    let n = u128_text(q.epoch_millis);
    s.append(n.as_str());
    s
}

/// What a backup keeps of its table.
#[derive(Debug, PartialEq)]
pub struct Source {
    pub table_id: String,
    pub table_arn: String,
    pub key_schema: Bson,
    pub attribute_definitions: Bson,
    pub billing_mode: String,
    pub table_size: i64,
}

/// The model of what a backup keeps of its table.
#[verifier::ext_equal]
pub struct SourceV {
    pub table_id: Seq<char>,
    pub table_arn: Seq<char>,
    pub key_schema: BsonV,
    pub attribute_definitions: BsonV,
    pub billing_mode: Seq<char>,
    pub table_size: i64,
}

impl View for Source {
    type V = SourceV;

    open spec fn view(&self) -> SourceV {
        SourceV {
            table_id: self.table_id@,
            table_arn: self.table_arn@,
            key_schema: self.key_schema@,
            attribute_definitions: self.attribute_definitions@,
            billing_mode: self.billing_mode@,
            table_size: self.table_size,
        }
    }
}

/// The list under a name.
pub open spec fn list_under(d: DocV, k: Seq<char>) -> Option<BsonV> {
    match d.get_array(k) {
        Some(a) => Some(BsonV::Array(a)),
        None => None,
    }
}

fn copy_list(d: &Document, k: &str) -> (r: Option<Bson>)
    ensures
        match r {
            Some(b) => list_under(d@, k@) == Some(b@),
            None => list_under(d@, k@) is None,
        },
{
    match d.get_array(k) {
        Some(a) => {
            let mut out: Vec<Bson> = Vec::new();
            let mut i: usize = 0;
            while i < a.len()
                invariant
                    i <= a.len(),
                    out@.len() == i,
                    forall|j: int| 0 <= j < i ==> (#[trigger] out@[j])@ == a@[j]@,
                decreases a.len() - i,
            {
                out.push(copy_bson(&a[i]));
                i += 1;
            }
            assert(crate::bson::bson_seq(out@) =~= crate::bson::bson_seq(a@));
            Some(Bson::array(out))
        },
        None => None,
    }
}

/// What a backup keeps of the table that a document describes.
pub open spec fn source_of(d: DocV) -> Result<SourceV, ErrV> {
    match d.get_str("table_id"@) {
        None => Err(ErrV::Internal("missing table_id"@)),
        Some(table_id) => match list_under(d, "key_schema"@) {
            None => Err(ErrV::Internal("missing key_schema"@)),
            Some(key_schema) => match list_under(d, "attribute_definitions"@) {
                None => Err(ErrV::Internal("missing attribute_definitions"@)),
                Some(attribute_definitions) => Ok(
                    SourceV {
                        table_id,
                        table_arn: d.str_or("table_arn"@, ""@),
                        key_schema,
                        attribute_definitions,
                        billing_mode: d.str_or("billing_mode"@, "PAY_PER_REQUEST"@),
                        table_size: number_or_zero(d, "table_size_bytes"@),
                    },
                ),
            },
        },
    }
}

fn read_source(d: &Document) -> (r: Result<Source, StorageError>)
    ensures
        match r {
            Ok(s) => source_of(d@) == Ok::<SourceV, ErrV>(s@),
            Err(e) => source_of(d@) == Err::<SourceV, ErrV>(e@),
        },
{
    let table_id = match d.get_str("table_id") {
        Some(s) => s.to_owned(),
        None => {
            return Err(StorageError::internal("missing table_id"));
        },
    };
    let key_schema = match copy_list(d, "key_schema") {
        Some(b) => b,
        None => {
            return Err(StorageError::internal("missing key_schema"));
        },
    };
    let attribute_definitions = match copy_list(d, "attribute_definitions") {
        Some(b) => b,
        None => {
            return Err(StorageError::internal("missing attribute_definitions"));
        },
    };
    let table_size: i64 = match d.get_i64("table_size_bytes") {
        Some(n) => n,
        None => 0,
    };
    Ok(
        Source {
            table_id,
            table_arn: d.str_or("table_arn", ""),
            key_schema,
            attribute_definitions,
            billing_mode: d.str_or("billing_mode", "PAY_PER_REQUEST"),
            table_size,
        },
    )
}

/// The document of a backup.
pub open spec fn backup_document_of(q: CreateBackup, s: SourceV, count: nat) -> DocV {
    doc1("_id"@, BsonV::Str(backup_arn_of(q))).with("backup_name"@, BsonV::Str(q.backup_name@)).with(
        "backup_status"@,
        BsonV::Str("AVAILABLE"@),
    ).with("backup_type"@, BsonV::Str("USER"@)).with("table_id"@, BsonV::Str(s.table_id)).with(
        "table_name"@,
        BsonV::Str(q.table_name@),
    ).with("table_arn"@, BsonV::Str(s.table_arn)).with("account_id"@, BsonV::Str(q.account_id@)).with(
        "backup_size_bytes"@,
        BsonV::Int64(s.table_size),
    ).with("item_count"@, BsonV::Int64(count as i64)).with("key_schema"@, s.key_schema).with(
        "attribute_definitions"@,
        s.attribute_definitions,
    ).with("billing_mode"@, BsonV::Str(s.billing_mode)).with(
        "created_at"@,
        BsonV::DateTime(q.now_millis),
    ).with("table_creation_date_time"@, BsonV::Double(nat_text(q.now_secs as nat)))
}

/// The commands that store a backup of documents: a copy of each, then the
/// backup itself. All have to succeed.
pub open spec fn backup_lines(q: CreateBackup, s: SourceV, docs: Seq<DocV>) -> Seq<
    (CommandV, bool),
> {
    Seq::new(
        docs.len(),
        |i: int|
            (
                CommandV::Insert {
                    at: in_catalog("backup_items"@),
                    document: backup_copy(backup_arn_of(q), docs[i]),
                },
                true,
            ),
    ).push(
        (
            CommandV::Insert {
                at: in_catalog("backups"@),
                document: backup_document_of(q, s, docs.len()),
            },
            true,
        ),
    )
}

/// The properties of a new backup.
pub open spec fn new_backup(q: CreateBackup, s: SourceV) -> DetailsV {
    DetailsV {
        backup_arn: backup_arn_of(q),
        backup_name: q.backup_name@,
        backup_status: "AVAILABLE"@,
        backup_type: "USER"@,
        backup_size_bytes: s.table_size,
        creation_millis: (q.now_secs * 1000) as i128,
    }
}

/// Where the creation of a backup stands.
#[derive(Debug, PartialEq)]
pub enum BackupState {
    FindingTable(CreateBackup),
    /// The items are being read.
    Reading { request: CreateBackup, source: Source },
    /// The backup is being stored.
    Storing { script: Script, details: BackupDetails },
}

/// The creation of a backup takes the turn of the script that stores it.
pub open spec fn backup_turns(
    turn: Turn,
    details: DetailsV,
    step: Step<BackupState, BackupDetails>,
) -> bool {
    match turn {
        Turn::Perform(s, c) => {
            &&& step matches Step::Do(BackupState::Storing { script, details: d }, a)
            &&& script == s
            &&& d@ == details
            &&& a@ == ActionV::Run(c@)
        },
        Turn::Finished => step matches Step::Done(Ok(d)) && d@ == details,
        Turn::Refused(e) => fails(step, ErrV::Internal(e.message@)),
    }
}

/// How the creation of a backup goes on with an event.
pub open spec fn backup_goes_on(
    state: BackupState,
    event: Event,
    step: Step<BackupState, BackupDetails>,
) -> bool {
    match (state, event) {
        (BackupState::Storing { script, details }, Event::Replied(r)) => exists|turn: Turn|
            script_goes_on(script, r, turn) && #[trigger] backup_turns(turn, details@, step),
        (_, Event::Replied(Reply::Failed(e))) => fails(step, ErrV::Internal(e.message@)),
        (BackupState::FindingTable(q), Event::Replied(Reply::One(None))) => fails(
            step,
            ErrV::TableNotFound(q.table_name@),
        ),
        (BackupState::FindingTable(q), Event::Replied(Reply::One(Some(d)))) => match source_of(
            d@,
        ) {
            Err(e) => fails(step, e),
            Ok(s) => {
                &&& step matches Step::Do(BackupState::Reading { request, source }, a)
                &&& request == q
                &&& source@ == s
                &&& a@ == ActionV::Run(
                    CommandV::Find {
                        at: in_data(collection_name(s.table_id)),
                        filter: DocV::empty(),
                        paging: unpaged(),
                    },
                )
            },
        },
        (
            BackupState::Reading { request, source },
            Event::Replied(Reply::Many(docs)),
        ) => exists|turn: Turn|
            turns_to(backup_lines(request, source@, doc_seq(docs@)), turn)
                && #[trigger] backup_turns(turn, new_backup(request, source@), step),
        _ => fails(step, unexpected()),
    }
}

/// How the creation of a backup begins.
pub open spec fn backup_begins(q: CreateBackup, step: Step<BackupState, BackupDetails>) -> bool {
    runs(
        step,
        BackupState::FindingTable(q),
        CommandV::FindOne {
            at: in_catalog("tables"@),
            filter: active_table_of(q.account_id@, q.table_name@),
        },
    )
}

/// Begins the creation of a backup.
pub fn create_backup_start(q: CreateBackup) -> (step: Step<BackupState, BackupDetails>)
    ensures
        backup_begins(q, step),
{
    let filter = table_filter(q.account_id.as_str(), q.table_name.as_str()).with(
        "table_status",
        Bson::text("ACTIVE"),
    );
    run(
        BackupState::FindingTable(q),
        Command::FindOne { at: Place::catalog("tables"), filter },
    )
}

fn take_turn(turn: Turn, details: BackupDetails) -> (step: Step<BackupState, BackupDetails>)
    ensures
        backup_turns(turn, details@, step),
{
    match turn {
        Turn::Perform(script, c) => run(BackupState::Storing { script, details }, c),
        Turn::Finished => Step::Done(Ok(details)),
        Turn::Refused(e) => Step::Done(Err(StorageError::Internal(e.message))),
    }
}

fn backup_document(q: &CreateBackup, arn: &str, s: &Source, count: i64) -> (r: Document)
    requires
        arn@ == backup_arn_of(*q),
        count >= 0,
    ensures
        r@ == backup_document_of(*q, s@, count as nat),
{
    Document::new().with("_id", Bson::text(arn)).with(
        "backup_name",
        Bson::text(q.backup_name.as_str()),
    ).with("backup_status", Bson::text("AVAILABLE")).with("backup_type", Bson::text("USER")).with(
        "table_id",
        Bson::text(s.table_id.as_str()),
    ).with("table_name", Bson::text(q.table_name.as_str())).with(
        "table_arn",
        Bson::text(s.table_arn.as_str()),
    ).with("account_id", Bson::text(q.account_id.as_str())).with(
        "backup_size_bytes",
        Bson::Int64(s.table_size),
    ).with("item_count", Bson::Int64(count)).with("key_schema", copy_bson(&s.key_schema)).with(
        "attribute_definitions",
        copy_bson(&s.attribute_definitions),
    ).with("billing_mode", Bson::text(s.billing_mode.as_str())).with(
        "created_at",
        Bson::DateTime(q.now_millis),
    ).with("table_creation_date_time", Bson::Double(u64_text(q.now_secs)))
}

fn build_backup(q: &CreateBackup, s: &Source, docs: &Vec<Document>) -> (r: Vec<Line>)
    requires
        docs@.len() <= i64::MAX,
    ensures
        line_seq(r@) == backup_lines(*q, s@, doc_seq(docs@)),
{
    let arn = backup_arn(q);
    let ghost ds = doc_seq(docs@);
    let ghost all = backup_lines(*q, s@, ds);
    let mut lines = no_lines();
    let mut i: usize = 0;
    assert(all.take(0) =~= Seq::empty());
    while i < docs.len()
        invariant
            i <= docs.len(),
            ds == doc_seq(docs@),
            all == backup_lines(*q, s@, ds),
            arn@ == backup_arn_of(*q),
            line_seq(lines@) == all.take(i as int),
        decreases docs.len() - i,
    {
        let command = Command::Insert {
            at: Place::catalog("backup_items"),
            document: copy_for_backup(arn.as_str(), &docs[i]),
        };
        assert(ds[i as int] == docs@[i as int]@);
        assert(command@ == all[i as int].0);
        add_line(&mut lines, must(command));
        assert(all.take(i as int).push(all[i as int]) =~= all.take(i + 1));
        i += 1;
    }
    let document = backup_document(q, arn.as_str(), s, docs.len() as i64);
    add_line(
        &mut lines,
        must(Command::Insert { at: Place::catalog("backups"), document }),
    );
    assert(line_seq(lines@) =~= all);
    lines
}

/// Goes on with the creation of a backup.
pub fn create_backup_next(state: BackupState, event: Event) -> (step: Step<
    BackupState,
    BackupDetails,
>)
    requires
        event matches Event::Replied(Reply::Many(docs)) ==> docs@.len() <= i64::MAX,
    ensures
        backup_goes_on(state, event, step),
{
    match (state, event) {
        (BackupState::Storing { script, details }, Event::Replied(r)) => {
            let turn = script_next(script, r);
            take_turn(turn, details)
        },
        (_, Event::Replied(Reply::Failed(e))) => Step::Done(
            Err(StorageError::Internal(e.message)),
        ),
        (BackupState::FindingTable(q), Event::Replied(Reply::One(None))) => Step::Done(
            Err(StorageError::TableNotFound(q.table_name)),
        ),
        (BackupState::FindingTable(q), Event::Replied(Reply::One(Some(d)))) => {
            match read_source(&d) {
                Err(e) => Step::Done(Err(e)),
                Ok(source) => {
                    let name = data_collection_name(source.table_id.as_str());
                    run(
                        BackupState::Reading { request: q, source },
                        Command::Find {
                            at: Place::data(name.as_str()),
                            filter: Document::new(),
                            paging: Paging::none(),
                        },
                    )
                },
            }
        },
        (BackupState::Reading { request, source }, Event::Replied(Reply::Many(docs))) => {
            let lines = build_backup(&request, &source, &docs);
            let ghost target = new_backup(request, source@);
            let details = BackupDetails {
                backup_arn: backup_arn(&request),
                backup_name: request.backup_name,
                backup_status: "AVAILABLE".to_owned(),
                backup_type: "USER".to_owned(),
                backup_size_bytes: source.table_size,
                creation_millis: (request.now_secs as i128) * 1000,
            };
            assert(details@ == target);
            let turn = script_start(lines);
            take_turn(turn, details)
        },
        _ => fail_unexpected(),
    }
}

// --- Describing a backup -------------------------------------------------------------

/// A description of a backup and of the table that it was made of.
#[derive(Debug, PartialEq)]
pub struct BackupDescription {
    pub details: BackupDetails,
    pub table_name: String,
    pub table_id: String,
    pub table_arn: String,
    pub key_schema: Vec<KeySchemaElement>,
    pub item_count: i64,
    pub billing_mode: String,
    /// The time of the table in seconds, where it is known; else that of the
    /// backup counts.
    pub table_creation_secs: Option<String>,
}

/// The model of a description of a backup.
#[verifier::ext_equal]
pub struct BackupV {
    pub details: DetailsV,
    pub table_name: Seq<char>,
    pub table_id: Seq<char>,
    pub table_arn: Seq<char>,
    pub key_schema: Seq<(Seq<char>, KeyType)>,
    pub item_count: i64,
    pub billing_mode: Seq<char>,
    pub table_creation_secs: Option<Seq<char>>,
}

impl View for BackupDescription {
    type V = BackupV;

    open spec fn view(&self) -> BackupV {
        BackupV {
            details: self.details@,
            table_name: self.table_name@,
            table_id: self.table_id@,
            table_arn: self.table_arn@,
            key_schema: schema_view(self.key_schema@),
            item_count: self.item_count,
            billing_mode: self.billing_mode@,
            table_creation_secs: opt_string(self.table_creation_secs),
        }
    }
}

/// The command that looks a backup up.
pub open spec fn find_backup_of(arn: Seq<char>) -> CommandV {
    CommandV::FindOne { at: in_catalog("backups"@), filter: doc1("_id"@, BsonV::Str(arn)) }
}

/// The command that looks a backup up.
pub fn find_backup(arn: &str) -> (r: Command)
    ensures
        r@ == find_backup_of(arn@),
{
    Command::FindOne {
        at: Place::catalog("backups"),
        filter: Document::new().with("_id", Bson::text(arn)),
    }
}

/// The error that a backup does not exist.
pub open spec fn no_backup(arn: Seq<char>) -> ErrV {
    ErrV::Validation("Backup not found: "@ + arn)
}

/// The floating-point number under a name, by its text.
pub open spec fn double_under(d: DocV, k: Seq<char>) -> Option<Seq<char>> {
    match d.get(k) {
        Some(BsonV::Double(t)) => Some(t),
        _ => None,
    }
}

/// The backup that a document describes.
pub open spec fn backup_of(arn: Seq<char>, d: DocV) -> Result<BackupV, ErrV> {
    match list_under(d, "key_schema"@) {
        None => Err(ErrV::Internal("missing key_schema in backup"@)),
        Some(ks) => match schema_of(ks) {
            None => Err(ErrV::Internal("parse key_schema: not a key schema"@)),
            Some(key_schema) => Ok(
                BackupV {
                    details: DetailsV {
                        backup_arn: arn,
                        backup_name: d.str_or("backup_name"@, ""@),
                        backup_status: d.str_or("backup_status"@, "AVAILABLE"@),
                        backup_type: "USER"@,
                        backup_size_bytes: number_or_zero(d, "backup_size_bytes"@),
                        creation_millis: time_or_zero(d, "created_at"@) as i128,
                    },
                    table_name: d.str_or("table_name"@, ""@),
                    table_id: d.str_or("table_id"@, ""@),
                    table_arn: d.str_or("table_arn"@, ""@),
                    key_schema,
                    item_count: number_or_zero(d, "item_count"@),
                    billing_mode: d.str_or("billing_mode"@, "PAY_PER_REQUEST"@),
                    table_creation_secs: double_under(d, "table_creation_date_time"@),
                },
            ),
        },
    }
}

/// What the answer to the lookup of a backup says.
pub open spec fn backup_said(arn: Seq<char>, reply: Reply) -> Result<BackupV, ErrV> {
    match reply {
        Reply::One(None) => Err(no_backup(arn)),
        Reply::One(Some(d)) => backup_of(arn, d@),
        Reply::Failed(e) => Err(ErrV::Internal(e.message@)),
        _ => Err(unexpected()),
    }
}

fn number_under(d: &Document, k: &str) -> (r: i64)
    ensures
        r == number_or_zero(d@, k@),
{
    match d.get_i64(k) {
        Some(n) => n,
        None => 0,
    }
}

fn time_under(d: &Document, k: &str) -> (r: i64)
    ensures
        r == time_or_zero(d@, k@),
{
    match d.get_datetime(k) {
        Some(n) => n,
        None => 0,
    }
}

fn read_double(d: &Document, k: &str) -> (r: Option<String>)
    ensures
        opt_string(r) == double_under(d@, k@),
{
    match d.get(k) {
        Some(Bson::Double(t)) => Some(t.clone()),
        _ => None,
    }
}

fn read_backup(arn: &str, d: &Document) -> (r: Result<BackupDescription, StorageError>)
    ensures
        match r {
            Ok(b) => backup_of(arn@, d@) == Ok::<BackupV, ErrV>(b@),
            Err(e) => backup_of(arn@, d@) == Err::<BackupV, ErrV>(e@),
        },
{
    let key_schema = match copy_list(d, "key_schema") {
        None => {
            return Err(StorageError::internal("missing key_schema in backup"));
        },
        Some(b) => match read_schema(&b) {
            Some(s) => s,
            None => {
                return Err(StorageError::internal("parse key_schema: not a key schema"));
            },
        },
    };
    Ok(
        BackupDescription {
            details: BackupDetails {
                backup_arn: arn.to_owned(),
                backup_name: d.str_or("backup_name", ""),
                backup_status: d.str_or("backup_status", "AVAILABLE"),
                backup_type: "USER".to_owned(),
                backup_size_bytes: number_under(d, "backup_size_bytes"),
                creation_millis: time_under(d, "created_at") as i128,
            },
            table_name: d.str_or("table_name", ""),
            table_id: d.str_or("table_id", ""),
            table_arn: d.str_or("table_arn", ""),
            key_schema,
            item_count: number_under(d, "item_count"),
            billing_mode: d.str_or("billing_mode", "PAY_PER_REQUEST"),
            table_creation_secs: read_double(d, "table_creation_date_time"),
        },
    )
}

/// Reads the answer to the lookup of a backup.
pub fn describe_backup_reply(arn: &str, reply: &Reply) -> (r: Result<
    BackupDescription,
    StorageError,
>)
    ensures
        match r {
            Ok(b) => backup_said(arn@, *reply) == Ok::<BackupV, ErrV>(b@),
            Err(e) => backup_said(arn@, *reply) == Err::<BackupV, ErrV>(e@),
        },
{
    match reply {
        Reply::One(None) => Err(StorageError::Validation(join2("Backup not found: ", arn))),
        Reply::One(Some(d)) => read_backup(arn, d),
        Reply::Failed(e) => Err(StorageError::Internal(e.message.clone())),
        _ => Err(StorageError::internal("unexpected event")),
    }
}

// --- Listing backups -----------------------------------------------------------------

/// The command that lists the backups of an account, or of one of its tables,
/// the latest first. Backups that were deleted are left out.
pub open spec fn list_backups_of(account_id: Seq<char>, table_name: Option<Seq<char>>) -> CommandV {
    let d = doc1("account_id"@, BsonV::Str(account_id)).with(
        "backup_status"@,
        obj1("$ne"@, BsonV::Str("DELETED"@)),
    );
    CommandV::Find {
        at: in_catalog("backups"@),
        filter: match table_name {
            Some(t) => d.with("table_name"@, BsonV::Str(t)),
            None => d,
        },
        paging: sorted_by(doc1("created_at"@, BsonV::Int32((-1) as i32))),
    }
}

/// The command that lists backups.
pub fn list_backups_command(account_id: &str, table_name: Option<&str>) -> (r: Command)
    ensures
        r@ == list_backups_of(account_id@, opt_text(table_name)),
{
    let d = Document::new().with("account_id", Bson::text(account_id)).with(
        "backup_status",
        Bson::obj1("$ne", Bson::text("DELETED")),
    );
    let filter = match table_name {
        Some(t) => d.with("table_name", Bson::text(t)),
        None => d,
    };
    Command::Find {
        at: Place::catalog("backups"),
        filter,
        paging: Paging::sorted(Document::new().with("created_at", Bson::Int32(-1))),
    }
}

/// An entry of a list of backups.
#[derive(Debug, PartialEq)]
pub struct BackupSummary {
    pub details: BackupDetails,
    pub table_name: String,
    pub table_arn: String,
}

/// The model of an entry of a list of backups.
#[verifier::ext_equal]
pub struct SummaryV {
    pub details: DetailsV,
    pub table_name: Seq<char>,
    pub table_arn: Seq<char>,
}

impl View for BackupSummary {
    type V = SummaryV;

    open spec fn view(&self) -> SummaryV {
        SummaryV {
            details: self.details@,
            table_name: self.table_name@,
            table_arn: self.table_arn@,
        }
    }
}

/// The entry that a document describes.
pub open spec fn summary_of(d: DocV) -> SummaryV {
    SummaryV {
        details: DetailsV {
            backup_arn: d.str_or("_id"@, ""@),
            backup_name: d.str_or("backup_name"@, ""@),
            backup_status: d.str_or("backup_status"@, "AVAILABLE"@),
            backup_type: "USER"@,
            backup_size_bytes: number_or_zero(d, "backup_size_bytes"@),
            creation_millis: time_or_zero(d, "created_at"@) as i128,
        },
        table_name: d.str_or("table_name"@, ""@),
        table_arn: d.str_or("table_arn"@, ""@),
    }
}

/// Reads a list of backups.
pub fn read_backups(docs: &Vec<Document>) -> (r: Vec<BackupSummary>)
    ensures
        r@.len() == docs@.len(),
        forall|i: int| 0 <= i < docs@.len() ==> (#[trigger] r@[i])@ == summary_of(docs@[i]@),
{
    let mut out: Vec<BackupSummary> = Vec::new();
    let mut i: usize = 0;
    while i < docs.len()
        invariant
            i <= docs.len(),
            out@.len() == i,
            forall|j: int| 0 <= j < i ==> (#[trigger] out@[j])@ == summary_of(docs@[j]@),
        decreases docs.len() - i,
    {
        let d = &docs[i];
        out.push(
            BackupSummary {
                details: BackupDetails {
                    backup_arn: d.str_or("_id", ""),
                    backup_name: d.str_or("backup_name", ""),
                    backup_status: d.str_or("backup_status", "AVAILABLE"),
                    backup_type: "USER".to_owned(),
                    backup_size_bytes: number_under(d, "backup_size_bytes"),
                    creation_millis: time_under(d, "created_at") as i128,
                },
                table_name: d.str_or("table_name", ""),
                table_arn: d.str_or("table_arn", ""),
            },
        );
        i += 1;
    }
    out
}

// --- Deleting a backup ---------------------------------------------------------------

/// Where the deletion of a backup stands.
#[derive(Debug, PartialEq)]
pub enum DeleteBackupState {
    Finding { backup_arn: String },
    DroppingItems(BackupDescription),
    Marking(BackupDescription),
}

/// The filter that finds the copies of items in a backup.
pub open spec fn copies_of(arn: Seq<char>) -> DocV {
    doc1("backup_arn"@, BsonV::Str(arn))
}

/// How the deletion of a backup goes on with an event. The backup stays in
/// the catalog, marked as deleted.
pub open spec fn delete_backup_goes_on(
    state: DeleteBackupState,
    event: Event,
    step: Step<DeleteBackupState, BackupDescription>,
) -> bool {
    match (state, event) {
        (DeleteBackupState::Finding { backup_arn }, Event::Replied(r)) => match backup_said(
            backup_arn@,
            r,
        ) {
            Err(e) => fails(step, e),
            Ok(b) => {
                &&& step matches Step::Do(DeleteBackupState::DroppingItems(x), a)
                &&& x@ == b
                &&& a@ == ActionV::Run(
                    CommandV::DeleteMany {
                        at: in_catalog("backup_items"@),
                        filter: copies_of(backup_arn@),
                    },
                )
            },
        },
        (_, Event::Replied(Reply::Failed(e))) => fails(step, ErrV::Internal(e.message@)),
        (DeleteBackupState::DroppingItems(b), Event::Replied(_)) => runs(
            step,
            DeleteBackupState::Marking(b),
            CommandV::Update {
                at: in_catalog("backups"@),
                filter: doc1("_id"@, BsonV::Str(b.details.backup_arn@)),
                update: doc1("$set"@, obj1("backup_status"@, BsonV::Str("DELETED"@))),
                upsert: false,
            },
        ),
        (DeleteBackupState::Marking(b), Event::Replied(_)) => {
            &&& step matches Step::Done(Ok(x))
            &&& x@ == (BackupV {
                details: DetailsV { backup_status: "DELETED"@, ..b@.details },
                ..b@
            })
        },
        _ => fails(step, unexpected()),
    }
}

/// How the deletion of a backup begins.
pub open spec fn delete_backup_begins(
    arn: Seq<char>,
    step: Step<DeleteBackupState, BackupDescription>,
) -> bool {
    &&& step matches Step::Do(DeleteBackupState::Finding { backup_arn }, a)
    &&& backup_arn@ == arn
    &&& a@ == ActionV::Run(find_backup_of(arn))
}

/// Begins the deletion of a backup.
pub fn delete_backup_start(arn: &str) -> (step: Step<DeleteBackupState, BackupDescription>)
    ensures
        delete_backup_begins(arn@, step),
{
    run(DeleteBackupState::Finding { backup_arn: arn.to_owned() }, find_backup(arn))
}

/// Goes on with the deletion of a backup.
pub fn delete_backup_next(state: DeleteBackupState, event: Event) -> (step: Step<
    DeleteBackupState,
    BackupDescription,
>)
    ensures
        delete_backup_goes_on(state, event, step),
{
    match (state, event) {
        (DeleteBackupState::Finding { backup_arn }, Event::Replied(r)) => {
            match describe_backup_reply(backup_arn.as_str(), &r) {
                Err(e) => Step::Done(Err(e)),
                Ok(b) => run(
                    DeleteBackupState::DroppingItems(b),
                    Command::DeleteMany {
                        at: Place::catalog("backup_items"),
                        filter: Document::new().with("backup_arn", Bson::String(backup_arn)),
                    },
                ),
            }
        },
        (_, Event::Replied(Reply::Failed(e))) => Step::Done(
            Err(StorageError::Internal(e.message)),
        ),
        (DeleteBackupState::DroppingItems(b), Event::Replied(_)) => {
            let filter = Document::new().with("_id", Bson::text(b.details.backup_arn.as_str()));
            run(
                DeleteBackupState::Marking(b),
                Command::Update {
                    at: Place::catalog("backups"),
                    filter,
                    update: Document::new().with(
                        "$set",
                        Bson::obj1("backup_status", Bson::text("DELETED")),
                    ),
                    upsert: false,
                },
            )
        },
        (DeleteBackupState::Marking(b), Event::Replied(_)) => {
            let mut b = b;
            b.details.backup_status = "DELETED".to_owned();
            Step::Done(Ok(b))
        },
        _ => fail_unexpected(),
    }
}

// --- Restoring a table ---------------------------------------------------------------

/// The command that looks up a backup that can be restored.
pub open spec fn find_available_of(arn: Seq<char>) -> CommandV {
    CommandV::FindOne {
        at: in_catalog("backups"@),
        filter: doc1("_id"@, BsonV::Str(arn)).with("backup_status"@, BsonV::Str("AVAILABLE"@)),
    }
}

/// The command that looks up a backup that can be restored.
pub fn find_available_backup(arn: &str) -> (r: Command)
    ensures
        r@ == find_available_of(arn@),
{
    Command::FindOne {
        at: Place::catalog("backups"),
        filter: Document::new().with("_id", Bson::text(arn)).with(
            "backup_status",
            Bson::text("AVAILABLE"),
        ),
    }
}

/// What a backup says of the table that is restored from it.
#[derive(Debug, PartialEq)]
pub struct RestorePlan {
    pub key_schema: Vec<KeySchemaElement>,
    pub attribute_definitions: Vec<AttributeDefinition>,
    pub billing_mode: BillingMode,
}

/// The model of what a backup says of the table that is restored from it.
#[verifier::ext_equal]
pub struct PlanV {
    pub key_schema: Seq<(Seq<char>, KeyType)>,
    pub attribute_definitions: Seq<(Seq<char>, ScalarAttributeType)>,
    pub billing_mode: BillingMode,
}

impl View for RestorePlan {
    type V = PlanV;

    open spec fn view(&self) -> PlanV {
        PlanV {
            key_schema: schema_view(self.key_schema@),
            attribute_definitions: defs_view(self.attribute_definitions@),
            billing_mode: self.billing_mode,
        }
    }
}

/// What the document of a backup says of the table that is restored from it.
pub open spec fn plan_of(d: DocV) -> Result<PlanV, ErrV> {
    match list_under(d, "key_schema"@) {
        None => Err(ErrV::Internal("missing key_schema"@)),
        Some(ks) => match list_under(d, "attribute_definitions"@) {
            None => Err(ErrV::Internal("missing attribute_definitions"@)),
            Some(ad) => match schema_of(ks) {
                None => Err(ErrV::Internal("parse key_schema: not a key schema"@)),
                Some(key_schema) => match defs_of(ad) {
                    None => Err(ErrV::Internal("parse attr_defs: not attribute definitions"@)),
                    Some(attribute_definitions) => Ok(
                        PlanV {
                            key_schema,
                            attribute_definitions,
                            billing_mode: if d.str_or("billing_mode"@, "PAY_PER_REQUEST"@)
                                == "PAY_PER_REQUEST"@ {
                                BillingMode::PayPerRequest
                            } else {
                                BillingMode::Provisioned
                            },
                        },
                    ),
                },
            },
        },
    }
}

/// What the answer to the lookup of a backup that can be restored says.
pub open spec fn plan_said(arn: Seq<char>, reply: Reply) -> Result<PlanV, ErrV> {
    match reply {
        Reply::One(None) => Err(no_backup(arn)),
        Reply::One(Some(d)) => plan_of(d@),
        Reply::Failed(e) => Err(ErrV::Internal(e.message@)),
        _ => Err(unexpected()),
    }
}

fn read_plan(d: &Document) -> (r: Result<RestorePlan, StorageError>)
    ensures
        match r {
            Ok(p) => plan_of(d@) == Ok::<PlanV, ErrV>(p@),
            Err(e) => plan_of(d@) == Err::<PlanV, ErrV>(e@),
        },
{
    let ks = match copy_list(d, "key_schema") {
        Some(b) => b,
        None => {
            return Err(StorageError::internal("missing key_schema"));
        },
    };
    let ad = match copy_list(d, "attribute_definitions") {
        Some(b) => b,
        None => {
            return Err(StorageError::internal("missing attribute_definitions"));
        },
    };
    let key_schema = match read_schema(&ks) {
        Some(s) => s,
        None => {
            return Err(StorageError::internal("parse key_schema: not a key schema"));
        },
    };
    let attribute_definitions = match read_defs(&ad) {
        Some(s) => s,
        None => {
            return Err(StorageError::internal("parse attr_defs: not attribute definitions"));
        },
    };
    let billing = d.str_or("billing_mode", "PAY_PER_REQUEST");
    let billing_mode = if text_eq(billing.as_str(), "PAY_PER_REQUEST") {
        BillingMode::PayPerRequest
    } else {
        BillingMode::Provisioned
    };
    Ok(RestorePlan { key_schema, attribute_definitions, billing_mode })
}

/// Reads the answer to the lookup of a backup that can be restored.
pub fn restore_plan_reply(arn: &str, reply: &Reply) -> (r: Result<RestorePlan, StorageError>)
    ensures
        match r {
            Ok(p) => plan_said(arn@, *reply) == Ok::<PlanV, ErrV>(p@),
            Err(e) => plan_said(arn@, *reply) == Err::<PlanV, ErrV>(e@),
        },
{
    match reply {
        Reply::One(None) => Err(StorageError::Validation(join2("Backup not found: ", arn))),
        Reply::One(Some(d)) => read_plan(d),
        Reply::Failed(e) => Err(StorageError::Internal(e.message.clone())),
        _ => Err(StorageError::internal("unexpected event")),
    }
}

/// A request for the table of a backup under a new name. It has no indexes, no
/// stream and no tags.
pub open spec fn is_request_of(
    q: CreateTable,
    plan: RestorePlan,
    account_id: Seq<char>,
    table_name: Seq<char>,
    table_arn: Seq<char>,
    sort_key: Option<ScalarAttributeType>,
) -> bool {
    &&& q.account_id@ == account_id
    &&& q.table_name@ == table_name
    &&& q.table_arn@ == table_arn
    &&& q.sort_key == sort_key
    &&& q.key_schema == plan.key_schema
    &&& q.attribute_definitions == plan.attribute_definitions
    &&& q.billing_mode == Some(plan.billing_mode)
    &&& q.throughput == Some(
        (ProvisionedThroughput { read_capacity_units: 5, write_capacity_units: 5 }),
    )
    &&& q.stream_specification is None
    &&& q.deletion_protection is None
    &&& q.global_indexes is None
    &&& q.local_indexes is None
    &&& q.tags is None
}

/// The table that is created to restore a backup: without indexes, stream,
/// tags and protection, and with a throughput of five units each.
pub fn restore_request(
    plan: RestorePlan,
    account_id: &str,
    table_name: &str,
    table_arn: &str,
    sort_key: Option<ScalarAttributeType>,
) -> (r: CreateTable)
    ensures
        is_request_of(r, plan, account_id@, table_name@, table_arn@, sort_key),
{
    CreateTable {
        account_id: account_id.to_owned(),
        table_name: table_name.to_owned(),
        table_arn: table_arn.to_owned(),
        key_schema: plan.key_schema,
        attribute_definitions: plan.attribute_definitions,
        sort_key,
        billing_mode: Some(plan.billing_mode),
        throughput: Some(
            ProvisionedThroughput { read_capacity_units: 5, write_capacity_units: 5 },
        ),
        stream_specification: None,
        deletion_protection: None,
        global_indexes: None,
        local_indexes: None,
        tags: None,
    }
}

/// Where the restoring of items stands.
#[derive(Debug, PartialEq)]
pub enum RestoreState {
    /// The copies of the items are being read.
    Reading { account_id: String, table: TableDescription },
    Storing { script: Script, table: TableDescription },
}

/// The commands that restore items from their copies, and then note how many
/// there are. All have to succeed.
pub open spec fn restore_lines(
    account_id: Seq<char>,
    table_name: Seq<char>,
    table_id: Seq<char>,
    copies: Seq<DocV>,
) -> Seq<(CommandV, bool)> {
    Seq::new(
        copies.len(),
        |i: int|
            (
                CommandV::Insert {
                    at: in_data(collection_name(table_id)),
                    document: restored(copies[i]),
                },
                true,
            ),
    ).push(
        (
            CommandV::Update {
                at: in_catalog("tables"@),
                filter: table_filter_of(account_id, table_name),
                update: doc1(
                    "$set"@,
                    BsonV::Doc(
                        doc1("item_count"@, BsonV::Int64(copies.len() as i64)).with(
                            "table_status"@,
                            BsonV::Str("ACTIVE"@),
                        ),
                    ),
                ),
                upsert: false,
            },
            true,
        ),
    )
}

/// The restoring takes the turn of the script that stores the items.
pub open spec fn restore_turns(
    turn: Turn,
    table: TableDescription,
    step: Step<RestoreState, TableDescription>,
) -> bool {
    match turn {
        Turn::Perform(script, c) => runs(step, RestoreState::Storing { script, table }, c@),
        Turn::Finished => step == Step::<RestoreState, TableDescription>::Done(Ok(table)),
        Turn::Refused(e) => fails(step, ErrV::Internal(e.message@)),
    }
}

/// How the restoring of items goes on with an event.
pub open spec fn restore_goes_on(
    state: RestoreState,
    event: Event,
    step: Step<RestoreState, TableDescription>,
) -> bool {
    match (state, event) {
        (RestoreState::Storing { script, table }, Event::Replied(r)) => exists|turn: Turn|
            script_goes_on(script, r, turn) && #[trigger] restore_turns(turn, table, step),
        (RestoreState::Reading { account_id, table }, Event::Replied(Reply::Many(docs))) => exists|
            turn: Turn,
        |
            turns_to(
                restore_lines(account_id@, table.table_name@, table.table_id@, doc_seq(docs@)),
                turn,
            ) && #[trigger] restore_turns(turn, table, step),
        (_, Event::Replied(Reply::Failed(e))) => fails(step, ErrV::Internal(e.message@)),
        _ => fails(step, unexpected()),
    }
}

/// The first step of restoring the items of a backup: their copies are read.
pub open spec fn restore_begins(
    account_id: Seq<char>,
    table: TableDescription,
    arn: Seq<char>,
    step: Step<RestoreState, TableDescription>,
) -> bool {
    step matches Step::Do(RestoreState::Reading { account_id: a, table: t }, x) && a@ == account_id
        && t == table && x@ == ActionV::Run(
        CommandV::Find {
            at: in_catalog("backup_items"@),
            filter: copies_of(arn),
            paging: unpaged(),
        },
    )
}

/// Begins restoring the items of a backup to a table that was created for it.
pub fn restore_items_start(account_id: &str, table: TableDescription, arn: &str) -> (step: Step<
    RestoreState,
    TableDescription,
>)
    ensures
        restore_begins(account_id@, table, arn@, step),
{
    run(
        RestoreState::Reading { account_id: account_id.to_owned(), table },
        Command::Find {
            at: Place::catalog("backup_items"),
            filter: Document::new().with("backup_arn", Bson::text(arn)),
            paging: Paging::none(),
        },
    )
}

fn take_restore_turn(turn: Turn, table: TableDescription) -> (step: Step<
    RestoreState,
    TableDescription,
>)
    ensures
        restore_turns(turn, table, step),
{
    match turn {
        Turn::Perform(script, c) => run(RestoreState::Storing { script, table }, c),
        Turn::Finished => Step::Done(Ok(table)),
        Turn::Refused(e) => Step::Done(Err(StorageError::Internal(e.message))),
    }
}

fn build_restore(account_id: &str, table: &TableDescription, docs: &Vec<Document>) -> (r: Vec<
    Line,
>)
    requires
        docs@.len() <= i64::MAX,
    ensures
        line_seq(r@) == restore_lines(
            account_id@,
            table.table_name@,
            table.table_id@,
            doc_seq(docs@),
        ),
{
    let name = data_collection_name(table.table_id.as_str());
    let ghost ds = doc_seq(docs@);
    let ghost all = restore_lines(account_id@, table.table_name@, table.table_id@, ds);
    let mut lines = no_lines();
    let mut i: usize = 0;
    assert(all.take(0) =~= Seq::empty());
    while i < docs.len()
        invariant
            i <= docs.len(),
            ds == doc_seq(docs@),
            all == restore_lines(account_id@, table.table_name@, table.table_id@, ds),
            name@ == collection_name(table.table_id@),
            line_seq(lines@) == all.take(i as int),
        decreases docs.len() - i,
    {
        let command = Command::Insert {
            at: Place::data(name.as_str()),
            document: restore_from_copy(&docs[i]),
        };
        assert(ds[i as int] == docs@[i as int]@);
        assert(command@ == all[i as int].0);
        add_line(&mut lines, must(command));
        assert(all.take(i as int).push(all[i as int]) =~= all.take(i + 1));
        i += 1;
    }
    let set = Document::new().with("item_count", Bson::Int64(docs.len() as i64)).with(
        "table_status",
        Bson::text("ACTIVE"),
    );
    add_line(
        &mut lines,
        must(
            Command::Update {
                at: Place::catalog("tables"),
                filter: table_filter(account_id, table.table_name.as_str()),
                update: Document::new().with("$set", Bson::Document(set)),
                upsert: false,
            },
        ),
    );
    assert(line_seq(lines@) =~= all);
    lines
}

/// Goes on with restoring items.
pub fn restore_items_next(state: RestoreState, event: Event) -> (step: Step<
    RestoreState,
    TableDescription,
>)
    requires
        event matches Event::Replied(Reply::Many(docs)) ==> docs@.len() <= i64::MAX,
    ensures
        restore_goes_on(state, event, step),
{
    match (state, event) {
        (RestoreState::Storing { script, table }, Event::Replied(r)) => {
            let turn = script_next(script, r);
            take_restore_turn(turn, table)
        },
        (RestoreState::Reading { account_id, table }, Event::Replied(Reply::Many(docs))) => {
            let lines = build_restore(account_id.as_str(), &table, &docs);
            let turn = script_start(lines);
            take_restore_turn(turn, table)
        },
        (_, Event::Replied(Reply::Failed(e))) => Step::Done(
            Err(StorageError::Internal(e.message)),
        ),
        _ => fail_unexpected(),
    }
}

// --- Laws --------------------------------------------------------------------------

/// An item that is restored from a backup is stored as it was when the backup
/// was made: under the same identifier and key, and with the same data.
#[verifier::rlimit(60)]
#[verifier::spinoff_prover]
pub proof fn law_restore_gives_back(arn: Seq<char>, item: ItemV, key: ItemKey, d: DocV)
    requires
        item_document(item, key) == Ok::<DocV, ErrV>(d),
    ensures
        ({
            let r = restored(backup_copy(arn, d));
            &&& r.get("_id"@) == d.get("_id"@)
            &&& r.get("pk"@) == d.get("pk"@)
            &&& r.get("sk_s"@) == d.get("sk_s"@)
            &&& r.get("sk_n"@) == d.get("sk_n"@)
            &&& r.get("sk_b"@) == d.get("sk_b"@)
            &&& r.get("item_data"@) == d.get("item_data"@)
            &&& document_item(r) == document_item(d)
        }),
{
    broadcast use crate::bson::group_document_fields;

    reveal_strlit("_id");
    reveal_strlit("pk");
    reveal_strlit("sk");
    reveal_strlit("sk_s");
    reveal_strlit("sk_n");
    reveal_strlit("sk_b");
    reveal_strlit("item_data");
    reveal_strlit("item_id");
    reveal_strlit("backup_arn");
    assert("_id"@.len() == 3 && "pk"@.len() == 2 && "sk"@.len() == 2 && "item_data"@.len() == 9);
    assert("sk_s"@.len() == 4 && "sk_n"@.len() == 4 && "sk_b"@.len() == 4);
    assert("item_id"@.len() == 7 && "backup_arn"@.len() == 10);
    assert("pk"@[0] == 'p' && "sk"@[0] == 's');
    assert("sk_s"@[3] == 's' && "sk_n"@[3] == 'n' && "sk_b"@[3] == 'b');
    assert(crate::data::key_fields(item, key) is Ok);
    let f = crate::data::key_fields(item, key)->Ok_0;
    assert(d.get("pk"@) == Some(BsonV::Str(key.pk_text@)));
    assert(d.get("item_data"@) is Some);
    assert(d.get("_id"@) is Some);
}

/// A backup is described by the properties with which it was created.
#[verifier::rlimit(60)]
#[verifier::spinoff_prover]
pub proof fn law_backup_reads_back(q: CreateBackup, s: SourceV, schema: Seq<(Seq<char>, KeyType)>, n: nat)
    requires
        s.key_schema == crate::schema_json::schema_bson(schema),
        n <= i64::MAX,
    ensures
        backup_of(backup_arn_of(q), backup_document_of(q, s, n)) == Ok::<BackupV, ErrV>(
            (BackupV {
                details: DetailsV { creation_millis: q.now_millis as i128, ..new_backup(q, s) },
                table_name: q.table_name@,
                table_id: s.table_id,
                table_arn: s.table_arn,
                key_schema: schema,
                item_count: n as i64,
                billing_mode: s.billing_mode,
                table_creation_secs: Some(nat_text(q.now_secs as nat)),
            }),
        ),
{
    broadcast use crate::bson::group_document_fields;

    crate::schema_json::law_schema_round_trip(schema);
    reveal_strlit("_id");
    reveal_strlit("backup_name");
    reveal_strlit("backup_status");
    reveal_strlit("backup_type");
    reveal_strlit("table_id");
    reveal_strlit("table_name");
    reveal_strlit("table_arn");
    reveal_strlit("account_id");
    reveal_strlit("backup_size_bytes");
    reveal_strlit("item_count");
    reveal_strlit("key_schema");
    reveal_strlit("attribute_definitions");
    reveal_strlit("billing_mode");
    reveal_strlit("created_at");
    reveal_strlit("table_creation_date_time");
    assert("_id"@.len() == 3 && "backup_name"@.len() == 11 && "backup_status"@.len() == 13);
    assert("backup_type"@.len() == 11 && "backup_name"@[7] == 'n' && "backup_type"@[7] == 't');
    assert("table_id"@.len() == 8 && "table_name"@.len() == 10 && "table_arn"@.len() == 9);
    assert("account_id"@.len() == 10 && "backup_size_bytes"@.len() == 17);
    assert("item_count"@.len() == 10 && "key_schema"@.len() == 10 && "created_at"@.len() == 10);
    assert("table_name"@[0] == 't' && "account_id"@[0] == 'a' && "item_count"@[0] == 'i'
        && "key_schema"@[0] == 'k' && "created_at"@[0] == 'c');
    assert("attribute_definitions"@.len() == 21 && "billing_mode"@.len() == 12);
    assert("table_creation_date_time"@.len() == 24);
}

} // verus!
