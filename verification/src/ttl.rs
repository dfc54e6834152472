//! Expiry of items: the attribute that holds the time, its index, and the
//! items whose time has come.

use vstd::prelude::*;
use vstd::string::*;

use crate::bson::{
    doc1, doc_seq, obj1, opt_string, Bson, BsonV, DocV, Document,
};
use crate::catalog::{find_table, find_table_of, table_filter, table_filter_of};
use crate::data::{collection_name, data_collection_name, document_item, document_to_item};
use crate::error::{ErrV, StorageError};
use crate::item::{item_seq, Item, ItemV};
use crate::number::{i64_of_text, parse_i64};
use crate::protocol::{
    fail_internal, fail_unexpected, fails, in_catalog, in_data, page_by, run, runs, unexpected,
    unpaged, ActionV, Command, CommandV, Event, IndexOptions, IndexOptionsV, Paging, Place, Reply,
    Step,
};
use crate::text::{join2, join3};

verus! {

// --- Settings ------------------------------------------------------------------------

/// What the answer to the lookup of a table says of the expiry of its items:
/// the attribute that holds the time, where expiry is enabled.
pub open spec fn ttl_said(table_name: Seq<char>, reply: Reply) -> Result<Option<Seq<char>>, ErrV> {
    match reply {
        Reply::One(None) => Err(ErrV::TableNotFound(table_name)),
        Reply::One(Some(d)) => Ok(d@.get_str("ttl_attribute"@)),
        Reply::Failed(e) => Err(ErrV::Internal(e.message@)),
        _ => Err(unexpected()),
    }
}

/// Reads what a table says of the expiry of its items, from the answer to its
/// lookup.
pub fn describe_ttl_reply(table_name: &str, reply: &Reply) -> (r: Result<
    Option<String>,
    StorageError,
>)
    ensures
        match r {
            Ok(a) => ttl_said(table_name@, *reply) == Ok::<Option<Seq<char>>, ErrV>(
                opt_string(a),
            ),
            Err(e) => ttl_said(table_name@, *reply) == Err::<Option<Seq<char>>, ErrV>(e@),
        },
{
    match reply {
        Reply::One(None) => Err(StorageError::TableNotFound(table_name.to_owned())),
        Reply::One(Some(d)) => match d.get_str("ttl_attribute") {
            Some(a) => Ok(Some(a.to_owned())),
            None => Ok(None),
        },
        Reply::Failed(e) => Err(StorageError::Internal(e.message.clone())),
        _ => Err(StorageError::internal("unexpected event")),
    }
}

/// Where the change of the expiry of a table stands.
#[derive(Debug, PartialEq)]
pub enum UpdateTtlState {
    Setting { account_id: String, table_name: String },
    /// No active table was found: whether there is one that is not active is
    /// being looked up.
    Looking { table_name: String },
}

/// The filter that finds a table that is active.
pub open spec fn active_table_of(account_id: Seq<char>, table_name: Seq<char>) -> DocV {
    table_filter_of(account_id, table_name).with("table_status"@, BsonV::Str("ACTIVE"@))
}

/// The command that changes the expiry of a table.
pub open spec fn set_ttl_of(
    account_id: Seq<char>,
    table_name: Seq<char>,
    attribute: Option<Seq<char>>,
) -> CommandV {
    CommandV::Update {
        at: in_catalog("tables"@),
        filter: active_table_of(account_id, table_name),
        update: doc1(
            "$set"@,
            BsonV::Doc(
                doc1(
                    "ttl_attribute"@,
                    match attribute {
                        Some(a) => BsonV::Str(a),
                        None => BsonV::Null,
                    },
                ).with("ttl_index_ready"@, BsonV::Boolean(false)),
            ),
        ),
        upsert: false,
    }
}

/// How the change of the expiry of a table goes on with an event.
pub open spec fn update_ttl_goes_on(
    state: UpdateTtlState,
    event: Event,
    step: Step<UpdateTtlState, ()>,
) -> bool {
    match (state, event) {
        (
            UpdateTtlState::Setting { account_id, table_name },
            Event::Replied(Reply::Matched(n)),
        ) => if n == 0 {
            runs(
                step,
                UpdateTtlState::Looking { table_name },
                find_table_of(account_id@, table_name@),
            )
        } else {
            step == Step::<UpdateTtlState, ()>::Done(Ok(()))
        },
        (UpdateTtlState::Looking { table_name }, Event::Replied(Reply::One(d))) => fails(
            step,
            if d is None {
                ErrV::TableNotFound(table_name@)
            } else {
                ErrV::TableNotActive(table_name@)
            },
        ),
        (_, Event::Replied(Reply::Failed(e))) => fails(step, ErrV::Internal(e.message@)),
        _ => fails(step, unexpected()),
    }
}

/// Begins the change of the expiry of a table: enables it by an attribute, or
/// disables it.
pub fn update_ttl_start(
    account_id: &str,
    table_name: &str,
    attribute_name: &str,
    enabled: bool,
) -> (step: Step<UpdateTtlState, ()>)
    ensures
        step matches Step::Do(UpdateTtlState::Setting { account_id: a, table_name: n }, x) && a@
            == account_id@ && n@ == table_name@ && x@ == ActionV::Run(
            set_ttl_of(
                account_id@,
                table_name@,
                if enabled {
                    Some(attribute_name@)
                } else {
                    None
                },
            ),
        ),
{
    let value = if enabled {
        Bson::text(attribute_name)
    } else {
        Bson::Null
    };
    let set = Document::new().with("ttl_attribute", value).with(
        "ttl_index_ready",
        Bson::Boolean(false),
    );
    run(
        UpdateTtlState::Setting {
            account_id: account_id.to_owned(),
            table_name: table_name.to_owned(),
        },
        Command::Update {
            at: Place::catalog("tables"),
            filter: table_filter(account_id, table_name).with("table_status", Bson::text("ACTIVE")),
            update: Document::new().with("$set", Bson::Document(set)),
            upsert: false,
        },
    )
}

/// Goes on with the change of the expiry of a table.
pub fn update_ttl_next(state: UpdateTtlState, event: Event) -> (step: Step<UpdateTtlState, ()>)
    ensures
        update_ttl_goes_on(state, event, step),
{
    match (state, event) {
        (
            UpdateTtlState::Setting { account_id, table_name },
            Event::Replied(Reply::Matched(n)),
        ) => if n == 0 {
            let command = find_table(account_id.as_str(), table_name.as_str());
            run(UpdateTtlState::Looking { table_name }, command)
        } else {
            Step::Done(Ok(()))
        },
        (UpdateTtlState::Looking { table_name }, Event::Replied(Reply::One(d))) => {
            if d.is_none() {
                Step::Done(Err(StorageError::TableNotFound(table_name)))
            } else {
                Step::Done(Err(StorageError::TableNotActive(table_name)))
            }
        },
        (_, Event::Replied(Reply::Failed(e))) => Step::Done(
            Err(StorageError::Internal(e.message)),
        ),
        _ => fail_unexpected(),
    }
}

// --- Tables with expiry --------------------------------------------------------------

/// The filter that finds tables with expiry: those of an account, or all;
/// where `ready`, only those whose index is ready.
pub open spec fn ttl_tables_filter(account_id: Option<Seq<char>>, ready: bool) -> DocV {
    let d = match account_id {
        Some(a) => doc1("_id.account_id"@, BsonV::Str(a)),
        None => DocV::empty(),
    };
    let d = d.with("ttl_attribute"@, obj1("$ne"@, BsonV::Null));
    let d = if ready {
        d.with("ttl_index_ready"@, BsonV::Boolean(true))
    } else {
        d
    };
    d.with("table_status"@, BsonV::Str("ACTIVE"@))
}

/// The command that lists tables with expiry.
pub fn ttl_tables_command(account_id: Option<&str>, ready: bool) -> (r: Command)
    ensures
        r@ == (CommandV::Find {
            at: in_catalog("tables"@),
            filter: ttl_tables_filter(crate::bson::opt_text(account_id), ready),
            paging: unpaged(),
        }),
{
    let d = match account_id {
        Some(a) => Document::new().with("_id.account_id", Bson::text(a)),
        None => Document::new(),
    };
    let d = d.with("ttl_attribute", Bson::obj1("$ne", Bson::Null));
    let d = if ready {
        d.with("ttl_index_ready", Bson::Boolean(true))
    } else {
        d
    };
    Command::Find {
        at: Place::catalog("tables"),
        filter: d.with("table_status", Bson::text("ACTIVE")),
        paging: Paging::none(),
    }
}

/// A part of the identifier of a table; empty where it is missing.
pub open spec fn id_part(d: DocV, k: Seq<char>) -> Seq<char> {
    match d.get_document("_id"@) {
        Some(id) => id.str_or(k, ""@),
        None => ""@,
    }
}

fn read_id_part(d: &Document, k: &str) -> (r: String)
    ensures
        r@ == id_part(d@, k@),
{
    match d.get_document("_id") {
        Some(id) => id.str_or(k, ""),
        None => "".to_owned(),
    }
}

/// The account and the name of the table that a document describes.
pub fn extract_id_fields(d: &Document) -> (r: (String, String))
    ensures
        r.0@ == id_part(d@, "account_id"@),
        r.1@ == id_part(d@, "table_name"@),
{
    (read_id_part(d, "account_id"), read_id_part(d, "table_name"))
}

/// A table whose items expire.
#[derive(Debug, PartialEq)]
pub struct TtlTable {
    pub account_id: String,
    pub table_name: String,
    /// The attribute that holds the time.
    pub attribute: String,
}

/// The model of a table whose items expire.
#[verifier::ext_equal]
pub struct TtlTableV {
    pub account_id: Seq<char>,
    pub table_name: Seq<char>,
    pub attribute: Seq<char>,
}

impl View for TtlTable {
    type V = TtlTableV;

    open spec fn view(&self) -> TtlTableV {
        TtlTableV {
            account_id: self.account_id@,
            table_name: self.table_name@,
            attribute: self.attribute@,
        }
    }
}

/// The table that a document describes.
pub open spec fn ttl_table_of(d: DocV) -> TtlTableV {
    TtlTableV {
        account_id: id_part(d, "account_id"@),
        table_name: id_part(d, "table_name"@),
        attribute: d.str_or("ttl_attribute"@, ""@),
    }
}

/// Reads tables, with the attribute by which their items expire, where they
/// do.
pub fn read_ttl_tables(docs: &Vec<Document>) -> (r: Vec<TtlTable>)
    ensures
        r@.len() == docs@.len(),
        forall|i: int| 0 <= i < docs@.len() ==> (#[trigger] r@[i])@ == ttl_table_of(docs@[i]@),
{
    let mut out: Vec<TtlTable> = Vec::new();
    let mut i: usize = 0;
    while i < docs.len()
        invariant
            i <= docs.len(),
            out@.len() == i,
            forall|j: int| 0 <= j < i ==> (#[trigger] out@[j])@ == ttl_table_of(docs@[j]@),
        decreases docs.len() - i,
    {
        let (account_id, table_name) = extract_id_fields(&docs[i]);
        out.push(TtlTable { account_id, table_name, attribute: docs[i].str_or("ttl_attribute", "") });
        i += 1;
    }
    out
}

// --- Active tables -------------------------------------------------------------------

/// The command that lists the active tables of an account by their names.
pub fn active_tables_command(account_id: &str) -> (r: Command)
    ensures
        r@ == (CommandV::Find {
            at: in_catalog("tables"@),
            filter: doc1("_id.account_id"@, BsonV::Str(account_id@)).with(
                "table_status"@,
                BsonV::Str("ACTIVE"@),
            ),
            paging: crate::protocol::sorted_by(doc1("_id.table_name"@, BsonV::Int32(1))),
        }),
{
    Command::Find {
        at: Place::catalog("tables"),
        filter: Document::new().with("_id.account_id", Bson::text(account_id)).with(
            "table_status",
            Bson::text("ACTIVE"),
        ),
        paging: Paging::sorted(Document::new().with("_id.table_name", Bson::Int32(1))),
    }
}

/// The command that lists all active tables by their accounts and names.
pub fn all_active_tables_command() -> (r: Command)
    ensures
        r@ == (CommandV::Find {
            at: in_catalog("tables"@),
            filter: doc1("table_status"@, BsonV::Str("ACTIVE"@)),
            paging: crate::protocol::sorted_by(
                doc1("_id.account_id"@, BsonV::Int32(1)).with("_id.table_name"@, BsonV::Int32(1)),
            ),
        }),
{
    Command::Find {
        at: Place::catalog("tables"),
        filter: Document::new().with("table_status", Bson::text("ACTIVE")),
        paging: Paging::sorted(
            Document::new().with("_id.account_id", Bson::Int32(1)).with(
                "_id.table_name",
                Bson::Int32(1),
            ),
        ),
    }
}

// --- The index -----------------------------------------------------------------------

/// The name of the index on the time of expiry.
pub open spec fn ttl_index_name(attribute: Seq<char>) -> Seq<char> {
    "idx_ttl_"@ + attribute
}

/// The field that holds the time of expiry.
pub open spec fn ttl_field(attribute: Seq<char>) -> Seq<char> {
    "item_data."@ + attribute + ".N"@
}

/// The command that creates the index on the time of expiry.
pub open spec fn create_ttl_index_of(table_id: Seq<char>, attribute: Seq<char>) -> CommandV {
    CommandV::CreateIndex {
        at: in_data(collection_name(table_id)),
        keys: doc1(ttl_field(attribute), BsonV::Int32(1)),
        options: IndexOptionsV {
            unique: false,
            sparse: true,
            simple_collation: false,
            name: Some(ttl_index_name(attribute)),
            expire_after: None,
            partial: None,
        },
    }
}

/// The command that notes whether the index of a table is ready.
pub open spec fn note_ready_of(account_id: Seq<char>, table_name: Seq<char>, ready: bool) -> CommandV {
    CommandV::Update {
        at: in_catalog("tables"@),
        filter: table_filter_of(account_id, table_name),
        update: doc1("$set"@, obj1("ttl_index_ready"@, BsonV::Boolean(ready))),
        upsert: false,
    }
}

fn note_ready(account_id: &str, table_name: &str, ready: bool) -> (r: Command)
    ensures
        r@ == note_ready_of(account_id@, table_name@, ready),
{
    Command::Update {
        at: Place::catalog("tables"),
        filter: table_filter(account_id, table_name),
        update: Document::new().with("$set", Bson::obj1("ttl_index_ready", Bson::Boolean(ready))),
        upsert: false,
    }
}

/// Where the creation or the removal of the index stands.
#[derive(Debug, PartialEq)]
pub enum TtlIndexState {
    /// The table whose index is created is being looked up.
    Finding { account_id: String, table_name: String, attribute: String },
    Creating { account_id: String, table_name: String },
    /// That the index is ready is being noted.
    NotingReady,
    /// That the index is no longer ready is being noted.
    NotingGone { account_id: String, table_name: String },
    /// The table whose index is removed is being looked up.
    FindingGone { table_name: String },
    Dropping,
}

/// How the creation or the removal of the index goes on with an event.
pub open spec fn ttl_index_goes_on(
    state: TtlIndexState,
    event: Event,
    step: Step<TtlIndexState, ()>,
) -> bool {
    match (state, event) {
        (TtlIndexState::Creating { .. }, Event::Replied(Reply::Failed(e))) => fails(
            step,
            ErrV::Internal("TTL index creation failed: "@ + e.message@),
        ),
        (TtlIndexState::Dropping, Event::Replied(Reply::Failed(e))) => fails(
            step,
            ErrV::Internal("TTL index drop failed: "@ + e.message@),
        ),
        (_, Event::Replied(Reply::Failed(e))) => fails(step, ErrV::Internal(e.message@)),
        (TtlIndexState::Finding { table_name, .. }, Event::Replied(Reply::One(None))) => fails(
            step,
            ErrV::TableNotFound(table_name@),
        ),
        (
            TtlIndexState::Finding { account_id, table_name, attribute },
            Event::Replied(Reply::One(Some(d))),
        ) => match d@.get_str("table_id"@) {
            None => fails(step, ErrV::Internal("missing table_id"@)),
            Some(id) => runs(
                step,
                TtlIndexState::Creating { account_id, table_name },
                create_ttl_index_of(id, attribute@),
            ),
        },
        (TtlIndexState::Creating { account_id, table_name }, Event::Replied(_)) => runs(
            step,
            TtlIndexState::NotingReady,
            note_ready_of(account_id@, table_name@, true),
        ),
        (TtlIndexState::NotingGone { account_id, table_name }, Event::Replied(_)) => runs(
            step,
            TtlIndexState::FindingGone { table_name },
            find_table_of(account_id@, table_name@),
        ),
        (TtlIndexState::FindingGone { table_name }, Event::Replied(Reply::One(None))) => fails(
            step,
            ErrV::TableNotFound(table_name@),
        ),
        (TtlIndexState::FindingGone { .. }, Event::Replied(Reply::One(Some(d)))) => match d@.get_str(
            "table_id"@,
        ) {
            None => fails(step, ErrV::Internal("missing table_id"@)),
            Some(id) => runs(
                step,
                TtlIndexState::Dropping,
                CommandV::DropIndex {
                    at: in_data(collection_name(id)),
                    name: ttl_index_name(d@.str_or("ttl_attribute"@, ""@)),
                },
            ),
        },
        (TtlIndexState::NotingReady, Event::Replied(_)) => step == Step::<
            TtlIndexState,
            (),
        >::Done(Ok(())),
        (TtlIndexState::Dropping, Event::Replied(_)) => step == Step::<TtlIndexState, ()>::Done(
            Ok(()),
        ),
        _ => fails(step, unexpected()),
    }
}

/// Begins the creation of the index on the time of expiry.
pub fn create_ttl_index_start(account_id: &str, table_name: &str, attribute: &str) -> (step: Step<
    TtlIndexState,
    (),
>)
    ensures
        step matches Step::Do(
            TtlIndexState::Finding { account_id: a, table_name: n, attribute: t },
            x,
        ) && a@ == account_id@ && n@ == table_name@ && t@ == attribute@ && x@ == ActionV::Run(
            find_table_of(account_id@, table_name@),
        ),
{
    run(
        TtlIndexState::Finding {
            account_id: account_id.to_owned(),
            table_name: table_name.to_owned(),
            attribute: attribute.to_owned(),
        },
        find_table(account_id, table_name),
    )
}

/// Begins the removal of the index on the time of expiry. That the index is
/// no longer ready is noted first.
pub fn drop_ttl_index_start(account_id: &str, table_name: &str) -> (step: Step<TtlIndexState, ()>)
    ensures
        step matches Step::Do(TtlIndexState::NotingGone { account_id: a, table_name: n }, x) && a@
            == account_id@ && n@ == table_name@ && x@ == ActionV::Run(
            note_ready_of(account_id@, table_name@, false),
        ),
{
    run(
        TtlIndexState::NotingGone {
            account_id: account_id.to_owned(),
            table_name: table_name.to_owned(),
        },
        note_ready(account_id, table_name, false),
    )
}

/// Goes on with the creation or the removal of the index.
pub fn ttl_index_next(state: TtlIndexState, event: Event) -> (step: Step<TtlIndexState, ()>)
    ensures
        ttl_index_goes_on(state, event, step),
{
    match (state, event) {
        (TtlIndexState::Creating { .. }, Event::Replied(Reply::Failed(e))) => Step::Done(
            Err(StorageError::Internal(join2("TTL index creation failed: ", e.message.as_str()))),
        ),
        (TtlIndexState::Dropping, Event::Replied(Reply::Failed(e))) => Step::Done(
            Err(StorageError::Internal(join2("TTL index drop failed: ", e.message.as_str()))),
        ),
        (_, Event::Replied(Reply::Failed(e))) => Step::Done(
            Err(StorageError::Internal(e.message)),
        ),
        (TtlIndexState::Finding { table_name, .. }, Event::Replied(Reply::One(None))) => {
            Step::Done(Err(StorageError::TableNotFound(table_name)))
        },
        (
            TtlIndexState::Finding { account_id, table_name, attribute },
            Event::Replied(Reply::One(Some(d))),
        ) => match d.get_str("table_id") {
            None => fail_internal("missing table_id"),
            Some(id) => {
                let name = data_collection_name(id);
                let field = join3("item_data.", attribute.as_str(), ".N");
                run(
                    TtlIndexState::Creating { account_id, table_name },
                    Command::CreateIndex {
                        at: Place::data(name.as_str()),
                        keys: Document::new().with(field.as_str(), Bson::Int32(1)),
                        options: IndexOptions {
                            unique: false,
                            sparse: true,
                            simple_collation: false,
                            name: Some(join2("idx_ttl_", attribute.as_str())),
                            expire_after: None,
                            partial: None,
                        },
                    },
                )
            },
        },
        (TtlIndexState::Creating { account_id, table_name }, Event::Replied(_)) => run(
            TtlIndexState::NotingReady,
            note_ready(account_id.as_str(), table_name.as_str(), true),
        ),
        (TtlIndexState::NotingGone { account_id, table_name }, Event::Replied(_)) => {
            let command = find_table(account_id.as_str(), table_name.as_str());
            run(TtlIndexState::FindingGone { table_name }, command)
        },
        (TtlIndexState::FindingGone { table_name }, Event::Replied(Reply::One(None))) => {
            Step::Done(Err(StorageError::TableNotFound(table_name)))
        },
        (TtlIndexState::FindingGone { .. }, Event::Replied(Reply::One(Some(d)))) => {
            match d.get_str("table_id") {
                None => fail_internal("missing table_id"),
                Some(id) => {
                    let name = data_collection_name(id);
                    let attribute = d.str_or("ttl_attribute", "");
                    run(
                        TtlIndexState::Dropping,
                        Command::DropIndex {
                            at: Place::data(name.as_str()),
                            name: join2("idx_ttl_", attribute.as_str()),
                        },
                    )
                },
            }
        },
        (TtlIndexState::NotingReady, Event::Replied(_)) => Step::Done(Ok(())),
        (TtlIndexState::Dropping, Event::Replied(_)) => Step::Done(Ok(())),
        _ => fail_unexpected(),
    }
}

// --- Expired items -------------------------------------------------------------------

/// The time at which the item of a document expires, where it has one.
pub open spec fn expiry_of(d: DocV, attribute: Seq<char>) -> Option<i64> {
    match d.get_document("item_data"@) {
        Some(data) => match data.get_document(attribute) {
            Some(v) => match v.get_str("N"@) {
                Some(n) => i64_of_text(n),
                None => None,
            },
            None => None,
        },
        None => None,
    }
}

/// The item of a document has expired at a time.
pub open spec fn is_expired(d: DocV, attribute: Seq<char>, now: i64) -> bool {
    expiry_of(d, attribute) matches Some(t) && 1 <= t <= now
}

/// The expired items among the first `n` documents, at most `limit` of them.
pub open spec fn expired_to(
    docs: Seq<DocV>,
    n: nat,
    attribute: Seq<char>,
    now: i64,
    limit: nat,
) -> Result<Seq<ItemV>, ErrV>
    decreases n,
{
    if n == 0 {
        Ok(Seq::empty())
    } else {
        match expired_to(docs, (n - 1) as nat, attribute, now, limit) {
            Err(e) => Err(e),
            Ok(items) => if items.len() < limit && is_expired(docs[n - 1], attribute, now) {
                match document_item(docs[n - 1]) {
                    Err(e) => Err(e),
                    Ok(i) => Ok(items.push(i)),
                }
            } else {
                Ok(items)
            },
        }
    }
}

/// Where the search for expired items stands.
#[derive(Debug, PartialEq)]
pub enum ExpiredState {
    Finding { table_name: String, attribute: String, limit: usize, now: i64 },
    Searching { attribute: String, limit: usize, now: i64 },
}

/// The command that searches for items with a time of expiry, earliest first:
/// twice as many as asked for, since some may not have expired.
pub open spec fn search_expired_of(table_id: Seq<char>, attribute: Seq<char>, limit: usize) -> CommandV {
    CommandV::Find {
        at: in_data(collection_name(table_id)),
        filter: doc1(
            ttl_field(attribute),
            BsonV::Doc(doc1("$exists"@, BsonV::Boolean(true)).with("$ne"@, BsonV::Null)),
        ),
        paging: page_by(doc1(ttl_field(attribute), BsonV::Int32(1)), (limit * 2) as i64),
    }
}

/// How the search for expired items goes on with an event.
pub open spec fn expired_goes_on(
    state: ExpiredState,
    event: Event,
    step: Step<ExpiredState, Vec<Item>>,
) -> bool {
    match (state, event) {
        (ExpiredState::Finding { table_name, .. }, Event::Replied(Reply::One(None))) => fails(
            step,
            ErrV::TableNotFound(table_name@),
        ),
        (
            ExpiredState::Finding { table_name, attribute, limit, now },
            Event::Replied(Reply::One(Some(d))),
        ) => match d@.get_str("table_id"@) {
            None => fails(step, ErrV::Internal("missing table_id"@)),
            Some(id) => runs(
                step,
                ExpiredState::Searching { attribute, limit, now },
                search_expired_of(id, attribute@, limit),
            ),
        },
        (
            ExpiredState::Searching { attribute, limit, now },
            Event::Replied(Reply::Many(docs)),
        ) => match expired_to(doc_seq(docs@), docs@.len(), attribute@, now, limit as nat) {
            Err(e) => fails(step, e),
            Ok(items) => step matches Step::Done(Ok(v)) && item_seq(v@) == items,
        },
        (_, Event::Replied(Reply::Failed(e))) => fails(step, ErrV::Internal(e.message@)),
        _ => fails(step, unexpected()),
    }
}

/// Begins the search for expired items; `now` is the time in seconds.
pub fn find_expired_start(
    account_id: &str,
    table_name: &str,
    attribute: &str,
    limit: usize,
    now: i64,
) -> (step: Step<ExpiredState, Vec<Item>>)
    ensures
        step matches Step::Do(
            ExpiredState::Finding { table_name: n, attribute: t, limit: l, now: w },
            x,
        ) && n@ == table_name@ && t@ == attribute@ && l == limit && w == now && x@ == ActionV::Run(
            find_table_of(account_id@, table_name@),
        ),
{
    run(
        ExpiredState::Finding {
            table_name: table_name.to_owned(),
            attribute: attribute.to_owned(),
            limit,
            now,
        },
        find_table(account_id, table_name),
    )
}

fn has_expired(d: &Document, attribute: &str, now: i64) -> (r: bool)
    ensures
        r == is_expired(d@, attribute@, now),
{
    match d.get_document("item_data") {
        Some(data) => match data.get_document(attribute) {
            Some(v) => match v.get_str("N") {
                Some(n) => match parse_i64(n) {
                    Some(t) => t >= 1 && t <= now,
                    None => false,
                },
                None => false,
            },
            None => false,
        },
        None => false,
    }
}

proof fn lemma_expired_error(
    docs: Seq<DocV>,
    i: nat,
    n: nat,
    attribute: Seq<char>,
    now: i64,
    limit: nat,
    e: ErrV,
)
    requires
        i <= n,
        expired_to(docs, i, attribute, now, limit) == Err::<Seq<ItemV>, ErrV>(e),
    ensures
        expired_to(docs, n, attribute, now, limit) == Err::<Seq<ItemV>, ErrV>(e),
    decreases n,
{
    if i < n {
        lemma_expired_error(docs, i, (n - 1) as nat, attribute, now, limit, e);
    }
}

/// Picks the expired items, at most `limit` of them.
pub fn pick_expired(docs: &Vec<Document>, attribute: &str, limit: usize, now: i64) -> (r: Result<
    Vec<Item>,
    StorageError,
>)
    ensures
        match r {
            Ok(v) => expired_to(
                doc_seq(docs@),
                docs@.len(),
                attribute@,
                now,
                limit as nat,
            ) == Ok::<Seq<ItemV>, ErrV>(item_seq(v@)),
            Err(e) => expired_to(
                doc_seq(docs@),
                docs@.len(),
                attribute@,
                now,
                limit as nat,
            ) == Err::<Seq<ItemV>, ErrV>(e@),
        },
{
    let ghost ds = doc_seq(docs@);
    let mut out: Vec<Item> = Vec::new();
    let mut i: usize = 0;
    assert(item_seq(out@) =~= Seq::empty());
    while i < docs.len()
        invariant
            i <= docs.len(),
            ds == doc_seq(docs@),
            expired_to(ds, i as nat, attribute@, now, limit as nat) == Ok::<Seq<ItemV>, ErrV>(
                item_seq(out@),
            ),
        decreases docs.len() - i,
    {
        assert(ds[i as int] == docs@[i as int]@);
        if out.len() < limit && has_expired(&docs[i], attribute, now) {
            match document_to_item(&docs[i]) {
                Err(e) => {
                    proof {
                        lemma_expired_error(
                            ds,
                            (i + 1) as nat,
                            ds.len(),
                            attribute@,
                            now,
                            limit as nat,
                            e@,
                        );
                    }
                    return Err(e);
                },
                Ok(item) => {
                    let ghost before = out@;
                    out.push(item);
                    assert(item_seq(out@) =~= item_seq(before).push(item@));
                },
            }
        }
        i += 1;
    }
    Ok(out)
}

/// Goes on with the search for expired items.
pub fn find_expired_next(state: ExpiredState, event: Event) -> (step: Step<
    ExpiredState,
    Vec<Item>,
>)
    requires
        state matches ExpiredState::Finding { limit, .. } ==> limit * 2 <= i64::MAX,
    ensures
        expired_goes_on(state, event, step),
{
    match (state, event) {
        (ExpiredState::Finding { table_name, .. }, Event::Replied(Reply::One(None))) => {
            Step::Done(Err(StorageError::TableNotFound(table_name)))
        },
        (
            ExpiredState::Finding { table_name, attribute, limit, now },
            Event::Replied(Reply::One(Some(d))),
        ) => match d.get_str("table_id") {
            None => fail_internal("missing table_id"),
            Some(id) => {
                let name = data_collection_name(id);
                let field = join3("item_data.", attribute.as_str(), ".N");
                let present = Document::new().with("$exists", Bson::Boolean(true)).with(
                    "$ne",
                    Bson::Null,
                );
                let twice: i64 = (limit as i64) * 2;
                run(
                    ExpiredState::Searching { attribute, limit, now },
                    Command::Find {
                        at: Place::data(name.as_str()),
                        filter: Document::new().with(field.as_str(), Bson::Document(present)),
                        paging: Paging::page(
                            Document::new().with(field.as_str(), Bson::Int32(1)),
                            twice,
                        ),
                    },
                )
            },
        },
        (
            ExpiredState::Searching { attribute, limit, now },
            Event::Replied(Reply::Many(docs)),
        ) => match pick_expired(&docs, attribute.as_str(), limit, now) {
            Ok(items) => Step::Done(Ok(items)),
            Err(e) => Step::Done(Err(e)),
        },
        (_, Event::Replied(Reply::Failed(e))) => Step::Done(
            Err(StorageError::Internal(e.message)),
        ),
        _ => fail_unexpected(),
    }
}

// --- Sizes ---------------------------------------------------------------------------

/// Where the count of the items of a table stands.
#[derive(Debug, PartialEq)]
pub enum SizeState {
    Finding { account_id: String, table_name: String },
    Counting { account_id: String, table_name: String, table_id: String },
    /// The size of the collection is being asked for.
    Measuring { account_id: String, table_name: String, count: u64 },
    Noting,
}

/// The command that notes the size of a table.
pub open spec fn note_size_of(
    account_id: Seq<char>,
    table_name: Seq<char>,
    count: u64,
    size: i64,
) -> CommandV {
    CommandV::Update {
        at: in_catalog("tables"@),
        filter: active_table_of(account_id, table_name),
        update: doc1(
            "$set"@,
            BsonV::Doc(
                doc1("item_count"@, BsonV::Int64(count as i64)).with(
                    "table_size_bytes"@,
                    BsonV::Int64(size),
                ),
            ),
        ),
        upsert: false,
    }
}

/// The size that the answer of the database tells; zero where it tells none.
pub open spec fn size_told(reply: Reply) -> i64 {
    match reply {
        Reply::One(Some(d)) => match d@.get_i64("size"@) {
            Some(n) => n,
            None => 0,
        },
        _ => 0,
    }
}

/// How the count of the items of a table goes on with an event.
pub open spec fn size_goes_on(state: SizeState, event: Event, step: Step<SizeState, ()>) -> bool {
    match (state, event) {
        (SizeState::Measuring { account_id, table_name, count }, Event::Replied(r)) => runs(
            step,
            SizeState::Noting,
            note_size_of(account_id@, table_name@, count, size_told(r)),
        ),
        (_, Event::Replied(Reply::Failed(e))) => fails(step, ErrV::Internal(e.message@)),
        (SizeState::Finding { table_name, .. }, Event::Replied(Reply::One(None))) => fails(
            step,
            ErrV::TableNotFound(table_name@),
        ),
        (
            SizeState::Finding { account_id, table_name },
            Event::Replied(Reply::One(Some(d))),
        ) => match d@.get_str("table_id"@) {
            None => fails(step, ErrV::Internal("missing table_id"@)),
            Some(id) => {
                &&& step matches Step::Do(
                    SizeState::Counting { account_id: a, table_name: n, table_id },
                    x,
                )
                &&& a == account_id
                &&& n == table_name
                &&& table_id@ == id
                &&& x@ == ActionV::Run(
                    CommandV::Count { at: in_data(collection_name(id)), filter: DocV::empty() },
                )
            },
        },
        (
            SizeState::Counting { account_id, table_name, table_id },
            Event::Replied(Reply::Counted(count)),
        ) => runs(
            step,
            SizeState::Measuring { account_id, table_name, count },
            CommandV::Run {
                db: crate::protocol::Db::Data,
                command: doc1("collStats"@, BsonV::Str(collection_name(table_id@))),
            },
        ),
        (SizeState::Noting, Event::Replied(_)) => step == Step::<SizeState, ()>::Done(Ok(())),
        _ => fails(step, unexpected()),
    }
}

/// Begins the count of the items of a table.
pub fn refresh_size_start(account_id: &str, table_name: &str) -> (step: Step<SizeState, ()>)
    ensures
        step matches Step::Do(SizeState::Finding { account_id: a, table_name: n }, x) && a@
            == account_id@ && n@ == table_name@ && x@ == ActionV::Run(
            find_table_of(account_id@, table_name@),
        ),
{
    run(
        SizeState::Finding {
            account_id: account_id.to_owned(),
            table_name: table_name.to_owned(),
        },
        find_table(account_id, table_name),
    )
}

fn read_size(reply: &Reply) -> (r: i64)
    ensures
        r == size_told(*reply),
{
    match reply {
        Reply::One(Some(d)) => match d.get_i64("size") {
            Some(n) => n,
            None => 0,
        },
        _ => 0,
    }
}

/// Goes on with the count of the items of a table. A database that does not
/// tell the size leaves it at zero.
pub fn refresh_size_next(state: SizeState, event: Event) -> (step: Step<SizeState, ()>)
    ensures
        size_goes_on(state, event, step),
{
    match (state, event) {
        (SizeState::Measuring { account_id, table_name, count }, Event::Replied(r)) => {
            let set = Document::new().with("item_count", Bson::Int64(count as i64)).with(
                "table_size_bytes",
                Bson::Int64(read_size(&r)),
            );
            run(
                SizeState::Noting,
                Command::Update {
                    at: Place::catalog("tables"),
                    filter: table_filter(account_id.as_str(), table_name.as_str()).with(
                        "table_status",
                        Bson::text("ACTIVE"),
                    ),
                    update: Document::new().with("$set", Bson::Document(set)),
                    upsert: false,
                },
            )
        },
        (_, Event::Replied(Reply::Failed(e))) => Step::Done(
            Err(StorageError::Internal(e.message)),
        ),
        (SizeState::Finding { table_name, .. }, Event::Replied(Reply::One(None))) => Step::Done(
            Err(StorageError::TableNotFound(table_name)),
        ),
        (SizeState::Finding { account_id, table_name }, Event::Replied(Reply::One(Some(d)))) => {
            match d.get_str("table_id") {
                None => fail_internal("missing table_id"),
                Some(id) => {
                    let name = data_collection_name(id);
                    run(
                        SizeState::Counting { account_id, table_name, table_id: id.to_owned() },
                        Command::Count { at: Place::data(name.as_str()), filter: Document::new() },
                    )
                },
            }
        },
        (
            SizeState::Counting { account_id, table_name, table_id },
            Event::Replied(Reply::Counted(count)),
        ) => run(
            SizeState::Measuring { account_id, table_name, count },
            Command::Run {
                db: crate::protocol::Db::Data,
                command: Document::new().with(
                    "collStats",
                    Bson::String(data_collection_name(table_id.as_str())),
                ),
            },
        ),
        (SizeState::Noting, Event::Replied(_)) => Step::Done(Ok(())),
        _ => fail_unexpected(),
    }
}

// --- Laws --------------------------------------------------------------------------

/// Of the expired items, at most as many are picked as asked for.
pub proof fn law_expired_within_limit(
    docs: Seq<DocV>,
    n: nat,
    attribute: Seq<char>,
    now: i64,
    limit: nat,
)
    ensures
        expired_to(docs, n, attribute, now, limit) matches Ok(items) ==> items.len() <= limit,
    decreases n,
{
    if n > 0 {
        law_expired_within_limit(docs, (n - 1) as nat, attribute, now, limit);
    }
}

/// Every item that is picked comes from a document that has expired.
pub proof fn law_only_expired_are_picked(
    docs: Seq<DocV>,
    n: nat,
    attribute: Seq<char>,
    now: i64,
    limit: nat,
    k: int,
)
    requires
        n <= docs.len(),
        expired_to(docs, n, attribute, now, limit) matches Ok(items) && 0 <= k < items.len(),
    ensures
        exists|j: int|
            0 <= j < n && is_expired(docs[j], attribute, now) && #[trigger] document_item(docs[j])
                == Ok::<ItemV, ErrV>(
                (expired_to(docs, n, attribute, now, limit)->Ok_0)[k],
            ),
    decreases n,
{
    let m = (n - 1) as nat;
    let rest = expired_to(docs, m, attribute, now, limit)->Ok_0;
    if k < rest.len() {
        law_only_expired_are_picked(docs, m, attribute, now, limit, k);
        let j = choose|j: int|
            0 <= j < m && is_expired(docs[j], attribute, now) && #[trigger] document_item(docs[j])
                == Ok::<ItemV, ErrV>(rest[k]);
        assert(0 <= j < n && document_item(docs[j]) == Ok::<ItemV, ErrV>(rest[k]));
    } else {
        assert(document_item(docs[n - 1]) == Ok::<ItemV, ErrV>(
            (expired_to(docs, n, attribute, now, limit)->Ok_0)[k],
        ));
    }
}

} // verus!
