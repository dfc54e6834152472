//! What a storage operation asks to be done, and what it is told.
//!
//! An operation is a state machine. Each step either names an action (a
//! database command, or a question to the expression evaluator or the key
//! encoder) or is the last one, with the outcome. The caller performs the
//! action and hands the event back.

use vstd::prelude::*;
use vstd::string::*;

use crate::bson::{doc_seq, opt_doc, opt_string, DocV, Document};
use crate::clock::Fresh;
use crate::data::ItemKey;
use crate::error::{ErrV, StorageError};
use crate::item::{opt_item, Item, ItemV};
use crate::schema::{
    schema_view, AttributeDefinition, KeySchemaElement, KeyType, ScalarAttributeType,
};
use crate::schema_json::defs_view;

verus! {

/// The two databases.
#[derive(Debug, Clone, Copy, PartialEq, Eq, Structural)]
pub enum Db {
    Catalog,
    Data,
}

/// A collection of a database.
#[derive(Debug, PartialEq)]
pub struct Place {
    pub db: Db,
    pub collection: String,
}

/// How the documents of a query are handed out.
#[derive(Debug, PartialEq)]
pub struct Paging {
    pub sort: Option<Document>,
    pub limit: Option<i64>,
    /// Compare texts byte by byte.
    pub simple_collation: bool,
    pub projection: Option<Document>,
}

/// The options of an index.
#[derive(Debug, PartialEq)]
pub struct IndexOptions {
    pub unique: bool,
    /// Leave out documents without the key.
    pub sparse: bool,
    /// Compare texts byte by byte.
    pub simple_collation: bool,
    pub name: Option<String>,
    /// Seconds after which a document expires.
    pub expire_after: Option<u64>,
    /// The filter of the documents that the index holds, where it does not
    /// hold all.
    pub partial: Option<Document>,
}

/// A database command.
#[derive(Debug, PartialEq)]
pub enum Command {
    FindOne { at: Place, filter: Document },
    Find { at: Place, filter: Document, paging: Paging },
    Insert { at: Place, document: Document },
    InsertMany { at: Place, documents: Vec<Document> },
    Update { at: Place, filter: Document, update: Document, upsert: bool },
    UpdateMany { at: Place, filter: Document, update: Document },
    /// Changes a document by the stages of a pipeline.
    UpdateWith { at: Place, filter: Document, stages: Vec<Document> },
    Replace { at: Place, filter: Document, document: Document, upsert: bool },
    /// Hands out the document as it was before.
    FindAndReplace { at: Place, filter: Document, document: Document, upsert: bool },
    /// Inserts where nothing matches, and hands out the document as it is
    /// afterwards.
    FindAndUpdate { at: Place, filter: Document, update: Document },
    FindAndDelete { at: Place, filter: Document },
    DeleteOne { at: Place, filter: Document },
    DeleteMany { at: Place, filter: Document },
    Count { at: Place, filter: Document },
    CreateIndex { at: Place, keys: Document, options: IndexOptions },
    DropIndex { at: Place, name: String },
    CreateCollection { at: Place },
    DropCollection { at: Place },
    ListCollections { db: Db },
    DropDatabase { db: Db },
    Run { db: Db, command: Document },
    /// Starts a transaction that reads from a snapshot; `durable` asks for
    /// the acknowledgement of a majority.
    StartTransaction { durable: bool },
    CommitTransaction,
    AbortTransaction,
}

/// A refusal by the database.
#[derive(Debug, PartialEq)]
pub struct DbError {
    pub code: Option<i32>,
    pub message: String,
}

/// The answer to a database command.
#[derive(Debug, PartialEq)]
pub enum Reply {
    Done,
    One(Option<Document>),
    Many(Vec<Document>),
    /// How many documents an update or a replacement matched.
    Matched(u64),
    Deleted(u64),
    Counted(u64),
    Names(Vec<String>),
    Failed(DbError),
}

/// What an operation asks to be done next.
#[derive(Debug, PartialEq)]
pub enum Action {
    Run(Command),
    /// The key of an item under the key schema of the table of an operation of
    /// the request, or of one of its indexes.
    KeyOf { op: usize, item: Item, key_schema: Vec<KeySchemaElement> },
    /// Whether the condition of an operation of the request holds of an item.
    Evaluate { op: usize, item: Item },
    /// The item after the update of an operation of the request.
    Apply { op: usize, item: Item },
    /// Waits for a random time of at most so many microseconds.
    Pause { at_most: u64 },
    /// Notes whether a table has indexes; `None` forgets what was noted.
    Remember { table_id: String, has_indexes: Option<bool> },
    /// What is known of a table and of an item that was written to it.
    Consult { table_id: String, item: Option<Item> },
    /// What is needed to create a table with a key.
    Prepare {
        key_schema: Vec<KeySchemaElement>,
        attribute_definitions: Vec<AttributeDefinition>,
    },
}

/// What is known of a table and of an item that was written to it.
#[derive(Debug, PartialEq)]
pub struct Circumstances {
    /// Whether the table has indexes, where that is known.
    pub has_indexes: Option<bool>,
    /// The size of the item in bytes.
    pub size: usize,
    /// A new identifier for the record of the change.
    pub event_id: String,
    /// The time in seconds.
    pub now_seconds: i64,
    /// The time in milliseconds.
    pub now_millis: i64,
}

/// What is needed to create a table.
#[derive(Debug, PartialEq)]
pub struct Preparation {
    /// The type of the sort key, where the key has one.
    pub sort_key: Option<ScalarAttributeType>,
    pub fresh: Fresh,
}

/// What an operation is told.
#[derive(Debug, PartialEq)]
pub enum Event {
    Replied(Reply),
    Key(Result<ItemKey, StorageError>),
    /// Whether the condition holds, or why it cannot be evaluated.
    Evaluated(Result<bool, String>),
    /// The item after the update, or why it cannot be applied.
    Applied(Result<Item, String>),
    Paused,
    Remembered,
    Consulted(Circumstances),
    Prepared(Preparation),
}

/// One step of an operation.
#[derive(Debug, PartialEq)]
pub enum Step<S, T> {
    /// Perform the action and go on from the state with the event.
    Do(S, Action),
    Done(Result<T, StorageError>),
}

/// The model of a place.
#[verifier::ext_equal]
pub struct PlaceV {
    pub db: Db,
    pub collection: Seq<char>,
}

/// The model of how documents are handed out.
#[verifier::ext_equal]
pub struct PagingV {
    pub sort: Option<DocV>,
    pub limit: Option<i64>,
    pub simple_collation: bool,
    pub projection: Option<DocV>,
}

/// The model of index options.
#[verifier::ext_equal]
pub struct IndexOptionsV {
    pub unique: bool,
    pub sparse: bool,
    pub simple_collation: bool,
    pub name: Option<Seq<char>>,
    pub expire_after: Option<u64>,
    pub partial: Option<DocV>,
}

/// The model of a command.
#[verifier::ext_equal]
pub enum CommandV {
    FindOne { at: PlaceV, filter: DocV },
    Find { at: PlaceV, filter: DocV, paging: PagingV },
    Insert { at: PlaceV, document: DocV },
    InsertMany { at: PlaceV, documents: Seq<DocV> },
    Update { at: PlaceV, filter: DocV, update: DocV, upsert: bool },
    UpdateMany { at: PlaceV, filter: DocV, update: DocV },
    UpdateWith { at: PlaceV, filter: DocV, stages: Seq<DocV> },
    Replace { at: PlaceV, filter: DocV, document: DocV, upsert: bool },
    FindAndReplace { at: PlaceV, filter: DocV, document: DocV, upsert: bool },
    FindAndUpdate { at: PlaceV, filter: DocV, update: DocV },
    FindAndDelete { at: PlaceV, filter: DocV },
    DeleteOne { at: PlaceV, filter: DocV },
    DeleteMany { at: PlaceV, filter: DocV },
    Count { at: PlaceV, filter: DocV },
    CreateIndex { at: PlaceV, keys: DocV, options: IndexOptionsV },
    DropIndex { at: PlaceV, name: Seq<char> },
    CreateCollection { at: PlaceV },
    DropCollection { at: PlaceV },
    ListCollections { db: Db },
    DropDatabase { db: Db },
    Run { db: Db, command: DocV },
    StartTransaction { durable: bool },
    CommitTransaction,
    AbortTransaction,
}

/// The model of an action.
#[verifier::ext_equal]
pub enum ActionV {
    Run(CommandV),
    KeyOf { op: usize, item: ItemV, key_schema: Seq<(Seq<char>, KeyType)> },
    Evaluate { op: usize, item: ItemV },
    Apply { op: usize, item: ItemV },
    Pause { at_most: u64 },
    Remember { table_id: Seq<char>, has_indexes: Option<bool> },
    Consult { table_id: Seq<char>, item: Option<ItemV> },
    Prepare {
        key_schema: Seq<(Seq<char>, KeyType)>,
        attribute_definitions: Seq<(Seq<char>, ScalarAttributeType)>,
    },
}

impl View for Place {
    type V = PlaceV;

    open spec fn view(&self) -> PlaceV {
        PlaceV { db: self.db, collection: self.collection@ }
    }
}

impl View for Paging {
    type V = PagingV;

    open spec fn view(&self) -> PagingV {
        PagingV {
            sort: opt_doc(self.sort),
            limit: self.limit,
            simple_collation: self.simple_collation,
            projection: opt_doc(self.projection),
        }
    }
}

impl View for IndexOptions {
    type V = IndexOptionsV;

    open spec fn view(&self) -> IndexOptionsV {
        IndexOptionsV {
            unique: self.unique,
            sparse: self.sparse,
            simple_collation: self.simple_collation,
            name: opt_string(self.name),
            expire_after: self.expire_after,
            partial: opt_doc(self.partial),
        }
    }
}

impl View for Command {
    type V = CommandV;

    open spec fn view(&self) -> CommandV {
        match *self {
            Command::FindOne { at, filter } => CommandV::FindOne { at: at@, filter: filter@ },
            Command::Find { at, filter, paging } => CommandV::Find {
                at: at@,
                filter: filter@,
                paging: paging@,
            },
            Command::Insert { at, document } => CommandV::Insert {
                at: at@,
                document: document@,
            },
            Command::InsertMany { at, documents } => CommandV::InsertMany {
                at: at@,
                documents: doc_seq(documents@),
            },
            Command::Update { at, filter, update, upsert } => CommandV::Update {
                at: at@,
                filter: filter@,
                update: update@,
                upsert,
            },
            Command::UpdateMany { at, filter, update } => CommandV::UpdateMany {
                at: at@,
                filter: filter@,
                update: update@,
            },
            Command::UpdateWith { at, filter, stages } => CommandV::UpdateWith {
                at: at@,
                filter: filter@,
                stages: doc_seq(stages@),
            },
            Command::Replace { at, filter, document, upsert } => CommandV::Replace {
                at: at@,
                filter: filter@,
                document: document@,
                upsert,
            },
            Command::FindAndReplace { at, filter, document, upsert } => CommandV::FindAndReplace {
                at: at@,
                filter: filter@,
                document: document@,
                upsert,
            },
            Command::FindAndUpdate { at, filter, update } => CommandV::FindAndUpdate {
                at: at@,
                filter: filter@,
                update: update@,
            },
            Command::FindAndDelete { at, filter } => CommandV::FindAndDelete {
                at: at@,
                filter: filter@,
            },
            Command::DeleteOne { at, filter } => CommandV::DeleteOne { at: at@, filter: filter@ },
            Command::DeleteMany { at, filter } => CommandV::DeleteMany {
                at: at@,
                filter: filter@,
            },
            Command::Count { at, filter } => CommandV::Count { at: at@, filter: filter@ },
            Command::CreateIndex { at, keys, options } => CommandV::CreateIndex {
                at: at@,
                keys: keys@,
                options: options@,
            },
            Command::DropIndex { at, name } => CommandV::DropIndex { at: at@, name: name@ },
            Command::CreateCollection { at } => CommandV::CreateCollection { at: at@ },
            Command::DropCollection { at } => CommandV::DropCollection { at: at@ },
            Command::ListCollections { db } => CommandV::ListCollections { db },
            Command::DropDatabase { db } => CommandV::DropDatabase { db },
            Command::Run { db, command } => CommandV::Run { db, command: command@ },
            Command::StartTransaction { durable } => CommandV::StartTransaction { durable },
            Command::CommitTransaction => CommandV::CommitTransaction,
            Command::AbortTransaction => CommandV::AbortTransaction,
        }
    }
}

impl View for Action {
    type V = ActionV;

    open spec fn view(&self) -> ActionV {
        match *self {
            Action::Run(c) => ActionV::Run(c@),
            Action::KeyOf { op, item, key_schema } => ActionV::KeyOf {
                op,
                item: item@,
                key_schema: schema_view(key_schema@),
            },
            Action::Evaluate { op, item } => ActionV::Evaluate { op, item: item@ },
            Action::Apply { op, item } => ActionV::Apply { op, item: item@ },
            Action::Pause { at_most } => ActionV::Pause { at_most },
            Action::Remember { table_id, has_indexes } => ActionV::Remember {
                table_id: table_id@,
                has_indexes,
            },
            Action::Consult { table_id, item } => ActionV::Consult {
                table_id: table_id@,
                item: opt_item(item),
            },
            Action::Prepare { key_schema, attribute_definitions } => ActionV::Prepare {
                key_schema: schema_view(key_schema@),
                attribute_definitions: defs_view(attribute_definitions@),
            },
        }
    }
}

/// A collection of the catalog.
pub open spec fn in_catalog(name: Seq<char>) -> PlaceV {
    PlaceV { db: Db::Catalog, collection: name }
}

/// A collection of the data database.
pub open spec fn in_data(name: Seq<char>) -> PlaceV {
    PlaceV { db: Db::Data, collection: name }
}

/// All matching documents, in the order of the database.
pub open spec fn unpaged() -> PagingV {
    PagingV { sort: None, limit: None, simple_collation: false, projection: None }
}

/// All matching documents in an order.
pub open spec fn sorted_by(sort: DocV) -> PagingV {
    PagingV { sort: Some(sort), limit: None, simple_collation: false, projection: None }
}

/// Some matching documents in an order.
pub open spec fn page_by(sort: DocV, limit: i64) -> PagingV {
    PagingV { sort: Some(sort), limit: Some(limit), simple_collation: false, projection: None }
}

/// An index without further options.
pub open spec fn plain_index() -> IndexOptionsV {
    IndexOptionsV {
        unique: false,
        sparse: false,
        simple_collation: false,
        name: None,
        expire_after: None,
        partial: None,
    }
}

/// An index whose keys occur once.
pub open spec fn unique_index() -> IndexOptionsV {
    IndexOptionsV {
        unique: true,
        sparse: false,
        simple_collation: false,
        name: None,
        expire_after: None,
        partial: None,
    }
}

/// The step is the last one and ends in the error.
pub open spec fn fails<S, T>(step: Step<S, T>, e: ErrV) -> bool {
    step matches Step::Done(Err(x)) && x@ == e
}

/// The step asks for a command and goes on from a state.
pub open spec fn runs<S, T>(step: Step<S, T>, state: S, command: CommandV) -> bool {
    step matches Step::Do(s, a) && s == state && a@ == ActionV::Run(command)
}

/// The message of an event that does not answer the action.
pub open spec fn unexpected() -> ErrV {
    ErrV::Internal("unexpected event"@)
}

impl Place {
    /// A collection of the catalog.
    pub fn catalog(name: &str) -> (r: Place)
        ensures
            r@ == in_catalog(name@),
    {
        Place { db: Db::Catalog, collection: name.to_owned() }
    }

    /// A collection of the data database.
    pub fn data(name: &str) -> (r: Place)
        ensures
            r@ == in_data(name@),
    {
        Place { db: Db::Data, collection: name.to_owned() }
    }

    /// A copy of a place.
    pub fn copy(&self) -> (r: Place)
        ensures
            r@ == self@,
    {
        Place { db: self.db, collection: self.collection.clone() }
    }
}

impl Paging {
    /// All matching documents, in the order of the database.
    pub fn none() -> (r: Paging)
        ensures
            r@ == unpaged(),
    {
        Paging { sort: None, limit: None, simple_collation: false, projection: None }
    }

    /// All matching documents in an order.
    pub fn sorted(sort: Document) -> (r: Paging)
        ensures
            r@ == sorted_by(sort@),
    {
        Paging { sort: Some(sort), limit: None, simple_collation: false, projection: None }
    }

    /// Some matching documents in an order.
    pub fn page(sort: Document, limit: i64) -> (r: Paging)
        ensures
            r@ == page_by(sort@, limit),
    {
        Paging { sort: Some(sort), limit: Some(limit), simple_collation: false, projection: None }
    }
}

impl IndexOptions {
    /// An index without further options.
    pub fn plain() -> (r: IndexOptions)
        ensures
            r@ == plain_index(),
    {
        IndexOptions {
            unique: false,
            sparse: false,
            simple_collation: false,
            name: None,
            expire_after: None,
            partial: None,
        }
    }

    /// An index whose keys occur once.
    pub fn unique() -> (r: IndexOptions)
        ensures
            r@ == unique_index(),
    {
        IndexOptions {
            unique: true,
            sparse: false,
            simple_collation: false,
            name: None,
            expire_after: None,
            partial: None,
        }
    }
}

/// The step that ends in an internal error.
pub fn fail_internal<S, T>(message: &str) -> (r: Step<S, T>)
    ensures
        fails(r, ErrV::Internal(message@)),
{
    Step::Done(Err(StorageError::internal(message)))
}

/// The step that ends because an event does not answer the action.
pub fn fail_unexpected<S, T>() -> (r: Step<S, T>)
    ensures
        fails(r, unexpected()),
{
    Step::Done(Err(StorageError::internal("unexpected event")))
}

/// The step that asks for a command.
pub fn run<S, T>(state: S, command: Command) -> (r: Step<S, T>)
    ensures
        runs(r, state, command@),
{
    Step::Do(state, Action::Run(command))
}

} // verus!
