//! Describing, listing and deleting tables.

use vstd::prelude::*;
use vstd::string::*;

use crate::bson::{doc1, doc_seq, obj1, opt_string, opt_text, text_seq, Bson, BsonV, DocV, Document};
use crate::catalog::{
    account_check, find_table, find_table_of, indexes_filter, indexes_filter_of, table_filter,
    table_filter_of, validate_account_id,
};
use crate::data::{collection_name, data_collection_name};
use crate::error::{ErrV, StorageError};
use crate::protocol::{
    fail_unexpected, fails, in_catalog, in_data, run, runs, unexpected, unpaged, Action, ActionV,
    Command, CommandV, Event, Paging, PagingV, Place, Reply, Step,
};
use crate::table::{
    add_indexes, read_table, table_of, with_indexes, TableDescription, TableStatus, TableV,
};

verus! {

// --- Describing ----------------------------------------------------------------------

/// Where the description of a table stands.
#[derive(Debug, PartialEq)]
pub enum DescribeTableState {
    FindingTable { table_name: String },
    /// The indexes of the table are being listed.
    ListingIndexes { table: TableDescription },
}

/// The command that lists the indexes of a table.
pub open spec fn list_indexes_of(table_id: Seq<char>) -> CommandV {
    CommandV::Find {
        at: in_catalog("indexes"@),
        filter: indexes_filter_of(table_id),
        paging: unpaged(),
    }
}

/// How the description of a table begins.
pub open spec fn describe_begins(
    account_id: Seq<char>,
    table_name: Seq<char>,
    step: Step<DescribeTableState, TableDescription>,
) -> bool {
    match account_check(account_id) {
        Err(e) => fails(step, e),
        Ok(_) => {
            &&& step matches Step::Do(DescribeTableState::FindingTable { table_name: n }, a)
            &&& n@ == table_name
            &&& a@ == ActionV::Run(find_table_of(account_id, table_name))
        },
    }
}

/// How the description of a table goes on with an event.
pub open spec fn describe_goes_on(
    state: DescribeTableState,
    event: Event,
    step: Step<DescribeTableState, TableDescription>,
) -> bool {
    match (state, event) {
        (
            DescribeTableState::FindingTable { table_name },
            Event::Replied(Reply::One(None)),
        ) => fails(step, ErrV::TableNotFound(table_name@)),
        (
            DescribeTableState::FindingTable { table_name },
            Event::Replied(Reply::One(Some(d))),
        ) => match table_of(d@) {
            Err(e) => fails(step, e),
            Ok(t) => {
                &&& step matches Step::Do(DescribeTableState::ListingIndexes { table }, a)
                &&& table@ == t
                &&& a@ == ActionV::Run(list_indexes_of(t.table_id))
            },
        },
        (
            DescribeTableState::ListingIndexes { table },
            Event::Replied(Reply::Many(docs)),
        ) => match with_indexes(table@, doc_seq(docs@)) {
            Err(e) => fails(step, e),
            Ok(t) => step matches Step::Done(Ok(x)) && x@ == t,
        },
        (_, Event::Replied(Reply::Failed(e))) => fails(step, ErrV::Internal(e.message@)),
        _ => fails(step, unexpected()),
    }
}

/// Begins describing a table.
pub fn describe_table_start(account_id: &str, table_name: &str) -> (step: Step<
    DescribeTableState,
    TableDescription,
>)
    ensures
        describe_begins(account_id@, table_name@, step),
{
    if let Err(e) = validate_account_id(account_id) {
        return Step::Done(Err(e));
    }
    run(
        DescribeTableState::FindingTable { table_name: table_name.to_owned() },
        find_table(account_id, table_name),
    )
}

/// Goes on with describing a table.
pub fn describe_table_next(state: DescribeTableState, event: Event) -> (step: Step<
    DescribeTableState,
    TableDescription,
>)
    ensures
        describe_goes_on(state, event, step),
{
    match (state, event) {
        (
            DescribeTableState::FindingTable { table_name },
            Event::Replied(Reply::One(None)),
        ) => Step::Done(Err(StorageError::TableNotFound(table_name))),
        (
            DescribeTableState::FindingTable { table_name },
            Event::Replied(Reply::One(Some(d))),
        ) => match read_table(&d) {
            Err(e) => Step::Done(Err(e)),
            Ok(table) => {
                let filter = indexes_filter(table.table_id.as_str());
                run(
                    DescribeTableState::ListingIndexes { table },
                    Command::Find {
                        at: Place::catalog("indexes"),
                        filter,
                        paging: Paging::none(),
                    },
                )
            },
        },
        (DescribeTableState::ListingIndexes { table }, Event::Replied(Reply::Many(docs))) => {
            Step::Done(add_indexes(table, &docs))
        },
        (_, Event::Replied(Reply::Failed(e))) => Step::Done(
            Err(StorageError::Internal(e.message)),
        ),
        _ => fail_unexpected(),
    }
}

// --- Deleting ------------------------------------------------------------------------

/// A table that is being deleted.
#[derive(Debug, PartialEq)]
pub struct Doomed {
    pub account_id: String,
    pub table_name: String,
    pub table: TableDescription,
}

/// Where the deletion of a table stands.
#[derive(Debug, PartialEq)]
pub enum DeleteTableState {
    Describing { account_id: String, table_name: String, inner: DescribeTableState },
    /// The table is being marked.
    Marking(Doomed),
    DroppingData(Doomed),
    DroppingIndexes(Doomed),
    /// What was noted of the indexes is being forgotten.
    Forgetting(Doomed),
    DroppingEntry(Doomed),
}

/// The command that marks a table as being deleted.
pub open spec fn mark_deleting_of(account_id: Seq<char>, table_name: Seq<char>) -> CommandV {
    CommandV::Update {
        at: in_catalog("tables"@),
        filter: table_filter_of(account_id, table_name),
        update: doc1("$set"@, obj1("table_status"@, BsonV::Str("DELETING"@))),
        upsert: false,
    }
}

/// The deletion takes the step of the description. A table that is protected
/// is not deleted; any other one is marked.
pub open spec fn delete_follows(
    account_id: String,
    table_name: String,
    inner: Step<DescribeTableState, TableDescription>,
    step: Step<DeleteTableState, TableDescription>,
) -> bool {
    match inner {
        Step::Do(s, a) => step == Step::<DeleteTableState, TableDescription>::Do(
            DeleteTableState::Describing { account_id, table_name, inner: s },
            a,
        ),
        Step::Done(Err(e)) => fails(step, e@),
        Step::Done(Ok(table)) => if table.deletion_protection {
            fails(step, ErrV::DeletionProtected(table_name@))
        } else {
            runs(
                step,
                DeleteTableState::Marking(Doomed { account_id, table_name, table }),
                mark_deleting_of(account_id@, table_name@),
            )
        },
    }
}

/// How the deletion of a table begins.
pub open spec fn delete_begins(
    account_id: Seq<char>,
    table_name: Seq<char>,
    step: Step<DeleteTableState, TableDescription>,
) -> bool {
    exists|a: String, n: String, inner: Step<DescribeTableState, TableDescription>|
        a@ == account_id && n@ == table_name && describe_begins(account_id, table_name, inner)
            && #[trigger] delete_follows(a, n, inner, step)
}

/// How the deletion of a table goes on with an event.
pub open spec fn delete_goes_on(
    state: DeleteTableState,
    event: Event,
    step: Step<DeleteTableState, TableDescription>,
) -> bool {
    match (state, event) {
        (DeleteTableState::Describing { account_id, table_name, inner }, _) => exists|
            s: Step<DescribeTableState, TableDescription>,
        |
            describe_goes_on(inner, event, s) && #[trigger] delete_follows(
                account_id,
                table_name,
                s,
                step,
            ),
        (_, Event::Replied(Reply::Failed(e))) => fails(step, ErrV::Internal(e.message@)),
        (DeleteTableState::Marking(d), Event::Replied(_)) => runs(
            step,
            DeleteTableState::DroppingData(d),
            CommandV::DropCollection { at: in_data(collection_name(d.table.table_id@)) },
        ),
        (DeleteTableState::DroppingData(d), Event::Replied(_)) => runs(
            step,
            DeleteTableState::DroppingIndexes(d),
            CommandV::DeleteMany {
                at: in_catalog("indexes"@),
                filter: indexes_filter_of(d.table.table_id@),
            },
        ),
        (DeleteTableState::DroppingIndexes(d), Event::Replied(_)) => {
            &&& step matches Step::Do(s, a)
            &&& s == DeleteTableState::Forgetting(d)
            &&& a@ == (ActionV::Remember { table_id: d.table.table_id@, has_indexes: None })
        },
        (DeleteTableState::Forgetting(d), Event::Remembered) => runs(
            step,
            DeleteTableState::DroppingEntry(d),
            CommandV::DeleteOne {
                at: in_catalog("tables"@),
                filter: table_filter_of(d.account_id@, d.table_name@),
            },
        ),
        (DeleteTableState::DroppingEntry(d), Event::Replied(_)) => {
            &&& step matches Step::Done(Ok(t))
            &&& t@ == (TableV { table_status: TableStatus::Deleting, ..d.table@ })
        },
        _ => fails(step, unexpected()),
    }
}

fn follow(
    account_id: String,
    table_name: String,
    inner: Step<DescribeTableState, TableDescription>,
) -> (step: Step<DeleteTableState, TableDescription>)
    ensures
        delete_follows(account_id, table_name, inner, step),
{
    match inner {
        Step::Do(s, a) => Step::Do(
            DeleteTableState::Describing { account_id, table_name, inner: s },
            a,
        ),
        Step::Done(Err(e)) => Step::Done(Err(e)),
        Step::Done(Ok(table)) => if table.deletion_protection {
            Step::Done(Err(StorageError::DeletionProtected(table_name)))
        } else {
            let filter = table_filter(account_id.as_str(), table_name.as_str());
            run(
                DeleteTableState::Marking(Doomed { account_id, table_name, table }),
                Command::Update {
                    at: Place::catalog("tables"),
                    filter,
                    update: Document::new().with(
                        "$set",
                        Bson::obj1("table_status", Bson::text("DELETING")),
                    ),
                    upsert: false,
                },
            )
        },
    }
}

/// Begins the deletion of a table.
pub fn delete_table_start(account_id: &str, table_name: &str) -> (step: Step<
    DeleteTableState,
    TableDescription,
>)
    ensures
        delete_begins(account_id@, table_name@, step),
{
    let inner = describe_table_start(account_id, table_name);
    let ghost i = inner;
    let a = account_id.to_owned();
    let n = table_name.to_owned();
    let ghost ga = a;
    let ghost gn = n;
    let step = follow(a, n, inner);
    assert(delete_follows(ga, gn, i, step));
    step
}

/// Goes on with the deletion of a table.
pub fn delete_table_next(state: DeleteTableState, event: Event) -> (step: Step<
    DeleteTableState,
    TableDescription,
>)
    ensures
        delete_goes_on(state, event, step),
{
    match (state, event) {
        (DeleteTableState::Describing { account_id, table_name, inner }, event) => {
            let s = describe_table_next(inner, event);
            follow(account_id, table_name, s)
        },
        (_, Event::Replied(Reply::Failed(e))) => Step::Done(
            Err(StorageError::Internal(e.message)),
        ),
        (DeleteTableState::Marking(d), Event::Replied(_)) => {
            let name = data_collection_name(d.table.table_id.as_str());
            run(
                DeleteTableState::DroppingData(d),
                Command::DropCollection { at: Place::data(name.as_str()) },
            )
        },
        (DeleteTableState::DroppingData(d), Event::Replied(_)) => {
            let filter = indexes_filter(d.table.table_id.as_str());
            run(
                DeleteTableState::DroppingIndexes(d),
                Command::DeleteMany { at: Place::catalog("indexes"), filter },
            )
        },
        (DeleteTableState::DroppingIndexes(d), Event::Replied(_)) => {
            let table_id = d.table.table_id.clone();
            Step::Do(
                DeleteTableState::Forgetting(d),
                Action::Remember { table_id, has_indexes: None },
            )
        },
        (DeleteTableState::Forgetting(d), Event::Remembered) => {
            let filter = table_filter(d.account_id.as_str(), d.table_name.as_str());
            run(
                DeleteTableState::DroppingEntry(d),
                Command::DeleteOne { at: Place::catalog("tables"), filter },
            )
        },
        (DeleteTableState::DroppingEntry(d), Event::Replied(_)) => {
            let mut t = d.table;
            t.table_status = TableStatus::Deleting;
            Step::Done(Ok(t))
        },
        _ => fail_unexpected(),
    }
}

// --- Listing -------------------------------------------------------------------------

/// How many names a list holds where nothing is said.
pub const DEFAULT_LIMIT: i64 = 100;

/// The command that lists the names of tables.
pub open spec fn list_tables_of(
    account_id: Seq<char>,
    start: Option<Seq<char>>,
    limit: i64,
) -> CommandV {
    let d = doc1("_id.account_id"@, BsonV::Str(account_id));
    CommandV::Find {
        at: in_catalog("tables"@),
        filter: match start {
            Some(s) => d.with("_id.table_name"@, obj1("$gt"@, BsonV::Str(s))),
            None => d,
        },
        paging: PagingV {
            sort: Some(doc1("_id.table_name"@, BsonV::Int32(1))),
            limit: Some((limit + 1) as i64),
            simple_collation: false,
            projection: Some(doc1("_id.table_name"@, BsonV::Int32(1))),
        },
    }
}

/// The limit of a list of tables.
pub open spec fn limit_or_default(limit: Option<u32>) -> i64 {
    match limit {
        Some(n) => n as i64,
        None => DEFAULT_LIMIT,
    }
}

/// The limit of a list of tables.
pub fn effective_limit(limit: Option<u32>) -> (r: i64)
    ensures
        r == limit_or_default(limit),
        0 <= r <= u32::MAX,
{
    match limit {
        Some(n) => n as i64,
        None => DEFAULT_LIMIT,
    }
}

/// The command that lists the names of tables: one more than the limit, so
/// that it shows whether there are more.
pub fn list_tables_command(account_id: &str, start: Option<&str>, limit: i64) -> (r: Result<
    Command,
    StorageError,
>)
    requires
        limit < i64::MAX,
    ensures
        match account_check(account_id@) {
            Err(e) => r matches Err(x) && x@ == e,
            Ok(_) => r matches Ok(c) && c@ == list_tables_of(account_id@, opt_text(start), limit),
        },
{
    if let Err(e) = validate_account_id(account_id) {
        return Err(e);
    }
    let d = Document::new().with("_id.account_id", Bson::text(account_id));
    let filter = match start {
        Some(s) => d.with("_id.table_name", Bson::obj1("$gt", Bson::text(s))),
        None => d,
    };
    Ok(
        Command::Find {
            at: Place::catalog("tables"),
            filter,
            paging: Paging {
                sort: Some(Document::new().with("_id.table_name", Bson::Int32(1))),
                limit: Some(limit + 1),
                simple_collation: false,
                projection: Some(Document::new().with("_id.table_name", Bson::Int32(1))),
            },
        },
    )
}

/// The name of the table that a document belongs to.
pub open spec fn name_in(d: DocV) -> Option<Seq<char>> {
    match d.get_document("_id"@) {
        Some(id) => id.get_str("table_name"@),
        None => None,
    }
}

/// The names of the tables that documents belong to, where they have one.
pub open spec fn names_in(docs: Seq<DocV>) -> Seq<Seq<char>>
    decreases docs.len(),
{
    if docs.len() == 0 {
        Seq::empty()
    } else {
        let rest = names_in(docs.drop_last());
        match name_in(docs.last()) {
            Some(n) => rest.push(n),
            None => rest,
        }
    }
}

/// A list of names of tables.
#[derive(Debug, PartialEq)]
pub struct TableNames {
    pub table_names: Vec<String>,
    /// The last name, where there are more.
    pub last_evaluated: Option<String>,
}

/// Collects the names of the tables that documents belong to.
pub fn collect_names(docs: &Vec<Document>) -> (r: Vec<String>)
    ensures
        text_seq(r@) == names_in(doc_seq(docs@)),
{
    let ghost ds = doc_seq(docs@);
    let mut names: Vec<String> = Vec::new();
    let mut i: usize = 0;
    assert(ds.take(0) =~= Seq::empty());
    assert(text_seq(names@) =~= Seq::empty());
    while i < docs.len()
        invariant
            i <= docs.len(),
            ds == doc_seq(docs@),
            text_seq(names@) == names_in(ds.take(i as int)),
        decreases docs.len() - i,
    {
        proof {
            assert(ds.take(i + 1).drop_last() =~= ds.take(i as int));
            assert(ds.take(i + 1).last() == docs@[i as int]@);
        }
        if let Some(id) = docs[i].get_document("_id") {
            if let Some(n) = id.get_str("table_name") {
                let ghost before = names@;
                names.push(n.to_owned());
                assert(text_seq(names@) =~= text_seq(before).push(n@));
            }
        }
        i += 1;
    }
    assert(ds.take(ds.len() as int) =~= ds);
    names
}

/// Reads a list of names of tables.
pub fn read_table_names(docs: &Vec<Document>, limit: i64) -> (r: TableNames)
    requires
        limit >= 0,
        limit == 0 ==> names_in(doc_seq(docs@)).len() == 0,
    ensures
        ({
            let names = names_in(doc_seq(docs@));
            if names.len() > limit {
                &&& text_seq(r.table_names@) == names.take(limit as int)
                &&& opt_string(r.last_evaluated) == Some(names[limit - 1])
            } else {
                &&& text_seq(r.table_names@) == names
                &&& r.last_evaluated is None
            }
        }),
{
    let mut names = collect_names(docs);
    let ghost all = text_seq(names@);
    if names.len() as u64 > limit as u64 {
        let n: usize = limit as usize;
        let last = names[n - 1].clone();
        names.truncate(n);
        assert(text_seq(names@) =~= all.take(n as int));
        return TableNames { table_names: names, last_evaluated: Some(last) };
    }
    TableNames { table_names: names, last_evaluated: None }
}

// --- Laws --------------------------------------------------------------------------

/// A table that is protected is not deleted: no further command is performed.
pub proof fn law_protected_table_is_kept(
    account_id: String,
    table_name: String,
    table: TableDescription,
    step: Step<DeleteTableState, TableDescription>,
)
    requires
        table.deletion_protection,
        delete_follows(account_id, table_name, Step::Done(Ok(table)), step),
    ensures
        fails(step, ErrV::DeletionProtected(table_name@)),
{
}

} // verus!
