//! Accounts.

use vstd::prelude::*;
use vstd::string::*;

use crate::bson::{doc_seq, text_seq, Bson, BsonV, DocV, Document};
use crate::management::{
    by1, counted, counted_said, filter1, gather_start, gathered_key_parts, gathers, insert,
    insert_of, inserted, inserted_said, key_parts, list_seq, listed, listed_said, lookup,
    lookup_of, nth_list, op_fails, op_pairs, op_runs, op_unit, ordered, ordered_of, pairs_said,
    read_pairs, remove, remove_of, removed, removed_said, unordered, unordered_of, Gathered,
    GatherState, OpErrV, OpError, OpStep,
};
use crate::protocol::{in_catalog, Command, CommandV, Place, Reply};

verus! {

/// The document of an account.
pub open spec fn account_document_of(id: Seq<char>, name: Seq<char>, now: i64) -> DocV {
    by1("_id"@, id).with("account_name"@, BsonV::Str(name)).with(
        "created_at"@,
        BsonV::DateTime(now),
    )
}

/// The command that creates an account.
pub fn create_account_command(account_id: &str, account_name: &str, now: i64) -> (r: Command)
    ensures
        r@ == insert_of("accounts"@, account_document_of(account_id@, account_name@, now)),
{
    insert(
        "accounts",
        filter1("_id", account_id).with("account_name", Bson::text(account_name)).with(
            "created_at",
            Bson::DateTime(now),
        ),
    )
}

/// Reads the answer to the creation of an account.
pub fn create_account_reply(reply: &Reply) -> (r: Result<(), OpError>)
    ensures
        op_unit(r) == inserted_said(*reply, "Account already exists"@),
{
    inserted(reply, "Account already exists")
}

// --- Deleting ------------------------------------------------------------------------

/// Where the deletion of an account stands.
#[derive(Debug, PartialEq)]
pub enum DeleteAccountState {
    /// The tables of the account are being counted.
    Counting { account_id: String },
    Removing,
}

/// The message for an account that still has tables.
pub open spec fn has_tables() -> OpErrV {
    OpErrV::HasDependents(
        "Cannot delete account with existing tables. Delete all tables first."@,
    )
}

/// How the deletion of an account goes on with an answer.
pub open spec fn delete_account_goes_on(
    state: DeleteAccountState,
    reply: Reply,
    step: OpStep<DeleteAccountState, ()>,
) -> bool {
    match state {
        DeleteAccountState::Counting { account_id } => match counted_said(reply) {
            Err(e) => op_fails(step, e),
            Ok(n) => if n > 0 {
                op_fails(step, has_tables())
            } else {
                op_runs(
                    step,
                    DeleteAccountState::Removing,
                    remove_of("accounts"@, by1("_id"@, account_id@)),
                )
            },
        },
        DeleteAccountState::Removing => step matches OpStep::Done(r) && op_unit(r) == removed_said(
            reply,
            "Account not found"@,
        ),
    }
}

/// Begins the deletion of an account.
pub fn delete_account_start(account_id: &str) -> (step: OpStep<DeleteAccountState, ()>)
    ensures
        step matches OpStep::Do(DeleteAccountState::Counting { account_id: a }, c) && a@
            == account_id@ && c@ == (CommandV::Count {
            at: in_catalog("tables"@),
            filter: by1("_id.account_id"@, account_id@),
        }),
{
    OpStep::Do(
        DeleteAccountState::Counting { account_id: account_id.to_owned() },
        Command::Count {
            at: Place::catalog("tables"),
            filter: filter1("_id.account_id", account_id),
        },
    )
}

/// Goes on with the deletion of an account. An account with tables is not
/// deleted.
pub fn delete_account_next(state: DeleteAccountState, reply: Reply) -> (step: OpStep<
    DeleteAccountState,
    (),
>)
    ensures
        delete_account_goes_on(state, reply, step),
{
    match state {
        DeleteAccountState::Counting { account_id } => match counted(&reply) {
            Err(e) => OpStep::Done(Err(e)),
            Ok(n) => if n > 0 {
                OpStep::Done(
                    Err(
                        OpError::HasDependents(
                            "Cannot delete account with existing tables. Delete all tables first.".to_owned(),
                        ),
                    ),
                )
            } else {
                OpStep::Do(
                    DeleteAccountState::Removing,
                    remove("accounts", filter1("_id", account_id.as_str())),
                )
            },
        },
        DeleteAccountState::Removing => OpStep::Done(removed(&reply, "Account not found")),
    }
}

// --- Listing -------------------------------------------------------------------------

/// The command that lists all accounts.
pub fn list_all_accounts_command() -> (r: Command)
    ensures
        r@ == ordered_of("accounts"@, DocV::empty(), "_id"@),
{
    ordered("accounts", Document::new(), "_id")
}

/// The command that lists the accounts with an identifier.
pub fn list_accounts_for_command(account_id: &str) -> (r: Command)
    ensures
        r@ == unordered_of("accounts"@, by1("_id"@, account_id@)),
{
    unordered("accounts", filter1("_id", account_id))
}

/// Reads the identifiers and names of accounts.
pub fn list_accounts_reply(reply: Reply) -> (r: Result<Vec<(String, String)>, OpError>)
    ensures
        op_pairs(r) == pairs_said(reply, "_id"@, "account_name"@),
{
    read_pairs(reply, "_id", "account_name")
}

/// An account with the time of its creation.
#[derive(Debug, PartialEq)]
pub struct AccountEntry {
    pub account_id: String,
    pub account_name: String,
    /// The time in milliseconds.
    pub created_at: i64,
}

/// The account that a document describes.
pub open spec fn account_of(d: DocV) -> Option<(Seq<char>, Seq<char>, i64)> {
    match (d.get_str("_id"@), d.get_str("account_name"@), d.get_datetime("created_at"@)) {
        (Some(i), Some(n), Some(t)) => Some((i, n, t)),
        _ => None,
    }
}

/// The accounts that documents describe.
pub open spec fn accounts_of(docs: Seq<DocV>) -> Seq<(Seq<char>, Seq<char>, i64)>
    decreases docs.len(),
{
    if docs.len() == 0 {
        Seq::empty()
    } else {
        let rest = accounts_of(docs.drop_last());
        match account_of(docs.last()) {
            Some(a) => rest.push(a),
            None => rest,
        }
    }
}

/// The models of a list of accounts.
pub open spec fn account_seq(v: Seq<AccountEntry>) -> Seq<(Seq<char>, Seq<char>, i64)> {
    Seq::new(v.len(), |i: int| (v[i].account_id@, v[i].account_name@, v[i].created_at))
}

/// Reads accounts with the times of their creation.
pub fn list_accounts_full_reply(reply: Reply) -> (r: Result<Vec<AccountEntry>, OpError>)
    ensures
        match (r, listed_said(reply)) {
            (Ok(v), Ok(docs)) => account_seq(v@) == accounts_of(docs),
            (Err(e), Err(x)) => e@ == x,
            _ => false,
        },
{
    let docs = match listed(reply) {
        Ok(docs) => docs,
        Err(e) => {
            return Err(e);
        },
    };
    let ghost ds = doc_seq(docs@);
    let mut out: Vec<AccountEntry> = Vec::new();
    let mut i: usize = 0;
    assert(ds.take(0) =~= Seq::empty());
    assert(account_seq(out@) =~= Seq::empty());
    while i < docs.len()
        invariant
            i <= docs.len(),
            ds == doc_seq(docs@),
            account_seq(out@) == accounts_of(ds.take(i as int)),
        decreases docs.len() - i,
    {
        proof {
            assert(ds.take(i + 1).drop_last() =~= ds.take(i as int));
            assert(ds.take(i + 1).last() == docs@[i as int]@);
        }
        let d = &docs[i];
        match (d.get_str("_id"), d.get_str("account_name"), d.get_datetime("created_at")) {
            (Some(id), Some(name), Some(created_at)) => {
                let ghost before = out@;
                let entry = AccountEntry {
                    account_id: id.to_owned(),
                    account_name: name.to_owned(),
                    created_at,
                };
                out.push(entry);
                assert(account_seq(out@) =~= account_seq(before).push((id@, name@, created_at)));
            },
            _ => {},
        }
        i += 1;
    }
    assert(ds.take(ds.len() as int) =~= ds);
    Ok(out)
}

// --- Details -------------------------------------------------------------------------

/// What is known of an account.
#[derive(Debug, PartialEq)]
pub struct AccountDetail {
    pub account_name: String,
    pub users: Vec<String>,
    pub groups: Vec<String>,
    pub roles: Vec<String>,
}

/// The queries that belong to an account.
pub open spec fn account_queries(account_id: Seq<char>) -> Seq<CommandV> {
    seq![
        ordered_of("iam_users"@, by1("_id.account_id"@, account_id), "_id.user_name"@),
        ordered_of("iam_groups"@, by1("_id.account_id"@, account_id), "_id.group_name"@),
        ordered_of("iam_roles"@, by1("_id.account_id"@, account_id), "_id.role_name"@),
    ]
}

/// Begins gathering what is known of an account.
pub fn account_detail_start(account_id: &str) -> (step: OpStep<GatherState, Option<Gathered>>)
    ensures
        gathers(
            step,
            lookup_of("accounts"@, by1("_id"@, account_id@)),
            account_queries(account_id@),
        ),
{
    let mut queries: Vec<Command> = Vec::new();
    queries.push(ordered("iam_users", filter1("_id.account_id", account_id), "_id.user_name"));
    queries.push(ordered("iam_groups", filter1("_id.account_id", account_id), "_id.group_name"));
    queries.push(ordered("iam_roles", filter1("_id.account_id", account_id), "_id.role_name"));
    assert(crate::management::command_seq(queries@) =~= account_queries(account_id@));
    gather_start(lookup("accounts", filter1("_id", account_id)), queries)
}

/// What was gathered of an account.
pub fn account_detail(g: &Gathered) -> (r: AccountDetail)
    ensures
        r.account_name@ == g.head@.str_or("account_name"@, ""@),
        text_seq(r.users@) == key_parts(nth_list(list_seq(g.lists@), 0), "user_name"@),
        text_seq(r.groups@) == key_parts(nth_list(list_seq(g.lists@), 1), "group_name"@),
        text_seq(r.roles@) == key_parts(nth_list(list_seq(g.lists@), 2), "role_name"@),
{
    AccountDetail {
        account_name: g.head.str_or("account_name", ""),
        users: gathered_key_parts(g, 0, "user_name"),
        groups: gathered_key_parts(g, 1, "group_name"),
        roles: gathered_key_parts(g, 2, "role_name"),
    }
}

// --- Counts --------------------------------------------------------------------------

/// Where the count of accounts and administrators stands.
#[derive(Debug, Clone, Copy, PartialEq, Eq, Structural)]
pub enum DashboardState {
    Accounts,
    Admins { accounts: i64 },
}

/// How the count of accounts and administrators goes on with an answer.
pub open spec fn dashboard_goes_on(
    state: DashboardState,
    reply: Reply,
    step: OpStep<DashboardState, (i64, i64)>,
) -> bool {
    match counted_said(reply) {
        Err(e) => op_fails(step, e),
        Ok(n) => match state {
            DashboardState::Accounts => op_runs(
                step,
                DashboardState::Admins { accounts: n },
                CommandV::Count { at: in_catalog("admin_users"@), filter: DocV::empty() },
            ),
            DashboardState::Admins { accounts } => step == OpStep::<
                DashboardState,
                (i64, i64),
            >::Done(Ok((accounts, n))),
        },
    }
}

/// Begins the count of accounts and administrators.
pub fn dashboard_start() -> (step: OpStep<DashboardState, (i64, i64)>)
    ensures
        op_runs(
            step,
            DashboardState::Accounts,
            CommandV::Count { at: in_catalog("accounts"@), filter: DocV::empty() },
        ),
{
    OpStep::Do(
        DashboardState::Accounts,
        Command::Count { at: Place::catalog("accounts"), filter: Document::new() },
    )
}

/// Goes on with the count of accounts and administrators.
pub fn dashboard_next(state: DashboardState, reply: &Reply) -> (step: OpStep<
    DashboardState,
    (i64, i64),
>)
    ensures
        dashboard_goes_on(state, *reply, step),
{
    match counted(reply) {
        Err(e) => OpStep::Done(Err(e)),
        Ok(n) => match state {
            DashboardState::Accounts => OpStep::Do(
                DashboardState::Admins { accounts: n },
                Command::Count { at: Place::catalog("admin_users"), filter: Document::new() },
            ),
            DashboardState::Admins { accounts } => OpStep::Done(Ok((accounts, n))),
        },
    }
}

// --- Laws --------------------------------------------------------------------------

/// An account with tables is not deleted: no further command is performed.
pub proof fn law_account_with_tables_is_kept(
    account_id: String,
    n: u64,
    step: OpStep<DeleteAccountState, ()>,
)
    requires
        0 < n <= i64::MAX,
        delete_account_goes_on(
            DeleteAccountState::Counting { account_id },
            Reply::Counted(n),
            step,
        ),
    ensures
        op_fails(step, has_tables()),
{
}

/// An account that was created is listed under its identifier and name.
pub proof fn law_account_reads_back(id: Seq<char>, name: Seq<char>, now: i64)
    ensures
        account_of(account_document_of(id, name, now)) == Some((id, name, now)),
{
    broadcast use crate::bson::group_document_fields;

    reveal_strlit("_id");
    reveal_strlit("account_name");
    reveal_strlit("created_at");
    assert("_id"@.len() == 3 && "account_name"@.len() == 12 && "created_at"@.len() == 10);
}

} // verus!
