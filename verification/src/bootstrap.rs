//! Setting the databases up: collections, indexes, the encryption key, the
//! first account and the first administrator.

use vstd::prelude::*;
use vstd::string::*;

use crate::accounts::{account_document_of, account_of, law_account_reads_back};
use crate::administration::{admin_document_of, set_setting_command, set_setting_of};
use crate::bson::{doc1, doc_seq, obj1, text_seq, Bson, BsonV, DocV, Document};
use crate::describe_table::names_in;
use crate::management::{by1, filter1, insert, insert_of, lookup, lookup_of, OpErrV, OpError};
use crate::protocol::{
    in_catalog, in_data, plain_index, unique_index, Command, CommandV, Db, DbError, IndexOptions,
    IndexOptionsV, Paging, PagingV, Place, Reply,
};
use crate::text::{join3, text_eq};

verus! {

/// The version of the catalog.
pub fn expected_catalog_version() -> (r: &'static str)
    ensures
        r@ == "0.0.2"@,
{
    "0.0.2"
}

/// The name of the catalog database.
pub fn catalog_database_name() -> (r: &'static str)
    ensures
        r@ == "extenddb_catalog"@,
{
    "extenddb_catalog"
}

/// The name of the data database.
pub fn data_database_name() -> (r: &'static str)
    ensures
        r@ == "extenddb_data"@,
{
    "extenddb_data"
}

/// The address of the catalog database under a connection.
pub fn catalog_connection_url(connection_string: &str) -> (r: String)
    ensures
        r@ == connection_string@ + "/"@ + "extenddb_catalog"@,
{
    join3(connection_string, "/", "extenddb_catalog")
}

// --- Scripts with words for their errors ---------------------------------------------

/// A command of the setup.
#[derive(Debug, PartialEq)]
pub struct SetupLine {
    pub command: Command,
    /// What a refusal is called; `None` passes a refusal over.
    pub label: Option<String>,
}

/// Where the setup stands.
#[derive(Debug, PartialEq)]
pub struct Setup {
    /// The commands that are left, in order.
    pub left: Vec<SetupLine>,
    /// What a refusal of the current command is called.
    pub label: Option<String>,
}

/// One step of the setup.
#[derive(Debug, PartialEq)]
pub enum SetupStep {
    Do(Setup, Command),
    Done(Result<(), OpError>),
}

/// The model of a command of the setup.
pub open spec fn setup_seq(v: Seq<SetupLine>) -> Seq<(CommandV, Option<Seq<char>>)> {
    Seq::new(v.len(), |i: int| (v[i].command@, crate::bson::opt_string(v[i].label)))
}

/// The error for a refusal under a name.
pub open spec fn labelled_error(label: Seq<char>, e: DbError) -> OpErrV {
    OpErrV::Internal(label + ": "@ + e.message@)
}

fn label_error(label: &str, e: &DbError) -> (r: OpError)
    ensures
        r@ == labelled_error(label@, *e),
{
    OpError::Internal(join3(label, ": ", e.message.as_str()))
}

/// The setup performs the first of `lines`, and then the others; without
/// lines it is done.
pub open spec fn setup_leads(lines: Seq<(CommandV, Option<Seq<char>>)>, step: SetupStep) -> bool {
    if lines.len() == 0 {
        step == SetupStep::Done(Ok(()))
    } else {
        &&& step matches SetupStep::Do(s, c)
        &&& c@ == lines[0].0
        &&& crate::bson::opt_string(s.label) == lines[0].1
        &&& setup_seq(s.left@) == lines.skip(1)
    }
}

/// How the setup goes on with an answer.
pub open spec fn setup_goes_on(s: Setup, reply: Reply, step: SetupStep) -> bool {
    match (reply, s.label) {
        (Reply::Failed(e), Some(label)) => step matches SetupStep::Done(Err(x)) && x@
            == labelled_error(label@, e),
        _ => setup_leads(setup_seq(s.left@), step),
    }
}

/// Begins a setup.
pub fn setup_start(lines: Vec<SetupLine>) -> (step: SetupStep)
    ensures
        setup_leads(setup_seq(lines@), step),
{
    if lines.len() == 0 {
        return SetupStep::Done(Ok(()));
    }
    let ghost before = lines@;
    let mut left = lines;
    let first = left.remove(0);
    assert(setup_seq(left@) =~= setup_seq(before).skip(1));
    SetupStep::Do(Setup { left, label: first.label }, first.command)
}

/// Goes on with a setup.
pub fn setup_next(s: Setup, reply: &Reply) -> (step: SetupStep)
    ensures
        setup_goes_on(s, *reply, step),
{
    match (reply, &s.label) {
        (Reply::Failed(e), Some(label)) => SetupStep::Done(Err(label_error(label.as_str(), e))),
        _ => setup_start(s.left),
    }
}

fn named(lines: &mut Vec<SetupLine>, command: Command, label: &str)
    ensures
        setup_seq(final(lines)@) == setup_seq(old(lines)@).push((command@, Some(label@))),
{
    let ghost before = lines@;
    lines.push(SetupLine { command, label: Some(label.to_owned()) });
    assert(setup_seq(lines@) =~= setup_seq(before).push((command@, Some(label@))));
}

fn passed(lines: &mut Vec<SetupLine>, command: Command)
    ensures
        setup_seq(final(lines)@) == setup_seq(old(lines)@).push((command@, None)),
{
    let ghost before = lines@;
    lines.push(SetupLine { command, label: None });
    assert(setup_seq(lines@) =~= setup_seq(before).push((command@, None)));
}

fn empty_setup() -> (r: Vec<SetupLine>)
    ensures
        setup_seq(r@) == Seq::<(CommandV, Option<Seq<char>>)>::empty(),
{
    let r: Vec<SetupLine> = Vec::new();
    assert(setup_seq(r@) =~= Seq::empty());
    r
}

// --- The databases -------------------------------------------------------------------

/// The commands that create the catalog database.
pub open spec fn catalog_lines() -> Seq<(CommandV, Option<Seq<char>>)> {
    seq![
        (
            CommandV::CreateCollection { at: in_catalog("schema_history"@) },
            Some("Failed to create catalog db"@),
        ),
    ]
}

/// The script that creates the catalog database.
pub fn create_catalog_db() -> (r: Vec<SetupLine>)
    ensures
        setup_seq(r@) == catalog_lines(),
{
    let mut lines = empty_setup();
    named(
        &mut lines,
        Command::CreateCollection { at: Place::catalog("schema_history") },
        "Failed to create catalog db",
    );
    assert(setup_seq(lines@) =~= catalog_lines());
    lines
}

/// For how many seconds idempotency tokens are kept.
pub const TOKEN_SECONDS: u64 = 600;

/// An index by which documents expire.
pub open spec fn expiring_index(seconds: u64) -> IndexOptionsV {
    IndexOptionsV { expire_after: Some(seconds), ..plain_index() }
}

fn expiring(seconds: u64) -> (r: IndexOptions)
    ensures
        r@ == expiring_index(seconds),
{
    IndexOptions {
        unique: false,
        sparse: false,
        simple_collation: false,
        name: None,
        expire_after: Some(seconds),
        partial: None,
    }
}

/// An index that holds only the documents that a filter matches.
pub open spec fn partial_index(filter: DocV) -> IndexOptionsV {
    IndexOptionsV { partial: Some(filter), ..plain_index() }
}

fn partial(filter: Document) -> (r: IndexOptions)
    ensures
        r@ == partial_index(filter@),
{
    IndexOptions {
        unique: false,
        sparse: false,
        simple_collation: false,
        name: None,
        expire_after: None,
        partial: Some(filter),
    }
}

/// The commands that create the data database.
pub open spec fn data_lines() -> Seq<(CommandV, Option<Seq<char>>)> {
    seq![
        (
            CommandV::CreateCollection { at: in_data("idempotency_tokens"@) },
            Some("Failed to create data db"@),
        ),
        (
            CommandV::CreateIndex {
                at: in_data("idempotency_tokens"@),
                keys: doc1("created_at"@, BsonV::Int32(1)),
                options: expiring_index(TOKEN_SECONDS),
            },
            Some("Failed to create TTL index"@),
        ),
    ]
}

/// The script that creates the data database.
pub fn create_data_db() -> (r: Vec<SetupLine>)
    ensures
        setup_seq(r@) == data_lines(),
{
    let mut lines = empty_setup();
    named(
        &mut lines,
        Command::CreateCollection { at: Place::data("idempotency_tokens") },
        "Failed to create data db",
    );
    named(
        &mut lines,
        Command::CreateIndex {
            at: Place::data("idempotency_tokens"),
            keys: Document::new().with("created_at", Bson::Int32(1)),
            options: expiring(TOKEN_SECONDS),
        },
        "Failed to create TTL index",
    );
    assert(setup_seq(lines@) =~= data_lines());
    lines
}

// --- The catalog ---------------------------------------------------------------------

/// The collections of the catalog.
pub open spec fn catalog_collections() -> Seq<Seq<char>> {
    seq![
        "accounts"@,
        "tables"@,
        "indexes"@,
        "tags"@,
        "settings"@,
        "admin_users"@,
        "iam_users"@,
        "access_keys"@,
        "iam_groups"@,
        "iam_roles"@,
        "iam_sessions"@,
        "iam_policies"@,
        "iam_permissions_boundaries"@,
        "metrics"@,
        "login_attempts"@,
        "backups"@,
        "continuous_backups"@,
    ]
}

/// The commands that create the collections of the catalog. One that exists
/// already is passed over.
pub open spec fn collection_lines() -> Seq<(CommandV, Option<Seq<char>>)> {
    Seq::new(
        catalog_collections().len(),
        |i: int|
            (CommandV::CreateCollection { at: in_catalog(catalog_collections()[i]) }, None),
    )
}

/// The command that creates an index of the catalog on one field.
pub open spec fn index_of(collection: Seq<char>, field: Seq<char>, options: IndexOptionsV) -> CommandV {
    CommandV::CreateIndex {
        at: in_catalog(collection),
        keys: doc1(field, BsonV::Int32(1)),
        options,
    }
}

/// The command that creates an index of the catalog on two fields.
pub open spec fn index2_of(
    collection: Seq<char>,
    a: Seq<char>,
    b: Seq<char>,
    options: IndexOptionsV,
) -> CommandV {
    CommandV::CreateIndex {
        at: in_catalog(collection),
        keys: doc1(a, BsonV::Int32(1)).with(b, BsonV::Int32(1)),
        options,
    }
}

/// The commands that create the indexes of the catalog.
pub open spec fn catalog_index_lines() -> Seq<(CommandV, Option<Seq<char>>)> {
    seq![
        (
            index_of("accounts"@, "account_name"@, unique_index()),
            Some("accounts index"@),
        ),
        (index_of("tables"@, "table_id"@, unique_index()), Some("tables table_id index"@)),
        (
            index_of(
                "tables"@,
                "status_transition_at"@,
                partial_index(
                    doc1("status_transition_at"@, obj1("$type"@, BsonV::Str("date"@))),
                ),
            ),
            Some("tables status_transition_at index"@),
        ),
        (index_of("iam_users"@, "user_arn"@, unique_index()), Some("iam_users user_arn index"@)),
        (
            index2_of("access_keys"@, "account_id"@, "user_name"@, plain_index()),
            Some("access_keys index"@),
        ),
        (index_of("iam_groups"@, "group_arn"@, unique_index()), Some("iam_groups index"@)),
        (index_of("iam_roles"@, "role_arn"@, unique_index()), Some("iam_roles index"@)),
        (
            index_of("iam_sessions"@, "access_key_id"@, unique_index()),
            Some("iam_sessions access_key index"@),
        ),
        (
            index_of("iam_sessions"@, "expires_at"@, expiring_index(0)),
            Some("iam_sessions TTL index"@),
        ),
        (index_of("metrics"@, "_id.bucket"@, plain_index()), Some("metrics bucket index"@)),
        (
            index2_of("login_attempts"@, "principal"@, "attempted_at"@, plain_index()),
            Some("login_attempts index"@),
        ),
        (
            index2_of(
                "login_attempts"@,
                "source_ip"@,
                "attempted_at"@,
                partial_index(doc1("source_ip"@, obj1("$exists"@, BsonV::Boolean(true)))),
            ),
            Some("login_attempts source_ip index"@),
        ),
        (
            index2_of("backups"@, "account_id"@, "table_name"@, plain_index()),
            Some("backups index"@),
        ),
    ]
}

/// The commands that note the version of the catalog and that it was set up.
/// What was noted before is kept.
pub open spec fn version_lines(now: i64) -> Seq<(CommandV, Option<Seq<char>>)> {
    seq![
        (
            CommandV::Update {
                at: in_catalog("settings"@),
                filter: by1("_id"@, "catalog_version"@),
                update: doc1("$setOnInsert"@, BsonV::Doc(by1("value"@, "0.0.2"@))),
                upsert: true,
            },
            None,
        ),
        (
            insert_of(
                "schema_history"@,
                by1("_id"@, "001_initial"@).with("applied_at"@, BsonV::DateTime(now)),
            ),
            None,
        ),
    ]
}

/// The commands that set the catalog up.
pub open spec fn migration_lines(now: i64) -> Seq<(CommandV, Option<Seq<char>>)> {
    collection_lines() + catalog_index_lines() + version_lines(now)
}

fn index(collection: &str, field: &str, options: IndexOptions) -> (r: Command)
    ensures
        r@ == index_of(collection@, field@, options@),
{
    Command::CreateIndex {
        at: Place::catalog(collection),
        keys: Document::new().with(field, Bson::Int32(1)),
        options,
    }
}

fn index2(collection: &str, a: &str, b: &str, options: IndexOptions) -> (r: Command)
    ensures
        r@ == index2_of(collection@, a@, b@, options@),
{
    Command::CreateIndex {
        at: Place::catalog(collection),
        keys: Document::new().with(a, Bson::Int32(1)).with(b, Bson::Int32(1)),
        options,
    }
}

fn add_collection(lines: &mut Vec<SetupLine>, name: &str)
    ensures
        setup_seq(final(lines)@) == setup_seq(old(lines)@).push(
            (CommandV::CreateCollection { at: in_catalog(name@) }, None),
        ),
{
    passed(lines, Command::CreateCollection { at: Place::catalog(name) })
}

fn add_collections(lines: &mut Vec<SetupLine>)
    requires
        old(lines)@.len() == 0,
    ensures
        setup_seq(final(lines)@) == collection_lines(),
{
    add_collection(lines, "accounts");
    add_collection(lines, "tables");
    add_collection(lines, "indexes");
    add_collection(lines, "tags");
    add_collection(lines, "settings");
    add_collection(lines, "admin_users");
    add_collection(lines, "iam_users");
    add_collection(lines, "access_keys");
    add_collection(lines, "iam_groups");
    add_collection(lines, "iam_roles");
    add_collection(lines, "iam_sessions");
    add_collection(lines, "iam_policies");
    add_collection(lines, "iam_permissions_boundaries");
    add_collection(lines, "metrics");
    add_collection(lines, "login_attempts");
    add_collection(lines, "backups");
    add_collection(lines, "continuous_backups");
    assert(setup_seq(lines@) =~= collection_lines());
}

#[verifier::rlimit(60)]
#[verifier::spinoff_prover]
fn add_catalog_indexes(lines: &mut Vec<SetupLine>)
    ensures
        setup_seq(final(lines)@) == setup_seq(old(lines)@) + catalog_index_lines(),
{
    let ghost before = setup_seq(lines@);
    named(lines, index("accounts", "account_name", IndexOptions::unique()), "accounts index");
    named(lines, index("tables", "table_id", IndexOptions::unique()), "tables table_id index");
    let dated = Document::new().with(
        "status_transition_at",
        Bson::obj1("$type", Bson::text("date")),
    );
    named(
        lines,
        index("tables", "status_transition_at", partial(dated)),
        "tables status_transition_at index",
    );
    named(lines, index("iam_users", "user_arn", IndexOptions::unique()), "iam_users user_arn index");
    named(
        lines,
        index2("access_keys", "account_id", "user_name", IndexOptions::plain()),
        "access_keys index",
    );
    named(lines, index("iam_groups", "group_arn", IndexOptions::unique()), "iam_groups index");
    named(lines, index("iam_roles", "role_arn", IndexOptions::unique()), "iam_roles index");
    named(
        lines,
        index("iam_sessions", "access_key_id", IndexOptions::unique()),
        "iam_sessions access_key index",
    );
    named(lines, index("iam_sessions", "expires_at", expiring(0)), "iam_sessions TTL index");
    named(lines, index("metrics", "_id.bucket", IndexOptions::plain()), "metrics bucket index");
    named(
        lines,
        index2("login_attempts", "principal", "attempted_at", IndexOptions::plain()),
        "login_attempts index",
    );
    let known = Document::new().with("source_ip", Bson::obj1("$exists", Bson::Boolean(true)));
    named(
        lines,
        index2("login_attempts", "source_ip", "attempted_at", partial(known)),
        "login_attempts source_ip index",
    );
    named(
        lines,
        index2("backups", "account_id", "table_name", IndexOptions::plain()),
        "backups index",
    );
    assert(setup_seq(lines@) =~= before + catalog_index_lines());
}

/// The script that sets the catalog up; `now` is the time in milliseconds.
pub fn run_catalog_migrations(now: i64) -> (r: Vec<SetupLine>)
    ensures
        setup_seq(r@) == migration_lines(now),
{
    let mut lines: Vec<SetupLine> = Vec::new();
    add_collections(&mut lines);
    add_catalog_indexes(&mut lines);
    let ghost before = setup_seq(lines@);
    passed(
        &mut lines,
        Command::Update {
            at: Place::catalog("settings"),
            filter: filter1("_id", "catalog_version"),
            update: Document::new().with("$setOnInsert", Bson::Document(filter1("value", "0.0.2"))),
            upsert: true,
        },
    );
    passed(
        &mut lines,
        insert(
            "schema_history",
            filter1("_id", "001_initial").with("applied_at", Bson::DateTime(now)),
        ),
    );
    assert(setup_seq(lines@) =~= before + version_lines(now));
    lines
}

/// The commands that note where the data is.
pub open spec fn connection_lines(connection_string: Seq<char>) -> Seq<
    (CommandV, Option<Seq<char>>),
> {
    seq![
        (
            set_setting_of("data_database_name"@, "extenddb_data"@),
            Some("record_data_connection"@),
        ),
        (
            set_setting_of("data_connection_string"@, connection_string),
            Some("record data_connection_string"@),
        ),
    ]
}

/// The script that notes where the data is.
pub fn record_data_connection(connection_string: &str) -> (r: Vec<SetupLine>)
    ensures
        setup_seq(r@) == connection_lines(connection_string@),
{
    let mut lines = empty_setup();
    named(
        &mut lines,
        set_setting_command("data_database_name", "extenddb_data"),
        "record_data_connection",
    );
    named(
        &mut lines,
        set_setting_command("data_connection_string", connection_string),
        "record data_connection_string",
    );
    assert(setup_seq(lines@) =~= connection_lines(connection_string@));
    lines
}

/// The commands that remove the databases, the data first.
pub open spec fn drop_lines() -> Seq<(CommandV, Option<Seq<char>>)> {
    seq![
        (CommandV::DropDatabase { db: Db::Data }, Some("drop data db"@)),
        (CommandV::DropDatabase { db: Db::Catalog }, Some("drop catalog db"@)),
    ]
}

/// The script that removes the databases.
pub fn drop_databases() -> (r: Vec<SetupLine>)
    ensures
        setup_seq(r@) == drop_lines(),
{
    let mut lines = empty_setup();
    named(&mut lines, Command::DropDatabase { db: Db::Data }, "drop data db");
    named(&mut lines, Command::DropDatabase { db: Db::Catalog }, "drop catalog db");
    assert(setup_seq(lines@) =~= drop_lines());
    lines
}

// --- The encryption key --------------------------------------------------------------

/// What is to be done where the encryption key was looked up: nothing, where
/// there is one; else the new key is stored, which may lose a race.
pub open spec fn key_plan(reply: Reply, key: Seq<char>) -> Result<
    Seq<(CommandV, Option<Seq<char>>)>,
    OpErrV,
> {
    match reply {
        Reply::One(Some(_)) => Ok(Seq::empty()),
        Reply::One(None) => Ok(
            seq![
                (
                    insert_of(
                        "settings"@,
                        by1("_id"@, "encryption_key"@).with("value"@, BsonV::Str(key)),
                    ),
                    None,
                ),
            ],
        ),
        Reply::Failed(e) => Err(labelled_error("check encryption key"@, e)),
        _ => Err(crate::management::misplaced()),
    }
}

/// The command that looks the encryption key up.
pub fn find_encryption_key_command() -> (r: Command)
    ensures
        r@ == lookup_of("settings"@, by1("_id"@, "encryption_key"@)),
{
    lookup("settings", filter1("_id", "encryption_key"))
}

/// What is to be done where the encryption key was looked up; `key` is a new
/// one.
pub fn bootstrap_encryption_key(reply: &Reply, key: &str) -> (r: Result<Vec<SetupLine>, OpError>)
    ensures
        match (r, key_plan(*reply, key@)) {
            (Ok(v), Ok(lines)) => setup_seq(v@) == lines,
            (Err(e), Err(x)) => e@ == x,
            _ => false,
        },
{
    match reply {
        Reply::One(Some(_)) => Ok(empty_setup()),
        Reply::One(None) => {
            let mut lines = empty_setup();
            passed(
                &mut lines,
                insert(
                    "settings",
                    filter1("_id", "encryption_key").with("value", Bson::text(key)),
                ),
            );
            assert(setup_seq(lines@) =~= key_plan(*reply, key@)->Ok_0);
            Ok(lines)
        },
        Reply::Failed(e) => Err(label_error("check encryption key", e)),
        _ => Err(crate::management::misplaced_reply()),
    }
}

// --- The first account ---------------------------------------------------------------

/// What is to be done where the accounts were counted: the default account is
/// created where there is none.
pub open spec fn account_plan(reply: Reply, account_id: Seq<char>, now: i64) -> Result<
    Seq<(CommandV, Option<Seq<char>>)>,
    OpErrV,
> {
    match reply {
        Reply::Counted(n) => if n > 0 {
            Ok(Seq::empty())
        } else {
            Ok(
                seq![
                    (
                        insert_of(
                            "accounts"@,
                            account_document_of(account_id, "default"@, now),
                        ),
                        Some("create default account"@),
                    ),
                ],
            )
        },
        Reply::Failed(e) => Err(labelled_error("count accounts"@, e)),
        _ => Err(crate::management::misplaced()),
    }
}

/// The command that counts the accounts.
pub fn count_accounts_command() -> (r: Command)
    ensures
        r@ == (CommandV::Count { at: in_catalog("accounts"@), filter: DocV::empty() }),
{
    Command::Count { at: Place::catalog("accounts"), filter: Document::new() }
}

/// What is to be done where the accounts were counted; `account_id` is a new
/// identifier.
pub fn bootstrap_default_account(reply: &Reply, account_id: &str, now: i64) -> (r: Result<
    Vec<SetupLine>,
    OpError,
>)
    ensures
        match (r, account_plan(*reply, account_id@, now)) {
            (Ok(v), Ok(lines)) => setup_seq(v@) == lines,
            (Err(e), Err(x)) => e@ == x,
            _ => false,
        },
{
    match reply {
        Reply::Counted(n) => {
            let mut lines = empty_setup();
            if *n > 0 {
                return Ok(lines);
            }
            named(
                &mut lines,
                insert(
                    "accounts",
                    filter1("_id", account_id).with("account_name", Bson::text("default")).with(
                        "created_at",
                        Bson::DateTime(now),
                    ),
                ),
                "create default account",
            );
            assert(setup_seq(lines@) =~= account_plan(*reply, account_id@, now)->Ok_0);
            Ok(lines)
        },
        Reply::Failed(e) => Err(label_error("count accounts", e)),
        _ => Err(crate::management::misplaced_reply()),
    }
}

// --- The first administrator ---------------------------------------------------------

/// The name of the first administrator: the one that is given, or else
/// `admin`.
pub open spec fn admin_name_of(given: Option<Seq<char>>) -> Seq<char> {
    match given {
        Some(n) => n,
        None => "admin"@,
    }
}

/// The name of the first administrator.
pub fn admin_name(given: Option<&str>) -> (r: String)
    ensures
        r@ == admin_name_of(crate::bson::opt_text(given)),
{
    match given {
        Some(n) => n.to_owned(),
        None => "admin".to_owned(),
    }
}

/// What became of the first administrator.
#[derive(Debug, PartialEq)]
pub struct AdminBootstrap {
    pub username: String,
    /// The password, where it was made up.
    pub generated_password: Option<String>,
    pub already_existed: bool,
    /// Whether what is given was used: the name of an administrator who
    /// existed, else the password.
    pub from_env: bool,
}

/// What is to be done where the first administrator was looked up.
#[derive(Debug, PartialEq)]
pub enum AdminPlan {
    /// The administrator exists.
    Keep(AdminBootstrap),
    /// The administrator is to be created with the hash of a password.
    Create { username: String, password: String, given: bool },
}

/// Decides what is to be done where the first administrator was looked up;
/// `new_password` is one that was made up.
pub fn plan_admin(
    reply: &Reply,
    env_user: Option<&str>,
    env_password: Option<&str>,
    new_password: &str,
) -> (r: Result<AdminPlan, OpError>)
    ensures
        match *reply {
            Reply::One(Some(_)) => {
                &&& r matches Ok(AdminPlan::Keep(b))
                &&& b.username@ == admin_name_of(crate::bson::opt_text(env_user))
                &&& b.generated_password is None
                &&& b.already_existed
                &&& b.from_env == env_user is Some
            },
            Reply::One(None) => {
                &&& r matches Ok(AdminPlan::Create { username, password, given })
                &&& username@ == admin_name_of(crate::bson::opt_text(env_user))
                &&& given == env_password is Some
                &&& password@ == (match env_password {
                    Some(p) => p@,
                    None => new_password@,
                })
            },
            Reply::Failed(e) => r matches Err(x) && x@ == labelled_error("check admin"@, e),
            _ => r matches Err(x) && x@ == crate::management::misplaced(),
        },
{
    match reply {
        Reply::One(Some(_)) => Ok(
            AdminPlan::Keep(
                AdminBootstrap {
                    username: admin_name(env_user),
                    generated_password: None,
                    already_existed: true,
                    from_env: env_user.is_some(),
                },
            ),
        ),
        Reply::One(None) => Ok(
            match env_password {
                Some(p) => AdminPlan::Create {
                    username: admin_name(env_user),
                    password: p.to_owned(),
                    given: true,
                },
                None => AdminPlan::Create {
                    username: admin_name(env_user),
                    password: new_password.to_owned(),
                    given: false,
                },
            },
        ),
        Reply::Failed(e) => Err(label_error("check admin", e)),
        _ => Err(crate::management::misplaced_reply()),
    }
}

/// The error that a password has no hash.
pub fn no_hash_error() -> (r: OpError)
    ensures
        r@ == OpErrV::Internal("bcrypt hash: no hash"@),
{
    OpError::Internal("bcrypt hash: no hash".to_owned())
}

/// The command that creates the first administrator.
pub fn bootstrap_admin_command(username: &str, password_hash: &str, now: i64) -> (r: Command)
    ensures
        r@ == insert_of("admin_users"@, admin_document_of(username@, password_hash@, now)),
{
    crate::administration::create_admin_command(username, password_hash, now)
}

/// What became of the first administrator, from the answer to their creation.
/// A password that was made up is handed out.
pub fn bootstrap_admin_reply(reply: &Reply, username: &str, password: &str, given: bool) -> (r:
    Result<AdminBootstrap, OpError>)
    ensures
        match *reply {
            Reply::Failed(e) => r matches Err(x) && x@ == labelled_error("create admin"@, e),
            _ => {
                &&& r matches Ok(b)
                &&& b.username@ == username@
                &&& crate::bson::opt_string(b.generated_password) == (if given {
                    None
                } else {
                    Some(password@)
                })
                &&& !b.already_existed
                &&& b.from_env == given
            },
        },
{
    match reply {
        Reply::Failed(e) => Err(label_error("create admin", e)),
        _ => Ok(
            AdminBootstrap {
                username: username.to_owned(),
                generated_password: if given {
                    None
                } else {
                    Some(password.to_owned())
                },
                already_existed: false,
                from_env: given,
            },
        ),
    }
}

// --- Lookups -------------------------------------------------------------------------

/// Whether the catalog is set up, from the names of its collections.
pub fn is_catalog_initialized(reply: &Reply) -> (r: Result<bool, OpError>)
    ensures
        match *reply {
            Reply::Names(names) => r == Ok::<bool, OpError>(
                text_seq(names@).contains("settings"@),
            ),
            Reply::Failed(e) => r matches Err(x) && x@ == labelled_error("list collections"@, e),
            _ => r matches Err(x) && x@ == crate::management::misplaced(),
        },
{
    match reply {
        Reply::Names(names) => {
            let mut i: usize = 0;
            while i < names.len()
                invariant
                    i <= names.len(),
                    *reply == Reply::Names(*names),
                    forall|j: int| 0 <= j < i ==> (#[trigger] text_seq(names@)[j]) != "settings"@,
                decreases names.len() - i,
            {
                if text_eq(names[i].as_str(), "settings") {
                    assert(text_seq(names@)[i as int] == "settings"@);
                    return Ok(true);
                }
                i += 1;
            }
            Ok(false)
        },
        Reply::Failed(e) => Err(label_error("list collections", e)),
        _ => Err(crate::management::misplaced_reply()),
    }
}

/// The command that lists the names of all tables.
pub fn list_table_names_command() -> (r: Command)
    ensures
        r@ == (CommandV::Find {
            at: in_catalog("tables"@),
            filter: DocV::empty(),
            paging: PagingV {
                sort: None,
                limit: None,
                simple_collation: false,
                projection: Some(doc1("_id.table_name"@, BsonV::Int32(1))),
            },
        }),
{
    Command::Find {
        at: Place::catalog("tables"),
        filter: Document::new(),
        paging: Paging {
            sort: None,
            limit: None,
            simple_collation: false,
            projection: Some(Document::new().with("_id.table_name", Bson::Int32(1))),
        },
    }
}

/// Reads the names of all tables.
pub fn list_table_names_reply(reply: &Reply) -> (r: Result<Vec<String>, OpError>)
    ensures
        match *reply {
            Reply::Many(docs) => r matches Ok(v) && text_seq(v@) == names_in(doc_seq(docs@)),
            Reply::Failed(e) => r matches Err(x) && x@ == labelled_error("list tables"@, e),
            _ => r matches Err(x) && x@ == crate::management::misplaced(),
        },
{
    match reply {
        Reply::Many(docs) => Ok(crate::describe_table::collect_names(docs)),
        Reply::Failed(e) => Err(label_error("list tables", e)),
        _ => Err(crate::management::misplaced_reply()),
    }
}

/// Reads a setting, from the answer to its lookup; `label` is what a refusal
/// is called.
pub fn read_setting(reply: &Reply, label: &str) -> (r: Result<Option<String>, OpError>)
    ensures
        match *reply {
            Reply::One(d) => r matches Ok(v) && crate::bson::opt_string(v) == (match d {
                Some(d) => d@.get_str("value"@),
                None => None,
            }),
            Reply::Failed(e) => r matches Err(x) && x@ == labelled_error(label@, e),
            _ => r matches Err(x) && x@ == crate::management::misplaced(),
        },
{
    match reply {
        Reply::One(Some(d)) => match d.get_str("value") {
            Some(v) => Ok(Some(v.to_owned())),
            None => Ok(None),
        },
        Reply::One(None) => Ok(None),
        Reply::Failed(e) => Err(label_error(label, e)),
        _ => Err(crate::management::misplaced_reply()),
    }
}

// --- Laws --------------------------------------------------------------------------

/// Setting up again keeps the encryption key: where there is one, nothing is
/// stored.
pub proof fn law_encryption_key_is_kept(d: Document, key: Seq<char>)
    ensures
        key_plan(Reply::One(Some(d)), key) == Ok::<Seq<(CommandV, Option<Seq<char>>)>, OpErrV>(
            Seq::empty(),
        ),
{
}

/// Setting up again creates no further account.
pub proof fn law_accounts_are_kept(n: u64, account_id: Seq<char>, now: i64)
    requires
        n > 0,
    ensures
        account_plan(Reply::Counted(n), account_id, now) == Ok::<
            Seq<(CommandV, Option<Seq<char>>)>,
            OpErrV,
        >(Seq::empty()),
{
}

/// The first account that is set up is one that is listed, under the name
/// `default`.
pub proof fn law_default_account_is_listed(account_id: Seq<char>, now: i64)
    ensures
        ({
            let plan = account_plan(Reply::Counted(0), account_id, now)->Ok_0;
            &&& plan.len() == 1
            &&& plan[0].0 matches CommandV::Insert { at, document }
            &&& at == in_catalog("accounts"@)
            &&& account_of(document) == Some((account_id, "default"@, now))
        }),
{
    law_account_reads_back(account_id, "default"@, now);
}

} // verus!
