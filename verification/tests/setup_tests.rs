use extenddb_storage_mongodb::accounts::list_accounts_reply;
use extenddb_storage_mongodb::bootstrap::{
    admin_name, bootstrap_admin_command, bootstrap_admin_reply, bootstrap_default_account,
    bootstrap_encryption_key, catalog_connection_url, catalog_database_name, count_accounts_command,
    create_catalog_db, create_data_db, data_database_name, drop_databases,
    expected_catalog_version, find_encryption_key_command, is_catalog_initialized,
    list_table_names_command, list_table_names_reply, no_hash_error, plan_admin, read_setting,
    record_data_connection, run_catalog_migrations, setup_next, setup_start, AdminBootstrap,
    AdminPlan, SetupLine, SetupStep,
};
use extenddb_storage_mongodb::bson::{Bson, Document};
use extenddb_storage_mongodb::clock::{
    current_millis, current_nanos, epoch_millis, now_epoch_secs, seconds_at, to_offset_nanos,
};
use extenddb_storage_mongodb::config::{
    choose_connection, configured_connection, default_max_catalog_connections,
    default_max_connections, MongoStorageConfig,
};
use extenddb_storage_mongodb::entry::Entry;
use extenddb_storage_mongodb::error::StorageError;
use extenddb_storage_mongodb::gsi_queue::{
    after_batch, batch_next, batch_start, effective_delay, is_fresh, is_undefined_table,
    lookup_indexes, lookup_start, lookup_table, plan_row, read_index_rows, tolerate, AfterBatch,
    BatchAction, BatchEvent, BatchState, BatchStep, IndexMeta, IndexRow, MetaStep, RowStep,
    BATCH_SIZE, NUM_WORKERS,
};
use extenddb_storage_mongodb::item::{AttributeValue, Item};
use extenddb_storage_mongodb::management::OpError;
use extenddb_storage_mongodb::protocol::{Command, Db, DbError, IndexOptions, Place, Reply};
use extenddb_storage_mongodb::schema::{
    AttributeDefinition, KeySchemaElement, KeyType, Projection, ProjectionType,
    ScalarAttributeType,
};
use extenddb_storage_mongodb::schema_json::{defs_to_bson, projection_to_bson, schema_to_bson};

fn s(text: &str) -> Bson {
    Bson::String(text.to_string())
}

fn doc(entries: Vec<(&str, Bson)>) -> Document {
    Document {
        entries: entries
            .into_iter()
            .map(|(k, v)| (k.to_string(), v))
            .collect(),
    }
}

fn failed() -> Reply {
    Reply::Failed(DbError { code: None, message: "down".to_string() })
}

fn internal(message: &str) -> OpError {
    OpError::Internal(message.to_string())
}

fn perform(lines: Vec<SetupLine>, reply: impl Fn(&Command) -> Reply) -> (Vec<Command>, Result<(), OpError>) {
    let mut step = setup_start(lines);
    let mut commands: Vec<Command> = vec![];
    loop {
        match step {
            SetupStep::Do(setup, command) => {
                let r = reply(&command);
                commands.push(command);
                step = setup_next(setup, &r);
            },
            SetupStep::Done(r) => return (commands, r),
        }
    }
}

#[test]
fn catalog_is_migrated() {
    let (commands, r) = perform(run_catalog_migrations(9), |_| Reply::Done);
    assert_eq!(r, Ok(()));
    assert_eq!(commands.len(), 17 + 13 + 2);
    assert_eq!(commands[0], Command::CreateCollection { at: Place::catalog("accounts") });
    assert_eq!(
        commands[17],
        Command::CreateIndex {
            at: Place::catalog("accounts"),
            keys: doc(vec![("account_name", Bson::Int32(1))]),
            options: IndexOptions::unique(),
        }
    );
    assert_eq!(
        commands[19],
        Command::CreateIndex {
            at: Place::catalog("tables"),
            keys: doc(vec![("status_transition_at", Bson::Int32(1))]),
            options: IndexOptions {
                partial: Some(doc(vec![(
                    "status_transition_at",
                    Bson::Document(doc(vec![("$type", s("date"))])),
                )])),
                ..IndexOptions::plain()
            },
        }
    );
    assert_eq!(
        commands[28],
        Command::CreateIndex {
            at: Place::catalog("login_attempts"),
            keys: doc(vec![("source_ip", Bson::Int32(1)), ("attempted_at", Bson::Int32(1))]),
            options: IndexOptions {
                partial: Some(doc(vec![(
                    "source_ip",
                    Bson::Document(doc(vec![("$exists", Bson::Boolean(true))])),
                )])),
                ..IndexOptions::plain()
            },
        }
    );
    assert_eq!(
        commands[31],
        Command::Insert {
            at: Place::catalog("schema_history"),
            document: doc(vec![("_id", s("001_initial")), ("applied_at", Bson::DateTime(9))]),
        }
    );
}

#[test]
fn migration_stops_where_an_index_cannot_be_made() {
    let (commands, r) = perform(run_catalog_migrations(9), |c| match c {
        Command::CreateCollection { .. } => failed(),
        Command::CreateIndex { at, .. } if at.collection == "tables" => failed(),
        _ => Reply::Done,
    });
    assert_eq!(r, Err(internal("tables table_id index: down")));
    assert_eq!(commands.len(), 19);
}

#[test]
fn databases_are_created_and_dropped() {
    let (_, r) = perform(create_catalog_db(), |_| failed());
    assert_eq!(r, Err(internal("Failed to create catalog db: down")));
    let (commands, _) = perform(create_data_db(), |_| Reply::Done);
    match &commands[1] {
        Command::CreateIndex { options, .. } => assert_eq!(options.expire_after, Some(600)),
        other => panic!("{other:?}"),
    }
    let (commands, _) = perform(drop_databases(), |_| Reply::Done);
    assert_eq!(
        commands,
        vec![Command::DropDatabase { db: Db::Data }, Command::DropDatabase { db: Db::Catalog }]
    );
    let (commands, _) = perform(record_data_connection("mongodb://h"), |_| Reply::Done);
    assert_eq!(commands.len(), 2);
}

#[test]
fn encryption_key_is_made_once() {
    assert!(matches!(find_encryption_key_command(), Command::FindOne { .. }));
    let lines = bootstrap_encryption_key(&Reply::One(None), "k").unwrap();
    let (commands, r) = perform(lines, |_| failed());
    assert_eq!(r, Ok(()));
    assert_eq!(
        commands,
        vec![Command::Insert {
            at: Place::catalog("settings"),
            document: doc(vec![("_id", s("encryption_key")), ("value", s("k"))]),
        }]
    );
    assert!(bootstrap_encryption_key(&Reply::One(Some(doc(vec![]))), "k").unwrap().is_empty());
    assert_eq!(
        bootstrap_encryption_key(&failed(), "k"),
        Err(internal("check encryption key: down"))
    );
}

#[test]
fn default_account_is_listed() {
    let mut lines = bootstrap_default_account(&Reply::Counted(0), "a", 5).unwrap();
    match lines.remove(0).command {
        Command::Insert { at, document } => {
            assert_eq!(at, Place::catalog("accounts"));
            assert_eq!(
                list_accounts_reply(Reply::Many(vec![document])),
                Ok(vec![("a".to_string(), "default".to_string())])
            );
        },
        other => panic!("{other:?}"),
    }
}

#[test]
fn default_account_is_made_once() {
    assert!(matches!(count_accounts_command(), Command::Count { .. }));
    assert!(bootstrap_default_account(&Reply::Counted(1), "a", 5).unwrap().is_empty());
    let lines = bootstrap_default_account(&Reply::Counted(0), "a", 5).unwrap();
    assert_eq!(
        lines[0].command,
        Command::Insert {
            at: Place::catalog("accounts"),
            document: doc(vec![
                ("_id", s("a")),
                ("account_name", s("default")),
                ("created_at", Bson::DateTime(5)),
            ]),
        }
    );
}

#[test]
fn administrator_is_made_or_kept() {
    assert_eq!(admin_name(None), "admin");
    assert_eq!(admin_name(Some("x")), "x");
    assert_eq!(
        plan_admin(&Reply::One(Some(doc(vec![]))), Some("x"), None, "pw"),
        Ok(AdminPlan::Keep(AdminBootstrap {
            username: "x".to_string(),
            generated_password: None,
            already_existed: true,
            from_env: true,
        }))
    );
    assert_eq!(
        plan_admin(&Reply::One(None), None, None, "pw"),
        Ok(AdminPlan::Create {
            username: "admin".to_string(),
            password: "pw".to_string(),
            given: false,
        })
    );
    assert_eq!(
        plan_admin(&Reply::One(None), None, Some("env"), "pw"),
        Ok(AdminPlan::Create {
            username: "admin".to_string(),
            password: "env".to_string(),
            given: true,
        })
    );
    assert_eq!(plan_admin(&failed(), None, None, "pw"), Err(internal("check admin: down")));
    assert!(matches!(bootstrap_admin_command("admin", "h", 5), Command::Insert { .. }));
    let made = bootstrap_admin_reply(&Reply::Done, "admin", "pw", false).unwrap();
    assert_eq!(made.generated_password, Some("pw".to_string()));
    let given = bootstrap_admin_reply(&Reply::Done, "admin", "pw", true).unwrap();
    assert_eq!(given.generated_password, None);
    assert!(given.from_env && !given.already_existed);
    assert_eq!(
        bootstrap_admin_reply(&failed(), "admin", "pw", false),
        Err(internal("create admin: down"))
    );
    assert!(matches!(no_hash_error(), OpError::Internal(_)));
}

#[test]
fn catalog_is_inspected() {
    assert_eq!(
        is_catalog_initialized(&Reply::Names(vec!["a".to_string(), "settings".to_string()])),
        Ok(true)
    );
    assert_eq!(is_catalog_initialized(&Reply::Names(vec!["a".to_string()])), Ok(false));
    assert_eq!(is_catalog_initialized(&failed()), Err(internal("list collections: down")));
    let named = doc(vec![("_id", Bson::Document(doc(vec![("table_name", s("t"))])))]);
    assert_eq!(
        list_table_names_reply(&Reply::Many(vec![named])),
        Ok(vec!["t".to_string()])
    );
    assert!(matches!(list_table_names_command(), Command::Find { .. }));
    assert_eq!(
        read_setting(&Reply::One(Some(doc(vec![("value", s("v"))]))), "x"),
        Ok(Some("v".to_string()))
    );
    assert_eq!(read_setting(&Reply::One(None), "x"), Ok(None));
    assert_eq!(read_setting(&failed(), "read x"), Err(internal("read x: down")));
    assert_eq!(expected_catalog_version(), "0.0.2");
    assert_eq!(catalog_database_name(), "extenddb_catalog");
    assert_eq!(data_database_name(), "extenddb_data");
    assert_eq!(catalog_connection_url("mongodb://h"), "mongodb://h/extenddb_catalog");
}

#[test]
fn configuration_has_defaults() {
    assert_eq!(default_max_connections(), 50);
    assert_eq!(default_max_catalog_connections(), 20);
    let c = MongoStorageConfig::new("mongodb://h".to_string(), None, Some(7));
    assert_eq!(c.connection_config(), "mongodb://h");
    assert_eq!(c.max_connections(), 50);
    assert_eq!(c.max_catalog_connections(), 7);
    assert_eq!(c.clone().connection_string, "mongodb://h");
}

#[test]
fn clocks_agree() {
    let before = epoch_millis();
    let nanos = current_nanos();
    let after = epoch_millis();
    let millis = (nanos / 1_000_000) as u128;
    assert!(before <= millis && millis <= after);
    assert!(u128::from(now_epoch_secs()) >= before / 1000);
    assert!(current_millis() as u128 >= before);
    assert_eq!(to_offset_nanos(1_500), 1_500_000_000);
    assert_eq!(seconds_at(1_999_999_999), 1);
    assert_eq!(to_offset_nanos(i64::MAX), 0);
}

#[test]
fn dates_have_years_of_six_digits() {
    let last: i64 = 31_494_784_780_799_999;
    assert_eq!(to_offset_nanos(last), 31_494_784_780_799_999_000_000);
    assert_eq!(to_offset_nanos(last + 1), 0);
    let first: i64 = -31_619_087_596_800_000;
    assert_eq!(to_offset_nanos(first), -31_619_087_596_800_000_000_000);
    assert_eq!(to_offset_nanos(first - 1), 0);
}

#[test]
fn entries_hold_what_they_are_given() {
    let e = Entry::new(Some(7));
    assert_eq!(e.value, Some(7));
    assert!(!e.refresh_in_flight.load(std::sync::atomic::Ordering::Relaxed));
    assert_eq!(Entry::<u8>::new(None).value, None);
}

// --- The queue of index updates ----------------------------------------------------

fn schema(name: &str) -> Vec<KeySchemaElement> {
    vec![KeySchemaElement { attribute_name: name.to_string(), key_type: KeyType::Hash }]
}

fn all() -> Projection {
    Projection { projection_type: ProjectionType::All, non_key_attributes: None }
}

fn row(id: &str, kind: &str, delay_ms: Option<i32>) -> IndexRow {
    IndexRow {
        index_id: id.to_string(),
        index_type: kind.to_string(),
        key_schema: schema_to_bson(&schema("g")),
        projection: projection_to_bson(&all()),
        delay_ms,
    }
}

#[test]
fn own_delays_come_first() {
    assert_eq!(effective_delay(Some(0), 500), 0);
    assert_eq!(effective_delay(Some(20), 500), 20);
    assert_eq!(effective_delay(Some(-1), 500), 500);
    assert_eq!(effective_delay(None, 500), 500);
    let rows = vec![
        row("a", "GSI", None),
        row("b", "LSI", None),
        row("c", "GSI", Some(0)),
        row("d", "GSI", Some(20)),
    ];
    let metas = read_index_rows(&rows, 500).unwrap();
    let ids: Vec<(&str, u64)> =
        metas.iter().map(|m| (m.index_id.as_str(), m.effective_delay_ms)).collect();
    assert_eq!(ids, vec![("a", 500), ("d", 20)]);
    let bad = IndexRow { key_schema: s("x"), ..row("a", "GSI", None) };
    assert_eq!(
        read_index_rows(&vec![bad], 500),
        Err(StorageError::Internal("key_schema: not a key schema".to_string()))
    );
}

#[test]
fn tables_are_looked_up_and_kept() {
    assert_eq!(lookup_start(Some(29_999)), MetaStep::UseKept);
    assert_eq!(lookup_start(Some(30_000)), MetaStep::ReadTable);
    assert_eq!(lookup_start(None), MetaStep::ReadTable);
    assert!(is_fresh(0) && !is_fresh(30_000));
    assert_eq!(lookup_table(&None), MetaStep::Forget);
    let defs = || vec![AttributeDefinition {
        attribute_name: "pk".to_string(),
        attribute_type: ScalarAttributeType::S,
    }];
    assert_eq!(
        lookup_table(&Some((schema_to_bson(&schema("pk")), defs_to_bson(&defs())))),
        MetaStep::ReadIndexes { base_key_schema: schema("pk"), attr_defs: defs() }
    );
    assert_eq!(
        lookup_table(&Some((s("x"), defs_to_bson(&defs())))),
        MetaStep::Fail(StorageError::Internal("key_schema: not a key schema".to_string()))
    );
    match lookup_indexes(schema("pk"), defs(), &vec![row("a", "GSI", None)], 5) {
        MetaStep::Keep(t) => {
            assert_eq!(t.base_key_schema, schema("pk"));
            assert_eq!(t.indexes.len(), 1);
        },
        other => panic!("{other:?}"),
    }
}

#[test]
fn rows_are_removed_before_they_are_stored() {
    let meta = || IndexMeta {
        index_id: "a".to_string(),
        key_schema: schema("g"),
        projection: all(),
        effective_delay_ms: 5,
    };
    let item = |n: &str| Item::new()
        .with("pk", AttributeValue::S("p".to_string()))
        .with("g", AttributeValue::S(n.to_string()));
    let bare = || Item::new().with("pk", AttributeValue::S("p".to_string()));
    assert_eq!(
        plan_row(&vec![meta()], &schema("pk"), &Some(item("1")), &Some(item("2"))),
        vec![RowStep::Remove { index: 0 }, RowStep::Store { index: 0, projected: item("2") }]
    );
    assert_eq!(
        plan_row(&vec![meta()], &schema("pk"), &Some(item("1")), &Some(bare())),
        vec![RowStep::Remove { index: 0 }]
    );
    assert_eq!(plan_row(&vec![meta()], &schema("pk"), &Some(bare()), &None), vec![]);
}

#[test]
fn dropped_tables_are_tolerated() {
    let gone = || StorageError::Internal("error code 42P01".to_string());
    assert!(is_undefined_table(&gone()));
    assert_eq!(tolerate(Err(gone())), Ok(()));
    assert_eq!(
        tolerate(Err(StorageError::Internal("other".to_string()))),
        Err(StorageError::Internal("other".to_string()))
    );
    assert_eq!(after_batch(Some(0)), AfterBatch::Wait);
    assert_eq!(after_batch(Some(3)), AfterBatch::Again);
    assert_eq!(after_batch(None), AfterBatch::Sleep);
    assert_eq!((NUM_WORKERS, BATCH_SIZE), (4, 100));
}

#[test]
fn connection_is_read_from_the_configuration() {
    let local = || Ok("mongodb://localhost:27017".to_string());
    let given = "[storage.mongodb]\nconnection_string = \"mongodb://db:1\"\n";
    assert_eq!(configured_connection(given), Ok("mongodb://db:1".to_string()));
    assert_eq!(configured_connection("[storage]\nmongodb = 1\n"), local());
    assert_eq!(configured_connection("[storage.mongodb]\nconnection_string = 5\n"), local());
    assert_eq!(configured_connection(""), local());
    match configured_connection("[storage") {
        Err(StorageError::Internal(m)) => assert!(m.starts_with("Cannot parse config: "), "{m}"),
        other => panic!("{other:?}"),
    }
    assert_eq!(choose_connection(Ok(None)), local());
    assert_eq!(choose_connection(Ok(Some("x".to_string()))), Ok("x".to_string()));
    assert_eq!(
        choose_connection(Err("bad".to_string())),
        Err(StorageError::Internal("Cannot parse config: bad".to_string()))
    );
}

fn batch_step(step: BatchStep) -> (BatchState, BatchAction) {
    match step {
        BatchStep::Do(state, action) => (state, action),
        BatchStep::Done(r) => panic!("finished with {r:?}"),
    }
}

#[test]
fn failed_rows_are_rolled_back() {
    let failure = || StorageError::Internal("no".to_string());
    let (state, action) = batch_step(batch_start());
    assert_eq!(action, BatchAction::Begin);
    let (state, action) = batch_step(batch_next(state, BatchEvent::Begun));
    assert_eq!(action, BatchAction::Claim { after: i64::MIN });
    let (state, action) = batch_step(batch_next(state, BatchEvent::Claimed(Some(7))));
    assert_eq!(action, BatchAction::Apply { row: 7 });
    let (state, action) = batch_step(batch_next(state, BatchEvent::Applied(Err(failure()))));
    assert_eq!(action, BatchAction::RollBack(failure()));
    let (state, action) = batch_step(batch_next(state, BatchEvent::Ended));
    assert_eq!(action, BatchAction::Begin);
    let (state, action) = batch_step(batch_next(state, BatchEvent::Begun));
    assert_eq!(action, BatchAction::Claim { after: 7 });
    let (state, _) = batch_step(batch_next(state, BatchEvent::Claimed(Some(8))));
    let (state, action) = batch_step(batch_next(state, BatchEvent::Applied(Ok(()))));
    assert_eq!(action, BatchAction::Commit);
    let (state, _) = batch_step(batch_next(state, BatchEvent::Ended));
    let (state, _) = batch_step(batch_next(state, BatchEvent::Begun));
    assert_eq!(batch_next(state, BatchEvent::Claimed(None)), BatchStep::Done(Ok(2)));
    let (state, _) = batch_step(batch_start());
    assert_eq!(
        batch_next(state, BatchEvent::Refused(failure())),
        BatchStep::Done(Err(failure()))
    );
    let (state, _) = batch_step(batch_start());
    assert_eq!(
        batch_next(state, BatchEvent::Ended),
        BatchStep::Done(Err(StorageError::Internal("unexpected event".to_string())))
    );
}

#[test]
fn batches_are_bounded() {
    let mut step = batch_start();
    let mut rows = 0;
    let taken = loop {
        let (state, action) = match step {
            BatchStep::Do(state, action) => (state, action),
            BatchStep::Done(r) => break r.unwrap(),
        };
        let event = match action {
            BatchAction::Begin => BatchEvent::Begun,
            BatchAction::Claim { .. } => {
                rows += 1;
                BatchEvent::Claimed(Some(rows))
            },
            BatchAction::Apply { .. } => BatchEvent::Applied(Ok(())),
            BatchAction::Commit | BatchAction::RollBack(_) => BatchEvent::Ended,
        };
        step = batch_next(state, event);
    };
    assert_eq!(rows, BATCH_SIZE);
    assert_eq!(taken as i64, BATCH_SIZE);
}
