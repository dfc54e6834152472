use extenddb_storage_mongodb::backup::{
    copy_for_backup, create_backup_next, create_backup_start, delete_backup_next,
    delete_backup_start, describe_backup_reply, find_available_backup, find_backup,
    list_backups_command, point_in_time_backup_name, read_backups, restore_from_copy,
    restore_items_next, restore_items_start, restore_plan_reply, restore_request, CreateBackup,
};
use extenddb_storage_mongodb::bson::{Bson, Document};
use extenddb_storage_mongodb::clock::Fresh;
use extenddb_storage_mongodb::data::{item_to_document, ItemKey};
use extenddb_storage_mongodb::error::StorageError;
use extenddb_storage_mongodb::item::{AttributeValue, Item};
use extenddb_storage_mongodb::point_in_time::{
    point_in_time_next, point_in_time_start, PointInTime, PointInTimeState,
};
use extenddb_storage_mongodb::protocol::{
    Action, Command, DbError, Event, IndexOptions, Paging, Place, Preparation, Reply, Step,
};
use extenddb_storage_mongodb::recovery::{
    recovery_next, recovery_start, recovery_status, Recovery, RecoveryRequest, RECOVERY_WINDOW,
};
use extenddb_storage_mongodb::restore_backup::{
    restore_backup_next, restore_backup_start, RestoreTarget,
};
use extenddb_storage_mongodb::restore_table::{
    restore_table_next, restore_table_start, RestoreTable,
};
use extenddb_storage_mongodb::schema::{
    AttributeDefinition, KeySchemaElement, KeyType, ScalarAttributeType, SortKey,
};
use extenddb_storage_mongodb::schema_json::{defs_to_bson, schema_to_bson, ProvisionedThroughput};
use extenddb_storage_mongodb::sort_key::sk_to_bson;
use extenddb_storage_mongodb::table::{BillingMode, TableDescription, TableStatus};
use extenddb_storage_mongodb::ttl::{
    active_tables_command, all_active_tables_command, create_ttl_index_start,
    describe_ttl_reply, drop_ttl_index_start, extract_id_fields, find_expired_next,
    find_expired_start, pick_expired, read_ttl_tables, refresh_size_next, refresh_size_start,
    ttl_index_next, ttl_tables_command, update_ttl_next, update_ttl_start, TtlTable,
};
use extenddb_storage_mongodb::worker::{
    outcome_text, transitions_next, transitions_start, Outcome, Transition,
};

fn s(text: &str) -> Bson {
    Bson::String(text.to_string())
}

fn doc(entries: Vec<(&str, Bson)>) -> Document {
    Document {
        entries: entries
            .into_iter()
            .map(|(k, v)| (k.to_string(), v))
            .collect(),
    }
}

fn obj(entries: Vec<(&str, Bson)>) -> Bson {
    Bson::Document(doc(entries))
}

fn internal<S, T>(message: &str) -> Step<S, T> {
    Step::Done(Err(StorageError::Internal(message.to_string())))
}

fn expect<S: std::fmt::Debug, T: std::fmt::Debug>(step: Step<S, T>) -> (S, Command) {
    match step {
        Step::Do(state, Action::Run(command)) => (state, command),
        Step::Do(_, other) => panic!("{other:?}"),
        Step::Done(r) => panic!("finished with {r:?}"),
    }
}

fn found(d: Option<Document>) -> Event {
    Event::Replied(Reply::One(d))
}

fn many(docs: Vec<Document>) -> Event {
    Event::Replied(Reply::Many(docs))
}

fn done() -> Event {
    Event::Replied(Reply::Done)
}

fn failed(message: &str) -> Event {
    Event::Replied(Reply::Failed(DbError { code: None, message: message.to_string() }))
}

fn not_found<S, T>(name: &str) -> Step<S, T> {
    Step::Done(Err(StorageError::TableNotFound(name.to_string())))
}

fn schema() -> Vec<KeySchemaElement> {
    vec![KeySchemaElement { attribute_name: "pk".to_string(), key_type: KeyType::Hash }]
}

fn defs() -> Vec<AttributeDefinition> {
    vec![AttributeDefinition {
        attribute_name: "pk".to_string(),
        attribute_type: ScalarAttributeType::S,
    }]
}

fn table_doc() -> Document {
    doc(vec![
        ("_id", obj(vec![("account_id", s("acc")), ("table_name", s("tab"))])),
        ("table_id", s("t")),
        ("table_arn", s("arn:tab")),
        ("key_schema", schema_to_bson(&schema())),
        ("attribute_definitions", defs_to_bson(&defs())),
        ("billing_mode", s("PROVISIONED")),
        ("table_size_bytes", Bson::Int64(77)),
        ("ttl_attribute", s("ttl")),
    ])
}

fn number_item(n: &str) -> Item {
    Item::new()
        .with("pk", AttributeValue::S("p".to_string()))
        .with("ttl", AttributeValue::N(n.to_string()))
}

fn stored(n: &str) -> Document {
    item_to_document(
        &number_item(n),
        &ItemKey { pk_text: "p".to_string(), sort_key: None },
    )
    .unwrap()
}

// --- Time to live ------------------------------------------------------------------

#[test]
fn ttl_attribute_is_described() {
    assert_eq!(
        describe_ttl_reply("tab", &Reply::One(Some(table_doc()))),
        Ok(Some("ttl".to_string()))
    );
    assert_eq!(describe_ttl_reply("tab", &Reply::One(Some(doc(vec![])))), Ok(None));
    assert_eq!(
        describe_ttl_reply("tab", &Reply::One(None)),
        Err(StorageError::TableNotFound("tab".to_string()))
    );
}

#[test]
fn ttl_is_changed_on_active_tables() {
    let (state, command) = expect(update_ttl_start("acc", "tab", "ttl", true));
    match command {
        Command::Update { filter, update, .. } => {
            assert_eq!(filter.get("table_status"), Some(&s("ACTIVE")));
            assert_eq!(
                update,
                doc(vec![(
                    "$set",
                    obj(vec![
                        ("ttl_attribute", s("ttl")),
                        ("ttl_index_ready", Bson::Boolean(false)),
                    ])
                )])
            );
        },
        other => panic!("{other:?}"),
    }
    assert_eq!(
        update_ttl_next(state, Event::Replied(Reply::Matched(1))),
        Step::Done(Ok(()))
    );
    for (seen, error) in vec![
        (None, StorageError::TableNotFound("tab".to_string())),
        (Some(table_doc()), StorageError::TableNotActive("tab".to_string())),
    ] {
        let (state, _) = expect(update_ttl_start("acc", "tab", "ttl", false));
        let (state, _) = expect(update_ttl_next(state, Event::Replied(Reply::Matched(0))));
        assert_eq!(update_ttl_next(state, found(seen)), Step::Done(Err(error)));
    }
}

#[test]
fn tables_with_ttl_are_listed() {
    match ttl_tables_command(Some("acc"), true) {
        Command::Find { filter, .. } => assert_eq!(
            filter,
            doc(vec![
                ("_id.account_id", s("acc")),
                ("ttl_attribute", obj(vec![("$ne", Bson::Null)])),
                ("ttl_index_ready", Bson::Boolean(true)),
                ("table_status", s("ACTIVE")),
            ])
        ),
        other => panic!("{other:?}"),
    }
    assert_eq!(
        read_ttl_tables(&vec![table_doc()]),
        vec![TtlTable {
            account_id: "acc".to_string(),
            table_name: "tab".to_string(),
            attribute: "ttl".to_string(),
        }]
    );
    assert_eq!(extract_id_fields(&table_doc()), ("acc".to_string(), "tab".to_string()));
    assert_eq!(extract_id_fields(&doc(vec![])), (String::new(), String::new()));
    assert!(matches!(active_tables_command("acc"), Command::Find { .. }));
    assert!(matches!(all_active_tables_command(), Command::Find { .. }));
}

#[test]
fn ttl_indexes_are_made_and_dropped() {
    let (state, _) = expect(create_ttl_index_start("acc", "tab", "ttl"));
    let (state, command) = expect(ttl_index_next(state, found(Some(table_doc()))));
    assert_eq!(
        command,
        Command::CreateIndex {
            at: Place::data("_ddb_t"),
            keys: doc(vec![("item_data.ttl.N", Bson::Int32(1))]),
            options: IndexOptions {
                unique: false,
                sparse: true,
                simple_collation: false,
                name: Some("idx_ttl_ttl".to_string()),
                expire_after: None,
                partial: None,
            },
        }
    );
    let (state, command) = expect(ttl_index_next(state, done()));
    match command {
        Command::Update { update, .. } => assert_eq!(
            update,
            doc(vec![("$set", obj(vec![("ttl_index_ready", Bson::Boolean(true))]))])
        ),
        other => panic!("{other:?}"),
    }
    assert_eq!(ttl_index_next(state, done()), Step::Done(Ok(())));
    let (state, _) = expect(create_ttl_index_start("acc", "tab", "ttl"));
    let (state, _) = expect(ttl_index_next(state, found(Some(table_doc()))));
    assert_eq!(ttl_index_next(state, failed("no")), internal("TTL index creation failed: no"));
    let (state, _) = expect(drop_ttl_index_start("acc", "tab"));
    let (state, _) = expect(ttl_index_next(state, done()));
    let (state, command) = expect(ttl_index_next(state, found(Some(table_doc()))));
    assert_eq!(
        command,
        Command::DropIndex { at: Place::data("_ddb_t"), name: "idx_ttl_ttl".to_string() }
    );
    assert_eq!(ttl_index_next(state, failed("no")), internal("TTL index drop failed: no"));
    let (state, _) = expect(create_ttl_index_start("acc", "tab", "ttl"));
    assert_eq!(ttl_index_next(state, found(None)), not_found("tab"));
}

#[test]
fn only_expired_items_are_picked() {
    let docs = || vec![stored("5"), stored("0"), stored("-3"), stored("11"), stored("10"), stored("9")];
    assert_eq!(
        pick_expired(&docs(), "ttl", 10, 10),
        Ok(vec![number_item("5"), number_item("10"), number_item("9")])
    );
    assert_eq!(pick_expired(&docs(), "ttl", 2, 10), Ok(vec![number_item("5"), number_item("10")]));
    assert_eq!(pick_expired(&docs(), "other", 2, 10), Ok(vec![]));
    let (state, _) = expect(find_expired_start("acc", "tab", "ttl", 3, 10));
    let (state, command) = expect(find_expired_next(state, found(Some(table_doc()))));
    match command {
        Command::Find { at, filter, paging } => {
            assert_eq!(at, Place::data("_ddb_t"));
            assert_eq!(
                filter,
                doc(vec![(
                    "item_data.ttl.N",
                    obj(vec![("$exists", Bson::Boolean(true)), ("$ne", Bson::Null)])
                )])
            );
            assert_eq!(
                paging,
                Paging::page(doc(vec![("item_data.ttl.N", Bson::Int32(1))]), 6)
            );
        },
        other => panic!("{other:?}"),
    }
    assert_eq!(
        find_expired_next(state, many(docs())),
        Step::Done(Ok(vec![number_item("5"), number_item("10"), number_item("9")]))
    );
}

#[test]
fn table_sizes_are_refreshed() {
    let (state, _) = expect(refresh_size_start("acc", "tab"));
    let (state, command) = expect(refresh_size_next(state, found(Some(table_doc()))));
    assert_eq!(command, Command::Count { at: Place::data("_ddb_t"), filter: doc(vec![]) });
    let (state, command) = expect(refresh_size_next(state, Event::Replied(Reply::Counted(9))));
    assert!(matches!(command, Command::Run { .. }));
    let stats = doc(vec![("size", Bson::Int64(123))]);
    let (state, command) = expect(refresh_size_next(state, found(Some(stats))));
    match command {
        Command::Update { update, .. } => assert_eq!(
            update,
            doc(vec![(
                "$set",
                obj(vec![
                    ("item_count", Bson::Int64(9)),
                    ("table_size_bytes", Bson::Int64(123)),
                ])
            )])
        ),
        other => panic!("{other:?}"),
    }
    assert_eq!(refresh_size_next(state, done()), Step::Done(Ok(())));
}

// --- Backups -----------------------------------------------------------------------

fn backup_request() -> CreateBackup {
    CreateBackup {
        account_id: "acc".to_string(),
        table_name: "tab".to_string(),
        backup_name: "b".to_string(),
        region: "eu".to_string(),
        epoch_millis: 1_700_000_000_123,
        now_millis: 1_700_000_000_123,
        now_secs: 1_700_000_000,
    }
}

fn backup_arn() -> String {
    "arn:aws:dynamodb:eu:acc:table/tab/backup/1700000000123".to_string()
}

fn backup_document() -> Document {
    let (state, _) = expect(create_backup_start(backup_request()));
    let (state, _) = expect(create_backup_next(state, found(Some(table_doc()))));
    let (_, command) = expect(create_backup_next(state, many(vec![])));
    match command {
        Command::Insert { document, .. } => document,
        other => panic!("{other:?}"),
    }
}

#[test]
fn restored_items_are_as_they_were() {
    let with_key = |kind: ScalarAttributeType, v: AttributeValue| {
        let item = number_item("1").with("sk", v);
        let key = ItemKey {
            pk_text: "p".to_string(),
            sort_key: Some(SortKey { name: "sk".to_string(), kind }),
        };
        item_to_document(&item, &key).unwrap()
    };
    for d in vec![
        stored("1"),
        with_key(ScalarAttributeType::S, AttributeValue::S("x".to_string())),
        with_key(ScalarAttributeType::N, AttributeValue::N("1.5".to_string())),
        with_key(ScalarAttributeType::B, AttributeValue::B(vec![1, 2])),
    ] {
        let back = restore_from_copy(&copy_for_backup("arn", &d));
        assert_eq!(back.entries.len(), d.entries.len());
        for (k, v) in &d.entries {
            assert_eq!(back.get(k), Some(v), "{k}");
        }
    }
}

#[test]
fn copies_without_an_identifier_get_one() {
    let copy = doc(vec![
        ("backup_arn", s("a")),
        ("pk", s("p")),
        ("sk", s("x")),
        ("item_data", obj(vec![])),
    ]);
    assert_eq!(restore_from_copy(&copy).get("_id"), Some(&s("p#x")));
    let number = sk_to_bson(&AttributeValue::N("1.50".to_string()), ScalarAttributeType::N);
    let copy = doc(vec![("pk", s("p")), ("sk_n", number.unwrap())]);
    assert_eq!(restore_from_copy(&copy).get("_id"), Some(&s("p#1.50")));
    let copy = doc(vec![("pk", s("p")), ("sk_n", Bson::Double("2.5".to_string()))]);
    assert_eq!(restore_from_copy(&copy).get("_id"), Some(&s("p#2.5")));
    assert_eq!(restore_from_copy(&doc(vec![("pk", s("p"))])).get("_id"), Some(&s("p")));
}

#[test]
fn backups_copy_every_item() {
    let (state, _) = expect(create_backup_start(backup_request()));
    let (state, command) = expect(create_backup_next(state, found(Some(table_doc()))));
    assert_eq!(
        command,
        Command::Find {
            at: Place::data("_ddb_t"),
            filter: doc(vec![]),
            paging: Paging::none(),
        }
    );
    let (state, command) = expect(create_backup_next(state, many(vec![stored("1"), stored("2")])));
    match &command {
        Command::Insert { at, document } => {
            assert_eq!(at, &Place::catalog("backup_items"));
            assert_eq!(document.get("backup_arn"), Some(&s(&backup_arn())));
        },
        other => panic!("{other:?}"),
    }
    let (state, _) = expect(create_backup_next(state, done()));
    let (state, command) = expect(create_backup_next(state, done()));
    match &command {
        Command::Insert { at, document } => {
            assert_eq!(at, &Place::catalog("backups"));
            assert_eq!(document.get("item_count"), Some(&Bson::Int64(2)));
            assert_eq!(document.get("billing_mode"), Some(&s("PROVISIONED")));
        },
        other => panic!("{other:?}"),
    }
    match create_backup_next(state, done()) {
        Step::Done(Ok(details)) => {
            assert_eq!(details.backup_arn, backup_arn());
            assert_eq!(details.backup_status, "AVAILABLE");
            assert_eq!(details.backup_type, "USER");
            assert_eq!(details.backup_size_bytes, 77);
            assert_eq!(details.creation_millis, 1_700_000_000_000);
        },
        other => panic!("{other:?}"),
    }
}

#[test]
fn backups_of_missing_tables_are_refused() {
    let (state, _) = expect(create_backup_start(backup_request()));
    assert_eq!(create_backup_next(state, found(None)), not_found("tab"));
    let (state, _) = expect(create_backup_start(backup_request()));
    assert_eq!(
        create_backup_next(state, found(Some(doc(vec![("table_id", s("t"))])))),
        internal("missing key_schema")
    );
}

#[test]
fn backups_read_back() {
    let b = describe_backup_reply("a", &Reply::One(Some(backup_document()))).unwrap();
    assert_eq!(b.details.backup_name, "b");
    assert_eq!(b.details.creation_millis, 1_700_000_000_123);
    assert_eq!(b.table_name, "tab");
    assert_eq!(b.key_schema, schema());
    assert_eq!(b.item_count, 0);
    assert_eq!(b.table_creation_secs, Some("1700000000".to_string()));
    assert_eq!(
        describe_backup_reply("a", &Reply::One(None)),
        Err(StorageError::Validation("Backup not found: a".to_string()))
    );
    assert_eq!(
        find_backup("a"),
        Command::FindOne { at: Place::catalog("backups"), filter: doc(vec![("_id", s("a"))]) }
    );
    let list = read_backups(&vec![backup_document()]);
    assert_eq!(list[0].details.backup_arn, backup_arn());
    match list_backups_command("acc", Some("tab")) {
        Command::Find { filter, .. } => assert_eq!(
            filter,
            doc(vec![
                ("account_id", s("acc")),
                ("backup_status", obj(vec![("$ne", s("DELETED"))])),
                ("table_name", s("tab")),
            ])
        ),
        other => panic!("{other:?}"),
    }
}

#[test]
fn deleted_backup_loses_its_items() {
    let (state, _) = expect(delete_backup_start("a"));
    let (state, command) = expect(delete_backup_next(state, found(Some(backup_document()))));
    assert_eq!(
        command,
        Command::DeleteMany {
            at: Place::catalog("backup_items"),
            filter: doc(vec![("backup_arn", s("a"))]),
        }
    );
    let (state, _) = expect(delete_backup_next(state, Event::Replied(Reply::Deleted(3))));
    match delete_backup_next(state, Event::Replied(Reply::Matched(1))) {
        Step::Done(Ok(b)) => assert_eq!(b.details.backup_status, "DELETED"),
        other => panic!("{other:?}"),
    }
}

fn restored_table() -> TableDescription {
    TableDescription {
        account_id: "acc".to_string(),
        table_name: "copy".to_string(),
        key_schema: schema(),
        attribute_definitions: defs(),
        table_status: TableStatus::Active,
        creation_millis: 0,
        table_size_bytes: 0,
        item_count: 0,
        table_arn: "arn:copy".to_string(),
        table_id: "c".to_string(),
        throughput: ProvisionedThroughput { read_capacity_units: 0, write_capacity_units: 0 },
        billing_mode: BillingMode::Provisioned,
        global_indexes: None,
        local_indexes: None,
        stream_specification: None,
        stream_label: None,
        deletion_protection: false,
    }
}

#[test]
fn restoring_creates_the_table_and_stores_the_items() {
    let plan = restore_plan_reply("a", &Reply::One(Some(backup_document()))).unwrap();
    let q = restore_request(plan, "acc", "copy", "arn:copy", None);
    assert_eq!(q.key_schema, schema());
    assert_eq!(q.attribute_definitions, defs());
    assert_eq!(q.billing_mode, Some(BillingMode::Provisioned));
    assert_eq!(q.table_name, "copy");
    assert_eq!(
        restore_plan_reply("a", &Reply::One(None)),
        Err(StorageError::Validation("Backup not found: a".to_string()))
    );
    match find_available_backup("a") {
        Command::FindOne { filter, .. } => {
            assert_eq!(filter.get("backup_status"), Some(&s("AVAILABLE")));
        },
        other => panic!("{other:?}"),
    }
    let (state, _) = expect(restore_items_start("acc", restored_table(), "a"));
    let copy = copy_for_backup("a", &stored("1"));
    let (state, command) = expect(restore_items_next(state, many(vec![copy])));
    match command {
        Command::Insert { at, document } => {
            assert_eq!(at, Place::data("_ddb_c"));
            assert_eq!(document.get("item_data"), stored("1").get("item_data"));
        },
        other => panic!("{other:?}"),
    }
    let (state, command) = expect(restore_items_next(state, done()));
    match command {
        Command::Update { update, .. } => assert_eq!(
            update,
            doc(vec![(
                "$set",
                obj(vec![("item_count", Bson::Int64(1)), ("table_status", s("ACTIVE"))])
            )])
        ),
        other => panic!("{other:?}"),
    }
    assert_eq!(
        restore_items_next(state, Event::Replied(Reply::Matched(1))),
        Step::Done(Ok(restored_table()))
    );
    assert!(!point_in_time_backup_name().is_empty());
}

fn restore() -> RestoreTable {
    RestoreTable {
        account_id: "123456789012".to_string(),
        table_name: "copy".to_string(),
        table_arn: "arn:copy".to_string(),
        backup_arn: "a".to_string(),
        sort_key: None,
    }
}

fn drawn() -> Fresh {
    Fresh {
        now_nanos: 1_700_000_000_000_000_000,
        now_millis: 1_700_000_000_000,
        id: "c".to_string(),
        ids: vec![],
    }
}

#[test]
fn restored_tables_are_created_before_they_are_filled() {
    let plan = || restore_plan_reply("a", &Reply::One(Some(backup_document()))).unwrap();
    let (state, command) = expect(restore_table_start(restore(), plan(), drawn()));
    match command {
        Command::Insert { at, .. } => assert_eq!(at, Place::catalog("tables")),
        other => panic!("{other:?}"),
    }
    let mut step = restore_table_next(state, done());
    let state = loop {
        let (state, command) = expect(step);
        match command {
            Command::Find { at, filter, .. } => {
                assert_eq!(at, Place::catalog("backup_items"));
                assert_eq!(filter, doc(vec![("backup_arn", s("a"))]));
                break state;
            },
            _ => step = restore_table_next(state, done()),
        }
    };
    let copy = copy_for_backup("a", &stored("1"));
    let (state, command) = expect(restore_table_next(state, many(vec![copy])));
    match command {
        Command::Insert { at, .. } => assert_eq!(at, Place::data("_ddb_c")),
        other => panic!("{other:?}"),
    }
    let (state, _) = expect(restore_table_next(state, done()));
    match restore_table_next(state, Event::Replied(Reply::Matched(1))) {
        Step::Done(Ok(table)) => {
            assert_eq!(table.table_name, "copy");
            assert_eq!(table.table_id, "c");
        },
        other => panic!("{other:?}"),
    }
    let (state, _) = expect(restore_table_start(restore(), plan(), drawn()));
    let taken = DbError { code: Some(11000), message: "E11000 taken".to_string() };
    assert_eq!(
        restore_table_next(state, Event::Replied(Reply::Failed(taken))),
        Step::Done(Err(StorageError::TableAlreadyExists("copy".to_string())))
    );
}

fn target() -> RestoreTarget {
    RestoreTarget {
        account_id: "123456789012".to_string(),
        table_name: "copy".to_string(),
        table_arn: "arn:copy".to_string(),
    }
}

fn prepared() -> Event {
    Event::Prepared(Preparation { sort_key: None, fresh: drawn() })
}

#[test]
fn backups_are_looked_up_before_they_are_restored() {
    let (state, command) = expect(restore_backup_start(target(), "a"));
    assert_eq!(command, find_available_backup("a"));
    assert_eq!(
        restore_backup_next(state, found(None)),
        Step::Done(Err(StorageError::Validation("Backup not found: a".to_string())))
    );
    let (state, _) = expect(restore_backup_start(target(), "a"));
    let state = match restore_backup_next(state, found(Some(backup_document()))) {
        Step::Do(state, action) => {
            assert_eq!(
                action,
                Action::Prepare { key_schema: schema(), attribute_definitions: defs() }
            );
            state
        },
        other => panic!("{other:?}"),
    };
    let (_, command) = expect(restore_backup_next(state, prepared()));
    match command {
        Command::Insert { at, .. } => assert_eq!(at, Place::catalog("tables")),
        other => panic!("{other:?}"),
    }
}

#[test]
fn tables_are_restored_through_a_backup_that_is_cleared_away() {
    let request = PointInTime {
        account_id: "acc".to_string(),
        source_table_name: "tab".to_string(),
        target: target(),
        region: "eu".to_string(),
        epoch_millis: 1_700_000_000_123,
        now_millis: 1_700_000_000_123,
        now_secs: 1_700_000_000,
    };
    let (state, _) = expect(point_in_time_start(request));
    let (state, _) = expect(point_in_time_next(state, found(Some(table_doc()))));
    let (state, command) = expect(point_in_time_next(state, many(vec![])));
    match command {
        Command::Insert { at, document } => {
            assert_eq!(at, Place::catalog("backups"));
            assert_eq!(document.get("backup_name"), Some(&s("__pitr_restore__")));
        },
        other => panic!("{other:?}"),
    }
    let (state, command) = expect(point_in_time_next(state, done()));
    assert_eq!(command, find_available_backup(&backup_arn()));
    let mut step = point_in_time_next(state, found(Some(backup_document())));
    let state = loop {
        step = match step {
            Step::Do(state, Action::Prepare { .. }) => point_in_time_next(state, prepared()),
            Step::Do(state, Action::Run(Command::Find { .. })) => {
                point_in_time_next(state, many(vec![]))
            },
            Step::Do(state, Action::Run(command)) => {
                if command == find_backup(&backup_arn()) {
                    break state;
                }
                point_in_time_next(state, done())
            },
            other => panic!("{other:?}"),
        };
    };
    assert!(matches!(state, PointInTimeState::Deleting { .. }));
    match point_in_time_next(state, failed("down")) {
        Step::Done(Ok(table)) => assert_eq!(table.table_name, "copy"),
        other => panic!("{other:?}"),
    }
}

// --- Point in time recovery --------------------------------------------------------

fn recovery(change: Option<bool>) -> RecoveryRequest {
    RecoveryRequest {
        account_id: "acc".to_string(),
        table_name: "tab".to_string(),
        now: 10_000_000,
        change,
    }
}

#[test]
fn changed_recovery_is_read() {
    let (state, _) = expect(recovery_start(recovery(Some(true))));
    let (state, command) = expect(recovery_next(state, found(Some(table_doc()))));
    match command {
        Command::Update { at, update, upsert, .. } => {
            assert_eq!(at, Place::catalog("continuous_backups"));
            assert!(upsert);
            assert_eq!(
                update.get_document("$set").unwrap().get("pitr_enabled"),
                Some(&Bson::Boolean(true))
            );
        },
        other => panic!("{other:?}"),
    }
    let (state, _) = expect(recovery_next(state, Event::Replied(Reply::Matched(1))));
    let (state, _) = expect(recovery_next(state, found(Some(table_doc()))));
    let setting = doc(vec![("pitr_enabled", Bson::Boolean(true))]);
    assert_eq!(
        recovery_next(state, found(Some(setting))),
        Step::Done(Ok(Recovery {
            enabled: true,
            earliest: Some(10_000_000 - 3_024_000),
            latest: Some(10_000_000),
        }))
    );
    assert_eq!(RECOVERY_WINDOW, 35 * 24 * 3600);
    assert_eq!(
        recovery_status(false, 5),
        Recovery { enabled: false, earliest: None, latest: None }
    );
    let (state, _) = expect(recovery_start(recovery(None)));
    assert_eq!(recovery_next(state, found(None)), not_found("tab"));
}

// --- Stuck tables ------------------------------------------------------------------

#[test]
fn stuck_tables_are_moved_on() {
    let (state, command) = expect(transitions_start(7));
    match command {
        Command::Find { filter, .. } => assert_eq!(
            filter,
            doc(vec![
                ("table_status", s("CREATING")),
                ("status_transition_at", obj(vec![("$lte", Bson::DateTime(7))])),
            ])
        ),
        other => panic!("{other:?}"),
    }
    let (state, command) = expect(transitions_next(state, many(vec![table_doc()])));
    match command {
        Command::Update { update, .. } => assert_eq!(
            update,
            doc(vec![
                ("$set", obj(vec![("table_status", s("ACTIVE"))])),
                ("$unset", obj(vec![("status_transition_at", s(""))])),
            ])
        ),
        other => panic!("{other:?}"),
    }
    let (state, _) = expect(transitions_next(state, Event::Replied(Reply::Matched(1))));
    let (state, command) = expect(transitions_next(state, many(vec![table_doc()])));
    assert_eq!(command, Command::DropCollection { at: Place::data("_ddb_t") });
    let (state, _) = expect(transitions_next(state, failed("no such collection")));
    let indexes = vec![doc(vec![("index_id", s("i"))])];
    let (state, command) = expect(transitions_next(state, many(indexes)));
    assert_eq!(command, Command::DropCollection { at: Place::data("_ddb_i") });
    let (state, _) = expect(transitions_next(state, failed("no such collection")));
    let (state, command) = expect(transitions_next(state, Event::Replied(Reply::Deleted(1))));
    assert_eq!(
        command,
        Command::DeleteMany {
            at: Place::catalog("tags"),
            filter: doc(vec![("_id.resource_arn", s("arn:tab"))]),
        }
    );
    let (state, command) = expect(transitions_next(state, Event::Replied(Reply::Deleted(0))));
    assert!(matches!(command, Command::DeleteOne { .. }));
    assert_eq!(
        transitions_next(state, Event::Replied(Reply::Deleted(1))),
        Step::Done(Ok(vec![
            Transition { table_name: "tab".to_string(), outcome: Outcome::Activated },
            Transition { table_name: "tab".to_string(), outcome: Outcome::Deleted },
        ]))
    );
    assert_eq!(outcome_text(Outcome::Activated), "CREATING \u{2192} active");
}
