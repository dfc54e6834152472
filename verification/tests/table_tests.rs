use extenddb_storage_mongodb::bson::{Bson, Document};
use extenddb_storage_mongodb::catalog::{index_filter, table_filter, validate_account_id};
use extenddb_storage_mongodb::clock::{draw_fresh, stream_label, Fresh};
use extenddb_storage_mongodb::create_table::{create_table_next, create_table_start, CreateTable};
use extenddb_storage_mongodb::describe_table::{
    collect_names, delete_table_next, delete_table_start, describe_table_next,
    describe_table_start, effective_limit, list_tables_command, read_table_names, TableNames,
};
use extenddb_storage_mongodb::error::StorageError;
use extenddb_storage_mongodb::key_info::{
    index_info_command, index_info_next, index_info_reply, index_info_start, table_key_info_next,
    table_key_info_start,
};
use extenddb_storage_mongodb::protocol::{
    Action, Command, DbError, Event, IndexOptions, Paging, Place, Reply, Step,
};
use extenddb_storage_mongodb::schema::{
    AttributeDefinition, KeySchemaElement, KeyType, Projection, ProjectionType,
    ScalarAttributeType,
};
use extenddb_storage_mongodb::schema_json::{
    defs_to_bson, projection_to_bson, read_defs, read_projection, read_schema, read_stream_spec,
    read_throughput, read_view_type, schema_to_bson, stream_spec_to_bson, throughput_to_bson,
    view_type_name, ProvisionedThroughput, StreamSpecification, StreamViewType,
};
use extenddb_storage_mongodb::table::{
    add_indexes, billing_name, describe_new_index, index_document, read_table, table_document,
    BillingMode, BillingModeSummary, IndexSpec, IndexType, TableDescription, TableStatus,
};
use extenddb_storage_mongodb::tags::{
    list_tags_command, read_tags, tag_resource, untag_resource, Tag,
};
use extenddb_storage_mongodb::update_table::{
    plan_changes, update_table_next, update_table_start, IndexChange, IndexUpdate, UpdateTable,
};

fn s(text: &str) -> Bson {
    Bson::String(text.to_string())
}

fn doc(entries: Vec<(&str, Bson)>) -> Document {
    Document {
        entries: entries
            .into_iter()
            .map(|(k, v)| (k.to_string(), v))
            .collect(),
    }
}

fn obj(entries: Vec<(&str, Bson)>) -> Bson {
    Bson::Document(doc(entries))
}

fn internal(message: &str) -> StorageError {
    StorageError::Internal(message.to_string())
}

fn expect<S: std::fmt::Debug, T: std::fmt::Debug>(step: Step<S, T>) -> (S, Action) {
    match step {
        Step::Do(state, action) => (state, action),
        Step::Done(r) => panic!("finished with {r:?}"),
    }
}

fn command(action: Action) -> Command {
    match action {
        Action::Run(c) => c,
        other => panic!("{other:?}"),
    }
}

fn found(d: Option<Document>) -> Event {
    Event::Replied(Reply::One(d))
}

fn done() -> Event {
    Event::Replied(Reply::Done)
}

fn failed(message: &str) -> Event {
    Event::Replied(Reply::Failed(DbError { code: Some(11000), message: message.to_string() }))
}

fn schema() -> Vec<KeySchemaElement> {
    vec![
        KeySchemaElement { attribute_name: "pk".to_string(), key_type: KeyType::Hash },
        KeySchemaElement { attribute_name: "sk".to_string(), key_type: KeyType::Range },
    ]
}

fn defs() -> Vec<AttributeDefinition> {
    vec![
        AttributeDefinition {
            attribute_name: "pk".to_string(),
            attribute_type: ScalarAttributeType::S,
        },
        AttributeDefinition {
            attribute_name: "sk".to_string(),
            attribute_type: ScalarAttributeType::N,
        },
    ]
}

fn keys_only() -> Projection {
    Projection { projection_type: ProjectionType::KeysOnly, non_key_attributes: None }
}

fn index(name: &str) -> IndexSpec {
    IndexSpec {
        index_name: name.to_string(),
        key_schema: schema(),
        projection: keys_only(),
        throughput: Some(ProvisionedThroughput {
            read_capacity_units: 1,
            write_capacity_units: 2,
        }),
    }
}

fn request() -> CreateTable {
    CreateTable {
        account_id: "acc".to_string(),
        table_name: "tab".to_string(),
        table_arn: "arn:tab".to_string(),
        key_schema: schema(),
        attribute_definitions: defs(),
        sort_key: Some(ScalarAttributeType::S),
        billing_mode: None,
        throughput: None,
        stream_specification: Some(StreamSpecification {
            stream_enabled: true,
            stream_view_type: Some(StreamViewType::NewImage),
        }),
        deletion_protection: None,
        global_indexes: Some(vec![index("g")]),
        local_indexes: Some(vec![index("l")]),
        tags: Some(vec![Tag { key: "k".to_string(), value: "v".to_string() }]),
    }
}

fn fresh() -> Fresh {
    Fresh {
        now_nanos: 1_700_000_000_000_000_000,
        now_millis: 1_700_000_000_000,
        id: "t-1".to_string(),
        ids: vec!["g-1".to_string(), "l-1".to_string()],
    }
}

fn table() -> TableDescription {
    TableDescription {
        account_id: "acc".to_string(),
        table_name: "tab".to_string(),
        key_schema: schema(),
        attribute_definitions: defs(),
        table_status: TableStatus::Active,
        creation_millis: 5,
        table_size_bytes: 0,
        item_count: 0,
        table_arn: "arn:tab".to_string(),
        table_id: "t-1".to_string(),
        throughput: ProvisionedThroughput { read_capacity_units: 3, write_capacity_units: 4 },
        billing_mode: BillingMode::Provisioned,
        global_indexes: None,
        local_indexes: None,
        stream_specification: Some(StreamSpecification {
            stream_enabled: false,
            stream_view_type: None,
        }),
        stream_label: Some("label".to_string()),
        deletion_protection: true,
    }
}

fn units() -> Option<ProvisionedThroughput> {
    Some(ProvisionedThroughput { read_capacity_units: 3, write_capacity_units: 4 })
}

#[test]
fn tables_read_back() {
    assert_eq!(read_table(&table_document(&table(), &units())), Ok(table()));
}

#[test]
fn parts_of_a_table_read_back() {
    assert_eq!(read_schema(&schema_to_bson(&schema())), Some(schema()));
    assert_eq!(read_defs(&defs_to_bson(&defs())), Some(defs()));
    let p = || Projection {
        projection_type: ProjectionType::Include,
        non_key_attributes: Some(vec!["a".to_string()]),
    };
    assert_eq!(read_projection(&projection_to_bson(&p())), Some(p()));
    assert_eq!(read_projection(&projection_to_bson(&keys_only())), Some(keys_only()));
    let d = doc(vec![("t", throughput_to_bson(&units()))]);
    assert_eq!(read_throughput(&d, "t"), units());
    assert_eq!(read_throughput(&d, "u"), None);
    let spec = Some(StreamSpecification {
        stream_enabled: true,
        stream_view_type: Some(StreamViewType::NewAndOldImages),
    });
    let d = doc(vec![("s", stream_spec_to_bson(&spec))]);
    assert_eq!(read_stream_spec(&d, "s"), spec);
    for v in vec![
        StreamViewType::KeysOnly,
        StreamViewType::NewImage,
        StreamViewType::OldImage,
        StreamViewType::NewAndOldImages,
    ] {
        assert_eq!(read_view_type(view_type_name(v)), Some(v));
    }
    assert_eq!(view_type_name(StreamViewType::NewAndOldImages), "NEW_AND_OLD_IMAGES");
    assert_eq!(
        schema_to_bson(&schema()),
        Bson::Array(vec![
            obj(vec![("AttributeName", s("pk")), ("KeyType", s("HASH"))]),
            obj(vec![("AttributeName", s("sk")), ("KeyType", s("RANGE"))]),
        ])
    );
    assert_eq!(read_schema(&s("x")), None);
    assert_eq!(read_defs(&Bson::Array(vec![s("x")])), None);
}

#[test]
fn billing_is_summed_up() {
    let mut t = table();
    t.creation_millis = 7000;
    t.billing_mode = BillingMode::Provisioned;
    assert_eq!(t.billing_mode_summary(), None);
    t.billing_mode = BillingMode::PayPerRequest;
    assert_eq!(
        t.billing_mode_summary(),
        Some(BillingModeSummary {
            billing_mode: BillingMode::PayPerRequest,
            last_update_to_pay_per_request: 7000,
        })
    );
}

#[test]
fn documents_that_are_no_tables_are_refused() {
    let without = |k: &str| {
        let mut d = table_document(&table(), &None);
        d.entries.retain(|(name, _)| name != k);
        read_table(&d)
    };
    assert_eq!(without("_id"), Err(internal("missing _id")));
    assert_eq!(without("table_id"), Err(internal("missing table_id")));
    assert_eq!(without("table_arn"), Err(internal("missing table_arn")));
    assert_eq!(without("key_schema"), Err(internal("missing key_schema")));
    assert_eq!(
        without("attribute_definitions"),
        Err(internal("missing attribute_definitions"))
    );
    let mut d = table_document(&table(), &None);
    d.insert("key_schema", s("x"));
    assert_eq!(read_table(&d), Err(internal("key_schema: not a key schema")));
}

#[test]
fn unknown_values_have_defaults() {
    let mut d = table_document(&table(), &None);
    d.entries.retain(|(k, _)| k != "table_status" && k != "billing_mode" && k != "item_count");
    let t = read_table(&d).unwrap();
    assert_eq!(t.table_status, TableStatus::Active);
    assert_eq!(t.billing_mode, BillingMode::Provisioned);
    assert_eq!(t.item_count, 0);
    assert_eq!(
        t.throughput,
        ProvisionedThroughput { read_capacity_units: 0, write_capacity_units: 0 }
    );
    assert_eq!(billing_name(BillingMode::PayPerRequest), "PAY_PER_REQUEST");
}

#[test]
fn indexes_are_added_to_their_table() {
    let docs = vec![
        index_document("t-1", IndexType::Gsi, "g-1", &index("g")),
        index_document("t-1", IndexType::Lsi, "l-1", &index("l")),
    ];
    let t = add_indexes(table(), &docs).unwrap();
    assert_eq!(
        t.global_indexes,
        Some(vec![describe_new_index(IndexType::Gsi, &index("g"))])
    );
    assert_eq!(t.local_indexes.map(|v| v[0].index_name.clone()), Some("l".to_string()));
    let none = add_indexes(table(), &vec![]).unwrap();
    assert_eq!((none.global_indexes, none.local_indexes), (None, None));
}

#[test]
fn creation_enters_the_table_first() {
    let (state, action) = expect(create_table_start(request(), fresh()));
    let document = match command(action) {
        Command::Insert { at, document } => {
            assert_eq!(at, Place::catalog("tables"));
            let entered = read_table(&document).unwrap();
            assert_eq!(entered.table_id, "t-1");
            assert_eq!(entered.stream_label, Some("2023-11-14T22:13:20.000000000Z".to_string()));
            document
        },
        other => panic!("{other:?}"),
    };
    let mut step = create_table_next(state, done());
    let mut commands: Vec<Command> = vec![];
    let described = loop {
        match step {
            Step::Do(state, action) => {
                commands.push(command(action));
                step = create_table_next(state, done());
            },
            Step::Done(r) => break r.unwrap(),
        }
    };
    assert_eq!(commands[0], Command::CreateCollection { at: Place::data("_ddb_t-1") });
    assert_eq!(
        commands[1],
        Command::CreateIndex {
            at: Place::data("_ddb_t-1"),
            keys: doc(vec![("pk", Bson::Int32(1)), ("sk_s", Bson::Int32(1))]),
            options: IndexOptions {
                unique: true,
                sparse: false,
                simple_collation: true,
                name: None,
                expire_after: None,
                partial: None,
            },
        }
    );
    let shards = commands
        .iter()
        .filter(|c| matches!(c, Command::Insert { at, .. } if at == &Place::data("stream_shards")))
        .count();
    assert_eq!(shards, 4);
    let mut entries: Vec<Document> = commands
        .into_iter()
        .filter_map(|c| match c {
            Command::Insert { at, document } if at == Place::catalog("indexes") => Some(document),
            _ => None,
        })
        .collect();
    assert_eq!(entries.len(), 2);
    entries.reverse();
    let entered = add_indexes(read_table(&document).unwrap(), &entries).unwrap();
    assert_eq!(entered.global_indexes, described.global_indexes);
    assert_eq!(entered.local_indexes, described.local_indexes);
    assert_eq!(entered, described);
    assert_eq!(described.table_status, TableStatus::Active);
    assert_eq!(described.billing_mode, BillingMode::Provisioned);
    assert_eq!(described.global_indexes.map(|v| v.len()), Some(1));
    assert_eq!(described.local_indexes.map(|v| v.len()), Some(1));
}

#[test]
fn existing_table_is_left_alone() {
    let (state, _) = expect(create_table_start(request(), fresh()));
    assert_eq!(
        create_table_next(state, failed("E11000 duplicate key")),
        Step::Done(Err(StorageError::TableAlreadyExists("tab".to_string())))
    );
    let (state, _) = expect(create_table_start(request(), fresh()));
    assert_eq!(create_table_next(state, failed("down")), Step::Done(Err(internal("down"))));
}

#[test]
fn bad_account_is_refused() {
    for bad in vec!["a$", "a.b", "a\0", "\u{e9}"] {
        assert_eq!(
            validate_account_id(bad),
            Err(StorageError::Validation(format!("Invalid account_id: {bad}")))
        );
    }
    assert_eq!(validate_account_id("123456789012"), Ok(()));
    let mut q = request();
    q.account_id = "a$".to_string();
    assert!(matches!(
        create_table_start(q, fresh()),
        Step::Done(Err(StorageError::Validation(_)))
    ));
}

#[test]
fn tables_are_described_with_their_indexes() {
    let (state, action) = expect(describe_table_start("acc", "tab"));
    assert_eq!(
        command(action),
        Command::FindOne { at: Place::catalog("tables"), filter: table_filter("acc", "tab") }
    );
    assert_eq!(
        table_filter("acc", "tab"),
        doc(vec![("_id", obj(vec![("account_id", s("acc")), ("table_name", s("tab"))]))])
    );
    let (state, action) =
        expect(describe_table_next(state, found(Some(table_document(&table(), &units())))));
    match command(action) {
        Command::Find { at, filter, .. } => {
            assert_eq!(at, Place::catalog("indexes"));
            assert_eq!(filter, doc(vec![("_id.table_id", s("t-1"))]));
        },
        other => panic!("{other:?}"),
    }
    assert_eq!(
        describe_table_next(state, Event::Replied(Reply::Many(vec![]))),
        Step::Done(Ok(table()))
    );
    let (state, _) = expect(describe_table_start("acc", "tab"));
    assert_eq!(
        describe_table_next(state, found(None)),
        Step::Done(Err(StorageError::TableNotFound("tab".to_string())))
    );
}

#[test]
fn protected_table_is_not_deleted() {
    let (state, _) = expect(delete_table_start("acc", "tab"));
    let (state, _) =
        expect(delete_table_next(state, found(Some(table_document(&table(), &units())))));
    assert_eq!(
        delete_table_next(state, Event::Replied(Reply::Many(vec![]))),
        Step::Done(Err(StorageError::DeletionProtected("tab".to_string())))
    );
}

#[test]
fn deletion_removes_the_entry_last() {
    let mut t = table();
    t.deletion_protection = false;
    let (state, _) = expect(delete_table_start("acc", "tab"));
    let (state, _) = expect(delete_table_next(state, found(Some(table_document(&t, &units())))));
    let (state, action) = expect(delete_table_next(state, Event::Replied(Reply::Many(vec![]))));
    match command(action) {
        Command::Update { update, .. } => assert_eq!(
            update,
            doc(vec![("$set", obj(vec![("table_status", s("DELETING"))]))])
        ),
        other => panic!("{other:?}"),
    }
    let (state, action) = expect(delete_table_next(state, done()));
    assert_eq!(command(action), Command::DropCollection { at: Place::data("_ddb_t-1") });
    let (state, action) = expect(delete_table_next(state, done()));
    assert!(matches!(command(action), Command::DeleteMany { .. }));
    let (state, action) = expect(delete_table_next(state, done()));
    assert_eq!(
        action,
        Action::Remember { table_id: "t-1".to_string(), has_indexes: None }
    );
    let (state, action) = expect(delete_table_next(state, Event::Remembered));
    assert_eq!(
        command(action),
        Command::DeleteOne { at: Place::catalog("tables"), filter: table_filter("acc", "tab") }
    );
    match delete_table_next(state, done()) {
        Step::Done(Ok(d)) => assert_eq!(d.table_status, TableStatus::Deleting),
        other => panic!("{other:?}"),
    }
}

#[test]
fn tables_are_listed_page_by_page() {
    assert_eq!(effective_limit(None), 100);
    assert_eq!(effective_limit(Some(7)), 7);
    assert_eq!(
        list_tables_command("acc", Some("m"), 2),
        Ok(Command::Find {
            at: Place::catalog("tables"),
            filter: doc(vec![
                ("_id.account_id", s("acc")),
                ("_id.table_name", obj(vec![("$gt", s("m"))])),
            ]),
            paging: Paging {
                sort: Some(doc(vec![("_id.table_name", Bson::Int32(1))])),
                limit: Some(3),
                simple_collation: false,
                projection: Some(doc(vec![("_id.table_name", Bson::Int32(1))])),
            },
        })
    );
    assert!(list_tables_command("a$", None, 2).is_err());
    let named = |n: &str| doc(vec![("_id", obj(vec![("table_name", s(n))]))]);
    let docs = vec![named("a"), named("b"), named("c")];
    assert_eq!(collect_names(&docs).len(), 3);
    assert_eq!(
        read_table_names(&docs, 2),
        TableNames {
            table_names: vec!["a".to_string(), "b".to_string()],
            last_evaluated: Some("b".to_string()),
        }
    );
    assert_eq!(read_table_names(&docs, 3).last_evaluated, None);
}

fn change() -> UpdateTable {
    UpdateTable {
        account_id: "acc".to_string(),
        table_name: "tab".to_string(),
        billing_mode: Some(BillingMode::PayPerRequest),
        throughput: None,
        deletion_protection: Some(true),
        stream_specification: None,
        index_changes: vec![],
    }
}

#[test]
fn updates_set_only_what_is_given() {
    let (state, action) = expect(update_table_start(change(), &fresh()));
    match command(action) {
        Command::Update { filter, update, upsert, .. } => {
            assert_eq!(filter, table_filter("acc", "tab"));
            assert!(!upsert);
            assert_eq!(
                update,
                doc(vec![(
                    "$set",
                    obj(vec![
                        ("billing_mode", s("PAY_PER_REQUEST")),
                        ("deletion_protection_enabled", Bson::Boolean(true)),
                    ])
                )])
            );
        },
        other => panic!("{other:?}"),
    }
    let (state, _) = expect(update_table_next(state, Event::Replied(Reply::Matched(1))));
    let (state, _) =
        expect(update_table_next(state, found(Some(table_document(&table(), &units())))));
    assert_eq!(
        update_table_next(state, Event::Replied(Reply::Many(vec![]))),
        Step::Done(Ok(table()))
    );
}

fn empty_change() -> UpdateTable {
    UpdateTable { billing_mode: None, deletion_protection: None, ..change() }
}

#[test]
fn index_changes_are_planned_and_performed() {
    let updates = vec![
        IndexUpdate { create: Some(index("new")), delete: None },
        IndexUpdate { create: None, delete: Some("old".to_string()) },
        IndexUpdate { create: None, delete: None },
    ];
    let ids = vec!["a".to_string(), "b".to_string(), "c".to_string()];
    let changes = plan_changes(updates, ids);
    assert_eq!(
        changes,
        vec![
            IndexChange::Create { index_id: "a".to_string(), index: index("new") },
            IndexChange::Delete { index_name: "old".to_string() },
        ]
    );
    let q = UpdateTable { index_changes: changes, ..empty_change() };
    let seen = || found(Some(table_document(&table(), &units())));
    let (state, _) = expect(update_table_start(q, &fresh()));
    let (state, _) = expect(update_table_next(state, seen()));
    let (state, action) = expect(update_table_next(state, Event::Replied(Reply::Many(vec![]))));
    match command(action) {
        Command::Insert { at, document } => {
            assert_eq!(at, Place::catalog("indexes"));
            assert_eq!(document.get("index_id"), Some(&s("a")));
            assert_eq!(document.get("index_type"), Some(&s("GSI")));
        },
        other => panic!("{other:?}"),
    }
    let (state, action) = expect(update_table_next(state, done()));
    assert_eq!(
        action,
        Action::Remember { table_id: "t-1".to_string(), has_indexes: Some(true) }
    );
    let (state, _) = expect(update_table_next(state, Event::Remembered));
    let (state, _) = expect(update_table_next(state, seen()));
    let (state, action) = expect(update_table_next(state, Event::Replied(Reply::Many(vec![]))));
    assert_eq!(
        command(action),
        Command::DeleteOne {
            at: Place::catalog("indexes"),
            filter: index_filter("t-1", "old"),
        }
    );
    assert_eq!(
        update_table_next(state, Event::Replied(Reply::Deleted(0))),
        Step::Done(Err(StorageError::IndexNotFound("old".to_string())))
    );
}

#[test]
fn existing_index_is_not_created_again() {
    let q = UpdateTable {
        index_changes: vec![IndexChange::Create {
            index_id: "a".to_string(),
            index: index("new"),
        }],
        ..empty_change()
    };
    let (state, _) = expect(update_table_start(q, &fresh()));
    let (state, _) =
        expect(update_table_next(state, found(Some(table_document(&table(), &units())))));
    let (state, _) = expect(update_table_next(state, Event::Replied(Reply::Many(vec![]))));
    assert_eq!(
        update_table_next(state, failed("E11000 duplicate key")),
        Step::Done(Err(StorageError::IndexAlreadyExists("new".to_string())))
    );
}

#[test]
fn streams_switched_on_get_shards_and_a_label() {
    let q = UpdateTable {
        stream_specification: Some(StreamSpecification {
            stream_enabled: true,
            stream_view_type: Some(StreamViewType::KeysOnly),
        }),
        ..empty_change()
    };
    let (state, _) = expect(update_table_start(q, &fresh()));
    let (state, action) =
        expect(update_table_next(state, found(Some(doc(vec![("table_id", s("t-1"))])))));
    assert_eq!(
        command(action),
        Command::Count {
            at: Place::data("stream_shards"),
            filter: doc(vec![("table_id", s("t-1"))]),
        }
    );
    let (mut state, mut action) =
        expect(update_table_next(state, Event::Replied(Reply::Counted(0))));
    let mut shards: usize = 0;
    while let Action::Run(Command::Insert { at, .. }) = &action {
        assert_eq!(at, &Place::data("stream_shards"));
        shards += 1;
        (state, action) = expect(update_table_next(state, done()));
    }
    assert_eq!(shards, 4);
    match command(action) {
        Command::Update { update, .. } => {
            let set = update.get_document("$set").unwrap();
            assert_eq!(set.get_str("stream_label"), Some("2023-11-14T22:13:20.000000000Z"));
        },
        other => panic!("{other:?}"),
    }
    drop(state);
}

#[test]
fn table_that_streams_gets_no_further_shards() {
    let q = UpdateTable {
        stream_specification: Some(StreamSpecification {
            stream_enabled: true,
            stream_view_type: Some(StreamViewType::KeysOnly),
        }),
        ..empty_change()
    };
    let (state, _) = expect(update_table_start(q, &fresh()));
    let (state, _) =
        expect(update_table_next(state, found(Some(doc(vec![("table_id", s("t-1"))])))));
    let (_, action) = expect(update_table_next(state, Event::Replied(Reply::Counted(4))));
    assert!(matches!(command(action), Command::Update { .. }));
}

#[test]
fn key_info_needs_an_active_table() {
    let (state, _) = expect(table_key_info_start("acc", "tab"));
    let (state, action) =
        expect(table_key_info_next(state, found(Some(table_document(&table(), &units())))));
    assert!(matches!(command(action), Command::Count { .. }));
    match table_key_info_next(state, Event::Replied(Reply::Counted(2))) {
        Step::Done(Ok(info)) => {
            assert_eq!(info.table_id, "t-1");
            assert_eq!(info.key_schema, schema());
            assert_eq!(info.attribute_definitions, defs());
            assert!(info.has_lsi);
        },
        other => panic!("{other:?}"),
    }
    let mut d = table_document(&table(), &units());
    d.insert("table_status", s("CREATING"));
    let (state, _) = expect(table_key_info_start("acc", "tab"));
    assert_eq!(
        table_key_info_next(state, found(Some(d))),
        Step::Done(Err(StorageError::TableNotActive("tab".to_string())))
    );
}

#[test]
fn indexes_read_back() {
    let reply = Reply::One(Some(index_document("t-1", IndexType::Lsi, "l-1", &index("l"))));
    let info = index_info_reply("l", &reply).unwrap();
    assert_eq!(info.index_id, "l-1");
    assert_eq!(info.index_type, IndexType::Lsi);
    assert_eq!(info.key_schema, schema());
    assert_eq!(info.projection, keys_only());
    assert_eq!(
        index_info_reply("l", &Reply::One(None)),
        Err(StorageError::IndexNotFound("l".to_string()))
    );
    assert_eq!(
        index_info_command("t-1", "l"),
        Command::FindOne { at: Place::catalog("indexes"), filter: index_filter("t-1", "l") }
    );
    let mut d = index_document("t-1", IndexType::Lsi, "l-1", &index("l"));
    d.insert("index_type", s("XSI"));
    assert_eq!(
        index_info_reply("l", &Reply::One(Some(d))),
        Err(internal("unknown index type: XSI"))
    );
}

#[test]
fn indexes_are_found_by_the_name_of_their_table() {
    let (state, _) = expect(index_info_start("acc", "tab", "l"));
    let (state, _) =
        expect(index_info_next(state, found(Some(table_document(&table(), &units())))));
    let (state, action) = expect(index_info_next(state, Event::Replied(Reply::Counted(1))));
    assert_eq!(command(action), index_info_command("t-1", "l"));
    let d = index_document("t-1", IndexType::Lsi, "l-1", &index("l"));
    match index_info_next(state, found(Some(d))) {
        Step::Done(Ok(info)) => assert_eq!(info.index_id, "l-1"),
        other => panic!("{other:?}"),
    }
    let (state, _) = expect(index_info_start("acc", "tab", "l"));
    assert_eq!(
        index_info_next(state, found(None)),
        Step::Done(Err(StorageError::TableNotFound("tab".to_string())))
    );
}

#[test]
fn tags_are_set_listed_and_removed() {
    let tags = vec![
        Tag { key: "a".to_string(), value: "1".to_string() },
        Tag { key: "b".to_string(), value: "2".to_string() },
    ];
    let lines = tag_resource("arn", &tags);
    assert_eq!(lines.len(), 2);
    assert!(lines.iter().all(|l| l.required));
    match &lines[0].command {
        Command::Update { at, filter, upsert, .. } => {
            assert_eq!(at, &Place::catalog("tags"));
            assert_eq!(
                filter,
                &doc(vec![(
                    "_id",
                    obj(vec![("resource_arn", s("arn")), ("tag_key", s("a"))])
                )])
            );
            assert!(upsert);
        },
        other => panic!("{other:?}"),
    }
    assert_eq!(untag_resource("arn", &vec!["a".to_string()]).len(), 1);
    assert!(matches!(list_tags_command("arn"), Command::Find { .. }));
    let docs = vec![doc(vec![("_id", obj(vec![("tag_key", s("a"))])), ("tag_value", s("1"))])];
    assert_eq!(read_tags(&docs), vec![Tag { key: "a".to_string(), value: "1".to_string() }]);
}

#[test]
fn fresh_identifiers_differ() {
    let f = draw_fresh(3);
    assert_eq!(f.ids.len(), 3);
    assert_eq!(f.id.len(), 36);
    assert_ne!(f.ids[0], f.ids[1]);
    assert_eq!(
        stream_label(1_700_000_000_123_456_789),
        "2023-11-14T22:13:20.123456789Z"
    );
}
