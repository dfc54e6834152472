use extenddb_storage_mongodb::bson::{Bson, Document};
use extenddb_storage_mongodb::data::{item_to_document, ItemKey};
use extenddb_storage_mongodb::delete_item::{
    delete_item_next, delete_item_start, get_item_next, get_item_start, DeleteDone,
};
use extenddb_storage_mongodb::error::{CancellationReason, StorageError};
use extenddb_storage_mongodb::follow_up::{follow_up_next, follow_up_start, FollowState, FollowUp};
use extenddb_storage_mongodb::index_sync::{
    item_has_index_keys, project_item, read_entry, sync_next, sync_start,
};
use extenddb_storage_mongodb::item::{AttributeValue, Item};
use extenddb_storage_mongodb::protocol::{
    Action, Circumstances, Command, DbError, Event, Place, Reply, Step,
};
use extenddb_storage_mongodb::put_item::{put_item_next, put_item_start, PutDone};
use extenddb_storage_mongodb::schema::{
    KeySchemaElement, KeyType, Projection, ProjectionType,
};
use extenddb_storage_mongodb::schema_json::{projection_to_bson, schema_to_bson, StreamViewType};
use extenddb_storage_mongodb::script::{
    lines_next, lines_start, may, must, script_next, script_start, Turn,
};
use extenddb_storage_mongodb::stream::Capture;
use extenddb_storage_mongodb::transact::{
    cleanup_tokens_command, transact_get_next, transact_get_start, transact_write_next,
    transact_write_start, ReadOp, Token, WriteKind, WriteOp,
};
use extenddb_storage_mongodb::update_item::{
    draw_pause, update_item_next, update_item_start, UpdateState, MAX_ATTEMPTS,
};
use extenddb_storage_mongodb::write::{
    write_next, write_start, Recording, Write, WriteDone, WriteState, WriteTable,
};

fn s(text: &str) -> Bson {
    Bson::String(text.to_string())
}

fn av(text: &str) -> AttributeValue {
    AttributeValue::S(text.to_string())
}

fn doc(entries: Vec<(&str, Bson)>) -> Document {
    Document {
        entries: entries
            .into_iter()
            .map(|(k, v)| (k.to_string(), v))
            .collect(),
    }
}

fn obj(entries: Vec<(&str, Bson)>) -> Bson {
    Bson::Document(doc(entries))
}

fn key() -> ItemKey {
    ItemKey { pk_text: "p".to_string(), sort_key: None }
}

fn item(n: &str) -> Item {
    Item::new().with("pk", av("p")).with("n", av(n))
}

fn stored(n: &str) -> Document {
    item_to_document(&item(n), &key()).unwrap()
}

fn element(name: &str, key_type: KeyType) -> KeySchemaElement {
    KeySchemaElement { attribute_name: name.to_string(), key_type }
}

fn base() -> Vec<KeySchemaElement> {
    vec![element("pk", KeyType::Hash)]
}

fn failed(code: Option<i32>, message: &str) -> Event {
    Event::Replied(Reply::Failed(DbError { code, message: message.to_string() }))
}

fn internal<S, T>(message: &str) -> Step<S, T> {
    Step::Done(Err(StorageError::Internal(message.to_string())))
}

fn expect<S: std::fmt::Debug, T: std::fmt::Debug>(step: Step<S, T>) -> (S, Action) {
    match step {
        Step::Do(state, action) => (state, action),
        Step::Done(r) => panic!("finished with {r:?}"),
    }
}

fn found(d: Option<Document>) -> Event {
    Event::Replied(Reply::One(d))
}

#[test]
fn plain_put_replaces_at_once() {
    let (state, action) = expect(put_item_start("t", &item("1"), &key(), true, false));
    assert_eq!(
        action,
        Action::Run(Command::FindAndReplace {
            at: Place::data("_ddb_t"),
            filter: doc(vec![("pk", s("p"))]),
            document: stored("1"),
            upsert: true,
        })
    );
    assert_eq!(
        put_item_next(state, found(Some(stored("0")))),
        Step::Done(Ok(PutDone { old: Some(item("0")), returned: Some(item("0")) }))
    );
}

#[test]
fn put_returns_the_old_item_only_when_asked() {
    let (state, _) = expect(put_item_start("t", &item("1"), &key(), false, false));
    assert_eq!(
        put_item_next(state, found(Some(stored("0")))),
        Step::Done(Ok(PutDone { old: Some(item("0")), returned: None }))
    );
}

#[test]
fn conditional_put_reads_and_evaluates_first() {
    let (state, action) = expect(put_item_start("t", &item("1"), &key(), true, true));
    assert_eq!(
        action,
        Action::Run(Command::FindOne {
            at: Place::data("_ddb_t"),
            filter: doc(vec![("pk", s("p"))]),
        })
    );
    let (state, action) = expect(put_item_next(state, found(Some(stored("0")))));
    assert_eq!(action, Action::Evaluate { op: 0, item: item("0") });
    let (_, action) = expect(put_item_next(state, Event::Evaluated(Ok(true))));
    assert!(matches!(action, Action::Run(Command::FindAndReplace { upsert: false, .. })));
}

#[test]
fn failed_condition_shows_the_existing_item() {
    let (state, _) = expect(put_item_start("t", &item("1"), &key(), true, true));
    let (state, _) = expect(put_item_next(state, found(Some(stored("0")))));
    assert_eq!(
        put_item_next(state, Event::Evaluated(Ok(false))),
        Step::Done(Err(StorageError::ConditionFailed(Some(item("0")))))
    );
    let (state, _) = expect(put_item_start("t", &item("1"), &key(), true, true));
    let (state, action) = expect(put_item_next(state, found(None)));
    assert_eq!(action, Action::Evaluate { op: 0, item: Item::new() });
    assert_eq!(
        put_item_next(state, Event::Evaluated(Err("bad".to_string()))),
        Step::Done(Err(StorageError::Validation("bad".to_string())))
    );
}

#[test]
fn lost_insert_race_is_a_failed_condition() {
    let (state, _) = expect(put_item_start("t", &item("1"), &key(), true, true));
    let (state, _) = expect(put_item_next(state, found(None)));
    let (state, action) = expect(put_item_next(state, Event::Evaluated(Ok(true))));
    assert!(matches!(action, Action::Run(Command::Insert { .. })));
    let (state, action) = expect(put_item_next(state, failed(Some(11000), "E11000 duplicate key")));
    assert!(matches!(action, Action::Run(Command::FindOne { .. })));
    assert_eq!(
        put_item_next(state, found(Some(stored("2")))),
        Step::Done(Err(StorageError::ConditionFailed(Some(item("2")))))
    );
}

#[test]
fn put_hands_database_errors_on() {
    let (state, _) = expect(put_item_start("t", &item("1"), &key(), false, false));
    assert_eq!(put_item_next(state, failed(None, "down")), internal("down"));
}

#[test]
fn get_finds_by_key() {
    let (state, action) = expect(get_item_start("t", &item("1"), &key()));
    assert_eq!(
        action,
        Action::Run(Command::FindOne {
            at: Place::data("_ddb_t"),
            filter: doc(vec![("pk", s("p"))]),
        })
    );
    assert_eq!(get_item_next(state, found(Some(stored("1")))), Step::Done(Ok(Some(item("1")))));
    let (state, _) = expect(get_item_start("t", &item("1"), &key()));
    assert_eq!(get_item_next(state, found(None)), Step::Done(Ok(None)));
}

#[test]
fn stored_item_is_read_back() {
    let document = match put_item_start("t", &item("1"), &key(), false, false) {
        Step::Do(_, Action::Run(Command::Replace { document, .. })) => document,
        Step::Do(_, Action::Run(Command::FindAndReplace { document, .. })) => document,
        other => panic!("{other:?}"),
    };
    let only_key = Item::new().with("pk", av("p"));
    let (state, action) = expect(get_item_start("t", &only_key, &key()));
    match action {
        Action::Run(Command::FindOne { at, filter }) => {
            assert_eq!(at, Place::data("_ddb_t"));
            for (k, v) in &filter.entries {
                assert_eq!(document.get(k), Some(v), "{k}");
            }
        },
        other => panic!("{other:?}"),
    }
    assert_eq!(get_item_next(state, found(Some(document))), Step::Done(Ok(Some(item("1")))));
}

#[test]
fn delete_hands_the_item_out() {
    let (state, action) = expect(delete_item_start("t", &item("1"), &key(), true, false));
    assert!(matches!(action, Action::Run(Command::FindAndDelete { .. })));
    assert_eq!(
        delete_item_next(state, found(Some(stored("1")))),
        Step::Done(Ok(DeleteDone { deleted: Some(item("1")), returned: Some(item("1")) }))
    );
}

#[test]
fn conditional_delete_removes_only_what_it_read() {
    let (state, _) = expect(delete_item_start("t", &item("1"), &key(), false, true));
    let (state, action) = expect(delete_item_next(state, found(Some(stored("1")))));
    assert_eq!(action, Action::Evaluate { op: 0, item: item("1") });
    let (state, action) = expect(delete_item_next(state, Event::Evaluated(Ok(true))));
    assert_eq!(
        action,
        Action::Run(Command::DeleteOne {
            at: Place::data("_ddb_t"),
            filter: doc(vec![("pk", s("p"))]),
        })
    );
    assert_eq!(
        delete_item_next(state, Event::Replied(Reply::Deleted(1))),
        Step::Done(Ok(DeleteDone { deleted: Some(item("1")), returned: None }))
    );
    let (state, _) = expect(delete_item_start("t", &item("1"), &key(), false, true));
    let (state, _) = expect(delete_item_next(state, found(None)));
    assert_eq!(
        delete_item_next(state, Event::Evaluated(Ok(false))),
        Step::Done(Err(StorageError::ConditionFailed(None)))
    );
}

fn begin_update(conditional: bool) -> UpdateState {
    expect(update_item_start("t", &item("k"), &key(), &base(), conditional, true, true)).0
}

#[test]
fn update_raises_the_version() {
    let mut old = stored("1");
    old.insert("_v", Bson::Int64(4));
    let (state, action) = expect(update_item_next(begin_update(false), found(Some(old))));
    assert_eq!(action, Action::Apply { op: 0, item: item("1") });
    let (state, action) = expect(update_item_next(state, Event::Applied(Ok(item("2")))));
    assert_eq!(action, Action::KeyOf { op: 0, item: item("2"), key_schema: base() });
    let (state, action) = expect(update_item_next(state, Event::Key(Ok(key()))));
    let mut next = stored("2");
    next.insert("_v", Bson::Int64(5));
    assert_eq!(
        action,
        Action::Run(Command::Replace {
            at: Place::data("_ddb_t"),
            filter: doc(vec![("pk", s("p")), ("_v", Bson::Int64(4))]),
            document: next,
            upsert: false,
        })
    );
    match update_item_next(state, Event::Replied(Reply::Matched(1))) {
        Step::Done(Ok(done)) => {
            assert_eq!(done.old, Some(item("1")));
            assert_eq!(done.new, item("2"));
            assert_eq!(done.returned_old, Some(item("1")));
            assert_eq!(done.returned_new, Some(item("2")));
        },
        other => panic!("{other:?}"),
    }
}

#[test]
fn update_creates_what_is_missing() {
    let (state, action) = expect(update_item_next(begin_update(true), found(None)));
    assert_eq!(action, Action::Evaluate { op: 0, item: item("k") });
    let (state, action) = expect(update_item_next(state, Event::Evaluated(Ok(true))));
    assert_eq!(action, Action::Apply { op: 0, item: item("k") });
    let (state, _) = expect(update_item_next(state, Event::Applied(Ok(item("2")))));
    let (state, action) = expect(update_item_next(state, Event::Key(Ok(key()))));
    match action {
        Action::Run(Command::Replace { filter, upsert, document, .. }) => {
            assert_eq!(filter, doc(vec![("pk", s("p"))]));
            assert!(upsert);
            assert_eq!(document.get("_v"), Some(&Bson::Int64(1)));
        },
        other => panic!("{other:?}"),
    }
    match update_item_next(state, Event::Replied(Reply::Matched(0))) {
        Step::Done(Ok(done)) => assert_eq!(done.old, None),
        other => panic!("{other:?}"),
    }
}

#[test]
fn conflicting_updates_are_tried_again_and_given_up() {
    let mut state = begin_update(false);
    let mut pauses: Vec<u64> = vec![];
    for attempt in 0..MAX_ATTEMPTS {
        let (applying, _) = expect(update_item_next(state, found(Some(stored("1")))));
        let (keying, _) = expect(update_item_next(applying, Event::Applied(Ok(item("2")))));
        let (writing, action) = expect(update_item_next(keying, Event::Key(Ok(key()))));
        match action {
            Action::Run(Command::Replace { filter, .. }) => assert_eq!(
                filter.get("_v"),
                Some(&obj(vec![("$not", obj(vec![("$gt", Bson::Int64(0))]))]))
            ),
            other => panic!("{other:?}"),
        }
        let (pausing, action) =
            expect(update_item_next(writing, Event::Replied(Reply::Matched(0))));
        match action {
            Action::Pause { at_most } => pauses.push(at_most),
            other => panic!("{other:?}"),
        }
        let next = update_item_next(pausing, Event::Paused);
        if attempt + 1 == MAX_ATTEMPTS {
            assert_eq!(next, internal("UpdateItem: too many version conflicts, giving up"));
            break;
        }
        state = expect(next).0;
    }
    assert_eq!(pauses.len(), 50);
    assert_eq!(
        pauses[..12].to_vec(),
        vec![100, 200, 400, 800, 1600, 3200, 6400, 12800, 25600, 51200, 102400, 102400]
    );
}

#[test]
fn pauses_are_drawn_up_to_the_longest() {
    assert_eq!(draw_pause(0), 0);
    let drawn: Vec<u64> = (0..200).map(|_| draw_pause(3)).collect();
    for micros in 0..4 {
        assert!(drawn.contains(&micros), "{micros}");
    }
    assert!(drawn.iter().all(|micros| *micros <= 3));
}

#[test]
fn update_refuses_what_does_not_hold() {
    let (state, _) = expect(update_item_next(begin_update(true), found(Some(stored("1")))));
    assert_eq!(
        update_item_next(state, Event::Evaluated(Ok(false))),
        Step::Done(Err(StorageError::ConditionFailed(Some(item("1")))))
    );
    let mut last = stored("1");
    last.insert("_v", Bson::Int64(i64::MAX));
    let (state, _) = expect(update_item_next(begin_update(false), found(Some(last))));
    let (state, _) = expect(update_item_next(state, Event::Applied(Ok(item("2")))));
    assert_eq!(
        update_item_next(state, Event::Key(Ok(key()))),
        internal("document version overflow")
    );
}

// --- Indexes -----------------------------------------------------------------------

fn index_schema() -> Vec<KeySchemaElement> {
    vec![element("n", KeyType::Hash)]
}

fn keys_only() -> Projection {
    Projection { projection_type: ProjectionType::KeysOnly, non_key_attributes: None }
}

fn index_doc() -> Document {
    doc(vec![
        ("index_id", s("i")),
        ("key_schema", schema_to_bson(&index_schema())),
        ("projection", projection_to_bson(&keys_only())),
    ])
}

#[test]
fn projections_keep_keys_and_what_is_named() {
    let full = item("1").with("x", av("x")).with("y", av("y"));
    assert_eq!(project_item(&full, &index_schema(), &base(), &keys_only()), item("1"));
    let some = Projection {
        projection_type: ProjectionType::Include,
        non_key_attributes: Some(vec!["x".to_string(), "z".to_string()]),
    };
    assert_eq!(
        project_item(&full, &index_schema(), &base(), &some),
        item("1").with("x", av("x"))
    );
    let all = Projection { projection_type: ProjectionType::All, non_key_attributes: None };
    assert_eq!(project_item(&full, &index_schema(), &base(), &all), full);
    assert!(item_has_index_keys(&full, &index_schema()));
    assert!(!item_has_index_keys(&Item::new(), &index_schema()));
}

#[test]
fn index_entries_without_an_identifier_are_passed_over() {
    assert_eq!(read_entry(&doc(vec![("index_id", s("i"))])), None);
    let entry = read_entry(&index_doc()).unwrap();
    assert_eq!(entry.index_id, "i");
    assert_eq!(entry.key_schema, index_schema());
    assert_eq!(entry.projection, keys_only());
}

#[test]
fn indexes_follow_a_write() {
    let (state, action) = expect(sync_start(
        "t",
        base(),
        Some(item("1")),
        Some(item("2").with("x", av("x"))),
        None,
    ));
    match action {
        Action::Run(Command::Find { at, filter, .. }) => {
            assert_eq!(at, Place::catalog("indexes"));
            assert_eq!(filter, doc(vec![("_id.table_id", s("t"))]));
        },
        other => panic!("{other:?}"),
    }
    let (state, action) =
        expect(sync_next(state, Event::Replied(Reply::Many(vec![index_doc()]))));
    assert_eq!(action, Action::KeyOf { op: 0, item: item("1"), key_schema: index_schema() });
    let (state, action) = expect(sync_next(state, Event::Key(Ok(key()))));
    assert_eq!(
        action,
        Action::Run(Command::DeleteOne {
            at: Place::data("_ddb_i"),
            filter: doc(vec![("pk", s("p"))]),
        })
    );
    let (state, action) = expect(sync_next(state, Event::Replied(Reply::Deleted(1))));
    assert_eq!(action, Action::KeyOf { op: 0, item: item("2"), key_schema: index_schema() });
    let (state, action) = expect(sync_next(state, Event::Key(Ok(key()))));
    assert_eq!(
        action,
        Action::Run(Command::Replace {
            at: Place::data("_ddb_i"),
            filter: doc(vec![("pk", s("p"))]),
            document: stored("2"),
            upsert: true,
        })
    );
    assert_eq!(
        sync_next(state, Event::Replied(Reply::Matched(1))),
        Step::Done(Ok(Some(true)))
    );
}

#[test]
fn table_without_indexes_costs_nothing() {
    assert_eq!(
        sync_start("t", base(), None, Some(item("1")), Some(false)),
        Step::Done(Ok(None))
    );
    let (state, _) = expect(sync_start("t", base(), None, Some(item("1")), None));
    assert_eq!(
        sync_next(state, Event::Replied(Reply::Many(vec![]))),
        Step::Done(Ok(Some(false)))
    );
}

fn follow(has_indexes: Option<bool>, recorded: bool) -> FollowUp {
    FollowUp {
        account_id: "acc".to_string(),
        table_name: "tab".to_string(),
        table_id: "t".to_string(),
        key_schema: base(),
        has_indexes,
        capture: if recorded {
            Some(Capture {
                view_type: StreamViewType::NewImage,
                region: "eu".to_string(),
                user_identity: None,
                event_id: "e".to_string(),
                size: 3,
                now_seconds: 1,
                now_millis: 1000,
            })
        } else {
            None
        },
    }
}

#[test]
fn changes_are_recorded_after_the_indexes() {
    let (state, action) = expect(follow_up_start(follow(None, true), None, Some(item("1"))));
    assert!(matches!(action, Action::Run(Command::Find { .. })));
    let (state, action) =
        expect(follow_up_next(state, Event::Replied(Reply::Many(vec![]))));
    assert_eq!(
        action,
        Action::Remember { table_id: "t".to_string(), has_indexes: Some(false) }
    );
    let (state, action) = expect(follow_up_next(state, Event::Remembered));
    assert!(matches!(state, FollowState::Recording(_)));
    match action {
        Action::Run(Command::FindOne { at, .. }) => assert_eq!(at, Place::catalog("tables")),
        other => panic!("{other:?}"),
    }
    assert_eq!(follow_up_next(state, found(None)), internal("Table tab not found"));
}

#[test]
fn failed_indexes_leave_the_stream_alone() {
    let (state, _) = expect(follow_up_start(follow(Some(true), true), None, Some(item("1"))));
    assert_eq!(follow_up_next(state, failed(None, "no")), internal("no"));
    assert_eq!(
        follow_up_start(follow(Some(false), false), None, Some(item("1"))),
        Step::Done(Ok(()))
    );
    let (state, _) = expect(follow_up_start(follow(Some(false), true), None, Some(item("1"))));
    assert!(matches!(state, FollowState::Recording(_)));
}

fn write_table(recorded: bool) -> WriteTable {
    WriteTable {
        account_id: "acc".to_string(),
        table_name: "tab".to_string(),
        table_id: "t".to_string(),
        key_schema: base(),
        stream: if recorded {
            Some(Recording {
                view_type: StreamViewType::NewImage,
                region: "eu".to_string(),
                user_identity: None,
            })
        } else {
            None
        },
    }
}

fn consulted(has_indexes: Option<bool>) -> Event {
    Event::Consulted(Circumstances {
        has_indexes,
        size: 3,
        event_id: "e".to_string(),
        now_seconds: 1,
        now_millis: 1000,
    })
}

fn put(return_old: bool) -> Write {
    Write::Put { item: item("2"), key: key(), return_old, conditional: false }
}

#[test]
fn writes_return_once_the_indexes_are_in_step() {
    let (state, action) = expect(write_start(write_table(true), put(true)));
    assert!(matches!(action, Action::Run(Command::FindAndReplace { .. })));
    let (state, action) = expect(write_next(state, found(Some(stored("1")))));
    assert_eq!(action, Action::Consult { table_id: "t".to_string(), item: Some(item("2")) });
    let (state, action) = expect(write_next(state, consulted(None)));
    match action {
        Action::Run(Command::Find { at, .. }) => assert_eq!(at, Place::catalog("indexes")),
        other => panic!("{other:?}"),
    }
    assert!(matches!(state, WriteState::Following { .. }));
    let (state, _) = expect(write_next(state, Event::Replied(Reply::Many(vec![]))));
    let (state, action) = expect(write_next(state, Event::Remembered));
    match action {
        Action::Run(Command::FindOne { at, .. }) => assert_eq!(at, Place::catalog("tables")),
        other => panic!("{other:?}"),
    }
    assert_eq!(write_next(state, failed(None, "no")), internal("no"));
}

#[test]
fn writes_hand_out_what_they_are_asked_for() {
    let (state, _) = expect(write_start(write_table(false), put(true)));
    let (state, _) = expect(write_next(state, found(Some(stored("1")))));
    assert_eq!(
        write_next(state, consulted(Some(false))),
        Step::Done(Ok(WriteDone { old: Some(item("1")), new: None }))
    );
    let update = Write::Update {
        key_item: Item::new().with("pk", av("p")),
        key: key(),
        conditional: false,
        return_old: false,
        return_new: true,
    };
    let (state, _) = expect(write_start(write_table(false), update));
    let (state, _) = expect(write_next(state, found(Some(stored("1")))));
    let (state, _) = expect(write_next(state, Event::Applied(Ok(item("2")))));
    let (state, _) = expect(write_next(state, Event::Key(Ok(key()))));
    let (state, action) = expect(write_next(state, Event::Replied(Reply::Matched(1))));
    assert_eq!(action, Action::Consult { table_id: "t".to_string(), item: Some(item("2")) });
    assert_eq!(
        write_next(state, consulted(Some(false))),
        Step::Done(Ok(WriteDone { old: None, new: Some(item("2")) }))
    );
}

#[test]
fn deletes_that_find_nothing_have_nothing_that_follows() {
    let delete = || Write::Delete {
        key_item: Item::new().with("pk", av("p")),
        key: key(),
        return_old: true,
        conditional: false,
    };
    let (state, _) = expect(write_start(write_table(true), delete()));
    assert_eq!(
        write_next(state, found(None)),
        Step::Done(Ok(WriteDone { old: None, new: None }))
    );
    let (state, _) = expect(write_start(write_table(true), delete()));
    let (state, action) = expect(write_next(state, found(Some(stored("1")))));
    assert_eq!(action, Action::Consult { table_id: "t".to_string(), item: Some(item("1")) });
    assert_eq!(write_next(state, done()), internal("unexpected event"));
}

// --- Transactions ------------------------------------------------------------------

fn write_op(kind: WriteKind, conditional: bool, valid: Result<(), String>) -> WriteOp {
    WriteOp {
        kind,
        table_id: "t".to_string(),
        key_schema: base(),
        item: item("1"),
        conditional,
        valid,
    }
}

fn done() -> Event {
    Event::Replied(Reply::Done)
}

#[test]
fn reads_of_a_transaction_come_back_in_order() {
    let op = || ReadOp {
        table_id: "t".to_string(),
        key_schema: base(),
        key: item("1"),
        valid: Ok(()),
    };
    let (state, action) = expect(transact_get_start(vec![op(), op()]));
    assert_eq!(action, Action::Run(Command::StartTransaction { durable: false }));
    let (state, action) = expect(transact_get_next(state, done()));
    assert!(matches!(action, Action::KeyOf { .. }));
    let (state, _) = expect(transact_get_next(state, Event::Key(Ok(key()))));
    let (state, action) = expect(transact_get_next(state, found(Some(stored("1")))));
    assert_eq!(action, Action::KeyOf { op: 1, item: item("1"), key_schema: base() });
    let (state, _) = expect(transact_get_next(state, Event::Key(Ok(key()))));
    let (state, action) = expect(transact_get_next(state, found(None)));
    assert_eq!(action, Action::Run(Command::CommitTransaction));
    assert_eq!(
        transact_get_next(state, done()),
        Step::Done(Ok(vec![Some(item("1")), None]))
    );
}

#[test]
fn invalid_reads_cancel_before_anything_is_read() {
    let op = |valid: Result<(), String>| ReadOp {
        table_id: "t".to_string(),
        key_schema: base(),
        key: item("1"),
        valid,
    };
    assert_eq!(
        transact_get_start(vec![op(Ok(())), op(Err("bad key".to_string()))]),
        Step::Done(Err(StorageError::TransactionCanceled(vec![
            CancellationReason::NoReason,
            CancellationReason::ValidationError("bad key".to_string()),
        ])))
    );
}

#[test]
fn writes_of_a_transaction_are_committed() {
    let (state, action) =
        expect(transact_write_start(vec![write_op(WriteKind::Put, false, Ok(()))], None, 7));
    assert_eq!(action, Action::Run(Command::StartTransaction { durable: true }));
    let (state, _) = expect(transact_write_next(state, done()));
    let (state, action) = expect(transact_write_next(state, Event::Key(Ok(key()))));
    assert!(matches!(action, Action::Run(Command::FindOne { .. })));
    let (state, action) = expect(transact_write_next(state, found(None)));
    assert_eq!(
        action,
        Action::Run(Command::Replace {
            at: Place::data("_ddb_t"),
            filter: doc(vec![("pk", s("p"))]),
            document: stored("1"),
            upsert: true,
        })
    );
    let (state, action) = expect(transact_write_next(state, Event::Replied(Reply::Matched(0))));
    assert_eq!(action, Action::Run(Command::CommitTransaction));
    assert_eq!(transact_write_next(state, done()), Step::Done(Ok(())));
}

#[test]
fn refused_operation_cancels_the_transaction() {
    let ops = vec![
        write_op(WriteKind::ConditionCheck, true, Ok(())),
        write_op(WriteKind::Delete, false, Ok(())),
        write_op(WriteKind::Put, false, Err("no key".to_string())),
    ];
    let (state, _) = expect(transact_write_start(ops, None, 7));
    let (state, _) = expect(transact_write_next(state, done()));
    let (state, _) = expect(transact_write_next(state, Event::Key(Ok(key()))));
    let (state, action) = expect(transact_write_next(state, found(None)));
    assert_eq!(action, Action::Evaluate { op: 0, item: Item::new() });
    let (state, _) = expect(transact_write_next(state, Event::Evaluated(Ok(false))));
    let (state, action) = expect(transact_write_next(state, Event::Key(Ok(key()))));
    assert!(matches!(action, Action::Run(Command::DeleteOne { .. })));
    let (state, action) = expect(transact_write_next(state, Event::Replied(Reply::Deleted(1))));
    assert_eq!(action, Action::Run(Command::AbortTransaction));
    assert_eq!(
        transact_write_next(state, done()),
        Step::Done(Err(StorageError::TransactionCanceled(vec![
            CancellationReason::ConditionCheckFailed(None),
            CancellationReason::NoReason,
            CancellationReason::ValidationError("no key".to_string()),
        ])))
    );
}

#[test]
fn updates_in_a_transaction_are_applied() {
    let ops = vec![write_op(WriteKind::Update, true, Ok(()))];
    let (state, _) = expect(transact_write_start(ops, None, 7));
    let (state, _) = expect(transact_write_next(state, done()));
    let (state, _) = expect(transact_write_next(state, Event::Key(Ok(key()))));
    let (state, action) = expect(transact_write_next(state, found(Some(stored("0")))));
    assert_eq!(action, Action::Evaluate { op: 0, item: item("0") });
    let (state, action) = expect(transact_write_next(state, Event::Evaluated(Ok(true))));
    assert_eq!(action, Action::Apply { op: 0, item: item("0") });
    let (state, action) = expect(transact_write_next(state, Event::Applied(Ok(item("2")))));
    assert_eq!(action, Action::KeyOf { op: 0, item: item("2"), key_schema: base() });
    let (_, action) = expect(transact_write_next(state, Event::Key(Ok(key()))));
    match action {
        Action::Run(Command::Replace { document, .. }) => assert_eq!(document, stored("2")),
        other => panic!("{other:?}"),
    }
}

#[test]
fn seen_tokens_write_nothing() {
    let token = || Some(Token { token: "tok".to_string(), fingerprint: "f".to_string() });
    let ops = || vec![write_op(WriteKind::Put, false, Ok(()))];
    for (fingerprint, error) in vec![
        ("f", StorageError::IdempotentReplay),
        ("g", StorageError::IdempotentMismatch),
    ] {
        let (state, _) = expect(transact_write_start(ops(), token(), 7));
        let (state, action) = expect(transact_write_next(state, done()));
        assert_eq!(
            action,
            Action::Run(Command::FindOne {
                at: Place::data("idempotency_tokens"),
                filter: doc(vec![("_id", s("tok"))]),
            })
        );
        let seen = doc(vec![("fingerprint", s(fingerprint))]);
        let (state, action) = expect(transact_write_next(state, found(Some(seen))));
        assert_eq!(action, Action::Run(Command::AbortTransaction));
        assert_eq!(transact_write_next(state, done()), Step::Done(Err(error)));
    }
    let (state, _) = expect(transact_write_start(ops(), token(), 7));
    let (state, _) = expect(transact_write_next(state, done()));
    let (_, action) = expect(transact_write_next(state, found(None)));
    assert_eq!(
        action,
        Action::Run(Command::Insert {
            at: Place::data("idempotency_tokens"),
            document: doc(vec![
                ("_id", s("tok")),
                ("fingerprint", s("f")),
                ("created_at", Bson::DateTime(7)),
            ]),
        })
    );
    assert_eq!(
        cleanup_tokens_command(9),
        Command::DeleteMany {
            at: Place::data("idempotency_tokens"),
            filter: doc(vec![("created_at", obj(vec![("$lt", Bson::DateTime(9))]))]),
        }
    );
}

// --- Scripts -----------------------------------------------------------------------

fn drop_collection(name: &str) -> Command {
    Command::DropCollection { at: Place::data(name) }
}

#[test]
fn scripts_stop_at_a_refusal_that_counts() {
    let lines = || vec![
        may(drop_collection("a")),
        must(drop_collection("b")),
        must(drop_collection("c")),
    ];
    let refusal = || Reply::Failed(DbError { code: None, message: "no".to_string() });
    let script = match script_start(lines()) {
        Turn::Perform(script, command) => {
            assert_eq!(command, drop_collection("a"));
            script
        },
        other => panic!("{other:?}"),
    };
    let script = match script_next(script, refusal()) {
        Turn::Perform(script, command) => {
            assert_eq!(command, drop_collection("b"));
            script
        },
        other => panic!("{other:?}"),
    };
    assert_eq!(
        script_next(script, refusal()),
        Turn::Refused(DbError { code: None, message: "no".to_string() })
    );
    assert_eq!(script_start(vec![]), Turn::Finished);
    let (state, _) = expect(lines_start(vec![must(drop_collection("a"))]));
    assert_eq!(lines_next(state, done()), Step::Done(Ok(())));
    let (state, _) = expect(lines_start(vec![must(drop_collection("a"))]));
    assert_eq!(lines_next(state, failed(None, "no")), internal("no"));
}
