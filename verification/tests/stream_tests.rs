use extenddb_storage_mongodb::bson::{Bson, Document};
use extenddb_storage_mongodb::error::StorageError;
use extenddb_storage_mongodb::item::{AttributeValue, Item};
use extenddb_storage_mongodb::order::text_before;
use extenddb_storage_mongodb::protocol::{Action, Command, Event, Paging, Place, Reply, Step};
use extenddb_storage_mongodb::schema::{KeySchemaElement, KeyType};
use extenddb_storage_mongodb::schema_json::{schema_to_bson, StreamViewType};
use extenddb_storage_mongodb::sequence::{format_sequence, format_shard_id, SHARDS_PER_STREAM};
use extenddb_storage_mongodb::stream::{
    assign_shard_next, assign_shard_start, capture_next, capture_start, cleanup_records_command,
    create_shard, draw_sequence, drawn_sequence, get_records_command, latest_record_command,
    latest_sequence, pick_shard, records_page, stream_event, write_record_next,
    write_record_start, Capture, CaptureState,
};
use extenddb_storage_mongodb::stream_admin::{
    describe_stream_next, describe_stream_start, list_streams_command, read_streams,
    validate_shard_next, validate_shard_start, DescribeStream, StreamStart, StreamStatus,
};
use extenddb_storage_mongodb::stream_record::{
    event_label_text, read_record, record_to_bson, StreamEventName, StreamRecord, UserIdentity,
};

fn s(text: &str) -> Bson {
    Bson::String(text.to_string())
}

fn doc(entries: Vec<(&str, Bson)>) -> Document {
    Document {
        entries: entries
            .into_iter()
            .map(|(k, v)| (k.to_string(), v))
            .collect(),
    }
}

fn obj(entries: Vec<(&str, Bson)>) -> Bson {
    Bson::Document(doc(entries))
}

fn internal<S, T>(message: &str) -> Step<S, T> {
    Step::Done(Err(StorageError::Internal(message.to_string())))
}

fn expect<S: std::fmt::Debug, T: std::fmt::Debug>(step: Step<S, T>) -> (S, Action) {
    match step {
        Step::Do(state, action) => (state, action),
        Step::Done(r) => panic!("finished with {r:?}"),
    }
}

fn found(d: Option<Document>) -> Event {
    Event::Replied(Reply::One(d))
}

fn many(docs: Vec<Document>) -> Event {
    Event::Replied(Reply::Many(docs))
}

fn item(n: &str) -> Item {
    Item::new()
        .with("pk", AttributeValue::S("user#1".to_string()))
        .with("n", AttributeValue::N(n.to_string()))
}

fn keys() -> Item {
    Item::new().with("pk", AttributeValue::S("user#1".to_string()))
}

fn schema() -> Vec<KeySchemaElement> {
    vec![KeySchemaElement { attribute_name: "pk".to_string(), key_type: KeyType::Hash }]
}

fn capture(view_type: StreamViewType) -> Capture {
    Capture {
        view_type,
        region: "eu".to_string(),
        user_identity: Some(UserIdentity {
            principal_id: "dynamodb.amazonaws.com".to_string(),
            identity_type: "Service".to_string(),
        }),
        event_id: "e-1".to_string(),
        size: 17,
        now_seconds: 1_700_000_000,
        now_millis: 1_700_000_000_123,
    }
}

fn begin(view_type: StreamViewType, old: Option<Item>, new: Option<Item>) -> CaptureState {
    expect(capture_start("acc", "tab", &schema(), capture(view_type), old, new)).0
}

fn shards(n: usize) -> Vec<Document> {
    (0..n).map(|i| doc(vec![("shard_id", s(&format!("shard-{i}")))])).collect()
}

fn stored_record(view_type: StreamViewType, old: Option<Item>, new: Option<Item>) -> StreamRecord {
    let state = begin(view_type, old, new);
    let (state, _) = expect(capture_next(state, found(Some(doc(vec![("table_id", s("t"))])))));
    let (state, _) = expect(capture_next(state, many(shards(1))));
    let (state, _) =
        expect(capture_next(state, found(Some(doc(vec![("value", Bson::Int64(42))])))));
    let (_, action) = expect(capture_next(state, found(Some(doc(vec![("table_id", s("t"))])))));
    match action {
        Action::Run(Command::Insert { document, .. }) => {
            let mut page = records_page(&vec![document]).unwrap();
            page.records.remove(0)
        },
        other => panic!("{other:?}"),
    }
}

#[test]
fn sequence_numbers_sort_as_texts() {
    assert_eq!(format_sequence(0), "000000000000000000000");
    assert_eq!(format_sequence(42), "000000000000000000042");
    assert_eq!(format_sequence(i64::MAX), "009223372036854775807");
    assert!(text_before(&format_sequence(9), &format_sequence(10)));
    assert!(text_before(&format_sequence(99), &format_sequence(1000)));
    assert_eq!(format_shard_id("tab", 3), "shardId-tab-000000000003");
    assert_eq!(SHARDS_PER_STREAM, 4);
}

#[test]
fn shards_are_created_with_their_start() {
    assert_eq!(
        create_shard("tab", "t", 2, 5),
        Command::Insert {
            at: Place::data("stream_shards"),
            document: doc(vec![
                ("shard_id", s("shardId-tab-000000000002")),
                ("table_id", s("t")),
                ("starting_sequence_number", s("000000000000000000000")),
                ("created_at", Bson::DateTime(5)),
            ]),
        }
    );
}

#[test]
fn changes_are_told_apart() {
    let i = || Some(item("1"));
    assert_eq!(stream_event(&None, &i()), Some(StreamEventName::Insert));
    assert_eq!(stream_event(&i(), &i()), Some(StreamEventName::Modify));
    assert_eq!(stream_event(&i(), &None), Some(StreamEventName::Remove));
    assert_eq!(stream_event(&None, &None), None);
    assert_eq!(event_label_text(StreamEventName::Insert), "Insert");
    assert_eq!(event_label_text(StreamEventName::Modify), "Modify");
    assert_eq!(event_label_text(StreamEventName::Remove), "Remove");
    assert_eq!(
        capture_start(
            "acc",
            "tab",
            &schema(),
            capture(StreamViewType::NewImage),
            None,
            None
        ),
        Step::Done(Ok(()))
    );
}

#[test]
fn shard_of_a_key_is_fixed() {
    let state = begin(StreamViewType::KeysOnly, None, Some(item("1")));
    let (state, action) =
        expect(capture_next(state, found(Some(doc(vec![("table_id", s("t"))])))));
    match action {
        Action::Run(Command::Find { at, filter, .. }) => {
            assert_eq!(at, Place::data("stream_shards"));
            assert_eq!(filter, doc(vec![("table_id", s("t"))]));
        },
        other => panic!("{other:?}"),
    }
    let (state, action) = expect(capture_next(state, many(shards(4))));
    assert_eq!(action, Action::Run(draw_sequence()));
    let place = crc32fast::hash(b"user#1") % 4;
    match &state {
        CaptureState::Numbering(_, shard) => assert_eq!(shard, &format!("shard-{place}")),
        other => panic!("{other:?}"),
    }
    assert_eq!(pick_shard(7, 4), 3);
}

#[test]
fn records_are_stored_with_their_number() {
    let r = stored_record(StreamViewType::NewAndOldImages, Some(item("1")), Some(item("2")));
    assert_eq!(r.sequence_number, "000000000000000000042");
    assert_eq!(r.event_name, StreamEventName::Modify);
    assert_eq!(r.event_version, "1.1");
    assert_eq!(r.event_source, "aws:dynamodb");
    assert_eq!(r.aws_region, "eu");
    assert_eq!(r.created, 1_700_000_000);
    assert_eq!(r.keys, keys());
    assert_eq!(r.new_image, Some(item("2")));
    assert_eq!(r.old_image, Some(item("1")));
    assert_eq!(r.size_bytes, 17);
}

#[test]
fn view_types_choose_the_images() {
    let of = |v: StreamViewType| stored_record(v, Some(item("1")), Some(item("2")));
    let r = of(StreamViewType::KeysOnly);
    assert_eq!((r.old_image, r.new_image), (None, None));
    let r = of(StreamViewType::NewImage);
    assert_eq!((r.old_image, r.new_image), (None, Some(item("2"))));
    let r = of(StreamViewType::OldImage);
    assert_eq!((r.old_image, r.new_image), (Some(item("1")), None));
}

#[test]
fn records_read_back() {
    let r = || stored_record(StreamViewType::NewAndOldImages, Some(item("1")), Some(item("2")));
    assert_eq!(read_record(&record_to_bson(&r())), Some(r()));
    assert_eq!(read_record(&s("x")), None);
    assert_eq!(
        records_page(&vec![doc(vec![])]),
        Err(StorageError::Internal("Missing record_data".to_string()))
    );
    assert_eq!(
        records_page(&vec![doc(vec![("record_data", s("x"))])]),
        Err(StorageError::Internal("record_data is not a stream record".to_string()))
    );
}

#[test]
fn records_of_missing_tables_are_refused() {
    assert_eq!(
        capture_next(begin(StreamViewType::NewImage, None, Some(item("1"))), found(None)),
        internal("Table tab not found")
    );
    let state = begin(StreamViewType::NewImage, None, Some(item("1")));
    let (state, _) = expect(capture_next(state, found(Some(doc(vec![("table_id", s("t"))])))));
    assert_eq!(capture_next(state, many(vec![])), internal("No stream shards for table tab"));
}

#[test]
fn shard_is_assigned_by_the_partition_key() {
    let begin = || expect(assign_shard_start("acc", "tab", "user#1")).0;
    let (state, action) =
        expect(assign_shard_next(begin(), found(Some(doc(vec![("table_id", s("t"))])))));
    assert!(matches!(action, Action::Run(Command::Find { .. })));
    let place = crc32fast::hash(b"user#1") % 4;
    assert_eq!(
        assign_shard_next(state, many(shards(4))),
        Step::Done(Ok(format!("shard-{place}")))
    );
    assert_eq!(assign_shard_next(begin(), found(None)), internal("Table tab not found"));
    let (state, _) = expect(assign_shard_next(begin(), found(Some(doc(vec![])))));
    assert_eq!(
        assign_shard_next(state, many(vec![])),
        internal("No stream shards for table tab")
    );
}

#[test]
fn drawn_numbers_are_read() {
    let drawn = |d: Option<Document>| drawn_sequence(&Reply::One(d));
    assert_eq!(
        drawn(Some(doc(vec![("value", Bson::Int64(42))]))),
        Ok("000000000000000000042".to_string())
    );
    assert_eq!(
        drawn(None),
        Err(StorageError::Internal("Failed to generate sequence number".to_string()))
    );
}

#[test]
fn single_records_are_stored() {
    let r = || stored_record(StreamViewType::NewImage, None, Some(item("1")));
    let (state, _) = expect(write_record_start("acc", "tab", r(), "sh", 9));
    let (state, action) =
        expect(write_record_next(state, found(Some(doc(vec![("table_id", s("t"))])))));
    assert_eq!(
        action,
        Action::Run(Command::Insert {
            at: Place::data("stream_records"),
            document: doc(vec![
                ("sequence_number", s("000000000000000000042")),
                ("shard_id", s("sh")),
                ("table_id", s("t")),
                ("event_name", s("Insert")),
                ("record_data", record_to_bson(&r())),
                ("created_at", Bson::DateTime(9)),
            ]),
        })
    );
    assert_eq!(write_record_next(state, Event::Replied(Reply::Done)), Step::Done(Ok(())));
    let (state, _) = expect(write_record_start("acc", "tab", r(), "sh", 9));
    assert_eq!(
        write_record_next(state, found(None)),
        internal("Table tab not found in catalog")
    );
}

#[test]
fn records_are_read_in_order() {
    assert_eq!(
        get_records_command("sh", Some("0001"), 10),
        Command::Find {
            at: Place::data("stream_records"),
            filter: doc(vec![
                ("shard_id", s("sh")),
                ("sequence_number", obj(vec![("$gt", s("0001"))])),
            ]),
            paging: Paging::page(doc(vec![("sequence_number", Bson::Int32(1))]), 10),
        }
    );
    assert_eq!(
        latest_record_command("sh"),
        Command::Find {
            at: Place::data("stream_records"),
            filter: doc(vec![("shard_id", s("sh"))]),
            paging: Paging::page(doc(vec![("sequence_number", Bson::Int32(-1))]), 1),
        }
    );
    assert_eq!(latest_sequence(&vec![doc(vec![("sequence_number", s("7"))])]), Some("7".to_string()));
    assert_eq!(latest_sequence(&vec![]), None);
    assert_eq!(
        cleanup_records_command(100_000, 24),
        Command::DeleteMany {
            at: Place::data("stream_records"),
            filter: doc(vec![("created_at", obj(vec![("$lt", Bson::DateTime(13_600_000))]))]),
        }
    );
}

fn describe(limit: i64) -> DescribeStream {
    DescribeStream {
        stream_arn: "arn".to_string(),
        account_id: "acc".to_string(),
        table_name: "tab".to_string(),
        stream_label: "label".to_string(),
        limit: Some(limit),
        start_shard: None,
    }
}

fn stream_table(status: &str) -> Document {
    doc(vec![
        ("table_id", s("t")),
        ("table_status", s(status)),
        ("key_schema", schema_to_bson(&schema())),
        ("stream_specification", obj(vec![("StreamViewType", s("OLD_IMAGE"))])),
    ])
}

fn full_shard(i: usize) -> Document {
    doc(vec![
        ("shard_id", s(&format!("s{i}"))),
        ("starting_sequence_number", s("0")),
    ])
}

#[test]
fn streams_are_described_page_by_page() {
    let (state, action) = expect(describe_stream_start(describe(2)));
    match action {
        Action::Run(Command::FindOne { at, filter }) => {
            assert_eq!(at, Place::catalog("tables"));
            assert_eq!(filter.get("stream_label"), Some(&s("label")));
        },
        other => panic!("{other:?}"),
    }
    let (state, action) =
        expect(describe_stream_next(state, found(Some(stream_table("DELETING")))));
    match action {
        Action::Run(Command::Find { paging, .. }) => assert_eq!(paging.limit, Some(3)),
        other => panic!("{other:?}"),
    }
    let docs = vec![full_shard(1), full_shard(2), full_shard(3)];
    match describe_stream_next(state, many(docs)) {
        Step::Done(Ok(d)) => {
            assert_eq!(d.status, StreamStatus::Disabling);
            assert_eq!(d.view_type, StreamViewType::OldImage);
            assert_eq!(d.key_schema, schema());
            assert_eq!(d.shards.len(), 2);
            assert_eq!(d.shards[1].shard_id, "s2");
            assert_eq!(d.last_shard, Some("s2".to_string()));
        },
        other => panic!("{other:?}"),
    }
}

#[test]
fn streams_are_described_with_a_hundred_shards_at_most() {
    let (state, _) =
        expect(describe_stream_start(DescribeStream { limit: None, ..describe(2) }));
    let (_, action) = expect(describe_stream_next(state, found(Some(stream_table("ACTIVE")))));
    match action {
        Action::Run(Command::Find { paging, .. }) => assert_eq!(paging.limit, Some(101)),
        other => panic!("{other:?}"),
    }
}

#[test]
fn streams_that_do_not_exist_are_not_found() {
    let missing = || StorageError::TableNotFound(
        "Requested resource not found: Stream: arn not found.".to_string(),
    );
    let (state, _) = expect(describe_stream_start(describe(2)));
    assert_eq!(describe_stream_next(state, found(None)), Step::Done(Err(missing())));
    let (state, _) = expect(describe_stream_start(describe(2)));
    assert_eq!(
        describe_stream_next(state, found(Some(doc(vec![("table_id", s("t"))])))),
        internal("Missing key_schema")
    );
    let start = || expect(validate_shard_start("acc", "arn", "tab", "label", "s1")).0;
    assert_eq!(validate_shard_next(start(), found(None)), Step::Done(Err(missing())));
    let (state, action) =
        expect(validate_shard_next(start(), found(Some(stream_table("ACTIVE")))));
    assert_eq!(
        action,
        Action::Run(Command::FindOne {
            at: Place::data("stream_shards"),
            filter: doc(vec![("shard_id", s("s1")), ("table_id", s("t"))]),
        })
    );
    assert_eq!(validate_shard_next(state, found(Some(full_shard(1)))), Step::Done(Ok(())));
}

#[test]
fn streams_are_listed_behind_a_start() {
    let start = Some(StreamStart { table_name: "b".to_string(), label: "l".to_string() });
    match list_streams_command("acc", None, &start, 5) {
        Command::Find { filter, paging, .. } => {
            assert_eq!(paging.limit, Some(6));
            assert_eq!(
                filter.get("$or"),
                Some(&Bson::Array(vec![
                    obj(vec![("_id.table_name", obj(vec![("$gt", s("b"))]))]),
                    obj(vec![
                        ("_id.table_name", s("b")),
                        ("stream_label", obj(vec![("$gt", s("l"))])),
                    ]),
                ]))
            );
        },
        other => panic!("{other:?}"),
    }
    let entry = |t: &str| doc(vec![
        ("_id", obj(vec![("account_id", s("acc")), ("table_name", s(t))])),
        ("stream_label", s("l")),
    ]);
    let list = read_streams(&vec![entry("a"), doc(vec![]), entry("c")], 2);
    assert_eq!(list.streams, vec![("a".to_string(), "l".to_string())]);
    assert!(list.more);
    assert!(!read_streams(&vec![entry("a")], 1).more);
    let list = read_streams(&vec![entry("a")], -2);
    assert_eq!(list.streams, vec![("a".to_string(), "l".to_string())]);
}
