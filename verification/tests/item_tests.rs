use extenddb_storage_mongodb::bson::{Bson, Document};
use extenddb_storage_mongodb::data::{
    data_collection_name, document_to_item, index_collection_name, item_to_document,
    numeric_sort_key, pk_filter, sk_field_name, sk_to_text, ItemKey,
};
use extenddb_storage_mongodb::error::StorageError;
use extenddb_storage_mongodb::expression::{
    CompareOp, Expr, ExpressionMaps, KeyCondition, SortKeyCondition,
};
use extenddb_storage_mongodb::item::{AttributeValue, Item};
use extenddb_storage_mongodb::item_json::{decode_item, decode_value, encode_item, encode_value};
use extenddb_storage_mongodb::number::{padded_u64, parse_i64, reads_as_float, u128_text, u64_text};
use extenddb_storage_mongodb::order::text_before;
use extenddb_storage_mongodb::protocol::{Command, Paging, Place};
use extenddb_storage_mongodb::query::{
    hash_in_segment, in_segment, make_page, query_command, query_page, scan_command, scan_page,
    scan_segment, Page, PartitionTexts, QueryRequest, ScanStart,
};
use extenddb_storage_mongodb::schema::{KeySchemaElement, KeyType, ScalarAttributeType, SortKey};
use extenddb_storage_mongodb::sort_key::{
    build_sk_filter, increment_bytes, increment_string, infer_sk_type_from_field, key_text,
    key_values, resolve_key_expr, sk_to_bson, KeyText,
};
use extenddb_storage_mongodb::text::{contains_char, eq_ignore_case};

fn s(text: &str) -> Bson {
    Bson::String(text.to_string())
}

fn av_s(text: &str) -> AttributeValue {
    AttributeValue::S(text.to_string())
}

fn av_n(text: &str) -> AttributeValue {
    AttributeValue::N(text.to_string())
}

fn doc(entries: Vec<(&str, Bson)>) -> Document {
    Document {
        entries: entries
            .into_iter()
            .map(|(k, v)| (k.to_string(), v))
            .collect(),
    }
}

fn obj(entries: Vec<(&str, Bson)>) -> Bson {
    Bson::Document(doc(entries))
}

fn sort_key(kind: ScalarAttributeType) -> Option<SortKey> {
    Some(SortKey { name: "sk".to_string(), kind })
}

fn key(sk: Option<SortKey>) -> ItemKey {
    ItemKey { pk_text: "p".to_string(), sort_key: sk }
}

fn internal(message: &str) -> StorageError {
    StorageError::Internal(message.to_string())
}

fn decimal(text: &str) -> Bson {
    Bson::Decimal128(text.parse::<bson::Decimal128>().unwrap().bytes().to_vec())
}

fn full_item() -> Item {
    Item::new()
        .with("text", av_s("a\u{e9}"))
        .with("number", av_n("-1.50"))
        .with("bytes", AttributeValue::B(vec![0, 1, 254, 255]))
        .with("truth", AttributeValue::Bool(true))
        .with("nothing", AttributeValue::Null)
        .with("list", AttributeValue::L(vec![av_s("x"), AttributeValue::L(vec![])]))
        .with("map", AttributeValue::M(Item::new().with("inner", av_n("1"))))
        .with("texts", AttributeValue::SS(vec!["b".to_string(), "a".to_string()]))
        .with("numbers", AttributeValue::NS(vec!["2".to_string()]))
        .with("blobs", AttributeValue::BS(vec![vec![], vec![9]]))
}

#[test]
fn items_read_back() {
    let item = full_item();
    assert_eq!(decode_item(&encode_item(&item)), Some(full_item()));
    let stored = item_to_document(&item, &key(None)).unwrap();
    assert_eq!(document_to_item(&stored), Ok(full_item()));
}

#[test]
fn values_are_stored_under_their_tags() {
    assert_eq!(encode_value(&av_s("x")), obj(vec![("S", s("x"))]));
    assert_eq!(encode_value(&av_n("1")), obj(vec![("N", s("1"))]));
    assert_eq!(
        encode_value(&AttributeValue::B(vec![1, 2, 3])),
        obj(vec![("B", s("AQID"))])
    );
    assert_eq!(
        encode_value(&AttributeValue::Bool(false)),
        obj(vec![("BOOL", Bson::Boolean(false))])
    );
    assert_eq!(
        encode_value(&AttributeValue::Null),
        obj(vec![("NULL", Bson::Boolean(true))])
    );
    assert_eq!(
        encode_value(&AttributeValue::BS(vec![vec![255]])),
        obj(vec![("BS", Bson::Array(vec![s("/w==")]))])
    );
}

#[test]
fn what_is_no_item_is_refused() {
    assert_eq!(decode_value(&s("x")), None);
    assert_eq!(decode_value(&obj(vec![("X", s("x"))])), None);
    assert_eq!(decode_value(&obj(vec![("B", s("not base64!"))])), None);
    assert_eq!(decode_value(&obj(vec![("S", Bson::Int32(1))])), None);
    assert_eq!(
        document_to_item(&doc(vec![("_id", s("p"))])),
        Err(internal("Document missing item_data field"))
    );
    assert_eq!(
        document_to_item(&doc(vec![("item_data", s("p"))])),
        Err(internal("JSON to Item conversion error: not an item"))
    );
}

#[test]
fn collections_are_named_after_identifiers() {
    assert_eq!(data_collection_name("t-1"), "_ddb_t-1");
    assert_eq!(index_collection_name("i-1"), "_ddb_i-1");
    assert_ne!(data_collection_name("a"), data_collection_name("b"));
}

#[test]
fn documents_hold_their_keys() {
    let item = Item::new().with("sk", av_s("x"));
    let stored = item_to_document(&item, &key(sort_key(ScalarAttributeType::S))).unwrap();
    assert_eq!(stored.get("_id"), Some(&s("p#x")));
    assert_eq!(stored.get("pk"), Some(&s("p")));
    assert_eq!(stored.get("sk_s"), Some(&s("x")));
    assert_eq!(
        pk_filter(&item, &key(sort_key(ScalarAttributeType::S))),
        Ok(doc(vec![("pk", s("p")), ("sk_s", s("x"))]))
    );
    assert_eq!(pk_filter(&item, &key(None)), Ok(doc(vec![("pk", s("p"))])));
    let plain = item_to_document(&item, &key(None)).unwrap();
    assert_eq!(plain.get("_id"), Some(&s("p")));
}

#[test]
fn numeric_sort_keys_are_decimals() {
    let item = Item::new().with("sk", av_n("1.25"));
    let k = key(sort_key(ScalarAttributeType::N));
    let stored = item_to_document(&item, &k).unwrap();
    assert_eq!(stored.get("sk_n"), Some(&decimal("1.25")));
    assert_eq!(stored.get("_id"), Some(&s("p#1.25")));
    assert_eq!(
        pk_filter(&item, &k),
        Ok(doc(vec![("pk", s("p")), ("sk_n", decimal("1.25"))]))
    );
    let bad = Item::new().with("sk", av_n("many"));
    assert_eq!(
        item_to_document(&bad, &k),
        Err(internal("Cannot convert sort key 'many' to numeric BSON type"))
    );
    assert_eq!(numeric_sort_key("1e7", None), Some(Bson::Double("1e7".to_string())));
    assert_eq!(numeric_sort_key("x", None), None);
}

#[test]
fn binary_sort_keys_are_bytes() {
    let item = Item::new().with("sk", AttributeValue::B(vec![1, 2, 3]));
    let stored = item_to_document(&item, &key(sort_key(ScalarAttributeType::B))).unwrap();
    assert_eq!(stored.get("_id"), Some(&s("p#AQID")));
    assert_eq!(stored.get("sk_b"), Some(&Bson::Binary(vec![1, 2, 3])));
}

#[test]
fn missing_and_misplaced_sort_keys_are_refused() {
    let k = key(sort_key(ScalarAttributeType::S));
    assert_eq!(item_to_document(&Item::new(), &k), Err(internal("missing sort key")));
    assert_eq!(pk_filter(&Item::new(), &k), Err(internal("missing sort key in key")));
    assert_eq!(
        sk_to_text(&AttributeValue::Bool(true)),
        Err(internal("sort key must be S, N, or B"))
    );
    assert_eq!(sk_to_text(&AttributeValue::B(vec![255])), Ok("/w==".to_string()));
}

#[test]
fn sort_keys_have_a_field_for_each_type() {
    let of = |k: Option<SortKey>| sk_field_name(k.as_ref());
    assert_eq!(of(None), None);
    assert_eq!(of(sort_key(ScalarAttributeType::S)), Some("sk_s"));
    assert_eq!(of(sort_key(ScalarAttributeType::N)), Some("sk_n"));
    assert_eq!(of(sort_key(ScalarAttributeType::B)), Some("sk_b"));
    assert_eq!(infer_sk_type_from_field("sk_s"), ScalarAttributeType::S);
    assert_eq!(infer_sk_type_from_field("sk_n"), ScalarAttributeType::N);
    assert_eq!(infer_sk_type_from_field("sk_b"), ScalarAttributeType::B);
    assert_eq!(infer_sk_type_from_field("other"), ScalarAttributeType::S);
}

#[test]
fn prefixes_become_ranges() {
    assert_eq!(increment_string("ab"), Some("ac".to_string()));
    assert_eq!(increment_string("a\u{10FFFF}"), Some("b".to_string()));
    assert_eq!(increment_string("a\u{D7FF}"), Some("a\u{E000}".to_string()));
    assert_eq!(increment_string("\u{10FFFF}"), None);
    assert_eq!(increment_string(""), None);
    assert_eq!(increment_bytes(&vec![1, 2]), Some(vec![1, 3]));
    assert_eq!(increment_bytes(&vec![1, 255]), Some(vec![2, 0]));
    assert_eq!(increment_bytes(&vec![255, 255]), None);
    assert_eq!(increment_bytes(&vec![]), None);
    let bound = increment_string("ab").unwrap();
    assert!(text_before("abc", &bound));
    assert!(text_before("ab\u{10FFFF}", &bound));
    assert!(!text_before("ac", &bound));
}

fn maps() -> ExpressionMaps {
    ExpressionMaps::new(
        vec![],
        vec![
            (":a".to_string(), av_s("a")),
            (":b".to_string(), av_s("b")),
            (":n".to_string(), av_n("7")),
            (":x".to_string(), av_n("x")),
            (":y".to_string(), AttributeValue::B(vec![1, 255])),
        ],
    )
}

fn value(name: &str) -> Expr {
    Expr::Placeholder(name.to_string())
}

#[test]
fn sort_key_conditions_become_filters() {
    let m = maps();
    assert_eq!(
        build_sk_filter(
            &SortKeyCondition::Compare { op: CompareOp::Ge, value: value(":a") },
            "sk_s",
            &m
        ),
        Ok(doc(vec![("sk_s", obj(vec![("$gte", s("a"))]))]))
    );
    assert_eq!(
        build_sk_filter(
            &SortKeyCondition::Compare { op: CompareOp::Eq, value: value(":n") },
            "sk_n",
            &m
        ),
        Ok(doc(vec![("sk_n", decimal("7"))]))
    );
    assert_eq!(
        build_sk_filter(
            &SortKeyCondition::Between { low: value(":a"), high: value(":b") },
            "sk_s",
            &m
        ),
        Ok(doc(vec![("sk_s", obj(vec![("$gte", s("a")), ("$lte", s("b"))]))]))
    );
    assert_eq!(
        build_sk_filter(&SortKeyCondition::BeginsWith { prefix: value(":a") }, "sk_s", &m),
        Ok(doc(vec![("sk_s", obj(vec![("$gte", s("a")), ("$lt", s("b"))]))]))
    );
    assert_eq!(
        build_sk_filter(&SortKeyCondition::BeginsWith { prefix: value(":y") }, "sk_b", &m),
        Ok(doc(vec![(
            "sk_b",
            obj(vec![
                ("$gte", Bson::Binary(vec![1, 255])),
                ("$lt", Bson::Binary(vec![2, 0]))
            ])
        )]))
    );
}

#[test]
fn bad_sort_key_conditions_are_refused() {
    let m = maps();
    assert_eq!(
        sk_to_bson(&av_s("a"), ScalarAttributeType::N),
        Err(internal("sort key type mismatch"))
    );
    assert_eq!(
        sk_to_bson(&av_n("x"), ScalarAttributeType::N),
        Err(internal("cannot parse numeric sort key: x"))
    );
    assert_eq!(
        resolve_key_expr(&Expr::Path(vec![]), &m),
        Err(internal("expected placeholder in key condition"))
    );
    assert_eq!(
        resolve_key_expr(&value(":z"), &m),
        Err(StorageError::Validation("undefined attribute value: :z".to_string()))
    );
}

fn request() -> QueryRequest {
    QueryRequest {
        collection_id: "t".to_string(),
        pk_text: "p".to_string(),
        sort_key: sort_key(ScalarAttributeType::S),
        sk_condition: Some(SortKeyCondition::Compare { op: CompareOp::Ge, value: value(":a") }),
        forward: true,
        limit: Some(2),
        start_key: None,
    }
}

#[test]
fn queries_read_one_more_than_asked_for() {
    assert_eq!(
        query_command(&request(), &maps()),
        Ok(Command::Find {
            at: Place::data("_ddb_t"),
            filter: doc(vec![("pk", s("p")), ("sk_s", obj(vec![("$gte", s("a"))]))]),
            paging: Paging {
                sort: Some(doc(vec![("sk_s", Bson::Int32(1))])),
                limit: Some(3),
                simple_collation: true,
                projection: None,
            },
        })
    );
}

#[test]
fn paging_keeps_the_condition() {
    let mut q = request();
    q.start_key = Some(Item::new().with("sk", av_s("m")));
    q.forward = false;
    let filter = match query_command(&q, &maps()) {
        Ok(Command::Find { filter, .. }) => filter,
        other => panic!("{other:?}"),
    };
    assert_eq!(
        filter,
        doc(vec![
            ("pk", s("p")),
            ("sk_s", obj(vec![("$gte", s("a"))])),
            (
                "$and",
                Bson::Array(vec![obj(vec![("sk_s", obj(vec![("$lt", s("m"))]))])])
            ),
        ])
    );
    q.sk_condition = None;
    let plain = match query_command(&q, &maps()) {
        Ok(Command::Find { filter, .. }) => filter,
        other => panic!("{other:?}"),
    };
    assert_eq!(
        plain,
        doc(vec![("pk", s("p")), ("sk_s", obj(vec![("$lt", s("m"))]))])
    );
}

fn by(names: &[&str]) -> Vec<KeySchemaElement> {
    names
        .iter()
        .enumerate()
        .map(|(i, n)| KeySchemaElement {
            attribute_name: n.to_string(),
            key_type: if i == 0 { KeyType::Hash } else { KeyType::Range },
        })
        .collect()
}

fn by_a() -> Vec<KeySchemaElement> {
    by(&["a"])
}

#[test]
fn pages_of_an_index_name_both_keys() {
    let item = |n: &str| {
        Item::new()
            .with("id", av_s(n))
            .with("city", av_s("Oslo"))
            .with("age", av_n(n))
            .with("note", av_s("x"))
    };
    let docs: Vec<Document> = ["1", "2", "3"]
        .iter()
        .map(|n| doc(vec![("item_data", Bson::Document(encode_item(&item(n))))]))
        .collect();
    let page = query_page(&docs, Some(2), &by(&["city", "age"]), &by(&["id"])).unwrap();
    assert_eq!(page.items, vec![item("1"), item("2")]);
    let last = page.last.unwrap();
    assert_eq!(last.get("id"), Some(&av_s("2")));
    assert_eq!(last.get("city"), Some(&av_s("Oslo")));
    assert_eq!(last.get("age"), Some(&av_n("2")));
    assert_eq!(last.get("note"), None);
    let next = QueryRequest {
        collection_id: "i".to_string(),
        pk_text: "Oslo".to_string(),
        sort_key: Some(SortKey { name: "age".to_string(), kind: ScalarAttributeType::N }),
        sk_condition: None,
        forward: true,
        limit: Some(2),
        start_key: Some(last),
    };
    match query_command(&next, &maps()) {
        Ok(Command::Find { filter, .. }) => {
            let past = filter.get_document("sk_n").unwrap();
            assert_eq!(past.get("$gt"), Some(&sk_to_bson(&av_n("2"), ScalarAttributeType::N).unwrap()));
        },
        other => panic!("{other:?}"),
    }
}

fn walk_index(entries: &[(&str, &str)]) -> Vec<String> {
    let docs: Vec<(Item, Document)> = entries
        .iter()
        .map(|(id, city)| {
            let item = Item::new().with("id", av_s(id)).with("kind", av_s("k"));
            let item = item.with("city", av_s(city));
            let d = doc(vec![("item_data", Bson::Document(encode_item(&item)))]);
            (item, d)
        })
        .collect();
    let mut request = QueryRequest {
        collection_id: "i".to_string(),
        pk_text: "k".to_string(),
        sort_key: Some(SortKey { name: "city".to_string(), kind: ScalarAttributeType::S }),
        sk_condition: None,
        forward: true,
        limit: Some(2),
        start_key: None,
    };
    let mut found: Vec<String> = Vec::new();
    loop {
        let bound = match query_command(&request, &maps()) {
            Ok(Command::Find { filter, .. }) => filter
                .get_document("sk_s")
                .and_then(|d| d.get_str("$gt").map(|t| t.to_string())),
            other => panic!("{other:?}"),
        };
        let answer: Vec<Document> = docs
            .iter()
            .filter(|(item, _)| match (&bound, item.get("city")) {
                (Some(b), Some(AttributeValue::S(c))) => c > b,
                _ => true,
            })
            .take(3)
            .map(|(_, d)| d.clone())
            .collect();
        let page = query_page(&answer, Some(2), &by(&["kind", "city"]), &by(&["id"])).unwrap();
        for item in &page.items {
            match item.get("id") {
                Some(AttributeValue::S(id)) => found.push(id.clone()),
                other => panic!("{other:?}"),
            }
        }
        match page.last {
            None => return found,
            Some(key) => request.start_key = Some(key),
        }
    }
}

#[test]
fn walk_through_an_index_visits_each_item_once() {
    let apart = [("1", "a"), ("2", "b"), ("3", "c"), ("4", "d"), ("5", "e")];
    assert_eq!(walk_index(&apart), vec!["1", "2", "3", "4", "5"]);
    let alike = [("1", "a"), ("2", "b"), ("3", "b"), ("4", "c")];
    assert_eq!(walk_index(&alike), vec!["1", "2", "4"]);
}

#[test]
fn parts_of_a_scan_are_a_permutation_of_it() {
    let names: Vec<String> = (0..9).map(|i| format!("user#{i}")).collect();
    let docs: Vec<Document> = (0..9).map(|i| numbered(&format!("{i}"))).collect();
    let keys = || PartitionTexts { texts: names.clone(), failure: None };
    let whole = scan_page(&docs, keys(), None, None, &by_a(), &by_a()).unwrap();
    for total in 1..5 {
        let mut together: Vec<String> = Vec::new();
        for k in 0..total {
            let part = scan_page(&docs, keys(), Some((k, total)), None, &by_a(), &by_a());
            let part = part.unwrap();
            assert_eq!(part.last, None);
            together.extend(part.items.iter().map(|i| format!("{i:?}")));
        }
        together.sort();
        let mut all: Vec<String> = whole.items.iter().map(|i| format!("{i:?}")).collect();
        all.sort();
        assert_eq!(together, all);
    }
}

#[test]
fn pages_of_an_index_scan_name_both_keys() {
    let item = |n: &str| {
        Item::new().with("id", av_s(n)).with("city", av_s("Oslo")).with("note", av_s("x"))
    };
    let docs: Vec<Document> = ["1", "2"]
        .iter()
        .map(|n| doc(vec![("item_data", Bson::Document(encode_item(&item(n))))]))
        .collect();
    let keys = PartitionTexts { texts: vec![], failure: None };
    let page = scan_page(&docs, keys, None, Some(1), &by(&["city"]), &by(&["id"])).unwrap();
    assert_eq!(
        page.last,
        Some(Item::new().with("id", av_s("1")).with("city", av_s("Oslo")))
    );
}

#[test]
fn parts_of_a_key_are_looked_up_in_order() {
    let condition = |parts: Vec<&str>| KeyCondition {
        pk_value: value(parts[0]),
        extra_pk_conditions: parts[1..]
            .iter()
            .map(|p| ("x".to_string(), value(p)))
            .collect(),
        sk_condition: None,
    };
    let maps = maps();
    let one = key_values(&condition(vec![":a"]), &maps);
    assert_eq!(one.values, vec![&av_s("a")]);
    assert!(one.failure.is_none());
    let two = key_values(&condition(vec![":a", ":a"]), &maps);
    assert_eq!(two.values, vec![&av_s("a"), &av_s("a")]);
    let broken = key_values(&condition(vec![":a", ":none", ":a"]), &maps);
    assert_eq!(broken.values, vec![&av_s("a")]);
    assert!(broken.failure.is_some());
    let texts = |n: usize| vec!["t".to_string(); n];
    assert_eq!(key_text(texts(1)), KeyText::Alone("t".to_string()));
    assert_eq!(key_text(texts(2)), KeyText::Joined(texts(2)));
}

#[test]
fn pages_of_a_segment_go_on_until_all_is_read() {
    let names: Vec<String> = (0..12).map(|i| format!("user#{i}")).collect();
    let docs: Vec<Document> = (0..12).map(|i| numbered(&format!("{i}"))).collect();
    for k in 0..3 {
        let mut found: Vec<Item> = Vec::new();
        let mut from: usize = 0;
        loop {
            let to = std::cmp::min(from + 6, 12);
            let keys = PartitionTexts { texts: names[from..to].to_vec(), failure: None };
            let read = docs[from..to].to_vec();
            let page = scan_page(&read, keys, Some((k, 3)), Some(1), &by_a(), &by_a()).unwrap();
            assert!(page.items.len() <= 1);
            found.extend(page.items);
            match page.last {
                None => {
                    assert!(to - from < 6);
                    break;
                },
                Some(last) => {
                    let at = (0..12)
                        .position(|i| Item::new().with("a", av_n(&format!("{i}"))) == last);
                    from = at.unwrap() + 1;
                },
            }
        }
        let expected: Vec<Item> = (0..12)
            .filter(|i| i64::from(crc32fast::hash(names[*i].as_bytes()) % 3) == k)
            .map(|i| Item::new().with("a", av_n(&format!("{i}"))))
            .collect();
        assert_eq!(found, expected);
    }
}

#[test]
fn pages_are_cut_to_the_limit() {
    let items = || vec![
        Item::new().with("a", av_n("1")),
        Item::new().with("a", av_n("2")),
        Item::new().with("a", av_n("3")),
    ];
    let page = make_page(items(), Some(2), &by_a(), &by_a());
    assert_eq!(page.items.len(), 2);
    assert_eq!(page.last, Some(Item::new().with("a", av_n("2"))));
    assert_eq!(make_page(items(), Some(3), &by_a(), &by_a()), Page { items: items(), last: None });
    assert_eq!(make_page(items(), None, &by_a(), &by_a()), Page { items: items(), last: None });
    assert_eq!(make_page(items(), Some(0), &by_a(), &by_a()), Page { items: vec![], last: None });
    let docs: Vec<Document> = items()
        .iter()
        .map(|i| doc(vec![("item_data", Bson::Document(encode_item(i)))]))
        .collect();
    assert_eq!(query_page(&docs, Some(2), &by_a(), &by_a()), Ok(make_page(items(), Some(2), &by_a(), &by_a())));
    assert_eq!(
        query_page(&vec![doc(vec![])], None, &by_a(), &by_a()),
        Err(internal("Document missing item_data field"))
    );
}

#[test]
fn scans_collect_until_enough() {
    let docs = || vec![numbered("1"), numbered("2"), doc(vec![])];
    let no_keys = || PartitionTexts { texts: vec![], failure: None };
    let page = scan_page(&docs(), no_keys(), None, Some(1), &by_a(), &by_a()).unwrap();
    assert_eq!(page.items, vec![Item::new().with("a", av_n("1"))]);
    assert_eq!(page.last, Some(Item::new().with("a", av_n("1"))));
    assert_eq!(
        scan_page(&docs(), no_keys(), None, Some(2), &by_a(), &by_a()),
        Err(internal("Document missing item_data field"))
    );
    assert_eq!(
        scan_page(&vec![numbered("1")], no_keys(), None, Some(1), &by_a(), &by_a()),
        Ok(Page { items: vec![Item::new().with("a", av_n("1"))], last: None })
    );
}

fn numbered(n: &str) -> Document {
    let item = Item::new().with("a", av_n(n));
    doc(vec![("item_data", Bson::Document(encode_item(&item)))])
}

#[test]
fn scan_of_a_segment_keeps_to_it() {
    let names: Vec<String> = (0..12).map(|i| format!("user#{i}")).collect();
    let docs: Vec<Document> = (0..12).map(|i| numbered(&format!("{i}"))).collect();
    let mut seen = 0;
    for k in 0..3 {
        let keys = PartitionTexts { texts: names.clone(), failure: None };
        let page = scan_page(&docs, keys, Some((k, 3)), None, &by_a(), &by_a()).unwrap();
        let expected: Vec<Item> = (0..12)
            .filter(|i| i64::from(crc32fast::hash(names[*i].as_bytes()) % 3) == k)
            .map(|i| Item::new().with("a", av_n(&format!("{i}"))))
            .collect();
        seen += page.items.len();
        assert_eq!(page.items, expected);
        assert_eq!(page.last, None);
    }
    assert_eq!(seen, 12);
    let failing = || PartitionTexts {
        texts: names[..2].to_vec(),
        failure: Some(internal("no key")),
    };
    assert_eq!(scan_page(&docs, failing(), Some((0, 1)), None, &by_a(), &by_a()), Err(internal("no key")));
    assert_eq!(scan_page(&docs, failing(), Some((0, 1)), Some(1), &by_a(), &by_a()).unwrap().items.len(), 1);
}

#[test]
fn scans_start_behind_a_key() {
    let start = Some(ScanStart {
        item: Item::new().with("sk", av_s("x")),
        pk_text: "p".to_string(),
    });
    let filter = match scan_command("t", &start, &sort_key(ScalarAttributeType::S), Some(5), None) {
        Ok(Command::Find { filter, paging, .. }) => {
            assert_eq!(paging.limit, Some(6));
            filter
        },
        other => panic!("{other:?}"),
    };
    assert_eq!(filter, doc(vec![("_id", obj(vec![("$gt", s("p#x"))]))]));
    assert_eq!(
        scan_command(
            "t",
            &Some(ScanStart {
                item: Item::new().with("sk", AttributeValue::Null),
                pk_text: "p".to_string()
            }),
            &sort_key(ScalarAttributeType::S),
            None,
            None
        ),
        Err(internal("invalid sk type"))
    );
}

#[test]
fn segments_share_out_the_keys() {
    assert_eq!(scan_segment(Some(1), Some(4)), Some((1, 4)));
    assert_eq!(scan_segment(None, Some(4)), None);
    assert_eq!(scan_segment(Some(1), None), None);
    for key in vec!["", "a", "user#1", "user#2"] {
        let homes: Vec<i64> = (0..4).filter(|i| in_segment(key, *i, 4)).collect();
        assert_eq!(homes.len(), 1);
        assert_eq!(homes[0], i64::from(crc32fast::hash(key.as_bytes()) % 4));
    }
    assert!(hash_in_segment(7, 3, 4));
    assert!(!hash_in_segment(7, 2, 4));
}

#[test]
fn numbers_are_written_and_read() {
    assert_eq!(u64_text(0), "0");
    assert_eq!(u64_text(u64::MAX), "18446744073709551615");
    assert_eq!(u128_text(u128::MAX), "340282366920938463463374607431768211455");
    assert_eq!(padded_u64(42, 5), "00042");
    assert_eq!(padded_u64(123456, 3), "123456");
    assert_eq!(parse_i64("+7"), Some(7));
    assert_eq!(parse_i64("-0"), Some(0));
    assert_eq!(parse_i64("9223372036854775808"), None);
    assert_eq!(parse_i64(""), None);
    for text in vec!["1", "-1.5", ".5", "5.", "1e9", "1E-9", "inf", "-Infinity", "NaN", "+1"] {
        assert!(reads_as_float(text) && text.parse::<f64>().is_ok(), "{text}");
    }
    for text in vec!["", ".", "e5", "1e", "1 ", "0x1", "1_0", "--1", "infin"] {
        assert!(!reads_as_float(text) && text.parse::<f64>().is_err(), "{text}");
    }
}

#[test]
fn texts_are_searched_and_folded() {
    assert!(contains_char("a$b", '$'));
    assert!(!contains_char("ab", '$'));
    assert!(eq_ignore_case("SiZe", "size"));
    assert!(!eq_ignore_case("sizes", "size"));
}

#[test]
fn documents_keep_the_place_of_a_field() {
    let mut d = Document::new().with("a", Bson::Int32(1)).with("b", Bson::Int32(2));
    d.insert("a", Bson::Int32(3));
    assert_eq!(d, doc(vec![("a", Bson::Int32(3)), ("b", Bson::Int32(2))]));
    assert_eq!(d.get_i32("a"), Some(3));
    assert_eq!(d.get_i64("a"), None);
    assert_eq!(d.get_str("a"), None);
    assert_eq!(d.str_or("a", "x"), "x");
    assert!(!d.is_empty() && Document::new().is_empty());
}

#[test]
fn items_are_ordered_by_name() {
    let item = Item::new().with("b", av_n("1")).with("a", av_n("2")).with("b", av_n("3"));
    assert_eq!(item.len(), 2);
    assert_eq!(item.key_at(0), "a");
    assert_eq!(item.value_at(1), &av_n("3"));
    assert!(item.contains_key("a") && !item.contains_key("c"));
}
