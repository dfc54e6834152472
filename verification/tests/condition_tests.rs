use extenddb_storage_mongodb::bson::{Bson, Document};
use extenddb_storage_mongodb::condition::{
    av_type_suffix, build_field_comparison, condition_to_filter, regex_escape, reverse_op,
};
use extenddb_storage_mongodb::error::StorageError;
use extenddb_storage_mongodb::expression::{CompareOp, Expr, ExpressionMaps, PathElement};
use extenddb_storage_mongodb::item::{AttributeValue, Item};

fn make_maps(names: Vec<(&str, &str)>, values: Vec<(&str, AttributeValue)>) -> ExpressionMaps {
    ExpressionMaps::new(
        names
            .into_iter()
            .map(|(k, v)| (k.to_string(), v.to_string()))
            .collect(),
        values
            .into_iter()
            .map(|(k, v)| (k.to_string(), v))
            .collect(),
    )
}

fn path(name: &str) -> Expr {
    Expr::Path(vec![PathElement::Attribute(name.to_string())])
}

fn value(name: &str) -> Expr {
    Expr::Placeholder(name.to_string())
}

fn compare(left: Expr, op: CompareOp, right: Expr) -> Expr {
    Expr::Compare {
        left: Box::new(left),
        op,
        right: Box::new(right),
    }
}

fn call(name: &str, args: Vec<Expr>) -> Expr {
    Expr::Function {
        name: name.to_string(),
        args,
    }
}

fn s(text: &str) -> Bson {
    Bson::String(text.to_string())
}

fn av_s(text: &str) -> AttributeValue {
    AttributeValue::S(text.to_string())
}

fn av_n(text: &str) -> AttributeValue {
    AttributeValue::N(text.to_string())
}

fn doc(entries: Vec<(&str, Bson)>) -> Document {
    Document {
        entries: entries
            .into_iter()
            .map(|(k, v)| (k.to_string(), v))
            .collect(),
    }
}

fn obj(entries: Vec<(&str, Bson)>) -> Bson {
    Bson::Document(doc(entries))
}

fn refusal(message: &str) -> Result<Document, StorageError> {
    Err(StorageError::Validation(message.to_string()))
}

#[test]
fn contains_tests_for_the_value_in_sets_and_lists() {
    let expr = call("contains", vec![path("foo"), value(":v")]);
    let filter = |v: AttributeValue| {
        condition_to_filter(&expr, &make_maps(vec![], vec![(":v", v)])).unwrap()
    };
    let in_list = |stored: Bson| {
        doc(vec![(
            "item_data.foo.L",
            obj(vec![("$elemMatch", obj(vec![("$eq", stored)]))]),
        )])
    };
    let in_set = |field: &str, member: &str| {
        doc(vec![(field, obj(vec![("$in", Bson::Array(vec![s(member)]))]))])
    };
    assert_eq!(
        filter(av_n("1")),
        doc(vec![(
            "$or",
            Bson::Array(vec![
                Bson::Document(in_set("item_data.foo.NS", "1")),
                Bson::Document(in_list(obj(vec![("N", s("1"))]))),
            ])
        )])
    );
    assert_ne!(filter(av_n("1")), filter(av_n("2")));
    assert_eq!(
        filter(AttributeValue::B(vec![255])),
        doc(vec![(
            "$or",
            Bson::Array(vec![
                Bson::Document(in_set("item_data.foo.BS", "/w==")),
                Bson::Document(in_list(obj(vec![("B", s("/w=="))]))),
            ])
        )])
    );
    assert_eq!(
        filter(AttributeValue::Bool(true)),
        in_list(obj(vec![("BOOL", Bson::Boolean(true))]))
    );
    assert_ne!(filter(AttributeValue::Bool(true)), filter(AttributeValue::Bool(false)));
}

#[test]
fn empty_lists_hold_no_value() {
    let maps = make_maps(vec![], vec![(":v", av_n("1"))]);
    let never = doc(vec![("$nor", Bson::Array(vec![obj(vec![])]))]);
    let empty = |operand: Expr| Expr::In { operand: Box::new(operand), list: vec![] };
    assert_eq!(condition_to_filter(&empty(path("foo")), &maps), Ok(never));
    assert_eq!(
        condition_to_filter(&empty(value(":v")), &maps),
        Ok(doc(vec![("$or", Bson::Array(vec![]))]))
    );
}

#[test]
fn test_attribute_exists() {
    let maps = make_maps(vec![], vec![]);
    let expr = Expr::Function {
        name: "attribute_exists".to_string(),
        args: vec![Expr::Path(vec![PathElement::Attribute("foo".to_string())])],
    };
    let filter = condition_to_filter(&expr, &maps).unwrap();
    assert_eq!(
        filter,
        doc(vec![("item_data.foo", obj(vec![("$exists", Bson::Boolean(true))]))])
    );
}

#[test]
fn test_attribute_not_exists() {
    let maps = make_maps(vec![], vec![]);
    let expr = Expr::Function {
        name: "attribute_not_exists".to_string(),
        args: vec![Expr::Path(vec![PathElement::Attribute("bar".to_string())])],
    };
    let filter = condition_to_filter(&expr, &maps).unwrap();
    assert_eq!(
        filter,
        doc(vec![("item_data.bar", obj(vec![("$exists", Bson::Boolean(false))]))])
    );
}

#[test]
fn test_equality_comparison_string() {
    let maps = make_maps(
        vec![],
        vec![(":val", AttributeValue::S("hello".to_string()))],
    );
    let expr = Expr::Compare {
        left: Box::new(Expr::Path(vec![PathElement::Attribute("name".to_string())])),
        op: CompareOp::Eq,
        right: Box::new(Expr::Placeholder(":val".to_string())),
    };
    let filter = condition_to_filter(&expr, &maps).unwrap();
    assert_eq!(filter, doc(vec![("item_data.name.S", s("hello"))]));
}

#[test]
fn test_less_than_comparison_number() {
    let maps = make_maps(vec![], vec![(":min", AttributeValue::N("100".to_string()))]);
    let expr = Expr::Compare {
        left: Box::new(Expr::Path(vec![PathElement::Attribute(
            "price".to_string(),
        )])),
        op: CompareOp::Lt,
        right: Box::new(Expr::Placeholder(":min".to_string())),
    };
    let filter = condition_to_filter(&expr, &maps).unwrap();
    assert_eq!(
        filter,
        doc(vec![("item_data.price.N", obj(vec![("$lt", Bson::Int64(100_i64))]))])
    );
}

#[test]
fn test_and_condition() {
    let maps = make_maps(
        vec![],
        vec![
            (":v1", AttributeValue::S("active".to_string())),
            (":v2", AttributeValue::N("5".to_string())),
        ],
    );
    let expr = Expr::And(
        Box::new(Expr::Compare {
            left: Box::new(Expr::Path(vec![PathElement::Attribute(
                "status".to_string(),
            )])),
            op: CompareOp::Eq,
            right: Box::new(Expr::Placeholder(":v1".to_string())),
        }),
        Box::new(Expr::Compare {
            left: Box::new(Expr::Path(vec![PathElement::Attribute(
                "count".to_string(),
            )])),
            op: CompareOp::Gt,
            right: Box::new(Expr::Placeholder(":v2".to_string())),
        }),
    );
    let filter = condition_to_filter(&expr, &maps).unwrap();
    let expected = doc(vec![(
        "$and",
        Bson::Array(vec![
            obj(vec![("item_data.status.S", s("active"))]),
            obj(vec![("item_data.count.N", obj(vec![("$gt", Bson::Int64(5_i64))]))]),
        ]),
    )]);
    assert_eq!(filter, expected);
}

#[test]
fn test_or_condition() {
    let maps = make_maps(
        vec![],
        vec![
            (":a", AttributeValue::S("x".to_string())),
            (":b", AttributeValue::S("y".to_string())),
        ],
    );
    let expr = Expr::Or(
        Box::new(Expr::Compare {
            left: Box::new(Expr::Path(vec![PathElement::Attribute("f".to_string())])),
            op: CompareOp::Eq,
            right: Box::new(Expr::Placeholder(":a".to_string())),
        }),
        Box::new(Expr::Compare {
            left: Box::new(Expr::Path(vec![PathElement::Attribute("f".to_string())])),
            op: CompareOp::Eq,
            right: Box::new(Expr::Placeholder(":b".to_string())),
        }),
    );
    let filter = condition_to_filter(&expr, &maps).unwrap();
    let expected = doc(vec![(
        "$or",
        Bson::Array(vec![
            obj(vec![("item_data.f.S", s("x"))]),
            obj(vec![("item_data.f.S", s("y"))]),
        ]),
    )]);
    assert_eq!(filter, expected);
}

#[test]
fn test_not_condition() {
    let maps = make_maps(vec![], vec![]);
    let expr = Expr::Not(Box::new(Expr::Function {
        name: "attribute_exists".to_string(),
        args: vec![Expr::Path(vec![PathElement::Attribute(
            "deleted".to_string(),
        )])],
    }));
    let filter = condition_to_filter(&expr, &maps).unwrap();
    let expected = doc(vec![(
        "$nor",
        Bson::Array(vec![obj(vec![(
            "item_data.deleted",
            obj(vec![("$exists", Bson::Boolean(true))]),
        )])]),
    )]);
    assert_eq!(filter, expected);
}

#[test]
fn test_begins_with() {
    let maps = make_maps(
        vec![],
        vec![(":prefix", AttributeValue::S("user#".to_string()))],
    );
    let expr = Expr::Function {
        name: "begins_with".to_string(),
        args: vec![
            Expr::Path(vec![PathElement::Attribute("sk".to_string())]),
            Expr::Placeholder(":prefix".to_string()),
        ],
    };
    let filter = condition_to_filter(&expr, &maps).unwrap();
    assert_eq!(
        filter,
        doc(vec![("item_data.sk.S", obj(vec![("$regex", s("^user#"))]))])
    );
}

#[test]
fn test_between() {
    let maps = make_maps(
        vec![],
        vec![
            (":lo", AttributeValue::N("10".to_string())),
            (":hi", AttributeValue::N("20".to_string())),
        ],
    );
    let expr = Expr::Between {
        operand: Box::new(Expr::Path(vec![PathElement::Attribute("age".to_string())])),
        low: Box::new(Expr::Placeholder(":lo".to_string())),
        high: Box::new(Expr::Placeholder(":hi".to_string())),
    };
    let filter = condition_to_filter(&expr, &maps).unwrap();
    assert_eq!(
        filter,
        doc(vec![(
            "item_data.age.N",
            obj(vec![
                ("$gte", Bson::Int64(10_i64)),
                ("$lte", Bson::Int64(20_i64))
            ])
        )])
    );
}

#[test]
fn test_in_condition() {
    let maps = make_maps(
        vec![],
        vec![
            (":v1", AttributeValue::S("a".to_string())),
            (":v2", AttributeValue::S("b".to_string())),
            (":v3", AttributeValue::S("c".to_string())),
        ],
    );
    let expr = Expr::In {
        operand: Box::new(Expr::Path(vec![PathElement::Attribute("x".to_string())])),
        list: vec![
            Expr::Placeholder(":v1".to_string()),
            Expr::Placeholder(":v2".to_string()),
            Expr::Placeholder(":v3".to_string()),
        ],
    };
    let filter = condition_to_filter(&expr, &maps).unwrap();
    assert_eq!(
        filter,
        doc(vec![(
            "item_data.x.S",
            obj(vec![("$in", Bson::Array(vec![s("a"), s("b"), s("c")]))])
        )])
    );
}

#[test]
fn test_name_ref_resolution() {
    let maps = make_maps(
        vec![("n", "status")],
        vec![(":v", AttributeValue::S("active".to_string()))],
    );
    let expr = Expr::Compare {
        left: Box::new(Expr::Path(vec![PathElement::Attribute("#n".to_string())])),
        op: CompareOp::Eq,
        right: Box::new(Expr::Placeholder(":v".to_string())),
    };
    let filter = condition_to_filter(&expr, &maps).unwrap();
    assert_eq!(filter, doc(vec![("item_data.status.S", s("active"))]));
}

#[test]
fn test_ne_comparison() {
    let maps = make_maps(
        vec![],
        vec![(":v", AttributeValue::S("deleted".to_string()))],
    );
    let expr = Expr::Compare {
        left: Box::new(Expr::Path(vec![PathElement::Attribute(
            "status".to_string(),
        )])),
        op: CompareOp::Ne,
        right: Box::new(Expr::Placeholder(":v".to_string())),
    };
    let filter = condition_to_filter(&expr, &maps).unwrap();
    assert_eq!(
        filter,
        doc(vec![("item_data.status.S", obj(vec![("$ne", s("deleted"))]))])
    );
}

#[test]
fn test_regex_escape() {
    assert_eq!(regex_escape("user.name"), "user\\.name");
    assert_eq!(regex_escape("a+b"), "a\\+b");
    assert_eq!(regex_escape("normal"), "normal");
}

#[test]
fn test_attribute_type() {
    let maps = make_maps(vec![], vec![(":t", AttributeValue::S("S".to_string()))]);
    let expr = Expr::Function {
        name: "attribute_type".to_string(),
        args: vec![
            Expr::Path(vec![PathElement::Attribute("field".to_string())]),
            Expr::Placeholder(":t".to_string()),
        ],
    };
    let filter = condition_to_filter(&expr, &maps).unwrap();
    assert_eq!(
        filter,
        doc(vec![("item_data.field.S", obj(vec![("$exists", Bson::Boolean(true))]))])
    );
}

#[test]
fn escapes_every_special_character() {
    assert_eq!(
        regex_escape(".*+?^$()[]{}|\\"),
        "\\.\\*\\+\\?\\^\\$\\(\\)\\[\\]\\{\\}\\|\\\\"
    );
    assert_eq!(regex_escape(""), "");
    assert_eq!(regex_escape("käse-#_/"), "käse-#_/");
}

#[test]
fn value_on_the_left_turns_the_operator_round() {
    let maps = make_maps(vec![], vec![(":v", av_n("7"))]);
    let expr = compare(value(":v"), CompareOp::Le, path("n"));
    assert_eq!(
        condition_to_filter(&expr, &maps),
        Ok(doc(vec![("item_data.n.N", obj(vec![("$gte", Bson::Int64(7))]))]))
    );
    for (op, turned) in vec![
        (CompareOp::Eq, CompareOp::Eq),
        (CompareOp::Ne, CompareOp::Ne),
        (CompareOp::Lt, CompareOp::Gt),
        (CompareOp::Le, CompareOp::Ge),
        (CompareOp::Gt, CompareOp::Lt),
        (CompareOp::Ge, CompareOp::Le),
    ] {
        assert_eq!(reverse_op(op), turned);
        assert_eq!(reverse_op(reverse_op(op)), op);
    }
}

#[test]
fn two_paths_are_compared_as_expressions() {
    let maps = make_maps(vec![], vec![]);
    let expr = compare(path("a"), CompareOp::Ge, path("b"));
    assert_eq!(
        condition_to_filter(&expr, &maps),
        Ok(doc(vec![(
            "$expr",
            obj(vec![(
                "$gte",
                Bson::Array(vec![s("$item_data.a"), s("$item_data.b")])
            )])
        )]))
    );
}

#[test]
fn numbers_are_compared_as_numbers() {
    assert_eq!(
        build_field_comparison("f", CompareOp::Eq, Bson::Int64(1)),
        doc(vec![("f", Bson::Int64(1))])
    );
    let maps = make_maps(
        vec![],
        vec![
            (":i", av_n("-9223372036854775808")),
            (":d", av_n("1.5")),
            (":t", av_n("abc")),
        ],
    );
    let of = |v: &str| condition_to_filter(&compare(path("x"), CompareOp::Eq, value(v)), &maps);
    assert_eq!(of(":i"), Ok(doc(vec![("item_data.x.N", Bson::Int64(i64::MIN))])));
    assert_eq!(of(":d"), Ok(doc(vec![("item_data.x.N", Bson::Double("1.5".to_string()))])));
    assert_eq!(of(":t"), Ok(doc(vec![("item_data.x.N", s("abc"))])));
}

#[test]
fn every_type_has_its_tag() {
    let tags: Vec<(AttributeValue, &str)> = vec![
        (av_s("x"), "S"),
        (av_n("1"), "N"),
        (AttributeValue::B(vec![1]), "B"),
        (AttributeValue::Bool(false), "BOOL"),
        (AttributeValue::Null, "NULL"),
        (AttributeValue::L(vec![]), "L"),
        (AttributeValue::M(Item::new()), "M"),
        (AttributeValue::SS(vec![]), "SS"),
        (AttributeValue::NS(vec![]), "NS"),
        (AttributeValue::BS(vec![]), "BS"),
    ];
    for (v, tag) in tags {
        assert_eq!(av_type_suffix(&v), tag);
    }
}

#[test]
fn null_is_compared_as_its_marker() {
    let maps = make_maps(
        vec![],
        vec![(":n", AttributeValue::Null), (":b", AttributeValue::Bool(false))],
    );
    assert_eq!(
        condition_to_filter(&compare(path("x"), CompareOp::Eq, value(":n")), &maps),
        Ok(doc(vec![("item_data.x.NULL", Bson::Boolean(true))]))
    );
    assert_eq!(
        condition_to_filter(&compare(path("x"), CompareOp::Eq, value(":b")), &maps),
        Ok(doc(vec![("item_data.x.BOOL", Bson::Boolean(false))]))
    );
}

#[test]
fn paths_lead_through_lists() {
    let maps = make_maps(vec![("n", "inner")], vec![]);
    let expr = call(
        "attribute_exists",
        vec![Expr::Path(vec![
            PathElement::Attribute("list".to_string()),
            PathElement::Index(12),
            PathElement::Attribute("#n".to_string()),
        ])],
    );
    assert_eq!(
        condition_to_filter(&expr, &maps),
        Ok(doc(vec![(
            "item_data.list.L.12.inner",
            obj(vec![("$exists", Bson::Boolean(true))])
        )]))
    );
}

#[test]
fn function_names_have_no_case() {
    let maps = make_maps(vec![], vec![(":p", av_s("a.b"))]);
    assert_eq!(
        condition_to_filter(&call("Begins_With", vec![path("k"), value(":p")]), &maps),
        Ok(doc(vec![("item_data.k.S", obj(vec![("$regex", s("^a\\.b"))]))]))
    );
    assert_eq!(
        condition_to_filter(&call("CONTAINS", vec![path("k"), value(":p")]), &maps),
        Ok(doc(vec![("item_data.k.S", obj(vec![("$regex", s("a\\.b"))]))]))
    );
}

#[test]
fn unknown_placeholders_are_refused() {
    let maps = make_maps(vec![], vec![]);
    assert_eq!(
        condition_to_filter(&compare(path("#n"), CompareOp::Eq, path("x")), &maps),
        Err(StorageError::Validation("undefined attribute name: #n".to_string()))
    );
    assert_eq!(
        condition_to_filter(&compare(path("x"), CompareOp::Eq, value(":v")), &maps),
        Err(StorageError::Validation("undefined attribute value: :v".to_string()))
    );
}

#[test]
fn misused_functions_are_refused() {
    let maps = make_maps(vec![], vec![(":n", av_n("1"))]);
    assert_eq!(
        condition_to_filter(&call("attribute_exists", vec![]), &maps),
        refusal("attribute_exists requires exactly one argument")
    );
    assert_eq!(
        condition_to_filter(&call("attribute_not_exists", vec![]), &maps),
        refusal("attribute_not_exists requires exactly one argument")
    );
    assert_eq!(
        condition_to_filter(&call("begins_with", vec![path("x")]), &maps),
        refusal("begins_with requires exactly two arguments")
    );
    assert_eq!(
        condition_to_filter(&call("begins_with", vec![path("x"), value(":n")]), &maps),
        refusal("begins_with requires a string prefix")
    );
    assert_eq!(
        condition_to_filter(&call("contains", vec![]), &maps),
        refusal("contains requires exactly two arguments")
    );
    assert_eq!(
        condition_to_filter(&call("attribute_type", vec![path("x"), value(":n")]), &maps),
        refusal("attribute_type requires a string type argument")
    );
    assert_eq!(
        condition_to_filter(&call("size", vec![path("x")]), &maps),
        refusal("size() cannot be used as a standalone condition")
    );
    assert_eq!(
        condition_to_filter(&call("nope", vec![]), &maps),
        refusal("Unsupported function in condition: nope")
    );
}
