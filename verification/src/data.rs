//! Stored documents: collection names, document conversion and key filters.

use vstd::prelude::*;
use vstd::string::*;

use crate::bson::{
    copy_bytes, doc1, lemma_get_with_same, Bson, BsonV, DocV, Document,
};
use crate::encoding::{base64_encode, base64_text, decimal128_of, parse_decimal128};
use crate::error::{res_doc, res_item, res_text, ErrV, StorageError};
use crate::item::{lemma_av_view, AttributeValue, AvV, Item, ItemV};
use crate::item_json::{decode_item, encode_item, is_stored_item, item_json, stored_item};
use crate::number::{is_float_text, reads_as_float};
use crate::schema::{ScalarAttributeType, SortKey};
use crate::text::{join2, join3};

verus! {

/// The name of the collection of a table or an index.
pub open spec fn collection_name(id: Seq<char>) -> Seq<char> {
    "_ddb_"@ + id
}

/// The name of the collection of a table.
pub fn data_collection_name(table_id: &str) -> (r: String)
    ensures
        r@ == collection_name(table_id@),
{
    join2("_ddb_", table_id)
}

/// The name of the collection of a secondary index.
pub fn index_collection_name(index_id: &str) -> (r: String)
    ensures
        r@ == collection_name(index_id@),
{
    join2("_ddb_", index_id)
}

/// Different tables and indexes have different collections.
pub proof fn law_collection_names_differ(a: Seq<char>, b: Seq<char>)
    requires
        collection_name(a) == collection_name(b),
    ensures
        a == b,
{
    let p = "_ddb_"@;
    assert(collection_name(a).skip(p.len() as int) =~= a);
    assert(collection_name(b).skip(p.len() as int) =~= b);
}

/// What the key of an item is under some key schema: the partition key as
/// text, and the attribute that is the sort key, where there is one.
#[derive(Debug, PartialEq)]
pub struct ItemKey {
    pub pk_text: String,
    pub sort_key: Option<SortKey>,
}

/// The field that holds a sort key of a type.
pub open spec fn sk_field(kind: ScalarAttributeType) -> Seq<char> {
    match kind {
        ScalarAttributeType::S => "sk_s"@,
        ScalarAttributeType::N => "sk_n"@,
        ScalarAttributeType::B => "sk_b"@,
    }
}

/// The text of a sort key in the `_id` of a document.
pub open spec fn sk_text_of(v: AvV) -> Result<Seq<char>, ErrV> {
    match v {
        AvV::S(s) => Ok(s),
        AvV::N(n) => Ok(n),
        AvV::B(b) => Ok(base64_text(b)),
        _ => Err(ErrV::Internal("sort key must be S, N, or B"@)),
    }
}

/// The stored form of a numeric sort key, from the decimal number that its
/// text was parsed to: the decimal, else a double, else nothing.
pub open spec fn numeric_key(n: Seq<char>, decimal: Option<Seq<u8>>) -> Option<BsonV> {
    match decimal {
        Some(b) => Some(BsonV::Decimal128(b)),
        None => if is_float_text(n) {
            Some(BsonV::Double(n))
        } else {
            None
        },
    }
}

/// The document of an item without a sort key value of the declared type, up
/// to its `item_data`.
pub open spec fn id_fields(id: Seq<char>, pk: Seq<char>) -> DocV {
    doc1("_id"@, BsonV::Str(id)).with("pk"@, BsonV::Str(pk))
}

/// The document of an item, up to its `item_data`.
pub open spec fn key_fields(item: ItemV, key: ItemKey) -> Result<DocV, ErrV> {
    let pk = key.pk_text@;
    match key.sort_key {
        None => Ok(id_fields(pk, pk)),
        Some(sk) => match item.get(sk.name@) {
            None => Err(ErrV::Internal("missing sort key"@)),
            Some(v) => match sk_text_of(v) {
                Err(e) => Err(e),
                Ok(t) => {
                    let d = id_fields(pk + "#"@ + t, pk);
                    match (sk.kind, v) {
                        (ScalarAttributeType::S, AvV::S(s)) => Ok(d.with("sk_s"@, BsonV::Str(s))),
                        (ScalarAttributeType::N, AvV::N(n)) => match numeric_key(
                            n,
                            decimal128_of(n),
                        ) {
                            Some(b) => Ok(d.with("sk_n"@, b)),
                            None => Err(
                                ErrV::Internal(
                                    "Cannot convert sort key '"@ + n + "' to numeric BSON type"@,
                                ),
                            ),
                        },
                        (ScalarAttributeType::B, AvV::B(b)) => Ok(
                            d.with("sk_b"@, BsonV::Binary(b)),
                        ),
                        _ => Ok(d),
                    }
                },
            },
        },
    }
}

/// The document that an item is stored as: `_id`, `pk`, the typed sort key and
/// `item_data`.
pub open spec fn item_document(item: ItemV, key: ItemKey) -> Result<DocV, ErrV> {
    match key_fields(item, key) {
        Err(e) => Err(e),
        Ok(d) => Ok(d.with("item_data"@, BsonV::Doc(item_json(item)))),
    }
}

/// The item that a document holds.
pub open spec fn document_item(d: DocV) -> Result<ItemV, ErrV> {
    match d.get("item_data"@) {
        None => Err(ErrV::Internal("Document missing item_data field"@)),
        Some(BsonV::Doc(m)) => if is_stored_item(m) {
            Ok(stored_item(m))
        } else {
            Err(ErrV::Internal("JSON to Item conversion error: not an item"@))
        },
        Some(_) => Err(ErrV::Internal("JSON to Item conversion error: not an item"@)),
    }
}

/// The filter that finds the document of a key.
pub open spec fn key_filter(item: ItemV, key: ItemKey) -> Result<DocV, ErrV> {
    let d = doc1("pk"@, BsonV::Str(key.pk_text@));
    match key.sort_key {
        None => Ok(d),
        Some(sk) => match item.get(sk.name@) {
            None => Err(ErrV::Internal("missing sort key in key"@)),
            Some(v) => Ok(
                match (sk.kind, v) {
                    (ScalarAttributeType::S, AvV::S(s)) => d.with("sk_s"@, BsonV::Str(s)),
                    (ScalarAttributeType::N, AvV::N(n)) => match numeric_key(n, decimal128_of(n)) {
                        Some(b) => d.with("sk_n"@, b),
                        None => d,
                    },
                    (ScalarAttributeType::B, AvV::B(b)) => d.with("sk_b"@, BsonV::Binary(b)),
                    _ => d,
                },
            ),
        },
    }
}

/// The stored form of a numeric sort key, from the decimal number that its
/// text was parsed to.
pub fn numeric_sort_key(n: &str, decimal: Option<Vec<u8>>) -> (r: Option<Bson>)
    ensures
        match (r, numeric_key(n@, match decimal {
            Some(b) => Some(b@),
            None => None,
        })) {
            (Some(b), Some(v)) => b@ == v,
            (None, None) => true,
            _ => false,
        },
{
    match decimal {
        Some(b) => Some(Bson::Decimal128(b)),
        None => if reads_as_float(n) {
            Some(Bson::Double(n.to_owned()))
        } else {
            None
        },
    }
}

/// The text of a sort key in the `_id` of a document.
pub fn sk_to_text(value: &AttributeValue) -> (r: Result<String, StorageError>)
    ensures
        res_text(r) == sk_text_of(value@),
{
    broadcast use lemma_av_view;

    match value {
        AttributeValue::S(s) => Ok(s.clone()),
        AttributeValue::N(n) => Ok(n.clone()),
        AttributeValue::B(b) => Ok(base64_encode(b)),
        _ => Err(StorageError::internal("sort key must be S, N, or B")),
    }
}

fn build_key_fields(item: &Item, key: &ItemKey) -> (r: Result<Document, StorageError>)
    ensures
        res_doc(r) == key_fields(item@, *key),
{
    broadcast use lemma_av_view;

    let pk = key.pk_text.as_str();
    match &key.sort_key {
        None => Ok(Document::new().with("_id", Bson::text(pk)).with("pk", Bson::text(pk))),
        Some(sk) => match item.get(sk.name.as_str()) {
            None => Err(StorageError::internal("missing sort key")),
            Some(v) => match sk_to_text(v) {
                Err(e) => Err(e),
                Ok(t) => {
                    let id = join3(pk, "#", t.as_str());
                    let d = Document::new().with("_id", Bson::String(id)).with(
                        "pk",
                        Bson::text(pk),
                    );
                    match (sk.kind, v) {
                        (ScalarAttributeType::S, AttributeValue::S(s)) => Ok(
                            d.with("sk_s", Bson::String(s.clone())),
                        ),
                        (ScalarAttributeType::N, AttributeValue::N(n)) => match numeric_sort_key(
                            n.as_str(),
                            parse_decimal128(n.as_str()),
                        ) {
                            Some(b) => Ok(d.with("sk_n", b)),
                            None => Err(
                                StorageError::Internal(
                                    join3(
                                        "Cannot convert sort key '",
                                        n.as_str(),
                                        "' to numeric BSON type",
                                    ),
                                ),
                            ),
                        },
                        (ScalarAttributeType::B, AttributeValue::B(b)) => Ok(
                            d.with("sk_b", Bson::Binary(copy_bytes(b))),
                        ),
                        _ => Ok(d),
                    }
                },
            },
        },
    }
}

/// Converts an item to the document that it is stored as. Converting the
/// document back gives the item.
pub fn item_to_document(item: &Item, key: &ItemKey) -> (r: Result<Document, StorageError>)
    ensures
        res_doc(r) == item_document(item@, *key),
        r matches Ok(d) ==> document_item(d@) == Ok::<ItemV, ErrV>(item@),
{
    match build_key_fields(item, key) {
        Err(e) => Err(e),
        Ok(d) => {
            let data = encode_item(item);
            proof {
                lemma_get_with_same(d@, "item_data"@, BsonV::Doc(data@));
            }
            Ok(d.with("item_data", Bson::Document(data)))
        },
    }
}

/// Converts a stored document back to the item that it holds.
pub fn document_to_item(doc: &Document) -> (r: Result<Item, StorageError>)
    ensures
        res_item(r) == document_item(doc@),
{
    match doc.get("item_data") {
        None => Err(StorageError::internal("Document missing item_data field")),
        Some(Bson::Document(d)) => match decode_item(d) {
            Some(i) => Ok(i),
            None => Err(StorageError::internal("JSON to Item conversion error: not an item")),
        },
        Some(_) => Err(StorageError::internal("JSON to Item conversion error: not an item")),
    }
}

/// The filter that finds the document of a key.
pub fn pk_filter(item: &Item, key: &ItemKey) -> (r: Result<Document, StorageError>)
    ensures
        res_doc(r) == key_filter(item@, *key),
{
    broadcast use lemma_av_view;

    let d = Document::new().with("pk", Bson::text(key.pk_text.as_str()));
    match &key.sort_key {
        None => Ok(d),
        Some(sk) => match item.get(sk.name.as_str()) {
            None => Err(StorageError::internal("missing sort key in key")),
            Some(v) => match (sk.kind, v) {
                (ScalarAttributeType::S, AttributeValue::S(s)) => Ok(
                    d.with("sk_s", Bson::String(s.clone())),
                ),
                (ScalarAttributeType::N, AttributeValue::N(n)) => match numeric_sort_key(
                    n.as_str(),
                    parse_decimal128(n.as_str()),
                ) {
                    Some(b) => Ok(d.with("sk_n", b)),
                    None => Ok(d),
                },
                (ScalarAttributeType::B, AttributeValue::B(b)) => Ok(
                    d.with("sk_b", Bson::Binary(copy_bytes(b))),
                ),
                _ => Ok(d),
            },
        },
    }
}

/// The field that holds the sort key, where there is one.
pub fn sk_field_name(sort_key: Option<&SortKey>) -> (r: Option<&'static str>)
    ensures
        match (r, sort_key) {
            (Some(f), Some(sk)) => f@ == sk_field(sk.kind),
            (None, None) => true,
            _ => false,
        },
{
    match sort_key {
        None => None,
        Some(sk) => match sk.kind {
            ScalarAttributeType::S => Some("sk_s"),
            ScalarAttributeType::N => Some("sk_n"),
            ScalarAttributeType::B => Some("sk_b"),
        },
    }
}

// --- Laws ------------------------------------------------------------------------

/// The key filter of an item asks for values that the document of the item
/// holds: every field that it names stands in the document with that value.
pub proof fn law_filter_matches_document(item: ItemV, key: ItemKey, k: Seq<char>)
    requires
        item_document(item, key) is Ok,
        key_filter(item, key) is Ok,
        key_filter(item, key)->Ok_0.get(k) is Some,
    ensures
        item_document(item, key)->Ok_0.get(k) == key_filter(item, key)->Ok_0.get(k),
{
    broadcast use crate::bson::group_document_fields;

    reveal_strlit("_id");
    reveal_strlit("pk");
    reveal_strlit("sk_s");
    reveal_strlit("sk_n");
    reveal_strlit("sk_b");
    reveal_strlit("item_data");
    assert("_id"@.len() == 3 && "pk"@.len() == 2 && "item_data"@.len() == 9);
    assert("sk_s"@.len() == 4 && "sk_n"@.len() == 4 && "sk_b"@.len() == 4);
    assert("sk_s"@[3] == 's' && "sk_n"@[3] == 'n' && "sk_b"@[3] == 'b');
}

} // verus!
