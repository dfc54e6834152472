//! Queries and scans: the commands that read pages of items, and the pages.

use vstd::prelude::*;
use vstd::string::*;
use vstd::utf8::encode_utf8;

use crate::bson::{doc1, doc_seq, obj1, Bson, BsonV, DocV, Document};
use crate::data::{
    collection_name, data_collection_name, document_item, document_to_item, sk_field,
    sk_field_name,
};
use crate::encoding::{base64_encode, base64_text, crc32, crc32_of};
use crate::error::{ErrV, StorageError};
use crate::expression::{ExpressionMaps, SortKeyCondition};
use crate::item::{item_seq, lemma_av_view, opt_item, AttributeValue, AvV, Item, ItemV};
use crate::index_sync::{is_key_name, is_projected, project_item};
use crate::protocol::{in_data, Command, CommandV, Paging, PagingV, Place};
use crate::schema::{
    schema_view, KeySchemaElement, KeyType, Projection, ProjectionType, ScalarAttributeType,
    SortKey,
};
use crate::schema_json::ProjectionV;
use crate::sort_key::{build_sk_filter, sk_bson, sk_filter, sk_to_bson};
use crate::text::join3;

verus! {

// --- Queries -----------------------------------------------------------------------

/// What a query is asked for.
#[derive(Debug, PartialEq)]
pub struct QueryRequest {
    /// The identifier of the table or the index.
    pub collection_id: String,
    /// The partition key as text.
    pub pk_text: String,
    pub sort_key: Option<SortKey>,
    pub sk_condition: Option<SortKeyCondition>,
    pub forward: bool,
    pub limit: Option<i64>,
    /// The key after which the page begins.
    pub start_key: Option<Item>,
}

/// The model of a fallible command.
pub open spec fn res_command(r: Result<Command, StorageError>) -> Result<CommandV, ErrV> {
    match r {
        Ok(c) => Ok(c@),
        Err(e) => Err(e@),
    }
}

/// The filter of a query before paging.
pub open spec fn query_condition(q: QueryRequest, maps: ExpressionMaps) -> Result<DocV, ErrV> {
    let d = doc1("pk"@, BsonV::Str(q.pk_text@));
    match (q.sk_condition, q.sort_key) {
        (Some(c), Some(sk)) => match sk_filter(c, sk_field(sk.kind), maps) {
            Err(e) => Err(e),
            Ok(f) => match f.get(sk_field(sk.kind)) {
                Some(v) => Ok(d.with(sk_field(sk.kind), v)),
                None => Ok(d),
            },
        },
        _ => Ok(d),
    }
}

/// The filter that leads past the start key: on the sort key field itself
/// where the query has no condition on it, in addition to the condition where
/// it has one.
pub open spec fn query_filter(q: QueryRequest, maps: ExpressionMaps) -> Result<DocV, ErrV> {
    match query_condition(q, maps) {
        Err(e) => Err(e),
        Ok(d) => match (q.start_key, q.sort_key) {
            (Some(start), Some(sk)) => match start@.get(sk.name@) {
                None => Ok(d),
                Some(v) => match sk_bson(v, sk.kind) {
                    Err(e) => Err(e),
                    Ok(b) => {
                        let past = obj1(
                            if q.forward {
                                "$gt"@
                            } else {
                                "$lt"@
                            },
                            b,
                        );
                        if q.sk_condition is Some {
                            Ok(
                                d.with(
                                    "$and"@,
                                    BsonV::Array(seq![obj1(sk_field(sk.kind), past)]),
                                ),
                            )
                        } else {
                            Ok(d.with(sk_field(sk.kind), past))
                        }
                    },
                },
            },
            _ => Ok(d),
        },
    }
}

/// How the documents of a query are handed out: in the order of the sort key,
/// one more than asked for.
pub open spec fn query_paging(q: QueryRequest) -> PagingV {
    let direction = BsonV::Int32(
        if q.forward {
            1i32
        } else {
            (-1) as i32
        },
    );
    PagingV {
        sort: Some(
            match q.sort_key {
                Some(sk) => doc1(sk_field(sk.kind), direction),
                None => doc1("pk"@, direction),
            },
        ),
        limit: match q.limit {
            Some(l) => Some((l + 1) as i64),
            None => None,
        },
        simple_collation: match q.sort_key {
            Some(sk) => sk.kind == ScalarAttributeType::S,
            None => false,
        },
        projection: None,
    }
}

/// The command of a query.
pub open spec fn query_command_of(q: QueryRequest, maps: ExpressionMaps) -> Result<
    CommandV,
    ErrV,
> {
    match query_filter(q, maps) {
        Err(e) => Err(e),
        Ok(filter) => Ok(
            CommandV::Find {
                at: in_data(collection_name(q.collection_id@)),
                filter,
                paging: query_paging(q),
            },
        ),
    }
}

fn build_query_condition(q: &QueryRequest, maps: &ExpressionMaps) -> (r: Result<
    Document,
    StorageError,
>)
    ensures
        crate::error::res_doc(r) == query_condition(*q, *maps),
{
    let d = Document::new().with("pk", Bson::text(q.pk_text.as_str()));
    match (&q.sk_condition, &q.sort_key) {
        (Some(c), Some(sk)) => {
            let field = match sk_field_name(Some(sk)) {
                Some(f) => f,
                None => {
                    return Ok(d);
                },
            };
            match build_sk_filter(c, field, maps) {
                Err(e) => Err(e),
                Ok(f) => match f.get(field) {
                    Some(v) => Ok(d.with(field, v.clone())),
                    None => Ok(d),
                },
            }
        },
        _ => Ok(d),
    }
}

fn build_query_filter(q: &QueryRequest, maps: &ExpressionMaps) -> (r: Result<
    Document,
    StorageError,
>)
    ensures
        crate::error::res_doc(r) == query_filter(*q, *maps),
{
    let d = match build_query_condition(q, maps) {
        Ok(d) => d,
        Err(e) => {
            return Err(e);
        },
    };
    match (&q.start_key, &q.sort_key) {
        (Some(start), Some(sk)) => match start.get(sk.name.as_str()) {
            None => Ok(d),
            Some(v) => match sk_to_bson(v, sk.kind) {
                Err(e) => Err(e),
                Ok(b) => {
                    let field = match sk_field_name(Some(sk)) {
                        Some(f) => f,
                        None => {
                            return Ok(d);
                        },
                    };
                    let op = if q.forward {
                        "$gt"
                    } else {
                        "$lt"
                    };
                    let past = Bson::obj1(op, b);
                    if q.sk_condition.is_some() {
                        Ok(d.with("$and", Bson::array1(Bson::obj1(field, past))))
                    } else {
                        Ok(d.with(field, past))
                    }
                },
            },
        },
        _ => Ok(d),
    }
}

/// Plans a query.
pub fn query_command(q: &QueryRequest, maps: &ExpressionMaps) -> (r: Result<Command, StorageError>)
    requires
        q.limit matches Some(l) ==> l < i64::MAX,
    ensures
        res_command(r) == query_command_of(*q, *maps),
{
    let filter = match build_query_filter(q, maps) {
        Ok(d) => d,
        Err(e) => {
            return Err(e);
        },
    };
    let direction = Bson::Int32(
        if q.forward {
            1
        } else {
            -1
        },
    );
    let (sort, simple_collation) = match &q.sort_key {
        Some(sk) => {
            let field = match sk.kind {
                ScalarAttributeType::S => "sk_s",
                ScalarAttributeType::N => "sk_n",
                ScalarAttributeType::B => "sk_b",
            };
            (Document::new().with(field, direction), sk.kind == ScalarAttributeType::S)
        },
        None => (Document::new().with("pk", direction), false),
    };
    let limit: Option<i64> = match q.limit {
        Some(l) => Some(l + 1),
        None => None,
    };
    let name = data_collection_name(q.collection_id.as_str());
    Ok(
        Command::Find {
            at: Place::data(name.as_str()),
            filter,
            paging: Paging { sort: Some(sort), limit, simple_collation, projection: None },
        },
    )
}

// --- Pages -------------------------------------------------------------------------

/// A page of items.
#[derive(Debug, PartialEq)]
pub struct Page {
    pub items: Vec<Item>,
    /// The key after which the next page begins, where there is a next page.
    pub last: Option<Item>,
}

/// The model of a page.
#[verifier::ext_equal]
pub struct PageV {
    pub items: Seq<ItemV>,
    pub last: Option<ItemV>,
}

impl View for Page {
    type V = PageV;

    open spec fn view(&self) -> PageV {
        PageV { items: item_seq(self.items@), last: opt_item(self.last) }
    }
}

/// There are more items than a limit allows. A negative limit allows any
/// number.
pub open spec fn is_over(n: nat, limit: Option<i64>) -> bool {
    limit matches Some(l) && l >= 0 && n > l
}

/// The projection to the attributes of keys.
pub open spec fn keys_only() -> ProjectionV {
    ProjectionV { kind: ProjectionType::KeysOnly, attributes: None }
}

/// A page names its last item by its key: the attributes of the key of what
/// was read, a table or an index, and of the key of the table.
pub open spec fn is_keyed(
    whole: PageV,
    index: Seq<(Seq<char>, KeyType)>,
    base: Seq<(Seq<char>, KeyType)>,
    p: PageV,
) -> bool {
    &&& p.items == whole.items
    &&& match (whole.last, p.last) {
        (Some(item), Some(key)) => is_projected(item, index, base, keys_only(), key),
        (None, None) => true,
        _ => false,
    }
}

/// The model of a page that was read, or why there is none.
pub open spec fn res_page(r: Result<Page, StorageError>) -> Result<PageV, ErrV> {
    match r {
        Ok(p) => Ok(p@),
        Err(e) => Err(e@),
    }
}

/// The page of a result, with its last item named by its key.
pub open spec fn is_page_result(
    whole: Result<PageV, ErrV>,
    index: Seq<(Seq<char>, KeyType)>,
    base: Seq<(Seq<char>, KeyType)>,
    r: Result<PageV, ErrV>,
) -> bool {
    match (whole, r) {
        (Ok(w), Ok(p)) => is_keyed(w, index, base, p),
        (Err(a), Err(b)) => a == b,
        _ => false,
    }
}

/// The page of the items that were read, with the last item whole.
pub open spec fn page_of(items: Seq<ItemV>, limit: Option<i64>) -> PageV {
    if is_over(items.len(), limit) {
        let l = limit->0 as int;
        PageV {
            items: items.take(l),
            last: if l > 0 {
                Some(items[l - 1])
            } else {
                None
            },
        }
    } else {
        PageV { items, last: None }
    }
}

/// The items of the first `n` documents.
pub open spec fn items_to(docs: Seq<DocV>, n: nat) -> Result<Seq<ItemV>, ErrV>
    decreases n,
{
    if n == 0 {
        Ok(Seq::empty())
    } else {
        match items_to(docs, (n - 1) as nat) {
            Err(e) => Err(e),
            Ok(s) => match document_item(docs[n - 1]) {
                Err(e) => Err(e),
                Ok(i) => Ok(s.push(i)),
            },
        }
    }
}

/// The page of the documents that were read, with the last item whole.
pub open spec fn query_page_of(docs: Seq<DocV>, limit: Option<i64>) -> Result<PageV, ErrV> {
    match items_to(docs, docs.len()) {
        Err(e) => Err(e),
        Ok(items) => Ok(page_of(items, limit)),
    }
}

proof fn lemma_items_error(docs: Seq<DocV>, i: nat, n: nat, e: ErrV)
    requires
        i < n,
        items_to(docs, i + 1) == Err::<Seq<ItemV>, ErrV>(e),
    ensures
        items_to(docs, n) == Err::<Seq<ItemV>, ErrV>(e),
    decreases n,
{
    if i + 1 < n {
        lemma_items_error(docs, i, (n - 1) as nat, e);
    }
}

fn over(n: usize, limit: Option<i64>) -> (r: bool)
    ensures
        r == is_over(n as nat, limit),
{
    match limit {
        Some(l) => l >= 0 && (n as u64) > (l as u64),
        None => false,
    }
}

/// The key of an item, under the key of an index and that of its table.
fn last_key(item: &Item, index: &Vec<KeySchemaElement>, base: &Vec<KeySchemaElement>) -> (r: Item)
    ensures
        is_projected(item@, schema_view(index@), schema_view(base@), keys_only(), r@),
{
    let keys = Projection { projection_type: ProjectionType::KeysOnly, non_key_attributes: None };
    project_item(item, index, base, &keys)
}

/// Cuts the items that were read to a page.
pub fn make_page(
    items: Vec<Item>,
    limit: Option<i64>,
    index: &Vec<KeySchemaElement>,
    base: &Vec<KeySchemaElement>,
) -> (r: Page)
    ensures
        is_keyed(page_of(item_seq(items@), limit), schema_view(index@), schema_view(base@), r@),
{
    if !over(items.len(), limit) {
        return Page { items, last: None };
    }
    let ghost all = item_seq(items@);
    let mut items = items;
    let l: usize = match limit {
        Some(l) => l as usize,
        None => 0,
    };
    let last = if l > 0 {
        assert(items@[l - 1]@ == all[l - 1]);
        Some(last_key(&items[l - 1], index, base))
    } else {
        None
    };
    items.truncate(l);
    assert(item_seq(items@) =~= all.take(l as int));
    Page { items, last }
}

/// Reads a page from the documents of a query: of a table, whose key stands
/// for both, or of an index of one.
pub fn query_page(
    docs: &Vec<Document>,
    limit: Option<i64>,
    index: &Vec<KeySchemaElement>,
    base: &Vec<KeySchemaElement>,
) -> (r: Result<Page, StorageError>)
    ensures
        is_page_result(
            query_page_of(doc_seq(docs@), limit),
            schema_view(index@),
            schema_view(base@),
            res_page(r),
        ),
{
    let ghost ds = doc_seq(docs@);
    let mut items: Vec<Item> = Vec::new();
    let mut i: usize = 0;
    assert(item_seq(items@) =~= Seq::empty());
    while i < docs.len()
        invariant
            i <= docs.len(),
            ds == doc_seq(docs@),
            items_to(ds, i as nat) == Ok::<Seq<ItemV>, ErrV>(item_seq(items@)),
        decreases docs.len() - i,
    {
        assert(ds[i as int] == docs@[i as int]@);
        match document_to_item(&docs[i]) {
            Err(e) => {
                proof {
                    lemma_items_error(ds, i as nat, ds.len(), e@);
                }
                return Err(e);
            },
            Ok(item) => {
                let ghost before = items@;
                items.push(item);
                assert(item_seq(items@) =~= item_seq(before).push(item@));
            },
        }
        i += 1;
    }
    Ok(make_page(items, limit, index, base))
}

// --- Scans -------------------------------------------------------------------------

/// The item after which a scan goes on.
#[derive(Debug, PartialEq)]
pub struct ScanStart {
    pub item: Item,
    /// The partition key of the item as text.
    pub pk_text: String,
}

/// The filter of a scan.
pub open spec fn scan_filter(start: Option<ScanStart>, sort_key: Option<SortKey>) -> Result<
    DocV,
    ErrV,
> {
    match start {
        None => Ok(DocV::empty()),
        Some(s) => match sort_key {
            None => Ok(doc1("_id"@, obj1("$gt"@, BsonV::Str(s.pk_text@)))),
            Some(sk) => match s.item@.get(sk.name@) {
                None => Ok(DocV::empty()),
                Some(v) => match v {
                    AvV::S(t) => Ok(scan_past(s.pk_text@, t)),
                    AvV::N(t) => Ok(scan_past(s.pk_text@, t)),
                    AvV::B(b) => Ok(scan_past(s.pk_text@, base64_text(b))),
                    _ => Err(ErrV::Internal("invalid sk type"@)),
                },
            },
        },
    }
}

/// The filter that leads past a document.
pub open spec fn scan_past(pk: Seq<char>, sk: Seq<char>) -> DocV {
    doc1("_id"@, obj1("$gt"@, BsonV::Str(pk + "#"@ + sk)))
}

/// The segment that a parallel scan reads: its number and how many there are.
pub open spec fn segment_of(segment: Option<i64>, total: Option<i64>) -> Option<(i64, i64)> {
    match (segment, total) {
        (Some(s), Some(t)) => Some((s, t)),
        _ => None,
    }
}

/// How many documents a scan reads: one more than asked for, times the number
/// of segments, as every segment reads the documents of all.
pub open spec fn scan_limit(limit: Option<i64>, segment: Option<(i64, i64)>) -> Option<int> {
    match limit {
        None => None,
        Some(l) => match segment {
            None => Some(l + 1),
            Some((_, total)) => Some((l + 1) * total),
        },
    }
}

/// As many documents came back as were asked for, so that there may be more.
pub open spec fn is_full(n: nat, fetched: Option<int>) -> bool {
    fetched matches Some(f) && 0 < f <= n
}

/// The command of a scan.
pub open spec fn scan_command_of(
    collection_id: Seq<char>,
    start: Option<ScanStart>,
    sort_key: Option<SortKey>,
    limit: Option<i64>,
    segment: Option<(i64, i64)>,
) -> Result<CommandV, ErrV> {
    match scan_filter(start, sort_key) {
        Err(e) => Err(e),
        Ok(filter) => Ok(
            CommandV::Find {
                at: in_data(collection_name(collection_id)),
                filter,
                paging: PagingV {
                    sort: Some(doc1("_id"@, BsonV::Int32(1))),
                    limit: match scan_limit(limit, segment) {
                        Some(l) => Some(l as i64),
                        None => None,
                    },
                    simple_collation: false,
                    projection: None,
                },
            },
        ),
    }
}

/// The segment that a parallel scan reads.
pub fn scan_segment(segment: Option<i64>, total: Option<i64>) -> (r: Option<(i64, i64)>)
    ensures
        r == segment_of(segment, total),
{
    match (segment, total) {
        (Some(s), Some(t)) => Some((s, t)),
        _ => None,
    }
}

/// How many documents a scan reads.
fn fetch_limit(limit: Option<i64>, segment: Option<(i64, i64)>) -> (r: Option<i64>)
    requires
        limit matches Some(l) ==> l < i64::MAX,
        scan_limit(limit, segment) matches Some(n) ==> i64::MIN <= n <= i64::MAX,
    ensures
        match (r, scan_limit(limit, segment)) {
            (Some(f), Some(n)) => f == n,
            (None, None) => true,
            _ => false,
        },
{
    match limit {
        None => None,
        Some(l) => match segment {
            None => Some(l + 1),
            Some((_, total)) => {
                let one_more: i64 = l + 1;
                Some(one_more * total)
            },
        },
    }
}

fn build_scan_past(pk: &str, sk: &str) -> (r: Document)
    ensures
        r@ == scan_past(pk@, sk@),
{
    let id = join3(pk, "#", sk);
    Document::new().with("_id", Bson::obj1("$gt", Bson::String(id)))
}

fn build_scan_filter(start: &Option<ScanStart>, sort_key: &Option<SortKey>) -> (r: Result<
    Document,
    StorageError,
>)
    ensures
        crate::error::res_doc(r) == scan_filter(*start, *sort_key),
{
    broadcast use lemma_av_view;

    match start {
        None => Ok(Document::new()),
        Some(s) => match sort_key {
            None => Ok(
                Document::new().with("_id", Bson::obj1("$gt", Bson::text(s.pk_text.as_str()))),
            ),
            Some(sk) => match s.item.get(sk.name.as_str()) {
                None => Ok(Document::new()),
                Some(v) => match v {
                    AttributeValue::S(t) => Ok(build_scan_past(s.pk_text.as_str(), t.as_str())),
                    AttributeValue::N(t) => Ok(build_scan_past(s.pk_text.as_str(), t.as_str())),
                    AttributeValue::B(b) => {
                        let t = base64_encode(b);
                        Ok(build_scan_past(s.pk_text.as_str(), t.as_str()))
                    },
                    _ => Err(StorageError::internal("invalid sk type")),
                },
            },
        },
    }
}

/// Plans a scan.
pub fn scan_command(
    collection_id: &str,
    start: &Option<ScanStart>,
    sort_key: &Option<SortKey>,
    limit: Option<i64>,
    segment: Option<(i64, i64)>,
) -> (r: Result<Command, StorageError>)
    requires
        limit matches Some(l) ==> l < i64::MAX,
        scan_limit(limit, segment) matches Some(n) ==> i64::MIN <= n <= i64::MAX,
    ensures
        res_command(r) == scan_command_of(collection_id@, *start, *sort_key, limit, segment),
{
    let filter = match build_scan_filter(start, sort_key) {
        Ok(d) => d,
        Err(e) => {
            return Err(e);
        },
    };
    let fetch = fetch_limit(limit, segment);
    let name = data_collection_name(collection_id);
    Ok(
        Command::Find {
            at: Place::data(name.as_str()),
            filter,
            paging: Paging {
                sort: Some(Document::new().with("_id", Bson::Int32(1))),
                limit: fetch,
                simple_collation: false,
                projection: None,
            },
        },
    )
}

/// A checksum belongs to a segment.
pub open spec fn checksum_in_segment(hash: u32, segment: i64, total: i64) -> bool {
    hash % (total as u32) == (segment as u32)
}

/// Whether a checksum belongs to a segment.
pub fn hash_in_segment(hash: u32, segment: i64, total: i64) -> (r: bool)
    requires
        total as u32 != 0,
    ensures
        r == checksum_in_segment(hash, segment, total),
{
    hash % (total as u32) == (segment as u32)
}

/// Whether a partition key belongs to a segment of a parallel scan.
pub fn in_segment(pk_text: &str, segment: i64, total: i64) -> (r: bool)
    requires
        total as u32 != 0,
    ensures
        r == checksum_in_segment(crc32_of(encode_utf8(pk_text@)), segment, total),
{
    let hash = crc32(pk_text.as_bytes());
    hash_in_segment(hash, segment, total)
}

/// The partition keys of documents as texts.
#[derive(Debug, PartialEq)]
pub struct PartitionTexts {
    /// The texts of the first documents.
    pub texts: Vec<String>,
    /// Why the document behind these has no text, where there is one.
    pub failure: Option<StorageError>,
}

impl PartitionTexts {
    /// The text of a document, or why it has none.
    pub open spec fn at(self, i: int) -> Result<Seq<char>, ErrV> {
        if i < self.texts@.len() {
            Ok(self.texts@[i]@)
        } else {
            Err(self.failure->0@)
        }
    }
}

/// The items that a scan finds in the first `n` documents: those of its
/// segment, until there are enough.
pub open spec fn scanned(
    docs: Seq<DocV>,
    keys: PartitionTexts,
    segment: Option<(i64, i64)>,
    limit: Option<i64>,
    n: nat,
) -> Result<Seq<ItemV>, ErrV>
    decreases n,
{
    if n == 0 {
        Ok(Seq::empty())
    } else {
        match scanned(docs, keys, segment, limit, (n - 1) as nat) {
            Err(e) => Err(e),
            Ok(s) => if is_over(s.len(), limit) {
                Ok(s)
            } else {
                match document_item(docs[n - 1]) {
                    Err(e) => Err(e),
                    Ok(i) => match segment {
                        None => Ok(s.push(i)),
                        Some((k, total)) => match keys.at(n - 1) {
                            Err(e) => Err(e),
                            Ok(t) => if checksum_in_segment(crc32_of(encode_utf8(t)), k, total) {
                                Ok(s.push(i))
                            } else {
                                Ok(s)
                            },
                        },
                    },
                }
            },
        }
    }
}

/// A document holds an item, and its partition key belongs to a segment.
pub open spec fn holds_in_segment(
    docs: Seq<DocV>,
    keys: PartitionTexts,
    segment: i64,
    total: i64,
    d: int,
    item: ItemV,
) -> bool {
    &&& 0 <= d < docs.len()
    &&& document_item(docs[d]) == Ok::<ItemV, ErrV>(item)
    &&& keys.at(d) matches Ok(t)
    &&& checksum_in_segment(crc32_of(encode_utf8(t)), segment, total)
}

/// An item comes from a document of a segment.
pub open spec fn is_from_segment(
    docs: Seq<DocV>,
    keys: PartitionTexts,
    segment: i64,
    total: i64,
    item: ItemV,
) -> bool {
    exists|d: int| holds_in_segment(docs, keys, segment, total, d, item)
}

/// The page of a scan, with the last item whole. Where as many documents came
/// back as were asked for, the next page begins after the last of them.
pub open spec fn scan_page_of(
    docs: Seq<DocV>,
    keys: PartitionTexts,
    segment: Option<(i64, i64)>,
    limit: Option<i64>,
) -> Result<PageV, ErrV> {
    match scanned(docs, keys, segment, limit, docs.len()) {
        Err(e) => Err(e),
        Ok(items) => if is_over(items.len(), limit) || !is_full(
            docs.len(),
            scan_limit(limit, segment),
        ) {
            Ok(page_of(items, limit))
        } else {
            match document_item(docs.last()) {
                Err(e) => Err(e),
                Ok(i) => Ok(PageV { items, last: Some(i) }),
            }
        },
    }
}

proof fn lemma_scan_error(
    docs: Seq<DocV>,
    keys: PartitionTexts,
    segment: Option<(i64, i64)>,
    limit: Option<i64>,
    i: nat,
    n: nat,
    e: ErrV,
)
    requires
        i <= n,
        scanned(docs, keys, segment, limit, i) == Err::<Seq<ItemV>, ErrV>(e),
    ensures
        scanned(docs, keys, segment, limit, n) == Err::<Seq<ItemV>, ErrV>(e),
    decreases n,
{
    if i < n {
        lemma_scan_error(docs, keys, segment, limit, i, (n - 1) as nat, e);
    }
}

/// Reads a page from the documents of a scan: of a table, whose key stands for
/// both, or of an index of one. The partition keys are needed only for a
/// segment.
pub fn scan_page(
    docs: &Vec<Document>,
    keys: PartitionTexts,
    segment: Option<(i64, i64)>,
    limit: Option<i64>,
    index: &Vec<KeySchemaElement>,
    base: &Vec<KeySchemaElement>,
) -> (r: Result<Page, StorageError>)
    requires
        segment matches Some((_, total)) ==> total as u32 != 0 || docs@.len() == 0,
        segment is Some ==> keys.texts@.len() >= docs@.len() || keys.failure is Some,
        limit matches Some(l) ==> l < i64::MAX,
        scan_limit(limit, segment) matches Some(n) ==> i64::MIN <= n <= i64::MAX,
    ensures
        is_page_result(
            scan_page_of(doc_seq(docs@), keys, segment, limit),
            schema_view(index@),
            schema_view(base@),
            res_page(r),
        ),
{
    let ghost ds = doc_seq(docs@);
    let mut items: Vec<Item> = Vec::new();
    let mut i: usize = 0;
    assert(item_seq(items@) =~= Seq::empty());
    while i < docs.len()
        invariant
            i <= docs.len(),
            ds == doc_seq(docs@),
            segment matches Some((_, total)) ==> total as u32 != 0 || docs@.len() == 0,
            segment is Some ==> keys.texts@.len() >= docs@.len() || keys.failure is Some,
            scanned(ds, keys, segment, limit, i as nat) == Ok::<Seq<ItemV>, ErrV>(
                item_seq(items@),
            ),
        decreases docs.len() - i,
    {
        if !over(items.len(), limit) {
            assert(ds[i as int] == docs@[i as int]@);
            let item = match document_to_item(&docs[i]) {
                Ok(item) => item,
                Err(e) => {
                    proof {
                        lemma_scan_error(ds, keys, segment, limit, i as nat + 1, ds.len(), e@);
                    }
                    return Err(e);
                },
            };
            let wanted = match segment {
                None => true,
                Some((k, total)) => if i < keys.texts.len() {
                    in_segment(keys.texts[i].as_str(), k, total)
                } else {
                    proof {
                        lemma_scan_error(
                            ds,
                            keys,
                            segment,
                            limit,
                            i as nat + 1,
                            ds.len(),
                            keys.failure->0@,
                        );
                    }
                    return match keys.failure {
                        Some(e) => Err(e),
                        None => Err(StorageError::internal("missing partition key")),
                    };
                },
            };
            if wanted {
                let ghost before = items@;
                items.push(item);
                assert(item_seq(items@) =~= item_seq(before).push(item@));
            }
        }
        i += 1;
    }
    let full = match fetch_limit(limit, segment) {
        Some(f) => f > 0 && docs.len() as u64 >= f as u64,
        None => false,
    };
    if over(items.len(), limit) || !full {
        return Ok(make_page(items, limit, index, base));
    }
    assert(ds.last() == docs@[docs@.len() - 1]@);
    match document_to_item(&docs[docs.len() - 1]) {
        Err(e) => Err(e),
        Ok(item) => {
            let last = last_key(&item, index, base);
            Ok(Page { items, last: Some(last) })
        },
    }
}

// --- Laws --------------------------------------------------------------------------

/// A page never holds more items than its limit.
pub proof fn law_page_within_limit(items: Seq<ItemV>, limit: i64)
    requires
        limit >= 0,
    ensures
        page_of(items, Some(limit)).items.len() <= limit,
{
}

/// A page is the beginning of what was read, and it names a last item only
/// where something was left out.
pub proof fn law_page_is_beginning(items: Seq<ItemV>, limit: Option<i64>)
    ensures
        page_of(items, limit).items.is_prefix_of(items),
        page_of(items, limit).last is Some ==> page_of(items, limit).items.len() < items.len()
            && page_of(items, limit).last->0 == page_of(items, limit).items.last(),
        page_of(items, limit).last is None && limit != Some(0i64) ==> page_of(items, limit).items
            == items,
{
    let p = page_of(items, limit).items;
    assert(p =~= items.subrange(0, p.len() as int));
}

/// Reading one item more than the limit is enough: what follows does not
/// change the page.
pub proof fn law_page_stops_early(items: Seq<ItemV>, k: int, limit: Option<i64>)
    requires
        0 <= k <= items.len(),
        is_over(k as nat, limit),
    ensures
        page_of(items.take(k), limit) == page_of(items, limit),
{
    let l = limit->0 as int;
    assert(items.take(k).take(l) =~= items.take(l));
}

/// What a scan of a segment finds are items of documents whose partition key
/// belongs to the segment.
pub proof fn law_scan_keeps_to_segment(
    docs: Seq<DocV>,
    keys: PartitionTexts,
    segment: i64,
    total: i64,
    limit: Option<i64>,
    n: nat,
)
    requires
        n <= docs.len(),
        scanned(docs, keys, Some((segment, total)), limit, n) is Ok,
    ensures
        forall|j: int|
            0 <= j < scanned(docs, keys, Some((segment, total)), limit, n)->Ok_0.len()
                ==> is_from_segment(
                docs,
                keys,
                segment,
                total,
                #[trigger] scanned(docs, keys, Some((segment, total)), limit, n)->Ok_0[j],
            ),
    decreases n,
{
    if n > 0 {
        let at = Some((segment, total));
        law_scan_keeps_to_segment(docs, keys, segment, total, limit, (n - 1) as nat);
        let before = scanned(docs, keys, at, limit, (n - 1) as nat)->Ok_0;
        let now = scanned(docs, keys, at, limit, n)->Ok_0;
        assert forall|j: int| 0 <= j < now.len() implies is_from_segment(
            docs,
            keys,
            segment,
            total,
            #[trigger] now[j],
        ) by {
            if j < before.len() {
                assert(now[j] == before[j]);
            } else {
                assert(holds_in_segment(docs, keys, segment, total, n - 1, now[j]));
            }
        }
    }
}

/// Without a limit, what a scan finds in the first documents is what it finds
/// with one that it has not come to.
proof fn lemma_scan_unlimited(
    docs: Seq<DocV>,
    keys: PartitionTexts,
    segment: Option<(i64, i64)>,
    limit: Option<i64>,
    n: nat,
)
    requires
        scanned(docs, keys, segment, limit, n) is Ok,
        !is_over(scanned(docs, keys, segment, limit, n)->Ok_0.len(), limit),
    ensures
        scanned(docs, keys, segment, None, n) == scanned(docs, keys, segment, limit, n),
    decreases n,
{
    if n > 0 {
        lemma_scan_unlimited(docs, keys, segment, limit, (n - 1) as nat);
    }
}

/// The first items that a scan finds are all that the documents up to one
/// hold, and the last of them is that document's.
proof fn lemma_scan_first(
    docs: Seq<DocV>,
    keys: PartitionTexts,
    segment: Option<(i64, i64)>,
    limit: Option<i64>,
    n: nat,
    m: nat,
) -> (k: nat)
    requires
        scanned(docs, keys, segment, limit, n) is Ok,
        1 <= m <= scanned(docs, keys, segment, limit, n)->Ok_0.len(),
        limit matches Some(l) ==> m <= l + 1,
    ensures
        1 <= k <= n,
        scanned(docs, keys, segment, None, k) == Ok::<Seq<ItemV>, ErrV>(
            scanned(docs, keys, segment, limit, n)->Ok_0.take(m as int),
        ),
        document_item(docs[k - 1]) == Ok::<ItemV, ErrV>(
            scanned(docs, keys, segment, limit, n)->Ok_0[m - 1],
        ),
    decreases n,
{
    let now = scanned(docs, keys, segment, limit, n)->Ok_0;
    let before = scanned(docs, keys, segment, limit, (n - 1) as nat)->Ok_0;
    if before.len() >= m {
        let k = lemma_scan_first(docs, keys, segment, limit, (n - 1) as nat, m);
        assert(now.take(m as int) =~= before.take(m as int));
        k
    } else {
        lemma_scan_unlimited(docs, keys, segment, limit, (n - 1) as nat);
        assert(now.take(m as int) =~= now);
        n
    }
}

/// A page of a scan holds all items of the segment up to the document that
/// its key names, and all that were read where it names none. It names none
/// only where fewer documents came back than were asked for, so that none are
/// left.
pub proof fn law_scan_page_is_complete(
    docs: Seq<DocV>,
    keys: PartitionTexts,
    segment: Option<(i64, i64)>,
    limit: Option<i64>,
) -> (k: nat)
    requires
        limit matches Some(l) ==> l >= 1,
        segment matches Some((_, total)) ==> total >= 1,
        scan_page_of(docs, keys, segment, limit) is Ok,
    ensures
        k <= docs.len(),
        scanned(docs, keys, segment, None, k) == Ok::<Seq<ItemV>, ErrV>(
            scan_page_of(docs, keys, segment, limit)->Ok_0.items,
        ),
        match scan_page_of(docs, keys, segment, limit)->Ok_0.last {
            Some(item) => k > 0 && document_item(docs[k - 1]) == Ok::<ItemV, ErrV>(item),
            None => k == docs.len() && (scan_limit(limit, segment) matches Some(f) ==> docs.len()
                < f),
        },
{
    let items = scanned(docs, keys, segment, limit, docs.len())->Ok_0;
    if is_over(items.len(), limit) {
        lemma_scan_first(docs, keys, segment, limit, docs.len(), limit->0 as nat)
    } else {
        lemma_scan_unlimited(docs, keys, segment, limit, docs.len());
        if let Some(l) = limit {
            if let Some((_, total)) = segment {
                assert((l + 1) * total >= 1) by (nonlinear_arith)
                    requires
                        l >= 1,
                        total >= 1,
                ;
            } else if docs.len() > l {
                lemma_scan_length(docs, keys, docs.len());
            }
        }
        docs.len()
    }
}

/// A scan of all segments finds an item in every document.
proof fn lemma_scan_length(docs: Seq<DocV>, keys: PartitionTexts, n: nat)
    requires
        scanned(docs, keys, None, None, n) is Ok,
    ensures
        scanned(docs, keys, None, None, n)->Ok_0.len() == n,
    decreases n,
{
    if n > 0 {
        lemma_scan_length(docs, keys, (n - 1) as nat);
    }
}

/// A scan of a segment finds the item of every document whose partition key
/// belongs to it.
pub proof fn lemma_scan_finds(
    docs: Seq<DocV>,
    keys: PartitionTexts,
    segment: i64,
    total: i64,
    n: nat,
    d: int,
)
    requires
        n <= docs.len(),
        0 <= d < n,
        scanned(docs, keys, Some((segment, total)), None, n) is Ok,
        document_item(docs[d]) is Ok,
        keys.at(d) is Ok,
        checksum_in_segment(crc32_of(encode_utf8(keys.at(d)->Ok_0)), segment, total),
    ensures
        scanned(docs, keys, Some((segment, total)), None, n)->Ok_0.contains(
            document_item(docs[d])->Ok_0,
        ),
    decreases n,
{
    let at = Some((segment, total));
    let now = scanned(docs, keys, at, None, n)->Ok_0;
    let before = scanned(docs, keys, at, None, (n - 1) as nat)->Ok_0;
    let item = document_item(docs[d])->Ok_0;
    if d == n - 1 {
        assert(now.last() == item);
    } else {
        lemma_scan_finds(docs, keys, segment, total, (n - 1) as nat, d);
        let j = choose|j: int| 0 <= j < before.len() && before[j] == item;
        assert(now[j] == item);
    }
}

/// A scan of a segment succeeds where every document holds an item and has a
/// partition key.
pub proof fn lemma_scan_succeeds(
    docs: Seq<DocV>,
    keys: PartitionTexts,
    segment: i64,
    total: i64,
    n: nat,
)
    requires
        n <= docs.len(),
        forall|d: int|
            0 <= d < docs.len() ==> (#[trigger] document_item(docs[d])) is Ok && keys.at(d) is Ok,
    ensures
        scanned(docs, keys, Some((segment, total)), None, n) is Ok,
    decreases n,
{
    if n > 0 {
        lemma_scan_succeeds(docs, keys, segment, total, (n - 1) as nat);
        assert(document_item(docs[n - 1]) is Ok);
    }
}

/// The segments of a scan together hold all items: the item of every document
/// is found by the scan of a segment.
pub proof fn law_segments_hold_all(
    docs: Seq<DocV>,
    keys: PartitionTexts,
    total: i64,
    d: int,
) -> (segment: i64)
    requires
        0 < total <= u32::MAX,
        forall|i: int|
            0 <= i < docs.len() ==> (#[trigger] document_item(docs[i])) is Ok && keys.at(i) is Ok,
        0 <= d < docs.len(),
    ensures
        0 <= segment < total,
        scan_page_of(docs, keys, Some((segment, total)), None) is Ok,
        scan_page_of(docs, keys, Some((segment, total)), None)->Ok_0.items.contains(
            document_item(docs[d])->Ok_0,
        ),
        forall|other: i64|
            0 <= other < total && other != segment ==> !#[trigger] holds_in_segment(
                docs,
                keys,
                other,
                total,
                d,
                document_item(docs[d])->Ok_0,
            ),
{
    assert(document_item(docs[d]) is Ok);
    let hash = crc32_of(encode_utf8(keys.at(d)->Ok_0));
    law_segments_partition(hash, total);
    let s = choose|s: i64| 0 <= s < total && checksum_in_segment(hash, s, total);
    lemma_scan_succeeds(docs, keys, s, total, docs.len());
    lemma_scan_finds(docs, keys, s, total, docs.len(), d);
    s
}

/// Every partition key belongs to exactly one of the segments of a parallel
/// scan.
pub proof fn law_segments_partition(hash: u32, total: i64)
    requires
        0 < total <= u32::MAX,
    ensures
        exists|s: i64| 0 <= s < total && checksum_in_segment(hash, s, total),
        forall|a: i64, b: i64|
            0 <= a < total && 0 <= b < total && checksum_in_segment(hash, a, total)
                && checksum_in_segment(hash, b, total) ==> a == b,
{
    let s = (hash % (total as u32)) as i64;
    assert(0 <= s < total);
    assert(checksum_in_segment(hash, s, total));
}

/// Paging never undoes a condition on the sort key: the filter that a
/// condition compiles to stands in every page of the query unchanged.
pub proof fn law_paging_keeps_condition(
    q: QueryRequest,
    maps: ExpressionMaps,
    sk: SortKey,
)
    requires
        q.sort_key == Some(sk),
        q.sk_condition is Some,
        query_filter(q, maps) is Ok,
    ensures
        query_condition(q, maps) is Ok,
        query_filter(q, maps)->Ok_0.get(sk_field(sk.kind)) == query_condition(q, maps)->Ok_0.get(
            sk_field(sk.kind),
        ),
        query_filter(q, maps)->Ok_0.get("pk"@) == query_condition(q, maps)->Ok_0.get("pk"@),
{
    broadcast use crate::bson::group_document_fields;

    reveal_strlit("$and");
    reveal_strlit("sk_s");
    reveal_strlit("sk_n");
    reveal_strlit("sk_b");
    reveal_strlit("pk");
    assert("$and"@[0] == '$' && "sk_s"@[0] == 's' && "sk_n"@[0] == 's' && "sk_b"@[0] == 's'
        && "pk"@[0] == 'p');
}

/// A relation puts one of any two different values before the other, and none
/// before itself.
pub open spec fn is_strict_order(before: spec_fn(BsonV, BsonV) -> bool) -> bool {
    &&& forall|a: BsonV| !#[trigger] before(a, a)
    &&& forall|a: BsonV, b: BsonV| a != b ==> #[trigger] before(a, b) || before(b, a)
}

/// A sort key is past another in the direction of a query.
pub open spec fn is_past(
    before: spec_fn(BsonV, BsonV) -> bool,
    forward: bool,
    v: BsonV,
    bound: BsonV,
) -> bool {
    if forward {
        before(bound, v)
    } else {
        before(v, bound)
    }
}

/// A filter asks that a field is past a value.
pub open spec fn asks_past(filter: DocV, field: Seq<char>, forward: bool, bound: BsonV) -> bool {
    let past = obj1(
        if forward {
            "$gt"@
        } else {
            "$lt"@
        },
        bound,
    );
    ||| filter.get(field) == Some(past)
    ||| filter.get("$and"@) == Some(BsonV::Array(seq![obj1(field, past)]))
}

/// A document holds an item and, in the field of its type, the item's sort
/// key.
pub open spec fn is_entry(d: DocV, sk: SortKey) -> bool {
    &&& document_item(d) matches Ok(item)
    &&& item.get(sk.name@) matches Some(v)
    &&& sk_bson(v, sk.kind) matches Ok(b)
    &&& d.get(sk_field(sk.kind)) == Some(b)
}

/// The sort key of a document.
pub open spec fn entry_key(d: DocV, sk: SortKey) -> BsonV {
    d.get(sk_field(sk.kind))->0
}

proof fn lemma_items_at(docs: Seq<DocV>, n: nat, i: int)
    requires
        items_to(docs, n) is Ok,
        0 <= i < n,
    ensures
        items_to(docs, n)->Ok_0.len() == n,
        document_item(docs[i]) == Ok::<ItemV, ErrV>(items_to(docs, n)->Ok_0[i]),
    decreases n,
{
    if i < n - 1 {
        lemma_items_at(docs, (n - 1) as nat, i);
    } else if n > 1 {
        lemma_items_at(docs, (n - 1) as nat, 0);
    }
}

/// Following the keys of pages visits an item at most once and ends, on a
/// table and on an index: a page that names a key holds items, and the next
/// page asks for sort keys past the last of them, so that none of them is
/// found again. An item behind them is left out only where it has the sort key
/// of the last of them. `before` is the order of sort keys, in which the
/// documents came.
pub proof fn law_next_page_moves_on(
    before: spec_fn(BsonV, BsonV) -> bool,
    docs: Seq<DocV>,
    limit: i64,
    index: Seq<(Seq<char>, KeyType)>,
    base: Seq<(Seq<char>, KeyType)>,
    page: PageV,
    next: QueryRequest,
    maps: ExpressionMaps,
    sk: SortKey,
) -> (bound: BsonV)
    requires
        limit >= 1,
        is_page_result(
            query_page_of(docs, Some(limit)),
            index,
            base,
            Ok::<PageV, ErrV>(page),
        ),
        page.last is Some,
        is_key_name(index, sk.name@),
        next.sort_key == Some(sk),
        next.start_key matches Some(k) && k@ == page.last->0,
        is_strict_order(before),
        forall|i: int| 0 <= i < docs.len() ==> is_entry(#[trigger] docs[i], sk),
        forall|i: int, j: int|
            0 <= i < j < docs.len() ==> !is_past(
                before,
                next.forward,
                entry_key(#[trigger] docs[i], sk),
                entry_key(#[trigger] docs[j], sk),
            ),
    ensures
        page.items.len() == limit < docs.len(),
        query_filter(next, maps) matches Ok(f) ==> asks_past(
            f,
            sk_field(sk.kind),
            next.forward,
            bound,
        ),
        forall|i: int|
            0 <= i < limit ==> document_item(#[trigger] docs[i]) == Ok::<ItemV, ErrV>(
                page.items[i],
            ) && !is_past(before, next.forward, entry_key(docs[i], sk), bound),
        forall|i: int|
            limit <= i < docs.len() ==> entry_key(#[trigger] docs[i], sk) == bound || is_past(
                before,
                next.forward,
                entry_key(docs[i], sk),
                bound,
            ),
{
    broadcast use crate::bson::group_document_fields;

    let items = items_to(docs, docs.len())->Ok_0;
    assert forall|i: int| 0 <= i < docs.len() implies document_item(#[trigger] docs[i]) == Ok::<
        ItemV,
        ErrV,
    >(items[i]) && items.len() == docs.len() by {
        lemma_items_at(docs, docs.len(), i);
    }
    if docs.len() == 0 {
        assert(items.len() == 0);
    }
    assert(is_entry(docs[limit - 1], sk));
    assert(page.last->0.get(sk.name@) == items[limit - 1].get(sk.name@));
    entry_key(docs[limit - 1], sk)
}

} // verus!
