//! Walks: what the segments of a scan hold together, and what the pages of a
//! scan or a query hold when their keys are followed.

use vstd::multiset::Multiset;
use vstd::prelude::*;
use vstd::utf8::encode_utf8;

use crate::bson::{doc1, obj1, BsonV, DocV};
use crate::data::{document_item, item_document, sk_field, sk_text_of, ItemKey};
use crate::encoding::crc32_of;
use crate::error::ErrV;
use crate::expression::ExpressionMaps;
use crate::index_sync::{is_key_name, is_projected};
use crate::item::ItemV;
use crate::order::{lemma_lt_irreflexive, lemma_lt_transitive, text_lt};
use crate::protocol::CommandV;
use crate::query::{
    checksum_in_segment, entry_key, holds_in_segment, is_entry, is_from_segment, is_page_result,
    is_past, is_strict_order, items_to, keys_only, law_scan_keeps_to_segment,
    law_scan_page_is_complete, law_segments_partition, lemma_scan_finds, lemma_scan_succeeds,
    query_command_of, query_condition, query_filter, query_page_of, query_paging, scan_command_of,
    scan_filter, scan_limit, scan_page_of, scanned, PageV, PartitionTexts, QueryRequest, ScanStart,
};
use crate::schema::{KeyType, SortKey};

verus! {

// --- Segments ------------------------------------------------------------------------

/// The part of a scan that a segment finds.
pub open spec fn part_of(
    docs: Seq<DocV>,
    keys: PartitionTexts,
    segment: i64,
    total: i64,
) -> Seq<ItemV> {
    scan_page_of(docs, keys, Some((segment, total)), None)->Ok_0.items
}

/// The items of the parts of the first `n` segments.
pub open spec fn parts_together(
    docs: Seq<DocV>,
    keys: PartitionTexts,
    total: i64,
    n: nat,
) -> Multiset<ItemV>
    decreases n,
{
    if n == 0 {
        Multiset::empty()
    } else {
        parts_together(docs, keys, total, (n - 1) as nat).add(
            part_of(docs, keys, (n - 1) as i64, total).to_multiset(),
        )
    }
}

/// The items that the first `n` segments find in the first `m` documents.
spec fn found_together(
    docs: Seq<DocV>,
    keys: PartitionTexts,
    total: i64,
    m: nat,
    n: nat,
) -> Multiset<ItemV>
    decreases n,
{
    if n == 0 {
        Multiset::empty()
    } else {
        found_together(docs, keys, total, m, (n - 1) as nat).add(
            scanned(docs, keys, Some(((n - 1) as i64, total)), None, m)->Ok_0.to_multiset(),
        )
    }
}

/// Every document holds an item and has a partition key.
pub open spec fn is_readable(docs: Seq<DocV>, keys: PartitionTexts) -> bool {
    forall|i: int|
        0 <= i < docs.len() ==> (#[trigger] document_item(docs[i])) is Ok && keys.at(i) is Ok
}

/// A further document adds its item to what one segment finds, and nothing to
/// what the others find.
proof fn lemma_one_more(
    docs: Seq<DocV>,
    keys: PartitionTexts,
    total: i64,
    m: nat,
    n: nat,
    s: i64,
)
    requires
        is_readable(docs, keys),
        m < docs.len(),
        0 <= s < total <= u32::MAX,
        n <= total,
        checksum_in_segment(crc32_of(encode_utf8(keys.at(m as int)->Ok_0)), s, total),
    ensures
        found_together(docs, keys, total, m + 1, n) == (if s < n {
            found_together(docs, keys, total, m, n).insert(document_item(docs[m as int])->Ok_0)
        } else {
            found_together(docs, keys, total, m, n)
        }),
    decreases n,
{
    broadcast use vstd::seq_lib::group_to_multiset_ensures;

    if n > 0 {
        lemma_one_more(docs, keys, total, m, (n - 1) as nat, s);
        let hash = crc32_of(encode_utf8(keys.at(m as int)->Ok_0));
        law_segments_partition(hash, total);
        let item = document_item(docs[m as int])->Ok_0;
        let at = (n - 1) as i64;
        lemma_scan_succeeds(docs, keys, at, total, m);
        lemma_scan_succeeds(docs, keys, at, total, m + 1);
        let before = scanned(docs, keys, Some((at, total)), None, m)->Ok_0;
        let now = scanned(docs, keys, Some((at, total)), None, m + 1)->Ok_0;
        let rest = found_together(docs, keys, total, m, (n - 1) as nat);
        assert(document_item(docs[m as int]) is Ok);
        if at == s {
            assert(now == before.push(item));
            assert(now.to_multiset() =~= before.to_multiset().insert(item));
            assert(rest.add(before.to_multiset().insert(item)) =~= rest.add(
                before.to_multiset(),
            ).insert(item));
        } else {
            assert(!checksum_in_segment(hash, at, total));
            assert(now == before);
            assert(rest.insert(item).add(before.to_multiset()) =~= rest.add(
                before.to_multiset(),
            ).insert(item));
        }
    }
}

proof fn lemma_nothing_found(docs: Seq<DocV>, keys: PartitionTexts, total: i64, n: nat)
    ensures
        found_together(docs, keys, total, 0, n) == Multiset::<ItemV>::empty(),
    decreases n,
{
    broadcast use vstd::seq_lib::group_to_multiset_ensures;

    if n > 0 {
        lemma_nothing_found(docs, keys, total, (n - 1) as nat);
        let none = Seq::<ItemV>::empty();
        assert(none.to_multiset() =~= Multiset::empty()) by {
            assert(none.to_multiset().len() == 0);
        }
    }
}

proof fn lemma_found_is_scanned(docs: Seq<DocV>, keys: PartitionTexts, total: i64, m: nat)
    requires
        is_readable(docs, keys),
        m <= docs.len(),
        0 < total <= u32::MAX,
    ensures
        scanned(docs, keys, None, None, m) is Ok,
        scanned(docs, keys, None, None, m)->Ok_0.to_multiset() == found_together(
            docs,
            keys,
            total,
            m,
            total as nat,
        ),
    decreases m,
{
    broadcast use vstd::seq_lib::group_to_multiset_ensures;

    if m == 0 {
        lemma_nothing_found(docs, keys, total, total as nat);
        let none = Seq::<ItemV>::empty();
        assert(none.to_multiset() =~= Multiset::empty()) by {
            assert(none.to_multiset().len() == 0);
        }
    } else {
        let k = (m - 1) as nat;
        lemma_found_is_scanned(docs, keys, total, k);
        assert(document_item(docs[k as int]) is Ok);
        let hash = crc32_of(encode_utf8(keys.at(k as int)->Ok_0));
        law_segments_partition(hash, total);
        let s = choose|s: i64| 0 <= s < total && checksum_in_segment(hash, s, total);
        lemma_one_more(docs, keys, total, k, total as nat, s);
        let before = scanned(docs, keys, None, None, k)->Ok_0;
        let item = document_item(docs[k as int])->Ok_0;
        assert(scanned(docs, keys, None, None, m)->Ok_0 == before.push(item));
    }
}

proof fn lemma_found_is_parts(docs: Seq<DocV>, keys: PartitionTexts, total: i64, n: nat)
    requires
        is_readable(docs, keys),
        n <= total,
    ensures
        found_together(docs, keys, total, docs.len(), n) == parts_together(docs, keys, total, n),
    decreases n,
{
    if n > 0 {
        lemma_found_is_parts(docs, keys, total, (n - 1) as nat);
        lemma_scan_succeeds(docs, keys, (n - 1) as i64, total, docs.len());
    }
}

/// The parts of a parallel scan together are a permutation of the whole scan:
/// no item is lost, and none comes twice. An item is in a part just where it
/// is that of a document whose partition key has a checksum of the segment.
/// Without a limit, neither the whole scan nor a part has a next page.
pub proof fn law_parts_are_permutation(docs: Seq<DocV>, keys: PartitionTexts, total: i64)
    requires
        is_readable(docs, keys),
        0 < total <= u32::MAX,
    ensures
        scan_page_of(docs, keys, None, None) matches Ok(p) && p.last is None,
        parts_together(docs, keys, total, total as nat) == scan_page_of(
            docs,
            keys,
            None,
            None,
        )->Ok_0.items.to_multiset(),
        forall|s: i64|
            0 <= s < total ==> (#[trigger] scan_page_of(
                docs,
                keys,
                Some((s, total)),
                None,
            )) is Ok && scan_page_of(docs, keys, Some((s, total)), None)->Ok_0.last is None,
        forall|s: i64, item: ItemV|
            0 <= s < total ==> (#[trigger] part_of(docs, keys, s, total).contains(item)
                <==> is_from_segment(docs, keys, s, total, item)),
{
    lemma_found_is_scanned(docs, keys, total, docs.len());
    lemma_found_is_parts(docs, keys, total, total as nat);
    assert forall|s: i64| 0 <= s < total implies (#[trigger] scan_page_of(
        docs,
        keys,
        Some((s, total)),
        None,
    )) is Ok && scan_page_of(docs, keys, Some((s, total)), None)->Ok_0.last is None by {
        lemma_scan_succeeds(docs, keys, s, total, docs.len());
    }
    assert forall|s: i64, item: ItemV| 0 <= s < total implies (#[trigger] part_of(
        docs,
        keys,
        s,
        total,
    ).contains(item) <==> is_from_segment(docs, keys, s, total, item)) by {
        lemma_scan_succeeds(docs, keys, s, total, docs.len());
        law_scan_keeps_to_segment(docs, keys, s, total, None, docs.len());
        let part = part_of(docs, keys, s, total);
        assert(scanned(docs, keys, Some((s, total)), None, docs.len())->Ok_0 == part);
        if part.contains(item) {
            let j = choose|j: int| 0 <= j < part.len() && part[j] == item;
            assert(is_from_segment(docs, keys, s, total, part[j]));
        }
        if is_from_segment(docs, keys, s, total, item) {
            let d = choose|d: int| holds_in_segment(docs, keys, s, total, d, item);
            lemma_scan_finds(docs, keys, s, total, docs.len(), d);
        }
    }
}

// --- Walks through a scan --------------------------------------------------------------

/// As many of the documents as were asked for.
pub open spec fn capped(docs: Seq<DocV>, limit: Option<i64>) -> Seq<DocV> {
    match limit {
        Some(n) => if 0 < n < docs.len() {
            docs.take(n as int)
        } else {
            docs
        },
        None => docs,
    }
}

/// The text under which a document is kept.
pub open spec fn id_of(d: DocV) -> Seq<char> {
    match d.get_str("_id"@) {
        Some(t) => t,
        None => Seq::empty(),
    }
}

/// A filter admits a document: its `_id` is greater than the one that the
/// filter names, where it names one.
pub open spec fn admits_id(filter: DocV, d: DocV) -> bool {
    match filter.get_document("_id"@) {
        Some(c) => c.get_str("$gt"@) matches Some(x) && text_lt(x, id_of(d)),
        None => true,
    }
}

/// What a collection answers to the command of a scan.
pub open spec fn scan_answer(all: Seq<DocV>, c: CommandV) -> Seq<DocV> {
    match c {
        CommandV::Find { filter, paging, .. } => capped(
            all.filter(|d: DocV| admits_id(filter, d)),
            paging.limit,
        ),
        _ => Seq::empty(),
    }
}

/// The `_id` under which an item is kept; `pk` gives the text of its partition
/// key.
pub open spec fn kept_id(
    item: ItemV,
    pk: spec_fn(ItemV) -> Seq<char>,
    sort_key: Option<SortKey>,
) -> Option<Seq<char>> {
    match sort_key {
        None => Some(pk(item)),
        Some(sk) => match item.get(sk.name@) {
            None => None,
            Some(v) => match sk_text_of(v) {
                Ok(t) => Some(pk(item) + "#"@ + t),
                Err(_) => None,
            },
        },
    }
}

/// A document holds an item and is kept under its key.
pub open spec fn is_kept(
    d: DocV,
    pk: spec_fn(ItemV) -> Seq<char>,
    sort_key: Option<SortKey>,
) -> bool {
    &&& document_item(d) matches Ok(item)
    &&& kept_id(item, pk, sort_key) matches Some(id)
    &&& d.get_str("_id"@) == Some(id)
}

/// The documents of a table or an index, in the order of their `_id`s.
pub open spec fn is_collection(
    all: Seq<DocV>,
    pk: spec_fn(ItemV) -> Seq<char>,
    sort_key: Option<SortKey>,
) -> bool {
    &&& forall|i: int| 0 <= i < all.len() ==> is_kept(#[trigger] all[i], pk, sort_key)
    &&& forall|i: int, j: int|
        0 <= i < j < all.len() ==> text_lt(id_of(#[trigger] all[i]), id_of(#[trigger] all[j]))
}

/// What is asked for in every page of a scan.
pub struct ScanV {
    pub collection_id: Seq<char>,
    /// The key of the table or the index.
    pub index: Seq<(Seq<char>, KeyType)>,
    /// The key of the table.
    pub base: Seq<(Seq<char>, KeyType)>,
    pub sort_key: Option<SortKey>,
    pub limit: Option<i64>,
    pub segment: Option<(i64, i64)>,
}

/// A scan asks for at least one item, of at least one segment, and its sort
/// key is in its key.
pub open spec fn is_scan(s: ScanV) -> bool {
    &&& s.limit matches Some(l) ==> 1 <= l < i64::MAX
    &&& s.segment matches Some((_, total)) ==> total >= 1
    &&& scan_limit(s.limit, s.segment) matches Some(n) ==> n <= i64::MAX
    &&& s.sort_key matches Some(sk) ==> is_key_name(s.index, sk.name@)
}

/// The text of a partition key depends on the attributes of the keys alone.
pub open spec fn reads_keys(pk: spec_fn(ItemV) -> Seq<char>, s: ScanV) -> bool {
    forall|item: ItemV, key: ItemV| #[trigger]
        is_projected(item, s.index, s.base, keys_only(), key) ==> pk(key) == pk(item)
}

/// The texts are those of the partition keys of the items of the documents.
pub open spec fn fits(
    keys: PartitionTexts,
    docs: Seq<DocV>,
    part: spec_fn(ItemV) -> Seq<char>,
) -> bool {
    forall|i: int|
        0 <= i < docs.len() ==> #[trigger] keys.at(i) == Ok::<Seq<char>, ErrV>(
            part(document_item(docs[i])->Ok_0),
        )
}

/// A page of a scan, with what led to it.
pub struct ScanVisit {
    pub start: Option<ScanStart>,
    pub docs: Seq<DocV>,
    pub keys: PartitionTexts,
    pub page: PageV,
}

/// The page was read from what the collection answered to the command of the
/// scan. `part` gives the text by which segments are told apart.
pub open spec fn is_scan_visit(
    all: Seq<DocV>,
    part: spec_fn(ItemV) -> Seq<char>,
    s: ScanV,
    v: ScanVisit,
) -> bool {
    &&& scan_command_of(s.collection_id, v.start, s.sort_key, s.limit, s.segment) matches Ok(c)
    &&& v.docs == scan_answer(all, c)
    &&& s.segment is Some ==> fits(v.keys, v.docs, part)
    &&& is_page_result(
        scan_page_of(v.docs, v.keys, s.segment, s.limit),
        s.index,
        s.base,
        Ok::<PageV, ErrV>(v.page),
    )
}

/// A page is asked for from a key on.
pub open spec fn starts_at(
    start: Option<ScanStart>,
    pk: spec_fn(ItemV) -> Seq<char>,
    key: ItemV,
) -> bool {
    start matches Some(s) && s.item@ == key && s.pk_text@ == pk(key)
}

/// Pages of a scan, each of which is asked for from the key of the one before
/// on.
pub open spec fn is_scan_walk(
    all: Seq<DocV>,
    pk: spec_fn(ItemV) -> Seq<char>,
    part: spec_fn(ItemV) -> Seq<char>,
    s: ScanV,
    w: Seq<ScanVisit>,
) -> bool {
    &&& w.len() > 0
    &&& w[0].start is None
    &&& forall|i: int| 0 <= i < w.len() ==> is_scan_visit(all, part, s, #[trigger] w[i])
    &&& forall|i: int|
        0 < i < w.len() ==> (w[i - 1].page.last matches Some(key) && starts_at(
            (#[trigger] w[i]).start,
            pk,
            key,
        ))
}

/// The items of the first `n` pages.
pub open spec fn scan_walked(w: Seq<ScanVisit>, n: nat) -> Seq<ItemV>
    decreases n,
{
    if n == 0 {
        Seq::empty()
    } else {
        scan_walked(w, (n - 1) as nat) + w[n - 1].page.items
    }
}

/// What holds of the elements from a place on only, selects these.
proof fn lemma_filter_tail<A>(s: Seq<A>, p: spec_fn(A) -> bool, m: int)
    requires
        0 <= m <= s.len(),
        forall|i: int| 0 <= i < m ==> !p(#[trigger] s[i]),
        forall|i: int| m <= i < s.len() ==> p(#[trigger] s[i]),
    ensures
        s.filter(p) == s.skip(m),
    decreases s.len(),
{
    reveal(Seq::filter);
    if s.len() > 0 {
        let t = s.drop_last();
        assert forall|i: int| 0 <= i < t.len() implies t[i] == s[i] by {}
        if m == s.len() {
            lemma_filter_tail(t, p, t.len() as int);
            assert(!p(s[s.len() - 1]));
            assert(s.skip(m) =~= t.skip(t.len() as int));
        } else {
            lemma_filter_tail(t, p, m);
            assert(p(s[s.len() - 1]));
            assert(s.skip(m) =~= t.skip(m).push(s.last()));
        }
    } else {
        assert(s.skip(m) =~= s);
    }
}

/// The filter of a page leads past the document whose item the key is that of.
proof fn lemma_scan_goes_past(
    all: Seq<DocV>,
    pk: spec_fn(ItemV) -> Seq<char>,
    s: ScanV,
    start: ScanStart,
    k: int,
)
    requires
        is_collection(all, pk, s.sort_key),
        reads_keys(pk, s),
        is_scan(s),
        0 < k <= all.len(),
        is_projected(
            document_item(all[k - 1])->Ok_0,
            s.index,
            s.base,
            keys_only(),
            start.item@,
        ),
        start.pk_text@ == pk(start.item@),
    ensures
        scan_filter(Some(start), s.sort_key) == Ok::<DocV, ErrV>(
            doc1("_id"@, obj1("$gt"@, BsonV::Str(id_of(all[k - 1])))),
        ),
{
    let d = all[k - 1];
    assert(is_kept(d, pk, s.sort_key));
    let item = document_item(d)->Ok_0;
    assert(pk(start.item@) == pk(item));
    if let Some(sk) = s.sort_key {
        assert(start.item@.get(sk.name@) == item.get(sk.name@));
    }
}

/// The documents that the filter of a page admits are those behind the one
/// that it leads past.
proof fn lemma_scan_reads_rest(
    all: Seq<DocV>,
    pk: spec_fn(ItemV) -> Seq<char>,
    part: spec_fn(ItemV) -> Seq<char>,
    s: ScanV,
    v: ScanVisit,
    k: int,
)
    requires
        is_collection(all, pk, s.sort_key),
        is_scan(s),
        0 <= k <= all.len(),
        is_scan_visit(all, part, s, v),
        scan_filter(v.start, s.sort_key) == Ok::<DocV, ErrV>(
            if k == 0 {
                DocV::empty()
            } else {
                doc1("_id"@, obj1("$gt"@, BsonV::Str(id_of(all[k - 1]))))
            },
        ),
    ensures
        v.docs == capped(
            all.skip(k),
            match scan_limit(s.limit, s.segment) {
                Some(n) => Some(n as i64),
                None => None,
            },
        ),
{
    broadcast use crate::bson::group_document_fields;

    let filter = scan_filter(v.start, s.sort_key)->Ok_0;
    let p = |d: DocV| admits_id(filter, d);
    if k == 0 {
        assert forall|i: int| 0 <= i < all.len() implies p(#[trigger] all[i]) by {}
        lemma_filter_tail(all, p, 0);
    } else {
        let c = doc1("$gt"@, BsonV::Str(id_of(all[k - 1])));
        assert(c.get_str("$gt"@) == Some(id_of(all[k - 1])));
        assert(filter.get_document("_id"@) == Some(c));
        assert forall|i: int| 0 <= i < k implies !p(#[trigger] all[i]) by {
            if i < k - 1 {
                if text_lt(id_of(all[k - 1]), id_of(all[i])) {
                    lemma_lt_transitive(id_of(all[i]), id_of(all[k - 1]), id_of(all[i]));
                    lemma_lt_irreflexive(id_of(all[i]));
                }
            } else {
                lemma_lt_irreflexive(id_of(all[i]));
            }
        }
        assert forall|i: int| k <= i < all.len() implies p(#[trigger] all[i]) by {
            assert(text_lt(id_of(all[k - 1]), id_of(all[i])));
        }
        lemma_filter_tail(all, p, k);
    }
}

/// What a scan finds in further documents comes behind what it found before.
proof fn lemma_scan_continues(
    all: Seq<DocV>,
    keys: PartitionTexts,
    segment: Option<(i64, i64)>,
    docs: Seq<DocV>,
    more: PartitionTexts,
    k: nat,
    m: nat,
)
    requires
        k + m <= all.len(),
        m <= docs.len(),
        forall|i: int| 0 <= i < m ==> #[trigger] docs[i] == all[k + i],
        segment is Some ==> forall|i: int| 0 <= i < m ==> #[trigger] more.at(i) == keys.at(k + i),
        scanned(all, keys, segment, None, k) is Ok,
        scanned(docs, more, segment, None, m) is Ok,
    ensures
        scanned(all, keys, segment, None, k + m) == Ok::<Seq<ItemV>, ErrV>(
            scanned(all, keys, segment, None, k)->Ok_0 + scanned(
                docs,
                more,
                segment,
                None,
                m,
            )->Ok_0,
        ),
    decreases m,
{
    let before = scanned(all, keys, segment, None, k)->Ok_0;
    if m == 0 {
        assert(before + Seq::<ItemV>::empty() =~= before);
    } else {
        let j = (m - 1) as nat;
        lemma_scan_continues(all, keys, segment, docs, more, k, j);
        assert(docs[m - 1] == all[k + m - 1]);
        if segment is Some {
            assert(more.at(m - 1) == keys.at(k + m - 1));
        }
        let found = scanned(docs, more, segment, None, j)->Ok_0;
        let item = document_item(docs[m - 1])->Ok_0;
        assert(before + found.push(item) =~= (before + found).push(item));
    }
}

/// The first `n` pages of a walk hold what a scan of the first documents
/// finds.
#[verifier::rlimit(40)]
proof fn lemma_scan_walk(
    all: Seq<DocV>,
    keys: PartitionTexts,
    pk: spec_fn(ItemV) -> Seq<char>,
    part: spec_fn(ItemV) -> Seq<char>,
    s: ScanV,
    w: Seq<ScanVisit>,
    n: nat,
) -> (k: nat)
    requires
        is_collection(all, pk, s.sort_key),
        reads_keys(pk, s),
        is_scan(s),
        s.segment is Some ==> fits(keys, all, part),
        is_scan_walk(all, pk, part, s, w),
        0 < n <= w.len(),
    ensures
        k <= all.len(),
        scanned(all, keys, s.segment, None, k) == Ok::<Seq<ItemV>, ErrV>(scan_walked(w, n)),
        match w[n - 1].page.last {
            Some(key) => n <= k && is_projected(
                document_item(all[k - 1])->Ok_0,
                s.index,
                s.base,
                keys_only(),
                key,
            ),
            None => n <= k + 1 && k == all.len(),
        },
    decreases n,
{
    let v = w[n - 1];
    assert(is_scan_visit(all, part, s, v));
    let from: nat = if n == 1 {
        0
    } else {
        let k = lemma_scan_walk(all, keys, pk, part, s, w, (n - 1) as nat);
        assert(starts_at(w[n - 1].start, pk, w[n - 2].page.last->0));
        lemma_scan_goes_past(all, pk, s, v.start->0, k as int);
        k
    };
    lemma_scan_reads_rest(all, pk, part, s, v, from as int);
    let m = law_scan_page_is_complete(v.docs, v.keys, s.segment, s.limit);
    assert forall|i: int| 0 <= i < v.docs.len() implies #[trigger] v.docs[i] == all[from + i] by {}
    if s.segment is Some {
        assert forall|i: int| 0 <= i < m implies #[trigger] v.keys.at(i) == keys.at(from + i) by {
            assert(v.docs[i] == all[from + i]);
        }
    }
    lemma_scan_continues(all, keys, s.segment, v.docs, v.keys, from, m);
    if n == 1 {
        assert(scan_walked(w, 0) =~= Seq::empty());
    }
    if m > 0 {
        assert(v.docs[m - 1] == all[from + m - 1]);
    }
    from + m
}

/// Following the keys of the pages of a scan ends, and the pages together hold
/// every item of the segment exactly once: they are, one behind the other,
/// what a scan of the segment without a limit finds. Up to a page with a key,
/// they are what it finds in the documents up to that key, and the scan can go
/// on from there. `pk` gives the text of the partition key under which a
/// document is kept, `part` the text by which segments are told apart.
pub proof fn law_scan_walk_holds_all(
    all: Seq<DocV>,
    keys: PartitionTexts,
    pk: spec_fn(ItemV) -> Seq<char>,
    part: spec_fn(ItemV) -> Seq<char>,
    s: ScanV,
    w: Seq<ScanVisit>,
) -> (k: nat)
    requires
        is_collection(all, pk, s.sort_key),
        reads_keys(pk, s),
        is_scan(s),
        s.segment is Some ==> fits(keys, all, part),
        is_scan_walk(all, pk, part, s, w),
    ensures
        w.len() <= all.len() + 1,
        k <= all.len(),
        scanned(all, keys, s.segment, None, k) == Ok::<Seq<ItemV>, ErrV>(
            scan_walked(w, w.len()),
        ),
        w.last().page.last is None ==> scan_page_of(all, keys, s.segment, None) == Ok::<
            PageV,
            ErrV,
        >(PageV { items: scan_walked(w, w.len()), last: None }),
        w.last().page.last matches Some(key) ==> forall|next: ScanStart| #[trigger]
            starts_at(Some(next), pk, key) ==> scan_filter(Some(next), s.sort_key) == Ok::<
                DocV,
                ErrV,
            >(doc1("_id"@, obj1("$gt"@, BsonV::Str(id_of(all[k - 1]))))),
{
    let k = lemma_scan_walk(all, keys, pk, part, s, w, w.len());
    if let Some(key) = w.last().page.last {
        assert forall|next: ScanStart| #[trigger] starts_at(Some(next), pk, key) implies scan_filter(
            Some(next),
            s.sort_key,
        ) == Ok::<DocV, ErrV>(
            doc1("_id"@, obj1("$gt"@, BsonV::Str(id_of(all[k - 1])))),
        ) by {
            lemma_scan_goes_past(all, pk, s, next, k as int);
        }
    }
    k
}

/// An item that is stored is kept under its key.
pub proof fn law_stored_item_is_kept(
    item: ItemV,
    key: ItemKey,
    pk: spec_fn(ItemV) -> Seq<char>,
)
    requires
        item_document(item, key) is Ok,
        key.pk_text@ == pk(item),
    ensures
        kept_id(item, pk, key.sort_key) is Some,
        item_document(item, key)->Ok_0.get_str("_id"@) == kept_id(item, pk, key.sort_key),
{
    broadcast use crate::bson::group_document_fields;

    reveal_strlit("_id");
    reveal_strlit("pk");
    reveal_strlit("sk_s");
    reveal_strlit("sk_n");
    reveal_strlit("sk_b");
    reveal_strlit("item_data");
    assert("_id"@.len() == 3 && "pk"@.len() == 2 && "sk_s"@.len() == 4 && "sk_n"@.len() == 4
        && "sk_b"@.len() == 4 && "item_data"@.len() == 9);
}

// --- Walks through a query -------------------------------------------------------------

/// The clause by which a filter leads past the start key: on the sort key
/// field itself where the query has no condition on it, in addition to the
/// condition where it has one.
pub open spec fn start_clause(q: QueryRequest, filter: DocV, sk: SortKey) -> Option<BsonV> {
    if q.sk_condition is Some {
        match filter.get_array("$and"@) {
            Some(a) => match a[0] {
                BsonV::Doc(d) => d.get(sk_field(sk.kind)),
                _ => None,
            },
            None => None,
        }
    } else {
        filter.get(sk_field(sk.kind))
    }
}

/// A value satisfies the bounds of a clause, in the order of sort keys.
pub open spec fn is_between(
    before: spec_fn(BsonV, BsonV) -> bool,
    clause: BsonV,
    v: BsonV,
) -> bool {
    clause matches BsonV::Doc(c) ==> {
        &&& c.get("$gt"@) matches Some(b) ==> before(b, v)
        &&& c.get("$lt"@) matches Some(b) ==> before(v, b)
    }
}

/// A query with a start key admits an entry that satisfies its condition.
pub open spec fn admits_entry(
    before: spec_fn(BsonV, BsonV) -> bool,
    q: QueryRequest,
    filter: DocV,
    sk: SortKey,
    d: DocV,
) -> bool {
    q.start_key is Some ==> (start_clause(q, filter, sk) matches Some(c) ==> is_between(
        before,
        c,
        entry_key(d, sk),
    ))
}

/// What the entries that satisfy the condition of a query answer to its
/// command.
pub open spec fn query_answer(
    before: spec_fn(BsonV, BsonV) -> bool,
    entries: Seq<DocV>,
    q: QueryRequest,
    sk: SortKey,
    c: CommandV,
) -> Seq<DocV> {
    match c {
        CommandV::Find { filter, paging, .. } => capped(
            entries.filter(|d: DocV| admits_entry(before, q, filter, sk, d)),
            paging.limit,
        ),
        _ => Seq::empty(),
    }
}

/// The entries of a partition that satisfy the condition of a query, in the
/// order in which it hands them out. Entries may have the same sort key.
pub open spec fn are_entries(
    before: spec_fn(BsonV, BsonV) -> bool,
    entries: Seq<DocV>,
    sk: SortKey,
    forward: bool,
) -> bool {
    &&& forall|i: int| 0 <= i < entries.len() ==> is_entry(#[trigger] entries[i], sk)
    &&& forall|i: int, j: int|
        0 <= i < j < entries.len() ==> !is_past(
            before,
            forward,
            entry_key(#[trigger] entries[i], sk),
            entry_key(#[trigger] entries[j], sk),
        )
}

/// No two entries have the same sort key.
pub open spec fn are_distinct(entries: Seq<DocV>, sk: SortKey) -> bool {
    forall|i: int, j: int|
        0 <= i < j < entries.len() ==> entry_key(#[trigger] entries[i], sk) != entry_key(
            #[trigger] entries[j],
            sk,
        )
}

/// Two requests differ in their start keys alone.
pub open spec fn is_same_query(a: QueryRequest, b: QueryRequest) -> bool {
    &&& a.collection_id@ == b.collection_id@
    &&& a.pk_text@ == b.pk_text@
    &&& a.sort_key == b.sort_key
    &&& a.sk_condition == b.sk_condition
    &&& a.forward == b.forward
    &&& a.limit == b.limit
}

/// A page of a query, with what led to it.
pub struct QueryVisit {
    pub request: QueryRequest,
    pub docs: Seq<DocV>,
    pub page: PageV,
}

/// What a walk through a query goes through.
pub struct QueryV {
    pub sk: SortKey,
    pub maps: ExpressionMaps,
    /// The key of the table or the index.
    pub index: Seq<(Seq<char>, KeyType)>,
    /// The key of the table.
    pub base: Seq<(Seq<char>, KeyType)>,
}

/// The page was read from what the entries answered to the command of the
/// request.
pub open spec fn is_query_visit(
    before: spec_fn(BsonV, BsonV) -> bool,
    entries: Seq<DocV>,
    s: QueryV,
    v: QueryVisit,
) -> bool {
    &&& query_command_of(v.request, s.maps) matches Ok(c)
    &&& v.docs == query_answer(before, entries, v.request, s.sk, c)
    &&& is_page_result(
        query_page_of(v.docs, v.request.limit),
        s.index,
        s.base,
        Ok::<PageV, ErrV>(v.page),
    )
}

/// A request goes on from a key.
pub open spec fn goes_on_from(q: QueryRequest, key: ItemV) -> bool {
    q.start_key matches Some(k) && k@ == key
}

/// Pages of a query, each of which is asked for from the key of the one before
/// on.
pub open spec fn is_query_walk(
    before: spec_fn(BsonV, BsonV) -> bool,
    entries: Seq<DocV>,
    s: QueryV,
    w: Seq<QueryVisit>,
) -> bool {
    &&& w.len() > 0
    &&& w[0].request.start_key is None
    &&& w[0].request.sort_key == Some(s.sk)
    &&& w[0].request.limit matches Some(l) ==> 1 <= l < i64::MAX
    &&& forall|i: int|
        0 <= i < w.len() ==> is_query_visit(before, entries, s, #[trigger] w[i]) && is_same_query(
            w[0].request,
            w[i].request,
        )
    &&& forall|i: int|
        0 < i < w.len() ==> (w[i - 1].page.last matches Some(key) && goes_on_from(
            (#[trigger] w[i]).request,
            key,
        ))
}

/// The items of the first `n` pages.
pub open spec fn query_walked(w: Seq<QueryVisit>, n: nat) -> Seq<ItemV>
    decreases n,
{
    if n == 0 {
        Seq::empty()
    } else {
        query_walked(w, (n - 1) as nat) + w[n - 1].page.items
    }
}

/// The items of entries.
pub open spec fn entry_items(entries: Seq<DocV>) -> Seq<ItemV> {
    Seq::new(entries.len(), |i: int| document_item(entries[i])->Ok_0)
}

proof fn lemma_items_of_entries(entries: Seq<DocV>, n: nat)
    requires
        n <= entries.len(),
        forall|i: int| 0 <= i < entries.len() ==> (#[trigger] document_item(entries[i])) is Ok,
    ensures
        items_to(entries, n) == Ok::<Seq<ItemV>, ErrV>(entry_items(entries).take(n as int)),
    decreases n,
{
    let items = entry_items(entries);
    if n > 0 {
        lemma_items_of_entries(entries, (n - 1) as nat);
        assert(document_item(entries[n - 1]) is Ok);
        assert(items.take(n as int) =~= items.take(n - 1).push(items[n - 1]));
    } else {
        assert(items.take(0) =~= Seq::empty());
    }
}

/// The first entry from a place on that is past the one before that place.
proof fn lemma_first_past(
    before: spec_fn(BsonV, BsonV) -> bool,
    entries: Seq<DocV>,
    sk: SortKey,
    forward: bool,
    k: int,
    c: int,
) -> (m: int)
    requires
        is_strict_order(before),
        are_entries(before, entries, sk, forward),
        0 < k <= c <= entries.len(),
        forall|i: int|
            k <= i < c ==> !is_past(
                before,
                forward,
                entry_key(#[trigger] entries[i], sk),
                entry_key(entries[k - 1], sk),
            ),
    ensures
        c <= m <= entries.len(),
        forall|i: int|
            k <= i < m ==> !is_past(
                before,
                forward,
                entry_key(#[trigger] entries[i], sk),
                entry_key(entries[k - 1], sk),
            ),
        forall|i: int|
            m <= i < entries.len() ==> is_past(
                before,
                forward,
                entry_key(#[trigger] entries[i], sk),
                entry_key(entries[k - 1], sk),
            ),
    decreases entries.len() - c,
{
    let bound = entry_key(entries[k - 1], sk);
    if c == entries.len() {
        c
    } else if is_past(before, forward, entry_key(entries[c], sk), bound) {
        assert forall|i: int| c <= i < entries.len() implies is_past(
            before,
            forward,
            entry_key(#[trigger] entries[i], sk),
            bound,
        ) by {
            if i > c {
                let v = entry_key(entries[i], sk);
                assert(!is_past(before, forward, bound, v));
                assert(!is_past(before, forward, entry_key(entries[c], sk), v));
                assert(v == bound || before(v, bound) || before(bound, v));
            }
        }
        c
    } else {
        lemma_first_past(before, entries, sk, forward, k, c + 1)
    }
}

/// The filter of a request asks for entries past the one whose item the start
/// key is that of.
proof fn lemma_query_goes_past(
    before: spec_fn(BsonV, BsonV) -> bool,
    s: QueryV,
    q: QueryRequest,
    d: DocV,
)
    requires
        is_key_name(s.index, s.sk.name@),
        is_entry(d, s.sk),
        q.sort_key == Some(s.sk),
        q.start_key matches Some(k) && is_projected(
            document_item(d)->Ok_0,
            s.index,
            s.base,
            keys_only(),
            k@,
        ),
        query_condition(q, s.maps) is Ok,
    ensures
        query_filter(q, s.maps) matches Ok(f) && forall|e: DocV| #[trigger]
            admits_entry(before, q, f, s.sk, e) == is_past(
                before,
                q.forward,
                entry_key(e, s.sk),
                entry_key(d, s.sk),
            ),
{
    broadcast use crate::bson::group_document_fields;

    let k = q.start_key->0;
    let item = document_item(d)->Ok_0;
    let sk = s.sk;
    assert(k@.get(sk.name@) == item.get(sk.name@));
    let bound = entry_key(d, sk);
    let word = if q.forward {
        "$gt"@
    } else {
        "$lt"@
    };
    let f = query_filter(q, s.maps)->Ok_0;
    let past = obj1(word, bound);
    reveal_strlit("$gt");
    reveal_strlit("$lt");
    assert("$gt"@[1] == 'g' && "$lt"@[1] == 'l');
    if q.sk_condition is Some {
        let only = seq![obj1(sk_field(sk.kind), past)];
        assert(f.get_array("$and"@) == Some(only));
        assert(only[0] == BsonV::Doc(doc1(sk_field(sk.kind), past)));
        assert(doc1(sk_field(sk.kind), past).get(sk_field(sk.kind)) == Some(past));
    }
    assert(start_clause(q, f, sk) == Some(past));
    let c = doc1(word, bound);
    assert(past == BsonV::Doc(c));
    assert(c.get(word) == Some(bound));
    if q.forward {
        assert(c.get("$lt"@) is None);
    } else {
        assert(c.get("$gt"@) is None);
    }
}

/// The entries that a request admits are those from a place on. The place is
/// behind the entry whose item the start key is that of, and is right behind it
/// where no two entries have the same sort key.
proof fn lemma_query_reads_rest(
    before: spec_fn(BsonV, BsonV) -> bool,
    entries: Seq<DocV>,
    s: QueryV,
    v: QueryVisit,
    k: int,
) -> (m: int)
    requires
        is_strict_order(before),
        is_key_name(s.index, s.sk.name@),
        is_query_visit(before, entries, s, v),
        v.request.sort_key == Some(s.sk),
        are_entries(before, entries, s.sk, v.request.forward),
        0 <= k <= entries.len(),
        if k == 0 {
            v.request.start_key is None
        } else {
            v.request.start_key matches Some(key) && is_projected(
                document_item(entries[k - 1])->Ok_0,
                s.index,
                s.base,
                keys_only(),
                key@,
            )
        },
    ensures
        k <= m <= entries.len(),
        are_distinct(entries, s.sk) ==> m == k,
        v.docs == capped(entries.skip(m), query_paging(v.request).limit),
{
    let q = v.request;
    let f = query_filter(q, s.maps)->Ok_0;
    let p = |d: DocV| admits_entry(before, q, f, s.sk, d);
    if k == 0 {
        assert forall|i: int| 0 <= i < entries.len() implies p(#[trigger] entries[i]) by {}
        lemma_filter_tail(entries, p, 0);
        0
    } else {
        let d = entries[k - 1];
        assert(is_entry(d, s.sk));
        lemma_query_goes_past(before, s, q, d);
        let m = lemma_first_past(before, entries, s.sk, q.forward, k, k);
        let bound = entry_key(d, s.sk);
        assert forall|i: int| 0 <= i < entries.len() implies p(#[trigger] entries[i]) == is_past(
            before,
            q.forward,
            entry_key(entries[i], s.sk),
            bound,
        ) by {
            assert(admits_entry(before, q, f, s.sk, entries[i]) == is_past(
                before,
                q.forward,
                entry_key(entries[i], s.sk),
                bound,
            ));
        }
        assert forall|i: int| 0 <= i < m implies !p(#[trigger] entries[i]) by {
            if i < k - 1 {
                assert(!is_past(before, q.forward, entry_key(entries[i], s.sk), bound));
            }
        }
        if are_distinct(entries, s.sk) && m > k {
            let x = entry_key(entries[k], s.sk);
            assert(x != bound);
            assert(!is_past(before, q.forward, bound, x));
            assert(!is_past(before, q.forward, x, bound));
            assert(before(x, bound) || before(bound, x));
        }
        lemma_filter_tail(entries, p, m);
        m
    }
}

/// A page holds the items of the entries from a place on, and names a key only
/// where it holds some.
proof fn lemma_query_page(entries: Seq<DocV>, s: QueryV, v: QueryVisit, m: int)
    requires
        0 <= m <= entries.len(),
        forall|i: int| 0 <= i < entries.len() ==> is_entry(#[trigger] entries[i], s.sk),
        v.request.limit matches Some(l) ==> 1 <= l < i64::MAX,
        v.docs == capped(entries.skip(m), query_paging(v.request).limit),
        is_page_result(
            query_page_of(v.docs, v.request.limit),
            s.index,
            s.base,
            Ok::<PageV, ErrV>(v.page),
        ),
    ensures
        m + v.page.items.len() <= entries.len(),
        v.page.items == entry_items(entries).subrange(m, m + v.page.items.len()),
        match v.page.last {
            Some(key) => v.page.items.len() > 0 && is_projected(
                document_item(entries[m + v.page.items.len() - 1])->Ok_0,
                s.index,
                s.base,
                keys_only(),
                key,
            ),
            None => m + v.page.items.len() == entries.len(),
        },
{
    let items = entry_items(entries);
    assert forall|i: int| 0 <= i < v.docs.len() implies (#[trigger] document_item(v.docs[i])) is Ok
        && v.docs[i] == entries[m + i] by {
        assert(v.docs[i] == entries[m + i]);
        assert(is_entry(entries[m + i], s.sk));
    }
    lemma_items_of_entries(v.docs, v.docs.len());
    let read = entry_items(v.docs);
    assert(read.take(read.len() as int) =~= read);
    assert forall|i: int| 0 <= i < read.len() implies read[i] == items[m + i] by {
        assert(document_item(v.docs[i]) is Ok);
    }
    let page = v.page.items;
    assert(page.len() <= read.len());
    assert(page =~= items.subrange(m, m + page.len()));
}

/// What a further page adds to a walk.
proof fn lemma_walk_grows(
    items: Seq<ItemV>,
    walked: Seq<ItemV>,
    page: Seq<ItemV>,
    k: int,
    m: int,
)
    requires
        0 <= k <= m,
        m + page.len() <= items.len(),
        walked.to_multiset().subset_of(items.take(k).to_multiset()),
        page == items.subrange(m, m + page.len()),
    ensures
        (walked + page).to_multiset().subset_of(items.take(m + page.len()).to_multiset()),
        k == m && walked == items.take(k) ==> walked + page == items.take(m + page.len()),
{
    let n = m + page.len();
    let gap = items.subrange(k, m);
    assert(items.take(n) =~= items.take(k) + gap + page);
    lemma_joined(items.take(k), gap);
    lemma_joined(items.take(k) + gap, page);
    lemma_joined(walked, page);
    if k == m {
        assert(items.take(k) + gap =~= items.take(k));
    }
}

/// The first `n` pages of a walk hold items of the first entries, each at most
/// once, and all of them where no two have the same sort key.
proof fn lemma_query_walk(
    before: spec_fn(BsonV, BsonV) -> bool,
    entries: Seq<DocV>,
    s: QueryV,
    w: Seq<QueryVisit>,
    n: nat,
) -> (k: nat)
    requires
        is_strict_order(before),
        is_key_name(s.index, s.sk.name@),
        is_query_walk(before, entries, s, w),
        are_entries(before, entries, s.sk, w[0].request.forward),
        n <= w.len(),
    ensures
        k <= entries.len(),
        query_walked(w, n).to_multiset().subset_of(
            entry_items(entries).take(k as int).to_multiset(),
        ),
        are_distinct(entries, s.sk) ==> query_walked(w, n) == entry_items(entries).take(k as int),
        n == 0 ==> k == 0,
        n > 0 ==> match w[n - 1].page.last {
            Some(key) => n <= k && is_projected(
                document_item(entries[k - 1])->Ok_0,
                s.index,
                s.base,
                keys_only(),
                key,
            ),
            None => n <= k + 1 && k == entries.len(),
        },
    decreases n,
{
    let items = entry_items(entries);
    if n == 0 {
        assert(items.take(0) =~= query_walked(w, 0));
        0
    } else {
        let k = lemma_query_walk(before, entries, s, w, (n - 1) as nat);
        let v = w[n - 1];
        assert(is_query_visit(before, entries, s, v) && is_same_query(w[0].request, v.request));
        if n > 1 {
            assert(goes_on_from(w[n - 1].request, w[n - 2].page.last->0));
        }
        let m = lemma_query_reads_rest(before, entries, s, v, k as int);
        lemma_query_page(entries, s, v, m);
        lemma_walk_grows(items, query_walked(w, (n - 1) as nat), v.page.items, k as int, m);
        (m + v.page.items.len()) as nat
    }
}

/// The items of two sequences one behind the other are those of both.
proof fn lemma_joined(a: Seq<ItemV>, b: Seq<ItemV>)
    ensures
        (a + b).to_multiset() == a.to_multiset().add(b.to_multiset()),
{
    vstd::seq_lib::lemma_multiset_commutative(a, b);
}

/// Following the keys of the pages of a query, on a table or on an index, ends
/// and visits each item at most once. Where no two entries have the same sort
/// key it visits each item exactly once, in order. While a page names a key,
/// the query can go on from there. `before` is the order of sort keys, in
/// which the entries come.
pub proof fn law_query_walk_visits_once(
    before: spec_fn(BsonV, BsonV) -> bool,
    entries: Seq<DocV>,
    s: QueryV,
    w: Seq<QueryVisit>,
)
    requires
        is_strict_order(before),
        is_key_name(s.index, s.sk.name@),
        is_query_walk(before, entries, s, w),
        are_entries(before, entries, s.sk, w[0].request.forward),
    ensures
        w.len() <= entries.len() + 1,
        query_walked(w, w.len()).to_multiset().subset_of(entry_items(entries).to_multiset()),
        are_distinct(entries, s.sk) && w.last().page.last is None ==> query_walked(w, w.len())
            == entry_items(entries),
        w.last().page.last matches Some(key) ==> forall|next: QueryRequest|
            is_same_query(w[0].request, next) && #[trigger] goes_on_from(next, key)
                ==> query_command_of(next, s.maps) is Ok,
{
    let k = lemma_query_walk(before, entries, s, w, w.len());
    let items = entry_items(entries);
    lemma_joined(items.take(k as int), items.skip(k as int));
    assert(items =~= items.take(k as int) + items.skip(k as int));
    assert(is_query_visit(before, entries, s, w[0]));
    if let Some(key) = w.last().page.last {
        assert forall|next: QueryRequest|
            is_same_query(w[0].request, next) && #[trigger] goes_on_from(next, key) implies
            query_command_of(next, s.maps) is Ok by {
            assert(is_entry(entries[k - 1], s.sk));
            lemma_query_goes_past(before, s, next, entries[k - 1]);
        }
    }
}

} // verus!
