//! What queries read: which documents the command of a query asks for, and in
//! which order.

use vstd::prelude::*;

use crate::bson::{doc1, lemma_doc1, obj1, BsonV, DocV};
use crate::data::{numeric_key, sk_field};
use crate::encoding::decimal128_of;
use crate::expression::{Expr, ExpressionMaps, SortKeyCondition};
use crate::item::AvV;
use crate::meaning::{
    asks, is_field, lemma_field, lemma_is_part, lemma_more_clauses, lemma_no_clause,
    lemma_one_asked, lemma_one_clause, lemma_one_part, lemma_two_asked, lemma_words,
    matches_filter, value_at,
};
use crate::order::{lemma_lt_irreflexive, lemma_lt_total, lemma_lt_transitive, text_lt};
use crate::protocol::{in_data, CommandV, PagingV};
use crate::query::{
    entry_key, is_strict_order, query_command_of, query_condition, query_filter, query_paging,
    scan_command_of, scan_limit, QueryRequest, ScanStart,
};
use crate::schema::{ScalarAttributeType, SortKey};
use crate::selection::{law_field_comparison, op_holds};
use crate::sort_key::{
    after_prefix, bytes_lt, carried, kind_of_field, law_bytes_prefix_range,
    law_text_prefix_range, range_filter, sk_filter,
};
use crate::walk::{admits_entry, are_entries, capped, query_answer};

verus! {

// --- Answers -------------------------------------------------------------------------

/// A value that may be missing stands before another: one that is missing
/// stands first.
pub open spec fn stands_before(
    before: spec_fn(BsonV, BsonV) -> bool,
    x: Option<BsonV>,
    y: Option<BsonV>,
) -> bool {
    match (x, y) {
        (None, Some(_)) => true,
        (Some(a), Some(b)) => before(a, b),
        _ => false,
    }
}

/// A document comes before another by the fields of a sort: by the first in
/// which they differ, upwards for 1 and downwards for -1.
pub open spec fn comes_before(
    before: spec_fn(BsonV, BsonV) -> bool,
    by: Seq<(Seq<char>, BsonV)>,
    a: DocV,
    b: DocV,
) -> bool
    decreases by.len(),
{
    if by.len() == 0 {
        false
    } else {
        let x = value_at(BsonV::Doc(a), by[0].0);
        let y = value_at(BsonV::Doc(b), by[0].0);
        if x == y {
            comes_before(before, by.skip(1), a, b)
        } else if by[0].1 == BsonV::Int32(1) {
            stands_before(before, x, y)
        } else {
            stands_before(before, y, x)
        }
    }
}

/// Documents stand in the order of a sort.
pub open spec fn is_sorted(
    before: spec_fn(BsonV, BsonV) -> bool,
    sort: Option<DocV>,
    docs: Seq<DocV>,
) -> bool {
    sort matches Some(s) ==> forall|i: int, j: int|
        0 <= i < j < docs.len() ==> !comes_before(
            before,
            s.entries,
            #[trigger] docs[j],
            #[trigger] docs[i],
        )
}

/// The documents of a collection that a filter matches.
pub open spec fn matching(
    before: spec_fn(BsonV, BsonV) -> bool,
    all: Seq<DocV>,
    filter: DocV,
) -> Seq<DocV> {
    all.filter(|d: DocV| matches_filter(before, filter, d))
}

/// Documents are those of a collection that a filter matches, each as often
/// as it is there, in the order of a sort.
pub open spec fn is_listing(
    before: spec_fn(BsonV, BsonV) -> bool,
    all: Seq<DocV>,
    filter: DocV,
    sort: Option<DocV>,
    docs: Seq<DocV>,
) -> bool {
    &&& docs.to_multiset() == matching(before, all, filter).to_multiset()
    &&& is_sorted(before, sort, docs)
}

/// Documents answer a query of a collection: they are the first of those that
/// the filter matches, in the order of the sort, as many as asked for.
pub open spec fn is_answer(
    before: spec_fn(BsonV, BsonV) -> bool,
    all: Seq<DocV>,
    filter: DocV,
    paging: PagingV,
    docs: Seq<DocV>,
) -> bool {
    exists|full: Seq<DocV>| #[trigger]
        is_listing(before, all, filter, paging.sort, full) && docs == capped(full, paging.limit)
}

/// How often an element occurs among those that are selected.
pub proof fn lemma_filter_count<A>(s: Seq<A>, p: spec_fn(A) -> bool, x: A)
    ensures
        s.filter(p).to_multiset().count(x) == (if p(x) {
            s.to_multiset().count(x)
        } else {
            0
        }),
    decreases s.len(),
{
    broadcast use vstd::seq_lib::group_to_multiset_ensures;

    reveal(Seq::filter);
    if s.len() > 0 {
        let t = s.drop_last();
        lemma_filter_count(t, p, x);
        assert(s =~= t.push(s.last()));
        if p(s.last()) {
            assert(s.filter(p) =~= t.filter(p).push(s.last()));
        }
    } else {
        assert(s.filter(p).to_multiset().len() == 0);
        assert(s.to_multiset().len() == 0);
    }
}

/// What is listed is there and matches.
pub proof fn lemma_listed(
    before: spec_fn(BsonV, BsonV) -> bool,
    all: Seq<DocV>,
    filter: DocV,
    sort: Option<DocV>,
    full: Seq<DocV>,
    d: DocV,
)
    requires
        is_listing(before, all, filter, sort, full),
    ensures
        full.contains(d) <==> all.contains(d) && matches_filter(before, filter, d),
{
    broadcast use vstd::seq_lib::group_to_multiset_ensures;

    let p = |d: DocV| matches_filter(before, filter, d);
    lemma_filter_count(all, p, d);
    assert(full.contains(d) <==> full.to_multiset().count(d) > 0);
    assert(all.contains(d) <==> all.to_multiset().count(d) > 0);
}

// --- Conditions on the sort key ------------------------------------------------------

/// The value that a sort key of a type is compared as.
pub open spec fn as_key(v: AvV, kind: ScalarAttributeType) -> Option<BsonV> {
    match (kind, v) {
        (ScalarAttributeType::S, AvV::S(s)) => Some(BsonV::Str(s)),
        (ScalarAttributeType::N, AvV::N(n)) => numeric_key(n, decimal128_of(n)),
        (ScalarAttributeType::B, AvV::B(b)) => Some(BsonV::Binary(b)),
        _ => None,
    }
}

/// The value of a placeholder of a key condition.
pub open spec fn key_given(e: Expr, maps: ExpressionMaps) -> Option<AvV> {
    match e {
        Expr::Placeholder(name) => match maps.value_of(name@) {
            Ok(v) => Some(v),
            Err(_) => None,
        },
        _ => None,
    }
}

/// A condition holds of a sort key.
pub open spec fn key_holds(
    before: spec_fn(BsonV, BsonV) -> bool,
    cond: SortKeyCondition,
    kind: ScalarAttributeType,
    maps: ExpressionMaps,
    x: BsonV,
) -> bool {
    match cond {
        SortKeyCondition::Compare { op, value } => op_holds(
            before,
            op,
            x,
            as_key(key_given(value, maps)->0, kind)->0,
        ),
        SortKeyCondition::Between { low, high } => {
            let l = as_key(key_given(low, maps)->0, kind)->0;
            let h = as_key(key_given(high, maps)->0, kind)->0;
            (before(l, x) || x == l) && (before(x, h) || x == h)
        },
        SortKeyCondition::BeginsWith { prefix } => match (key_given(prefix, maps)->0, x) {
            (AvV::S(p), BsonV::Str(t)) => p.is_prefix_of(t),
            (AvV::B(p), BsonV::Binary(t)) => p.is_prefix_of(t),
            _ => false,
        },
    }
}

/// Texts are ordered character by character.
pub open spec fn orders_texts(before: spec_fn(BsonV, BsonV) -> bool) -> bool {
    forall|a: Seq<char>, b: Seq<char>| #[trigger]
        before(BsonV::Str(a), BsonV::Str(b)) == text_lt(a, b)
}

/// Byte strings are ordered byte by byte.
pub open spec fn orders_bytes(before: spec_fn(BsonV, BsonV) -> bool) -> bool {
    forall|a: Seq<u8>, b: Seq<u8>| #[trigger]
        before(BsonV::Binary(a), BsonV::Binary(b)) == bytes_lt(a, b)
}

/// The sort keys of which the range of a prefix says whether they begin with
/// it: texts in the order of texts, and byte strings that are as long as the
/// prefix, in the order of bytes, for a prefix that is not all 0xFF.
pub open spec fn is_prefixed(
    before: spec_fn(BsonV, BsonV) -> bool,
    cond: SortKeyCondition,
    maps: ExpressionMaps,
    x: BsonV,
) -> bool {
    cond matches SortKeyCondition::BeginsWith { prefix } ==> match (key_given(prefix, maps), x) {
        (Some(AvV::S(p)), BsonV::Str(t)) => orders_texts(before),
        (Some(AvV::B(p)), BsonV::Binary(t)) => orders_bytes(before) && carried(p) is Some
            && t.len() >= p.len(),
        _ => false,
    }
}

/// The field of a type is read as one of that type, is no word of filters, and
/// leads to what stands in a document under its name.
proof fn lemma_key_field(kind: ScalarAttributeType, d: DocV)
    ensures
        kind_of_field(sk_field(kind)) == kind,
        is_field(sk_field(kind)),
        sk_field(kind) != "pk"@,
        sk_field(kind) != "$and"@,
        value_at(BsonV::Doc(d), sk_field(kind)) == d.get(sk_field(kind)),
        is_field("pk"@),
        "pk"@ != "$and"@,
        value_at(BsonV::Doc(d), "pk"@) == d.get("pk"@),
{
    reveal_strlit("sk_s");
    reveal_strlit("sk_n");
    reveal_strlit("sk_b");
    reveal_strlit("_n");
    reveal_strlit("_b");
    reveal_strlit("pk");
    reveal_strlit("$and");
    assert("pk"@.len() == 2 && "pk"@[0] == 'p' && "$and"@[0] == '$');
    assert("sk_s"@.len() == 4 && "sk_n"@.len() == 4 && "sk_b"@.len() == 4);
    assert("sk_s"@.last() == 's' && "sk_n"@.last() == 'n' && "sk_b"@.last() == 'b');
    assert("_n"@.len() == 2 && "_b"@.len() == 2 && "_n"@[1] == 'n' && "_b"@[1] == 'b');
    assert("_n"@ =~= "sk_n"@.subrange(2, 4));
    assert("_b"@ =~= "sk_b"@.subrange(2, 4));
    if "_n"@.is_suffix_of("sk_s"@) {
        assert("sk_s"@.subrange(2, 4)[1] == 'n');
    }
    if "_b"@.is_suffix_of("sk_s"@) {
        assert("sk_s"@.subrange(2, 4)[1] == 'b');
    }
    if "_n"@.is_suffix_of("sk_b"@) {
        assert("sk_b"@.subrange(2, 4)[1] == 'n');
    }
    let f = sk_field(kind);
    lemma_is_part(f);
    lemma_one_part(BsonV::Doc(d), f);
    lemma_is_part("pk"@);
    lemma_one_part(BsonV::Doc(d), "pk"@);
}

proof fn lemma_bounds(
    before: spec_fn(BsonV, BsonV) -> bool,
    field: Seq<char>,
    low: BsonV,
    upper: Seq<char>,
    high: BsonV,
    d: DocV,
)
    requires
        is_field(field),
        upper == "$lt"@ || upper == "$lte"@,
        value_at(BsonV::Doc(d), field) matches Some(x) && !(x is Array),
    ensures
        ({
            let x = value_at(BsonV::Doc(d), field)->0;
            matches_filter(before, range_filter(field, low, upper, high), d) == ((before(low, x)
                || x == low) && (before(x, high) || (upper == "$lte"@ && x == high)))
        }),
{
    lemma_words();
    reveal_strlit("$gte");
    lemma_field(field);
    let x = value_at(BsonV::Doc(d), field);
    lemma_two_asked(before, "$gte"@, low, upper, high, x);
    let asked = doc1("$gte"@, low).with(upper, high);
    assert(asked.entries[0] == ("$gte"@, low));
    lemma_one_clause(before, field, BsonV::Doc(asked), d);
}

/// The filter of a condition on a sort key matches the documents of whose sort
/// key the condition holds.
pub proof fn law_key_condition_selects(
    before: spec_fn(BsonV, BsonV) -> bool,
    cond: SortKeyCondition,
    kind: ScalarAttributeType,
    maps: ExpressionMaps,
    d: DocV,
    x: BsonV,
)
    requires
        sk_filter(cond, sk_field(kind), maps) is Ok,
        d.get(sk_field(kind)) == Some(x),
        !(x is Array),
        is_prefixed(before, cond, maps, x),
    ensures
        matches_filter(before, sk_filter(cond, sk_field(kind), maps)->Ok_0, d) == key_holds(
            before,
            cond,
            kind,
            maps,
            x,
        ),
{
    let field = sk_field(kind);
    lemma_key_field(kind, d);
    lemma_field(field);
    match cond {
        SortKeyCondition::Compare { op, value } => {
            let b = as_key(key_given(value, maps)->0, kind)->0;
            law_field_comparison(before, field, op, b, d);
        },
        SortKeyCondition::Between { low, high } => {
            let l = as_key(key_given(low, maps)->0, kind)->0;
            let h = as_key(key_given(high, maps)->0, kind)->0;
            lemma_bounds(before, field, l, "$lte"@, h, d);
        },
        SortKeyCondition::BeginsWith { prefix } => {
            lemma_words();
            reveal_strlit("$gte");
            match (key_given(prefix, maps)->0, x) {
                (AvV::S(p), BsonV::Str(t)) => {
                    law_text_prefix_range(p, t);
                    lemma_lt_total(p, t);
                    lemma_lt_irreflexive(p);
                    if text_lt(p, t) && text_lt(t, p) {
                        lemma_lt_transitive(p, t, p);
                    }
                    match after_prefix(p) {
                        Some(u) => {
                            lemma_bounds(
                                before,
                                field,
                                BsonV::Str(p),
                                "$lt"@,
                                BsonV::Str(u),
                                d,
                            );
                        },
                        None => {
                            lemma_doc1("$gte"@, BsonV::Str(p));
                            lemma_one_asked(before, "$gte"@, BsonV::Str(p), Some(x));
                            lemma_one_clause(
                                before,
                                field,
                                BsonV::Doc(doc1("$gte"@, BsonV::Str(p))),
                                d,
                            );
                        },
                    }
                },
                (AvV::B(p), BsonV::Binary(t)) => {
                    law_bytes_prefix_range(p, t);
                    lemma_bytes_total(p, t);
                    lemma_bounds(
                        before,
                        field,
                        BsonV::Binary(p),
                        "$lt"@,
                        BsonV::Binary(carried(p)->0),
                        d,
                    );
                },
                _ => {},
            }
        },
    }
}

proof fn lemma_bytes_total(a: Seq<u8>, b: Seq<u8>)
    ensures
        bytes_lt(a, b) || a == b || bytes_lt(b, a),
        !(bytes_lt(a, b) && bytes_lt(b, a)),
        !bytes_lt(a, a),
    decreases a.len(),
{
    if a.len() > 0 {
        lemma_bytes_total(a.skip(1), a.skip(1));
    }
    if a.len() > 0 && b.len() > 0 {
        if a[0] == b[0] {
            lemma_bytes_total(a.skip(1), b.skip(1));
            if a.skip(1) == b.skip(1) {
                assert(a =~= seq![a[0]] + a.skip(1));
                assert(b =~= seq![b[0]] + b.skip(1));
            }
        }
    } else if a.len() == 0 && b.len() == 0 {
        assert(a =~= b);
    }
}

// --- Queries -------------------------------------------------------------------------

/// A sort key lies behind a start key, in the direction of a query.
pub open spec fn lies_behind(
    before: spec_fn(BsonV, BsonV) -> bool,
    q: QueryRequest,
    sk: SortKey,
    x: BsonV,
) -> bool {
    q.start_key matches Some(start) ==> (start@.get(sk.name@) matches Some(v) ==> {
        let b = as_key(v, sk.kind)->0;
        if q.forward {
            before(b, x)
        } else {
            before(x, b)
        }
    })
}

/// A query wants a document: it is of the partition, the condition holds of
/// its sort key, and it lies behind the start key.
pub open spec fn wants(
    before: spec_fn(BsonV, BsonV) -> bool,
    q: QueryRequest,
    maps: ExpressionMaps,
    sk: SortKey,
    d: DocV,
) -> bool {
    let x = entry_key(d, sk);
    &&& d.get("pk"@) == Some(BsonV::Str(q.pk_text@))
    &&& q.sk_condition matches Some(c) ==> key_holds(before, c, sk.kind, maps, x)
    &&& lies_behind(before, q, sk, x)
}

/// A document has a partition key and a sort key of a type, of which the
/// condition of a query can tell.
pub open spec fn is_queried(
    before: spec_fn(BsonV, BsonV) -> bool,
    q: QueryRequest,
    maps: ExpressionMaps,
    sk: SortKey,
    d: DocV,
) -> bool {
    &&& d.get("pk"@) matches Some(pk) && pk is Str
    &&& d.get(sk_field(sk.kind)) matches Some(x) && !(x is Array) && (q.sk_condition matches Some(
        c,
    ) ==> is_prefixed(before, c, maps, x))
}

/// The filter of a condition on a sort key has the one field of that key.
proof fn lemma_key_filter_form(
    cond: SortKeyCondition,
    kind: ScalarAttributeType,
    maps: ExpressionMaps,
)
    requires
        sk_filter(cond, sk_field(kind), maps) is Ok,
    ensures
        ({
            let f = sk_filter(cond, sk_field(kind), maps)->Ok_0;
            &&& f.get(sk_field(kind)) is Some
            &&& f == doc1(sk_field(kind), f.get(sk_field(kind))->0)
        }),
{
    broadcast use crate::bson::group_document_fields;

}

/// The filter of a query matches just the documents that the query wants.
pub proof fn law_query_selects(
    before: spec_fn(BsonV, BsonV) -> bool,
    q: QueryRequest,
    maps: ExpressionMaps,
    sk: SortKey,
    d: DocV,
)
    requires
        q.sort_key == Some(sk),
        query_filter(q, maps) is Ok,
        is_queried(before, q, maps, sk, d),
    ensures
        matches_filter(before, query_filter(q, maps)->Ok_0, d) == wants(before, q, maps, sk, d),
{
    broadcast use crate::bson::group_document_fields;

    lemma_words();
    let field = sk_field(sk.kind);
    let x = entry_key(d, sk);
    lemma_key_field(sk.kind, d);
    lemma_field("pk"@);
    lemma_field(field);
    let pk = BsonV::Str(q.pk_text@);
    let base = doc1("pk"@, pk);
    lemma_one_clause(before, "pk"@, pk, d);
    let c = query_condition(q, maps)->Ok_0;
    if let Some(cond) = q.sk_condition {
        lemma_key_filter_form(cond, sk.kind, maps);
        let f = sk_filter(cond, field, maps)->Ok_0;
        let v = f.get(field)->0;
        law_key_condition_selects(before, cond, sk.kind, maps, d, x);
        lemma_one_clause(before, field, v, d);
        lemma_more_clauses(before, base, field, v, d);
        assert(c == base.with(field, v));
    } else {
        assert(c == base);
    }
    if let Some(start) = q.start_key {
        if let Some(v) = start@.get(sk.name@) {
            let b = as_key(v, sk.kind)->0;
            let op = if q.forward {
                "$gt"@
            } else {
                "$lt"@
            };
            reveal_strlit("$gt");
            reveal_strlit("$lt");
            let past = obj1(op, b);
            lemma_doc1(op, b);
            lemma_one_asked(before, op, b, Some(x));
            lemma_one_clause(before, field, past, d);
            let only = seq![obj1(field, past)];
            assert(only[0] == BsonV::Doc(doc1(field, past)));
            if q.sk_condition is Some {
                lemma_more_clauses(before, c, "$and"@, BsonV::Array(only), d);
            } else {
                lemma_more_clauses(before, c, field, past, d);
            }
        }
    }
}

/// A document comes before another in the order of a query by its sort key
/// alone: upwards where the query reads forward, downwards otherwise.
proof fn lemma_query_order(
    before: spec_fn(BsonV, BsonV) -> bool,
    q: QueryRequest,
    sk: SortKey,
    a: DocV,
    b: DocV,
)
    requires
        q.sort_key == Some(sk),
        is_strict_order(before),
        a.get(sk_field(sk.kind)) is Some,
        b.get(sk_field(sk.kind)) is Some,
    ensures
        query_paging(q).sort matches Some(s) && comes_before(before, s.entries, a, b) == (
        if q.forward {
            before(entry_key(a, sk), entry_key(b, sk))
        } else {
            before(entry_key(b, sk), entry_key(a, sk))
        }),
{
    let s = query_paging(q).sort->0;
    let direction = BsonV::Int32(
        if q.forward {
            1i32
        } else {
            (-1) as i32
        },
    );
    lemma_doc1(sk_field(sk.kind), direction);
    assert(s.entries[0] == (sk_field(sk.kind), direction));
    lemma_key_field(sk.kind, a);
    lemma_key_field(sk.kind, b);
    assert(s.entries.skip(1).len() == 0);
    reveal_with_fuel(comes_before, 2);
}

/// A query reads the documents that it wants from the collection of its table
/// or index, in the order of their sort keys: upwards where it reads forward,
/// downwards otherwise. Where it leaves some out, it has read one more than it
/// was asked for, and none that it left out comes before any that it read.
pub proof fn law_query_reads_in_order(
    before: spec_fn(BsonV, BsonV) -> bool,
    q: QueryRequest,
    maps: ExpressionMaps,
    sk: SortKey,
    all: Seq<DocV>,
    docs: Seq<DocV>,
)
    requires
        q.sort_key == Some(sk),
        q.limit matches Some(l) ==> 0 <= l < i64::MAX,
        is_strict_order(before),
        forall|i: int| 0 <= i < all.len() ==> is_queried(before, q, maps, sk, #[trigger] all[i]),
        query_command_of(q, maps) matches Ok(CommandV::Find { at, filter, paging }) && is_answer(
            before,
            all,
            filter,
            paging,
            docs,
        ),
    ensures
        query_command_of(q, maps)->Ok_0->Find_at == in_data("_ddb_"@ + q.collection_id@),
        forall|i: int|
            0 <= i < docs.len() ==> all.contains(#[trigger] docs[i]) && wants(
                before,
                q,
                maps,
                sk,
                docs[i],
            ),
        forall|i: int, j: int|
            0 <= i < j < docs.len() ==> !(if q.forward {
                before(entry_key(#[trigger] docs[j], sk), entry_key(#[trigger] docs[i], sk))
            } else {
                before(entry_key(docs[i], sk), entry_key(docs[j], sk))
            }),
        forall|d: DocV| #[trigger]
            all.contains(d) && wants(before, q, maps, sk, d) && !docs.contains(d) ==> q.limit == Some(
                (docs.len() - 1) as i64,
            ) && forall|i: int|
                0 <= i < docs.len() ==> !(if q.forward {
                    before(entry_key(d, sk), entry_key(#[trigger] docs[i], sk))
                } else {
                    before(entry_key(docs[i], sk), entry_key(d, sk))
                }),
{
    let c = query_command_of(q, maps)->Ok_0;
    let filter = c->Find_filter;
    let paging = c->Find_paging;
    let full = choose|full: Seq<DocV>| #[trigger]
        is_listing(before, all, filter, paging.sort, full) && docs == capped(full, paging.limit);
    assert forall|d: DocV| #[trigger] full.contains(d) <==> all.contains(d) && wants(
        before,
        q,
        maps,
        sk,
        d,
    ) by {
        lemma_listed(before, all, filter, paging.sort, full, d);
        if all.contains(d) {
            let i = choose|i: int| 0 <= i < all.len() && all[i] == d;
            assert(is_queried(before, q, maps, sk, all[i]));
            law_query_selects(before, q, maps, sk, d);
        }
    }
    assert forall|i: int| 0 <= i < full.len() implies is_queried(
        before,
        q,
        maps,
        sk,
        #[trigger] full[i],
    ) && all.contains(full[i]) && wants(before, q, maps, sk, full[i]) by {
        assert(full.contains(full[i]));
        let k = choose|k: int| 0 <= k < all.len() && all[k] == full[i];
        assert(is_queried(before, q, maps, sk, all[k]));
    }
    assert forall|i: int| 0 <= i < docs.len() implies #[trigger] docs[i] == full[i] by {}
    assert forall|i: int, j: int| 0 <= i < j < full.len() implies !(if q.forward {
        before(entry_key(#[trigger] full[j], sk), entry_key(#[trigger] full[i], sk))
    } else {
        before(entry_key(full[i], sk), entry_key(full[j], sk))
    }) by {
        lemma_query_order(before, q, sk, full[j], full[i]);
        assert(!comes_before(before, paging.sort->0.entries, full[j], full[i]));
    }
    assert forall|d: DocV| #[trigger]
        all.contains(d) && wants(before, q, maps, sk, d) && !docs.contains(d) implies q.limit == Some(
        (docs.len() - 1) as i64,
    ) && forall|i: int|
        0 <= i < docs.len() ==> !(if q.forward {
            before(entry_key(d, sk), entry_key(#[trigger] docs[i], sk))
        } else {
            before(entry_key(docs[i], sk), entry_key(d, sk))
        }) by {
        assert(full.contains(d));
        let k = choose|k: int| 0 <= k < full.len() && full[k] == d;
        if k < docs.len() {
            assert(docs[k] == d);
        }
        assert(docs.len() < full.len());
        assert forall|i: int| 0 <= i < docs.len() implies !(if q.forward {
            before(entry_key(d, sk), entry_key(#[trigger] docs[i], sk))
        } else {
            before(entry_key(docs[i], sk), entry_key(d, sk))
        }) by {
            assert(docs[i] == full[i]);
            assert(i < k);
        }
    }
}

/// The clause of a walk that leads past a start key says what the filter of
/// the query asks of a sort key beyond its condition.
proof fn lemma_admitted(
    before: spec_fn(BsonV, BsonV) -> bool,
    q: QueryRequest,
    maps: ExpressionMaps,
    sk: SortKey,
    d: DocV,
)
    requires
        q.sort_key == Some(sk),
        query_filter(q, maps) is Ok,
    ensures
        admits_entry(before, q, query_filter(q, maps)->Ok_0, sk, d) == lies_behind(
            before,
            q,
            sk,
            entry_key(d, sk),
        ),
{
    broadcast use crate::bson::group_document_fields;

    let field = sk_field(sk.kind);
    lemma_key_field(sk.kind, d);
    let f = query_filter(q, maps)->Ok_0;
    if let Some(cond) = q.sk_condition {
        lemma_key_filter_form(cond, sk.kind, maps);
    }
    if let Some(start) = q.start_key {
        if let Some(v) = start@.get(sk.name@) {
            let b = as_key(v, sk.kind)->0;
            let op = if q.forward {
                "$gt"@
            } else {
                "$lt"@
            };
            reveal_strlit("$gt");
            reveal_strlit("$lt");
            assert("$gt"@[1] == 'g' && "$lt"@[1] == 'l');
            let past = obj1(op, b);
            if q.sk_condition is Some {
                let only = seq![obj1(field, past)];
                assert(f.get_array("$and"@) == Some(only));
                assert(only[0] == BsonV::Doc(doc1(field, past)));
            }
            assert(doc1(op, b).get(op) == Some(b));
        }
    }
}

/// What is selected from elements of which no later one goes before an earlier
/// one, keeps to that.
proof fn lemma_filter_keeps_order<A>(s: Seq<A>, p: spec_fn(A) -> bool, less: spec_fn(A, A) -> bool)
    requires
        forall|i: int, j: int| 0 <= i < j < s.len() ==> !less(#[trigger] s[j], #[trigger] s[i]),
    ensures
        forall|i: int, j: int|
            0 <= i < j < s.filter(p).len() ==> !less(
                #[trigger] s.filter(p)[j],
                #[trigger] s.filter(p)[i],
            ),
    decreases s.len(),
{
    broadcast use vstd::seq_lib::group_to_multiset_ensures;

    reveal(Seq::filter);
    if s.len() > 0 {
        let t = s.drop_last();
        lemma_filter_keeps_order(t, p, less);
        let u = t.filter(p);
        assert forall|i: int, j: int| 0 <= i < j < s.filter(p).len() implies !less(
            #[trigger] s.filter(p)[j],
            #[trigger] s.filter(p)[i],
        ) by {
            if j == u.len() {
                lemma_filter_count(t, p, u[i]);
                assert(u.contains(u[i]));
                assert(u.to_multiset().count(u[i]) > 0);
                assert(t.to_multiset().count(u[i]) > 0);
                assert(t.contains(u[i]));
                let k = choose|k: int| 0 <= k < t.len() && t[k] == u[i];
                assert(s[k] == u[i]);
                assert(!less(s[s.len() - 1], s[k]));
            }
        }
    }
}

/// The pages of a walk are answers: where the entries of a walk are the
/// documents of a collection that a query wants from the start, in its order,
/// what they answer to the command of a page is an answer of the collection.
pub proof fn law_walk_reads_answers(
    before: spec_fn(BsonV, BsonV) -> bool,
    q: QueryRequest,
    maps: ExpressionMaps,
    sk: SortKey,
    all: Seq<DocV>,
    entries: Seq<DocV>,
)
    requires
        q.sort_key == Some(sk),
        is_strict_order(before),
        forall|i: int| 0 <= i < all.len() ==> is_queried(before, q, maps, sk, #[trigger] all[i]),
        query_command_of(q, maps) is Ok,
        are_entries(before, entries, sk, q.forward),
        entries.to_multiset() == all.filter(
            |d: DocV| wants(before, QueryRequest { start_key: None, ..q }, maps, sk, d),
        ).to_multiset(),
    ensures
        query_command_of(q, maps)->Ok_0 matches CommandV::Find { filter, paging, .. } && is_answer(
            before,
            all,
            filter,
            paging,
            query_answer(before, entries, q, sk, query_command_of(q, maps)->Ok_0),
        ),
{
    broadcast use vstd::seq_lib::group_to_multiset_ensures;

    let c = query_command_of(q, maps)->Ok_0;
    let filter = c->Find_filter;
    let paging = c->Find_paging;
    let p = |d: DocV| admits_entry(before, q, filter, sk, d);
    let first = |d: DocV| wants(before, QueryRequest { start_key: None, ..q }, maps, sk, d);
    let full = entries.filter(p);
    assert forall|d: DocV| #[trigger]
        full.to_multiset().count(d) == matching(before, all, filter).to_multiset().count(d) by {
        lemma_filter_count(entries, p, d);
        lemma_filter_count(all, first, d);
        lemma_filter_count(all, |d: DocV| matches_filter(before, filter, d), d);
        lemma_admitted(before, q, maps, sk, d);
        if all.to_multiset().count(d) > 0 {
            assert(all.contains(d));
            let i = choose|i: int| 0 <= i < all.len() && all[i] == d;
            assert(is_queried(before, q, maps, sk, all[i]));
            law_query_selects(before, q, maps, sk, d);
        }
    }
    assert(full.to_multiset() =~= matching(before, all, filter).to_multiset());
    let s = paging.sort->0;
    let less = |a: DocV, b: DocV| comes_before(before, s.entries, a, b);
    assert forall|i: int, j: int| 0 <= i < j < entries.len() implies !less(
        #[trigger] entries[j],
        #[trigger] entries[i],
    ) by {
        assert(crate::query::is_entry(entries[i], sk));
        assert(crate::query::is_entry(entries[j], sk));
        lemma_query_order(before, q, sk, entries[j], entries[i]);
        assert(!crate::query::is_past(
            before,
            q.forward,
            entry_key(entries[i], sk),
            entry_key(entries[j], sk),
        ));
    }
    lemma_filter_keeps_order(entries, p, less);
    assert(is_sorted(before, paging.sort, full)) by {
        assert forall|i: int, j: int| 0 <= i < j < full.len() implies !comes_before(
            before,
            s.entries,
            #[trigger] full[j],
            #[trigger] full[i],
        ) by {
            assert(!less(full[j], full[i]));
        }
    }
    assert(is_listing(before, all, filter, paging.sort, full));
}

/// A query of a table or an index without a sort key reads the documents of
/// the partition, from the collection of the table or the index.
pub proof fn law_partition_is_read(
    before: spec_fn(BsonV, BsonV) -> bool,
    q: QueryRequest,
    maps: ExpressionMaps,
    d: DocV,
)
    requires
        q.sort_key is None,
        d.get("pk"@) matches Some(pk) && pk is Str,
    ensures
        query_command_of(q, maps) matches Ok(CommandV::Find { at, filter, .. }) && at == in_data(
            "_ddb_"@ + q.collection_id@,
        ) && matches_filter(before, filter, d) == (d.get("pk"@) == Some(BsonV::Str(q.pk_text@))),
{
    lemma_key_field(ScalarAttributeType::S, d);
    lemma_field("pk"@);
    lemma_one_clause(before, "pk"@, BsonV::Str(q.pk_text@), d);
}

/// A scan reads the documents of a collection in the order of their `_id`s,
/// all of them from the start, and those behind a start key's otherwise.
pub proof fn law_scan_reads_in_order(
    before: spec_fn(BsonV, BsonV) -> bool,
    collection_id: Seq<char>,
    start: Option<ScanStart>,
    sort_key: Option<SortKey>,
    limit: Option<i64>,
    segment: Option<(i64, i64)>,
    a: DocV,
    b: DocV,
)
    requires
        scan_command_of(collection_id, start, sort_key, limit, segment) is Ok,
        a.get("_id"@) matches Some(x) && x is Str,
        b.get("_id"@) matches Some(y) && y is Str,
        start matches Some(s) ==> (sort_key matches Some(sk) ==> s.item@.get(sk.name@) is Some),
    ensures
        scan_command_of(collection_id, start, sort_key, limit, segment)->Ok_0 matches CommandV::Find {
            at,
            filter,
            paging,
        } && {
            &&& at == in_data("_ddb_"@ + collection_id)
            &&& comes_before(before, paging.sort->0.entries, a, b) <==> a.get("_id"@) != b.get(
                "_id"@,
            ) && before(a.get("_id"@)->0, b.get("_id"@)->0)
            &&& start is None ==> matches_filter(before, filter, a)
            &&& start matches Some(s) ==> matches_filter(before, filter, a) == before(
                BsonV::Str(
                    match sort_key {
                        None => s.pk_text@,
                        Some(sk) => s.pk_text@ + "#"@ + crate::data::sk_text_of(
                            s.item@.get(sk.name@)->0,
                        )->Ok_0,
                    },
                ),
                a.get("_id"@)->0,
            )
        },
{
    lemma_words();
    reveal_strlit("_id");
    reveal_strlit("$gt");
    lemma_is_part("_id"@);
    lemma_one_part(BsonV::Doc(a), "_id"@);
    lemma_one_part(BsonV::Doc(b), "_id"@);
    lemma_field("_id"@);
    let c = scan_command_of(collection_id, start, sort_key, limit, segment)->Ok_0;
    let by = c->Find_paging.sort->0.entries;
    lemma_doc1("_id"@, BsonV::Int32(1));
    assert(by[0] == ("_id"@, BsonV::Int32(1)));
    assert(by.skip(1).len() == 0);
    reveal_with_fuel(comes_before, 2);
    lemma_no_clause(before, a);
    if let Some(s) = start {
        let t = match sort_key {
            None => s.pk_text@,
            Some(sk) => s.pk_text@ + "#"@ + crate::data::sk_text_of(
                s.item@.get(sk.name@)->0,
            )->Ok_0,
        };
        let past = obj1("$gt"@, BsonV::Str(t));
        lemma_doc1("$gt"@, BsonV::Str(t));
        lemma_one_asked(before, "$gt"@, BsonV::Str(t), a.get("_id"@));
        lemma_one_clause(before, "_id"@, past, a);
    }
}

/// A query compares texts as the index on the key of its table does, and reads
/// one document more than asked for, so that it shows whether there are more.
pub proof fn law_query_reads_by_key_index(q: QueryRequest)
    requires
        q.limit matches Some(l) ==> l < i64::MAX,
    ensures
        query_paging(q).simple_collation == crate::create_table::key_index_options(
            match q.sort_key {
                Some(sk) => Some(sk.kind),
                None => None,
            },
        ).simple_collation,
        query_paging(q).simple_collation <==> (q.sort_key matches Some(sk) && sk.kind
            == ScalarAttributeType::S),
        q.limit matches Some(l) ==> (query_paging(q).limit matches Some(n) && n == l + 1),
        q.limit is None ==> query_paging(q).limit is None,
{
}

/// A scan reads one document more than asked for, and a segment of a parallel
/// scan as many times that as there are segments.
pub proof fn law_scan_reads_one_more(limit: i64, segment: i64, total: i64)
    ensures
        scan_limit(Some(limit), None) == Some(limit + 1),
        scan_limit(Some(limit), Some((segment, total))) == Some((limit + 1) * total),
        scan_limit(None, Some((segment, total))) is None,
{
}

} // verus!
