//! How documents are found by their fields and changed field by field.

use vstd::prelude::*;

use crate::bson::{doc1, lemma_doc1, obj1, BsonV, DocV};
use crate::meaning::{
    asks, asks_value, clause_holds, equals, is_field, is_operators, is_part, lemma_field,
    lemma_is_part, lemma_one_asked, lemma_one_part, lemma_path_joined, step_into,
};
use crate::reading::{comes_before, stands_before};

verus! {

// --- Fields --------------------------------------------------------------------------

/// The name of a field: it is no operator and leads one step.
pub open spec fn is_name(k: Seq<char>) -> bool {
    k.len() > 0 && k[0] != '$' && forall|i: int| 0 <= i < k.len() ==> k[i] != '.'
}

/// A word that is an operator.
pub open spec fn is_operator(k: Seq<char>) -> bool {
    k.len() > 0 && k[0] == '$'
}

proof fn lemma_name(k: Seq<char>)
    requires
        is_name(k),
    ensures
        is_field(k),
        is_part(k),
{
    lemma_is_part(k);
}

/// A field that is to be some value holds where it is.
pub proof fn lemma_plain_clause(
    before: spec_fn(BsonV, BsonV) -> bool,
    k: Seq<char>,
    v: BsonV,
    d: DocV,
)
    requires
        is_name(k),
        !is_operators(v),
    ensures
        clause_holds(before, k, v, d) == equals(d.get(k), v),
{
    lemma_name(k);
    lemma_field(k);
    lemma_one_part(BsonV::Doc(d), k);
}

/// A field of which an operator asks something holds where its value does.
pub proof fn lemma_asked_clause(
    before: spec_fn(BsonV, BsonV) -> bool,
    k: Seq<char>,
    op: Seq<char>,
    v: BsonV,
    d: DocV,
)
    requires
        is_name(k),
        is_operator(op),
    ensures
        clause_holds(before, k, obj1(op, v), d) == asks(before, op, v, d.get(k)),
{
    lemma_name(k);
    lemma_field(k);
    lemma_one_part(BsonV::Doc(d), k);
    lemma_doc1(op, v);
    assert(is_operators(obj1(op, v)));
    lemma_one_asked(before, op, v, d.get(k));
}

/// The value of a field of a field.
pub open spec fn inner(d: DocV, p: Seq<char>, q: Seq<char>) -> Option<BsonV> {
    match d.get(p) {
        Some(x) => step_into(x, q),
        None => None,
    }
}

/// A path of two steps asks of the field of a field.
pub proof fn lemma_inner_clause(
    before: spec_fn(BsonV, BsonV) -> bool,
    p: Seq<char>,
    q: Seq<char>,
    v: BsonV,
    d: DocV,
)
    requires
        is_name(p),
        is_name(q),
    ensures
        clause_holds(before, p + "."@ + q, v, d) == asks_value(before, v, inner(d, p, q)),
{
    let k = p + "."@ + q;
    lemma_name(p);
    lemma_name(q);
    assert(k[0] == p[0]);
    lemma_field(k);
    lemma_path_joined(BsonV::Doc(d), p, q);
    lemma_one_part(BsonV::Doc(d), p);
    if let Some(x) = d.get(p) {
        lemma_one_part(x, q);
    }
}

/// By one field, upwards or downwards.
pub proof fn lemma_one_sort(
    before: spec_fn(BsonV, BsonV) -> bool,
    k: Seq<char>,
    way: i32,
    a: DocV,
    b: DocV,
)
    requires
        is_name(k),
        way == 1 || way == -1,
    ensures
        comes_before(before, doc1(k, BsonV::Int32(way)).entries, a, b) == (a.get(k) != b.get(k) && (
        if way == 1 {
            stands_before(before, a.get(k), b.get(k))
        } else {
            stands_before(before, b.get(k), a.get(k))
        })),
{
    lemma_name(k);
    lemma_one_part(BsonV::Doc(a), k);
    lemma_one_part(BsonV::Doc(b), k);
    lemma_doc1(k, BsonV::Int32(way));
    let by = doc1(k, BsonV::Int32(way)).entries;
    assert(by[0] == (k, BsonV::Int32(way)));
    reveal_with_fuel(comes_before, 2);
    assert(by.skip(1).len() == 0);
}

// --- Updates -------------------------------------------------------------------------

/// The fields that an update names under an operator.
pub open spec fn named_under(update: DocV, op: Seq<char>) -> DocV {
    match update.get(op) {
        Some(BsonV::Doc(d)) => d,
        _ => DocV::empty(),
    }
}

/// An update sets, removes and raises fields, and does nothing else.
pub open spec fn is_plain_update(update: DocV) -> bool {
    forall|i: int|
        0 <= i < update.entries.len() ==> {
            let op = (#[trigger] update.entries[i]).0;
            (op == "$set"@ || op == "$setOnInsert"@ || op == "$unset"@ || op == "$inc"@)
                && update.entries[i].1 is Doc
        }
}

/// What a field is after an update, from what it was. `inserted` tells that
/// there was no document.
pub open spec fn field_after(
    update: DocV,
    inserted: bool,
    k: Seq<char>,
    x: Option<BsonV>,
) -> Option<BsonV> {
    let set = named_under(update, "$set"@).get(k);
    let first = named_under(update, "$setOnInsert"@).get(k);
    let raise = named_under(update, "$inc"@).get(k);
    if set is Some {
        set
    } else if inserted && first is Some {
        first
    } else if named_under(update, "$unset"@).get(k) is Some {
        None
    } else {
        match (raise, x) {
            (Some(BsonV::Int64(n)), Some(BsonV::Int64(m))) => Some(BsonV::Int64((m + n) as i64)),
            (Some(n), None) => Some(n),
            _ => x,
        }
    }
}

/// A document is what an update makes of another.
pub open spec fn is_updated(update: DocV, inserted: bool, d: DocV, r: DocV) -> bool {
    forall|k: Seq<char>|
        is_name(k) ==> #[trigger] r.get(k) == field_after(update, inserted, k, d.get(k))
}

/// The document that an update starts from where none was found: it has the
/// fields whose values the filter gives.
pub open spec fn is_seed(filter: DocV, d: DocV) -> bool {
    forall|k: Seq<char>|
        is_name(k) ==> #[trigger] d.get(k) == (match filter.get(k) {
            Some(v) => if is_operators(v) {
                None
            } else {
                Some(v)
            },
            None => None,
        })
}

/// The words of updates differ.
pub proof fn lemma_update_words()
    ensures
        "$set"@ != "$setOnInsert"@,
        "$set"@ != "$unset"@,
        "$set"@ != "$inc"@,
        "$setOnInsert"@ != "$unset"@,
        "$setOnInsert"@ != "$inc"@,
        "$unset"@ != "$inc"@,
{
    reveal_strlit("$set");
    reveal_strlit("$setOnInsert");
    reveal_strlit("$unset");
    reveal_strlit("$inc");
    assert("$set"@.len() == 4 && "$setOnInsert"@.len() == 12 && "$unset"@.len() == 6);
    assert("$inc"@.len() == 4 && "$set"@[1] == 's' && "$inc"@[1] == 'i');
}

/// An update that only sets fields sets those and keeps the others.
pub proof fn lemma_set(fields: DocV, inserted: bool, d: DocV, r: DocV, k: Seq<char>)
    requires
        is_updated(doc1("$set"@, BsonV::Doc(fields)), inserted, d, r),
        is_name(k),
    ensures
        is_plain_update(doc1("$set"@, BsonV::Doc(fields))),
        r.get(k) == (match fields.get(k) {
            Some(v) => Some(v),
            None => d.get(k),
        }),
{
    broadcast use crate::bson::group_document_fields;

    lemma_update_words();
    lemma_doc1("$set"@, BsonV::Doc(fields));
    let u = doc1("$set"@, BsonV::Doc(fields));
    assert(r.get(k) == field_after(u, inserted, k, d.get(k)));
}

} // verus!
