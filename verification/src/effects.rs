//! What operations do to the documents of a table: what a command makes of a
//! collection and answers, and what stands under a key afterwards.

use vstd::prelude::*;

use crate::bson::{doc1, doc_seq, lemma_doc1, obj1, opt_doc, BsonV, DocV, Document};
use crate::data::{document_item, item_document, key_filter, sk_field, ItemKey};
use crate::delete_item::{
    delete_begins, delete_goes_on, get_begins, get_ends, DeleteDone, DeleteState, GetState,
};
use crate::encoding::base64_text;
use crate::error::ErrV;
use crate::item::{opt_item, AvV, Item, ItemV};
use crate::meaning::{
    asks, asks_all, asks_value, clause_holds, is_field, lemma_field, lemma_is_part, lemma_more_clauses, lemma_one_asked, lemma_one_clause,
    lemma_one_part, lemma_words, matches_filter, value_at,
};
use crate::protocol::{in_data, ActionV, CommandV, DbError, Event, Place, PlaceV, Reply, Step};
use crate::put_item::{found_item, is_write, put_begins, put_goes_on, Put, PutDone, PutState};
use crate::reading::{as_key, is_answer};
use crate::schema::{schema_view, KeyType, ScalarAttributeType};
use crate::text::occurs_in;
use crate::update_item::{
    update_begins, update_goes_on, versioned, Current, Update, UpdateDone, UpdateState,
};

verus! {

// --- Commands ------------------------------------------------------------------------

/// Some document of a collection matches a filter.
pub open spec fn any_matches(
    before: spec_fn(BsonV, BsonV) -> bool,
    docs: Seq<DocV>,
    filter: DocV,
) -> bool {
    exists|i: int| 0 <= i < docs.len() && matches_filter(before, filter, #[trigger] docs[i])
}

/// A document that was found: one that matches, or none where none does.
pub open spec fn is_pick(
    before: spec_fn(BsonV, BsonV) -> bool,
    docs: Seq<DocV>,
    filter: DocV,
    d: Option<DocV>,
) -> bool {
    match d {
        Some(x) => docs.contains(x) && matches_filter(before, filter, x),
        None => !any_matches(before, docs, filter),
    }
}

/// A document that matches was replaced by another; where none does it was
/// added, if that was asked for. `old` is the document that was replaced.
pub open spec fn is_replaced(
    before: spec_fn(BsonV, BsonV) -> bool,
    docs: Seq<DocV>,
    filter: DocV,
    document: DocV,
    upsert: bool,
    after: Seq<DocV>,
    old: Option<DocV>,
) -> bool {
    if any_matches(before, docs, filter) {
        exists|i: int|
            0 <= i < docs.len() && matches_filter(before, filter, #[trigger] docs[i]) && after
                == docs.update(i, document) && old == Some(docs[i])
    } else {
        old is None && after == (if upsert {
            docs.push(document)
        } else {
            docs
        })
    }
}

/// A document that matches was removed, where one does. `old` is that
/// document.
pub open spec fn is_removed(
    before: spec_fn(BsonV, BsonV) -> bool,
    docs: Seq<DocV>,
    filter: DocV,
    after: Seq<DocV>,
    old: Option<DocV>,
) -> bool {
    if any_matches(before, docs, filter) {
        exists|i: int|
            0 <= i < docs.len() && matches_filter(before, filter, #[trigger] docs[i]) && after
                == docs.remove(i) && old == Some(docs[i])
    } else {
        old is None && after == docs
    }
}

/// How many documents were found, at most one.
pub open spec fn one_if(d: Option<DocV>) -> u64 {
    if d is Some {
        1
    } else {
        0
    }
}

/// What a command on documents makes of its collection, with its answer.
pub open spec fn takes_effect(
    before: spec_fn(BsonV, BsonV) -> bool,
    c: CommandV,
    docs: Seq<DocV>,
    after: Seq<DocV>,
    reply: Reply,
) -> bool {
    match c {
        CommandV::FindOne { filter, .. } => after == docs && (reply matches Reply::One(d)
            && is_pick(before, docs, filter, opt_doc(d))),
        CommandV::Find { filter, paging, .. } => after == docs && (reply matches Reply::Many(v)
            && is_answer(before, docs, filter, paging, doc_seq(v@))),
        CommandV::Insert { document, .. } => after == docs.push(document) && reply == Reply::Done,
        CommandV::InsertMany { documents, .. } => after == docs + documents && reply == Reply::Done,
        CommandV::Replace { filter, document, upsert, .. } => exists|old: Option<DocV>| #[trigger]
            is_replaced(before, docs, filter, document, upsert, after, old) && reply
                == Reply::Matched(one_if(old)),
        CommandV::FindAndReplace { filter, document, upsert, .. } => reply matches Reply::One(d)
            && is_replaced(before, docs, filter, document, upsert, after, opt_doc(d)),
        CommandV::DeleteOne { filter, .. } => exists|old: Option<DocV>| #[trigger]
            is_removed(before, docs, filter, after, old) && reply == Reply::Deleted(one_if(old)),
        CommandV::FindAndDelete { filter, .. } => reply matches Reply::One(d) && is_removed(
            before,
            docs,
            filter,
            after,
            opt_doc(d),
        ),
        _ => false,
    }
}

/// The commands that read, add, replace and remove documents: one of them
/// always takes effect.
pub open spec fn is_known(c: CommandV) -> bool {
    c is FindOne || c is Find || c is Insert || c is InsertMany || c is Replace
        || c is FindAndReplace || c is DeleteOne || c is FindAndDelete
}

/// The collection that a command on documents works on.
pub open spec fn place_of(c: CommandV) -> Option<PlaceV> {
    match c {
        CommandV::FindOne { at, .. } => Some(at),
        CommandV::Find { at, .. } => Some(at),
        CommandV::Insert { at, .. } => Some(at),
        CommandV::InsertMany { at, .. } => Some(at),
        CommandV::Update { at, .. } => Some(at),
        CommandV::UpdateMany { at, .. } => Some(at),
        CommandV::UpdateWith { at, .. } => Some(at),
        CommandV::Replace { at, .. } => Some(at),
        CommandV::FindAndReplace { at, .. } => Some(at),
        CommandV::FindAndUpdate { at, .. } => Some(at),
        CommandV::FindAndDelete { at, .. } => Some(at),
        CommandV::DeleteOne { at, .. } => Some(at),
        CommandV::DeleteMany { at, .. } => Some(at),
        CommandV::Count { at, .. } => Some(at),
        _ => None,
    }
}

// --- What stands under a key ---------------------------------------------------------

/// At most one document matches a filter.
pub open spec fn is_single(
    before: spec_fn(BsonV, BsonV) -> bool,
    docs: Seq<DocV>,
    filter: DocV,
) -> bool {
    forall|i: int, j: int|
        0 <= i < docs.len() && 0 <= j < docs.len() && matches_filter(
            before,
            filter,
            #[trigger] docs[i],
        ) && matches_filter(before, filter, #[trigger] docs[j]) ==> i == j
}

/// What stands under a key is an item, or nothing: one document matches the
/// filter of the key, and holds the item, or none does.
pub open spec fn stands_under(
    before: spec_fn(BsonV, BsonV) -> bool,
    docs: Seq<DocV>,
    filter: DocV,
    x: Option<ItemV>,
) -> bool {
    &&& is_single(before, docs, filter)
    &&& match x {
        None => !any_matches(before, docs, filter),
        Some(item) => any_matches(before, docs, filter) && forall|i: int|
            0 <= i < docs.len() && matches_filter(before, filter, #[trigger] docs[i])
                ==> document_item(docs[i]) == Ok::<ItemV, ErrV>(item),
    }
}

/// The documents that do not match a filter are the same as before.
pub open spec fn others_kept(
    before: spec_fn(BsonV, BsonV) -> bool,
    filter: DocV,
    docs: Seq<DocV>,
    after: Seq<DocV>,
) -> bool {
    forall|d: DocV|
        !#[trigger] matches_filter(before, filter, d) ==> docs.to_multiset().count(d)
            == after.to_multiset().count(d)
}

/// A document takes the place of the one that matches, or is added.
pub proof fn lemma_replaced(
    before: spec_fn(BsonV, BsonV) -> bool,
    docs: Seq<DocV>,
    filter: DocV,
    document: DocV,
    upsert: bool,
    after: Seq<DocV>,
    old: Option<DocV>,
    x: Option<ItemV>,
    item: ItemV,
)
    requires
        is_replaced(before, docs, filter, document, upsert, after, old),
        stands_under(before, docs, filter, x),
        upsert || x is Some,
        matches_filter(before, filter, document),
        document_item(document) == Ok::<ItemV, ErrV>(item),
    ensures
        stands_under(before, after, filter, Some(item)),
        others_kept(before, filter, docs, after),
        old is Some == x is Some,
        old matches Some(d) ==> document_item(d) == Ok::<ItemV, ErrV>(x->0),
{
    broadcast use vstd::seq_lib::group_to_multiset_ensures;

    if any_matches(before, docs, filter) {
        let i = choose|i: int|
            0 <= i < docs.len() && matches_filter(before, filter, #[trigger] docs[i]) && after
                == docs.update(i, document) && old == Some(docs[i]);
        assert(after[i] == document);
        assert forall|j: int| 0 <= j < after.len() && j != i implies after[j] == docs[j] by {}
        assert(after.remove(i) =~= docs.remove(i));
        assert(docs.remove(i).to_multiset() =~= docs.to_multiset().remove(docs[i]));
        assert(after.remove(i).to_multiset() =~= after.to_multiset().remove(after[i]));
        assert forall|d: DocV| !#[trigger] matches_filter(before, filter, d) implies
            docs.to_multiset().count(d) == after.to_multiset().count(d) by {
            assert(docs.to_multiset().remove(docs[i]).count(d) == docs.to_multiset().count(d));
            assert(after.to_multiset().remove(after[i]).count(d) == after.to_multiset().count(d));
        }
    } else {
        let n = docs.len();
        assert(after[n as int] == document);
        assert forall|j: int| 0 <= j < n implies after[j] == docs[j] by {}
        assert(after.to_multiset() =~= docs.to_multiset().insert(document));
    }
}

/// The document that matches is gone.
pub proof fn lemma_removed(
    before: spec_fn(BsonV, BsonV) -> bool,
    docs: Seq<DocV>,
    filter: DocV,
    after: Seq<DocV>,
    old: Option<DocV>,
    x: Option<ItemV>,
)
    requires
        is_removed(before, docs, filter, after, old),
        stands_under(before, docs, filter, x),
    ensures
        stands_under(before, after, filter, None),
        others_kept(before, filter, docs, after),
        old is Some == x is Some,
        old matches Some(d) ==> document_item(d) == Ok::<ItemV, ErrV>(x->0),
{
    broadcast use vstd::seq_lib::group_to_multiset_ensures;

    if any_matches(before, docs, filter) {
        let i = choose|i: int|
            0 <= i < docs.len() && matches_filter(before, filter, #[trigger] docs[i]) && after
                == docs.remove(i) && old == Some(docs[i]);
        assert forall|j: int| 0 <= j < after.len() implies !matches_filter(
            before,
            filter,
            #[trigger] after[j],
        ) by {
            let k = if j < i {
                j
            } else {
                j + 1
            };
            assert(after[j] == docs[k]);
        }
        assert(docs.remove(i).to_multiset() =~= docs.to_multiset().remove(docs[i]));
        assert forall|d: DocV| !#[trigger] matches_filter(before, filter, d) implies
            docs.to_multiset().count(d) == after.to_multiset().count(d) by {
            assert(docs.to_multiset().remove(docs[i]).count(d) == docs.to_multiset().count(d));
        }
    }
}

/// A document that was found holds what stands under the key.
pub proof fn lemma_picked(
    before: spec_fn(BsonV, BsonV) -> bool,
    docs: Seq<DocV>,
    filter: DocV,
    d: Option<Document>,
    x: Option<ItemV>,
)
    requires
        is_pick(before, docs, filter, opt_doc(d)),
        stands_under(before, docs, filter, x),
    ensures
        found_item(d) == Ok::<Option<ItemV>, ErrV>(x),
{
    if let Some(v) = d {
        let i = choose|i: int| 0 <= i < docs.len() && docs[i] == v@;
        assert(matches_filter(before, filter, docs[i]));
    }
}

// --- Keys ----------------------------------------------------------------------------

/// A key names the sort key of an item, in the type that it is declared with.
pub open spec fn has_typed_key(item: ItemV, key: ItemKey) -> bool {
    key.sort_key matches Some(sk) ==> (item.get(sk.name@) matches Some(v) && as_key(
        v,
        sk.kind,
    ) is Some)
}

/// The keys of two items are the same: their partition keys are, and their
/// sort keys where there are some.
pub open spec fn is_same_key(a: ItemV, ka: ItemKey, b: ItemV, kb: ItemKey) -> bool {
    &&& ka.pk_text@ == kb.pk_text@
    &&& ka.sort_key matches Some(sk) ==> as_key(a.get(sk.name@)->0, sk.kind) == as_key(
        b.get(sk.name@)->0,
        sk.kind,
    )
}

proof fn lemma_names()
    ensures
        is_field("pk"@),
        is_field("_id"@),
        is_field("sk_s"@),
        is_field("sk_n"@),
        is_field("sk_b"@),
        is_field("_v"@),
        "pk"@ != "_id"@,
        "pk"@ != "sk_s"@,
        "pk"@ != "sk_n"@,
        "pk"@ != "sk_b"@,
        "pk"@ != "item_data"@,
        "pk"@ != "_v"@,
        "_id"@ != "sk_s"@,
        "_id"@ != "sk_n"@,
        "_id"@ != "sk_b"@,
        "_id"@ != "item_data"@,
        "_id"@ != "_v"@,
        "sk_s"@ != "sk_n"@,
        "sk_s"@ != "sk_b"@,
        "sk_n"@ != "sk_b"@,
        "sk_s"@ != "item_data"@,
        "sk_n"@ != "item_data"@,
        "sk_b"@ != "item_data"@,
        "sk_s"@ != "_v"@,
        "sk_n"@ != "_v"@,
        "sk_b"@ != "_v"@,
        "item_data"@ != "_v"@,
        forall|d: DocV| #[trigger] value_at(BsonV::Doc(d), "pk"@) == d.get("pk"@),
        forall|d: DocV| #[trigger] value_at(BsonV::Doc(d), "sk_s"@) == d.get("sk_s"@),
        forall|d: DocV| #[trigger] value_at(BsonV::Doc(d), "sk_n"@) == d.get("sk_n"@),
        forall|d: DocV| #[trigger] value_at(BsonV::Doc(d), "sk_b"@) == d.get("sk_b"@),
        forall|d: DocV| #[trigger] value_at(BsonV::Doc(d), "_v"@) == d.get("_v"@),
{
    reveal_strlit("pk");
    reveal_strlit("_id");
    reveal_strlit("sk_s");
    reveal_strlit("sk_n");
    reveal_strlit("sk_b");
    reveal_strlit("item_data");
    reveal_strlit("_v");
    assert("pk"@.len() == 2 && "_v"@.len() == 2 && "_id"@.len() == 3 && "item_data"@.len() == 9);
    assert("sk_s"@.len() == 4 && "sk_n"@.len() == 4 && "sk_b"@.len() == 4);
    assert("pk"@[0] == 'p' && "_v"@[0] == '_');
    assert("sk_s"@[3] == 's' && "sk_n"@[3] == 'n' && "sk_b"@[3] == 'b');
    lemma_is_part("pk"@);
    lemma_is_part("sk_s"@);
    lemma_is_part("sk_n"@);
    lemma_is_part("sk_b"@);
    lemma_is_part("_v"@);
    assert forall|d: DocV| #[trigger] value_at(BsonV::Doc(d), "pk"@) == d.get("pk"@) by {
        lemma_one_part(BsonV::Doc(d), "pk"@);
    }
    assert forall|d: DocV| #[trigger] value_at(BsonV::Doc(d), "sk_s"@) == d.get("sk_s"@) by {
        lemma_one_part(BsonV::Doc(d), "sk_s"@);
    }
    assert forall|d: DocV| #[trigger] value_at(BsonV::Doc(d), "sk_n"@) == d.get("sk_n"@) by {
        lemma_one_part(BsonV::Doc(d), "sk_n"@);
    }
    assert forall|d: DocV| #[trigger] value_at(BsonV::Doc(d), "sk_b"@) == d.get("sk_b"@) by {
        lemma_one_part(BsonV::Doc(d), "sk_b"@);
    }
    assert forall|d: DocV| #[trigger] value_at(BsonV::Doc(d), "_v"@) == d.get("_v"@) by {
        lemma_one_part(BsonV::Doc(d), "_v"@);
    }
}

/// The filter of a key matches a document that holds the values of the key.
pub proof fn lemma_key_matches(
    before: spec_fn(BsonV, BsonV) -> bool,
    a: ItemV,
    ka: ItemKey,
    d: DocV,
)
    requires
        has_typed_key(a, ka),
        d.get("pk"@) matches Some(v) ==> !(v is Array),
        ka.sort_key matches Some(sk) ==> (d.get(sk_field(sk.kind)) matches Some(v) ==> !(
        v is Array)),
    ensures
        key_filter(a, ka) is Ok,
        matches_filter(before, key_filter(a, ka)->Ok_0, d) == (d.get("pk"@) == Some(
            BsonV::Str(ka.pk_text@),
        ) && (ka.sort_key matches Some(sk) ==> d.get(sk_field(sk.kind)) == as_key(
            a.get(sk.name@)->0,
            sk.kind,
        ))),
{
    broadcast use crate::bson::group_document_fields;

    lemma_names();
    lemma_field("pk"@);
    lemma_field("sk_s"@);
    lemma_field("sk_n"@);
    lemma_field("sk_b"@);
    let base = doc1("pk"@, BsonV::Str(ka.pk_text@));
    lemma_one_clause(before, "pk"@, BsonV::Str(ka.pk_text@), d);
    if let Some(sk) = ka.sort_key {
        let x = as_key(a.get(sk.name@)->0, sk.kind)->0;
        lemma_more_clauses(before, base, sk_field(sk.kind), x, d);
    }
}

/// The filter of the key of an item matches the document of another just where
/// the two have the same key.
#[verifier::rlimit(30)]
pub proof fn law_key_finds_its_item(
    before: spec_fn(BsonV, BsonV) -> bool,
    a: ItemV,
    ka: ItemKey,
    b: ItemV,
    kb: ItemKey,
)
    requires
        has_typed_key(a, ka),
        has_typed_key(b, kb),
        ka.sort_key is Some == kb.sort_key is Some,
        ka.sort_key matches Some(sk) ==> kb.sort_key->0.name@ == sk.name@ && kb.sort_key->0.kind
            == sk.kind,
    ensures
        key_filter(a, ka) is Ok,
        item_document(b, kb) matches Ok(d) && matches_filter(before, key_filter(a, ka)->Ok_0, d)
            == is_same_key(a, ka, b, kb),
{
    broadcast use crate::bson::group_document_fields;

    lemma_names();
    let d = item_document(b, kb)->Ok_0;
    assert(d.get("pk"@) == Some(BsonV::Str(kb.pk_text@)));
    if let Some(sk) = ka.sort_key {
        assert(d.get(sk_field(sk.kind)) == as_key(b.get(sk.name@)->0, sk.kind));
    }
    lemma_key_matches(before, a, ka, d);
}

/// An item is found by its own key.
pub proof fn lemma_found_by_key(before: spec_fn(BsonV, BsonV) -> bool, item: ItemV, key: ItemKey)
    requires
        has_typed_key(item, key),
    ensures
        key_filter(item, key) is Ok,
        item_document(item, key) matches Ok(d) && matches_filter(
            before,
            key_filter(item, key)->Ok_0,
            d,
        ),
{
    law_key_finds_its_item(before, item, key, item, key);
}

// --- Operations ----------------------------------------------------------------------

/// The command that a step runs.
pub open spec fn command_of<S, T>(step: Step<S, T>) -> Option<CommandV> {
    match step {
        Step::Do(_, a) => match a@ {
            ActionV::Run(c) => Some(c),
            _ => None,
        },
        Step::Done(_) => None,
    }
}

/// The state that a step goes on from.
pub open spec fn state_of<S, T>(step: Step<S, T>) -> S {
    step->Do_0
}

/// The items of a table with an identifier are kept in one collection of the
/// data database.
pub open spec fn table_place(table_id: Seq<char>) -> PlaceV {
    in_data("_ddb_"@ + table_id)
}

/// A stored item is read back as it was.
pub open spec fn reads_back(item: ItemV, key: ItemKey) -> bool {
    item_document(item, key) matches Ok(d) && document_item(d) == Ok::<ItemV, ErrV>(item)
}

/// An item that may be handed out.
pub open spec fn if_asked(asked: bool, x: Option<ItemV>) -> Option<ItemV> {
    if asked {
        x
    } else {
        None
    }
}

/// A step runs no command but those that read, add, replace and remove
/// documents of a collection.
pub open spec fn keeps_to<S, T>(step: Step<S, T>, at: PlaceV) -> bool {
    command_of(step) matches Some(c) ==> is_known(c) && place_of(c) == Some(at)
}

/// Reading, putting and deleting an item begin with commands on the documents
/// of its table.
pub proof fn law_items_keep_to_table(
    table_id: Seq<char>,
    item: ItemV,
    key: ItemKey,
    return_old: bool,
    conditional: bool,
    get: Step<GetState, Option<Item>>,
    put: Step<PutState, PutDone>,
    delete: Step<DeleteState, DeleteDone>,
)
    requires
        get_begins(table_id, item, key, get),
        put_begins(table_id, item, key, return_old, conditional, put),
        delete_begins(table_id, item, key, return_old, conditional, delete),
        has_typed_key(item, key),
        item_document(item, key) is Ok,
    ensures
        command_of(get) is Some && keeps_to(get, table_place(table_id)),
        command_of(put) is Some && keeps_to(put, table_place(table_id)),
        command_of(delete) is Some && keeps_to(delete, table_place(table_id)),
{
    lemma_found_by_key(|a: BsonV, b: BsonV| false, item, key);
}

/// The collection that a put works on.
pub open spec fn put_place(state: PutState) -> Option<PlaceV> {
    match state {
        PutState::Finding(p) => Some(p.at@),
        PutState::Evaluating(p, _) => Some(p.at@),
        PutState::Inserting { at, .. } => Some(at@),
        _ => None,
    }
}

/// A put goes on with commands on the documents of its table.
pub proof fn law_put_keeps_to_table(state: PutState, event: Event, step: Step<PutState, PutDone>)
    requires
        put_goes_on(state, event, step),
        command_of(step) is Some,
    ensures
        put_place(state) matches Some(at) && keeps_to(step, at),
        put_place(state_of(step)) matches Some(at) ==> Some(at) == put_place(state),
{
}

/// The collection that a delete works on.
pub open spec fn delete_place(state: DeleteState) -> Option<PlaceV> {
    match state {
        DeleteState::Finding { at, .. } => Some(at@),
        DeleteState::Evaluating { at, .. } => Some(at@),
        _ => None,
    }
}

/// A delete goes on with commands on the documents of its table.
pub proof fn law_delete_keeps_to_table(
    state: DeleteState,
    event: Event,
    step: Step<DeleteState, DeleteDone>,
)
    requires
        delete_goes_on(state, event, step),
        command_of(step) is Some,
    ensures
        delete_place(state) matches Some(at) && keeps_to(step, at),
{
}

/// Reading the item of a key gives what stands under it, and changes nothing.
pub proof fn law_get_reads(
    before: spec_fn(BsonV, BsonV) -> bool,
    table_id: Seq<char>,
    item: ItemV,
    key: ItemKey,
    docs: Seq<DocV>,
    x: Option<ItemV>,
    after: Seq<DocV>,
    reply: Reply,
    first: Step<GetState, Option<Item>>,
    last: Step<GetState, Option<Item>>,
)
    requires
        has_typed_key(item, key),
        stands_under(before, docs, key_filter(item, key)->Ok_0, x),
        get_begins(table_id, item, key, first),
        command_of(first) matches Some(c) ==> takes_effect(before, c, docs, after, reply),
        get_ends(Event::Replied(reply), last),
    ensures
        command_of(first) matches Some(c) && place_of(c) == Some(table_place(table_id)),
        after == docs,
        last matches Step::Done(Ok(r)) && opt_item(r) == x,
{
    lemma_found_by_key(before, item, key);
    let f = key_filter(item, key)->Ok_0;
    lemma_picked(before, docs, f, reply->One_0, x);
}

/// A put without a condition stores the item under its key, leaves every other
/// document as it was, and hands out the item that it replaced where asked to.
pub proof fn law_put_stores(
    before: spec_fn(BsonV, BsonV) -> bool,
    table_id: Seq<char>,
    item: ItemV,
    key: ItemKey,
    return_old: bool,
    docs: Seq<DocV>,
    x: Option<ItemV>,
    after: Seq<DocV>,
    reply: Reply,
    first: Step<PutState, PutDone>,
    last: Step<PutState, PutDone>,
)
    requires
        has_typed_key(item, key),
        reads_back(item, key),
        stands_under(before, docs, key_filter(item, key)->Ok_0, x),
        put_begins(table_id, item, key, return_old, false, first),
        command_of(first) matches Some(c) ==> takes_effect(before, c, docs, after, reply),
        put_goes_on(state_of(first), Event::Replied(reply), last),
    ensures
        command_of(first) matches Some(c) && place_of(c) == Some(table_place(table_id)),
        stands_under(before, after, key_filter(item, key)->Ok_0, Some(item)),
        others_kept(before, key_filter(item, key)->Ok_0, docs, after),
        last matches Step::Done(Ok(done)) && opt_item(done.old) == x && opt_item(done.returned)
            == if_asked(return_old, x),
{
    lemma_found_by_key(before, item, key);
    let f = key_filter(item, key)->Ok_0;
    let document = item_document(item, key)->Ok_0;
    let d = reply->One_0;
    lemma_replaced(before, docs, f, document, true, after, opt_doc(d), x, item);
}

/// A put with a condition looks at what stands under the key, has the
/// condition evaluated on it, and writes only where the condition holds: then
/// the item stands under its key, and every other document is as it was. Where
/// the condition does not hold, it ends in an error and writes nothing.
pub proof fn law_conditional_put_stores(
    before: spec_fn(BsonV, BsonV) -> bool,
    table_id: Seq<char>,
    item: ItemV,
    key: ItemKey,
    return_old: bool,
    docs: Seq<DocV>,
    x: Option<ItemV>,
    holds: bool,
    found: Seq<DocV>,
    found_reply: Reply,
    after: Seq<DocV>,
    reply: Reply,
    s1: Step<PutState, PutDone>,
    s2: Step<PutState, PutDone>,
    s3: Step<PutState, PutDone>,
    s4: Step<PutState, PutDone>,
)
    requires
        has_typed_key(item, key),
        reads_back(item, key),
        stands_under(before, docs, key_filter(item, key)->Ok_0, x),
        put_begins(table_id, item, key, return_old, true, s1),
        command_of(s1) matches Some(c) ==> takes_effect(before, c, docs, found, found_reply),
        put_goes_on(state_of(s1), Event::Replied(found_reply), s2),
        put_goes_on(state_of(s2), Event::Evaluated(Ok(holds)), s3),
        command_of(s3) matches Some(c) ==> takes_effect(before, c, docs, after, reply),
        put_goes_on(state_of(s3), Event::Replied(reply), s4),
    ensures
        command_of(s1) matches Some(c) && place_of(c) == Some(table_place(table_id)) && !is_write(
            c,
        ),
        s2 matches Step::Do(_, a) && a@ == (ActionV::Evaluate {
            op: 0,
            item: match x {
                Some(i) => i,
                None => ItemV::empty(),
            },
        }),
        !holds ==> (s3 matches Step::Done(Err(e)) && e@ == ErrV::ConditionFailed(x)),
        holds ==> {
            &&& command_of(s3) matches Some(c) && place_of(c) == Some(table_place(table_id))
            &&& stands_under(before, after, key_filter(item, key)->Ok_0, Some(item))
            &&& others_kept(before, key_filter(item, key)->Ok_0, docs, after)
            &&& s4 matches Step::Done(Ok(done)) && opt_item(done.old) == x && opt_item(
                done.returned,
            ) == if_asked(return_old, x)
        },
{
    lemma_found_by_key(before, item, key);
    let f = key_filter(item, key)->Ok_0;
    let document = item_document(item, key)->Ok_0;
    lemma_picked(before, docs, f, found_reply->One_0, x);
    if holds {
        match x {
            Some(_) => {
                let d = reply->One_0;
                lemma_replaced(before, docs, f, document, false, after, opt_doc(d), x, item);
            },
            None => {
                lemma_replaced(before, docs, f, document, true, after, None, x, item);
            },
        }
    }
}

/// A delete without a condition removes what stands under the key, leaves
/// every other document as it was, and hands out the item that it removed
/// where asked to.
pub proof fn law_delete_removes(
    before: spec_fn(BsonV, BsonV) -> bool,
    table_id: Seq<char>,
    item: ItemV,
    key: ItemKey,
    return_old: bool,
    docs: Seq<DocV>,
    x: Option<ItemV>,
    after: Seq<DocV>,
    reply: Reply,
    first: Step<DeleteState, DeleteDone>,
    last: Step<DeleteState, DeleteDone>,
)
    requires
        has_typed_key(item, key),
        stands_under(before, docs, key_filter(item, key)->Ok_0, x),
        delete_begins(table_id, item, key, return_old, false, first),
        command_of(first) matches Some(c) ==> takes_effect(before, c, docs, after, reply),
        delete_goes_on(state_of(first), Event::Replied(reply), last),
    ensures
        command_of(first) matches Some(c) && place_of(c) == Some(table_place(table_id)),
        stands_under(before, after, key_filter(item, key)->Ok_0, None),
        others_kept(before, key_filter(item, key)->Ok_0, docs, after),
        last matches Step::Done(Ok(done)) && opt_item(done.deleted) == x && opt_item(done.returned)
            == if_asked(return_old, x),
{
    lemma_found_by_key(before, item, key);
    let f = key_filter(item, key)->Ok_0;
    lemma_removed(before, docs, f, after, opt_doc(reply->One_0), x);
}

/// A delete with a condition looks at what stands under the key, has the
/// condition evaluated on it, and removes it only where the condition holds.
/// Where the condition does not hold, it ends in an error and removes nothing.
pub proof fn law_conditional_delete_removes(
    before: spec_fn(BsonV, BsonV) -> bool,
    table_id: Seq<char>,
    item: ItemV,
    key: ItemKey,
    return_old: bool,
    docs: Seq<DocV>,
    x: Option<ItemV>,
    holds: bool,
    found: Seq<DocV>,
    found_reply: Reply,
    after: Seq<DocV>,
    reply: Reply,
    s1: Step<DeleteState, DeleteDone>,
    s2: Step<DeleteState, DeleteDone>,
    s3: Step<DeleteState, DeleteDone>,
    s4: Step<DeleteState, DeleteDone>,
)
    requires
        has_typed_key(item, key),
        stands_under(before, docs, key_filter(item, key)->Ok_0, x),
        delete_begins(table_id, item, key, return_old, true, s1),
        command_of(s1) matches Some(c) ==> takes_effect(before, c, docs, found, found_reply),
        delete_goes_on(state_of(s1), Event::Replied(found_reply), s2),
        delete_goes_on(state_of(s2), Event::Evaluated(Ok(holds)), s3),
        command_of(s3) matches Some(c) ==> takes_effect(before, c, docs, after, reply),
        delete_goes_on(state_of(s3), Event::Replied(reply), s4),
    ensures
        command_of(s1) matches Some(c) && place_of(c) == Some(table_place(table_id)) && !is_write(
            c,
        ),
        s2 matches Step::Do(_, a) && a@ == (ActionV::Evaluate {
            op: 0,
            item: match x {
                Some(i) => i,
                None => ItemV::empty(),
            },
        }),
        !holds ==> (s3 matches Step::Done(Err(e)) && e@ == ErrV::ConditionFailed(x)),
        holds && x is None ==> (s3 matches Step::Done(Ok(done)) && done.deleted is None
            && done.returned is None),
        holds && x is Some ==> {
            &&& command_of(s3) matches Some(c) && place_of(c) == Some(table_place(table_id))
            &&& stands_under(before, after, key_filter(item, key)->Ok_0, None)
            &&& others_kept(before, key_filter(item, key)->Ok_0, docs, after)
            &&& s4 matches Step::Done(Ok(done)) && opt_item(done.deleted) == x && opt_item(
                done.returned,
            ) == if_asked(return_old, x)
        },
{
    lemma_found_by_key(before, item, key);
    let f = key_filter(item, key)->Ok_0;
    lemma_picked(before, docs, f, found_reply->One_0, x);
    if holds && x is Some {
        let old = choose|old: Option<DocV>| #[trigger]
            is_removed(before, docs, f, after, old) && reply == Reply::Deleted(one_if(old));
        lemma_removed(before, docs, f, after, old, x);
    }
}

// --- Updates -------------------------------------------------------------------------

/// The version of a stored document; one that was never updated has none.
pub open spec fn stored_version(d: DocV) -> int {
    match d.get("_v"@) {
        Some(BsonV::Int64(v)) => v as int,
        _ => 0,
    }
}

/// A document has no version, or one that is counted from one on.
pub open spec fn is_versioned(d: DocV) -> bool {
    d.get("_v"@) matches Some(b) ==> (b matches BsonV::Int64(v) && v > 0)
}

/// Numbers are ordered by their size.
pub open spec fn orders_numbers(before: spec_fn(BsonV, BsonV) -> bool) -> bool {
    forall|a: i64, b: i64| #[trigger] before(BsonV::Int64(a), BsonV::Int64(b)) == (a < b)
}

/// The filter of an update finds a document only in the version that was read.
pub proof fn law_only_read_version_is_found(
    before: spec_fn(BsonV, BsonV) -> bool,
    filter: DocV,
    version: i64,
    d: DocV,
)
    requires
        filter.get("_v"@) is None,
        version >= 0,
        is_versioned(d),
        orders_numbers(before),
    ensures
        matches_filter(before, versioned(filter, version), d) == (matches_filter(before, filter, d)
            && stored_version(d) == version),
{
    lemma_names();
    lemma_field("_v"@);
    lemma_words();
    reveal_strlit("$not");
    let asked = if version == 0 {
        obj1("$not"@, obj1("$gt"@, BsonV::Int64(0)))
    } else {
        BsonV::Int64(version)
    };
    lemma_more_clauses(before, filter, "_v"@, asked, d);
    let x = d.get("_v"@);
    let more = doc1("$gt"@, BsonV::Int64(0));
    lemma_doc1("$not"@, BsonV::Doc(more));
    lemma_one_asked(before, "$not"@, BsonV::Doc(more), x);
    lemma_one_asked(before, "$gt"@, BsonV::Int64(0), x);
    assert(value_at(BsonV::Doc(d), "_v"@) == x);
    assert(clause_holds(before, "_v"@, asked, d) == asks_value(before, asked, x));
    assert(asks(before, "$not"@, BsonV::Doc(more), x) == !asks_all(before, more, x));
    assert(asks(before, "$gt"@, BsonV::Int64(0), x) == (stored_version(d) > 0)) by {
        if let Some(BsonV::Int64(v)) = x {
            assert(before(BsonV::Int64(0), BsonV::Int64(v)) == (0 < v));
        }
    }
}

/// An update begins by looking up what stands under the key in the table, and
/// is applied to that, or to the key itself where nothing stands there. With a
/// condition, the condition is evaluated on the same first.
pub proof fn law_update_starts_from_stored(
    before: spec_fn(BsonV, BsonV) -> bool,
    table_id: Seq<char>,
    item: ItemV,
    key: ItemKey,
    key_schema: Seq<(Seq<char>, KeyType)>,
    conditional: bool,
    return_old: bool,
    return_new: bool,
    docs: Seq<DocV>,
    x: Option<ItemV>,
    after: Seq<DocV>,
    reply: Reply,
    first: Step<UpdateState, UpdateDone>,
    second: Step<UpdateState, UpdateDone>,
    third: Step<UpdateState, UpdateDone>,
)
    requires
        has_typed_key(item, key),
        stands_under(before, docs, key_filter(item, key)->Ok_0, x),
        update_begins(
            table_id,
            item,
            key,
            key_schema,
            conditional,
            return_old,
            return_new,
            first,
        ),
        command_of(first) matches Some(c) ==> takes_effect(before, c, docs, after, reply),
        update_goes_on(state_of(first), Event::Replied(reply), second),
        conditional ==> update_goes_on(state_of(second), Event::Evaluated(Ok(true)), third),
    ensures
        after == docs,
        conditional ==> (second matches Step::Do(_, a) && a@ == (ActionV::Evaluate {
            op: 0,
            item: match x {
                Some(i) => i,
                None => item,
            },
        })),
        ({
            let asked = if conditional {
                third
            } else {
                second
            };
            &&& asked matches Step::Do(UpdateState::Applying(u, c), a)
            &&& a@ == (ActionV::Apply {
                op: 0,
                item: match x {
                    Some(i) => i,
                    None => item,
                },
            })
            &&& u.at@ == table_place(table_id)
            &&& u.filter@ == key_filter(item, key)->Ok_0
            &&& schema_view(u.key_schema@) == key_schema
            &&& u.return_old == return_old
            &&& u.return_new == return_new
            &&& c.found == x is Some
            &&& c.item@ == (match x {
                Some(i) => i,
                None => item,
            })
        }),
{
    lemma_found_by_key(before, item, key);
    lemma_picked(before, docs, key_filter(item, key)->Ok_0, reply->One_0, x);
}

/// An update begins with a command on the documents of its table.
pub proof fn law_update_begins_in_table(
    table_id: Seq<char>,
    item: ItemV,
    key: ItemKey,
    key_schema: Seq<(Seq<char>, KeyType)>,
    conditional: bool,
    return_old: bool,
    return_new: bool,
    first: Step<UpdateState, UpdateDone>,
)
    requires
        has_typed_key(item, key),
        update_begins(
            table_id,
            item,
            key,
            key_schema,
            conditional,
            return_old,
            return_new,
            first,
        ),
    ensures
        command_of(first) is Some && keeps_to(first, table_place(table_id)),
{
    lemma_found_by_key(|a: BsonV, b: BsonV| false, item, key);
}

/// What the changes of an update gave is what is keyed, and what is keyed is
/// what is written, under its own key: whatever document an update writes
/// reads back as the updated item and, apart from its version, is the document
/// of that item. The version is one more than the one that was read.
pub proof fn law_update_writes_updated_item(
    u: Update,
    c: Current,
    new: Item,
    k: ItemKey,
    keyed: Step<UpdateState, UpdateDone>,
    written: Step<UpdateState, UpdateDone>,
)
    requires
        update_goes_on(UpdateState::Applying(u, c), Event::Applied(Ok(new)), keyed),
        update_goes_on(state_of(keyed), Event::Key(Ok(k)), written),
        reads_back(new@, k),
        c.version < i64::MAX,
    ensures
        keyed matches Step::Do(_, a) && a@ == (ActionV::KeyOf {
            op: 0,
            item: new@,
            key_schema: schema_view(u.key_schema@),
        }),
        keeps_to(written, u.at@),
        command_of(written) matches Some(CommandV::Replace { document, .. }) && {
            &&& document_item(document) == Ok::<ItemV, ErrV>(new@)
            &&& stored_version(document) == c.version + 1
            &&& forall|name: Seq<char>|
                name != "_v"@ ==> #[trigger] document.get(name) == item_document(
                    new@,
                    k,
                )->Ok_0.get(name)
        },
{
    broadcast use crate::bson::group_document_fields;

    lemma_names();
}

/// A document that may have been updated since it was read.
pub open spec fn is_read_version(
    before: spec_fn(BsonV, BsonV) -> bool,
    docs: Seq<DocV>,
    filter: DocV,
    version: i64,
) -> bool {
    exists|i: int|
        0 <= i < docs.len() && matches_filter(before, filter, #[trigger] docs[i])
            && stored_version(docs[i]) == version
}

/// What an update writes stands under the key afterwards, every other document
/// is as it was, and the update ends with the old and the new item, handed out
/// as asked for. Where another writer has stored another version since, it
/// writes nothing, and the update is tried again.
#[verifier::rlimit(40)]
pub proof fn law_update_stores(
    before: spec_fn(BsonV, BsonV) -> bool,
    item: ItemV,
    key: ItemKey,
    u: Update,
    c: Current,
    new: Item,
    k: ItemKey,
    docs: Seq<DocV>,
    x: Option<ItemV>,
    after: Seq<DocV>,
    reply: Reply,
    written: Step<UpdateState, UpdateDone>,
    last: Step<UpdateState, UpdateDone>,
)
    requires
        has_typed_key(item, key),
        u.filter@ == key_filter(item, key)->Ok_0,
        has_typed_key(new@, k),
        reads_back(new@, k),
        key.sort_key is Some == k.sort_key is Some,
        key.sort_key matches Some(sk) ==> k.sort_key->0.name@ == sk.name@ && k.sort_key->0.kind
            == sk.kind,
        is_same_key(item, key, new@, k),
        0 <= c.version < i64::MAX,
        orders_numbers(before),
        forall|i: int| 0 <= i < docs.len() ==> is_versioned(#[trigger] docs[i]),
        stands_under(before, docs, u.filter@, x),
        c.found || x is None,
        update_goes_on(UpdateState::Keying(u, c, new), Event::Key(Ok(k)), written),
        command_of(written) matches Some(w) ==> takes_effect(before, w, docs, after, reply),
        update_goes_on(state_of(written), Event::Replied(reply), last),
    ensures
        c.found && !is_read_version(before, docs, u.filter@, c.version) ==> {
            &&& after == docs
            &&& last matches Step::Do(UpdateState::Pausing(v), a)
            &&& v == u
            &&& a@ is Pause
        },
        !c.found || is_read_version(before, docs, u.filter@, c.version) ==> {
            &&& stands_under(before, after, u.filter@, Some(new@))
            &&& others_kept(before, u.filter@, docs, after)
            &&& last matches Step::Done(Ok(done))
            &&& done.new@ == new@
            &&& opt_item(done.old) == if_asked(c.found, Some(c.item@))
            &&& opt_item(done.returned_old) == if_asked(u.return_old, Some(c.item@))
            &&& opt_item(done.returned_new) == if_asked(u.return_new, Some(new@))
        },
{
    broadcast use crate::bson::group_document_fields;

    lemma_names();
    let f = u.filter@;
    lemma_found_by_key(before, item, key);
    let plain = item_document(new@, k)->Ok_0;
    let w = command_of(written)->0;
    let document = w->Replace_document;
    assert(document == plain.with("_v"@, BsonV::Int64((c.version + 1) as i64)));
    assert(document.get("pk"@) == Some(BsonV::Str(k.pk_text@)));
    if let Some(sk) = key.sort_key {
        assert(document.get(sk_field(sk.kind)) == as_key(new@.get(sk.name@)->0, sk.kind));
        assert(sk_field(sk.kind) != "_v"@);
    }
    lemma_key_matches(before, item, key, document);
    assert(matches_filter(before, f, document));
    assert(document_item(document) == Ok::<ItemV, ErrV>(new@));
    lemma_no_version(item, key);
    let g = w->Replace_filter;
    let old = choose|old: Option<DocV>| #[trigger]
        is_replaced(before, docs, g, document, w->Replace_upsert, after, old) && reply
            == Reply::Matched(one_if(old));
    if c.found {
        assert forall|i: int| 0 <= i < docs.len() implies matches_filter(
            before,
            g,
            #[trigger] docs[i],
        ) == (matches_filter(before, f, docs[i]) && stored_version(docs[i]) == c.version) by {
            assert(is_versioned(docs[i]));
            law_only_read_version_is_found(before, f, c.version, docs[i]);
        }
        if is_read_version(before, docs, f, c.version) {
            let i = choose|i: int|
                0 <= i < docs.len() && matches_filter(before, f, #[trigger] docs[i])
                    && stored_version(docs[i]) == c.version;
            assert(matches_filter(before, g, docs[i]));
            assert(any_matches(before, docs, g));
            let j = choose|j: int|
                0 <= j < docs.len() && matches_filter(before, g, #[trigger] docs[j]) && after
                    == docs.update(j, document) && old == Some(docs[j]);
            assert(matches_filter(before, f, docs[j]));
            assert(is_replaced(before, docs, f, document, false, after, old));
            assert(any_matches(before, docs, f));
            lemma_replaced(before, docs, f, document, false, after, old, x, new@);
        } else {
            assert(!any_matches(before, docs, g));
        }
    } else {
        lemma_replaced(before, docs, f, document, true, after, old, x, new@);
    }
}

proof fn lemma_no_version(item: ItemV, key: ItemKey)
    requires
        has_typed_key(item, key),
    ensures
        key_filter(item, key) matches Ok(f) && f.get("_v"@) is None,
{
    broadcast use crate::bson::group_document_fields;

    lemma_names();
}

/// An update goes on with commands on the documents of its table.
pub open spec fn update_place(state: UpdateState) -> PlaceV {
    match state {
        UpdateState::Finding(u) => u.at@,
        UpdateState::Evaluating(u, _) => u.at@,
        UpdateState::Applying(u, _) => u.at@,
        UpdateState::Keying(u, _, _) => u.at@,
        UpdateState::Writing(u, _, _) => u.at@,
        UpdateState::Pausing(u) => u.at@,
    }
}

/// An update keeps to the documents of its table, and tried again it looks the
/// stored document up anew.
pub proof fn law_update_keeps_to_table(
    state: UpdateState,
    event: Event,
    step: Step<UpdateState, UpdateDone>,
)
    requires
        update_goes_on(state, event, step),
        step is Do,
    ensures
        keeps_to(step, update_place(state)),
        update_place(state_of(step)) == update_place(state),
        state matches UpdateState::Pausing(u) ==> (command_of(step) matches Some(
            CommandV::FindOne { filter, .. },
        ) && filter == u.filter@),
{
}

/// The document of an item is kept under its key: its partition key, with its
/// sort key behind that where it has one, both as texts; and it has both in
/// fields of their own, the sort key in the field of its type.
pub proof fn law_document_is_kept_under_key(item: ItemV, key: ItemKey, d: DocV)
    requires
        item_document(item, key) == Ok::<DocV, ErrV>(d),
        has_typed_key(item, key),
    ensures
        d.get_str("pk"@) == Some(key.pk_text@),
        key.sort_key is None ==> d.get_str("_id"@) == Some(key.pk_text@),
        key.sort_key matches Some(sk) ==> {
            &&& d.get_str("_id"@) == Some(
                key.pk_text@ + "#"@ + (match item.get(sk.name@)->0 {
                    AvV::S(s) => s,
                    AvV::N(n) => n,
                    AvV::B(b) => base64_text(b),
                    _ => ""@,
                }),
            )
            &&& d.get(
                match sk.kind {
                    ScalarAttributeType::S => "sk_s"@,
                    ScalarAttributeType::N => "sk_n"@,
                    ScalarAttributeType::B => "sk_b"@,
                },
            ) == as_key(item.get(sk.name@)->0, sk.kind)
        },
{
    broadcast use crate::bson::group_document_fields;

    lemma_names();
    reveal_strlit("_id");
    reveal_strlit("pk");
    reveal_strlit("sk_s");
    reveal_strlit("sk_n");
    reveal_strlit("sk_b");
    reveal_strlit("item_data");
    assert("_id"@.len() == 3 && "pk"@.len() == 2 && "item_data"@.len() == 9);
    assert("sk_s"@.len() == 4 && "sk_n"@.len() == 4 && "sk_b"@.len() == 4);
}

// --- What goes wrong -----------------------------------------------------------------

/// A put whose condition held of nothing, and that another writer was faster
/// than, fails as if its condition had failed, with the item that is there now.
pub proof fn law_lost_race_fails_condition(
    at: Place,
    filter: Document,
    e: DbError,
    winner: Option<Document>,
    s1: Step<PutState, PutDone>,
    s2: Step<PutState, PutDone>,
)
    requires
        occurs_in(e.message@, "E11000"@),
        put_goes_on(
            PutState::Inserting { at, filter },
            Event::Replied(Reply::Failed(e)),
            s1,
        ),
        put_goes_on(state_of(s1), Event::Replied(Reply::One(winner)), s2),
        winner matches Some(d) ==> document_item(d@) is Ok,
    ensures
        command_of(s1) == Some(CommandV::FindOne { at: at@, filter: filter@ }),
        s2 matches Step::Done(Err(x)) && x@ == ErrV::ConditionFailed(
            match winner {
                Some(d) => Some(document_item(d@)->Ok_0),
                None => None,
            },
        ),
{
}

/// A put that the database refuses for another reason ends with its message.
pub proof fn law_refused_put_fails(
    state: PutState,
    e: DbError,
    step: Step<PutState, PutDone>,
)
    requires
        put_goes_on(state, Event::Replied(Reply::Failed(e)), step),
        state is Inserting ==> !occurs_in(e.message@, "E11000"@),
    ensures
        step matches Step::Done(Err(x)) && x@ == ErrV::Internal(e.message@),
{
}

/// A read, a delete or an update that the database refuses ends with its
/// message.
pub proof fn law_refused_command_fails(
    d: DeleteState,
    u: UpdateState,
    e: DbError,
    got: Step<GetState, Option<Item>>,
    deleted: Step<DeleteState, DeleteDone>,
    updated: Step<UpdateState, UpdateDone>,
)
    requires
        get_ends(Event::Replied(Reply::Failed(e)), got),
        delete_goes_on(d, Event::Replied(Reply::Failed(e)), deleted),
        update_goes_on(u, Event::Replied(Reply::Failed(e)), updated),
    ensures
        got matches Step::Done(Err(x)) && x@ == ErrV::Internal(e.message@),
        deleted matches Step::Done(Err(x)) && x@ == ErrV::Internal(e.message@),
        updated matches Step::Done(Err(x)) && x@ == ErrV::Internal(e.message@),
{
}

/// A condition or an update that cannot be worked out is told to the caller as
/// invalid, and nothing is written.
pub proof fn law_invalid_expression_fails(
    p: Put,
    existing: Option<Item>,
    u: Update,
    c: Current,
    m: String,
    put: Step<PutState, PutDone>,
    evaluated: Step<UpdateState, UpdateDone>,
    applied: Step<UpdateState, UpdateDone>,
)
    requires
        put_goes_on(PutState::Evaluating(p, existing), Event::Evaluated(Err(m)), put),
        update_goes_on(UpdateState::Evaluating(u, c), Event::Evaluated(Err(m)), evaluated),
        update_goes_on(UpdateState::Applying(u, c), Event::Applied(Err(m)), applied),
    ensures
        put matches Step::Done(Err(x)) && x@ == ErrV::Validation(m@),
        evaluated matches Step::Done(Err(x)) && x@ == ErrV::Validation(m@),
        applied matches Step::Done(Err(x)) && x@ == ErrV::Validation(m@),
{
}

/// An update whose condition fails writes nothing, and tells the item on which
/// it failed.
pub proof fn law_failed_update_writes_nothing(
    u: Update,
    c: Current,
    step: Step<UpdateState, UpdateDone>,
)
    requires
        update_goes_on(UpdateState::Evaluating(u, c), Event::Evaluated(Ok(false)), step),
    ensures
        step matches Step::Done(Err(x)) && x@ == ErrV::ConditionFailed(Some(c.item@)),
{
}

/// An update that found another version than it had read starts over from
/// what is stored by then, fifty times at most.
pub proof fn law_conflict_is_tried_again(u: Update, step: Step<UpdateState, UpdateDone>)
    requires
        update_goes_on(UpdateState::Pausing(u), Event::Paused, step),
        u.attempt < u64::MAX,
    ensures
        u.attempt + 1 < 50 ==> (step matches Step::Do(UpdateState::Finding(v), _) && v.attempt
            == u.attempt + 1 && v.at == u.at && v.filter == u.filter && v.key == u.key
            && v.key_schema == u.key_schema && v.conditional == u.conditional && v.return_old
            == u.return_old && v.return_new == u.return_new && command_of(step) == Some(
            CommandV::FindOne { at: u.at@, filter: u.filter@ },
        )),
        u.attempt + 1 >= 50 ==> (step matches Step::Done(Err(x)) && x@ is Internal),
{
}

} // verus!
