//! How the entries of the catalog are found and changed: tables, their
//! indexes, and what is noted of them.

use vstd::prelude::*;
use vstd::string::*;

use crate::bson::{doc1, lemma_doc1, obj1, BsonV, DocV, Document};
use crate::catalog::{
    find_table_of, index_filter_of, index_key, indexes_filter_of, table_filter_of, table_key,
};
use crate::error::ErrV;
use crate::lookup::{
    field_after, inner, is_name, is_plain_update, is_updated, lemma_asked_clause,
    lemma_inner_clause, lemma_plain_clause, lemma_set, lemma_update_words,
};
use crate::meaning::{
    is_operators, lemma_more_clauses, lemma_no_clause, lemma_one_clause, lemma_words,
    matches_filter,
};
use crate::protocol::{in_catalog, CommandV, Reply};
use crate::records::orders_times;
use crate::ttl::{id_part, note_ready_of, note_size_of, set_ttl_of, ttl_said, ttl_tables_filter};
use crate::worker::{activate_of, overdue_of};

verus! {

// --- Names ---------------------------------------------------------------------------

/// Fields of the entries of tables.
pub proof fn lemma_table_names()
    ensures
        is_name("_id"@),
        is_name("account_id"@),
        is_name("table_name"@),
        is_name("table_id"@),
        is_name("index_name"@),
        is_name("table_status"@),
        is_name("status_transition_at"@),
        is_name("ttl_attribute"@),
        is_name("ttl_index_ready"@),
        is_name("item_count"@),
        is_name("table_size_bytes"@),
        "_id"@.len() == 3,
        "account_id"@.len() == 10,
        "table_name"@.len() == 10,
        "table_id"@.len() == 8,
        "index_name"@.len() == 10,
        "table_status"@.len() == 12,
        "status_transition_at"@.len() == 20,
        "ttl_attribute"@.len() == 13,
        "ttl_index_ready"@.len() == 15,
        "item_count"@.len() == 10,
        "table_size_bytes"@.len() == 16,
        "account_id"@[0] == 'a',
        "table_name"@[0] == 't',
        "index_name"@[0] == 'i',
        "item_count"@[0] == 'i',
{
    reveal_strlit("_id");
    reveal_strlit("account_id");
    reveal_strlit("table_name");
    reveal_strlit("table_id");
    reveal_strlit("index_name");
    reveal_strlit("table_status");
    reveal_strlit("status_transition_at");
    reveal_strlit("ttl_attribute");
    reveal_strlit("ttl_index_ready");
    reveal_strlit("item_count");
    reveal_strlit("table_size_bytes");
}

// --- Tables and indexes by their names -----------------------------------------------

/// The entry of a table is found by its account and its name, and tells both.
pub proof fn law_table_is_found_by_name(
    before: spec_fn(BsonV, BsonV) -> bool,
    account_id: Seq<char>,
    table_name: Seq<char>,
    d: DocV,
    of: Seq<char>,
    name: Seq<char>,
)
    requires
        d.get("_id"@) == Some(table_key(of, name)),
    ensures
        matches_filter(before, table_filter_of(account_id, table_name), d) == (of == account_id
            && name == table_name),
        find_table_of(account_id, table_name) == (CommandV::FindOne {
            at: in_catalog("tables"@),
            filter: table_filter_of(account_id, table_name),
        }),
        id_part(d, "account_id"@) == of,
        id_part(d, "table_name"@) == name,
        inner(d, "_id"@, "account_id"@) == Some(BsonV::Str(of)),
        inner(d, "_id"@, "table_name"@) == Some(BsonV::Str(name)),
{
    broadcast use crate::bson::group_document_fields;

    lemma_table_names();
    let v = table_key(account_id, table_name);
    let w = table_key(of, name);
    assert(w->Doc_0.get("account_id"@) == Some(BsonV::Str(of)));
    assert(w->Doc_0.get("table_name"@) == Some(BsonV::Str(name)));
    assert(v->Doc_0.get("account_id"@) == Some(BsonV::Str(account_id)));
    assert(v->Doc_0.get("table_name"@) == Some(BsonV::Str(table_name)));
    lemma_key_document("account_id"@, BsonV::Str(account_id), "table_name"@, BsonV::Str(table_name));
    lemma_one_clause(before, "_id"@, v, d);
    lemma_plain_clause(before, "_id"@, v, d);
}

/// A document of two fields is no operator.
pub proof fn lemma_key_document(a: Seq<char>, v: BsonV, b: Seq<char>, w: BsonV)
    requires
        is_name(a),
        a != b,
    ensures
        !is_operators(BsonV::Doc(doc1(a, v).with(b, w))),
{
    broadcast use crate::bson::group_document_fields;

    lemma_doc1(a, v);
    crate::meaning::lemma_appended(doc1(a, v), b, w);
    assert(doc1(a, v).with(b, w).entries[0] == (a, v));
}

/// The entry of an index is found by its table and its name, and among those
/// of its table.
pub proof fn law_index_is_found_by_name(
    before: spec_fn(BsonV, BsonV) -> bool,
    table_id: Seq<char>,
    index_name: Seq<char>,
    d: DocV,
    of: Seq<char>,
    name: Seq<char>,
)
    requires
        d.get("_id"@) == Some(index_key(of, name)),
    ensures
        matches_filter(before, index_filter_of(table_id, index_name), d) == (of == table_id && name
            == index_name),
        matches_filter(before, indexes_filter_of(table_id), d) == (of == table_id),
{
    broadcast use crate::bson::group_document_fields;

    lemma_table_names();
    reveal_strlit("_id.table_id");
    reveal_strlit("_id");
    reveal_strlit("table_id");
    reveal_strlit(".");
    let v = index_key(table_id, index_name);
    let w = index_key(of, name);
    assert(w->Doc_0.get("table_id"@) == Some(BsonV::Str(of)));
    assert(w->Doc_0.get("index_name"@) == Some(BsonV::Str(name)));
    assert(v->Doc_0.get("table_id"@) == Some(BsonV::Str(table_id)));
    assert(v->Doc_0.get("index_name"@) == Some(BsonV::Str(index_name)));
    lemma_key_document("table_id"@, BsonV::Str(table_id), "index_name"@, BsonV::Str(index_name));
    lemma_one_clause(before, "_id"@, v, d);
    lemma_plain_clause(before, "_id"@, v, d);
    assert("_id.table_id"@ =~= "_id"@ + "."@ + "table_id"@);
    lemma_one_clause(before, "_id.table_id"@, BsonV::Str(table_id), d);
    lemma_inner_clause(before, "_id"@, "table_id"@, BsonV::Str(table_id), d);
}

/// A table is found by its account and its name only while it has a status.
pub proof fn lemma_table_in_status(
    before: spec_fn(BsonV, BsonV) -> bool,
    account_id: Seq<char>,
    table_name: Seq<char>,
    status: Seq<char>,
    d: DocV,
    of: Seq<char>,
    name: Seq<char>,
    is: Seq<char>,
)
    requires
        d.get("_id"@) == Some(table_key(of, name)),
        d.get("table_status"@) == Some(BsonV::Str(is)),
    ensures
        matches_filter(
            before,
            table_filter_of(account_id, table_name).with("table_status"@, BsonV::Str(status)),
            d,
        ) == (of == account_id && name == table_name && is == status),
{
    broadcast use crate::bson::group_document_fields;

    lemma_table_names();
    law_table_is_found_by_name(before, account_id, table_name, d, of, name);
    let f = table_filter_of(account_id, table_name);
    lemma_more_clauses(before, f, "table_status"@, BsonV::Str(status), d);
    lemma_plain_clause(before, "table_status"@, BsonV::Str(status), d);
}

// --- Expiry --------------------------------------------------------------------------

/// Setting the expiry of a table changes the entry of that table, while it is
/// active, and no other: it tells the attribute afterwards, or that there is
/// none, that its index is not ready, and all else as before.
pub proof fn law_expiry_is_set(
    before: spec_fn(BsonV, BsonV) -> bool,
    account_id: Seq<char>,
    table_name: Seq<char>,
    attribute: Option<Seq<char>>,
    d: DocV,
    of: Seq<char>,
    name: Seq<char>,
    status: Seq<char>,
    r: Document,
    k: Seq<char>,
)
    requires
        d.get("_id"@) == Some(table_key(of, name)),
        d.get("table_status"@) == Some(BsonV::Str(status)),
        set_ttl_of(account_id, table_name, attribute) matches CommandV::Update { update, .. }
            && is_updated(update, false, d, r@),
        is_name(k),
    ensures
        set_ttl_of(account_id, table_name, attribute) matches CommandV::Update {
            at,
            filter,
            update,
            upsert,
        } && at == in_catalog("tables"@) && !upsert && is_plain_update(update) && matches_filter(
            before,
            filter,
            d,
        ) == (of == account_id && name == table_name && status == "ACTIVE"@),
        ttl_said(table_name, Reply::One(Some(r))) == Ok::<Option<Seq<char>>, ErrV>(attribute),
        r@.get("ttl_index_ready"@) == Some(BsonV::Boolean(false)),
        k != "ttl_attribute"@ && k != "ttl_index_ready"@ ==> r@.get(k) == d.get(k),
{
    broadcast use crate::bson::group_document_fields;

    lemma_table_names();
    lemma_table_in_status(before, account_id, table_name, "ACTIVE"@, d, of, name, status);
    let fields = named_set(set_ttl_of(account_id, table_name, attribute)->Update_update);
    lemma_set(fields, false, d, r@, "ttl_attribute"@);
    lemma_set(fields, false, d, r@, "ttl_index_ready"@);
    lemma_set(fields, false, d, r@, k);
}

spec fn named_set(update: DocV) -> DocV {
    crate::lookup::named_under(update, "$set"@)
}

/// Noting whether the index on the time of expiry is ready changes that in the
/// entry of the table, and nothing else.
pub proof fn law_readiness_is_noted(
    before: spec_fn(BsonV, BsonV) -> bool,
    account_id: Seq<char>,
    table_name: Seq<char>,
    ready: bool,
    d: DocV,
    of: Seq<char>,
    name: Seq<char>,
    r: DocV,
    k: Seq<char>,
)
    requires
        d.get("_id"@) == Some(table_key(of, name)),
        note_ready_of(account_id, table_name, ready) matches CommandV::Update { update, .. }
            && is_updated(update, false, d, r),
        is_name(k),
    ensures
        note_ready_of(account_id, table_name, ready) matches CommandV::Update {
            at,
            filter,
            update,
            upsert,
        } && at == in_catalog("tables"@) && !upsert && is_plain_update(update) && matches_filter(
            before,
            filter,
            d,
        ) == (of == account_id && name == table_name),
        r.get("ttl_index_ready"@) == Some(BsonV::Boolean(ready)),
        k != "ttl_index_ready"@ ==> r.get(k) == d.get(k),
{
    broadcast use crate::bson::group_document_fields;

    lemma_table_names();
    law_table_is_found_by_name(before, account_id, table_name, d, of, name);
    let fields = doc1("ttl_index_ready"@, BsonV::Boolean(ready));
    lemma_set(fields, false, d, r, "ttl_index_ready"@);
    lemma_set(fields, false, d, r, k);
}

/// Noting the size of a table changes the count of its items and its size in
/// its entry, while it is active, and nothing else.
pub proof fn law_size_is_noted(
    before: spec_fn(BsonV, BsonV) -> bool,
    account_id: Seq<char>,
    table_name: Seq<char>,
    count: u64,
    size: i64,
    d: DocV,
    of: Seq<char>,
    name: Seq<char>,
    status: Seq<char>,
    r: DocV,
    k: Seq<char>,
)
    requires
        d.get("_id"@) == Some(table_key(of, name)),
        d.get("table_status"@) == Some(BsonV::Str(status)),
        note_size_of(account_id, table_name, count, size) matches CommandV::Update { update, .. }
            && is_updated(update, false, d, r),
        is_name(k),
    ensures
        note_size_of(account_id, table_name, count, size) matches CommandV::Update {
            at,
            filter,
            update,
            upsert,
        } && at == in_catalog("tables"@) && !upsert && is_plain_update(update) && matches_filter(
            before,
            filter,
            d,
        ) == (of == account_id && name == table_name && status == "ACTIVE"@),
        count <= i64::MAX ==> (r.get_i64("item_count"@) matches Some(n) && n == count),
        r.get_i64("table_size_bytes"@) == Some(size),
        k != "item_count"@ && k != "table_size_bytes"@ ==> r.get(k) == d.get(k),
{
    broadcast use crate::bson::group_document_fields;

    lemma_table_names();
    lemma_table_in_status(before, account_id, table_name, "ACTIVE"@, d, of, name, status);
    let fields = named_set(note_size_of(account_id, table_name, count, size)->Update_update);
    lemma_set(fields, false, d, r, "item_count"@);
    lemma_set(fields, false, d, r, "table_size_bytes"@);
    lemma_set(fields, false, d, r, k);
}

/// The tables with expiry that are listed are those that are active and name
/// an attribute; of one account where one is given, and where asked for only
/// those whose index is ready.
pub proof fn law_tables_with_expiry_are_listed(
    before: spec_fn(BsonV, BsonV) -> bool,
    account_id: Option<Seq<char>>,
    ready: bool,
    d: DocV,
    of: Seq<char>,
    name: Seq<char>,
    status: Seq<char>,
)
    requires
        d.get("_id"@) == Some(table_key(of, name)),
        d.get("table_status"@) == Some(BsonV::Str(status)),
        !(d.get("ttl_attribute"@) matches Some(BsonV::Array(_))),
        !(d.get("ttl_index_ready"@) matches Some(BsonV::Array(_))),
    ensures
        matches_filter(before, ttl_tables_filter(account_id, ready), d) == ((account_id matches Some(
            a,
        ) ==> a == of) && status == "ACTIVE"@ && d.get("ttl_attribute"@) is Some && d.get(
            "ttl_attribute"@,
        ) != Some(BsonV::Null) && (ready ==> d.get("ttl_index_ready"@) == Some(
            BsonV::Boolean(true),
        ))),
{
    broadcast use crate::bson::group_document_fields;

    lemma_words();
    lemma_table_names();
    reveal_strlit("$ne");
    reveal_strlit("_id.account_id");
    reveal_strlit("_id");
    reveal_strlit("account_id");
    reveal_strlit(".");
    assert("_id.account_id"@.len() == 14);
    assert("_id.account_id"@ =~= "_id"@ + "."@ + "account_id"@);
    law_table_is_found_by_name(before, of, name, d, of, name);
    let f0 = match account_id {
        Some(a) => doc1("_id.account_id"@, BsonV::Str(a)),
        None => DocV::empty(),
    };
    lemma_no_clause(before, d);
    if let Some(a) = account_id {
        lemma_one_clause(before, "_id.account_id"@, BsonV::Str(a), d);
        lemma_inner_clause(before, "_id"@, "account_id"@, BsonV::Str(a), d);
    }
    let no_null = obj1("$ne"@, BsonV::Null);
    lemma_more_clauses(before, f0, "ttl_attribute"@, no_null, d);
    lemma_asked_clause(before, "ttl_attribute"@, "$ne"@, BsonV::Null, d);
    let f1 = f0.with("ttl_attribute"@, no_null);
    let f2 = if ready {
        f1.with("ttl_index_ready"@, BsonV::Boolean(true))
    } else {
        f1
    };
    if ready {
        lemma_more_clauses(before, f1, "ttl_index_ready"@, BsonV::Boolean(true), d);
        lemma_plain_clause(before, "ttl_index_ready"@, BsonV::Boolean(true), d);
    }
    lemma_more_clauses(before, f2, "table_status"@, BsonV::Str("ACTIVE"@), d);
    lemma_plain_clause(before, "table_status"@, BsonV::Str("ACTIVE"@), d);
}

// --- Tables that change their status -------------------------------------------------

/// The tables that are overdue in a status are those that have it and whose
/// time to change it has come.
pub proof fn law_overdue_tables_are_listed(
    before: spec_fn(BsonV, BsonV) -> bool,
    status: Seq<char>,
    now: i64,
    d: DocV,
    is: Seq<char>,
    due: Option<i64>,
)
    requires
        orders_times(before),
        d.get("table_status"@) == Some(BsonV::Str(is)),
        d.get("status_transition_at"@) == (match due {
            Some(t) => Some(BsonV::DateTime(t)),
            None => None,
        }),
    ensures
        overdue_of(status, now) matches CommandV::Find { at, filter, paging } && at == in_catalog(
            "tables"@,
        ) && paging.limit is None && matches_filter(before, filter, d) == (is == status && (
        due matches Some(t) && t <= now)),
{
    broadcast use crate::bson::group_document_fields;

    lemma_words();
    lemma_table_names();
    reveal_strlit("$lte");
    let f = doc1("table_status"@, BsonV::Str(status));
    let due_by = BsonV::DateTime(now);
    lemma_one_clause(before, "table_status"@, BsonV::Str(status), d);
    lemma_plain_clause(before, "table_status"@, BsonV::Str(status), d);
    lemma_more_clauses(before, f, "status_transition_at"@, obj1("$lte"@, due_by), d);
    lemma_asked_clause(before, "status_transition_at"@, "$lte"@, due_by, d);
}

/// Activating a table changes its entry while it is being created, and no
/// other: it is active afterwards, no change of its status is due, and all
/// else is as before.
pub proof fn law_table_is_activated(
    before: spec_fn(BsonV, BsonV) -> bool,
    account_id: Seq<char>,
    table_name: Seq<char>,
    d: DocV,
    of: Seq<char>,
    name: Seq<char>,
    status: Seq<char>,
    r: DocV,
    k: Seq<char>,
)
    requires
        d.get("_id"@) == Some(table_key(of, name)),
        d.get("table_status"@) == Some(BsonV::Str(status)),
        activate_of(account_id, table_name) matches CommandV::Update { update, .. } && is_updated(
            update,
            false,
            d,
            r,
        ),
        is_name(k),
    ensures
        activate_of(account_id, table_name) matches CommandV::Update { at, filter, update, upsert }
            && at == in_catalog("tables"@) && !upsert && is_plain_update(update) && matches_filter(
            before,
            filter,
            d,
        ) == (of == account_id && name == table_name && status == "CREATING"@),
        r.get_str("table_status"@) == Some("ACTIVE"@),
        r.get("status_transition_at"@) is None,
        k != "table_status"@ && k != "status_transition_at"@ ==> r.get(k) == d.get(k),
{
    broadcast use crate::bson::group_document_fields;

    lemma_update_words();
    lemma_table_names();
    lemma_table_in_status(before, account_id, table_name, "CREATING"@, d, of, name, status);
    let u = activate_of(account_id, table_name)->Update_update;
    let set = obj1("table_status"@, BsonV::Str("ACTIVE"@));
    let unset = obj1("status_transition_at"@, BsonV::Str(""@));
    lemma_doc1("$set"@, set);
    crate::meaning::lemma_appended(doc1("$set"@, set), "$unset"@, unset);
    assert(u.entries =~= seq![("$set"@, set), ("$unset"@, unset)]);
    assert(r.get("table_status"@) == field_after(u, false, "table_status"@, d.get("table_status"@)));
    assert(r.get("status_transition_at"@) == field_after(
        u,
        false,
        "status_transition_at"@,
        d.get("status_transition_at"@),
    ));
    assert(r.get(k) == field_after(u, false, k, d.get(k)));
}

} // verus!
