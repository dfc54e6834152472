//! What the operations on tables do: what is created is what was asked for,
//! what is changed is that and nothing else, and what is deleted is gone.

use vstd::prelude::*;
use vstd::string::*;

use crate::bson::{doc1, doc_seq, lemma_doc1, obj1, BsonV, DocV, Document};
use crate::catalog::{account_check, index_filter_of, indexes_filter_of, table_filter_of, table_key};
use crate::clock::Fresh;
use crate::create_table::{
    collection_lines, create_goes_on, create_lines, create_turns, created_table, is_streaming,
    opt_tag_lines, shard_lines, CreateState, CreateTable,
};
use crate::describe_table::{
    delete_follows, delete_goes_on, describe_begins, describe_goes_on, list_tables_of,
    mark_deleting_of, name_in, names_in, DeleteTableState, DescribeTableState,
};
use crate::data::sk_field;
use crate::effects::{command_of, state_of, table_place};
use crate::entries::{law_table_is_found_by_name, lemma_key_document, lemma_table_names};
use crate::error::ErrV;
use crate::index_sync::{entry_of, EntryV};
use crate::lookup::{
    inner, is_name, is_plain_update, is_seed, is_updated, lemma_inner_clause,
    lemma_plain_clause, lemma_set,
};
use crate::meaning::{
    is_operators, lemma_is_part, lemma_more_clauses, lemma_one_asked, lemma_one_clause,
    lemma_one_part, lemma_path_joined, lemma_words, matches_filter,
};
use crate::order::text_lt;
use crate::protocol::{fails, in_catalog, in_data, ActionV, CommandV, Event, Reply, Step};
use crate::reading::{comes_before, orders_texts};
use crate::schema::schema_view;
use crate::schema_json::{defs_view, stream_spec_of, throughput_of};
use crate::script::{line_seq, script_goes_on, turns_to, Line, Turn};
use crate::sequence::SHARDS_PER_STREAM;
use crate::stream::create_shard_of;
use crate::table::{
    index_document_of, table_of, with_indexes, BillingMode, IndexDescriptionV, IndexType,
    TableDescription, TableStatus, TableV,
};
use crate::tags::{
    set_tag_of, tag_filter_of, tag_lines, tag_seq, tags_filter_of, tags_of, untag_lines,
};
use crate::update_table::{
    settings_of, update_describes, update_follows, update_goes_on, update_sets, update_turns,
    IndexChange, Pending, PendingV, UpdateTable, UpdateTableState,
};

verus! {

// --- Creation ------------------------------------------------------------------------

/// A table is created as it was asked for: under its name, with its keys and
/// settings, active and empty, with what is left out at its default.
pub proof fn law_table_is_created_as_asked(q: CreateTable, f: Fresh)
    requires
        crate::clock::is_time(f.now_nanos),
    ensures
        ({
            let t = created_table(q, f);
            &&& t.account_id == q.account_id@ && t.table_name == q.table_name@
            &&& t.table_arn == q.table_arn@ && t.table_id == f.id@
            &&& t.key_schema == schema_view(q.key_schema@)
            &&& t.attribute_definitions == defs_view(q.attribute_definitions@)
            &&& t.table_status == TableStatus::Active
            &&& t.table_size_bytes == 0 && t.item_count == 0
            &&& q.billing_mode matches Some(b) ==> t.billing_mode == b
            &&& q.billing_mode is None ==> t.billing_mode == BillingMode::Provisioned
            &&& q.throughput matches Some(p) ==> t.throughput == p
            &&& q.throughput is None ==> t.throughput.read_capacity_units == 0
                && t.throughput.write_capacity_units == 0
            &&& t.stream_specification == q.stream_specification
            &&& t.stream_label is Some <==> (q.stream_specification matches Some(s)
                && s.stream_enabled)
            &&& t.deletion_protection <==> q.deletion_protection == Some(true)
            &&& t.creation_millis * 1_000_000 <= f.now_nanos < (t.creation_millis + 1000)
                * 1_000_000
        }),
{
    let s = crate::clock::second_of(f.now_nanos as int);
    assert(-40_000_000_000_000 <= s <= 40_000_000_000_000);
}

/// The commands of a creation make the collection of the table with its key
/// unique, and the shards of its stream just where it has one; all have to
/// succeed.
pub proof fn law_creation_makes_all(q: CreateTable, f: Fresh, i: nat)
    requires
        i < SHARDS_PER_STREAM,
    ensures
        create_lines(q, f).len() >= 2,
        create_lines(q, f)[0].0 == (CommandV::CreateCollection { at: table_place(f.id@) }),
        create_lines(q, f)[1].0 matches CommandV::CreateIndex { at, keys, options } && {
            &&& at == table_place(f.id@)
            &&& options.unique
            &&& keys.get("pk"@) == Some(BsonV::Int32(1))
            &&& q.sort_key matches Some(t) ==> keys.get(sk_field(t)) == Some(BsonV::Int32(1))
            &&& keys.entries.len() == (if q.sort_key is Some {
                2nat
            } else {
                1nat
            })
        },
        create_lines(q, f)[0].1 && create_lines(q, f)[1].1,
        (q.stream_specification matches Some(s) && s.stream_enabled) ==> create_lines(q, f).len()
            >= 2 + SHARDS_PER_STREAM && create_lines(q, f)[2 + i as int] == (
            create_shard_of(q.table_name@, f.id@, i, f.now_millis),
            true,
        ),
{
    broadcast use crate::bson::group_document_fields;

    reveal_strlit("pk");
    reveal_strlit("sk_s");
    reveal_strlit("sk_n");
    reveal_strlit("sk_b");
    assert("pk"@.len() == 2 && "sk_s"@.len() == 4 && "sk_n"@.len() == 4 && "sk_b"@.len() == 4);
    lemma_doc1("pk"@, BsonV::Int32(1));
    if let Some(t) = q.sort_key {
        crate::meaning::lemma_appended(doc1("pk"@, BsonV::Int32(1)), sk_field(t), BsonV::Int32(1));
    }
    let lines = create_lines(q, f);
    let first = collection_lines(f.id@, q.sort_key);
    assert(lines[0] == first[0] && lines[1] == first[1]);
    if is_streaming(q.stream_specification) {
        let shards = shard_lines(q.table_name@, f.id@, f.now_millis);
        assert(lines[2 + i as int] == shards[i as int]);
    }
}

/// The tags of a new table are set: each by a command that has to succeed.
pub proof fn law_new_table_is_tagged(q: CreateTable, f: Fresh, i: int)
    requires
        q.tags matches Some(t) && 0 <= i < t@.len(),
    ensures
        create_lines(q, f).contains(
            (set_tag_of(q.table_arn@, (q.tags->0@[i].key@, q.tags->0@[i].value@)), true),
        ),
{
    let lines = create_lines(q, f);
    let last = opt_tag_lines(q.table_arn@, q.tags);
    let n = lines.len() - last.len();
    assert(last[i] == (set_tag_of(q.table_arn@, tag_seq(q.tags->0@)[i]), true));
    assert(lines[n + i] == last[i]);
}

/// A creation hands the table out only once all its commands were performed,
/// and until that it performs the next of them.
pub proof fn law_creation_performs_all(
    state: CreateState,
    reply: Reply,
    step: Step<CreateState, TableDescription>,
)
    requires
        create_goes_on(state, Event::Replied(reply), step),
        !(reply is Failed),
    ensures
        match state {
            CreateState::Entering { lines, description } => if lines@.len() == 0 {
                step == Step::<CreateState, TableDescription>::Done(Ok(description))
            } else {
                step matches Step::Do(CreateState::Running { script, description: d }, a) && d
                    == description && a@ == ActionV::Run(lines@[0].command@) && line_seq(
                    script.left@,
                ) == line_seq(lines@).skip(1)
            },
            CreateState::Running { script: s, description } => if s.left@.len() == 0 {
                step == Step::<CreateState, TableDescription>::Done(Ok(description))
            } else {
                step matches Step::Do(CreateState::Running { script, description: d }, a) && d
                    == description && a@ == ActionV::Run(s.left@[0].command@) && line_seq(
                    script.left@,
                ) == line_seq(s.left@).skip(1)
            },
        },
{
    match state {
        CreateState::Entering { lines, description } => {
            let turn = choose|turn: Turn|
                turns_to(line_seq(lines@), turn) && #[trigger] create_turns(turn, description, step);
            assert(line_seq(lines@).len() == lines@.len());
        },
        CreateState::Running { script, description } => {
            let turn = choose|turn: Turn|
                script_goes_on(script, reply, turn) && #[trigger] create_turns(
                    turn,
                    description,
                    step,
                );
            assert(line_seq(script.left@).len() == script.left@.len());
        },
    }
}

/// An index that was entered in the catalog is known to the synchronisation
/// with its identifier, its key and its projection.
pub proof fn law_entered_index_is_known(
    table_id: Seq<char>,
    kind: IndexType,
    index_id: Seq<char>,
    d: IndexDescriptionV,
)
    ensures
        entry_of(index_document_of(table_id, kind, index_id, d)) == Some(
            EntryV { index_id, schema: d.key_schema, projection: d.projection },
        ),
        index_document_of(table_id, kind, index_id, d).get("_id"@) == Some(
            crate::catalog::index_key(table_id, d.index_name),
        ),
{
    broadcast use crate::bson::group_document_fields;

    crate::schema_json::law_schema_round_trip(d.key_schema);
    crate::schema_json::law_projection_round_trip(d.projection);
    reveal_strlit("_id");
    reveal_strlit("index_id");
    reveal_strlit("index_type");
    reveal_strlit("key_schema");
    reveal_strlit("projection");
    reveal_strlit("index_status");
    reveal_strlit("provisioned_throughput");
    assert("_id"@.len() == 3 && "index_id"@.len() == 8 && "index_type"@.len() == 10);
    assert("key_schema"@.len() == 10 && "projection"@.len() == 10 && "index_status"@.len() == 12);
    assert("provisioned_throughput"@.len() == 22);
    assert("index_type"@[0] == 'i' && "key_schema"@[0] == 'k' && "projection"@[0] == 'p');
}

// --- Description ---------------------------------------------------------------------

/// A table is described from its entry and the entries of its indexes.
pub proof fn law_table_is_described(
    account_id: Seq<char>,
    table_name: Seq<char>,
    entry: Document,
    indexes: Vec<Document>,
    s0: Step<DescribeTableState, TableDescription>,
    s1: Step<DescribeTableState, TableDescription>,
    s2: Step<DescribeTableState, TableDescription>,
)
    requires
        account_check(account_id) is Ok,
        describe_begins(account_id, table_name, s0),
        describe_goes_on(state_of(s0), Event::Replied(Reply::One(Some(entry))), s1),
        table_of(entry@) is Ok,
        describe_goes_on(state_of(s1), Event::Replied(Reply::Many(indexes)), s2),
        with_indexes(table_of(entry@)->Ok_0, doc_seq(indexes@)) is Ok,
    ensures
        command_of(s0) == Some(
            CommandV::FindOne {
                at: in_catalog("tables"@),
                filter: table_filter_of(account_id, table_name),
            },
        ),
        command_of(s1) matches Some(CommandV::Find { at, filter, paging }) && at == in_catalog(
            "indexes"@,
        ) && filter == indexes_filter_of(table_of(entry@)->Ok_0.table_id) && paging.limit is None,
        s2 matches Step::Done(Ok(t)) && Ok::<TableV, ErrV>(t@) == with_indexes(
            table_of(entry@)->Ok_0,
            doc_seq(indexes@),
        ),
{
}

/// A table that has no entry is not found.
pub proof fn law_missing_table_is_not_found(
    account_id: Seq<char>,
    table_name: Seq<char>,
    s0: Step<DescribeTableState, TableDescription>,
    s1: Step<DescribeTableState, TableDescription>,
)
    requires
        account_check(account_id) is Ok,
        describe_begins(account_id, table_name, s0),
        describe_goes_on(state_of(s0), Event::Replied(Reply::One(None)), s1),
    ensures
        fails(s1, ErrV::TableNotFound(table_name)),
{
}

// --- Deletion ------------------------------------------------------------------------

/// A table that is not protected is deleted: it is marked, its collection is
/// dropped, the entries of its indexes and what was noted of them go, and its
/// own entry goes last; it is handed out as being deleted.
pub proof fn law_table_is_deleted(
    account_id: String,
    table_name: String,
    table: TableDescription,
    r1: Reply,
    r2: Reply,
    r3: Reply,
    r4: Reply,
    s0: Step<DeleteTableState, TableDescription>,
    s1: Step<DeleteTableState, TableDescription>,
    s2: Step<DeleteTableState, TableDescription>,
    s3: Step<DeleteTableState, TableDescription>,
    s4: Step<DeleteTableState, TableDescription>,
    s5: Step<DeleteTableState, TableDescription>,
)
    requires
        !table.deletion_protection,
        !(r1 is Failed) && !(r2 is Failed) && !(r3 is Failed) && !(r4 is Failed),
        delete_follows(account_id, table_name, Step::Done(Ok(table)), s0),
        delete_goes_on(state_of(s0), Event::Replied(r1), s1),
        delete_goes_on(state_of(s1), Event::Replied(r2), s2),
        delete_goes_on(state_of(s2), Event::Replied(r3), s3),
        delete_goes_on(state_of(s3), Event::Remembered, s4),
        delete_goes_on(state_of(s4), Event::Replied(r4), s5),
    ensures
        command_of(s0) == Some(mark_deleting_of(account_id@, table_name@)),
        command_of(s1) == Some(CommandV::DropCollection { at: table_place(table.table_id@) }),
        command_of(s2) == Some(
            CommandV::DeleteMany {
                at: in_catalog("indexes"@),
                filter: indexes_filter_of(table.table_id@),
            },
        ),
        s3 matches Step::Do(_, a) && a@ == (ActionV::Remember {
            table_id: table.table_id@,
            has_indexes: None,
        }),
        command_of(s4) == Some(
            CommandV::DeleteOne {
                at: in_catalog("tables"@),
                filter: table_filter_of(account_id@, table_name@),
            },
        ),
        s5 matches Step::Done(Ok(t)) && t@ == (TableV {
            table_status: TableStatus::Deleting,
            ..table@
        }),
{
}

/// Marking a table changes its status in its entry, and nothing else.
pub proof fn law_table_is_marked(
    before: spec_fn(BsonV, BsonV) -> bool,
    account_id: Seq<char>,
    table_name: Seq<char>,
    d: DocV,
    of: Seq<char>,
    name: Seq<char>,
    r: DocV,
    k: Seq<char>,
)
    requires
        d.get("_id"@) == Some(table_key(of, name)),
        mark_deleting_of(account_id, table_name) matches CommandV::Update { update, .. }
            && is_updated(update, false, d, r),
        is_name(k),
    ensures
        mark_deleting_of(account_id, table_name) matches CommandV::Update {
            at,
            filter,
            update,
            upsert,
        } && at == in_catalog("tables"@) && !upsert && is_plain_update(update) && matches_filter(
            before,
            filter,
            d,
        ) == (of == account_id && name == table_name),
        crate::table::status_of(r.str_or("table_status"@, "ACTIVE"@)) == TableStatus::Deleting,
        k != "table_status"@ ==> r.get(k) == d.get(k),
{
    broadcast use crate::bson::group_document_fields;

    lemma_table_names();
    reveal_strlit("CREATING");
    reveal_strlit("DELETING");
    assert("CREATING"@[0] == 'C' && "DELETING"@[0] == 'D');
    law_table_is_found_by_name(before, account_id, table_name, d, of, name);
    let fields = doc1("table_status"@, BsonV::Str("DELETING"@));
    lemma_set(fields, false, d, r, "table_status"@);
    lemma_set(fields, false, d, r, k);
}

// --- Lists ---------------------------------------------------------------------------

/// By a field of a field, upwards.
pub proof fn lemma_inner_sort(
    before: spec_fn(BsonV, BsonV) -> bool,
    p: Seq<char>,
    q: Seq<char>,
    a: DocV,
    b: DocV,
)
    requires
        is_name(p),
        is_name(q),
    ensures
        comes_before(before, doc1(p + "."@ + q, BsonV::Int32(1)).entries, a, b) == (inner(a, p, q)
            != inner(b, p, q) && crate::reading::stands_before(before, inner(a, p, q), inner(
            b,
            p,
            q,
        ))),
{
    let k = p + "."@ + q;
    lemma_is_part(p);
    lemma_is_part(q);
    lemma_path_joined(BsonV::Doc(a), p, q);
    lemma_path_joined(BsonV::Doc(b), p, q);
    lemma_one_part(BsonV::Doc(a), p);
    lemma_one_part(BsonV::Doc(b), p);
    if let Some(x) = a.get(p) {
        lemma_one_part(x, q);
    }
    if let Some(x) = b.get(p) {
        lemma_one_part(x, q);
    }
    lemma_doc1(k, BsonV::Int32(1));
    let by = doc1(k, BsonV::Int32(1)).entries;
    assert(by[0] == (k, BsonV::Int32(1)));
    assert(by.skip(1).len() == 0);
    reveal_with_fuel(comes_before, 2);
}

/// The tables that are listed are those of the account, behind a name where
/// one is given, in the order of their names, one more than asked for.
pub proof fn law_tables_are_listed_by_name(
    before: spec_fn(BsonV, BsonV) -> bool,
    account_id: Seq<char>,
    start: Option<Seq<char>>,
    limit: i64,
    d: DocV,
    of: Seq<char>,
    name: Seq<char>,
    d2: DocV,
    of2: Seq<char>,
    name2: Seq<char>,
)
    requires
        orders_texts(before),
        limit < i64::MAX,
        d.get("_id"@) == Some(table_key(of, name)),
        d2.get("_id"@) == Some(table_key(of2, name2)),
    ensures
        list_tables_of(account_id, start, limit) matches CommandV::Find { at, filter, paging } && {
            &&& at == in_catalog("tables"@)
            &&& matches_filter(before, filter, d) == (of == account_id && (start matches Some(s)
                ==> text_lt(s, name)))
            &&& paging.limit matches Some(n) && n == limit + 1
            &&& paging.sort is Some
            &&& comes_before(before, paging.sort->0.entries, d, d2) == text_lt(name, name2)
        },
        name_in(d) == Some(name),
{
    broadcast use crate::bson::group_document_fields;

    lemma_words();
    lemma_table_names();
    reveal_strlit("$gt");
    reveal_strlit("_id.account_id");
    reveal_strlit("_id.table_name");
    reveal_strlit("_id");
    reveal_strlit("account_id");
    reveal_strlit("table_name");
    reveal_strlit(".");
    assert("_id.account_id"@ =~= "_id"@ + "."@ + "account_id"@);
    assert("_id.table_name"@ =~= "_id"@ + "."@ + "table_name"@);
    assert("_id.account_id"@[4] == 'a' && "_id.table_name"@[4] == 't');
    law_table_is_found_by_name(before, of, name, d, of, name);
    law_table_is_found_by_name(before, of2, name2, d2, of2, name2);
    let f = doc1("_id.account_id"@, BsonV::Str(account_id));
    lemma_one_clause(before, "_id.account_id"@, BsonV::Str(account_id), d);
    lemma_inner_clause(before, "_id"@, "account_id"@, BsonV::Str(account_id), d);
    if let Some(s) = start {
        let behind = obj1("$gt"@, BsonV::Str(s));
        lemma_more_clauses(before, f, "_id.table_name"@, behind, d);
        lemma_inner_clause(before, "_id"@, "table_name"@, behind, d);
        lemma_doc1("$gt"@, BsonV::Str(s));
        assert(is_operators(behind));
        lemma_one_asked(before, "$gt"@, BsonV::Str(s), inner(d, "_id"@, "table_name"@));
    }
    lemma_inner_sort(before, "_id"@, "table_name"@, d, d2);
    crate::order::lemma_lt_irreflexive(name);
}

/// The names of tables are read from their entries, one for each, in order.
pub proof fn law_names_are_read(docs: Seq<DocV>, names: Seq<Seq<char>>)
    requires
        docs.len() == names.len(),
        forall|i: int| 0 <= i < docs.len() ==> name_in(#[trigger] docs[i]) == Some(names[i]),
    ensures
        names_in(docs) == names,
    decreases docs.len(),
{
    if docs.len() > 0 {
        let d = docs.drop_last();
        let n = names.drop_last();
        assert forall|i: int| 0 <= i < d.len() implies name_in(#[trigger] d[i]) == Some(n[i]) by {
            assert(d[i] == docs[i]);
        }
        law_names_are_read(d, n);
        assert(name_in(docs[docs.len() - 1]) == Some(names.last()));
        assert(names =~= n.push(names.last()));
    } else {
        assert(names =~= Seq::empty());
    }
}

// --- Tags ----------------------------------------------------------------------------

/// Setting a tag changes that tag of that resource, or adds it; it is listed
/// with its value afterwards.
pub proof fn law_tag_is_set(
    before: spec_fn(BsonV, BsonV) -> bool,
    arn: Seq<char>,
    tag: (Seq<char>, Seq<char>),
    d: DocV,
    of: Seq<char>,
    key: Seq<char>,
    r: DocV,
    seed: DocV,
    first: DocV,
)
    requires
        d.get("_id"@) == tag_filter_of(of, key).get("_id"@),
        set_tag_of(arn, tag) matches CommandV::Update { filter, update, .. } && is_updated(
            update,
            false,
            d,
            r,
        ) && is_seed(filter, seed) && is_updated(update, true, seed, first),
    ensures
        set_tag_of(arn, tag) matches CommandV::Update { at, filter, update, upsert } && at
            == in_catalog("tags"@) && upsert && is_plain_update(update) && matches_filter(
            before,
            filter,
            d,
        ) == (of == arn && key == tag.0),
        tags_of(seq![r]) == seq![(key, tag.1)],
        tags_of(seq![first]) == seq![tag],
        matches_filter(before, tags_filter_of(arn), d) == (of == arn),
        matches_filter(before, tags_filter_of(arn), first),
{
    broadcast use crate::bson::group_document_fields;

    reveal_strlit("_id");
    reveal_strlit("resource_arn");
    reveal_strlit("tag_key");
    reveal_strlit("tag_value");
    reveal_strlit(".");
    reveal_strlit("_id.resource_arn");
    assert("_id"@.len() == 3 && "resource_arn"@.len() == 12 && "tag_key"@.len() == 7);
    assert("tag_value"@.len() == 9);
    assert(is_name("_id"@) && is_name("resource_arn"@) && is_name("tag_key"@) && is_name(
        "tag_value"@,
    ));
    assert("_id.resource_arn"@ =~= "_id"@ + "."@ + "resource_arn"@);
    let wanted = tag_filter_of(arn, tag.0);
    let has = tag_filter_of(of, key);
    let v = wanted.get("_id"@)->0;
    let w = has.get("_id"@)->0;
    assert(v->Doc_0.get("resource_arn"@) == Some(BsonV::Str(arn)));
    assert(v->Doc_0.get("tag_key"@) == Some(BsonV::Str(tag.0)));
    assert(w->Doc_0.get("resource_arn"@) == Some(BsonV::Str(of)));
    assert(w->Doc_0.get("tag_key"@) == Some(BsonV::Str(key)));
    lemma_key_document("resource_arn"@, BsonV::Str(arn), "tag_key"@, BsonV::Str(tag.0));
    lemma_one_clause(before, "_id"@, v, d);
    lemma_plain_clause(before, "_id"@, v, d);
    let fields = doc1("tag_value"@, BsonV::Str(tag.1));
    lemma_set(fields, false, d, r, "tag_value"@);
    lemma_set(fields, false, d, r, "_id"@);
    lemma_set(fields, true, seed, first, "tag_value"@);
    lemma_set(fields, true, seed, first, "_id"@);
    assert(seed.get("_id"@) == Some(v));
    assert(tags_of(seq![r]) =~= seq![(key, tag.1)]);
    assert(tags_of(seq![first]) =~= seq![tag]);
    lemma_one_clause(before, "_id.resource_arn"@, BsonV::Str(arn), d);
    lemma_inner_clause(before, "_id"@, "resource_arn"@, BsonV::Str(arn), d);
    lemma_one_clause(before, "_id.resource_arn"@, BsonV::Str(arn), first);
    lemma_inner_clause(before, "_id"@, "resource_arn"@, BsonV::Str(arn), first);
}

/// Every tag that is given is set, and every key that is given is removed, by
/// a command that has to succeed.
pub proof fn law_each_tag_has_its_command(
    arn: Seq<char>,
    tags: Seq<(Seq<char>, Seq<char>)>,
    keys: Seq<Seq<char>>,
    i: int,
    j: int,
)
    requires
        0 <= i < tags.len(),
        0 <= j < keys.len(),
    ensures
        tag_lines(arn, tags).len() == tags.len(),
        tag_lines(arn, tags)[i] == (set_tag_of(arn, tags[i]), true),
        untag_lines(arn, keys).len() == keys.len(),
        untag_lines(arn, keys)[j] == (
            CommandV::DeleteOne { at: in_catalog("tags"@), filter: tag_filter_of(arn, keys[j]) },
            true,
        ),
{
}

// --- Changes -------------------------------------------------------------------------

/// The settings of a table that are given are changed, those that are not are
/// kept, and so is all else.
pub proof fn law_given_settings_are_changed(
    q: UpdateTable,
    d: DocV,
    r: DocV,
    k: Seq<char>,
)
    requires
        is_updated(doc1("$set"@, BsonV::Doc(settings_of(q))), false, d, r),
        is_name(k),
    ensures
        q.deletion_protection matches Some(b) ==> r.get_bool("deletion_protection_enabled"@) == Some(
            b,
        ),
        q.deletion_protection is None ==> r.get("deletion_protection_enabled"@) == d.get(
            "deletion_protection_enabled"@,
        ),
        q.throughput matches Some(t) ==> throughput_of(r.get("provisioned_throughput"@)) == Some(t),
        q.throughput is None ==> r.get("provisioned_throughput"@) == d.get(
            "provisioned_throughput"@,
        ),
        q.stream_specification matches Some(s) ==> stream_spec_of(r.get("stream_specification"@))
            == Some(s),
        q.stream_specification is None ==> r.get("stream_specification"@) == d.get(
            "stream_specification"@,
        ),
        q.billing_mode matches Some(b) ==> (r.str_or("billing_mode"@, "PROVISIONED"@)
            == "PAY_PER_REQUEST"@ <==> b == BillingMode::PayPerRequest),
        q.billing_mode is None ==> r.get("billing_mode"@) == d.get("billing_mode"@),
        k != "deletion_protection_enabled"@ && k != "provisioned_throughput"@ && k
            != "stream_specification"@ && k != "billing_mode"@ ==> r.get(k) == d.get(k),
{
    broadcast use crate::bson::group_document_fields;

    reveal_strlit("billing_mode");
    reveal_strlit("provisioned_throughput");
    reveal_strlit("deletion_protection_enabled");
    reveal_strlit("stream_specification");
    reveal_strlit("PROVISIONED");
    reveal_strlit("PAY_PER_REQUEST");
    assert("billing_mode"@.len() == 12 && "provisioned_throughput"@.len() == 22);
    assert("deletion_protection_enabled"@.len() == 27 && "stream_specification"@.len() == 20);
    assert("PROVISIONED"@.len() == 11 && "PAY_PER_REQUEST"@.len() == 15);
    let fields = settings_of(q);
    lemma_set(fields, false, d, r, "billing_mode"@);
    lemma_set(fields, false, d, r, "provisioned_throughput"@);
    lemma_set(fields, false, d, r, "deletion_protection_enabled"@);
    lemma_set(fields, false, d, r, "stream_specification"@);
    lemma_set(fields, false, d, r, k);
    crate::schema_json::law_throughput_round_trip(q.throughput);
    crate::schema_json::law_stream_settings_round_trip(q.stream_specification);
}

/// The change of a table that is being made.
pub open spec fn pending_in(state: UpdateTableState) -> PendingV {
    match state {
        UpdateTableState::FindingTable { pending, .. } => pending@,
        UpdateTableState::CountingShards { pending, .. } => pending@,
        UpdateTableState::Sharding { pending, .. } => pending@,
        UpdateTableState::Setting(pending) => pending@,
        UpdateTableState::Describing { pending, .. } => pending@,
        UpdateTableState::Entering { pending, .. } => pending@,
        UpdateTableState::Removing { pending, .. } => pending@,
        UpdateTableState::Noting(pending) => pending@,
    }
}

proof fn lemma_describes_goes_on(p: PendingV, step: Step<UpdateTableState, TableDescription>)
    requires
        update_describes(p, step),
    ensures
        match step {
            Step::Do(s, _) => s is Describing && pending_in(s) == p,
            Step::Done(r) => r is Err,
        },
{
    let inner = choose|inner: Step<DescribeTableState, TableDescription>|
        describe_begins(p.account_id, p.table_name, inner) && #[trigger] update_follows(
            p,
            inner,
            step,
        );
}

proof fn lemma_sets_goes_on(p: PendingV, step: Step<UpdateTableState, TableDescription>)
    requires
        update_sets(p, step),
    ensures
        match step {
            Step::Do(s, _) => (s is Describing || s is Setting) && pending_in(s) == p,
            Step::Done(r) => r is Err,
        },
{
    if p.set.entries.len() == 0 {
        lemma_describes_goes_on(p, step);
    }
}

/// A change of a table makes the changes of its indexes one after another and
/// loses none: each step keeps the list, it goes on by one just where the next
/// change is made, and the table is handed out only after the last.
pub proof fn law_index_changes_are_made_in_order(
    state: UpdateTableState,
    event: Event,
    step: Step<UpdateTableState, TableDescription>,
)
    requires
        update_goes_on(state, event, step),
        pending_in(state).made <= pending_in(state).index_changes.len(),
        pending_in(state).index_changes.len() <= usize::MAX,
    ensures
        match step {
            Step::Do(s, a) => {
                let p = pending_in(state);
                let r = pending_in(s);
                &&& r.account_id == p.account_id && r.table_name == p.table_name
                &&& r.index_changes == p.index_changes
                &&& r.made == p.made || r.made == p.made + 1
                &&& r.made == p.made + 1 <==> s is Entering || s is Removing
                &&& s is Entering ==> p.index_changes[p.made as int] is Create && (command_of(step)
                    matches Some(c) && c is Insert)
                &&& s is Removing ==> p.index_changes[p.made as int] is Delete && (command_of(step)
                    matches Some(c) && c is DeleteOne)
            },
            Step::Done(Ok(_)) => state is Describing && pending_in(state).made
                == pending_in(state).index_changes.len(),
            Step::Done(Err(_)) => true,
        },
{
    match (state, event) {
        (UpdateTableState::Describing { pending, inner }, _) => {
            let s = choose|s: Step<DescribeTableState, TableDescription>|
                describe_goes_on(inner, event, s) && #[trigger] update_follows(pending@, s, step);
        },
        (UpdateTableState::CountingShards { pending, table_id, now }, Event::Replied(
            Reply::Counted(n),
        )) => {
            if n > 0 {
                lemma_sets_goes_on(pending@, step);
            } else {
                let turn = choose|turn: Turn|
                    turns_to(shard_lines(pending.table_name@, table_id@, now), turn)
                        && #[trigger] update_turns(pending@, turn, step);
                if turn is Finished {
                    lemma_sets_goes_on(pending@, step);
                }
            }
        },
        (UpdateTableState::Sharding { pending, script }, Event::Replied(r)) => {
            if !(r is Failed) {
                let turn = choose|turn: Turn|
                    script_goes_on(script, r, turn) && #[trigger] update_turns(pending@, turn, step);
                if turn is Finished {
                    lemma_sets_goes_on(pending@, step);
                }
            }
        },
        (UpdateTableState::Setting(pending), Event::Replied(r)) => {
            if !(r is Failed) {
                lemma_describes_goes_on(pending@, step);
            }
        },
        (UpdateTableState::Noting(pending), Event::Remembered) => {
            lemma_describes_goes_on(pending@, step);
        },
        _ => {},
    }
}

/// The next change of an index, once the table is known: an index is entered
/// under its table with its new identifier, or the entry of its name goes.
pub proof fn law_index_is_entered_or_removed(
    p: PendingV,
    table: TableDescription,
    step: Step<UpdateTableState, TableDescription>,
)
    requires
        p.made < p.index_changes.len(),
        update_follows(p, Step::Done(Ok(table)), step),
    ensures
        match p.index_changes[p.made as int] {
            IndexChange::Create { index_id, index } => command_of(step) matches Some(
                CommandV::Insert { at, document },
            ) && at == in_catalog("indexes"@) && document.get("_id"@) == Some(
                crate::catalog::index_key(table.table_id@, index.index_name@),
            ) && entry_of(document) == Some(
                EntryV {
                    index_id: index_id@,
                    schema: schema_view(index.key_schema@),
                    projection: index.projection@,
                },
            ),
            IndexChange::Delete { index_name } => command_of(step) == Some(
                CommandV::DeleteOne {
                    at: in_catalog("indexes"@),
                    filter: index_filter_of(table.table_id@, index_name@),
                },
            ),
        },
{
    if let IndexChange::Create { index_id, index } = p.index_changes[p.made as int] {
        law_entered_index_is_known(
            table.table_id@,
            IndexType::Gsi,
            index_id@,
            crate::table::new_index(IndexType::Gsi, index),
        );
    }
}

/// A stream that is enabled gets its label, and its shards where the table has
/// none.
pub proof fn law_enabled_stream_gets_shards(
    pending: Pending,
    label: String,
    now: i64,
    entry: Document,
    s1: Step<UpdateTableState, TableDescription>,
    s2: Step<UpdateTableState, TableDescription>,
    i: nat,
    k: Seq<char>,
)
    requires
        entry@.get_str("table_id"@) is Some,
        update_goes_on(
            UpdateTableState::FindingTable { pending, label, now },
            Event::Replied(Reply::One(Some(entry))),
            s1,
        ),
        update_goes_on(state_of(s1), Event::Replied(Reply::Counted(0)), s2),
        i < SHARDS_PER_STREAM,
    ensures
        pending_in(state_of(s1)).set.get("stream_label"@) == Some(BsonV::Str(label@)),
        k != "stream_label"@ ==> pending_in(state_of(s1)).set.get(k) == pending.set@.get(k),
        command_of(s1) matches Some(CommandV::Count { at, filter }) && at == in_data(
            "stream_shards"@,
        ) && filter == doc1("table_id"@, BsonV::Str(entry@.get_str("table_id"@)->0)),
        pending_in(state_of(s2)) == pending_in(state_of(s1)),
        s2 matches Step::Do(UpdateTableState::Sharding { script, .. }, _) && {
            let id = entry@.get_str("table_id"@)->0;
            &&& command_of(s2) == Some(create_shard_of(pending.table_name@, id, 0, now))
            &&& script.left@.len() == SHARDS_PER_STREAM - 1
            &&& i > 0 ==> line_seq(script.left@)[i - 1] == (
                create_shard_of(pending.table_name@, id, i, now),
                true,
            )
        },
{
    broadcast use crate::bson::group_document_fields;

    let p = state_of(s1)->CountingShards_pending;
    let id = entry@.get_str("table_id"@)->0;
    let lines = shard_lines(p.table_name@, id, now);
    let turn = choose|turn: Turn|
        turns_to(lines, turn) && #[trigger] update_turns(p@, turn, s2);
    let script = turn->Perform_0;
    assert(line_seq(script.left@).len() == script.left@.len());
    if i > 0 {
        assert(line_seq(script.left@)[i - 1] == lines[i as int]);
    }
}

// --- What goes wrong -----------------------------------------------------------------

/// A name that is taken is told: that of a table that is created, and that of
/// an index that is added; so is an index that is not there to be removed.
pub proof fn law_taken_name_is_told(
    lines: Vec<Line>,
    description: TableDescription,
    pending: Pending,
    table_id: String,
    index_name: String,
    e: crate::protocol::DbError,
    created: Step<CreateState, TableDescription>,
    entered: Step<UpdateTableState, TableDescription>,
    removed: Step<UpdateTableState, TableDescription>,
)
    requires
        create_goes_on(
            CreateState::Entering { lines, description },
            Event::Replied(Reply::Failed(e)),
            created,
        ),
        update_goes_on(
            UpdateTableState::Entering { pending, table_id, index_name },
            Event::Replied(Reply::Failed(e)),
            entered,
        ),
        update_goes_on(
            UpdateTableState::Removing { pending, table_id, index_name },
            Event::Replied(Reply::Deleted(0)),
            removed,
        ),
    ensures
        crate::text::occurs_in(e.message@, "E11000"@) ==> fails(
            created,
            ErrV::TableAlreadyExists(description.table_name@),
        ) && fails(entered, ErrV::IndexAlreadyExists(index_name@)),
        !crate::text::occurs_in(e.message@, "E11000"@) ==> fails(
            created,
            ErrV::Internal(e.message@),
        ) && fails(entered, ErrV::Internal(e.message@)),
        fails(removed, ErrV::IndexNotFound(index_name@)),
{
}

/// What is noted after an index was entered is that the table has indexes;
/// after one was removed it is forgotten whether it has.
pub proof fn law_index_changes_are_noted(
    pending: Pending,
    table_id: String,
    index_name: String,
    reply: Reply,
    n: u64,
    entered: Step<UpdateTableState, TableDescription>,
    removed: Step<UpdateTableState, TableDescription>,
)
    requires
        !(reply is Failed),
        n > 0,
        update_goes_on(
            UpdateTableState::Entering { pending, table_id, index_name },
            Event::Replied(reply),
            entered,
        ),
        update_goes_on(
            UpdateTableState::Removing { pending, table_id, index_name },
            Event::Replied(Reply::Deleted(n)),
            removed,
        ),
    ensures
        entered matches Step::Do(_, a) && a@ == (ActionV::Remember {
            table_id: table_id@,
            has_indexes: Some(true),
        }),
        removed matches Step::Do(_, a) && a@ == (ActionV::Remember {
            table_id: table_id@,
            has_indexes: None,
        }),
{
}

} // verus!
