//! How streams are listed, described and checked.

use vstd::prelude::*;
use vstd::string::*;

use crate::bson::{doc1, doc_seq, lemma_doc1, obj1, opt_string, BsonV, DocV, Document};
use crate::catalog::{table_filter_of, table_key};
use crate::effects::{command_of, state_of};
use crate::entries::{law_table_is_found_by_name, lemma_table_names};
use crate::lookup::{
    inner, is_name, lemma_asked_clause, lemma_inner_clause, lemma_plain_clause,
};
use crate::meaning::{
    clause_holds, is_operators, lemma_appended, lemma_is_part, lemma_more_clauses,
    lemma_one_asked, lemma_one_clause, lemma_one_part, lemma_path_joined, lemma_words,
    matches_filter,
};
use crate::order::{lemma_lt_irreflexive, text_lt};
use crate::protocol::{fails, in_catalog, in_data, CommandV, Event, Reply, Step};
use crate::reading::{comes_before, orders_texts};
use crate::schema::{schema_view, KeyType};
use crate::schema_json::{
    law_schema_round_trip, law_stream_settings_round_trip, schema_bson, stream_spec_bson,
    StreamSpecification, StreamViewType,
};
use crate::sequence::shard_id_text;
use crate::stream::shard_document;
use crate::stream_admin::{
    check_goes_on, describe_goes_on, find_stream_of, list_streams_of, no_stream, shard_of,
    shard_seq, shards_of, stream_of, streams_of, DescribeState, DescribeStream, ShardCheck,
    ShardV, StreamDescription, StreamStatus,
};

verus! {

proof fn lemma_stream_names()
    ensures
        is_name("stream_label"@),
        "stream_label"@.len() == 12,
        "_id.account_id"@ == "_id"@ + "."@ + "account_id"@,
        "_id.table_name"@ == "_id"@ + "."@ + "table_name"@,
        "_id.account_id"@ != "_id.table_name"@,
        "_id.account_id"@ != "stream_label"@,
        "_id.table_name"@ != "stream_label"@,
        "$or"@ != "stream_label"@,
        "$or"@ != "_id.account_id"@,
        "$or"@ != "_id.table_name"@,
        "$gt"@[0] == '$' && "$gt"@.len() == 3,
        "$ne"@[0] == '$' && "$ne"@.len() == 3,
{
    reveal_strlit("stream_label");
    reveal_strlit("$or");
    reveal_strlit("$gt");
    reveal_strlit("$ne");
    reveal_strlit("_id.account_id");
    reveal_strlit("_id.table_name");
    reveal_strlit("_id");
    reveal_strlit("account_id");
    reveal_strlit("table_name");
    reveal_strlit(".");
    assert("_id.account_id"@ =~= "_id"@ + "."@ + "account_id"@);
    assert("_id.table_name"@ =~= "_id"@ + "."@ + "table_name"@);
    assert("_id.account_id"@[4] == 'a' && "_id.table_name"@[4] == 't');
    assert("_id.account_id"@.len() == 14 && "_id.table_name"@.len() == 14);
    assert("stream_label"@.len() == 12 && "$or"@.len() == 3);
}

/// The label of the stream of a table; a table may have none.
pub open spec fn has_label(d: DocV, label: Option<Seq<char>>) -> bool {
    match label {
        Some(l) => d.get("stream_label"@) == Some(BsonV::Str(l)),
        None => d.get("stream_label"@) is None || d.get("stream_label"@) == Some(BsonV::Null),
    }
}

/// A stream is found by the account and the name of its table and its label.
pub proof fn law_stream_is_found_by_label(
    before: spec_fn(BsonV, BsonV) -> bool,
    account_id: Seq<char>,
    table_name: Seq<char>,
    label: Seq<char>,
    d: DocV,
    of: Seq<char>,
    name: Seq<char>,
    has: Option<Seq<char>>,
)
    requires
        d.get("_id"@) == Some(table_key(of, name)),
        has_label(d, has),
    ensures
        find_stream_of(account_id, table_name, label) matches CommandV::FindOne { at, filter } && at
            == in_catalog("tables"@) && matches_filter(before, filter, d) == (of == account_id
            && name == table_name && has == Some(label)),
{
    broadcast use crate::bson::group_document_fields;

    lemma_stream_names();
    lemma_table_names();
    let f = table_filter_of(account_id, table_name);
    law_table_is_found_by_name(before, account_id, table_name, d, of, name);
    lemma_doc1("_id"@, table_key(account_id, table_name));
    lemma_more_clauses(before, f, "stream_label"@, BsonV::Str(label), d);
    lemma_plain_clause(before, "stream_label"@, BsonV::Str(label), d);
}

/// A filter that asks for one name of a table, or for one behind another.
proof fn lemma_name_clause(
    before: spec_fn(BsonV, BsonV) -> bool,
    table: Seq<char>,
    d: DocV,
    of: Seq<char>,
    name: Seq<char>,
)
    requires
        orders_texts(before),
        d.get("_id"@) == Some(table_key(of, name)),
    ensures
        clause_holds(before, "_id.account_id"@, BsonV::Str(table), d) == (of == table),
        clause_holds(before, "_id.table_name"@, BsonV::Str(table), d) == (name == table),
        clause_holds(before, "_id.table_name"@, obj1("$gt"@, BsonV::Str(table)), d) == text_lt(
            table,
            name,
        ),
{
    lemma_words();
    lemma_stream_names();
    lemma_table_names();
    law_table_is_found_by_name(before, of, name, d, of, name);
    lemma_inner_clause(before, "_id"@, "account_id"@, BsonV::Str(table), d);
    lemma_inner_clause(before, "_id"@, "table_name"@, BsonV::Str(table), d);
    let behind = obj1("$gt"@, BsonV::Str(table));
    lemma_inner_clause(before, "_id"@, "table_name"@, behind, d);
    lemma_doc1("$gt"@, BsonV::Str(table));
    assert(is_operators(behind));
    lemma_one_asked(before, "$gt"@, BsonV::Str(table), inner(d, "_id"@, "table_name"@));
}

/// A filter that asks for some label, or for one behind another.
proof fn lemma_label_clause(
    before: spec_fn(BsonV, BsonV) -> bool,
    label: Seq<char>,
    d: DocV,
    has: Option<Seq<char>>,
)
    requires
        orders_texts(before),
        has_label(d, has),
        forall|s: Seq<char>| !before(BsonV::Str(s), BsonV::Null),
    ensures
        clause_holds(before, "stream_label"@, obj1("$ne"@, BsonV::Null), d) == (has is Some),
        clause_holds(before, "stream_label"@, obj1("$gt"@, BsonV::Str(label)), d) == (has is Some
            && text_lt(label, has->0)),
{
    lemma_words();
    lemma_stream_names();
    lemma_asked_clause(before, "stream_label"@, "$ne"@, BsonV::Null, d);
    lemma_asked_clause(before, "stream_label"@, "$gt"@, BsonV::Str(label), d);
}

/// The streams that are listed are those of the account, of one table where
/// one is named, and those behind the last one handed out where it is given.
/// Null stands before all texts.
#[verifier::rlimit(40)]
pub proof fn law_streams_are_listed(
    before: spec_fn(BsonV, BsonV) -> bool,
    account_id: Seq<char>,
    table_name: Option<Seq<char>>,
    start: Option<(Seq<char>, Seq<char>)>,
    limit: i64,
    d: DocV,
    of: Seq<char>,
    name: Seq<char>,
    has: Option<Seq<char>>,
)
    requires
        orders_texts(before),
        forall|s: Seq<char>| !before(BsonV::Str(s), BsonV::Null),
        limit < i64::MAX,
        d.get("_id"@) == Some(table_key(of, name)),
        has_label(d, has),
    ensures
        list_streams_of(account_id, table_name, start, limit) matches CommandV::Find {
            at,
            filter,
            paging,
        } && {
            &&& at == in_catalog("tables"@)
            &&& matches_filter(before, filter, d) == ({
                &&& of == account_id
                &&& has is Some
                &&& table_name matches Some(t) ==> name == t
                &&& start matches Some(s) ==> if table_name is Some {
                    text_lt(s.1, has->0)
                } else {
                    text_lt(s.0, name) || name == s.0 && text_lt(s.1, has->0)
                }
            })
            &&& paging.limit matches Some(n) && n == limit + 1
        },
{
    broadcast use crate::bson::group_document_fields;

    lemma_stream_names();
    let a = doc1("_id.account_id"@, BsonV::Str(account_id));
    lemma_one_clause(before, "_id.account_id"@, BsonV::Str(account_id), d);
    lemma_name_clause(before, account_id, d, of, name);
    lemma_label_clause(before, account_id, d, has);
    lemma_doc1("_id.account_id"@, BsonV::Str(account_id));
    let ne = obj1("$ne"@, BsonV::Null);
    lemma_more_clauses(before, a, "stream_label"@, ne, d);
    let b = a.with("stream_label"@, ne);
    let c = match table_name {
        Some(t) => b.with("_id.table_name"@, BsonV::Str(t)),
        None => b,
    };
    if let Some(t) = table_name {
        lemma_more_clauses(before, b, "_id.table_name"@, BsonV::Str(t), d);
        lemma_name_clause(before, t, d, of, name);
    }
    if let Some((table, last)) = start {
        lemma_label_clause(before, last, d, has);
        lemma_name_clause(before, table, d, of, name);
        let gt = obj1("$gt"@, BsonV::Str(last));
        if let Some(t) = table_name {
            lemma_replaced(a, "stream_label"@, ne, "_id.table_name"@, BsonV::Str(t), gt);
            lemma_more_clauses(before, a, "stream_label"@, gt, d);
            lemma_more_clauses(before, a.with("stream_label"@, gt), "_id.table_name"@, BsonV::Str(t), d);
        } else {
            let first = doc1("_id.table_name"@, obj1("$gt"@, BsonV::Str(table)));
            lemma_one_clause(before, "_id.table_name"@, obj1("$gt"@, BsonV::Str(table)), d);
            let same = doc1("_id.table_name"@, BsonV::Str(table));
            lemma_one_clause(before, "_id.table_name"@, BsonV::Str(table), d);
            lemma_doc1("_id.table_name"@, BsonV::Str(table));
            lemma_more_clauses(before, same, "stream_label"@, gt, d);
            let second = same.with("stream_label"@, gt);
            let either = seq![BsonV::Doc(first), BsonV::Doc(second)];
            lemma_more_clauses(before, c, "$or"@, BsonV::Array(either), d);
            lemma_words();
            lemma_either(before, first, second, d);
        }
    }
}

/// One of two filters matches.
proof fn lemma_either(
    before: spec_fn(BsonV, BsonV) -> bool,
    first: DocV,
    second: DocV,
    d: DocV,
)
    ensures
        clause_holds(before, "$or"@, BsonV::Array(seq![BsonV::Doc(first), BsonV::Doc(second)]), d)
            == (matches_filter(before, first, d) || matches_filter(before, second, d)),
{
    reveal_strlit("$and");
    reveal_strlit("$or");
    assert("$and"@.len() == 4 && "$or"@.len() == 3);
    let a = seq![BsonV::Doc(first), BsonV::Doc(second)];
    assert(a[0] == BsonV::Doc(first) && a[1] == BsonV::Doc(second));
}

/// A field that is given anew stays where it stands.
proof fn lemma_replaced(a: DocV, k: Seq<char>, v: BsonV, l: Seq<char>, w: BsonV, u: BsonV)
    requires
        a.get(k) is None,
        a.get(l) is None,
        k != l,
    ensures
        a.with(k, v).with(l, w).with(k, u) == a.with(k, u).with(l, w),
{
    broadcast use crate::bson::group_document_fields;

    lemma_appended(a, k, v);
    lemma_appended(a, k, u);
    lemma_appended(a.with(k, v), l, w);
    lemma_appended(a.with(k, u), l, w);
    reveal(DocV::with);
    let f = a.with(k, v).with(l, w);
    let n = a.entries.len() as int;
    assert(f.entries[n] == (k, v));
    reveal(DocV::get);
    crate::bson::lemma_key_from(f.entries, k, 0);
    crate::bson::lemma_key_from(a.entries, k, 0);
    assert forall|i: int| 0 <= i < n implies f.entries[i] == a.entries[i] by {}
    assert(f.with(k, u).entries =~= a.with(k, u).with(l, w).entries);
}

/// Streams are listed in the order of their tables, and those of one table in
/// the order of their labels.
pub proof fn law_streams_are_listed_in_order(
    before: spec_fn(BsonV, BsonV) -> bool,
    account_id: Seq<char>,
    table_name: Option<Seq<char>>,
    start: Option<(Seq<char>, Seq<char>)>,
    limit: i64,
    d: DocV,
    of: Seq<char>,
    name: Seq<char>,
    label: Seq<char>,
    d2: DocV,
    of2: Seq<char>,
    name2: Seq<char>,
    label2: Seq<char>,
)
    requires
        orders_texts(before),
        d.get("_id"@) == Some(table_key(of, name)),
        d.get("stream_label"@) == Some(BsonV::Str(label)),
        d2.get("_id"@) == Some(table_key(of2, name2)),
        d2.get("stream_label"@) == Some(BsonV::Str(label2)),
    ensures
        list_streams_of(account_id, table_name, start, limit) matches CommandV::Find {
            paging,
            ..
        } && paging.sort matches Some(s) && comes_before(before, s.entries, d, d2) == (text_lt(
            name,
            name2,
        ) || name == name2 && text_lt(label, label2)),
{
    broadcast use crate::bson::group_document_fields;

    lemma_stream_names();
    lemma_table_names();
    law_table_is_found_by_name(before, of, name, d, of, name);
    law_table_is_found_by_name(before, of2, name2, d2, of2, name2);
    lemma_is_part("_id"@);
    lemma_is_part("table_name"@);
    lemma_is_part("stream_label"@);
    lemma_path_joined(BsonV::Doc(d), "_id"@, "table_name"@);
    lemma_path_joined(BsonV::Doc(d2), "_id"@, "table_name"@);
    lemma_one_part(BsonV::Doc(d), "_id"@);
    lemma_one_part(BsonV::Doc(d2), "_id"@);
    lemma_one_part(table_key(of, name), "table_name"@);
    lemma_one_part(table_key(of2, name2), "table_name"@);
    lemma_one_part(BsonV::Doc(d), "stream_label"@);
    lemma_one_part(BsonV::Doc(d2), "stream_label"@);
    let up = BsonV::Int32(1);
    lemma_doc1("_id.table_name"@, up);
    lemma_appended(doc1("_id.table_name"@, up), "stream_label"@, up);
    let by = doc1("_id.table_name"@, up).with("stream_label"@, up).entries;
    assert(by.len() == 2);
    assert(by[0] == ("_id.table_name"@, up));
    assert(by[1] == ("stream_label"@, up));
    assert(by.skip(1)[0] == by[1]);
    assert(by.skip(1).skip(1).len() == 0);
    reveal_with_fuel(comes_before, 3);
    lemma_lt_irreflexive(name);
    lemma_lt_irreflexive(label);
}

/// A stream is read from the entry of its table: its name and its label.
pub proof fn law_stream_is_read(d: DocV, of: Seq<char>, name: Seq<char>, has: Option<Seq<char>>)
    requires
        d.get("_id"@) == Some(table_key(of, name)),
        has_label(d, has),
    ensures
        stream_of(d) == (match has {
            Some(l) => Some((name, l)),
            None => None,
        }),
{
    broadcast use crate::bson::group_document_fields;

    lemma_table_names();
}

/// Streams are read one for each entry, in order.
pub proof fn law_streams_are_read(docs: Seq<DocV>, streams: Seq<(Seq<char>, Seq<char>)>)
    requires
        docs.len() == streams.len(),
        forall|i: int| 0 <= i < docs.len() ==> stream_of(#[trigger] docs[i]) == Some(streams[i]),
    ensures
        streams_of(docs) == streams,
    decreases docs.len(),
{
    if docs.len() > 0 {
        let d = docs.drop_last();
        let n = streams.drop_last();
        assert forall|i: int| 0 <= i < d.len() implies stream_of(#[trigger] d[i]) == Some(
            n[i],
        ) by {
            assert(d[i] == docs[i]);
        }
        law_streams_are_read(d, n);
        assert(stream_of(docs[docs.len() - 1]) == Some(streams.last()));
        assert(streams =~= n.push(streams.last()));
    } else {
        assert(streams =~= Seq::empty());
    }
}

// --- Descriptions --------------------------------------------------------------------

/// A shard that was created is read back with its identifier; it has no
/// parent and is not ended.
pub proof fn law_shard_is_read(name: Seq<char>, of: Seq<char>, i: nat, now: i64)
    ensures
        shard_of(shard_document(name, of, i, now)) matches Some(s) && s.shard_id == shard_id_text(
            name,
            i,
        ) && s.parent_shard_id is None && s.ending_sequence_number is None,
{
    broadcast use crate::bson::group_document_fields;

    reveal_strlit("shard_id");
    reveal_strlit("table_id");
    reveal_strlit("starting_sequence_number");
    reveal_strlit("ending_sequence_number");
    reveal_strlit("parent_shard_id");
    reveal_strlit("created_at");
    assert("shard_id"@.len() == 8 && "table_id"@.len() == 8 && "created_at"@.len() == 10);
    assert("starting_sequence_number"@.len() == 24 && "ending_sequence_number"@.len() == 22);
    assert("parent_shard_id"@.len() == 15);
    assert("shard_id"@[0] == 's' && "table_id"@[0] == 't');
}

/// Shards are read one for each entry, in order.
pub proof fn law_shards_are_read(docs: Seq<DocV>, shards: Seq<ShardV>)
    requires
        docs.len() == shards.len(),
        forall|i: int| 0 <= i < docs.len() ==> shard_of(#[trigger] docs[i]) == Some(shards[i]),
    ensures
        shards_of(docs) == shards,
    decreases docs.len(),
{
    if docs.len() > 0 {
        let d = docs.drop_last();
        let n = shards.drop_last();
        assert forall|i: int| 0 <= i < d.len() implies shard_of(#[trigger] d[i]) == Some(n[i]) by {
            assert(d[i] == docs[i]);
        }
        law_shards_are_read(d, n);
        assert(shard_of(docs[docs.len() - 1]) == Some(shards.last()));
        assert(shards =~= n.push(shards.last()));
    } else {
        assert(shards =~= Seq::empty());
    }
}

/// A stream is described as its table was set: with the view and the key
/// schema that were stored, and as ending where the table is being deleted.
/// No more shards are handed out than asked for, and where some are left, the
/// last one handed out is where the next list begins.
pub proof fn law_stream_is_described(
    q: DescribeStream,
    limit: i64,
    d: Document,
    spec: StreamSpecification,
    schema: Seq<(Seq<char>, KeyType)>,
    docs: Vec<Document>,
    shards: Seq<ShardV>,
    listing: Step<DescribeState, StreamDescription>,
    done: Step<DescribeState, StreamDescription>,
)
    requires
        q.limit == Some(limit),
        limit > 0,
        d@.get("stream_specification"@) == Some(stream_spec_bson(spec)),
        d@.get("key_schema"@) == Some(schema_bson(schema)),
        describe_goes_on(
            DescribeState::FindingTable(q),
            Event::Replied(Reply::One(Some(d))),
            listing,
        ),
        listing is Do,
        docs@.len() == shards.len(),
        forall|i: int|
            0 <= i < docs@.len() ==> shard_of(#[trigger] doc_seq(docs@)[i]) == Some(shards[i]),
        describe_goes_on(state_of(listing), Event::Replied(Reply::Many(docs)), done),
    ensures
        done matches Step::Done(Ok(r)) && {
            &&& r.view_type == (match spec.stream_view_type {
                Some(v) => v,
                None => StreamViewType::KeysOnly,
            })
            &&& schema_view(r.key_schema@) == schema
            &&& (r.status == StreamStatus::Disabling) == (d@.get("table_status"@) == Some(
                BsonV::Str("DELETING"@),
            ))
            &&& shard_seq(r.shards@) == (if limit < shards.len() {
                shards.take(limit as int)
            } else {
                shards
            })
            &&& opt_string(r.last_shard) == (if limit < shards.len() {
                Some(shards[limit - 1].shard_id)
            } else {
                None
            })
        },
{
    broadcast use crate::bson::group_document_fields;

    law_stream_settings_round_trip(Some(spec));
    law_schema_round_trip(schema);
    reveal_strlit("StreamEnabled");
    reveal_strlit("StreamViewType");
    reveal_strlit("ACTIVE");
    reveal_strlit("DELETING");
    assert("ACTIVE"@.len() == 6 && "DELETING"@.len() == 8);
    assert("StreamEnabled"@.len() == 13 && "StreamViewType"@.len() == 14);
    let ds = doc_seq(docs@);
    if limit < ds.len() {
        let page = ds.take(limit as int);
        let some = shards.take(limit as int);
        assert forall|i: int| 0 <= i < page.len() implies shard_of(#[trigger] page[i]) == Some(
            some[i],
        ) by {
            assert(page[i] == ds[i]);
        }
        law_shards_are_read(page, some);
        assert(shard_of(ds[limit - 1]) == Some(shards[limit - 1]));
    } else {
        law_shards_are_read(ds, shards);
    }
}

// --- Checks --------------------------------------------------------------------------

/// A shard belongs to a stream where the table of the stream is found and the
/// shard is found among those of that table; where either is missing, the
/// stream is not found.
pub proof fn law_shard_is_checked(
    before: spec_fn(BsonV, BsonV) -> bool,
    stream_arn: String,
    shard_id: String,
    d: Document,
    found: Document,
    name: Seq<char>,
    of: Seq<char>,
    i: nat,
    now: i64,
    unknown: Step<ShardCheck, ()>,
    looking: Step<ShardCheck, ()>,
    missing: Step<ShardCheck, ()>,
    checked: Step<ShardCheck, ()>,
)
    requires
        d@.get("table_id"@) is Some && d@.get("table_id"@)->0 is Str,
        check_goes_on(
            ShardCheck::FindingTable { stream_arn, shard_id },
            Event::Replied(Reply::One(None)),
            unknown,
        ),
        check_goes_on(
            ShardCheck::FindingTable { stream_arn, shard_id },
            Event::Replied(Reply::One(Some(d))),
            looking,
        ),
        check_goes_on(state_of(looking), Event::Replied(Reply::One(None)), missing),
        check_goes_on(state_of(looking), Event::Replied(Reply::One(Some(found))), checked),
    ensures
        fails(unknown, no_stream(stream_arn@)),
        command_of(looking) matches Some(CommandV::FindOne { at, filter }) && at == in_data(
            "stream_shards"@,
        ) && matches_filter(before, filter, shard_document(name, of, i, now)) == (
        d@.get("table_id"@) == Some(BsonV::Str(of)) && shard_id@ == shard_id_text(name, i)),
        fails(missing, no_stream(stream_arn@)),
        checked == Step::<ShardCheck, ()>::Done(Ok(())),
{
    broadcast use crate::bson::group_document_fields;

    reveal_strlit("shard_id");
    reveal_strlit("table_id");
    reveal_strlit("starting_sequence_number");
    reveal_strlit("created_at");
    assert("shard_id"@.len() == 8 && "table_id"@.len() == 8 && "created_at"@.len() == 10);
    assert("starting_sequence_number"@.len() == 24);
    assert("shard_id"@[0] == 's' && "table_id"@[0] == 't');
    assert(is_name("shard_id"@) && is_name("table_id"@));
    let s = shard_document(name, of, i, now);
    let id = BsonV::Str(d@.str_or("table_id"@, ""@));
    let f = doc1("shard_id"@, BsonV::Str(shard_id@));
    lemma_one_clause(before, "shard_id"@, BsonV::Str(shard_id@), s);
    lemma_plain_clause(before, "shard_id"@, BsonV::Str(shard_id@), s);
    lemma_more_clauses(before, f, "table_id"@, id, s);
    lemma_plain_clause(before, "table_id"@, id, s);
}

} // verus!
