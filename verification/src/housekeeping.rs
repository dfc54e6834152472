//! What is kept about the running of the backend: settings, metrics, failed
//! logins and the setup, and what the data operations know of tables.

use vstd::prelude::*;
use vstd::string::*;

use crate::access_keys::find_encryption_key;
use crate::administration::{
    cutoff_of, failure_document_of, failures_filter, metrics_document_of, metrics_filter,
    metrics_key, old_failures, old_metrics, set_setting_of, LoginKey, MetricsV,
};
use crate::bootstrap::{
    catalog_collections, collection_lines, migration_lines, setup_goes_on, setup_leads,
    version_lines, SetupStep,
};
use crate::bson::{doc1, lemma_doc1, obj1, BsonV, DocV, Document};
use crate::catalog::{account_check, find_table_of, index_key};
use crate::effects::{command_of, state_of};
use crate::error::ErrV;
use crate::identities::{find_identity_of, policies_of, user_queries, IdentityKind};
use crate::key_info::{
    find_index_of, key_info_begins, key_info_goes_on, key_info_of, KeyInfoState, KeyInfoV,
    TableKeyInfo,
};
use crate::lookup::{
    inner, is_name, is_plain_update, is_seed, is_updated, lemma_asked_clause, lemma_inner_clause,
    lemma_plain_clause, lemma_set, lemma_update_words,
};
use crate::meaning::{
    is_operators, lemma_more_clauses, lemma_one_asked, lemma_one_clause, lemma_two_asked,
    lemma_words, matches_filter,
};
use crate::policies::find_session_of;
use crate::protocol::{in_catalog, CommandV, Event, PlaceV, Reply, Step};
use crate::records::orders_times;
use crate::schema_json::ProvisionedThroughput;
use crate::table::{table_document_of, TableV};

verus! {

// --- Settings ------------------------------------------------------------------------

/// Changing a setting changes that setting, or adds it, and it reads as it was
/// set.
pub proof fn law_setting_is_changed(
    before: spec_fn(BsonV, BsonV) -> bool,
    key: Seq<char>,
    value: Seq<char>,
    d: DocV,
    own: Seq<char>,
    r: DocV,
    seed: DocV,
    first: DocV,
)
    requires
        d.get("_id"@) == Some(BsonV::Str(own)),
        set_setting_of(key, value) matches CommandV::Update { filter, update, .. } && is_updated(
            update,
            false,
            d,
            r,
        ) && is_seed(filter, seed) && is_updated(update, true, seed, first),
    ensures
        set_setting_of(key, value) matches CommandV::Update { at, filter, update, upsert } && at
            == in_catalog("settings"@) && upsert && is_plain_update(update) && matches_filter(
            before,
            filter,
            d,
        ) == (own == key),
        r.get_str("value"@) == Some(value),
        r.get_str("_id"@) == Some(own),
        first.get_str("value"@) == Some(value),
        first.get_str("_id"@) == Some(key),
{
    broadcast use crate::bson::group_document_fields;

    reveal_strlit("_id");
    reveal_strlit("value");
    assert("_id"@.len() == 3 && "value"@.len() == 5);
    assert(is_name("_id"@) && is_name("value"@));
    lemma_one_clause(before, "_id"@, BsonV::Str(key), d);
    lemma_plain_clause(before, "_id"@, BsonV::Str(key), d);
    let fields = doc1("value"@, BsonV::Str(value));
    lemma_set(fields, false, d, r, "value"@);
    lemma_set(fields, false, d, r, "_id"@);
    lemma_set(fields, true, seed, first, "value"@);
    lemma_set(fields, true, seed, first, "_id"@);
    assert(seed.get("_id"@) == Some(BsonV::Str(key)));
}

// --- Failed logins -------------------------------------------------------------------

/// The failed logins that are counted are those of the principal, or of the
/// address, from a time on; those that are removed are those from before one.
pub proof fn law_failed_logins_are_counted(
    before: spec_fn(BsonV, BsonV) -> bool,
    value: Seq<char>,
    cutoff: i64,
    principal: Seq<char>,
    source_ip: Option<Seq<char>>,
    now: i64,
)
    requires
        orders_times(before),
    ensures
        ({
            let d = failure_document_of(principal, source_ip, now);
            &&& matches_filter(before, failures_filter(LoginKey::Principal, value, cutoff), d) == (
            principal == value && cutoff <= now)
            &&& matches_filter(before, failures_filter(LoginKey::SourceIp, value, cutoff), d) == (
            source_ip == Some(value) && cutoff <= now)
            &&& matches_filter(before, old_failures(cutoff), d) == (now < cutoff)
        }),
{
    broadcast use crate::bson::group_document_fields;

    lemma_words();
    reveal_strlit("$gte");
    reveal_strlit("$lt");
    reveal_strlit("principal");
    reveal_strlit("source_ip");
    reveal_strlit("attempted_at");
    reveal_strlit("success");
    assert("principal"@.len() == 9 && "source_ip"@.len() == 9 && "attempted_at"@.len() == 12);
    assert("success"@.len() == 7 && "principal"@[0] == 'p' && "source_ip"@[0] == 's');
    assert(is_name("principal"@) && is_name("source_ip"@) && is_name("attempted_at"@) && is_name(
        "success"@,
    ));
    let d = failure_document_of(principal, source_ip, now);
    assert(d.get("principal"@) == Some(BsonV::Str(principal)));
    assert(d.get("attempted_at"@) == Some(BsonV::DateTime(now)));
    assert(d.get("success"@) == Some(BsonV::Boolean(false)));
    let since = BsonV::DateTime(cutoff);
    let late = obj1("$gte"@, since);
    lemma_asked_clause(before, "attempted_at"@, "$gte"@, since, d);
    lemma_plain_clause(before, "success"@, BsonV::Boolean(false), d);
    let p = doc1("principal"@, BsonV::Str(value));
    lemma_one_clause(before, "principal"@, BsonV::Str(value), d);
    lemma_plain_clause(before, "principal"@, BsonV::Str(value), d);
    lemma_more_clauses(before, p, "attempted_at"@, late, d);
    lemma_more_clauses(
        before,
        p.with("attempted_at"@, late),
        "success"@,
        BsonV::Boolean(false),
        d,
    );
    let q = doc1("source_ip"@, BsonV::Str(value));
    lemma_one_clause(before, "source_ip"@, BsonV::Str(value), d);
    lemma_plain_clause(before, "source_ip"@, BsonV::Str(value), d);
    lemma_more_clauses(before, q, "attempted_at"@, late, d);
    lemma_more_clauses(
        before,
        q.with("attempted_at"@, late),
        "success"@,
        BsonV::Boolean(false),
        d,
    );
    lemma_one_clause(before, "attempted_at"@, obj1("$lt"@, since), d);
    lemma_asked_clause(before, "attempted_at"@, "$lt"@, since, d);
}

// --- Metrics -------------------------------------------------------------------------

/// The metrics of a time are those within its bounds, of the table and under
/// the name that are given; those that are removed are those from before one.
#[verifier::rlimit(40)]
#[verifier::spinoff_prover]
pub proof fn law_metrics_of_a_time_are_read(
    before: spec_fn(BsonV, BsonV) -> bool,
    start: i64,
    end: i64,
    table_name: Option<Seq<char>>,
    metric: Option<Seq<char>>,
    cutoff: i64,
    m: MetricsV,
)
    requires
        orders_times(before),
    ensures
        matches_filter(
            before,
            metrics_filter(start, end, table_name, metric),
            metrics_document_of(m),
        ) == (start <= m.bucket && m.bucket <= end && (table_name matches Some(t) ==> m.table_name
            == Some(t)) && (metric matches Some(n) ==> m.metric == n)),
        matches_filter(before, old_metrics(cutoff), metrics_document_of(m)) == (m.bucket < cutoff),
{
    broadcast use crate::bson::group_document_fields;

    lemma_words();
    lemma_metrics_names();
    reveal_strlit("$gte");
    reveal_strlit("$lte");
    reveal_strlit("$lt");
    assert("$gte"@.len() == 4 && "$lte"@.len() == 4 && "$gte"@[1] == 'g' && "$lte"@[1] == 'l');
    let d = metrics_document_of(m);
    lemma_metrics_key(m);
    let t = inner(d, "_id"@, "bucket"@);
    assert(t == Some(BsonV::DateTime(m.bucket)));
    let from = BsonV::DateTime(start);
    let to = BsonV::DateTime(end);
    let range = doc1("$gte"@, from).with("$lte"@, to);
    lemma_two_asked(before, "$gte"@, from, "$lte"@, to, t);
    assert(range.entries[0].0[0] == '$');
    let f = doc1("_id.bucket"@, BsonV::Doc(range));
    lemma_one_clause(before, "_id.bucket"@, BsonV::Doc(range), d);
    lemma_inner_clause(before, "_id"@, "bucket"@, BsonV::Doc(range), d);
    let g = match table_name {
        Some(x) => f.with("_id.table_name"@, BsonV::Str(x)),
        None => f,
    };
    if let Some(x) = table_name {
        lemma_more_clauses(before, f, "_id.table_name"@, BsonV::Str(x), d);
        lemma_inner_clause(before, "_id"@, "table_name"@, BsonV::Str(x), d);
    }
    if let Some(x) = metric {
        lemma_more_clauses(before, g, "_id.metric"@, BsonV::Str(x), d);
        lemma_inner_clause(before, "_id"@, "metric"@, BsonV::Str(x), d);
    }
    let past = BsonV::DateTime(cutoff);
    lemma_one_clause(before, "_id.bucket"@, obj1("$lt"@, past), d);
    lemma_inner_clause(before, "_id"@, "bucket"@, obj1("$lt"@, past), d);
    lemma_doc1("$lt"@, past);
    assert(is_operators(obj1("$lt"@, past)));
    lemma_one_asked(before, "$lt"@, past, t);
}

proof fn lemma_metrics_names()
    ensures
        is_name("_id"@),
        is_name("bucket"@),
        is_name("metric"@),
        is_name("table_name"@),
        "_id.bucket"@ == "_id"@ + "."@ + "bucket"@,
        "_id.table_name"@ == "_id"@ + "."@ + "table_name"@,
        "_id.metric"@ == "_id"@ + "."@ + "metric"@,
        "_id.bucket"@.len() == 10,
        "_id.table_name"@.len() == 14,
        "_id.metric"@.len() == 10,
        "_id.bucket"@ != "_id.metric"@,
{
    reveal_strlit("_id");
    reveal_strlit(".");
    reveal_strlit("bucket");
    reveal_strlit("metric");
    reveal_strlit("table_name");
    reveal_strlit("_id.bucket");
    reveal_strlit("_id.table_name");
    reveal_strlit("_id.metric");
    assert("_id.bucket"@ =~= "_id"@ + "."@ + "bucket"@);
    assert("_id.table_name"@ =~= "_id"@ + "."@ + "table_name"@);
    assert("_id.metric"@ =~= "_id"@ + "."@ + "metric"@);
    assert("_id.bucket"@[4] == 'b' && "_id.metric"@[4] == 'm');
}

proof fn lemma_metrics_key(m: MetricsV)
    ensures
        metrics_document_of(m).get("_id"@) == Some(BsonV::Doc(metrics_key(m))),
        metrics_key(m).get("bucket"@) == Some(BsonV::DateTime(m.bucket)),
        metrics_key(m).get("metric"@) == Some(BsonV::Str(m.metric)),
        metrics_key(m).get("table_name"@) == (match m.table_name {
            Some(t) => Some(BsonV::Str(t)),
            None => None,
        }),
{
    broadcast use crate::bson::group_document_fields;

    reveal_strlit("_id");
    reveal_strlit("sum");
    reveal_strlit("count");
    reveal_strlit("min");
    reveal_strlit("max");
    reveal_strlit("bucket");
    reveal_strlit("metric");
    reveal_strlit("table_name");
    reveal_strlit("index_name");
    reveal_strlit("operation");
    assert("_id"@.len() == 3 && "sum"@.len() == 3 && "min"@.len() == 3 && "max"@.len() == 3);
    assert("_id"@[0] == '_' && "sum"@[0] == 's' && "min"@[0] == 'm' && "max"@[0] == 'm');
    assert("count"@.len() == 5 && "bucket"@.len() == 6 && "metric"@.len() == 6);
    assert("bucket"@[0] == 'b' && "metric"@[0] == 'm');
    assert("table_name"@.len() == 10 && "index_name"@.len() == 10 && "operation"@.len() == 9);
    assert("table_name"@[0] == 't' && "index_name"@[0] == 'i');
}

/// What is older than an age is what lies before the second in which the time
/// of that age ago lies.
pub proof fn law_cutoff_lies_that_long_ago(now: i128, age: i128)
    requires
        crate::clock::is_time(now),
        0 <= age,
        -40_000_000_000_000_000_000_000 < now - age,
    ensures
        cutoff_of(now, age) * 1_000_000 <= now - age < (cutoff_of(now, age) + 1000) * 1_000_000,
{
    let s = crate::clock::second_of(now - age);
    assert(-40_000_000_000_000 <= s <= 40_000_000_000_000);
}

// --- The setup -----------------------------------------------------------------------

/// A run of a setup: each step is what comes of the state of the one before
/// and an answer.
pub open spec fn is_setup_run(steps: Seq<SetupStep>, replies: Seq<Reply>) -> bool {
    &&& steps.len() > 0
    &&& replies.len() == steps.len() - 1
    &&& forall|i: int|
        0 <= i < replies.len() ==> (#[trigger] steps[i]) is Do && setup_goes_on(
            steps[i]->Do_0,
            replies[i],
            steps[i + 1],
        )
}

/// A setup that ends well has performed all its commands, each once and in
/// order.
pub proof fn law_setup_performs_each_command(
    lines: Seq<(CommandV, Option<Seq<char>>)>,
    steps: Seq<SetupStep>,
    replies: Seq<Reply>,
)
    requires
        is_setup_run(steps, replies),
        setup_leads(lines, steps[0]),
        steps.last() == SetupStep::Done(Ok(())),
    ensures
        steps.len() == lines.len() + 1,
        forall|i: int|
            0 <= i < lines.len() ==> ((#[trigger] steps[i]) matches SetupStep::Do(_, c) && c@
                == lines[i].0),
    decreases steps.len(),
{
    if lines.len() > 0 {
        if steps.len() > 1 {
            let rest = steps.skip(1);
            let later = replies.skip(1);
            assert(setup_goes_on(steps[0]->Do_0, replies[0], steps[1]));
            assert forall|i: int| 0 <= i < later.len() implies (#[trigger] rest[i]) is Do
                && setup_goes_on(rest[i]->Do_0, later[i], rest[i + 1]) by {
                assert(rest[i] == steps[i + 1] && later[i] == replies[i + 1] && rest[i + 1]
                    == steps[i + 2]);
            }
            assert(rest.last() == steps.last());
            if steps.len() > 2 {
                assert(steps[1] is Do);
            }
            law_setup_performs_each_command(lines.skip(1), rest, later);
            assert forall|i: int| 0 <= i < lines.len() implies ((#[trigger] steps[i])
                matches SetupStep::Do(_, c) && c@ == lines[i].0) by {
                if i > 0 {
                    assert(steps[i] == rest[i - 1]);
                    assert(lines[i] == lines.skip(1)[i - 1]);
                }
            }
        }
    } else if steps.len() > 1 {
        assert(steps[0] is Do);
    }
}

/// The setup of the catalog creates every collection of it, and passes over
/// those that exist.
pub proof fn law_every_collection_is_created(now: i64, i: int)
    requires
        0 <= i < catalog_collections().len(),
    ensures
        migration_lines(now).len() > catalog_collections().len(),
        migration_lines(now)[i] == (
            CommandV::CreateCollection { at: in_catalog(catalog_collections()[i]) },
            None::<Seq<char>>,
        ),
{
    assert(migration_lines(now)[i] == collection_lines()[i]);
}

/// A place of the catalog is one that the setup creates.
pub open spec fn is_created(at: PlaceV) -> bool {
    exists|i: int|
        0 <= i < catalog_collections().len() && at == in_catalog(#[trigger] catalog_collections()[i])
}

/// Where tables, indexes, identities, sessions, policies and settings are
/// looked for is created by the setup.
pub proof fn law_used_collections_are_created(
    k: IdentityKind,
    account_id: Seq<char>,
    name: Seq<char>,
    other: Seq<char>,
    now: i64,
)
    ensures
        find_table_of(account_id, name) matches CommandV::FindOne { at, .. } && is_created(at),
        find_index_of(account_id, name) matches CommandV::FindOne { at, .. } && is_created(at),
        find_identity_of(k, account_id, name) matches CommandV::FindOne { at, .. } && is_created(
            at,
        ),
        find_session_of(account_id, name, other, now) matches CommandV::FindOne { at, .. }
            && is_created(at),
        policies_of(k, account_id, name) matches CommandV::Find { at, .. } && is_created(at),
        find_encryption_key() matches CommandV::FindOne { at, .. } && is_created(at),
        set_setting_of(name, other) matches CommandV::Update { at, .. } && is_created(at),
        user_queries(account_id, name)[0] matches CommandV::Find { at, .. } && is_created(at),
{
    let all = catalog_collections();
    assert(all.len() == 17);
    assert(all[1] == "tables"@ && all[2] == "indexes"@ && all[4] == "settings"@);
    assert(all[6] == "iam_users"@ && all[7] == "access_keys"@ && all[8] == "iam_groups"@);
    assert(all[9] == "iam_roles"@ && all[10] == "iam_sessions"@ && all[11] == "iam_policies"@);
}

/// An index is looked up by its table and its name, among the indexes.
pub proof fn law_index_is_looked_up(
    before: spec_fn(BsonV, BsonV) -> bool,
    table_id: Seq<char>,
    index_name: Seq<char>,
    d: DocV,
    of: Seq<char>,
    name: Seq<char>,
)
    requires
        d.get("_id"@) == Some(index_key(of, name)),
    ensures
        find_index_of(table_id, index_name) matches CommandV::FindOne { at, filter } && at
            == in_catalog("indexes"@) && matches_filter(before, filter, d) == (of == table_id
            && name == index_name),
{
    crate::entries::law_index_is_found_by_name(before, table_id, index_name, d, of, name);
}

/// The version of the catalog is noted once: a version that was noted stays.
pub proof fn law_noted_version_is_kept(
    now: i64,
    d: DocV,
    r: DocV,
    seed: DocV,
    first: DocV,
    k: Seq<char>,
)
    requires
        version_lines(now)[0].0 matches CommandV::Update { filter, update, .. } && is_updated(
            update,
            false,
            d,
            r,
        ) && is_seed(filter, seed) && is_updated(update, true, seed, first),
        is_name(k),
    ensures
        version_lines(now)[0].0 matches CommandV::Update { at, update, upsert, .. } && at
            == in_catalog("settings"@) && upsert && is_plain_update(update),
        r.get(k) == d.get(k),
        first.get_str("_id"@) == Some("catalog_version"@),
        first.get_str("value"@) == Some("0.0.2"@),
{
    broadcast use crate::bson::group_document_fields;

    lemma_update_words();
    reveal_strlit("_id");
    reveal_strlit("value");
    assert("_id"@.len() == 3 && "value"@.len() == 5);
    assert(is_name("_id"@) && is_name("value"@));
    let fields = BsonV::Doc(doc1("value"@, BsonV::Str("0.0.2"@)));
    let u = doc1("$setOnInsert"@, fields);
    lemma_doc1("$setOnInsert"@, fields);
    assert(u.entries =~= seq![("$setOnInsert"@, fields)]);
    assert(r.get(k) == crate::lookup::field_after(u, false, k, d.get(k)));
    assert(seed.get("_id"@) == Some(BsonV::Str("catalog_version"@)));
    assert(first.get("_id"@) == crate::lookup::field_after(u, true, "_id"@, seed.get("_id"@)));
    assert(first.get("value"@) == crate::lookup::field_after(
        u,
        true,
        "value"@,
        seed.get("value"@),
    ));
}

// --- What is known of tables ---------------------------------------------------------

/// What the data operations know of a table that was created is what it was
/// created with; a table that is not active may not be used.
#[verifier::rlimit(60)]
#[verifier::spinoff_prover]
pub proof fn law_created_table_is_known(
    t: TableV,
    throughput: Option<ProvisionedThroughput>,
    status: Seq<char>,
)
    ensures
        key_info_of(t.account_id, t.table_name, table_document_of(t, throughput)) == Ok::<
            KeyInfoV,
            ErrV,
        >(
            (KeyInfoV {
                table_name: t.table_name,
                account_id: t.account_id,
                table_id: t.table_id,
                key_schema: t.key_schema,
                attribute_definitions: t.attribute_definitions,
                has_lsi: false,
                stream_specification: t.stream_specification,
            }),
        ),
        status != "ACTIVE"@ ==> key_info_of(
            t.account_id,
            t.table_name,
            table_document_of(t, throughput).with("table_status"@, BsonV::Str(status)),
        ) == Err::<KeyInfoV, ErrV>(ErrV::TableNotActive(t.table_name)),
{
    broadcast use crate::bson::group_document_fields;

    crate::schema_json::law_schema_round_trip(t.key_schema);
    crate::schema_json::law_definitions_round_trip(t.attribute_definitions);
    crate::schema_json::law_stream_settings_round_trip(t.stream_specification);
    reveal_strlit("_id");
    reveal_strlit("key_schema");
    reveal_strlit("attribute_definitions");
    reveal_strlit("billing_mode");
    reveal_strlit("provisioned_throughput");
    reveal_strlit("stream_specification");
    reveal_strlit("table_status");
    reveal_strlit("creation_date_time");
    reveal_strlit("table_size_bytes");
    reveal_strlit("item_count");
    reveal_strlit("table_arn");
    reveal_strlit("table_id");
    reveal_strlit("deletion_protection_enabled");
    reveal_strlit("ttl_attribute");
    reveal_strlit("stream_label");
    reveal_strlit("status_transition_at");
    reveal_strlit("ttl_index_ready");
    assert("_id"@.len() == 3 && "key_schema"@.len() == 10 && "attribute_definitions"@.len() == 21);
    assert("billing_mode"@.len() == 12 && "provisioned_throughput"@.len() == 22);
    assert("stream_specification"@.len() == 20 && "table_status"@.len() == 12);
    assert("creation_date_time"@.len() == 18 && "table_size_bytes"@.len() == 16);
    assert("item_count"@.len() == 10 && "table_arn"@.len() == 9 && "table_id"@.len() == 8);
    assert("deletion_protection_enabled"@.len() == 27 && "ttl_attribute"@.len() == 13);
    assert("stream_label"@.len() == 12 && "status_transition_at"@.len() == 20);
    assert("ttl_index_ready"@.len() == 15);
    assert("key_schema"@[0] == 'k' && "item_count"@[0] == 'i');
    assert("billing_mode"@[0] == 'b' && "table_status"@[0] == 't' && "stream_label"@[0] == 's');
    assert("stream_specification"@[2] == 'r' && "status_transition_at"@[2] == 'a');
}

/// The lookup of a table: it is found by its name, its local indexes are
/// counted, and whether it has any is told with what its entry tells.
pub proof fn law_table_is_looked_up(
    before: spec_fn(BsonV, BsonV) -> bool,
    account_id: Seq<char>,
    table_name: Seq<char>,
    entry: Document,
    n: u64,
    s0: Step<KeyInfoState, TableKeyInfo>,
    s1: Step<KeyInfoState, TableKeyInfo>,
    s2: Step<KeyInfoState, TableKeyInfo>,
    d: DocV,
    of: Seq<char>,
    index_name: Seq<char>,
    kind: Seq<char>,
)
    requires
        account_check(account_id) is Ok,
        key_info_begins(account_id, table_name, s0),
        key_info_of(account_id, table_name, entry@) is Ok,
        key_info_goes_on(state_of(s0), Event::Replied(Reply::One(Some(entry))), s1),
        key_info_goes_on(state_of(s1), Event::Replied(Reply::Counted(n)), s2),
        d.get("_id"@) == Some(index_key(of, index_name)),
        d.get("index_type"@) == Some(BsonV::Str(kind)),
    ensures
        command_of(s0) == Some(crate::catalog::find_table_of(account_id, table_name)),
        command_of(s1) matches Some(CommandV::Count { at, filter }) && at == in_catalog(
            "indexes"@,
        ) && matches_filter(before, filter, d) == (of == key_info_of(
            account_id,
            table_name,
            entry@,
        )->Ok_0.table_id && kind == "LSI"@),
        s2 matches Step::Done(Ok(info)) && info@ == (KeyInfoV {
            has_lsi: n > 0,
            ..key_info_of(account_id, table_name, entry@)->Ok_0
        }),
{
    broadcast use crate::bson::group_document_fields;

    let id = key_info_of(account_id, table_name, entry@)->Ok_0.table_id;
    crate::entries::law_index_is_found_by_name(before, id, index_name, d, of, index_name);
    reveal_strlit("index_type");
    reveal_strlit("_id.table_id");
    assert("index_type"@.len() == 10 && "_id.table_id"@.len() == 12);
    assert(is_name("index_type"@));
    let f = crate::catalog::indexes_filter_of(id);
    lemma_more_clauses(before, f, "index_type"@, BsonV::Str("LSI"@), d);
    lemma_plain_clause(before, "index_type"@, BsonV::Str("LSI"@), d);
}

} // verus!
