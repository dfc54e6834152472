//! Settings, metrics, failed logins, administrators and diagnostics.

use vstd::prelude::*;
use vstd::string::*;

use crate::access_keys::has_millis;
use crate::bson::{doc1, doc_seq, obj1, opt_string, opt_text, Bson, BsonV, DocV, Document};
use crate::clock::{is_time, second_of, seconds_at};
use crate::crypto::{is_accepted, password_matches};
use crate::management::{
    by1, changed, changed_said, filter1, found, found_said, insert, insert_of, inserted,
    inserted_said, listed, listed_said, lookup, lookup_of, op_pairs, op_unit, ordered, ordered_of,
    pairs_said, read_pairs, remove, remove_of, removed, removed_said, set_fields, set_of,
    unordered, unordered_of, OpErrV, OpError,
};
use crate::protocol::{in_catalog, Command, CommandV, Db, Place, Reply};

verus! {

// --- Settings ------------------------------------------------------------------------

/// The command that looks a setting up.
pub fn get_setting_command(key: &str) -> (r: Command)
    ensures
        r@ == lookup_of("settings"@, by1("_id"@, key@)),
{
    lookup("settings", filter1("_id", key))
}

/// What the answer to the lookup of a setting says.
pub open spec fn setting_said(reply: Reply) -> Result<Option<Seq<char>>, OpErrV> {
    match found_said(reply) {
        Err(e) => Err(e),
        Ok(Some(d)) => Ok(d.get_str("value"@)),
        Ok(None) => Ok(None),
    }
}

/// Reads a setting from the answer to its lookup.
pub fn get_setting_reply(reply: Reply) -> (r: Result<Option<String>, OpError>)
    ensures
        match r {
            Ok(v) => setting_said(reply) == Ok::<Option<Seq<char>>, OpErrV>(opt_string(v)),
            Err(e) => setting_said(reply) == Err::<Option<Seq<char>>, OpErrV>(e@),
        },
{
    match found(reply) {
        Err(e) => Err(e),
        Ok(Some(d)) => match d.get_str("value") {
            Some(v) => Ok(Some(v.to_owned())),
            None => Ok(None),
        },
        Ok(None) => Ok(None),
    }
}

/// The command that changes a setting.
pub open spec fn set_setting_of(key: Seq<char>, value: Seq<char>) -> CommandV {
    set_of("settings"@, by1("_id"@, key), by1("value"@, value), true)
}

/// The command that changes a setting.
pub fn set_setting_command(key: &str, value: &str) -> (r: Command)
    ensures
        r@ == set_setting_of(key@, value@),
{
    set_fields("settings", filter1("_id", key), filter1("value", value), true)
}

/// The command that lists all settings.
pub fn list_settings_command() -> (r: Command)
    ensures
        r@ == ordered_of("settings"@, DocV::empty(), "_id"@),
{
    ordered("settings", Document::new(), "_id")
}

/// Reads a list of settings.
pub fn list_settings_reply(reply: Reply) -> (r: Result<Vec<(String, String)>, OpError>)
    ensures
        op_pairs(r) == pairs_said(reply, "_id"@, "value"@),
{
    read_pairs(reply, "_id", "value")
}

// --- Metrics -------------------------------------------------------------------------

/// A row of metrics. Numbers with fractions are kept by their texts.
#[derive(Debug, PartialEq)]
pub struct MetricsRow {
    /// The time in milliseconds.
    pub bucket: i64,
    pub metric: String,
    pub table_name: Option<String>,
    pub index_name: Option<String>,
    pub operation: Option<String>,
    pub sum: String,
    pub count: i64,
    pub min: String,
    pub max: String,
}

/// The model of a row of metrics.
#[verifier::ext_equal]
pub struct MetricsV {
    pub bucket: i64,
    pub metric: Seq<char>,
    pub table_name: Option<Seq<char>>,
    pub index_name: Option<Seq<char>>,
    pub operation: Option<Seq<char>>,
    pub sum: Seq<char>,
    pub count: i64,
    pub min: Seq<char>,
    pub max: Seq<char>,
}

impl View for MetricsRow {
    type V = MetricsV;

    open spec fn view(&self) -> MetricsV {
        MetricsV {
            bucket: self.bucket,
            metric: self.metric@,
            table_name: opt_string(self.table_name),
            index_name: opt_string(self.index_name),
            operation: opt_string(self.operation),
            sum: self.sum@,
            count: self.count,
            min: self.min@,
            max: self.max@,
        }
    }
}

/// A document with a text under a name, where there is one.
pub open spec fn with_text(d: DocV, k: Seq<char>, t: Option<Seq<char>>) -> DocV {
    match t {
        Some(s) => d.with(k, BsonV::Str(s)),
        None => d,
    }
}

/// What tells a row of metrics from others.
pub open spec fn metrics_key(m: MetricsV) -> DocV {
    with_text(
        with_text(
            with_text(
                doc1("bucket"@, BsonV::DateTime(m.bucket)).with("metric"@, BsonV::Str(m.metric)),
                "table_name"@,
                m.table_name,
            ),
            "index_name"@,
            m.index_name,
        ),
        "operation"@,
        m.operation,
    )
}

/// The document of a row of metrics.
pub open spec fn metrics_document_of(m: MetricsV) -> DocV {
    doc1("_id"@, BsonV::Doc(metrics_key(m))).with("sum"@, BsonV::Double(m.sum)).with(
        "count"@,
        BsonV::Int64(m.count),
    ).with("min"@, BsonV::Double(m.min)).with("max"@, BsonV::Double(m.max))
}

/// The documents of rows of metrics.
pub open spec fn metrics_documents(v: Seq<MetricsRow>) -> Seq<DocV> {
    Seq::new(v.len(), |i: int| metrics_document_of(v[i]@))
}

fn metrics_document(m: &MetricsRow) -> (r: Document)
    ensures
        r@ == metrics_document_of(m@),
{
    let mut key = Document::new().with("bucket", Bson::DateTime(m.bucket)).with(
        "metric",
        Bson::text(m.metric.as_str()),
    );
    if let Some(t) = &m.table_name {
        key.insert("table_name", Bson::text(t.as_str()));
    }
    if let Some(t) = &m.index_name {
        key.insert("index_name", Bson::text(t.as_str()));
    }
    if let Some(t) = &m.operation {
        key.insert("operation", Bson::text(t.as_str()));
    }
    Document::new().with("_id", Bson::Document(key)).with("sum", Bson::Double(m.sum.clone())).with(
        "count",
        Bson::Int64(m.count),
    ).with("min", Bson::Double(m.min.clone())).with("max", Bson::Double(m.max.clone()))
}

/// The command that stores rows of metrics; none where there are no rows.
pub fn insert_metrics_command(rows: &Vec<MetricsRow>) -> (r: Option<Command>)
    ensures
        match r {
            Some(c) => rows@.len() > 0 && c@ == (CommandV::InsertMany {
                at: in_catalog("metrics"@),
                documents: metrics_documents(rows@),
            }),
            None => rows@.len() == 0,
        },
{
    if rows.len() == 0 {
        return None;
    }
    let mut documents: Vec<Document> = Vec::new();
    let mut i: usize = 0;
    while i < rows.len()
        invariant
            i <= rows.len(),
            documents@.len() == i,
            forall|j: int|
                0 <= j < i ==> (#[trigger] documents@[j])@ == metrics_document_of(rows@[j]@),
        decreases rows.len() - i,
    {
        documents.push(metrics_document(&rows[i]));
        i += 1;
    }
    assert(doc_seq(documents@) =~= metrics_documents(rows@));
    Some(Command::InsertMany { at: Place::catalog("metrics"), documents })
}

/// The filter of metrics of a time, of a table and of a name where these are
/// given.
pub open spec fn metrics_filter(
    start: i64,
    end: i64,
    table_name: Option<Seq<char>>,
    metric: Option<Seq<char>>,
) -> DocV {
    let range = doc1("$gte"@, BsonV::DateTime(start)).with("$lte"@, BsonV::DateTime(end));
    with_text(
        with_text(doc1("_id.bucket"@, BsonV::Doc(range)), "_id.table_name"@, table_name),
        "_id.metric"@,
        metric,
    )
}

/// The command that queries metrics of a time; bounds are in milliseconds.
pub fn query_metrics_command(
    start: i64,
    end: i64,
    table_name: Option<&str>,
    metric: Option<&str>,
) -> (r: Command)
    ensures
        r@ == unordered_of(
            "metrics"@,
            metrics_filter(start, end, opt_text(table_name), opt_text(metric)),
        ),
{
    let range = Document::new().with("$gte", Bson::DateTime(start)).with(
        "$lte",
        Bson::DateTime(end),
    );
    let mut filter = Document::new().with("_id.bucket", Bson::Document(range));
    if let Some(t) = table_name {
        filter.insert("_id.table_name", Bson::text(t));
    }
    if let Some(m) = metric {
        filter.insert("_id.metric", Bson::text(m));
    }
    unordered("metrics", filter)
}

/// The whole number under a name, of either width.
pub open spec fn any_integer(d: DocV, k: Seq<char>) -> Option<i64> {
    match d.get_i64(k) {
        Some(n) => Some(n),
        None => match d.get_i32(k) {
            Some(n) => Some(n as i64),
            None => None,
        },
    }
}

/// The row of metrics that a document describes.
pub open spec fn metrics_of(d: DocV) -> Option<MetricsV> {
    match d.get_document("_id"@) {
        None => None,
        Some(key) => match (
            key.get_datetime("bucket"@),
            key.get_str("metric"@),
            crate::backup::double_under(d, "sum"@),
            any_integer(d, "count"@),
            crate::backup::double_under(d, "min"@),
            crate::backup::double_under(d, "max"@),
        ) {
            (Some(bucket), Some(metric), Some(sum), Some(count), Some(min), Some(max)) => Some(
                MetricsV {
                    bucket,
                    metric,
                    table_name: key.get_str("table_name"@),
                    index_name: key.get_str("index_name"@),
                    operation: key.get_str("operation"@),
                    sum,
                    count,
                    min,
                    max,
                },
            ),
            _ => None,
        },
    }
}

/// The rows of metrics that documents describe.
pub open spec fn metrics_rows(docs: Seq<DocV>) -> Seq<MetricsV>
    decreases docs.len(),
{
    if docs.len() == 0 {
        Seq::empty()
    } else {
        let rest = metrics_rows(docs.drop_last());
        match metrics_of(docs.last()) {
            Some(m) => rest.push(m),
            None => rest,
        }
    }
}

/// The models of rows of metrics.
pub open spec fn metrics_seq(v: Seq<MetricsRow>) -> Seq<MetricsV> {
    Seq::new(v.len(), |i: int| v[i]@)
}

fn text_copy(d: &Document, k: &str) -> (r: Option<String>)
    ensures
        opt_string(r) == d@.get_str(k@),
{
    match d.get_str(k) {
        Some(s) => Some(s.to_owned()),
        None => None,
    }
}

fn double_copy(d: &Document, k: &str) -> (r: Option<String>)
    ensures
        opt_string(r) == crate::backup::double_under(d@, k@),
{
    match d.get(k) {
        Some(Bson::Double(t)) => Some(t.clone()),
        _ => None,
    }
}

fn integer(d: &Document, k: &str) -> (r: Option<i64>)
    ensures
        r == any_integer(d@, k@),
{
    match d.get_i64(k) {
        Some(n) => Some(n),
        None => match d.get_i32(k) {
            Some(n) => Some(n as i64),
            None => None,
        },
    }
}

fn read_metrics(d: &Document) -> (r: Option<MetricsRow>)
    ensures
        match r {
            Some(m) => metrics_of(d@) == Some(m@),
            None => metrics_of(d@) is None,
        },
{
    let key = match d.get_document("_id") {
        Some(key) => key,
        None => {
            return None;
        },
    };
    match (
        key.get_datetime("bucket"),
        text_copy(key, "metric"),
        double_copy(d, "sum"),
        integer(d, "count"),
        double_copy(d, "min"),
        double_copy(d, "max"),
    ) {
        (Some(bucket), Some(metric), Some(sum), Some(count), Some(min), Some(max)) => Some(
            MetricsRow {
                bucket,
                metric,
                table_name: text_copy(key, "table_name"),
                index_name: text_copy(key, "index_name"),
                operation: text_copy(key, "operation"),
                sum,
                count,
                min,
                max,
            },
        ),
        _ => None,
    }
}

/// Reads rows of metrics.
pub fn query_metrics_reply(reply: Reply) -> (r: Result<Vec<MetricsRow>, OpError>)
    ensures
        match (r, listed_said(reply)) {
            (Ok(v), Ok(docs)) => metrics_seq(v@) == metrics_rows(docs),
            (Err(e), Err(x)) => e@ == x,
            _ => false,
        },
{
    let docs = match listed(reply) {
        Ok(docs) => docs,
        Err(e) => {
            return Err(e);
        },
    };
    let ghost ds = doc_seq(docs@);
    let mut out: Vec<MetricsRow> = Vec::new();
    let mut i: usize = 0;
    assert(ds.take(0) =~= Seq::empty());
    assert(metrics_seq(out@) =~= Seq::empty());
    while i < docs.len()
        invariant
            i <= docs.len(),
            ds == doc_seq(docs@),
            metrics_seq(out@) == metrics_rows(ds.take(i as int)),
        decreases docs.len() - i,
    {
        proof {
            assert(ds.take(i + 1).drop_last() =~= ds.take(i as int));
            assert(ds.take(i + 1).last() == docs@[i as int]@);
        }
        if let Some(m) = read_metrics(&docs[i]) {
            let ghost before = out@;
            out.push(m);
            assert(metrics_seq(out@) =~= metrics_seq(before).push(m@));
        }
        i += 1;
    }
    assert(ds.take(ds.len() as int) =~= ds);
    Ok(out)
}

/// The time, in milliseconds and on a full second, so many nanoseconds before
/// another.
pub open spec fn cutoff_of(now: i128, age: i128) -> i64 {
    (second_of(now - age) * 1000) as i64
}

/// The time, in milliseconds and on a full second, so many nanoseconds before
/// another.
pub fn cutoff(now: i128, age: i128) -> (r: i64)
    requires
        is_time(now),
        0 <= age,
        -40_000_000_000_000_000_000_000 < now - age,
    ensures
        r == cutoff_of(now, age),
{
    let s = seconds_at(now - age);
    s * 1000
}

/// The filter of metrics from before a time in milliseconds.
pub open spec fn old_metrics(cutoff: i64) -> DocV {
    doc1("_id.bucket"@, obj1("$lt"@, BsonV::DateTime(cutoff)))
}

/// The command that removes metrics from before a time in milliseconds.
pub fn prune_metrics_command(cutoff: i64) -> (r: Command)
    ensures
        r@ == (CommandV::DeleteMany {
            at: in_catalog("metrics"@),
            filter: old_metrics(cutoff),
        }),
{
    Command::DeleteMany {
        at: Place::catalog("metrics"),
        filter: Document::new().with("_id.bucket", Bson::obj1("$lt", Bson::DateTime(cutoff))),
    }
}

/// A time in seconds as one in milliseconds.
pub fn bucket_millis(seconds: i64) -> (r: i64)
    requires
        has_millis(seconds),
    ensures
        r == seconds * 1000,
{
    seconds * 1000
}

// --- Failed logins -------------------------------------------------------------------

/// By what failed logins are counted.
#[derive(Debug, Clone, Copy, PartialEq, Eq, Structural)]
pub enum LoginKey {
    Principal,
    SourceIp,
}

/// The field by which failed logins are counted.
pub open spec fn login_field(k: LoginKey) -> Seq<char> {
    match k {
        LoginKey::Principal => "principal"@,
        LoginKey::SourceIp => "source_ip"@,
    }
}

/// The filter of failed logins since a time in milliseconds.
pub open spec fn failures_filter(k: LoginKey, value: Seq<char>, cutoff: i64) -> DocV {
    by1(login_field(k), value).with("attempted_at"@, obj1("$gte"@, BsonV::DateTime(cutoff))).with(
        "success"@,
        BsonV::Boolean(false),
    )
}

/// The command that counts failed logins since a time in milliseconds.
pub fn count_failures_command(k: LoginKey, value: &str, cutoff: i64) -> (r: Command)
    ensures
        r@ == (CommandV::Count {
            at: in_catalog("login_attempts"@),
            filter: failures_filter(k, value@, cutoff),
        }),
{
    let field = match k {
        LoginKey::Principal => "principal",
        LoginKey::SourceIp => "source_ip",
    };
    Command::Count {
        at: Place::catalog("login_attempts"),
        filter: filter1(field, value).with(
            "attempted_at",
            Bson::obj1("$gte", Bson::DateTime(cutoff)),
        ).with("success", Bson::Boolean(false)),
    }
}

/// The document of a failed login.
pub open spec fn failure_document_of(
    principal: Seq<char>,
    source_ip: Option<Seq<char>>,
    now: i64,
) -> DocV {
    with_text(
        by1("principal"@, principal).with("attempted_at"@, BsonV::DateTime(now)).with(
            "success"@,
            BsonV::Boolean(false),
        ),
        "source_ip"@,
        source_ip,
    )
}

/// The command that records a failed login; `now` is the time in
/// milliseconds.
pub fn record_failed_login_command(principal: &str, source_ip: Option<&str>, now: i64) -> (r:
    Command)
    ensures
        r@ == insert_of(
            "login_attempts"@,
            failure_document_of(principal@, opt_text(source_ip), now),
        ),
{
    let mut d = filter1("principal", principal).with("attempted_at", Bson::DateTime(now)).with(
        "success",
        Bson::Boolean(false),
    );
    if let Some(ip) = source_ip {
        d.insert("source_ip", Bson::text(ip));
    }
    insert("login_attempts", d)
}

/// The filter of failed logins from before a time in milliseconds.
pub open spec fn old_failures(cutoff: i64) -> DocV {
    doc1("attempted_at"@, obj1("$lt"@, BsonV::DateTime(cutoff)))
}

/// The command that removes failed logins from before a time in milliseconds.
pub fn cleanup_attempts_command(cutoff: i64) -> (r: Command)
    ensures
        r@ == (CommandV::DeleteMany {
            at: in_catalog("login_attempts"@),
            filter: old_failures(cutoff),
        }),
{
    Command::DeleteMany {
        at: Place::catalog("login_attempts"),
        filter: Document::new().with("attempted_at", Bson::obj1("$lt", Bson::DateTime(cutoff))),
    }
}

// --- Administrators ------------------------------------------------------------------

/// The document of an administrator.
pub open spec fn admin_document_of(name: Seq<char>, password_hash: Seq<char>, now: i64) -> DocV {
    by1("_id"@, name).with("password_hash"@, BsonV::Str(password_hash)).with(
        "created_at"@,
        BsonV::DateTime(now),
    )
}

/// The command that creates an administrator.
pub fn create_admin_command(name: &str, password_hash: &str, now: i64) -> (r: Command)
    ensures
        r@ == insert_of("admin_users"@, admin_document_of(name@, password_hash@, now)),
{
    insert(
        "admin_users",
        filter1("_id", name).with("password_hash", Bson::text(password_hash)).with(
            "created_at",
            Bson::DateTime(now),
        ),
    )
}

/// Reads the answer to the creation of an administrator.
pub fn create_admin_reply(reply: &Reply) -> (r: Result<(), OpError>)
    ensures
        op_unit(r) == inserted_said(*reply, "Admin user already exists"@),
{
    inserted(reply, "Admin user already exists")
}

/// The command that lists the administrators.
pub fn list_admins_command() -> (r: Command)
    ensures
        r@ == ordered_of("admin_users"@, DocV::empty(), "_id"@),
{
    ordered("admin_users", Document::new(), "_id")
}

/// An administrator in a list.
#[derive(Debug, PartialEq)]
pub struct AdminEntry {
    pub admin_name: String,
    /// The time of the creation in milliseconds.
    pub created_at: i64,
}

/// The administrators that documents describe.
pub open spec fn admins_of(docs: Seq<DocV>) -> Seq<(Seq<char>, i64)>
    decreases docs.len(),
{
    if docs.len() == 0 {
        Seq::empty()
    } else {
        let rest = admins_of(docs.drop_last());
        match (docs.last().get_str("_id"@), docs.last().get_datetime("created_at"@)) {
            (Some(n), Some(t)) => rest.push((n, t)),
            _ => rest,
        }
    }
}

/// The models of a list of administrators.
pub open spec fn admin_seq(v: Seq<AdminEntry>) -> Seq<(Seq<char>, i64)> {
    Seq::new(v.len(), |i: int| (v[i].admin_name@, v[i].created_at))
}

/// Reads a list of administrators.
pub fn list_admins_reply(reply: Reply) -> (r: Result<Vec<AdminEntry>, OpError>)
    ensures
        match (r, listed_said(reply)) {
            (Ok(v), Ok(docs)) => admin_seq(v@) == admins_of(docs),
            (Err(e), Err(x)) => e@ == x,
            _ => false,
        },
{
    let docs = match listed(reply) {
        Ok(docs) => docs,
        Err(e) => {
            return Err(e);
        },
    };
    let ghost ds = doc_seq(docs@);
    let mut out: Vec<AdminEntry> = Vec::new();
    let mut i: usize = 0;
    assert(ds.take(0) =~= Seq::empty());
    assert(admin_seq(out@) =~= Seq::empty());
    while i < docs.len()
        invariant
            i <= docs.len(),
            ds == doc_seq(docs@),
            admin_seq(out@) == admins_of(ds.take(i as int)),
        decreases docs.len() - i,
    {
        proof {
            assert(ds.take(i + 1).drop_last() =~= ds.take(i as int));
            assert(ds.take(i + 1).last() == docs@[i as int]@);
        }
        match (docs[i].get_str("_id"), docs[i].get_datetime("created_at")) {
            (Some(n), Some(created_at)) => {
                let ghost before = out@;
                out.push(AdminEntry { admin_name: n.to_owned(), created_at });
                assert(admin_seq(out@) =~= admin_seq(before).push((n@, created_at)));
            },
            _ => {},
        }
        i += 1;
    }
    assert(ds.take(ds.len() as int) =~= ds);
    Ok(out)
}

/// The command that deletes an administrator.
pub fn delete_admin_command(name: &str) -> (r: Command)
    ensures
        r@ == remove_of("admin_users"@, by1("_id"@, name@)),
{
    remove("admin_users", filter1("_id", name))
}

/// Reads the answer to the deletion of an administrator.
pub fn delete_admin_reply(reply: &Reply) -> (r: Result<(), OpError>)
    ensures
        op_unit(r) == removed_said(*reply, "Admin user not found"@),
{
    removed(reply, "Admin user not found")
}

/// The command that changes the password of an administrator.
pub fn change_admin_password_command(name: &str, password_hash: &str) -> (r: Command)
    ensures
        r@ == set_of(
            "admin_users"@,
            by1("_id"@, name@),
            by1("password_hash"@, password_hash@),
            false,
        ),
{
    set_fields("admin_users", filter1("_id", name), filter1("password_hash", password_hash), false)
}

/// Reads the answer to the change of the password of an administrator.
pub fn change_admin_password_reply(reply: &Reply) -> (r: Result<(), OpError>)
    ensures
        op_unit(r) == changed_said(*reply, "Admin user not found"@),
{
    changed(reply, "Admin user not found")
}

/// The command that looks an administrator up.
pub fn find_admin_command(name: &str) -> (r: Command)
    ensures
        r@ == lookup_of("admin_users"@, by1("_id"@, name@)),
{
    lookup("admin_users", filter1("_id", name))
}

/// What the answer to the lookup of an administrator says of a password:
/// whether it is theirs. Where there is no administrator, or none with a
/// password, it says nothing.
pub open spec fn admin_password_said(reply: Reply, password: Seq<char>) -> Result<
    Option<bool>,
    OpErrV,
> {
    match found_said(reply) {
        Err(e) => Err(e),
        Ok(None) => Ok(None),
        Ok(Some(d)) => match d.get_str("password_hash"@) {
            Some(h) => Ok(Some(is_accepted(password, h))),
            None => Ok(None),
        },
    }
}

/// Checks the password of an administrator, from the answer to their lookup.
pub fn verify_admin_password_reply(reply: Reply, password: &str) -> (r: Result<
    Option<bool>,
    OpError,
>)
    ensures
        match r {
            Ok(b) => admin_password_said(reply, password@) == Ok::<Option<bool>, OpErrV>(b),
            Err(e) => admin_password_said(reply, password@) == Err::<Option<bool>, OpErrV>(e@),
        },
{
    match found(reply) {
        Err(e) => Err(e),
        Ok(None) => Ok(None),
        Ok(Some(d)) => match d.get_str("password_hash") {
            Some(h) => Ok(Some(password_matches(password, h))),
            None => Ok(None),
        },
    }
}

// --- Diagnostics ---------------------------------------------------------------------

/// The command that counts the tables.
pub fn count_tables_command() -> (r: Command)
    ensures
        r@ == (CommandV::Count { at: in_catalog("tables"@), filter: DocV::empty() }),
{
    Command::Count { at: Place::catalog("tables"), filter: Document::new() }
}

/// The command that reads all tables.
pub fn all_tables_command() -> (r: Command)
    ensures
        r@ == unordered_of("tables"@, DocV::empty()),
{
    unordered("tables", Document::new())
}

/// How many elements the list under a name has; none where there is no list.
pub open spec fn list_len(d: DocV, k: Seq<char>) -> nat {
    match d.get_array(k) {
        Some(a) => a.len(),
        None => 0,
    }
}

/// How many indexes the documents of tables list.
pub open spec fn indexes_in(docs: Seq<DocV>) -> nat
    decreases docs.len(),
{
    if docs.len() == 0 {
        0
    } else {
        indexes_in(docs.drop_last()) + list_len(docs.last(), "global_secondary_indexes"@) + list_len(
            docs.last(),
            "local_secondary_indexes"@,
        )
    }
}

fn length_of(d: &Document, k: &str) -> (r: usize)
    ensures
        r == list_len(d@, k@),
{
    match d.get_array(k) {
        Some(a) => {
            assert(crate::bson::bson_seq(a@).len() == a@.len());
            a.len()
        },
        None => 0,
    }
}

proof fn lemma_indexes_grow(docs: Seq<DocV>, i: nat, n: nat)
    requires
        i <= n <= docs.len(),
    ensures
        indexes_in(docs.take(i as int)) <= indexes_in(docs.take(n as int)),
    decreases n,
{
    if i < n {
        lemma_indexes_grow(docs, i, (n - 1) as nat);
        assert(docs.take(n as int).drop_last() =~= docs.take(n - 1));
    }
}

/// Counts the indexes that the documents of tables list.
pub fn count_indexes(docs: &Vec<Document>) -> (r: i64)
    requires
        indexes_in(doc_seq(docs@)) <= i64::MAX,
    ensures
        r == indexes_in(doc_seq(docs@)),
{
    let ghost ds = doc_seq(docs@);
    let mut n: i64 = 0;
    let mut i: usize = 0;
    assert(ds.take(0) =~= Seq::empty());
    while i < docs.len()
        invariant
            i <= docs.len(),
            ds == doc_seq(docs@),
            indexes_in(ds) <= i64::MAX,
            n == indexes_in(ds.take(i as int)),
        decreases docs.len() - i,
    {
        proof {
            assert(ds.take(i + 1).drop_last() =~= ds.take(i as int));
            assert(ds.take(i + 1).last() == docs@[i as int]@);
            lemma_indexes_grow(ds, (i + 1) as nat, ds.len());
            assert(ds.take(ds.len() as int) =~= ds);
        }
        let g = length_of(&docs[i], "global_secondary_indexes");
        let l = length_of(&docs[i], "local_secondary_indexes");
        n = n + g as i64 + l as i64;
        i += 1;
    }
    assert(ds.take(ds.len() as int) =~= ds);
    n
}

/// The command that tests the connection to the data database.
pub fn ping_command() -> (r: Command)
    ensures
        r@ == (CommandV::Run { db: Db::Data, command: doc1("ping"@, BsonV::Int32(1)) }),
{
    Command::Run { db: Db::Data, command: Document::new().with("ping", Bson::Int32(1)) }
}

// --- Laws --------------------------------------------------------------------------

/// A setting that was changed is the one that is read afterwards.
pub proof fn law_setting_reads_back(key: Seq<char>, value: Seq<char>)
    ensures
        by1("_id"@, key).with("value"@, BsonV::Str(value)).get_str("value"@) == Some(value),
{
    broadcast use crate::bson::group_document_fields;

}

/// A row of metrics is read as it was stored.
#[verifier::rlimit(60)]
#[verifier::spinoff_prover]
pub proof fn law_metrics_read_back(m: MetricsV)
    ensures
        metrics_of(metrics_document_of(m)) == Some(m),
{
    broadcast use crate::bson::group_document_fields;

    reveal_strlit("_id");
    reveal_strlit("bucket");
    reveal_strlit("metric");
    reveal_strlit("sum");
    reveal_strlit("count");
    reveal_strlit("min");
    reveal_strlit("max");
    reveal_strlit("table_name");
    reveal_strlit("index_name");
    reveal_strlit("operation");
    assert("_id"@.len() == 3 && "_id"@[0] == '_');
    assert("bucket"@.len() == 6 && "metric"@.len() == 6 && "sum"@.len() == 3);
    assert("bucket"@[0] == 'b' && "metric"@[0] == 'm' && "sum"@[0] == 's');
    assert("min"@.len() == 3 && "max"@.len() == 3 && "min"@[1] == 'i' && "max"@[1] == 'a');
    assert("min"@[0] == 'm' && "max"@[0] == 'm' && "count"@.len() == 5);
    assert("table_name"@.len() == 10 && "index_name"@.len() == 10 && "operation"@.len() == 9);
    assert("table_name"@[0] == 't' && "index_name"@[0] == 'i');
}

/// The password with which an administrator was created is accepted.
pub proof fn law_admin_password_is_checked(
    name: Seq<char>,
    password_hash: Seq<char>,
    now: i64,
    d: Document,
    password: Seq<char>,
)
    requires
        d@ == admin_document_of(name, password_hash, now),
    ensures
        admin_password_said(Reply::One(Some(d)), password) == Ok::<Option<bool>, OpErrV>(
            Some(is_accepted(password, password_hash)),
        ),
{
    broadcast use crate::bson::group_document_fields;

    reveal_strlit("_id");
    reveal_strlit("password_hash");
    reveal_strlit("created_at");
    assert("_id"@.len() == 3 && "password_hash"@.len() == 13 && "created_at"@.len() == 10);
}

} // verus!
