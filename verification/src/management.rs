//! What the management operations have in common: their errors, how they read
//! the answers of the database, and how they gather what they hand out.

use vstd::prelude::*;
use vstd::string::*;

use crate::bson::{doc1, doc_seq, opt_doc, opt_text, Bson, BsonV, DocV, Document};
use crate::protocol::{
    in_catalog, sorted_by, Command, CommandV, DbError, Paging, Place, Reply,
};
use crate::order::{lemma_lt_irreflexive, lemma_lt_transitive, text_before, text_lt};
use crate::stream_admin::pair_seq;

verus! {

/// An error of a management operation.
#[derive(Debug, PartialEq)]
pub enum OpError {
    AlreadyExists(String),
    NotFound(String),
    HasDependents(String),
    Internal(String),
}

/// The model of an error of a management operation.
#[verifier::ext_equal]
pub enum OpErrV {
    AlreadyExists(Seq<char>),
    NotFound(Seq<char>),
    HasDependents(Seq<char>),
    Internal(Seq<char>),
}

impl View for OpError {
    type V = OpErrV;

    open spec fn view(&self) -> OpErrV {
        match *self {
            OpError::AlreadyExists(m) => OpErrV::AlreadyExists(m@),
            OpError::NotFound(m) => OpErrV::NotFound(m@),
            OpError::HasDependents(m) => OpErrV::HasDependents(m@),
            OpError::Internal(m) => OpErrV::Internal(m@),
        }
    }
}

/// The error that the database refused a command.
pub open spec fn refused() -> OpErrV {
    OpErrV::Internal("Database error"@)
}

/// The error that an answer does not belong to its command.
pub open spec fn misplaced() -> OpErrV {
    OpErrV::Internal("unexpected event"@)
}

/// The error that the database refused a command.
pub fn database_error() -> (r: OpError)
    ensures
        r@ == refused(),
{
    OpError::Internal("Database error".to_owned())
}

/// The error that an answer does not belong to its command.
pub fn misplaced_reply() -> (r: OpError)
    ensures
        r@ == misplaced(),
{
    OpError::Internal("unexpected event".to_owned())
}

// --- Answers -------------------------------------------------------------------------

/// A refusal because a key occurs already.
pub open spec fn is_duplicate(e: DbError) -> bool {
    e.code == Some(11000i32)
}

/// Whether a command was refused because a key occurs already.
pub fn is_duplicate_key(e: &DbError) -> (r: bool)
    ensures
        r == is_duplicate(*e),
{
    match e.code {
        Some(c) => c == 11000,
        None => false,
    }
}

/// The model of an outcome without a value.
pub open spec fn op_unit(r: Result<(), OpError>) -> Result<(), OpErrV> {
    match r {
        Ok(_) => Ok(()),
        Err(e) => Err(e@),
    }
}

/// What the answer to an insertion says.
pub open spec fn inserted_said(reply: Reply, exists: Seq<char>) -> Result<(), OpErrV> {
    match reply {
        Reply::Failed(e) => if is_duplicate(e) {
            Err(OpErrV::AlreadyExists(exists))
        } else {
            Err(refused())
        },
        _ => Ok(()),
    }
}

/// Reads the answer to an insertion; `exists` is the message for a key that
/// occurs already.
pub fn inserted(reply: &Reply, exists: &str) -> (r: Result<(), OpError>)
    ensures
        op_unit(r) == inserted_said(*reply, exists@),
{
    match reply {
        Reply::Failed(e) => if is_duplicate_key(e) {
            Err(OpError::AlreadyExists(exists.to_owned()))
        } else {
            Err(database_error())
        },
        _ => Ok(()),
    }
}

/// What the answer to a command without a result says.
pub open spec fn performed_said(reply: Reply) -> Result<(), OpErrV> {
    match reply {
        Reply::Failed(_) => Err(refused()),
        _ => Ok(()),
    }
}

/// Reads the answer to a command without a result.
pub fn performed(reply: &Reply) -> (r: Result<(), OpError>)
    ensures
        op_unit(r) == performed_said(*reply),
{
    match reply {
        Reply::Failed(_) => Err(database_error()),
        _ => Ok(()),
    }
}

/// What the answer to a removal says.
pub open spec fn removed_said(reply: Reply, missing: Seq<char>) -> Result<(), OpErrV> {
    match reply {
        Reply::Deleted(n) => if n == 0 {
            Err(OpErrV::NotFound(missing))
        } else {
            Ok(())
        },
        Reply::Failed(_) => Err(refused()),
        _ => Err(misplaced()),
    }
}

/// Reads the answer to a removal; `missing` is the message where nothing was
/// removed.
pub fn removed(reply: &Reply, missing: &str) -> (r: Result<(), OpError>)
    ensures
        op_unit(r) == removed_said(*reply, missing@),
{
    match reply {
        Reply::Deleted(n) => if *n == 0 {
            Err(OpError::NotFound(missing.to_owned()))
        } else {
            Ok(())
        },
        Reply::Failed(_) => Err(database_error()),
        _ => Err(misplaced_reply()),
    }
}

/// What the answer to a change says.
pub open spec fn changed_said(reply: Reply, missing: Seq<char>) -> Result<(), OpErrV> {
    match reply {
        Reply::Matched(n) => if n == 0 {
            Err(OpErrV::NotFound(missing))
        } else {
            Ok(())
        },
        Reply::Failed(_) => Err(refused()),
        _ => Err(misplaced()),
    }
}

/// Reads the answer to a change; `missing` is the message where nothing was
/// changed.
pub fn changed(reply: &Reply, missing: &str) -> (r: Result<(), OpError>)
    ensures
        op_unit(r) == changed_said(*reply, missing@),
{
    match reply {
        Reply::Matched(n) => if *n == 0 {
            Err(OpError::NotFound(missing.to_owned()))
        } else {
            Ok(())
        },
        Reply::Failed(_) => Err(database_error()),
        _ => Err(misplaced_reply()),
    }
}

/// What the answer to a count says.
pub open spec fn counted_said(reply: Reply) -> Result<i64, OpErrV> {
    match reply {
        Reply::Counted(n) => Ok(n as i64),
        Reply::Failed(_) => Err(refused()),
        _ => Err(misplaced()),
    }
}

/// Reads the answer to a count.
pub fn counted(reply: &Reply) -> (r: Result<i64, OpError>)
    ensures
        match r {
            Ok(n) => counted_said(*reply) == Ok::<i64, OpErrV>(n),
            Err(e) => counted_said(*reply) == Err::<i64, OpErrV>(e@),
        },
{
    match reply {
        Reply::Counted(n) => Ok(*n as i64),
        Reply::Failed(_) => Err(database_error()),
        _ => Err(misplaced_reply()),
    }
}

/// What the answer to a query says.
pub open spec fn listed_said(reply: Reply) -> Result<Seq<DocV>, OpErrV> {
    match reply {
        Reply::Many(docs) => Ok(doc_seq(docs@)),
        Reply::Failed(_) => Err(refused()),
        _ => Err(misplaced()),
    }
}

/// Reads the answer to a query.
pub fn listed(reply: Reply) -> (r: Result<Vec<Document>, OpError>)
    ensures
        match r {
            Ok(v) => listed_said(reply) == Ok::<Seq<DocV>, OpErrV>(doc_seq(v@)),
            Err(e) => listed_said(reply) == Err::<Seq<DocV>, OpErrV>(e@),
        },
{
    match reply {
        Reply::Many(docs) => Ok(docs),
        Reply::Failed(_) => Err(database_error()),
        _ => Err(misplaced_reply()),
    }
}

/// What the answer to a lookup says.
pub open spec fn found_said(reply: Reply) -> Result<Option<DocV>, OpErrV> {
    match reply {
        Reply::One(d) => Ok(opt_doc(d)),
        Reply::Failed(_) => Err(refused()),
        _ => Err(misplaced()),
    }
}

/// Reads the answer to a lookup.
pub fn found(reply: Reply) -> (r: Result<Option<Document>, OpError>)
    ensures
        match r {
            Ok(d) => found_said(reply) == Ok::<Option<DocV>, OpErrV>(opt_doc(d)),
            Err(e) => found_said(reply) == Err::<Option<DocV>, OpErrV>(e@),
        },
{
    match reply {
        Reply::One(d) => Ok(d),
        Reply::Failed(_) => Err(database_error()),
        _ => Err(misplaced_reply()),
    }
}

// --- Rows ----------------------------------------------------------------------------

/// The pairs of texts under two names, of the documents that have both.
pub open spec fn pairs_under(docs: Seq<DocV>, a: Seq<char>, b: Seq<char>) -> Seq<
    (Seq<char>, Seq<char>),
>
    decreases docs.len(),
{
    if docs.len() == 0 {
        Seq::empty()
    } else {
        let rest = pairs_under(docs.drop_last(), a, b);
        match (docs.last().get_str(a), docs.last().get_str(b)) {
            (Some(x), Some(y)) => rest.push((x, y)),
            _ => rest,
        }
    }
}

/// Collects the pairs of texts under two names.
pub fn collect_pairs(docs: &Vec<Document>, a: &str, b: &str) -> (r: Vec<(String, String)>)
    ensures
        pair_seq(r@) == pairs_under(doc_seq(docs@), a@, b@),
{
    let ghost ds = doc_seq(docs@);
    let mut out: Vec<(String, String)> = Vec::new();
    let mut i: usize = 0;
    assert(ds.take(0) =~= Seq::empty());
    assert(pair_seq(out@) =~= Seq::empty());
    while i < docs.len()
        invariant
            i <= docs.len(),
            ds == doc_seq(docs@),
            pair_seq(out@) == pairs_under(ds.take(i as int), a@, b@),
        decreases docs.len() - i,
    {
        proof {
            assert(ds.take(i + 1).drop_last() =~= ds.take(i as int));
            assert(ds.take(i + 1).last() == docs@[i as int]@);
        }
        match (docs[i].get_str(a), docs[i].get_str(b)) {
            (Some(x), Some(y)) => {
                let ghost before = out@;
                out.push((x.to_owned(), y.to_owned()));
                assert(pair_seq(out@) =~= pair_seq(before).push((x@, y@)));
            },
            _ => {},
        }
        i += 1;
    }
    assert(ds.take(ds.len() as int) =~= ds);
    out
}

/// The model of a fallible list of pairs.
pub open spec fn op_pairs(r: Result<Vec<(String, String)>, OpError>) -> Result<
    Seq<(Seq<char>, Seq<char>)>,
    OpErrV,
> {
    match r {
        Ok(v) => Ok(pair_seq(v@)),
        Err(e) => Err(e@),
    }
}

/// What the answer to a query says of the pairs under two names.
pub open spec fn pairs_said(reply: Reply, a: Seq<char>, b: Seq<char>) -> Result<
    Seq<(Seq<char>, Seq<char>)>,
    OpErrV,
> {
    match listed_said(reply) {
        Ok(docs) => Ok(pairs_under(docs, a, b)),
        Err(e) => Err(e),
    }
}

/// Reads pairs of texts from the answer to a query.
pub fn read_pairs(reply: Reply, a: &str, b: &str) -> (r: Result<Vec<(String, String)>, OpError>)
    ensures
        op_pairs(r) == pairs_said(reply, a@, b@),
{
    match listed(reply) {
        Ok(docs) => Ok(collect_pairs(&docs, a, b)),
        Err(e) => Err(e),
    }
}

/// Pairs are in the order of their first texts.
pub open spec fn is_in_order(s: Seq<(Seq<char>, Seq<char>)>) -> bool {
    forall|i: int, j: int|
        0 <= i < j < s.len() ==> !text_lt((#[trigger] s[j]).0, (#[trigger] s[i]).0)
}

/// Adds a pair in its place.
fn add_in_order(v: Vec<(String, String)>, p: (String, String)) -> (r: Vec<(String, String)>)
    requires
        is_in_order(pair_seq(v@)),
    ensures
        is_in_order(pair_seq(r@)),
        pair_seq(r@).to_multiset() == pair_seq(v@).to_multiset().insert((p.0@, p.1@)),
{
    broadcast use vstd::seq_lib::group_to_multiset_ensures;

    let ghost s = pair_seq(v@);
    let ghost x = (p.0@, p.1@);
    let mut i: usize = 0;
    while i < v.len() && !text_before(p.0.as_str(), v[i].0.as_str())
        invariant
            i <= v.len(),
            s == pair_seq(v@),
            x == (p.0@, p.1@),
            forall|j: int| 0 <= j < i ==> !text_lt(x.0, (#[trigger] s[j]).0),
        decreases v.len() - i,
    {
        assert(s[i as int] == (v@[i as int].0@, v@[i as int].1@));
        i += 1;
    }
    let mut v = v;
    let ghost before = v@;
    v.insert(i, p);
    let ghost t = pair_seq(v@);
    proof {
        assert(t =~= s.insert(i as int, x));
        if i < s.len() {
            assert(s[i as int] == (before[i as int].0@, before[i as int].1@));
        }
        assert forall|a: int, b: int| 0 <= a < b < t.len() implies !text_lt(
            (#[trigger] t[b]).0,
            (#[trigger] t[a]).0,
        ) by {
            if b < i {
                assert(t[a] == s[a] && t[b] == s[b]);
            } else if b == i {
                assert(t[a] == s[a] && t[b] == x);
            } else if a < i {
                assert(t[a] == s[a] && t[b] == s[b - 1]);
            } else if a == i {
                assert(t[a] == x && t[b] == s[b - 1]);
                if text_lt(s[b - 1].0, x.0) {
                    lemma_lt_transitive(s[b - 1].0, x.0, s[i as int].0);
                    if b - 1 > i {
                        assert(!text_lt(s[b - 1].0, s[i as int].0));
                    } else {
                        lemma_lt_irreflexive(s[i as int].0);
                    }
                }
            } else {
                assert(t[a] == s[a - 1] && t[b] == s[b - 1]);
            }
        }
    }
    v
}

/// Puts pairs in the order of their first texts.
pub fn in_order(v: Vec<(String, String)>) -> (r: Vec<(String, String)>)
    ensures
        is_in_order(pair_seq(r@)),
        pair_seq(r@).to_multiset() == pair_seq(v@).to_multiset(),
{
    broadcast use vstd::seq_lib::group_to_multiset_ensures;

    let ghost s = pair_seq(v@);
    let mut v = v;
    let mut out: Vec<(String, String)> = Vec::new();
    assert(pair_seq(out@) =~= Seq::empty());
    assert(pair_seq(out@).to_multiset().add(s.to_multiset()) =~= s.to_multiset());
    while v.len() > 0
        invariant
            is_in_order(pair_seq(out@)),
            pair_seq(out@).to_multiset().add(pair_seq(v@).to_multiset()) == s.to_multiset(),
        decreases v.len(),
    {
        let ghost rest = pair_seq(v@);
        let ghost done = pair_seq(out@).to_multiset();
        let p = v.remove(0);
        let ghost x = (p.0@, p.1@);
        assert(pair_seq(v@) =~= rest.remove(0));
        assert(rest[0] == x);
        proof {
            vstd::seq_lib::to_multiset_contains(rest, x);
            vstd::seq_lib::to_multiset_remove(rest, 0);
        }
        out = add_in_order(out, p);
        assert(done.insert(x).add(rest.to_multiset().remove(x)) =~= done.add(rest.to_multiset()));
    }
    assert(pair_seq(v@) =~= Seq::empty());
    assert(pair_seq(out@).to_multiset().add(pair_seq(v@).to_multiset()) =~= pair_seq(
        out@,
    ).to_multiset());
    out
}

// --- Filters and commands ------------------------------------------------------------

/// A filter by one field.
pub open spec fn by1(a: Seq<char>, x: Seq<char>) -> DocV {
    doc1(a, BsonV::Str(x))
}

/// A filter by two fields.
pub open spec fn by2(a: Seq<char>, x: Seq<char>, b: Seq<char>, y: Seq<char>) -> DocV {
    by1(a, x).with(b, BsonV::Str(y))
}

/// A filter by three fields.
pub open spec fn by3(
    a: Seq<char>,
    x: Seq<char>,
    b: Seq<char>,
    y: Seq<char>,
    c: Seq<char>,
    z: Seq<char>,
) -> DocV {
    by2(a, x, b, y).with(c, BsonV::Str(z))
}

/// A filter by one field.
pub fn filter1(a: &str, x: &str) -> (r: Document)
    ensures
        r@ == by1(a@, x@),
{
    Document::new().with(a, Bson::text(x))
}

/// A filter by two fields.
pub fn filter2(a: &str, x: &str, b: &str, y: &str) -> (r: Document)
    ensures
        r@ == by2(a@, x@, b@, y@),
{
    filter1(a, x).with(b, Bson::text(y))
}

/// A filter by three fields.
pub fn filter3(a: &str, x: &str, b: &str, y: &str, c: &str, z: &str) -> (r: Document)
    ensures
        r@ == by3(a@, x@, b@, y@, c@, z@),
{
    filter2(a, x, b, y).with(c, Bson::text(z))
}

/// A filter by the key of a document, where that has several parts.
pub open spec fn by_key(key: DocV) -> DocV {
    doc1("_id"@, BsonV::Doc(key))
}

/// A filter by the key of a document, where that has several parts.
pub fn key_filter(key: Document) -> (r: Document)
    ensures
        r@ == by_key(key@),
{
    Document::new().with("_id", Bson::Document(key))
}

/// A part of the key of a document.
pub open spec fn key_part(d: DocV, k: Seq<char>) -> Option<Seq<char>> {
    match d.get_document("_id"@) {
        Some(key) => key.get_str(k),
        None => None,
    }
}

/// A part of the key of a document.
pub fn read_key_part<'a>(d: &'a Document, k: &str) -> (r: Option<&'a str>)
    ensures
        opt_text(r) == key_part(d@, k@),
{
    match d.get_document("_id") {
        Some(key) => key.get_str(k),
        None => None,
    }
}

/// The parts of keys under a name, of the documents that have one.
pub open spec fn key_parts(docs: Seq<DocV>, k: Seq<char>) -> Seq<Seq<char>>
    decreases docs.len(),
{
    if docs.len() == 0 {
        Seq::empty()
    } else {
        let rest = key_parts(docs.drop_last(), k);
        match key_part(docs.last(), k) {
            Some(s) => rest.push(s),
            None => rest,
        }
    }
}

/// Collects the parts of keys under a name.
pub fn collect_key_parts(docs: &Vec<Document>, k: &str) -> (r: Vec<String>)
    ensures
        crate::bson::text_seq(r@) == key_parts(doc_seq(docs@), k@),
{
    let ghost ds = doc_seq(docs@);
    let mut out: Vec<String> = Vec::new();
    let mut i: usize = 0;
    assert(ds.take(0) =~= Seq::empty());
    assert(crate::bson::text_seq(out@) =~= Seq::empty());
    while i < docs.len()
        invariant
            i <= docs.len(),
            ds == doc_seq(docs@),
            crate::bson::text_seq(out@) == key_parts(ds.take(i as int), k@),
        decreases docs.len() - i,
    {
        proof {
            assert(ds.take(i + 1).drop_last() =~= ds.take(i as int));
            assert(ds.take(i + 1).last() == docs@[i as int]@);
        }
        if let Some(s) = read_key_part(&docs[i], k) {
            let ghost before = out@;
            out.push(s.to_owned());
            assert(crate::bson::text_seq(out@) =~= crate::bson::text_seq(before).push(s@));
        }
        i += 1;
    }
    assert(ds.take(ds.len() as int) =~= ds);
    out
}

/// The pairs of a part of the key and a text, of the documents that have both.
pub open spec fn key_pairs(docs: Seq<DocV>, a: Seq<char>, b: Seq<char>) -> Seq<
    (Seq<char>, Seq<char>),
>
    decreases docs.len(),
{
    if docs.len() == 0 {
        Seq::empty()
    } else {
        let rest = key_pairs(docs.drop_last(), a, b);
        match (key_part(docs.last(), a), docs.last().get_str(b)) {
            (Some(x), Some(y)) => rest.push((x, y)),
            _ => rest,
        }
    }
}

/// Collects the pairs of a part of the key and a text.
pub fn collect_key_pairs(docs: &Vec<Document>, a: &str, b: &str) -> (r: Vec<(String, String)>)
    ensures
        pair_seq(r@) == key_pairs(doc_seq(docs@), a@, b@),
{
    let ghost ds = doc_seq(docs@);
    let mut out: Vec<(String, String)> = Vec::new();
    let mut i: usize = 0;
    assert(ds.take(0) =~= Seq::empty());
    assert(pair_seq(out@) =~= Seq::empty());
    while i < docs.len()
        invariant
            i <= docs.len(),
            ds == doc_seq(docs@),
            pair_seq(out@) == key_pairs(ds.take(i as int), a@, b@),
        decreases docs.len() - i,
    {
        proof {
            assert(ds.take(i + 1).drop_last() =~= ds.take(i as int));
            assert(ds.take(i + 1).last() == docs@[i as int]@);
        }
        match (read_key_part(&docs[i], a), docs[i].get_str(b)) {
            (Some(x), Some(y)) => {
                let ghost before = out@;
                out.push((x.to_owned(), y.to_owned()));
                assert(pair_seq(out@) =~= pair_seq(before).push((x@, y@)));
            },
            _ => {},
        }
        i += 1;
    }
    assert(ds.take(ds.len() as int) =~= ds);
    out
}

/// The query of a collection of the catalog in ascending order of a field.
pub open spec fn ordered_of(collection: Seq<char>, filter: DocV, by: Seq<char>) -> CommandV {
    CommandV::Find {
        at: in_catalog(collection),
        filter,
        paging: sorted_by(doc1(by, BsonV::Int32(1))),
    }
}

/// The query of a collection of the catalog in ascending order of a field.
pub fn ordered(collection: &str, filter: Document, by: &str) -> (r: Command)
    ensures
        r@ == ordered_of(collection@, filter@, by@),
{
    Command::Find {
        at: Place::catalog(collection),
        filter,
        paging: Paging::sorted(Document::new().with(by, Bson::Int32(1))),
    }
}

/// The query of a collection of the catalog.
pub open spec fn unordered_of(collection: Seq<char>, filter: DocV) -> CommandV {
    CommandV::Find { at: in_catalog(collection), filter, paging: crate::protocol::unpaged() }
}

/// The query of a collection of the catalog.
pub fn unordered(collection: &str, filter: Document) -> (r: Command)
    ensures
        r@ == unordered_of(collection@, filter@),
{
    Command::Find { at: Place::catalog(collection), filter, paging: Paging::none() }
}

/// The lookup of a document of the catalog.
pub open spec fn lookup_of(collection: Seq<char>, filter: DocV) -> CommandV {
    CommandV::FindOne { at: in_catalog(collection), filter }
}

/// The lookup of a document of the catalog.
pub fn lookup(collection: &str, filter: Document) -> (r: Command)
    ensures
        r@ == lookup_of(collection@, filter@),
{
    Command::FindOne { at: Place::catalog(collection), filter }
}

/// The insertion of a document in the catalog.
pub open spec fn insert_of(collection: Seq<char>, document: DocV) -> CommandV {
    CommandV::Insert { at: in_catalog(collection), document }
}

/// The insertion of a document in the catalog.
pub fn insert(collection: &str, document: Document) -> (r: Command)
    ensures
        r@ == insert_of(collection@, document@),
{
    Command::Insert { at: Place::catalog(collection), document }
}

/// The removal of a document from the catalog.
pub open spec fn remove_of(collection: Seq<char>, filter: DocV) -> CommandV {
    CommandV::DeleteOne { at: in_catalog(collection), filter }
}

/// The removal of a document from the catalog.
pub fn remove(collection: &str, filter: Document) -> (r: Command)
    ensures
        r@ == remove_of(collection@, filter@),
{
    Command::DeleteOne { at: Place::catalog(collection), filter }
}

/// The change of fields of a document of the catalog.
pub open spec fn set_of(collection: Seq<char>, filter: DocV, fields: DocV, upsert: bool) -> CommandV {
    CommandV::Update {
        at: in_catalog(collection),
        filter,
        update: doc1("$set"@, BsonV::Doc(fields)),
        upsert,
    }
}

/// The change of fields of a document of the catalog.
pub fn set_fields(collection: &str, filter: Document, fields: Document, upsert: bool) -> (r: Command)
    ensures
        r@ == set_of(collection@, filter@, fields@, upsert),
{
    Command::Update {
        at: Place::catalog(collection),
        filter,
        update: Document::new().with("$set", Bson::Document(fields)),
        upsert,
    }
}

// --- Gathering -----------------------------------------------------------------------

/// One step of a management operation.
#[derive(Debug, PartialEq)]
pub enum OpStep<S, T> {
    /// Perform the command and go on from the state with the answer.
    Do(S, Command),
    Done(Result<T, OpError>),
}

/// The step is the last one and ends in the error.
pub open spec fn op_fails<S, T>(step: OpStep<S, T>, e: OpErrV) -> bool {
    step matches OpStep::Done(Err(x)) && x@ == e
}

/// The step asks for a command and goes on from a state.
pub open spec fn op_runs<S, T>(step: OpStep<S, T>, state: S, command: CommandV) -> bool {
    step matches OpStep::Do(s, c) && s == state && c@ == command
}

/// What a document and the queries that belong to it gave.
#[derive(Debug, PartialEq)]
pub struct Gathered {
    pub head: Document,
    /// The answers to the queries, in order.
    pub lists: Vec<Vec<Document>>,
}

/// Where the gathering stands.
#[derive(Debug, PartialEq)]
pub enum GatherState {
    /// The document is being looked up; the queries follow.
    Finding { queries: Vec<Command> },
    Listing { gathered: Gathered, queries: Vec<Command> },
}

/// The models of a list of commands.
pub open spec fn command_seq(v: Seq<Command>) -> Seq<CommandV> {
    Seq::new(v.len(), |i: int| v[i]@)
}

/// The models of a list of lists of documents.
pub open spec fn list_seq(v: Seq<Vec<Document>>) -> Seq<Seq<DocV>> {
    Seq::new(v.len(), |i: int| doc_seq(v[i]@))
}

/// The gathering performs the first of `queries`, and then the others;
/// without queries it is done.
pub open spec fn gather_leads(
    head: DocV,
    lists: Seq<Seq<DocV>>,
    queries: Seq<CommandV>,
    step: OpStep<GatherState, Option<Gathered>>,
) -> bool {
    if queries.len() == 0 {
        step matches OpStep::Done(Ok(Some(g))) && g.head@ == head && list_seq(g.lists@) == lists
    } else {
        &&& step matches OpStep::Do(GatherState::Listing { gathered, queries: left }, c)
        &&& gathered.head@ == head
        &&& list_seq(gathered.lists@) == lists
        &&& command_seq(left@) == queries.skip(1)
        &&& c@ == queries[0]
    }
}

/// How the gathering goes on with an answer. Without the document there is
/// nothing to hand out.
pub open spec fn gather_goes_on(
    state: GatherState,
    reply: Reply,
    step: OpStep<GatherState, Option<Gathered>>,
) -> bool {
    match state {
        GatherState::Finding { queries } => match found_said(reply) {
            Err(e) => op_fails(step, e),
            Ok(None) => step == OpStep::<GatherState, Option<Gathered>>::Done(Ok(None)),
            Ok(Some(d)) => gather_leads(d, Seq::empty(), command_seq(queries@), step),
        },
        GatherState::Listing { gathered, queries } => match listed_said(reply) {
            Err(e) => op_fails(step, e),
            Ok(docs) => gather_leads(
                gathered.head@,
                list_seq(gathered.lists@).push(docs),
                command_seq(queries@),
                step,
            ),
        },
    }
}

fn gather_more(gathered: Gathered, queries: Vec<Command>) -> (step: OpStep<
    GatherState,
    Option<Gathered>,
>)
    ensures
        gather_leads(gathered.head@, list_seq(gathered.lists@), command_seq(queries@), step),
{
    if queries.len() == 0 {
        return OpStep::Done(Ok(Some(gathered)));
    }
    let ghost before = queries@;
    let mut queries = queries;
    let command = queries.remove(0);
    assert(command_seq(queries@) =~= command_seq(before).skip(1));
    OpStep::Do(GatherState::Listing { gathered, queries }, command)
}

/// Goes on with gathering a document and what belongs to it.
pub fn gather_next(state: GatherState, reply: Reply) -> (step: OpStep<GatherState, Option<Gathered>>)
    ensures
        gather_goes_on(state, reply, step),
{
    match state {
        GatherState::Finding { queries } => match found(reply) {
            Err(e) => OpStep::Done(Err(e)),
            Ok(None) => OpStep::Done(Ok(None)),
            Ok(Some(head)) => {
                let lists: Vec<Vec<Document>> = Vec::new();
                assert(list_seq(lists@) =~= Seq::empty());
                gather_more(Gathered { head, lists }, queries)
            },
        },
        GatherState::Listing { gathered, queries } => match listed(reply) {
            Err(e) => OpStep::Done(Err(e)),
            Ok(docs) => {
                let ghost before = gathered.lists@;
                let mut gathered = gathered;
                gathered.lists.push(docs);
                assert(list_seq(gathered.lists@) =~= list_seq(before).push(doc_seq(docs@)));
                gather_more(gathered, queries)
            },
        },
    }
}

/// Begins gathering a document and what belongs to it.
pub fn gather_start(find: Command, queries: Vec<Command>) -> (step: OpStep<
    GatherState,
    Option<Gathered>,
>)
    ensures
        op_runs(step, GatherState::Finding { queries }, find@),
{
    OpStep::Do(GatherState::Finding { queries }, find)
}

/// The gathering begins with a lookup, and the queries follow.
pub open spec fn gathers(
    step: OpStep<GatherState, Option<Gathered>>,
    find: CommandV,
    queries: Seq<CommandV>,
) -> bool {
    step matches OpStep::Do(GatherState::Finding { queries: q }, c) && command_seq(q@) == queries
        && c@ == find
}

/// The documents of one of the queries; none where it was not performed.
pub open spec fn nth_list(lists: Seq<Seq<DocV>>, i: int) -> Seq<DocV> {
    if 0 <= i < lists.len() {
        lists[i]
    } else {
        Seq::empty()
    }
}

/// The parts of keys under a name in the answer to one of the queries.
pub fn gathered_key_parts(g: &Gathered, i: usize, k: &str) -> (r: Vec<String>)
    ensures
        crate::bson::text_seq(r@) == key_parts(nth_list(list_seq(g.lists@), i as int), k@),
{
    if i < g.lists.len() {
        collect_key_parts(&g.lists[i], k)
    } else {
        let none: Vec<Document> = Vec::new();
        assert(doc_seq(none@) =~= Seq::empty());
        collect_key_parts(&none, k)
    }
}

// --- Laws --------------------------------------------------------------------------

/// What is gathered holds one list for each query that was performed: a step
/// with an answer adds one, and takes one query.
pub proof fn law_gathering_adds_one(
    gathered: Gathered,
    queries: Vec<Command>,
    reply: Reply,
    step: OpStep<GatherState, Option<Gathered>>,
)
    requires
        gather_goes_on(GatherState::Listing { gathered, queries }, reply, step),
        step matches OpStep::Done(Ok(Some(g))),
    ensures
        step matches OpStep::Done(Ok(Some(g))) && g.lists@.len() == gathered.lists@.len() + 1
            && queries@.len() == 0,
{
    let g = step->Done_0->Ok_0->Some_0;
    assert(list_seq(g.lists@).len() == g.lists@.len());
    assert(command_seq(queries@).len() == queries@.len());
}

} // verus!
