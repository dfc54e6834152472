//! Policies, permission boundaries, and what an authorization reads of them.

use vstd::prelude::*;
use vstd::string::*;

use crate::bson::{
    bson_seq, copy_bson, doc1, doc_seq, obj1, text_seq, Bson, BsonV, DocV, Document,
};
use crate::identities::{
    groups_filter, groups_filter_of, kind_text, kind_word, opt_bson, policies_filter,
    policies_filter_of, policy_filter, policy_filter_of, IdentityKind,
};
use crate::management::{
    by2, by3, by_key, collect_key_parts, filter2, filter3, found, found_said, key_filter, key_part,
    key_parts, listed, listed_said, lookup, lookup_of, op_fails, op_runs, op_unit, ordered,
    ordered_of, read_key_part, remove, remove_of, removed, removed_said, set_fields, set_of,
    unordered, unordered_of, OpErrV, OpError, OpStep,
};
use crate::protocol::{in_catalog, Command, CommandV, Place, Reply};
use crate::stream_admin::pair_seq;

verus! {

// --- Policies ------------------------------------------------------------------------

/// The command that gives an identity a policy, or changes it.
pub open spec fn put_policy_of(filter: DocV, document: BsonV, now: i64) -> CommandV {
    CommandV::Update {
        at: in_catalog("iam_policies"@),
        filter,
        update: doc1("$set"@, obj1("policy_document"@, document)).with(
            "$setOnInsert"@,
            obj1("created_at"@, BsonV::DateTime(now)),
        ),
        upsert: true,
    }
}

/// The command that gives an identity a policy, or changes it.
pub fn put_policy_command(
    account_id: &str,
    principal_type: &str,
    principal_name: &str,
    policy_name: &str,
    document: &Bson,
    now: i64,
) -> (r: Command)
    ensures
        r@ == put_policy_of(
            policy_filter_of(account_id@, principal_type@, principal_name@, policy_name@),
            document@,
            now,
        ),
{
    let fields = Bson::obj1("policy_document", copy_bson(document));
    Command::Update {
        at: Place::catalog("iam_policies"),
        filter: policy_filter(account_id, principal_type, principal_name, policy_name),
        update: Document::new().with("$set", fields).with(
            "$setOnInsert",
            Bson::obj1("created_at", Bson::DateTime(now)),
        ),
        upsert: true,
    }
}

/// The command that removes a policy of an identity.
pub fn delete_policy_command(
    account_id: &str,
    principal_type: &str,
    principal_name: &str,
    policy_name: &str,
) -> (r: Command)
    ensures
        r@ == remove_of(
            "iam_policies"@,
            policy_filter_of(account_id@, principal_type@, principal_name@, policy_name@),
        ),
{
    remove(
        "iam_policies",
        policy_filter(account_id, principal_type, principal_name, policy_name),
    )
}

/// Reads the answer to the removal of a policy.
pub fn delete_policy_reply(reply: &Reply) -> (r: Result<(), OpError>)
    ensures
        op_unit(r) == removed_said(*reply, "Policy not found"@),
{
    removed(reply, "Policy not found")
}

/// The filter that finds the boundary of an identity.
pub open spec fn boundary_filter_of(
    account_id: Seq<char>,
    principal_type: Seq<char>,
    principal_name: Seq<char>,
) -> DocV {
    by_key(
        by3(
            "account_id"@,
            account_id,
            "principal_type"@,
            principal_type,
            "principal_name"@,
            principal_name,
        ),
    )
}

fn boundary_filter(account_id: &str, principal_type: &str, principal_name: &str) -> (r: Document)
    ensures
        r@ == boundary_filter_of(account_id@, principal_type@, principal_name@),
{
    key_filter(
        filter3(
            "account_id",
            account_id,
            "principal_type",
            principal_type,
            "principal_name",
            principal_name,
        ),
    )
}

/// The command that lists the policies of an identity by their names.
pub fn list_policies_command(account_id: &str, principal_type: &str, principal_name: &str) -> (r:
    Command)
    ensures
        r@ == ordered_of(
            "iam_policies"@,
            policies_filter_of(account_id@, principal_type@, principal_name@),
            "_id.policy_name"@,
        ),
{
    ordered(
        "iam_policies",
        policies_filter(account_id, principal_type, principal_name),
        "_id.policy_name",
    )
}

/// A policy in a list.
#[derive(Debug, PartialEq)]
pub struct PolicyEntry {
    pub policy_name: String,
    pub document: Bson,
    /// The time of the creation in milliseconds.
    pub created_at: i64,
}

/// The policy that a document describes.
pub open spec fn policy_of(d: DocV) -> Option<(Seq<char>, BsonV, i64)> {
    match (key_part(d, "policy_name"@), d.get("policy_document"@), d.get_datetime("created_at"@)) {
        (Some(n), Some(p), Some(t)) => Some((n, p, t)),
        _ => None,
    }
}

/// The policies that documents describe.
pub open spec fn listed_policies(docs: Seq<DocV>) -> Seq<(Seq<char>, BsonV, i64)>
    decreases docs.len(),
{
    if docs.len() == 0 {
        Seq::empty()
    } else {
        let rest = listed_policies(docs.drop_last());
        match policy_of(docs.last()) {
            Some(p) => rest.push(p),
            None => rest,
        }
    }
}

/// The models of a list of policies.
pub open spec fn policy_seq(v: Seq<PolicyEntry>) -> Seq<(Seq<char>, BsonV, i64)> {
    Seq::new(v.len(), |i: int| (v[i].policy_name@, v[i].document@, v[i].created_at))
}

/// Reads a list of policies.
pub fn list_policies_reply(reply: Reply) -> (r: Result<Vec<PolicyEntry>, OpError>)
    ensures
        match (r, listed_said(reply)) {
            (Ok(v), Ok(docs)) => policy_seq(v@) == listed_policies(docs),
            (Err(e), Err(x)) => e@ == x,
            _ => false,
        },
{
    let docs = match listed(reply) {
        Ok(docs) => docs,
        Err(e) => {
            return Err(e);
        },
    };
    let ghost ds = doc_seq(docs@);
    let mut out: Vec<PolicyEntry> = Vec::new();
    let mut i: usize = 0;
    assert(ds.take(0) =~= Seq::empty());
    assert(policy_seq(out@) =~= Seq::empty());
    while i < docs.len()
        invariant
            i <= docs.len(),
            ds == doc_seq(docs@),
            policy_seq(out@) == listed_policies(ds.take(i as int)),
        decreases docs.len() - i,
    {
        proof {
            assert(ds.take(i + 1).drop_last() =~= ds.take(i as int));
            assert(ds.take(i + 1).last() == docs@[i as int]@);
        }
        let d = &docs[i];
        match (
            read_key_part(d, "policy_name"),
            d.get("policy_document"),
            d.get_datetime("created_at"),
        ) {
            (Some(n), Some(p), Some(created_at)) => {
                let ghost before = out@;
                let entry = PolicyEntry {
                    policy_name: n.to_owned(),
                    document: copy_bson(p),
                    created_at,
                };
                out.push(entry);
                assert(policy_seq(out@) =~= policy_seq(before).push((n@, p@, created_at)));
            },
            _ => {},
        }
        i += 1;
    }
    assert(ds.take(ds.len() as int) =~= ds);
    Ok(out)
}

// --- Boundaries ----------------------------------------------------------------------

/// The command that sets the boundary of an identity.
pub fn set_boundary_command(k: IdentityKind, account_id: &str, name: &str, document: &Bson) -> (r:
    Command)
    ensures
        r@ == set_of(
            "iam_permissions_boundaries"@,
            boundary_filter_of(account_id@, kind_text(k), name@),
            doc1("policy_document"@, document@),
            true,
        ),
{
    set_fields(
        "iam_permissions_boundaries",
        boundary_filter(account_id, kind_word(k), name),
        Document::new().with("policy_document", copy_bson(document)),
        true,
    )
}

/// The command that looks the boundary of an identity up.
pub fn get_boundary_command(k: IdentityKind, account_id: &str, name: &str) -> (r: Command)
    ensures
        r@ == lookup_of(
            "iam_permissions_boundaries"@,
            boundary_filter_of(account_id@, kind_text(k), name@),
        ),
{
    lookup("iam_permissions_boundaries", boundary_filter(account_id, kind_word(k), name))
}

/// Reads the boundary of an identity from the answer to its lookup.
pub fn boundary_reply(reply: Reply) -> (r: Result<Option<Bson>, OpError>)
    ensures
        match (r, found_said(reply)) {
            (Ok(b), Ok(Some(d))) => opt_bson(b) == d.get("policy_document"@),
            (Ok(b), Ok(None)) => b is None,
            (Err(e), Err(x)) => e@ == x,
            _ => false,
        },
{
    match found(reply) {
        Ok(Some(d)) => Ok(
            match d.get("policy_document") {
                Some(b) => Some(copy_bson(b)),
                None => None,
            },
        ),
        Ok(None) => Ok(None),
        Err(e) => Err(e),
    }
}

/// The command that removes the boundary of an identity.
pub fn delete_boundary_command(k: IdentityKind, account_id: &str, name: &str) -> (r: Command)
    ensures
        r@ == remove_of(
            "iam_permissions_boundaries"@,
            boundary_filter_of(account_id@, kind_text(k), name@),
        ),
{
    remove("iam_permissions_boundaries", boundary_filter(account_id, kind_word(k), name))
}

/// Reads the answer to the removal of a boundary.
pub fn delete_boundary_reply(reply: &Reply) -> (r: Result<(), OpError>)
    ensures
        op_unit(r) == removed_said(*reply, "Permissions boundary not set"@),
{
    removed(reply, "Permissions boundary not set")
}

// --- What an authorization reads -----------------------------------------------------

/// The values under a name, of the documents that have one.
pub open spec fn values_under(docs: Seq<DocV>, k: Seq<char>) -> Seq<BsonV>
    decreases docs.len(),
{
    if docs.len() == 0 {
        Seq::empty()
    } else {
        let rest = values_under(docs.drop_last(), k);
        match docs.last().get(k) {
            Some(v) => rest.push(v),
            None => rest,
        }
    }
}

fn collect_values(docs: &Vec<Document>, k: &str) -> (r: Vec<Bson>)
    ensures
        bson_seq(r@) == values_under(doc_seq(docs@), k@),
{
    let ghost ds = doc_seq(docs@);
    let mut out: Vec<Bson> = Vec::new();
    let mut i: usize = 0;
    assert(ds.take(0) =~= Seq::empty());
    assert(bson_seq(out@) =~= Seq::empty());
    while i < docs.len()
        invariant
            i <= docs.len(),
            ds == doc_seq(docs@),
            bson_seq(out@) == values_under(ds.take(i as int), k@),
        decreases docs.len() - i,
    {
        proof {
            assert(ds.take(i + 1).drop_last() =~= ds.take(i as int));
            assert(ds.take(i + 1).last() == docs@[i as int]@);
        }
        if let Some(v) = docs[i].get(k) {
            let ghost before = out@;
            out.push(copy_bson(v));
            assert(bson_seq(out@) =~= bson_seq(before).push(v@));
        }
        i += 1;
    }
    assert(ds.take(ds.len() as int) =~= ds);
    out
}

/// What the answer to a query says of the documents of policies.
pub open spec fn documents_said(reply: Reply) -> Result<Seq<BsonV>, OpErrV> {
    match listed_said(reply) {
        Ok(docs) => Ok(values_under(docs, "policy_document"@)),
        Err(e) => Err(e),
    }
}

/// The model of a fallible list of values.
pub open spec fn op_values(r: Result<Vec<Bson>, OpError>) -> Result<Seq<BsonV>, OpErrV> {
    match r {
        Ok(v) => Ok(bson_seq(v@)),
        Err(e) => Err(e@),
    }
}

/// The command that reads the policies of an identity.
pub fn fetch_policies_command(k: IdentityKind, account_id: &str, name: &str) -> (r: Command)
    ensures
        r@ == unordered_of(
            "iam_policies"@,
            policies_filter_of(account_id@, kind_text(k), name@),
        ),
{
    unordered("iam_policies", policies_filter(account_id, kind_word(k), name))
}

/// Reads the documents of policies from the answer to a query.
pub fn policy_documents_reply(reply: Reply) -> (r: Result<Vec<Bson>, OpError>)
    ensures
        op_values(r) == documents_said(reply),
{
    match listed(reply) {
        Ok(docs) => Ok(collect_values(&docs, "policy_document")),
        Err(e) => Err(e),
    }
}

/// Where the reading of the policies of the groups of a user stands.
#[derive(Debug, PartialEq)]
pub enum GroupPoliciesState {
    ListingGroups { account_id: String },
    ListingPolicies,
}

/// The texts as values.
pub open spec fn text_values_of(v: Seq<Seq<char>>) -> Seq<BsonV> {
    Seq::new(v.len(), |i: int| BsonV::Str(v[i]))
}

/// The query of the policies of groups.
pub open spec fn policies_of_groups(account_id: Seq<char>, groups: Seq<Seq<char>>) -> CommandV {
    unordered_of(
        "iam_policies"@,
        by2("_id.account_id"@, account_id, "_id.principal_type"@, "group"@).with(
            "_id.principal_name"@,
            obj1("$in"@, BsonV::Array(text_values_of(groups))),
        ),
    )
}

/// How the reading of the policies of the groups of a user goes on with an
/// answer. A user without groups has no such policies.
pub open spec fn group_policies_goes_on(
    state: GroupPoliciesState,
    reply: Reply,
    step: OpStep<GroupPoliciesState, Vec<Bson>>,
) -> bool {
    match state {
        GroupPoliciesState::ListingGroups { account_id } => match listed_said(reply) {
            Err(e) => op_fails(step, e),
            Ok(docs) => {
                let groups = key_parts(docs, "group_name"@);
                if groups.len() == 0 {
                    step matches OpStep::Done(Ok(v)) && v@.len() == 0
                } else {
                    op_runs(
                        step,
                        GroupPoliciesState::ListingPolicies,
                        policies_of_groups(account_id@, groups),
                    )
                }
            },
        },
        GroupPoliciesState::ListingPolicies => step matches OpStep::Done(r) && op_values(r)
            == documents_said(reply),
    }
}

/// Begins reading the policies of the groups of a user.
pub fn group_policies_start(account_id: &str, user_name: &str) -> (step: OpStep<
    GroupPoliciesState,
    Vec<Bson>,
>)
    ensures
        step matches OpStep::Do(GroupPoliciesState::ListingGroups { account_id: a }, c) && a@
            == account_id@ && c@ == unordered_of(
            "iam_groups"@,
            groups_filter_of(account_id@, user_name@),
        ),
{
    OpStep::Do(
        GroupPoliciesState::ListingGroups { account_id: account_id.to_owned() },
        unordered("iam_groups", groups_filter(account_id, user_name)),
    )
}

fn as_values(v: &Vec<String>) -> (r: Vec<Bson>)
    ensures
        bson_seq(r@) == text_values_of(text_seq(v@)),
{
    let mut out: Vec<Bson> = Vec::new();
    let mut i: usize = 0;
    while i < v.len()
        invariant
            i <= v.len(),
            out@.len() == i,
            forall|j: int| 0 <= j < i ==> (#[trigger] out@[j])@ == BsonV::Str(v@[j]@),
        decreases v.len() - i,
    {
        out.push(Bson::text(v[i].as_str()));
        i += 1;
    }
    assert(bson_seq(out@) =~= text_values_of(text_seq(v@)));
    out
}

/// Goes on with reading the policies of the groups of a user.
pub fn group_policies_next(state: GroupPoliciesState, reply: Reply) -> (step: OpStep<
    GroupPoliciesState,
    Vec<Bson>,
>)
    ensures
        group_policies_goes_on(state, reply, step),
{
    match state {
        GroupPoliciesState::ListingGroups { account_id } => match listed(reply) {
            Err(e) => OpStep::Done(Err(e)),
            Ok(docs) => {
                let groups = collect_key_parts(&docs, "group_name");
                assert(text_seq(groups@).len() == groups@.len());
                if groups.len() == 0 {
                    return OpStep::Done(Ok(Vec::new()));
                }
                let filter = filter2(
                    "_id.account_id",
                    account_id.as_str(),
                    "_id.principal_type",
                    "group",
                ).with("_id.principal_name", Bson::obj1("$in", Bson::array(as_values(&groups))));
                OpStep::Do(
                    GroupPoliciesState::ListingPolicies,
                    unordered("iam_policies", filter),
                )
            },
        },
        GroupPoliciesState::ListingPolicies => OpStep::Done(policy_documents_reply(reply)),
    }
}

// --- Sessions ------------------------------------------------------------------------

/// The command that looks a session up that has not expired.
pub open spec fn find_session_of(
    account_id: Seq<char>,
    role_name: Seq<char>,
    session_name: Seq<char>,
    now: i64,
) -> CommandV {
    lookup_of(
        "iam_sessions"@,
        by3("account_id"@, account_id, "role_name"@, role_name, "session_name"@, session_name).with(
            "expires_at"@,
            obj1("$gt"@, BsonV::DateTime(now)),
        ),
    )
}

/// The command that looks a session up that has not expired.
pub fn fetch_session_command(account_id: &str, role_name: &str, session_name: &str, now: i64) -> (r:
    Command)
    ensures
        r@ == find_session_of(account_id@, role_name@, session_name@, now),
{
    lookup(
        "iam_sessions",
        filter3(
            "account_id",
            account_id,
            "role_name",
            role_name,
            "session_name",
            session_name,
        ).with("expires_at", Bson::obj1("$gt", Bson::DateTime(now))),
    )
}

/// The tag that an element of a list of tags stands for.
pub open spec fn element_tag(b: BsonV) -> Option<(Seq<char>, Seq<char>)> {
    match b {
        BsonV::Doc(d) => match (d.get_str("Key"@), d.get_str("Value"@)) {
            (Some(k), Some(v)) => Some((k, v)),
            _ => None,
        },
        _ => None,
    }
}

/// The tags that the elements of a list stand for.
pub open spec fn element_tags(a: Seq<BsonV>) -> Seq<(Seq<char>, Seq<char>)>
    decreases a.len(),
{
    if a.len() == 0 {
        Seq::empty()
    } else {
        let rest = element_tags(a.drop_last());
        match element_tag(a.last()) {
            Some(t) => rest.push(t),
            None => rest,
        }
    }
}

/// The tags that the fields of a document stand for.
pub open spec fn field_tags(f: Seq<(Seq<char>, BsonV)>) -> Seq<(Seq<char>, Seq<char>)>
    decreases f.len(),
{
    if f.len() == 0 {
        Seq::empty()
    } else {
        let rest = field_tags(f.drop_last());
        match f.last().1 {
            BsonV::Str(v) => rest.push((f.last().0, v)),
            _ => rest,
        }
    }
}

/// The tags of a session: a list of keys and values, or a document.
pub open spec fn session_tags_of(b: Option<BsonV>) -> Seq<(Seq<char>, Seq<char>)> {
    match b {
        Some(BsonV::Array(a)) => element_tags(a),
        Some(BsonV::Doc(d)) => field_tags(d.entries),
        _ => Seq::empty(),
    }
}

/// What an authorization reads of a session.
#[derive(Debug, PartialEq)]
pub struct SessionData {
    pub session_policy: Option<Bson>,
    pub session_tags: Vec<(String, String)>,
}

fn read_element_tags(a: &Vec<Bson>) -> (r: Vec<(String, String)>)
    ensures
        pair_seq(r@) == element_tags(bson_seq(a@)),
{
    let ghost s = bson_seq(a@);
    let mut out: Vec<(String, String)> = Vec::new();
    let mut i: usize = 0;
    assert(s.take(0) =~= Seq::empty());
    assert(pair_seq(out@) =~= Seq::empty());
    while i < a.len()
        invariant
            i <= a.len(),
            s == bson_seq(a@),
            pair_seq(out@) == element_tags(s.take(i as int)),
        decreases a.len() - i,
    {
        proof {
            assert(s.take(i + 1).drop_last() =~= s.take(i as int));
            assert(s.take(i + 1).last() == a@[i as int]@);
        }
        if let Bson::Document(d) = &a[i] {
            match (d.get_str("Key"), d.get_str("Value")) {
                (Some(k), Some(v)) => {
                    let ghost before = out@;
                    out.push((k.to_owned(), v.to_owned()));
                    assert(pair_seq(out@) =~= pair_seq(before).push((k@, v@)));
                },
                _ => {},
            }
        }
        i += 1;
    }
    assert(s.take(s.len() as int) =~= s);
    out
}

/// Reads the tags that the fields of a document stand for.
pub fn read_field_tags(d: &Document) -> (r: Vec<(String, String)>)
    ensures
        pair_seq(r@) == field_tags(d@.entries),
{
    let ghost f = d@.entries;
    let mut out: Vec<(String, String)> = Vec::new();
    let mut i: usize = 0;
    assert(f.take(0) =~= Seq::empty());
    assert(pair_seq(out@) =~= Seq::empty());
    while i < d.entries.len()
        invariant
            i <= d.entries@.len(),
            f == d@.entries,
            f.len() == d.entries@.len(),
            pair_seq(out@) == field_tags(f.take(i as int)),
        decreases d.entries.len() - i,
    {
        proof {
            assert(f.take(i + 1).drop_last() =~= f.take(i as int));
            assert(f.take(i + 1).last() == f[i as int]);
            assert(f[i as int] == (d.entries@[i as int].0@, d.entries@[i as int].1@));
        }
        if let Bson::String(v) = &d.entries[i].1 {
            let ghost before = out@;
            out.push((d.entries[i].0.clone(), v.clone()));
            assert(pair_seq(out@) =~= pair_seq(before).push((d.entries@[i as int].0@, v@)));
        }
        i += 1;
    }
    assert(f.take(f.len() as int) =~= f);
    out
}

/// Reads what an authorization needs of a session, from the answer to its
/// lookup.
pub fn fetch_session_reply(reply: Reply) -> (r: Result<Option<SessionData>, OpError>)
    ensures
        match (r, found_said(reply)) {
            (Ok(Some(s)), Ok(Some(d))) => {
                &&& opt_bson(s.session_policy) == d.get("session_policy"@)
                &&& pair_seq(s.session_tags@) == session_tags_of(d.get("session_tags"@))
            },
            (Ok(None), Ok(None)) => true,
            (Err(e), Err(x)) => e@ == x,
            _ => false,
        },
{
    let d = match found(reply) {
        Ok(Some(d)) => d,
        Ok(None) => {
            return Ok(None);
        },
        Err(e) => {
            return Err(e);
        },
    };
    let session_policy = match d.get("session_policy") {
        Some(b) => Some(copy_bson(b)),
        None => None,
    };
    let session_tags: Vec<(String, String)> = if let Some(a) = d.get_array("session_tags") {
        read_element_tags(a)
    } else if let Some(t) = d.get_document("session_tags") {
        read_field_tags(t)
    } else {
        let none: Vec<(String, String)> = Vec::new();
        assert(pair_seq(none@) =~= Seq::empty());
        none
    };
    Ok(Some(SessionData { session_policy, session_tags }))
}

// --- Laws --------------------------------------------------------------------------

/// A policy that was put is among those that an authorization reads.
#[verifier::rlimit(30)]
pub proof fn law_put_policy_is_read(
    account_id: Seq<char>,
    principal_type: Seq<char>,
    principal_name: Seq<char>,
    policy_name: Seq<char>,
    document: BsonV,
    now: i64,
)
    ensures
        ({
            let d = policy_filter_of(
                account_id,
                principal_type,
                principal_name,
                policy_name,
            ).with("policy_document"@, document).with("created_at"@, BsonV::DateTime(now));
            &&& policy_of(d) == Some((policy_name, document, now))
            &&& values_under(seq![d], "policy_document"@) == seq![document]
        }),
{
    broadcast use crate::bson::group_document_fields;

    reveal_strlit("_id");
    assert("_id"@.len() == 3);
    reveal_strlit("account_id");
    reveal_strlit("principal_type");
    reveal_strlit("principal_name");
    reveal_strlit("policy_name");
    reveal_strlit("policy_document");
    reveal_strlit("created_at");
    assert("account_id"@.len() == 10 && "created_at"@.len() == 10);
    assert("account_id"@[0] == 'a' && "created_at"@[0] == 'c');
    assert("principal_type"@.len() == 14 && "principal_name"@.len() == 14);
    assert("policy_name"@.len() == 11 && "policy_document"@.len() == 15);
    let d = policy_filter_of(account_id, principal_type, principal_name, policy_name).with(
        "policy_document"@,
        document,
    ).with("created_at"@, BsonV::DateTime(now));
    reveal_with_fuel(values_under, 2);
    assert(seq![d].drop_last() =~= Seq::<DocV>::empty());
    assert(values_under(seq![d], "policy_document"@) =~= seq![document]);
}

} // verus!
