//! How identities, their memberships, tags, policies and keys are found and
//! changed.

use vstd::prelude::*;
use vstd::string::*;

use crate::access_keys::{
    credential_of, find_encryption_key, key_begins, key_document_of, key_goes_on,
    session_document_of, CredentialKind, KeyAction, KeyEvent, KeyStep, NewKey, NewSession,
};
use crate::accounts::{delete_account_goes_on, DeleteAccountState};
use crate::bson::{doc1, lemma_doc1, obj1, BsonV, DocV, Document};
use crate::identities::{
    caller_of, cascade_lines, cascade_turns, change_tags_of, collection_of, create_user_goes_on,
    delete_user_goes_on, find_identity_of, groups_filter_of, identities_of, identity_arn_of,
    identity_filter_of, identity_names_of, identity_of, join_goes_on, join_group_of,
    leave_group_of, listing_field, literal_of, members_in, name_field, policies_filter_of,
    policy_filter_of, seed_policy_of, self_service_policy_of, tags_so_far, texts_among,
    up_to_slash, with_tag, without_tag, CreateUserState, DeleteUserState, IdentityKind, IdentityV,
    JoinState, Tagged,
};
use crate::lookup::{
    field_after, inner, is_name, is_plain_update, is_seed, is_updated, lemma_asked_clause,
    lemma_inner_clause, lemma_plain_clause, lemma_update_words, named_under,
};
use crate::management::{by1, by2, by3, by_key, op_fails, ordered_of, OpErrV, OpStep};
use crate::meaning::{
    equals, is_operators, lemma_appended, lemma_more_clauses, lemma_one_asked, lemma_one_clause,
    lemma_words, matches_filter,
};
use crate::policies::{
    find_session_of, policies_of_groups, policy_of, put_policy_of, text_values_of,
};
use crate::protocol::{in_catalog, CommandV, Reply};
use crate::reading::{comes_before, orders_texts};
use crate::records::orders_times;
use crate::script::{line_seq, script_goes_on, turns_to, Script, Turn};
use crate::tables::lemma_inner_sort;
use crate::order::text_lt;

verus! {

// --- Names ---------------------------------------------------------------------------

proof fn lemma_names(k: IdentityKind)
    ensures
        is_name("_id"@),
        is_name("account_id"@),
        is_name(name_field(k)),
        "account_id"@ != name_field(k),
        "_id"@ != "account_id"@,
        "_id"@ != name_field(k),
        "_id.account_id"@ == "_id"@ + "."@ + "account_id"@,
        listing_field(k) == "_id"@ + "."@ + name_field(k),
{
    reveal_strlit("_id");
    reveal_strlit(".");
    reveal_strlit("account_id");
    reveal_strlit("user_name");
    reveal_strlit("group_name");
    reveal_strlit("role_name");
    reveal_strlit("_id.account_id");
    reveal_strlit("_id.user_name");
    reveal_strlit("_id.group_name");
    reveal_strlit("_id.role_name");
    assert("_id"@.len() == 3 && "account_id"@.len() == 10 && name_field(k).len() >= 9);
    assert("account_id"@[0] == 'a');
    assert(name_field(k)[0] != 'a');
    assert("_id.account_id"@ =~= "_id"@ + "."@ + "account_id"@);
    assert(listing_field(k) =~= "_id"@ + "."@ + name_field(k));
}

// --- Identities ----------------------------------------------------------------------

/// An identity is found by its account and its name, among those of its kind,
/// and is listed among those of its account in the order of their names.
pub proof fn law_identity_is_found(
    before: spec_fn(BsonV, BsonV) -> bool,
    k: IdentityKind,
    account_id: Seq<char>,
    name: Seq<char>,
    d: DocV,
    of: Seq<char>,
    own: Seq<char>,
    d2: DocV,
    of2: Seq<char>,
    own2: Seq<char>,
)
    requires
        orders_texts(before),
        d.get("_id"@) == Some(BsonV::Doc(identity_names_of(of, k, own))),
        d2.get("_id"@) == Some(BsonV::Doc(identity_names_of(of2, k, own2))),
    ensures
        find_identity_of(k, account_id, name) matches CommandV::FindOne { at, filter } && at
            == in_catalog(
            match k {
                IdentityKind::User => "iam_users"@,
                IdentityKind::Group => "iam_groups"@,
                IdentityKind::Role => "iam_roles"@,
            },
        ) && matches_filter(before, filter, d) == (of == account_id && own == name),
        ordered_of(collection_of(k), by1("_id.account_id"@, account_id), listing_field(k))
            matches CommandV::Find { filter, paging, .. } && matches_filter(before, filter, d) == (
        of == account_id) && paging.limit is None && paging.sort is Some && comes_before(
            before,
            paging.sort->0.entries,
            d,
            d2,
        ) == text_lt(own, own2),
{
    broadcast use crate::bson::group_document_fields;

    lemma_names(k);
    let want = identity_names_of(account_id, k, name);
    let has = identity_names_of(of, k, own);
    let has2 = identity_names_of(of2, k, own2);
    assert(want.get("account_id"@) == Some(BsonV::Str(account_id)));
    assert(want.get(name_field(k)) == Some(BsonV::Str(name)));
    assert(has.get("account_id"@) == Some(BsonV::Str(of)));
    assert(has.get(name_field(k)) == Some(BsonV::Str(own)));
    assert(has2.get(name_field(k)) == Some(BsonV::Str(own2)));
    crate::entries::lemma_key_document(
        "account_id"@,
        BsonV::Str(account_id),
        name_field(k),
        BsonV::Str(name),
    );
    lemma_one_clause(before, "_id"@, BsonV::Doc(want), d);
    lemma_plain_clause(before, "_id"@, BsonV::Doc(want), d);
    lemma_one_clause(before, "_id.account_id"@, BsonV::Str(account_id), d);
    lemma_inner_clause(before, "_id"@, "account_id"@, BsonV::Str(account_id), d);
    lemma_inner_sort(before, "_id"@, name_field(k), d, d2);
    crate::order::lemma_lt_irreflexive(own);
}

/// The resource name of an identity tells its account, its kind and its name.
pub proof fn law_identity_has_resource_name(account_id: Seq<char>, name: Seq<char>)
    ensures
        identity_arn_of(account_id, IdentityKind::User, name) == "arn:aws:iam::"@ + account_id
            + ":"@ + "user"@ + "/"@ + name,
        identity_arn_of(account_id, IdentityKind::Group, name) == "arn:aws:iam::"@ + account_id
            + ":"@ + "group"@ + "/"@ + name,
        identity_arn_of(account_id, IdentityKind::Role, name) == "arn:aws:iam::"@ + account_id
            + ":"@ + "role"@ + "/"@ + name,
{
}

/// Identities are read from their documents, one for each, in order.
pub proof fn law_identities_are_read(k: IdentityKind, docs: Seq<DocV>, all: Seq<IdentityV>)
    requires
        docs.len() == all.len(),
        forall|i: int| 0 <= i < docs.len() ==> identity_of(k, #[trigger] docs[i]) == Some(all[i]),
    ensures
        identities_of(k, docs) == all,
    decreases docs.len(),
{
    if docs.len() > 0 {
        let d = docs.drop_last();
        let n = all.drop_last();
        assert forall|i: int| 0 <= i < d.len() implies identity_of(k, #[trigger] d[i]) == Some(
            n[i],
        ) by {
            assert(d[i] == docs[i]);
        }
        law_identities_are_read(k, d, n);
        assert(identity_of(k, docs[docs.len() - 1]) == Some(all.last()));
        assert(all =~= n.push(all.last()));
    } else {
        assert(all =~= Seq::empty());
    }
}

// --- Users ---------------------------------------------------------------------------

/// A user that was entered is given the policy of their own, and is done with
/// that.
pub proof fn law_new_user_gets_policy(
    account_id: String,
    user_name: String,
    now: i64,
    r1: Reply,
    r2: Reply,
    s1: OpStep<CreateUserState, ()>,
    s2: OpStep<CreateUserState, ()>,
)
    requires
        !(r1 is Failed) && !(r2 is Failed),
        create_user_goes_on(CreateUserState::Inserting { account_id, user_name, now }, r1, s1),
        s1 matches OpStep::Do(s, _) ==> create_user_goes_on(s, r2, s2),
    ensures
        s1 matches OpStep::Do(_, c) && c@ == seed_policy_of(account_id@, user_name@, now),
        s2 matches OpStep::Done(Ok(_)),
{
}

proof fn lemma_policy_names()
    ensures
        is_name("_id"@),
        is_name("account_id"@),
        is_name("principal_type"@),
        is_name("principal_name"@),
        is_name("policy_name"@),
        is_name("policy_document"@),
        is_name("created_at"@),
        "_id"@.len() == 3,
        "account_id"@.len() == 10,
        "principal_type"@.len() == 14,
        "principal_name"@.len() == 14,
        "policy_name"@.len() == 11,
        "policy_document"@.len() == 15,
        "created_at"@.len() == 10,
        "principal_type"@[10] == 't',
        "principal_name"@[10] == 'n',
        "account_id"@[0] == 'a',
        "created_at"@[0] == 'c',
        "_id.account_id"@ == "_id"@ + "."@ + "account_id"@,
        "_id.principal_type"@ == "_id"@ + "."@ + "principal_type"@,
        "_id.principal_name"@ == "_id"@ + "."@ + "principal_name"@,
        "_id.account_id"@.len() == 14,
        "_id.principal_type"@.len() == 18,
        "_id.principal_name"@.len() == 18,
        "_id.principal_type"@ != "_id.principal_name"@,
{
    reveal_strlit("_id");
    reveal_strlit(".");
    reveal_strlit("account_id");
    reveal_strlit("principal_type");
    reveal_strlit("principal_name");
    reveal_strlit("policy_name");
    reveal_strlit("policy_document");
    reveal_strlit("created_at");
    reveal_strlit("_id.account_id");
    reveal_strlit("_id.principal_type");
    reveal_strlit("_id.principal_name");
    assert("_id.account_id"@ =~= "_id"@ + "."@ + "account_id"@);
    assert("_id.principal_type"@ =~= "_id"@ + "."@ + "principal_type"@);
    assert("_id.principal_name"@ =~= "_id"@ + "."@ + "principal_name"@);
    assert("_id.principal_type"@[14] == 't' && "_id.principal_name"@[14] == 'n');
}

/// The key of a policy of an identity.
pub open spec fn policy_key(
    account_id: Seq<char>,
    kind: Seq<char>,
    name: Seq<char>,
    policy: Seq<char>,
) -> BsonV {
    BsonV::Doc(
        doc1("account_id"@, BsonV::Str(account_id)).with(
            "principal_type"@,
            BsonV::Str(kind),
        ).with("principal_name"@, BsonV::Str(name)).with("policy_name"@, BsonV::Str(policy)),
    )
}

proof fn lemma_policy_key(
    account_id: Seq<char>,
    kind: Seq<char>,
    name: Seq<char>,
    policy: Seq<char>,
)
    ensures
        ({
            let v = policy_key(account_id, kind, name, policy)->Doc_0;
            &&& v.get("account_id"@) == Some(BsonV::Str(account_id))
            &&& v.get("principal_type"@) == Some(BsonV::Str(kind))
            &&& v.get("principal_name"@) == Some(BsonV::Str(name))
            &&& v.get("policy_name"@) == Some(BsonV::Str(policy))
        }),
        !is_operators(policy_key(account_id, kind, name, policy)),
{
    broadcast use crate::bson::group_document_fields;

    lemma_policy_names();
    let a = doc1("account_id"@, BsonV::Str(account_id));
    let b = a.with("principal_type"@, BsonV::Str(kind));
    let c = b.with("principal_name"@, BsonV::Str(name));
    lemma_doc1("account_id"@, BsonV::Str(account_id));
    lemma_appended(a, "principal_type"@, BsonV::Str(kind));
    lemma_appended(b, "principal_name"@, BsonV::Str(name));
    lemma_appended(c, "policy_name"@, BsonV::Str(policy));
    assert(c.with("policy_name"@, BsonV::Str(policy)).entries[0] == (
        "account_id"@,
        BsonV::Str(account_id),
    ));
}

/// A policy is found by its identity and its name, and among those of its
/// identity.
pub proof fn law_policy_is_found(
    before: spec_fn(BsonV, BsonV) -> bool,
    account_id: Seq<char>,
    kind: Seq<char>,
    name: Seq<char>,
    policy: Seq<char>,
    d: DocV,
    of: Seq<char>,
    own_kind: Seq<char>,
    own: Seq<char>,
    own_policy: Seq<char>,
)
    requires
        d.get("_id"@) == Some(policy_key(of, own_kind, own, own_policy)),
    ensures
        matches_filter(before, policy_filter_of(account_id, kind, name, policy), d) == (of
            == account_id && own_kind == kind && own == name && own_policy == policy),
        matches_filter(before, policies_filter_of(account_id, kind, name), d) == (of == account_id
            && own_kind == kind && own == name),
{
    broadcast use crate::bson::group_document_fields;

    lemma_policy_names();
    lemma_policy_key(account_id, kind, name, policy);
    lemma_policy_key(of, own_kind, own, own_policy);
    let v = policy_key(account_id, kind, name, policy);
    lemma_one_clause(before, "_id"@, v, d);
    lemma_plain_clause(before, "_id"@, v, d);
    let f = by1("_id.account_id"@, account_id);
    let g = by2("_id.account_id"@, account_id, "_id.principal_type"@, kind);
    lemma_one_clause(before, "_id.account_id"@, BsonV::Str(account_id), d);
    lemma_inner_clause(before, "_id"@, "account_id"@, BsonV::Str(account_id), d);
    lemma_more_clauses(before, f, "_id.principal_type"@, BsonV::Str(kind), d);
    lemma_inner_clause(before, "_id"@, "principal_type"@, BsonV::Str(kind), d);
    lemma_more_clauses(before, g, "_id.principal_name"@, BsonV::Str(name), d);
    lemma_inner_clause(before, "_id"@, "principal_name"@, BsonV::Str(name), d);
}

/// Putting a policy changes its document and keeps the time of its creation;
/// where there was none it is added with its document and the time.
pub proof fn law_policy_is_put(
    account_id: Seq<char>,
    kind: Seq<char>,
    name: Seq<char>,
    policy: Seq<char>,
    document: BsonV,
    now: i64,
    d: DocV,
    r: DocV,
    seed: DocV,
    first: DocV,
)
    requires
        put_policy_of(policy_filter_of(account_id, kind, name, policy), document, now)
            matches CommandV::Update { filter, update, .. } && is_updated(update, false, d, r)
            && is_seed(filter, seed) && is_updated(update, true, seed, first),
    ensures
        put_policy_of(policy_filter_of(account_id, kind, name, policy), document, now)
            matches CommandV::Update { at, update, upsert, .. } && at == in_catalog(
            "iam_policies"@,
        ) && upsert && is_plain_update(update),
        r.get("policy_document"@) == Some(document),
        r.get("created_at"@) == d.get("created_at"@),
        r.get("_id"@) == d.get("_id"@),
        policy_of(first) == Some((policy, document, now)),
{
    broadcast use crate::bson::group_document_fields;

    lemma_policy_names();
    lemma_update_words();
    lemma_policy_key(account_id, kind, name, policy);
    let set = obj1("policy_document"@, document);
    let once = obj1("created_at"@, BsonV::DateTime(now));
    let u = doc1("$set"@, set).with("$setOnInsert"@, once);
    lemma_doc1("$set"@, set);
    lemma_appended(doc1("$set"@, set), "$setOnInsert"@, once);
    assert(u.entries =~= seq![("$set"@, set), ("$setOnInsert"@, once)]);
    assert(r.get("policy_document"@) == field_after(
        u,
        false,
        "policy_document"@,
        d.get("policy_document"@),
    ));
    assert(r.get("created_at"@) == field_after(u, false, "created_at"@, d.get("created_at"@)));
    assert(r.get("_id"@) == field_after(u, false, "_id"@, d.get("_id"@)));
    assert(seed.get("_id"@) == Some(policy_key(account_id, kind, name, policy)));
    assert(first.get("policy_document"@) == field_after(
        u,
        true,
        "policy_document"@,
        seed.get("policy_document"@),
    ));
    assert(first.get("created_at"@) == field_after(u, true, "created_at"@, seed.get("created_at"@)));
    assert(first.get("_id"@) == field_after(u, true, "_id"@, seed.get("_id"@)));
}

/// The policy of their own that a new user is given is added under its name
/// unless they have one, which is kept; it allows them to manage their own
/// keys and password.
pub proof fn law_own_policy_is_given_once(
    account_id: Seq<char>,
    user_name: Seq<char>,
    now: i64,
    d: DocV,
    r: DocV,
    seed: DocV,
    first: DocV,
    k: Seq<char>,
)
    requires
        seed_policy_of(account_id, user_name, now) matches CommandV::Update { filter, update, .. }
            && is_updated(update, false, d, r) && is_seed(filter, seed) && is_updated(
            update,
            true,
            seed,
            first,
        ),
        is_name(k),
    ensures
        seed_policy_of(account_id, user_name, now) matches CommandV::Update {
            at,
            filter,
            update,
            upsert,
        } && at == in_catalog("iam_policies"@) && upsert && is_plain_update(update) && filter
            == policy_filter_of(account_id, "user"@, user_name, "SelfServicePolicy"@),
        r.get(k) == d.get(k),
        policy_of(first) == Some(
            ("SelfServicePolicy"@, self_service_policy_of(account_id, user_name), now),
        ),
{
    broadcast use crate::bson::group_document_fields;

    lemma_policy_names();
    lemma_update_words();
    lemma_policy_key(account_id, "user"@, user_name, "SelfServicePolicy"@);
    let fields = doc1("policy_document"@, self_service_policy_of(account_id, user_name)).with(
        "created_at"@,
        BsonV::DateTime(now),
    );
    let u = doc1("$setOnInsert"@, BsonV::Doc(fields));
    lemma_doc1("$setOnInsert"@, BsonV::Doc(fields));
    assert(u.entries =~= seq![("$setOnInsert"@, BsonV::Doc(fields))]);
    assert(r.get(k) == field_after(u, false, k, d.get(k)));
    assert(seed.get("_id"@) == Some(
        policy_key(account_id, "user"@, user_name, "SelfServicePolicy"@),
    ));
    assert(first.get("policy_document"@) == field_after(
        u,
        true,
        "policy_document"@,
        seed.get("policy_document"@),
    ));
    assert(first.get("created_at"@) == field_after(u, true, "created_at"@, seed.get("created_at"@)));
    assert(first.get("_id"@) == field_after(u, true, "_id"@, seed.get("_id"@)));
}

/// What the policy of their own allows a user: to manage keys and the password
/// of themselves, and of no other.
pub proof fn law_own_policy_reaches_own_user(account_id: Seq<char>, user_name: Seq<char>)
    ensures
        ({
            &&& self_service_policy_of(account_id, user_name) matches BsonV::Doc(p)
            &&& p.get("Statement"@) matches Some(BsonV::Array(all))
            &&& all.len() == 1
            &&& all[0] matches BsonV::Doc(s)
            &&& s.get("Effect"@) == Some(BsonV::Str("Allow"@))
            &&& s.get("Resource"@) == Some(
                BsonV::Str("arn:aws:iam::"@ + account_id + ":"@ + "user"@ + "/"@ + user_name),
            )
            &&& s.get("Action"@) matches Some(BsonV::Array(actions))
            &&& actions =~= seq![
                BsonV::Str("iam:CreateAccessKey"@),
                BsonV::Str("iam:DeleteAccessKey"@),
                BsonV::Str("iam:ListAccessKeys"@),
                BsonV::Str("iam:ChangePassword"@),
            ]
        }),
{
    broadcast use crate::bson::group_document_fields;

    reveal_strlit("Version");
    reveal_strlit("Statement");
    reveal_strlit("Effect");
    reveal_strlit("Action");
    reveal_strlit("Resource");
    assert("Version"@.len() == 7 && "Statement"@.len() == 9 && "Resource"@.len() == 8);
    assert("Effect"@[0] == 'E' && "Action"@[0] == 'A');
}

/// A user that was deleted loses their keys, their policies and their
/// memberships: the documents that belong to them, and no others, are removed
/// or changed.
pub proof fn law_deleted_user_loses_all(
    before: spec_fn(BsonV, BsonV) -> bool,
    account_id: Seq<char>,
    user_name: Seq<char>,
    key: NewKey,
    sealed: Seq<u8>,
)
    ensures
        cascade_lines(account_id, user_name).len() == 3,
        cascade_lines(account_id, user_name)[0].0 matches CommandV::DeleteMany { at, filter } && at
            == in_catalog("access_keys"@) && matches_filter(
            before,
            filter,
            key_document_of(key, sealed),
        ) == (key.account_id@ == account_id && key.user_name@ == user_name),
        cascade_lines(account_id, user_name)[1].0 == (CommandV::DeleteMany {
            at: in_catalog("iam_policies"@),
            filter: policies_filter_of(account_id, "user"@, user_name),
        }),
        cascade_lines(account_id, user_name)[2].0 matches CommandV::UpdateMany {
            at,
            filter,
            update,
        } && at == in_catalog("iam_groups"@) && filter == groups_filter_of(account_id, user_name)
            && update == doc1("$pull"@, obj1("members"@, BsonV::Str(user_name))),
        forall|i: int| 0 <= i < 3 ==> !(#[trigger] cascade_lines(account_id, user_name)[i]).1,
{
    broadcast use crate::bson::group_document_fields;

    lemma_names(IdentityKind::User);
    reveal_strlit("_id");
    reveal_strlit("account_id");
    reveal_strlit("user_name");
    reveal_strlit("secret_key_encrypted");
    reveal_strlit("is_active");
    reveal_strlit("created_at");
    assert("secret_key_encrypted"@.len() == 20 && "is_active"@.len() == 9);
    assert("user_name"@.len() == 9 && "is_active"@[0] == 'i' && "user_name"@[0] == 'u');
    assert("created_at"@.len() == 10 && "created_at"@[0] == 'c' && "account_id"@[0] == 'a');
    let d = key_document_of(key, sealed);
    let f = by1("account_id"@, account_id);
    assert(d.get("account_id"@) == Some(BsonV::Str(key.account_id@)));
    assert(d.get("user_name"@) == Some(BsonV::Str(key.user_name@)));
    lemma_one_clause(before, "account_id"@, BsonV::Str(account_id), d);
    lemma_plain_clause(before, "account_id"@, BsonV::Str(account_id), d);
    lemma_more_clauses(before, f, "user_name"@, BsonV::Str(user_name), d);
    lemma_plain_clause(before, "user_name"@, BsonV::Str(user_name), d);
}

/// The deletion of a user goes on through all that belongs to them, whatever
/// the answers, and is done only after the last.
pub proof fn law_deletion_goes_through_all(
    account_id: String,
    user_name: String,
    n: u64,
    script: Script,
    reply: Reply,
    s1: OpStep<DeleteUserState, ()>,
    s2: OpStep<DeleteUserState, ()>,
)
    requires
        n > 0,
        delete_user_goes_on(
            DeleteUserState::Removing { account_id, user_name },
            Reply::Deleted(n),
            s1,
        ),
        delete_user_goes_on(DeleteUserState::Cascading(script), reply, s2),
        !script.required,
    ensures
        s1 matches OpStep::Do(DeleteUserState::Cascading(s), c) && c@ == cascade_lines(
            account_id@,
            user_name@,
        )[0].0 && line_seq(s.left@) == cascade_lines(account_id@, user_name@).skip(1)
            && !s.required,
        if script.left@.len() == 0 {
            s2 == OpStep::<DeleteUserState, ()>::Done(Ok(()))
        } else {
            s2 matches OpStep::Do(DeleteUserState::Cascading(s), c) && c@
                == script.left@[0].command@ && line_seq(s.left@) == line_seq(script.left@).skip(1)
                && s.required == script.left@[0].required
        },
{
    let lines = cascade_lines(account_id@, user_name@);
    let turn = choose|turn: Turn|
        turns_to(lines, turn) && #[trigger] cascade_turns(turn, s1);
    let next = choose|turn: Turn|
        script_goes_on(script, reply, turn) && #[trigger] cascade_turns(turn, s2);
    assert(line_seq(script.left@).len() == script.left@.len());
}

// --- Groups --------------------------------------------------------------------------

/// The elements of a list that may be absent.
pub open spec fn elements(x: Option<BsonV>) -> Seq<BsonV> {
    match x {
        Some(BsonV::Array(a)) => a,
        _ => Seq::empty(),
    }
}

/// A document is what an update that pushes elements to lists makes of
/// another.
pub open spec fn is_pushed(update: DocV, d: DocV, r: DocV) -> bool {
    forall|k: Seq<char>|
        is_name(k) ==> match named_under(update, "$push"@).get(k) {
            Some(BsonV::Doc(m)) => match m.get("$each"@) {
                Some(BsonV::Array(more)) => (#[trigger] r.get(k)) matches Some(BsonV::Array(b))
                    && b.to_multiset() == (elements(d.get(k)) + more).to_multiset(),
                _ => false,
            },
            Some(v) => r.get(k) == Some(BsonV::Array(elements(d.get(k)).push(v))),
            None => r.get(k) == d.get(k),
        }
}

/// A document is what an update that pulls elements from lists makes of
/// another.
pub open spec fn is_pulled(update: DocV, d: DocV, r: DocV) -> bool {
    forall|k: Seq<char>|
        is_name(k) ==> match (named_under(update, "$pull"@).get(k), d.get(k)) {
            (Some(v), Some(BsonV::Array(a))) => #[trigger] r.get(k) == Some(
                BsonV::Array(a.filter(|x: BsonV| x != v)),
            ),
            _ => r.get(k) == d.get(k),
        }
}

proof fn lemma_texts_among(a: Seq<BsonV>, s: Seq<char>)
    ensures
        texts_among(a).contains(s) <==> a.contains(BsonV::Str(s)),
    decreases a.len(),
{
    if a.len() > 0 {
        let rest = a.drop_last();
        lemma_texts_among(rest, s);
        let t = texts_among(rest);
        let all = texts_among(a);
        if t.contains(s) {
            let i = choose|i: int| 0 <= i < t.len() && t[i] == s;
            assert(all[i] == s);
        }
        if rest.contains(BsonV::Str(s)) {
            let i = choose|i: int| 0 <= i < rest.len() && rest[i] == BsonV::Str(s);
            assert(a[i] == BsonV::Str(s));
        }
        if a.last() == BsonV::Str(s) {
            assert(a[a.len() - 1] == BsonV::Str(s));
            assert(all[all.len() - 1] == s);
        }
        if a.contains(BsonV::Str(s)) && a.last() != BsonV::Str(s) {
            let i = choose|i: int| 0 <= i < a.len() && a[i] == BsonV::Str(s);
            assert(rest[i] == BsonV::Str(s));
        }
        if all.contains(s) && !t.contains(s) {
            let i = choose|i: int| 0 <= i < all.len() && all[i] == s;
            if i < t.len() {
                assert(t[i] == s);
            }
        }
    }
}

/// A user that joins a group is one of its members, with those that were; the
/// group is found by its name while they are not in it.
pub proof fn law_joined_user_is_member(
    before: spec_fn(BsonV, BsonV) -> bool,
    account_id: Seq<char>,
    group_name: Seq<char>,
    user_name: Seq<char>,
    d: DocV,
    of: Seq<char>,
    own: Seq<char>,
    members: Seq<BsonV>,
    r: DocV,
    x: Seq<char>,
)
    requires
        d.get("_id"@) == Some(BsonV::Doc(identity_names_of(of, IdentityKind::Group, own))),
        d.get("members"@) == Some(BsonV::Array(members)),
        join_group_of(account_id, group_name, user_name) matches CommandV::Update { update, .. }
            && is_pushed(update, d, r),
    ensures
        join_group_of(account_id, group_name, user_name) matches CommandV::Update {
            at,
            filter,
            update,
            upsert,
        } && at == in_catalog("iam_groups"@) && !upsert && update.entries.len() == 1
            && matches_filter(before, filter, d) == (of == account_id && own == group_name
            && !members_in(d).contains(user_name)),
        members_in(r).contains(x) <==> members_in(d).contains(x) || x == user_name,
        r.get("_id"@) == d.get("_id"@),
{
    broadcast use crate::bson::group_document_fields;
    broadcast use vstd::seq_lib::group_to_multiset_ensures;

    lemma_words();
    lemma_names(IdentityKind::Group);
    reveal_strlit("members");
    reveal_strlit("$ne");
    reveal_strlit("$each");
    reveal_strlit("$sort");
    assert("members"@.len() == 7 && is_name("members"@));
    assert("$each"@.len() == 5 && "$each"@[1] == 'e' && "$sort"@[1] == 's');
    let want = identity_names_of(account_id, IdentityKind::Group, group_name);
    let has = identity_names_of(of, IdentityKind::Group, own);
    assert(want.get("account_id"@) == Some(BsonV::Str(account_id)));
    assert(want.get("group_name"@) == Some(BsonV::Str(group_name)));
    assert(has.get("account_id"@) == Some(BsonV::Str(of)));
    assert(has.get("group_name"@) == Some(BsonV::Str(own)));
    crate::entries::lemma_key_document(
        "account_id"@,
        BsonV::Str(account_id),
        "group_name"@,
        BsonV::Str(group_name),
    );
    lemma_one_clause(before, "_id"@, BsonV::Doc(want), d);
    lemma_plain_clause(before, "_id"@, BsonV::Doc(want), d);
    let f = by_key(want);
    let absent = obj1("$ne"@, BsonV::Str(user_name));
    lemma_more_clauses(before, f, "members"@, absent, d);
    lemma_asked_clause(before, "members"@, "$ne"@, BsonV::Str(user_name), d);
    lemma_texts_among(members, user_name);
    assert(equals(d.get("members"@), BsonV::Str(user_name)) == members.contains(
        BsonV::Str(user_name),
    ));
    let u = join_group_of(account_id, group_name, user_name)->Update_update;
    let m = doc1("$each"@, BsonV::Array(seq![BsonV::Str(user_name)])).with(
        "$sort"@,
        BsonV::Int32(1),
    );
    lemma_doc1("$push"@, obj1("members"@, BsonV::Doc(m)));
    assert(named_under(u, "$push"@).get("members"@) == Some(BsonV::Doc(m)));
    assert(m.get("$each"@) == Some(BsonV::Array(seq![BsonV::Str(user_name)])));
    assert(r.get("members"@) matches Some(BsonV::Array(b)));
    let b = r.get("members"@)->0->Array_0;
    let all = members + seq![BsonV::Str(user_name)];
    assert(b.to_multiset() == all.to_multiset());
    assert(b.contains(BsonV::Str(x)) <==> b.to_multiset().count(BsonV::Str(x)) > 0);
    assert(all.contains(BsonV::Str(x)) <==> all.to_multiset().count(BsonV::Str(x)) > 0);
    assert(all[members.len() as int] == BsonV::Str(user_name));
    if members.contains(BsonV::Str(x)) {
        let i = choose|i: int| 0 <= i < members.len() && members[i] == BsonV::Str(x);
        assert(all[i] == BsonV::Str(x));
    }
    if all.contains(BsonV::Str(x)) && x != user_name {
        let i = choose|i: int| 0 <= i < all.len() && all[i] == BsonV::Str(x);
        assert(members[i] == BsonV::Str(x));
    }
    lemma_texts_among(b, x);
    lemma_texts_among(members, x);
    assert(r.get("_id"@) == d.get("_id"@));
}

/// A user that leaves a group is none of its members any more, and all others
/// stay; the group is found by its name while they are in it.
pub proof fn law_left_user_is_no_member(
    before: spec_fn(BsonV, BsonV) -> bool,
    account_id: Seq<char>,
    group_name: Seq<char>,
    user_name: Seq<char>,
    d: DocV,
    of: Seq<char>,
    own: Seq<char>,
    members: Seq<BsonV>,
    r: DocV,
    x: Seq<char>,
)
    requires
        d.get("_id"@) == Some(BsonV::Doc(identity_names_of(of, IdentityKind::Group, own))),
        d.get("members"@) == Some(BsonV::Array(members)),
        leave_group_of(account_id, group_name, user_name) matches CommandV::Update { update, .. }
            && is_pulled(update, d, r),
    ensures
        leave_group_of(account_id, group_name, user_name) matches CommandV::Update {
            at,
            filter,
            update,
            upsert,
        } && at == in_catalog("iam_groups"@) && !upsert && update == doc1(
            "$pull"@,
            obj1("members"@, BsonV::Str(user_name)),
        ) && matches_filter(before, filter, d) == (of == account_id && own == group_name
            && members_in(d).contains(user_name)),
        matches_filter(before, groups_filter_of(account_id, user_name), d) == (of == account_id
            && members_in(d).contains(user_name)),
        members_in(r).contains(x) <==> members_in(d).contains(x) && x != user_name,
        r.get("_id"@) == d.get("_id"@),
{
    broadcast use crate::bson::group_document_fields;

    lemma_names(IdentityKind::Group);
    reveal_strlit("members");
    reveal_strlit("_id.account_id");
    assert("members"@.len() == 7 && is_name("members"@) && "_id.account_id"@.len() == 14);
    let want = identity_names_of(account_id, IdentityKind::Group, group_name);
    let has = identity_names_of(of, IdentityKind::Group, own);
    assert(want.get("account_id"@) == Some(BsonV::Str(account_id)));
    assert(want.get("group_name"@) == Some(BsonV::Str(group_name)));
    assert(has.get("account_id"@) == Some(BsonV::Str(of)));
    assert(has.get("group_name"@) == Some(BsonV::Str(own)));
    crate::entries::lemma_key_document(
        "account_id"@,
        BsonV::Str(account_id),
        "group_name"@,
        BsonV::Str(group_name),
    );
    lemma_one_clause(before, "_id"@, BsonV::Doc(want), d);
    lemma_plain_clause(before, "_id"@, BsonV::Doc(want), d);
    let f = by_key(want);
    lemma_more_clauses(before, f, "members"@, BsonV::Str(user_name), d);
    lemma_plain_clause(before, "members"@, BsonV::Str(user_name), d);
    lemma_texts_among(members, user_name);
    assert(equals(d.get("members"@), BsonV::Str(user_name)) == members.contains(
        BsonV::Str(user_name),
    ));
    let g = by1("_id.account_id"@, account_id);
    lemma_one_clause(before, "_id.account_id"@, BsonV::Str(account_id), d);
    lemma_inner_clause(before, "_id"@, "account_id"@, BsonV::Str(account_id), d);
    lemma_more_clauses(before, g, "members"@, BsonV::Str(user_name), d);
    let u = leave_group_of(account_id, group_name, user_name)->Update_update;
    assert(named_under(u, "$pull"@).get("members"@) == Some(BsonV::Str(user_name)));
    let v = BsonV::Str(user_name);
    let b = members.filter(|x: BsonV| x != v);
    assert(r.get("members"@) == Some(BsonV::Array(b)));
    lemma_filtered(members, v, BsonV::Str(x));
    lemma_texts_among(b, x);
    lemma_texts_among(members, x);
    assert(named_under(u, "$pull"@).get("_id"@) is None);
    assert(r.get("_id"@) == d.get("_id"@));
}

proof fn lemma_filtered(a: Seq<BsonV>, v: BsonV, x: BsonV)
    ensures
        a.filter(|y: BsonV| y != v).contains(x) <==> a.contains(x) && x != v,
{
    let p = |y: BsonV| y != v;
    crate::reading::lemma_filter_count(a, p, x);
    broadcast use vstd::seq_lib::group_to_multiset_ensures;

    assert(a.contains(x) <==> a.to_multiset().count(x) > 0);
    assert(a.filter(p).contains(x) <==> a.filter(p).to_multiset().count(x) > 0);
}

/// A group that took nobody in is looked up: a user that is in it already, and
/// a group that does not exist, are told apart.
pub proof fn law_refused_member_is_explained(
    account_id: String,
    group_name: String,
    n: u64,
    found: Option<Document>,
    s1: OpStep<JoinState, ()>,
    s2: OpStep<JoinState, ()>,
)
    requires
        join_goes_on(JoinState::Joining { account_id, group_name }, Reply::Matched(n), s1),
        join_goes_on(JoinState::LookingUp, Reply::One(found), s2),
    ensures
        n > 0 ==> s1 == OpStep::<JoinState, ()>::Done(Ok(())),
        n == 0 ==> (s1 matches OpStep::Do(s, c) && s == JoinState::LookingUp && c@
            == find_identity_of(IdentityKind::Group, account_id@, group_name@)),
        found is Some ==> op_fails(
            s2,
            OpErrV::AlreadyExists("User is already a member of this group"@),
        ),
        found is None ==> op_fails(s2, OpErrV::NotFound("IAM group not found"@)),
{
}

// --- Tags ----------------------------------------------------------------------------

/// The field that an expression of a pipeline names, unless it is missing or
/// null.
pub open spec fn field_of(e: BsonV, d: DocV) -> Option<BsonV> {
    match e {
        BsonV::Str(s) => if s.len() > 0 && s[0] == '$' {
            match d.get(s.skip(1)) {
                Some(BsonV::Null) => None,
                x => x,
            }
        } else {
            None
        },
        _ => None,
    }
}

/// The value of an expression of a pipeline in a document: a literal, a field,
/// a field or else another value, and a document with a field set or removed.
pub open spec fn gives(e: BsonV, d: DocV, v: BsonV) -> bool
    decreases e,
{
    match e {
        BsonV::Str(s) => s.len() > 0 && s[0] == '$' && d.get(s.skip(1)) == Some(v),
        BsonV::Doc(o) => if o.entries.len() != 1 {
            o.entries.len() == 0 && v == e
        } else {
            let op = o.entries[0].0;
            let arg = o.entries[0].1;
            if op == "$literal"@ {
                v == arg
            } else if op == "$ifNull"@ {
                arg matches BsonV::Array(a) && a.len() == 2 && match field_of(a[0], d) {
                    Some(w) => v == w,
                    None => gives(a[1], d, v),
                }
            } else if op == "$setField"@ {
                arg matches BsonV::Doc(p) && p.entries.len() == 3 && p.entries[0].0 == "field"@
                    && p.entries[1].0 == "input"@ && p.entries[2].0 == "value"@ && exists|
                    k: Seq<char>,
                    t: DocV,
                    w: BsonV,
                |
                    #![trigger t.with(k, w)]
                    gives(p.entries[0].1, d, BsonV::Str(k)) && gives(
                        p.entries[1].1,
                        d,
                        BsonV::Doc(t),
                    ) && gives(p.entries[2].1, d, w) && v == BsonV::Doc(t.with(k, w))
            } else if op == "$unsetField"@ {
                arg matches BsonV::Doc(p) && p.entries.len() == 2 && p.entries[0].0 == "field"@
                    && p.entries[1].0 == "input"@ && exists|k: Seq<char>, t: DocV|
                    #![trigger is_without(v, t, k)]
                    gives(p.entries[0].1, d, BsonV::Str(k)) && gives(
                        p.entries[1].1,
                        d,
                        BsonV::Doc(t),
                    ) && is_without(v, t, k)
            } else {
                false
            }
        },
        _ => v == e,
    }
}

/// A value is a document without a field that another may have.
pub open spec fn is_without(v: BsonV, t: DocV, k: Seq<char>) -> bool {
    v matches BsonV::Doc(r) && forall|j: Seq<char>| #[trigger]
        r.get(j) == (if j == k {
            None
        } else {
            t.get(j)
        })
}

proof fn lemma_literal_gives(s: Seq<char>, d: DocV, v: BsonV)
    ensures
        gives(literal_of(s), d, v) <==> v == BsonV::Str(s),
{
    lemma_doc1("$literal"@, BsonV::Str(s));
}

/// The tags of an identity so far: those in its document, or none.
pub open spec fn own_tags(d: DocV) -> DocV {
    match d.get("tags"@) {
        Some(BsonV::Doc(t)) => t,
        _ => DocV::empty(),
    }
}

proof fn lemma_tags_so_far(d: DocV, v: BsonV)
    requires
        d.get("tags"@) matches Some(x) ==> x is Doc,
    ensures
        gives(tags_so_far(), d, v) <==> v == BsonV::Doc(own_tags(d)),
{
    reveal_strlit("$tags");
    reveal_strlit("tags");
    reveal_strlit("$literal");
    reveal_strlit("$ifNull");
    assert("$literal"@.len() == 8 && "$ifNull"@.len() == 7);
    assert("$tags"@.skip(1) =~= "tags"@);
    let both = seq![BsonV::Str("$tags"@), BsonV::Doc(DocV::empty())];
    lemma_doc1("$ifNull"@, BsonV::Array(both));
    let e = tags_so_far();
    assert(e->Doc_0.entries[0] == ("$ifNull"@, BsonV::Array(both)));
    assert(both[0] == BsonV::Str("$tags"@) && both[1] == BsonV::Doc(DocV::empty()));
    assert("$tags"@[0] == '$');
    assert(gives(both[1], d, v) == (v == both[1]));
    assert(gives(e, d, v) == (match field_of(both[0], d) {
        Some(w) => v == w,
        None => gives(both[1], d, v),
    }));
}

/// Setting a tag of an identity keeps its other tags and gives the key its
/// value, whatever characters they hold; removing one keeps all but that.
pub proof fn law_identity_tag_is_changed(
    t: Tagged,
    account_id: Seq<char>,
    name: Seq<char>,
    key: Seq<char>,
    value: Seq<char>,
    d: DocV,
    set: BsonV,
    unset: BsonV,
    k: Seq<char>,
)
    requires
        d.get("tags"@) matches Some(x) ==> x is Doc,
        gives(with_tag(key, value), d, set),
        gives(without_tag(key), d, unset),
    ensures
        change_tags_of(t, account_id, name, with_tag(key, value)) matches CommandV::UpdateWith {
            at,
            filter,
            stages,
        } && at == in_catalog(
            match t {
                Tagged::User => "iam_users"@,
                Tagged::Role => "iam_roles"@,
            },
        ) && filter == identity_filter_of(
            account_id,
            match t {
                Tagged::User => IdentityKind::User,
                Tagged::Role => IdentityKind::Role,
            },
            name,
        ) && stages == seq![doc1("$set"@, obj1("tags"@, with_tag(key, value)))],
        set matches BsonV::Doc(r) && r.get(k) == (if k == key {
            Some(BsonV::Str(value))
        } else {
            own_tags(d).get(k)
        }),
        unset matches BsonV::Doc(r) && r.get(k) == (if k == key {
            None
        } else {
            own_tags(d).get(k)
        }),
{
    broadcast use crate::bson::group_document_fields;

    reveal_strlit("$literal");
    reveal_strlit("$ifNull");
    reveal_strlit("$setField");
    reveal_strlit("$unsetField");
    reveal_strlit("field");
    reveal_strlit("input");
    reveal_strlit("value");
    assert("$literal"@.len() == 8 && "$ifNull"@.len() == 7 && "$setField"@.len() == 9);
    assert("$unsetField"@.len() == 11);
    assert("field"@[0] == 'f' && "input"@[0] == 'i' && "value"@[0] == 'v');
    let a = doc1("field"@, literal_of(key));
    let b = a.with("input"@, tags_so_far());
    let c = b.with("value"@, literal_of(value));
    lemma_doc1("field"@, literal_of(key));
    lemma_appended(a, "input"@, tags_so_far());
    lemma_appended(b, "value"@, literal_of(value));
    assert(b.entries =~= seq![("field"@, literal_of(key)), ("input"@, tags_so_far())]);
    assert(c.entries =~= seq![
        ("field"@, literal_of(key)),
        ("input"@, tags_so_far()),
        ("value"@, literal_of(value)),
    ]);
    lemma_doc1("$setField"@, BsonV::Doc(c));
    lemma_doc1("$unsetField"@, BsonV::Doc(b));
    let (k1, t1, w1) = choose|k1: Seq<char>, t1: DocV, w1: BsonV|
        #![trigger t1.with(k1, w1)]
        gives(c.entries[0].1, d, BsonV::Str(k1)) && gives(c.entries[1].1, d, BsonV::Doc(t1))
            && gives(c.entries[2].1, d, w1) && set == BsonV::Doc(t1.with(k1, w1));
    lemma_literal_gives(key, d, BsonV::Str(k1));
    lemma_tags_so_far(d, BsonV::Doc(t1));
    lemma_literal_gives(value, d, w1);
    let (k2, t2) = choose|k2: Seq<char>, t2: DocV|
        #![trigger is_without(unset, t2, k2)]
        gives(b.entries[0].1, d, BsonV::Str(k2)) && gives(b.entries[1].1, d, BsonV::Doc(t2))
            && is_without(unset, t2, k2);
    lemma_literal_gives(key, d, BsonV::Str(k2));
    lemma_tags_so_far(d, BsonV::Doc(t2));
}

/// The caller whose tags count is told by its resource: a user, a role, or the
/// role that was assumed for a session.
pub proof fn law_caller_is_told(name: Seq<char>, session: Seq<char>)
    requires
        name.len() > 0,
        !name.contains('/'),
    ensures
        caller_of("user/"@ + name) == Some((Tagged::User, name)),
        caller_of("role/"@ + name) == Some((Tagged::Role, name)),
        caller_of("assumed-role/"@ + name + "/"@ + session) == Some((Tagged::Role, name)),
{
    reveal_strlit("user/");
    reveal_strlit("role/");
    reveal_strlit("assumed-role/");
    reveal_strlit("/");
    let u = "user/"@ + name;
    let r = "role/"@ + name;
    let a = "assumed-role/"@ + name + "/"@ + session;
    assert(u.skip(5) =~= name);
    assert(r.skip(5) =~= name);
    assert(u[0] == 'u' && r[0] == 'r' && a[0] == 'a');
    assert("user/"@[0] == 'u' && "role/"@[0] == 'r');
    assert("role/"@.is_prefix_of(r));
    assert("user/"@.is_prefix_of(u));
    assert(!"user/"@.is_prefix_of(r));
    assert("assumed-role/"@.is_prefix_of(a));
    assert(!"user/"@.is_prefix_of(a) && !"role/"@.is_prefix_of(a));
    assert(a.skip(13) =~= name + ("/"@ + session));
    assert("/"@ =~= seq!['/']);
    lemma_up_to_slash(name, "/"@ + session);
}

proof fn lemma_up_to_slash(name: Seq<char>, rest: Seq<char>)
    requires
        !name.contains('/'),
        rest.len() > 0,
        rest[0] == '/',
    ensures
        up_to_slash(name + rest) == name,
    decreases name.len(),
{
    let s = name + rest;
    if name.len() == 0 {
        assert(s =~= rest);
        assert(name =~= Seq::empty());
    } else {
        assert(name.contains(name[0]));
        assert(s.skip(1) =~= name.skip(1) + rest);
        assert forall|i: int| 0 <= i < name.skip(1).len() implies name.skip(1)[i] != '/' by {
            assert(name.contains(name[i + 1]));
        }
        lemma_up_to_slash(name.skip(1), rest);
        assert(seq![name[0]] + name.skip(1) =~= name);
    }
}

// --- Sessions and groups of policies -------------------------------------------------

/// A session is found by its account, its role and its name, while it has not
/// expired.
pub proof fn law_session_is_found(
    before: spec_fn(BsonV, BsonV) -> bool,
    account_id: Seq<char>,
    role_name: Seq<char>,
    session_name: Seq<char>,
    now: i64,
    s: NewSession,
)
    requires
        orders_times(before),
        crate::access_keys::has_millis(s.expires_at),
    ensures
        find_session_of(account_id, role_name, session_name, now) matches CommandV::FindOne {
            at,
            filter,
        } && at == in_catalog("iam_sessions"@) && matches_filter(
            before,
            filter,
            session_document_of(s),
        ) == (s.account_id@ == account_id && s.role_name@ == role_name && s.session_name@
            == session_name && now < s.expires_at * 1000),
{
    broadcast use crate::bson::group_document_fields;

    lemma_words();
    reveal_strlit("$gt");
    reveal_strlit("_id");
    reveal_strlit("access_key_id");
    reveal_strlit("secret_key_encrypted");
    reveal_strlit("account_id");
    reveal_strlit("role_name");
    reveal_strlit("session_name");
    reveal_strlit("expires_at");
    reveal_strlit("created_at");
    reveal_strlit("session_tags");
    reveal_strlit("session_policy");
    assert("_id"@.len() == 3 && "access_key_id"@.len() == 13 && "secret_key_encrypted"@.len() == 20);
    assert("account_id"@.len() == 10 && "role_name"@.len() == 9 && "session_name"@.len() == 12);
    assert("expires_at"@.len() == 10 && "created_at"@.len() == 10 && "session_tags"@.len() == 12);
    assert("session_policy"@.len() == 14);
    assert("account_id"@[0] == 'a' && "expires_at"@[0] == 'e' && "created_at"@[0] == 'c');
    assert("session_name"@[8] == 'n' && "session_tags"@[8] == 't');
    assert(is_name("account_id"@) && is_name("role_name"@) && is_name("session_name"@) && is_name(
        "expires_at"@,
    ));
    let d = session_document_of(s);
    assert(d.get("account_id"@) == Some(BsonV::Str(s.account_id@)));
    assert(d.get("role_name"@) == Some(BsonV::Str(s.role_name@)));
    assert(d.get("session_name"@) == Some(BsonV::Str(s.session_name@)));
    assert(d.get("expires_at"@) == Some(BsonV::DateTime((s.expires_at * 1000) as i64)));
    let f = by1("account_id"@, account_id);
    let g = by2("account_id"@, account_id, "role_name"@, role_name);
    let h = by3("account_id"@, account_id, "role_name"@, role_name, "session_name"@, session_name);
    lemma_one_clause(before, "account_id"@, BsonV::Str(account_id), d);
    lemma_plain_clause(before, "account_id"@, BsonV::Str(account_id), d);
    lemma_more_clauses(before, f, "role_name"@, BsonV::Str(role_name), d);
    lemma_plain_clause(before, "role_name"@, BsonV::Str(role_name), d);
    lemma_more_clauses(before, g, "session_name"@, BsonV::Str(session_name), d);
    lemma_plain_clause(before, "session_name"@, BsonV::Str(session_name), d);
    lemma_more_clauses(before, h, "expires_at"@, obj1("$gt"@, BsonV::DateTime(now)), d);
    lemma_asked_clause(before, "expires_at"@, "$gt"@, BsonV::DateTime(now), d);
}

/// The policies of groups that are read are those of the groups that are
/// named, of their account.
pub proof fn law_policies_of_groups_are_read(
    before: spec_fn(BsonV, BsonV) -> bool,
    account_id: Seq<char>,
    groups: Seq<Seq<char>>,
    d: DocV,
    of: Seq<char>,
    kind: Seq<char>,
    own: Seq<char>,
    policy: Seq<char>,
)
    requires
        d.get("_id"@) == Some(policy_key(of, kind, own, policy)),
    ensures
        policies_of_groups(account_id, groups) matches CommandV::Find { at, filter, paging } && at
            == in_catalog("iam_policies"@) && paging.limit is None && matches_filter(
            before,
            filter,
            d,
        ) == (of == account_id && kind == "group"@ && groups.contains(own)),
{
    broadcast use crate::bson::group_document_fields;

    lemma_words();
    lemma_policy_names();
    lemma_policy_key(of, kind, own, policy);
    reveal_strlit("$in");
    let names = text_values_of(groups);
    let any = obj1("$in"@, BsonV::Array(names));
    let f = by1("_id.account_id"@, account_id);
    let g = by2("_id.account_id"@, account_id, "_id.principal_type"@, "group"@);
    lemma_one_clause(before, "_id.account_id"@, BsonV::Str(account_id), d);
    lemma_inner_clause(before, "_id"@, "account_id"@, BsonV::Str(account_id), d);
    lemma_more_clauses(before, f, "_id.principal_type"@, BsonV::Str("group"@), d);
    lemma_inner_clause(before, "_id"@, "principal_type"@, BsonV::Str("group"@), d);
    lemma_more_clauses(before, g, "_id.principal_name"@, any, d);
    lemma_inner_clause(before, "_id"@, "principal_name"@, any, d);
    lemma_doc1("$in"@, BsonV::Array(names));
    assert(is_operators(any));
    let x = inner(d, "_id"@, "principal_name"@);
    lemma_one_asked(before, "$in"@, BsonV::Array(names), x);
    assert(x == Some(BsonV::Str(own)));
    if groups.contains(own) {
        let i = choose|i: int| 0 <= i < groups.len() && groups[i] == own;
        assert(equals(x, names[i]));
    }
    if exists|i: int| 0 <= i < names.len() && equals(x, #[trigger] names[i]) {
        let i = choose|i: int| 0 <= i < names.len() && equals(x, #[trigger] names[i]);
        assert(groups[i] == own);
    }
}

// --- Keys ----------------------------------------------------------------------------

/// A key is stored once its user was found: its secret is encrypted with the
/// encryption key under the identifier of the key, and what that gives is
/// entered with the key.
pub proof fn law_key_is_stored_encrypted(
    k: NewKey,
    user: Document,
    setting: Document,
    sealed: Vec<u8>,
    s0: KeyStep,
    s1: KeyStep,
    s2: KeyStep,
    s3: KeyStep,
    s4: KeyStep,
)
    requires
        k.is_new,
        setting@.get_str("value"@) is Some,
        key_begins(k, s0),
        key_goes_on(s0->Do_0, KeyEvent::Replied(Reply::One(Some(user))), s1),
        k.cached_key is None ==> key_goes_on(
            s1->Do_0,
            KeyEvent::Replied(Reply::One(Some(setting))),
            s2,
        ),
        k.cached_key is Some ==> s2 == s1,
        key_goes_on(s2->Do_0, KeyEvent::Sealed(Ok(sealed)), s3),
        key_goes_on(s3->Do_0, KeyEvent::Replied(Reply::Done), s4),
    ensures
        s0 matches KeyStep::Do(_, KeyAction::Run(c)) && c@ == find_identity_of(
            IdentityKind::User,
            k.account_id@,
            k.user_name@,
        ),
        s2 matches KeyStep::Do(_, KeyAction::Seal { plaintext, key, aad }) && plaintext@
            == k.secret_access_key@ && aad@ == k.access_key_id@ && key@ == (match k.cached_key {
            Some(x) => x@,
            None => setting@.get_str("value"@)->0,
        }),
        s3 matches KeyStep::Do(_, KeyAction::Run(c)) && c@ == (CommandV::Insert {
            at: in_catalog("access_keys"@),
            document: key_document_of(k, sealed@),
        }),
        s4 == KeyStep::Done(Ok(k)),
{
}

/// A new key of a user that does not exist is not stored.
pub proof fn law_key_needs_its_user(k: NewKey, s0: KeyStep, s1: KeyStep)
    requires
        k.is_new,
        key_begins(k, s0),
        key_goes_on(s0->Do_0, KeyEvent::Replied(Reply::One(None)), s1),
    ensures
        s1 matches KeyStep::Done(Err(e)) && e@ == OpErrV::NotFound("User not found"@),
{
}

/// A key that is not active is told so; one of which nothing is said is active.
pub proof fn law_inactive_key_is_told(d: DocV, sealed: Seq<u8>, active: Option<bool>, now: i128)
    requires
        d.get("secret_key_encrypted"@) == Some(BsonV::Binary(sealed)),
        d.get("is_active"@) == (match active {
            Some(b) => Some(BsonV::Boolean(b)),
            None => None,
        }),
    ensures
        credential_of(CredentialKind::User, d, now) matches Ok(Some(c)) && c.0.is_active == (
        active != Some(false)) && !c.0.is_session && c.1 == sealed,
{
}

/// The encryption key is looked for among the settings, under its name.
pub proof fn law_encryption_key_is_a_setting(
    before: spec_fn(BsonV, BsonV) -> bool,
    d: DocV,
    own: Seq<char>,
)
    requires
        d.get("_id"@) == Some(BsonV::Str(own)),
    ensures
        find_encryption_key() matches CommandV::FindOne { at, filter } && at == in_catalog(
            "settings"@,
        ) && matches_filter(before, filter, d) == (own == "encryption_key"@),
{
    reveal_strlit("_id");
    assert(is_name("_id"@));
    lemma_one_clause(before, "_id"@, BsonV::Str("encryption_key"@), d);
    lemma_plain_clause(before, "_id"@, BsonV::Str("encryption_key"@), d);
}

// --- Accounts ------------------------------------------------------------------------

/// An account without tables is removed by its identifier; that it does not
/// exist is told.
pub proof fn law_empty_account_is_removed(
    account_id: String,
    n: u64,
    s1: OpStep<DeleteAccountState, ()>,
    s2: OpStep<DeleteAccountState, ()>,
)
    requires
        delete_account_goes_on(
            DeleteAccountState::Counting { account_id },
            Reply::Counted(0),
            s1,
        ),
        delete_account_goes_on(DeleteAccountState::Removing, Reply::Deleted(n), s2),
    ensures
        s1 matches OpStep::Do(s, c) && s == DeleteAccountState::Removing && c@
            == (CommandV::DeleteOne {
            at: in_catalog("accounts"@),
            filter: doc1("_id"@, BsonV::Str(account_id@)),
        }),
        n > 0 ==> s2 matches OpStep::Done(Ok(_)),
        n == 0 ==> op_fails(s2, OpErrV::NotFound("Account not found"@)),
{
}

} // verus!
