//! What lists hand out: the entries that were stored, one for each, in order.

use vstd::prelude::*;
use vstd::string::*;

use crate::access_keys::{key_document_of, key_of, listed_keys, NewKey};
use crate::accounts::{
    account_document_of, account_queries, accounts_of, dashboard_goes_on, law_account_reads_back,
    DashboardState,
};
use crate::administration::{
    admin_document_of, admins_of, indexes_in, metrics_of, metrics_rows, MetricsV,
};
use crate::bson::{doc1, doc_seq, lemma_doc1, BsonV, DocV, Document};
use crate::identities::{
    group_queries, identity_names_of, keys_of, role_queries, user_queries,
    IdentityKind,
};
use crate::lookup::{is_name, lemma_plain_clause};
use crate::management::{by1, OpErrV, OpStep};
use crate::meaning::{lemma_more_clauses, lemma_one_clause, matches_filter};
use crate::policies::{
    documents_said, element_tag, listed_policies, policy_of, session_tags_of, values_under,
};
use crate::principals::{law_identity_is_found, law_policy_is_found, policy_key};
use crate::protocol::{in_catalog, CommandV, Reply};
use crate::reading::orders_texts;

verus! {

/// Accounts are listed as they were created.
pub proof fn law_accounts_are_listed(docs: Seq<DocV>, all: Seq<(Seq<char>, Seq<char>, i64)>)
    requires
        docs.len() == all.len(),
        forall|i: int| 0 <= i < docs.len() ==> (#[trigger] docs[i]) == account_document_of(all[i].0, all[i].1, all[i].2),
    ensures
        accounts_of(docs) == all,
    decreases docs.len(),
{
    if docs.len() > 0 {
        let d = docs.drop_last();
        let n = all.drop_last();
        assert forall|i: int| 0 <= i < d.len() implies (#[trigger] d[i]) == account_document_of(n[i].0, n[i].1, n[i].2) by {
            assert(d[i] == docs[i]);
        }
        law_accounts_are_listed(d, n);
        let last = docs[docs.len() - 1];
        assert((last) == account_document_of(all.last().0, all.last().1, all.last().2));
        law_account_reads_back(all.last().0, all.last().1, all.last().2);
        assert(all =~= n.push(all.last()));
    } else {
        assert(all =~= Seq::empty());
    }
}

proof fn lemma_admin(name: Seq<char>, password_hash: Seq<char>, now: i64)
    ensures
        admin_document_of(name, password_hash, now).get_str("_id"@) == Some(name),
        admin_document_of(name, password_hash, now).get_datetime("created_at"@) == Some(now),
{
    broadcast use crate::bson::group_document_fields;

    reveal_strlit("_id");
    reveal_strlit("password_hash");
    reveal_strlit("created_at");
    assert("_id"@.len() == 3 && "password_hash"@.len() == 13 && "created_at"@.len() == 10);
}

/// Administrators are listed as they were created.
pub proof fn law_admins_are_listed(
    docs: Seq<DocV>,
    all: Seq<(Seq<char>, i64)>,
    hashes: Seq<Seq<char>>,
)
    requires
        docs.len() == all.len(),
        docs.len() == hashes.len(),
        forall|i: int|
            0 <= i < docs.len() ==> (#[trigger] docs[i]) == admin_document_of(
                all[i].0,
                hashes[i],
                all[i].1,
            ),
    ensures
        admins_of(docs) == all,
    decreases docs.len(),
{
    if docs.len() > 0 {
        let d = docs.drop_last();
        let n = all.drop_last();
        let h = hashes.drop_last();
        assert forall|i: int| 0 <= i < d.len() implies (#[trigger] d[i]) == admin_document_of(
            n[i].0,
            h[i],
            n[i].1,
        ) by {
            assert(d[i] == docs[i]);
        }
        law_admins_are_listed(d, n, h);
        let last = docs[docs.len() - 1];
        assert(last == admin_document_of(all.last().0, hashes.last(), all.last().1));
        lemma_admin(all.last().0, hashes.last(), all.last().1);
        assert(all =~= n.push(all.last()));
    } else {
        assert(all =~= Seq::empty());
    }
}

proof fn lemma_key(k: NewKey, sealed: Seq<u8>)
    ensures
        key_document_of(k, sealed).get_str("_id"@) == Some(k.access_key_id@),
        key_of(key_document_of(k, sealed)) == Some((k.access_key_id@, true, k.now)),
        crate::table::bool_or(key_document_of(k, sealed), "is_active"@, true),
{
    broadcast use crate::bson::group_document_fields;

    reveal_strlit("_id");
    reveal_strlit("account_id");
    reveal_strlit("user_name");
    reveal_strlit("secret_key_encrypted");
    reveal_strlit("is_active");
    reveal_strlit("created_at");
    assert("_id"@.len() == 3 && "account_id"@.len() == 10 && "user_name"@.len() == 9);
    assert("secret_key_encrypted"@.len() == 20 && "is_active"@.len() == 9);
    assert("created_at"@.len() == 10 && "account_id"@[0] == 'a' && "created_at"@[0] == 'c');
    assert("user_name"@[0] == 'u' && "is_active"@[0] == 'i');
}

/// Access keys are listed as they were stored: active, in their order.
pub proof fn law_keys_are_listed(docs: Seq<DocV>, keys: Seq<NewKey>, sealed: Seq<Seq<u8>>, i: int)
    requires
        docs.len() == keys.len(),
        docs.len() == sealed.len(),
        forall|j: int|
            0 <= j < docs.len() ==> (#[trigger] docs[j]) == key_document_of(keys[j], sealed[j]),
    ensures
        listed_keys(docs).len() == keys.len(),
        keys_of(docs).len() == keys.len(),
        0 <= i < keys.len() ==> listed_keys(docs)[i] == (
            keys[i].access_key_id@,
            true,
            keys[i].now,
        ) && keys_of(docs)[i] == (keys[i].access_key_id@, true),
    decreases docs.len(),
{
    if docs.len() > 0 {
        let d = docs.drop_last();
        let n = keys.drop_last();
        let s = sealed.drop_last();
        assert forall|j: int| 0 <= j < d.len() implies (#[trigger] d[j]) == key_document_of(
            n[j],
            s[j],
        ) by {
            assert(d[j] == docs[j]);
        }
        law_keys_are_listed(d, n, s, i);
        let last = docs[docs.len() - 1];
        assert(last == key_document_of(keys.last(), sealed.last()));
        lemma_key(keys.last(), sealed.last());
    }
}

/// Rows of metrics are listed one for each entry.
pub proof fn law_metrics_are_listed(docs: Seq<DocV>, all: Seq<MetricsV>)
    requires
        docs.len() == all.len(),
        forall|i: int| 0 <= i < docs.len() ==> metrics_of(#[trigger] docs[i]) == Some(all[i]),
    ensures
        metrics_rows(docs) == all,
    decreases docs.len(),
{
    if docs.len() > 0 {
        let d = docs.drop_last();
        let n = all.drop_last();
        assert forall|i: int| 0 <= i < d.len() implies metrics_of(#[trigger] d[i]) == Some(n[i]) by {
            assert(d[i] == docs[i]);
        }
        law_metrics_are_listed(d, n);
        let last = docs[docs.len() - 1];
        assert(metrics_of(last) == Some(all.last()));
        assert(all =~= n.push(all.last()));
    } else {
        assert(all =~= Seq::empty());
    }
}

/// Policies are listed one for each entry.
pub proof fn law_policies_are_listed(docs: Seq<DocV>, all: Seq<(Seq<char>, BsonV, i64)>)
    requires
        docs.len() == all.len(),
        forall|i: int| 0 <= i < docs.len() ==> policy_of(#[trigger] docs[i]) == Some(all[i]),
    ensures
        listed_policies(docs) == all,
    decreases docs.len(),
{
    if docs.len() > 0 {
        let d = docs.drop_last();
        let n = all.drop_last();
        assert forall|i: int| 0 <= i < d.len() implies policy_of(#[trigger] d[i]) == Some(n[i]) by {
            assert(d[i] == docs[i]);
        }
        law_policies_are_listed(d, n);
        let last = docs[docs.len() - 1];
        assert(policy_of(last) == Some(all.last()));
        assert(all =~= n.push(all.last()));
    } else {
        assert(all =~= Seq::empty());
    }
}

/// The indexes of tables are counted: those of each table, global and local.
pub proof fn law_indexes_are_counted(docs: Seq<DocV>, d: DocV, g: Seq<BsonV>, l: Seq<BsonV>)
    requires
        d.get("global_secondary_indexes"@) == Some(BsonV::Array(g)),
        d.get("local_secondary_indexes"@) == Some(BsonV::Array(l)),
    ensures
        indexes_in(docs.push(d)) == indexes_in(docs) + g.len() + l.len(),
        indexes_in(Seq::empty()) == 0,
{
    assert(docs.push(d).drop_last() =~= docs);
}

// --- Tags of sessions ----------------------------------------------------------------

/// A tag as an element of a list.
pub open spec fn tag_element(k: Seq<char>, v: Seq<char>) -> BsonV {
    BsonV::Doc(doc1("Key"@, BsonV::Str(k)).with("Value"@, BsonV::Str(v)))
}

/// The tags of a session are read from a list of keys and values.
pub proof fn law_listed_tags_are_read(a: Seq<BsonV>, all: Seq<(Seq<char>, Seq<char>)>)
    requires
        a.len() == all.len(),
        forall|i: int| 0 <= i < a.len() ==> (#[trigger] a[i]) == tag_element(all[i].0, all[i].1),
    ensures
        session_tags_of(Some(BsonV::Array(a))) == all,
    decreases a.len(),
{
    broadcast use crate::bson::group_document_fields;

    if a.len() > 0 {
        let d = a.drop_last();
        let n = all.drop_last();
        assert forall|i: int| 0 <= i < d.len() implies (#[trigger] d[i]) == tag_element(
            n[i].0,
            n[i].1,
        ) by {
            assert(d[i] == a[i]);
        }
        law_listed_tags_are_read(d, n);
        reveal_strlit("Key");
        reveal_strlit("Value");
        assert("Key"@.len() == 3 && "Value"@.len() == 5);
        let last = a[a.len() - 1];
        assert(last == tag_element(all.last().0, all.last().1));
        assert(element_tag(last) == Some(all.last()));
        assert(all =~= n.push(all.last()));
    } else {
        assert(all =~= Seq::empty());
    }
}

/// The tags of a session are read from the fields of a document.
pub proof fn law_named_tags_are_read(f: Seq<(Seq<char>, BsonV)>, all: Seq<(Seq<char>, Seq<char>)>)
    requires
        f.len() == all.len(),
        forall|i: int| 0 <= i < f.len() ==> (#[trigger] f[i]) == (all[i].0, BsonV::Str(all[i].1)),
    ensures
        session_tags_of(Some(BsonV::Doc(DocV { entries: f }))) == all,
    decreases f.len(),
{
    if f.len() > 0 {
        let d = f.drop_last();
        let n = all.drop_last();
        assert forall|i: int| 0 <= i < d.len() implies (#[trigger] d[i]) == (
            n[i].0,
            BsonV::Str(n[i].1),
        ) by {
            assert(d[i] == f[i]);
        }
        law_named_tags_are_read(d, n);
        let last = f[f.len() - 1];
        assert(last == (all.last().0, BsonV::Str(all.last().1)));
        assert(all =~= n.push(all.last()));
    } else {
        assert(all =~= Seq::empty());
    }
}

// --- Details -------------------------------------------------------------------------

/// What is told of an account are its users, its groups and its roles, and of
/// no other account.
pub proof fn law_account_is_detailed(
    before: spec_fn(BsonV, BsonV) -> bool,
    account_id: Seq<char>,
    k: IdentityKind,
    d: DocV,
    of: Seq<char>,
    name: Seq<char>,
)
    requires
        orders_texts(before),
        d.get("_id"@) == Some(BsonV::Doc(identity_names_of(of, k, name))),
    ensures
        ({
            let i = match k {
                IdentityKind::User => 0int,
                IdentityKind::Group => 1int,
                IdentityKind::Role => 2int,
            };
            &&& account_queries(account_id).len() == 3
            &&& account_queries(account_id)[i] matches CommandV::Find { at, filter, .. }
            &&& at == in_catalog(
                match k {
                    IdentityKind::User => "iam_users"@,
                    IdentityKind::Group => "iam_groups"@,
                    IdentityKind::Role => "iam_roles"@,
                },
            )
            &&& matches_filter(before, filter, d) == (of == account_id)
        }),
{
    law_identity_is_found(before, k, account_id, name, d, of, name, d, of, name);
}

/// What is told of an identity are its own policies.
pub proof fn law_identity_is_detailed(
    before: spec_fn(BsonV, BsonV) -> bool,
    k: IdentityKind,
    account_id: Seq<char>,
    name: Seq<char>,
    d: DocV,
    of: Seq<char>,
    own_kind: Seq<char>,
    own: Seq<char>,
    policy: Seq<char>,
)
    requires
        d.get("_id"@) == Some(policy_key(of, own_kind, own, policy)),
    ensures
        ({
            let q = match k {
                IdentityKind::User => user_queries(account_id, name)[1],
                IdentityKind::Group => group_queries(account_id, name)[0],
                IdentityKind::Role => role_queries(account_id, name)[0],
            };
            &&& q matches CommandV::Find { at, filter, .. }
            &&& at == in_catalog("iam_policies"@)
            &&& matches_filter(before, filter, d) == (of == account_id && own == name && own_kind
                == (match k {
                IdentityKind::User => "user"@,
                IdentityKind::Group => "group"@,
                IdentityKind::Role => "role"@,
            }))
        }),
{
    law_policy_is_found(
        before,
        account_id,
        match k {
            IdentityKind::User => "user"@,
            IdentityKind::Group => "group"@,
            IdentityKind::Role => "role"@,
        },
        name,
        policy,
        d,
        of,
        own_kind,
        own,
        policy,
    );
}

/// What is told of a user are the access keys that were stored for them.
pub proof fn law_user_is_told_keys(
    before: spec_fn(BsonV, BsonV) -> bool,
    account_id: Seq<char>,
    user_name: Seq<char>,
    k: NewKey,
    sealed: Seq<u8>,
)
    ensures
        user_queries(account_id, user_name)[0] matches CommandV::Find { at, filter, .. } && at
            == in_catalog("access_keys"@) && matches_filter(
            before,
            filter,
            key_document_of(k, sealed),
        ) == (k.account_id@ == account_id && k.user_name@ == user_name),
{
    broadcast use crate::bson::group_document_fields;

    reveal_strlit("_id");
    reveal_strlit("account_id");
    reveal_strlit("user_name");
    reveal_strlit("secret_key_encrypted");
    reveal_strlit("is_active");
    reveal_strlit("created_at");
    assert("_id"@.len() == 3 && "account_id"@.len() == 10 && "user_name"@.len() == 9);
    assert("secret_key_encrypted"@.len() == 20 && "is_active"@.len() == 9);
    assert("created_at"@.len() == 10 && "account_id"@[0] == 'a' && "created_at"@[0] == 'c');
    assert("user_name"@[0] == 'u' && "is_active"@[0] == 'i');
    assert(is_name("account_id"@) && is_name("user_name"@));
    let d = key_document_of(k, sealed);
    assert(d.get("account_id"@) == Some(BsonV::Str(k.account_id@)));
    assert(d.get("user_name"@) == Some(BsonV::Str(k.user_name@)));
    let f = by1("account_id"@, account_id);
    lemma_doc1("account_id"@, BsonV::Str(account_id));
    lemma_one_clause(before, "account_id"@, BsonV::Str(account_id), d);
    lemma_plain_clause(before, "account_id"@, BsonV::Str(account_id), d);
    lemma_more_clauses(before, f, "user_name"@, BsonV::Str(user_name), d);
    lemma_plain_clause(before, "user_name"@, BsonV::Str(user_name), d);
}

/// The documents of policies are read one for each entry.
pub proof fn law_policy_documents_are_read(docs: Vec<Document>, all: Seq<BsonV>)
    requires
        docs@.len() == all.len(),
        forall|i: int|
            0 <= i < docs@.len() ==> (#[trigger] doc_seq(docs@)[i]).get("policy_document"@) == Some(
                all[i],
            ),
    ensures
        documents_said(Reply::Many(docs)) == Ok::<Seq<BsonV>, OpErrV>(all),
{
    lemma_values(doc_seq(docs@), all);
}

proof fn lemma_values(docs: Seq<DocV>, all: Seq<BsonV>)
    requires
        docs.len() == all.len(),
        forall|i: int|
            0 <= i < docs.len() ==> (#[trigger] docs[i]).get("policy_document"@) == Some(all[i]),
    ensures
        values_under(docs, "policy_document"@) == all,
    decreases docs.len(),
{
    if docs.len() > 0 {
        let d = docs.drop_last();
        let n = all.drop_last();
        assert forall|i: int| 0 <= i < d.len() implies (#[trigger] d[i]).get("policy_document"@)
            == Some(n[i]) by {
            assert(d[i] == docs[i]);
        }
        lemma_values(d, n);
        assert(docs[docs.len() - 1].get("policy_document"@) == Some(all.last()));
        assert(all =~= n.push(all.last()));
    } else {
        assert(all =~= Seq::empty());
    }
}

/// The accounts and the administrators are counted, all of them, and told in
/// this order.
pub proof fn law_both_are_counted(
    accounts: u64,
    admins: u64,
    counting: OpStep<DashboardState, (i64, i64)>,
    done: OpStep<DashboardState, (i64, i64)>,
)
    requires
        dashboard_goes_on(DashboardState::Accounts, Reply::Counted(accounts), counting),
        counting is Do,
        dashboard_goes_on(counting->Do_0, Reply::Counted(admins), done),
    ensures
        counting matches OpStep::Do(_, c) && c@ == (CommandV::Count {
            at: in_catalog("admin_users"@),
            filter: DocV::empty(),
        }),
        done == OpStep::<DashboardState, (i64, i64)>::Done(Ok((accounts as i64, admins as i64))),
{
}

} // verus!
