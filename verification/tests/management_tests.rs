use extenddb_storage_mongodb::access_keys::{
    auth_message, credential_kind, credential_secret, delete_access_key_command,
    delete_access_key_reply, encryption_key_reply, list_access_keys_command,
    list_access_keys_reply, lookup_credential_command, lookup_credential_reply, open_credential,
    store_key_next, store_key_start, store_session_command, AuthError, CredentialKind, KeyAction,
    KeyEvent, KeyState, KeyStep, NewKey, NewSession,
};
use extenddb_storage_mongodb::accounts::{
    account_detail, account_detail_start, create_account_command, create_account_reply,
    dashboard_next, dashboard_start, delete_account_next, delete_account_start,
    list_accounts_for_command, list_accounts_full_reply, list_accounts_reply,
    list_all_accounts_command,
};
use extenddb_storage_mongodb::administration::{
    bucket_millis, change_admin_password_command, change_admin_password_reply,
    cleanup_attempts_command, count_failures_command, count_indexes, count_tables_command,
    create_admin_command, create_admin_reply, cutoff, delete_admin_command, delete_admin_reply,
    find_admin_command, get_setting_command, get_setting_reply, insert_metrics_command,
    list_admins_reply, list_settings_reply, ping_command, prune_metrics_command,
    query_metrics_command, query_metrics_reply, record_failed_login_command,
    set_setting_command, verify_admin_password_reply, LoginKey, MetricsRow,
};
use extenddb_storage_mongodb::bson::{Bson, Document};
use extenddb_storage_mongodb::crypto::{
    access_key_id_from, decrypt_secret, decrypt_secret_checked, encrypt_secret,
    encrypt_secret_checked, generate_access_key_id, generate_secret_key, hash_password,
    new_encryption_key, new_password, password_matches, seal_secret, secret_key_from,
};
use extenddb_storage_mongodb::identities::{
    add_group_member_next, add_group_member_start, caller_identity,
    change_user_password_command, change_user_password_reply, create_group_command,
    create_identity_reply, create_role_command, create_user_next, create_user_start,
    delete_identity_command, delete_identity_reply, delete_user_next, delete_user_start,
    fetch_caller_tags_command, fetch_identity_tags_command, fetch_resource_tags_command,
    find_identity_command, group_detail, group_detail_start, identity_arn, identity_tags_reply,
    kind_word, list_identities_command, list_identities_reply, remove_group_member_command,
    remove_group_member_reply, resource_tags_reply, role_detail, role_detail_start, role_trust_policy_reply, tag_identity, untag_identity, user_detail, user_detail_start,
    verify_user_password_reply, IdentityKind, Tagged,
};
use extenddb_storage_mongodb::management::{
    changed, collect_pairs, counted, found, gather_next, inserted, is_duplicate_key, listed,
    performed, removed, Gathered, GatherState, OpError, OpStep,
};
use extenddb_storage_mongodb::policies::{
    boundary_reply, delete_boundary_command, delete_boundary_reply, delete_policy_command,
    delete_policy_reply, fetch_policies_command, fetch_session_command, fetch_session_reply,
    get_boundary_command, group_policies_next, group_policies_start, list_policies_command,
    list_policies_reply, policy_documents_reply, put_policy_command, set_boundary_command,
};
use extenddb_storage_mongodb::protocol::{Command, DbError, Paging, Place, Reply};
use extenddb_storage_mongodb::tags::Tag;

fn s(text: &str) -> Bson {
    Bson::String(text.to_string())
}

fn doc(entries: Vec<(&str, Bson)>) -> Document {
    Document {
        entries: entries
            .into_iter()
            .map(|(k, v)| (k.to_string(), v))
            .collect(),
    }
}

fn obj(entries: Vec<(&str, Bson)>) -> Bson {
    Bson::Document(doc(entries))
}

fn failed(code: Option<i32>) -> Reply {
    Reply::Failed(DbError { code, message: "no".to_string() })
}

fn database_error<T>() -> Result<T, OpError> {
    Err(OpError::Internal("Database error".to_string()))
}

fn missing<T>(message: &str) -> Result<T, OpError> {
    Err(OpError::NotFound(message.to_string()))
}

fn taken<T>(message: &str) -> Result<T, OpError> {
    Err(OpError::AlreadyExists(message.to_string()))
}

fn expect<S: std::fmt::Debug, T: std::fmt::Debug>(step: OpStep<S, T>) -> (S, Command) {
    match step {
        OpStep::Do(state, command) => (state, command),
        OpStep::Done(r) => panic!("finished with {r:?}"),
    }
}

fn inserted_document(command: Command) -> Document {
    match command {
        Command::Insert { document, .. } => document,
        other => panic!("{other:?}"),
    }
}

fn gather(step: OpStep<GatherState, Option<Gathered>>, head: Document, lists: Vec<Vec<Document>>) -> Gathered {
    let (mut state, _) = expect(step);
    let mut reply = Reply::One(Some(head));
    let mut lists = lists.into_iter();
    loop {
        match gather_next(state, reply) {
            OpStep::Do(next, command) => {
                assert!(matches!(command, Command::Find { .. }));
                state = next;
                reply = Reply::Many(lists.next().unwrap());
            },
            OpStep::Done(r) => return r.unwrap().unwrap(),
        }
    }
}

// --- Answers -----------------------------------------------------------------------

#[test]
fn answers_become_results() {
    assert_eq!(inserted(&Reply::Done, "x"), Ok(()));
    assert_eq!(inserted(&failed(Some(11000)), "x"), taken("x"));
    assert_eq!(inserted(&failed(Some(1)), "x"), database_error());
    assert_eq!(performed(&failed(None)), database_error());
    assert_eq!(removed(&Reply::Deleted(0), "m"), missing("m"));
    assert_eq!(removed(&Reply::Deleted(1), "m"), Ok(()));
    assert_eq!(changed(&Reply::Matched(0), "m"), missing("m"));
    assert_eq!(counted(&Reply::Counted(3)), Ok(3));
    assert_eq!(counted(&Reply::Done), Err(OpError::Internal("unexpected event".to_string())));
    assert_eq!(listed(Reply::Many(vec![])), Ok(vec![]));
    assert_eq!(found(Reply::One(None)), Ok(None));
    assert!(is_duplicate_key(&DbError { code: Some(11000), message: String::new() }));
    assert!(!is_duplicate_key(&DbError { code: None, message: "E11000".to_string() }));
    assert_eq!(
        collect_pairs(
            &vec![doc(vec![("a", s("1")), ("b", s("2"))]), doc(vec![("a", s("1"))])],
            "a",
            "b"
        ),
        vec![("1".to_string(), "2".to_string())]
    );
}

// --- Accounts ----------------------------------------------------------------------

#[test]
fn accounts_read_back() {
    let document = inserted_document(create_account_command("1", "name", 5));
    assert_eq!(
        list_accounts_reply(Reply::Many(vec![document])),
        Ok(vec![("1".to_string(), "name".to_string())])
    );
    let document = inserted_document(create_account_command("1", "name", 5));
    let entries = list_accounts_full_reply(Reply::Many(vec![document])).unwrap();
    assert_eq!(entries[0].created_at, 5);
    assert_eq!(create_account_reply(&Reply::Done), Ok(()));
    assert!(matches!(
        create_account_reply(&failed(Some(11000))),
        Err(OpError::AlreadyExists(_))
    ));
    assert!(matches!(list_all_accounts_command(), Command::Find { .. }));
    match list_accounts_for_command("1") {
        Command::Find { filter, .. } => assert_eq!(filter, doc(vec![("_id", s("1"))])),
        other => panic!("{other:?}"),
    }
}

#[test]
fn account_with_tables_is_kept() {
    let (state, command) = expect(delete_account_start("1"));
    assert_eq!(
        command,
        Command::Count {
            at: Place::catalog("tables"),
            filter: doc(vec![("_id.account_id", s("1"))]),
        }
    );
    assert_eq!(
        delete_account_next(state, Reply::Counted(1)),
        OpStep::Done(Err(OpError::HasDependents(
            "Cannot delete account with existing tables. Delete all tables first.".to_string()
        )))
    );
    let (state, _) = expect(delete_account_start("1"));
    let (state, command) = expect(delete_account_next(state, Reply::Counted(0)));
    assert!(matches!(command, Command::DeleteOne { .. }));
    assert_eq!(
        delete_account_next(state, Reply::Deleted(0)),
        OpStep::Done(missing("Account not found"))
    );
}

#[test]
fn accounts_are_shown_with_their_identities() {
    let g = gather(
        account_detail_start("1"),
        doc(vec![("account_name", s("name"))]),
        vec![
            vec![doc(vec![("_id", obj(vec![("user_name", s("u"))]))])],
            vec![doc(vec![("_id", obj(vec![("group_name", s("g"))]))])],
            vec![],
        ],
    );
    let d = account_detail(&g);
    assert_eq!(d.account_name, "name");
    assert_eq!(d.users, vec!["u".to_string()]);
    assert_eq!(d.groups, vec!["g".to_string()]);
    assert!(d.roles.is_empty());
    let (state, _) = expect(account_detail_start("1"));
    assert_eq!(gather_next(state, Reply::One(None)), OpStep::Done(Ok(None)));
    let (state, _) = expect(dashboard_start());
    let (state, _) = expect(dashboard_next(state, &Reply::Counted(2)));
    assert_eq!(dashboard_next(state, &Reply::Counted(3)), OpStep::Done(Ok((2, 3))));
}

// --- Secrets -----------------------------------------------------------------------

#[test]
fn secrets_decrypt_to_what_was_encrypted() {
    let key = new_encryption_key();
    let nonce: Vec<u8> = (0..12).collect();
    let sealed = encrypt_secret("s\u{e9}cret", &key, "AKIA1", &nonce).unwrap();
    assert_eq!(sealed.len(), 12 + "s\u{e9}cret".len() + 16);
    assert_eq!(sealed[..12].to_vec(), nonce);
    assert_ne!(sealed[12..18].to_vec(), b"s\xc3\xa9cre".to_vec());
    assert_eq!(decrypt_secret(&sealed, &key, "AKIA1"), Ok("s\u{e9}cret".to_string()));
    assert_eq!(
        decrypt_secret(&sealed, &key, "AKIA2"),
        Err("decrypt: aead::Error".to_string())
    );
    let unbound = encrypt_secret("old", &key, "", &nonce).unwrap();
    assert_eq!(decrypt_secret(&unbound, &key, "AKIA1"), Ok("old".to_string()));
    let again = seal_secret("x", &key, "a").unwrap().unwrap();
    assert_eq!(decrypt_secret_checked(&again, &key, "a"), Some(Ok("x".to_string())));
    assert_ne!(seal_secret("x", &key, "a"), seal_secret("x", &key, "a"));
}

#[test]
fn known_key_gives_a_known_ciphertext() {
    let key = "AAAAAAAAAAAAAAAAAAAAAAAAAAAAAAAAAAAAAAAAAAA=";
    let sealed = encrypt_secret("", key, "", &vec![0; 12]).unwrap();
    assert_eq!(
        sealed[12..].to_vec(),
        vec![
            0x53, 0x0f, 0x8a, 0xfb, 0xc7, 0x45, 0x36, 0xb9, 0xa9, 0x63, 0xb4, 0xf1, 0xc4, 0xcb,
            0x73, 0x8b
        ]
    );
}

#[test]
fn bad_keys_and_short_secrets_are_refused() {
    let short = "ciphertext too short (need at least 12-byte nonce + 16-byte auth tag)";
    assert_eq!(decrypt_secret(&vec![0; 27], "x", "a"), Err(short.to_string()));
    assert_eq!(
        decrypt_secret(&vec![0; 28], "!", "a"),
        Err("decode encryption key: Invalid symbol 33, offset 0.".to_string())
    );
    assert_eq!(decrypt_secret_checked(&vec![0; 28], "AAAA", "a"), None);
    assert_eq!(encrypt_secret_checked("x", "AAAA", "a", &vec![0; 12]), None);
    assert_eq!(
        encrypt_secret_checked("x", "!", "a", &vec![0; 12]),
        Some(Err("decode encryption key: Invalid symbol 33, offset 0.".to_string()))
    );
    assert_eq!(seal_secret("x", "AAAA", "a"), None);
}

#[test]
fn new_keys_have_their_form() {
    let id = generate_access_key_id();
    assert!(id.starts_with("AKIA"));
    assert_eq!(id.len(), 20);
    assert!(id.chars().all(|c| c.is_ascii_uppercase() || c.is_ascii_digit()));
    assert_eq!(generate_secret_key().len(), 40);
    assert_eq!(access_key_id_from(&vec![0, 25, 26, 35]), "AKIAEXTENDDBAZ09");
    assert_eq!(secret_key_from(&vec![0, 26, 52, 62, 63]), "extenddbAa0+/");
    let password = new_password();
    assert_eq!(password.len(), 24);
    assert!(password.chars().all(|c| c.is_ascii_alphanumeric()));
    assert_ne!(new_password(), password);
    assert_ne!(new_encryption_key(), new_encryption_key());
}

#[test]
fn passwords_are_checked_against_their_hash() {
    let hash = hash_password("pw").unwrap();
    assert_ne!(hash, "pw");
    assert!(password_matches("pw", &hash));
    assert!(!password_matches("other", &hash));
    assert!(!password_matches("pw", "no hash"));
}

// --- Identities --------------------------------------------------------------------

#[test]
fn users_read_back() {
    let (state, command) = expect(create_user_start("1", "u", Some("h"), 5));
    let entries =
        list_identities_reply(IdentityKind::User, Reply::Many(vec![inserted_document(command)]))
            .unwrap();
    assert_eq!(entries[0].name, "u");
    assert_eq!(entries[0].arn, "arn:aws:iam::1:user/u");
    assert!(entries[0].has_password);
    assert_eq!(entries[0].trust_policy, None);
    let (state, command) = expect(create_user_next(state, &Reply::Done));
    match command {
        Command::Update { at, filter, update, upsert } => {
            assert_eq!(at, Place::catalog("iam_policies"));
            assert!(upsert);
            assert_eq!(
                filter.get_document("_id").unwrap().get("policy_name"),
                Some(&s("SelfServicePolicy"))
            );
            let policy = update
                .get_document("$setOnInsert")
                .unwrap()
                .get_document("policy_document")
                .unwrap();
            assert_eq!(policy.get("Version"), Some(&s("2012-10-17")));
        },
        other => panic!("{other:?}"),
    }
    assert_eq!(create_user_next(state, &Reply::Matched(0)), OpStep::Done(Ok(())));
    let (state, _) = expect(create_user_start("1", "u", None, 5));
    assert_eq!(
        create_user_next(state, &failed(Some(11000))),
        OpStep::Done(taken("IAM user already exists"))
    );
}

#[test]
fn deleted_user_loses_what_is_theirs() {
    let (state, _) = expect(delete_user_start("1", "u"));
    assert_eq!(
        delete_user_next(state, Reply::Deleted(0)),
        OpStep::Done(missing("IAM user not found"))
    );
    let (state, _) = expect(delete_user_start("1", "u"));
    let (state, first) = expect(delete_user_next(state, Reply::Deleted(1)));
    let (state, second) = expect(delete_user_next(state, failed(None)));
    let (state, third) = expect(delete_user_next(state, Reply::Deleted(0)));
    let place = |c: Command| match c {
        Command::DeleteMany { at, .. } => at.collection,
        other => panic!("{other:?}"),
    };
    assert_eq!(vec![place(first), place(second)], vec!["access_keys", "iam_policies"]);
    assert_eq!(
        third,
        Command::UpdateMany {
            at: Place::catalog("iam_groups"),
            filter: doc(vec![("_id.account_id", s("1")), ("members", s("u"))]),
            update: doc(vec![("$pull", obj(vec![("members", s("u"))]))]),
        }
    );
    assert_eq!(delete_user_next(state, Reply::Deleted(0)), OpStep::Done(Ok(())));
}

#[test]
fn groups_and_roles_are_kept_apart() {
    let group = inserted_document(create_group_command("1", "g", 5));
    assert_eq!(group.get("group_arn"), Some(&s("arn:aws:iam::1:group/g")));
    assert_eq!(group.get("members"), Some(&Bson::Array(vec![])));
    let trust = obj(vec![("Version", s("x"))]);
    let role = inserted_document(create_role_command("1", "r", &trust, 5));
    let roles = list_identities_reply(IdentityKind::Role, Reply::Many(vec![role])).unwrap();
    assert_eq!(roles[0].trust_policy, Some(trust));
    assert_eq!(
        create_identity_reply(IdentityKind::Group, &failed(Some(11000))),
        taken("IAM group already exists")
    );
    assert_eq!(
        delete_identity_reply(IdentityKind::Role, &Reply::Deleted(0)),
        missing("IAM role not found")
    );
    assert!(matches!(
        delete_identity_command(IdentityKind::Role, "1", "r"),
        Command::DeleteOne { .. }
    ));
    assert_eq!(kind_word(IdentityKind::Role), "role");
    assert_eq!(identity_arn("1", IdentityKind::Role, "r"), "arn:aws:iam::1:role/r");
    match list_identities_command(IdentityKind::Group, "1") {
        Command::Find { at, paging, .. } => {
            assert_eq!(at, Place::catalog("iam_groups"));
            assert_eq!(paging, Paging::sorted(doc(vec![("_id.group_name", Bson::Int32(1))])));
        },
        other => panic!("{other:?}"),
    }
}

#[test]
fn members_join_and_leave_groups() {
    let key = || obj(vec![("account_id", s("1")), ("group_name", s("g"))]);
    let (state, command) = expect(add_group_member_start("1", "g", "u"));
    let added = obj(vec![("$each", Bson::Array(vec![s("u")])), ("$sort", Bson::Int32(1))]);
    assert_eq!(
        command,
        Command::Update {
            at: Place::catalog("iam_groups"),
            filter: doc(vec![("_id", key()), ("members", obj(vec![("$ne", s("u"))]))]),
            update: doc(vec![("$push", obj(vec![("members", added)]))]),
            upsert: false,
        }
    );
    assert_eq!(add_group_member_next(state, Reply::Matched(1)), OpStep::Done(Ok(())));
    let look = || {
        let (state, _) = expect(add_group_member_start("1", "g", "u"));
        let (state, command) = expect(add_group_member_next(state, Reply::Matched(0)));
        assert_eq!(command, find_identity_command(IdentityKind::Group, "1", "g"));
        state
    };
    assert_eq!(
        add_group_member_next(look(), Reply::One(Some(doc(vec![])))),
        OpStep::Done(taken("User is already a member of this group"))
    );
    assert_eq!(
        add_group_member_next(look(), Reply::One(None)),
        OpStep::Done(missing("IAM group not found"))
    );
    assert_eq!(add_group_member_next(look(), failed(None)), OpStep::Done(database_error()));
    assert_eq!(
        remove_group_member_command("1", "g", "u"),
        Command::Update {
            at: Place::catalog("iam_groups"),
            filter: doc(vec![("_id", key()), ("members", s("u"))]),
            update: doc(vec![("$pull", obj(vec![("members", s("u"))]))]),
            upsert: false,
        }
    );
    assert_eq!(remove_group_member_reply(&Reply::Matched(1)), Ok(()));
    assert_eq!(remove_group_member_reply(&Reply::Matched(0)), missing("Membership not found"));
}

#[test]
fn identities_are_shown_in_detail() {
    let u = user_detail(&gather(
        user_detail_start("1", "u"),
        doc(vec![("tags", obj(vec![("c", s("d")), ("a", s("b"))]))]),
        vec![
            vec![doc(vec![("_id", s("k")), ("is_active", Bson::Boolean(false))])],
            vec![doc(vec![("_id", obj(vec![("policy_name", s("p"))]))])],
            vec![doc(vec![("_id", obj(vec![("group_name", s("g"))]))])],
        ],
    ));
    assert_eq!(u.keys, vec![("k".to_string(), false)]);
    assert_eq!(u.policies, vec!["p".to_string()]);
    assert_eq!(
        u.tags,
        vec![("a".to_string(), "b".to_string()), ("c".to_string(), "d".to_string())]
    );
    assert_eq!(u.groups, vec!["g".to_string()]);
    let g = group_detail(&gather(
        group_detail_start("1", "g"),
        doc(vec![("members", Bson::Array(vec![s("u"), s("w")]))]),
        vec![vec![], vec![doc(vec![("_id", obj(vec![("user_name", s("v"))]))])]],
    ));
    assert_eq!(g.members, vec!["u".to_string(), "w".to_string()]);
    assert_eq!(g.all_users, vec!["v".to_string()]);
    let r = role_detail(&gather(
        role_detail_start("1", "r"),
        doc(vec![("trust_policy", s("t")), ("tags", obj(vec![("a", s("b"))]))]),
        vec![vec![]],
    ));
    assert_eq!(r.trust_policy, s("t"));
    assert_eq!(r.tags, vec![("a".to_string(), "b".to_string())]);
    assert_eq!(
        role_trust_policy_reply(Reply::One(Some(doc(vec![("trust_policy", s("t"))])))),
        Ok(Some(s("t")))
    );
    assert!(matches!(
        find_identity_command(IdentityKind::User, "1", "u"),
        Command::FindOne { .. }
    ));
}

#[test]
fn user_passwords_are_verified() {
    let hash = hash_password("pw").unwrap();
    let user = || Reply::One(Some(doc(vec![("password_hash", s(&hash))])));
    assert_eq!(verify_user_password_reply(user(), "pw"), Ok(true));
    assert_eq!(verify_user_password_reply(user(), "no"), Ok(false));
    assert_eq!(verify_user_password_reply(Reply::One(Some(doc(vec![]))), "pw"), Ok(false));
    assert_eq!(verify_user_password_reply(Reply::One(None), "pw"), Ok(false));
    assert_eq!(verify_user_password_reply(failed(None), "pw"), database_error());
    assert!(matches!(
        change_user_password_command("1", "u", "h"),
        Command::Update { upsert: false, .. }
    ));
    assert!(matches!(
        change_user_password_reply(&Reply::Matched(0)),
        Err(OpError::NotFound(_))
    ));
}

#[test]
fn identity_tags_are_kept_by_kind() {
    let tags = vec![Tag { key: "a".to_string(), value: "b".to_string() }];
    let lines = tag_identity(Tagged::Role, "1", "r", &tags);
    let literal = |t: &str| obj(vec![("$literal", s(t))]);
    let so_far = || obj(vec![("$ifNull", Bson::Array(vec![s("$tags"), obj(vec![])]))]);
    let change = |operator: &str, fields: Vec<(&str, Bson)>| {
        let value = obj(vec![(operator, obj(fields))]);
        vec![doc(vec![("$set", obj(vec![("tags", value)]))])]
    };
    assert_eq!(
        lines[0].command,
        Command::UpdateWith {
            at: Place::catalog("iam_roles"),
            filter: doc(vec![(
                "_id",
                obj(vec![("account_id", s("1")), ("role_name", s("r"))])
            )]),
            stages: change(
                "$setField",
                vec![("field", literal("a")), ("input", so_far()), ("value", literal("b"))]
            ),
        }
    );
    let lines = untag_identity(Tagged::User, "1", "u", &vec!["a.b".to_string()]);
    assert_eq!(
        lines[0].command,
        Command::UpdateWith {
            at: Place::catalog("iam_users"),
            filter: doc(vec![(
                "_id",
                obj(vec![("account_id", s("1")), ("user_name", s("u"))])
            )]),
            stages: change("$unsetField", vec![("field", literal("a.b")), ("input", so_far())]),
        }
    );
    assert_eq!(
        fetch_identity_tags_command(Tagged::User, "1", "u"),
        find_identity_command(IdentityKind::User, "1", "u")
    );
    let tagged = doc(vec![("tags", obj(vec![("c", s("d")), ("a", s("b")), ("x", Bson::Null)]))]);
    assert_eq!(
        identity_tags_reply(Reply::One(Some(tagged))),
        Ok(vec![("a".to_string(), "b".to_string()), ("c".to_string(), "d".to_string())])
    );
    assert_eq!(identity_tags_reply(Reply::One(None)), Ok(vec![]));
    assert_eq!(identity_tags_reply(failed(None)), database_error());
    match fetch_resource_tags_command("arn") {
        Command::Find { at, filter, .. } => {
            assert_eq!(at, Place::catalog("tags"));
            assert_eq!(filter, doc(vec![("_id.resource_arn", s("arn"))]));
        },
        other => panic!("{other:?}"),
    }
    let stored = doc(vec![
        ("_id", obj(vec![("resource_arn", s("arn")), ("tag_key", s("a"))])),
        ("tag_value", s("b")),
    ]);
    assert_eq!(
        resource_tags_reply(Reply::Many(vec![stored])),
        Ok(vec![("a".to_string(), "b".to_string())])
    );
}

#[test]
fn callers_are_told_apart() {
    assert_eq!(caller_identity("user/u"), Some((Tagged::User, "u".to_string())));
    assert_eq!(caller_identity("role/r"), Some((Tagged::Role, "r".to_string())));
    assert_eq!(caller_identity("assumed-role/r/s"), Some((Tagged::Role, "r".to_string())));
    assert_eq!(caller_identity("assumed-role/"), None);
    assert_eq!(caller_identity("root"), None);
    assert!(fetch_caller_tags_command("1", "root").is_none());
    assert!(fetch_caller_tags_command("1", "user/u").is_some());
}

// --- Policies ----------------------------------------------------------------------

#[test]
fn put_policies_are_read() {
    let document = obj(vec![("Version", s("x"))]);
    let stored = match put_policy_command("1", "user", "u", "p", &document, 5) {
        Command::Update { filter, update, upsert, .. } => {
            assert!(upsert);
            assert_eq!(
                update.get("$setOnInsert"),
                Some(&obj(vec![("created_at", Bson::DateTime(5))]))
            );
            match update.get("$set") {
                Some(Bson::Document(d)) => filter
                    .with("policy_document", d.get("policy_document").unwrap().clone())
                    .with("created_at", Bson::DateTime(5)),
                other => panic!("{other:?}"),
            }
        },
        other => panic!("{other:?}"),
    };
    assert_eq!(
        policy_documents_reply(Reply::Many(vec![stored.clone()])),
        Ok(vec![document.clone()])
    );
    let entries = list_policies_reply(Reply::Many(vec![stored])).unwrap();
    assert_eq!(entries[0].policy_name, "p");
    assert_eq!(entries[0].document, document);
    assert!(matches!(delete_policy_command("1", "user", "u", "p"), Command::DeleteOne { .. }));
    assert!(matches!(delete_policy_reply(&Reply::Deleted(0)), Err(OpError::NotFound(_))));
    assert!(matches!(list_policies_command("1", "user", "u"), Command::Find { .. }));
    assert!(matches!(
        fetch_policies_command(IdentityKind::Role, "1", "r"),
        Command::Find { .. }
    ));
}

#[test]
fn boundaries_are_set_read_and_removed() {
    let document = s("b");
    assert!(matches!(
        set_boundary_command(IdentityKind::User, "1", "u", &document),
        Command::Update { upsert: true, .. }
    ));
    assert!(matches!(
        get_boundary_command(IdentityKind::User, "1", "u"),
        Command::FindOne { .. }
    ));
    assert_eq!(boundary_reply(Reply::One(None)), Ok(None));
    assert!(matches!(
        delete_boundary_command(IdentityKind::User, "1", "u"),
        Command::DeleteOne { .. }
    ));
    assert!(matches!(delete_boundary_reply(&Reply::Deleted(0)), Err(OpError::NotFound(_))));
}

#[test]
fn group_policies_come_through_membership() {
    let (state, _) = expect(group_policies_start("1", "u"));
    assert_eq!(group_policies_next(state, Reply::Many(vec![])), OpStep::Done(Ok(vec![])));
    let (state, _) = expect(group_policies_start("1", "u"));
    let group = |name: &str| doc(vec![("_id", obj(vec![("group_name", s(name))]))]);
    let groups = vec![group("g"), group("h")];
    let (state, command) = expect(group_policies_next(state, Reply::Many(groups)));
    match command {
        Command::Find { filter, .. } => assert_eq!(
            filter.get("_id.principal_name"),
            Some(&obj(vec![("$in", Bson::Array(vec![s("g"), s("h")]))]))
        ),
        other => panic!("{other:?}"),
    }
    let policies = vec![doc(vec![("policy_document", s("p"))])];
    assert_eq!(
        group_policies_next(state, Reply::Many(policies)),
        OpStep::Done(Ok(vec![s("p")]))
    );
}

#[test]
fn session_tags_are_read_in_both_forms() {
    let session = |tags: Bson| {
        fetch_session_reply(Reply::One(Some(doc(vec![
            ("session_policy", s("p")),
            ("session_tags", tags),
        ]))))
        .unwrap()
        .unwrap()
    };
    let pair = vec![("a".to_string(), "b".to_string())];
    let list = Bson::Array(vec![obj(vec![("Key", s("a")), ("Value", s("b"))]), s("x")]);
    assert_eq!(session(list).session_tags, pair);
    let map = obj(vec![("a", s("b")), ("c", Bson::Int32(1))]);
    assert_eq!(session(map).session_tags, pair);
    assert_eq!(session(s("x")).session_policy, Some(s("p")));
    assert_eq!(fetch_session_reply(Reply::One(None)), Ok(None));
    match fetch_session_command("1", "r", "n", 9) {
        Command::FindOne { filter, .. } => assert_eq!(
            filter.get("expires_at"),
            Some(&obj(vec![("$gt", Bson::DateTime(9))]))
        ),
        other => panic!("{other:?}"),
    }
}

// --- Access keys -------------------------------------------------------------------

fn new_key(is_new: bool, cached_key: Option<&str>) -> NewKey {
    NewKey {
        account_id: "1".to_string(),
        user_name: "u".to_string(),
        access_key_id: "AKIA1".to_string(),
        secret_access_key: "secret".to_string(),
        is_new,
        cached_key: cached_key.map(|k| k.to_string()),
        now: 5,
    }
}

fn key_step(step: KeyStep) -> (KeyState, KeyAction) {
    match step {
        KeyStep::Do(state, action) => (state, action),
        KeyStep::Done(r) => panic!("finished with {r:?}"),
    }
}

#[test]
fn stored_key_authenticates() {
    let (state, _) = key_step(store_key_start(new_key(true, None)));
    let (state, _) = key_step(store_key_next(
        state,
        KeyEvent::Replied(Reply::One(Some(doc(vec![])))),
    ));
    let (state, action) = key_step(store_key_next(
        state,
        KeyEvent::Replied(Reply::One(Some(doc(vec![("value", s("k"))])))),
    ));
    assert_eq!(
        action,
        KeyAction::Seal {
            plaintext: "secret".to_string(),
            key: "k".to_string(),
            aad: "AKIA1".to_string(),
        }
    );
    let (state, action) = key_step(store_key_next(state, KeyEvent::Sealed(Ok(vec![7, 8]))));
    let document = match action {
        KeyAction::Run(command) => inserted_document(command),
        other => panic!("{other:?}"),
    };
    assert_eq!(
        store_key_next(state, KeyEvent::Replied(Reply::Done)),
        KeyStep::Done(Ok(new_key(true, None)))
    );
    let (credential, secret) =
        lookup_credential_reply(CredentialKind::User, &Reply::One(Some(document)), 0)
            .unwrap()
            .unwrap();
    assert_eq!(secret, vec![7, 8]);
    assert_eq!(credential.account_id, "1");
    assert_eq!(credential.principal_name, "u");
    assert!(credential.is_active && !credential.is_session);
}

#[test]
fn stored_secret_is_returned() {
    let key = new_encryption_key();
    let sealed = seal_secret("secret", &key, "AKIA1").unwrap().unwrap();
    let (state, _) = key_step(store_key_start(new_key(false, Some(&key))));
    let (_, action) = key_step(store_key_next(state, KeyEvent::Sealed(Ok(sealed))));
    let reply = match action {
        KeyAction::Run(command) => Reply::One(Some(inserted_document(command))),
        other => panic!("{other:?}"),
    };
    let open = |key: &str, id: &str| open_credential(CredentialKind::User, &reply, 0, key, id);
    let opened = open(&key, "AKIA1").unwrap().unwrap().unwrap();
    assert_eq!(opened.secret_key, "secret");
    assert_eq!(opened.credential.principal_name, "u");
    assert_eq!(open(&key, "AKIA2"), Some(Err(AuthError::Internal)));
    assert_eq!(open("AAAA", "AKIA1"), None);
    assert_eq!(
        open_credential(CredentialKind::User, &Reply::One(None), 0, &key, "AKIA1"),
        Some(Ok(None))
    );
}

#[test]
fn keys_need_a_user_and_an_identifier_of_their_own() {
    let (state, _) = key_step(store_key_start(new_key(true, None)));
    assert_eq!(
        store_key_next(state, KeyEvent::Replied(Reply::One(None))),
        KeyStep::Done(missing("User not found"))
    );
    let (state, action) = key_step(store_key_start(new_key(false, Some("k"))));
    assert!(matches!(action, KeyAction::Seal { .. }));
    let (state, _) = key_step(store_key_next(state, KeyEvent::Sealed(Ok(vec![]))));
    assert_eq!(
        store_key_next(state, KeyEvent::Replied(failed(Some(11000)))),
        KeyStep::Done(taken("Access key ID already exists"))
    );
    let (state, _) = key_step(store_key_start(new_key(false, Some("k"))));
    assert_eq!(
        store_key_next(state, KeyEvent::Sealed(Err("x".to_string()))),
        KeyStep::Done(database_error())
    );
    assert_eq!(
        encryption_key_reply(Reply::One(None)),
        Err(OpError::Internal("Encryption key not configured".to_string()))
    );
}

#[test]
fn keys_are_listed_and_deleted() {
    let docs = vec![
        doc(vec![("_id", s("k")), ("created_at", Bson::DateTime(5))]),
        doc(vec![("_id", s("l"))]),
    ];
    let keys = list_access_keys_reply(Reply::Many(docs)).unwrap();
    assert_eq!(keys.len(), 1);
    assert!(keys[0].is_active);
    assert!(matches!(list_access_keys_command("1", "u"), Command::Find { .. }));
    assert!(matches!(delete_access_key_command("1", "u", "k"), Command::DeleteOne { .. }));
    assert!(matches!(delete_access_key_reply(&Reply::Deleted(0)), Err(OpError::NotFound(_))));
}

#[test]
fn sessions_expire() {
    let session = NewSession {
        session_token: "tok".to_string(),
        access_key_id: "ASIA1".to_string(),
        secret_key_encrypted: vec![1],
        account_id: "1".to_string(),
        role_name: "r".to_string(),
        session_name: "n".to_string(),
        session_tags: None,
        session_policy: None,
        expires_at: 100,
        now: 5,
    };
    let reply = Reply::One(Some(inserted_document(store_session_command(&session))));
    let at = |nanos: i128| lookup_credential_reply(CredentialKind::Session, &reply, nanos);
    let (credential, _) = at(100_000_000_000).unwrap().unwrap();
    assert!(credential.is_session);
    assert_eq!(credential.session_token, Some("tok".to_string()));
    assert_eq!(credential.principal_name, "r");
    assert_eq!(at(100_000_000_001), Err(AuthError::Expired));
    assert_eq!(
        lookup_credential_reply(CredentialKind::Session, &failed(None), 0),
        Err(AuthError::Internal)
    );
    assert_eq!(credential_kind("AKIA1"), Some(CredentialKind::User));
    assert_eq!(credential_kind("ASIA1"), Some(CredentialKind::Session));
    assert_eq!(credential_kind("XXXX"), None);
    match lookup_credential_command(CredentialKind::Session, "ASIA1") {
        Command::FindOne { at, filter } => {
            assert_eq!(at, Place::catalog("iam_sessions"));
            assert_eq!(filter, doc(vec![("access_key_id", s("ASIA1"))]));
        },
        other => panic!("{other:?}"),
    }
    assert_eq!(credential_secret(Ok("x".to_string())), Ok("x".to_string()));
    assert_eq!(credential_secret(Err("x".to_string())), Err(AuthError::Internal));
    assert_ne!(auth_message(AuthError::Internal), auth_message(AuthError::Expired));
}

// --- Administration ----------------------------------------------------------------

#[test]
fn settings_read_back() {
    match set_setting_command("k", "v") {
        Command::Update { filter, update, upsert, .. } => {
            assert_eq!(filter, doc(vec![("_id", s("k"))]));
            assert_eq!(update, doc(vec![("$set", obj(vec![("value", s("v"))]))]));
            assert!(upsert);
        },
        other => panic!("{other:?}"),
    }
    let d = || doc(vec![("_id", s("k")), ("value", s("v"))]);
    assert_eq!(get_setting_reply(Reply::One(Some(d()))), Ok(Some("v".to_string())));
    assert_eq!(get_setting_reply(Reply::One(None)), Ok(None));
    assert_eq!(
        list_settings_reply(Reply::Many(vec![d()])),
        Ok(vec![("k".to_string(), "v".to_string())])
    );
    assert!(matches!(get_setting_command("k"), Command::FindOne { .. }));
}

fn row(table: Option<&str>) -> MetricsRow {
    MetricsRow {
        bucket: 60_000,
        metric: "m".to_string(),
        table_name: table.map(|t| t.to_string()),
        index_name: None,
        operation: Some("Put".to_string()),
        sum: "1.5".to_string(),
        count: 2,
        min: "0".to_string(),
        max: "1".to_string(),
    }
}

#[test]
fn metrics_read_back() {
    assert_eq!(insert_metrics_command(&vec![]), None);
    let documents = match insert_metrics_command(&vec![row(Some("t")), row(None)]) {
        Some(Command::InsertMany { documents, .. }) => documents,
        other => panic!("{other:?}"),
    };
    assert_eq!(
        query_metrics_reply(Reply::Many(documents)),
        Ok(vec![row(Some("t")), row(None)])
    );
    match query_metrics_command(1, 2, Some("t"), None) {
        Command::Find { filter, .. } => {
            assert_eq!(
                filter,
                doc(vec![
                    (
                        "_id.bucket",
                        obj(vec![("$gte", Bson::DateTime(1)), ("$lte", Bson::DateTime(2))])
                    ),
                    ("_id.table_name", s("t")),
                ])
            );
        },
        other => panic!("{other:?}"),
    }
    assert_eq!(cutoff(1_700_000_000_999_999_999, 60_000_000_000), 1_699_999_940_000);
    assert_eq!(bucket_millis(60), 60_000);
    assert!(matches!(prune_metrics_command(5), Command::DeleteMany { .. }));
}

#[test]
fn failed_logins_are_counted() {
    match count_failures_command(LoginKey::SourceIp, "ip", 7) {
        Command::Count { at, filter } => {
            assert_eq!(at, Place::catalog("login_attempts"));
            assert_eq!(
                filter,
                doc(vec![
                    ("source_ip", s("ip")),
                    ("attempted_at", obj(vec![("$gte", Bson::DateTime(7))])),
                    ("success", Bson::Boolean(false)),
                ])
            );
        },
        other => panic!("{other:?}"),
    }
    assert_eq!(
        inserted_document(record_failed_login_command("p", Some("ip"), 7)),
        doc(vec![
            ("principal", s("p")),
            ("attempted_at", Bson::DateTime(7)),
            ("success", Bson::Boolean(false)),
            ("source_ip", s("ip")),
        ])
    );
    assert!(matches!(cleanup_attempts_command(7), Command::DeleteMany { .. }));
}

#[test]
fn administrators_are_managed() {
    let hash = hash_password("pw").unwrap();
    let admin = inserted_document(create_admin_command("root", &hash, 5));
    assert_eq!(
        verify_admin_password_reply(Reply::One(Some(admin.clone())), "pw"),
        Ok(Some(true))
    );
    assert_eq!(
        verify_admin_password_reply(Reply::One(Some(admin.clone())), "no"),
        Ok(Some(false))
    );
    assert_eq!(verify_admin_password_reply(Reply::One(None), "pw"), Ok(None));
    let entries = list_admins_reply(Reply::Many(vec![admin])).unwrap();
    assert_eq!(entries[0].admin_name, "root");
    assert!(matches!(create_admin_reply(&failed(Some(11000))), Err(OpError::AlreadyExists(_))));
    assert!(matches!(delete_admin_reply(&Reply::Deleted(0)), Err(OpError::NotFound(_))));
    assert!(matches!(
        change_admin_password_reply(&Reply::Matched(0)),
        Err(OpError::NotFound(_))
    ));
    assert!(matches!(delete_admin_command("root"), Command::DeleteOne { .. }));
    assert!(matches!(change_admin_password_command("root", "h"), Command::Update { .. }));
    assert!(matches!(find_admin_command("root"), Command::FindOne { .. }));
}

#[test]
fn tables_and_indexes_are_counted() {
    let docs = vec![
        doc(vec![
            ("global_secondary_indexes", Bson::Array(vec![s("a"), s("b")])),
            ("local_secondary_indexes", Bson::Array(vec![s("c")])),
        ]),
        doc(vec![]),
    ];
    assert_eq!(count_indexes(&docs), 3);
    assert!(matches!(count_tables_command(), Command::Count { .. }));
    assert_eq!(
        ping_command(),
        Command::Run {
            db: extenddb_storage_mongodb::protocol::Db::Data,
            command: doc(vec![("ping", Bson::Int32(1))]),
        }
    );
}
