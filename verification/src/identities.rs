//! Users, groups and roles of an account.

use vstd::prelude::*;
use vstd::string::*;

use crate::bson::{copy_bson, doc1, doc_seq, obj1, opt_text, text_seq, Bson, BsonV, DocV, Document};
use crate::crypto::{is_accepted, password_matches};
use crate::management::{
    by1, by2, by3, by_key, changed, changed_said, collect_key_pairs, command_seq, database_error,
    filter1, filter2, filter3, found, found_said, gather_start, gathered_key_parts, gathers,
    in_order, insert, insert_of, inserted, inserted_said, is_in_order, key_filter, key_pairs,
    key_part, key_parts, list_seq, listed, listed_said, lookup, lookup_of, misplaced,
    misplaced_reply, nth_list, op_fails, op_runs, op_unit, ordered, ordered_of, performed,
    performed_said, read_key_part, refused, remove, remove_of, removed, removed_said, set_fields,
    set_of, unordered, unordered_of, Gathered, GatherState, OpErrV, OpError, OpStep,
};
use crate::policies::{field_tags, read_field_tags};
use crate::protocol::{in_catalog, Command, CommandV, Place, Reply};
use crate::script::{
    add_line, line_seq, may, must, no_lines, script_goes_on, script_next, script_start, turns_to,
    Line, Script, Turn,
};
use crate::stream_admin::pair_seq;
use crate::table::{bool_or, opt_text_bson};
use crate::tags::{tag_seq, tags_filter, tags_filter_of, Tag};

verus! {

/// The kinds of identities.
#[derive(Debug, Clone, Copy, PartialEq, Eq, Structural)]
pub enum IdentityKind {
    User,
    Group,
    Role,
}

/// The word for a kind of identity.
pub open spec fn kind_text(k: IdentityKind) -> Seq<char> {
    match k {
        IdentityKind::User => "user"@,
        IdentityKind::Group => "group"@,
        IdentityKind::Role => "role"@,
    }
}

/// The field that holds the name of an identity.
pub open spec fn name_field(k: IdentityKind) -> Seq<char> {
    match k {
        IdentityKind::User => "user_name"@,
        IdentityKind::Group => "group_name"@,
        IdentityKind::Role => "role_name"@,
    }
}

/// The field that holds the resource name of an identity.
pub open spec fn arn_field(k: IdentityKind) -> Seq<char> {
    match k {
        IdentityKind::User => "user_arn"@,
        IdentityKind::Group => "group_arn"@,
        IdentityKind::Role => "role_arn"@,
    }
}

/// The collection of a kind of identity.
pub open spec fn collection_of(k: IdentityKind) -> Seq<char> {
    match k {
        IdentityKind::User => "iam_users"@,
        IdentityKind::Group => "iam_groups"@,
        IdentityKind::Role => "iam_roles"@,
    }
}

/// The message that an identity is missing.
pub open spec fn missing_text(k: IdentityKind) -> Seq<char> {
    match k {
        IdentityKind::User => "IAM user not found"@,
        IdentityKind::Group => "IAM group not found"@,
        IdentityKind::Role => "IAM role not found"@,
    }
}

/// The message that an identity exists already.
pub open spec fn exists_text(k: IdentityKind) -> Seq<char> {
    match k {
        IdentityKind::User => "IAM user already exists"@,
        IdentityKind::Group => "IAM group already exists"@,
        IdentityKind::Role => "IAM role already exists"@,
    }
}

/// The word for a kind of identity.
pub fn kind_word(k: IdentityKind) -> (r: &'static str)
    ensures
        r@ == kind_text(k),
{
    match k {
        IdentityKind::User => "user",
        IdentityKind::Group => "group",
        IdentityKind::Role => "role",
    }
}

fn name_key(k: IdentityKind) -> (r: &'static str)
    ensures
        r@ == name_field(k),
{
    match k {
        IdentityKind::User => "user_name",
        IdentityKind::Group => "group_name",
        IdentityKind::Role => "role_name",
    }
}

fn arn_key(k: IdentityKind) -> (r: &'static str)
    ensures
        r@ == arn_field(k),
{
    match k {
        IdentityKind::User => "user_arn",
        IdentityKind::Group => "group_arn",
        IdentityKind::Role => "role_arn",
    }
}

fn collection(k: IdentityKind) -> (r: &'static str)
    ensures
        r@ == collection_of(k),
{
    match k {
        IdentityKind::User => "iam_users",
        IdentityKind::Group => "iam_groups",
        IdentityKind::Role => "iam_roles",
    }
}

/// The resource name of an identity.
pub open spec fn identity_arn_of(account_id: Seq<char>, k: IdentityKind, name: Seq<char>) -> Seq<char> {
    "arn:aws:iam::"@ + account_id + ":"@ + kind_text(k) + "/"@ + name
}

/// The resource name of an identity.
pub fn identity_arn(account_id: &str, k: IdentityKind, name: &str) -> (r: String)
    ensures
        r@ == identity_arn_of(account_id@, k, name@),
{
    let mut s = "arn:aws:iam::".to_owned();
    s.append(account_id);
    s.append(":");
    s.append(kind_word(k));
    s.append("/");
    s.append(name);
    s
}

/// The account and the name of an identity: the key of its document, and the
/// filter that finds what belongs to it elsewhere.
pub open spec fn identity_names_of(account_id: Seq<char>, k: IdentityKind, name: Seq<char>) -> DocV {
    by2("account_id"@, account_id, name_field(k), name)
}

fn identity_names(account_id: &str, k: IdentityKind, name: &str) -> (r: Document)
    ensures
        r@ == identity_names_of(account_id@, k, name@),
{
    filter2("account_id", account_id, name_key(k), name)
}

/// The filter that finds an identity.
pub open spec fn identity_filter_of(account_id: Seq<char>, k: IdentityKind, name: Seq<char>) -> DocV {
    by_key(identity_names_of(account_id, k, name))
}

fn identity_filter(account_id: &str, k: IdentityKind, name: &str) -> (r: Document)
    ensures
        r@ == identity_filter_of(account_id@, k, name@),
{
    key_filter(identity_names(account_id, k, name))
}

/// The field by which identities are listed.
pub open spec fn listing_field(k: IdentityKind) -> Seq<char> {
    match k {
        IdentityKind::User => "_id.user_name"@,
        IdentityKind::Group => "_id.group_name"@,
        IdentityKind::Role => "_id.role_name"@,
    }
}

fn listing_key(k: IdentityKind) -> (r: &'static str)
    ensures
        r@ == listing_field(k),
{
    match k {
        IdentityKind::User => "_id.user_name",
        IdentityKind::Group => "_id.group_name",
        IdentityKind::Role => "_id.role_name",
    }
}

/// The document of a new identity, up to its particulars.
pub open spec fn identity_document_of(
    account_id: Seq<char>,
    k: IdentityKind,
    name: Seq<char>,
) -> DocV {
    identity_filter_of(account_id, k, name).with(
        arn_field(k),
        BsonV::Str(identity_arn_of(account_id, k, name)),
    )
}

fn identity_document(account_id: &str, k: IdentityKind, name: &str) -> (r: Document)
    ensures
        r@ == identity_document_of(account_id@, k, name@),
{
    identity_filter(account_id, k, name).with(
        arn_key(k),
        Bson::String(identity_arn(account_id, k, name)),
    )
}

// --- Creating a user -----------------------------------------------------------------

/// The policy that lets a user manage their own keys and password.
pub open spec fn self_service_policy_of(account_id: Seq<char>, user_name: Seq<char>) -> BsonV {
    let statement = doc1("Effect"@, BsonV::Str("Allow"@)).with(
        "Action"@,
        BsonV::Array(
            seq![
                BsonV::Str("iam:CreateAccessKey"@),
                BsonV::Str("iam:DeleteAccessKey"@),
                BsonV::Str("iam:ListAccessKeys"@),
                BsonV::Str("iam:ChangePassword"@),
            ],
        ),
    ).with(
        "Resource"@,
        BsonV::Str(identity_arn_of(account_id, IdentityKind::User, user_name)),
    );
    BsonV::Doc(
        doc1("Version"@, BsonV::Str("2012-10-17"@)).with(
            "Statement"@,
            BsonV::Array(seq![BsonV::Doc(statement)]),
        ),
    )
}

/// The filter that finds a policy of an identity.
pub open spec fn policy_filter_of(
    account_id: Seq<char>,
    principal_type: Seq<char>,
    principal_name: Seq<char>,
    policy_name: Seq<char>,
) -> DocV {
    by_key(
        by3(
            "account_id"@,
            account_id,
            "principal_type"@,
            principal_type,
            "principal_name"@,
            principal_name,
        ).with("policy_name"@, BsonV::Str(policy_name)),
    )
}

/// The filter that finds the policies of an identity.
pub open spec fn policies_filter_of(
    account_id: Seq<char>,
    principal_type: Seq<char>,
    principal_name: Seq<char>,
) -> DocV {
    by3(
        "_id.account_id"@,
        account_id,
        "_id.principal_type"@,
        principal_type,
        "_id.principal_name"@,
        principal_name,
    )
}

/// The filter that finds the policies of an identity.
pub fn policies_filter(account_id: &str, principal_type: &str, principal_name: &str) -> (r:
    Document)
    ensures
        r@ == policies_filter_of(account_id@, principal_type@, principal_name@),
{
    filter3(
        "_id.account_id",
        account_id,
        "_id.principal_type",
        principal_type,
        "_id.principal_name",
        principal_name,
    )
}

/// The filter that finds a policy of an identity.
pub fn policy_filter(
    account_id: &str,
    principal_type: &str,
    principal_name: &str,
    policy_name: &str,
) -> (r: Document)
    ensures
        r@ == policy_filter_of(account_id@, principal_type@, principal_name@, policy_name@),
{
    key_filter(
        filter3(
            "account_id",
            account_id,
            "principal_type",
            principal_type,
            "principal_name",
            principal_name,
        ).with("policy_name", Bson::text(policy_name)),
    )
}

/// The command that gives a user the policy, unless they have one of its name.
pub open spec fn seed_policy_of(account_id: Seq<char>, user_name: Seq<char>, now: i64) -> CommandV {
    let filter = policy_filter_of(account_id, "user"@, user_name, "SelfServicePolicy"@);
    CommandV::Update {
        at: in_catalog("iam_policies"@),
        filter,
        update: doc1(
            "$setOnInsert"@,
            BsonV::Doc(
                doc1(
                    "policy_document"@,
                    self_service_policy_of(account_id, user_name),
                ).with("created_at"@, BsonV::DateTime(now)),
            ),
        ),
        upsert: true,
    }
}

/// The document of a new user.
pub open spec fn user_document_of(
    account_id: Seq<char>,
    user_name: Seq<char>,
    password_hash: Option<Seq<char>>,
    now: i64,
) -> DocV {
    identity_document_of(account_id, IdentityKind::User, user_name).with(
        "password_hash"@,
        opt_text_bson(password_hash),
    ).with("tags"@, BsonV::Doc(DocV::empty())).with("created_at"@, BsonV::DateTime(now))
}

/// Where the creation of a user stands.
#[derive(Debug, PartialEq)]
pub enum CreateUserState {
    Inserting { account_id: String, user_name: String, now: i64 },
    SeedingPolicy,
}

/// How the creation of a user goes on with an answer.
pub open spec fn create_user_goes_on(
    state: CreateUserState,
    reply: Reply,
    step: OpStep<CreateUserState, ()>,
) -> bool {
    match state {
        CreateUserState::Inserting { account_id, user_name, now } => match inserted_said(
            reply,
            "IAM user already exists"@,
        ) {
            Err(e) => op_fails(step, e),
            Ok(_) => op_runs(
                step,
                CreateUserState::SeedingPolicy,
                seed_policy_of(account_id@, user_name@, now),
            ),
        },
        CreateUserState::SeedingPolicy => step matches OpStep::Done(r) && op_unit(r)
            == performed_said(reply),
    }
}

fn self_service_policy(account_id: &str, user_name: &str) -> (r: Bson)
    ensures
        r@ == self_service_policy_of(account_id@, user_name@),
{
    let mut actions: Vec<Bson> = Vec::new();
    actions.push(Bson::text("iam:CreateAccessKey"));
    actions.push(Bson::text("iam:DeleteAccessKey"));
    actions.push(Bson::text("iam:ListAccessKeys"));
    actions.push(Bson::text("iam:ChangePassword"));
    assert(crate::bson::bson_seq(actions@) =~= seq![
        BsonV::Str("iam:CreateAccessKey"@),
        BsonV::Str("iam:DeleteAccessKey"@),
        BsonV::Str("iam:ListAccessKeys"@),
        BsonV::Str("iam:ChangePassword"@),
    ]);
    let statement = Document::new().with("Effect", Bson::text("Allow")).with(
        "Action",
        Bson::array(actions),
    ).with("Resource", Bson::String(identity_arn(account_id, IdentityKind::User, user_name)));
    Bson::Document(
        Document::new().with("Version", Bson::text("2012-10-17")).with(
            "Statement",
            Bson::array1(Bson::Document(statement)),
        ),
    )
}

/// Begins the creation of a user; `now` is the time in milliseconds.
pub fn create_user_start(
    account_id: &str,
    user_name: &str,
    password_hash: Option<&str>,
    now: i64,
) -> (step: OpStep<CreateUserState, ()>)
    ensures
        step matches OpStep::Do(
            CreateUserState::Inserting { account_id: a, user_name: n, now: t },
            c,
        ) && a@ == account_id@ && n@ == user_name@ && t == now && c@ == insert_of(
            "iam_users"@,
            user_document_of(account_id@, user_name@, opt_text(password_hash), now),
        ),
{
    let hash = match password_hash {
        Some(h) => Bson::text(h),
        None => Bson::Null,
    };
    let document = identity_document(account_id, IdentityKind::User, user_name).with(
        "password_hash",
        hash,
    ).with("tags", Bson::Document(Document::new())).with("created_at", Bson::DateTime(now));
    OpStep::Do(
        CreateUserState::Inserting {
            account_id: account_id.to_owned(),
            user_name: user_name.to_owned(),
            now,
        },
        insert("iam_users", document),
    )
}

/// Goes on with the creation of a user.
pub fn create_user_next(state: CreateUserState, reply: &Reply) -> (step: OpStep<
    CreateUserState,
    (),
>)
    ensures
        create_user_goes_on(state, *reply, step),
{
    match state {
        CreateUserState::Inserting { account_id, user_name, now } => match inserted(
            reply,
            "IAM user already exists",
        ) {
            Err(e) => OpStep::Done(Err(e)),
            Ok(_) => {
                let filter = policy_filter(
                    account_id.as_str(),
                    "user",
                    user_name.as_str(),
                    "SelfServicePolicy",
                );
                let fields = Document::new().with(
                    "policy_document",
                    self_service_policy(account_id.as_str(), user_name.as_str()),
                ).with("created_at", Bson::DateTime(now));
                OpStep::Do(
                    CreateUserState::SeedingPolicy,
                    Command::Update {
                        at: Place::catalog("iam_policies"),
                        filter,
                        update: Document::new().with("$setOnInsert", Bson::Document(fields)),
                        upsert: true,
                    },
                )
            },
        },
        CreateUserState::SeedingPolicy => OpStep::Done(performed(reply)),
    }
}

// --- Deleting a user -----------------------------------------------------------------

/// Where the deletion of a user stands.
#[derive(Debug, PartialEq)]
pub enum DeleteUserState {
    Removing { account_id: String, user_name: String },
    /// What belongs to the user is being removed.
    Cascading(Script),
}

/// The filter that finds the groups of a user.
pub open spec fn groups_filter_of(account_id: Seq<char>, user_name: Seq<char>) -> DocV {
    by2("_id.account_id"@, account_id, "members"@, user_name)
}

/// The filter that finds the groups of a user.
pub fn groups_filter(account_id: &str, user_name: &str) -> (r: Document)
    ensures
        r@ == groups_filter_of(account_id@, user_name@),
{
    filter2("_id.account_id", account_id, "members", user_name)
}

/// The commands that remove the keys, policies and memberships of a user. A
/// refusal is passed over.
pub open spec fn cascade_lines(account_id: Seq<char>, user_name: Seq<char>) -> Seq<
    (CommandV, bool),
> {
    let of_user = identity_names_of(account_id, IdentityKind::User, user_name);
    seq![
        (CommandV::DeleteMany { at: in_catalog("access_keys"@), filter: of_user }, false),
        (
            CommandV::DeleteMany {
                at: in_catalog("iam_policies"@),
                filter: policies_filter_of(account_id, "user"@, user_name),
            },
            false,
        ),
        (
            CommandV::UpdateMany {
                at: in_catalog("iam_groups"@),
                filter: groups_filter_of(account_id, user_name),
                update: doc1("$pull"@, obj1("members"@, BsonV::Str(user_name))),
            },
            false,
        ),
    ]
}

/// The deletion of a user takes the turn of the script that removes what
/// belongs to them.
pub open spec fn cascade_turns(turn: Turn, step: OpStep<DeleteUserState, ()>) -> bool {
    match turn {
        Turn::Perform(s, c) => op_runs(step, DeleteUserState::Cascading(s), c@),
        _ => step == OpStep::<DeleteUserState, ()>::Done(Ok(())),
    }
}

/// How the deletion of a user goes on with an answer.
pub open spec fn delete_user_goes_on(
    state: DeleteUserState,
    reply: Reply,
    step: OpStep<DeleteUserState, ()>,
) -> bool {
    match state {
        DeleteUserState::Removing { account_id, user_name } => match removed_said(
            reply,
            "IAM user not found"@,
        ) {
            Err(e) => op_fails(step, e),
            Ok(_) => exists|turn: Turn|
                turns_to(cascade_lines(account_id@, user_name@), turn) && #[trigger] cascade_turns(
                    turn,
                    step,
                ),
        },
        DeleteUserState::Cascading(script) => exists|turn: Turn|
            script_goes_on(script, reply, turn) && #[trigger] cascade_turns(turn, step),
    }
}

/// Begins the deletion of a user.
pub fn delete_user_start(account_id: &str, user_name: &str) -> (step: OpStep<DeleteUserState, ()>)
    ensures
        step matches OpStep::Do(DeleteUserState::Removing { account_id: a, user_name: n }, c) && a@
            == account_id@ && n@ == user_name@ && c@ == remove_of(
            "iam_users"@,
            identity_filter_of(account_id@, IdentityKind::User, user_name@),
        ),
{
    OpStep::Do(
        DeleteUserState::Removing {
            account_id: account_id.to_owned(),
            user_name: user_name.to_owned(),
        },
        remove("iam_users", identity_filter(account_id, IdentityKind::User, user_name)),
    )
}

fn build_cascade(account_id: &str, user_name: &str) -> (r: Vec<Line>)
    ensures
        line_seq(r@) == cascade_lines(account_id@, user_name@),
{
    let mut lines = no_lines();
    add_line(
        &mut lines,
        may(
            Command::DeleteMany {
                at: Place::catalog("access_keys"),
                filter: identity_names(account_id, IdentityKind::User, user_name),
            },
        ),
    );
    add_line(
        &mut lines,
        may(
            Command::DeleteMany {
                at: Place::catalog("iam_policies"),
                filter: policies_filter(account_id, "user", user_name),
            },
        ),
    );
    add_line(
        &mut lines,
        may(
            Command::UpdateMany {
                at: Place::catalog("iam_groups"),
                filter: groups_filter(account_id, user_name),
                update: Document::new().with("$pull", Bson::obj1("members", Bson::text(user_name))),
            },
        ),
    );
    assert(line_seq(lines@) =~= cascade_lines(account_id@, user_name@));
    lines
}

fn take_turn(turn: Turn) -> (step: OpStep<DeleteUserState, ()>)
    ensures
        cascade_turns(turn, step),
{
    match turn {
        Turn::Perform(s, c) => OpStep::Do(DeleteUserState::Cascading(s), c),
        _ => OpStep::Done(Ok(())),
    }
}

/// Goes on with the deletion of a user.
pub fn delete_user_next(state: DeleteUserState, reply: Reply) -> (step: OpStep<DeleteUserState, ()>)
    ensures
        delete_user_goes_on(state, reply, step),
{
    match state {
        DeleteUserState::Removing { account_id, user_name } => match removed(
            &reply,
            "IAM user not found",
        ) {
            Err(e) => OpStep::Done(Err(e)),
            Ok(_) => {
                let turn = script_start(build_cascade(account_id.as_str(), user_name.as_str()));
                take_turn(turn)
            },
        },
        DeleteUserState::Cascading(script) => {
            let turn = script_next(script, reply);
            take_turn(turn)
        },
    }
}

// --- Groups and roles ----------------------------------------------------------------

/// The command that creates a group.
pub fn create_group_command(account_id: &str, group_name: &str, now: i64) -> (r: Command)
    ensures
        r@ == insert_of(
            "iam_groups"@,
            identity_document_of(account_id@, IdentityKind::Group, group_name@).with(
                "members"@,
                BsonV::Array(Seq::empty()),
            ).with("created_at"@, BsonV::DateTime(now)),
        ),
{
    let none: Vec<Bson> = Vec::new();
    assert(crate::bson::bson_seq(none@) =~= Seq::empty());
    insert(
        "iam_groups",
        identity_document(account_id, IdentityKind::Group, group_name).with(
            "members",
            Bson::array(none),
        ).with("created_at", Bson::DateTime(now)),
    )
}

/// The command that creates a role.
pub fn create_role_command(account_id: &str, role_name: &str, trust_policy: &Bson, now: i64) -> (r:
    Command)
    ensures
        r@ == insert_of(
            "iam_roles"@,
            identity_document_of(account_id@, IdentityKind::Role, role_name@).with(
                "trust_policy"@,
                trust_policy@,
            ).with("permissions_boundary_arn"@, BsonV::Null).with(
                "tags"@,
                BsonV::Doc(DocV::empty()),
            ).with("created_at"@, BsonV::DateTime(now)),
        ),
{
    insert(
        "iam_roles",
        identity_document(account_id, IdentityKind::Role, role_name).with(
            "trust_policy",
            copy_bson(trust_policy),
        ).with("permissions_boundary_arn", Bson::Null).with(
            "tags",
            Bson::Document(Document::new()),
        ).with("created_at", Bson::DateTime(now)),
    )
}

/// Reads the answer to the creation of an identity.
pub fn create_identity_reply(k: IdentityKind, reply: &Reply) -> (r: Result<(), OpError>)
    ensures
        op_unit(r) == inserted_said(*reply, exists_text(k)),
{
    match k {
        IdentityKind::User => inserted(reply, "IAM user already exists"),
        IdentityKind::Group => inserted(reply, "IAM group already exists"),
        IdentityKind::Role => inserted(reply, "IAM role already exists"),
    }
}

/// The command that deletes a group or a role.
pub fn delete_identity_command(k: IdentityKind, account_id: &str, name: &str) -> (r: Command)
    ensures
        r@ == remove_of(collection_of(k), identity_filter_of(account_id@, k, name@)),
{
    remove(collection(k), identity_filter(account_id, k, name))
}

/// Reads the answer to the deletion of a group or a role.
pub fn delete_identity_reply(k: IdentityKind, reply: &Reply) -> (r: Result<(), OpError>)
    ensures
        op_unit(r) == removed_said(*reply, missing_text(k)),
{
    match k {
        IdentityKind::User => removed(reply, "IAM user not found"),
        IdentityKind::Group => removed(reply, "IAM group not found"),
        IdentityKind::Role => removed(reply, "IAM role not found"),
    }
}

/// The filter that finds a group which does not have a member.
pub open spec fn without_member_of(
    account_id: Seq<char>,
    group_name: Seq<char>,
    user_name: Seq<char>,
) -> DocV {
    identity_filter_of(account_id, IdentityKind::Group, group_name).with(
        "members"@,
        obj1("$ne"@, BsonV::Str(user_name)),
    )
}

/// The command that adds a user to a group they are not in, among its members
/// in the order of their names.
pub open spec fn join_group_of(
    account_id: Seq<char>,
    group_name: Seq<char>,
    user_name: Seq<char>,
) -> CommandV {
    CommandV::Update {
        at: in_catalog("iam_groups"@),
        filter: without_member_of(account_id, group_name, user_name),
        update: doc1(
            "$push"@,
            obj1(
                "members"@,
                BsonV::Doc(
                    doc1("$each"@, BsonV::Array(seq![BsonV::Str(user_name)])).with(
                        "$sort"@,
                        BsonV::Int32(1),
                    ),
                ),
            ),
        ),
        upsert: false,
    }
}

/// Where the addition of a user to a group stands.
#[derive(Debug, PartialEq)]
pub enum JoinState {
    Joining { account_id: String, group_name: String },
    /// The group took nobody in, and is being looked up.
    LookingUp,
}

/// How the addition of a user to a group goes on with an answer. A group that
/// took nobody in has the user already, or does not exist.
pub open spec fn join_goes_on(state: JoinState, reply: Reply, step: OpStep<JoinState, ()>) -> bool {
    match state {
        JoinState::Joining { account_id, group_name } => match reply {
            Reply::Matched(n) => if n == 0 {
                op_runs(
                    step,
                    JoinState::LookingUp,
                    find_identity_of(IdentityKind::Group, account_id@, group_name@),
                )
            } else {
                step == OpStep::<JoinState, ()>::Done(Ok(()))
            },
            Reply::Failed(_) => op_fails(step, refused()),
            _ => op_fails(step, misplaced()),
        },
        JoinState::LookingUp => match found_said(reply) {
            Ok(Some(_)) => op_fails(
                step,
                OpErrV::AlreadyExists("User is already a member of this group"@),
            ),
            Ok(None) => op_fails(step, OpErrV::NotFound("IAM group not found"@)),
            Err(e) => op_fails(step, e),
        },
    }
}

/// Begins the addition of a user to a group.
pub fn add_group_member_start(account_id: &str, group_name: &str, user_name: &str) -> (step: OpStep<
    JoinState,
    (),
>)
    ensures
        step matches OpStep::Do(JoinState::Joining { account_id: a, group_name: g }, c) && a@
            == account_id@ && g@ == group_name@ && c@ == join_group_of(
            account_id@,
            group_name@,
            user_name@,
        ),
{
    let filter = identity_filter(account_id, IdentityKind::Group, group_name).with(
        "members",
        Bson::obj1("$ne", Bson::text(user_name)),
    );
    let added = Document::new().with("$each", Bson::array1(Bson::text(user_name))).with(
        "$sort",
        Bson::Int32(1),
    );
    OpStep::Do(
        JoinState::Joining {
            account_id: account_id.to_owned(),
            group_name: group_name.to_owned(),
        },
        Command::Update {
            at: Place::catalog("iam_groups"),
            filter,
            update: Document::new().with("$push", Bson::obj1("members", Bson::Document(added))),
            upsert: false,
        },
    )
}

/// Goes on with the addition of a user to a group.
pub fn add_group_member_next(state: JoinState, reply: Reply) -> (step: OpStep<JoinState, ()>)
    ensures
        join_goes_on(state, reply, step),
{
    match state {
        JoinState::Joining { account_id, group_name } => match reply {
            Reply::Matched(n) => if n == 0 {
                OpStep::Do(
                    JoinState::LookingUp,
                    find_identity_command(
                        IdentityKind::Group,
                        account_id.as_str(),
                        group_name.as_str(),
                    ),
                )
            } else {
                OpStep::Done(Ok(()))
            },
            Reply::Failed(_) => OpStep::Done(Err(database_error())),
            _ => OpStep::Done(Err(misplaced_reply())),
        },
        JoinState::LookingUp => match found(reply) {
            Ok(Some(_)) => OpStep::Done(
                Err(OpError::AlreadyExists("User is already a member of this group".to_owned())),
            ),
            Ok(None) => OpStep::Done(Err(OpError::NotFound("IAM group not found".to_owned()))),
            Err(e) => OpStep::Done(Err(e)),
        },
    }
}

/// The command that removes a user from a group they are in.
pub open spec fn leave_group_of(
    account_id: Seq<char>,
    group_name: Seq<char>,
    user_name: Seq<char>,
) -> CommandV {
    CommandV::Update {
        at: in_catalog("iam_groups"@),
        filter: identity_filter_of(account_id, IdentityKind::Group, group_name).with(
            "members"@,
            BsonV::Str(user_name),
        ),
        update: doc1("$pull"@, obj1("members"@, BsonV::Str(user_name))),
        upsert: false,
    }
}

/// The command that removes a user from a group they are in.
pub fn remove_group_member_command(account_id: &str, group_name: &str, user_name: &str) -> (r:
    Command)
    ensures
        r@ == leave_group_of(account_id@, group_name@, user_name@),
{
    Command::Update {
        at: Place::catalog("iam_groups"),
        filter: identity_filter(account_id, IdentityKind::Group, group_name).with(
            "members",
            Bson::text(user_name),
        ),
        update: Document::new().with("$pull", Bson::obj1("members", Bson::text(user_name))),
        upsert: false,
    }
}

/// Reads the answer to the removal of a user from a group.
pub fn remove_group_member_reply(reply: &Reply) -> (r: Result<(), OpError>)
    ensures
        op_unit(r) == changed_said(*reply, "Membership not found"@),
{
    changed(reply, "Membership not found")
}

// --- Listing -------------------------------------------------------------------------

/// The command that lists the identities of an account by their names.
pub fn list_identities_command(k: IdentityKind, account_id: &str) -> (r: Command)
    ensures
        r@ == ordered_of(collection_of(k), by1("_id.account_id"@, account_id@), listing_field(k)),
{
    ordered(collection(k), filter1("_id.account_id", account_id), listing_key(k))
}

/// An identity in a list.
#[derive(Debug, PartialEq)]
pub struct IdentityEntry {
    pub account_id: String,
    pub name: String,
    pub arn: String,
    /// Whether a user has a password.
    pub has_password: bool,
    /// The trust policy of a role.
    pub trust_policy: Option<Bson>,
    /// The time of the creation in milliseconds.
    pub created_at: i64,
}

/// The model of an identity in a list.
#[verifier::ext_equal]
pub struct IdentityV {
    pub account_id: Seq<char>,
    pub name: Seq<char>,
    pub arn: Seq<char>,
    pub has_password: bool,
    pub trust_policy: Option<BsonV>,
    pub created_at: i64,
}

/// The model of a value that may be absent.
pub open spec fn opt_bson(b: Option<Bson>) -> Option<BsonV> {
    match b {
        Some(b) => Some(b@),
        None => None,
    }
}

impl View for IdentityEntry {
    type V = IdentityV;

    open spec fn view(&self) -> IdentityV {
        IdentityV {
            account_id: self.account_id@,
            name: self.name@,
            arn: self.arn@,
            has_password: self.has_password,
            trust_policy: opt_bson(self.trust_policy),
            created_at: self.created_at,
        }
    }
}

/// The identity that a document describes. A role without a trust policy is
/// none.
pub open spec fn identity_of(k: IdentityKind, d: DocV) -> Option<IdentityV> {
    match (
        key_part(d, "account_id"@),
        key_part(d, name_field(k)),
        d.get_str(arn_field(k)),
        d.get_datetime("created_at"@),
    ) {
        (Some(account_id), Some(name), Some(arn), Some(created_at)) => if k == IdentityKind::Role
            && d.get("trust_policy"@) is None {
            None
        } else {
            Some(
                IdentityV {
                    account_id,
                    name,
                    arn,
                    has_password: k == IdentityKind::User && d.get_str("password_hash"@) is Some,
                    trust_policy: if k == IdentityKind::Role {
                        d.get("trust_policy"@)
                    } else {
                        None
                    },
                    created_at,
                },
            )
        },
        _ => None,
    }
}

/// The identities that documents describe.
pub open spec fn identities_of(k: IdentityKind, docs: Seq<DocV>) -> Seq<IdentityV>
    decreases docs.len(),
{
    if docs.len() == 0 {
        Seq::empty()
    } else {
        let rest = identities_of(k, docs.drop_last());
        match identity_of(k, docs.last()) {
            Some(x) => rest.push(x),
            None => rest,
        }
    }
}

/// The models of a list of identities.
pub open spec fn identity_seq(v: Seq<IdentityEntry>) -> Seq<IdentityV> {
    Seq::new(v.len(), |i: int| v[i]@)
}

fn read_identity(k: IdentityKind, d: &Document) -> (r: Option<IdentityEntry>)
    ensures
        match r {
            Some(x) => identity_of(k, d@) == Some(x@),
            None => identity_of(k, d@) is None,
        },
{
    match (
        read_key_part(d, "account_id"),
        read_key_part(d, name_key(k)),
        d.get_str(arn_key(k)),
        d.get_datetime("created_at"),
    ) {
        (Some(account_id), Some(name), Some(arn), Some(created_at)) => {
            let has_password = match k {
                IdentityKind::User => d.get_str("password_hash").is_some(),
                _ => false,
            };
            let trust_policy = match k {
                IdentityKind::Role => match d.get("trust_policy") {
                    Some(b) => Some(copy_bson(b)),
                    None => {
                        return None;
                    },
                },
                _ => None,
            };
            Some(
                IdentityEntry {
                    account_id: account_id.to_owned(),
                    name: name.to_owned(),
                    arn: arn.to_owned(),
                    has_password,
                    trust_policy,
                    created_at,
                },
            )
        },
        _ => None,
    }
}

/// Reads a list of identities.
pub fn list_identities_reply(k: IdentityKind, reply: Reply) -> (r: Result<
    Vec<IdentityEntry>,
    OpError,
>)
    ensures
        match (r, listed_said(reply)) {
            (Ok(v), Ok(docs)) => identity_seq(v@) == identities_of(k, docs),
            (Err(e), Err(x)) => e@ == x,
            _ => false,
        },
{
    let docs = match listed(reply) {
        Ok(docs) => docs,
        Err(e) => {
            return Err(e);
        },
    };
    let ghost ds = doc_seq(docs@);
    let mut out: Vec<IdentityEntry> = Vec::new();
    let mut i: usize = 0;
    assert(ds.take(0) =~= Seq::empty());
    assert(identity_seq(out@) =~= Seq::empty());
    while i < docs.len()
        invariant
            i <= docs.len(),
            ds == doc_seq(docs@),
            identity_seq(out@) == identities_of(k, ds.take(i as int)),
        decreases docs.len() - i,
    {
        proof {
            assert(ds.take(i + 1).drop_last() =~= ds.take(i as int));
            assert(ds.take(i + 1).last() == docs@[i as int]@);
        }
        if let Some(x) = read_identity(k, &docs[i]) {
            let ghost before = out@;
            out.push(x);
            assert(identity_seq(out@) =~= identity_seq(before).push(x@));
        }
        i += 1;
    }
    assert(ds.take(ds.len() as int) =~= ds);
    Ok(out)
}

// --- Details -------------------------------------------------------------------------

/// The command that looks an identity up.
pub open spec fn find_identity_of(k: IdentityKind, account_id: Seq<char>, name: Seq<char>) -> CommandV {
    lookup_of(collection_of(k), identity_filter_of(account_id, k, name))
}

/// The command that looks an identity up.
pub fn find_identity_command(k: IdentityKind, account_id: &str, name: &str) -> (r: Command)
    ensures
        r@ == find_identity_of(k, account_id@, name@),
{
    lookup(collection(k), identity_filter(account_id, k, name))
}

/// The query of the policies of an identity by their names.
pub open spec fn policies_of(k: IdentityKind, account_id: Seq<char>, name: Seq<char>) -> CommandV {
    ordered_of(
        "iam_policies"@,
        policies_filter_of(account_id, kind_text(k), name),
        "_id.policy_name"@,
    )
}

fn policies(k: IdentityKind, account_id: &str, name: &str) -> (r: Command)
    ensures
        r@ == policies_of(k, account_id@, name@),
{
    ordered("iam_policies", policies_filter(account_id, kind_word(k), name), "_id.policy_name")
}

/// What is known of a user.
#[derive(Debug, PartialEq)]
pub struct UserDetail {
    /// The identifiers of the access keys, and whether they are active.
    pub keys: Vec<(String, bool)>,
    pub policies: Vec<String>,
    pub tags: Vec<(String, String)>,
    pub groups: Vec<String>,
}

/// The queries that belong to a user.
pub open spec fn user_queries(account_id: Seq<char>, user_name: Seq<char>) -> Seq<CommandV> {
    let of_user = identity_names_of(account_id, IdentityKind::User, user_name);
    seq![
        ordered_of("access_keys"@, of_user, "_id"@),
        policies_of(IdentityKind::User, account_id, user_name),
        ordered_of("iam_groups"@, groups_filter_of(account_id, user_name), "_id.group_name"@),
    ]
}

/// Begins gathering what is known of a user.
pub fn user_detail_start(account_id: &str, user_name: &str) -> (step: OpStep<
    GatherState,
    Option<Gathered>,
>)
    ensures
        gathers(
            step,
            find_identity_of(IdentityKind::User, account_id@, user_name@),
            user_queries(account_id@, user_name@),
        ),
{
    let k = IdentityKind::User;
    let mut queries: Vec<Command> = Vec::new();
    queries.push(
        ordered("access_keys", identity_names(account_id, k, user_name), "_id"),
    );
    queries.push(policies(k, account_id, user_name));
    queries.push(ordered("iam_groups", groups_filter(account_id, user_name), "_id.group_name"));
    assert(command_seq(queries@) =~= user_queries(account_id@, user_name@));
    gather_start(find_identity_command(k, account_id, user_name), queries)
}

/// The access keys that documents describe: their identifiers, and whether
/// they are active.
pub open spec fn keys_of(docs: Seq<DocV>) -> Seq<(Seq<char>, bool)>
    decreases docs.len(),
{
    if docs.len() == 0 {
        Seq::empty()
    } else {
        let rest = keys_of(docs.drop_last());
        match docs.last().get_str("_id"@) {
            Some(id) => rest.push((id, bool_or(docs.last(), "is_active"@, true))),
            None => rest,
        }
    }
}

/// The models of a list of keys.
pub open spec fn key_seq(v: Seq<(String, bool)>) -> Seq<(Seq<char>, bool)> {
    Seq::new(v.len(), |i: int| (v[i].0@, v[i].1))
}

fn read_keys(docs: &Vec<Document>) -> (r: Vec<(String, bool)>)
    ensures
        key_seq(r@) == keys_of(doc_seq(docs@)),
{
    let ghost ds = doc_seq(docs@);
    let mut out: Vec<(String, bool)> = Vec::new();
    let mut i: usize = 0;
    assert(ds.take(0) =~= Seq::empty());
    assert(key_seq(out@) =~= Seq::empty());
    while i < docs.len()
        invariant
            i <= docs.len(),
            ds == doc_seq(docs@),
            key_seq(out@) == keys_of(ds.take(i as int)),
        decreases docs.len() - i,
    {
        proof {
            assert(ds.take(i + 1).drop_last() =~= ds.take(i as int));
            assert(ds.take(i + 1).last() == docs@[i as int]@);
        }
        if let Some(id) = docs[i].get_str("_id") {
            let active = match docs[i].get_bool("is_active") {
                Some(b) => b,
                None => true,
            };
            let ghost before = out@;
            out.push((id.to_owned(), active));
            assert(key_seq(out@) =~= key_seq(before).push((id@, active)));
        }
        i += 1;
    }
    assert(ds.take(ds.len() as int) =~= ds);
    out
}

/// What was gathered of a user.
pub fn user_detail(g: &Gathered) -> (r: UserDetail)
    ensures
        key_seq(r.keys@) == keys_of(nth_list(list_seq(g.lists@), 0)),
        text_seq(r.policies@) == key_parts(nth_list(list_seq(g.lists@), 1), "policy_name"@),
        is_listing(pair_seq(r.tags@), tags_in(g.head@)),
        text_seq(r.groups@) == key_parts(nth_list(list_seq(g.lists@), 2), "group_name"@),
{
    let keys = if g.lists.len() > 0 {
        read_keys(&g.lists[0])
    } else {
        let none: Vec<Document> = Vec::new();
        assert(doc_seq(none@) =~= Seq::empty());
        read_keys(&none)
    };
    UserDetail {
        keys,
        policies: gathered_key_parts(g, 1, "policy_name"),
        tags: read_tags(&g.head),
        groups: gathered_key_parts(g, 2, "group_name"),
    }
}

/// The texts among values.
pub open spec fn texts_among(a: Seq<BsonV>) -> Seq<Seq<char>>
    decreases a.len(),
{
    if a.len() == 0 {
        Seq::empty()
    } else {
        let rest = texts_among(a.drop_last());
        match a.last() {
            BsonV::Str(s) => rest.push(s),
            _ => rest,
        }
    }
}

/// The members of a group.
pub open spec fn members_in(d: DocV) -> Seq<Seq<char>> {
    match d.get_array("members"@) {
        Some(a) => texts_among(a),
        None => Seq::empty(),
    }
}

fn read_members(d: &Document) -> (r: Vec<String>)
    ensures
        text_seq(r@) == members_in(d@),
{
    let mut out: Vec<String> = Vec::new();
    assert(text_seq(out@) =~= Seq::empty());
    if let Some(a) = d.get_array("members") {
        let ghost s = crate::bson::bson_seq(a@);
        let mut i: usize = 0;
        assert(s.take(0) =~= Seq::empty());
        while i < a.len()
            invariant
                i <= a.len(),
                s == crate::bson::bson_seq(a@),
                text_seq(out@) == texts_among(s.take(i as int)),
            decreases a.len() - i,
        {
            proof {
                assert(s.take(i + 1).drop_last() =~= s.take(i as int));
                assert(s.take(i + 1).last() == a@[i as int]@);
            }
            if let Bson::String(t) = &a[i] {
                let ghost before = out@;
                out.push(t.clone());
                assert(text_seq(out@) =~= text_seq(before).push(t@));
            }
            i += 1;
        }
        assert(s.take(s.len() as int) =~= s);
    }
    out
}

/// What is known of a group.
#[derive(Debug, PartialEq)]
pub struct GroupDetail {
    pub members: Vec<String>,
    pub policies: Vec<String>,
    pub all_users: Vec<String>,
}

/// The queries that belong to a group.
pub open spec fn group_queries(account_id: Seq<char>, group_name: Seq<char>) -> Seq<CommandV> {
    seq![
        policies_of(IdentityKind::Group, account_id, group_name),
        ordered_of("iam_users"@, by1("_id.account_id"@, account_id), "_id.user_name"@),
    ]
}

/// Begins gathering what is known of a group.
pub fn group_detail_start(account_id: &str, group_name: &str) -> (step: OpStep<
    GatherState,
    Option<Gathered>,
>)
    ensures
        gathers(
            step,
            find_identity_of(IdentityKind::Group, account_id@, group_name@),
            group_queries(account_id@, group_name@),
        ),
{
    let k = IdentityKind::Group;
    let mut queries: Vec<Command> = Vec::new();
    queries.push(policies(k, account_id, group_name));
    queries.push(ordered("iam_users", filter1("_id.account_id", account_id), "_id.user_name"));
    assert(command_seq(queries@) =~= group_queries(account_id@, group_name@));
    gather_start(find_identity_command(k, account_id, group_name), queries)
}

/// What was gathered of a group.
pub fn group_detail(g: &Gathered) -> (r: GroupDetail)
    ensures
        text_seq(r.members@) == members_in(g.head@),
        text_seq(r.policies@) == key_parts(nth_list(list_seq(g.lists@), 0), "policy_name"@),
        text_seq(r.all_users@) == key_parts(nth_list(list_seq(g.lists@), 1), "user_name"@),
{
    GroupDetail {
        members: read_members(&g.head),
        policies: gathered_key_parts(g, 0, "policy_name"),
        all_users: gathered_key_parts(g, 1, "user_name"),
    }
}

/// What is known of a role.
#[derive(Debug, PartialEq)]
pub struct RoleDetail {
    pub trust_policy: Bson,
    pub policies: Vec<String>,
    pub tags: Vec<(String, String)>,
}

/// The queries that belong to a role.
pub open spec fn role_queries(account_id: Seq<char>, role_name: Seq<char>) -> Seq<CommandV> {
    seq![
        policies_of(IdentityKind::Role, account_id, role_name),
    ]
}

/// Begins gathering what is known of a role.
pub fn role_detail_start(account_id: &str, role_name: &str) -> (step: OpStep<
    GatherState,
    Option<Gathered>,
>)
    ensures
        gathers(
            step,
            find_identity_of(IdentityKind::Role, account_id@, role_name@),
            role_queries(account_id@, role_name@),
        ),
{
    let k = IdentityKind::Role;
    let mut queries: Vec<Command> = Vec::new();
    queries.push(policies(k, account_id, role_name));
    assert(command_seq(queries@) =~= role_queries(account_id@, role_name@));
    gather_start(find_identity_command(k, account_id, role_name), queries)
}

/// What was gathered of a role. A role without a trust policy has the empty
/// one.
pub fn role_detail(g: &Gathered) -> (r: RoleDetail)
    ensures
        r.trust_policy@ == crate::backup::or_null(g.head@.get("trust_policy"@)),
        text_seq(r.policies@) == key_parts(nth_list(list_seq(g.lists@), 0), "policy_name"@),
        is_listing(pair_seq(r.tags@), tags_in(g.head@)),
{
    RoleDetail {
        trust_policy: match g.head.get("trust_policy") {
            Some(b) => copy_bson(b),
            None => Bson::Null,
        },
        policies: gathered_key_parts(g, 0, "policy_name"),
        tags: read_tags(&g.head),
    }
}

/// Reads the trust policy of a role from the answer to its lookup.
pub fn role_trust_policy_reply(reply: Reply) -> (r: Result<Option<Bson>, OpError>)
    ensures
        match (r, found_said(reply)) {
            (Ok(b), Ok(Some(d))) => opt_bson(b) == d.get("trust_policy"@),
            (Ok(b), Ok(None)) => b is None,
            (Err(e), Err(x)) => e@ == x,
            _ => false,
        },
{
    match found(reply) {
        Ok(Some(d)) => Ok(
            match d.get("trust_policy") {
                Some(b) => Some(copy_bson(b)),
                None => None,
            },
        ),
        Ok(None) => Ok(None),
        Err(e) => Err(e),
    }
}

// --- Passwords -----------------------------------------------------------------------

/// What the answer to the lookup of a user says of a password: whether it is
/// that of the user. A user without a password has none.
pub open spec fn user_password_said(reply: Reply, password: Seq<char>) -> Result<bool, OpErrV> {
    match found_said(reply) {
        Err(e) => Err(e),
        Ok(None) => Ok(false),
        Ok(Some(d)) => match d.get_str("password_hash"@) {
            Some(h) => Ok(is_accepted(password, h)),
            None => Ok(false),
        },
    }
}

/// Checks the password of a user, from the answer to their lookup.
pub fn verify_user_password_reply(reply: Reply, password: &str) -> (r: Result<bool, OpError>)
    ensures
        match r {
            Ok(b) => user_password_said(reply, password@) == Ok::<bool, OpErrV>(b),
            Err(e) => user_password_said(reply, password@) == Err::<bool, OpErrV>(e@),
        },
{
    match found(reply) {
        Err(e) => Err(e),
        Ok(None) => Ok(false),
        Ok(Some(d)) => match d.get_str("password_hash") {
            Some(h) => Ok(password_matches(password, h)),
            None => Ok(false),
        },
    }
}

/// The command that changes the password of a user.
pub fn change_user_password_command(account_id: &str, user_name: &str, password_hash: &str) -> (r:
    Command)
    ensures
        r@ == set_of(
            "iam_users"@,
            identity_filter_of(account_id@, IdentityKind::User, user_name@),
            by1("password_hash"@, password_hash@),
            false,
        ),
{
    set_fields(
        "iam_users",
        identity_filter(account_id, IdentityKind::User, user_name),
        filter1("password_hash", password_hash),
        false,
    )
}

/// Reads the answer to the change of the password of a user.
pub fn change_user_password_reply(reply: &Reply) -> (r: Result<(), OpError>)
    ensures
        op_unit(r) == changed_said(*reply, "IAM user not found"@),
{
    changed(reply, "IAM user not found")
}

// --- Tags ----------------------------------------------------------------------------

/// The identities that have tags.
#[derive(Debug, Clone, Copy, PartialEq, Eq, Structural)]
pub enum Tagged {
    User,
    Role,
}

/// The kind of an identity that has tags.
pub open spec fn tagged_kind(t: Tagged) -> IdentityKind {
    match t {
        Tagged::User => IdentityKind::User,
        Tagged::Role => IdentityKind::Role,
    }
}

/// The tags of an identity.
pub open spec fn tags_in(d: DocV) -> Seq<(Seq<char>, Seq<char>)> {
    match d.get_document("tags"@) {
        Some(t) => field_tags(t.entries),
        None => Seq::empty(),
    }
}

/// Tags are listed by their keys.
pub open spec fn is_listing(
    r: Seq<(Seq<char>, Seq<char>)>,
    tags: Seq<(Seq<char>, Seq<char>)>,
) -> bool {
    is_in_order(r) && r.to_multiset() == tags.to_multiset()
}

/// The tags of an identity by their keys.
fn read_tags(d: &Document) -> (r: Vec<(String, String)>)
    ensures
        is_listing(pair_seq(r@), tags_in(d@)),
{
    match d.get_document("tags") {
        Some(t) => in_order(read_field_tags(t)),
        None => {
            let none: Vec<(String, String)> = Vec::new();
            assert(pair_seq(none@) =~= Seq::empty());
            none
        },
    }
}

fn kind_of(t: Tagged) -> (r: IdentityKind)
    ensures
        r == tagged_kind(t),
{
    match t {
        Tagged::User => IdentityKind::User,
        Tagged::Role => IdentityKind::Role,
    }
}

/// A text that stands for itself in a pipeline.
pub open spec fn literal_of(s: Seq<char>) -> BsonV {
    obj1("$literal"@, BsonV::Str(s))
}

fn literal(s: &str) -> (r: Bson)
    ensures
        r@ == literal_of(s@),
{
    Bson::obj1("$literal", Bson::text(s))
}

/// The tags that an identity has so far.
pub open spec fn tags_so_far() -> BsonV {
    obj1("$ifNull"@, BsonV::Array(seq![BsonV::Str("$tags"@), BsonV::Doc(DocV::empty())]))
}

fn earlier_tags() -> (r: Bson)
    ensures
        r@ == tags_so_far(),
{
    Bson::obj1("$ifNull", Bson::array2(Bson::text("$tags"), Bson::Document(Document::new())))
}

/// The command that changes the tags of an identity to the value of an
/// expression.
pub open spec fn change_tags_of(
    t: Tagged,
    account_id: Seq<char>,
    name: Seq<char>,
    value: BsonV,
) -> CommandV {
    CommandV::UpdateWith {
        at: in_catalog(collection_of(tagged_kind(t))),
        filter: identity_filter_of(account_id, tagged_kind(t), name),
        stages: seq![doc1("$set"@, obj1("tags"@, value))],
    }
}

fn change_tags(t: Tagged, account_id: &str, name: &str, value: Bson) -> (r: Command)
    ensures
        r@ == change_tags_of(t, account_id@, name@, value@),
{
    let mut stages: Vec<Document> = Vec::new();
    stages.push(Document::new().with("$set", Bson::obj1("tags", value)));
    assert(doc_seq(stages@) =~= seq![doc1("$set"@, obj1("tags"@, value@))]);
    Command::UpdateWith {
        at: Place::catalog(collection(kind_of(t))),
        filter: identity_filter(account_id, kind_of(t), name),
        stages,
    }
}

/// The tags so far, with a value under a key. A key may hold dots and dollar
/// signs.
pub open spec fn with_tag(key: Seq<char>, value: Seq<char>) -> BsonV {
    obj1(
        "$setField"@,
        BsonV::Doc(
            doc1("field"@, literal_of(key)).with("input"@, tags_so_far()).with(
                "value"@,
                literal_of(value),
            ),
        ),
    )
}

/// The tags so far, without a key.
pub open spec fn without_tag(key: Seq<char>) -> BsonV {
    obj1(
        "$unsetField"@,
        BsonV::Doc(doc1("field"@, literal_of(key)).with("input"@, tags_so_far())),
    )
}

/// The commands that set tags of an identity, all of which have to succeed.
pub open spec fn tag_identity_lines(
    t: Tagged,
    account_id: Seq<char>,
    name: Seq<char>,
    tags: Seq<(Seq<char>, Seq<char>)>,
) -> Seq<(CommandV, bool)> {
    Seq::new(
        tags.len(),
        |i: int|
            (change_tags_of(t, account_id, name, with_tag(tags[i].0, tags[i].1)), true),
    )
}

/// The commands that remove tags of an identity, all of which have to
/// succeed.
pub open spec fn untag_identity_lines(
    t: Tagged,
    account_id: Seq<char>,
    name: Seq<char>,
    keys: Seq<Seq<char>>,
) -> Seq<(CommandV, bool)> {
    Seq::new(
        keys.len(),
        |i: int| (change_tags_of(t, account_id, name, without_tag(keys[i])), true),
    )
}

/// The script that sets tags of an identity.
pub fn tag_identity(t: Tagged, account_id: &str, name: &str, tags: &Vec<Tag>) -> (r: Vec<Line>)
    ensures
        line_seq(r@) == tag_identity_lines(t, account_id@, name@, tag_seq(tags@)),
{
    let ghost all = tag_identity_lines(t, account_id@, name@, tag_seq(tags@));
    let mut lines = no_lines();
    let mut i: usize = 0;
    assert(all.take(0) =~= Seq::empty());
    while i < tags.len()
        invariant
            i <= tags.len(),
            all == tag_identity_lines(t, account_id@, name@, tag_seq(tags@)),
            line_seq(lines@) == all.take(i as int),
        decreases tags.len() - i,
    {
        let tag = &tags[i];
        let change = Document::new().with("field", literal(tag.key.as_str())).with(
            "input",
            earlier_tags(),
        ).with("value", literal(tag.value.as_str()));
        let command = change_tags(
            t,
            account_id,
            name,
            Bson::obj1("$setField", Bson::Document(change)),
        );
        assert(command@ == all[i as int].0);
        add_line(&mut lines, must(command));
        assert(all.take(i as int).push(all[i as int]) =~= all.take(i + 1));
        i += 1;
    }
    assert(all.take(tags@.len() as int) =~= all);
    lines
}

/// The script that removes tags of an identity.
pub fn untag_identity(t: Tagged, account_id: &str, name: &str, keys: &Vec<String>) -> (r: Vec<Line>)
    ensures
        line_seq(r@) == untag_identity_lines(t, account_id@, name@, text_seq(keys@)),
{
    let ghost all = untag_identity_lines(t, account_id@, name@, text_seq(keys@));
    let mut lines = no_lines();
    let mut i: usize = 0;
    assert(all.take(0) =~= Seq::empty());
    while i < keys.len()
        invariant
            i <= keys.len(),
            all == untag_identity_lines(t, account_id@, name@, text_seq(keys@)),
            line_seq(lines@) == all.take(i as int),
        decreases keys.len() - i,
    {
        let change = Document::new().with("field", literal(keys[i].as_str())).with(
            "input",
            earlier_tags(),
        );
        let command = change_tags(
            t,
            account_id,
            name,
            Bson::obj1("$unsetField", Bson::Document(change)),
        );
        assert(command@ == all[i as int].0);
        add_line(&mut lines, must(command));
        assert(all.take(i as int).push(all[i as int]) =~= all.take(i + 1));
        i += 1;
    }
    assert(all.take(keys@.len() as int) =~= all);
    lines
}

/// The command that reads the tags of an identity.
pub open spec fn fetch_tags_of(t: Tagged, account_id: Seq<char>, name: Seq<char>) -> CommandV {
    find_identity_of(tagged_kind(t), account_id, name)
}

/// The command that reads the tags of an identity.
pub fn fetch_identity_tags_command(t: Tagged, account_id: &str, name: &str) -> (r: Command)
    ensures
        r@ == fetch_tags_of(t, account_id@, name@),
{
    find_identity_command(kind_of(t), account_id, name)
}

/// Reads the tags of an identity by their keys, from the answer to its lookup.
/// An identity that does not exist has none.
pub fn identity_tags_reply(reply: Reply) -> (r: Result<Vec<(String, String)>, OpError>)
    ensures
        match (r, found_said(reply)) {
            (Ok(v), Ok(Some(d))) => is_listing(pair_seq(v@), tags_in(d)),
            (Ok(v), Ok(None)) => v@.len() == 0,
            (Err(e), Err(x)) => e@ == x,
            _ => false,
        },
{
    match found(reply) {
        Ok(Some(d)) => Ok(read_tags(&d)),
        Ok(None) => {
            let none: Vec<(String, String)> = Vec::new();
            Ok(none)
        },
        Err(e) => Err(e),
    }
}

/// The command that reads the tags of a resource.
pub fn fetch_resource_tags_command(arn: &str) -> (r: Command)
    ensures
        r@ == unordered_of("tags"@, tags_filter_of(arn@)),
{
    unordered("tags", tags_filter(arn))
}

/// Reads the tags of a resource from the answer to a query.
pub fn resource_tags_reply(reply: Reply) -> (r: Result<Vec<(String, String)>, OpError>)
    ensures
        match (r, listed_said(reply)) {
            (Ok(v), Ok(docs)) => pair_seq(v@) == key_pairs(docs, "tag_key"@, "tag_value"@),
            (Err(e), Err(x)) => e@ == x,
            _ => false,
        },
{
    match listed(reply) {
        Ok(docs) => Ok(collect_key_pairs(&docs, "tag_key", "tag_value")),
        Err(e) => Err(e),
    }
}

// --- The tags of a caller ------------------------------------------------------------

/// The part of a text up to a slash.
pub open spec fn up_to_slash(s: Seq<char>) -> Seq<char>
    decreases s.len(),
{
    if s.len() == 0 || s[0] == '/' {
        Seq::empty()
    } else {
        seq![s[0]] + up_to_slash(s.skip(1))
    }
}

/// The identity whose tags those of a caller are: a user, a role, or the role
/// that was assumed, where it has a name.
pub open spec fn caller_of(resource: Seq<char>) -> Option<(Tagged, Seq<char>)> {
    if "user/"@.is_prefix_of(resource) {
        Some((Tagged::User, resource.skip(5)))
    } else if "role/"@.is_prefix_of(resource) {
        Some((Tagged::Role, resource.skip(5)))
    } else if "assumed-role/"@.is_prefix_of(resource) {
        let role = up_to_slash(resource.skip(13));
        if role.len() == 0 {
            None
        } else {
            Some((Tagged::Role, role))
        }
    } else {
        None
    }
}

fn rest_after(resource: &str, prefix: &str) -> (r: Option<String>)
    ensures
        match r {
            Some(s) => prefix@.is_prefix_of(resource@) && s@ == resource@.skip(
                prefix@.len() as int,
            ),
            None => !prefix@.is_prefix_of(resource@),
        },
{
    if !crate::text::starts_with(resource, prefix) {
        return None;
    }
    let chars = crate::text::chars_of(resource);
    let skipped = crate::text::chars_of(prefix);
    let mut s = String::new();
    let mut i: usize = skipped.len();
    assert(s@ =~= resource@.subrange(prefix@.len() as int, i as int));
    while i < chars.len()
        invariant
            prefix@.len() <= i <= chars.len(),
            chars@ == resource@,
            s@ == resource@.subrange(prefix@.len() as int, i as int),
        decreases chars.len() - i,
    {
        s.push(chars[i]);
        assert(resource@.subrange(prefix@.len() as int, i as int).push(resource@[i as int])
            =~= resource@.subrange(prefix@.len() as int, i + 1));
        i += 1;
    }
    assert(s@ =~= resource@.skip(prefix@.len() as int));
    Some(s)
}

proof fn lemma_up_to_slash(s: Seq<char>, n: int)
    requires
        0 <= n <= s.len(),
        forall|i: int| 0 <= i < n ==> s[i] != '/',
        n == s.len() || s[n] == '/',
    ensures
        up_to_slash(s) == s.take(n),
    decreases s.len(),
{
    if n == 0 {
        assert(s.take(0) =~= Seq::empty());
    } else {
        let t = s.skip(1);
        lemma_up_to_slash(t, n - 1);
        assert(seq![s[0]] + t.take(n - 1) =~= s.take(n));
    }
}

fn before_slash(text: &str) -> (r: String)
    ensures
        r@ == up_to_slash(text@),
{
    let chars = crate::text::chars_of(text);
    let mut s = String::new();
    let mut i: usize = 0;
    assert(s@ =~= text@.take(0));
    while i < chars.len() && chars[i] != '/'
        invariant
            i <= chars.len(),
            chars@ == text@,
            s@ == text@.take(i as int),
            forall|j: int| 0 <= j < i ==> text@[j] != '/',
        decreases chars.len() - i,
    {
        s.push(chars[i]);
        assert(text@.take(i as int).push(text@[i as int]) =~= text@.take(i + 1));
        i += 1;
    }
    proof {
        lemma_up_to_slash(text@, i as int);
    }
    s
}

/// The identity whose tags those of a caller are.
pub fn caller_identity(resource: &str) -> (r: Option<(Tagged, String)>)
    ensures
        match (r, caller_of(resource@)) {
            (Some(x), Some(y)) => x.0 == y.0 && x.1@ == y.1,
            (None, None) => true,
            _ => false,
        },
{
    proof {
        reveal_strlit("user/");
        reveal_strlit("role/");
        reveal_strlit("assumed-role/");
        assert("user/"@.len() == 5 && "role/"@.len() == 5 && "assumed-role/"@.len() == 13);
    }
    if let Some(name) = rest_after(resource, "user/") {
        return Some((Tagged::User, name));
    }
    if let Some(name) = rest_after(resource, "role/") {
        return Some((Tagged::Role, name));
    }
    if let Some(rest) = rest_after(resource, "assumed-role/") {
        let role = before_slash(rest.as_str());
        if role.as_str().is_empty() {
            return None;
        }
        return Some((Tagged::Role, role));
    }
    None
}

/// The command that reads the tags of a caller. A caller that is no identity
/// has none.
pub fn fetch_caller_tags_command(account_id: &str, resource: &str) -> (r: Option<Command>)
    ensures
        match (r, caller_of(resource@)) {
            (Some(c), Some((t, name))) => c@ == fetch_tags_of(t, account_id@, name),
            (None, None) => true,
            _ => false,
        },
{
    match caller_identity(resource) {
        Some((t, name)) => Some(fetch_identity_tags_command(t, account_id, name.as_str())),
        None => None,
    }
}

// --- Laws --------------------------------------------------------------------------

/// A user that was created is listed, with whether they have a password, and
/// has no tags.
#[verifier::rlimit(40)]
#[verifier::spinoff_prover]
pub proof fn law_user_reads_back(
    account_id: Seq<char>,
    user_name: Seq<char>,
    password_hash: Option<Seq<char>>,
    now: i64,
)
    ensures
        identity_of(
            IdentityKind::User,
            user_document_of(account_id, user_name, password_hash, now),
        ) == Some(
            IdentityV {
                account_id,
                name: user_name,
                arn: identity_arn_of(account_id, IdentityKind::User, user_name),
                has_password: password_hash is Some,
                trust_policy: None,
                created_at: now,
            },
        ),
        tags_in(user_document_of(account_id, user_name, password_hash, now)) == Seq::<
            (Seq<char>, Seq<char>),
        >::empty(),
{
    broadcast use crate::bson::group_document_fields;

    reveal_strlit("_id");
    reveal_strlit("account_id");
    reveal_strlit("user_name");
    reveal_strlit("user_arn");
    assert("_id"@.len() == 3);
    reveal_strlit("created_at");
    reveal_strlit("password_hash");
    reveal_strlit("tags");
    assert("tags"@.len() == 4);
    assert("account_id"@.len() == 10 && "user_name"@.len() == 9 && "user_arn"@.len() == 8);
    assert("created_at"@.len() == 10 && "password_hash"@.len() == 13);
    assert("account_id"@[0] == 'a' && "created_at"@[0] == 'c');
}

/// The password with which a user was created is accepted, and a user without
/// a password accepts none.
#[verifier::rlimit(40)]
pub proof fn law_password_is_checked(
    account_id: Seq<char>,
    user_name: Seq<char>,
    password_hash: Option<Seq<char>>,
    now: i64,
    d: Document,
    password: Seq<char>,
)
    requires
        d@ == user_document_of(account_id, user_name, password_hash, now),
    ensures
        user_password_said(Reply::One(Some(d)), password) == Ok::<bool, OpErrV>(
            (match password_hash {
                Some(h) => is_accepted(password, h),
                None => false,
            }),
        ),
{
    broadcast use crate::bson::group_document_fields;

    reveal_strlit("_id");
    reveal_strlit("account_id");
    reveal_strlit("user_name");
    reveal_strlit("user_arn");
    assert("_id"@.len() == 3);
    reveal_strlit("created_at");
    reveal_strlit("password_hash");
    reveal_strlit("tags");
    assert("tags"@.len() == 4);
    assert("account_id"@.len() == 10 && "user_name"@.len() == 9 && "user_arn"@.len() == 8);
    assert("created_at"@.len() == 10 && "password_hash"@.len() == 13);
    assert("account_id"@[0] == 'a' && "created_at"@[0] == 'c');
}

proof fn lemma_field_is_tag(f: Seq<(Seq<char>, BsonV)>, i: int, v: Seq<char>)
    requires
        0 <= i < f.len(),
        f[i].1 == BsonV::Str(v),
    ensures
        field_tags(f).contains((f[i].0, v)),
    decreases f.len(),
{
    let rest = field_tags(f.drop_last());
    if i == f.len() - 1 {
        assert(field_tags(f).last() == (f[i].0, v));
    } else {
        lemma_field_is_tag(f.drop_last(), i, v);
        let j = choose|j: int| 0 <= j < rest.len() && rest[j] == (f[i].0, v);
        assert(field_tags(f)[j] == (f[i].0, v));
    }
}

/// A tag that stands in the document of an identity is among its tags, with
/// its value, whatever other tags there are.
pub proof fn law_tag_is_listed(d: DocV, tags: DocV, key: Seq<char>, value: Seq<char>)
    requires
        d.get_document("tags"@) == Some(tags),
        tags.get_str(key) == Some(value),
    ensures
        tags_in(d).contains((key, value)),
{
    reveal(DocV::get);
    crate::bson::lemma_key_from(tags.entries, key, 0);
    lemma_field_is_tag(tags.entries, crate::bson::key_from(tags.entries, key, 0), value);
}

/// A user that does not exist is not deleted, and nothing of theirs is
/// removed.
pub proof fn law_missing_user_removes_nothing(
    account_id: String,
    user_name: String,
    step: OpStep<DeleteUserState, ()>,
)
    requires
        delete_user_goes_on(
            DeleteUserState::Removing { account_id, user_name },
            Reply::Deleted(0),
            step,
        ),
    ensures
        op_fails(step, OpErrV::NotFound("IAM user not found"@)),
{
}

} // verus!
