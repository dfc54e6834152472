//! Access keys and sessions, and the credentials that they give.

use vstd::prelude::*;
use vstd::string::*;

use crate::bson::{copy_bson, copy_bytes, doc_seq, opt_string, Bson, BsonV, DocV, Document};
use crate::clock::{dated_nanos, to_offset_nanos};
use crate::crypto::{decrypt_secret_checked, decrypted, has_wrong_length};
use crate::identities::{find_identity_command, find_identity_of, IdentityKind};
use crate::management::{
    by1, by2, by3, database_error, filter1, filter2, filter3, found, found_said, insert, insert_of,
    is_duplicate, is_duplicate_key, listed, listed_said, lookup, lookup_of, misplaced,
    misplaced_reply, op_unit, ordered, ordered_of, refused, remove, remove_of, removed,
    removed_said, OpErrV, OpError,
};
use crate::protocol::{Command, CommandV, Reply};
use crate::table::bool_or;
use crate::text::starts_with;

verus! {

// --- Creating and importing keys -----------------------------------------------------

/// An access key that is to be stored.
#[derive(Debug, PartialEq)]
pub struct NewKey {
    pub account_id: String,
    pub user_name: String,
    pub access_key_id: String,
    pub secret_access_key: String,
    /// Whether the key is a new one, or else comes from outside.
    pub is_new: bool,
    /// The encryption key, where it is known.
    pub cached_key: Option<String>,
    /// The time in milliseconds.
    pub now: i64,
}

/// What the storing of a key asks to be done.
#[derive(Debug, PartialEq)]
pub enum KeyAction {
    Run(Command),
    /// Encrypt a secret with a key and associated data.
    Seal { plaintext: String, key: String, aad: String },
}

/// What the storing of a key is told.
#[derive(Debug, PartialEq)]
pub enum KeyEvent {
    Replied(Reply),
    Sealed(Result<Vec<u8>, String>),
}

/// Where the storing of a key stands.
#[derive(Debug, PartialEq)]
pub enum KeyState {
    FindingUser(NewKey),
    /// The encryption key is being looked up.
    FindingKey(NewKey),
    Sealing(NewKey),
    Inserting(NewKey),
}

/// One step of the storing of a key.
#[derive(Debug, PartialEq)]
pub enum KeyStep {
    Do(KeyState, KeyAction),
    Done(Result<NewKey, OpError>),
}

/// The step is the last one and ends in the error.
pub open spec fn key_fails(step: KeyStep, e: OpErrV) -> bool {
    step matches KeyStep::Done(Err(x)) && x@ == e
}

/// The step asks for a command and goes on from a state.
pub open spec fn key_runs(step: KeyStep, state: KeyState, command: CommandV) -> bool {
    step matches KeyStep::Do(s, KeyAction::Run(c)) && s == state && c@ == command
}

/// The step asks for the encryption of the secret of a key; the identifier of
/// the key goes with it.
pub open spec fn key_seals(step: KeyStep, k: NewKey, key: Seq<char>) -> bool {
    &&& step matches KeyStep::Do(s, KeyAction::Seal { plaintext, key: x, aad })
    &&& s == KeyState::Sealing(k)
    &&& plaintext@ == k.secret_access_key@
    &&& x@ == key
    &&& aad@ == k.access_key_id@
}

/// The lookup of the encryption key.
pub open spec fn find_encryption_key() -> CommandV {
    lookup_of("settings"@, by1("_id"@, "encryption_key"@))
}

/// The storing goes on with the encryption key.
pub open spec fn key_needs(k: NewKey, step: KeyStep) -> bool {
    match k.cached_key {
        Some(key) => key_seals(step, k, key@),
        None => key_runs(step, KeyState::FindingKey(k), find_encryption_key()),
    }
}

/// The document of an access key.
pub open spec fn key_document_of(k: NewKey, sealed: Seq<u8>) -> DocV {
    by3(
        "_id"@,
        k.access_key_id@,
        "account_id"@,
        k.account_id@,
        "user_name"@,
        k.user_name@,
    ).with("secret_key_encrypted"@, BsonV::Binary(sealed)).with(
        "is_active"@,
        BsonV::Boolean(true),
    ).with("created_at"@, BsonV::DateTime(k.now))
}

/// What the answer to the lookup of the encryption key says.
pub open spec fn encryption_key_said(reply: Reply) -> Result<Seq<char>, OpErrV> {
    match found_said(reply) {
        Err(e) => Err(e),
        Ok(Some(d)) => match d.get_str("value"@) {
            Some(v) => Ok(v),
            None => Err(OpErrV::Internal("Encryption key not configured"@)),
        },
        Ok(None) => Err(OpErrV::Internal("Encryption key not configured"@)),
    }
}

/// Reads the encryption key from the answer to its lookup.
pub fn encryption_key_reply(reply: Reply) -> (r: Result<String, OpError>)
    ensures
        match r {
            Ok(k) => encryption_key_said(reply) == Ok::<Seq<char>, OpErrV>(k@),
            Err(e) => encryption_key_said(reply) == Err::<Seq<char>, OpErrV>(e@),
        },
{
    match found(reply) {
        Err(e) => Err(e),
        Ok(Some(d)) => match d.get_str("value") {
            Some(v) => Ok(v.to_owned()),
            None => Err(OpError::Internal("Encryption key not configured".to_owned())),
        },
        Ok(None) => Err(OpError::Internal("Encryption key not configured".to_owned())),
    }
}

/// How the storing of a key begins. That the user exists is checked for a new
/// key.
pub open spec fn key_begins(k: NewKey, step: KeyStep) -> bool {
    if k.is_new {
        key_runs(
            step,
            KeyState::FindingUser(k),
            find_identity_of(IdentityKind::User, k.account_id@, k.user_name@),
        )
    } else {
        key_needs(k, step)
    }
}

/// How the storing of a key goes on with an event.
pub open spec fn key_goes_on(state: KeyState, event: KeyEvent, step: KeyStep) -> bool {
    match (state, event) {
        (KeyState::FindingUser(k), KeyEvent::Replied(r)) => match found_said(r) {
            Err(e) => key_fails(step, e),
            Ok(None) => key_fails(step, OpErrV::NotFound("User not found"@)),
            Ok(Some(_)) => key_needs(k, step),
        },
        (KeyState::FindingKey(k), KeyEvent::Replied(r)) => match encryption_key_said(r) {
            Err(e) => key_fails(step, e),
            Ok(key) => key_seals(step, k, key),
        },
        (KeyState::Sealing(k), KeyEvent::Sealed(s)) => match s {
            Err(_) => key_fails(step, refused()),
            Ok(bytes) => key_runs(
                step,
                KeyState::Inserting(k),
                insert_of("access_keys"@, key_document_of(k, bytes@)),
            ),
        },
        (KeyState::Inserting(k), KeyEvent::Replied(r)) => match r {
            Reply::Failed(e) => if is_duplicate(e) {
                key_fails(
                    step,
                    if k.is_new {
                        OpErrV::NotFound("User not found"@)
                    } else {
                        OpErrV::AlreadyExists("Access key ID already exists"@)
                    },
                )
            } else {
                key_fails(step, refused())
            },
            _ => step == KeyStep::Done(Ok(k)),
        },
        _ => key_fails(step, misplaced()),
    }
}

fn need_key(k: NewKey) -> (step: KeyStep)
    ensures
        key_needs(k, step),
{
    match &k.cached_key {
        Some(key) => {
            let key = key.clone();
            seal_with(k, key)
        },
        None => KeyStep::Do(
            KeyState::FindingKey(k),
            KeyAction::Run(lookup("settings", filter1("_id", "encryption_key"))),
        ),
    }
}

fn seal_with(k: NewKey, key: String) -> (step: KeyStep)
    ensures
        key_seals(step, k, key@),
{
    let plaintext = k.secret_access_key.clone();
    let aad = k.access_key_id.clone();
    KeyStep::Do(KeyState::Sealing(k), KeyAction::Seal { plaintext, key, aad })
}

/// Begins the storing of a key.
pub fn store_key_start(k: NewKey) -> (step: KeyStep)
    ensures
        key_begins(k, step),
{
    if k.is_new {
        let command = find_identity_command(
            IdentityKind::User,
            k.account_id.as_str(),
            k.user_name.as_str(),
        );
        KeyStep::Do(KeyState::FindingUser(k), KeyAction::Run(command))
    } else {
        need_key(k)
    }
}

fn key_document(k: &NewKey, sealed: Vec<u8>) -> (r: Document)
    ensures
        r@ == key_document_of(*k, sealed@),
{
    filter3(
        "_id",
        k.access_key_id.as_str(),
        "account_id",
        k.account_id.as_str(),
        "user_name",
        k.user_name.as_str(),
    ).with("secret_key_encrypted", Bson::Binary(sealed)).with("is_active", Bson::Boolean(true)).with(
        "created_at",
        Bson::DateTime(k.now),
    )
}

/// Goes on with the storing of a key.
pub fn store_key_next(state: KeyState, event: KeyEvent) -> (step: KeyStep)
    ensures
        key_goes_on(state, event, step),
{
    match (state, event) {
        (KeyState::FindingUser(k), KeyEvent::Replied(r)) => match found(r) {
            Err(e) => KeyStep::Done(Err(e)),
            Ok(None) => KeyStep::Done(Err(OpError::NotFound("User not found".to_owned()))),
            Ok(Some(_)) => need_key(k),
        },
        (KeyState::FindingKey(k), KeyEvent::Replied(r)) => match encryption_key_reply(r) {
            Err(e) => KeyStep::Done(Err(e)),
            Ok(key) => seal_with(k, key),
        },
        (KeyState::Sealing(k), KeyEvent::Sealed(s)) => match s {
            Err(_) => KeyStep::Done(Err(database_error())),
            Ok(bytes) => {
                let document = key_document(&k, bytes);
                KeyStep::Do(
                    KeyState::Inserting(k),
                    KeyAction::Run(insert("access_keys", document)),
                )
            },
        },
        (KeyState::Inserting(k), KeyEvent::Replied(r)) => match r {
            Reply::Failed(e) => if is_duplicate_key(&e) {
                if k.is_new {
                    KeyStep::Done(Err(OpError::NotFound("User not found".to_owned())))
                } else {
                    KeyStep::Done(
                        Err(OpError::AlreadyExists("Access key ID already exists".to_owned())),
                    )
                }
            } else {
                KeyStep::Done(Err(database_error()))
            },
            _ => KeyStep::Done(Ok(k)),
        },
        _ => KeyStep::Done(Err(misplaced_reply())),
    }
}

// --- Deleting and listing keys -------------------------------------------------------

/// The command that deletes an access key.
pub fn delete_access_key_command(account_id: &str, user_name: &str, key_id: &str) -> (r: Command)
    ensures
        r@ == remove_of(
            "access_keys"@,
            by3(
                "_id"@,
                key_id@,
                "account_id"@,
                account_id@,
                "user_name"@,
                user_name@,
            ),
        ),
{
    remove(
        "access_keys",
        filter3(
            "_id",
            key_id,
            "account_id",
            account_id,
            "user_name",
            user_name,
        ),
    )
}

/// Reads the answer to the deletion of an access key.
pub fn delete_access_key_reply(reply: &Reply) -> (r: Result<(), OpError>)
    ensures
        op_unit(r) == removed_said(*reply, "Access key not found"@),
{
    removed(reply, "Access key not found")
}

/// The command that lists the access keys of a user, the oldest first.
pub fn list_access_keys_command(account_id: &str, user_name: &str) -> (r: Command)
    ensures
        r@ == ordered_of(
            "access_keys"@,
            by2("account_id"@, account_id@, "user_name"@, user_name@),
            "created_at"@,
        ),
{
    ordered(
        "access_keys",
        filter2("account_id", account_id, "user_name", user_name),
        "created_at",
    )
}

/// An access key in a list.
#[derive(Debug, PartialEq)]
pub struct KeyEntry {
    pub access_key_id: String,
    pub is_active: bool,
    /// The time of the creation in milliseconds.
    pub created_at: i64,
}

/// The access key that a document describes.
pub open spec fn key_of(d: DocV) -> Option<(Seq<char>, bool, i64)> {
    match (d.get_str("_id"@), d.get_datetime("created_at"@)) {
        (Some(id), Some(t)) => Some((id, bool_or(d, "is_active"@, true), t)),
        _ => None,
    }
}

/// The access keys that documents describe.
pub open spec fn listed_keys(docs: Seq<DocV>) -> Seq<(Seq<char>, bool, i64)>
    decreases docs.len(),
{
    if docs.len() == 0 {
        Seq::empty()
    } else {
        let rest = listed_keys(docs.drop_last());
        match key_of(docs.last()) {
            Some(k) => rest.push(k),
            None => rest,
        }
    }
}

/// The models of a list of access keys.
pub open spec fn entry_seq(v: Seq<KeyEntry>) -> Seq<(Seq<char>, bool, i64)> {
    Seq::new(v.len(), |i: int| (v[i].access_key_id@, v[i].is_active, v[i].created_at))
}

/// Reads a list of access keys.
pub fn list_access_keys_reply(reply: Reply) -> (r: Result<Vec<KeyEntry>, OpError>)
    ensures
        match (r, listed_said(reply)) {
            (Ok(v), Ok(docs)) => entry_seq(v@) == listed_keys(docs),
            (Err(e), Err(x)) => e@ == x,
            _ => false,
        },
{
    let docs = match listed(reply) {
        Ok(docs) => docs,
        Err(e) => {
            return Err(e);
        },
    };
    let ghost ds = doc_seq(docs@);
    let mut out: Vec<KeyEntry> = Vec::new();
    let mut i: usize = 0;
    assert(ds.take(0) =~= Seq::empty());
    assert(entry_seq(out@) =~= Seq::empty());
    while i < docs.len()
        invariant
            i <= docs.len(),
            ds == doc_seq(docs@),
            entry_seq(out@) == listed_keys(ds.take(i as int)),
        decreases docs.len() - i,
    {
        proof {
            assert(ds.take(i + 1).drop_last() =~= ds.take(i as int));
            assert(ds.take(i + 1).last() == docs@[i as int]@);
        }
        let d = &docs[i];
        match (d.get_str("_id"), d.get_datetime("created_at")) {
            (Some(id), Some(created_at)) => {
                let is_active = match d.get_bool("is_active") {
                    Some(b) => b,
                    None => true,
                };
                let ghost before = out@;
                let entry = KeyEntry { access_key_id: id.to_owned(), is_active, created_at };
                out.push(entry);
                assert(entry_seq(out@) =~= entry_seq(before).push((id@, is_active, created_at)));
            },
            _ => {},
        }
        i += 1;
    }
    assert(ds.take(ds.len() as int) =~= ds);
    Ok(out)
}

// --- Sessions ------------------------------------------------------------------------

/// A session that is to be stored.
#[derive(Debug, PartialEq)]
pub struct NewSession {
    pub session_token: String,
    pub access_key_id: String,
    pub secret_key_encrypted: Vec<u8>,
    pub account_id: String,
    pub role_name: String,
    pub session_name: String,
    pub session_tags: Option<Bson>,
    pub session_policy: Option<Bson>,
    /// The time at which the session expires, in seconds.
    pub expires_at: i64,
    /// The time in milliseconds.
    pub now: i64,
}

/// The document of a session.
pub open spec fn session_document_of(s: NewSession) -> DocV {
    let d = by2("_id"@, s.session_token@, "access_key_id"@, s.access_key_id@).with(
        "secret_key_encrypted"@,
        BsonV::Binary(s.secret_key_encrypted@),
    ).with("account_id"@, BsonV::Str(s.account_id@)).with(
        "role_name"@,
        BsonV::Str(s.role_name@),
    ).with("session_name"@, BsonV::Str(s.session_name@)).with(
        "expires_at"@,
        BsonV::DateTime((s.expires_at * 1000) as i64),
    ).with("created_at"@, BsonV::DateTime(s.now));
    let d = match s.session_tags {
        Some(t) => d.with("session_tags"@, t@),
        None => d,
    };
    match s.session_policy {
        Some(p) => d.with("session_policy"@, p@),
        None => d,
    }
}

/// A time in seconds that can be told in milliseconds.
pub open spec fn has_millis(seconds: i64) -> bool {
    i64::MIN <= seconds * 1000 <= i64::MAX
}

/// The command that stores a session.
pub fn store_session_command(s: &NewSession) -> (r: Command)
    requires
        has_millis(s.expires_at),
    ensures
        r@ == insert_of("iam_sessions"@, session_document_of(*s)),
{
    let mut d = filter2(
        "_id",
        s.session_token.as_str(),
        "access_key_id",
        s.access_key_id.as_str(),
    ).with("secret_key_encrypted", Bson::Binary(copy_bytes(&s.secret_key_encrypted))).with(
        "account_id",
        Bson::text(s.account_id.as_str()),
    ).with("role_name", Bson::text(s.role_name.as_str())).with(
        "session_name",
        Bson::text(s.session_name.as_str()),
    ).with("expires_at", Bson::DateTime(s.expires_at * 1000)).with(
        "created_at",
        Bson::DateTime(s.now),
    );
    if let Some(t) = &s.session_tags {
        d.insert("session_tags", copy_bson(t));
    }
    if let Some(p) = &s.session_policy {
        d.insert("session_policy", copy_bson(p));
    }
    insert("iam_sessions", d)
}

// --- Credentials ---------------------------------------------------------------------

/// The kinds of credentials, told apart by the letters that their identifiers
/// begin with.
#[derive(Debug, Clone, Copy, PartialEq, Eq, Structural)]
pub enum CredentialKind {
    User,
    Session,
}

/// The kind of credential that an identifier belongs to.
pub open spec fn credential_kind_of(access_key_id: Seq<char>) -> Option<CredentialKind> {
    if "AKIA"@.is_prefix_of(access_key_id) {
        Some(CredentialKind::User)
    } else if "ASIA"@.is_prefix_of(access_key_id) {
        Some(CredentialKind::Session)
    } else {
        None
    }
}

/// The kind of credential that an identifier belongs to.
pub fn credential_kind(access_key_id: &str) -> (r: Option<CredentialKind>)
    ensures
        r == credential_kind_of(access_key_id@),
{
    if starts_with(access_key_id, "AKIA") {
        Some(CredentialKind::User)
    } else if starts_with(access_key_id, "ASIA") {
        Some(CredentialKind::Session)
    } else {
        None
    }
}

/// The collection of a kind of credential.
pub open spec fn credentials_in(k: CredentialKind) -> Seq<char> {
    match k {
        CredentialKind::User => "access_keys"@,
        CredentialKind::Session => "iam_sessions"@,
    }
}

/// The field that holds the identifier of a kind of credential. An access key
/// is kept under its identifier, a session under its token.
pub open spec fn key_id_field(k: CredentialKind) -> Seq<char> {
    match k {
        CredentialKind::User => "_id"@,
        CredentialKind::Session => "access_key_id"@,
    }
}

/// The command that looks a credential up.
pub fn lookup_credential_command(k: CredentialKind, access_key_id: &str) -> (r: Command)
    ensures
        r@ == lookup_of(credentials_in(k), by1(key_id_field(k), access_key_id@)),
{
    match k {
        CredentialKind::User => lookup("access_keys", filter1("_id", access_key_id)),
        CredentialKind::Session => lookup("iam_sessions", filter1("access_key_id", access_key_id)),
    }
}

/// An error of an authentication.
#[derive(Debug, Clone, Copy, PartialEq, Eq, Structural)]
pub enum AuthError {
    Internal,
    Expired,
}

/// The words for an error of an authentication.
pub fn auth_message(e: AuthError) -> (r: &'static str)
    ensures
        r@ == (match e {
            AuthError::Internal => "Internal error during authentication"@,
            AuthError::Expired => "The security token included in the request is expired"@,
        }),
{
    match e {
        AuthError::Internal => "Internal error during authentication",
        AuthError::Expired => "The security token included in the request is expired",
    }
}

/// A credential, with its secret or without.
#[derive(Debug, PartialEq)]
pub struct Credential {
    pub account_id: String,
    pub principal_name: String,
    pub session_name: Option<String>,
    pub session_token: Option<String>,
    pub is_session: bool,
    pub is_active: bool,
}

/// The model of a credential.
#[verifier::ext_equal]
pub struct CredentialV {
    pub account_id: Seq<char>,
    pub principal_name: Seq<char>,
    pub session_name: Option<Seq<char>>,
    pub session_token: Option<Seq<char>>,
    pub is_session: bool,
    pub is_active: bool,
}

impl View for Credential {
    type V = CredentialV;

    open spec fn view(&self) -> CredentialV {
        CredentialV {
            account_id: self.account_id@,
            principal_name: self.principal_name@,
            session_name: opt_string(self.session_name),
            session_token: opt_string(self.session_token),
            is_session: self.is_session,
            is_active: self.is_active,
        }
    }
}

/// The credential that a document describes, and its encrypted secret. A
/// document without a secret is none; a session that has expired is refused.
pub open spec fn credential_of(k: CredentialKind, d: DocV, now: i128) -> Result<
    Option<(CredentialV, Seq<u8>)>,
    AuthError,
> {
    match d.get_binary("secret_key_encrypted"@) {
        None => Ok(None),
        Some(secret) => match k {
            CredentialKind::User => Ok(
                Some(
                    (
                        CredentialV {
                            account_id: d.str_or("account_id"@, ""@),
                            principal_name: d.str_or("user_name"@, ""@),
                            session_name: None,
                            session_token: None,
                            is_session: false,
                            is_active: bool_or(d, "is_active"@, true),
                        },
                        secret,
                    ),
                ),
            ),
            CredentialKind::Session => match d.get_datetime("expires_at"@) {
                None => Err(AuthError::Internal),
                Some(t) => if dated_nanos(t) < now {
                    Err(AuthError::Expired)
                } else {
                    Ok(
                        Some(
                            (
                                CredentialV {
                                    account_id: d.str_or("account_id"@, ""@),
                                    principal_name: d.str_or("role_name"@, ""@),
                                    session_name: Some(d.str_or("session_name"@, ""@)),
                                    session_token: Some(d.str_or("_id"@, ""@)),
                                    is_session: true,
                                    is_active: true,
                                },
                                secret,
                            ),
                        ),
                    )
                },
            },
        },
    }
}

/// What the answer to the lookup of a credential says.
pub open spec fn credential_said(k: CredentialKind, reply: Reply, now: i128) -> Result<
    Option<(CredentialV, Seq<u8>)>,
    AuthError,
> {
    match reply {
        Reply::One(Some(d)) => credential_of(k, d@, now),
        Reply::One(None) => Ok(None),
        _ => Err(AuthError::Internal),
    }
}

fn read_credential(k: CredentialKind, d: &Document, now: i128) -> (r: Result<
    Option<(Credential, Vec<u8>)>,
    AuthError,
>)
    ensures
        match (r, credential_of(k, d@, now)) {
            (Ok(Some(x)), Ok(Some(y))) => x.0@ == y.0 && x.1@ == y.1,
            (Ok(None), Ok(None)) => true,
            (Err(e), Err(f)) => e == f,
            _ => false,
        },
{
    let secret = match d.get_binary("secret_key_encrypted") {
        Some(b) => copy_bytes(b),
        None => {
            return Ok(None);
        },
    };
    match k {
        CredentialKind::User => {
            let is_active = match d.get_bool("is_active") {
                Some(b) => b,
                None => true,
            };
            Ok(
                Some(
                    (
                        Credential {
                            account_id: d.str_or("account_id", ""),
                            principal_name: d.str_or("user_name", ""),
                            session_name: None,
                            session_token: None,
                            is_session: false,
                            is_active,
                        },
                        secret,
                    ),
                ),
            )
        },
        CredentialKind::Session => match d.get_datetime("expires_at") {
            None => Err(AuthError::Internal),
            Some(t) => if to_offset_nanos(t) < now {
                Err(AuthError::Expired)
            } else {
                Ok(
                    Some(
                        (
                            Credential {
                                account_id: d.str_or("account_id", ""),
                                principal_name: d.str_or("role_name", ""),
                                session_name: Some(d.str_or("session_name", "")),
                                session_token: Some(d.str_or("_id", "")),
                                is_session: true,
                                is_active: true,
                            },
                            secret,
                        ),
                    ),
                )
            },
        },
    }
}

/// Reads a credential and its encrypted secret from the answer to its lookup;
/// `now` is the time in nanoseconds.
pub fn lookup_credential_reply(k: CredentialKind, reply: &Reply, now: i128) -> (r: Result<
    Option<(Credential, Vec<u8>)>,
    AuthError,
>)
    ensures
        match (r, credential_said(k, *reply, now)) {
            (Ok(Some(x)), Ok(Some(y))) => x.0@ == y.0 && x.1@ == y.1,
            (Ok(None), Ok(None)) => true,
            (Err(e), Err(f)) => e == f,
            _ => false,
        },
{
    match reply {
        Reply::One(Some(d)) => read_credential(k, d, now),
        Reply::One(None) => Ok(None),
        _ => Err(AuthError::Internal),
    }
}

/// The secret of a credential, from what its decryption gave.
pub fn credential_secret(decrypted: Result<String, String>) -> (r: Result<String, AuthError>)
    ensures
        match decrypted {
            Ok(s) => r == Ok::<String, AuthError>(s),
            Err(_) => r == Err::<String, AuthError>(AuthError::Internal),
        },
{
    match decrypted {
        Ok(s) => Ok(s),
        Err(_) => Err(AuthError::Internal),
    }
}

/// A credential with its secret.
#[derive(Debug, PartialEq)]
pub struct StoredCredential {
    pub secret_key: String,
    pub credential: Credential,
}

/// The credential that the answer to a lookup gives, with its secret.
pub open spec fn stored_credential_said(
    k: CredentialKind,
    reply: Reply,
    now: i128,
    key_b64: Seq<char>,
    access_key_id: Seq<char>,
) -> Result<Option<(Seq<char>, CredentialV)>, AuthError> {
    match credential_said(k, reply, now) {
        Err(e) => Err(e),
        Ok(None) => Ok(None),
        Ok(Some((c, sealed))) => match decrypted(sealed, key_b64, access_key_id) {
            Ok(secret) => Ok(Some((secret, c))),
            Err(_) => Err(AuthError::Internal),
        },
    }
}

/// A lookup gives a secret that the key of this backend cannot open, because
/// the key has the wrong length.
pub open spec fn has_unusable_key(
    k: CredentialKind,
    reply: Reply,
    now: i128,
    key_b64: Seq<char>,
) -> bool {
    credential_said(k, reply, now) matches Ok(Some((_, sealed))) && sealed.len() >= 28
        && has_wrong_length(key_b64)
}

/// Reads the credential of an access key, and decrypts its secret, where the
/// encryption key can be used.
pub fn open_credential(
    k: CredentialKind,
    reply: &Reply,
    now: i128,
    key_b64: &str,
    access_key_id: &str,
) -> (r: Option<Result<Option<StoredCredential>, AuthError>>)
    ensures
        r is None == has_unusable_key(k, *reply, now, key_b64@),
        r matches Some(x) ==> match (
            x,
            stored_credential_said(k, *reply, now, key_b64@, access_key_id@),
        ) {
            (Ok(Some(c)), Ok(Some(y))) => c.secret_key@ == y.0 && c.credential@ == y.1,
            (Ok(None), Ok(None)) => true,
            (Err(e), Err(f)) => e == f,
            _ => false,
        },
{
    match lookup_credential_reply(k, reply, now) {
        Err(e) => Some(Err(e)),
        Ok(None) => Some(Ok(None)),
        Ok(Some((credential, sealed))) => match decrypt_secret_checked(
            &sealed,
            key_b64,
            access_key_id,
        ) {
            None => None,
            Some(opened) => match credential_secret(opened) {
                Ok(secret_key) => Some(Ok(Some(StoredCredential { secret_key, credential }))),
                Err(e) => Some(Err(e)),
            },
        },
    }
}

// --- Laws --------------------------------------------------------------------------

/// A key that was stored is found under its identifier, active, and with the
/// encrypted secret with which it was stored.
#[verifier::rlimit(40)]
#[verifier::spinoff_prover]
pub proof fn law_stored_key_authenticates(k: NewKey, sealed: Seq<u8>, now: i128)
    ensures
        credential_of(CredentialKind::User, key_document_of(k, sealed), now) == Ok::<
            Option<(CredentialV, Seq<u8>)>,
            AuthError,
        >(
            Some(
                (
                    CredentialV {
                        account_id: k.account_id@,
                        principal_name: k.user_name@,
                        session_name: None,
                        session_token: None,
                        is_session: false,
                        is_active: true,
                    },
                    sealed,
                ),
            ),
        ),
        key_of(key_document_of(k, sealed)) == Some((k.access_key_id@, true, k.now)),
{
    broadcast use crate::bson::group_document_fields;

    reveal_strlit("_id");
    reveal_strlit("account_id");
    reveal_strlit("user_name");
    reveal_strlit("secret_key_encrypted");
    reveal_strlit("is_active");
    reveal_strlit("created_at");
    assert("_id"@.len() == 3 && "account_id"@.len() == 10 && "user_name"@.len() == 9);
    assert("secret_key_encrypted"@.len() == 20 && "is_active"@.len() == 9);
    assert("created_at"@.len() == 10 && "created_at"@[0] == 'c' && "account_id"@[0] == 'a');
    assert("user_name"@[0] == 'u' && "is_active"@[0] == 'i');
}

/// The secret with which a key was stored is the one with which requests under
/// the key are checked, where the secret was encrypted for the key.
pub proof fn law_stored_secret_is_returned(
    k: NewKey,
    sealed: Seq<u8>,
    key_b64: Seq<char>,
    d: Document,
    now: i128,
)
    requires
        decrypted(sealed, key_b64, k.access_key_id@) == Ok::<Seq<char>, Seq<char>>(
            k.secret_access_key@,
        ),
        d@ == key_document_of(k, sealed),
    ensures
        stored_credential_said(
            CredentialKind::User,
            Reply::One(Some(d)),
            now,
            key_b64,
            k.access_key_id@,
        ) matches Ok(Some((secret, c))) && secret == k.secret_access_key@ && c.principal_name
            == k.user_name@ && c.account_id == k.account_id@ && c.is_active,
{
    law_stored_key_authenticates(k, sealed, now);
}

/// A session is refused after the time at which it expires, and not before.
#[verifier::rlimit(40)]
#[verifier::spinoff_prover]
pub proof fn law_session_expires(s: NewSession, now: i128)
    requires
        has_millis(s.expires_at),
    ensures
        credential_of(CredentialKind::Session, session_document_of(s), now) == (if dated_nanos(
            (s.expires_at * 1000) as i64,
        ) < now {
            Err::<Option<(CredentialV, Seq<u8>)>, AuthError>(AuthError::Expired)
        } else {
            Ok(
                Some(
                    (
                        CredentialV {
                            account_id: s.account_id@,
                            principal_name: s.role_name@,
                            session_name: Some(s.session_name@),
                            session_token: Some(s.session_token@),
                            is_session: true,
                            is_active: true,
                        },
                        s.secret_key_encrypted@,
                    ),
                ),
            )
        }),
{
    broadcast use crate::bson::group_document_fields;

    reveal_strlit("_id");
    reveal_strlit("created_at");
    reveal_strlit("access_key_id");
    reveal_strlit("secret_key_encrypted");
    reveal_strlit("account_id");
    reveal_strlit("role_name");
    reveal_strlit("session_name");
    reveal_strlit("expires_at");
    reveal_strlit("session_tags");
    reveal_strlit("session_policy");
    assert("_id"@.len() == 3 && "access_key_id"@.len() == 13);
    assert("created_at"@.len() == 10 && "created_at"@[0] == 'c');
    assert("secret_key_encrypted"@.len() == 20 && "role_name"@.len() == 9);
    assert("account_id"@.len() == 10 && "expires_at"@.len() == 10);
    assert("account_id"@[0] == 'a' && "expires_at"@[0] == 'e');
    assert("session_name"@.len() == 12 && "session_tags"@.len() == 12);
    assert("session_name"@[8] == 'n' && "session_tags"@[8] == 't');
    assert("session_policy"@.len() == 14);
}

/// An identifier belongs to at most one kind of credential.
pub proof fn law_kinds_are_told_apart(access_key_id: Seq<char>)
    ensures
        !("AKIA"@.is_prefix_of(access_key_id) && "ASIA"@.is_prefix_of(access_key_id)),
{
    reveal_strlit("AKIA");
    reveal_strlit("ASIA");
    if "AKIA"@.is_prefix_of(access_key_id) && "ASIA"@.is_prefix_of(access_key_id) {
        assert(access_key_id.subrange(0, 4)[1] == 'K');
        assert(access_key_id.subrange(0, 4)[1] == 'S');
    }
}

} // verus!
