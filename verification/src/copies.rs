//! What backups keep and give back.

use vstd::prelude::*;
use vstd::string::*;

use crate::backup::{
    backup_arn_of, backup_begins, backup_copy, backup_document_of, backup_goes_on, backup_lines,
    backup_of, backup_turns, copies_of, delete_backup_begins, delete_backup_goes_on,
    find_available_of, find_backup_of, list_backups_of, new_backup, restore_begins,
    restore_goes_on, restore_lines, restore_turns, restored, source_of, BackupDescription,
    BackupDetails, BackupState, CreateBackup, DeleteBackupState, RestoreState, SourceV,
};
use crate::bson::{doc1, doc_seq, obj1, BsonV, DocV, Document};
use crate::catalog::table_filter_of;
use crate::data::{document_item, item_document, ItemKey};
use crate::effects::{command_of, state_of, table_place};
use crate::error::ErrV;
use crate::item::ItemV;
use crate::lookup::{
    is_name, is_plain_update, is_seed, is_updated, lemma_asked_clause, lemma_one_sort,
    lemma_plain_clause, lemma_set,
};
use crate::meaning::{lemma_more_clauses, lemma_one_clause, lemma_words, matches_filter};
use crate::protocol::{in_catalog, ActionV, CommandV, Event, Preparation, Reply, Step};
use crate::reading::comes_before;
use crate::records::orders_times;
use crate::recovery::{
    recovery_begins, recovery_goes_on, set_recovery_of, settings_filter_of, Recovery,
    RecoveryRequest, RecoveryState,
};
use crate::restore_backup::{
    restore_backup_begins, restore_backup_goes_on, RestoreBackupState, RestoreTarget,
};
use crate::schema::{KeyType, ScalarAttributeType};
use crate::schema_json::{defs_bson, schema_bson};
use crate::script::{line_seq, script_goes_on, turns_to, Script, Turn};
use crate::table::{bool_or, BillingMode, TableDescription};

verus! {

// --- Making a backup -----------------------------------------------------------------

/// A backup has a copy of every document of the table, under the name of the
/// backup, and tells how many there are; all commands have to succeed.
pub proof fn law_backup_has_every_item(
    before: spec_fn(BsonV, BsonV) -> bool,
    q: CreateBackup,
    s: SourceV,
    docs: Seq<DocV>,
    i: int,
    arn: Seq<char>,
)
    requires
        0 <= i < docs.len() <= i64::MAX,
    ensures
        backup_lines(q, s, docs).len() == docs.len() + 1,
        backup_lines(q, s, docs)[i] == (
            CommandV::Insert {
                at: in_catalog("backup_items"@),
                document: backup_copy(backup_arn_of(q), docs[i]),
            },
            true,
        ),
        matches_filter(before, copies_of(arn), backup_copy(backup_arn_of(q), docs[i])) == (arn
            == backup_arn_of(q)),
        backup_lines(q, s, docs).last().1,
        backup_lines(q, s, docs).last().0 matches CommandV::Insert { at, document } && at
            == in_catalog("backups"@) && document == backup_document_of(q, s, docs.len()),
{
    lemma_copy_is_named(before, arn, backup_arn_of(q), docs[i]);
}

proof fn lemma_copy_is_named(
    before: spec_fn(BsonV, BsonV) -> bool,
    arn: Seq<char>,
    of: Seq<char>,
    d: DocV,
)
    ensures
        matches_filter(before, copies_of(arn), backup_copy(of, d)) == (arn == of),
{
    broadcast use crate::bson::group_document_fields;

    reveal_strlit("backup_arn");
    reveal_strlit("item_data");
    reveal_strlit("pk");
    reveal_strlit("item_id");
    reveal_strlit("sk");
    reveal_strlit("sk_n");
    reveal_strlit("sk_b");
    assert("backup_arn"@.len() == 10 && "item_data"@.len() == 9 && "pk"@.len() == 2);
    assert("item_id"@.len() == 7 && "sk"@.len() == 2 && "sk_n"@.len() == 4 && "sk_b"@.len() == 4);
    assert(is_name("backup_arn"@));
    let c = backup_copy(of, d);
    assert(c.get("backup_arn"@) == Some(BsonV::Str(of)));
    lemma_one_clause(before, "backup_arn"@, BsonV::Str(arn), c);
    lemma_plain_clause(before, "backup_arn"@, BsonV::Str(arn), c);
}

/// A backup is made of all documents of the table that was found, and is
/// handed out only once the last command was performed.
pub proof fn law_backup_is_made(
    q: CreateBackup,
    entry: Document,
    docs: Vec<Document>,
    s0: Step<BackupState, BackupDetails>,
    s1: Step<BackupState, BackupDetails>,
    s2: Step<BackupState, BackupDetails>,
)
    requires
        backup_begins(q, s0),
        source_of(entry@) is Ok,
        backup_goes_on(state_of(s0), Event::Replied(Reply::One(Some(entry))), s1),
        backup_goes_on(state_of(s1), Event::Replied(Reply::Many(docs)), s2),
    ensures
        command_of(s0) matches Some(CommandV::FindOne { at, filter }) && at == in_catalog(
            "tables"@,
        ) && filter == table_filter_of(q.account_id@, q.table_name@).with(
            "table_status"@,
            BsonV::Str("ACTIVE"@),
        ),
        command_of(s1) matches Some(CommandV::Find { at, filter, paging }) && at == table_place(
            source_of(entry@)->Ok_0.table_id,
        ) && filter == DocV::empty() && paging.limit is None,
        s2 matches Step::Do(BackupState::Storing { script, details }, a) && {
            let lines = backup_lines(q, source_of(entry@)->Ok_0, doc_seq(docs@));
            &&& a@ == ActionV::Run(lines[0].0)
            &&& line_seq(script.left@) == lines.skip(1)
            &&& script.required
            &&& details@ == new_backup(q, source_of(entry@)->Ok_0)
        },
{
    let lines = backup_lines(q, source_of(entry@)->Ok_0, doc_seq(docs@));
    let turn = choose|turn: Turn|
        turns_to(lines, turn) && #[trigger] backup_turns(
            turn,
            new_backup(q, source_of(entry@)->Ok_0),
            s2,
        );
    assert(lines.len() > 0);
    if docs@.len() > 0 {
        assert(lines[0].1);
    } else {
        assert(lines[0].1);
    }
}

/// The commands that store a backup are performed one after another.
pub proof fn law_backup_is_stored(
    script: Script,
    details: BackupDetails,
    reply: Reply,
    step: Step<BackupState, BackupDetails>,
)
    requires
        backup_goes_on(BackupState::Storing { script, details }, Event::Replied(reply), step),
        !(reply is Failed),
    ensures
        if script.left@.len() == 0 {
            step matches Step::Done(Ok(d)) && d@ == details@
        } else {
            step matches Step::Do(BackupState::Storing { script: s, details: d }, a) && d@
                == details@ && a@ == ActionV::Run(script.left@[0].command@) && line_seq(s.left@)
                == line_seq(script.left@).skip(1)
        },
{
    let turn = choose|turn: Turn|
        script_goes_on(script, reply, turn) && #[trigger] backup_turns(turn, details@, step);
    assert(line_seq(script.left@).len() == script.left@.len());
}

// --- Giving it back ------------------------------------------------------------------

/// Restoring a backup stores every document as it was when it was copied: each
/// copy of the backup is read, and the document of each goes into the
/// collection of the new table.
pub proof fn law_restored_items_are_those_copied(
    arn: Seq<char>,
    account_id: Seq<char>,
    table_name: Seq<char>,
    table_id: Seq<char>,
    docs: Seq<DocV>,
    items: Seq<ItemV>,
    keys: Seq<ItemKey>,
    i: int,
)
    requires
        0 <= i < docs.len() <= i64::MAX,
        items.len() == docs.len(),
        keys.len() == docs.len(),
        item_document(items[i], keys[i]) == Ok::<DocV, ErrV>(docs[i]),
    ensures
        ({
            let copies = Seq::new(docs.len(), |j: int| backup_copy(arn, docs[j]));
            let lines = restore_lines(account_id, table_name, table_id, copies);
            &&& lines.len() == docs.len() + 1
            &&& lines[i].1
            &&& lines[i].0 matches CommandV::Insert { at, document } && at == table_place(table_id)
                && document.get("_id"@) == docs[i].get("_id"@) && document.get("pk"@)
                == docs[i].get("pk"@) && document.get("sk_s"@) == docs[i].get("sk_s"@)
                && document.get("sk_n"@) == docs[i].get("sk_n"@) && document.get("sk_b"@)
                == docs[i].get("sk_b"@) && document_item(document) == document_item(docs[i])
        }),
{
    crate::backup::law_restore_gives_back(arn, items[i], keys[i], docs[i]);
}

/// The items of a backup are restored from all its copies; the table is handed
/// out only once the last command was performed.
pub proof fn law_copies_are_restored(
    account_id: Seq<char>,
    table: TableDescription,
    arn: Seq<char>,
    copies: Vec<Document>,
    s0: Step<RestoreState, TableDescription>,
    s1: Step<RestoreState, TableDescription>,
)
    requires
        restore_begins(account_id, table, arn, s0),
        restore_goes_on(state_of(s0), Event::Replied(Reply::Many(copies)), s1),
    ensures
        command_of(s0) matches Some(CommandV::Find { at, filter, paging }) && at == in_catalog(
            "backup_items"@,
        ) && filter == copies_of(arn) && paging.limit is None,
        s1 matches Step::Do(RestoreState::Storing { script, table: t }, a) && {
            let lines = restore_lines(
                account_id,
                table.table_name@,
                table.table_id@,
                doc_seq(copies@),
            );
            &&& t == table
            &&& a@ == ActionV::Run(lines[0].0)
            &&& line_seq(script.left@) == lines.skip(1)
        },
{
    let lines = restore_lines(account_id, table.table_name@, table.table_id@, doc_seq(copies@));
    assert(lines.len() > 0);
    let turn = choose|turn: Turn|
        turns_to(lines, turn) && #[trigger] restore_turns(turn, table, s1);
}

/// The commands that restore a backup are performed one after another.
pub proof fn law_restoration_is_stored(
    script: Script,
    table: TableDescription,
    reply: Reply,
    step: Step<RestoreState, TableDescription>,
)
    requires
        restore_goes_on(RestoreState::Storing { script, table }, Event::Replied(reply), step),
        !(reply is Failed),
    ensures
        if script.left@.len() == 0 {
            step == Step::<RestoreState, TableDescription>::Done(Ok(table))
        } else {
            step matches Step::Do(RestoreState::Storing { script: s, table: t }, a) && t == table
                && a@ == ActionV::Run(script.left@[0].command@) && line_seq(s.left@) == line_seq(
                script.left@,
            ).skip(1)
        },
{
    let turn = choose|turn: Turn|
        script_goes_on(script, reply, turn) && #[trigger] restore_turns(turn, table, step);
    assert(line_seq(script.left@).len() == script.left@.len());
}

/// The last command of a restoration tells how many items there are, in the
/// entry of the table, and changes nothing else but the status.
pub proof fn law_restored_count_is_noted(
    account_id: Seq<char>,
    table_name: Seq<char>,
    table_id: Seq<char>,
    copies: Seq<DocV>,
    d: DocV,
    r: DocV,
    k: Seq<char>,
)
    requires
        copies.len() <= i64::MAX,
        restore_lines(account_id, table_name, table_id, copies).last().0 matches CommandV::Update {
            update,
            ..
        } && is_updated(update, false, d, r),
        is_name(k),
    ensures
        restore_lines(account_id, table_name, table_id, copies).last().0 matches CommandV::Update {
            at,
            filter,
            update,
            upsert,
        } && at == in_catalog("tables"@) && filter == table_filter_of(account_id, table_name)
            && !upsert && is_plain_update(update),
        r.get_i64("item_count"@) matches Some(n) && n == copies.len(),
        r.get_str("table_status"@) == Some("ACTIVE"@),
        k != "item_count"@ && k != "table_status"@ ==> r.get(k) == d.get(k),
{
    broadcast use crate::bson::group_document_fields;

    crate::entries::lemma_table_names();
    let fields = doc1("item_count"@, BsonV::Int64(copies.len() as i64)).with(
        "table_status"@,
        BsonV::Str("ACTIVE"@),
    );
    lemma_set(fields, false, d, r, "item_count"@);
    lemma_set(fields, false, d, r, "table_status"@);
    lemma_set(fields, false, d, r, k);
}

/// A backup that is restored is looked up while it is available, says of the
/// table what it kept of it, and the new table is created by that under the
/// name that was asked for, without indexes, stream and tags.
pub proof fn law_backup_is_restored_as_kept(
    target: RestoreTarget,
    arn: Seq<char>,
    p: Preparation,
    q: CreateBackup,
    s: SourceV,
    n: nat,
    schema: Seq<(Seq<char>, KeyType)>,
    definitions: Seq<(Seq<char>, ScalarAttributeType)>,
    entry: Document,
    s0: Step<RestoreBackupState, TableDescription>,
    s1: Step<RestoreBackupState, TableDescription>,
)
    requires
        entry@ == backup_document_of(q, s, n),
        s.key_schema == schema_bson(schema),
        s.attribute_definitions == defs_bson(definitions),
        restore_backup_begins(target, arn, s0),
        restore_backup_goes_on(state_of(s0), Event::Replied(Reply::One(Some(entry))), s1),
    ensures
        command_of(s0) == Some(find_available_of(arn)),
        s1 matches Step::Do(RestoreBackupState::Preparing { target: t, backup_arn, plan }, a) && {
            &&& t == target
            &&& backup_arn@ == arn
            &&& plan@.key_schema == schema
            &&& plan@.attribute_definitions == definitions
            &&& plan@.billing_mode == BillingMode::PayPerRequest <==> s.billing_mode
                == "PAY_PER_REQUEST"@
            &&& a@ == (ActionV::Prepare { key_schema: schema, attribute_definitions: definitions })
        },
{
    lemma_backup_fields(q, s, n);
    crate::schema_json::law_schema_round_trip(schema);
    crate::schema_json::law_definitions_round_trip(definitions);
}

#[verifier::rlimit(60)]
#[verifier::spinoff_prover]
proof fn lemma_backup_fields(q: CreateBackup, s: SourceV, n: nat)
    ensures
        ({
            let d = backup_document_of(q, s, n);
            &&& d.get("_id"@) == Some(BsonV::Str(backup_arn_of(q)))
            &&& d.get("account_id"@) == Some(BsonV::Str(q.account_id@))
            &&& d.get("table_name"@) == Some(BsonV::Str(q.table_name@))
            &&& d.get("backup_name"@) == Some(BsonV::Str(q.backup_name@))
            &&& d.get("backup_status"@) == Some(BsonV::Str("AVAILABLE"@))
            &&& d.get("created_at"@) == Some(BsonV::DateTime(q.now_millis))
            &&& d.get("key_schema"@) == Some(s.key_schema)
            &&& d.get("attribute_definitions"@) == Some(s.attribute_definitions)
            &&& d.get("billing_mode"@) == Some(BsonV::Str(s.billing_mode))
            &&& d.get("item_count"@) == Some(BsonV::Int64(n as i64))
        }),
        is_name("_id"@) && is_name("account_id"@) && is_name("table_name"@) && is_name(
            "backup_status"@,
        ) && is_name("created_at"@),
        "_id"@.len() == 3 && "account_id"@.len() == 10 && "table_name"@.len() == 10
            && "backup_status"@.len() == 13 && "created_at"@.len() == 10,
        "account_id"@[0] == 'a' && "table_name"@[0] == 't' && "created_at"@[0] == 'c',
{
    broadcast use crate::bson::group_document_fields;

    reveal_strlit("_id");
    reveal_strlit("backup_name");
    reveal_strlit("backup_status");
    reveal_strlit("backup_type");
    reveal_strlit("table_id");
    reveal_strlit("table_name");
    reveal_strlit("table_arn");
    reveal_strlit("account_id");
    reveal_strlit("backup_size_bytes");
    reveal_strlit("item_count");
    reveal_strlit("key_schema");
    reveal_strlit("attribute_definitions");
    reveal_strlit("billing_mode");
    reveal_strlit("created_at");
    reveal_strlit("table_creation_date_time");
    assert("_id"@.len() == 3 && "backup_name"@.len() == 11 && "backup_status"@.len() == 13);
    assert("backup_type"@.len() == 11 && "table_id"@.len() == 8 && "table_name"@.len() == 10);
    assert("table_arn"@.len() == 9 && "account_id"@.len() == 10 && "backup_size_bytes"@.len() == 17);
    assert("item_count"@.len() == 10 && "key_schema"@.len() == 10);
    assert("attribute_definitions"@.len() == 21 && "billing_mode"@.len() == 12);
    assert("created_at"@.len() == 10 && "table_creation_date_time"@.len() == 24);
    assert("table_name"@[0] == 't' && "account_id"@[0] == 'a' && "item_count"@[0] == 'i');
    assert("key_schema"@[0] == 'k' && "created_at"@[0] == 'c');
    assert("backup_name"@[7] == 'n' && "backup_type"@[7] == 't');
}

// --- Finding and deleting ------------------------------------------------------------

/// Backups are found by their names: to be restored while they are available,
/// and listed by account and table unless they were deleted, the latest first.
pub proof fn law_backups_are_found(
    before: spec_fn(BsonV, BsonV) -> bool,
    arn: Seq<char>,
    account_id: Seq<char>,
    table_name: Option<Seq<char>>,
    q: CreateBackup,
    s: SourceV,
    n: nat,
    q2: CreateBackup,
    s2: SourceV,
    n2: nat,
    status: Seq<char>,
)
    requires
        orders_times(before),
    ensures
        ({
            let d = backup_document_of(q, s, n).with("backup_status"@, BsonV::Str(status));
            let d2 = backup_document_of(q2, s2, n2);
            &&& find_backup_of(arn) matches CommandV::FindOne { at, filter } && at == in_catalog(
                "backups"@,
            ) && matches_filter(before, filter, d) == (arn == backup_arn_of(q))
            &&& find_available_of(arn) matches CommandV::FindOne { at, filter } && at
                == in_catalog("backups"@) && matches_filter(before, filter, d) == (arn
                == backup_arn_of(q) && status == "AVAILABLE"@)
            &&& list_backups_of(account_id, table_name) matches CommandV::Find {
                at,
                filter,
                paging,
            } && at == in_catalog("backups"@) && matches_filter(before, filter, d) == (account_id
                == q.account_id@ && status != "DELETED"@ && (table_name matches Some(t) ==> t
                == q.table_name@)) && paging.limit is None && paging.sort is Some && comes_before(
                before,
                paging.sort->0.entries,
                d,
                d2,
            ) == (q2.now_millis < q.now_millis)
        }),
{
    broadcast use crate::bson::group_document_fields;

    lemma_words();
    reveal_strlit("$ne");
    lemma_backup_fields(q, s, n);
    lemma_backup_fields(q2, s2, n2);
    let d = backup_document_of(q, s, n).with("backup_status"@, BsonV::Str(status));
    let d2 = backup_document_of(q2, s2, n2);
    lemma_one_clause(before, "_id"@, BsonV::Str(arn), d);
    lemma_plain_clause(before, "_id"@, BsonV::Str(arn), d);
    let by_name = doc1("_id"@, BsonV::Str(arn));
    lemma_more_clauses(before, by_name, "backup_status"@, BsonV::Str("AVAILABLE"@), d);
    lemma_plain_clause(before, "backup_status"@, BsonV::Str("AVAILABLE"@), d);
    let f = doc1("account_id"@, BsonV::Str(account_id));
    lemma_one_clause(before, "account_id"@, BsonV::Str(account_id), d);
    lemma_plain_clause(before, "account_id"@, BsonV::Str(account_id), d);
    let kept = obj1("$ne"@, BsonV::Str("DELETED"@));
    lemma_more_clauses(before, f, "backup_status"@, kept, d);
    lemma_asked_clause(before, "backup_status"@, "$ne"@, BsonV::Str("DELETED"@), d);
    if let Some(t) = table_name {
        let g = f.with("backup_status"@, kept);
        lemma_more_clauses(before, g, "table_name"@, BsonV::Str(t), d);
        lemma_plain_clause(before, "table_name"@, BsonV::Str(t), d);
    }
    lemma_one_sort(before, "created_at"@, (-1) as i32, d, d2);
}

/// A backup that is deleted loses its copies, and no other backup does; it
/// stays known as deleted, and is handed out as such.
pub proof fn law_backup_is_deleted(
    arn: Seq<char>,
    entry: Document,
    r1: Reply,
    r2: Reply,
    d: DocV,
    r: DocV,
    k: Seq<char>,
    s0: Step<DeleteBackupState, BackupDescription>,
    s1: Step<DeleteBackupState, BackupDescription>,
    s2: Step<DeleteBackupState, BackupDescription>,
    s3: Step<DeleteBackupState, BackupDescription>,
)
    requires
        delete_backup_begins(arn, s0),
        backup_of(arn, entry@) is Ok,
        !(r1 is Failed) && !(r2 is Failed),
        delete_backup_goes_on(state_of(s0), Event::Replied(Reply::One(Some(entry))), s1),
        delete_backup_goes_on(state_of(s1), Event::Replied(r1), s2),
        delete_backup_goes_on(state_of(s2), Event::Replied(r2), s3),
        command_of(s2) matches Some(CommandV::Update { update, .. }) && is_updated(
            update,
            false,
            d,
            r,
        ),
        is_name(k),
    ensures
        command_of(s0) == Some(find_backup_of(arn)),
        command_of(s1) == Some(
            CommandV::DeleteMany { at: in_catalog("backup_items"@), filter: copies_of(arn) },
        ),
        command_of(s2) matches Some(CommandV::Update { at, filter, update, upsert }) && at
            == in_catalog("backups"@) && filter == doc1("_id"@, BsonV::Str(arn)) && !upsert
            && is_plain_update(update),
        r.get_str("backup_status"@) == Some("DELETED"@),
        k != "backup_status"@ ==> r.get(k) == d.get(k),
        s3 matches Step::Done(Ok(x)) && x@.details.backup_status == "DELETED"@ && x@.details.backup_arn
            == arn && x@.table_id == backup_of(arn, entry@)->Ok_0.table_id && x@.table_name
            == backup_of(arn, entry@)->Ok_0.table_name && x@.item_count == backup_of(
            arn,
            entry@,
        )->Ok_0.item_count,
{
    broadcast use crate::bson::group_document_fields;

    reveal_strlit("backup_status");
    assert(is_name("backup_status"@));
    let fields = doc1("backup_status"@, BsonV::Str("DELETED"@));
    lemma_set(fields, false, d, r, "backup_status"@);
    lemma_set(fields, false, d, r, k);
}

// --- Recovery ------------------------------------------------------------------------

/// Changing the recovery of a table changes its settings, or adds them, and
/// tells what was set when it is read; settings of other tables are not found.
pub proof fn law_recovery_is_changed(
    before: spec_fn(BsonV, BsonV) -> bool,
    account_id: Seq<char>,
    table_name: Seq<char>,
    enabled: bool,
    d: DocV,
    of: Seq<char>,
    name: Seq<char>,
    r: DocV,
    seed: DocV,
    first: DocV,
)
    requires
        d.get("account_id"@) == Some(BsonV::Str(of)),
        d.get("table_name"@) == Some(BsonV::Str(name)),
        set_recovery_of(account_id, table_name, enabled) matches CommandV::Update {
            filter,
            update,
            ..
        } && is_updated(update, false, d, r) && is_seed(filter, seed) && is_updated(
            update,
            true,
            seed,
            first,
        ),
    ensures
        set_recovery_of(account_id, table_name, enabled) matches CommandV::Update {
            at,
            filter,
            update,
            upsert,
        } && at == in_catalog("continuous_backups"@) && upsert && is_plain_update(update)
            && matches_filter(before, filter, d) == (of == account_id && name == table_name),
        bool_or(r, "pitr_enabled"@, false) == enabled,
        bool_or(first, "pitr_enabled"@, false) == enabled,
        matches_filter(before, settings_filter_of(account_id, table_name), first),
{
    broadcast use crate::bson::group_document_fields;

    crate::entries::lemma_table_names();
    reveal_strlit("pitr_enabled");
    assert("pitr_enabled"@.len() == 12);
    assert(is_name("pitr_enabled"@));
    let f = doc1("account_id"@, BsonV::Str(account_id));
    let fields = settings_filter_of(account_id, table_name).with(
        "pitr_enabled"@,
        BsonV::Boolean(enabled),
    );
    lemma_one_clause(before, "account_id"@, BsonV::Str(account_id), d);
    lemma_plain_clause(before, "account_id"@, BsonV::Str(account_id), d);
    lemma_more_clauses(before, f, "table_name"@, BsonV::Str(table_name), d);
    lemma_plain_clause(before, "table_name"@, BsonV::Str(table_name), d);
    lemma_set(fields, false, d, r, "pitr_enabled"@);
    lemma_set(fields, true, seed, first, "pitr_enabled"@);
    lemma_set(fields, true, seed, first, "account_id"@);
    lemma_set(fields, true, seed, first, "table_name"@);
    lemma_one_clause(before, "account_id"@, BsonV::Str(account_id), first);
    lemma_plain_clause(before, "account_id"@, BsonV::Str(account_id), first);
    lemma_more_clauses(before, f, "table_name"@, BsonV::Str(table_name), first);
    lemma_plain_clause(before, "table_name"@, BsonV::Str(table_name), first);
}

/// The recovery of a table is told as it is set: enabled, it reaches back
/// thirty-five days; settings that are missing count as disabled.
pub proof fn law_recovery_is_told(
    now: u64,
    found: Option<Document>,
    step: Step<RecoveryState, Recovery>,
)
    requires
        recovery_goes_on(
            RecoveryState::Reading { now },
            Event::Replied(Reply::One(found)),
            step,
        ),
    ensures
        step matches Step::Done(Ok(r)) && {
            &&& r.enabled == (found matches Some(d) && d@.get_bool("pitr_enabled"@) == Some(true))
            &&& r.enabled ==> (r.latest matches Some(l) && l == now) && (r.earliest matches Some(e)
                && e == now - 35 * 86400)
            &&& !r.enabled ==> r.latest is None && r.earliest is None
        },
{
}

/// A change of the recovery is made once the table was found, and is read
/// anew afterwards.
pub proof fn law_change_of_recovery_is_read_anew(
    q: RecoveryRequest,
    entry: Document,
    enabled: bool,
    any: Reply,
    s0: Step<RecoveryState, Recovery>,
    s1: Step<RecoveryState, Recovery>,
    s2: Step<RecoveryState, Recovery>,
    s3: Step<RecoveryState, Recovery>,
)
    requires
        q.change == Some(enabled),
        !(any is Failed),
        recovery_begins(q, s0),
        recovery_goes_on(state_of(s0), Event::Replied(Reply::One(Some(entry))), s1),
        recovery_goes_on(state_of(s1), Event::Replied(any), s2),
        recovery_goes_on(state_of(s2), Event::Replied(Reply::One(Some(entry))), s3),
    ensures
        command_of(s0) == Some(
            CommandV::FindOne {
                at: in_catalog("tables"@),
                filter: table_filter_of(q.account_id@, q.table_name@),
            },
        ),
        command_of(s1) == Some(set_recovery_of(q.account_id@, q.table_name@, enabled)),
        command_of(s2) == command_of(s0),
        command_of(s3) == Some(
            CommandV::FindOne {
                at: in_catalog("continuous_backups"@),
                filter: settings_filter_of(q.account_id@, q.table_name@),
            },
        ),
        state_of(s3) == (RecoveryState::Reading { now: q.now }),
{
}

} // verus!
