//! Point-in-time recovery of tables.

use vstd::prelude::*;
use vstd::string::*;

use crate::bson::{doc1, Bson, BsonV, DocV, Document};
use crate::catalog::{find_table, find_table_of};
use crate::error::{ErrV, StorageError};
use crate::protocol::{
    fail_unexpected, fails, in_catalog, run, runs, unexpected, Command, CommandV, Event, Place,
    Reply, Step,
};
use crate::table::bool_or;

verus! {

/// How far back a table can be recovered, in seconds: 35 days.
pub const RECOVERY_WINDOW: i128 = 3_024_000;

/// What is known of the recovery of a table.
#[derive(Debug, Clone, Copy, PartialEq, Eq, Structural)]
pub struct Recovery {
    pub enabled: bool,
    /// The earliest time to recover, in seconds, where recovery is enabled.
    pub earliest: Option<i128>,
    /// The latest time to recover, in seconds, where recovery is enabled.
    pub latest: Option<i128>,
}

/// What is known of the recovery of a table at a time.
pub open spec fn recovery_at(enabled: bool, now: u64) -> Recovery {
    if enabled {
        Recovery {
            enabled,
            earliest: Some((now - RECOVERY_WINDOW) as i128),
            latest: Some(now as i128),
        }
    } else {
        Recovery { enabled, earliest: None, latest: None }
    }
}

/// A lookup or a change of the recovery of a table.
#[derive(Debug, PartialEq)]
pub struct RecoveryRequest {
    pub account_id: String,
    pub table_name: String,
    /// The time in seconds.
    pub now: u64,
    /// Whether recovery is to be enabled; `None` leaves it as it is.
    pub change: Option<bool>,
}

/// Where a lookup or a change of the recovery of a table stands.
#[derive(Debug, PartialEq)]
pub enum RecoveryState {
    FindingTable(RecoveryRequest),
    Changing(RecoveryRequest),
    Reading { now: u64 },
}

/// The filter that finds the recovery settings of a table.
pub open spec fn settings_filter_of(account_id: Seq<char>, table_name: Seq<char>) -> DocV {
    doc1("account_id"@, BsonV::Str(account_id)).with("table_name"@, BsonV::Str(table_name))
}

/// The command that changes the recovery settings of a table.
pub open spec fn set_recovery_of(account_id: Seq<char>, table_name: Seq<char>, enabled: bool) -> CommandV {
    CommandV::Update {
        at: in_catalog("continuous_backups"@),
        filter: settings_filter_of(account_id, table_name),
        update: doc1(
            "$set"@,
            BsonV::Doc(
                settings_filter_of(account_id, table_name).with(
                    "pitr_enabled"@,
                    BsonV::Boolean(enabled),
                ),
            ),
        ),
        upsert: true,
    }
}

/// How a lookup or a change of the recovery of a table begins.
pub open spec fn recovery_begins(q: RecoveryRequest, step: Step<RecoveryState, Recovery>) -> bool {
    runs(step, RecoveryState::FindingTable(q), find_table_of(q.account_id@, q.table_name@))
}

/// How a lookup or a change of the recovery of a table goes on with an event.
pub open spec fn recovery_goes_on(
    state: RecoveryState,
    event: Event,
    step: Step<RecoveryState, Recovery>,
) -> bool {
    match (state, event) {
        (_, Event::Replied(Reply::Failed(e))) => fails(step, ErrV::Internal(e.message@)),
        (RecoveryState::FindingTable(q), Event::Replied(Reply::One(None))) => fails(
            step,
            ErrV::TableNotFound(q.table_name@),
        ),
        (RecoveryState::FindingTable(q), Event::Replied(Reply::One(Some(_)))) => match q.change {
            Some(enabled) => runs(
                step,
                RecoveryState::Changing(q),
                set_recovery_of(q.account_id@, q.table_name@, enabled),
            ),
            None => runs(
                step,
                RecoveryState::Reading { now: q.now },
                CommandV::FindOne {
                    at: in_catalog("continuous_backups"@),
                    filter: settings_filter_of(q.account_id@, q.table_name@),
                },
            ),
        },
        (RecoveryState::Changing(q), Event::Replied(_)) => recovery_begins(
            RecoveryRequest { change: None, ..q },
            step,
        ),
        (RecoveryState::Reading { now }, Event::Replied(Reply::One(d))) => step == Step::<
            RecoveryState,
            Recovery,
        >::Done(
            Ok(
                recovery_at(
                    match d {
                        Some(d) => bool_or(d@, "pitr_enabled"@, false),
                        None => false,
                    },
                    now,
                ),
            ),
        ),
        _ => fails(step, unexpected()),
    }
}

fn settings_filter(account_id: &str, table_name: &str) -> (r: Document)
    ensures
        r@ == settings_filter_of(account_id@, table_name@),
{
    Document::new().with("account_id", Bson::text(account_id)).with(
        "table_name",
        Bson::text(table_name),
    )
}

/// Begins a lookup or a change of the recovery of a table.
pub fn recovery_start(q: RecoveryRequest) -> (step: Step<RecoveryState, Recovery>)
    ensures
        recovery_begins(q, step),
{
    let command = find_table(q.account_id.as_str(), q.table_name.as_str());
    run(RecoveryState::FindingTable(q), command)
}

/// What is known of the recovery of a table at a time, in seconds.
pub fn recovery_status(enabled: bool, now: u64) -> (r: Recovery)
    ensures
        r == recovery_at(enabled, now),
{
    if enabled {
        let latest: i128 = now as i128;
        Recovery { enabled, earliest: Some(latest - RECOVERY_WINDOW), latest: Some(latest) }
    } else {
        Recovery { enabled, earliest: None, latest: None }
    }
}

/// Goes on with a lookup or a change of the recovery of a table.
pub fn recovery_next(state: RecoveryState, event: Event) -> (step: Step<RecoveryState, Recovery>)
    ensures
        recovery_goes_on(state, event, step),
{
    match (state, event) {
        (_, Event::Replied(Reply::Failed(e))) => Step::Done(
            Err(StorageError::Internal(e.message)),
        ),
        (RecoveryState::FindingTable(q), Event::Replied(Reply::One(None))) => Step::Done(
            Err(StorageError::TableNotFound(q.table_name)),
        ),
        (RecoveryState::FindingTable(q), Event::Replied(Reply::One(Some(_)))) => {
            let filter = settings_filter(q.account_id.as_str(), q.table_name.as_str());
            match q.change {
                Some(enabled) => {
                    let set = settings_filter(q.account_id.as_str(), q.table_name.as_str()).with(
                        "pitr_enabled",
                        Bson::Boolean(enabled),
                    );
                    run(
                        RecoveryState::Changing(q),
                        Command::Update {
                            at: Place::catalog("continuous_backups"),
                            filter,
                            update: Document::new().with("$set", Bson::Document(set)),
                            upsert: true,
                        },
                    )
                },
                None => run(
                    RecoveryState::Reading { now: q.now },
                    Command::FindOne { at: Place::catalog("continuous_backups"), filter },
                ),
            }
        },
        (RecoveryState::Changing(q), Event::Replied(_)) => {
            let mut q = q;
            q.change = None;
            recovery_start(q)
        },
        (RecoveryState::Reading { now }, Event::Replied(Reply::One(d))) => {
            let enabled = match &d {
                Some(d) => match d.get_bool("pitr_enabled") {
                    Some(b) => b,
                    None => false,
                },
                None => false,
            };
            Step::Done(Ok(recovery_status(enabled, now)))
        },
        _ => fail_unexpected(),
    }
}

// --- Laws --------------------------------------------------------------------------

/// A setting that was changed is the one that is read afterwards.
pub proof fn law_change_is_read(account_id: Seq<char>, table_name: Seq<char>, enabled: bool)
    ensures
        bool_or(
            settings_filter_of(account_id, table_name).with(
                "pitr_enabled"@,
                BsonV::Boolean(enabled),
            ),
            "pitr_enabled"@,
            false,
        ) == enabled,
{
    broadcast use crate::bson::group_document_fields;

}

} // verus!
