//! Restoring a table to the present: a backup of it is made, restored under
//! another name, and deleted.

use vstd::prelude::*;
use vstd::string::*;

use crate::backup::{
    backup_begins, backup_goes_on, create_backup_next, create_backup_start, delete_backup_begins,
    delete_backup_goes_on, delete_backup_next, delete_backup_start, point_in_time_backup_name,
    BackupDescription, BackupDetails, BackupState, CreateBackup, DeleteBackupState,
};
use crate::protocol::{Event, Step};
use crate::restore_backup::{
    fits_backup, restore_backup_begins, restore_backup_goes_on, restore_backup_next,
    restore_backup_start, RestoreBackupState, RestoreTarget,
};
use crate::table::TableDescription;

verus! {

/// A table that is to be restored.
#[derive(Debug, PartialEq)]
pub struct PointInTime {
    pub account_id: String,
    pub source_table_name: String,
    pub target: RestoreTarget,
    pub region: String,
    /// The time in milliseconds, by which the backup is named.
    pub epoch_millis: u128,
    /// The time in milliseconds.
    pub now_millis: i64,
    /// The time in seconds.
    pub now_secs: u64,
}

/// Where the restoration stands.
#[derive(Debug, PartialEq)]
pub enum PointInTimeState {
    BackingUp { target: RestoreTarget, inner: BackupState },
    Restoring { backup_arn: String, inner: RestoreBackupState },
    /// The table is restored; the backup is being deleted.
    Deleting { table: TableDescription, inner: DeleteBackupState },
}

/// The backup that a restoration goes through.
pub open spec fn is_backup_for(q: CreateBackup, p: PointInTime) -> bool {
    &&& q.account_id == p.account_id
    &&& q.table_name == p.source_table_name
    &&& q.backup_name@ == "__pitr_restore__"@
    &&& q.region == p.region
    &&& q.epoch_millis == p.epoch_millis
    &&& q.now_millis == p.now_millis
    &&& q.now_secs == p.now_secs
}

/// What follows a step of the deletion: however it ends, the table is handed
/// out.
pub open spec fn delete_leads(
    table: TableDescription,
    inner: Step<DeleteBackupState, BackupDescription>,
    step: Step<PointInTimeState, TableDescription>,
) -> bool {
    match inner {
        Step::Do(s, a) => step == Step::<PointInTimeState, TableDescription>::Do(
            PointInTimeState::Deleting { table, inner: s },
            a,
        ),
        Step::Done(_) => step == Step::<PointInTimeState, TableDescription>::Done(Ok(table)),
    }
}

/// What follows a step of the restoration of the backup: once the table is
/// there, the backup is deleted.
pub open spec fn restore_leads(
    backup_arn: Seq<char>,
    inner: Step<RestoreBackupState, TableDescription>,
    step: Step<PointInTimeState, TableDescription>,
) -> bool {
    match inner {
        Step::Do(s, a) => {
            &&& step matches Step::Do(PointInTimeState::Restoring { backup_arn: b, inner: i }, x)
            &&& b@ == backup_arn
            &&& i == s
            &&& x == a
        },
        Step::Done(Err(e)) => step == Step::<PointInTimeState, TableDescription>::Done(Err(e)),
        Step::Done(Ok(table)) => exists|x: Step<DeleteBackupState, BackupDescription>|
            delete_backup_begins(backup_arn, x) && #[trigger] delete_leads(table, x, step),
    }
}

/// What follows a step of the creation of the backup: once it is there, it is
/// restored.
pub open spec fn backup_leads(
    target: RestoreTarget,
    inner: Step<BackupState, BackupDetails>,
    step: Step<PointInTimeState, TableDescription>,
) -> bool {
    match inner {
        Step::Do(s, a) => step == Step::<PointInTimeState, TableDescription>::Do(
            PointInTimeState::BackingUp { target, inner: s },
            a,
        ),
        Step::Done(Err(e)) => step == Step::<PointInTimeState, TableDescription>::Done(Err(e)),
        Step::Done(Ok(details)) => exists|x: Step<RestoreBackupState, TableDescription>|
            restore_backup_begins(target, details.backup_arn@, x) && #[trigger] restore_leads(
                details.backup_arn@,
                x,
                step,
            ),
    }
}

/// How the restoration begins.
pub open spec fn point_in_time_begins(
    p: PointInTime,
    step: Step<PointInTimeState, TableDescription>,
) -> bool {
    exists|q: CreateBackup, x: Step<BackupState, BackupDetails>|
        is_backup_for(q, p) && #[trigger] backup_begins(q, x) && backup_leads(p.target, x, step)
}

/// How the restoration goes on with an event.
pub open spec fn point_in_time_goes_on(
    state: PointInTimeState,
    event: Event,
    step: Step<PointInTimeState, TableDescription>,
) -> bool {
    match state {
        PointInTimeState::BackingUp { target, inner } => exists|
            x: Step<BackupState, BackupDetails>,
        |
            backup_goes_on(inner, event, x) && #[trigger] backup_leads(target, x, step),
        PointInTimeState::Restoring { backup_arn, inner } => exists|
            x: Step<RestoreBackupState, TableDescription>,
        |
            restore_backup_goes_on(inner, event, x) && #[trigger] restore_leads(
                backup_arn@,
                x,
                step,
            ),
        PointInTimeState::Deleting { table, inner } => exists|
            x: Step<DeleteBackupState, BackupDescription>,
        |
            delete_backup_goes_on(inner, event, x) && #[trigger] delete_leads(table, x, step),
    }
}

fn lead_delete(
    table: TableDescription,
    inner: Step<DeleteBackupState, BackupDescription>,
) -> (step: Step<PointInTimeState, TableDescription>)
    ensures
        delete_leads(table, inner, step),
{
    match inner {
        Step::Do(s, a) => Step::Do(PointInTimeState::Deleting { table, inner: s }, a),
        Step::Done(_) => Step::Done(Ok(table)),
    }
}

fn lead_restore(
    backup_arn: String,
    inner: Step<RestoreBackupState, TableDescription>,
) -> (step: Step<PointInTimeState, TableDescription>)
    ensures
        restore_leads(backup_arn@, inner, step),
{
    match inner {
        Step::Do(s, a) => Step::Do(PointInTimeState::Restoring { backup_arn, inner: s }, a),
        Step::Done(Err(e)) => Step::Done(Err(e)),
        Step::Done(Ok(table)) => {
            let x = delete_backup_start(backup_arn.as_str());
            lead_delete(table, x)
        },
    }
}

fn lead_backup(target: RestoreTarget, inner: Step<BackupState, BackupDetails>) -> (step: Step<
    PointInTimeState,
    TableDescription,
>)
    ensures
        backup_leads(target, inner, step),
{
    match inner {
        Step::Do(s, a) => Step::Do(PointInTimeState::BackingUp { target, inner: s }, a),
        Step::Done(Err(e)) => Step::Done(Err(e)),
        Step::Done(Ok(details)) => {
            let x = restore_backup_start(target, details.backup_arn.as_str());
            lead_restore(details.backup_arn, x)
        },
    }
}

/// Begins to restore a table.
pub fn point_in_time_start(p: PointInTime) -> (step: Step<PointInTimeState, TableDescription>)
    ensures
        point_in_time_begins(p, step),
{
    let q = CreateBackup {
        account_id: p.account_id,
        table_name: p.source_table_name,
        backup_name: point_in_time_backup_name().to_owned(),
        region: p.region,
        epoch_millis: p.epoch_millis,
        now_millis: p.now_millis,
        now_secs: p.now_secs,
    };
    let ghost request = q;
    let x = create_backup_start(q);
    assert(is_backup_for(request, p) && backup_begins(request, x));
    lead_backup(p.target, x)
}

/// Goes on with restoring a table.
pub fn point_in_time_next(state: PointInTimeState, event: Event) -> (step: Step<
    PointInTimeState,
    TableDescription,
>)
    requires
        fits_backup(event),
    ensures
        point_in_time_goes_on(state, event, step),
{
    match state {
        PointInTimeState::BackingUp { target, inner } => {
            let x = create_backup_next(inner, event);
            lead_backup(target, x)
        },
        PointInTimeState::Restoring { backup_arn, inner } => {
            let x = restore_backup_next(inner, event);
            lead_restore(backup_arn, x)
        },
        PointInTimeState::Deleting { table, inner } => {
            let x = delete_backup_next(inner, event);
            lead_delete(table, x)
        },
    }
}

// --- Laws --------------------------------------------------------------------------

/// A table that was restored is handed out, whatever becomes of the backup:
/// while that is deleted, the restoration does not fail.
pub proof fn law_restored_table_is_handed_out(
    table: TableDescription,
    inner: DeleteBackupState,
    event: Event,
    step: Step<PointInTimeState, TableDescription>,
)
    requires
        point_in_time_goes_on(PointInTimeState::Deleting { table, inner }, event, step),
    ensures
        match step {
            Step::Do(PointInTimeState::Deleting { table: t, .. }, _) => t == table,
            Step::Do(_, _) => false,
            Step::Done(r) => r == Ok::<TableDescription, crate::error::StorageError>(table),
        },
{
}

/// The restoration ends well only after the backup was to be deleted.
pub proof fn law_backup_is_cleared_away(
    state: PointInTimeState,
    event: Event,
    step: Step<PointInTimeState, TableDescription>,
)
    requires
        point_in_time_goes_on(state, event, step),
        step is Done,
        step->Done_0 is Ok,
    ensures
        state is Deleting,
{
}

} // verus!
