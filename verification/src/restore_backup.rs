//! Restoring a table from a backup that is looked up first.

use vstd::prelude::*;
use vstd::string::*;

use crate::backup::{
    find_available_backup, find_available_of, plan_said, restore_plan_reply, RestorePlan,
};
use crate::clock::is_time;
use crate::protocol::{
    fail_unexpected, fails, run, unexpected, Action, ActionV, Event, Preparation, Reply, Step,
};
use crate::restore_table::{
    restore_table_begins, restore_table_goes_on, restore_table_next, restore_table_start,
    RestoreTable, RestoreTableState,
};
use crate::schema::copy_schema;
use crate::schema_json::copy_defs;
use crate::table::TableDescription;

verus! {

/// The table that a backup is restored to.
#[derive(Debug, PartialEq)]
pub struct RestoreTarget {
    pub account_id: String,
    pub table_name: String,
    pub table_arn: String,
}

/// Where the restoration of a backup stands.
#[derive(Debug, PartialEq)]
pub enum RestoreBackupState {
    /// The backup is being looked up.
    Finding { target: RestoreTarget, backup_arn: String },
    /// What is needed to create the table is being asked for.
    Preparing { target: RestoreTarget, backup_arn: String, plan: RestorePlan },
    Restoring(RestoreTableState),
}

/// The table to restore, once the type of its sort key is known.
pub open spec fn table_to_restore(
    target: RestoreTarget,
    backup_arn: String,
    p: Preparation,
) -> RestoreTable {
    RestoreTable {
        account_id: target.account_id,
        table_name: target.table_name,
        table_arn: target.table_arn,
        backup_arn,
        sort_key: p.sort_key,
    }
}

/// A step of restoring the table is the next step.
pub open spec fn restore_leads(
    inner: Step<RestoreTableState, TableDescription>,
    step: Step<RestoreBackupState, TableDescription>,
) -> bool {
    match inner {
        Step::Do(s, a) => step == Step::<RestoreBackupState, TableDescription>::Do(
            RestoreBackupState::Restoring(s),
            a,
        ),
        Step::Done(r) => step == Step::<RestoreBackupState, TableDescription>::Done(r),
    }
}

/// How the restoration of a backup begins.
pub open spec fn restore_backup_begins(
    target: RestoreTarget,
    arn: Seq<char>,
    step: Step<RestoreBackupState, TableDescription>,
) -> bool {
    &&& step matches Step::Do(RestoreBackupState::Finding { target: t, backup_arn }, a)
    &&& t == target
    &&& backup_arn@ == arn
    &&& a@ == ActionV::Run(find_available_of(arn))
}

/// How the restoration of a backup goes on with an event.
pub open spec fn restore_backup_goes_on(
    state: RestoreBackupState,
    event: Event,
    step: Step<RestoreBackupState, TableDescription>,
) -> bool {
    match (state, event) {
        (
            RestoreBackupState::Finding { target, backup_arn },
            Event::Replied(r),
        ) => match plan_said(backup_arn@, r) {
            Err(e) => fails(step, e),
            Ok(p) => {
                &&& step matches Step::Do(
                    RestoreBackupState::Preparing { target: t, backup_arn: b, plan },
                    a,
                )
                &&& t == target
                &&& b == backup_arn
                &&& plan@ == p
                &&& a@ == (ActionV::Prepare {
                    key_schema: p.key_schema,
                    attribute_definitions: p.attribute_definitions,
                })
            },
        },
        (
            RestoreBackupState::Preparing { target, backup_arn, plan },
            Event::Prepared(p),
        ) => exists|x: Step<RestoreTableState, TableDescription>|
            restore_table_begins(table_to_restore(target, backup_arn, p), plan, p.fresh, x)
                && #[trigger] restore_leads(x, step),
        (RestoreBackupState::Restoring(inner), _) => exists|
            x: Step<RestoreTableState, TableDescription>,
        |
            restore_table_goes_on(inner, event, x) && #[trigger] restore_leads(x, step),
        _ => fails(step, unexpected()),
    }
}

fn lead_restore(inner: Step<RestoreTableState, TableDescription>) -> (step: Step<
    RestoreBackupState,
    TableDescription,
>)
    ensures
        restore_leads(inner, step),
{
    match inner {
        Step::Do(s, a) => Step::Do(RestoreBackupState::Restoring(s), a),
        Step::Done(r) => Step::Done(r),
    }
}

/// Begins to restore a backup.
pub fn restore_backup_start(target: RestoreTarget, backup_arn: &str) -> (step: Step<
    RestoreBackupState,
    TableDescription,
>)
    ensures
        restore_backup_begins(target, backup_arn@, step),
{
    let command = find_available_backup(backup_arn);
    run(RestoreBackupState::Finding { target, backup_arn: backup_arn.to_owned() }, command)
}

/// The preparation fits the table of a backup, which has no indexes.
pub open spec fn fits_backup(event: Event) -> bool {
    &&& event matches Event::Prepared(p) ==> p.fresh.ids@.len() == 0 && is_time(p.fresh.now_nanos)
    &&& event matches Event::Replied(Reply::Many(docs)) ==> docs@.len() <= i64::MAX
}

/// Goes on with restoring a backup.
pub fn restore_backup_next(state: RestoreBackupState, event: Event) -> (step: Step<
    RestoreBackupState,
    TableDescription,
>)
    requires
        fits_backup(event),
    ensures
        restore_backup_goes_on(state, event, step),
{
    match (state, event) {
        (RestoreBackupState::Finding { target, backup_arn }, Event::Replied(r)) => {
            match restore_plan_reply(backup_arn.as_str(), &r) {
                Err(e) => Step::Done(Err(e)),
                Ok(plan) => {
                    let key_schema = copy_schema(&plan.key_schema);
                    let attribute_definitions = copy_defs(&plan.attribute_definitions);
                    Step::Do(
                        RestoreBackupState::Preparing { target, backup_arn, plan },
                        Action::Prepare { key_schema, attribute_definitions },
                    )
                },
            }
        },
        (RestoreBackupState::Preparing { target, backup_arn, plan }, Event::Prepared(p)) => {
            let table = RestoreTable {
                account_id: target.account_id,
                table_name: target.table_name,
                table_arn: target.table_arn,
                backup_arn,
                sort_key: p.sort_key,
            };
            let x = restore_table_start(table, plan, p.fresh);
            lead_restore(x)
        },
        (RestoreBackupState::Restoring(inner), event) => {
            let x = restore_table_next(inner, event);
            lead_restore(x)
        },
        _ => fail_unexpected(),
    }
}

} // verus!
