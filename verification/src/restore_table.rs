//! Restoring a table from a backup: the table is created, and the copies of the
//! items are stored in it.

use vstd::prelude::*;
use vstd::string::*;

use crate::backup::{
    is_request_of, restore_begins, restore_goes_on, restore_items_next, restore_items_start,
    restore_request, RestorePlan, RestoreState,
};
use crate::clock::{is_time, Fresh};
use crate::create_table::{
    create_begins, create_goes_on, create_table_next, create_table_start, CreateState, CreateTable,
};
use crate::protocol::{Event, Reply, Step};
use crate::schema::ScalarAttributeType;
use crate::table::TableDescription;

verus! {

/// What was done last to restore a table.
#[derive(Debug, PartialEq)]
pub enum RestoreTableState {
    /// The table is created.
    Creating { account_id: String, backup_arn: String, inner: CreateState },
    /// The items are stored.
    Filling(RestoreState),
}

/// A table to restore under a new name.
#[derive(Debug, PartialEq)]
pub struct RestoreTable {
    pub account_id: String,
    pub table_name: String,
    pub table_arn: String,
    pub backup_arn: String,
    /// The type of the sort key of the table.
    pub sort_key: Option<ScalarAttributeType>,
}

/// A step of storing the items is the next step.
pub open spec fn fill_leads(
    inner: Step<RestoreState, TableDescription>,
    step: Step<RestoreTableState, TableDescription>,
) -> bool {
    match inner {
        Step::Do(s, a) => step == Step::<RestoreTableState, TableDescription>::Do(
            RestoreTableState::Filling(s),
            a,
        ),
        Step::Done(r) => step == Step::<RestoreTableState, TableDescription>::Done(r),
    }
}

/// What follows a step of the creation: once the table is there, its items are
/// stored.
pub open spec fn create_leads(
    account_id: Seq<char>,
    backup_arn: Seq<char>,
    inner: Step<CreateState, TableDescription>,
    step: Step<RestoreTableState, TableDescription>,
) -> bool {
    match inner {
        Step::Do(s, a) => {
            &&& step matches Step::Do(
                RestoreTableState::Creating { account_id: n, backup_arn: b, inner: i },
                x,
            )
            &&& n@ == account_id
            &&& b@ == backup_arn
            &&& i == s
            &&& x == a
        },
        Step::Done(Err(e)) => step == Step::<RestoreTableState, TableDescription>::Done(Err(e)),
        Step::Done(Ok(table)) => exists|x: Step<RestoreState, TableDescription>|
            restore_begins(account_id, table, backup_arn, x) && #[trigger] fill_leads(x, step),
    }
}

/// The first step of restoring a table.
pub open spec fn restore_table_begins(
    r: RestoreTable,
    plan: RestorePlan,
    f: Fresh,
    step: Step<RestoreTableState, TableDescription>,
) -> bool {
    exists|q: CreateTable, inner: Step<CreateState, TableDescription>|
        is_request_of(q, plan, r.account_id@, r.table_name@, r.table_arn@, r.sort_key)
            && #[trigger] create_begins(q, f, inner) && create_leads(
            r.account_id@,
            r.backup_arn@,
            inner,
            step,
        )
}

/// A further step of restoring a table.
pub open spec fn restore_table_goes_on(
    state: RestoreTableState,
    event: Event,
    step: Step<RestoreTableState, TableDescription>,
) -> bool {
    match state {
        RestoreTableState::Creating { account_id, backup_arn, inner } => exists|
            x: Step<CreateState, TableDescription>,
        |
            create_goes_on(inner, event, x) && #[trigger] create_leads(
                account_id@,
                backup_arn@,
                x,
                step,
            ),
        RestoreTableState::Filling(s) => exists|x: Step<RestoreState, TableDescription>|
            restore_goes_on(s, event, x) && #[trigger] fill_leads(x, step),
    }
}

fn lead_fill(inner: Step<RestoreState, TableDescription>) -> (step: Step<
    RestoreTableState,
    TableDescription,
>)
    ensures
        fill_leads(inner, step),
{
    match inner {
        Step::Do(s, a) => Step::Do(RestoreTableState::Filling(s), a),
        Step::Done(r) => Step::Done(r),
    }
}

fn lead_create(
    account_id: String,
    backup_arn: String,
    inner: Step<CreateState, TableDescription>,
) -> (step: Step<RestoreTableState, TableDescription>)
    ensures
        create_leads(account_id@, backup_arn@, inner, step),
{
    match inner {
        Step::Do(s, a) => Step::Do(
            RestoreTableState::Creating { account_id, backup_arn, inner: s },
            a,
        ),
        Step::Done(Err(e)) => Step::Done(Err(e)),
        Step::Done(Ok(table)) => {
            let x = restore_items_start(account_id.as_str(), table, backup_arn.as_str());
            lead_fill(x)
        },
    }
}

/// Begins to restore a table as its backup describes it.
pub fn restore_table_start(r: RestoreTable, plan: RestorePlan, f: Fresh) -> (step: Step<
    RestoreTableState,
    TableDescription,
>)
    requires
        f.ids@.len() == 0,
        is_time(f.now_nanos),
    ensures
        restore_table_begins(r, plan, f, step),
{
    let q = restore_request(
        plan,
        r.account_id.as_str(),
        r.table_name.as_str(),
        r.table_arn.as_str(),
        r.sort_key,
    );
    let ghost request = q;
    let inner = create_table_start(q, f);
    assert(create_begins(request, f, inner));
    lead_create(r.account_id, r.backup_arn, inner)
}

/// Goes on with restoring a table.
pub fn restore_table_next(state: RestoreTableState, event: Event) -> (step: Step<
    RestoreTableState,
    TableDescription,
>)
    requires
        event matches Event::Replied(Reply::Many(docs)) ==> docs@.len() <= i64::MAX,
    ensures
        restore_table_goes_on(state, event, step),
{
    match state {
        RestoreTableState::Creating { account_id, backup_arn, inner } => {
            let x = create_table_next(inner, event);
            lead_create(account_id, backup_arn, x)
        },
        RestoreTableState::Filling(s) => {
            let x = restore_items_next(s, event);
            lead_fill(x)
        },
    }
}

// --- Laws --------------------------------------------------------------------------

/// Nothing is stored in a table that could not be created: the restoration ends
/// with the error of the creation.
pub proof fn law_failed_creation_ends(
    account_id: Seq<char>,
    backup_arn: Seq<char>,
    inner: Step<CreateState, TableDescription>,
    step: Step<RestoreTableState, TableDescription>,
)
    requires
        inner is Done,
        inner->Done_0 is Err,
        create_leads(account_id, backup_arn, inner, step),
    ensures
        step is Done,
        step->Done_0 is Err,
        step->Done_0->Err_0 == inner->Done_0->Err_0,
{
}

} // verus!
