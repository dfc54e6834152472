//! Writing one item: the item is put, updated or deleted, and the write is done
//! once the indexes of the table are in step and the change is recorded.

use vstd::prelude::*;
use vstd::string::*;

use crate::data::ItemKey;
use crate::delete_item::{
    delete_begins, delete_goes_on, delete_item_next, delete_item_start, DeleteDone, DeleteState,
};
use crate::follow_up::{
    follow_begins, follow_goes_on, follow_up_next, follow_up_start, is_ready, FollowState, FollowUp,
};
use crate::item::{opt_item, Item, ItemV};
use crate::protocol::{
    fail_unexpected, fails, unexpected, Action, ActionV, Circumstances, Event, Step,
};
use crate::put_item::{
    copy_opt_item, put_begins, put_goes_on, put_item_next, put_item_start, PutDone, PutState,
};
use crate::schema::{schema_view, KeySchemaElement};
use crate::schema_json::StreamViewType;
use crate::stream::Capture;
use crate::stream_record::UserIdentity;
use crate::update_item::{
    update_begins, update_goes_on, update_item_next, update_item_start, UpdateDone, UpdateState,
};

verus! {

/// How the changes of a table are recorded in its stream.
#[derive(Debug, PartialEq)]
pub struct Recording {
    pub view_type: StreamViewType,
    pub region: String,
    pub user_identity: Option<UserIdentity>,
}

/// The table that is written to.
#[derive(Debug, PartialEq)]
pub struct WriteTable {
    pub account_id: String,
    pub table_name: String,
    pub table_id: String,
    pub key_schema: Vec<KeySchemaElement>,
    /// How changes are recorded, where the table has a stream.
    pub stream: Option<Recording>,
}

/// What is to be written.
#[derive(Debug, PartialEq)]
pub enum Write {
    Put { item: Item, key: ItemKey, return_old: bool, conditional: bool },
    Update {
        key_item: Item,
        key: ItemKey,
        conditional: bool,
        return_old: bool,
        return_new: bool,
    },
    Delete { key_item: Item, key: ItemKey, return_old: bool, conditional: bool },
}

/// What a write hands out.
#[derive(Debug, PartialEq)]
pub struct WriteDone {
    pub old: Option<Item>,
    pub new: Option<Item>,
}

/// Where a write stands.
#[derive(Debug, PartialEq)]
pub enum WriteState {
    Putting { table: WriteTable, item: Item, inner: PutState },
    Updating { table: WriteTable, inner: UpdateState },
    Deleting { table: WriteTable, inner: DeleteState },
    /// The item is written; what is known of its table is being asked for.
    Consulting { table: WriteTable, old: Option<Item>, new: Option<Item>, done: WriteDone },
    /// The indexes and the stream are following.
    Following { inner: FollowState, done: WriteDone },
}

/// A table with a stream has a key.
pub open spec fn is_keyed(t: WriteTable) -> bool {
    t.stream is Some ==> t.key_schema@.len() > 0
}

/// The table of a write has a key where it needs one.
pub open spec fn is_sound(state: WriteState) -> bool {
    match state {
        WriteState::Putting { table, .. } => is_keyed(table),
        WriteState::Updating { table, .. } => is_keyed(table),
        WriteState::Deleting { table, .. } => is_keyed(table),
        WriteState::Consulting { table, .. } => is_keyed(table),
        WriteState::Following { inner, .. } => is_ready(inner),
    }
}

/// The item that a change leaves, else the one that it removed.
pub open spec fn subject(old: Option<ItemV>, new: Option<ItemV>) -> Option<ItemV> {
    if new is Some {
        new
    } else {
        old
    }
}

/// What follows a change of a table under the circumstances.
pub open spec fn follow_of(t: WriteTable, c: Circumstances) -> FollowUp {
    FollowUp {
        account_id: t.account_id,
        table_name: t.table_name,
        table_id: t.table_id,
        key_schema: t.key_schema,
        has_indexes: c.has_indexes,
        capture: match t.stream {
            Some(s) => Some(
                Capture {
                    view_type: s.view_type,
                    region: s.region,
                    user_identity: s.user_identity,
                    event_id: c.event_id,
                    size: c.size,
                    now_seconds: c.now_seconds,
                    now_millis: c.now_millis,
                },
            ),
            None => None,
        },
    }
}

// --- The steps -----------------------------------------------------------------------

/// An item was written: what follows is prepared.
pub open spec fn consults(
    t: WriteTable,
    old: Option<ItemV>,
    new: Option<ItemV>,
    handed_old: Option<ItemV>,
    handed_new: Option<ItemV>,
    step: Step<WriteState, WriteDone>,
) -> bool {
    &&& step matches Step::Do(WriteState::Consulting { table, old: o, new: n, done }, a)
    &&& table == t
    &&& opt_item(o) == old
    &&& opt_item(n) == new
    &&& opt_item(done.old) == handed_old
    &&& opt_item(done.new) == handed_new
    &&& a@ == (ActionV::Consult { table_id: t.table_id@, item: subject(old, new) })
}

/// What follows a step of a put.
pub open spec fn put_leads(
    t: WriteTable,
    item: Item,
    inner: Step<PutState, PutDone>,
    step: Step<WriteState, WriteDone>,
) -> bool {
    match inner {
        Step::Do(s, a) => step == Step::<WriteState, WriteDone>::Do(
            WriteState::Putting { table: t, item, inner: s },
            a,
        ),
        Step::Done(Err(e)) => step == Step::<WriteState, WriteDone>::Done(Err(e)),
        Step::Done(Ok(done)) => consults(
            t,
            opt_item(done.old),
            Some(item@),
            opt_item(done.returned),
            None,
            step,
        ),
    }
}

/// What follows a step of an update.
pub open spec fn update_leads(
    t: WriteTable,
    inner: Step<UpdateState, UpdateDone>,
    step: Step<WriteState, WriteDone>,
) -> bool {
    match inner {
        Step::Do(s, a) => step == Step::<WriteState, WriteDone>::Do(
            WriteState::Updating { table: t, inner: s },
            a,
        ),
        Step::Done(Err(e)) => step == Step::<WriteState, WriteDone>::Done(Err(e)),
        Step::Done(Ok(done)) => consults(
            t,
            opt_item(done.old),
            Some(done.new@),
            opt_item(done.returned_old),
            opt_item(done.returned_new),
            step,
        ),
    }
}

/// What follows a step of a delete. Where there was nothing to delete, nothing
/// follows.
pub open spec fn delete_leads(
    t: WriteTable,
    inner: Step<DeleteState, DeleteDone>,
    step: Step<WriteState, WriteDone>,
) -> bool {
    match inner {
        Step::Do(s, a) => step == Step::<WriteState, WriteDone>::Do(
            WriteState::Deleting { table: t, inner: s },
            a,
        ),
        Step::Done(Err(e)) => step == Step::<WriteState, WriteDone>::Done(Err(e)),
        Step::Done(Ok(done)) => if done.deleted is Some {
            consults(t, opt_item(done.deleted), None, opt_item(done.returned), None, step)
        } else {
            &&& step matches Step::Done(Ok(d))
            &&& opt_item(d.old) == opt_item(done.returned)
            &&& d.new is None
        },
    }
}

/// What follows a step of what follows the change: once it is done, so is the
/// write.
pub open spec fn follow_leads(
    done: WriteDone,
    inner: Step<FollowState, ()>,
    step: Step<WriteState, WriteDone>,
) -> bool {
    match inner {
        Step::Do(s, a) => step == Step::<WriteState, WriteDone>::Do(
            WriteState::Following { inner: s, done },
            a,
        ),
        Step::Done(Err(e)) => step == Step::<WriteState, WriteDone>::Done(Err(e)),
        Step::Done(Ok(_)) => step == Step::<WriteState, WriteDone>::Done(Ok(done)),
    }
}

/// How a write begins.
pub open spec fn write_begins(t: WriteTable, w: Write, step: Step<WriteState, WriteDone>) -> bool {
    match w {
        Write::Put { item, key, return_old, conditional } => exists|x: Step<PutState, PutDone>|
            put_begins(t.table_id@, item@, key, return_old, conditional, x)
                && #[trigger] put_leads(t, item, x, step),
        Write::Update { key_item, key, conditional, return_old, return_new } => exists|
            x: Step<UpdateState, UpdateDone>,
        |
            update_begins(
                t.table_id@,
                key_item@,
                key,
                schema_view(t.key_schema@),
                conditional,
                return_old,
                return_new,
                x,
            ) && #[trigger] update_leads(t, x, step),
        Write::Delete { key_item, key, return_old, conditional } => exists|
            x: Step<DeleteState, DeleteDone>,
        |
            delete_begins(t.table_id@, key_item@, key, return_old, conditional, x)
                && #[trigger] delete_leads(t, x, step),
    }
}

/// How a write goes on with an event.
pub open spec fn write_goes_on(
    state: WriteState,
    event: Event,
    step: Step<WriteState, WriteDone>,
) -> bool {
    match state {
        WriteState::Putting { table, item, inner } => exists|x: Step<PutState, PutDone>|
            put_goes_on(inner, event, x) && #[trigger] put_leads(table, item, x, step),
        WriteState::Updating { table, inner } => exists|x: Step<UpdateState, UpdateDone>|
            update_goes_on(inner, event, x) && #[trigger] update_leads(table, x, step),
        WriteState::Deleting { table, inner } => exists|x: Step<DeleteState, DeleteDone>|
            delete_goes_on(inner, event, x) && #[trigger] delete_leads(table, x, step),
        WriteState::Consulting { table, old, new, done } => match event {
            Event::Consulted(c) => exists|x: Step<FollowState, ()>|
                follow_begins(follow_of(table, c), opt_item(old), opt_item(new), x)
                    && #[trigger] follow_leads(done, x, step),
            _ => fails(step, unexpected()),
        },
        WriteState::Following { inner, done } => exists|x: Step<FollowState, ()>|
            follow_goes_on(inner, event, x) && #[trigger] follow_leads(done, x, step),
    }
}

// --- The operation -------------------------------------------------------------------

fn consult(t: WriteTable, old: Option<Item>, new: Option<Item>, done: WriteDone) -> (step: Step<
    WriteState,
    WriteDone,
>)
    ensures
        consults(t, opt_item(old), opt_item(new), opt_item(done.old), opt_item(done.new), step),
{
    let item = if new.is_some() {
        copy_opt_item(&new)
    } else {
        copy_opt_item(&old)
    };
    let table_id = t.table_id.clone();
    Step::Do(
        WriteState::Consulting { table: t, old, new, done },
        Action::Consult { table_id, item },
    )
}

fn lead_put(t: WriteTable, item: Item, inner: Step<PutState, PutDone>) -> (step: Step<
    WriteState,
    WriteDone,
>)
    ensures
        put_leads(t, item, inner, step),
{
    match inner {
        Step::Do(s, a) => Step::Do(WriteState::Putting { table: t, item, inner: s }, a),
        Step::Done(Err(e)) => Step::Done(Err(e)),
        Step::Done(Ok(done)) => consult(
            t,
            done.old,
            Some(item),
            WriteDone { old: done.returned, new: None },
        ),
    }
}

fn lead_update(t: WriteTable, inner: Step<UpdateState, UpdateDone>) -> (step: Step<
    WriteState,
    WriteDone,
>)
    ensures
        update_leads(t, inner, step),
{
    match inner {
        Step::Do(s, a) => Step::Do(WriteState::Updating { table: t, inner: s }, a),
        Step::Done(Err(e)) => Step::Done(Err(e)),
        Step::Done(Ok(done)) => consult(
            t,
            done.old,
            Some(done.new),
            WriteDone { old: done.returned_old, new: done.returned_new },
        ),
    }
}

fn lead_delete(t: WriteTable, inner: Step<DeleteState, DeleteDone>) -> (step: Step<
    WriteState,
    WriteDone,
>)
    ensures
        delete_leads(t, inner, step),
{
    match inner {
        Step::Do(s, a) => Step::Do(WriteState::Deleting { table: t, inner: s }, a),
        Step::Done(Err(e)) => Step::Done(Err(e)),
        Step::Done(Ok(done)) => {
            let handed = WriteDone { old: done.returned, new: None };
            if done.deleted.is_none() {
                return Step::Done(Ok(handed));
            }
            consult(t, done.deleted, None, handed)
        },
    }
}

fn lead_follow(done: WriteDone, inner: Step<FollowState, ()>) -> (step: Step<
    WriteState,
    WriteDone,
>)
    ensures
        follow_leads(done, inner, step),
{
    match inner {
        Step::Do(s, a) => Step::Do(WriteState::Following { inner: s, done }, a),
        Step::Done(Err(e)) => Step::Done(Err(e)),
        Step::Done(Ok(_)) => Step::Done(Ok(done)),
    }
}

fn follow(t: WriteTable, c: Circumstances) -> (r: FollowUp)
    ensures
        r == follow_of(t, c),
{
    let capture = match t.stream {
        Some(s) => Some(
            Capture {
                view_type: s.view_type,
                region: s.region,
                user_identity: s.user_identity,
                event_id: c.event_id,
                size: c.size,
                now_seconds: c.now_seconds,
                now_millis: c.now_millis,
            },
        ),
        None => None,
    };
    FollowUp {
        account_id: t.account_id,
        table_name: t.table_name,
        table_id: t.table_id,
        key_schema: t.key_schema,
        has_indexes: c.has_indexes,
        capture,
    }
}

/// Begins a write.
pub fn write_start(t: WriteTable, w: Write) -> (step: Step<WriteState, WriteDone>)
    requires
        is_keyed(t),
    ensures
        write_begins(t, w, step),
        step matches Step::Do(s, _) ==> is_sound(s),
{
    match w {
        Write::Put { item, key, return_old, conditional } => {
            let x = put_item_start(t.table_id.as_str(), &item, &key, return_old, conditional);
            lead_put(t, item, x)
        },
        Write::Update { key_item, key, conditional, return_old, return_new } => {
            let x = update_item_start(
                t.table_id.as_str(),
                &key_item,
                &key,
                &t.key_schema,
                conditional,
                return_old,
                return_new,
            );
            lead_update(t, x)
        },
        Write::Delete { key_item, key, return_old, conditional } => {
            let x = delete_item_start(
                t.table_id.as_str(),
                &key_item,
                &key,
                return_old,
                conditional,
            );
            lead_delete(t, x)
        },
    }
}

/// Goes on with a write.
pub fn write_next(state: WriteState, event: Event) -> (step: Step<WriteState, WriteDone>)
    requires
        is_sound(state),
    ensures
        write_goes_on(state, event, step),
        step matches Step::Do(s, _) ==> is_sound(s),
        step matches Step::Done(Ok(done)) ==> is_followed(state, event, done),
{
    let ghost before = state;
    let ghost told = event;
    let step = match state {
        WriteState::Putting { table, item, inner } => {
            let x = put_item_next(inner, event);
            lead_put(table, item, x)
        },
        WriteState::Updating { table, inner } => {
            let x = update_item_next(inner, event);
            lead_update(table, x)
        },
        WriteState::Deleting { table, inner } => {
            let x = delete_item_next(inner, event);
            lead_delete(table, x)
        },
        WriteState::Consulting { table, old, new, done } => match event {
            Event::Consulted(c) => {
                let f = follow(table, c);
                let x = follow_up_start(f, old, new);
                lead_follow(done, x)
            },
            _ => fail_unexpected(),
        },
        WriteState::Following { inner, done } => {
            let x = follow_up_next(inner, event);
            lead_follow(done, x)
        },
    };
    proof {
        if step is Done && step->Done_0 is Ok {
            law_write_waits_for_follow_up(before, told, step);
        }
    }
    step
}

// --- Laws --------------------------------------------------------------------------

/// The write is over after the event: what follows it has ended well, or it
/// was a delete that found nothing.
pub open spec fn is_followed(state: WriteState, event: Event, handed: WriteDone) -> bool {
    match state {
        WriteState::Putting { .. } => false,
        WriteState::Updating { .. } => false,
        WriteState::Deleting { inner, .. } => exists|x: Step<DeleteState, DeleteDone>|
            #[trigger] delete_goes_on(inner, event, x) && (x matches Step::Done(Ok(d))
                && d.deleted is None),
        WriteState::Consulting { table, old, new, done } => {
            &&& event matches Event::Consulted(c)
            &&& follow_begins(
                follow_of(table, c),
                opt_item(old),
                opt_item(new),
                Step::<FollowState, ()>::Done(Ok(())),
            )
            &&& handed == done
        },
        WriteState::Following { inner, done } => {
            &&& follow_goes_on(inner, event, Step::<FollowState, ()>::Done(Ok(())))
            &&& handed == done
        },
    }
}

/// A write is done only after what follows it is: the indexes of the table are
/// in step and the change is recorded before the write returns. Only a delete
/// that finds nothing has nothing that follows.
pub proof fn law_write_waits_for_follow_up(
    state: WriteState,
    event: Event,
    step: Step<WriteState, WriteDone>,
)
    requires
        write_goes_on(state, event, step),
        step is Done,
        step->Done_0 is Ok,
    ensures
        is_followed(state, event, step->Done_0->Ok_0),
{
    match state {
        WriteState::Consulting { table, old, new, done } => {
            if let Event::Consulted(c) = event {
                let x = choose|x: Step<FollowState, ()>|
                    follow_begins(follow_of(table, c), opt_item(old), opt_item(new), x)
                        && #[trigger] follow_leads(done, x, step);
                assert(x == Step::<FollowState, ()>::Done(Ok(())));
            }
        },
        WriteState::Following { inner, done } => {
            let x = choose|x: Step<FollowState, ()>|
                follow_goes_on(inner, event, x) && #[trigger] follow_leads(done, x, step);
            assert(x == Step::<FollowState, ()>::Done(Ok(())));
        },
        _ => {},
    }
}

/// No write is done at once: its first step asks for a command, or it fails.
pub proof fn law_write_does_something(
    t: WriteTable,
    w: Write,
    step: Step<WriteState, WriteDone>,
)
    requires
        write_begins(t, w, step),
    ensures
        !(step matches Step::Done(Ok(_))),
{
}

/// Where what follows a write fails, the write ends with that error.
pub proof fn law_failed_follow_up_ends(
    done: WriteDone,
    inner: Step<FollowState, ()>,
    step: Step<WriteState, WriteDone>,
)
    requires
        inner is Done,
        inner->Done_0 is Err,
        follow_leads(done, inner, step),
    ensures
        step is Done,
        step->Done_0 is Err,
        step->Done_0->Err_0 == inner->Done_0->Err_0,
{
}

} // verus!
