//! What follows a write: the change that was made is the one that the indexes
//! and the stream follow.

use vstd::prelude::*;

use crate::delete_item::DeleteDone;
use crate::effects::{command_of, state_of};
use crate::follow_up::{
    follow_begins, follow_goes_on, recording_leads, sync_leads, FollowState, FollowUp,
};
use crate::index_sync::{sync_begins, Sync, SyncState};
use crate::item::{opt_item, Item, ItemV};
use crate::protocol::{in_catalog, ActionV, Circumstances, CommandV, Event, Step};
use crate::put_item::PutDone;
use crate::schema::schema_view;
use crate::stream::{capture_begins, Capture, CaptureState};
use crate::records::tells_of;
use crate::update_item::UpdateDone;
use crate::write::{
    delete_leads, follow_leads, follow_of, put_leads, update_leads, write_goes_on, WriteDone,
    WriteState, WriteTable,
};

verus! {

/// A step asks what is known of a table before the indexes and the stream
/// follow a change from one item to another; what is handed out is kept.
pub open spec fn leads_to(
    t: WriteTable,
    was: Option<ItemV>,
    is: Option<ItemV>,
    old_handed: Option<ItemV>,
    new_handed: Option<ItemV>,
    step: Step<WriteState, WriteDone>,
) -> bool {
    &&& step matches Step::Do(WriteState::Consulting { table, old: o, new: n, done }, a)
    &&& table == t
    &&& opt_item(o) == was
    &&& opt_item(n) == is
    &&& opt_item(done.old) == old_handed
    &&& opt_item(done.new) == new_handed
    &&& a@ matches ActionV::Consult { table_id, item } && table_id == t.table_id@ && item == (
    match is {
        Some(x) => Some(x),
        None => was,
    })
}

/// What follows a put is the change from what it replaced to what it put; what
/// follows an update that from what it read to what it wrote; what follows a
/// delete that from what it removed to nothing.
pub proof fn law_change_that_was_made_follows(
    t: WriteTable,
    item: Item,
    put: PutDone,
    update: UpdateDone,
    delete: DeleteDone,
    s1: Step<WriteState, WriteDone>,
    s2: Step<WriteState, WriteDone>,
    s3: Step<WriteState, WriteDone>,
)
    requires
        put_leads(t, item, Step::Done(Ok(put)), s1),
        update_leads(t, Step::Done(Ok(update)), s2),
        delete_leads(t, Step::Done(Ok(delete)), s3),
    ensures
        leads_to(t, opt_item(put.old), Some(item@), opt_item(put.returned), None, s1),
        leads_to(
            t,
            opt_item(update.old),
            Some(update.new@),
            opt_item(update.returned_old),
            opt_item(update.returned_new),
            s2,
        ),
        delete.deleted is Some ==> leads_to(
            t,
            opt_item(delete.deleted),
            None,
            opt_item(delete.returned),
            None,
            s3,
        ),
        delete.deleted is None ==> (s3 matches Step::Done(Ok(d)) && opt_item(d.old) == opt_item(
            delete.returned,
        ) && d.new is None),
{
}

/// The synchronisation in what follows a write is of that change, by the key
/// of the table, and lists the indexes of the table.
pub open spec fn syncs(
    t: WriteTable,
    was: Option<ItemV>,
    is: Option<ItemV>,
    inner: FollowState,
) -> bool {
    &&& inner matches FollowState::Syncing { follow, old: o, new: n, inner: SyncState::Listing(s) }
    &&& follow.account_id == t.account_id
    &&& follow.table_name == t.table_name
    &&& follow.table_id == t.table_id
    &&& follow.key_schema == t.key_schema
    &&& follow.capture is Some == t.stream is Some
    &&& opt_item(o) == was
    &&& opt_item(n) == is
    &&& opt_item(s.old) == was
    &&& opt_item(s.new) == is
    &&& schema_view(s.base@) == schema_view(t.key_schema@)
}

/// Unless the table is known to have no indexes, these are brought in step
/// with the change first.
pub proof fn law_indexes_follow_the_change(
    t: WriteTable,
    o: Option<Item>,
    n: Option<Item>,
    done: WriteDone,
    c: Circumstances,
    step: Step<WriteState, WriteDone>,
)
    requires
        write_goes_on(
            WriteState::Consulting { table: t, old: o, new: n, done },
            Event::Consulted(c),
            step,
        ),
        c.has_indexes != Some(false),
    ensures
        step matches Step::Do(WriteState::Following { inner, done: d }, _) && d == done && syncs(
            t,
            opt_item(o),
            opt_item(n),
            inner,
        ),
        command_of(step) matches Some(CommandV::Find { at, filter, .. }) && at == in_catalog(
            "indexes"@,
        ) && filter == crate::bson::doc1(
            "_id.table_id"@,
            crate::bson::BsonV::Str(t.table_id@),
        ),
{
    let x = choose|x: Step<FollowState, ()>|
        follow_begins(follow_of(t, c), opt_item(o), opt_item(n), x) && #[trigger] follow_leads(
            done,
            x,
            step,
        );
    let f = follow_of(t, c);
    let (s, inner) = choose|s: Sync, inner: Step<SyncState, Option<bool>>|
        crate::follow_up::is_sync_of(s, f, opt_item(o), opt_item(n)) && #[trigger] sync_begins(
            f.table_id@,
            s,
            f.has_indexes,
            inner,
        ) && sync_leads(f, opt_item(o), opt_item(n), inner, x);
}

/// How a change is recorded: as the table says, with what is known.
pub open spec fn captures(t: WriteTable, c: Circumstances, k: Capture) -> bool {
    &&& t.stream matches Some(s)
    &&& k.view_type == s.view_type
    &&& k.region == s.region
    &&& k.user_identity == s.user_identity
    &&& k.event_id == c.event_id
    &&& k.size == c.size
    &&& k.now_seconds == c.now_seconds
    &&& k.now_millis == c.now_millis
}

/// A table that is known to have no indexes has its change recorded at once,
/// where it has a stream; without one the write is done.
pub proof fn law_unindexed_change_is_recorded(
    t: WriteTable,
    o: Option<Item>,
    n: Option<Item>,
    done: WriteDone,
    c: Circumstances,
    step: Step<WriteState, WriteDone>,
)
    requires
        write_goes_on(
            WriteState::Consulting { table: t, old: o, new: n, done },
            Event::Consulted(c),
            step,
        ),
        c.has_indexes == Some(false),
        o is Some || n is Some,
    ensures
        t.stream is None ==> step == Step::<WriteState, WriteDone>::Done(Ok(done)),
        t.stream is Some ==> (step matches Step::Do(
            WriteState::Following {
                inner: FollowState::Recording(CaptureState::FindingTable(p)),
                done: d,
            },
            _,
        ) && d == done && exists|k: Capture| #[trigger]
            captures(t, c, k) && tells_of(
                p.record@,
                schema_view(t.key_schema@),
                k,
                opt_item(o),
                opt_item(n),
            )),
{
    let x = choose|x: Step<FollowState, ()>|
        follow_begins(follow_of(t, c), opt_item(o), opt_item(n), x) && #[trigger] follow_leads(
            done,
            x,
            step,
        );
    let f = follow_of(t, c);
    let (s, inner) = choose|s: Sync, inner: Step<SyncState, Option<bool>>|
        crate::follow_up::is_sync_of(s, f, opt_item(o), opt_item(n)) && #[trigger] sync_begins(
            f.table_id@,
            s,
            f.has_indexes,
            inner,
        ) && sync_leads(f, opt_item(o), opt_item(n), inner, x);
    if let Some(k) = f.capture {
        assert(captures(t, c, k));
        let y = choose|y: Step<CaptureState, ()>|
            capture_begins(
                f.account_id@,
                f.table_name@,
                schema_view(f.key_schema@),
                k,
                opt_item(o),
                opt_item(n),
                y,
            ) && #[trigger] recording_leads(y, x);
    }
}

/// Once the indexes are in step, whether there are any is noted for the table,
/// and after that the same change is recorded, where the table has a stream.
pub proof fn law_synced_change_is_recorded(
    f: FollowUp,
    o: Option<Item>,
    n: Option<Item>,
    found: bool,
    noting: Step<FollowState, ()>,
    next: Step<FollowState, ()>,
)
    requires
        sync_leads(f, opt_item(o), opt_item(n), Step::Done(Ok(Some(found))), noting),
        follow_goes_on(state_of(noting), Event::Remembered, next),
        o is Some || n is Some,
    ensures
        noting matches Step::Do(_, a) && a@ == (ActionV::Remember {
            table_id: f.table_id@,
            has_indexes: Some(found),
        }),
        f.capture is None ==> next == Step::<FollowState, ()>::Done(Ok(())),
        f.capture matches Some(k) ==> (next matches Step::Do(
            FollowState::Recording(CaptureState::FindingTable(p)),
            _,
        ) && tells_of(
            p.record@,
            schema_view(f.key_schema@),
            k,
            opt_item(o),
            opt_item(n),
        ) && p.account_id@ == f.account_id@ && p.table_name@ == f.table_name@),
{
    if let Some(k) = f.capture {
        let y = choose|y: Step<CaptureState, ()>|
            capture_begins(
                f.account_id@,
                f.table_name@,
                schema_view(f.key_schema@),
                k,
                opt_item(o),
                opt_item(n),
                y,
            ) && #[trigger] recording_leads(y, next);
    }
}

/// The steps of what follows go on as they are, and the write hands out what
/// it kept once they have ended.
pub proof fn law_write_goes_on_with_what_follows(
    inner: FollowState,
    done: WriteDone,
    event: Event,
    step: Step<WriteState, WriteDone>,
)
    requires
        write_goes_on(WriteState::Following { inner, done }, event, step),
    ensures
        exists|x: Step<FollowState, ()>| #[trigger]
            follow_goes_on(inner, event, x) && match x {
                Step::Do(s, a) => step == Step::<WriteState, WriteDone>::Do(
                    WriteState::Following { inner: s, done },
                    a,
                ),
                Step::Done(Ok(_)) => step == Step::<WriteState, WriteDone>::Done(Ok(done)),
                Step::Done(Err(e)) => step == Step::<WriteState, WriteDone>::Done(Err(e)),
            },
{
    let x = choose|x: Step<FollowState, ()>|
        follow_goes_on(inner, event, x) && #[trigger] follow_leads(done, x, step);
    assert(follow_goes_on(inner, event, x));
}

} // verus!
