//! What follows a write: the indexes of the table are brought in step, and the
//! change is recorded in its stream.

use vstd::prelude::*;
use vstd::string::*;

use crate::index_sync::{sync_begins, sync_goes_on, sync_next, sync_start, Sync, SyncState};
use crate::item::{opt_item, Item, ItemV};
use crate::protocol::{
    fail_unexpected, fails, unexpected, Action, ActionV, Event, Step,
};
use crate::put_item::copy_opt_item;
use crate::schema::{copy_schema, schema_view, KeySchemaElement};
use crate::stream::{
    capture_begins, capture_goes_on, capture_next, capture_start, Capture, CaptureState,
};

verus! {

/// The table of a write, and how its changes are recorded.
#[derive(Debug, PartialEq)]
pub struct FollowUp {
    pub account_id: String,
    pub table_name: String,
    pub table_id: String,
    pub key_schema: Vec<KeySchemaElement>,
    /// Whether the table has indexes, where that is known.
    pub has_indexes: Option<bool>,
    /// How the change is recorded, where the table has a stream.
    pub capture: Option<Capture>,
}

/// What was done last after a write.
#[derive(Debug, PartialEq)]
pub enum FollowState {
    /// The indexes are brought in step.
    Syncing { follow: FollowUp, old: Option<Item>, new: Option<Item>, inner: SyncState },
    /// It was noted whether the table has indexes.
    Noting { follow: FollowUp, old: Option<Item>, new: Option<Item> },
    /// The change is recorded.
    Recording(CaptureState),
}

/// A table with a stream has a key.
pub open spec fn has_key(f: FollowUp) -> bool {
    f.capture is Some ==> f.key_schema@.len() > 0
}

/// The table of what follows has a key where it needs one.
pub open spec fn is_ready(state: FollowState) -> bool {
    match state {
        FollowState::Syncing { follow, .. } => has_key(follow),
        FollowState::Noting { follow, .. } => has_key(follow),
        FollowState::Recording(_) => true,
    }
}

/// A step of the recording is the next step.
pub open spec fn recording_leads(
    inner: Step<CaptureState, ()>,
    step: Step<FollowState, ()>,
) -> bool {
    match inner {
        Step::Do(s, a) => step == Step::<FollowState, ()>::Do(FollowState::Recording(s), a),
        Step::Done(r) => step == Step::<FollowState, ()>::Done(r),
    }
}

/// The next step is to record a change, where the table has a stream.
pub open spec fn records(
    f: FollowUp,
    old: Option<ItemV>,
    new: Option<ItemV>,
    step: Step<FollowState, ()>,
) -> bool {
    match f.capture {
        None => step == Step::<FollowState, ()>::Done(Ok(())),
        Some(c) => exists|inner: Step<CaptureState, ()>|
            capture_begins(
                f.account_id@,
                f.table_name@,
                schema_view(f.key_schema@),
                c,
                old,
                new,
                inner,
            ) && #[trigger] recording_leads(inner, step),
    }
}

/// What follows a step of the synchronization.
pub open spec fn sync_leads(
    f: FollowUp,
    old: Option<ItemV>,
    new: Option<ItemV>,
    inner: Step<SyncState, Option<bool>>,
    step: Step<FollowState, ()>,
) -> bool {
    match inner {
        Step::Do(s, a) => {
            &&& step matches Step::Do(FollowState::Syncing { follow, old: o, new: n, inner: i }, x)
            &&& follow == f
            &&& opt_item(o) == old
            &&& opt_item(n) == new
            &&& i == s
            &&& x == a
        },
        Step::Done(Err(e)) => step == Step::<FollowState, ()>::Done(Err(e)),
        Step::Done(Ok(None)) => records(f, old, new, step),
        Step::Done(Ok(Some(b))) => {
            &&& step matches Step::Do(FollowState::Noting { follow, old: o, new: n }, x)
            &&& follow == f
            &&& opt_item(o) == old
            &&& opt_item(n) == new
            &&& x@ == (ActionV::Remember { table_id: f.table_id@, has_indexes: Some(b) })
        },
    }
}

/// A synchronization of a change that has not begun.
pub open spec fn is_sync_of(
    s: Sync,
    f: FollowUp,
    old: Option<ItemV>,
    new: Option<ItemV>,
) -> bool {
    &&& schema_view(s.base@) == schema_view(f.key_schema@)
    &&& opt_item(s.old) == old
    &&& opt_item(s.new) == new
    &&& s.docs@.len() == 0
    &&& s.done == 0
}

/// The first step of what follows a write.
pub open spec fn follow_begins(
    f: FollowUp,
    old: Option<ItemV>,
    new: Option<ItemV>,
    step: Step<FollowState, ()>,
) -> bool {
    exists|s: Sync, inner: Step<SyncState, Option<bool>>|
        is_sync_of(s, f, old, new) && #[trigger] sync_begins(f.table_id@, s, f.has_indexes, inner)
            && sync_leads(f, old, new, inner, step)
}

/// A further step of what follows a write.
pub open spec fn follow_goes_on(
    state: FollowState,
    event: Event,
    step: Step<FollowState, ()>,
) -> bool {
    match state {
        FollowState::Syncing { follow, old, new, inner } => exists|
            x: Step<SyncState, Option<bool>>,
        |
            sync_goes_on(inner, event, x) && #[trigger] sync_leads(
                follow,
                opt_item(old),
                opt_item(new),
                x,
                step,
            ),
        FollowState::Noting { follow, old, new } => if event is Remembered {
            records(follow, opt_item(old), opt_item(new), step)
        } else {
            fails(step, unexpected())
        },
        FollowState::Recording(s) => exists|x: Step<CaptureState, ()>|
            capture_goes_on(s, event, x) && #[trigger] recording_leads(x, step),
    }
}

fn lead_recording(inner: Step<CaptureState, ()>) -> (step: Step<FollowState, ()>)
    ensures
        recording_leads(inner, step),
{
    match inner {
        Step::Do(s, a) => Step::Do(FollowState::Recording(s), a),
        Step::Done(r) => Step::Done(r),
    }
}

fn record(f: FollowUp, old: Option<Item>, new: Option<Item>) -> (step: Step<FollowState, ()>)
    requires
        has_key(f),
    ensures
        records(f, opt_item(old), opt_item(new), step),
{
    match f.capture {
        None => Step::Done(Ok(())),
        Some(c) => {
            let inner = capture_start(
                f.account_id.as_str(),
                f.table_name.as_str(),
                &f.key_schema,
                c,
                old,
                new,
            );
            lead_recording(inner)
        },
    }
}

fn lead_sync(
    f: FollowUp,
    old: Option<Item>,
    new: Option<Item>,
    inner: Step<SyncState, Option<bool>>,
) -> (step: Step<FollowState, ()>)
    requires
        has_key(f),
    ensures
        sync_leads(f, opt_item(old), opt_item(new), inner, step),
{
    match inner {
        Step::Do(s, a) => Step::Do(FollowState::Syncing { follow: f, old, new, inner: s }, a),
        Step::Done(Err(e)) => Step::Done(Err(e)),
        Step::Done(Ok(None)) => record(f, old, new),
        Step::Done(Ok(Some(b))) => {
            let table_id = f.table_id.clone();
            Step::Do(
                FollowState::Noting { follow: f, old, new },
                Action::Remember { table_id, has_indexes: Some(b) },
            )
        },
    }
}

/// Begins what follows a write that replaced one item by another.
pub fn follow_up_start(f: FollowUp, old: Option<Item>, new: Option<Item>) -> (step: Step<
    FollowState,
    (),
>)
    requires
        has_key(f),
    ensures
        follow_begins(f, opt_item(old), opt_item(new), step),
        step matches Step::Do(s, _) ==> is_ready(s),
{
    let base = copy_schema(&f.key_schema);
    let sync_old = copy_opt_item(&old);
    let sync_new = copy_opt_item(&new);
    let inner = sync_start(f.table_id.as_str(), base, sync_old, sync_new, f.has_indexes);
    let ghost docs = choose|docs: Vec<crate::bson::Document>|
        docs@.len() == 0 && sync_begins(
            f.table_id@,
            Sync { base, old: sync_old, new: sync_new, docs, done: 0 },
            f.has_indexes,
            inner,
        );
    let ghost s = Sync { base, old: sync_old, new: sync_new, docs, done: 0 };
    assert(is_sync_of(s, f, opt_item(old), opt_item(new)));
    lead_sync(f, old, new, inner)
}

/// Goes on with what follows a write.
pub fn follow_up_next(state: FollowState, event: Event) -> (step: Step<FollowState, ()>)
    requires
        is_ready(state),
    ensures
        follow_goes_on(state, event, step),
        step matches Step::Do(s, _) ==> is_ready(s),
{
    match state {
        FollowState::Syncing { follow, old, new, inner } => {
            let x = sync_next(inner, event);
            lead_sync(follow, old, new, x)
        },
        FollowState::Noting { follow, old, new } => match event {
            Event::Remembered => record(follow, old, new),
            _ => fail_unexpected(),
        },
        FollowState::Recording(s) => {
            let x = capture_next(s, event);
            lead_recording(x)
        },
    }
}

// --- Laws --------------------------------------------------------------------------

/// A change is recorded only once it was noted whether the table has indexes.
pub proof fn law_recorded_after_noting(
    state: FollowState,
    event: Event,
    step: Step<FollowState, ()>,
)
    requires
        follow_goes_on(state, event, step),
        !(state is Recording),
        step matches Step::Do(FollowState::Recording(_), _),
    ensures
        state is Noting,
        event is Remembered,
{
}

/// It is noted whether the table has indexes only once these were brought in
/// step: the synchronization has ended well.
pub proof fn law_noted_after_indexes(
    follow: FollowUp,
    old: Option<Item>,
    new: Option<Item>,
    inner: SyncState,
    event: Event,
    step: Step<FollowState, ()>,
)
    requires
        follow_goes_on(FollowState::Syncing { follow, old, new, inner }, event, step),
        step matches Step::Do(FollowState::Noting { .. }, _),
    ensures
        exists|x: Step<SyncState, Option<bool>>|
            #[trigger] sync_goes_on(inner, event, x) && x matches Step::Done(Ok(Some(_))),
{
}

/// What follows a write ends well only once the indexes were brought in step:
/// where it ends with an answer to the synchronization, that has ended well.
pub proof fn law_ends_after_indexes(
    follow: FollowUp,
    old: Option<Item>,
    new: Option<Item>,
    inner: SyncState,
    event: Event,
    step: Step<FollowState, ()>,
)
    requires
        follow_goes_on(FollowState::Syncing { follow, old, new, inner }, event, step),
        step is Done,
        step->Done_0 is Ok,
    ensures
        exists|x: Step<SyncState, Option<bool>>|
            #[trigger] sync_goes_on(inner, event, x) && x matches Step::Done(Ok(_)),
{
}

/// A write whose indexes could not be brought in step is not recorded, and
/// ends with their error.
pub proof fn law_failed_indexes_end(
    follow: FollowUp,
    old: Option<ItemV>,
    new: Option<ItemV>,
    inner: Step<SyncState, Option<bool>>,
    step: Step<FollowState, ()>,
)
    requires
        inner is Done,
        inner->Done_0 is Err,
        sync_leads(follow, old, new, inner, step),
    ensures
        step is Done,
        step->Done_0 is Err,
        step->Done_0->Err_0 == inner->Done_0->Err_0,
{
}

} // verus!
