//! Deleting an item, and reading one.

use vstd::prelude::*;
use vstd::string::*;

use crate::bson::{copy_doc, DocV, Document};
use crate::data::{
    collection_name, data_collection_name, document_item, item_document, key_filter,
    law_filter_matches_document, pk_filter, ItemKey,
};
use crate::error::{ErrV, StorageError};
use crate::item::{copy_item, opt_item, Item, ItemV};
use crate::protocol::{
    fail_unexpected, fails, in_data, run, runs, unexpected, Action, ActionV, Command, CommandV,
    Event, Place, Reply, Step,
};
use crate::put_item::{copy_opt_item, found_item, is_write, read_found};

verus! {

/// Reading an item waits for its document.
#[derive(Debug, PartialEq)]
pub struct GetState {}

/// How reading an item begins.
pub open spec fn get_begins(
    table_id: Seq<char>,
    item: ItemV,
    key: ItemKey,
    step: Step<GetState, Option<Item>>,
) -> bool {
    match key_filter(item, key) {
        Err(e) => fails(step, e),
        Ok(filter) => step matches Step::Do(_, a) && a@ == ActionV::Run(
            CommandV::FindOne { at: in_data(collection_name(table_id)), filter },
        ),
    }
}

/// How reading an item ends.
pub open spec fn get_ends(event: Event, step: Step<GetState, Option<Item>>) -> bool {
    match event {
        Event::Replied(Reply::One(d)) => match found_item(d) {
            Err(e) => fails(step, e),
            Ok(i) => step matches Step::Done(Ok(r)) && opt_item(r) == i,
        },
        Event::Replied(Reply::Failed(e)) => fails(step, ErrV::Internal(e.message@)),
        _ => fails(step, unexpected()),
    }
}

/// Begins reading the item of a key.
pub fn get_item_start(table_id: &str, item: &Item, key: &ItemKey) -> (step: Step<
    GetState,
    Option<Item>,
>)
    ensures
        get_begins(table_id@, item@, *key, step),
{
    let name = data_collection_name(table_id);
    match pk_filter(item, key) {
        Err(e) => Step::Done(Err(e)),
        Ok(filter) => run(
            GetState {  },
            Command::FindOne { at: Place::data(name.as_str()), filter },
        ),
    }
}

/// Ends reading an item.
pub fn get_item_next(state: GetState, event: Event) -> (step: Step<GetState, Option<Item>>)
    ensures
        get_ends(event, step),
{
    match event {
        Event::Replied(Reply::One(d)) => match read_found(&d) {
            Err(e) => Step::Done(Err(e)),
            Ok(i) => Step::Done(Ok(i)),
        },
        Event::Replied(Reply::Failed(e)) => Step::Done(Err(StorageError::Internal(e.message))),
        _ => fail_unexpected(),
    }
}

/// Where a delete stands.
#[derive(Debug, PartialEq)]
pub enum DeleteState {
    /// The document is being removed and handed out.
    Deleting { return_old: bool },
    /// The stored document is being looked up.
    Finding { at: Place, filter: Document, return_old: bool },
    /// The condition is being evaluated on the stored item.
    Evaluating { at: Place, filter: Document, return_old: bool, existing: Option<Item> },
    /// The document of the item is being removed.
    Removing { item: Item, return_old: bool },
}

/// What a delete did.
#[derive(Debug, PartialEq)]
pub struct DeleteDone {
    /// The item that was removed.
    pub deleted: Option<Item>,
    /// The item to hand out.
    pub returned: Option<Item>,
}

/// How a delete begins.
pub open spec fn delete_begins(
    table_id: Seq<char>,
    item: ItemV,
    key: ItemKey,
    return_old: bool,
    conditional: bool,
    step: Step<DeleteState, DeleteDone>,
) -> bool {
    let place = in_data(collection_name(table_id));
    match key_filter(item, key) {
        Err(e) => fails(step, e),
        Ok(f) => if conditional {
            step matches Step::Do(DeleteState::Finding { at, filter, return_old: o }, a) && at@
                == place && filter@ == f && o == return_old && a@ == ActionV::Run(
                CommandV::FindOne { at: place, filter: f },
            )
        } else {
            runs(
                step,
                DeleteState::Deleting { return_old },
                CommandV::FindAndDelete { at: place, filter: f },
            )
        },
    }
}

/// A delete ends with the item that it removed.
pub open spec fn delete_ends(
    deleted: Option<ItemV>,
    return_old: bool,
    step: Step<DeleteState, DeleteDone>,
) -> bool {
    step matches Step::Done(Ok(done)) && opt_item(done.deleted) == deleted && opt_item(
        done.returned,
    ) == (if return_old {
        deleted
    } else {
        None
    })
}

/// How a delete goes on with an event.
pub open spec fn delete_goes_on(
    state: DeleteState,
    event: Event,
    step: Step<DeleteState, DeleteDone>,
) -> bool {
    match (state, event) {
        (DeleteState::Deleting { return_old }, Event::Replied(Reply::One(d))) => match found_item(
            d,
        ) {
            Err(e) => fails(step, e),
            Ok(i) => delete_ends(i, return_old, step),
        },
        (
            DeleteState::Finding { at, filter, return_old },
            Event::Replied(Reply::One(d)),
        ) => match found_item(d) {
            Err(e) => fails(step, e),
            Ok(i) => {
                &&& step matches Step::Do(
                    DeleteState::Evaluating { at: a2, filter: f2, return_old: o2, existing },
                    a,
                )
                &&& a2 == at
                &&& f2 == filter
                &&& o2 == return_old
                &&& opt_item(existing) == i
                &&& a@ == (ActionV::Evaluate {
                    op: 0,
                    item: match i {
                        Some(i) => i,
                        None => ItemV::empty(),
                    },
                })
            },
        },
        (DeleteState::Evaluating { .. }, Event::Evaluated(Err(m))) => fails(
            step,
            ErrV::Validation(m@),
        ),
        (
            DeleteState::Evaluating { at, filter, return_old, existing },
            Event::Evaluated(Ok(false)),
        ) => fails(step, ErrV::ConditionFailed(opt_item(existing))),
        (
            DeleteState::Evaluating { at, filter, return_old, existing: Some(i) },
            Event::Evaluated(Ok(true)),
        ) => runs(
            step,
            DeleteState::Removing { item: i, return_old },
            CommandV::DeleteOne { at: at@, filter: filter@ },
        ),
        (
            DeleteState::Evaluating { at, filter, return_old, existing: None },
            Event::Evaluated(Ok(true)),
        ) => delete_ends(None, return_old, step),
        (
            DeleteState::Removing { item, return_old },
            Event::Replied(Reply::Deleted(_)),
        ) => delete_ends(Some(item@), return_old, step),
        (_, Event::Replied(Reply::Failed(e))) => fails(step, ErrV::Internal(e.message@)),
        _ => fails(step, unexpected()),
    }
}

/// Begins deleting the item of a key.
pub fn delete_item_start(
    table_id: &str,
    item: &Item,
    key: &ItemKey,
    return_old: bool,
    conditional: bool,
) -> (step: Step<DeleteState, DeleteDone>)
    ensures
        delete_begins(table_id@, item@, *key, return_old, conditional, step),
{
    let name = data_collection_name(table_id);
    let at = Place::data(name.as_str());
    let filter = match pk_filter(item, key) {
        Ok(d) => d,
        Err(e) => {
            return Step::Done(Err(e));
        },
    };
    if conditional {
        let command = Command::FindOne { at: at.copy(), filter: copy_doc(&filter) };
        run(DeleteState::Finding { at, filter, return_old }, command)
    } else {
        run(DeleteState::Deleting { return_old }, Command::FindAndDelete { at, filter })
    }
}

fn delete_end(deleted: Option<Item>, return_old: bool) -> (step: Step<DeleteState, DeleteDone>)
    ensures
        delete_ends(opt_item(deleted), return_old, step),
{
    let returned = if return_old {
        copy_opt_item(&deleted)
    } else {
        None
    };
    Step::Done(Ok(DeleteDone { deleted, returned }))
}

/// Goes on with a delete.
pub fn delete_item_next(state: DeleteState, event: Event) -> (step: Step<DeleteState, DeleteDone>)
    ensures
        delete_goes_on(state, event, step),
{
    match (state, event) {
        (DeleteState::Deleting { return_old }, Event::Replied(Reply::One(d))) => match read_found(
            &d,
        ) {
            Err(e) => Step::Done(Err(e)),
            Ok(i) => delete_end(i, return_old),
        },
        (
            DeleteState::Finding { at, filter, return_old },
            Event::Replied(Reply::One(d)),
        ) => match read_found(&d) {
            Err(e) => Step::Done(Err(e)),
            Ok(existing) => {
                let subject = match &existing {
                    Some(i) => copy_item(i),
                    None => Item::new(),
                };
                Step::Do(
                    DeleteState::Evaluating { at, filter, return_old, existing },
                    Action::Evaluate { op: 0, item: subject },
                )
            },
        },
        (DeleteState::Evaluating { .. }, Event::Evaluated(Err(m))) => Step::Done(
            Err(StorageError::Validation(m)),
        ),
        (DeleteState::Evaluating { existing, .. }, Event::Evaluated(Ok(false))) => Step::Done(
            Err(StorageError::ConditionFailed(existing)),
        ),
        (
            DeleteState::Evaluating { at, filter, return_old, existing: Some(i) },
            Event::Evaluated(Ok(true)),
        ) => run(
            DeleteState::Removing { item: i, return_old },
            Command::DeleteOne { at, filter },
        ),
        (
            DeleteState::Evaluating { return_old, existing: None, .. },
            Event::Evaluated(Ok(true)),
        ) => delete_end(None, return_old),
        (
            DeleteState::Removing { item, return_old },
            Event::Replied(Reply::Deleted(_)),
        ) => delete_end(Some(item), return_old),
        (_, Event::Replied(Reply::Failed(e))) => Step::Done(
            Err(StorageError::Internal(e.message)),
        ),
        _ => fail_unexpected(),
    }
}

// --- Laws --------------------------------------------------------------------------

/// A conditional delete removes only after its condition was found to hold.
pub proof fn law_delete_removes_when_condition_holds(
    state: DeleteState,
    event: Event,
    step: Step<DeleteState, DeleteDone>,
)
    requires
        delete_goes_on(state, event, step),
        step matches Step::Do(_, a) && a@ matches ActionV::Run(c) && is_write(c),
    ensures
        state is Evaluating,
        event == Event::Evaluated(Ok(true)),
{
}

/// The attributes of two items agree on a sort key.
pub open spec fn has_sort_key_of(a: ItemV, b: ItemV, key: ItemKey) -> bool {
    key.sort_key matches Some(sk) ==> a.get(sk.name@) == b.get(sk.name@)
}

/// A document holds what a filter asks for.
pub open spec fn holds_what_is_asked(d: DocV, filter: DocV) -> bool {
    forall|k: Seq<char>| (#[trigger] filter.get(k)) is Some ==> d.get(k) == filter.get(k)
}

/// What was stored is read back: a read of the key of an item looks in the
/// collection of its table for values that the document of the item holds, and
/// once that document is found, hands out the item.
pub proof fn law_stored_item_is_read(
    table_id: Seq<char>,
    item: ItemV,
    key_item: ItemV,
    key: ItemKey,
    stored: Document,
    first: Step<GetState, Option<Item>>,
    last: Step<GetState, Option<Item>>,
)
    requires
        item_document(item, key) == Ok::<DocV, ErrV>(stored@),
        document_item(stored@) == Ok::<ItemV, ErrV>(item),
        has_sort_key_of(key_item, item, key),
        get_begins(table_id, key_item, key, first),
        get_ends(Event::Replied(Reply::One(Some(stored))), last),
    ensures
        first matches Step::Do(_, a) && a@ matches ActionV::Run(CommandV::FindOne { at, filter })
            && at == in_data(collection_name(table_id)) && holds_what_is_asked(stored@, filter),
        last matches Step::Done(Ok(Some(i))) && i@ == item,
{
    assert(key_filter(key_item, key) == key_filter(item, key));
    let filter = key_filter(item, key)->Ok_0;
    assert forall|k: Seq<char>| (#[trigger] filter.get(k)) is Some implies stored@.get(k)
        == filter.get(k) by {
        law_filter_matches_document(item, key, k);
    }
}

} // verus!
