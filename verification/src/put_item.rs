//! Putting an item.
//!
//! Without a condition the document is replaced or inserted in one command.
//! With a condition the stored item is read first, the condition is evaluated
//! on it, and only then is the document replaced, or inserted where there was
//! none.

use vstd::prelude::*;
use vstd::string::*;

use crate::bson::{copy_doc, DocV, Document};
use crate::data::{
    collection_name, data_collection_name, document_item, document_to_item, item_document,
    item_to_document, key_filter, pk_filter, ItemKey,
};
use crate::error::{res_opt_item, ErrV, StorageError};
use crate::item::{copy_item, opt_item, Item, ItemV};
use crate::protocol::{
    fail_unexpected, fails, in_data, run, runs, unexpected, Action, ActionV, Command, CommandV,
    Event, Place, PlaceV, Reply, Step,
};
use crate::text::{contains_text, occurs_in};

verus! {

/// The item in a document that may have been found.
pub open spec fn found_item(d: Option<Document>) -> Result<Option<ItemV>, ErrV> {
    match d {
        None => Ok(None),
        Some(d) => match document_item(d@) {
            Ok(i) => Ok(Some(i)),
            Err(e) => Err(e),
        },
    }
}

/// Reads the item of a document that may have been found.
pub fn read_found(d: &Option<Document>) -> (r: Result<Option<Item>, StorageError>)
    ensures
        res_opt_item(r) == found_item(*d),
{
    match d {
        None => Ok(None),
        Some(d) => match document_to_item(d) {
            Ok(i) => Ok(Some(i)),
            Err(e) => Err(e),
        },
    }
}

/// A copy of an item that may be there.
pub fn copy_opt_item(i: &Option<Item>) -> (r: Option<Item>)
    ensures
        opt_item(r) == opt_item(*i),
{
    match i {
        None => None,
        Some(i) => Some(copy_item(i)),
    }
}

/// Whether the database refused a document because its key is taken.
pub open spec fn is_key_taken(message: Seq<char>) -> bool {
    occurs_in(message, "E11000"@)
}

/// A put that is not decided yet.
#[derive(Debug, PartialEq)]
pub struct Put {
    pub at: Place,
    pub filter: Document,
    pub document: Document,
    pub return_old: bool,
}

/// Where a put stands.
#[derive(Debug, PartialEq)]
pub enum PutState {
    /// The document is being replaced.
    Replacing { return_old: bool },
    /// The stored document is being looked up.
    Finding(Put),
    /// The condition is being evaluated on the stored item.
    Evaluating(Put, Option<Item>),
    /// The document is being inserted.
    Inserting { at: Place, filter: Document },
    /// Another writer inserted first: its document is being looked up.
    LostRace,
}

/// What a put did.
#[derive(Debug, PartialEq)]
pub struct PutDone {
    /// The item that was replaced.
    pub old: Option<Item>,
    /// The item to hand out.
    pub returned: Option<Item>,
}

/// The put holds what it needs to write the document.
pub open spec fn is_put(p: Put, at: PlaceV, filter: DocV, document: DocV, return_old: bool) -> bool {
    p.at@ == at && p.filter@ == filter && p.document@ == document && p.return_old == return_old
}

/// How a put begins.
pub open spec fn put_begins(
    table_id: Seq<char>,
    item: ItemV,
    key: ItemKey,
    return_old: bool,
    conditional: bool,
    step: Step<PutState, PutDone>,
) -> bool {
    let at = in_data(collection_name(table_id));
    match item_document(item, key) {
        Err(e) => fails(step, e),
        Ok(document) => match key_filter(item, key) {
            Err(e) => fails(step, e),
            Ok(filter) => if conditional {
                step matches Step::Do(PutState::Finding(p), a) && is_put(
                    p,
                    at,
                    filter,
                    document,
                    return_old,
                ) && a@ == ActionV::Run(CommandV::FindOne { at, filter })
            } else {
                runs(
                    step,
                    PutState::Replacing { return_old },
                    CommandV::FindAndReplace { at, filter, document, upsert: true },
                )
            },
        },
    }
}

/// How a put ends with the document that it replaced.
pub open spec fn put_ends(
    return_old: bool,
    d: Option<Document>,
    step: Step<PutState, PutDone>,
) -> bool {
    match found_item(d) {
        Err(e) => fails(step, e),
        Ok(old) => step matches Step::Done(Ok(done)) && opt_item(done.old) == old && opt_item(
            done.returned,
        ) == (if return_old {
            old
        } else {
            None
        }),
    }
}

/// How a put goes on with an event.
pub open spec fn put_goes_on(
    state: PutState,
    event: Event,
    step: Step<PutState, PutDone>,
) -> bool {
    match (state, event) {
        (PutState::Replacing { return_old }, Event::Replied(Reply::One(d))) => put_ends(
            return_old,
            d,
            step,
        ),
        (PutState::Finding(p), Event::Replied(Reply::One(d))) => match found_item(d) {
            Err(e) => fails(step, e),
            Ok(existing) => step matches Step::Do(PutState::Evaluating(p2, x), a) && p2 == p
                && opt_item(x) == existing && a@ == (ActionV::Evaluate {
                op: 0,
                item: match existing {
                    Some(i) => i,
                    None => ItemV::empty(),
                },
            }),
        },
        (PutState::Evaluating(p, x), Event::Evaluated(Err(m))) => fails(
            step,
            ErrV::Validation(m@),
        ),
        (PutState::Evaluating(p, x), Event::Evaluated(Ok(false))) => fails(
            step,
            ErrV::ConditionFailed(opt_item(x)),
        ),
        (PutState::Evaluating(p, Some(_)), Event::Evaluated(Ok(true))) => runs(
            step,
            PutState::Replacing { return_old: p.return_old },
            CommandV::FindAndReplace {
                at: p.at@,
                filter: p.filter@,
                document: p.document@,
                upsert: false,
            },
        ),
        (PutState::Evaluating(p, None), Event::Evaluated(Ok(true))) => {
            step matches Step::Do(PutState::Inserting { at, filter }, a) && at@ == p.at@
                && filter@ == p.filter@ && a@ == ActionV::Run(
                CommandV::Insert { at: p.at@, document: p.document@ },
            )
        },
        (PutState::Inserting { at, filter }, Event::Replied(Reply::Done)) => put_ends(
            false,
            None,
            step,
        ),
        (
            PutState::Inserting { at, filter },
            Event::Replied(Reply::Failed(e)),
        ) => if is_key_taken(e.message@) {
            runs(step, PutState::LostRace, CommandV::FindOne { at: at@, filter: filter@ })
        } else {
            fails(step, ErrV::Internal(e.message@))
        },
        (PutState::LostRace, Event::Replied(Reply::One(d))) => match found_item(d) {
            Err(e) => fails(step, e),
            Ok(winner) => fails(step, ErrV::ConditionFailed(winner)),
        },
        (_, Event::Replied(Reply::Failed(e))) => fails(step, ErrV::Internal(e.message@)),
        _ => fails(step, unexpected()),
    }
}

/// Begins a put of `item`, whose key is `key`.
pub fn put_item_start(
    table_id: &str,
    item: &Item,
    key: &ItemKey,
    return_old: bool,
    conditional: bool,
) -> (step: Step<PutState, PutDone>)
    ensures
        put_begins(table_id@, item@, *key, return_old, conditional, step),
{
    let name = data_collection_name(table_id);
    let at = Place::data(name.as_str());
    let document = match item_to_document(item, key) {
        Ok(d) => d,
        Err(e) => {
            return Step::Done(Err(e));
        },
    };
    let filter = match pk_filter(item, key) {
        Ok(d) => d,
        Err(e) => {
            return Step::Done(Err(e));
        },
    };
    if conditional {
        let command = Command::FindOne { at: at.copy(), filter: copy_doc(&filter) };
        run(PutState::Finding(Put { at, filter, document, return_old }), command)
    } else {
        run(
            PutState::Replacing { return_old },
            Command::FindAndReplace { at, filter, document, upsert: true },
        )
    }
}

fn put_end(return_old: bool, d: &Option<Document>) -> (step: Step<PutState, PutDone>)
    ensures
        put_ends(return_old, *d, step),
{
    match read_found(d) {
        Err(e) => Step::Done(Err(e)),
        Ok(old) => {
            let returned = if return_old {
                copy_opt_item(&old)
            } else {
                None
            };
            Step::Done(Ok(PutDone { old, returned }))
        },
    }
}

/// Goes on with a put.
pub fn put_item_next(state: PutState, event: Event) -> (step: Step<PutState, PutDone>)
    ensures
        put_goes_on(state, event, step),
{
    match (state, event) {
        (PutState::Replacing { return_old }, Event::Replied(Reply::One(d))) => put_end(
            return_old,
            &d,
        ),
        (PutState::Finding(p), Event::Replied(Reply::One(d))) => match read_found(&d) {
            Err(e) => Step::Done(Err(e)),
            Ok(existing) => {
                let subject = match &existing {
                    Some(i) => copy_item(i),
                    None => Item::new(),
                };
                Step::Do(PutState::Evaluating(p, existing), Action::Evaluate { op: 0, item: subject })
            },
        },
        (PutState::Evaluating(_, _), Event::Evaluated(Err(m))) => Step::Done(
            Err(StorageError::Validation(m)),
        ),
        (PutState::Evaluating(_, x), Event::Evaluated(Ok(false))) => Step::Done(
            Err(StorageError::ConditionFailed(x)),
        ),
        (PutState::Evaluating(p, Some(_)), Event::Evaluated(Ok(true))) => run(
            PutState::Replacing { return_old: p.return_old },
            Command::FindAndReplace {
                at: p.at,
                filter: p.filter,
                document: p.document,
                upsert: false,
            },
        ),
        (PutState::Evaluating(p, None), Event::Evaluated(Ok(true))) => {
            let command = Command::Insert { at: p.at.copy(), document: p.document };
            run(PutState::Inserting { at: p.at, filter: p.filter }, command)
        },
        (PutState::Inserting { .. }, Event::Replied(Reply::Done)) => put_end(false, &None),
        (PutState::Inserting { at, filter }, Event::Replied(Reply::Failed(e))) => {
            if contains_text(e.message.as_str(), "E11000") {
                run(PutState::LostRace, Command::FindOne { at, filter })
            } else {
                Step::Done(Err(StorageError::Internal(e.message)))
            }
        },
        (PutState::LostRace, Event::Replied(Reply::One(d))) => match read_found(&d) {
            Err(e) => Step::Done(Err(e)),
            Ok(winner) => Step::Done(Err(StorageError::ConditionFailed(winner))),
        },
        (_, Event::Replied(Reply::Failed(e))) => Step::Done(
            Err(StorageError::Internal(e.message)),
        ),
        _ => fail_unexpected(),
    }
}

// --- Laws --------------------------------------------------------------------------

/// A command that changes a document.
pub open spec fn is_write(c: CommandV) -> bool {
    c is FindAndReplace || c is Insert || c is Replace || c is FindAndDelete || c is DeleteOne
        || c is Update || c is UpdateMany || c is UpdateWith || c is DeleteMany
}

/// A conditional put writes only after its condition was found to hold.
pub proof fn law_put_writes_when_condition_holds(
    state: PutState,
    event: Event,
    step: Step<PutState, PutDone>,
)
    requires
        put_goes_on(state, event, step),
        step matches Step::Do(_, a) && a@ matches ActionV::Run(c) && is_write(c),
    ensures
        state is Evaluating,
        event == Event::Evaluated(Ok(true)),
{
}

/// A conditional put begins by reading, not by writing.
pub proof fn law_conditional_put_reads_first(
    table_id: Seq<char>,
    item: ItemV,
    key: ItemKey,
    return_old: bool,
    step: Step<PutState, PutDone>,
)
    requires
        put_begins(table_id, item, key, return_old, true, step),
        step is Do,
    ensures
        step matches Step::Do(_, a) && a@ matches ActionV::Run(c) && !is_write(c),
{
}

} // verus!
