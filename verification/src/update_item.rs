//! Updating an item.
//!
//! The stored item is read with its version, updated outside the database, and
//! written back only where the version is still the same. A version conflict
//! is tried again after a random pause that grows with the number of attempts.

use vstd::arithmetic::power2::{lemma2_to64, lemma_pow2_unfold, pow2};
use vstd::prelude::*;
use vstd::string::*;

use crate::bson::{copy_doc, obj1, Bson, BsonV, DocV, Document};
use crate::data::{
    collection_name, data_collection_name, item_document, item_to_document, key_filter, pk_filter,
    ItemKey,
};
use crate::error::{ErrV, StorageError};
use crate::item::{copy_item, opt_item, Item, ItemV};
use crate::protocol::{
    fail_internal, fail_unexpected, fails, in_data, run, runs, unexpected, Action, ActionV,
    Command, CommandV, Event, Place, Reply, Step,
};
use crate::put_item::{found_item, is_write, read_found};
use crate::schema::{copy_schema, schema_view, KeySchemaElement, KeyType};

verus! {

/// How often an update is tried.
pub const MAX_ATTEMPTS: u64 = 50;

/// What an update was asked for.
#[derive(Debug, PartialEq)]
pub struct Update {
    pub at: Place,
    pub filter: Document,
    /// The key of the item, which a new item starts from.
    pub key: Item,
    pub key_schema: Vec<KeySchemaElement>,
    pub conditional: bool,
    pub return_old: bool,
    pub return_new: bool,
    /// How many attempts were made before this one.
    pub attempt: u64,
}

/// The item that an update starts from.
#[derive(Debug, PartialEq)]
pub struct Current {
    pub item: Item,
    /// Whether a document was found.
    pub found: bool,
    pub version: i64,
}

/// Where an update stands.
#[derive(Debug, PartialEq)]
pub enum UpdateState {
    /// The stored document is being looked up.
    Finding(Update),
    /// The condition is being evaluated on the stored item.
    Evaluating(Update, Current),
    /// The update is being applied to the stored item.
    Applying(Update, Current),
    /// The key of the updated item is being asked for.
    Keying(Update, Current, Item),
    /// The document is being written.
    Writing(Update, Current, Item),
    /// A version conflict is being waited out.
    Pausing(Update),
}

/// What an update did.
#[derive(Debug, PartialEq)]
pub struct UpdateDone {
    /// The item that was stored before, where there was one.
    pub old: Option<Item>,
    /// The item that is stored now.
    pub new: Item,
    pub returned_old: Option<Item>,
    pub returned_new: Option<Item>,
}

/// The longest pause after an attempt, in microseconds.
pub open spec fn backoff(attempt: u64) -> u64 {
    (100 * pow2(
        if attempt < 10 {
            attempt as nat
        } else {
            10
        },
    )) as u64
}

/// The command that looks the stored document up.
pub open spec fn lookup(u: Update) -> CommandV {
    CommandV::FindOne { at: u.at@, filter: u.filter@ }
}

/// How an update begins.
pub open spec fn update_begins(
    table_id: Seq<char>,
    key: ItemV,
    item_key: ItemKey,
    key_schema: Seq<(Seq<char>, KeyType)>,
    conditional: bool,
    return_old: bool,
    return_new: bool,
    step: Step<UpdateState, UpdateDone>,
) -> bool {
    match key_filter(key, item_key) {
        Err(e) => fails(step, e),
        Ok(f) => {
            &&& step matches Step::Do(UpdateState::Finding(u), a)
            &&& u.at@ == in_data(collection_name(table_id))
            &&& u.filter@ == f
            &&& u.key@ == key
            &&& schema_view(u.key_schema@) == key_schema
            &&& u.conditional == conditional
            &&& u.return_old == return_old
            &&& u.return_new == return_new
            &&& u.attempt == 0
            &&& a@ == ActionV::Run(lookup(u))
        },
    }
}

/// The version of a stored document; one that was never updated has none.
pub open spec fn version_of(d: Option<Document>) -> i64 {
    match d {
        Some(d) => match d@.get_i64("_v"@) {
            Some(v) => v,
            None => 0,
        },
        None => 0,
    }
}

/// What an update starts from when a document was looked up.
pub open spec fn is_current(u: Update, d: Option<Document>, found: Option<ItemV>, c: Current) -> bool {
    &&& c.version == version_of(d)
    &&& c.found == (d is Some)
    &&& c.item@ == match found {
        Some(i) => i,
        None => u.key@,
    }
}

/// The filter that finds the document only in the version that was read.
pub open spec fn versioned(filter: DocV, version: i64) -> DocV {
    filter.with(
        "_v"@,
        if version == 0 {
            obj1("$not"@, obj1("$gt"@, BsonV::Int64(0)))
        } else {
            BsonV::Int64(version)
        },
    )
}

/// The command that writes the updated document.
pub open spec fn write_back(u: Update, c: Current, document: DocV) -> CommandV {
    let next = document.with("_v"@, BsonV::Int64((c.version + 1) as i64));
    if c.found {
        CommandV::Replace {
            at: u.at@,
            filter: versioned(u.filter@, c.version),
            document: next,
            upsert: false,
        }
    } else {
        CommandV::Replace { at: u.at@, filter: u.filter@, document: next, upsert: true }
    }
}

/// The step asks for the update to be applied to the current item.
pub open spec fn applies(u: Update, c: Current, step: Step<UpdateState, UpdateDone>) -> bool {
    step matches Step::Do(UpdateState::Applying(u2, c2), a) && u2 == u && c2 == c && a@ == (
    ActionV::Apply { op: 0, item: c.item@ })
}

/// The step asks for the condition to be evaluated on the current item.
pub open spec fn evaluates(u: Update, c: Current, step: Step<UpdateState, UpdateDone>) -> bool {
    step matches Step::Do(UpdateState::Evaluating(u2, c2), a) && u2 == u && c2 == c && a@ == (
    ActionV::Evaluate { op: 0, item: c.item@ })
}

/// How an update ends.
pub open spec fn update_ends(
    u: Update,
    c: Current,
    new: Item,
    step: Step<UpdateState, UpdateDone>,
) -> bool {
    &&& step matches Step::Done(Ok(done))
    &&& opt_item(done.old) == (if c.found {
        Some(c.item@)
    } else {
        None
    })
    &&& done.new@ == new@
    &&& opt_item(done.returned_old) == (if u.return_old {
        Some(c.item@)
    } else {
        None
    })
    &&& opt_item(done.returned_new) == (if u.return_new {
        Some(new@)
    } else {
        None
    })
}

/// How an update goes on with an event.
pub open spec fn update_goes_on(
    state: UpdateState,
    event: Event,
    step: Step<UpdateState, UpdateDone>,
) -> bool {
    match (state, event) {
        (UpdateState::Finding(u), Event::Replied(Reply::One(d))) => match found_item(d) {
            Err(e) => fails(step, e),
            Ok(found) => if u.conditional {
                step matches Step::Do(UpdateState::Evaluating(u2, c), _) && is_current(
                    u,
                    d,
                    found,
                    c,
                ) && evaluates(u, c, step)
            } else {
                step matches Step::Do(UpdateState::Applying(u2, c), _) && is_current(
                    u,
                    d,
                    found,
                    c,
                ) && applies(u, c, step)
            },
        },
        (UpdateState::Evaluating(u, c), Event::Evaluated(Err(m))) => fails(
            step,
            ErrV::Validation(m@),
        ),
        (UpdateState::Evaluating(u, c), Event::Evaluated(Ok(false))) => fails(
            step,
            ErrV::ConditionFailed(Some(c.item@)),
        ),
        (UpdateState::Evaluating(u, c), Event::Evaluated(Ok(true))) => applies(u, c, step),
        (UpdateState::Applying(u, c), Event::Applied(Err(m))) => fails(step, ErrV::Validation(m@)),
        (UpdateState::Applying(u, c), Event::Applied(Ok(new))) => {
            &&& step matches Step::Do(UpdateState::Keying(u2, c2, n2), a)
            &&& u2 == u
            &&& c2 == c
            &&& n2 == new
            &&& a@ == (ActionV::KeyOf { op: 0, item: new@, key_schema: schema_view(u.key_schema@) })
        },
        (UpdateState::Keying(u, c, new), Event::Key(Err(e))) => fails(step, e@),
        (UpdateState::Keying(u, c, new), Event::Key(Ok(k))) => match item_document(new@, k) {
            Err(e) => fails(step, e),
            Ok(document) => if c.version == i64::MAX {
                fails(step, ErrV::Internal("document version overflow"@))
            } else {
                runs(step, UpdateState::Writing(u, c, new), write_back(u, c, document))
            },
        },
        (UpdateState::Writing(u, c, new), Event::Replied(Reply::Matched(n))) => if c.found && n
            == 0 {
            step matches Step::Do(UpdateState::Pausing(u2), a) && u2 == u && a@ == (
            ActionV::Pause { at_most: backoff(u.attempt) })
        } else {
            update_ends(u, c, new, step)
        },
        (UpdateState::Pausing(u), Event::Paused) => if u.attempt + 1 >= MAX_ATTEMPTS {
            fails(
                step,
                ErrV::Internal("UpdateItem: too many version conflicts, giving up"@),
            )
        } else {
            runs(
                step,
                UpdateState::Finding(Update { attempt: (u.attempt + 1) as u64, ..u }),
                lookup(u),
            )
        },
        (_, Event::Replied(Reply::Failed(e))) => fails(step, ErrV::Internal(e.message@)),
        _ => fails(step, unexpected()),
    }
}

/// Begins updating the item of a key.
pub fn update_item_start(
    table_id: &str,
    key: &Item,
    item_key: &ItemKey,
    key_schema: &Vec<KeySchemaElement>,
    conditional: bool,
    return_old: bool,
    return_new: bool,
) -> (step: Step<UpdateState, UpdateDone>)
    ensures
        update_begins(
            table_id@,
            key@,
            *item_key,
            schema_view(key_schema@),
            conditional,
            return_old,
            return_new,
            step,
        ),
{
    let name = data_collection_name(table_id);
    let at = Place::data(name.as_str());
    let filter = match pk_filter(key, item_key) {
        Ok(d) => d,
        Err(e) => {
            return Step::Done(Err(e));
        },
    };
    let command = Command::FindOne { at: at.copy(), filter: copy_doc(&filter) };
    run(
        UpdateState::Finding(
            Update {
                at,
                filter,
                key: copy_item(key),
                key_schema: copy_schema(key_schema),
                conditional,
                return_old,
                return_new,
                attempt: 0,
            },
        ),
        command,
    )
}

fn pause_after(attempt: u64) -> (r: u64)
    ensures
        r == backoff(attempt),
{
    let doublings: u64 = if attempt < 10 {
        attempt
    } else {
        10
    };
    proof {
        lemma2_to64();
        vstd::bits::lemma_u64_shl_is_mul(1, doublings);
    }
    100 * (1u64 << doublings)
}

/// Calls `rand::random_range` on the numbers up to `n`. Nothing else is claimed
/// of the result.
#[verifier::external_body]
fn random_up_to(n: u64) -> (r: u64)
    ensures
        r <= n,
{
    rand::random_range(0..=n)
}

/// Draws a pause of at most so many microseconds.
pub fn draw_pause(at_most: u64) -> (r: u64)
    ensures
        r <= at_most,
{
    random_up_to(at_most)
}

fn read_version(d: &Option<Document>) -> (r: i64)
    ensures
        r == version_of(*d),
{
    match d {
        Some(d) => match d.get_i64("_v") {
            Some(v) => v,
            None => 0,
        },
        None => 0,
    }
}

fn write_command(u: &Update, c: &Current, document: Document) -> (r: Command)
    requires
        c.version < i64::MAX,
    ensures
        r@ == write_back(*u, *c, document@),
{
    let next = document.with("_v", Bson::Int64(c.version + 1));
    if c.found {
        let wanted = if c.version == 0 {
            Bson::obj1("$not", Bson::obj1("$gt", Bson::Int64(0)))
        } else {
            Bson::Int64(c.version)
        };
        Command::Replace {
            at: u.at.copy(),
            filter: copy_doc(&u.filter).with("_v", wanted),
            document: next,
            upsert: false,
        }
    } else {
        Command::Replace {
            at: u.at.copy(),
            filter: copy_doc(&u.filter),
            document: next,
            upsert: true,
        }
    }
}

fn apply(u: Update, c: Current) -> (step: Step<UpdateState, UpdateDone>)
    ensures
        applies(u, c, step),
{
    let item = copy_item(&c.item);
    Step::Do(UpdateState::Applying(u, c), Action::Apply { op: 0, item })
}

/// Goes on with an update.
pub fn update_item_next(state: UpdateState, event: Event) -> (step: Step<UpdateState, UpdateDone>)
    ensures
        update_goes_on(state, event, step),
{
    match (state, event) {
        (UpdateState::Finding(u), Event::Replied(Reply::One(d))) => match read_found(&d) {
            Err(e) => Step::Done(Err(e)),
            Ok(found) => {
                let version = read_version(&d);
                let is_there = d.is_some();
                let item = match found {
                    Some(i) => i,
                    None => copy_item(&u.key),
                };
                let c = Current { item, found: is_there, version };
                if u.conditional {
                    let subject = copy_item(&c.item);
                    Step::Do(UpdateState::Evaluating(u, c), Action::Evaluate { op: 0, item: subject })
                } else {
                    apply(u, c)
                }
            },
        },
        (UpdateState::Evaluating(_, _), Event::Evaluated(Err(m))) => Step::Done(
            Err(StorageError::Validation(m)),
        ),
        (UpdateState::Evaluating(_, c), Event::Evaluated(Ok(false))) => Step::Done(
            Err(StorageError::ConditionFailed(Some(c.item))),
        ),
        (UpdateState::Evaluating(u, c), Event::Evaluated(Ok(true))) => apply(u, c),
        (UpdateState::Applying(_, _), Event::Applied(Err(m))) => Step::Done(
            Err(StorageError::Validation(m)),
        ),
        (UpdateState::Applying(u, c), Event::Applied(Ok(new))) => {
            let action = Action::KeyOf {
                op: 0,
                item: copy_item(&new),
                key_schema: copy_schema(&u.key_schema),
            };
            Step::Do(UpdateState::Keying(u, c, new), action)
        },
        (UpdateState::Keying(_, _, _), Event::Key(Err(e))) => Step::Done(Err(e)),
        (UpdateState::Keying(u, c, new), Event::Key(Ok(k))) => match item_to_document(&new, &k) {
            Err(e) => Step::Done(Err(e)),
            Ok(document) => {
                if c.version == i64::MAX {
                    return fail_internal("document version overflow");
                }
                let command = write_command(&u, &c, document);
                run(UpdateState::Writing(u, c, new), command)
            },
        },
        (UpdateState::Writing(u, c, new), Event::Replied(Reply::Matched(n))) => {
            if c.found && n == 0 {
                let at_most = pause_after(u.attempt);
                return Step::Do(UpdateState::Pausing(u), Action::Pause { at_most });
            }
            let old_item = if c.found {
                Some(copy_item(&c.item))
            } else {
                None
            };
            let returned_new = if u.return_new {
                Some(copy_item(&new))
            } else {
                None
            };
            let returned_old = if u.return_old {
                Some(c.item)
            } else {
                None
            };
            Step::Done(Ok(UpdateDone { old: old_item, new, returned_old, returned_new }))
        },
        (UpdateState::Pausing(u), Event::Paused) => {
            if u.attempt >= MAX_ATTEMPTS - 1 {
                return fail_internal("UpdateItem: too many version conflicts, giving up");
            }
            let command = Command::FindOne { at: u.at.copy(), filter: copy_doc(&u.filter) };
            let mut v = u;
            v.attempt = v.attempt + 1;
            run(UpdateState::Finding(v), command)
        },
        (_, Event::Replied(Reply::Failed(e))) => Step::Done(
            Err(StorageError::Internal(e.message)),
        ),
        _ => fail_unexpected(),
    }
}

// --- Laws --------------------------------------------------------------------------

/// The longest pause doubles with each attempt up to the eleventh and stays
/// there.
pub proof fn law_backoff_doubles(attempt: u64)
    ensures
        attempt < 10 ==> backoff((attempt + 1) as u64) == 2 * backoff(attempt),
        attempt >= 10 ==> backoff(attempt) == 102400,
        100 <= backoff(attempt) <= 102400,
{
    lemma2_to64();
    lemma_pow2_unfold((attempt + 1) as nat);
}

/// A document that was found is only ever replaced in the version that was
/// read: an update never overwrites what another writer stored since.
pub proof fn law_update_replaces_read_version(
    state: UpdateState,
    event: Event,
    step: Step<UpdateState, UpdateDone>,
)
    requires
        update_goes_on(state, event, step),
        step matches Step::Do(_, a) && a@ matches ActionV::Run(c) && is_write(c),
    ensures
        state matches UpdateState::Keying(u, c, new) && (step matches Step::Do(
            _,
            a,
        ) && a@ matches ActionV::Run(w) && w is Replace && (c.found ==> w->Replace_filter
            == versioned(u.filter@, c.version) && !w->Replace_upsert)),
{
}

/// Every write raises the version by one.
pub proof fn law_update_raises_version(u: Update, c: Current, document: DocV)
    requires
        c.version < i64::MAX,
    ensures
        write_back(u, c, document)->Replace_document.get("_v"@) == Some(
            BsonV::Int64((c.version + 1) as i64),
        ),
{
    crate::bson::lemma_get_with_same(document, "_v"@, BsonV::Int64((c.version + 1) as i64));
}

/// A conditional update is applied only after its condition was found to hold
/// of the item that it is applied to.
pub proof fn law_update_applies_when_condition_holds(
    state: UpdateState,
    event: Event,
    step: Step<UpdateState, UpdateDone>,
)
    requires
        update_goes_on(state, event, step),
        step matches Step::Do(UpdateState::Applying(u, _), _) && u.conditional,
    ensures
        state matches UpdateState::Evaluating(_, c) && event == Event::Evaluated(Ok(true)) && (
        step matches Step::Do(_, a) && a@ == (ActionV::Apply { op: 0, item: c.item@ })),
{
}

} // verus!
