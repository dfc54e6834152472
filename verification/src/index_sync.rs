//! Keeping the collections of secondary indexes in step with a table.
//!
//! After a write, the entry of the old item is removed from every index that it
//! is in, and the projection of the new item is put into every index that it
//! belongs to.

use vstd::prelude::*;
use vstd::string::*;

use crate::bson::{doc1, doc_seq, BsonV, Bson, DocV, Document};
use crate::data::{
    collection_name, data_collection_name, item_document, item_to_document, key_filter, pk_filter,
    ItemKey,
};
use crate::effects::{
    command_of, has_typed_key, is_removed, is_replaced, lemma_found_by_key, lemma_removed,
    lemma_replaced, one_if, others_kept, place_of, reads_back, stands_under, state_of, table_place,
    takes_effect,
};
use crate::error::{ErrV, StorageError};
use crate::item::{
    copy_av, copy_item, lemma_item_get_empty, lemma_item_get_other, lemma_item_get_same, opt_item,
    Item, ItemV,
};
use crate::meaning::{
    equals, lemma_field, lemma_is_part, lemma_one_clause, lemma_one_part, lemma_path_joined,
    matches_filter,
};
use crate::protocol::{
    fail_unexpected, fails, in_catalog, in_data, run, runs, unexpected, unpaged, Action, ActionV,
    Command, CommandV, Event, Paging, Place, Reply, Step,
};
use crate::schema::{copy_schema, schema_view, KeySchemaElement, KeyType, Projection, ProjectionType};
use crate::schema_json::{
    projection_of, read_projection, read_schema, schema_of, ProjectionV,
};

verus! {

// --- Projection ----------------------------------------------------------------------

/// A name is that of an attribute of a key.
pub open spec fn is_key_name(schema: Seq<(Seq<char>, KeyType)>, k: Seq<char>) -> bool {
    exists|i: int| 0 <= i < schema.len() && (#[trigger] schema[i]).0 == k
}

/// A projection names an attribute beyond the keys.
pub open spec fn is_named(p: ProjectionV, k: Seq<char>) -> bool {
    p.kind == ProjectionType::Include && p.attributes is Some && p.attributes->0.contains(k)
}

/// An index holds an attribute: all do, or it is in one of the keys, or the
/// projection names it.
pub open spec fn is_selected(
    index: Seq<(Seq<char>, KeyType)>,
    base: Seq<(Seq<char>, KeyType)>,
    p: ProjectionV,
    k: Seq<char>,
) -> bool {
    p.kind == ProjectionType::All || is_key_name(index, k) || is_key_name(base, k) || is_named(p, k)
}

/// `r` holds of `item` just the attributes that an index holds.
pub open spec fn is_projected(
    item: ItemV,
    index: Seq<(Seq<char>, KeyType)>,
    base: Seq<(Seq<char>, KeyType)>,
    p: ProjectionV,
    r: ItemV,
) -> bool {
    r.wf() && forall|k: Seq<char>| #[trigger]
        r.get(k) == (if is_selected(index, base, p, k) {
            item.get(k)
        } else {
            None
        })
}

/// An item has all the attributes of a key.
pub open spec fn has_keys(item: ItemV, schema: Seq<(Seq<char>, KeyType)>) -> bool {
    forall|i: int| 0 <= i < schema.len() ==> item.has((#[trigger] schema[i]).0)
}

/// Whether an item has all the attributes of the key of an index.
pub fn item_has_index_keys(item: &Item, schema: &Vec<KeySchemaElement>) -> (r: bool)
    ensures
        r == has_keys(item@, schema_view(schema@)),
{
    let ghost s = schema_view(schema@);
    let mut i: usize = 0;
    while i < schema.len()
        invariant
            i <= schema.len(),
            s == schema_view(schema@),
            forall|j: int| 0 <= j < i ==> item@.has((#[trigger] s[j]).0),
        decreases schema.len() - i,
    {
        if !item.contains_key(schema[i].attribute_name.as_str()) {
            assert(!item@.has(s[i as int].0));
            return false;
        }
        i += 1;
    }
    true
}

/// The item holds of `item` the attributes that `sel` tells.
spec fn keeps(item: ItemV, r: ItemV, sel: spec_fn(Seq<char>) -> bool) -> bool {
    r.wf() && forall|k: Seq<char>| #[trigger]
        r.get(k) == (if sel(k) {
            item.get(k)
        } else {
            None
        })
}

/// Takes one more attribute over, where the item has it.
fn take_attribute(
    item: &Item,
    into: &mut Item,
    name: &str,
    Ghost(sel): Ghost<spec_fn(Seq<char>) -> bool>,
    Ghost(sel2): Ghost<spec_fn(Seq<char>) -> bool>,
)
    requires
        keeps(item@, old(into)@, sel),
        forall|k: Seq<char>| #[trigger] sel2(k) <==> (sel(k) || k == name@),
    ensures
        keeps(item@, final(into)@, sel2),
{
    match item.get(name) {
        Some(v) => {
            proof {
                let m = into@;
                crate::item::lemma_with_wf(m, name@, v@);
                assert forall|k: Seq<char>| #[trigger] m.with(name@, v@).get(k) == (if sel2(k) {
                    item@.get(k)
                } else {
                    None
                }) by {
                    if k == name@ {
                        lemma_item_get_same(m, name@, v@);
                    } else {
                        lemma_item_get_other(m, name@, v@, k);
                    }
                    assert(m.get(k) == (if sel(k) {
                        item@.get(k)
                    } else {
                        None
                    }));
                }
            }
            into.insert(name, copy_av(v));
        },
        None => {
            proof {
                let m = into@;
                assert forall|k: Seq<char>| #[trigger] m.get(k) == (if sel2(k) {
                    item@.get(k)
                } else {
                    None
                }) by {
                }
            }
        },
    }
}

/// A name is that of one of the first `n` attributes of a key.
spec fn in_first(schema: Seq<(Seq<char>, KeyType)>, n: int, k: Seq<char>) -> bool {
    exists|i: int| 0 <= i < n && (#[trigger] schema[i]).0 == k
}

/// The part of an item that an index holds.
pub fn project_item(
    item: &Item,
    index: &Vec<KeySchemaElement>,
    base: &Vec<KeySchemaElement>,
    projection: &Projection,
) -> (r: Item)
    ensures
        is_projected(item@, schema_view(index@), schema_view(base@), projection@, r@),
{
    let ghost si = schema_view(index@);
    let ghost sb = schema_view(base@);
    if projection.projection_type == ProjectionType::All {
        return copy_item(item);
    }
    let mut out = Item::new();
    proof {
        assert forall|k: Seq<char>| #[trigger] ItemV::empty().get(k) is None by {
            lemma_item_get_empty(k);
        }
        lemma_item_get_empty(Seq::empty());
    }
    let mut i: usize = 0;
    while i < index.len()
        invariant
            i <= index.len(),
            si == schema_view(index@),
            keeps(item@, out@, |k: Seq<char>| in_first(si, i as int, k)),
        decreases index.len() - i,
    {
        proof {
            assert forall|k: Seq<char>| in_first(si, i + 1, k) <==> (in_first(si, i as int, k) || k
                == index@[i as int].attribute_name@) by {
                assert(si[i as int].0 == index@[i as int].attribute_name@);
                if in_first(si, i + 1, k) {
                    let j = choose|j: int| 0 <= j < i + 1 && (#[trigger] si[j]).0 == k;
                    if j < i {
                        assert(in_first(si, i as int, k));
                    }
                }
                if in_first(si, i as int, k) {
                    let j = choose|j: int| 0 <= j < i && (#[trigger] si[j]).0 == k;
                    assert(0 <= j < i + 1 && si[j].0 == k);
                }
            }
        }
        take_attribute(
            item,
            &mut out,
            index[i].attribute_name.as_str(),
            Ghost(|k: Seq<char>| in_first(si, i as int, k)),
            Ghost(|k: Seq<char>| in_first(si, i + 1, k)),
        );
        i += 1;
    }
    let mut i: usize = 0;
    let ghost ni = si.len() as int;
    assert(keeps(item@, out@, |k: Seq<char>| in_first(si, ni, k) || in_first(sb, 0, k))) by {
        assert forall|k: Seq<char>| #[trigger] out@.get(k) == (if in_first(si, ni, k)
            || in_first(sb, 0, k) {
            item@.get(k)
        } else {
            None
        }) by {}
    }
    while i < base.len()
        invariant
            i <= base.len(),
            sb == schema_view(base@),
            keeps(item@, out@, |k: Seq<char>| in_first(si, ni, k) || in_first(sb, i as int, k)),
        decreases base.len() - i,
    {
        proof {
            assert forall|k: Seq<char>| in_first(sb, i + 1, k) <==> (in_first(sb, i as int, k) || k
                == base@[i as int].attribute_name@) by {
                assert(sb[i as int].0 == base@[i as int].attribute_name@);
                if in_first(sb, i + 1, k) {
                    let j = choose|j: int| 0 <= j < i + 1 && (#[trigger] sb[j]).0 == k;
                    if j < i {
                        assert(in_first(sb, i as int, k));
                    }
                }
                if in_first(sb, i as int, k) {
                    let j = choose|j: int| 0 <= j < i && (#[trigger] sb[j]).0 == k;
                    assert(0 <= j < i + 1 && sb[j].0 == k);
                }
            }
        }
        take_attribute(
            item,
            &mut out,
            base[i].attribute_name.as_str(),
            Ghost(|k: Seq<char>| in_first(si, ni, k) || in_first(sb, i as int, k)),
            Ghost(|k: Seq<char>| in_first(si, ni, k) || in_first(sb, i + 1, k)),
        );
        i += 1;
    }
    let ghost nb = sb.len() as int;
    let ghost keys = |k: Seq<char>| in_first(si, ni, k) || in_first(sb, nb, k);
    assert(keeps(item@, out@, keys));
    if projection.projection_type == ProjectionType::Include {
        if let Some(attrs) = &projection.non_key_attributes {
            let ghost names = crate::bson::text_seq(attrs@);
            let mut i: usize = 0;
            assert(keeps(item@, out@, |k: Seq<char>| keys(k) || names.take(0).contains(k))) by {
                assert forall|k: Seq<char>| #[trigger] out@.get(k) == (if keys(k)
                    || names.take(0).contains(k) {
                    item@.get(k)
                } else {
                    None
                }) by {}
            }
            while i < attrs.len()
                invariant
                    i <= attrs.len(),
                    names == crate::bson::text_seq(attrs@),
                    keeps(
                        item@,
                        out@,
                        |k: Seq<char>| keys(k) || names.take(i as int).contains(k),
                    ),
                decreases attrs.len() - i,
            {
                proof {
                    assert forall|k: Seq<char>| #[trigger] names.take(i + 1).contains(k) <==> (
                    names.take(i as int).contains(k) || k == attrs@[i as int]@) by {
                        assert(names.take(i + 1) =~= names.take(i as int).push(names[i as int]));
                        if names.take(i as int).contains(k) {
                            let j = choose|j: int|
                                0 <= j < names.take(i as int).len() && names.take(i as int)[j]
                                    == k;
                            assert(names.take(i + 1)[j] == k);
                        }
                        if k == attrs@[i as int]@ {
                            assert(names.take(i + 1)[i as int] == k);
                        }
                    }
                }
                take_attribute(
                    item,
                    &mut out,
                    attrs[i].as_str(),
                    Ghost(|k: Seq<char>| keys(k) || names.take(i as int).contains(k)),
                    Ghost(|k: Seq<char>| keys(k) || names.take(i + 1).contains(k)),
                );
                i += 1;
            }
            assert(names.take(i as int) =~= names);
        }
    }
    proof {
        assert forall|k: Seq<char>| #[trigger] out@.get(k) == (if is_selected(
            si,
            sb,
            projection@,
            k,
        ) {
            item@.get(k)
        } else {
            None
        }) by {
            assert(in_first(si, ni, k) == is_key_name(si, k));
            assert(in_first(sb, nb, k) == is_key_name(sb, k));
        }
    }
    out
}

// --- Index definitions ---------------------------------------------------------------

/// A secondary index, as the catalog describes it.
#[derive(Debug, PartialEq)]
pub struct IndexEntry {
    pub index_id: String,
    pub key_schema: Vec<KeySchemaElement>,
    pub projection: Projection,
}

/// The model of an index.
#[verifier::ext_equal]
pub struct EntryV {
    pub index_id: Seq<char>,
    pub schema: Seq<(Seq<char>, KeyType)>,
    pub projection: ProjectionV,
}

impl View for IndexEntry {
    type V = EntryV;

    open spec fn view(&self) -> EntryV {
        EntryV {
            index_id: self.index_id@,
            schema: schema_view(self.key_schema@),
            projection: self.projection@,
        }
    }
}

/// The projection of everything.
pub open spec fn project_all() -> ProjectionV {
    ProjectionV { kind: ProjectionType::All, attributes: None }
}

/// The index that a document of the catalog describes. Without an identifier
/// or a key schema it describes none. A key schema that cannot be read counts
/// as empty, a projection that cannot be read as that of everything.
pub open spec fn entry_of(d: DocV) -> Option<EntryV> {
    match (d.get_str("index_id"@), d.get("key_schema"@)) {
        (Some(index_id), Some(ks)) => Some(
            EntryV {
                index_id,
                schema: match schema_of(ks) {
                    Some(s) => s,
                    None => Seq::empty(),
                },
                projection: match d.get("projection"@) {
                    Some(p) => match projection_of(p) {
                        Some(p) => p,
                        None => project_all(),
                    },
                    None => project_all(),
                },
            },
        ),
        _ => None,
    }
}

/// Reads the description of an index.
pub fn read_entry(d: &Document) -> (r: Option<IndexEntry>)
    ensures
        match r {
            Some(e) => entry_of(d@) == Some(e@),
            None => entry_of(d@) is None,
        },
{
    let index_id = match d.get_str("index_id") {
        Some(s) => s.to_owned(),
        None => {
            return None;
        },
    };
    let key_schema = match d.get("key_schema") {
        None => {
            return None;
        },
        Some(b) => match read_schema(b) {
            Some(s) => s,
            None => {
                let empty: Vec<KeySchemaElement> = Vec::new();
                assert(schema_view(empty@) =~= Seq::empty());
                empty
            },
        },
    };
    let projection = match d.get("projection") {
        Some(b) => match read_projection(b) {
            Some(p) => p,
            None => Projection { projection_type: ProjectionType::All, non_key_attributes: None },
        },
        None => Projection { projection_type: ProjectionType::All, non_key_attributes: None },
    };
    Some(IndexEntry { index_id, key_schema, projection })
}

// --- The synchronisation -------------------------------------------------------------

/// What is left of a synchronisation.
#[derive(Debug, PartialEq)]
pub struct Sync {
    /// The key schema of the table.
    pub base: Vec<KeySchemaElement>,
    pub old: Option<Item>,
    pub new: Option<Item>,
    /// The descriptions of the indexes.
    pub docs: Vec<Document>,
    /// How many of them are done.
    pub done: usize,
}

/// Where a synchronisation stands.
#[derive(Debug, PartialEq)]
pub enum SyncState {
    /// The indexes of the table are being listed.
    Listing(Sync),
    /// The key of the old item in an index is being asked for.
    OldKey(Sync, IndexEntry),
    /// The entry of the old item is being removed.
    Deleting(Sync, IndexEntry),
    /// The key of the projected new item in an index is being asked for.
    NewKey(Sync, IndexEntry, Item),
    /// The entry of the new item is being written.
    Writing(Sync),
}

/// Whether there is an item with the key of an index.
pub open spec fn opt_has_keys(i: Option<ItemV>, schema: Seq<(Seq<char>, KeyType)>) -> bool {
    i is Some && has_keys(i->0, schema)
}

/// What a synchronisation does next, with the description at which it does.
pub enum SyncWork {
    Finished,
    Remove(int, EntryV),
    Write(int, EntryV),
}

/// The next index at or after position `i` that the old or the new item is in.
pub open spec fn sync_work(
    old: Option<ItemV>,
    new: Option<ItemV>,
    docs: Seq<DocV>,
    i: int,
) -> SyncWork
    decreases docs.len() - i,
{
    if i < 0 || i >= docs.len() {
        SyncWork::Finished
    } else {
        match entry_of(docs[i]) {
            None => sync_work(old, new, docs, i + 1),
            Some(e) => if opt_has_keys(old, e.schema) {
                SyncWork::Remove(i, e)
            } else if opt_has_keys(new, e.schema) {
                SyncWork::Write(i, e)
            } else {
                sync_work(old, new, docs, i + 1)
            },
        }
    }
}

/// What a synchronisation does next.
pub open spec fn work_left(s: Sync) -> SyncWork {
    sync_work(opt_item(s.old), opt_item(s.new), doc_seq(s.docs@), s.done as int)
}

/// The step asks for the key of the projected new item in an index.
pub open spec fn asks_new_key(
    s: Sync,
    e: EntryV,
    done: int,
    step: Step<SyncState, Option<bool>>,
) -> bool {
    &&& step matches Step::Do(SyncState::NewKey(s2, e2, p), a)
    &&& s2 == (Sync { done: done as usize, ..s })
    &&& e2@ == e
    &&& is_projected(s.new->0@, e.schema, schema_view(s.base@), e.projection, p@)
    &&& a@ == (ActionV::KeyOf { op: 0, item: p@, key_schema: e.schema })
}

/// How a synchronisation goes on with the next index.
pub open spec fn sync_proceeds(s: Sync, step: Step<SyncState, Option<bool>>) -> bool {
    match work_left(s) {
        SyncWork::Finished => step == Step::<SyncState, Option<bool>>::Done(
            Ok(Some(s.docs@.len() > 0)),
        ),
        SyncWork::Remove(i, e) => {
            &&& step matches Step::Do(SyncState::OldKey(s2, e2), a)
            &&& s2 == (Sync { done: (i + 1) as usize, ..s })
            &&& e2@ == e
            &&& a@ == (ActionV::KeyOf { op: 0, item: s.old->0@, key_schema: e.schema })
        },
        SyncWork::Write(i, e) => asks_new_key(s, e, i + 1, step),
    }
}

/// How a synchronisation begins. Nothing is done for a table that is known to
/// have no indexes.
pub open spec fn sync_begins(
    table_id: Seq<char>,
    s: Sync,
    has_indexes: Option<bool>,
    step: Step<SyncState, Option<bool>>,
) -> bool {
    if has_indexes == Some(false) {
        step == Step::<SyncState, Option<bool>>::Done(Ok(None))
    } else {
        runs(
            step,
            SyncState::Listing(s),
            CommandV::Find {
                at: in_catalog("indexes"@),
                filter: doc1("_id.table_id"@, BsonV::Str(table_id)),
                paging: unpaged(),
            },
        )
    }
}

/// How a synchronisation goes on once the old entry is gone.
pub open spec fn sync_after_removal(
    s: Sync,
    e: EntryV,
    step: Step<SyncState, Option<bool>>,
) -> bool {
    if opt_has_keys(opt_item(s.new), e.schema) {
        asks_new_key(s, e, s.done as int, step)
    } else {
        sync_proceeds(s, step)
    }
}

/// How a synchronisation goes on with an event.
pub open spec fn sync_goes_on(
    state: SyncState,
    event: Event,
    step: Step<SyncState, Option<bool>>,
) -> bool {
    match (state, event) {
        (SyncState::Listing(s), Event::Replied(Reply::Many(docs))) => sync_proceeds(
            Sync { docs, done: 0, ..s },
            step,
        ),
        (SyncState::OldKey(s, e), Event::Key(Ok(k))) => match s.old {
            None => fails(step, unexpected()),
            Some(old) => match key_filter(old@, k) {
                Err(x) => fails(step, x),
                Ok(filter) => runs(
                    step,
                    SyncState::Deleting(s, e),
                    CommandV::DeleteOne { at: in_data(collection_name(e.index_id@)), filter },
                ),
            },
        },
        (SyncState::Deleting(s, e), Event::Replied(_)) => sync_after_removal(s, e@, step),
        (SyncState::NewKey(s, e, p), Event::Key(Ok(k))) => match item_document(p@, k) {
            Err(x) => fails(step, x),
            Ok(document) => match key_filter(p@, k) {
                Err(x) => fails(step, x),
                Ok(filter) => runs(
                    step,
                    SyncState::Writing(s),
                    CommandV::Replace {
                        at: in_data(collection_name(e.index_id@)),
                        filter,
                        document,
                        upsert: true,
                    },
                ),
            },
        },
        (SyncState::Writing(s), Event::Replied(Reply::Matched(_))) => sync_proceeds(s, step),
        (_, Event::Key(Err(x))) => fails(step, x@),
        (_, Event::Replied(Reply::Failed(x))) => fails(step, ErrV::Internal(x.message@)),
        _ => fails(step, unexpected()),
    }
}

/// Begins a synchronisation. `has_indexes` is what is known of the table.
pub fn sync_start(
    table_id: &str,
    base: Vec<KeySchemaElement>,
    old_item: Option<Item>,
    new_item: Option<Item>,
    has_indexes: Option<bool>,
) -> (step: Step<SyncState, Option<bool>>)
    ensures
        exists|docs: Vec<Document>|
            docs@.len() == 0 && sync_begins(
                table_id@,
                Sync { base, old: old_item, new: new_item, docs, done: 0 },
                has_indexes,
                step,
            ),
{
    let docs: Vec<Document> = Vec::new();
    let ghost d = docs;
    if let Some(known) = has_indexes {
        if !known {
            let step = Step::Done(Ok(None));
            assert(sync_begins(
                table_id@,
                Sync { base, old: old_item, new: new_item, docs: d, done: 0 },
                has_indexes,
                step,
            ));
            return step;
        }
    }
    let s = Sync { base, old: old_item, new: new_item, docs, done: 0 };
    let step = run(
        SyncState::Listing(s),
        Command::Find {
            at: Place::catalog("indexes"),
            filter: Document::new().with("_id.table_id", Bson::text(table_id)),
            paging: Paging::none(),
        },
    );
    assert(sync_begins(
        table_id@,
        Sync { base, old: old_item, new: new_item, docs: d, done: 0 },
        has_indexes,
        step,
    ));
    step
}

fn opt_item_has_keys(i: &Option<Item>, schema: &Vec<KeySchemaElement>) -> (r: bool)
    ensures
        r == opt_has_keys(opt_item(*i), schema_view(schema@)),
{
    match i {
        None => false,
        Some(i) => item_has_index_keys(i, schema),
    }
}

fn ask_new_key(s: Sync, e: IndexEntry) -> (step: Step<SyncState, Option<bool>>)
    requires
        s.new is Some,
    ensures
        asks_new_key(s, e@, s.done as int, step),
{
    let p = match &s.new {
        Some(n) => project_item(n, &e.key_schema, &s.base, &e.projection),
        None => Item::new(),
    };
    let action = Action::KeyOf { op: 0, item: copy_item(&p), key_schema: copy_schema(&e.key_schema) };
    Step::Do(SyncState::NewKey(s, e, p), action)
}

fn proceed(start: Sync) -> (step: Step<SyncState, Option<bool>>)
    ensures
        sync_proceeds(start, step),
{
    let mut s = start;
    while s.done < s.docs.len()
        invariant
            s == (Sync { done: s.done, ..start }),
            work_left(s) == work_left(start),
        decreases s.docs.len() - s.done,
    {
        let i = s.done;
        assert(doc_seq(s.docs@)[i as int] == s.docs@[i as int]@);
        let entry = read_entry(&s.docs[i]);
        s.done = i + 1;
        if let Some(e) = entry {
            if opt_item_has_keys(&s.old, &e.key_schema) {
                if let Some(o) = &s.old {
                    let action = Action::KeyOf {
                        op: 0,
                        item: copy_item(o),
                        key_schema: copy_schema(&e.key_schema),
                    };
                    return Step::Do(SyncState::OldKey(s, e), action);
                }
            }
            if opt_item_has_keys(&s.new, &e.key_schema) {
                return ask_new_key(s, e);
            }
        }
    }
    Step::Done(Ok(Some(s.docs.len() > 0)))
}

/// Goes on with a synchronisation. The outcome tells whether the table has
/// indexes, where that was looked up.
pub fn sync_next(state: SyncState, event: Event) -> (step: Step<SyncState, Option<bool>>)
    ensures
        sync_goes_on(state, event, step),
{
    match (state, event) {
        (SyncState::Listing(s), Event::Replied(Reply::Many(docs))) => proceed(
            Sync { base: s.base, old: s.old, new: s.new, docs, done: 0 },
        ),
        (SyncState::OldKey(s, e), Event::Key(Ok(k))) => {
            let filter = match &s.old {
                None => {
                    return fail_unexpected();
                },
                Some(o) => match pk_filter(o, &k) {
                    Ok(f) => f,
                    Err(x) => {
                        return Step::Done(Err(x));
                    },
                },
            };
            let name = data_collection_name(e.index_id.as_str());
            run(
                SyncState::Deleting(s, e),
                Command::DeleteOne { at: Place::data(name.as_str()), filter },
            )
        },
        (SyncState::Deleting(s, e), Event::Replied(_)) => {
            if opt_item_has_keys(&s.new, &e.key_schema) {
                ask_new_key(s, e)
            } else {
                proceed(s)
            }
        },
        (SyncState::NewKey(s, e, p), Event::Key(Ok(k))) => {
            let document = match item_to_document(&p, &k) {
                Ok(d) => d,
                Err(x) => {
                    return Step::Done(Err(x));
                },
            };
            let filter = match pk_filter(&p, &k) {
                Ok(f) => f,
                Err(x) => {
                    return Step::Done(Err(x));
                },
            };
            let name = data_collection_name(e.index_id.as_str());
            run(
                SyncState::Writing(s),
                Command::Replace { at: Place::data(name.as_str()), filter, document, upsert: true },
            )
        },
        (SyncState::Writing(s), Event::Replied(Reply::Matched(_))) => proceed(s),
        (_, Event::Key(Err(x))) => Step::Done(Err(x)),
        (_, Event::Replied(Reply::Failed(x))) => Step::Done(
            Err(StorageError::Internal(x.message)),
        ),
        _ => fail_unexpected(),
    }
}

// --- Laws --------------------------------------------------------------------------

/// A projection never changes a value and never adds an attribute.
pub proof fn law_projection_is_part(
    item: ItemV,
    index: Seq<(Seq<char>, KeyType)>,
    base: Seq<(Seq<char>, KeyType)>,
    p: ProjectionV,
    r: ItemV,
    k: Seq<char>,
)
    requires
        is_projected(item, index, base, p, r),
        r.has(k),
    ensures
        r.get(k) == item.get(k),
{
}

/// A projection keeps the keys of the index and of the table.
pub proof fn law_projection_keeps_keys(
    item: ItemV,
    index: Seq<(Seq<char>, KeyType)>,
    base: Seq<(Seq<char>, KeyType)>,
    p: ProjectionV,
    r: ItemV,
)
    requires
        is_projected(item, index, base, p, r),
    ensures
        has_keys(item, index) ==> has_keys(r, index),
        has_keys(item, base) ==> has_keys(r, base),
{
    if has_keys(item, index) {
        assert forall|i: int| 0 <= i < index.len() implies r.has((#[trigger] index[i]).0) by {
            assert(is_key_name(index, index[i].0));
            assert(item.has(index[i].0));
        }
    }
    if has_keys(item, base) {
        assert forall|i: int| 0 <= i < base.len() implies r.has((#[trigger] base[i]).0) by {
            assert(is_key_name(base, base[i].0));
            assert(item.has(base[i].0));
        }
    }
}

/// The projection of everything is the item itself.
pub proof fn law_projection_of_all(
    item: ItemV,
    index: Seq<(Seq<char>, KeyType)>,
    base: Seq<(Seq<char>, KeyType)>,
    p: ProjectionV,
    r: ItemV,
)
    requires
        item.wf(),
        p.kind == ProjectionType::All,
        is_projected(item, index, base, p, r),
    ensures
        r == item,
{
    assert forall|k: Seq<char>| #[trigger] r.get(k) == item.get(k) by {}
    crate::item::lemma_item_ext(r, item);
}

/// A table that is known to have no indexes costs no database command.
pub proof fn law_no_indexes_no_commands(
    table_id: Seq<char>,
    s: Sync,
    step: Step<SyncState, Option<bool>>,
)
    requires
        sync_begins(table_id, s, Some(false), step),
    ensures
        step is Done,
{
}

// --- A whole synchronisation ---------------------------------------------------------

/// A run of a synchronisation: each step is what comes of a state and an
/// event, and the next state is the one it goes on to.
pub open spec fn is_sync_run(
    states: Seq<SyncState>,
    events: Seq<Event>,
    steps: Seq<Step<SyncState, Option<bool>>>,
) -> bool {
    &&& steps.len() > 0
    &&& states.len() == steps.len()
    &&& events.len() == steps.len()
    &&& forall|i: int| 0 <= i < steps.len() ==> sync_goes_on(states[i], events[i], #[trigger] steps[i])
    &&& forall|i: int|
        0 <= i < steps.len() - 1 ==> (#[trigger] steps[i]) is Do && state_of(steps[i]) == states[i + 1]
}

/// The commands that the steps from position `i` on run.
pub open spec fn commands_from(
    steps: Seq<Step<SyncState, Option<bool>>>,
    i: int,
) -> Seq<CommandV>
    decreases steps.len() - i,
{
    if i < 0 || i >= steps.len() {
        Seq::empty()
    } else {
        match command_of(steps[i]) {
            Some(c) => seq![c] + commands_from(steps, i + 1),
            None => commands_from(steps, i + 1),
        }
    }
}

/// A change of an index: the entry of the old item goes, or that of the new
/// item comes.
pub enum Change {
    Removal(EntryV),
    Entry(EntryV),
}

/// An item that there is has every attribute of a key.
pub open spec fn lies_in(i: Option<ItemV>, schema: Seq<(Seq<char>, KeyType)>) -> bool {
    i matches Some(x) && forall|n: int|
        0 <= n < schema.len() ==> x.get((#[trigger] schema[n]).0) is Some
}

/// The changes that the indexes described from position `i` on need: in each
/// the old item's entry goes if it lies there, and after that the new item's
/// comes if it does.
pub open spec fn changes(
    old_item: Option<ItemV>,
    new_item: Option<ItemV>,
    docs: Seq<DocV>,
    i: int,
) -> Seq<Change>
    decreases docs.len() - i,
{
    if i < 0 || i >= docs.len() {
        Seq::empty()
    } else {
        match entry_of(docs[i]) {
            None => changes(old_item, new_item, docs, i + 1),
            Some(e) => (if lies_in(old_item, e.schema) {
                seq![Change::Removal(e)]
            } else {
                Seq::empty()
            }) + (if lies_in(new_item, e.schema) {
                seq![Change::Entry(e)]
            } else {
                Seq::empty()
            }) + changes(old_item, new_item, docs, i + 1),
        }
    }
}

/// A command carries a change out, in the collection of the index: it removes
/// what has the key of the old item, or puts the document of the part of the
/// new item that the index holds under the key of that part.
pub open spec fn carries_out(
    c: CommandV,
    change: Change,
    base: Seq<(Seq<char>, KeyType)>,
    old_item: Option<ItemV>,
    new_item: Option<ItemV>,
) -> bool {
    match change {
        Change::Removal(e) => {
            &&& c matches CommandV::DeleteOne { at, filter }
            &&& at == table_place(e.index_id)
            &&& old_item is Some
            &&& exists|k: ItemKey|
                #![trigger key_filter(old_item->0, k)]
                key_filter(old_item->0, k) == Ok::<DocV, ErrV>(filter)
        },
        Change::Entry(e) => {
            &&& c matches CommandV::Replace { at, filter, document, upsert }
            &&& at == table_place(e.index_id)
            &&& upsert
            &&& new_item is Some
            &&& exists|p: ItemV, k: ItemKey|
                #![trigger item_document(p, k)]
                is_projected(new_item->0, e.schema, base, e.projection, p) && item_document(p, k)
                    == Ok::<DocV, ErrV>(document) && key_filter(p, k) == Ok::<DocV, ErrV>(filter)
        },
    }
}

/// Commands carry changes out one for one, in their order.
pub open spec fn all_carried_out(
    commands: Seq<CommandV>,
    list: Seq<Change>,
    base: Seq<(Seq<char>, KeyType)>,
    old_item: Option<ItemV>,
    new_item: Option<ItemV>,
) -> bool {
    commands.len() == list.len() && forall|i: int|
        0 <= i < commands.len() ==> carries_out(
            #[trigger] commands[i],
            list[i],
            base,
            old_item,
            new_item,
        )
}

/// The synchronisation that a state belongs to.
spec fn sync_of(state: SyncState) -> Sync {
    match state {
        SyncState::Listing(s) => s,
        SyncState::OldKey(s, _) => s,
        SyncState::Deleting(s, _) => s,
        SyncState::NewKey(s, _, _) => s,
        SyncState::Writing(s) => s,
    }
}

spec fn entry_change(s: Sync, e: EntryV) -> Seq<Change> {
    if lies_in(opt_item(s.new), e.schema) {
        seq![Change::Entry(e)]
    } else {
        Seq::empty()
    }
}

spec fn changes_left(s: Sync) -> Seq<Change> {
    changes(opt_item(s.old), opt_item(s.new), doc_seq(s.docs@), s.done as int)
}

/// The changes that the commands from a state on carry out.
spec fn changes_ahead(state: SyncState) -> Seq<Change> {
    match state {
        SyncState::Listing(s) => Seq::empty(),
        SyncState::OldKey(s, e) => seq![Change::Removal(e@)] + entry_change(s, e@) + changes_left(s),
        SyncState::Deleting(s, e) => entry_change(s, e@) + changes_left(s),
        SyncState::NewKey(s, e, _) => seq![Change::Entry(e@)] + changes_left(s),
        SyncState::Writing(s) => changes_left(s),
    }
}

spec fn is_sound(state: SyncState) -> bool {
    match state {
        SyncState::Listing(_) => false,
        SyncState::OldKey(s, _) => s.old is Some,
        SyncState::Deleting(_, _) => true,
        SyncState::NewKey(s, e, p) => s.new is Some && is_projected(
            s.new->0@,
            e@.schema,
            schema_view(s.base@),
            e@.projection,
            p@,
        ),
        SyncState::Writing(_) => true,
    }
}

proof fn lemma_lies_in(i: Option<ItemV>, schema: Seq<(Seq<char>, KeyType)>)
    ensures
        lies_in(i, schema) == opt_has_keys(i, schema),
{
    if let Some(x) = i {
        if has_keys(x, schema) {
            assert forall|n: int| 0 <= n < schema.len() implies x.get((#[trigger] schema[n]).0) is Some by {
                assert(x.has(schema[n].0));
            }
        }
        if lies_in(i, schema) {
            assert forall|n: int| 0 <= n < schema.len() implies x.has((#[trigger] schema[n]).0) by {
                assert(x.get(schema[n].0) is Some);
            }
        }
    }
}

proof fn lemma_changes_of_work(
    old_item: Option<ItemV>,
    new_item: Option<ItemV>,
    docs: Seq<DocV>,
    i: int,
)
    requires
        0 <= i,
    ensures
        match sync_work(old_item, new_item, docs, i) {
            SyncWork::Finished => changes(old_item, new_item, docs, i) == Seq::<Change>::empty(),
            SyncWork::Remove(n, e) => {
                &&& i <= n < docs.len()
                &&& lies_in(old_item, e.schema)
                &&& changes(old_item, new_item, docs, i) == seq![Change::Removal(e)] + (if lies_in(
                    new_item,
                    e.schema,
                ) {
                    seq![Change::Entry(e)]
                } else {
                    Seq::empty()
                }) + changes(old_item, new_item, docs, n + 1)
            },
            SyncWork::Write(n, e) => {
                &&& i <= n < docs.len()
                &&& lies_in(new_item, e.schema)
                &&& changes(old_item, new_item, docs, i) == seq![Change::Entry(e)] + changes(
                    old_item,
                    new_item,
                    docs,
                    n + 1,
                )
            },
        },
    decreases docs.len() - i,
{
    if i < docs.len() {
        match entry_of(docs[i]) {
            None => lemma_changes_of_work(old_item, new_item, docs, i + 1),
            Some(e) => {
                lemma_lies_in(old_item, e.schema);
                lemma_lies_in(new_item, e.schema);
                let rest = changes(old_item, new_item, docs, i + 1);
                if opt_has_keys(old_item, e.schema) {
                } else if opt_has_keys(new_item, e.schema) {
                    assert(Seq::<Change>::empty() + seq![Change::Entry(e)] + rest =~= seq![
                        Change::Entry(e),
                    ] + rest);
                } else {
                    assert(Seq::<Change>::empty() + Seq::<Change>::empty() + rest =~= rest);
                    lemma_changes_of_work(old_item, new_item, docs, i + 1);
                }
            },
        }
    }
}

/// Where a synchronisation proceeds, nothing of what is left is lost.
proof fn lemma_proceeds_with_changes(s: Sync, step: Step<SyncState, Option<bool>>)
    requires
        sync_proceeds(s, step),
    ensures
        command_of(step) is None,
        match step {
            Step::Do(s2, _) => {
                &&& is_sound(s2)
                &&& changes_ahead(s2) == changes_left(s)
                &&& sync_of(s2).base == s.base
                &&& sync_of(s2).old == s.old
                &&& sync_of(s2).new == s.new
                &&& sync_of(s2).docs == s.docs
            },
            Step::Done(_) => changes_left(s) == Seq::<Change>::empty() && step
                == Step::<SyncState, Option<bool>>::Done(Ok(Some(s.docs@.len() > 0))),
        },
{
    lemma_changes_of_work(opt_item(s.old), opt_item(s.new), doc_seq(s.docs@), s.done as int);
    assert(s.docs.len() == s.docs@.len());
}

/// The commands from one position of a run on are those that its state needs.
proof fn lemma_run_carries_out(
    states: Seq<SyncState>,
    events: Seq<Event>,
    steps: Seq<Step<SyncState, Option<bool>>>,
    i: int,
)
    requires
        is_sync_run(states, events, steps),
        0 <= i < steps.len(),
        steps.last() matches Step::Done(Ok(_)),
        is_sound(states[i]),
    ensures
        all_carried_out(
            commands_from(steps, i),
            changes_ahead(states[i]),
            schema_view(sync_of(states[i]).base@),
            opt_item(sync_of(states[i]).old),
            opt_item(sync_of(states[i]).new),
        ),
        steps.last() == Step::<SyncState, Option<bool>>::Done(
            Ok(Some(sync_of(states[i]).docs@.len() > 0)),
        ),
    decreases steps.len() - i,
{
    let state = states[i];
    let step = steps[i];
    assert(sync_goes_on(state, events[i], step));
    if i < steps.len() - 1 {
        assert(step is Do && state_of(step) == states[i + 1]);
    } else {
        assert(step == steps.last());
        assert(commands_from(steps, i + 1) =~= Seq::empty());
    }
    match (state, events[i]) {
        (SyncState::OldKey(s, e), Event::Key(Ok(k))) => {
            lemma_run_carries_out(states, events, steps, i + 1);
            let c = command_of(step)->0;
            assert(key_filter(s.old->0@, k) is Ok);
            assert(carries_out(
                c,
                Change::Removal(e@),
                schema_view(s.base@),
                opt_item(s.old),
                opt_item(s.new),
            ));
            lemma_one_more(
                c,
                commands_from(steps, i + 1),
                Change::Removal(e@),
                entry_change(s, e@) + changes_left(s),
                schema_view(s.base@),
                opt_item(s.old),
                opt_item(s.new),
            );
            assert(changes_ahead(state) =~= seq![Change::Removal(e@)] + (entry_change(s, e@)
                + changes_left(s)));
        },
        (SyncState::Deleting(s, e), Event::Replied(_)) => {
            lemma_lies_in(opt_item(s.new), e@.schema);
            if opt_has_keys(opt_item(s.new), e@.schema) {
                lemma_run_carries_out(states, events, steps, i + 1);
            } else {
                lemma_proceeds_with_changes(s, step);
                assert(Seq::<Change>::empty() + changes_left(s) =~= changes_left(s));
                if i < steps.len() - 1 {
                    lemma_run_carries_out(states, events, steps, i + 1);
                }
            }
        },
        (SyncState::NewKey(s, e, p), Event::Key(Ok(k))) => {
            lemma_run_carries_out(states, events, steps, i + 1);
            let c = command_of(step)->0;
            assert(item_document(p@, k) is Ok);
            assert(carries_out(
                c,
                Change::Entry(e@),
                schema_view(s.base@),
                opt_item(s.old),
                opt_item(s.new),
            ));
            lemma_one_more(
                c,
                commands_from(steps, i + 1),
                Change::Entry(e@),
                changes_left(s),
                schema_view(s.base@),
                opt_item(s.old),
                opt_item(s.new),
            );
        },
        (SyncState::Writing(s), Event::Replied(Reply::Matched(_))) => {
            lemma_proceeds_with_changes(s, step);
            if i < steps.len() - 1 {
                lemma_run_carries_out(states, events, steps, i + 1);
            }
        },
        _ => {},
    }
}

proof fn lemma_one_more(
    c: CommandV,
    commands: Seq<CommandV>,
    change: Change,
    list: Seq<Change>,
    base: Seq<(Seq<char>, KeyType)>,
    old_item: Option<ItemV>,
    new_item: Option<ItemV>,
)
    requires
        carries_out(c, change, base, old_item, new_item),
        all_carried_out(commands, list, base, old_item, new_item),
    ensures
        all_carried_out(seq![c] + commands, seq![change] + list, base, old_item, new_item),
{
    let cs = seq![c] + commands;
    let l = seq![change] + list;
    assert forall|i: int| 0 <= i < cs.len() implies carries_out(
        #[trigger] cs[i],
        l[i],
        base,
        old_item,
        new_item,
    ) by {
        if i > 0 {
            assert(cs[i] == commands[i - 1]);
            assert(l[i] == list[i - 1]);
        }
    }
}

/// A synchronisation that ends well has changed every index that was listed,
/// each once and no other: along the whole of it the old item's entry is
/// removed from each index that the old item lies in, and the new item's is
/// put into each that the new item lies in. The outcome tells whether the
/// table has indexes.
pub proof fn law_sync_reaches_every_index(
    states: Seq<SyncState>,
    events: Seq<Event>,
    steps: Seq<Step<SyncState, Option<bool>>>,
    s: Sync,
    docs: Vec<Document>,
)
    requires
        is_sync_run(states, events, steps),
        states[0] == SyncState::Listing(s),
        events[0] == Event::Replied(Reply::Many(docs)),
        steps.last() matches Step::Done(Ok(_)),
    ensures
        all_carried_out(
            commands_from(steps, 0),
            changes(opt_item(s.old), opt_item(s.new), doc_seq(docs@), 0),
            schema_view(s.base@),
            opt_item(s.old),
            opt_item(s.new),
        ),
        steps.last() == Step::<SyncState, Option<bool>>::Done(Ok(Some(docs@.len() > 0))),
{
    let listed = Sync { docs, done: 0, ..s };
    assert(sync_goes_on(states[0], events[0], steps[0]));
    lemma_proceeds_with_changes(listed, steps[0]);
    if steps.len() > 1 {
        assert(steps[0] is Do && state_of(steps[0]) == states[1]);
        lemma_run_carries_out(states, events, steps, 1);
    } else {
        assert(steps[0] == steps.last());
        assert(commands_from(steps, 1) =~= Seq::empty());
    }
}

/// Every index that the new item lies in is written, and every one that the
/// old item lies in is cleared of it: the changes have one for each.
pub proof fn law_changes_reach_each_index(
    old_item: Option<ItemV>,
    new_item: Option<ItemV>,
    docs: Seq<DocV>,
    from: int,
    i: int,
)
    requires
        0 <= from <= i < docs.len(),
        entry_of(docs[i]) is Some,
    ensures
        lies_in(old_item, entry_of(docs[i])->0.schema) ==> changes(
            old_item,
            new_item,
            docs,
            from,
        ).contains(Change::Removal(entry_of(docs[i])->0)),
        lies_in(new_item, entry_of(docs[i])->0.schema) ==> changes(
            old_item,
            new_item,
            docs,
            from,
        ).contains(Change::Entry(entry_of(docs[i])->0)),
    decreases docs.len() - from,
{
    let all = changes(old_item, new_item, docs, from);
    let rest = changes(old_item, new_item, docs, from + 1);
    if from < i {
        law_changes_reach_each_index(old_item, new_item, docs, from + 1, i);
        let n = all.len() - rest.len();
        assert(all.skip(n) =~= rest);
        assert forall|c: Change| rest.contains(c) implies all.contains(c) by {
            let j = choose|j: int| 0 <= j < rest.len() && rest[j] == c;
            assert(all[n + j] == c);
        }
    } else {
        let e = entry_of(docs[i])->0;
        if lies_in(old_item, e.schema) {
            assert(all[0] == Change::Removal(e));
            if lies_in(new_item, e.schema) {
                assert(all[1] == Change::Entry(e));
            }
        } else if lies_in(new_item, e.schema) {
            assert(all[0] == Change::Entry(e));
        }
    }
}

/// The keys that a synchronisation asks for are those of the item whose entry
/// it is about, by the key of the index.
pub proof fn law_sync_asks_for_its_keys(
    state: SyncState,
    event: Event,
    step: Step<SyncState, Option<bool>>,
)
    requires
        sync_goes_on(state, event, step),
    ensures
        step matches Step::Do(SyncState::OldKey(s, e), a) ==> s.old is Some && a@
            == (ActionV::KeyOf { op: 0, item: s.old->0@, key_schema: e@.schema }),
        step matches Step::Do(SyncState::NewKey(s, e, p), a) ==> a@ == (ActionV::KeyOf {
            op: 0,
            item: p@,
            key_schema: e@.schema,
        }),
        step matches Step::Do(SyncState::Listing(_), _) ==> false,
{
    match (state, event) {
        (SyncState::Listing(s), Event::Replied(Reply::Many(docs))) => {
            lemma_proceeds_with_changes(Sync { docs, done: 0, ..s }, step);
        },
        (SyncState::Deleting(s, _), Event::Replied(_)) => {
            if !(step matches Step::Do(SyncState::NewKey(_, _, _), _)) {
                lemma_proceeds_with_changes(s, step);
            }
        },
        (SyncState::Writing(s), Event::Replied(Reply::Matched(_))) => {
            lemma_proceeds_with_changes(s, step);
        },
        _ => {},
    }
}

/// What a synchronisation does to the collection of an index: the entry of the
/// old item's key is gone, and under the key of the part of the new item that
/// the index holds that part stands; every other entry is as it was.
pub proof fn law_sync_changes_entries(
    before: spec_fn(BsonV, BsonV) -> bool,
    s: Sync,
    e: IndexEntry,
    p: Item,
    k: ItemKey,
    docs: Seq<DocV>,
    x: Option<ItemV>,
    after: Seq<DocV>,
    reply: Reply,
    removal: Step<SyncState, Option<bool>>,
    writing: Step<SyncState, Option<bool>>,
)
    requires
        sync_goes_on(SyncState::OldKey(s, e), Event::Key(Ok(k)), removal),
        sync_goes_on(SyncState::NewKey(s, e, p), Event::Key(Ok(k)), writing),
        s.old is Some,
    ensures
        has_typed_key(s.old->0@, k) && stands_under(
            before,
            docs,
            key_filter(s.old->0@, k)->Ok_0,
            x,
        ) ==> (command_of(removal) matches Some(c) && c is DeleteOne && place_of(c) == Some(
            table_place(e.index_id@),
        ) && (takes_effect(before, c, docs, after, reply) ==> stands_under(
            before,
            after,
            key_filter(s.old->0@, k)->Ok_0,
            None,
        ) && others_kept(before, key_filter(s.old->0@, k)->Ok_0, docs, after))),
        has_typed_key(p@, k) && reads_back(p@, k) && stands_under(
            before,
            docs,
            key_filter(p@, k)->Ok_0,
            x,
        ) ==> (command_of(writing) matches Some(c) && c is Replace && place_of(c) == Some(
            table_place(e.index_id@),
        ) && (takes_effect(before, c, docs, after, reply) ==> stands_under(
            before,
            after,
            key_filter(p@, k)->Ok_0,
            Some(p@),
        ) && others_kept(before, key_filter(p@, k)->Ok_0, docs, after))),
{
    let o = s.old->0@;
    if has_typed_key(o, k) && stands_under(before, docs, key_filter(o, k)->Ok_0, x) {
        lemma_found_by_key(before, o, k);
        let f = key_filter(o, k)->Ok_0;
        if takes_effect(before, command_of(removal)->0, docs, after, reply) {
            let gone = choose|d: Option<DocV>| #[trigger]
                is_removed(before, docs, f, after, d) && reply == Reply::Deleted(one_if(d));
            lemma_removed(before, docs, f, after, gone, x);
        }
    }
    if has_typed_key(p@, k) && reads_back(p@, k) && stands_under(
        before,
        docs,
        key_filter(p@, k)->Ok_0,
        x,
    ) {
        lemma_found_by_key(before, p@, k);
        let f = key_filter(p@, k)->Ok_0;
        let document = item_document(p@, k)->Ok_0;
        if takes_effect(before, command_of(writing)->0, docs, after, reply) {
            let gone = choose|d: Option<DocV>| #[trigger]
                is_replaced(before, docs, f, document, true, after, d) && reply == Reply::Matched(
                    one_if(d),
                );
            lemma_replaced(before, docs, f, document, true, after, gone, x, p@);
        }
    }
}

/// The indexes that a synchronisation lists are those of its table: a
/// description is found just where its identifier names the table.
pub proof fn law_sync_lists_indexes_of_table(
    before: spec_fn(BsonV, BsonV) -> bool,
    table_id: Seq<char>,
    s: Sync,
    known: Option<bool>,
    step: Step<SyncState, Option<bool>>,
    d: DocV,
    id: DocV,
)
    requires
        sync_begins(table_id, s, known, step),
        known != Some(false),
        d.get("_id"@) == Some(BsonV::Doc(id)),
    ensures
        command_of(step) matches Some(CommandV::Find { at, filter, paging }) && at == in_catalog(
            "indexes"@,
        ) && paging == unpaged() && (matches_filter(before, filter, d) <==> (id.get("table_id"@)
            matches Some(v) && equals(Some(v), BsonV::Str(table_id)))),
{
    reveal_strlit("_id.table_id");
    reveal_strlit("_id");
    reveal_strlit("table_id");
    reveal_strlit(".");
    lemma_field("_id.table_id"@);
    lemma_is_part("_id"@);
    lemma_is_part("table_id"@);
    assert("_id.table_id"@ =~= "_id"@ + "."@ + "table_id"@);
    lemma_path_joined(BsonV::Doc(d), "_id"@, "table_id"@);
    lemma_one_part(BsonV::Doc(d), "_id"@);
    lemma_one_part(BsonV::Doc(id), "table_id"@);
    lemma_one_clause(before, "_id.table_id"@, BsonV::Str(table_id), d);
}

} // verus!
