//! Changing a table: its settings, its stream and its global indexes.

use vstd::prelude::*;
use vstd::string::*;

use crate::bson::{doc1, Bson, BsonV, DocV, Document};
use crate::catalog::{
    account_check, find_table, find_table_of, index_filter, index_filter_of, table_filter,
    table_filter_of, validate_account_id,
};
use crate::clock::{label_at, stream_label, Fresh};
use crate::create_table::{add_shards, enter_index_of, is_streaming, shard_lines};
use crate::describe_table::{
    describe_begins, describe_goes_on, describe_table_next, describe_table_start,
    DescribeTableState,
};
use crate::error::{ErrV, StorageError};
use crate::protocol::{
    fail_internal, fail_unexpected, fails, in_catalog, in_data, run, unexpected, Action, ActionV,
    Command, CommandV, Event, Place, Reply, Step,
};
use crate::put_item::is_key_taken;
use crate::schema_json::{
    opt_stream_spec_bson, opt_throughput_bson, stream_spec_to_bson, throughput_to_bson,
    ProvisionedThroughput, StreamSpecification,
};
use crate::script::{no_lines, script_goes_on, script_next, script_start, turns_to, Script, Turn};
use crate::table::{
    billing_name, billing_text, index_document, BillingMode, IndexSpec, IndexType,
    TableDescription,
};
use crate::text::contains_text;

verus! {

/// A change of the global indexes of a table.
#[derive(Debug, PartialEq)]
pub enum IndexChange {
    Create { index_id: String, index: IndexSpec },
    Delete { index_name: String },
}

/// A request to create an index, to delete one, or both, in this order.
#[derive(Debug, PartialEq)]
pub struct IndexUpdate {
    pub create: Option<IndexSpec>,
    pub delete: Option<String>,
}

/// What is to be changed of a table.
#[derive(Debug, PartialEq)]
pub struct UpdateTable {
    pub account_id: String,
    pub table_name: String,
    pub billing_mode: Option<BillingMode>,
    pub throughput: Option<ProvisionedThroughput>,
    pub deletion_protection: Option<bool>,
    pub stream_specification: Option<StreamSpecification>,
    pub index_changes: Vec<IndexChange>,
}

/// A change that is not complete.
#[derive(Debug, PartialEq)]
pub struct Pending {
    pub account_id: String,
    pub table_name: String,
    /// The settings that are to be changed.
    pub set: Document,
    pub index_changes: Vec<IndexChange>,
    /// How many changes of indexes were made.
    pub made: usize,
}

/// The model of a change that is not complete.
#[verifier::ext_equal]
pub struct PendingV {
    pub account_id: Seq<char>,
    pub table_name: Seq<char>,
    pub set: DocV,
    pub index_changes: Seq<IndexChange>,
    pub made: usize,
}

impl View for Pending {
    type V = PendingV;

    open spec fn view(&self) -> PendingV {
        PendingV {
            account_id: self.account_id@,
            table_name: self.table_name@,
            set: self.set@,
            index_changes: self.index_changes@,
            made: self.made,
        }
    }
}

/// Where the change of a table stands.
#[derive(Debug, PartialEq)]
pub enum UpdateTableState {
    /// The table whose stream is enabled is being looked up.
    FindingTable { pending: Pending, label: String, now: i64 },
    /// The shards that the table has already are being counted.
    CountingShards { pending: Pending, table_id: String, now: i64 },
    /// The shards are being created.
    Sharding { pending: Pending, script: Script },
    /// The settings are being changed.
    Setting(Pending),
    Describing { pending: Pending, inner: DescribeTableState },
    /// An index is being entered in the catalog.
    Entering { pending: Pending, table_id: String, index_name: String },
    /// An index is being removed from the catalog.
    Removing { pending: Pending, table_id: String, index_name: String },
    /// What is known of the indexes is being noted.
    Noting(Pending),
}

// --- The changes of indexes ----------------------------------------------------------

/// The change `c` creates what `u` asks for, under the identifier `id`.
pub open spec fn creates(c: IndexChange, u: IndexUpdate, id: String) -> bool {
    c matches IndexChange::Create { index_id, index } && index_id == id && u.create == Some(index)
}

/// The change `c` deletes what `u` asks for.
pub open spec fn deletes(c: IndexChange, u: IndexUpdate) -> bool {
    c matches IndexChange::Delete { index_name } && u.delete == Some(index_name)
}

/// How many changes the first `n` requests make.
pub open spec fn changes_before(u: Seq<IndexUpdate>, n: nat) -> nat
    decreases n,
{
    if n == 0 {
        0
    } else {
        let last = u[n - 1];
        changes_before(u, (n - 1) as nat) + (if last.create is Some {
            1nat
        } else {
            0nat
        }) + (if last.delete is Some {
            1nat
        } else {
            0nat
        })
    }
}

/// The changes are those of the first `n` requests, in order: of each, the
/// creation comes first.
pub open spec fn are_changes(
    changes: Seq<IndexChange>,
    u: Seq<IndexUpdate>,
    ids: Seq<String>,
    n: nat,
) -> bool {
    &&& changes.len() == changes_before(u, n)
    &&& forall|k: int|
        0 <= k < n ==> {
            let i = changes_before(u, k as nat) as int;
            &&& (#[trigger] u[k]).create is Some ==> i < changes.len() && creates(
                changes[i],
                u[k],
                ids[k],
            )
            &&& u[k].delete is Some ==> {
                let j = i + (if u[k].create is Some {
                    1int
                } else {
                    0int
                });
                j < changes.len() && deletes(changes[j], u[k])
            }
        }
}

/// Lists the changes of indexes that requests ask for; `ids` are new
/// identifiers, one for each request.
pub fn plan_changes(updates: Vec<IndexUpdate>, ids: Vec<String>) -> (r: Vec<IndexChange>)
    requires
        ids@.len() == updates@.len(),
    ensures
        are_changes(r@, updates@, ids@, updates@.len()),
{
    let ghost u = updates@;
    let ghost all_ids = ids@;
    let mut updates = updates;
    let mut ids = ids;
    let mut out: Vec<IndexChange> = Vec::new();
    let ghost mut k: nat = 0;
    while updates.len() > 0
        invariant
            k <= u.len() == all_ids.len(),
            updates@ == u.skip(k as int),
            ids@ == all_ids.skip(k as int),
            are_changes(out@, u, all_ids, k),
        decreases updates.len(),
    {
        let ghost before = out@;
        assert(updates@[0] == u[k as int]);
        assert(ids@[0] == all_ids[k as int]);
        let next = updates.remove(0);
        let index_id = ids.remove(0);
        assert(updates@ =~= u.skip(k as int + 1));
        assert(ids@ =~= all_ids.skip(k as int + 1));
        let ghost id = index_id;
        let ghost req = next;
        if let Some(index) = next.create {
            out.push(IndexChange::Create { index_id, index });
        }
        if let Some(index_name) = next.delete {
            out.push(IndexChange::Delete { index_name });
        }
        proof {
            assert(changes_before(u, k + 1) == out@.len());
            assert forall|x: int| 0 <= x < k + 1 implies {
                let i = changes_before(u, x as nat) as int;
                &&& (#[trigger] u[x]).create is Some ==> i < out@.len() && creates(
                    out@[i],
                    u[x],
                    all_ids[x],
                )
                &&& u[x].delete is Some ==> {
                    let j = i + (if u[x].create is Some {
                        1int
                    } else {
                        0int
                    });
                    j < out@.len() && deletes(out@[j], u[x])
                }
            } by {
                if x < k {
                    assert(u[x] == u[x]);
                }
            }
            k = k + 1;
        }
    }
    out
}

// --- The settings --------------------------------------------------------------------

/// The settings that a request changes, without the label of a stream.
pub open spec fn settings_of(q: UpdateTable) -> DocV {
    let d = DocV::empty();
    let d = match q.billing_mode {
        Some(b) => d.with("billing_mode"@, BsonV::Str(billing_text(b))),
        None => d,
    };
    let d = match q.throughput {
        Some(t) => d.with("provisioned_throughput"@, opt_throughput_bson(Some(t))),
        None => d,
    };
    let d = match q.deletion_protection {
        Some(b) => d.with("deletion_protection_enabled"@, BsonV::Boolean(b)),
        None => d,
    };
    match q.stream_specification {
        Some(s) => d.with("stream_specification"@, opt_stream_spec_bson(Some(s))),
        None => d,
    }
}

/// The change that a request asks for.
pub open spec fn pending_of(q: UpdateTable) -> PendingV {
    PendingV {
        account_id: q.account_id@,
        table_name: q.table_name@,
        set: settings_of(q),
        index_changes: q.index_changes@,
        made: 0,
    }
}

fn build_settings(q: &UpdateTable) -> (r: Document)
    ensures
        r@ == settings_of(*q),
{
    let mut d = Document::new();
    if let Some(b) = q.billing_mode {
        d.insert("billing_mode", Bson::text(billing_name(b)));
    }
    if q.throughput.is_some() {
        d.insert("provisioned_throughput", throughput_to_bson(&q.throughput));
    }
    if let Some(b) = q.deletion_protection {
        d.insert("deletion_protection_enabled", Bson::Boolean(b));
    }
    if q.stream_specification.is_some() {
        d.insert("stream_specification", stream_spec_to_bson(&q.stream_specification));
    }
    d
}

// --- The steps -----------------------------------------------------------------------

/// The change takes the step of the description of its table. Once the table
/// is known, the next change of an index is made; without one, the table is
/// handed out.
pub open spec fn update_follows(
    p: PendingV,
    inner: Step<DescribeTableState, TableDescription>,
    step: Step<UpdateTableState, TableDescription>,
) -> bool {
    match inner {
        Step::Do(s, a) => {
            &&& step matches Step::Do(UpdateTableState::Describing { pending, inner: i }, x)
            &&& pending@ == p
            &&& i == s
            &&& x == a
        },
        Step::Done(Err(e)) => fails(step, e@),
        Step::Done(Ok(table)) => if p.made >= p.index_changes.len() {
            step == Step::<UpdateTableState, TableDescription>::Done(Ok(table))
        } else {
            let rest = PendingV { made: (p.made + 1) as usize, ..p };
            match p.index_changes[p.made as int] {
                IndexChange::Create { index_id, index } => {
                    &&& step matches Step::Do(
                        UpdateTableState::Entering { pending, table_id, index_name },
                        a,
                    )
                    &&& pending@ == rest
                    &&& table_id@ == table.table_id@
                    &&& index_name@ == index.index_name@
                    &&& a@ == ActionV::Run(
                        enter_index_of(table.table_id@, IndexType::Gsi, index_id@, index),
                    )
                },
                IndexChange::Delete { index_name: n } => {
                    &&& step matches Step::Do(
                        UpdateTableState::Removing { pending, table_id, index_name },
                        a,
                    )
                    &&& pending@ == rest
                    &&& table_id@ == table.table_id@
                    &&& index_name@ == n@
                    &&& a@ == ActionV::Run(
                        CommandV::DeleteOne {
                            at: in_catalog("indexes"@),
                            filter: index_filter_of(table.table_id@, n@),
                        },
                    )
                },
            }
        },
    }
}

/// The table is described anew.
pub open spec fn update_describes(p: PendingV, step: Step<UpdateTableState, TableDescription>) -> bool {
    exists|inner: Step<DescribeTableState, TableDescription>|
        describe_begins(p.account_id, p.table_name, inner) && #[trigger] update_follows(
            p,
            inner,
            step,
        )
}

/// The settings are changed, where there are any.
pub open spec fn update_sets(p: PendingV, step: Step<UpdateTableState, TableDescription>) -> bool {
    if p.set.entries.len() == 0 {
        update_describes(p, step)
    } else {
        &&& step matches Step::Do(UpdateTableState::Setting(pending), a)
        &&& pending@ == p
        &&& a@ == ActionV::Run(
            CommandV::Update {
                at: in_catalog("tables"@),
                filter: table_filter_of(p.account_id, p.table_name),
                update: doc1("$set"@, BsonV::Doc(p.set)),
                upsert: false,
            },
        )
    }
}

/// The change takes the turn of the script that creates the shards.
pub open spec fn update_turns(
    p: PendingV,
    turn: Turn,
    step: Step<UpdateTableState, TableDescription>,
) -> bool {
    match turn {
        Turn::Perform(s, c) => {
            &&& step matches Step::Do(UpdateTableState::Sharding { pending, script }, a)
            &&& pending@ == p
            &&& script == s
            &&& a@ == ActionV::Run(c@)
        },
        Turn::Finished => update_sets(p, step),
        Turn::Refused(e) => fails(step, ErrV::Internal(e.message@)),
    }
}

/// The command that counts the shards of a table.
pub open spec fn count_shards_of(table_id: Seq<char>) -> CommandV {
    CommandV::Count {
        at: in_data("stream_shards"@),
        filter: doc1("table_id"@, BsonV::Str(table_id)),
    }
}

/// The change with the label of the stream among its settings.
pub open spec fn labelled(p: PendingV, label: Seq<char>) -> PendingV {
    PendingV { set: p.set.with("stream_label"@, BsonV::Str(label)), ..p }
}

/// What is known of the indexes of a table is noted.
pub open spec fn update_notes(
    p: PendingV,
    table_id: Seq<char>,
    has_indexes: Option<bool>,
    step: Step<UpdateTableState, TableDescription>,
) -> bool {
    &&& step matches Step::Do(UpdateTableState::Noting(pending), a)
    &&& pending@ == p
    &&& a@ == (ActionV::Remember { table_id, has_indexes })
}

/// How the change of a table begins.
pub open spec fn update_begins(
    q: UpdateTable,
    f: Fresh,
    step: Step<UpdateTableState, TableDescription>,
) -> bool {
    match account_check(q.account_id@) {
        Err(e) => fails(step, e),
        Ok(_) => if is_streaming(q.stream_specification) {
            &&& step matches Step::Do(UpdateTableState::FindingTable { pending, label, now }, a)
            &&& pending@ == pending_of(q)
            &&& label@ == label_at(f.now_nanos)
            &&& now == f.now_millis
            &&& a@ == ActionV::Run(find_table_of(q.account_id@, q.table_name@))
        } else {
            update_sets(pending_of(q), step)
        },
    }
}

/// How the change of a table goes on with an event.
pub open spec fn update_goes_on(
    state: UpdateTableState,
    event: Event,
    step: Step<UpdateTableState, TableDescription>,
) -> bool {
    match (state, event) {
        (UpdateTableState::Describing { pending, inner }, _) => exists|
            s: Step<DescribeTableState, TableDescription>,
        |
            describe_goes_on(inner, event, s) && #[trigger] update_follows(pending@, s, step),
        (
            UpdateTableState::Entering { index_name, .. },
            Event::Replied(Reply::Failed(e)),
        ) => if is_key_taken(e.message@) {
            fails(step, ErrV::IndexAlreadyExists(index_name@))
        } else {
            fails(step, ErrV::Internal(e.message@))
        },
        (_, Event::Replied(Reply::Failed(e))) => fails(step, ErrV::Internal(e.message@)),
        (
            UpdateTableState::FindingTable { pending, .. },
            Event::Replied(Reply::One(None)),
        ) => fails(step, ErrV::TableNotFound(pending.table_name@)),
        (
            UpdateTableState::FindingTable { pending, label, now },
            Event::Replied(Reply::One(Some(d))),
        ) => match d@.get_str("table_id"@) {
            None => fails(step, ErrV::Internal("missing table_id"@)),
            Some(id) => {
                &&& step matches Step::Do(
                    UpdateTableState::CountingShards { pending: p, table_id, now: n },
                    a,
                )
                &&& p@ == labelled(pending@, label@)
                &&& table_id@ == id
                &&& n == now
                &&& a@ == ActionV::Run(count_shards_of(id))
            },
        },
        (
            UpdateTableState::CountingShards { pending, table_id, now },
            Event::Replied(Reply::Counted(n)),
        ) => if n > 0 {
            update_sets(pending@, step)
        } else {
            exists|turn: Turn|
                turns_to(shard_lines(pending.table_name@, table_id@, now), turn)
                    && #[trigger] update_turns(pending@, turn, step)
        },
        (UpdateTableState::Sharding { pending, script }, Event::Replied(r)) => exists|turn: Turn|
            script_goes_on(script, r, turn) && #[trigger] update_turns(pending@, turn, step),
        (UpdateTableState::Setting(pending), Event::Replied(_)) => update_describes(
            pending@,
            step,
        ),
        (
            UpdateTableState::Entering { pending, table_id, .. },
            Event::Replied(_),
        ) => update_notes(pending@, table_id@, Some(true), step),
        (
            UpdateTableState::Removing { pending, table_id, index_name },
            Event::Replied(Reply::Deleted(n)),
        ) => if n == 0 {
            fails(step, ErrV::IndexNotFound(index_name@))
        } else {
            update_notes(pending@, table_id@, None, step)
        },
        (UpdateTableState::Noting(pending), Event::Remembered) => update_describes(
            pending@,
            step,
        ),
        _ => fails(step, unexpected()),
    }
}

// --- The operation -------------------------------------------------------------------

fn follow(p: Pending, inner: Step<DescribeTableState, TableDescription>) -> (step: Step<
    UpdateTableState,
    TableDescription,
>)
    ensures
        update_follows(p@, inner, step),
{
    match inner {
        Step::Do(s, a) => Step::Do(UpdateTableState::Describing { pending: p, inner: s }, a),
        Step::Done(Err(e)) => Step::Done(Err(e)),
        Step::Done(Ok(table)) => {
            if p.made >= p.index_changes.len() {
                return Step::Done(Ok(table));
            }
            let mut p = p;
            let k: usize = p.made;
            p.made = k + 1;
            match &p.index_changes[k] {
                IndexChange::Create { index_id, index } => {
                    let index_name = index.index_name.clone();
                    let command = Command::Insert {
                        at: Place::catalog("indexes"),
                        document: index_document(
                            table.table_id.as_str(),
                            IndexType::Gsi,
                            index_id.as_str(),
                            index,
                        ),
                    };
                    run(
                        UpdateTableState::Entering {
                            pending: p,
                            table_id: table.table_id,
                            index_name,
                        },
                        command,
                    )
                },
                IndexChange::Delete { index_name } => {
                    let index_name = index_name.clone();
                    let command = Command::DeleteOne {
                        at: Place::catalog("indexes"),
                        filter: index_filter(table.table_id.as_str(), index_name.as_str()),
                    };
                    run(
                        UpdateTableState::Removing {
                            pending: p,
                            table_id: table.table_id,
                            index_name,
                        },
                        command,
                    )
                },
            }
        },
    }
}

fn describe_anew(p: Pending) -> (step: Step<UpdateTableState, TableDescription>)
    ensures
        update_describes(p@, step),
{
    let inner = describe_table_start(p.account_id.as_str(), p.table_name.as_str());
    follow(p, inner)
}

fn change_settings(p: Pending) -> (step: Step<UpdateTableState, TableDescription>)
    ensures
        update_sets(p@, step),
{
    if p.set.is_empty() {
        return describe_anew(p);
    }
    let filter = table_filter(p.account_id.as_str(), p.table_name.as_str());
    let update = Document::new().with("$set", Bson::Document(crate::bson::copy_doc(&p.set)));
    run(
        UpdateTableState::Setting(p),
        Command::Update { at: Place::catalog("tables"), filter, update, upsert: false },
    )
}

fn take_turn(p: Pending, turn: Turn) -> (step: Step<UpdateTableState, TableDescription>)
    ensures
        update_turns(p@, turn, step),
{
    match turn {
        Turn::Perform(script, c) => run(UpdateTableState::Sharding { pending: p, script }, c),
        Turn::Finished => change_settings(p),
        Turn::Refused(e) => Step::Done(Err(StorageError::Internal(e.message))),
    }
}

/// Begins the change of a table.
pub fn update_table_start(q: UpdateTable, f: &Fresh) -> (step: Step<
    UpdateTableState,
    TableDescription,
>)
    ensures
        update_begins(q, *f, step),
{
    if let Err(e) = validate_account_id(q.account_id.as_str()) {
        return Step::Done(Err(e));
    }
    let set = build_settings(&q);
    let streaming = match &q.stream_specification {
        Some(s) => s.stream_enabled,
        None => false,
    };
    let pending = Pending {
        account_id: q.account_id,
        table_name: q.table_name,
        set,
        index_changes: q.index_changes,
        made: 0,
    };
    if streaming {
        let command = find_table(pending.account_id.as_str(), pending.table_name.as_str());
        return run(
            UpdateTableState::FindingTable {
                pending,
                label: stream_label(f.now_nanos),
                now: f.now_millis,
            },
            command,
        );
    }
    change_settings(pending)
}

/// Goes on with the change of a table.
pub fn update_table_next(state: UpdateTableState, event: Event) -> (step: Step<
    UpdateTableState,
    TableDescription,
>)
    ensures
        update_goes_on(state, event, step),
{
    match (state, event) {
        (UpdateTableState::Describing { pending, inner }, event) => {
            let s = describe_table_next(inner, event);
            follow(pending, s)
        },
        (
            UpdateTableState::Entering { index_name, .. },
            Event::Replied(Reply::Failed(e)),
        ) => if contains_text(e.message.as_str(), "E11000") {
            Step::Done(Err(StorageError::IndexAlreadyExists(index_name)))
        } else {
            Step::Done(Err(StorageError::Internal(e.message)))
        },
        (_, Event::Replied(Reply::Failed(e))) => Step::Done(
            Err(StorageError::Internal(e.message)),
        ),
        (
            UpdateTableState::FindingTable { pending, .. },
            Event::Replied(Reply::One(None)),
        ) => Step::Done(Err(StorageError::TableNotFound(pending.table_name))),
        (
            UpdateTableState::FindingTable { pending, label, now },
            Event::Replied(Reply::One(Some(d))),
        ) => match d.get_str("table_id") {
            None => fail_internal("missing table_id"),
            Some(id) => {
                let table_id = id.to_owned();
                let ghost target = labelled(pending@, label@);
                let mut pending = pending;
                pending.set.insert("stream_label", Bson::String(label));
                assert(pending@ == target);
                let filter = Document::new().with("table_id", Bson::text(table_id.as_str()));
                run(
                    UpdateTableState::CountingShards { pending, table_id, now },
                    Command::Count { at: Place::data("stream_shards"), filter },
                )
            },
        },
        (
            UpdateTableState::CountingShards { pending, table_id, now },
            Event::Replied(Reply::Counted(n)),
        ) => {
            if n > 0 {
                return change_settings(pending);
            }
            let mut lines = no_lines();
            add_shards(&mut lines, pending.table_name.as_str(), table_id.as_str(), now);
            let ghost shards = shard_lines(pending.table_name@, table_id@, now);
            assert(Seq::<(CommandV, bool)>::empty() + shards =~= shards);
            let turn = script_start(lines);
            take_turn(pending, turn)
        },
        (UpdateTableState::Sharding { pending, script }, Event::Replied(r)) => {
            let turn = script_next(script, r);
            take_turn(pending, turn)
        },
        (UpdateTableState::Setting(pending), Event::Replied(_)) => describe_anew(pending),
        (UpdateTableState::Entering { pending, table_id, .. }, Event::Replied(_)) => Step::Do(
            UpdateTableState::Noting(pending),
            Action::Remember { table_id, has_indexes: Some(true) },
        ),
        (
            UpdateTableState::Removing { pending, table_id, index_name },
            Event::Replied(Reply::Deleted(n)),
        ) => if n == 0 {
            Step::Done(Err(StorageError::IndexNotFound(index_name)))
        } else {
            Step::Do(
                UpdateTableState::Noting(pending),
                Action::Remember { table_id, has_indexes: None },
            )
        },
        (UpdateTableState::Noting(pending), Event::Remembered) => describe_anew(pending),
        _ => fail_unexpected(),
    }
}

// --- Laws ----------------------------------------------------------------------------

/// A table that has shards gets no more: its settings are changed next.
pub proof fn law_shards_are_created_once(
    pending: Pending,
    table_id: String,
    now: i64,
    n: u64,
    step: Step<UpdateTableState, TableDescription>,
)
    requires
        n > 0,
        update_goes_on(
            UpdateTableState::CountingShards { pending, table_id, now },
            Event::Replied(Reply::Counted(n)),
            step,
        ),
    ensures
        update_sets(pending@, step),
        step matches Step::Do(_, a) ==> !(a@ matches ActionV::Run(CommandV::Insert { .. })),
{
    if pending@.set.entries.len() == 0 {
        let inner = choose|inner: Step<DescribeTableState, TableDescription>|
            describe_begins(pending@.account_id, pending@.table_name, inner)
                && #[trigger] update_follows(pending@, inner, step);
    }
}

} // verus!
