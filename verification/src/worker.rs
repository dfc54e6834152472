//! Completing tables whose creation or deletion was interrupted.

use vstd::prelude::*;
use vstd::string::*;

use crate::bson::{doc1, doc_seq, obj1, Bson, BsonV, DocV, Document};
use crate::catalog::{indexes_filter, indexes_filter_of, table_filter, table_filter_of};
use crate::data::{collection_name, data_collection_name};
use crate::error::{ErrV, StorageError};
use crate::protocol::{
    fail_unexpected, fails, in_catalog, in_data, run, runs, unexpected, unpaged, ActionV, Command,
    CommandV, Event, Paging, Place, Reply, Step,
};
use crate::script::{
    add_line, line_seq, may, must, no_lines, script_goes_on, script_next, script_start, turns_to,
    Line, Script, Turn,
};
use crate::stream::{collect_texts, texts_under};
use crate::tags::{tags_filter, tags_filter_of};
use crate::ttl::{extract_id_fields, id_part};

verus! {

/// What became of a table.
#[derive(Debug, Clone, Copy, PartialEq, Eq, Structural)]
pub enum Outcome {
    Activated,
    Deleted,
}

/// The words for what became of a table.
pub fn outcome_text(o: Outcome) -> (r: &'static str)
    ensures
        r@ == (match o {
            Outcome::Activated => "CREATING → active"@,
            Outcome::Deleted => "DELETING → deleted"@,
        }),
{
    match o {
        Outcome::Activated => "CREATING → active",
        Outcome::Deleted => "DELETING → deleted",
    }
}

/// A table and what became of it.
#[derive(Debug, PartialEq)]
pub struct Transition {
    pub table_name: String,
    pub outcome: Outcome,
}

/// The models of a list of transitions.
pub open spec fn transition_seq(v: Seq<Transition>) -> Seq<(Seq<char>, Outcome)> {
    Seq::new(v.len(), |i: int| (v[i].table_name@, v[i].outcome))
}

/// A table that is to be deleted.
#[derive(Debug, PartialEq)]
pub struct Stuck {
    pub account_id: String,
    pub table_name: String,
    pub table_id: String,
    pub table_arn: String,
}

/// The model of a table that is to be deleted.
#[verifier::ext_equal]
pub struct StuckV {
    pub account_id: Seq<char>,
    pub table_name: Seq<char>,
    pub table_id: Seq<char>,
    pub table_arn: Seq<char>,
}

impl View for Stuck {
    type V = StuckV;

    open spec fn view(&self) -> StuckV {
        StuckV {
            account_id: self.account_id@,
            table_name: self.table_name@,
            table_id: self.table_id@,
            table_arn: self.table_arn@,
        }
    }
}

/// The models of a list of tables.
pub open spec fn stuck_seq(v: Seq<Stuck>) -> Seq<StuckV> {
    Seq::new(v.len(), |i: int| v[i]@)
}

/// The table that a document describes.
pub open spec fn stuck_of(d: DocV) -> StuckV {
    StuckV {
        account_id: id_part(d, "account_id"@),
        table_name: id_part(d, "table_name"@),
        table_id: d.str_or("table_id"@, ""@),
        table_arn: d.str_or("table_arn"@, ""@),
    }
}

/// The tables that documents describe.
pub open spec fn stuck_tables(docs: Seq<DocV>) -> Seq<StuckV> {
    Seq::new(docs.len(), |i: int| stuck_of(docs[i]))
}

/// The command that lists tables that are overdue in a status.
pub open spec fn overdue_of(status: Seq<char>, now: i64) -> CommandV {
    CommandV::Find {
        at: in_catalog("tables"@),
        filter: doc1("table_status"@, BsonV::Str(status)).with(
            "status_transition_at"@,
            obj1("$lte"@, BsonV::DateTime(now)),
        ),
        paging: unpaged(),
    }
}

/// The command that activates a table, unless its status has changed.
pub open spec fn activate_of(account_id: Seq<char>, table_name: Seq<char>) -> CommandV {
    CommandV::Update {
        at: in_catalog("tables"@),
        filter: table_filter_of(account_id, table_name).with(
            "table_status"@,
            BsonV::Str("CREATING"@),
        ),
        update: doc1("$set"@, obj1("table_status"@, BsonV::Str("ACTIVE"@))).with(
            "$unset"@,
            obj1("status_transition_at"@, BsonV::Str(""@)),
        ),
        upsert: false,
    }
}

/// The commands that activate tables, all of which have to succeed.
pub open spec fn activate_lines(tables: Seq<StuckV>) -> Seq<(CommandV, bool)> {
    Seq::new(
        tables.len(),
        |i: int| (activate_of(tables[i].account_id, tables[i].table_name), true),
    )
}

/// What became of tables, all alike.
pub open spec fn all_became(tables: Seq<StuckV>, outcome: Outcome) -> Seq<(Seq<char>, Outcome)> {
    Seq::new(tables.len(), |i: int| (tables[i].table_name, outcome))
}

/// The commands that remove what is left of a table: the collections of its
/// indexes, as far as there are any, and then its entries in the catalog.
pub open spec fn removal_lines(t: StuckV, index_ids: Seq<Seq<char>>) -> Seq<(CommandV, bool)> {
    Seq::new(
        index_ids.len(),
        |i: int|
            (CommandV::DropCollection { at: in_data(collection_name(index_ids[i])) }, false),
    ) + seq![
        (
            CommandV::DeleteMany {
                at: in_catalog("indexes"@),
                filter: indexes_filter_of(t.table_id),
            },
            true,
        ),
        (
            CommandV::DeleteMany {
                at: in_catalog("tags"@),
                filter: tags_filter_of(t.table_arn),
            },
            true,
        ),
        (
            CommandV::DeleteOne {
                at: in_catalog("tables"@),
                filter: table_filter_of(t.account_id, t.table_name),
            },
            true,
        ),
    ]
}

/// Tables that are being deleted one by one.
#[derive(Debug, PartialEq)]
pub struct Sweep {
    pub tables: Vec<Stuck>,
    /// The table that is being deleted.
    pub at: usize,
    /// What became of tables so far.
    pub done: Vec<Transition>,
}

/// The model of tables that are being deleted.
#[verifier::ext_equal]
pub struct SweepV {
    pub tables: Seq<StuckV>,
    pub at: usize,
    pub done: Seq<(Seq<char>, Outcome)>,
}

impl View for Sweep {
    type V = SweepV;

    open spec fn view(&self) -> SweepV {
        SweepV {
            tables: stuck_seq(self.tables@),
            at: self.at,
            done: transition_seq(self.done@),
        }
    }
}

/// Where the completion of tables stands.
#[derive(Debug, PartialEq)]
pub enum WorkerState {
    ListingCreating { now: i64 },
    Activating { now: i64, script: Script, done: Vec<Transition> },
    ListingDeleting { done: Vec<Transition> },
    DroppingData(Sweep),
    ListingIndexes(Sweep),
    Removing { sweep: Sweep, script: Script },
}

/// The sweep goes on with its current table; where there is none, all is
/// done.
pub open spec fn sweep_leads(w: SweepV, step: Step<WorkerState, Vec<Transition>>) -> bool {
    if w.at < w.tables.len() {
        &&& step matches Step::Do(WorkerState::DroppingData(s), a)
        &&& s@ == w
        &&& a@ == ActionV::Run(
            CommandV::DropCollection {
                at: in_data(collection_name(w.tables[w.at as int].table_id)),
            },
        )
    } else {
        step matches Step::Done(Ok(v)) && transition_seq(v@) == w.done
    }
}

/// The sweep after its current table was deleted.
pub open spec fn sweep_after(w: SweepV) -> SweepV {
    SweepV {
        tables: w.tables,
        at: (w.at + 1) as usize,
        done: w.done.push((w.tables[w.at as int].table_name, Outcome::Deleted)),
    }
}

/// The completion takes the turn of the script that activates tables.
pub open spec fn activation_turns(
    now: i64,
    done: Seq<(Seq<char>, Outcome)>,
    turn: Turn,
    step: Step<WorkerState, Vec<Transition>>,
) -> bool {
    match turn {
        Turn::Perform(s, c) => {
            &&& step matches Step::Do(WorkerState::Activating { now: n, script, done: d }, a)
            &&& n == now
            &&& script == s
            &&& transition_seq(d@) == done
            &&& a@ == ActionV::Run(c@)
        },
        Turn::Finished => {
            &&& step matches Step::Do(WorkerState::ListingDeleting { done: d }, a)
            &&& transition_seq(d@) == done
            &&& a@ == ActionV::Run(overdue_of("DELETING"@, now))
        },
        Turn::Refused(e) => fails(step, ErrV::Internal(e.message@)),
    }
}

/// The completion takes the turn of the script that removes a table.
pub open spec fn removal_turns(
    w: SweepV,
    turn: Turn,
    step: Step<WorkerState, Vec<Transition>>,
) -> bool {
    match turn {
        Turn::Perform(s, c) => {
            &&& step matches Step::Do(WorkerState::Removing { sweep, script }, a)
            &&& sweep@ == w
            &&& script == s
            &&& a@ == ActionV::Run(c@)
        },
        Turn::Finished => sweep_leads(sweep_after(w), step),
        Turn::Refused(e) => fails(step, ErrV::Internal(e.message@)),
    }
}

/// How the completion of tables goes on with an event. That the collection of
/// a table cannot be dropped is passed over.
pub open spec fn worker_goes_on(
    state: WorkerState,
    event: Event,
    step: Step<WorkerState, Vec<Transition>>,
) -> bool {
    match (state, event) {
        (WorkerState::Activating { now, script, done }, Event::Replied(r)) => exists|turn: Turn|
            script_goes_on(script, r, turn) && #[trigger] activation_turns(
                now,
                transition_seq(done@),
                turn,
                step,
            ),
        (WorkerState::Removing { sweep, script }, Event::Replied(r)) => exists|turn: Turn|
            script_goes_on(script, r, turn) && #[trigger] removal_turns(sweep@, turn, step),
        (WorkerState::DroppingData(w), Event::Replied(_)) => {
            &&& step matches Step::Do(s, a)
            &&& s == WorkerState::ListingIndexes(w)
            &&& a@ == ActionV::Run(
                CommandV::Find {
                    at: in_catalog("indexes"@),
                    filter: indexes_filter_of(w.tables@[w.at as int].table_id@),
                    paging: unpaged(),
                },
            )
        },
        (_, Event::Replied(Reply::Failed(e))) => fails(step, ErrV::Internal(e.message@)),
        (WorkerState::ListingCreating { now }, Event::Replied(Reply::Many(docs))) => {
            let tables = stuck_tables(doc_seq(docs@));
            exists|turn: Turn|
                turns_to(activate_lines(tables), turn) && #[trigger] activation_turns(
                    now,
                    all_became(tables, Outcome::Activated),
                    turn,
                    step,
                )
        },
        (WorkerState::ListingDeleting { done }, Event::Replied(Reply::Many(docs))) => sweep_leads(
            SweepV {
                tables: stuck_tables(doc_seq(docs@)),
                at: 0,
                done: transition_seq(done@),
            },
            step,
        ),
        (WorkerState::ListingIndexes(w), Event::Replied(Reply::Many(docs))) => exists|turn: Turn|
            turns_to(
                removal_lines(w.tables@[w.at as int]@, texts_under(doc_seq(docs@), "index_id"@)),
                turn,
            ) && #[trigger] removal_turns(w@, turn, step),
        _ => fails(step, unexpected()),
    }
}

/// A sweep that stands at one of its tables.
pub open spec fn is_under_way(state: WorkerState) -> bool {
    match state {
        WorkerState::DroppingData(w) => w.at < w.tables@.len(),
        WorkerState::ListingIndexes(w) => w.at < w.tables@.len(),
        WorkerState::Removing { sweep, .. } => sweep.at < sweep.tables@.len(),
        _ => true,
    }
}

fn read_stuck(docs: &Vec<Document>) -> (r: Vec<Stuck>)
    ensures
        stuck_seq(r@) == stuck_tables(doc_seq(docs@)),
{
    let mut out: Vec<Stuck> = Vec::new();
    let mut i: usize = 0;
    while i < docs.len()
        invariant
            i <= docs.len(),
            out@.len() == i,
            forall|j: int| 0 <= j < i ==> (#[trigger] out@[j])@ == stuck_of(docs@[j]@),
        decreases docs.len() - i,
    {
        let (account_id, table_name) = extract_id_fields(&docs[i]);
        out.push(
            Stuck {
                account_id,
                table_name,
                table_id: docs[i].str_or("table_id", ""),
                table_arn: docs[i].str_or("table_arn", ""),
            },
        );
        i += 1;
    }
    assert(stuck_seq(out@) =~= stuck_tables(doc_seq(docs@)));
    out
}

fn overdue(status: &str, now: i64) -> (r: Command)
    ensures
        r@ == overdue_of(status@, now),
{
    Command::Find {
        at: Place::catalog("tables"),
        filter: Document::new().with("table_status", Bson::text(status)).with(
            "status_transition_at",
            Bson::obj1("$lte", Bson::DateTime(now)),
        ),
        paging: Paging::none(),
    }
}

fn build_activation(tables: &Vec<Stuck>) -> (r: (Vec<Line>, Vec<Transition>))
    ensures
        line_seq(r.0@) == activate_lines(stuck_seq(tables@)),
        transition_seq(r.1@) == all_became(stuck_seq(tables@), Outcome::Activated),
{
    let ghost ts = stuck_seq(tables@);
    let ghost all = activate_lines(ts);
    let ghost became = all_became(ts, Outcome::Activated);
    let mut lines = no_lines();
    let mut done: Vec<Transition> = Vec::new();
    let mut i: usize = 0;
    assert(all.take(0) =~= Seq::empty());
    assert(became.take(0) =~= transition_seq(done@));
    while i < tables.len()
        invariant
            i <= tables.len(),
            ts == stuck_seq(tables@),
            all == activate_lines(ts),
            became == all_became(ts, Outcome::Activated),
            line_seq(lines@) == all.take(i as int),
            transition_seq(done@) == became.take(i as int),
        decreases tables.len() - i,
    {
        let t = &tables[i];
        let command = Command::Update {
            at: Place::catalog("tables"),
            filter: table_filter(t.account_id.as_str(), t.table_name.as_str()).with(
                "table_status",
                Bson::text("CREATING"),
            ),
            update: Document::new().with(
                "$set",
                Bson::obj1("table_status", Bson::text("ACTIVE")),
            ).with("$unset", Bson::obj1("status_transition_at", Bson::text(""))),
            upsert: false,
        };
        assert(command@ == all[i as int].0);
        add_line(&mut lines, must(command));
        let ghost before = done@;
        let next = Transition { table_name: t.table_name.clone(), outcome: Outcome::Activated };
        done.push(next);
        proof {
            assert(all.take(i as int).push(all[i as int]) =~= all.take(i + 1));
            assert(transition_seq(done@) =~= transition_seq(before).push(
                (next.table_name@, next.outcome),
            ));
            assert(became.take(i as int).push(became[i as int]) =~= became.take(i + 1));
        }
        i += 1;
    }
    assert(all.take(ts.len() as int) =~= all);
    assert(became.take(ts.len() as int) =~= became);
    (lines, done)
}

#[verifier::rlimit(30)]
#[verifier::spinoff_prover]
fn build_removal(t: &Stuck, index_ids: &Vec<String>) -> (r: Vec<Line>)
    ensures
        line_seq(r@) == removal_lines(t@, crate::bson::text_seq(index_ids@)),
{
    let ghost ids = crate::bson::text_seq(index_ids@);
    let ghost all = removal_lines(t@, ids);
    let mut lines = no_lines();
    let mut i: usize = 0;
    assert(all.take(0) =~= Seq::empty());
    while i < index_ids.len()
        invariant
            i <= index_ids.len(),
            ids == crate::bson::text_seq(index_ids@),
            all == removal_lines(t@, ids),
            line_seq(lines@) == all.take(i as int),
        decreases index_ids.len() - i,
    {
        let name = data_collection_name(index_ids[i].as_str());
        let command = Command::DropCollection { at: Place::data(name.as_str()) };
        assert(all[i as int] == (command@, false));
        add_line(&mut lines, may(command));
        assert(all.take(i as int).push(all[i as int]) =~= all.take(i + 1));
        i += 1;
    }
    let ghost n = ids.len();
    add_line(
        &mut lines,
        must(
            Command::DeleteMany {
                at: Place::catalog("indexes"),
                filter: indexes_filter(t.table_id.as_str()),
            },
        ),
    );
    add_line(
        &mut lines,
        must(
            Command::DeleteMany {
                at: Place::catalog("tags"),
                filter: tags_filter(t.table_arn.as_str()),
            },
        ),
    );
    add_line(
        &mut lines,
        must(
            Command::DeleteOne {
                at: Place::catalog("tables"),
                filter: table_filter(t.account_id.as_str(), t.table_name.as_str()),
            },
        ),
    );
    assert(line_seq(lines@) =~= all);
    lines
}

fn go_on_with(w: Sweep) -> (step: Step<WorkerState, Vec<Transition>>)
    ensures
        sweep_leads(w@, step),
        step matches Step::Do(s, _) ==> is_under_way(s),
{
    if w.at < w.tables.len() {
        let name = data_collection_name(w.tables[w.at].table_id.as_str());
        run(
            WorkerState::DroppingData(w),
            Command::DropCollection { at: Place::data(name.as_str()) },
        )
    } else {
        Step::Done(Ok(w.done))
    }
}

fn take_activation_turn(now: i64, done: Vec<Transition>, turn: Turn) -> (step: Step<
    WorkerState,
    Vec<Transition>,
>)
    ensures
        activation_turns(now, transition_seq(done@), turn, step),
{
    match turn {
        Turn::Perform(script, c) => run(WorkerState::Activating { now, script, done }, c),
        Turn::Finished => run(WorkerState::ListingDeleting { done }, overdue("DELETING", now)),
        Turn::Refused(e) => Step::Done(Err(StorageError::Internal(e.message))),
    }
}

fn take_removal_turn(w: Sweep, turn: Turn) -> (step: Step<WorkerState, Vec<Transition>>)
    requires
        w.at < w.tables@.len(),
    ensures
        removal_turns(w@, turn, step),
        step matches Step::Do(s, _) ==> is_under_way(s),
{
    match turn {
        Turn::Perform(script, c) => run(WorkerState::Removing { sweep: w, script }, c),
        Turn::Finished => {
            let ghost target = sweep_after(w@);
            let mut w = w;
            let k: usize = w.at;
            let len: usize = w.tables.len();
            assert(k < len);
            let table_name = w.tables[k].table_name.clone();
            let ghost before = w.done@;
            let next = Transition { table_name, outcome: Outcome::Deleted };
            w.done.push(next);
            w.at = k + 1;
            assert(transition_seq(w.done@) =~= transition_seq(before).push(
                (next.table_name@, next.outcome),
            ));
            assert(w@ == target);
            go_on_with(w)
        },
        Turn::Refused(e) => Step::Done(Err(StorageError::Internal(e.message))),
    }
}

/// Begins the completion of tables; `now` is the time in milliseconds.
pub fn transitions_start(now: i64) -> (step: Step<WorkerState, Vec<Transition>>)
    ensures
        runs(step, WorkerState::ListingCreating { now }, overdue_of("CREATING"@, now)),
{
    run(WorkerState::ListingCreating { now }, overdue("CREATING", now))
}

/// Goes on with the completion of tables.
pub fn transitions_next(state: WorkerState, event: Event) -> (step: Step<
    WorkerState,
    Vec<Transition>,
>)
    requires
        is_under_way(state),
    ensures
        worker_goes_on(state, event, step),
        step matches Step::Do(s, _) ==> is_under_way(s),
{
    match (state, event) {
        (WorkerState::Activating { now, script, done }, Event::Replied(r)) => {
            let turn = script_next(script, r);
            take_activation_turn(now, done, turn)
        },
        (WorkerState::Removing { sweep, script }, Event::Replied(r)) => {
            let turn = script_next(script, r);
            take_removal_turn(sweep, turn)
        },
        (WorkerState::DroppingData(w), Event::Replied(_)) => {
            let filter = indexes_filter(w.tables[w.at].table_id.as_str());
            run(
                WorkerState::ListingIndexes(w),
                Command::Find { at: Place::catalog("indexes"), filter, paging: Paging::none() },
            )
        },
        (_, Event::Replied(Reply::Failed(e))) => Step::Done(
            Err(StorageError::Internal(e.message)),
        ),
        (WorkerState::ListingCreating { now }, Event::Replied(Reply::Many(docs))) => {
            let tables = read_stuck(&docs);
            let (lines, done) = build_activation(&tables);
            let turn = script_start(lines);
            take_activation_turn(now, done, turn)
        },
        (WorkerState::ListingDeleting { done }, Event::Replied(Reply::Many(docs))) => go_on_with(
            Sweep { tables: read_stuck(&docs), at: 0, done },
        ),
        (WorkerState::ListingIndexes(w), Event::Replied(Reply::Many(docs))) => {
            let ids = collect_texts(&docs, "index_id");
            let lines = build_removal(&w.tables[w.at], &ids);
            let turn = script_start(lines);
            take_removal_turn(w, turn)
        },
        _ => fail_unexpected(),
    }
}

// --- Laws --------------------------------------------------------------------------

/// A table is reported as deleted only after its entry in the catalog is
/// gone: the removal of the entry is the last command of its removal, and has
/// to succeed.
pub proof fn law_entry_goes_last(t: StuckV, index_ids: Seq<Seq<char>>)
    ensures
        removal_lines(t, index_ids).last() == (
            CommandV::DeleteOne {
                at: in_catalog("tables"@),
                filter: table_filter_of(t.account_id, t.table_name),
            },
            true,
        ),
{
}

} // verus!
