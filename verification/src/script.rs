//! Running a list of database commands in order.

use vstd::prelude::*;

use crate::error::{ErrV, StorageError};
use crate::protocol::{
    fail_unexpected, fails, unexpected, Action, ActionV, Command, CommandV, DbError, Event, Reply,
    Step,
};

verus! {

/// A command of a script.
#[derive(Debug, PartialEq)]
pub struct Line {
    pub command: Command,
    /// Whether a refusal ends the script.
    pub required: bool,
}

/// A script whose current command is being performed.
#[derive(Debug, PartialEq)]
pub struct Script {
    /// The commands that are left, in order.
    pub left: Vec<Line>,
    /// Whether a refusal of the current command ends the script.
    pub required: bool,
}

/// What a script does next.
#[derive(Debug, PartialEq)]
pub enum Turn {
    /// Perform the command.
    Perform(Script, Command),
    /// All commands were performed.
    Finished,
    /// A command that has to succeed was refused.
    Refused(DbError),
}

/// The models of the lines of a script.
pub open spec fn line_seq(v: Seq<Line>) -> Seq<(CommandV, bool)> {
    Seq::new(v.len(), |i: int| (v[i].command@, v[i].required))
}

/// The script performs the first of `lines`, and then the others; without
/// lines it is finished.
pub open spec fn turns_to(lines: Seq<(CommandV, bool)>, t: Turn) -> bool {
    if lines.len() == 0 {
        t is Finished
    } else {
        &&& t matches Turn::Perform(s, c)
        &&& c@ == lines[0].0
        &&& s.required == lines[0].1
        &&& line_seq(s.left@) == lines.skip(1)
    }
}

/// What a script does after its command was answered.
pub open spec fn script_goes_on(s: Script, reply: Reply, t: Turn) -> bool {
    match reply {
        Reply::Failed(e) => if s.required {
            t == Turn::Refused(e)
        } else {
            turns_to(line_seq(s.left@), t)
        },
        _ => turns_to(line_seq(s.left@), t),
    }
}

/// Begins a script.
pub fn script_start(lines: Vec<Line>) -> (t: Turn)
    ensures
        turns_to(line_seq(lines@), t),
{
    if lines.len() == 0 {
        return Turn::Finished;
    }
    let mut left = lines;
    let ghost before = left@;
    let first = left.remove(0);
    assert(line_seq(left@) =~= line_seq(before).skip(1));
    Turn::Perform(Script { left, required: first.required }, first.command)
}

/// Goes on with a script after its command was answered.
pub fn script_next(s: Script, reply: Reply) -> (t: Turn)
    ensures
        script_goes_on(s, reply, t),
{
    match reply {
        Reply::Failed(e) => if s.required {
            Turn::Refused(e)
        } else {
            script_start(s.left)
        },
        _ => script_start(s.left),
    }
}

/// A command that has to succeed.
pub fn must(command: Command) -> (r: Line)
    ensures
        (r.command@, r.required) == (command@, true),
{
    Line { command, required: true }
}

/// A command whose refusal is passed over.
pub fn may(command: Command) -> (r: Line)
    ensures
        (r.command@, r.required) == (command@, false),
{
    Line { command, required: false }
}

/// Appends a line.
pub fn add_line(lines: &mut Vec<Line>, line: Line)
    ensures
        line_seq(final(lines)@) == line_seq(old(lines)@).push((line.command@, line.required)),
{
    let ghost before = lines@;
    lines.push(line);
    assert(line_seq(lines@) =~= line_seq(before).push((line.command@, line.required)));
}

/// A script without lines.
pub fn no_lines() -> (r: Vec<Line>)
    ensures
        line_seq(r@) == Seq::<(CommandV, bool)>::empty(),
{
    let r: Vec<Line> = Vec::new();
    assert(line_seq(r@) =~= Seq::empty());
    r
}

// --- An operation that is a script ---------------------------------------------------

/// The step performs the first of `lines`, and goes on with the others; without
/// lines the operation is done.
pub open spec fn script_leads(lines: Seq<(CommandV, bool)>, step: Step<Script, ()>) -> bool {
    if lines.len() == 0 {
        step == Step::<Script, ()>::Done(Ok(()))
    } else {
        &&& step matches Step::Do(s, a)
        &&& a@ == ActionV::Run(lines[0].0)
        &&& s.required == lines[0].1
        &&& line_seq(s.left@) == lines.skip(1)
    }
}

/// How an operation that is a script goes on with an event. A command that
/// has to succeed and is refused ends it in an error.
pub open spec fn lines_go_on(s: Script, event: Event, step: Step<Script, ()>) -> bool {
    match event {
        Event::Replied(Reply::Failed(e)) => if s.required {
            fails(step, ErrV::Internal(e.message@))
        } else {
            script_leads(line_seq(s.left@), step)
        },
        Event::Replied(_) => script_leads(line_seq(s.left@), step),
        _ => fails(step, unexpected()),
    }
}

fn turn_to_step(t: Turn) -> (step: Step<Script, ()>)
    ensures
        match t {
            Turn::Perform(s, c) => step matches Step::Do(x, a) && x == s && a@ == ActionV::Run(
                c@,
            ),
            Turn::Finished => step == Step::<Script, ()>::Done(Ok(())),
            Turn::Refused(e) => fails(step, ErrV::Internal(e.message@)),
        },
{
    match t {
        Turn::Perform(s, c) => Step::Do(s, Action::Run(c)),
        Turn::Finished => Step::Done(Ok(())),
        Turn::Refused(e) => Step::Done(Err(StorageError::Internal(e.message))),
    }
}

/// Begins an operation that is a script.
pub fn lines_start(lines: Vec<Line>) -> (step: Step<Script, ()>)
    ensures
        script_leads(line_seq(lines@), step),
{
    turn_to_step(script_start(lines))
}

/// Goes on with an operation that is a script.
pub fn lines_next(s: Script, event: Event) -> (step: Step<Script, ()>)
    ensures
        lines_go_on(s, event, step),
{
    match event {
        Event::Replied(reply) => turn_to_step(script_next(s, reply)),
        _ => fail_unexpected(),
    }
}

// --- Laws --------------------------------------------------------------------------

/// A refusal of a command that has to succeed is the end: no further command
/// is performed.
pub proof fn law_script_stops_at_refusal(s: Script, e: DbError, t: Turn)
    requires
        s.required,
        script_goes_on(s, Reply::Failed(e), t),
    ensures
        t == Turn::Refused(e),
{
}

/// A run of an operation that is a script: each step is what comes of the
/// state of the one before and an event.
pub open spec fn is_script_run(steps: Seq<Step<Script, ()>>, events: Seq<Event>) -> bool {
    &&& steps.len() > 0
    &&& events.len() == steps.len() - 1
    &&& forall|i: int|
        0 <= i < events.len() ==> (#[trigger] steps[i]) is Do && lines_go_on(
            steps[i]->Do_0,
            events[i],
            steps[i + 1],
        )
}

/// A script that ends well has performed all its lines, each once and in
/// order.
pub proof fn law_script_performs_each_line(
    lines: Seq<(CommandV, bool)>,
    steps: Seq<Step<Script, ()>>,
    events: Seq<Event>,
)
    requires
        is_script_run(steps, events),
        script_leads(lines, steps[0]),
        steps.last() == Step::<Script, ()>::Done(Ok(())),
    ensures
        steps.len() == lines.len() + 1,
        forall|i: int|
            0 <= i < lines.len() ==> ((#[trigger] steps[i]) matches Step::Do(_, a) && a@
                == ActionV::Run(lines[i].0)),
    decreases steps.len(),
{
    if lines.len() > 0 {
        if steps.len() > 1 {
            let rest = steps.skip(1);
            let later = events.skip(1);
            assert(lines_go_on(steps[0]->Do_0, events[0], steps[1]));
            assert forall|i: int| 0 <= i < later.len() implies (#[trigger] rest[i]) is Do
                && lines_go_on(rest[i]->Do_0, later[i], rest[i + 1]) by {
                assert(rest[i] == steps[i + 1] && later[i] == events[i + 1] && rest[i + 1]
                    == steps[i + 2]);
            }
            assert(rest.last() == steps.last());
            lemma_no_failure_later(rest, later);
            law_script_performs_each_line(lines.skip(1), rest, later);
            assert forall|i: int| 0 <= i < lines.len() implies ((#[trigger] steps[i])
                matches Step::Do(_, a) && a@ == ActionV::Run(lines[i].0)) by {
                if i > 0 {
                    assert(steps[i] == rest[i - 1]);
                    assert(lines[i] == lines.skip(1)[i - 1]);
                }
            }
        }
    } else if steps.len() > 1 {
        assert(steps[0] is Do);
    }
}

/// A run that ends well has no step that failed.
proof fn lemma_no_failure_later(steps: Seq<Step<Script, ()>>, events: Seq<Event>)
    requires
        is_script_run(steps, events),
        steps.last() == Step::<Script, ()>::Done(Ok(())),
    ensures
        steps[0] matches Step::Done(r) ==> r is Ok,
{
    if steps.len() > 1 {
        assert(steps[0] is Do);
    }
}

} // verus!
