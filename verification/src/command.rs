//! The changes to the store as values, so that a whole history of them can be
//! run and reasoned about.

use vstd::prelude::*;
use crate::course::{Course, CourseView, views};
use crate::error::StoreError;
use crate::store::{
    add_course, batch_add_courses, contains_id, delete_course, update_course, with_update,
    without_id, AppState,
};

verus! {

/// One change to the store.
#[derive(Debug)]
pub enum Command {
    /// Append an entry.
    Add(Course),
    /// Replace the first entry that has this entry's identifier.
    Update(Course),
    /// Remove the first entry that carries this identifier.
    Delete(String),
    /// Append entries, in order.
    BatchAdd(Vec<Course>),
}

/// What a change is, as a value.
pub enum CommandView {
    Add(CourseView),
    Update(CourseView),
    Delete(Seq<char>),
    BatchAdd(Seq<CourseView>),
}

impl View for Command {
    type V = CommandView;

    open spec fn view(&self) -> CommandView {
        match self {
            Command::Add(c) => CommandView::Add(c@),
            Command::Update(c) => CommandView::Update(c@),
            Command::Delete(id) => CommandView::Delete(id@),
            Command::BatchAdd(cs) => CommandView::BatchAdd(views(cs@)),
        }
    }
}

/// The values of a run of changes, in order.
pub open spec fn command_views(commands: Seq<Command>) -> Seq<CommandView> {
    commands.map_values(|c: Command| c@)
}

/// The collection after one change. A change that names an identifier which
/// no entry carries leaves the collection as it is.
pub open spec fn step(s: Seq<CourseView>, command: CommandView) -> Seq<CourseView> {
    match command {
        CommandView::Add(c) => s.push(c),
        CommandView::Update(c) => with_update(s, c),
        CommandView::Delete(id) => without_id(s, id),
        CommandView::BatchAdd(cs) => s + cs,
    }
}

/// Whether a change is refused: it names an identifier that no entry carries.
pub open spec fn refused(s: Seq<CourseView>, command: CommandView) -> bool {
    match command {
        CommandView::Add(_) => false,
        CommandView::Update(c) => !contains_id(s, c.id),
        CommandView::Delete(id) => !contains_id(s, id),
        CommandView::BatchAdd(_) => false,
    }
}

/// The collection after a history of changes, applied oldest first.
pub open spec fn replay(s: Seq<CourseView>, commands: Seq<CommandView>) -> Seq<CourseView>
    decreases commands.len(),
{
    if commands.len() == 0 {
        s
    } else {
        step(replay(s, commands.drop_last()), commands.last())
    }
}

/// Carries out one change.
pub fn apply(command: Command, state: &mut AppState) -> (r: Result<(), StoreError>)
    ensures
        final(state)@.courses == step(old(state)@.courses, command@),
        final(state)@.data_path == old(state)@.data_path,
        r is Err <==> refused(old(state)@.courses, command@),
        r matches Err(e) ==> e == StoreError::NotFound,
{
    match command {
        Command::Add(course) => {
            add_course(course, state);
            Ok(())
        },
        Command::Update(course) => update_course(course, state),
        Command::Delete(id) => delete_course(id, state),
        Command::BatchAdd(courses) => {
            batch_add_courses(courses, state);
            Ok(())
        },
    }
}

/// Carries out a history of changes, oldest first, and reports for each
/// whether it was carried out. A refused change does not stop the run.
/// Afterwards the store holds exactly what replaying the history on the
/// entries it held before gives.
pub fn apply_all(commands: Vec<Command>, state: &mut AppState) -> (outcomes: Vec<
    Result<(), StoreError>,
>)
    ensures
        final(state)@.courses == replay(old(state)@.courses, command_views(commands@)),
        final(state)@.data_path == old(state)@.data_path,
        outcomes@.len() == commands@.len(),
        forall|i: int|
            0 <= i < commands@.len() ==> ((#[trigger] outcomes@[i]) is Err <==> refused(
                replay(old(state)@.courses, command_views(commands@).take(i)),
                commands@[i]@,
            )),
        forall|i: int|
            0 <= i < commands@.len() && (#[trigger] outcomes@[i]) is Err ==> outcomes@[i]
                == Err::<(), StoreError>(StoreError::NotFound),
{
    let ghost start = state@.courses;
    let ghost history = command_views(commands@);
    let mut outcomes: Vec<Result<(), StoreError>> = Vec::new();
    for command in it: commands
        invariant
            it.seq() == commands@,
            history == command_views(commands@),
            start == old(state)@.courses,
            state@.data_path == old(state)@.data_path,
            state@.courses == replay(start, history.take(it.index() as int)),
            outcomes@.len() == it.index(),
            forall|i: int|
                0 <= i < it.index() ==> ((#[trigger] outcomes@[i]) is Err <==> refused(
                    replay(start, history.take(i)),
                    commands@[i]@,
                )),
            forall|i: int|
                0 <= i < it.index() && (#[trigger] outcomes@[i]) is Err ==> outcomes@[i]
                    == Err::<(), StoreError>(StoreError::NotFound),
    {
        proof {
            let k = it.index() as int;
            assert(history.take(k + 1).drop_last() == history.take(k));
            assert(history.take(k + 1).last() == command@);
        }
        let outcome = apply(command, state);
        outcomes.push(outcome);
    }
    proof {
        assert(history.take(commands@.len() as int) == history);
    }
    outcomes
}

/// Replaying a history in two parts, one after the other, gives what
/// replaying it in one piece gives.
pub proof fn lemma_replay_concat(
    s: Seq<CourseView>,
    first: Seq<CommandView>,
    second: Seq<CommandView>,
)
    ensures
        replay(s, first + second) == replay(replay(s, first), second),
    decreases second.len(),
{
    if second.len() == 0 {
        assert(first + second =~= first);
    } else {
        lemma_replay_concat(s, first, second.drop_last());
        assert((first + second).drop_last() =~= first + second.drop_last());
        assert((first + second).last() == second.last());
    }
}

} // verus!
