//! Listing the tasks, all of them or those with one status.

use crate::error::{check_view, CommandError, ErrorKind, Failure};
use crate::models::list::{lemma_filter_keeps_all, lemma_filter_next, List, ListView};
use crate::models::task::{Status, Task, TaskView};
use vstd::prelude::*;

verus! {

/// The failure for too many arguments.
pub open spec fn usage() -> Failure {
    Failure { kind: ErrorKind::InvalidUsage, message: "Usage: list [todo|in-progress|done]"@ }
}

/// The failure for a filter that is not one of the three known words.
pub open spec fn unknown_filter(word: Seq<char>) -> Failure {
    Failure { kind: ErrorKind::UnknownFilter, message: "Unknown filter: "@ + word }
}

/// The single line shown where no task is selected.
pub open spec fn empty_notice() -> Seq<char> {
    "The list is empty"@
}

/// Why the arguments are refused before the store is looked at, if they are:
/// the command takes at most one argument. Whether that argument is a known
/// filter is looked at later.
pub open spec fn rejection(args: Seq<Seq<char>>) -> Option<Failure> {
    if args.len() > 1 {
        Some(usage())
    } else {
        None
    }
}

/// The status that a filter word selects.
pub open spec fn filter_of(word: Seq<char>) -> Option<Status> {
    if word == "todo"@ {
        Some(Status::Todo)
    } else if word == "in-progress"@ {
        Some(Status::InProgress)
    } else if word == "done"@ {
        Some(Status::Done)
    } else {
        None
    }
}

/// Holds of the tasks that a filter lets through: all of them where there is no
/// filter, else those with the status.
pub open spec fn passes(filter: Option<Status>) -> spec_fn(TaskView) -> bool {
    |t: TaskView|
        match filter {
            None => true,
            Some(status) => t.status == status,
        }
}

/// The tasks that a filter selects, in the order of the store.
pub open spec fn selected(tasks: Seq<TaskView>, filter: Option<Status>) -> Seq<TaskView> {
    tasks.filter(passes(filter))
}

/// What is shown for one task: its five lines and an empty line.
pub open spec fn entry(task: TaskView) -> Seq<char> {
    task.rendering() + "\n"@
}

/// What is shown for a sequence of tasks.
pub open spec fn entries(tasks: Seq<TaskView>) -> Seq<Seq<char>> {
    tasks.map_values(|t: TaskView| entry(t))
}

/// What is shown for the tasks that a filter selects: one entry for each, or the
/// notice where there is none.
pub open spec fn shown(tasks: Seq<TaskView>, filter: Option<Status>) -> Seq<Seq<char>> {
    let chosen = selected(tasks, filter);
    if chosen.len() == 0 {
        seq![empty_notice()]
    } else {
        entries(chosen)
    }
}

/// What the command shows, piece by piece; each piece is to be written out
/// followed by a line feed.
pub open spec fn listing(args: Seq<Seq<char>>, store: ListView) -> Result<
    Seq<Seq<char>>,
    Failure,
> {
    if args.len() > 1 {
        Err(usage())
    } else if args.len() == 0 {
        Ok(shown(store.tasks, None))
    } else {
        match filter_of(args[0]) {
            Some(status) => Ok(shown(store.tasks, Some(status))),
            None => Err(unknown_filter(args[0])),
        }
    }
}

/// The ids of a sequence of tasks, as a set.
pub open spec fn ids(tasks: Seq<TaskView>) -> Set<nat> {
    Set::new(|id: nat| exists|i: int| 0 <= i < tasks.len() && (#[trigger] tasks[i]).id == id)
}

/// A task is selected exactly if it is in the store and passes the filter.
pub proof fn lemma_selected(tasks: Seq<TaskView>, filter: Option<Status>, task: TaskView)
    ensures
        selected(tasks, filter).contains(task) <==> tasks.contains(task) && passes(filter)(task),
{
    let keep = passes(filter);
    let chosen = selected(tasks, filter);
    if chosen.contains(task) {
        tasks.lemma_filter_contains_rev(keep, task);
        let i = choose|i: int| 0 <= i < chosen.len() && chosen[i] == task;
        tasks.lemma_filter_pred(keep, i);
    }
    if tasks.contains(task) && keep(task) {
        let i = choose|i: int| 0 <= i < tasks.len() && tasks[i] == task;
        tasks.lemma_filter_contains(keep, i);
    }
}

/// Without a filter every task is selected, in the order of the store.
pub proof fn lemma_no_filter_selects_all(tasks: Seq<TaskView>)
    ensures
        selected(tasks, None) == tasks,
{
    lemma_filter_keeps_all(tasks, passes(None));
}

/// The three filters split the tasks of a store: the ids that they select make
/// up, together, the ids of all tasks, and, in a well-formed store, no id is
/// selected by two of them.
pub proof fn lemma_filters_partition(store: ListView)
    ensures
        ids(selected(store.tasks, Some(Status::Todo))).union(
            ids(selected(store.tasks, Some(Status::InProgress))),
        ).union(ids(selected(store.tasks, Some(Status::Done)))) == ids(
            selected(store.tasks, None),
        ),
        ids(selected(store.tasks, None)) == ids(store.tasks),
        store.wf() ==> ids(selected(store.tasks, Some(Status::Todo))).disjoint(
            ids(selected(store.tasks, Some(Status::InProgress))),
        ),
        store.wf() ==> ids(selected(store.tasks, Some(Status::Todo))).disjoint(
            ids(selected(store.tasks, Some(Status::Done))),
        ),
        store.wf() ==> ids(selected(store.tasks, Some(Status::InProgress))).disjoint(
            ids(selected(store.tasks, Some(Status::Done))),
        ),
{
    let tasks = store.tasks;
    let todo = selected(tasks, Some(Status::Todo));
    let doing = selected(tasks, Some(Status::InProgress));
    let done = selected(tasks, Some(Status::Done));
    let all = selected(tasks, None);
    lemma_no_filter_selects_all(tasks);
    assert forall|id: nat|
        ids(todo).union(ids(doing)).union(ids(done)).contains(id) <==> ids(all).contains(
            id,
        ) by {
        lemma_ids_of_selected(tasks, Some(Status::Todo), id);
        lemma_ids_of_selected(tasks, Some(Status::InProgress), id);
        lemma_ids_of_selected(tasks, Some(Status::Done), id);
        if ids(all).contains(id) {
            let i = choose|i: int| 0 <= i < tasks.len() && (#[trigger] tasks[i]).id == id;
            match tasks[i].status {
                Status::Todo => {},
                Status::InProgress => {},
                Status::Done => {},
            }
        }
    }
    assert(ids(todo).union(ids(doing)).union(ids(done)) =~= ids(all));
    if store.wf() {
        assert forall|id: nat|
            !(ids(todo).contains(id) && ids(doing).contains(id)) && !(ids(todo).contains(id)
                && ids(done).contains(id)) && !(ids(doing).contains(id) && ids(done).contains(
                id,
            )) by {
            lemma_ids_of_selected(tasks, Some(Status::Todo), id);
            lemma_ids_of_selected(tasks, Some(Status::InProgress), id);
            lemma_ids_of_selected(tasks, Some(Status::Done), id);
            lemma_one_status_per_id(store, id);
        }
    }
}

/// An id is among the selected exactly if a task of the store has it and passes
/// the filter.
pub proof fn lemma_ids_of_selected(tasks: Seq<TaskView>, filter: Option<Status>, id: nat)
    ensures
        ids(selected(tasks, filter)).contains(id) <==> exists|i: int|
            0 <= i < tasks.len() && (#[trigger] tasks[i]).id == id && passes(filter)(tasks[i]),
{
    let chosen = selected(tasks, filter);
    if ids(chosen).contains(id) {
        let j = choose|j: int| 0 <= j < chosen.len() && (#[trigger] chosen[j]).id == id;
        assert(chosen.contains(chosen[j]));
        lemma_selected(tasks, filter, chosen[j]);
        let i = choose|i: int| 0 <= i < tasks.len() && tasks[i] == chosen[j];
        assert(tasks[i].id == id && passes(filter)(tasks[i]));
    }
    if exists|i: int|
        0 <= i < tasks.len() && (#[trigger] tasks[i]).id == id && passes(filter)(tasks[i]) {
        let i = choose|i: int|
            0 <= i < tasks.len() && (#[trigger] tasks[i]).id == id && passes(filter)(tasks[i]);
        assert(tasks.contains(tasks[i]));
        lemma_selected(tasks, filter, tasks[i]);
        let j = choose|j: int| 0 <= j < chosen.len() && chosen[j] == tasks[i];
        assert(chosen[j].id == id);
    }
}

/// In a well-formed store the tasks with one id have one status.
proof fn lemma_one_status_per_id(store: ListView, id: nat)
    requires
        store.wf(),
    ensures
        forall|i: int, j: int|
            0 <= i < store.tasks.len() && 0 <= j < store.tasks.len() && (
            #[trigger] store.tasks[i]).id == id && (#[trigger] store.tasks[j]).id == id
                ==> store.tasks[i].status == store.tasks[j].status,
{
    assert forall|i: int, j: int|
        0 <= i < store.tasks.len() && 0 <= j < store.tasks.len() && (
        #[trigger] store.tasks[i]).id == id && (#[trigger] store.tasks[j]).id
            == id implies store.tasks[i].status == store.tasks[j].status by {
        if i < j {
            assert(store.tasks[i].id != store.tasks[j].id);
        } else if j < i {
            assert(store.tasks[j].id != store.tasks[i].id);
        }
    }
}

/// On a store without tasks, the command shows the notice and nothing else,
/// with any known filter and with none.
pub proof fn lemma_empty_store(args: Seq<Seq<char>>, store: ListView)
    requires
        store.tasks.len() == 0,
        listing(args, store) is Ok,
    ensures
        listing(args, store) == Ok::<Seq<Seq<char>>, Failure>(seq![empty_notice()]),
{
    assert forall|filter: Option<Status>| (#[trigger] selected(store.tasks, filter)).len()
        == 0 by {
        store.tasks.lemma_filter_len(passes(filter));
    }
}

/// What the command returned, as a mathematical value.
pub open spec fn listing_view(answer: Result<Vec<String>, CommandError>) -> Result<
    Seq<Seq<char>>,
    Failure,
> {
    match answer {
        Ok(pieces) => Ok(pieces.deep_view()),
        Err(error) => Err(error@),
    }
}

/// Checks the number of arguments.
pub fn check(args: &[String]) -> (checked: Result<(), CommandError>)
    ensures
        check_view(checked) == rejection(args.deep_view()),
{
    if args.len() > 1 {
        return Err(
            CommandError::new(ErrorKind::InvalidUsage, "Usage: list [todo|in-progress|done]"),
        );
    }
    Ok(())
}

/// The status that the filter word `word` selects.
pub fn parse_filter(word: &String) -> (status: Option<Status>)
    ensures
        status == filter_of(word@),
{
    if *word == String::from_str("todo") {
        Some(Status::Todo)
    } else if *word == String::from_str("in-progress") {
        Some(Status::InProgress)
    } else if *word == String::from_str("done") {
        Some(Status::Done)
    } else {
        None
    }
}

/// Whether the filter lets the task through.
fn lets_through(filter: Option<Status>, task: &Task) -> (through: bool)
    ensures
        through == passes(filter)(task@),
{
    match filter {
        None => true,
        Some(status) => task.status == status,
    }
}

/// What is shown for the tasks of the store that the filter selects.
pub fn show(store: &List, filter: Option<Status>) -> (pieces: Vec<String>)
    ensures
        pieces.deep_view() == shown(store@.tasks, filter),
{
    let ghost tasks = store@.tasks;
    let ghost keep = passes(filter);
    let mut pieces: Vec<String> = Vec::new();
    let mut i: usize = 0;
    proof {
        reveal(Seq::filter);
        assert(tasks.take(0).filter(keep) =~= Seq::<TaskView>::empty());
        assert(pieces.deep_view() =~= entries(Seq::<TaskView>::empty()));
    }
    while i < store.list.len()
        invariant
            i <= store.list.len(),
            tasks == store@.tasks,
            keep == passes(filter),
            pieces.deep_view() == entries(tasks.take(i as int).filter(keep)),
        decreases store.list.len() - i,
    {
        let task: &Task = &store.list[i];
        proof {
            lemma_filter_next(tasks, i as int, keep);
        }
        if lets_through(filter, task) {
            let ghost before = pieces.deep_view();
            let mut piece: String = task.to_string();
            piece.append("\n");
            pieces.push(piece);
            proof {
                let chosen = tasks.take(i as int).filter(keep);
                assert(pieces.deep_view() =~= before.push(entry(task@)));
                assert(entries(chosen.push(task@)) =~= entries(chosen).push(entry(task@)));
            }
        }
        i += 1;
    }
    proof {
        assert(tasks.take(i as int) =~= tasks);
    }
    if pieces.len() == 0 {
        pieces.push(String::from_str("The list is empty"));
        proof {
            assert(pieces.deep_view() =~= seq![empty_notice()]);
        }
    }
    pieces
}

/// Lists the tasks of the store: all of them without an argument, else those
/// whose status the filter word `args[0]` names. The store is only read.
pub fn run(args: &[String], store: &List) -> (answer: Result<Vec<String>, CommandError>)
    ensures
        listing_view(answer) == listing(args.deep_view(), store@),
{
    match check(args) {
        Err(error) => {
            return Err(error);
        },
        Ok(_) => {},
    }
    if args.len() == 0 {
        return Ok(show(store, None));
    }
    match parse_filter(&args[0]) {
        Some(status) => Ok(show(store, Some(status))),
        None => {
            let mut message: String = String::from_str("Unknown filter: ");
            message.append(args[0].as_str());
            Err(CommandError { kind: ErrorKind::UnknownFilter, message })
        },
    }
}

} // verus!
