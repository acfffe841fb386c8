//! Adding a task.

use crate::error::{check_view, reply_view, CommandError, ErrorKind, Failure};
use crate::models::list::{List, ListView};
use crate::models::task::{Task, TaskView};
use crate::models::timestamp::Instant;
use crate::text::{decimal, decimal_text};
use vstd::prelude::*;

verus! {

/// The failure for a wrong number of arguments.
pub open spec fn usage() -> Failure {
    Failure { kind: ErrorKind::InvalidUsage, message: "Usage: add <description>"@ }
}

/// Why the arguments are refused before the store is looked at, if they are:
/// the command takes exactly one argument, the description.
pub open spec fn rejection(args: Seq<Seq<char>>) -> Option<Failure> {
    if args.len() != 1 {
        Some(usage())
    } else {
        None
    }
}

/// What the command answers: the id given to the new task, which is the
/// store's `next_id`.
pub open spec fn reply(args: Seq<Seq<char>>, store: ListView) -> Result<Seq<char>, Failure> {
    match rejection(args) {
        Some(failure) => Err(failure),
        None => Ok("Task added successfully (ID: "@ + decimal_text(store.next_id) + ")"@),
    }
}

/// The store after the command, run at `now`: one task more at the end, with
/// the id `next_id`, and `next_id` one higher. A refused command changes
/// nothing.
pub open spec fn effect(args: Seq<Seq<char>>, store: ListView, now: Instant) -> ListView {
    if rejection(args) is Some {
        store
    } else {
        store.with_task(TaskView::fresh(store.next_id, args[0], now))
    }
}

/// Checks the arguments alone.
pub fn check(args: &[String]) -> (checked: Result<(), CommandError>)
    ensures
        check_view(checked) == rejection(args.deep_view()),
{
    if args.len() != 1 {
        return Err(CommandError::new(ErrorKind::InvalidUsage, "Usage: add <description>"));
    }
    Ok(())
}

/// Adds a task with the description `args[0]` to the store.
///
/// The store's counter must have room for one more id.
pub fn run(args: &[String], store: &mut List) -> (answer: Result<String, CommandError>)
    requires
        args.len() == 1 ==> old(store).next_id < usize::MAX,
    ensures
        reply_view(answer) == reply(args.deep_view(), old(store)@),
        exists|now: Instant|
            now.representable() && final(store)@ == #[trigger] effect(
                args.deep_view(),
                old(store)@,
                now,
            ),
{
    match check(args) {
        Err(error) => {
            proof {
                let epoch = Instant { secs: 0, nanos: 0 };
                assert(store@ == effect(args.deep_view(), old(store)@, epoch));
            }
            return Err(error);
        },
        Ok(_) => {},
    }
    let id: usize = store.next_id;
    let task: Task = Task::new(id, args[0].clone());
    let ghost now = task@.created_at;
    store.list.push(task);
    store.next_id += 1;
    let mut message: String = String::from_str("Task added successfully (ID: ");
    message.append(decimal(id).as_str());
    message.append(")");
    proof {
        assert(store@.tasks =~= old(store)@.tasks.push(task@));
        assert(store@ == effect(args.deep_view(), old(store)@, now));
    }
    Ok(message)
}

/// An add that is accepted gives the new task the id `next_id` and moves
/// `next_id` on by one; it keeps the store well formed.
pub proof fn lemma_keeps_wf(args: Seq<Seq<char>>, store: ListView, now: Instant)
    requires
        store.wf(),
    ensures
        effect(args, store, now).wf(),
{
    if rejection(args) is None {
        store.lemma_with_task_keeps_wf(TaskView::fresh(store.next_id, args[0], now));
    }
}

} // verus!
