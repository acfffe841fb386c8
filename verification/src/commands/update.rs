//! Changing the description of a task.

use crate::error::{reply_view, CommandError, ErrorKind, Failure};
use crate::models::list::{List, ListView};
use crate::models::timestamp::{Instant, Timestamp};
use crate::text::{decimal, decimal_text, join, join_words, parse_decimal, parse_usize};
use vstd::prelude::*;

verus! {

/// The failure for too few arguments.
pub open spec fn usage() -> Failure {
    Failure { kind: ErrorKind::InvalidUsage, message: "Usage: update <id> <description>"@ }
}

/// The failure for an id that is not a number that fits.
pub open spec fn invalid_id() -> Failure {
    Failure { kind: ErrorKind::InvalidId, message: "Invalid task id"@ }
}

/// The failure for an id that no task has.
pub open spec fn not_found() -> Failure {
    Failure {
        kind: ErrorKind::NotFound,
        message: "Task not found. It may have been deleted or the id is invalid"@,
    }
}

/// Why the arguments are refused before the store is looked at, if they are:
/// the command takes an id and at least one word of description.
pub open spec fn rejection(args: Seq<Seq<char>>) -> Option<Failure> {
    if args.len() < 2 {
        Some(usage())
    } else if parse_decimal(args[0], usize::MAX as nat) is Err {
        Some(invalid_id())
    } else {
        None
    }
}

/// The id that accepted arguments name.
pub open spec fn target(args: Seq<Seq<char>>) -> nat
    recommends
        rejection(args) is None,
{
    parse_decimal(args[0], usize::MAX as nat)->Ok_0
}

/// The description that accepted arguments give: the arguments after the id,
/// with one space between neighbours.
pub open spec fn description(args: Seq<Seq<char>>) -> Seq<char>
    recommends
        rejection(args) is None,
{
    join_words(args.skip(1))
}

/// What the command answers.
pub open spec fn reply(args: Seq<Seq<char>>, store: ListView) -> Result<Seq<char>, Failure> {
    match rejection(args) {
        Some(failure) => Err(failure),
        None => if store.has_id(target(args)) {
            Ok("Task updated successfully (ID: "@ + decimal_text(target(args)) + ")"@)
        } else {
            Err(not_found())
        },
    }
}

/// The store after the command, run at `now`: the first task with the id has
/// the new description and was last changed at `now`; nothing else differs. A
/// command that fails changes nothing.
pub open spec fn effect(args: Seq<Seq<char>>, store: ListView, now: Instant) -> ListView {
    if reply(args, store) is Ok {
        let i = store.position(target(args));
        store.with_replaced(i, store.tasks[i].described(description(args), now))
    } else {
        store
    }
}

/// Checks the arguments alone, and reads the id from them.
pub fn check(args: &[String]) -> (checked: Result<usize, CommandError>)
    ensures
        match checked {
            Ok(id) => rejection(args.deep_view()) is None && id == target(args.deep_view()),
            Err(error) => rejection(args.deep_view()) == Some(error@),
        },
{
    if args.len() < 2 {
        return Err(CommandError::new(ErrorKind::InvalidUsage, "Usage: update <id> <description>"));
    }
    match parse_usize(args[0].as_str()) {
        Ok(id) => Ok(id),
        Err(_) => Err(CommandError::new(ErrorKind::InvalidId, "Invalid task id")),
    }
}

/// Gives the task whose id is `args[0]` the description made of the other
/// arguments, and records the time of the change. The clock is read once, after
/// the task was found.
pub fn run(args: &[String], store: &mut List) -> (answer: Result<String, CommandError>)
    ensures
        reply_view(answer) == reply(args.deep_view(), old(store)@),
        exists|now: Instant|
            now.representable() && final(store)@ == #[trigger] effect(
                args.deep_view(),
                old(store)@,
                now,
            ),
{
    let ghost epoch = Instant { secs: 0, nanos: 0 };
    let id: usize = match check(args) {
        Ok(id) => id,
        Err(error) => {
            assert(store@ == effect(args.deep_view(), old(store)@, epoch));
            return Err(error);
        },
    };
    let words: String = join(args, 1);
    match store.find_mut(id) {
        Some(task) => {
            let now: Timestamp = Timestamp::now();
            task.describe(words, now);
            proof {
                let i = old(store)@.position(id as nat);
                assert(store@.tasks =~= old(store)@.tasks.update(
                    i,
                    old(store)@.tasks[i].described(description(args.deep_view()), now@),
                ));
                assert(store@ == effect(args.deep_view(), old(store)@, now@));
            }
        },
        None => {
            assert(store@ == effect(args.deep_view(), old(store)@, epoch));
            return Err(
                CommandError::new(
                    ErrorKind::NotFound,
                    "Task not found. It may have been deleted or the id is invalid",
                ),
            );
        },
    }
    let mut message: String = String::from_str("Task updated successfully (ID: ");
    message.append(decimal(id).as_str());
    message.append(")");
    Ok(message)
}

/// An update that succeeds changes one task, and of it the description and the
/// time of the last change only: its id, its status and its time of creation
/// stay, and so does every other task and `next_id`.
pub proof fn lemma_changes_description_only(args: Seq<Seq<char>>, store: ListView, now: Instant)
    requires
        reply(args, store) is Ok,
    ensures
        ({
            let after = effect(args, store, now);
            let i = store.position(target(args));
            &&& store.is_first(target(args), i)
            &&& after.next_id == store.next_id
            &&& after.tasks.len() == store.tasks.len()
            &&& forall|j: int| 0 <= j < store.tasks.len() && j != i ==> after.tasks[j] == store.tasks[j]
            &&& after.tasks[i].id == store.tasks[i].id
            &&& after.tasks[i].status == store.tasks[i].status
            &&& after.tasks[i].created_at == store.tasks[i].created_at
            &&& after.tasks[i].description == description(args)
            &&& after.tasks[i].updated_at == now
        }),
{
    store.lemma_position(target(args));
}

/// Where the clock has not gone back since the task was last changed, the time
/// of the last change does not go back either, and the task stays well formed.
pub proof fn lemma_updated_at_grows(args: Seq<Seq<char>>, store: ListView, now: Instant)
    requires
        reply(args, store) is Ok,
        store.tasks[store.position(target(args))].updated_at.le(now),
    ensures
        ({
            let i = store.position(target(args));
            let before = store.tasks[i];
            let after = effect(args, store, now).tasks[i];
            &&& before.updated_at.le(after.updated_at)
            &&& before.wf() ==> after.wf()
        }),
{
    store.lemma_position(target(args));
}

/// An update keeps the store well formed.
pub proof fn lemma_keeps_wf(args: Seq<Seq<char>>, store: ListView, now: Instant)
    requires
        store.wf(),
    ensures
        effect(args, store, now).wf(),
{
    if reply(args, store) is Ok {
        store.lemma_position(target(args));
        let i = store.position(target(args));
        store.lemma_with_replaced_keeps_wf(i, store.tasks[i].described(description(args), now));
    }
}

} // verus!
