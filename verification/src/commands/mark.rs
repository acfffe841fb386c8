//! Marking a task as in progress or as done.

use crate::error::{reply_view, CommandError, ErrorKind, Failure};
use crate::models::list::{List, ListView};
use crate::models::task::Status;
use crate::models::timestamp::{Instant, Timestamp};
use crate::text::{decimal, decimal_text, parse_decimal, parse_usize};
use vstd::prelude::*;

verus! {

/// The failure for a command without arguments.
pub open spec fn missing_id() -> Failure {
    Failure { kind: ErrorKind::MissingId, message: "Missing id"@ }
}

/// The failure for an id that no task has.
pub open spec fn not_found() -> Failure {
    Failure { kind: ErrorKind::NotFound, message: "Task not found"@ }
}

/// Why the arguments are refused before the store is looked at, if they are.
/// The first argument must be an id; the message says what is wrong with it.
/// Arguments after the first are not looked at.
pub open spec fn rejection(args: Seq<Seq<char>>) -> Option<Failure> {
    if args.len() == 0 {
        Some(missing_id())
    } else {
        match parse_decimal(args[0], usize::MAX as nat) {
            Err(failure) => Some(Failure { kind: ErrorKind::InvalidId, message: failure.message() }),
            Ok(_) => None,
        }
    }
}

/// The id that accepted arguments name.
pub open spec fn target(args: Seq<Seq<char>>) -> nat
    recommends
        rejection(args) is None,
{
    parse_decimal(args[0], usize::MAX as nat)->Ok_0
}

/// What either command answers. The answer does not depend on the status that
/// is set.
pub open spec fn reply(args: Seq<Seq<char>>, store: ListView) -> Result<Seq<char>, Failure> {
    match rejection(args) {
        Some(failure) => Err(failure),
        None => if store.has_id(target(args)) {
            Ok("Task updated successfully (ID: "@ + decimal_text(target(args)) + ")"@)
        } else {
            Err(not_found())
        },
    }
}

/// The store after marking at `now`: the first task with the id has the status
/// `status` and was last changed at `now`; nothing else differs. A command that
/// fails changes nothing.
pub open spec fn effect(
    args: Seq<Seq<char>>,
    status: Status,
    store: ListView,
    now: Instant,
) -> ListView {
    if reply(args, store) is Ok {
        let i = store.position(target(args));
        store.with_replaced(i, store.tasks[i].marked(status, now))
    } else {
        store
    }
}

/// Checks the arguments alone, and reads the id from them.
pub fn check(args: &[String]) -> (checked: Result<usize, CommandError>)
    ensures
        match checked {
            Ok(id) => rejection(args.deep_view()) is None && id == target(args.deep_view()),
            Err(error) => rejection(args.deep_view()) == Some(error@),
        },
{
    if args.len() == 0 {
        return Err(CommandError::new(ErrorKind::MissingId, "Missing id"));
    }
    match parse_usize(args[0].as_str()) {
        Ok(id) => Ok(id),
        Err(failure) => Err(CommandError::new(ErrorKind::InvalidId, failure.to_str())),
    }
}

/// Marks the task whose id is `args[0]` as being worked on.
pub fn in_progress(args: &[String], store: &mut List) -> (answer: Result<String, CommandError>)
    ensures
        reply_view(answer) == reply(args.deep_view(), old(store)@),
        exists|now: Instant|
            now.representable() && final(store)@ == #[trigger] effect(
                args.deep_view(),
                Status::InProgress,
                old(store)@,
                now,
            ),
{
    update_status(args, Status::InProgress, store)
}

/// Marks the task whose id is `args[0]` as finished.
pub fn done(args: &[String], store: &mut List) -> (answer: Result<String, CommandError>)
    ensures
        reply_view(answer) == reply(args.deep_view(), old(store)@),
        exists|now: Instant|
            now.representable() && final(store)@ == #[trigger] effect(
                args.deep_view(),
                Status::Done,
                old(store)@,
                now,
            ),
{
    update_status(args, Status::Done, store)
}

/// Sets the status of the task whose id is `args[0]`, and records the time of
/// the change. The clock is read once, after the task was found.
fn update_status(args: &[String], status: Status, store: &mut List) -> (answer: Result<
    String,
    CommandError,
>)
    ensures
        reply_view(answer) == reply(args.deep_view(), old(store)@),
        exists|now: Instant|
            now.representable() && final(store)@ == #[trigger] effect(
                args.deep_view(),
                status,
                old(store)@,
                now,
            ),
{
    let ghost epoch = Instant { secs: 0, nanos: 0 };
    let id: usize = match check(args) {
        Ok(id) => id,
        Err(error) => {
            assert(store@ == effect(args.deep_view(), status, old(store)@, epoch));
            return Err(error);
        },
    };
    match store.find_mut(id) {
        Some(task) => {
            let now: Timestamp = Timestamp::now();
            task.mark(status, now);
            proof {
                let i = old(store)@.position(id as nat);
                assert(store@.tasks =~= old(store)@.tasks.update(
                    i,
                    old(store)@.tasks[i].marked(status, now@),
                ));
                assert(store@ == effect(args.deep_view(), status, old(store)@, now@));
            }
        },
        None => {
            assert(store@ == effect(args.deep_view(), status, old(store)@, epoch));
            return Err(CommandError::new(ErrorKind::NotFound, "Task not found"));
        },
    }
    let mut message: String = String::from_str("Task updated successfully (ID: ");
    message.append(decimal(id).as_str());
    message.append(")");
    Ok(message)
}

/// A mark that succeeds changes one task, and of it the status and the time of
/// the last change only: whatever its status was, it is now `status`; its id,
/// its description and its time of creation stay, and so does every other task
/// and `next_id`.
pub proof fn lemma_sets_status_only(
    args: Seq<Seq<char>>,
    status: Status,
    store: ListView,
    now: Instant,
)
    requires
        reply(args, store) is Ok,
    ensures
        ({
            let after = effect(args, status, store, now);
            let i = store.position(target(args));
            &&& store.is_first(target(args), i)
            &&& after.next_id == store.next_id
            &&& after.tasks.len() == store.tasks.len()
            &&& forall|j: int| 0 <= j < store.tasks.len() && j != i ==> after.tasks[j] == store.tasks[j]
            &&& after.tasks[i].id == store.tasks[i].id
            &&& after.tasks[i].description == store.tasks[i].description
            &&& after.tasks[i].created_at == store.tasks[i].created_at
            &&& after.tasks[i].status == status
            &&& after.tasks[i].updated_at == now
        }),
{
    store.lemma_position(target(args));
}

/// A mark keeps the store well formed.
pub proof fn lemma_keeps_wf(args: Seq<Seq<char>>, status: Status, store: ListView, now: Instant)
    requires
        store.wf(),
    ensures
        effect(args, status, store, now).wf(),
{
    if reply(args, store) is Ok {
        store.lemma_position(target(args));
        let i = store.position(target(args));
        store.lemma_with_replaced_keeps_wf(i, store.tasks[i].marked(status, now));
    }
}

} // verus!
