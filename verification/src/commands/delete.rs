//! Deleting a task.

use crate::error::{reply_view, CommandError, ErrorKind, Failure};
use crate::models::list::{List, ListView};
use crate::text::{decimal, decimal_text, parse_decimal, parse_usize};
use vstd::prelude::*;

verus! {

/// The failure for a wrong number of arguments.
pub open spec fn usage() -> Failure {
    Failure { kind: ErrorKind::InvalidUsage, message: "Usage: delete <id>"@ }
}

/// The failure for an id that is not a number that fits.
pub open spec fn invalid_id() -> Failure {
    Failure { kind: ErrorKind::InvalidId, message: "Invalid task id"@ }
}

/// The failure for an id that no task has.
pub open spec fn not_found() -> Failure {
    Failure {
        kind: ErrorKind::NotFound,
        message: "Task not found. It may have been deleted or the id is invalid"@,
    }
}

/// Why the arguments are refused before the store is looked at, if they are:
/// the command takes exactly one argument, and it must be an id.
pub open spec fn rejection(args: Seq<Seq<char>>) -> Option<Failure> {
    if args.len() != 1 {
        Some(usage())
    } else if parse_decimal(args[0], usize::MAX as nat) is Err {
        Some(invalid_id())
    } else {
        None
    }
}

/// The id that accepted arguments name.
pub open spec fn target(args: Seq<Seq<char>>) -> nat
    recommends
        rejection(args) is None,
{
    parse_decimal(args[0], usize::MAX as nat)->Ok_0
}

/// What the command answers.
pub open spec fn reply(args: Seq<Seq<char>>, store: ListView) -> Result<Seq<char>, Failure> {
    match rejection(args) {
        Some(failure) => Err(failure),
        None => if store.has_id(target(args)) {
            Ok("Task deleted successfully (ID: "@ + decimal_text(target(args)) + ")"@)
        } else {
            Err(not_found())
        },
    }
}

/// The store after the command: without the task that has the id. A command
/// that fails changes nothing.
pub open spec fn effect(args: Seq<Seq<char>>, store: ListView) -> ListView {
    if reply(args, store) is Ok {
        store.without(target(args))
    } else {
        store
    }
}

/// Checks the arguments alone, and reads the id from them.
pub fn check(args: &[String]) -> (checked: Result<usize, CommandError>)
    ensures
        match checked {
            Ok(id) => rejection(args.deep_view()) is None && id == target(args.deep_view()),
            Err(error) => rejection(args.deep_view()) == Some(error@),
        },
{
    if args.len() != 1 {
        return Err(CommandError::new(ErrorKind::InvalidUsage, "Usage: delete <id>"));
    }
    match parse_usize(args[0].as_str()) {
        Ok(id) => Ok(id),
        Err(_) => Err(CommandError::new(ErrorKind::InvalidId, "Invalid task id")),
    }
}

/// Deletes the task whose id is `args[0]` from the store.
pub fn run(args: &[String], store: &mut List) -> (answer: Result<String, CommandError>)
    ensures
        reply_view(answer) == reply(args.deep_view(), old(store)@),
        final(store)@ == effect(args.deep_view(), old(store)@),
{
    let id: usize = match check(args) {
        Ok(id) => id,
        Err(error) => {
            return Err(error);
        },
    };
    if !store.remove(id) {
        proof {
            old(store)@.lemma_without_absent(id as nat);
        }
        return Err(
            CommandError::new(
                ErrorKind::NotFound,
                "Task not found. It may have been deleted or the id is invalid",
            ),
        );
    }
    let mut message: String = String::from_str("Task deleted successfully (ID: ");
    message.append(decimal(id).as_str());
    message.append(")");
    Ok(message)
}

/// Deleting an id that no task has fails with not-found and leaves the store
/// as it was.
pub proof fn lemma_absent_id(args: Seq<Seq<char>>, store: ListView)
    requires
        rejection(args) is None,
        !store.has_id(target(args)),
    ensures
        reply(args, store) == Err::<Seq<char>, Failure>(not_found()),
        effect(args, store) == store,
{
}

/// After a delete that succeeded, the same delete fails with not-found and
/// leaves the store as the first one left it.
pub proof fn lemma_second_delete(args: Seq<Seq<char>>, store: ListView)
    requires
        reply(args, store) is Ok,
    ensures
        reply(args, effect(args, store)) == Err::<Seq<char>, Failure>(not_found()),
        effect(args, effect(args, store)) == effect(args, store),
{
    store.lemma_without_has_no(target(args));
}

/// A delete keeps the store well formed, and keeps `next_id`.
pub proof fn lemma_keeps_wf(args: Seq<Seq<char>>, store: ListView)
    requires
        store.wf(),
    ensures
        effect(args, store).wf(),
        effect(args, store).next_id == store.next_id,
{
    if reply(args, store) is Ok {
        store.lemma_without_keeps_wf(target(args));
    }
}

} // verus!
