//! The command line: which word names which command, and what a command does
//! with its arguments and a store.

use crate::commands::{add, delete, list, mark, update};
use crate::error::{check_view, reply_view, CommandError, Failure};
use crate::models::list::{other_than, List, ListView};
use crate::models::task::Status;
use crate::models::timestamp::Instant;
use vstd::prelude::*;

verus! {

/// The commands.
#[derive(Clone, Copy, Debug, PartialEq, Eq, Structural)]
pub enum Command {
    /// `add <description>`
    Add,
    /// `update <id> <description...>`
    Update,
    /// `delete <id>`
    Delete,
    /// `mark-in-progress <id>`
    MarkInProgress,
    /// `mark-done <id>`
    MarkDone,
    /// `list [todo|in-progress|done]`
    List,
}

impl Command {
    /// The command that a word names. Any other word names none.
    pub open spec fn of_keyword(word: Seq<char>) -> Option<Command> {
        if word == "add"@ {
            Some(Command::Add)
        } else if word == "update"@ {
            Some(Command::Update)
        } else if word == "delete"@ {
            Some(Command::Delete)
        } else if word == "mark-in-progress"@ {
            Some(Command::MarkInProgress)
        } else if word == "mark-done"@ {
            Some(Command::MarkDone)
        } else if word == "list"@ {
            Some(Command::List)
        } else {
            None
        }
    }

    /// The command that the word `word` names.
    pub fn parse(word: &String) -> (command: Option<Command>)
        ensures
            command == Command::of_keyword(word@),
    {
        if *word == String::from_str("add") {
            Some(Command::Add)
        } else if *word == String::from_str("update") {
            Some(Command::Update)
        } else if *word == String::from_str("delete") {
            Some(Command::Delete)
        } else if *word == String::from_str("mark-in-progress") {
            Some(Command::MarkInProgress)
        } else if *word == String::from_str("mark-done") {
            Some(Command::MarkDone)
        } else if *word == String::from_str("list") {
            Some(Command::List)
        } else {
            None
        }
    }

    /// Whether a success of this command leaves a store that has to be written
    /// back. Listing only reads.
    pub open spec fn writes(self) -> bool {
        self != Command::List
    }
}

/// Why a command refuses its arguments before the store is looked at, if it
/// does. A caller that reads the store from a file reports this failure without
/// reading the file.
pub open spec fn rejection(command: Command, args: Seq<Seq<char>>) -> Option<Failure> {
    match command {
        Command::Add => add::rejection(args),
        Command::Update => update::rejection(args),
        Command::Delete => delete::rejection(args),
        Command::MarkInProgress => mark::rejection(args),
        Command::MarkDone => mark::rejection(args),
        Command::List => list::rejection(args),
    }
}

/// The one message of a command that answers with a message.
pub open spec fn single(reply: Result<Seq<char>, Failure>) -> Result<Seq<Seq<char>>, Failure> {
    match reply {
        Ok(message) => Ok(seq![message]),
        Err(failure) => Err(failure),
    }
}

/// What a command shows on the store `store`, piece by piece, or why it fails.
pub open spec fn output(command: Command, args: Seq<Seq<char>>, store: ListView) -> Result<
    Seq<Seq<char>>,
    Failure,
> {
    match command {
        Command::Add => single(add::reply(args, store)),
        Command::Update => single(update::reply(args, store)),
        Command::Delete => single(delete::reply(args, store)),
        Command::MarkInProgress => single(mark::reply(args, store)),
        Command::MarkDone => single(mark::reply(args, store)),
        Command::List => list::listing(args, store),
    }
}

/// The store after a command that ran at `now`.
pub open spec fn effect(
    command: Command,
    args: Seq<Seq<char>>,
    store: ListView,
    now: Instant,
) -> ListView {
    match command {
        Command::Add => add::effect(args, store, now),
        Command::Update => update::effect(args, store, now),
        Command::Delete => delete::effect(args, store),
        Command::MarkInProgress => mark::effect(args, Status::InProgress, store, now),
        Command::MarkDone => mark::effect(args, Status::Done, store, now),
        Command::List => store,
    }
}

/// What a command refuses without a store, it refuses on every store, with the
/// same failure.
pub proof fn lemma_rejected_on_every_store(
    command: Command,
    args: Seq<Seq<char>>,
    store: ListView,
    now: Instant,
)
    requires
        rejection(command, args) is Some,
    ensures
        output(command, args, store) == Err::<Seq<Seq<char>>, Failure>(
            rejection(command, args)->Some_0,
        ),
        effect(command, args, store, now) == store,
{
}

/// A command that fails leaves the store as it was.
pub proof fn lemma_failure_changes_nothing(
    command: Command,
    args: Seq<Seq<char>>,
    store: ListView,
    now: Instant,
)
    requires
        output(command, args, store) is Err,
    ensures
        effect(command, args, store, now) == store,
{
}

/// Every command keeps the store well formed: ids stay distinct and below
/// `next_id`. And `next_id` never goes down.
pub proof fn lemma_keeps_wf(command: Command, args: Seq<Seq<char>>, store: ListView, now: Instant)
    requires
        store.wf(),
    ensures
        effect(command, args, store, now).wf(),
        effect(command, args, store, now).next_id >= store.next_id,
{
    match command {
        Command::Add => add::lemma_keeps_wf(args, store, now),
        Command::Update => update::lemma_keeps_wf(args, store, now),
        Command::Delete => delete::lemma_keeps_wf(args, store),
        Command::MarkInProgress => mark::lemma_keeps_wf(args, Status::InProgress, store, now),
        Command::MarkDone => mark::lemma_keeps_wf(args, Status::Done, store, now),
        Command::List => {},
    }
}

/// No command takes a task back to `Todo`: a task that is `Todo` after a command
/// was `Todo` before it, at an id that the store already had, or is the task
/// that `add` has just appended.
pub proof fn lemma_never_back_to_todo(
    command: Command,
    args: Seq<Seq<char>>,
    store: ListView,
    now: Instant,
    j: int,
)
    requires
        0 <= j < effect(command, args, store, now).tasks.len(),
        effect(command, args, store, now).tasks[j].status == Status::Todo,
    ensures
        ({
            let after = effect(command, args, store, now).tasks[j];
            ||| exists|i: int|
                0 <= i < store.tasks.len() && (#[trigger] store.tasks[i]).id == after.id
                    && store.tasks[i].status == Status::Todo
            ||| command == Command::Add && j == store.tasks.len() && after.id == store.next_id
        }),
{
    let after = effect(command, args, store, now).tasks[j];
    match command {
        Command::Add => {
            if rejection(command, args) is None && j < store.tasks.len() {
                assert(store.tasks[j] == after);
            } else if rejection(command, args) is Some {
                assert(store.tasks[j] == after);
            }
        },
        Command::Update => {
            if update::reply(args, store) is Ok {
                update::lemma_changes_description_only(args, store, now);
                assert(store.tasks[j].id == after.id && store.tasks[j].status == after.status);
            } else {
                assert(store.tasks[j] == after);
            }
        },
        Command::Delete => {
            if delete::reply(args, store) is Ok {
                let rest = store.without(delete::target(args)).tasks;
                assert(rest.contains(rest[j]));
                store.tasks.lemma_filter_contains_rev(other_than(delete::target(args)), rest[j]);
                let i = choose|i: int| 0 <= i < store.tasks.len() && store.tasks[i] == rest[j];
                assert(store.tasks[i].id == after.id);
            } else {
                assert(store.tasks[j] == after);
            }
        },
        Command::MarkInProgress => {
            if mark::reply(args, store) is Ok {
                mark::lemma_sets_status_only(args, Status::InProgress, store, now);
                assert(store.tasks[j] == after);
            } else {
                assert(store.tasks[j] == after);
            }
        },
        Command::MarkDone => {
            if mark::reply(args, store) is Ok {
                mark::lemma_sets_status_only(args, Status::Done, store, now);
                assert(store.tasks[j] == after);
            } else {
                assert(store.tasks[j] == after);
            }
        },
        Command::List => {
            assert(store.tasks[j] == after);
        },
    }
}

/// What a command that succeeded leaves to its caller.
#[derive(Clone, Debug)]
pub struct Reply {
    /// The pieces to show, in order. Each is written to standard output and
    /// followed by a line feed.
    pub output: Vec<String>,
    /// Whether the store has to be written back.
    pub save: bool,
}

/// What `dispatch` returned, as a mathematical value.
pub open spec fn output_view(answer: Result<Reply, CommandError>) -> Result<
    Seq<Seq<char>>,
    Failure,
> {
    match answer {
        Ok(reply) => Ok(reply.output.deep_view()),
        Err(error) => Err(error@),
    }
}

/// Checks the arguments of a command without a store.
pub fn precheck(command: Command, args: &[String]) -> (checked: Result<(), CommandError>)
    ensures
        check_view(checked) == rejection(command, args.deep_view()),
{
    match command {
        Command::Add => add::check(args),
        Command::Update => match update::check(args) {
            Ok(_) => Ok(()),
            Err(error) => Err(error),
        },
        Command::Delete => match delete::check(args) {
            Ok(_) => Ok(()),
            Err(error) => Err(error),
        },
        Command::MarkInProgress => match mark::check(args) {
            Ok(_) => Ok(()),
            Err(error) => Err(error),
        },
        Command::MarkDone => match mark::check(args) {
            Ok(_) => Ok(()),
            Err(error) => Err(error),
        },
        Command::List => list::check(args),
    }
}

/// Wraps the one message of a command.
fn answer_with(answer: Result<String, CommandError>) -> (wrapped: Result<Reply, CommandError>)
    ensures
        output_view(wrapped) == single(reply_view(answer)),
        wrapped matches Ok(reply) ==> reply.save,
{
    match answer {
        Ok(message) => {
            let mut output: Vec<String> = Vec::new();
            output.push(message);
            proof {
                assert(output.deep_view() =~= seq![message@]);
            }
            Ok(Reply { output, save: true })
        },
        Err(error) => Err(error),
    }
}

/// Runs a command on the store.
///
/// For `add` with one argument the store's counter must have room for one more
/// id.
pub fn dispatch(command: Command, args: &[String], store: &mut List) -> (answer: Result<
    Reply,
    CommandError,
>)
    requires
        command == Command::Add && args.len() == 1 ==> old(store).next_id < usize::MAX,
    ensures
        output_view(answer) == output(command, args.deep_view(), old(store)@),
        exists|now: Instant|
            now.representable() && final(store)@ == #[trigger] effect(
                command,
                args.deep_view(),
                old(store)@,
                now,
            ),
        answer matches Ok(reply) ==> reply.save == command.writes(),
{
    let ghost before = store@;
    let ghost words = args.deep_view();
    match command {
        Command::Add => {
            let answer = add::run(args, store);
            proof {
                let now = choose|now: Instant|
                    now.representable() && store@ == #[trigger] add::effect(words, before, now);
                assert(store@ == effect(command, words, before, now));
            }
            answer_with(answer)
        },
        Command::Update => {
            let answer = update::run(args, store);
            proof {
                let now = choose|now: Instant|
                    now.representable() && store@ == #[trigger] update::effect(
                        words,
                        before,
                        now,
                    );
                assert(store@ == effect(command, words, before, now));
            }
            answer_with(answer)
        },
        Command::Delete => {
            let answer = delete::run(args, store);
            proof {
                let epoch = Instant { secs: 0, nanos: 0 };
                assert(store@ == effect(command, words, before, epoch));
            }
            answer_with(answer)
        },
        Command::MarkInProgress => {
            let answer = mark::in_progress(args, store);
            proof {
                let now = choose|now: Instant|
                    now.representable() && store@ == #[trigger] mark::effect(
                        words,
                        Status::InProgress,
                        before,
                        now,
                    );
                assert(store@ == effect(command, words, before, now));
            }
            answer_with(answer)
        },
        Command::MarkDone => {
            let answer = mark::done(args, store);
            proof {
                let now = choose|now: Instant|
                    now.representable() && store@ == #[trigger] mark::effect(
                        words,
                        Status::Done,
                        before,
                        now,
                    );
                assert(store@ == effect(command, words, before, now));
            }
            answer_with(answer)
        },
        Command::List => {
            proof {
                let epoch = Instant { secs: 0, nanos: 0 };
                assert(store@ == effect(command, words, before, epoch));
            }
            match list::run(args, store) {
                Ok(output) => Ok(Reply { output, save: false }),
                Err(error) => Err(error),
            }
        },
    }
}

} // verus!
