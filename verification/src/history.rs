//! What a sequence of commands does to a store.

use crate::cli::{effect, lemma_keeps_wf, Command};
use crate::commands::add;
use crate::models::list::ListView;
use crate::models::timestamp::Instant;
use vstd::prelude::*;

verus! {

/// One run of a command: the command, its arguments, and what the clock said.
pub struct Run {
    pub command: Command,
    pub args: Seq<Seq<char>>,
    pub now: Instant,
}

impl Run {
    /// Whether the run adds a task: it is an `add` whose arguments are accepted.
    pub open spec fn adds(self) -> bool {
        self.command == Command::Add && add::rejection(self.args) is None
    }
}

/// The store after the runs, one after the other, starting from `store`.
pub open spec fn replay(store: ListView, runs: Seq<Run>) -> ListView
    decreases runs.len(),
{
    if runs.len() == 0 {
        store
    } else {
        let run = runs.last();
        effect(run.command, run.args, replay(store, runs.drop_last()), run.now)
    }
}

/// The ids that the runs give to the tasks that they add, in the order of the
/// runs.
pub open spec fn issued(store: ListView, runs: Seq<Run>) -> Seq<nat>
    decreases runs.len(),
{
    if runs.len() == 0 {
        Seq::empty()
    } else {
        let earlier = issued(store, runs.drop_last());
        if runs.last().adds() {
            earlier.push(replay(store, runs.drop_last()).next_id)
        } else {
            earlier
        }
    }
}

/// The ids that are given out count up from the store's `next_id` by one, and
/// `next_id` ends one above the last of them, whatever other commands run in
/// between, deletes among them.
pub proof fn lemma_ids_count_up(store: ListView, runs: Seq<Run>)
    ensures
        forall|k: int|
            0 <= k < issued(store, runs).len() ==> #[trigger] issued(store, runs)[k]
                == store.next_id + k,
        replay(store, runs).next_id == store.next_id + issued(store, runs).len(),
    decreases runs.len(),
{
    if runs.len() > 0 {
        lemma_ids_count_up(store, runs.drop_last());
    }
}

/// Starting from the empty store, the tasks that are added get the ids 1, 2,
/// and so on in the order of the runs, and after N of them `next_id` is N + 1.
pub proof fn lemma_ids_from_empty(runs: Seq<Run>)
    ensures
        issued(ListView::empty(), runs) == Seq::new(
            issued(ListView::empty(), runs).len(),
            |k: int| (k + 1) as nat,
        ),
        replay(ListView::empty(), runs).next_id == issued(ListView::empty(), runs).len() + 1,
{
    lemma_ids_count_up(ListView::empty(), runs);
    assert(issued(ListView::empty(), runs) =~= Seq::new(
        issued(ListView::empty(), runs).len(),
        |k: int| (k + 1) as nat,
    ));
}

/// A store that is well formed stays so through any runs.
pub proof fn lemma_replay_keeps_wf(store: ListView, runs: Seq<Run>)
    requires
        store.wf(),
    ensures
        replay(store, runs).wf(),
    decreases runs.len(),
{
    if runs.len() > 0 {
        lemma_replay_keeps_wf(store, runs.drop_last());
        let run = runs.last();
        lemma_keeps_wf(run.command, run.args, replay(store, runs.drop_last()), run.now);
    }
}

} // verus!
