//! One task: what is to be done, how far it is, and when it was written down
//! and last changed.

use crate::models::timestamp::{instant_text, Instant, Timestamp};
use crate::text::{decimal, decimal_text};
use vstd::prelude::*;

verus! {

/// How far a task is.
#[derive(Clone, Copy, Debug, PartialEq, Eq, Structural)]
pub enum Status {
    /// Not started.
    Todo,
    /// Being worked on.
    InProgress,
    /// Finished.
    Done,
}

impl Status {
    /// The words shown to the user for this status.
    pub open spec fn label(self) -> Seq<char> {
        match self {
            Status::Todo => "To do"@,
            Status::InProgress => "In Progress"@,
            Status::Done => "Done"@,
        }
    }

    /// The words shown to the user for this status.
    pub fn to_string(&self) -> (text: String)
        ensures
            text@ == self.label(),
    {
        match self {
            Status::Todo => String::from_str("To do"),
            Status::InProgress => String::from_str("In Progress"),
            Status::Done => String::from_str("Done"),
        }
    }
}

impl Default for Status {
    /// A task starts as `Todo`.
    fn default() -> (status: Status)
        ensures
            status == Status::Todo,
    {
        Status::Todo
    }
}

/// A task as a mathematical value.
pub struct TaskView {
    pub id: nat,
    pub description: Seq<char>,
    pub status: Status,
    pub created_at: Instant,
    pub updated_at: Instant,
}

impl TaskView {
    /// The task as it is when first written down at `now`: not started, and
    /// both timestamps the same reading of the clock.
    pub open spec fn fresh(id: nat, description: Seq<char>, now: Instant) -> TaskView {
        TaskView { id, description, status: Status::Todo, created_at: now, updated_at: now }
    }

    /// The task with a new description, changed at `now`.
    pub open spec fn described(self, description: Seq<char>, now: Instant) -> TaskView {
        TaskView { description, updated_at: now, ..self }
    }

    /// The task with a new status, changed at `now`.
    pub open spec fn marked(self, status: Status, now: Instant) -> TaskView {
        TaskView { status, updated_at: now, ..self }
    }

    /// A task was not changed before it was created.
    pub open spec fn wf(self) -> bool {
        self.created_at.le(self.updated_at)
    }

    /// The five lines shown for a task, each ended by a line feed.
    pub open spec fn rendering(self) -> Seq<char> {
        "ID: "@ + decimal_text(self.id) + "\n"@
            + "Description: "@ + self.description + "\n"@
            + "Status: "@ + self.status.label() + "\n"@
            + "Created: "@ + instant_text(self.created_at.secs, self.created_at.nanos) + "\n"@
            + "Updated: "@ + instant_text(self.updated_at.secs, self.updated_at.nanos) + "\n"@
    }
}

/// One task of the store.
#[derive(Clone, Debug)]
pub struct Task {
    /// Identifies the task within its store; given once, never changed.
    pub id: usize,
    /// What is to be done. Any text, the empty one too.
    pub description: String,
    /// How far the task is.
    pub status: Status,
    /// When the task was written down.
    pub created_at: Timestamp,
    /// When the description or the status last changed.
    pub updated_at: Timestamp,
}

impl View for Task {
    type V = TaskView;

    open spec fn view(&self) -> TaskView {
        TaskView {
            id: self.id as nat,
            description: self.description@,
            status: self.status,
            created_at: self.created_at@,
            updated_at: self.updated_at@,
        }
    }
}

impl Task {
    /// A task written down at `now`.
    pub fn new_at(id: usize, description: String, now: Timestamp) -> (task: Task)
        ensures
            task@ == TaskView::fresh(id as nat, description@, now@),
            task@.wf(),
    {
        Task { id, description, status: Status::default(), created_at: now, updated_at: now }
    }

    /// A task written down now. The clock is read once, so both timestamps are
    /// the same instant.
    pub fn new(id: usize, description: String) -> (task: Task)
        ensures
            task@ == TaskView::fresh(id as nat, description@, task@.created_at),
            task@.created_at.representable(),
            task@.wf(),
    {
        let now: Timestamp = Timestamp::now();
        Task::new_at(id, description, now)
    }

    /// Replaces the description and records `now` as the time of the change.
    pub fn describe(&mut self, description: String, now: Timestamp)
        ensures
            final(self)@ == old(self)@.described(description@, now@),
            old(self)@.created_at.le(now@) ==> final(self)@.wf(),
    {
        self.description = description;
        self.updated_at = now;
    }

    /// Sets the status and records `now` as the time of the change.
    pub fn mark(&mut self, status: Status, now: Timestamp)
        ensures
            final(self)@ == old(self)@.marked(status, now@),
            old(self)@.created_at.le(now@) ==> final(self)@.wf(),
    {
        self.status = status;
        self.updated_at = now;
    }

    /// The five lines shown for the task.
    pub fn to_string(&self) -> (text: String)
        ensures
            text@ == self@.rendering(),
    {
        let mut text: String = String::from_str("ID: ");
        text.append(decimal(self.id).as_str());
        text.append("\n");
        text.append("Description: ");
        text.append(self.description.as_str());
        text.append("\n");
        text.append("Status: ");
        text.append(self.status.to_string().as_str());
        text.append("\n");
        text.append("Created: ");
        text.append(self.created_at.to_string().as_str());
        text.append("\n");
        text.append("Updated: ");
        text.append(self.updated_at.to_string().as_str());
        text.append("\n");
        text
    }
}

} // verus!
