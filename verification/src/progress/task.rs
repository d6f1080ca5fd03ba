//! Progress tasks: their state, the events every change emits, and a builder.
//! A task is a value; every operation returns the event it emits, which the
//! caller hands to its reporters.  Clock readings are nanoseconds supplied by
//! the caller.
use vstd::prelude::*;
use crate::text::{kv_find, kv_get, kv_set, owned};

verus! {

/// Identifier of a task.
pub type TaskId = u64;

/// Where a task stands.
#[derive(PartialEq, Eq, Structural, Clone, Copy, Debug)]
pub enum ProgressState {
    Running,
    Complete,
    Failed,
    Cancelled,
}

/// The state is final: complete, failed or cancelled.
pub open spec fn finished(s: ProgressState) -> bool {
    s != ProgressState::Running
}

/// What a task reports after a change.
#[derive(Clone, Debug)]
pub struct ProgressEvent {
    pub task_id: TaskId,
    /// Clock reading of the change, in nanoseconds.
    pub timestamp: u128,
    pub current: u64,
    pub total: Option<u64>,
    pub message: Option<String>,
    pub state: ProgressState,
}

/// Something that shows progress events.
pub trait ProgressReporter {
    /// Shows one event.
    fn report(&self, event: &ProgressEvent);

    /// Whether the reporter shows changes as they happen.
    fn supports_realtime(&self) -> (r: bool)
        default_ensures
            r,
    {
        true
    }

    /// The reporter's name.
    fn name(&self) -> (r: &'static str)
        default_ensures
            r@ == "unknown"@,
    {
        "unknown"
    }
}

/// A task whose progress is being tracked.
#[derive(Clone, Debug)]
pub struct ProgressTask {
    id: TaskId,
    current: u64,
    total: Option<u64>,
    message: String,
    state: ProgressState,
    created_at: u128,
    updated_at: u128,
}

/// `b` is `a` with the same identity, total and clock readings.
pub open spec fn same_task(a: ProgressTask, b: ProgressTask) -> bool {
    &&& b.spec_id() == a.spec_id()
    &&& b.spec_total() == a.spec_total()
    &&& b.spec_created_at() == a.spec_created_at()
    &&& b.spec_updated_at() == a.spec_updated_at()
}

/// `b` is `a` with its progress set to `current` and its message to `message`.
pub open spec fn is_update(a: ProgressTask, b: ProgressTask, current: u64, message: Seq<char>) -> bool {
    &&& same_task(a, b)
    &&& b.spec_current() == current
    &&& b.spec_message() == message
    &&& b.spec_state() == a.spec_state()
}

/// `b` is `a` with the clock reading of its latest change set to `now`.
pub open spec fn is_touch(a: ProgressTask, b: ProgressTask, now: u128) -> bool {
    &&& b.spec_id() == a.spec_id()
    &&& b.spec_current() == a.spec_current()
    &&& b.spec_total() == a.spec_total()
    &&& b.spec_message() == a.spec_message()
    &&& b.spec_state() == a.spec_state()
    &&& b.spec_created_at() == a.spec_created_at()
    &&& b.spec_updated_at() == now
}

/// `b` is `a` with its message set to `message`.
pub open spec fn is_message_update(a: ProgressTask, b: ProgressTask, message: Seq<char>) -> bool {
    &&& same_task(a, b)
    &&& b.spec_current() == a.spec_current()
    &&& b.spec_message() == message
    &&& b.spec_state() == a.spec_state()
}

/// `b` is `a` advanced by one, its message replaced where one is given.
pub open spec fn is_increment(a: ProgressTask, b: ProgressTask, message: Option<Seq<char>>) -> bool {
    &&& same_task(a, b)
    &&& b.spec_current() == a.spec_current() + 1
    &&& b.spec_message() == (match message {
        Some(m) => m,
        None => a.spec_message(),
    })
    &&& b.spec_state() == a.spec_state()
}

/// `b` is `a` completed with `message`: with a known total its progress is
/// the total.
pub open spec fn is_completion(a: ProgressTask, b: ProgressTask, message: Seq<char>) -> bool {
    &&& same_task(a, b)
    &&& b.spec_current() == (match a.spec_total() {
        Some(t) => t,
        None => a.spec_current(),
    })
    &&& b.spec_message() == message
    &&& b.spec_state() == ProgressState::Complete
}

/// `b` is `a` ended in state `state` with `message`, its progress unchanged.
pub open spec fn is_ending(a: ProgressTask, b: ProgressTask, state: ProgressState, message: Seq<char>) -> bool {
    &&& same_task(a, b)
    &&& b.spec_current() == a.spec_current()
    &&& b.spec_message() == message
    &&& b.spec_state() == state
}

impl ProgressTask {
    pub closed spec fn spec_id(&self) -> TaskId {
        self.id
    }

    pub closed spec fn spec_current(&self) -> u64 {
        self.current
    }

    pub closed spec fn spec_total(&self) -> Option<u64> {
        self.total
    }

    pub closed spec fn spec_message(&self) -> Seq<char> {
        self.message@
    }

    pub closed spec fn spec_state(&self) -> ProgressState {
        self.state
    }

    pub closed spec fn spec_created_at(&self) -> u128 {
        self.created_at
    }

    pub closed spec fn spec_updated_at(&self) -> u128 {
        self.updated_at
    }

    /// `e` is the event of the task in its present state.
    pub open spec fn event_of(&self, e: ProgressEvent) -> bool {
        &&& e.task_id == self.spec_id()
        &&& e.timestamp == self.spec_updated_at()
        &&& e.current == self.spec_current()
        &&& e.total == self.spec_total()
        &&& e.message matches Some(m) && m@ == self.spec_message()
        &&& e.state == self.spec_state()
    }

    /// The event reporting the task in its present state.
    pub fn event(&self) -> (e: ProgressEvent)
        ensures
            self.event_of(e),
    {
        ProgressEvent {
            task_id: self.id,
            timestamp: self.updated_at,
            current: self.current,
            total: self.total,
            message: Some(self.message.clone()),
            state: self.state,
        }
    }

    /// A running task at zero, titled `title`, created at clock reading `now`.
    pub fn new(id: TaskId, title: &str, total: Option<u64>, now: u128) -> (t: Self)
        ensures
            t.spec_id() == id,
            t.spec_current() == 0,
            t.spec_total() == total,
            t.spec_message() == title@,
            t.spec_state() == ProgressState::Running,
            t.spec_created_at() == now,
            t.spec_updated_at() == now,
    {
        ProgressTask {
            id,
            current: 0,
            total,
            message: owned(title),
            state: ProgressState::Running,
            created_at: now,
            updated_at: now,
        }
    }

    /// An exact copy of the task.
    pub fn snapshot(&self) -> (t: Self)
        ensures
            t == *self,
    {
        ProgressTask {
            id: self.id,
            current: self.current,
            total: self.total,
            message: self.message.clone(),
            state: self.state,
            created_at: self.created_at,
            updated_at: self.updated_at,
        }
    }

    /// Records the clock reading of the latest change.
    pub fn touch(&mut self, now: u128)
        ensures
            final(self).spec_updated_at() == now,
            final(self).spec_id() == old(self).spec_id(),
            final(self).spec_current() == old(self).spec_current(),
            final(self).spec_total() == old(self).spec_total(),
            final(self).spec_message() == old(self).spec_message(),
            final(self).spec_state() == old(self).spec_state(),
            final(self).spec_created_at() == old(self).spec_created_at(),
    {
        self.updated_at = now;
    }

    /// Sets the progress and the message.
    pub fn update(&mut self, current: u64, message: &str) -> (e: ProgressEvent)
        ensures
            is_update(*old(self), *final(self), current, message@),
            final(self).event_of(e),
    {
        self.current = current;
        self.message = owned(message);
        self.event()
    }

    /// Sets the message alone.
    pub fn update_message(&mut self, message: &str) -> (e: ProgressEvent)
        ensures
            is_message_update(*old(self), *final(self), message@),
            final(self).event_of(e),
    {
        self.message = owned(message);
        self.event()
    }

    /// Advances the progress by one, with a new message if one is given.
    pub fn increment(&mut self, message: Option<&str>) -> (e: ProgressEvent)
        requires
            old(self).spec_current() < u64::MAX,
        ensures
            is_increment(
                *old(self),
                *final(self),
                match message {
                    Some(m) => Some(m@),
                    None => None,
                },
            ),
            final(self).event_of(e),
    {
        self.current = self.current + 1;
        if let Some(m) = message {
            self.message = owned(m);
        }
        self.event()
    }

    /// Completes the task; with a known total the progress becomes the total.
    pub fn complete(&mut self, message: &str) -> (e: ProgressEvent)
        ensures
            is_completion(*old(self), *final(self), message@),
            final(self).event_of(e),
    {
        self.message = owned(message);
        self.state = ProgressState::Complete;
        if let Some(t) = self.total {
            self.current = t;
        }
        self.event()
    }

    /// Marks the task as failed.
    pub fn fail(&mut self, error_message: &str) -> (e: ProgressEvent)
        ensures
            is_ending(*old(self), *final(self), ProgressState::Failed, error_message@),
            final(self).event_of(e),
    {
        self.message = owned(error_message);
        self.state = ProgressState::Failed;
        self.event()
    }

    /// Cancels the task.
    pub fn cancel(&mut self, reason: &str) -> (e: ProgressEvent)
        ensures
            is_ending(*old(self), *final(self), ProgressState::Cancelled, reason@),
            final(self).event_of(e),
    {
        self.message = owned(reason);
        self.state = ProgressState::Cancelled;
        self.event()
    }

    /// The progress so far.
    pub fn current_progress(&self) -> (r: u64)
        ensures
            r == self.spec_current(),
    {
        self.current
    }

    /// The total, where known.
    pub fn total_progress(&self) -> (r: Option<u64>)
        ensures
            r == self.spec_total(),
    {
        self.total
    }

    /// Where the task stands.
    pub fn state(&self) -> (r: ProgressState)
        ensures
            r == self.spec_state(),
    {
        self.state
    }

    /// The latest message.
    pub fn message(&self) -> (r: String)
        ensures
            r@ == self.spec_message(),
    {
        self.message.clone()
    }

    /// The task's identifier.
    pub fn id(&self) -> (r: TaskId)
        ensures
            r == self.spec_id(),
    {
        self.id
    }

    /// Nanoseconds from the task's creation to its latest recorded change
    /// (zero if the clock went back).
    pub fn elapsed(&self) -> (r: u128)
        ensures
            r == (if self.spec_updated_at() >= self.spec_created_at() {
                (self.spec_updated_at() - self.spec_created_at()) as u128
            } else {
                0u128
            }),
    {
        if self.updated_at >= self.created_at {
            self.updated_at - self.created_at
        } else {
            0
        }
    }

    /// Whether the task is complete, failed or cancelled.
    pub fn is_finished(&self) -> (r: bool)
        ensures
            r == finished(self.spec_state()),
    {
        match self.state {
            ProgressState::Running => false,
            _ => true,
        }
    }
}

/// Collects a task's title, total and metadata before it starts.
#[derive(Debug)]
pub struct TaskBuilder {
    title: String,
    total: Option<u64>,
    metadata: Vec<(String, String)>,
}

impl TaskBuilder {
    pub closed spec fn spec_title(&self) -> Seq<char> {
        self.title@
    }

    pub closed spec fn spec_total(&self) -> Option<u64> {
        self.total
    }

    /// The metadata value of `key`, if set.
    pub closed spec fn spec_metadata(&self, key: Seq<char>) -> Option<Seq<char>> {
        kv_get(self.metadata@, key)
    }

    /// A builder for a task titled `title`, with no total and no metadata.
    pub fn new(title: &str) -> (b: Self)
        ensures
            b.spec_title() == title@,
            b.spec_total() is None,
            forall|k: Seq<char>| b.spec_metadata(k) is None,
    {
        TaskBuilder { title: owned(title), total: None, metadata: Vec::new() }
    }

    /// Sets the total.
    pub fn with_total(self, total: u64) -> (b: Self)
        ensures
            b.spec_total() == Some(total),
            b.spec_title() == self.spec_title(),
            forall|k: Seq<char>| b.spec_metadata(k) == self.spec_metadata(k),
    {
        let mut b = self;
        b.total = Some(total);
        b
    }

    /// Sets the metadata value of `key`.
    pub fn with_metadata(self, key: &str, value: &str) -> (b: Self)
        ensures
            b.spec_metadata(key@) == Some(value@),
            forall|k: Seq<char>| k != key@ ==> b.spec_metadata(k) == self.spec_metadata(k),
            b.spec_title() == self.spec_title(),
            b.spec_total() == self.spec_total(),
    {
        let mut b = self;
        kv_set(&mut b.metadata, key, owned(value));
        b
    }

    /// The title.
    pub fn title(&self) -> (r: &str)
        ensures
            r@ == self.spec_title(),
    {
        self.title.as_str()
    }

    /// The total, if set.
    pub fn total(&self) -> (r: Option<u64>)
        ensures
            r == self.spec_total(),
    {
        self.total
    }

    /// The metadata value of `key`, if set.
    pub fn get_metadata(&self, key: &str) -> (r: Option<&String>)
        ensures
            match r {
                Some(v) => self.spec_metadata(key@) == Some(v@),
                None => self.spec_metadata(key@) is None,
            },
    {
        kv_find(&self.metadata, key)
    }

    /// The task described, with identifier `id`, started at clock reading
    /// `now`.
    pub fn build(self, id: TaskId, now: u128) -> (t: ProgressTask)
        ensures
            t.spec_id() == id,
            t.spec_current() == 0,
            t.spec_total() == self.spec_total(),
            t.spec_message() == self.spec_title(),
            t.spec_state() == ProgressState::Running,
            t.spec_created_at() == now,
            t.spec_updated_at() == now,
    {
        ProgressTask::new(id, self.title.as_str(), self.total, now)
    }
}

} // verus!
