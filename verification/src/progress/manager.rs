//! The manager of several progress tasks: it hands out identifiers, keeps the
//! tasks, applies changes to them by identifier and drops finished ones.
use vstd::prelude::*;
use crate::progress::styles::{style_total, ProgressStyle};
use crate::progress::task::{
    finished, is_completion, is_ending, is_increment, is_message_update, is_touch, is_update, ProgressEvent,
    ProgressState, ProgressTask, TaskBuilder, TaskId,
};

verus! {

/// The tasks of `s` that are still running, in order.
pub open spec fn unfinished(s: Seq<ProgressTask>) -> Seq<ProgressTask>
    decreases s.len(),
{
    if s.len() == 0 {
        Seq::empty()
    } else if finished(s.last().spec_state()) {
        unfinished(s.drop_last())
    } else {
        unfinished(s.drop_last()).push(s.last())
    }
}

/// The task at `i` in `old` has identifier `id`, became the one at `i` in
/// `new` by `step`, and nothing else changed.
pub open spec fn changed_at_index(
    old: Seq<ProgressTask>,
    new: Seq<ProgressTask>,
    i: int,
    id: TaskId,
    step: spec_fn(ProgressTask, ProgressTask) -> bool,
) -> bool {
    &&& 0 <= i < old.len()
    &&& old[i].spec_id() == id
    &&& new.len() == old.len()
    &&& new == old.update(i, new[i])
    &&& step(old[i], new[i])
}

/// The task with identifier `id` changed by `step`, nothing else.
pub open spec fn changed_task(
    old: Seq<ProgressTask>,
    new: Seq<ProgressTask>,
    id: TaskId,
    step: spec_fn(ProgressTask, ProgressTask) -> bool,
) -> bool {
    exists|i: int| #[trigger] changed_at_index(old, new, i, id, step)
}

/// Some task of `s` has identifier `id`.
pub open spec fn has_task(s: Seq<ProgressTask>, id: TaskId) -> bool {
    exists|i: int| 0 <= i < s.len() && #[trigger] s[i].spec_id() == id
}

/// Lemma: the unfinished tasks of a sequence with one more task.
proof fn lemma_unfinished_take(s: Seq<ProgressTask>, i: int)
    requires
        0 <= i < s.len(),
    ensures
        unfinished(s.take(i + 1)) == (if finished(s[i].spec_state()) {
            unfinished(s.take(i))
        } else {
            unfinished(s.take(i)).push(s[i])
        }),
{
    assert(s.take(i + 1).drop_last() =~= s.take(i));
}

/// Lemma: every task kept as unfinished is one of `s`, still running.
proof fn lemma_unfinished_members(s: Seq<ProgressTask>)
    ensures
        unfinished(s).len() <= s.len(),
        forall|j: int|
            0 <= j < unfinished(s).len() ==> !finished(#[trigger] unfinished(s)[j].spec_state())
                && s.contains(unfinished(s)[j]),
    decreases s.len(),
{
    if s.len() > 0 {
        lemma_unfinished_members(s.drop_last());
        assert forall|j: int| 0 <= j < unfinished(s).len() implies !finished(
            #[trigger] unfinished(s)[j].spec_state(),
        ) && s.contains(unfinished(s)[j]) by {
            let r = unfinished(s.drop_last());
            if j < r.len() {
                let k = choose|k: int| 0 <= k < s.drop_last().len() && s.drop_last()[k] == r[j];
                assert(s[k] == r[j]);
            } else {
                assert(s[s.len() - 1] == s.last());
            }
        }
    }
}

/// Several progress tasks under one owner.
pub struct ProgressManager {
    next_task_id: u64,
    tasks: Vec<ProgressTask>,
    enabled: bool,
}

impl ProgressManager {
    /// The tasks, oldest first.
    pub closed spec fn spec_tasks(&self) -> Seq<ProgressTask> {
        self.tasks@
    }

    /// The identifier the next task gets.
    pub closed spec fn spec_next_id(&self) -> u64 {
        self.next_task_id
    }

    pub closed spec fn spec_enabled(&self) -> bool {
        self.enabled
    }

    /// Identifiers are handed out from one upwards: every task's is below the
    /// next one, and they rise from the oldest task to the newest.
    pub open spec fn wf(&self) -> bool {
        &&& self.spec_next_id() >= 1
        &&& forall|i: int|
            0 <= i < self.spec_tasks().len() ==> 1 <= #[trigger] self.spec_tasks()[i].spec_id()
                < self.spec_next_id()
        &&& forall|i: int, j: int|
            0 <= i < j < self.spec_tasks().len() ==> #[trigger] self.spec_tasks()[i].spec_id()
                < #[trigger] self.spec_tasks()[j].spec_id()
    }

    /// An enabled manager without tasks.
    pub fn new() -> (m: Self)
        ensures
            m.wf(),
            m.spec_enabled(),
            m.spec_tasks().len() == 0,
            m.spec_next_id() == 1,
    {
        ProgressManager { next_task_id: 1, tasks: Vec::new(), enabled: true }
    }

    /// A disabled manager: its tasks are not tracked.
    pub fn disabled() -> (m: Self)
        ensures
            m.wf(),
            !m.spec_enabled(),
            m.spec_tasks().len() == 0,
            m.spec_next_id() == 1,
    {
        ProgressManager { next_task_id: 1, tasks: Vec::new(), enabled: false }
    }

    /// Same as `new`.
    pub fn default() -> (m: Self)
        ensures
            m.wf(),
            m.spec_enabled(),
            m.spec_tasks().len() == 0,
            m.spec_next_id() == 1,
    {
        Self::new()
    }

    /// Turns tracking on or off.
    pub fn set_enabled(&mut self, enabled: bool)
        ensures
            final(self).spec_enabled() == enabled,
            final(self).spec_tasks() == old(self).spec_tasks(),
            final(self).spec_next_id() == old(self).spec_next_id(),
    {
        self.enabled = enabled;
    }

    /// Whether tasks are tracked.
    pub fn is_enabled(&self) -> (r: bool)
        ensures
            r == self.spec_enabled(),
    {
        self.enabled
    }

    /// Starts a task titled `title` at clock reading `now`, with the total of
    /// `style` if it has one, and returns a copy of it.  A disabled manager
    /// tracks nothing and hands out an untracked task with identifier 0.
    pub fn start_task(&mut self, title: &str, style: &ProgressStyle, now: u128) -> (t: ProgressTask)
        requires
            old(self).wf(),
            old(self).spec_enabled() ==> old(self).spec_next_id() < u64::MAX,
        ensures
            final(self).wf(),
            final(self).spec_enabled() == old(self).spec_enabled(),
            t.spec_message() == title@,
            t.spec_current() == 0,
            t.spec_state() == ProgressState::Running,
            t.spec_created_at() == now,
            t.spec_updated_at() == now,
            old(self).spec_enabled() ==> {
                &&& t.spec_id() == old(self).spec_next_id()
                &&& t.spec_total() == style_total(*style)
                &&& final(self).spec_tasks() == old(self).spec_tasks().push(t)
                &&& final(self).spec_next_id() == old(self).spec_next_id() + 1
            },
            !old(self).spec_enabled() ==> {
                &&& t.spec_id() == 0
                &&& t.spec_total() is None
                &&& final(self).spec_tasks() == old(self).spec_tasks()
                &&& final(self).spec_next_id() == old(self).spec_next_id()
            },
    {
        if !self.enabled {
            return ProgressTask::new(0, title, None, now);
        }
        let id = self.next_task_id;
        self.next_task_id = self.next_task_id + 1;
        let task = ProgressTask::new(id, title, style.total(), now);
        let copy = task.snapshot();
        let ghost before = self.tasks@;
        self.tasks.push(task);
        proof {
            assert forall|a: int, b: int|
                0 <= a < b < self.tasks@.len() implies #[trigger] self.tasks@[a].spec_id()
                < #[trigger] self.tasks@[b].spec_id() by {
                assert(old(self).spec_tasks()[a].spec_id() < old(self).spec_next_id());
                if b == before.len() {
                    assert(self.tasks@[a] == before[a]);
                    assert(self.tasks@[b] == copy);
                } else {
                    assert(self.tasks@[a] == before[a]);
                    assert(self.tasks@[b] == before[b]);
                }
            }
            assert forall|a: int| 0 <= a < self.tasks@.len() implies 1 <= #[trigger] self.tasks@[a].spec_id()
                < self.next_task_id by {
                if a < before.len() {
                    assert(self.tasks@[a] == before[a]);
                    assert(old(self).spec_tasks()[a].spec_id() < old(self).spec_next_id());
                } else {
                    assert(self.tasks@[a] == copy);
                }
            }
        }
        copy
    }

    /// Starts the task `builder` describes at clock reading `now`, taking the
    /// total of `style` where it has one, and returns a copy of it.  A
    /// disabled manager hands out an untracked task titled `disabled`.
    pub fn start_task_with_builder(
        &mut self,
        builder: TaskBuilder,
        style: &ProgressStyle,
        now: u128,
    ) -> (t: ProgressTask)
        requires
            old(self).wf(),
            old(self).spec_enabled() ==> old(self).spec_next_id() < u64::MAX,
        ensures
            final(self).wf(),
            final(self).spec_enabled() == old(self).spec_enabled(),
            t.spec_current() == 0,
            t.spec_state() == ProgressState::Running,
            t.spec_created_at() == now,
            t.spec_updated_at() == now,
            old(self).spec_enabled() ==> {
                &&& t.spec_id() == old(self).spec_next_id()
                &&& t.spec_message() == builder.spec_title()
                &&& t.spec_total() == (match style_total(*style) {
                    Some(n) => Some(n),
                    None => builder.spec_total(),
                })
                &&& final(self).spec_tasks() == old(self).spec_tasks().push(t)
                &&& final(self).spec_next_id() == old(self).spec_next_id() + 1
            },
            !old(self).spec_enabled() ==> {
                &&& t.spec_id() == 0
                &&& t.spec_message() == "disabled"@
                &&& t.spec_total() is None
                &&& final(self).spec_tasks() == old(self).spec_tasks()
                &&& final(self).spec_next_id() == old(self).spec_next_id()
            },
    {
        if !self.enabled {
            return ProgressTask::new(0, "disabled", None, now);
        }
        let id = self.next_task_id;
        self.next_task_id = self.next_task_id + 1;
        let builder = match style.total() {
            Some(n) => builder.with_total(n),
            None => builder,
        };
        let task = builder.build(id, now);
        let copy = task.snapshot();
        let ghost before = self.tasks@;
        self.tasks.push(task);
        proof {
            assert forall|a: int, b: int|
                0 <= a < b < self.tasks@.len() implies #[trigger] self.tasks@[a].spec_id()
                < #[trigger] self.tasks@[b].spec_id() by {
                assert(old(self).spec_tasks()[a].spec_id() < old(self).spec_next_id());
                if b == before.len() {
                    assert(self.tasks@[a] == before[a]);
                    assert(self.tasks@[b] == copy);
                } else {
                    assert(self.tasks@[a] == before[a]);
                    assert(self.tasks@[b] == before[b]);
                }
            }
            assert forall|a: int| 0 <= a < self.tasks@.len() implies 1 <= #[trigger] self.tasks@[a].spec_id()
                < self.next_task_id by {
                if a < before.len() {
                    assert(self.tasks@[a] == before[a]);
                    assert(old(self).spec_tasks()[a].spec_id() < old(self).spec_next_id());
                } else {
                    assert(self.tasks@[a] == copy);
                }
            }
        }
        copy
    }

    /// The position of the task with identifier `id`.
    fn find(&self, id: TaskId) -> (r: Option<usize>)
        ensures
            match r {
                Some(i) => i < self.spec_tasks().len() && self.spec_tasks()[i as int].spec_id() == id,
                None => !has_task(self.spec_tasks(), id),
            },
    {
        let mut i: usize = 0;
        while i < self.tasks.len()
            invariant
                i <= self.tasks.len(),
                forall|j: int| 0 <= j < i ==> #[trigger] self.tasks@[j].spec_id() != id,
            decreases self.tasks.len() - i,
        {
            if self.tasks[i].id() == id {
                return Some(i);
            }
            i = i + 1;
        }
        None
    }

    /// A copy of the task with identifier `id`.
    pub fn get_task(&self, task_id: TaskId) -> (r: Option<ProgressTask>)
        ensures
            r is Some <==> has_task(self.spec_tasks(), task_id),
            r matches Some(t) ==> t.spec_id() == task_id && self.spec_tasks().contains(t),
    {
        match self.find(task_id) {
            Some(i) => {
                let t = self.tasks[i].snapshot();
                assert(self.spec_tasks()[i as int] == t);
                Some(t)
            },
            None => None,
        }
    }

    /// Copies of the tasks still running, oldest first.
    pub fn active_tasks(&self) -> (r: Vec<ProgressTask>)
        ensures
            r@ == unfinished(self.spec_tasks()),
    {
        let mut r: Vec<ProgressTask> = Vec::new();
        let mut i: usize = 0;
        while i < self.tasks.len()
            invariant
                i <= self.tasks.len(),
                r@ == unfinished(self.tasks@.take(i as int)),
            decreases self.tasks.len() - i,
        {
            proof {
                lemma_unfinished_take(self.tasks@, i as int);
            }
            if !self.tasks[i].is_finished() {
                r.push(self.tasks[i].snapshot());
            }
            i = i + 1;
        }
        assert(self.tasks@.take(self.tasks.len() as int) =~= self.tasks@);
        r
    }

    /// Stops tracking the task with identifier `id` and returns it.
    pub fn remove_task(&mut self, task_id: TaskId) -> (r: Option<ProgressTask>)
        requires
            old(self).wf(),
        ensures
            final(self).wf(),
            final(self).spec_enabled() == old(self).spec_enabled(),
            final(self).spec_next_id() == old(self).spec_next_id(),
            r is Some <==> has_task(old(self).spec_tasks(), task_id),
            r is None ==> final(self).spec_tasks() == old(self).spec_tasks(),
            r matches Some(t) ==> exists|i: int|
                0 <= i < old(self).spec_tasks().len() && old(self).spec_tasks()[i] == t
                    && t.spec_id() == task_id
                    && final(self).spec_tasks() == old(self).spec_tasks().remove(i),
    {
        match self.find(task_id) {
            Some(i) => {
                let ghost before = self.tasks@;
                let t = self.tasks.remove(i);
                assert(before[i as int] == t);
                assert forall|a: int, b: int|
                    0 <= a < b < self.tasks@.len() implies #[trigger] self.tasks@[a].spec_id()
                    < #[trigger] self.tasks@[b].spec_id() by {
                    let a2 = if a < i { a } else { a + 1 };
                    let b2 = if b < i { b } else { b + 1 };
                    assert(self.tasks@[a] == before[a2]);
                    assert(self.tasks@[b] == before[b2]);
                }
                assert forall|a: int| 0 <= a < self.tasks@.len() implies 1 <= #[trigger] self.tasks@[a].spec_id()
                    < self.next_task_id by {
                    let a2 = if a < i { a } else { a + 1 };
                    assert(self.tasks@[a] == before[a2]);
                }
                Some(t)
            },
            None => None,
        }
    }

    /// Drops every finished task and returns how many were dropped.
    pub fn cleanup_finished(&mut self) -> (n: usize)
        requires
            old(self).wf(),
        ensures
            final(self).wf(),
            final(self).spec_enabled() == old(self).spec_enabled(),
            final(self).spec_next_id() == old(self).spec_next_id(),
            final(self).spec_tasks() == unfinished(old(self).spec_tasks()),
            n == old(self).spec_tasks().len() - final(self).spec_tasks().len(),
    {
        let ghost before = self.tasks@;
        let kept = self.active_tasks();
        proof {
            lemma_unfinished_members(before);
            lemma_unfinished_order(before);
        }
        let n = self.tasks.len() - kept.len();
        self.tasks = kept;
        n
    }

    /// Cancels every running task with `reason` and stops tracking all tasks;
    /// returns the events of the cancellations, oldest task first.
    pub fn cancel_all(&mut self, reason: &str) -> (events: Vec<ProgressEvent>)
        requires
            old(self).wf(),
        ensures
            final(self).wf(),
            final(self).spec_tasks().len() == 0,
            final(self).spec_enabled() == old(self).spec_enabled(),
            final(self).spec_next_id() == old(self).spec_next_id(),
            events.len() == unfinished(old(self).spec_tasks()).len(),
            forall|j: int|
                0 <= j < events.len() ==> {
                    let t = unfinished(old(self).spec_tasks())[j];
                    &&& (#[trigger] events@[j]).task_id == t.spec_id()
                    &&& events@[j].state == ProgressState::Cancelled
                    &&& events@[j].current == t.spec_current()
                    &&& events@[j].total == t.spec_total()
                    &&& events@[j].message matches Some(m) && m@ == reason@
                },
    {
        let running = self.active_tasks();
        let mut events: Vec<ProgressEvent> = Vec::new();
        let mut i: usize = 0;
        while i < running.len()
            invariant
                i <= running.len(),
                events.len() == i,
                forall|j: int|
                    0 <= j < i ==> {
                        let t = running@[j];
                        &&& (#[trigger] events@[j]).task_id == t.spec_id()
                        &&& events@[j].state == ProgressState::Cancelled
                        &&& events@[j].current == t.spec_current()
                        &&& events@[j].total == t.spec_total()
                        &&& events@[j].message matches Some(m) && m@ == reason@
                    },
            decreases running.len() - i,
        {
            let mut t = running[i].snapshot();
            let e = t.cancel(reason);
            events.push(e);
            i = i + 1;
        }
        self.tasks = Vec::new();
        events
    }

    /// Records `now` as the clock reading of the latest change of the task
    /// with identifier `id` (before an update, so that its event and its
    /// elapsed time carry the time of the change); whether it is tracked.
    pub fn touch_task(&mut self, id: TaskId, now: u128) -> (r: bool)
        requires
            old(self).wf(),
        ensures
            final(self).wf(),
            final(self).spec_enabled() == old(self).spec_enabled(),
            final(self).spec_next_id() == old(self).spec_next_id(),
            r == has_task(old(self).spec_tasks(), id),
            !r ==> final(self).spec_tasks() == old(self).spec_tasks(),
            r ==> changed_task(
                old(self).spec_tasks(),
                final(self).spec_tasks(),
                id,
                |a: ProgressTask, b: ProgressTask| is_touch(a, b, now),
            ),
    {
        match self.find(id) {
            Some(i) => {
                let mut t = self.tasks[i].snapshot();
                t.touch(now);
                self.put(i, t);
                assert(changed_at_index(
                    old(self).spec_tasks(),
                    self.spec_tasks(),
                    i as int,
                    id,
                    |a: ProgressTask, b: ProgressTask| is_touch(a, b, now),
                ));
                true
            },
            None => false,
        }
    }

    /// Sets the progress and message of the task with identifier `id`;
    /// returns the event, or nothing if no such task is tracked.
    pub fn update_task(&mut self, id: TaskId, current: u64, message: &str) -> (r: Option<ProgressEvent>)
        requires
            old(self).wf(),
        ensures
            final(self).wf(),
            final(self).spec_enabled() == old(self).spec_enabled(),
            final(self).spec_next_id() == old(self).spec_next_id(),
            r is Some <==> has_task(old(self).spec_tasks(), id),
            r is None ==> final(self).spec_tasks() == old(self).spec_tasks(),
            r matches Some(e) ==> changed_task(
                old(self).spec_tasks(),
                final(self).spec_tasks(),
                id,
                |a: ProgressTask, b: ProgressTask| is_update(a, b, current, message@) && b.event_of(e),
            ),
    {
        match self.find(id) {
            Some(i) => {
                let mut t = self.tasks[i].snapshot();
                let e = t.update(current, message);
                self.put(i, t);
                assert(changed_at_index(
                    old(self).spec_tasks(),
                    self.spec_tasks(),
                    i as int,
                    id,
                    |a: ProgressTask, b: ProgressTask| is_update(a, b, current, message@) && b.event_of(e),
                ));
                Some(e)
            },
            None => None,
        }
    }

    /// Sets the message of the task with identifier `id`.
    pub fn update_task_message(&mut self, id: TaskId, message: &str) -> (r: Option<ProgressEvent>)
        requires
            old(self).wf(),
        ensures
            final(self).wf(),
            final(self).spec_enabled() == old(self).spec_enabled(),
            final(self).spec_next_id() == old(self).spec_next_id(),
            r is Some <==> has_task(old(self).spec_tasks(), id),
            r is None ==> final(self).spec_tasks() == old(self).spec_tasks(),
            r matches Some(e) ==> changed_task(
                old(self).spec_tasks(),
                final(self).spec_tasks(),
                id,
                |a: ProgressTask, b: ProgressTask| is_message_update(a, b, message@) && b.event_of(e),
            ),
    {
        match self.find(id) {
            Some(i) => {
                let mut t = self.tasks[i].snapshot();
                let e = t.update_message(message);
                self.put(i, t);
                assert(changed_at_index(
                    old(self).spec_tasks(),
                    self.spec_tasks(),
                    i as int,
                    id,
                    |a: ProgressTask, b: ProgressTask| is_message_update(a, b, message@) && b.event_of(e),
                ));
                Some(e)
            },
            None => None,
        }
    }

    /// Advances the task with identifier `id` by one.
    pub fn increment_task(&mut self, id: TaskId, message: Option<&str>) -> (r: Option<ProgressEvent>)
        requires
            old(self).wf(),
            forall|i: int|
                0 <= i < old(self).spec_tasks().len() && #[trigger] old(self).spec_tasks()[i].spec_id()
                    == id ==> old(self).spec_tasks()[i].spec_current() < u64::MAX,
        ensures
            final(self).wf(),
            final(self).spec_enabled() == old(self).spec_enabled(),
            final(self).spec_next_id() == old(self).spec_next_id(),
            r is Some <==> has_task(old(self).spec_tasks(), id),
            r is None ==> final(self).spec_tasks() == old(self).spec_tasks(),
            r matches Some(e) ==> changed_task(
                old(self).spec_tasks(),
                final(self).spec_tasks(),
                id,
                |a: ProgressTask, b: ProgressTask|
                    is_increment(
                        a,
                        b,
                        match message {
                            Some(m) => Some(m@),
                            None => None,
                        },
                    ) && b.event_of(e),
            ),
    {
        match self.find(id) {
            Some(i) => {
                let mut t = self.tasks[i].snapshot();
                let e = t.increment(message);
                self.put(i, t);
                assert(changed_at_index(
                    old(self).spec_tasks(),
                    self.spec_tasks(),
                    i as int,
                    id,
                    |a: ProgressTask, b: ProgressTask|
                        is_increment(
                            a,
                            b,
                            match message {
                                Some(m) => Some(m@),
                                None => None,
                            },
                        ) && b.event_of(e),
                ));
                Some(e)
            },
            None => None,
        }
    }

    /// Completes the task with identifier `id`.
    pub fn complete_task(&mut self, id: TaskId, message: &str) -> (r: Option<ProgressEvent>)
        requires
            old(self).wf(),
        ensures
            final(self).wf(),
            final(self).spec_enabled() == old(self).spec_enabled(),
            final(self).spec_next_id() == old(self).spec_next_id(),
            r is Some <==> has_task(old(self).spec_tasks(), id),
            r is None ==> final(self).spec_tasks() == old(self).spec_tasks(),
            r matches Some(e) ==> changed_task(
                old(self).spec_tasks(),
                final(self).spec_tasks(),
                id,
                |a: ProgressTask, b: ProgressTask| is_completion(a, b, message@) && b.event_of(e),
            ),
    {
        match self.find(id) {
            Some(i) => {
                let mut t = self.tasks[i].snapshot();
                let e = t.complete(message);
                self.put(i, t);
                assert(changed_at_index(
                    old(self).spec_tasks(),
                    self.spec_tasks(),
                    i as int,
                    id,
                    |a: ProgressTask, b: ProgressTask| is_completion(a, b, message@) && b.event_of(e),
                ));
                Some(e)
            },
            None => None,
        }
    }

    /// Marks the task with identifier `id` as failed.
    pub fn fail_task(&mut self, id: TaskId, error_message: &str) -> (r: Option<ProgressEvent>)
        requires
            old(self).wf(),
        ensures
            final(self).wf(),
            final(self).spec_enabled() == old(self).spec_enabled(),
            final(self).spec_next_id() == old(self).spec_next_id(),
            r is Some <==> has_task(old(self).spec_tasks(), id),
            r is None ==> final(self).spec_tasks() == old(self).spec_tasks(),
            r matches Some(e) ==> changed_task(
                old(self).spec_tasks(),
                final(self).spec_tasks(),
                id,
                |a: ProgressTask, b: ProgressTask|
                    is_ending(a, b, ProgressState::Failed, error_message@) && b.event_of(e),
            ),
    {
        match self.find(id) {
            Some(i) => {
                let mut t = self.tasks[i].snapshot();
                let e = t.fail(error_message);
                self.put(i, t);
                assert(changed_at_index(
                    old(self).spec_tasks(),
                    self.spec_tasks(),
                    i as int,
                    id,
                    |a: ProgressTask, b: ProgressTask|
                        is_ending(a, b, ProgressState::Failed, error_message@) && b.event_of(e),
                ));
                Some(e)
            },
            None => None,
        }
    }

    /// Cancels the task with identifier `id`.
    pub fn cancel_task(&mut self, id: TaskId, reason: &str) -> (r: Option<ProgressEvent>)
        requires
            old(self).wf(),
        ensures
            final(self).wf(),
            final(self).spec_enabled() == old(self).spec_enabled(),
            final(self).spec_next_id() == old(self).spec_next_id(),
            r is Some <==> has_task(old(self).spec_tasks(), id),
            r is None ==> final(self).spec_tasks() == old(self).spec_tasks(),
            r matches Some(e) ==> changed_task(
                old(self).spec_tasks(),
                final(self).spec_tasks(),
                id,
                |a: ProgressTask, b: ProgressTask|
                    is_ending(a, b, ProgressState::Cancelled, reason@) && b.event_of(e),
            ),
    {
        match self.find(id) {
            Some(i) => {
                let mut t = self.tasks[i].snapshot();
                let e = t.cancel(reason);
                self.put(i, t);
                assert(changed_at_index(
                    old(self).spec_tasks(),
                    self.spec_tasks(),
                    i as int,
                    id,
                    |a: ProgressTask, b: ProgressTask|
                        is_ending(a, b, ProgressState::Cancelled, reason@) && b.event_of(e),
                ));
                Some(e)
            },
            None => None,
        }
    }

    /// Puts `t` at position `i`, in place of a task with the same identifier.
    fn put(&mut self, i: usize, t: ProgressTask)
        requires
            old(self).wf(),
            i < old(self).spec_tasks().len(),
            t.spec_id() == old(self).spec_tasks()[i as int].spec_id(),
        ensures
            final(self).wf(),
            final(self).spec_tasks() == old(self).spec_tasks().update(i as int, t),
            final(self).spec_enabled() == old(self).spec_enabled(),
            final(self).spec_next_id() == old(self).spec_next_id(),
    {
        let ghost before = self.tasks@;
        self.tasks.set(i, t);
        assert forall|a: int, b: int|
            0 <= a < b < self.tasks@.len() implies #[trigger] self.tasks@[a].spec_id()
            < #[trigger] self.tasks@[b].spec_id() by {
            assert(self.tasks@[a].spec_id() == before[a].spec_id());
            assert(self.tasks@[b].spec_id() == before[b].spec_id());
        }
        assert forall|a: int| 0 <= a < self.tasks@.len() implies 1 <= #[trigger] self.tasks@[a].spec_id()
            < self.next_task_id by {
            assert(self.tasks@[a].spec_id() == before[a].spec_id());
        }
    }
}

/// Lemma: keeping the unfinished tasks keeps identifiers rising.
proof fn lemma_unfinished_order(s: Seq<ProgressTask>)
    requires
        forall|i: int, j: int| 0 <= i < j < s.len() ==> #[trigger] s[i].spec_id() < #[trigger] s[j].spec_id(),
    ensures
        forall|i: int, j: int|
            0 <= i < j < unfinished(s).len() ==> #[trigger] unfinished(s)[i].spec_id()
                < #[trigger] unfinished(s)[j].spec_id(),
        forall|i: int|
            0 <= i < unfinished(s).len() ==> exists|k: int| 0 <= k < s.len() && s[k] == #[trigger] unfinished(s)[i],
    decreases s.len(),
{
    if s.len() > 0 {
        let d = s.drop_last();
        lemma_unfinished_order(d);
        let r = unfinished(d);
        assert forall|i: int| 0 <= i < unfinished(s).len() implies exists|k: int|
            0 <= k < s.len() && s[k] == #[trigger] unfinished(s)[i] by {
            if i < r.len() {
                let k = choose|k: int| 0 <= k < d.len() && d[k] == r[i];
                assert(s[k] == unfinished(s)[i]);
            } else {
                assert(s[s.len() - 1] == unfinished(s)[i]);
            }
        }
        if !finished(s.last().spec_state()) {
            assert forall|i: int, j: int|
                0 <= i < j < unfinished(s).len() implies #[trigger] unfinished(s)[i].spec_id()
                < #[trigger] unfinished(s)[j].spec_id() by {
                if j == r.len() {
                    let k = choose|k: int| 0 <= k < d.len() && d[k] == r[i];
                    assert(s[k] == r[i]);
                    assert(s[s.len() - 1] == s.last());
                }
            }
        }
    }
}

/// The identifiers of `s` rise from first to last.
pub open spec fn ids_rising(s: Seq<ProgressTask>) -> bool {
    forall|i: int, j: int| 0 <= i < j < s.len() ==> #[trigger] s[i].spec_id() < #[trigger] s[j].spec_id()
}

/// Law: dropping the finished tasks leaves the running tasks as they were:
/// cleaning up changes nothing of what is active.
pub proof fn lemma_cleanup_keeps_active(s: Seq<ProgressTask>)
    ensures
        unfinished(unfinished(s)) == unfinished(s),
    decreases s.len(),
{
    if s.len() > 0 {
        lemma_cleanup_keeps_active(s.drop_last());
        let r = unfinished(s.drop_last());
        if !finished(s.last().spec_state()) {
            assert(r.push(s.last()).drop_last() =~= r);
            assert(unfinished(r.push(s.last())) == unfinished(r).push(s.last()));
        }
    }
}

/// Law: once a step that keeps identifiers ends the task with identifier
/// `id` (completes, fails or cancels it), no active task has that identifier.
pub proof fn lemma_ended_task_not_active(
    old: Seq<ProgressTask>,
    new: Seq<ProgressTask>,
    id: TaskId,
    step: spec_fn(ProgressTask, ProgressTask) -> bool,
)
    requires
        ids_rising(new),
        changed_task(old, new, id, step),
        forall|a: ProgressTask, b: ProgressTask|
            #[trigger] step(a, b) ==> b.spec_id() == a.spec_id() && finished(b.spec_state()),
    ensures
        forall|j: int| 0 <= j < unfinished(new).len() ==> (#[trigger] unfinished(new)[j]).spec_id() != id,
{
    let i = choose|i: int| #[trigger] changed_at_index(old, new, i, id, step);
    assert(step(old[i], new[i]));
    assert(new[i].spec_id() == id);
    lemma_unfinished_members(new);
    assert forall|j: int| 0 <= j < unfinished(new).len() implies (#[trigger] unfinished(new)[j]).spec_id() != id by {
        let t = unfinished(new)[j];
        assert(!finished(t.spec_state()));
        let k = choose|k: int| 0 <= k < new.len() && new[k] == t;
        if t.spec_id() == id {
            if k < i {
                assert(new[k].spec_id() < new[i].spec_id());
            } else if k > i {
                assert(new[i].spec_id() < new[k].spec_id());
            }
        }
    }
}

/// How many tasks of `s` are in state `st`.
pub open spec fn count_in_state(s: Seq<ProgressTask>, st: ProgressState) -> nat
    decreases s.len(),
{
    if s.len() == 0 {
        0
    } else {
        count_in_state(s.drop_last(), st) + if s.last().spec_state() == st { 1nat } else { 0nat }
    }
}

/// The sum of the totals of the tasks of `s` that have one.
pub open spec fn items_total(s: Seq<ProgressTask>) -> nat
    decreases s.len(),
{
    if s.len() == 0 {
        0
    } else {
        items_total(s.drop_last()) + match s.last().spec_total() {
            Some(t) => t as nat,
            None => 0nat,
        }
    }
}

/// The work done, summed over the tasks of `s` with a total above zero: the
/// share done of each such task, times its total, is its current progress.
pub open spec fn items_done(s: Seq<ProgressTask>) -> nat
    decreases s.len(),
{
    if s.len() == 0 {
        0
    } else {
        items_done(s.drop_last()) + match s.last().spec_total() {
            Some(t) => if t > 0 { s.last().spec_current() as nat } else { 0nat },
            None => 0nat,
        }
    }
}

/// Lemma: the sums over a prefix are at most those over the whole.
proof fn lemma_sums_prefix(s: Seq<ProgressTask>, i: int)
    requires
        0 <= i <= s.len(),
    ensures
        items_total(s.take(i)) <= items_total(s),
        items_done(s.take(i)) <= items_done(s),
    decreases s.len(),
{
    if i < s.len() {
        lemma_sums_prefix(s.drop_last(), i);
        assert(s.drop_last().take(i) =~= s.take(i));
    } else {
        assert(s.take(i) =~= s);
    }
}

/// Counts of the tasks of a manager by state, with the work done and to do.
pub struct ProgressStats {
    pub total_tasks: usize,
    pub running_tasks: usize,
    pub completed_tasks: usize,
    pub failed_tasks: usize,
    pub cancelled_tasks: usize,
    /// The work done over the tasks with a total, in items.
    pub total_progress: u64,
    /// The sum of the totals of the tasks that have one.
    pub total_items: u64,
}

impl Default for ProgressStats {
    /// Everything zero.
    fn default() -> (r: Self)
        ensures
            r.total_tasks == 0 && r.running_tasks == 0 && r.completed_tasks == 0,
            r.failed_tasks == 0 && r.cancelled_tasks == 0,
            r.total_progress == 0 && r.total_items == 0,
    {
        ProgressStats {
            total_tasks: 0,
            running_tasks: 0,
            completed_tasks: 0,
            failed_tasks: 0,
            cancelled_tasks: 0,
            total_progress: 0,
            total_items: 0,
        }
    }
}

impl ProgressStats {
    /// There is a task, and every task completed: none runs, failed or was
    /// cancelled.
    pub fn all_complete(&self) -> (r: bool)
        ensures
            r == (self.total_tasks > 0 && self.running_tasks == 0 && self.failed_tasks == 0
                && self.cancelled_tasks == 0),
    {
        self.total_tasks > 0 && self.running_tasks == 0 && self.failed_tasks == 0
            && self.cancelled_tasks == 0
    }

    /// Some task failed.
    pub fn has_failures(&self) -> (r: bool)
        ensures
            r == (self.failed_tasks > 0),
    {
        self.failed_tasks > 0
    }
}

impl ProgressManager {
    /// The counts of the manager's tasks by state, with the summed totals and
    /// the summed work done.
    pub fn stats(&self) -> (r: ProgressStats)
        requires
            items_total(self.spec_tasks()) <= u64::MAX,
            items_done(self.spec_tasks()) <= u64::MAX,
        ensures
            r.total_tasks == self.spec_tasks().len(),
            r.running_tasks == count_in_state(self.spec_tasks(), ProgressState::Running),
            r.completed_tasks == count_in_state(self.spec_tasks(), ProgressState::Complete),
            r.failed_tasks == count_in_state(self.spec_tasks(), ProgressState::Failed),
            r.cancelled_tasks == count_in_state(self.spec_tasks(), ProgressState::Cancelled),
            r.total_items == items_total(self.spec_tasks()),
            r.total_progress == items_done(self.spec_tasks()),
    {
        let ghost s = self.spec_tasks();
        let mut stats = ProgressStats::default();
        let mut i: usize = 0;
        while i < self.tasks.len()
            invariant
                s == self.spec_tasks(),
                i <= s.len(),
                items_total(s) <= u64::MAX,
                items_done(s) <= u64::MAX,
                stats.total_tasks == i,
                stats.running_tasks == count_in_state(s.take(i as int), ProgressState::Running),
                stats.completed_tasks == count_in_state(s.take(i as int), ProgressState::Complete),
                stats.failed_tasks == count_in_state(s.take(i as int), ProgressState::Failed),
                stats.cancelled_tasks == count_in_state(s.take(i as int), ProgressState::Cancelled),
                stats.running_tasks + stats.completed_tasks + stats.failed_tasks
                    + stats.cancelled_tasks == i,
                stats.total_items == items_total(s.take(i as int)),
                stats.total_progress == items_done(s.take(i as int)),
            decreases s.len() - i,
        {
            let task = &self.tasks[i];
            proof {
                assert(s.take(i + 1).drop_last() =~= s.take(i as int));
                assert(s.take(i + 1).last() == s[i as int]);
                lemma_sums_prefix(s, i + 1);
            }
            stats.total_tasks = stats.total_tasks + 1;
            match task.state() {
                ProgressState::Running => stats.running_tasks = stats.running_tasks + 1,
                ProgressState::Complete => stats.completed_tasks = stats.completed_tasks + 1,
                ProgressState::Failed => stats.failed_tasks = stats.failed_tasks + 1,
                ProgressState::Cancelled => stats.cancelled_tasks = stats.cancelled_tasks + 1,
            }
            match task.total_progress() {
                Some(total) => {
                    stats.total_items = stats.total_items + total;
                    if total > 0 {
                        stats.total_progress = stats.total_progress + task.current_progress();
                    }
                },
                None => {},
            }
            i = i + 1;
        }
        proof {
            assert(s.take(s.len() as int) =~= s);
        }
        stats
    }
}

/// Options for a progress manager.
#[derive(Debug)]
pub struct ManagerBuilder {
    enabled: bool,
    auto_cleanup: bool,
    cleanup_interval_ms: u64,
}

impl ManagerBuilder {
    pub closed spec fn spec_enabled(&self) -> bool {
        self.enabled
    }

    pub closed spec fn spec_auto_cleanup(&self) -> bool {
        self.auto_cleanup
    }

    pub closed spec fn spec_cleanup_interval_ms(&self) -> u64 {
        self.cleanup_interval_ms
    }

    /// Enabled, without automatic cleanup, a cleanup interval of a second.
    pub fn new() -> (b: Self)
        ensures
            b.spec_enabled(),
            !b.spec_auto_cleanup(),
            b.spec_cleanup_interval_ms() == 1000,
    {
        ManagerBuilder { enabled: true, auto_cleanup: false, cleanup_interval_ms: 1000 }
    }

    /// Turns tracking on or off.
    pub fn enabled(self, enabled: bool) -> (b: Self)
        ensures
            b.spec_enabled() == enabled,
            b.spec_auto_cleanup() == self.spec_auto_cleanup(),
            b.spec_cleanup_interval_ms() == self.spec_cleanup_interval_ms(),
    {
        ManagerBuilder { enabled, ..self }
    }

    /// Asks for finished tasks to be dropped every `interval_ms`.
    pub fn with_auto_cleanup(self, interval_ms: u64) -> (b: Self)
        ensures
            b.spec_enabled() == self.spec_enabled(),
            b.spec_auto_cleanup(),
            b.spec_cleanup_interval_ms() == interval_ms,
    {
        ManagerBuilder { auto_cleanup: true, cleanup_interval_ms: interval_ms, ..self }
    }

    /// Whether finished tasks are to be dropped periodically.
    pub fn auto_cleanup(&self) -> (r: bool)
        ensures
            r == self.spec_auto_cleanup(),
    {
        self.auto_cleanup
    }

    /// The cleanup interval in milliseconds.
    pub fn cleanup_interval_ms(&self) -> (r: u64)
        ensures
            r == self.spec_cleanup_interval_ms(),
    {
        self.cleanup_interval_ms
    }

    /// The manager described: enabled or disabled, without tasks.  The
    /// periodic cleanup is the caller's to schedule.
    pub fn build(&self) -> (m: ProgressManager)
        ensures
            m.wf(),
            m.spec_enabled() == self.spec_enabled(),
            m.spec_tasks().len() == 0,
            m.spec_next_id() == 1,
    {
        if self.enabled {
            ProgressManager::new()
        } else {
            ProgressManager::disabled()
        }
    }
}

} // verus!
