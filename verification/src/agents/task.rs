//! Agent tasks: their status and priority, and a queue kept in priority
//! order.
use vstd::prelude::*;
use std::collections::HashMap;
use crate::text::{all_ascii, lowercase, str_eq, to_lowercase};

verus! {

/// Where a task stands.
#[derive(Debug, Clone, Copy, PartialEq, Eq, Structural)]
pub enum TaskStatus {
    Pending,
    Running,
    Completed,
    Failed,
    Cancelled,
}

/// The name of a status.
pub open spec fn status_name(s: TaskStatus) -> Seq<char> {
    match s {
        TaskStatus::Pending => "pending"@,
        TaskStatus::Running => "running"@,
        TaskStatus::Completed => "completed"@,
        TaskStatus::Failed => "failed"@,
        TaskStatus::Cancelled => "cancelled"@,
    }
}

impl TaskStatus {
    /// The lower-case name of this status.
    pub fn as_str(&self) -> (r: &'static str)
        ensures
            r@ == status_name(*self),
    {
        match self {
            TaskStatus::Pending => "pending",
            TaskStatus::Running => "running",
            TaskStatus::Completed => "completed",
            TaskStatus::Failed => "failed",
            TaskStatus::Cancelled => "cancelled",
        }
    }

    /// The name of this status, as a `String` (what it displays as).
    pub fn to_string(&self) -> (r: String)
        ensures
            r@ == status_name(*self),
    {
        crate::text::owned(self.as_str())
    }
}

/// How urgent a task is, from low to urgent.
#[derive(Debug, Clone, Copy, PartialEq, Eq, Structural, PartialOrd, Ord)]
pub enum TaskPriority {
    Low,
    Medium,
    High,
    Urgent,
}

/// The rank of a priority: 0 for low up to 3 for urgent.
pub open spec fn priority_rank(p: TaskPriority) -> int {
    match p {
        TaskPriority::Low => 0,
        TaskPriority::Medium => 1,
        TaskPriority::High => 2,
        TaskPriority::Urgent => 3,
    }
}

/// The name of a priority.
pub open spec fn priority_name(p: TaskPriority) -> Seq<char> {
    match p {
        TaskPriority::Low => "low"@,
        TaskPriority::Medium => "medium"@,
        TaskPriority::High => "high"@,
        TaskPriority::Urgent => "urgent"@,
    }
}

/// The priority a lower-case name stands for.
pub open spec fn priority_named(t: Seq<char>) -> Option<TaskPriority> {
    if t == "low"@ {
        Some(TaskPriority::Low)
    } else if t == "medium"@ {
        Some(TaskPriority::Medium)
    } else if t == "high"@ {
        Some(TaskPriority::High)
    } else if t == "urgent"@ {
        Some(TaskPriority::Urgent)
    } else {
        None
    }
}

impl TaskPriority {
    /// The lower-case name of this priority.
    pub fn as_str(&self) -> (r: &'static str)
        ensures
            r@ == priority_name(*self),
    {
        match self {
            TaskPriority::Low => "low",
            TaskPriority::Medium => "medium",
            TaskPriority::High => "high",
            TaskPriority::Urgent => "urgent",
        }
    }

    /// The priority named by `s`, read without regard to case.
    pub fn from_str(s: &str) -> (r: Option<Self>)
        ensures
            r == priority_named(lowercase(s@)),
            forall|p: TaskPriority| s@ == priority_name(p) ==> r == Some(p),
    {
        let lower = to_lowercase(s);
        proof {
            reveal_strlit("low");
            reveal_strlit("medium");
            reveal_strlit("high");
            reveal_strlit("urgent");
            assert forall|p: TaskPriority| s@ == priority_name(p) implies lower@ == s@ by {
                assert(all_ascii(s@));
                assert(lower@ =~= s@);
            }
        }
        let r = if str_eq(lower.as_str(), "low") {
            Some(TaskPriority::Low)
        } else if str_eq(lower.as_str(), "medium") {
            Some(TaskPriority::Medium)
        } else if str_eq(lower.as_str(), "high") {
            Some(TaskPriority::High)
        } else if str_eq(lower.as_str(), "urgent") {
            Some(TaskPriority::Urgent)
        } else {
            None
        };
        proof {
            assert forall|p: TaskPriority| s@ == priority_name(p) implies r == Some(p) by {
                reveal_strlit("low");
                reveal_strlit("medium");
                reveal_strlit("high");
                reveal_strlit("urgent");
                assert("low"@.len() == 3);
                assert("medium"@.len() == 6);
                assert("high"@.len() == 4);
                assert("urgent"@.len() == 6);
                assert("medium"@[0] != "urgent"@[0]);
                assert(lower@ == s@);
                match p {
                    TaskPriority::Low => {},
                    TaskPriority::Medium => {
                        assert(s@ != "low"@);
                    },
                    TaskPriority::High => {
                        assert(s@ != "low"@);
                        assert(s@ != "medium"@);
                    },
                    TaskPriority::Urgent => {
                        assert(s@ != "low"@);
                        assert(s@ != "medium"@);
                        assert(s@ != "high"@);
                    },
                }
            }
        }
        r
    }

    /// The rank of this priority (see [`priority_rank`]).
    pub fn rank(&self) -> (r: u8)
        ensures
            r == priority_rank(*self),
    {
        match self {
            TaskPriority::Low => 0,
            TaskPriority::Medium => 1,
            TaskPriority::High => 2,
            TaskPriority::Urgent => 3,
        }
    }

    /// The name of this priority, as a `String` (what it displays as).
    pub fn to_string(&self) -> (r: String)
        ensures
            r@ == priority_name(*self),
    {
        crate::text::owned(self.as_str())
    }
}

/// A task for an agent.
#[derive(Debug, Clone)]
pub struct AgentTask {
    pub id: String,
    pub agent_id: String,
    pub task_type: String,
    pub status: TaskStatus,
    pub priority: TaskPriority,
    pub payload: serde_json::Value,
    pub result: Option<serde_json::Value>,
    pub error: Option<String>,
    pub created_at: i64,
    pub started_at: Option<i64>,
    pub completed_at: Option<i64>,
    pub duration_ms: Option<i64>,
    pub attempts: u32,
    pub max_attempts: u32,
    pub metadata: HashMap<String, String>,
}

impl AgentTask {
    /// Whether the task completed.
    pub fn is_completed(&self) -> (r: bool)
        ensures
            r == (self.status == TaskStatus::Completed),
    {
        self.status == TaskStatus::Completed
    }

    /// Whether the task failed.
    pub fn is_failed(&self) -> (r: bool)
        ensures
            r == (self.status == TaskStatus::Failed),
    {
        self.status == TaskStatus::Failed
    }

    /// Whether the task runs.
    pub fn is_running(&self) -> (r: bool)
        ensures
            r == (self.status == TaskStatus::Running),
    {
        self.status == TaskStatus::Running
    }

    /// Whether a failed task may be tried again: it failed and has
    /// attempts left.
    pub fn can_retry(&self) -> (r: bool)
        ensures
            r == (self.status == TaskStatus::Failed && self.attempts < self.max_attempts),
    {
        self.status == TaskStatus::Failed && self.attempts < self.max_attempts
    }

    /// How long the task took, in milliseconds, if known.
    pub fn get_duration(&self) -> (r: Option<i64>)
        ensures
            r == self.duration_ms,
    {
        self.duration_ms
    }
}

/// How to create a task.
#[derive(Debug, Clone)]
pub struct TaskConfig {
    pub task_type: String,
    pub payload: serde_json::Value,
    pub priority: TaskPriority,
    pub timeout_seconds: Option<u64>,
    pub metadata: Option<HashMap<String, String>>,
}

impl TaskConfig {
    /// A task of the given type and payload, at medium priority, without
    /// timeout or metadata.
    pub fn new(task_type: String, payload: serde_json::Value) -> (r: Self)
        ensures
            r.task_type == task_type,
            r.payload == payload,
            r.priority == TaskPriority::Medium,
            r.timeout_seconds is None,
            r.metadata is None,
    {
        TaskConfig { task_type, payload, priority: TaskPriority::Medium, timeout_seconds: None, metadata: None }
    }

    /// The same configuration at the given priority.
    pub fn with_priority(self, priority: TaskPriority) -> (r: Self)
        ensures
            r == (TaskConfig { priority, ..self }),
    {
        let mut c = self;
        c.priority = priority;
        c
    }

    /// The same configuration with a timeout.
    pub fn with_timeout(self, timeout_seconds: u64) -> (r: Self)
        ensures
            r == (TaskConfig { timeout_seconds: Some(timeout_seconds), ..self }),
    {
        let mut c = self;
        c.timeout_seconds = Some(timeout_seconds);
        c
    }

    /// The same configuration with metadata.
    pub fn with_metadata(self, metadata: HashMap<String, String>) -> (r: Self)
        ensures
            r == (TaskConfig { metadata: Some(metadata), ..self }),
    {
        let mut c = self;
        c.metadata = Some(metadata);
        c
    }
}

/// Task `a` is ordered strictly before task `b` in a queue: higher
/// priority first, and at equal priority the one created earlier.
pub open spec fn goes_before(a: AgentTask, b: AgentTask) -> bool {
    priority_rank(a.priority) > priority_rank(b.priority) || (priority_rank(a.priority)
        == priority_rank(b.priority) && a.created_at < b.created_at)
}

/// No task comes after one it goes before.
pub open spec fn queue_sorted(s: Seq<AgentTask>) -> bool {
    forall|i: int, j: int| 0 <= i < j < s.len() ==> !goes_before(#[trigger] s[j], #[trigger] s[i])
}

/// `t` placed in `s` before the first task it goes before, or at the end.
pub open spec fn insert_in_order(s: Seq<AgentTask>, t: AgentTask) -> Seq<AgentTask>
    decreases s.len(),
{
    if s.len() == 0 {
        seq![t]
    } else if goes_before(t, s[0]) {
        seq![t] + s
    } else {
        seq![s[0]] + insert_in_order(s.drop_first(), t)
    }
}

/// The stable sort of `s` in queue order: tasks are taken in order and
/// each placed after the tasks it does not go before.
pub open spec fn in_queue_order(s: Seq<AgentTask>) -> Seq<AgentTask>
    decreases s.len(),
{
    if s.len() == 0 {
        s
    } else {
        insert_in_order(in_queue_order(s.drop_last()), s.last())
    }
}

/// Index of the first task whose identifier is `id`.
pub open spec fn first_task_with_id(s: Seq<AgentTask>, id: Seq<char>) -> Option<int> {
    if exists|i: int| 0 <= i < s.len() && s[i].id@ == id {
        Some(choose|i: int| 0 <= i < s.len() && s[i].id@ == id && forall|j: int| 0 <= j < i ==> s[j].id@ != id)
    } else {
        None
    }
}

/// Placing a task before the first task it goes before is inserting it at
/// that position.
pub proof fn lemma_insert_at_first(s: Seq<AgentTask>, t: AgentTask, p: int)
    requires
        0 <= p <= s.len(),
        forall|j: int| 0 <= j < p ==> !goes_before(t, #[trigger] s[j]),
        p < s.len() ==> goes_before(t, s[p]),
    ensures
        insert_in_order(s, t) == s.insert(p, t),
    decreases s.len(),
{
    if s.len() == 0 {
        assert(s.insert(p, t) =~= seq![t]);
    } else if p == 0 {
        assert(s.insert(0, t) =~= seq![t] + s);
    } else {
        assert(!goes_before(t, s[0]));
        let r = s.drop_first();
        assert forall|j: int| 0 <= j < p - 1 implies !goes_before(t, #[trigger] r[j]) by {
            assert(r[j] == s[j + 1]);
        }
        lemma_insert_at_first(r, t, p - 1);
        assert(seq![s[0]] + r.insert(p - 1, t) =~= s.insert(p, t));
    }
}

/// Inserting in order keeps a queue sorted and adds exactly the task.
pub proof fn lemma_insert_keeps_sorted(s: Seq<AgentTask>, t: AgentTask)
    requires
        queue_sorted(s),
    ensures
        queue_sorted(insert_in_order(s, t)),
        insert_in_order(s, t).to_multiset() == s.to_multiset().insert(t),
{
    let p = first_goes_after(s, t, 0);
    lemma_first_goes_after(s, t, 0);
    lemma_insert_at_first(s, t, p);
    let r = s.insert(p, t);
    assert forall|i: int, j: int| 0 <= i < j < r.len() implies !goes_before(#[trigger] r[j], #[trigger] r[i]) by {
        if i == p {
            if goes_before(r[j], t) {
                assert(r[j] == s[j - 1]);
                assert(goes_before(t, s[p]));
                if j - 1 > p {
                    assert(!goes_before(s[j - 1], s[p]));
                }
            }
        } else if j == p {
            assert(r[i] == s[i]);
        } else {
            let a = if i < p { i } else { i - 1 };
            let b = if j < p { j } else { j - 1 };
            assert(r[i] == s[a]);
            assert(r[j] == s[b]);
        }
    }
    vstd::seq_lib::to_multiset_insert(s, p, t);
}

/// Index of the first task from `k` on that `t` goes before, or the
/// length.
pub open spec fn first_goes_after(s: Seq<AgentTask>, t: AgentTask, k: int) -> int
    decreases s.len() - k,
{
    if k >= s.len() || k < 0 {
        s.len() as int
    } else if goes_before(t, s[k]) {
        k
    } else {
        first_goes_after(s, t, k + 1)
    }
}

proof fn lemma_first_goes_after(s: Seq<AgentTask>, t: AgentTask, k: int)
    requires
        0 <= k <= s.len(),
        forall|j: int| 0 <= j < k ==> !goes_before(t, #[trigger] s[j]),
    ensures
        k <= first_goes_after(s, t, k) <= s.len(),
        forall|j: int| 0 <= j < first_goes_after(s, t, k) ==> !goes_before(t, #[trigger] s[j]),
        first_goes_after(s, t, k) < s.len() ==> goes_before(t, s[first_goes_after(s, t, k)]),
    decreases s.len() - k,
{
    if k < s.len() && !goes_before(t, s[k]) {
        lemma_first_goes_after(s, t, k + 1);
    }
}

/// Sorting in queue order gives a sorted queue holding the same tasks.
pub proof fn law_queue_order_sorted(s: Seq<AgentTask>)
    ensures
        queue_sorted(in_queue_order(s)),
        in_queue_order(s).to_multiset() == s.to_multiset(),
    decreases s.len(),
{
    if s.len() == 0 {
    } else {
        law_queue_order_sorted(s.drop_last());
        lemma_insert_keeps_sorted(in_queue_order(s.drop_last()), s.last());
        assert(s.drop_last().push(s.last()) =~= s);
        vstd::seq_lib::to_multiset_build(s.drop_last(), s.last());
    }
}

/// Pushing a task onto a sorted queue gives a sorted queue with one more
/// task: the old tasks and the new one, each as often as before.
pub proof fn law_push_adds_the_task(s: Seq<AgentTask>, t: AgentTask)
    requires
        queue_sorted(s),
    ensures
        queue_sorted(insert_in_order(s, t)),
        insert_in_order(s, t).len() == s.len() + 1,
        insert_in_order(s, t).to_multiset() == s.to_multiset().insert(t),
{
    lemma_insert_keeps_sorted(s, t);
    let p = first_goes_after(s, t, 0);
    lemma_first_goes_after(s, t, 0);
    lemma_insert_at_first(s, t, p);
}

/// A sorted queue is already in queue order.
pub proof fn law_sorted_queue_is_fixed(s: Seq<AgentTask>)
    requires
        queue_sorted(s),
    ensures
        in_queue_order(s) == s,
    decreases s.len(),
{
    if s.len() > 0 {
        let init = s.drop_last();
        assert(queue_sorted(init)) by {
            assert forall|i: int, j: int| 0 <= i < j < init.len() implies !goes_before(#[trigger] init[j], #[trigger] init[i]) by {
                assert(init[i] == s[i] && init[j] == s[j]);
            }
        }
        law_sorted_queue_is_fixed(init);
        assert forall|j: int| 0 <= j < init.len() implies !goes_before(s.last(), #[trigger] init[j]) by {
            assert(init[j] == s[j]);
        }
        lemma_insert_at_first(init, s.last(), init.len() as int);
        assert(init.insert(init.len() as int, s.last()) =~= s);
    }
}

/// Taking a task out keeps a queue sorted.
pub proof fn lemma_remove_keeps_sorted(s: Seq<AgentTask>, i: int)
    requires
        queue_sorted(s),
        0 <= i < s.len(),
    ensures
        queue_sorted(s.remove(i)),
{
    let q = s.remove(i);
    assert forall|a: int, b: int| 0 <= a < b < q.len() implies !goes_before(#[trigger] q[b], #[trigger] q[a]) by {
        let x = if a < i { a } else { a + 1 };
        let y = if b < i { b } else { b + 1 };
        assert(q[a] == s[x] && q[b] == s[y]);
    }
}


/// Whether task `a` goes before task `b` (see [`goes_before`]).
fn goes_before_exec(a: &AgentTask, b: &AgentTask) -> (r: bool)
    ensures
        r == goes_before(*a, *b),
{
    let ra = a.priority.rank();
    let rb = b.priority.rank();
    ra > rb || (ra == rb && a.created_at < b.created_at)
}

/// Index of the first task in `v` that `t` goes before, or the length.
fn insertion_point(v: &Vec<AgentTask>, t: &AgentTask) -> (p: usize)
    ensures
        p as int == first_goes_after(v@, *t, 0),
{
    let mut k: usize = 0;
    while k < v.len()
        invariant
            k <= v@.len(),
            first_goes_after(v@, *t, 0) == first_goes_after(v@, *t, k as int),
        decreases v@.len() - k,
    {
        if goes_before_exec(t, &v[k]) {
            return k;
        }
        k = k + 1;
    }
    k
}

/// `v` sorted in queue order (see [`in_queue_order`]).
fn sort_tasks(v: Vec<AgentTask>) -> (r: Vec<AgentTask>)
    ensures
        r@ == in_queue_order(v@),
{
    let ghost all = v@;
    assert(all.len() == v.len());
    let mut rest = v;
    let mut acc: Vec<AgentTask> = Vec::new();
    let mut m: usize = 0;
    assert(all.skip(0) =~= all);
    assert(all.take(0) =~= Seq::<AgentTask>::empty());
    while rest.len() > 0
        invariant
            m <= all.len(),
            all.len() <= usize::MAX,
            rest@ == all.skip(m as int),
            acc@ == in_queue_order(all.take(m as int)),
            queue_sorted(acc@),
        decreases rest@.len(),
    {
        assert(m < all.len());
        let t = rest.remove(0);
        proof {
            assert(t == all[m as int]);
            assert(rest@ =~= all.skip(m + 1));
            assert(all.take(m + 1).drop_last() =~= all.take(m as int));
            assert(all.take(m + 1).last() == t);
            lemma_first_goes_after(acc@, t, 0);
            lemma_insert_at_first(acc@, t, first_goes_after(acc@, t, 0));
            lemma_insert_keeps_sorted(acc@, t);
        }
        let p = insertion_point(&acc, &t);
        acc.insert(p, t);
        m = m + 1;
    }
    assert(all.take(m as int) =~= all);
    acc
}

/// Tasks kept in queue order: higher priority first, then earlier
/// creation; the queue is taken from at its end.
pub struct TaskQueue {
    queue: Vec<AgentTask>,
}

impl TaskQueue {
    #[verifier::type_invariant]
    spec fn well_formed(self) -> bool {
        queue_sorted(self.queue@)
    }

    /// The tasks, in queue order.
    pub closed spec fn tasks(self) -> Seq<AgentTask> {
        self.queue@
    }

    /// An empty queue.
    pub fn new() -> (q: Self)
        ensures
            q.tasks().len() == 0,
            queue_sorted(q.tasks()),
    {
        TaskQueue { queue: Vec::new() }
    }

    fn find(&self, id: &str) -> (r: Option<usize>)
        ensures
            match r {
                Some(i) => first_task_with_id(self.tasks(), id@) == Some(i as int) && i < self.tasks().len(),
                None => first_task_with_id(self.tasks(), id@) is None,
            },
    {
        let ghost s = self.queue@;
        let mut i: usize = 0;
        while i < self.queue.len()
            invariant
                s == self.queue@,
                i <= s.len(),
                forall|j: int| 0 <= j < i ==> s[j].id@ != id@,
            decreases s.len() - i,
        {
            if str_eq(self.queue[i].id.as_str(), id) {
                proof {
                    assert(0 <= i < s.len() && s[i as int].id@ == id@);
                    let c = choose|c: int| 0 <= c < s.len() && s[c].id@ == id@ && forall|j: int| 0 <= j < c ==> s[j].id@ != id@;
                    assert(0 <= i < s.len() && s[i as int].id@ == id@ && forall|j: int| 0 <= j < i ==> s[j].id@ != id@);
                    if c < i {
                        assert(s[c].id@ != id@);
                    } else if c > i {
                        assert(s[i as int].id@ != id@);
                    }
                }
                return Some(i);
            }
            i = i + 1;
        }
        None
    }

    /// Adds a task and puts the queue back in order (see
    /// [`in_queue_order`]): the task goes after every task it does not go
    /// before.
    pub fn push(&mut self, task: AgentTask)
        ensures
            final(self).tasks() == in_queue_order(old(self).tasks().push(task)),
            final(self).tasks() == insert_in_order(old(self).tasks(), task),
            queue_sorted(final(self).tasks()),
            final(self).tasks().len() == old(self).tasks().len() + 1,
            final(self).tasks().to_multiset() == old(self).tasks().to_multiset().insert(task),
    {
        proof {
            use_type_invariant(&*self);
            law_push_adds_the_task(self.queue@, task);
            law_sorted_queue_is_fixed(self.queue@);
            assert(self.queue@.push(task).drop_last() =~= self.queue@);
            lemma_first_goes_after(self.queue@, task, 0);
            lemma_insert_at_first(self.queue@, task, first_goes_after(self.queue@, task, 0));
            lemma_insert_keeps_sorted(self.queue@, task);
        }
        let p = insertion_point(&self.queue, &task);
        let mut q: Vec<AgentTask> = Vec::new();
        std::mem::swap(&mut q, &mut self.queue);
        q.insert(p, task);
        self.queue = q;
    }

    /// Takes the task at the end of the queue: of the lowest priority, the
    /// latest created.
    pub fn pop(&mut self) -> (r: Option<AgentTask>)
        ensures
            old(self).tasks().len() == 0 ==> r is None && final(self).tasks() == old(self).tasks(),
            old(self).tasks().len() > 0 ==> r == Some(old(self).tasks().last()) && final(self).tasks()
                == old(self).tasks().drop_last(),
            queue_sorted(final(self).tasks()),
    {
        proof {
            use_type_invariant(&*self);
        }
        let mut q: Vec<AgentTask> = Vec::new();
        std::mem::swap(&mut q, &mut self.queue);
        let r = q.pop();
        proof {
            assert forall|i: int, j: int| 0 <= i < j < q@.len() implies !goes_before(#[trigger] q@[j], #[trigger] q@[i]) by {
                assert(q@[i] == old(self).queue@[i] && q@[j] == old(self).queue@[j]);
            }
        }
        self.queue = q;
        r
    }

    /// The task at the end of the queue, if any.
    pub fn peek(&self) -> (r: Option<&AgentTask>)
        ensures
            self.tasks().len() == 0 ==> r is None,
            self.tasks().len() > 0 ==> r == Some(&self.tasks().last()),
    {
        if self.queue.len() == 0 {
            None
        } else {
            Some(&self.queue[self.queue.len() - 1])
        }
    }

    /// The number of tasks.
    pub fn len(&self) -> (r: usize)
        ensures
            r == self.tasks().len(),
    {
        self.queue.len()
    }

    /// Whether the queue holds no task.
    pub fn is_empty(&self) -> (r: bool)
        ensures
            r == (self.tasks().len() == 0),
    {
        self.queue.len() == 0
    }

    /// The first task with the given identifier.
    pub fn get_by_id(&self, id: &str) -> (r: Option<&AgentTask>)
        ensures
            match first_task_with_id(self.tasks(), id@) {
                Some(i) => r == Some(&self.tasks()[i]),
                None => r is None,
            },
    {
        match self.find(id) {
            Some(i) => Some(&self.queue[i]),
            None => None,
        }
    }

    /// Replaces the first task with the identifier of `task` by `task` and
    /// puts the queue back in order; without such a task nothing changes.
    pub fn update_task(&mut self, task: AgentTask)
        ensures
            match first_task_with_id(old(self).tasks(), task.id@) {
                Some(i) => final(self).tasks() == in_queue_order(old(self).tasks().update(i, task)),
                None => final(self).tasks() == old(self).tasks(),
            },
            queue_sorted(final(self).tasks()),
    {
        proof {
            use_type_invariant(&*self);
        }
        match self.find(task.id.as_str()) {
            Some(i) => {
                let mut q: Vec<AgentTask> = Vec::new();
                std::mem::swap(&mut q, &mut self.queue);
                q.set(i, task);
                let sorted = sort_tasks(q);
                proof {
                    law_queue_order_sorted(old(self).queue@.update(i as int, task));
                }
                self.queue = sorted;
            },
            None => {},
        }
    }

    /// Takes out the first task with the given identifier.
    pub fn remove_by_id(&mut self, id: &str) -> (r: Option<AgentTask>)
        ensures
            match first_task_with_id(old(self).tasks(), id@) {
                Some(i) => r == Some(old(self).tasks()[i]) && final(self).tasks() == old(self).tasks().remove(i),
                None => r is None && final(self).tasks() == old(self).tasks(),
            },
            queue_sorted(final(self).tasks()),
    {
        proof {
            use_type_invariant(&*self);
        }
        match self.find(id) {
            Some(i) => {
                let mut q: Vec<AgentTask> = Vec::new();
                std::mem::swap(&mut q, &mut self.queue);
                let t = q.remove(i);
                proof {
                    lemma_remove_keeps_sorted(old(self).queue@, i as int);
                }
                self.queue = q;
                Some(t)
            },
            None => None,
        }
    }

    /// The pending tasks, in queue order.
    pub fn get_pending_tasks(&self) -> (r: Vec<&AgentTask>)
        ensures
            r@.map_values(|t: &AgentTask| *t) == self.tasks().filter(|t: AgentTask| t.status == TaskStatus::Pending),
    {
        self.with_status(TaskStatus::Pending)
    }

    /// The running tasks, in queue order.
    pub fn get_running_tasks(&self) -> (r: Vec<&AgentTask>)
        ensures
            r@.map_values(|t: &AgentTask| *t) == self.tasks().filter(|t: AgentTask| t.status == TaskStatus::Running),
    {
        self.with_status(TaskStatus::Running)
    }

    fn with_status(&self, status: TaskStatus) -> (r: Vec<&AgentTask>)
        ensures
            r@.map_values(|t: &AgentTask| *t) == self.tasks().filter(|t: AgentTask| t.status == status),
    {
        let ghost s = self.queue@;
        let ghost pred = |t: AgentTask| t.status == status;
        let mut r: Vec<&AgentTask> = Vec::new();
        let mut i: usize = 0;
        while i < self.queue.len()
            invariant
                s == self.queue@,
                pred == (|t: AgentTask| t.status == status),
                i <= s.len(),
                r@.map_values(|t: &AgentTask| *t) == s.take(i as int).filter(pred),
            decreases s.len() - i,
        {
            proof {
                assert(s.take(i + 1) =~= s.take(i as int).push(s[i as int]));
                s.take(i as int).lemma_filter_push(s[i as int], pred);
            }
            if self.queue[i].status == status {
                r.push(&self.queue[i]);
            }
            i = i + 1;
        }
        assert(s.take(s.len() as int) =~= s);
        r
    }

    /// All tasks, in queue order.
    pub fn get_all_tasks(&self) -> (r: Vec<&AgentTask>)
        ensures
            r@.map_values(|t: &AgentTask| *t) == self.tasks(),
    {
        let ghost s = self.queue@;
        let mut r: Vec<&AgentTask> = Vec::new();
        let mut i: usize = 0;
        while i < self.queue.len()
            invariant
                s == self.queue@,
                i <= s.len(),
                r@.map_values(|t: &AgentTask| *t) == s.take(i as int),
            decreases s.len() - i,
        {
            let ghost r0 = r@;
            r.push(&self.queue[i]);
            assert(r@ == r0.push(&self.queue[i as int]));
            assert(r@.map_values(|t: &AgentTask| *t) =~= r0.map_values(|t: &AgentTask| *t).push(s[i as int]));
            assert(s.take(i + 1) =~= s.take(i as int).push(s[i as int]));
            i = i + 1;
        }
        assert(s.take(s.len() as int) =~= s);
        r
    }
}

impl Default for TaskQueue {
    fn default() -> (q: Self)
        ensures
            q.tasks().len() == 0,
    {
        Self::new()
    }
}

} // verus!
