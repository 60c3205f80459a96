//! The state of an agent: its lifecycle, configuration and the tasks it
//! made. Talking to the agent is left to the caller, who reports back what
//! the connector answered.
use vstd::prelude::*;
use std::collections::HashMap;
use super::connector::Connector;
use crate::json::json_text_member;
use super::task::{AgentTask, TaskConfig, TaskPriority, TaskStatus};
use crate::runtime::{new_id, now_timestamp};
use crate::text::{concat, owned};

verus! {

/// Where an agent stands in its lifecycle.
#[derive(Debug, Clone, Copy, PartialEq, Eq, Structural)]
pub enum AgentStatus {
    Inactive,
    Starting,
    Active,
    Paused,
    Error,
    ShuttingDown,
}

/// The name of a status.
pub open spec fn agent_status_name(s: AgentStatus) -> Seq<char> {
    match s {
        AgentStatus::Inactive => "inactive"@,
        AgentStatus::Starting => "starting"@,
        AgentStatus::Active => "active"@,
        AgentStatus::Paused => "paused"@,
        AgentStatus::Error => "error"@,
        AgentStatus::ShuttingDown => "shutting_down"@,
    }
}

impl AgentStatus {
    /// The lower-case name of this status.
    pub fn as_str(&self) -> (r: &'static str)
        ensures
            r@ == agent_status_name(*self),
    {
        match self {
            AgentStatus::Inactive => "inactive",
            AgentStatus::Starting => "starting",
            AgentStatus::Active => "active",
            AgentStatus::Paused => "paused",
            AgentStatus::Error => "error",
            AgentStatus::ShuttingDown => "shutting_down",
        }
    }

    /// The name of this status, as a `String` (what it displays as).
    pub fn to_string(&self) -> (r: String)
        ensures
            r@ == agent_status_name(*self),
    {
        owned(self.as_str())
    }
}

/// How an agent runs its tasks.
#[derive(Debug, Clone, Copy, PartialEq, Eq, Structural)]
pub struct AgentConfig {
    pub max_concurrent_tasks: Option<u32>,
    pub task_timeout_seconds: Option<u64>,
    pub retry_on_failure: bool,
    pub max_retries: u32,
    pub auto_heartbeat: bool,
    pub heartbeat_interval_seconds: u64,
}

/// The default agent configuration: three tasks at once, five-minute
/// timeout, three retries, a heartbeat every minute.
pub open spec fn default_agent_config() -> AgentConfig {
    AgentConfig {
        max_concurrent_tasks: Some(3),
        task_timeout_seconds: Some(300),
        retry_on_failure: true,
        max_retries: 3,
        auto_heartbeat: true,
        heartbeat_interval_seconds: 60,
    }
}

impl Default for AgentConfig {
    fn default() -> (r: Self)
        ensures
            r == default_agent_config(),
    {
        AgentConfig {
            max_concurrent_tasks: Some(3),
            task_timeout_seconds: Some(300),
            retry_on_failure: true,
            max_retries: 3,
            auto_heartbeat: true,
            heartbeat_interval_seconds: 60,
        }
    }
}

/// What to do after a task ran.
pub enum ExecutionStep {
    /// The task completed with this result.
    Done(serde_json::Value),
    /// The task failed and is to be run again.
    Retry,
    /// The task failed for good.
    Failed(String),
}

/// How many times a failed task may run again: the attempts left when
/// retries are on, none otherwise.
pub open spec fn retries_allowed(retry_on_failure: bool, attempts: u32, max_attempts: u32) -> nat {
    if retry_on_failure && attempts < max_attempts {
        (max_attempts - attempts) as nat
    } else {
        0
    }
}

/// The position of the first answer that is a result, or the number of
/// answers when all are errors.
pub open spec fn first_result(answers: Seq<Result<serde_json::Value, String>>) -> nat
    decreases answers.len(),
{
    if answers.len() == 0 {
        0
    } else if answers[0] is Ok {
        0
    } else {
        1 + first_result(answers.drop_first())
    }
}

/// How many runs a task takes with these answers: up to the first result,
/// and no more than one run plus the retries allowed.
pub open spec fn runs_taken(answers: Seq<Result<serde_json::Value, String>>, allowed: nat) -> nat {
    if first_result(answers) < allowed {
        first_result(answers) + 1
    } else {
        allowed + 1
    }
}

/// When the first `k` answers are errors, the first result is at `k` or
/// later, and exactly at `k` when answer `k` is a result.
proof fn lemma_first_result_at(answers: Seq<Result<serde_json::Value, String>>, k: int)
    requires
        0 <= k < answers.len(),
        forall|j: int| 0 <= j < k ==> answers[j] is Err,
    ensures
        first_result(answers) >= k,
        answers[k] is Ok ==> first_result(answers) == k,
        answers[k] is Err ==> first_result(answers) > k,
    decreases k,
{
    if k > 0 {
        let rest = answers.drop_first();
        assert forall|j: int| 0 <= j < k - 1 implies rest[j] is Err by {
            assert(rest[j] == answers[j + 1]);
        }
        assert(rest[k - 1] == answers[k]);
        lemma_first_result_at(rest, k - 1);
    }
}

/// An agent.
pub struct Agent {
    pub id: String,
    pub name: String,
    pub agent_type: String,
    pub status: AgentStatus,
    pub config: AgentConfig,
    pub collection_enabled: bool,
    pub created_at: i64,
    pub updated_at: i64,
    pub last_activity: Option<i64>,
    pub tasks: Vec<String>,
    pub error_message: Option<String>,
}

impl Agent {
    /// The identifiers of the tasks the agent made, in order.
    pub open spec fn task_ids(self) -> Seq<Seq<char>> {
        self.tasks.deep_view()
    }

    /// The last error met.
    pub open spec fn error(self) -> Option<Seq<char>> {
        match self.error_message {
            Some(e) => Some(e@),
            None => None,
        }
    }

    /// An inactive agent with the default configuration, collection off,
    /// no task and no error, created now.
    pub fn new(id: String, name: String, agent_type: String) -> (a: Self)
        ensures
            a.id == id,
            a.name == name,
            a.agent_type == agent_type,
            a.status == AgentStatus::Inactive,
            a.config == default_agent_config(),
            !a.collection_enabled,
            a.created_at == a.updated_at,
            a.last_activity is None,
            a.task_ids().len() == 0,
            a.error() is None,
    {
        let now = now_timestamp();
        Agent {
            id,
            name,
            agent_type,
            status: AgentStatus::Inactive,
            config: AgentConfig::default(),
            collection_enabled: false,
            created_at: now,
            updated_at: now,
            last_activity: None,
            tasks: Vec::new(),
            error_message: None,
        }
    }

    /// Replaces the configuration.
    pub fn apply_config(&mut self, config: AgentConfig) -> (r: Result<(), String>)
        ensures
            r is Ok,
            final(self).config == config,
            final(self).status == old(self).status,
            final(self).task_ids() == old(self).task_ids(),
    {
        self.config = config;
        self.updated_at = now_timestamp();
        Ok(())
    }

    /// Starts activating: an active agent needs nothing more (`false`);
    /// any other becomes `Starting` and its connector must be asked to
    /// connect (`true`).
    pub fn begin_activate(&mut self) -> (connect: bool)
        ensures
            connect == (old(self).status != AgentStatus::Active),
            final(self).status == if connect { AgentStatus::Starting } else { AgentStatus::Active },
            final(self).task_ids() == old(self).task_ids(),
    {
        if self.status == AgentStatus::Active {
            return false;
        }
        self.status = AgentStatus::Starting;
        true
    }

    /// Ends activating with what the connector answered: active when it
    /// connected; otherwise in error, with the reason kept.
    pub fn finish_activate(&mut self, connected: Result<(), String>) -> (r: Result<(), String>)
        ensures
            match connected {
                Ok(_) => r is Ok && final(self).status == AgentStatus::Active && final(self).last_activity is Some,
                Err(e) => final(self).status == AgentStatus::Error && (r matches Err(m) && m@
                    == "Failed to activate agent: "@ + e@) && final(self).error() == Some(
                    "Failed to connect: "@ + e@,
                ),
            },
            final(self).task_ids() == old(self).task_ids(),
    {
        match connected {
            Ok(_) => {
                self.status = AgentStatus::Active;
                self.updated_at = now_timestamp();
                self.last_activity = Some(now_timestamp());
                Ok(())
            },
            Err(e) => {
                self.status = AgentStatus::Error;
                self.error_message = Some(concat("Failed to connect: ", e.as_str()));
                Err(concat("Failed to activate agent: ", e.as_str()))
            },
        }
    }

    /// Pauses an active agent; any other is refused.
    pub fn pause(&mut self) -> (r: Result<(), String>)
        ensures
            old(self).status == AgentStatus::Active ==> r is Ok && final(self).status == AgentStatus::Paused,
            old(self).status != AgentStatus::Active ==> (r matches Err(m) && m@ == "Agent is not active"@)
                && final(self).status == old(self).status,
            final(self).task_ids() == old(self).task_ids(),
    {
        if self.status != AgentStatus::Active {
            return Err(owned("Agent is not active"));
        }
        self.status = AgentStatus::Paused;
        self.updated_at = now_timestamp();
        Ok(())
    }

    /// Resumes a paused agent; any other is refused.
    pub fn resume(&mut self) -> (r: Result<(), String>)
        ensures
            old(self).status == AgentStatus::Paused ==> r is Ok && final(self).status == AgentStatus::Active
                && final(self).last_activity is Some,
            old(self).status != AgentStatus::Paused ==> (r matches Err(m) && m@ == "Agent is not paused"@)
                && final(self).status == old(self).status,
            final(self).task_ids() == old(self).task_ids(),
    {
        if self.status != AgentStatus::Paused {
            return Err(owned("Agent is not paused"));
        }
        self.status = AgentStatus::Active;
        self.updated_at = now_timestamp();
        self.last_activity = Some(now_timestamp());
        Ok(())
    }

    /// Starts shutting down; the connector must then be disconnected.
    pub fn begin_shutdown(&mut self)
        ensures
            final(self).status == AgentStatus::ShuttingDown,
            final(self).task_ids() == old(self).task_ids(),
    {
        self.status = AgentStatus::ShuttingDown;
    }

    /// Ends shutting down with what disconnecting answered: inactive when
    /// it succeeded; otherwise still shutting down, with the error passed
    /// on.
    pub fn finish_shutdown(&mut self, disconnected: Result<(), String>) -> (r: Result<(), String>)
        ensures
            r == disconnected,
            disconnected is Ok ==> final(self).status == AgentStatus::Inactive,
            disconnected is Err ==> final(self).status == old(self).status,
            final(self).task_ids() == old(self).task_ids(),
    {
        if disconnected.is_ok() {
            self.status = AgentStatus::Inactive;
            self.updated_at = now_timestamp();
        }
        disconnected
    }

    /// A pending task made from the configuration, under a fresh
    /// identifier that the agent records; only an active agent makes
    /// tasks.
    pub fn create_task(&mut self, config: TaskConfig) -> (r: Result<AgentTask, String>)
        ensures
            old(self).status != AgentStatus::Active ==> (r matches Err(m) && m@ == "Agent is not active"@)
                && final(self).task_ids() == old(self).task_ids(),
            old(self).status == AgentStatus::Active ==> (r matches Ok(t) && {
                &&& t.id@.len() == 36
                &&& t.agent_id == old(self).id
                &&& t.task_type == config.task_type
                &&& t.status == TaskStatus::Pending
                &&& t.priority == config.priority
                &&& t.payload == config.payload
                &&& t.result is None
                &&& t.error is None
                &&& t.started_at is None
                &&& t.completed_at is None
                &&& t.duration_ms is None
                &&& t.attempts == 0
                &&& t.max_attempts == old(self).config.max_retries
                &&& t.metadata@ == match config.metadata {
                    Some(m) => m@,
                    None => Map::<String, String>::empty(),
                }
                &&& final(self).task_ids() == old(self).task_ids().push(t.id@)
            }),
            final(self).status == old(self).status,
    {
        if self.status != AgentStatus::Active {
            return Err(owned("Agent is not active"));
        }
        let task_id = new_id();
        let now = now_timestamp();
        let metadata = match config.metadata {
            Some(m) => m,
            None => HashMap::new(),
        };
        let task = AgentTask {
            id: task_id.clone(),
            agent_id: self.id.clone(),
            task_type: config.task_type,
            status: TaskStatus::Pending,
            priority: config.priority,
            payload: config.payload,
            result: None,
            error: None,
            created_at: now,
            started_at: None,
            completed_at: None,
            duration_ms: None,
            attempts: 0,
            max_attempts: self.config.max_retries,
            metadata,
        };
        let ghost t0 = self.tasks.deep_view();
        self.tasks.push(task_id);
        assert(self.tasks.deep_view() =~= t0.push(task.id@));
        Ok(task)
    }

    /// Starts running a task: only an active agent runs tasks; the task
    /// becomes running, started now.
    pub fn begin_execution(&self, task: &mut AgentTask) -> (r: Result<(), String>)
        ensures
            self.status != AgentStatus::Active ==> (r matches Err(m) && m@ == "Agent is not active"@)
                && *final(task) == *old(task),
            self.status == AgentStatus::Active ==> r is Ok && final(task).status == TaskStatus::Running
                && (final(task).started_at matches Some(s) && 0 <= s < 10_000_000_000_000)
                && final(task).id == old(task).id && final(task).attempts == old(task).attempts
                && final(task).max_attempts == old(task).max_attempts,
    {
        if self.status != AgentStatus::Active {
            return Err(owned("Agent is not active"));
        }
        task.status = TaskStatus::Running;
        task.started_at = Some(now_timestamp());
        Ok(())
    }

    /// Ends a run of a task with what the connector answered: a result
    /// completes the task; an error fails it, and while retries are on and
    /// attempts are left the attempt is counted and the task is pending
    /// again, to be run once more.
    pub fn finish_execution(&mut self, task: &mut AgentTask, result: Result<serde_json::Value, String>) -> (r: ExecutionStep)
        requires
            old(task).started_at matches Some(s) ==> 0 <= s < 10_000_000_000_000,
        ensures
            match result {
                Ok(v) => (r matches ExecutionStep::Done(x) && x == v) && final(task).status == TaskStatus::Completed
                    && final(task).result == Some(v) && final(self).last_activity is Some
                    && final(task).attempts == old(task).attempts,
                Err(e) => {
                    &&& final(task).error == Some(e)
                    &&& if old(self).config.retry_on_failure && old(task).attempts < old(task).max_attempts {
                        r is Retry && final(task).status == TaskStatus::Pending && final(task).attempts
                            == old(task).attempts + 1
                    } else {
                        (r matches ExecutionStep::Failed(x) && x == e) && final(task).status == TaskStatus::Failed
                            && final(task).attempts == old(task).attempts
                    }
                },
            },
            final(task).completed_at is Some,
            final(task).started_at == old(task).started_at,
            final(task).id == old(task).id,
            final(task).max_attempts == old(task).max_attempts,
            old(task).started_at matches Some(s) ==> final(task).duration_ms == Some(
                (final(task).completed_at->0 - s) as i64,
            ),
            final(self).status == old(self).status,
            final(self).config == old(self).config,
            final(self).task_ids() == old(self).task_ids(),
    {
        let completed = now_timestamp();
        task.completed_at = Some(completed);
        if let Some(started) = task.started_at {
            task.duration_ms = Some(completed - started);
        }
        match result {
            Ok(value) => {
                task.status = TaskStatus::Completed;
                task.result = Some(value.clone());
                self.last_activity = Some(now_timestamp());
                ExecutionStep::Done(value)
            },
            Err(e) => {
                task.status = TaskStatus::Failed;
                task.error = Some(e.clone());
                if self.config.retry_on_failure && task.attempts < task.max_attempts {
                    task.attempts = task.attempts + 1;
                    task.status = TaskStatus::Pending;
                    return ExecutionStep::Retry;
                }
                ExecutionStep::Failed(e)
            },
        }
    }

    /// The identifiers of the tasks the agent made.
    pub fn get_task_ids(&self) -> (r: Vec<String>)
        ensures
            r.deep_view() == self.task_ids(),
    {
        let r = crate::text::copy_string_vec(&self.tasks);
        assert(r.deep_view() =~= self.tasks.deep_view());
        r
    }

    /// Turns knowledge collection on.
    pub fn enable_collection(&mut self)
        ensures
            final(self).collection_enabled,
            final(self).status == old(self).status,
    {
        self.collection_enabled = true;
    }

    /// Turns knowledge collection off.
    pub fn disable_collection(&mut self)
        ensures
            !final(self).collection_enabled,
            final(self).status == old(self).status,
    {
        self.collection_enabled = false;
    }

    /// Records activity now.
    pub fn update_activity(&mut self)
        ensures
            final(self).last_activity is Some,
            final(self).status == old(self).status,
    {
        self.last_activity = Some(now_timestamp());
    }

    /// The last error met.
    pub fn get_error(&self) -> (r: Option<&str>)
        ensures
            match self.error() {
                Some(e) => r matches Some(x) && x@ == e,
                None => r is None,
            },
    {
        match &self.error_message {
            Some(e) => Some(e.as_str()),
            None => None,
        }
    }

    /// Activates the agent through its connector: an active agent stays
    /// as it is; any other connects and becomes active.
    pub fn activate(&mut self, connector: &mut Connector) -> (r: Result<(), String>)
        ensures
            r is Ok,
            final(self).status == AgentStatus::Active,
            old(self).status == AgentStatus::Active ==> *final(connector) == *old(connector),
            old(self).status != AgentStatus::Active ==> final(connector).is_connected()
                && final(self).last_activity is Some,
            final(connector).kind() == old(connector).kind(),
            final(self).task_ids() == old(self).task_ids(),
    {
        if !self.begin_activate() {
            return Ok(());
        }
        let connected = connector.connect();
        self.finish_activate(connected)
    }

    /// Shuts the agent down: its connector is disconnected and the agent
    /// becomes inactive.
    pub fn shutdown(&mut self, connector: &mut Connector) -> (r: Result<(), String>)
        ensures
            r is Ok,
            final(self).status == AgentStatus::Inactive,
            !final(connector).is_connected(),
            final(connector).kind() == old(connector).kind(),
            final(self).task_ids() == old(self).task_ids(),
    {
        self.begin_shutdown();
        let disconnected = connector.disconnect();
        self.finish_shutdown(disconnected)
    }

    /// Runs a task through the connector: only an active agent runs tasks;
    /// the task is run, and run again while it fails and retries are left,
    /// and the connector's answer is given back.
    pub fn execute_task(&mut self, connector: &Connector, task: &mut AgentTask) -> (r: Result<
        serde_json::Value,
        String,
    >)
        ensures
            old(self).status != AgentStatus::Active ==> (r matches Err(m) && m@ == "Agent is not active"@)
                && *final(task) == *old(task),
            old(self).status == AgentStatus::Active ==> (r matches Ok(v) && final(task).result == Some(v)
                && json_text_member(v, "task_id"@) == Some(old(task).id@) && json_text_member(v, "status"@)
                == Some("completed"@)) && final(task).status == TaskStatus::Completed && final(task).started_at is Some
                && final(task).completed_at is Some && final(self).last_activity is Some,
            final(task).id == old(task).id,
            final(self).status == old(self).status,
            final(self).task_ids() == old(self).task_ids(),
    {
        if self.status != AgentStatus::Active {
            return Err(owned("Agent is not active"));
        }
        let _ = self.begin_execution(task);
        loop
            invariant
                self.status == old(self).status,
                old(self).status == AgentStatus::Active,
                self.task_ids() == old(self).task_ids(),
                task.id == old(task).id,
                task.status == TaskStatus::Running,
                task.started_at matches Some(s) && 0 <= s < 10_000_000_000_000,
                task.attempts <= task.max_attempts || task.attempts == old(task).attempts,
            decreases task.max_attempts - task.attempts,
        {
            let result = connector.execute_task(task);
            match self.finish_execution(task, result) {
                ExecutionStep::Done(v) => {
                    return Ok(v);
                },
                ExecutionStep::Failed(e) => {
                    return Err(e);
                },
                ExecutionStep::Retry => {
                    let _ = self.begin_execution(task);
                },
            }
        }
    }

    /// Runs a task, the connector giving `answers[k]` on the `k`-th run:
    /// only an active agent runs tasks; a failed run is run again while
    /// retries are on and attempts are left (see [`retries_allowed`]),
    /// each retry counted as an attempt, and the last answer is given
    /// back: the task completed with it, or failed with its error.
    pub fn execute_task_with(&mut self, task: &mut AgentTask, answers: Vec<Result<serde_json::Value, String>>) -> (r:
        Result<serde_json::Value, String>)
        requires
            answers@.len() > retries_allowed(
                old(self).config.retry_on_failure,
                old(task).attempts,
                old(task).max_attempts,
            ),
        ensures
            old(self).status != AgentStatus::Active ==> (r matches Err(m) && m@ == "Agent is not active"@)
                && *final(task) == *old(task),
            old(self).status == AgentStatus::Active ==> {
                let runs = runs_taken(
                    answers@,
                    retries_allowed(old(self).config.retry_on_failure, old(task).attempts, old(task).max_attempts),
                );
                &&& r == answers@[runs - 1]
                &&& final(task).attempts == old(task).attempts + runs - 1
                &&& match answers@[runs - 1] {
                    Ok(v) => final(task).status == TaskStatus::Completed && final(task).result == Some(v),
                    Err(e) => final(task).status == TaskStatus::Failed && final(task).error == Some(e),
                }
                &&& final(task).completed_at is Some
            },
            final(task).id == old(task).id,
            final(self).status == old(self).status,
            final(self).task_ids() == old(self).task_ids(),
    {
        if self.status != AgentStatus::Active {
            return Err(owned("Agent is not active"));
        }
        let ghost allowed = retries_allowed(self.config.retry_on_failure, task.attempts, task.max_attempts);
        let ghost a0 = task.attempts;
        let ghost all = answers@;
        let _ = self.begin_execution(task);
        let mut rest = answers;
        let mut k: usize = 0;
        loop
            invariant
                self.status == old(self).status,
                old(self).status == AgentStatus::Active,
                self.config == old(self).config,
                self.task_ids() == old(self).task_ids(),
                allowed == retries_allowed(old(self).config.retry_on_failure, old(task).attempts, old(task).max_attempts),
                a0 == old(task).attempts,
                all == answers@,
                all.len() > allowed,
                k <= allowed,
                rest@ == all.skip(k as int),
                forall|j: int| 0 <= j < k ==> all[j] is Err,
                task.id == old(task).id,
                task.max_attempts == old(task).max_attempts,
                task.attempts == a0 + k,
                task.status == TaskStatus::Running,
                task.started_at matches Some(s) && 0 <= s < 10_000_000_000_000,
            decreases allowed - k,
        {
            let answer = rest.remove(0);
            let ghost got = answer;
            assert(got == all[k as int]);
            proof {
                lemma_first_result_at(all, k as int);
            }
            match self.finish_execution(task, answer) {
                ExecutionStep::Done(v) => {
                    assert(runs_taken(all, allowed) == k + 1);
                    return Ok(v);
                },
                ExecutionStep::Failed(e) => {
                    assert(k == allowed);
                    assert(runs_taken(all, allowed) == k + 1);
                    return Err(e);
                },
                ExecutionStep::Retry => {
                    assert(k < allowed);
                    let _ = self.begin_execution(task);
                    proof {
                        assert(rest@ =~= all.skip(k + 1));
                    }
                    k = k + 1;
                },
            }
        }
    }

    /// Asks the connector whether the agent is healthy: an agent that is
    /// not active is not, whatever the connector would say.
    pub fn health_check(&self, connector: &Connector) -> (r: Result<bool, String>)
        ensures
            r == Ok::<bool, String>(self.status == AgentStatus::Active && connector.is_connected()),
    {
        if !self.health_needs_ping() {
            return Ok(false);
        }
        connector.ping()
    }

    /// Whether a health check must ask the connector: only an active agent
    /// can be healthy; for any other the check answers `false` at once.
    pub fn health_needs_ping(&self) -> (r: bool)
        ensures
            r == (self.status == AgentStatus::Active),
    {
        self.status == AgentStatus::Active
    }
}

} // verus!
