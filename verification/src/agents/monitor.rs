//! Counting what agents use and do: tokens spent on model calls, tasks
//! run with their durations, and whether an agent is being watched. The
//! costs and averages, which are fractional, are kept by the caller.
use vstd::prelude::*;

verus! {

/// Tokens used by calls to a model.
#[derive(Debug, Clone, Copy, PartialEq, Eq, Structural)]
pub struct TokenUsage {
    pub input_tokens: u32,
    pub output_tokens: u32,
    pub total_tokens: u32,
}

impl Default for TokenUsage {
    /// No tokens.
    fn default() -> (r: Self)
        ensures
            r == (TokenUsage { input_tokens: 0, output_tokens: 0, total_tokens: 0 }),
    {
        TokenUsage { input_tokens: 0, output_tokens: 0, total_tokens: 0 }
    }
}


impl TokenUsage {
    /// Adds the tokens of one call: its input and output tokens, and both
    /// to the total.
    pub fn add_call(&mut self, input_tokens: u32, output_tokens: u32)
        requires
            old(self).input_tokens + input_tokens <= u32::MAX,
            old(self).output_tokens + output_tokens <= u32::MAX,
            old(self).total_tokens + input_tokens + output_tokens <= u32::MAX,
        ensures
            final(self).input_tokens == old(self).input_tokens + input_tokens,
            final(self).output_tokens == old(self).output_tokens + output_tokens,
            final(self).total_tokens == old(self).total_tokens + input_tokens + output_tokens,
    {
        self.input_tokens = self.input_tokens + input_tokens;
        self.output_tokens = self.output_tokens + output_tokens;
        self.total_tokens = self.total_tokens + (input_tokens + output_tokens);
    }
}

/// The whole-number part of an agent's task record: how many tasks ran,
/// succeeded and failed, and the longest and shortest duration (the
/// shortest starts at `i64::MAX`, the longest at zero).
#[derive(Debug, Clone, Copy, PartialEq, Eq, Structural)]
pub struct TaskStats {
    pub task_count: u32,
    pub success_count: u32,
    pub failure_count: u32,
    pub max_task_duration_ms: i64,
    pub min_task_duration_ms: i64,
}

impl TaskStats {
    /// No task yet.
    pub fn new() -> (r: Self)
        ensures
            r == (TaskStats {
                task_count: 0,
                success_count: 0,
                failure_count: 0,
                max_task_duration_ms: 0,
                min_task_duration_ms: i64::MAX,
            }),
    {
        TaskStats {
            task_count: 0,
            success_count: 0,
            failure_count: 0,
            max_task_duration_ms: 0,
            min_task_duration_ms: i64::MAX,
        }
    }

    /// Records a task that took `duration_ms` and succeeded or failed.
    pub fn record_task(&mut self, duration_ms: i64, success: bool)
        requires
            old(self).task_count < u32::MAX,
            success ==> old(self).success_count < u32::MAX,
            !success ==> old(self).failure_count < u32::MAX,
        ensures
            final(self).task_count == old(self).task_count + 1,
            final(self).success_count == old(self).success_count + if success { 1int } else { 0 },
            final(self).failure_count == old(self).failure_count + if success { 0int } else { 1 },
            final(self).max_task_duration_ms == if duration_ms > old(self).max_task_duration_ms {
                duration_ms
            } else {
                old(self).max_task_duration_ms
            },
            final(self).min_task_duration_ms == if duration_ms < old(self).min_task_duration_ms {
                duration_ms
            } else {
                old(self).min_task_duration_ms
            },
    {
        self.task_count = self.task_count + 1;
        if success {
            self.success_count = self.success_count + 1;
        } else {
            self.failure_count = self.failure_count + 1;
        }
        if duration_ms > self.max_task_duration_ms {
            self.max_task_duration_ms = duration_ms;
        }
        if duration_ms < self.min_task_duration_ms {
            self.min_task_duration_ms = duration_ms;
        }
    }
}

/// The sum of the first `n` durations.
pub open spec fn durations_sum(d: Seq<i64>, n: nat) -> int
    decreases n,
{
    if n == 0 || n > d.len() {
        0
    } else {
        durations_sum(d, (n - 1) as nat) + d[n - 1]
    }
}

/// What is known of one agent while it is watched.
pub struct AgentMonitor {
    agent_id: String,
    is_monitoring: bool,
    monitoring_start_time: Option<i64>,
    task_durations: Vec<i64>,
    stats: TaskStats,
    api_call_count: u32,
    tokens: TokenUsage,
}

impl AgentMonitor {
    /// The agent watched.
    pub closed spec fn agent(self) -> Seq<char> {
        self.agent_id@
    }

    /// Whether the agent is being watched.
    pub closed spec fn watching(self) -> bool {
        self.is_monitoring
    }

    /// Since when the agent has been watched.
    pub closed spec fn since(self) -> Option<i64> {
        self.monitoring_start_time
    }

    /// The durations of the tasks recorded, in order.
    pub closed spec fn durations(self) -> Seq<i64> {
        self.task_durations@
    }

    /// The task record.
    pub closed spec fn task_stats(self) -> TaskStats {
        self.stats
    }

    /// The number of model calls recorded.
    pub closed spec fn calls(self) -> u32 {
        self.api_call_count
    }

    /// The tokens of the model calls recorded.
    pub closed spec fn token_usage(self) -> TokenUsage {
        self.tokens
    }

    /// A monitor of `agent_id`, not watching, with nothing recorded.
    pub fn new(agent_id: String) -> (r: Self)
        ensures
            r.agent() == agent_id@,
            !r.watching(),
            r.since() is None,
            r.durations().len() == 0,
            r.task_stats() == TaskStats::new_spec(),
            r.calls() == 0,
            r.token_usage() == (TokenUsage { input_tokens: 0, output_tokens: 0, total_tokens: 0 }),
    {
        AgentMonitor {
            agent_id,
            is_monitoring: false,
            monitoring_start_time: None,
            task_durations: Vec::new(),
            stats: TaskStats::new(),
            api_call_count: 0,
            tokens: TokenUsage { input_tokens: 0, output_tokens: 0, total_tokens: 0 },
        }
    }

    /// Starts watching at time `now`; watching already, nothing changes.
    pub fn start(&mut self, now: i64)
        ensures
            final(self).watching(),
            final(self).since() == if old(self).watching() { old(self).since() } else { Some(now) },
            final(self).durations() == old(self).durations(),
            final(self).task_stats() == old(self).task_stats(),
    {
        if self.is_monitoring {
            return;
        }
        self.is_monitoring = true;
        self.monitoring_start_time = Some(now);
    }

    /// Stops watching.
    pub fn stop(&mut self)
        ensures
            !final(self).watching(),
            final(self).since() is None,
            final(self).durations() == old(self).durations(),
            final(self).task_stats() == old(self).task_stats(),
    {
        self.is_monitoring = false;
        self.monitoring_start_time = None;
    }

    /// Records a finished task: its duration is kept and counted.
    pub fn record_task(&mut self, duration_ms: i64, success: bool)
        requires
            old(self).task_stats().task_count < u32::MAX,
            success ==> old(self).task_stats().success_count < u32::MAX,
            !success ==> old(self).task_stats().failure_count < u32::MAX,
        ensures
            final(self).durations() == old(self).durations().push(duration_ms),
            final(self).task_stats().task_count == old(self).task_stats().task_count + 1,
            final(self).task_stats().success_count == old(self).task_stats().success_count + if success { 1int } else { 0 },
            final(self).task_stats().failure_count == old(self).task_stats().failure_count + if success { 0int } else { 1 },
            final(self).task_stats().max_task_duration_ms == if duration_ms > old(self).task_stats().max_task_duration_ms {
                duration_ms
            } else {
                old(self).task_stats().max_task_duration_ms
            },
            final(self).task_stats().min_task_duration_ms == if duration_ms < old(self).task_stats().min_task_duration_ms {
                duration_ms
            } else {
                old(self).task_stats().min_task_duration_ms
            },
            final(self).watching() == old(self).watching(),
            final(self).since() == old(self).since(),
    {
        self.stats.record_task(duration_ms, success);
        self.task_durations.push(duration_ms);
    }

    /// Records a model call and its tokens.
    pub fn record_api_call(&mut self, input_tokens: u32, output_tokens: u32)
        requires
            old(self).calls() < u32::MAX,
            old(self).token_usage().input_tokens + input_tokens <= u32::MAX,
            old(self).token_usage().output_tokens + output_tokens <= u32::MAX,
            old(self).token_usage().total_tokens + input_tokens + output_tokens <= u32::MAX,
        ensures
            final(self).calls() == old(self).calls() + 1,
            final(self).token_usage().input_tokens == old(self).token_usage().input_tokens + input_tokens,
            final(self).token_usage().output_tokens == old(self).token_usage().output_tokens + output_tokens,
            final(self).token_usage().total_tokens == old(self).token_usage().total_tokens + input_tokens + output_tokens,
            final(self).durations() == old(self).durations(),
            final(self).task_stats() == old(self).task_stats(),
    {
        self.api_call_count = self.api_call_count + 1;
        self.tokens.add_call(input_tokens, output_tokens);
    }

    /// The task record.
    pub fn get_task_stats(&self) -> (r: TaskStats)
        ensures
            r == self.task_stats(),
    {
        self.stats
    }

    /// The tokens of the model calls recorded.
    pub fn get_token_usage(&self) -> (r: TokenUsage)
        ensures
            r == self.token_usage(),
    {
        self.tokens
    }

    /// The number of model calls recorded.
    pub fn get_api_call_count(&self) -> (r: u32)
        ensures
            r == self.calls(),
    {
        self.api_call_count
    }

    /// The number of tasks whose durations were recorded.
    pub fn recorded_tasks(&self) -> (r: usize)
        ensures
            r == self.durations().len(),
    {
        self.task_durations.len()
    }

    /// Since when the agent has been watched.
    pub fn started_at(&self) -> (r: Option<i64>)
        ensures
            r == self.since(),
    {
        self.monitoring_start_time
    }

    /// Whether the agent is being watched.
    pub fn is_monitoring(&self) -> (r: bool)
        ensures
            r == self.watching(),
    {
        self.is_monitoring
    }

    /// The agent watched.
    pub fn agent_id(&self) -> (r: &str)
        ensures
            r@ == self.agent(),
    {
        self.agent_id.as_str()
    }

    /// The durations of all tasks recorded, added up.
    pub fn get_total_duration(&self) -> (r: i64)
        requires
            forall|n: nat| n <= self.durations().len() ==> i64::MIN <= #[trigger] durations_sum(self.durations(), n) <= i64::MAX,
        ensures
            r == durations_sum(self.durations(), self.durations().len()),
    {
        let ghost d = self.task_durations@;
        let mut total: i64 = 0;
        let mut i: usize = 0;
        while i < self.task_durations.len()
            invariant
                d == self.task_durations@,
                d == self.durations(),
                i <= d.len(),
                total == durations_sum(d, i as nat),
                forall|n: nat| n <= self.durations().len() ==> i64::MIN <= #[trigger] durations_sum(self.durations(), n) <= i64::MAX,
            decreases d.len() - i,
        {
            assert(i64::MIN <= durations_sum(d, (i + 1) as nat) <= i64::MAX);
            total = total + self.task_durations[i];
            i = i + 1;
        }
        total
    }

    /// Forgets everything recorded, as a new monitor would; whether the
    /// agent is watched, and since when, stays.
    pub fn reset_metrics(&mut self)
        ensures
            final(self).agent() == old(self).agent(),
            final(self).watching() == old(self).watching(),
            final(self).since() == old(self).since(),
            final(self).durations().len() == 0,
            final(self).task_stats() == TaskStats::new_spec(),
            final(self).calls() == 0,
            final(self).token_usage() == (TokenUsage { input_tokens: 0, output_tokens: 0, total_tokens: 0 }),
    {
        self.task_durations = Vec::new();
        self.stats = TaskStats::new();
        self.api_call_count = 0;
        self.tokens = TokenUsage { input_tokens: 0, output_tokens: 0, total_tokens: 0 };
    }
}

impl TaskStats {
    /// The record of no task.
    pub open spec fn new_spec() -> TaskStats {
        TaskStats {
            task_count: 0,
            success_count: 0,
            failure_count: 0,
            max_task_duration_ms: 0,
            min_task_duration_ms: i64::MAX,
        }
    }
}

} // verus!
