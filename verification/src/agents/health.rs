//! Health of the agents' connections.
use vstd::prelude::*;
use crate::text::{contains_string, copy_string_vec, owned, str_eq};

verus! {

/// What a health check found about one agent.
#[derive(Debug, Clone)]
pub struct AgentHealthStatus {
    pub agent_type: String,
    pub is_connected: bool,
    pub last_check: i64,
    pub error_message: Option<String>,
    pub logs_accessible: bool,
}

/// The outcome of checking one agent.
#[derive(Debug, Clone)]
pub struct HealthCheckResult {
    pub agent_type: String,
    pub is_healthy: bool,
    pub details: AgentHealthStatus,
}

/// The health of an agent from what connecting to it answered at time
/// `checked_at`: connected agents have their logs at hand and are
/// healthy; otherwise the error is kept and the agent is not healthy.
pub fn health_from_connect(agent_type: &str, connected: Result<(), String>, checked_at: i64) -> (r: HealthCheckResult)
    ensures
        r.agent_type@ == agent_type@,
        r.details.agent_type@ == agent_type@,
        r.details.last_check == checked_at,
        r.is_healthy == connected is Ok,
        r.details.is_connected == connected is Ok,
        r.details.logs_accessible == connected is Ok,
        match connected {
            Ok(_) => r.details.error_message is None,
            Err(e) => r.details.error_message == Some(e),
        },
{
    let mut status = AgentHealthStatus {
        agent_type: owned(agent_type),
        is_connected: false,
        last_check: checked_at,
        error_message: None,
        logs_accessible: false,
    };
    match connected {
        Ok(_) => {
            status.is_connected = true;
            status.logs_accessible = true;
        },
        Err(e) => {
            status.error_message = Some(e);
        },
    }
    HealthCheckResult {
        agent_type: owned(agent_type),
        is_healthy: status.is_connected && status.logs_accessible,
        details: status,
    }
}


/// The status recorded for `agent` among `statuses`: the first one.
pub open spec fn status_of(statuses: Seq<AgentHealthStatus>, agent: Seq<char>) -> Option<AgentHealthStatus>
    decreases statuses.len(),
{
    if statuses.len() == 0 {
        None
    } else if statuses[0].agent_type@ == agent {
        Some(statuses[0])
    } else {
        status_of(statuses.drop_first(), agent)
    }
}

/// The agents whose health is checked, and the statuses on record.
pub struct AgentHealthChecker {
    agents: Vec<String>,
    health_status: Vec<AgentHealthStatus>,
}

impl AgentHealthChecker {
    /// The agents registered, in order, each once.
    pub closed spec fn agents(self) -> Seq<Seq<char>> {
        self.agents.deep_view()
    }

    /// The statuses on record.
    pub closed spec fn statuses(self) -> Seq<AgentHealthStatus> {
        self.health_status@
    }

    /// No agent, no status.
    pub fn new() -> (r: Self)
        ensures
            r.agents().len() == 0,
            r.statuses().len() == 0,
    {
        AgentHealthChecker { agents: Vec::new(), health_status: Vec::new() }
    }

    /// Registers an agent for checks; registering it again changes
    /// nothing.
    pub fn register_agent(&mut self, agent_type: &str) -> (r: Result<(), String>)
        ensures
            r is Ok,
            final(self).agents() == if old(self).agents().contains(agent_type@) {
                old(self).agents()
            } else {
                old(self).agents().push(agent_type@)
            },
            final(self).statuses() == old(self).statuses(),
    {
        let name = owned(agent_type);
        if !contains_string(&self.agents, &name) {
            let ghost before = self.agents.deep_view();
            self.agents.push(name);
            assert(self.agents.deep_view() =~= before.push(agent_type@));
        }
        Ok(())
    }

    /// The agents to check, in order.
    pub fn registered_agents(&self) -> (r: Vec<String>)
        ensures
            r.deep_view() == self.agents(),
    {
        copy_string_vec(&self.agents)
    }

    /// Every status on record.
    pub fn get_all_health_status(&self) -> (r: &[AgentHealthStatus])
        ensures
            r@ == self.statuses(),
    {
        self.health_status.as_slice()
    }

    /// The status on record for `agent_type` (see [`status_of`]).
    pub fn get_health_status(&self, agent_type: &str) -> (r: Option<&AgentHealthStatus>)
        ensures
            match r {
                Some(st) => status_of(self.statuses(), agent_type@) == Some(*st),
                None => status_of(self.statuses(), agent_type@) is None,
            },
    {
        let ghost ss = self.health_status@;
        let mut i: usize = 0;
        assert(ss.skip(0) =~= ss);
        while i < self.health_status.len()
            invariant
                ss == self.health_status@,
                i <= ss.len(),
                status_of(ss, agent_type@) == status_of(ss.skip(i as int), agent_type@),
            decreases ss.len() - i,
        {
            proof {
                assert(ss.skip(i as int).drop_first() =~= ss.skip(i + 1));
                assert(ss.skip(i as int)[0] == ss[i as int]);
            }
            if str_eq(self.health_status[i].agent_type.as_str(), agent_type) {
                return Some(&self.health_status[i]);
            }
            i = i + 1;
        }
        assert(ss.skip(i as int).len() == 0);
        None
    }
}

} // verus!
