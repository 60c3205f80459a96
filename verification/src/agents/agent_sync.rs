//! When each agent's sessions were last synced, and which agents are
//! synced at all. Fetching the sessions is left to the caller.
use vstd::prelude::*;
use super::SessionData;
use crate::text::{concat, contains_string, owned, str_eq};

verus! {

/// The time recorded for `agent` in a list of `(agent, time)` pairs: that
/// of its first pair.
pub open spec fn sync_time(log: Seq<(String, i64)>, agent: Seq<char>) -> Option<i64>
    decreases log.len(),
{
    if log.len() == 0 {
        None
    } else if log[0].0@ == agent {
        Some(log[0].1)
    } else {
        sync_time(log.drop_first(), agent)
    }
}

/// No agent has two pairs.
pub open spec fn agents_distinct(log: Seq<(String, i64)>) -> bool {
    forall|i: int, j: int| 0 <= i < j < log.len() ==> log[i].0@ != log[j].0@
}

/// An agent is due for a sync after `interval` seconds: never synced, or
/// more than `interval` seconds have passed since its last sync at time
/// `now`.
pub open spec fn due(last: Option<i64>, interval: i64, now: i64) -> bool {
    match last {
        None => true,
        Some(t) => now - t > interval,
    }
}

/// The sessions of the fetches that succeeded, in order.
pub open spec fn fetched_sessions(fetched: Seq<Result<Vec<SessionData>, String>>) -> Seq<SessionData>
    decreases fetched.len(),
{
    if fetched.len() == 0 {
        Seq::empty()
    } else {
        let rest = fetched_sessions(fetched.drop_last());
        match fetched.last() {
            Ok(s) => rest + s@,
            Err(_) => rest,
        }
    }
}

proof fn lemma_sync_time_at(log: Seq<(String, i64)>, k: int)
    requires
        0 <= k < log.len(),
        agents_distinct(log),
    ensures
        sync_time(log, log[k].0@) == Some(log[k].1),
    decreases k,
{
    if k > 0 {
        let rest = log.drop_first();
        assert(rest[k - 1] == log[k]);
        assert(log[0].0@ != log[k].0@);
        lemma_sync_time_at(rest, k - 1);
    }
}

proof fn lemma_sync_time_absent(log: Seq<(String, i64)>, agent: Seq<char>)
    requires
        forall|k: int| 0 <= k < log.len() ==> log[k].0@ != agent,
    ensures
        sync_time(log, agent) is None,
    decreases log.len(),
{
    if log.len() > 0 {
        let rest = log.drop_first();
        assert forall|k: int| 0 <= k < rest.len() implies rest[k].0@ != agent by {
            assert(rest[k] == log[k + 1]);
        }
        lemma_sync_time_absent(rest, agent);
    }
}

/// Agents registered for syncing, and the time each was last synced.
pub struct AgentSessionSync {
    agents: Vec<String>,
    last_sync: Vec<(String, i64)>,
}

impl AgentSessionSync {
    #[verifier::type_invariant]
    spec fn well_formed(self) -> bool {
        &&& agents_distinct(self.last_sync@)
        &&& self.agents.deep_view().no_duplicates()
    }

    /// The registered agents, in the order they were registered.
    pub closed spec fn registered(self) -> Seq<Seq<char>> {
        self.agents.deep_view()
    }

    /// When `agent` was last synced.
    pub closed spec fn last_synced(self, agent: Seq<char>) -> Option<i64> {
        sync_time(self.last_sync@, agent)
    }

    /// No agent registered, none synced.
    pub fn new() -> (r: Self)
        ensures
            r.registered().len() == 0,
            forall|a: Seq<char>| r.last_synced(a) is None,
    {
        AgentSessionSync { agents: Vec::new(), last_sync: Vec::new() }
    }

    /// Registers an agent; registering it again changes nothing.
    pub fn register_agent(&mut self, agent_type: &str)
        ensures
            final(self).registered() == if old(self).registered().contains(agent_type@) {
                old(self).registered()
            } else {
                old(self).registered().push(agent_type@)
            },
            forall|a: Seq<char>| final(self).last_synced(a) == old(self).last_synced(a),
    {
        proof {
            use_type_invariant(&*self);
        }
        let name = owned(agent_type);
        if !contains_string(&self.agents, &name) {
            let ghost before = self.agents.deep_view();
            let mut agents: Vec<String> = Vec::new();
            std::mem::swap(&mut agents, &mut self.agents);
            agents.push(name);
            proof {
                assert(agents.deep_view() =~= before.push(agent_type@));
                assert forall|i: int, j: int| 0 <= i < j < agents.deep_view().len() implies agents.deep_view()[i] != agents.deep_view()[j] by {
                    if j == before.len() {
                        assert(before.contains(before[i]));
                    }
                }
            }
            self.agents = agents;
        }
    }

    /// The registered agents, in order.
    pub fn registered_agents(&self) -> (r: Vec<String>)
        ensures
            r.deep_view() == self.registered(),
    {
        crate::text::copy_string_vec(&self.agents)
    }

    /// Whether `agent_type` is registered.
    pub fn is_registered(&self, agent_type: &str) -> (r: bool)
        ensures
            r == self.registered().contains(agent_type@),
    {
        contains_string(&self.agents, &owned(agent_type))
    }

    /// Checks that a single agent can be synced: refused, naming it, when
    /// it is not registered.
    pub fn sync_target(&self, agent_type: &str) -> (r: Result<(), String>)
        ensures
            r is Ok <==> self.registered().contains(agent_type@),
            r matches Err(e) ==> e@ == "Agent "@ + agent_type@ + " not registered"@,
    {
        if self.is_registered(agent_type) {
            Ok(())
        } else {
            let m = concat("Agent ", agent_type);
            Err(concat(m.as_str(), " not registered"))
        }
    }

    /// Records that `agent_type` was synced at time `now`.
    pub fn record_sync(&mut self, agent_type: &str, now: i64)
        ensures
            final(self).last_synced(agent_type@) == Some(now),
            forall|a: Seq<char>| a != agent_type@ ==> final(self).last_synced(a) == old(self).last_synced(a),
            final(self).registered() == old(self).registered(),
    {
        proof {
            use_type_invariant(&*self);
        }
        let ghost log0 = self.last_sync@;
        let mut log: Vec<(String, i64)> = Vec::new();
        std::mem::swap(&mut log, &mut self.last_sync);
        let mut i: usize = 0;
        while i < log.len()
            invariant
                log@ == log0,
                i <= log0.len(),
                forall|k: int| 0 <= k < i ==> log0[k].0@ != agent_type@,
            ensures
                i <= log0.len(),
                forall|k: int| 0 <= k < i ==> log0[k].0@ != agent_type@,
                i < log0.len() ==> log0[i as int].0@ == agent_type@,
            decreases log0.len() - i,
        {
            if str_eq(log[i].0.as_str(), agent_type) {
                break;
            }
            i = i + 1;
        }
        if i < log.len() {
            let key = log[i].0.clone();
            log.set(i, (key, now));
            proof {
                let l1 = log@;
                assert(l1 == log0.update(i as int, (log0[i as int].0, now)));
                assert(agents_distinct(l1)) by {
                    assert forall|a: int, b: int| 0 <= a < b < l1.len() implies l1[a].0@ != l1[b].0@ by {
                        assert(l1[a].0@ == log0[a].0@);
                        assert(l1[b].0@ == log0[b].0@);
                    }
                }
                assert(log0[i as int].0@ == agent_type@);
                lemma_sync_time_at(l1, i as int);
                assert forall|a: Seq<char>| a != agent_type@ implies sync_time(l1, a) == sync_time(log0, a) by {
                    if exists|k: int| 0 <= k < log0.len() && log0[k].0@ == a {
                        let k = choose|k: int| 0 <= k < log0.len() && log0[k].0@ == a;
                        lemma_sync_time_at(log0, k);
                        assert(l1[k] == log0[k]);
                        lemma_sync_time_at(l1, k);
                    } else {
                        lemma_sync_time_absent(log0, a);
                        assert forall|k: int| 0 <= k < l1.len() implies l1[k].0@ != a by {
                            assert(l1[k].0@ == log0[k].0@);
                        }
                        lemma_sync_time_absent(l1, a);
                    }
                }
            }
        } else {
            log.push((owned(agent_type), now));
            proof {
                let l1 = log@;
                assert(l1 == log0.push((l1[l1.len() - 1].0, now)));
                assert(agents_distinct(l1)) by {
                    assert forall|a: int, b: int| 0 <= a < b < l1.len() implies l1[a].0@ != l1[b].0@ by {
                        if b == l1.len() - 1 {
                            assert(l1[a] == log0[a]);
                        } else {
                            assert(l1[a] == log0[a]);
                            assert(l1[b] == log0[b]);
                        }
                    }
                }
                lemma_sync_time_at(l1, log0.len() as int);
                assert forall|a: Seq<char>| a != agent_type@ implies sync_time(l1, a) == sync_time(log0, a) by {
                    if exists|k: int| 0 <= k < log0.len() && log0[k].0@ == a {
                        let k = choose|k: int| 0 <= k < log0.len() && log0[k].0@ == a;
                        lemma_sync_time_at(log0, k);
                        assert(l1[k] == log0[k]);
                        lemma_sync_time_at(l1, k);
                    } else {
                        lemma_sync_time_absent(log0, a);
                        assert forall|k: int| 0 <= k < l1.len() implies l1[k].0@ != a by {
                            if k < log0.len() {
                                assert(l1[k] == log0[k]);
                            }
                        }
                        lemma_sync_time_absent(l1, a);
                    }
                }
            }
        }
        self.last_sync = log;
    }

    /// The time `agent_type` was last synced, if ever.
    pub fn last_sync_of(&self, agent_type: &str) -> (r: Option<i64>)
        ensures
            r == self.last_synced(agent_type@),
    {
        proof {
            use_type_invariant(self);
        }
        let mut i: usize = 0;
        while i < self.last_sync.len()
            invariant
                agents_distinct(self.last_sync@),
                i <= self.last_sync@.len(),
                forall|k: int| 0 <= k < i ==> self.last_sync@[k].0@ != agent_type@,
            decreases self.last_sync@.len() - i,
        {
            if str_eq(self.last_sync[i].0.as_str(), agent_type) {
                proof {
                    lemma_sync_time_at(self.last_sync@, i as int);
                }
                return Some(self.last_sync[i].1);
            }
            i = i + 1;
        }
        proof {
            lemma_sync_time_absent(self.last_sync@, agent_type@);
        }
        None
    }

    /// The agents synced so far, each with the time of its last sync.
    pub fn get_sync_status(&self) -> (r: Vec<(String, i64)>)
        ensures
            forall|a: Seq<char>| sync_time(r@, a) == self.last_synced(a),
            agents_distinct(r@),
    {
        proof {
            use_type_invariant(self);
        }
        let mut r: Vec<(String, i64)> = Vec::new();
        let mut i: usize = 0;
        while i < self.last_sync.len()
            invariant
                i <= self.last_sync@.len(),
                r@.len() == i,
                forall|k: int| 0 <= k < i ==> r@[k].0@ == self.last_sync@[k].0@ && r@[k].1 == self.last_sync@[k].1,
            decreases self.last_sync@.len() - i,
        {
            r.push((self.last_sync[i].0.clone(), self.last_sync[i].1));
            i = i + 1;
        }
        proof {
            let l = self.last_sync@;
            assert(agents_distinct(r@)) by {
                assert forall|a: int, b: int| 0 <= a < b < r@.len() implies r@[a].0@ != r@[b].0@ by {
                    assert(l[a].0@ != l[b].0@);
                }
            }
            assert forall|a: Seq<char>| sync_time(r@, a) == sync_time(l, a) by {
                if exists|k: int| 0 <= k < l.len() && l[k].0@ == a {
                    let k = choose|k: int| 0 <= k < l.len() && l[k].0@ == a;
                    lemma_sync_time_at(l, k);
                    lemma_sync_time_at(r@, k);
                } else {
                    lemma_sync_time_absent(l, a);
                    assert forall|k: int| 0 <= k < r@.len() implies r@[k].0@ != a by {
                        assert(r@[k].0@ == l[k].0@);
                    }
                    lemma_sync_time_absent(r@, a);
                }
            }
        }
        r
    }

    /// Whether `agent_type` is due for a sync at time `now` (see [`due`]).
    pub fn needs_sync(&self, agent_type: &str, interval_seconds: i64, now: i64) -> (r: bool)
        ensures
            r == due(self.last_synced(agent_type@), interval_seconds, now),
    {
        match self.last_sync_of(agent_type) {
            Some(last) => (now as i128) - (last as i128) > interval_seconds as i128,
            None => true,
        }
    }
}


impl AgentSessionSync {
    /// Syncs one agent with what fetching its sessions gave: an agent that
    /// is not registered is refused, naming it; otherwise the fetch's
    /// outcome is passed on, and a fetch that succeeded is recorded as a
    /// sync at time `now`.
    pub fn sync_agent(&mut self, agent_type: &str, fetched: Result<Vec<SessionData>, String>, now: i64) -> (r:
        Result<Vec<SessionData>, String>)
        ensures
            final(self).registered() == old(self).registered(),
            !old(self).registered().contains(agent_type@) ==> (r matches Err(e) && e@ == "Agent "@
                + agent_type@ + " not registered"@),
            old(self).registered().contains(agent_type@) ==> r == fetched,
            old(self).registered().contains(agent_type@) && fetched is Ok ==> final(self).last_synced(
                agent_type@,
            ) == Some(now),
            forall|a: Seq<char>|
                #![trigger final(self).last_synced(a)]
                a != agent_type@ || fetched is Err || !old(self).registered().contains(agent_type@)
                    ==> final(self).last_synced(a) == old(self).last_synced(a),
    {
        if let Err(e) = self.sync_target(agent_type) {
            return Err(e);
        }
        if fetched.is_ok() {
            self.record_sync(agent_type, now);
        }
        fetched
    }

    /// Syncs every registered agent with what fetching its sessions gave,
    /// `fetched[k]` being the outcome for the `k`-th registered agent:
    /// each fetch that succeeded is recorded as a sync at time `now`, one
    /// that failed is passed over, and the sessions fetched are given back
    /// in order.
    pub fn sync_all_agents(&mut self, fetched: Vec<Result<Vec<SessionData>, String>>, now: i64) -> (r: Result<
        Vec<SessionData>,
        String,
    >)
        requires
            fetched@.len() == old(self).registered().len(),
        ensures
            r matches Ok(all) && all@ == fetched_sessions(fetched@),
            final(self).registered() == old(self).registered(),
            forall|k: int|
                0 <= k < fetched@.len() && fetched@[k] is Ok ==> final(self).last_synced(
                    #[trigger] old(self).registered()[k],
                ) == Some(now),
            forall|a: Seq<char>|
                #![trigger final(self).last_synced(a)]
                (forall|k: int| 0 <= k < fetched@.len() && old(self).registered()[k] == a ==> fetched@[k] is Err)
                    ==> final(self).last_synced(a) == old(self).last_synced(a),
    {
        proof {
            use_type_invariant(&*self);
        }
        let ghost names = self.registered();
        let ghost outcomes = fetched@;
        let n = fetched.len();
        let mut rest = fetched;
        let mut all: Vec<SessionData> = Vec::new();
        let mut i: usize = 0;
        while i < n
            invariant
                n == outcomes.len(),
                names.len() == n,
                names.no_duplicates(),
                self.registered() == names,
                i <= n,
                rest@ == outcomes.skip(i as int),
                all@ == fetched_sessions(outcomes.take(i as int)),
                forall|k: int|
                    0 <= k < i && outcomes[k] is Ok ==> self.last_synced(#[trigger] names[k]) == Some(now),
                forall|a: Seq<char>|
                    #![trigger self.last_synced(a)]
                    (forall|k: int| 0 <= k < i && names[k] == a ==> outcomes[k] is Err) ==> self.last_synced(a)
                        == old(self).last_synced(a),
            decreases n - i,
        {
            let outcome = rest.remove(0);
            let name = self.agents[i].clone();
            proof {
                assert(outcome == outcomes[i as int]);
                assert(outcomes.take(i + 1).drop_last() =~= outcomes.take(i as int));
                assert(rest@ =~= outcomes.skip(i + 1));
            }
            let ghost before = self.registered();
            match outcome {
                Ok(mut sessions) => {
                    let ghost prev = all@;
                    self.record_sync(name.as_str(), now);
                    all.append(&mut sessions);
                    proof {
                        assert(all@ =~= fetched_sessions(outcomes.take(i + 1)));
                        assert forall|k: int| 0 <= k < i + 1 && outcomes[k] is Ok implies self.last_synced(
                            #[trigger] names[k],
                        ) == Some(now) by {
                            if k < i {
                                assert(names[k] != names[i as int]);
                            }
                        }
                        assert forall|a: Seq<char>|
                            (forall|k: int| 0 <= k < i + 1 && names[k] == a ==> outcomes[k] is Err) implies #[trigger] self.last_synced(a)
                                == old(self).last_synced(a) by {
                            assert(names[i as int] == name@);
                            assert(a != name@);
                        }
                    }
                },
                Err(_) => {
                    proof {
                        assert(all@ =~= fetched_sessions(outcomes.take(i + 1)));
                    }
                },
            }
            i = i + 1;
        }
        proof {
            assert(outcomes.take(n as int) =~= outcomes);
        }
        Ok(all)
    }
}

} // verus!
