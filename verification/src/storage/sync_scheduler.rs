//! The schedule of periodic syncs and the history of sync runs.
use vstd::prelude::*;
use super::{SyncState, SyncStatus};
use crate::runtime::{new_id, now_timestamp};
use crate::text::str_eq;

verus! {

/// Where a scheduled sync goes.
#[derive(Debug, Clone, Copy, PartialEq, Eq, Structural, Hash)]
pub enum SyncTaskType {
    S3,
    WebDAV,
}

/// A scheduled sync.
#[derive(Debug, Clone)]
pub struct SyncTask {
    pub id: String,
    pub task_type: SyncTaskType,
    pub interval_minutes: Option<u64>,
    pub last_run: Option<i64>,
    pub next_run: Option<i64>,
    pub enabled: bool,
}

impl SyncTask {
    /// A copy of the scheduled sync.
    pub fn copy(&self) -> (r: SyncTask)
        ensures
            r == *self,
    {
        SyncTask {
            id: self.id.clone(),
            task_type: self.task_type,
            interval_minutes: self.interval_minutes,
            last_run: self.last_run,
            next_run: self.next_run,
            enabled: self.enabled,
        }
    }
}

impl SyncStatus {
    /// A copy of this record.
    pub fn copy(&self) -> (r: SyncStatus)
        ensures
            r == *self,
    {
        SyncStatus {
            sync_id: self.sync_id.clone(),
            sync_type: self.sync_type.clone(),
            status: self.status,
            total_files: self.total_files,
            uploaded_files: self.uploaded_files,
            failed_files: self.failed_files,
            started_at: self.started_at,
            completed_at: self.completed_at,
            error_message: super::copy_opt_string(&self.error_message),
        }
    }
}

/// Index of the task with identifier `id` in `ts`, if any.
pub open spec fn task_index(ts: Seq<SyncTask>, id: Seq<char>) -> Option<int> {
    if exists|i: int| 0 <= i < ts.len() && ts[i].id@ == id {
        Some(choose|i: int| 0 <= i < ts.len() && ts[i].id@ == id)
    } else {
        None
    }
}

/// No two tasks share an identifier.
pub open spec fn ids_distinct(ts: Seq<SyncTask>) -> bool {
    forall|i: int, j: int| 0 <= i < j < ts.len() ==> ts[i].id@ != ts[j].id@
}

/// `ts` with `t` in place of the task of the same identifier, or with `t`
/// appended when there is none (what inserting into a map by identifier
/// does).
pub open spec fn upsert(ts: Seq<SyncTask>, t: SyncTask) -> Seq<SyncTask> {
    match task_index(ts, t.id@) {
        Some(i) => ts.update(i, t),
        None => ts.push(t),
    }
}

/// Holds scheduled syncs by identifier and the history of sync runs.
pub struct SyncScheduler {
    tasks: Vec<SyncTask>,
    sync_status: Vec<SyncStatus>,
    is_running: bool,
}

impl SyncScheduler {
    #[verifier::type_invariant]
    spec fn well_formed(self) -> bool {
        ids_distinct(self.tasks@)
    }

    /// The scheduled syncs.
    pub closed spec fn task_list(self) -> Seq<SyncTask> {
        self.tasks@
    }

    /// The recorded sync runs.
    pub closed spec fn history(self) -> Seq<SyncStatus> {
        self.sync_status@
    }

    /// Whether the scheduler runs.
    pub closed spec fn running(self) -> bool {
        self.is_running
    }

    /// A scheduler with no task, no history, not running.
    pub fn new() -> (s: Self)
        ensures
            s.task_list().len() == 0,
            s.history().len() == 0,
            !s.running(),
    {
        SyncScheduler { tasks: Vec::new(), sync_status: Vec::new(), is_running: false }
    }

    fn find_index(&self, id: &str) -> (r: Option<usize>)
        ensures
            match r {
                Some(i) => task_index(self.task_list(), id@) == Some(i as int),
                None => task_index(self.task_list(), id@) is None,
            },
    {
        proof {
            use_type_invariant(self);
        }
        let mut i: usize = 0;
        while i < self.tasks.len()
            invariant
                i <= self.tasks@.len(),
                ids_distinct(self.tasks@),
                forall|k: int| 0 <= k < i ==> self.tasks@[k].id@ != id@,
            decreases self.tasks@.len() - i,
        {
            if str_eq(self.tasks[i].id.as_str(), id) {
                proof {
                    let ts = self.tasks@;
                    assert(0 <= i < ts.len() && ts[i as int].id@ == id@);
                    let c = choose|k: int| 0 <= k < ts.len() && ts[k].id@ == id@;
                    if c < i {
                        assert(ts[c].id@ != ts[i as int].id@);
                    } else if c > i {
                        assert(ts[i as int].id@ != ts[c].id@);
                    }
                }
                return Some(i);
            }
            i = i + 1;
        }
        None
    }

    /// Schedules a sync of the given kind every `interval_minutes`
    /// minutes, first due that long after now, enabled, never run yet,
    /// under a fresh identifier, which is returned. The next run time is
    /// `now + (interval_minutes * 60) as i64`; when that sum leaves the
    /// range of `i64` the task is refused with an error, which cannot
    /// happen while the step leaves room for any current time.
    pub fn add_scheduled_task(&mut self, task_type: SyncTaskType, interval_minutes: u64) -> (r:
        Result<String, String>)
        requires
            interval_minutes <= u64::MAX / 60,
        ensures
            match r {
                Ok(id) => exists|t: SyncTask|
                    {
                        &&& t.id@ == id@
                        &&& t.task_type == task_type
                        &&& t.interval_minutes == Some(interval_minutes)
                        &&& t.last_run is None
                        &&& t.next_run is Some
                        &&& 0 <= t.next_run->0 - ((interval_minutes * 60) as i64)
                            < 10_000_000_000_000
                        &&& t.enabled
                        &&& final(self).task_list() == upsert(old(self).task_list(), t)
                    },
                Err(e) => e@ == "Next run time is out of range"@ && final(self).task_list() == old(
                    self,
                ).task_list(),
            },
            (interval_minutes * 60) as i64 <= i64::MAX - 10_000_000_000_000 ==> r is Ok,
            final(self).history() == old(self).history(),
            final(self).running() == old(self).running(),
    {
        let task_id = new_id();
        let now = now_timestamp();
        let step = (interval_minutes * 60) as i64;
        let next = match now.checked_add(step) {
            Some(n) => n,
            None => {
                return Err(crate::text::owned("Next run time is out of range"));
            },
        };
        let task = SyncTask {
            id: task_id.clone(),
            task_type,
            interval_minutes: Some(interval_minutes),
            last_run: None,
            next_run: Some(next),
            enabled: true,
        };
        let ghost t = task;
        match self.find_index(task_id.as_str()) {
            Some(i) => {
                proof {
                    use_type_invariant(&*self);
                }
                let mut ts: Vec<SyncTask> = Vec::new();
                std::mem::swap(&mut ts, &mut self.tasks);
                ts.set(i, task);
                proof {
                    assert forall|a: int, b: int| 0 <= a < b < ts@.len() implies ts@[a].id@
                        != ts@[b].id@ by {
                        if a == i {
                            assert(old(self).tasks@[b].id@ != old(self).tasks@[a].id@);
                        } else if b == i {
                            assert(old(self).tasks@[b].id@ != old(self).tasks@[a].id@);
                        }
                    }
                }
                self.tasks = ts;
            },
            None => {
                proof {
                    use_type_invariant(&*self);
                }
                let mut ts: Vec<SyncTask> = Vec::new();
                std::mem::swap(&mut ts, &mut self.tasks);
                ts.push(task);
                proof {
                    assert forall|a: int, b: int| 0 <= a < b < ts@.len() implies ts@[a].id@
                        != ts@[b].id@ by {
                        if b == ts@.len() - 1 {
                            assert(old(self).tasks@[a].id@ != t.id@);
                        }
                    }
                }
                self.tasks = ts;
            },
        }
        assert(t.id@ == task_id@ && final(self).task_list() == upsert(old(self).task_list(), t));
        Ok(task_id)
    }

    /// Copies of all scheduled syncs.
    pub fn get_tasks(&self) -> (r: Vec<SyncTask>)
        ensures
            r@ == self.task_list(),
    {
        let mut r: Vec<SyncTask> = Vec::new();
        let mut i: usize = 0;
        while i < self.tasks.len()
            invariant
                i <= self.tasks@.len(),
                r@ == self.tasks@.take(i as int),
            decreases self.tasks@.len() - i,
        {
            r.push(self.tasks[i].copy());
            assert(self.tasks@.take(i as int).push(self.tasks@[i as int]) =~= self.tasks@.take(
                i + 1,
            ));
            i = i + 1;
        }
        assert(self.tasks@.take(self.tasks@.len() as int) =~= self.tasks@);
        r
    }

    /// A copy of the scheduled sync with the given identifier, if any.
    pub fn get_task(&self, task_id: &str) -> (r: Option<SyncTask>)
        ensures
            match task_index(self.task_list(), task_id@) {
                Some(i) => r == Some(self.task_list()[i]),
                None => r is None,
            },
    {
        match self.find_index(task_id) {
            Some(i) => Some(self.tasks[i].copy()),
            None => None,
        }
    }

    /// Copies of the recorded sync runs.
    pub fn get_sync_history(&self) -> (r: Vec<SyncStatus>)
        ensures
            r@ == self.history(),
    {
        let mut r: Vec<SyncStatus> = Vec::new();
        let mut i: usize = 0;
        while i < self.sync_status.len()
            invariant
                i <= self.sync_status@.len(),
                r@ == self.sync_status@.take(i as int),
            decreases self.sync_status@.len() - i,
        {
            r.push(self.sync_status[i].copy());
            assert(self.sync_status@.take(i as int).push(self.sync_status@[i as int])
                =~= self.sync_status@.take(i + 1));
            i = i + 1;
        }
        assert(self.sync_status@.take(self.sync_status@.len() as int) =~= self.sync_status@);
        r
    }

    /// Forgets the recorded sync runs.
    pub fn clear_sync_history(&mut self)
        ensures
            final(self).history().len() == 0,
            final(self).task_list() == old(self).task_list(),
            final(self).running() == old(self).running(),
    {
        proof {
            use_type_invariant(&*self);
        }
        self.sync_status = Vec::new();
    }

    /// Whether the scheduler runs.
    pub fn is_running(&self) -> (r: bool)
        ensures
            r == self.running(),
    {
        self.is_running
    }
}

/// A scheduled task is found again by its identifier, with the kind it was
/// scheduled with.
pub proof fn law_scheduled_task_is_found(ts: Seq<SyncTask>, t: SyncTask)
    requires
        ids_distinct(ts),
    ensures
        task_index(upsert(ts, t), t.id@) is Some,
        upsert(ts, t)[task_index(upsert(ts, t), t.id@)->0] == t,
{
    let u = upsert(ts, t);
    match task_index(ts, t.id@) {
        Some(i) => {
            assert(u[i] == t);
            assert(0 <= i < u.len() && u[i].id@ == t.id@);
            let j = task_index(u, t.id@)->0;
            if j != i {
                assert(u[j] == ts[j]);
                assert(ts[j].id@ == ts[i].id@);
            }
        },
        None => {
            let n = ts.len() as int;
            assert(u[n] == t);
            let j = task_index(u, t.id@)->0;
            if j != n {
                assert(u[j] == ts[j]);
            }
        },
    }
}

impl Default for SyncScheduler {
    fn default() -> (s: Self)
        ensures
            s.task_list().len() == 0,
            s.history().len() == 0,
            !s.running(),
    {
        Self::new()
    }
}

} // verus!
