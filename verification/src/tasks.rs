//! Personal tasks: their records, the Markdown files written for them,
//! the Markdown export of all tasks, and their backups.
use vstd::prelude::*;
use crate::extractor::joined;
use crate::runtime::{format_utc_millis, utc_millis_text};
use crate::storage::copy_opt_string;
use crate::text::{concat, contains_string, copy_string_vec, owned};

verus! {

/// A task kept as a Markdown file.
#[derive(Debug, Clone)]
pub struct Task {
    pub id: String,
    pub title: String,
    pub description: String,
    pub status: String,
    pub priority: String,
    pub due_date: Option<i64>,
    pub created_at: i64,
    pub updated_at: i64,
    pub tags: Vec<String>,
    pub markdown_file: Option<String>,
}

/// A backup of all tasks.
#[derive(Debug, Clone)]
pub struct TaskBackup {
    pub version: String,
    pub exported_at: i64,
    pub tasks: Vec<Task>,
}

/// Two task records hold the same values.
pub open spec fn same_task(a: Task, b: Task) -> bool {
    &&& a.id@ == b.id@
    &&& a.title@ == b.title@
    &&& a.description@ == b.description@
    &&& a.status@ == b.status@
    &&& a.priority@ == b.priority@
    &&& a.due_date == b.due_date
    &&& a.created_at == b.created_at
    &&& a.updated_at == b.updated_at
    &&& a.tags@ == b.tags@
    &&& a.markdown_file == b.markdown_file
}

impl Task {
    /// A copy of the record.
    pub fn copy(&self) -> (r: Task)
        ensures
            same_task(r, *self),
    {
        Task {
            id: self.id.clone(),
            title: self.title.clone(),
            description: self.description.clone(),
            status: self.status.clone(),
            priority: self.priority.clone(),
            due_date: self.due_date,
            created_at: self.created_at,
            updated_at: self.updated_at,
            tags: copy_string_vec(&self.tags),
            markdown_file: copy_opt_string(&self.markdown_file),
        }
    }
}

/// A new task named `title`, created and updated at `now`: to do, of
/// medium priority, without description, due date or tags, kept in the
/// Markdown file `markdown_file`.
pub fn new_task(id: String, title: &str, now: i64, markdown_file: String) -> (r: Task)
    ensures
        r.id == id,
        r.title@ == title@,
        r.description@.len() == 0,
        r.status@ == "todo"@,
        r.priority@ == "medium"@,
        r.due_date is None,
        r.created_at == now,
        r.updated_at == now,
        r.tags@.len() == 0,
        r.markdown_file == Some(markdown_file),
{
    Task {
        id,
        title: owned(title),
        description: String::new(),
        status: owned("todo"),
        priority: owned("medium"),
        due_date: None,
        created_at: now,
        updated_at: now,
        tags: Vec::new(),
        markdown_file: Some(markdown_file),
    }
}

/// The Markdown file of a new task named `title`, created at the time
/// written `created`.
pub open spec fn new_task_markdown_text(title: Seq<char>, created: Seq<char>) -> Seq<char> {
    "# "@ + title + "\n\n\n---\n\n**创建时间:** "@ + created
        + "\n**状态:** 待办\n**优先级:** 中\n\n## 标签\n\n\n## 子任务\n\n- [ ] \n\n## 备注\n\n"@
}

/// The Markdown file of a new task (see [`new_task_markdown_text`]).
pub fn new_task_markdown(title: &str, created: &str) -> (r: String)
    ensures
        r@ == new_task_markdown_text(title@, created@),
{
    let mut t = concat("# ", title);
    t = concat(t.as_str(), "\n\n\n---\n\n**创建时间:** ");
    t = concat(t.as_str(), created);
    concat(t.as_str(), "\n**状态:** 待办\n**优先级:** 中\n\n## 标签\n\n\n## 子任务\n\n- [ ] \n\n## 备注\n\n")
}

/// The tag lines of a task file: `- #<tag>` for each tag.
pub open spec fn tag_lines(tags: Seq<String>) -> Seq<Seq<char>> {
    tags.map_values(|t: String| "- #"@ + t@)
}

/// The Markdown file of a task whose creation and update times are
/// written `created` and `updated`.
pub open spec fn task_markdown_text(task: Task, created: Seq<char>, updated: Seq<char>) -> Seq<char> {
    "# "@ + task.title@ + "\n\n"@ + task.description@ + "\n\n---\n\n**创建时间:** "@ + created
        + "\n**更新时间:** "@ + updated + "\n**状态:** "@ + task.status@ + "\n**优先级:** "@ + task.priority@
        + "\n\n## 标签\n\n"@ + joined(tag_lines(task.tags@), "\n"@)
        + "\n\n## 子任务\n\n- [ ] \n\n## 备注\n\n"@
}

/// The Markdown file of a task, its times read as milliseconds since the
/// epoch and written by `chrono`; nothing when one of them lies outside
/// the dates `chrono` represents.
pub open spec fn task_markdown_of(task: Task) -> Option<Seq<char>> {
    match (utc_millis_text(task.created_at), utc_millis_text(task.updated_at)) {
        (Some(c), Some(u)) => Some(task_markdown_text(task, c, u)),
        _ => None,
    }
}

/// `parts` joined with `sep` between them (see [`joined`]).
pub fn join_with(parts: &Vec<String>, sep: &str) -> (r: String)
    ensures
        r@ == joined(parts@.map_values(|p: String| p@), sep@),
{
    let ghost ps = parts@.map_values(|p: String| p@);
    let mut r = String::new();
    let mut i: usize = 0;
    while i < parts.len()
        invariant
            ps == parts@.map_values(|p: String| p@),
            i <= parts@.len(),
            r@ == joined(ps.take(i as int), sep@),
        decreases parts@.len() - i,
    {
        proof {
            let t = ps.take(i + 1);
            assert(t.drop_last() =~= ps.take(i as int));
            assert(t.last() == parts@[i as int]@);
            if i == 0 {
                assert(t =~= seq![parts@[0]@]);
            }
        }
        if i > 0 {
            r = concat(r.as_str(), sep);
        }
        r = concat(r.as_str(), parts[i].as_str());
        i = i + 1;
    }
    assert(ps.take(parts@.len() as int) =~= ps);
    r
}

/// The tag lines of a task file (see [`tag_lines`]).
fn tag_lines_exec(tags: &Vec<String>) -> (r: Vec<String>)
    ensures
        r@.map_values(|p: String| p@) == tag_lines(tags@),
{
    let mut r: Vec<String> = Vec::new();
    let mut i: usize = 0;
    while i < tags.len()
        invariant
            i <= tags@.len(),
            r@.len() == i,
            forall|k: int| 0 <= k < i ==> (#[trigger] r@[k])@ == "- #"@ + tags@[k]@,
        decreases tags@.len() - i,
    {
        r.push(concat("- #", tags[i].as_str()));
        i = i + 1;
    }
    assert(r@.map_values(|p: String| p@) =~= tag_lines(tags@));
    r
}

/// The Markdown file written for a task (see [`task_markdown_of`]).
pub fn task_markdown(task: &Task) -> (r: Option<String>)
    ensures
        crate::storage::opt_text(r) == task_markdown_of(*task),
{
    let created = match format_utc_millis(task.created_at) {
        Some(c) => c,
        None => {
            return None;
        },
    };
    let updated = match format_utc_millis(task.updated_at) {
        Some(u) => u,
        None => {
            return None;
        },
    };
    let mut t = concat("# ", task.title.as_str());
    t = concat(t.as_str(), "\n\n");
    t = concat(t.as_str(), task.description.as_str());
    t = concat(t.as_str(), "\n\n---\n\n**创建时间:** ");
    t = concat(t.as_str(), created.as_str());
    t = concat(t.as_str(), "\n**更新时间:** ");
    t = concat(t.as_str(), updated.as_str());
    t = concat(t.as_str(), "\n**状态:** ");
    t = concat(t.as_str(), task.status.as_str());
    t = concat(t.as_str(), "\n**优先级:** ");
    t = concat(t.as_str(), task.priority.as_str());
    t = concat(t.as_str(), "\n\n## 标签\n\n");
    let lines = tag_lines_exec(&task.tags);
    t = concat(t.as_str(), join_with(&lines, "\n").as_str());
    t = concat(t.as_str(), "\n\n## 子任务\n\n- [ ] \n\n## 备注\n\n");
    Some(t)
}

/// The section of the Markdown export for one task, its due date written
/// `due` where it has one.
pub open spec fn export_section(task: Task, due: Seq<char>) -> Seq<char> {
    "### "@ + task.title@ + " ["@ + task.status@ + "]\n\n"@ + (if task.description@.len() > 0 {
        task.description@ + "\n\n"@
    } else {
        Seq::empty()
    }) + "- **优先级:** "@ + task.priority@ + "\n"@ + "- **状态:** "@ + task.status@ + "\n"@ + (if task.due_date is Some {
        "- **截止日期:** "@ + due + "\n"@
    } else {
        Seq::empty()
    }) + (if task.tags@.len() > 0 {
        "- **标签:** "@ + joined(task.tags@.map_values(|p: String| p@), ", "@) + "\n"@
    } else {
        Seq::empty()
    }) + "\n---\n\n"@
}

/// The section for one task, its due date read as milliseconds since the
/// epoch and written by `chrono`; nothing when that date lies outside the
/// dates `chrono` represents.
pub open spec fn export_section_of(task: Task) -> Option<Seq<char>> {
    match task.due_date {
        Some(d) => match utc_millis_text(d) {
            Some(t) => Some(export_section(task, t)),
            None => None,
        },
        None => Some(export_section(task, Seq::empty())),
    }
}

/// The sections of the first `n` tasks, in order; nothing when one of them
/// cannot be written.
pub open spec fn export_sections(tasks: Seq<Task>, n: nat) -> Option<Seq<char>>
    decreases n,
{
    if n == 0 || n > tasks.len() {
        Some(Seq::empty())
    } else {
        match (export_sections(tasks, (n - 1) as nat), export_section_of(tasks[n - 1])) {
            (Some(a), Some(b)) => Some(a + b),
            _ => None,
        }
    }
}

/// The Markdown export of `tasks`, exported at the time written
/// `exported`: a heading, the export time and one section per task.
pub open spec fn export_markdown_of(tasks: Seq<Task>, exported: Seq<char>) -> Option<Seq<char>> {
    match export_sections(tasks, tasks.len()) {
        Some(s) => Some("# MindCortex 任务备份\n\n"@ + "**导出时间:** "@ + exported + "\n\n"@ + "---\n\n## 任务列表\n\n"@ + s),
        None => None,
    }
}

/// The section of the export for one task (see [`export_section_of`]).
fn export_section_exec(task: &Task) -> (r: Option<String>)
    ensures
        crate::storage::opt_text(r) == export_section_of(*task),
{
    let due = match task.due_date {
        Some(d) => match format_utc_millis(d) {
            Some(t) => t,
            None => {
                return None;
            },
        },
        None => String::new(),
    };
    let mut t = concat("### ", task.title.as_str());
    t = concat(t.as_str(), " [");
    t = concat(t.as_str(), task.status.as_str());
    t = concat(t.as_str(), "]\n\n");
    let ghost head = t@;
    if !task.description.as_str().is_empty() {
        t = concat(t.as_str(), task.description.as_str());
        t = concat(t.as_str(), "\n\n");
    }
    t = concat(t.as_str(), "- **优先级:** ");
    t = concat(t.as_str(), task.priority.as_str());
    t = concat(t.as_str(), "\n");
    t = concat(t.as_str(), "- **状态:** ");
    t = concat(t.as_str(), task.status.as_str());
    t = concat(t.as_str(), "\n");
    if task.due_date.is_some() {
        t = concat(t.as_str(), "- **截止日期:** ");
        t = concat(t.as_str(), due.as_str());
        t = concat(t.as_str(), "\n");
    }
    if task.tags.len() > 0 {
        t = concat(t.as_str(), "- **标签:** ");
        t = concat(t.as_str(), join_with(&task.tags, ", ").as_str());
        t = concat(t.as_str(), "\n");
    }
    t = concat(t.as_str(), "\n---\n\n");
    proof {
        assert(t@ =~= export_section(*task, due@));
    }
    Some(t)
}

/// The Markdown export of `tasks` (see [`export_markdown_of`]); nothing
/// when a due date cannot be written.
pub fn export_markdown_text(tasks: &[Task], exported: &str) -> (r: Option<String>)
    ensures
        crate::storage::opt_text(r) == export_markdown_of(tasks@, exported@),
{
    let mut body = String::new();
    let mut i: usize = 0;
    while i < tasks.len()
        invariant
            i <= tasks@.len(),
            export_sections(tasks@, i as nat) == Some(body@),
        decreases tasks@.len() - i,
    {
        match export_section_exec(&tasks[i]) {
            Some(sec) => {
                body = concat(body.as_str(), sec.as_str());
            },
            None => {
                proof {
                    lemma_export_sections_stay_none(tasks@, (i + 1) as nat, tasks@.len());
                }
                return None;
            },
        }
        i = i + 1;
    }
    let mut t = owned("# MindCortex 任务备份\n\n");
    t = concat(t.as_str(), "**导出时间:** ");
    t = concat(t.as_str(), exported);
    t = concat(t.as_str(), "\n\n");
    t = concat(t.as_str(), "---\n\n## 任务列表\n\n");
    t = concat(t.as_str(), body.as_str());
    Some(t)
}

proof fn lemma_export_sections_stay_none(tasks: Seq<Task>, a: nat, b: nat)
    requires
        1 <= a <= b <= tasks.len(),
        export_sections(tasks, a) is None,
    ensures
        export_sections(tasks, b) is None,
    decreases b - a,
{
    if a < b {
        lemma_export_sections_stay_none(tasks, a, (b - 1) as nat);
    }
}

/// The task carries `tag`.
pub open spec fn has_tag(task: Task, tag: Seq<char>) -> bool {
    task.tags@.map_values(|t: String| t@).contains(tag)
}

/// The tasks that carry `tag`, in order.
pub fn tasks_with_tag(tasks: &[Task], tag: &str) -> (r: Vec<Task>)
    ensures
        r@.len() == tasks@.filter(|t: Task| has_tag(t, tag@)).len(),
        forall|k: int| 0 <= k < r@.len() ==> same_task(#[trigger] r@[k], tasks@.filter(|t: Task| has_tag(t, tag@))[k]),
{
    let ghost ts = tasks@;
    let ghost pred = |t: Task| has_tag(t, tag@);
    let wanted = owned(tag);
    let mut r: Vec<Task> = Vec::new();
    let mut i: usize = 0;
    while i < tasks.len()
        invariant
            ts == tasks@,
            wanted@ == tag@,
            pred == (|t: Task| has_tag(t, tag@)),
            i <= ts.len(),
            r@.len() == ts.take(i as int).filter(pred).len(),
            forall|k: int| 0 <= k < r@.len() ==> same_task(#[trigger] r@[k], ts.take(i as int).filter(pred)[k]),
        decreases ts.len() - i,
    {
        proof {
            assert(ts.take(i + 1) =~= ts.take(i as int).push(ts[i as int]));
            ts.take(i as int).lemma_filter_push(ts[i as int], pred);
        }
        let t = &tasks[i];
        let found = contains_string(&t.tags, &wanted);
        proof {
            assert(t.tags.deep_view() =~= t.tags@.map_values(|s: String| s@));
        }
        if found {
            let ghost r0 = r@;
            r.push(t.copy());
            proof {
                assert forall|k: int| 0 <= k < r@.len() implies same_task(#[trigger] r@[k], ts.take(i + 1).filter(pred)[k]) by {
                    if k < r0.len() {
                        assert(r@[k] == r0[k]);
                    }
                }
            }
        }
        i = i + 1;
    }
    assert(ts.take(ts.len() as int) =~= ts);
    r
}

} // verus!
