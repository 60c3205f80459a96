//! Collecting knowledge from the tasks an agent ran.
use vstd::prelude::*;
use std::collections::HashMap;
use super::task::{AgentTask, TaskStatus};
use crate::json::{json_text_items, json_text_member, text_items, text_member};
use crate::runtime::{clock_now, millis_since, new_id, now_timestamp};
use crate::storage::opt_text;
use crate::text::{
    concat, contains_seq, contains_string, decimal, from_chars, i64_decimal, lowercase, owned,
    signed_decimal, str_contains, str_trim, to_chars, to_lowercase, trim, u64_decimal, utf8_len,
};

verus! {

broadcast use vstd::seq_lib::group_seq_properties;

/// What is collected, and when.
#[derive(Debug, Clone)]
pub struct CollectionConfig {
    pub enabled: bool,
    pub auto_collect: bool,
    pub collect_from_tasks: bool,
    pub collect_from_sessions: bool,
    pub max_items_per_run: Option<u32>,
    pub collection_interval_minutes: u64,
    pub filters: CollectionFilters,
}

impl Default for CollectionConfig {
    /// Everything enabled, at most 100 items a run, every 60 minutes, with
    /// the default filters.
    fn default() -> (r: Self)
        ensures
            r.enabled && r.auto_collect && r.collect_from_tasks && r.collect_from_sessions,
            r.max_items_per_run == Some(100u32),
            r.collection_interval_minutes == 60,
            r.filters.min_task_duration_ms == Some(1000i64),
            r.filters.exclude_task_types@.len() == 0,
            r.filters.only_successful_tasks,
            r.filters.min_message_length == Some(10usize),
            r.filters.exclude_patterns@.len() == 0,
    {
        CollectionConfig {
            enabled: true,
            auto_collect: true,
            collect_from_tasks: true,
            collect_from_sessions: true,
            max_items_per_run: Some(100),
            collection_interval_minutes: 60,
            filters: CollectionFilters::default(),
        }
    }
}

/// Which tasks and messages are collected.
#[derive(Debug, Clone)]
pub struct CollectionFilters {
    pub min_task_duration_ms: Option<i64>,
    pub exclude_task_types: Vec<String>,
    pub only_successful_tasks: bool,
    pub min_message_length: Option<usize>,
    pub exclude_patterns: Vec<String>,
}

impl Default for CollectionFilters {
    /// Successful tasks of at least a second, messages of at least ten
    /// bytes, nothing excluded.
    fn default() -> (r: Self)
        ensures
            r.min_task_duration_ms == Some(1000i64),
            r.exclude_task_types@.len() == 0,
            r.only_successful_tasks,
            r.min_message_length == Some(10usize),
            r.exclude_patterns@.len() == 0,
    {
        CollectionFilters {
            min_task_duration_ms: Some(1000),
            exclude_task_types: Vec::new(),
            only_successful_tasks: true,
            min_message_length: Some(10),
            exclude_patterns: Vec::new(),
        }
    }
}

/// A piece of knowledge collected.
#[derive(Debug, Clone)]
pub struct KnowledgeItem {
    pub id: String,
    pub source: String,
    pub source_id: String,
    pub title: String,
    pub content: String,
    pub summary: Option<String>,
    pub tags: Vec<String>,
    pub category: String,
    pub collected_at: i64,
    pub metadata: HashMap<String, String>,
}

/// The outcome of a collection run.
#[derive(Debug, Clone)]
pub struct CollectionResult {
    pub items_collected: usize,
    pub items_failed: usize,
    pub duration_ms: i64,
    pub sources_processed: usize,
    pub message: String,
}

/// The category of a text, read in lower case: error, solution,
/// documentation, pattern or general, by the first group of words that
/// occurs in it.
pub open spec fn content_category(lower: Seq<char>) -> Seq<char> {
    if contains_seq(lower, "error"@) || contains_seq(lower, "exception"@) || contains_seq(lower, "failed"@) {
        "error"@
    } else if contains_seq(lower, "solution"@) || contains_seq(lower, "fix"@) || contains_seq(lower, "resolve"@) {
        "solution"@
    } else if contains_seq(lower, "document"@) || contains_seq(lower, "readme"@) || contains_seq(lower, "guide"@) {
        "documentation"@
    } else if contains_seq(lower, "pattern"@) || contains_seq(lower, "approach"@) || contains_seq(lower, "method"@) {
        "pattern"@
    } else {
        "general"@
    }
}

/// A text whose lower case mentions `error`, `exception` or `failed` is
/// an error, whatever else it mentions; one classed as an error mentions
/// one of them. Below that, the words of each group in turn decide:
/// `solution`, `fix`, `resolve` a solution; `document`, `readme`, `guide`
/// documentation; `pattern`, `approach`, `method` a pattern; a text with
/// none of these words is general, and every text gets one of the five
/// classes.
pub proof fn law_classes_follow_their_words(content: Seq<char>)
    ensures
        ({
            let l = lowercase(content);
            let err = contains_seq(l, "error"@) || contains_seq(l, "exception"@) || contains_seq(l, "failed"@);
            let sol = contains_seq(l, "solution"@) || contains_seq(l, "fix"@) || contains_seq(l, "resolve"@);
            let doc = contains_seq(l, "document"@) || contains_seq(l, "readme"@) || contains_seq(l, "guide"@);
            let pat = contains_seq(l, "pattern"@) || contains_seq(l, "approach"@) || contains_seq(l, "method"@);
            let c = content_category(l);
            &&& err <==> c == "error"@
            &&& !err && sol ==> c == "solution"@
            &&& !err && !sol && doc ==> c == "documentation"@
            &&& !err && !sol && !doc && pat ==> c == "pattern"@
            &&& !err && !sol && !doc && !pat ==> c == "general"@
            &&& c == "error"@ || c == "solution"@ || c == "documentation"@ || c == "pattern"@ || c
                == "general"@
        }),
{
    reveal_strlit("error");
    reveal_strlit("solution");
    reveal_strlit("documentation");
    reveal_strlit("pattern");
    reveal_strlit("general");
    assert("error"@[0] != "solution"@[0]);
    assert("error"@[0] != "documentation"@[0]);
    assert("error"@[0] != "pattern"@[0]);
    assert("error"@[0] != "general"@[0]);
}

/// The summary of a text: trimmed; nothing when that is empty; cut to its
/// first hundred characters, followed by `...`, when longer.
pub open spec fn summary_of(content: Seq<char>) -> Option<Seq<char>> {
    let t = trim(content);
    if t.len() == 0 {
        None
    } else if t.len() > 100 {
        Some(t.take(100) + "..."@)
    } else {
        Some(t)
    }
}

/// A task passes the filters: it completed where only successful tasks
/// are kept, it ran at least the minimum duration where one is set, and
/// its type is not excluded.
pub open spec fn passes_filters(f: CollectionFilters, task: AgentTask) -> bool {
    &&& !(f.only_successful_tasks && task.status != TaskStatus::Completed)
    &&& f.min_task_duration_ms matches Some(min) ==> (task.duration_ms matches Some(d) && d >= min)
    &&& !f.exclude_task_types.deep_view().contains(task.task_type@)
}

/// The content a task carries: the text of its payload's `content`
/// member, or nothing.
pub open spec fn task_content(task: AgentTask) -> Seq<char> {
    match json_text_member(task.payload, "content"@) {
        Some(c) => c,
        None => Seq::empty(),
    }
}

/// A content is long enough: at least the minimum length in bytes, where
/// one is set.
pub open spec fn long_enough(f: CollectionFilters, content: Seq<char>) -> bool {
    f.min_message_length matches Some(m) ==> utf8_len(content) >= m
}

/// A task yields a knowledge item: it passes the filters and its content
/// is long enough.
pub open spec fn yields_item(f: CollectionFilters, task: AgentTask) -> bool {
    passes_filters(f, task) && long_enough(f, task_content(task))
}

/// The texts among the items of an array.
pub open spec fn texts_of(items: Seq<Option<Seq<char>>>) -> Seq<Seq<char>>
    decreases items.len(),
{
    if items.len() == 0 {
        Seq::empty()
    } else {
        let rest = texts_of(items.drop_last());
        match items.last() {
            Some(t) => rest.push(t),
            None => rest,
        }
    }
}

/// The item made of a task and the members read from its payload: `title`
/// (the task type when missing), `content` (empty when missing) and the
/// texts of `tags`, collected at a time of the clock (seconds since the
/// epoch).
pub open spec fn item_matches(item: KnowledgeItem, task: AgentTask, title: Option<Seq<char>>, content: Option<Seq<char>>, tags: Option<Seq<Option<Seq<char>>>>) -> bool {
    let c = match content {
        Some(c) => c,
        None => Seq::empty(),
    };
    &&& item.id@.len() == 36
    &&& item.source@ == "task"@
    &&& item.source_id@ == task.id@
    &&& item.title@ == match title {
        Some(t) => t,
        None => task.task_type@,
    }
    &&& item.content@ == c
    &&& match summary_of(c) {
        Some(s) => item.summary matches Some(x) && x@ == s,
        None => item.summary is None,
    }
    &&& item.tags.deep_view() == match tags {
        Some(items) => texts_of(items),
        None => Seq::empty(),
    }
    &&& item.category@ == content_category(lowercase(c))
    &&& item.metadata@ == Map::<String, String>::empty()
    &&& 0 <= item.collected_at < 10_000_000_000_000
}

/// The message of a collection run.
pub open spec fn collected_message(items: nat, sources: nat, duration: int) -> Seq<char> {
    "Collected "@ + decimal(items) + " items from "@ + decimal(sources) + " sources in "@
        + signed_decimal(duration) + "ms"@
}

/// How many items a collection run gets from the tasks: those that yield
/// an item (see [`yields_item`]), at most the run's maximum (100 when
/// unset), and none when tasks are not collected from.
pub open spec fn run_items(cfg: CollectionConfig, tasks: Seq<AgentTask>) -> nat {
    let found = tasks.filter(|t: AgentTask| yields_item(cfg.filters, t)).len();
    let max = match cfg.max_items_per_run {
        Some(m) => m as nat,
        None => 100nat,
    };
    if !cfg.collect_from_tasks {
        0
    } else if found < max {
        found
    } else {
        max
    }
}

/// Collects knowledge for one agent.
pub struct KnowledgeCollector {
    agent_id: String,
    config: CollectionConfig,
    total_collected: usize,
    last_collection_time: Option<i64>,
}

impl KnowledgeCollector {
    /// The agent collected for.
    pub closed spec fn agent(self) -> Seq<char> {
        self.agent_id@
    }

    /// The configuration.
    pub closed spec fn config(self) -> CollectionConfig {
        self.config
    }

    /// How many items were collected in all.
    pub closed spec fn total(self) -> nat {
        self.total_collected as nat
    }

    /// When the last run happened.
    pub closed spec fn last_time(self) -> Option<i64> {
        self.last_collection_time
    }

    /// A collector for the agent, with nothing collected yet.
    pub fn new(agent_id: String, config: CollectionConfig) -> (r: Self)
        ensures
            r.agent() == agent_id@,
            r.config() == config,
            r.total() == 0,
            r.last_time() is None,
    {
        KnowledgeCollector { agent_id, config, total_collected: 0, last_collection_time: None }
    }

    /// The category of a text (see [`content_category`]), after putting it
    /// in lower case.
    pub fn classify_content(&self, content: &str) -> (r: String)
        ensures
            r@ == content_category(lowercase(content@)),
    {
        let lower = to_lowercase(content);
        let l = lower.as_str();
        if str_contains(l, "error") || str_contains(l, "exception") || str_contains(l, "failed") {
            return owned("error");
        }
        if str_contains(l, "solution") || str_contains(l, "fix") || str_contains(l, "resolve") {
            return owned("solution");
        }
        if str_contains(l, "document") || str_contains(l, "readme") || str_contains(l, "guide") {
            return owned("documentation");
        }
        if str_contains(l, "pattern") || str_contains(l, "approach") || str_contains(l, "method") {
            return owned("pattern");
        }
        owned("general")
    }

    /// The summary of a text (see [`summary_of`]).
    pub fn extract_summary(&self, content: &str) -> (r: Option<String>)
        ensures
            match summary_of(content@) {
                Some(s) => r matches Some(x) && x@ == s,
                None => r is None,
            },
    {
        let trimmed = str_trim(content);
        let tc = to_chars(trimmed.as_str());
        if tc.len() == 0 {
            return None;
        }
        if tc.len() > 100 {
            let mut head: Vec<char> = Vec::new();
            let mut i: usize = 0;
            while i < 100
                invariant
                    i <= 100,
                    tc@.len() > 100,
                    head@ == tc@.take(i as int),
                decreases 100 - i,
            {
                head.push(tc[i]);
                assert(head@ =~= tc@.take(i + 1));
                i = i + 1;
            }
            Some(concat(from_chars(head.as_slice()).as_str(), "..."))
        } else {
            Some(trimmed)
        }
    }

    /// Whether a task passes the filters (see [`passes_filters`]).
    pub fn should_collect_task(&self, task: &AgentTask) -> (r: bool)
        ensures
            r == passes_filters(self.config().filters, *task),
    {
        if self.config.filters.only_successful_tasks && !task.is_completed() {
            return false;
        }
        if let Some(min_duration) = self.config.filters.min_task_duration_ms {
            if let Some(duration) = task.duration_ms {
                if duration < min_duration {
                    return false;
                }
            } else {
                return false;
            }
        }
        if contains_string(&self.config.filters.exclude_task_types, &task.task_type) {
            return false;
        }
        true
    }

    /// The item made of a task and the members read from its payload (see
    /// [`item_matches`]), unless its content is too short.
    #[verifier::rlimit(40)]
    pub fn knowledge_from_fields(
        &self,
        task: &AgentTask,
        title: Option<String>,
        content: Option<String>,
        tags: Option<Vec<Option<String>>>,
    ) -> (r: Option<KnowledgeItem>)
        ensures
            r is Some <==> long_enough(
                self.config().filters,
                match content {
                    Some(c) => c@,
                    None => Seq::empty(),
                },
            ),
            r matches Some(item) ==> item_matches(
                item,
                *task,
                match title {
                    Some(t) => Some(t@),
                    None => None,
                },
                match content {
                    Some(c) => Some(c@),
                    None => None,
                },
                tags.deep_view(),
            ),
    {
        let ghost cv = match opt_text(content) {
            Some(c) => c,
            None => Seq::<char>::empty(),
        };
        let ghost tv = opt_text(title);
        let ghost gv = tags.deep_view();
        let title_text = match title {
            Some(t) => t,
            None => task.task_type.clone(),
        };
        let content_text = match content {
            Some(c) => c,
            None => String::new(),
        };
        if let Some(min_length) = self.config.filters.min_message_length {
            let bytes = content_text.as_str().as_bytes();
            if bytes.len() < min_length {
                return None;
            }
        }
        let mut tag_list: Vec<String> = Vec::new();
        match tags {
            Some(items) => {
                let ghost iv = items.deep_view();
                let mut i: usize = 0;
                assert(iv.take(0) =~= Seq::<Option<Seq<char>>>::empty());
                while i < items.len()
                    invariant
                        iv == items.deep_view(),
                        i <= iv.len(),
                        tag_list.deep_view() == texts_of(iv.take(i as int)),
                    decreases iv.len() - i,
                {
                    assert(iv.take(i + 1).drop_last() =~= iv.take(i as int));
                    assert(iv[i as int] == items@[i as int].deep_view());
                    match &items[i] {
                        Some(t) => {
                            let ghost t0 = tag_list.deep_view();
                            tag_list.push(t.clone());
                            assert(tag_list.deep_view() =~= t0.push(t@));
                        },
                        None => {},
                    }
                    i = i + 1;
                }
                assert(iv.take(iv.len() as int) =~= iv);
            },
            None => {},
        }
        let category = self.classify_content(content_text.as_str());
        let summary = self.extract_summary(content_text.as_str());
        let item = KnowledgeItem {
            id: new_id(),
            source: owned("task"),
            source_id: task.id.clone(),
            title: title_text,
            content: content_text,
            summary,
            tags: tag_list,
            category,
            collected_at: now_timestamp(),
            metadata: HashMap::new(),
        };
        assert(item.metadata@ =~= Map::<String, String>::empty());
        assert(item.content@ == cv);
        assert(item.id@.len() == 36);
        assert(item.source@ == "task"@);
        assert(item.category@ == content_category(lowercase(cv)));
        assert(item.title@ == match tv {
            Some(t) => t,
            None => task.task_type@,
        });
        assert(item.tags.deep_view() == match gv {
            Some(items) => texts_of(items),
            None => Seq::<Seq<char>>::empty(),
        });
        Some(item)
    }

    /// The item collected from a task: its payload's `title`, `content`
    /// and `tags` members read, then [`KnowledgeCollector::knowledge_from_fields`].
    pub fn extract_knowledge_from_task(&self, task: &AgentTask) -> (r: Option<KnowledgeItem>)
        ensures
            r is Some <==> long_enough(self.config().filters, task_content(*task)),
            r matches Some(item) ==> item_matches(
                item,
                *task,
                json_text_member(task.payload, "title"@),
                json_text_member(task.payload, "content"@),
                json_text_items(task.payload, "tags"@),
            ),
    {
        let title = text_member(&task.payload, "title");
        let content = text_member(&task.payload, "content");
        let tags = text_items(&task.payload, "tags");
        self.knowledge_from_fields(task, title, content, tags)
    }

    /// How many of the tasks yield an item (see [`yields_item`]), taken in
    /// order and at most the run's maximum (100 when unset).
    pub fn collect_from_tasks(&self, tasks: &[AgentTask]) -> (r: Result<usize, String>)
        ensures
            r matches Ok(n) && n == {
                let found = tasks@.filter(|t: AgentTask| yields_item(self.config().filters, t)).len();
                let max = match self.config().max_items_per_run {
                    Some(m) => m as nat,
                    None => 100nat,
                };
                if found < max {
                    found
                } else {
                    max
                }
            },
    {
        let ghost pred = |t: AgentTask| yields_item(self.config.filters, t);
        let max_items: usize = match self.config.max_items_per_run {
            Some(m) => m as usize,
            None => 100,
        };
        let mut collected: usize = 0;
        let mut i: usize = 0;
        while i < tasks.len() && collected < max_items
            invariant
                pred == (|t: AgentTask| yields_item(self.config.filters, t)),
                i <= tasks@.len(),
                collected <= max_items,
                collected <= i,
                collected < max_items ==> collected == tasks@.take(i as int).filter(pred).len(),
                collected == max_items ==> tasks@.take(i as int).filter(pred).len() >= max_items,
            decreases tasks@.len() - i,
        {
            proof {
                assert(tasks@.take(i + 1) =~= tasks@.take(i as int).push(tasks@[i as int]));
                tasks@.take(i as int).lemma_filter_push(tasks@[i as int], pred);
            }
            if self.should_collect_task(&tasks[i]) {
                if let Some(item) = self.extract_knowledge_from_task(&tasks[i]) {
                    collected = collected + 1;
                }
            }
            i = i + 1;
        }
        proof {
            if collected < max_items {
                assert(i == tasks@.len());
                assert(tasks@.take(i as int) =~= tasks@);
            } else {
                lemma_filter_prefix_le(tasks@, pred, i as int);
            }
        }
        Ok(collected)
    }

    /// One collection run over the tasks: nothing when collection is
    /// disabled; otherwise the items found (see
    /// [`KnowledgeCollector::collect_from_tasks`]) are added to the total,
    /// the time of the run is recorded, and the result says how many items
    /// came from how many tasks and how long it took.
    pub fn collect(&mut self, tasks: &[AgentTask]) -> (r: Result<CollectionResult, String>)
        requires
            old(self).config().enabled ==> old(self).total() + run_items(old(self).config(), tasks@) <= usize::MAX,
        ensures
            !old(self).config().enabled ==> (r matches Ok(res) && res.items_collected == 0
                && res.items_failed == 0 && res.duration_ms == 0 && res.sources_processed == 0
                && res.message@ == "Collection is disabled"@ && *final(self) == *old(self)),
            old(self).config().enabled ==> (r matches Ok(res) && {
                let n = run_items(old(self).config(), tasks@);
                &&& res.items_collected == n
                &&& res.items_failed == 0
                &&& res.sources_processed == if old(self).config().collect_from_tasks {
                    tasks@.len()
                } else {
                    0
                }
                &&& res.message@ == collected_message(n, res.sources_processed as nat, res.duration_ms as int)
                &&& final(self).total() == old(self).total() + n
                &&& final(self).last_time() is Some
                &&& final(self).config() == old(self).config()
                &&& final(self).agent() == old(self).agent()
            }),
    {
        if !self.config.enabled {
            return Ok(CollectionResult {
                items_collected: 0,
                items_failed: 0,
                duration_ms: 0,
                sources_processed: 0,
                message: owned("Collection is disabled"),
            });
        }
        let start = clock_now();
        let mut items_collected: usize = 0;
        let mut items_failed: usize = 0;
        let mut sources_processed: usize = 0;
        if self.config.collect_from_tasks {
            match self.collect_from_tasks(tasks) {
                Ok(count) => {
                    items_collected = count;
                    sources_processed = tasks.len();
                },
                Err(_) => {
                    items_failed = items_failed + 1;
                },
            }
        }
        proof {
            let ghost pred = |t: AgentTask| yields_item(self.config.filters, t);
            tasks@.lemma_filter_len(pred);
        }
        let duration_ms = millis_since(&start);
        self.total_collected = self.total_collected + items_collected;
        self.last_collection_time = Some(now_timestamp());
        let mut message = concat("Collected ", u64_decimal(items_collected as u64).as_str());
        message = concat(message.as_str(), " items from ");
        message = concat(message.as_str(), u64_decimal(sources_processed as u64).as_str());
        message = concat(message.as_str(), " sources in ");
        message = concat(message.as_str(), i64_decimal(duration_ms).as_str());
        message = concat(message.as_str(), "ms");
        Ok(CollectionResult { items_collected, items_failed, duration_ms, sources_processed, message })
    }

    /// How many items were collected in all.
    pub fn get_total_collected(&self) -> (r: usize)
        ensures
            r == self.total(),
    {
        self.total_collected
    }

    /// When the last run happened.
    pub fn get_last_collection_time(&self) -> (r: Option<i64>)
        ensures
            r == self.last_time(),
    {
        self.last_collection_time
    }

    /// Replaces the configuration.
    pub fn update_config(&mut self, config: CollectionConfig)
        ensures
            final(self).config() == config,
            final(self).agent() == old(self).agent(),
            final(self).total() == old(self).total(),
            final(self).last_time() == old(self).last_time(),
    {
        self.config = config;
    }

    /// The configuration.
    pub fn get_config(&self) -> (r: &CollectionConfig)
        ensures
            *r == self.config(),
    {
        &self.config
    }
}

/// A prefix has no more matching elements than the whole.
pub proof fn lemma_filter_prefix_le(s: Seq<AgentTask>, pred: spec_fn(AgentTask) -> bool, k: int)
    requires
        0 <= k <= s.len(),
    ensures
        s.take(k).filter(pred).len() <= s.filter(pred).len(),
    decreases s.len() - k,
{
    if k < s.len() {
        lemma_filter_prefix_le(s, pred, k + 1);
        assert(s.take(k + 1) =~= s.take(k).push(s[k]));
        s.take(k).lemma_filter_push(s[k], pred);
    } else {
        assert(s.take(k) =~= s);
    }
}

} // verus!
