//! Knowledge extraction from agent sessions: code, design discussions
//! and insights become knowledge items, and sessions that name a project
//! become project nodes.
use vstd::prelude::*;
use crate::agents::{Attachment, Message, SessionData};
use crate::graph::graph_builder::{capture_groups, first_group, regex_captures, regex_compiles};
use crate::runtime::{clock_now, millis_since, new_id, now_timestamp};
use crate::text::{
    char_utf8_width, chars_from, concat, contains_seq, from_chars, lines_of, lowercase, owned,
    split_lines, starts_with, starts_with_chars, str_contains, str_eq, str_trim, to_chars,
    to_lowercase, trim, trim_chars, utf8_len, utf8_width,
};

verus! {

broadcast use vstd::seq_lib::group_seq_properties;

/// A piece of knowledge taken from a session.
#[derive(Debug, Clone)]
pub struct KnowledgeItem {
    pub id: String,
    pub source_session_id: String,
    pub item_type: String,
    pub title: String,
    pub summary: String,
    pub content: String,
    pub tags: Vec<String>,
    pub project: Option<String>,
    pub timestamp: i64,
}

/// A project that sessions talk about.
#[derive(Debug, Clone)]
pub struct ProjectNode {
    pub id: String,
    pub name: String,
    pub description: String,
    pub technologies: Vec<String>,
    pub tasks: Vec<String>,
    pub knowledge_items: Vec<String>,
    pub created_at: i64,
    pub updated_at: i64,
}

/// What is extracted.
#[derive(Debug, Clone, Copy, PartialEq, Eq, Structural)]
pub struct ExtractorConfig {
    pub auto_extract: bool,
    pub extract_code: bool,
    pub extract_design: bool,
    pub extract_insights: bool,
    pub use_ai_for_summary: bool,
    pub max_content_length: usize,
}

/// The default configuration: everything extracted, contents up to
/// 10000 bytes.
pub open spec fn default_extractor_config() -> ExtractorConfig {
    ExtractorConfig {
        auto_extract: true,
        extract_code: true,
        extract_design: true,
        extract_insights: true,
        use_ai_for_summary: true,
        max_content_length: 10000,
    }
}

impl Default for ExtractorConfig {
    fn default() -> (r: Self)
        ensures
            r == default_extractor_config(),
    {
        ExtractorConfig {
            auto_extract: true,
            extract_code: true,
            extract_design: true,
            extract_insights: true,
            use_ai_for_summary: true,
            max_content_length: 10000,
        }
    }
}

/// What an extraction found.
#[derive(Debug, Clone)]
pub struct ExtractResult {
    pub knowledge_items: Vec<KnowledgeItem>,
    pub project_updates: Vec<ProjectNode>,
    pub extraction_time_ms: i64,
}

/// The technologies recognised in contents.
pub open spec fn tech_keywords() -> Seq<Seq<char>> {
    seq![
        "python"@,
        "javascript"@,
        "typescript"@,
        "rust"@,
        "go"@,
        "java"@,
        "react"@,
        "vue"@,
        "angular"@,
        "svelte"@,
        "node"@,
        "express"@,
        "django"@,
        "flask"@,
        "spring"@,
        "postgresql"@,
        "mysql"@,
        "mongodb"@,
        "redis"@,
        "docker"@,
        "kubernetes"@,
        "aws"@,
        "gcp"@,
        "git"@,
        "linux"@,
        "macos"@,
        "windows"@
    ]
}

/// The technology tags of a content: the technologies whose name occurs in
/// its lower case, in the order of [`tech_keywords`].
pub open spec fn content_tags(content: Seq<char>) -> Seq<Seq<char>> {
    tech_keywords().filter(|k: Seq<char>| contains_seq(lowercase(content), k))
}

/// The longest prefix of `s` whose UTF-8 encoding fits in `b` bytes.
pub open spec fn take_bytes(s: Seq<char>, b: int) -> Seq<char>
    decreases s.len(),
{
    if s.len() == 0 || b < utf8_width(s[0]) {
        Seq::empty()
    } else {
        seq![s[0]] + take_bytes(s.drop_first(), b - utf8_width(s[0]))
    }
}

/// Byte `b` of `s` falls on a character boundary.
pub open spec fn is_boundary(s: Seq<char>, b: int) -> bool {
    utf8_len(take_bytes(s, b)) == b
}

/// The first line of a text, trimmed; `Untitled` for an empty text.
pub open spec fn first_line(text: Seq<char>) -> Seq<char> {
    let ls = lines_of(text);
    trim(if ls.len() > 0 { ls[0] } else { "Untitled"@ })
}

/// The title of a text: its first line (see [`first_line`]); when that
/// is longer than 100 bytes, its longest start of at most 97 bytes that
/// ends between two characters (see [`take_bytes`]), followed by `...`.
pub open spec fn text_title(text: Seq<char>) -> Seq<char> {
    let f = first_line(text);
    if utf8_len(f) > 100 {
        take_bytes(f, 97) + "..."@
    } else {
        f
    }
}

/// The plain summary of a text: trimmed; when longer than 200
/// characters, its first 197 characters followed by `...`.
pub open spec fn simple_summary(content: Seq<char>) -> Seq<char> {
    let t = trim(content);
    if t.len() <= 200 {
        t
    } else {
        t.take(197) + "..."@
    }
}

/// The words that mark a design discussion.
pub open spec fn design_keywords() -> Seq<Seq<char>> {
    seq!["设计"@, "架构"@, "design"@, "architecture"@, "方案"@, "架构"@]
}

/// The words that mark an insight.
pub open spec fn insight_keywords() -> Seq<Seq<char>> {
    seq!["经验"@, "教训"@, "最佳实践"@, "best practice"@, "lesson"@, "learned"@]
}

/// Some of the words occurs in the lower case of the text.
pub open spec fn mentions_any(text: Seq<char>, words: Seq<Seq<char>>) -> bool {
    exists|i: int| 0 <= i < words.len() && contains_seq(lowercase(text), #[trigger] words[i])
}

/// A message is a design discussion (or an insight): it mentions one of
/// the words and is at least 50 bytes long.
pub open spec fn discussed(m: Message, words: Seq<Seq<char>>) -> bool {
    mentions_any(m.content@, words) && utf8_len(m.content@) >= 50
}

/// The item made of a message of a session: of the given kind, titled by
/// its first line, summarised plainly, tagged by technology, stamped with
/// the message's time.
pub open spec fn message_item(item: KnowledgeItem, m: Message, session_id: Seq<char>, kind: Seq<char>) -> bool {
    &&& item.id@.len() == 36
    &&& item.source_session_id@ == session_id
    &&& item.item_type@ == kind
    &&& item.title@ == text_title(m.content@)
    &&& item.summary@ == simple_summary(m.content@)
    &&& item.content@ == m.content@
    &&& item.tags.deep_view() == content_tags(m.content@)
    &&& item.project is None
    &&& item.timestamp == m.timestamp
}

/// The pattern that finds a function or type name in code.
pub open spec fn code_name_pattern() -> Seq<char> {
    "(?:def\\s+(\\w+)|(?:class|struct|interface)\\s+(\\w+))"@
}

/// The pattern that finds a project name in a conversation.
pub open spec fn project_pattern() -> Seq<char> {
    "(?:项目|project|Project|PROJECT)\\s*[:：]\\s*([^，。\\n]+)"@
}

/// `s` with every leading repetition of `p` removed.
pub open spec fn strip_all(s: Seq<char>, p: Seq<char>) -> Seq<char>
    decreases s.len(),
{
    if p.len() > 0 && starts_with(s, p) {
        strip_all(s.skip(p.len() as int), p)
    } else {
        s
    }
}

/// The text of a comment line: a line that, trimmed, starts with `//` or
/// `#`, with those markers and the surrounding blanks removed, unless
/// nothing is left.
pub open spec fn comment_text(line: Seq<char>) -> Option<Seq<char>> {
    let t = trim(line);
    if starts_with(t, "//"@) || starts_with(t, "#"@) {
        let c = trim(strip_all(strip_all(t, "//"@), "#"@));
        if c.len() > 0 {
            Some(c)
        } else {
            None
        }
    } else {
        None
    }
}

/// The text of the first comment line with text.
pub open spec fn first_comment(lines: Seq<Seq<char>>) -> Option<Seq<char>>
    decreases lines.len(),
{
    if lines.len() == 0 {
        None
    } else {
        match comment_text(lines[0]) {
            Some(c) => Some(c),
            None => first_comment(lines.drop_first()),
        }
    }
}

/// The title of a piece of code given what the name pattern found in it:
/// `<language>: <name>` for the first match (`code` when the language is
/// unknown; nothing when the match has no name), else the first comment,
/// else `Code snippet`.
pub open spec fn code_title(content: Seq<char>, language: Option<Seq<char>>, caps: Seq<Seq<Option<Seq<char>>>>) -> Option<Seq<char>> {
    if caps.len() > 0 {
        match first_group(caps[0]) {
            Some(n) => Some(
                match language {
                    Some(l) => l,
                    None => "code"@,
                } + ": "@ + n,
            ),
            None => None,
        }
    } else {
        match first_comment(lines_of(content)) {
            Some(c) => Some(c),
            None => Some("Code snippet"@),
        }
    }
}

/// The title the name pattern gives a piece of code: [`code_title`] of
/// its captures, or nothing when the pattern does not compile.
pub open spec fn titled_code(content: Seq<char>, language: Option<Seq<char>>) -> Option<Seq<char>> {
    if regex_compiles(code_name_pattern()) {
        code_title(content, language, regex_captures(code_name_pattern(), content))
    } else {
        None
    }
}

/// The attachments that hold code.
pub open spec fn code_attachments(atts: Seq<Attachment>) -> Seq<Attachment> {
    atts.filter(|a: Attachment| a.type_field@ == "code"@)
}

/// The item made of a code attachment of a message.
pub open spec fn code_item(item: KnowledgeItem, a: Attachment, m: Message, session_id: Seq<char>) -> bool {
    &&& item.id@.len() == 36
    &&& item.source_session_id@ == session_id
    &&& item.item_type@ == "code"@
    &&& item.title@ == match titled_code(
        a.content@,
        match a.language {
            Some(l) => Some(l@),
            None => None,
        },
    ) {
        Some(t) => t,
        None => "Code snippet"@,
    }
    &&& item.summary@ == simple_summary(a.content@)
    &&& item.content@ == a.content@
    &&& item.tags.deep_view() == content_tags(a.content@)
    &&& item.project is None
    &&& item.timestamp == m.timestamp
}

/// The kinds of the items a message yields, in order: one `code` per code
/// attachment, then `design`, then `insight`, each where it is extracted.
pub open spec fn message_kinds(cfg: ExtractorConfig, m: Message) -> Seq<Seq<char>> {
    (if cfg.extract_code {
        Seq::new(code_attachments(m.attachments@).len(), |k: int| "code"@)
    } else {
        Seq::empty()
    }) + (if cfg.extract_design && discussed(m, design_keywords()) {
        seq!["design"@]
    } else {
        Seq::empty()
    }) + (if cfg.extract_insights && discussed(m, insight_keywords()) {
        seq!["insight"@]
    } else {
        Seq::empty()
    })
}

/// The kinds of the items the messages yield, in order.
pub open spec fn messages_kinds(cfg: ExtractorConfig, ms: Seq<Message>) -> Seq<Seq<char>>
    decreases ms.len(),
{
    if ms.len() == 0 {
        Seq::empty()
    } else {
        messages_kinds(cfg, ms.drop_last()) + message_kinds(cfg, ms.last())
    }
}

/// The texts joined with `sep` between them.
pub open spec fn joined(parts: Seq<Seq<char>>, sep: Seq<char>) -> Seq<char>
    decreases parts.len(),
{
    if parts.len() == 0 {
        Seq::empty()
    } else if parts.len() == 1 {
        parts[0]
    } else {
        joined(parts.drop_last(), sep) + sep + parts.last()
    }
}

/// The contents of the messages of a session, joined by spaces.
pub open spec fn session_text(s: SessionData) -> Seq<char> {
    joined(s.messages@.map_values(|m: Message| m.content@), " "@)
}

/// The project named in a session, given what the project pattern found
/// in its text: the trimmed first group of the first match.
pub open spec fn project_name(caps: Seq<Seq<Option<Seq<char>>>>) -> Option<Seq<char>> {
    if caps.len() > 0 && caps[0].len() > 0 {
        match caps[0][0] {
            Some(g) => Some(trim(g)),
            None => None,
        }
    } else {
        None
    }
}

fn design_keyword(j: usize) -> (r: &'static str)
    requires
        j < 6,
    ensures
        r@ == design_keywords()[j as int],
{
    match j {
        0 => "设计",
        1 => "架构",
        2 => "design",
        3 => "architecture",
        4 => "方案",
        _ => "架构",
    }
}

fn insight_keyword(j: usize) -> (r: &'static str)
    requires
        j < 6,
    ensures
        r@ == insight_keywords()[j as int],
{
    match j {
        0 => "经验",
        1 => "教训",
        2 => "最佳实践",
        3 => "best practice",
        4 => "lesson",
        _ => "learned",
    }
}

/// Whether the lower case of `text` holds one of the six words of a list
/// (the design words when `design`, else the insight words).
fn mentions_any_exec(text: &str, design: bool) -> (r: bool)
    ensures
        r == mentions_any(text@, if design { design_keywords() } else { insight_keywords() }),
{
    let lower = to_lowercase(text);
    let ghost words = if design { design_keywords() } else { insight_keywords() };
    let mut j: usize = 0;
    while j < 6
        invariant
            words == if design { design_keywords() } else { insight_keywords() },
            words.len() == 6,
            lower@ == lowercase(text@),
            j <= 6,
            forall|i: int| 0 <= i < j ==> !contains_seq(lowercase(text@), #[trigger] words[i]),
        decreases 6 - j,
    {
        let w = if design { design_keyword(j) } else { insight_keyword(j) };
        if str_contains(lower.as_str(), w) {
            assert(contains_seq(lowercase(text@), words[j as int]));
            return true;
        }
        j = j + 1;
    }
    false
}

/// `s` with every leading repetition of `p` removed (see [`strip_all`]).
fn strip_all_exec(s: &[char], p: &[char]) -> (r: Vec<char>)
    ensures
        r@ == strip_all(s@, p@),
{
    let mut cur = crate::text::copy_chars(s);
    if p.len() == 0 {
        return cur;
    }
    while starts_with_chars(cur.as_slice(), p)
        invariant
            p@.len() > 0,
            strip_all(s@, p@) == strip_all(cur@, p@),
        decreases cur@.len(),
    {
        cur = chars_from(cur.as_slice(), p.len());
    }
    cur
}

/// The element that the filter keeps at position `i` of `s`, when it
/// keeps it, is the next one after the prefix.
proof fn lemma_filter_prefix(s: Seq<Attachment>, pred: spec_fn(Attachment) -> bool, i: int)
    requires
        0 <= i < s.len(),
        pred(s[i]),
    ensures
        s.filter(pred).len() > s.take(i).filter(pred).len(),
        s.filter(pred)[s.take(i).filter(pred).len() as int] == s[i],
    decreases s.len() - i,
{
    let k = s.take(i).filter(pred).len() as int;
    assert(s.take(i + 1) =~= s.take(i).push(s[i]));
    s.take(i).lemma_filter_push(s[i], pred);
    lemma_filter_keeps_prefix(s, pred, i + 1);
}

/// Filtering a prefix gives a prefix of the filtered whole.
proof fn lemma_filter_keeps_prefix(s: Seq<Attachment>, pred: spec_fn(Attachment) -> bool, j: int)
    requires
        0 <= j <= s.len(),
    ensures
        s.take(j).filter(pred).len() <= s.filter(pred).len(),
        forall|k: int| 0 <= k < s.take(j).filter(pred).len() ==> #[trigger] s.filter(pred)[k] == s.take(j).filter(pred)[k],
    decreases s.len() - j,
{
    if j == s.len() {
        assert(s.take(j) =~= s);
    } else {
        lemma_filter_keeps_prefix(s, pred, j + 1);
        assert(s.take(j + 1) =~= s.take(j).push(s[j]));
        s.take(j).lemma_filter_push(s[j], pred);
    }
}

/// The kinds of the items the sessions yield, in order.
pub open spec fn sessions_kinds(cfg: ExtractorConfig, ss: Seq<SessionData>) -> Seq<Seq<char>>
    decreases ss.len(),
{
    if ss.len() == 0 {
        Seq::empty()
    } else {
        sessions_kinds(cfg, ss.drop_last()) + messages_kinds(cfg, ss.last().messages@)
    }
}


fn tech_keyword(j: usize) -> (r: &'static str)
    requires
        j < 27,
    ensures
        r@ == tech_keywords()[j as int],
{
    match j {
        0 => "python",
        1 => "javascript",
        2 => "typescript",
        3 => "rust",
        4 => "go",
        5 => "java",
        6 => "react",
        7 => "vue",
        8 => "angular",
        9 => "svelte",
        10 => "node",
        11 => "express",
        12 => "django",
        13 => "flask",
        14 => "spring",
        15 => "postgresql",
        16 => "mysql",
        17 => "mongodb",
        18 => "redis",
        19 => "docker",
        20 => "kubernetes",
        21 => "aws",
        22 => "gcp",
        23 => "git",
        24 => "linux",
        25 => "macos",
        _ => "windows",
    }
}

/// The longest prefix of `s` whose UTF-8 encoding fits in `b` bytes (see
/// [`take_bytes`]).
fn cut_bytes(s: &[char], b: usize) -> (r: Vec<char>)
    ensures
        r@ == take_bytes(s@, b as int),
{
    let mut r: Vec<char> = Vec::new();
    let mut i: usize = 0;
    let mut left: usize = b;
    assert(s@.skip(0) =~= s@);
    while i < s.len()
        invariant
            i <= s@.len(),
            left <= b,
            take_bytes(s@, b as int) == r@ + take_bytes(s@.skip(i as int), left as int),
        decreases s@.len() - i,
    {
        let w = char_utf8_width(s[i]);
        let ghost rest = s@.skip(i as int);
        assert(rest[0] == s@[i as int]);
        if left < w {
            assert(take_bytes(rest, left as int) =~= Seq::<char>::empty());
            assert(r@ + Seq::<char>::empty() =~= r@);
            return r;
        }
        assert(rest.drop_first() =~= s@.skip(i + 1));
        assert(r@ + (seq![rest[0]] + take_bytes(rest.drop_first(), left - w)) =~= r@.push(s@[i as int]) + take_bytes(s@.skip(i + 1), left - w));
        r.push(s[i]);
        left = left - w;
        i = i + 1;
    }
    assert(take_bytes(s@.skip(i as int), left as int) =~= Seq::<char>::empty());
    assert(r@ + Seq::<char>::empty() =~= r@);
    r
}

/// Extracts knowledge from sessions.
pub struct KnowledgeExtractor {
    config: ExtractorConfig,
}

impl KnowledgeExtractor {
    /// The configuration.
    pub closed spec fn config(self) -> ExtractorConfig {
        self.config
    }

    /// An extractor with the given configuration.
    pub fn new(config: ExtractorConfig) -> (r: Self)
        ensures
            r.config() == config,
    {
        KnowledgeExtractor { config }
    }

    /// The technology tags of a content (see [`content_tags`]).
    pub fn extract_tags_from_content(&self, content: &str) -> (r: Vec<String>)
        ensures
            r.deep_view() == content_tags(content@),
    {
        let lower = to_lowercase(content);
        let ghost kws = tech_keywords();
        let ghost pred = |k: Seq<char>| contains_seq(lowercase(content@), k);
        let mut tags: Vec<String> = Vec::new();
        let mut j: usize = 0;
        assert(kws.len() == 27);
        while j < 27
            invariant
                kws == tech_keywords(),
                kws.len() == 27,
                lower@ == lowercase(content@),
                pred == (|k: Seq<char>| contains_seq(lowercase(content@), k)),
                j <= 27,
                tags.deep_view() == kws.take(j as int).filter(pred),
            decreases 27 - j,
        {
            proof {
                assert(kws.take(j + 1) =~= kws.take(j as int).push(kws[j as int]));
                kws.take(j as int).lemma_filter_push(kws[j as int], pred);
            }
            let k = tech_keyword(j);
            if str_contains(lower.as_str(), k) {
                let ghost t0 = tags.deep_view();
                tags.push(owned(k));
                assert(tags.deep_view() =~= t0.push(k@));
            }
            j = j + 1;
        }
        assert(kws.take(27) =~= kws);
        tags
    }

    /// The plain summary of a content (see [`simple_summary`]).
    pub fn generate_simple_summary(&self, content: &str) -> (r: String)
        ensures
            r@ == simple_summary(content@),
    {
        let trimmed = str_trim(content);
        let tc = to_chars(trimmed.as_str());
        if tc.len() <= 200 {
            trimmed
        } else {
            let mut head: Vec<char> = Vec::new();
            let mut i: usize = 0;
            while i < 197
                invariant
                    i <= 197,
                    tc@.len() > 200,
                    head@ == tc@.take(i as int),
                decreases 197 - i,
            {
                head.push(tc[i]);
                assert(tc@.take(i + 1) =~= tc@.take(i as int).push(tc@[i as int]));
                i = i + 1;
            }
            concat(from_chars(head.as_slice()).as_str(), "...")
        }
    }

    /// The summary of a content: the plain one (see
    /// [`KnowledgeExtractor::generate_simple_summary`]).
    pub fn generate_summary(&self, content: &str) -> (r: String)
        ensures
            r@ == simple_summary(content@),
    {
        self.generate_simple_summary(content)
    }

    /// The title of a text (see [`text_title`]).
    pub fn extract_title_from_text(&self, text: &str) -> (r: String)
        ensures
            r@ == text_title(text@),
    {
        let lines = split_lines(text);
        let first = if lines.len() > 0 {
            str_trim(lines[0].as_str())
        } else {
            str_trim("Untitled")
        };
        assert(lines.deep_view()[0] == lines@[0]@ || lines.len() == 0);
        if first.as_str().as_bytes().len() > 100 {
            let fc = to_chars(first.as_str());
            let head = cut_bytes(fc.as_slice(), 97);
            concat(from_chars(head.as_slice()).as_str(), "...")
        } else {
            first
        }
    }

    /// The text of the first comment line with text (see
    /// [`first_comment`]).
    fn first_comment_exec(&self, content: &str) -> (r: Option<String>)
        ensures
            match first_comment(lines_of(content@)) {
                Some(c) => r matches Some(x) && x@ == c,
                None => r is None,
            },
    {
        let lines = split_lines(content);
        let ghost ls = lines.deep_view();
        let slash = to_chars("//");
        let hash = to_chars("#");
        let mut i: usize = 0;
        assert(ls.skip(0) =~= ls);
        while i < lines.len()
            invariant
                ls == lines.deep_view(),
                ls == lines_of(content@),
                slash@ == "//"@,
                hash@ == "#"@,
                i <= ls.len(),
                first_comment(ls) == first_comment(ls.skip(i as int)),
            decreases ls.len() - i,
        {
            assert(ls.skip(i as int).drop_first() =~= ls.skip(i + 1));
            assert(ls.skip(i as int)[0] == lines@[i as int]@);
            let lc = to_chars(lines[i].as_str());
            let t = trim_chars(lc.as_slice());
            if starts_with_chars(t.as_slice(), slash.as_slice()) || starts_with_chars(t.as_slice(), hash.as_slice()) {
                let a = strip_all_exec(t.as_slice(), slash.as_slice());
                let b = strip_all_exec(a.as_slice(), hash.as_slice());
                let c = trim_chars(b.as_slice());
                if c.len() > 0 {
                    return Some(from_chars(c.as_slice()));
                }
            }
            i = i + 1;
        }
        None
    }

    /// The title of a piece of code given what the name pattern found in it
    /// (see [`code_title`]); `None` for the captures of a pattern that did
    /// not compile.
    pub fn title_from_captures(
        &self,
        content: &str,
        language: Option<&str>,
        caps: Option<Vec<Vec<Option<String>>>>,
    ) -> (r: Option<String>)
        ensures
            match caps {
                None => r is None,
                Some(c) => match code_title(
                    content@,
                    match language {
                        Some(l) => Some(l@),
                        None => None,
                    },
                    c.deep_view(),
                ) {
                    Some(t) => r matches Some(x) && x@ == t,
                    None => r is None,
                },
            },
    {
        match caps {
            None => None,
            Some(c) => {
                if c.len() > 0 {
                    assert(c.deep_view()[0] == c@[0].deep_view());
                    match crate::graph::graph_builder::first_capture(&c[0]) {
                        Some(n) => {
                            let lang = match language {
                                Some(l) => l,
                                None => "code",
                            };
                            let head = concat(lang, ": ");
                            Some(concat(head.as_str(), n.as_str()))
                        },
                        None => None,
                    }
                } else {
                    match self.first_comment_exec(content) {
                        Some(comment) => Some(comment),
                        None => Some(owned("Code snippet")),
                    }
                }
            },
        }
    }

    /// The title of a piece of code: the name pattern is run over it and
    /// [`KnowledgeExtractor::title_from_captures`] reads the result; when
    /// a title comes back it is the one [`code_title`] describes.
    pub fn extract_code_title(&self, content: &str, language: Option<&str>) -> (r: Option<String>)
        ensures
            match titled_code(
                content@,
                match language {
                    Some(l) => Some(l@),
                    None => None,
                },
            ) {
                Some(t) => r matches Some(x) && x@ == t,
                None => r is None,
            },
    {
        let caps = capture_groups("(?:def\\s+(\\w+)|(?:class|struct|interface)\\s+(\\w+))", content);
        self.title_from_captures(content, language, caps)
    }

    /// The items made of the code attachments of a message (see
    /// [`code_item`]), or nothing when it has none.
    pub fn extract_code_from_message(&self, message: &Message, session_id: &str) -> (r: Option<Vec<KnowledgeItem>>)
        ensures
            code_attachments(message.attachments@).len() == 0 <==> r is None,
            r matches Some(items) ==> items@.len() == code_attachments(message.attachments@).len()
                && forall|k: int|
                0 <= k < items@.len() ==> code_item(
                    #[trigger] items@[k],
                    code_attachments(message.attachments@)[k],
                    *message,
                    session_id@,
                ),
    {
        let ghost atts = message.attachments@;
        let ghost pred = |a: Attachment| a.type_field@ == "code"@;
        if message.attachments.len() == 0 {
            assert(code_attachments(atts) =~= Seq::<Attachment>::empty());
            return None;
        }
        let mut items: Vec<KnowledgeItem> = Vec::new();
        let mut i: usize = 0;
        while i < message.attachments.len()
            invariant
                atts == message.attachments@,
                pred == (|a: Attachment| a.type_field@ == "code"@),
                i <= atts.len(),
                items@.len() == atts.take(i as int).filter(pred).len(),
                forall|k: int|
                    0 <= k < items@.len() ==> code_item(#[trigger] items@[k], atts.take(i as int).filter(pred)[k], *message, session_id@),
            decreases atts.len() - i,
        {
            proof {
                assert(atts.take(i + 1) =~= atts.take(i as int).push(atts[i as int]));
                atts.take(i as int).lemma_filter_push(atts[i as int], pred);
            }
            let attachment = &message.attachments[i];
            if str_eq(attachment.type_field.as_str(), "code") {
                proof {
                    lemma_filter_prefix(atts, pred, i as int);
                    let k = atts.take(i as int).filter(pred).len() as int;
                    assert(atts.take(i + 1).filter(pred)[k] == atts[i as int]);
                    assert(code_attachments(atts)[k] == atts[i as int]);
                }
                let language: Option<&str> = match &attachment.language {
                    Some(l) => Some(l.as_str()),
                    None => None,
                };
                let title = match self.extract_code_title(attachment.content.as_str(), language) {
                    Some(t) => t,
                    None => owned("Code snippet"),
                };
                let summary = if self.config.use_ai_for_summary {
                    self.generate_summary(attachment.content.as_str())
                } else {
                    self.generate_simple_summary(attachment.content.as_str())
                };
                let item = KnowledgeItem {
                    id: new_id(),
                    source_session_id: owned(session_id),
                    item_type: owned("code"),
                    title,
                    summary,
                    content: attachment.content.clone(),
                    tags: self.extract_tags_from_content(attachment.content.as_str()),
                    project: None,
                    timestamp: message.timestamp,
                };
                let ghost i0 = items@;
                items.push(item);
                proof {
                    assert forall|k: int| 0 <= k < items@.len() implies code_item(#[trigger] items@[k], atts.take(i + 1).filter(pred)[k], *message, session_id@) by {
                        if k < i0.len() {
                            assert(items@[k] == i0[k]);
                        }
                    }
                }
            }
            i = i + 1;
        }
        assert(atts.take(atts.len() as int) =~= atts);
        if items.len() == 0 {
            None
        } else {
            Some(items)
        }
    }

    /// The item made of a message that discusses design (see
    /// [`discussed`]), as the only item; nothing otherwise.
    pub fn extract_design_from_message(&self, message: &Message, session_id: &str) -> (r: Option<Vec<KnowledgeItem>>)
        ensures
            r is Some <==> discussed(*message, design_keywords()),
            r matches Some(items) ==> items@.len() == 1 && message_item(items@[0], *message, session_id@, "design"@),
    {
        self.discussion_item(message, session_id, true)
    }

    /// The item made of a message that holds an insight (see
    /// [`discussed`]), as the only item; nothing otherwise.
    pub fn extract_insights_from_message(&self, message: &Message, session_id: &str) -> (r: Option<Vec<KnowledgeItem>>)
        ensures
            r is Some <==> discussed(*message, insight_keywords()),
            r matches Some(items) ==> items@.len() == 1 && message_item(items@[0], *message, session_id@, "insight"@),
    {
        self.discussion_item(message, session_id, false)
    }

    fn discussion_item(&self, message: &Message, session_id: &str, design: bool) -> (r: Option<Vec<KnowledgeItem>>)
        ensures
            r is Some <==> discussed(*message, if design { design_keywords() } else { insight_keywords() }),
            r matches Some(items) ==> items@.len() == 1 && message_item(
                items@[0],
                *message,
                session_id@,
                if design { "design"@ } else { "insight"@ },
            ),
    {
        let mentions = mentions_any_exec(message.content.as_str(), design);
        if !mentions || message.content.as_str().as_bytes().len() < 50 {
            return None;
        }
        let kind = if design { owned("design") } else { owned("insight") };
        let item = KnowledgeItem {
            id: new_id(),
            source_session_id: owned(session_id),
            item_type: kind,
            title: self.extract_title_from_text(message.content.as_str()),
            summary: self.generate_simple_summary(message.content.as_str()),
            content: message.content.clone(),
            tags: self.extract_tags_from_content(message.content.as_str()),
            project: None,
            timestamp: message.timestamp,
        };
        let mut items: Vec<KnowledgeItem> = Vec::new();
        items.push(item);
        Some(items)
    }

    /// The text of the messages of a session joined by spaces (see
    /// [`session_text`]).
    fn session_text_exec(&self, session: &SessionData) -> (r: String)
        ensures
            r@ == session_text(*session),
    {
        let ghost parts = session.messages@.map_values(|m: Message| m.content@);
        let mut text = String::new();
        let mut i: usize = 0;
        while i < session.messages.len()
            invariant
                parts == session.messages@.map_values(|m: Message| m.content@),
                i <= parts.len(),
                text@ == joined(parts.take(i as int), " "@),
            decreases parts.len() - i,
        {
            let ghost t = parts.take(i + 1);
            assert(t.drop_last() =~= parts.take(i as int));
            if i > 0 {
                text = concat(text.as_str(), " ");
            } else {
                assert(t =~= seq![parts[0]]);
                assert(text@ =~= Seq::<char>::empty());
            }
            text = concat(text.as_str(), session.messages[i].content.as_str());
            i = i + 1;
        }
        assert(parts.take(parts.len() as int) =~= parts);
        text
    }

    /// The project named in a session, given what the project pattern found
    /// in its text (see [`project_name`]): created when the session started,
    /// updated now; `None` for the captures of a pattern that did not
    /// compile.
    pub fn project_from_captures(&self, session: &SessionData, caps: Option<Vec<Vec<Option<String>>>>) -> (r: Option<ProjectNode>)
        ensures
            match caps {
                None => r is None,
                Some(c) => match project_name(c.deep_view()) {
                    Some(n) => r matches Some(p) && {
                        &&& p.id@.len() == 36
                        &&& p.name@ == n
                        &&& p.description@ == "From session "@ + session.id@
                        &&& p.technologies@.len() == 0
                        &&& p.tasks@.len() == 0
                        &&& p.knowledge_items@.len() == 0
                        &&& p.created_at == session.timestamp
                    },
                    None => r is None,
                },
            },
    {
        match caps {
            None => None,
            Some(c) => {
                if c.len() > 0 && c[0].len() > 0 {
                    assert(c.deep_view()[0] == c@[0].deep_view());
                    assert(c.deep_view()[0][0] == c@[0]@[0].deep_view());
                    match &c[0][0] {
                        Some(g) => {
                            return Some(ProjectNode {
                                id: new_id(),
                                name: str_trim(g.as_str()),
                                description: concat("From session ", session.id.as_str()),
                                technologies: Vec::new(),
                                tasks: Vec::new(),
                                knowledge_items: Vec::new(),
                                created_at: session.timestamp,
                                updated_at: now_timestamp(),
                            });
                        },
                        None => {},
                    }
                }
                None
            },
        }
    }

    /// The project a session names: the project pattern is run over the
    /// session's text and [`KnowledgeExtractor::project_from_captures`]
    /// reads the result; a project comes back exactly when the pattern
    /// compiles and [`project_name`] finds a name, and carries that name.
    pub fn identify_project(&self, session: &SessionData) -> (r: Option<ProjectNode>)
        ensures
            match (if regex_compiles(project_pattern()) {
                project_name(regex_captures(project_pattern(), session_text(*session)))
            } else {
                None
            }) {
                Some(n) => r matches Some(p) && p.name@ == n && p.created_at == session.timestamp
                    && p.description@ == "From session "@ + session.id@,
                None => r is None,
            },
    {
        let text = self.session_text_exec(session);
        let caps = capture_groups("(?:项目|project|Project|PROJECT)\\s*[:：]\\s*([^，。\\n]+)", text.as_str());
        self.project_from_captures(session, caps)
    }

    /// The items of one message, in the order of [`message_kinds`].
    fn message_items(&self, message: &Message, session_id: &str, items: &mut Vec<KnowledgeItem>)
        ensures
            final(items)@.len() == old(items)@.len() + message_kinds(self.config, *message).len(),
            final(items)@.take(old(items)@.len() as int) == old(items)@,
            forall|k: int|
                0 <= k < message_kinds(self.config, *message).len() ==> (#[trigger] final(items)@[old(items)@.len() + k]).item_type@
                    == message_kinds(self.config, *message)[k] && final(items)@[old(items)@.len() + k].source_session_id@ == session_id@,
    {
        let ghost i0 = items@;
        let ghost cfg = self.config;
        let ghost codes = if cfg.extract_code {
            Seq::new(code_attachments(message.attachments@).len(), |k: int| "code"@)
        } else {
            Seq::<Seq<char>>::empty()
        };
        if self.config.extract_code {
            if let Some(code_items) = self.extract_code_from_message(message, session_id) {
                let ghost cv = code_items@;
                let mut ci = code_items;
                let mut j: usize = 0;
                let mut rev: Vec<KnowledgeItem> = Vec::new();
                while ci.len() > 0
                    invariant
                        rev@.len() + ci@.len() == cv.len(),
                        ci@ == cv.take(ci@.len() as int),
                        forall|k: int| 0 <= k < rev@.len() ==> #[trigger] rev@[k] == cv[cv.len() - 1 - k],
                    decreases ci@.len(),
                {
                    let ghost r0 = rev@;
                    let x = ci.pop().unwrap();
                    rev.push(x);
                    proof {
                        assert(ci@ =~= cv.take(ci@.len() as int));
                        assert forall|k: int| 0 <= k < rev@.len() implies #[trigger] rev@[k] == cv[cv.len() - 1 - k] by {
                            if k < r0.len() {
                                assert(rev@[k] == r0[k]);
                            }
                        }
                    }
                }
                while rev.len() > 0
                    invariant
                        items@.len() + rev@.len() == i0.len() + cv.len(),
                        items@.take(i0.len() as int) == i0,
                        items@.len() >= i0.len(),
                        forall|k: int| 0 <= k < rev@.len() ==> #[trigger] rev@[k] == cv[cv.len() - 1 - k],
                        forall|k: int| i0.len() <= k < items@.len() ==> #[trigger] items@[k] == cv[k - i0.len()],
                    decreases rev@.len(),
                {
                    let ghost it0 = items@;
                    let x = rev.pop().unwrap();
                    items.push(x);
                    proof {
                        assert(items@.take(i0.len() as int) =~= i0) by {
                            assert(it0.take(i0.len() as int) == i0);
                        }
                        assert forall|k: int| i0.len() <= k < items@.len() implies #[trigger] items@[k] == cv[k - i0.len()] by {
                            if k < it0.len() {
                                assert(items@[k] == it0[k]);
                            }
                        }
                    }
                }
            }
        }
        let ghost after_code = items@;
        proof {
            assert(after_code.len() == i0.len() + codes.len());
            assert forall|k: int| 0 <= k < codes.len() implies (#[trigger] after_code[i0.len() + k]).item_type@ == codes[k]
                && after_code[i0.len() + k].source_session_id@ == session_id@ by {}
        }
        if self.config.extract_design {
            if let Some(design_items) = self.extract_design_from_message(message, session_id) {
                let mut d = design_items;
                let x = d.pop().unwrap();
                items.push(x);
            }
        }
        let ghost after_design = items@;
        if self.config.extract_insights {
            if let Some(insight_items) = self.extract_insights_from_message(message, session_id) {
                let mut d = insight_items;
                let x = d.pop().unwrap();
                items.push(x);
            }
        }
        proof {
            let kinds = message_kinds(cfg, *message);
            assert(items@.take(i0.len() as int) =~= i0) by {
                assert(after_code.take(i0.len() as int) == i0);
            }
            assert forall|k: int| 0 <= k < kinds.len() implies (#[trigger] items@[i0.len() + k]).item_type@ == kinds[k]
                && items@[i0.len() + k].source_session_id@ == session_id@ by {
                if k < codes.len() {
                    assert(items@[i0.len() + k] == after_code[i0.len() + k]);
                } else if k < after_design.len() - i0.len() {
                    assert(items@[i0.len() + k] == after_design[i0.len() + k]);
                }
            }
        }
    }

    /// The items of a session's messages and the project it names (see
    /// [`message_kinds`] for which items come, in which order), with how
    /// long the extraction took.
    pub fn extract_from_session(&self, session: &SessionData) -> (r: Result<ExtractResult, String>)
        ensures
            r matches Ok(res) && {
                &&& res.knowledge_items@.len() == messages_kinds(self.config(), session.messages@).len()
                &&& forall|k: int|
                    0 <= k < res.knowledge_items@.len() ==> (#[trigger] res.knowledge_items@[k]).item_type@
                        == messages_kinds(self.config(), session.messages@)[k]
                        && res.knowledge_items@[k].source_session_id@ == session.id@
                &&& res.project_updates@.len() <= 1
                &&& res.project_updates@.len() == 1 ==> project_name(
                    regex_captures(project_pattern(), session_text(*session)),
                ) == Some(res.project_updates@[0].name@)
            },
    {
        let start = clock_now();
        let ghost ms = session.messages@;
        let mut items: Vec<KnowledgeItem> = Vec::new();
        let mut i: usize = 0;
        assert(ms.take(0) =~= Seq::<Message>::empty());
        while i < session.messages.len()
            invariant
                ms == session.messages@,
                i <= ms.len(),
                items@.len() == messages_kinds(self.config, ms.take(i as int)).len(),
                forall|k: int|
                    0 <= k < items@.len() ==> (#[trigger] items@[k]).item_type@ == messages_kinds(self.config, ms.take(i as int))[k]
                        && items@[k].source_session_id@ == session.id@,
            decreases ms.len() - i,
        {
            let ghost i0 = items@;
            let ghost before = messages_kinds(self.config, ms.take(i as int));
            proof {
                assert(ms.take(i + 1).drop_last() =~= ms.take(i as int));
                assert(ms.take(i + 1).last() == ms[i as int]);
            }
            self.message_items(&session.messages[i], session.id.as_str(), &mut items);
            proof {
                let mk = message_kinds(self.config, ms[i as int]);
                let after = messages_kinds(self.config, ms.take(i + 1));
                assert(after == before + mk);
                assert forall|k: int| 0 <= k < items@.len() implies (#[trigger] items@[k]).item_type@ == after[k]
                    && items@[k].source_session_id@ == session.id@ by {
                    if k < i0.len() {
                        assert(items@[k] == items@.take(i0.len() as int)[k]);
                    } else {
                        assert(items@[i0.len() + (k - i0.len())].item_type@ == mk[k - i0.len()]);
                    }
                }
            }
            i = i + 1;
        }
        assert(ms.take(ms.len() as int) =~= ms);
        let mut projects: Vec<ProjectNode> = Vec::new();
        if let Some(project) = self.identify_project(session) {
            projects.push(project);
        }
        let extraction_time_ms = millis_since(&start);
        Ok(ExtractResult { knowledge_items: items, project_updates: projects, extraction_time_ms })
    }

    /// The items and projects of all sessions, in order (see
    /// [`KnowledgeExtractor::extract_from_session`]), with how long the
    /// extraction took.
    pub fn extract_from_sessions(&self, sessions: &[SessionData]) -> (r: Result<ExtractResult, String>)
        ensures
            r matches Ok(res) && {
                &&& res.knowledge_items@.len() == sessions_kinds(self.config(), sessions@).len()
                &&& forall|k: int|
                    0 <= k < res.knowledge_items@.len() ==> (#[trigger] res.knowledge_items@[k]).item_type@
                        == sessions_kinds(self.config(), sessions@)[k]
                &&& res.project_updates@.len() <= sessions@.len()
            },
    {
        let start = clock_now();
        let ghost ss = sessions@;
        let mut all_items: Vec<KnowledgeItem> = Vec::new();
        let mut all_projects: Vec<ProjectNode> = Vec::new();
        let mut i: usize = 0;
        assert(ss.take(0) =~= Seq::<SessionData>::empty());
        while i < sessions.len()
            invariant
                ss == sessions@,
                i <= ss.len(),
                all_items@.len() == sessions_kinds(self.config, ss.take(i as int)).len(),
                forall|k: int| 0 <= k < all_items@.len() ==> (#[trigger] all_items@[k]).item_type@ == sessions_kinds(self.config, ss.take(i as int))[k],
                all_projects@.len() <= i,
            decreases ss.len() - i,
        {
            proof {
                assert(ss.take(i + 1).drop_last() =~= ss.take(i as int));
                assert(ss.take(i + 1).last() == ss[i as int]);
            }
            match self.extract_from_session(&sessions[i]) {
                Ok(result) => {
                    let ghost a0 = all_items@;
                    let ghost rk = result.knowledge_items@;
                    let mut items = result.knowledge_items;
                    let mut rev: Vec<KnowledgeItem> = Vec::new();
                    while items.len() > 0
                        invariant
                            rev@.len() + items@.len() == rk.len(),
                            items@ == rk.take(items@.len() as int),
                            forall|k: int| 0 <= k < rev@.len() ==> #[trigger] rev@[k] == rk[rk.len() - 1 - k],
                        decreases items@.len(),
                    {
                        let ghost r0 = rev@;
                        let x = items.pop().unwrap();
                        rev.push(x);
                        proof {
                            assert(items@ =~= rk.take(items@.len() as int));
                            assert forall|k: int| 0 <= k < rev@.len() implies #[trigger] rev@[k] == rk[rk.len() - 1 - k] by {
                                if k < r0.len() {
                                    assert(rev@[k] == r0[k]);
                                }
                            }
                        }
                    }
                    while rev.len() > 0
                        invariant
                            all_items@.len() + rev@.len() == a0.len() + rk.len(),
                            all_items@.len() >= a0.len(),
                            forall|k: int| 0 <= k < a0.len() ==> #[trigger] all_items@[k] == a0[k],
                            forall|k: int| 0 <= k < rev@.len() ==> #[trigger] rev@[k] == rk[rk.len() - 1 - k],
                            forall|k: int| a0.len() <= k < all_items@.len() ==> #[trigger] all_items@[k] == rk[k - a0.len()],
                        decreases rev@.len(),
                    {
                        let ghost it0 = all_items@;
                        let x = rev.pop().unwrap();
                        all_items.push(x);
                        proof {
                            assert forall|k: int| 0 <= k < a0.len() implies #[trigger] all_items@[k] == a0[k] by {
                                assert(all_items@[k] == it0[k]);
                            }
                            assert forall|k: int| a0.len() <= k < all_items@.len() implies #[trigger] all_items@[k] == rk[k - a0.len()] by {
                                if k < it0.len() {
                                    assert(all_items@[k] == it0[k]);
                                }
                            }
                        }
                    }
                    proof {
                        let before = sessions_kinds(self.config, ss.take(i as int));
                        let mk = messages_kinds(self.config, ss[i as int].messages@);
                        assert(sessions_kinds(self.config, ss.take(i + 1)) == before + mk);
                        assert forall|k: int| 0 <= k < all_items@.len() implies (#[trigger] all_items@[k]).item_type@ == (before + mk)[k] by {
                            if k < a0.len() {
                                assert(all_items@[k] == a0[k]);
                            } else {
                                assert(all_items@[k] == rk[k - a0.len()]);
                            }
                        }
                    }
                    if result.project_updates.len() > 0 {
                        let mut p = result.project_updates;
                        let x = p.pop().unwrap();
                        all_projects.push(x);
                    }
                },
                Err(_) => {},
            }
            i = i + 1;
        }
        assert(ss.take(ss.len() as int) =~= ss);
        let extraction_time_ms = millis_since(&start);
        Ok(ExtractResult { knowledge_items: all_items, project_updates: all_projects, extraction_time_ms })
    }
}

impl Default for KnowledgeExtractor {
    fn default() -> (r: Self)
        ensures
            r.config() == default_extractor_config(),
    {
        Self::new(ExtractorConfig::default())
    }
}

} // verus!
