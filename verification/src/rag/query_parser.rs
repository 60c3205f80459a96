//! Parsing questions: what is asked, about what, with which filters.
use vstd::prelude::*;
use crate::text::{
    alphanumeric, char_is_alphanumeric, contains_seq, from_chars, lowercase, owned, split_whitespace,
    split_words, str_contains, str_eq, to_chars, to_lowercase, utf8_len,
};
use crate::search::query_optimizer::utf8_len_exceeds;

verus! {

broadcast use vstd::seq_lib::group_seq_properties;

/// What a question asks for.
#[derive(Debug, Clone)]
pub enum QueryIntent {
    Search,
    Explain,
    Compare,
    List,
    Summarize,
    Analyze,
    Generate,
    Other(String),
}

/// How sure the parser is of a question, in tenths added to one half: a
/// bonus for the question's length and one for its intent (negative for an
/// unknown intent).
#[derive(Debug, Clone, Copy, PartialEq, Eq, Structural)]
pub struct Confidence {
    pub length_tenths: i8,
    pub intent_tenths: i8,
}

/// A parsed question.
#[derive(Debug, Clone)]
pub struct ParsedQuery {
    pub original: String,
    pub intent: QueryIntent,
    pub entities: Vec<String>,
    pub keywords: Vec<String>,
    pub filters: QueryFilters,
    pub confidence: Confidence,
}

/// Restrictions a question puts on results.
#[derive(Debug, Clone)]
pub struct QueryFilters {
    pub language: Option<String>,
    pub file_type: Option<String>,
    pub date_range: Option<(String, String)>,
    pub tags: Vec<String>,
    pub max_results: Option<usize>,
}

/// What the parser knows besides the question.
#[derive(Debug, Clone)]
pub struct QueryContext {
    pub previous_queries: Vec<ParsedQuery>,
    pub current_file: Option<String>,
    pub current_language: Option<String>,
    pub user_preferences: QueryPreferences,
}

/// What the user prefers.
#[derive(Debug, Clone)]
pub struct QueryPreferences {
    pub preferred_language: Option<String>,
    pub max_results: usize,
    pub include_code_examples: bool,
    pub include_explanations: bool,
}

/// The intent of a question, read in lower case: the first of search (0),
/// explain (1), compare (2), list (3), summarize (4), analyze (5) and
/// generate (6) whose words occur in it, else none of them (7).
pub open spec fn intent_code(lower: Seq<char>) -> int {
    if contains_seq(lower, "search"@) || contains_seq(lower, "find"@) || contains_seq(lower, "查找"@) {
        0
    } else if contains_seq(lower, "explain"@) || contains_seq(lower, "what is"@) || contains_seq(lower, "解释"@) {
        1
    } else if contains_seq(lower, "compare"@) || contains_seq(lower, "difference"@) || contains_seq(lower, "比较"@) {
        2
    } else if contains_seq(lower, "list"@) || contains_seq(lower, "show all"@) || contains_seq(lower, "列出"@) {
        3
    } else if contains_seq(lower, "summarize"@) || contains_seq(lower, "summary"@) || contains_seq(lower, "总结"@) {
        4
    } else if contains_seq(lower, "analyze"@) || contains_seq(lower, "analysis"@) || contains_seq(lower, "分析"@) {
        5
    } else if contains_seq(lower, "generate"@) || contains_seq(lower, "create"@) || contains_seq(lower, "生成"@) {
        6
    } else {
        7
    }
}

/// `i` is the intent of the lower-cased question (see [`intent_code`]);
/// an unknown intent carries the lower-cased question.
pub open spec fn is_intent(i: QueryIntent, lower: Seq<char>) -> bool {
    let c = intent_code(lower);
    if c == 0 {
        i is Search
    } else if c == 1 {
        i is Explain
    } else if c == 2 {
        i is Compare
    } else if c == 3 {
        i is List
    } else if c == 4 {
        i is Summarize
    } else if c == 5 {
        i is Analyze
    } else if c == 6 {
        i is Generate
    } else {
        i matches QueryIntent::Other(t) && t@ == lower
    }
}

/// What `char::is_uppercase` answers: whether `c` has the Unicode
/// `Uppercase` property.
pub uninterp spec fn uppercase_char(c: char) -> bool;

/// `char::is_uppercase`; its answer is named by [`uppercase_char`].
#[verifier::external_body]
fn char_is_uppercase(c: char) -> (r: bool)
    ensures
        r == uppercase_char(c),
{
    c.is_uppercase()
}

/// The entities of a question: its words of more than one byte that start
/// with an upper-case letter.
pub open spec fn query_entities(q: Seq<char>) -> Seq<Seq<char>> {
    split_whitespace(q).filter(|w: Seq<char>| utf8_len(w) > 1 && uppercase_char(w[0]))
}

/// The words of `q` longer than `min_bytes` bytes that start with an
/// upper-case letter, in order.
pub open spec fn capitalized(q: Seq<char>, min_bytes: nat) -> Seq<Seq<char>> {
    split_whitespace(q).filter(|w: Seq<char>| utf8_len(w) > min_bytes && uppercase_char(w[0]))
}

/// The words of `query` longer than `min_bytes` bytes that start with an
/// upper-case letter (see [`capitalized`]).
pub(crate) fn capitalized_words(query: &str, min_bytes: usize) -> (r: Vec<String>)
    requires
        min_bytes < usize::MAX - 4,
    ensures
        r.deep_view() == capitalized(query@, min_bytes as nat),
{
    let words = split_words(query);
    let ghost ws = words.deep_view();
    let ghost pred = |w: Seq<char>| utf8_len(w) > min_bytes as nat && uppercase_char(w[0]);
    let mut entities: Vec<String> = Vec::new();
    let mut i: usize = 0;
    while i < words.len()
        invariant
            ws == words.deep_view(),
            ws == split_whitespace(query@),
            min_bytes < usize::MAX - 4,
            pred == (|w: Seq<char>| utf8_len(w) > min_bytes as nat && uppercase_char(w[0])),
            i <= ws.len(),
            entities.deep_view() == ws.take(i as int).filter(pred),
        decreases ws.len() - i,
    {
        proof {
            assert(ws.take(i + 1) =~= ws.take(i as int).push(ws[i as int]));
            ws.take(i as int).lemma_filter_push(ws[i as int], pred);
        }
        let wc = to_chars(words[i].as_str());
        assert(wc@ == ws[i as int]);
        if utf8_len_exceeds(wc.as_slice(), min_bytes) && wc.len() > 0 && char_is_uppercase(wc[0]) {
            let ghost e0 = entities.deep_view();
            entities.push(words[i].clone());
            assert(entities.deep_view() =~= e0.push(ws[i as int]));
        } else {
            proof {
                if utf8_len(wc@) > min_bytes && wc@.len() == 0 {
                    assert(wc@ =~= Seq::<char>::empty());
                    crate::text::lemma_utf8_len_empty();
                }
            }
        }
        i = i + 1;
    }
    assert(ws.take(ws.len() as int) =~= ws);
    entities
}

/// Words left out of keywords.
pub open spec fn parser_stop_words() -> Seq<Seq<char>> {
    seq!["the"@, "a"@, "an"@, "is"@, "are"@, "was"@, "were"@, "be"@, "been"@, "have"@, "has"@, "had"@, "do"@, "does"@, "did"@, "will"@, "would"@, "could"@, "should"@, "may"@, "might"@, "must"@, "can"@, "to"@, "from"@, "in"@, "on"@, "at"@, "by"@, "for"@, "with"@, "about"@, "into"@, "的"@, "是"@, "在"@, "有"@, "和"@, "与"@, "对"@, "关于"@, "从"@, "到"@]
}

/// The keywords of a question: its words cut down to letters, digits and
/// underscores, without stop words (compared in lower case), of more than
/// two bytes.
pub open spec fn query_keywords_of(q: Seq<char>) -> Seq<Seq<char>> {
    split_whitespace(q).map_values(|w: Seq<char>| w.filter(|c: char| alphanumeric(c) || c == '_')).filter(
        |w: Seq<char>| !parser_stop_words().contains(lowercase(w)) && utf8_len(w) > 2,
    )
}

/// The languages a question may name, in the order they are looked for.
pub open spec fn filter_languages() -> Seq<Seq<char>> {
    seq!["rust"@, "python"@, "javascript"@, "typescript"@, "java"@, "go"@, "cpp"@]
}

/// The first language of the list, from `k` on, named in the lower-cased
/// question.
pub open spec fn language_from(lower: Seq<char>, k: int) -> Option<Seq<char>>
    decreases 7 - k,
{
    if k < 0 || k >= 7 {
        None
    } else if contains_seq(lower, filter_languages()[k]) {
        Some(filter_languages()[k])
    } else {
        language_from(lower, k + 1)
    }
}

/// The file type a lower-cased question names by extension.
pub open spec fn file_type_of(lower: Seq<char>) -> Option<Seq<char>> {
    if contains_seq(lower, ".rs"@) {
        Some("rust"@)
    } else if contains_seq(lower, ".py"@) {
        Some("python"@)
    } else if contains_seq(lower, ".js"@) || contains_seq(lower, ".ts"@) {
        Some("javascript"@)
    } else {
        None
    }
}

/// The confidence in a question of `words` words with the given intent:
/// two tenths for 3 to 10 words, one for more; two tenths for a search or
/// an explanation, minus one for an unknown intent.
pub open spec fn confidence_of(words: nat, intent: QueryIntent) -> Confidence {
    Confidence {
        length_tenths: if 3 <= words <= 10 {
            2
        } else if words > 10 {
            1
        } else {
            0
        },
        intent_tenths: match intent {
            QueryIntent::Search | QueryIntent::Explain => 2i8,
            QueryIntent::Other(_) => -1i8,
            _ => 0,
        },
    }
}

fn stop_word(j: usize) -> (r: &'static str)
    requires
        j < 43,
    ensures
        r@ == parser_stop_words()[j as int],
{
    match j {
        0 => "the",
        1 => "a",
        2 => "an",
        3 => "is",
        4 => "are",
        5 => "was",
        6 => "were",
        7 => "be",
        8 => "been",
        9 => "have",
        10 => "has",
        11 => "had",
        12 => "do",
        13 => "does",
        14 => "did",
        15 => "will",
        16 => "would",
        17 => "could",
        18 => "should",
        19 => "may",
        20 => "might",
        21 => "must",
        22 => "can",
        23 => "to",
        24 => "from",
        25 => "in",
        26 => "on",
        27 => "at",
        28 => "by",
        29 => "for",
        30 => "with",
        31 => "about",
        32 => "into",
        33 => "的",
        34 => "是",
        35 => "在",
        36 => "有",
        37 => "和",
        38 => "与",
        39 => "对",
        40 => "关于",
        41 => "从",
        _ => "到",
    }
}

fn filter_language(j: usize) -> (r: &'static str)
    requires
        j < 7,
    ensures
        r@ == filter_languages()[j as int],
{
    match j {
        0 => "rust",
        1 => "python",
        2 => "javascript",
        3 => "typescript",
        4 => "java",
        5 => "go",
        _ => "cpp",
    }
}

impl QueryIntent {
    /// A copy of this intent.
    pub fn copy(&self) -> (r: QueryIntent)
        ensures
            r == *self,
    {
        match self {
            QueryIntent::Search => QueryIntent::Search,
            QueryIntent::Explain => QueryIntent::Explain,
            QueryIntent::Compare => QueryIntent::Compare,
            QueryIntent::List => QueryIntent::List,
            QueryIntent::Summarize => QueryIntent::Summarize,
            QueryIntent::Analyze => QueryIntent::Analyze,
            QueryIntent::Generate => QueryIntent::Generate,
            QueryIntent::Other(t) => QueryIntent::Other(t.clone()),
        }
    }
}

/// The text a parsed question keeps, field by field.
pub open spec fn parsed_view(p: ParsedQuery) -> (Seq<char>, QueryIntent, Seq<Seq<char>>, Seq<Seq<char>>, Option<Seq<char>>, Option<Seq<char>>, Confidence) {
    (
        p.original@,
        p.intent,
        p.entities.deep_view(),
        p.keywords.deep_view(),
        crate::storage::opt_text(p.filters.language),
        crate::storage::opt_text(p.filters.file_type),
        p.confidence,
    )
}

impl ParsedQuery {
    /// A copy of this parsed question, without date range or tags in its
    /// filters when there are none to copy.
    pub fn copy(&self) -> (r: ParsedQuery)
        requires
            self.filters.date_range is None,
            self.filters.tags@.len() == 0,
        ensures
            parsed_view(r) == parsed_view(*self),
            r.filters.date_range is None,
            r.filters.tags@.len() == 0,
            r.filters.max_results == self.filters.max_results,
    {
        let e = crate::text::copy_string_vec(&self.entities);
        let k = crate::text::copy_string_vec(&self.keywords);
        assert(e.deep_view() =~= self.entities.deep_view());
        assert(k.deep_view() =~= self.keywords.deep_view());
        ParsedQuery {
            original: self.original.clone(),
            intent: self.intent.copy(),
            entities: e,
            keywords: k,
            filters: QueryFilters {
                language: crate::storage::copy_opt_string(&self.filters.language),
                file_type: crate::storage::copy_opt_string(&self.filters.file_type),
                date_range: None,
                tags: Vec::new(),
                max_results: self.filters.max_results,
            },
            confidence: self.confidence,
        }
    }
}

/// Parses questions and keeps the ones parsed.
pub struct QueryParser {
    context: QueryContext,
}

impl QueryParser {
    /// The questions parsed so far, in order.
    pub closed spec fn history(self) -> Seq<ParsedQuery> {
        self.context.previous_queries@
    }

    /// The context.
    pub closed spec fn context(self) -> QueryContext {
        self.context
    }

    /// A parser with no history, no current file or language, and default
    /// preferences: ten results, code examples and explanations included.
    pub fn new() -> (r: Self)
        ensures
            r.history().len() == 0,
            r.context().current_file is None,
            r.context().current_language is None,
            r.context().user_preferences.preferred_language is None,
            r.context().user_preferences.max_results == 10,
            r.context().user_preferences.include_code_examples,
            r.context().user_preferences.include_explanations,
    {
        QueryParser {
            context: QueryContext {
                previous_queries: Vec::new(),
                current_file: None,
                current_language: None,
                user_preferences: QueryPreferences {
                    preferred_language: None,
                    max_results: 10,
                    include_code_examples: true,
                    include_explanations: true,
                },
            },
        }
    }

    /// Parses a question and records it in the history: its intent (see
    /// [`is_intent`]), entities, keywords, filters and confidence.
    pub fn parse(&mut self, query: &str) -> (r: ParsedQuery)
        ensures
            r.original@ == query@,
            is_intent(r.intent, lowercase(query@)),
            r.entities.deep_view() == query_entities(query@),
            r.keywords.deep_view() == query_keywords_of(query@),
            crate::storage::opt_text(r.filters.language) == language_from(lowercase(query@), 0),
            crate::storage::opt_text(r.filters.file_type) == file_type_of(lowercase(query@)),
            r.filters.date_range is None,
            r.filters.tags@.len() == 0,
            r.filters.max_results is None,
            r.confidence == confidence_of(split_whitespace(query@).len(), r.intent),
            final(self).history().len() == old(self).history().len() + 1,
            final(self).history().drop_last() == old(self).history(),
            parsed_view(final(self).history().last()) == parsed_view(r),
    {
        let intent = self.detect_intent(query);
        let entities = self.extract_entities(query);
        let keywords = self.extract_keywords(query);
        let filters = self.extract_filters(query);
        let confidence = self.calculate_conf(query, &intent);
        let parsed = ParsedQuery { original: owned(query), intent, entities, keywords, filters, confidence };
        let ghost h0 = self.context.previous_queries@;
        self.context.previous_queries.push(parsed.copy());
        assert(self.context.previous_queries@.drop_last() =~= h0);
        parsed
    }

    /// The intent of a question (see [`is_intent`]).
    pub fn detect_intent(&self, query: &str) -> (r: QueryIntent)
        ensures
            is_intent(r, lowercase(query@)),
    {
        let lower = to_lowercase(query);
        let l = lower.as_str();
        if str_contains(l, "search") || str_contains(l, "find") || str_contains(l, "查找") {
            QueryIntent::Search
        } else if str_contains(l, "explain") || str_contains(l, "what is") || str_contains(l, "解释") {
            QueryIntent::Explain
        } else if str_contains(l, "compare") || str_contains(l, "difference") || str_contains(l, "比较") {
            QueryIntent::Compare
        } else if str_contains(l, "list") || str_contains(l, "show all") || str_contains(l, "列出") {
            QueryIntent::List
        } else if str_contains(l, "summarize") || str_contains(l, "summary") || str_contains(l, "总结") {
            QueryIntent::Summarize
        } else if str_contains(l, "analyze") || str_contains(l, "analysis") || str_contains(l, "分析") {
            QueryIntent::Analyze
        } else if str_contains(l, "generate") || str_contains(l, "create") || str_contains(l, "生成") {
            QueryIntent::Generate
        } else {
            QueryIntent::Other(lower)
        }
    }

    /// The entities of a question (see [`query_entities`]).
    pub fn extract_entities(&self, query: &str) -> (r: Vec<String>)
        ensures
            r.deep_view() == query_entities(query@),
    {
        let r = capitalized_words(query, 1);
        assert(r.deep_view() =~= query_entities(query@));
        r
    }

    /// Whether `w`, in lower case, is a stop word.
    fn is_stop_word(&self, w: &str) -> (r: bool)
        ensures
            r == parser_stop_words().contains(lowercase(w@)),
    {
        let lower = to_lowercase(w);
        let ghost sw = parser_stop_words();
        let mut j: usize = 0;
        while j < 43
            invariant
                sw == parser_stop_words(),
                sw.len() == 43,
                lower@ == lowercase(w@),
                j <= 43,
                forall|i: int| 0 <= i < j ==> sw[i] != lowercase(w@),
            decreases 43 - j,
        {
            if str_eq(lower.as_str(), stop_word(j)) {
                assert(sw[j as int] == lowercase(w@));
                return true;
            }
            j = j + 1;
        }
        false
    }

    /// The keywords of a question (see [`query_keywords_of`]).
    pub fn extract_keywords(&self, query: &str) -> (r: Vec<String>)
        ensures
            r.deep_view() == query_keywords_of(query@),
    {
        let words = split_words(query);
        let ghost ws = words.deep_view();
        let ghost keep = |c: char| alphanumeric(c) || c == '_';
        let ghost strip = |w: Seq<char>| w.filter(|c: char| alphanumeric(c) || c == '_');
        let ghost pred = |w: Seq<char>| !parser_stop_words().contains(lowercase(w)) && utf8_len(w) > 2;
        let mut keywords: Vec<String> = Vec::new();
        let mut i: usize = 0;
        while i < words.len()
            invariant
                ws == words.deep_view(),
                ws == split_whitespace(query@),
                keep == (|c: char| alphanumeric(c) || c == '_'),
                strip == (|w: Seq<char>| w.filter(|c: char| alphanumeric(c) || c == '_')),
                pred == (|w: Seq<char>| !parser_stop_words().contains(lowercase(w)) && utf8_len(w) > 2),
                i <= ws.len(),
                keywords.deep_view() == ws.take(i as int).map_values(strip).filter(pred),
            decreases ws.len() - i,
        {
            let wc = to_chars(words[i].as_str());
            let ghost w = ws[i as int];
            assert(wc@ == w);
            let mut kept: Vec<char> = Vec::new();
            let mut j: usize = 0;
            while j < wc.len()
                invariant
                    wc@ == w,
                    keep == (|c: char| alphanumeric(c) || c == '_'),
                    j <= w.len(),
                    kept@ == w.take(j as int).filter(keep),
                decreases w.len() - j,
            {
                proof {
                    assert(w.take(j + 1) =~= w.take(j as int).push(w[j as int]));
                    w.take(j as int).lemma_filter_push(w[j as int], keep);
                }
                let c = wc[j];
                if char_is_alphanumeric(c) || c == '_' {
                    kept.push(c);
                }
                j = j + 1;
            }
            proof {
                assert(w.take(w.len() as int) =~= w);
                assert(keep =~= (|c: char| alphanumeric(c) || c == '_'));
                assert(kept@ == strip(w));
                let m = ws.take(i as int).map_values(strip);
                assert(ws.take(i + 1).map_values(strip) =~= m.push(strip(w)));
                m.lemma_filter_push(strip(w), pred);
            }
            let word = from_chars(kept.as_slice());
            if !self.is_stop_word(word.as_str()) && utf8_len_exceeds(kept.as_slice(), 2) {
                let ghost k0 = keywords.deep_view();
                keywords.push(word);
                assert(keywords.deep_view() =~= k0.push(kept@));
            }
            i = i + 1;
        }
        assert(ws.take(ws.len() as int) =~= ws);
        keywords
    }

    /// The filters a question names: its language (see [`language_from`])
    /// and file type (see [`file_type_of`]).
    pub fn extract_filters(&self, query: &str) -> (r: QueryFilters)
        ensures
            crate::storage::opt_text(r.language) == language_from(lowercase(query@), 0),
            crate::storage::opt_text(r.file_type) == file_type_of(lowercase(query@)),
            r.date_range is None,
            r.tags@.len() == 0,
            r.max_results is None,
    {
        let lower = to_lowercase(query);
        let l = lower.as_str();
        let mut language: Option<String> = None;
        let mut k: usize = 0;
        while k < 7
            invariant
                lower@ == lowercase(query@),
                l@ == lowercase(query@),
                k <= 7,
                language is None ==> language_from(lowercase(query@), 0) == language_from(lowercase(query@), k as int),
                language is Some ==> crate::storage::opt_text(language) == language_from(lowercase(query@), 0),
            decreases 7 - k,
        {
            if language.is_none() {
                let lang = filter_language(k);
                if str_contains(l, lang) {
                    language = Some(owned(lang));
                }
            }
            k = k + 1;
        }
        let file_type = if str_contains(l, ".rs") {
            Some(owned("rust"))
        } else if str_contains(l, ".py") {
            Some(owned("python"))
        } else if str_contains(l, ".js") || str_contains(l, ".ts") {
            Some(owned("javascript"))
        } else {
            None
        };
        QueryFilters { language, file_type, date_range: None, tags: Vec::new(), max_results: None }
    }

    /// The confidence in a question (see [`confidence_of`]).
    pub fn calculate_conf(&self, query: &str, intent: &QueryIntent) -> (r: Confidence)
        ensures
            r == confidence_of(split_whitespace(query@).len(), *intent),
    {
        let word_count = split_words(query).len();
        let length_tenths: i8 = if word_count >= 3 && word_count <= 10 {
            2
        } else if word_count > 10 {
            1
        } else {
            0
        };
        let intent_tenths: i8 = match intent {
            QueryIntent::Search | QueryIntent::Explain => 2,
            QueryIntent::Other(_) => -1,
            _ => 0,
        };
        Confidence { length_tenths, intent_tenths }
    }

    /// Records the file and language being worked on.
    pub fn update_context(&mut self, file: Option<String>, language: Option<String>)
        ensures
            final(self).context().current_file == file,
            final(self).context().current_language == language,
            final(self).history() == old(self).history(),
    {
        self.context.current_file = file;
        self.context.current_language = language;
    }

    /// The context.
    pub fn get_context(&self) -> (r: &QueryContext)
        ensures
            *r == self.context(),
    {
        &self.context
    }

    /// Replaces the user's preferences.
    pub fn set_preferences(&mut self, preferences: QueryPreferences)
        ensures
            final(self).context().user_preferences == preferences,
            final(self).history() == old(self).history(),
    {
        self.context.user_preferences = preferences;
    }

    /// The questions parsed so far.
    pub fn get_history(&self) -> (r: &[ParsedQuery])
        ensures
            r@ == self.history(),
    {
        self.context.previous_queries.as_slice()
    }

    /// Forgets the questions parsed so far.
    pub fn clear_history(&mut self)
        ensures
            final(self).history().len() == 0,
    {
        self.context.previous_queries.clear();
    }
}

impl Default for QueryParser {
    fn default() -> (r: Self)
        ensures
            r.history().len() == 0,
    {
        Self::new()
    }
}

} // verus!
