//! Building the context a question is answered from: documents and code
//! examples taken from search results, the entities a question names, and
//! the settings that bound the context.
use vstd::prelude::*;
use crate::json::{json_text_member, text_member};
use crate::runtime::{new_id, now_rfc3339, utc_rfc3339};
use crate::text::{owned, str_eq};
use super::query_parser::{capitalized, capitalized_words};

verus! {

broadcast use vstd::seq_lib::group_seq_properties;

/// A code example for the answer.
#[derive(Debug, Clone)]
pub struct CodeExample {
    pub id: String,
    pub description: String,
    pub code: String,
    pub language: String,
    pub usage: String,
}

/// How a context was bounded, and when it was built.
#[derive(Debug, Clone)]
pub struct ContextMetadata {
    pub max_context_length: usize,
    pub include_code: bool,
    pub include_explanations: bool,
    pub current_timestamp: String,
}

/// What the library reads of a document found by a search: everything but
/// its relevance score.
#[derive(Debug, Clone)]
pub struct DocumentText {
    pub id: String,
    pub title: String,
    pub content: String,
    pub file_path: Option<String>,
    pub language: Option<String>,
}

/// The document made of a search result: its `title` (`Untitled` when
/// missing), `content` (empty when missing), `filePath` and `language`.
pub open spec fn document_of(d: DocumentText, v: serde_json::Value) -> bool {
    &&& d.id@.len() == 36
    &&& d.title@ == match json_text_member(v, "title"@) {
        Some(t) => t,
        None => "Untitled"@,
    }
    &&& d.content@ == match json_text_member(v, "content"@) {
        Some(c) => c,
        None => ""@,
    }
    &&& crate::storage::opt_text(d.file_path) == json_text_member(v, "filePath"@)
    &&& crate::storage::opt_text(d.language) == json_text_member(v, "language"@)
}

/// A search result is code: its `type` member is the text `code`.
pub open spec fn is_code_result(v: serde_json::Value) -> bool {
    json_text_member(v, "type"@) == Some("code"@)
}

/// The example made of a code result: its `content` (empty when missing)
/// and `language` (`unknown` when missing).
pub open spec fn example_of(e: CodeExample, v: serde_json::Value) -> bool {
    &&& e.id@.len() == 36
    &&& e.description@ == "Example from search results"@
    &&& e.code@ == match json_text_member(v, "content"@) {
        Some(c) => c,
        None => ""@,
    }
    &&& e.language@ == match json_text_member(v, "language"@) {
        Some(l) => l,
        None => "unknown"@,
    }
    &&& e.usage@ == "Found in codebase"@
}

/// A context as the library builds it: the documents and code examples
/// taken from the search results, the names of the entities the question
/// mentions, and the bounds of the context. How relevant each document is
/// is a score that the caller reads from the result it was made of.
#[derive(Debug, Clone)]
pub struct ContextParts {
    pub documents: Vec<DocumentText>,
    pub code_examples: Vec<CodeExample>,
    pub entity_names: Vec<String>,
    pub metadata: ContextMetadata,
}

/// Builds contexts.
pub struct ContextBuilder {
    max_context_length: usize,
    include_code: bool,
    include_explanations: bool,
}

impl ContextBuilder {
    /// The longest context, in characters.
    pub closed spec fn max_length(self) -> usize {
        self.max_context_length
    }

    /// Whether code examples are included.
    pub closed spec fn includes_code(self) -> bool {
        self.include_code
    }

    /// Whether explanations are included.
    pub closed spec fn includes_explanations(self) -> bool {
        self.include_explanations
    }

    /// Contexts of up to 4000 characters, with code and explanations.
    pub fn new() -> (r: Self)
        ensures
            r.max_length() == 4000,
            r.includes_code(),
            r.includes_explanations(),
    {
        ContextBuilder { max_context_length: 4000, include_code: true, include_explanations: true }
    }

    /// The context of a question from its search results: one document
    /// for each result, an example for each code result, the entities the
    /// question names, and this builder's bounds stamped with the current
    /// time.
    pub fn build_context(&self, query: &str, search_results: &Vec<serde_json::Value>) -> (r: ContextParts)
        ensures
            r.documents@.len() == search_results@.len(),
            forall|k: int| 0 <= k < r.documents@.len() ==> document_of(#[trigger] r.documents@[k], search_results@[k]),
            r.code_examples@.len() == search_results@.filter(|v: serde_json::Value| is_code_result(v)).len(),
            forall|k: int|
                0 <= k < r.code_examples@.len() ==> example_of(
                    #[trigger] r.code_examples@[k],
                    search_results@.filter(|v: serde_json::Value| is_code_result(v))[k],
                ),
            r.entity_names.deep_view() == capitalized(query@, 3),
            r.metadata.max_context_length == self.max_length(),
            r.metadata.include_code == self.includes_code(),
            r.metadata.include_explanations == self.includes_explanations(),
            utc_rfc3339(r.metadata.current_timestamp@),
    {
        let documents = self.extract_documents(search_results);
        let code_examples = self.extract_code_examples(search_results);
        let entity_names = self.extract_entity_names(query);
        let metadata = self.metadata(now_rfc3339());
        ContextParts { documents, code_examples, entity_names, metadata }
    }

    /// One document for each search result, in order (see
    /// [`document_of`]).
    pub fn extract_documents(&self, results: &Vec<serde_json::Value>) -> (r: Vec<DocumentText>)
        ensures
            r@.len() == results@.len(),
            forall|k: int| 0 <= k < r@.len() ==> document_of(#[trigger] r@[k], results@[k]),
    {
        let mut docs: Vec<DocumentText> = Vec::new();
        let mut i: usize = 0;
        while i < results.len()
            invariant
                i <= results@.len(),
                docs@.len() == i,
                forall|k: int| 0 <= k < i ==> document_of(#[trigger] docs@[k], results@[k]),
            decreases results@.len() - i,
        {
            let result = &results[i];
            let title = match text_member(result, "title") {
                Some(t) => t,
                None => owned("Untitled"),
            };
            let content = match text_member(result, "content") {
                Some(c) => c,
                None => owned(""),
            };
            let file_path = text_member(result, "filePath");
            let language = text_member(result, "language");
            docs.push(DocumentText { id: new_id(), title, content, file_path, language });
            i = i + 1;
        }
        docs
    }

    /// The names of the entities a question mentions: its words of more
    /// than three bytes that start with an upper-case letter.
    pub fn extract_entity_names(&self, query: &str) -> (r: Vec<String>)
        ensures
            r.deep_view() == capitalized(query@, 3),
    {
        capitalized_words(query, 3)
    }

    /// The code examples among search results, in order (see
    /// [`example_of`]).
    pub fn extract_code_examples(&self, results: &Vec<serde_json::Value>) -> (r: Vec<CodeExample>)
        ensures
            r@.len() == results@.filter(|v: serde_json::Value| is_code_result(v)).len(),
            forall|k: int|
                0 <= k < r@.len() ==> example_of(
                    #[trigger] r@[k],
                    results@.filter(|v: serde_json::Value| is_code_result(v))[k],
                ),
    {
        let ghost rs = results@;
        let ghost pred = |v: serde_json::Value| is_code_result(v);
        let mut examples: Vec<CodeExample> = Vec::new();
        let mut i: usize = 0;
        while i < results.len()
            invariant
                rs == results@,
                pred == (|v: serde_json::Value| is_code_result(v)),
                i <= rs.len(),
                examples@.len() == rs.take(i as int).filter(pred).len(),
                forall|k: int| 0 <= k < examples@.len() ==> example_of(#[trigger] examples@[k], rs.take(i as int).filter(pred)[k]),
            decreases rs.len() - i,
        {
            proof {
                assert(rs.take(i + 1) =~= rs.take(i as int).push(rs[i as int]));
                rs.take(i as int).lemma_filter_push(rs[i as int], pred);
            }
            let result = &results[i];
            let content = match text_member(result, "content") {
                Some(c) => c,
                None => owned(""),
            };
            let language = match text_member(result, "language") {
                Some(l) => l,
                None => owned("unknown"),
            };
            let is_code = match text_member(result, "type") {
                Some(t) => str_eq(t.as_str(), "code"),
                None => false,
            };
            if is_code {
                let ghost e0 = examples@;
                examples.push(CodeExample {
                    id: new_id(),
                    description: owned("Example from search results"),
                    code: content,
                    language,
                    usage: owned("Found in codebase"),
                });
                proof {
                    assert forall|k: int| 0 <= k < examples@.len() implies example_of(#[trigger] examples@[k], rs.take(i + 1).filter(pred)[k]) by {
                        if k < e0.len() {
                            assert(examples@[k] == e0[k]);
                        }
                    }
                }
            }
            i = i + 1;
        }
        assert(rs.take(rs.len() as int) =~= rs);
        examples
    }

    /// The bounds of the contexts built, stamped with the given time.
    pub fn metadata(&self, current_timestamp: String) -> (r: ContextMetadata)
        ensures
            r.max_context_length == self.max_length(),
            r.include_code == self.includes_code(),
            r.include_explanations == self.includes_explanations(),
            r.current_timestamp == current_timestamp,
    {
        ContextMetadata {
            max_context_length: self.max_context_length,
            include_code: self.include_code,
            include_explanations: self.include_explanations,
            current_timestamp,
        }
    }

    /// Sets the longest context.
    pub fn set_max_context_length(&mut self, length: usize)
        ensures
            final(self).max_length() == length,
            final(self).includes_code() == old(self).includes_code(),
            final(self).includes_explanations() == old(self).includes_explanations(),
    {
        self.max_context_length = length;
    }

    /// Sets whether code examples are included.
    pub fn set_include_code(&mut self, enabled: bool)
        ensures
            final(self).includes_code() == enabled,
            final(self).max_length() == old(self).max_length(),
            final(self).includes_explanations() == old(self).includes_explanations(),
    {
        self.include_code = enabled;
    }

    /// Sets whether explanations are included.
    pub fn set_include_explanations(&mut self, enabled: bool)
        ensures
            final(self).includes_explanations() == enabled,
            final(self).max_length() == old(self).max_length(),
            final(self).includes_code() == old(self).includes_code(),
    {
        self.include_explanations = enabled;
    }
}

impl Default for ContextBuilder {
    fn default() -> (r: Self)
        ensures
            r.max_length() == 4000,
            r.includes_code(),
            r.includes_explanations(),
    {
        Self::new()
    }
}

} // verus!
