//! Generating answers: what the model is told, what an answer cites and
//! how large its context was.
use vstd::prelude::*;
use super::context_builder::{CodeExample, DocumentText};
use super::llm_integration::LLMMessage;
use super::query_parser::QueryIntent;
use crate::text::{concat, decimal, decimal_string, first_chars, owned, prefix_of};

verus! {

/// How an answer was made.
#[derive(Debug, Clone)]
pub struct AnswerMetadata {
    pub generation_time_ms: u64,
    pub context_size: usize,
    pub model_used: String,
    pub tokens_used: usize,
}

/// What the model is asked to do for each intent.
pub open spec fn intent_instruction(i: QueryIntent) -> Seq<char> {
    match i {
        QueryIntent::Search => "Provide relevant search results and explain what was found."@,
        QueryIntent::Explain => "Provide a clear explanation of the concept or code, using examples when helpful."@,
        QueryIntent::Compare => "Compare the items mentioned in the query, highlighting similarities and differences."@,
        QueryIntent::List => "Provide a comprehensive list of the requested items."@,
        QueryIntent::Summarize => "Provide a concise summary of the main points."@,
        QueryIntent::Analyze => "Provide a detailed analysis, breaking down the components and relationships."@,
        QueryIntent::Generate => "Generate the requested code or content based on the patterns found in the context."@,
        QueryIntent::Other(_) => "Provide a helpful and informative response based on the context."@,
    }
}

/// What the model is told first, whatever the question.
pub open spec fn base_prompt() -> Seq<char> {
    "You are a helpful AI assistant for a knowledge management system. Your task is to answer questions based on the provided context from code and documents."@
}

/// The system prompt for a question's intent: the base prompt, a space
/// and the instruction for the intent.
pub fn build_system_prompt(intent: &QueryIntent) -> (r: String)
    ensures
        r@ == base_prompt() + " "@ + intent_instruction(*intent),
{
    let instruction = match intent {
        QueryIntent::Search => "Provide relevant search results and explain what was found.",
        QueryIntent::Explain => "Provide a clear explanation of the concept or code, using examples when helpful.",
        QueryIntent::Compare => "Compare the items mentioned in the query, highlighting similarities and differences.",
        QueryIntent::List => "Provide a comprehensive list of the requested items.",
        QueryIntent::Summarize => "Provide a concise summary of the main points.",
        QueryIntent::Analyze => "Provide a detailed analysis, breaking down the components and relationships.",
        QueryIntent::Generate => "Generate the requested code or content based on the patterns found in the context.",
        QueryIntent::Other(_) => "Provide a helpful and informative response based on the context.",
    };
    let head = concat(
        "You are a helpful AI assistant for a knowledge management system. Your task is to answer questions based on the provided context from code and documents.",
        " ",
    );
    concat(head.as_str(), instruction)
}


/// The block of the prompt that shows document `i` (counted from zero).
pub open spec fn doc_block(i: nat, d: DocumentText) -> Seq<char> {
    "\n[Document "@ + decimal(i + 1) + "]\nTitle: "@ + d.title@ + "\nContent: "@ + prefix_of(d.content@, 500)
        + "\n\n"@
}

/// The blocks of the first `n` documents.
pub open spec fn doc_blocks(ds: Seq<DocumentText>, n: nat) -> Seq<char>
    decreases n,
{
    if n == 0 {
        Seq::empty()
    } else {
        doc_blocks(ds, (n - 1) as nat) + doc_block((n - 1) as nat, ds[n - 1])
    }
}

/// The block of the prompt that shows code example `i` (counted from
/// zero).
pub open spec fn example_block(i: nat, e: CodeExample) -> Seq<char> {
    "\n[Example "@ + decimal(i + 1) + "]\nLanguage: "@ + e.language@ + "\nCode:\n```\n"@ + prefix_of(e.code@, 300)
        + "\n```\n"@
}

/// The blocks of the first `n` code examples.
pub open spec fn example_blocks(es: Seq<CodeExample>, n: nat) -> Seq<char>
    decreases n,
{
    if n == 0 {
        Seq::empty()
    } else {
        example_blocks(es, (n - 1) as nat) + example_block((n - 1) as nat, es[n - 1])
    }
}

/// The smaller of two numbers.
pub open spec fn at_most(n: nat, bound: nat) -> nat {
    if n < bound {
        n
    } else {
        bound
    }
}

/// What the prompt asks for at its end.
pub open spec fn closing_request() -> Seq<char> {
    "\nPlease provide a helpful answer based on the context above. If the context doesn't contain enough information, acknowledge this and suggest what additional information might be needed."@
}

/// The user prompt: the question; the first five documents, each cut to
/// 500 characters, under `Context:` when there are any; the first three
/// code examples, each cut to 300 characters, under `Code Examples:` when
/// there are any and code is included; then the closing request.
pub open spec fn user_prompt(question: Seq<char>, ds: Seq<DocumentText>, es: Seq<CodeExample>, include_code: bool) -> Seq<char> {
    "Question: "@ + question + "\n\n"@ + (if ds.len() > 0 {
        "Context:\n"@ + doc_blocks(ds, at_most(ds.len(), 5))
    } else {
        Seq::empty()
    }) + (if es.len() > 0 && include_code {
        "\nCode Examples:\n"@ + example_blocks(es, at_most(es.len(), 3))
    } else {
        Seq::empty()
    }) + closing_request()
}

/// The user prompt for a question and its context (see [`user_prompt`]).
pub fn build_user_prompt(question: &str, documents: &[DocumentText], examples: &[CodeExample], include_code: bool) -> (r: String)
    ensures
        r@ == user_prompt(question@, documents@, examples@, include_code),
{
    let mut prompt = concat("Question: ", question);
    prompt = concat(prompt.as_str(), "\n\n");
    let ghost head = prompt@;
    if documents.len() > 0 {
        prompt = concat(prompt.as_str(), "Context:\n");
        let ghost base = prompt@;
        let mut i: usize = 0;
        while i < documents.len() && i < 5
            invariant
                i <= documents@.len(),
                i <= 5,
                prompt@ == base + doc_blocks(documents@, i as nat),
            decreases documents@.len() - i,
        {
            let doc = &documents[i];
            let mut block = concat("\n[Document ", decimal_string(i + 1).as_str());
            block = concat(block.as_str(), "]\nTitle: ");
            block = concat(block.as_str(), doc.title.as_str());
            block = concat(block.as_str(), "\nContent: ");
            block = concat(block.as_str(), first_chars(doc.content.as_str(), 500).as_str());
            block = concat(block.as_str(), "\n\n");
            proof {
                assert(block@ == doc_block(i as nat, documents@[i as int]));
                assert(base + doc_blocks(documents@, (i + 1) as nat) =~= base + doc_blocks(documents@, i as nat) + block@);
            }
            prompt = concat(prompt.as_str(), block.as_str());
            i = i + 1;
        }
        assert(i as nat == at_most(documents@.len(), 5));
    }
    let ghost mid = prompt@;
    if examples.len() > 0 && include_code {
        prompt = concat(prompt.as_str(), "\nCode Examples:\n");
        let ghost base = prompt@;
        let mut i: usize = 0;
        while i < examples.len() && i < 3
            invariant
                i <= examples@.len(),
                i <= 3,
                prompt@ == base + example_blocks(examples@, i as nat),
            decreases examples@.len() - i,
        {
            let ex = &examples[i];
            let mut block = concat("\n[Example ", decimal_string(i + 1).as_str());
            block = concat(block.as_str(), "]\nLanguage: ");
            block = concat(block.as_str(), ex.language.as_str());
            block = concat(block.as_str(), "\nCode:\n```\n");
            block = concat(block.as_str(), first_chars(ex.code.as_str(), 300).as_str());
            block = concat(block.as_str(), "\n```\n");
            proof {
                assert(block@ == example_block(i as nat, examples@[i as int]));
                assert(base + example_blocks(examples@, (i + 1) as nat) =~= base + example_blocks(examples@, i as nat) + block@);
            }
            prompt = concat(prompt.as_str(), block.as_str());
            i = i + 1;
        }
        assert(i as nat == at_most(examples@.len(), 3));
    }
    prompt = concat(
        prompt.as_str(),
        "\nPlease provide a helpful answer based on the context above. If the context doesn't contain enough information, acknowledge this and suggest what additional information might be needed.",
    );
    proof {
        assert(prompt@ =~= user_prompt(question@, documents@, examples@, include_code));
    }
    prompt
}

/// The conversation that asks for an answer: the system prompt for the
/// question's intent, then the user prompt.
pub fn answer_messages(
    intent: &QueryIntent,
    question: &str,
    documents: &[DocumentText],
    examples: &[CodeExample],
    include_code: bool,
) -> (r: Vec<LLMMessage>)
    ensures
        r@.len() == 2,
        r@[0].role@ == "system"@,
        r@[0].content@ == base_prompt() + " "@ + intent_instruction(*intent),
        r@[1].role@ == "user"@,
        r@[1].content@ == user_prompt(question@, documents@, examples@, include_code),
{
    let mut messages: Vec<LLMMessage> = Vec::new();
    messages.push(LLMMessage { role: owned("system"), content: build_system_prompt(intent) });
    messages.push(LLMMessage { role: owned("user"), content: build_user_prompt(question, documents, examples, include_code) });
    messages
}

/// What an answer cites of a document: its identifier, its title and its
/// first 200 characters.
#[derive(Debug, Clone)]
pub struct CitationText {
    pub document_id: String,
    pub title: String,
    pub snippet: String,
}

/// One citation for each document, in order.
pub fn extract_citations(documents: &[DocumentText]) -> (r: Vec<CitationText>)
    ensures
        r@.len() == documents@.len(),
        forall|k: int| 0 <= k < r@.len() ==> {
            &&& (#[trigger] r@[k]).document_id@ == documents@[k].id@
            &&& r@[k].title@ == documents@[k].title@
            &&& r@[k].snippet@ == prefix_of(documents@[k].content@, 200)
        },
{
    let mut r: Vec<CitationText> = Vec::new();
    let mut i: usize = 0;
    while i < documents.len()
        invariant
            i <= documents@.len(),
            r@.len() == i,
            forall|k: int| 0 <= k < i ==> {
                &&& (#[trigger] r@[k]).document_id@ == documents@[k].id@
                &&& r@[k].title@ == documents@[k].title@
                &&& r@[k].snippet@ == prefix_of(documents@[k].content@, 200)
            },
        decreases documents@.len() - i,
    {
        let d = &documents[i];
        r.push(CitationText {
            document_id: d.id.clone(),
            title: d.title.clone(),
            snippet: first_chars(d.content.as_str(), 200),
        });
        i = i + 1;
    }
    r
}

/// The bytes of the first `n` document contents.
pub open spec fn document_bytes(ds: Seq<DocumentText>, n: nat) -> nat
    decreases n,
{
    if n == 0 || n > ds.len() {
        0
    } else {
        document_bytes(ds, (n - 1) as nat) + crate::text::utf8_len(ds[n - 1].content@)
    }
}

/// The bytes of the first `n` example codes.
pub open spec fn example_bytes(es: Seq<CodeExample>, n: nat) -> nat
    decreases n,
{
    if n == 0 || n > es.len() {
        0
    } else {
        example_bytes(es, (n - 1) as nat) + crate::text::utf8_len(es[n - 1].code@)
    }
}

/// The size of a context: the bytes of every document content and every
/// example code.
pub fn context_size(documents: &[DocumentText], examples: &[CodeExample]) -> (r: usize)
    requires
        document_bytes(documents@, documents@.len()) + example_bytes(examples@, examples@.len()) <= usize::MAX,
    ensures
        r == document_bytes(documents@, documents@.len()) + example_bytes(examples@, examples@.len()),
{
    let ghost total = document_bytes(documents@, documents@.len()) + example_bytes(examples@, examples@.len());
    let mut size: usize = 0;
    let mut i: usize = 0;
    while i < documents.len()
        invariant
            i <= documents@.len(),
            size == document_bytes(documents@, i as nat),
            total == document_bytes(documents@, documents@.len()) + example_bytes(examples@, examples@.len()),
            total <= usize::MAX,
        decreases documents@.len() - i,
    {
        proof {
            lemma_document_bytes_grow(documents@, (i + 1) as nat, documents@.len());
        }
        size = size + documents[i].content.as_str().as_bytes().len();
        i = i + 1;
    }
    let mut j: usize = 0;
    while j < examples.len()
        invariant
            j <= examples@.len(),
            size == document_bytes(documents@, documents@.len()) + example_bytes(examples@, j as nat),
            total == document_bytes(documents@, documents@.len()) + example_bytes(examples@, examples@.len()),
            total <= usize::MAX,
        decreases examples@.len() - j,
    {
        proof {
            lemma_example_bytes_grow(examples@, (j + 1) as nat, examples@.len());
        }
        size = size + examples[j].code.as_str().as_bytes().len();
        j = j + 1;
    }
    size
}

proof fn lemma_document_bytes_grow(ds: Seq<DocumentText>, a: nat, b: nat)
    requires
        a <= b <= ds.len(),
    ensures
        document_bytes(ds, a) <= document_bytes(ds, b),
    decreases b - a,
{
    if a < b {
        lemma_document_bytes_grow(ds, a, (b - 1) as nat);
    }
}

proof fn lemma_example_bytes_grow(es: Seq<CodeExample>, a: nat, b: nat)
    requires
        a <= b <= es.len(),
    ensures
        example_bytes(es, a) <= example_bytes(es, b),
    decreases b - a,
{
    if a < b {
        lemma_example_bytes_grow(es, a, (b - 1) as nat);
    }
}

} // verus!
