//! The messages exchanged with language models: where a request goes,
//! how an Anthropic conversation is split, and how each provider's reply
//! is read.
use vstd::prelude::*;
use crate::json::{count_of, doc_count, doc_item, doc_member, doc_text, item, member, opt_doc, text_of, JsonDoc};
use crate::text::{concat, owned, str_eq};

verus! {

/// Who serves a language model.
#[derive(Debug, Clone)]
pub enum LLMProvider {
    OpenAI,
    Ollama,
    Anthropic,
    Other(String),
}

/// One message of a conversation with a model.
#[derive(Debug, Clone)]
pub struct LLMMessage {
    pub role: String,
    pub content: String,
}

/// What a model answered.
#[derive(Debug, Clone)]
pub struct LLMResponse {
    pub content: String,
    pub model: String,
    pub usage: UsageInfo,
    pub finish_reason: String,
}

/// Tokens spent on one answer.
#[derive(Debug, Clone, Copy, PartialEq, Eq, Structural)]
pub struct UsageInfo {
    pub prompt_tokens: usize,
    pub completion_tokens: usize,
    pub total_tokens: usize,
}


/// Where the chat endpoint of a provider lies below `api_endpoint`; no
/// endpoint for another provider.
pub open spec fn chat_url(provider: LLMProvider, api_endpoint: Seq<char>) -> Option<Seq<char>> {
    match provider {
        LLMProvider::OpenAI => Some(api_endpoint + "/chat/completions"@),
        LLMProvider::Ollama => Some(api_endpoint + "/api/chat"@),
        LLMProvider::Anthropic => Some(api_endpoint + "/v1/messages"@),
        LLMProvider::Other(_) => None,
    }
}

/// The address a request to `provider` is sent to (see [`chat_url`]);
/// another provider is refused.
pub fn request_url(provider: &LLMProvider, api_endpoint: &str) -> (r: Result<String, String>)
    ensures
        match chat_url(*provider, api_endpoint@) {
            Some(u) => r matches Ok(s) && s@ == u,
            None => r matches Err(e) && e@ == "Unsupported LLM provider"@,
        },
{
    match provider {
        LLMProvider::OpenAI => Ok(concat(api_endpoint, "/chat/completions")),
        LLMProvider::Ollama => Ok(concat(api_endpoint, "/api/chat")),
        LLMProvider::Anthropic => Ok(concat(api_endpoint, "/v1/messages")),
        LLMProvider::Other(_) => Err(owned("Unsupported LLM provider")),
    }
}

/// The message is a system message.
pub open spec fn is_system(m: LLMMessage) -> bool {
    m.role@ == "system"@
}

/// The content of the first system message, if any.
pub open spec fn first_system(ms: Seq<LLMMessage>) -> Option<Seq<char>>
    decreases ms.len(),
{
    if ms.len() == 0 {
        None
    } else if is_system(ms[0]) {
        Some(ms[0].content@)
    } else {
        first_system(ms.drop_first())
    }
}

/// A conversation as Anthropic takes it: the content of the first system
/// message, apart, and every other message in order.
pub fn split_system(messages: &Vec<LLMMessage>) -> (r: (Option<String>, Vec<LLMMessage>))
    ensures
        match r.0 {
            Some(t) => first_system(messages@) == Some(t@),
            None => first_system(messages@) is None,
        },
        r.1@.len() == messages@.filter(|m: LLMMessage| !is_system(m)).len(),
        forall|k: int| 0 <= k < r.1@.len() ==> (#[trigger] r.1@[k]).role@ == messages@.filter(|m: LLMMessage| !is_system(m))[k].role@
            && r.1@[k].content@ == messages@.filter(|m: LLMMessage| !is_system(m))[k].content@,
{
    let ghost ms = messages@;
    let ghost keep = |m: LLMMessage| !is_system(m);
    let mut system: Option<String> = None;
    let mut rest: Vec<LLMMessage> = Vec::new();
    let mut i: usize = 0;
    assert(ms.skip(0) =~= ms);
    assert(ms.take(0).filter(keep) =~= Seq::<LLMMessage>::empty());
    while i < messages.len()
        invariant
            ms == messages@,
            keep == (|m: LLMMessage| !is_system(m)),
            i <= ms.len(),
            match system {
                Some(t) => first_system(ms) == Some(t@),
                None => first_system(ms) == first_system(ms.skip(i as int)),
            },
            rest@.len() == ms.take(i as int).filter(keep).len(),
            forall|k: int| 0 <= k < rest@.len() ==> (#[trigger] rest@[k]).role@ == ms.take(i as int).filter(keep)[k].role@
                && rest@[k].content@ == ms.take(i as int).filter(keep)[k].content@,
        decreases ms.len() - i,
    {
        let m = &messages[i];
        proof {
            assert(ms.take(i + 1).drop_last() =~= ms.take(i as int));
            assert(ms.take(i + 1).last() == ms[i as int]);
            ms.take(i as int).lemma_filter_push(ms[i as int], keep);
            assert(ms.take(i + 1) =~= ms.take(i as int).push(ms[i as int]));
            assert(ms.skip(i as int).drop_first() =~= ms.skip(i + 1));
            assert(ms.skip(i as int)[0] == ms[i as int]);
        }
        if str_eq(m.role.as_str(), "system") {
            if system.is_none() {
                system = Some(m.content.clone());
            }
        } else {
            rest.push(LLMMessage { role: m.role.clone(), content: m.content.clone() });
        }
        i = i + 1;
    }
    proof {
        assert(ms.take(ms.len() as int) =~= ms);
        assert(ms.skip(ms.len() as int).len() == 0);
    }
    (system, rest)
}

/// A count read from a reply, or zero.
pub open spec fn count_or_zero(n: Option<u64>) -> usize {
    match n {
        Some(v) => v as usize,
        None => 0,
    }
}

/// A text read from a reply, or `default`.
pub open spec fn text_or(t: Option<Seq<char>>, default: Seq<char>) -> Seq<char> {
    match t {
        Some(v) => v,
        None => default,
    }
}

fn count_or_zero_exec(n: Option<u64>) -> (r: usize)
    ensures
        r == count_or_zero(n),
{
    match n {
        Some(v) => v as usize,
        None => 0,
    }
}

fn text_or_exec(t: Option<String>, default: &str) -> (r: String)
    ensures
        r@ == text_or(
            match t {
                Some(v) => Some(v@),
                None => None,
            },
            default@,
        ),
{
    match t {
        Some(v) => v,
        None => owned(default),
    }
}

/// The first choice of an OpenAI reply.
pub open spec fn openai_choice(reply: JsonDoc) -> Option<JsonDoc> {
    doc_item(doc_member(Some(reply), "choices"@), 0)
}

/// The answer of an OpenAI reply: `choices[0].message.content`.
pub open spec fn openai_content(reply: JsonDoc) -> Option<Seq<char>> {
    doc_text(doc_member(doc_member(openai_choice(reply), "message"@), "content"@))
}

/// The tokens an OpenAI reply reports under `usage`, zero where missing.
pub open spec fn openai_usage(reply: JsonDoc) -> UsageInfo {
    let u = doc_member(Some(reply), "usage"@);
    UsageInfo {
        prompt_tokens: count_or_zero(doc_count(doc_member(u, "prompt_tokens"@))),
        completion_tokens: count_or_zero(doc_count(doc_member(u, "completion_tokens"@))),
        total_tokens: count_or_zero(doc_count(doc_member(u, "total_tokens"@))),
    }
}

/// Why an OpenAI reply ended: `choices[0].finish_reason`, or `unknown`.
pub open spec fn openai_finish(reply: JsonDoc) -> Seq<char> {
    text_or(doc_text(doc_member(openai_choice(reply), "finish_reason"@)), "unknown"@)
}

/// Reads an OpenAI reply for `model` (see [`openai_content`],
/// [`openai_usage`] and [`openai_finish`]); a reply without an answer is
/// an error.
pub fn read_openai_reply(reply: &JsonDoc, model: &str) -> (r: Result<LLMResponse, String>)
    ensures
        match openai_content(*reply) {
            Some(c) => r matches Ok(resp) && resp.content@ == c && resp.model@ == model@
                && resp.usage == openai_usage(*reply) && resp.finish_reason@ == openai_finish(*reply),
            None => r matches Err(e) && e@ == "No content in response"@,
        },
{
    let choice = item(member(Some(reply), "choices"), 0);
    let content = match text_of(member(member(choice, "message"), "content")) {
        Some(c) => c,
        None => {
            return Err(owned("No content in response"));
        },
    };
    let usage = member(Some(reply), "usage");
    let prompt_tokens = count_or_zero_exec(count_of(member(usage, "prompt_tokens")));
    let completion_tokens = count_or_zero_exec(count_of(member(usage, "completion_tokens")));
    let total_tokens = count_or_zero_exec(count_of(member(usage, "total_tokens")));
    let finish_reason = text_or_exec(text_of(member(choice, "finish_reason")), "unknown");
    Ok(LLMResponse {
        content,
        model: owned(model),
        usage: UsageInfo { prompt_tokens, completion_tokens, total_tokens },
        finish_reason,
    })
}

/// The answer of an Ollama reply: `message.content`.
pub open spec fn ollama_content(reply: JsonDoc) -> Option<Seq<char>> {
    doc_text(doc_member(doc_member(Some(reply), "message"@), "content"@))
}

/// Reads an Ollama reply for `model`: its answer (see
/// [`ollama_content`]), no token counts, finished with `stop`; a reply
/// without an answer is an error.
pub fn read_ollama_reply(reply: &JsonDoc, model: &str) -> (r: Result<LLMResponse, String>)
    ensures
        match ollama_content(*reply) {
            Some(c) => r matches Ok(resp) && resp.content@ == c && resp.model@ == model@
                && resp.usage == (UsageInfo { prompt_tokens: 0, completion_tokens: 0, total_tokens: 0 })
                && resp.finish_reason@ == "stop"@,
            None => r matches Err(e) && e@ == "No content in response"@,
        },
{
    let content = match text_of(member(member(Some(reply), "message"), "content")) {
        Some(c) => c,
        None => {
            return Err(owned("No content in response"));
        },
    };
    Ok(LLMResponse {
        content,
        model: owned(model),
        usage: UsageInfo { prompt_tokens: 0, completion_tokens: 0, total_tokens: 0 },
        finish_reason: owned("stop"),
    })
}

/// The answer of an Anthropic reply: `content[0].text`.
pub open spec fn anthropic_content(reply: JsonDoc) -> Option<Seq<char>> {
    doc_text(doc_member(doc_item(doc_member(Some(reply), "content"@), 0), "text"@))
}

/// `a + b` as a `usize` that wraps past the largest value.
pub open spec fn wrapping_sum(a: usize, b: usize) -> usize {
    if a + b <= usize::MAX {
        (a + b) as usize
    } else {
        (a + b - usize::MAX - 1) as usize
    }
}

/// The tokens an Anthropic reply reports under `usage`: input and output
/// tokens, zero where missing, and their sum.
pub open spec fn anthropic_usage(reply: JsonDoc) -> UsageInfo {
    let u = doc_member(Some(reply), "usage"@);
    let i = count_or_zero(doc_count(doc_member(u, "input_tokens"@)));
    let o = count_or_zero(doc_count(doc_member(u, "output_tokens"@)));
    UsageInfo { prompt_tokens: i, completion_tokens: o, total_tokens: wrapping_sum(i, o) }
}

/// Why an Anthropic reply ended: `stop_reason`, or `unknown`.
pub open spec fn anthropic_finish(reply: JsonDoc) -> Seq<char> {
    text_or(doc_text(doc_member(Some(reply), "stop_reason"@)), "unknown"@)
}

/// Reads an Anthropic reply for `model` (see [`anthropic_content`],
/// [`anthropic_usage`] and [`anthropic_finish`]); a reply without an
/// answer is an error.
pub fn read_anthropic_reply(reply: &JsonDoc, model: &str) -> (r: Result<LLMResponse, String>)
    ensures
        match anthropic_content(*reply) {
            Some(c) => r matches Ok(resp) && resp.content@ == c && resp.model@ == model@
                && resp.usage == anthropic_usage(*reply) && resp.finish_reason@ == anthropic_finish(*reply),
            None => r matches Err(e) && e@ == "No content in response"@,
        },
{
    let first = item(member(Some(reply), "content"), 0);
    let content = match text_of(member(first, "text")) {
        Some(c) => c,
        None => {
            return Err(owned("No content in response"));
        },
    };
    let usage = member(Some(reply), "usage");
    let input = count_or_zero_exec(count_of(member(usage, "input_tokens")));
    let output = count_or_zero_exec(count_of(member(usage, "output_tokens")));
    let total = if input <= usize::MAX - output {
        input + output
    } else {
        input - (usize::MAX - output) - 1
    };
    let finish_reason = text_or_exec(text_of(member(Some(reply), "stop_reason")), "unknown");
    Ok(LLMResponse {
        content,
        model: owned(model),
        usage: UsageInfo { prompt_tokens: input, completion_tokens: output, total_tokens: total },
        finish_reason,
    })
}

} // verus!
