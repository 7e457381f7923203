//! The provider-facing commands' logic: default addresses, the requests
//! built for Ollama and smolpc-engine, Ollama's line stream, the chunks the
//! frontend receives, and the error texts.
use crate::config::AiProvider;
use crate::decoder::{utf8_text, EngineStreamChunk};
use crate::framing::{split_lines, strings_view, LineBuffer};
use crate::models::{
    duplicate_opt_calls, models_view, opt_calls_view, ChatMessage, ChatRequest, Model, StreamChunk,
    Tool,
};
use crate::request::EngineGenerateRequest;
use crate::text::{blank, is_blank, trim, trim_str};
use vstd::prelude::*;
use vstd::utf8::{decode_utf8, valid_utf8};

verus! {

/// The models an Ollama server lists.
#[derive(Debug)]
pub struct ListModelsResponse {
    pub models: Vec<Model>,
}

/// The models a provider lists.
#[derive(Debug)]
pub struct ListAiModelsResponse {
    pub models: Vec<Model>,
}

/// A chat to stream from Ollama.
#[derive(Debug)]
pub struct ChatStreamRequest {
    pub model: String,
    pub messages: Vec<ChatMessage>,
    pub tools: Option<Vec<Tool>>,
}

/// A chat to stream from either provider. `temperature_bits` holds the
/// IEEE-754 bits of the `f32` sampling temperature.
#[derive(Debug)]
pub struct AiChatStreamRequest {
    pub provider: AiProvider,
    pub model: String,
    pub messages: Vec<ChatMessage>,
    pub tools: Option<Vec<Tool>>,
    pub ollama_url: Option<String>,
    pub smolpc_engine_url: Option<String>,
    pub temperature_bits: Option<u32>,
    pub max_tokens: Option<u32>,
}

/// The given address, or `default` when none is given.
pub fn url_or(url: Option<String>, default: &str) -> (r: String)
    ensures
        match url {
            Some(u) => r@ == u@,
            None => r@ == default@,
        },
{
    match url {
        Some(u) => u,
        None => default.to_string(),
    }
}

/// `format!("{}{}", base, path)`: an Ollama endpoint.
pub fn ollama_endpoint(base: &str, path: &str) -> (r: String)
    ensures
        r@ == base@ + path@,
{
    let mut r = base.to_string();
    r.append(path);
    r
}

/// The request with its `stream` flag set.
pub fn with_stream(request: ChatRequest, stream: bool) -> (r: ChatRequest)
    ensures
        r == (ChatRequest { stream, ..request }),
{
    ChatRequest { stream, ..request }
}

/// `chat_stream`'s request: the chat, streamed.
pub fn ollama_chat_request(request: ChatStreamRequest) -> (r: ChatRequest)
    ensures
        r.model == request.model,
        r.messages == request.messages,
        r.tools == request.tools,
        r.stream,
{
    ChatRequest { model: request.model, messages: request.messages, stream: true, tools: request.tools }
}

/// `start_ollama_stream`'s address and request.
pub fn ai_ollama_request(request: AiChatStreamRequest) -> (r: (String, ChatRequest))
    ensures
        match request.ollama_url {
            Some(u) => r.0@ == u@,
            None => r.0@ == "http://localhost:11434"@,
        },
        r.1.model == request.model,
        r.1.messages == request.messages,
        r.1.tools == request.tools,
        r.1.stream,
{
    let url = url_or(request.ollama_url, "http://localhost:11434");
    (
        url,
        ChatRequest {
            model: request.model,
            messages: request.messages,
            stream: true,
            tools: request.tools,
        },
    )
}

/// `start_smolpc_engine_stream`'s address and request.
pub fn ai_engine_request(request: AiChatStreamRequest) -> (r: (String, EngineGenerateRequest))
    ensures
        match request.smolpc_engine_url {
            Some(u) => r.0@ == u@,
            None => r.0@ == "http://127.0.0.1:19432"@,
        },
        r.1.model == request.model,
        r.1.messages == request.messages,
        r.1.tools == request.tools,
        r.1.temperature_bits == request.temperature_bits,
        r.1.max_tokens == request.max_tokens,
{
    let url = url_or(request.smolpc_engine_url, "http://127.0.0.1:19432");
    (
        url,
        EngineGenerateRequest {
            model: request.model,
            messages: request.messages,
            tools: request.tools,
            temperature_bits: request.temperature_bits,
            max_tokens: request.max_tokens,
        },
    )
}

/// An engine chunk as the frontend receives it: an assistant message with
/// the chunk's text and tool calls, tagged with the model.
pub fn stream_chunk_from_engine(model: &String, chunk: EngineStreamChunk) -> (r: StreamChunk)
    ensures
        r.model@ == model@,
        r.message.role@ == "assistant"@,
        r.message.content@ == chunk.content@,
        opt_calls_view(r.message.tool_calls) == opt_calls_view(chunk.tool_calls),
        r.done == chunk.done,
        opt_calls_view(r.tool_calls) == opt_calls_view(chunk.tool_calls),
{
    let copy = duplicate_opt_calls(&chunk.tool_calls);
    StreamChunk {
        model: model.clone(),
        message: ChatMessage {
            role: "assistant".to_string(),
            content: chunk.content,
            tool_calls: copy,
        },
        done: chunk.done,
        tool_calls: chunk.tool_calls,
    }
}

/// `list_ai_models`' error text.
pub fn list_models_error(provider: AiProvider, e: &str) -> (r: String)
    ensures
        provider == AiProvider::Ollama ==> r@ == "Failed to list Ollama models: "@ + e@,
        provider == AiProvider::SmolpcEngine ==> r@ == "Failed to list smolpc-engine models: "@
            + e@,
{
    let mut r = match provider {
        AiProvider::Ollama => "Failed to list Ollama models: ".to_string(),
        AiProvider::SmolpcEngine => "Failed to list smolpc-engine models: ".to_string(),
    };
    r.append(e);
    r
}

/// `list_ollama_models`' error text.
pub fn ollama_list_error(e: &str) -> (r: String)
    ensures
        r@ == "Failed to list models: "@ + e@,
{
    let mut r = "Failed to list models: ".to_string();
    r.append(e);
    r
}

/// `call_mcp_tool`'s error text.
pub fn tool_call_error(e: &str) -> (r: String)
    ensures
        r@ == "Tool call failed: "@ + e@,
{
    let mut r = "Tool call failed: ".to_string();
    r.append(e);
    r
}

/// `SmolpcEngineService::list_models`' verdict on the models read from the
/// reply: an error when there are none.
pub fn engine_models_result(models: Vec<Model>) -> (r: Result<Vec<Model>, String>)
    ensures
        models@.len() == 0 ==> (r matches Err(m) && m@
            == "smolpc-engine /models returned no usable model entries"@),
        models@.len() > 0 ==> r == Ok::<Vec<Model>, String>(models),
{
    if models.len() == 0 {
        Err("smolpc-engine /models returned no usable model entries".to_string())
    } else {
        Ok(models)
    }
}

/// The chunk payloads among the first `n` lines: each non-blank line,
/// trimmed.
pub open spec fn line_payloads(lines: Seq<Seq<char>>, n: int) -> Seq<Seq<char>>
    decreases n,
{
    if n <= 0 {
        Seq::empty()
    } else {
        let before = line_payloads(lines, n - 1);
        if is_blank(lines[n - 1]) {
            before
        } else {
            before.push(trim(lines[n - 1]))
        }
    }
}

/// The payloads of a prefix depend only on that prefix.
pub proof fn lemma_payloads_prefix(a: Seq<Seq<char>>, b: Seq<Seq<char>>, n: int)
    requires
        0 <= n <= a.len(),
    ensures
        line_payloads(a + b, n) == line_payloads(a, n),
    decreases n,
{
    if n > 0 {
        lemma_payloads_prefix(a, b, n - 1);
        assert((a + b)[n - 1] == a[n - 1]);
    }
}

/// The payloads of `a + b` are those of `a` followed by those of `b`.
pub proof fn lemma_payloads_concat(a: Seq<Seq<char>>, b: Seq<Seq<char>>, n: int)
    requires
        0 <= n <= b.len(),
    ensures
        line_payloads(a + b, a.len() + n) == line_payloads(a, a.len() as int) + line_payloads(
            b,
            n,
        ),
    decreases n,
{
    if n == 0 {
        lemma_payloads_prefix(a, b, a.len() as int);
        assert(line_payloads(a, a.len() as int) + Seq::<Seq<char>>::empty() =~= line_payloads(
            a,
            a.len() as int,
        ));
    } else {
        lemma_payloads_concat(a, b, n - 1);
        assert((a + b)[a.len() + n - 1] == b[n - 1]);
        let pa = line_payloads(a, a.len() as int);
        let pb = line_payloads(b, n - 1);
        if !is_blank(b[n - 1]) {
            assert(pa + pb.push(trim(b[n - 1])) =~= (pa + pb).push(trim(b[n - 1])));
        }
    }
}

/// What pushing `text` into a reader holding `buffer` yields: the payloads
/// handed out and the text left waiting.
pub open spec fn reader_push(buffer: Seq<char>, text: Seq<char>) -> (Seq<Seq<char>>, Seq<char>) {
    let (ls, rest) = split_lines(buffer + text);
    (line_payloads(ls, ls.len() as int), rest)
}

/// Law: how Ollama's reply is cut into pieces does not matter. Pushing `a`
/// and then `b` hands out the payloads that pushing `a + b` does, in the same
/// order, and leaves the same text waiting.
pub proof fn law_reader_push_concat(buffer: Seq<char>, a: Seq<char>, b: Seq<char>)
    ensures
        ({
            let (p1, r1) = reader_push(buffer, a);
            let (p2, r2) = reader_push(r1, b);
            reader_push(buffer, a + b) == (p1 + p2, r2)
        }),
{
    let x = buffer + a;
    assert(buffer + (a + b) =~= x + b);
    crate::framing::lemma_split_append(x, b);
    let (l1, r1) = split_lines(x);
    let (l2, r2) = split_lines(r1 + b);
    lemma_payloads_concat(l1, l2, l2.len() as int);
}

/// Ollama's streamed reply, cut into the JSON payloads of its lines.
#[derive(Debug)]
pub struct OllamaLineReader {
    lines: LineBuffer,
}

impl View for OllamaLineReader {
    type V = Seq<char>;

    closed spec fn view(&self) -> Seq<char> {
        self.lines@
    }
}

impl OllamaLineReader {
    /// A reader that has received nothing.
    pub fn new() -> (r: OllamaLineReader)
        ensures
            r@ == Seq::<char>::empty(),
    {
        OllamaLineReader { lines: LineBuffer::new() }
    }

    /// Text received: the payloads of the lines it completes.
    pub fn push_text(&mut self, text: &str) -> (r: Vec<String>)
        ensures
            (strings_view(r@), final(self)@) == reader_push(old(self)@, text@),
    {
        let lines = self.lines.push(text);
        let ghost ls = strings_view(lines@);
        let mut out: Vec<String> = Vec::new();
        let mut i: usize = 0;
        while i < lines.len()
            invariant
                i <= lines.len(),
                ls == strings_view(lines@),
                strings_view(out@) == line_payloads(ls, i as int),
            decreases lines.len() - i,
        {
            assert(ls[i as int] == lines@[i as int]@);
            if !blank(lines[i].as_str()) {
                out.push(trim_str(lines[i].as_str()));
            }
            i = i + 1;
            assert(strings_view(out@) =~= line_payloads(ls, i as int));
        }
        out
    }

    /// Bytes received: UTF-8 text is read, anything else is dropped.
    pub fn push_bytes(&mut self, bytes: &[u8]) -> (r: Vec<String>)
        ensures
            valid_utf8(bytes@) ==> (strings_view(r@), final(self)@) == reader_push(
                old(self)@,
                decode_utf8(bytes@),
            ),
            !valid_utf8(bytes@) ==> final(self)@ == old(self)@ && r@.len() == 0,
    {
        match utf8_text(bytes) {
            Some(text) => self.push_text(text.as_str()),
            None => Vec::new(),
        }
    }

    /// The end of the reply: the payload of the unfinished last line, if
    /// it is not blank.
    pub fn finish(&mut self) -> (r: Option<String>)
        ensures
            final(self)@ == Seq::<char>::empty(),
            is_blank(old(self)@) ==> r is None,
            !is_blank(old(self)@) ==> (r matches Some(p) && p@ == trim(old(self)@)),
    {
        let rest = self.lines.take_rest();
        if blank(rest.as_str()) {
            None
        } else {
            Some(trim_str(rest.as_str()))
        }
    }
}

} // verus!
