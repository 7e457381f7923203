//! Chat, tool and model records exchanged with the AI providers and the
//! frontend, with their mathematical forms.
use crate::json::{Json, JsonV};
use vstd::prelude::*;

verus! {

/// A tool invocation requested by the model.
#[derive(Debug)]
pub struct ToolCall {
    pub function: ToolCallFunction,
}

/// The function part of a tool call: its name and its JSON arguments.
#[derive(Debug)]
pub struct ToolCallFunction {
    pub name: String,
    pub arguments: Json,
}

/// The mathematical form of a `ToolCall`.
pub struct ToolCallV {
    pub name: Seq<char>,
    pub arguments: JsonV,
}

impl View for ToolCall {
    type V = ToolCallV;

    open spec fn view(&self) -> ToolCallV {
        ToolCallV { name: self.function.name@, arguments: self.function.arguments@ }
    }
}

/// The views of a sequence of tool calls.
pub open spec fn calls_view(v: Seq<ToolCall>) -> Seq<ToolCallV> {
    v.map_values(|c: ToolCall| c@)
}

/// The view of an optional list of tool calls.
pub open spec fn opt_calls_view(v: Option<Vec<ToolCall>>) -> Option<Seq<ToolCallV>> {
    match v {
        Some(cs) => Some(calls_view(cs@)),
        None => None,
    }
}

impl ToolCall {
    /// A copy of this tool call.
    pub fn duplicate(&self) -> (r: ToolCall)
        ensures
            r@ == self@,
    {
        ToolCall {
            function: ToolCallFunction {
                name: self.function.name.clone(),
                arguments: self.function.arguments.duplicate(),
            },
        }
    }
}

/// A copy of a list of tool calls.
pub fn duplicate_calls(calls: &Vec<ToolCall>) -> (r: Vec<ToolCall>)
    ensures
        calls_view(r@) == calls_view(calls@),
{
    let mut out: Vec<ToolCall> = Vec::new();
    let mut i: usize = 0;
    while i < calls.len()
        invariant
            i <= calls.len(),
            out.len() == i,
            forall|j: int| 0 <= j < i ==> #[trigger] out@[j]@ == calls@[j]@,
        decreases calls.len() - i,
    {
        let c = calls[i].duplicate();
        out.push(c);
        i = i + 1;
    }
    assert(calls_view(out@) =~= calls_view(calls@));
    out
}

/// A copy of an optional list of tool calls.
pub fn duplicate_opt_calls(calls: &Option<Vec<ToolCall>>) -> (r: Option<Vec<ToolCall>>)
    ensures
        opt_calls_view(r) == opt_calls_view(*calls),
{
    match calls {
        Some(cs) => Some(duplicate_calls(cs)),
        None => None,
    }
}

/// One message of a conversation.
#[derive(Debug)]
pub struct ChatMessage {
    pub role: String,
    pub content: String,
    pub tool_calls: Option<Vec<ToolCall>>,
}

/// The function a tool offers: name, description and JSON schema of its parameters.
#[derive(Debug)]
pub struct ToolFunction {
    pub name: String,
    pub description: String,
    pub parameters: Json,
}

/// A tool offered to the model.
#[derive(Debug)]
pub struct Tool {
    pub tool_type: String,
    pub function: ToolFunction,
}

/// A model that a provider can run.
#[derive(Debug)]
pub struct Model {
    pub name: String,
    pub modified_at: String,
    pub size: u64,
}

/// The mathematical form of a `Model`.
pub struct ModelV {
    pub name: Seq<char>,
    pub modified_at: Seq<char>,
    pub size: u64,
}

impl View for Model {
    type V = ModelV;

    open spec fn view(&self) -> ModelV {
        ModelV { name: self.name@, modified_at: self.modified_at@, size: self.size }
    }
}

/// The views of a sequence of models.
pub open spec fn models_view(v: Seq<Model>) -> Seq<ModelV> {
    v.map_values(|m: Model| m@)
}

/// A chunk of a streamed chat reply, as the frontend receives it.
#[derive(Debug)]
pub struct StreamChunk {
    pub model: String,
    pub message: ChatMessage,
    pub done: bool,
    pub tool_calls: Option<Vec<ToolCall>>,
}

/// A chat request for Ollama's `/api/chat`.
#[derive(Debug)]
pub struct ChatRequest {
    pub model: String,
    pub messages: Vec<ChatMessage>,
    pub stream: bool,
    pub tools: Option<Vec<Tool>>,
}

/// Ollama's list of models.
#[derive(Debug)]
pub struct ModelsResponse {
    pub models: Vec<Model>,
}

} // verus!
