//! Building what is sent to smolpc-engine: the flattened prompt, the tool
//! list in the engine's form, the generate payload and endpoint addresses.
use crate::json::Json;
use crate::models::{ChatMessage, Tool};
use crate::text::{blank, is_blank, same_text, trim_end_slashes, trim_trailing_slashes};
use vstd::prelude::*;

verus! {

/// A request to generate a reply. `temperature_bits` holds the IEEE-754
/// bits of the `f32` sampling temperature.
#[derive(Debug)]
pub struct EngineGenerateRequest {
    pub model: String,
    pub messages: Vec<ChatMessage>,
    pub tools: Option<Vec<Tool>>,
    pub temperature_bits: Option<u32>,
    pub max_tokens: Option<u32>,
}

/// A message as the engine receives it.
#[derive(Debug)]
pub struct EngineMessage {
    pub role: String,
    pub content: String,
}

/// A tool's function as the engine receives it.
#[derive(Debug)]
pub struct EngineToolFunction {
    pub name: String,
    pub description: String,
    pub parameters: Json,
}

/// A tool as the engine receives it.
#[derive(Debug)]
pub struct EngineTool {
    pub tool_type: String,
    pub function: EngineToolFunction,
}

/// Sampling parameters (temperature as `f32` bits).
#[derive(Debug)]
pub struct EngineGenerationParams {
    pub temperature_bits: Option<u32>,
    pub max_tokens: Option<u32>,
}

/// The body of a generate request.
#[derive(Debug)]
pub struct EngineGeneratePayload {
    pub model: String,
    pub prompt: String,
    pub messages: Vec<EngineMessage>,
    pub tools: Option<Vec<EngineTool>>,
    pub tool_choice: Option<String>,
    pub params: EngineGenerationParams,
}

/// Whether a message carries a tool's result (role `tool`), which the engine
/// does not accept as a role.
pub open spec fn is_tool_message(m: ChatMessage) -> bool {
    m.role@ == "tool"@
}

/// The role a message is sent to the engine with: `user` for a tool's
/// result, the message's own role otherwise.
pub open spec fn engine_role(m: ChatMessage) -> Seq<char> {
    if is_tool_message(m) {
        "user"@
    } else {
        m.role@
    }
}

/// The content a message is sent to the engine with: a tool's result is
/// prefixed with `Tool result:` and a newline; other content is sent as is.
pub open spec fn engine_content(m: ChatMessage) -> Seq<char> {
    if is_tool_message(m) {
        "Tool result:\n"@ + m.content@
    } else {
        m.content@
    }
}

/// A message in the form the engine accepts: a tool's result goes as a
/// `user` message whose content starts with `Tool result:` and a newline;
/// any other message keeps its role and content.
pub fn to_engine_message(m: &ChatMessage) -> (r: EngineMessage)
    ensures
        r.role@ == engine_role(*m),
        r.content@ == engine_content(*m),
{
    if same_text(m.role.as_str(), "tool") {
        let mut content = "Tool result:\n".to_string();
        content.append(m.content.as_str());
        EngineMessage { role: "user".to_string(), content }
    } else {
        EngineMessage { role: m.role.clone(), content: m.content.clone() }
    }
}

/// The prompt line of a message: `role: content`, or nothing when the
/// content is blank.
pub open spec fn prompt_line(m: ChatMessage) -> Option<Seq<char>> {
    if is_blank(m.content@) {
        None
    } else {
        Some(m.role@ + ": "@ + m.content@)
    }
}

/// The prompt lines of the first `n` messages, in order.
pub open spec fn prompt_lines(ms: Seq<ChatMessage>, n: int) -> Seq<Seq<char>>
    decreases n,
{
    if n <= 0 {
        Seq::empty()
    } else {
        let before = prompt_lines(ms, n - 1);
        match prompt_line(ms[n - 1]) {
            Some(l) => before.push(l),
            None => before,
        }
    }
}

/// Lines joined by `"\n"`.
pub open spec fn join_lines(ls: Seq<Seq<char>>) -> Seq<char>
    decreases ls.len(),
{
    if ls.len() == 0 {
        Seq::empty()
    } else if ls.len() == 1 {
        ls[0]
    } else {
        join_lines(ls.drop_last()) + "\n"@ + ls.last()
    }
}

/// `flatten_prompt`: the prompt lines of the messages, one per line.
pub open spec fn prompt_of(ms: Seq<ChatMessage>) -> Seq<char> {
    join_lines(prompt_lines(ms, ms.len() as int))
}

/// `flatten_prompt`.
pub fn flatten_prompt(messages: &[ChatMessage]) -> (r: String)
    ensures
        r@ == prompt_of(messages@),
{
    let mut out = String::new();
    let mut any = false;
    let mut i: usize = 0;
    while i < messages.len()
        invariant
            i <= messages.len(),
            any == (prompt_lines(messages@, i as int).len() > 0),
            out@ == join_lines(prompt_lines(messages@, i as int)),
        decreases messages.len() - i,
    {
        let m = &messages[i];
        if !blank(m.content.as_str()) {
            let ghost ls = prompt_lines(messages@, i as int);
            if any {
                out.append("\n");
            }
            out.append(m.role.as_str());
            out.append(": ");
            out.append(m.content.as_str());
            proof {
                let ls2 = prompt_lines(messages@, i + 1);
                assert(ls2 == ls.push(m.role@ + ": "@ + m.content@));
                assert(ls2.drop_last() =~= ls);
                if ls.len() == 0 {
                    assert(out@ =~= m.role@ + ": "@ + m.content@);
                } else {
                    assert(out@ =~= join_lines(ls) + "\n"@ + (m.role@ + ": "@ + m.content@));
                }
            }
            any = true;
        }
        i = i + 1;
    }
    out
}

/// `to_engine_tools`: each tool in the engine's form.
pub fn to_engine_tools(tools: &[Tool]) -> (r: Vec<EngineTool>)
    ensures
        r.len() == tools.len(),
        forall|i: int|
            0 <= i < tools.len() ==> {
                &&& (#[trigger] r@[i]).tool_type@ == tools@[i].tool_type@
                &&& r@[i].function.name@ == tools@[i].function.name@
                &&& r@[i].function.description@ == tools@[i].function.description@
                &&& r@[i].function.parameters@ == tools@[i].function.parameters@
            },
{
    let mut out: Vec<EngineTool> = Vec::new();
    let mut i: usize = 0;
    while i < tools.len()
        invariant
            i <= tools.len(),
            out.len() == i,
            forall|j: int|
                0 <= j < i ==> {
                    &&& (#[trigger] out@[j]).tool_type@ == tools@[j].tool_type@
                    &&& out@[j].function.name@ == tools@[j].function.name@
                    &&& out@[j].function.description@ == tools@[j].function.description@
                    &&& out@[j].function.parameters@ == tools@[j].function.parameters@
                },
        decreases tools.len() - i,
    {
        let t = &tools[i];
        out.push(
            EngineTool {
                tool_type: t.tool_type.clone(),
                function: EngineToolFunction {
                    name: t.function.name.clone(),
                    description: t.function.description.clone(),
                    parameters: t.function.parameters.duplicate(),
                },
            },
        );
        i = i + 1;
    }
    out
}

/// The generate payload of a request: model, flattened prompt, messages
/// in the form the engine accepts (see `to_engine_message`), tools in the engine's form with `tool_choice`
/// `auto` exactly when tools are given, and the sampling parameters.
pub fn generate_payload(request: EngineGenerateRequest) -> (r: EngineGeneratePayload)
    ensures
        r.model@ == request.model@,
        r.prompt@ == prompt_of(request.messages@),
        r.messages.len() == request.messages.len(),
        forall|i: int|
            0 <= i < r.messages.len() ==> (#[trigger] r.messages@[i]).role@ == engine_role(
                request.messages@[i],
            ) && r.messages@[i].content@ == engine_content(request.messages@[i]),
        r.tools is Some <==> request.tools is Some,
        r.tools is Some ==> r.tools->0.len() == request.tools->0.len(),
        r.tools is Some ==> forall|i: int|
            0 <= i < r.tools->0.len() ==> {
                &&& (#[trigger] r.tools->0@[i]).tool_type@ == request.tools->0@[i].tool_type@
                &&& r.tools->0@[i].function.name@ == request.tools->0@[i].function.name@
                &&& r.tools->0@[i].function.description@
                    == request.tools->0@[i].function.description@
                &&& r.tools->0@[i].function.parameters@
                    == request.tools->0@[i].function.parameters@
            },
        r.tool_choice is Some <==> request.tools is Some,
        r.tool_choice matches Some(c) ==> c@ == "auto"@,
        r.params.temperature_bits == request.temperature_bits,
        r.params.max_tokens == request.max_tokens,
{
    let mut messages: Vec<EngineMessage> = Vec::new();
    let mut i: usize = 0;
    while i < request.messages.len()
        invariant
            i <= request.messages.len(),
            messages.len() == i,
            forall|j: int|
                0 <= j < i ==> (#[trigger] messages@[j]).role@ == engine_role(
                    request.messages@[j],
                ) && messages@[j].content@ == engine_content(request.messages@[j]),
        decreases request.messages.len() - i,
    {
        messages.push(to_engine_message(&request.messages[i]));
        i = i + 1;
    }
    let prompt = flatten_prompt(request.messages.as_slice());
    let (tools, tool_choice) = match &request.tools {
        Some(ts) => (Some(to_engine_tools(ts.as_slice())), Some("auto".to_string())),
        None => (None, None),
    };
    EngineGeneratePayload {
        model: request.model,
        prompt,
        messages,
        tools,
        tool_choice,
        params: EngineGenerationParams {
            temperature_bits: request.temperature_bits,
            max_tokens: request.max_tokens,
        },
    }
}

/// `format!("{}{}", base.trim_end_matches('/'), path)`: an endpoint of a
/// service whose base address may end in slashes.
pub fn endpoint_url(base: &str, path: &str) -> (r: String)
    ensures
        r@ == trim_end_slashes(base@) + path@,
{
    let mut r = trim_trailing_slashes(base);
    r.append(path);
    r
}

/// The prompt lines of a list's first `k` messages do not change when a
/// message is added at the end.
proof fn lemma_prompt_lines_push(ms: Seq<ChatMessage>, m: ChatMessage, k: int)
    requires
        0 <= k <= ms.len(),
    ensures
        prompt_lines(ms.push(m), k) == prompt_lines(ms, k),
    decreases k,
{
    if k > 0 {
        lemma_prompt_lines_push(ms, m, k - 1);
        assert(ms.push(m)[k - 1] == ms[k - 1]);
    }
}

/// Every prompt line holds at least the `": "` between role and content.
proof fn lemma_prompt_lines_nonempty(ms: Seq<ChatMessage>, k: int)
    ensures
        forall|i: int|
            0 <= i < prompt_lines(ms, k).len() ==> (#[trigger] prompt_lines(ms, k)[i]).len() > 0,
    decreases k,
{
    reveal_strlit(": ");
    if k > 0 {
        lemma_prompt_lines_nonempty(ms, k - 1);
        let before = prompt_lines(ms, k - 1);
        let now = prompt_lines(ms, k);
        assert forall|i: int| 0 <= i < now.len() implies (#[trigger] now[i]).len() > 0 by {
            if i < before.len() {
                assert(now[i] == before[i]);
            }
        }
    }
}

/// Lines that are not empty join into empty text only when there are none.
proof fn lemma_join_empty(ls: Seq<Seq<char>>)
    requires
        forall|i: int| 0 <= i < ls.len() ==> (#[trigger] ls[i]).len() > 0,
    ensures
        (join_lines(ls).len() == 0) <==> (ls.len() == 0),
    decreases ls.len(),
{
    if ls.len() > 1 {
        assert(ls.last() == ls[ls.len() - 1]);
    } else if ls.len() == 1 {
        assert(ls[0].len() > 0);
    }
}

/// Law: the prompt of no messages is empty, and a message added at the end
/// adds its line `role: content` (whatever its role) after a newline, or as
/// the whole prompt when the prompt was empty; a message with blank content
/// adds nothing.
pub proof fn law_prompt_push(ms: Seq<ChatMessage>, m: ChatMessage)
    ensures
        prompt_of(Seq::empty()) == Seq::<char>::empty(),
        is_blank(m.content@) ==> prompt_of(ms.push(m)) == prompt_of(ms),
        !is_blank(m.content@) ==> prompt_of(ms.push(m)) == if prompt_of(ms).len() == 0 {
            m.role@ + ": "@ + m.content@
        } else {
            prompt_of(ms) + "\n"@ + (m.role@ + ": "@ + m.content@)
        },
{
    let all = ms.push(m);
    let n = ms.len() as int;
    lemma_prompt_lines_push(ms, m, n);
    assert(all[n] == m);
    assert(all.len() == n + 1);
    let ls = prompt_lines(ms, n);
    lemma_prompt_lines_nonempty(ms, n);
    lemma_join_empty(ls);
    assert(prompt_lines(all, n + 1) == match prompt_line(m) {
        Some(l) => ls.push(l),
        None => ls,
    });
    if !is_blank(m.content@) {
        let l = m.role@ + ": "@ + m.content@;
        assert(ls.push(l).drop_last() =~= ls);
        assert(ls.push(l).last() == l);
        if ls.len() == 0 {
            assert(ls.push(l)[0] == l);
        }
    }
}

/// Law: the engine receives a tool's result (role `tool`) as a `user`
/// message whose content is `Tool result:`, a newline, then the result;
/// every other message goes with its own role and content.
pub proof fn law_engine_message(m: ChatMessage)
    ensures
        m.role@ == "tool"@ ==> engine_role(m) == "user"@ && engine_content(m) == "Tool result:\n"@
            + m.content@,
        m.role@ != "tool"@ ==> engine_role(m) == m.role@ && engine_content(m) == m.content@,
{
}

} // verus!
