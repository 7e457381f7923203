//! Reading smolpc-engine replies: tool calls in their complete and their
//! streamed (delta) forms, error and token text of stream lines, and model
//! lists.
use crate::json::{items_view, lemma_items_view, Json, JsonV};
use crate::models::{
    calls_view, opt_calls_view, Model, ModelV, ToolCall, ToolCallFunction, ToolCallV,
    models_view,
};
use vstd::prelude::*;

verus! {

/// The view of an optional string.
pub open spec fn opt_str_view(o: Option<String>) -> Option<Seq<char>> {
    match o {
        Some(s) => Some(s@),
        None => None,
    }
}

/// The view of an optional borrowed JSON value.
pub open spec fn ref_view(o: Option<&Json>) -> Option<JsonV> {
    match o {
        Some(x) => Some(x@),
        None => None,
    }
}

/// `o.and_then(|x| x.get(k))`.
pub open spec fn opt_at(o: Option<JsonV>, k: Seq<char>) -> Option<JsonV> {
    match o {
        Some(x) => x.at(k),
        None => None,
    }
}

/// `a.or_else(|| b)`.
pub open spec fn first_present(a: Option<JsonV>, b: Option<JsonV>) -> Option<JsonV> {
    if a is Some {
        a
    } else {
        b
    }
}

/// `o.and_then(Value::as_str)`.
pub open spec fn opt_text(o: Option<JsonV>) -> Option<Seq<char>> {
    match o {
        Some(x) => x.text_value(),
        None => None,
    }
}

/// The first element of the array under `choices`, when there is one.
pub open spec fn first_choice(v: JsonV) -> Option<JsonV> {
    match v.at("choices"@) {
        Some(c) => match c.items() {
            Some(xs) => if xs.len() > 0 {
                Some(xs[0])
            } else {
                None
            },
            None => None,
        },
        None => None,
    }
}

// ---------------------------------------------------------------- tool calls
/// How a tool call's function is read from JSON (as a derived
/// `Deserialize` reads a struct of a string `name` and an `arguments`
/// value): an object holding both members, or the two values in order as an
/// array of exactly two.
pub open spec fn decode_function(f: JsonV) -> Option<ToolCallV> {
    match f.items() {
        Some(xs) => if xs.len() == 2 {
            match xs[0] {
                JsonV::Str(n) => Some(ToolCallV { name: n, arguments: xs[1] }),
                _ => None,
            }
        } else {
            None
        },
        None => match (f.at("name"@), f.at("arguments"@)) {
            (Some(JsonV::Str(n)), Some(a)) => Some(ToolCallV { name: n, arguments: a }),
            _ => None,
        },
    }
}

/// How a tool call is read from JSON (a struct of one `function` member):
/// an object whose `function` member is a function, or an array of exactly
/// one element, the function.
pub open spec fn decode_tool_call(v: JsonV) -> Option<ToolCallV> {
    match v.items() {
        Some(xs) => if xs.len() == 1 {
            decode_function(xs[0])
        } else {
            None
        },
        None => match v.at("function"@) {
            Some(f) => decode_function(f),
            None => None,
        },
    }
}

pub open spec fn all_decode(xs: Seq<JsonV>) -> bool {
    forall|i: int| 0 <= i < xs.len() ==> (#[trigger] decode_tool_call(xs[i])) is Some
}

/// `parse_tool_calls_value`: an array of tool calls (every item must be
/// one), or else a single tool call.
pub open spec fn tool_calls_of(v: JsonV) -> Option<Seq<ToolCallV>> {
    if v.items() is Some && all_decode(v.items()->0) {
        let xs = v.items()->0;
        Some(Seq::new(xs.len(), |i: int| decode_tool_call(xs[i])->0))
    } else if decode_tool_call(v) is Some {
        Some(seq![decode_tool_call(v)->0])
    } else {
        None
    }
}

/// `o.and_then(parse_tool_calls_value)`.
pub open spec fn opt_tool_calls(o: Option<JsonV>) -> Option<Seq<ToolCallV>> {
    match o {
        Some(x) => tool_calls_of(x),
        None => None,
    }
}

/// Where a choice holds complete tool calls: `delta.tool_calls`, or else
/// `message.tool_calls`.
pub open spec fn choice_calls_field(c: JsonV) -> Option<JsonV> {
    first_present(opt_at(c.at("delta"@), "tool_calls"@), opt_at(c.at("message"@), "tool_calls"@))
}

/// `extract_tool_calls`: complete tool calls under `tool_calls`, else under
/// `toolCall`, else in the first choice.
pub open spec fn extract_tool_calls_spec(v: JsonV) -> Option<Seq<ToolCallV>> {
    let a = opt_tool_calls(v.at("tool_calls"@));
    let b = opt_tool_calls(v.at("toolCall"@));
    if a is Some {
        a
    } else if b is Some {
        b
    } else {
        match first_choice(v) {
            Some(c) => opt_tool_calls(choice_calls_field(c)),
            None => None,
        }
    }
}

/// `value.get(key)` on an optional value.
pub fn get_opt<'a>(o: Option<&'a Json>, key: &str) -> (r: Option<&'a Json>)
    ensures
        ref_view(r) == opt_at(ref_view(o), key@),
{
    match o {
        Some(x) => x.get(key),
        None => None,
    }
}

/// `value.get(key)` with the view stated through `ref_view`.
pub fn get_ref<'a>(v: &'a Json, key: &str) -> (r: Option<&'a Json>)
    ensures
        ref_view(r) == v@.at(key@),
{
    v.get(key)
}

/// The first choice of a streamed reply.
pub fn get_first_choice(v: &Json) -> (r: Option<&Json>)
    ensures
        ref_view(r) == first_choice(v@),
{
    match v.get("choices") {
        Some(c) => match c.as_array() {
            Some(xs) => {
                proof {
                    lemma_items_view(xs@);
                }
                if xs.len() > 0 {
                    Some(&xs[0])
                } else {
                    None
                }
            },
            None => None,
        },
        None => None,
    }
}

/// The string under `o`, as an owned string.
pub fn opt_string(o: Option<&Json>) -> (r: Option<String>)
    ensures
        opt_str_view(r) == opt_text(ref_view(o)),
{
    match o {
        Some(x) => match x.as_str() {
            Some(s) => Some(s.to_string()),
            None => None,
        },
        None => None,
    }
}

/// A tool call's function read from JSON.
pub fn decode_function_value(f: &Json) -> (r: Option<ToolCall>)
    ensures
        match r {
            Some(c) => decode_function(f@) == Some(c@),
            None => decode_function(f@) is None,
        },
{
    match f.as_array() {
        Some(xs) => {
            proof {
                lemma_items_view(xs@);
            }
            if xs.len() == 2 {
                match &xs[0] {
                    Json::Str(s) => Some(
                        ToolCall {
                            function: ToolCallFunction {
                                name: s.clone(),
                                arguments: xs[1].duplicate(),
                            },
                        },
                    ),
                    _ => None,
                }
            } else {
                None
            }
        },
        None => {
            let n = f.get("name");
            let a = f.get("arguments");
            match (n, a) {
                (Some(n), Some(a)) => match n {
                    Json::Str(s) => Some(
                        ToolCall {
                            function: ToolCallFunction { name: s.clone(), arguments: a.duplicate() },
                        },
                    ),
                    _ => None,
                },
                _ => None,
            }
        },
    }
}

/// One tool call read from JSON.
pub fn decode_tool_call_value(v: &Json) -> (r: Option<ToolCall>)
    ensures
        match r {
            Some(c) => decode_tool_call(v@) == Some(c@),
            None => decode_tool_call(v@) is None,
        },
{
    match v.as_array() {
        Some(xs) => {
            proof {
                lemma_items_view(xs@);
            }
            if xs.len() == 1 {
                decode_function_value(&xs[0])
            } else {
                None
            }
        },
        None => match v.get("function") {
            Some(f) => decode_function_value(f),
            None => None,
        },
    }
}

/// Every element read as a tool call, when every element is one.
fn decode_all(xs: &Vec<Json>) -> (r: Option<Vec<ToolCall>>)
    ensures
        match r {
            Some(out) => all_decode(items_view(xs@)) && calls_view(out@) == Seq::new(
                xs@.len(),
                |j: int| decode_tool_call(items_view(xs@)[j])->0,
            ),
            None => !all_decode(items_view(xs@)),
        },
{
    proof {
        lemma_items_view(xs@);
    }
    let ghost ys = items_view(xs@);
    let mut out: Vec<ToolCall> = Vec::new();
    let mut i: usize = 0;
    while i < xs.len()
        invariant
            i <= xs.len(),
            ys == items_view(xs@),
            ys.len() == xs.len(),
            forall|j: int| 0 <= j < xs.len() ==> #[trigger] ys[j] == xs@[j]@,
            out.len() == i,
            forall|j: int| 0 <= j < i ==> decode_tool_call(#[trigger] ys[j]) == Some(out@[j]@),
        decreases xs.len() - i,
    {
        match decode_tool_call_value(&xs[i]) {
            Some(c) => {
                out.push(c);
            },
            None => {
                assert(decode_tool_call(ys[i as int]) is None);
                return None;
            },
        }
        i = i + 1;
    }
    assert(all_decode(ys));
    assert(calls_view(out@) =~= Seq::new(ys.len(), |j: int| decode_tool_call(ys[j])->0));
    Some(out)
}

/// `parse_tool_calls_value`.
pub fn parse_tool_calls_value(v: &Json) -> (r: Option<Vec<ToolCall>>)
    ensures
        opt_calls_view(r) == tool_calls_of(v@),
{
    match v.as_array() {
        Some(xs) => match decode_all(xs) {
            Some(out) => {
                proof {
                    lemma_items_view(xs@);
                    let ys = v@.items()->0;
                    assert(ys == items_view(xs@));
                    assert(calls_view(out@) =~= Seq::new(
                        ys.len(),
                        |i: int| decode_tool_call(ys[i])->0,
                    ));
                }
                return Some(out);
            },
            None => {},
        },
        None => {},
    }
    match decode_tool_call_value(v) {
        Some(c) => {
            let mut out: Vec<ToolCall> = Vec::new();
            out.push(c);
            assert(calls_view(out@) =~= seq![decode_tool_call(v@)->0]);
            Some(out)
        },
        None => None,
    }
}

/// `o.and_then(parse_tool_calls_value)`.
pub fn tool_calls_at(o: Option<&Json>) -> (r: Option<Vec<ToolCall>>)
    ensures
        opt_calls_view(r) == opt_tool_calls(ref_view(o)),
{
    match o {
        Some(x) => parse_tool_calls_value(x),
        None => None,
    }
}

/// `extract_tool_calls`.
pub fn extract_tool_calls(v: &Json) -> (r: Option<Vec<ToolCall>>)
    ensures
        opt_calls_view(r) == extract_tool_calls_spec(v@),
{
    let a = tool_calls_at(get_ref(v, "tool_calls"));
    if a.is_some() {
        return a;
    }
    let b = tool_calls_at(get_ref(v, "toolCall"));
    if b.is_some() {
        return b;
    }
    match get_first_choice(v) {
        Some(c) => {
            let d = get_opt(get_ref(c, "delta"), "tool_calls");
            let field = if d.is_some() {
                d
            } else {
                get_opt(get_ref(c, "message"), "tool_calls")
            };
            tool_calls_at(field)
        },
        None => None,
    }
}

// ------------------------------------------------------------ tool-call deltas
/// A fragment of a tool call streamed in pieces: the call's position, and
/// the name and the piece of argument text this line carries, if any.
#[derive(Debug)]
pub struct ToolCallDelta {
    pub index: usize,
    pub name: Option<String>,
    pub arguments_chunk: Option<String>,
}

/// The mathematical form of a `ToolCallDelta`.
pub struct ToolCallDeltaV {
    pub index: usize,
    pub name: Option<Seq<char>>,
    pub arguments_chunk: Option<Seq<char>>,
}

impl View for ToolCallDelta {
    type V = ToolCallDeltaV;

    open spec fn view(&self) -> ToolCallDeltaV {
        ToolCallDeltaV {
            index: self.index,
            name: opt_str_view(self.name),
            arguments_chunk: opt_str_view(self.arguments_chunk),
        }
    }
}

/// The views of a sequence of deltas.
pub open spec fn deltas_view(v: Seq<ToolCallDelta>) -> Seq<ToolCallDeltaV> {
    v.map_values(|d: ToolCallDelta| d@)
}

/// An argument value as delta text: a string as it is, an object or array
/// as its compact JSON text, nothing for any other value.
pub open spec fn argument_chunk_of(a: JsonV) -> Option<Seq<char>> {
    match a {
        JsonV::Str(s) => Some(s),
        JsonV::Object(_, t) => Some(t),
        JsonV::Array(_, t) => Some(t),
        _ => None,
    }
}

/// `parse_tool_call_delta_item`: the delta one JSON item describes; its
/// position is its `index` member when that is an unsigned integer, else
/// `fallback`.
pub open spec fn delta_item(v: JsonV, fallback: usize) -> Option<ToolCallDeltaV> {
    let index = match v.at("index"@) {
        Some(x) => match x.u64_value() {
            Some(n) => n as usize,
            None => fallback,
        },
        None => fallback,
    };
    let function = match v.at("function"@) {
        Some(f) => f,
        None => v,
    };
    let name = opt_text(first_present(function.at("name"@), v.at("name"@)));
    let chunk = match first_present(function.at("arguments"@), v.at("arguments"@)) {
        Some(a) => argument_chunk_of(a),
        None => None,
    };
    if name is None && chunk is None {
        None
    } else {
        Some(ToolCallDeltaV { index, name, arguments_chunk: chunk })
    }
}

/// The deltas of the first `n` items of an array, each item's position
/// in the array serving as its fallback index.
pub open spec fn collect_deltas(xs: Seq<JsonV>, n: int) -> Seq<ToolCallDeltaV>
    decreases n,
{
    if n <= 0 {
        Seq::empty()
    } else {
        let before = collect_deltas(xs, n - 1);
        match delta_item(xs[n - 1], (n - 1) as usize) {
            Some(d) => before.push(d),
            None => before,
        }
    }
}

/// `parse_tool_call_deltas_value`.
pub open spec fn deltas_of(v: JsonV) -> Option<Seq<ToolCallDeltaV>> {
    match v.items() {
        Some(xs) => {
            let ds = collect_deltas(xs, xs.len() as int);
            if ds.len() == 0 {
                None
            } else {
                Some(ds)
            }
        },
        None => match delta_item(v, 0) {
            Some(d) => Some(seq![d]),
            None => None,
        },
    }
}

/// `o.and_then(parse_tool_call_deltas_value)`.
pub open spec fn opt_deltas(o: Option<JsonV>) -> Option<Seq<ToolCallDeltaV>> {
    match o {
        Some(x) => deltas_of(x),
        None => None,
    }
}

/// Where a choice holds tool-call deltas: in `delta` under `tool_calls`,
/// `toolCall` or `function_call` (the first present), or else
/// `message.tool_calls`.
pub open spec fn choice_deltas_field(c: JsonV) -> Option<JsonV> {
    let in_delta = match c.at("delta"@) {
        Some(d) => first_present(
            d.at("tool_calls"@),
            first_present(d.at("toolCall"@), d.at("function_call"@)),
        ),
        None => None,
    };
    first_present(in_delta, opt_at(c.at("message"@), "tool_calls"@))
}

/// `extract_tool_call_deltas`: the deltas under `tool_calls`, else under
/// `toolCall`, else in the first choice, else none.
pub open spec fn extract_deltas_spec(v: JsonV) -> Seq<ToolCallDeltaV> {
    let a = opt_deltas(v.at("tool_calls"@));
    let b = opt_deltas(v.at("toolCall"@));
    let c = match first_choice(v) {
        Some(ch) => opt_deltas(choice_deltas_field(ch)),
        None => None,
    };
    if a is Some {
        a->0
    } else if b is Some {
        b->0
    } else if c is Some {
        c->0
    } else {
        Seq::empty()
    }
}

/// `parse_tool_call_delta_item`.
pub fn parse_tool_call_delta_item(value: &Json, fallback_index: usize) -> (r: Option<ToolCallDelta>)
    ensures
        match r {
            Some(d) => delta_item(value@, fallback_index) == Some(d@),
            None => delta_item(value@, fallback_index) is None,
        },
{
    let index = match value.get("index") {
        Some(x) => match x.as_u64() {
            Some(n) => n as usize,
            None => fallback_index,
        },
        None => fallback_index,
    };
    let function = match value.get("function") {
        Some(f) => f,
        None => value,
    };
    let n1 = get_ref(function, "name");
    let name_src = if n1.is_some() {
        n1
    } else {
        get_ref(value, "name")
    };
    let name = opt_string(name_src);
    let a1 = get_ref(function, "arguments");
    let args_src = if a1.is_some() {
        a1
    } else {
        get_ref(value, "arguments")
    };
    let chunk = match args_src {
        Some(a) => match a.as_str() {
            Some(text) => Some(text.to_string()),
            None => if a.is_object() || a.is_array() {
                Some(a.to_text())
            } else {
                None
            },
        },
        None => None,
    };
    if name.is_none() && chunk.is_none() {
        None
    } else {
        Some(ToolCallDelta { index, name, arguments_chunk: chunk })
    }
}

/// `parse_tool_call_deltas_value`.
pub fn parse_tool_call_deltas_value(value: &Json) -> (r: Option<Vec<ToolCallDelta>>)
    ensures
        match r {
            Some(ds) => deltas_of(value@) == Some(deltas_view(ds@)),
            None => deltas_of(value@) is None,
        },
{
    match value.as_array() {
        Some(xs) => {
            proof {
                lemma_items_view(xs@);
            }
            let ghost ys = items_view(xs@);
            let mut out: Vec<ToolCallDelta> = Vec::new();
            let mut i: usize = 0;
            while i < xs.len()
                invariant
                    i <= xs.len(),
                    ys == items_view(xs@),
                    ys.len() == xs.len(),
                    forall|j: int| 0 <= j < xs.len() ==> #[trigger] ys[j] == xs@[j]@,
                    deltas_view(out@) == collect_deltas(ys, i as int),
                decreases xs.len() - i,
            {
                let d = parse_tool_call_delta_item(&xs[i], i);
                match d {
                    Some(d) => {
                        out.push(d);
                    },
                    None => {},
                }
                i = i + 1;
                assert(deltas_view(out@) =~= collect_deltas(ys, i as int));
            }
            if out.len() == 0 {
                None
            } else {
                Some(out)
            }
        },
        None => match parse_tool_call_delta_item(value, 0) {
            Some(d) => {
                let mut out: Vec<ToolCallDelta> = Vec::new();
                out.push(d);
                assert(deltas_view(out@) =~= seq![delta_item(value@, 0)->0]);
                Some(out)
            },
            None => None,
        },
    }
}

/// `o.and_then(parse_tool_call_deltas_value)`.
pub fn deltas_at(o: Option<&Json>) -> (r: Option<Vec<ToolCallDelta>>)
    ensures
        match r {
            Some(ds) => opt_deltas(ref_view(o)) == Some(deltas_view(ds@)),
            None => opt_deltas(ref_view(o)) is None,
        },
{
    match o {
        Some(x) => parse_tool_call_deltas_value(x),
        None => None,
    }
}

/// `extract_tool_call_deltas`.
pub fn extract_tool_call_deltas(value: &Json) -> (r: Vec<ToolCallDelta>)
    ensures
        deltas_view(r@) == extract_deltas_spec(value@),
{
    match deltas_at(get_ref(value, "tool_calls")) {
        Some(ds) => return ds,
        None => {},
    }
    match deltas_at(get_ref(value, "toolCall")) {
        Some(ds) => return ds,
        None => {},
    }
    match get_first_choice(value) {
        Some(c) => {
            let in_delta = match c.get("delta") {
                Some(d) => {
                    let t1 = get_ref(d, "tool_calls");
                    if t1.is_some() {
                        t1
                    } else {
                        let t2 = get_ref(d, "toolCall");
                        if t2.is_some() {
                            t2
                        } else {
                            get_ref(d, "function_call")
                        }
                    }
                },
                None => None,
            };
            let field = if in_delta.is_some() {
                in_delta
            } else {
                get_opt(get_ref(c, "message"), "tool_calls")
            };
            match deltas_at(field) {
                Some(ds) => return ds,
                None => {},
            }
        },
        None => {},
    }
    let empty: Vec<ToolCallDelta> = Vec::new();
    assert(deltas_view(empty@) =~= Seq::<ToolCallDeltaV>::empty());
    empty
}

// --------------------------------------------------------- errors and tokens
/// `extract_error_message`: a string `error`, or else the string
/// `error.message`.
pub open spec fn error_message_of(v: JsonV) -> Option<Seq<char>> {
    match v.at("error"@) {
        Some(e) => match e.text_value() {
            Some(m) => Some(m),
            None => opt_text(e.at("message"@)),
        },
        None => None,
    }
}

/// `extract_token_text`: the first string among `token`, `text` and
/// `content`; else, in the first choice, the string `delta.content` or else
/// the string `text`.
pub open spec fn token_text_of(v: JsonV) -> Option<Seq<char>> {
    let t = opt_text(v.at("token"@));
    let x = opt_text(v.at("text"@));
    let c = opt_text(v.at("content"@));
    if t is Some {
        t
    } else if x is Some {
        x
    } else if c is Some {
        c
    } else {
        match first_choice(v) {
            Some(ch) => {
                let d = opt_text(opt_at(ch.at("delta"@), "content"@));
                if d is Some {
                    d
                } else {
                    opt_text(ch.at("text"@))
                }
            },
            None => None,
        }
    }
}

/// `extract_error_message`.
pub fn extract_error_message(value: &Json) -> (r: Option<String>)
    ensures
        opt_str_view(r) == error_message_of(value@),
{
    match value.get("error") {
        Some(e) => match e.as_str() {
            Some(m) => Some(m.to_string()),
            None => opt_string(get_ref(e, "message")),
        },
        None => None,
    }
}

/// `extract_token_text`.
pub fn extract_token_text(value: &Json) -> (r: Option<String>)
    ensures
        opt_str_view(r) == token_text_of(value@),
{
    let t = opt_string(get_ref(value, "token"));
    if t.is_some() {
        return t;
    }
    let x = opt_string(get_ref(value, "text"));
    if x.is_some() {
        return x;
    }
    let c = opt_string(get_ref(value, "content"));
    if c.is_some() {
        return c;
    }
    match get_first_choice(value) {
        Some(ch) => {
            let d = opt_string(get_opt(get_ref(ch, "delta"), "content"));
            if d.is_some() {
                d
            } else {
                opt_string(get_ref(ch, "text"))
            }
        },
        None => None,
    }
}

// -------------------------------------------------------------------- models
/// `parse_model_item`: a bare string names a model; an object names one by
/// its string `name`, `id` or `model` (the first of them present), with
/// `modified_at` or `updated_at` and `size` when they are given.
pub open spec fn model_item(v: JsonV) -> Option<ModelV> {
    match v.text_value() {
        Some(s) => Some(ModelV { name: s, modified_at: Seq::empty(), size: 0 }),
        None => {
            let name = opt_text(
                first_present(v.at("name"@), first_present(v.at("id"@), v.at("model"@))),
            );
            let modified = opt_text(first_present(v.at("modified_at"@), v.at("updated_at"@)));
            let size = match v.at("size"@) {
                Some(x) => match x.u64_value() {
                    Some(n) => n,
                    None => 0,
                },
                None => 0,
            };
            match name {
                Some(n) => Some(
                    ModelV {
                        name: n,
                        modified_at: match modified {
                            Some(m) => m,
                            None => Seq::empty(),
                        },
                        size,
                    },
                ),
                None => None,
            }
        },
    }
}

/// The models named by the first `n` items of a list, in order.
pub open spec fn collect_models(xs: Seq<JsonV>, n: int) -> Seq<ModelV>
    decreases n,
{
    if n <= 0 {
        Seq::empty()
    } else {
        let before = collect_models(xs, n - 1);
        match model_item(xs[n - 1]) {
            Some(m) => before.push(m),
            None => before,
        }
    }
}

/// The array under `key`, if there is one.
pub open spec fn array_at(v: JsonV, key: Seq<char>) -> Option<Seq<JsonV>> {
    match v.at(key) {
        Some(x) => x.items(),
        None => None,
    }
}

/// `parse_models_from_value`: the models of a top-level array, else of
/// the array `models`, else of the array `data`, else the one model the
/// value itself describes, else none.
pub open spec fn models_of(v: JsonV) -> Seq<ModelV> {
    if v.items() is Some {
        collect_models(v.items()->0, v.items()->0.len() as int)
    } else if array_at(v, "models"@) is Some {
        let xs = array_at(v, "models"@)->0;
        collect_models(xs, xs.len() as int)
    } else if array_at(v, "data"@) is Some {
        let xs = array_at(v, "data"@)->0;
        collect_models(xs, xs.len() as int)
    } else {
        match model_item(v) {
            Some(m) => seq![m],
            None => Seq::empty(),
        }
    }
}

/// `parse_model_item`.
pub fn parse_model_item(value: &Json) -> (r: Option<Model>)
    ensures
        match r {
            Some(m) => model_item(value@) == Some(m@),
            None => model_item(value@) is None,
        },
{
    match value.as_str() {
        Some(s) => {
            return Some(Model { name: s.to_string(), modified_at: String::new(), size: 0 });
        },
        None => {},
    }
    let n1 = get_ref(value, "name");
    let name_src = if n1.is_some() {
        n1
    } else {
        let n2 = get_ref(value, "id");
        if n2.is_some() {
            n2
        } else {
            get_ref(value, "model")
        }
    };
    let name = match opt_string(name_src) {
        Some(n) => n,
        None => return None,
    };
    let m1 = get_ref(value, "modified_at");
    let mod_src = if m1.is_some() {
        m1
    } else {
        get_ref(value, "updated_at")
    };
    let modified_at = match opt_string(mod_src) {
        Some(m) => m,
        None => String::new(),
    };
    let size = match value.get("size") {
        Some(x) => match x.as_u64() {
            Some(n) => n,
            None => 0,
        },
        None => 0,
    };
    Some(Model { name, modified_at, size })
}

/// The models named by the items of a list.
pub fn models_from_items(xs: &Vec<Json>) -> (r: Vec<Model>)
    ensures
        models_view(r@) == collect_models(items_view(xs@), xs.len() as int),
{
    proof {
        lemma_items_view(xs@);
    }
    let ghost ys = items_view(xs@);
    let mut out: Vec<Model> = Vec::new();
    let mut i: usize = 0;
    while i < xs.len()
        invariant
            i <= xs.len(),
            ys == items_view(xs@),
            ys.len() == xs.len(),
            forall|j: int| 0 <= j < xs.len() ==> #[trigger] ys[j] == xs@[j]@,
            models_view(out@) == collect_models(ys, i as int),
        decreases xs.len() - i,
    {
        match parse_model_item(&xs[i]) {
            Some(m) => {
                out.push(m);
            },
            None => {},
        }
        i = i + 1;
        assert(models_view(out@) =~= collect_models(ys, i as int));
    }
    out
}

/// `parse_models_from_value`.
pub fn parse_models_from_value(value: &Json) -> (r: Vec<Model>)
    ensures
        models_view(r@) == models_of(value@),
{
    match value.as_array() {
        Some(xs) => {
            proof {
                lemma_items_view(xs@);
            }
            return models_from_items(xs);
        },
        None => {},
    }
    match value.get("models") {
        Some(x) => match x.as_array() {
            Some(xs) => {
                proof {
                    lemma_items_view(xs@);
                }
                return models_from_items(xs);
            },
            None => {},
        },
        None => {},
    }
    match value.get("data") {
        Some(x) => match x.as_array() {
            Some(xs) => {
                proof {
                    lemma_items_view(xs@);
                }
                return models_from_items(xs);
            },
            None => {},
        },
        None => {},
    }
    let mut out: Vec<Model> = Vec::new();
    match parse_model_item(value) {
        Some(m) => {
            out.push(m);
        },
        None => {},
    }
    assert(models_view(out@) =~= models_of(value@));
    out
}

// --------------------------------------------------------------------- laws
/// An item's own position when it has no unsigned `index` member, else that
/// member.
pub open spec fn has_index_member(v: JsonV) -> bool {
    match v.at("index"@) {
        Some(x) => x.u64_value() is Some,
        None => false,
    }
}

/// Where the item's index is not given, what it reads as does not depend on
/// the fallback except through the index; and a given index is used as it
/// is.
pub proof fn lemma_delta_item_fallback(v: JsonV, a: usize, b: usize)
    ensures
        delta_item(v, a) is Some <==> delta_item(v, b) is Some,
        delta_item(v, a) matches Some(d) ==> {
            &&& d.name == delta_item(v, b)->0.name
            &&& d.arguments_chunk == delta_item(v, b)->0.arguments_chunk
            &&& !has_index_member(v) ==> d.index == a
            &&& has_index_member(v) ==> d.index == v.at("index"@)->0.u64_value()->0 as usize
        },
{
}

/// The deltas of the first `n` items when every item describes one.
proof fn lemma_collect_deltas_all(xs: Seq<JsonV>, n: int)
    requires
        0 <= n <= xs.len(),
        xs.len() <= usize::MAX,
        forall|i: int| 0 <= i < xs.len() ==> (#[trigger] delta_item(xs[i], 0)) is Some,
    ensures
        collect_deltas(xs, n).len() == n,
        forall|i: int|
            0 <= i < n ==> #[trigger] collect_deltas(xs, n)[i] == delta_item(xs[i], i as usize)->0,
    decreases n,
{
    if n > 0 {
        lemma_collect_deltas_all(xs, n - 1);
        lemma_delta_item_fallback(xs[n - 1], (n - 1) as usize, 0);
        assert(delta_item(xs[n - 1], 0) is Some);
    }
}

/// Law: in an array of delta items that each describe a delta, item `i`
/// gives delta `i`: its index is the item's unsigned `index` member when it
/// has one, else its position `i` in the array, so index-less items of one
/// array are kept apart; its name and argument text are the item's own.
pub proof fn law_delta_positions(v: JsonV)
    requires
        v.items() is Some,
        v.items()->0.len() > 0,
        v.items()->0.len() <= usize::MAX,
        forall|i: int|
            0 <= i < v.items()->0.len() ==> (#[trigger] delta_item(v.items()->0[i], 0)) is Some,
    ensures
        ({
            let xs = v.items()->0;
            deltas_of(v) matches Some(ds) && ds.len() == xs.len() && forall|i: int|
                0 <= i < xs.len() ==> {
                    &&& (#[trigger] ds[i]).name == delta_item(xs[i], 0)->0.name
                    &&& ds[i].arguments_chunk == delta_item(xs[i], 0)->0.arguments_chunk
                    &&& !has_index_member(xs[i]) ==> ds[i].index == i
                    &&& has_index_member(xs[i]) ==> ds[i].index == xs[i].at(
                        "index"@,
                    )->0.u64_value()->0 as usize
                }
        }),
{
    let xs = v.items()->0;
    lemma_collect_deltas_all(xs, xs.len() as int);
    let ds = collect_deltas(xs, xs.len() as int);
    assert forall|i: int| 0 <= i < xs.len() implies {
        &&& (#[trigger] ds[i]).name == delta_item(xs[i], 0)->0.name
        &&& ds[i].arguments_chunk == delta_item(xs[i], 0)->0.arguments_chunk
        &&& !has_index_member(xs[i]) ==> ds[i].index == i
        &&& has_index_member(xs[i]) ==> ds[i].index == xs[i].at("index"@)->0.u64_value()->0 as usize
    } by {
        lemma_delta_item_fallback(xs[i], i as usize, 0);
    }
}

/// Law: a function given as an object with a string `name` and an
/// `arguments` member is read as that name and those arguments.
pub proof fn law_function_object(f: JsonV, n: Seq<char>, a: JsonV)
    requires
        f is Object,
        f.at("name"@) == Some(JsonV::Str(n)),
        f.at("arguments"@) == Some(a),
    ensures
        decode_function(f) == Some(ToolCallV { name: n, arguments: a }),
{
}

/// Law: an object whose `function` member is a function is read as that
/// function's call.
pub proof fn law_tool_call_object(v: JsonV, f: JsonV)
    requires
        v is Object,
        v.at("function"@) == Some(f),
    ensures
        decode_tool_call(v) == decode_function(f),
{
}

/// Law: when every item of an array reads as a tool call, the array reads as
/// all of them: as many calls as items, call `i` being item `i`'s.
pub proof fn law_tool_calls_array(v: JsonV)
    requires
        v.items() is Some,
        forall|i: int|
            0 <= i < v.items()->0.len() ==> (#[trigger] decode_tool_call(v.items()->0[i])) is Some,
    ensures
        tool_calls_of(v) matches Some(cs) && cs.len() == v.items()->0.len() && forall|i: int|
            0 <= i < cs.len() ==> Some(#[trigger] cs[i]) == decode_tool_call(v.items()->0[i]),
{
}

/// Law: a value that is not an array reads as at most the one call it
/// describes.
pub proof fn law_tool_calls_single(v: JsonV)
    requires
        v.items() is None,
    ensures
        tool_calls_of(v) == match decode_tool_call(v) {
            Some(c) => Some(seq![c]),
            None => None,
        },
{
}

/// The models of the first `n` items when every item names one.
proof fn lemma_collect_models_all(xs: Seq<JsonV>, n: int)
    requires
        0 <= n <= xs.len(),
        forall|i: int| 0 <= i < xs.len() ==> (#[trigger] model_item(xs[i])) is Some,
    ensures
        collect_models(xs, n).len() == n,
        forall|i: int| 0 <= i < n ==> Some(#[trigger] collect_models(xs, n)[i]) == model_item(xs[i]),
    decreases n,
{
    if n > 0 {
        lemma_collect_models_all(xs, n - 1);
        assert(model_item(xs[n - 1]) is Some);
    }
}

/// Every model listed from items is one that some item names.
proof fn lemma_collect_models_from_items(xs: Seq<JsonV>, n: int)
    requires
        0 <= n <= xs.len(),
    ensures
        collect_models(xs, n).len() <= n,
        forall|k: int|
            0 <= k < collect_models(xs, n).len() ==> exists|i: int|
                0 <= i < n && model_item(xs[i]) == Some(#[trigger] collect_models(xs, n)[k]),
    decreases n,
{
    if n > 0 {
        lemma_collect_models_from_items(xs, n - 1);
        let before = collect_models(xs, n - 1);
        let now = collect_models(xs, n);
        assert forall|k: int| 0 <= k < now.len() implies exists|i: int|
            0 <= i < n && model_item(xs[i]) == Some(#[trigger] now[k]) by {
            if k < before.len() {
                assert(now[k] == before[k]);
                let i = choose|i: int| 0 <= i < n - 1 && model_item(xs[i]) == Some(before[k]);
                assert(model_item(xs[i]) == Some(now[k]));
            } else {
                assert(model_item(xs[n - 1]) == Some(now[k]));
            }
        }
    }
}

/// The items models are listed from: the value itself when it is an array,
/// else its `models` array, else its `data` array.
pub open spec fn model_items(v: JsonV) -> Option<Seq<JsonV>> {
    if v.items() is Some {
        v.items()
    } else if array_at(v, "models"@) is Some {
        array_at(v, "models"@)
    } else {
        array_at(v, "data"@)
    }
}

/// Law: the models listed from a list of items are named by those items:
/// each listed model is one an item names, and when every item names a
/// model, the list has one model per item, in order. The list is found as
/// a top-level array, else under `models`, else under `data` (as an
/// OpenAI-compatible `/v1/models` reply gives it).
pub proof fn law_models_from_items(v: JsonV)
    requires
        model_items(v) is Some,
    ensures
        ({
            let xs = model_items(v)->0;
            let ms = models_of(v);
            &&& ms.len() <= xs.len()
            &&& forall|k: int|
                0 <= k < ms.len() ==> exists|i: int|
                    0 <= i < xs.len() && model_item(xs[i]) == Some(#[trigger] ms[k])
            &&& (forall|i: int| 0 <= i < xs.len() ==> (#[trigger] model_item(xs[i])) is Some)
                ==> ms.len() == xs.len() && forall|i: int|
                0 <= i < xs.len() ==> Some(#[trigger] ms[i]) == model_item(xs[i])
        }),
{
    let xs = model_items(v)->0;
    assert(models_of(v) == collect_models(xs, xs.len() as int));
    lemma_collect_models_from_items(xs, xs.len() as int);
    if forall|i: int| 0 <= i < xs.len() ==> (#[trigger] model_item(xs[i])) is Some {
        lemma_collect_models_all(xs, xs.len() as int);
    }
}

/// Law: a model item names its model by its string `name`, or, without a
/// `name`, by its string `id`, or, without either, by its string `model`; a
/// bare string names the model itself.
pub proof fn law_model_names(v: JsonV, s: Seq<char>)
    ensures
        v == JsonV::Str(s) ==> (model_item(v) matches Some(m) && m.name == s),
        v is Object && v.at("name"@) == Some(JsonV::Str(s)) ==> (model_item(v) matches Some(m)
            && m.name == s),
        v is Object && v.at("name"@) is None && v.at("id"@) == Some(JsonV::Str(s)) ==> (model_item(
            v,
        ) matches Some(m) && m.name == s),
        v is Object && v.at("name"@) is None && v.at("id"@) is None && v.at("model"@) == Some(
            JsonV::Str(s),
        ) ==> (model_item(v) matches Some(m) && m.name == s),
{
}

} // verus!
