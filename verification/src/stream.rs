//! The streaming protocols: one line of a smolpc-engine stream read into a
//! parsed line, newline framing of a byte stream, and the decoder that turns
//! an engine stream into the chunks the frontend receives.
use crate::engine::{
    deltas_view, error_message_of, extract_deltas_spec, extract_error_message, extract_token_text,
    extract_tool_call_deltas, extract_tool_calls, extract_tool_calls_spec, get_ref, opt_str_view,
    token_text_of, ToolCallDelta, ToolCallDeltaV,
};
use crate::json::{parse_json, spec_parse_json, Json, JsonV};
use crate::models::{calls_view, opt_calls_view, ToolCall, ToolCallV};
use crate::text::{
    blank, chars_of, eq_ignore_ascii_case, has_prefix, is_blank, is_ws, lemma_trim_after_trim_end,
    lemma_trim_end_append, lemma_trim_end_empty, lemma_trim_end_shape, lemma_trim_start_all_ws,
    lemma_trim_start_unique, same_ignoring_ascii_case, slice_string, starts_with, trim, trim_end,
    trim_start, trim_str,
};
use vstd::prelude::*;

verus! {

/// One line of an engine stream, read.
#[derive(Debug)]
pub struct ParsedStreamLine {
    pub content: String,
    pub done: bool,
    pub tool_calls: Option<Vec<ToolCall>>,
    pub tool_call_deltas: Vec<ToolCallDelta>,
}

/// The mathematical form of a `ParsedStreamLine`.
pub struct ParsedLineV {
    pub content: Seq<char>,
    pub done: bool,
    pub tool_calls: Option<Seq<ToolCallV>>,
    pub deltas: Seq<ToolCallDeltaV>,
}

impl View for ParsedStreamLine {
    type V = ParsedLineV;

    open spec fn view(&self) -> ParsedLineV {
        ParsedLineV {
            content: self.content@,
            done: self.done,
            tool_calls: opt_calls_view(self.tool_calls),
            deltas: deltas_view(self.tool_call_deltas@),
        }
    }
}

/// The payload of a line: trimmed, without a leading `data:`, trimmed again.
pub open spec fn payload_of(line: Seq<char>) -> Seq<char> {
    let t = trim(line);
    let rest = if has_prefix(t, "data:"@) {
        t.subrange("data:"@.len() as int, t.len() as int)
    } else {
        t
    };
    trim(rest)
}

/// The line that ends a stream.
pub open spec fn done_line() -> ParsedLineV {
    ParsedLineV { content: Seq::empty(), done: true, tool_calls: None, deltas: Seq::empty() }
}

/// What a JSON payload says: an error ends the stream with its message;
/// otherwise the token text, the `done` flag and the tool calls and deltas
/// it carries; nothing when it carries none of these.
pub open spec fn line_of_value(v: JsonV) -> Option<ParsedLineV> {
    match error_message_of(v) {
        Some(m) => Some(
            ParsedLineV {
                content: "[smolpc-engine error] "@ + m,
                done: true,
                tool_calls: None,
                deltas: Seq::empty(),
            },
        ),
        None => {
            let done = match v.at("done"@) {
                Some(x) => match x.bool_value() {
                    Some(b) => b,
                    None => false,
                },
                None => false,
            };
            let tc = extract_tool_calls_spec(v);
            let ds = extract_deltas_spec(v);
            match token_text_of(v) {
                Some(t) => Some(ParsedLineV { content: t, done, tool_calls: tc, deltas: ds }),
                None => if done || tc is Some || ds.len() > 0 {
                    Some(ParsedLineV { content: Seq::empty(), done, tool_calls: tc, deltas: ds })
                } else {
                    None
                },
            }
        },
    }
}

/// `parse_stream_line`: blank lines say nothing; `[DONE]` (in any ASCII
/// case) ends the stream; a JSON payload is read by `line_of_value`; any
/// other payload is plain text.
pub open spec fn parse_line_spec(line: Seq<char>) -> Option<ParsedLineV> {
    if trim(line).len() == 0 {
        None
    } else {
        let p = payload_of(line);
        if eq_ignore_ascii_case(p, "[DONE]"@) {
            Some(done_line())
        } else {
            match spec_parse_json(p) {
                Some(v) => line_of_value(v),
                None => Some(
                    ParsedLineV { content: p, done: false, tool_calls: None, deltas: Seq::empty() },
                ),
            }
        }
    }
}

pub open spec fn parsed_view(r: Option<ParsedStreamLine>) -> Option<ParsedLineV> {
    match r {
        Some(p) => Some(p@),
        None => None,
    }
}

/// `line_of_value`.
fn read_value(value: &Json) -> (r: Option<ParsedStreamLine>)
    ensures
        parsed_view(r) == line_of_value(value@),
{
    match extract_error_message(value) {
        Some(m) => {
            let mut content = "[smolpc-engine error] ".to_string();
            content.append(m.as_str());
            let empty: Vec<ToolCallDelta> = Vec::new();
            assert(deltas_view(empty@) =~= Seq::<ToolCallDeltaV>::empty());
            return Some(
                ParsedStreamLine { content, done: true, tool_calls: None, tool_call_deltas: empty },
            );
        },
        None => {},
    }
    let done = match value.get("done") {
        Some(x) => match x.as_bool() {
            Some(b) => b,
            None => false,
        },
        None => false,
    };
    let tool_calls = extract_tool_calls(value);
    let tool_call_deltas = extract_tool_call_deltas(value);
    match extract_token_text(value) {
        Some(content) => Some(ParsedStreamLine { content, done, tool_calls, tool_call_deltas }),
        None => {
            if done || tool_calls.is_some() || tool_call_deltas.len() > 0 {
                Some(
                    ParsedStreamLine {
                        content: String::new(),
                        done,
                        tool_calls,
                        tool_call_deltas,
                    },
                )
            } else {
                None
            }
        },
    }
}

/// `payload_of`.
pub fn stream_payload(line: &str) -> (r: String)
    ensures
        r@ == payload_of(line@),
{
    let trimmed = trim_str(line);
    let cs = chars_of(trimmed.as_str());
    let prefix = chars_of("data:");
    if starts_with(&cs, &prefix) {
        let rest = slice_string(&cs, prefix.len(), cs.len());
        trim_str(rest.as_str())
    } else {
        trim_str(trimmed.as_str())
    }
}

/// `parse_stream_line`.
pub fn parse_stream_line(line: &str) -> (r: Option<ParsedStreamLine>)
    ensures
        parsed_view(r) == parse_line_spec(line@),
{
    if blank(line) {
        return None;
    }
    let payload = stream_payload(line);
    if same_ignoring_ascii_case(payload.as_str(), "[DONE]") {
        let empty: Vec<ToolCallDelta> = Vec::new();
        assert(deltas_view(empty@) =~= Seq::<ToolCallDeltaV>::empty());
        return Some(
            ParsedStreamLine {
                content: String::new(),
                done: true,
                tool_calls: None,
                tool_call_deltas: empty,
            },
        );
    }
    match parse_json(payload.as_str()) {
        Some(value) => read_value(&value),
        None => {
            let empty: Vec<ToolCallDelta> = Vec::new();
            assert(deltas_view(empty@) =~= Seq::<ToolCallDeltaV>::empty());
            Some(
                ParsedStreamLine {
                    content: payload,
                    done: false,
                    tool_calls: None,
                    tool_call_deltas: empty,
                },
            )
        },
    }
}

/// Law: the `data:` prefix of a line is optional. A non-blank line that
/// does not itself start with `data:` (after trimming) reads the same with
/// `data:` put in front of it.
pub proof fn law_data_prefix_optional(line: Seq<char>)
    requires
        !is_blank(line),
        !has_prefix(trim(line), "data:"@),
    ensures
        parse_line_spec("data:"@ + line) == parse_line_spec(line),
{
    reveal_strlit("data:");
    let p = "data:"@;
    let x = p + line;
    lemma_trim_end_shape(line);
    if trim_end(line).len() == 0 {
        lemma_trim_start_all_ws(line);
        lemma_trim_end_empty(trim_start(line));
    }
    assert(x[0] == 'd');
    lemma_trim_start_unique(x, 0);
    assert(x.subrange(0, x.len() as int) =~= x);
    lemma_trim_end_append(p, line);
    let t = trim(x);
    assert(t == p + trim_end(line));
    assert(t.subrange(0, p.len() as int) =~= p);
    assert(t.subrange(p.len() as int, t.len() as int) =~= trim_end(line));
    lemma_trim_after_trim_end(line);
}

/// Law: a line whose JSON payload carries an error ends the stream with the
/// error's text, prefixed with `[smolpc-engine error] `, and carries no tool
/// calls.
pub proof fn law_error_line(line: Seq<char>, v: JsonV, m: Seq<char>)
    requires
        !is_blank(line),
        !eq_ignore_ascii_case(payload_of(line), "[DONE]"@),
        spec_parse_json(payload_of(line)) == Some(v),
        error_message_of(v) == Some(m),
    ensures
        parse_line_spec(line) matches Some(pl) && pl.content == "[smolpc-engine error] "@ + m
            && pl.done && pl.tool_calls is None && pl.deltas.len() == 0,
{
}

/// Law: a line whose JSON payload carries token text (and no error) reads
/// as that text, ending the stream exactly when its `done` member is `true`;
/// the tool calls and deltas it carries come with it.
pub proof fn law_token_line(line: Seq<char>, v: JsonV, t: Seq<char>)
    requires
        !is_blank(line),
        !eq_ignore_ascii_case(payload_of(line), "[DONE]"@),
        spec_parse_json(payload_of(line)) == Some(v),
        error_message_of(v) is None,
        token_text_of(v) == Some(t),
    ensures
        parse_line_spec(line) matches Some(pl) && pl.content == t && pl.done == (v.at("done"@)
            == Some(JsonV::Bool(true))) && pl.tool_calls == extract_tool_calls_spec(v)
            && pl.deltas == extract_deltas_spec(v),
{
    match v.at("done"@) {
        Some(x) => {
            if x.bool_value() == Some(true) {
                assert(x == JsonV::Bool(true));
            }
        },
        None => {},
    }
}

/// Law: a payload that is not JSON is plain text: the line reads as that
/// text, not ending the stream and carrying no tool calls.
pub proof fn law_text_line(line: Seq<char>)
    requires
        !is_blank(line),
        !eq_ignore_ascii_case(payload_of(line), "[DONE]"@),
        spec_parse_json(payload_of(line)) is None,
    ensures
        parse_line_spec(line) == Some(
            ParsedLineV {
                content: payload_of(line),
                done: false,
                tool_calls: None,
                deltas: Seq::empty(),
            },
        ),
{
}

/// Law: a blank line reads as nothing, and a line whose payload is
/// `[DONE]`, in any ASCII case, ends the stream with no text and no tool
/// calls.
pub proof fn law_blank_and_done_lines(line: Seq<char>)
    ensures
        is_blank(line) ==> parse_line_spec(line) is None,
        !is_blank(line) && eq_ignore_ascii_case(payload_of(line), "[DONE]"@) ==> parse_line_spec(
            line,
        ) == Some(
            ParsedLineV { content: Seq::empty(), done: true, tool_calls: None, deltas: Seq::empty() },
        ),
{
}

} // verus!
