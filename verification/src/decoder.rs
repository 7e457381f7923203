//! The smolpc-engine stream decoder: bytes in, chunks for the frontend out.
//! Each complete line is read (`parse_stream_line`); tool calls and their
//! deltas are collected; the first chunk that says `done` ends the stream,
//! and the end of input yields a final `done` chunk carrying the assembled
//! tool calls.
use crate::accumulator::{
    absorb_all, absorb_complete, finalize_spec, law_absorb_concat, PendingV, ToolCallAccumulator,
};
use crate::engine::{deltas_view, ToolCallDeltaV};
use crate::framing::{lemma_split_append, split_lines, strings_view, LineBuffer};
use crate::models::{calls_view, opt_calls_view, ToolCall, ToolCallV};
use crate::stream::{parse_line_spec, parse_stream_line, ParsedLineV};
use vstd::prelude::*;
use vstd::utf8::{decode_first_scalar, decode_utf8, pop_first_scalar, valid_utf8};

verus! {

/// A chunk of a decoded engine stream.
#[derive(Debug)]
pub struct EngineStreamChunk {
    pub content: String,
    pub done: bool,
    pub tool_calls: Option<Vec<ToolCall>>,
}

/// The mathematical form of an `EngineStreamChunk`.
pub struct ChunkV {
    pub content: Seq<char>,
    pub done: bool,
    pub tool_calls: Option<Seq<ToolCallV>>,
}

impl View for EngineStreamChunk {
    type V = ChunkV;

    open spec fn view(&self) -> ChunkV {
        ChunkV { content: self.content@, done: self.done, tool_calls: opt_calls_view(self.tool_calls) }
    }
}

pub open spec fn chunks_view(v: Seq<EngineStreamChunk>) -> Seq<ChunkV> {
    v.map_values(|c: EngineStreamChunk| c@)
}

pub open spec fn opt_chunk_view(c: Option<EngineStreamChunk>) -> Option<ChunkV> {
    match c {
        Some(c) => Some(c@),
        None => None,
    }
}

/// The tool calls a parsed line absorbs into the pending calls. A line whose
/// items arrive as deltas is absorbed through its deltas alone, so that the
/// pieces of a call's arguments are joined once each; a line with complete
/// calls and no deltas stores its complete calls.
pub open spec fn absorb_line(acc: Map<usize, PendingV>, pl: ParsedLineV) -> Map<usize, PendingV> {
    if pl.deltas.len() > 0 {
        absorb_all(acc, pl.deltas)
    } else {
        match pl.tool_calls {
            Some(cs) => absorb_complete(acc, cs, cs.len() as int),
            None => acc,
        }
    }
}

/// One line of the stream: the pending calls after it, and the chunk it
/// yields. A chunk carries the line's own complete calls, or, when it ends
/// the stream, the calls assembled so far.
pub open spec fn line_step(acc: Map<usize, PendingV>, line: Seq<char>) -> (Map<usize, PendingV>, Option<ChunkV>) {
    match parse_line_spec(line) {
        None => (acc, None),
        Some(pl) => {
            let acc2 = absorb_line(acc, pl);
            let calls = if pl.tool_calls is Some {
                pl.tool_calls
            } else if pl.done {
                finalize_spec(acc2)
            } else {
                None
            };
            (acc2, Some(ChunkV { content: pl.content, done: pl.done, tool_calls: calls }))
        },
    }
}

/// Lines in order until one yields a `done` chunk: the pending calls after
/// them, the chunks yielded, and whether the stream ended.
pub open spec fn run_lines(acc: Map<usize, PendingV>, lines: Seq<Seq<char>>) -> (
    Map<usize, PendingV>,
    Seq<ChunkV>,
    bool,
)
    decreases lines.len(),
{
    if lines.len() == 0 {
        (acc, Seq::empty(), false)
    } else {
        let (acc1, out) = line_step(acc, lines[0]);
        match out {
            Some(c) => if c.done {
                (acc1, seq![c], true)
            } else {
                let rest = run_lines(acc1, lines.subrange(1, lines.len() as int));
                (rest.0, seq![c] + rest.1, rest.2)
            },
            None => run_lines(acc1, lines.subrange(1, lines.len() as int)),
        }
    }
}

/// The final chunk at the end of input: empty, `done`, with the calls
/// assembled so far.
pub open spec fn last_chunk(acc: Map<usize, PendingV>) -> ChunkV {
    ChunkV { content: Seq::empty(), done: true, tool_calls: finalize_spec(acc) }
}

/// The mathematical form of the decoder: text waiting for its newline, the
/// pending tool calls, and whether the stream has ended.
pub struct DecoderV {
    pub buffer: Seq<char>,
    pub acc: Map<usize, PendingV>,
    pub finished: bool,
}

/// Text received: the lines it completes are run; once the stream has
/// ended, nothing more is read.
pub open spec fn push_spec(st: DecoderV, text: Seq<char>) -> (DecoderV, Seq<ChunkV>) {
    if st.finished {
        (st, Seq::empty())
    } else {
        let (lines, rest) = split_lines(st.buffer + text);
        let (acc, cs, fin) = run_lines(st.acc, lines);
        (
            DecoderV {
                buffer: if fin {
                    Seq::empty()
                } else {
                    rest
                },
                acc,
                finished: fin,
            },
            cs,
        )
    }
}

/// Bytes received: valid UTF-8 is pushed as its text; a piece that is not
/// valid UTF-8 is dropped whole.
pub open spec fn push_bytes_spec(st: DecoderV, bytes: Seq<u8>) -> (DecoderV, Seq<ChunkV>) {
    if valid_utf8(bytes) {
        push_spec(st, decode_utf8(bytes))
    } else {
        (st, Seq::empty())
    }
}

/// The end of input: the unfinished last line is read, and unless it ended
/// the stream, the final chunk follows.
pub open spec fn finish_spec(st: DecoderV) -> (DecoderV, Seq<ChunkV>) {
    if st.finished {
        (st, Seq::empty())
    } else {
        let (acc1, out) = line_step(st.acc, st.buffer);
        let end = DecoderV { buffer: Seq::empty(), acc: acc1, finished: true };
        match out {
            Some(c) => if c.done {
                (end, seq![c])
            } else {
                (end, seq![c, last_chunk(acc1)])
            },
            None => (end, seq![last_chunk(acc1)]),
        }
    }
}

/// Only the last chunk of a run may be `done`, and the run ended exactly
/// when it is.
pub open spec fn well_ended(cs: Seq<ChunkV>, fin: bool) -> bool {
    &&& forall|i: int| 0 <= i < cs.len() - 1 ==> !(#[trigger] cs[i]).done
    &&& fin <==> (cs.len() > 0 && cs.last().done)
}

pub proof fn lemma_run_well_ended(acc: Map<usize, PendingV>, lines: Seq<Seq<char>>)
    ensures
        well_ended(run_lines(acc, lines).1, run_lines(acc, lines).2),
    decreases lines.len(),
{
    if lines.len() > 0 {
        let (acc1, out) = line_step(acc, lines[0]);
        let tail = lines.subrange(1, lines.len() as int);
        lemma_run_well_ended(acc1, tail);
        match out {
            Some(c) => if !c.done {
                let rest = run_lines(acc1, tail);
                let cs = seq![c] + rest.1;
                assert forall|i: int| 0 <= i < cs.len() - 1 implies !(#[trigger] cs[i]).done by {
                    if i > 0 {
                        assert(cs[i] == rest.1[i - 1]);
                    }
                }
                if rest.1.len() > 0 {
                    assert(cs.last() == rest.1.last());
                }
            },
            None => {},
        }
    }
}

/// Running `l1 + l2` is running `l1`, then, unless the stream ended, `l2`.
pub proof fn lemma_run_concat(acc: Map<usize, PendingV>, l1: Seq<Seq<char>>, l2: Seq<Seq<char>>)
    ensures
        ({
            let r1 = run_lines(acc, l1);
            let r2 = run_lines(r1.0, l2);
            run_lines(acc, l1 + l2) == if r1.2 {
                r1
            } else {
                (r2.0, r1.1 + r2.1, r2.2)
            }
        }),
    decreases l1.len(),
{
    if l1.len() == 0 {
        assert(l1 + l2 =~= l2);
        assert(Seq::<ChunkV>::empty() + run_lines(acc, l2).1 =~= run_lines(acc, l2).1);
    } else {
        let all = l1 + l2;
        let t1 = l1.subrange(1, l1.len() as int);
        assert(all[0] == l1[0]);
        assert(all.subrange(1, all.len() as int) =~= t1 + l2);
        let (acc1, out) = line_step(acc, l1[0]);
        lemma_run_concat(acc1, t1, l2);
        match out {
            Some(c) => if !c.done {
                let r1 = run_lines(acc1, t1);
                let r2 = run_lines(r1.0, l2);
                assert(seq![c] + r1.1 + r2.1 =~= seq![c] + (r1.1 + r2.1));
            },
            None => {},
        }
    }
}

/// The line reads as a line that is not `done` and carries tool-call deltas.
pub open spec fn is_delta_line(line: Seq<char>) -> bool {
    match parse_line_spec(line) {
        Some(pl) => !pl.done && pl.deltas.len() > 0,
        None => false,
    }
}

/// Every line reads as a line that is not `done` and carries tool-call
/// deltas.
pub open spec fn all_delta_lines(lines: Seq<Seq<char>>) -> bool {
    forall|i: int| 0 <= i < lines.len() ==> #[trigger] is_delta_line(lines[i])
}

/// The deltas the lines carry, in order.
pub open spec fn deltas_of_lines(lines: Seq<Seq<char>>) -> Seq<ToolCallDeltaV>
    decreases lines.len(),
{
    if lines.len() == 0 {
        Seq::empty()
    } else {
        let here = match parse_line_spec(lines[0]) {
            Some(pl) => pl.deltas,
            None => Seq::empty(),
        };
        here + deltas_of_lines(lines.subrange(1, lines.len() as int))
    }
}

/// Law: tool-call arguments sent in pieces are reassembled. Over lines that
/// carry deltas, the pending calls become what absorbing all their deltas
/// in order gives (each piece joined once), and the stream does not end.
pub proof fn law_delta_lines_reassemble(acc: Map<usize, PendingV>, lines: Seq<Seq<char>>)
    requires
        all_delta_lines(lines),
    ensures
        run_lines(acc, lines).0 == absorb_all(acc, deltas_of_lines(lines)),
        !run_lines(acc, lines).2,
    decreases lines.len(),
{
    if lines.len() > 0 {
        let tail = lines.subrange(1, lines.len() as int);
        assert(is_delta_line(lines[0]));
        let pl = parse_line_spec(lines[0])->0;
        assert forall|i: int| 0 <= i < tail.len() implies #[trigger] is_delta_line(tail[i]) by {
            assert(tail[i] == lines[i + 1]);
            assert(is_delta_line(lines[i + 1]));
        }
        law_delta_lines_reassemble(absorb_all(acc, pl.deltas), tail);
        law_absorb_concat(acc, pl.deltas, deltas_of_lines(tail));
    }
}

/// Law: every line that reads as something yields exactly one chunk, and
/// that chunk carries the line's own text and `done` flag, whether or not
/// the line ends the stream; a line's complete tool calls come with its
/// chunk. A line that reads as nothing yields no chunk.
pub proof fn law_line_chunk(acc: Map<usize, PendingV>, line: Seq<char>)
    ensures
        match parse_line_spec(line) {
            None => line_step(acc, line) == (acc, None::<ChunkV>),
            Some(pl) => line_step(acc, line).1 matches Some(c) && c.content == pl.content && c.done
                == pl.done && (pl.tool_calls is Some ==> c.tool_calls == pl.tool_calls),
        },
{
}

/// A single line without a newline, followed by one, splits into just that
/// line.
pub proof fn lemma_split_one_line(line: Seq<char>)
    requires
        forall|i: int| 0 <= i < line.len() ==> line[i] != '\n',
    ensures
        split_lines(line + "\n"@) == (seq![line], Seq::<char>::empty()),
{
    reveal_strlit("\n");
    let s = line + "\n"@;
    assert forall|i: int| 0 <= i < line.len() implies s[i] != '\n' by {
        assert(s[i] == line[i]);
    }
    crate::framing::lemma_first_newline_at(s, line.len() as int);
    assert(s.subrange(0, line.len() as int) =~= line);
    assert(s.subrange(line.len() as int + 1, s.len() as int) =~= Seq::<char>::empty());
    assert(split_lines(Seq::<char>::empty()).0 =~= Seq::<Seq<char>>::empty());
    assert(seq![line] + Seq::<Seq<char>>::empty() =~= seq![line]);
}

/// Law: a decoder waiting for a new line that receives one complete line
/// yields one chunk with that line's text and `done` flag when the line
/// reads as something, and nothing otherwise; it has then ended exactly when
/// the line said `done`.
pub proof fn law_push_one_line(st: DecoderV, line: Seq<char>)
    requires
        !st.finished,
        st.buffer.len() == 0,
        forall|i: int| 0 <= i < line.len() ==> line[i] != '\n',
    ensures
        ({
            let (st2, cs) = push_spec(st, line + "\n"@);
            match parse_line_spec(line) {
                None => cs.len() == 0 && !st2.finished,
                Some(pl) => cs.len() == 1 && cs[0].content == pl.content && cs[0].done == pl.done
                    && st2.finished == pl.done,
            }
        }),
{
    lemma_split_one_line(line);
    assert(st.buffer + (line + "\n"@) =~= line + "\n"@);
    let ls = seq![line];
    assert(ls.subrange(1, ls.len() as int) =~= Seq::<Seq<char>>::empty());
    assert(ls[0] == line);
    law_line_chunk(st.acc, line);
    let (acc1, out) = line_step(st.acc, line);
    let empty = Seq::<Seq<char>>::empty();
    assert(run_lines(acc1, empty) == (acc1, Seq::<ChunkV>::empty(), false));
    match out {
        Some(c) => {
            if !c.done {
                assert(seq![c] + Seq::<ChunkV>::empty() =~= seq![c]);
                assert(run_lines(st.acc, ls) == (acc1, seq![c], false));
            } else {
                assert(run_lines(st.acc, ls) == (acc1, seq![c], true));
            }
        },
        None => {
            assert(run_lines(st.acc, ls) == run_lines(acc1, empty));
        },
    }
}

/// `std::str::from_utf8`, owned. Claimed: text comes back exactly when the
/// bytes are valid UTF-8, and it is their decoding.
#[verifier::external_body]
pub fn utf8_text(bytes: &[u8]) -> (r: Option<String>)
    ensures
        r is Some <==> valid_utf8(bytes@),
        r matches Some(s) ==> s@ == decode_utf8(bytes@),
{
    match std::str::from_utf8(bytes) {
        Ok(s) => Some(s.to_string()),
        Err(_) => None,
    }
}

/// One line read, its calls absorbed, its chunk made.
pub fn decode_line(acc: &mut ToolCallAccumulator, line: &str) -> (r: Option<EngineStreamChunk>)
    ensures
        (final(acc)@, opt_chunk_view(r)) == line_step(old(acc)@, line@),
{
    match parse_stream_line(line) {
        None => None,
        Some(pl) => {
            if pl.tool_call_deltas.len() > 0 {
                acc.absorb_deltas(pl.tool_call_deltas.as_slice());
            } else {
                match &pl.tool_calls {
                    Some(calls) => {
                        acc.absorb_complete_calls(calls.as_slice());
                    },
                    None => {},
                }
            }
            let done = pl.done;
            let tool_calls = if pl.tool_calls.is_some() {
                pl.tool_calls
            } else if done {
                acc.finalize()
            } else {
                None
            };
            Some(EngineStreamChunk { content: pl.content, done, tool_calls })
        },
    }
}

/// Decodes a smolpc-engine stream as it arrives.
#[derive(Debug)]
pub struct EngineStreamDecoder {
    lines: LineBuffer,
    accumulator: ToolCallAccumulator,
    finished: bool,
}

impl View for EngineStreamDecoder {
    type V = DecoderV;

    closed spec fn view(&self) -> DecoderV {
        DecoderV { buffer: self.lines@, acc: self.accumulator@, finished: self.finished }
    }
}

impl EngineStreamDecoder {
    /// A decoder that has received nothing.
    pub fn new() -> (r: EngineStreamDecoder)
        ensures
            r@ == (DecoderV { buffer: Seq::empty(), acc: Map::empty(), finished: false }),
    {
        EngineStreamDecoder {
            lines: LineBuffer::new(),
            accumulator: ToolCallAccumulator::new(),
            finished: false,
        }
    }

    /// Whether the stream has ended.
    pub fn is_finished(&self) -> (r: bool)
        ensures
            r == self@.finished,
    {
        self.finished
    }

    /// Text received; the chunks it completes.
    pub fn push_text(&mut self, text: &str) -> (r: Vec<EngineStreamChunk>)
        ensures
            (final(self)@, chunks_view(r@)) == push_spec(old(self)@, text@),
            well_ended(chunks_view(r@), final(self)@.finished && !old(self)@.finished),
    {
        let mut out: Vec<EngineStreamChunk> = Vec::new();
        if self.finished {
            assert(chunks_view(out@) =~= Seq::<ChunkV>::empty());
            return out;
        }
        let ghost st = self@;
        let lines = self.lines.push(text);
        let ghost ls = strings_view(lines@);
        proof {
            lemma_run_well_ended(st.acc, ls);
            assert(ls.subrange(0, ls.len() as int) =~= ls);
            assert(chunks_view(out@) + run_lines(st.acc, ls).1 =~= run_lines(st.acc, ls).1);
        }
        let mut i: usize = 0;
        while i < lines.len()
            invariant
                i <= lines.len(),
                ls == strings_view(lines@),
                ls.len() == lines.len(),
                st == old(self)@,
                !st.finished,
                !self.finished,
                self.lines@ == split_lines(st.buffer + text@).1,
                ls == split_lines(st.buffer + text@).0,
                ({
                    let whole = run_lines(st.acc, ls);
                    let rest = run_lines(self.accumulator@, ls.subrange(i as int, ls.len() as int));
                    &&& whole.0 == rest.0
                    &&& whole.1 == chunks_view(out@) + rest.1
                    &&& whole.2 == rest.2
                }),
                forall|j: int| 0 <= j < out.len() ==> !(#[trigger] out@[j]).done,
            decreases lines.len() - i,
        {
            let ghost sub = ls.subrange(i as int, ls.len() as int);
            proof {
                assert(sub[0] == lines@[i as int]@);
                assert(sub.subrange(1, sub.len() as int) =~= ls.subrange(i + 1, ls.len() as int));
            }
            let ghost before = chunks_view(out@);
            let ghost acc_before = self.accumulator@;
            match decode_line(&mut self.accumulator, lines[i].as_str()) {
                Some(c) => {
                    let done = c.done;
                    out.push(c);
                    proof {
                        assert(chunks_view(out@) =~= before.push(out@.last()@));
                    }
                    if done {
                        self.finished = true;
                        let _ = self.lines.take_rest();
                        proof {
                            let c = out@.last()@;
                            assert(line_step(acc_before, sub[0]) == (self.accumulator@, Some(c)));
                            assert(run_lines(acc_before, sub) == (self.accumulator@, seq![c], true));
                            assert(chunks_view(out@) =~= before + seq![c]);
                            let cs = chunks_view(out@);
                            assert forall|j: int| 0 <= j < cs.len() - 1 implies !(#[trigger] cs[j]).done by {
                                assert(cs[j] == out@[j]@);
                            }
                            assert(cs.last() == c);
                            assert(self@.buffer == Seq::<char>::empty());
                        }
                        return out;
                    }
                    proof {
                        let rest = run_lines(
                            self.accumulator@,
                            ls.subrange(i + 1, ls.len() as int),
                        );
                        assert(chunks_view(out@) + rest.1 =~= before + (seq![out@.last()@]
                            + rest.1));
                    }
                },
                None => {},
            }
            i = i + 1;
        }
        proof {
            assert(ls.subrange(i as int, ls.len() as int) =~= Seq::<Seq<char>>::empty());
            assert(chunks_view(out@) + Seq::<ChunkV>::empty() =~= chunks_view(out@));
        }
        out
    }

    /// Bytes received: UTF-8 text is pushed, anything else is dropped.
    pub fn push_bytes(&mut self, bytes: &[u8]) -> (r: Vec<EngineStreamChunk>)
        ensures
            (final(self)@, chunks_view(r@)) == push_bytes_spec(old(self)@, bytes@),
    {
        match utf8_text(bytes) {
            Some(text) => self.push_text(text.as_str()),
            None => {
                let out: Vec<EngineStreamChunk> = Vec::new();
                assert(chunks_view(out@) =~= Seq::<ChunkV>::empty());
                out
            },
        }
    }

    /// The end of input; the chunks it completes.
    pub fn finish(&mut self) -> (r: Vec<EngineStreamChunk>)
        ensures
            (final(self)@, chunks_view(r@)) == finish_spec(old(self)@),
            final(self)@.finished,
            !old(self)@.finished ==> well_ended(chunks_view(r@), true),
    {
        let mut out: Vec<EngineStreamChunk> = Vec::new();
        if self.finished {
            assert(chunks_view(out@) =~= Seq::<ChunkV>::empty());
            return out;
        }
        self.finished = true;
        let rest = self.lines.take_rest();
        match decode_line(&mut self.accumulator, rest.as_str()) {
            Some(c) => {
                let done = c.done;
                out.push(c);
                if done {
                    assert(chunks_view(out@) =~= seq![out@[0]@]);
                    return out;
                }
            },
            None => {},
        }
        let tool_calls = self.accumulator.finalize();
        out.push(EngineStreamChunk { content: String::new(), done: true, tool_calls });
        proof {
            if out.len() == 2 {
                assert(chunks_view(out@) =~= seq![out@[0]@, out@[1]@]);
            } else {
                assert(chunks_view(out@) =~= seq![out@[0]@]);
            }
        }
        out
    }
}

/// Law: how a stream is cut into pieces does not matter. Pushing `a` and
/// then `b` leaves the decoder as pushing `a + b` does, and yields the same
/// chunks, in the same order.
pub proof fn law_push_concat(st: DecoderV, a: Seq<char>, b: Seq<char>)
    ensures
        ({
            let (s1, c1) = push_spec(st, a);
            let (s2, c2) = push_spec(s1, b);
            push_spec(st, a + b) == (s2, c1 + c2)
        }),
{
    let (s1, c1) = push_spec(st, a);
    let (s2, c2) = push_spec(s1, b);
    if st.finished {
        assert(Seq::<ChunkV>::empty() + Seq::<ChunkV>::empty() =~= Seq::<ChunkV>::empty());
    } else {
        let x = st.buffer + a;
        assert(st.buffer + (a + b) =~= x + b);
        lemma_split_append(x, b);
        let (l1, r1) = split_lines(x);
        let (l2, r2) = split_lines(r1 + b);
        lemma_run_concat(st.acc, l1, l2);
        let run1 = run_lines(st.acc, l1);
        if run1.2 {
            assert(c1 + Seq::<ChunkV>::empty() =~= c1);
        }
    }
}

/// Two valid UTF-8 pieces joined are valid UTF-8, and decode to the two
/// decodings joined.
pub proof fn lemma_decode_concat(a: Seq<u8>, b: Seq<u8>)
    requires
        valid_utf8(a),
        valid_utf8(b),
    ensures
        valid_utf8(a + b),
        decode_utf8(a + b) == decode_utf8(a) + decode_utf8(b),
    decreases a.len(),
{
    vstd::utf8::valid_utf8_concat(a, b);
    if a.len() == 0 {
        assert(a + b =~= b);
        assert(decode_utf8(a) + decode_utf8(b) =~= decode_utf8(b));
    } else {
        let rest = pop_first_scalar(a);
        assert(rest.len() < a.len());
        lemma_decode_concat(rest, b);
        assert(pop_first_scalar(a + b) =~= rest + b);
        assert(decode_first_scalar(a + b) == decode_first_scalar(a));
        assert(decode_utf8(a + b) =~= decode_utf8(a) + decode_utf8(b));
    }
}

/// Law: how a byte stream is cut into valid UTF-8 pieces does not matter.
/// Pushing `a` and then `b` leaves the decoder as pushing `a + b` does, and
/// yields the same chunks, in the same order.
pub proof fn law_push_bytes_concat(st: DecoderV, a: Seq<u8>, b: Seq<u8>)
    requires
        valid_utf8(a),
        valid_utf8(b),
    ensures
        ({
            let (s1, c1) = push_bytes_spec(st, a);
            let (s2, c2) = push_bytes_spec(s1, b);
            push_bytes_spec(st, a + b) == (s2, c1 + c2)
        }),
{
    lemma_decode_concat(a, b);
    law_push_concat(st, decode_utf8(a), decode_utf8(b));
}

/// Law: a stream that has ended stays ended. Once text has produced a
/// `done` chunk, further text and the end of input produce no chunk and
/// change nothing.
pub proof fn law_nothing_after_done(st: DecoderV, a: Seq<char>, b: Seq<char>)
    requires
        push_spec(st, a).0.finished,
    ensures
        push_spec(push_spec(st, a).0, b) == (push_spec(st, a).0, Seq::<ChunkV>::empty()),
        finish_spec(push_spec(st, a).0) == (push_spec(st, a).0, Seq::<ChunkV>::empty()),
{
}

} // verus!
