//! Assembly of tool calls that a stream delivers in pieces. Pending calls
//! are kept in a `BTreeMap` by position, each with the latest non-blank
//! name seen for it and the concatenation of its argument pieces; they are
//! finished in increasing order of position.
use crate::engine::{deltas_view, opt_str_view, ToolCallDelta, ToolCallDeltaV};
use crate::json::{empty_object_v, parse_json, spec_parse_json, Json, JsonV};
use crate::models::{calls_view, ToolCall, ToolCallFunction, ToolCallV};
use crate::text::{blank, trim, trim_str};
use std::collections::BTreeMap;
use vstd::prelude::*;
use vstd::std_specs::btree::{increasing_seq, key_obeys_cmp_spec};
use vstd::std_specs::cmp::OrdSpec;
use vstd::std_specs::iter::IteratorSpec;

verus! {

/// A tool call being assembled.
#[derive(Debug)]
pub struct PendingToolCall {
    pub name: Option<String>,
    pub arguments_buffer: String,
}

/// The mathematical form of a pending call.
pub struct PendingV {
    pub name: Option<Seq<char>>,
    pub buffer: Seq<char>,
}

pub open spec fn pending_view(p: PendingToolCall) -> PendingV {
    PendingV { name: opt_str_view(p.name), buffer: p.arguments_buffer@ }
}

/// What a position holds before anything arrives for it.
pub open spec fn empty_pending() -> PendingV {
    PendingV { name: None, buffer: Seq::empty() }
}

/// The call at `idx`, or an empty one.
pub open spec fn entry_or_empty(es: Map<usize, PendingV>, idx: usize) -> PendingV {
    if es.contains_key(idx) {
        es[idx]
    } else {
        empty_pending()
    }
}

/// One delta absorbed: a non-blank name (trimmed) replaces the call's name,
/// an argument piece is appended to its buffer.
pub open spec fn absorb_delta(es: Map<usize, PendingV>, d: ToolCallDeltaV) -> Map<usize, PendingV> {
    let cur = entry_or_empty(es, d.index);
    let name = match d.name {
        Some(n) => if trim(n).len() > 0 {
            Some(trim(n))
        } else {
            cur.name
        },
        None => cur.name,
    };
    let buffer = match d.arguments_chunk {
        Some(c) => cur.buffer + c,
        None => cur.buffer,
    };
    es.insert(d.index, PendingV { name, buffer })
}

/// Deltas absorbed in order.
pub open spec fn absorb_all(es: Map<usize, PendingV>, ds: Seq<ToolCallDeltaV>) -> Map<
    usize,
    PendingV,
>
    decreases ds.len(),
{
    if ds.len() == 0 {
        es
    } else {
        absorb_delta(absorb_all(es, ds.drop_last()), ds.last())
    }
}

/// The text a complete call's arguments leave in the buffer: a string as it
/// is, any other value as its compact JSON text.
pub open spec fn argument_text(a: JsonV) -> Seq<char> {
    match a {
        JsonV::Str(s) => s,
        _ => a.compact_text(),
    }
}

/// The first `n` complete calls stored at positions `0..n`.
pub open spec fn absorb_complete(es: Map<usize, PendingV>, calls: Seq<ToolCallV>, n: int) -> Map<
    usize,
    PendingV,
>
    decreases n,
{
    if n <= 0 {
        es
    } else {
        absorb_complete(es, calls, n - 1).insert(
            (n - 1) as usize,
            PendingV { name: Some(calls[n - 1].name), buffer: argument_text(calls[n - 1].arguments) },
        )
    }
}

/// `parse_arguments_buffer`: empty (after trimming) arguments are `{}`;
/// otherwise they must parse as JSON.
pub open spec fn arguments_value(buffer: Seq<char>) -> Option<JsonV> {
    if trim(buffer).len() == 0 {
        Some(empty_object_v())
    } else {
        spec_parse_json(trim(buffer))
    }
}

/// The call a pending entry yields, if it is complete: a non-blank name and
/// arguments that parse.
pub open spec fn finished_call(e: PendingV) -> Option<ToolCallV> {
    match e.name {
        Some(n) => if trim(n).len() == 0 {
            None
        } else {
            match arguments_value(e.buffer) {
                Some(a) => Some(ToolCallV { name: trim(n), arguments: a }),
                None => None,
            }
        },
        None => None,
    }
}

/// Positions strictly increase along the sequence.
pub open spec fn increasing(ks: Seq<usize>) -> bool {
    forall|i: int, j: int| 0 <= i < j < ks.len() ==> ks[i] < ks[j]
}

/// The positions that hold a pending call, in increasing order.
pub open spec fn positions(es: Map<usize, PendingV>) -> Seq<usize> {
    choose|ks: Seq<usize>| increasing(ks) && ks.to_set() == es.dom()
}

/// The complete calls among the calls at the first `n` of the positions
/// `ks`, in order.
pub open spec fn finished_calls(es: Map<usize, PendingV>, ks: Seq<usize>, n: int) -> Seq<ToolCallV>
    decreases n,
{
    if n <= 0 {
        Seq::empty()
    } else {
        let before = finished_calls(es, ks, n - 1);
        match finished_call(es[ks[n - 1]]) {
            Some(c) => before.push(c),
            None => before,
        }
    }
}

/// `finalize`: the complete calls in increasing order of position, or
/// nothing when there are none.
pub open spec fn finalize_spec(es: Map<usize, PendingV>) -> Option<Seq<ToolCallV>> {
    let ks = positions(es);
    let cs = finished_calls(es, ks, ks.len() as int);
    if cs.len() == 0 {
        None
    } else {
        Some(cs)
    }
}

/// Law: absorbing deltas in two batches is absorbing them all at once, so
/// the pieces of a call may arrive spread over any number of lines.
pub proof fn law_absorb_concat(
    es: Map<usize, PendingV>,
    a: Seq<ToolCallDeltaV>,
    b: Seq<ToolCallDeltaV>,
)
    ensures
        absorb_all(es, a + b) == absorb_all(absorb_all(es, a), b),
    decreases b.len(),
{
    if b.len() == 0 {
        assert(a + b =~= a);
    } else {
        law_absorb_concat(es, a, b.drop_last());
        assert((a + b).drop_last() =~= a + b.drop_last());
        assert((a + b).last() == b.last());
    }
}

/// The argument pieces the deltas carry, joined in order.
pub open spec fn chunks_text(ds: Seq<ToolCallDeltaV>) -> Seq<char>
    decreases ds.len(),
{
    if ds.len() == 0 {
        Seq::empty()
    } else {
        chunks_text(ds.drop_last()) + match ds.last().arguments_chunk {
            Some(c) => c,
            None => Seq::empty(),
        }
    }
}

/// Law: deltas for one position join their argument pieces, in order, after
/// what that position held, and leave every other position as it was.
pub proof fn law_deltas_join_pieces(es: Map<usize, PendingV>, ds: Seq<ToolCallDeltaV>, idx: usize)
    requires
        forall|i: int| 0 <= i < ds.len() ==> (#[trigger] ds[i]).index == idx,
    ensures
        entry_or_empty(absorb_all(es, ds), idx).buffer == entry_or_empty(es, idx).buffer
            + chunks_text(ds),
        ds.len() > 0 ==> absorb_all(es, ds).contains_key(idx),
        forall|k: usize|
            k != idx ==> (#[trigger] absorb_all(es, ds).contains_key(k) <==> es.contains_key(k))
                && (es.contains_key(k) ==> absorb_all(es, ds)[k] == es[k]),
    decreases ds.len(),
{
    if ds.len() == 0 {
        assert(entry_or_empty(es, idx).buffer + Seq::<char>::empty() =~= entry_or_empty(
            es,
            idx,
        ).buffer);
    } else {
        let init = ds.drop_last();
        assert forall|i: int| 0 <= i < init.len() implies (#[trigger] init[i]).index == idx by {
            assert(init[i] == ds[i]);
        }
        law_deltas_join_pieces(es, init, idx);
        assert(ds.last() == ds[ds.len() - 1]);
        let before = entry_or_empty(absorb_all(es, init), idx).buffer;
        let piece = match ds.last().arguments_chunk {
            Some(c) => c,
            None => Seq::<char>::empty(),
        };
        assert(before + piece =~= entry_or_empty(es, idx).buffer + (chunks_text(init) + piece));
        assert(before + Seq::<char>::empty() =~= before);
    }
}

/// Law: a pending call with a non-blank name whose arguments parse is
/// finished as its trimmed name with those arguments; two such calls are
/// finished both, the lower position first; an entry without a name, with a
/// blank one, or whose arguments do not parse is left out.
pub proof fn law_finalize_two(i: usize, a: PendingV, j: usize, b: PendingV)
    requires
        i < j,
    ensures
        finalize_spec(map![i => a]) == match finished_call(a) {
            Some(c) => Some(seq![c]),
            None => None,
        },
        ({
            let both = map![i => a, j => b];
            finalize_spec(both) == match (finished_call(a), finished_call(b)) {
                (Some(x), Some(y)) => Some(seq![x, y]),
                (Some(x), None) => Some(seq![x]),
                (None, Some(y)) => Some(seq![y]),
                (None, None) => None,
            }
        }),
        a.name is None ==> finished_call(a) is None,
        a.name matches Some(n) ==> (trim(n).len() == 0 ==> finished_call(a) is None) && (trim(
            n,
        ).len() > 0 ==> finished_call(a) == match arguments_value(a.buffer) {
            Some(args) => Some(ToolCallV { name: trim(n), arguments: args }),
            None => None,
        }),
{
    let one = map![i => a];
    let s1 = seq![i];
    assert(increasing(s1));
    assert(s1.to_set() =~= one.dom()) by {
        assert forall|x: usize| s1.to_set().contains(x) <==> one.dom().contains(x) by {
            if x == i {
                assert(s1[0] == x);
            }
        }
    }
    let p1 = positions(one);
    lemma_increasing_unique(p1, s1);
    assert(one[i] == a);
    assert(s1[0] == i);
    assert(finished_calls(one, s1, 0) == Seq::<ToolCallV>::empty());
    assert(finished_calls(one, s1, 1) == finished_calls(one, s1, 0) + match finished_call(a) {
        Some(c) => seq![c],
        None => Seq::<ToolCallV>::empty(),
    });
    match finished_call(a) {
        Some(x) => {
            assert(finished_calls(one, s1, 1) =~= seq![x]);
        },
        None => {
            assert(finished_calls(one, s1, 1) =~= Seq::<ToolCallV>::empty());
        },
    }
    let both = map![i => a, j => b];
    let s2 = seq![i, j];
    assert(increasing(s2));
    assert(s2.to_set() =~= both.dom()) by {
        assert forall|x: usize| s2.to_set().contains(x) <==> both.dom().contains(x) by {
            if x == i {
                assert(s2[0] == x);
            }
            if x == j {
                assert(s2[1] == x);
            }
        }
    }
    let p2 = positions(both);
    lemma_increasing_unique(p2, s2);
    assert(both[i] == a);
    assert(both[j] == b);
    assert(finished_calls(both, s2, 1) == finished_calls(both, s2, 0) + match finished_call(a) {
        Some(c) => seq![c],
        None => Seq::empty(),
    });
    match (finished_call(a), finished_call(b)) {
        (Some(x), Some(y)) => {
            assert(finished_calls(both, s2, 2) =~= seq![x, y]);
        },
        (Some(x), None) => {
            assert(finished_calls(both, s2, 2) =~= seq![x]);
        },
        (None, Some(y)) => {
            assert(finished_calls(both, s2, 2) =~= seq![y]);
        },
        (None, None) => {
            assert(finished_calls(both, s2, 2) =~= Seq::<ToolCallV>::empty());
        },
    }
}

/// Two increasing sequences of positions with the same elements are the
/// same sequence.
pub proof fn lemma_increasing_unique(a: Seq<usize>, b: Seq<usize>)
    requires
        increasing(a),
        increasing(b),
        a.to_set() == b.to_set(),
    ensures
        a == b,
    decreases a.len(),
{
    if a.len() == 0 || b.len() == 0 {
        if a.len() > 0 {
            assert(a.to_set().contains(a[0]));
        }
        if b.len() > 0 {
            assert(b.to_set().contains(b[0]));
        }
        assert(a =~= b);
    } else {
        assert(a.to_set().contains(a[0]));
        assert(b.to_set().contains(b[0]));
        let ja = choose|j: int| 0 <= j < b.len() && b[j] == a[0];
        let jb = choose|j: int| 0 <= j < a.len() && a[j] == b[0];
        assert(b[0] <= b[ja]);
        assert(a[0] <= a[jb]);
        let a1 = a.drop_first();
        let b1 = b.drop_first();
        assert forall|x: usize| a1.to_set().contains(x) <==> b1.to_set().contains(x) by {
            if a1.contains(x) {
                let i = choose|i: int| 0 <= i < a1.len() && a1[i] == x;
                assert(a[i + 1] == x);
                assert(a.to_set().contains(x));
                let j = choose|j: int| 0 <= j < b.len() && b[j] == x;
                assert(j != 0);
                assert(b1[j - 1] == x);
            }
            if b1.contains(x) {
                let i = choose|i: int| 0 <= i < b1.len() && b1[i] == x;
                assert(b[i + 1] == x);
                assert(b.to_set().contains(x));
                let j = choose|j: int| 0 <= j < a.len() && a[j] == x;
                assert(j != 0);
                assert(a1[j - 1] == x);
            }
        }
        assert(a1.to_set() =~= b1.to_set());
        lemma_increasing_unique(a1, b1);
        assert(a[0] == b[0]);
        assert forall|i: int| 0 <= i < a.len() implies a[i] == b[i] by {
            if i > 0 {
                assert(a[i] == a1[i - 1]);
                assert(b[i] == b1[i - 1]);
            }
        }
        assert(a =~= b);
    }
}

/// `usize` keys of a `BTreeMap` are ordered as integers are.
proof fn lemma_usize_keys()
    ensures
        vstd::laws_cmp::obeys_cmp::<usize>(),
        key_obeys_cmp_spec::<usize>(),
        forall|ks: Seq<usize>| #[trigger] increasing_seq(ks) ==> increasing(ks),
{
    broadcast use vstd::std_specs::btree::group_btree_axioms, vstd::laws_cmp::group_laws_cmp;

    assert(vstd::laws_cmp::obeys_cmp::<usize>());
    assert forall|ks: Seq<usize>| #[trigger] increasing_seq(ks) implies increasing(ks) by {
        assert forall|i: int, j: int| 0 <= i < j < ks.len() implies ks[i] < ks[j] by {
            assert(ks[i].cmp_spec(&ks[j]) is Less);
        }
    }
}

/// Calls being assembled, by position.
#[derive(Debug)]
pub struct ToolCallAccumulator {
    pending: BTreeMap<usize, PendingToolCall>,
}

impl View for ToolCallAccumulator {
    type V = Map<usize, PendingV>;

    closed spec fn view(&self) -> Map<usize, PendingV> {
        self.pending@.map_values(|p: PendingToolCall| pending_view(p))
    }
}

impl Default for ToolCallAccumulator {
    fn default() -> (r: ToolCallAccumulator)
        ensures
            r@ == Map::<usize, PendingV>::empty(),
    {
        ToolCallAccumulator::new()
    }
}

impl ToolCallAccumulator {
    /// An accumulator with nothing pending.
    pub fn new() -> (r: ToolCallAccumulator)
        ensures
            r@ == Map::<usize, PendingV>::empty(),
    {
        let r = ToolCallAccumulator { pending: BTreeMap::new() };
        assert(r@ =~= Map::<usize, PendingV>::empty());
        r
    }

    /// Stores `call` at position `idx`.
    fn store(&mut self, idx: usize, call: PendingToolCall)
        ensures
            final(self)@ == old(self)@.insert(idx, pending_view(call)),
    {
        proof {
            lemma_usize_keys();
        }
        let ghost v = pending_view(call);
        self.pending.insert(idx, call);
        assert(self@ =~= old(self)@.insert(idx, v));
    }

    /// The name and buffer held at position `idx` (none and empty when
    /// nothing is held there).
    fn current(&self, idx: usize) -> (r: (Option<String>, String))
        ensures
            opt_str_view(r.0) == entry_or_empty(self@, idx).name,
            r.1@ == entry_or_empty(self@, idx).buffer,
    {
        proof {
            lemma_usize_keys();
        }
        broadcast use vstd::std_specs::btree::group_btree_axioms;

        match self.pending.get(&idx) {
            Some(p) => {
                let name = match &p.name {
                    Some(n) => Some(n.clone()),
                    None => None,
                };
                (name, p.arguments_buffer.clone())
            },
            None => (None, String::new()),
        }
    }

    /// `absorb_deltas`: each delta in turn, as `absorb_delta` says.
    pub fn absorb_deltas(&mut self, deltas: &[ToolCallDelta])
        ensures
            final(self)@ == absorb_all(old(self)@, deltas_view(deltas@)),
    {
        let ghost start = self@;
        let mut i: usize = 0;
        while i < deltas.len()
            invariant
                i <= deltas.len(),
                self@ == absorb_all(start, deltas_view(deltas@.subrange(0, i as int))),
            decreases deltas.len() - i,
        {
            let d = &deltas[i];
            let (old_name, old_buffer) = self.current(d.index);
            let name = match &d.name {
                Some(n) => if !blank(n.as_str()) {
                    Some(trim_str(n.as_str()))
                } else {
                    old_name
                },
                None => old_name,
            };
            let mut buffer = old_buffer;
            match &d.arguments_chunk {
                Some(c) => {
                    buffer.append(c.as_str());
                },
                None => {},
            }
            self.store(d.index, PendingToolCall { name, arguments_buffer: buffer });
            proof {
                let ds = deltas_view(deltas@.subrange(0, i + 1));
                assert(ds.drop_last() =~= deltas_view(deltas@.subrange(0, i as int)));
                assert(ds.last() == deltas@[i as int]@);
            }
            i = i + 1;
        }
        assert(deltas@.subrange(0, deltas.len() as int) =~= deltas@);
    }

    /// `absorb_complete_calls`: call `i` is stored whole at position `i`.
    pub fn absorb_complete_calls(&mut self, calls: &[ToolCall])
        ensures
            final(self)@ == absorb_complete(old(self)@, calls_view(calls@), calls@.len() as int),
    {
        let ghost start = self@;
        let ghost cv = calls_view(calls@);
        let mut i: usize = 0;
        while i < calls.len()
            invariant
                i <= calls.len(),
                cv == calls_view(calls@),
                self@ == absorb_complete(start, cv, i as int),
            decreases calls.len() - i,
        {
            let call = &calls[i];
            let buffer = match &call.function.arguments {
                Json::Str(text) => text.clone(),
                other => other.to_text(),
            };
            assert(cv[i as int] == call@);
            self.store(
                i,
                PendingToolCall { name: Some(call.function.name.clone()), arguments_buffer: buffer },
            );
            i = i + 1;
        }
    }

    /// `finalize`: the calls that are complete, in increasing order of
    /// position.
    pub fn finalize(&self) -> (r: Option<Vec<ToolCall>>)
        ensures
            match r {
                Some(cs) => finalize_spec(self@) == Some(calls_view(cs@)),
                None => finalize_spec(self@) is None,
            },
    {
        proof {
            lemma_usize_keys();
        }
        let ghost es = self@;
        let ghost m = self.pending@;
        assert(es.dom() =~= m.dom());
        let values = self.pending.values();
        let ghost ks = choose|ks: Seq<usize>|
            {
                &&& increasing_seq(ks)
                &&& ks.to_set() == m.dom()
                &&& ks.no_duplicates()
                &&& values.remaining() == ks.map(|i: int, k: usize| &m[k])
            };
        proof {
            assert(increasing(ks));
            let p = positions(es);
            assert(increasing(p) && p.to_set() == es.dom());
            lemma_increasing_unique(p, ks);
        }
        let mut calls: Vec<ToolCall> = Vec::new();
        for p in it: values
            invariant
                es == self@,
                m == self.pending@,
                es.dom() == m.dom(),
                ks.to_set() == m.dom(),
                it.seq() == ks.map(|i: int, k: usize| &m[k]),
                calls_view(calls@) == finished_calls(es, ks, it.index()),
        {
            let ghost k = ks[it.index()];
            proof {
                assert(ks.to_set().contains(k));
                assert(es[k] == pending_view(*p));
            }
            match &p.name {
                Some(n) => {
                    if !blank(n.as_str()) {
                        match parse_arguments_buffer(p.arguments_buffer.as_str()) {
                            Some(arguments) => {
                                let name = trim_str(n.as_str());
                                calls.push(ToolCall { function: ToolCallFunction { name, arguments } });
                            },
                            None => {},
                        }
                    }
                },
                None => {},
            }
            assert(calls_view(calls@) =~= finished_calls(es, ks, it.index() + 1));
        }
        if calls.len() == 0 {
            None
        } else {
            Some(calls)
        }
    }
}

/// `parse_arguments_buffer`.
pub fn parse_arguments_buffer(buffer: &str) -> (r: Option<Json>)
    ensures
        match r {
            Some(j) => arguments_value(buffer@) == Some(j@),
            None => arguments_value(buffer@) is None,
        },
{
    let trimmed = trim_str(buffer);
    if blank(buffer) {
        Some(Json::empty_object())
    } else {
        parse_json(trimmed.as_str())
    }
}

} // verus!
