//! A JSON document as plain data, the reading operations the protocol
//! decoders use on it, and the parse that produces it.
use crate::text::same_text;
use vstd::prelude::*;

verus! {

/// A JSON value. Numbers keep the value they have as an unsigned 64-bit
/// integer, when they are one, and their compact text; arrays and objects
/// keep their compact text beside their items.
#[derive(Debug)]
pub enum Json {
    Null,
    Bool(bool),
    Number(Option<u64>, String),
    Str(String),
    Array(Vec<Json>, String),
    Object(Vec<JsonMember>, String),
}

/// One `key: value` member of a JSON object, in the object's order.
#[derive(Debug)]
pub struct JsonMember {
    pub key: String,
    pub value: Json,
}

/// The mathematical form of a `Json` value.
pub enum JsonV {
    Null,
    Bool(bool),
    Number(Option<u64>, Seq<char>),
    Str(Seq<char>),
    Array(Seq<JsonV>, Seq<char>),
    Object(Seq<JsonMemberV>, Seq<char>),
}

/// The mathematical form of a `JsonMember`.
pub struct JsonMemberV {
    pub key: Seq<char>,
    pub value: JsonV,
}

pub open spec fn json_view(j: Json) -> JsonV
    decreases j,
{
    match j {
        Json::Null => JsonV::Null,
        Json::Bool(b) => JsonV::Bool(b),
        Json::Number(n, t) => JsonV::Number(n, t@),
        Json::Str(s) => JsonV::Str(s@),
        Json::Array(v, t) => {
            proof {
                assert(decreases_to!(v => v@));
            }
            JsonV::Array(items_view(v@), t@)
        },
        Json::Object(ms, t) => {
            proof {
                assert(decreases_to!(ms => ms@));
            }
            JsonV::Object(members_view(ms@), t@)
        },
    }
}

pub open spec fn items_view(s: Seq<Json>) -> Seq<JsonV>
    decreases s,
{
    if s.len() == 0 {
        Seq::empty()
    } else {
        seq![json_view(s[0])] + items_view(s.subrange(1, s.len() as int))
    }
}

pub open spec fn members_view(s: Seq<JsonMember>) -> Seq<JsonMemberV>
    decreases s,
{
    if s.len() == 0 {
        Seq::empty()
    } else {
        proof {
            assert(decreases_to!(s => s[0]));
        }
        seq![JsonMemberV { key: s[0].key@, value: json_view(s[0].value) }] + members_view(
            s.subrange(1, s.len() as int),
        )
    }
}

impl View for Json {
    type V = JsonV;

    open spec fn view(&self) -> JsonV {
        json_view(*self)
    }
}

pub proof fn lemma_items_view(s: Seq<Json>)
    ensures
        items_view(s).len() == s.len(),
        forall|i: int| 0 <= i < s.len() ==> #[trigger] items_view(s)[i] == s[i]@,
    decreases s.len(),
{
    if s.len() > 0 {
        let rest = s.subrange(1, s.len() as int);
        lemma_items_view(rest);
        assert forall|i: int| 0 <= i < s.len() implies #[trigger] items_view(s)[i] == s[i]@ by {
            if i > 0 {
                assert(rest[i - 1] == s[i]);
            }
        }
    }
}

pub proof fn lemma_members_view(s: Seq<JsonMember>)
    ensures
        members_view(s).len() == s.len(),
        forall|i: int|
            0 <= i < s.len() ==> #[trigger] members_view(s)[i] == (JsonMemberV {
                key: s[i].key@,
                value: s[i].value@,
            }),
    decreases s.len(),
{
    if s.len() > 0 {
        let rest = s.subrange(1, s.len() as int);
        lemma_members_view(rest);
        assert forall|i: int| 0 <= i < s.len() implies #[trigger] members_view(s)[i] == (JsonMemberV {
            key: s[i].key@,
            value: s[i].value@,
        }) by {
            if i > 0 {
                assert(rest[i - 1] == s[i]);
            }
        }
    }
}

/// The value of the first member of `ms` whose key is `k`.
pub open spec fn member_lookup(ms: Seq<JsonMemberV>, k: Seq<char>) -> Option<JsonV>
    decreases ms.len(),
{
    if ms.len() == 0 {
        None
    } else if ms[0].key == k {
        Some(ms[0].value)
    } else {
        member_lookup(ms.subrange(1, ms.len() as int), k)
    }
}

proof fn lemma_member_lookup_skip(ms: Seq<JsonMemberV>, k: Seq<char>, i: int)
    requires
        0 <= i < ms.len(),
        ms[i].key != k,
    ensures
        member_lookup(ms.subrange(i, ms.len() as int), k) == member_lookup(
            ms.subrange(i + 1, ms.len() as int),
            k,
        ),
{
    let s = ms.subrange(i, ms.len() as int);
    assert(s.subrange(1, s.len() as int) =~= ms.subrange(i + 1, ms.len() as int));
}

impl JsonV {
    /// `value.get(key)`: the member `key` of an object; nothing for any other value.
    pub open spec fn at(self, k: Seq<char>) -> Option<JsonV> {
        match self {
            JsonV::Object(ms, _) => member_lookup(ms, k),
            _ => None,
        }
    }

    /// `value.as_str()`.
    pub open spec fn text_value(self) -> Option<Seq<char>> {
        match self {
            JsonV::Str(s) => Some(s),
            _ => None,
        }
    }

    /// `value.as_bool()`.
    pub open spec fn bool_value(self) -> Option<bool> {
        match self {
            JsonV::Bool(b) => Some(b),
            _ => None,
        }
    }

    /// `value.as_u64()`.
    pub open spec fn u64_value(self) -> Option<u64> {
        match self {
            JsonV::Number(n, _) => n,
            _ => None,
        }
    }

    /// `value.as_array()`.
    pub open spec fn items(self) -> Option<Seq<JsonV>> {
        match self {
            JsonV::Array(v, _) => Some(v),
            _ => None,
        }
    }

    /// The compact JSON text of a value that is not a string (strings are
    /// always read through `text_value`).
    pub open spec fn compact_text(self) -> Seq<char> {
        match self {
            JsonV::Null => "null"@,
            JsonV::Bool(b) => if b {
                "true"@
            } else {
                "false"@
            },
            JsonV::Number(_, t) => t,
            JsonV::Str(s) => s,
            JsonV::Array(_, t) => t,
            JsonV::Object(_, t) => t,
        }
    }

}

/// The object with no members, `{}`.
pub open spec fn empty_object_v() -> JsonV {
    JsonV::Object(Seq::empty(), "{}"@)
}

impl Json {
    /// The member `key` of an object.
    pub fn get(&self, key: &str) -> (r: Option<&Json>)
        ensures
            match r {
                Some(x) => self@.at(key@) == Some(x@),
                None => self@.at(key@) is None,
            },
    {
        match self {
            Json::Object(ms, t) => {
                assert(self@ == JsonV::Object(members_view(ms@), t@));
                let ghost mv = members_view(ms@);
                proof {
                    lemma_members_view(ms@);
                    assert(mv.subrange(0, mv.len() as int) =~= mv);
                }
                let mut i: usize = 0;
                while i < ms.len()
                    invariant
                        i <= ms.len(),
                        self@ == JsonV::Object(mv, t@),
                        mv == members_view(ms@),
                        mv.len() == ms@.len(),
                        forall|j: int|
                            0 <= j < ms@.len() ==> #[trigger] mv[j] == (JsonMemberV {
                                key: ms@[j].key@,
                                value: ms@[j].value@,
                            }),
                        member_lookup(mv, key@) == member_lookup(
                            mv.subrange(i as int, mv.len() as int),
                            key@,
                        ),
                    decreases ms.len() - i,
                {
                    assert(mv[i as int].key == ms@[i as int].key@);
                    if same_text(ms[i].key.as_str(), key) {
                        assert(mv.subrange(i as int, mv.len() as int)[0] == mv[i as int]);
                        return Some(&ms[i].value);
                    }
                    proof {
                        lemma_member_lookup_skip(mv, key@, i as int);
                    }
                    i = i + 1;
                }
                None
            },
            _ => None,
        }
    }

    /// `as_str`.
    pub fn as_str(&self) -> (r: Option<&str>)
        ensures
            match r {
                Some(x) => self@.text_value() == Some(x@),
                None => self@.text_value() is None,
            },
    {
        match self {
            Json::Str(s) => Some(s.as_str()),
            _ => None,
        }
    }

    /// `as_bool`.
    pub fn as_bool(&self) -> (r: Option<bool>)
        ensures
            r == self@.bool_value(),
    {
        match self {
            Json::Bool(b) => Some(*b),
            _ => None,
        }
    }

    /// `as_u64`.
    pub fn as_u64(&self) -> (r: Option<u64>)
        ensures
            r == self@.u64_value(),
    {
        match self {
            Json::Number(n, _) => *n,
            _ => None,
        }
    }

    /// `as_array`.
    pub fn as_array(&self) -> (r: Option<&Vec<Json>>)
        ensures
            match r {
                Some(v) => self@.items() == Some(items_view(v@)),
                None => self@.items() is None,
            },
    {
        match self {
            Json::Array(v, _) => Some(v),
            _ => None,
        }
    }

    /// `is_object`.
    pub fn is_object(&self) -> (r: bool)
        ensures
            r == (self@ is Object),
    {
        match self {
            Json::Object(..) => true,
            _ => false,
        }
    }

    /// `is_array`.
    pub fn is_array(&self) -> (r: bool)
        ensures
            r == (self@ is Array),
    {
        match self {
            Json::Array(..) => true,
            _ => false,
        }
    }

    /// The compact JSON text of a value that is not a string.
    pub fn to_text(&self) -> (r: String)
        ensures
            r@ == self@.compact_text(),
    {
        match self {
            Json::Null => "null".to_string(),
            Json::Bool(b) => if *b {
                "true".to_string()
            } else {
                "false".to_string()
            },
            Json::Number(_, t) => t.clone(),
            Json::Str(s) => s.clone(),
            Json::Array(_, t) => t.clone(),
            Json::Object(_, t) => t.clone(),
        }
    }

    /// An object with no members, `{}`.
    pub fn empty_object() -> (r: Json)
        ensures
            r@ == empty_object_v(),
    {
        let r = Json::Object(Vec::new(), "{}".to_string());
        proof {
            lemma_members_view(Seq::<JsonMember>::empty());
            assert(members_view(Seq::<JsonMember>::empty()) =~= Seq::<JsonMemberV>::empty());
        }
        r
    }

    /// A copy of this value.
    pub fn duplicate(&self) -> (r: Json)
        ensures
            r@ == self@,
        decreases self,
    {
        match self {
            Json::Null => Json::Null,
            Json::Bool(b) => Json::Bool(*b),
            Json::Number(n, t) => Json::Number(*n, t.clone()),
            Json::Str(s) => Json::Str(s.clone()),
            Json::Array(items, t) => {
                let mut out: Vec<Json> = Vec::new();
                let mut i: usize = 0;
                proof {
                    assert forall|j: int| 0 <= j < items.len() implies decreases_to!(*self => #[trigger] items@[j]) by {
                        assert(decreases_to!(*self => *items));
                        assert(decreases_to!(*items => items@));
                    }
                }
                while i < items.len()
                    invariant
                        forall|j: int| 0 <= j < items.len() ==> decreases_to!(*self => #[trigger] items@[j]),
                        i <= items.len(),
                        out.len() == i,
                        forall|j: int| 0 <= j < i ==> #[trigger] out@[j]@ == items@[j]@,
                    decreases items.len() - i,
                {
                    assert(decreases_to!(*self => items@[i as int]));
                    let c = items[i].duplicate();
                    out.push(c);
                    i = i + 1;
                }
                proof {
                    lemma_items_view(out@);
                    lemma_items_view(items@);
                    assert(items_view(out@) =~= items_view(items@));
                }
                Json::Array(out, t.clone())
            },
            Json::Object(ms, t) => {
                let mut out: Vec<JsonMember> = Vec::new();
                let mut i: usize = 0;
                proof {
                    assert forall|j: int| 0 <= j < ms.len() implies decreases_to!(*self => #[trigger] ms@[j].value) by {
                        assert(decreases_to!(*self => *ms));
                        assert(decreases_to!(*ms => ms@));
                        assert(decreases_to!(ms@ => ms@[j]));
                    }
                }
                while i < ms.len()
                    invariant
                        forall|j: int| 0 <= j < ms.len() ==> decreases_to!(*self => #[trigger] ms@[j].value),
                        i <= ms.len(),
                        out.len() == i,
                        forall|j: int|
                            0 <= j < i ==> #[trigger] out@[j].value@ == ms@[j].value@ && out@[j].key
                                == ms@[j].key,
                    decreases ms.len() - i,
                {
                    assert(decreases_to!(*self => ms@[i as int].value));
                    let v = ms[i].value.duplicate();
                    out.push(JsonMember { key: ms[i].key.clone(), value: v });
                    i = i + 1;
                }
                proof {
                    lemma_members_view(out@);
                    lemma_members_view(ms@);
                    assert(members_view(out@) =~= members_view(ms@));
                }
                Json::Object(out, t.clone())
            },
        }
    }
}

/// What `serde_json::from_str::<serde_json::Value>` makes of a text, in
/// the form of `Json`: nothing when the text is not one JSON value.
pub uninterp spec fn spec_parse_json(text: Seq<char>) -> Option<JsonV>;

/// `serde_json::Value`, declared so that the conversion below can take it;
/// nothing of its contents is visible to proofs.
#[verifier::external_type_specification]
#[verifier::external_body]
pub struct ExJsonValue(serde_json::Value);

/// Calls `serde_json::from_str::<serde_json::Value>`. The contract claims
/// only that the outcome is a function of the text (it is named
/// `spec_parse_json`); what serde_json accepts and builds is not restated.
#[verifier::external_body]
pub fn parse_json(text: &str) -> (r: Option<Json>)
    ensures
        match r {
            Some(j) => spec_parse_json(text@) == Some(j@),
            None => spec_parse_json(text@) is None,
        },
{
    match serde_json::from_str::<serde_json::Value>(text) {
        Ok(v) => Some(json_from_serde(v)),
        Err(_) => None,
    }
}

/// Moves a `serde_json::Value` tree into `Json`, variant for variant; the
/// compact texts are those of serde_json's `Display`. Nothing is claimed of
/// it: `parse_json`, its only caller, names the whole outcome.
#[verifier::external_body]
fn json_from_serde(v: serde_json::Value) -> Json {
    let text = v.to_string();
    match v {
        serde_json::Value::Null => Json::Null,
        serde_json::Value::Bool(b) => Json::Bool(b),
        serde_json::Value::Number(n) => Json::Number(n.as_u64(), text),
        serde_json::Value::String(s) => Json::Str(s),
        serde_json::Value::Array(a) => Json::Array(a.into_iter().map(json_from_serde).collect(), text),
        serde_json::Value::Object(m) => Json::Object(
            m.into_iter().map(|(key, value)| JsonMember { key, value: json_from_serde(value) }).collect(),
            text,
        ),
    }
}

} // verus!
