//! JSON documents as plain values.
use vstd::prelude::*;

use crate::util::str_eq;

use serde_json::{from_str, Value};

verus! {

/// A JSON value. Numbers are kept as the text they are written with;
/// object fields keep their order and are looked up by their first
/// occurrence.
#[derive(Debug)]
pub enum JsonValue {
    Null,
    Bool(bool),
    Number(String),
    String(String),
    Array(Vec<JsonValue>),
    Object(Vec<(String, JsonValue)>),
}

/// Mathematical model of a [`JsonValue`].
pub enum JsonView {
    Null,
    Bool(bool),
    Number(Seq<char>),
    String(Seq<char>),
    Array(Seq<JsonView>),
    Object(Seq<(Seq<char>, JsonView)>),
}

pub open spec fn json_view(v: JsonValue) -> JsonView
    decreases v,
{
    match v {
        JsonValue::Null => JsonView::Null,
        JsonValue::Bool(b) => JsonView::Bool(b),
        JsonValue::Number(n) => JsonView::Number(n@),
        JsonValue::String(s) => JsonView::String(s@),
        JsonValue::Array(items) => JsonView::Array(
            Seq::new(
                items@.len(),
                |i: int|
                    if 0 <= i < items@.len() {
                        json_view(items@[i])
                    } else {
                        JsonView::Null
                    },
            ),
        ),
        JsonValue::Object(fields) => JsonView::Object(
            Seq::new(
                fields@.len(),
                |i: int|
                    if 0 <= i < fields@.len() {
                        (fields@[i].0@, json_view(fields@[i].1))
                    } else {
                        (Seq::empty(), JsonView::Null)
                    },
            ),
        ),
    }
}

impl View for JsonValue {
    type V = JsonView;

    open spec fn view(&self) -> JsonView {
        json_view(*self)
    }
}

/// The value stored under `key` in an object: that of its first field named
/// `key`; `None` when the value is no object or has no such field.
pub open spec fn json_field(v: JsonView, key: Seq<char>) -> Option<JsonView> {
    match v {
        JsonView::Object(fields) => if exists|i: int| 0 <= i < fields.len() && fields[i].0 == key {
            let i = choose|i: int|
                0 <= i < fields.len() && fields[i].0 == key && forall|j: int|
                    0 <= j < i ==> fields[j].0 != key;
            Some(fields[i].1)
        } else {
            None
        },
        _ => None,
    }
}

/// The string held by a JSON value, if it is a string.
pub open spec fn json_as_str(v: Option<JsonView>) -> Option<Seq<char>> {
    match v {
        Some(JsonView::String(s)) => Some(s),
        _ => None,
    }
}

impl JsonValue {
    /// The field named `key` of an object (its first field of that name).
    pub fn get(&self, key: &str) -> (r: Option<&JsonValue>)
        ensures
            match r {
                Some(x) => json_field(self@, key@) == Some(x@),
                None => json_field(self@, key@) is None,
            },
    {
        match self {
            JsonValue::Object(fields) => {
                let ghost vs = match json_view(*self) {
                    JsonView::Object(vs) => vs,
                    _ => Seq::empty(),
                };
                assert(vs.len() == fields@.len());
                let mut i: usize = 0;
                while i < fields.len()
                    invariant
                        i <= fields.len(),
                        *self == JsonValue::Object(*fields),
                        json_view(*self) == JsonView::Object(vs),
                        vs.len() == fields@.len(),
                        forall|j: int| 0 <= j < i ==> vs[j].0 != key@,
                    decreases fields.len() - i,
                {
                    assert(vs[i as int] == (fields@[i as int].0@, json_view(fields@[i as int].1)));
                    if str_eq(fields[i].0.as_str(), key) {
                        proof {
                            let w = choose|w: int|
                                0 <= w < vs.len() && vs[w].0 == key@ && forall|j: int|
                                    0 <= j < w ==> vs[j].0 != key@;
                            assert(0 <= i < vs.len() && vs[i as int].0 == key@ && forall|j: int|
                                0 <= j < i ==> vs[j].0 != key@);
                            if w < i {
                            } else if w > i {
                                assert(vs[i as int].0 != key@);
                            }
                        }
                        return Some(&fields[i].1);
                    }
                    i += 1;
                }
                None
            },
            _ => None,
        }
    }

    /// The string held by the value, if it is a string.
    pub fn as_str(&self) -> (r: Option<&str>)
        ensures
            match r {
                Some(s) => self@ == JsonView::String(s@),
                None => !(self@ is String),
            },
    {
        match self {
            JsonValue::String(s) => Some(s.as_str()),
            _ => None,
        }
    }
    /// A copy of the value.
    pub fn duplicate(&self) -> (r: JsonValue)
        ensures
            r@ == self@,
        decreases self,
    {
        match self {
            JsonValue::Null => JsonValue::Null,
            JsonValue::Bool(b) => JsonValue::Bool(*b),
            JsonValue::Number(n) => JsonValue::Number(n.clone()),
            JsonValue::String(s) => JsonValue::String(s.clone()),
            JsonValue::Array(items) => {
                let mut out: Vec<JsonValue> = Vec::new();
                let mut i: usize = 0;
                while i < items.len()
                    invariant
                        i <= items@.len(),
                        out@.len() == i,
                        forall|k: int| 0 <= k < i ==> (#[trigger] out@[k])@ == items@[k]@,
                        *self == JsonValue::Array(*items),
                    decreases items.len() - i,
                {
                    proof {
                        assert(decreases_to!(*items => items@));
                        assert(decreases_to!(*self => (*self)->Array_0));
                    }
                    out.push(items[i].duplicate());
                    i += 1;
                }
                let r = JsonValue::Array(out);
                proof {
                    match (r@, self@) {
                        (JsonView::Array(a), JsonView::Array(b)) => {
                            assert(a =~= b);
                        },
                        _ => {},
                    }
                }
                r
            },
            JsonValue::Object(fields) => {
                let mut out: Vec<(String, JsonValue)> = Vec::new();
                let mut i: usize = 0;
                while i < fields.len()
                    invariant
                        i <= fields@.len(),
                        out@.len() == i,
                        forall|k: int|
                            0 <= k < i ==> (#[trigger] out@[k]).0@ == fields@[k].0@ && out@[k].1@ == fields@[k].1@,
                        *self == JsonValue::Object(*fields),
                    decreases fields.len() - i,
                {
                    proof {
                        assert(decreases_to!(*fields => fields@));
                        assert(decreases_to!(*self => (*self)->Object_0));
                    }
                    out.push((fields[i].0.clone(), fields[i].1.duplicate()));
                    i += 1;
                }
                let r = JsonValue::Object(out);
                proof {
                    match (r@, self@) {
                        (JsonView::Object(a), JsonView::Object(b)) => {
                            assert(a =~= b);
                        },
                        _ => {},
                    }
                }
                r
            },
        }
    }
}

/// One level of a JSON document: its kind and scalar, or the texts of its
/// items (each item written as JSON text).
#[derive(Debug)]
pub enum JsonNode {
    Null,
    Bool(bool),
    Number(String),
    String(String),
    Array(Vec<String>),
    Object(Vec<(String, String)>),
}

/// Mathematical model of a [`JsonNode`].
pub enum JsonNodeView {
    Null,
    Bool(bool),
    Number(Seq<char>),
    String(Seq<char>),
    Array(Seq<Seq<char>>),
    Object(Seq<(Seq<char>, Seq<char>)>),
}

pub open spec fn texts_view(v: Seq<String>) -> Seq<Seq<char>> {
    v.map_values(|s: String| s@)
}

pub open spec fn text_fields_view(v: Seq<(String, String)>) -> Seq<(Seq<char>, Seq<char>)> {
    v.map_values(|f: (String, String)| (f.0@, f.1@))
}

impl View for JsonNode {
    type V = JsonNodeView;

    open spec fn view(&self) -> JsonNodeView {
        match self {
            JsonNode::Null => JsonNodeView::Null,
            JsonNode::Bool(b) => JsonNodeView::Bool(*b),
            JsonNode::Number(n) => JsonNodeView::Number(n@),
            JsonNode::String(s) => JsonNodeView::String(s@),
            JsonNode::Array(items) => JsonNodeView::Array(texts_view(items@)),
            JsonNode::Object(fields) => JsonNodeView::Object(text_fields_view(fields@)),
        }
    }
}

pub open spec fn opt_node_view(n: Option<JsonNode>) -> Option<JsonNodeView> {
    match n {
        Some(n) => Some(n@),
        None => None,
    }
}

pub open spec fn opt_text_view(s: Option<String>) -> Option<Seq<char>> {
    match s {
        Some(s) => Some(s@),
        None => None,
    }
}

/// What `serde_json::from_str::<serde_json::Value>` reads from a text, one
/// level deep: the value's kind and scalar, or its items as the texts
/// `serde_json` writes them with; nothing when the text is no JSON.
pub uninterp spec fn serde_json_read(text: Seq<char>) -> Option<JsonNodeView>;

/// What `serde_json` writes (`Value::to_string`) for a value whose items
/// (and number) are read from the given texts with `serde_json::from_str`;
/// nothing when one of those texts is no JSON.
pub uninterp spec fn serde_json_write(node: JsonNodeView) -> Option<Seq<char>>;

/// Calls `serde_json::from_str::<serde_json::Value>` and gives the value
/// one level deep, its items written back with `Value::to_string`. Nothing
/// more is claimed than that the result is a function of the text (named
/// `serde_json_read`).
#[verifier::external_body]
fn read_json_node(text: &str) -> (r: Option<JsonNode>)
    ensures
        opt_node_view(r) == serde_json_read(text@),
{
    Some(match from_str::<Value>(text).ok()? {
        Value::Null => JsonNode::Null,
        Value::Bool(b) => JsonNode::Bool(b),
        Value::Number(n) => JsonNode::Number(n.to_string()),
        Value::String(s) => JsonNode::String(s),
        Value::Array(a) => JsonNode::Array(a.iter().map(|x| x.to_string()).collect()),
        Value::Object(m) => JsonNode::Object(m.iter().map(|(k, x)| (k.clone(), x.to_string())).collect()),
    })
}

/// Reads the node's number and items with `from_str` and writes
/// the value with `Value::to_string`. Nothing more is claimed than that the
/// result is a function of the node (named `serde_json_write`).
#[verifier::external_body]
fn write_json_node(node: &JsonNode) -> (r: Option<String>)
    ensures
        opt_text_view(r) == serde_json_write(node@),
{
    let v = match node {
        JsonNode::Null => Value::Null,
        JsonNode::Bool(b) => Value::Bool(*b),
        JsonNode::Number(n) => Value::Number(from_str(n).ok()?),
        JsonNode::String(s) => Value::String(s.clone()),
        JsonNode::Array(items) => Value::Array(items.iter().map(|t| from_str(t).ok()).collect::<Option<_>>()?),
        JsonNode::Object(fields) => Value::Object(fields.iter().map(|(k, t)| from_str(t).ok().map(|x| (k.clone(), x))).collect::<Option<_>>()?),
    };
    Some(v.to_string())
}

/// The value a JSON text holds, read one level at a time with
/// `serde_json`, at most `fuel` levels deep.
pub open spec fn json_of_text(text: Seq<char>, fuel: nat) -> Option<JsonView>
    decreases fuel, 0nat, 0nat,
{
    if fuel == 0 {
        None
    } else {
        match serde_json_read(text) {
            None => None,
            Some(JsonNodeView::Null) => Some(JsonView::Null),
            Some(JsonNodeView::Bool(b)) => Some(JsonView::Bool(b)),
            Some(JsonNodeView::Number(n)) => Some(JsonView::Number(n)),
            Some(JsonNodeView::String(s)) => Some(JsonView::String(s)),
            Some(JsonNodeView::Array(items)) => match json_of_texts(items, (fuel - 1) as nat) {
                Some(vs) => Some(JsonView::Array(vs)),
                None => None,
            },
            Some(JsonNodeView::Object(fields)) => match json_of_text_fields(fields, (fuel - 1) as nat) {
                Some(fs) => Some(JsonView::Object(fs)),
                None => None,
            },
        }
    }
}

pub open spec fn json_of_texts(items: Seq<Seq<char>>, fuel: nat) -> Option<Seq<JsonView>>
    decreases fuel, 1nat, items.len(),
{
    if items.len() == 0 {
        Some(Seq::empty())
    } else {
        match (json_of_text(items[0], fuel), json_of_texts(items.drop_first(), fuel)) {
            (Some(v), Some(vs)) => Some(seq![v] + vs),
            _ => None,
        }
    }
}

pub open spec fn json_of_text_fields(fields: Seq<(Seq<char>, Seq<char>)>, fuel: nat) -> Option<
    Seq<(Seq<char>, JsonView)>,
>
    decreases fuel, 1nat, fields.len(),
{
    if fields.len() == 0 {
        Some(Seq::empty())
    } else {
        match (json_of_text(fields[0].1, fuel), json_of_text_fields(fields.drop_first(), fuel)) {
            (Some(v), Some(fs)) => Some(seq![(fields[0].0, v)] + fs),
            _ => None,
        }
    }
}

/// The value a JSON text holds, as `serde_json` reads it; nothing when the
/// text is no JSON. (A text nests fewer levels than it has characters.)
pub open spec fn parse_json_text(text: Seq<char>) -> Option<JsonView> {
    json_of_text(text, text.len())
}

pub open spec fn opt_json_view(v: Option<JsonValue>) -> Option<JsonView> {
    match v {
        Some(v) => Some(v@),
        None => None,
    }
}

pub open spec fn opt_prepend<A>(prefix: Seq<A>, r: Option<Seq<A>>) -> Option<Seq<A>> {
    match r {
        Some(rest) => Some(prefix + rest),
        None => None,
    }
}

fn json_of_text_exec(text: &str, fuel: usize) -> (r: Option<JsonValue>)
    ensures
        opt_json_view(r) == json_of_text(text@, fuel as nat),
    decreases fuel,
{
    if fuel == 0 {
        return None;
    }
    match read_json_node(text) {
        None => None,
        Some(JsonNode::Null) => Some(JsonValue::Null),
        Some(JsonNode::Bool(b)) => Some(JsonValue::Bool(b)),
        Some(JsonNode::Number(n)) => Some(JsonValue::Number(n)),
        Some(JsonNode::String(s)) => Some(JsonValue::String(s)),
        Some(JsonNode::Array(items)) => {
            let ghost ts = texts_view(items@);
            let mut out: Vec<JsonValue> = Vec::new();
            let mut i: usize = 0;
            assert(ts.skip(0) =~= ts);
            assert(out@.map_values(|j: JsonValue| j@) =~= Seq::<JsonView>::empty());
            while i < items.len()
                invariant
                    i <= items@.len(),
                    fuel > 0,
                    ts == texts_view(items@),
                    serde_json_read(text@) == Some(JsonNodeView::Array(ts)),
                    json_of_texts(ts, (fuel - 1) as nat) == opt_prepend(
                        out@.map_values(|j: JsonValue| j@),
                        json_of_texts(ts.skip(i as int), (fuel - 1) as nat),
                    ),
                decreases items.len() - i,
            {
                let ghost rest = ts.skip(i as int);
                assert(rest.drop_first() =~= ts.skip(i + 1));
                assert(rest[0] == items@[i as int]@);
                match json_of_text_exec(items[i].as_str(), fuel - 1) {
                    None => {
                        return None;
                    },
                    Some(v) => {
                        let ghost before = out@;
                        out.push(v);
                        assert(out@.map_values(|j: JsonValue| j@) =~= before.map_values(|j: JsonValue| j@).push(v@));
                        proof {
                            let tail = json_of_texts(ts.skip(i + 1), (fuel - 1) as nat);
                            if let Some(t) = tail {
                                assert(before.map_values(|j: JsonValue| j@) + (seq![v@] + t) =~= before.map_values(
                                    |j: JsonValue| j@,
                                ).push(v@) + t);
                            }
                        }
                    },
                }
                i += 1;
            }
            assert(ts.skip(i as int) =~= Seq::<Seq<char>>::empty());
            assert(out@.map_values(|j: JsonValue| j@) + Seq::<JsonView>::empty() =~= out@.map_values(|j: JsonValue| j@));
            let r = JsonValue::Array(out);
            proof {
                match r@ {
                    JsonView::Array(a) => {
                        assert(a =~= out@.map_values(|j: JsonValue| j@));
                    },
                    _ => {},
                }
            }
            Some(r)
        },
        Some(JsonNode::Object(fields)) => {
            let ghost fs = text_fields_view(fields@);
            let mut out: Vec<(String, JsonValue)> = Vec::new();
            let mut i: usize = 0;
            assert(fs.skip(0) =~= fs);
            assert(out@.map_values(|e: (String, JsonValue)| (e.0@, e.1@)) =~= Seq::<(Seq<char>, JsonView)>::empty());
            while i < fields.len()
                invariant
                    i <= fields@.len(),
                    fuel > 0,
                    fs == text_fields_view(fields@),
                    serde_json_read(text@) == Some(JsonNodeView::Object(fs)),
                    json_of_text_fields(fs, (fuel - 1) as nat) == opt_prepend(
                        out@.map_values(|e: (String, JsonValue)| (e.0@, e.1@)),
                        json_of_text_fields(fs.skip(i as int), (fuel - 1) as nat),
                    ),
                decreases fields.len() - i,
            {
                let ghost rest = fs.skip(i as int);
                assert(rest.drop_first() =~= fs.skip(i + 1));
                assert(rest[0] == (fields@[i as int].0@, fields@[i as int].1@));
                match json_of_text_exec(fields[i].1.as_str(), fuel - 1) {
                    None => {
                        return None;
                    },
                    Some(v) => {
                        let k = fields[i].0.clone();
                        let ghost before = out@;
                        out.push((k, v));
                        assert(out@.map_values(|e: (String, JsonValue)| (e.0@, e.1@)) =~= before.map_values(
                            |e: (String, JsonValue)| (e.0@, e.1@),
                        ).push((k@, v@)));
                        proof {
                            let tail = json_of_text_fields(fs.skip(i + 1), (fuel - 1) as nat);
                            if let Some(t) = tail {
                                assert(before.map_values(|e: (String, JsonValue)| (e.0@, e.1@)) + (seq![(k@, v@)] + t)
                                    =~= before.map_values(|e: (String, JsonValue)| (e.0@, e.1@)).push((k@, v@)) + t);
                            }
                        }
                    },
                }
                i += 1;
            }
            assert(fs.skip(i as int) =~= Seq::<(Seq<char>, Seq<char>)>::empty());
            assert(out@.map_values(|e: (String, JsonValue)| (e.0@, e.1@)) + Seq::<(Seq<char>, JsonView)>::empty()
                =~= out@.map_values(|e: (String, JsonValue)| (e.0@, e.1@)));
            let r = JsonValue::Object(out);
            proof {
                match r@ {
                    JsonView::Object(a) => {
                        assert(a =~= out@.map_values(|e: (String, JsonValue)| (e.0@, e.1@)));
                    },
                    _ => {},
                }
            }
            Some(r)
        },
    }
}

/// The value a JSON text holds, as `serde_json` reads it; `None` when the
/// text is no JSON.
pub fn parse_json(text: &str) -> (r: Option<JsonValue>)
    ensures
        opt_json_view(r) == parse_json_text(text@),
{
    json_of_text_exec(text, text.unicode_len())
}

/// The JSON text `serde_json` writes for a value, built one level at a
/// time; nothing when a number's text is no JSON number.
pub open spec fn json_text(v: JsonView) -> Option<Seq<char>>
    decreases v,
{
    match v {
        JsonView::Null => serde_json_write(JsonNodeView::Null),
        JsonView::Bool(b) => serde_json_write(JsonNodeView::Bool(b)),
        JsonView::Number(n) => serde_json_write(JsonNodeView::Number(n)),
        JsonView::String(s) => serde_json_write(JsonNodeView::String(s)),
        JsonView::Array(items) => match json_texts(items) {
            Some(ts) => serde_json_write(JsonNodeView::Array(ts)),
            None => None,
        },
        JsonView::Object(fields) => match json_field_texts(fields) {
            Some(fs) => serde_json_write(JsonNodeView::Object(fs)),
            None => None,
        },
    }
}

pub open spec fn json_texts(items: Seq<JsonView>) -> Option<Seq<Seq<char>>>
    decreases items,
{
    if items.len() == 0 {
        Some(Seq::empty())
    } else {
        match (json_text(items[0]), json_texts(items.drop_first())) {
            (Some(t), Some(ts)) => Some(seq![t] + ts),
            _ => None,
        }
    }
}

pub open spec fn json_field_texts(fields: Seq<(Seq<char>, JsonView)>) -> Option<Seq<(Seq<char>, Seq<char>)>>
    decreases fields,
{
    if fields.len() == 0 {
        Some(Seq::empty())
    } else {
        match (json_text(fields[0].1), json_field_texts(fields.drop_first())) {
            (Some(t), Some(fs)) => Some(seq![(fields[0].0, t)] + fs),
            _ => None,
        }
    }
}

impl JsonValue {
    /// The JSON text `serde_json` writes for the value; `None` when one of
    /// its numbers is no JSON number.
    pub fn to_json_text(&self) -> (r: Option<String>)
        ensures
            opt_text_view(r) == json_text(self@),
        decreases self,
    {
        match self {
            JsonValue::Null => write_json_node(&JsonNode::Null),
            JsonValue::Bool(b) => write_json_node(&JsonNode::Bool(*b)),
            JsonValue::Number(n) => write_json_node(&JsonNode::Number(n.clone())),
            JsonValue::String(x) => write_json_node(&JsonNode::String(x.clone())),
            JsonValue::Array(items) => {
                let ghost vs = match self@ {
                    JsonView::Array(vs) => vs,
                    _ => Seq::empty(),
                };
                let mut out: Vec<String> = Vec::new();
                let mut i: usize = 0;
                assert(vs.skip(0) =~= vs);
                assert(texts_view(out@) =~= Seq::<Seq<char>>::empty());
                while i < items.len()
                    invariant
                        i <= items@.len(),
                        *self == JsonValue::Array(*items),
                        self@ == JsonView::Array(vs),
                        vs.len() == items@.len(),
                        forall|k: int| 0 <= k < vs.len() ==> vs[k] == (#[trigger] items@[k])@,
                        json_texts(vs) == opt_prepend(texts_view(out@), json_texts(vs.skip(i as int))),
                    decreases items.len() - i,
                {
                    proof {
                        assert(decreases_to!(*items => items@));
                        assert(decreases_to!(*self => (*self)->Array_0));
                    }
                    let ghost rest = vs.skip(i as int);
                    assert(rest.drop_first() =~= vs.skip(i + 1));
                    assert(rest[0] == items@[i as int]@);
                    match items[i].to_json_text() {
                        None => {
                            return None;
                        },
                        Some(t) => {
                            let ghost before = out@;
                            out.push(t);
                            assert(texts_view(out@) =~= texts_view(before).push(t@));
                            proof {
                                if let Some(tail) = json_texts(vs.skip(i + 1)) {
                                    assert(texts_view(before) + (seq![t@] + tail) =~= texts_view(before).push(t@) + tail);
                                }
                            }
                        },
                    }
                    i += 1;
                }
                assert(vs.skip(i as int) =~= Seq::<JsonView>::empty());
                assert(texts_view(out@) + Seq::<Seq<char>>::empty() =~= texts_view(out@));
                write_json_node(&JsonNode::Array(out))
            },
            JsonValue::Object(fields) => {
                let ghost fs = match self@ {
                    JsonView::Object(fs) => fs,
                    _ => Seq::empty(),
                };
                let mut out: Vec<(String, String)> = Vec::new();
                let mut i: usize = 0;
                assert(fs.skip(0) =~= fs);
                assert(text_fields_view(out@) =~= Seq::<(Seq<char>, Seq<char>)>::empty());
                while i < fields.len()
                    invariant
                        i <= fields@.len(),
                        *self == JsonValue::Object(*fields),
                        self@ == JsonView::Object(fs),
                        fs.len() == fields@.len(),
                        forall|k: int| 0 <= k < fs.len() ==> fs[k] == ((#[trigger] fields@[k]).0@, fields@[k].1@),
                        json_field_texts(fs) == opt_prepend(text_fields_view(out@), json_field_texts(fs.skip(i as int))),
                    decreases fields.len() - i,
                {
                    proof {
                        assert(decreases_to!(*fields => fields@));
                        assert(decreases_to!(*self => (*self)->Object_0));
                    }
                    let ghost rest = fs.skip(i as int);
                    assert(rest.drop_first() =~= fs.skip(i + 1));
                    assert(rest[0] == (fields@[i as int].0@, fields@[i as int].1@));
                    match fields[i].1.to_json_text() {
                        None => {
                            return None;
                        },
                        Some(t) => {
                            let k = fields[i].0.clone();
                            let ghost before = out@;
                            out.push((k, t));
                            assert(text_fields_view(out@) =~= text_fields_view(before).push((k@, t@)));
                            proof {
                                if let Some(tail) = json_field_texts(fs.skip(i + 1)) {
                                    assert(text_fields_view(before) + (seq![(k@, t@)] + tail) =~= text_fields_view(
                                        before,
                                    ).push((k@, t@)) + tail);
                                }
                            }
                        },
                    }
                    i += 1;
                }
                assert(fs.skip(i as int) =~= Seq::<(Seq<char>, JsonView)>::empty());
                assert(text_fields_view(out@) + Seq::<(Seq<char>, Seq<char>)>::empty() =~= text_fields_view(out@));
                write_json_node(&JsonNode::Object(out))
            },
        }
    }
}

} // verus!
