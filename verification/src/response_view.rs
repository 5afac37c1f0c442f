//! Decisions taken while a response object is written out: which missing
//! fields are skipped (they belong to a fragment on another type) and what
//! is reported for the others.
use vstd::prelude::*;

use crate::json::{JsonValue, JsonView};
use crate::nats::{decimal, decimal_text};
use crate::schema::{ObjectDefinitionId, StringId};
use crate::util::owned;

verus! {

/// The entity a selected field is defined on.
#[derive(Debug)]
pub enum ParentEntity {
    /// An interface, with the objects implementing it sorted by id.
    Interface { possible_type_ids: Vec<ObjectDefinitionId> },
    /// An object.
    Object { id: ObjectDefinitionId },
}

/// The ids are sorted, each smaller than the next.
pub open spec fn sorted_ids(ids: Seq<ObjectDefinitionId>) -> bool {
    forall|i: int, j: int| 0 <= i < j < ids.len() ==> ids[i].0 < ids[j].0
}

/// The object type `d` has the field's parent entity: it is that object, or
/// one of the interface's possible types.
pub open spec fn object_has_parent(d: ObjectDefinitionId, parent: &ParentEntity) -> bool {
    match parent {
        ParentEntity::Interface { possible_type_ids } => possible_type_ids@.contains(d),
        ParentEntity::Object { id } => *id == d,
    }
}

/// Whether a sorted list of ids holds `id` (binary search).
pub fn contains_sorted(ids: &Vec<ObjectDefinitionId>, id: ObjectDefinitionId) -> (r: bool)
    requires
        sorted_ids(ids@),
    ensures
        r == ids@.contains(id),
{
    let mut lo: usize = 0;
    let mut hi: usize = ids.len();
    while lo < hi
        invariant
            0 <= lo <= hi <= ids@.len(),
            sorted_ids(ids@),
            forall|k: int| 0 <= k < lo ==> ids@[k].0 < id.0,
            forall|k: int| hi <= k < ids@.len() ==> ids@[k].0 > id.0,
        decreases hi - lo,
    {
        let mid = lo + (hi - lo) / 2;
        let v = ids[mid].0;
        if v == id.0 {
            assert(ids@[mid as int] == id);
            return true;
        } else if v < id.0 {
            lo = mid + 1;
        } else {
            hi = mid;
        }
    }
    assert forall|k: int| 0 <= k < ids@.len() implies ids@[k] != id by {
        if k < lo {
        } else {
        }
    }
    false
}

/// A selected field with no value in the response object is skipped when
/// the object's type is known and does not have the field's parent entity
/// (the field came from a fragment on another type); otherwise it is an
/// error.
pub fn skip_missing_field(definition_id: Option<ObjectDefinitionId>, parent: &ParentEntity) -> (r: bool)
    requires
        parent matches ParentEntity::Interface { possible_type_ids } ==> sorted_ids(possible_type_ids@),
    ensures
        r == (definition_id matches Some(d) && !object_has_parent(d, parent)),
{
    match definition_id {
        Some(definition_id) => match parent {
            ParentEntity::Interface { possible_type_ids } => !contains_sorted(possible_type_ids, definition_id),
            ParentEntity::Object { id } => id.0 != definition_id.0,
        },
        None => false,
    }
}

/// `Could not retrieve field <parent>.<field>`.
pub open spec fn missing_field_message(parent_name: Seq<char>, field_name: Seq<char>) -> Seq<char> {
    "Could not retrieve field "@ + parent_name + "."@ + field_name
}

/// The error reported for a field that is missing from a response object.
pub fn missing_field_error(parent_name: &str, field_name: &str) -> (r: String)
    ensures
        r@ == missing_field_message(parent_name@, field_name@),
{
    let mut m = owned("Could not retrieve field ");
    m.append(parent_name);
    m.append(".");
    m.append(field_name);
    m
}

/// The error reported for a field that is missing from a response object
/// written with extra constant fields: `Could not retrieve field <field>`.
pub fn missing_required_field_error(field_name: &str) -> (r: String)
    ensures
        r@ == "Could not retrieve field "@ + field_name@,
{
    let mut m = owned("Could not retrieve field ");
    m.append(field_name);
    m
}

/// A value of a response. Nested lists, objects and maps, and values kept
/// out of reach of the user, are stored apart and referred to by position.
#[derive(Debug)]
pub enum ResponseValue {
    Null,
    /// A value stored in `ResponseData::values`.
    Inaccessible { id: usize },
    Boolean { value: bool },
    Int { value: i32 },
    /// A floating-point number, as the text the host writes it with.
    Float { text: String },
    String { value: String },
    /// A string of the schema.
    StringId { id: StringId },
    BigInt { value: i64 },
    /// A list stored in `ResponseData::lists`.
    List { id: usize },
    /// An object stored in `ResponseData::objects`.
    Object { id: usize },
    Unexpected,
    U64 { value: u64 },
    /// A map stored in `ResponseData::maps`.
    StringMap { id: usize },
}

/// An object of a response: its type, when known, and its fields by id.
#[derive(Debug)]
pub struct ResponseObject {
    pub definition_id: Option<ObjectDefinitionId>,
    pub fields: Vec<(u32, ResponseValue)>,
}

/// The parts of a response that values refer to.
#[derive(Debug)]
pub struct ResponseData {
    pub values: Vec<ResponseValue>,
    pub lists: Vec<Vec<ResponseValue>>,
    pub objects: Vec<ResponseObject>,
    pub maps: Vec<Vec<(String, ResponseValue)>>,
}

/// A field selected in the query.
#[derive(Debug)]
pub struct Selection {
    /// The id of the field in response objects.
    pub id: u32,
    /// The key the field is written under (its alias, or its name).
    pub key: String,
    /// The name of the field's definition.
    pub field_name: String,
    /// The name of the entity that defines the field.
    pub parent_name: String,
    /// The entity that defines the field.
    pub parent: ParentEntity,
    /// The fields selected in the field's value.
    pub subselection: Vec<Selection>,
}

impl ResponseData {
    /// How many references may be followed from a value: one per stored
    /// part, plus one.
    pub open spec fn fuel(&self) -> nat {
        (self.values@.len() + self.lists@.len() + self.objects@.len() + self.maps@.len() + 1) as nat
    }
}

/// How a signed integer is written in decimal.
pub open spec fn signed_decimal(n: int) -> Seq<char> {
    if n < 0 {
        "-"@ + decimal((-n) as nat)
    } else {
        decimal(n as nat)
    }
}

/// `n` written in decimal.
fn signed_decimal_text(n: i64) -> (r: String)
    ensures
        r@ == signed_decimal(n as int),
{
    if n < 0 {
        let m: u64 = ((-(n + 1)) as u64) + 1;
        let mut s = owned("-");
        let d = decimal_text(m);
        s.append(d.as_str());
        s
    } else {
        decimal_text(n as u64)
    }
}

/// The value of the first field of the object with the id `id`.
pub open spec fn find_field(fields: Seq<(u32, ResponseValue)>, id: u32) -> Option<ResponseValue>
    decreases fields.len(),
{
    if fields.len() == 0 {
        None
    } else if fields[0].0 == id {
        Some(fields[0].1)
    } else {
        find_field(fields.drop_first(), id)
    }
}

/// The interface's possible types are sorted, as the schema keeps them.
pub open spec fn parent_sorted(p: ParentEntity) -> bool {
    match p {
        ParentEntity::Interface { possible_type_ids } => sorted_ids(possible_type_ids@),
        ParentEntity::Object { .. } => true,
    }
}

/// A result built from a first part and the rest: the first failure wins.
pub open spec fn then_seq<A>(first: Option<Result<A, Seq<char>>>, rest: Option<Result<Seq<A>, Seq<char>>>) -> Option<
    Result<Seq<A>, Seq<char>>,
> {
    match first {
        None => None,
        Some(Err(e)) => Some(Err(e)),
        Some(Ok(a)) => match rest {
            None => None,
            Some(Err(e)) => Some(Err(e)),
            Some(Ok(r)) => Some(Ok(seq![a] + r)),
        },
    }
}

pub open spec fn wrap<A>(r: Option<Result<A, Seq<char>>>, f: spec_fn(A) -> JsonView) -> Option<Result<JsonView, Seq<char>>> {
    match r {
        None => None,
        Some(Err(e)) => Some(Err(e)),
        Some(Ok(a)) => Some(Ok(f(a))),
    }
}

/// The JSON a value is written as, with the fields of `sel` selected in the
/// objects it holds: `Some(Err(..))` with the message of the error that
/// stops the writing, `None` when writing it would follow a reference to a
/// missing part or a string the schema does not have, go round a cycle
/// (more than `fuel` references in a row), or search unsorted possible
/// types.
pub open spec fn write_value(
    data: ResponseData,
    strings: Seq<String>,
    v: ResponseValue,
    sel: Seq<Selection>,
    fuel: nat,
) -> Option<Result<JsonView, Seq<char>>>
    decreases fuel, 0nat, 0nat,
{
    match v {
        ResponseValue::Null => Some(Ok(JsonView::Null)),
        ResponseValue::Inaccessible { id } => if fuel == 0 || id >= data.values@.len() {
            None
        } else {
            write_value(data, strings, data.values@[id as int], sel, (fuel - 1) as nat)
        },
        ResponseValue::Boolean { value } => Some(Ok(JsonView::Bool(value))),
        ResponseValue::Int { value } => Some(Ok(JsonView::Number(signed_decimal(value as int)))),
        ResponseValue::Float { text } => Some(Ok(JsonView::Number(text@))),
        ResponseValue::String { value } => Some(Ok(JsonView::String(value@))),
        ResponseValue::StringId { id } => if id.0 < strings.len() {
            Some(Ok(JsonView::String(strings[id.0 as int]@)))
        } else {
            None
        },
        ResponseValue::BigInt { value } => Some(Ok(JsonView::Number(signed_decimal(value as int)))),
        ResponseValue::List { id } => if fuel == 0 || id >= data.lists@.len() {
            None
        } else {
            wrap(
                write_list(data, strings, data.lists@[id as int]@, sel, (fuel - 1) as nat),
                |items: Seq<JsonView>| JsonView::Array(items),
            )
        },
        ResponseValue::Object { id } => if fuel == 0 || id >= data.objects@.len() {
            None
        } else {
            wrap(
                write_fields(data, strings, data.objects@[id as int], sel, (fuel - 1) as nat),
                |fields: Seq<(Seq<char>, JsonView)>| JsonView::Object(fields),
            )
        },
        ResponseValue::Unexpected => Some(Err("Unexpected value"@)),
        ResponseValue::U64 { value } => Some(Ok(JsonView::Number(decimal(value as nat)))),
        ResponseValue::StringMap { id } => if fuel == 0 || id >= data.maps@.len() {
            None
        } else {
            wrap(
                write_map(data, strings, data.maps@[id as int]@, sel, (fuel - 1) as nat),
                |fields: Seq<(Seq<char>, JsonView)>| JsonView::Object(fields),
            )
        },
    }
}

/// The JSON the items of a list are written as, in order.
pub open spec fn write_list(
    data: ResponseData,
    strings: Seq<String>,
    items: Seq<ResponseValue>,
    sel: Seq<Selection>,
    fuel: nat,
) -> Option<Result<Seq<JsonView>, Seq<char>>>
    decreases fuel, 1nat, items.len(),
{
    if items.len() == 0 {
        Some(Ok(Seq::empty()))
    } else {
        then_seq(
            write_value(data, strings, items[0], sel, fuel),
            write_list(data, strings, items.drop_first(), sel, fuel),
        )
    }
}

/// The entries a map is written as, in order.
pub open spec fn write_map(
    data: ResponseData,
    strings: Seq<String>,
    entries: Seq<(String, ResponseValue)>,
    sel: Seq<Selection>,
    fuel: nat,
) -> Option<Result<Seq<(Seq<char>, JsonView)>, Seq<char>>>
    decreases fuel, 1nat, entries.len(),
{
    if entries.len() == 0 {
        Some(Ok(Seq::empty()))
    } else {
        then_seq(
            match write_value(data, strings, entries[0].1, sel, fuel) {
                None => None,
                Some(Err(e)) => Some(Err(e)),
                Some(Ok(j)) => Some(Ok((entries[0].0@, j))),
            },
            write_map(data, strings, entries.drop_first(), sel, fuel),
        )
    }
}

/// The entries an object is written as: for each selected field in order,
/// its key and value. A selected field the object lacks is skipped when the
/// object's type is known and does not have the field's parent entity (it
/// came from a fragment on another type); otherwise it stops the writing
/// with `Could not retrieve field <parent>.<field>`.
pub open spec fn write_fields(
    data: ResponseData,
    strings: Seq<String>,
    obj: ResponseObject,
    sel: Seq<Selection>,
    fuel: nat,
) -> Option<Result<Seq<(Seq<char>, JsonView)>, Seq<char>>>
    decreases fuel, 2nat, sel.len(),
{
    if sel.len() == 0 {
        Some(Ok(Seq::empty()))
    } else {
        let s = sel[0];
        match find_field(obj.fields@, s.id) {
            Some(v) => then_seq(
                match write_value(data, strings, v, s.subselection@, fuel) {
                    None => None,
                    Some(Err(e)) => Some(Err(e)),
                    Some(Ok(j)) => Some(Ok((s.key@, j))),
                },
                write_fields(data, strings, obj, sel.drop_first(), fuel),
            ),
            None => if !parent_sorted(s.parent) {
                None
            } else if obj.definition_id matches Some(d) && !object_has_parent(d, &s.parent) {
                write_fields(data, strings, obj, sel.drop_first(), fuel)
            } else {
                Some(Err(missing_field_message(s.parent_name@, s.field_name@)))
            },
        }
    }
}

/// The entries of an object written with extra constant fields: for each
/// selected field in order, its key and value; a selected field the object
/// lacks stops the writing with `Could not retrieve field <field>`.
pub open spec fn write_required_fields(
    data: ResponseData,
    strings: Seq<String>,
    obj: ResponseObject,
    sel: Seq<Selection>,
    fuel: nat,
) -> Option<Result<Seq<(Seq<char>, JsonView)>, Seq<char>>>
    decreases sel.len(),
{
    if sel.len() == 0 {
        Some(Ok(Seq::empty()))
    } else {
        let s = sel[0];
        match find_field(obj.fields@, s.id) {
            Some(v) => then_seq(
                match write_value(data, strings, v, s.subselection@, fuel) {
                    None => None,
                    Some(Err(e)) => Some(Err(e)),
                    Some(Ok(j)) => Some(Ok((s.key@, j))),
                },
                write_required_fields(data, strings, obj, sel.drop_first(), fuel),
            ),
            None => Some(Err("Could not retrieve field "@ + s.field_name@)),
        }
    }
}

pub open spec fn result_view(r: Result<JsonValue, String>) -> Result<JsonView, Seq<char>> {
    match r {
        Ok(j) => Ok(j@),
        Err(e) => Err(e@),
    }
}

pub open spec fn json_views(v: Seq<JsonValue>) -> Seq<JsonView> {
    v.map_values(|j: JsonValue| j@)
}

pub open spec fn entry_views(v: Seq<(String, JsonValue)>) -> Seq<(Seq<char>, JsonView)> {
    v.map_values(|e: (String, JsonValue)| (e.0@, e.1@))
}

pub open spec fn prepend_ok<A>(prefix: Seq<A>, r: Option<Result<Seq<A>, Seq<char>>>) -> Option<Result<Seq<A>, Seq<char>>> {
    match r {
        Some(Ok(rest)) => Some(Ok(prefix + rest)),
        other => other,
    }
}

pub open spec fn seq_result_view(r: Result<Vec<JsonValue>, String>) -> Result<Seq<JsonView>, Seq<char>> {
    match r {
        Ok(v) => Ok(json_views(v@)),
        Err(e) => Err(e@),
    }
}

pub open spec fn entries_result_view(r: Result<Vec<(String, JsonValue)>, String>) -> Result<
    Seq<(Seq<char>, JsonView)>,
    Seq<char>,
> {
    match r {
        Ok(v) => Ok(entry_views(v@)),
        Err(e) => Err(e@),
    }
}

proof fn lemma_prepend_step<A>(prefix: Seq<A>, a: A, rest: Option<Result<Seq<A>, Seq<char>>>)
    ensures
        prepend_ok(prefix, then_seq(Some(Ok(a)), rest)) == prepend_ok(prefix.push(a), rest),
{
    match rest {
        Some(Ok(r)) => {
            assert(prefix + (seq![a] + r) =~= prefix.push(a) + r);
        },
        _ => {},
    }
}

fn array_value(items: Vec<JsonValue>) -> (r: JsonValue)
    ensures
        r@ == JsonView::Array(json_views(items@)),
{
    let r = JsonValue::Array(items);
    proof {
        match r@ {
            JsonView::Array(a) => {
                assert(a =~= json_views(items@));
            },
            _ => {},
        }
    }
    r
}

fn object_value(fields: Vec<(String, JsonValue)>) -> (r: JsonValue)
    ensures
        r@ == JsonView::Object(entry_views(fields@)),
{
    let r = JsonValue::Object(fields);
    proof {
        match r@ {
            JsonView::Object(a) => {
                assert(a =~= entry_views(fields@));
            },
            _ => {},
        }
    }
    r
}

/// The value of the first field of the object with the id `id`.
fn find_field_exec(fields: &Vec<(u32, ResponseValue)>, id: u32) -> (r: Option<&ResponseValue>)
    ensures
        match r {
            Some(v) => find_field(fields@, id) == Some(*v),
            None => find_field(fields@, id) is None,
        },
{
    let mut i: usize = 0;
    assert(fields@.skip(0) =~= fields@);
    while i < fields.len()
        invariant
            i <= fields@.len(),
            find_field(fields@, id) == find_field(fields@.skip(i as int), id),
        decreases fields.len() - i,
    {
        assert(fields@.skip(i as int).drop_first() =~= fields@.skip(i + 1));
        if fields[i].0 == id {
            return Some(&fields[i].1);
        }
        i += 1;
    }
    None
}

fn write_value_exec(
    data: &ResponseData,
    strings: &Vec<String>,
    v: &ResponseValue,
    sel: &Vec<Selection>,
    Ghost(fuel): Ghost<nat>,
) -> (r: Result<JsonValue, String>)
    requires
        write_value(*data, strings@, *v, sel@, fuel) is Some,
    ensures
        write_value(*data, strings@, *v, sel@, fuel) == Some(result_view(r)),
    decreases fuel, 0nat, 0nat,
{
    match v {
        ResponseValue::Null => Ok(JsonValue::Null),
        ResponseValue::Inaccessible { id } => write_value_exec(
            data,
            strings,
            &data.values[*id],
            sel,
            Ghost((fuel - 1) as nat),
        ),
        ResponseValue::Boolean { value } => Ok(JsonValue::Bool(*value)),
        ResponseValue::Int { value } => Ok(JsonValue::Number(signed_decimal_text(*value as i64))),
        ResponseValue::Float { text } => Ok(JsonValue::Number(text.clone())),
        ResponseValue::String { value } => Ok(JsonValue::String(value.clone())),
        ResponseValue::StringId { id } => Ok(JsonValue::String(strings[id.0 as usize].clone())),
        ResponseValue::BigInt { value } => Ok(JsonValue::Number(signed_decimal_text(*value))),
        ResponseValue::List { id } => match write_list_exec(data, strings, &data.lists[*id], sel, Ghost((fuel - 1) as nat)) {
            Ok(items) => Ok(array_value(items)),
            Err(e) => Err(e),
        },
        ResponseValue::Object { id } => match write_fields_exec(
            data,
            strings,
            &data.objects[*id],
            sel,
            Ghost((fuel - 1) as nat),
        ) {
            Ok(fields) => Ok(object_value(fields)),
            Err(e) => Err(e),
        },
        ResponseValue::Unexpected => Err(owned("Unexpected value")),
        ResponseValue::U64 { value } => Ok(JsonValue::Number(decimal_text(*value))),
        ResponseValue::StringMap { id } => match write_map_exec(data, strings, &data.maps[*id], sel, Ghost((fuel - 1) as nat)) {
            Ok(fields) => Ok(object_value(fields)),
            Err(e) => Err(e),
        },
    }
}

fn write_list_exec(
    data: &ResponseData,
    strings: &Vec<String>,
    items: &Vec<ResponseValue>,
    sel: &Vec<Selection>,
    Ghost(fuel): Ghost<nat>,
) -> (r: Result<Vec<JsonValue>, String>)
    requires
        write_list(*data, strings@, items@, sel@, fuel) is Some,
    ensures
        write_list(*data, strings@, items@, sel@, fuel) == Some(seq_result_view(r)),
    decreases fuel, 1nat, 0nat,
{
    let mut out: Vec<JsonValue> = Vec::new();
    let mut i: usize = 0;
    assert(items@.skip(0) =~= items@);
    assert(json_views(out@) =~= Seq::<JsonView>::empty());
    while i < items.len()
        invariant
            i <= items@.len(),
            write_list(*data, strings@, items@, sel@, fuel) is Some,
            write_list(*data, strings@, items@, sel@, fuel) == prepend_ok(
                json_views(out@),
                write_list(*data, strings@, items@.skip(i as int), sel@, fuel),
            ),
        decreases items.len() - i,
    {
        let ghost rest = items@.skip(i as int);
        assert(rest.drop_first() =~= items@.skip(i + 1));
        assert(rest[0] == items@[i as int]);
        match write_value_exec(data, strings, &items[i], sel, Ghost(fuel)) {
            Err(e) => {
                return Err(e);
            },
            Ok(j) => {
                proof {
                    lemma_prepend_step(
                        json_views(out@),
                        j@,
                        write_list(*data, strings@, items@.skip(i + 1), sel@, fuel),
                    );
                }
                let ghost before = out@;
                out.push(j);
                assert(json_views(out@) =~= json_views(before).push(j@));
            },
        }
        i += 1;
    }
    assert(items@.skip(i as int) =~= Seq::<ResponseValue>::empty());
    assert(json_views(out@) + Seq::<JsonView>::empty() =~= json_views(out@));
    Ok(out)
}

fn write_map_exec(
    data: &ResponseData,
    strings: &Vec<String>,
    entries: &Vec<(String, ResponseValue)>,
    sel: &Vec<Selection>,
    Ghost(fuel): Ghost<nat>,
) -> (r: Result<Vec<(String, JsonValue)>, String>)
    requires
        write_map(*data, strings@, entries@, sel@, fuel) is Some,
    ensures
        write_map(*data, strings@, entries@, sel@, fuel) == Some(entries_result_view(r)),
    decreases fuel, 1nat, 0nat,
{
    let mut out: Vec<(String, JsonValue)> = Vec::new();
    let mut i: usize = 0;
    assert(entries@.skip(0) =~= entries@);
    assert(entry_views(out@) =~= Seq::<(Seq<char>, JsonView)>::empty());
    while i < entries.len()
        invariant
            i <= entries@.len(),
            write_map(*data, strings@, entries@, sel@, fuel) is Some,
            write_map(*data, strings@, entries@, sel@, fuel) == prepend_ok(
                entry_views(out@),
                write_map(*data, strings@, entries@.skip(i as int), sel@, fuel),
            ),
        decreases entries.len() - i,
    {
        let ghost rest = entries@.skip(i as int);
        assert(rest.drop_first() =~= entries@.skip(i + 1));
        assert(rest[0] == entries@[i as int]);
        match write_value_exec(data, strings, &entries[i].1, sel, Ghost(fuel)) {
            Err(e) => {
                return Err(e);
            },
            Ok(j) => {
                let k = entries[i].0.clone();
                proof {
                    lemma_prepend_step(
                        entry_views(out@),
                        (k@, j@),
                        write_map(*data, strings@, entries@.skip(i + 1), sel@, fuel),
                    );
                }
                let ghost before = out@;
                out.push((k, j));
                assert(entry_views(out@) =~= entry_views(before).push((k@, j@)));
            },
        }
        i += 1;
    }
    assert(entries@.skip(i as int) =~= Seq::<(String, ResponseValue)>::empty());
    assert(entry_views(out@) + Seq::<(Seq<char>, JsonView)>::empty() =~= entry_views(out@));
    Ok(out)
}

fn write_fields_exec(
    data: &ResponseData,
    strings: &Vec<String>,
    obj: &ResponseObject,
    sel: &Vec<Selection>,
    Ghost(fuel): Ghost<nat>,
) -> (r: Result<Vec<(String, JsonValue)>, String>)
    requires
        write_fields(*data, strings@, *obj, sel@, fuel) is Some,
    ensures
        write_fields(*data, strings@, *obj, sel@, fuel) == Some(entries_result_view(r)),
    decreases fuel, 2nat, 0nat,
{
    let mut out: Vec<(String, JsonValue)> = Vec::new();
    let mut i: usize = 0;
    assert(sel@.skip(0) =~= sel@);
    assert(entry_views(out@) =~= Seq::<(Seq<char>, JsonView)>::empty());
    while i < sel.len()
        invariant
            i <= sel@.len(),
            write_fields(*data, strings@, *obj, sel@, fuel) is Some,
            write_fields(*data, strings@, *obj, sel@, fuel) == prepend_ok(
                entry_views(out@),
                write_fields(*data, strings@, *obj, sel@.skip(i as int), fuel),
            ),
        decreases sel.len() - i,
    {
        let ghost rest = sel@.skip(i as int);
        assert(rest.drop_first() =~= sel@.skip(i + 1));
        assert(rest[0] == sel@[i as int]);
        let s = &sel[i];
        match find_field_exec(&obj.fields, s.id) {
            Some(v) => {
                match write_value_exec(data, strings, v, &s.subselection, Ghost(fuel)) {
                    Err(e) => {
                        return Err(e);
                    },
                    Ok(j) => {
                        let k = s.key.clone();
                        proof {
                            lemma_prepend_step(
                                entry_views(out@),
                                (k@, j@),
                                write_fields(*data, strings@, *obj, sel@.skip(i + 1), fuel),
                            );
                        }
                        let ghost before = out@;
                        out.push((k, j));
                        assert(entry_views(out@) =~= entry_views(before).push((k@, j@)));
                    },
                }
            },
            None => {
                if !skip_missing_field(obj.definition_id, &s.parent) {
                    return Err(missing_field_error(s.parent_name.as_str(), s.field_name.as_str()));
                }
            },
        }
        i += 1;
    }
    assert(sel@.skip(i as int) =~= Seq::<Selection>::empty());
    assert(entry_views(out@) + Seq::<(Seq<char>, JsonView)>::empty() =~= entry_views(out@));
    Ok(out)
}

fn write_required_fields_exec(
    data: &ResponseData,
    strings: &Vec<String>,
    obj: &ResponseObject,
    sel: &Vec<Selection>,
    Ghost(fuel): Ghost<nat>,
) -> (r: Result<Vec<(String, JsonValue)>, String>)
    requires
        write_required_fields(*data, strings@, *obj, sel@, fuel) is Some,
    ensures
        write_required_fields(*data, strings@, *obj, sel@, fuel) == Some(entries_result_view(r)),
{
    let mut out: Vec<(String, JsonValue)> = Vec::new();
    let mut i: usize = 0;
    assert(sel@.skip(0) =~= sel@);
    assert(entry_views(out@) =~= Seq::<(Seq<char>, JsonView)>::empty());
    while i < sel.len()
        invariant
            i <= sel@.len(),
            write_required_fields(*data, strings@, *obj, sel@, fuel) is Some,
            write_required_fields(*data, strings@, *obj, sel@, fuel) == prepend_ok(
                entry_views(out@),
                write_required_fields(*data, strings@, *obj, sel@.skip(i as int), fuel),
            ),
        decreases sel.len() - i,
    {
        let ghost rest = sel@.skip(i as int);
        assert(rest.drop_first() =~= sel@.skip(i + 1));
        assert(rest[0] == sel@[i as int]);
        let s = &sel[i];
        match find_field_exec(&obj.fields, s.id) {
            Some(v) => {
                match write_value_exec(data, strings, v, &s.subselection, Ghost(fuel)) {
                    Err(e) => {
                        return Err(e);
                    },
                    Ok(j) => {
                        let k = s.key.clone();
                        proof {
                            lemma_prepend_step(
                                entry_views(out@),
                                (k@, j@),
                                write_required_fields(*data, strings@, *obj, sel@.skip(i + 1), fuel),
                            );
                        }
                        let ghost before = out@;
                        out.push((k, j));
                        assert(entry_views(out@) =~= entry_views(before).push((k@, j@)));
                    },
                }
            },
            None => {
                return Err(missing_required_field_error(s.field_name.as_str()));
            },
        }
        i += 1;
    }
    assert(sel@.skip(i as int) =~= Seq::<Selection>::empty());
    assert(entry_views(out@) + Seq::<(Seq<char>, JsonView)>::empty() =~= entry_views(out@));
    Ok(out)
}

/// A value of a response, with the fields selected in the objects it holds,
/// and the schema's strings.
pub struct ResponseValueView<'a> {
    pub data: &'a ResponseData,
    pub strings: &'a Vec<String>,
    pub value: &'a ResponseValue,
    pub selection_set: &'a Vec<Selection>,
}

/// An object of a response, with its selected fields.
pub struct ResponseObjectView<'a> {
    pub data: &'a ResponseData,
    pub strings: &'a Vec<String>,
    pub response_object: &'a ResponseObject,
    pub selection_set: &'a Vec<Selection>,
}

/// An object of a response written with constant fields before its selected
/// fields.
pub struct ResponseObjectViewWithExtraFields<'a> {
    pub data: &'a ResponseData,
    pub strings: &'a Vec<String>,
    pub response_object: &'a ResponseObject,
    pub selection_set: &'a Vec<Selection>,
    pub extra_constant_fields: &'a Vec<(String, JsonValue)>,
}

impl<'a> ResponseValueView<'a> {
    /// The JSON the value is written as (what `serde::Serialize` writes), or
    /// the message of the error that stops the writing. The value must only
    /// refer to parts and strings that exist, without a cycle.
    pub fn serialize(&self) -> (r: Result<JsonValue, String>)
        requires
            write_value(*self.data, self.strings@, *self.value, self.selection_set@, self.data.fuel()) is Some,
        ensures
            write_value(*self.data, self.strings@, *self.value, self.selection_set@, self.data.fuel()) == Some(
                result_view(r),
            ),
    {
        write_value_exec(self.data, self.strings, self.value, self.selection_set, Ghost(self.data.fuel()))
    }
}

impl<'a> ResponseObjectView<'a> {
    /// The JSON object the response object is written as (what
    /// `serde::Serialize` writes): its selected fields in order, a missing
    /// field that came from a fragment on another type skipped; or the
    /// message of the error that stops the writing.
    pub fn serialize(&self) -> (r: Result<JsonValue, String>)
        requires
            write_fields(*self.data, self.strings@, *self.response_object, self.selection_set@, self.data.fuel())
                is Some,
        ensures
            wrap(
                write_fields(*self.data, self.strings@, *self.response_object, self.selection_set@, self.data.fuel()),
                |fields: Seq<(Seq<char>, JsonView)>| JsonView::Object(fields),
            ) == Some(result_view(r)),
    {
        match write_fields_exec(self.data, self.strings, self.response_object, self.selection_set, Ghost(self.data.fuel())) {
            Ok(fields) => Ok(object_value(fields)),
            Err(e) => Err(e),
        }
    }
}

impl<'a> ResponseObjectViewWithExtraFields<'a> {
    /// The JSON object written: the constant fields, then the selected
    /// fields in order; or the message of the error that stops the writing
    /// (`Could not retrieve field <field>` for a missing field).
    pub fn serialize(&self) -> (r: Result<JsonValue, String>)
        requires
            write_required_fields(
                *self.data,
                self.strings@,
                *self.response_object,
                self.selection_set@,
                self.data.fuel(),
            ) is Some,
        ensures
            wrap(
                write_required_fields(
                    *self.data,
                    self.strings@,
                    *self.response_object,
                    self.selection_set@,
                    self.data.fuel(),
                ),
                |fields: Seq<(Seq<char>, JsonView)>| JsonView::Object(entry_views(self.extra_constant_fields@) + fields),
            ) == Some(result_view(r)),
    {
        let mut out: Vec<(String, JsonValue)> = Vec::new();
        let extra = self.extra_constant_fields;
        let mut i: usize = 0;
        while i < extra.len()
            invariant
                i <= extra@.len(),
                entry_views(out@) == entry_views(extra@.take(i as int)),
            decreases extra.len() - i,
        {
            let ghost before = out@;
            let k = extra[i].0.clone();
            let v = extra[i].1.duplicate();
            assert(k@ == extra@[i as int].0@ && v@ == extra@[i as int].1@);
            out.push((k, v));
            assert(entry_views(out@) =~= entry_views(before).push((extra@[i as int].0@, extra@[i as int].1@)));
            assert(extra@.take(i + 1) =~= extra@.take(i as int).push(extra@[i as int]));
            assert(entry_views(extra@.take(i + 1)) =~= entry_views(extra@.take(i as int)).push(
                (extra@[i as int].0@, extra@[i as int].1@),
            ));
            i += 1;
        }
        assert(extra@.take(i as int) =~= extra@);
        match write_required_fields_exec(
            self.data,
            self.strings,
            self.response_object,
            self.selection_set,
            Ghost(self.data.fuel()),
        ) {
            Ok(fields) => {
                let ghost prefix = out@;
                let mut fields = fields;
                let ghost fs = fields@;
                out.append(&mut fields);
                assert(entry_views(out@) =~= entry_views(prefix) + entry_views(fs));
                Ok(object_value(out))
            },
            Err(e) => Err(e),
        }
    }
}

/// A scalar of the response is written as itself, whatever the selection
/// and the stored lists and objects: a boolean as the same boolean, a string
/// (stored or referred to by id) as the same string, a float as its text,
/// null as null.
pub proof fn lemma_scalars_written_as_themselves(
    data: ResponseData,
    strings: Seq<String>,
    sel: Seq<Selection>,
    fuel: nat,
    b: bool,
    text: String,
)
    ensures
        write_value(data, strings, ResponseValue::Boolean { value: b }, sel, fuel) == Some(
            Ok::<JsonView, Seq<char>>(JsonView::Bool(b)),
        ),
        write_value(data, strings, ResponseValue::String { value: text }, sel, fuel) == Some(
            Ok::<JsonView, Seq<char>>(JsonView::String(text@)),
        ),
        write_value(data, strings, ResponseValue::Float { text }, sel, fuel) == Some(
            Ok::<JsonView, Seq<char>>(JsonView::Number(text@)),
        ),
        write_value(data, strings, ResponseValue::Null, sel, fuel) == Some(Ok::<JsonView, Seq<char>>(JsonView::Null)),
        forall|id: StringId|
            id.0 < strings.len() ==> #[trigger] write_value(data, strings, ResponseValue::StringId { id }, sel, fuel)
                == Some(Ok::<JsonView, Seq<char>>(JsonView::String(strings[id.0 as int]@))),
{
}

} // verus!
