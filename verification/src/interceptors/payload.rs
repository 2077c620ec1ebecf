//! Payloads that are exchanged with interceptors: protobuf structs, JSON values
//! and TOML tables.

use crate::json::{group_json_views, Json, JsonView, Number};
use crate::outcome::shown;
use crate::proto_struct;
use crate::proto_struct::{
    json_object_to_struct, json_of, json_value_to_proto, members_of, object_converted,
    struct_to_json_value, value_converted, value_to_json, FieldsView, Struct, Value, ValueView,
};
use vstd::prelude::*;

verus! {

/// The protobuf struct of a JSON value, which has to be an object.
pub open spec fn struct_of(json: JsonView) -> Result<FieldsView, Seq<char>> {
    match json {
        JsonView::Object(members) => match object_converted(members) {
            Ok(fields) => Ok(fields),
            Err(_) => Err("JSON number is not representable as f64"@),
        },
        _ => Err("protobuf Struct payload must be a JSON object"@),
    }
}

/// The protobuf value of a JSON value.
pub open spec fn proto_value_of(json: JsonView) -> Result<ValueView, Seq<char>> {
    match value_converted(json) {
        Ok(value) => Ok(value),
        Err(_) => Err("JSON number is not representable as f64"@),
    }
}

/// The protobuf struct of a JSON value, which has to be an object.
pub fn json_to_struct(value: &Json) -> (r: Result<Struct, String>)
    ensures
        shown(r) == struct_of(value.deep_view()),
{
    broadcast use group_json_views;

    match value {
        Json::Object(members) => match json_object_to_struct(members) {
            Ok(fields) => Ok(fields),
            Err(_) => Err("JSON number is not representable as f64".to_owned()),
        },
        _ => Err("protobuf Struct payload must be a JSON object".to_owned()),
    }
}

/// The JSON value of a protobuf struct.
pub fn struct_to_json(value: &Struct) -> (r: Json)
    ensures
        r.deep_view() == JsonView::Object(members_of(value.deep_view())),
{
    struct_to_json_value(value)
}

/// The protobuf value of a JSON value.
pub fn json_to_proto_value(value: &Json) -> (r: Result<Value, String>)
    ensures
        shown(r) == proto_value_of(value.deep_view()),
{
    match json_value_to_proto(value) {
        Ok(value) => Ok(value),
        Err(_) => Err("JSON number is not representable as f64".to_owned()),
    }
}

/// The JSON value of a protobuf value.
pub fn proto_value_to_json(value: &Value) -> (r: Json)
    ensures
        r.deep_view() == json_of(value.deep_view()),
{
    value_to_json(value)
}

// ---------------------------------------------------------------------------
// TOML
// ---------------------------------------------------------------------------

/// A TOML value. A float is given by the bits of its IEEE 754 double, an integer
/// comes with the bits of the double that is nearest to it, and a date-time is
/// given by its text. The entries of a table are ordered by key.
#[derive(Debug, PartialEq, Eq)]
pub enum Toml {
    Text(String),
    Integer { value: i64, double: u64 },
    Float(u64),
    Bool(bool),
    Datetime(String),
    Array(Vec<Toml>),
    Table(Vec<(String, Toml)>),
}

/// The content of a TOML value.
#[verifier::ext_equal]
pub enum TomlView {
    Text(Seq<char>),
    Integer { value: i64, double: u64 },
    Float(u64),
    Bool(bool),
    Datetime(Seq<char>),
    Array(Seq<TomlView>),
    Table(Seq<(Seq<char>, TomlView)>),
}

/// The content of a TOML value.
pub open spec fn toml_view(toml: Toml) -> TomlView
    decreases toml,
{
    match toml {
        Toml::Text(value) => TomlView::Text(value@),
        Toml::Integer { value, double } => TomlView::Integer { value, double },
        Toml::Float(bits) => TomlView::Float(bits),
        Toml::Bool(value) => TomlView::Bool(value),
        Toml::Datetime(value) => TomlView::Datetime(value@),
        Toml::Array(items) => TomlView::Array(
            Seq::new(
                items@.len(),
                |i: int|
                    if 0 <= i < items@.len() {
                        toml_view(items@[i])
                    } else {
                        TomlView::Bool(false)
                    },
            ),
        ),
        Toml::Table(entries) => TomlView::Table(
            Seq::new(
                entries@.len(),
                |i: int|
                    if 0 <= i < entries@.len() {
                        (entries@[i].0@, toml_view(entries@[i].1))
                    } else {
                        (Seq::empty(), TomlView::Bool(false))
                    },
            ),
        ),
    }
}

impl DeepView for Toml {
    type V = TomlView;

    open spec fn deep_view(&self) -> TomlView {
        toml_view(*self)
    }
}

/// The content of an array is the content of its items.
pub broadcast proof fn lemma_array_view(items: Vec<Toml>)
    ensures
        #[trigger] toml_view(Toml::Array(items)) == TomlView::Array(items.deep_view()),
{
    let seen = toml_view(Toml::Array(items));
    assert(seen is Array);
    assert(seen->Array_0 =~= items.deep_view());
}

/// The content of a table is the content of its entries.
pub broadcast proof fn lemma_table_view(entries: Vec<(String, Toml)>)
    ensures
        #[trigger] toml_view(Toml::Table(entries)) == TomlView::Table(entries.deep_view()),
{
    let seen = toml_view(Toml::Table(entries));
    assert(seen is Table);
    assert(seen->Table_0 =~= entries.deep_view());
}

pub broadcast group group_toml_views {
    lemma_array_view,
    lemma_table_view,
}

/// The JSON number of a TOML integer.
pub open spec fn integer_number(value: i64, double: u64) -> Number {
    if value >= 0 {
        Number::Unsigned { value: value as u64, double }
    } else {
        Number::Negative { value, double }
    }
}

/// The JSON value of a TOML value. A float that is not finite becomes null, and a
/// date-time becomes its text.
pub open spec fn json_of_toml(toml: TomlView) -> JsonView
    decreases toml,
{
    match toml {
        TomlView::Text(value) => JsonView::Text(value),
        TomlView::Integer { value, double } => JsonView::Number(integer_number(value, double)),
        TomlView::Float(bits) => if proto_struct::is_finite(bits) {
            JsonView::Number(Number::Double { bits })
        } else {
            JsonView::Null
        },
        TomlView::Bool(value) => JsonView::Bool(value),
        TomlView::Datetime(value) => JsonView::Text(value),
        TomlView::Array(items) => JsonView::List(
            Seq::new(
                items.len(),
                |i: int|
                    if 0 <= i < items.len() {
                        json_of_toml(items[i])
                    } else {
                        JsonView::Null
                    },
            ),
        ),
        TomlView::Table(entries) => JsonView::Object(
            Seq::new(
                entries.len(),
                |i: int|
                    if 0 <= i < entries.len() {
                        (entries[i].0, json_of_toml(entries[i].1))
                    } else {
                        (Seq::empty(), JsonView::Null)
                    },
            ),
        ),
    }
}

/// The JSON value of a TOML value.
pub fn toml_to_json(value: &Toml) -> (r: Json)
    ensures
        r.deep_view() == json_of_toml(value.deep_view()),
    decreases value, 1nat,
{
    broadcast use {group_json_views, group_toml_views};

    match value {
        Toml::Text(text) => Json::Text(text.clone()),
        Toml::Integer { value, double } => if *value >= 0 {
            Json::Number(Number::Unsigned { value: *value as u64, double: *double })
        } else {
            Json::Number(Number::Negative { value: *value, double: *double })
        },
        Toml::Float(bits) => if proto_struct::finite(*bits) {
            Json::Number(Number::Double { bits: *bits })
        } else {
            Json::Null
        },
        Toml::Bool(flag) => Json::Bool(*flag),
        Toml::Datetime(text) => Json::Text(text.clone()),
        Toml::Array(items) => {
            let out = items_to_json(items);
            proof {
                assert(json_of_toml(value.deep_view())->List_0 =~= out.deep_view());
            }
            Json::List(out)
        },
        Toml::Table(entries) => {
            let out = entries_to_json(entries);
            proof {
                assert(json_of_toml(value.deep_view())->Object_0 =~= out.deep_view());
            }
            Json::Object(out)
        },
    }
}

fn items_to_json(items: &Vec<Toml>) -> (r: Vec<Json>)
    ensures
        r.deep_view() == Seq::new(items@.len(), |i: int| json_of_toml(items.deep_view()[i])),
    decreases items, 0nat,
{
    let ghost list = items.deep_view();
    let mut out: Vec<Json> = Vec::new();
    let mut i: usize = 0;
    while i < items.len()
        invariant
            i <= items.len(),
            out.len() == i,
            list == items.deep_view(),
            forall|j: int| 0 <= j < i ==> #[trigger] out.deep_view()[j] == json_of_toml(list[j]),
        decreases items.len() - i,
    {
        let ghost before = out.deep_view();
        assert(list[i as int] == items@[i as int].deep_view());
        assert(decreases_to!(items => items@));
        assert(decreases_to!(items@ => items@[i as int]));
        out.push(toml_to_json(&items[i]));
        proof {
            assert forall|j: int| 0 <= j < i + 1 implies #[trigger] out.deep_view()[j]
                == json_of_toml(list[j]) by {
                if j < i {
                    assert(out.deep_view()[j] == before[j]);
                }
            }
        }
        i += 1;
    }
    assert(out.deep_view() =~= Seq::new(items@.len(), |i: int| json_of_toml(list[i])));
    out
}

fn entries_to_json(entries: &Vec<(String, Toml)>) -> (r: Vec<(String, Json)>)
    ensures
        r.deep_view() == Seq::new(
            entries@.len(),
            |i: int| (entries.deep_view()[i].0, json_of_toml(entries.deep_view()[i].1)),
        ),
    decreases entries, 0nat,
{
    let ghost list = entries.deep_view();
    let mut out: Vec<(String, Json)> = Vec::new();
    let mut i: usize = 0;
    while i < entries.len()
        invariant
            i <= entries.len(),
            out.len() == i,
            list == entries.deep_view(),
            forall|j: int|
                0 <= j < i ==> #[trigger] out.deep_view()[j] == (
                    list[j].0,
                    json_of_toml(list[j].1),
                ),
        decreases entries.len() - i,
    {
        let ghost before = out.deep_view();
        assert(list[i as int] == (entries@[i as int].0@, entries@[i as int].1.deep_view()));
        assert(decreases_to!(entries => entries@));
        assert(decreases_to!(entries@ => entries@[i as int]));
        assert(decreases_to!(entries@[i as int] => entries@[i as int].1));
        out.push((entries[i].0.clone(), toml_to_json(&entries[i].1)));
        proof {
            assert forall|j: int| 0 <= j < i + 1 implies #[trigger] out.deep_view()[j] == (
                list[j].0,
                json_of_toml(list[j].1),
            ) by {
                if j < i {
                    assert(out.deep_view()[j] == before[j]);
                }
            }
        }
        i += 1;
    }
    assert(out.deep_view() =~= Seq::new(
        entries@.len(),
        |i: int| (list[i].0, json_of_toml(list[i].1)),
    ));
    out
}

/// The protobuf struct of a TOML value, which has to be a table.
pub fn toml_value_to_struct(value: &Toml) -> (r: Result<Struct, String>)
    ensures
        shown(r) == struct_of(json_of_toml(value.deep_view())),
{
    let json = toml_to_json(value);
    json_to_struct(&json)
}

/// A TOML value that is no table has no protobuf struct.
pub proof fn law_only_tables_are_structs(toml: TomlView)
    ensures
        !(toml is Table) ==> struct_of(json_of_toml(toml)) == Err::<FieldsView, Seq<char>>(
            "protobuf Struct payload must be a JSON object"@,
        ),
{
}

} // verus!
