//! Dynamic protobuf values, and their conversion to and from JSON.

use crate::json::{
    group_json_views, Json, JsonView, Number,
};
use crate::outcome::shown;
use crate::text;
use crate::text::cat3;
use vstd::prelude::*;

verus! {

/// A dynamic protobuf value. A number is given by the bits of its IEEE 754
/// double. The fields of a struct are ordered by name.
#[derive(Debug, PartialEq, Eq)]
pub enum Value {
    Unset,
    Null,
    Number(u64),
    Text(String),
    Bool(bool),
    Struct(Vec<(String, Value)>),
    List(Vec<Value>),
}

/// The content of a dynamic value.
#[verifier::ext_equal]
pub enum ValueView {
    Unset,
    Null,
    Number(u64),
    Text(Seq<char>),
    Bool(bool),
    Struct(Seq<(Seq<char>, ValueView)>),
    List(Seq<ValueView>),
}

/// The content of a dynamic value.
pub open spec fn value_view(value: Value) -> ValueView
    decreases value,
{
    match value {
        Value::Unset => ValueView::Unset,
        Value::Null => ValueView::Null,
        Value::Number(bits) => ValueView::Number(bits),
        Value::Text(value) => ValueView::Text(value@),
        Value::Bool(value) => ValueView::Bool(value),
        Value::Struct(fields) => ValueView::Struct(
            Seq::new(
                fields@.len(),
                |i: int|
                    if 0 <= i < fields@.len() {
                        (fields@[i].0@, value_view(fields@[i].1))
                    } else {
                        (Seq::empty(), ValueView::Unset)
                    },
            ),
        ),
        Value::List(values) => ValueView::List(
            Seq::new(
                values@.len(),
                |i: int|
                    if 0 <= i < values@.len() {
                        value_view(values@[i])
                    } else {
                        ValueView::Unset
                    },
            ),
        ),
    }
}

impl DeepView for Value {
    type V = ValueView;

    open spec fn deep_view(&self) -> ValueView {
        value_view(*self)
    }
}

/// The content of a list is the content of its values.
pub broadcast proof fn lemma_values_view(values: Vec<Value>)
    ensures
        #[trigger] value_view(Value::List(values)) == ValueView::List(values.deep_view()),
{
    let seen = value_view(Value::List(values));
    assert(seen is List);
    assert(seen->List_0 =~= values.deep_view());
}

/// The content of a struct is the content of its fields.
pub broadcast proof fn lemma_fields_view(fields: Vec<(String, Value)>)
    ensures
        #[trigger] value_view(Value::Struct(fields)) == ValueView::Struct(fields.deep_view()),
{
    let seen = value_view(Value::Struct(fields));
    assert(seen is Struct);
    assert(seen->Struct_0 =~= fields.deep_view());
}

pub broadcast group group_value_views {
    lemma_values_view,
    lemma_fields_view,
}

/// A dynamic protobuf struct: its fields, ordered by name.
#[derive(Debug, PartialEq, Eq)]
pub struct Struct {
    pub fields: Vec<(String, Value)>,
}

/// The content of a dynamic struct.
pub type FieldsView = Seq<(Seq<char>, ValueView)>;

impl DeepView for Struct {
    type V = FieldsView;

    open spec fn deep_view(&self) -> FieldsView {
        self.fields.deep_view()
    }
}

impl Default for Struct {
    /// The struct without fields.
    fn default() -> (r: Struct)
        ensures
            r.deep_view() == FieldsView::empty(),
    {
        let r = Struct { fields: Vec::new() };
        assert(r.fields.deep_view() =~= FieldsView::empty());
        r
    }
}

/// Errors converting JSON values into protobuf well-known types.
#[derive(Debug, PartialEq, Eq)]
pub enum ProtoStructError {
    /// A JSON number cannot be represented by protobuf's double value.
    UnrepresentableNumber(Number),
}

impl DeepView for ProtoStructError {
    type V = Number;

    open spec fn deep_view(&self) -> Number {
        match self {
            ProtoStructError::UnrepresentableNumber(number) => *number,
        }
    }
}

/// The bits stand for a finite double: its exponent is not the greatest one.
pub open spec fn is_finite(bits: u64) -> bool {
    (bits / 0x10_0000_0000_0000) % 0x800 != 0x7ff
}

/// The bits of the double that is nearest to a number.
pub open spec fn nearest_double(number: Number) -> u64 {
    match number {
        Number::Unsigned { value, double } => double,
        Number::Negative { value, double } => double,
        Number::Double { bits } => bits,
    }
}

/// The first number in a value that no finite double is near to.
pub open spec fn unrepresentable(json: JsonView) -> Option<Number>
    decreases json, 0nat,
{
    match json {
        JsonView::Number(number) => if is_finite(nearest_double(number)) {
            None
        } else {
            Some(number)
        },
        JsonView::List(items) => unrepresentable_item(items, items.len()),
        JsonView::Object(members) => unrepresentable_member(members, members.len()),
        _ => None,
    }
}

/// The first such number in the first items of a list.
pub open spec fn unrepresentable_item(items: Seq<JsonView>, n: nat) -> Option<Number>
    decreases items, n,
{
    if n == 0 || n > items.len() {
        None
    } else {
        match unrepresentable_item(items, (n - 1) as nat) {
            Some(number) => Some(number),
            None => unrepresentable(items[n - 1]),
        }
    }
}

/// The first such number in the first members of an object.
pub open spec fn unrepresentable_member(members: Seq<(Seq<char>, JsonView)>, n: nat) -> Option<
    Number,
>
    decreases members, n,
{
    if n == 0 || n > members.len() {
        None
    } else {
        match unrepresentable_member(members, (n - 1) as nat) {
            Some(number) => Some(number),
            None => unrepresentable(members[n - 1].1),
        }
    }
}

/// The dynamic value with the content of a JSON value.
pub open spec fn proto_of(json: JsonView) -> ValueView
    decreases json,
{
    match json {
        JsonView::Null => ValueView::Null,
        JsonView::Bool(value) => ValueView::Bool(value),
        JsonView::Number(number) => ValueView::Number(nearest_double(number)),
        JsonView::Text(value) => ValueView::Text(value),
        JsonView::List(items) => ValueView::List(
            Seq::new(
                items.len(),
                |i: int|
                    if 0 <= i < items.len() {
                        proto_of(items[i])
                    } else {
                        ValueView::Unset
                    },
            ),
        ),
        JsonView::Object(members) => ValueView::Struct(
            Seq::new(
                members.len(),
                |i: int|
                    if 0 <= i < members.len() {
                        (members[i].0, proto_of(members[i].1))
                    } else {
                        (Seq::empty(), ValueView::Unset)
                    },
            ),
        ),
    }
}

/// The fields with the content of an object's members.
pub open spec fn fields_of(members: Seq<(Seq<char>, JsonView)>) -> FieldsView {
    Seq::new(members.len(), |i: int| (members[i].0, proto_of(members[i].1)))
}

/// What converting a JSON value gives.
pub open spec fn value_converted(json: JsonView) -> Result<ValueView, Number> {
    match unrepresentable(json) {
        Some(number) => Err(number),
        None => Ok(proto_of(json)),
    }
}

/// What converting the members of an object gives.
pub open spec fn object_converted(members: Seq<(Seq<char>, JsonView)>) -> Result<
    FieldsView,
    Number,
> {
    match unrepresentable_member(members, members.len()) {
        Some(number) => Err(number),
        None => Ok(fields_of(members)),
    }
}

/// The JSON value with the content of a dynamic value. A number that is not
/// finite, and a value that is not set, become null.
pub open spec fn json_of(value: ValueView) -> JsonView
    decreases value,
{
    match value {
        ValueView::Unset => JsonView::Null,
        ValueView::Null => JsonView::Null,
        ValueView::Number(bits) => if is_finite(bits) {
            JsonView::Number(Number::Double { bits })
        } else {
            JsonView::Null
        },
        ValueView::Text(value) => JsonView::Text(value),
        ValueView::Bool(value) => JsonView::Bool(value),
        ValueView::Struct(fields) => JsonView::Object(
            Seq::new(
                fields.len(),
                |i: int|
                    if 0 <= i < fields.len() {
                        (fields[i].0, json_of(fields[i].1))
                    } else {
                        (Seq::empty(), JsonView::Null)
                    },
            ),
        ),
        ValueView::List(values) => JsonView::List(
            Seq::new(
                values.len(),
                |i: int|
                    if 0 <= i < values.len() {
                        json_of(values[i])
                    } else {
                        JsonView::Null
                    },
            ),
        ),
    }
}

/// The members with the content of a struct's fields.
pub open spec fn members_of(fields: FieldsView) -> Seq<(Seq<char>, JsonView)> {
    Seq::new(fields.len(), |i: int| (fields[i].0, json_of(fields[i].1)))
}

proof fn lemma_item_found(items: Seq<JsonView>, n: nat)
    requires
        n <= items.len(),
        unrepresentable_item(items, n) is Some,
    ensures
        unrepresentable_item(items, items.len()) == unrepresentable_item(items, n),
    decreases items.len() - n,
{
    if n < items.len() {
        assert(unrepresentable_item(items, n + 1) == unrepresentable_item(items, n));
        lemma_item_found(items, n + 1);
    }
}

proof fn lemma_member_found(members: Seq<(Seq<char>, JsonView)>, n: nat)
    requires
        n <= members.len(),
        unrepresentable_member(members, n) is Some,
    ensures
        unrepresentable_member(members, members.len()) == unrepresentable_member(members, n),
    decreases members.len() - n,
{
    if n < members.len() {
        assert(unrepresentable_member(members, n + 1) == unrepresentable_member(members, n));
        lemma_member_found(members, n + 1);
    }
}

/// Tells whether bits stand for a finite double.
pub fn finite(bits: u64) -> (r: bool)
    ensures
        r == is_finite(bits),
{
    (bits / 0x10_0000_0000_0000) % 0x800 != 0x7ff
}

/// Converts the members of a JSON object into a protobuf struct.
pub fn json_object_to_struct(object: &Vec<(String, Json)>) -> (r: Result<Struct, ProtoStructError>)
    ensures
        shown(r) == object_converted(object.deep_view()),
{
    match convert_members(object) {
        Ok(fields) => Ok(Struct { fields }),
        Err(number) => Err(ProtoStructError::UnrepresentableNumber(number)),
    }
}

/// Converts a JSON value into a protobuf value.
pub fn json_value_to_proto(value: &Json) -> (r: Result<Value, ProtoStructError>)
    ensures
        shown(r) == value_converted(value.deep_view()),
{
    match convert_value(value) {
        Ok(value) => Ok(value),
        Err(number) => Err(ProtoStructError::UnrepresentableNumber(number)),
    }
}

fn convert_value(json: &Json) -> (r: Result<Value, Number>)
    ensures
        match r {
            Ok(value) => value_converted(json.deep_view()) == Ok::<ValueView, Number>(
                value.deep_view(),
            ),
            Err(number) => value_converted(json.deep_view()) == Err::<ValueView, Number>(number),
        },
    decreases json, 1nat,
{
    broadcast use {group_json_views, group_value_views};

    match json {
        Json::Null => Ok(Value::Null),
        Json::Bool(value) => Ok(Value::Bool(*value)),
        Json::Number(number) => {
            let bits: u64 = match number {
                Number::Unsigned { value, double } => *double,
                Number::Negative { value, double } => *double,
                Number::Double { bits } => *bits,
            };
            if finite(bits) {
                Ok(Value::Number(bits))
            } else {
                Err(*number)
            }
        },
        Json::Text(value) => Ok(Value::Text(value.clone())),
        Json::List(items) => match convert_items(items) {
            Ok(values) => {
                proof {
                    let expected = proto_of(json.deep_view());
                    assert(expected->List_0 =~= values.deep_view());
                }
                Ok(Value::List(values))
            },
            Err(number) => Err(number),
        },
        Json::Object(members) => match convert_members(members) {
            Ok(fields) => {
                proof {
                    let expected = proto_of(json.deep_view());
                    assert(expected->Struct_0 =~= fields.deep_view());
                }
                Ok(Value::Struct(fields))
            },
            Err(number) => Err(number),
        },
    }
}

fn convert_items(items: &Vec<Json>) -> (r: Result<Vec<Value>, Number>)
    ensures
        match r {
            Ok(values) => {
                &&& unrepresentable_item(items.deep_view(), items@.len()) is None
                &&& values.deep_view() == Seq::new(
                    items@.len(),
                    |i: int| proto_of(items.deep_view()[i]),
                )
            },
            Err(number) => unrepresentable_item(items.deep_view(), items@.len()) == Some(number),
        },
    decreases items, 0nat,
{
    let ghost list = items.deep_view();
    let mut values: Vec<Value> = Vec::new();
    let mut i: usize = 0;
    while i < items.len()
        invariant
            i <= items.len(),
            values.len() == i,
            list == items.deep_view(),
            unrepresentable_item(list, i as nat) is None,
            forall|j: int| 0 <= j < i ==> #[trigger] values.deep_view()[j] == proto_of(list[j]),
        decreases items.len() - i,
    {
        let ghost before = values.deep_view();
        assert(list[i as int] == items@[i as int].deep_view());
        assert(unrepresentable_item(list, (i + 1) as nat) == unrepresentable(list[i as int]));
        assert(decreases_to!(items => items@));
        assert(decreases_to!(items@ => items@[i as int]));
        match convert_value(&items[i]) {
            Ok(value) => {
                values.push(value);
            },
            Err(number) => {
                proof {
                    lemma_item_found(list, (i + 1) as nat);
                }
                return Err(number);
            },
        }
        proof {
            assert forall|j: int| 0 <= j < i + 1 implies #[trigger] values.deep_view()[j]
                == proto_of(list[j]) by {
                if j < i {
                    assert(values.deep_view()[j] == before[j]);
                }
            }
        }
        i += 1;
    }
    assert(values.deep_view() =~= Seq::new(items@.len(), |i: int| proto_of(list[i])));
    Ok(values)
}

fn convert_members(members: &Vec<(String, Json)>) -> (r: Result<Vec<(String, Value)>, Number>)
    ensures
        match r {
            Ok(fields) => {
                &&& unrepresentable_member(members.deep_view(), members@.len()) is None
                &&& fields.deep_view() == fields_of(members.deep_view())
            },
            Err(number) => unrepresentable_member(members.deep_view(), members@.len()) == Some(
                number,
            ),
        },
    decreases members, 0nat,
{
    let ghost list = members.deep_view();
    let mut fields: Vec<(String, Value)> = Vec::new();
    let mut i: usize = 0;
    while i < members.len()
        invariant
            i <= members.len(),
            fields.len() == i,
            list == members.deep_view(),
            unrepresentable_member(list, i as nat) is None,
            forall|j: int|
                0 <= j < i ==> #[trigger] fields.deep_view()[j] == (list[j].0, proto_of(list[j].1)),
        decreases members.len() - i,
    {
        let ghost before = fields.deep_view();
        assert(list[i as int] == (members@[i as int].0@, members@[i as int].1.deep_view()));
        assert(unrepresentable_member(list, (i + 1) as nat) == unrepresentable(list[i as int].1));
        assert(decreases_to!(members => members@));
        assert(decreases_to!(members@ => members@[i as int]));
        assert(decreases_to!(members@[i as int] => members@[i as int].1));
        match convert_value(&members[i].1) {
            Ok(value) => {
                fields.push((members[i].0.clone(), value));
            },
            Err(number) => {
                proof {
                    lemma_member_found(list, (i + 1) as nat);
                }
                return Err(number);
            },
        }
        proof {
            assert forall|j: int| 0 <= j < i + 1 implies #[trigger] fields.deep_view()[j] == (
                list[j].0,
                proto_of(list[j].1),
            ) by {
                if j < i {
                    assert(fields.deep_view()[j] == before[j]);
                }
            }
        }
        i += 1;
    }
    assert(fields.deep_view() =~= fields_of(list));
    Ok(fields)
}

/// Converts a protobuf struct into the members of a JSON object.
pub fn struct_to_json_object(config: &Struct) -> (r: Vec<(String, Json)>)
    ensures
        r.deep_view() == members_of(config.deep_view()),
{
    json_members(&config.fields)
}

/// Converts a protobuf struct into a JSON value.
pub fn struct_to_json_value(config: &Struct) -> (r: Json)
    ensures
        r.deep_view() == JsonView::Object(members_of(config.deep_view())),
{
    broadcast use group_json_views;

    Json::Object(struct_to_json_object(config))
}

/// Converts a protobuf value into a JSON value.
pub fn value_to_json(value: &Value) -> (r: Json)
    ensures
        r.deep_view() == json_of(value.deep_view()),
    decreases value, 1nat,
{
    broadcast use {group_json_views, group_value_views};

    match value {
        Value::Number(bits) => if finite(*bits) {
            Json::Number(Number::Double { bits: *bits })
        } else {
            Json::Null
        },
        Value::Text(text) => Json::Text(text.clone()),
        Value::Bool(flag) => Json::Bool(*flag),
        Value::Struct(fields) => {
            let members = json_members(fields);
            proof {
                let expected = json_of(value.deep_view());
                assert(expected->Object_0 =~= members.deep_view());
            }
            Json::Object(members)
        },
        Value::List(values) => {
            let items = json_items(values);
            proof {
                let expected = json_of(value.deep_view());
                assert(expected->List_0 =~= items.deep_view());
            }
            Json::List(items)
        },
        Value::Null => Json::Null,
        Value::Unset => Json::Null,
    }
}

fn json_items(values: &Vec<Value>) -> (r: Vec<Json>)
    ensures
        r.deep_view() == Seq::new(values@.len(), |i: int| json_of(values.deep_view()[i])),
    decreases values, 0nat,
{
    let ghost list = values.deep_view();
    let mut items: Vec<Json> = Vec::new();
    let mut i: usize = 0;
    while i < values.len()
        invariant
            i <= values.len(),
            items.len() == i,
            list == values.deep_view(),
            forall|j: int| 0 <= j < i ==> #[trigger] items.deep_view()[j] == json_of(list[j]),
        decreases values.len() - i,
    {
        let ghost before = items.deep_view();
        assert(list[i as int] == values@[i as int].deep_view());
        assert(decreases_to!(values => values@));
        assert(decreases_to!(values@ => values@[i as int]));
        items.push(value_to_json(&values[i]));
        proof {
            assert forall|j: int| 0 <= j < i + 1 implies #[trigger] items.deep_view()[j]
                == json_of(list[j]) by {
                if j < i {
                    assert(items.deep_view()[j] == before[j]);
                }
            }
        }
        i += 1;
    }
    assert(items.deep_view() =~= Seq::new(values@.len(), |i: int| json_of(list[i])));
    items
}

fn json_members(fields: &Vec<(String, Value)>) -> (r: Vec<(String, Json)>)
    ensures
        r.deep_view() == members_of(fields.deep_view()),
    decreases fields, 0nat,
{
    let ghost list = fields.deep_view();
    let mut members: Vec<(String, Json)> = Vec::new();
    let mut i: usize = 0;
    while i < fields.len()
        invariant
            i <= fields.len(),
            members.len() == i,
            list == fields.deep_view(),
            forall|j: int|
                0 <= j < i ==> #[trigger] members.deep_view()[j] == (list[j].0, json_of(list[j].1)),
        decreases fields.len() - i,
    {
        let ghost before = members.deep_view();
        assert(list[i as int] == (fields@[i as int].0@, fields@[i as int].1.deep_view()));
        assert(decreases_to!(fields => fields@));
        assert(decreases_to!(fields@ => fields@[i as int]));
        assert(decreases_to!(fields@[i as int] => fields@[i as int].1));
        members.push((fields[i].0.clone(), value_to_json(&fields[i].1)));
        proof {
            assert forall|j: int| 0 <= j < i + 1 implies #[trigger] members.deep_view()[j] == (
                list[j].0,
                json_of(list[j].1),
            ) by {
                if j < i {
                    assert(members.deep_view()[j] == before[j]);
                }
            }
        }
        i += 1;
    }
    assert(members.deep_view() =~= members_of(list));
    members
}

impl Value {
    /// A value with the same content.
    pub fn copy(&self) -> (r: Value)
        ensures
            r.deep_view() == self.deep_view(),
        decreases self, 1nat,
    {
        broadcast use group_value_views;

        match self {
            Value::Unset => Value::Unset,
            Value::Null => Value::Null,
            Value::Number(bits) => Value::Number(*bits),
            Value::Text(text) => Value::Text(text.clone()),
            Value::Bool(flag) => Value::Bool(*flag),
            Value::Struct(fields) => Value::Struct(copy_fields(fields)),
            Value::List(values) => Value::List(copy_values(values)),
        }
    }
}

fn copy_values(values: &Vec<Value>) -> (r: Vec<Value>)
    ensures
        r.deep_view() == values.deep_view(),
    decreases values, 0nat,
{
    let mut copies: Vec<Value> = Vec::new();
    let mut i: usize = 0;
    while i < values.len()
        invariant
            i <= values.len(),
            copies.len() == i,
            forall|j: int|
                0 <= j < i ==> #[trigger] copies.deep_view()[j] == values@[j].deep_view(),
        decreases values.len() - i,
    {
        let ghost before = copies.deep_view();
        assert(decreases_to!(values => values@));
        assert(decreases_to!(values@ => values@[i as int]));
        copies.push(values[i].copy());
        proof {
            assert forall|j: int| 0 <= j < i + 1 implies #[trigger] copies.deep_view()[j]
                == values@[j].deep_view() by {
                if j < i {
                    assert(copies.deep_view()[j] == before[j]);
                }
            }
        }
        i += 1;
    }
    assert(copies.deep_view() =~= values.deep_view());
    copies
}

fn copy_fields(fields: &Vec<(String, Value)>) -> (r: Vec<(String, Value)>)
    ensures
        r.deep_view() == fields.deep_view(),
    decreases fields, 0nat,
{
    let mut copies: Vec<(String, Value)> = Vec::new();
    let mut i: usize = 0;
    while i < fields.len()
        invariant
            i <= fields.len(),
            copies.len() == i,
            forall|j: int|
                0 <= j < i ==> #[trigger] copies.deep_view()[j] == fields@[j].deep_view(),
        decreases fields.len() - i,
    {
        let ghost before = copies.deep_view();
        assert(decreases_to!(fields => fields@));
        assert(decreases_to!(fields@ => fields@[i as int]));
        assert(decreases_to!(fields@[i as int] => fields@[i as int].1));
        copies.push((fields[i].0.clone(), fields[i].1.copy()));
        proof {
            assert forall|j: int| 0 <= j < i + 1 implies #[trigger] copies.deep_view()[j]
                == fields@[j].deep_view() by {
                if j < i {
                    assert(copies.deep_view()[j] == before[j]);
                }
            }
        }
        i += 1;
    }
    assert(copies.deep_view() =~= fields.deep_view());
    copies
}

impl Struct {
    /// A struct with the same content.
    pub fn copy(&self) -> (r: Struct)
        ensures
            r.deep_view() == self.deep_view(),
    {
        Struct { fields: copy_fields(&self.fields) }
    }
}

/// What is said of a list of strings that must not be empty, nor hold an empty
/// one.
pub open spec fn list_problem(values: Seq<Seq<char>>) -> Option<Seq<char>> {
    if values.len() == 0 {
        Some("must be a non-empty list of strings"@)
    } else {
        blank_item(values, values.len())
    }
}

/// What is said of the first blank text among the first `n` texts.
pub open spec fn blank_item(values: Seq<Seq<char>>, n: nat) -> Option<Seq<char>>
    decreases n,
{
    if n == 0 || n > values.len() {
        None
    } else {
        match blank_item(values, (n - 1) as nat) {
            Some(problem) => Some(problem),
            None => if text::trimmed(values[n - 1]).len() == 0 {
                Some("["@ + text::decimal((n - 1) as nat) + "] must be a non-empty string"@)
            } else {
                None
            },
        }
    }
}

proof fn lemma_blank_found(values: Seq<Seq<char>>, n: nat)
    requires
        n <= values.len(),
        blank_item(values, n) is Some,
    ensures
        blank_item(values, values.len()) == blank_item(values, n),
    decreases values.len() - n,
{
    if n < values.len() {
        assert(blank_item(values, n + 1) == blank_item(values, n));
        lemma_blank_found(values, n + 1);
    }
}

/// Takes the value of a present field as a non-empty list of non-empty strings.
pub fn deserialize_optional_non_empty_string_list(values: Vec<String>) -> (r: Result<
    Option<Vec<String>>,
    String,
>)
    ensures
        match list_problem(values.deep_view()) {
            Some(problem) => r matches Err(error) && error@ == problem,
            None => r matches Ok(Some(kept)) && kept.deep_view() == values.deep_view(),
        },
{
    if values.len() == 0 {
        return Err("must be a non-empty list of strings".to_owned());
    }
    let ghost list = values.deep_view();
    let mut i: usize = 0;
    while i < values.len()
        invariant
            i <= values.len(),
            values.len() > 0,
            list == values.deep_view(),
            blank_item(list, i as nat) is None,
        decreases values.len() - i,
    {
        assert(list[i as int] == values@[i as int]@);
        if text::is_blank(values[i].as_str()) {
            let index = text::decimal_of(i as u64);
            proof {
                lemma_blank_found(list, (i + 1) as nat);
            }
            return Err(cat3("[", index.as_str(), "] must be a non-empty string"));
        }
        i += 1;
    }
    Ok(Some(values))
}

/// The value with every number given as a double.
pub open spec fn with_doubles(json: JsonView) -> JsonView
    decreases json,
{
    match json {
        JsonView::Number(number) => JsonView::Number(
            Number::Double { bits: nearest_double(number) },
        ),
        JsonView::List(items) => JsonView::List(
            Seq::new(
                items.len(),
                |i: int|
                    if 0 <= i < items.len() {
                        with_doubles(items[i])
                    } else {
                        JsonView::Null
                    },
            ),
        ),
        JsonView::Object(members) => JsonView::Object(
            Seq::new(
                members.len(),
                |i: int|
                    if 0 <= i < members.len() {
                        (members[i].0, with_doubles(members[i].1))
                    } else {
                        (Seq::empty(), JsonView::Null)
                    },
            ),
        ),
        other => other,
    }
}

proof fn lemma_item_representable(items: Seq<JsonView>, n: nat, i: int)
    requires
        0 <= i < n <= items.len(),
        unrepresentable_item(items, n) is None,
    ensures
        unrepresentable(items[i]) is None,
    decreases n,
{
    if i < n - 1 {
        lemma_item_representable(items, (n - 1) as nat, i);
    }
}

proof fn lemma_member_representable(members: Seq<(Seq<char>, JsonView)>, n: nat, i: int)
    requires
        0 <= i < n <= members.len(),
        unrepresentable_member(members, n) is None,
    ensures
        unrepresentable(members[i].1) is None,
    decreases n,
{
    if i < n - 1 {
        lemma_member_representable(members, (n - 1) as nat, i);
    }
}

/// A JSON value survives the way to a protobuf value and back, with its numbers
/// as doubles.
pub proof fn law_json_round_trip(json: JsonView)
    requires
        unrepresentable(json) is None,
    ensures
        json_of(proto_of(json)) == with_doubles(json),
    decreases json,
{
    match json {
        JsonView::List(items) => {
            assert forall|i: int| 0 <= i < items.len() implies json_of(
                #[trigger] proto_of(items[i]),
            ) == with_doubles(items[i]) by {
                lemma_item_representable(items, items.len(), i);
                law_json_round_trip(items[i]);
            }
            let there = proto_of(json);
            let back = json_of(there);
            let expected = with_doubles(json);
            assert forall|i: int| 0 <= i < items.len() implies #[trigger] back->List_0[i]
                == expected->List_0[i] by {
                assert(there->List_0[i] == proto_of(items[i]));
            }
            assert(back->List_0 =~= expected->List_0);
        },
        JsonView::Object(members) => {
            assert forall|i: int| 0 <= i < members.len() implies json_of(
                #[trigger] proto_of(members[i].1),
            ) == with_doubles(members[i].1) by {
                lemma_member_representable(members, members.len(), i);
                law_json_round_trip(members[i].1);
            }
            let there = proto_of(json);
            let back = json_of(there);
            let expected = with_doubles(json);
            assert forall|i: int| 0 <= i < members.len() implies #[trigger] back->Object_0[i]
                == expected->Object_0[i] by {
                assert(there->Struct_0[i] == (members[i].0, proto_of(members[i].1)));
            }
            assert(back->Object_0 =~= expected->Object_0);
        },
        _ => {},
    }
}

} // verus!
