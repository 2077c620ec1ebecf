//! The fields of messages in JSON objects.

use crate::doubles;
use crate::doubles::{exact_signed, exact_unsigned, SIGN};
use crate::interceptors::payload::{json_to_struct, struct_of, struct_to_json};
use crate::json::{group_json_views, Json, JsonView, Number};
use crate::ordered;
use crate::outcome::shown;
use crate::proto_struct::{members_of, FieldsView, Struct};
use crate::status::{status, Code, Status, StatusView};
use crate::text;
use crate::text::cat2;
use vstd::prelude::*;

verus! {

/// The members of a JSON object.
pub type Members = Seq<(Seq<char>, JsonView)>;

/// Pairs of texts.
pub type TextMap = Seq<(Seq<char>, Seq<char>)>;

/// A message that has a JSON form.
pub trait Form: DeepView + Sized {
    /// The JSON form of a message.
    spec fn json_form(content: Self::V) -> JsonView;

    /// The JSON form of the message.
    fn to_json(&self) -> (r: Json)
        ensures
            r.deep_view() == Self::json_form(self.deep_view()),
    ;
}

/// A message that can be read from a JSON form.
pub trait Message: Form {
    /// The message that a JSON value is the form of, or why it is the form of none.
    spec fn read(json: JsonView) -> Result<Self::V, StatusView>;

    /// The message is read back from its JSON form: its maps are maps, and its
    /// structs hold only what JSON can say.
    spec fn is_readable(content: Self::V) -> bool;

    /// The message that a JSON value is the form of.
    fn from_json(value: &Json) -> (r: Result<Self, Status>)
        ensures
            shown(r) == Self::read(value.deep_view()),
    ;

    /// A message is read back from its JSON form.
    proof fn law_round_trip(content: Self::V)
        requires
            Self::is_readable(content),
        ensures
            Self::read(Self::json_form(content)) == Ok::<Self::V, StatusView>(content),
            Self::json_form(content) is Object,
    ;
}

/// A refusal of a JSON value.
pub open spec fn invalid(message: Seq<char>) -> StatusView {
    status(Code::InvalidArgument, message)
}

fn refuse(field: &str, problem: &str) -> (r: Status)
    ensures
        r.deep_view() == invalid(field@ + problem@),
{
    Status::new(Code::InvalidArgument, cat2(field, problem))
}

// ---------------------------------------------------------------------------
// Numbers
// ---------------------------------------------------------------------------

/// The JSON number of an unsigned integer.
pub open spec fn unsigned_number(value: u64) -> Number {
    Number::Unsigned { value, double: doubles::nearest(value as nat) as u64 }
}

/// The JSON number of an integer.
pub open spec fn signed_number(value: i64) -> Number {
    if value >= 0 {
        unsigned_number(value as u64)
    } else {
        Number::Negative {
            value,
            double: (SIGN + doubles::nearest((-(value as int)) as nat)) as u64,
        }
    }
}

/// The JSON form of an unsigned integer.
pub open spec fn u64_form(value: u64) -> JsonView {
    JsonView::Number(unsigned_number(value))
}

/// The JSON form of an integer.
pub open spec fn i64_form(value: i64) -> JsonView {
    JsonView::Number(signed_number(value))
}

/// The JSON form of an unsigned integer.
pub fn u64_to_json(value: u64) -> (r: Json)
    ensures
        r.deep_view() == u64_form(value),
{
    Json::Number(Number::Unsigned { value, double: doubles::nearest_double(value) })
}

/// The JSON form of an integer.
pub fn i64_to_json(value: i64) -> (r: Json)
    ensures
        r.deep_view() == i64_form(value),
{
    if value >= 0 {
        u64_to_json(value as u64)
    } else {
        let magnitude: u64 = (-(value as i128)) as u64;
        let double: u64 = SIGN + doubles::nearest_double(magnitude);
        Json::Number(Number::Negative { value, double })
    }
}

/// The unsigned integer that a JSON value is. A double counts where it is a whole
/// number: structs hold no other numbers.
pub open spec fn u64_in(json: JsonView, field: Seq<char>) -> Result<u64, StatusView> {
    let refused = Err(invalid(field + " must be an unsigned integer"@));
    match json {
        JsonView::Number(Number::Unsigned { value, .. }) => Ok(value),
        JsonView::Number(Number::Double { bits }) => match exact_unsigned(bits) {
            Some(value) => Ok(value),
            None => refused,
        },
        _ => refused,
    }
}

/// The integer that a JSON value is. A double counts where it is a whole number.
pub open spec fn i64_in(json: JsonView, field: Seq<char>) -> Result<i64, StatusView> {
    let refused = Err(invalid(field + " must be an integer"@));
    match json {
        JsonView::Number(Number::Unsigned { value, .. }) => if value <= i64::MAX {
            Ok(value as i64)
        } else {
            refused
        },
        JsonView::Number(Number::Negative { value, .. }) => Ok(value),
        JsonView::Number(Number::Double { bits }) => match exact_signed(bits) {
            Some(value) => Ok(value),
            None => refused,
        },
        _ => refused,
    }
}

/// The unsigned integer that a JSON value is.
pub fn json_u64(value: &Json, field: &str) -> (r: Result<u64, Status>)
    ensures
        shown(r) == u64_in(value.deep_view(), field@),
{
    match value {
        Json::Number(Number::Unsigned { value, .. }) => Ok(*value),
        Json::Number(Number::Double { bits }) => match doubles::exact_unsigned_integer(*bits) {
            Some(value) => Ok(value),
            None => Err(refuse(field, " must be an unsigned integer")),
        },
        _ => Err(refuse(field, " must be an unsigned integer")),
    }
}

/// The integer that a JSON value is.
pub fn json_i64(value: &Json, field: &str) -> (r: Result<i64, Status>)
    ensures
        shown(r) == i64_in(value.deep_view(), field@),
{
    match value {
        Json::Number(Number::Unsigned { value, .. }) => {
            if *value <= 0x7fff_ffff_ffff_ffff {
                Ok(*value as i64)
            } else {
                Err(refuse(field, " must be an integer"))
            }
        },
        Json::Number(Number::Negative { value, .. }) => Ok(*value),
        Json::Number(Number::Double { bits }) => match doubles::exact_signed_integer(*bits) {
            Some(value) => Ok(value),
            None => Err(refuse(field, " must be an integer")),
        },
        _ => Err(refuse(field, " must be an integer")),
    }
}

/// The unsigned integer in a field, or 0 where there is none.
pub open spec fn u64_at(object: Members, field: Seq<char>) -> Result<u64, StatusView> {
    match ordered::lookup(object, field) {
        None => Ok(0),
        Some(value) => u64_in(value, field),
    }
}

/// The integer in a field, or 0 where there is none.
pub open spec fn i64_at(object: Members, field: Seq<char>) -> Result<i64, StatusView> {
    match ordered::lookup(object, field) {
        None => Ok(0),
        Some(value) => i64_in(value, field),
    }
}

/// The unsigned integer of 32 bits in a field.
pub open spec fn u32_at(object: Members, field: Seq<char>) -> Result<u32, StatusView> {
    match u64_at(object, field) {
        Err(error) => Err(error),
        Ok(value) => if value <= u32::MAX {
            Ok(value as u32)
        } else {
            Err(invalid(field + " is out of range"@))
        },
    }
}

/// The integer of 32 bits in a field.
pub open spec fn i32_at(object: Members, field: Seq<char>) -> Result<i32, StatusView> {
    match i64_at(object, field) {
        Err(error) => Err(error),
        Ok(value) => if i32::MIN <= value <= i32::MAX {
            Ok(value as i32)
        } else {
            Err(invalid(field + " is out of range"@))
        },
    }
}

/// The unsigned integer in a field.
pub fn u64_field(object: &Vec<(String, Json)>, field: &str) -> (r: Result<u64, Status>)
    ensures
        shown(r) == u64_at(object.deep_view(), field@),
{
    match ordered::get(object, field) {
        Some(value) => json_u64(value, field),
        None => Ok(0),
    }
}

/// The integer in a field.
pub fn i64_field(object: &Vec<(String, Json)>, field: &str) -> (r: Result<i64, Status>)
    ensures
        shown(r) == i64_at(object.deep_view(), field@),
{
    match ordered::get(object, field) {
        Some(value) => json_i64(value, field),
        None => Ok(0),
    }
}

/// The unsigned integer of 32 bits in a field.
pub fn u32_field(object: &Vec<(String, Json)>, field: &str) -> (r: Result<u32, Status>)
    ensures
        shown(r) == u32_at(object.deep_view(), field@),
{
    match u64_field(object, field) {
        Err(error) => Err(error),
        Ok(value) => {
            if value <= 0xffff_ffff {
                Ok(value as u32)
            } else {
                Err(refuse(field, " is out of range"))
            }
        },
    }
}

/// The integer of 32 bits in a field.
pub fn i32_field(object: &Vec<(String, Json)>, field: &str) -> (r: Result<i32, Status>)
    ensures
        shown(r) == i32_at(object.deep_view(), field@),
{
    match i64_field(object, field) {
        Err(error) => Err(error),
        Ok(value) => {
            if -0x8000_0000 <= value && value <= 0x7fff_ffff {
                Ok(value as i32)
            } else {
                Err(refuse(field, " is out of range"))
            }
        },
    }
}

// ---------------------------------------------------------------------------
// Objects, texts and flags
// ---------------------------------------------------------------------------

/// The members of a JSON value that has to be an object.
pub open spec fn object_in(json: JsonView, message_type: Seq<char>) -> Result<Members, StatusView> {
    match json {
        JsonView::Object(members) => Ok(members),
        _ => Err(invalid(message_type + " must be a JSON object"@)),
    }
}

/// The members of a JSON value that has to be an object.
pub fn expect_object<'a>(value: &'a Json, message_type: &str) -> (r: Result<
    &'a Vec<(String, Json)>,
    Status,
>)
    ensures
        shown(r) == object_in(value.deep_view(), message_type@),
{
    broadcast use group_json_views;

    match value {
        Json::Object(members) => Ok(members),
        _ => Err(refuse(message_type, " must be a JSON object")),
    }
}

/// The value in a field, where there is one that is not null.
pub open spec fn value_at(object: Members, field: Seq<char>) -> Option<JsonView> {
    match ordered::lookup(object, field) {
        None => None,
        Some(JsonView::Null) => None,
        Some(value) => Some(value),
    }
}

/// The object in a field, where there is a value that is not null.
pub open spec fn object_at(object: Members, field: Seq<char>) -> Result<
    Option<JsonView>,
    StatusView,
> {
    match value_at(object, field) {
        None => Ok(None),
        Some(value) => if value is Object {
            Ok(Some(value))
        } else {
            Err(invalid(field + " must be an object"@))
        },
    }
}

/// The value in a field, where there is one that is not null.
pub fn optional_json_field<'a>(object: &'a Vec<(String, Json)>, field: &str) -> (r: Option<
    &'a Json,
>)
    ensures
        r.deep_view() == value_at(object.deep_view(), field@),
{
    match ordered::get(object, field) {
        None => None,
        Some(Json::Null) => None,
        Some(value) => Some(value),
    }
}

/// The object in a field, where there is a value that is not null.
pub fn optional_object_field<'a>(object: &'a Vec<(String, Json)>, field: &str) -> (r: Result<
    Option<&'a Json>,
    Status,
>)
    ensures
        shown(r) == object_at(object.deep_view(), field@),
{
    match optional_json_field(object, field) {
        None => Ok(None),
        Some(value) => match value {
            Json::Object(_) => Ok(Some(value)),
            _ => Err(refuse(field, " must be an object")),
        },
    }
}

/// The text in a field, or an empty one.
pub open spec fn text_at(object: Members, field: Seq<char>) -> Seq<char> {
    match ordered::lookup(object, field) {
        Some(JsonView::Text(value)) => value,
        _ => Seq::empty(),
    }
}

/// The flag in a field, or a cleared one.
pub open spec fn flag_at(object: Members, field: Seq<char>) -> bool {
    match ordered::lookup(object, field) {
        Some(JsonView::Bool(value)) => value,
        _ => false,
    }
}

/// The flag in a field that can be left open.
pub open spec fn optional_flag_at(object: Members, field: Seq<char>) -> Result<
    Option<bool>,
    StatusView,
> {
    match value_at(object, field) {
        None => Ok(None),
        Some(JsonView::Bool(value)) => Ok(Some(value)),
        Some(_) => Err(invalid(field + " must be a boolean or null"@)),
    }
}

/// The text in a field, or an empty one.
pub fn string_field(object: &Vec<(String, Json)>, field: &str) -> (r: String)
    ensures
        r@ == text_at(object.deep_view(), field@),
{
    match ordered::get(object, field) {
        Some(Json::Text(value)) => value.clone(),
        _ => {
            let empty = String::new();
            assert(empty@ =~= Seq::empty());
            empty
        },
    }
}

/// The flag in a field, or a cleared one.
pub fn bool_field(object: &Vec<(String, Json)>, field: &str) -> (r: bool)
    ensures
        r == flag_at(object.deep_view(), field@),
{
    match ordered::get(object, field) {
        Some(Json::Bool(value)) => *value,
        _ => false,
    }
}

/// The flag in a field that can be left open.
pub fn optional_bool_field(object: &Vec<(String, Json)>, field: &str) -> (r: Result<
    Option<bool>,
    Status,
>)
    ensures
        shown(r) == optional_flag_at(object.deep_view(), field@),
{
    match optional_json_field(object, field) {
        None => Ok(None),
        Some(Json::Bool(value)) => Ok(Some(*value)),
        Some(_) => Err(refuse(field, " must be a boolean or null")),
    }
}

/// The JSON form of a flag that can be left open.
pub open spec fn optional_flag_form(value: Option<bool>) -> JsonView {
    match value {
        Some(value) => JsonView::Bool(value),
        None => JsonView::Null,
    }
}

/// The JSON form of a text.
pub fn text_to_json(value: &str) -> (r: Json)
    ensures
        r.deep_view() == JsonView::Text(value@),
{
    Json::Text(value.to_owned())
}

/// The JSON form of a flag.
pub fn bool_to_json(value: bool) -> (r: Json)
    ensures
        r.deep_view() == JsonView::Bool(value),
{
    Json::Bool(value)
}

/// The JSON form of a flag that can be left open.
pub fn optional_bool_to_json(value: Option<bool>) -> (r: Json)
    ensures
        r.deep_view() == optional_flag_form(value),
{
    match value {
        Some(value) => Json::Bool(value),
        None => Json::Null,
    }
}

/// Appends a member to an object.
pub fn push_member(members: &mut Vec<(String, Json)>, name: &str, value: Json)
    ensures
        final(members).deep_view() == old(members).deep_view().push((name@, value.deep_view())),
{
    let ghost before = members.deep_view();
    let ghost content = value.deep_view();
    members.push((name.to_owned(), value));
    assert(members.deep_view() =~= before.push((name@, content)));
}

/// The JSON object with given members.
pub fn object_to_json(members: Vec<(String, Json)>) -> (r: Json)
    ensures
        r.deep_view() == JsonView::Object(members.deep_view()),
{
    broadcast use group_json_views;

    Json::Object(members)
}

// ---------------------------------------------------------------------------
// Lists
// ---------------------------------------------------------------------------

/// The list in a field, or an empty one.
pub open spec fn list_at(object: Members, field: Seq<char>) -> Result<Seq<JsonView>, StatusView> {
    match value_at(object, field) {
        None => Ok(Seq::empty()),
        Some(JsonView::List(items)) => Ok(items),
        Some(_) => Err(invalid(field + " must be an array"@)),
    }
}

/// All items are texts.
pub open spec fn all_texts(items: Seq<JsonView>) -> bool {
    forall|i: int| 0 <= i < items.len() ==> (#[trigger] items[i]) is Text
}

/// The texts in a field.
pub open spec fn texts_at(object: Members, field: Seq<char>) -> Result<
    Seq<Seq<char>>,
    StatusView,
> {
    match list_at(object, field) {
        Err(error) => Err(error),
        Ok(items) => if all_texts(items) {
            Ok(Seq::new(items.len(), |i: int| items[i]->Text_0))
        } else {
            Err(invalid(field + " entries must be strings"@))
        },
    }
}

/// The unsigned integers of 32 bits that items are.
pub open spec fn u32s_in(items: Seq<JsonView>, field: Seq<char>) -> Result<Seq<u32>, StatusView>
    decreases items.len(),
{
    if items.len() == 0 {
        Ok(Seq::empty())
    } else {
        match u32s_in(items.drop_last(), field) {
            Err(error) => Err(error),
            Ok(before) => match u64_in(items.last(), field) {
                Err(error) => Err(error),
                Ok(value) => if value <= u32::MAX {
                    Ok(before.push(value as u32))
                } else {
                    Err(invalid(field + " entry is out of range"@))
                },
            },
        }
    }
}

/// The unsigned integers of 32 bits in a field.
pub open spec fn u32s_at(object: Members, field: Seq<char>) -> Result<Seq<u32>, StatusView> {
    match list_at(object, field) {
        Err(error) => Err(error),
        Ok(items) => u32s_in(items, field),
    }
}

/// The messages that items are the forms of.
pub open spec fn messages_in<T: Message>(items: Seq<JsonView>) -> Result<Seq<T::V>, StatusView>
    decreases items.len(),
{
    if items.len() == 0 {
        Ok(Seq::empty())
    } else {
        match messages_in::<T>(items.drop_last()) {
            Err(error) => Err(error),
            Ok(before) => match T::read(items.last()) {
                Err(error) => Err(error),
                Ok(message) => Ok(before.push(message)),
            },
        }
    }
}

/// The messages in a field.
pub open spec fn messages_at<T: Message>(object: Members, field: Seq<char>) -> Result<
    Seq<T::V>,
    StatusView,
> {
    match list_at(object, field) {
        Err(error) => Err(error),
        Ok(items) => messages_in::<T>(items),
    }
}

/// The JSON form of texts.
pub open spec fn texts_form(values: Seq<Seq<char>>) -> JsonView {
    JsonView::List(Seq::new(values.len(), |i: int| JsonView::Text(values[i])))
}

/// The JSON form of unsigned integers.
pub open spec fn u32s_form(values: Seq<u32>) -> JsonView {
    JsonView::List(Seq::new(values.len(), |i: int| u64_form(values[i] as u64)))
}

/// The JSON form of messages.
pub open spec fn messages_form<T: Form>(values: Seq<T::V>) -> JsonView {
    JsonView::List(Seq::new(values.len(), |i: int| T::json_form(values[i])))
}

/// The list in a field, where there is one that is not null.
pub fn array_field<'a>(object: &'a Vec<(String, Json)>, field: &str) -> (r: Result<
    Option<&'a Vec<Json>>,
    Status,
>)
    ensures
        match list_at(object.deep_view(), field@) {
            Err(problem) => r matches Err(error) && error.deep_view() == problem,
            Ok(items) => match r {
                Ok(Some(list)) => list.deep_view() == items,
                Ok(None) => items.len() == 0,
                Err(_) => false,
            },
        },
{
    broadcast use group_json_views;

    match optional_json_field(object, field) {
        None => Ok(None),
        Some(Json::List(items)) => Ok(Some(items)),
        Some(_) => Err(refuse(field, " must be an array")),
    }
}

/// The texts in a field.
pub fn string_array_field(object: &Vec<(String, Json)>, field: &str) -> (r: Result<
    Vec<String>,
    Status,
>)
    ensures
        shown(r) == texts_at(object.deep_view(), field@),
{
    let mut out: Vec<String> = Vec::new();
    let items = match array_field(object, field) {
        Err(error) => {
            return Err(error);
        },
        Ok(None) => {
            proof {
                let none = list_at(object.deep_view(), field@)->Ok_0;
                assert(out.deep_view() =~= Seq::new(none.len(), |i: int| none[i]->Text_0));
            }
            return Ok(out);
        },
        Ok(Some(items)) => items,
    };
    let ghost list = items.deep_view();
    let mut i: usize = 0;
    while i < items.len()
        invariant
            i <= items.len(),
            list == items.deep_view(),
            list_at(object.deep_view(), field@) == Ok::<Seq<JsonView>, StatusView>(list),
            out.len() == i,
            forall|j: int| 0 <= j < i ==> (#[trigger] list[j]) is Text,
            forall|j: int| 0 <= j < i ==> #[trigger] out.deep_view()[j] == list[j]->Text_0,
        decreases items.len() - i,
    {
        let ghost before = out.deep_view();
        proof {
            assert(list[i as int] == items@[i as int].deep_view());
        }
        match &items[i] {
            Json::Text(value) => {
                out.push(value.clone());
            },
            _ => {
                assert(!all_texts(list));
                return Err(refuse(field, " entries must be strings"));
            },
        }
        proof {
            assert forall|j: int| 0 <= j < i + 1 implies #[trigger] out.deep_view()[j]
                == list[j]->Text_0 by {
                if j < i {
                    assert(out.deep_view()[j] == before[j]);
                }
            }
        }
        i += 1;
    }
    assert(out.deep_view() =~= Seq::new(list.len(), |i: int| list[i]->Text_0));
    Ok(out)
}

proof fn lemma_u32s_failed(items: Seq<JsonView>, field: Seq<char>, n: int)
    requires
        0 <= n <= items.len(),
        u32s_in(items.take(n), field) is Err,
    ensures
        u32s_in(items, field) == u32s_in(items.take(n), field),
    decreases items.len(),
{
    if n == items.len() {
        assert(items.take(n) =~= items);
    } else {
        assert(items.drop_last().take(n) =~= items.take(n));
        lemma_u32s_failed(items.drop_last(), field, n);
    }
}

proof fn lemma_messages_failed<T: Message>(items: Seq<JsonView>, n: int)
    requires
        0 <= n <= items.len(),
        messages_in::<T>(items.take(n)) is Err,
    ensures
        messages_in::<T>(items) == messages_in::<T>(items.take(n)),
    decreases items.len(),
{
    if n == items.len() {
        assert(items.take(n) =~= items);
    } else {
        assert(items.drop_last().take(n) =~= items.take(n));
        lemma_messages_failed::<T>(items.drop_last(), n);
    }
}

/// The unsigned integers of 32 bits in a field.
pub fn u32_array_field(object: &Vec<(String, Json)>, field: &str) -> (r: Result<Vec<u32>, Status>)
    ensures
        match u32s_at(object.deep_view(), field@) {
            Ok(values) => r matches Ok(list) && list@ == values,
            Err(problem) => r matches Err(error) && error.deep_view() == problem,
        },
{
    let mut out: Vec<u32> = Vec::new();
    let items = match array_field(object, field) {
        Err(error) => {
            return Err(error);
        },
        Ok(None) => {
            return Ok(out);
        },
        Ok(Some(items)) => items,
    };
    let ghost list = items.deep_view();
    let mut i: usize = 0;
    proof {
        assert(list.take(0) =~= Seq::empty());
    }
    while i < items.len()
        invariant
            i <= items.len(),
            list == items.deep_view(),
            list_at(object.deep_view(), field@) == Ok::<Seq<JsonView>, StatusView>(list),
            u32s_in(list.take(i as int), field@) == Ok::<Seq<u32>, StatusView>(out@),
        decreases items.len() - i,
    {
        proof {
            assert(list.take(i + 1).drop_last() =~= list.take(i as int));
            assert(list.take(i + 1).last() == items@[i as int].deep_view());
        }
        match json_u64(&items[i], field) {
            Ok(value) => {
                if value > 0xffff_ffff {
                    proof {
                        lemma_u32s_failed(list, field@, i + 1);
                    }
                    return Err(refuse(field, " entry is out of range"));
                }
                out.push(value as u32);
            },
            Err(error) => {
                proof {
                    lemma_u32s_failed(list, field@, i + 1);
                }
                return Err(error);
            },
        }
        i += 1;
    }
    proof {
        assert(list.take(i as int) =~= list);
    }
    Ok(out)
}

/// The messages in a field.
pub fn messages_field<T: Message>(object: &Vec<(String, Json)>, field: &str) -> (r: Result<
    Vec<T>,
    Status,
>)
    ensures
        shown(r) == messages_at::<T>(object.deep_view(), field@),
{
    let mut out: Vec<T> = Vec::new();
    proof {
        assert(out.deep_view() =~= Seq::empty());
    }
    let items = match array_field(object, field) {
        Err(error) => {
            return Err(error);
        },
        Ok(None) => {
            return Ok(out);
        },
        Ok(Some(items)) => items,
    };
    let ghost list = items.deep_view();
    let mut i: usize = 0;
    proof {
        assert(list.take(0) =~= Seq::empty());
    }
    while i < items.len()
        invariant
            i <= items.len(),
            list == items.deep_view(),
            list_at(object.deep_view(), field@) == Ok::<Seq<JsonView>, StatusView>(list),
            messages_in::<T>(list.take(i as int)) == Ok::<Seq<T::V>, StatusView>(
                out.deep_view(),
            ),
        decreases items.len() - i,
    {
        let ghost before = out.deep_view();
        proof {
            assert(list.take(i + 1).drop_last() =~= list.take(i as int));
            assert(list.take(i + 1).last() == items@[i as int].deep_view());
        }
        match T::from_json(&items[i]) {
            Ok(message) => {
                let ghost content = message.deep_view();
                out.push(message);
                assert(out.deep_view() =~= before.push(content));
            },
            Err(error) => {
                proof {
                    lemma_messages_failed::<T>(list, i + 1);
                }
                return Err(error);
            },
        }
        i += 1;
    }
    proof {
        assert(list.take(i as int) =~= list);
    }
    Ok(out)
}

/// The JSON form of texts.
pub fn texts_to_json(values: &Vec<String>) -> (r: Json)
    ensures
        r.deep_view() == texts_form(values.deep_view()),
{
    broadcast use group_json_views;

    let ghost list = values.deep_view();
    let mut items: Vec<Json> = Vec::new();
    let mut i: usize = 0;
    while i < values.len()
        invariant
            i <= values.len(),
            items.len() == i,
            list == values.deep_view(),
            forall|j: int|
                0 <= j < i ==> #[trigger] items.deep_view()[j] == JsonView::Text(list[j]),
        decreases values.len() - i,
    {
        let ghost before = items.deep_view();
        assert(list[i as int] == values@[i as int]@);
        items.push(text_to_json(values[i].as_str()));
        proof {
            assert forall|j: int| 0 <= j < i + 1 implies #[trigger] items.deep_view()[j]
                == JsonView::Text(list[j]) by {
                if j < i {
                    assert(items.deep_view()[j] == before[j]);
                }
            }
        }
        i += 1;
    }
    assert(items.deep_view() =~= Seq::new(list.len(), |i: int| JsonView::Text(list[i])));
    Json::List(items)
}

/// The JSON form of unsigned integers.
pub fn u32s_to_json(values: &Vec<u32>) -> (r: Json)
    ensures
        r.deep_view() == u32s_form(values@),
{
    broadcast use group_json_views;

    let mut items: Vec<Json> = Vec::new();
    let mut i: usize = 0;
    while i < values.len()
        invariant
            i <= values.len(),
            items.len() == i,
            forall|j: int|
                0 <= j < i ==> #[trigger] items.deep_view()[j] == u64_form(values@[j] as u64),
        decreases values.len() - i,
    {
        let ghost before = items.deep_view();
        items.push(u64_to_json(values[i] as u64));
        proof {
            assert forall|j: int| 0 <= j < i + 1 implies #[trigger] items.deep_view()[j]
                == u64_form(values@[j] as u64) by {
                if j < i {
                    assert(items.deep_view()[j] == before[j]);
                }
            }
        }
        i += 1;
    }
    assert(items.deep_view() =~= Seq::new(
        values@.len(),
        |i: int| u64_form(values@[i] as u64),
    ));
    Json::List(items)
}

/// The JSON form of messages.
pub fn messages_to_json<T: Form>(values: &Vec<T>) -> (r: Json)
    ensures
        r.deep_view() == messages_form::<T>(values.deep_view()),
{
    broadcast use group_json_views;

    let ghost list = values.deep_view();
    let mut items: Vec<Json> = Vec::new();
    let mut i: usize = 0;
    while i < values.len()
        invariant
            i <= values.len(),
            items.len() == i,
            list == values.deep_view(),
            forall|j: int|
                0 <= j < i ==> #[trigger] items.deep_view()[j] == T::json_form(list[j]),
        decreases values.len() - i,
    {
        let ghost before = items.deep_view();
        assert(list[i as int] == values@[i as int].deep_view());
        items.push(values[i].to_json());
        proof {
            assert forall|j: int| 0 <= j < i + 1 implies #[trigger] items.deep_view()[j]
                == T::json_form(list[j]) by {
                if j < i {
                    assert(items.deep_view()[j] == before[j]);
                }
            }
        }
        i += 1;
    }
    assert(items.deep_view() =~= Seq::new(list.len(), |i: int| T::json_form(list[i])));
    Json::List(items)
}

// ---------------------------------------------------------------------------
// Messages and structs
// ---------------------------------------------------------------------------

/// The message in a field, where there is one.
pub open spec fn message_at<T: Message>(object: Members, field: Seq<char>) -> Result<
    Option<T::V>,
    StatusView,
> {
    match object_at(object, field) {
        Err(error) => Err(error),
        Ok(None) => Ok(None),
        Ok(Some(value)) => match T::read(value) {
            Err(error) => Err(error),
            Ok(message) => Ok(Some(message)),
        },
    }
}

/// The JSON form of a message that can be absent.
pub open spec fn message_form<T: Form>(value: Option<T::V>) -> JsonView {
    match value {
        Some(content) => T::json_form(content),
        None => JsonView::Null,
    }
}

/// The message in a field, where there is one.
pub fn message_field<T: Message>(object: &Vec<(String, Json)>, field: &str) -> (r: Result<
    Option<T>,
    Status,
>)
    ensures
        shown(r) == message_at::<T>(object.deep_view(), field@),
{
    match optional_object_field(object, field) {
        Err(error) => Err(error),
        Ok(None) => Ok(None),
        Ok(Some(value)) => match T::from_json(value) {
            Err(error) => Err(error),
            Ok(message) => Ok(Some(message)),
        },
    }
}

/// The JSON form of a message that can be absent.
pub fn message_to_json<T: Form>(value: &Option<T>) -> (r: Json)
    ensures
        r.deep_view() == message_form::<T>(value.deep_view()),
{
    match value {
        Some(message) => message.to_json(),
        None => Json::Null,
    }
}

/// The struct that a JSON value is.
pub open spec fn struct_in(json: JsonView) -> Result<FieldsView, StatusView> {
    match struct_of(json) {
        Ok(fields) => Ok(fields),
        Err(problem) => Err(invalid("invalid protobuf Struct JSON: "@ + problem)),
    }
}

/// The struct in a field, where there is one.
pub open spec fn struct_at(object: Members, field: Seq<char>) -> Result<
    Option<FieldsView>,
    StatusView,
> {
    match value_at(object, field) {
        None => Ok(None),
        Some(value) => match struct_in(value) {
            Err(error) => Err(error),
            Ok(fields) => Ok(Some(fields)),
        },
    }
}

/// The JSON form of a struct that can be absent.
pub open spec fn struct_form(value: Option<FieldsView>) -> JsonView {
    match value {
        Some(fields) => JsonView::Object(members_of(fields)),
        None => JsonView::Null,
    }
}

/// A struct is read back from its JSON form.
pub open spec fn struct_is_readable(value: Option<FieldsView>) -> bool {
    value matches Some(fields) ==> struct_of(JsonView::Object(members_of(fields))) == Ok::<
        FieldsView,
        Seq<char>,
    >(fields)
}

/// The struct that a JSON value is.
pub fn json_to_struct_status(value: &Json) -> (r: Result<Struct, Status>)
    ensures
        shown(r) == struct_in(value.deep_view()),
{
    match json_to_struct(value) {
        Ok(fields) => Ok(fields),
        Err(problem) => Err(
            Status::new(
                Code::InvalidArgument,
                cat2("invalid protobuf Struct JSON: ", problem.as_str()),
            ),
        ),
    }
}

/// The struct in a field, where there is one.
pub fn struct_field(object: &Vec<(String, Json)>, field: &str) -> (r: Result<
    Option<Struct>,
    Status,
>)
    ensures
        shown(r) == struct_at(object.deep_view(), field@),
{
    match optional_json_field(object, field) {
        None => Ok(None),
        Some(value) => match json_to_struct_status(value) {
            Err(error) => Err(error),
            Ok(fields) => Ok(Some(fields)),
        },
    }
}

/// The JSON form of a struct that can be absent.
pub fn optional_struct_to_json(value: &Option<Struct>) -> (r: Json)
    ensures
        r.deep_view() == struct_form(value.deep_view()),
{
    match value {
        Some(fields) => struct_to_json(fields),
        None => Json::Null,
    }
}

// ---------------------------------------------------------------------------
// Maps
// ---------------------------------------------------------------------------

/// The members that are texts.
pub open spec fn text_members(members: Members) -> TextMap
    decreases members.len(),
{
    if members.len() == 0 {
        Seq::empty()
    } else {
        let before = text_members(members.drop_last());
        match members.last().1 {
            JsonView::Text(value) => before.push((members.last().0, value)),
            _ => before,
        }
    }
}

/// The members of the object in a field, or none.
pub open spec fn members_at(object: Members, field: Seq<char>) -> Members {
    match ordered::lookup(object, field) {
        Some(JsonView::Object(members)) => members,
        _ => Seq::empty(),
    }
}

/// The map of texts in a field. What is no text is left out.
pub open spec fn text_map_at(object: Members, field: Seq<char>) -> TextMap {
    text_members(members_at(object, field))
}

/// The integers that members are.
pub open spec fn i64_members(members: Members, field: Seq<char>) -> Result<
    Seq<(Seq<char>, i64)>,
    StatusView,
>
    decreases members.len(),
{
    if members.len() == 0 {
        Ok(Seq::empty())
    } else {
        match i64_members(members.drop_last(), field) {
            Err(error) => Err(error),
            Ok(before) => match i64_in(members.last().1, field) {
                Err(error) => Err(error),
                Ok(value) => Ok(before.push((members.last().0, value))),
            },
        }
    }
}

/// The map of integers in a field.
pub open spec fn i64_map_at(object: Members, field: Seq<char>) -> Result<
    Seq<(Seq<char>, i64)>,
    StatusView,
> {
    i64_members(members_at(object, field), field)
}

/// The messages that members are the forms of.
pub open spec fn message_members<T: Message>(members: Members) -> Result<
    Seq<(Seq<char>, T::V)>,
    StatusView,
>
    decreases members.len(),
{
    if members.len() == 0 {
        Ok(Seq::empty())
    } else {
        match message_members::<T>(members.drop_last()) {
            Err(error) => Err(error),
            Ok(before) => match T::read(members.last().1) {
                Err(error) => Err(error),
                Ok(message) => Ok(before.push((members.last().0, message))),
            },
        }
    }
}

/// The map of messages in a field.
pub open spec fn message_map_at<T: Message>(object: Members, field: Seq<char>) -> Result<
    Seq<(Seq<char>, T::V)>,
    StatusView,
> {
    message_members::<T>(members_at(object, field))
}

/// The JSON form of a map of texts.
pub open spec fn text_map_form(map: TextMap) -> JsonView {
    JsonView::Object(
        ordered::put_all(
            Seq::empty(),
            Seq::new(map.len(), |i: int| (map[i].0, JsonView::Text(map[i].1))),
        ),
    )
}

/// The JSON form of a map of integers.
pub open spec fn i64_map_form(map: Seq<(Seq<char>, i64)>) -> JsonView {
    JsonView::Object(
        ordered::put_all(
            Seq::empty(),
            Seq::new(map.len(), |i: int| (map[i].0, i64_form(map[i].1))),
        ),
    )
}

/// The JSON form of a map of messages.
pub open spec fn message_map_form<T: Form>(map: Seq<(Seq<char>, T::V)>) -> JsonView {
    JsonView::Object(
        ordered::put_all(
            Seq::empty(),
            Seq::new(map.len(), |i: int| (map[i].0, T::json_form(map[i].1))),
        ),
    )
}

fn members_field<'a>(object: &'a Vec<(String, Json)>, field: &str) -> (r: Option<
    &'a Vec<(String, Json)>,
>)
    ensures
        match r {
            Some(members) => members.deep_view() == members_at(object.deep_view(), field@),
            None => members_at(object.deep_view(), field@).len() == 0,
        },
{
    broadcast use group_json_views;

    match ordered::get(object, field) {
        Some(Json::Object(members)) => Some(members),
        _ => None,
    }
}

/// The members that are texts.
pub fn json_string_map(members: &Vec<(String, Json)>) -> (r: Vec<(String, String)>)
    ensures
        r.deep_view() == text_members(members.deep_view()),
{
    let ghost list = members.deep_view();
    let mut out: Vec<(String, String)> = Vec::new();
    let mut i: usize = 0;
    proof {
        assert(list.take(0) =~= Seq::empty());
        assert(out.deep_view() =~= Seq::empty());
    }
    while i < members.len()
        invariant
            i <= members.len(),
            list == members.deep_view(),
            out.deep_view() == text_members(list.take(i as int)),
        decreases members.len() - i,
    {
        let ghost before = out.deep_view();
        proof {
            assert(list.take(i + 1).drop_last() =~= list.take(i as int));
            assert(list.take(i + 1).last() == (
                members@[i as int].0@,
                members@[i as int].1.deep_view(),
            ));
        }
        match &members[i].1 {
            Json::Text(value) => {
                out.push((members[i].0.clone(), value.clone()));
                assert(out.deep_view() =~= before.push((members@[i as int].0@, value@)));
            },
            _ => {},
        }
        i += 1;
    }
    proof {
        assert(list.take(i as int) =~= list);
    }
    out
}

/// The map of texts in a field.
pub fn string_map_field(object: &Vec<(String, Json)>, field: &str) -> (r: Vec<(String, String)>)
    ensures
        r.deep_view() == text_map_at(object.deep_view(), field@),
{
    match members_field(object, field) {
        Some(members) => json_string_map(members),
        None => {
            let out: Vec<(String, String)> = Vec::new();
            assert(out.deep_view() =~= Seq::empty());
            out
        },
    }
}

proof fn lemma_i64_members_failed(members: Members, field: Seq<char>, n: int)
    requires
        0 <= n <= members.len(),
        i64_members(members.take(n), field) is Err,
    ensures
        i64_members(members, field) == i64_members(members.take(n), field),
    decreases members.len(),
{
    if n == members.len() {
        assert(members.take(n) =~= members);
    } else {
        assert(members.drop_last().take(n) =~= members.take(n));
        lemma_i64_members_failed(members.drop_last(), field, n);
    }
}

proof fn lemma_message_members_failed<T: Message>(members: Members, n: int)
    requires
        0 <= n <= members.len(),
        message_members::<T>(members.take(n)) is Err,
    ensures
        message_members::<T>(members) == message_members::<T>(members.take(n)),
    decreases members.len(),
{
    if n == members.len() {
        assert(members.take(n) =~= members);
    } else {
        assert(members.drop_last().take(n) =~= members.take(n));
        lemma_message_members_failed::<T>(members.drop_last(), n);
    }
}

/// The map of integers in a field.
pub fn i64_map_field(object: &Vec<(String, Json)>, field: &str) -> (r: Result<
    Vec<(String, i64)>,
    Status,
>)
    ensures
        shown(r) == i64_map_at(object.deep_view(), field@),
{
    let mut out: Vec<(String, i64)> = Vec::new();
    proof {
        assert(out.deep_view() =~= Seq::empty());
    }
    let members = match members_field(object, field) {
        Some(members) => members,
        None => {
            return Ok(out);
        },
    };
    let ghost list = members.deep_view();
    let mut i: usize = 0;
    proof {
        assert(list.take(0) =~= Seq::empty());
    }
    while i < members.len()
        invariant
            i <= members.len(),
            list == members.deep_view(),
            list == members_at(object.deep_view(), field@),
            i64_members(list.take(i as int), field@) == Ok::<Seq<(Seq<char>, i64)>, StatusView>(
                out.deep_view(),
            ),
        decreases members.len() - i,
    {
        let ghost before = out.deep_view();
        proof {
            assert(list.take(i + 1).drop_last() =~= list.take(i as int));
            assert(list.take(i + 1).last() == (
                members@[i as int].0@,
                members@[i as int].1.deep_view(),
            ));
        }
        match json_i64(&members[i].1, field) {
            Ok(value) => {
                out.push((members[i].0.clone(), value));
                assert(out.deep_view() =~= before.push((members@[i as int].0@, value)));
            },
            Err(error) => {
                proof {
                    lemma_i64_members_failed(list, field@, i + 1);
                }
                return Err(error);
            },
        }
        i += 1;
    }
    proof {
        assert(list.take(i as int) =~= list);
    }
    Ok(out)
}

/// The map of messages in a field.
pub fn message_map_field<T: Message>(object: &Vec<(String, Json)>, field: &str) -> (r: Result<
    Vec<(String, T)>,
    Status,
>)
    ensures
        shown(r) == message_map_at::<T>(object.deep_view(), field@),
{
    let mut out: Vec<(String, T)> = Vec::new();
    proof {
        assert(out.deep_view() =~= Seq::empty());
    }
    let members = match members_field(object, field) {
        Some(members) => members,
        None => {
            return Ok(out);
        },
    };
    let ghost list = members.deep_view();
    let mut i: usize = 0;
    proof {
        assert(list.take(0) =~= Seq::empty());
    }
    while i < members.len()
        invariant
            i <= members.len(),
            list == members.deep_view(),
            list == members_at(object.deep_view(), field@),
            message_members::<T>(list.take(i as int)) == Ok::<
                Seq<(Seq<char>, T::V)>,
                StatusView,
            >(out.deep_view()),
        decreases members.len() - i,
    {
        let ghost before = out.deep_view();
        proof {
            assert(list.take(i + 1).drop_last() =~= list.take(i as int));
            assert(list.take(i + 1).last() == (
                members@[i as int].0@,
                members@[i as int].1.deep_view(),
            ));
        }
        match T::from_json(&members[i].1) {
            Ok(message) => {
                let ghost content = message.deep_view();
                out.push((members[i].0.clone(), message));
                assert(out.deep_view() =~= before.push((members@[i as int].0@, content)));
            },
            Err(error) => {
                proof {
                    lemma_message_members_failed::<T>(list, i + 1);
                }
                return Err(error);
            },
        }
        i += 1;
    }
    proof {
        assert(list.take(i as int) =~= list);
    }
    Ok(out)
}

/// The JSON form of a map of texts.
pub fn text_map_to_json(map: &Vec<(String, String)>) -> (r: Json)
    ensures
        r.deep_view() == text_map_form(map.deep_view()),
{
    broadcast use group_json_views;

    let ghost list = map.deep_view();
    let ghost forms = Seq::new(list.len(), |i: int| (list[i].0, JsonView::Text(list[i].1)));
    let mut members: Vec<(String, Json)> = Vec::new();
    let mut i: usize = 0;
    proof {
        assert(forms.take(0) =~= Seq::empty());
        assert(members.deep_view() =~= Seq::empty());
    }
    while i < map.len()
        invariant
            i <= map.len(),
            list == map.deep_view(),
            forms == Seq::new(list.len(), |i: int| (list[i].0, JsonView::Text(list[i].1))),
            members.deep_view() == ordered::put_all(Seq::empty(), forms.take(i as int)),
        decreases map.len() - i,
    {
        proof {
            assert(list[i as int] == (map@[i as int].0@, map@[i as int].1@));
            assert(forms.take(i + 1).drop_last() =~= forms.take(i as int));
            assert(forms.take(i + 1).last() == forms[i as int]);
        }
        ordered::insert(&mut members, map[i].0.clone(), text_to_json(map[i].1.as_str()));
        i += 1;
    }
    proof {
        assert(forms.take(i as int) =~= forms);
    }
    Json::Object(members)
}

/// The JSON form of a map of integers.
pub fn i64_map_to_json(map: &Vec<(String, i64)>) -> (r: Json)
    ensures
        r.deep_view() == i64_map_form(map.deep_view()),
{
    broadcast use group_json_views;

    let ghost list = map.deep_view();
    let ghost forms = Seq::new(list.len(), |i: int| (list[i].0, i64_form(list[i].1)));
    let mut members: Vec<(String, Json)> = Vec::new();
    let mut i: usize = 0;
    proof {
        assert(forms.take(0) =~= Seq::empty());
        assert(members.deep_view() =~= Seq::empty());
    }
    while i < map.len()
        invariant
            i <= map.len(),
            list == map.deep_view(),
            forms == Seq::new(list.len(), |i: int| (list[i].0, i64_form(list[i].1))),
            members.deep_view() == ordered::put_all(Seq::empty(), forms.take(i as int)),
        decreases map.len() - i,
    {
        proof {
            assert(list[i as int] == (map@[i as int].0@, map@[i as int].1));
            assert(forms.take(i + 1).drop_last() =~= forms.take(i as int));
            assert(forms.take(i + 1).last() == forms[i as int]);
        }
        ordered::insert(&mut members, map[i].0.clone(), i64_to_json(map[i].1));
        i += 1;
    }
    proof {
        assert(forms.take(i as int) =~= forms);
    }
    Json::Object(members)
}

/// The JSON form of a map of messages.
pub fn message_map_to_json<T: Form>(map: &Vec<(String, T)>) -> (r: Json)
    ensures
        r.deep_view() == message_map_form::<T>(map.deep_view()),
{
    broadcast use group_json_views;

    let ghost list = map.deep_view();
    let ghost forms = Seq::new(list.len(), |i: int| (list[i].0, T::json_form(list[i].1)));
    let mut members: Vec<(String, Json)> = Vec::new();
    let mut i: usize = 0;
    proof {
        assert(forms.take(0) =~= Seq::empty());
        assert(members.deep_view() =~= Seq::empty());
    }
    while i < map.len()
        invariant
            i <= map.len(),
            list == map.deep_view(),
            forms == Seq::new(list.len(), |i: int| (list[i].0, T::json_form(list[i].1))),
            members.deep_view() == ordered::put_all(Seq::empty(), forms.take(i as int)),
        decreases map.len() - i,
    {
        proof {
            assert(list[i as int] == (map@[i as int].0@, map@[i as int].1.deep_view()));
            assert(forms.take(i + 1).drop_last() =~= forms.take(i as int));
            assert(forms.take(i + 1).last() == forms[i as int]);
        }
        ordered::insert(&mut members, map[i].0.clone(), map[i].1.to_json());
        i += 1;
    }
    proof {
        assert(forms.take(i as int) =~= forms);
    }
    Json::Object(members)
}

// ---------------------------------------------------------------------------
// Reading back
// ---------------------------------------------------------------------------

/// All messages of a list are read back.
pub open spec fn all_readable<T: Message>(values: Seq<T::V>) -> bool {
    forall|i: int| 0 <= i < values.len() ==> T::is_readable(#[trigger] values[i])
}

/// All messages of a map are read back.
pub open spec fn map_is_readable<T: Message>(map: Seq<(Seq<char>, T::V)>) -> bool {
    ordered::is_map(map) && forall|i: int|
        0 <= i < map.len() ==> T::is_readable((#[trigger] map[i]).1)
}

/// A message that can be absent is read back.
pub open spec fn optional_is_readable<T: Message>(value: Option<T::V>) -> bool {
    value matches Some(content) ==> T::is_readable(content)
}

/// Two names stand in order: they are the same up to a position, at which the first
/// one ends or has the smaller character.
pub proof fn lemma_in_order(a: Seq<char>, b: Seq<char>, at: int)
    requires
        0 <= at <= a.len(),
        at < b.len(),
        forall|i: int| 0 <= i < at ==> a[i] == b[i],
        at < a.len() ==> a[at] < b[at],
    ensures
        text::less(a, b),
    decreases at,
{
    if at > 0 {
        assert(a.skip(1).len() == a.len() - 1 && b.skip(1).len() == b.len() - 1);
        assert forall|i: int| 0 <= i < at - 1 implies a.skip(1)[i] == b.skip(1)[i] by {
            assert(a.skip(1)[i] == a[i + 1] && b.skip(1)[i] == b[i + 1]);
        }
        if at < a.len() {
            assert(a.skip(1)[at - 1] == a[at] && b.skip(1)[at - 1] == b[at]);
        }
        lemma_in_order(a.skip(1), b.skip(1), at - 1);
    }
}

/// Each name stands before the next one.
pub open spec fn each_before_next(names: Seq<Seq<char>>) -> bool {
    forall|i: int| 0 <= i < names.len() - 1 ==> text::less(#[trigger] names[i], names[i + 1])
}

proof fn lemma_all_in_order(names: Seq<Seq<char>>, i: int, j: int)
    requires
        each_before_next(names),
        0 <= i < j < names.len(),
    ensures
        text::less(names[i], names[j]),
    decreases j - i,
{
    assert(text::less(names[i], names[i + 1]));
    if i + 1 < j {
        lemma_all_in_order(names, i + 1, j);
        text::lemma_less_transitive(names[i], names[i + 1], names[j]);
    }
}

/// Each of the first names of a list stands before the next.
pub open spec fn ascend(names: Seq<Seq<char>>, n: nat) -> bool
    decreases n,
{
    n < 2 || (text::less(names[n - 2], names[n - 1]) && ascend(names, (n - 1) as nat))
}

proof fn lemma_ascending(names: Seq<Seq<char>>, n: nat, i: int)
    requires
        ascend(names, n),
        0 <= i < n - 1,
    ensures
        text::less(names[i], names[i + 1]),
    decreases n,
{
    if i < n - 2 {
        lemma_ascending(names, (n - 1) as nat, i);
    }
}

/// Members whose names stand in order are found under their names.
pub proof fn lemma_members_are_found(members: Members)
    requires
        ascend(ordered::keys(members), members.len()),
    ensures
        ordered::is_map(members),
        forall|i: int|
            0 <= i < members.len() ==> ordered::lookup(members, (#[trigger] members[i]).0)
                == Some(members[i].1),
{
    let names = ordered::keys(members);
    assert forall|i: int| 0 <= i < names.len() - 1 implies text::less(
        #[trigger] names[i],
        names[i + 1],
    ) by {
        lemma_ascending(names, names.len(), i);
    }
    assert forall|i: int, j: int| 0 <= i < j < names.len() implies text::less(
        #[trigger] names[i],
        #[trigger] names[j],
    ) by {
        lemma_all_in_order(names, i, j);
    }
    assert forall|i: int| 0 <= i < members.len() implies ordered::lookup(
        members,
        (#[trigger] members[i]).0,
    ) == Some(members[i].1) by {
        lemma_found(members, i);
    }
}

proof fn lemma_found<V>(map: Seq<(Seq<char>, V)>, i: int)
    requires
        ordered::is_map(map),
        0 <= i < map.len(),
    ensures
        ordered::lookup(map, map[i].0) == Some(map[i].1),
    decreases i,
{
    if i > 0 {
        let names = ordered::keys(map);
        assert(text::less(names[0], names[i]));
        text::lemma_less_irreflexive(names[0]);
        let rest = map.skip(1);
        assert forall|a: int, b: int| 0 <= a < b < ordered::keys(rest).len() implies text::less(
            #[trigger] ordered::keys(rest)[a],
            #[trigger] ordered::keys(rest)[b],
        ) by {
            assert(ordered::keys(rest)[a] == names[a + 1]);
            assert(ordered::keys(rest)[b] == names[b + 1]);
        }
        lemma_found(rest, i - 1);
        assert(rest[i - 1] == map[i]);
    }
}

proof fn lemma_put_behind<V>(map: Seq<(Seq<char>, V)>, key: Seq<char>, value: V)
    requires
        forall|i: int| 0 <= i < map.len() ==> text::less((#[trigger] map[i]).0, key),
    ensures
        ordered::put(map, key, value) == map.push((key, value)),
    decreases map.len(),
{
    if map.len() > 0 {
        assert(text::less(map[0].0, key));
        text::lemma_less_irreflexive(key);
        if text::less(key, map[0].0) {
            text::lemma_less_transitive(key, map[0].0, key);
        }
        let rest = map.skip(1);
        assert forall|i: int| 0 <= i < rest.len() implies text::less(
            (#[trigger] rest[i]).0,
            key,
        ) by {
            assert(rest[i] == map[i + 1]);
        }
        lemma_put_behind(rest, key, value);
        assert(seq![map[0]] + rest.push((key, value)) =~= map.push((key, value)));
    } else {
        assert(ordered::put(map, key, value) =~= map.push((key, value)));
    }
}

/// Putting the entries of a map into an empty one gives the map.
pub proof fn lemma_map_is_kept<V>(map: Seq<(Seq<char>, V)>)
    requires
        ordered::is_map(map),
    ensures
        ordered::put_all(Seq::empty(), map) == map,
    decreases map.len(),
{
    if map.len() == 0 {
        assert(map =~= Seq::empty());
    } else {
        let start = map.drop_last();
        let names = ordered::keys(map);
        assert forall|a: int, b: int| 0 <= a < b < ordered::keys(start).len() implies text::less(
            #[trigger] ordered::keys(start)[a],
            #[trigger] ordered::keys(start)[b],
        ) by {
            assert(ordered::keys(start)[a] == names[a]);
            assert(ordered::keys(start)[b] == names[b]);
        }
        lemma_map_is_kept(start);
        assert forall|i: int| 0 <= i < start.len() implies text::less(
            (#[trigger] start[i]).0,
            map.last().0,
        ) by {
            assert(text::less(names[i], names[map.len() - 1]));
        }
        lemma_put_behind(start, map.last().0, map.last().1);
        assert(start.push((map.last().0, map.last().1)) =~= map);
    }
}

proof fn lemma_forms_are_map<A, B>(map: Seq<(Seq<char>, A)>, forms: Seq<(Seq<char>, B)>)
    requires
        ordered::is_map(map),
        forms.len() == map.len(),
        forall|i: int| 0 <= i < map.len() ==> (#[trigger] forms[i]).0 == map[i].0,
    ensures
        ordered::is_map(forms),
{
    assert forall|a: int, b: int| 0 <= a < b < ordered::keys(forms).len() implies text::less(
        #[trigger] ordered::keys(forms)[a],
        #[trigger] ordered::keys(forms)[b],
    ) by {
        assert(ordered::keys(forms)[a] == ordered::keys(map)[a]);
        assert(ordered::keys(forms)[b] == ordered::keys(map)[b]);
    }
}

/// Texts are read back from their JSON form.
pub proof fn lemma_texts_read_back(object: Members, field: Seq<char>, values: Seq<Seq<char>>)
    requires
        ordered::lookup(object, field) == Some(texts_form(values)),
    ensures
        texts_at(object, field) == Ok::<Seq<Seq<char>>, StatusView>(values),
{
    let items = texts_form(values)->List_0;
    assert(all_texts(items));
    assert(Seq::new(items.len(), |i: int| items[i]->Text_0) =~= values);
}

/// Unsigned integers are read back from their JSON form.
pub proof fn lemma_u32s_read_back(object: Members, field: Seq<char>, values: Seq<u32>)
    requires
        ordered::lookup(object, field) == Some(u32s_form(values)),
    ensures
        u32s_at(object, field) == Ok::<Seq<u32>, StatusView>(values),
{
    lemma_u32s_in(values, field);
}

proof fn lemma_u32s_in(values: Seq<u32>, field: Seq<char>)
    ensures
        u32s_in(u32s_form(values)->List_0, field) == Ok::<Seq<u32>, StatusView>(values),
    decreases values.len(),
{
    let items = u32s_form(values)->List_0;
    if values.len() == 0 {
        assert(values =~= Seq::empty());
    } else {
        lemma_u32s_in(values.drop_last(), field);
        assert(items.drop_last() =~= u32s_form(values.drop_last())->List_0);
        assert(items.last() == u64_form(values.last() as u64));
        assert(values.drop_last().push(values.last()) =~= values);
    }
}

/// Messages are read back from their JSON form.
pub proof fn lemma_messages_read_back<T: Message>(
    object: Members,
    field: Seq<char>,
    values: Seq<T::V>,
)
    requires
        ordered::lookup(object, field) == Some(messages_form::<T>(values)),
        all_readable::<T>(values),
    ensures
        messages_at::<T>(object, field) == Ok::<Seq<T::V>, StatusView>(values),
{
    lemma_messages_in::<T>(values);
}

proof fn lemma_messages_in<T: Message>(values: Seq<T::V>)
    requires
        all_readable::<T>(values),
    ensures
        messages_in::<T>(messages_form::<T>(values)->List_0) == Ok::<Seq<T::V>, StatusView>(values),
    decreases values.len(),
{
    let items = messages_form::<T>(values)->List_0;
    if values.len() == 0 {
        assert(values =~= Seq::empty());
    } else {
        let start = values.drop_last();
        assert forall|i: int| 0 <= i < start.len() implies T::is_readable(#[trigger] start[i]) by {
            assert(start[i] == values[i]);
        }
        lemma_messages_in::<T>(start);
        assert(items.drop_last() =~= messages_form::<T>(start)->List_0);
        assert(values[values.len() - 1] == values.last());
        T::law_round_trip(values.last());
        assert(items.last() == T::json_form(values.last()));
        assert(start.push(values.last()) =~= values);
    }
}

/// A message is read back from its JSON form.
pub proof fn lemma_message_read_back<T: Message>(
    object: Members,
    field: Seq<char>,
    value: Option<T::V>,
)
    requires
        ordered::lookup(object, field) == Some(message_form::<T>(value)),
        optional_is_readable::<T>(value),
    ensures
        message_at::<T>(object, field) == Ok::<Option<T::V>, StatusView>(value),
{
    if let Some(content) = value {
        T::law_round_trip(content);
    }
}

/// A struct is read back from its JSON form.
pub proof fn lemma_struct_read_back(
    object: Members,
    field: Seq<char>,
    value: Option<FieldsView>,
)
    requires
        ordered::lookup(object, field) == Some(struct_form(value)),
        struct_is_readable(value),
    ensures
        struct_at(object, field) == Ok::<Option<FieldsView>, StatusView>(value),
{
}

/// A map of texts is read back from its JSON form.
pub proof fn lemma_text_map_read_back(object: Members, field: Seq<char>, map: TextMap)
    requires
        ordered::lookup(object, field) == Some(text_map_form(map)),
        ordered::is_map(map),
    ensures
        text_map_at(object, field) == map,
{
    let forms = Seq::new(map.len(), |i: int| (map[i].0, JsonView::Text(map[i].1)));
    lemma_forms_are_map(map, forms);
    lemma_map_is_kept(forms);
    lemma_text_members(map);
}

proof fn lemma_text_members(map: TextMap)
    ensures
        text_members(Seq::new(map.len(), |i: int| (map[i].0, JsonView::Text(map[i].1)))) == map,
    decreases map.len(),
{
    let forms = Seq::new(map.len(), |i: int| (map[i].0, JsonView::Text(map[i].1)));
    if map.len() == 0 {
        assert(map =~= Seq::empty());
    } else {
        let start = map.drop_last();
        lemma_text_members(start);
        assert(forms.drop_last() =~= Seq::new(
            start.len(),
            |i: int| (start[i].0, JsonView::Text(start[i].1)),
        ));
        assert(start.push((map.last().0, map.last().1)) =~= map);
    }
}

/// A map of integers is read back from its JSON form.
pub proof fn lemma_i64_map_read_back(
    object: Members,
    field: Seq<char>,
    map: Seq<(Seq<char>, i64)>,
)
    requires
        ordered::lookup(object, field) == Some(i64_map_form(map)),
        ordered::is_map(map),
    ensures
        i64_map_at(object, field) == Ok::<Seq<(Seq<char>, i64)>, StatusView>(map),
{
    let forms = Seq::new(map.len(), |i: int| (map[i].0, i64_form(map[i].1)));
    lemma_forms_are_map(map, forms);
    lemma_map_is_kept(forms);
    lemma_i64_members(map, field);
}

proof fn lemma_i64_members(map: Seq<(Seq<char>, i64)>, field: Seq<char>)
    ensures
        i64_members(
            Seq::new(map.len(), |i: int| (map[i].0, i64_form(map[i].1))),
            field,
        ) == Ok::<Seq<(Seq<char>, i64)>, StatusView>(map),
    decreases map.len(),
{
    let forms = Seq::new(map.len(), |i: int| (map[i].0, i64_form(map[i].1)));
    if map.len() == 0 {
        assert(map =~= Seq::empty());
    } else {
        let start = map.drop_last();
        lemma_i64_members(start, field);
        assert(forms.drop_last() =~= Seq::new(
            start.len(),
            |i: int| (start[i].0, i64_form(start[i].1)),
        ));
        assert(start.push((map.last().0, map.last().1)) =~= map);
    }
}

/// A map of messages is read back from its JSON form.
pub proof fn lemma_message_map_read_back<T: Message>(
    object: Members,
    field: Seq<char>,
    map: Seq<(Seq<char>, T::V)>,
)
    requires
        ordered::lookup(object, field) == Some(message_map_form::<T>(map)),
        map_is_readable::<T>(map),
    ensures
        message_map_at::<T>(object, field) == Ok::<Seq<(Seq<char>, T::V)>, StatusView>(map),
{
    let forms = Seq::new(map.len(), |i: int| (map[i].0, T::json_form(map[i].1)));
    lemma_forms_are_map(map, forms);
    lemma_map_is_kept(forms);
    lemma_message_members::<T>(map);
}

proof fn lemma_message_members<T: Message>(map: Seq<(Seq<char>, T::V)>)
    requires
        forall|i: int| 0 <= i < map.len() ==> T::is_readable((#[trigger] map[i]).1),
    ensures
        message_members::<T>(
            Seq::new(map.len(), |i: int| (map[i].0, T::json_form(map[i].1))),
        ) == Ok::<Seq<(Seq<char>, T::V)>, StatusView>(map),
    decreases map.len(),
{
    let forms = Seq::new(map.len(), |i: int| (map[i].0, T::json_form(map[i].1)));
    if map.len() == 0 {
        assert(map =~= Seq::empty());
    } else {
        let start = map.drop_last();
        assert forall|i: int| 0 <= i < start.len() implies T::is_readable(
            (#[trigger] start[i]).1,
        ) by {
            assert(start[i] == map[i]);
        }
        lemma_message_members::<T>(start);
        assert(forms.drop_last() =~= Seq::new(
            start.len(),
            |i: int| (start[i].0, T::json_form(start[i].1)),
        ));
        assert(map[map.len() - 1] == map.last());
        T::law_round_trip(map.last().1);
        assert(start.push((map.last().0, map.last().1)) =~= map);
    }
}

} // verus!
