//! What is read from the fields of JSON objects, and what is not shown in them.

use crate::adapters::config::{
    policy_merge_operation_members, setting_value_decoded, setting_value_members,
    MergeOperationView, SettingKindView,
};
use crate::adapters::driver::redacted_token;
use crate::adapters::fields::{
    flag_at, i32_at, i64_at, i64_form, i64_in, list_at, object_at, object_in, optional_flag_at,
    optional_flag_form, text_at, text_map_at, texts_at, u32_at, u64_at, u64_form, u64_in, value_at,
    Members,
};
use crate::adapters::provider::{shown_provider, ProviderView};
use crate::json::JsonView;
use crate::ordered;
use crate::status::{Code, StatusView};
use vstd::prelude::*;

verus! {

// ---------------------------------------------------------------------------
// Fields
// ---------------------------------------------------------------------------

/// What is absent is read as nothing: an empty text, a cleared flag, zero, an empty list.
pub proof fn law_absent_fields(object: Members, field: Seq<char>)
    requires
        ordered::lookup(object, field) is None,
    ensures
        text_at(object, field).len() == 0,
        !flag_at(object, field),
        u64_at(object, field) == Ok::<u64, StatusView>(0),
        i64_at(object, field) == Ok::<i64, StatusView>(0),
        u32_at(object, field) == Ok::<u32, StatusView>(0),
        i32_at(object, field) == Ok::<i32, StatusView>(0),
        optional_flag_at(object, field) == Ok::<Option<bool>, StatusView>(None),
        object_at(object, field) == Ok::<Option<JsonView>, StatusView>(None),
        list_at(object, field) matches Ok(items) && items.len() == 0,
        texts_at(object, field) matches Ok(texts) && texts.len() == 0,
        text_map_at(object, field).len() == 0,
{
}

/// A null counts as absent where a value can be left open, and nowhere as a number.
pub proof fn law_null_fields(object: Members, field: Seq<char>)
    requires
        ordered::lookup(object, field) == Some(JsonView::Null),
    ensures
        value_at(object, field) is None,
        optional_flag_at(object, field) == Ok::<Option<bool>, StatusView>(None),
        object_at(object, field) == Ok::<Option<JsonView>, StatusView>(None),
        list_at(object, field) matches Ok(items) && items.len() == 0,
        u64_at(object, field) is Err,
        i64_at(object, field) is Err,
{
}

/// What is there is read as it is. A text or a flag of another kind counts as absent, and a
/// number, list or object of another kind is refused.
pub proof fn law_present_fields(object: Members, field: Seq<char>, value: JsonView)
    requires
        ordered::lookup(object, field) == Some(value),
        value != JsonView::Null,
    ensures
        text_at(object, field) == (match value {
            JsonView::Text(text) => text,
            _ => Seq::empty(),
        }),
        flag_at(object, field) <==> value == JsonView::Bool(true),
        optional_flag_at(object, field) is Ok <==> value is Bool,
        value matches JsonView::Bool(flag) ==> optional_flag_at(object, field) == Ok::<
            Option<bool>,
            StatusView,
        >(Some(flag)),
        object_at(object, field) is Ok <==> value is Object,
        value is Object ==> object_at(object, field) == Ok::<Option<JsonView>, StatusView>(
            Some(value),
        ),
        list_at(object, field) is Ok <==> value is List,
        value matches JsonView::List(items) ==> list_at(object, field) == Ok::<
            Seq<JsonView>,
            StatusView,
        >(items),
        u64_at(object, field) is Ok ==> value is Number,
        i64_at(object, field) is Ok ==> value is Number,
        u64_at(object, field) matches Err(error) ==> error.code == Code::InvalidArgument,
        i64_at(object, field) matches Err(error) ==> error.code == Code::InvalidArgument,
{
}

/// A list is one of texts exactly where each of its items is a text, and is read in order.
pub proof fn law_lists_of_texts(object: Members, field: Seq<char>, items: Seq<JsonView>)
    requires
        ordered::lookup(object, field) == Some(JsonView::List(items)),
    ensures
        texts_at(object, field) is Ok <==> (forall|i: int|
            0 <= i < items.len() ==> (#[trigger] items[i]) is Text),
        texts_at(object, field) matches Ok(texts) ==> texts.len() == items.len() && (forall|i: int|
            0 <= i < items.len() ==> items[i] == JsonView::Text(#[trigger] texts[i])),
{
    if let Ok(texts) = texts_at(object, field) {
        assert forall|i: int| 0 <= i < items.len() implies items[i] == JsonView::Text(
            #[trigger] texts[i],
        ) by {
            assert(items[i] is Text);
        }
    }
}

/// Integers are read back from their JSON forms, and those of 32 bits only where they fit.
pub proof fn law_integers(object: Members, field: Seq<char>, unsigned: u64, signed: i64)
    ensures
        u64_in(u64_form(unsigned), field) == Ok::<u64, StatusView>(unsigned),
        i64_in(i64_form(signed), field) == Ok::<i64, StatusView>(signed),
        ordered::lookup(object, field) == Some(u64_form(unsigned)) ==> (u32_at(object, field) is Ok
            <==> unsigned <= u32::MAX),
        ordered::lookup(object, field) == Some(u64_form(unsigned)) ==> (u32_at(object, field)
            matches Ok(value) ==> value == unsigned),
        ordered::lookup(object, field) == Some(i64_form(signed)) ==> (i32_at(object, field) is Ok
            <==> i32::MIN <= signed <= i32::MAX),
        ordered::lookup(object, field) == Some(i64_form(signed)) ==> (i32_at(object, field)
            matches Ok(value) ==> value == signed),
{
}

/// A message is read from an object and from nothing else.
pub proof fn law_objects(json: JsonView, message_type: Seq<char>)
    ensures
        object_in(json, message_type) is Ok <==> json is Object,
        json matches JsonView::Object(members) ==> object_in(json, message_type) == Ok::<
            Members,
            StatusView,
        >(members),
        object_in(json, message_type) matches Err(error) ==> error.code == Code::InvalidArgument
            && error.message == message_type + " must be a JSON object"@,
{
}

/// A flag that is left open is null.
pub proof fn law_open_flags(value: bool)
    ensures
        optional_flag_form(None) == JsonView::Null,
        optional_flag_form(Some(value)) == JsonView::Bool(value),
{
}

// ---------------------------------------------------------------------------
// Settings and changes of policies
// ---------------------------------------------------------------------------

/// A setting is the text that it has, or else the flag, or else the integer, or else the
/// bytes. One that has none of them has no value.
pub proof fn law_settings(object: Members, decoded: Result<Seq<u8>, Seq<char>>)
    ensures
        ordered::lookup(object, "string_value"@) matches Some(JsonView::Text(value))
            ==> setting_value_decoded(object, decoded) == Ok::<Option<SettingKindView>, StatusView>(
            Some(SettingKindView::Text(value)),
        ),
        ordered::lookup(object, "string_value"@) is None ==> (ordered::lookup(
            object,
            "bool_value"@,
        ) matches Some(JsonView::Bool(flag)) ==> setting_value_decoded(object, decoded) == Ok::<
            Option<SettingKindView>,
            StatusView,
        >(Some(SettingKindView::Flag(flag)))),
        ordered::lookup(object, "string_value"@) is None && ordered::lookup(object, "bool_value"@)
            is None ==> (ordered::lookup(object, "int_value"@) matches Some(value)
            ==> match i64_in(value, "int_value"@) {
            Ok(number) => setting_value_decoded(object, decoded) == Ok::<
                Option<SettingKindView>,
                StatusView,
            >(Some(SettingKindView::Number(number))),
            Err(error) => setting_value_decoded(object, decoded) == Err::<
                Option<SettingKindView>,
                StatusView,
            >(error),
        }),
        ordered::lookup(object, "string_value"@) is None && ordered::lookup(object, "bool_value"@)
            is None && ordered::lookup(object, "int_value"@) is None && ordered::lookup(
            object,
            "bytes_value"@,
        ) is Some ==> match decoded {
            Ok(bytes) => setting_value_decoded(object, decoded) == Ok::<
                Option<SettingKindView>,
                StatusView,
            >(Some(SettingKindView::Bytes(bytes))),
            Err(_) => setting_value_decoded(object, decoded) matches Err(error) && error.code
                == Code::InvalidArgument,
        },
        ordered::lookup(object, "string_value"@) is None && ordered::lookup(object, "bool_value"@)
            is None && ordered::lookup(object, "int_value"@) is None && ordered::lookup(
            object,
            "bytes_value"@,
        ) is None ==> setting_value_decoded(object, decoded) == Ok::<
            Option<SettingKindView>,
            StatusView,
        >(None),
{
}

/// A setting and a change of a policy have one member each, which is named after their kind.
pub proof fn law_single_members(
    setting: Option<SettingKindView>,
    change: Option<MergeOperationView>,
)
    ensures
        setting_value_members(setting).len() == (if setting is Some {
            1nat
        } else {
            0nat
        }),
        setting matches Some(kind) ==> setting_value_members(setting)[0].0 == (match kind {
            SettingKindView::Text(_) => "string_value"@,
            SettingKindView::Flag(_) => "bool_value"@,
            SettingKindView::Number(_) => "int_value"@,
            SettingKindView::Bytes(_) => "bytes_value"@,
        }),
        policy_merge_operation_members(change).len() == (if change is Some {
            1nat
        } else {
            0nat
        }),
        change matches Some(kind) ==> policy_merge_operation_members(change)[0].0 == (match kind {
            MergeOperationView::AddRule(_) => "add_rule"@,
            MergeOperationView::RemoveEndpoint(_) => "remove_endpoint"@,
            MergeOperationView::RemoveRule(_) => "remove_rule"@,
            MergeOperationView::AddDenyRules(_) => "add_deny_rules"@,
            MergeOperationView::AddAllowRules(_) => "add_allow_rules"@,
            MergeOperationView::RemoveBinary(_) => "remove_binary"@,
        }),
{
}

// ---------------------------------------------------------------------------
// Credentials
// ---------------------------------------------------------------------------

/// A provider that is shown without its credentials keeps their names and everything else,
/// and has the same word for the value of each. Otherwise it is shown as it is.
pub proof fn law_shown_providers(provider: ProviderView)
    ensures
        shown_provider(provider, false) == provider,
        ({
            let shown = shown_provider(provider, true);
            &&& shown.metadata == provider.metadata
            &&& shown.provider_type == provider.provider_type
            &&& shown.config == provider.config
            &&& shown.credential_expires_at_ms == provider.credential_expires_at_ms
            &&& shown.credentials.len() == provider.credentials.len()
            &&& forall|i: int|
                0 <= i < provider.credentials.len() ==> (#[trigger] shown.credentials[i]).0
                    == provider.credentials[i].0 && shown.credentials[i].1 == "REDACTED"@
        }),
{
}

/// Of a token only whether there is one is shown.
pub proof fn law_shown_tokens(a: Seq<char>, b: Seq<char>)
    ensures
        a.len() > 0 ==> redacted_token(a) == "REDACTED"@,
        a.len() == 0 ==> redacted_token(a).len() == 0,
        a.len() > 0 && b.len() > 0 ==> redacted_token(a) == redacted_token(b),
{
    reveal_strlit("");
}

} // verus!
