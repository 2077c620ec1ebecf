//! Providers, their profiles, and requests about them, as JSON.

use crate::adapters::fields::{
    all_readable, ascend, bool_field, bool_to_json, expect_object, flag_at, i32_at, i32_field,
    i64_at, i64_field, i64_form, i64_map_at, i64_map_field, i64_map_form, i64_map_to_json,
    i64_to_json, lemma_i64_map_read_back, lemma_in_order, lemma_members_are_found,
    lemma_message_read_back, lemma_messages_read_back, lemma_text_map_read_back,
    lemma_texts_read_back, message_at, message_field, message_form, message_to_json, messages_at,
    messages_field, messages_form, messages_to_json, object_in, object_to_json,
    optional_is_readable, push_member, string_array_field, string_field, string_map_field, text_at,
    text_map_at, text_map_form, text_map_to_json, text_to_json, texts_at, texts_form,
    texts_to_json, u32_at, u32_field, u64_form, u64_to_json, Form, Members, Message, TextMap,
};
use crate::adapters::policy::{
    NetworkBinary, NetworkBinaryView, NetworkEndpoint, NetworkEndpointView,
};
use crate::adapters::sandbox::{ObjectMeta, ObjectMetaView};
use crate::json::{Json, JsonView};
use crate::ordered;
use crate::outcome::shown;
use crate::status::{Status, StatusView};
use vstd::prelude::*;

verus! {

/// What the refresh of a credential needs.
#[derive(Debug, PartialEq, Eq)]
pub struct ProviderCredentialRefreshMaterial {
    pub name: String,
    pub description: String,
    pub required: bool,
    pub secret: bool,
}

/// The content of the message.
#[verifier::ext_equal]
pub struct ProviderCredentialRefreshMaterialView {
    pub name: Seq<char>,
    pub description: Seq<char>,
    pub required: bool,
    pub secret: bool,
}

impl DeepView for ProviderCredentialRefreshMaterial {
    type V = ProviderCredentialRefreshMaterialView;

    open spec fn deep_view(&self) -> ProviderCredentialRefreshMaterialView {
        ProviderCredentialRefreshMaterialView {
            name: self.name@,
            description: self.description@,
            required: self.required,
            secret: self.secret,
        }
    }
}

/// The members of the JSON form, in order.
pub open spec fn provider_credential_refresh_material_members(content: ProviderCredentialRefreshMaterialView) -> Members {
    seq![
        ("description"@, JsonView::Text(content.description)),
        ("name"@, JsonView::Text(content.name)),
        ("required"@, JsonView::Bool(content.required)),
        ("secret"@, JsonView::Bool(content.secret)),
    ]
}

/// The message that a JSON value is the form of.
pub open spec fn provider_credential_refresh_material_read(json: JsonView) -> Result<ProviderCredentialRefreshMaterialView, StatusView> {
    match object_in(json, "ProviderCredentialRefreshMaterial"@) {
        Err(error) => Err(error),
        Ok(object) => {
            Ok(
                ProviderCredentialRefreshMaterialView {
                    name: text_at(object, "name"@),
                    description: text_at(object, "description"@),
                    required: flag_at(object, "required"@),
                    secret: flag_at(object, "secret"@),
                },
            )
        },
    }
}

/// The JSON form of the message.
pub fn provider_credential_refresh_material_to_json(value: &ProviderCredentialRefreshMaterial) -> (r: Json)
    ensures
        r.deep_view() == JsonView::Object(provider_credential_refresh_material_members(value.deep_view())),
{
    let mut members: Vec<(String, Json)> = Vec::new();
    assert(members.deep_view() =~= Seq::empty());
    push_member(&mut members, "description", text_to_json(value.description.as_str()));
    push_member(&mut members, "name", text_to_json(value.name.as_str()));
    push_member(&mut members, "required", bool_to_json(value.required));
    push_member(&mut members, "secret", bool_to_json(value.secret));
    assert(members.deep_view() =~= provider_credential_refresh_material_members(value.deep_view()));
    object_to_json(members)
}

impl Form for ProviderCredentialRefreshMaterial {
    open spec fn json_form(content: ProviderCredentialRefreshMaterialView) -> JsonView {
        JsonView::Object(provider_credential_refresh_material_members(content))
    }

    fn to_json(&self) -> (r: Json) {
        provider_credential_refresh_material_to_json(self)
    }
}

/// The message that a JSON value is the form of.
pub fn provider_credential_refresh_material_from_json(value: &Json) -> (r: Result<ProviderCredentialRefreshMaterial, Status>)
    ensures
        shown(r) == provider_credential_refresh_material_read(value.deep_view()),
{
    let object = match expect_object(value, "ProviderCredentialRefreshMaterial") {
        Ok(object) => object,
        Err(error) => {
            return Err(error);
        },
    };
    let name = string_field(object, "name");
    let description = string_field(object, "description");
    let required = bool_field(object, "required");
    let secret = bool_field(object, "secret");
    Ok(ProviderCredentialRefreshMaterial { name, description, required, secret })
}

impl Message for ProviderCredentialRefreshMaterial {
    open spec fn read(json: JsonView) -> Result<ProviderCredentialRefreshMaterialView, StatusView> {
        provider_credential_refresh_material_read(json)
    }

    open spec fn is_readable(content: ProviderCredentialRefreshMaterialView) -> bool {
        true
    }

    fn from_json(value: &Json) -> (r: Result<ProviderCredentialRefreshMaterial, Status>) {
        provider_credential_refresh_material_from_json(value)
    }

    proof fn law_round_trip(content: ProviderCredentialRefreshMaterialView) {
        reveal_strlit("description");
        reveal_strlit("name");
        reveal_strlit("required");
        reveal_strlit("secret");
        let members = provider_credential_refresh_material_members(content);
        lemma_in_order("description"@, "name"@, 0);
        lemma_in_order("name"@, "required"@, 0);
        lemma_in_order("required"@, "secret"@, 0);
        reveal_with_fuel(ascend, 5);
        lemma_members_are_found(members);
        assert(members[0].0 == "description"@);
        assert(members[1].0 == "name"@);
        assert(members[2].0 == "required"@);
        assert(members[3].0 == "secret"@);
        assert(provider_credential_refresh_material_read(JsonView::Object(members))->Ok_0 =~= content);
    }
}

/// How a credential is refreshed.
#[derive(Debug, PartialEq, Eq)]
pub struct ProviderCredentialRefresh {
    pub strategy: i32,
    pub token_url: String,
    pub scopes: Vec<String>,
    pub refresh_before_seconds: i64,
    pub max_lifetime_seconds: i64,
    pub material: Vec<ProviderCredentialRefreshMaterial>,
}

/// The content of the message.
#[verifier::ext_equal]
pub struct ProviderCredentialRefreshView {
    pub strategy: i32,
    pub token_url: Seq<char>,
    pub scopes: Seq<Seq<char>>,
    pub refresh_before_seconds: i64,
    pub max_lifetime_seconds: i64,
    pub material: Seq<ProviderCredentialRefreshMaterialView>,
}

impl DeepView for ProviderCredentialRefresh {
    type V = ProviderCredentialRefreshView;

    open spec fn deep_view(&self) -> ProviderCredentialRefreshView {
        ProviderCredentialRefreshView {
            strategy: self.strategy,
            token_url: self.token_url@,
            scopes: self.scopes.deep_view(),
            refresh_before_seconds: self.refresh_before_seconds,
            max_lifetime_seconds: self.max_lifetime_seconds,
            material: self.material.deep_view(),
        }
    }
}

/// The members of the JSON form, in order.
pub open spec fn provider_credential_refresh_members(content: ProviderCredentialRefreshView) -> Members {
    seq![
        ("material"@, messages_form::<ProviderCredentialRefreshMaterial>(content.material)),
        ("max_lifetime_seconds"@, i64_form(content.max_lifetime_seconds)),
        ("refresh_before_seconds"@, i64_form(content.refresh_before_seconds)),
        ("scopes"@, texts_form(content.scopes)),
        ("strategy"@, i64_form(content.strategy as i64)),
        ("token_url"@, JsonView::Text(content.token_url)),
    ]
}

/// The message that a JSON value is the form of.
pub open spec fn provider_credential_refresh_read(json: JsonView) -> Result<ProviderCredentialRefreshView, StatusView> {
    match object_in(json, "ProviderCredentialRefresh"@) {
        Err(error) => Err(error),
        Ok(object) => {
            let strategy = i32_at(object, "strategy"@);
            let scopes = texts_at(object, "scopes"@);
            let refresh_before_seconds = i64_at(object, "refresh_before_seconds"@);
            let max_lifetime_seconds = i64_at(object, "max_lifetime_seconds"@);
            let material = messages_at::<ProviderCredentialRefreshMaterial>(object, "material"@);
            if strategy is Err {
                Err(strategy->Err_0)
            } else if scopes is Err {
                Err(scopes->Err_0)
            } else if refresh_before_seconds is Err {
                Err(refresh_before_seconds->Err_0)
            } else if max_lifetime_seconds is Err {
                Err(max_lifetime_seconds->Err_0)
            } else if material is Err {
                Err(material->Err_0)
            } else {
                Ok(
                    ProviderCredentialRefreshView {
                        strategy: strategy->Ok_0,
                        token_url: text_at(object, "token_url"@),
                        scopes: scopes->Ok_0,
                        refresh_before_seconds: refresh_before_seconds->Ok_0,
                        max_lifetime_seconds: max_lifetime_seconds->Ok_0,
                        material: material->Ok_0,
                    },
                )
            }
        },
    }
}

/// The JSON form of the message.
pub fn provider_credential_refresh_to_json(value: &ProviderCredentialRefresh) -> (r: Json)
    ensures
        r.deep_view() == JsonView::Object(provider_credential_refresh_members(value.deep_view())),
{
    let mut members: Vec<(String, Json)> = Vec::new();
    assert(members.deep_view() =~= Seq::empty());
    push_member(&mut members, "material", messages_to_json(&value.material));
    push_member(&mut members, "max_lifetime_seconds", i64_to_json(value.max_lifetime_seconds));
    push_member(
        &mut members,
        "refresh_before_seconds",
        i64_to_json(value.refresh_before_seconds),
    );
    push_member(&mut members, "scopes", texts_to_json(&value.scopes));
    push_member(&mut members, "strategy", i64_to_json(value.strategy as i64));
    push_member(&mut members, "token_url", text_to_json(value.token_url.as_str()));
    assert(members.deep_view() =~= provider_credential_refresh_members(value.deep_view()));
    object_to_json(members)
}

impl Form for ProviderCredentialRefresh {
    open spec fn json_form(content: ProviderCredentialRefreshView) -> JsonView {
        JsonView::Object(provider_credential_refresh_members(content))
    }

    fn to_json(&self) -> (r: Json) {
        provider_credential_refresh_to_json(self)
    }
}

/// The message that a JSON value is the form of.
pub fn provider_credential_refresh_from_json(value: &Json) -> (r: Result<ProviderCredentialRefresh, Status>)
    ensures
        shown(r) == provider_credential_refresh_read(value.deep_view()),
{
    let object = match expect_object(value, "ProviderCredentialRefresh") {
        Ok(object) => object,
        Err(error) => {
            return Err(error);
        },
    };
    let strategy: i32 = match i32_field(object, "strategy") {
        Ok(strategy) => strategy,
        Err(error) => {
            return Err(error);
        },
    };
    let token_url = string_field(object, "token_url");
    let scopes = match string_array_field(object, "scopes") {
        Ok(scopes) => scopes,
        Err(error) => {
            return Err(error);
        },
    };
    let refresh_before_seconds: i64 = match i64_field(object, "refresh_before_seconds") {
        Ok(refresh_before_seconds) => refresh_before_seconds,
        Err(error) => {
            return Err(error);
        },
    };
    let max_lifetime_seconds: i64 = match i64_field(object, "max_lifetime_seconds") {
        Ok(max_lifetime_seconds) => max_lifetime_seconds,
        Err(error) => {
            return Err(error);
        },
    };
    let material = match messages_field::<ProviderCredentialRefreshMaterial>(object, "material") {
        Ok(material) => material,
        Err(error) => {
            return Err(error);
        },
    };
    Ok(
        ProviderCredentialRefresh {
            strategy,
            token_url,
            scopes,
            refresh_before_seconds,
            max_lifetime_seconds,
            material,
        },
    )
}

impl Message for ProviderCredentialRefresh {
    open spec fn read(json: JsonView) -> Result<ProviderCredentialRefreshView, StatusView> {
        provider_credential_refresh_read(json)
    }

    open spec fn is_readable(content: ProviderCredentialRefreshView) -> bool {
        all_readable::<ProviderCredentialRefreshMaterial>(content.material)
    }

    fn from_json(value: &Json) -> (r: Result<ProviderCredentialRefresh, Status>) {
        provider_credential_refresh_from_json(value)
    }

    proof fn law_round_trip(content: ProviderCredentialRefreshView) {
        reveal_strlit("material");
        reveal_strlit("max_lifetime_seconds");
        reveal_strlit("refresh_before_seconds");
        reveal_strlit("scopes");
        reveal_strlit("strategy");
        reveal_strlit("token_url");
        let members = provider_credential_refresh_members(content);
        lemma_in_order("material"@, "max_lifetime_seconds"@, 2);
        lemma_in_order("max_lifetime_seconds"@, "refresh_before_seconds"@, 0);
        lemma_in_order("refresh_before_seconds"@, "scopes"@, 0);
        lemma_in_order("scopes"@, "strategy"@, 1);
        lemma_in_order("strategy"@, "token_url"@, 0);
        reveal_with_fuel(ascend, 7);
        lemma_members_are_found(members);
        assert(members[0].0 == "material"@);
        assert(members[1].0 == "max_lifetime_seconds"@);
        assert(members[2].0 == "refresh_before_seconds"@);
        assert(members[3].0 == "scopes"@);
        assert(members[4].0 == "strategy"@);
        assert(members[5].0 == "token_url"@);
        lemma_texts_read_back(members, "scopes"@, content.scopes);
        lemma_messages_read_back::<ProviderCredentialRefreshMaterial>(members, "material"@, content.material);
        assert(provider_credential_refresh_read(JsonView::Object(members))->Ok_0 =~= content);
    }
}

/// Another audience for some endpoint.
#[derive(Debug, PartialEq, Eq)]
pub struct ProviderCredentialTokenGrantAudienceOverride {
    pub host: String,
    pub port: u32,
    pub path: String,
    pub audience: String,
    pub scopes: Vec<String>,
}

/// The content of the message.
#[verifier::ext_equal]
pub struct ProviderCredentialTokenGrantAudienceOverrideView {
    pub host: Seq<char>,
    pub port: u32,
    pub path: Seq<char>,
    pub audience: Seq<char>,
    pub scopes: Seq<Seq<char>>,
}

impl DeepView for ProviderCredentialTokenGrantAudienceOverride {
    type V = ProviderCredentialTokenGrantAudienceOverrideView;

    open spec fn deep_view(&self) -> ProviderCredentialTokenGrantAudienceOverrideView {
        ProviderCredentialTokenGrantAudienceOverrideView {
            host: self.host@,
            port: self.port,
            path: self.path@,
            audience: self.audience@,
            scopes: self.scopes.deep_view(),
        }
    }
}

/// The members of the JSON form, in order.
pub open spec fn provider_credential_token_grant_override_members(content: ProviderCredentialTokenGrantAudienceOverrideView) -> Members {
    seq![
        ("audience"@, JsonView::Text(content.audience)),
        ("host"@, JsonView::Text(content.host)),
        ("path"@, JsonView::Text(content.path)),
        ("port"@, u64_form(content.port as u64)),
        ("scopes"@, texts_form(content.scopes)),
    ]
}

/// The message that a JSON value is the form of.
pub open spec fn provider_credential_token_grant_override_read(json: JsonView) -> Result<ProviderCredentialTokenGrantAudienceOverrideView, StatusView> {
    match object_in(json, "ProviderCredentialTokenGrantAudienceOverride"@) {
        Err(error) => Err(error),
        Ok(object) => {
            let port = u32_at(object, "port"@);
            let scopes = texts_at(object, "scopes"@);
            if port is Err {
                Err(port->Err_0)
            } else if scopes is Err {
                Err(scopes->Err_0)
            } else {
                Ok(
                    ProviderCredentialTokenGrantAudienceOverrideView {
                        host: text_at(object, "host"@),
                        port: port->Ok_0,
                        path: text_at(object, "path"@),
                        audience: text_at(object, "audience"@),
                        scopes: scopes->Ok_0,
                    },
                )
            }
        },
    }
}

/// The JSON form of the message.
pub fn provider_credential_token_grant_override_to_json(value: &ProviderCredentialTokenGrantAudienceOverride) -> (r: Json)
    ensures
        r.deep_view() == JsonView::Object(provider_credential_token_grant_override_members(value.deep_view())),
{
    let mut members: Vec<(String, Json)> = Vec::new();
    assert(members.deep_view() =~= Seq::empty());
    push_member(&mut members, "audience", text_to_json(value.audience.as_str()));
    push_member(&mut members, "host", text_to_json(value.host.as_str()));
    push_member(&mut members, "path", text_to_json(value.path.as_str()));
    push_member(&mut members, "port", u64_to_json(value.port as u64));
    push_member(&mut members, "scopes", texts_to_json(&value.scopes));
    assert(members.deep_view() =~= provider_credential_token_grant_override_members(value.deep_view()));
    object_to_json(members)
}

impl Form for ProviderCredentialTokenGrantAudienceOverride {
    open spec fn json_form(content: ProviderCredentialTokenGrantAudienceOverrideView) -> JsonView {
        JsonView::Object(provider_credential_token_grant_override_members(content))
    }

    fn to_json(&self) -> (r: Json) {
        provider_credential_token_grant_override_to_json(self)
    }
}

/// The message that a JSON value is the form of.
pub fn provider_credential_token_grant_override_from_json(value: &Json) -> (r: Result<ProviderCredentialTokenGrantAudienceOverride, Status>)
    ensures
        shown(r) == provider_credential_token_grant_override_read(value.deep_view()),
{
    let object = match expect_object(value, "ProviderCredentialTokenGrantAudienceOverride") {
        Ok(object) => object,
        Err(error) => {
            return Err(error);
        },
    };
    let host = string_field(object, "host");
    let port: u32 = match u32_field(object, "port") {
        Ok(port) => port,
        Err(error) => {
            return Err(error);
        },
    };
    let path = string_field(object, "path");
    let audience = string_field(object, "audience");
    let scopes = match string_array_field(object, "scopes") {
        Ok(scopes) => scopes,
        Err(error) => {
            return Err(error);
        },
    };
    Ok(ProviderCredentialTokenGrantAudienceOverride { host, port, path, audience, scopes })
}

impl Message for ProviderCredentialTokenGrantAudienceOverride {
    open spec fn read(json: JsonView) -> Result<ProviderCredentialTokenGrantAudienceOverrideView, StatusView> {
        provider_credential_token_grant_override_read(json)
    }

    open spec fn is_readable(content: ProviderCredentialTokenGrantAudienceOverrideView) -> bool {
        true
    }

    fn from_json(value: &Json) -> (r: Result<ProviderCredentialTokenGrantAudienceOverride, Status>) {
        provider_credential_token_grant_override_from_json(value)
    }

    proof fn law_round_trip(content: ProviderCredentialTokenGrantAudienceOverrideView) {
        reveal_strlit("audience");
        reveal_strlit("host");
        reveal_strlit("path");
        reveal_strlit("port");
        reveal_strlit("scopes");
        let members = provider_credential_token_grant_override_members(content);
        lemma_in_order("audience"@, "host"@, 0);
        lemma_in_order("host"@, "path"@, 0);
        lemma_in_order("path"@, "port"@, 1);
        lemma_in_order("port"@, "scopes"@, 0);
        reveal_with_fuel(ascend, 6);
        lemma_members_are_found(members);
        assert(members[0].0 == "audience"@);
        assert(members[1].0 == "host"@);
        assert(members[2].0 == "path"@);
        assert(members[3].0 == "port"@);
        assert(members[4].0 == "scopes"@);
        lemma_texts_read_back(members, "scopes"@, content.scopes);
        assert(provider_credential_token_grant_override_read(JsonView::Object(members))->Ok_0 =~= content);
    }
}

/// How a token is granted.
#[derive(Debug, PartialEq, Eq)]
pub struct ProviderCredentialTokenGrant {
    pub token_endpoint: String,
    pub audience: String,
    pub jwt_svid_audience: String,
    pub scopes: Vec<String>,
    pub cache_ttl_seconds: i64,
    pub audience_overrides: Vec<ProviderCredentialTokenGrantAudienceOverride>,
    pub client_assertion_type: String,
}

/// The content of the message.
#[verifier::ext_equal]
pub struct ProviderCredentialTokenGrantView {
    pub token_endpoint: Seq<char>,
    pub audience: Seq<char>,
    pub jwt_svid_audience: Seq<char>,
    pub scopes: Seq<Seq<char>>,
    pub cache_ttl_seconds: i64,
    pub audience_overrides: Seq<ProviderCredentialTokenGrantAudienceOverrideView>,
    pub client_assertion_type: Seq<char>,
}

impl DeepView for ProviderCredentialTokenGrant {
    type V = ProviderCredentialTokenGrantView;

    open spec fn deep_view(&self) -> ProviderCredentialTokenGrantView {
        ProviderCredentialTokenGrantView {
            token_endpoint: self.token_endpoint@,
            audience: self.audience@,
            jwt_svid_audience: self.jwt_svid_audience@,
            scopes: self.scopes.deep_view(),
            cache_ttl_seconds: self.cache_ttl_seconds,
            audience_overrides: self.audience_overrides.deep_view(),
            client_assertion_type: self.client_assertion_type@,
        }
    }
}

/// The members of the JSON form, in order.
pub open spec fn provider_credential_token_grant_members(content: ProviderCredentialTokenGrantView) -> Members {
    seq![
        ("audience"@, JsonView::Text(content.audience)),
        (
            "audience_overrides"@,
            messages_form::<ProviderCredentialTokenGrantAudienceOverride>(content.audience_overrides),
        ),
        ("cache_ttl_seconds"@, i64_form(content.cache_ttl_seconds)),
        ("client_assertion_type"@, JsonView::Text(content.client_assertion_type)),
        ("jwt_svid_audience"@, JsonView::Text(content.jwt_svid_audience)),
        ("scopes"@, texts_form(content.scopes)),
        ("token_endpoint"@, JsonView::Text(content.token_endpoint)),
    ]
}

/// The message that a JSON value is the form of.
pub open spec fn provider_credential_token_grant_read(json: JsonView) -> Result<ProviderCredentialTokenGrantView, StatusView> {
    match object_in(json, "ProviderCredentialTokenGrant"@) {
        Err(error) => Err(error),
        Ok(object) => {
            let scopes = texts_at(object, "scopes"@);
            let cache_ttl_seconds = i64_at(object, "cache_ttl_seconds"@);
            let audience_overrides = messages_at::<ProviderCredentialTokenGrantAudienceOverride>(object, "audience_overrides"@);
            if scopes is Err {
                Err(scopes->Err_0)
            } else if cache_ttl_seconds is Err {
                Err(cache_ttl_seconds->Err_0)
            } else if audience_overrides is Err {
                Err(audience_overrides->Err_0)
            } else {
                Ok(
                    ProviderCredentialTokenGrantView {
                        token_endpoint: text_at(object, "token_endpoint"@),
                        audience: text_at(object, "audience"@),
                        jwt_svid_audience: text_at(object, "jwt_svid_audience"@),
                        scopes: scopes->Ok_0,
                        cache_ttl_seconds: cache_ttl_seconds->Ok_0,
                        audience_overrides: audience_overrides->Ok_0,
                        client_assertion_type: text_at(object, "client_assertion_type"@),
                    },
                )
            }
        },
    }
}

/// The JSON form of the message.
pub fn provider_credential_token_grant_to_json(value: &ProviderCredentialTokenGrant) -> (r: Json)
    ensures
        r.deep_view() == JsonView::Object(provider_credential_token_grant_members(value.deep_view())),
{
    let mut members: Vec<(String, Json)> = Vec::new();
    assert(members.deep_view() =~= Seq::empty());
    push_member(&mut members, "audience", text_to_json(value.audience.as_str()));
    push_member(
        &mut members,
        "audience_overrides",
        messages_to_json(&value.audience_overrides),
    );
    push_member(&mut members, "cache_ttl_seconds", i64_to_json(value.cache_ttl_seconds));
    push_member(
        &mut members,
        "client_assertion_type",
        text_to_json(value.client_assertion_type.as_str()),
    );
    push_member(
        &mut members,
        "jwt_svid_audience",
        text_to_json(value.jwt_svid_audience.as_str()),
    );
    push_member(&mut members, "scopes", texts_to_json(&value.scopes));
    push_member(&mut members, "token_endpoint", text_to_json(value.token_endpoint.as_str()));
    assert(members.deep_view() =~= provider_credential_token_grant_members(value.deep_view()));
    object_to_json(members)
}

impl Form for ProviderCredentialTokenGrant {
    open spec fn json_form(content: ProviderCredentialTokenGrantView) -> JsonView {
        JsonView::Object(provider_credential_token_grant_members(content))
    }

    fn to_json(&self) -> (r: Json) {
        provider_credential_token_grant_to_json(self)
    }
}

/// The message that a JSON value is the form of.
pub fn provider_credential_token_grant_from_json(value: &Json) -> (r: Result<ProviderCredentialTokenGrant, Status>)
    ensures
        shown(r) == provider_credential_token_grant_read(value.deep_view()),
{
    let object = match expect_object(value, "ProviderCredentialTokenGrant") {
        Ok(object) => object,
        Err(error) => {
            return Err(error);
        },
    };
    let token_endpoint = string_field(object, "token_endpoint");
    let audience = string_field(object, "audience");
    let jwt_svid_audience = string_field(object, "jwt_svid_audience");
    let scopes = match string_array_field(object, "scopes") {
        Ok(scopes) => scopes,
        Err(error) => {
            return Err(error);
        },
    };
    let cache_ttl_seconds: i64 = match i64_field(object, "cache_ttl_seconds") {
        Ok(cache_ttl_seconds) => cache_ttl_seconds,
        Err(error) => {
            return Err(error);
        },
    };
    let audience_overrides = match messages_field::<ProviderCredentialTokenGrantAudienceOverride>(object, "audience_overrides") {
        Ok(audience_overrides) => audience_overrides,
        Err(error) => {
            return Err(error);
        },
    };
    let client_assertion_type = string_field(object, "client_assertion_type");
    Ok(
        ProviderCredentialTokenGrant {
            token_endpoint,
            audience,
            jwt_svid_audience,
            scopes,
            cache_ttl_seconds,
            audience_overrides,
            client_assertion_type,
        },
    )
}

impl Message for ProviderCredentialTokenGrant {
    open spec fn read(json: JsonView) -> Result<ProviderCredentialTokenGrantView, StatusView> {
        provider_credential_token_grant_read(json)
    }

    open spec fn is_readable(content: ProviderCredentialTokenGrantView) -> bool {
        all_readable::<ProviderCredentialTokenGrantAudienceOverride>(content.audience_overrides)
    }

    fn from_json(value: &Json) -> (r: Result<ProviderCredentialTokenGrant, Status>) {
        provider_credential_token_grant_from_json(value)
    }

    proof fn law_round_trip(content: ProviderCredentialTokenGrantView) {
        reveal_strlit("audience");
        reveal_strlit("audience_overrides");
        reveal_strlit("cache_ttl_seconds");
        reveal_strlit("client_assertion_type");
        reveal_strlit("jwt_svid_audience");
        reveal_strlit("scopes");
        reveal_strlit("token_endpoint");
        let members = provider_credential_token_grant_members(content);
        lemma_in_order("audience"@, "audience_overrides"@, 8);
        lemma_in_order("audience_overrides"@, "cache_ttl_seconds"@, 0);
        lemma_in_order("cache_ttl_seconds"@, "client_assertion_type"@, 1);
        lemma_in_order("client_assertion_type"@, "jwt_svid_audience"@, 0);
        lemma_in_order("jwt_svid_audience"@, "scopes"@, 0);
        lemma_in_order("scopes"@, "token_endpoint"@, 0);
        reveal_with_fuel(ascend, 8);
        lemma_members_are_found(members);
        assert(members[0].0 == "audience"@);
        assert(members[1].0 == "audience_overrides"@);
        assert(members[2].0 == "cache_ttl_seconds"@);
        assert(members[3].0 == "client_assertion_type"@);
        assert(members[4].0 == "jwt_svid_audience"@);
        assert(members[5].0 == "scopes"@);
        assert(members[6].0 == "token_endpoint"@);
        lemma_texts_read_back(members, "scopes"@, content.scopes);
        lemma_messages_read_back::<ProviderCredentialTokenGrantAudienceOverride>(members, "audience_overrides"@, content.audience_overrides);
        assert(provider_credential_token_grant_read(JsonView::Object(members))->Ok_0 =~= content);
    }
}

/// A credential that a provider needs.
#[derive(Debug, PartialEq, Eq)]
pub struct ProviderProfileCredential {
    pub name: String,
    pub description: String,
    pub env_vars: Vec<String>,
    pub required: bool,
    pub auth_style: String,
    pub header_name: String,
    pub query_param: String,
    pub refresh: Option<ProviderCredentialRefresh>,
    pub path_template: String,
    pub token_grant: Option<ProviderCredentialTokenGrant>,
}

/// The content of the message.
#[verifier::ext_equal]
pub struct ProviderProfileCredentialView {
    pub name: Seq<char>,
    pub description: Seq<char>,
    pub env_vars: Seq<Seq<char>>,
    pub required: bool,
    pub auth_style: Seq<char>,
    pub header_name: Seq<char>,
    pub query_param: Seq<char>,
    pub refresh: Option<ProviderCredentialRefreshView>,
    pub path_template: Seq<char>,
    pub token_grant: Option<ProviderCredentialTokenGrantView>,
}

impl DeepView for ProviderProfileCredential {
    type V = ProviderProfileCredentialView;

    open spec fn deep_view(&self) -> ProviderProfileCredentialView {
        ProviderProfileCredentialView {
            name: self.name@,
            description: self.description@,
            env_vars: self.env_vars.deep_view(),
            required: self.required,
            auth_style: self.auth_style@,
            header_name: self.header_name@,
            query_param: self.query_param@,
            refresh: self.refresh.deep_view(),
            path_template: self.path_template@,
            token_grant: self.token_grant.deep_view(),
        }
    }
}

/// The members of the JSON form, in order.
pub open spec fn provider_profile_credential_members(content: ProviderProfileCredentialView) -> Members {
    seq![
        ("auth_style"@, JsonView::Text(content.auth_style)),
        ("description"@, JsonView::Text(content.description)),
        ("env_vars"@, texts_form(content.env_vars)),
        ("header_name"@, JsonView::Text(content.header_name)),
        ("name"@, JsonView::Text(content.name)),
        ("path_template"@, JsonView::Text(content.path_template)),
        ("query_param"@, JsonView::Text(content.query_param)),
        ("refresh"@, message_form::<ProviderCredentialRefresh>(content.refresh)),
        ("required"@, JsonView::Bool(content.required)),
        ("token_grant"@, message_form::<ProviderCredentialTokenGrant>(content.token_grant)),
    ]
}

/// The message that a JSON value is the form of.
pub open spec fn provider_profile_credential_read(json: JsonView) -> Result<ProviderProfileCredentialView, StatusView> {
    match object_in(json, "ProviderProfileCredential"@) {
        Err(error) => Err(error),
        Ok(object) => {
            let env_vars = texts_at(object, "env_vars"@);
            let refresh = message_at::<ProviderCredentialRefresh>(object, "refresh"@);
            let token_grant = message_at::<ProviderCredentialTokenGrant>(object, "token_grant"@);
            if env_vars is Err {
                Err(env_vars->Err_0)
            } else if refresh is Err {
                Err(refresh->Err_0)
            } else if token_grant is Err {
                Err(token_grant->Err_0)
            } else {
                Ok(
                    ProviderProfileCredentialView {
                        name: text_at(object, "name"@),
                        description: text_at(object, "description"@),
                        env_vars: env_vars->Ok_0,
                        required: flag_at(object, "required"@),
                        auth_style: text_at(object, "auth_style"@),
                        header_name: text_at(object, "header_name"@),
                        query_param: text_at(object, "query_param"@),
                        refresh: refresh->Ok_0,
                        path_template: text_at(object, "path_template"@),
                        token_grant: token_grant->Ok_0,
                    },
                )
            }
        },
    }
}

/// The JSON form of the message.
pub fn provider_profile_credential_to_json(value: &ProviderProfileCredential) -> (r: Json)
    ensures
        r.deep_view() == JsonView::Object(provider_profile_credential_members(value.deep_view())),
{
    let mut members: Vec<(String, Json)> = Vec::new();
    assert(members.deep_view() =~= Seq::empty());
    push_member(&mut members, "auth_style", text_to_json(value.auth_style.as_str()));
    push_member(&mut members, "description", text_to_json(value.description.as_str()));
    push_member(&mut members, "env_vars", texts_to_json(&value.env_vars));
    push_member(&mut members, "header_name", text_to_json(value.header_name.as_str()));
    push_member(&mut members, "name", text_to_json(value.name.as_str()));
    push_member(&mut members, "path_template", text_to_json(value.path_template.as_str()));
    push_member(&mut members, "query_param", text_to_json(value.query_param.as_str()));
    push_member(&mut members, "refresh", message_to_json(&value.refresh));
    push_member(&mut members, "required", bool_to_json(value.required));
    push_member(&mut members, "token_grant", message_to_json(&value.token_grant));
    assert(members.deep_view() =~= provider_profile_credential_members(value.deep_view()));
    object_to_json(members)
}

impl Form for ProviderProfileCredential {
    open spec fn json_form(content: ProviderProfileCredentialView) -> JsonView {
        JsonView::Object(provider_profile_credential_members(content))
    }

    fn to_json(&self) -> (r: Json) {
        provider_profile_credential_to_json(self)
    }
}

/// The message that a JSON value is the form of.
pub fn provider_profile_credential_from_json(value: &Json) -> (r: Result<ProviderProfileCredential, Status>)
    ensures
        shown(r) == provider_profile_credential_read(value.deep_view()),
{
    let object = match expect_object(value, "ProviderProfileCredential") {
        Ok(object) => object,
        Err(error) => {
            return Err(error);
        },
    };
    let name = string_field(object, "name");
    let description = string_field(object, "description");
    let env_vars = match string_array_field(object, "env_vars") {
        Ok(env_vars) => env_vars,
        Err(error) => {
            return Err(error);
        },
    };
    let required = bool_field(object, "required");
    let auth_style = string_field(object, "auth_style");
    let header_name = string_field(object, "header_name");
    let query_param = string_field(object, "query_param");
    let refresh = match message_field::<ProviderCredentialRefresh>(object, "refresh") {
        Ok(refresh) => refresh,
        Err(error) => {
            return Err(error);
        },
    };
    let path_template = string_field(object, "path_template");
    let token_grant = match message_field::<ProviderCredentialTokenGrant>(object, "token_grant") {
        Ok(token_grant) => token_grant,
        Err(error) => {
            return Err(error);
        },
    };
    Ok(
        ProviderProfileCredential {
            name,
            description,
            env_vars,
            required,
            auth_style,
            header_name,
            query_param,
            refresh,
            path_template,
            token_grant,
        },
    )
}

impl Message for ProviderProfileCredential {
    open spec fn read(json: JsonView) -> Result<ProviderProfileCredentialView, StatusView> {
        provider_profile_credential_read(json)
    }

    open spec fn is_readable(content: ProviderProfileCredentialView) -> bool {
        &&& optional_is_readable::<ProviderCredentialRefresh>(content.refresh)
        &&& optional_is_readable::<ProviderCredentialTokenGrant>(content.token_grant)
    }

    fn from_json(value: &Json) -> (r: Result<ProviderProfileCredential, Status>) {
        provider_profile_credential_from_json(value)
    }

    proof fn law_round_trip(content: ProviderProfileCredentialView) {
        reveal_strlit("auth_style");
        reveal_strlit("description");
        reveal_strlit("env_vars");
        reveal_strlit("header_name");
        reveal_strlit("name");
        reveal_strlit("path_template");
        reveal_strlit("query_param");
        reveal_strlit("refresh");
        reveal_strlit("required");
        reveal_strlit("token_grant");
        let members = provider_profile_credential_members(content);
        lemma_in_order("auth_style"@, "description"@, 0);
        lemma_in_order("description"@, "env_vars"@, 0);
        lemma_in_order("env_vars"@, "header_name"@, 0);
        lemma_in_order("header_name"@, "name"@, 0);
        lemma_in_order("name"@, "path_template"@, 0);
        lemma_in_order("path_template"@, "query_param"@, 0);
        lemma_in_order("query_param"@, "refresh"@, 0);
        lemma_in_order("refresh"@, "required"@, 2);
        lemma_in_order("required"@, "token_grant"@, 0);
        reveal_with_fuel(ascend, 11);
        lemma_members_are_found(members);
        assert(members[0].0 == "auth_style"@);
        assert(members[1].0 == "description"@);
        assert(members[2].0 == "env_vars"@);
        assert(members[3].0 == "header_name"@);
        assert(members[4].0 == "name"@);
        assert(members[5].0 == "path_template"@);
        assert(members[6].0 == "query_param"@);
        assert(members[7].0 == "refresh"@);
        assert(members[8].0 == "required"@);
        assert(members[9].0 == "token_grant"@);
        lemma_texts_read_back(members, "env_vars"@, content.env_vars);
        lemma_message_read_back::<ProviderCredentialRefresh>(members, "refresh"@, content.refresh);
        lemma_message_read_back::<ProviderCredentialTokenGrant>(members, "token_grant"@, content.token_grant);
        assert(provider_profile_credential_read(JsonView::Object(members))->Ok_0 =~= content);
    }
}

/// How credentials are discovered.
#[derive(Debug, PartialEq, Eq)]
pub struct ProviderProfileDiscovery {
    pub credentials: Vec<String>,
}

/// The content of the message.
#[verifier::ext_equal]
pub struct ProviderProfileDiscoveryView {
    pub credentials: Seq<Seq<char>>,
}

impl DeepView for ProviderProfileDiscovery {
    type V = ProviderProfileDiscoveryView;

    open spec fn deep_view(&self) -> ProviderProfileDiscoveryView {
        ProviderProfileDiscoveryView {
            credentials: self.credentials.deep_view(),
        }
    }
}

/// The members of the JSON form, in order.
pub open spec fn provider_profile_discovery_members(content: ProviderProfileDiscoveryView) -> Members {
    seq![
        ("credentials"@, texts_form(content.credentials)),
    ]
}

/// The message that a JSON value is the form of.
pub open spec fn provider_profile_discovery_read(json: JsonView) -> Result<ProviderProfileDiscoveryView, StatusView> {
    match object_in(json, "ProviderProfileDiscovery"@) {
        Err(error) => Err(error),
        Ok(object) => {
            let credentials = texts_at(object, "credentials"@);
            if credentials is Err {
                Err(credentials->Err_0)
            } else {
                Ok(
                    ProviderProfileDiscoveryView {
                        credentials: credentials->Ok_0,
                    },
                )
            }
        },
    }
}

/// The JSON form of the message.
pub fn provider_profile_discovery_to_json(value: &ProviderProfileDiscovery) -> (r: Json)
    ensures
        r.deep_view() == JsonView::Object(provider_profile_discovery_members(value.deep_view())),
{
    let mut members: Vec<(String, Json)> = Vec::new();
    assert(members.deep_view() =~= Seq::empty());
    push_member(&mut members, "credentials", texts_to_json(&value.credentials));
    assert(members.deep_view() =~= provider_profile_discovery_members(value.deep_view()));
    object_to_json(members)
}

impl Form for ProviderProfileDiscovery {
    open spec fn json_form(content: ProviderProfileDiscoveryView) -> JsonView {
        JsonView::Object(provider_profile_discovery_members(content))
    }

    fn to_json(&self) -> (r: Json) {
        provider_profile_discovery_to_json(self)
    }
}

/// The message that a JSON value is the form of.
pub fn provider_profile_discovery_from_json(value: &Json) -> (r: Result<ProviderProfileDiscovery, Status>)
    ensures
        shown(r) == provider_profile_discovery_read(value.deep_view()),
{
    let object = match expect_object(value, "ProviderProfileDiscovery") {
        Ok(object) => object,
        Err(error) => {
            return Err(error);
        },
    };
    let credentials = match string_array_field(object, "credentials") {
        Ok(credentials) => credentials,
        Err(error) => {
            return Err(error);
        },
    };
    Ok(ProviderProfileDiscovery { credentials })
}

impl Message for ProviderProfileDiscovery {
    open spec fn read(json: JsonView) -> Result<ProviderProfileDiscoveryView, StatusView> {
        provider_profile_discovery_read(json)
    }

    open spec fn is_readable(content: ProviderProfileDiscoveryView) -> bool {
        true
    }

    fn from_json(value: &Json) -> (r: Result<ProviderProfileDiscovery, Status>) {
        provider_profile_discovery_from_json(value)
    }

    proof fn law_round_trip(content: ProviderProfileDiscoveryView) {
        reveal_strlit("credentials");
        let members = provider_profile_discovery_members(content);
        let names = ordered::keys(members);
        lemma_members_are_found(members);
        assert(members[0].0 == "credentials"@);
        lemma_texts_read_back(members, "credentials"@, content.credentials);
        assert(provider_profile_discovery_read(JsonView::Object(members))->Ok_0 =~= content);
    }
}

/// What is known of a kind of provider.
#[derive(Debug, PartialEq, Eq)]
pub struct ProviderProfile {
    pub id: String,
    pub display_name: String,
    pub description: String,
    pub category: i32,
    pub credentials: Vec<ProviderProfileCredential>,
    pub endpoints: Vec<NetworkEndpoint>,
    pub binaries: Vec<NetworkBinary>,
    pub inference_capable: bool,
    pub discovery: Option<ProviderProfileDiscovery>,
}

/// The content of the message.
#[verifier::ext_equal]
pub struct ProviderProfileView {
    pub id: Seq<char>,
    pub display_name: Seq<char>,
    pub description: Seq<char>,
    pub category: i32,
    pub credentials: Seq<ProviderProfileCredentialView>,
    pub endpoints: Seq<NetworkEndpointView>,
    pub binaries: Seq<NetworkBinaryView>,
    pub inference_capable: bool,
    pub discovery: Option<ProviderProfileDiscoveryView>,
}

impl DeepView for ProviderProfile {
    type V = ProviderProfileView;

    open spec fn deep_view(&self) -> ProviderProfileView {
        ProviderProfileView {
            id: self.id@,
            display_name: self.display_name@,
            description: self.description@,
            category: self.category,
            credentials: self.credentials.deep_view(),
            endpoints: self.endpoints.deep_view(),
            binaries: self.binaries.deep_view(),
            inference_capable: self.inference_capable,
            discovery: self.discovery.deep_view(),
        }
    }
}

/// The members of the JSON form, in order.
pub open spec fn provider_profile_members(content: ProviderProfileView) -> Members {
    seq![
        ("binaries"@, messages_form::<NetworkBinary>(content.binaries)),
        ("category"@, i64_form(content.category as i64)),
        ("credentials"@, messages_form::<ProviderProfileCredential>(content.credentials)),
        ("description"@, JsonView::Text(content.description)),
        ("discovery"@, message_form::<ProviderProfileDiscovery>(content.discovery)),
        ("display_name"@, JsonView::Text(content.display_name)),
        ("endpoints"@, messages_form::<NetworkEndpoint>(content.endpoints)),
        ("id"@, JsonView::Text(content.id)),
        ("inference_capable"@, JsonView::Bool(content.inference_capable)),
    ]
}

/// The message that a JSON value is the form of.
pub open spec fn provider_profile_read(json: JsonView) -> Result<ProviderProfileView, StatusView> {
    match object_in(json, "ProviderProfile"@) {
        Err(error) => Err(error),
        Ok(object) => {
            let category = i32_at(object, "category"@);
            let credentials = messages_at::<ProviderProfileCredential>(object, "credentials"@);
            let endpoints = messages_at::<NetworkEndpoint>(object, "endpoints"@);
            let binaries = messages_at::<NetworkBinary>(object, "binaries"@);
            let discovery = message_at::<ProviderProfileDiscovery>(object, "discovery"@);
            if category is Err {
                Err(category->Err_0)
            } else if credentials is Err {
                Err(credentials->Err_0)
            } else if endpoints is Err {
                Err(endpoints->Err_0)
            } else if binaries is Err {
                Err(binaries->Err_0)
            } else if discovery is Err {
                Err(discovery->Err_0)
            } else {
                Ok(
                    ProviderProfileView {
                        id: text_at(object, "id"@),
                        display_name: text_at(object, "display_name"@),
                        description: text_at(object, "description"@),
                        category: category->Ok_0,
                        credentials: credentials->Ok_0,
                        endpoints: endpoints->Ok_0,
                        binaries: binaries->Ok_0,
                        inference_capable: flag_at(object, "inference_capable"@),
                        discovery: discovery->Ok_0,
                    },
                )
            }
        },
    }
}

/// The JSON form of the message.
pub fn provider_profile_to_json(value: &ProviderProfile) -> (r: Json)
    ensures
        r.deep_view() == JsonView::Object(provider_profile_members(value.deep_view())),
{
    let mut members: Vec<(String, Json)> = Vec::new();
    assert(members.deep_view() =~= Seq::empty());
    push_member(&mut members, "binaries", messages_to_json(&value.binaries));
    push_member(&mut members, "category", i64_to_json(value.category as i64));
    push_member(&mut members, "credentials", messages_to_json(&value.credentials));
    push_member(&mut members, "description", text_to_json(value.description.as_str()));
    push_member(&mut members, "discovery", message_to_json(&value.discovery));
    push_member(&mut members, "display_name", text_to_json(value.display_name.as_str()));
    push_member(&mut members, "endpoints", messages_to_json(&value.endpoints));
    push_member(&mut members, "id", text_to_json(value.id.as_str()));
    push_member(&mut members, "inference_capable", bool_to_json(value.inference_capable));
    assert(members.deep_view() =~= provider_profile_members(value.deep_view()));
    object_to_json(members)
}

impl Form for ProviderProfile {
    open spec fn json_form(content: ProviderProfileView) -> JsonView {
        JsonView::Object(provider_profile_members(content))
    }

    fn to_json(&self) -> (r: Json) {
        provider_profile_to_json(self)
    }
}

/// The message that a JSON value is the form of.
pub fn provider_profile_from_json(value: &Json) -> (r: Result<ProviderProfile, Status>)
    ensures
        shown(r) == provider_profile_read(value.deep_view()),
{
    let object = match expect_object(value, "ProviderProfile") {
        Ok(object) => object,
        Err(error) => {
            return Err(error);
        },
    };
    let id = string_field(object, "id");
    let display_name = string_field(object, "display_name");
    let description = string_field(object, "description");
    let category: i32 = match i32_field(object, "category") {
        Ok(category) => category,
        Err(error) => {
            return Err(error);
        },
    };
    let credentials = match messages_field::<ProviderProfileCredential>(object, "credentials") {
        Ok(credentials) => credentials,
        Err(error) => {
            return Err(error);
        },
    };
    let endpoints = match messages_field::<NetworkEndpoint>(object, "endpoints") {
        Ok(endpoints) => endpoints,
        Err(error) => {
            return Err(error);
        },
    };
    let binaries = match messages_field::<NetworkBinary>(object, "binaries") {
        Ok(binaries) => binaries,
        Err(error) => {
            return Err(error);
        },
    };
    let inference_capable = bool_field(object, "inference_capable");
    let discovery = match message_field::<ProviderProfileDiscovery>(object, "discovery") {
        Ok(discovery) => discovery,
        Err(error) => {
            return Err(error);
        },
    };
    Ok(
        ProviderProfile {
            id,
            display_name,
            description,
            category,
            credentials,
            endpoints,
            binaries,
            inference_capable,
            discovery,
        },
    )
}

impl Message for ProviderProfile {
    open spec fn read(json: JsonView) -> Result<ProviderProfileView, StatusView> {
        provider_profile_read(json)
    }

    open spec fn is_readable(content: ProviderProfileView) -> bool {
        &&& all_readable::<ProviderProfileCredential>(content.credentials)
        &&& all_readable::<NetworkEndpoint>(content.endpoints)
        &&& all_readable::<NetworkBinary>(content.binaries)
        &&& optional_is_readable::<ProviderProfileDiscovery>(content.discovery)
    }

    fn from_json(value: &Json) -> (r: Result<ProviderProfile, Status>) {
        provider_profile_from_json(value)
    }

    proof fn law_round_trip(content: ProviderProfileView) {
        reveal_strlit("binaries");
        reveal_strlit("category");
        reveal_strlit("credentials");
        reveal_strlit("description");
        reveal_strlit("discovery");
        reveal_strlit("display_name");
        reveal_strlit("endpoints");
        reveal_strlit("id");
        reveal_strlit("inference_capable");
        let members = provider_profile_members(content);
        lemma_in_order("binaries"@, "category"@, 0);
        lemma_in_order("category"@, "credentials"@, 1);
        lemma_in_order("credentials"@, "description"@, 0);
        lemma_in_order("description"@, "discovery"@, 1);
        lemma_in_order("discovery"@, "display_name"@, 3);
        lemma_in_order("display_name"@, "endpoints"@, 0);
        lemma_in_order("endpoints"@, "id"@, 0);
        lemma_in_order("id"@, "inference_capable"@, 1);
        reveal_with_fuel(ascend, 10);
        lemma_members_are_found(members);
        assert(members[0].0 == "binaries"@);
        assert(members[1].0 == "category"@);
        assert(members[2].0 == "credentials"@);
        assert(members[3].0 == "description"@);
        assert(members[4].0 == "discovery"@);
        assert(members[5].0 == "display_name"@);
        assert(members[6].0 == "endpoints"@);
        assert(members[7].0 == "id"@);
        assert(members[8].0 == "inference_capable"@);
        lemma_messages_read_back::<ProviderProfileCredential>(members, "credentials"@, content.credentials);
        lemma_messages_read_back::<NetworkEndpoint>(members, "endpoints"@, content.endpoints);
        lemma_messages_read_back::<NetworkBinary>(members, "binaries"@, content.binaries);
        lemma_message_read_back::<ProviderProfileDiscovery>(members, "discovery"@, content.discovery);
        assert(provider_profile_read(JsonView::Object(members))->Ok_0 =~= content);
    }
}

/// A profile to import.
#[derive(Debug, PartialEq, Eq)]
pub struct ProviderProfileImportItem {
    pub profile: Option<ProviderProfile>,
    pub source: String,
}

/// The content of the message.
#[verifier::ext_equal]
pub struct ProviderProfileImportItemView {
    pub profile: Option<ProviderProfileView>,
    pub source: Seq<char>,
}

impl DeepView for ProviderProfileImportItem {
    type V = ProviderProfileImportItemView;

    open spec fn deep_view(&self) -> ProviderProfileImportItemView {
        ProviderProfileImportItemView {
            profile: self.profile.deep_view(),
            source: self.source@,
        }
    }
}

/// The members of the JSON form, in order.
pub open spec fn provider_profile_import_item_members(content: ProviderProfileImportItemView) -> Members {
    seq![
        ("profile"@, message_form::<ProviderProfile>(content.profile)),
        ("source"@, JsonView::Text(content.source)),
    ]
}

/// The message that a JSON value is the form of.
pub open spec fn provider_profile_import_item_read(json: JsonView) -> Result<ProviderProfileImportItemView, StatusView> {
    match object_in(json, "ProviderProfileImportItem"@) {
        Err(error) => Err(error),
        Ok(object) => {
            let profile = message_at::<ProviderProfile>(object, "profile"@);
            if profile is Err {
                Err(profile->Err_0)
            } else {
                Ok(
                    ProviderProfileImportItemView {
                        profile: profile->Ok_0,
                        source: text_at(object, "source"@),
                    },
                )
            }
        },
    }
}

/// The JSON form of the message.
pub fn provider_profile_import_item_to_json(value: &ProviderProfileImportItem) -> (r: Json)
    ensures
        r.deep_view() == JsonView::Object(provider_profile_import_item_members(value.deep_view())),
{
    let mut members: Vec<(String, Json)> = Vec::new();
    assert(members.deep_view() =~= Seq::empty());
    push_member(&mut members, "profile", message_to_json(&value.profile));
    push_member(&mut members, "source", text_to_json(value.source.as_str()));
    assert(members.deep_view() =~= provider_profile_import_item_members(value.deep_view()));
    object_to_json(members)
}

impl Form for ProviderProfileImportItem {
    open spec fn json_form(content: ProviderProfileImportItemView) -> JsonView {
        JsonView::Object(provider_profile_import_item_members(content))
    }

    fn to_json(&self) -> (r: Json) {
        provider_profile_import_item_to_json(self)
    }
}

/// The message that a JSON value is the form of.
pub fn provider_profile_import_item_from_json(value: &Json) -> (r: Result<ProviderProfileImportItem, Status>)
    ensures
        shown(r) == provider_profile_import_item_read(value.deep_view()),
{
    let object = match expect_object(value, "ProviderProfileImportItem") {
        Ok(object) => object,
        Err(error) => {
            return Err(error);
        },
    };
    let profile = match message_field::<ProviderProfile>(object, "profile") {
        Ok(profile) => profile,
        Err(error) => {
            return Err(error);
        },
    };
    let source = string_field(object, "source");
    Ok(ProviderProfileImportItem { profile, source })
}

impl Message for ProviderProfileImportItem {
    open spec fn read(json: JsonView) -> Result<ProviderProfileImportItemView, StatusView> {
        provider_profile_import_item_read(json)
    }

    open spec fn is_readable(content: ProviderProfileImportItemView) -> bool {
        optional_is_readable::<ProviderProfile>(content.profile)
    }

    fn from_json(value: &Json) -> (r: Result<ProviderProfileImportItem, Status>) {
        provider_profile_import_item_from_json(value)
    }

    proof fn law_round_trip(content: ProviderProfileImportItemView) {
        reveal_strlit("profile");
        reveal_strlit("source");
        let members = provider_profile_import_item_members(content);
        lemma_in_order("profile"@, "source"@, 0);
        reveal_with_fuel(ascend, 3);
        lemma_members_are_found(members);
        assert(members[0].0 == "profile"@);
        assert(members[1].0 == "source"@);
        lemma_message_read_back::<ProviderProfile>(members, "profile"@, content.profile);
        assert(provider_profile_import_item_read(JsonView::Object(members))->Ok_0 =~= content);
    }
}

/// A request to import profiles.
#[derive(Debug, PartialEq, Eq)]
pub struct ImportProviderProfilesRequest {
    pub profiles: Vec<ProviderProfileImportItem>,
}

/// The content of the message.
#[verifier::ext_equal]
pub struct ImportProviderProfilesRequestView {
    pub profiles: Seq<ProviderProfileImportItemView>,
}

impl DeepView for ImportProviderProfilesRequest {
    type V = ImportProviderProfilesRequestView;

    open spec fn deep_view(&self) -> ImportProviderProfilesRequestView {
        ImportProviderProfilesRequestView {
            profiles: self.profiles.deep_view(),
        }
    }
}

/// The members of the JSON form, in order.
pub open spec fn import_provider_profiles_request_members(content: ImportProviderProfilesRequestView) -> Members {
    seq![
        ("profiles"@, messages_form::<ProviderProfileImportItem>(content.profiles)),
    ]
}

/// The message that a JSON value is the form of.
pub open spec fn import_provider_profiles_request_read(json: JsonView) -> Result<ImportProviderProfilesRequestView, StatusView> {
    match object_in(json, "ImportProviderProfilesRequest"@) {
        Err(error) => Err(error),
        Ok(object) => {
            let profiles = messages_at::<ProviderProfileImportItem>(object, "profiles"@);
            if profiles is Err {
                Err(profiles->Err_0)
            } else {
                Ok(
                    ImportProviderProfilesRequestView {
                        profiles: profiles->Ok_0,
                    },
                )
            }
        },
    }
}

/// The JSON form of the message.
pub fn import_provider_profiles_request_to_json(value: &ImportProviderProfilesRequest) -> (r: Json)
    ensures
        r.deep_view() == JsonView::Object(import_provider_profiles_request_members(value.deep_view())),
{
    let mut members: Vec<(String, Json)> = Vec::new();
    assert(members.deep_view() =~= Seq::empty());
    push_member(&mut members, "profiles", messages_to_json(&value.profiles));
    assert(members.deep_view() =~= import_provider_profiles_request_members(value.deep_view()));
    object_to_json(members)
}

impl Form for ImportProviderProfilesRequest {
    open spec fn json_form(content: ImportProviderProfilesRequestView) -> JsonView {
        JsonView::Object(import_provider_profiles_request_members(content))
    }

    fn to_json(&self) -> (r: Json) {
        import_provider_profiles_request_to_json(self)
    }
}

/// The message that a JSON value is the form of.
pub fn import_provider_profiles_request_from_json(value: &Json) -> (r: Result<ImportProviderProfilesRequest, Status>)
    ensures
        shown(r) == import_provider_profiles_request_read(value.deep_view()),
{
    let object = match expect_object(value, "ImportProviderProfilesRequest") {
        Ok(object) => object,
        Err(error) => {
            return Err(error);
        },
    };
    let profiles = match messages_field::<ProviderProfileImportItem>(object, "profiles") {
        Ok(profiles) => profiles,
        Err(error) => {
            return Err(error);
        },
    };
    Ok(ImportProviderProfilesRequest { profiles })
}

impl Message for ImportProviderProfilesRequest {
    open spec fn read(json: JsonView) -> Result<ImportProviderProfilesRequestView, StatusView> {
        import_provider_profiles_request_read(json)
    }

    open spec fn is_readable(content: ImportProviderProfilesRequestView) -> bool {
        all_readable::<ProviderProfileImportItem>(content.profiles)
    }

    fn from_json(value: &Json) -> (r: Result<ImportProviderProfilesRequest, Status>) {
        import_provider_profiles_request_from_json(value)
    }

    proof fn law_round_trip(content: ImportProviderProfilesRequestView) {
        reveal_strlit("profiles");
        let members = import_provider_profiles_request_members(content);
        let names = ordered::keys(members);
        lemma_members_are_found(members);
        assert(members[0].0 == "profiles"@);
        lemma_messages_read_back::<ProviderProfileImportItem>(members, "profiles"@, content.profiles);
        assert(import_provider_profiles_request_read(JsonView::Object(members))->Ok_0 =~= content);
    }
}

/// A provider, with its credentials.
#[derive(Debug, PartialEq, Eq)]
pub struct Provider {
    pub metadata: Option<ObjectMeta>,
    pub provider_type: String,
    pub credentials: Vec<(String, String)>,
    pub config: Vec<(String, String)>,
    pub credential_expires_at_ms: Vec<(String, i64)>,
}

/// The content of the message.
#[verifier::ext_equal]
pub struct ProviderView {
    pub metadata: Option<ObjectMetaView>,
    pub provider_type: Seq<char>,
    pub credentials: TextMap,
    pub config: TextMap,
    pub credential_expires_at_ms: Seq<(Seq<char>, i64)>,
}

impl DeepView for Provider {
    type V = ProviderView;

    open spec fn deep_view(&self) -> ProviderView {
        ProviderView {
            metadata: self.metadata.deep_view(),
            provider_type: self.provider_type@,
            credentials: self.credentials.deep_view(),
            config: self.config.deep_view(),
            credential_expires_at_ms: self.credential_expires_at_ms.deep_view(),
        }
    }
}

/// The members of the JSON form, in order.
pub open spec fn provider_members(content: ProviderView) -> Members {
    seq![
        ("config"@, text_map_form(content.config)),
        ("credential_expires_at_ms"@, i64_map_form(content.credential_expires_at_ms)),
        ("credentials"@, text_map_form(content.credentials)),
        ("metadata"@, message_form::<ObjectMeta>(content.metadata)),
        ("type"@, JsonView::Text(content.provider_type)),
    ]
}

/// The message that a JSON value is the form of.
pub open spec fn provider_read(json: JsonView) -> Result<ProviderView, StatusView> {
    match object_in(json, "Provider"@) {
        Err(error) => Err(error),
        Ok(object) => {
            let metadata = message_at::<ObjectMeta>(object, "metadata"@);
            let credential_expires_at_ms = i64_map_at(object, "credential_expires_at_ms"@);
            if metadata is Err {
                Err(metadata->Err_0)
            } else if credential_expires_at_ms is Err {
                Err(credential_expires_at_ms->Err_0)
            } else {
                Ok(
                    ProviderView {
                        metadata: metadata->Ok_0,
                        provider_type: text_at(object, "type"@),
                        credentials: text_map_at(object, "credentials"@),
                        config: text_map_at(object, "config"@),
                        credential_expires_at_ms: credential_expires_at_ms->Ok_0,
                    },
                )
            }
        },
    }
}

/// A map with every value replaced.
pub open spec fn redacted_map(map: TextMap) -> TextMap {
    Seq::new(map.len(), |i: int| (map[i].0, "REDACTED"@))
}

/// A provider whose credentials are not shown.
pub open spec fn redacted(content: ProviderView) -> ProviderView {
    ProviderView { credentials: redacted_map(content.credentials), ..content }
}

/// A provider as it is shown.
pub open spec fn shown_provider(content: ProviderView, redact_credentials: bool) -> ProviderView {
    if redact_credentials {
        redacted(content)
    } else {
        content
    }
}

/// A provider as it is shown, where there is one.
pub open spec fn shown_optional(
    content: Option<ProviderView>,
    redact_credentials: bool,
) -> Option<ProviderView> {
    match content {
        Some(provider) => Some(shown_provider(provider, redact_credentials)),
        None => None,
    }
}

fn credentials_to_json(credentials: &Vec<(String, String)>, redact_credentials: bool) -> (r: Json)
    ensures
        r.deep_view() == text_map_form(
            if redact_credentials {
                redacted_map(credentials.deep_view())
            } else {
                credentials.deep_view()
            },
        ),
{
    if !redact_credentials {
        return text_map_to_json(credentials);
    }
    let ghost list = credentials.deep_view();
    let mut hidden: Vec<(String, String)> = Vec::new();
    let mut i: usize = 0;
    while i < credentials.len()
        invariant
            i <= credentials.len(),
            hidden.len() == i,
            list == credentials.deep_view(),
            forall|j: int|
                0 <= j < i ==> #[trigger] hidden.deep_view()[j] == (list[j].0, "REDACTED"@),
        decreases credentials.len() - i,
    {
        let ghost before = hidden.deep_view();
        assert(list[i as int] == (credentials@[i as int].0@, credentials@[i as int].1@));
        hidden.push((credentials[i].0.clone(), "REDACTED".to_owned()));
        proof {
            assert forall|j: int| 0 <= j < i + 1 implies #[trigger] hidden.deep_view()[j] == (
                list[j].0,
                "REDACTED"@,
            ) by {
                if j < i {
                    assert(hidden.deep_view()[j] == before[j]);
                }
            }
        }
        i += 1;
    }
    assert(hidden.deep_view() =~= redacted_map(list));
    text_map_to_json(&hidden)
}

/// The JSON form of the message, with or without the values of its credentials.
pub fn provider_to_json(value: &Provider, redact_credentials: bool) -> (r: Json)
    ensures
        r.deep_view() == JsonView::Object(
            provider_members(shown_provider(value.deep_view(), redact_credentials)),
        ),
{
    let mut members: Vec<(String, Json)> = Vec::new();
    assert(members.deep_view() =~= Seq::empty());
    push_member(&mut members, "config", text_map_to_json(&value.config));
    push_member(
        &mut members,
        "credential_expires_at_ms",
        i64_map_to_json(&value.credential_expires_at_ms),
    );
    push_member(
        &mut members,
        "credentials",
        credentials_to_json(&value.credentials, redact_credentials),
    );
    push_member(&mut members, "metadata", message_to_json(&value.metadata));
    push_member(&mut members, "type", text_to_json(value.provider_type.as_str()));
    assert(members.deep_view() =~= provider_members(
        shown_provider(value.deep_view(), redact_credentials),
    ));
    object_to_json(members)
}

impl Form for Provider {
    open spec fn json_form(content: ProviderView) -> JsonView {
        JsonView::Object(provider_members(content))
    }

    fn to_json(&self) -> (r: Json) {
        provider_to_json(self, false)
    }
}

/// The message that a JSON value is the form of.
pub fn provider_from_json(value: &Json) -> (r: Result<Provider, Status>)
    ensures
        shown(r) == provider_read(value.deep_view()),
{
    let object = match expect_object(value, "Provider") {
        Ok(object) => object,
        Err(error) => {
            return Err(error);
        },
    };
    let metadata = match message_field::<ObjectMeta>(object, "metadata") {
        Ok(metadata) => metadata,
        Err(error) => {
            return Err(error);
        },
    };
    let provider_type = string_field(object, "type");
    let credentials = string_map_field(object, "credentials");
    let config = string_map_field(object, "config");
    let credential_expires_at_ms = match i64_map_field(object, "credential_expires_at_ms") {
        Ok(credential_expires_at_ms) => credential_expires_at_ms,
        Err(error) => {
            return Err(error);
        },
    };
    Ok(Provider { metadata, provider_type, credentials, config, credential_expires_at_ms })
}

impl Message for Provider {
    open spec fn read(json: JsonView) -> Result<ProviderView, StatusView> {
        provider_read(json)
    }

    open spec fn is_readable(content: ProviderView) -> bool {
        &&& optional_is_readable::<ObjectMeta>(content.metadata)
        &&& ordered::is_map(content.credentials)
        &&& ordered::is_map(content.config)
        &&& ordered::is_map(content.credential_expires_at_ms)
    }

    fn from_json(value: &Json) -> (r: Result<Provider, Status>) {
        provider_from_json(value)
    }

    proof fn law_round_trip(content: ProviderView) {
        reveal_strlit("config");
        reveal_strlit("credential_expires_at_ms");
        reveal_strlit("credentials");
        reveal_strlit("metadata");
        reveal_strlit("type");
        let members = provider_members(content);
        lemma_in_order("config"@, "credential_expires_at_ms"@, 1);
        lemma_in_order("credential_expires_at_ms"@, "credentials"@, 10);
        lemma_in_order("credentials"@, "metadata"@, 0);
        lemma_in_order("metadata"@, "type"@, 0);
        reveal_with_fuel(ascend, 6);
        lemma_members_are_found(members);
        assert(members[0].0 == "config"@);
        assert(members[1].0 == "credential_expires_at_ms"@);
        assert(members[2].0 == "credentials"@);
        assert(members[3].0 == "metadata"@);
        assert(members[4].0 == "type"@);
        lemma_message_read_back::<ObjectMeta>(members, "metadata"@, content.metadata);
        lemma_text_map_read_back(members, "credentials"@, content.credentials);
        lemma_text_map_read_back(members, "config"@, content.config);
        lemma_i64_map_read_back(members, "credential_expires_at_ms"@, content.credential_expires_at_ms);
        assert(provider_read(JsonView::Object(members))->Ok_0 =~= content);
    }
}

/// A request for a new provider.
#[derive(Debug, PartialEq, Eq)]
pub struct CreateProviderRequest {
    pub provider: Option<Provider>,
}

/// The content of the message.
#[verifier::ext_equal]
pub struct CreateProviderRequestView {
    pub provider: Option<ProviderView>,
}

impl DeepView for CreateProviderRequest {
    type V = CreateProviderRequestView;

    open spec fn deep_view(&self) -> CreateProviderRequestView {
        CreateProviderRequestView {
            provider: self.provider.deep_view(),
        }
    }
}

/// The members of the JSON form, in order.
pub open spec fn create_provider_request_members(content: CreateProviderRequestView) -> Members {
    seq![
        ("provider"@, message_form::<Provider>(content.provider)),
    ]
}

/// The message that a JSON value is the form of.
pub open spec fn create_provider_request_read(json: JsonView) -> Result<CreateProviderRequestView, StatusView> {
    match object_in(json, "CreateProviderRequest"@) {
        Err(error) => Err(error),
        Ok(object) => {
            let provider = message_at::<Provider>(object, "provider"@);
            if provider is Err {
                Err(provider->Err_0)
            } else {
                Ok(
                    CreateProviderRequestView {
                        provider: provider->Ok_0,
                    },
                )
            }
        },
    }
}

fn optional_provider_to_json(value: &Option<Provider>, redact_credentials: bool) -> (r: Json)
    ensures
        r.deep_view() == message_form::<Provider>(
            shown_optional(value.deep_view(), redact_credentials),
        ),
{
    match value {
        Some(provider) => provider_to_json(provider, redact_credentials),
        None => Json::Null,
    }
}

/// The JSON form of the message, with or without the values of credentials.
pub fn create_provider_request_to_json(
    value: &CreateProviderRequest,
    redact_credentials: bool,
) -> (r: Json)
    ensures
        r.deep_view() == JsonView::Object(
            create_provider_request_members(
                CreateProviderRequestView {
                    provider: shown_optional(value.deep_view().provider, redact_credentials),
                },
            ),
        ),
{
    let mut members: Vec<(String, Json)> = Vec::new();
    assert(members.deep_view() =~= Seq::empty());
    push_member(
        &mut members,
        "provider",
        optional_provider_to_json(&value.provider, redact_credentials),
    );
    assert(members.deep_view() =~= create_provider_request_members(
        CreateProviderRequestView {
            provider: shown_optional(value.deep_view().provider, redact_credentials),
        },
    ));
    object_to_json(members)
}

impl Form for CreateProviderRequest {
    open spec fn json_form(content: CreateProviderRequestView) -> JsonView {
        JsonView::Object(create_provider_request_members(content))
    }

    fn to_json(&self) -> (r: Json) {
        create_provider_request_to_json(self, false)
    }
}

/// The message that a JSON value is the form of.
pub fn create_provider_request_from_json(value: &Json) -> (r: Result<CreateProviderRequest, Status>)
    ensures
        shown(r) == create_provider_request_read(value.deep_view()),
{
    let object = match expect_object(value, "CreateProviderRequest") {
        Ok(object) => object,
        Err(error) => {
            return Err(error);
        },
    };
    let provider = match message_field::<Provider>(object, "provider") {
        Ok(provider) => provider,
        Err(error) => {
            return Err(error);
        },
    };
    Ok(CreateProviderRequest { provider })
}

impl Message for CreateProviderRequest {
    open spec fn read(json: JsonView) -> Result<CreateProviderRequestView, StatusView> {
        create_provider_request_read(json)
    }

    open spec fn is_readable(content: CreateProviderRequestView) -> bool {
        optional_is_readable::<Provider>(content.provider)
    }

    fn from_json(value: &Json) -> (r: Result<CreateProviderRequest, Status>) {
        create_provider_request_from_json(value)
    }

    proof fn law_round_trip(content: CreateProviderRequestView) {
        reveal_strlit("provider");
        let members = create_provider_request_members(content);
        let names = ordered::keys(members);
        lemma_members_are_found(members);
        assert(members[0].0 == "provider"@);
        lemma_message_read_back::<Provider>(members, "provider"@, content.provider);
        assert(create_provider_request_read(JsonView::Object(members))->Ok_0 =~= content);
    }
}

/// A request to change a provider.
#[derive(Debug, PartialEq, Eq)]
pub struct UpdateProviderRequest {
    pub provider: Option<Provider>,
    pub credential_expires_at_ms: Vec<(String, i64)>,
}

/// The content of the message.
#[verifier::ext_equal]
pub struct UpdateProviderRequestView {
    pub provider: Option<ProviderView>,
    pub credential_expires_at_ms: Seq<(Seq<char>, i64)>,
}

impl DeepView for UpdateProviderRequest {
    type V = UpdateProviderRequestView;

    open spec fn deep_view(&self) -> UpdateProviderRequestView {
        UpdateProviderRequestView {
            provider: self.provider.deep_view(),
            credential_expires_at_ms: self.credential_expires_at_ms.deep_view(),
        }
    }
}

/// The members of the JSON form, in order.
pub open spec fn update_provider_request_members(content: UpdateProviderRequestView) -> Members {
    seq![
        ("credential_expires_at_ms"@, i64_map_form(content.credential_expires_at_ms)),
        ("provider"@, message_form::<Provider>(content.provider)),
    ]
}

/// The message that a JSON value is the form of.
pub open spec fn update_provider_request_read(json: JsonView) -> Result<UpdateProviderRequestView, StatusView> {
    match object_in(json, "UpdateProviderRequest"@) {
        Err(error) => Err(error),
        Ok(object) => {
            let provider = message_at::<Provider>(object, "provider"@);
            let credential_expires_at_ms = i64_map_at(object, "credential_expires_at_ms"@);
            if provider is Err {
                Err(provider->Err_0)
            } else if credential_expires_at_ms is Err {
                Err(credential_expires_at_ms->Err_0)
            } else {
                Ok(
                    UpdateProviderRequestView {
                        provider: provider->Ok_0,
                        credential_expires_at_ms: credential_expires_at_ms->Ok_0,
                    },
                )
            }
        },
    }
}

/// The JSON form of the message, with or without the values of credentials.
pub fn update_provider_request_to_json(
    value: &UpdateProviderRequest,
    redact_credentials: bool,
) -> (r: Json)
    ensures
        r.deep_view() == JsonView::Object(
            update_provider_request_members(
                UpdateProviderRequestView {
                    provider: shown_optional(value.deep_view().provider, redact_credentials),
                    ..value.deep_view()
                },
            ),
        ),
{
    let mut members: Vec<(String, Json)> = Vec::new();
    assert(members.deep_view() =~= Seq::empty());
    push_member(
        &mut members,
        "credential_expires_at_ms",
        i64_map_to_json(&value.credential_expires_at_ms),
    );
    push_member(
        &mut members,
        "provider",
        optional_provider_to_json(&value.provider, redact_credentials),
    );
    assert(members.deep_view() =~= update_provider_request_members(
        UpdateProviderRequestView {
            provider: shown_optional(value.deep_view().provider, redact_credentials),
            ..value.deep_view()
        },
    ));
    object_to_json(members)
}

impl Form for UpdateProviderRequest {
    open spec fn json_form(content: UpdateProviderRequestView) -> JsonView {
        JsonView::Object(update_provider_request_members(content))
    }

    fn to_json(&self) -> (r: Json) {
        update_provider_request_to_json(self, false)
    }
}

/// The message that a JSON value is the form of.
pub fn update_provider_request_from_json(value: &Json) -> (r: Result<UpdateProviderRequest, Status>)
    ensures
        shown(r) == update_provider_request_read(value.deep_view()),
{
    let object = match expect_object(value, "UpdateProviderRequest") {
        Ok(object) => object,
        Err(error) => {
            return Err(error);
        },
    };
    let provider = match message_field::<Provider>(object, "provider") {
        Ok(provider) => provider,
        Err(error) => {
            return Err(error);
        },
    };
    let credential_expires_at_ms = match i64_map_field(object, "credential_expires_at_ms") {
        Ok(credential_expires_at_ms) => credential_expires_at_ms,
        Err(error) => {
            return Err(error);
        },
    };
    Ok(UpdateProviderRequest { provider, credential_expires_at_ms })
}

impl Message for UpdateProviderRequest {
    open spec fn read(json: JsonView) -> Result<UpdateProviderRequestView, StatusView> {
        update_provider_request_read(json)
    }

    open spec fn is_readable(content: UpdateProviderRequestView) -> bool {
        &&& optional_is_readable::<Provider>(content.provider)
        &&& ordered::is_map(content.credential_expires_at_ms)
    }

    fn from_json(value: &Json) -> (r: Result<UpdateProviderRequest, Status>) {
        update_provider_request_from_json(value)
    }

    proof fn law_round_trip(content: UpdateProviderRequestView) {
        reveal_strlit("credential_expires_at_ms");
        reveal_strlit("provider");
        let members = update_provider_request_members(content);
        lemma_in_order("credential_expires_at_ms"@, "provider"@, 0);
        reveal_with_fuel(ascend, 3);
        lemma_members_are_found(members);
        assert(members[0].0 == "credential_expires_at_ms"@);
        assert(members[1].0 == "provider"@);
        lemma_message_read_back::<Provider>(members, "provider"@, content.provider);
        lemma_i64_map_read_back(members, "credential_expires_at_ms"@, content.credential_expires_at_ms);
        assert(update_provider_request_read(JsonView::Object(members))->Ok_0 =~= content);
    }
}

/// Where credentials are not shown, the JSON form tells nothing of their values:
/// providers that differ only in them have the same form.
pub proof fn law_redacted_form_hides_credentials(a: ProviderView, b: ProviderView)
    requires
        a == (ProviderView { credentials: a.credentials, ..b }),
        ordered::keys(a.credentials) == ordered::keys(b.credentials),
    ensures
        Provider::json_form(redacted(a)) == Provider::json_form(redacted(b)),
{
    let names = ordered::keys(a.credentials);
    assert(names.len() == a.credentials.len() && names.len() == b.credentials.len());
    assert forall|i: int| 0 <= i < names.len() implies redacted_map(a.credentials)[i]
        == redacted_map(b.credentials)[i] by {
        assert(names[i] == a.credentials[i].0);
        assert(ordered::keys(b.credentials)[i] == b.credentials[i].0);
    }
    assert(redacted_map(a.credentials) =~= redacted_map(b.credentials));
}

} // verus!
