//! Sandboxes, and requests about them, as JSON.

use crate::adapters::fields::{
    all_readable, ascend, bool_field, bool_to_json, expect_object, flag_at, i32_at, i32_field,
    i64_at, i64_field, i64_form, i64_to_json, lemma_in_order, lemma_members_are_found,
    lemma_message_read_back, lemma_messages_read_back, lemma_struct_read_back,
    lemma_text_map_read_back, lemma_texts_read_back, message_at, message_field, message_form,
    message_to_json, messages_at, messages_field, messages_form, messages_to_json, object_in,
    object_to_json, optional_bool_field, optional_bool_to_json, optional_flag_at,
    optional_flag_form, optional_is_readable, optional_struct_to_json, push_member,
    string_array_field, string_field, string_map_field, struct_at, struct_field, struct_form,
    struct_is_readable, text_at, text_map_at, text_map_form, text_map_to_json, text_to_json,
    texts_at, texts_form, texts_to_json, u32_at, u32_field, u64_at, u64_field, u64_form,
    u64_to_json, Form, Members, Message, TextMap,
};
use crate::adapters::policy::{SandboxPolicy, SandboxPolicyView};
use crate::json::{Json, JsonView};
use crate::ordered;
use crate::outcome::shown;
use crate::proto_struct::{FieldsView, Struct};
use crate::status::{Status, StatusView};
use vstd::prelude::*;

verus! {

/// What is kept about an object.
#[derive(Debug, PartialEq, Eq)]
pub struct ObjectMeta {
    pub id: String,
    pub name: String,
    pub created_at_ms: i64,
    pub labels: Vec<(String, String)>,
    pub resource_version: u64,
}

/// The content of the message.
#[verifier::ext_equal]
pub struct ObjectMetaView {
    pub id: Seq<char>,
    pub name: Seq<char>,
    pub created_at_ms: i64,
    pub labels: TextMap,
    pub resource_version: u64,
}

impl DeepView for ObjectMeta {
    type V = ObjectMetaView;

    open spec fn deep_view(&self) -> ObjectMetaView {
        ObjectMetaView {
            id: self.id@,
            name: self.name@,
            created_at_ms: self.created_at_ms,
            labels: self.labels.deep_view(),
            resource_version: self.resource_version,
        }
    }
}

/// The members of the JSON form, in order.
pub open spec fn object_meta_members(content: ObjectMetaView) -> Members {
    seq![
        ("created_at_ms"@, i64_form(content.created_at_ms)),
        ("id"@, JsonView::Text(content.id)),
        ("labels"@, text_map_form(content.labels)),
        ("name"@, JsonView::Text(content.name)),
        ("resource_version"@, u64_form(content.resource_version)),
    ]
}

/// The message that a JSON value is the form of.
pub open spec fn object_meta_read(json: JsonView) -> Result<ObjectMetaView, StatusView> {
    match object_in(json, "ObjectMeta"@) {
        Err(error) => Err(error),
        Ok(object) => {
            let created_at_ms = i64_at(object, "created_at_ms"@);
            let resource_version = u64_at(object, "resource_version"@);
            if created_at_ms is Err {
                Err(created_at_ms->Err_0)
            } else if resource_version is Err {
                Err(resource_version->Err_0)
            } else {
                Ok(
                    ObjectMetaView {
                        id: text_at(object, "id"@),
                        name: text_at(object, "name"@),
                        created_at_ms: created_at_ms->Ok_0,
                        labels: text_map_at(object, "labels"@),
                        resource_version: resource_version->Ok_0,
                    },
                )
            }
        },
    }
}

/// The JSON form of the message.
pub fn object_meta_to_json(value: &ObjectMeta) -> (r: Json)
    ensures
        r.deep_view() == JsonView::Object(object_meta_members(value.deep_view())),
{
    let mut members: Vec<(String, Json)> = Vec::new();
    assert(members.deep_view() =~= Seq::empty());
    push_member(&mut members, "created_at_ms", i64_to_json(value.created_at_ms));
    push_member(&mut members, "id", text_to_json(value.id.as_str()));
    push_member(&mut members, "labels", text_map_to_json(&value.labels));
    push_member(&mut members, "name", text_to_json(value.name.as_str()));
    push_member(&mut members, "resource_version", u64_to_json(value.resource_version));
    assert(members.deep_view() =~= object_meta_members(value.deep_view()));
    object_to_json(members)
}

impl Form for ObjectMeta {
    open spec fn json_form(content: ObjectMetaView) -> JsonView {
        JsonView::Object(object_meta_members(content))
    }

    fn to_json(&self) -> (r: Json) {
        object_meta_to_json(self)
    }
}

/// The message that a JSON value is the form of.
pub fn object_meta_from_json(value: &Json) -> (r: Result<ObjectMeta, Status>)
    ensures
        shown(r) == object_meta_read(value.deep_view()),
{
    let object = match expect_object(value, "ObjectMeta") {
        Ok(object) => object,
        Err(error) => {
            return Err(error);
        },
    };
    let id = string_field(object, "id");
    let name = string_field(object, "name");
    let created_at_ms: i64 = match i64_field(object, "created_at_ms") {
        Ok(created_at_ms) => created_at_ms,
        Err(error) => {
            return Err(error);
        },
    };
    let labels = string_map_field(object, "labels");
    let resource_version: u64 = match u64_field(object, "resource_version") {
        Ok(resource_version) => resource_version,
        Err(error) => {
            return Err(error);
        },
    };
    Ok(ObjectMeta { id, name, created_at_ms, labels, resource_version })
}

impl Message for ObjectMeta {
    open spec fn read(json: JsonView) -> Result<ObjectMetaView, StatusView> {
        object_meta_read(json)
    }

    open spec fn is_readable(content: ObjectMetaView) -> bool {
        ordered::is_map(content.labels)
    }

    fn from_json(value: &Json) -> (r: Result<ObjectMeta, Status>) {
        object_meta_from_json(value)
    }

    proof fn law_round_trip(content: ObjectMetaView) {
        reveal_strlit("created_at_ms");
        reveal_strlit("id");
        reveal_strlit("labels");
        reveal_strlit("name");
        reveal_strlit("resource_version");
        let members = object_meta_members(content);
        lemma_in_order("created_at_ms"@, "id"@, 0);
        lemma_in_order("id"@, "labels"@, 0);
        lemma_in_order("labels"@, "name"@, 0);
        lemma_in_order("name"@, "resource_version"@, 0);
        reveal_with_fuel(ascend, 6);
        lemma_members_are_found(members);
        assert(members[0].0 == "created_at_ms"@);
        assert(members[1].0 == "id"@);
        assert(members[2].0 == "labels"@);
        assert(members[3].0 == "name"@);
        assert(members[4].0 == "resource_version"@);
        lemma_text_map_read_back(members, "labels"@, content.labels);
        assert(object_meta_read(JsonView::Object(members))->Ok_0 =~= content);
    }
}

/// What a sandbox is made from.
#[derive(Debug, PartialEq, Eq)]
pub struct SandboxTemplate {
    pub image: String,
    pub runtime_class_name: String,
    pub agent_socket: String,
    pub labels: Vec<(String, String)>,
    pub annotations: Vec<(String, String)>,
    pub environment: Vec<(String, String)>,
    pub resources: Option<Struct>,
    pub volume_claim_templates: Option<Struct>,
    pub user_namespaces: Option<bool>,
    pub driver_config: Option<Struct>,
}

/// The content of the message.
#[verifier::ext_equal]
pub struct SandboxTemplateView {
    pub image: Seq<char>,
    pub runtime_class_name: Seq<char>,
    pub agent_socket: Seq<char>,
    pub labels: TextMap,
    pub annotations: TextMap,
    pub environment: TextMap,
    pub resources: Option<FieldsView>,
    pub volume_claim_templates: Option<FieldsView>,
    pub user_namespaces: Option<bool>,
    pub driver_config: Option<FieldsView>,
}

impl DeepView for SandboxTemplate {
    type V = SandboxTemplateView;

    open spec fn deep_view(&self) -> SandboxTemplateView {
        SandboxTemplateView {
            image: self.image@,
            runtime_class_name: self.runtime_class_name@,
            agent_socket: self.agent_socket@,
            labels: self.labels.deep_view(),
            annotations: self.annotations.deep_view(),
            environment: self.environment.deep_view(),
            resources: self.resources.deep_view(),
            volume_claim_templates: self.volume_claim_templates.deep_view(),
            user_namespaces: self.user_namespaces,
            driver_config: self.driver_config.deep_view(),
        }
    }
}

/// The members of the JSON form, in order.
pub open spec fn sandbox_template_members(content: SandboxTemplateView) -> Members {
    seq![
        ("agent_socket"@, JsonView::Text(content.agent_socket)),
        ("annotations"@, text_map_form(content.annotations)),
        ("driver_config"@, struct_form(content.driver_config)),
        ("environment"@, text_map_form(content.environment)),
        ("image"@, JsonView::Text(content.image)),
        ("labels"@, text_map_form(content.labels)),
        ("resources"@, struct_form(content.resources)),
        ("runtime_class_name"@, JsonView::Text(content.runtime_class_name)),
        ("user_namespaces"@, optional_flag_form(content.user_namespaces)),
        ("volume_claim_templates"@, struct_form(content.volume_claim_templates)),
    ]
}

/// The message that a JSON value is the form of.
pub open spec fn sandbox_template_read(json: JsonView) -> Result<SandboxTemplateView, StatusView> {
    match object_in(json, "SandboxTemplate"@) {
        Err(error) => Err(error),
        Ok(object) => {
            let resources = struct_at(object, "resources"@);
            let volume_claim_templates = struct_at(object, "volume_claim_templates"@);
            let user_namespaces = optional_flag_at(object, "user_namespaces"@);
            let driver_config = struct_at(object, "driver_config"@);
            if resources is Err {
                Err(resources->Err_0)
            } else if volume_claim_templates is Err {
                Err(volume_claim_templates->Err_0)
            } else if user_namespaces is Err {
                Err(user_namespaces->Err_0)
            } else if driver_config is Err {
                Err(driver_config->Err_0)
            } else {
                Ok(
                    SandboxTemplateView {
                        image: text_at(object, "image"@),
                        runtime_class_name: text_at(object, "runtime_class_name"@),
                        agent_socket: text_at(object, "agent_socket"@),
                        labels: text_map_at(object, "labels"@),
                        annotations: text_map_at(object, "annotations"@),
                        environment: text_map_at(object, "environment"@),
                        resources: resources->Ok_0,
                        volume_claim_templates: volume_claim_templates->Ok_0,
                        user_namespaces: user_namespaces->Ok_0,
                        driver_config: driver_config->Ok_0,
                    },
                )
            }
        },
    }
}

/// The JSON form of the message.
pub fn sandbox_template_to_json(value: &SandboxTemplate) -> (r: Json)
    ensures
        r.deep_view() == JsonView::Object(sandbox_template_members(value.deep_view())),
{
    let mut members: Vec<(String, Json)> = Vec::new();
    assert(members.deep_view() =~= Seq::empty());
    push_member(&mut members, "agent_socket", text_to_json(value.agent_socket.as_str()));
    push_member(&mut members, "annotations", text_map_to_json(&value.annotations));
    push_member(&mut members, "driver_config", optional_struct_to_json(&value.driver_config));
    push_member(&mut members, "environment", text_map_to_json(&value.environment));
    push_member(&mut members, "image", text_to_json(value.image.as_str()));
    push_member(&mut members, "labels", text_map_to_json(&value.labels));
    push_member(&mut members, "resources", optional_struct_to_json(&value.resources));
    push_member(
        &mut members,
        "runtime_class_name",
        text_to_json(value.runtime_class_name.as_str()),
    );
    push_member(&mut members, "user_namespaces", optional_bool_to_json(value.user_namespaces));
    push_member(
        &mut members,
        "volume_claim_templates",
        optional_struct_to_json(&value.volume_claim_templates),
    );
    assert(members.deep_view() =~= sandbox_template_members(value.deep_view()));
    object_to_json(members)
}

impl Form for SandboxTemplate {
    open spec fn json_form(content: SandboxTemplateView) -> JsonView {
        JsonView::Object(sandbox_template_members(content))
    }

    fn to_json(&self) -> (r: Json) {
        sandbox_template_to_json(self)
    }
}

/// The message that a JSON value is the form of.
pub fn sandbox_template_from_json(value: &Json) -> (r: Result<SandboxTemplate, Status>)
    ensures
        shown(r) == sandbox_template_read(value.deep_view()),
{
    let object = match expect_object(value, "SandboxTemplate") {
        Ok(object) => object,
        Err(error) => {
            return Err(error);
        },
    };
    let image = string_field(object, "image");
    let runtime_class_name = string_field(object, "runtime_class_name");
    let agent_socket = string_field(object, "agent_socket");
    let labels = string_map_field(object, "labels");
    let annotations = string_map_field(object, "annotations");
    let environment = string_map_field(object, "environment");
    let resources = match struct_field(object, "resources") {
        Ok(resources) => resources,
        Err(error) => {
            return Err(error);
        },
    };
    let volume_claim_templates = match struct_field(object, "volume_claim_templates") {
        Ok(volume_claim_templates) => volume_claim_templates,
        Err(error) => {
            return Err(error);
        },
    };
    let user_namespaces = match optional_bool_field(object, "user_namespaces") {
        Ok(user_namespaces) => user_namespaces,
        Err(error) => {
            return Err(error);
        },
    };
    let driver_config = match struct_field(object, "driver_config") {
        Ok(driver_config) => driver_config,
        Err(error) => {
            return Err(error);
        },
    };
    Ok(
        SandboxTemplate {
            image,
            runtime_class_name,
            agent_socket,
            labels,
            annotations,
            environment,
            resources,
            volume_claim_templates,
            user_namespaces,
            driver_config,
        },
    )
}

impl Message for SandboxTemplate {
    open spec fn read(json: JsonView) -> Result<SandboxTemplateView, StatusView> {
        sandbox_template_read(json)
    }

    open spec fn is_readable(content: SandboxTemplateView) -> bool {
        &&& ordered::is_map(content.labels)
        &&& ordered::is_map(content.annotations)
        &&& ordered::is_map(content.environment)
        &&& struct_is_readable(content.resources)
        &&& struct_is_readable(content.volume_claim_templates)
        &&& struct_is_readable(content.driver_config)
    }

    fn from_json(value: &Json) -> (r: Result<SandboxTemplate, Status>) {
        sandbox_template_from_json(value)
    }

    proof fn law_round_trip(content: SandboxTemplateView) {
        reveal_strlit("agent_socket");
        reveal_strlit("annotations");
        reveal_strlit("driver_config");
        reveal_strlit("environment");
        reveal_strlit("image");
        reveal_strlit("labels");
        reveal_strlit("resources");
        reveal_strlit("runtime_class_name");
        reveal_strlit("user_namespaces");
        reveal_strlit("volume_claim_templates");
        let members = sandbox_template_members(content);
        lemma_in_order("agent_socket"@, "annotations"@, 1);
        lemma_in_order("annotations"@, "driver_config"@, 0);
        lemma_in_order("driver_config"@, "environment"@, 0);
        lemma_in_order("environment"@, "image"@, 0);
        lemma_in_order("image"@, "labels"@, 0);
        lemma_in_order("labels"@, "resources"@, 0);
        lemma_in_order("resources"@, "runtime_class_name"@, 1);
        lemma_in_order("runtime_class_name"@, "user_namespaces"@, 0);
        lemma_in_order("user_namespaces"@, "volume_claim_templates"@, 0);
        reveal_with_fuel(ascend, 11);
        lemma_members_are_found(members);
        assert(members[0].0 == "agent_socket"@);
        assert(members[1].0 == "annotations"@);
        assert(members[2].0 == "driver_config"@);
        assert(members[3].0 == "environment"@);
        assert(members[4].0 == "image"@);
        assert(members[5].0 == "labels"@);
        assert(members[6].0 == "resources"@);
        assert(members[7].0 == "runtime_class_name"@);
        assert(members[8].0 == "user_namespaces"@);
        assert(members[9].0 == "volume_claim_templates"@);
        lemma_text_map_read_back(members, "labels"@, content.labels);
        lemma_text_map_read_back(members, "annotations"@, content.annotations);
        lemma_text_map_read_back(members, "environment"@, content.environment);
        lemma_struct_read_back(members, "resources"@, content.resources);
        lemma_struct_read_back(members, "volume_claim_templates"@, content.volume_claim_templates);
        lemma_struct_read_back(members, "driver_config"@, content.driver_config);
        assert(sandbox_template_read(JsonView::Object(members))->Ok_0 =~= content);
    }
}

/// What a sandbox is to be.
#[derive(Debug, PartialEq, Eq)]
pub struct SandboxSpec {
    pub log_level: String,
    pub environment: Vec<(String, String)>,
    pub template: Option<SandboxTemplate>,
    pub policy: Option<SandboxPolicy>,
    pub providers: Vec<String>,
    pub gpu: bool,
}

/// The content of the message.
#[verifier::ext_equal]
pub struct SandboxSpecView {
    pub log_level: Seq<char>,
    pub environment: TextMap,
    pub template: Option<SandboxTemplateView>,
    pub policy: Option<SandboxPolicyView>,
    pub providers: Seq<Seq<char>>,
    pub gpu: bool,
}

impl DeepView for SandboxSpec {
    type V = SandboxSpecView;

    open spec fn deep_view(&self) -> SandboxSpecView {
        SandboxSpecView {
            log_level: self.log_level@,
            environment: self.environment.deep_view(),
            template: self.template.deep_view(),
            policy: self.policy.deep_view(),
            providers: self.providers.deep_view(),
            gpu: self.gpu,
        }
    }
}

/// The members of the JSON form, in order.
pub open spec fn sandbox_spec_members(content: SandboxSpecView) -> Members {
    seq![
        ("environment"@, text_map_form(content.environment)),
        ("gpu"@, JsonView::Bool(content.gpu)),
        ("log_level"@, JsonView::Text(content.log_level)),
        ("policy"@, message_form::<SandboxPolicy>(content.policy)),
        ("providers"@, texts_form(content.providers)),
        ("template"@, message_form::<SandboxTemplate>(content.template)),
    ]
}

/// The message that a JSON value is the form of.
pub open spec fn sandbox_spec_read(json: JsonView) -> Result<SandboxSpecView, StatusView> {
    match object_in(json, "SandboxSpec"@) {
        Err(error) => Err(error),
        Ok(object) => {
            let template = message_at::<SandboxTemplate>(object, "template"@);
            let policy = message_at::<SandboxPolicy>(object, "policy"@);
            let providers = texts_at(object, "providers"@);
            if template is Err {
                Err(template->Err_0)
            } else if policy is Err {
                Err(policy->Err_0)
            } else if providers is Err {
                Err(providers->Err_0)
            } else {
                Ok(
                    SandboxSpecView {
                        log_level: text_at(object, "log_level"@),
                        environment: text_map_at(object, "environment"@),
                        template: template->Ok_0,
                        policy: policy->Ok_0,
                        providers: providers->Ok_0,
                        gpu: flag_at(object, "gpu"@),
                    },
                )
            }
        },
    }
}

/// The JSON form of the message.
pub fn sandbox_spec_to_json(value: &SandboxSpec) -> (r: Json)
    ensures
        r.deep_view() == JsonView::Object(sandbox_spec_members(value.deep_view())),
{
    let mut members: Vec<(String, Json)> = Vec::new();
    assert(members.deep_view() =~= Seq::empty());
    push_member(&mut members, "environment", text_map_to_json(&value.environment));
    push_member(&mut members, "gpu", bool_to_json(value.gpu));
    push_member(&mut members, "log_level", text_to_json(value.log_level.as_str()));
    push_member(&mut members, "policy", message_to_json(&value.policy));
    push_member(&mut members, "providers", texts_to_json(&value.providers));
    push_member(&mut members, "template", message_to_json(&value.template));
    assert(members.deep_view() =~= sandbox_spec_members(value.deep_view()));
    object_to_json(members)
}

impl Form for SandboxSpec {
    open spec fn json_form(content: SandboxSpecView) -> JsonView {
        JsonView::Object(sandbox_spec_members(content))
    }

    fn to_json(&self) -> (r: Json) {
        sandbox_spec_to_json(self)
    }
}

/// The message that a JSON value is the form of.
pub fn sandbox_spec_from_json(value: &Json) -> (r: Result<SandboxSpec, Status>)
    ensures
        shown(r) == sandbox_spec_read(value.deep_view()),
{
    let object = match expect_object(value, "SandboxSpec") {
        Ok(object) => object,
        Err(error) => {
            return Err(error);
        },
    };
    let log_level = string_field(object, "log_level");
    let environment = string_map_field(object, "environment");
    let template = match message_field::<SandboxTemplate>(object, "template") {
        Ok(template) => template,
        Err(error) => {
            return Err(error);
        },
    };
    let policy = match message_field::<SandboxPolicy>(object, "policy") {
        Ok(policy) => policy,
        Err(error) => {
            return Err(error);
        },
    };
    let providers = match string_array_field(object, "providers") {
        Ok(providers) => providers,
        Err(error) => {
            return Err(error);
        },
    };
    let gpu = bool_field(object, "gpu");
    Ok(SandboxSpec { log_level, environment, template, policy, providers, gpu })
}

impl Message for SandboxSpec {
    open spec fn read(json: JsonView) -> Result<SandboxSpecView, StatusView> {
        sandbox_spec_read(json)
    }

    open spec fn is_readable(content: SandboxSpecView) -> bool {
        &&& ordered::is_map(content.environment)
        &&& optional_is_readable::<SandboxTemplate>(content.template)
        &&& optional_is_readable::<SandboxPolicy>(content.policy)
    }

    fn from_json(value: &Json) -> (r: Result<SandboxSpec, Status>) {
        sandbox_spec_from_json(value)
    }

    proof fn law_round_trip(content: SandboxSpecView) {
        reveal_strlit("environment");
        reveal_strlit("gpu");
        reveal_strlit("log_level");
        reveal_strlit("policy");
        reveal_strlit("providers");
        reveal_strlit("template");
        let members = sandbox_spec_members(content);
        lemma_in_order("environment"@, "gpu"@, 0);
        lemma_in_order("gpu"@, "log_level"@, 0);
        lemma_in_order("log_level"@, "policy"@, 0);
        lemma_in_order("policy"@, "providers"@, 1);
        lemma_in_order("providers"@, "template"@, 0);
        reveal_with_fuel(ascend, 7);
        lemma_members_are_found(members);
        assert(members[0].0 == "environment"@);
        assert(members[1].0 == "gpu"@);
        assert(members[2].0 == "log_level"@);
        assert(members[3].0 == "policy"@);
        assert(members[4].0 == "providers"@);
        assert(members[5].0 == "template"@);
        lemma_text_map_read_back(members, "environment"@, content.environment);
        lemma_message_read_back::<SandboxTemplate>(members, "template"@, content.template);
        lemma_message_read_back::<SandboxPolicy>(members, "policy"@, content.policy);
        lemma_texts_read_back(members, "providers"@, content.providers);
        assert(sandbox_spec_read(JsonView::Object(members))->Ok_0 =~= content);
    }
}

/// A condition of a sandbox.
#[derive(Debug, PartialEq, Eq)]
pub struct SandboxCondition {
    pub condition_type: String,
    pub status: String,
    pub reason: String,
    pub message: String,
    pub last_transition_time: String,
}

/// The content of the message.
#[verifier::ext_equal]
pub struct SandboxConditionView {
    pub condition_type: Seq<char>,
    pub status: Seq<char>,
    pub reason: Seq<char>,
    pub message: Seq<char>,
    pub last_transition_time: Seq<char>,
}

impl DeepView for SandboxCondition {
    type V = SandboxConditionView;

    open spec fn deep_view(&self) -> SandboxConditionView {
        SandboxConditionView {
            condition_type: self.condition_type@,
            status: self.status@,
            reason: self.reason@,
            message: self.message@,
            last_transition_time: self.last_transition_time@,
        }
    }
}

/// The members of the JSON form, in order.
pub open spec fn sandbox_condition_members(content: SandboxConditionView) -> Members {
    seq![
        ("last_transition_time"@, JsonView::Text(content.last_transition_time)),
        ("message"@, JsonView::Text(content.message)),
        ("reason"@, JsonView::Text(content.reason)),
        ("status"@, JsonView::Text(content.status)),
        ("type"@, JsonView::Text(content.condition_type)),
    ]
}

/// The message that a JSON value is the form of.
pub open spec fn sandbox_condition_read(json: JsonView) -> Result<SandboxConditionView, StatusView> {
    match object_in(json, "SandboxCondition"@) {
        Err(error) => Err(error),
        Ok(object) => {
            Ok(
                SandboxConditionView {
                    condition_type: text_at(object, "type"@),
                    status: text_at(object, "status"@),
                    reason: text_at(object, "reason"@),
                    message: text_at(object, "message"@),
                    last_transition_time: text_at(object, "last_transition_time"@),
                },
            )
        },
    }
}

/// The JSON form of the message.
pub fn sandbox_condition_to_json(value: &SandboxCondition) -> (r: Json)
    ensures
        r.deep_view() == JsonView::Object(sandbox_condition_members(value.deep_view())),
{
    let mut members: Vec<(String, Json)> = Vec::new();
    assert(members.deep_view() =~= Seq::empty());
    push_member(
        &mut members,
        "last_transition_time",
        text_to_json(value.last_transition_time.as_str()),
    );
    push_member(&mut members, "message", text_to_json(value.message.as_str()));
    push_member(&mut members, "reason", text_to_json(value.reason.as_str()));
    push_member(&mut members, "status", text_to_json(value.status.as_str()));
    push_member(&mut members, "type", text_to_json(value.condition_type.as_str()));
    assert(members.deep_view() =~= sandbox_condition_members(value.deep_view()));
    object_to_json(members)
}

impl Form for SandboxCondition {
    open spec fn json_form(content: SandboxConditionView) -> JsonView {
        JsonView::Object(sandbox_condition_members(content))
    }

    fn to_json(&self) -> (r: Json) {
        sandbox_condition_to_json(self)
    }
}

/// The message that a JSON value is the form of.
pub fn sandbox_condition_from_json(value: &Json) -> (r: Result<SandboxCondition, Status>)
    ensures
        shown(r) == sandbox_condition_read(value.deep_view()),
{
    let object = match expect_object(value, "SandboxCondition") {
        Ok(object) => object,
        Err(error) => {
            return Err(error);
        },
    };
    let condition_type = string_field(object, "type");
    let status = string_field(object, "status");
    let reason = string_field(object, "reason");
    let message = string_field(object, "message");
    let last_transition_time = string_field(object, "last_transition_time");
    Ok(SandboxCondition { condition_type, status, reason, message, last_transition_time })
}

impl Message for SandboxCondition {
    open spec fn read(json: JsonView) -> Result<SandboxConditionView, StatusView> {
        sandbox_condition_read(json)
    }

    open spec fn is_readable(content: SandboxConditionView) -> bool {
        true
    }

    fn from_json(value: &Json) -> (r: Result<SandboxCondition, Status>) {
        sandbox_condition_from_json(value)
    }

    proof fn law_round_trip(content: SandboxConditionView) {
        reveal_strlit("last_transition_time");
        reveal_strlit("message");
        reveal_strlit("reason");
        reveal_strlit("status");
        reveal_strlit("type");
        let members = sandbox_condition_members(content);
        lemma_in_order("last_transition_time"@, "message"@, 0);
        lemma_in_order("message"@, "reason"@, 0);
        lemma_in_order("reason"@, "status"@, 0);
        lemma_in_order("status"@, "type"@, 0);
        reveal_with_fuel(ascend, 6);
        lemma_members_are_found(members);
        assert(members[0].0 == "last_transition_time"@);
        assert(members[1].0 == "message"@);
        assert(members[2].0 == "reason"@);
        assert(members[3].0 == "status"@);
        assert(members[4].0 == "type"@);
        assert(sandbox_condition_read(JsonView::Object(members))->Ok_0 =~= content);
    }
}

/// What is known of a sandbox.
#[derive(Debug, PartialEq, Eq)]
pub struct SandboxStatus {
    pub sandbox_name: String,
    pub agent_pod: String,
    pub agent_fd: String,
    pub sandbox_fd: String,
    pub conditions: Vec<SandboxCondition>,
    pub phase: i32,
    pub current_policy_version: u32,
}

/// The content of the message.
#[verifier::ext_equal]
pub struct SandboxStatusView {
    pub sandbox_name: Seq<char>,
    pub agent_pod: Seq<char>,
    pub agent_fd: Seq<char>,
    pub sandbox_fd: Seq<char>,
    pub conditions: Seq<SandboxConditionView>,
    pub phase: i32,
    pub current_policy_version: u32,
}

impl DeepView for SandboxStatus {
    type V = SandboxStatusView;

    open spec fn deep_view(&self) -> SandboxStatusView {
        SandboxStatusView {
            sandbox_name: self.sandbox_name@,
            agent_pod: self.agent_pod@,
            agent_fd: self.agent_fd@,
            sandbox_fd: self.sandbox_fd@,
            conditions: self.conditions.deep_view(),
            phase: self.phase,
            current_policy_version: self.current_policy_version,
        }
    }
}

/// The members of the JSON form, in order.
pub open spec fn sandbox_status_members(content: SandboxStatusView) -> Members {
    seq![
        ("agent_fd"@, JsonView::Text(content.agent_fd)),
        ("agent_pod"@, JsonView::Text(content.agent_pod)),
        ("conditions"@, messages_form::<SandboxCondition>(content.conditions)),
        ("current_policy_version"@, u64_form(content.current_policy_version as u64)),
        ("phase"@, i64_form(content.phase as i64)),
        ("sandbox_fd"@, JsonView::Text(content.sandbox_fd)),
        ("sandbox_name"@, JsonView::Text(content.sandbox_name)),
    ]
}

/// The message that a JSON value is the form of.
pub open spec fn sandbox_status_read(json: JsonView) -> Result<SandboxStatusView, StatusView> {
    match object_in(json, "SandboxStatus"@) {
        Err(error) => Err(error),
        Ok(object) => {
            let conditions = messages_at::<SandboxCondition>(object, "conditions"@);
            let phase = i32_at(object, "phase"@);
            let current_policy_version = u32_at(object, "current_policy_version"@);
            if conditions is Err {
                Err(conditions->Err_0)
            } else if phase is Err {
                Err(phase->Err_0)
            } else if current_policy_version is Err {
                Err(current_policy_version->Err_0)
            } else {
                Ok(
                    SandboxStatusView {
                        sandbox_name: text_at(object, "sandbox_name"@),
                        agent_pod: text_at(object, "agent_pod"@),
                        agent_fd: text_at(object, "agent_fd"@),
                        sandbox_fd: text_at(object, "sandbox_fd"@),
                        conditions: conditions->Ok_0,
                        phase: phase->Ok_0,
                        current_policy_version: current_policy_version->Ok_0,
                    },
                )
            }
        },
    }
}

/// The JSON form of the message.
pub fn sandbox_status_to_json(value: &SandboxStatus) -> (r: Json)
    ensures
        r.deep_view() == JsonView::Object(sandbox_status_members(value.deep_view())),
{
    let mut members: Vec<(String, Json)> = Vec::new();
    assert(members.deep_view() =~= Seq::empty());
    push_member(&mut members, "agent_fd", text_to_json(value.agent_fd.as_str()));
    push_member(&mut members, "agent_pod", text_to_json(value.agent_pod.as_str()));
    push_member(&mut members, "conditions", messages_to_json(&value.conditions));
    push_member(
        &mut members,
        "current_policy_version",
        u64_to_json(value.current_policy_version as u64),
    );
    push_member(&mut members, "phase", i64_to_json(value.phase as i64));
    push_member(&mut members, "sandbox_fd", text_to_json(value.sandbox_fd.as_str()));
    push_member(&mut members, "sandbox_name", text_to_json(value.sandbox_name.as_str()));
    assert(members.deep_view() =~= sandbox_status_members(value.deep_view()));
    object_to_json(members)
}

impl Form for SandboxStatus {
    open spec fn json_form(content: SandboxStatusView) -> JsonView {
        JsonView::Object(sandbox_status_members(content))
    }

    fn to_json(&self) -> (r: Json) {
        sandbox_status_to_json(self)
    }
}

/// The message that a JSON value is the form of.
pub fn sandbox_status_from_json(value: &Json) -> (r: Result<SandboxStatus, Status>)
    ensures
        shown(r) == sandbox_status_read(value.deep_view()),
{
    let object = match expect_object(value, "SandboxStatus") {
        Ok(object) => object,
        Err(error) => {
            return Err(error);
        },
    };
    let sandbox_name = string_field(object, "sandbox_name");
    let agent_pod = string_field(object, "agent_pod");
    let agent_fd = string_field(object, "agent_fd");
    let sandbox_fd = string_field(object, "sandbox_fd");
    let conditions = match messages_field::<SandboxCondition>(object, "conditions") {
        Ok(conditions) => conditions,
        Err(error) => {
            return Err(error);
        },
    };
    let phase: i32 = match i32_field(object, "phase") {
        Ok(phase) => phase,
        Err(error) => {
            return Err(error);
        },
    };
    let current_policy_version: u32 = match u32_field(object, "current_policy_version") {
        Ok(current_policy_version) => current_policy_version,
        Err(error) => {
            return Err(error);
        },
    };
    Ok(
        SandboxStatus {
            sandbox_name,
            agent_pod,
            agent_fd,
            sandbox_fd,
            conditions,
            phase,
            current_policy_version,
        },
    )
}

impl Message for SandboxStatus {
    open spec fn read(json: JsonView) -> Result<SandboxStatusView, StatusView> {
        sandbox_status_read(json)
    }

    open spec fn is_readable(content: SandboxStatusView) -> bool {
        all_readable::<SandboxCondition>(content.conditions)
    }

    fn from_json(value: &Json) -> (r: Result<SandboxStatus, Status>) {
        sandbox_status_from_json(value)
    }

    proof fn law_round_trip(content: SandboxStatusView) {
        reveal_strlit("agent_fd");
        reveal_strlit("agent_pod");
        reveal_strlit("conditions");
        reveal_strlit("current_policy_version");
        reveal_strlit("phase");
        reveal_strlit("sandbox_fd");
        reveal_strlit("sandbox_name");
        let members = sandbox_status_members(content);
        lemma_in_order("agent_fd"@, "agent_pod"@, 6);
        lemma_in_order("agent_pod"@, "conditions"@, 0);
        lemma_in_order("conditions"@, "current_policy_version"@, 1);
        lemma_in_order("current_policy_version"@, "phase"@, 0);
        lemma_in_order("phase"@, "sandbox_fd"@, 0);
        lemma_in_order("sandbox_fd"@, "sandbox_name"@, 8);
        reveal_with_fuel(ascend, 8);
        lemma_members_are_found(members);
        assert(members[0].0 == "agent_fd"@);
        assert(members[1].0 == "agent_pod"@);
        assert(members[2].0 == "conditions"@);
        assert(members[3].0 == "current_policy_version"@);
        assert(members[4].0 == "phase"@);
        assert(members[5].0 == "sandbox_fd"@);
        assert(members[6].0 == "sandbox_name"@);
        lemma_messages_read_back::<SandboxCondition>(members, "conditions"@, content.conditions);
        assert(sandbox_status_read(JsonView::Object(members))->Ok_0 =~= content);
    }
}

/// A sandbox.
#[derive(Debug, PartialEq, Eq)]
pub struct Sandbox {
    pub metadata: Option<ObjectMeta>,
    pub spec: Option<SandboxSpec>,
    pub status: Option<SandboxStatus>,
}

/// The content of the message.
#[verifier::ext_equal]
pub struct SandboxView {
    pub metadata: Option<ObjectMetaView>,
    pub spec: Option<SandboxSpecView>,
    pub status: Option<SandboxStatusView>,
}

impl DeepView for Sandbox {
    type V = SandboxView;

    open spec fn deep_view(&self) -> SandboxView {
        SandboxView {
            metadata: self.metadata.deep_view(),
            spec: self.spec.deep_view(),
            status: self.status.deep_view(),
        }
    }
}

/// The members of the JSON form, in order.
pub open spec fn sandbox_members(content: SandboxView) -> Members {
    seq![
        ("metadata"@, message_form::<ObjectMeta>(content.metadata)),
        ("spec"@, message_form::<SandboxSpec>(content.spec)),
        ("status"@, message_form::<SandboxStatus>(content.status)),
    ]
}

/// The message that a JSON value is the form of.
pub open spec fn sandbox_read(json: JsonView) -> Result<SandboxView, StatusView> {
    match object_in(json, "Sandbox"@) {
        Err(error) => Err(error),
        Ok(object) => {
            let metadata = message_at::<ObjectMeta>(object, "metadata"@);
            let spec = message_at::<SandboxSpec>(object, "spec"@);
            let status = message_at::<SandboxStatus>(object, "status"@);
            if metadata is Err {
                Err(metadata->Err_0)
            } else if spec is Err {
                Err(spec->Err_0)
            } else if status is Err {
                Err(status->Err_0)
            } else {
                Ok(
                    SandboxView {
                        metadata: metadata->Ok_0,
                        spec: spec->Ok_0,
                        status: status->Ok_0,
                    },
                )
            }
        },
    }
}

/// The JSON form of the message.
pub fn sandbox_to_json(value: &Sandbox) -> (r: Json)
    ensures
        r.deep_view() == JsonView::Object(sandbox_members(value.deep_view())),
{
    let mut members: Vec<(String, Json)> = Vec::new();
    assert(members.deep_view() =~= Seq::empty());
    push_member(&mut members, "metadata", message_to_json(&value.metadata));
    push_member(&mut members, "spec", message_to_json(&value.spec));
    push_member(&mut members, "status", message_to_json(&value.status));
    assert(members.deep_view() =~= sandbox_members(value.deep_view()));
    object_to_json(members)
}

impl Form for Sandbox {
    open spec fn json_form(content: SandboxView) -> JsonView {
        JsonView::Object(sandbox_members(content))
    }

    fn to_json(&self) -> (r: Json) {
        sandbox_to_json(self)
    }
}

/// The message that a JSON value is the form of.
pub fn sandbox_from_json(value: &Json) -> (r: Result<Sandbox, Status>)
    ensures
        shown(r) == sandbox_read(value.deep_view()),
{
    let object = match expect_object(value, "Sandbox") {
        Ok(object) => object,
        Err(error) => {
            return Err(error);
        },
    };
    let metadata = match message_field::<ObjectMeta>(object, "metadata") {
        Ok(metadata) => metadata,
        Err(error) => {
            return Err(error);
        },
    };
    let spec = match message_field::<SandboxSpec>(object, "spec") {
        Ok(spec) => spec,
        Err(error) => {
            return Err(error);
        },
    };
    let status = match message_field::<SandboxStatus>(object, "status") {
        Ok(status) => status,
        Err(error) => {
            return Err(error);
        },
    };
    Ok(Sandbox { metadata, spec, status })
}

impl Message for Sandbox {
    open spec fn read(json: JsonView) -> Result<SandboxView, StatusView> {
        sandbox_read(json)
    }

    open spec fn is_readable(content: SandboxView) -> bool {
        &&& optional_is_readable::<ObjectMeta>(content.metadata)
        &&& optional_is_readable::<SandboxSpec>(content.spec)
        &&& optional_is_readable::<SandboxStatus>(content.status)
    }

    fn from_json(value: &Json) -> (r: Result<Sandbox, Status>) {
        sandbox_from_json(value)
    }

    proof fn law_round_trip(content: SandboxView) {
        reveal_strlit("metadata");
        reveal_strlit("spec");
        reveal_strlit("status");
        let members = sandbox_members(content);
        lemma_in_order("metadata"@, "spec"@, 0);
        lemma_in_order("spec"@, "status"@, 1);
        reveal_with_fuel(ascend, 4);
        lemma_members_are_found(members);
        assert(members[0].0 == "metadata"@);
        assert(members[1].0 == "spec"@);
        assert(members[2].0 == "status"@);
        lemma_message_read_back::<ObjectMeta>(members, "metadata"@, content.metadata);
        lemma_message_read_back::<SandboxSpec>(members, "spec"@, content.spec);
        lemma_message_read_back::<SandboxStatus>(members, "status"@, content.status);
        assert(sandbox_read(JsonView::Object(members))->Ok_0 =~= content);
    }
}

/// A request for a new sandbox.
#[derive(Debug, PartialEq, Eq)]
pub struct CreateSandboxRequest {
    pub spec: Option<SandboxSpec>,
    pub name: String,
    pub labels: Vec<(String, String)>,
}

/// The content of the message.
#[verifier::ext_equal]
pub struct CreateSandboxRequestView {
    pub spec: Option<SandboxSpecView>,
    pub name: Seq<char>,
    pub labels: TextMap,
}

impl DeepView for CreateSandboxRequest {
    type V = CreateSandboxRequestView;

    open spec fn deep_view(&self) -> CreateSandboxRequestView {
        CreateSandboxRequestView {
            spec: self.spec.deep_view(),
            name: self.name@,
            labels: self.labels.deep_view(),
        }
    }
}

/// The members of the JSON form, in order.
pub open spec fn create_sandbox_request_members(content: CreateSandboxRequestView) -> Members {
    seq![
        ("labels"@, text_map_form(content.labels)),
        ("name"@, JsonView::Text(content.name)),
        ("spec"@, message_form::<SandboxSpec>(content.spec)),
    ]
}

/// The message that a JSON value is the form of.
pub open spec fn create_sandbox_request_read(json: JsonView) -> Result<CreateSandboxRequestView, StatusView> {
    match object_in(json, "CreateSandboxRequest"@) {
        Err(error) => Err(error),
        Ok(object) => {
            let spec = message_at::<SandboxSpec>(object, "spec"@);
            if spec is Err {
                Err(spec->Err_0)
            } else {
                Ok(
                    CreateSandboxRequestView {
                        spec: spec->Ok_0,
                        name: text_at(object, "name"@),
                        labels: text_map_at(object, "labels"@),
                    },
                )
            }
        },
    }
}

/// The JSON form of the message.
pub fn create_sandbox_request_to_json(value: &CreateSandboxRequest) -> (r: Json)
    ensures
        r.deep_view() == JsonView::Object(create_sandbox_request_members(value.deep_view())),
{
    let mut members: Vec<(String, Json)> = Vec::new();
    assert(members.deep_view() =~= Seq::empty());
    push_member(&mut members, "labels", text_map_to_json(&value.labels));
    push_member(&mut members, "name", text_to_json(value.name.as_str()));
    push_member(&mut members, "spec", message_to_json(&value.spec));
    assert(members.deep_view() =~= create_sandbox_request_members(value.deep_view()));
    object_to_json(members)
}

impl Form for CreateSandboxRequest {
    open spec fn json_form(content: CreateSandboxRequestView) -> JsonView {
        JsonView::Object(create_sandbox_request_members(content))
    }

    fn to_json(&self) -> (r: Json) {
        create_sandbox_request_to_json(self)
    }
}

/// The message that a JSON value is the form of.
pub fn create_sandbox_request_from_json(value: &Json) -> (r: Result<CreateSandboxRequest, Status>)
    ensures
        shown(r) == create_sandbox_request_read(value.deep_view()),
{
    let object = match expect_object(value, "CreateSandboxRequest") {
        Ok(object) => object,
        Err(error) => {
            return Err(error);
        },
    };
    let spec = match message_field::<SandboxSpec>(object, "spec") {
        Ok(spec) => spec,
        Err(error) => {
            return Err(error);
        },
    };
    let name = string_field(object, "name");
    let labels = string_map_field(object, "labels");
    Ok(CreateSandboxRequest { spec, name, labels })
}

impl Message for CreateSandboxRequest {
    open spec fn read(json: JsonView) -> Result<CreateSandboxRequestView, StatusView> {
        create_sandbox_request_read(json)
    }

    open spec fn is_readable(content: CreateSandboxRequestView) -> bool {
        &&& optional_is_readable::<SandboxSpec>(content.spec)
        &&& ordered::is_map(content.labels)
    }

    fn from_json(value: &Json) -> (r: Result<CreateSandboxRequest, Status>) {
        create_sandbox_request_from_json(value)
    }

    proof fn law_round_trip(content: CreateSandboxRequestView) {
        reveal_strlit("labels");
        reveal_strlit("name");
        reveal_strlit("spec");
        let members = create_sandbox_request_members(content);
        lemma_in_order("labels"@, "name"@, 0);
        lemma_in_order("name"@, "spec"@, 0);
        reveal_with_fuel(ascend, 4);
        lemma_members_are_found(members);
        assert(members[0].0 == "labels"@);
        assert(members[1].0 == "name"@);
        assert(members[2].0 == "spec"@);
        lemma_message_read_back::<SandboxSpec>(members, "spec"@, content.spec);
        lemma_text_map_read_back(members, "labels"@, content.labels);
        assert(create_sandbox_request_read(JsonView::Object(members))->Ok_0 =~= content);
    }
}

/// A request to attach a provider to a sandbox.
#[derive(Debug, PartialEq, Eq)]
pub struct AttachSandboxProviderRequest {
    pub sandbox_name: String,
    pub provider_name: String,
    pub expected_resource_version: u64,
}

/// The content of the message.
#[verifier::ext_equal]
pub struct AttachSandboxProviderRequestView {
    pub sandbox_name: Seq<char>,
    pub provider_name: Seq<char>,
    pub expected_resource_version: u64,
}

impl DeepView for AttachSandboxProviderRequest {
    type V = AttachSandboxProviderRequestView;

    open spec fn deep_view(&self) -> AttachSandboxProviderRequestView {
        AttachSandboxProviderRequestView {
            sandbox_name: self.sandbox_name@,
            provider_name: self.provider_name@,
            expected_resource_version: self.expected_resource_version,
        }
    }
}

/// The members of the JSON form, in order.
pub open spec fn attach_provider_request_members(content: AttachSandboxProviderRequestView) -> Members {
    seq![
        ("expected_resource_version"@, u64_form(content.expected_resource_version)),
        ("provider_name"@, JsonView::Text(content.provider_name)),
        ("sandbox_name"@, JsonView::Text(content.sandbox_name)),
    ]
}

/// The message that a JSON value is the form of.
pub open spec fn attach_provider_request_read(json: JsonView) -> Result<AttachSandboxProviderRequestView, StatusView> {
    match object_in(json, "AttachSandboxProviderRequest"@) {
        Err(error) => Err(error),
        Ok(object) => {
            let expected_resource_version = u64_at(object, "expected_resource_version"@);
            if expected_resource_version is Err {
                Err(expected_resource_version->Err_0)
            } else {
                Ok(
                    AttachSandboxProviderRequestView {
                        sandbox_name: text_at(object, "sandbox_name"@),
                        provider_name: text_at(object, "provider_name"@),
                        expected_resource_version: expected_resource_version->Ok_0,
                    },
                )
            }
        },
    }
}

/// The JSON form of the message.
pub fn attach_provider_request_to_json(value: &AttachSandboxProviderRequest) -> (r: Json)
    ensures
        r.deep_view() == JsonView::Object(attach_provider_request_members(value.deep_view())),
{
    let mut members: Vec<(String, Json)> = Vec::new();
    assert(members.deep_view() =~= Seq::empty());
    push_member(
        &mut members,
        "expected_resource_version",
        u64_to_json(value.expected_resource_version),
    );
    push_member(&mut members, "provider_name", text_to_json(value.provider_name.as_str()));
    push_member(&mut members, "sandbox_name", text_to_json(value.sandbox_name.as_str()));
    assert(members.deep_view() =~= attach_provider_request_members(value.deep_view()));
    object_to_json(members)
}

impl Form for AttachSandboxProviderRequest {
    open spec fn json_form(content: AttachSandboxProviderRequestView) -> JsonView {
        JsonView::Object(attach_provider_request_members(content))
    }

    fn to_json(&self) -> (r: Json) {
        attach_provider_request_to_json(self)
    }
}

/// The message that a JSON value is the form of.
pub fn attach_provider_request_from_json(value: &Json) -> (r: Result<AttachSandboxProviderRequest, Status>)
    ensures
        shown(r) == attach_provider_request_read(value.deep_view()),
{
    let object = match expect_object(value, "AttachSandboxProviderRequest") {
        Ok(object) => object,
        Err(error) => {
            return Err(error);
        },
    };
    let sandbox_name = string_field(object, "sandbox_name");
    let provider_name = string_field(object, "provider_name");
    let expected_resource_version: u64 = match u64_field(object, "expected_resource_version") {
        Ok(expected_resource_version) => expected_resource_version,
        Err(error) => {
            return Err(error);
        },
    };
    Ok(AttachSandboxProviderRequest { sandbox_name, provider_name, expected_resource_version })
}

impl Message for AttachSandboxProviderRequest {
    open spec fn read(json: JsonView) -> Result<AttachSandboxProviderRequestView, StatusView> {
        attach_provider_request_read(json)
    }

    open spec fn is_readable(content: AttachSandboxProviderRequestView) -> bool {
        true
    }

    fn from_json(value: &Json) -> (r: Result<AttachSandboxProviderRequest, Status>) {
        attach_provider_request_from_json(value)
    }

    proof fn law_round_trip(content: AttachSandboxProviderRequestView) {
        reveal_strlit("expected_resource_version");
        reveal_strlit("provider_name");
        reveal_strlit("sandbox_name");
        let members = attach_provider_request_members(content);
        lemma_in_order("expected_resource_version"@, "provider_name"@, 0);
        lemma_in_order("provider_name"@, "sandbox_name"@, 0);
        reveal_with_fuel(ascend, 4);
        lemma_members_are_found(members);
        assert(members[0].0 == "expected_resource_version"@);
        assert(members[1].0 == "provider_name"@);
        assert(members[2].0 == "sandbox_name"@);
        assert(attach_provider_request_read(JsonView::Object(members))->Ok_0 =~= content);
    }
}

/// A request to detach a provider from a sandbox.
#[derive(Debug, PartialEq, Eq)]
pub struct DetachSandboxProviderRequest {
    pub sandbox_name: String,
    pub provider_name: String,
    pub expected_resource_version: u64,
}

/// The content of the message.
#[verifier::ext_equal]
pub struct DetachSandboxProviderRequestView {
    pub sandbox_name: Seq<char>,
    pub provider_name: Seq<char>,
    pub expected_resource_version: u64,
}

impl DeepView for DetachSandboxProviderRequest {
    type V = DetachSandboxProviderRequestView;

    open spec fn deep_view(&self) -> DetachSandboxProviderRequestView {
        DetachSandboxProviderRequestView {
            sandbox_name: self.sandbox_name@,
            provider_name: self.provider_name@,
            expected_resource_version: self.expected_resource_version,
        }
    }
}

/// The members of the JSON form, in order.
pub open spec fn detach_provider_request_members(content: DetachSandboxProviderRequestView) -> Members {
    seq![
        ("expected_resource_version"@, u64_form(content.expected_resource_version)),
        ("provider_name"@, JsonView::Text(content.provider_name)),
        ("sandbox_name"@, JsonView::Text(content.sandbox_name)),
    ]
}

/// The message that a JSON value is the form of.
pub open spec fn detach_provider_request_read(json: JsonView) -> Result<DetachSandboxProviderRequestView, StatusView> {
    match object_in(json, "DetachSandboxProviderRequest"@) {
        Err(error) => Err(error),
        Ok(object) => {
            let expected_resource_version = u64_at(object, "expected_resource_version"@);
            if expected_resource_version is Err {
                Err(expected_resource_version->Err_0)
            } else {
                Ok(
                    DetachSandboxProviderRequestView {
                        sandbox_name: text_at(object, "sandbox_name"@),
                        provider_name: text_at(object, "provider_name"@),
                        expected_resource_version: expected_resource_version->Ok_0,
                    },
                )
            }
        },
    }
}

/// The JSON form of the message.
pub fn detach_provider_request_to_json(value: &DetachSandboxProviderRequest) -> (r: Json)
    ensures
        r.deep_view() == JsonView::Object(detach_provider_request_members(value.deep_view())),
{
    let mut members: Vec<(String, Json)> = Vec::new();
    assert(members.deep_view() =~= Seq::empty());
    push_member(
        &mut members,
        "expected_resource_version",
        u64_to_json(value.expected_resource_version),
    );
    push_member(&mut members, "provider_name", text_to_json(value.provider_name.as_str()));
    push_member(&mut members, "sandbox_name", text_to_json(value.sandbox_name.as_str()));
    assert(members.deep_view() =~= detach_provider_request_members(value.deep_view()));
    object_to_json(members)
}

impl Form for DetachSandboxProviderRequest {
    open spec fn json_form(content: DetachSandboxProviderRequestView) -> JsonView {
        JsonView::Object(detach_provider_request_members(content))
    }

    fn to_json(&self) -> (r: Json) {
        detach_provider_request_to_json(self)
    }
}

/// The message that a JSON value is the form of.
pub fn detach_provider_request_from_json(value: &Json) -> (r: Result<DetachSandboxProviderRequest, Status>)
    ensures
        shown(r) == detach_provider_request_read(value.deep_view()),
{
    let object = match expect_object(value, "DetachSandboxProviderRequest") {
        Ok(object) => object,
        Err(error) => {
            return Err(error);
        },
    };
    let sandbox_name = string_field(object, "sandbox_name");
    let provider_name = string_field(object, "provider_name");
    let expected_resource_version: u64 = match u64_field(object, "expected_resource_version") {
        Ok(expected_resource_version) => expected_resource_version,
        Err(error) => {
            return Err(error);
        },
    };
    Ok(DetachSandboxProviderRequest { sandbox_name, provider_name, expected_resource_version })
}

impl Message for DetachSandboxProviderRequest {
    open spec fn read(json: JsonView) -> Result<DetachSandboxProviderRequestView, StatusView> {
        detach_provider_request_read(json)
    }

    open spec fn is_readable(content: DetachSandboxProviderRequestView) -> bool {
        true
    }

    fn from_json(value: &Json) -> (r: Result<DetachSandboxProviderRequest, Status>) {
        detach_provider_request_from_json(value)
    }

    proof fn law_round_trip(content: DetachSandboxProviderRequestView) {
        reveal_strlit("expected_resource_version");
        reveal_strlit("provider_name");
        reveal_strlit("sandbox_name");
        let members = detach_provider_request_members(content);
        lemma_in_order("expected_resource_version"@, "provider_name"@, 0);
        lemma_in_order("provider_name"@, "sandbox_name"@, 0);
        reveal_with_fuel(ascend, 4);
        lemma_members_are_found(members);
        assert(members[0].0 == "expected_resource_version"@);
        assert(members[1].0 == "provider_name"@);
        assert(members[2].0 == "sandbox_name"@);
        assert(detach_provider_request_read(JsonView::Object(members))->Ok_0 =~= content);
    }
}

} // verus!
