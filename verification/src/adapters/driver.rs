//! Sandboxes, as drivers see them, as JSON.

use crate::adapters::fields::{
    bool_to_json, message_form, message_to_json, messages_form, messages_to_json, object_to_json,
    optional_struct_to_json, push_member, struct_form, text_map_form, text_map_to_json,
    text_to_json, Form, Members, TextMap,
};
use crate::json::{Json, JsonView};
use crate::proto_struct::{FieldsView, Struct};
use vstd::prelude::*;

verus! {

/// The resources that a sandbox asks its driver for.
#[derive(Debug, PartialEq, Eq)]
pub struct DriverResourceRequirements {
    pub cpu_request: String,
    pub cpu_limit: String,
    pub memory_request: String,
    pub memory_limit: String,
}

/// The content of the message.
#[verifier::ext_equal]
pub struct DriverResourceRequirementsView {
    pub cpu_request: Seq<char>,
    pub cpu_limit: Seq<char>,
    pub memory_request: Seq<char>,
    pub memory_limit: Seq<char>,
}

impl DeepView for DriverResourceRequirements {
    type V = DriverResourceRequirementsView;

    open spec fn deep_view(&self) -> DriverResourceRequirementsView {
        DriverResourceRequirementsView {
            cpu_request: self.cpu_request@,
            cpu_limit: self.cpu_limit@,
            memory_request: self.memory_request@,
            memory_limit: self.memory_limit@,
        }
    }
}

/// The members of the JSON form, in order.
pub open spec fn driver_resource_requirements_members(content: DriverResourceRequirementsView) -> Members {
    seq![
        ("cpu_limit"@, JsonView::Text(content.cpu_limit)),
        ("cpu_request"@, JsonView::Text(content.cpu_request)),
        ("memory_limit"@, JsonView::Text(content.memory_limit)),
        ("memory_request"@, JsonView::Text(content.memory_request)),
    ]
}

/// The JSON form of the message.
pub fn driver_resource_requirements_to_json(value: &DriverResourceRequirements) -> (r: Json)
    ensures
        r.deep_view() == JsonView::Object(driver_resource_requirements_members(value.deep_view())),
{
    let mut members: Vec<(String, Json)> = Vec::new();
    assert(members.deep_view() =~= Seq::empty());
    push_member(&mut members, "cpu_limit", text_to_json(value.cpu_limit.as_str()));
    push_member(&mut members, "cpu_request", text_to_json(value.cpu_request.as_str()));
    push_member(&mut members, "memory_limit", text_to_json(value.memory_limit.as_str()));
    push_member(&mut members, "memory_request", text_to_json(value.memory_request.as_str()));
    assert(members.deep_view() =~= driver_resource_requirements_members(value.deep_view()));
    object_to_json(members)
}

impl Form for DriverResourceRequirements {
    open spec fn json_form(content: DriverResourceRequirementsView) -> JsonView {
        JsonView::Object(driver_resource_requirements_members(content))
    }

    fn to_json(&self) -> (r: Json) {
        driver_resource_requirements_to_json(self)
    }
}

/// What a driver makes a sandbox from.
#[derive(Debug, PartialEq, Eq)]
pub struct DriverSandboxTemplate {
    pub image: String,
    pub agent_socket_path: String,
    pub labels: Vec<(String, String)>,
    pub environment: Vec<(String, String)>,
    pub resources: Option<DriverResourceRequirements>,
    pub platform_config: Option<Struct>,
    pub driver_config: Option<Struct>,
}

/// The content of the message.
#[verifier::ext_equal]
pub struct DriverSandboxTemplateView {
    pub image: Seq<char>,
    pub agent_socket_path: Seq<char>,
    pub labels: TextMap,
    pub environment: TextMap,
    pub resources: Option<DriverResourceRequirementsView>,
    pub platform_config: Option<FieldsView>,
    pub driver_config: Option<FieldsView>,
}

impl DeepView for DriverSandboxTemplate {
    type V = DriverSandboxTemplateView;

    open spec fn deep_view(&self) -> DriverSandboxTemplateView {
        DriverSandboxTemplateView {
            image: self.image@,
            agent_socket_path: self.agent_socket_path@,
            labels: self.labels.deep_view(),
            environment: self.environment.deep_view(),
            resources: self.resources.deep_view(),
            platform_config: self.platform_config.deep_view(),
            driver_config: self.driver_config.deep_view(),
        }
    }
}

/// The members of the JSON form, in order.
pub open spec fn driver_sandbox_template_members(content: DriverSandboxTemplateView) -> Members {
    seq![
        ("agent_socket_path"@, JsonView::Text(content.agent_socket_path)),
        ("driver_config"@, struct_form(content.driver_config)),
        ("environment"@, text_map_form(content.environment)),
        ("image"@, JsonView::Text(content.image)),
        ("labels"@, text_map_form(content.labels)),
        ("platform_config"@, struct_form(content.platform_config)),
        ("resources"@, message_form::<DriverResourceRequirements>(content.resources)),
    ]
}

/// The JSON form of the message.
pub fn driver_sandbox_template_to_json(value: &DriverSandboxTemplate) -> (r: Json)
    ensures
        r.deep_view() == JsonView::Object(driver_sandbox_template_members(value.deep_view())),
{
    let mut members: Vec<(String, Json)> = Vec::new();
    assert(members.deep_view() =~= Seq::empty());
    push_member(
        &mut members,
        "agent_socket_path",
        text_to_json(value.agent_socket_path.as_str()),
    );
    push_member(&mut members, "driver_config", optional_struct_to_json(&value.driver_config));
    push_member(&mut members, "environment", text_map_to_json(&value.environment));
    push_member(&mut members, "image", text_to_json(value.image.as_str()));
    push_member(&mut members, "labels", text_map_to_json(&value.labels));
    push_member(
        &mut members,
        "platform_config",
        optional_struct_to_json(&value.platform_config),
    );
    push_member(&mut members, "resources", message_to_json(&value.resources));
    assert(members.deep_view() =~= driver_sandbox_template_members(value.deep_view()));
    object_to_json(members)
}

impl Form for DriverSandboxTemplate {
    open spec fn json_form(content: DriverSandboxTemplateView) -> JsonView {
        JsonView::Object(driver_sandbox_template_members(content))
    }

    fn to_json(&self) -> (r: Json) {
        driver_sandbox_template_to_json(self)
    }
}

/// A token as it is shown: only whether there is one.
pub open spec fn redacted_token(token: Seq<char>) -> Seq<char> {
    if token.len() == 0 {
        ""@
    } else {
        "REDACTED"@
    }
}

fn token_to_json(token: &str) -> (r: Json)
    ensures
        r.deep_view() == JsonView::Text(redacted_token(token@)),
{
    if token.is_empty() {
        text_to_json("")
    } else {
        text_to_json("REDACTED")
    }
}

/// What a driver is to make.
#[derive(Debug, PartialEq, Eq)]
pub struct DriverSandboxSpec {
    pub log_level: String,
    pub environment: Vec<(String, String)>,
    pub template: Option<DriverSandboxTemplate>,
    pub gpu: bool,
    pub sandbox_token: String,
}

/// The content of the message.
#[verifier::ext_equal]
pub struct DriverSandboxSpecView {
    pub log_level: Seq<char>,
    pub environment: TextMap,
    pub template: Option<DriverSandboxTemplateView>,
    pub gpu: bool,
    pub sandbox_token: Seq<char>,
}

impl DeepView for DriverSandboxSpec {
    type V = DriverSandboxSpecView;

    open spec fn deep_view(&self) -> DriverSandboxSpecView {
        DriverSandboxSpecView {
            log_level: self.log_level@,
            environment: self.environment.deep_view(),
            template: self.template.deep_view(),
            gpu: self.gpu,
            sandbox_token: self.sandbox_token@,
        }
    }
}

/// The members of the JSON form, in order.
pub open spec fn driver_sandbox_spec_members(content: DriverSandboxSpecView) -> Members {
    seq![
        ("environment"@, text_map_form(content.environment)),
        ("gpu"@, JsonView::Bool(content.gpu)),
        ("log_level"@, JsonView::Text(content.log_level)),
        ("sandbox_token"@, JsonView::Text(redacted_token(content.sandbox_token))),
        ("template"@, message_form::<DriverSandboxTemplate>(content.template)),
    ]
}

/// The JSON form of the message.
pub fn driver_sandbox_spec_to_json(value: &DriverSandboxSpec) -> (r: Json)
    ensures
        r.deep_view() == JsonView::Object(driver_sandbox_spec_members(value.deep_view())),
{
    let mut members: Vec<(String, Json)> = Vec::new();
    assert(members.deep_view() =~= Seq::empty());
    push_member(&mut members, "environment", text_map_to_json(&value.environment));
    push_member(&mut members, "gpu", bool_to_json(value.gpu));
    push_member(&mut members, "log_level", text_to_json(value.log_level.as_str()));
    push_member(&mut members, "sandbox_token", token_to_json(value.sandbox_token.as_str()));
    push_member(&mut members, "template", message_to_json(&value.template));
    assert(members.deep_view() =~= driver_sandbox_spec_members(value.deep_view()));
    object_to_json(members)
}

impl Form for DriverSandboxSpec {
    open spec fn json_form(content: DriverSandboxSpecView) -> JsonView {
        JsonView::Object(driver_sandbox_spec_members(content))
    }

    fn to_json(&self) -> (r: Json) {
        driver_sandbox_spec_to_json(self)
    }
}

/// A condition of a sandbox, as its driver sees it.
#[derive(Debug, PartialEq, Eq)]
pub struct DriverCondition {
    pub condition_type: String,
    pub status: String,
    pub reason: String,
    pub message: String,
    pub last_transition_time: String,
}

/// The content of the message.
#[verifier::ext_equal]
pub struct DriverConditionView {
    pub condition_type: Seq<char>,
    pub status: Seq<char>,
    pub reason: Seq<char>,
    pub message: Seq<char>,
    pub last_transition_time: Seq<char>,
}

impl DeepView for DriverCondition {
    type V = DriverConditionView;

    open spec fn deep_view(&self) -> DriverConditionView {
        DriverConditionView {
            condition_type: self.condition_type@,
            status: self.status@,
            reason: self.reason@,
            message: self.message@,
            last_transition_time: self.last_transition_time@,
        }
    }
}

/// The members of the JSON form, in order.
pub open spec fn driver_condition_members(content: DriverConditionView) -> Members {
    seq![
        ("last_transition_time"@, JsonView::Text(content.last_transition_time)),
        ("message"@, JsonView::Text(content.message)),
        ("reason"@, JsonView::Text(content.reason)),
        ("status"@, JsonView::Text(content.status)),
        ("type"@, JsonView::Text(content.condition_type)),
    ]
}

/// The JSON form of the message.
pub fn driver_condition_to_json(value: &DriverCondition) -> (r: Json)
    ensures
        r.deep_view() == JsonView::Object(driver_condition_members(value.deep_view())),
{
    let mut members: Vec<(String, Json)> = Vec::new();
    assert(members.deep_view() =~= Seq::empty());
    push_member(
        &mut members,
        "last_transition_time",
        text_to_json(value.last_transition_time.as_str()),
    );
    push_member(&mut members, "message", text_to_json(value.message.as_str()));
    push_member(&mut members, "reason", text_to_json(value.reason.as_str()));
    push_member(&mut members, "status", text_to_json(value.status.as_str()));
    push_member(&mut members, "type", text_to_json(value.condition_type.as_str()));
    assert(members.deep_view() =~= driver_condition_members(value.deep_view()));
    object_to_json(members)
}

impl Form for DriverCondition {
    open spec fn json_form(content: DriverConditionView) -> JsonView {
        JsonView::Object(driver_condition_members(content))
    }

    fn to_json(&self) -> (r: Json) {
        driver_condition_to_json(self)
    }
}

/// What a driver knows of a sandbox.
#[derive(Debug, PartialEq, Eq)]
pub struct DriverSandboxStatus {
    pub sandbox_name: String,
    pub instance_id: String,
    pub agent_fd: String,
    pub sandbox_fd: String,
    pub conditions: Vec<DriverCondition>,
    pub deleting: bool,
}

/// The content of the message.
#[verifier::ext_equal]
pub struct DriverSandboxStatusView {
    pub sandbox_name: Seq<char>,
    pub instance_id: Seq<char>,
    pub agent_fd: Seq<char>,
    pub sandbox_fd: Seq<char>,
    pub conditions: Seq<DriverConditionView>,
    pub deleting: bool,
}

impl DeepView for DriverSandboxStatus {
    type V = DriverSandboxStatusView;

    open spec fn deep_view(&self) -> DriverSandboxStatusView {
        DriverSandboxStatusView {
            sandbox_name: self.sandbox_name@,
            instance_id: self.instance_id@,
            agent_fd: self.agent_fd@,
            sandbox_fd: self.sandbox_fd@,
            conditions: self.conditions.deep_view(),
            deleting: self.deleting,
        }
    }
}

/// The members of the JSON form, in order.
pub open spec fn driver_sandbox_status_members(content: DriverSandboxStatusView) -> Members {
    seq![
        ("agent_fd"@, JsonView::Text(content.agent_fd)),
        ("conditions"@, messages_form::<DriverCondition>(content.conditions)),
        ("deleting"@, JsonView::Bool(content.deleting)),
        ("instance_id"@, JsonView::Text(content.instance_id)),
        ("sandbox_fd"@, JsonView::Text(content.sandbox_fd)),
        ("sandbox_name"@, JsonView::Text(content.sandbox_name)),
    ]
}

/// The JSON form of the message.
pub fn driver_sandbox_status_to_json(value: &DriverSandboxStatus) -> (r: Json)
    ensures
        r.deep_view() == JsonView::Object(driver_sandbox_status_members(value.deep_view())),
{
    let mut members: Vec<(String, Json)> = Vec::new();
    assert(members.deep_view() =~= Seq::empty());
    push_member(&mut members, "agent_fd", text_to_json(value.agent_fd.as_str()));
    push_member(&mut members, "conditions", messages_to_json(&value.conditions));
    push_member(&mut members, "deleting", bool_to_json(value.deleting));
    push_member(&mut members, "instance_id", text_to_json(value.instance_id.as_str()));
    push_member(&mut members, "sandbox_fd", text_to_json(value.sandbox_fd.as_str()));
    push_member(&mut members, "sandbox_name", text_to_json(value.sandbox_name.as_str()));
    assert(members.deep_view() =~= driver_sandbox_status_members(value.deep_view()));
    object_to_json(members)
}

impl Form for DriverSandboxStatus {
    open spec fn json_form(content: DriverSandboxStatusView) -> JsonView {
        JsonView::Object(driver_sandbox_status_members(content))
    }

    fn to_json(&self) -> (r: Json) {
        driver_sandbox_status_to_json(self)
    }
}

/// A sandbox, as its driver sees it.
#[derive(Debug, PartialEq, Eq)]
pub struct DriverSandbox {
    pub id: String,
    pub name: String,
    pub namespace: String,
    pub spec: Option<DriverSandboxSpec>,
    pub status: Option<DriverSandboxStatus>,
}

/// The content of the message.
#[verifier::ext_equal]
pub struct DriverSandboxView {
    pub id: Seq<char>,
    pub name: Seq<char>,
    pub namespace: Seq<char>,
    pub spec: Option<DriverSandboxSpecView>,
    pub status: Option<DriverSandboxStatusView>,
}

impl DeepView for DriverSandbox {
    type V = DriverSandboxView;

    open spec fn deep_view(&self) -> DriverSandboxView {
        DriverSandboxView {
            id: self.id@,
            name: self.name@,
            namespace: self.namespace@,
            spec: self.spec.deep_view(),
            status: self.status.deep_view(),
        }
    }
}

/// The members of the JSON form, in order.
pub open spec fn driver_sandbox_members(content: DriverSandboxView) -> Members {
    seq![
        ("id"@, JsonView::Text(content.id)),
        ("name"@, JsonView::Text(content.name)),
        ("namespace"@, JsonView::Text(content.namespace)),
        ("spec"@, message_form::<DriverSandboxSpec>(content.spec)),
        ("status"@, message_form::<DriverSandboxStatus>(content.status)),
    ]
}

/// The JSON form of the message.
pub fn driver_sandbox_to_json(value: &DriverSandbox) -> (r: Json)
    ensures
        r.deep_view() == JsonView::Object(driver_sandbox_members(value.deep_view())),
{
    let mut members: Vec<(String, Json)> = Vec::new();
    assert(members.deep_view() =~= Seq::empty());
    push_member(&mut members, "id", text_to_json(value.id.as_str()));
    push_member(&mut members, "name", text_to_json(value.name.as_str()));
    push_member(&mut members, "namespace", text_to_json(value.namespace.as_str()));
    push_member(&mut members, "spec", message_to_json(&value.spec));
    push_member(&mut members, "status", message_to_json(&value.status));
    assert(members.deep_view() =~= driver_sandbox_members(value.deep_view()));
    object_to_json(members)
}

impl Form for DriverSandbox {
    open spec fn json_form(content: DriverSandboxView) -> JsonView {
        JsonView::Object(driver_sandbox_members(content))
    }

    fn to_json(&self) -> (r: Json) {
        driver_sandbox_to_json(self)
    }
}

/// The JSON form tells nothing of a token but whether there is one.
pub proof fn law_tokens_are_hidden(a: DriverSandboxSpecView, b: DriverSandboxSpecView)
    requires
        a == (DriverSandboxSpecView { sandbox_token: a.sandbox_token, ..b }),
        (a.sandbox_token.len() == 0) == (b.sandbox_token.len() == 0),
    ensures
        DriverSandboxSpec::json_form(a) == DriverSandboxSpec::json_form(b),
{
}

} // verus!
