//! Changes of configurations and policies as JSON.

use crate::adapters::fields::{
    all_readable, ascend, bool_field, bool_to_json, expect_object, flag_at, i64_form, i64_in,
    i64_to_json, invalid, json_i64, lemma_in_order, lemma_members_are_found,
    lemma_message_read_back, lemma_messages_read_back, message_at, message_field, message_form,
    message_to_json, messages_at, messages_field, messages_form, messages_to_json, object_in,
    object_to_json, optional_is_readable, push_member, string_field, text_at, text_to_json, u32_at,
    u32_field, u64_at, u64_field, u64_form, u64_to_json, Form, Members, Message,
};
use crate::adapters::policy::{
    L7DenyRule, L7DenyRuleView, L7Rule, L7RuleView, NetworkPolicyRule, NetworkPolicyRuleView,
    SandboxPolicy, SandboxPolicyView,
};
use crate::json::{Json, JsonView};
use crate::ordered;
use crate::outcome::shown;
use crate::status::{Code, Status, StatusView};
use crate::text;
use crate::text::cat2;
use base64::Engine;
use vstd::prelude::*;

verus! {

/// Adds a rule to a policy.
#[derive(Debug, PartialEq, Eq)]
pub struct AddNetworkRule {
    pub rule_name: String,
    pub rule: Option<NetworkPolicyRule>,
}

/// The content of the message.
#[verifier::ext_equal]
pub struct AddNetworkRuleView {
    pub rule_name: Seq<char>,
    pub rule: Option<NetworkPolicyRuleView>,
}

impl DeepView for AddNetworkRule {
    type V = AddNetworkRuleView;

    open spec fn deep_view(&self) -> AddNetworkRuleView {
        AddNetworkRuleView {
            rule_name: self.rule_name@,
            rule: self.rule.deep_view(),
        }
    }
}

/// The members of the JSON form, in order.
pub open spec fn add_network_rule_members(content: AddNetworkRuleView) -> Members {
    seq![
        ("rule"@, message_form::<NetworkPolicyRule>(content.rule)),
        ("rule_name"@, JsonView::Text(content.rule_name)),
    ]
}

/// The message that a JSON value is the form of.
pub open spec fn add_network_rule_read(json: JsonView) -> Result<AddNetworkRuleView, StatusView> {
    match object_in(json, "AddNetworkRule"@) {
        Err(error) => Err(error),
        Ok(object) => {
            let rule = message_at::<NetworkPolicyRule>(object, "rule"@);
            if rule is Err {
                Err(rule->Err_0)
            } else {
                Ok(
                    AddNetworkRuleView {
                        rule_name: text_at(object, "rule_name"@),
                        rule: rule->Ok_0,
                    },
                )
            }
        },
    }
}

/// The JSON form of the message.
pub fn add_network_rule_to_json(value: &AddNetworkRule) -> (r: Json)
    ensures
        r.deep_view() == JsonView::Object(add_network_rule_members(value.deep_view())),
{
    let mut members: Vec<(String, Json)> = Vec::new();
    assert(members.deep_view() =~= Seq::empty());
    push_member(&mut members, "rule", message_to_json(&value.rule));
    push_member(&mut members, "rule_name", text_to_json(value.rule_name.as_str()));
    assert(members.deep_view() =~= add_network_rule_members(value.deep_view()));
    object_to_json(members)
}

impl Form for AddNetworkRule {
    open spec fn json_form(content: AddNetworkRuleView) -> JsonView {
        JsonView::Object(add_network_rule_members(content))
    }

    fn to_json(&self) -> (r: Json) {
        add_network_rule_to_json(self)
    }
}

/// The message that a JSON value is the form of.
pub fn add_network_rule_from_json(value: &Json) -> (r: Result<AddNetworkRule, Status>)
    ensures
        shown(r) == add_network_rule_read(value.deep_view()),
{
    let object = match expect_object(value, "AddNetworkRule") {
        Ok(object) => object,
        Err(error) => {
            return Err(error);
        },
    };
    let rule_name = string_field(object, "rule_name");
    let rule = match message_field::<NetworkPolicyRule>(object, "rule") {
        Ok(rule) => rule,
        Err(error) => {
            return Err(error);
        },
    };
    Ok(AddNetworkRule { rule_name, rule })
}

impl Message for AddNetworkRule {
    open spec fn read(json: JsonView) -> Result<AddNetworkRuleView, StatusView> {
        add_network_rule_read(json)
    }

    open spec fn is_readable(content: AddNetworkRuleView) -> bool {
        optional_is_readable::<NetworkPolicyRule>(content.rule)
    }

    fn from_json(value: &Json) -> (r: Result<AddNetworkRule, Status>) {
        add_network_rule_from_json(value)
    }

    proof fn law_round_trip(content: AddNetworkRuleView) {
        reveal_strlit("rule");
        reveal_strlit("rule_name");
        let members = add_network_rule_members(content);
        lemma_in_order("rule"@, "rule_name"@, 4);
        reveal_with_fuel(ascend, 3);
        lemma_members_are_found(members);
        assert(members[0].0 == "rule"@);
        assert(members[1].0 == "rule_name"@);
        lemma_message_read_back::<NetworkPolicyRule>(members, "rule"@, content.rule);
        assert(add_network_rule_read(JsonView::Object(members))->Ok_0 =~= content);
    }
}

/// Takes an endpoint out of a rule.
#[derive(Debug, PartialEq, Eq)]
pub struct RemoveNetworkEndpoint {
    pub rule_name: String,
    pub host: String,
    pub port: u32,
}

/// The content of the message.
#[verifier::ext_equal]
pub struct RemoveNetworkEndpointView {
    pub rule_name: Seq<char>,
    pub host: Seq<char>,
    pub port: u32,
}

impl DeepView for RemoveNetworkEndpoint {
    type V = RemoveNetworkEndpointView;

    open spec fn deep_view(&self) -> RemoveNetworkEndpointView {
        RemoveNetworkEndpointView {
            rule_name: self.rule_name@,
            host: self.host@,
            port: self.port,
        }
    }
}

/// The members of the JSON form, in order.
pub open spec fn remove_network_endpoint_members(content: RemoveNetworkEndpointView) -> Members {
    seq![
        ("host"@, JsonView::Text(content.host)),
        ("port"@, u64_form(content.port as u64)),
        ("rule_name"@, JsonView::Text(content.rule_name)),
    ]
}

/// The message that a JSON value is the form of.
pub open spec fn remove_network_endpoint_read(json: JsonView) -> Result<RemoveNetworkEndpointView, StatusView> {
    match object_in(json, "RemoveNetworkEndpoint"@) {
        Err(error) => Err(error),
        Ok(object) => {
            let port = u32_at(object, "port"@);
            if port is Err {
                Err(port->Err_0)
            } else {
                Ok(
                    RemoveNetworkEndpointView {
                        rule_name: text_at(object, "rule_name"@),
                        host: text_at(object, "host"@),
                        port: port->Ok_0,
                    },
                )
            }
        },
    }
}

/// The JSON form of the message.
pub fn remove_network_endpoint_to_json(value: &RemoveNetworkEndpoint) -> (r: Json)
    ensures
        r.deep_view() == JsonView::Object(remove_network_endpoint_members(value.deep_view())),
{
    let mut members: Vec<(String, Json)> = Vec::new();
    assert(members.deep_view() =~= Seq::empty());
    push_member(&mut members, "host", text_to_json(value.host.as_str()));
    push_member(&mut members, "port", u64_to_json(value.port as u64));
    push_member(&mut members, "rule_name", text_to_json(value.rule_name.as_str()));
    assert(members.deep_view() =~= remove_network_endpoint_members(value.deep_view()));
    object_to_json(members)
}

impl Form for RemoveNetworkEndpoint {
    open spec fn json_form(content: RemoveNetworkEndpointView) -> JsonView {
        JsonView::Object(remove_network_endpoint_members(content))
    }

    fn to_json(&self) -> (r: Json) {
        remove_network_endpoint_to_json(self)
    }
}

/// The message that a JSON value is the form of.
pub fn remove_network_endpoint_from_json(value: &Json) -> (r: Result<RemoveNetworkEndpoint, Status>)
    ensures
        shown(r) == remove_network_endpoint_read(value.deep_view()),
{
    let object = match expect_object(value, "RemoveNetworkEndpoint") {
        Ok(object) => object,
        Err(error) => {
            return Err(error);
        },
    };
    let rule_name = string_field(object, "rule_name");
    let host = string_field(object, "host");
    let port: u32 = match u32_field(object, "port") {
        Ok(port) => port,
        Err(error) => {
            return Err(error);
        },
    };
    Ok(RemoveNetworkEndpoint { rule_name, host, port })
}

impl Message for RemoveNetworkEndpoint {
    open spec fn read(json: JsonView) -> Result<RemoveNetworkEndpointView, StatusView> {
        remove_network_endpoint_read(json)
    }

    open spec fn is_readable(content: RemoveNetworkEndpointView) -> bool {
        true
    }

    fn from_json(value: &Json) -> (r: Result<RemoveNetworkEndpoint, Status>) {
        remove_network_endpoint_from_json(value)
    }

    proof fn law_round_trip(content: RemoveNetworkEndpointView) {
        reveal_strlit("host");
        reveal_strlit("port");
        reveal_strlit("rule_name");
        let members = remove_network_endpoint_members(content);
        lemma_in_order("host"@, "port"@, 0);
        lemma_in_order("port"@, "rule_name"@, 0);
        reveal_with_fuel(ascend, 4);
        lemma_members_are_found(members);
        assert(members[0].0 == "host"@);
        assert(members[1].0 == "port"@);
        assert(members[2].0 == "rule_name"@);
        assert(remove_network_endpoint_read(JsonView::Object(members))->Ok_0 =~= content);
    }
}

/// Takes a rule out of a policy.
#[derive(Debug, PartialEq, Eq)]
pub struct RemoveNetworkRule {
    pub rule_name: String,
}

/// The content of the message.
#[verifier::ext_equal]
pub struct RemoveNetworkRuleView {
    pub rule_name: Seq<char>,
}

impl DeepView for RemoveNetworkRule {
    type V = RemoveNetworkRuleView;

    open spec fn deep_view(&self) -> RemoveNetworkRuleView {
        RemoveNetworkRuleView {
            rule_name: self.rule_name@,
        }
    }
}

/// The members of the JSON form, in order.
pub open spec fn remove_network_rule_members(content: RemoveNetworkRuleView) -> Members {
    seq![
        ("rule_name"@, JsonView::Text(content.rule_name)),
    ]
}

/// The message that a JSON value is the form of.
pub open spec fn remove_network_rule_read(json: JsonView) -> Result<RemoveNetworkRuleView, StatusView> {
    match object_in(json, "RemoveNetworkRule"@) {
        Err(error) => Err(error),
        Ok(object) => {
            Ok(
                RemoveNetworkRuleView {
                    rule_name: text_at(object, "rule_name"@),
                },
            )
        },
    }
}

/// The JSON form of the message.
pub fn remove_network_rule_to_json(value: &RemoveNetworkRule) -> (r: Json)
    ensures
        r.deep_view() == JsonView::Object(remove_network_rule_members(value.deep_view())),
{
    let mut members: Vec<(String, Json)> = Vec::new();
    assert(members.deep_view() =~= Seq::empty());
    push_member(&mut members, "rule_name", text_to_json(value.rule_name.as_str()));
    assert(members.deep_view() =~= remove_network_rule_members(value.deep_view()));
    object_to_json(members)
}

impl Form for RemoveNetworkRule {
    open spec fn json_form(content: RemoveNetworkRuleView) -> JsonView {
        JsonView::Object(remove_network_rule_members(content))
    }

    fn to_json(&self) -> (r: Json) {
        remove_network_rule_to_json(self)
    }
}

/// The message that a JSON value is the form of.
pub fn remove_network_rule_from_json(value: &Json) -> (r: Result<RemoveNetworkRule, Status>)
    ensures
        shown(r) == remove_network_rule_read(value.deep_view()),
{
    let object = match expect_object(value, "RemoveNetworkRule") {
        Ok(object) => object,
        Err(error) => {
            return Err(error);
        },
    };
    let rule_name = string_field(object, "rule_name");
    Ok(RemoveNetworkRule { rule_name })
}

impl Message for RemoveNetworkRule {
    open spec fn read(json: JsonView) -> Result<RemoveNetworkRuleView, StatusView> {
        remove_network_rule_read(json)
    }

    open spec fn is_readable(content: RemoveNetworkRuleView) -> bool {
        true
    }

    fn from_json(value: &Json) -> (r: Result<RemoveNetworkRule, Status>) {
        remove_network_rule_from_json(value)
    }

    proof fn law_round_trip(content: RemoveNetworkRuleView) {
        reveal_strlit("rule_name");
        let members = remove_network_rule_members(content);
        let names = ordered::keys(members);
        lemma_members_are_found(members);
        assert(members[0].0 == "rule_name"@);
        assert(remove_network_rule_read(JsonView::Object(members))->Ok_0 =~= content);
    }
}

/// Adds to what an endpoint denies.
#[derive(Debug, PartialEq, Eq)]
pub struct AddDenyRules {
    pub host: String,
    pub port: u32,
    pub deny_rules: Vec<L7DenyRule>,
}

/// The content of the message.
#[verifier::ext_equal]
pub struct AddDenyRulesView {
    pub host: Seq<char>,
    pub port: u32,
    pub deny_rules: Seq<L7DenyRuleView>,
}

impl DeepView for AddDenyRules {
    type V = AddDenyRulesView;

    open spec fn deep_view(&self) -> AddDenyRulesView {
        AddDenyRulesView {
            host: self.host@,
            port: self.port,
            deny_rules: self.deny_rules.deep_view(),
        }
    }
}

/// The members of the JSON form, in order.
pub open spec fn add_deny_rules_members(content: AddDenyRulesView) -> Members {
    seq![
        ("deny_rules"@, messages_form::<L7DenyRule>(content.deny_rules)),
        ("host"@, JsonView::Text(content.host)),
        ("port"@, u64_form(content.port as u64)),
    ]
}

/// The message that a JSON value is the form of.
pub open spec fn add_deny_rules_read(json: JsonView) -> Result<AddDenyRulesView, StatusView> {
    match object_in(json, "AddDenyRules"@) {
        Err(error) => Err(error),
        Ok(object) => {
            let port = u32_at(object, "port"@);
            let deny_rules = messages_at::<L7DenyRule>(object, "deny_rules"@);
            if port is Err {
                Err(port->Err_0)
            } else if deny_rules is Err {
                Err(deny_rules->Err_0)
            } else {
                Ok(
                    AddDenyRulesView {
                        host: text_at(object, "host"@),
                        port: port->Ok_0,
                        deny_rules: deny_rules->Ok_0,
                    },
                )
            }
        },
    }
}

/// The JSON form of the message.
pub fn add_deny_rules_to_json(value: &AddDenyRules) -> (r: Json)
    ensures
        r.deep_view() == JsonView::Object(add_deny_rules_members(value.deep_view())),
{
    let mut members: Vec<(String, Json)> = Vec::new();
    assert(members.deep_view() =~= Seq::empty());
    push_member(&mut members, "deny_rules", messages_to_json(&value.deny_rules));
    push_member(&mut members, "host", text_to_json(value.host.as_str()));
    push_member(&mut members, "port", u64_to_json(value.port as u64));
    assert(members.deep_view() =~= add_deny_rules_members(value.deep_view()));
    object_to_json(members)
}

impl Form for AddDenyRules {
    open spec fn json_form(content: AddDenyRulesView) -> JsonView {
        JsonView::Object(add_deny_rules_members(content))
    }

    fn to_json(&self) -> (r: Json) {
        add_deny_rules_to_json(self)
    }
}

/// The message that a JSON value is the form of.
pub fn add_deny_rules_from_json(value: &Json) -> (r: Result<AddDenyRules, Status>)
    ensures
        shown(r) == add_deny_rules_read(value.deep_view()),
{
    let object = match expect_object(value, "AddDenyRules") {
        Ok(object) => object,
        Err(error) => {
            return Err(error);
        },
    };
    let host = string_field(object, "host");
    let port: u32 = match u32_field(object, "port") {
        Ok(port) => port,
        Err(error) => {
            return Err(error);
        },
    };
    let deny_rules = match messages_field::<L7DenyRule>(object, "deny_rules") {
        Ok(deny_rules) => deny_rules,
        Err(error) => {
            return Err(error);
        },
    };
    Ok(AddDenyRules { host, port, deny_rules })
}

impl Message for AddDenyRules {
    open spec fn read(json: JsonView) -> Result<AddDenyRulesView, StatusView> {
        add_deny_rules_read(json)
    }

    open spec fn is_readable(content: AddDenyRulesView) -> bool {
        all_readable::<L7DenyRule>(content.deny_rules)
    }

    fn from_json(value: &Json) -> (r: Result<AddDenyRules, Status>) {
        add_deny_rules_from_json(value)
    }

    proof fn law_round_trip(content: AddDenyRulesView) {
        reveal_strlit("deny_rules");
        reveal_strlit("host");
        reveal_strlit("port");
        let members = add_deny_rules_members(content);
        lemma_in_order("deny_rules"@, "host"@, 0);
        lemma_in_order("host"@, "port"@, 0);
        reveal_with_fuel(ascend, 4);
        lemma_members_are_found(members);
        assert(members[0].0 == "deny_rules"@);
        assert(members[1].0 == "host"@);
        assert(members[2].0 == "port"@);
        lemma_messages_read_back::<L7DenyRule>(members, "deny_rules"@, content.deny_rules);
        assert(add_deny_rules_read(JsonView::Object(members))->Ok_0 =~= content);
    }
}

/// Adds to what an endpoint allows.
#[derive(Debug, PartialEq, Eq)]
pub struct AddAllowRules {
    pub host: String,
    pub port: u32,
    pub rules: Vec<L7Rule>,
}

/// The content of the message.
#[verifier::ext_equal]
pub struct AddAllowRulesView {
    pub host: Seq<char>,
    pub port: u32,
    pub rules: Seq<L7RuleView>,
}

impl DeepView for AddAllowRules {
    type V = AddAllowRulesView;

    open spec fn deep_view(&self) -> AddAllowRulesView {
        AddAllowRulesView {
            host: self.host@,
            port: self.port,
            rules: self.rules.deep_view(),
        }
    }
}

/// The members of the JSON form, in order.
pub open spec fn add_allow_rules_members(content: AddAllowRulesView) -> Members {
    seq![
        ("host"@, JsonView::Text(content.host)),
        ("port"@, u64_form(content.port as u64)),
        ("rules"@, messages_form::<L7Rule>(content.rules)),
    ]
}

/// The message that a JSON value is the form of.
pub open spec fn add_allow_rules_read(json: JsonView) -> Result<AddAllowRulesView, StatusView> {
    match object_in(json, "AddAllowRules"@) {
        Err(error) => Err(error),
        Ok(object) => {
            let port = u32_at(object, "port"@);
            let rules = messages_at::<L7Rule>(object, "rules"@);
            if port is Err {
                Err(port->Err_0)
            } else if rules is Err {
                Err(rules->Err_0)
            } else {
                Ok(
                    AddAllowRulesView {
                        host: text_at(object, "host"@),
                        port: port->Ok_0,
                        rules: rules->Ok_0,
                    },
                )
            }
        },
    }
}

/// The JSON form of the message.
pub fn add_allow_rules_to_json(value: &AddAllowRules) -> (r: Json)
    ensures
        r.deep_view() == JsonView::Object(add_allow_rules_members(value.deep_view())),
{
    let mut members: Vec<(String, Json)> = Vec::new();
    assert(members.deep_view() =~= Seq::empty());
    push_member(&mut members, "host", text_to_json(value.host.as_str()));
    push_member(&mut members, "port", u64_to_json(value.port as u64));
    push_member(&mut members, "rules", messages_to_json(&value.rules));
    assert(members.deep_view() =~= add_allow_rules_members(value.deep_view()));
    object_to_json(members)
}

impl Form for AddAllowRules {
    open spec fn json_form(content: AddAllowRulesView) -> JsonView {
        JsonView::Object(add_allow_rules_members(content))
    }

    fn to_json(&self) -> (r: Json) {
        add_allow_rules_to_json(self)
    }
}

/// The message that a JSON value is the form of.
pub fn add_allow_rules_from_json(value: &Json) -> (r: Result<AddAllowRules, Status>)
    ensures
        shown(r) == add_allow_rules_read(value.deep_view()),
{
    let object = match expect_object(value, "AddAllowRules") {
        Ok(object) => object,
        Err(error) => {
            return Err(error);
        },
    };
    let host = string_field(object, "host");
    let port: u32 = match u32_field(object, "port") {
        Ok(port) => port,
        Err(error) => {
            return Err(error);
        },
    };
    let rules = match messages_field::<L7Rule>(object, "rules") {
        Ok(rules) => rules,
        Err(error) => {
            return Err(error);
        },
    };
    Ok(AddAllowRules { host, port, rules })
}

impl Message for AddAllowRules {
    open spec fn read(json: JsonView) -> Result<AddAllowRulesView, StatusView> {
        add_allow_rules_read(json)
    }

    open spec fn is_readable(content: AddAllowRulesView) -> bool {
        all_readable::<L7Rule>(content.rules)
    }

    fn from_json(value: &Json) -> (r: Result<AddAllowRules, Status>) {
        add_allow_rules_from_json(value)
    }

    proof fn law_round_trip(content: AddAllowRulesView) {
        reveal_strlit("host");
        reveal_strlit("port");
        reveal_strlit("rules");
        let members = add_allow_rules_members(content);
        lemma_in_order("host"@, "port"@, 0);
        lemma_in_order("port"@, "rules"@, 0);
        reveal_with_fuel(ascend, 4);
        lemma_members_are_found(members);
        assert(members[0].0 == "host"@);
        assert(members[1].0 == "port"@);
        assert(members[2].0 == "rules"@);
        lemma_messages_read_back::<L7Rule>(members, "rules"@, content.rules);
        assert(add_allow_rules_read(JsonView::Object(members))->Ok_0 =~= content);
    }
}

/// Takes a program out of a rule.
#[derive(Debug, PartialEq, Eq)]
pub struct RemoveNetworkBinary {
    pub rule_name: String,
    pub binary_path: String,
}

/// The content of the message.
#[verifier::ext_equal]
pub struct RemoveNetworkBinaryView {
    pub rule_name: Seq<char>,
    pub binary_path: Seq<char>,
}

impl DeepView for RemoveNetworkBinary {
    type V = RemoveNetworkBinaryView;

    open spec fn deep_view(&self) -> RemoveNetworkBinaryView {
        RemoveNetworkBinaryView {
            rule_name: self.rule_name@,
            binary_path: self.binary_path@,
        }
    }
}

/// The members of the JSON form, in order.
pub open spec fn remove_network_binary_members(content: RemoveNetworkBinaryView) -> Members {
    seq![
        ("binary_path"@, JsonView::Text(content.binary_path)),
        ("rule_name"@, JsonView::Text(content.rule_name)),
    ]
}

/// The message that a JSON value is the form of.
pub open spec fn remove_network_binary_read(json: JsonView) -> Result<RemoveNetworkBinaryView, StatusView> {
    match object_in(json, "RemoveNetworkBinary"@) {
        Err(error) => Err(error),
        Ok(object) => {
            Ok(
                RemoveNetworkBinaryView {
                    rule_name: text_at(object, "rule_name"@),
                    binary_path: text_at(object, "binary_path"@),
                },
            )
        },
    }
}

/// The JSON form of the message.
pub fn remove_network_binary_to_json(value: &RemoveNetworkBinary) -> (r: Json)
    ensures
        r.deep_view() == JsonView::Object(remove_network_binary_members(value.deep_view())),
{
    let mut members: Vec<(String, Json)> = Vec::new();
    assert(members.deep_view() =~= Seq::empty());
    push_member(&mut members, "binary_path", text_to_json(value.binary_path.as_str()));
    push_member(&mut members, "rule_name", text_to_json(value.rule_name.as_str()));
    assert(members.deep_view() =~= remove_network_binary_members(value.deep_view()));
    object_to_json(members)
}

impl Form for RemoveNetworkBinary {
    open spec fn json_form(content: RemoveNetworkBinaryView) -> JsonView {
        JsonView::Object(remove_network_binary_members(content))
    }

    fn to_json(&self) -> (r: Json) {
        remove_network_binary_to_json(self)
    }
}

/// The message that a JSON value is the form of.
pub fn remove_network_binary_from_json(value: &Json) -> (r: Result<RemoveNetworkBinary, Status>)
    ensures
        shown(r) == remove_network_binary_read(value.deep_view()),
{
    let object = match expect_object(value, "RemoveNetworkBinary") {
        Ok(object) => object,
        Err(error) => {
            return Err(error);
        },
    };
    let rule_name = string_field(object, "rule_name");
    let binary_path = string_field(object, "binary_path");
    Ok(RemoveNetworkBinary { rule_name, binary_path })
}

impl Message for RemoveNetworkBinary {
    open spec fn read(json: JsonView) -> Result<RemoveNetworkBinaryView, StatusView> {
        remove_network_binary_read(json)
    }

    open spec fn is_readable(content: RemoveNetworkBinaryView) -> bool {
        true
    }

    fn from_json(value: &Json) -> (r: Result<RemoveNetworkBinary, Status>) {
        remove_network_binary_from_json(value)
    }

    proof fn law_round_trip(content: RemoveNetworkBinaryView) {
        reveal_strlit("binary_path");
        reveal_strlit("rule_name");
        let members = remove_network_binary_members(content);
        lemma_in_order("binary_path"@, "rule_name"@, 0);
        reveal_with_fuel(ascend, 3);
        lemma_members_are_found(members);
        assert(members[0].0 == "binary_path"@);
        assert(members[1].0 == "rule_name"@);
        assert(remove_network_binary_read(JsonView::Object(members))->Ok_0 =~= content);
    }
}

/// A change of a policy.
#[derive(Debug, PartialEq, Eq)]
pub enum MergeOperation {
    AddRule(AddNetworkRule),
    RemoveEndpoint(RemoveNetworkEndpoint),
    RemoveRule(RemoveNetworkRule),
    AddDenyRules(AddDenyRules),
    AddAllowRules(AddAllowRules),
    RemoveBinary(RemoveNetworkBinary),
}

/// The content of a change.
pub enum MergeOperationView {
    AddRule(AddNetworkRuleView),
    RemoveEndpoint(RemoveNetworkEndpointView),
    RemoveRule(RemoveNetworkRuleView),
    AddDenyRules(AddDenyRulesView),
    AddAllowRules(AddAllowRulesView),
    RemoveBinary(RemoveNetworkBinaryView),
}

/// A change of a policy, which can be left open.
#[derive(Debug, PartialEq, Eq)]
pub struct PolicyMergeOperation {
    pub operation: Option<MergeOperation>,
}

impl DeepView for PolicyMergeOperation {
    type V = Option<MergeOperationView>;

    open spec fn deep_view(&self) -> Option<MergeOperationView> {
        match self.operation {
            None => None,
            Some(MergeOperation::AddRule(value)) => Some(
                MergeOperationView::AddRule(value.deep_view()),
            ),
            Some(MergeOperation::RemoveEndpoint(value)) => Some(
                MergeOperationView::RemoveEndpoint(value.deep_view()),
            ),
            Some(MergeOperation::RemoveRule(value)) => Some(
                MergeOperationView::RemoveRule(value.deep_view()),
            ),
            Some(MergeOperation::AddDenyRules(value)) => Some(
                MergeOperationView::AddDenyRules(value.deep_view()),
            ),
            Some(MergeOperation::AddAllowRules(value)) => Some(
                MergeOperationView::AddAllowRules(value.deep_view()),
            ),
            Some(MergeOperation::RemoveBinary(value)) => Some(
                MergeOperationView::RemoveBinary(value.deep_view()),
            ),
        }
    }
}

/// The members of the JSON form.
pub open spec fn policy_merge_operation_members(content: Option<MergeOperationView>) -> Members {
    match content {
        None => Seq::empty(),
        Some(MergeOperationView::AddRule(value)) => seq![
            ("add_rule"@, AddNetworkRule::json_form(value)),
        ],
        Some(MergeOperationView::RemoveEndpoint(value)) => seq![
            ("remove_endpoint"@, RemoveNetworkEndpoint::json_form(value)),
        ],
        Some(MergeOperationView::RemoveRule(value)) => seq![
            ("remove_rule"@, RemoveNetworkRule::json_form(value)),
        ],
        Some(MergeOperationView::AddDenyRules(value)) => seq![
            ("add_deny_rules"@, AddDenyRules::json_form(value)),
        ],
        Some(MergeOperationView::AddAllowRules(value)) => seq![
            ("add_allow_rules"@, AddAllowRules::json_form(value)),
        ],
        Some(MergeOperationView::RemoveBinary(value)) => seq![
            ("remove_binary"@, RemoveNetworkBinary::json_form(value)),
        ],
    }
}

/// The change that a JSON value is the form of: the first one of its members that
/// names one.
pub open spec fn policy_merge_operation_read(json: JsonView) -> Result<
    Option<MergeOperationView>,
    StatusView,
> {
    match object_in(json, "PolicyMergeOperation"@) {
        Err(error) => Err(error),
        Ok(object) => {
            if let Some(value) = ordered::lookup(object, "add_rule"@) {
                match AddNetworkRule::read(value) {
                    Err(error) => Err(error),
                    Ok(content) => Ok(Some(MergeOperationView::AddRule(content))),
                }
            } else if let Some(value) = ordered::lookup(object, "remove_endpoint"@) {
                match RemoveNetworkEndpoint::read(value) {
                    Err(error) => Err(error),
                    Ok(content) => Ok(Some(MergeOperationView::RemoveEndpoint(content))),
                }
            } else if let Some(value) = ordered::lookup(object, "remove_rule"@) {
                match RemoveNetworkRule::read(value) {
                    Err(error) => Err(error),
                    Ok(content) => Ok(Some(MergeOperationView::RemoveRule(content))),
                }
            } else if let Some(value) = ordered::lookup(object, "add_deny_rules"@) {
                match AddDenyRules::read(value) {
                    Err(error) => Err(error),
                    Ok(content) => Ok(Some(MergeOperationView::AddDenyRules(content))),
                }
            } else if let Some(value) = ordered::lookup(object, "add_allow_rules"@) {
                match AddAllowRules::read(value) {
                    Err(error) => Err(error),
                    Ok(content) => Ok(Some(MergeOperationView::AddAllowRules(content))),
                }
            } else if let Some(value) = ordered::lookup(object, "remove_binary"@) {
                match RemoveNetworkBinary::read(value) {
                    Err(error) => Err(error),
                    Ok(content) => Ok(Some(MergeOperationView::RemoveBinary(content))),
                }
            } else {
                Ok(None)
            }
        },
    }
}

/// The JSON form of the message.
pub fn policy_merge_operation_to_json(value: &PolicyMergeOperation) -> (r: Json)
    ensures
        r.deep_view() == JsonView::Object(policy_merge_operation_members(value.deep_view())),
{
    let mut members: Vec<(String, Json)> = Vec::new();
    assert(members.deep_view() =~= Seq::empty());
    match &value.operation {
        None => {},
        Some(MergeOperation::AddRule(value)) => {
            push_member(&mut members, "add_rule", add_network_rule_to_json(value));
        },
        Some(MergeOperation::RemoveEndpoint(value)) => {
            push_member(&mut members, "remove_endpoint", remove_network_endpoint_to_json(value));
        },
        Some(MergeOperation::RemoveRule(value)) => {
            push_member(&mut members, "remove_rule", remove_network_rule_to_json(value));
        },
        Some(MergeOperation::AddDenyRules(value)) => {
            push_member(&mut members, "add_deny_rules", add_deny_rules_to_json(value));
        },
        Some(MergeOperation::AddAllowRules(value)) => {
            push_member(&mut members, "add_allow_rules", add_allow_rules_to_json(value));
        },
        Some(MergeOperation::RemoveBinary(value)) => {
            push_member(&mut members, "remove_binary", remove_network_binary_to_json(value));
        },
    }
    assert(members.deep_view() =~= policy_merge_operation_members(value.deep_view()));
    object_to_json(members)
}

/// The message that a JSON value is the form of.
pub fn policy_merge_operation_from_json(value: &Json) -> (r: Result<PolicyMergeOperation, Status>)
    ensures
        shown(r) == policy_merge_operation_read(value.deep_view()),
{
    let object = match expect_object(value, "PolicyMergeOperation") {
        Ok(object) => object,
        Err(error) => {
            return Err(error);
        },
    };
    if let Some(value) = ordered::get(object, "add_rule") {
        return match add_network_rule_from_json(value) {
            Err(error) => Err(error),
            Ok(content) => Ok(
                PolicyMergeOperation { operation: Some(MergeOperation::AddRule(content)) },
            ),
        };
    }
    if let Some(value) = ordered::get(object, "remove_endpoint") {
        return match remove_network_endpoint_from_json(value) {
            Err(error) => Err(error),
            Ok(content) => Ok(
                PolicyMergeOperation { operation: Some(MergeOperation::RemoveEndpoint(content)) },
            ),
        };
    }
    if let Some(value) = ordered::get(object, "remove_rule") {
        return match remove_network_rule_from_json(value) {
            Err(error) => Err(error),
            Ok(content) => Ok(
                PolicyMergeOperation { operation: Some(MergeOperation::RemoveRule(content)) },
            ),
        };
    }
    if let Some(value) = ordered::get(object, "add_deny_rules") {
        return match add_deny_rules_from_json(value) {
            Err(error) => Err(error),
            Ok(content) => Ok(
                PolicyMergeOperation { operation: Some(MergeOperation::AddDenyRules(content)) },
            ),
        };
    }
    if let Some(value) = ordered::get(object, "add_allow_rules") {
        return match add_allow_rules_from_json(value) {
            Err(error) => Err(error),
            Ok(content) => Ok(
                PolicyMergeOperation { operation: Some(MergeOperation::AddAllowRules(content)) },
            ),
        };
    }
    if let Some(value) = ordered::get(object, "remove_binary") {
        return match remove_network_binary_from_json(value) {
            Err(error) => Err(error),
            Ok(content) => Ok(
                PolicyMergeOperation { operation: Some(MergeOperation::RemoveBinary(content)) },
            ),
        };
    }
    Ok(PolicyMergeOperation { operation: None })
}

impl Form for PolicyMergeOperation {
    open spec fn json_form(content: Option<MergeOperationView>) -> JsonView {
        JsonView::Object(policy_merge_operation_members(content))
    }

    fn to_json(&self) -> (r: Json) {
        policy_merge_operation_to_json(self)
    }
}

impl Message for PolicyMergeOperation {
    open spec fn read(json: JsonView) -> Result<Option<MergeOperationView>, StatusView> {
        policy_merge_operation_read(json)
    }

    open spec fn is_readable(content: Option<MergeOperationView>) -> bool {
        match content {
            None => true,
            Some(MergeOperationView::AddRule(value)) => AddNetworkRule::is_readable(value),
            Some(MergeOperationView::RemoveEndpoint(value)) => RemoveNetworkEndpoint::is_readable(value),
            Some(MergeOperationView::RemoveRule(value)) => RemoveNetworkRule::is_readable(value),
            Some(MergeOperationView::AddDenyRules(value)) => AddDenyRules::is_readable(value),
            Some(MergeOperationView::AddAllowRules(value)) => AddAllowRules::is_readable(value),
            Some(MergeOperationView::RemoveBinary(value)) => RemoveNetworkBinary::is_readable(value),
        }
    }

    fn from_json(value: &Json) -> (r: Result<PolicyMergeOperation, Status>) {
        policy_merge_operation_from_json(value)
    }

    proof fn law_round_trip(content: Option<MergeOperationView>) {
        reveal_strlit("add_rule");
        reveal_strlit("remove_endpoint");
        reveal_strlit("remove_rule");
        reveal_strlit("add_deny_rules");
        reveal_strlit("add_allow_rules");
        reveal_strlit("remove_binary");
        reveal_with_fuel(ordered::lookup, 2);
        let members = policy_merge_operation_members(content);
        assert(members.len() == 1 ==> members.skip(1) =~= Seq::empty());
        match content {
            None => {},
            Some(MergeOperationView::AddRule(value)) => {
                AddNetworkRule::law_round_trip(value);
            },
            Some(MergeOperationView::RemoveEndpoint(value)) => {
                RemoveNetworkEndpoint::law_round_trip(value);
            },
            Some(MergeOperationView::RemoveRule(value)) => {
                RemoveNetworkRule::law_round_trip(value);
            },
            Some(MergeOperationView::AddDenyRules(value)) => {
                AddDenyRules::law_round_trip(value);
            },
            Some(MergeOperationView::AddAllowRules(value)) => {
                AddAllowRules::law_round_trip(value);
            },
            Some(MergeOperationView::RemoveBinary(value)) => {
                RemoveNetworkBinary::law_round_trip(value);
            },
        }
        assert("add_rule"@.len() != "remove_endpoint"@.len());
        assert("add_rule"@.len() != "remove_rule"@.len());
        assert("remove_endpoint"@.len() != "remove_rule"@.len());
        assert("add_rule"@.len() != "add_deny_rules"@.len());
        assert("remove_endpoint"@.len() != "add_deny_rules"@.len());
        assert("remove_rule"@.len() != "add_deny_rules"@.len());
        assert("add_rule"@.len() != "add_allow_rules"@.len());
        assert("remove_endpoint"@[0] != "add_allow_rules"@[0]);
        assert("remove_rule"@.len() != "add_allow_rules"@.len());
        assert("add_deny_rules"@.len() != "add_allow_rules"@.len());
        assert("add_rule"@.len() != "remove_binary"@.len());
        assert("remove_endpoint"@.len() != "remove_binary"@.len());
        assert("remove_rule"@.len() != "remove_binary"@.len());
        assert("add_deny_rules"@.len() != "remove_binary"@.len());
        assert("add_allow_rules"@.len() != "remove_binary"@.len());
    }
}

/// A setting's value.
#[derive(Debug, PartialEq, Eq)]
pub enum SettingKind {
    Text(String),
    Flag(bool),
    Number(i64),
    Bytes(Vec<u8>),
}

/// The content of a setting's value.
pub enum SettingKindView {
    Text(Seq<char>),
    Flag(bool),
    Number(i64),
    Bytes(Seq<u8>),
}

/// A setting's value, which can be left open.
#[derive(Debug, PartialEq, Eq)]
pub struct SettingValue {
    pub value: Option<SettingKind>,
}

impl DeepView for SettingValue {
    type V = Option<SettingKindView>;

    open spec fn deep_view(&self) -> Option<SettingKindView> {
        match self.value {
            None => None,
            Some(SettingKind::Text(value)) => Some(SettingKindView::Text(value@)),
            Some(SettingKind::Flag(value)) => Some(SettingKindView::Flag(value)),
            Some(SettingKind::Number(value)) => Some(SettingKindView::Number(value)),
            Some(SettingKind::Bytes(value)) => Some(SettingKindView::Bytes(value@)),
        }
    }
}

/// The content of what decoding bytes gave.
pub open spec fn decoded_view(decoded: Result<Vec<u8>, String>) -> Result<Seq<u8>, Seq<char>> {
    match decoded {
        Ok(bytes) => Ok(bytes@),
        Err(problem) => Err(problem@),
    }
}

/// The Base64 notation of bytes, with the standard alphabet and padding.
pub uninterp spec fn base64_text(bytes: Seq<u8>) -> Seq<char>;

/// The bytes of a Base64 notation, or what is said of a text that is none.
pub uninterp spec fn base64_bytes(text: Seq<char>) -> Result<Seq<u8>, Seq<char>>;

/// A text is a Base64 notation of bytes.
pub open spec fn stands_for(text: Seq<char>, bytes: Seq<u8>) -> bool {
    base64_bytes(text) == Ok::<Seq<u8>, Seq<char>>(bytes)
}

/// `base64::Engine::encode` with `base64::engine::general_purpose::STANDARD`: the
/// notation of bytes, from which the bytes can be decoded.
#[verifier::external_body]
fn base64_encode(bytes: &Vec<u8>) -> (r: String)
    ensures
        r@ == base64_text(bytes@),
        stands_for(r@, bytes@),
{
    base64::engine::general_purpose::STANDARD.encode(bytes)
}

/// `base64::Engine::decode` with `base64::engine::general_purpose::STANDARD`: the
/// bytes of a notation. What it gives depends on the text alone.
#[verifier::external_body]
fn base64_decode(text: &str) -> (r: Result<Vec<u8>, String>)
    ensures
        decoded_view(r) == base64_bytes(text@),
{
    base64::engine::general_purpose::STANDARD.decode(text).map_err(|error| error.to_string())
}

/// The members of the JSON form.
pub open spec fn setting_value_members(content: Option<SettingKindView>) -> Members {
    match content {
        None => Seq::empty(),
        Some(SettingKindView::Text(value)) => seq![("string_value"@, JsonView::Text(value))],
        Some(SettingKindView::Flag(value)) => seq![("bool_value"@, JsonView::Bool(value))],
        Some(SettingKindView::Number(value)) => seq![("int_value"@, i64_form(value))],
        Some(SettingKindView::Bytes(value)) => seq![
            ("bytes_value"@, JsonView::Text(base64_text(value))),
        ],
    }
}

/// The text that a JSON value is, or an empty one.
pub open spec fn text_in(json: JsonView) -> Seq<char> {
    match json {
        JsonView::Text(value) => value,
        _ => Seq::empty(),
    }
}

/// The value of a setting, given what decoding its bytes gave, where it has bytes.
pub open spec fn setting_value_decoded(
    object: Members,
    decoded: Result<Seq<u8>, Seq<char>>,
) -> Result<Option<SettingKindView>, StatusView> {
    if let Some(value) = ordered::lookup(object, "string_value"@) {
        Ok(Some(SettingKindView::Text(text_in(value))))
    } else if let Some(value) = ordered::lookup(object, "bool_value"@) {
        Ok(Some(SettingKindView::Flag(value matches JsonView::Bool(flag) && flag)))
    } else if let Some(value) = ordered::lookup(object, "int_value"@) {
        match i64_in(value, "int_value"@) {
            Ok(number) => Ok(Some(SettingKindView::Number(number))),
            Err(error) => Err(error),
        }
    } else if let Some(value) = ordered::lookup(object, "bytes_value"@) {
        match decoded {
            Ok(bytes) => Ok(Some(SettingKindView::Bytes(bytes))),
            Err(problem) => Err(invalid("invalid bytes_value: "@ + problem)),
        }
    } else {
        Ok(None)
    }
}

/// The text of the bytes of a setting, where it has bytes.
pub open spec fn bytes_text(object: Members) -> Seq<char> {
    match ordered::lookup(object, "bytes_value"@) {
        Some(value) => text_in(value),
        None => Seq::empty(),
    }
}

/// The setting's value that a JSON value is the form of.
pub open spec fn setting_value_read(json: JsonView) -> Result<Option<SettingKindView>, StatusView> {
    match object_in(json, "SettingValue"@) {
        Err(error) => Err(error),
        Ok(object) => setting_value_decoded(object, base64_bytes(bytes_text(object))),
    }
}

/// The JSON form of the message. The message is read back from it.
pub fn setting_value_to_json(value: &SettingValue) -> (r: Json)
    ensures
        r.deep_view() == JsonView::Object(setting_value_members(value.deep_view())),
        setting_value_read(r.deep_view()) == Ok::<Option<SettingKindView>, StatusView>(
            value.deep_view(),
        ),
{
    let mut members: Vec<(String, Json)> = Vec::new();
    assert(members.deep_view() =~= Seq::empty());
    match &value.value {
        None => {},
        Some(SettingKind::Text(value)) => {
            push_member(&mut members, "string_value", text_to_json(value.as_str()));
        },
        Some(SettingKind::Flag(value)) => {
            push_member(&mut members, "bool_value", bool_to_json(*value));
        },
        Some(SettingKind::Number(value)) => {
            push_member(&mut members, "int_value", i64_to_json(*value));
        },
        Some(SettingKind::Bytes(value)) => {
            let notation = base64_encode(value);
            push_member(&mut members, "bytes_value", text_to_json(notation.as_str()));
        },
    }
    proof {
        assert(members.deep_view() =~= setting_value_members(value.deep_view()));
        SettingValue::law_round_trip(value.deep_view());
    }
    object_to_json(members)
}

fn json_text(value: &Json) -> (r: String)
    ensures
        r@ == text_in(value.deep_view()),
{
    match value {
        Json::Text(text) => text.clone(),
        _ => {
            let empty = String::new();
            assert(empty@ =~= Seq::empty());
            empty
        },
    }
}

/// The value of a setting, given what decoding its bytes gave. There is nothing to
/// decode where it has no bytes.
pub fn decoded_setting_value(
    object: &Vec<(String, Json)>,
    decoded: Result<Vec<u8>, String>,
) -> (r: Result<SettingValue, Status>)
    ensures
        shown(r) == setting_value_decoded(object.deep_view(), decoded_view(decoded)),
{
    if let Some(value) = ordered::get(object, "string_value") {
        return Ok(SettingValue { value: Some(SettingKind::Text(json_text(value))) });
    }
    if let Some(value) = ordered::get(object, "bool_value") {
        let flag = match value {
            Json::Bool(flag) => *flag,
            _ => false,
        };
        return Ok(SettingValue { value: Some(SettingKind::Flag(flag)) });
    }
    if let Some(value) = ordered::get(object, "int_value") {
        return match json_i64(value, "int_value") {
            Ok(number) => Ok(SettingValue { value: Some(SettingKind::Number(number)) }),
            Err(error) => Err(error),
        };
    }
    if ordered::get(object, "bytes_value").is_some() {
        return match decoded {
            Ok(bytes) => Ok(SettingValue { value: Some(SettingKind::Bytes(bytes)) }),
            Err(problem) => Err(
                Status::new(
                    Code::InvalidArgument,
                    cat2("invalid bytes_value: ", problem.as_str()),
                ),
            ),
        };
    }
    Ok(SettingValue { value: None })
}

/// The message that a JSON value is the form of.
pub fn setting_value_from_json(value: &Json) -> (r: Result<SettingValue, Status>)
    ensures
        shown(r) == setting_value_read(value.deep_view()),
{
    let object = match expect_object(value, "SettingValue") {
        Ok(object) => object,
        Err(error) => {
            return Err(error);
        },
    };
    let notation = match ordered::get(object, "bytes_value") {
        Some(value) => json_text(value),
        None => {
            let empty = String::new();
            assert(empty@ =~= Seq::empty());
            empty
        },
    };
    let decoded = base64_decode(notation.as_str());
    decoded_setting_value(object, decoded)
}

impl Form for SettingValue {
    open spec fn json_form(content: Option<SettingKindView>) -> JsonView {
        JsonView::Object(setting_value_members(content))
    }

    fn to_json(&self) -> (r: Json) {
        setting_value_to_json(self)
    }
}

impl Message for SettingValue {
    open spec fn read(json: JsonView) -> Result<Option<SettingKindView>, StatusView> {
        setting_value_read(json)
    }

    open spec fn is_readable(content: Option<SettingKindView>) -> bool {
        content matches Some(SettingKindView::Bytes(bytes)) ==> stands_for(
            base64_text(bytes),
            bytes,
        )
    }

    fn from_json(value: &Json) -> (r: Result<SettingValue, Status>) {
        setting_value_from_json(value)
    }

    proof fn law_round_trip(content: Option<SettingKindView>) {
        reveal_strlit("string_value");
        reveal_strlit("bool_value");
        reveal_strlit("int_value");
        reveal_strlit("bytes_value");
        reveal_with_fuel(ordered::lookup, 2);
        let members = setting_value_members(content);
        assert(members.len() == 1 ==> members.skip(1) =~= Seq::empty());
        assert("string_value"@.len() == 12);
        assert("bool_value"@.len() == 10);
        assert("int_value"@.len() == 9);
        assert("bytes_value"@.len() == 11);
    }
}

/// A request to change the configuration of a gateway or a sandbox.
#[derive(Debug, PartialEq, Eq)]
pub struct UpdateConfigRequest {
    pub name: String,
    pub policy: Option<SandboxPolicy>,
    pub setting_key: String,
    pub setting_value: Option<SettingValue>,
    pub delete_setting: bool,
    pub is_global: bool,
    pub merge_operations: Vec<PolicyMergeOperation>,
    pub expected_resource_version: u64,
}

/// The content of the message.
#[verifier::ext_equal]
pub struct UpdateConfigRequestView {
    pub name: Seq<char>,
    pub policy: Option<SandboxPolicyView>,
    pub setting_key: Seq<char>,
    pub setting_value: Option<Option<SettingKindView>>,
    pub delete_setting: bool,
    pub is_global: bool,
    pub merge_operations: Seq<Option<MergeOperationView>>,
    pub expected_resource_version: u64,
}

impl DeepView for UpdateConfigRequest {
    type V = UpdateConfigRequestView;

    open spec fn deep_view(&self) -> UpdateConfigRequestView {
        UpdateConfigRequestView {
            name: self.name@,
            policy: self.policy.deep_view(),
            setting_key: self.setting_key@,
            setting_value: self.setting_value.deep_view(),
            delete_setting: self.delete_setting,
            is_global: self.is_global,
            merge_operations: self.merge_operations.deep_view(),
            expected_resource_version: self.expected_resource_version,
        }
    }
}

/// The members of the JSON form, in order.
pub open spec fn update_config_request_members(content: UpdateConfigRequestView) -> Members {
    seq![
        ("delete_setting"@, JsonView::Bool(content.delete_setting)),
        ("expected_resource_version"@, u64_form(content.expected_resource_version)),
        ("global"@, JsonView::Bool(content.is_global)),
        ("merge_operations"@, messages_form::<PolicyMergeOperation>(content.merge_operations)),
        ("name"@, JsonView::Text(content.name)),
        ("policy"@, message_form::<SandboxPolicy>(content.policy)),
        ("setting_key"@, JsonView::Text(content.setting_key)),
        ("setting_value"@, message_form::<SettingValue>(content.setting_value)),
    ]
}

/// The message that a JSON value is the form of.
pub open spec fn update_config_request_read(json: JsonView) -> Result<UpdateConfigRequestView, StatusView> {
    match object_in(json, "UpdateConfigRequest"@) {
        Err(error) => Err(error),
        Ok(object) => {
            let policy = message_at::<SandboxPolicy>(object, "policy"@);
            let setting_value = message_at::<SettingValue>(object, "setting_value"@);
            let merge_operations = messages_at::<PolicyMergeOperation>(object, "merge_operations"@);
            let expected_resource_version = u64_at(object, "expected_resource_version"@);
            if policy is Err {
                Err(policy->Err_0)
            } else if setting_value is Err {
                Err(setting_value->Err_0)
            } else if merge_operations is Err {
                Err(merge_operations->Err_0)
            } else if expected_resource_version is Err {
                Err(expected_resource_version->Err_0)
            } else {
                Ok(
                    UpdateConfigRequestView {
                        name: text_at(object, "name"@),
                        policy: policy->Ok_0,
                        setting_key: text_at(object, "setting_key"@),
                        setting_value: setting_value->Ok_0,
                        delete_setting: flag_at(object, "delete_setting"@),
                        is_global: flag_at(object, "global"@),
                        merge_operations: merge_operations->Ok_0,
                        expected_resource_version: expected_resource_version->Ok_0,
                    },
                )
            }
        },
    }
}

/// The JSON form of the message.
pub fn update_config_request_to_json(value: &UpdateConfigRequest) -> (r: Json)
    ensures
        r.deep_view() == JsonView::Object(update_config_request_members(value.deep_view())),
{
    let mut members: Vec<(String, Json)> = Vec::new();
    assert(members.deep_view() =~= Seq::empty());
    push_member(&mut members, "delete_setting", bool_to_json(value.delete_setting));
    push_member(
        &mut members,
        "expected_resource_version",
        u64_to_json(value.expected_resource_version),
    );
    push_member(&mut members, "global", bool_to_json(value.is_global));
    push_member(&mut members, "merge_operations", messages_to_json(&value.merge_operations));
    push_member(&mut members, "name", text_to_json(value.name.as_str()));
    push_member(&mut members, "policy", message_to_json(&value.policy));
    push_member(&mut members, "setting_key", text_to_json(value.setting_key.as_str()));
    push_member(&mut members, "setting_value", message_to_json(&value.setting_value));
    assert(members.deep_view() =~= update_config_request_members(value.deep_view()));
    object_to_json(members)
}

impl Form for UpdateConfigRequest {
    open spec fn json_form(content: UpdateConfigRequestView) -> JsonView {
        JsonView::Object(update_config_request_members(content))
    }

    fn to_json(&self) -> (r: Json) {
        update_config_request_to_json(self)
    }
}

/// The message that a JSON value is the form of.
pub fn update_config_request_from_json(value: &Json) -> (r: Result<UpdateConfigRequest, Status>)
    ensures
        shown(r) == update_config_request_read(value.deep_view()),
{
    let object = match expect_object(value, "UpdateConfigRequest") {
        Ok(object) => object,
        Err(error) => {
            return Err(error);
        },
    };
    let name = string_field(object, "name");
    let policy = match message_field::<SandboxPolicy>(object, "policy") {
        Ok(policy) => policy,
        Err(error) => {
            return Err(error);
        },
    };
    let setting_key = string_field(object, "setting_key");
    let setting_value = match message_field::<SettingValue>(object, "setting_value") {
        Ok(setting_value) => setting_value,
        Err(error) => {
            return Err(error);
        },
    };
    let delete_setting = bool_field(object, "delete_setting");
    let is_global = bool_field(object, "global");
    let merge_operations = match messages_field::<PolicyMergeOperation>(object, "merge_operations") {
        Ok(merge_operations) => merge_operations,
        Err(error) => {
            return Err(error);
        },
    };
    let expected_resource_version: u64 = match u64_field(object, "expected_resource_version") {
        Ok(expected_resource_version) => expected_resource_version,
        Err(error) => {
            return Err(error);
        },
    };
    Ok(
        UpdateConfigRequest {
            name,
            policy,
            setting_key,
            setting_value,
            delete_setting,
            is_global,
            merge_operations,
            expected_resource_version,
        },
    )
}

impl Message for UpdateConfigRequest {
    open spec fn read(json: JsonView) -> Result<UpdateConfigRequestView, StatusView> {
        update_config_request_read(json)
    }

    open spec fn is_readable(content: UpdateConfigRequestView) -> bool {
        &&& optional_is_readable::<SandboxPolicy>(content.policy)
        &&& optional_is_readable::<SettingValue>(content.setting_value)
        &&& all_readable::<PolicyMergeOperation>(content.merge_operations)
    }

    fn from_json(value: &Json) -> (r: Result<UpdateConfigRequest, Status>) {
        update_config_request_from_json(value)
    }

    proof fn law_round_trip(content: UpdateConfigRequestView) {
        reveal_strlit("delete_setting");
        reveal_strlit("expected_resource_version");
        reveal_strlit("global");
        reveal_strlit("merge_operations");
        reveal_strlit("name");
        reveal_strlit("policy");
        reveal_strlit("setting_key");
        reveal_strlit("setting_value");
        let members = update_config_request_members(content);
        lemma_in_order("delete_setting"@, "expected_resource_version"@, 0);
        lemma_in_order("expected_resource_version"@, "global"@, 0);
        lemma_in_order("global"@, "merge_operations"@, 0);
        lemma_in_order("merge_operations"@, "name"@, 0);
        lemma_in_order("name"@, "policy"@, 0);
        lemma_in_order("policy"@, "setting_key"@, 0);
        lemma_in_order("setting_key"@, "setting_value"@, 8);
        reveal_with_fuel(ascend, 9);
        lemma_members_are_found(members);
        assert(members[0].0 == "delete_setting"@);
        assert(members[1].0 == "expected_resource_version"@);
        assert(members[2].0 == "global"@);
        assert(members[3].0 == "merge_operations"@);
        assert(members[4].0 == "name"@);
        assert(members[5].0 == "policy"@);
        assert(members[6].0 == "setting_key"@);
        assert(members[7].0 == "setting_value"@);
        lemma_message_read_back::<SandboxPolicy>(members, "policy"@, content.policy);
        lemma_message_read_back::<SettingValue>(members, "setting_value"@, content.setting_value);
        lemma_messages_read_back::<PolicyMergeOperation>(members, "merge_operations"@, content.merge_operations);
        assert(update_config_request_read(JsonView::Object(members))->Ok_0 =~= content);
    }
}

} // verus!
