//! Policies of sandboxes as JSON.

use crate::adapters::fields::{
    all_readable, ascend, bool_field, bool_to_json, expect_object, flag_at, lemma_in_order,
    lemma_members_are_found, lemma_message_map_read_back, lemma_message_read_back,
    lemma_messages_read_back, lemma_texts_read_back, lemma_u32s_read_back, map_is_readable,
    message_at, message_field, message_form, message_map_at, message_map_field, message_map_form,
    message_map_to_json, message_to_json, messages_at, messages_field, messages_form,
    messages_to_json, object_in, object_to_json, optional_is_readable, push_member,
    string_array_field, string_field, text_at, text_to_json, texts_at, texts_form, texts_to_json,
    u32_array_field, u32_at, u32_field, u32s_at, u32s_form, u32s_to_json, u64_form, u64_to_json,
    Form, Members, Message,
};
use crate::json::{Json, JsonView};
use crate::ordered;
use crate::outcome::shown;
use crate::status::{Status, StatusView};
use vstd::prelude::*;

verus! {

/// How the value of a query parameter is matched.
#[derive(Debug, PartialEq, Eq)]
pub struct L7QueryMatcher {
    pub glob: String,
    pub any: Vec<String>,
}

/// The content of the message.
#[verifier::ext_equal]
pub struct L7QueryMatcherView {
    pub glob: Seq<char>,
    pub any: Seq<Seq<char>>,
}

impl DeepView for L7QueryMatcher {
    type V = L7QueryMatcherView;

    open spec fn deep_view(&self) -> L7QueryMatcherView {
        L7QueryMatcherView {
            glob: self.glob@,
            any: self.any.deep_view(),
        }
    }
}

/// The members of the JSON form, in order.
pub open spec fn l7_query_matcher_members(content: L7QueryMatcherView) -> Members {
    seq![
        ("any"@, texts_form(content.any)),
        ("glob"@, JsonView::Text(content.glob)),
    ]
}

/// The message that a JSON value is the form of.
pub open spec fn l7_query_matcher_read(json: JsonView) -> Result<L7QueryMatcherView, StatusView> {
    match object_in(json, "L7QueryMatcher"@) {
        Err(error) => Err(error),
        Ok(object) => {
            let any = texts_at(object, "any"@);
            if any is Err {
                Err(any->Err_0)
            } else {
                Ok(
                    L7QueryMatcherView {
                        glob: text_at(object, "glob"@),
                        any: any->Ok_0,
                    },
                )
            }
        },
    }
}

/// The JSON form of the message.
pub fn l7_query_matcher_to_json(value: &L7QueryMatcher) -> (r: Json)
    ensures
        r.deep_view() == JsonView::Object(l7_query_matcher_members(value.deep_view())),
{
    let mut members: Vec<(String, Json)> = Vec::new();
    assert(members.deep_view() =~= Seq::empty());
    push_member(&mut members, "any", texts_to_json(&value.any));
    push_member(&mut members, "glob", text_to_json(value.glob.as_str()));
    assert(members.deep_view() =~= l7_query_matcher_members(value.deep_view()));
    object_to_json(members)
}

impl Form for L7QueryMatcher {
    open spec fn json_form(content: L7QueryMatcherView) -> JsonView {
        JsonView::Object(l7_query_matcher_members(content))
    }

    fn to_json(&self) -> (r: Json) {
        l7_query_matcher_to_json(self)
    }
}

/// The message that a JSON value is the form of.
pub fn l7_query_matcher_from_json(value: &Json) -> (r: Result<L7QueryMatcher, Status>)
    ensures
        shown(r) == l7_query_matcher_read(value.deep_view()),
{
    let object = match expect_object(value, "L7QueryMatcher") {
        Ok(object) => object,
        Err(error) => {
            return Err(error);
        },
    };
    let glob = string_field(object, "glob");
    let any = match string_array_field(object, "any") {
        Ok(any) => any,
        Err(error) => {
            return Err(error);
        },
    };
    Ok(L7QueryMatcher { glob, any })
}

impl Message for L7QueryMatcher {
    open spec fn read(json: JsonView) -> Result<L7QueryMatcherView, StatusView> {
        l7_query_matcher_read(json)
    }

    open spec fn is_readable(content: L7QueryMatcherView) -> bool {
        true
    }

    fn from_json(value: &Json) -> (r: Result<L7QueryMatcher, Status>) {
        l7_query_matcher_from_json(value)
    }

    proof fn law_round_trip(content: L7QueryMatcherView) {
        reveal_strlit("any");
        reveal_strlit("glob");
        let members = l7_query_matcher_members(content);
        lemma_in_order("any"@, "glob"@, 0);
        reveal_with_fuel(ascend, 3);
        lemma_members_are_found(members);
        assert(members[0].0 == "any"@);
        assert(members[1].0 == "glob"@);
        lemma_texts_read_back(members, "any"@, content.any);
        assert(l7_query_matcher_read(JsonView::Object(members))->Ok_0 =~= content);
    }
}

/// A GraphQL operation.
#[derive(Debug, PartialEq, Eq)]
pub struct GraphqlOperation {
    pub operation_type: String,
    pub operation_name: String,
    pub fields: Vec<String>,
}

/// The content of the message.
#[verifier::ext_equal]
pub struct GraphqlOperationView {
    pub operation_type: Seq<char>,
    pub operation_name: Seq<char>,
    pub fields: Seq<Seq<char>>,
}

impl DeepView for GraphqlOperation {
    type V = GraphqlOperationView;

    open spec fn deep_view(&self) -> GraphqlOperationView {
        GraphqlOperationView {
            operation_type: self.operation_type@,
            operation_name: self.operation_name@,
            fields: self.fields.deep_view(),
        }
    }
}

/// The members of the JSON form, in order.
pub open spec fn graphql_operation_members(content: GraphqlOperationView) -> Members {
    seq![
        ("fields"@, texts_form(content.fields)),
        ("operation_name"@, JsonView::Text(content.operation_name)),
        ("operation_type"@, JsonView::Text(content.operation_type)),
    ]
}

/// The message that a JSON value is the form of.
pub open spec fn graphql_operation_read(json: JsonView) -> Result<GraphqlOperationView, StatusView> {
    match object_in(json, "GraphqlOperation"@) {
        Err(error) => Err(error),
        Ok(object) => {
            let fields = texts_at(object, "fields"@);
            if fields is Err {
                Err(fields->Err_0)
            } else {
                Ok(
                    GraphqlOperationView {
                        operation_type: text_at(object, "operation_type"@),
                        operation_name: text_at(object, "operation_name"@),
                        fields: fields->Ok_0,
                    },
                )
            }
        },
    }
}

/// The JSON form of the message.
pub fn graphql_operation_to_json(value: &GraphqlOperation) -> (r: Json)
    ensures
        r.deep_view() == JsonView::Object(graphql_operation_members(value.deep_view())),
{
    let mut members: Vec<(String, Json)> = Vec::new();
    assert(members.deep_view() =~= Seq::empty());
    push_member(&mut members, "fields", texts_to_json(&value.fields));
    push_member(&mut members, "operation_name", text_to_json(value.operation_name.as_str()));
    push_member(&mut members, "operation_type", text_to_json(value.operation_type.as_str()));
    assert(members.deep_view() =~= graphql_operation_members(value.deep_view()));
    object_to_json(members)
}

impl Form for GraphqlOperation {
    open spec fn json_form(content: GraphqlOperationView) -> JsonView {
        JsonView::Object(graphql_operation_members(content))
    }

    fn to_json(&self) -> (r: Json) {
        graphql_operation_to_json(self)
    }
}

/// The message that a JSON value is the form of.
pub fn graphql_operation_from_json(value: &Json) -> (r: Result<GraphqlOperation, Status>)
    ensures
        shown(r) == graphql_operation_read(value.deep_view()),
{
    let object = match expect_object(value, "GraphqlOperation") {
        Ok(object) => object,
        Err(error) => {
            return Err(error);
        },
    };
    let operation_type = string_field(object, "operation_type");
    let operation_name = string_field(object, "operation_name");
    let fields = match string_array_field(object, "fields") {
        Ok(fields) => fields,
        Err(error) => {
            return Err(error);
        },
    };
    Ok(GraphqlOperation { operation_type, operation_name, fields })
}

impl Message for GraphqlOperation {
    open spec fn read(json: JsonView) -> Result<GraphqlOperationView, StatusView> {
        graphql_operation_read(json)
    }

    open spec fn is_readable(content: GraphqlOperationView) -> bool {
        true
    }

    fn from_json(value: &Json) -> (r: Result<GraphqlOperation, Status>) {
        graphql_operation_from_json(value)
    }

    proof fn law_round_trip(content: GraphqlOperationView) {
        reveal_strlit("fields");
        reveal_strlit("operation_name");
        reveal_strlit("operation_type");
        let members = graphql_operation_members(content);
        lemma_in_order("fields"@, "operation_name"@, 0);
        lemma_in_order("operation_name"@, "operation_type"@, 10);
        reveal_with_fuel(ascend, 4);
        lemma_members_are_found(members);
        assert(members[0].0 == "fields"@);
        assert(members[1].0 == "operation_name"@);
        assert(members[2].0 == "operation_type"@);
        lemma_texts_read_back(members, "fields"@, content.fields);
        assert(graphql_operation_read(JsonView::Object(members))->Ok_0 =~= content);
    }
}

/// What a rule of an endpoint allows.
#[derive(Debug, PartialEq, Eq)]
pub struct L7Allow {
    pub method: String,
    pub path: String,
    pub command: String,
    pub query: Vec<(String, L7QueryMatcher)>,
    pub operation_type: String,
    pub operation_name: String,
    pub fields: Vec<String>,
}

/// The content of the message.
#[verifier::ext_equal]
pub struct L7AllowView {
    pub method: Seq<char>,
    pub path: Seq<char>,
    pub command: Seq<char>,
    pub query: Seq<(Seq<char>, L7QueryMatcherView)>,
    pub operation_type: Seq<char>,
    pub operation_name: Seq<char>,
    pub fields: Seq<Seq<char>>,
}

impl DeepView for L7Allow {
    type V = L7AllowView;

    open spec fn deep_view(&self) -> L7AllowView {
        L7AllowView {
            method: self.method@,
            path: self.path@,
            command: self.command@,
            query: self.query.deep_view(),
            operation_type: self.operation_type@,
            operation_name: self.operation_name@,
            fields: self.fields.deep_view(),
        }
    }
}

/// The members of the JSON form, in order.
pub open spec fn l7_allow_members(content: L7AllowView) -> Members {
    seq![
        ("command"@, JsonView::Text(content.command)),
        ("fields"@, texts_form(content.fields)),
        ("method"@, JsonView::Text(content.method)),
        ("operation_name"@, JsonView::Text(content.operation_name)),
        ("operation_type"@, JsonView::Text(content.operation_type)),
        ("path"@, JsonView::Text(content.path)),
        ("query"@, message_map_form::<L7QueryMatcher>(content.query)),
    ]
}

/// The message that a JSON value is the form of.
pub open spec fn l7_allow_read(json: JsonView) -> Result<L7AllowView, StatusView> {
    match object_in(json, "L7Allow"@) {
        Err(error) => Err(error),
        Ok(object) => {
            let query = message_map_at::<L7QueryMatcher>(object, "query"@);
            let fields = texts_at(object, "fields"@);
            if query is Err {
                Err(query->Err_0)
            } else if fields is Err {
                Err(fields->Err_0)
            } else {
                Ok(
                    L7AllowView {
                        method: text_at(object, "method"@),
                        path: text_at(object, "path"@),
                        command: text_at(object, "command"@),
                        query: query->Ok_0,
                        operation_type: text_at(object, "operation_type"@),
                        operation_name: text_at(object, "operation_name"@),
                        fields: fields->Ok_0,
                    },
                )
            }
        },
    }
}

/// The JSON form of the message.
pub fn l7_allow_to_json(value: &L7Allow) -> (r: Json)
    ensures
        r.deep_view() == JsonView::Object(l7_allow_members(value.deep_view())),
{
    let mut members: Vec<(String, Json)> = Vec::new();
    assert(members.deep_view() =~= Seq::empty());
    push_member(&mut members, "command", text_to_json(value.command.as_str()));
    push_member(&mut members, "fields", texts_to_json(&value.fields));
    push_member(&mut members, "method", text_to_json(value.method.as_str()));
    push_member(&mut members, "operation_name", text_to_json(value.operation_name.as_str()));
    push_member(&mut members, "operation_type", text_to_json(value.operation_type.as_str()));
    push_member(&mut members, "path", text_to_json(value.path.as_str()));
    push_member(&mut members, "query", message_map_to_json(&value.query));
    assert(members.deep_view() =~= l7_allow_members(value.deep_view()));
    object_to_json(members)
}

impl Form for L7Allow {
    open spec fn json_form(content: L7AllowView) -> JsonView {
        JsonView::Object(l7_allow_members(content))
    }

    fn to_json(&self) -> (r: Json) {
        l7_allow_to_json(self)
    }
}

/// The message that a JSON value is the form of.
pub fn l7_allow_from_json(value: &Json) -> (r: Result<L7Allow, Status>)
    ensures
        shown(r) == l7_allow_read(value.deep_view()),
{
    let object = match expect_object(value, "L7Allow") {
        Ok(object) => object,
        Err(error) => {
            return Err(error);
        },
    };
    let method = string_field(object, "method");
    let path = string_field(object, "path");
    let command = string_field(object, "command");
    let query = match message_map_field::<L7QueryMatcher>(object, "query") {
        Ok(query) => query,
        Err(error) => {
            return Err(error);
        },
    };
    let operation_type = string_field(object, "operation_type");
    let operation_name = string_field(object, "operation_name");
    let fields = match string_array_field(object, "fields") {
        Ok(fields) => fields,
        Err(error) => {
            return Err(error);
        },
    };
    Ok(L7Allow { method, path, command, query, operation_type, operation_name, fields })
}

impl Message for L7Allow {
    open spec fn read(json: JsonView) -> Result<L7AllowView, StatusView> {
        l7_allow_read(json)
    }

    open spec fn is_readable(content: L7AllowView) -> bool {
        map_is_readable::<L7QueryMatcher>(content.query)
    }

    fn from_json(value: &Json) -> (r: Result<L7Allow, Status>) {
        l7_allow_from_json(value)
    }

    proof fn law_round_trip(content: L7AllowView) {
        reveal_strlit("command");
        reveal_strlit("fields");
        reveal_strlit("method");
        reveal_strlit("operation_name");
        reveal_strlit("operation_type");
        reveal_strlit("path");
        reveal_strlit("query");
        let members = l7_allow_members(content);
        lemma_in_order("command"@, "fields"@, 0);
        lemma_in_order("fields"@, "method"@, 0);
        lemma_in_order("method"@, "operation_name"@, 0);
        lemma_in_order("operation_name"@, "operation_type"@, 10);
        lemma_in_order("operation_type"@, "path"@, 0);
        lemma_in_order("path"@, "query"@, 0);
        reveal_with_fuel(ascend, 8);
        lemma_members_are_found(members);
        assert(members[0].0 == "command"@);
        assert(members[1].0 == "fields"@);
        assert(members[2].0 == "method"@);
        assert(members[3].0 == "operation_name"@);
        assert(members[4].0 == "operation_type"@);
        assert(members[5].0 == "path"@);
        assert(members[6].0 == "query"@);
        lemma_message_map_read_back::<L7QueryMatcher>(members, "query"@, content.query);
        lemma_texts_read_back(members, "fields"@, content.fields);
        assert(l7_allow_read(JsonView::Object(members))->Ok_0 =~= content);
    }
}

/// A rule of an endpoint.
#[derive(Debug, PartialEq, Eq)]
pub struct L7Rule {
    pub allow: Option<L7Allow>,
}

/// The content of the message.
#[verifier::ext_equal]
pub struct L7RuleView {
    pub allow: Option<L7AllowView>,
}

impl DeepView for L7Rule {
    type V = L7RuleView;

    open spec fn deep_view(&self) -> L7RuleView {
        L7RuleView {
            allow: self.allow.deep_view(),
        }
    }
}

/// The members of the JSON form, in order.
pub open spec fn l7_rule_members(content: L7RuleView) -> Members {
    seq![
        ("allow"@, message_form::<L7Allow>(content.allow)),
    ]
}

/// The message that a JSON value is the form of.
pub open spec fn l7_rule_read(json: JsonView) -> Result<L7RuleView, StatusView> {
    match object_in(json, "L7Rule"@) {
        Err(error) => Err(error),
        Ok(object) => {
            let allow = message_at::<L7Allow>(object, "allow"@);
            if allow is Err {
                Err(allow->Err_0)
            } else {
                Ok(
                    L7RuleView {
                        allow: allow->Ok_0,
                    },
                )
            }
        },
    }
}

/// The JSON form of the message.
pub fn l7_rule_to_json(value: &L7Rule) -> (r: Json)
    ensures
        r.deep_view() == JsonView::Object(l7_rule_members(value.deep_view())),
{
    let mut members: Vec<(String, Json)> = Vec::new();
    assert(members.deep_view() =~= Seq::empty());
    push_member(&mut members, "allow", message_to_json(&value.allow));
    assert(members.deep_view() =~= l7_rule_members(value.deep_view()));
    object_to_json(members)
}

impl Form for L7Rule {
    open spec fn json_form(content: L7RuleView) -> JsonView {
        JsonView::Object(l7_rule_members(content))
    }

    fn to_json(&self) -> (r: Json) {
        l7_rule_to_json(self)
    }
}

/// The message that a JSON value is the form of.
pub fn l7_rule_from_json(value: &Json) -> (r: Result<L7Rule, Status>)
    ensures
        shown(r) == l7_rule_read(value.deep_view()),
{
    let object = match expect_object(value, "L7Rule") {
        Ok(object) => object,
        Err(error) => {
            return Err(error);
        },
    };
    let allow = match message_field::<L7Allow>(object, "allow") {
        Ok(allow) => allow,
        Err(error) => {
            return Err(error);
        },
    };
    Ok(L7Rule { allow })
}

impl Message for L7Rule {
    open spec fn read(json: JsonView) -> Result<L7RuleView, StatusView> {
        l7_rule_read(json)
    }

    open spec fn is_readable(content: L7RuleView) -> bool {
        optional_is_readable::<L7Allow>(content.allow)
    }

    fn from_json(value: &Json) -> (r: Result<L7Rule, Status>) {
        l7_rule_from_json(value)
    }

    proof fn law_round_trip(content: L7RuleView) {
        reveal_strlit("allow");
        let members = l7_rule_members(content);
        let names = ordered::keys(members);
        lemma_members_are_found(members);
        assert(members[0].0 == "allow"@);
        lemma_message_read_back::<L7Allow>(members, "allow"@, content.allow);
        assert(l7_rule_read(JsonView::Object(members))->Ok_0 =~= content);
    }
}

/// What an endpoint denies.
#[derive(Debug, PartialEq, Eq)]
pub struct L7DenyRule {
    pub method: String,
    pub path: String,
    pub command: String,
    pub query: Vec<(String, L7QueryMatcher)>,
    pub operation_type: String,
    pub operation_name: String,
    pub fields: Vec<String>,
}

/// The content of the message.
#[verifier::ext_equal]
pub struct L7DenyRuleView {
    pub method: Seq<char>,
    pub path: Seq<char>,
    pub command: Seq<char>,
    pub query: Seq<(Seq<char>, L7QueryMatcherView)>,
    pub operation_type: Seq<char>,
    pub operation_name: Seq<char>,
    pub fields: Seq<Seq<char>>,
}

impl DeepView for L7DenyRule {
    type V = L7DenyRuleView;

    open spec fn deep_view(&self) -> L7DenyRuleView {
        L7DenyRuleView {
            method: self.method@,
            path: self.path@,
            command: self.command@,
            query: self.query.deep_view(),
            operation_type: self.operation_type@,
            operation_name: self.operation_name@,
            fields: self.fields.deep_view(),
        }
    }
}

/// The members of the JSON form, in order.
pub open spec fn l7_deny_rule_members(content: L7DenyRuleView) -> Members {
    seq![
        ("command"@, JsonView::Text(content.command)),
        ("fields"@, texts_form(content.fields)),
        ("method"@, JsonView::Text(content.method)),
        ("operation_name"@, JsonView::Text(content.operation_name)),
        ("operation_type"@, JsonView::Text(content.operation_type)),
        ("path"@, JsonView::Text(content.path)),
        ("query"@, message_map_form::<L7QueryMatcher>(content.query)),
    ]
}

/// The message that a JSON value is the form of.
pub open spec fn l7_deny_rule_read(json: JsonView) -> Result<L7DenyRuleView, StatusView> {
    match object_in(json, "L7DenyRule"@) {
        Err(error) => Err(error),
        Ok(object) => {
            let query = message_map_at::<L7QueryMatcher>(object, "query"@);
            let fields = texts_at(object, "fields"@);
            if query is Err {
                Err(query->Err_0)
            } else if fields is Err {
                Err(fields->Err_0)
            } else {
                Ok(
                    L7DenyRuleView {
                        method: text_at(object, "method"@),
                        path: text_at(object, "path"@),
                        command: text_at(object, "command"@),
                        query: query->Ok_0,
                        operation_type: text_at(object, "operation_type"@),
                        operation_name: text_at(object, "operation_name"@),
                        fields: fields->Ok_0,
                    },
                )
            }
        },
    }
}

/// The JSON form of the message.
pub fn l7_deny_rule_to_json(value: &L7DenyRule) -> (r: Json)
    ensures
        r.deep_view() == JsonView::Object(l7_deny_rule_members(value.deep_view())),
{
    let mut members: Vec<(String, Json)> = Vec::new();
    assert(members.deep_view() =~= Seq::empty());
    push_member(&mut members, "command", text_to_json(value.command.as_str()));
    push_member(&mut members, "fields", texts_to_json(&value.fields));
    push_member(&mut members, "method", text_to_json(value.method.as_str()));
    push_member(&mut members, "operation_name", text_to_json(value.operation_name.as_str()));
    push_member(&mut members, "operation_type", text_to_json(value.operation_type.as_str()));
    push_member(&mut members, "path", text_to_json(value.path.as_str()));
    push_member(&mut members, "query", message_map_to_json(&value.query));
    assert(members.deep_view() =~= l7_deny_rule_members(value.deep_view()));
    object_to_json(members)
}

impl Form for L7DenyRule {
    open spec fn json_form(content: L7DenyRuleView) -> JsonView {
        JsonView::Object(l7_deny_rule_members(content))
    }

    fn to_json(&self) -> (r: Json) {
        l7_deny_rule_to_json(self)
    }
}

/// The message that a JSON value is the form of.
pub fn l7_deny_rule_from_json(value: &Json) -> (r: Result<L7DenyRule, Status>)
    ensures
        shown(r) == l7_deny_rule_read(value.deep_view()),
{
    let object = match expect_object(value, "L7DenyRule") {
        Ok(object) => object,
        Err(error) => {
            return Err(error);
        },
    };
    let method = string_field(object, "method");
    let path = string_field(object, "path");
    let command = string_field(object, "command");
    let query = match message_map_field::<L7QueryMatcher>(object, "query") {
        Ok(query) => query,
        Err(error) => {
            return Err(error);
        },
    };
    let operation_type = string_field(object, "operation_type");
    let operation_name = string_field(object, "operation_name");
    let fields = match string_array_field(object, "fields") {
        Ok(fields) => fields,
        Err(error) => {
            return Err(error);
        },
    };
    Ok(L7DenyRule { method, path, command, query, operation_type, operation_name, fields })
}

impl Message for L7DenyRule {
    open spec fn read(json: JsonView) -> Result<L7DenyRuleView, StatusView> {
        l7_deny_rule_read(json)
    }

    open spec fn is_readable(content: L7DenyRuleView) -> bool {
        map_is_readable::<L7QueryMatcher>(content.query)
    }

    fn from_json(value: &Json) -> (r: Result<L7DenyRule, Status>) {
        l7_deny_rule_from_json(value)
    }

    proof fn law_round_trip(content: L7DenyRuleView) {
        reveal_strlit("command");
        reveal_strlit("fields");
        reveal_strlit("method");
        reveal_strlit("operation_name");
        reveal_strlit("operation_type");
        reveal_strlit("path");
        reveal_strlit("query");
        let members = l7_deny_rule_members(content);
        lemma_in_order("command"@, "fields"@, 0);
        lemma_in_order("fields"@, "method"@, 0);
        lemma_in_order("method"@, "operation_name"@, 0);
        lemma_in_order("operation_name"@, "operation_type"@, 10);
        lemma_in_order("operation_type"@, "path"@, 0);
        lemma_in_order("path"@, "query"@, 0);
        reveal_with_fuel(ascend, 8);
        lemma_members_are_found(members);
        assert(members[0].0 == "command"@);
        assert(members[1].0 == "fields"@);
        assert(members[2].0 == "method"@);
        assert(members[3].0 == "operation_name"@);
        assert(members[4].0 == "operation_type"@);
        assert(members[5].0 == "path"@);
        assert(members[6].0 == "query"@);
        lemma_message_map_read_back::<L7QueryMatcher>(members, "query"@, content.query);
        lemma_texts_read_back(members, "fields"@, content.fields);
        assert(l7_deny_rule_read(JsonView::Object(members))->Ok_0 =~= content);
    }
}

/// An endpoint that sandboxes may reach.
#[derive(Debug, PartialEq, Eq)]
pub struct NetworkEndpoint {
    pub host: String,
    pub port: u32,
    pub protocol: String,
    pub tls: String,
    pub enforcement: String,
    pub access: String,
    pub rules: Vec<L7Rule>,
    pub allowed_ips: Vec<String>,
    pub ports: Vec<u32>,
    pub deny_rules: Vec<L7DenyRule>,
    pub allow_encoded_slash: bool,
    pub persisted_queries: String,
    pub graphql_persisted_queries: Vec<(String, GraphqlOperation)>,
    pub graphql_max_body_bytes: u32,
    pub path: String,
    pub websocket_credential_rewrite: bool,
    pub request_body_credential_rewrite: bool,
    pub advisor_proposed: bool,
}

/// The content of the message.
#[verifier::ext_equal]
pub struct NetworkEndpointView {
    pub host: Seq<char>,
    pub port: u32,
    pub protocol: Seq<char>,
    pub tls: Seq<char>,
    pub enforcement: Seq<char>,
    pub access: Seq<char>,
    pub rules: Seq<L7RuleView>,
    pub allowed_ips: Seq<Seq<char>>,
    pub ports: Seq<u32>,
    pub deny_rules: Seq<L7DenyRuleView>,
    pub allow_encoded_slash: bool,
    pub persisted_queries: Seq<char>,
    pub graphql_persisted_queries: Seq<(Seq<char>, GraphqlOperationView)>,
    pub graphql_max_body_bytes: u32,
    pub path: Seq<char>,
    pub websocket_credential_rewrite: bool,
    pub request_body_credential_rewrite: bool,
    pub advisor_proposed: bool,
}

impl DeepView for NetworkEndpoint {
    type V = NetworkEndpointView;

    open spec fn deep_view(&self) -> NetworkEndpointView {
        NetworkEndpointView {
            host: self.host@,
            port: self.port,
            protocol: self.protocol@,
            tls: self.tls@,
            enforcement: self.enforcement@,
            access: self.access@,
            rules: self.rules.deep_view(),
            allowed_ips: self.allowed_ips.deep_view(),
            ports: self.ports@,
            deny_rules: self.deny_rules.deep_view(),
            allow_encoded_slash: self.allow_encoded_slash,
            persisted_queries: self.persisted_queries@,
            graphql_persisted_queries: self.graphql_persisted_queries.deep_view(),
            graphql_max_body_bytes: self.graphql_max_body_bytes,
            path: self.path@,
            websocket_credential_rewrite: self.websocket_credential_rewrite,
            request_body_credential_rewrite: self.request_body_credential_rewrite,
            advisor_proposed: self.advisor_proposed,
        }
    }
}

/// The members of the JSON form, in order.
pub open spec fn network_endpoint_members(content: NetworkEndpointView) -> Members {
    seq![
        ("access"@, JsonView::Text(content.access)),
        ("advisor_proposed"@, JsonView::Bool(content.advisor_proposed)),
        ("allow_encoded_slash"@, JsonView::Bool(content.allow_encoded_slash)),
        ("allowed_ips"@, texts_form(content.allowed_ips)),
        ("deny_rules"@, messages_form::<L7DenyRule>(content.deny_rules)),
        ("enforcement"@, JsonView::Text(content.enforcement)),
        ("graphql_max_body_bytes"@, u64_form(content.graphql_max_body_bytes as u64)),
        (
            "graphql_persisted_queries"@,
            message_map_form::<GraphqlOperation>(content.graphql_persisted_queries),
        ),
        ("host"@, JsonView::Text(content.host)),
        ("path"@, JsonView::Text(content.path)),
        ("persisted_queries"@, JsonView::Text(content.persisted_queries)),
        ("port"@, u64_form(content.port as u64)),
        ("ports"@, u32s_form(content.ports)),
        ("protocol"@, JsonView::Text(content.protocol)),
        (
            "request_body_credential_rewrite"@,
            JsonView::Bool(content.request_body_credential_rewrite),
        ),
        ("rules"@, messages_form::<L7Rule>(content.rules)),
        ("tls"@, JsonView::Text(content.tls)),
        ("websocket_credential_rewrite"@, JsonView::Bool(content.websocket_credential_rewrite)),
    ]
}

/// The message that a JSON value is the form of.
pub open spec fn network_endpoint_read(json: JsonView) -> Result<NetworkEndpointView, StatusView> {
    match object_in(json, "NetworkEndpoint"@) {
        Err(error) => Err(error),
        Ok(object) => {
            let port = u32_at(object, "port"@);
            let rules = messages_at::<L7Rule>(object, "rules"@);
            let allowed_ips = texts_at(object, "allowed_ips"@);
            let ports = u32s_at(object, "ports"@);
            let deny_rules = messages_at::<L7DenyRule>(object, "deny_rules"@);
            let graphql_persisted_queries = message_map_at::<GraphqlOperation>(object, "graphql_persisted_queries"@);
            let graphql_max_body_bytes = u32_at(object, "graphql_max_body_bytes"@);
            if port is Err {
                Err(port->Err_0)
            } else if rules is Err {
                Err(rules->Err_0)
            } else if allowed_ips is Err {
                Err(allowed_ips->Err_0)
            } else if ports is Err {
                Err(ports->Err_0)
            } else if deny_rules is Err {
                Err(deny_rules->Err_0)
            } else if graphql_persisted_queries is Err {
                Err(graphql_persisted_queries->Err_0)
            } else if graphql_max_body_bytes is Err {
                Err(graphql_max_body_bytes->Err_0)
            } else {
                Ok(
                    NetworkEndpointView {
                        host: text_at(object, "host"@),
                        port: port->Ok_0,
                        protocol: text_at(object, "protocol"@),
                        tls: text_at(object, "tls"@),
                        enforcement: text_at(object, "enforcement"@),
                        access: text_at(object, "access"@),
                        rules: rules->Ok_0,
                        allowed_ips: allowed_ips->Ok_0,
                        ports: ports->Ok_0,
                        deny_rules: deny_rules->Ok_0,
                        allow_encoded_slash: flag_at(object, "allow_encoded_slash"@),
                        persisted_queries: text_at(object, "persisted_queries"@),
                        graphql_persisted_queries: graphql_persisted_queries->Ok_0,
                        graphql_max_body_bytes: graphql_max_body_bytes->Ok_0,
                        path: text_at(object, "path"@),
                        websocket_credential_rewrite: flag_at(object, "websocket_credential_rewrite"@),
                        request_body_credential_rewrite: flag_at(object, "request_body_credential_rewrite"@),
                        advisor_proposed: flag_at(object, "advisor_proposed"@),
                    },
                )
            }
        },
    }
}

/// The JSON form of the message.
pub fn network_endpoint_to_json(value: &NetworkEndpoint) -> (r: Json)
    ensures
        r.deep_view() == JsonView::Object(network_endpoint_members(value.deep_view())),
{
    let mut members: Vec<(String, Json)> = Vec::new();
    assert(members.deep_view() =~= Seq::empty());
    push_member(&mut members, "access", text_to_json(value.access.as_str()));
    push_member(&mut members, "advisor_proposed", bool_to_json(value.advisor_proposed));
    push_member(&mut members, "allow_encoded_slash", bool_to_json(value.allow_encoded_slash));
    push_member(&mut members, "allowed_ips", texts_to_json(&value.allowed_ips));
    push_member(&mut members, "deny_rules", messages_to_json(&value.deny_rules));
    push_member(&mut members, "enforcement", text_to_json(value.enforcement.as_str()));
    push_member(
        &mut members,
        "graphql_max_body_bytes",
        u64_to_json(value.graphql_max_body_bytes as u64),
    );
    push_member(
        &mut members,
        "graphql_persisted_queries",
        message_map_to_json(&value.graphql_persisted_queries),
    );
    push_member(&mut members, "host", text_to_json(value.host.as_str()));
    push_member(&mut members, "path", text_to_json(value.path.as_str()));
    push_member(
        &mut members,
        "persisted_queries",
        text_to_json(value.persisted_queries.as_str()),
    );
    push_member(&mut members, "port", u64_to_json(value.port as u64));
    push_member(&mut members, "ports", u32s_to_json(&value.ports));
    push_member(&mut members, "protocol", text_to_json(value.protocol.as_str()));
    push_member(
        &mut members,
        "request_body_credential_rewrite",
        bool_to_json(value.request_body_credential_rewrite),
    );
    push_member(&mut members, "rules", messages_to_json(&value.rules));
    push_member(&mut members, "tls", text_to_json(value.tls.as_str()));
    push_member(
        &mut members,
        "websocket_credential_rewrite",
        bool_to_json(value.websocket_credential_rewrite),
    );
    assert(members.deep_view() =~= network_endpoint_members(value.deep_view()));
    object_to_json(members)
}

impl Form for NetworkEndpoint {
    open spec fn json_form(content: NetworkEndpointView) -> JsonView {
        JsonView::Object(network_endpoint_members(content))
    }

    fn to_json(&self) -> (r: Json) {
        network_endpoint_to_json(self)
    }
}

/// The message that a JSON value is the form of.
pub fn network_endpoint_from_json(value: &Json) -> (r: Result<NetworkEndpoint, Status>)
    ensures
        shown(r) == network_endpoint_read(value.deep_view()),
{
    let object = match expect_object(value, "NetworkEndpoint") {
        Ok(object) => object,
        Err(error) => {
            return Err(error);
        },
    };
    let host = string_field(object, "host");
    let port: u32 = match u32_field(object, "port") {
        Ok(port) => port,
        Err(error) => {
            return Err(error);
        },
    };
    let protocol = string_field(object, "protocol");
    let tls = string_field(object, "tls");
    let enforcement = string_field(object, "enforcement");
    let access = string_field(object, "access");
    let rules = match messages_field::<L7Rule>(object, "rules") {
        Ok(rules) => rules,
        Err(error) => {
            return Err(error);
        },
    };
    let allowed_ips = match string_array_field(object, "allowed_ips") {
        Ok(allowed_ips) => allowed_ips,
        Err(error) => {
            return Err(error);
        },
    };
    let ports = match u32_array_field(object, "ports") {
        Ok(ports) => ports,
        Err(error) => {
            return Err(error);
        },
    };
    let deny_rules = match messages_field::<L7DenyRule>(object, "deny_rules") {
        Ok(deny_rules) => deny_rules,
        Err(error) => {
            return Err(error);
        },
    };
    let allow_encoded_slash = bool_field(object, "allow_encoded_slash");
    let persisted_queries = string_field(object, "persisted_queries");
    let graphql_persisted_queries = match message_map_field::<GraphqlOperation>(object, "graphql_persisted_queries") {
        Ok(graphql_persisted_queries) => graphql_persisted_queries,
        Err(error) => {
            return Err(error);
        },
    };
    let graphql_max_body_bytes: u32 = match u32_field(object, "graphql_max_body_bytes") {
        Ok(graphql_max_body_bytes) => graphql_max_body_bytes,
        Err(error) => {
            return Err(error);
        },
    };
    let path = string_field(object, "path");
    let websocket_credential_rewrite = bool_field(object, "websocket_credential_rewrite");
    let request_body_credential_rewrite = bool_field(object, "request_body_credential_rewrite");
    let advisor_proposed = bool_field(object, "advisor_proposed");
    Ok(
        NetworkEndpoint {
            host,
            port,
            protocol,
            tls,
            enforcement,
            access,
            rules,
            allowed_ips,
            ports,
            deny_rules,
            allow_encoded_slash,
            persisted_queries,
            graphql_persisted_queries,
            graphql_max_body_bytes,
            path,
            websocket_credential_rewrite,
            request_body_credential_rewrite,
            advisor_proposed,
        },
    )
}

impl Message for NetworkEndpoint {
    open spec fn read(json: JsonView) -> Result<NetworkEndpointView, StatusView> {
        network_endpoint_read(json)
    }

    open spec fn is_readable(content: NetworkEndpointView) -> bool {
        &&& all_readable::<L7Rule>(content.rules)
        &&& all_readable::<L7DenyRule>(content.deny_rules)
        &&& map_is_readable::<GraphqlOperation>(content.graphql_persisted_queries)
    }

    fn from_json(value: &Json) -> (r: Result<NetworkEndpoint, Status>) {
        network_endpoint_from_json(value)
    }

    proof fn law_round_trip(content: NetworkEndpointView) {
        reveal_strlit("access");
        reveal_strlit("advisor_proposed");
        reveal_strlit("allow_encoded_slash");
        reveal_strlit("allowed_ips");
        reveal_strlit("deny_rules");
        reveal_strlit("enforcement");
        reveal_strlit("graphql_max_body_bytes");
        reveal_strlit("graphql_persisted_queries");
        reveal_strlit("host");
        reveal_strlit("path");
        reveal_strlit("persisted_queries");
        reveal_strlit("port");
        reveal_strlit("ports");
        reveal_strlit("protocol");
        reveal_strlit("request_body_credential_rewrite");
        reveal_strlit("rules");
        reveal_strlit("tls");
        reveal_strlit("websocket_credential_rewrite");
        let members = network_endpoint_members(content);
        lemma_in_order("access"@, "advisor_proposed"@, 1);
        lemma_in_order("advisor_proposed"@, "allow_encoded_slash"@, 1);
        lemma_in_order("allow_encoded_slash"@, "allowed_ips"@, 5);
        lemma_in_order("allowed_ips"@, "deny_rules"@, 0);
        lemma_in_order("deny_rules"@, "enforcement"@, 0);
        lemma_in_order("enforcement"@, "graphql_max_body_bytes"@, 0);
        lemma_in_order("graphql_max_body_bytes"@, "graphql_persisted_queries"@, 8);
        lemma_in_order("graphql_persisted_queries"@, "host"@, 0);
        lemma_in_order("host"@, "path"@, 0);
        lemma_in_order("path"@, "persisted_queries"@, 1);
        lemma_in_order("persisted_queries"@, "port"@, 1);
        lemma_in_order("port"@, "ports"@, 4);
        lemma_in_order("ports"@, "protocol"@, 1);
        lemma_in_order("protocol"@, "request_body_credential_rewrite"@, 0);
        lemma_in_order("request_body_credential_rewrite"@, "rules"@, 1);
        lemma_in_order("rules"@, "tls"@, 0);
        lemma_in_order("tls"@, "websocket_credential_rewrite"@, 0);
        reveal_with_fuel(ascend, 19);
        lemma_members_are_found(members);
        assert(members[0].0 == "access"@);
        assert(members[1].0 == "advisor_proposed"@);
        assert(members[2].0 == "allow_encoded_slash"@);
        assert(members[3].0 == "allowed_ips"@);
        assert(members[4].0 == "deny_rules"@);
        assert(members[5].0 == "enforcement"@);
        assert(members[6].0 == "graphql_max_body_bytes"@);
        assert(members[7].0 == "graphql_persisted_queries"@);
        assert(members[8].0 == "host"@);
        assert(members[9].0 == "path"@);
        assert(members[10].0 == "persisted_queries"@);
        assert(members[11].0 == "port"@);
        assert(members[12].0 == "ports"@);
        assert(members[13].0 == "protocol"@);
        assert(members[14].0 == "request_body_credential_rewrite"@);
        assert(members[15].0 == "rules"@);
        assert(members[16].0 == "tls"@);
        assert(members[17].0 == "websocket_credential_rewrite"@);
        lemma_messages_read_back::<L7Rule>(members, "rules"@, content.rules);
        lemma_texts_read_back(members, "allowed_ips"@, content.allowed_ips);
        lemma_u32s_read_back(members, "ports"@, content.ports);
        lemma_messages_read_back::<L7DenyRule>(members, "deny_rules"@, content.deny_rules);
        lemma_message_map_read_back::<GraphqlOperation>(members, "graphql_persisted_queries"@, content.graphql_persisted_queries);
        assert(network_endpoint_read(JsonView::Object(members))->Ok_0 =~= content);
    }
}

/// A program that may reach endpoints.
#[derive(Debug, PartialEq, Eq)]
pub struct NetworkBinary {
    pub path: String,
    pub harness: bool,
}

/// The content of the message.
#[verifier::ext_equal]
pub struct NetworkBinaryView {
    pub path: Seq<char>,
    pub harness: bool,
}

impl DeepView for NetworkBinary {
    type V = NetworkBinaryView;

    open spec fn deep_view(&self) -> NetworkBinaryView {
        NetworkBinaryView {
            path: self.path@,
            harness: self.harness,
        }
    }
}

/// The members of the JSON form, in order.
pub open spec fn network_binary_members(content: NetworkBinaryView) -> Members {
    seq![
        ("harness"@, JsonView::Bool(content.harness)),
        ("path"@, JsonView::Text(content.path)),
    ]
}

/// The message that a JSON value is the form of.
pub open spec fn network_binary_read(json: JsonView) -> Result<NetworkBinaryView, StatusView> {
    match object_in(json, "NetworkBinary"@) {
        Err(error) => Err(error),
        Ok(object) => {
            Ok(
                NetworkBinaryView {
                    path: text_at(object, "path"@),
                    harness: flag_at(object, "harness"@),
                },
            )
        },
    }
}

/// The JSON form of the message.
pub fn network_binary_to_json(value: &NetworkBinary) -> (r: Json)
    ensures
        r.deep_view() == JsonView::Object(network_binary_members(value.deep_view())),
{
    let mut members: Vec<(String, Json)> = Vec::new();
    assert(members.deep_view() =~= Seq::empty());
    push_member(&mut members, "harness", bool_to_json(value.harness));
    push_member(&mut members, "path", text_to_json(value.path.as_str()));
    assert(members.deep_view() =~= network_binary_members(value.deep_view()));
    object_to_json(members)
}

impl Form for NetworkBinary {
    open spec fn json_form(content: NetworkBinaryView) -> JsonView {
        JsonView::Object(network_binary_members(content))
    }

    fn to_json(&self) -> (r: Json) {
        network_binary_to_json(self)
    }
}

/// The message that a JSON value is the form of.
pub fn network_binary_from_json(value: &Json) -> (r: Result<NetworkBinary, Status>)
    ensures
        shown(r) == network_binary_read(value.deep_view()),
{
    let object = match expect_object(value, "NetworkBinary") {
        Ok(object) => object,
        Err(error) => {
            return Err(error);
        },
    };
    let path = string_field(object, "path");
    let harness = bool_field(object, "harness");
    Ok(NetworkBinary { path, harness })
}

impl Message for NetworkBinary {
    open spec fn read(json: JsonView) -> Result<NetworkBinaryView, StatusView> {
        network_binary_read(json)
    }

    open spec fn is_readable(content: NetworkBinaryView) -> bool {
        true
    }

    fn from_json(value: &Json) -> (r: Result<NetworkBinary, Status>) {
        network_binary_from_json(value)
    }

    proof fn law_round_trip(content: NetworkBinaryView) {
        reveal_strlit("harness");
        reveal_strlit("path");
        let members = network_binary_members(content);
        lemma_in_order("harness"@, "path"@, 0);
        reveal_with_fuel(ascend, 3);
        lemma_members_are_found(members);
        assert(members[0].0 == "harness"@);
        assert(members[1].0 == "path"@);
        assert(network_binary_read(JsonView::Object(members))->Ok_0 =~= content);
    }
}

/// Endpoints, and the programs that may reach them.
#[derive(Debug, PartialEq, Eq)]
pub struct NetworkPolicyRule {
    pub name: String,
    pub endpoints: Vec<NetworkEndpoint>,
    pub binaries: Vec<NetworkBinary>,
}

/// The content of the message.
#[verifier::ext_equal]
pub struct NetworkPolicyRuleView {
    pub name: Seq<char>,
    pub endpoints: Seq<NetworkEndpointView>,
    pub binaries: Seq<NetworkBinaryView>,
}

impl DeepView for NetworkPolicyRule {
    type V = NetworkPolicyRuleView;

    open spec fn deep_view(&self) -> NetworkPolicyRuleView {
        NetworkPolicyRuleView {
            name: self.name@,
            endpoints: self.endpoints.deep_view(),
            binaries: self.binaries.deep_view(),
        }
    }
}

/// The members of the JSON form, in order.
pub open spec fn network_policy_rule_members(content: NetworkPolicyRuleView) -> Members {
    seq![
        ("binaries"@, messages_form::<NetworkBinary>(content.binaries)),
        ("endpoints"@, messages_form::<NetworkEndpoint>(content.endpoints)),
        ("name"@, JsonView::Text(content.name)),
    ]
}

/// The message that a JSON value is the form of.
pub open spec fn network_policy_rule_read(json: JsonView) -> Result<NetworkPolicyRuleView, StatusView> {
    match object_in(json, "NetworkPolicyRule"@) {
        Err(error) => Err(error),
        Ok(object) => {
            let endpoints = messages_at::<NetworkEndpoint>(object, "endpoints"@);
            let binaries = messages_at::<NetworkBinary>(object, "binaries"@);
            if endpoints is Err {
                Err(endpoints->Err_0)
            } else if binaries is Err {
                Err(binaries->Err_0)
            } else {
                Ok(
                    NetworkPolicyRuleView {
                        name: text_at(object, "name"@),
                        endpoints: endpoints->Ok_0,
                        binaries: binaries->Ok_0,
                    },
                )
            }
        },
    }
}

/// The JSON form of the message.
pub fn network_policy_rule_to_json(value: &NetworkPolicyRule) -> (r: Json)
    ensures
        r.deep_view() == JsonView::Object(network_policy_rule_members(value.deep_view())),
{
    let mut members: Vec<(String, Json)> = Vec::new();
    assert(members.deep_view() =~= Seq::empty());
    push_member(&mut members, "binaries", messages_to_json(&value.binaries));
    push_member(&mut members, "endpoints", messages_to_json(&value.endpoints));
    push_member(&mut members, "name", text_to_json(value.name.as_str()));
    assert(members.deep_view() =~= network_policy_rule_members(value.deep_view()));
    object_to_json(members)
}

impl Form for NetworkPolicyRule {
    open spec fn json_form(content: NetworkPolicyRuleView) -> JsonView {
        JsonView::Object(network_policy_rule_members(content))
    }

    fn to_json(&self) -> (r: Json) {
        network_policy_rule_to_json(self)
    }
}

/// The message that a JSON value is the form of.
pub fn network_policy_rule_from_json(value: &Json) -> (r: Result<NetworkPolicyRule, Status>)
    ensures
        shown(r) == network_policy_rule_read(value.deep_view()),
{
    let object = match expect_object(value, "NetworkPolicyRule") {
        Ok(object) => object,
        Err(error) => {
            return Err(error);
        },
    };
    let name = string_field(object, "name");
    let endpoints = match messages_field::<NetworkEndpoint>(object, "endpoints") {
        Ok(endpoints) => endpoints,
        Err(error) => {
            return Err(error);
        },
    };
    let binaries = match messages_field::<NetworkBinary>(object, "binaries") {
        Ok(binaries) => binaries,
        Err(error) => {
            return Err(error);
        },
    };
    Ok(NetworkPolicyRule { name, endpoints, binaries })
}

impl Message for NetworkPolicyRule {
    open spec fn read(json: JsonView) -> Result<NetworkPolicyRuleView, StatusView> {
        network_policy_rule_read(json)
    }

    open spec fn is_readable(content: NetworkPolicyRuleView) -> bool {
        &&& all_readable::<NetworkEndpoint>(content.endpoints)
        &&& all_readable::<NetworkBinary>(content.binaries)
    }

    fn from_json(value: &Json) -> (r: Result<NetworkPolicyRule, Status>) {
        network_policy_rule_from_json(value)
    }

    proof fn law_round_trip(content: NetworkPolicyRuleView) {
        reveal_strlit("binaries");
        reveal_strlit("endpoints");
        reveal_strlit("name");
        let members = network_policy_rule_members(content);
        lemma_in_order("binaries"@, "endpoints"@, 0);
        lemma_in_order("endpoints"@, "name"@, 0);
        reveal_with_fuel(ascend, 4);
        lemma_members_are_found(members);
        assert(members[0].0 == "binaries"@);
        assert(members[1].0 == "endpoints"@);
        assert(members[2].0 == "name"@);
        lemma_messages_read_back::<NetworkEndpoint>(members, "endpoints"@, content.endpoints);
        lemma_messages_read_back::<NetworkBinary>(members, "binaries"@, content.binaries);
        assert(network_policy_rule_read(JsonView::Object(members))->Ok_0 =~= content);
    }
}

/// What a sandbox may read and write.
#[derive(Debug, PartialEq, Eq)]
pub struct FilesystemPolicy {
    pub include_workdir: bool,
    pub read_only: Vec<String>,
    pub read_write: Vec<String>,
}

/// The content of the message.
#[verifier::ext_equal]
pub struct FilesystemPolicyView {
    pub include_workdir: bool,
    pub read_only: Seq<Seq<char>>,
    pub read_write: Seq<Seq<char>>,
}

impl DeepView for FilesystemPolicy {
    type V = FilesystemPolicyView;

    open spec fn deep_view(&self) -> FilesystemPolicyView {
        FilesystemPolicyView {
            include_workdir: self.include_workdir,
            read_only: self.read_only.deep_view(),
            read_write: self.read_write.deep_view(),
        }
    }
}

/// The members of the JSON form, in order.
pub open spec fn filesystem_policy_members(content: FilesystemPolicyView) -> Members {
    seq![
        ("include_workdir"@, JsonView::Bool(content.include_workdir)),
        ("read_only"@, texts_form(content.read_only)),
        ("read_write"@, texts_form(content.read_write)),
    ]
}

/// The message that a JSON value is the form of.
pub open spec fn filesystem_policy_read(json: JsonView) -> Result<FilesystemPolicyView, StatusView> {
    match object_in(json, "FilesystemPolicy"@) {
        Err(error) => Err(error),
        Ok(object) => {
            let read_only = texts_at(object, "read_only"@);
            let read_write = texts_at(object, "read_write"@);
            if read_only is Err {
                Err(read_only->Err_0)
            } else if read_write is Err {
                Err(read_write->Err_0)
            } else {
                Ok(
                    FilesystemPolicyView {
                        include_workdir: flag_at(object, "include_workdir"@),
                        read_only: read_only->Ok_0,
                        read_write: read_write->Ok_0,
                    },
                )
            }
        },
    }
}

/// The JSON form of the message.
pub fn filesystem_policy_to_json(value: &FilesystemPolicy) -> (r: Json)
    ensures
        r.deep_view() == JsonView::Object(filesystem_policy_members(value.deep_view())),
{
    let mut members: Vec<(String, Json)> = Vec::new();
    assert(members.deep_view() =~= Seq::empty());
    push_member(&mut members, "include_workdir", bool_to_json(value.include_workdir));
    push_member(&mut members, "read_only", texts_to_json(&value.read_only));
    push_member(&mut members, "read_write", texts_to_json(&value.read_write));
    assert(members.deep_view() =~= filesystem_policy_members(value.deep_view()));
    object_to_json(members)
}

impl Form for FilesystemPolicy {
    open spec fn json_form(content: FilesystemPolicyView) -> JsonView {
        JsonView::Object(filesystem_policy_members(content))
    }

    fn to_json(&self) -> (r: Json) {
        filesystem_policy_to_json(self)
    }
}

/// The message that a JSON value is the form of.
pub fn filesystem_policy_from_json(value: &Json) -> (r: Result<FilesystemPolicy, Status>)
    ensures
        shown(r) == filesystem_policy_read(value.deep_view()),
{
    let object = match expect_object(value, "FilesystemPolicy") {
        Ok(object) => object,
        Err(error) => {
            return Err(error);
        },
    };
    let include_workdir = bool_field(object, "include_workdir");
    let read_only = match string_array_field(object, "read_only") {
        Ok(read_only) => read_only,
        Err(error) => {
            return Err(error);
        },
    };
    let read_write = match string_array_field(object, "read_write") {
        Ok(read_write) => read_write,
        Err(error) => {
            return Err(error);
        },
    };
    Ok(FilesystemPolicy { include_workdir, read_only, read_write })
}

impl Message for FilesystemPolicy {
    open spec fn read(json: JsonView) -> Result<FilesystemPolicyView, StatusView> {
        filesystem_policy_read(json)
    }

    open spec fn is_readable(content: FilesystemPolicyView) -> bool {
        true
    }

    fn from_json(value: &Json) -> (r: Result<FilesystemPolicy, Status>) {
        filesystem_policy_from_json(value)
    }

    proof fn law_round_trip(content: FilesystemPolicyView) {
        reveal_strlit("include_workdir");
        reveal_strlit("read_only");
        reveal_strlit("read_write");
        let members = filesystem_policy_members(content);
        lemma_in_order("include_workdir"@, "read_only"@, 0);
        lemma_in_order("read_only"@, "read_write"@, 5);
        reveal_with_fuel(ascend, 4);
        lemma_members_are_found(members);
        assert(members[0].0 == "include_workdir"@);
        assert(members[1].0 == "read_only"@);
        assert(members[2].0 == "read_write"@);
        lemma_texts_read_back(members, "read_only"@, content.read_only);
        lemma_texts_read_back(members, "read_write"@, content.read_write);
        assert(filesystem_policy_read(JsonView::Object(members))->Ok_0 =~= content);
    }
}

/// How the kernel enforces what a sandbox may read and write.
#[derive(Debug, PartialEq, Eq)]
pub struct LandlockPolicy {
    pub compatibility: String,
}

/// The content of the message.
#[verifier::ext_equal]
pub struct LandlockPolicyView {
    pub compatibility: Seq<char>,
}

impl DeepView for LandlockPolicy {
    type V = LandlockPolicyView;

    open spec fn deep_view(&self) -> LandlockPolicyView {
        LandlockPolicyView {
            compatibility: self.compatibility@,
        }
    }
}

/// The members of the JSON form, in order.
pub open spec fn landlock_policy_members(content: LandlockPolicyView) -> Members {
    seq![
        ("compatibility"@, JsonView::Text(content.compatibility)),
    ]
}

/// The message that a JSON value is the form of.
pub open spec fn landlock_policy_read(json: JsonView) -> Result<LandlockPolicyView, StatusView> {
    match object_in(json, "LandlockPolicy"@) {
        Err(error) => Err(error),
        Ok(object) => {
            Ok(
                LandlockPolicyView {
                    compatibility: text_at(object, "compatibility"@),
                },
            )
        },
    }
}

/// The JSON form of the message.
pub fn landlock_policy_to_json(value: &LandlockPolicy) -> (r: Json)
    ensures
        r.deep_view() == JsonView::Object(landlock_policy_members(value.deep_view())),
{
    let mut members: Vec<(String, Json)> = Vec::new();
    assert(members.deep_view() =~= Seq::empty());
    push_member(&mut members, "compatibility", text_to_json(value.compatibility.as_str()));
    assert(members.deep_view() =~= landlock_policy_members(value.deep_view()));
    object_to_json(members)
}

impl Form for LandlockPolicy {
    open spec fn json_form(content: LandlockPolicyView) -> JsonView {
        JsonView::Object(landlock_policy_members(content))
    }

    fn to_json(&self) -> (r: Json) {
        landlock_policy_to_json(self)
    }
}

/// The message that a JSON value is the form of.
pub fn landlock_policy_from_json(value: &Json) -> (r: Result<LandlockPolicy, Status>)
    ensures
        shown(r) == landlock_policy_read(value.deep_view()),
{
    let object = match expect_object(value, "LandlockPolicy") {
        Ok(object) => object,
        Err(error) => {
            return Err(error);
        },
    };
    let compatibility = string_field(object, "compatibility");
    Ok(LandlockPolicy { compatibility })
}

impl Message for LandlockPolicy {
    open spec fn read(json: JsonView) -> Result<LandlockPolicyView, StatusView> {
        landlock_policy_read(json)
    }

    open spec fn is_readable(content: LandlockPolicyView) -> bool {
        true
    }

    fn from_json(value: &Json) -> (r: Result<LandlockPolicy, Status>) {
        landlock_policy_from_json(value)
    }

    proof fn law_round_trip(content: LandlockPolicyView) {
        reveal_strlit("compatibility");
        let members = landlock_policy_members(content);
        let names = ordered::keys(members);
        lemma_members_are_found(members);
        assert(members[0].0 == "compatibility"@);
        assert(landlock_policy_read(JsonView::Object(members))->Ok_0 =~= content);
    }
}

/// Who the processes of a sandbox run as.
#[derive(Debug, PartialEq, Eq)]
pub struct ProcessPolicy {
    pub run_as_user: String,
    pub run_as_group: String,
}

/// The content of the message.
#[verifier::ext_equal]
pub struct ProcessPolicyView {
    pub run_as_user: Seq<char>,
    pub run_as_group: Seq<char>,
}

impl DeepView for ProcessPolicy {
    type V = ProcessPolicyView;

    open spec fn deep_view(&self) -> ProcessPolicyView {
        ProcessPolicyView {
            run_as_user: self.run_as_user@,
            run_as_group: self.run_as_group@,
        }
    }
}

/// The members of the JSON form, in order.
pub open spec fn process_policy_members(content: ProcessPolicyView) -> Members {
    seq![
        ("run_as_group"@, JsonView::Text(content.run_as_group)),
        ("run_as_user"@, JsonView::Text(content.run_as_user)),
    ]
}

/// The message that a JSON value is the form of.
pub open spec fn process_policy_read(json: JsonView) -> Result<ProcessPolicyView, StatusView> {
    match object_in(json, "ProcessPolicy"@) {
        Err(error) => Err(error),
        Ok(object) => {
            Ok(
                ProcessPolicyView {
                    run_as_user: text_at(object, "run_as_user"@),
                    run_as_group: text_at(object, "run_as_group"@),
                },
            )
        },
    }
}

/// The JSON form of the message.
pub fn process_policy_to_json(value: &ProcessPolicy) -> (r: Json)
    ensures
        r.deep_view() == JsonView::Object(process_policy_members(value.deep_view())),
{
    let mut members: Vec<(String, Json)> = Vec::new();
    assert(members.deep_view() =~= Seq::empty());
    push_member(&mut members, "run_as_group", text_to_json(value.run_as_group.as_str()));
    push_member(&mut members, "run_as_user", text_to_json(value.run_as_user.as_str()));
    assert(members.deep_view() =~= process_policy_members(value.deep_view()));
    object_to_json(members)
}

impl Form for ProcessPolicy {
    open spec fn json_form(content: ProcessPolicyView) -> JsonView {
        JsonView::Object(process_policy_members(content))
    }

    fn to_json(&self) -> (r: Json) {
        process_policy_to_json(self)
    }
}

/// The message that a JSON value is the form of.
pub fn process_policy_from_json(value: &Json) -> (r: Result<ProcessPolicy, Status>)
    ensures
        shown(r) == process_policy_read(value.deep_view()),
{
    let object = match expect_object(value, "ProcessPolicy") {
        Ok(object) => object,
        Err(error) => {
            return Err(error);
        },
    };
    let run_as_user = string_field(object, "run_as_user");
    let run_as_group = string_field(object, "run_as_group");
    Ok(ProcessPolicy { run_as_user, run_as_group })
}

impl Message for ProcessPolicy {
    open spec fn read(json: JsonView) -> Result<ProcessPolicyView, StatusView> {
        process_policy_read(json)
    }

    open spec fn is_readable(content: ProcessPolicyView) -> bool {
        true
    }

    fn from_json(value: &Json) -> (r: Result<ProcessPolicy, Status>) {
        process_policy_from_json(value)
    }

    proof fn law_round_trip(content: ProcessPolicyView) {
        reveal_strlit("run_as_group");
        reveal_strlit("run_as_user");
        let members = process_policy_members(content);
        lemma_in_order("run_as_group"@, "run_as_user"@, 7);
        reveal_with_fuel(ascend, 3);
        lemma_members_are_found(members);
        assert(members[0].0 == "run_as_group"@);
        assert(members[1].0 == "run_as_user"@);
        assert(process_policy_read(JsonView::Object(members))->Ok_0 =~= content);
    }
}

/// What a sandbox may do.
#[derive(Debug, PartialEq, Eq)]
pub struct SandboxPolicy {
    pub version: u32,
    pub filesystem: Option<FilesystemPolicy>,
    pub landlock: Option<LandlockPolicy>,
    pub process: Option<ProcessPolicy>,
    pub network_policies: Vec<(String, NetworkPolicyRule)>,
}

/// The content of the message.
#[verifier::ext_equal]
pub struct SandboxPolicyView {
    pub version: u32,
    pub filesystem: Option<FilesystemPolicyView>,
    pub landlock: Option<LandlockPolicyView>,
    pub process: Option<ProcessPolicyView>,
    pub network_policies: Seq<(Seq<char>, NetworkPolicyRuleView)>,
}

impl DeepView for SandboxPolicy {
    type V = SandboxPolicyView;

    open spec fn deep_view(&self) -> SandboxPolicyView {
        SandboxPolicyView {
            version: self.version,
            filesystem: self.filesystem.deep_view(),
            landlock: self.landlock.deep_view(),
            process: self.process.deep_view(),
            network_policies: self.network_policies.deep_view(),
        }
    }
}

/// The members of the JSON form, in order.
pub open spec fn sandbox_policy_members(content: SandboxPolicyView) -> Members {
    seq![
        ("filesystem"@, message_form::<FilesystemPolicy>(content.filesystem)),
        ("landlock"@, message_form::<LandlockPolicy>(content.landlock)),
        ("network_policies"@, message_map_form::<NetworkPolicyRule>(content.network_policies)),
        ("process"@, message_form::<ProcessPolicy>(content.process)),
        ("version"@, u64_form(content.version as u64)),
    ]
}

/// The message that a JSON value is the form of.
pub open spec fn sandbox_policy_read(json: JsonView) -> Result<SandboxPolicyView, StatusView> {
    match object_in(json, "SandboxPolicy"@) {
        Err(error) => Err(error),
        Ok(object) => {
            let version = u32_at(object, "version"@);
            let filesystem = message_at::<FilesystemPolicy>(object, "filesystem"@);
            let landlock = message_at::<LandlockPolicy>(object, "landlock"@);
            let process = message_at::<ProcessPolicy>(object, "process"@);
            let network_policies = message_map_at::<NetworkPolicyRule>(object, "network_policies"@);
            if version is Err {
                Err(version->Err_0)
            } else if filesystem is Err {
                Err(filesystem->Err_0)
            } else if landlock is Err {
                Err(landlock->Err_0)
            } else if process is Err {
                Err(process->Err_0)
            } else if network_policies is Err {
                Err(network_policies->Err_0)
            } else {
                Ok(
                    SandboxPolicyView {
                        version: version->Ok_0,
                        filesystem: filesystem->Ok_0,
                        landlock: landlock->Ok_0,
                        process: process->Ok_0,
                        network_policies: network_policies->Ok_0,
                    },
                )
            }
        },
    }
}

/// The JSON form of the message.
pub fn sandbox_policy_to_json(value: &SandboxPolicy) -> (r: Json)
    ensures
        r.deep_view() == JsonView::Object(sandbox_policy_members(value.deep_view())),
{
    let mut members: Vec<(String, Json)> = Vec::new();
    assert(members.deep_view() =~= Seq::empty());
    push_member(&mut members, "filesystem", message_to_json(&value.filesystem));
    push_member(&mut members, "landlock", message_to_json(&value.landlock));
    push_member(&mut members, "network_policies", message_map_to_json(&value.network_policies));
    push_member(&mut members, "process", message_to_json(&value.process));
    push_member(&mut members, "version", u64_to_json(value.version as u64));
    assert(members.deep_view() =~= sandbox_policy_members(value.deep_view()));
    object_to_json(members)
}

impl Form for SandboxPolicy {
    open spec fn json_form(content: SandboxPolicyView) -> JsonView {
        JsonView::Object(sandbox_policy_members(content))
    }

    fn to_json(&self) -> (r: Json) {
        sandbox_policy_to_json(self)
    }
}

/// The message that a JSON value is the form of.
pub fn sandbox_policy_from_json(value: &Json) -> (r: Result<SandboxPolicy, Status>)
    ensures
        shown(r) == sandbox_policy_read(value.deep_view()),
{
    let object = match expect_object(value, "SandboxPolicy") {
        Ok(object) => object,
        Err(error) => {
            return Err(error);
        },
    };
    let version: u32 = match u32_field(object, "version") {
        Ok(version) => version,
        Err(error) => {
            return Err(error);
        },
    };
    let filesystem = match message_field::<FilesystemPolicy>(object, "filesystem") {
        Ok(filesystem) => filesystem,
        Err(error) => {
            return Err(error);
        },
    };
    let landlock = match message_field::<LandlockPolicy>(object, "landlock") {
        Ok(landlock) => landlock,
        Err(error) => {
            return Err(error);
        },
    };
    let process = match message_field::<ProcessPolicy>(object, "process") {
        Ok(process) => process,
        Err(error) => {
            return Err(error);
        },
    };
    let network_policies = match message_map_field::<NetworkPolicyRule>(object, "network_policies") {
        Ok(network_policies) => network_policies,
        Err(error) => {
            return Err(error);
        },
    };
    Ok(SandboxPolicy { version, filesystem, landlock, process, network_policies })
}

impl Message for SandboxPolicy {
    open spec fn read(json: JsonView) -> Result<SandboxPolicyView, StatusView> {
        sandbox_policy_read(json)
    }

    open spec fn is_readable(content: SandboxPolicyView) -> bool {
        &&& optional_is_readable::<FilesystemPolicy>(content.filesystem)
        &&& optional_is_readable::<LandlockPolicy>(content.landlock)
        &&& optional_is_readable::<ProcessPolicy>(content.process)
        &&& map_is_readable::<NetworkPolicyRule>(content.network_policies)
    }

    fn from_json(value: &Json) -> (r: Result<SandboxPolicy, Status>) {
        sandbox_policy_from_json(value)
    }

    proof fn law_round_trip(content: SandboxPolicyView) {
        reveal_strlit("filesystem");
        reveal_strlit("landlock");
        reveal_strlit("network_policies");
        reveal_strlit("process");
        reveal_strlit("version");
        let members = sandbox_policy_members(content);
        lemma_in_order("filesystem"@, "landlock"@, 0);
        lemma_in_order("landlock"@, "network_policies"@, 0);
        lemma_in_order("network_policies"@, "process"@, 0);
        lemma_in_order("process"@, "version"@, 0);
        reveal_with_fuel(ascend, 6);
        lemma_members_are_found(members);
        assert(members[0].0 == "filesystem"@);
        assert(members[1].0 == "landlock"@);
        assert(members[2].0 == "network_policies"@);
        assert(members[3].0 == "process"@);
        assert(members[4].0 == "version"@);
        lemma_message_read_back::<FilesystemPolicy>(members, "filesystem"@, content.filesystem);
        lemma_message_read_back::<LandlockPolicy>(members, "landlock"@, content.landlock);
        lemma_message_read_back::<ProcessPolicy>(members, "process"@, content.process);
        lemma_message_map_read_back::<NetworkPolicyRule>(members, "network_policies"@, content.network_policies);
        assert(sandbox_policy_read(JsonView::Object(members))->Ok_0 =~= content);
    }
}

} // verus!
