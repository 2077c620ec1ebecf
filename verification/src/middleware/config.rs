//! The configuration of the built-in middlewares, as policies own it.

use crate::middleware::builtins::unavailable;
use crate::middleware::BUILTIN_SECRETS;
use crate::outcome::shown;
use crate::proto_struct::{FieldsView, Struct, Value, ValueView};
use crate::text;
use crate::text::{cat3, cat5};
use vstd::prelude::*;

verus! {

/// Supported modes of the built-in secret redaction.
#[derive(Debug, Clone, Copy, PartialEq, Eq, Structural)]
pub enum SecretsMode {
    Redact,
}

impl Default for SecretsMode {
    fn default() -> (r: SecretsMode)
        ensures
            r == SecretsMode::Redact,
    {
        SecretsMode::Redact
    }
}

/// The configuration of the built-in secret redaction.
#[derive(Debug, Clone, Copy, PartialEq, Eq, Structural)]
pub struct SecretsConfig {
    /// The redaction mode.
    pub secrets: SecretsMode,
}

impl Default for SecretsConfig {
    fn default() -> (r: SecretsConfig)
        ensures
            r.secrets == SecretsMode::Redact,
    {
        SecretsConfig { secrets: SecretsMode::Redact }
    }
}

impl DeepView for SecretsConfig {
    type V = SecretsConfig;

    open spec fn deep_view(&self) -> SecretsConfig {
        *self
    }
}

/// What is said of a configuration that could not be decoded.
pub open spec fn undecodable(problem: Seq<char>) -> Seq<char> {
    "invalid "@ + BUILTIN_SECRETS@ + " config: "@ + problem
        + "; phase 1 supports only secrets: redact"@
}

/// What is said of a value that is no text, by its kind.
pub open spec fn wrong_type(kind: Seq<char>) -> Option<Seq<char>> {
    Some("invalid type: "@ + kind + ", expected string"@)
}

/// What is wrong with a field of the configuration: it has to be `secrets`, and the
/// text `redact`.
pub open spec fn field_problem(key: Seq<char>, value: ValueView) -> Option<Seq<char>> {
    if key != "secrets"@ {
        Some("unknown field `"@ + key + "`, expected `secrets`"@)
    } else {
        match value {
            ValueView::Text(mode) => if mode == "redact"@ {
                None
            } else {
                Some("unknown variant `"@ + mode + "`, expected `redact`"@)
            },
            ValueView::Unset => wrong_type("null"@),
            ValueView::Null => wrong_type("null"@),
            ValueView::Number(_) => wrong_type("number"@),
            ValueView::Bool(_) => wrong_type("boolean"@),
            ValueView::Struct(_) => wrong_type("map"@),
            ValueView::List(_) => wrong_type("sequence"@),
        }
    }
}

/// What is wrong with the first wrong field of a configuration.
pub open spec fn config_problem(config: FieldsView) -> Option<Seq<char>>
    decreases config.len(),
{
    if config.len() == 0 {
        None
    } else {
        match field_problem(config[0].0, config[0].1) {
            Some(problem) => Some(problem),
            None => config_problem(config.skip(1)),
        }
    }
}

/// The configuration that a struct holds. An omitted field selects the default.
pub open spec fn secrets_config(config: FieldsView) -> Result<SecretsConfig, Seq<char>> {
    match config_problem(config) {
        None => Ok(SecretsConfig { secrets: SecretsMode::Redact }),
        Some(problem) => Err(undecodable(problem)),
    }
}

/// What is said of the configuration of a built-in middleware.
pub open spec fn builtin_verdict(implementation: Seq<char>, config: FieldsView) -> Result<
    (),
    Seq<char>,
> {
    if implementation == BUILTIN_SECRETS@ {
        match secrets_config(config) {
            Ok(_) => Ok(()),
            Err(message) => Err(message),
        }
    } else {
        Err(unavailable(implementation))
    }
}

fn mistyped(kind: &str) -> (r: Option<String>)
    ensures
        r.deep_view() == wrong_type(kind@),
{
    Some(cat3("invalid type: ", kind, ", expected string"))
}

fn check_field(key: &str, value: &Value) -> (r: Option<String>)
    ensures
        r.deep_view() == field_problem(key@, value.deep_view()),
{
    broadcast use crate::proto_struct::group_value_views;

    if !text::same(key, "secrets") {
        return Some(cat3("unknown field `", key, "`, expected `secrets`"));
    }
    match value {
        Value::Text(mode) => {
            if text::same(mode.as_str(), "redact") {
                None
            } else {
                Some(cat3("unknown variant `", mode.as_str(), "`, expected `redact`"))
            }
        },
        Value::Unset => mistyped("null"),
        Value::Null => mistyped("null"),
        Value::Number(_) => mistyped("number"),
        Value::Bool(_) => mistyped("boolean"),
        Value::Struct(_) => mistyped("map"),
        Value::List(_) => mistyped("sequence"),
    }
}

/// What is wrong with the first wrong field of a configuration.
pub fn find_problem(config: &Struct) -> (r: Option<String>)
    ensures
        r.deep_view() == config_problem(config.deep_view()),
{
    let ghost list = config.fields.deep_view();
    let mut i: usize = 0;
    assert(list.skip(0) =~= list);
    while i < config.fields.len()
        invariant
            i <= config.fields.len(),
            list == config.fields.deep_view(),
            config_problem(list) == config_problem(list.skip(i as int)),
        decreases config.fields.len() - i,
    {
        proof {
            assert(list.skip(i as int)[0] == (
                config.fields@[i as int].0@,
                config.fields@[i as int].1.deep_view(),
            ));
            assert(list.skip(i as int).skip(1) =~= list.skip(i + 1));
        }
        let problem = check_field(config.fields[i].0.as_str(), &config.fields[i].1);
        if problem.is_some() {
            return problem;
        }
        i += 1;
    }
    None
}

impl SecretsConfig {
    /// The configuration that a struct holds. Unknown fields and values of another
    /// type are refused.
    pub fn from_struct(config: &Struct) -> (r: Result<SecretsConfig, String>)
        ensures
            shown(r) == secrets_config(config.deep_view()),
    {
        match find_problem(config) {
            None => Ok(SecretsConfig { secrets: SecretsMode::Redact }),
            Some(problem) => Err(
                cat5(
                    "invalid ",
                    BUILTIN_SECRETS,
                    " config: ",
                    problem.as_str(),
                    "; phase 1 supports only secrets: redact",
                ),
            ),
        }
    }
}

/// Checks the configuration of a built-in middleware.
pub fn validate_builtin_config(implementation: &str, config: &Struct) -> (r: Result<(), String>)
    ensures
        shown(r) == builtin_verdict(implementation@, config.deep_view()),
{
    if text::same(implementation, BUILTIN_SECRETS) {
        match SecretsConfig::from_struct(config) {
            Ok(_) => Ok(()),
            Err(message) => Err(message),
        }
    } else {
        Err(
            cat3(
                "middleware implementation '",
                implementation,
                "' is not available in phase 1",
            ),
        )
    }
}

/// A configuration is accepted exactly where it is one of the built-in secret
/// redaction, and every field of it is `secrets` with the text `redact`.
pub proof fn law_accepted_configurations(implementation: Seq<char>, config: FieldsView)
    ensures
        builtin_verdict(implementation, config) is Ok <==> implementation == BUILTIN_SECRETS@
            && forall|i: int|
            0 <= i < config.len() ==> (#[trigger] config[i]) == ("secrets"@, ValueView::Text(
                "redact"@,
            )),
{
    lemma_accepted_fields(config);
}

proof fn lemma_accepted_fields(config: FieldsView)
    ensures
        config_problem(config) is None <==> forall|i: int|
            0 <= i < config.len() ==> (#[trigger] config[i]) == ("secrets"@, ValueView::Text(
                "redact"@,
            )),
    decreases config.len(),
{
    if config.len() > 0 {
        let rest = config.skip(1);
        lemma_accepted_fields(rest);
        let wanted = ("secrets"@, ValueView::Text("redact"@));
        assert(field_problem(config[0].0, config[0].1) is None <==> config[0] == wanted);
        if forall|i: int| 0 <= i < config.len() ==> (#[trigger] config[i]) == wanted {
            assert forall|i: int| 0 <= i < rest.len() implies (#[trigger] rest[i]) == wanted by {
                assert(rest[i] == config[i + 1]);
            }
        }
        if config_problem(config) is None {
            assert forall|i: int| 0 <= i < config.len() implies (#[trigger] config[i])
                == wanted by {
                if i > 0 {
                    assert(rest[i - 1] == config[i]);
                }
            }
        }
    }
}

} // verus!
