//! The start of the interceptors: each configured service is connected to and
//! asked to describe itself, and the bindings that it declares are planned.
//!
//! Connections and calls are made outside: a start says what is to be done
//! next, and goes on with what came of it.

use crate::interceptors::config::{
    check_names, configured_timeout, first_naming_problem, manifest_problem, timeout_of,
    validate_manifest, BindingView, ConfigErrorView, ConfigView, InterceptorConfig,
    InterceptorConfigError, InterceptorManifest, ManifestView, Timeout, API_VERSION,
    DEFAULT_MAX_PATCH_COUNT,
};
use crate::interceptors::endpoint::{endpoint_parsed, EndpointView, InterceptorEndpoint};
use crate::interceptors::payload::{json_of_toml, struct_of, toml_value_to_struct};
use crate::interceptors::planning::{
    binding_planned, bindings_planned, disabled, in_order, law_plans_are_in_order, override_of,
    plan_bindings, PlanView, RuntimeBinding,
};
use crate::interceptors::review::{InterceptorRuntime, RuntimeView};
use crate::outcome::shown;
use crate::proto_struct::{FieldsView, Struct};
use vstd::prelude::*;

verus! {

/// How an interceptor is reached, and how long it may take.
#[derive(Debug, Clone, PartialEq, Eq)]
pub struct ServiceSettings {
    pub endpoint: InterceptorEndpoint,
    pub timeout: Timeout,
}

/// The content of a service's settings.
pub struct SettingsView {
    pub endpoint: EndpointView,
    pub timeout: Timeout,
}

impl DeepView for ServiceSettings {
    type V = SettingsView;

    open spec fn deep_view(&self) -> SettingsView {
        SettingsView { endpoint: self.endpoint.deep_view(), timeout: self.timeout }
    }
}

/// What an interceptor is asked to describe itself with.
#[derive(Debug, PartialEq)]
pub struct InterceptorDescribeRequest {
    pub api_version: String,
    pub interceptor_name: String,
    pub config: Struct,
}

/// The content of a request for a description.
#[verifier::ext_equal]
pub struct DescribeRequestView {
    pub api_version: Seq<char>,
    pub interceptor_name: Seq<char>,
    pub config: FieldsView,
}

impl DeepView for InterceptorDescribeRequest {
    type V = DescribeRequestView;

    open spec fn deep_view(&self) -> DescribeRequestView {
        DescribeRequestView {
            api_version: self.api_version@,
            interceptor_name: self.interceptor_name@,
            config: self.config.deep_view(),
        }
    }
}

/// What came of connecting to an interceptor and asking it to describe itself.
#[derive(Debug, Clone, PartialEq, Eq)]
pub enum Description {
    Unreachable(String),
    TimedOut,
    Refused(String),
    Answered(InterceptorManifest),
}

/// The content of a description.
pub enum DescriptionView {
    Unreachable(Seq<char>),
    TimedOut,
    Refused(Seq<char>),
    Answered(ManifestView),
}

impl DeepView for Description {
    type V = DescriptionView;

    open spec fn deep_view(&self) -> DescriptionView {
        match self {
            Description::Unreachable(message) => DescriptionView::Unreachable(message@),
            Description::TimedOut => DescriptionView::TimedOut,
            Description::Refused(message) => DescriptionView::Refused(message@),
            Description::Answered(manifest) => DescriptionView::Answered(manifest.deep_view()),
        }
    }
}

/// How a start goes on: with a connection, with a request for a description, or
/// not at all.
#[derive(Debug, PartialEq)]
pub enum Startup {
    Connect { config: usize, settings: ServiceSettings },
    Describe { config: usize, settings: ServiceSettings, request: InterceptorDescribeRequest },
    Ready(InterceptorRuntime),
    Failed(InterceptorConfigError),
}

/// The content of a start's next step.
pub enum StartupView {
    Connect { config: usize, settings: SettingsView },
    Describe { config: usize, settings: SettingsView, request: DescribeRequestView },
    Ready(RuntimeView),
    Failed(ConfigErrorView),
}

impl DeepView for Startup {
    type V = StartupView;

    open spec fn deep_view(&self) -> StartupView {
        match self {
            Startup::Connect { config, settings } => StartupView::Connect {
                config: *config,
                settings: settings.deep_view(),
            },
            Startup::Describe { config, settings, request } => StartupView::Describe {
                config: *config,
                settings: settings.deep_view(),
                request: request.deep_view(),
            },
            Startup::Ready(runtime) => StartupView::Ready(runtime.deep_view()),
            Startup::Failed(error) => StartupView::Failed(error.deep_view()),
        }
    }
}

/// The settings of a configured service.
pub open spec fn settings_of(config: ConfigView) -> Result<SettingsView, ConfigErrorView> {
    match endpoint_parsed(config.endpoint) {
        Err(error) => Err(error),
        Ok(endpoint) => match timeout_of(config.timeout) {
            Err(error) => Err(error),
            Ok(timeout) => Ok(SettingsView { endpoint, timeout }),
        },
    }
}

/// The settings of a configured service.
pub fn service_settings(config: &InterceptorConfig) -> (r: Result<
    ServiceSettings,
    InterceptorConfigError,
>)
    ensures
        shown(r) == settings_of(config.deep_view()),
{
    let endpoint = match InterceptorEndpoint::parse(config.endpoint.as_str()) {
        Ok(endpoint) => endpoint,
        Err(error) => {
            return Err(error);
        },
    };
    let timeout = match &config.timeout {
        Some(value) => Some(value.as_str()),
        None => None,
    };
    assert(timeout.deep_view() == config.deep_view().timeout);
    match configured_timeout(timeout) {
        Ok(timeout) => Ok(ServiceSettings { endpoint, timeout }),
        Err(error) => Err(error),
    }
}

/// What a configured service is asked to describe itself with: its own table.
pub open spec fn request_of(config: ConfigView) -> Result<DescribeRequestView, ConfigErrorView> {
    match struct_of(json_of_toml(config.config)) {
        Err(_) => Err(ConfigErrorView::ConfigMustBeTable { interceptor: config.name }),
        Ok(fields) => Ok(
            DescribeRequestView {
                api_version: API_VERSION@,
                interceptor_name: config.name,
                config: fields,
            },
        ),
    }
}

/// What a configured service is asked to describe itself with.
pub fn describe_request(config: &InterceptorConfig) -> (r: Result<
    InterceptorDescribeRequest,
    InterceptorConfigError,
>)
    ensures
        shown(r) == request_of(config.deep_view()),
{
    match toml_value_to_struct(&config.config) {
        Err(_) => Err(
            InterceptorConfigError::ConfigMustBeTable { interceptor: config.name.clone() },
        ),
        Ok(fields) => Ok(
            InterceptorDescribeRequest {
                api_version: API_VERSION.to_owned(),
                interceptor_name: config.name.clone(),
                config: fields,
            },
        ),
    }
}

/// A failed description of a service.
pub open spec fn describe_failed(config: ConfigView, message: Seq<char>) -> ConfigErrorView {
    ConfigErrorView::DescribeFailed { interceptor: config.name, message }
}

/// The plans of a described service, or what is wrong with it: its settings, the
/// connection, its configuration, the call, or its manifest, in this order.
pub open spec fn service_planned(config: ConfigView, description: DescriptionView) -> Result<
    Seq<PlanView>,
    ConfigErrorView,
> {
    match settings_of(config) {
        Err(error) => Err(error),
        Ok(_) => if let DescriptionView::Unreachable(message) = description {
            Err(describe_failed(config, message))
        } else {
            match request_of(config) {
                Err(error) => Err(error),
                Ok(_) => match description {
                    DescriptionView::Unreachable(message) => Err(describe_failed(config, message)),
                    DescriptionView::TimedOut => Err(
                        describe_failed(config, "deadline exceeded"@),
                    ),
                    DescriptionView::Refused(message) => Err(describe_failed(config, message)),
                    DescriptionView::Answered(manifest) => match manifest_problem(
                        config,
                        manifest,
                    ) {
                        Some(problem) => Err(problem),
                        None => bindings_planned(
                            config,
                            manifest.bindings,
                            manifest.bindings.len(),
                        ),
                    },
                },
            }
        },
    }
}

fn failed_description(config: &InterceptorConfig, message: &str) -> (r: InterceptorConfigError)
    ensures
        r.deep_view() == describe_failed(config.deep_view(), message@),
{
    InterceptorConfigError::DescribeFailed {
        interceptor: config.name.clone(),
        message: message.to_owned(),
    }
}

/// The plans of a described service, or what is wrong with it.
pub fn plan_service(config: &InterceptorConfig, description: &Description) -> (r: Result<
    Vec<RuntimeBinding>,
    InterceptorConfigError,
>)
    ensures
        shown(r) == service_planned(config.deep_view(), description.deep_view()),
{
    if let Err(error) = service_settings(config) {
        return Err(error);
    }
    if let Description::Unreachable(message) = description {
        return Err(failed_description(config, message.as_str()));
    }
    if let Err(error) = describe_request(config) {
        return Err(error);
    }
    match description {
        Description::Unreachable(message) => Err(failed_description(config, message.as_str())),
        Description::TimedOut => Err(failed_description(config, "deadline exceeded")),
        Description::Refused(message) => Err(failed_description(config, message.as_str())),
        Description::Answered(manifest) => {
            if let Err(error) = validate_manifest(config, manifest) {
                return Err(error);
            }
            plan_bindings(config, manifest)
        },
    }
}

/// The plans of the first `n` services, in the order of their configurations, or
/// the first error.
pub open spec fn services_planned(
    configs: Seq<ConfigView>,
    descriptions: Seq<DescriptionView>,
    n: nat,
) -> Result<Seq<PlanView>, ConfigErrorView>
    decreases n,
{
    if n == 0 || n > configs.len() || n > descriptions.len() {
        Ok(Seq::empty())
    } else {
        match services_planned(configs, descriptions, (n - 1) as nat) {
            Err(error) => Err(error),
            Ok(plans) => match service_planned(configs[n - 1], descriptions[n - 1]) {
                Err(error) => Err(error),
                Ok(more) => Ok(plans + more),
            },
        }
    }
}

/// The names of configured services.
pub open spec fn service_names(configs: Seq<ConfigView>) -> Seq<Seq<char>> {
    Seq::new(configs.len(), |i: int| configs[i].name)
}

/// What comes next for the service that is not described yet: it is connected to,
/// and once that is done it is asked.
pub open spec fn next_service(config: ConfigView, i: usize, connected: bool) -> StartupView {
    match settings_of(config) {
        Err(error) => StartupView::Failed(error),
        Ok(settings) => if connected {
            match request_of(config) {
                Err(error) => StartupView::Failed(error),
                Ok(request) => StartupView::Describe { config: i, settings, request },
            }
        } else {
            StartupView::Connect { config: i, settings }
        },
    }
}

/// How a start goes on after the descriptions of the first services, with or
/// without a connection to the next.
pub open spec fn startup_of(
    configs: Seq<ConfigView>,
    descriptions: Seq<DescriptionView>,
    connected: bool,
) -> StartupView {
    match first_naming_problem(configs, 0) {
        Some(problem) => StartupView::Failed(problem),
        None => match services_planned(configs, descriptions, descriptions.len()) {
            Err(error) => StartupView::Failed(error),
            Ok(plans) => if descriptions.len() == configs.len() {
                StartupView::Ready(
                    RuntimeView {
                        services: service_names(configs),
                        bindings: in_order(plans),
                        max_patch_count: DEFAULT_MAX_PATCH_COUNT,
                    },
                )
            } else {
                next_service(
                    configs[descriptions.len() as int],
                    descriptions.len() as usize,
                    connected,
                )
            },
        },
    }
}

proof fn lemma_services_failed(
    configs: Seq<ConfigView>,
    descriptions: Seq<DescriptionView>,
    n: nat,
)
    requires
        n <= descriptions.len() <= configs.len(),
        services_planned(configs, descriptions, n) is Err,
    ensures
        services_planned(configs, descriptions, descriptions.len()) == services_planned(
            configs,
            descriptions,
            n,
        ),
    decreases descriptions.len() - n,
{
    if n < descriptions.len() {
        assert(services_planned(configs, descriptions, n + 1) == services_planned(
            configs,
            descriptions,
            n,
        ));
        lemma_services_failed(configs, descriptions, n + 1);
    }
}

fn plan_services(configs: &Vec<InterceptorConfig>, descriptions: &Vec<Description>) -> (r: Result<
    Vec<RuntimeBinding>,
    InterceptorConfigError,
>)
    requires
        descriptions@.len() <= configs@.len(),
    ensures
        shown(r) == services_planned(
            configs.deep_view(),
            descriptions.deep_view(),
            descriptions@.len(),
        ),
{
    let ghost list = configs.deep_view();
    let ghost seen = descriptions.deep_view();
    let mut plans: Vec<RuntimeBinding> = Vec::new();
    let mut i: usize = 0;
    assert(plans.deep_view() =~= Seq::<PlanView>::empty());
    while i < descriptions.len()
        invariant
            i <= descriptions.len() <= configs.len(),
            list == configs.deep_view(),
            seen == descriptions.deep_view(),
            services_planned(list, seen, i as nat) == Ok::<Seq<PlanView>, ConfigErrorView>(
                plans.deep_view(),
            ),
        decreases descriptions.len() - i,
    {
        let ghost before = plans.deep_view();
        assert(list[i as int] == configs[i as int].deep_view());
        assert(seen[i as int] == descriptions[i as int].deep_view());
        match plan_service(&configs[i], &descriptions[i]) {
            Ok(more) => {
                let mut more = more;
                let ghost added = more.deep_view();
                plans.append(&mut more);
                assert(plans.deep_view() =~= before + added);
            },
            Err(error) => {
                proof {
                    lemma_services_failed(list, seen, (i + 1) as nat);
                }
                return Err(error);
            },
        }
        i += 1;
    }
    Ok(plans)
}

fn names_of(configs: &Vec<InterceptorConfig>) -> (r: Vec<String>)
    ensures
        r.deep_view() == service_names(configs.deep_view()),
{
    let ghost list = configs.deep_view();
    let mut names: Vec<String> = Vec::new();
    let mut i: usize = 0;
    while i < configs.len()
        invariant
            i <= configs.len(),
            names.len() == i,
            list == configs.deep_view(),
            forall|j: int| 0 <= j < i ==> #[trigger] names.deep_view()[j] == list[j].name,
        decreases configs.len() - i,
    {
        let ghost before = names.deep_view();
        assert(list[i as int] == configs[i as int].deep_view());
        names.push(configs[i].name.clone());
        assert(names.deep_view() =~= before.push(list[i as int].name));
        i += 1;
    }
    assert(names.deep_view() =~= service_names(list));
    names
}

impl InterceptorRuntime {
    /// How the start of configured interceptors goes on: `descriptions` holds
    /// what came of the first services, and `connected` tells whether the
    /// connection to the next one stands.
    pub fn from_config(
        configs: &Vec<InterceptorConfig>,
        descriptions: &Vec<Description>,
        connected: bool,
    ) -> (r: Startup)
        requires
            descriptions@.len() <= configs@.len(),
        ensures
            r.deep_view() == startup_of(configs.deep_view(), descriptions.deep_view(), connected),
    {
        if let Err(error) = check_names(configs) {
            return Startup::Failed(error);
        }
        let plans = match plan_services(configs, descriptions) {
            Ok(plans) => plans,
            Err(error) => {
                return Startup::Failed(error);
            },
        };
        let next: usize = descriptions.len();
        if next == configs.len() {
            return Startup::Ready(InterceptorRuntime::from_plans(names_of(configs), plans));
        }
        let config = &configs[next];
        assert(configs.deep_view()[next as int] == config.deep_view());
        let settings = match service_settings(config) {
            Ok(settings) => settings,
            Err(error) => {
                return Startup::Failed(error);
            },
        };
        if !connected {
            return Startup::Connect { config: next, settings };
        }
        match describe_request(config) {
            Ok(request) => Startup::Describe { config: next, settings, request },
            Err(error) => Startup::Failed(error),
        }
    }
}

proof fn lemma_plans_are_of_their_service(
    config: ConfigView,
    description: DescriptionView,
    i: int,
)
    requires
        service_planned(config, description) is Ok,
        0 <= i < service_planned(config, description)->Ok_0.len(),
    ensures
        service_planned(config, description)->Ok_0[i].interceptor_name == config.name,
{
    let manifest = description->Answered_0;
    lemma_bindings_are_of_their_service(config, manifest.bindings, manifest.bindings.len(), i);
}

proof fn lemma_bindings_are_of_their_service(
    config: ConfigView,
    bindings: Seq<BindingView>,
    n: nat,
    i: int,
)
    requires
        bindings_planned(config, bindings, n) is Ok,
        0 <= i < bindings_planned(config, bindings, n)->Ok_0.len(),
    ensures
        bindings_planned(config, bindings, n)->Ok_0[i].interceptor_name == config.name,
    decreases n,
{
    if 0 < n <= bindings.len() {
        let fewer = bindings_planned(config, bindings, (n - 1) as nat)->Ok_0;
        if i < fewer.len() {
            lemma_bindings_are_of_their_service(config, bindings, (n - 1) as nat, i);
        } else {
            let binding = bindings[n - 1];
            let chosen = override_of(config.overrides, binding.id);
            assert(!disabled(chosen));
            assert(binding_planned(config, binding, chosen)->Ok_0.interceptor_name == config.name);
        }
    }
}

proof fn lemma_all_plans_are_of_services(
    configs: Seq<ConfigView>,
    descriptions: Seq<DescriptionView>,
    n: nat,
    i: int,
)
    requires
        services_planned(configs, descriptions, n) is Ok,
        0 <= i < services_planned(configs, descriptions, n)->Ok_0.len(),
    ensures
        service_names(configs).contains(
            services_planned(configs, descriptions, n)->Ok_0[i].interceptor_name,
        ),
    decreases n,
{
    if 0 < n <= configs.len() && n <= descriptions.len() {
        let fewer = services_planned(configs, descriptions, (n - 1) as nat)->Ok_0;
        if i < fewer.len() {
            lemma_all_plans_are_of_services(configs, descriptions, (n - 1) as nat, i);
        } else {
            lemma_plans_are_of_their_service(
                configs[n - 1],
                descriptions[n - 1],
                i - fewer.len(),
            );
            assert(service_names(configs)[n - 1] == configs[n - 1].name);
        }
    }
}

/// A runtime that started has the service of each of its bindings.
pub proof fn law_started_bindings_have_services(
    configs: Seq<ConfigView>,
    descriptions: Seq<DescriptionView>,
    connected: bool,
    i: int,
)
    requires
        startup_of(configs, descriptions, connected) is Ready,
        0 <= i < startup_of(configs, descriptions, connected)->Ready_0.bindings.len(),
    ensures
        startup_of(configs, descriptions, connected)->Ready_0.services.contains(
            startup_of(configs, descriptions, connected)->Ready_0.bindings[i].interceptor_name,
        ),
{
    broadcast use vstd::seq_lib::group_to_multiset_ensures;

    let plans = services_planned(configs, descriptions, descriptions.len())->Ok_0;
    law_plans_are_in_order(plans);
    let plan = in_order(plans)[i];
    assert(in_order(plans).contains(plan));
    assert(in_order(plans).to_multiset().count(plan) > 0);
    assert(plans.contains(plan));
    let j = choose|j: int| 0 <= j < plans.len() && plans[j] == plan;
    lemma_all_plans_are_of_services(configs, descriptions, descriptions.len(), j);
}

/// Without configurations the runtime is the empty one.
pub proof fn law_nothing_configured_starts_at_once(connected: bool)
    ensures
        startup_of(Seq::empty(), Seq::empty(), connected) == StartupView::Ready(
            RuntimeView {
                services: Seq::empty(),
                bindings: Seq::empty(),
                max_patch_count: DEFAULT_MAX_PATCH_COUNT,
            },
        ),
{
    assert(service_names(Seq::empty()) =~= Seq::<Seq<char>>::empty());
}

} // verus!
