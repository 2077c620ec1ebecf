//! Policy documents, as written and as the prover reads them.
//!
//! A document arrives as the fields of its YAML text. `PolicyModel` is what the
//! prover works on: defaults are filled in and the names of fields that no part
//! of the prover knows are kept, so that they can be refused later.

use crate::ordered;
use vstd::prelude::*;

verus! {

// ---------------------------------------------------------------------------
// The document as written
// ---------------------------------------------------------------------------

/// The top level of a policy document. `extra` holds the names of the fields
/// that are not listed here, in order.
#[derive(Debug)]
pub struct PolicyFile {
    pub version: Option<u32>,
    pub metadata: Option<ManagedPolicyMetadataDef>,
    pub filesystem_policy: Option<FilesystemDef>,
    pub network_policies: Option<Vec<(String, NetworkPolicyRuleDef)>>,
    pub extra: Vec<String>,
}

/// The `metadata` block of a managed maximum document.
#[derive(Debug)]
pub struct ManagedPolicyMetadataDef {
    pub policy_id: String,
    pub version: u64,
    pub allowed_modes: Vec<String>,
    pub default_mode: String,
    pub audit_label: String,
    pub extra: Vec<String>,
}

/// The `filesystem_policy` block.
#[derive(Debug)]
pub struct FilesystemDef {
    pub include_workdir: bool,
    pub read_only: Vec<String>,
    pub read_write: Vec<String>,
    pub extra: Vec<String>,
}

/// One entry of `network_policies`.
#[derive(Debug)]
pub struct NetworkPolicyRuleDef {
    pub name: Option<String>,
    pub endpoints: Vec<EndpointDef>,
    pub binaries: Vec<BinaryDef>,
    pub extra: Vec<String>,
}

/// One endpoint of a network rule.
#[derive(Debug)]
pub struct EndpointDef {
    pub host: String,
    pub path: String,
    pub port: u16,
    pub ports: Vec<u16>,
    pub protocol: String,
    pub tls: String,
    pub enforcement: String,
    pub access: String,
    pub rules: Vec<L7RuleDef>,
    pub allowed_ips: Vec<String>,
    pub deny_rules: Vec<L7DenyRuleDef>,
    pub review: Option<ReviewRequirementDef>,
    pub extra: Vec<String>,
}

/// One allow rule: an `allow` block, and the names of the fields beside it.
#[derive(Debug)]
pub struct L7RuleDef {
    pub allow: L7AllowDef,
    pub extra: Vec<String>,
}

/// The `allow` block of an allow rule.
#[derive(Debug)]
pub struct L7AllowDef {
    pub method: String,
    pub path: String,
    pub command: String,
    pub review: Option<ReviewRequirementDef>,
    pub extra: Vec<String>,
}

/// One deny rule.
#[derive(Debug)]
pub struct L7DenyRuleDef {
    pub method: String,
    pub path: String,
    pub command: String,
    pub extra: Vec<String>,
}

/// A `review` block.
#[derive(Debug)]
pub struct ReviewRequirementDef {
    pub required: bool,
    pub reason: String,
    pub extra: Vec<String>,
}

/// One binary of a network rule.
#[derive(Debug)]
pub struct BinaryDef {
    pub path: String,
    pub extra: Vec<String>,
}

// ---------------------------------------------------------------------------
// The model
// ---------------------------------------------------------------------------

/// A single L7 rule (method and path) on an endpoint.
#[derive(Debug, Clone)]
pub struct L7Rule {
    pub method: String,
    pub path: String,
    pub command: String,
    pub review: ReviewRequirement,
    pub extra_fields: Vec<String>,
}

/// A single L7 deny rule.
#[derive(Debug, Clone)]
pub struct L7DenyRule {
    pub method: String,
    pub path: String,
    pub command: String,
    pub extra_fields: Vec<String>,
}

/// Review metadata attached to an allow surface in a managed maximum.
#[derive(Debug, Clone, PartialEq, Eq)]
pub struct ReviewRequirement {
    pub required: bool,
    pub reason: String,
    pub extra_fields: Vec<String>,
}

/// A network endpoint in the policy.
#[derive(Debug, Clone)]
pub struct Endpoint {
    pub host: String,
    pub path: String,
    pub port: u16,
    pub ports: Vec<u16>,
    pub protocol: String,
    pub tls: String,
    pub enforcement: String,
    pub access: String,
    pub rules: Vec<L7Rule>,
    pub allowed_ips: Vec<String>,
    pub deny_rules: Vec<L7DenyRule>,
    pub review: ReviewRequirement,
    pub extra_fields: Vec<String>,
}

/// A binary path entry in a network policy rule.
#[derive(Debug, Clone)]
pub struct Binary {
    pub path: String,
    pub extra_fields: Vec<String>,
}

/// A named network policy rule containing endpoints and binaries.
#[derive(Debug, Clone)]
pub struct NetworkPolicyRule {
    pub name: String,
    pub endpoints: Vec<Endpoint>,
    pub binaries: Vec<Binary>,
    pub extra_fields: Vec<String>,
}

/// Filesystem access policy.
#[derive(Debug, Clone)]
pub struct FilesystemPolicy {
    pub include_workdir: bool,
    pub read_only: Vec<String>,
    pub read_write: Vec<String>,
    pub extra_fields: Vec<String>,
}

/// Gateway-owned metadata present only on managed maximum policy documents.
#[derive(Debug, Clone, PartialEq, Eq)]
pub struct ManagedPolicyMetadata {
    pub policy_id: String,
    pub version: u64,
    pub allowed_modes: Vec<String>,
    pub default_mode: String,
    pub audit_label: String,
    pub extra_fields: Vec<String>,
}

/// The top-level policy model used by the prover. The network policies stand in
/// the order of their keys.
#[derive(Debug, Clone)]
pub struct PolicyModel {
    pub version: u32,
    pub managed_metadata: Option<ManagedPolicyMetadata>,
    pub filesystem_policy: FilesystemPolicy,
    pub network_policies: Vec<(String, NetworkPolicyRule)>,
    pub extra_fields: Vec<String>,
}

// ---------------------------------------------------------------------------
// Views
// ---------------------------------------------------------------------------

/// The content of an allow rule.
pub struct L7RuleView {
    pub method: Seq<char>,
    pub path: Seq<char>,
    pub command: Seq<char>,
    pub review: ReviewView,
    pub extra_fields: Seq<Seq<char>>,
}

/// The content of a deny rule.
pub struct L7DenyRuleView {
    pub method: Seq<char>,
    pub path: Seq<char>,
    pub command: Seq<char>,
    pub extra_fields: Seq<Seq<char>>,
}

/// The content of a review requirement.
pub struct ReviewView {
    pub required: bool,
    pub reason: Seq<char>,
    pub extra_fields: Seq<Seq<char>>,
}

/// The content of an endpoint.
pub struct EndpointView {
    pub host: Seq<char>,
    pub path: Seq<char>,
    pub port: u16,
    pub ports: Seq<u16>,
    pub protocol: Seq<char>,
    pub tls: Seq<char>,
    pub enforcement: Seq<char>,
    pub access: Seq<char>,
    pub rules: Seq<L7RuleView>,
    pub allowed_ips: Seq<Seq<char>>,
    pub deny_rules: Seq<L7DenyRuleView>,
    pub review: ReviewView,
    pub extra_fields: Seq<Seq<char>>,
}

/// The content of a binary entry.
pub struct BinaryView {
    pub path: Seq<char>,
    pub extra_fields: Seq<Seq<char>>,
}

/// The content of a network rule.
pub struct RuleView {
    pub name: Seq<char>,
    pub endpoints: Seq<EndpointView>,
    pub binaries: Seq<BinaryView>,
    pub extra_fields: Seq<Seq<char>>,
}

/// The content of a filesystem policy.
pub struct FilesystemView {
    pub include_workdir: bool,
    pub read_only: Seq<Seq<char>>,
    pub read_write: Seq<Seq<char>>,
    pub extra_fields: Seq<Seq<char>>,
}

/// The content of managed metadata.
pub struct MetadataView {
    pub policy_id: Seq<char>,
    pub version: u64,
    pub allowed_modes: Seq<Seq<char>>,
    pub default_mode: Seq<char>,
    pub audit_label: Seq<char>,
    pub extra_fields: Seq<Seq<char>>,
}

/// The content of a policy model.
pub struct PolicyView {
    pub version: u32,
    pub managed_metadata: Option<MetadataView>,
    pub filesystem_policy: FilesystemView,
    pub network_policies: Seq<(Seq<char>, RuleView)>,
    pub extra_fields: Seq<Seq<char>>,
}

impl DeepView for L7Rule {
    type V = L7RuleView;

    open spec fn deep_view(&self) -> L7RuleView {
        L7RuleView {
            method: self.method@,
            path: self.path@,
            command: self.command@,
            review: self.review.deep_view(),
            extra_fields: self.extra_fields.deep_view(),
        }
    }
}

impl DeepView for L7DenyRule {
    type V = L7DenyRuleView;

    open spec fn deep_view(&self) -> L7DenyRuleView {
        L7DenyRuleView {
            method: self.method@,
            path: self.path@,
            command: self.command@,
            extra_fields: self.extra_fields.deep_view(),
        }
    }
}

impl DeepView for ReviewRequirement {
    type V = ReviewView;

    open spec fn deep_view(&self) -> ReviewView {
        ReviewView {
            required: self.required,
            reason: self.reason@,
            extra_fields: self.extra_fields.deep_view(),
        }
    }
}

impl DeepView for Endpoint {
    type V = EndpointView;

    open spec fn deep_view(&self) -> EndpointView {
        EndpointView {
            host: self.host@,
            path: self.path@,
            port: self.port,
            ports: self.ports@,
            protocol: self.protocol@,
            tls: self.tls@,
            enforcement: self.enforcement@,
            access: self.access@,
            rules: self.rules.deep_view(),
            allowed_ips: self.allowed_ips.deep_view(),
            deny_rules: self.deny_rules.deep_view(),
            review: self.review.deep_view(),
            extra_fields: self.extra_fields.deep_view(),
        }
    }
}

impl DeepView for Binary {
    type V = BinaryView;

    open spec fn deep_view(&self) -> BinaryView {
        BinaryView { path: self.path@, extra_fields: self.extra_fields.deep_view() }
    }
}

impl DeepView for NetworkPolicyRule {
    type V = RuleView;

    open spec fn deep_view(&self) -> RuleView {
        RuleView {
            name: self.name@,
            endpoints: self.endpoints.deep_view(),
            binaries: self.binaries.deep_view(),
            extra_fields: self.extra_fields.deep_view(),
        }
    }
}

impl DeepView for FilesystemPolicy {
    type V = FilesystemView;

    open spec fn deep_view(&self) -> FilesystemView {
        FilesystemView {
            include_workdir: self.include_workdir,
            read_only: self.read_only.deep_view(),
            read_write: self.read_write.deep_view(),
            extra_fields: self.extra_fields.deep_view(),
        }
    }
}

impl DeepView for ManagedPolicyMetadata {
    type V = MetadataView;

    open spec fn deep_view(&self) -> MetadataView {
        MetadataView {
            policy_id: self.policy_id@,
            version: self.version,
            allowed_modes: self.allowed_modes.deep_view(),
            default_mode: self.default_mode@,
            audit_label: self.audit_label@,
            extra_fields: self.extra_fields.deep_view(),
        }
    }
}

impl DeepView for PolicyModel {
    type V = PolicyView;

    open spec fn deep_view(&self) -> PolicyView {
        PolicyView {
            version: self.version,
            managed_metadata: self.managed_metadata.deep_view(),
            filesystem_policy: self.filesystem_policy.deep_view(),
            network_policies: self.network_policies.deep_view(),
            extra_fields: self.extra_fields.deep_view(),
        }
    }
}

// ---------------------------------------------------------------------------
// From the document to the model
// ---------------------------------------------------------------------------

/// The review requirement of an optional `review` block.
pub open spec fn review_of(review: Option<ReviewRequirementDef>) -> ReviewView {
    match review {
        Some(r) => ReviewView {
            required: r.required,
            reason: r.reason@,
            extra_fields: r.extra.deep_view(),
        },
        None => ReviewView { required: false, reason: Seq::empty(), extra_fields: Seq::empty() },
    }
}

/// The model of an allow rule. The unknown fields of the rule and of its
/// `allow` block stand together, in order and without repeats.
pub open spec fn rule_of(def: L7RuleDef) -> L7RuleView {
    L7RuleView {
        method: def.allow.method@,
        path: def.allow.path@,
        command: def.allow.command@,
        review: review_of(def.allow.review),
        extra_fields: ordered::sorted_unique(def.extra.deep_view() + def.allow.extra.deep_view()),
    }
}

/// The model of a deny rule.
pub open spec fn deny_rule_of(def: L7DenyRuleDef) -> L7DenyRuleView {
    L7DenyRuleView {
        method: def.method@,
        path: def.path@,
        command: def.command@,
        extra_fields: def.extra.deep_view(),
    }
}

/// The model of an endpoint.
pub open spec fn endpoint_of(def: EndpointDef) -> EndpointView {
    EndpointView {
        host: def.host@,
        path: def.path@,
        port: def.port,
        ports: def.ports@,
        protocol: def.protocol@,
        tls: def.tls@,
        enforcement: def.enforcement@,
        access: def.access@,
        rules: Seq::new(def.rules@.len(), |i: int| rule_of(def.rules@[i])),
        allowed_ips: def.allowed_ips.deep_view(),
        deny_rules: Seq::new(def.deny_rules@.len(), |i: int| deny_rule_of(def.deny_rules@[i])),
        review: review_of(def.review),
        extra_fields: def.extra.deep_view(),
    }
}

/// The model of a network rule. A rule without a name takes its key.
pub open spec fn network_rule_of(key: Seq<char>, def: NetworkPolicyRuleDef) -> RuleView {
    RuleView {
        name: match def.name {
            Some(name) => name@,
            None => key,
        },
        endpoints: Seq::new(def.endpoints@.len(), |i: int| endpoint_of(def.endpoints@[i])),
        binaries: Seq::new(
            def.binaries@.len(),
            |i: int|
                BinaryView {
                    path: def.binaries@[i].path@,
                    extra_fields: def.binaries@[i].extra.deep_view(),
                },
        ),
        extra_fields: def.extra.deep_view(),
    }
}

/// The filesystem policy of an optional `filesystem_policy` block.
pub open spec fn filesystem_of(def: Option<FilesystemDef>) -> FilesystemView {
    match def {
        Some(d) => FilesystemView {
            include_workdir: d.include_workdir,
            read_only: d.read_only.deep_view(),
            read_write: d.read_write.deep_view(),
            extra_fields: d.extra.deep_view(),
        },
        None => FilesystemView {
            include_workdir: false,
            read_only: Seq::empty(),
            read_write: Seq::empty(),
            extra_fields: Seq::empty(),
        },
    }
}

/// The managed metadata of an optional `metadata` block.
pub open spec fn metadata_of(def: Option<ManagedPolicyMetadataDef>) -> Option<MetadataView> {
    match def {
        Some(d) => Some(
            MetadataView {
                policy_id: d.policy_id@,
                version: d.version,
                allowed_modes: d.allowed_modes.deep_view(),
                default_mode: d.default_mode@,
                audit_label: d.audit_label@,
                extra_fields: d.extra.deep_view(),
            },
        ),
        None => None,
    }
}

/// The network rules of an optional `network_policies` block.
pub open spec fn network_rules_of(
    def: Option<Vec<(String, NetworkPolicyRuleDef)>>,
) -> Seq<(Seq<char>, RuleView)> {
    match def {
        Some(rules) => Seq::new(
            rules@.len(),
            |i: int| (rules@[i].0@, network_rule_of(rules@[i].0@, rules@[i].1)),
        ),
        None => Seq::empty(),
    }
}

/// The model of a policy document.
pub open spec fn model_of(file: PolicyFile) -> PolicyView {
    PolicyView {
        version: match file.version {
            Some(version) => version,
            None => 1,
        },
        managed_metadata: metadata_of(file.metadata),
        filesystem_policy: filesystem_of(file.filesystem_policy),
        network_policies: network_rules_of(file.network_policies),
        extra_fields: file.extra.deep_view(),
    }
}

fn review_requirement(review: &Option<ReviewRequirementDef>) -> (r: ReviewRequirement)
    ensures
        r.deep_view() == review_of(*review),
{
    match review {
        Some(review) => ReviewRequirement {
            required: review.required,
            reason: review.reason.clone(),
            extra_fields: review.extra.clone(),
        },
        None => {
            let r = ReviewRequirement {
                required: false,
                reason: String::new(),
                extra_fields: Vec::new(),
            };
            assert(r.deep_view().extra_fields =~= Seq::empty());
            r
        },
    }
}

fn allow_rules(defs: &Vec<L7RuleDef>) -> (r: Vec<L7Rule>)
    ensures
        r.deep_view() == Seq::new(defs@.len(), |i: int| rule_of(defs@[i])),
{
    let mut out: Vec<L7Rule> = Vec::new();
    let mut i: usize = 0;
    while i < defs.len()
        invariant
            i <= defs.len(),
            out.len() == i,
            forall|j: int| 0 <= j < i ==> #[trigger] out.deep_view()[j] == rule_of(defs@[j]),
        decreases defs.len() - i,
    {
        let def = &defs[i];
        let ghost before = out.deep_view();
        let mut extra = def.extra.clone();
        let mut inner = def.allow.extra.clone();
        let ghost joined = extra.deep_view() + inner.deep_view();
        extra.append(&mut inner);
        assert(extra.deep_view() =~= joined);
        out.push(
            L7Rule {
                method: def.allow.method.clone(),
                path: def.allow.path.clone(),
                command: def.allow.command.clone(),
                review: review_requirement(&def.allow.review),
                extra_fields: ordered::sort_unique(&extra),
            },
        );
        assert forall|j: int| 0 <= j < i + 1 implies #[trigger] out.deep_view()[j] == rule_of(
            defs@[j],
        ) by {
            if j < i {
                assert(out.deep_view()[j] == before[j]);
            }
        }
        i += 1;
    }
    assert(out.deep_view() =~= Seq::new(defs@.len(), |i: int| rule_of(defs@[i])));
    out
}

fn deny_rules(defs: &Vec<L7DenyRuleDef>) -> (r: Vec<L7DenyRule>)
    ensures
        r.deep_view() == Seq::new(defs@.len(), |i: int| deny_rule_of(defs@[i])),
{
    let mut out: Vec<L7DenyRule> = Vec::new();
    let mut i: usize = 0;
    while i < defs.len()
        invariant
            i <= defs.len(),
            out.len() == i,
            forall|j: int| 0 <= j < i ==> #[trigger] out.deep_view()[j] == deny_rule_of(defs@[j]),
        decreases defs.len() - i,
    {
        let def = &defs[i];
        let ghost before = out.deep_view();
        out.push(
            L7DenyRule {
                method: def.method.clone(),
                path: def.path.clone(),
                command: def.command.clone(),
                extra_fields: def.extra.clone(),
            },
        );
        assert forall|j: int| 0 <= j < i + 1 implies #[trigger] out.deep_view()[j] == deny_rule_of(
            defs@[j],
        ) by {
            if j < i {
                assert(out.deep_view()[j] == before[j]);
            }
        }
        i += 1;
    }
    assert(out.deep_view() =~= Seq::new(defs@.len(), |i: int| deny_rule_of(defs@[i])));
    out
}

fn endpoint(def: &EndpointDef) -> (r: Endpoint)
    ensures
        r.deep_view() == endpoint_of(*def),
{
    Endpoint {
        host: def.host.clone(),
        path: def.path.clone(),
        port: def.port,
        ports: def.ports.clone(),
        protocol: def.protocol.clone(),
        tls: def.tls.clone(),
        enforcement: def.enforcement.clone(),
        access: def.access.clone(),
        rules: allow_rules(&def.rules),
        allowed_ips: def.allowed_ips.clone(),
        deny_rules: deny_rules(&def.deny_rules),
        review: review_requirement(&def.review),
        extra_fields: def.extra.clone(),
    }
}

fn network_rule(key: &String, def: &NetworkPolicyRuleDef) -> (r: NetworkPolicyRule)
    ensures
        r.deep_view() == network_rule_of(key@, *def),
{
    let mut endpoints: Vec<Endpoint> = Vec::new();
    let mut i: usize = 0;
    while i < def.endpoints.len()
        invariant
            i <= def.endpoints.len(),
            endpoints.len() == i,
            forall|j: int|
                0 <= j < i ==> #[trigger] endpoints.deep_view()[j] == endpoint_of(
                    def.endpoints@[j],
                ),
        decreases def.endpoints.len() - i,
    {
        let ghost before = endpoints.deep_view();
        endpoints.push(endpoint(&def.endpoints[i]));
        assert forall|j: int| 0 <= j < i + 1 implies #[trigger] endpoints.deep_view()[j]
            == endpoint_of(def.endpoints@[j]) by {
            if j < i {
                assert(endpoints.deep_view()[j] == before[j]);
            }
        }
        i += 1;
    }
    let mut binaries: Vec<Binary> = Vec::new();
    let mut k: usize = 0;
    while k < def.binaries.len()
        invariant
            k <= def.binaries.len(),
            binaries.len() == k,
            forall|j: int|
                0 <= j < k ==> #[trigger] binaries.deep_view()[j] == (BinaryView {
                    path: def.binaries@[j].path@,
                    extra_fields: def.binaries@[j].extra.deep_view(),
                }),
        decreases def.binaries.len() - k,
    {
        let ghost before = binaries.deep_view();
        binaries.push(
            Binary {
                path: def.binaries[k].path.clone(),
                extra_fields: def.binaries[k].extra.clone(),
            },
        );
        assert forall|j: int| 0 <= j < k + 1 implies #[trigger] binaries.deep_view()[j] == (
        BinaryView {
            path: def.binaries@[j].path@,
            extra_fields: def.binaries@[j].extra.deep_view(),
        }) by {
            if j < k {
                assert(binaries.deep_view()[j] == before[j]);
            }
        }
        k += 1;
    }
    let name = match &def.name {
        Some(name) => name.clone(),
        None => key.clone(),
    };
    let rule = NetworkPolicyRule { name, endpoints, binaries, extra_fields: def.extra.clone() };
    proof {
        let expected = network_rule_of(key@, *def);
        assert(rule.deep_view().endpoints =~= expected.endpoints);
        assert(rule.deep_view().binaries =~= expected.binaries);
    }
    rule
}

/// The prover's model of a policy document, where `parsed` is what reading the
/// YAML text gave.
pub fn parse_policy_str(parsed: Result<PolicyFile, String>) -> (r: Result<PolicyModel, String>)
    ensures
        match parsed {
            Ok(file) => r matches Ok(model) && model.deep_view() == model_of(file),
            Err(_) => r matches Err(message) && message@ == "parsing policy YAML"@,
        },
{
    let file = match parsed {
        Ok(file) => file,
        Err(_) => {
            return Err("parsing policy YAML".to_owned());
        },
    };
    let filesystem_policy = match &file.filesystem_policy {
        Some(def) => FilesystemPolicy {
            include_workdir: def.include_workdir,
            read_only: def.read_only.clone(),
            read_write: def.read_write.clone(),
            extra_fields: def.extra.clone(),
        },
        None => FilesystemPolicy::default(),
    };
    let mut network_policies: Vec<(String, NetworkPolicyRule)> = Vec::new();
    if let Some(rules) = &file.network_policies {
        let mut i: usize = 0;
        while i < rules.len()
            invariant
                i <= rules.len(),
                network_policies.len() == i,
                forall|j: int|
                    0 <= j < i ==> #[trigger] network_policies.deep_view()[j] == (
                        rules@[j].0@,
                        network_rule_of(rules@[j].0@, rules@[j].1),
                    ),
            decreases rules.len() - i,
        {
            let ghost before = network_policies.deep_view();
            let rule = network_rule(&rules[i].0, &rules[i].1);
            network_policies.push((rules[i].0.clone(), rule));
            assert forall|j: int| 0 <= j < i + 1 implies #[trigger] network_policies.deep_view()[j]
                == (rules@[j].0@, network_rule_of(rules@[j].0@, rules@[j].1)) by {
                if j < i {
                    assert(network_policies.deep_view()[j] == before[j]);
                }
            }
            i += 1;
        }
    }
    proof {
        assert(network_policies.deep_view() =~= network_rules_of(file.network_policies));
    }
    let managed_metadata = match &file.metadata {
        Some(def) => Some(
            ManagedPolicyMetadata {
                policy_id: def.policy_id.clone(),
                version: def.version,
                allowed_modes: def.allowed_modes.clone(),
                default_mode: def.default_mode.clone(),
                audit_label: def.audit_label.clone(),
                extra_fields: def.extra.clone(),
            },
        ),
        None => None,
    };
    let version: u32 = match file.version {
        Some(version) => version,
        None => 1,
    };
    Ok(
        PolicyModel {
            version,
            managed_metadata,
            filesystem_policy,
            network_policies,
            extra_fields: file.extra.clone(),
        },
    )
}

impl Default for ReviewRequirement {
    fn default() -> (r: Self)
        ensures
            r.deep_view() == review_of(None),
    {
        review_requirement(&None)
    }
}

impl Default for FilesystemPolicy {
    fn default() -> (r: Self)
        ensures
            r.deep_view() == filesystem_of(None),
    {
        let r = FilesystemPolicy {
            include_workdir: false,
            read_only: Vec::new(),
            read_write: Vec::new(),
            extra_fields: Vec::new(),
        };
        proof {
            assert(r.deep_view().read_only =~= Seq::empty());
            assert(r.deep_view().read_write =~= Seq::empty());
            assert(r.deep_view().extra_fields =~= Seq::empty());
        }
        r
    }
}

impl Default for PolicyModel {
    fn default() -> (r: Self)
        ensures
            r.version == 1,
            r.managed_metadata is None,
            r.filesystem_policy.deep_view() == filesystem_of(None),
            r.network_policies@.len() == 0,
            r.extra_fields@.len() == 0,
    {
        PolicyModel {
            version: 1,
            managed_metadata: None,
            filesystem_policy: FilesystemPolicy::default(),
            network_policies: Vec::new(),
            extra_fields: Vec::new(),
        }
    }
}

impl EndpointView {
    /// The ports of the endpoint: the list where it has one, else the single
    /// port where it is not zero.
    pub open spec fn effective_ports(self) -> Seq<u16> {
        if self.ports.len() > 0 {
            self.ports
        } else if self.port > 0 {
            seq![self.port]
        } else {
            Seq::empty()
        }
    }
}

impl Endpoint {
    /// Whether this endpoint has L7 (protocol-level) enforcement.
    pub fn is_l7_enforced(&self) -> (r: bool)
        ensures
            r == (self.protocol@.len() > 0),
    {
        !self.protocol.as_str().is_empty()
    }

    /// The effective list of ports for this endpoint.
    pub fn effective_ports(&self) -> (r: Vec<u16>)
        ensures
            r@ == self.deep_view().effective_ports(),
    {
        if self.ports.len() > 0 {
            return self.ports.clone();
        }
        let mut out: Vec<u16> = Vec::new();
        if self.port > 0 {
            out.push(self.port);
        }
        proof {
            assert(out@ =~= self.deep_view().effective_ports());
        }
        out
    }
}

} // verus!
