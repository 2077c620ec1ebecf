//! The supervisor's middleware chain: each entry sees the request that the one
//! before it left, and may deny it, change its body, append headers and report
//! findings. An entry that fails is handled by its own error policy.

pub mod builtins;
pub mod chain;
pub mod config;
pub mod laws;
pub mod scripted;
pub mod secrets;

use crate::ordered;
use crate::outcome::shown;
use crate::proto_struct::{FieldsView, Struct};
use crate::text;
use crate::text::cat3;
use vstd::prelude::*;

verus! {

pub const API_VERSION: &'static str = "openshell.middleware.v1";

pub const HTTP_REQUEST_OPERATION: &'static str = "HttpRequest";

pub const PRE_CREDENTIALS_PHASE: &'static str = "pre_credentials";

pub const BUILTIN_SECRETS: &'static str = "openshell/secrets";

/// The prefix of every header that a middleware may append.
pub const APPENDABLE_PREFIX: &'static str = "x-openshell-middleware-";

/// Pairs of texts, ordered by the first.
pub type TextMap = Seq<(Seq<char>, Seq<char>)>;

// ---------------------------------------------------------------------------
// Entries
// ---------------------------------------------------------------------------

/// What becomes of a request when a middleware fails.
#[derive(Debug, Clone, Copy, PartialEq, Eq, Structural)]
pub enum OnError {
    FailClosed,
    FailOpen,
}

impl DeepView for OnError {
    type V = OnError;

    open spec fn deep_view(&self) -> OnError {
        *self
    }
}

/// The error policy that a text names. The empty text names the strict one.
pub open spec fn on_error_parsed(value: Seq<char>) -> Result<OnError, Seq<char>> {
    if value == ""@ || value == "fail_closed"@ {
        Ok(OnError::FailClosed)
    } else if value == "fail_open"@ {
        Ok(OnError::FailOpen)
    } else {
        Err(
            "invalid middleware on_error '"@ + value + "', expected fail_closed or fail_open"@,
        )
    }
}

impl OnError {
    /// The error policy that a text names.
    pub fn parse(value: &str) -> (r: Result<OnError, String>)
        ensures
            shown(r) == on_error_parsed(value@),
    {
        if text::same(value, "") || text::same(value, "fail_closed") {
            Ok(OnError::FailClosed)
        } else if text::same(value, "fail_open") {
            Ok(OnError::FailOpen)
        } else {
            Err(
                cat3(
                    "invalid middleware on_error '",
                    value,
                    "', expected fail_closed or fail_open",
                ),
            )
        }
    }
}

/// One middleware of a chain.
#[derive(Debug)]
pub struct ChainEntry {
    pub name: String,
    pub implementation: String,
    pub config: Struct,
    pub on_error: OnError,
}

/// The content of a chain entry.
#[verifier::ext_equal]
pub struct EntryView {
    pub name: Seq<char>,
    pub implementation: Seq<char>,
    pub config: FieldsView,
    pub on_error: OnError,
}

impl DeepView for ChainEntry {
    type V = EntryView;

    open spec fn deep_view(&self) -> EntryView {
        EntryView {
            name: self.name@,
            implementation: self.implementation@,
            config: self.config.deep_view(),
            on_error: self.on_error,
        }
    }
}

/// The chain entry of a middleware configuration.
pub open spec fn entry_of(
    name: Seq<char>,
    middleware: Seq<char>,
    config: Option<FieldsView>,
    on_error: Seq<char>,
) -> Result<EntryView, Seq<char>> {
    if name.len() == 0 {
        Err("middleware config name cannot be empty"@)
    } else if middleware.len() == 0 {
        Err("middleware config '"@ + name + "' must name an implementation"@)
    } else {
        match on_error_parsed(on_error) {
            Err(error) => Err(error),
            Ok(on_error) => Ok(
                EntryView {
                    name,
                    implementation: middleware,
                    config: match config {
                        Some(fields) => fields,
                        None => FieldsView::empty(),
                    },
                    on_error,
                },
            ),
        }
    }
}

impl ChainEntry {
    /// The chain entry of a middleware configuration: its local name, the
    /// implementation it names, its own configuration and its error policy.
    pub fn from_config(
        name: &str,
        middleware: &str,
        config: Option<&Struct>,
        on_error: &str,
    ) -> (r: Result<ChainEntry, String>)
        ensures
            shown(r) == entry_of(name@, middleware@, config.deep_view(), on_error@),
    {
        if name.is_empty() {
            return Err("middleware config name cannot be empty".to_owned());
        }
        if middleware.is_empty() {
            return Err(
                cat3("middleware config '", name, "' must name an implementation"),
            );
        }
        match OnError::parse(on_error) {
            Err(error) => Err(error),
            Ok(on_error) => Ok(
                ChainEntry {
                    name: name.to_owned(),
                    implementation: middleware.to_owned(),
                    config: match config {
                        Some(fields) => fields.copy(),
                        None => Struct::default(),
                    },
                    on_error,
                },
            ),
        }
    }
}

// ---------------------------------------------------------------------------
// Requests and results
// ---------------------------------------------------------------------------

/// The request that a chain is evaluated on. Headers are ordered by name.
#[derive(Debug, Clone)]
pub struct HttpRequestInput {
    pub request_id: String,
    pub sandbox_id: String,
    pub scheme: String,
    pub host: String,
    pub port: u16,
    pub method: String,
    pub path: String,
    pub query: String,
    pub headers: Vec<(String, String)>,
    pub body: Vec<u8>,
}

/// The content of a request.
#[verifier::ext_equal]
pub struct InputView {
    pub request_id: Seq<char>,
    pub sandbox_id: Seq<char>,
    pub scheme: Seq<char>,
    pub host: Seq<char>,
    pub port: u16,
    pub method: Seq<char>,
    pub path: Seq<char>,
    pub query: Seq<char>,
    pub headers: TextMap,
    pub body: Seq<u8>,
}

impl DeepView for HttpRequestInput {
    type V = InputView;

    open spec fn deep_view(&self) -> InputView {
        InputView {
            request_id: self.request_id@,
            sandbox_id: self.sandbox_id@,
            scheme: self.scheme@,
            host: self.host@,
            port: self.port,
            method: self.method@,
            path: self.path@,
            query: self.query@,
            headers: self.headers.deep_view(),
            body: self.body@,
        }
    }
}

/// Who sent a request.
#[derive(Debug, Clone, PartialEq, Eq)]
pub struct RequestContext {
    pub request_id: String,
    pub sandbox_id: String,
    pub originating_process: Option<String>,
}

/// Where a request goes.
#[derive(Debug, Clone, PartialEq, Eq)]
pub struct HttpRequestTarget {
    pub scheme: String,
    pub host: String,
    pub port: u32,
    pub method: String,
    pub path: String,
    pub query: String,
}

/// What a middleware is asked to evaluate.
#[derive(Debug)]
pub struct HttpRequestEvaluation {
    pub api_version: String,
    pub binding_id: String,
    pub phase: String,
    pub context: Option<RequestContext>,
    pub config: Option<Struct>,
    pub target: Option<HttpRequestTarget>,
    pub headers: Vec<(String, String)>,
    pub body: Vec<u8>,
}

/// The content of a request's context.
pub struct ContextView {
    pub request_id: Seq<char>,
    pub sandbox_id: Seq<char>,
    pub originating_process: Option<Seq<char>>,
}

/// The content of a request's target.
pub struct TargetView {
    pub scheme: Seq<char>,
    pub host: Seq<char>,
    pub port: u32,
    pub method: Seq<char>,
    pub path: Seq<char>,
    pub query: Seq<char>,
}

/// The content of an evaluation.
#[verifier::ext_equal]
pub struct EvaluationView {
    pub api_version: Seq<char>,
    pub binding_id: Seq<char>,
    pub phase: Seq<char>,
    pub context: Option<ContextView>,
    pub config: Option<FieldsView>,
    pub target: Option<TargetView>,
    pub headers: TextMap,
    pub body: Seq<u8>,
}

impl DeepView for RequestContext {
    type V = ContextView;

    open spec fn deep_view(&self) -> ContextView {
        ContextView {
            request_id: self.request_id@,
            sandbox_id: self.sandbox_id@,
            originating_process: self.originating_process.deep_view(),
        }
    }
}

impl DeepView for HttpRequestTarget {
    type V = TargetView;

    open spec fn deep_view(&self) -> TargetView {
        TargetView {
            scheme: self.scheme@,
            host: self.host@,
            port: self.port,
            method: self.method@,
            path: self.path@,
            query: self.query@,
        }
    }
}

impl DeepView for HttpRequestEvaluation {
    type V = EvaluationView;

    open spec fn deep_view(&self) -> EvaluationView {
        EvaluationView {
            api_version: self.api_version@,
            binding_id: self.binding_id@,
            phase: self.phase@,
            context: self.context.deep_view(),
            config: self.config.deep_view(),
            target: self.target.deep_view(),
            headers: self.headers.deep_view(),
            body: self.body@,
        }
    }
}

/// What a middleware decides. A number that names no decision counts as
/// unspecified.
#[derive(Debug, Clone, Copy, PartialEq, Eq, Structural)]
pub enum Decision {
    Unspecified,
    Allow,
    Deny,
}

/// Something that a middleware found in a request.
#[derive(Debug, Clone, PartialEq, Eq)]
pub struct Finding {
    pub finding_type: String,
    pub label: String,
    pub count: u32,
    pub confidence: String,
    pub severity: String,
}

/// The content of a finding.
pub struct FindingView {
    pub finding_type: Seq<char>,
    pub label: Seq<char>,
    pub count: u32,
    pub confidence: Seq<char>,
    pub severity: Seq<char>,
}

impl DeepView for Finding {
    type V = FindingView;

    open spec fn deep_view(&self) -> FindingView {
        FindingView {
            finding_type: self.finding_type@,
            label: self.label@,
            count: self.count,
            confidence: self.confidence@,
            severity: self.severity@,
        }
    }
}

/// What a middleware answers.
#[derive(Debug, Clone, PartialEq, Eq)]
pub struct HttpRequestResult {
    pub decision: Decision,
    pub reason: String,
    pub body: Vec<u8>,
    pub has_body: bool,
    pub add_headers: Vec<(String, String)>,
    pub findings: Vec<Finding>,
    pub metadata: Vec<(String, String)>,
}

/// The content of a middleware's answer.
#[verifier::ext_equal]
pub struct ResultView {
    pub decision: Decision,
    pub reason: Seq<char>,
    pub body: Seq<u8>,
    pub has_body: bool,
    pub add_headers: TextMap,
    pub findings: Seq<FindingView>,
    pub metadata: TextMap,
}

impl DeepView for HttpRequestResult {
    type V = ResultView;

    open spec fn deep_view(&self) -> ResultView {
        ResultView {
            decision: self.decision,
            reason: self.reason@,
            body: self.body@,
            has_body: self.has_body,
            add_headers: self.add_headers.deep_view(),
            findings: self.findings.deep_view(),
            metadata: self.metadata.deep_view(),
        }
    }
}

/// The evaluation that an entry is asked for, on the request as the entries
/// before it left it.
pub open spec fn evaluation_of(
    entry: EntryView,
    input: InputView,
    headers: TextMap,
    body: Seq<u8>,
) -> EvaluationView {
    EvaluationView {
        api_version: API_VERSION@,
        binding_id: entry.implementation,
        phase: PRE_CREDENTIALS_PHASE@,
        context: Some(
            ContextView {
                request_id: input.request_id,
                sandbox_id: input.sandbox_id,
                originating_process: None,
            },
        ),
        config: Some(entry.config),
        target: Some(
            TargetView {
                scheme: input.scheme,
                host: input.host,
                port: input.port as u32,
                method: input.method,
                path: input.path,
                query: input.query,
            },
        ),
        headers,
        body,
    }
}

fn copy_pairs(pairs: &Vec<(String, String)>) -> (r: Vec<(String, String)>)
    ensures
        r.deep_view() == pairs.deep_view(),
{
    let mut copies: Vec<(String, String)> = Vec::new();
    let mut i: usize = 0;
    while i < pairs.len()
        invariant
            i <= pairs.len(),
            copies.len() == i,
            forall|j: int|
                0 <= j < i ==> #[trigger] copies.deep_view()[j] == pairs@[j].deep_view(),
        decreases pairs.len() - i,
    {
        let ghost before = copies.deep_view();
        copies.push((pairs[i].0.clone(), pairs[i].1.clone()));
        proof {
            assert forall|j: int| 0 <= j < i + 1 implies #[trigger] copies.deep_view()[j]
                == pairs@[j].deep_view() by {
                if j < i {
                    assert(copies.deep_view()[j] == before[j]);
                }
            }
        }
        i += 1;
    }
    assert(copies.deep_view() =~= pairs.deep_view());
    copies
}

fn copy_bytes(bytes: &Vec<u8>) -> (r: Vec<u8>)
    ensures
        r@ == bytes@,
{
    let r = bytes.clone();
    assert(r@ =~= bytes@);
    r
}

/// The evaluation that an entry is asked for.
pub fn build_evaluation(
    entry: &ChainEntry,
    input: &HttpRequestInput,
    headers: &Vec<(String, String)>,
    body: &Vec<u8>,
) -> (r: HttpRequestEvaluation)
    ensures
        r.deep_view() == evaluation_of(
            entry.deep_view(),
            input.deep_view(),
            headers.deep_view(),
            body@,
        ),
{
    HttpRequestEvaluation {
        api_version: API_VERSION.to_owned(),
        binding_id: entry.implementation.clone(),
        phase: PRE_CREDENTIALS_PHASE.to_owned(),
        context: Some(
            RequestContext {
                request_id: input.request_id.clone(),
                sandbox_id: input.sandbox_id.clone(),
                originating_process: None,
            },
        ),
        config: Some(entry.config.copy()),
        target: Some(
            HttpRequestTarget {
                scheme: input.scheme.clone(),
                host: input.host.clone(),
                port: input.port as u32,
                method: input.method.clone(),
                path: input.path.clone(),
                query: input.query.clone(),
            },
        ),
        headers: copy_pairs(headers),
        body: copy_bytes(body),
    }
}

// ---------------------------------------------------------------------------
// Headers and reasons
// ---------------------------------------------------------------------------

/// The text holds no control character but horizontal tabs.
pub open spec fn value_is_safe(value: Seq<char>) -> bool {
    forall|i: int|
        0 <= i < value.len() ==> #[trigger] value[i] == '\t' || (' ' <= value[i] && value[i]
            <= '~') || value[i] >= '\u{80}'
}

/// A lower-case header name that a middleware may append: under the prefix for
/// such headers, of visible ASCII characters without a colon.
pub open spec fn name_is_appendable(name: Seq<char>) -> bool {
    &&& text::starts_with(name, APPENDABLE_PREFIX@)
    &&& forall|i: int|
        0 <= i < name.len() ==> '!' <= #[trigger] name[i] && name[i] <= '~' && name[i] != ':'
}

/// A header value is safe to append only if it contains no control characters.
/// Horizontal tab, printable ASCII and characters beyond ASCII are permitted.
pub fn is_safe_header_value(value: &str) -> (r: bool)
    ensures
        r == value_is_safe(value@),
{
    let chars = text::chars_of(value);
    let mut i: usize = 0;
    while i < chars.len()
        invariant
            i <= chars.len(),
            chars@ == value@,
            forall|j: int|
                0 <= j < i ==> #[trigger] value@[j] == '\t' || (' ' <= value@[j] && value@[j]
                    <= '~') || value@[j] >= '\u{80}',
        decreases chars.len() - i,
    {
        let c = chars[i];
        if !(c == '\t' || (' ' <= c && c <= '~') || c >= '\u{80}') {
            assert(value@[i as int] == c);
            return false;
        }
        i += 1;
    }
    true
}

/// A middleware appends only headers under its own prefix, and none that the
/// supervisor or a credential owns.
pub fn is_safe_append_header(name: &str) -> (r: bool)
    ensures
        r == name_is_appendable(name@),
{
    proof {
        reveal_strlit("x-openshell-middleware-");
        reveal_strlit("authorization");
        reveal_strlit("cookie");
        reveal_strlit("host");
        reveal_strlit("content-length");
        reveal_strlit("transfer-encoding");
        reveal_strlit("x-amz-");
        reveal_strlit("x-openshell-credential");
        if text::starts_with(name@, APPENDABLE_PREFIX@) {
            let prefix = APPENDABLE_PREFIX@;
            assert(name@.take(prefix.len() as int) == prefix);
            assert(name@[2] == name@.take(prefix.len() as int)[2]);
            assert(name@[12] == name@.take(prefix.len() as int)[12]);
            if text::starts_with(name@, "x-amz-"@) {
                assert(name@.take(6)[2] == "x-amz-"@[2]);
            }
            if text::starts_with(name@, "x-openshell-credential"@) {
                assert(name@.take(22)[12] == "x-openshell-credential"@[12]);
            }
        }
    }
    let chars = text::chars_of(name);
    let mut i: usize = 0;
    while i < chars.len()
        invariant
            i <= chars.len(),
            chars@ == name@,
            forall|j: int|
                0 <= j < i ==> '!' <= #[trigger] name@[j] && name@[j] <= '~' && name@[j] != ':',
        decreases chars.len() - i,
    {
        let c = chars[i];
        if !('!' <= c && c <= '~') || c == ':' {
            assert(name@[i as int] == c);
            return false;
        }
        i += 1;
    }
    if name.is_empty() || text::same(name, "authorization") || text::same(name, "cookie")
        || text::same(name, "host") || text::same(name, "content-length") || text::same(
        name,
        "transfer-encoding",
    ) || text::has_prefix(name, "x-amz-") || text::has_prefix(name, "x-openshell-credential") {
        return false;
    }
    text::has_prefix(name, APPENDABLE_PREFIX)
}

/// Why the headers that a middleware wants to append are refused, looking at the
/// first `n` of them.
pub open spec fn mutation_problem(existing: TextMap, mutations: TextMap, n: nat) -> Option<
    Seq<char>,
>
    decreases n,
{
    if n == 0 || n > mutations.len() {
        None
    } else {
        match mutation_problem(existing, mutations, (n - 1) as nat) {
            Some(problem) => Some(problem),
            None => {
                let name = mutations[n - 1].0;
                let lower = text::lower(name);
                if repeats(mutations, n - 1) || ordered::lookup(existing, lower) is Some {
                    Some("middleware cannot rewrite existing header '"@ + name + "'"@)
                } else if !name_is_appendable(lower) {
                    Some("middleware cannot append unsafe header '"@ + name + "'"@)
                } else if !value_is_safe(mutations[n - 1].1) {
                    Some(
                        "middleware cannot append header '"@ + name + "' with an unsafe value"@,
                    )
                } else {
                    None
                }
            },
        }
    }
}

/// A header before this one has the same name, up to case.
pub open spec fn repeats(mutations: TextMap, i: int) -> bool {
    exists|j: int|
        0 <= j < i && text::lower((#[trigger] mutations[j]).0) == text::lower(mutations[i].0)
}

proof fn lemma_problem_found(existing: TextMap, mutations: TextMap, n: nat)
    requires
        n <= mutations.len(),
        mutation_problem(existing, mutations, n) is Some,
    ensures
        mutation_problem(existing, mutations, mutations.len()) == mutation_problem(
            existing,
            mutations,
            n,
        ),
    decreases mutations.len() - n,
{
    if n < mutations.len() {
        assert(mutation_problem(existing, mutations, n + 1) == mutation_problem(
            existing,
            mutations,
            n,
        ));
        lemma_problem_found(existing, mutations, n + 1);
    }
}

/// Checks the headers that a middleware wants to append: each has a new name, a
/// safe name and a safe value.
pub fn validate_header_mutations(
    existing_headers: &Vec<(String, String)>,
    mutations: &Vec<(String, String)>,
) -> (r: Result<(), String>)
    ensures
        match mutation_problem(
            existing_headers.deep_view(),
            mutations.deep_view(),
            mutations@.len(),
        ) {
            Some(problem) => r matches Err(error) && error@ == problem,
            None => r is Ok,
        },
{
    let ghost existing = existing_headers.deep_view();
    let ghost list = mutations.deep_view();
    let mut seen: Vec<String> = Vec::new();
    let mut i: usize = 0;
    while i < mutations.len()
        invariant
            i <= mutations.len(),
            existing == existing_headers.deep_view(),
            list == mutations.deep_view(),
            seen.len() == i,
            forall|j: int|
                0 <= j < i ==> #[trigger] seen.deep_view()[j] == text::lower(list[j].0),
            mutation_problem(existing, list, i as nat) is None,
        decreases mutations.len() - i,
    {
        let name = mutations[i].0.as_str();
        let value = mutations[i].1.as_str();
        proof {
            assert(list[i as int] == (name@, value@));
        }
        let lower = text::to_lower(name);
        let repeated = text::list_contains(&seen, lower.as_str());
        proof {
            if repeated {
                let j = choose|j: int| 0 <= j < i && seen.deep_view()[j] == lower@;
                assert(seen.deep_view().contains(lower@));
                assert(text::lower(list[j].0) == lower@);
            } else {
                assert forall|j: int| 0 <= j < i implies text::lower((#[trigger] list[j]).0)
                    != lower@ by {
                    assert(seen.deep_view()[j] == text::lower(list[j].0));
                }
            }
            assert(repeated == repeats(list, i as int));
        }
        let exists_already = ordered::get(existing_headers, lower.as_str()).is_some();
        if repeated || exists_already {
            proof {
                lemma_problem_found(existing, list, (i + 1) as nat);
            }
            return Err(cat3("middleware cannot rewrite existing header '", name, "'"));
        }
        if !is_safe_append_header(lower.as_str()) {
            proof {
                lemma_problem_found(existing, list, (i + 1) as nat);
            }
            return Err(cat3("middleware cannot append unsafe header '", name, "'"));
        }
        if !is_safe_header_value(value) {
            proof {
                lemma_problem_found(existing, list, (i + 1) as nat);
            }
            return Err(
                cat3("middleware cannot append header '", name, "' with an unsafe value"),
            );
        }
        let ghost before = seen.deep_view();
        seen.push(lower);
        proof {
            assert forall|j: int| 0 <= j < i + 1 implies #[trigger] seen.deep_view()[j]
                == text::lower(list[j].0) by {
                if j < i {
                    assert(seen.deep_view()[j] == before[j]);
                }
            }
        }
        i += 1;
    }
    Ok(())
}

/// A character that may stand in a reason.
pub open spec fn is_reason_char(c: char) -> bool {
    text::is_alphanumeric(c) || c == '_' || c == '-' || c == ':' || c == ' '
}

/// The characters of a text that may stand in a reason.
pub open spec fn reason_chars(s: Seq<char>) -> Seq<char>
    decreases s.len(),
{
    if s.len() == 0 {
        Seq::empty()
    } else if is_reason_char(s.last()) {
        reason_chars(s.drop_last()).push(s.last())
    } else {
        reason_chars(s.drop_last())
    }
}

/// A reason that is safe to log and to return: at most 160 harmless characters.
pub open spec fn safe_text(reason: Seq<char>) -> Seq<char> {
    let kept = reason_chars(reason);
    if kept.len() <= 160 {
        kept
    } else {
        kept.take(160)
    }
}

/// A reason that is safe to log and to return.
pub fn safe_reason(reason: &str) -> (r: String)
    ensures
        r@ == safe_text(reason@),
{
    let chars = text::chars_of(reason);
    let mut kept: Vec<char> = Vec::new();
    let mut i: usize = 0;
    proof {
        assert(reason@.take(0) =~= Seq::empty());
        assert(kept@ =~= Seq::empty());
    }
    while i < chars.len()
        invariant
            i <= chars.len(),
            chars@ == reason@,
            kept@ == reason_chars(reason@.take(i as int)),
        decreases chars.len() - i,
    {
        proof {
            assert(reason@.take(i + 1).drop_last() =~= reason@.take(i as int));
            assert(reason@.take(i + 1).last() == reason@[i as int]);
        }
        let c = chars[i];
        if text::char_is_alphanumeric(c) || c == '_' || c == '-' || c == ':' || c == ' ' {
            kept.push(c);
        }
        i += 1;
    }
    proof {
        assert(reason@.take(i as int) =~= reason@);
    }
    let end: usize = if kept.len() <= 160 {
        kept.len()
    } else {
        160
    };
    let r = text::string_of(&kept, 0, end);
    proof {
        if kept.len() <= 160 {
            assert(kept@.subrange(0, end as int) =~= kept@);
        } else {
            assert(kept@.subrange(0, end as int) =~= kept@.take(160));
        }
    }
    r
}

/// A safe reason is short and holds harmless characters only.
pub proof fn law_safe_reason(reason: Seq<char>)
    ensures
        safe_text(reason).len() <= 160,
        forall|i: int| 0 <= i < safe_text(reason).len() ==> is_reason_char(#[trigger] safe_text(reason)[i]),
    decreases reason.len(),
{
    lemma_reason_chars(reason);
}

proof fn lemma_reason_chars(s: Seq<char>)
    ensures
        forall|i: int| 0 <= i < reason_chars(s).len() ==> is_reason_char(#[trigger] reason_chars(s)[i]),
    decreases s.len(),
{
    if s.len() > 0 {
        lemma_reason_chars(s.drop_last());
        let before = reason_chars(s.drop_last());
        assert forall|i: int| 0 <= i < reason_chars(s).len() implies is_reason_char(
            #[trigger] reason_chars(s)[i],
        ) by {
            if i < before.len() {
                assert(reason_chars(s)[i] == before[i]);
            }
        }
    }
}

} // verus!
