//! The environment of a sandbox.

use crate::ordered;
use crate::outcome::shown;
use crate::slurm::config::{has_tls, ConfigView, SlurmComputeConfig};
use crate::slurm::sandbox::{
    env_name_verdict, env_value_verdict, validate_env_name, validate_env_value, DriverErrorView,
    DriverSandbox, SandboxView, SlurmDriverError, TextMap,
};
use crate::slurm::script::{quoted, sh_single_quote};
use crate::text;
use vstd::prelude::*;

verus! {

pub const TLS_CA_MOUNT_PATH: &'static str = "/etc/openshell/tls/client/ca.crt";

pub const TLS_CERT_MOUNT_PATH: &'static str = "/etc/openshell/tls/client/tls.crt";

pub const TLS_KEY_MOUNT_PATH: &'static str = "/etc/openshell/tls/client/tls.key";

pub const SUPERVISOR_PATH: &'static str = "/usr/local/sbin:/usr/local/bin:/usr/sbin:/usr/bin:/sbin:/bin";

pub const SANDBOX_COMMAND: &'static str = "sleep infinity";

/// The names of the variables through which a supervisor is configured.
#[derive(Debug, Clone, PartialEq, Eq)]
pub struct VariableNames {
    pub log_level: String,
    pub sandbox: String,
    pub sandbox_id: String,
    pub endpoint: String,
    pub ssh_socket_path: String,
    pub ssh_handshake_secret: String,
    pub ssh_handshake_skew_secs: String,
    pub sandbox_command: String,
    pub tls_ca: String,
    pub tls_cert: String,
    pub tls_key: String,
}

/// The content of the variables' names.
pub struct NamesView {
    pub log_level: Seq<char>,
    pub sandbox: Seq<char>,
    pub sandbox_id: Seq<char>,
    pub endpoint: Seq<char>,
    pub ssh_socket_path: Seq<char>,
    pub ssh_handshake_secret: Seq<char>,
    pub ssh_handshake_skew_secs: Seq<char>,
    pub sandbox_command: Seq<char>,
    pub tls_ca: Seq<char>,
    pub tls_cert: Seq<char>,
    pub tls_key: Seq<char>,
}

impl DeepView for VariableNames {
    type V = NamesView;

    open spec fn deep_view(&self) -> NamesView {
        NamesView {
            log_level: self.log_level@,
            sandbox: self.sandbox@,
            sandbox_id: self.sandbox_id@,
            endpoint: self.endpoint@,
            ssh_socket_path: self.ssh_socket_path@,
            ssh_handshake_secret: self.ssh_handshake_secret@,
            ssh_handshake_skew_secs: self.ssh_handshake_skew_secs@,
            sandbox_command: self.sandbox_command@,
            tls_ca: self.tls_ca@,
            tls_cert: self.tls_cert@,
            tls_key: self.tls_key@,
        }
    }
}

/// What is said of a variable: of its name first, then of its value.
pub open spec fn variable_verdict(variable: (Seq<char>, Seq<char>)) -> Result<(), DriverErrorView> {
    match env_name_verdict(variable.0) {
        Err(error) => Err(error),
        Ok(_) => env_value_verdict(variable.0, variable.1),
    }
}

/// The environment with the variables of a list, or what is said of the first
/// that is invalid.
pub open spec fn with_variables(env: TextMap, variables: TextMap) -> Result<
    TextMap,
    DriverErrorView,
>
    decreases variables.len(),
{
    if variables.len() == 0 {
        Ok(env)
    } else {
        match with_variables(env, variables.drop_last()) {
            Err(error) => Err(error),
            Ok(before) => match variable_verdict(variables.last()) {
                Err(error) => Err(error),
                Ok(_) => Ok(ordered::put(before, variables.last().0, variables.last().1)),
            },
        }
    }
}

/// The variables that a sandbox asks for.
pub open spec fn requested(sandbox: SandboxView, names: NamesView) -> Result<
    TextMap,
    DriverErrorView,
> {
    match sandbox.spec {
        None => Ok(TextMap::empty()),
        Some(spec) => {
            let first = if spec.log_level.len() > 0 {
                ordered::put(TextMap::empty(), names.log_level, spec.log_level)
            } else {
                TextMap::empty()
            };
            match with_variables(first, spec.environment) {
                Err(error) => Err(error),
                Ok(env) => match spec.template {
                    None => Ok(env),
                    Some(template) => with_variables(env, template.environment),
                },
            }
        },
    }
}

/// The variables that the driver sets. They win over those that a sandbox asks
/// for.
pub open spec fn imposed(
    sandbox: SandboxView,
    config: ConfigView,
    image: Seq<char>,
    log_level: Seq<char>,
    names: NamesView,
) -> TextMap {
    let always = seq![
        (names.log_level, log_level),
        (names.sandbox, sandbox.name),
        (names.sandbox_id, sandbox.id),
        (names.endpoint, config.grpc_endpoint),
        (names.ssh_socket_path, config.sandbox_ssh_socket_path),
        (names.ssh_handshake_secret, config.ssh_handshake_secret),
        (names.ssh_handshake_skew_secs, text::decimal(config.ssh_handshake_skew_secs as nat)),
        (names.sandbox_command, SANDBOX_COMMAND@),
        ("OPENSHELL_CONTAINER_IMAGE"@, image),
        ("PATH"@, SUPERVISOR_PATH@),
    ];
    if has_tls(config) {
        always + seq![
            (names.tls_ca, TLS_CA_MOUNT_PATH@),
            (names.tls_cert, TLS_CERT_MOUNT_PATH@),
            (names.tls_key, TLS_KEY_MOUNT_PATH@),
        ]
    } else {
        always
    }
}

/// What is said of the first invalid variable of an environment.
pub open spec fn first_bad_variable(env: TextMap) -> Option<DriverErrorView>
    decreases env.len(),
{
    if env.len() == 0 {
        None
    } else {
        match variable_verdict(env[0]) {
            Err(error) => Some(error),
            Ok(_) => first_bad_variable(env.skip(1)),
        }
    }
}

/// The environment of a sandbox.
pub open spec fn environment_of(
    sandbox: SandboxView,
    config: ConfigView,
    image: Seq<char>,
    log_level: Seq<char>,
    names: NamesView,
) -> Result<TextMap, DriverErrorView> {
    match requested(sandbox, names) {
        Err(error) => Err(error),
        Ok(env) => {
            let whole = ordered::put_all(
                env,
                imposed(sandbox, config, image, log_level, names),
            );
            match first_bad_variable(whole) {
                Some(error) => Err(error),
                None => Ok(whole),
            }
        },
    }
}

fn check_variable(key: &str, value: &str) -> (r: Result<(), SlurmDriverError>)
    ensures
        shown(r) == variable_verdict((key@, value@)),
{
    match validate_env_name(key) {
        Ok(_) => validate_env_value(key, value),
        Err(error) => Err(error),
    }
}

proof fn lemma_variables_failed(env: TextMap, variables: TextMap, n: int)
    requires
        0 <= n <= variables.len(),
        with_variables(env, variables.take(n)) is Err,
    ensures
        with_variables(env, variables) == with_variables(env, variables.take(n)),
    decreases variables.len(),
{
    if n == variables.len() {
        assert(variables.take(n) =~= variables);
    } else {
        assert(variables.drop_last().take(n) =~= variables.take(n));
        lemma_variables_failed(env, variables.drop_last(), n);
    }
}

fn add_variables(env: &mut Vec<(String, String)>, variables: &Vec<(String, String)>) -> (r: Result<
    (),
    SlurmDriverError,
>)
    ensures
        match with_variables(old(env).deep_view(), variables.deep_view()) {
            Ok(whole) => r is Ok && final(env).deep_view() == whole,
            Err(problem) => r matches Err(error) && error.deep_view() == problem,
        },
{
    let ghost before = env.deep_view();
    let ghost list = variables.deep_view();
    let mut i: usize = 0;
    proof {
        assert(list.take(0) =~= Seq::empty());
    }
    while i < variables.len()
        invariant
            i <= variables.len(),
            before == old(env).deep_view(),
            list == variables.deep_view(),
            with_variables(before, list.take(i as int)) == Ok::<TextMap, DriverErrorView>(
                env.deep_view(),
            ),
        decreases variables.len() - i,
    {
        let key = variables[i].0.as_str();
        let value = variables[i].1.as_str();
        proof {
            assert(list.take(i + 1).drop_last() =~= list.take(i as int));
            assert(list.take(i + 1).last() == (key@, value@));
        }
        match check_variable(key, value) {
            Ok(_) => {},
            Err(error) => {
                proof {
                    lemma_variables_failed(before, list, i + 1);
                }
                return Err(error);
            },
        }
        ordered::insert(env, key.to_owned(), value.to_owned());
        i += 1;
    }
    proof {
        assert(list.take(i as int) =~= list);
    }
    Ok(())
}

fn pair(key: &str, value: &str) -> (r: (String, String))
    ensures
        r.deep_view() == (key@, value@),
{
    (key.to_owned(), value.to_owned())
}

fn imposed_variables(
    sandbox: &DriverSandbox,
    config: &SlurmComputeConfig,
    image: &str,
    log_level: &str,
    names: &VariableNames,
) -> (r: Vec<(String, String)>)
    ensures
        r.deep_view() == imposed(
            sandbox.deep_view(),
            config.deep_view(),
            image@,
            log_level@,
            names.deep_view(),
        ),
{
    let skew = text::decimal_of(config.ssh_handshake_skew_secs);
    let mut set: Vec<(String, String)> = Vec::new();
    set.push(pair(names.log_level.as_str(), log_level));
    set.push(pair(names.sandbox.as_str(), sandbox.name.as_str()));
    set.push(pair(names.sandbox_id.as_str(), sandbox.id.as_str()));
    set.push(pair(names.endpoint.as_str(), config.grpc_endpoint.as_str()));
    set.push(pair(names.ssh_socket_path.as_str(), config.sandbox_ssh_socket_path.as_str()));
    set.push(pair(names.ssh_handshake_secret.as_str(), config.ssh_handshake_secret.as_str()));
    set.push(pair(names.ssh_handshake_skew_secs.as_str(), skew.as_str()));
    set.push(pair(names.sandbox_command.as_str(), SANDBOX_COMMAND));
    set.push(pair("OPENSHELL_CONTAINER_IMAGE", image));
    set.push(pair("PATH", SUPERVISOR_PATH));
    if config.tls_enabled() {
        set.push(pair(names.tls_ca.as_str(), TLS_CA_MOUNT_PATH));
        set.push(pair(names.tls_cert.as_str(), TLS_CERT_MOUNT_PATH));
        set.push(pair(names.tls_key.as_str(), TLS_KEY_MOUNT_PATH));
    }
    proof {
        assert(set.deep_view() =~= imposed(
            sandbox.deep_view(),
            config.deep_view(),
            image@,
            log_level@,
            names.deep_view(),
        ));
    }
    set
}

fn find_bad_variable(env: &Vec<(String, String)>) -> (r: Option<SlurmDriverError>)
    ensures
        r.deep_view() == first_bad_variable(env.deep_view()),
{
    let ghost list = env.deep_view();
    let mut i: usize = 0;
    proof {
        assert(list.skip(0) =~= list);
    }
    while i < env.len()
        invariant
            i <= env.len(),
            list == env.deep_view(),
            first_bad_variable(list) == first_bad_variable(list.skip(i as int)),
        decreases env.len() - i,
    {
        proof {
            assert(list.skip(i as int)[0] == (env@[i as int].0@, env@[i as int].1@));
            assert(list.skip(i as int).skip(1) =~= list.skip(i + 1));
        }
        match check_variable(env[i].0.as_str(), env[i].1.as_str()) {
            Ok(_) => {},
            Err(error) => {
                return Some(error);
            },
        }
        i += 1;
    }
    None
}

fn requested_variables(sandbox: &DriverSandbox, names: &VariableNames) -> (r: Result<
    Vec<(String, String)>,
    SlurmDriverError,
>)
    ensures
        shown(r) == requested(sandbox.deep_view(), names.deep_view()),
{
    let mut env: Vec<(String, String)> = Vec::new();
    proof {
        assert(env.deep_view() =~= TextMap::empty());
    }
    if let Some(spec) = &sandbox.spec {
        if !spec.log_level.as_str().is_empty() {
            ordered::insert(&mut env, names.log_level.clone(), spec.log_level.clone());
        }
        match add_variables(&mut env, &spec.environment) {
            Ok(_) => {},
            Err(error) => {
                return Err(error);
            },
        }
        if let Some(template) = &spec.template {
            match add_variables(&mut env, &template.environment) {
                Ok(_) => {},
                Err(error) => {
                    return Err(error);
                },
            }
        }
    }
    Ok(env)
}

/// The environment of a sandbox: what it asks for, and over that what the driver
/// sets. `log_level` is the level that is in force for the sandbox.
pub fn sandbox_environment(
    sandbox: &DriverSandbox,
    config: &SlurmComputeConfig,
    image: &str,
    log_level: &str,
    names: &VariableNames,
) -> (r: Result<Vec<(String, String)>, SlurmDriverError>)
    ensures
        shown(r) == environment_of(
            sandbox.deep_view(),
            config.deep_view(),
            image@,
            log_level@,
            names.deep_view(),
        ),
{
    let mut env = match requested_variables(sandbox, names) {
        Ok(env) => env,
        Err(error) => {
            return Err(error);
        },
    };
    let set = imposed_variables(sandbox, config, image, log_level, names);
    ordered::insert_all(&mut env, &set);
    match find_bad_variable(&env) {
        Some(error) => Err(error),
        None => Ok(env),
    }
}

/// The content of an environment file: a line for each variable, with its value
/// in quotes.
pub open spec fn env_file(env: TextMap) -> Seq<char>
    decreases env.len(),
{
    if env.len() == 0 {
        Seq::empty()
    } else {
        env_file(env.drop_last()) + (env.last().0 + "="@ + quoted(env.last().1) + "\n"@)
    }
}

/// The content of an environment file.
pub fn env_file_content(env: &Vec<(String, String)>) -> (r: String)
    ensures
        r@ == env_file(env.deep_view()),
{
    let ghost list = env.deep_view();
    let mut content = String::new();
    let mut i: usize = 0;
    proof {
        assert(list.take(0) =~= Seq::empty());
        assert(content@ =~= Seq::empty());
    }
    while i < env.len()
        invariant
            i <= env.len(),
            list == env.deep_view(),
            content@ == env_file(list.take(i as int)),
        decreases env.len() - i,
    {
        proof {
            assert(list.take(i + 1).drop_last() =~= list.take(i as int));
            assert(list.take(i + 1).last() == (env@[i as int].0@, env@[i as int].1@));
        }
        let value = sh_single_quote(env[i].1.as_str());
        let line = text::cat4(env[i].0.as_str(), "=", value.as_str(), "\n");
        content.append(line.as_str());
        i += 1;
    }
    proof {
        assert(list.take(i as int) =~= list);
    }
    content
}

/// What the driver sets is what the sandbox gets, whatever it asked for: every
/// variable that the driver sets has the value that the driver set last.
pub proof fn law_imposed_variables_win(
    sandbox: SandboxView,
    config: ConfigView,
    image: Seq<char>,
    log_level: Seq<char>,
    names: NamesView,
    i: int,
)
    requires
        environment_of(sandbox, config, image, log_level, names) is Ok,
        0 <= i < imposed(sandbox, config, image, log_level, names).len(),
        forall|j: int|
            i < j < imposed(sandbox, config, image, log_level, names).len() ==> (
            #[trigger] imposed(sandbox, config, image, log_level, names)[j]).0 != imposed(
                sandbox,
                config,
                image,
                log_level,
                names,
            )[i].0,
    ensures
        ordered::lookup(
            environment_of(sandbox, config, image, log_level, names)->Ok_0,
            imposed(sandbox, config, image, log_level, names)[i].0,
        ) == Some(imposed(sandbox, config, image, log_level, names)[i].1),
{
    let env = requested(sandbox, names)->Ok_0;
    let set = imposed(sandbox, config, image, log_level, names);
    lemma_requested_is_map(sandbox, names);
    ordered::law_put_all_lookup(env, set, set[i].0);
}

proof fn lemma_requested_is_map(sandbox: SandboxView, names: NamesView)
    requires
        requested(sandbox, names) is Ok,
    ensures
        ordered::is_map(requested(sandbox, names)->Ok_0),
{
    assert(ordered::is_map(TextMap::empty()));
    if let Some(spec) = sandbox.spec {
        ordered::law_put_map(TextMap::empty(), names.log_level, spec.log_level);
        let first = if spec.log_level.len() > 0 {
            ordered::put(TextMap::empty(), names.log_level, spec.log_level)
        } else {
            TextMap::empty()
        };
        lemma_with_variables_is_map(first, spec.environment);
        if let Some(template) = spec.template {
            lemma_with_variables_is_map(
                with_variables(first, spec.environment)->Ok_0,
                template.environment,
            );
        }
    }
}

proof fn lemma_with_variables_is_map(env: TextMap, variables: TextMap)
    requires
        ordered::is_map(env),
    ensures
        with_variables(env, variables) is Ok ==> ordered::is_map(
            with_variables(env, variables)->Ok_0,
        ),
    decreases variables.len(),
{
    if variables.len() > 0 {
        lemma_with_variables_is_map(env, variables.drop_last());
        if with_variables(env, variables.drop_last()) is Ok {
            ordered::law_put_map(
                with_variables(env, variables.drop_last())->Ok_0,
                variables.last().0,
                variables.last().1,
            );
        }
    }
}

/// An environment that is accepted holds no newline and no NUL byte, so that each
/// line of its file is one variable.
pub proof fn law_accepted_values_are_lines(
    sandbox: SandboxView,
    config: ConfigView,
    image: Seq<char>,
    log_level: Seq<char>,
    names: NamesView,
    i: int,
)
    requires
        environment_of(sandbox, config, image, log_level, names) is Ok,
        0 <= i < environment_of(sandbox, config, image, log_level, names)->Ok_0.len(),
    ensures
        !environment_of(sandbox, config, image, log_level, names)->Ok_0[i].1.contains('\n'),
        !environment_of(sandbox, config, image, log_level, names)->Ok_0[i].1.contains('\0'),
{
    let env = environment_of(sandbox, config, image, log_level, names)->Ok_0;
    lemma_no_bad_variable(env, i);
}

proof fn lemma_no_bad_variable(env: TextMap, i: int)
    requires
        first_bad_variable(env) is None,
        0 <= i < env.len(),
    ensures
        variable_verdict(env[i]) is Ok,
    decreases env.len(),
{
    if i > 0 {
        lemma_no_bad_variable(env.skip(1), i - 1);
        assert(env.skip(1)[i - 1] == env[i]);
    }
}

} // verus!
