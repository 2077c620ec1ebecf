//! The steps of the Slurm driver: what it decides before, between and after the
//! commands and files that it needs.

use crate::outcome::shown;
use crate::paths::{join_path, joined_path};
use crate::slurm::config::{has_tls, tls_verdict, ConfigView, SlurmComputeConfig};
use crate::slurm::environment::{
    env_file, env_file_content, environment_of, sandbox_environment, NamesView, VariableNames,
};
use crate::slurm::jobs::{
    error_text, job_event, job_platform_event, says_not_found, submitted_job, OutputView,
    SlurmCommandOutput, SlurmSandboxState, StateView, WatchSandboxesEvent, WatchView,
    command_error_is_not_found, find_state_by_name, first_named, parse_sbatch_job_id,
    trim_command_error,
};
use crate::slurm::sandbox::{
    image_of, path_id_verdict, precondition, resolve_image, shape_verdict, validate_path_id,
    validate_sandbox_shape, DriverErrorView, DriverSandbox, JobResourcesView, SandboxView,
    SlurmDriverError, SlurmResources,
};
use crate::slurm::script::{
    batch_script, job_name_of, sbatch_args, script_of, slurm_job_name,
    submission,
};
use crate::text;
use crate::text::{cat2, cat4, cat5};
use vstd::prelude::*;

verus! {

/// What is known of a file: whether it is a plain file, and whether someone may
/// execute it.
#[derive(Debug, Clone, Copy, PartialEq, Eq, Structural)]
pub struct FileFacts {
    pub is_file: bool,
    pub is_executable: bool,
}

/// The content of what looking at a file gave.
pub open spec fn facts_view(facts: Result<FileFacts, String>) -> Result<FileFacts, Seq<char>> {
    match facts {
        Ok(facts) => Ok(facts),
        Err(problem) => Err(problem@),
    }
}

/// What is said of a file that must be there.
pub open spec fn readable_verdict(
    path: Seq<char>,
    label: Seq<char>,
    facts: Result<FileFacts, Seq<char>>,
) -> Result<(), DriverErrorView> {
    match facts {
        Err(problem) => Err(
            precondition(label + " '"@ + path + "' is not readable: "@ + problem),
        ),
        Ok(facts) => if facts.is_file {
            Ok(())
        } else {
            Err(precondition(label + " '"@ + path + "' is not a file"@))
        },
    }
}

/// What is said of a file that must be executable.
pub open spec fn executable_verdict(
    path: Seq<char>,
    label: Seq<char>,
    facts: Result<FileFacts, Seq<char>>,
) -> Result<(), DriverErrorView> {
    match readable_verdict(path, label, facts) {
        Err(error) => Err(error),
        Ok(_) => if facts->Ok_0.is_executable {
            Ok(())
        } else {
            Err(precondition(label + " '"@ + path + "' is not executable"@))
        },
    }
}

/// Checks a file that must be there, from what looking at it gave.
pub fn ensure_readable_file(path: &str, label: &str, facts: &Result<FileFacts, String>) -> (r: Result<
    (),
    SlurmDriverError,
>)
    ensures
        shown(r) == readable_verdict(path@, label@, facts_view(*facts)),
{
    match facts {
        Err(problem) => Err(
            SlurmDriverError::Precondition(
                cat5(label, " '", path, "' is not readable: ", problem.as_str()),
            ),
        ),
        Ok(facts) => {
            if facts.is_file {
                Ok(())
            } else {
                Err(SlurmDriverError::Precondition(cat4(label, " '", path, "' is not a file")))
            }
        },
    }
}

/// Checks a file that must be executable, from what looking at it gave.
pub fn ensure_executable_file(path: &str, label: &str, facts: &Result<FileFacts, String>) -> (r:
    Result<(), SlurmDriverError>)
    ensures
        shown(r) == executable_verdict(path@, label@, facts_view(*facts)),
{
    match ensure_readable_file(path, label, facts) {
        Err(error) => Err(error),
        Ok(_) => match facts {
            Ok(facts) => {
                if facts.is_executable {
                    Ok(())
                } else {
                    Err(
                        SlurmDriverError::Precondition(
                            cat4(label, " '", path, "' is not executable"),
                        ),
                    )
                }
            },
            Err(_) => Ok(()),
        },
    }
}

/// What looking at the files gave that the driver needs.
pub struct PreflightFiles {
    pub supervisor: Result<FileFacts, String>,
    pub tls_ca: Result<FileFacts, String>,
    pub tls_cert: Result<FileFacts, String>,
    pub tls_key: Result<FileFacts, String>,
}

/// The content of what looking at the files gave.
pub struct FilesView {
    pub supervisor: Result<FileFacts, Seq<char>>,
    pub tls_ca: Result<FileFacts, Seq<char>>,
    pub tls_cert: Result<FileFacts, Seq<char>>,
    pub tls_key: Result<FileFacts, Seq<char>>,
}

impl DeepView for PreflightFiles {
    type V = FilesView;

    open spec fn deep_view(&self) -> FilesView {
        FilesView {
            supervisor: facts_view(self.supervisor),
            tls_ca: facts_view(self.tls_ca),
            tls_cert: facts_view(self.tls_cert),
            tls_key: facts_view(self.tls_key),
        }
    }
}

/// The first of three verdicts that is an error.
pub open spec fn all_three(
    a: Result<(), DriverErrorView>,
    b: Result<(), DriverErrorView>,
    c: Result<(), DriverErrorView>,
) -> Result<(), DriverErrorView> {
    if a is Err {
        a
    } else if b is Err {
        b
    } else {
        c
    }
}

/// What is said of a configuration and its files before the driver starts.
pub open spec fn preflight_verdict(config: ConfigView, files: FilesView) -> Result<
    (),
    DriverErrorView,
> {
    if text::trimmed(config.grpc_endpoint).len() == 0 {
        Err(
            precondition("grpc_endpoint is required when using the slurm compute driver"@),
        )
    } else if tls_verdict(config) is Err {
        Err(precondition(tls_verdict(config)->Err_0))
    } else {
        let supervisor = executable_verdict(
            config.supervisor_bin,
            "slurm supervisor binary"@,
            files.supervisor,
        );
        if supervisor is Err || !has_tls(config) {
            supervisor
        } else {
            all_three(
                readable_verdict(config.guest_tls_ca->0, "slurm TLS CA"@, files.tls_ca),
                readable_verdict(
                    config.guest_tls_cert->0,
                    "slurm TLS certificate"@,
                    files.tls_cert,
                ),
                readable_verdict(
                    config.guest_tls_key->0,
                    "slurm TLS private key"@,
                    files.tls_key,
                ),
            )
        }
    }
}

/// The commands that must be there.
pub open spec fn commands_of(config: ConfigView) -> Seq<Seq<char>> {
    seq!["sbatch"@, "srun"@, "squeue"@, "scancel"@, config.apptainer_bin]
}

/// What is said of a command that was asked for its version.
pub open spec fn command_verdict(program: Seq<char>, output: OutputView) -> Result<
    (),
    DriverErrorView,
> {
    if output.status == Some(0i32) {
        Ok(())
    } else {
        Err(
            precondition(
                "required Slurm driver command '"@ + program + "' failed: "@ + error_text(output),
            ),
        )
    }
}

/// What the driver can do.
#[derive(Debug, Clone, PartialEq, Eq)]
pub struct GetCapabilitiesResponse {
    pub driver_name: String,
    pub driver_version: String,
    pub default_image: String,
    pub supports_gpu: bool,
    pub gpu_count: u32,
}

/// The content of what the driver can do.
pub struct CapabilitiesView {
    pub driver_name: Seq<char>,
    pub driver_version: Seq<char>,
    pub default_image: Seq<char>,
    pub supports_gpu: bool,
    pub gpu_count: u32,
}

impl DeepView for GetCapabilitiesResponse {
    type V = CapabilitiesView;

    open spec fn deep_view(&self) -> CapabilitiesView {
        CapabilitiesView {
            driver_name: self.driver_name@,
            driver_version: self.driver_version@,
            default_image: self.default_image@,
            supports_gpu: self.supports_gpu,
            gpu_count: self.gpu_count,
        }
    }
}

// ---------------------------------------------------------------------------
// Creation
// ---------------------------------------------------------------------------

/// The directory of a sandbox.
pub open spec fn dir_of(config: ConfigView, sandbox_id: Seq<char>) -> Result<
    Seq<char>,
    DriverErrorView,
> {
    match path_id_verdict(sandbox_id) {
        Err(error) => Err(error),
        Ok(_) => Ok(joined_path(config.work_dir, sandbox_id)),
    }
}

/// The directory of a new sandbox, where the sandbox can be created.
pub open spec fn creation_dir(
    sandbox: SandboxView,
    config: ConfigView,
    resources: Result<JobResourcesView, DriverErrorView>,
    dir_exists: bool,
) -> Result<Seq<char>, DriverErrorView> {
    match shape_verdict(sandbox, config, resources) {
        Err(error) => Err(error),
        Ok(_) => match dir_of(config, sandbox.id) {
            Err(error) => Err(error),
            Ok(dir) => if dir_exists {
                Err(DriverErrorView::AlreadyExists)
            } else {
                Ok(dir)
            },
        },
    }
}

/// A job that is ready to be submitted: the files to write first, and the
/// arguments to submit it with.
#[derive(Debug, Clone, PartialEq, Eq)]
pub struct PreparedJob {
    pub env_path: String,
    pub env_content: String,
    pub script_path: String,
    pub script: String,
    pub job_name: String,
    pub args: Vec<String>,
}

/// The content of a job that is ready.
#[verifier::ext_equal]
pub struct PreparedView {
    pub env_path: Seq<char>,
    pub env_content: Seq<char>,
    pub script_path: Seq<char>,
    pub script: Seq<char>,
    pub job_name: Seq<char>,
    pub args: Seq<Seq<char>>,
}

impl DeepView for PreparedJob {
    type V = PreparedView;

    open spec fn deep_view(&self) -> PreparedView {
        PreparedView {
            env_path: self.env_path@,
            env_content: self.env_content@,
            script_path: self.script_path@,
            script: self.script@,
            job_name: self.job_name@,
            args: self.args.deep_view(),
        }
    }
}

/// The sandbox asks for a GPU.
pub open spec fn wants_gpu(sandbox: SandboxView) -> bool {
    sandbox.spec is Some && sandbox.spec->0.gpu
}

/// The job of a sandbox in its directory.
pub open spec fn prepared(
    sandbox: SandboxView,
    config: ConfigView,
    dir: Seq<char>,
    resources: JobResourcesView,
    log_level: Seq<char>,
    names: NamesView,
) -> Result<PreparedView, DriverErrorView> {
    let image = image_of(sandbox, config);
    let env_path = joined_path(dir, "sandbox.env"@);
    let script_path = joined_path(dir, "run.sh"@);
    let status_path = joined_path(dir, "status.env"@);
    let job_name = job_name_of(sandbox.name, sandbox.id);
    match environment_of(sandbox, config, image, log_level, names) {
        Err(error) => Err(error),
        Ok(env) => Ok(
            PreparedView {
                env_path,
                env_content: env_file(env),
                script_path,
                script: script_of(dir, env_path, status_path, image, config),
                job_name,
                args: submission(
                    job_name,
                    dir,
                    script_path,
                    resources,
                    wants_gpu(sandbox),
                    config,
                ),
            },
        ),
    }
}

/// The text as it is shown for debugging.
pub uninterp spec fn debug_shown(s: Seq<char>) -> Seq<char>;

/// Wraps `format!("{:?}", ..)` of `std`, on a text. Claims only that what comes out
/// depends on the text alone; which characters are escaped, and how, is not said.
#[verifier::external_body]
fn debug_text(s: &str) -> (r: String)
    ensures
        r@ == debug_shown(s@),
{
    format!("{:?}", s)
}

/// A job that was submitted: what to keep of it, and what to tell watchers.
#[derive(Debug, Clone, PartialEq, Eq)]
pub struct SubmittedJob {
    pub state: SlurmSandboxState,
    pub event: WatchSandboxesEvent,
}

/// The content of a job that was submitted.
pub struct SubmittedView {
    pub state: StateView,
    pub event: WatchView,
}

impl DeepView for SubmittedJob {
    type V = SubmittedView;

    open spec fn deep_view(&self) -> SubmittedView {
        SubmittedView { state: self.state.deep_view(), event: self.event.deep_view() }
    }
}

/// A job that was not submitted: whether the directory of its sandbox goes, and
/// the error.
#[derive(Debug, Clone, PartialEq, Eq)]
pub struct SubmissionFailure {
    pub clean_up: bool,
    pub error: SlurmDriverError,
}

/// The content of a failed submission.
pub struct FailureView {
    pub clean_up: bool,
    pub error: DriverErrorView,
}

impl DeepView for SubmissionFailure {
    type V = FailureView;

    open spec fn deep_view(&self) -> FailureView {
        FailureView { clean_up: self.clean_up, error: self.error.deep_view() }
    }
}

/// What a submission came to. `unreadable` is what the command printed, as it is
/// shown for debugging.
pub open spec fn submission_outcome(
    sandbox: SandboxView,
    job_name: Seq<char>,
    output: OutputView,
    unreadable: Seq<char>,
    now_ms: i64,
) -> Result<SubmittedView, FailureView> {
    if output.status != Some(0i32) {
        Err(
            FailureView {
                clean_up: true,
                error: DriverErrorView::Message("sbatch failed: "@ + error_text(output)),
            },
        )
    } else {
        match submitted_job(output.stdout) {
            None => Err(
                FailureView {
                    clean_up: false,
                    error: DriverErrorView::Message(
                        "could not parse sbatch job id from "@ + unreadable,
                    ),
                },
            ),
            Some(job_id) => Ok(
                SubmittedView {
                    state: StateView {
                        sandbox_id: sandbox.id,
                        sandbox_name: sandbox.name,
                        job_id,
                        job_name,
                        created_at_ms: now_ms,
                    },
                    event: job_event(
                        sandbox.id,
                        "Submitted"@,
                        "Submitted Slurm job "@ + job_id,
                        job_id,
                        now_ms,
                    ),
                },
            ),
        }
    }
}

/// What a submission came to. `unreadable` is what the command printed, as it is
/// shown for debugging.
pub fn conclude_submission(
    sandbox: &DriverSandbox,
    job_name: &str,
    output: &SlurmCommandOutput,
    unreadable: &str,
    now_ms: i64,
) -> (r: Result<SubmittedJob, SubmissionFailure>)
    ensures
        shown(r) == submission_outcome(
            sandbox.deep_view(),
            job_name@,
            output.deep_view(),
            unreadable@,
            now_ms,
        ),
{
    if output.status != Some(0) {
        let said = trim_command_error(output);
        return Err(
            SubmissionFailure {
                clean_up: true,
                error: SlurmDriverError::Message(cat2("sbatch failed: ", said.as_str())),
            },
        );
    }
    let job_id = match parse_sbatch_job_id(output.stdout.as_str()) {
        Some(job_id) => job_id,
        None => {
            return Err(
                SubmissionFailure {
                    clean_up: false,
                    error: SlurmDriverError::Message(
                        cat2("could not parse sbatch job id from ", unreadable),
                    ),
                },
            );
        },
    };
    let event = job_platform_event(
        sandbox.id.as_str(),
        "Submitted",
        cat2("Submitted Slurm job ", job_id.as_str()),
        job_id.as_str(),
        now_ms,
    );
    Ok(
        SubmittedJob {
            state: SlurmSandboxState {
                sandbox_id: sandbox.id.clone(),
                sandbox_name: sandbox.name.clone(),
                job_id,
                job_name: job_name.to_owned(),
                created_at_ms: now_ms,
            },
            event,
        },
    )
}

// ---------------------------------------------------------------------------
// Cancelling and finding
// ---------------------------------------------------------------------------

/// What cancelling a job came to: what watchers are told, or the error.
pub open spec fn cancel_outcome(state: StateView, output: OutputView, now_ms: i64) -> Result<
    WatchView,
    DriverErrorView,
> {
    if output.status == Some(0i32) || says_not_found(output) {
        Ok(
            job_event(
                state.sandbox_id,
                "Cancelled"@,
                "Cancelled Slurm job "@ + state.job_id,
                state.job_id,
                now_ms,
            ),
        )
    } else {
        Err(
            DriverErrorView::Message(
                "scancel failed for job "@ + state.job_id + ": "@ + error_text(output),
            ),
        )
    }
}

/// How a sandbox is looked for.
#[derive(Debug, Clone, PartialEq, Eq)]
pub enum SandboxLookup {
    /// By what the driver keeps in a file.
    StateFile(String),
    /// By its name, among all that the driver keeps.
    Name(String),
}

/// The content of how a sandbox is looked for.
pub enum LookupView {
    StateFile(Seq<char>),
    Name(Seq<char>),
}

impl DeepView for SandboxLookup {
    type V = LookupView;

    open spec fn deep_view(&self) -> LookupView {
        match self {
            SandboxLookup::StateFile(path) => LookupView::StateFile(path@),
            SandboxLookup::Name(name) => LookupView::Name(name@),
        }
    }
}

/// The file in which the driver keeps what it knows of a sandbox.
pub open spec fn state_path_of(config: ConfigView, sandbox_id: Seq<char>) -> Result<
    Seq<char>,
    DriverErrorView,
> {
    match dir_of(config, sandbox_id) {
        Err(error) => Err(error),
        Ok(dir) => Ok(joined_path(dir, "state.json"@)),
    }
}

/// How a sandbox is looked for: by its identity, or else by its name.
pub open spec fn lookup_of(
    config: ConfigView,
    sandbox_id: Seq<char>,
    sandbox_name: Seq<char>,
) -> Result<LookupView, DriverErrorView> {
    if sandbox_id.len() > 0 {
        match state_path_of(config, sandbox_id) {
            Err(error) => Err(error),
            Ok(path) => Ok(LookupView::StateFile(path)),
        }
    } else if sandbox_name.len() == 0 {
        Err(precondition("sandbox_id or sandbox_name is required"@))
    } else {
        Ok(LookupView::Name(sandbox_name))
    }
}

/// The directory of a sandbox that is to be deleted.
pub open spec fn deletion_dir(config: ConfigView, sandbox_id: Seq<char>) -> Result<
    Seq<char>,
    DriverErrorView,
> {
    if sandbox_id.len() == 0 {
        Err(precondition("sandbox id is required"@))
    } else {
        dir_of(config, sandbox_id)
    }
}

/// The driver.
pub struct SlurmComputeDriver {
    pub config: SlurmComputeConfig,
}

impl SlurmComputeDriver {
    /// A driver for a configuration, once what it needs has been checked, as far as
    /// that takes no commands.
    pub fn with_runner(config: SlurmComputeConfig, files: &PreflightFiles) -> (r: Result<
        SlurmComputeDriver,
        SlurmDriverError,
    >)
        ensures
            match preflight_verdict(config.deep_view(), files.deep_view()) {
                Ok(_) => r matches Ok(driver) && driver.config == config,
                Err(problem) => r matches Err(error) && error.deep_view() == problem,
            },
    {
        let driver = SlurmComputeDriver { config };
        match driver.preflight(files) {
            Ok(_) => Ok(driver),
            Err(error) => Err(error),
        }
    }

    /// Checks the configuration and the files that it names.
    pub fn preflight(&self, files: &PreflightFiles) -> (r: Result<(), SlurmDriverError>)
        ensures
            shown(r) == preflight_verdict(self.config.deep_view(), files.deep_view()),
    {
        if text::is_blank(self.config.grpc_endpoint.as_str()) {
            return Err(
                SlurmDriverError::Precondition(
                    "grpc_endpoint is required when using the slurm compute driver".to_owned(),
                ),
            );
        }
        if let Err(problem) = self.config.validate_tls_config() {
            return Err(SlurmDriverError::Precondition(problem));
        }
        if let Err(error) = ensure_executable_file(
            self.config.supervisor_bin.as_str(),
            "slurm supervisor binary",
            &files.supervisor,
        ) {
            return Err(error);
        }
        match (&self.config.guest_tls_ca, &self.config.guest_tls_cert, &self.config.guest_tls_key) {
            (Some(ca), Some(cert), Some(key)) => {
                if let Err(error) = ensure_readable_file(
                    ca.as_str(),
                    "slurm TLS CA",
                    &files.tls_ca,
                ) {
                    return Err(error);
                }
                if let Err(error) = ensure_readable_file(
                    cert.as_str(),
                    "slurm TLS certificate",
                    &files.tls_cert,
                ) {
                    return Err(error);
                }
                ensure_readable_file(key.as_str(), "slurm TLS private key", &files.tls_key)
            },
            _ => Ok(()),
        }
    }

    /// The commands that must be there.
    pub fn required_commands(&self) -> (r: Vec<String>)
        ensures
            r.deep_view() == commands_of(self.config.deep_view()),
    {
        let mut commands: Vec<String> = Vec::new();
        commands.push("sbatch".to_owned());
        commands.push("srun".to_owned());
        commands.push("squeue".to_owned());
        commands.push("scancel".to_owned());
        commands.push(self.config.apptainer_bin.clone());
        assert(commands.deep_view() =~= commands_of(self.config.deep_view()));
        commands
    }

    /// Checks a command that was asked for its version.
    pub fn require_command(program: &str, output: &SlurmCommandOutput) -> (r: Result<
        (),
        SlurmDriverError,
    >)
        ensures
            shown(r) == command_verdict(program@, output.deep_view()),
    {
        if output.status == Some(0) {
            return Ok(());
        }
        let said = trim_command_error(output);
        Err(
            SlurmDriverError::Precondition(
                cat4(
                    "required Slurm driver command '",
                    program,
                    "' failed: ",
                    said.as_str(),
                ),
            ),
        )
    }

    /// What the driver can do.
    pub fn capabilities(&self, version: &str) -> (r: GetCapabilitiesResponse)
        ensures
            r.deep_view() == (CapabilitiesView {
                driver_name: "slurm"@,
                driver_version: version@,
                default_image: self.config.default_image@,
                supports_gpu: true,
                gpu_count: 0,
            }),
    {
        GetCapabilitiesResponse {
            driver_name: "slurm".to_owned(),
            driver_version: version.to_owned(),
            default_image: self.config.default_image.clone(),
            supports_gpu: true,
            gpu_count: 0,
        }
    }

    /// Checks that a sandbox can be created, from what reading its resources gave.
    pub fn validate_sandbox_create(
        &self,
        sandbox: &DriverSandbox,
        resources: Result<SlurmResources, SlurmDriverError>,
    ) -> (r: Result<(), SlurmDriverError>)
        ensures
            shown(r) == shape_verdict(
                sandbox.deep_view(),
                self.config.deep_view(),
                shown(resources),
            ),
    {
        validate_sandbox_shape(sandbox, &self.config, resources)
    }

    /// The directory of a sandbox.
    pub fn sandbox_dir(&self, sandbox_id: &str) -> (r: Result<String, SlurmDriverError>)
        ensures
            shown(r) == dir_of(self.config.deep_view(), sandbox_id@),
    {
        match validate_path_id(sandbox_id) {
            Err(error) => Err(error),
            Ok(_) => Ok(join_path(self.config.work_dir.as_str(), sandbox_id)),
        }
    }

    /// The first step of creating a sandbox: the directory to make for it.
    /// `dir_exists` tells whether that directory is there already.
    pub fn create_sandbox(
        &self,
        sandbox: &DriverSandbox,
        resources: Result<SlurmResources, SlurmDriverError>,
        dir_exists: bool,
    ) -> (r: Result<String, SlurmDriverError>)
        ensures
            shown(r) == creation_dir(
                sandbox.deep_view(),
                self.config.deep_view(),
                shown(resources),
                dir_exists,
            ),
    {
        match self.validate_sandbox_create(sandbox, resources) {
            Ok(_) => {},
            Err(error) => {
                return Err(error);
            },
        }
        match self.sandbox_dir(sandbox.id.as_str()) {
            Err(error) => Err(error),
            Ok(dir) => {
                if dir_exists {
                    Err(SlurmDriverError::AlreadyExists)
                } else {
                    Ok(dir)
                }
            },
        }
    }

    /// The second step of creating a sandbox: its job, in the directory that was
    /// made for it.
    pub fn prepare_job(
        &self,
        sandbox: &DriverSandbox,
        dir: &str,
        resources: &SlurmResources,
        log_level: &str,
        names: &VariableNames,
    ) -> (r: Result<PreparedJob, SlurmDriverError>)
        ensures
            shown(r) == prepared(
                sandbox.deep_view(),
                self.config.deep_view(),
                dir@,
                resources.deep_view(),
                log_level@,
                names.deep_view(),
            ),
    {
        let image = resolve_image(sandbox, &self.config);
        let env_path = join_path(dir, "sandbox.env");
        let script_path = join_path(dir, "run.sh");
        let status_path = join_path(dir, "status.env");
        let env = match sandbox_environment(
            sandbox,
            &self.config,
            image.as_str(),
            log_level,
            names,
        ) {
            Ok(env) => env,
            Err(error) => {
                return Err(error);
            },
        };
        let job_name = slurm_job_name(sandbox.name.as_str(), sandbox.id.as_str());
        let script = batch_script(
            dir,
            env_path.as_str(),
            status_path.as_str(),
            image.as_str(),
            &self.config,
        );
        let gpu = match &sandbox.spec {
            Some(spec) => spec.gpu,
            None => false,
        };
        let args = sbatch_args(
            job_name.as_str(),
            dir,
            script_path.as_str(),
            resources,
            gpu,
            &self.config,
        );
        let env_content = env_file_content(&env);
        Ok(PreparedJob { env_path, env_content, script_path, script, job_name, args })
    }

    /// The third step of creating a sandbox: what its submission came to.
    pub fn finish_create(
        sandbox: &DriverSandbox,
        job_name: &str,
        output: &SlurmCommandOutput,
        now_ms: i64,
    ) -> (r: Result<SubmittedJob, SubmissionFailure>)
        ensures
            shown(r) == submission_outcome(
                sandbox.deep_view(),
                job_name@,
                output.deep_view(),
                debug_shown(output.stdout@),
                now_ms,
            ),
    {
        let unreadable = debug_text(output.stdout.as_str());
        conclude_submission(sandbox, job_name, output, unreadable.as_str(), now_ms)
    }

    /// The arguments that cancel a job.
    pub fn cancel_args(state: &SlurmSandboxState) -> (r: Vec<String>)
        ensures
            r.deep_view() == seq!["--full"@, state.job_id@],
    {
        let mut args: Vec<String> = Vec::new();
        args.push("--full".to_owned());
        args.push(state.job_id.clone());
        assert(args.deep_view() =~= seq!["--full"@, state.job_id@]);
        args
    }

    /// The arguments that cancel the job of the sandbox with a given name, where there
    /// is one.
    pub fn stop_sandbox(states: &Vec<SlurmSandboxState>, sandbox_name: &str) -> (r: Option<
        Vec<String>,
    >)
        ensures
            r.deep_view() == (match first_named(states.deep_view(), sandbox_name@) {
                Some(state) => Some(seq!["--full"@, state.job_id]),
                None => None,
            }),
    {
        match find_state_by_name(states, sandbox_name) {
            Some(state) => Some(SlurmComputeDriver::cancel_args(state)),
            None => None,
        }
    }

    /// What cancelling a job came to.
    pub fn cancel_job(state: &SlurmSandboxState, output: &SlurmCommandOutput, now_ms: i64) -> (r:
        Result<WatchSandboxesEvent, SlurmDriverError>)
        ensures
            shown(r) == cancel_outcome(state.deep_view(), output.deep_view(), now_ms),
    {
        if output.status == Some(0) || command_error_is_not_found(output) {
            return Ok(
                job_platform_event(
                    state.sandbox_id.as_str(),
                    "Cancelled",
                    cat2("Cancelled Slurm job ", state.job_id.as_str()),
                    state.job_id.as_str(),
                    now_ms,
                ),
            );
        }
        let said = trim_command_error(output);
        Err(
            SlurmDriverError::Message(
                cat4("scancel failed for job ", state.job_id.as_str(), ": ", said.as_str()),
            ),
        )
    }

    /// The file in which the driver keeps what it knows of a sandbox.
    pub fn state_path(&self, sandbox_id: &str) -> (r: Result<String, SlurmDriverError>)
        ensures
            shown(r) == state_path_of(self.config.deep_view(), sandbox_id@),
    {
        match self.sandbox_dir(sandbox_id) {
            Err(error) => Err(error),
            Ok(dir) => Ok(join_path(dir.as_str(), "state.json")),
        }
    }

    /// How a sandbox is looked for.
    pub fn get_sandbox(&self, sandbox_id: &str, sandbox_name: &str) -> (r: Result<
        SandboxLookup,
        SlurmDriverError,
    >)
        ensures
            shown(r) == lookup_of(self.config.deep_view(), sandbox_id@, sandbox_name@),
    {
        if !sandbox_id.is_empty() {
            return match self.state_path(sandbox_id) {
                Err(error) => Err(error),
                Ok(path) => Ok(SandboxLookup::StateFile(path)),
            };
        }
        if sandbox_name.is_empty() {
            return Err(
                SlurmDriverError::Precondition(
                    "sandbox_id or sandbox_name is required".to_owned(),
                ),
            );
        }
        Ok(SandboxLookup::Name(sandbox_name.to_owned()))
    }

    /// The directory of a sandbox that is to be deleted.
    pub fn delete_sandbox(&self, sandbox_id: &str) -> (r: Result<String, SlurmDriverError>)
        ensures
            shown(r) == deletion_dir(self.config.deep_view(), sandbox_id@),
    {
        if sandbox_id.is_empty() {
            return Err(SlurmDriverError::Precondition("sandbox id is required".to_owned()));
        }
        self.sandbox_dir(sandbox_id)
    }

    /// What watchers are told of a sandbox that was deleted.
    pub fn deleted_event(sandbox_id: &str) -> (r: WatchSandboxesEvent)
        ensures
            r.deep_view() == (WatchView::Deleted { sandbox_id: sandbox_id@ }),
    {
        WatchSandboxesEvent::Deleted { sandbox_id: sandbox_id.to_owned() }
    }
}

// ---------------------------------------------------------------------------
// Laws
// ---------------------------------------------------------------------------

/// The directory of a sandbox is the work directory and one name behind it: what is
/// behind the work directory is not empty and holds no slash.
pub proof fn law_directories_add_one_name(config: ConfigView, sandbox_id: Seq<char>)
    requires
        dir_of(config, sandbox_id) is Ok,
    ensures
        dir_of(config, sandbox_id)->Ok_0 == joined_path(config.work_dir, sandbox_id),
        !sandbox_id.contains('/'),
        sandbox_id.len() > 0,
{
    assert forall|i: int| 0 <= i < sandbox_id.len() implies sandbox_id[i] != '/' by {
        assert(crate::slurm::sandbox::is_path_char(sandbox_id[i]));
    }
}

/// Two sandboxes with different identities have different directories.
pub proof fn law_directories_are_distinct(config: ConfigView, a: Seq<char>, b: Seq<char>)
    requires
        dir_of(config, a) is Ok,
        dir_of(config, b) is Ok,
        dir_of(config, a)->Ok_0 == dir_of(config, b)->Ok_0,
    ensures
        a == b,
{
    reveal_strlit("/");
    let dir = config.work_dir;
    let from = if dir.len() == 0 || dir.last() == '/' {
        dir.len() as int
    } else {
        (dir.len() + 1) as int
    };
    assert(joined_path(dir, a).skip(from) =~= a);
    assert(joined_path(dir, b).skip(from) =~= b);
}

/// A job is kept only where its submission succeeded and named it, and a submission
/// that Slurm refuses leaves no directory behind.
pub proof fn law_only_submitted_jobs_are_kept(
    sandbox: SandboxView,
    job_name: Seq<char>,
    output: OutputView,
    unreadable: Seq<char>,
    now_ms: i64,
)
    ensures
        submission_outcome(sandbox, job_name, output, unreadable, now_ms) is Ok <==> output.status
            == Some(0i32) && submitted_job(output.stdout) is Some,
        output.status != Some(0i32) ==> submission_outcome(
            sandbox,
            job_name,
            output,
            unreadable,
            now_ms,
        )->Err_0.clean_up,
{
}

/// A sandbox is never created twice: where its directory is there, creation fails.
pub proof fn law_existing_sandboxes_are_not_created(
    sandbox: SandboxView,
    config: ConfigView,
    resources: Result<JobResourcesView, DriverErrorView>,
)
    ensures
        creation_dir(sandbox, config, resources, true) is Err,
        shape_verdict(sandbox, config, resources) is Ok ==> creation_dir(
            sandbox,
            config,
            resources,
            true,
        ) == Err::<Seq<char>, DriverErrorView>(DriverErrorView::AlreadyExists),
{
}

/// The arguments of a submission end with the script.
pub proof fn law_submission_ends_with_script(
    sandbox: SandboxView,
    config: ConfigView,
    dir: Seq<char>,
    resources: JobResourcesView,
    log_level: Seq<char>,
    names: NamesView,
)
    requires
        prepared(sandbox, config, dir, resources, log_level, names) is Ok,
    ensures
        prepared(sandbox, config, dir, resources, log_level, names)->Ok_0.args.last() == prepared(
            sandbox,
            config,
            dir,
            resources,
            log_level,
            names,
        )->Ok_0.script_path,
{
}

} // verus!
