//! Sandboxes as Slurm jobs.

use openshell::slurm::config::SlurmComputeConfig;
use openshell::slurm::driver::{
    ensure_executable_file, ensure_readable_file, FileFacts, PreflightFiles, SandboxLookup,
    SlurmComputeDriver,
};
use openshell::slurm::environment::{env_file_content, sandbox_environment, VariableNames};
use openshell::slurm::jobs::{
    command_error_is_not_found, condition_from_snapshot, find_state_by_name, inquire,
    job_snapshot, list_states, parse_number, parse_sbatch_job_id, read_status_marker, sacct_snapshot,
    sandbox_from_state, snapshot_from_marker, squeue_snapshot, trim_command_error,
    Inquiry, LocalMarkerState, LocalStatusMarker, SlurmCommandOutput, SlurmJobSnapshot, SlurmSandboxState,
    WatchSandboxesEvent,
};
use openshell::slurm::sandbox::{
    cpu_quantity, memory_quantity, memory_unit, resolve_image, slurm_cpu, slurm_memory,
    slurm_resources, validate_env_name, validate_env_value, validate_path_id,
    DriverResourceRequirements, DriverSandbox, DriverSandboxSpec, DriverSandboxTemplate,
    SlurmDriverError, SlurmResources,
};
use openshell::slurm::script::{batch_script, sbatch_args, sh_single_quote, slurm_job_name};

fn text(value: &str) -> String {
    value.to_string()
}

fn no_resources() -> DriverResourceRequirements {
    DriverResourceRequirements {
        cpu_request: String::new(),
        cpu_limit: String::new(),
        memory_request: String::new(),
        memory_limit: String::new(),
    }
}

fn sandbox_with_resources(resources: DriverResourceRequirements) -> DriverSandbox {
    DriverSandbox {
        id: "sb-123".to_string(),
        name: "demo".to_string(),
        namespace: String::new(),
        spec: Some(DriverSandboxSpec {
            log_level: String::new(),
            environment: vec![],
            template: Some(DriverSandboxTemplate {
                image: "ubuntu:24.04".to_string(),
                environment: vec![],
                resources: Some(resources),
                has_platform_config: false,
            }),
            gpu: false,
            gpu_device: String::new(),
        }),
        status: None,
    }
}

fn default_config() -> SlurmComputeConfig {
    SlurmComputeConfig::defaults(300)
}

fn ready_config() -> SlurmComputeConfig {
    SlurmComputeConfig {
        work_dir: text("/shared/openshell"),
        grpc_endpoint: text("https://gateway:8080"),
        supervisor_bin: text("/shared/bin/openshell-sandbox"),
        ssh_handshake_secret: text("handshake"),
        ..default_config()
    }
}

fn present() -> Result<FileFacts, String> {
    Ok(FileFacts { is_file: true, is_executable: true })
}

fn all_present() -> PreflightFiles {
    PreflightFiles {
        supervisor: present(),
        tls_ca: present(),
        tls_cert: present(),
        tls_key: present(),
    }
}

fn variable_names() -> VariableNames {
    VariableNames {
        log_level: text("OPENSHELL_LOG_LEVEL"),
        sandbox: text("OPENSHELL_SANDBOX"),
        sandbox_id: text("OPENSHELL_SANDBOX_ID"),
        endpoint: text("OPENSHELL_ENDPOINT"),
        ssh_socket_path: text("OPENSHELL_SSH_SOCKET_PATH"),
        ssh_handshake_secret: text("OPENSHELL_SSH_HANDSHAKE_SECRET"),
        ssh_handshake_skew_secs: text("OPENSHELL_SSH_HANDSHAKE_SKEW_SECS"),
        sandbox_command: text("OPENSHELL_SANDBOX_COMMAND"),
        tls_ca: text("OPENSHELL_TLS_CA"),
        tls_cert: text("OPENSHELL_TLS_CERT"),
        tls_key: text("OPENSHELL_TLS_KEY"),
    }
}

fn command(status: Option<i32>, stdout: &str, stderr: &str) -> SlurmCommandOutput {
    SlurmCommandOutput { status, stdout: text(stdout), stderr: text(stderr) }
}

fn parse_cpu_ceil(value: &str) -> Result<u32, SlurmDriverError> {
    let (number, millicores) = cpu_quantity(value);
    let number = number.parse::<f64>().unwrap();
    let cores = if millicores { number / 1000.0 } else { number };
    Ok(cores.ceil().max(1.0) as u32)
}

fn parse_memory_mib_ceil(value: &str) -> Result<u64, SlurmDriverError> {
    let (number, suffix) = memory_quantity(value);
    let number = number.parse::<f64>().unwrap();
    let (base, power) = memory_unit(suffix)?;
    let bytes = number * f64::from(base).powi(power as i32);
    Ok((bytes / 1024_f64.powi(2)).ceil().max(1.0) as u64)
}

#[test]
fn image_references_default_to_docker_transport() {
    let config = SlurmComputeConfig {
        default_image: "ubuntu:24.04".to_string(),
        ..default_config()
    };
    let sandbox = sandbox_with_resources(no_resources());

    assert_eq!(resolve_image(&sandbox, &config), "docker://ubuntu:24.04");
}

#[test]
fn image_references_preserve_apptainer_transports() {
    let config = default_config();
    let mut sandbox = sandbox_with_resources(no_resources());
    sandbox
        .spec
        .as_mut()
        .unwrap()
        .template
        .as_mut()
        .unwrap()
        .image = "oras://registry.example/sandbox:latest".to_string();

    assert_eq!(
        resolve_image(&sandbox, &config),
        "oras://registry.example/sandbox:latest"
    );
}

#[test]
fn resource_quantities_round_up_for_slurm() {
    let sandbox = sandbox_with_resources(DriverResourceRequirements {
        cpu_limit: "1500m".to_string(),
        memory_limit: "1536Mi".to_string(),
        ..no_resources()
    });

    let resources = slurm_resources(
        slurm_cpu(&sandbox).map(parse_cpu_ceil),
        slurm_memory(&sandbox).map(parse_memory_mib_ceil),
    )
    .unwrap();
    assert_eq!(resources.cpus_per_task, Some(2));
    assert_eq!(resources.mem.as_deref(), Some("1536M"));
}

#[test]
fn memory_quantities_accept_decimal_units() {
    assert_eq!(parse_memory_mib_ceil("1G").unwrap(), 954);
    assert_eq!(parse_memory_mib_ceil("2Gi").unwrap(), 2048);
}

#[test]
fn batch_script_quotes_arguments() {
    let dir = "/tmp/with space";
    let script = batch_script(
        dir,
        &format!("{dir}/sandbox.env"),
        &format!("{dir}/status.env"),
        "docker://example/image:latest",
        &SlurmComputeConfig {
            apptainer_bin: "apptainer".to_string(),
            supervisor_bin: format!("{dir}/openshell-sandbox"),
            extra_apptainer_args: vec!["--containall".to_string()],
            ..default_config()
        },
    );

    assert!(script.contains("'--containall'"));
    assert!(script.contains(
        "'/tmp/with space/openshell-sandbox:/opt/openshell/bin/openshell-sandbox:ro'"
    ));
    assert!(script.contains("srun '--ntasks=1'"));
    assert!(!script.contains("exec srun"));
}

#[test]
fn env_file_quotes_shell_values() {
    let env = vec![
        ("EMPTY".to_string(), String::new()),
        ("QUOTE".to_string(), "it'll work".to_string()),
        ("SPACE".to_string(), "sleep infinity".to_string()),
    ];

    assert_eq!(
        env_file_content(&env),
        "EMPTY=''\nQUOTE='it'\"'\"'ll work'\nSPACE='sleep infinity'\n"
    );
}

#[test]
fn slurm_conditions_keep_active_jobs_provisioning() {
    let condition = condition_from_snapshot(&SlurmJobSnapshot {
        state: "RUNNING".to_string(),
        reason: String::new(),
    });

    assert_eq!(condition.status, "False");
    assert_eq!(condition.reason, "DependenciesNotReady");
}

#[test]
fn slurm_conditions_mark_failures_terminal() {
    let condition = condition_from_snapshot(&SlurmJobSnapshot {
        state: "FAILED".to_string(),
        reason: "NonZeroExitCode".to_string(),
    });

    assert_eq!(condition.status, "False");
    assert_eq!(condition.reason, "SlurmFAILED");
}

#[test]
fn sbatch_parsable_job_id_is_extracted() {
    assert_eq!(
        parse_sbatch_job_id("12345;debug\n").as_deref(),
        Some("12345")
    );
}

#[test]
fn job_ids_need_a_first_line() {
    assert_eq!(parse_sbatch_job_id("77\n78\n").as_deref(), Some("77"));
    assert_eq!(parse_sbatch_job_id(""), None);
    assert_eq!(parse_sbatch_job_id("\n"), None);
}

#[test]
fn batch_script_is_written_out_in_full() {
    let script = batch_script(
        "/d",
        "/d/sandbox.env",
        "/d/status.env",
        "docker://i",
        &SlurmComputeConfig {
            apptainer_bin: text("apptainer"),
            supervisor_bin: text("/s"),
            extra_srun_args: vec![text("--exclusive")],
            ..default_config()
        },
    );
    assert_eq!(
        script,
        "#!/usr/bin/env bash\nset -euo pipefail\n\nSTATUS_FILE='/d/status.env'\n\
         write_status() {\n  printf '%s\\n' \"$*\" > \"${STATUS_FILE}\"\n}\n\
         finish() {\n  code=$?\n  write_status \"state=exited exit_code=${code} \
         ended_at_ms=$(date +%s%3N)\"\n  exit \"${code}\"\n}\ntrap finish EXIT\n\n\
         write_status \"state=starting started_at_ms=$(date +%s%3N)\"\ncd '/d'\n\
         write_status \"state=running started_at_ms=$(date +%s%3N)\"\n\
         srun '--ntasks=1' '--exclusive' 'apptainer' 'exec' '--cleanenv' '--env-file' \
         '/d/sandbox.env' '--bind' '/s:/opt/openshell/bin/openshell-sandbox:ro' 'docker://i' \
         '/opt/openshell/bin/openshell-sandbox'\n"
    );
}

#[test]
fn quoted_values_hold_every_character() {
    assert_eq!(sh_single_quote(""), "''");
    assert_eq!(sh_single_quote("a b"), "'a b'");
    assert_eq!(sh_single_quote("'"), "''\"'\"''");
}

#[test]
fn identifiers_are_single_path_segments() {
    assert_eq!(validate_path_id("sb-1.2_x"), Ok(()));
    assert_eq!(validate_path_id(&"a".repeat(128)), Ok(()));
    let long = "a".repeat(129);
    for bad in ["", "a/b", "a b", long.as_str()] {
        assert_eq!(
            validate_path_id(bad).map_err(|error| error.message()),
            Err(text("sandbox id must match [A-Za-z0-9._-]{1,128}")),
            "{bad:?}"
        );
    }
}

#[test]
fn environment_names_are_shell_names() {
    assert_eq!(validate_env_name("PATH_2"), Ok(()));
    for bad in ["", "2PATH", "A-B", "A=B"] {
        assert!(validate_env_name(bad).is_err(), "{bad:?}");
    }
    assert_eq!(validate_env_value("A", "plain"), Ok(()));
    for bad in ["a\nb", "a\0b"] {
        assert!(validate_env_value("A", bad).is_err(), "{bad:?}");
    }
}

#[test]
fn quantities_are_taken_apart() {
    assert_eq!(cpu_quantity(" 1500m "), ("1500", true));
    assert_eq!(cpu_quantity("2"), ("2", false));
    assert_eq!(memory_quantity(" 1.5Gi "), ("1.5", "Gi"));
    assert_eq!(memory_quantity("512"), ("512", ""));
    assert_eq!(memory_unit("k"), Ok((1000, 1)));
    assert_eq!(memory_unit("Ti"), Ok((1024, 4)));
    assert_eq!(
        memory_unit("Qi").map_err(|error| error.message()),
        Err(text("invalid slurm memory quantity suffix 'Qi'"))
    );
}

#[test]
fn limits_win_over_requests() {
    let sandbox = sandbox_with_resources(DriverResourceRequirements {
        cpu_request: text("1"),
        cpu_limit: text("2"),
        memory_request: text("1Gi"),
        memory_limit: String::new(),
    });
    assert_eq!(slurm_cpu(&sandbox), Some("2"));
    assert_eq!(slurm_memory(&sandbox), Some("1Gi"));
    assert_eq!(slurm_cpu(&sandbox_with_resources(no_resources())), None);
}

#[test]
fn resource_problems_are_handed_on() {
    let problem = SlurmDriverError::Precondition(text("bad"));
    assert_eq!(slurm_resources(Some(Err(problem.clone())), None), Err(problem.clone()));
    assert_eq!(slurm_resources(Some(Ok(1)), Some(Err(problem.clone()))), Err(problem));
    assert_eq!(
        slurm_resources(None, None),
        Ok(SlurmResources { cpus_per_task: None, mem: None })
    );
}

#[test]
fn tls_files_come_together() {
    let mut config = ready_config();
    assert!(!config.tls_enabled());
    config.guest_tls_ca = Some(text("/ca"));
    assert!(config.validate_tls_config().is_err());
    config.guest_tls_cert = Some(text("/cert"));
    config.guest_tls_key = Some(text("/key"));
    assert_eq!(config.validate_tls_config(), Ok(()));
    assert!(config.tls_enabled());
}

#[test]
fn defaults_are_usable() {
    let config = default_config();
    assert_eq!(config.apptainer_bin, SlurmComputeConfig::default_apptainer_bin());
    assert_eq!(config.gpu_resource, SlurmComputeConfig::default_gpu_resource());
    assert_eq!(config.work_dir, SlurmComputeConfig::default_work_dir());
    assert_eq!(config.ssh_handshake_skew_secs, 300);
}

#[test]
fn imposed_variables_replace_those_of_the_sandbox() {
    let mut sandbox = sandbox_with_resources(no_resources());
    let spec = sandbox.spec.as_mut().unwrap();
    spec.environment = vec![
        (text("OPENSHELL_SANDBOX_ID"), text("forged")),
        (text("USER_VALUE"), text("kept")),
    ];
    let env = sandbox_environment(
        &sandbox,
        &ready_config(),
        "docker://ubuntu:24.04",
        "info",
        &variable_names(),
    )
    .unwrap();
    let value = |key: &str| {
        env.iter()
            .find(|(name, _)| name == key)
            .map(|(_, value)| value.clone())
    };
    assert_eq!(value("OPENSHELL_SANDBOX_ID"), Some(text("sb-123")));
    assert_eq!(value("USER_VALUE"), Some(text("kept")));
    assert_eq!(value("OPENSHELL_ENDPOINT"), Some(text("https://gateway:8080")));
    assert_eq!(value("OPENSHELL_SANDBOX_COMMAND"), Some(text("sleep infinity")));
    assert_eq!(value("OPENSHELL_TLS_CA"), None);
    let mut names: Vec<&String> = env.iter().map(|(name, _)| name).collect();
    let written = names.clone();
    names.sort();
    names.dedup();
    assert_eq!(names, written);
}

#[test]
fn values_that_span_lines_are_refused() {
    let mut sandbox = sandbox_with_resources(no_resources());
    sandbox.spec.as_mut().unwrap().environment = vec![(text("A"), text("x\ny"))];
    assert!(sandbox_environment(
        &sandbox,
        &ready_config(),
        "docker://ubuntu:24.04",
        "info",
        &variable_names(),
    )
    .is_err());
}

#[test]
fn submission_arguments_end_with_the_script() {
    let config = SlurmComputeConfig {
        partition: Some(text("gpu")),
        extra_sbatch_args: vec![text("--nice")],
        ..ready_config()
    };
    let args = sbatch_args(
        "job",
        "/d",
        "/d/run.sh",
        &SlurmResources { cpus_per_task: Some(2), mem: Some(text("64M")) },
        true,
        &config,
    );
    assert_eq!(
        args,
        vec![
            "--parsable", "--job-name", "job", "--output", "/d/slurm-%j.out", "--error",
            "/d/slurm-%j.err", "--ntasks", "1", "--nodes", "1", "--partition", "gpu",
            "--cpus-per-task", "2", "--mem", "64M", "--gres", "gpu:1", "--nice", "/d/run.sh",
        ]
    );
}

#[test]
fn job_names_hold_only_plain_characters() {
    assert_eq!(slurm_job_name("my sandbox!", "sb-123"), "openshell-my-sandbox--sb-123");
    assert_eq!(
        slurm_job_name(&"n".repeat(60), "0123456789abcdef"),
        format!("openshell-{}-0123456789ab", "n".repeat(48))
    );
}

#[test]
fn queue_and_accounting_lines_are_read() {
    assert_eq!(
        squeue_snapshot(&command(Some(0), "\n PENDING | Resources|x \n", ""), "77"),
        Ok(Some(SlurmJobSnapshot { state: text("PENDING"), reason: text("Resources|x") }))
    );
    assert_eq!(squeue_snapshot(&command(Some(0), " \n", ""), "77"), Ok(None));
    assert_eq!(
        squeue_snapshot(&command(Some(1), "", "no controller\n"), "77"),
        Err(SlurmDriverError::Message(text("squeue failed for job 77: no controller")))
    );
    assert_eq!(
        sacct_snapshot(&command(Some(0), "76|FAILED|x\n77|COMPLETED|\n", ""), "77"),
        Some(SlurmJobSnapshot { state: text("COMPLETED"), reason: String::new() })
    );
    assert_eq!(sacct_snapshot(&command(Some(0), "77\n", ""), "77"), None);
    assert_eq!(sacct_snapshot(&command(Some(1), "", "down"), "77"), None);
}

#[test]
fn command_errors_are_told_apart() {
    assert!(command_error_is_not_found(&command(Some(1), "", "Invalid Job ID 7")));
    assert!(!command_error_is_not_found(&command(Some(1), "", "timeout")));
    assert_eq!(trim_command_error(&command(Some(1), "out", " err \n")), "err");
    assert_eq!(trim_command_error(&command(Some(1), " out \n", " ")), "out");
    assert_eq!(trim_command_error(&command(Some(3), "", "")), "exit status Some(3)");
    assert_eq!(trim_command_error(&command(None, "", "")), "exit status None");
}

#[test]
fn status_markers_are_read_back() {
    assert_eq!(
        read_status_marker("state=exited exit_code=3 ended_at_ms=5\n"),
        Some(LocalStatusMarker { state: LocalMarkerState::Exited, exit_code: Some(3) })
    );
    assert_eq!(
        read_status_marker("state=running started_at_ms=5\n"),
        Some(LocalStatusMarker { state: LocalMarkerState::Running, exit_code: None })
    );
    assert_eq!(read_status_marker("state=lost"), None);
    let done = snapshot_from_marker(LocalStatusMarker {
        state: LocalMarkerState::Exited,
        exit_code: Some(0),
    });
    let failed = snapshot_from_marker(LocalStatusMarker {
        state: LocalMarkerState::Exited,
        exit_code: Some(9),
    });
    assert_eq!(done.state, "COMPLETED");
    assert_eq!(failed.state, "FAILED");
    assert_eq!(failed.reason, "ExitCode=9");
}

#[test]
fn numbers_are_parsed_as_std_does() {
    for value in ["0", "+7", "-12", "2147483647", "-2147483648", "2147483648", "", "+", "1x"] {
        assert_eq!(parse_number(value), value.parse::<i32>().ok(), "{value:?}");
    }
}

#[test]
fn the_queue_is_asked_first() {
    let queue = SlurmJobSnapshot { state: text("PENDING"), reason: text("Resources") };
    let account = SlurmJobSnapshot { state: text("COMPLETED"), reason: String::new() };
    let marker = LocalStatusMarker { state: LocalMarkerState::Exited, exit_code: Some(1) };
    assert_eq!(
        job_snapshot(Some(queue.clone()), Some(marker), Some(account.clone())),
        queue
    );
    assert_eq!(job_snapshot(None, Some(marker), Some(account.clone())).state, "FAILED");
    assert_eq!(job_snapshot(None, None, Some(account.clone())), account);
}

#[test]
fn listed_states_are_in_order_of_name() {
    let state = |id: &str, name: &str| SlurmSandboxState {
        sandbox_id: text(id),
        sandbox_name: text(name),
        job_id: text("1"),
        job_name: text("j"),
        created_at_ms: 0,
    };
    let listed = list_states(vec![state("2", "b"), state("3", "a"), state("1", "b")]);
    let order: Vec<(&str, &str)> = listed
        .iter()
        .map(|state| (state.sandbox_name.as_str(), state.sandbox_id.as_str()))
        .collect();
    assert_eq!(order, vec![("a", "3"), ("b", "1"), ("b", "2")]);
    assert_eq!(
        find_state_by_name(&listed, "a").map(|state| state.sandbox_id.as_str()),
        Some("3")
    );
    assert_eq!(find_state_by_name(&listed, "c"), None);
    assert_eq!(
        SlurmComputeDriver::stop_sandbox(&listed, "a"),
        Some(vec![text("--full"), text("1")])
    );
    assert_eq!(SlurmComputeDriver::stop_sandbox(&listed, "c"), None);
    let sandbox = sandbox_from_state(
        &listed[0],
        &SlurmJobSnapshot { state: text("RUNNING"), reason: String::new() },
    );
    assert_eq!(sandbox.id, "3");
    assert_eq!(sandbox.status.unwrap().conditions[0].reason, "DependenciesNotReady");
}

#[test]
fn files_are_checked_before_work_begins() {
    assert_eq!(ensure_readable_file("/a", "label", &present()), Ok(()));
    let plain = Ok(FileFacts { is_file: true, is_executable: false });
    assert_eq!(ensure_readable_file("/a", "label", &plain), Ok(()));
    assert!(ensure_executable_file("/a", "label", &plain).is_err());
    let directory = Ok(FileFacts { is_file: false, is_executable: true });
    assert!(ensure_readable_file("/a", "label", &directory).is_err());
    let missing: Result<FileFacts, String> = Err(text("no such file"));
    assert_eq!(
        ensure_readable_file("/a", "label", &missing),
        Err(SlurmDriverError::Precondition(text("label '/a' is not readable: no such file")))
    );
}

#[test]
fn a_driver_is_made_from_a_complete_configuration() {
    assert!(SlurmComputeDriver::with_runner(ready_config(), &all_present()).is_ok());
    let config = SlurmComputeConfig { grpc_endpoint: String::new(), ..ready_config() };
    assert!(SlurmComputeDriver::with_runner(config, &all_present()).is_err());
    let mut files = all_present();
    files.supervisor = Err(text("gone"));
    assert!(SlurmComputeDriver::with_runner(ready_config(), &files).is_err());
}

#[test]
fn a_sandbox_becomes_a_submitted_job() {
    let driver = SlurmComputeDriver { config: ready_config() };
    let sandbox = sandbox_with_resources(no_resources());
    let resources = SlurmResources { cpus_per_task: None, mem: None };
    let dir = driver
        .create_sandbox(&sandbox, Ok(resources.clone()), false)
        .unwrap();
    assert_eq!(dir, driver.sandbox_dir("sb-123").unwrap());
    assert!(dir.starts_with("/shared/openshell/"));
    assert_eq!(
        driver.create_sandbox(&sandbox, Ok(resources.clone()), true),
        Err(SlurmDriverError::AlreadyExists)
    );
    let job = driver
        .prepare_job(&sandbox, &dir, &resources, "info", &variable_names())
        .unwrap();
    assert!(job.script.contains("docker://ubuntu:24.04"));
    assert_eq!(job.args.last(), Some(&job.script_path));

    let submitted = SlurmComputeDriver::finish_create(
        &sandbox,
        &job.job_name,
        &command(Some(0), "42;cluster\n", ""),
        1_000,
    )
    .unwrap();
    assert_eq!(submitted.state.job_id, "42");
    assert_eq!(submitted.state.created_at_ms, 1_000);

    let failure = SlurmComputeDriver::finish_create(
        &sandbox,
        &job.job_name,
        &command(Some(1), "", "queue full"),
        1_000,
    )
    .unwrap_err();
    assert!(failure.clean_up);
    assert!(failure.error.message().contains("queue full"));

    let unreadable = SlurmComputeDriver::finish_create(
        &sandbox,
        &job.job_name,
        &command(Some(0), "\n", ""),
        1_000,
    )
    .unwrap_err();
    assert!(unreadable.error.message().contains("\"\\n\""), "{}", unreadable.error.message());
}

#[test]
fn unknown_jobs_count_as_cancelled() {
    let state = SlurmSandboxState {
        sandbox_id: text("sb-123"),
        sandbox_name: text("demo"),
        job_id: text("42"),
        job_name: text("openshell-demo"),
        created_at_ms: 0,
    };
    assert_eq!(SlurmComputeDriver::cancel_args(&state).last(), Some(&text("42")));
    let gone = command(Some(1), "", "scancel: error: Invalid job id 42");
    assert!(SlurmComputeDriver::cancel_job(&state, &gone, 7).is_ok());
    let refused = command(Some(1), "", "Access denied");
    assert!(SlurmComputeDriver::cancel_job(&state, &refused, 7).is_err());
}

#[test]
fn sandboxes_are_looked_up_by_id_first() {
    let driver = SlurmComputeDriver { config: ready_config() };
    assert_eq!(
        driver.get_sandbox("sb-123", "demo"),
        Ok(SandboxLookup::StateFile(driver.state_path("sb-123").unwrap()))
    );
    assert_eq!(driver.get_sandbox("", "demo"), Ok(SandboxLookup::Name(text("demo"))));
    assert!(driver.get_sandbox("../x", "demo").is_err());
    assert_eq!(
        driver.get_sandbox("", ""),
        Err(SlurmDriverError::Precondition(text("sandbox_id or sandbox_name is required")))
    );
    assert_eq!(
        SlurmComputeDriver::deleted_event("sb-123"),
        WatchSandboxesEvent::Deleted { sandbox_id: text("sb-123") }
    );
}

#[test]
fn jobs_are_asked_about_in_turn() {
    let snapshot = |state: &str| SlurmJobSnapshot { state: text(state), reason: text("") };
    let marker = LocalStatusMarker { state: LocalMarkerState::Running, exit_code: None };
    assert_eq!(inquire(None, None, None), Inquiry::Queue);
    assert_eq!(
        inquire(Some(Some(snapshot("RUNNING"))), None, None),
        Inquiry::Known(snapshot("RUNNING"))
    );
    assert_eq!(inquire(Some(None), None, None), Inquiry::Marker);
    assert_eq!(
        inquire(Some(None), Some(Some(marker)), None),
        Inquiry::Known(snapshot_from_marker(marker))
    );
    assert_eq!(inquire(Some(None), Some(None), None), Inquiry::Account);
    let Inquiry::Known(unknown) = inquire(Some(None), Some(None), Some(None)) else {
        panic!("nobody is left to ask");
    };
    assert_eq!(unknown.state, "UNKNOWN");
}
