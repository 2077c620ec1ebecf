//! Tasks and virtual machines for release tests.

use openshell::xtask::cli::{
    exit_code, run, run_task, CliArgument, RunCommand, TaskProcess, XtaskCommand,
};
use openshell::xtask::lima::{
    can_restore, checked, command_for, display_exit_code, find_status, instance_name, is_needed,
    lists, parse_instance_status, prepare_instance, start_new_instance, Backend, LimaProvider, VmStep,
};
use openshell::xtask::release_smoke_test::{
    compute_driver_setup_script, conclude, infer_deb_arch, parse_arch, parse_guest_os,
    release_smoke_guest_script, release_smoke_test, GuestScripts, ReleaseSmokeTestCommand,
    SmokeTestOutcome,
};
use openshell::xtask::vm::{Arch, ComputeDriver, GuestOs, ProvisionOptions, VmSpec};

fn words(values: &[&str]) -> Vec<CliArgument> {
    values.iter().map(|value| word(value)).collect()
}

fn word(value: &str) -> CliArgument {
    CliArgument::Text(value.to_string())
}

fn spec(distribution: &'static str, version: &'static str) -> VmSpec {
    VmSpec {
        guest_os: GuestOs::new(distribution, version),
        arch: Arch::Arm64,
        compute_driver: ComputeDriver::PodmanRootless,
    }
}

fn scripts() -> GuestScripts {
    GuestScripts {
        install_podman_rootless: "install podman".to_string(),
        ubuntu_podman_rootless: "echo 'Installing Ubuntu release artifact'\n\
            echo 'Creating a sandbox and verifying default-deny networking'\n"
            .to_string(),
    }
}

#[test]
fn names_the_vm_for_its_environment() {
    let spec = spec("ubuntu", "24.04");

    assert_eq!(
        instance_name(spec, Backend::Qemu, false, 7),
        "os-ubuntu2404-arm64-qemu-podman-rl"
    );
    assert!(
        instance_name(spec, Backend::Qemu, true, 7)
            .starts_with("os-ubuntu2404-arm64-qemu-podman-rl-")
    );
}

#[test]
fn leaves_room_for_lima_socket_paths() {
    // Lima appends a PID and temporary socket suffix beneath ~/.lima. Keep
    // the stable portion bounded so common macOS home paths remain below
    // UNIX_PATH_MAX even with a ten-digit PID.
    assert!(instance_name(spec("ubuntu", "26.04"), Backend::Default, false, 7).len() <= 40);
}

#[test]
fn parses_matching_instance_status() {
    let output = b"other\tStopped\nos-ubuntu2404-arm64-qemu-podman-rl\tRunning\n".to_vec();
    assert_eq!(
        parse_instance_status(&output, "os-ubuntu2404-arm64-qemu-podman-rl"),
        Some("Running".to_owned())
    );
    assert_eq!(parse_instance_status(&output, "missing"), None);
}

#[test]
fn parses_legacy_options_and_task_arguments() {
    let command = RunCommand::parse(&words(&[
        "run",
        "--no-deps",
        "--skip-deps",
        "e2e:rust",
        "--",
        "--nocapture",
    ]))
    .expect("command should parse");

    assert_eq!(command.mise_options, words(&["--no-deps", "--skip-deps"]));
    assert_eq!(command.task, word("e2e:rust"));
    assert_eq!(command.task_args, words(&["--nocapture"]));
}

#[test]
fn parses_release_smoke_test_options() {
    let command = ReleaseSmokeTestCommand::parse(&words(&[
        "--deb",
        "artifacts/openshell_1.2.3_arm64.deb",
        "--arch",
        "arm64",
        "--keep-vm",
        "--rebuild-vm",
        "--snapshot",
        "--guest-os",
        "ubuntu-26.04",
    ]))
    .expect("command should parse");

    assert_eq!(command.deb, word("artifacts/openshell_1.2.3_arm64.deb"));
    assert_eq!(command.arch, Some(Arch::Arm64));
    assert!(command.keep_vm);
    assert!(command.rebuild_vm);
    assert!(command.snapshot);
    assert_eq!(command.guest_os, GuestOs::new("ubuntu", "26.04"));
}

#[test]
fn release_smoke_test_requires_deb() {
    let error = ReleaseSmokeTestCommand::parse(&vec![])
        .err()
        .expect("missing --deb should fail");

    assert!(error.contains("requires --deb"));
}

#[test]
fn release_smoke_test_defaults_to_latest_ubuntu() {
    let command =
        ReleaseSmokeTestCommand::parse(&words(&["--deb", "artifacts/openshell_1.2.3_arm64.deb"]))
            .expect("command should parse");

    assert_eq!(command.guest_os, GuestOs::new("ubuntu", "26.04"));
}

#[test]
fn infers_debian_architecture_from_artifact_name() {
    assert_eq!(
        infer_deb_arch("openshell_1.2.3_arm64.deb", "x86_64"),
        Arch::Arm64
    );
    assert_eq!(
        infer_deb_arch("openshell_1.2.3_amd64.deb", "aarch64"),
        Arch::Amd64
    );
    assert_eq!(infer_deb_arch("dir_arm64.deb/openshell.deb", "x86_64"), Arch::Amd64);
    assert_eq!(infer_deb_arch("openshell.deb", "aarch64"), Arch::Arm64);
}

#[test]
fn selects_the_release_smoke_script_by_os_and_driver() {
    let script = release_smoke_guest_script(spec("ubuntu", "26.04"), &scripts())
        .expect("ubuntu podman rootless smoke test should be supported");

    assert!(script.contains("Creating a sandbox and verifying default-deny networking"));
    assert!(script.contains("Installing Ubuntu release artifact"));
    assert!(script.contains("export OPENSHELL_RELEASE_ARTIFACT=/tmp/openshell-release.deb"));
}

#[test]
fn rejects_unsupported_release_smoke_combinations() {
    let error = release_smoke_guest_script(spec("fedora", "42"), &scripts())
        .expect_err("fedora release smoke test should not be supported yet");

    assert!(error.contains("fedora-42 with rootless Podman"));
}

#[test]
fn commands_are_told_apart() {
    assert!(matches!(
        run(&words(&["release-smoke-test", "--deb", "x.deb"])),
        Ok(XtaskCommand::ReleaseSmokeTest(rest)) if rest == words(&["--deb", "x.deb"])
    ));
    let Ok(XtaskCommand::Run(command)) = run(&words(&["run", "test"])) else {
        panic!("a task is run");
    };
    let TaskProcess::Mise(args) = run_task(&command) else {
        panic!("the task runner runs the task");
    };
    assert_eq!(args.last(), Some(&word("test")));
    assert!(run(&vec![]).is_err());
}

#[test]
fn exit_codes_are_bytes() {
    assert_eq!(exit_code(Some(0)), 0);
    assert_eq!(exit_code(Some(255)), 255);
    assert_eq!(exit_code(Some(256)), 1);
    assert_eq!(exit_code(Some(-1)), 1);
    assert_eq!(exit_code(None), 1);
    assert_eq!(display_exit_code(Some(3)), "3");
    assert_eq!(display_exit_code(None), "signal");
    assert_eq!(checked(Some(0), "x"), Ok(()));
    assert_eq!(checked(Some(2), "x"), Err("x failed with exit code 2".to_string()));
}

#[test]
fn arguments_that_are_no_text_are_kept() {
    let raw = CliArgument::Raw(vec![0x66, 0xff]);
    assert_eq!(raw.copy(), raw);
    assert_eq!(raw.display(), "f\u{fffd}");
    assert!(!raw.is("f"));
    assert!(parse_arch(&raw).is_err());
    assert!(parse_guest_os(&word("plan9")).is_err());
}

#[test]
fn machines_are_prepared_step_by_step() {
    let running = Some("Running".to_string());
    assert!(can_restore(true, false, &running));
    assert!(!can_restore(false, false, &running));
    let restored = prepare_instance(true, false, &running, true);
    assert!(restored.contains(&VmStep::RestoreSnapshot));
    assert!(!restored.contains(&VmStep::Create));
    let fresh = prepare_instance(true, true, &running, true);
    assert!(fresh.contains(&VmStep::DeleteStale));
    assert!(fresh.contains(&VmStep::Create));
    assert!(fresh.contains(&VmStep::CreateSnapshot));
}

#[test]
fn machines_are_planned_with_what_is_there() {
    let options = ProvisionOptions { snapshot: true, rebuild: false };
    let plan = LimaProvider::provision(spec("ubuntu", "26.04"), options, true, 7);
    assert_eq!(plan.backend, Backend::Qemu);
    assert!(plan.vm.reusable);
    assert_eq!(plan.vm.guest_path("/tmp/x"), format!("{}:/tmp/x", plan.vm.name()));
    let plan = LimaProvider::provision(spec("ubuntu", "26.04"), options, false, 7);
    assert_eq!(plan.backend, Backend::Default);
    assert!(plan.without_snapshots);
}

#[test]
fn lima_is_asked_with_arguments() {
    let (args, _) = command_for(VmStep::Delete, "vm").unwrap();
    assert!(args.contains(&"vm".to_string()));
    let args = start_new_instance("vm", spec("ubuntu", "26.04"), Backend::Qemu);
    assert!(args.iter().any(|arg| arg.contains("qemu")));
    assert_eq!(find_status("a\tStopped\n", "a"), Some("Stopped".to_string()));
    assert!(lists("x\n base-v1 \n", "base-v1"));
    assert!(!lists("x base-v2\n", "base-v1"));
}

#[test]
fn a_smoke_test_ends_as_the_test_did() {
    let outcome = |status: i32| Ok(SmokeTestOutcome { status: Some(status), warning: None });
    assert_eq!(conclude(Ok(Some(0)), Some(Ok(()))), outcome(0));
    assert_eq!(conclude(Ok(Some(3)), None), outcome(3));
    assert_eq!(
        conclude(Ok(Some(0)), Some(Err("busy".to_string()))),
        Err("busy".to_string())
    );
    assert_eq!(
        conclude(Ok(Some(3)), Some(Err("busy".to_string()))),
        Ok(SmokeTestOutcome { status: Some(3), warning: Some("busy".to_string()) })
    );
    assert_eq!(
        conclude(Err("down".to_string()), Some(Ok(()))),
        Err("down".to_string())
    );
    let command = ReleaseSmokeTestCommand::parse(&words(&["--deb", "a_amd64.deb"])).unwrap();
    let (spec, options) = release_smoke_test(&command, "a_amd64.deb", "aarch64");
    assert_eq!(spec.arch, Arch::Amd64);
    assert_eq!(options, ProvisionOptions { snapshot: false, rebuild: false });
    assert_eq!(
        compute_driver_setup_script(ComputeDriver::PodmanRootless, &scripts()),
        "install podman"
    );
}

#[test]
fn only_running_machines_are_stopped() {
    assert!(is_needed(VmStep::Stop, &Some("Running".to_string())));
    assert!(!is_needed(VmStep::Stop, &Some("Stopped".to_string())));
    assert!(!is_needed(VmStep::Stop, &None));
    assert!(is_needed(VmStep::Create, &None));
}
