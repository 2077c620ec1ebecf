//! What command lines ask for, and how the machine of the release smoke test is prepared.

use crate::paths::last_segment;
use crate::text;
use crate::xtask::cli::{
    is_option, option_count, process_of, run_command, says, word, xtask_command, ArgumentView, ProcessView,
    RunView, XtaskView,
};
use crate::xtask::lima::{
    arch_name, backend_name, creation_args, exit_text, has_line, is_restorable, name_of,
    preparation, status_in, step_command, Backend, VmStep,
};
use crate::xtask::release_smoke_test::{
    after_argument, arch_of, concluded, deb_arch, guest_of, guest_script, no_options, read_options,
    smoke_test_command, OptionsView,
};
use crate::xtask::vm::{Arch, VmView};
use vstd::prelude::*;

verus! {

// ---------------------------------------------------------------------------
// Tasks
// ---------------------------------------------------------------------------

/// The words that are options stand before a task, and no others do.
pub proof fn law_options(argument: ArgumentView)
    ensures
        is_option(argument) <==> argument == ArgumentView::Text("--no-deps"@) || argument
            == ArgumentView::Text("--skip-deps"@),
{
}

/// A command line begins with `run` or with the name of the smoke test, and anything else is
/// refused.
pub proof fn law_commands(args: Seq<ArgumentView>)
    ensures
        args.len() == 0 ==> xtask_command(args) is Err,
        args.len() > 0 && args[0] == ArgumentView::Text("release-smoke-test"@) ==> xtask_command(
            args,
        ) == Ok::<XtaskView, Seq<char>>(XtaskView::ReleaseSmokeTest(args.skip(1))),
        xtask_command(args) is Ok ==> args.len() > 0 && (args[0] == ArgumentView::Text(
            "release-smoke-test"@,
        ) || args[0] == ArgumentView::Text("run"@)),
        xtask_command(args) matches Ok(XtaskView::Run(command)) ==> !says(command.task, "--"@)
            && args.contains(command.task),
{
    if let Ok(XtaskView::Run(command)) = xtask_command(args) {
        let n = option_count(args.skip(1)) as int;
        lemma_options_are_arguments(args.skip(1));
        assert(args.skip(1 + n)[0] == args[1 + n]);
    }
}

proof fn lemma_options_are_arguments(args: Seq<ArgumentView>)
    ensures
        option_count(args) <= args.len(),
    decreases args.len(),
{
    if args.len() > 0 {
        lemma_options_are_arguments(args.skip(1));
    }
}

/// A task without a separator behind it gets all arguments that follow it.
pub proof fn law_arguments_without_separator(
    task: ArgumentView,
    task_args: Seq<ArgumentView>,
)
    requires
        !is_option(task),
        !says(task, "--"@),
        task_args.len() > 0 ==> !says(task_args[0], "--"@),
    ensures
        run_command(seq![word("run"@), task] + task_args) == Ok::<RunView, Seq<char>>(
            RunView { mise_options: Seq::empty(), task, task_args },
        ),
{
    let args = seq![word("run"@), task] + task_args;
    assert(args.skip(1)[0] == task);
    assert(option_count(args.skip(1)) == 0);
    assert(args.subrange(1, 1) =~= Seq::empty());
    let rest = args.skip(1);
    assert(rest.skip(1) =~= task_args);
    if task_args.len() > 0 {
        assert(rest[1] == task_args[0]);
    }
}

/// The check of the format is made by the workspace's own formatter, which changes nothing,
/// and every other task is left to the task runner with its options and arguments.
pub proof fn law_processes(command: RunView)
    ensures
        command.task == ArgumentView::Text("rust:format:check"@) ==> process_of(command)
            == ProcessView::CargoFormat(
            seq![
                ArgumentView::Text("fmt"@),
                ArgumentView::Text("--all"@),
                ArgumentView::Text("--"@),
                ArgumentView::Text("--check"@),
            ] + command.task_args,
        ),
        command.task != ArgumentView::Text("rust:format:check"@) ==> match process_of(command) {
            ProcessView::Mise(args) => {
                let n = command.mise_options.len() as int;
                &&& args[0] == ArgumentView::Text("run"@)
                &&& args.subrange(1, 1 + n) == command.mise_options
                &&& args[1 + n] == command.task
                &&& command.task_args.len() == 0 ==> args.len() == n + 2
                &&& command.task_args.len() > 0 ==> args[n + 2] == ArgumentView::Text("--"@)
                    && args.skip(n + 3) == command.task_args
            },
            ProcessView::CargoFormat(_) => false,
        },
{
    if let ProcessView::Mise(args) = process_of(command) {
        let n = command.mise_options.len() as int;
        assert(args.subrange(1, 1 + n) =~= command.mise_options);
        if command.task_args.len() > 0 {
            assert(args.skip(n + 3) =~= command.task_args);
        }
    }
}

// ---------------------------------------------------------------------------
// Options of the smoke test
// ---------------------------------------------------------------------------

/// An architecture goes by two names, and only four names are known.
pub proof fn law_architectures(name: Seq<char>)
    ensures
        arch_of(ArgumentView::Text(name)) == Ok::<Arch, Seq<char>>(Arch::Amd64) <==> name
            == "amd64"@ || name == "x86_64"@,
        arch_of(ArgumentView::Text(name)) == Ok::<Arch, Seq<char>>(Arch::Arm64) <==> name
            == "arm64"@ || name == "aarch64"@,
        arch_of(ArgumentView::Text(name)) is Err <==> name != "amd64"@ && name != "x86_64"@ && name
            != "arm64"@ && name != "aarch64"@,
{
    reveal_strlit("amd64");
    reveal_strlit("x86_64");
    reveal_strlit("arm64");
    reveal_strlit("aarch64");
    assert("amd64"@.len() == 5 && "amd64"@[1] == 'm');
    assert("arm64"@.len() == 5 && "arm64"@[1] == 'r');
    assert("x86_64"@.len() == 6);
    assert("aarch64"@.len() == 7);
}

/// Two releases of one distribution are known.
pub proof fn law_guests(name: Seq<char>)
    ensures
        guest_of(ArgumentView::Text(name)) is Ok <==> name == "ubuntu-24.04"@ || name
            == "ubuntu-26.04"@,
        guest_of(ArgumentView::Text(name)) matches Ok(guest) ==> guest.distribution == "ubuntu"@
            && name == guest.distribution + "-"@ + guest.version,
{
    reveal_strlit("ubuntu-24.04");
    reveal_strlit("ubuntu-26.04");
    reveal_strlit("ubuntu");
    reveal_strlit("-");
    reveal_strlit("24.04");
    reveal_strlit("26.04");
    assert("ubuntu"@ + "-"@ + "24.04"@ =~= "ubuntu-24.04"@);
    assert("ubuntu"@ + "-"@ + "26.04"@ =~= "ubuntu-26.04"@);
}

/// Each option sets what it is named after and nothing else. Options with a value are given
/// once at most, and unknown ones are refused.
pub proof fn law_single_options(args: Seq<ArgumentView>, i: int, options: OptionsView)
    requires
        0 <= i < args.len(),
    ensures
        args[i] == ArgumentView::Text("--keep-vm"@) ==> after_argument(args, i, options) == Ok::<
            (OptionsView, int),
            Seq<char>,
        >((OptionsView { keep_vm: true, ..options }, i + 1)),
        args[i] == ArgumentView::Text("--rebuild-vm"@) ==> after_argument(args, i, options) == Ok::<
            (OptionsView, int),
            Seq<char>,
        >((OptionsView { rebuild_vm: true, ..options }, i + 1)),
        args[i] == ArgumentView::Text("--snapshot"@) ==> after_argument(args, i, options) == Ok::<
            (OptionsView, int),
            Seq<char>,
        >((OptionsView { snapshot: true, ..options }, i + 1)),
        args[i] == ArgumentView::Text("--deb"@) ==> (after_argument(args, i, options) is Ok
            <==> i + 1 < args.len() && options.deb is None),
        args[i] == ArgumentView::Text("--deb"@) ==> (after_argument(args, i, options) matches Ok(
            next,
        ) ==> next == (OptionsView { deb: Some(args[i + 1]), ..options }, i + 2)),
        args[i] == ArgumentView::Text("--arch"@) ==> (after_argument(args, i, options) matches Ok(
            next,
        ) ==> options.arch is None && arch_of(args[i + 1]) is Ok && next == (
            OptionsView { arch: Some(arch_of(args[i + 1])->Ok_0), ..options },
            i + 2,
        )),
        args[i] == ArgumentView::Text("--guest-os"@) ==> (after_argument(args, i, options)
            matches Ok(next) ==> options.guest_os is None && guest_of(args[i + 1]) is Ok && next
            == (OptionsView { guest_os: Some(guest_of(args[i + 1])->Ok_0), ..options }, i + 2)),
        after_argument(args, i, options) is Ok ==> args[i] == ArgumentView::Text("--keep-vm"@)
            || args[i] == ArgumentView::Text("--rebuild-vm"@) || args[i] == ArgumentView::Text(
            "--snapshot"@,
        ) || args[i] == ArgumentView::Text("--deb"@) || args[i] == ArgumentView::Text("--arch"@)
            || args[i] == ArgumentView::Text("--guest-os"@),
{
    reveal_strlit("--keep-vm");
    reveal_strlit("--rebuild-vm");
    reveal_strlit("--snapshot");
    reveal_strlit("--deb");
    reveal_strlit("--arch");
    reveal_strlit("--guest-os");
    assert("--keep-vm"@.len() == 9);
    assert("--rebuild-vm"@.len() == 12);
    assert("--snapshot"@.len() == 10 && "--snapshot"@[2] == 's');
    assert("--deb"@.len() == 5);
    assert("--arch"@.len() == 6);
    assert("--guest-os"@.len() == 10 && "--guest-os"@[2] == 'g');
}

/// A smoke test needs a package. Without other options it keeps no machine, takes no
/// snapshot, and runs on the newest known release.
pub proof fn law_smoke_tests(args: Seq<ArgumentView>)
    ensures
        smoke_test_command(args) matches Ok(command) ==> (read_options(
            args,
            0,
            no_options(),
        ) matches Ok(options) && options.deb == Some(command.deb) && command.arch == options.arch
            && command.keep_vm == options.keep_vm && command.rebuild_vm == options.rebuild_vm
            && command.snapshot == options.snapshot),
        args.len() == 2 && args[0] == ArgumentView::Text("--deb"@) ==> (smoke_test_command(args)
            matches Ok(command) && command.deb == args[1] && command.arch is None
            && !command.keep_vm && !command.rebuild_vm && !command.snapshot
            && command.guest_os.distribution == "ubuntu"@ && command.guest_os.version
            == "26.04"@),
        smoke_test_command(Seq::empty()) is Err,
{
    if args.len() == 2 && args[0] == ArgumentView::Text("--deb"@) {
        reveal_with_fuel(read_options, 3);
        law_single_options(args, 0, no_options());
    }
}

// ---------------------------------------------------------------------------
// Machines
// ---------------------------------------------------------------------------

/// The name of a package tells its architecture. Where it tells none, the host's counts.
pub proof fn law_package_architectures(name: Seq<char>, host_arch: Seq<char>)
    requires
        !name.contains('/'),
        name.len() > 2,
    ensures
        text::ends_with(name, "_arm64.deb"@) || text::ends_with(name, "-arm64.deb"@) ==> deb_arch(
            name,
            host_arch,
        ) == Arch::Arm64,
        text::ends_with(name, "_amd64.deb"@) || text::ends_with(name, "-amd64.deb"@) ==> deb_arch(
            name,
            host_arch,
        ) == Arch::Amd64,
        !text::ends_with(name, "_arm64.deb"@) && !text::ends_with(name, "-arm64.deb"@)
            && !text::ends_with(name, "_amd64.deb"@) && !text::ends_with(name, "-amd64.deb"@) ==> (
        deb_arch(name, host_arch) == Arch::Arm64 <==> host_arch == "aarch64"@),
{
    reveal_strlit(".");
    reveal_strlit("..");
    text::laws::law_one_part(name, '/');
    assert(seq![name].last() == name);
    assert(last_segment(name) == Some(name));
    reveal_strlit("_arm64.deb");
    reveal_strlit("-arm64.deb");
    reveal_strlit("_amd64.deb");
    reveal_strlit("-amd64.deb");
    assert("_arm64.deb"@.len() == 10 && "-arm64.deb"@.len() == 10);
    assert("_amd64.deb"@.len() == 10 && "-amd64.deb"@.len() == 10);
    if name.len() >= 10 {
        let tail = name.skip(name.len() - 10);
        assert("_arm64.deb"@[2] == 'r' && "-arm64.deb"@[2] == 'r');
        assert("_amd64.deb"@[2] == 'm' && "-amd64.deb"@[2] == 'm');
        assert(tail[2] == tail[2]);
    }
}

/// Only a machine of a known state is restored, where snapshots are used, one was taken, and
/// no rebuild is asked for. Any other machine is deleted and made anew.
pub proof fn law_preparations(
    use_snapshot: bool,
    rebuild: bool,
    status: Option<Seq<char>>,
    has_snapshot: bool,
)
    ensures
        is_restorable(use_snapshot, rebuild, status) <==> use_snapshot && !rebuild && (status
            == Some("Running"@) || status == Some("Stopped"@)),
        ({
            let steps = preparation(use_snapshot, rebuild, status, has_snapshot);
            let restored = is_restorable(use_snapshot, rebuild, status) && has_snapshot;
            &&& restored ==> steps == seq![VmStep::Stop, VmStep::RestoreSnapshot, VmStep::Start]
            &&& !restored && status is Some ==> steps[0] == VmStep::DeleteStale && steps[1]
                == VmStep::Create && steps[2] == VmStep::Setup
            &&& !restored && status is None ==> steps[0] == VmStep::Create && steps[1]
                == VmStep::Setup
            &&& !restored && use_snapshot ==> steps[steps.len() - 3] == VmStep::Stop && steps[
                steps.len() - 2] == VmStep::CreateSnapshot && steps[steps.len() - 1]
                == VmStep::Start
            &&& !restored ==> steps.len() == 2 + (if status is Some {
                1int
            } else {
                0int
            }) + (if use_snapshot {
                3int
            } else {
                0int
            })
        }),
{
}

/// Every step is a command on the machine itself.
pub proof fn law_step_commands(step: VmStep, instance: Seq<char>)
    ensures
        step_command(step, instance) is None <==> step == VmStep::Create || step == VmStep::Setup,
        step_command(step, instance) matches Some(command) ==> command.0.contains(instance)
            && command.0[0] == "--tty=false"@ && command.0[1] == (match step {
            VmStep::Stop => "stop"@,
            VmStep::Start => "start"@,
            VmStep::RestoreSnapshot => "snapshot"@,
            VmStep::CreateSnapshot => "snapshot"@,
            _ => "delete"@,
        }),
        step == VmStep::RestoreSnapshot ==> (step_command(step, instance) matches Some(command)
            && command.0 == seq![
            "--tty=false"@,
            "snapshot"@,
            "apply"@,
            instance,
            "--tag"@,
            "base-v1"@,
        ]),
        step == VmStep::CreateSnapshot ==> (step_command(step, instance) matches Some(command)
            && command.0 == seq![
            "--tty=false"@,
            "snapshot"@,
            "create"@,
            instance,
            "--tag"@,
            "base-v1"@,
        ]),
{
    if let Some((args, _)) = step_command(step, instance) {
        assert(args[2] == instance || args[3] == instance);
    }
}

/// A machine is created under its name, for its architecture, from the template of its
/// release.
pub proof fn law_created_machines(instance: Seq<char>, spec: VmView, backend: Backend)
    ensures
        ({
            let args = creation_args(instance, spec, backend);
            &&& args[1] == "start"@
            &&& args[3] == "--name"@ && args[4] == instance
            &&& args[5] == "--arch"@ && args[6] == (if spec.arch == Arch::Amd64 {
                "x86_64"@
            } else {
                "aarch64"@
            })
            &&& args[args.len() - 1] == "template:"@ + spec.guest_os.distribution + "-"@
                + spec.guest_os.version
            &&& backend == Backend::Qemu ==> args.len() == 16 && args[13] == "--vm-type"@
                && args[14] == "qemu"@
            &&& backend == Backend::Default ==> args.len() == 14
        }),
{
}

/// The name of a machine that is not kept ends with the process that uses it, behind the name
/// that a kept one has.
pub proof fn law_machine_names(spec: VmView, backend: Backend, pid: u32, other: u32)
    ensures
        name_of(spec, backend, true, pid) == name_of(spec, backend, false, other) + "-"@
            + text::decimal(pid as nat),
        name_of(spec, backend, false, pid) == name_of(spec, backend, false, other),
        arch_name(Arch::Amd64) == "amd64"@,
        arch_name(Arch::Arm64) == "arm64"@,
        backend_name(Backend::Default) == "def"@,
        backend_name(Backend::Qemu) == "qemu"@,
{
}

/// The status of a machine is what its own line says, the first one if there are several.
pub proof fn law_statuses(
    lines: Seq<Seq<char>>,
    instance: Seq<char>,
    status: Seq<char>,
    other: Seq<char>,
    line: Seq<char>,
)
    requires
        !instance.contains('\t'),
        !other.contains('\t'),
        other != instance,
    ensures
        status_in(seq![instance.push('\t') + status] + lines, instance) == Some(status),
        status_in(seq![other.push('\t') + status] + lines, instance) == status_in(lines, instance),
        !line.contains('\t') ==> status_in(seq![line] + lines, instance) == status_in(
            lines,
            instance,
        ),
        status_in(Seq::empty(), instance) is None,
{
    text::laws::law_cut(instance, '\t', status);
    text::laws::law_cut(other, '\t', status);
    text::laws::law_split_once(line, '\t');
    let own = instance.push('\t') + status;
    let foreign = other.push('\t') + status;
    assert((seq![own] + lines)[0] == own);
    assert((seq![foreign] + lines)[0] == foreign);
    assert((seq![foreign] + lines).skip(1) =~= lines);
    assert((seq![line] + lines)[0] == line);
    assert((seq![line] + lines).skip(1) =~= lines);
}

/// A word is listed where it stands alone in a line, up to the space around it.
pub proof fn law_listed_words(lines: Seq<Seq<char>>, line: Seq<char>, word: Seq<char>)
    ensures
        has_line(lines.push(line), word) <==> has_line(lines, word) || text::trimmed(line) == word,
        !has_line(Seq::empty(), word),
{
    let more = lines.push(line);
    if has_line(lines, word) {
        let i = choose|i: int| 0 <= i < lines.len() && text::trimmed(#[trigger] lines[i]) == word;
        assert(more[i] == lines[i]);
    }
    if text::trimmed(line) == word {
        assert(more[lines.len() as int] == line);
    }
    if has_line(more, word) {
        let i = choose|i: int| 0 <= i < more.len() && text::trimmed(#[trigger] more[i]) == word;
        if i < lines.len() {
            assert(lines[i] == more[i]);
        }
    }
}

/// The end of a process is shown by its code, and by a word where a signal ended it.
pub proof fn law_shown_ends(code: i32)
    ensures
        exit_text(None) == "signal"@,
        code >= 0 ==> exit_text(Some(code)) == text::decimal(code as nat),
        code < 0 ==> exit_text(Some(code)) == seq!['-'] + text::decimal((-code) as nat),
{
}

/// The script of a machine is that of its distribution, with the place of the package in
/// front.
pub proof fn law_guest_scripts(spec: VmView, script: Seq<char>)
    ensures
        guest_script(spec, script) is Ok <==> spec.guest_os.distribution == "ubuntu"@,
        guest_script(spec, script) matches Ok(whole) ==> whole
            == "export OPENSHELL_RELEASE_ARTIFACT="@ + "/tmp/openshell-release.deb"@ + "\n"@
            + script,
{
}

/// A cleanup that failed is the outcome of a test that passed, and is a warning beside one
/// that failed.
pub proof fn law_outcomes(status: Option<i32>, problem: Seq<char>, cleaned: Option<Result<(), Seq<char>>>)
    requires
        !(cleaned matches Some(Err(_))),
    ensures
        concluded(Err(problem), cleaned) is Err,
        status == Some(0i32) ==> (concluded(Ok(status), Some(Err(problem))) matches Err(told)
            && told == problem),
        status != Some(0i32) ==> (concluded(Ok(status), Some(Err(problem))) matches Ok(outcome)
            && outcome.status == status && outcome.warning == Some(problem)),
        concluded(Ok(status), cleaned) matches Ok(outcome) && outcome.status == status
            && outcome.warning is None,
{
}

} // verus!
