//! Virtual machines of Lima: their names, what they need, and the commands for
//! that.

use crate::digest::{lossy_decoded, utf8_lossy};
use crate::outcome::shown;
use crate::text;
use crate::text::{cat2, cat3, cat4, cat7};
use crate::xtask::vm::{Arch, ComputeDriver, ProvisionOptions, VmSpec, VmView};
use vstd::prelude::*;

verus! {

/// The snapshot that prepared machines are restored from.
pub const BASE_SNAPSHOT: &'static str = "base-v1";

/// What runs a machine.
#[derive(Debug, Clone, Copy, PartialEq, Eq, Structural)]
pub enum Backend {
    Default,
    Qemu,
}

impl Backend {
    /// How names of machines say it.
    pub fn name(self) -> (r: &'static str)
        ensures
            r@ == backend_name(self),
    {
        match self {
            Backend::Default => "def",
            Backend::Qemu => "qemu",
        }
    }

    /// How Lima is told, where it has to be told.
    pub fn lima(self) -> (r: Option<&'static str>)
        ensures
            r.deep_view() == lima_name(self),
    {
        match self {
            Backend::Default => None,
            Backend::Qemu => Some("qemu"),
        }
    }
}

/// How names of machines say what runs them.
pub open spec fn backend_name(backend: Backend) -> Seq<char> {
    match backend {
        Backend::Default => "def"@,
        Backend::Qemu => "qemu"@,
    }
}

/// How Lima is told what runs a machine.
pub open spec fn lima_name(backend: Backend) -> Option<Seq<char>> {
    match backend {
        Backend::Default => None,
        Backend::Qemu => Some("qemu"@),
    }
}

/// How names of machines say an architecture.
pub open spec fn arch_name(arch: Arch) -> Seq<char> {
    match arch {
        Arch::Amd64 => "amd64"@,
        Arch::Arm64 => "arm64"@,
    }
}

/// The name of a machine for its environment. The name of one that is not kept
/// ends with the process that uses it.
pub open spec fn name_of(spec: VmView, backend: Backend, ephemeral: bool, pid: u32) -> Seq<char> {
    let guest = spec.guest_os.distribution + text::replaced(
        spec.guest_os.version,
        '.',
        Seq::empty(),
    );
    let base = "os-"@ + guest + "-"@ + arch_name(spec.arch) + "-"@ + backend_name(backend) + "-"@
        + "podman-rl"@;
    if ephemeral {
        base + "-"@ + text::decimal(pid as nat)
    } else {
        base
    }
}

/// The name of a machine for its environment. `pid` is the process that uses it.
pub fn instance_name(spec: VmSpec, backend: Backend, ephemeral: bool, pid: u32) -> (r: String)
    ensures
        r@ == name_of(spec.deep_view(), backend, ephemeral, pid),
{
    let arch = match spec.arch {
        Arch::Amd64 => "amd64",
        Arch::Arm64 => "arm64",
    };
    let compute_driver = match spec.compute_driver {
        ComputeDriver::PodmanRootless => "podman-rl",
    };
    let empty = String::new();
    proof {
        assert(empty@ =~= Seq::empty());
    }
    let version = text::replace_char(spec.guest_os.version, '.', empty.as_str());
    let guest = cat2(spec.guest_os.distribution, version.as_str());
    let start = cat2("os-", guest.as_str());
    let base = cat7(start.as_str(), "-", arch, "-", backend.name(), "-", compute_driver);
    if ephemeral {
        let number = text::decimal_of(pid as u64);
        cat3(base.as_str(), "-", number.as_str())
    } else {
        base
    }
}

/// The stable part of a machine's name is short: the names of Lima's sockets hold
/// it, and cannot be long.
pub proof fn law_names_are_short(spec: VmView, backend: Backend, pid: u32)
    requires
        spec.guest_os.distribution.len() + spec.guest_os.version.len() <= 16,
    ensures
        name_of(spec, backend, false, pid).len() <= 40,
{
    reveal_strlit("os-");
    reveal_strlit("-");
    reveal_strlit("amd64");
    reveal_strlit("arm64");
    reveal_strlit("def");
    reveal_strlit("qemu");
    reveal_strlit("podman-rl");
    lemma_removed_is_shorter(spec.guest_os.version, '.');
}

proof fn lemma_removed_is_shorter(s: Seq<char>, c: char)
    ensures
        text::replaced(s, c, Seq::empty()).len() <= s.len(),
    decreases s.len(),
{
    if s.len() > 0 {
        lemma_removed_is_shorter(s.drop_last(), c);
    }
}

// ---------------------------------------------------------------------------
// Providing a machine
// ---------------------------------------------------------------------------

/// Lima's virtual machines.
pub struct LimaProvider;

/// A virtual machine of Lima.
#[derive(Debug, Clone, PartialEq, Eq)]
pub struct LimaVm {
    pub name: String,
    pub reusable: bool,
}

/// How a machine is provided.
#[derive(Debug, Clone, PartialEq, Eq)]
pub struct ProvisionPlan {
    pub vm: LimaVm,
    pub backend: Backend,
    /// Snapshots were asked for, and cannot be had.
    pub without_snapshots: bool,
}

impl LimaProvider {
    /// How a machine is provided. `qemu_available` tells whether what snapshots need
    /// is there; it is not asked where no snapshots are asked for.
    pub fn provision(
        spec: VmSpec,
        options: ProvisionOptions,
        qemu_available: bool,
        pid: u32,
    ) -> (r: ProvisionPlan)
        ensures
            r.vm.reusable == (options.snapshot && qemu_available),
            r.without_snapshots == (options.snapshot && !qemu_available),
            r.backend == (if options.snapshot && qemu_available {
                Backend::Qemu
            } else {
                Backend::Default
            }),
            r.vm.name@ == name_of(spec.deep_view(), r.backend, !r.vm.reusable, pid),
    {
        let reusable = options.snapshot && qemu_available;
        let backend = if reusable {
            Backend::Qemu
        } else {
            Backend::Default
        };
        let name = instance_name(spec, backend, !reusable, pid);
        ProvisionPlan {
            vm: LimaVm { name, reusable },
            backend,
            without_snapshots: options.snapshot && !qemu_available,
        }
    }
}

/// A step of preparing or cleaning up a machine.
#[derive(Debug, Clone, Copy, PartialEq, Eq, Structural)]
pub enum VmStep {
    /// Stop the machine, if it runs.
    Stop,
    /// Restore the snapshot.
    RestoreSnapshot,
    /// Delete a machine that is not as it should be.
    DeleteStale,
    /// Create the machine.
    Create,
    /// Run the setup script on it.
    Setup,
    /// Take the snapshot.
    CreateSnapshot,
    /// Start the prepared machine.
    Start,
    /// Delete the machine.
    Delete,
}

impl DeepView for VmStep {
    type V = VmStep;

    open spec fn deep_view(&self) -> VmStep {
        *self
    }
}

/// A machine can be restored from a snapshot, where it has one.
pub open spec fn is_restorable(use_snapshot: bool, rebuild: bool, status: Option<Seq<char>>) -> bool {
    use_snapshot && !rebuild && (status == Some("Running"@) || status == Some("Stopped"@))
}

/// The steps that prepare a machine.
pub open spec fn preparation(
    use_snapshot: bool,
    rebuild: bool,
    status: Option<Seq<char>>,
    has_snapshot: bool,
) -> Seq<VmStep> {
    if is_restorable(use_snapshot, rebuild, status) && has_snapshot {
        seq![VmStep::Stop, VmStep::RestoreSnapshot, VmStep::Start]
    } else {
        (if status is Some {
            seq![VmStep::DeleteStale]
        } else {
            Seq::empty()
        }) + seq![VmStep::Create, VmStep::Setup] + (if use_snapshot {
            seq![VmStep::Stop, VmStep::CreateSnapshot, VmStep::Start]
        } else {
            Seq::empty()
        })
    }
}

/// Tells whether a machine's snapshots have to be listed to know how it is
/// prepared.
pub fn can_restore(use_snapshot: bool, rebuild: bool, status: &Option<String>) -> (r: bool)
    ensures
        r == is_restorable(use_snapshot, rebuild, status.deep_view()),
{
    if !use_snapshot || rebuild {
        return false;
    }
    match status {
        Some(status) => text::same(status.as_str(), "Running") || text::same(
            status.as_str(),
            "Stopped",
        ),
        None => false,
    }
}

/// The steps that prepare a machine.
pub fn prepare_instance(
    use_snapshot: bool,
    rebuild: bool,
    status: &Option<String>,
    has_snapshot: bool,
) -> (r: Vec<VmStep>)
    ensures
        r.deep_view() == preparation(use_snapshot, rebuild, status.deep_view(), has_snapshot),
{
    let mut steps: Vec<VmStep> = Vec::new();
    if can_restore(use_snapshot, rebuild, status) && has_snapshot {
        steps.push(VmStep::Stop);
        steps.push(VmStep::RestoreSnapshot);
        steps.push(VmStep::Start);
    } else {
        if status.is_some() {
            steps.push(VmStep::DeleteStale);
        }
        steps.push(VmStep::Create);
        steps.push(VmStep::Setup);
        if use_snapshot {
            steps.push(VmStep::Stop);
            steps.push(VmStep::CreateSnapshot);
            steps.push(VmStep::Start);
        }
    }
    assert(steps.deep_view() =~= preparation(
        use_snapshot,
        rebuild,
        status.deep_view(),
        has_snapshot,
    ));
    steps
}

impl LimaVm {
    /// The name of the machine.
    pub fn name(&self) -> (r: &str)
        ensures
            r@ == self.name@,
    {
        self.name.as_str()
    }

    /// The step that cleans the machine up: one that can be used again is stopped.
    pub fn cleanup(&self) -> (r: VmStep)
        ensures
            r == (if self.reusable {
                VmStep::Stop
            } else {
                VmStep::Delete
            }),
    {
        if self.reusable {
            VmStep::Stop
        } else {
            VmStep::Delete
        }
    }

    /// A path on the machine, as Lima's copy command takes it.
    pub fn guest_path(&self, destination: &str) -> (r: String)
        ensures
            r@ == self.name@ + ":"@ + destination@,
    {
        cat3(self.name.as_str(), ":", destination)
    }
}

// ---------------------------------------------------------------------------
// Commands
// ---------------------------------------------------------------------------

/// The arguments that create a machine.
pub open spec fn creation_args(instance: Seq<char>, spec: VmView, backend: Backend) -> Seq<
    Seq<char>,
> {
    seq![
        "--tty=false"@,
        "start"@,
        "--plain"@,
        "--name"@,
        instance,
        "--arch"@,
        match spec.arch {
            Arch::Amd64 => "x86_64"@,
            Arch::Arm64 => "aarch64"@,
        },
        "--cpus"@,
        "4"@,
        "--memory"@,
        "8"@,
        "--disk"@,
        "30"@,
    ] + (match lima_name(backend) {
        Some(vm_type) => seq!["--vm-type"@, vm_type],
        None => Seq::empty(),
    }) + seq!["template:"@ + spec.guest_os.distribution + "-"@ + spec.guest_os.version]
}

/// The arguments of the command for a step, and what the step is called where it
/// fails. The setup runs through a shell of its own, and creating a machine takes
/// more than its name.
pub open spec fn step_command(step: VmStep, instance: Seq<char>) -> Option<
    (Seq<Seq<char>>, Seq<char>),
> {
    match step {
        VmStep::Stop => Some(
            (seq!["--tty=false"@, "stop"@, instance], "stop the Lima test instance"@),
        ),
        VmStep::RestoreSnapshot => Some(
            (
                seq![
                    "--tty=false"@,
                    "snapshot"@,
                    "apply"@,
                    instance,
                    "--tag"@,
                    BASE_SNAPSHOT@,
                ],
                "restore the Lima test snapshot"@,
            ),
        ),
        VmStep::DeleteStale => Some(
            (
                seq!["--tty=false"@, "delete"@, "--force"@, instance],
                "delete the stale Lima test instance"@,
            ),
        ),
        VmStep::CreateSnapshot => Some(
            (
                seq![
                    "--tty=false"@,
                    "snapshot"@,
                    "create"@,
                    instance,
                    "--tag"@,
                    BASE_SNAPSHOT@,
                ],
                "create the Lima test snapshot"@,
            ),
        ),
        VmStep::Start => Some(
            (
                seq!["--tty=false"@, "start"@, instance],
                "start the prepared Lima test instance"@,
            ),
        ),
        VmStep::Delete => Some(
            (
                seq!["--tty=false"@, "delete"@, "--force"@, instance],
                "delete the Lima test instance"@,
            ),
        ),
        VmStep::Create => None,
        VmStep::Setup => None,
    }
}

fn push_text(args: &mut Vec<String>, value: &str)
    ensures
        final(args).deep_view() == old(args).deep_view().push(value@),
{
    let ghost before = args.deep_view();
    args.push(value.to_owned());
    assert(args.deep_view() =~= before.push(value@));
}

fn three(a: &str, b: &str, c: &str) -> (r: Vec<String>)
    ensures
        r.deep_view() == seq![a@, b@, c@],
{
    let mut args: Vec<String> = Vec::new();
    args.push(a.to_owned());
    args.push(b.to_owned());
    args.push(c.to_owned());
    assert(args.deep_view() =~= seq![a@, b@, c@]);
    args
}

fn four(a: &str, b: &str, c: &str, d: &str) -> (r: Vec<String>)
    ensures
        r.deep_view() == seq![a@, b@, c@, d@],
{
    let mut args = three(a, b, c);
    push_text(&mut args, d);
    assert(args.deep_view() =~= seq![a@, b@, c@, d@]);
    args
}

fn snapshot_args(action: &str, instance: &str) -> (r: Vec<String>)
    ensures
        r.deep_view() == seq![
            "--tty=false"@,
            "snapshot"@,
            action@,
            instance@,
            "--tag"@,
            BASE_SNAPSHOT@,
        ],
{
    let mut args = four("--tty=false", "snapshot", action, instance);
    push_text(&mut args, "--tag");
    push_text(&mut args, BASE_SNAPSHOT);
    assert(args.deep_view() =~= seq![
        "--tty=false"@,
        "snapshot"@,
        action@,
        instance@,
        "--tag"@,
        BASE_SNAPSHOT@,
    ]);
    args
}

/// The arguments of the command for a step, and what the step is called where it
/// fails.
pub fn command_for(step: VmStep, instance: &str) -> (r: Option<(Vec<String>, &'static str)>)
    ensures
        match step_command(step, instance@) {
            Some(command) => r matches Some(given) && given.0.deep_view() == command.0
                && given.1@ == command.1,
            None => r is None,
        },
{
    match step {
        VmStep::Stop => Some(
            (three("--tty=false", "stop", instance), "stop the Lima test instance"),
        ),
        VmStep::RestoreSnapshot => Some(
            (snapshot_args("apply", instance), "restore the Lima test snapshot"),
        ),
        VmStep::DeleteStale => Some(
            (
                four("--tty=false", "delete", "--force", instance),
                "delete the stale Lima test instance",
            ),
        ),
        VmStep::CreateSnapshot => Some(
            (snapshot_args("create", instance), "create the Lima test snapshot"),
        ),
        VmStep::Start => Some(
            (
                three("--tty=false", "start", instance),
                "start the prepared Lima test instance",
            ),
        ),
        VmStep::Delete => Some(
            (
                four("--tty=false", "delete", "--force", instance),
                "delete the Lima test instance",
            ),
        ),
        VmStep::Create => None,
        VmStep::Setup => None,
    }
}

/// Tells whether a step has to be taken: a machine is stopped only where it runs.
pub fn is_needed(step: VmStep, status: &Option<String>) -> (r: bool)
    ensures
        r == !(step is Stop && status.deep_view() != Some("Running"@)),
{
    match step {
        VmStep::Stop => match status {
            Some(status) => text::same(status.as_str(), "Running"),
            None => false,
        },
        _ => true,
    }
}

/// The arguments that create a machine.
pub fn start_new_instance(instance: &str, spec: VmSpec, backend: Backend) -> (r: Vec<String>)
    ensures
        r.deep_view() == creation_args(instance@, spec.deep_view(), backend),
{
    let arch = match spec.arch {
        Arch::Amd64 => "x86_64",
        Arch::Arm64 => "aarch64",
    };
    let template = cat4(
        "template:",
        spec.guest_os.distribution,
        "-",
        spec.guest_os.version,
    );
    let mut args = four("--tty=false", "start", "--plain", "--name");
    push_text(&mut args, instance);
    push_text(&mut args, "--arch");
    push_text(&mut args, arch);
    push_text(&mut args, "--cpus");
    push_text(&mut args, "4");
    push_text(&mut args, "--memory");
    push_text(&mut args, "8");
    push_text(&mut args, "--disk");
    push_text(&mut args, "30");
    if let Some(vm_type) = backend.lima() {
        push_text(&mut args, "--vm-type");
        push_text(&mut args, vm_type);
    }
    push_text(&mut args, template.as_str());
    assert(args.deep_view() =~= creation_args(instance@, spec.deep_view(), backend));
    args
}

// ---------------------------------------------------------------------------
// Output
// ---------------------------------------------------------------------------

/// The status of a machine in a list of machines: what stands behind the tab of
/// the first line with its name.
pub open spec fn status_in(lines: Seq<Seq<char>>, instance: Seq<char>) -> Option<Seq<char>>
    decreases lines.len(),
{
    if lines.len() == 0 {
        None
    } else {
        match text::split_once(lines[0], '\t') {
            Some((name, status)) if name == instance => Some(status),
            _ => status_in(lines.skip(1), instance),
        }
    }
}

/// A word stands alone in one of some lines.
pub open spec fn has_line(lines: Seq<Seq<char>>, word: Seq<char>) -> bool {
    exists|i: int| 0 <= i < lines.len() && text::trimmed(#[trigger] lines[i]) == word
}

/// The status of a machine in a list of machines.
pub fn find_status(output: &str, instance: &str) -> (r: Option<String>)
    ensures
        r.deep_view() == status_in(text::lines(output@), instance@),
{
    let lines = text::lines_of(output);
    let ghost list = lines.deep_view();
    let mut i: usize = 0;
    proof {
        assert(list.skip(0) =~= list);
    }
    while i < lines.len()
        invariant
            i <= lines.len(),
            list == lines.deep_view(),
            list == text::lines(output@),
            status_in(list, instance@) == status_in(list.skip(i as int), instance@),
        decreases lines.len() - i,
    {
        proof {
            assert(list.skip(i as int)[0] == lines@[i as int]@);
            assert(list.skip(i as int).skip(1) =~= list.skip(i + 1));
        }
        if let Some((name, status)) = text::cut(lines[i].as_str(), '\t') {
            if text::same(name, instance) {
                return Some(status.to_owned());
            }
        }
        i += 1;
    }
    None
}

/// The status of a machine in what a list of machines printed.
pub fn parse_instance_status(output: &Vec<u8>, instance: &str) -> (r: Option<String>)
    ensures
        r.deep_view() == status_in(text::lines(lossy_decoded(output@)), instance@),
{
    let printed = utf8_lossy(output);
    find_status(printed.as_str(), instance)
}

/// Tells whether a word stands alone in a line. Drivers and snapshots are looked
/// for so.
pub fn lists(output: &str, word: &str) -> (r: bool)
    ensures
        r == has_line(text::lines(output@), word@),
{
    let lines = text::lines_of(output);
    let ghost list = lines.deep_view();
    let mut i: usize = 0;
    while i < lines.len()
        invariant
            i <= lines.len(),
            list == lines.deep_view(),
            list == text::lines(output@),
            forall|j: int| 0 <= j < i ==> text::trimmed(#[trigger] list[j]) != word@,
        decreases lines.len() - i,
    {
        assert(list[i as int] == lines@[i as int]@);
        if text::same(text::trim(lines[i].as_str()), word) {
            return true;
        }
        i += 1;
    }
    false
}

/// How the end of a process is shown.
pub open spec fn exit_text(code: Option<i32>) -> Seq<char> {
    match code {
        Some(code) => text::signed_decimal(code as int),
        None => "signal"@,
    }
}

/// How the end of a process is shown.
pub fn display_exit_code(code: Option<i32>) -> (r: String)
    ensures
        r@ == exit_text(code),
{
    match code {
        Some(code) => text::signed_decimal_of(code as i64),
        None => "signal".to_owned(),
    }
}

/// Checks the end of a process.
pub fn checked(code: Option<i32>, description: &str) -> (r: Result<(), String>)
    ensures
        shown(r) == (if code == Some(0i32) {
            Ok(())
        } else {
            Err(description@ + " failed with exit code "@ + exit_text(code))
        }),
{
    if code == Some(0) {
        return Ok(());
    }
    let shown_code = display_exit_code(code);
    Err(cat3(description, " failed with exit code ", shown_code.as_str()))
}

// ---------------------------------------------------------------------------
// Laws
// ---------------------------------------------------------------------------

/// A machine is never used without being set up: it is either restored from a
/// snapshot, which was taken after the setup, or created and set up.
pub proof fn law_machines_are_set_up(
    use_snapshot: bool,
    rebuild: bool,
    status: Option<Seq<char>>,
    has_snapshot: bool,
)
    ensures
        ({
            let steps = preparation(use_snapshot, rebuild, status, has_snapshot);
            steps.contains(VmStep::RestoreSnapshot) || steps.contains(VmStep::Setup)
        }),
        rebuild ==> !preparation(use_snapshot, rebuild, status, has_snapshot).contains(
            VmStep::RestoreSnapshot,
        ),
{
    let steps = preparation(use_snapshot, rebuild, status, has_snapshot);
    if is_restorable(use_snapshot, rebuild, status) && has_snapshot {
        assert(steps[1] == VmStep::RestoreSnapshot);
    } else if status is Some {
        assert(steps[2] == VmStep::Setup);
    } else {
        assert(steps[1] == VmStep::Setup);
    }
}

} // verus!
