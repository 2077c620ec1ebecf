//! The release smoke test: its options, its machine, its scripts and its outcome.

use crate::outcome::shown;
use crate::paths;
use crate::paths::last_segment;
use crate::text;
use crate::text::{cat2, cat3, cat4, cat5};
use crate::xtask::cli::{ArgumentView, CliArgument};
use crate::xtask::vm::{Arch, ComputeDriver, GuestOs, GuestView, ProvisionOptions, VmSpec, VmView};
use vstd::prelude::*;

verus! {

/// Where a release artifact is put on the machine.
pub const GUEST_RELEASE_ARTIFACT_PATH: &'static str = "/tmp/openshell-release.deb";

/// The options of the release smoke test.
#[derive(Debug, Clone, PartialEq, Eq)]
pub struct ReleaseSmokeTestCommand {
    pub deb: CliArgument,
    pub arch: Option<Arch>,
    pub keep_vm: bool,
    pub rebuild_vm: bool,
    pub snapshot: bool,
    pub guest_os: GuestOs,
}

/// The content of the options.
pub struct CommandView {
    pub deb: ArgumentView,
    pub arch: Option<Arch>,
    pub keep_vm: bool,
    pub rebuild_vm: bool,
    pub snapshot: bool,
    pub guest_os: GuestView,
}

impl DeepView for ReleaseSmokeTestCommand {
    type V = CommandView;

    open spec fn deep_view(&self) -> CommandView {
        CommandView {
            deb: self.deb.deep_view(),
            arch: self.arch,
            keep_vm: self.keep_vm,
            rebuild_vm: self.rebuild_vm,
            snapshot: self.snapshot,
            guest_os: self.guest_os.deep_view(),
        }
    }
}

/// The options that were read so far.
struct Options {
    deb: Option<CliArgument>,
    arch: Option<Arch>,
    keep_vm: bool,
    rebuild_vm: bool,
    snapshot: bool,
    guest_os: Option<GuestOs>,
}

/// The content of the options that were read so far.
pub struct OptionsView {
    pub deb: Option<ArgumentView>,
    pub arch: Option<Arch>,
    pub keep_vm: bool,
    pub rebuild_vm: bool,
    pub snapshot: bool,
    pub guest_os: Option<GuestView>,
}

impl DeepView for Options {
    type V = OptionsView;

    closed spec fn deep_view(&self) -> OptionsView {
        OptionsView {
            deb: self.deb.deep_view(),
            arch: self.arch,
            keep_vm: self.keep_vm,
            rebuild_vm: self.rebuild_vm,
            snapshot: self.snapshot,
            guest_os: self.guest_os.deep_view(),
        }
    }
}

/// The architecture that a text names.
pub open spec fn arch_of(value: ArgumentView) -> Result<Arch, Seq<char>> {
    match value {
        ArgumentView::Raw(_) => Err("--arch must be valid UTF-8"@),
        ArgumentView::Text(name) => if name == "amd64"@ || name == "x86_64"@ {
            Ok(Arch::Amd64)
        } else if name == "arm64"@ || name == "aarch64"@ {
            Ok(Arch::Arm64)
        } else {
            Err("unsupported architecture: "@ + name)
        },
    }
}

/// The operating system that a text names.
pub open spec fn guest_of(value: ArgumentView) -> Result<GuestView, Seq<char>> {
    match value {
        ArgumentView::Raw(_) => Err("--guest-os must be valid UTF-8"@),
        ArgumentView::Text(name) => if name == "ubuntu-24.04"@ {
            Ok(GuestView { distribution: "ubuntu"@, version: "24.04"@ })
        } else if name == "ubuntu-26.04"@ {
            Ok(GuestView { distribution: "ubuntu"@, version: "26.04"@ })
        } else {
            Err(
                "unsupported guest OS: "@ + name + " (expected ubuntu-24.04 or ubuntu-26.04)"@,
            )
        },
    }
}

/// The options after the argument at a position and its value, and the position
/// behind them.
pub open spec fn after_argument(args: Seq<ArgumentView>, i: int, options: OptionsView) -> Result<
    (OptionsView, int),
    Seq<char>,
> {
    match args[i] {
        ArgumentView::Raw(_) => Err("release-smoke-test options must be valid UTF-8"@),
        ArgumentView::Text(name) => if name == "--deb"@ {
            if i + 1 >= args.len() {
                Err("--deb requires a path"@)
            } else if options.deb is Some {
                Err("--deb may only be specified once"@)
            } else {
                Ok((OptionsView { deb: Some(args[i + 1]), ..options }, i + 2))
            }
        } else if name == "--arch"@ {
            if i + 1 >= args.len() {
                Err("--arch requires a value"@)
            } else {
                match arch_of(args[i + 1]) {
                    Err(message) => Err(message),
                    Ok(arch) => if options.arch is Some {
                        Err("--arch may only be specified once"@)
                    } else {
                        Ok((OptionsView { arch: Some(arch), ..options }, i + 2))
                    },
                }
            }
        } else if name == "--guest-os"@ {
            if i + 1 >= args.len() {
                Err("--guest-os requires a value"@)
            } else {
                match guest_of(args[i + 1]) {
                    Err(message) => Err(message),
                    Ok(guest) => if options.guest_os is Some {
                        Err("--guest-os may only be specified once"@)
                    } else {
                        Ok((OptionsView { guest_os: Some(guest), ..options }, i + 2))
                    },
                }
            }
        } else if name == "--keep-vm"@ {
            Ok((OptionsView { keep_vm: true, ..options }, i + 1))
        } else if name == "--rebuild-vm"@ {
            Ok((OptionsView { rebuild_vm: true, ..options }, i + 1))
        } else if name == "--snapshot"@ {
            Ok((OptionsView { snapshot: true, ..options }, i + 1))
        } else {
            Err("unknown release-smoke-test option: "@ + name)
        },
    }
}

/// The options after all arguments from a position on.
pub open spec fn read_options(args: Seq<ArgumentView>, i: int, options: OptionsView) -> Result<
    OptionsView,
    Seq<char>,
>
    decreases args.len() - i,
{
    if i >= args.len() {
        Ok(options)
    } else {
        match after_argument(args, i, options) {
            Err(message) => Err(message),
            Ok((next, j)) => if j > i {
                read_options(args, j, next)
            } else {
                Ok(next)
            },
        }
    }
}

/// No options.
pub open spec fn no_options() -> OptionsView {
    OptionsView {
        deb: None,
        arch: None,
        keep_vm: false,
        rebuild_vm: false,
        snapshot: false,
        guest_os: None,
    }
}

/// The options that arguments set.
pub open spec fn smoke_test_command(args: Seq<ArgumentView>) -> Result<CommandView, Seq<char>> {
    match read_options(args, 0, no_options()) {
        Err(message) => Err(message),
        Ok(options) => if options.rebuild_vm && !options.snapshot {
            Err("--rebuild-vm requires --snapshot"@)
        } else {
            match options.deb {
                None => Err("release-smoke-test requires --deb <path>"@),
                Some(deb) => Ok(
                    CommandView {
                        deb,
                        arch: options.arch,
                        keep_vm: options.keep_vm,
                        rebuild_vm: options.rebuild_vm,
                        snapshot: options.snapshot,
                        guest_os: match options.guest_os {
                            Some(guest) => guest,
                            None => GuestView { distribution: "ubuntu"@, version: "26.04"@ },
                        },
                    },
                ),
            }
        },
    }
}

/// The architecture that an argument names.
pub fn parse_arch(value: &CliArgument) -> (r: Result<Arch, String>)
    ensures
        shown(r) == arch_of(value.deep_view()),
{
    match value {
        CliArgument::Raw(_) => Err("--arch must be valid UTF-8".to_owned()),
        CliArgument::Text(name) => {
            let name = name.as_str();
            if text::same(name, "amd64") || text::same(name, "x86_64") {
                Ok(Arch::Amd64)
            } else if text::same(name, "arm64") || text::same(name, "aarch64") {
                Ok(Arch::Arm64)
            } else {
                Err(cat2("unsupported architecture: ", name))
            }
        },
    }
}

/// The operating system that an argument names.
pub fn parse_guest_os(value: &CliArgument) -> (r: Result<GuestOs, String>)
    ensures
        shown(r) == guest_of(value.deep_view()),
{
    match value {
        CliArgument::Raw(_) => Err("--guest-os must be valid UTF-8".to_owned()),
        CliArgument::Text(name) => {
            let name = name.as_str();
            if text::same(name, "ubuntu-24.04") {
                Ok(GuestOs::new("ubuntu", "24.04"))
            } else if text::same(name, "ubuntu-26.04") {
                Ok(GuestOs::new("ubuntu", "26.04"))
            } else {
                Err(
                    cat3(
                        "unsupported guest OS: ",
                        name,
                        " (expected ubuntu-24.04 or ubuntu-26.04)",
                    ),
                )
            }
        },
    }
}

fn read_argument(args: &Vec<CliArgument>, i: usize, options: &mut Options) -> (r: Result<
    usize,
    String,
>)
    requires
        i < args.len(),
    ensures
        match after_argument(args.deep_view(), i as int, old(options).deep_view()) {
            Ok((next, j)) => r matches Ok(k) && k == j && i < k && k <= args.len()
                && final(options).deep_view() == next,
            Err(problem) => r matches Err(message) && message@ == problem,
        },
{
    let ghost list = args.deep_view();
    proof {
        assert(list[i as int] == args@[i as int].deep_view());
        assert(i + 1 < args.len() ==> list[i + 1] == args@[i + 1].deep_view());
    }
    let name = match &args[i] {
        CliArgument::Text(name) => name.as_str(),
        CliArgument::Raw(_) => {
            return Err("release-smoke-test options must be valid UTF-8".to_owned());
        },
    };
    if text::same(name, "--deb") {
        if i + 1 >= args.len() {
            return Err("--deb requires a path".to_owned());
        }
        if options.deb.is_some() {
            return Err("--deb may only be specified once".to_owned());
        }
        options.deb = Some(args[i + 1].copy());
        Ok(i + 2)
    } else if text::same(name, "--arch") {
        if i + 1 >= args.len() {
            return Err("--arch requires a value".to_owned());
        }
        match parse_arch(&args[i + 1]) {
            Err(message) => Err(message),
            Ok(arch) => {
                if options.arch.is_some() {
                    return Err("--arch may only be specified once".to_owned());
                }
                options.arch = Some(arch);
                Ok(i + 2)
            },
        }
    } else if text::same(name, "--guest-os") {
        if i + 1 >= args.len() {
            return Err("--guest-os requires a value".to_owned());
        }
        match parse_guest_os(&args[i + 1]) {
            Err(message) => Err(message),
            Ok(guest) => {
                if options.guest_os.is_some() {
                    return Err("--guest-os may only be specified once".to_owned());
                }
                options.guest_os = Some(guest);
                Ok(i + 2)
            },
        }
    } else if text::same(name, "--keep-vm") {
        options.keep_vm = true;
        Ok(i + 1)
    } else if text::same(name, "--rebuild-vm") {
        options.rebuild_vm = true;
        Ok(i + 1)
    } else if text::same(name, "--snapshot") {
        options.snapshot = true;
        Ok(i + 1)
    } else {
        Err(cat2("unknown release-smoke-test option: ", name))
    }
}

impl ReleaseSmokeTestCommand {
    /// The options that arguments set.
    pub fn parse(args: &Vec<CliArgument>) -> (r: Result<ReleaseSmokeTestCommand, String>)
        ensures
            shown(r) == smoke_test_command(args.deep_view()),
    {
        let ghost list = args.deep_view();
        let mut options = Options {
            deb: None,
            arch: None,
            keep_vm: false,
            rebuild_vm: false,
            snapshot: false,
            guest_os: None,
        };
        let mut i: usize = 0;
        while i < args.len()
            invariant
                i <= args.len(),
                list == args.deep_view(),
                read_options(list, 0, no_options()) == read_options(
                    list,
                    i as int,
                    options.deep_view(),
                ),
            decreases args.len() - i,
        {
            let j: usize = match read_argument(args, i, &mut options) {
                Ok(j) => j,
                Err(message) => {
                    return Err(message);
                },
            };
            i = j;
        }
        if options.rebuild_vm && !options.snapshot {
            return Err("--rebuild-vm requires --snapshot".to_owned());
        }
        let deb = match options.deb {
            Some(deb) => deb,
            None => {
                return Err("release-smoke-test requires --deb <path>".to_owned());
            },
        };
        let guest_os = match options.guest_os {
            Some(guest_os) => guest_os,
            None => GuestOs::new("ubuntu", "26.04"),
        };
        Ok(
            ReleaseSmokeTestCommand {
                deb,
                arch: options.arch,
                keep_vm: options.keep_vm,
                rebuild_vm: options.rebuild_vm,
                snapshot: options.snapshot,
                guest_os,
            },
        )
    }
}

// ---------------------------------------------------------------------------
// The machine
// ---------------------------------------------------------------------------

/// The architecture of a package, by its file's name, or else that of the host.
pub open spec fn deb_arch(path: Seq<char>, host_arch: Seq<char>) -> Arch {
    let name = match last_segment(path) {
        Some(name) => name,
        None => Seq::empty(),
    };
    if text::ends_with(name, "_arm64.deb"@) || text::ends_with(name, "-arm64.deb"@) {
        Arch::Arm64
    } else if text::ends_with(name, "_amd64.deb"@) || text::ends_with(name, "-amd64.deb"@) {
        Arch::Amd64
    } else if host_arch == "aarch64"@ {
        Arch::Arm64
    } else {
        Arch::Amd64
    }
}

/// The architecture of a package, by its file's name, or else that of the host.
pub fn infer_deb_arch(path: &str, host_arch: &str) -> (r: Arch)
    ensures
        r == deb_arch(path@, host_arch@),
{
    let name = match paths::file_name(path) {
        Some(name) => name,
        None => {
            let empty = String::new();
            assert(empty@ =~= Seq::empty());
            empty
        },
    };
    let filename = name.as_str();
    if text::has_suffix(filename, "_arm64.deb") || text::has_suffix(filename, "-arm64.deb") {
        return Arch::Arm64;
    }
    if text::has_suffix(filename, "_amd64.deb") || text::has_suffix(filename, "-amd64.deb") {
        return Arch::Amd64;
    }
    if text::same(host_arch, "aarch64") {
        Arch::Arm64
    } else {
        Arch::Amd64
    }
}

/// The machine and the way it is provided, for a package at a path.
pub fn release_smoke_test(command: &ReleaseSmokeTestCommand, deb: &str, host_arch: &str) -> (r: (
    VmSpec,
    ProvisionOptions,
))
    ensures
        r.0.deep_view() == (VmView {
            guest_os: command.deep_view().guest_os,
            arch: match command.arch {
                Some(arch) => arch,
                None => deb_arch(deb@, host_arch@),
            },
            compute_driver: ComputeDriver::PodmanRootless,
        }),
        r.1 == (ProvisionOptions { snapshot: command.snapshot, rebuild: command.rebuild_vm }),
{
    let arch = match command.arch {
        Some(arch) => arch,
        None => infer_deb_arch(deb, host_arch),
    };
    (
        VmSpec {
            guest_os: command.guest_os,
            arch,
            compute_driver: ComputeDriver::PodmanRootless,
        },
        ProvisionOptions { snapshot: command.snapshot, rebuild: command.rebuild_vm },
    )
}

/// The scripts that run on machines.
#[derive(Debug, Clone, PartialEq, Eq)]
pub struct GuestScripts {
    pub install_podman_rootless: String,
    pub ubuntu_podman_rootless: String,
}

/// The script that sets a machine up.
pub fn compute_driver_setup_script(compute_driver: ComputeDriver, scripts: &GuestScripts) -> (r:
    &str)
    ensures
        r@ == scripts.install_podman_rootless@,
{
    match compute_driver {
        ComputeDriver::PodmanRootless => scripts.install_podman_rootless.as_str(),
    }
}

/// The script that tests a release on a machine.
pub open spec fn guest_script(spec: VmView, ubuntu_script: Seq<char>) -> Result<
    Seq<char>,
    Seq<char>,
> {
    if spec.guest_os.distribution == "ubuntu"@ {
        Ok(
            "export OPENSHELL_RELEASE_ARTIFACT="@ + GUEST_RELEASE_ARTIFACT_PATH@ + "\n"@
                + ubuntu_script,
        )
    } else {
        Err(
            "unsupported release smoke test combination: "@ + spec.guest_os.distribution + "-"@
                + spec.guest_os.version + " with rootless Podman"@,
        )
    }
}

/// The script that tests a release on a machine.
pub fn release_smoke_guest_script(spec: VmSpec, scripts: &GuestScripts) -> (r: Result<
    String,
    String,
>)
    ensures
        shown(r) == guest_script(spec.deep_view(), scripts.ubuntu_podman_rootless@),
{
    if text::same(spec.guest_os.distribution, "ubuntu") {
        Ok(
            cat4(
                "export OPENSHELL_RELEASE_ARTIFACT=",
                GUEST_RELEASE_ARTIFACT_PATH,
                "\n",
                scripts.ubuntu_podman_rootless.as_str(),
            ),
        )
    } else {
        Err(
            cat5(
                "unsupported release smoke test combination: ",
                spec.guest_os.distribution,
                "-",
                spec.guest_os.version,
                " with rootless Podman",
            ),
        )
    }
}

// ---------------------------------------------------------------------------
// The outcome
// ---------------------------------------------------------------------------

/// What the test came to: how its script ended, and a warning where the machine
/// could not be cleaned up after a failed test.
#[derive(Debug, Clone, PartialEq, Eq)]
pub struct SmokeTestOutcome {
    pub status: Option<i32>,
    pub warning: Option<String>,
}

/// The content of what the test came to.
pub struct OutcomeView {
    pub status: Option<i32>,
    pub warning: Option<Seq<char>>,
}

impl DeepView for SmokeTestOutcome {
    type V = OutcomeView;

    open spec fn deep_view(&self) -> OutcomeView {
        OutcomeView { status: self.status, warning: self.warning.deep_view() }
    }
}

/// What the test came to. There is no cleanup where the machine is kept.
pub open spec fn concluded(
    test: Result<Option<i32>, Seq<char>>,
    cleanup: Option<Result<(), Seq<char>>>,
) -> Result<OutcomeView, Seq<char>> {
    match test {
        Err(problem) => Err(problem),
        Ok(status) => match cleanup {
            Some(Err(problem)) => if status == Some(0i32) {
                Err(problem)
            } else {
                Ok(OutcomeView { status, warning: Some(problem) })
            },
            _ => Ok(OutcomeView { status, warning: None }),
        },
    }
}

/// The content of what cleaning up came to.
pub open spec fn cleanup_view(cleanup: Option<Result<(), String>>) -> Option<
    Result<(), Seq<char>>,
> {
    match cleanup {
        Some(outcome) => Some(shown(outcome)),
        None => None,
    }
}

/// What the test came to, from how its script ended and how the machine was
/// cleaned up.
pub fn conclude(
    test: Result<Option<i32>, String>,
    cleanup: Option<Result<(), String>>,
) -> (r: Result<SmokeTestOutcome, String>)
    ensures
        shown(r) == concluded(
            match test {
                Ok(status) => Ok(status),
                Err(problem) => Err(problem@),
            },
            cleanup_view(cleanup),
        ),
{
    let status: Option<i32> = match test {
        Ok(status) => status,
        Err(problem) => {
            return Err(problem);
        },
    };
    match cleanup {
        Some(Err(problem)) => {
            if status == Some(0) {
                Err(problem)
            } else {
                Ok(SmokeTestOutcome { status, warning: Some(problem) })
            }
        },
        _ => Ok(SmokeTestOutcome { status, warning: None }),
    }
}

/// A test that failed is never reported as one that passed, and one that passed is
/// reported as one only where the machine could be cleaned up.
pub proof fn law_failures_are_reported(
    test: Result<Option<i32>, Seq<char>>,
    cleanup: Option<Result<(), Seq<char>>>,
)
    ensures
        concluded(test, cleanup) matches Ok(outcome) && outcome.status == Some(0i32) ==> test == Ok::<
            Option<i32>,
            Seq<char>,
        >(Some(0i32)) && !(cleanup matches Some(Err(_))),
{
}

/// Rebuilding a machine is accepted only together with snapshots.
pub proof fn law_rebuild_needs_snapshot(args: Seq<ArgumentView>)
    ensures
        smoke_test_command(args) matches Ok(command) ==> (command.rebuild_vm ==> command.snapshot),
{
}

} // verus!
