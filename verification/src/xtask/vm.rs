//! Virtual machines for tests.

use vstd::prelude::*;

verus! {

/// The architecture of a machine.
#[derive(Debug, Clone, Copy, PartialEq, Eq, Structural)]
pub enum Arch {
    Amd64,
    Arm64,
}

impl DeepView for Arch {
    type V = Arch;

    open spec fn deep_view(&self) -> Arch {
        *self
    }
}

/// The operating system of a machine.
#[derive(Debug, Clone, Copy, PartialEq, Eq)]
pub struct GuestOs {
    pub distribution: &'static str,
    pub version: &'static str,
}

/// The content of an operating system.
pub struct GuestView {
    pub distribution: Seq<char>,
    pub version: Seq<char>,
}

impl DeepView for GuestOs {
    type V = GuestView;

    open spec fn deep_view(&self) -> GuestView {
        GuestView { distribution: self.distribution@, version: self.version@ }
    }
}

impl GuestOs {
    /// An operating system.
    pub fn new(distribution: &'static str, version: &'static str) -> (r: GuestOs)
        ensures
            r.distribution == distribution,
            r.version == version,
    {
        GuestOs { distribution, version }
    }
}

/// What runs containers on a machine.
#[derive(Debug, Clone, Copy, PartialEq, Eq, Structural)]
pub enum ComputeDriver {
    PodmanRootless,
}

/// A machine.
#[derive(Debug, Clone, Copy, PartialEq, Eq)]
pub struct VmSpec {
    pub guest_os: GuestOs,
    pub arch: Arch,
    pub compute_driver: ComputeDriver,
}

/// The content of a machine's description.
pub struct VmView {
    pub guest_os: GuestView,
    pub arch: Arch,
    pub compute_driver: ComputeDriver,
}

impl DeepView for VmSpec {
    type V = VmView;

    open spec fn deep_view(&self) -> VmView {
        VmView {
            guest_os: self.guest_os.deep_view(),
            arch: self.arch,
            compute_driver: self.compute_driver,
        }
    }
}

/// How a machine is provided.
#[derive(Debug, Clone, Copy, PartialEq, Eq, Structural)]
pub struct ProvisionOptions {
    pub snapshot: bool,
    pub rebuild: bool,
}

} // verus!
