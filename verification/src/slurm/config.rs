//! Configuration of the Slurm driver.

use crate::outcome::shown;
use crate::text;
use crate::text::cat2;
use vstd::prelude::*;

verus! {

/// Gateway-local configuration for the Slurm compute driver. Paths are texts.
#[derive(Clone)]
pub struct SlurmComputeConfig {
    /// Shared filesystem directory visible on the login and compute nodes.
    pub work_dir: String,
    /// Default sandbox image used when the sandbox template does not set one.
    pub default_image: String,
    /// Gateway endpoint reachable from Slurm compute nodes.
    pub grpc_endpoint: String,
    /// Optional Slurm partition.
    pub partition: Option<String>,
    /// Optional Slurm account.
    pub account: Option<String>,
    /// Optional Slurm `QoS`.
    pub qos: Option<String>,
    /// Optional Slurm time limit, passed through to `sbatch --time`.
    pub time_limit: Option<String>,
    /// Apptainer binary on the compute nodes.
    pub apptainer_bin: String,
    /// Host/shared-filesystem path to the `openshell-sandbox` supervisor binary.
    pub supervisor_bin: String,
    /// Unix socket path the in-sandbox supervisor uses for SSH relay.
    pub sandbox_ssh_socket_path: String,
    /// Shared secret for the NSSH1 SSH handshake.
    pub ssh_handshake_secret: String,
    /// Maximum clock skew in seconds for SSH handshake timestamps.
    pub ssh_handshake_skew_secs: u64,
    /// Default supervisor log level.
    pub log_level: String,
    /// Additional operator-supplied `sbatch` arguments.
    pub extra_sbatch_args: Vec<String>,
    /// Additional operator-supplied `srun` arguments.
    pub extra_srun_args: Vec<String>,
    /// Additional operator-supplied `apptainer exec` arguments.
    pub extra_apptainer_args: Vec<String>,
    /// Slurm GRES name used for `--gres=<name>:1`.
    pub gpu_resource: String,
    /// Shared-filesystem path to the CA certificate for sandbox mTLS.
    pub guest_tls_ca: Option<String>,
    /// Shared-filesystem path to the client certificate for sandbox mTLS.
    pub guest_tls_cert: Option<String>,
    /// Shared-filesystem path to the client private key for sandbox mTLS.
    pub guest_tls_key: Option<String>,
}

/// The content of a configuration.
#[verifier::ext_equal]
pub struct ConfigView {
    pub work_dir: Seq<char>,
    pub default_image: Seq<char>,
    pub grpc_endpoint: Seq<char>,
    pub partition: Option<Seq<char>>,
    pub account: Option<Seq<char>>,
    pub qos: Option<Seq<char>>,
    pub time_limit: Option<Seq<char>>,
    pub apptainer_bin: Seq<char>,
    pub supervisor_bin: Seq<char>,
    pub sandbox_ssh_socket_path: Seq<char>,
    pub ssh_handshake_secret: Seq<char>,
    pub ssh_handshake_skew_secs: u64,
    pub log_level: Seq<char>,
    pub extra_sbatch_args: Seq<Seq<char>>,
    pub extra_srun_args: Seq<Seq<char>>,
    pub extra_apptainer_args: Seq<Seq<char>>,
    pub gpu_resource: Seq<char>,
    pub guest_tls_ca: Option<Seq<char>>,
    pub guest_tls_cert: Option<Seq<char>>,
    pub guest_tls_key: Option<Seq<char>>,
}

impl DeepView for SlurmComputeConfig {
    type V = ConfigView;

    open spec fn deep_view(&self) -> ConfigView {
        ConfigView {
            work_dir: self.work_dir@,
            default_image: self.default_image@,
            grpc_endpoint: self.grpc_endpoint@,
            partition: self.partition.deep_view(),
            account: self.account.deep_view(),
            qos: self.qos.deep_view(),
            time_limit: self.time_limit.deep_view(),
            apptainer_bin: self.apptainer_bin@,
            supervisor_bin: self.supervisor_bin@,
            sandbox_ssh_socket_path: self.sandbox_ssh_socket_path@,
            ssh_handshake_secret: self.ssh_handshake_secret@,
            ssh_handshake_skew_secs: self.ssh_handshake_skew_secs,
            log_level: self.log_level@,
            extra_sbatch_args: self.extra_sbatch_args.deep_view(),
            extra_srun_args: self.extra_srun_args.deep_view(),
            extra_apptainer_args: self.extra_apptainer_args.deep_view(),
            gpu_resource: self.gpu_resource@,
            guest_tls_ca: self.guest_tls_ca.deep_view(),
            guest_tls_cert: self.guest_tls_cert.deep_view(),
            guest_tls_key: self.guest_tls_key.deep_view(),
        }
    }
}

/// The paths of all three TLS files are set.
pub open spec fn has_tls(config: ConfigView) -> bool {
    config.guest_tls_ca is Some && config.guest_tls_cert is Some && config.guest_tls_key is Some
}

/// The settings of the TLS files that are missing.
pub open spec fn missing_tls(config: ConfigView) -> Seq<Seq<char>> {
    (if config.guest_tls_ca is None {
        seq!["--slurm-tls-ca / OPENSHELL_SLURM_TLS_CA"@]
    } else {
        Seq::empty()
    }) + (if config.guest_tls_cert is None {
        seq!["--slurm-tls-cert / OPENSHELL_SLURM_TLS_CERT"@]
    } else {
        Seq::empty()
    }) + (if config.guest_tls_key is None {
        seq!["--slurm-tls-key / OPENSHELL_SLURM_TLS_KEY"@]
    } else {
        Seq::empty()
    })
}

/// The paths of the TLS files are set together or not at all.
pub open spec fn tls_verdict(config: ConfigView) -> Result<(), Seq<char>> {
    let missing = missing_tls(config);
    if missing.len() == 0 || missing.len() == 3 {
        Ok(())
    } else {
        Err(
            "Partial Slurm TLS configuration: all three TLS paths must be provided together. Missing: "@
                + text::join(missing, ", "@),
        )
    }
}

impl SlurmComputeConfig {
    /// The directory for sandboxes where none is set.
    pub fn default_work_dir() -> (r: String)
        ensures
            r@ == "/tmp/openshell-slurm"@,
    {
        "/tmp/openshell-slurm".to_owned()
    }

    /// The Apptainer binary where none is set.
    pub fn default_apptainer_bin() -> (r: String)
        ensures
            r@ == "apptainer"@,
    {
        "apptainer".to_owned()
    }

    /// The GPU resource where none is set.
    pub fn default_gpu_resource() -> (r: String)
        ensures
            r@ == "gpu"@,
    {
        "gpu".to_owned()
    }

    /// The configuration where nothing is set but the clock skew.
    pub fn defaults(ssh_handshake_skew_secs: u64) -> (r: SlurmComputeConfig)
        ensures
            r.deep_view() == (ConfigView {
                work_dir: "/tmp/openshell-slurm"@,
                default_image: Seq::empty(),
                grpc_endpoint: Seq::empty(),
                partition: None,
                account: None,
                qos: None,
                time_limit: None,
                apptainer_bin: "apptainer"@,
                supervisor_bin: "/usr/local/bin/openshell-sandbox"@,
                sandbox_ssh_socket_path: "/run/openshell/ssh.sock"@,
                ssh_handshake_secret: Seq::empty(),
                ssh_handshake_skew_secs,
                log_level: "info"@,
                extra_sbatch_args: Seq::empty(),
                extra_srun_args: Seq::empty(),
                extra_apptainer_args: Seq::empty(),
                gpu_resource: "gpu"@,
                guest_tls_ca: None,
                guest_tls_cert: None,
                guest_tls_key: None,
            }),
    {
        let r = SlurmComputeConfig {
            work_dir: SlurmComputeConfig::default_work_dir(),
            default_image: String::new(),
            grpc_endpoint: String::new(),
            partition: None,
            account: None,
            qos: None,
            time_limit: None,
            apptainer_bin: SlurmComputeConfig::default_apptainer_bin(),
            supervisor_bin: "/usr/local/bin/openshell-sandbox".to_owned(),
            sandbox_ssh_socket_path: "/run/openshell/ssh.sock".to_owned(),
            ssh_handshake_secret: String::new(),
            ssh_handshake_skew_secs,
            log_level: "info".to_owned(),
            extra_sbatch_args: Vec::new(),
            extra_srun_args: Vec::new(),
            extra_apptainer_args: Vec::new(),
            gpu_resource: SlurmComputeConfig::default_gpu_resource(),
            guest_tls_ca: None,
            guest_tls_cert: None,
            guest_tls_key: None,
        };
        proof {
            assert(r.default_image@ =~= Seq::empty());
            assert(r.grpc_endpoint@ =~= Seq::empty());
            assert(r.ssh_handshake_secret@ =~= Seq::empty());
            assert(r.extra_sbatch_args.deep_view() =~= Seq::empty());
            assert(r.extra_srun_args.deep_view() =~= Seq::empty());
            assert(r.extra_apptainer_args.deep_view() =~= Seq::empty());
        }
        r
    }

    /// Tells whether the paths of all three TLS files are set.
    pub fn tls_enabled(&self) -> (r: bool)
        ensures
            r == has_tls(self.deep_view()),
    {
        self.guest_tls_ca.is_some() && self.guest_tls_cert.is_some() && self.guest_tls_key.is_some()
    }

    /// Checks that the paths of the TLS files are set together or not at all.
    pub fn validate_tls_config(&self) -> (r: Result<(), String>)
        ensures
            shown(r) == tls_verdict(self.deep_view()),
    {
        let mut missing: Vec<String> = Vec::new();
        if self.guest_tls_ca.is_none() {
            missing.push("--slurm-tls-ca / OPENSHELL_SLURM_TLS_CA".to_owned());
        }
        if self.guest_tls_cert.is_none() {
            missing.push("--slurm-tls-cert / OPENSHELL_SLURM_TLS_CERT".to_owned());
        }
        if self.guest_tls_key.is_none() {
            missing.push("--slurm-tls-key / OPENSHELL_SLURM_TLS_KEY".to_owned());
        }
        proof {
            assert(missing.deep_view() =~= missing_tls(self.deep_view()));
        }
        if missing.len() == 0 || missing.len() == 3 {
            return Ok(());
        }
        let names = text::join_with(&missing, ", ");
        Err(
            cat2(
                "Partial Slurm TLS configuration: all three TLS paths must be provided together. Missing: ",
                names.as_str(),
            ),
        )
    }
}

/// A configuration with TLS is accepted, and one that is accepted has all of the
/// TLS files or none.
pub proof fn law_tls_is_complete(config: ConfigView)
    ensures
        has_tls(config) ==> tls_verdict(config) is Ok,
        tls_verdict(config) is Ok ==> has_tls(config) || (config.guest_tls_ca is None
            && config.guest_tls_cert is None && config.guest_tls_key is None),
{
}

} // verus!
