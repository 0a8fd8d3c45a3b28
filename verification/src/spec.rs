//! What is to be launched, and how the manager is set up.

use std::sync::Arc;

use vstd::prelude::*;
use vstd::string::*;

use crate::path;
use crate::path::same_path;
use crate::clash_api::client::{Client, Host, Secret};
use crate::health::policy::HealthPolicy;
use crate::metadata::kind::ClashCoreKind;
use crate::process::supervisor::{Backoff, RestartPolicy};
use crate::text;
use crate::text::str_eq;
use crate::time::Duration;

verus! {

#[derive(Debug)]
pub struct CoreSpec {
    pub kind: ClashCoreKind,
    pub binary_path: String,
    /// The version of the core; it is asked for where it is not given.
    pub version: Option<String>,
    pub features: Arc<Vec<String>>,
}

pub open spec fn maybe_text(s: Option<String>) -> Option<Seq<char>> {
    match s {
        Some(s) => Some(s@),
        None => None,
    }
}

pub fn copy_text(s: &Option<String>) -> (r: Option<String>)
    ensures
        r == *s,
{
    match s {
        Some(s) => Some(s.clone()),
        None => None,
    }
}

pub fn same_text(a: &Option<String>, b: &Option<String>) -> (r: bool)
    ensures
        r == (maybe_text(*a) == maybe_text(*b)),
{
    match (a, b) {
        (Some(a), Some(b)) => str_eq(a.as_str(), b.as_str()),
        (None, None) => true,
        _ => false,
    }
}

pub fn same_strings(a: &Vec<String>, b: &Vec<String>) -> (r: bool)
    ensures
        r == (text::strings(a@) == text::strings(b@)),
{
    let n: usize = a.len();
    if n != b.len() {
        assert(text::strings(a@).len() == a@.len());
        assert(text::strings(b@).len() == b@.len());
        return false;
    }
    let mut i: usize = 0;
    while i < n
        invariant
            n == a@.len(),
            n == b@.len(),
            i <= n,
            forall|j: int| 0 <= j < i ==> (#[trigger] a@[j])@ == b@[j]@,
        decreases n - i,
    {
        if !str_eq(a[i].as_str(), b[i].as_str()) {
            assert(text::strings(a@)[i as int] == a@[i as int]@);
            assert(text::strings(b@)[i as int] == b@[i as int]@);
            return false;
        }
        i += 1;
    }
    assert(text::strings(a@) =~= text::strings(b@));
    true
}

/// Two cores are alike, where `same_binary` says whether their binaries are at the same
/// path.
pub open spec fn cores_alike(a: CoreSpec, b: CoreSpec, same_binary: bool) -> bool {
    &&& a.kind == b.kind
    &&& same_binary
    &&& maybe_text(a.version) == maybe_text(b.version)
    &&& text::strings(a.features@) == text::strings(b.features@)
}

impl CoreSpec {
    pub fn copy(&self) -> (r: CoreSpec)
        ensures
            r == *self,
    {
        CoreSpec {
            kind: self.kind,
            binary_path: self.binary_path.clone(),
            version: copy_text(&self.version),
            features: self.features.clone(),
        }
    }

    pub fn same(&self, other: &CoreSpec) -> (r: bool)
        ensures
            cores_sameness(*self, *other, r),
    {
        let same_binary = same_path(self.binary_path.as_str(), other.binary_path.as_str());
        assert(path::sameness(self.binary_path@, other.binary_path@, same_binary));
        self.kind == other.kind && same_binary && same_text(&self.version, &other.version)
            && same_strings(&self.features, &other.features)
    }
}

/// What is known of whether two cores are the same.
pub open spec fn cores_sameness(a: CoreSpec, b: CoreSpec, same: bool) -> bool {
    exists|same_binary: bool|
        #[trigger] path::sameness(a.binary_path@, b.binary_path@, same_binary) && same
            == cores_alike(a, b, same_binary)
}

/// What one epoch launches. A changed configuration is a new epoch, unless the
/// running core takes it over.
#[derive(Debug)]
pub struct InstanceSpec {
    pub core: CoreSpec,
    pub config_path: String,
    pub working_dir: String,
    pub pid_file: Option<String>,
    pub options: InstanceOptions,
}

impl InstanceSpec {
    pub fn copy(&self) -> (r: InstanceSpec)
        ensures
            r == *self,
    {
        InstanceSpec {
            core: self.core.copy(),
            config_path: self.config_path.clone(),
            working_dir: self.working_dir.clone(),
            pid_file: copy_text(&self.pid_file),
            options: self.options,
        }
    }

    /// The same with another configuration.
    pub fn with_config(&self, config_path: &String) -> (r: InstanceSpec)
        ensures
            r == reading(*self, *config_path),
    {
        InstanceSpec { config_path: config_path.clone(), ..self.copy() }
    }
}

/// A spec with another configuration.
pub open spec fn reading(spec: InstanceSpec, config_path: String) -> InstanceSpec {
    InstanceSpec { config_path, ..spec }
}

#[derive(Debug, Clone, Copy, PartialEq, Eq, Structural)]
pub struct InstanceOptions {
    pub startup_timeout: Duration,
    pub health: HealthPolicy,
    pub restart_policy: RestartPolicy,
    pub backoff: Backoff,
}

impl Default for InstanceOptions {
    fn default() -> (r: InstanceOptions)
        ensures
            r.startup_timeout@ == 30_000_000_000,
            r.health.is_default(),
            r.restart_policy == (RestartPolicy::OnFailure { max_restarts: 5 }),
            r.backoff.first()@ == 1_000_000_000,
            r.backoff.limit()@ == 30_000_000_000,
            r.backoff.jittered(),
    {
        InstanceOptions {
            startup_timeout: Duration::from_secs(30),
            health: HealthPolicy::default(),
            restart_policy: RestartPolicy::OnFailure { max_restarts: 5 },
            backoff: Backoff::exponential(
                Duration::from_secs(1),
                Duration::from_secs(30),
            ).with_jitter(),
        }
    }
}

/// The endpoint through which an instance is probed and controlled.
pub struct ResolvedController {
    pub host: Host,
    pub secret: Option<String>,
}

impl ResolvedController {
    /// The secret that requests carry; none is the same as an empty one.
    pub open spec fn key(&self) -> Seq<char> {
        match self.secret {
            Some(secret) => secret@,
            None => seq![],
        }
    }

    pub fn client(&self) -> (r: Client)
        ensures
            r.endpoint() == self.host,
            r.key() == self.key(),
    {
        match &self.secret {
            Some(secret) => Client::with_secret(self.host.copy(), Secret::new(secret.as_str())),
            None => {
                let client = Client::new(self.host.copy());
                assert(client.key() =~= self.key());
                client
            },
        }
    }

    pub fn copy(&self) -> (r: ResolvedController)
        ensures
            r == *self,
    {
        ResolvedController { host: self.host.copy(), secret: copy_text(&self.secret) }
    }
}

/// How the manager selects the core's primary controller transport.
#[non_exhaustive]
#[derive(Debug, Clone, Copy, PartialEq, Eq, Structural)]
pub enum LocalIpcPolicy {
    /// Require local IPC and fail when the core cannot support it.
    Force,
    /// Prefer local IPC and fall back to the source HTTP controller.
    Prefer,
    /// Never rewrite the source HTTP controller.
    Disable,
}

#[derive(Debug)]
pub struct ManagerOptions {
    /// Directory of the manager's artifacts. It has to be given.
    pub runtime_dir: Option<String>,
    pub local_ipc_policy: LocalIpcPolicy,
    /// Template of the endpoint, with `{epoch}` in it; the platform's default
    /// where there is none.
    pub controller_template: Option<String>,
    pub control_timeout: Duration,
    pub reconcile_timeout: Duration,
    pub stop_timeout: Duration,
    /// Write structured core logs below the runtime directory.
    pub log_sink_enabled: bool,
    /// Soft rotation threshold for one file of logs.
    pub log_max_bytes: u64,
    /// Number of files of logs that are kept, the active one among them.
    pub log_max_files: usize,
}

impl Default for ManagerOptions {
    fn default() -> (r: ManagerOptions)
        ensures
            r.runtime_dir is None,
            r.local_ipc_policy is Disable,
            r.controller_template is None,
            r.control_timeout@ == 10_000_000_000,
            r.reconcile_timeout@ == 30_000_000_000,
            r.stop_timeout@ == 10_000_000_000,
            r.log_sink_enabled,
            r.log_max_bytes == 4 * 1024 * 1024,
            r.log_max_files == 5,
    {
        ManagerOptions {
            runtime_dir: None,
            local_ipc_policy: LocalIpcPolicy::Disable,
            controller_template: None,
            control_timeout: Duration::from_secs(10),
            reconcile_timeout: Duration::from_secs(30),
            stop_timeout: Duration::from_secs(10),
            log_sink_enabled: true,
            log_max_bytes: 4 * 1024 * 1024,
            log_max_files: 5,
        }
    }
}

} // verus!
