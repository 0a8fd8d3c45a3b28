//! What the manager tells of itself: where the core stands, how it is, and which
//! configuration it runs.

use vstd::prelude::*;
use vstd::string::*;

use crate::clash_api::client::Host;
use crate::metadata::feature::FeatureSet;
use crate::metadata::kind::ClashCoreKind;
use crate::text;
use crate::text::{str_eq, u64_to_string};

verus! {

/// What identifies one configuration of one epoch.
#[derive(Debug, PartialEq, Eq)]
pub struct RevisionId {
    pub epoch: u64,
    pub generation: u64,
    pub effective_hash: String,
}

impl RevisionId {
    pub fn copy(&self) -> (r: RevisionId)
        ensures
            r == *self,
    {
        RevisionId {
            epoch: self.epoch,
            generation: self.generation,
            effective_hash: self.effective_hash.clone(),
        }
    }

    pub fn same(&self, other: &RevisionId) -> (r: bool)
        ensures
            r == same_id(*self, *other),
    {
        self.epoch == other.epoch && self.generation == other.generation && str_eq(
            self.effective_hash.as_str(),
            other.effective_hash.as_str(),
        )
    }

    pub fn text(&self) -> (r: String)
        ensures
            r@ == id_text(*self),
    {
        let mut out = u64_to_string(self.epoch);
        out.append("/");
        out.append(u64_to_string(self.generation).as_str());
        out.append("/");
        out.append(self.effective_hash.as_str());
        out
    }
}

pub open spec fn same_id(a: RevisionId, b: RevisionId) -> bool {
    a.epoch == b.epoch && a.generation == b.generation && a.effective_hash@ == b.effective_hash@
}

/// A revision as it is printed.
pub open spec fn id_text(id: RevisionId) -> Seq<char> {
    text::decimal(id.epoch as nat) + "/"@ + text::decimal(id.generation as nat) + "/"@
        + id.effective_hash@
}

/// The configuration that an epoch runs: the generation counts the
/// configurations that the epoch has run.
#[derive(Debug, PartialEq, Eq)]
pub struct ConfigRevision {
    pub epoch: u64,
    pub generation: u64,
    pub source_hash: String,
    pub effective_hash: String,
    pub runtime_path: String,
}

pub open spec fn revision_id(r: ConfigRevision) -> RevisionId {
    RevisionId { epoch: r.epoch, generation: r.generation, effective_hash: r.effective_hash }
}

impl ConfigRevision {
    pub fn id(&self) -> (r: RevisionId)
        ensures
            r == revision_id(*self),
    {
        RevisionId {
            epoch: self.epoch,
            generation: self.generation,
            effective_hash: self.effective_hash.clone(),
        }
    }

    pub fn copy(&self) -> (r: ConfigRevision)
        ensures
            r == *self,
    {
        ConfigRevision {
            epoch: self.epoch,
            generation: self.generation,
            source_hash: self.source_hash.clone(),
            effective_hash: self.effective_hash.clone(),
            runtime_path: self.runtime_path.clone(),
        }
    }
}

/// Why a core no longer runs.
#[derive(Debug, PartialEq, Eq)]
pub enum StopReason {
    User,
    Finished,
    Error(String),
}

pub open spec fn stop_text(reason: StopReason) -> Seq<char> {
    match reason {
        StopReason::User => "stopped by user"@,
        StopReason::Finished => "process finished"@,
        StopReason::Error(message) => message@,
    }
}

pub open spec fn same_stop(a: StopReason, b: StopReason) -> bool {
    match (a, b) {
        (StopReason::User, StopReason::User) => true,
        (StopReason::Finished, StopReason::Finished) => true,
        (StopReason::Error(a), StopReason::Error(b)) => a@ == b@,
        _ => false,
    }
}

impl StopReason {
    pub fn copy(&self) -> (r: StopReason)
        ensures
            r == *self,
    {
        match self {
            StopReason::User => StopReason::User,
            StopReason::Finished => StopReason::Finished,
            StopReason::Error(message) => StopReason::Error(message.clone()),
        }
    }

    pub fn same(&self, other: &StopReason) -> (r: bool)
        ensures
            r == same_stop(*self, *other),
    {
        match (self, other) {
            (StopReason::User, StopReason::User) => true,
            (StopReason::Finished, StopReason::Finished) => true,
            (StopReason::Error(a), StopReason::Error(b)) => str_eq(a.as_str(), b.as_str()),
            _ => false,
        }
    }

    pub fn text(&self) -> (r: String)
        ensures
            r@ == stop_text(*self),
    {
        match self {
            StopReason::User => "stopped by user".to_owned(),
            StopReason::Finished => "process finished".to_owned(),
            StopReason::Error(message) => message.clone(),
        }
    }
}

/// Where the core of the manager stands.
#[derive(Debug, PartialEq, Eq)]
pub enum CoreState {
    Stopped { reason: Option<StopReason> },
    Starting { epoch: u64 },
    Running { epoch: u64, pid: u32 },
    Restarting { epoch: u64, attempt: u32 },
    Switching { from: Option<u64>, to: u64 },
    Stopping { epoch: u64 },
}

pub open spec fn same_state(a: CoreState, b: CoreState) -> bool {
    match (a, b) {
        (CoreState::Stopped { reason: Some(a) }, CoreState::Stopped { reason: Some(b) }) =>
        same_stop(a, b),
        _ => a == b,
    }
}

impl CoreState {
    pub fn copy(&self) -> (r: CoreState)
        ensures
            r == *self,
    {
        match self {
            CoreState::Stopped { reason: None } => CoreState::Stopped { reason: None },
            CoreState::Stopped { reason: Some(reason) } => CoreState::Stopped {
                reason: Some(reason.copy()),
            },
            CoreState::Starting { epoch } => CoreState::Starting { epoch: *epoch },
            CoreState::Running { epoch, pid } => CoreState::Running { epoch: *epoch, pid: *pid },
            CoreState::Restarting { epoch, attempt } => CoreState::Restarting {
                epoch: *epoch,
                attempt: *attempt,
            },
            CoreState::Switching { from, to } => CoreState::Switching { from: *from, to: *to },
            CoreState::Stopping { epoch } => CoreState::Stopping { epoch: *epoch },
        }
    }

    pub fn same(&self, other: &CoreState) -> (r: bool)
        ensures
            r == same_state(*self, *other),
    {
        match (self, other) {
            (CoreState::Stopped { reason: Some(a) }, CoreState::Stopped { reason: Some(b) }) =>
            a.same(b),
            (CoreState::Stopped { reason: None }, CoreState::Stopped { reason: None }) => true,
            (CoreState::Starting { epoch: a }, CoreState::Starting { epoch: b }) => *a == *b,
            (
                CoreState::Running { epoch: a, pid: p },
                CoreState::Running { epoch: b, pid: q },
            ) => *a == *b && *p == *q,
            (
                CoreState::Restarting { epoch: a, attempt: p },
                CoreState::Restarting { epoch: b, attempt: q },
            ) => *a == *b && *p == *q,
            (
                CoreState::Switching { from: f, to: t },
                CoreState::Switching { from: g, to: u },
            ) => *f == *g && *t == *u,
            (CoreState::Stopping { epoch: a }, CoreState::Stopping { epoch: b }) => *a == *b,
            _ => false,
        }
    }
}

/// Where one instance of a core stands.
#[derive(Debug, PartialEq, Eq)]
pub enum InstanceState {
    Starting,
    Running { pid: u32 },
    Restarting { attempt: u32 },
    Stopping,
    Stopped(StopReason),
}

impl InstanceState {
    pub fn copy(&self) -> (r: InstanceState)
        ensures
            r == *self,
    {
        match self {
            InstanceState::Starting => InstanceState::Starting,
            InstanceState::Running { pid } => InstanceState::Running { pid: *pid },
            InstanceState::Restarting { attempt } => InstanceState::Restarting {
                attempt: *attempt,
            },
            InstanceState::Stopping => InstanceState::Stopping,
            InstanceState::Stopped(reason) => InstanceState::Stopped(reason.copy()),
        }
    }

    /// Nothing follows a terminal state.
    pub fn is_terminal(&self) -> (r: bool)
        ensures
            r == (self is Stopped),
    {
        matches!(self, InstanceState::Stopped(_))
    }

    /// The pid of an instance that runs, or zero.
    pub fn pid_or_zero(&self) -> (r: u32)
        ensures
            r == running_pid(*self),
    {
        match self {
            InstanceState::Running { pid } => *pid,
            _ => 0,
        }
    }
}

pub open spec fn running_pid(state: InstanceState) -> u32 {
    match state {
        InstanceState::Running { pid } => pid,
        _ => 0,
    }
}

#[derive(Debug, Clone, Copy, PartialEq, Eq, Structural)]
pub enum HealthState {
    Starting,
    Healthy,
    Unhealthy,
}

/// How a core is, with times in milliseconds since 1970.
#[derive(Debug, PartialEq, Eq)]
pub struct HealthStatus {
    pub state: HealthState,
    pub changed_at: i64,
    pub consecutive_failures: u32,
    pub last_error: Option<String>,
    pub last_success_at: Option<i64>,
}

pub open spec fn error_view(e: Option<String>) -> Option<Seq<char>> {
    match e {
        Some(e) => Some(e@),
        None => None,
    }
}

pub open spec fn same_health(a: Option<HealthStatus>, b: Option<HealthStatus>) -> bool {
    match (a, b) {
        (Some(a), Some(b)) => a.state == b.state && a.changed_at == b.changed_at
            && a.consecutive_failures == b.consecutive_failures && error_view(a.last_error)
            == error_view(b.last_error) && a.last_success_at == b.last_success_at,
        (None, None) => true,
        _ => false,
    }
}

impl HealthStatus {
    pub fn starting(now_ms: i64) -> (r: HealthStatus)
        ensures
            r == (HealthStatus {
                state: HealthState::Starting,
                changed_at: now_ms,
                consecutive_failures: 0,
                last_error: None,
                last_success_at: None,
            }),
    {
        HealthStatus {
            state: HealthState::Starting,
            changed_at: now_ms,
            consecutive_failures: 0,
            last_error: None,
            last_success_at: None,
        }
    }

    pub fn copy(&self) -> (r: HealthStatus)
        ensures
            r == *self,
    {
        HealthStatus {
            state: self.state,
            changed_at: self.changed_at,
            consecutive_failures: self.consecutive_failures,
            last_error: match &self.last_error {
                Some(error) => Some(error.clone()),
                None => None,
            },
            last_success_at: self.last_success_at,
        }
    }
}

pub fn copy_health(health: &Option<HealthStatus>) -> (r: Option<HealthStatus>)
    ensures
        r == *health,
{
    match health {
        Some(health) => Some(health.copy()),
        None => None,
    }
}

pub fn health_same(a: &Option<HealthStatus>, b: &Option<HealthStatus>) -> (r: bool)
    ensures
        r == same_health(*a, *b),
{
    match (a, b) {
        (Some(a), Some(b)) => {
            let errors = match (&a.last_error, &b.last_error) {
                (Some(x), Some(y)) => str_eq(x.as_str(), y.as_str()),
                (None, None) => true,
                _ => false,
            };
            a.state == b.state && a.changed_at == b.changed_at && a.consecutive_failures
                == b.consecutive_failures && errors && a.last_success_at == b.last_success_at
        },
        (None, None) => true,
        _ => false,
    }
}

/// What one instance tells of itself.
#[derive(Debug, PartialEq, Eq)]
pub struct InstanceStatus {
    pub state: InstanceState,
    pub health: Option<HealthStatus>,
}

impl InstanceStatus {
    pub fn initial() -> (r: InstanceStatus)
        ensures
            r == (InstanceStatus { state: InstanceState::Starting, health: None }),
    {
        InstanceStatus { state: InstanceState::Starting, health: None }
    }

    pub fn copy(&self) -> (r: InstanceStatus)
        ensures
            r == *self,
    {
        InstanceStatus { state: self.state.copy(), health: copy_health(&self.health) }
    }
}

/// Functionality that the manager enabled for an epoch.
#[derive(Debug, Clone, Copy, PartialEq, Eq, Structural)]
pub struct RuntimeFeatures {
    /// The control channel is a local endpoint that the manager owns.
    pub local_ipc: bool,
}

/// What the manager was asked to run.
#[derive(Debug, PartialEq, Eq)]
pub struct SpecSummary {
    pub kind: ClashCoreKind,
    pub config_path: String,
    pub capabilities: FeatureSet,
    pub runtime_features: RuntimeFeatures,
}

impl SpecSummary {
    pub fn copy(&self) -> (r: SpecSummary)
        ensures
            r == *self,
    {
        SpecSummary {
            kind: self.kind,
            config_path: self.config_path.clone(),
            capabilities: self.capabilities,
            runtime_features: self.runtime_features,
        }
    }
}

/// What the manager tells of itself.
#[derive(Debug)]
pub struct CoreStatus {
    pub state: CoreState,
    pub health: Option<HealthStatus>,
    pub spec: Option<SpecSummary>,
    pub controller: Option<Host>,
    pub revision: Option<ConfigRevision>,
    /// When `state` last changed, in milliseconds since 1970.
    pub changed_at: i64,
}

impl CoreStatus {
    pub fn initial(now_ms: i64) -> (r: CoreStatus)
        ensures
            r == (CoreStatus {
                state: CoreState::Stopped { reason: None },
                health: None,
                spec: None,
                controller: None,
                revision: None,
                changed_at: now_ms,
            }),
    {
        CoreStatus {
            state: CoreState::Stopped { reason: None },
            health: None,
            spec: None,
            controller: None,
            revision: None,
            changed_at: now_ms,
        }
    }

    pub fn copy(&self) -> (r: CoreStatus)
        ensures
            r == *self,
    {
        let spec = match &self.spec {
            Some(spec) => Some(spec.copy()),
            None => None,
        };
        let controller = match &self.controller {
            Some(host) => Some(host.copy()),
            None => None,
        };
        let revision = match &self.revision {
            Some(revision) => Some(revision.copy()),
            None => None,
        };
        CoreStatus {
            state: self.state.copy(),
            health: copy_health(&self.health),
            spec,
            controller,
            revision,
            changed_at: self.changed_at,
        }
    }
}

/// Reasons are the same exactly where they are of one kind and errors say the same;
/// then they read the same.
pub proof fn law_same_reasons(a: StopReason, b: StopReason)
    ensures
        same_stop(a, a),
        same_stop(a, b) == same_stop(b, a),
        same_stop(a, b) ==> (a is User <==> b is User) && (a is Finished <==> b is Finished)
            && stop_text(a) == stop_text(b),
        a is User && b is User ==> same_stop(a, b),
        a is Finished && b is Finished ==> same_stop(a, b),
        a is Error && b is Error && stop_text(a) == stop_text(b) ==> same_stop(a, b),
{
}

/// States that are the same are of one kind, and stopped ones stopped for the same
/// reason; a state is the same as itself.
pub proof fn law_same_states(a: CoreState, b: CoreState)
    ensures
        same_state(a, a),
        same_state(a, b) == same_state(b, a),
        same_state(a, b) && !(a is Stopped) ==> a == b,
        same_state(a, b) ==> (a is Stopped <==> b is Stopped),
        same_state(a, b) ==> (a matches CoreState::Stopped { reason: Some(x) } ==> (
        b matches CoreState::Stopped { reason: Some(y) } && same_stop(x, y))),
        same_state(a, b) ==> (a matches CoreState::Stopped { reason: None }
            ==> b matches CoreState::Stopped { reason: None }),
{
}

/// Health that is the same agrees in everything that is told of it.
pub proof fn law_same_health(a: Option<HealthStatus>, b: Option<HealthStatus>)
    ensures
        same_health(a, a),
        same_health(a, b) == same_health(b, a),
        same_health(a, b) ==> (a is Some <==> b is Some),
        a matches Some(x) ==> (b matches Some(y) ==> (same_health(a, b) <==> x.state == y.state
            && x.changed_at == y.changed_at && x.consecutive_failures == y.consecutive_failures
            && x.last_success_at == y.last_success_at && (x.last_error is Some
            <==> y.last_error is Some) && (x.last_error is Some && y.last_error is Some
            ==> x.last_error->0@ == y.last_error->0@))),
{
}

proof fn lemma_slash_separates(a: Seq<char>, b: Seq<char>, x: Seq<char>, y: Seq<char>)
    requires
        a + seq!['/'] + b == x + seq!['/'] + y,
        forall|i: int| 0 <= i < a.len() ==> #[trigger] a[i] != '/',
        forall|i: int| 0 <= i < x.len() ==> #[trigger] x[i] != '/',
    ensures
        a == x,
        b == y,
{
    let s = a + seq!['/'] + b;
    let t = x + seq!['/'] + y;
    let m = a.len() as int;
    let n = x.len() as int;
    assert(s[m] == '/' && t[n] == '/');
    if m < n {
        assert(t[m] == x[m]);
    } else if n < m {
        assert(s[n] == a[n]);
    }
    assert(m == n);
    assert forall|i: int| 0 <= i < m implies a[i] == x[i] by {
        assert(s[i] == a[i] && t[i] == x[i]);
    }
    assert(a =~= x);
    assert(s.len() == m + 1 + b.len());
    assert(t.len() == n + 1 + y.len());
    assert forall|i: int| 0 <= i < b.len() implies b[i] == y[i] by {
        assert(s[m + 1 + i] == b[i] && t[n + 1 + i] == y[i]);
    }
    assert(b =~= y);
}

proof fn lemma_decimal_has_no_slash(n: nat)
    ensures
        forall|i: int| 0 <= i < text::decimal(n).len() ==> #[trigger] text::decimal(n)[i] != '/',
{
    text::law_decimal_round_trip(n);
}

/// Two revisions print the same only where they are the same, and they are the same
/// exactly where the epoch, the generation and the hash are.
pub proof fn law_revisions_are_told_apart(a: RevisionId, b: RevisionId)
    ensures
        id_text(a) == id_text(b) <==> same_id(a, b),
        same_id(a, b) <==> a.epoch == b.epoch && a.generation == b.generation && a.effective_hash@
            == b.effective_hash@,
{
    reveal_strlit("/");
    assert("/"@.len() == 1 && "/"@[0] == '/');
    assert("/"@ =~= seq!['/']);
    if id_text(a) == id_text(b) {
        let (e, g, h) = (text::decimal(a.epoch as nat), text::decimal(a.generation as nat),
            a.effective_hash@);
        let (f, k, l) = (text::decimal(b.epoch as nat), text::decimal(b.generation as nat),
            b.effective_hash@);
        lemma_decimal_has_no_slash(a.epoch as nat);
        lemma_decimal_has_no_slash(b.epoch as nat);
        lemma_decimal_has_no_slash(a.generation as nat);
        lemma_decimal_has_no_slash(b.generation as nat);
        assert(id_text(a) =~= e + seq!['/'] + (g + seq!['/'] + h));
        assert(id_text(b) =~= f + seq!['/'] + (k + seq!['/'] + l));
        lemma_slash_separates(e, g + seq!['/'] + h, f, k + seq!['/'] + l);
        lemma_slash_separates(g, h, k, l);
        text::law_decimal_round_trip(a.epoch as nat);
        text::law_decimal_round_trip(b.epoch as nat);
        text::law_decimal_round_trip(a.generation as nat);
        text::law_decimal_round_trip(b.generation as nat);
    }
}

/// The pid of an instance that runs is told, and none of one that does not.
pub proof fn law_only_running_instances_have_a_pid(state: InstanceState)
    ensures
        state matches InstanceState::Running { pid } ==> running_pid(state) == pid,
        !(state is Running) ==> running_pid(state) == 0,
{
}

} // verus!
