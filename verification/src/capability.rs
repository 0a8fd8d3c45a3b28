//! What a core can do, and what of it the manager uses.

use vstd::prelude::*;
use vstd::string::*;

use crate::config::clash;
use crate::config::clash::local_transport_feature;
use crate::error::Error;
use crate::metadata::feature;
use crate::metadata::feature::{CoreVersion, FeatureSet, FeatureSupport};
use crate::platform::Platform;
use crate::spec;
use crate::spec::{CoreSpec, LocalIpcPolicy};
use crate::state::RuntimeFeatures;

verus! {

/// Functionality that the manager enabled for an epoch.
#[derive(Debug, Clone, Copy, PartialEq, Eq, Structural)]
pub enum RuntimeFeature {
    /// The control channel is a local endpoint that the manager owns.
    LocalIpc,
}

/// What is known of a core, and what of it the manager uses.
#[derive(Debug)]
pub struct ResolvedFeatures {
    pub capabilities: FeatureSet,
    pub runtime: RuntimeFeatures,
    pub version: Option<String>,
}

/// Whether a core of this version surely has the local transport.
pub open spec fn local_transport(
    core: CoreSpec,
    version: Option<Seq<char>>,
    platform: Platform,
) -> bool {
    feature::support_of(
        core.kind,
        clash::transport_feature(platform),
        match version {
            Some(raw) => Some(feature::core_version(raw)),
            None => None,
        },
    ) is Yes
}

/// The version of a core: the given one, or else the one that was asked for.
pub open spec fn version_of(core: CoreSpec, probed: Option<String>) -> Option<Seq<char>> {
    match core.version {
        Some(v) => Some(v@),
        None => spec::maybe_text(probed),
    }
}

/// What the policy makes of a core.
pub open spec fn features_outcome(
    core: CoreSpec,
    probed: Option<String>,
    policy: LocalIpcPolicy,
    platform: Platform,
    r: Result<ResolvedFeatures, Error>,
) -> bool {
    let version = version_of(core, probed);
    let local = local_transport(core, version, platform);
    if policy is Force && !local {
        r matches Err(Error::InvalidManagerOptions(m)) && m@
            == "local IPC is required, but the core does not support it"@
    } else {
        r matches Ok(f) && {
            &&& spec::maybe_text(f.version) == version
            &&& f.runtime.local_ipc == (local && !(policy is Disable))
            &&& forall|x: feature::Feature|
                #[trigger] f.capabilities.has_feature(x) == (feature::support_of(
                    core.kind,
                    x,
                    match version {
                        Some(raw) => Some(feature::core_version(raw)),
                        None => None,
                    },
                ) is Yes)
        }
    }
}

pub fn resolve_features(
    core: &CoreSpec,
    probed: Option<String>,
    policy: LocalIpcPolicy,
    platform: Platform,
) -> (r: Result<ResolvedFeatures, Error>)
    ensures
        features_outcome(*core, probed, policy, platform, r),
{
    let version = match &core.version {
        Some(version) => Some(version.clone()),
        None => probed,
    };
    let parsed = match &version {
        Some(raw) => Some(CoreVersion::parse(raw.as_str())),
        None => None,
    };
    let known = match &parsed {
        Some(parsed) => Some(parsed),
        None => None,
    };
    let capabilities = core.kind.features(known);
    let local = capabilities.contains(local_transport_feature(platform));
    if matches!(policy, LocalIpcPolicy::Force) && !local {
        return Err(
            Error::InvalidManagerOptions(
                "local IPC is required, but the core does not support it".to_owned(),
            ),
        );
    }
    let local_ipc = local && !matches!(policy, LocalIpcPolicy::Disable);
    Ok(ResolvedFeatures { capabilities, runtime: RuntimeFeatures { local_ipc }, version })
}

/// A manager that never rewrites the controller enables no local endpoint, and one
/// that requires it enables it or fails.
pub proof fn law_policy_decides_local_ipc(
    core: CoreSpec,
    probed: Option<String>,
    policy: LocalIpcPolicy,
    platform: Platform,
    r: Result<ResolvedFeatures, Error>,
)
    requires
        features_outcome(core, probed, policy, platform, r),
    ensures
        policy is Disable ==> (r matches Ok(f) && !f.runtime.local_ipc),
        policy is Force && r is Ok ==> r->Ok_0.runtime.local_ipc,
        policy is Prefer ==> r is Ok,
{
}

/// A local endpoint is enabled where the core surely has its transport and the
/// policy lets it: not by force, but never against the policy.
pub proof fn law_local_ipc_is_used_where_it_is_there(
    core: CoreSpec,
    probed: Option<String>,
    policy: LocalIpcPolicy,
    platform: Platform,
    r: Result<ResolvedFeatures, Error>,
)
    requires
        features_outcome(core, probed, policy, platform, r),
    ensures
        ({
            let version = match (core.version, probed) {
                (Some(v), _) => Some(feature::core_version(v@)),
                (None, Some(v)) => Some(feature::core_version(v@)),
                (None, None) => None,
            };
            let transport = if platform is Windows {
                feature::Feature::NamedPipeIpc
            } else {
                feature::Feature::UnixSocketIpc
            };
            let there = feature::support_of(core.kind, transport, version) is Yes;
            &&& r is Err <==> policy is Force && !there
            &&& r matches Ok(f) ==> (f.runtime.local_ipc <==> there && !(policy is Disable))
            &&& r matches Ok(f) ==> f.capabilities.has_feature(transport) == there
        }),
{
}

/// A version that is given is believed; one that was asked for counts only where
/// none is given.
pub proof fn law_given_versions_are_believed(
    core: CoreSpec,
    probed: Option<String>,
    policy: LocalIpcPolicy,
    platform: Platform,
    r: Result<ResolvedFeatures, Error>,
)
    requires
        features_outcome(core, probed, policy, platform, r),
        r is Ok,
    ensures
        core.version matches Some(given) ==> (r->Ok_0.version matches Some(v) && v@ == given@),
        core.version is None ==> (probed matches Some(asked) ==> (
        r->Ok_0.version matches Some(v) && v@ == asked@)),
        core.version is None && probed is None ==> r->Ok_0.version is None,
{
}

} // verus!
