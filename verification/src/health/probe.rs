//! Probes of a core: what they are asked and what they answer.

use std::sync::Arc;

use vstd::prelude::*;
use vstd::string::*;

use crate::clash_api::client::Client;
use crate::clash_api::error as api;
use crate::clash_api::error::Error as ApiError;
use crate::spec::ResolvedController;

verus! {

#[non_exhaustive]
#[derive(Debug, PartialEq, Eq)]
pub enum ProbeResult {
    Healthy,
    Unhealthy { detail: Option<String> },
}

impl ProbeResult {
    pub fn is_healthy(&self) -> (r: bool)
        ensures
            r == (self is Healthy),
    {
        matches!(self, ProbeResult::Healthy)
    }

    pub fn copy(&self) -> (r: ProbeResult)
        ensures
            r == *self,
    {
        match self {
            ProbeResult::Healthy => ProbeResult::Healthy,
            ProbeResult::Unhealthy { detail: None } => ProbeResult::Unhealthy { detail: None },
            ProbeResult::Unhealthy { detail: Some(detail) } => ProbeResult::Unhealthy {
                detail: Some(detail.clone()),
            },
        }
    }

    /// An unhealthy answer that says why.
    pub fn unhealthy(detail: &str) -> (r: ProbeResult)
        ensures
            says(r, detail@),
    {
        ProbeResult::Unhealthy { detail: Some(detail.to_owned()) }
    }
}

/// An unhealthy answer with the given words.
pub open spec fn says(r: ProbeResult, words: Seq<char>) -> bool {
    r matches ProbeResult::Unhealthy { detail: Some(detail) } && detail@ == words
}

#[non_exhaustive]
#[derive(Debug, Clone, Copy, PartialEq, Eq, Structural)]
pub enum ProbePhase {
    Readiness,
    Liveness,
    Reconcile,
}

/// What one attempt of a probe is told. It is never printed: the controller may
/// carry a secret.
pub struct ProbeContext {
    pub epoch: u64,
    pub pid: u32,
    pub phase: ProbePhase,
    pub controller: Arc<ResolvedController>,
}

/// The name of a probe. It is all that is printed of one.
#[derive(PartialEq, Eq)]
pub struct ProbeHandle {
    label: String,
}

/// How the standard library prints a text for debugging: in quotes, and escaped.
pub uninterp spec fn quoted_text(s: Seq<char>) -> Seq<char>;

/// `{:?}` of a text. It is a function of the text alone; which characters are
/// escaped, and how, is not said.
#[verifier::external_body]
fn quote(s: &str) -> (r: String)
    ensures
        r@ == quoted_text(s@),
{
    format!("{:?}", s)
}

impl ProbeHandle {
    pub closed spec fn name(&self) -> Seq<char> {
        self.label@
    }

    pub fn new(label: &str) -> (r: ProbeHandle)
        ensures
            r.name() == label@,
    {
        ProbeHandle { label: label.to_owned() }
    }

    pub fn label(&self) -> (r: &str)
        ensures
            r@ == self.name(),
    {
        self.label.as_str()
    }

    pub fn copy(&self) -> (r: ProbeHandle)
        ensures
            r == *self,
    {
        ProbeHandle { label: self.label.clone() }
    }

    /// What stands for the probe wherever it would be printed: its label, quoted.
    pub fn debug_text(&self) -> (r: String)
        ensures
            r@ == "ProbeHandle { label: "@ + quoted_text(self.name()) + " }"@,
    {
        let mut out = "ProbeHandle { label: ".to_owned();
        out.append(quote(self.label.as_str()).as_str());
        out.append(" }");
        out
    }
}

/// Default readiness probe: healthy when the controller answers `/version`.
pub struct ControllerVersionProbe {
    client: Client,
}

impl ControllerVersionProbe {
    pub closed spec fn view(&self) -> Client {
        self.client
    }

    /// A probe of a controller, asked with the secret of that controller.
    pub fn new(controller: &ResolvedController) -> (r: ControllerVersionProbe)
        ensures
            r@.endpoint() == controller.host,
            r@.key() == controller.key(),
    {
        ControllerVersionProbe { client: controller.client() }
    }

    pub fn client(&self) -> (r: &Client)
        ensures
            *r == self@,
    {
        &self.client
    }

    /// What the answer to `/version` says of the core.
    pub fn judge(answer: Result<(), ApiError>) -> (r: ProbeResult)
        ensures
            match answer {
                Ok(()) => r is Healthy,
                Err(e) => says(r, api::api_error_text(e)),
            },
    {
        match answer {
            Ok(()) => ProbeResult::Healthy,
            Err(e) => ProbeResult::Unhealthy { detail: Some(e.message()) },
        }
    }
}

} // verus!
