//! A host described by its answers.
//!
//! A [`Host`] holds what a document and a device would answer to each
//! request of a construction. Constructing against one needs no browser: it
//! serves dry runs, and it states what a construction comes to on every
//! possible host.

use vstd::prelude::*;
use crate::context::{negotiated, WebGLVersion};
use crate::error::{ErrorView, ShaderStage};
use crate::renderer::RendererView;
use crate::setup::{finished, next, request_of, Phase, Reply, Request};
use crate::shader::{built, DriverReport, ReportView};
use crate::surface::{located, ElementFacts};

verus! {

/// What a host answers. `R` is the form in which a driver's report is held.
#[derive(Clone, Debug, PartialEq, Eq)]
pub struct Host<R> {
    /// The element under the identifier, if there is one.
    pub element: Option<ElementFacts>,
    /// What a query for a canvas in that element's shadow tree gives:
    /// nothing, or a match that is or is not a drawing surface.
    pub shadow_match: Option<bool>,
    /// Whether the surface gives a context of the higher tier.
    pub webgl2: bool,
    /// Whether the surface gives a context of the lower tier.
    pub webgl1: bool,
    /// The driver's report on the vertex stage.
    pub vertex: R,
    /// The driver's report on the fragment stage.
    pub fragment: R,
    /// The driver's report on the link.
    pub link: R,
    /// The location of the position attribute in the linked program.
    pub position: i32,
}

impl View for Host<DriverReport> {
    type V = Host<ReportView>;

    open spec fn view(&self) -> Host<ReportView> {
        Host {
            element: self.element,
            shadow_match: self.shadow_match,
            webgl2: self.webgl2,
            webgl1: self.webgl1,
            vertex: self.vertex@,
            fragment: self.fragment@,
            link: self.link@,
            position: self.position,
        }
    }
}

/// What the host answers to `request`.
pub open spec fn answer_of(host: Host<ReportView>, request: Request) -> Reply<ReportView> {
    match request {
        Request::FindElement => Reply::Element(host.element),
        Request::QueryShadowTree => Reply::ShadowMatch(host.shadow_match),
        Request::RequestContext { tier: WebGLVersion::WebGL2, .. } => Reply::Context(host.webgl2),
        Request::RequestContext { tier: WebGLVersion::WebGL1, .. } => Reply::Context(host.webgl1),
        Request::PrepareContext => Reply::Done,
        Request::CompileStage(ShaderStage::Vertex) => Reply::Report(host.vertex),
        Request::CompileStage(ShaderStage::Fragment) => Reply::Report(host.fragment),
        Request::LinkProgram => Reply::Report(host.link),
        Request::LocatePosition => Reply::Position(host.position),
        Request::ActivateProgram => Reply::Done,
        Request::Nothing => Reply::Done,
    }
}

/// What a construction on this host comes to: the surface is resolved, then
/// the tier is negotiated, then the program is built, and the first of the
/// three that fails is the outcome.
pub open spec fn constructed(host: Host<ReportView>) -> Result<RendererView, ErrorView> {
    match located(host.element, host.shadow_match) {
        Err(e) => Err(e),
        Ok(surface) => match negotiated(host.webgl2, host.webgl1) {
            Err(e) => Err(e),
            Ok(version) => match built(host.vertex, host.fragment, host.link, host.position) {
                Err(e) => Err(e),
                Ok(program) => Ok(RendererView { surface, version, program }),
            },
        },
    }
}

/// The most requests a construction in this phase still makes.
pub open spec fn remaining(phase: Phase<ErrorView>) -> nat {
    match phase {
        Phase::Locating => 10,
        Phase::Descending => 9,
        Phase::Negotiating { tier: WebGLVersion::WebGL2, .. } => 8,
        Phase::Negotiating { tier: WebGLVersion::WebGL1, .. } => 7,
        Phase::Preparing { .. } => 6,
        Phase::Compiling { stage: ShaderStage::Vertex, .. } => 5,
        Phase::Compiling { stage: ShaderStage::Fragment, .. } => 4,
        Phase::Linking { .. } => 3,
        Phase::Resolving { .. } => 2,
        Phase::Activating { .. } => 1,
        Phase::Ready { .. } => 0,
        Phase::Failed(_) => 0,
    }
}

/// The phase in which a construction that stands at `phase` ends on this
/// host.
pub open spec fn completed(phase: Phase<ErrorView>, host: Host<ReportView>) -> Phase<ErrorView>
    decreases remaining(phase),
{
    if finished(phase) {
        phase
    } else {
        completed(next(phase, answer_of(host, request_of(phase))), host)
    }
}

/// The end phase that stands for an outcome.
pub open spec fn ending(outcome: Result<RendererView, ErrorView>) -> Phase<ErrorView> {
    match outcome {
        Ok(renderer) => Phase::Ready {
            surface: renderer.surface,
            version: renderer.version,
            position: renderer.program.position,
        },
        Err(e) => Phase::Failed(e),
    }
}

/// Each answer of a host brings a construction that has not ended closer to
/// its end.
pub proof fn lemma_every_answer_advances(phase: Phase<ErrorView>, host: Host<ReportView>)
    requires
        !finished(phase),
    ensures
        remaining(next(phase, answer_of(host, request_of(phase)))) < remaining(phase),
{
}

/// A construction that is driven by a host's answers ends, and it ends in
/// what `constructed` says of that host: the order of the requests and the
/// stop at the first failure are those of the three steps in turn.
pub proof fn lemma_setup_follows_policy(host: Host<ReportView>)
    ensures
        completed(Phase::Locating, host) == ending(constructed(host)),
{
    reveal_with_fuel(completed, 11);
}

impl Host<DriverReport> {
    /// What the host answers to `request`.
    pub fn answer(&self, request: Request) -> (reply: Reply<DriverReport>)
        ensures
            reply@ == answer_of(self@, request),
    {
        match request {
            Request::FindElement => Reply::Element(self.element),
            Request::QueryShadowTree => Reply::ShadowMatch(self.shadow_match),
            Request::RequestContext { tier: WebGLVersion::WebGL2, .. } => Reply::Context(
                self.webgl2,
            ),
            Request::RequestContext { tier: WebGLVersion::WebGL1, .. } => Reply::Context(
                self.webgl1,
            ),
            Request::PrepareContext => Reply::Done,
            Request::CompileStage(ShaderStage::Vertex) => Reply::Report(self.vertex.duplicate()),
            Request::CompileStage(ShaderStage::Fragment) => Reply::Report(self.fragment.duplicate()),
            Request::LinkProgram => Reply::Report(self.link.duplicate()),
            Request::LocatePosition => Reply::Position(self.position),
            Request::ActivateProgram => Reply::Done,
            Request::Nothing => Reply::Done,
        }
    }
}

} // verus!
