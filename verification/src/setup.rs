//! Construction, one decision at a time.
//!
//! A [`Setup`] says what the host is to do next and takes what the host
//! found. The host performs; the setup decides: in which order the document
//! and the device are asked, when to stop, and what the failure is. The
//! first failure ends the construction, and nothing is asked after it.

use vstd::prelude::*;
use vstd::string::*;
use crate::command::GlCommand;
use crate::context::{
    fallback,
    first_choice,
    initial_commands,
    initial_sequence,
    next_tier,
    preferred_tier,
    WebGLVersion,
};
use crate::error::{ErrorView, RenderError, ShaderStage};
use crate::renderer::StockRenderer;
use crate::shader::{
    check_link,
    check_stage,
    link_verdict,
    stage_verdict,
    DriverReport,
    ReportView,
    ShaderProgram,
    ShaderSources,
};
use crate::surface::{
    element_verdict,
    examine_element,
    examine_shadow_match,
    shadow_verdict,
    ElementFacts,
    Resolution,
    SurfaceHandle,
};

verus! {

/// What the host is to do next.
#[derive(Clone, Copy, Debug, PartialEq, Eq, Structural)]
pub enum Request {
    /// Look the component's identifier up in the document.
    FindElement,
    /// Query the element's shadow tree for a canvas.
    QueryShadowTree,
    /// Ask the surface that stands at `surface` for a context of this tier.
    RequestContext { surface: SurfaceHandle, tier: WebGLVersion },
    /// Submit the commands that prepare the context that was obtained.
    PrepareContext,
    /// Compile the source of this stage.
    CompileStage(ShaderStage),
    /// Attach both stages to a program and link it.
    LinkProgram,
    /// Ask the program where the position attribute lives.
    LocatePosition,
    /// Submit the commands that make the linked program the current one.
    ActivateProgram,
    /// Nothing is left to do: the construction has ended.
    Nothing,
}

/// What the host found. `R` is the form in which a driver's report is held.
#[derive(Clone, Debug, PartialEq, Eq)]
pub enum Reply<R> {
    /// The element under the identifier, if there is one.
    Element(Option<ElementFacts>),
    /// Whether the query in the shadow tree matched, and if so whether the
    /// match is a drawing surface.
    ShadowMatch(Option<bool>),
    /// Whether the surface gave a context of the tier asked for.
    Context(bool),
    /// The commands were submitted.
    Done,
    /// The driver's report of a compile or of the link.
    Report(R),
    /// The location of the position attribute.
    Position(i32),
}

impl View for Reply<DriverReport> {
    type V = Reply<ReportView>;

    open spec fn view(&self) -> Reply<ReportView> {
        match self {
            Reply::Element(found) => Reply::Element(*found),
            Reply::ShadowMatch(matched) => Reply::ShadowMatch(*matched),
            Reply::Context(obtained) => Reply::Context(*obtained),
            Reply::Done => Reply::Done,
            Reply::Report(report) => Reply::Report(report@),
            Reply::Position(location) => Reply::Position(*location),
        }
    }
}

/// How far a construction has come. `E` is the form in which a failure is
/// held.
#[derive(Clone, Debug, PartialEq, Eq)]
pub enum Phase<E> {
    /// Waiting for the element under the identifier.
    Locating,
    /// Waiting for the outcome of the query in the shadow tree.
    Descending,
    /// Waiting for the surface's answer on `tier`.
    Negotiating { surface: SurfaceHandle, tier: WebGLVersion },
    /// Waiting for the initial commands to be submitted.
    Preparing { surface: SurfaceHandle, version: WebGLVersion },
    /// Waiting for the driver's report on `stage`.
    Compiling { surface: SurfaceHandle, version: WebGLVersion, stage: ShaderStage },
    /// Waiting for the driver's report on the link.
    Linking { surface: SurfaceHandle, version: WebGLVersion },
    /// Waiting for the location of the position attribute.
    Resolving { surface: SurfaceHandle, version: WebGLVersion },
    /// Waiting for the program to be made current.
    Activating { surface: SurfaceHandle, version: WebGLVersion, position: i32 },
    /// The construction succeeded.
    Ready { surface: SurfaceHandle, version: WebGLVersion, position: i32 },
    /// The construction failed.
    Failed(E),
}

impl View for Phase<RenderError> {
    type V = Phase<ErrorView>;

    open spec fn view(&self) -> Phase<ErrorView> {
        match self {
            Phase::Locating => Phase::Locating,
            Phase::Descending => Phase::Descending,
            Phase::Negotiating { surface, tier } => Phase::Negotiating {
                surface: *surface,
                tier: *tier,
            },
            Phase::Preparing { surface, version } => Phase::Preparing {
                surface: *surface,
                version: *version,
            },
            Phase::Compiling { surface, version, stage } => Phase::Compiling {
                surface: *surface,
                version: *version,
                stage: *stage,
            },
            Phase::Linking { surface, version } => Phase::Linking {
                surface: *surface,
                version: *version,
            },
            Phase::Resolving { surface, version } => Phase::Resolving {
                surface: *surface,
                version: *version,
            },
            Phase::Activating { surface, version, position } => Phase::Activating {
                surface: *surface,
                version: *version,
                position: *position,
            },
            Phase::Ready { surface, version, position } => Phase::Ready {
                surface: *surface,
                version: *version,
                position: *position,
            },
            Phase::Failed(e) => Phase::Failed(e@),
        }
    }
}

/// What a phase asks of the host.
pub open spec fn request_of(phase: Phase<ErrorView>) -> Request {
    match phase {
        Phase::Locating => Request::FindElement,
        Phase::Descending => Request::QueryShadowTree,
        Phase::Negotiating { surface, tier } => Request::RequestContext { surface, tier },
        Phase::Preparing { .. } => Request::PrepareContext,
        Phase::Compiling { stage, .. } => Request::CompileStage(stage),
        Phase::Linking { .. } => Request::LinkProgram,
        Phase::Resolving { .. } => Request::LocatePosition,
        Phase::Activating { .. } => Request::ActivateProgram,
        Phase::Ready { .. } => Request::Nothing,
        Phase::Failed(_) => Request::Nothing,
    }
}

/// The commands the host is to submit in a phase: the initial sequence on a
/// fresh context, the activation of a linked program, and none in a phase
/// that asks for something else. The tier does not enter.
pub open spec fn commands_of(phase: Phase<ErrorView>) -> Seq<GlCommand> {
    match phase {
        Phase::Preparing { .. } => initial_sequence(),
        Phase::Activating { .. } => seq![GlCommand::UseProgram],
        _ => Seq::empty(),
    }
}

/// Whether a phase is an end: success or failure.
pub open spec fn finished(phase: Phase<ErrorView>) -> bool {
    phase is Ready || phase is Failed
}

/// The phase that follows `phase` on `reply`. A reply that does not answer
/// what the phase asked leaves the phase as it is.
pub open spec fn next(phase: Phase<ErrorView>, reply: Reply<ReportView>) -> Phase<ErrorView> {
    match (phase, reply) {
        (Phase::Locating, Reply::Element(found)) => match element_verdict(found) {
            Err(e) => Phase::Failed(e),
            Ok(Resolution::Descend) => Phase::Descending,
            Ok(Resolution::Surface(surface)) => Phase::Negotiating {
                surface,
                tier: preferred_tier(),
            },
        },
        (Phase::Descending, Reply::ShadowMatch(matched)) => match shadow_verdict(matched) {
            Err(e) => Phase::Failed(e),
            Ok(surface) => Phase::Negotiating { surface, tier: preferred_tier() },
        },
        (Phase::Negotiating { surface, tier }, Reply::Context(obtained)) => if obtained {
            Phase::Preparing { surface, version: tier }
        } else {
            match next_tier(tier) {
                Some(lower) => Phase::Negotiating { surface, tier: lower },
                None => Phase::Failed(ErrorView::ContextUnavailable),
            }
        },
        (Phase::Preparing { surface, version }, Reply::Done) => Phase::Compiling {
            surface,
            version,
            stage: ShaderStage::Vertex,
        },
        (Phase::Compiling { surface, version, stage }, Reply::Report(report)) => match stage_verdict(
            stage,
            report,
        ) {
            Err(e) => Phase::Failed(e),
            Ok(_) => match stage {
                ShaderStage::Vertex => Phase::Compiling {
                    surface,
                    version,
                    stage: ShaderStage::Fragment,
                },
                ShaderStage::Fragment => Phase::Linking { surface, version },
            },
        },
        (Phase::Linking { surface, version }, Reply::Report(report)) => match link_verdict(report) {
            Err(e) => Phase::Failed(e),
            Ok(_) => Phase::Resolving { surface, version },
        },
        (Phase::Resolving { surface, version }, Reply::Position(position)) => Phase::Activating {
            surface,
            version,
            position,
        },
        (Phase::Activating { surface, version, position }, Reply::Done) => Phase::Ready {
            surface,
            version,
            position,
        },
        _ => phase,
    }
}

/// The surface and the tier of the context, once a context has been
/// obtained.
pub open spec fn context_of(phase: Phase<ErrorView>) -> Option<(SurfaceHandle, WebGLVersion)> {
    match phase {
        Phase::Preparing { surface, version } => Some((surface, version)),
        Phase::Compiling { surface, version, .. } => Some((surface, version)),
        Phase::Linking { surface, version } => Some((surface, version)),
        Phase::Resolving { surface, version } => Some((surface, version)),
        Phase::Activating { surface, version, .. } => Some((surface, version)),
        Phase::Ready { surface, version, .. } => Some((surface, version)),
        _ => None,
    }
}

/// An end is final: a construction that has ended asks for nothing, and no
/// reply moves it. In particular nothing follows the first failure.
pub proof fn lemma_end_is_final(phase: Phase<ErrorView>, reply: Reply<ReportView>)
    requires
        finished(phase),
    ensures
        request_of(phase) == Request::Nothing,
        next(phase, reply) == phase,
{
}

/// The context is fixed once it is obtained: whatever the host replies, the
/// construction goes on with the same surface and the same tier, or fails.
pub proof fn lemma_context_is_fixed(phase: Phase<ErrorView>, reply: Reply<ReportView>)
    requires
        context_of(phase) is Some,
    ensures
        next(phase, reply) is Failed || context_of(next(phase, reply)) == context_of(phase),
{
}

/// A construction in progress.
#[derive(Clone, Debug, PartialEq, Eq)]
pub struct Setup {
    component_id: String,
    sources: ShaderSources,
    phase: Phase<RenderError>,
}

impl View for Setup {
    type V = Phase<ErrorView>;

    /// The phase the construction is in.
    closed spec fn view(&self) -> Phase<ErrorView> {
        self.phase@
    }
}

impl Setup {
    /// The identifier the construction was begun with.
    pub closed spec fn identifier(&self) -> Seq<char> {
        self.component_id@
    }

    /// The source the construction was begun with for `stage`.
    pub closed spec fn stage_source(&self, stage: ShaderStage) -> Seq<char> {
        match stage {
            ShaderStage::Vertex => self.sources.vertex@,
            ShaderStage::Fragment => self.sources.fragment@,
        }
    }

    /// Begins the construction of a renderer for the component with this
    /// identifier, with these shader sources.
    pub fn begin(component_id: &str, sources: ShaderSources) -> (setup: Setup)
        ensures
            setup@ == Phase::<ErrorView>::Locating,
            setup.identifier() == component_id@,
            setup.stage_source(ShaderStage::Vertex) == sources.vertex@,
            setup.stage_source(ShaderStage::Fragment) == sources.fragment@,
    {
        Setup { component_id: component_id.to_owned(), sources, phase: Phase::Locating }
    }

    /// The identifier to look up.
    pub fn component_id(&self) -> (id: &str)
        ensures
            id@ == self.identifier(),
    {
        self.component_id.as_str()
    }

    /// The source to compile for `stage`.
    pub fn source(&self, stage: ShaderStage) -> (text: &str)
        ensures
            text@ == self.stage_source(stage),
    {
        match stage {
            ShaderStage::Vertex => self.sources.vertex.as_str(),
            ShaderStage::Fragment => self.sources.fragment.as_str(),
        }
    }

    /// What the host is to do next.
    pub fn request(&self) -> (request: Request)
        ensures
            request == request_of(self@),
    {
        match &self.phase {
            Phase::Locating => Request::FindElement,
            Phase::Descending => Request::QueryShadowTree,
            Phase::Negotiating { surface, tier } => Request::RequestContext {
                surface: *surface,
                tier: *tier,
            },
            Phase::Preparing { .. } => Request::PrepareContext,
            Phase::Compiling { stage, .. } => Request::CompileStage(*stage),
            Phase::Linking { .. } => Request::LinkProgram,
            Phase::Resolving { .. } => Request::LocatePosition,
            Phase::Activating { .. } => Request::ActivateProgram,
            Phase::Ready { .. } => Request::Nothing,
            Phase::Failed(_) => Request::Nothing,
        }
    }

    /// The commands to submit for the pending request, in order. There are
    /// some exactly for `PrepareContext` and `ActivateProgram`.
    pub fn commands(&self) -> (commands: Vec<GlCommand>)
        ensures
            commands@ == commands_of(self@),
    {
        match &self.phase {
            Phase::Preparing { .. } => initial_commands(),
            Phase::Activating { .. } => {
                let mut commands: Vec<GlCommand> = Vec::new();
                commands.push(GlCommand::UseProgram);
                assert(commands@ =~= seq![GlCommand::UseProgram]);
                commands
            },
            _ => {
                let commands: Vec<GlCommand> = Vec::new();
                assert(commands@ =~= Seq::<GlCommand>::empty());
                commands
            },
        }
    }

    /// Whether the construction has ended, in success or in failure.
    pub fn is_finished(&self) -> (done: bool)
        ensures
            done == finished(self@),
    {
        match &self.phase {
            Phase::Ready { .. } => true,
            Phase::Failed(_) => true,
            _ => false,
        }
    }

    /// Takes what the host found and moves on. A reply that does not answer
    /// the pending request changes nothing.
    pub fn advance(&mut self, reply: Reply<DriverReport>)
        ensures
            final(self)@ == next(old(self)@, reply@),
            final(self).identifier() == old(self).identifier(),
            final(self).stage_source(ShaderStage::Vertex) == old(self).stage_source(
                ShaderStage::Vertex,
            ),
            final(self).stage_source(ShaderStage::Fragment) == old(self).stage_source(
                ShaderStage::Fragment,
            ),
    {
        let moved: Option<Phase<RenderError>> = match (&self.phase, reply) {
            (Phase::Locating, Reply::Element(found)) => Some(
                match examine_element(found) {
                    Err(e) => Phase::Failed(e),
                    Ok(Resolution::Descend) => Phase::Descending,
                    Ok(Resolution::Surface(surface)) => Phase::Negotiating {
                        surface,
                        tier: first_choice(),
                    },
                },
            ),
            (Phase::Descending, Reply::ShadowMatch(matched)) => Some(
                match examine_shadow_match(matched) {
                    Err(e) => Phase::Failed(e),
                    Ok(surface) => Phase::Negotiating { surface, tier: first_choice() },
                },
            ),
            (Phase::Negotiating { surface, tier }, Reply::Context(obtained)) => Some(
                if obtained {
                    Phase::Preparing { surface: *surface, version: *tier }
                } else {
                    match fallback(*tier) {
                        Some(lower) => Phase::Negotiating { surface: *surface, tier: lower },
                        None => Phase::Failed(RenderError::ContextUnavailable),
                    }
                },
            ),
            (Phase::Preparing { surface, version }, Reply::Done) => Some(
                Phase::Compiling {
                    surface: *surface,
                    version: *version,
                    stage: ShaderStage::Vertex,
                },
            ),
            (Phase::Compiling { surface, version, stage }, Reply::Report(report)) => Some(
                match check_stage(*stage, report) {
                    Err(e) => Phase::Failed(e),
                    Ok(_) => match stage {
                        ShaderStage::Vertex => Phase::Compiling {
                            surface: *surface,
                            version: *version,
                            stage: ShaderStage::Fragment,
                        },
                        ShaderStage::Fragment => Phase::Linking {
                            surface: *surface,
                            version: *version,
                        },
                    },
                },
            ),
            (Phase::Linking { surface, version }, Reply::Report(report)) => Some(
                match check_link(report) {
                    Err(e) => Phase::Failed(e),
                    Ok(_) => Phase::Resolving { surface: *surface, version: *version },
                },
            ),
            (Phase::Resolving { surface, version }, Reply::Position(position)) => Some(
                Phase::Activating { surface: *surface, version: *version, position },
            ),
            (Phase::Activating { surface, version, position }, Reply::Done) => Some(
                Phase::Ready { surface: *surface, version: *version, position: *position },
            ),
            _ => None,
        };
        match moved {
            Some(phase) => {
                self.phase = phase;
            },
            None => {},
        }
    }

    /// The outcome of the construction: `None` while it has not ended, the
    /// renderer where it succeeded, the failure where it failed.
    pub fn outcome(self) -> (result: Option<Result<StockRenderer, RenderError>>)
        ensures
            result is None <==> !finished(self@),
            result matches Some(Ok(renderer)) ==> self@ == (Phase::<ErrorView>::Ready {
                surface: renderer@.surface,
                version: renderer@.version,
                position: renderer@.program.position,
            }),
            result matches Some(Err(e)) ==> self@ == Phase::<ErrorView>::Failed(e@),
    {
        match self.phase {
            Phase::Ready { surface, version, position } => Some(
                Ok(StockRenderer::assemble(surface, version, ShaderProgram { position })),
            ),
            Phase::Failed(e) => Some(Err(e)),
            _ => None,
        }
    }
}

} // verus!
