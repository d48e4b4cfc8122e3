//! The renderer: one surface, one context tier, one program, fixed for its
//! lifetime, and the frames it plans.

use vstd::prelude::*;
use crate::command::GlCommand;
use crate::context::WebGLVersion;
use crate::error::{ErrorView, RenderError};
use crate::geometry::{map_to_geometry, vertex_coordinates, VertexBuffer};
use crate::host::{completed, constructed, lemma_setup_follows_policy, remaining, Host};
use crate::sample::ticks_of;
use crate::setup::{commands_of, Phase, Setup};
use crate::shader::{DriverReport, ReportView, ShaderProgram, ShaderSources};
use crate::surface::{located, SurfaceHandle};
use vstd::pervasive::unreached;

verus! {

/// A renderer that is ready to draw. There is no other kind: a construction
/// that fails leaves none behind.
#[derive(Clone, Debug, PartialEq, Eq)]
pub struct StockRenderer {
    surface: SurfaceHandle,
    version: WebGLVersion,
    program: ShaderProgram,
}

/// What a renderer holds.
pub struct RendererView {
    pub surface: SurfaceHandle,
    pub version: WebGLVersion,
    pub program: ShaderProgram,
}

impl View for StockRenderer {
    type V = RendererView;

    closed spec fn view(&self) -> RendererView {
        RendererView { surface: self.surface, version: self.version, program: self.program }
    }
}

/// What one call of `render_graph` hands to the host.
#[derive(Debug, PartialEq, Eq)]
pub struct Frame {
    /// The commands that every frame starts with.
    pub prelude: Vec<GlCommand>,
    /// The vertex data of the frame, empty where there is nothing to draw.
    pub vertices: VertexBuffer,
    /// The location of the position attribute in the renderer's program.
    pub position: i32,
}

/// The mathematical content of a [`Frame`].
pub struct FrameView {
    pub prelude: Seq<GlCommand>,
    pub vertices: Seq<(int, int)>,
    pub position: i32,
}

impl View for Frame {
    type V = FrameView;

    open spec fn view(&self) -> FrameView {
        FrameView { prelude: self.prelude@, vertices: self.vertices@, position: self.position }
    }
}

/// The outcome of a construction, renderer and failure taken by their views.
pub open spec fn outcome_view(result: Result<StockRenderer, RenderError>) -> Result<
    RendererView,
    ErrorView,
> {
    match result {
        Ok(renderer) => Ok(renderer@),
        Err(e) => Err(e@),
    }
}

/// The frame a renderer plans for a series on a surface of the given size:
/// clear and viewport, then the mapped series. The tier of the renderer's
/// context does not enter.
pub open spec fn planned(renderer: RendererView, prices: Seq<u32>, width: u32, height: u32) -> FrameView {
    FrameView {
        prelude: frame_prelude(width, height),
        vertices: vertex_coordinates(ticks_of(prices)),
        position: renderer.program.position,
    }
}

/// The commands that every frame starts with: clear the color buffer, then
/// set the viewport to the given size.
pub open spec fn frame_prelude(width: u32, height: u32) -> Seq<GlCommand> {
    seq![GlCommand::ClearColorBuffer, GlCommand::Viewport { width, height }]
}

/// The commands that draw a frame of `coordinates` coordinates, once the
/// device has been asked for a buffer.
///
/// - Nothing to draw: no command, whatever the device answered.
/// - A buffer was given: bind it, upload, bind the position attribute, and
///   draw one vertex per sample as a connected line.
/// - No buffer was given: `BufferAllocationError`, and no command.
pub open spec fn drawing(coordinates: nat, position: i32, allocated: bool) -> Result<
    Seq<GlCommand>,
    ErrorView,
> {
    if coordinates == 0 {
        Ok(Seq::empty())
    } else if allocated {
        Ok(
            seq![
                GlCommand::BindVertexBuffer,
                GlCommand::UploadVertices,
                GlCommand::BindPosition { location: position },
                GlCommand::DrawLineStrip { count: (coordinates / 2) as usize },
            ],
        )
    } else {
        Err(ErrorView::BufferAllocationError)
    }
}

impl StockRenderer {
    /// Puts a renderer together from the parts a construction arrived at.
    pub(crate) fn assemble(
        surface: SurfaceHandle,
        version: WebGLVersion,
        program: ShaderProgram,
    ) -> (renderer: StockRenderer)
        ensures
            renderer@ == (RendererView { surface, version, program }),
    {
        StockRenderer { surface, version, program }
    }

    /// Constructs a renderer for the component with this identifier on a
    /// host that is described by its answers, with the default shaders.
    ///
    /// The construction asks the host as a [`Setup`] directs and stops at
    /// the first failure. It succeeds exactly when the surface resolves, one
    /// of the two tiers is offered, and both stages and the link succeed;
    /// the renderer then has the higher tier wherever that is offered.
    pub fn new(component_id: &str, host: &Host<DriverReport>) -> (result: Result<
        StockRenderer,
        RenderError,
    >)
        ensures
            outcome_view(result) == constructed(host@),
            result is Ok <==> (located(host.element, host.shadow_match) is Ok && (host.webgl2
                || host.webgl1) && host.vertex@ is Success && host.fragment@ is Success
                && host.link@ is Success),
            result matches Ok(renderer) ==> renderer@.version == (if host.webgl2 {
                WebGLVersion::WebGL2
            } else {
                WebGLVersion::WebGL1
            }),
            outcome_view(result) == Err::<RendererView, ErrorView>(ErrorView::ElementNotFound) <==> (
            host.element is None || (host.element matches Some(facts) && facts.has_shadow_root
                && host.shadow_match is None)),
            outcome_view(result) == Err::<RendererView, ErrorView>(ErrorView::ContextUnavailable)
                <==> (located(host.element, host.shadow_match) is Ok && !host.webgl2
                && !host.webgl1),
    {
        let mut setup = Setup::begin(component_id, ShaderSources::defaults());
        proof {
            lemma_setup_follows_policy(host@);
        }
        while !setup.is_finished()
            invariant
                completed(setup@, host@) == completed(Phase::Locating, host@),
            decreases remaining(setup@),
        {
            let request = setup.request();
            let reply = host.answer(request);
            setup.advance(reply);
        }
        match setup.outcome() {
            Some(result) => result,
            None => unreached(),
        }
    }

    /// Where the drawing surface stands.
    pub fn surface(&self) -> (surface: SurfaceHandle)
        ensures
            surface == self@.surface,
    {
        self.surface
    }

    /// The tier of the context the renderer draws with.
    pub fn version(&self) -> (version: WebGLVersion)
        ensures
            version == self@.version,
    {
        self.version
    }

    /// What is kept of the linked program.
    pub fn program(&self) -> (program: ShaderProgram)
        ensures
            program == self@.program,
    {
        self.program
    }

    /// Plans one frame for `prices`, given as the bit patterns of the
    /// samples, on a surface of `width` by `height` pixels. The frame starts
    /// with clear and viewport; its vertex data is the mapped series, which
    /// is empty exactly for the empty series. The tier of the context plays
    /// no part.
    pub fn render_graph(&self, prices: &Vec<u32>, width: u32, height: u32) -> (frame: Frame)
        ensures
            frame@ == planned(self@, prices@, width, height),
            frame.vertices@.len() == 2 * prices@.len(),
    {
        let mut prelude: Vec<GlCommand> = Vec::new();
        prelude.push(GlCommand::ClearColorBuffer);
        prelude.push(GlCommand::Viewport { width, height });
        assert(prelude@ =~= frame_prelude(width, height));
        Frame { prelude, vertices: map_to_geometry(prices, width, height), position: self.program.position }
    }
}

impl Frame {
    /// Whether the host is to ask the device for a buffer: exactly when
    /// there is something to draw.
    pub fn needs_buffer(&self) -> (needed: bool)
        ensures
            needed <==> self.vertices@.len() > 0,
    {
        !self.vertices.is_empty()
    }

    /// The commands that draw the frame, given whether the device gave a
    /// buffer. A frame with nothing to draw has none. Where the device gave
    /// no buffer the frame stays at its prelude and the failure is handed
    /// back for the host to report.
    pub fn draw_commands(&self, buffer_allocated: bool) -> (result: Result<Vec<GlCommand>, RenderError>)
        ensures
            result matches Ok(commands) ==> drawing(
                self.vertices@.len(),
                self.position,
                buffer_allocated,
            ) == Ok::<Seq<GlCommand>, ErrorView>(commands@),
            result matches Err(e) ==> drawing(self.vertices@.len(), self.position, buffer_allocated)
                == Err::<Seq<GlCommand>, ErrorView>(e@),
            result is Err <==> (self.vertices@.len() > 0 && !buffer_allocated),
    {
        let mut commands: Vec<GlCommand> = Vec::new();
        if self.vertices.is_empty() {
            assert(commands@ =~= Seq::<GlCommand>::empty());
            Ok(commands)
        } else if buffer_allocated {
            commands.push(GlCommand::BindVertexBuffer);
            commands.push(GlCommand::UploadVertices);
            commands.push(GlCommand::BindPosition { location: self.position });
            commands.push(GlCommand::DrawLineStrip { count: self.vertices.vertex_count() });
            assert(commands@ =~= drawing(self.vertices@.len(), self.position, true)->Ok_0);
            Ok(commands)
        } else {
            Err(RenderError::BufferAllocationError)
        }
    }
}

/// A frame for the empty series is clear and viewport and nothing else: it
/// has no vertex, asks for no buffer, and draws nothing whatever the device
/// would have answered.
pub proof fn lemma_empty_series_is_clear_only(
    renderer: RendererView,
    width: u32,
    height: u32,
    allocated: bool,
)
    ensures
        planned(renderer, Seq::<u32>::empty(), width, height).prelude == seq![
            GlCommand::ClearColorBuffer,
            GlCommand::Viewport { width, height },
        ],
        planned(renderer, Seq::<u32>::empty(), width, height).vertices.len() == 0,
        drawing(
            planned(renderer, Seq::<u32>::empty(), width, height).vertices.len(),
            renderer.program.position,
            allocated,
        ) == Ok::<Seq<GlCommand>, ErrorView>(Seq::empty()),
{
}

/// A host that offers only the lower tier is as good as one that offers the
/// higher tier: on two hosts of which the one offers the lower tier alone,
/// the other the higher tier, and which answer alike in everything else,
/// construction succeeds on the one exactly when it does on the other and
/// fails with the same error. Where it succeeds, the two renderers differ
/// in nothing but the tier, their contexts were prepared by the same
/// commands, and they plan the same frame for every series and size.
pub proof fn lemma_tier_is_transparent(
    lower: Host<ReportView>,
    upper: Host<ReportView>,
    prices: Seq<u32>,
    width: u32,
    height: u32,
)
    requires
        lower.webgl1 && !lower.webgl2,
        upper.webgl2,
        lower.element == upper.element,
        lower.shadow_match == upper.shadow_match,
        lower.vertex == upper.vertex,
        lower.fragment == upper.fragment,
        lower.link == upper.link,
        lower.position == upper.position,
    ensures
        constructed(lower) is Ok <==> constructed(upper) is Ok,
        constructed(lower) matches Err(e) ==> constructed(upper) == Err::<RendererView, ErrorView>(
            e,
        ),
        constructed(lower) matches Ok(low) ==> (constructed(upper) matches Ok(high) && low.version
            == WebGLVersion::WebGL1 && high.version == WebGLVersion::WebGL2 && low.surface
            == high.surface && low.program == high.program && commands_of(
            Phase::Preparing { surface: low.surface, version: low.version },
        ) == commands_of(Phase::Preparing { surface: high.surface, version: high.version })
            && planned(low, prices, width, height) == planned(high, prices, width, height)),
{
}

} // verus!
