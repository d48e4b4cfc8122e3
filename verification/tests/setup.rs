use stock_renderer::command::GlCommand;
use stock_renderer::context::{initial_commands, WebGLVersion};
use stock_renderer::error::{RenderError, ShaderStage};
use stock_renderer::setup::{Reply, Request, Setup};
use stock_renderer::shader::{DriverReport, ShaderProgram, ShaderSources};
use stock_renderer::surface::{ElementFacts, SurfaceHandle};

fn begin() -> Setup {
    Setup::begin("chart", ShaderSources::defaults())
}

fn shadow_host() -> Reply<DriverReport> {
    Reply::Element(Some(ElementFacts { is_canvas: false, has_shadow_root: true }))
}

fn bare_canvas() -> Reply<DriverReport> {
    Reply::Element(Some(ElementFacts { is_canvas: true, has_shadow_root: false }))
}

fn drive(setup: &mut Setup, replies: Vec<Reply<DriverReport>>) -> Vec<Request> {
    let mut asked = Vec::new();
    for reply in replies {
        asked.push(setup.request());
        setup.advance(reply);
    }
    asked
}

#[test]
fn a_setup_starts_by_looking_for_the_element() {
    let setup = begin();
    assert_eq!(setup.component_id(), "chart");
    assert_eq!(setup.request(), Request::FindElement);
    assert!(!setup.is_finished());
    assert!(setup.commands().is_empty());
    assert_eq!(setup.outcome(), None);
}

#[test]
fn a_setup_hands_out_the_sources_it_was_given() {
    let sources = ShaderSources { vertex: String::from("v-src"), fragment: String::from("f-src") };
    let setup = Setup::begin("x", sources);
    assert_eq!(setup.source(ShaderStage::Vertex), "v-src");
    assert_eq!(setup.source(ShaderStage::Fragment), "f-src");
}

#[test]
fn the_full_sequence_through_a_shadow_tree() {
    let mut setup = begin();
    let asked = drive(
        &mut setup,
        vec![
            shadow_host(),
            Reply::ShadowMatch(Some(true)),
            Reply::Context(true),
            Reply::Done,
            Reply::Report(DriverReport::Success),
            Reply::Report(DriverReport::Success),
            Reply::Report(DriverReport::Success),
            Reply::Position(0),
            Reply::Done,
        ],
    );
    assert_eq!(
        asked,
        vec![
            Request::FindElement,
            Request::QueryShadowTree,
            Request::RequestContext { surface: SurfaceHandle::ShadowCanvas, tier: WebGLVersion::WebGL2 },
            Request::PrepareContext,
            Request::CompileStage(ShaderStage::Vertex),
            Request::CompileStage(ShaderStage::Fragment),
            Request::LinkProgram,
            Request::LocatePosition,
            Request::ActivateProgram,
        ]
    );
    assert!(setup.is_finished());
    assert_eq!(setup.request(), Request::Nothing);
    let renderer = setup.outcome().unwrap().unwrap();
    assert_eq!(renderer.surface(), SurfaceHandle::ShadowCanvas);
    assert_eq!(renderer.version(), WebGLVersion::WebGL2);
    assert_eq!(renderer.program(), ShaderProgram { position: 0 });
}

#[test]
fn a_bare_canvas_skips_the_shadow_query() {
    let mut setup = begin();
    let asked = drive(&mut setup, vec![bare_canvas(), Reply::Context(true)]);
    assert_eq!(
        asked,
        vec![
            Request::FindElement,
            Request::RequestContext { surface: SurfaceHandle::Element, tier: WebGLVersion::WebGL2 },
        ]
    );
    assert_eq!(setup.request(), Request::PrepareContext);
}

#[test]
fn the_lower_tier_is_asked_for_after_the_higher_one() {
    let mut setup = begin();
    let asked = drive(&mut setup, vec![bare_canvas(), Reply::Context(false), Reply::Context(true)]);
    assert_eq!(
        asked[1..],
        [
            Request::RequestContext { surface: SurfaceHandle::Element, tier: WebGLVersion::WebGL2 },
            Request::RequestContext { surface: SurfaceHandle::Element, tier: WebGLVersion::WebGL1 },
        ]
    );
    assert_eq!(setup.request(), Request::PrepareContext);
    assert_eq!(setup.commands(), initial_commands());
}

#[test]
fn the_commands_of_each_tier_are_the_same() {
    let mut high = begin();
    drive(&mut high, vec![bare_canvas(), Reply::Context(true)]);
    let mut low = begin();
    drive(&mut low, vec![bare_canvas(), Reply::Context(false), Reply::Context(true)]);
    assert_eq!(high.commands(), low.commands());
    let rest = || {
        vec![
            Reply::Done,
            Reply::Report(DriverReport::Success),
            Reply::Report(DriverReport::Success),
            Reply::Report(DriverReport::Success),
            Reply::Position(2),
        ]
    };
    assert_eq!(drive(&mut high, rest()), drive(&mut low, rest()));
    assert_eq!(high.commands(), vec![GlCommand::UseProgram]);
    assert_eq!(low.commands(), vec![GlCommand::UseProgram]);
}

#[test]
fn no_tier_ends_the_setup() {
    let mut setup = begin();
    drive(&mut setup, vec![bare_canvas(), Reply::Context(false), Reply::Context(false)]);
    assert!(setup.is_finished());
    assert_eq!(setup.outcome(), Some(Err(RenderError::ContextUnavailable)));
}

#[test]
fn a_missing_element_ends_the_setup_at_once() {
    let mut setup = begin();
    setup.advance(Reply::Element(None));
    assert!(setup.is_finished());
    assert_eq!(setup.request(), Request::Nothing);
    assert_eq!(setup.outcome(), Some(Err(RenderError::ElementNotFound)));
}

#[test]
fn nothing_moves_a_setup_that_has_failed() {
    let mut setup = begin();
    setup.advance(Reply::Element(None));
    let failed = setup.clone();
    for reply in [
        bare_canvas(),
        Reply::ShadowMatch(Some(true)),
        Reply::Context(true),
        Reply::Done,
        Reply::Report(DriverReport::Success),
        Reply::Position(1),
    ] {
        setup.advance(reply);
        assert_eq!(setup, failed);
    }
}

#[test]
fn a_reply_that_was_not_asked_for_is_ignored() {
    let mut setup = begin();
    let fresh = setup.clone();
    setup.advance(Reply::Context(true));
    setup.advance(Reply::Done);
    setup.advance(Reply::Position(3));
    setup.advance(Reply::Report(DriverReport::Success));
    setup.advance(Reply::ShadowMatch(Some(true)));
    assert_eq!(setup, fresh);
}

#[test]
fn a_rejected_fragment_stage_ends_the_setup_before_the_link() {
    let mut setup = begin();
    let asked = drive(
        &mut setup,
        vec![
            bare_canvas(),
            Reply::Context(true),
            Reply::Done,
            Reply::Report(DriverReport::Success),
            Reply::Report(DriverReport::Failure { log: Some(String::from("ERROR: 0:2: syntax error")) }),
        ],
    );
    assert_eq!(asked.last(), Some(&Request::CompileStage(ShaderStage::Fragment)));
    assert_eq!(setup.request(), Request::Nothing);
    assert_eq!(
        setup.outcome(),
        Some(Err(RenderError::ShaderCompileError {
            stage: ShaderStage::Fragment,
            log: String::from("ERROR: 0:2: syntax error"),
        }))
    );
}

#[test]
fn a_failed_link_ends_the_setup() {
    let mut setup = begin();
    drive(
        &mut setup,
        vec![
            bare_canvas(),
            Reply::Context(true),
            Reply::Done,
            Reply::Report(DriverReport::Success),
            Reply::Report(DriverReport::Success),
            Reply::Report(DriverReport::Failure { log: None }),
        ],
    );
    assert_eq!(
        setup.outcome(),
        Some(Err(RenderError::ProgramLinkError { log: String::from("Unknown error creating program object") }))
    );
}

#[test]
fn a_shadow_tree_without_a_canvas_ends_the_setup() {
    let mut none = begin();
    drive(&mut none, vec![shadow_host(), Reply::ShadowMatch(None)]);
    assert_eq!(none.outcome(), Some(Err(RenderError::ElementNotFound)));
    let mut wrong = begin();
    drive(&mut wrong, vec![shadow_host(), Reply::ShadowMatch(Some(false))]);
    assert_eq!(wrong.outcome(), Some(Err(RenderError::SurfaceTypeMismatch)));
}

#[test]
fn an_element_that_is_no_surface_and_no_host_ends_the_setup() {
    let mut setup = begin();
    setup.advance(Reply::Element(Some(ElementFacts { is_canvas: false, has_shadow_root: false })));
    assert_eq!(setup.outcome(), Some(Err(RenderError::ShadowRootMissing)));
}
