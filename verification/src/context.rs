//! Choosing a graphics tier and preparing the context that was obtained.

use vstd::prelude::*;
use crate::command::GlCommand;
use crate::error::{viewed, ErrorView, RenderError};

verus! {

/// The capability tier of a graphics context.
#[derive(Clone, Copy, Debug, PartialEq, Eq, Structural)]
pub enum WebGLVersion {
    WebGL1,
    WebGL2,
}

/// The tier that is asked for first: the more capable one.
pub open spec fn preferred_tier() -> WebGLVersion {
    WebGLVersion::WebGL2
}

/// The tier to ask for after `refused` was not to be had, if there is one.
pub open spec fn next_tier(refused: WebGLVersion) -> Option<WebGLVersion> {
    match refused {
        WebGLVersion::WebGL2 => Some(WebGLVersion::WebGL1),
        WebGLVersion::WebGL1 => None,
    }
}

/// The tier that negotiation settles on, given which tiers the surface
/// offers: the more capable one wherever it is offered.
pub open spec fn negotiated(webgl2: bool, webgl1: bool) -> Result<WebGLVersion, ErrorView> {
    if webgl2 {
        Ok(WebGLVersion::WebGL2)
    } else if webgl1 {
        Ok(WebGLVersion::WebGL1)
    } else {
        Err(ErrorView::ContextUnavailable)
    }
}

/// What a fresh context is put through, whichever tier it is: clear to
/// transparent black, then blend source over destination.
pub open spec fn initial_sequence() -> Seq<GlCommand> {
    seq![
        GlCommand::SetClearColor { red: 0, green: 0, blue: 0, alpha: 0 },
        GlCommand::ClearColorBuffer,
        GlCommand::EnableBlend,
        GlCommand::BlendSourceOver,
    ]
}

impl WebGLVersion {
    /// The name under which a canvas hands out a context of this tier.
    pub fn context_id(&self) -> (id: &'static str)
        ensures
            id@ == (match *self {
                WebGLVersion::WebGL2 => "webgl2"@,
                WebGLVersion::WebGL1 => "webgl"@,
            }),
    {
        match self {
            WebGLVersion::WebGL2 => "webgl2",
            WebGLVersion::WebGL1 => "webgl",
        }
    }
}

/// The tier to ask for first.
pub fn first_choice() -> (tier: WebGLVersion)
    ensures
        tier == preferred_tier(),
{
    WebGLVersion::WebGL2
}

/// The tier to ask for after `refused` was not to be had.
pub fn fallback(refused: WebGLVersion) -> (tier: Option<WebGLVersion>)
    ensures
        tier == next_tier(refused),
{
    match refused {
        WebGLVersion::WebGL2 => Some(WebGLVersion::WebGL1),
        WebGLVersion::WebGL1 => None,
    }
}

/// Settles the tier from what the surface offers. Fails with
/// `ContextUnavailable` exactly when it offers neither.
pub fn acquire(webgl2: bool, webgl1: bool) -> (result: Result<WebGLVersion, RenderError>)
    ensures
        viewed(result) == negotiated(webgl2, webgl1),
        result is Ok <==> webgl2 || webgl1,
{
    if webgl2 {
        Ok(WebGLVersion::WebGL2)
    } else if webgl1 {
        Ok(WebGLVersion::WebGL1)
    } else {
        Err(RenderError::ContextUnavailable)
    }
}

/// The commands that prepare a fresh context. They are the same for both
/// tiers.
pub fn initial_commands() -> (commands: Vec<GlCommand>)
    ensures
        commands@ == initial_sequence(),
{
    let mut commands: Vec<GlCommand> = Vec::new();
    commands.push(GlCommand::SetClearColor { red: 0, green: 0, blue: 0, alpha: 0 });
    commands.push(GlCommand::ClearColorBuffer);
    commands.push(GlCommand::EnableBlend);
    commands.push(GlCommand::BlendSourceOver);
    assert(commands@ =~= initial_sequence());
    commands
}

} // verus!
