//! The failures a renderer can report.

use vstd::prelude::*;
use vstd::string::*;

verus! {

/// One of the two programmable stages of a GPU program.
#[derive(Clone, Copy, Debug, PartialEq, Eq, Structural)]
pub enum ShaderStage {
    Vertex,
    Fragment,
}

/// Why construction failed, or why a frame was degraded.
#[derive(Clone, Debug, PartialEq, Eq)]
pub enum RenderError {
    /// A lookup in the document gave no element.
    ElementNotFound,
    /// The element is no drawing surface and exposes no shadow tree to search.
    ShadowRootMissing,
    /// The element that resolution arrived at is not a drawing surface.
    SurfaceTypeMismatch,
    /// Neither graphics tier could be obtained from the surface.
    ContextUnavailable,
    /// A shader stage was rejected; `log` is the driver's diagnostic text.
    ShaderCompileError { stage: ShaderStage, log: String },
    /// The two stages could not be linked; `log` is the driver's diagnostic text.
    ProgramLinkError { log: String },
    /// The device gave no buffer for the frame's vertices.
    BufferAllocationError,
}

/// The mathematical content of a [`RenderError`]: texts are character sequences.
pub enum ErrorView {
    ElementNotFound,
    ShadowRootMissing,
    SurfaceTypeMismatch,
    ContextUnavailable,
    ShaderCompileError { stage: ShaderStage, log: Seq<char> },
    ProgramLinkError { log: Seq<char> },
    BufferAllocationError,
}

impl View for RenderError {
    type V = ErrorView;

    open spec fn view(&self) -> ErrorView {
        match self {
            RenderError::ElementNotFound => ErrorView::ElementNotFound,
            RenderError::ShadowRootMissing => ErrorView::ShadowRootMissing,
            RenderError::SurfaceTypeMismatch => ErrorView::SurfaceTypeMismatch,
            RenderError::ContextUnavailable => ErrorView::ContextUnavailable,
            RenderError::ShaderCompileError { stage, log } => ErrorView::ShaderCompileError {
                stage: *stage,
                log: log@,
            },
            RenderError::ProgramLinkError { log } => ErrorView::ProgramLinkError { log: log@ },
            RenderError::BufferAllocationError => ErrorView::BufferAllocationError,
        }
    }
}

/// A result with its error taken by its view.
pub open spec fn viewed<T>(result: Result<T, RenderError>) -> Result<T, ErrorView> {
    match result {
        Ok(value) => Ok(value),
        Err(e) => Err(e@),
    }
}

impl ErrorView {
    /// The line a person reads for this failure.
    pub open spec fn message(self) -> Seq<char> {
        match self {
            ErrorView::ElementNotFound => "Component not found"@,
            ErrorView::ShadowRootMissing => "Shadow root not found"@,
            ErrorView::SurfaceTypeMismatch => "Element is not a canvas"@,
            ErrorView::ContextUnavailable => "Neither WebGL2 nor WebGL1 is supported"@,
            ErrorView::ShaderCompileError { stage, log } => log,
            ErrorView::ProgramLinkError { log } => log,
            ErrorView::BufferAllocationError => "Failed to create buffer"@,
        }
    }
}

impl RenderError {
    /// The line a person reads for this failure. A shader or link failure
    /// reads as the driver's own log.
    pub fn message(&self) -> (text: String)
        ensures
            text@ == self@.message(),
    {
        match self {
            RenderError::ElementNotFound => "Component not found".to_owned(),
            RenderError::ShadowRootMissing => "Shadow root not found".to_owned(),
            RenderError::SurfaceTypeMismatch => "Element is not a canvas".to_owned(),
            RenderError::ContextUnavailable => "Neither WebGL2 nor WebGL1 is supported".to_owned(),
            RenderError::ShaderCompileError { stage, log } => log.clone(),
            RenderError::ProgramLinkError { log } => log.clone(),
            RenderError::BufferAllocationError => "Failed to create buffer".to_owned(),
        }
    }
}

} // verus!
