//! Resolving an identifier to a drawing surface.
//!
//! The document is asked at most two questions: what stands under the
//! identifier, and, where that element hosts a shadow tree, what a query for
//! a canvas inside the tree gives. The answers decide the rest.

use vstd::prelude::*;
use crate::error::{viewed, ErrorView, RenderError};

verus! {

/// What the document shows of an element.
#[derive(Clone, Copy, Debug, PartialEq, Eq, Structural)]
pub struct ElementFacts {
    /// The element is itself a drawing surface.
    pub is_canvas: bool,
    /// The element hosts a shadow tree.
    pub has_shadow_root: bool,
}

/// Where the drawing surface of a renderer stands.
#[derive(Clone, Copy, Debug, PartialEq, Eq, Structural)]
pub enum SurfaceHandle {
    /// The identified element itself.
    Element,
    /// The canvas inside the identified element's shadow tree.
    ShadowCanvas,
}

/// What follows from looking at the identified element.
#[derive(Clone, Copy, Debug, PartialEq, Eq, Structural)]
pub enum Resolution {
    /// The surface is known.
    Surface(SurfaceHandle),
    /// The element hosts a shadow tree, which is to be searched.
    Descend,
}

/// The step that follows the lookup by identifier. A shadow tree is
/// searched wherever there is one; without one the element itself must be
/// the surface.
pub open spec fn element_verdict(found: Option<ElementFacts>) -> Result<Resolution, ErrorView> {
    match found {
        None => Err(ErrorView::ElementNotFound),
        Some(facts) => if facts.has_shadow_root {
            Ok(Resolution::Descend)
        } else if facts.is_canvas {
            Ok(Resolution::Surface(SurfaceHandle::Element))
        } else {
            Err(ErrorView::ShadowRootMissing)
        },
    }
}

/// The outcome of the query inside the shadow tree: `matched` is `None`
/// where the query gave nothing, and else says whether what it gave is a
/// drawing surface.
pub open spec fn shadow_verdict(matched: Option<bool>) -> Result<SurfaceHandle, ErrorView> {
    match matched {
        None => Err(ErrorView::ElementNotFound),
        Some(is_canvas) => if is_canvas {
            Ok(SurfaceHandle::ShadowCanvas)
        } else {
            Err(ErrorView::SurfaceTypeMismatch)
        },
    }
}

/// The whole resolution, given both answers. The second answer counts only
/// where the element hosts a shadow tree.
pub open spec fn located(found: Option<ElementFacts>, matched: Option<bool>) -> Result<
    SurfaceHandle,
    ErrorView,
> {
    match element_verdict(found) {
        Err(e) => Err(e),
        Ok(Resolution::Surface(handle)) => Ok(handle),
        Ok(Resolution::Descend) => shadow_verdict(matched),
    }
}

/// The selector that finds the drawing surface inside a shadow tree.
pub fn canvas_selector() -> (selector: &'static str)
    ensures
        selector@ == "canvas"@,
{
    "canvas"
}

/// Decides what follows the lookup by identifier.
///
/// - nothing found: `ElementNotFound`;
/// - an element with a shadow tree: descend into the tree;
/// - an element without one that is a drawing surface: the surface;
/// - an element without one that is no drawing surface: `ShadowRootMissing`.
pub fn examine_element(found: Option<ElementFacts>) -> (result: Result<Resolution, RenderError>)
    ensures
        viewed(result) == element_verdict(found),
        result is Ok <==> (found matches Some(facts) && (facts.has_shadow_root || facts.is_canvas)),
        result == Err::<Resolution, RenderError>(RenderError::ElementNotFound) <==> found is None,
{
    match found {
        None => Err(RenderError::ElementNotFound),
        Some(facts) => {
            if facts.has_shadow_root {
                Ok(Resolution::Descend)
            } else if facts.is_canvas {
                Ok(Resolution::Surface(SurfaceHandle::Element))
            } else {
                Err(RenderError::ShadowRootMissing)
            }
        },
    }
}

/// Decides the outcome of the query inside the shadow tree.
///
/// - nothing matched: `ElementNotFound`;
/// - a match that is no drawing surface: `SurfaceTypeMismatch`;
/// - a match that is one: the surface.
pub fn examine_shadow_match(matched: Option<bool>) -> (result: Result<SurfaceHandle, RenderError>)
    ensures
        viewed(result) == shadow_verdict(matched),
        result is Ok <==> matched == Some(true),
{
    match matched {
        None => Err(RenderError::ElementNotFound),
        Some(is_canvas) => {
            if is_canvas {
                Ok(SurfaceHandle::ShadowCanvas)
            } else {
                Err(RenderError::SurfaceTypeMismatch)
            }
        },
    }
}

/// Resolves the surface from both answers of the document. The same answers
/// always give the same handle.
pub fn locate(found: Option<ElementFacts>, matched: Option<bool>) -> (result: Result<
    SurfaceHandle,
    RenderError,
>)
    ensures
        viewed(result) == located(found, matched),
{
    match examine_element(found) {
        Err(e) => Err(e),
        Ok(Resolution::Surface(handle)) => Ok(handle),
        Ok(Resolution::Descend) => examine_shadow_match(matched),
    }
}

} // verus!
