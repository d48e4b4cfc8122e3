use stock_renderer::error::RenderError;
use stock_renderer::surface::{
    canvas_selector, examine_element, examine_shadow_match, locate, ElementFacts, Resolution,
    SurfaceHandle,
};

const HOST: ElementFacts = ElementFacts { is_canvas: false, has_shadow_root: true };
const CANVAS: ElementFacts = ElementFacts { is_canvas: true, has_shadow_root: false };
const PLAIN: ElementFacts = ElementFacts { is_canvas: false, has_shadow_root: false };
const BOTH: ElementFacts = ElementFacts { is_canvas: true, has_shadow_root: true };

#[test]
fn a_missing_element_is_not_found() {
    assert_eq!(examine_element(None), Err(RenderError::ElementNotFound));
}

#[test]
fn a_shadow_host_is_descended_into() {
    assert_eq!(examine_element(Some(HOST)), Ok(Resolution::Descend));
    assert_eq!(examine_element(Some(BOTH)), Ok(Resolution::Descend));
}

#[test]
fn a_bare_canvas_is_the_surface() {
    assert_eq!(examine_element(Some(CANVAS)), Ok(Resolution::Surface(SurfaceHandle::Element)));
}

#[test]
fn a_plain_element_misses_its_shadow_root() {
    assert_eq!(examine_element(Some(PLAIN)), Err(RenderError::ShadowRootMissing));
}

#[test]
fn the_shadow_query_decides_the_surface() {
    assert_eq!(examine_shadow_match(Some(true)), Ok(SurfaceHandle::ShadowCanvas));
    assert_eq!(examine_shadow_match(Some(false)), Err(RenderError::SurfaceTypeMismatch));
    assert_eq!(examine_shadow_match(None), Err(RenderError::ElementNotFound));
}

#[test]
fn locate_follows_both_answers() {
    assert_eq!(locate(None, Some(true)), Err(RenderError::ElementNotFound));
    assert_eq!(locate(Some(PLAIN), Some(true)), Err(RenderError::ShadowRootMissing));
    assert_eq!(locate(Some(CANVAS), None), Ok(SurfaceHandle::Element));
    assert_eq!(locate(Some(CANVAS), Some(false)), Ok(SurfaceHandle::Element));
    assert_eq!(locate(Some(HOST), Some(true)), Ok(SurfaceHandle::ShadowCanvas));
    assert_eq!(locate(Some(HOST), Some(false)), Err(RenderError::SurfaceTypeMismatch));
    assert_eq!(locate(Some(HOST), None), Err(RenderError::ElementNotFound));
    assert_eq!(locate(Some(BOTH), Some(true)), Ok(SurfaceHandle::ShadowCanvas));
}

#[test]
fn locate_is_repeatable() {
    for found in [None, Some(HOST), Some(CANVAS), Some(PLAIN), Some(BOTH)] {
        for matched in [None, Some(false), Some(true)] {
            assert_eq!(locate(found, matched), locate(found, matched));
        }
    }
}

#[test]
fn the_selector_names_a_canvas() {
    assert_eq!(canvas_selector(), "canvas");
}
