//! Verified core of a price-series chart renderer.
//!
//! The library decides; the host performs. Everything that touches the
//! document or the graphics device is described here as a request that the
//! embedding code carries out, and every answer comes back as a plain value.
//!
//! - [`surface`], [`context`] and [`shader`] judge what the document, the
//!   canvas and the driver answer.
//! - [`setup`] puts the three in order: the construction of a renderer, one
//!   request at a time. [`host`] says what it comes to on every host.
//! - [`sample`], [`geometry`] and [`rounding`] take a price series from the
//!   bit patterns it arrives in to the bit patterns that are uploaded.
//! - [`renderer`] holds the renderer and plans its frames as [`command`]s.

pub mod command;
pub mod context;
pub mod error;
pub mod geometry;
pub mod host;
pub mod renderer;
pub mod rounding;
pub mod sample;
pub mod setup;
pub mod shader;
pub mod surface;
