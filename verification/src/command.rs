//! The operations a graphics context is asked to perform.
//!
//! Both context tiers offer every operation listed here, so a command says
//! what is to be done and never which tier does it.

use vstd::prelude::*;

verus! {

/// One operation on the active graphics context.
#[derive(Clone, Copy, Debug, PartialEq, Eq, Structural)]
pub enum GlCommand {
    /// Set the color that clearing fills with; each channel is 0 or 1.
    SetClearColor { red: u8, green: u8, blue: u8, alpha: u8 },
    /// Clear the color buffer.
    ClearColorBuffer,
    /// Switch alpha blending on.
    EnableBlend,
    /// Blend source over destination: the source weighted by its alpha, the
    /// destination by one minus the source's alpha.
    BlendSourceOver,
    /// Set the viewport to the full surface of the given size in pixels.
    Viewport { width: u32, height: u32 },
    /// Make the linked program the current one.
    UseProgram,
    /// Bind the frame's buffer as the current vertex buffer.
    BindVertexBuffer,
    /// Upload the frame's vertex data into the bound buffer.
    UploadVertices,
    /// Point the position attribute at the bound buffer, two components per
    /// vertex, and enable it.
    BindPosition { location: i32 },
    /// Draw the first `count` vertices as one connected line.
    DrawLineStrip { count: usize },
}

} // verus!
