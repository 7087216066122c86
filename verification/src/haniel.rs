//! HANIEL: the render protection domain's interface. The presentation
//! pipeline is not wired yet, so every request is refused.
use vstd::prelude::*;

verus! {

/// A pixel surface handed over for presentation.
pub struct PixelSurface {
    pub width: u32,
    pub height: u32,
}

/// One render request.
pub struct RenderRequest {
    pub surface: PixelSurface,
    pub frame_id: u64,
}

/// The HANIEL protection domain.
pub struct HanielPd;

impl HanielPd {
    pub fn new() -> (pd: Self) {
        HanielPd
    }

    /// Submits a request; refused while the pipeline is not wired.
    pub fn submit(&self, request: RenderRequest) -> (accepted: bool)
        ensures
            !accepted,
    {
        false
    }
}

/// Presents the sovereign surface; `false` while the pipeline is not wired.
pub fn render_sovereign_surface() -> (r: bool)
    ensures
        !r,
{
    false
}

/// Renders a line of text; `false` while the pipeline is not wired.
pub fn render_text(text: &str) -> (r: bool)
    ensures
        !r,
{
    false
}


impl Default for HanielPd {
    fn default() -> (pd: Self)
        ensures
            pd == HanielPd,
    {
        Self::new()
    }
}

} // verus!
