//! Options and errors of SVG-to-PNG rasterization.

use vstd::prelude::*;

verus! {

/// Which fonts the rasterizer resolves the SVG's font stack against.
#[derive(Clone, Copy, Debug, PartialEq, Eq, Structural)]
pub enum FontSource {
    /// Only the bundled Cabin font: self-contained and deterministic.
    Embedded,
    /// The system fonts, so the mermaid-standard stack resolves to the
    /// installed faces.
    System,
}

impl Default for FontSource {
    fn default() -> (r: Self)
        ensures
            r == FontSource::Embedded,
    {
        FontSource::Embedded
    }
}

/// Failure rasterizing an SVG to PNG.
pub enum RasterError {
    /// The SVG could not be parsed.
    Parse(String),
    /// The pixmap could not be allocated or PNG-encoded.
    Encode(String),
}

impl RasterError {
    /// The error as a message.
    pub fn display(&self) -> (s: String)
        ensures
            match self {
                RasterError::Parse(m) => s@ == "SVG parse error: "@ + m@,
                RasterError::Encode(m) => s@ == "PNG encode error: "@ + m@,
            },
    {
        match self {
            RasterError::Parse(m) => {
                let mut s = String::from_str("SVG parse error: ");
                s.append(m.as_str());
                s
            },
            RasterError::Encode(m) => {
                let mut s = String::from_str("PNG encode error: ");
                s.append(m.as_str());
                s
            },
        }
    }
}

/// Options for rasterizing.
pub struct RasterOptions {
    /// Canvas background fill as RGBA; `None` leaves it transparent.
    pub background: Option<[u8; 4]>,
    /// Extra blank height (px) added below the diagram.
    pub extra_height: u32,
    /// An SVG composited on top after the diagram.
    pub overlay_svg: Option<String>,
    /// Which fonts to resolve the SVG's font stack against.
    pub fonts: FontSource,
}

impl Default for RasterOptions {
    /// Opaque white background, no extra height, no overlay, embedded font.
    fn default() -> (r: Self)
        ensures
            r.background matches Some(b) && b@ == seq![255u8, 255u8, 255u8, 255u8],
            r.extra_height == 0,
            r.overlay_svg is None,
            r.fonts == FontSource::Embedded,
    {
        let b: [u8; 4] = [255, 255, 255, 255];
        assert(b@ =~= seq![255u8, 255u8, 255u8, 255u8]);
        RasterOptions { background: Some(b), extra_height: 0, overlay_svg: None, fonts: FontSource::Embedded }
    }
}

} // verus!
