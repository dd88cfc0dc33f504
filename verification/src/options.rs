//! Style options for smooth strokes. Widths are carried in thousandths of a
//! document unit, so the resize logic's width bookkeeping stays exact.

use vstd::prelude::*;

verus! {

/// Largest representable stroke width, in thousandths of a unit.
pub const WIDTH_LIMIT: u64 = 1_000_000_000;

/// An RGBA color with 8-bit channels.
#[derive(Clone, Copy, Debug, PartialEq, Eq, Structural)]
pub struct Color {
    pub red: u8,
    pub green: u8,
    pub blue: u8,
    pub alpha: u8,
}

impl Color {
    pub open spec fn black_spec() -> Color {
        Color { red: 0, green: 0, blue: 0, alpha: 255 }
    }

    pub fn black() -> (r: Color)
        ensures
            r == Color::black_spec(),
    {
        Color { red: 0, green: 0, blue: 0, alpha: 255 }
    }
}

/// How pen pressure maps to width along a stroke.
#[derive(Clone, Copy, Debug, PartialEq, Eq, Structural)]
pub enum PressureCurve {
    ConstantWidth,
    Linear,
    SquareRoot,
}

/// Options for shapes drawn in the smooth style.
///
/// The ghost stroke width is a scratch baseline read and written only by the
/// resize and duplicate-selection logic; it is not part of the document's
/// logical content.
#[derive(Clone, Copy, Debug, PartialEq, Eq, Structural)]
pub struct SmoothOptions {
    /// Stroke width, in thousandths of a unit.
    pub stroke_width: u64,
    /// Ghost stroke width: the pre-resize baseline, restored or refreshed
    /// when a resize gesture is committed or reset.
    pub stroke_width_ghost: u64,
    /// Stroke color; absent means the outline is not drawn.
    pub stroke_color: Option<Color>,
    /// Fill color; absent means the fill is not drawn.
    pub fill_color: Option<Color>,
    /// Pressure-to-width curve.
    pub pressure_curve: PressureCurve,
}

impl SmoothOptions {
    pub open spec fn wf(self) -> bool {
        self.stroke_width <= WIDTH_LIMIT && self.stroke_width_ghost <= WIDTH_LIMIT
    }

    pub open spec fn default_spec() -> SmoothOptions {
        SmoothOptions {
            stroke_width: 2_000,
            stroke_width_ghost: 2_000,
            stroke_color: Some(Color::black_spec()),
            fill_color: None,
            pressure_curve: PressureCurve::Linear,
        }
    }
}

impl Default for SmoothOptions {
    /// A two-unit-wide black stroke without fill.
    fn default() -> (r: SmoothOptions)
        ensures
            r == SmoothOptions::default_spec(),
            r.wf(),
    {
        SmoothOptions {
            stroke_width: 2_000,
            stroke_width_ghost: 2_000,
            stroke_color: Some(Color::black()),
            fill_color: None,
            pressure_curve: PressureCurve::Linear,
        }
    }
}

} // verus!
