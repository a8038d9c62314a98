//! Derives the virtual display's parameters from a completed handshake's
//! [`PanelReport`]: native pixel size, UI scale and orientation.

use vstd::prelude::*;
use crate::protocol_session::PanelReport;

verus! {

/// The virtual display's orientation, derived from the panel's reported
/// pixel dimensions, which already reflect the panel's current orientation.
#[derive(Debug, Clone, Copy, PartialEq, Eq, Structural)]
pub enum Orientation {
    Portrait,
    Landscape,
}

/// Session-scoped display parameters, derived once per session at handshake
/// time.
#[derive(Debug, PartialEq, Eq)]
pub struct DisplaySpec {
    pub width_px: u32,
    pub height_px: u32,
    /// The UI scale factor's number text (`2.0` for an `@2x` panel), taken
    /// directly from `hello.scale`.
    pub scale_factor: String,
    pub orientation: Orientation,
}

impl Clone for DisplaySpec {
    fn clone(&self) -> (r: Self)
        ensures
            r == *self,
    {
        DisplaySpec {
            width_px: self.width_px,
            height_px: self.height_px,
            scale_factor: self.scale_factor.clone(),
            orientation: self.orientation,
        }
    }
}

/// The orientation of a panel `pixels_wide` by `pixels_high`: a panel at
/// least as tall as it is wide is portrait.
pub open spec fn spec_orientation(pixels_wide: u32, pixels_high: u32) -> Orientation {
    if pixels_high >= pixels_wide {
        Orientation::Portrait
    } else {
        Orientation::Landscape
    }
}

/// Derives a [`DisplaySpec`] from the panel report a handshake yields: the
/// virtual display takes the panel's dimensions at native pixel density,
/// unchanged, its scale factor, and the orientation they imply.
pub fn derive_display_spec(panel: &PanelReport) -> (spec: DisplaySpec)
    ensures
        spec.width_px == panel.pixels_wide,
        spec.height_px == panel.pixels_high,
        spec.scale_factor@ == panel.scale@,
        spec.orientation == spec_orientation(panel.pixels_wide, panel.pixels_high),
{
    let orientation = if panel.pixels_high >= panel.pixels_wide {
        Orientation::Portrait
    } else {
        Orientation::Landscape
    };
    DisplaySpec {
        width_px: panel.pixels_wide,
        height_px: panel.pixels_high,
        scale_factor: panel.scale.clone(),
        orientation,
    }
}

/// Swapping a non-square panel's reported dimensions, as rotating it does,
/// flips the orientation derived from them.
pub proof fn lemma_rotation_flips_orientation(pixels_wide: u32, pixels_high: u32)
    requires
        pixels_wide != pixels_high,
    ensures
        spec_orientation(pixels_wide, pixels_high) != spec_orientation(pixels_high, pixels_wide),
{
}

} // verus!
