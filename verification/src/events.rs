//! What the compositor reports about colors.
use vstd::prelude::*;

use crate::description::{Feature, NamedEotf, NamedPrimaries, RenderIntent};

verus! {

/// The xy chromaticities of three primaries and the white point, in millionths, in the order in
/// which they travel.
#[derive(Clone, Copy, Debug, PartialEq, Eq)]
pub struct Chromaticities {
    pub r_x: i32,
    pub r_y: i32,
    pub g_x: i32,
    pub g_y: i32,
    pub b_x: i32,
    pub b_y: i32,
    pub w_x: i32,
    pub w_y: i32,
}

/// An event of the color manager.
#[derive(Clone, Copy, Debug, PartialEq, Eq)]
pub enum ColorManagerEvent {
    /// Everything that the compositor supports has been reported.
    Done,
    SupportedFeature { feature: Feature },
    SupportedPrimariesNamed { primaries: NamedPrimaries },
    SupportedIntent { render_intent: RenderIntent },
    SupportedTfNamed { tf: NamedEotf },
}

/// An event of the color management object of an output.
#[derive(Clone, Copy, Debug, PartialEq, Eq)]
pub enum ColorOutputEvent {
    ImageDescriptionChanged,
}

/// An event of the color feedback object of a surface.
#[derive(Clone, Copy, Debug, PartialEq, Eq)]
pub enum SurfaceFeedbackEvent {
    PreferredChanged { identity: u32 },
    PreferredChanged2 { identity_hi: u32, identity_lo: u32 },
}

/// An event of an image description.
#[derive(Clone, Copy, Debug, PartialEq, Eq)]
pub enum ImageDescriptionEvent {
    /// The compositor could not make the description; `cause` is its protocol code.
    Failed { cause: u32 },
    Ready { identity: u32 },
    Ready2 { identity_hi: u32, identity_lo: u32 },
}

/// An event that reports a part of an image description, or the end of the report.
#[derive(Clone, Copy, Debug, PartialEq, Eq)]
pub enum ImageDescriptionInfoEvent {
    IccFile { icc_size: u32 },
    Done,
    PrimariesNamed { primaries: NamedPrimaries },
    TfNamed { tf: NamedEotf },
    /// `min_lum` in ten-thousandths of a nit, the others in nits.
    Luminances { min_lum: u32, max_lum: u32, reference_lum: u32 },
    /// The exponent in ten-thousandths.
    TfPower { eexp: u32 },
    Primaries { chromaticities: Chromaticities },
    /// `min_lum` in ten-thousandths of a nit, `max_lum` in nits.
    TargetLuminance { min_lum: u32, max_lum: u32 },
    /// In nits.
    TargetMaxCll { max_cll: u32 },
    /// In nits.
    TargetMaxFall { max_fall: u32 },
    TargetPrimaries { chromaticities: Chromaticities },
}

} // verus!
