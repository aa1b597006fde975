//! Image descriptions.
//!
//! Quantities are double-precision numbers. Luminances are in candelas per square metre (nits).
//! On the wire, chromaticities count millionths, and exponents and some luminances count
//! ten-thousandths.
use vstd::prelude::*;

use crate::double::Double;
use crate::events::{Chromaticities, ImageDescriptionInfoEvent};

verus! {

/// How many of the wire's units make one nit, where the wire does not count nits.
pub const LUMA_SCALE: u32 = 10_000;

/// How many of the wire's units make one in an exponent.
pub const EXPONENT_SCALE: u32 = 10_000;

/// How many of the wire's units make one in a chromaticity.
pub const CHROMA_SCALE: u32 = 1_000_000;

/// The protocol code of a named set of primaries.
#[derive(Clone, Copy, Debug, PartialEq, Eq)]
pub struct NamedPrimaries {
    pub code: u32,
}

/// The protocol code of a named transfer function.
#[derive(Clone, Copy, Debug, PartialEq, Eq)]
pub struct NamedEotf {
    pub code: u32,
}

/// The protocol code of a render intent.
#[derive(Clone, Copy, Debug, PartialEq, Eq)]
pub struct RenderIntent {
    pub code: u32,
}

/// The protocol code of an optional compositor feature.
#[derive(Clone, Copy, Debug, PartialEq, Eq)]
pub struct Feature {
    pub code: u32,
}

/// The primaries and the white point of a color space.
#[derive(Clone, Copy, Debug, PartialEq, Eq)]
pub enum Primaries {
    Named(NamedPrimaries),
    /// CIE 1931 xy chromaticities.
    Custom {
        red: (Double, Double),
        green: (Double, Double),
        blue: (Double, Double),
        white: (Double, Double),
    },
}

/// The transfer function of a color space.
#[derive(Clone, Copy, Debug, PartialEq, Eq)]
pub enum Eotf {
    Named(NamedEotf),
    /// A pure power curve with this exponent.
    Power(Double),
}

/// The darkest and the brightest luminance of a display.
#[derive(Clone, Copy, Debug, PartialEq, Eq)]
pub struct LumaRange {
    pub min: Double,
    pub max: Double,
}

/// What is known of the colors of an output or of the contents of a surface.
#[derive(Clone, Copy, Debug, PartialEq, Eq)]
pub enum ImageDescriptionInfo {
    Parametric {
        primaries: Primaries,
        eotf: Eotf,
        luma_range: LumaRange,
        ref_luma: Double,
        /// Either the target display or the content's mastering display, depending on the
        /// context.
        mastering_primaries: Option<Primaries>,
        mastering_luma_range: Option<LumaRange>,
        target_max_cll: Option<Double>,
        target_max_fall: Option<Double>,
    },
}

/// A description of which only some parts have arrived.
#[derive(Clone, Copy, Debug, PartialEq, Eq)]
pub struct ImageDescriptionBuilder {
    pub primaries: Option<Primaries>,
    pub eotf: Option<Eotf>,
    pub luma_range: Option<LumaRange>,
    pub ref_luma: Option<Double>,
    pub mastering_primaries: Option<Primaries>,
    pub mastering_luma_range: Option<LumaRange>,
    pub target_max_cll: Option<Double>,
    pub target_max_fall: Option<Double>,
}

/// The chromaticity that two wire numbers stand for.
pub open spec fn chromaticity(x: i32, y: i32) -> (Double, Double) {
    (
        Double::signed_quotient(x as int, CHROMA_SCALE as nat),
        Double::signed_quotient(y as int, CHROMA_SCALE as nat),
    )
}

fn from_millionths(x: i32, y: i32) -> (point: (Double, Double))
    ensures
        point == chromaticity(x, y),
{
    (Double::from_signed(x, CHROMA_SCALE), Double::from_signed(y, CHROMA_SCALE))
}

impl Chromaticities {
    /// The primaries that the eight wire numbers stand for.
    pub open spec fn as_primaries(self) -> Primaries {
        Primaries::Custom {
            red: chromaticity(self.r_x, self.r_y),
            green: chromaticity(self.g_x, self.g_y),
            blue: chromaticity(self.b_x, self.b_y),
            white: chromaticity(self.w_x, self.w_y),
        }
    }

    /// Makes primaries of the eight wire numbers.
    pub fn to_primaries(&self) -> (primaries: Primaries)
        ensures
            primaries == self.as_primaries(),
    {
        Primaries::Custom {
            red: from_millionths(self.r_x, self.r_y),
            green: from_millionths(self.g_x, self.g_y),
            blue: from_millionths(self.b_x, self.b_y),
            white: from_millionths(self.w_x, self.w_y),
        }
    }
}

impl LumaRange {
    /// The luminances that two wire numbers stand for: the darkest one in ten-thousandths of a
    /// nit, the brightest one in nits.
    pub open spec fn reported(min_lum: u32, max_lum: u32) -> Self {
        LumaRange {
            min: Double::quotient(min_lum as nat, LUMA_SCALE as nat),
            max: Double::quotient(max_lum as nat, 1),
        }
    }

    /// Makes luminances of two wire numbers.
    pub fn from_wire(min_lum: u32, max_lum: u32) -> (range: LumaRange)
        ensures
            range == LumaRange::reported(min_lum, max_lum),
    {
        LumaRange {
            min: Double::from_unsigned(min_lum, LUMA_SCALE),
            max: Double::from_unsigned(max_lum, 1),
        }
    }
}

impl ImageDescriptionBuilder {
    /// The builder to which nothing has been reported.
    pub open spec fn blank() -> Self {
        ImageDescriptionBuilder {
            primaries: None,
            eotf: None,
            luma_range: None,
            ref_luma: None,
            mastering_primaries: None,
            mastering_luma_range: None,
            target_max_cll: None,
            target_max_fall: None,
        }
    }

    /// Whether every part that a description cannot do without has arrived.
    pub open spec fn complete(self) -> bool {
        &&& self.primaries is Some
        &&& self.eotf is Some
        &&& self.luma_range is Some
        &&& self.ref_luma is Some
    }

    /// The description that the parts make up.
    pub open spec fn built(self) -> ImageDescriptionInfo
        recommends
            self.complete(),
    {
        ImageDescriptionInfo::Parametric {
            primaries: self.primaries->0,
            eotf: self.eotf->0,
            luma_range: self.luma_range->0,
            ref_luma: self.ref_luma->0,
            mastering_primaries: self.mastering_primaries,
            mastering_luma_range: self.mastering_luma_range,
            target_max_cll: self.target_max_cll,
            target_max_fall: self.target_max_fall,
        }
    }

    /// The builder after `event`: the parts that the event reports are replaced.
    pub open spec fn with(self, event: ImageDescriptionInfoEvent) -> Self {
        match event {
            ImageDescriptionInfoEvent::IccFile { .. } => self,
            ImageDescriptionInfoEvent::Done => self,
            ImageDescriptionInfoEvent::PrimariesNamed { primaries } => ImageDescriptionBuilder {
                primaries: Some(Primaries::Named(primaries)),
                ..self
            },
            ImageDescriptionInfoEvent::TfNamed { tf } => ImageDescriptionBuilder {
                eotf: Some(Eotf::Named(tf)),
                ..self
            },
            ImageDescriptionInfoEvent::Luminances { min_lum, max_lum, reference_lum } =>
                ImageDescriptionBuilder {
                luma_range: Some(LumaRange::reported(min_lum, max_lum)),
                ref_luma: Some(Double::quotient(reference_lum as nat, 1)),
                ..self
            },
            ImageDescriptionInfoEvent::TfPower { eexp } => ImageDescriptionBuilder {
                eotf: Some(Eotf::Power(Double::quotient(eexp as nat, EXPONENT_SCALE as nat))),
                ..self
            },
            ImageDescriptionInfoEvent::Primaries { chromaticities } => ImageDescriptionBuilder {
                primaries: Some(chromaticities.as_primaries()),
                ..self
            },
            ImageDescriptionInfoEvent::TargetLuminance { min_lum, max_lum } =>
                ImageDescriptionBuilder {
                mastering_luma_range: Some(LumaRange::reported(min_lum, max_lum)),
                ..self
            },
            ImageDescriptionInfoEvent::TargetMaxCll { max_cll } => ImageDescriptionBuilder {
                target_max_cll: Some(Double::quotient(max_cll as nat, 1)),
                ..self
            },
            ImageDescriptionInfoEvent::TargetMaxFall { max_fall } => ImageDescriptionBuilder {
                target_max_fall: Some(Double::quotient(max_fall as nat, 1)),
                ..self
            },
            ImageDescriptionInfoEvent::TargetPrimaries { chromaticities } =>
                ImageDescriptionBuilder {
                mastering_primaries: Some(chromaticities.as_primaries()),
                ..self
            },
        }
    }

    /// The builder after all of `events`, the first one first.
    pub open spec fn with_all(self, events: Seq<ImageDescriptionInfoEvent>) -> Self
        decreases events.len(),
    {
        if events.len() == 0 {
            self
        } else {
            self.with_all(events.drop_last()).with(events.last())
        }
    }

    /// Puts the parts together.
    pub fn build(&self) -> (info: ImageDescriptionInfo)
        requires
            self.complete(),
        ensures
            info == self.built(),
    {
        ImageDescriptionInfo::Parametric {
            primaries: self.primaries.unwrap(),
            eotf: self.eotf.unwrap(),
            luma_range: self.luma_range.unwrap(),
            ref_luma: self.ref_luma.unwrap(),
            mastering_primaries: self.mastering_primaries,
            mastering_luma_range: self.mastering_luma_range,
            target_max_cll: self.target_max_cll,
            target_max_fall: self.target_max_fall,
        }
    }

    /// Takes in the parts that `event` reports; a profile and the end of the report carry none.
    pub fn apply(&mut self, event: ImageDescriptionInfoEvent)
        ensures
            *final(self) == old(self).with(event),
    {
        match event {
            ImageDescriptionInfoEvent::IccFile { .. } => {},
            ImageDescriptionInfoEvent::Done => {},
            ImageDescriptionInfoEvent::PrimariesNamed { primaries } => {
                self.primaries = Some(Primaries::Named(primaries));
            },
            ImageDescriptionInfoEvent::TfNamed { tf } => {
                self.eotf = Some(Eotf::Named(tf));
            },
            ImageDescriptionInfoEvent::Luminances { min_lum, max_lum, reference_lum } => {
                self.luma_range = Some(LumaRange::from_wire(min_lum, max_lum));
                self.ref_luma = Some(Double::from_unsigned(reference_lum, 1));
            },
            ImageDescriptionInfoEvent::TfPower { eexp } => {
                self.eotf = Some(Eotf::Power(Double::from_unsigned(eexp, EXPONENT_SCALE)));
            },
            ImageDescriptionInfoEvent::Primaries { chromaticities } => {
                self.primaries = Some(chromaticities.to_primaries());
            },
            ImageDescriptionInfoEvent::TargetLuminance { min_lum, max_lum } => {
                self.mastering_luma_range = Some(LumaRange::from_wire(min_lum, max_lum));
            },
            ImageDescriptionInfoEvent::TargetMaxCll { max_cll } => {
                self.target_max_cll = Some(Double::from_unsigned(max_cll, 1));
            },
            ImageDescriptionInfoEvent::TargetMaxFall { max_fall } => {
                self.target_max_fall = Some(Double::from_unsigned(max_fall, 1));
            },
            ImageDescriptionInfoEvent::TargetPrimaries { chromaticities } => {
                self.mastering_primaries = Some(chromaticities.to_primaries());
            },
        }
    }
}

impl Default for ImageDescriptionBuilder {
    fn default() -> (builder: Self)
        ensures
            builder == Self::blank(),
    {
        ImageDescriptionBuilder {
            primaries: None,
            eotf: None,
            luma_range: None,
            ref_luma: None,
            mastering_primaries: None,
            mastering_luma_range: None,
            target_max_cll: None,
            target_max_fall: None,
        }
    }
}

} // verus!
