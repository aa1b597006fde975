//! The parameters from which the compositor makes an image description.
use vstd::prelude::*;

use crate::description::{
    Eotf, ImageDescriptionInfo, LumaRange, NamedEotf, NamedPrimaries, Primaries, CHROMA_SCALE,
    EXPONENT_SCALE, LUMA_SCALE,
};
use crate::double::Double;
use crate::events::Chromaticities;
use crate::fault::Fault;
use crate::protocol::{
    is_primaries_code, is_transfer_function_code, primaries_code_known,
    transfer_function_code_known,
};

verus! {

/// A parameter of an image description that is being made.
#[derive(Clone, Copy, Debug, PartialEq, Eq)]
pub enum Parameter {
    PrimariesNamed { primaries: NamedPrimaries },
    Primaries { chromaticities: Chromaticities },
    TfNamed { tf: NamedEotf },
    /// The exponent in ten-thousandths.
    TfPower { eexp: u32 },
    /// `min_lum` in ten-thousandths of a nit, the others in nits.
    Luminances { min_lum: u32, max_lum: u32, reference_lum: u32 },
    MasteringDisplayPrimaries { chromaticities: Chromaticities },
    /// `min_lum` in ten-thousandths of a nit, `max_lum` in nits.
    MasteringLuminance { min_lum: u32, max_lum: u32 },
    /// In ten-thousandths of a nit.
    MaxCll { max_cll: u32 },
    /// In ten-thousandths of a nit.
    MaxFall { max_fall: u32 },
}

/// The wire numbers of four chromaticities.
pub open spec fn wire_chromaticities(
    red: (Double, Double),
    green: (Double, Double),
    blue: (Double, Double),
    white: (Double, Double),
) -> Chromaticities {
    Chromaticities {
        r_x: red.0.as_signed(CHROMA_SCALE as nat),
        r_y: red.1.as_signed(CHROMA_SCALE as nat),
        g_x: green.0.as_signed(CHROMA_SCALE as nat),
        g_y: green.1.as_signed(CHROMA_SCALE as nat),
        b_x: blue.0.as_signed(CHROMA_SCALE as nat),
        b_y: blue.1.as_signed(CHROMA_SCALE as nat),
        w_x: white.0.as_signed(CHROMA_SCALE as nat),
        w_y: white.1.as_signed(CHROMA_SCALE as nat),
    }
}

fn to_wire(
    red: (Double, Double),
    green: (Double, Double),
    blue: (Double, Double),
    white: (Double, Double),
) -> (wire: Chromaticities)
    ensures
        wire == wire_chromaticities(red, green, blue, white),
{
    Chromaticities {
        r_x: red.0.to_signed(CHROMA_SCALE),
        r_y: red.1.to_signed(CHROMA_SCALE),
        g_x: green.0.to_signed(CHROMA_SCALE),
        g_y: green.1.to_signed(CHROMA_SCALE),
        b_x: blue.0.to_signed(CHROMA_SCALE),
        b_y: blue.1.to_signed(CHROMA_SCALE),
        w_x: white.0.to_signed(CHROMA_SCALE),
        w_y: white.1.to_signed(CHROMA_SCALE),
    }
}

impl Primaries {
    /// The parameter that sets these as the primaries of a description.
    pub open spec fn parameter(self) -> Parameter {
        match self {
            Primaries::Named(primaries) => Parameter::PrimariesNamed { primaries },
            Primaries::Custom { red, green, blue, white } => Parameter::Primaries {
                chromaticities: wire_chromaticities(red, green, blue, white),
            },
        }
    }
}

impl Eotf {
    /// The parameter that sets this as the transfer function of a description.
    pub open spec fn parameter(self) -> Parameter {
        match self {
            Eotf::Named(tf) => Parameter::TfNamed { tf },
            Eotf::Power(power) => Parameter::TfPower {
                eexp: power.as_unsigned(EXPONENT_SCALE as nat),
            },
        }
    }
}

/// The parameter for the primaries of the mastering display, if they are known.
pub open spec fn mastering_primaries_parameters(primaries: Option<Primaries>) -> Seq<Parameter> {
    match primaries {
        Some(Primaries::Custom { red, green, blue, white }) => seq![
            Parameter::MasteringDisplayPrimaries {
                chromaticities: wire_chromaticities(red, green, blue, white),
            },
        ],
        _ => seq![],
    }
}

/// The parameter for the luminances of the mastering display, if they are known.
pub open spec fn mastering_luminance_parameters(range: Option<LumaRange>) -> Seq<Parameter> {
    match range {
        Some(range) => seq![
            Parameter::MasteringLuminance {
                min_lum: range.min.as_unsigned(LUMA_SCALE as nat),
                max_lum: range.max.as_unsigned(1),
            },
        ],
        None => seq![],
    }
}

/// The parameter for the maximum content light level, if it is known.
pub open spec fn max_cll_parameters(level: Option<Double>) -> Seq<Parameter> {
    match level {
        Some(level) => seq![
            Parameter::MaxCll { max_cll: level.as_unsigned(LUMA_SCALE as nat) },
        ],
        None => seq![],
    }
}

/// The parameter for the maximum frame-average light level, if it is known.
pub open spec fn max_fall_parameters(level: Option<Double>) -> Seq<Parameter> {
    match level {
        Some(level) => seq![
            Parameter::MaxFall { max_fall: level.as_unsigned(LUMA_SCALE as nat) },
        ],
        None => seq![],
    }
}

impl ImageDescriptionInfo {
    /// Why no image description can be made from these parameters, if none can.
    pub open spec fn fault(self) -> Option<Fault> {
        match self {
            ImageDescriptionInfo::Parametric { primaries, eotf, mastering_primaries, .. } => {
                if primaries matches Primaries::Named(named) && !is_primaries_code(named.code) {
                    Some(Fault::UnknownPrimaries)
                } else if eotf matches Eotf::Named(named) && !is_transfer_function_code(
                    named.code,
                ) {
                    Some(Fault::UnknownEotf)
                } else if mastering_primaries matches Some(Primaries::Named(_)) {
                    Some(Fault::NamedMasteringPrimaries)
                } else {
                    None
                }
            },
        }
    }

    /// The parameters that make up the description, in the order in which they are sent.
    pub open spec fn parameters(self) -> Seq<Parameter> {
        match self {
            ImageDescriptionInfo::Parametric {
                primaries,
                eotf,
                luma_range,
                ref_luma,
                mastering_primaries,
                mastering_luma_range,
                target_max_cll,
                target_max_fall,
            } => {
                seq![
                    primaries.parameter(),
                    eotf.parameter(),
                    Parameter::Luminances {
                        min_lum: luma_range.min.as_unsigned(LUMA_SCALE as nat),
                        max_lum: luma_range.max.as_unsigned(1),
                        reference_lum: ref_luma.as_unsigned(1),
                    },
                ] + mastering_primaries_parameters(mastering_primaries)
                    + mastering_luminance_parameters(mastering_luma_range) + max_cll_parameters(
                    target_max_cll,
                ) + max_fall_parameters(target_max_fall)
            },
        }
    }

    /// Finds out why no image description can be made from these parameters, if none can.
    pub fn check(&self) -> (fault: Option<Fault>)
        ensures
            fault == self.fault(),
    {
        match self {
            ImageDescriptionInfo::Parametric { primaries, eotf, mastering_primaries, .. } => {
                if let Primaries::Named(named) = primaries {
                    if !primaries_code_known(named.code) {
                        return Some(Fault::UnknownPrimaries);
                    }
                }
                if let Eotf::Named(named) = eotf {
                    if !transfer_function_code_known(named.code) {
                        return Some(Fault::UnknownEotf);
                    }
                }
                if let Some(Primaries::Named(_)) = mastering_primaries {
                    return Some(Fault::NamedMasteringPrimaries);
                }
                None
            },
        }
    }

    /// Lists the parameters that make up the description, in the order in which they are sent.
    pub fn to_parameters(&self) -> (parameters: Vec<Parameter>)
        requires
            self.fault() is None,
        ensures
            parameters@ == self.parameters(),
    {
        match *self {
            ImageDescriptionInfo::Parametric {
                primaries,
                eotf,
                luma_range,
                ref_luma,
                mastering_primaries,
                mastering_luma_range,
                target_max_cll,
                target_max_fall,
            } => {
                let mut parameters: Vec<Parameter> = Vec::new();
                match primaries {
                    Primaries::Named(primaries) => {
                        parameters.push(Parameter::PrimariesNamed { primaries });
                    },
                    Primaries::Custom { red, green, blue, white } => {
                        let chromaticities = to_wire(red, green, blue, white);
                        parameters.push(Parameter::Primaries { chromaticities });
                    },
                }
                match eotf {
                    Eotf::Named(tf) => {
                        parameters.push(Parameter::TfNamed { tf });
                    },
                    Eotf::Power(power) => {
                        let eexp = power.to_unsigned(EXPONENT_SCALE);
                        parameters.push(Parameter::TfPower { eexp });
                    },
                }
                parameters.push(
                    Parameter::Luminances {
                        min_lum: luma_range.min.to_unsigned(LUMA_SCALE),
                        max_lum: luma_range.max.to_unsigned(1),
                        reference_lum: ref_luma.to_unsigned(1),
                    },
                );
                if let Some(Primaries::Custom { red, green, blue, white }) = mastering_primaries {
                    let chromaticities = to_wire(red, green, blue, white);
                    parameters.push(Parameter::MasteringDisplayPrimaries { chromaticities });
                }
                if let Some(range) = mastering_luma_range {
                    parameters.push(
                        Parameter::MasteringLuminance {
                            min_lum: range.min.to_unsigned(LUMA_SCALE),
                            max_lum: range.max.to_unsigned(1),
                        },
                    );
                }
                if let Some(level) = target_max_cll {
                    let max_cll = level.to_unsigned(LUMA_SCALE);
                    parameters.push(Parameter::MaxCll { max_cll });
                }
                if let Some(level) = target_max_fall {
                    let max_fall = level.to_unsigned(LUMA_SCALE);
                    parameters.push(Parameter::MaxFall { max_fall });
                }
                parameters
            },
        }
    }
}

} // verus!
