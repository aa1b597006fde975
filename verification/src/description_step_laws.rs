//! What each part of a report and each parameter of a description means.
use vstd::prelude::*;

use crate::description::{
    Eotf, ImageDescriptionBuilder, ImageDescriptionInfo, LumaRange, Primaries,
};
use crate::double::Double;
use crate::events::{Chromaticities, ImageDescriptionInfoEvent};
use crate::fault::Fault;
use crate::parameters::Parameter;

verus! {

/// Whether the point is the one that the two wire numbers count in millionths.
pub open spec fn is_point(point: (Double, Double), x: i32, y: i32) -> bool {
    &&& point.0 == Double::signed_quotient(x as int, 1_000_000)
    &&& point.1 == Double::signed_quotient(y as int, 1_000_000)
}

/// Whether the primaries are those that the eight wire numbers count in millionths.
pub open spec fn are_primaries(primaries: Option<Primaries>, wire: Chromaticities) -> bool {
    primaries matches Some(Primaries::Custom { red, green, blue, white }) && is_point(
        red,
        wire.r_x,
        wire.r_y,
    ) && is_point(green, wire.g_x, wire.g_y) && is_point(blue, wire.b_x, wire.b_y) && is_point(
        white,
        wire.w_x,
        wire.w_y,
    )
}

/// Whether the range goes from a number of ten-thousandths of a nit to a number of nits.
pub open spec fn is_range(range: Option<LumaRange>, min_lum: u32, max_lum: u32) -> bool {
    range matches Some(range) && range.min == Double::quotient(min_lum as nat, 10_000) && range.max
        == Double::quotient(max_lum as nat, 1)
}

/// Each event sets what it reports, in the unit of the wire, and leaves every other part as it was.
pub proof fn law_event_sets_what_it_reports(
    builder: ImageDescriptionBuilder,
    event: ImageDescriptionInfoEvent,
)
    ensures
        ({
            let after = builder.with(event);
            let sets_primaries = event is PrimariesNamed || event is Primaries;
            let sets_eotf = event is TfNamed || event is TfPower;
            &&& !sets_primaries ==> after.primaries == builder.primaries
            &&& !sets_eotf ==> after.eotf == builder.eotf
            &&& !(event is Luminances) ==> after.luma_range == builder.luma_range && after.ref_luma
                == builder.ref_luma
            &&& !(event is TargetPrimaries) ==> after.mastering_primaries
                == builder.mastering_primaries
            &&& !(event is TargetLuminance) ==> after.mastering_luma_range
                == builder.mastering_luma_range
            &&& !(event is TargetMaxCll) ==> after.target_max_cll == builder.target_max_cll
            &&& !(event is TargetMaxFall) ==> after.target_max_fall == builder.target_max_fall
            &&& match event {
                ImageDescriptionInfoEvent::IccFile { .. } => after == builder,
                ImageDescriptionInfoEvent::Done => after == builder,
                ImageDescriptionInfoEvent::PrimariesNamed { primaries } => after.primaries == Some(
                    Primaries::Named(primaries),
                ),
                ImageDescriptionInfoEvent::Primaries { chromaticities } => are_primaries(
                    after.primaries,
                    chromaticities,
                ),
                ImageDescriptionInfoEvent::TfNamed { tf } => after.eotf == Some(Eotf::Named(tf)),
                ImageDescriptionInfoEvent::TfPower { eexp } => after.eotf == Some(
                    Eotf::Power(Double::quotient(eexp as nat, 10_000)),
                ),
                ImageDescriptionInfoEvent::Luminances { min_lum, max_lum, reference_lum } =>
                    is_range(after.luma_range, min_lum, max_lum) && after.ref_luma == Some(
                    Double::quotient(reference_lum as nat, 1),
                ),
                ImageDescriptionInfoEvent::TargetPrimaries { chromaticities } => are_primaries(
                    after.mastering_primaries,
                    chromaticities,
                ),
                ImageDescriptionInfoEvent::TargetLuminance { min_lum, max_lum } => is_range(
                    after.mastering_luma_range,
                    min_lum,
                    max_lum,
                ),
                ImageDescriptionInfoEvent::TargetMaxCll { max_cll } => after.target_max_cll == Some(
                    Double::quotient(max_cll as nat, 1),
                ),
                ImageDescriptionInfoEvent::TargetMaxFall { max_fall } => after.target_max_fall
                    == Some(Double::quotient(max_fall as nat, 1)),
            }
        }),
{
}

/// The wire numbers on their own make the same primaries and the same range.
pub proof fn law_wire_numbers_have_units(wire: Chromaticities, min_lum: u32, max_lum: u32)
    ensures
        are_primaries(Some(wire.as_primaries()), wire),
        is_range(Some(LumaRange::reported(min_lum, max_lum)), min_lum, max_lum),
{
}

/// Events are taken in one after the other, from a builder that knows nothing.
pub proof fn law_events_are_taken_in_order(
    builder: ImageDescriptionBuilder,
    events: Seq<ImageDescriptionInfoEvent>,
    event: ImageDescriptionInfoEvent,
)
    ensures
        builder.with_all(seq![]) == builder,
        builder.with_all(events.push(event)) == builder.with_all(events).with(event),
        ImageDescriptionBuilder::blank() == (ImageDescriptionBuilder {
            primaries: None,
            eotf: None,
            luma_range: None,
            ref_luma: None,
            mastering_primaries: None,
            mastering_luma_range: None,
            target_max_cll: None,
            target_max_fall: None,
        }),
{
    assert(events.push(event).drop_last() =~= events);
}

/// A builder is complete exactly if the four parts that a description cannot do without are there,
/// and the description that it makes has each part as it is.
pub proof fn law_description_has_the_parts(builder: ImageDescriptionBuilder)
    ensures
        builder.complete() <==> builder.primaries is Some && builder.eotf is Some
            && builder.luma_range is Some && builder.ref_luma is Some,
        builder.built() matches ImageDescriptionInfo::Parametric {
            primaries,
            eotf,
            luma_range,
            ref_luma,
            mastering_primaries,
            mastering_luma_range,
            target_max_cll,
            target_max_fall,
        } && {
            &&& builder.primaries is Some ==> builder.primaries == Some(primaries)
            &&& builder.eotf is Some ==> builder.eotf == Some(eotf)
            &&& builder.luma_range is Some ==> builder.luma_range == Some(luma_range)
            &&& builder.ref_luma is Some ==> builder.ref_luma == Some(ref_luma)
            &&& mastering_primaries == builder.mastering_primaries
            &&& mastering_luma_range == builder.mastering_luma_range
            &&& target_max_cll == builder.target_max_cll
            &&& target_max_fall == builder.target_max_fall
        },
{
}

/// Whether the wire numbers are the coordinates in millionths.
pub open spec fn are_coordinates(
    wire: Chromaticities,
    red: (Double, Double),
    green: (Double, Double),
    blue: (Double, Double),
    white: (Double, Double),
) -> bool {
    &&& wire.r_x == red.0.as_signed(1_000_000) && wire.r_y == red.1.as_signed(1_000_000)
    &&& wire.g_x == green.0.as_signed(1_000_000) && wire.g_y == green.1.as_signed(1_000_000)
    &&& wire.b_x == blue.0.as_signed(1_000_000) && wire.b_y == blue.1.as_signed(1_000_000)
    &&& wire.w_x == white.0.as_signed(1_000_000) && wire.w_y == white.1.as_signed(1_000_000)
}

/// One if the optional part is there.
pub open spec fn counted<T>(part: Option<T>) -> int {
    if part is Some {
        1
    } else {
        0
    }
}

/// A description that can be written is sent part by part, each once, in the unit of the wire: the
/// primaries, the transfer function and the luminances, and then, as far as they are there, the
/// mastering primaries, the mastering luminances, the maximum content light level and the maximum
/// frame-average light level.
pub proof fn law_parameters_say_the_description(
    primaries: Primaries,
    eotf: Eotf,
    luma_range: LumaRange,
    ref_luma: Double,
    mastering_primaries: Option<Primaries>,
    mastering_luma_range: Option<LumaRange>,
    target_max_cll: Option<Double>,
    target_max_fall: Option<Double>,
)
    requires
        !(mastering_primaries matches Some(Primaries::Named(_))),
    ensures
        ({
            let sent = (ImageDescriptionInfo::Parametric {
                primaries,
                eotf,
                luma_range,
                ref_luma,
                mastering_primaries,
                mastering_luma_range,
                target_max_cll,
                target_max_fall,
            }).parameters();
            let at_range = 3 + counted(mastering_primaries);
            let at_cll = at_range + counted(mastering_luma_range);
            let at_fall = at_cll + counted(target_max_cll);
            &&& sent.len() == at_fall + counted(target_max_fall)
            &&& match primaries {
                Primaries::Named(named) => sent[0] == (Parameter::PrimariesNamed {
                    primaries: named,
                }),
                Primaries::Custom { red, green, blue, white } => sent[0] matches
                    Parameter::Primaries { chromaticities } && are_coordinates(
                    chromaticities,
                    red,
                    green,
                    blue,
                    white,
                ),
            }
            &&& match eotf {
                Eotf::Named(tf) => sent[1] == (Parameter::TfNamed { tf }),
                Eotf::Power(power) => sent[1] == (Parameter::TfPower {
                    eexp: power.as_unsigned(10_000),
                }),
            }
            &&& sent[2] == (Parameter::Luminances {
                min_lum: luma_range.min.as_unsigned(10_000),
                max_lum: luma_range.max.as_unsigned(1),
                reference_lum: ref_luma.as_unsigned(1),
            })
            &&& match mastering_primaries {
                Some(Primaries::Custom { red, green, blue, white }) => sent[3] matches
                    Parameter::MasteringDisplayPrimaries { chromaticities } && are_coordinates(
                    chromaticities,
                    red,
                    green,
                    blue,
                    white,
                ),
                _ => true,
            }
            &&& mastering_luma_range matches Some(range) ==> sent[at_range] == (
            Parameter::MasteringLuminance {
                min_lum: range.min.as_unsigned(10_000),
                max_lum: range.max.as_unsigned(1),
            })
            &&& target_max_cll matches Some(level) ==> sent[at_cll] == (Parameter::MaxCll {
                max_cll: level.as_unsigned(10_000),
            })
            &&& target_max_fall matches Some(level) ==> sent[at_fall] == (Parameter::MaxFall {
                max_fall: level.as_unsigned(10_000),
            })
        }),
{
}

/// A description can be written exactly if the primaries and the transfer function that it names
/// are ones that the protocol knows, and it does not name its mastering primaries. What is found
/// first, in that order, is the fault.
pub proof fn law_known_names_can_be_written(
    primaries: Primaries,
    eotf: Eotf,
    luma_range: LumaRange,
    ref_luma: Double,
    mastering_primaries: Option<Primaries>,
    mastering_luma_range: Option<LumaRange>,
    target_max_cll: Option<Double>,
    target_max_fall: Option<Double>,
)
    ensures
        ({
            let fault = (ImageDescriptionInfo::Parametric {
                primaries,
                eotf,
                luma_range,
                ref_luma,
                mastering_primaries,
                mastering_luma_range,
                target_max_cll,
                target_max_fall,
            }).fault();
            let primaries_known = match primaries {
                Primaries::Named(named) => 1 <= named.code <= 10,
                _ => true,
            };
            let eotf_known = match eotf {
                Eotf::Named(named) => 1 <= named.code <= 14,
                _ => true,
            };
            let mastering_named = match mastering_primaries {
                Some(Primaries::Named(_)) => true,
                _ => false,
            };
            &&& fault is None <==> primaries_known && eotf_known && !mastering_named
            &&& !primaries_known ==> fault == Some(Fault::UnknownPrimaries)
            &&& primaries_known && !eotf_known ==> fault == Some(Fault::UnknownEotf)
            &&& primaries_known && eotf_known && mastering_named ==> fault == Some(
                Fault::NamedMasteringPrimaries,
            )
        }),
{
}

} // verus!
