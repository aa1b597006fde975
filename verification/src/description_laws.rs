//! What holds of reports on image descriptions and of writing them back.
use vstd::prelude::*;

use crate::description::{
    Eotf, ImageDescriptionBuilder, Primaries, CHROMA_SCALE, EXPONENT_SCALE, LUMA_SCALE,
};
use crate::double::Double;
use crate::double_laws::{
    law_signed_comes_back, law_unsigned_comes_back, law_whole_number_is_scaled,
};
use crate::events::{Chromaticities, ImageDescriptionInfoEvent};
use crate::parameters::{
    mastering_luminance_parameters, mastering_primaries_parameters, max_cll_parameters, Parameter,
};
use crate::protocol::{is_primaries_code, is_transfer_function_code};

verus! {

/// A part of a description that is reported by itself.
pub enum Part {
    Primaries,
    Eotf,
    Luminances,
    MasteringPrimaries,
    MasteringLuminance,
    MaxCll,
    MaxFall,
}

/// What is written back for an unsigned wire number that was reported in `unit`-ths.
pub open spec fn echoed(n: u32, unit: u32) -> u32 {
    Double::quotient(n as nat, unit as nat).as_unsigned(unit as nat)
}

/// What is written back for a coordinate of a chromaticity that was reported.
pub open spec fn echoed_coordinate(n: i32) -> i32 {
    Double::signed_quotient(n as int, CHROMA_SCALE as nat).as_signed(CHROMA_SCALE as nat)
}

/// What is written back for chromaticities that were reported.
pub open spec fn echoed_chromaticities(wire: Chromaticities) -> Chromaticities {
    Chromaticities {
        r_x: echoed_coordinate(wire.r_x),
        r_y: echoed_coordinate(wire.r_y),
        g_x: echoed_coordinate(wire.g_x),
        g_y: echoed_coordinate(wire.g_y),
        b_x: echoed_coordinate(wire.b_x),
        b_y: echoed_coordinate(wire.b_y),
        w_x: echoed_coordinate(wire.w_x),
        w_y: echoed_coordinate(wire.w_y),
    }
}

/// What is written back for a light level that was reported in nits: ten-thousandths of a nit,
/// up to the largest number that can travel.
pub open spec fn echoed_level(n: u32) -> u32 {
    if n * LUMA_SCALE > u32::MAX {
        u32::MAX
    } else {
        (n * LUMA_SCALE) as u32
    }
}

impl ImageDescriptionInfoEvent {
    /// The part that the event reports, if it reports one.
    pub open spec fn part(self) -> Option<Part> {
        match self {
            ImageDescriptionInfoEvent::IccFile { .. } => None,
            ImageDescriptionInfoEvent::Done => None,
            ImageDescriptionInfoEvent::PrimariesNamed { .. } => Some(Part::Primaries),
            ImageDescriptionInfoEvent::Primaries { .. } => Some(Part::Primaries),
            ImageDescriptionInfoEvent::TfNamed { .. } => Some(Part::Eotf),
            ImageDescriptionInfoEvent::TfPower { .. } => Some(Part::Eotf),
            ImageDescriptionInfoEvent::Luminances { .. } => Some(Part::Luminances),
            ImageDescriptionInfoEvent::TargetPrimaries { .. } => Some(Part::MasteringPrimaries),
            ImageDescriptionInfoEvent::TargetLuminance { .. } => Some(Part::MasteringLuminance),
            ImageDescriptionInfoEvent::TargetMaxCll { .. } => Some(Part::MaxCll),
            ImageDescriptionInfoEvent::TargetMaxFall { .. } => Some(Part::MaxFall),
        }
    }

    /// The parameter that writes back what the event reports.
    pub open spec fn echo(self) -> Option<Parameter> {
        match self {
            ImageDescriptionInfoEvent::IccFile { .. } => None,
            ImageDescriptionInfoEvent::Done => None,
            ImageDescriptionInfoEvent::PrimariesNamed { primaries } => Some(
                Parameter::PrimariesNamed { primaries },
            ),
            ImageDescriptionInfoEvent::Primaries { chromaticities } => Some(
                Parameter::Primaries { chromaticities: echoed_chromaticities(chromaticities) },
            ),
            ImageDescriptionInfoEvent::TfNamed { tf } => Some(Parameter::TfNamed { tf }),
            ImageDescriptionInfoEvent::TfPower { eexp } => Some(
                Parameter::TfPower { eexp: echoed(eexp, EXPONENT_SCALE) },
            ),
            ImageDescriptionInfoEvent::Luminances { min_lum, max_lum, reference_lum } => Some(
                Parameter::Luminances {
                    min_lum: echoed(min_lum, LUMA_SCALE),
                    max_lum,
                    reference_lum,
                },
            ),
            ImageDescriptionInfoEvent::TargetPrimaries { chromaticities } => Some(
                Parameter::MasteringDisplayPrimaries {
                    chromaticities: echoed_chromaticities(chromaticities),
                },
            ),
            ImageDescriptionInfoEvent::TargetLuminance { min_lum, max_lum } => Some(
                Parameter::MasteringLuminance { min_lum: echoed(min_lum, LUMA_SCALE), max_lum },
            ),
            ImageDescriptionInfoEvent::TargetMaxCll { max_cll } => Some(
                Parameter::MaxCll { max_cll: echoed_level(max_cll) },
            ),
            ImageDescriptionInfoEvent::TargetMaxFall { max_fall } => Some(
                Parameter::MaxFall { max_fall: echoed_level(max_fall) },
            ),
        }
    }

    /// Whether the event names something that the protocol does not know.
    pub open spec fn names_unknown(self) -> bool {
        match self {
            ImageDescriptionInfoEvent::PrimariesNamed { primaries } => !is_primaries_code(
                primaries.code,
            ),
            ImageDescriptionInfoEvent::TfNamed { tf } => !is_transfer_function_code(tf.code),
            _ => false,
        }
    }
}

/// The last event about `part`, if there is one.
pub open spec fn last_about(
    events: Seq<ImageDescriptionInfoEvent>,
    part: Part,
) -> Option<ImageDescriptionInfoEvent>
    decreases events.len(),
{
    if events.len() == 0 {
        None
    } else if events.last().part() == Some(part) {
        Some(events.last())
    } else {
        last_about(events.drop_last(), part)
    }
}

/// The builder after the last event about `part`, alone.
spec fn with_last(
    builder: ImageDescriptionBuilder,
    events: Seq<ImageDescriptionInfoEvent>,
    part: Part,
) -> ImageDescriptionBuilder {
    match last_about(events, part) {
        Some(event) => builder.with(event),
        None => builder,
    }
}

/// Each field is what the last event about it makes it.
proof fn lemma_last_events(
    builder: ImageDescriptionBuilder,
    events: Seq<ImageDescriptionInfoEvent>,
)
    ensures
        ({
            let all = builder.with_all(events);
            let luminances = with_last(builder, events, Part::Luminances);
            let range = with_last(builder, events, Part::MasteringLuminance);
            let primaries = with_last(builder, events, Part::MasteringPrimaries);
            &&& all.primaries == with_last(builder, events, Part::Primaries).primaries
            &&& all.eotf == with_last(builder, events, Part::Eotf).eotf
            &&& all.luma_range == luminances.luma_range
            &&& all.ref_luma == luminances.ref_luma
            &&& all.mastering_primaries == primaries.mastering_primaries
            &&& all.mastering_luma_range == range.mastering_luma_range
            &&& all.target_max_cll == with_last(builder, events, Part::MaxCll).target_max_cll
            &&& all.target_max_fall == with_last(builder, events, Part::MaxFall).target_max_fall
        }),
    decreases events.len(),
{
    if events.len() > 0 {
        lemma_last_events(builder, events.drop_last());
    }
}

/// Only the last event about each part counts: reports that agree on those come to the same,
/// in whatever order the parts come and whatever came before.
pub proof fn law_last_event_decides(
    builder: ImageDescriptionBuilder,
    one: Seq<ImageDescriptionInfoEvent>,
    other: Seq<ImageDescriptionInfoEvent>,
)
    requires
        forall|part: Part| #[trigger] last_about(one, part) == last_about(other, part),
    ensures
        builder.with_all(one) == builder.with_all(other),
{
    lemma_last_events(builder, one);
    lemma_last_events(builder, other);
    assert(forall|part: Part|
        #[trigger] with_last(builder, one, part) == with_last(builder, other, part));
}

/// A part that has arrived stays: a complete description cannot become incomplete.
pub proof fn law_complete_stays_complete(
    builder: ImageDescriptionBuilder,
    events: Seq<ImageDescriptionInfoEvent>,
)
    requires
        builder.complete(),
    ensures
        builder.with_all(events).complete(),
    decreases events.len(),
{
    if events.len() > 0 {
        law_complete_stays_complete(builder, events.drop_last());
    }
}

/// Whether some event reports `part`.
pub open spec fn speaks_of(events: Seq<ImageDescriptionInfoEvent>, part: Part) -> bool {
    exists|i: int| 0 <= i < events.len() && #[trigger] events[i].part() == Some(part)
}

/// A report has all that a description needs exactly when it speaks of the primaries, of the
/// transfer function and of the luminances; the reference luminance never comes without the
/// range.
pub proof fn law_what_a_report_needs(events: Seq<ImageDescriptionInfoEvent>)
    ensures
        ImageDescriptionBuilder::blank().with_all(events).complete() <==> speaks_of(
            events,
            Part::Primaries,
        ) && speaks_of(events, Part::Eotf) && speaks_of(events, Part::Luminances),
        ImageDescriptionBuilder::blank().with_all(events).ref_luma is Some
            <==> ImageDescriptionBuilder::blank().with_all(events).luma_range is Some,
{
    lemma_reported_parts(events);
}

/// Each part that a description needs is there exactly when some event reported it.
proof fn lemma_reported_parts(events: Seq<ImageDescriptionInfoEvent>)
    ensures
        ({
            let builder = ImageDescriptionBuilder::blank().with_all(events);
            &&& builder.primaries is Some <==> speaks_of(events, Part::Primaries)
            &&& builder.eotf is Some <==> speaks_of(events, Part::Eotf)
            &&& builder.luma_range is Some <==> speaks_of(events, Part::Luminances)
            &&& builder.ref_luma is Some <==> speaks_of(events, Part::Luminances)
        }),
    decreases events.len(),
{
    if events.len() > 0 {
        lemma_reported_parts(events.drop_last());
        lemma_speaks_of_last(events, Part::Primaries);
        lemma_speaks_of_last(events, Part::Eotf);
        lemma_speaks_of_last(events, Part::Luminances);
    }
}

proof fn lemma_speaks_of_last(events: Seq<ImageDescriptionInfoEvent>, part: Part)
    requires
        events.len() > 0,
    ensures
        speaks_of(events, part) <==> speaks_of(events.drop_last(), part) || events.last().part()
            == Some(part),
{
    let init = events.drop_last();
    if speaks_of(events, part) {
        let i = choose|i: int| 0 <= i < events.len() && #[trigger] events[i].part() == Some(part);
        if i < init.len() {
            assert(init[i].part() == Some(part));
        }
    }
    if speaks_of(init, part) {
        let i = choose|i: int| 0 <= i < init.len() && #[trigger] init[i].part() == Some(part);
        assert(events[i].part() == Some(part));
    }
    if events.last().part() == Some(part) {
        assert(events[events.len() - 1].part() == Some(part));
    }
}

/// What an event reports stays reported when the same event comes again.
proof fn lemma_last_event_again(
    events: Seq<ImageDescriptionInfoEvent>,
    event: ImageDescriptionInfoEvent,
    part: Part,
)
    requires
        last_about(events, part) == Some(event),
    ensures
        event.part() == Some(part),
        ImageDescriptionBuilder::blank().with_all(events).with(event)
            == ImageDescriptionBuilder::blank().with_all(events),
{
    lemma_about(events, part);
    let again = events.push(event);
    assert(again.drop_last() =~= events);
    assert(again.last() == event);
    law_last_event_decides(ImageDescriptionBuilder::blank(), again, events);
}

/// The last event about a part is about it.
proof fn lemma_about(events: Seq<ImageDescriptionInfoEvent>, part: Part)
    ensures
        last_about(events, part) matches Some(event) ==> event.part() == Some(part),
    decreases events.len(),
{
    if events.len() > 0 {
        lemma_about(events.drop_last(), part);
    }
}

/// When a description that was put together from a report is written, what the report said last
/// of each of its parts is among what is sent.
pub proof fn law_report_is_written_back(
    events: Seq<ImageDescriptionInfoEvent>,
    event: ImageDescriptionInfoEvent,
    part: Part,
)
    requires
        ImageDescriptionBuilder::blank().with_all(events).complete(),
        last_about(events, part) == Some(event),
    ensures
        event.echo() matches Some(parameter)
            && ImageDescriptionBuilder::blank().with_all(events).built().parameters().contains(
            parameter,
        ),
{
    let builder = ImageDescriptionBuilder::blank().with_all(events);
    lemma_last_event_again(events, event, part);
    lemma_whole_nits_come_back(event);
    let all = builder.built().parameters();
    let parameter = event.echo()->0;
    let from_primaries = mastering_primaries_parameters(builder.mastering_primaries);
    let from_luminance = mastering_luminance_parameters(builder.mastering_luma_range);
    let from_cll = max_cll_parameters(builder.target_max_cll);
    let start: int = 3;
    match part {
        Part::Primaries => assert(all[0] == parameter),
        Part::Eotf => assert(all[1] == parameter),
        Part::Luminances => assert(all[2] == parameter),
        Part::MasteringPrimaries => assert(all[start] == parameter),
        Part::MasteringLuminance => assert(all[start + from_primaries.len()] == parameter),
        Part::MaxCll => assert(all[start + from_primaries.len() + from_luminance.len()]
            == parameter),
        Part::MaxFall => assert(all[start + from_primaries.len() + from_luminance.len()
            + from_cll.len()] == parameter),
    }
}

/// What is reported in nits is a whole number of them.
proof fn lemma_whole_nits_come_back(event: ImageDescriptionInfoEvent)
    ensures
        match event {
            ImageDescriptionInfoEvent::Luminances { max_lum, reference_lum, .. } => echoed(
                max_lum,
                1,
            ) == max_lum && echoed(reference_lum, 1) == reference_lum,
            ImageDescriptionInfoEvent::TargetLuminance { max_lum, .. } => echoed(max_lum, 1)
                == max_lum,
            ImageDescriptionInfoEvent::TargetMaxCll { max_cll } => Double::quotient(
                max_cll as nat,
                1,
            ).as_unsigned(LUMA_SCALE as nat) == echoed_level(max_cll),
            ImageDescriptionInfoEvent::TargetMaxFall { max_fall } => Double::quotient(
                max_fall as nat,
                1,
            ).as_unsigned(LUMA_SCALE as nat) == echoed_level(max_fall),
            _ => true,
        },
{
    match event {
        ImageDescriptionInfoEvent::Luminances { max_lum, reference_lum, .. } => {
            law_unsigned_comes_back(max_lum, 1);
            law_unsigned_comes_back(reference_lum, 1);
        },
        ImageDescriptionInfoEvent::TargetLuminance { max_lum, .. } => {
            law_unsigned_comes_back(max_lum, 1);
        },
        ImageDescriptionInfoEvent::TargetMaxCll { max_cll } => {
            law_whole_number_is_scaled(max_cll, LUMA_SCALE as nat);
        },
        ImageDescriptionInfoEvent::TargetMaxFall { max_fall } => {
            law_whole_number_is_scaled(max_fall, LUMA_SCALE as nat);
        },
        _ => {},
    }
}

/// Whether `back` is the coordinate `n` or one nearer to zero, and is `n` if that counts whole
/// sixty-fourths.
pub open spec fn near_zero(back: i32, n: i32) -> bool {
    &&& n >= 0 ==> 0 <= back <= n <= back + 1
    &&& n <= 0 ==> back - 1 <= n <= back <= 0
    &&& n % 15625 == 0 ==> back == n
}

/// A report of custom primaries, a power curve and luminances is complete and can be written, and
/// these are the first of its parameters.
pub proof fn lemma_three_parts(
    events: Seq<ImageDescriptionInfoEvent>,
    wire: Chromaticities,
    eexp: u32,
    min_lum: u32,
    max_lum: u32,
    reference_lum: u32,
)
    requires
        last_about(events, Part::Primaries) == Some(
            ImageDescriptionInfoEvent::Primaries { chromaticities: wire },
        ),
        last_about(events, Part::Eotf) == Some(ImageDescriptionInfoEvent::TfPower { eexp }),
        last_about(events, Part::Luminances) == Some(
            ImageDescriptionInfoEvent::Luminances { min_lum, max_lum, reference_lum },
        ),
    ensures
        ({
            let builder = ImageDescriptionBuilder::blank().with_all(events);
            let all = builder.built().parameters();
            &&& builder.complete()
            &&& builder.built().fault() is None
            &&& all.len() >= 3
            &&& all[0] == (Parameter::Primaries { chromaticities: echoed_chromaticities(wire) })
            &&& all[1] == (Parameter::TfPower { eexp: echoed(eexp, EXPONENT_SCALE) })
            &&& all[2] == (Parameter::Luminances {
                min_lum: echoed(min_lum, LUMA_SCALE),
                max_lum,
                reference_lum,
            })
        }),
{
    lemma_last_events(ImageDescriptionBuilder::blank(), events);
    lemma_about(events, Part::MasteringPrimaries);
    law_unsigned_comes_back(max_lum, 1);
    law_unsigned_comes_back(reference_lum, 1);
}

/// A number of ten-thousandths that was reported, a luminance or an exponent, is written back as
/// it was or one less, and as it was if it counts whole sixteenths. A coordinate is written back
/// as it was or one nearer to zero, and as it was if it counts whole sixty-fourths.
pub proof fn law_echo_is_near(n: u32, coordinate: i32)
    ensures
        echoed(n, LUMA_SCALE) <= n <= echoed(n, LUMA_SCALE) + 1,
        n % 625 == 0 ==> echoed(n, LUMA_SCALE) == n,
        echoed(n, EXPONENT_SCALE) == echoed(n, LUMA_SCALE),
        near_zero(echoed_coordinate(coordinate), coordinate),
{
    law_unsigned_comes_back(n, LUMA_SCALE as nat);
    law_signed_comes_back(coordinate, CHROMA_SCALE as nat);
}

/// A description that was put together from a report can be written back, unless the report
/// names primaries or a transfer function that the protocol does not know.
pub proof fn law_reported_description_can_be_written(events: Seq<ImageDescriptionInfoEvent>)
    requires
        forall|i: int| 0 <= i < events.len() ==> !(#[trigger] events[i].names_unknown()),
        ImageDescriptionBuilder::blank().with_all(events).complete(),
    ensures
        ImageDescriptionBuilder::blank().with_all(events).built().fault() is None,
{
    lemma_reported_names_known(events);
}

spec fn names_known(builder: ImageDescriptionBuilder) -> bool {
    &&& builder.primaries matches Some(Primaries::Named(named))
        ==> is_primaries_code(named.code)
    &&& builder.eotf matches Some(Eotf::Named(named))
        ==> is_transfer_function_code(named.code)
    &&& !(builder.mastering_primaries matches Some(Primaries::Named(_)))
}

proof fn lemma_reported_names_known(events: Seq<ImageDescriptionInfoEvent>)
    requires
        forall|i: int| 0 <= i < events.len() ==> !(#[trigger] events[i].names_unknown()),
    ensures
        names_known(ImageDescriptionBuilder::blank().with_all(events)),
    decreases events.len(),
{
    if events.len() > 0 {
        assert forall|i: int| 0 <= i < events.drop_last().len() implies !(
        #[trigger] events.drop_last()[i].names_unknown()) by {
            assert(!events[i].names_unknown());
        }
        lemma_reported_names_known(events.drop_last());
        assert(!events[events.len() - 1].names_unknown());
    }
}

} // verus!
