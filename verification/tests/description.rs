use colortool::description::{
    Eotf, ImageDescriptionBuilder, ImageDescriptionInfo, LumaRange, NamedEotf, NamedPrimaries,
    Primaries,
};
use colortool::double::Double;
use colortool::events::{Chromaticities, ImageDescriptionInfoEvent};
use colortool::fault::Fault;
use colortool::parameters::Parameter;

fn double(x: f64) -> Double {
    Double { bits: x.to_bits() }
}

fn point(x: f64, y: f64) -> (Double, Double) {
    (double(x), double(y))
}

fn bt709() -> Chromaticities {
    Chromaticities {
        r_x: 640_000,
        r_y: 330_000,
        g_x: 300_000,
        g_y: 600_000,
        b_x: 150_000,
        b_y: 60_000,
        w_x: 312_700,
        w_y: 329_000,
    }
}

fn custom() -> Primaries {
    Primaries::Custom {
        red: point(0.64, 0.33),
        green: point(0.3, 0.6),
        blue: point(0.15, 0.06),
        white: point(0.3127, 0.329),
    }
}

fn plain(primaries: Primaries, eotf: Eotf) -> ImageDescriptionInfo {
    ImageDescriptionInfo::Parametric {
        primaries,
        eotf,
        luma_range: LumaRange { min: double(0.2), max: double(80.0) },
        ref_luma: double(80.0),
        mastering_primaries: None,
        mastering_luma_range: None,
        target_max_cll: None,
        target_max_fall: None,
    }
}

fn reported(events: &[ImageDescriptionInfoEvent]) -> ImageDescriptionBuilder {
    let mut builder = ImageDescriptionBuilder::default();
    for event in events {
        builder.apply(*event);
    }
    builder
}

fn full_report() -> Vec<ImageDescriptionInfoEvent> {
    vec![
        ImageDescriptionInfoEvent::Primaries { chromaticities: bt709() },
        ImageDescriptionInfoEvent::TfPower { eexp: 22_000 },
        ImageDescriptionInfoEvent::Luminances { min_lum: 2000, max_lum: 80, reference_lum: 81 },
        ImageDescriptionInfoEvent::TargetPrimaries { chromaticities: bt709() },
        ImageDescriptionInfoEvent::TargetLuminance { min_lum: 50, max_lum: 1000 },
        ImageDescriptionInfoEvent::TargetMaxCll { max_cll: 400 },
        ImageDescriptionInfoEvent::TargetMaxFall { max_fall: 300 },
        ImageDescriptionInfoEvent::IccFile { icc_size: 12 },
    ]
}

#[test]
fn default_builder_is_blank() {
    let builder = ImageDescriptionBuilder::default();
    assert_eq!(builder.primaries, None);
    assert_eq!(builder.eotf, None);
    assert_eq!(builder.luma_range, None);
    assert_eq!(builder.ref_luma, None);
    assert_eq!(builder.mastering_primaries, None);
    assert_eq!(builder.mastering_luma_range, None);
    assert_eq!(builder.target_max_cll, None);
    assert_eq!(builder.target_max_fall, None);
}

#[test]
fn chromaticities_are_read_in_pairs() {
    assert_eq!(bt709().to_primaries(), custom());
}

#[test]
fn build_puts_all_parts_together() {
    assert_eq!(
        reported(&full_report()).build(),
        ImageDescriptionInfo::Parametric {
            primaries: custom(),
            eotf: Eotf::Power(double(2.2)),
            luma_range: LumaRange { min: double(0.2), max: double(80.0) },
            ref_luma: double(81.0),
            mastering_primaries: Some(custom()),
            mastering_luma_range: Some(LumaRange {
                min: double(0.005),
                max: double(1000.0),
            }),
            target_max_cll: Some(double(400.0)),
            target_max_fall: Some(double(300.0)),
        }
    );
}

#[test]
fn reports_about_different_parts_commute() {
    let mut backwards = full_report();
    backwards.reverse();
    assert_eq!(reported(&full_report()), reported(&backwards));
}

#[test]
fn a_later_report_replaces_an_earlier_one() {
    let tf = NamedEotf { code: 11 };
    let builder = reported(&[
        ImageDescriptionInfoEvent::TfPower { eexp: 22_000 },
        ImageDescriptionInfoEvent::TfNamed { tf },
    ]);
    assert_eq!(builder.eotf, Some(Eotf::Named(tf)));
    let primaries = NamedPrimaries { code: 6 };
    let builder = reported(&[
        ImageDescriptionInfoEvent::PrimariesNamed { primaries },
        ImageDescriptionInfoEvent::Primaries { chromaticities: bt709() },
    ]);
    assert_eq!(builder.primaries, Some(custom()));
}

#[test]
fn only_the_last_report_on_each_part_counts() {
    let mut long = vec![
        ImageDescriptionInfoEvent::TfNamed { tf: NamedEotf { code: 3 } },
        ImageDescriptionInfoEvent::TargetMaxCll { max_cll: 7 },
        ImageDescriptionInfoEvent::Luminances { min_lum: 1, max_lum: 2, reference_lum: 3 },
    ];
    let mut rest = full_report();
    rest.rotate_left(3);
    long.extend(rest);
    assert_eq!(reported(&long), reported(&full_report()));
}

#[test]
fn a_report_is_written_back_but_for_lost_units() {
    let events = [
        ImageDescriptionInfoEvent::PrimariesNamed { primaries: NamedPrimaries { code: 1 } },
        ImageDescriptionInfoEvent::TfPower { eexp: 6 },
        ImageDescriptionInfoEvent::Luminances { min_lum: 3, max_lum: 80, reference_lum: 81 },
    ];
    assert_eq!(
        reported(&events).build().to_parameters(),
        vec![
            Parameter::PrimariesNamed { primaries: NamedPrimaries { code: 1 } },
            Parameter::TfPower { eexp: 5 },
            Parameter::Luminances { min_lum: 2, max_lum: 80, reference_lum: 81 },
        ]
    );
}

#[test]
fn a_report_is_written_back() {
    assert_eq!(
        reported(&full_report()).build().to_parameters(),
        vec![
            Parameter::Primaries { chromaticities: bt709() },
            Parameter::TfPower { eexp: 22_000 },
            Parameter::Luminances { min_lum: 2000, max_lum: 80, reference_lum: 81 },
            Parameter::MasteringDisplayPrimaries { chromaticities: bt709() },
            Parameter::MasteringLuminance { min_lum: 50, max_lum: 1000 },
            Parameter::MaxCll { max_cll: 4_000_000 },
            Parameter::MaxFall { max_fall: 3_000_000 },
        ]
    );
}

#[test]
fn light_levels_saturate() {
    let mut builder = reported(&full_report());
    builder.apply(ImageDescriptionInfoEvent::TargetMaxCll { max_cll: 429_497 });
    builder.apply(ImageDescriptionInfoEvent::TargetMaxFall { max_fall: 429_496 });
    let parameters = builder.build().to_parameters();
    assert_eq!(parameters[5], Parameter::MaxCll { max_cll: u32::MAX });
    assert_eq!(parameters[6], Parameter::MaxFall { max_fall: 4_294_960_000 });
}

#[test]
fn optional_parts_are_left_out() {
    let named = Primaries::Named(NamedPrimaries { code: 1 });
    let eotf = Eotf::Named(NamedEotf { code: 2 });
    assert_eq!(
        plain(named, eotf).to_parameters(),
        vec![
            Parameter::PrimariesNamed { primaries: NamedPrimaries { code: 1 } },
            Parameter::TfNamed { tf: NamedEotf { code: 2 } },
            Parameter::Luminances { min_lum: 2000, max_lum: 80, reference_lum: 80 },
        ]
    );
}

#[test]
fn primaries_codes_of_the_protocol() {
    for code in 0..300 {
        let info = plain(Primaries::Named(NamedPrimaries { code }), Eotf::Power(double(1.0)));
        if (1..=10).contains(&code) {
            assert_eq!(info.check(), None);
        } else {
            assert_eq!(info.check(), Some(Fault::UnknownPrimaries));
        }
    }
}

#[test]
fn transfer_function_codes_of_the_protocol() {
    for code in 0..300 {
        let info = plain(custom(), Eotf::Named(NamedEotf { code }));
        if (1..=14).contains(&code) {
            assert_eq!(info.check(), None);
        } else {
            assert_eq!(info.check(), Some(Fault::UnknownEotf));
        }
    }
}

#[test]
fn unknown_primaries_come_before_an_unknown_transfer_function() {
    let named = Primaries::Named(NamedPrimaries { code: 11 });
    let info = plain(named, Eotf::Named(NamedEotf { code: 15 }));
    assert_eq!(info.check(), Some(Fault::UnknownPrimaries));
}

#[test]
fn named_mastering_primaries_cannot_be_written() {
    let ImageDescriptionInfo::Parametric { primaries, eotf, luma_range, ref_luma, .. } =
        plain(custom(), Eotf::Power(double(1.0)));
    let info = ImageDescriptionInfo::Parametric {
        primaries,
        eotf,
        luma_range,
        ref_luma,
        mastering_primaries: Some(Primaries::Named(NamedPrimaries { code: 1 })),
        mastering_luma_range: None,
        target_max_cll: None,
        target_max_fall: None,
    };
    assert_eq!(info.check(), Some(Fault::NamedMasteringPrimaries));
}

#[test]
fn faults_have_words() {
    assert_eq!(Fault::UntrackedOutput.message(), "Got event on untracked output");
    assert_eq!(Fault::UntrackedSurface.message(), "Got event on untracked surface");
    assert_eq!(Fault::MissingFeedback.message(), "Surface has no feedback object");
    assert_eq!(
        Fault::DescriptionFailed.message(),
        "Failed image descriptions are not supported"
    );
    assert_eq!(Fault::MissingSurface.message(), "Surface doesn't exist");
    assert_eq!(Fault::MissingPrimaries.message(), "Missing primaries");
    assert_eq!(Fault::MissingEotf.message(), "Missing EOTF");
    assert_eq!(Fault::MissingLumaRange.message(), "Missing luma range");
    assert_eq!(Fault::MissingRefLuma.message(), "Missing reference white luminance");
    assert_eq!(Fault::OutputNotPending.message(), "Output info should be pending");
    assert_eq!(Fault::SurfaceNotPending.message(), "Surface info should be pending");
    assert_eq!(
        Fault::UnknownPrimaries.message(),
        "Unknown named primary supplied to set_surface_description"
    );
    assert_eq!(
        Fault::UnknownEotf.message(),
        "Unknown named transfer function supplied to set_surface_description"
    );
    assert_eq!(
        Fault::NamedMasteringPrimaries.message(),
        "Named mastering primaries are not supported in set_surface_description"
    );
    assert_eq!(Fault::DescriptionNotReady.message(), "Surface description is not ready");
}
