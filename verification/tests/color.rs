use colortool::color::{BindError, ColorState};
use colortool::description::{
    Eotf, Feature, ImageDescriptionInfo, LumaRange, NamedEotf, NamedPrimaries, Primaries,
    RenderIntent,
};
use colortool::double::Double;
use colortool::effect::{
    Effect, ImageDescriptionData, OutputFeedbackData, SurfaceFeedbackData,
};
use colortool::events::{
    Chromaticities, ColorManagerEvent, ColorOutputEvent, ImageDescriptionEvent,
    ImageDescriptionInfoEvent, SurfaceFeedbackEvent,
};
use colortool::fault::Fault;
use colortool::parameters::Parameter;

const READY: ImageDescriptionEvent = ImageDescriptionEvent::Ready { identity: 7 };
const READY2: ImageDescriptionEvent =
    ImageDescriptionEvent::Ready2 { identity_hi: 0, identity_lo: 7 };
const DONE: ImageDescriptionInfoEvent = ImageDescriptionInfoEvent::Done;
const PERCEPTUAL: RenderIntent = RenderIntent { code: 0 };

fn double(x: f64) -> Double {
    Double { bits: x.to_bits() }
}

fn bound() -> ColorState {
    ColorState::bind(Ok(())).unwrap()
}

fn data(image: u64) -> ImageDescriptionData {
    ImageDescriptionData { image }
}

fn srgb() -> ImageDescriptionInfo {
    ImageDescriptionInfo::Parametric {
        primaries: Primaries::Named(NamedPrimaries { code: 1 }),
        eotf: Eotf::Named(NamedEotf { code: 9 }),
        luma_range: LumaRange { min: double(0.2), max: double(80.0) },
        ref_luma: double(80.0),
        mastering_primaries: None,
        mastering_luma_range: None,
        target_max_cll: None,
        target_max_fall: None,
    }
}

fn report() -> Vec<ImageDescriptionInfoEvent> {
    vec![
        ImageDescriptionInfoEvent::PrimariesNamed { primaries: NamedPrimaries { code: 1 } },
        ImageDescriptionInfoEvent::TfNamed { tf: NamedEotf { code: 9 } },
        ImageDescriptionInfoEvent::Luminances { min_lum: 2000, max_lum: 80, reference_lum: 80 },
    ]
}

fn feed(state: &mut ColorState, image: u64, events: &[ImageDescriptionInfoEvent]) {
    for event in events {
        assert_eq!(state.check_image_description_info_event(data(image), *event), None);
        assert_eq!(state.image_description_info_event(data(image), *event), vec![]);
    }
}

#[test]
fn bind_passes_errors_on() {
    assert!(matches!(
        ColorState::bind(Err(BindError::NotPresent)),
        Err(BindError::NotPresent)
    ));
    assert!(matches!(
        ColorState::bind(Err(BindError::UnsupportedVersion)),
        Err(BindError::UnsupportedVersion)
    ));
}

#[test]
fn a_new_state_knows_nothing() {
    let state = bound();
    assert!(!state.has_image(0));
    assert_eq!(state.get_surface_description(1), None);
    assert!(state.supported_features().is_empty());
    assert!(state.has_room(u64::MAX));
}

#[test]
fn tracking_an_output_asks_for_its_description() {
    let mut state = bound();
    assert_eq!(
        state.track_output(5),
        vec![
            Effect::GetOutput { output: 5, manager: 0, data: OutputFeedbackData { output: 5 } },
            Effect::GetImageDescription { manager: 0, image: 1, data: data(1) },
        ]
    );
    assert!(state.has_image(1));
    assert!(!state.has_image(0));
    assert!(!state.has_room(u64::MAX - 1));
    assert!(state.has_room(u64::MAX - 2));
}

#[test]
fn the_first_report_on_an_output_has_no_outcome() {
    let mut state = bound();
    state.track_output(5);
    state.image_description_event(data(1), READY);
    feed(&mut state, 1, &report());
    assert_eq!(
        state.check_image_description_info_event(data(1), DONE),
        Some(Fault::OutputNotPending)
    );
}

#[test]
fn a_changed_output_is_reported() {
    let mut state = bound();
    state.track_output(5);
    let feedback = OutputFeedbackData { output: 5 };
    assert_eq!(state.check_output_event(5), None);
    assert_eq!(
        state.output_event(feedback, ColorOutputEvent::ImageDescriptionChanged),
        vec![Effect::GetImageDescription { manager: 0, image: 2, data: data(2) }]
    );
    assert_eq!(
        state.image_description_event(data(2), READY2),
        vec![Effect::GetInformation { image: 2, data: data(2) }]
    );
    feed(&mut state, 2, &report());
    assert_eq!(state.check_image_description_info_event(data(2), DONE), None);
    assert_eq!(
        state.image_description_info_event(data(2), DONE),
        vec![Effect::OutputUpdate { image: 2, output: 5, description: srgb() }]
    );
}

#[test]
fn a_report_on_a_released_output_is_not_passed_on() {
    let mut state = bound();
    state.track_output(5);
    state.image_description_event(data(1), READY);
    feed(&mut state, 1, &report());
    state.release_output(5);
    assert_eq!(state.check_image_description_info_event(data(1), DONE), None);
    assert_eq!(state.image_description_info_event(data(1), DONE), vec![]);
    assert_eq!(state.check_output_event(5), Some(Fault::UntrackedOutput));
}

#[test]
fn tracking_a_surface_asks_for_its_preferred_description() {
    let mut state = bound();
    assert_eq!(
        state.track_surface(9),
        vec![
            Effect::GetSurface { surface: 9, manager: 0 },
            Effect::GetSurfaceFeedback {
                surface: 9,
                feedback: 1,
                data: SurfaceFeedbackData { surface: 9 },
            },
            Effect::GetPreferredParametric { feedback: 1, image: 2, data: data(2) },
        ]
    );
    assert!(!state.is_surface_description_ready(9));
}

#[test]
fn tracking_a_managed_surface_keeps_its_manager() {
    let mut state = bound();
    state.set_surface_description(9, srgb(), PERCEPTUAL);
    assert_eq!(
        state.track_surface(9),
        vec![
            Effect::GetSurfaceFeedback {
                surface: 9,
                feedback: 3,
                data: SurfaceFeedbackData { surface: 9 },
            },
            Effect::GetPreferredParametric { feedback: 3, image: 4, data: data(4) },
        ]
    );
}

#[test]
fn a_tracked_surface_is_reported_and_read() {
    let mut state = bound();
    state.track_surface(9);
    assert_eq!(state.check_image_description_event(data(2), READY), None);
    assert_eq!(
        state.image_description_event(data(2), READY),
        vec![Effect::GetInformation { image: 2, data: data(2) }]
    );
    feed(&mut state, 2, &[ImageDescriptionInfoEvent::IccFile { icc_size: 99 }]);
    feed(&mut state, 2, &report());
    assert!(!state.is_surface_description_ready(9));
    assert_eq!(
        state.image_description_info_event(data(2), DONE),
        vec![Effect::SurfaceUpdate { image: 2, surface: 9, description: srgb() }]
    );
    assert!(state.is_surface_description_ready(9));
    assert_eq!(state.get_surface_description(9), Some(srgb()));
}

#[test]
fn a_changed_surface_is_reported_and_read() {
    let mut state = bound();
    state.track_surface(9);
    state.image_description_event(data(2), READY);
    feed(&mut state, 2, &report());
    state.image_description_info_event(data(2), DONE);
    let feedback = SurfaceFeedbackData { surface: 9 };
    let event = SurfaceFeedbackEvent::PreferredChanged { identity: 3 };
    assert_eq!(state.check_surface_feedback_event(9), None);
    assert_eq!(
        state.surface_feedback_event(feedback, event),
        vec![Effect::GetPreferredParametric { feedback: 1, image: 3, data: data(3) }]
    );
    state.image_description_event(data(3), READY2);
    feed(&mut state, 3, &report());
    feed(&mut state, 3, &[ImageDescriptionInfoEvent::TfPower { eexp: 24_000 }]);
    let effects = state.image_description_info_event(data(3), DONE);
    assert_eq!(effects.len(), 1);
    let Some(ImageDescriptionInfo::Parametric { eotf, .. }) = state.get_surface_description(9)
    else {
        panic!("no description");
    };
    assert_eq!(eotf, Eotf::Power(double(2.4)));
}

#[test]
fn both_forms_of_a_changed_preference_do_the_same() {
    let mut one = bound();
    let mut other = bound();
    one.track_surface(9);
    other.track_surface(9);
    let feedback = SurfaceFeedbackData { surface: 9 };
    assert_eq!(
        one.surface_feedback_event(
            feedback,
            SurfaceFeedbackEvent::PreferredChanged { identity: 3 }
        ),
        other.surface_feedback_event(
            feedback,
            SurfaceFeedbackEvent::PreferredChanged2 { identity_hi: 1, identity_lo: 3 }
        )
    );
}

#[test]
fn a_written_description_is_read_back() {
    let mut state = bound();
    assert_eq!(srgb().check(), None);
    assert_eq!(
        state.set_surface_description(9, srgb(), RenderIntent { code: 1 }),
        vec![
            Effect::CreateParametricCreator { creator: 0 },
            Effect::SetParameter {
                creator: 0,
                parameter: Parameter::PrimariesNamed { primaries: NamedPrimaries { code: 1 } },
            },
            Effect::SetParameter {
                creator: 0,
                parameter: Parameter::TfNamed { tf: NamedEotf { code: 9 } },
            },
            Effect::SetParameter {
                creator: 0,
                parameter: Parameter::Luminances {
                    min_lum: 2000,
                    max_lum: 80,
                    reference_lum: 80,
                },
            },
            Effect::Create { creator: 0, image: 1, data: data(1) },
            Effect::GetSurface { surface: 9, manager: 2 },
        ]
    );
    assert!(!state.is_surface_description_ready(9));
    // Something else happens in between.
    state.track_output(5);
    state.track_surface(10);
    assert_eq!(
        state.image_description_event(data(1), READY),
        vec![
            Effect::SetImageDescription {
                manager: 2,
                image: 1,
                render_intent: RenderIntent { code: 1 },
            },
            Effect::CommitSurface { surface: 9 },
        ]
    );
    assert_eq!(state.get_surface_description(9), Some(srgb()));
    // Becoming ready again, and reports, change nothing.
    assert_eq!(state.image_description_event(data(1), READY), vec![]);
    feed(&mut state, 1, &[ImageDescriptionInfoEvent::TfPower { eexp: 1 }, DONE]);
    assert_eq!(state.get_surface_description(9), Some(srgb()));
    // Other surfaces make no difference.
    state.release_surface(10);
    assert_eq!(state.get_surface_description(9), Some(srgb()));
    state.release_surface(9);
    assert_eq!(state.get_surface_description(9), None);
}

#[test]
fn what_does_not_travel_is_still_read_back() {
    let written = ImageDescriptionInfo::Parametric {
        primaries: Primaries::Custom {
            red: (double(0.640_000_9), double(-0.330_000_9)),
            green: (double(0.3), double(0.6)),
            blue: (double(0.15), double(0.06)),
            white: (double(f64::NAN), double(1e9)),
        },
        eotf: Eotf::Power(double(2.200_09)),
        luma_range: LumaRange { min: double(0.000_19), max: double(80.75) },
        ref_luma: double(203.5),
        mastering_primaries: None,
        mastering_luma_range: None,
        target_max_cll: Some(double(1e-9)),
        target_max_fall: Some(double(f64::INFINITY)),
    };
    let mut state = bound();
    assert_eq!(written.check(), None);
    let effects = state.set_surface_description(9, written, PERCEPTUAL);
    let sent: Vec<Parameter> = effects
        .iter()
        .filter_map(|effect| match effect {
            Effect::SetParameter { parameter, .. } => Some(*parameter),
            _ => None,
        })
        .collect();
    assert_eq!(
        sent,
        vec![
            Parameter::Primaries {
                chromaticities: Chromaticities {
                    r_x: 640_000,
                    r_y: -330_000,
                    g_x: 300_000,
                    g_y: 600_000,
                    b_x: 150_000,
                    b_y: 60_000,
                    w_x: 0,
                    w_y: i32::MAX,
                },
            },
            Parameter::TfPower { eexp: 22_000 },
            Parameter::Luminances { min_lum: 1, max_lum: 80, reference_lum: 203 },
            Parameter::MaxCll { max_cll: 0 },
            Parameter::MaxFall { max_fall: u32::MAX },
        ]
    );
    state.image_description_event(data(1), READY);
    assert_eq!(state.get_surface_description(9), Some(written));
}

#[test]
fn a_report_amid_other_events_is_passed_on() {
    let mut state = bound();
    state.track_surface(9);
    let tf = NamedEotf { code: 11 };
    state.color_manager_event(ColorManagerEvent::SupportedTfNamed { tf });
    state.track_output(5);
    state.image_description_event(data(2), READY);
    feed(&mut state, 2, &report()[..2]);
    state.set_surface_description(10, srgb(), PERCEPTUAL);
    state.image_description_event(data(4), READY);
    feed(&mut state, 4, &[ImageDescriptionInfoEvent::TfPower { eexp: 1 }]);
    feed(&mut state, 2, &report()[2..]);
    assert_eq!(
        state.image_description_info_event(data(2), DONE),
        vec![Effect::SurfaceUpdate { image: 2, surface: 9, description: srgb() }]
    );
    assert_eq!(state.get_surface_description(9), Some(srgb()));
    assert_eq!(state.supported_tfs(), &vec![tf]);
}

#[test]
fn a_written_description_for_a_released_surface_has_no_outcome() {
    let mut state = bound();
    state.set_surface_description(9, srgb(), PERCEPTUAL);
    state.release_surface(9);
    assert_eq!(
        state.check_image_description_event(data(1), READY),
        Some(Fault::MissingSurface)
    );
}

#[test]
fn a_failed_description_has_no_outcome() {
    let mut state = bound();
    state.track_surface(9);
    assert_eq!(
        state.check_image_description_event(data(2), ImageDescriptionEvent::Failed { cause: 1 }),
        Some(Fault::DescriptionFailed)
    );
}

#[test]
fn an_incomplete_report_has_no_outcome() {
    let expected = [
        Fault::MissingPrimaries,
        Fault::MissingEotf,
        Fault::MissingLumaRange,
    ];
    let mut state = bound();
    state.track_surface(9);
    state.image_description_event(data(2), READY);
    for (fault, event) in expected.iter().zip(report()) {
        assert_eq!(
            state.check_image_description_info_event(data(2), DONE),
            Some(*fault)
        );
        feed(&mut state, 2, &[event]);
    }
    assert_eq!(state.check_image_description_info_event(data(2), DONE), None);
}

#[test]
fn a_second_report_without_a_change_has_no_outcome() {
    let mut state = bound();
    state.track_surface(9);
    state.track_surface(9);
    for image in [2, 4] {
        state.image_description_event(data(image), READY);
        feed(&mut state, image, &report());
    }
    // The report on the older description makes the newer one current.
    assert_eq!(
        state.image_description_info_event(data(2), DONE),
        vec![Effect::SurfaceUpdate { image: 4, surface: 9, description: srgb() }]
    );
    assert_eq!(
        state.check_image_description_info_event(data(4), DONE),
        Some(Fault::SurfaceNotPending)
    );
}

#[test]
fn feedback_needs_a_tracked_surface() {
    let mut state = bound();
    assert_eq!(state.check_surface_feedback_event(9), Some(Fault::UntrackedSurface));
    state.set_surface_description(9, srgb(), PERCEPTUAL);
    assert_eq!(state.check_surface_feedback_event(9), Some(Fault::MissingFeedback));
    state.track_surface(9);
    assert_eq!(state.check_surface_feedback_event(9), None);
}

#[test]
fn a_surface_takes_on_an_image_description() {
    let mut state = bound();
    state.track_surface(9);
    assert_eq!(
        state.set_surface_description_proxy(9, 2, RenderIntent { code: 4 }),
        vec![
            Effect::SetImageDescription {
                manager: 0,
                image: 2,
                render_intent: RenderIntent { code: 4 },
            },
            Effect::CommitSurface { surface: 9 },
        ]
    );
    assert_eq!(
        state.set_surface_description_proxy(10, 2, PERCEPTUAL),
        vec![
            Effect::GetSurface { surface: 10, manager: 3 },
            Effect::SetImageDescription { manager: 3, image: 2, render_intent: PERCEPTUAL },
            Effect::CommitSurface { surface: 10 },
        ]
    );
}

#[test]
fn supported_features_are_kept_in_order() {
    let mut state = bound();
    for code in [3, 1, 3] {
        let feature = Feature { code };
        assert_eq!(
            state.color_manager_event(ColorManagerEvent::SupportedFeature { feature }),
            vec![]
        );
    }
    let primaries = NamedPrimaries { code: 6 };
    state.color_manager_event(ColorManagerEvent::SupportedPrimariesNamed { primaries });
    state.color_manager_event(ColorManagerEvent::SupportedIntent { render_intent: PERCEPTUAL });
    let tf = NamedEotf { code: 11 };
    state.color_manager_event(ColorManagerEvent::SupportedTfNamed { tf });
    assert_eq!(
        state.color_manager_event(ColorManagerEvent::Done),
        vec![Effect::CompositorFeatures]
    );
    assert_eq!(
        state.supported_features(),
        &vec![Feature { code: 3 }, Feature { code: 1 }, Feature { code: 3 }]
    );
    assert_eq!(state.supported_primaries(), &vec![primaries]);
    assert_eq!(state.supported_idents(), &vec![PERCEPTUAL]);
    assert_eq!(state.supported_tfs(), &vec![tf]);
}
