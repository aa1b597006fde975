use colortool::app::App;
use colortool::app_model::{AppEffect, BufferUsage};
use colortool::color::ColorState;
use colortool::description::RenderIntent;
use colortool::effect::{Effect, ImageDescriptionData, SurfaceFeedbackData};
use colortool::pixel::{Pixel, HALF_ONE};
use colortool::spotread::MeterError;

fn opened() -> (App, Vec<AppEffect>) {
    App::new(ColorState::bind(Ok(())).unwrap(), 9)
}

/// A window whose two buffers exist: 100 at the front, 101 at the back.
fn ready() -> App {
    let (mut app, _) = opened();
    app.created(0, 100);
    app.created(1, 101);
    app
}

fn allocation(
    params: u64,
    width: u32,
    height: u32,
    usage: BufferUsage,
    replaces: Option<u64>,
) -> AppEffect {
    AppEffect::AllocateBuffer {
        params,
        width,
        height,
        usage,
        stride: 8 * width,
        wire_width: width as i32,
        wire_height: height as i32,
        format: 0x4834_4241,
        replaces,
    }
}

fn shown(params: u64, buffer: u64, color: Pixel) -> Vec<AppEffect> {
    vec![
        AppEffect::Paint { params, width: 256, height: 256, color },
        AppEffect::AttachBuffer { buffer: Some(buffer) },
        AppEffect::DamageSurface { width: 256, height: 256 },
        AppEffect::RequestFrame,
        AppEffect::CommitSurface,
    ]
}

const BLACK: Pixel = Pixel { r: 0, g: 0, b: 0, a: 0x3c00 };

#[test]
fn opening_sets_everything_up_in_order() {
    let (app, effects) = opened();
    let data = ImageDescriptionData { image: 2 };
    assert_eq!(
        effects,
        vec![
            AppEffect::SetWindowSize { width: 256, height: 256 },
            AppEffect::DisableKeyboard,
            AppEffect::CommitWindow,
            AppEffect::RequestFrame,
            AppEffect::CommitSurface,
            AppEffect::Color(Effect::GetSurface { surface: 9, manager: 0 }),
            AppEffect::Color(Effect::GetSurfaceFeedback {
                surface: 9,
                feedback: 1,
                data: SurfaceFeedbackData { surface: 9 },
            }),
            AppEffect::Color(Effect::GetPreferredParametric { feedback: 1, image: 2, data }),
            AppEffect::OpenDevice,
            AppEffect::StartMeter,
            allocation(0, 256, 256, BufferUsage::Rendering, None),
            allocation(1, 256, 256, BufferUsage::Rendering, None),
        ]
    );
    assert!(!app.is_running());
    assert_eq!(app.active_output(), None);
    assert_eq!(app.detected_swatch(), &None);
}

#[test]
fn a_frame_before_the_buffer_exists_only_paints() {
    let (mut app, _) = opened();
    assert_eq!(
        app.frame(),
        vec![AppEffect::Paint { params: 0, width: 256, height: 256, color: BLACK }]
    );
    assert_eq!(app.frame(), vec![]);
}

#[test]
fn creating_the_front_buffer_shows_it() {
    let (mut app, _) = opened();
    assert_eq!(app.created(1, 101), vec![]);
    assert_eq!(
        app.created(0, 100),
        vec![AppEffect::AttachBuffer { buffer: Some(100) }, AppEffect::CommitSurface]
    );
    assert_eq!(app.created(7, 107), vec![]);
}

#[test]
fn buffers_take_turns() {
    let mut app = ready();
    assert_eq!(app.frame(), shown(0, 100, BLACK));
    assert_eq!(app.frame(), shown(1, 101, BLACK));
    assert_eq!(app.frame(), vec![]);
    app.released(100);
    assert_eq!(app.frame(), shown(0, 100, BLACK));
    app.released(55);
    assert_eq!(app.frame(), vec![]);
    app.released(101);
    assert_eq!(app.frame(), shown(1, 101, BLACK));
}

#[test]
fn a_color_is_shown_and_measured_once() {
    let mut app = ready();
    app.set_swatch(HALF_ONE, 0, 7);
    let color = Pixel { r: 0x3c00, g: 0, b: 7, a: 0x3c00 };
    let mut expected = shown(0, 100, color);
    expected.push(AppEffect::ScheduleMeasurement { millis: 200 });
    assert_eq!(app.frame(), expected);
    assert_eq!(app.frame(), shown(1, 101, color));
}

#[test]
fn a_color_waits_for_a_free_buffer() {
    let mut app = ready();
    app.frame();
    app.frame();
    app.set_swatch(1, 2, 3);
    assert_eq!(app.frame(), vec![]);
    app.surface_enter(4);
    app.released(101);
    assert_eq!(app.frame(), vec![]);
    app.released(100);
    let mut expected = shown(0, 100, Pixel { r: 1, g: 2, b: 3, a: 0x3c00 });
    expected.push(AppEffect::ScheduleMeasurement { millis: 200 });
    assert_eq!(app.frame(), expected);
}

#[test]
fn a_color_is_measured_once_amid_reports_and_color_events() {
    let mut app = ready();
    app.start();
    app.set_swatch(1, 2, 3);
    app.color_handler().track_output(5);
    assert_eq!(app.meter_output(b"Result is XYZ: 1 2 3\n".to_vec()), Ok(true));
    app.surface_update(2, 9);
    let color = Pixel { r: 1, g: 2, b: 3, a: 0x3c00 };
    let mut expected = shown(0, 100, color);
    expected.push(AppEffect::ScheduleMeasurement { millis: 200 });
    assert_eq!(app.frame(), expected);
    assert_eq!(app.meter_output(b"Result is XYZ: 4 5 6\n".to_vec()), Ok(true));
    assert_eq!(app.meter_output(b"Result is XYZ: 4 5\n".to_vec()), Err(MeterError::MissingValue));
    app.released(100);
    assert_eq!(app.frame(), shown(1, 101, color));
    assert_eq!(app.detected_swatch().as_ref().unwrap().x, "4");
    assert!(app.is_running());
}

#[test]
fn a_shown_buffer_comes_back_after_the_other_one_is_created() {
    let (mut app, _) = opened();
    app.created(0, 100);
    assert_eq!(app.frame(), shown(0, 100, BLACK));
    assert_eq!(
        app.created(1, 101),
        vec![AppEffect::AttachBuffer { buffer: Some(101) }, AppEffect::CommitSurface]
    );
    assert_eq!(app.configure(256, 256), vec![]);
    app.released(100);
    assert_eq!(app.frame(), shown(1, 101, BLACK));
    assert_eq!(app.frame(), shown(0, 100, BLACK));
    assert_eq!(app.frame(), vec![]);
}

#[test]
fn a_color_that_replaces_an_unshown_one_is_measured_alone() {
    let mut app = ready();
    app.set_swatch(1, 1, 1);
    app.set_swatch(2, 2, 2);
    let color = Pixel { r: 2, g: 2, b: 2, a: 0x3c00 };
    let mut expected = shown(0, 100, color);
    expected.push(AppEffect::ScheduleMeasurement { millis: 200 });
    assert_eq!(app.frame(), expected);
}

#[test]
fn a_new_size_replaces_the_buffers() {
    let mut app = ready();
    assert!(app.can_configure(300));
    assert_eq!(
        app.configure(300, 200),
        vec![
            allocation(2, 300, 200, BufferUsage::Scanout, Some(0)),
            allocation(3, 300, 200, BufferUsage::Scanout, Some(1)),
            AppEffect::RequestFrame,
            AppEffect::CommitSurface,
        ]
    );
    assert_eq!(app.frame(), vec![]);
    assert_eq!(app.created(0, 100), vec![]);
    app.released(100);
    assert_eq!(app.frame(), vec![]);
    // The other buffer does not count.
    assert_eq!(app.created(3, 103), vec![]);
    assert_eq!(app.frame(), vec![]);
    assert!(!app.front_buffer().released);
    app.created(2, 102);
    assert_eq!(app.front_buffer().wayland, Some(102));
    assert_eq!(app.frame().len(), 5);
}

#[test]
fn the_same_size_changes_nothing() {
    let mut app = ready();
    assert_eq!(app.configure(256, 256), vec![]);
    assert_eq!(app.frame(), shown(0, 100, BLACK));
}

#[test]
fn a_width_whose_rows_do_not_fit_cannot_be_taken_on() {
    let app = ready();
    assert!(app.can_configure(536_870_911));
    assert!(!app.can_configure(536_870_912));
}

#[test]
fn a_height_above_the_signed_range_wraps() {
    let mut app = ready();
    let effects = app.configure(1, 0x8000_0001);
    assert_eq!(
        effects[0],
        AppEffect::AllocateBuffer {
            params: 2,
            width: 1,
            height: 0x8000_0001,
            usage: BufferUsage::Scanout,
            stride: 8,
            wire_width: 1,
            wire_height: -0x7fff_ffff,
            format: 0x4834_4241,
            replaces: Some(0),
        }
    );
}

#[test]
fn leaving_undoes_entering() {
    let mut app = ready();
    assert!(!app.surface_enter(4));
    app.surface_leave(5);
    assert_eq!(app.active_output(), Some(4));
    assert!(app.surface_enter(5));
    app.surface_leave(4);
    assert_eq!(app.active_output(), Some(5));
    app.surface_leave(5);
    assert_eq!(app.active_output(), None);
}

#[test]
fn q_and_closing_stop_the_window() {
    let mut app = ready();
    app.start();
    app.key('x');
    assert!(app.is_running());
    app.key('q');
    assert!(!app.is_running());
    app.start();
    app.closed();
    app.frame();
    assert!(!app.is_running());
}

#[test]
fn an_updated_surface_takes_its_description_on_perceptually() {
    let mut app = ready();
    assert!(app.color_handler().has_image(2));
    assert_eq!(
        app.surface_update(2, 9),
        vec![
            Effect::SetImageDescription {
                manager: 0,
                image: 2,
                render_intent: RenderIntent { code: 0 },
            },
            Effect::CommitSurface { surface: 9 },
        ]
    );
}

#[test]
fn measured_values_are_kept() {
    let mut app = ready();
    let report = b" Result is XYZ: 1.5 2.25 3.125, D50 Lab: 1 2 3\n";
    assert_eq!(app.meter_output(report.to_vec()), Ok(true));
    assert_eq!(app.meter_output(b"Place instrument on spot\n".to_vec()), Ok(false));
    assert_eq!(app.meter_output(vec![0xff]), Err(MeterError::NotUtf8));
    let reading = app.detected_swatch().as_ref().unwrap();
    assert_eq!(reading.x, "1.5");
    assert_eq!(reading.y, "2.25");
    assert_eq!(reading.z, "3.125");
}
