//! The swatch window: it shows a color on two buffers in turn and has the color measured.
use vstd::prelude::*;

use crate::app_model::{
    allocation, color_effects, same_bits, AppEffect, AppModel, BufferId, BufferUsage, Framebuffer,
    ParamsId, BUFFER_FORMAT, SETTLE_MILLIS, WINDOW_SIZE,
};
use crate::color::ColorState;
use crate::description::RenderIntent;
use crate::effect::{Effect, ObjectId, OutputId, SurfaceId};
use crate::pixel::{Pixel, PIXEL_BYTES};
use crate::protocol::perceptual_code;
use crate::spotread::{output_result, read_output, MeterError, Reading, Tristimulus};

verus! {

/// The state of the swatch window. Every operation returns what has to be done next, in order.
#[derive(Debug)]
pub struct App {
    color_state: ColorState,
    front: Framebuffer,
    back: Framebuffer,
    next_params: ParamsId,
    active_output: Option<OutputId>,
    is_running: bool,
    swatch_color: Pixel,
    swatch_updated: bool,
    /// The color that was measured last, if one was.
    detected_swatch: Option<Reading>,
}

/// The tristimulus values of a reading.
pub open spec fn tristimulus(reading: Option<Reading>) -> Option<Tristimulus> {
    match reading {
        Some(reading) => Some((reading.x@, reading.y@, reading.z@)),
        None => None,
    }
}

impl View for App {
    type V = AppModel;

    closed spec fn view(&self) -> AppModel {
        AppModel {
            color: self.color_state@,
            front: self.front,
            back: self.back,
            next_params: self.next_params,
            active_output: self.active_output,
            is_running: self.is_running,
            swatch_color: self.swatch_color,
            swatch_updated: self.swatch_updated,
            detected_swatch: tristimulus(self.detected_swatch),
        }
    }
}

/// Reinterprets the bits as a signed number.
fn to_signed(value: u32) -> (signed: i32)
    ensures
        signed == same_bits(value),
{
    if value <= i32::MAX as u32 {
        value as i32
    } else {
        -((u32::MAX - value) as i32) - 1
    }
}

/// Asks for a buffer.
fn allocate(
    params: ParamsId,
    size: (u32, u32),
    usage: BufferUsage,
    replaces: Option<ParamsId>,
) -> (effect: AppEffect)
    requires
        size.0 * PIXEL_BYTES <= u32::MAX,
    ensures
        effect == allocation(params, size, usage, replaces),
{
    let (width, height) = size;
    AppEffect::AllocateBuffer {
        params,
        width,
        height,
        usage,
        stride: PIXEL_BYTES * width,
        wire_width: to_signed(width),
        wire_height: to_signed(height),
        format: BUFFER_FORMAT,
        replaces,
    }
}

/// Puts color effects among the effects of the window.
fn push_color_effects(effects: &mut Vec<AppEffect>, added: &Vec<Effect>)
    ensures
        final(effects)@ == old(effects)@ + color_effects(added@),
{
    let mut i: usize = 0;
    assert(effects@ =~= old(effects)@ + color_effects(added@).take(0));
    while i < added.len()
        invariant
            i <= added@.len(),
            effects@ == old(effects)@ + color_effects(added@).take(i as int),
        decreases added@.len() - i,
    {
        effects.push(AppEffect::Color(added[i]));
        i += 1;
        assert(effects@ =~= old(effects)@ + color_effects(added@).take(i as int));
    }
    assert(color_effects(added@).take(i as int) =~= color_effects(added@));
}

impl App {
    /// Opens the window on `surface`.
    pub fn new(color_state: ColorState, surface: SurfaceId) -> (opened: (App, Vec<AppEffect>))
        requires
            color_state@.wf(),
            color_state@.has_room(2 + color_state@.to_manage(surface)),
        ensures
            opened.0@ == AppModel::initial(color_state@, surface),
            opened.0@.wf(),
            opened.1@ == AppModel::initial_effects(color_state@, surface),
    {
        let ghost color = color_state@;
        let mut color_state = color_state;
        let mut effects: Vec<AppEffect> = Vec::new();
        effects.push(AppEffect::SetWindowSize { width: WINDOW_SIZE, height: WINDOW_SIZE });
        effects.push(AppEffect::DisableKeyboard);
        effects.push(AppEffect::CommitWindow);
        effects.push(AppEffect::RequestFrame);
        effects.push(AppEffect::CommitSurface);
        let requests = color_state.track_surface(surface);
        push_color_effects(&mut effects, &requests);
        effects.push(AppEffect::OpenDevice);
        effects.push(AppEffect::StartMeter);
        let size = (WINDOW_SIZE, WINDOW_SIZE);
        effects.push(allocate(0, size, BufferUsage::Rendering, None));
        effects.push(allocate(1, size, BufferUsage::Rendering, None));
        assert(effects@ =~= AppModel::initial_effects(color, surface));
        let app = App {
            color_state,
            front: Framebuffer { params: 0, size, wayland: None, released: true },
            back: Framebuffer { params: 1, size, wayland: None, released: true },
            next_params: 2,
            active_output: None,
            is_running: false,
            swatch_color: Pixel::new_opaque(0, 0, 0),
            swatch_updated: true,
            detected_swatch: None,
        };
        assert(app@ =~= AppModel::initial(color, surface));
        (app, effects)
    }

    /// The color state of the window.
    pub fn color_handler(&mut self) -> (color_state: &mut ColorState)
        ensures
            color_state@ == old(self)@.color,
            final(self)@ == (AppModel { color: final(color_state)@, ..old(self)@ }),
    {
        &mut self.color_state
    }

    /// Whether the window is to stay open.
    pub fn is_running(&self) -> (running: bool)
        ensures
            running == self@.is_running,
    {
        self.is_running
    }

    /// The color that was measured last, if one was.
    pub fn detected_swatch(&self) -> (reading: &Option<Reading>)
        ensures
            tristimulus(*reading) == self@.detected_swatch,
    {
        &self.detected_swatch
    }

    /// Lets the window run.
    pub fn start(&mut self)
        requires
            old(self)@.wf(),
        ensures
            final(self)@ == old(self)@.started(),
            final(self)@.wf(),
    {
        self.is_running = true;
        assert(self@ =~= old(self)@.started());
    }

    /// Chooses the color to show next; the components are half-precision bit patterns.
    pub fn set_swatch(&mut self, r: u16, g: u16, b: u16)
        requires
            old(self)@.wf(),
        ensures
            final(self)@ == old(self)@.set_swatch(r, g, b),
            final(self)@.wf(),
    {
        self.swatch_color = Pixel::new_opaque(r, g, b);
        self.swatch_updated = false;
        assert(self@ =~= old(self)@.set_swatch(r, g, b));
    }

    /// The window is on `output` now; says whether it was on one before.
    pub fn surface_enter(&mut self, output: OutputId) -> (already_active: bool)
        requires
            old(self)@.wf(),
        ensures
            final(self)@ == old(self)@.surface_enter(output),
            final(self)@.wf(),
            already_active == (old(self)@.active_output is Some),
    {
        let already_active = self.active_output.is_some();
        self.active_output = Some(output);
        assert(self@ =~= old(self)@.surface_enter(output));
        already_active
    }

    /// The window is not on `output` any more.
    pub fn surface_leave(&mut self, output: OutputId)
        requires
            old(self)@.wf(),
        ensures
            final(self)@ == old(self)@.surface_leave(output),
            final(self)@.wf(),
    {
        if let Some(active_output) = self.active_output {
            if active_output == output {
                self.active_output = None;
            }
        }
        assert(self@ =~= old(self)@.surface_leave(output));
    }

    /// The output that the window is on.
    pub fn active_output(&self) -> (output: Option<OutputId>)
        ensures
            output == self@.active_output,
    {
        self.active_output
    }

    /// The buffer that is painted next.
    pub fn front_buffer(&self) -> (buffer: Framebuffer)
        ensures
            buffer == self@.front,
    {
        self.front
    }

    /// A frame is due: paints the front buffer and shows it, if it may be painted.
    pub fn frame(&mut self) -> (effects: Vec<AppEffect>)
        requires
            old(self)@.wf(),
        ensures
            final(self)@ == old(self)@.frame(),
            final(self)@.wf(),
            effects@ == old(self)@.frame_effects(),
    {
        let mut effects: Vec<AppEffect> = Vec::new();
        if !self.front.released {
            return effects;
        }
        self.front.released = false;
        let (width, height) = self.front.size;
        effects.push(
            AppEffect::Paint { params: self.front.params, width, height, color: self.swatch_color },
        );
        if self.front.wayland.is_none() {
            assert(self@ =~= old(self)@.frame());
            return effects;
        }
        effects.push(AppEffect::AttachBuffer { buffer: self.front.wayland });
        effects.push(
            AppEffect::DamageSurface { width: to_signed(width), height: to_signed(height) },
        );
        effects.push(AppEffect::RequestFrame);
        effects.push(AppEffect::CommitSurface);
        let front = self.front;
        self.front = self.back;
        self.back = front;
        if !self.swatch_updated {
            effects.push(AppEffect::ScheduleMeasurement { millis: SETTLE_MILLIS });
        }
        self.swatch_updated = true;
        assert(self@ =~= old(self)@.frame());
        assert(effects@ =~= old(self)@.frame_effects());
        effects
    }

    /// The window has been closed.
    pub fn closed(&mut self)
        requires
            old(self)@.wf(),
        ensures
            final(self)@ == old(self)@.closed(),
            final(self)@.wf(),
    {
        self.is_running = false;
        assert(self@ =~= old(self)@.closed());
    }

    /// A key that makes the character `c` was pressed.
    pub fn key(&mut self, c: char)
        requires
            old(self)@.wf(),
        ensures
            final(self)@ == old(self)@.key(c),
            final(self)@.wf(),
    {
        if c == 'q' {
            self.is_running = false;
        }
        assert(self@ =~= old(self)@.key(c));
    }

    /// Whether the window can take on a width.
    pub fn can_configure(&self, width: u32) -> (can: bool)
        ensures
            can == self@.can_configure(width),
    {
        width <= u32::MAX / PIXEL_BYTES && self.next_params <= u64::MAX - 2
    }

    /// The compositor chose a size for the window.
    pub fn configure(&mut self, width: u32, height: u32) -> (effects: Vec<AppEffect>)
        requires
            old(self)@.wf(),
            old(self)@.can_configure(width) || old(self)@.front.size == (width, height),
        ensures
            final(self)@ == old(self)@.configure(width, height),
            final(self)@.wf(),
            effects@ == old(self)@.configure_effects(width, height),
    {
        let mut effects: Vec<AppEffect> = Vec::new();
        let (old_width, old_height) = self.front.size;
        if width == old_width && height == old_height {
            return effects;
        }
        let params = self.next_params;
        let size = (width, height);
        self.next_params = self.next_params + 2;
        effects.push(allocate(params, size, BufferUsage::Scanout, Some(self.front.params)));
        effects.push(allocate(params + 1, size, BufferUsage::Scanout, Some(self.back.params)));
        self.front = Framebuffer { params, size, wayland: None, released: false };
        self.back = Framebuffer { params: params + 1, size, wayland: None, released: false };
        effects.push(AppEffect::RequestFrame);
        effects.push(AppEffect::CommitSurface);
        assert(self@ =~= old(self)@.configure(width, height));
        assert(effects@ =~= old(self)@.configure_effects(width, height));
        effects
    }

    /// The compositor created its buffer for `params`.
    pub fn created(&mut self, params: ParamsId, buffer: BufferId) -> (effects: Vec<AppEffect>)
        requires
            old(self)@.wf(),
        ensures
            final(self)@ == old(self)@.created(params, buffer),
            final(self)@.wf(),
            effects@ == old(self)@.created_effects(params, buffer),
    {
        let mut effects: Vec<AppEffect> = Vec::new();
        if self.front.params == params {
            self.front.wayland = Some(buffer);
            self.front.released = true;
            effects.push(AppEffect::AttachBuffer { buffer: self.front.wayland });
            effects.push(AppEffect::CommitSurface);
        } else if self.back.params == params {
            self.back.wayland = Some(buffer);
            self.back.released = true;
        }
        assert(self@ =~= old(self)@.created(params, buffer));
        assert(effects@ =~= old(self)@.created_effects(params, buffer));
        effects
    }

    /// The compositor gave a buffer back.
    pub fn released(&mut self, buffer: BufferId)
        requires
            old(self)@.wf(),
        ensures
            final(self)@ == old(self)@.released(buffer),
            final(self)@.wf(),
    {
        if self.front.wayland == Some(buffer) {
            self.front.released = true;
        } else if self.back.wayland == Some(buffer) {
            self.back.released = true;
        }
        assert(self@ =~= old(self)@.released(buffer));
    }

    /// The preferred description of a surface has changed: the surface takes it on.
    pub fn surface_update(&mut self, proxy: ObjectId, surface: SurfaceId) -> (effects: Vec<Effect>)
        requires
            old(self)@.wf(),
            old(self)@.can_update(proxy, surface),
        ensures
            final(self)@ == old(self)@.surface_update(proxy, surface),
            final(self)@.wf(),
            effects@ == old(self)@.surface_update_effects(proxy, surface),
    {
        let render_intent = RenderIntent { code: perceptual_code() };
        self.color_state.set_surface_description_proxy(surface, proxy, render_intent)
    }

    /// The colorimeter wrote something: takes over the color that it reports, and says whether it
    /// reports one.
    pub fn meter_output(&mut self, output: Vec<u8>) -> (outcome: Result<bool, MeterError>)
        requires
            old(self)@.wf(),
        ensures
            final(self)@ == old(self)@.metered(output@),
            final(self)@.wf(),
            outcome == match output_result(output@) {
                Ok(values) => Ok::<bool, MeterError>(values is Some),
                Err(error) => Err::<bool, MeterError>(error),
            },
    {
        match read_output(output) {
            Ok(Some(reading)) => {
                self.detected_swatch = Some(reading);
                Ok(true)
            },
            Ok(None) => Ok(false),
            Err(error) => Err(error),
        }
    }
}

} // verus!
