//! The swatch window as mathematics: what it holds, and what each operation makes of that.
use vstd::prelude::*;

use crate::color_model::ColorModel;
use crate::description::RenderIntent;
use crate::effect::{Effect, ObjectId, OutputId, SurfaceId};
use crate::pixel::{Pixel, PIXEL_BYTES};
use crate::spotread::{output_result, Tristimulus};

verus! {

/// The width and the height of the window until the compositor says otherwise.
pub const WINDOW_SIZE: u32 = 256;

/// The buffer format: four half-precision components, red first.
pub const BUFFER_FORMAT: u32 = 0x4834_4241;

/// How long to wait between showing a color and measuring it, in milliseconds.
pub const SETTLE_MILLIS: u64 = 200;

/// Stands for a pixel buffer that this client has allocated.
pub type ParamsId = u64;

/// Stands for a buffer that the compositor knows.
pub type BufferId = u64;

/// What the memory of a buffer is meant for.
#[derive(Clone, Copy, Debug, PartialEq, Eq)]
pub enum BufferUsage {
    Rendering,
    Scanout,
}

/// One of the two buffers of the window.
#[derive(Clone, Copy, Debug, PartialEq, Eq)]
pub struct Framebuffer {
    pub params: ParamsId,
    pub size: (u32, u32),
    /// The compositor's buffer, once it has been created.
    pub wayland: Option<BufferId>,
    /// Whether it may be painted.
    pub released: bool,
}

/// The render intent that the window is shown with: perceptual.
pub open spec fn window_intent() -> RenderIntent {
    RenderIntent { code: 0 }
}

/// What the window asks of the program around it.
#[allow(inconsistent_fields)]
#[derive(Clone, Copy, Debug, PartialEq, Eq)]
pub enum AppEffect {
    SetWindowSize { width: u32, height: u32 },
    DisableKeyboard,
    CommitWindow,
    /// Ask to be told when the next frame is due.
    RequestFrame,
    CommitSurface,
    Color(Effect),
    /// Open the graphics device, on which buffers are allocated.
    OpenDevice,
    /// Start the colorimeter program.
    StartMeter,
    /// Allocate memory for a buffer and have the compositor create its own buffer from it.
    AllocateBuffer {
        params: ParamsId,
        width: u32,
        height: u32,
        usage: BufferUsage,
        /// Bytes from one row to the next.
        stride: u32,
        wire_width: i32,
        wire_height: i32,
        format: u32,
        /// The buffer that is not needed any more once this one is there.
        replaces: Option<ParamsId>,
    },
    /// Fill a buffer with a color.
    Paint { params: ParamsId, width: u32, height: u32, color: Pixel },
    AttachBuffer { buffer: Option<BufferId> },
    /// Mark the surface as changed from its origin on.
    DamageSurface { width: i32, height: i32 },
    /// Have the colorimeter measure after a while.
    ScheduleMeasurement { millis: u64 },
}

/// The signed number with the same bits.
pub open spec fn same_bits(value: u32) -> i32 {
    if value <= i32::MAX {
        value as i32
    } else {
        (value - 0x1_0000_0000) as i32
    }
}

/// What the swatch window holds.
#[verifier::ext_equal]
pub struct AppModel {
    pub color: ColorModel,
    /// The buffer that is painted next.
    pub front: Framebuffer,
    pub back: Framebuffer,
    /// The next buffer to be allocated; every buffer so far is smaller.
    pub next_params: u64,
    pub active_output: Option<OutputId>,
    pub is_running: bool,
    pub swatch_color: Pixel,
    /// Whether the color has been shown.
    pub swatch_updated: bool,
    /// The tristimulus values that were measured last.
    pub detected_swatch: Option<Tristimulus>,
}

/// A buffer that has been asked for.
pub open spec fn new_buffer(params: ParamsId, size: (u32, u32), released: bool) -> Framebuffer {
    Framebuffer { params, size, wayland: None, released }
}

/// The request for a buffer.
pub open spec fn allocation(
    params: ParamsId,
    size: (u32, u32),
    usage: BufferUsage,
    replaces: Option<ParamsId>,
) -> AppEffect {
    AppEffect::AllocateBuffer {
        params,
        width: size.0,
        height: size.1,
        usage,
        stride: (size.0 * PIXEL_BYTES) as u32,
        wire_width: same_bits(size.0),
        wire_height: same_bits(size.1),
        format: BUFFER_FORMAT,
        replaces,
    }
}

/// Color effects among the effects of the window.
pub open spec fn color_effects(effects: Seq<Effect>) -> Seq<AppEffect> {
    effects.map_values(|effect: Effect| AppEffect::Color(effect))
}

impl AppModel {
    /// The window when it opens: both buffers have been asked for and may be painted, the color
    /// is black and need not be measured, and the preferred description of the surface is
    /// followed.
    pub open spec fn initial(color: ColorModel, surface: SurfaceId) -> Self {
        AppModel {
            color: color.track_surface(surface),
            front: new_buffer(0, (WINDOW_SIZE, WINDOW_SIZE), true),
            back: new_buffer(1, (WINDOW_SIZE, WINDOW_SIZE), true),
            next_params: 2,
            active_output: None,
            is_running: false,
            swatch_color: Pixel::opaque(0, 0, 0),
            swatch_updated: true,
            detected_swatch: None,
        }
    }

    /// What opening the window takes.
    pub open spec fn initial_effects(color: ColorModel, surface: SurfaceId) -> Seq<AppEffect> {
        let size = (WINDOW_SIZE, WINDOW_SIZE);
        seq![
            AppEffect::SetWindowSize { width: WINDOW_SIZE, height: WINDOW_SIZE },
            AppEffect::DisableKeyboard,
            AppEffect::CommitWindow,
            AppEffect::RequestFrame,
            AppEffect::CommitSurface,
        ] + color_effects(color.track_surface_effects(surface)) + seq![
            AppEffect::OpenDevice,
            AppEffect::StartMeter,
            allocation(0, size, BufferUsage::Rendering, None),
            allocation(1, size, BufferUsage::Rendering, None),
        ]
    }

    /// The color state is well-formed, the two buffers are different, and they have one size.
    pub open spec fn wf(self) -> bool {
        &&& self.color.wf()
        &&& self.front.params != self.back.params
        &&& self.front.params < self.next_params
        &&& self.back.params < self.next_params
        &&& self.front.size == self.back.size
    }

    /// After a color is chosen: it has yet to be shown and measured.
    pub open spec fn set_swatch(self, r: u16, g: u16, b: u16) -> Self {
        AppModel { swatch_color: Pixel::opaque(r, g, b), swatch_updated: false, ..self }
    }

    /// After the window came onto `output`.
    pub open spec fn surface_enter(self, output: OutputId) -> Self {
        AppModel { active_output: Some(output), ..self }
    }

    /// After the window went off `output`.
    pub open spec fn surface_leave(self, output: OutputId) -> Self {
        if self.active_output == Some(output) {
            AppModel { active_output: None, ..self }
        } else {
            self
        }
    }

    /// After a frame was due: a front buffer that may be painted is painted and handed over, and
    /// the other one is next, unless the compositor has not created its buffer yet.
    pub open spec fn frame(self) -> Self {
        let handed_over = Framebuffer { released: false, ..self.front };
        if !self.front.released {
            self
        } else if self.front.wayland is None {
            AppModel { front: handed_over, ..self }
        } else {
            AppModel { front: self.back, back: handed_over, swatch_updated: true, ..self }
        }
    }

    /// What showing a frame takes.
    pub open spec fn frame_effects(self) -> Seq<AppEffect> {
        let (width, height) = self.front.size;
        let paint = seq![
            AppEffect::Paint { params: self.front.params, width, height, color: self.swatch_color },
        ];
        let show = seq![
            AppEffect::AttachBuffer { buffer: self.front.wayland },
            AppEffect::DamageSurface { width: same_bits(width), height: same_bits(height) },
            AppEffect::RequestFrame,
            AppEffect::CommitSurface,
        ];
        let measure = if self.swatch_updated {
            seq![]
        } else {
            seq![AppEffect::ScheduleMeasurement { millis: SETTLE_MILLIS }]
        };
        if !self.front.released {
            seq![]
        } else if self.front.wayland is None {
            paint
        } else {
            paint + show + measure
        }
    }

    /// After the window was closed.
    pub open spec fn closed(self) -> Self {
        AppModel { is_running: false, ..self }
    }

    /// After the window was started.
    pub open spec fn started(self) -> Self {
        AppModel { is_running: true, ..self }
    }

    /// After a key that makes a character was pressed.
    pub open spec fn key(self, c: char) -> Self {
        if c == 'q' {
            self.closed()
        } else {
            self
        }
    }

    /// Whether the window can take on a size.
    pub open spec fn can_configure(self, width: u32) -> bool {
        &&& width * PIXEL_BYTES <= u32::MAX
        &&& self.next_params + 2 <= u64::MAX
    }

    /// After the compositor chose a size: if it is a new one, both buffers are replaced.
    pub open spec fn configure(self, width: u32, height: u32) -> Self {
        if self.front.size == (width, height) {
            self
        } else {
            AppModel {
                front: new_buffer(self.next_params, (width, height), false),
                back: new_buffer((self.next_params + 1) as u64, (width, height), false),
                next_params: (self.next_params + 2) as u64,
                ..self
            }
        }
    }

    /// What taking on a size takes.
    pub open spec fn configure_effects(self, width: u32, height: u32) -> Seq<AppEffect> {
        let size = (width, height);
        if self.front.size == size {
            seq![]
        } else {
            seq![
                allocation(
                    self.next_params,
                    size,
                    BufferUsage::Scanout,
                    Some(self.front.params),
                ),
                allocation(
                    (self.next_params + 1) as u64,
                    size,
                    BufferUsage::Scanout,
                    Some(self.back.params),
                ),
                AppEffect::RequestFrame,
                AppEffect::CommitSurface,
            ]
        }
    }

    /// After the compositor created its buffer: the buffer it belongs to may be painted.
    pub open spec fn created(self, params: ParamsId, buffer: BufferId) -> Self {
        if self.front.params == params {
            AppModel {
                front: Framebuffer { wayland: Some(buffer), released: true, ..self.front },
                ..self
            }
        } else if self.back.params == params {
            AppModel {
                back: Framebuffer { wayland: Some(buffer), released: true, ..self.back },
                ..self
            }
        } else {
            self
        }
    }

    /// What has to be done when the compositor created its buffer.
    pub open spec fn created_effects(self, params: ParamsId, buffer: BufferId) -> Seq<AppEffect> {
        if self.front.params == params {
            seq![AppEffect::AttachBuffer { buffer: Some(buffer) }, AppEffect::CommitSurface]
        } else {
            seq![]
        }
    }

    /// After the compositor gave a buffer back: the first of the two that it belongs to may be
    /// painted.
    pub open spec fn released(self, buffer: BufferId) -> Self {
        if self.front.wayland == Some(buffer) {
            AppModel { front: Framebuffer { released: true, ..self.front }, ..self }
        } else if self.back.wayland == Some(buffer) {
            AppModel { back: Framebuffer { released: true, ..self.back }, ..self }
        } else {
            self
        }
    }

    /// Whether a surface can take on an image description.
    pub open spec fn can_update(self, image: ObjectId, surface: SurfaceId) -> bool {
        &&& self.color.has_room(self.color.to_manage(surface))
        &&& self.color.images.contains_key(image)
    }

    /// After the preferred description of a surface changed: the surface has taken it on.
    pub open spec fn surface_update(self, image: ObjectId, surface: SurfaceId) -> Self {
        AppModel { color: self.color.with_surface_info(surface, image), ..self }
    }

    /// The requests with which a surface takes on an image description.
    pub open spec fn surface_update_effects(
        self,
        image: ObjectId,
        surface: SurfaceId,
    ) -> Seq<Effect> {
        self.color.set_surface_description_proxy_effects(surface, image, window_intent())
    }

    /// After the colorimeter wrote something: if it reports a color, that is the one that was
    /// measured last.
    pub open spec fn metered(self, output: Seq<u8>) -> Self {
        match output_result(output) {
            Ok(Some(values)) => AppModel { detected_swatch: Some(values), ..self },
            _ => self,
        }
    }
}

} // verus!
