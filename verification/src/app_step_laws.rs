//! What each operation on the swatch window is for: what it asks for and what it changes, and that
//! it leaves everything else alone.
use vstd::prelude::*;

use crate::app::tristimulus;
use crate::app_model::{AppEffect, AppModel, BufferId, BufferUsage, Framebuffer, ParamsId};
use crate::color_model::ColorModel;
use crate::description::RenderIntent;
use crate::effect::{Effect, ObjectId, OutputId, SurfaceId};
use crate::pixel::Pixel;
use crate::spotread::{output_result, Reading};

verus! {

/// Whether `wire` and `length` are the same number modulo two to the 32.
pub open spec fn same_length(wire: i32, length: u32) -> bool {
    wire == length || wire == length - 0x1_0000_0000
}

/// Whether the effect allocates the buffer `params` of the given size, in rows of eight bytes a
/// pixel without gaps, in the format of four half-precision components, in place of `replaces`.
pub open spec fn allocates(
    effect: AppEffect,
    params: ParamsId,
    size: (u32, u32),
    usage: BufferUsage,
    replaces: Option<ParamsId>,
) -> bool {
    effect matches AppEffect::AllocateBuffer {
        params: own,
        width,
        height,
        usage: used,
        stride,
        wire_width,
        wire_height,
        format,
        replaces: replaced,
    } && {
        &&& own == params && (width, height) == size && used == usage && replaced == replaces
        &&& stride == 8 * size.0
        &&& same_length(wire_width, size.0) && same_length(wire_height, size.1)
        &&& format == 0x4834_4241
    }
}

/// Whether the two states have the same buffers and names for buffers.
pub open spec fn same_buffers(one: AppModel, other: AppModel) -> bool {
    one.front == other.front && one.back == other.back && one.next_params == other.next_params
}

/// Whether the two states show and have measured the same.
pub open spec fn same_colors(one: AppModel, other: AppModel) -> bool {
    &&& one.color == other.color
    &&& one.swatch_color == other.swatch_color
    &&& one.swatch_updated == other.swatch_updated
    &&& one.detected_swatch == other.detected_swatch
}

/// Whether the two windows are on the same output and run or not alike.
pub open spec fn same_place(one: AppModel, other: AppModel) -> bool {
    one.active_output == other.active_output && one.is_running == other.is_running
}

/// Opening the window gives it its size, asks for the first frame, tracks its surface, opens the
/// device before the colorimeter is started, and then allocates its two buffers, in that order. It
/// does not run yet, is black, and has nothing to be measured.
pub proof fn law_window_opens(color: ColorModel, surface: SurfaceId)
    ensures
        ({
            let opened = AppModel::initial(color, surface);
            let asked = AppModel::initial_effects(color, surface);
            let tracking = color.track_surface_effects(surface);
            let count = tracking.len() as int;
            &&& asked.len() == count + 9
            &&& asked[0] == (AppEffect::SetWindowSize { width: 256, height: 256 })
            &&& asked[1] == AppEffect::DisableKeyboard
            &&& asked[2] == AppEffect::CommitWindow
            &&& asked[3] == AppEffect::RequestFrame
            &&& asked[4] == AppEffect::CommitSurface
            &&& forall|i: int|
                0 <= i < count ==> #[trigger] asked[i + 5] == AppEffect::Color(tracking[i])
            &&& asked[count + 5] == AppEffect::OpenDevice
            &&& asked[count + 6] == AppEffect::StartMeter
            &&& allocates(
                asked[count + 7],
                opened.front.params,
                (256, 256),
                BufferUsage::Rendering,
                None,
            )
            &&& allocates(
                asked[count + 8],
                opened.back.params,
                (256, 256),
                BufferUsage::Rendering,
                None,
            )
            &&& opened.color == color.track_surface(surface)
            &&& opened.front.params != opened.back.params
            &&& opened.front.params < opened.next_params
            &&& opened.back.params < opened.next_params
            &&& opened.front.size == (256u32, 256u32) && opened.back.size == (256u32, 256u32)
            &&& opened.front.wayland is None && opened.back.wayland is None
            &&& opened.front.released && opened.back.released
            &&& opened.active_output is None && !opened.is_running
            &&& opened.swatch_color == (Pixel { r: 0, g: 0, b: 0, a: 0x3c00 })
            &&& opened.swatch_updated && opened.detected_swatch is None
        }),
{
}

/// Choosing a color takes over its three components without transparency, and it has yet to be
/// shown. Nothing else changes.
pub proof fn law_color_is_chosen(model: AppModel, r: u16, g: u16, b: u16)
    ensures
        ({
            let after = model.set_swatch(r, g, b);
            &&& after.swatch_color.r == r && after.swatch_color.g == g && after.swatch_color.b == b
            &&& after.swatch_color.a == 0x3c00
            &&& !after.swatch_updated
            &&& after.color == model.color && after.detected_swatch == model.detected_swatch
            &&& same_buffers(after, model) && same_place(after, model)
        }),
{
}

/// The window is on the output that it enters, and leaves the one that it is on, but no other one.
/// Nothing else changes.
pub proof fn law_window_moves(model: AppModel, output: OutputId)
    ensures
        ({
            let entered = model.surface_enter(output);
            &&& entered.active_output == Some(output)
            &&& entered.is_running == model.is_running
            &&& same_buffers(entered, model) && same_colors(entered, model)
        }),
        ({
            let left = model.surface_leave(output);
            &&& model.active_output == Some(output) ==> left.active_output is None
            &&& model.active_output != Some(output) ==> left.active_output == model.active_output
            &&& left.is_running == model.is_running
            &&& same_buffers(left, model) && same_colors(left, model)
        }),
{
}

/// Starting the window has it run, closing it and the key `q` have it stop, and any other key does
/// nothing. Nothing else changes.
pub proof fn law_window_starts_and_stops(model: AppModel, c: char)
    ensures
        model.started().is_running,
        !model.closed().is_running,
        c == 'q' ==> !model.key(c).is_running,
        c != 'q' ==> model.key(c) == model,
        same_buffers(model.started(), model) && same_colors(model.started(), model),
        same_buffers(model.closed(), model) && same_colors(model.closed(), model),
        same_buffers(model.key(c), model) && same_colors(model.key(c), model),
        model.started().active_output == model.active_output,
        model.closed().active_output == model.active_output,
        model.key(c).active_output == model.active_output,
{
}

/// A frame on a front buffer that the compositor holds asks for nothing and changes nothing.
pub proof fn law_frame_on_held_buffer_does_nothing(model: AppModel)
    requires
        !model.front.released,
    ensures
        model.frame() == model,
        model.frame_effects().len() == 0,
{
}

/// A frame on a free front buffer that the compositor has not created paints it, all of it, in the
/// chosen color, and takes it; nothing is shown, and nothing else changes.
pub proof fn law_frame_on_uncreated_buffer_paints(model: AppModel)
    requires
        model.front.released,
        model.front.wayland is None,
    ensures
        model.frame_effects().len() == 1,
        model.frame_effects()[0] == (AppEffect::Paint {
            params: model.front.params,
            width: model.front.size.0,
            height: model.front.size.1,
            color: model.swatch_color,
        }),
        ({
            let after = model.frame();
            &&& after.front.params == model.front.params && after.front.size == model.front.size
            &&& after.front.wayland is None && !after.front.released
            &&& after.back == model.back && after.next_params == model.next_params
            &&& same_colors(after, model) && same_place(after, model)
        }),
{
}

/// A frame on a free front buffer that the compositor has created paints it, all of it, in the
/// chosen color, attaches that very buffer, marks all of the surface as changed, asks for the next
/// frame and commits, and asks for a measurement exactly if the color has yet to be shown. Then
/// the buffers change places, the one that was shown is the compositor's, and the color has been
/// shown. Nothing else changes.
pub proof fn law_frame_on_free_buffer_shows(model: AppModel, buffer: BufferId)
    requires
        model.front.released,
        model.front.wayland == Some(buffer),
    ensures
        ({
            let asked = model.frame_effects();
            &&& asked.len() == if model.swatch_updated {
                5int
            } else {
                6int
            }
            &&& asked[0] == (AppEffect::Paint {
                params: model.front.params,
                width: model.front.size.0,
                height: model.front.size.1,
                color: model.swatch_color,
            })
            &&& asked[1] == (AppEffect::AttachBuffer { buffer: Some(buffer) })
            &&& asked[2] matches AppEffect::DamageSurface { width, height } && same_length(
                width,
                model.front.size.0,
            ) && same_length(height, model.front.size.1)
            &&& asked[3] == AppEffect::RequestFrame
            &&& asked[4] == AppEffect::CommitSurface
            &&& !model.swatch_updated ==> asked[5] == (AppEffect::ScheduleMeasurement {
                millis: 200,
            })
        }),
        ({
            let after = model.frame();
            &&& after.front == model.back
            &&& after.back == (Framebuffer {
                params: model.front.params,
                size: model.front.size,
                wayland: Some(buffer),
                released: false,
            })
            &&& after.next_params == model.next_params
            &&& after.swatch_updated
            &&& after.color == model.color && after.swatch_color == model.swatch_color
            &&& after.detected_swatch == model.detected_swatch
            &&& same_place(after, model)
        }),
{
}

/// A window can take on every width whose rows fit, as long as names for buffers are left.
pub proof fn law_widths_that_fit_can_be_taken_on(model: AppModel, width: u32)
    ensures
        model.can_configure(width) <==> 8 * width <= u32::MAX && model.next_params + 2 <= u64::MAX,
{
}

/// Whenever the size is another one than the window has, whatever the compositor has created, both
/// buffers are replaced: one buffer of the new size is allocated in place of each of the two, and a
/// frame is asked for and committed. The new ones are not the compositor's and may not be painted.
/// Nothing else changes.
pub proof fn law_new_size_allocates_buffers(model: AppModel, width: u32, height: u32)
    requires
        model.front.size != (width, height),
        8 * width <= u32::MAX,
        model.next_params + 2 <= u64::MAX,
    ensures
        ({
            let after = model.configure(width, height);
            let asked = model.configure_effects(width, height);
            let size = (width, height);
            &&& asked.len() == 4
            &&& allocates(
                asked[0],
                after.front.params,
                size,
                BufferUsage::Scanout,
                Some(model.front.params),
            )
            &&& allocates(
                asked[1],
                after.back.params,
                size,
                BufferUsage::Scanout,
                Some(model.back.params),
            )
            &&& asked[2] == AppEffect::RequestFrame
            &&& asked[3] == AppEffect::CommitSurface
            &&& after.front.size == size && after.back.size == size
            &&& after.front.wayland is None && after.back.wayland is None
            &&& !after.front.released && !after.back.released
            &&& after.front.params != after.back.params
            &&& model.next_params <= after.front.params < after.next_params
            &&& model.next_params <= after.back.params < after.next_params
            &&& same_colors(after, model) && same_place(after, model)
        }),
{
}

/// A size that the window has asks for nothing and changes nothing.
pub proof fn law_old_size_does_nothing(model: AppModel, width: u32, height: u32)
    requires
        model.front.size == (width, height),
    ensures
        model.configure(width, height) == model,
        model.configure_effects(width, height).len() == 0,
{
}

/// A buffer of the window that the compositor creates is that buffer of the compositor's from then
/// on, and may be painted. If it is the front one, it is attached and the surface committed at
/// once. For any other buffer nothing happens. Nothing else changes.
pub proof fn law_created_buffer_is_taken_on(model: AppModel, params: ParamsId, buffer: BufferId)
    requires
        model.front.params != model.back.params,
    ensures
        ({
            let after = model.created(params, buffer);
            let asked = model.created_effects(params, buffer);
            &&& params == model.front.params ==> {
                &&& asked.len() == 2
                &&& asked[0] == (AppEffect::AttachBuffer { buffer: Some(buffer) })
                &&& asked[1] == AppEffect::CommitSurface
            }
            &&& params != model.front.params ==> asked.len() == 0
            &&& after.front == if params == model.front.params {
                Framebuffer {
                    params,
                    size: model.front.size,
                    wayland: Some(buffer),
                    released: true,
                }
            } else {
                model.front
            }
            &&& after.back == if params == model.back.params {
                Framebuffer {
                    params,
                    size: model.back.size,
                    wayland: Some(buffer),
                    released: true,
                }
            } else {
                model.back
            }
            &&& after.next_params == model.next_params
            &&& same_colors(after, model) && same_place(after, model)
        }),
{
}

/// A buffer that the compositor gives back may be painted, whichever of the two it is; of two that
/// are the same one to the compositor the front one. Nothing else changes.
pub proof fn law_given_back_buffer_is_free(model: AppModel, buffer: BufferId)
    ensures
        ({
            let after = model.released(buffer);
            let front = model.front.wayland == Some(buffer);
            let back = model.back.wayland == Some(buffer) && !front;
            &&& after.front.released == (model.front.released || front)
            &&& after.back.released == (model.back.released || back)
            &&& after.front.params == model.front.params && after.back.params == model.back.params
            &&& after.front.size == model.front.size && after.back.size == model.back.size
            &&& after.front.wayland == model.front.wayland
            &&& after.back.wayland == model.back.wayland
            &&& after.next_params == model.next_params
            &&& same_colors(after, model) && same_place(after, model)
        }),
{
}

/// A surface whose preferred description has changed is given that very image, with the perceptual
/// intent, on its own object, and is committed; the image is its current description. Nothing else
/// of the window changes.
pub proof fn law_surface_takes_its_update_on(model: AppModel, image: ObjectId, surface: SurfaceId)
    requires
        model.color.fresh + 1 <= u64::MAX || model.color.surfaces.contains_key(surface),
    ensures
        ({
            let after = model.surface_update(image, surface);
            let sent = model.surface_update_effects(image, surface);
            let kept = after.color.surfaces[surface];
            let at: int = if model.color.surfaces.contains_key(surface) {
                0
            } else {
                1
            };
            &&& after.color.surfaces.contains_key(surface)
            &&& kept.info == image
            &&& model.color.surfaces.contains_key(surface) ==> kept.manager
                == model.color.surfaces[surface].manager
            &&& !model.color.surfaces.contains_key(surface) ==> sent[0] == (Effect::GetSurface {
                surface,
                manager: kept.manager,
            })
            &&& sent.len() == at + 2
            &&& sent[at] == (Effect::SetImageDescription {
                manager: kept.manager,
                image,
                render_intent: RenderIntent { code: 0 },
            })
            &&& sent[at + 1] == (Effect::CommitSurface { surface })
            &&& after.color.images == model.color.images
            &&& after.color.outputs == model.color.outputs
            &&& after.swatch_color == model.swatch_color
            &&& after.swatch_updated == model.swatch_updated
            &&& after.detected_swatch == model.detected_swatch
            &&& same_buffers(after, model) && same_place(after, model)
        }),
        model.can_update(image, surface) <==> model.color.images.contains_key(image) && (
        model.color.surfaces.contains_key(surface) || model.color.fresh + 1 <= u64::MAX),
{
}

/// Output of the colorimeter that reports a color replaces the color that was measured last;
/// output that reports none, or cannot be understood, changes nothing. Nothing else changes.
pub proof fn law_measured_color_is_taken_over(model: AppModel, output: Seq<u8>)
    ensures
        ({
            let after = model.metered(output);
            &&& after.detected_swatch == match output_result(output) {
                Ok(Some(values)) => Some(values),
                Ok(None) => model.detected_swatch,
                Err(_) => model.detected_swatch,
            }
            &&& after.color == model.color && after.swatch_color == model.swatch_color
            &&& after.swatch_updated == model.swatch_updated
            &&& same_buffers(after, model) && same_place(after, model)
        }),
{
}

/// The values of a reading are its three texts in order; without a reading there are none.
pub proof fn law_reading_has_its_values(reading: Reading)
    ensures
        tristimulus(Some(reading)) == Some((reading.x@, reading.y@, reading.z@)),
        tristimulus(None) is None,
{
}

} // verus!
