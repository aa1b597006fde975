//! What each operation on the color state is for: what it asks of whom, what it enters, and that
//! it leaves everything else alone.
use vstd::prelude::*;

use crate::color::{MANAGER_VERSION_MAX, MANAGER_VERSION_MIN};
use crate::color_model::{
    parameter_effects, ColorModel, ColorOutput, ColorSurface, ImageDescriptionInner,
    ImageDescriptionSource,
};
use crate::description::{ImageDescriptionBuilder, ImageDescriptionInfo, RenderIntent};
use crate::effect::{
    Effect, ImageDescriptionData, ObjectId, OutputFeedbackData, OutputId, SurfaceFeedbackData,
    SurfaceId,
};
use crate::events::{ColorManagerEvent, ImageDescriptionEvent, ImageDescriptionInfoEvent};
use crate::fault::Fault;

verus! {

/// Whether the lists of what the compositor supports are the same.
pub open spec fn same_support(one: ColorModel, other: ColorModel) -> bool {
    &&& one.supported_idents == other.supported_idents
    &&& one.supported_features == other.supported_features
    &&& one.supported_tfs == other.supported_tfs
    &&& one.supported_primaries == other.supported_primaries
}

/// Whether the two states differ in nothing but the names given out, the image description `image`
/// and what is kept of the output `output`.
pub open spec fn same_but_output(
    one: ColorModel,
    other: ColorModel,
    output: OutputId,
    image: ObjectId,
) -> bool {
    &&& same_support(one, other)
    &&& one.surfaces == other.surfaces
    &&& one.outputs.remove(output) == other.outputs.remove(output)
    &&& one.images.remove(image) == other.images.remove(image)
}

/// Whether the two states differ in nothing but the names given out, the image description `image`
/// and what is kept of the surface `surface`.
pub open spec fn same_but_surface(
    one: ColorModel,
    other: ColorModel,
    surface: SurfaceId,
    image: ObjectId,
) -> bool {
    &&& same_support(one, other)
    &&& one.outputs == other.outputs
    &&& one.surfaces.remove(surface) == other.surfaces.remove(surface)
    &&& one.images.remove(image) == other.images.remove(image)
}

/// Whether `id` was given out between the two states.
pub open spec fn is_new(before: ColorModel, after: ColorModel, id: ObjectId) -> bool {
    before.fresh <= id < after.fresh
}

/// Whether `image` is an image description of `source` that the compositor has been asked for and
/// has not made yet.
pub open spec fn is_asked_for(
    model: ColorModel,
    image: ObjectId,
    source: ImageDescriptionSource,
) -> bool {
    model.images.contains_key(image) && model.images[image] == (ImageDescriptionInner::NotReady {
        source,
        info: None,
    })
}

/// A color state starts with nothing in it.
pub proof fn law_nothing_is_known_at_first(id: u64)
    ensures
        !ColorModel::initial().outputs.contains_key(id),
        !ColorModel::initial().surfaces.contains_key(id),
        !ColorModel::initial().images.contains_key(id),
        ColorModel::initial().supported_idents.len() == 0,
        ColorModel::initial().supported_features.len() == 0,
        ColorModel::initial().supported_tfs.len() == 0,
        ColorModel::initial().supported_primaries.len() == 0,
        ColorModel::initial().fresh == 0,
        ColorModel::initial().wf(),
{
}

/// The first two versions of the color manager are made use of.
pub proof fn law_two_versions_are_used()
    ensures
        MANAGER_VERSION_MIN == 1,
        MANAGER_VERSION_MAX == 2,
{
}

/// There is room for names as long as they are left, and managing a surface takes one exactly if
/// the surface is not managed.
pub proof fn law_room_is_names_left(model: ColorModel, count: int, surface: SurfaceId)
    ensures
        model.has_room(count) <==> count <= u64::MAX - model.fresh,
        model.surfaces.contains_key(surface) ==> model.to_manage(surface) == 0,
        !model.surfaces.contains_key(surface) ==> model.to_manage(surface) == 1,
{
}

/// Tracking an output creates the output's own color management object and asks that object for
/// the output's description. Both are entered for the output, and nothing else changes.
pub proof fn law_tracked_output_is_asked_for(model: ColorModel, output: OutputId)
    requires
        model.fresh + 2 <= u64::MAX,
    ensures
        ({
            let after = model.track_output(output);
            let asked = model.track_output_effects(output);
            let kept = after.outputs[output];
            &&& after.outputs.contains_key(output)
            &&& asked.len() == 2
            &&& asked[0] == (Effect::GetOutput {
                output,
                manager: kept.manager,
                data: OutputFeedbackData { output },
            })
            &&& asked[1] == (Effect::GetImageDescription {
                manager: kept.manager,
                image: kept.info,
                data: ImageDescriptionData { image: kept.info },
            })
            &&& kept.pending_info is None
            &&& kept.manager != kept.info
            &&& is_new(model, after, kept.manager) && is_new(model, after, kept.info)
            &&& is_asked_for(after, kept.info, ImageDescriptionSource::Output(output))
            &&& same_but_output(model, after, output, kept.info)
        }),
{
    let after = model.track_output(output);
    let kept = after.outputs[output];
    assert(model.outputs.remove(output) =~= after.outputs.remove(output));
    assert(model.images.remove(kept.info) =~= after.images.remove(kept.info));
}

/// When the description of a tracked output changes, the one request that follows asks that
/// output's own object for the new one, which becomes pending. Its object and its current
/// description stay, and nothing else changes.
pub proof fn law_changed_output_is_asked_for(model: ColorModel, output: OutputId)
    requires
        model.outputs.contains_key(output),
        model.fresh + 1 <= u64::MAX,
    ensures
        ({
            let after = model.output_changed(output);
            let asked = model.output_changed_effects(output);
            let kept = after.outputs[output];
            &&& after.outputs.contains_key(output)
            &&& kept.manager == model.outputs[output].manager
            &&& kept.info == model.outputs[output].info
            &&& kept.pending_info matches Some(image) && {
                &&& asked.len() == 1
                &&& asked[0] == (Effect::GetImageDescription {
                    manager: model.outputs[output].manager,
                    image,
                    data: ImageDescriptionData { image },
                })
                &&& is_new(model, after, image)
                &&& is_asked_for(after, image, ImageDescriptionSource::Output(output))
                &&& same_but_output(model, after, output, image)
            }
        }),
{
    let after = model.output_changed(output);
    let image = after.outputs[output].pending_info->0;
    assert(model.outputs.remove(output) =~= after.outputs.remove(output));
    assert(model.images.remove(image) =~= after.images.remove(image));
}

/// Releasing an output, or a surface, forgets that one and nothing else.
pub proof fn law_release_forgets_one(model: ColorModel, output: OutputId, surface: SurfaceId)
    ensures
        ({
            let after = model.release_output(output);
            &&& !after.outputs.contains_key(output)
            &&& after.outputs == model.outputs.remove(output)
            &&& after.surfaces == model.surfaces && after.images == model.images
            &&& after.fresh == model.fresh && same_support(model, after)
        }),
        ({
            let after = model.release_surface(surface);
            &&& !after.surfaces.contains_key(surface)
            &&& after.surfaces == model.surfaces.remove(surface)
            &&& after.outputs == model.outputs && after.images == model.images
            &&& after.fresh == model.fresh && same_support(model, after)
        }),
{
}

/// Tracking a surface, managed before or not, creates a feedback object of that surface and asks it
/// for the preferred description, which becomes pending. A surface that was not managed is given
/// an object of its own first, and the new description is its current one as well; one that was
/// managed keeps its object and its current description. Nothing else changes.
pub proof fn law_tracked_surface_is_asked_for(model: ColorModel, surface: SurfaceId)
    requires
        model.fresh + 3 <= u64::MAX || (model.surfaces.contains_key(surface) && model.fresh + 2
            <= u64::MAX),
    ensures
        ({
            let after = model.track_surface(surface);
            let asked = model.track_surface_effects(surface);
            let kept = after.surfaces[surface];
            let managed = model.surfaces.contains_key(surface);
            &&& after.surfaces.contains_key(surface)
            &&& kept.feedback is Some && kept.pending_info is Some
            &&& {
                let feedback = kept.feedback->0;
                let image = kept.pending_info->0;
                let at: int = if managed {
                    0
                } else {
                    1
                };
                &&& asked.len() == at + 2
                &&& asked[at] == (Effect::GetSurfaceFeedback {
                    surface,
                    feedback,
                    data: SurfaceFeedbackData { surface },
                })
                &&& asked[at + 1] == (Effect::GetPreferredParametric {
                    feedback,
                    image,
                    data: ImageDescriptionData { image },
                })
                &&& feedback != image
                &&& is_new(model, after, feedback) && is_new(model, after, image)
                &&& managed ==> kept.manager == model.surfaces[surface].manager && kept.info
                    == model.surfaces[surface].info
                &&& !managed ==> asked[0] == (Effect::GetSurface {
                    surface,
                    manager: kept.manager,
                }) && kept.info == image && is_new(model, after, kept.manager) && kept.manager
                    != feedback && kept.manager != image
                &&& is_asked_for(after, image, ImageDescriptionSource::Surface(surface))
                &&& same_but_surface(model, after, surface, image)
            }
        }),
{
    let after = model.track_surface(surface);
    let image = after.surfaces[surface].pending_info->0;
    assert(model.surfaces.remove(surface) =~= after.surfaces.remove(surface));
    assert(model.images.remove(image) =~= after.images.remove(image));
}

/// When the preferred description of a tracked surface changes, the one request that follows asks
/// that surface's own feedback object for the new one, which becomes pending. Its objects and its
/// current description stay, and nothing else changes.
pub proof fn law_changed_surface_is_asked_for(model: ColorModel, surface: SurfaceId)
    requires
        model.surfaces.contains_key(surface),
        model.surfaces[surface].feedback is Some,
        model.fresh + 1 <= u64::MAX,
    ensures
        ({
            let after = model.preferred_changed(surface);
            let asked = model.preferred_changed_effects(surface);
            let kept = after.surfaces[surface];
            &&& after.surfaces.contains_key(surface)
            &&& kept.manager == model.surfaces[surface].manager
            &&& kept.feedback == model.surfaces[surface].feedback
            &&& kept.info == model.surfaces[surface].info
            &&& kept.pending_info matches Some(image) && {
                &&& asked.len() == 1
                &&& asked[0] == (Effect::GetPreferredParametric {
                    feedback: model.surfaces[surface].feedback->0,
                    image,
                    data: ImageDescriptionData { image },
                })
                &&& is_new(model, after, image)
                &&& is_asked_for(after, image, ImageDescriptionSource::Surface(surface))
                &&& same_but_surface(model, after, surface, image)
            }
        }),
{
    let after = model.preferred_changed(surface);
    let image = after.surfaces[surface].pending_info->0;
    assert(model.surfaces.remove(surface) =~= after.surfaces.remove(surface));
    assert(model.images.remove(image) =~= after.images.remove(image));
}

/// Putting an image description on a surface, managed before or not and whatever describes it,
/// sends that very image with the given intent on the surface's own object, and commits the
/// surface. The image is its current description from then on. A surface that was not managed is
/// given an object of its own first. What is pending stays, and nothing else changes.
pub proof fn law_chosen_description_is_sent(
    model: ColorModel,
    surface: SurfaceId,
    image: ObjectId,
    render_intent: RenderIntent,
)
    requires
        model.fresh + 1 <= u64::MAX || model.surfaces.contains_key(surface),
    ensures
        ({
            let after = model.with_surface_info(surface, image);
            let sent = model.set_surface_description_proxy_effects(surface, image, render_intent);
            let kept = after.surfaces[surface];
            let managed = model.surfaces.contains_key(surface);
            let at: int = if managed {
                0
            } else {
                1
            };
            &&& after.surfaces.contains_key(surface)
            &&& kept.info == image
            &&& sent.len() == at + 2
            &&& sent[at] == (Effect::SetImageDescription {
                manager: kept.manager,
                image,
                render_intent,
            })
            &&& sent[at + 1] == (Effect::CommitSurface { surface })
            &&& managed ==> kept.manager == model.surfaces[surface].manager && kept.feedback
                == model.surfaces[surface].feedback && kept.pending_info
                == model.surfaces[surface].pending_info && after.fresh == model.fresh
            &&& !managed ==> sent[0] == (Effect::GetSurface { surface, manager: kept.manager })
                && is_new(model, after, kept.manager) && kept.feedback is None
                && kept.pending_info is None
            &&& after.images == model.images && after.outputs == model.outputs
            &&& after.surfaces.remove(surface) == model.surfaces.remove(surface)
            &&& same_support(model, after)
        }),
{
    let after = model.with_surface_info(surface, image);
    assert(model.surfaces.remove(surface) =~= after.surfaces.remove(surface));
}

/// Writing a description for a surface, managed before or not, creates one creator, sets exactly
/// the description's parameters on it, one after the other, and has it create one image
/// description, which is entered as the surface's current one and waits with what was written and
/// the intent. Then a surface that was not managed is given an object of its own. What is pending
/// stays, and nothing else changes.
pub proof fn law_written_description_is_made(
    model: ColorModel,
    surface: SurfaceId,
    description: ImageDescriptionInfo,
    render_intent: RenderIntent,
)
    requires
        model.fresh + 3 <= u64::MAX || (model.surfaces.contains_key(surface) && model.fresh + 2
            <= u64::MAX),
    ensures
        ({
            let after = model.set_surface_description(surface, description, render_intent);
            let sent = model.set_surface_description_effects(surface, description, render_intent);
            let parameters = description.parameters();
            let count = parameters.len() as int;
            let kept = after.surfaces[surface];
            let image = kept.info;
            let managed = model.surfaces.contains_key(surface);
            &&& after.surfaces.contains_key(surface)
            &&& sent.len() == count + 2 + if managed {
                0int
            } else {
                1int
            }
            &&& sent[0] matches Effect::CreateParametricCreator { creator } && {
                &&& is_new(model, after, creator) && creator != image
                &&& !managed ==> creator != kept.manager
                &&& forall|i: int|
                    0 <= i < count ==> #[trigger] sent[i + 1] == (Effect::SetParameter {
                        creator,
                        parameter: parameters[i],
                    })
                &&& sent[count + 1] == (Effect::Create {
                    creator,
                    image,
                    data: ImageDescriptionData { image },
                })
            }
            &&& is_new(model, after, image)
            &&& after.images.contains_key(image)
            &&& after.images[image] == (ImageDescriptionInner::NotReady {
                source: ImageDescriptionSource::Surface(surface),
                info: Some((description, render_intent)),
            })
            &&& managed ==> kept.manager == model.surfaces[surface].manager && kept.feedback
                == model.surfaces[surface].feedback && kept.pending_info
                == model.surfaces[surface].pending_info
            &&& !managed ==> sent[count + 2] == (Effect::GetSurface {
                surface,
                manager: kept.manager,
            }) && is_new(model, after, kept.manager) && kept.manager != image
                && kept.feedback is None && kept.pending_info is None
            &&& same_but_surface(model, after, surface, image)
        }),
{
    let after = model.set_surface_description(surface, description, render_intent);
    let image = after.surfaces[surface].info;
    let sent = model.set_surface_description_effects(surface, description, render_intent);
    let parameters = description.parameters();
    assert forall|i: int| 0 <= i < parameters.len() implies #[trigger] sent[i + 1] == (
    Effect::SetParameter { creator: model.fresh, parameter: parameters[i] }) by {
        assert(sent[i + 1] == parameter_effects(model.fresh, description)[i]);
    }
    assert(model.surfaces.remove(surface) =~= after.surfaces.remove(surface));
    assert(model.images.remove(image) =~= after.images.remove(image));
}

/// When an image description that was written becomes ready, it is known as it was written, and the
/// surface that it was written for is given that very image with the intent that was written, on
/// the surface's own object, and is committed. Nothing else changes.
pub proof fn law_ready_written_description_is_applied(
    model: ColorModel,
    image: ObjectId,
    surface: SurfaceId,
    description: ImageDescriptionInfo,
    render_intent: RenderIntent,
)
    requires
        model.images.contains_key(image),
        model.images[image] == (ImageDescriptionInner::NotReady {
            source: ImageDescriptionSource::Surface(surface),
            info: Some((description, render_intent)),
        }),
    ensures
        ({
            let after = model.image_ready(image);
            let sent = model.image_ready_effects(image);
            &&& sent.len() == 2
            &&& sent[0] == (Effect::SetImageDescription {
                manager: model.surfaces[surface].manager,
                image,
                render_intent,
            })
            &&& sent[1] == (Effect::CommitSurface { surface })
            &&& after.images.contains_key(image)
            &&& after.images[image] == ImageDescriptionInner::Defined(description)
            &&& after.images.remove(image) == model.images.remove(image)
            &&& after.surfaces == model.surfaces && after.outputs == model.outputs
            &&& after.fresh == model.fresh && same_support(model, after)
        }),
{
    let after = model.image_ready(image);
    assert(model.images.remove(image) =~= after.images.remove(image));
}

/// When an image description that was asked for becomes ready, a report on that very image is asked
/// for, and it starts with nothing reported. Nothing else changes. One that was ready before asks
/// for nothing and changes nothing.
pub proof fn law_ready_requested_description_is_reported_on(
    model: ColorModel,
    image: ObjectId,
    source: ImageDescriptionSource,
)
    requires
        model.images.contains_key(image),
    ensures
        is_asked_for(model, image, source) ==> {
            let after = model.image_ready(image);
            let asked = model.image_ready_effects(image);
            &&& asked.len() == 1
            &&& asked[0] == (Effect::GetInformation { image, data: ImageDescriptionData { image } })
            &&& after.images.contains_key(image)
            &&& after.images[image] matches ImageDescriptionInner::Building { builder, source: own }
                && own == source && builder.primaries is None && builder.eotf is None
                && builder.luma_range is None && builder.ref_luma is None
                && builder.mastering_primaries is None && builder.mastering_luma_range is None
                && builder.target_max_cll is None && builder.target_max_fall is None
            &&& after.images.remove(image) == model.images.remove(image)
            &&& after.surfaces == model.surfaces && after.outputs == model.outputs
            &&& after.fresh == model.fresh && same_support(model, after)
        },
        !(model.images[image] is NotReady) ==> model.image_ready(image) == model
            && model.image_ready_effects(image).len() == 0,
{
    let after = model.image_ready(image);
    assert(model.images.remove(image) =~= after.images.remove(image));
}

/// The end of a report tells the program, once, what was reported of the output or the surface that
/// it is about, naming the description that was pending for it; that one becomes current and
/// nothing is pending. The description is known from then on. Of an output or a surface that is
/// no longer followed the program is told nothing. Nothing else changes.
pub proof fn law_end_of_report_is_passed_on(
    model: ColorModel,
    image: ObjectId,
    builder: ImageDescriptionBuilder,
    source: ImageDescriptionSource,
)
    requires
        model.images.contains_key(image),
        model.images[image] == (ImageDescriptionInner::Building { builder, source }),
        builder.primaries is Some,
        builder.eotf is Some,
        builder.luma_range is Some,
        builder.ref_luma is Some,
    ensures
        ({
            let after = model.info_event(image, ImageDescriptionInfoEvent::Done);
            let told = model.info_event_effects(image, ImageDescriptionInfoEvent::Done);
            let description = ImageDescriptionInfo::Parametric {
                primaries: builder.primaries->0,
                eotf: builder.eotf->0,
                luma_range: builder.luma_range->0,
                ref_luma: builder.ref_luma->0,
                mastering_primaries: builder.mastering_primaries,
                mastering_luma_range: builder.mastering_luma_range,
                target_max_cll: builder.target_max_cll,
                target_max_fall: builder.target_max_fall,
            };
            &&& after.images.contains_key(image)
            &&& after.images[image] == ImageDescriptionInner::Defined(description)
            &&& after.images.remove(image) == model.images.remove(image)
            &&& after.fresh == model.fresh && same_support(model, after)
            &&& match source {
                ImageDescriptionSource::Output(output) => {
                    &&& after.surfaces == model.surfaces
                    &&& after.outputs.remove(output) == model.outputs.remove(output)
                    &&& !model.outputs.contains_key(output) ==> told.len() == 0 && after.outputs
                        == model.outputs
                    &&& model.outputs.contains_key(output)
                        && model.outputs[output].pending_info is Some ==> {
                        let pending = model.outputs[output].pending_info->0;
                        &&& told.len() == 1
                        &&& told[0] == (Effect::OutputUpdate {
                            image: pending,
                            output,
                            description,
                        })
                        &&& after.outputs.contains_key(output)
                        &&& after.outputs[output] == (ColorOutput {
                            manager: model.outputs[output].manager,
                            info: pending,
                            pending_info: None,
                        })
                    }
                },
                ImageDescriptionSource::Surface(surface) => {
                    &&& after.outputs == model.outputs
                    &&& after.surfaces.remove(surface) == model.surfaces.remove(surface)
                    &&& !model.surfaces.contains_key(surface) ==> told.len() == 0
                        && after.surfaces == model.surfaces
                    &&& model.surfaces.contains_key(surface)
                        && model.surfaces[surface].pending_info is Some ==> {
                        let pending = model.surfaces[surface].pending_info->0;
                        &&& told.len() == 1
                        &&& told[0] == (Effect::SurfaceUpdate {
                            image: pending,
                            surface,
                            description,
                        })
                        &&& after.surfaces.contains_key(surface)
                        &&& after.surfaces[surface] == (ColorSurface {
                            feedback: model.surfaces[surface].feedback,
                            manager: model.surfaces[surface].manager,
                            info: pending,
                            pending_info: None,
                        })
                    }
                },
            }
        }),
{
    let after = model.info_event(image, ImageDescriptionInfoEvent::Done);
    assert(model.images.remove(image) =~= after.images.remove(image));
    match source {
        ImageDescriptionSource::Output(output) => {
            assert(model.outputs.remove(output) =~= after.outputs.remove(output));
        },
        ImageDescriptionSource::Surface(surface) => {
            assert(model.surfaces.remove(surface) =~= after.surfaces.remove(surface));
        },
    }
}

/// A part of a report goes into what has been reported of that very image, tells the program
/// nothing and changes nothing else. Outside of a report it changes nothing at all.
pub proof fn law_part_of_report_is_taken_in(
    model: ColorModel,
    image: ObjectId,
    event: ImageDescriptionInfoEvent,
)
    requires
        model.images.contains_key(image),
    ensures
        match model.images[image] {
            ImageDescriptionInner::Building { builder, source } => !(event is Done) ==> {
                let after = model.info_event(image, event);
                &&& model.info_event_effects(image, event).len() == 0
                &&& after.images.contains_key(image)
                &&& after.images[image] == (ImageDescriptionInner::Building {
                    builder: builder.with(event),
                    source,
                })
                &&& after.images.remove(image) == model.images.remove(image)
                &&& after.surfaces == model.surfaces && after.outputs == model.outputs
                &&& after.fresh == model.fresh && same_support(model, after)
            },
            _ => true,
        },
        !(model.images[image] is Building) ==> model.info_event(image, event) == model
            && model.info_event_effects(image, event).len() == 0,
{
    let after = model.info_event(image, event);
    assert(model.images.remove(image) =~= after.images.remove(image));
}

/// What the compositor announces goes to the end of its own list, and the program is told when, and
/// only when, everything has been announced. Nothing else changes.
pub proof fn law_announcement_is_listed(model: ColorModel, event: ColorManagerEvent)
    ensures
        ({
            let after = model.manager_event(event);
            let told = model.manager_event_effects(event);
            &&& after.outputs == model.outputs && after.surfaces == model.surfaces
            &&& after.images == model.images && after.fresh == model.fresh
            &&& (event is Done) ==> told.len() == 1 && told[0] == Effect::CompositorFeatures
                && same_support(model, after)
            &&& !(event is Done) ==> told.len() == 0
            &&& after.supported_features == match event {
                ColorManagerEvent::SupportedFeature { feature } => model.supported_features.push(
                    feature,
                ),
                _ => model.supported_features,
            }
            &&& after.supported_primaries == match event {
                ColorManagerEvent::SupportedPrimariesNamed { primaries } =>
                    model.supported_primaries.push(primaries),
                _ => model.supported_primaries,
            }
            &&& after.supported_idents == match event {
                ColorManagerEvent::SupportedIntent { render_intent } =>
                    model.supported_idents.push(render_intent),
                _ => model.supported_idents,
            }
            &&& after.supported_tfs == match event {
                ColorManagerEvent::SupportedTfNamed { tf } => model.supported_tfs.push(tf),
                _ => model.supported_tfs,
            }
        }),
{
}

/// The description of a managed surface can be read exactly if its current image description is
/// known, and is what is known of that one; a surface that is not managed has none.
pub proof fn law_current_description_is_read(model: ColorModel, surface: SurfaceId)
    ensures
        !model.surfaces.contains_key(surface) ==> model.surface_description_ready(surface)
            && model.surface_description(surface) is None,
        model.surfaces.contains_key(surface) ==> {
            let image = model.surfaces[surface].info;
            &&& model.surface_description_ready(surface) <==> model.images.contains_key(image)
                && model.images[image] is Defined
            &&& model.images[image] matches ImageDescriptionInner::Defined(description)
                ==> model.surface_description(surface) == Some(description)
        },
{
}

/// An event for an output is followed exactly if the output is tracked, and one for a surface
/// exactly if the surface is managed and has a feedback object.
pub proof fn law_only_untracked_events_are_faults(
    model: ColorModel,
    output: OutputId,
    surface: SurfaceId,
)
    ensures
        model.outputs.contains_key(output) <==> model.output_fault(output) is None,
        !model.outputs.contains_key(output) ==> model.output_fault(output) == Some(
            Fault::UntrackedOutput,
        ),
        model.feedback_fault(surface) is None <==> model.surfaces.contains_key(surface)
            && model.surfaces[surface].feedback is Some,
        !model.surfaces.contains_key(surface) ==> model.feedback_fault(surface) == Some(
            Fault::UntrackedSurface,
        ),
        model.surfaces.contains_key(surface) && model.surfaces[surface].feedback is None
            ==> model.feedback_fault(surface) == Some(Fault::MissingFeedback),
{
}

/// An image description that becomes ready, in either form, is followed unless it was written for a
/// surface that is not managed any more; one that failed never is.
pub proof fn law_only_failures_and_lost_surfaces_are_faults(
    model: ColorModel,
    image: ObjectId,
    event: ImageDescriptionEvent,
)
    ensures
        (event is Failed) ==> model.image_fault(image, event) == Some(Fault::DescriptionFailed),
        !(event is Failed) ==> match model.images[image] {
            ImageDescriptionInner::NotReady {
                source: ImageDescriptionSource::Surface(surface),
                info: Some(_),
            } => model.image_fault(image, event) == if model.surfaces.contains_key(surface) {
                None::<Fault>
            } else {
                Some(Fault::MissingSurface)
            },
            _ => model.image_fault(image, event) is None,
        },
{
}

/// A part of a report is always followed. Its end is followed exactly if it comes outside of a
/// report, or nothing that a description needs is missing and the output or surface either has
/// something pending or is not followed any more. What is missing first is what is found.
pub proof fn law_only_incomplete_or_unawaited_reports_are_faults(
    model: ColorModel,
    image: ObjectId,
    event: ImageDescriptionInfoEvent,
)
    ensures
        match (model.images[image], event) {
            (
                ImageDescriptionInner::Building { builder, source },
                ImageDescriptionInfoEvent::Done,
            ) => {
                let fault = model.info_fault(image, event);
                let unawaited = match source {
                    ImageDescriptionSource::Output(output) => model.outputs.contains_key(output)
                        && model.outputs[output].pending_info is None,
                    ImageDescriptionSource::Surface(surface) => model.surfaces.contains_key(surface)
                        && model.surfaces[surface].pending_info is None,
                };
                let whole = builder.primaries is Some && builder.eotf is Some
                    && builder.luma_range is Some && builder.ref_luma is Some;
                &&& fault is None <==> whole && !unawaited
                &&& builder.primaries is None ==> fault == Some(Fault::MissingPrimaries)
                &&& builder.primaries is Some && builder.eotf is None ==> fault == Some(
                    Fault::MissingEotf,
                )
                &&& builder.primaries is Some && builder.eotf is Some && builder.luma_range is None
                    ==> fault == Some(Fault::MissingLumaRange)
                &&& builder.primaries is Some && builder.eotf is Some && builder.luma_range is Some
                    && builder.ref_luma is None ==> fault == Some(Fault::MissingRefLuma)
                &&& whole && unawaited && (source is Output) ==> fault == Some(
                    Fault::OutputNotPending,
                )
                &&& whole && unawaited && (source is Surface) ==> fault == Some(
                    Fault::SurfaceNotPending,
                )
            },
            _ => model.info_fault(image, event) is None,
        },
{
}

} // verus!
