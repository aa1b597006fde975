//! What holds of the color state, step by step and over histories of steps.
use vstd::prelude::*;

use crate::color_model::{
    parameter_effects, ColorModel, ImageDescriptionInner, ImageDescriptionSource,
};
use crate::description::{
    Feature, ImageDescriptionBuilder, ImageDescriptionInfo, NamedEotf, NamedPrimaries,
    RenderIntent, EXPONENT_SCALE, LUMA_SCALE,
};
use crate::description_laws::{
    echoed, echoed_chromaticities, last_about, law_echo_is_near, law_report_is_written_back,
    lemma_three_parts, near_zero, Part,
};
use crate::effect::{Effect, ImageDescriptionData, ObjectId, OutputId, SurfaceId};
use crate::events::{
    Chromaticities, ColorManagerEvent, ImageDescriptionEvent, ImageDescriptionInfoEvent,
};
use crate::fault::Fault;
use crate::parameters::Parameter;

verus! {

/// An operation on the color state.
pub enum Step {
    TrackOutput(OutputId),
    ReleaseOutput(OutputId),
    OutputChanged(OutputId),
    TrackSurface(SurfaceId),
    ReleaseSurface(SurfaceId),
    SetDescriptionProxy(SurfaceId, ObjectId, RenderIntent),
    SetDescription(SurfaceId, ImageDescriptionInfo, RenderIntent),
    PreferredChanged(SurfaceId),
    Ready(ObjectId),
    Info(ObjectId, ImageDescriptionInfoEvent),
    Manager(ColorManagerEvent),
}

impl ColorModel {
    /// Whether the operation has an outcome.
    pub open spec fn allows(self, step: Step) -> bool {
        match step {
            Step::TrackOutput(_) => self.has_room(2),
            Step::ReleaseOutput(_) => true,
            Step::OutputChanged(output) => self.has_room(1) && self.output_fault(output) is None,
            Step::TrackSurface(surface) => self.has_room(2 + self.to_manage(surface)),
            Step::ReleaseSurface(_) => true,
            Step::SetDescriptionProxy(surface, image, _) => self.has_room(self.to_manage(surface))
                && self.images.contains_key(image),
            Step::SetDescription(surface, description, _) => self.has_room(
                2 + self.to_manage(surface),
            ) && description.fault() is None,
            Step::PreferredChanged(surface) => self.has_room(1) && self.feedback_fault(
                surface,
            ) is None,
            Step::Ready(image) => self.images.contains_key(image) && self.image_fault(
                image,
                ImageDescriptionEvent::Ready { identity: 0 },
            ) is None,
            Step::Info(image, event) => self.images.contains_key(image) && self.info_fault(
                image,
                event,
            ) is None,
            Step::Manager(_) => true,
        }
    }

    /// The outcome of the operation.
    pub open spec fn after(self, step: Step) -> Self {
        match step {
            Step::TrackOutput(output) => self.track_output(output),
            Step::ReleaseOutput(output) => self.release_output(output),
            Step::OutputChanged(output) => self.output_changed(output),
            Step::TrackSurface(surface) => self.track_surface(surface),
            Step::ReleaseSurface(surface) => self.release_surface(surface),
            Step::SetDescriptionProxy(surface, image, _) => self.with_surface_info(surface, image),
            Step::SetDescription(surface, description, render_intent) =>
                self.set_surface_description(surface, description, render_intent),
            Step::PreferredChanged(surface) => self.preferred_changed(surface),
            Step::Ready(image) => self.image_ready(image),
            Step::Info(image, event) => self.info_event(image, event),
            Step::Manager(event) => self.manager_event(event),
        }
    }

    /// What the operation asks for.
    pub open spec fn effects(self, step: Step) -> Seq<Effect> {
        match step {
            Step::TrackOutput(output) => self.track_output_effects(output),
            Step::ReleaseOutput(_) => seq![],
            Step::OutputChanged(output) => self.output_changed_effects(output),
            Step::TrackSurface(surface) => self.track_surface_effects(surface),
            Step::ReleaseSurface(_) => seq![],
            Step::SetDescriptionProxy(surface, image, render_intent) =>
                self.set_surface_description_proxy_effects(surface, image, render_intent),
            Step::SetDescription(surface, description, render_intent) =>
                self.set_surface_description_effects(surface, description, render_intent),
            Step::PreferredChanged(surface) => self.preferred_changed_effects(surface),
            Step::Ready(image) => self.image_ready_effects(image),
            Step::Info(image, event) => self.info_event_effects(image, event),
            Step::Manager(event) => self.manager_event_effects(event),
        }
    }

    /// Whether the operations, the first one first, all have an outcome.
    pub open spec fn allows_all(self, steps: Seq<Step>) -> bool
        decreases steps.len(),
    {
        steps.len() == 0 || {
            &&& self.allows_all(steps.drop_last())
            &&& self.after_all(steps.drop_last()).allows(steps.last())
        }
    }

    /// The outcome of the operations, the first one first.
    pub open spec fn after_all(self, steps: Seq<Step>) -> Self
        decreases steps.len(),
    {
        if steps.len() == 0 {
            self
        } else {
            self.after_all(steps.drop_last()).after(steps.last())
        }
    }

    /// Whether the operation leaves the choice of the current description of `surface` alone:
    /// it neither chooses one, nor ends a report on the surface, nor releases it.
    pub open spec fn spares(self, step: Step, surface: SurfaceId) -> bool {
        match step {
            Step::ReleaseSurface(other) => other != surface,
            Step::SetDescriptionProxy(other, _, _) => other != surface,
            Step::SetDescription(other, _, _) => other != surface,
            Step::Info(image, ImageDescriptionInfoEvent::Done) => match self.images[image] {
                ImageDescriptionInner::Building { source, .. } => source
                    != ImageDescriptionSource::Surface(surface),
                _ => true,
            },
            _ => true,
        }
    }

    /// Whether each of the operations, the first one first, leaves the choice of the current
    /// description of `surface` alone.
    pub open spec fn all_spare(self, steps: Seq<Step>, surface: SurfaceId) -> bool
        decreases steps.len(),
    {
        steps.len() == 0 || {
            &&& self.all_spare(steps.drop_last(), surface)
            &&& self.after_all(steps.drop_last()).spares(steps.last(), surface)
        }
    }

    /// Whether `source` is a tracked output or a managed surface.
    pub open spec fn follows(self, source: ImageDescriptionSource) -> bool {
        match source {
            ImageDescriptionSource::Output(output) => self.outputs.contains_key(output),
            ImageDescriptionSource::Surface(surface) => self.surfaces.contains_key(surface),
        }
    }

    /// The image description that is pending for `source`, if one is.
    pub open spec fn pending_for(self, source: ImageDescriptionSource) -> Option<ObjectId> {
        match source {
            ImageDescriptionSource::Output(output) => self.outputs[output].pending_info,
            ImageDescriptionSource::Surface(surface) => self.surfaces[surface].pending_info,
        }
    }

    /// The current image description of `source`.
    pub open spec fn current_for(self, source: ImageDescriptionSource) -> ObjectId {
        match source {
            ImageDescriptionSource::Output(output) => self.outputs[output].info,
            ImageDescriptionSource::Surface(surface) => self.surfaces[surface].info,
        }
    }

    /// Whether the description of `source` has been asked for, as `image`, and is pending.
    pub open spec fn awaits(self, source: ImageDescriptionSource, image: ObjectId) -> bool {
        &&& self.follows(source)
        &&& self.pending_for(source) == Some(image)
        &&& self.images.contains_key(image)
        &&& self.images[image] == ImageDescriptionInner::requested(source)
    }

    /// Whether the operation leaves alone what is pending for `source`: it neither tracks it, nor
    /// follows a change of it, nor releases it, nor ends a report on it.
    pub open spec fn leaves_pending(self, step: Step, source: ImageDescriptionSource) -> bool {
        match step {
            Step::TrackOutput(output) => source != ImageDescriptionSource::Output(output),
            Step::ReleaseOutput(output) => source != ImageDescriptionSource::Output(output),
            Step::OutputChanged(output) => source != ImageDescriptionSource::Output(output),
            Step::TrackSurface(surface) => source != ImageDescriptionSource::Surface(surface),
            Step::ReleaseSurface(surface) => source != ImageDescriptionSource::Surface(surface),
            Step::PreferredChanged(surface) => source != ImageDescriptionSource::Surface(surface),
            Step::Info(image, ImageDescriptionInfoEvent::Done) => match self.images[image] {
                ImageDescriptionInner::Building { source: own, .. } => own != source,
                _ => true,
            },
            _ => true,
        }
    }

    /// Whether each of the operations, the first one first, leaves alone what is pending for
    /// `source`.
    pub open spec fn all_leave_pending(
        self,
        steps: Seq<Step>,
        source: ImageDescriptionSource,
    ) -> bool
        decreases steps.len(),
    {
        steps.len() == 0 || {
            &&& self.all_leave_pending(steps.drop_last(), source)
            &&& self.after_all(steps.drop_last()).leaves_pending(steps.last(), source)
        }
    }
}

/// The notice that the description of `source` has changed.
pub open spec fn notice(
    source: ImageDescriptionSource,
    image: ObjectId,
    description: ImageDescriptionInfo,
) -> Effect {
    match source {
        ImageDescriptionSource::Output(output) => Effect::OutputUpdate {
            image,
            output,
            description,
        },
        ImageDescriptionSource::Surface(surface) => Effect::SurfaceUpdate {
            image,
            surface,
            description,
        },
    }
}

/// All but the last of the operations are among them, and so is the last one.
proof fn lemma_earlier_steps(steps: Seq<Step>, step: Step)
    requires
        steps.len() > 0,
    ensures
        steps.drop_last().contains(step) ==> steps.contains(step),
        steps.contains(steps.last()),
{
    let init = steps.drop_last();
    if init.contains(step) {
        let i = choose|i: int| 0 <= i < init.len() && init[i] == step;
        assert(steps[i] == step);
    }
}

/// An operation keeps the color state well-formed, and gives a new image description a name that
/// was never used before.
#[verifier::rlimit(40)]
pub proof fn law_step_keeps_wf(model: ColorModel, step: Step)
    requires
        model.wf(),
        model.allows(step),
    ensures
        model.after(step).wf(),
        model.fresh <= model.after(step).fresh,
        forall|image: ObjectId| #[trigger]
            model.after(step).images.contains_key(image) && !model.images.contains_key(image)
                ==> model.fresh <= image < model.after(step).fresh,
{
    match step {
        Step::TrackOutput(output) => assert(model.track_output(output).wf()),
        Step::ReleaseOutput(output) => assert(model.release_output(output).wf()),
        Step::OutputChanged(output) => assert(model.output_changed(output).wf()),
        Step::TrackSurface(surface) => assert(model.track_surface(surface).wf()),
        Step::ReleaseSurface(surface) => assert(model.release_surface(surface).wf()),
        Step::SetDescriptionProxy(surface, image, _) => assert(model.with_surface_info(
            surface,
            image,
        ).wf()),
        Step::SetDescription(surface, description, render_intent) => {
            let written = model.with_written(surface, description, render_intent);
            assert(written.wf());
            assert(written.with_surface_info(surface, (model.fresh + 1) as u64).wf());
        },
        Step::PreferredChanged(surface) => assert(model.preferred_changed(surface).wf()),
        Step::Ready(image) => assert(model.image_ready(image).wf()),
        Step::Info(image, event) => assert(model.info_event(image, event).wf()),
        Step::Manager(event) => assert(model.manager_event(event).wf()),
    }
}

/// Every history that has an outcome leaves the color state well-formed.
pub proof fn law_history_keeps_wf(model: ColorModel, steps: Seq<Step>)
    requires
        model.wf(),
        model.allows_all(steps),
    ensures
        model.after_all(steps).wf(),
    decreases steps.len(),
{
    if steps.len() > 0 {
        law_history_keeps_wf(model, steps.drop_last());
        law_step_keeps_wf(model.after_all(steps.drop_last()), steps.last());
    }
}

/// An image description is never forgotten, never falls back, and once known it stays as it is.
pub proof fn law_images_only_advance(model: ColorModel, steps: Seq<Step>, image: ObjectId)
    requires
        model.wf(),
        model.allows_all(steps),
        model.images.contains_key(image),
    ensures
        model.after_all(steps).images.contains_key(image),
        model.images[image].phase() <= model.after_all(steps).images[image].phase(),
        model.images[image] is Defined ==> model.after_all(steps).images[image]
            == model.images[image],
    decreases steps.len(),
{
    if steps.len() > 0 {
        let before = model.after_all(steps.drop_last());
        law_images_only_advance(model, steps.drop_last(), image);
        law_history_keeps_wf(model, steps.drop_last());
        assert(before.image_wf(image));
    }
}

/// A step that leaves the choice of a surface's current description alone changes neither the
/// choice nor the object that manages the surface.
proof fn lemma_spared_surface(model: ColorModel, step: Step, surface: SurfaceId)
    requires
        model.wf(),
        model.allows(step),
        model.spares(step, surface),
        model.surfaces.contains_key(surface),
    ensures
        model.after(step).surfaces.contains_key(surface),
        model.after(step).surfaces[surface].info == model.surfaces[surface].info,
        model.after(step).surfaces[surface].manager == model.surfaces[surface].manager,
{
}

/// An image description that is not ready stays as it is until it becomes ready.
proof fn lemma_unready_waits(model: ColorModel, steps: Seq<Step>, image: ObjectId)
    requires
        model.wf(),
        model.allows_all(steps),
        !steps.contains(Step::Ready(image)),
        model.images.contains_key(image),
        model.images[image] is NotReady,
    ensures
        model.after_all(steps).wf(),
        model.after_all(steps).images.contains_key(image),
        model.after_all(steps).images[image] == model.images[image],
    decreases steps.len(),
{
    if steps.len() > 0 {
        let before = model.after_all(steps.drop_last());
        lemma_earlier_steps(steps, Step::Ready(image));
        lemma_unready_waits(model, steps.drop_last(), image);
        law_step_keeps_wf(before, steps.last());
        assert(before.image_wf(image));
    }
}

/// The choice of a surface's current description stays while it is left alone.
proof fn lemma_choice_stays(model: ColorModel, steps: Seq<Step>, surface: SurfaceId)
    requires
        model.wf(),
        model.allows_all(steps),
        model.all_spare(steps, surface),
        model.surfaces.contains_key(surface),
    ensures
        model.after_all(steps).surfaces.contains_key(surface),
        model.after_all(steps).surfaces[surface].info == model.surfaces[surface].info,
        model.after_all(steps).surfaces[surface].manager == model.surfaces[surface].manager,
    decreases steps.len(),
{
    if steps.len() > 0 {
        lemma_choice_stays(model, steps.drop_last(), surface);
        law_history_keeps_wf(model, steps.drop_last());
        lemma_spared_surface(model.after_all(steps.drop_last()), steps.last(), surface);
    }
}

/// A known current description of a surface stays readable, and the same, for as long as nothing
/// chooses another one, ends a report on the surface, or releases it.
pub proof fn law_known_description_stays(model: ColorModel, steps: Seq<Step>, surface: SurfaceId)
    requires
        model.wf(),
        model.allows_all(steps),
        model.all_spare(steps, surface),
        model.surfaces.contains_key(surface),
        model.surface_description_ready(surface),
    ensures
        model.after_all(steps).surfaces.contains_key(surface),
        model.after_all(steps).surface_description_ready(surface),
        model.after_all(steps).surface_description(surface) == model.surface_description(surface),
        model.after_all(steps).surfaces[surface].info == model.surfaces[surface].info,
{
    lemma_choice_stays(model, steps, surface);
    law_images_only_advance(model, steps, model.surfaces[surface].info);
}

/// A description that is written for a surface is read back once it is ready, whatever else
/// happens in between, unless something chooses another one for the surface, ends a report on
/// it, or releases it. At that moment the surface is given the description with the render
/// intent that was written, and committed.
pub proof fn law_written_description_is_read_back(
    model: ColorModel,
    surface: SurfaceId,
    description: ImageDescriptionInfo,
    render_intent: RenderIntent,
    between: Seq<Step>,
)
    requires
        model.wf(),
        model.allows(Step::SetDescription(surface, description, render_intent)),
        ({
            let written = model.set_surface_description(surface, description, render_intent);
            &&& written.allows_all(between)
            &&& written.all_spare(between, surface)
            &&& !between.contains(Step::Ready((model.fresh + 1) as u64))
        }),
    ensures
        ({
            let written = model.set_surface_description(surface, description, render_intent);
            let image = (model.fresh + 1) as u64;
            let waiting = written.after_all(between);
            let ready = waiting.after(Step::Ready(image));
            &&& waiting.allows(Step::Ready(image))
            &&& waiting.image_ready_effects(image) == seq![
                Effect::SetImageDescription {
                    manager: written.surfaces[surface].manager,
                    image,
                    render_intent,
                },
                Effect::CommitSurface { surface },
            ]
            &&& !waiting.surface_description_ready(surface)
            &&& ready.surface_description_ready(surface)
            &&& ready.surface_description(surface) == Some(description)
        }),
{
    let step = Step::SetDescription(surface, description, render_intent);
    law_step_keeps_wf(model, step);
    let written = model.after(step);
    let image = (model.fresh + 1) as u64;
    lemma_unready_waits(written, between, image);
    lemma_choice_stays(written, between, surface);
}

/// What the operations, the first one first, report on `image`.
pub open spec fn reported(image: ObjectId, steps: Seq<Step>) -> Seq<ImageDescriptionInfoEvent>
    decreases steps.len(),
{
    if steps.len() == 0 {
        seq![]
    } else {
        let earlier = reported(image, steps.drop_last());
        match steps.last() {
            Step::Info(other, event) => if other == image {
                earlier.push(event)
            } else {
                earlier
            },
            _ => earlier,
        }
    }
}

/// While a report on an image description goes on, what was reported on it, and nothing else
/// that happens, adds up in its builder.
pub proof fn law_reports_add_up(
    model: ColorModel,
    image: ObjectId,
    builder: ImageDescriptionBuilder,
    source: ImageDescriptionSource,
    steps: Seq<Step>,
)
    requires
        model.wf(),
        model.images.contains_key(image),
        model.images[image] == (ImageDescriptionInner::Building { builder, source }),
        model.allows_all(steps),
        !steps.contains(Step::Info(image, ImageDescriptionInfoEvent::Done)),
    ensures
        model.after_all(steps).images.contains_key(image),
        model.after_all(steps).images[image] == (ImageDescriptionInner::Building {
            builder: builder.with_all(reported(image, steps)),
            source,
        }),
    decreases steps.len(),
{
    if steps.len() > 0 {
        let init = steps.drop_last();
        let before = model.after_all(init);
        lemma_earlier_steps(steps, Step::Info(image, ImageDescriptionInfoEvent::Done));
        law_reports_add_up(model, image, builder, source, init);
        law_history_keeps_wf(model, init);
        assert(before.image_wf(image));
        if let Step::Info(other, event) = steps.last() {
            if other == image {
                let events = reported(image, steps);
                assert(events.drop_last() =~= reported(image, init));
                assert(events.last() == event);
            }
        }
    }
}

/// What is pending stays pending while it is left alone.
proof fn lemma_pending_stays(model: ColorModel, steps: Seq<Step>, source: ImageDescriptionSource)
    requires
        model.allows_all(steps),
        model.all_leave_pending(steps, source),
        model.follows(source),
    ensures
        model.after_all(steps).follows(source),
        model.after_all(steps).pending_for(source) == model.pending_for(source),
    decreases steps.len(),
{
    if steps.len() > 0 {
        let before = model.after_all(steps.drop_last());
        lemma_pending_stays(model, steps.drop_last(), source);
        lemma_pending_left(before, steps.last(), source);
    }
}

proof fn lemma_pending_left(model: ColorModel, step: Step, source: ImageDescriptionSource)
    requires
        model.allows(step),
        model.leaves_pending(step, source),
        model.follows(source),
    ensures
        model.after(step).follows(source),
        model.after(step).pending_for(source) == model.pending_for(source),
{
}

/// Tracking a surface, and following a change of an output or of a surface, asks for a
/// description: under a new name, and pending from then on.
pub proof fn law_descriptions_are_asked_for(model: ColorModel, step: Step)
    requires
        model.wf(),
        model.allows(step),
    ensures
        match step {
            Step::TrackSurface(surface) => {
                let image = (model.after(step).fresh - 1) as u64;
                &&& model.after(step).awaits(ImageDescriptionSource::Surface(surface), image)
                &&& !model.images.contains_key(image)
            },
            Step::OutputChanged(output) => {
                let image = model.fresh;
                &&& model.after(step).awaits(ImageDescriptionSource::Output(output), image)
                &&& !model.images.contains_key(image)
            },
            Step::PreferredChanged(surface) => {
                let image = model.fresh;
                &&& model.after(step).awaits(ImageDescriptionSource::Surface(surface), image)
                &&& !model.images.contains_key(image)
            },
            _ => true,
        },
{
    assert forall|image: ObjectId| model.fresh <= image implies !model.images.contains_key(
        image,
    ) by {
        if model.images.contains_key(image) {
            assert(model.image_wf(image));
        }
    }
}

/// A description that has been asked for is reported to the program: when it becomes ready a
/// report on it is asked for, and when a report that leaves nothing out has ended, the program is
/// told what it said, and the description is known and current and no longer pending. Whatever
/// else happens before it becomes ready and during the report makes no difference, but for a
/// step that tracks, changes or releases what it describes, or ends another report on that.
pub proof fn law_requested_description_is_reported(
    asked: ColorModel,
    source: ImageDescriptionSource,
    image: ObjectId,
    before: Seq<Step>,
    during: Seq<Step>,
)
    requires
        asked.wf(),
        asked.awaits(source, image),
        asked.allows_all(before),
        asked.all_leave_pending(before, source),
        !before.contains(Step::Ready(image)),
        ({
            let begun = asked.after_all(before).after(Step::Ready(image));
            &&& begun.allows_all(during)
            &&& begun.all_leave_pending(during, source)
            &&& !during.contains(Step::Info(image, ImageDescriptionInfoEvent::Done))
        }),
        ImageDescriptionBuilder::blank().with_all(reported(image, during)).complete(),
    ensures
        ({
            let waiting = asked.after_all(before);
            let ended = waiting.after(Step::Ready(image)).after_all(during);
            let done = ended.after(Step::Info(image, ImageDescriptionInfoEvent::Done));
            let description = ImageDescriptionBuilder::blank().with_all(
                reported(image, during),
            ).built();
            &&& waiting.allows(Step::Ready(image))
            &&& waiting.image_ready_effects(image) == seq![
                Effect::GetInformation { image, data: ImageDescriptionData { image } },
            ]
            &&& ended.allows(Step::Info(image, ImageDescriptionInfoEvent::Done))
            &&& ended.info_event_effects(image, ImageDescriptionInfoEvent::Done) == seq![
                notice(source, image, description),
            ]
            &&& done.follows(source)
            &&& done.current_for(source) == image
            &&& done.pending_for(source) is None
            &&& done.images[image] == ImageDescriptionInner::Defined(description)
            &&& source matches ImageDescriptionSource::Surface(surface)
                ==> done.surface_description_ready(surface) && done.surface_description(surface)
                == Some(description)
        }),
{
    let waiting = asked.after_all(before);
    let begun = waiting.after(Step::Ready(image));
    lemma_unready_waits(asked, before, image);
    lemma_pending_stays(asked, before, source);
    law_step_keeps_wf(waiting, Step::Ready(image));
    lemma_pending_stays(begun, during, source);
    law_reports_add_up(begun, image, ImageDescriptionBuilder::blank(), source, during);
}

/// The first description of an output that is tracked cannot be completed, because it was never
/// pending: unless the output changes, is tracked anew or is released in the meantime, the end of
/// the report on it has no outcome.
pub proof fn law_first_output_report_has_no_outcome(
    model: ColorModel,
    output: OutputId,
    before: Seq<Step>,
    during: Seq<Step>,
)
    requires
        model.wf(),
        model.allows(Step::TrackOutput(output)),
        ({
            let image = (model.fresh + 1) as u64;
            let source = ImageDescriptionSource::Output(output);
            let asked = model.track_output(output);
            let begun = asked.after_all(before).after(Step::Ready(image));
            &&& asked.allows_all(before)
            &&& asked.all_leave_pending(before, source)
            &&& !before.contains(Step::Ready(image))
            &&& begun.allows_all(during)
            &&& begun.all_leave_pending(during, source)
            &&& !during.contains(Step::Info(image, ImageDescriptionInfoEvent::Done))
            &&& ImageDescriptionBuilder::blank().with_all(reported(image, during)).complete()
        }),
    ensures
        ({
            let image = (model.fresh + 1) as u64;
            let waiting = model.track_output(output).after_all(before);
            let ended = waiting.after(Step::Ready(image)).after_all(during);
            &&& waiting.allows(Step::Ready(image))
            &&& ended.info_fault(image, ImageDescriptionInfoEvent::Done) == Some(
                Fault::OutputNotPending,
            )
        }),
{
    let image = (model.fresh + 1) as u64;
    let source = ImageDescriptionSource::Output(output);
    let asked = model.track_output(output);
    let waiting = asked.after_all(before);
    let begun = waiting.after(Step::Ready(image));
    law_step_keeps_wf(model, Step::TrackOutput(output));
    lemma_unready_waits(asked, before, image);
    lemma_pending_stays(asked, before, source);
    law_step_keeps_wf(waiting, Step::Ready(image));
    lemma_pending_stays(begun, during, source);
    law_reports_add_up(begun, image, ImageDescriptionBuilder::blank(), source, during);
}

/// When a description that was reported is written for a surface, what the report said last of
/// each of its parts is among what is sent.
pub proof fn law_reported_description_is_sent(
    model: ColorModel,
    surface: SurfaceId,
    render_intent: RenderIntent,
    events: Seq<ImageDescriptionInfoEvent>,
    event: ImageDescriptionInfoEvent,
    part: Part,
)
    requires
        ImageDescriptionBuilder::blank().with_all(events).complete(),
        last_about(events, part) == Some(event),
    ensures
        event.echo() matches Some(parameter) && model.set_surface_description_effects(
            surface,
            ImageDescriptionBuilder::blank().with_all(events).built(),
            render_intent,
        ).contains(Effect::SetParameter { creator: model.fresh, parameter }),
{
    let description = ImageDescriptionBuilder::blank().with_all(events).built();
    law_report_is_written_back(events, event, part);
    let parameter = event.echo()->0;
    let i = choose|i: int|
        0 <= i < description.parameters().len() && description.parameters()[i] == parameter;
    let sent = Effect::SetParameter { creator: model.fresh, parameter };
    assert(parameter_effects(model.fresh, description)[i] == sent);
    assert(model.set_surface_description_effects(surface, description, render_intent)[i + 1]
        == sent);
}

/// A report of custom primaries, a power curve and luminances that is written for a surface as it
/// was reported goes back to the compositor in the numbers that it came in, but for one unit: each
/// coordinate may come out one nearer to zero, and the exponent and the darkest luminance one
/// less. None is lost of a coordinate in whole sixty-fourths and of the other two in whole
/// sixteenths. The call needs nothing but names for what it creates.
pub proof fn law_reported_numbers_go_back(
    model: ColorModel,
    surface: SurfaceId,
    render_intent: RenderIntent,
    events: Seq<ImageDescriptionInfoEvent>,
    wire: Chromaticities,
    eexp: u32,
    min_lum: u32,
    max_lum: u32,
    reference_lum: u32,
)
    requires
        last_about(events, Part::Primaries) == Some(
            ImageDescriptionInfoEvent::Primaries { chromaticities: wire },
        ),
        last_about(events, Part::Eotf) == Some(ImageDescriptionInfoEvent::TfPower { eexp }),
        last_about(events, Part::Luminances) == Some(
            ImageDescriptionInfoEvent::Luminances { min_lum, max_lum, reference_lum },
        ),
    ensures
        ({
            let description = ImageDescriptionBuilder::blank().with_all(events).built();
            let sent = model.set_surface_description_effects(surface, description, render_intent);
            let creator = model.fresh;
            let back = echoed_chromaticities(wire);
            let power = echoed(eexp, EXPONENT_SCALE);
            let darkest = echoed(min_lum, LUMA_SCALE);
            &&& model.has_room(2 + model.to_manage(surface)) ==> model.allows(
                Step::SetDescription(surface, description, render_intent),
            )
            &&& sent.len() > 3
            &&& sent[1] == (Effect::SetParameter {
                creator,
                parameter: Parameter::Primaries { chromaticities: back },
            })
            &&& near_zero(back.r_x, wire.r_x) && near_zero(back.r_y, wire.r_y)
            &&& near_zero(back.g_x, wire.g_x) && near_zero(back.g_y, wire.g_y)
            &&& near_zero(back.b_x, wire.b_x) && near_zero(back.b_y, wire.b_y)
            &&& near_zero(back.w_x, wire.w_x) && near_zero(back.w_y, wire.w_y)
            &&& sent[2] == (Effect::SetParameter {
                creator,
                parameter: Parameter::TfPower { eexp: power },
            })
            &&& power <= eexp <= power + 1 && (eexp % 625 == 0 ==> power == eexp)
            &&& sent[3] == (Effect::SetParameter {
                creator,
                parameter: Parameter::Luminances { min_lum: darkest, max_lum, reference_lum },
            })
            &&& darkest <= min_lum <= darkest + 1 && (min_lum % 625 == 0 ==> darkest == min_lum)
        }),
{
    let builder = ImageDescriptionBuilder::blank().with_all(events);
    lemma_three_parts(events, wire, eexp, min_lum, max_lum, reference_lum);
    law_echo_is_near(min_lum, wire.r_x);
    law_echo_is_near(eexp, wire.r_y);
    law_echo_is_near(0, wire.g_x);
    law_echo_is_near(0, wire.g_y);
    law_echo_is_near(0, wire.b_x);
    law_echo_is_near(0, wire.b_y);
    law_echo_is_near(0, wire.w_x);
    law_echo_is_near(0, wire.w_y);
    let sent = parameter_effects(model.fresh, builder.built());
    let all = model.set_surface_description_effects(surface, builder.built(), render_intent);
    assert(all[1] == sent[0] && all[2] == sent[1] && all[3] == sent[2]);
}

/// A surface that the program is told of can take on the description that it is told of at once,
/// and is already described by it.
pub proof fn law_update_can_be_taken_on(
    model: ColorModel,
    image: ObjectId,
    event: ImageDescriptionInfoEvent,
    update: ObjectId,
    surface: SurfaceId,
    description: ImageDescriptionInfo,
    render_intent: RenderIntent,
)
    requires
        model.wf(),
        model.allows(Step::Info(image, event)),
        model.info_event_effects(image, event).contains(
            Effect::SurfaceUpdate { image: update, surface, description },
        ),
    ensures
        ({
            let updated = model.info_event(image, event);
            &&& updated.allows(Step::SetDescriptionProxy(surface, update, render_intent))
            &&& updated.with_surface_info(surface, update) == updated
        }),
{
    let updated = model.info_event(image, event);
    law_step_keeps_wf(model, Step::Info(image, event));
    assert(updated.surfaces.contains_key(surface));
    assert(updated.surface_wf(surface));
    assert(updated.with_surface_info(surface, update).surfaces =~= updated.surfaces);
}

/// What is not being reported on ignores reports, and what has become ready ignores becoming
/// ready again.
pub proof fn law_late_events_change_nothing(
    model: ColorModel,
    image: ObjectId,
    event: ImageDescriptionInfoEvent,
)
    ensures
        !(model.images[image] is Building) ==> model.info_event(image, event) == model
            && model.info_event_effects(image, event) == Seq::<Effect>::empty(),
        !(model.images[image] is NotReady) ==> model.image_ready(image) == model
            && model.image_ready_effects(image) == Seq::<Effect>::empty(),
{
}

/// A released surface has no description and a released output is not tracked; the others keep
/// theirs.
pub proof fn law_release_is_local(model: ColorModel, surface: SurfaceId, output: OutputId)
    ensures
        model.release_surface(surface).surface_description(surface) is None,
        model.release_surface(surface).surface_description_ready(surface),
        model.release_surface(surface).outputs == model.outputs,
        forall|other: SurfaceId|
            other != surface ==> #[trigger] model.release_surface(surface).surface_description(
                other,
            ) == model.surface_description(other),
        model.release_output(output).output_fault(output) == Some(Fault::UntrackedOutput),
        model.release_output(output).surfaces == model.surfaces,
        forall|other: OutputId|
            other != output ==> #[trigger] model.release_output(output).output_fault(other)
                == model.output_fault(other),
{
}

/// Releasing undoes tracking: of a surface or an output that was not followed before, nothing
/// is left but the objects that were created.
pub proof fn law_release_undoes_tracking(model: ColorModel, surface: SurfaceId, output: OutputId)
    ensures
        !model.surfaces.contains_key(surface) ==> model.track_surface(surface).release_surface(
            surface,
        ).surfaces == model.surfaces,
        !model.outputs.contains_key(output) ==> model.track_output(output).release_output(
            output,
        ).outputs == model.outputs,
{
    if !model.surfaces.contains_key(surface) {
        assert(model.track_surface(surface).release_surface(surface).surfaces =~= model.surfaces);
    }
    if !model.outputs.contains_key(output) {
        assert(model.track_output(output).release_output(output).outputs =~= model.outputs);
    }
}

/// The features that the operations announce, in order.
pub open spec fn announced_features(steps: Seq<Step>) -> Seq<Feature>
    decreases steps.len(),
{
    if steps.len() == 0 {
        seq![]
    } else {
        let earlier = announced_features(steps.drop_last());
        match steps.last() {
            Step::Manager(ColorManagerEvent::SupportedFeature { feature }) => earlier.push(feature),
            _ => earlier,
        }
    }
}

/// The named primaries that the operations announce, in order.
pub open spec fn announced_primaries(steps: Seq<Step>) -> Seq<NamedPrimaries>
    decreases steps.len(),
{
    if steps.len() == 0 {
        seq![]
    } else {
        let earlier = announced_primaries(steps.drop_last());
        match steps.last() {
            Step::Manager(ColorManagerEvent::SupportedPrimariesNamed { primaries }) =>
                earlier.push(primaries),
            _ => earlier,
        }
    }
}

/// The render intents that the operations announce, in order.
pub open spec fn announced_idents(steps: Seq<Step>) -> Seq<RenderIntent>
    decreases steps.len(),
{
    if steps.len() == 0 {
        seq![]
    } else {
        let earlier = announced_idents(steps.drop_last());
        match steps.last() {
            Step::Manager(ColorManagerEvent::SupportedIntent { render_intent }) => earlier.push(
                render_intent,
            ),
            _ => earlier,
        }
    }
}

/// The named transfer functions that the operations announce, in order.
pub open spec fn announced_tfs(steps: Seq<Step>) -> Seq<NamedEotf>
    decreases steps.len(),
{
    if steps.len() == 0 {
        seq![]
    } else {
        let earlier = announced_tfs(steps.drop_last());
        match steps.last() {
            Step::Manager(ColorManagerEvent::SupportedTfNamed { tf }) => earlier.push(tf),
            _ => earlier,
        }
    }
}

/// What the compositor announces is listed, all of it, in order, and nothing else is: after any
/// history each list is what it was before and then what was announced for it.
pub proof fn law_announced_values_are_listed(model: ColorModel, steps: Seq<Step>)
    ensures
        model.after_all(steps).supported_features == model.supported_features
            + announced_features(steps),
        model.after_all(steps).supported_primaries == model.supported_primaries
            + announced_primaries(steps),
        model.after_all(steps).supported_idents == model.supported_idents + announced_idents(
            steps,
        ),
        model.after_all(steps).supported_tfs == model.supported_tfs + announced_tfs(steps),
    decreases steps.len(),
{
    if steps.len() > 0 {
        law_announced_values_are_listed(model, steps.drop_last());
    }
}

} // verus!
