//! The requests of the color state as the compositor sees them, and that they make sense to it.
use vstd::prelude::*;

use crate::color_laws::{law_history_keeps_wf, Step};
use crate::color_model::{
    parameter_effects, ColorModel, ImageDescriptionInner, ImageDescriptionSource,
};
use crate::description::{ImageDescriptionInfo, RenderIntent};
use crate::effect::{Effect, ObjectId, OutputId, SurfaceId};
use crate::events::ImageDescriptionInfoEvent;
use crate::parameters::Parameter;

verus! {

/// Where an image description comes from.
pub enum Origin {
    /// It was asked of the color management object of this output.
    Output(OutputId),
    /// It was asked of a feedback object of this surface.
    Surface(SurfaceId),
    /// It was made from these parameters.
    Parameters(Seq<Parameter>),
}

/// What the compositor knows of the objects that the requests so far have created.
#[verifier::ext_equal]
pub struct Wire {
    /// The color management objects of outputs.
    pub outputs: Map<ObjectId, OutputId>,
    /// The color management objects of surfaces.
    pub surfaces: Map<ObjectId, SurfaceId>,
    pub feedbacks: Map<ObjectId, SurfaceId>,
    /// The creators, and the parameters set on each so far.
    pub creators: Map<ObjectId, Seq<Parameter>>,
    pub images: Map<ObjectId, Origin>,
}

impl Wire {
    /// Nothing has been created.
    pub open spec fn initial() -> Self {
        Wire {
            outputs: Map::empty(),
            surfaces: Map::empty(),
            feedbacks: Map::empty(),
            creators: Map::empty(),
            images: Map::empty(),
        }
    }

    /// Whether `id` names an object.
    pub open spec fn knows(self, id: ObjectId) -> bool {
        ||| self.outputs.contains_key(id)
        ||| self.surfaces.contains_key(id)
        ||| self.feedbacks.contains_key(id)
        ||| self.creators.contains_key(id)
        ||| self.images.contains_key(id)
    }

    /// Whether the request is made of objects of the right kind that were created before, gives
    /// what it creates a name that none of them has, and attaches to it what belongs there. What
    /// the program is told of is an image description that exists.
    pub open spec fn accepts(self, effect: Effect) -> bool {
        match effect {
            Effect::GetOutput { output, manager, data } => !self.knows(manager) && data.output
                == output,
            Effect::GetImageDescription { manager, image, data } => self.outputs.contains_key(
                manager,
            ) && !self.knows(image) && data.image == image,
            Effect::GetSurface { manager, .. } => !self.knows(manager),
            Effect::GetSurfaceFeedback { surface, feedback, data } => !self.knows(feedback)
                && data.surface == surface,
            Effect::GetPreferredParametric { feedback, image, data } =>
                self.feedbacks.contains_key(feedback) && !self.knows(image) && data.image == image,
            Effect::CreateParametricCreator { creator } => !self.knows(creator),
            Effect::SetParameter { creator, .. } => self.creators.contains_key(creator),
            Effect::Create { creator, image, data } => self.creators.contains_key(creator)
                && !self.knows(image) && data.image == image,
            Effect::SetImageDescription { manager, image, .. } => self.surfaces.contains_key(
                manager,
            ) && self.images.contains_key(image),
            Effect::CommitSurface { .. } => true,
            Effect::GetInformation { image, data } => self.images.contains_key(image) && data.image
                == image,
            Effect::CompositorFeatures => true,
            Effect::OutputUpdate { image, .. } => self.images.contains_key(image),
            Effect::SurfaceUpdate { image, .. } => self.images.contains_key(image),
        }
    }

    /// What the compositor knows after the request.
    pub open spec fn after(self, effect: Effect) -> Self {
        match effect {
            Effect::GetOutput { output, manager, .. } => Wire {
                outputs: self.outputs.insert(manager, output),
                ..self
            },
            Effect::GetImageDescription { manager, image, .. } => Wire {
                images: self.images.insert(image, Origin::Output(self.outputs[manager])),
                ..self
            },
            Effect::GetSurface { surface, manager } => Wire {
                surfaces: self.surfaces.insert(manager, surface),
                ..self
            },
            Effect::GetSurfaceFeedback { surface, feedback, .. } => Wire {
                feedbacks: self.feedbacks.insert(feedback, surface),
                ..self
            },
            Effect::GetPreferredParametric { feedback, image, .. } => Wire {
                images: self.images.insert(image, Origin::Surface(self.feedbacks[feedback])),
                ..self
            },
            Effect::CreateParametricCreator { creator } => Wire {
                creators: self.creators.insert(creator, seq![]),
                ..self
            },
            Effect::SetParameter { creator, parameter } => Wire {
                creators: self.creators.insert(creator, self.creators[creator].push(parameter)),
                ..self
            },
            Effect::Create { creator, image, .. } => Wire {
                creators: self.creators.remove(creator),
                images: self.images.insert(image, Origin::Parameters(self.creators[creator])),
                ..self
            },
            _ => self,
        }
    }

    /// Whether the compositor accepts all of the requests, the first one first.
    pub open spec fn accepts_all(self, effects: Seq<Effect>) -> bool
        decreases effects.len(),
    {
        effects.len() == 0 || {
            &&& self.accepts_all(effects.drop_last())
            &&& self.after_all(effects.drop_last()).accepts(effects.last())
        }
    }

    /// What the compositor knows after the requests, the first one first.
    pub open spec fn after_all(self, effects: Seq<Effect>) -> Self
        decreases effects.len(),
    {
        if effects.len() == 0 {
            self
        } else {
            self.after_all(effects.drop_last()).after(effects.last())
        }
    }

    /// What `image` describes is what the compositor takes it for.
    pub open spec fn backs(self, image: ObjectId, inner: ImageDescriptionInner) -> bool {
        self.images.contains_key(image) && match inner {
            ImageDescriptionInner::NotReady { source, info: None } => self.images[image]
                == origin_of(source),
            ImageDescriptionInner::NotReady { info: Some((description, _)), .. } =>
                self.images[image] == Origin::Parameters(description.parameters()),
            ImageDescriptionInner::Building { source, .. } => self.images[image] == origin_of(
                source,
            ),
            ImageDescriptionInner::Defined(_) => true,
        }
    }

    /// What a color state keeps is what the compositor knows: the object of each output is that
    /// output's, the objects of each surface are that surface's, and each image description that
    /// is on its way was asked of what it describes, or made from what was written.
    pub open spec fn agrees(self, model: ColorModel) -> bool {
        &&& forall|id: ObjectId| #[trigger] self.knows(id) ==> id < model.fresh
        &&& forall|output: OutputId| #[trigger]
            model.outputs.contains_key(output) ==> self.owns(model, output)
        &&& forall|surface: SurfaceId| #[trigger]
            model.surfaces.contains_key(surface) ==> self.serves(model, surface)
        &&& forall|image: ObjectId| #[trigger]
            model.images.contains_key(image) ==> self.backs(image, model.images[image])
    }

    /// The object of the output is its own.
    pub open spec fn owns(self, model: ColorModel, output: OutputId) -> bool {
        let manager = model.outputs[output].manager;
        self.outputs.contains_key(manager) && self.outputs[manager] == output
    }

    /// The objects of the surface are its own.
    pub open spec fn serves(self, model: ColorModel, surface: SurfaceId) -> bool {
        let kept = model.surfaces[surface];
        &&& self.surfaces.contains_key(kept.manager) && self.surfaces[kept.manager] == surface
        &&& kept.feedback matches Some(feedback) ==> self.feedbacks.contains_key(feedback)
            && self.feedbacks[feedback] == surface
    }
}

/// Where a description of `source` is asked for.
pub open spec fn origin_of(source: ImageDescriptionSource) -> Origin {
    match source {
        ImageDescriptionSource::Output(output) => Origin::Output(output),
        ImageDescriptionSource::Surface(surface) => Origin::Surface(surface),
    }
}

/// Whether the compositor accepts what the operation asks for, and agrees with its outcome.
spec fn makes_sense(model: ColorModel, wire: Wire, step: Step) -> bool {
    &&& wire.accepts_all(model.effects(step))
    &&& wire.after_all(model.effects(step)).agrees(model.after(step))
}

/// A color state and the compositor still agree if what the compositor knew it still knows, what it
/// learned has new names, and what the color state keeps is what it kept or what was just created
/// for it.
proof fn lemma_still_agrees(model: ColorModel, wire: Wire, after: ColorModel, last: Wire)
    requires
        wire.agrees(model),
        model.fresh <= after.fresh,
        wire.outputs.submap_of(last.outputs),
        wire.surfaces.submap_of(last.surfaces),
        wire.feedbacks.submap_of(last.feedbacks),
        wire.images.submap_of(last.images),
        forall|id: ObjectId| #[trigger] last.knows(id) ==> wire.knows(id) || id < after.fresh,
        forall|output: OutputId| #[trigger]
            after.outputs.contains_key(output) ==> (model.outputs.contains_key(output)
                && after.outputs[output].manager == model.outputs[output].manager) || last.owns(
                after,
                output,
            ),
        forall|surface: SurfaceId| #[trigger]
            after.surfaces.contains_key(surface) ==> (model.surfaces.contains_key(surface)
                && after.surfaces[surface].manager == model.surfaces[surface].manager
                && after.surfaces[surface].feedback == model.surfaces[surface].feedback)
                || last.serves(after, surface),
        forall|image: ObjectId| #[trigger]
            after.images.contains_key(image) ==> (model.images.contains_key(image)
                && after.images[image] == model.images[image]) || last.backs(
                image,
                after.images[image],
            ),
    ensures
        last.agrees(after),
{
    assert forall|output: OutputId| #[trigger] after.outputs.contains_key(output) implies last.owns(
        after,
        output,
    ) by {
        assert(model.outputs.contains_key(output) ==> wire.owns(model, output));
    }
    assert forall|surface: SurfaceId| #[trigger]
        after.surfaces.contains_key(surface) implies last.serves(after, surface) by {
        assert(model.surfaces.contains_key(surface) ==> wire.serves(model, surface));
    }
    assert forall|image: ObjectId| #[trigger] after.images.contains_key(image) implies last.backs(
        image,
        after.images[image],
    ) by {
        if model.images.contains_key(image) {
            assert(wire.backs(image, model.images[image]));
            assert(wire.images.dom().contains(image) ==> last.images.dom().contains(image));
        }
    }
}

proof fn lemma_one_more(wire: Wire, effects: Seq<Effect>, effect: Effect)
    ensures
        wire.accepts_all(effects.push(effect)) <==> wire.accepts_all(effects)
            && wire.after_all(effects).accepts(effect),
        wire.after_all(effects.push(effect)) == wire.after_all(effects).after(effect),
{
    assert(effects.push(effect).drop_last() =~= effects);
}

proof fn lemma_one(wire: Wire, a: Effect)
    ensures
        wire.accepts_all(seq![a]) <==> wire.accepts(a),
        wire.after_all(seq![a]) == wire.after(a),
{
    lemma_one_more(wire, seq![], a);
}

proof fn lemma_two(wire: Wire, a: Effect, b: Effect)
    ensures
        wire.accepts_all(seq![a, b]) <==> wire.accepts(a) && wire.after(a).accepts(b),
        wire.after_all(seq![a, b]) == wire.after(a).after(b),
{
    lemma_one(wire, a);
    lemma_one_more(wire, seq![a], b);
    assert(seq![a].push(b) =~= seq![a, b]);
}

proof fn lemma_three(wire: Wire, a: Effect, b: Effect, c: Effect)
    ensures
        wire.accepts_all(seq![a, b, c]) <==> wire.accepts(a) && wire.after(a).accepts(b)
            && wire.after(a).after(b).accepts(c),
        wire.after_all(seq![a, b, c]) == wire.after(a).after(b).after(c),
{
    lemma_two(wire, a, b);
    lemma_one_more(wire, seq![a, b], c);
    assert(seq![a, b].push(c) =~= seq![a, b, c]);
}

/// Setting parameters on a creator leaves them set on it, in order.
proof fn lemma_parameters_set(
    wire: Wire,
    creator: ObjectId,
    description: ImageDescriptionInfo,
    count: int,
)
    requires
        !wire.knows(creator),
        0 <= count <= description.parameters().len(),
    ensures
        ({
            let first = Effect::CreateParametricCreator { creator };
            let sent = seq![first] + parameter_effects(creator, description).take(count);
            &&& wire.accepts_all(sent)
            &&& wire.after_all(sent) == (Wire {
                creators: wire.creators.insert(creator, description.parameters().take(count)),
                ..wire
            })
        }),
    decreases count,
{
    let first = Effect::CreateParametricCreator { creator };
    let all = parameter_effects(creator, description);
    let parameters = description.parameters();
    if count == 0 {
        assert(seq![first] + all.take(0) =~= seq![first]);
        assert(parameters.take(0) =~= seq![]);
        lemma_one(wire, first);
    } else {
        lemma_parameters_set(wire, creator, description, count - 1);
        let sent = seq![first] + all.take(count - 1);
        assert((seq![first] + all.take(count)) =~= sent.push(all[count - 1]));
        lemma_one_more(wire, sent, all[count - 1]);
        assert(parameters.take(count) =~= parameters.take(count - 1).push(parameters[count - 1]));
        assert(wire.creators.insert(creator, parameters.take(count)) =~= wire.creators.insert(
            creator,
            parameters.take(count - 1),
        ).insert(creator, parameters.take(count)));
    }
}

proof fn lemma_written(
    model: ColorModel,
    wire: Wire,
    surface: SurfaceId,
    description: ImageDescriptionInfo,
    render_intent: RenderIntent,
)
    requires
        model.wf(),
        wire.agrees(model),
        model.allows(Step::SetDescription(surface, description, render_intent)),
    ensures
        ({
            let sent = model.set_surface_description_effects(surface, description, render_intent);
            &&& wire.accepts_all(sent)
            &&& wire.after_all(sent).agrees(
                model.set_surface_description(surface, description, render_intent),
            )
        }),
{
    let creator = model.fresh;
    let image = (model.fresh + 1) as u64;
    let count = description.parameters().len() as int;
    let first = Effect::CreateParametricCreator { creator };
    let all = parameter_effects(creator, description);
    let sent = model.set_surface_description_effects(surface, description, render_intent);
    let create = sent[count + 1];
    lemma_unused(model, wire, creator);
    lemma_unused(model, wire, image);
    lemma_parameters_set(wire, creator, description, count);
    assert(all.take(count) =~= all);
    assert(description.parameters().take(count) =~= description.parameters());
    let set = seq![first] + all;
    let made = set.push(create);
    lemma_one_more(wire, set, create);
    let after = model.set_surface_description(surface, description, render_intent);
    let known = wire.after_all(made);
    assert(known.images == wire.images.insert(
        image,
        Origin::Parameters(description.parameters()),
    ));
    assert(known.creators =~= wire.creators.remove(creator));
    if model.surfaces.contains_key(surface) {
        assert(sent =~= made);
    } else {
        let manager = (model.fresh + 2) as u64;
        let manage = Effect::GetSurface { surface, manager };
        assert(sent =~= made.push(manage));
        lemma_unused(model, wire, manager);
        lemma_one_more(wire, made, manage);
    }
    let last = wire.after_all(sent);
    lemma_unused(model, wire, (model.fresh + 2) as u64);
    lemma_still_agrees(model, wire, after, last);
}

/// A name that has not been given out is none that the compositor knows.
proof fn lemma_unused(model: ColorModel, wire: Wire, id: ObjectId)
    requires
        wire.agrees(model),
        model.fresh <= id,
    ensures
        !wire.knows(id),
{
}

proof fn lemma_output_tracked(model: ColorModel, wire: Wire, output: OutputId)
    requires
        model.wf(),
        wire.agrees(model),
        model.allows(Step::TrackOutput(output)),
    ensures
        makes_sense(model, wire, Step::TrackOutput(output)),
{
    let step = Step::TrackOutput(output);
    let effects = model.effects(step);
    let after = model.after(step);
    lemma_unused(model, wire, model.fresh);
    lemma_unused(model, wire, (model.fresh + 1) as u64);
    lemma_two(wire, effects[0], effects[1]);
    assert(effects =~= seq![effects[0], effects[1]]);
    let last = wire.after_all(effects);
    lemma_still_agrees(model, wire, after, last);
}

proof fn lemma_output_changed(model: ColorModel, wire: Wire, output: OutputId)
    requires
        model.wf(),
        wire.agrees(model),
        model.allows(Step::OutputChanged(output)),
    ensures
        makes_sense(model, wire, Step::OutputChanged(output)),
{
    let step = Step::OutputChanged(output);
    let effects = model.effects(step);
    let after = model.after(step);
    lemma_unused(model, wire, model.fresh);
    assert(wire.owns(model, output));
    lemma_one(wire, effects[0]);
    assert(effects =~= seq![effects[0]]);
    let last = wire.after_all(effects);
    lemma_still_agrees(model, wire, after, last);
}

proof fn lemma_surface_tracked(model: ColorModel, wire: Wire, surface: SurfaceId)
    requires
        model.wf(),
        wire.agrees(model),
        model.allows(Step::TrackSurface(surface)),
    ensures
        makes_sense(model, wire, Step::TrackSurface(surface)),
{
    let step = Step::TrackSurface(surface);
    let effects = model.effects(step);
    let after = model.after(step);
    lemma_unused(model, wire, model.fresh);
    lemma_unused(model, wire, (model.fresh + 1) as u64);
    if model.surfaces.contains_key(surface) {
        lemma_two(wire, effects[0], effects[1]);
        assert(effects =~= seq![effects[0], effects[1]]);
    } else {
        lemma_unused(model, wire, (model.fresh + 2) as u64);
        lemma_three(wire, effects[0], effects[1], effects[2]);
        assert(effects =~= seq![effects[0], effects[1], effects[2]]);
    }
    let last = wire.after_all(effects);
    lemma_still_agrees(model, wire, after, last);
}

proof fn lemma_surface_changed(model: ColorModel, wire: Wire, surface: SurfaceId)
    requires
        model.wf(),
        wire.agrees(model),
        model.allows(Step::PreferredChanged(surface)),
    ensures
        makes_sense(model, wire, Step::PreferredChanged(surface)),
{
    let step = Step::PreferredChanged(surface);
    let effects = model.effects(step);
    let after = model.after(step);
    lemma_unused(model, wire, model.fresh);
    assert(wire.serves(model, surface));
    lemma_one(wire, effects[0]);
    assert(effects =~= seq![effects[0]]);
    let last = wire.after_all(effects);
    lemma_still_agrees(model, wire, after, last);
}

proof fn lemma_description_chosen(
    model: ColorModel,
    wire: Wire,
    surface: SurfaceId,
    image: ObjectId,
    render_intent: RenderIntent,
)
    requires
        model.wf(),
        wire.agrees(model),
        model.allows(Step::SetDescriptionProxy(surface, image, render_intent)),
    ensures
        makes_sense(model, wire, Step::SetDescriptionProxy(surface, image, render_intent)),
{
    let step = Step::SetDescriptionProxy(surface, image, render_intent);
    let effects = model.effects(step);
    let after = model.after(step);
    assert(wire.backs(image, model.images[image]));
    if model.surfaces.contains_key(surface) {
        assert(wire.serves(model, surface));
        lemma_two(wire, effects[0], effects[1]);
        assert(effects =~= seq![effects[0], effects[1]]);
    } else {
        lemma_unused(model, wire, model.fresh);
        lemma_three(wire, effects[0], effects[1], effects[2]);
        assert(effects =~= seq![effects[0], effects[1], effects[2]]);
    }
    let last = wire.after_all(effects);
    lemma_still_agrees(model, wire, after, last);
}

proof fn lemma_ready(model: ColorModel, wire: Wire, image: ObjectId)
    requires
        model.wf(),
        wire.agrees(model),
        model.allows(Step::Ready(image)),
    ensures
        makes_sense(model, wire, Step::Ready(image)),
{
    let step = Step::Ready(image);
    let effects = model.effects(step);
    let after = model.after(step);
    assert(wire.backs(image, model.images[image]));
    assert(model.image_wf(image));
    match model.images[image] {
        ImageDescriptionInner::NotReady { info: None, .. } => {
            lemma_one(wire, effects[0]);
            assert(effects =~= seq![effects[0]]);
        },
        ImageDescriptionInner::NotReady {
            source: ImageDescriptionSource::Surface(surface),
            ..
        } => {
            assert(wire.serves(model, surface));
            lemma_two(wire, effects[0], effects[1]);
            assert(effects =~= seq![effects[0], effects[1]]);
        },
        _ => {},
    }
    let last = wire.after_all(effects);
    lemma_still_agrees(model, wire, after, last);
}

proof fn lemma_info(
    model: ColorModel,
    wire: Wire,
    image: ObjectId,
    event: ImageDescriptionInfoEvent,
)
    requires
        model.wf(),
        wire.agrees(model),
        model.allows(Step::Info(image, event)),
    ensures
        makes_sense(model, wire, Step::Info(image, event)),
{
    let step = Step::Info(image, event);
    let effects = model.effects(step);
    let after = model.after(step);
    assert(wire.backs(image, model.images[image]));
    if effects.len() == 1 {
        lemma_pending_known(model, wire, image);
        lemma_one(wire, effects[0]);
        assert(effects =~= seq![effects[0]]);
    }
    let last = wire.after_all(effects);
    lemma_still_agrees(model, wire, after, last);
}

proof fn lemma_others(model: ColorModel, wire: Wire, step: Step)
    requires
        model.wf(),
        wire.agrees(model),
        model.allows(step),
        step is ReleaseOutput || step is ReleaseSurface || step is Manager,
    ensures
        makes_sense(model, wire, step),
{
    let effects = model.effects(step);
    let after = model.after(step);
    if effects.len() == 1 {
        lemma_one(wire, effects[0]);
        assert(effects =~= seq![effects[0]]);
    }
    let last = wire.after_all(effects);
    lemma_still_agrees(model, wire, after, last);
}

/// Whatever is done with a color state, each request is one that the compositor can make sense of,
/// and afterwards the color state and the compositor still agree.
pub proof fn law_requests_make_sense(model: ColorModel, wire: Wire, step: Step)
    requires
        model.wf(),
        wire.agrees(model),
        model.allows(step),
    ensures
        wire.accepts_all(model.effects(step)),
        wire.after_all(model.effects(step)).agrees(model.after(step)),
{
    match step {
        Step::TrackOutput(output) => lemma_output_tracked(model, wire, output),
        Step::OutputChanged(output) => lemma_output_changed(model, wire, output),
        Step::TrackSurface(surface) => lemma_surface_tracked(model, wire, surface),
        Step::PreferredChanged(surface) => lemma_surface_changed(model, wire, surface),
        Step::SetDescriptionProxy(surface, image, render_intent) => lemma_description_chosen(
            model,
            wire,
            surface,
            image,
            render_intent,
        ),
        Step::SetDescription(surface, description, render_intent) => lemma_written(
            model,
            wire,
            surface,
            description,
            render_intent,
        ),
        Step::Ready(image) => lemma_ready(model, wire, image),
        Step::Info(image, event) => lemma_info(model, wire, image, event),
        _ => lemma_others(model, wire, step),
    }
}

/// What is pending for what a report is about is known to the compositor.
proof fn lemma_pending_known(model: ColorModel, wire: Wire, image: ObjectId)
    requires
        model.wf(),
        wire.agrees(model),
        model.images.contains_key(image),
    ensures
        match model.images[image] {
            ImageDescriptionInner::Building {
                source: ImageDescriptionSource::Output(output),
                ..
            } => model.outputs.contains_key(output) ==> (
            model.outputs[output].pending_info matches Some(pending)
                ==> wire.images.contains_key(pending)),
            ImageDescriptionInner::Building {
                source: ImageDescriptionSource::Surface(surface),
                ..
            } => model.surfaces.contains_key(surface) ==> (
            model.surfaces[surface].pending_info matches Some(pending)
                ==> wire.images.contains_key(pending)),
            _ => true,
        },
{
    if let ImageDescriptionInner::Building { source, .. } = model.images[image] {
        match source {
            ImageDescriptionSource::Output(output) => {
                if model.outputs.contains_key(output) {
                    assert(model.output_wf(output));
                    if let Some(pending) = model.outputs[output].pending_info {
                        assert(wire.backs(pending, model.images[pending]));
                    }
                }
            },
            ImageDescriptionSource::Surface(surface) => {
                if model.surfaces.contains_key(surface) {
                    assert(model.surface_wf(surface));
                    if let Some(pending) = model.surfaces[surface].pending_info {
                        assert(wire.backs(pending, model.images[pending]));
                    }
                }
            },
        }
    }
}

/// What the operations, the first one first, ask for, in order.
pub open spec fn all_effects(model: ColorModel, steps: Seq<Step>) -> Seq<Effect>
    decreases steps.len(),
{
    if steps.len() == 0 {
        seq![]
    } else {
        let init = steps.drop_last();
        all_effects(model, init) + model.after_all(init).effects(steps.last())
    }
}

/// Over every history of a new color state the compositor can make sense of every request: each is
/// made of the very objects that earlier requests created for the output or surface in question.
pub proof fn law_history_makes_sense(steps: Seq<Step>)
    requires
        ColorModel::initial().allows_all(steps),
    ensures
        ({
            let sent = all_effects(ColorModel::initial(), steps);
            &&& Wire::initial().accepts_all(sent)
            &&& Wire::initial().after_all(sent).agrees(ColorModel::initial().after_all(steps))
        }),
    decreases steps.len(),
{
    let start = ColorModel::initial();
    if steps.len() > 0 {
        let init = steps.drop_last();
        law_history_makes_sense(init);
        law_history_keeps_wf(start, init);
        let sent = all_effects(start, init);
        let wire = Wire::initial().after_all(sent);
        law_requests_make_sense(start.after_all(init), wire, steps.last());
        lemma_joined(Wire::initial(), sent, start.after_all(init).effects(steps.last()));
    }
}

/// After any history, what follows a change of a tracked output is asked of the object that a
/// request created for that very output, and what follows a change of a surface's preference of a
/// feedback object that a request created for that very surface. A description goes onto a surface
/// through the object that a request created for that very surface, both when it is chosen and
/// when one that was written for it becomes ready.
pub proof fn law_requests_reach_whom_they_are_for(steps: Seq<Step>, step: Step, i: int)
    requires
        ColorModel::initial().allows_all(steps),
        ColorModel::initial().after_all(steps).allows(step),
        0 <= i < ColorModel::initial().after_all(steps).effects(step).len(),
    ensures
        ({
            let model = ColorModel::initial().after_all(steps);
            let known = Wire::initial().after_all(all_effects(ColorModel::initial(), steps));
            match (step, model.effects(step)[i]) {
                (
                    Step::OutputChanged(output),
                    Effect::GetImageDescription { manager, .. },
                ) => known.outputs.contains_key(manager) && known.outputs[manager] == output,
                (
                    Step::PreferredChanged(surface),
                    Effect::GetPreferredParametric { feedback, .. },
                ) => known.feedbacks.contains_key(feedback) && known.feedbacks[feedback] == surface,
                (
                    Step::SetDescriptionProxy(surface, chosen, _),
                    Effect::SetImageDescription { manager, image, .. },
                ) => image == chosen && (model.surfaces.contains_key(surface)
                    ==> known.surfaces.contains_key(manager) && known.surfaces[manager] == surface),
                (Step::Ready(ready), Effect::SetImageDescription { manager, image, .. }) => {
                    &&& image == ready
                    &&& model.images[ready] matches ImageDescriptionInner::NotReady { source, .. }
                    &&& source matches ImageDescriptionSource::Surface(surface)
                    &&& known.surfaces.contains_key(manager) && known.surfaces[manager] == surface
                },
                _ => true,
            }
        }),
{
    let model = ColorModel::initial().after_all(steps);
    let known = Wire::initial().after_all(all_effects(ColorModel::initial(), steps));
    law_history_makes_sense(steps);
    match step {
        Step::OutputChanged(output) => assert(known.owns(model, output)),
        Step::PreferredChanged(surface) => assert(known.serves(model, surface)),
        Step::SetDescriptionProxy(surface, _, _) => assert(model.surfaces.contains_key(surface)
            ==> known.serves(model, surface)),
        Step::Ready(ready) => {
            if let ImageDescriptionInner::NotReady {
                source: ImageDescriptionSource::Surface(surface),
                ..
            } = model.images[ready] {
                assert(model.surfaces.contains_key(surface) ==> known.serves(model, surface));
            }
        },
        _ => {},
    }
}

proof fn lemma_joined(wire: Wire, first: Seq<Effect>, second: Seq<Effect>)
    ensures
        wire.accepts_all(first + second) <==> wire.accepts_all(first) && wire.after_all(
            first,
        ).accepts_all(second),
        wire.after_all(first + second) == wire.after_all(first).after_all(second),
    decreases second.len(),
{
    if second.len() == 0 {
        assert(first + second =~= first);
    } else {
        assert((first + second).drop_last() =~= first + second.drop_last());
        lemma_joined(wire, first, second.drop_last());
    }
}

} // verus!
