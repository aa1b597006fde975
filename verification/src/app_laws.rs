//! What holds of the swatch window, step by step and over histories of steps.
use vstd::prelude::*;

use crate::app_model::{
    color_effects, same_bits, window_intent, AppEffect, AppModel, BufferId, ParamsId,
    SETTLE_MILLIS,
};
use crate::color_laws::{law_step_keeps_wf, Step};
use crate::effect::{Effect, ObjectId, OutputId, SurfaceId};
use crate::pixel::Pixel;
use crate::spotread::{output_result, Tristimulus};

verus! {

/// An operation on the swatch window.
pub enum AppStep {
    Start,
    SetSwatch(u16, u16, u16),
    Enter(OutputId),
    Leave(OutputId),
    Frame,
    Closed,
    Key(char),
    Configure(u32, u32),
    Created(ParamsId, BufferId),
    Released(BufferId),
    /// The colorimeter wrote something.
    Meter(Seq<u8>),
    /// A surface takes on an image description.
    Update(ObjectId, SurfaceId),
    /// An operation on the color state of the window.
    Color(Step),
}

impl AppModel {
    /// Whether the operation has an outcome.
    pub open spec fn allows(self, step: AppStep) -> bool {
        match step {
            AppStep::Configure(width, height) => self.can_configure(width) || self.front.size == (
                width,
                height,
            ),
            AppStep::Update(image, surface) => self.can_update(image, surface),
            AppStep::Color(step) => self.color.allows(step),
            _ => true,
        }
    }

    /// The outcome of the operation.
    pub open spec fn after(self, step: AppStep) -> Self {
        match step {
            AppStep::Start => self.started(),
            AppStep::SetSwatch(r, g, b) => self.set_swatch(r, g, b),
            AppStep::Enter(output) => self.surface_enter(output),
            AppStep::Leave(output) => self.surface_leave(output),
            AppStep::Frame => self.frame(),
            AppStep::Closed => self.closed(),
            AppStep::Key(c) => self.key(c),
            AppStep::Configure(width, height) => self.configure(width, height),
            AppStep::Created(params, buffer) => self.created(params, buffer),
            AppStep::Released(buffer) => self.released(buffer),
            AppStep::Meter(output) => self.metered(output),
            AppStep::Update(image, surface) => self.surface_update(image, surface),
            AppStep::Color(step) => AppModel { color: self.color.after(step), ..self },
        }
    }

    /// What the operation asks for.
    pub open spec fn effects(self, step: AppStep) -> Seq<AppEffect> {
        match step {
            AppStep::Frame => self.frame_effects(),
            AppStep::Configure(width, height) => self.configure_effects(width, height),
            AppStep::Created(params, buffer) => self.created_effects(params, buffer),
            AppStep::Update(image, surface) => color_effects(
                self.surface_update_effects(image, surface),
            ),
            AppStep::Color(step) => color_effects(self.color.effects(step)),
            _ => seq![],
        }
    }

    /// Whether the operations, the first one first, all have an outcome.
    pub open spec fn allows_all(self, steps: Seq<AppStep>) -> bool
        decreases steps.len(),
    {
        steps.len() == 0 || {
            &&& self.allows_all(steps.drop_last())
            &&& self.after_all(steps.drop_last()).allows(steps.last())
        }
    }

    /// The outcome of the operations, the first one first.
    pub open spec fn after_all(self, steps: Seq<AppStep>) -> Self
        decreases steps.len(),
    {
        if steps.len() == 0 {
            self
        } else {
            self.after_all(steps.drop_last()).after(steps.last())
        }
    }

    /// How many measurements the operations ask for.
    pub open spec fn measurements(self, steps: Seq<AppStep>) -> nat
        decreases steps.len(),
    {
        if steps.len() == 0 {
            0
        } else {
            self.measurements(steps.drop_last()) + scheduled(
                self.after_all(steps.drop_last()).effects(steps.last()),
            )
        }
    }

    /// How many of the operations choose a color while another one has yet to be shown.
    pub open spec fn replaced(self, steps: Seq<AppStep>) -> nat
        decreases steps.len(),
    {
        if steps.len() == 0 {
            0
        } else {
            self.replaced(steps.drop_last()) + if steps.last() is SetSwatch {
                self.after_all(steps.drop_last()).unshown()
            } else {
                0
            }
        }
    }

    /// Whether none of the operations reports that the compositor created the buffer that is
    /// painted next.
    pub open spec fn front_not_created(self, steps: Seq<AppStep>) -> bool
        decreases steps.len(),
    {
        steps.len() == 0 || {
            &&& self.front_not_created(steps.drop_last())
            &&& steps.last() matches AppStep::Created(params, _) ==> params != self.after_all(
                steps.drop_last(),
            ).front.params
        }
    }

    /// The buffer with the given name is the compositor's `buffer`, and may be painted if
    /// `released`.
    pub open spec fn holds(self, params: ParamsId, buffer: BufferId, released: bool) -> bool {
        let slot = if self.front.params == params {
            self.front
        } else {
            self.back
        };
        slot.params == params && slot.wayland == Some(buffer) && slot.released == released
    }

    /// One if a color has yet to be shown, none otherwise.
    pub open spec fn unshown(self) -> nat {
        if self.swatch_updated {
            0
        } else {
            1
        }
    }
}

/// How many measurements are among the effects.
pub open spec fn scheduled(effects: Seq<AppEffect>) -> nat
    decreases effects.len(),
{
    if effects.len() == 0 {
        0
    } else {
        scheduled(effects.drop_last()) + if effects.last() is ScheduleMeasurement {
            1nat
        } else {
            0nat
        }
    }
}

/// How many of the operations choose a color.
pub open spec fn choices(steps: Seq<AppStep>) -> nat
    decreases steps.len(),
{
    if steps.len() == 0 {
        0
    } else {
        choices(steps.drop_last()) + if steps.last() is SetSwatch {
            1nat
        } else {
            0nat
        }
    }
}

/// Every history that has an outcome keeps the two buffers apart and of one size, and the color
/// state well-formed.
pub proof fn law_app_history_keeps_wf(model: AppModel, steps: Seq<AppStep>)
    requires
        model.wf(),
        model.allows_all(steps),
    ensures
        model.after_all(steps).wf(),
    decreases steps.len(),
{
    if steps.len() > 0 {
        let before = model.after_all(steps.drop_last());
        law_app_history_keeps_wf(model, steps.drop_last());
        match steps.last() {
            AppStep::Color(step) => law_step_keeps_wf(before.color, step),
            AppStep::Update(image, surface) => law_step_keeps_wf(
                before.color,
                Step::SetDescriptionProxy(surface, image, window_intent()),
            ),
            _ => {},
        }
    }
}

/// Whether a frame paints the buffer `params`.
pub open spec fn paints(model: AppModel, params: ParamsId) -> bool {
    exists|width: u32, height: u32, color: Pixel|
        #[trigger] model.frame_effects().contains(
            AppEffect::Paint { params, width, height, color },
        )
}

/// A frame paints nothing but a front buffer that the compositor does not hold, all of it, in the
/// color that was chosen last. After that, whatever happens, no frame paints that buffer before
/// the compositor has given it back or reported it created.
pub proof fn law_only_free_buffers_are_painted(
    model: AppModel,
    params: ParamsId,
    width: u32,
    height: u32,
    color: Pixel,
    between: Seq<AppStep>,
)
    requires
        model.wf(),
        model.frame_effects().contains(AppEffect::Paint { params, width, height, color }),
        model.frame().allows_all(between),
        forall|i: int|
            0 <= i < between.len() ==> !frees(
                #[trigger] between[i],
                params,
                model.front.wayland,
            ),
    ensures
        model.front.released,
        params == model.front.params,
        (width, height) == model.front.size,
        color == model.swatch_color,
        !paints(model.frame().after_all(between), params),
{
    lemma_taken_stays(model.frame(), params, model.front.wayland, between);
}

/// Whether the operation can make the buffer `params`, to the compositor `wayland`, free.
pub open spec fn frees(step: AppStep, params: ParamsId, wayland: Option<BufferId>) -> bool {
    match step {
        AppStep::Created(created, _) => created == params,
        AppStep::Released(buffer) => wayland == Some(buffer),
        _ => false,
    }
}

/// A buffer that may not be painted stays one as long as nothing frees it.
proof fn lemma_taken_stays(
    model: AppModel,
    params: ParamsId,
    wayland: Option<BufferId>,
    steps: Seq<AppStep>,
)
    requires
        model.allows_all(steps),
        params < model.next_params,
        model.front.params == params ==> !model.front.released && model.front.wayland == wayland,
        model.back.params == params ==> !model.back.released && model.back.wayland == wayland,
        forall|i: int| 0 <= i < steps.len() ==> !frees(#[trigger] steps[i], params, wayland),
    ensures
        ({
            let later = model.after_all(steps);
            &&& params < later.next_params
            &&& later.front.params == params ==> !later.front.released && later.front.wayland
                == wayland
            &&& later.back.params == params ==> !later.back.released && later.back.wayland
                == wayland
        }),
    decreases steps.len(),
{
    if steps.len() > 0 {
        let init = steps.drop_last();
        assert forall|i: int| 0 <= i < init.len() implies !frees(
            #[trigger] init[i],
            params,
            wayland,
        ) by {
            assert(init[i] == steps[i]);
        }
        lemma_taken_stays(model, params, wayland, init);
        assert(!frees(steps[steps.len() - 1], params, wayland));
    }
}

/// Whether the operation leaves alone which buffers the window has and which one is next: it is no
/// frame, does not change the size of the window, and does not report one of the two created.
pub open spec fn keeps_buffers(model: AppModel, step: AppStep) -> bool {
    match step {
        AppStep::Frame => false,
        AppStep::Configure(width, height) => (width, height) == model.front.size,
        AppStep::Created(created, _) => created != model.front.params && created
            != model.back.params,
        _ => true,
    }
}

/// The two buffers are shown in turn, whatever happens between the frames, unless the buffers
/// change. If the compositor has not given the first one back by the second frame, it holds both
/// after that, and a third frame changes nothing.
pub proof fn law_buffers_take_turns(model: AppModel, between: Seq<AppStep>)
    requires
        model.wf(),
        model.front.released,
        model.back.released,
        model.front.wayland is Some,
        model.back.wayland is Some,
        forall|i: int|
            0 <= i < between.len() ==> keeps_buffers(model.frame(), #[trigger] between[i]),
    ensures
        ({
            let due = model.frame().after_all(between);
            let twice = due.frame();
            &&& model.frame_effects().contains(
                AppEffect::AttachBuffer { buffer: model.front.wayland },
            )
            &&& due.frame_effects().contains(
                AppEffect::AttachBuffer { buffer: model.back.wayland },
            )
            &&& twice.front.params == model.front.params
            &&& twice.back.params == model.back.params
            &&& (forall|i: int|
                0 <= i < between.len() ==> !frees(
                    #[trigger] between[i],
                    model.front.params,
                    model.front.wayland,
                )) ==> twice.frame() == twice && twice.frame_effects() == Seq::<
                AppEffect,
            >::empty()
        }),
{
    assert(model.frame_effects()[1] == AppEffect::AttachBuffer { buffer: model.front.wayland });
    let once = model.frame();
    lemma_next_stays(once, between);
    let due = once.after_all(between);
    assert(due.frame_effects()[1] == AppEffect::AttachBuffer { buffer: model.back.wayland });
}

/// What is next stays next, and what the compositor holds it holds until it gives it back.
proof fn lemma_next_stays(model: AppModel, steps: Seq<AppStep>)
    requires
        model.front.params != model.back.params,
        model.front.released,
        !model.back.released,
        forall|i: int| 0 <= i < steps.len() ==> keeps_buffers(model, #[trigger] steps[i]),
    ensures
        ({
            let later = model.after_all(steps);
            &&& later.front == model.front
            &&& later.back.params == model.back.params
            &&& later.back.wayland == model.back.wayland
            &&& (forall|i: int|
                0 <= i < steps.len() ==> !frees(
                    #[trigger] steps[i],
                    model.back.params,
                    model.back.wayland,
                )) ==> !later.back.released
        }),
    decreases steps.len(),
{
    if steps.len() > 0 {
        let init = steps.drop_last();
        assert forall|i: int| 0 <= i < init.len() implies keeps_buffers(
            model,
            #[trigger] init[i],
        ) by {
            assert(init[i] == steps[i]);
        }
        lemma_next_stays(model, init);
        assert(keeps_buffers(model, steps[steps.len() - 1]));
        if forall|i: int|
            0 <= i < steps.len() ==> !frees(
                #[trigger] steps[i],
                model.back.params,
                model.back.wayland,
            ) {
            assert forall|i: int| 0 <= i < init.len() implies !frees(
                #[trigger] init[i],
                model.back.params,
                model.back.wayland,
            ) by {
                assert(init[i] == steps[i]);
            }
            assert(!frees(steps[steps.len() - 1], model.back.params, model.back.wayland));
        }
    }
}

/// Whether the operation leaves alone which of the compositor's buffers a buffer of the window is,
/// and whether it may be painted: it does not change the size of the window, does not report the
/// buffer created, or another one as the same buffer, and does not give it back.
pub open spec fn spares_buffer(
    step: AppStep,
    size: (u32, u32),
    params: ParamsId,
    buffer: BufferId,
) -> bool {
    match step {
        AppStep::Configure(width, height) => (width, height) == size,
        AppStep::Created(created, made) => created != params && made != buffer,
        AppStep::Released(returned) => returned != buffer,
        _ => true,
    }
}

/// A buffer that was shown may be painted again once the compositor has given it back, whatever
/// happens in between, unless the window gets another size or the compositor's buffer is reported
/// created anew. (Two buffers of the window that are the same one to the compositor are given back
/// one at a time.)
pub proof fn law_returned_buffer_is_free(
    model: AppModel,
    buffer: BufferId,
    between: Seq<AppStep>,
)
    requires
        model.wf(),
        model.front.released,
        model.front.wayland == Some(buffer),
        model.back.wayland != Some(buffer),
        forall|i: int|
            0 <= i < between.len() ==> spares_buffer(
                #[trigger] between[i],
                model.front.size,
                model.front.params,
                buffer,
            ),
    ensures
        ({
            let shown = model.frame();
            let later = shown.after_all(between);
            &&& later.holds(model.front.params, buffer, false)
            &&& later.released(buffer).holds(model.front.params, buffer, true)
        }),
{
    lemma_slots_stay(model.frame(), model.front.size, model.front.params, buffer, between);
}

/// The buffer that was shown is not given back, and the other one stays another one.
proof fn lemma_slots_stay(
    model: AppModel,
    size: (u32, u32),
    params: ParamsId,
    buffer: BufferId,
    steps: Seq<AppStep>,
)
    requires
        model.front.params != model.back.params,
        model.front.size == size,
        model.back.size == size,
        model.holds(params, buffer, false),
        (model.front.wayland == Some(buffer)) != (model.back.wayland == Some(buffer)),
        forall|i: int|
            0 <= i < steps.len() ==> spares_buffer(#[trigger] steps[i], size, params, buffer),
    ensures
        ({
            let later = model.after_all(steps);
            &&& later.front.params != later.back.params
            &&& later.front.size == size
            &&& later.back.size == size
            &&& later.holds(params, buffer, false)
            &&& (later.front.wayland == Some(buffer)) != (later.back.wayland == Some(buffer))
        }),
    decreases steps.len(),
{
    if steps.len() > 0 {
        let init = steps.drop_last();
        assert forall|i: int| 0 <= i < init.len() implies spares_buffer(
            #[trigger] init[i],
            size,
            params,
            buffer,
        ) by {
            assert(init[i] == steps[i]);
        }
        lemma_slots_stay(model, size, params, buffer, init);
        assert(spares_buffer(steps[steps.len() - 1], size, params, buffer));
    }
}

/// A color that was chosen stays chosen, and the first frame that can be shown paints it, shows it
/// and has it measured, whatever happens in between: as long as no other color is chosen and
/// nothing has been measured, a free front buffer that the compositor has created is enough.
pub proof fn law_chosen_color_is_shown_and_measured(
    model: AppModel,
    r: u16,
    g: u16,
    b: u16,
    between: Seq<AppStep>,
)
    requires
        choices(between) == 0,
        model.set_swatch(r, g, b).measurements(between) == 0,
        model.set_swatch(r, g, b).after_all(between).front.released,
        model.set_swatch(r, g, b).after_all(between).front.wayland is Some,
    ensures
        ({
            let due = model.set_swatch(r, g, b).after_all(between);
            let front = due.front;
            &&& due.frame_effects() == seq![
                AppEffect::Paint {
                    params: front.params,
                    width: front.size.0,
                    height: front.size.1,
                    color: Pixel::opaque(r, g, b),
                },
                AppEffect::AttachBuffer { buffer: front.wayland },
                AppEffect::DamageSurface {
                    width: same_bits(front.size.0),
                    height: same_bits(front.size.1),
                },
                AppEffect::RequestFrame,
                AppEffect::CommitSurface,
                AppEffect::ScheduleMeasurement { millis: SETTLE_MILLIS },
            ]
            &&& due.frame().swatch_updated
        }),
{
    let chosen = model.set_swatch(r, g, b);
    law_shown_color_is_measured_once(chosen, between);
    lemma_color_stays(chosen, between);
}

/// Only choosing a color changes it.
proof fn lemma_color_stays(model: AppModel, steps: Seq<AppStep>)
    requires
        choices(steps) == 0,
    ensures
        model.after_all(steps).swatch_color == model.swatch_color,
    decreases steps.len(),
{
    if steps.len() > 0 {
        lemma_color_stays(model, steps.drop_last());
    }
}

/// Every color that is chosen is measured once, but for one that has yet to be shown and for
/// those in whose place another one was chosen before they were shown.
pub proof fn law_one_measurement_per_color(model: AppModel, steps: Seq<AppStep>)
    ensures
        model.measurements(steps) + model.replaced(steps) + model.after_all(steps).unshown()
            == choices(steps) + model.unshown(),
    decreases steps.len(),
{
    if steps.len() > 0 {
        let before = model.after_all(steps.drop_last());
        law_one_measurement_per_color(model, steps.drop_last());
        lemma_scheduled(before, steps.last());
    }
}

/// While no color is chosen, a color that has yet to be shown is measured exactly when it has
/// been shown, and nothing else is measured.
pub proof fn law_shown_color_is_measured_once(model: AppModel, steps: Seq<AppStep>)
    requires
        choices(steps) == 0,
    ensures
        model.measurements(steps) + model.after_all(steps).unshown() == model.unshown(),
{
    law_one_measurement_per_color(model, steps);
    lemma_nothing_replaced(model, steps);
}

proof fn lemma_nothing_replaced(model: AppModel, steps: Seq<AppStep>)
    requires
        choices(steps) == 0,
    ensures
        model.replaced(steps) == 0,
    decreases steps.len(),
{
    if steps.len() > 0 {
        lemma_nothing_replaced(model, steps.drop_last());
    }
}

/// A step asks for a measurement only if a color has yet to be shown, and shows it then.
proof fn lemma_scheduled(model: AppModel, step: AppStep)
    ensures
        scheduled(model.effects(step)) + model.after(step).unshown() == if step is SetSwatch {
            1
        } else {
            model.unshown()
        },
{
    reveal_with_fuel(scheduled, 7);
    match step {
        AppStep::Frame => {
            let effects = model.frame_effects();
            if model.front.released && model.front.wayland is Some {
                let shown = seq![
                    effects[0],
                    effects[1],
                    effects[2],
                    effects[3],
                    effects[4],
                ];
                assert(scheduled(shown) == 0);
                if model.swatch_updated {
                    assert(effects =~= shown);
                } else {
                    assert(effects.drop_last() =~= shown);
                }
            }
        },
        AppStep::Update(image, surface) => lemma_colors_are_not_measured(
            model.surface_update_effects(image, surface),
        ),
        AppStep::Color(step) => lemma_colors_are_not_measured(model.color.effects(step)),
        _ => {},
    }
}

/// No color effect is a measurement.
proof fn lemma_colors_are_not_measured(effects: Seq<Effect>)
    ensures
        scheduled(color_effects(effects)) == 0,
    decreases effects.len(),
{
    if effects.len() > 0 {
        assert(color_effects(effects).drop_last() =~= color_effects(effects.drop_last()));
        lemma_colors_are_not_measured(effects.drop_last());
    }
}

/// A new size replaces both buffers. From then on, whatever happens, nothing is painted or shown
/// before the compositor has created the buffer that is next: a frame changes nothing and asks
/// for nothing. What still comes for a buffer that was replaced is ignored.
pub proof fn law_resize_replaces_buffers(
    model: AppModel,
    width: u32,
    height: u32,
    steps: Seq<AppStep>,
    old_params: ParamsId,
    old_buffer: BufferId,
)
    requires
        model.wf(),
        model.allows(AppStep::Configure(width, height)),
        model.front.size != (width, height),
        model.configure(width, height).allows_all(steps),
        old_params < model.next_params,
    ensures
        ({
            let resized = model.configure(width, height);
            let later = resized.after_all(steps);
            &&& resized.front.size == (width, height)
            &&& resized.back.size == (width, height)
            &&& resized.released(old_buffer) == resized
            &&& resized.front_not_created(steps) ==> later.frame() == later
            &&& resized.front_not_created(steps) ==> later.frame_effects() == Seq::<
                AppEffect,
            >::empty()
            &&& later.created(old_params, old_buffer) == later
            &&& later.created_effects(old_params, old_buffer) == Seq::<AppEffect>::empty()
        }),
{
    let resized = model.configure(width, height);
    if resized.front_not_created(steps) {
        lemma_front_waits(resized, steps);
    }
    lemma_buffers_are_newer(resized, steps, old_params);
}

/// A front buffer that the compositor has not created is not free before it is.
proof fn lemma_front_waits(model: AppModel, steps: Seq<AppStep>)
    requires
        !model.front.released,
        model.front.wayland is None,
        model.front_not_created(steps),
    ensures
        !model.after_all(steps).front.released,
        model.after_all(steps).front.wayland is None,
    decreases steps.len(),
{
    if steps.len() > 0 {
        lemma_front_waits(model, steps.drop_last());
    }
}

/// Buffers that are newer than another one are only replaced by such.
proof fn lemma_buffers_are_newer(model: AppModel, steps: Seq<AppStep>, params: ParamsId)
    requires
        model.allows_all(steps),
        params < model.front.params,
        params < model.back.params,
        params < model.next_params,
    ensures
        params < model.after_all(steps).front.params,
        params < model.after_all(steps).back.params,
        params < model.after_all(steps).next_params,
    decreases steps.len(),
{
    if steps.len() > 0 {
        lemma_buffers_are_newer(model, steps.drop_last(), params);
    }
}

/// A size that the window already has changes nothing.
pub proof fn law_same_size_changes_nothing(model: AppModel)
    ensures
        ({
            let (width, height) = model.front.size;
            &&& model.configure(width, height) == model
            &&& model.configure_effects(width, height) == Seq::<AppEffect>::empty()
        }),
{
}

/// Whether the operation leaves alone which output the window is on, `output`.
pub open spec fn stays_on(step: AppStep, output: OutputId) -> bool {
    match step {
        AppStep::Enter(_) => false,
        AppStep::Leave(left) => left != output,
        _ => true,
    }
}

/// The window is on the output that it entered last until it leaves that one, whatever happens in
/// between, and then it is on none.
pub proof fn law_leave_undoes_enter(model: AppModel, output: OutputId, between: Seq<AppStep>)
    requires
        forall|i: int| 0 <= i < between.len() ==> stays_on(#[trigger] between[i], output),
    ensures
        ({
            let later = model.surface_enter(output).after_all(between);
            &&& later.active_output == Some(output)
            &&& later.surface_leave(output).active_output is None
        }),
    decreases between.len(),
{
    if between.len() > 0 {
        let init = between.drop_last();
        assert forall|i: int| 0 <= i < init.len() implies stays_on(#[trigger] init[i], output) by {
            assert(init[i] == between[i]);
        }
        law_leave_undoes_enter(model, output, init);
        assert(stays_on(between[between.len() - 1], output));
    }
}

/// What the operations, the first one first, do to the color state.
pub open spec fn color_steps(steps: Seq<AppStep>) -> Seq<Step>
    decreases steps.len(),
{
    if steps.len() == 0 {
        seq![]
    } else {
        let earlier = color_steps(steps.drop_last());
        match steps.last() {
            AppStep::Color(step) => earlier.push(step),
            AppStep::Update(image, surface) => earlier.push(
                Step::SetDescriptionProxy(surface, image, window_intent()),
            ),
            _ => earlier,
        }
    }
}

/// What the colorimeter reported last during the operations, if it reported anything.
pub open spec fn last_reading(steps: Seq<AppStep>) -> Option<Tristimulus>
    decreases steps.len(),
{
    if steps.len() == 0 {
        None
    } else {
        match steps.last() {
            AppStep::Meter(output) => match output_result(output) {
                Ok(Some(values)) => Some(values),
                _ => last_reading(steps.drop_last()),
            },
            _ => last_reading(steps.drop_last()),
        }
    }
}

/// The color state of the window goes through a history of its own: what the window does besides
/// changes nothing in it.
pub proof fn law_colors_have_their_own_history(model: AppModel, steps: Seq<AppStep>)
    ensures
        model.after_all(steps).color == model.color.after_all(color_steps(steps)),
        model.allows_all(steps) ==> model.color.allows_all(color_steps(steps)),
    decreases steps.len(),
{
    if steps.len() > 0 {
        law_colors_have_their_own_history(model, steps.drop_last());
        let earlier = color_steps(steps.drop_last());
        let all = color_steps(steps);
        if all.len() > earlier.len() {
            assert(all.drop_last() =~= earlier);
        }
    }
}

/// The color that was measured last is the one that the colorimeter reported last; output that
/// reports none, or cannot be understood, changes nothing.
pub proof fn law_last_reading_is_kept(model: AppModel, steps: Seq<AppStep>)
    ensures
        model.after_all(steps).detected_swatch == match last_reading(steps) {
            Some(values) => Some(values),
            None => model.detected_swatch,
        },
    decreases steps.len(),
{
    if steps.len() > 0 {
        law_last_reading_is_kept(model, steps.drop_last());
    }
}

/// As long as nothing is done to the color state and the colorimeter reports nothing, what happens
/// to the window changes neither what is known of colors nor what was measured.
pub proof fn law_window_leaves_colors_alone(model: AppModel, steps: Seq<AppStep>)
    requires
        color_steps(steps).len() == 0,
        last_reading(steps) is None,
    ensures
        model.after_all(steps).color == model.color,
        model.after_all(steps).detected_swatch == model.detected_swatch,
{
    law_colors_have_their_own_history(model, steps);
    law_last_reading_is_kept(model, steps);
}

/// Whether the last of the operations that starts or closes the window starts it, if there is one.
pub open spec fn last_command(steps: Seq<AppStep>) -> Option<bool>
    decreases steps.len(),
{
    if steps.len() == 0 {
        None
    } else {
        match steps.last() {
            AppStep::Start => Some(true),
            AppStep::Closed => Some(false),
            AppStep::Key('q') => Some(false),
            _ => last_command(steps.drop_last()),
        }
    }
}

/// The window runs from when it is started until it is closed or `q` is pressed, and nothing else
/// makes a difference to that.
pub proof fn law_runs_from_start_to_close(model: AppModel, steps: Seq<AppStep>)
    ensures
        model.after_all(steps).is_running == match last_command(steps) {
            Some(running) => running,
            None => model.is_running,
        },
    decreases steps.len(),
{
    if steps.len() > 0 {
        law_runs_from_start_to_close(model, steps.drop_last());
    }
}

/// A window that has been closed, or in which `q` was pressed, stays closed unless it is started
/// again.
pub proof fn law_closed_stays_closed(model: AppModel, steps: Seq<AppStep>)
    requires
        !steps.contains(AppStep::Start),
    ensures
        !model.closed().after_all(steps).is_running,
        !model.key('q').after_all(steps).is_running,
{
    law_runs_from_start_to_close(model.closed(), steps);
    law_runs_from_start_to_close(model.key('q'), steps);
    lemma_no_start(steps);
}

proof fn lemma_no_start(steps: Seq<AppStep>)
    requires
        !steps.contains(AppStep::Start),
    ensures
        last_command(steps) != Some(true),
    decreases steps.len(),
{
    if steps.len() > 0 {
        let init = steps.drop_last();
        assert(steps.contains(steps.last()));
        if init.contains(AppStep::Start) {
            let i = choose|i: int| 0 <= i < init.len() && init[i] == AppStep::Start;
            assert(steps[i] == AppStep::Start);
        }
        lemma_no_start(init);
    }
}

} // verus!
