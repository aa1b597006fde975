//! The color state of a client of the compositor.
use std::collections::HashMap;
use vstd::prelude::*;

use crate::color_model::{
    missing_part, parameter_effects, ColorModel, ColorOutput, ColorSurface, ImageDescriptionInner,
    ImageDescriptionSource,
};
use crate::description::{
    Feature, ImageDescriptionBuilder, ImageDescriptionInfo, NamedEotf, NamedPrimaries,
    RenderIntent,
};
use crate::effect::{
    Effect, ImageDescriptionData, ObjectId, OutputFeedbackData, OutputId, SurfaceFeedbackData,
    SurfaceId,
};
use crate::events::{
    ColorManagerEvent, ColorOutputEvent, ImageDescriptionEvent, ImageDescriptionInfoEvent,
    SurfaceFeedbackEvent,
};
use crate::fault::Fault;

verus! {

broadcast use vstd::std_specs::hash::group_hash_axioms;

/// The oldest version of the color manager that will do.
pub const MANAGER_VERSION_MIN: u32 = 1;

/// The newest version of the color manager that is made use of.
pub const MANAGER_VERSION_MAX: u32 = 2;

/// Why there is no color manager to bind to.
#[derive(Clone, Copy, Debug, PartialEq, Eq)]
pub enum BindError {
    /// The compositor's version is too old.
    UnsupportedVersion,
    /// The compositor has none.
    NotPresent,
}

/// The outputs and the surfaces whose colors are followed, and how far each image description
/// has come. Every operation returns what has to be done next, in order.
#[derive(Debug)]
pub struct ColorState {
    outputs: HashMap<OutputId, ColorOutput>,
    surfaces: HashMap<SurfaceId, ColorSurface>,
    images: HashMap<ObjectId, ImageDescriptionInner>,
    fresh: ObjectId,
    supported_idents: Vec<RenderIntent>,
    supported_features: Vec<Feature>,
    supported_tfs: Vec<NamedEotf>,
    supported_primaries: Vec<NamedPrimaries>,
}

impl View for ColorState {
    type V = ColorModel;

    closed spec fn view(&self) -> ColorModel {
        ColorModel {
            outputs: self.outputs@,
            surfaces: self.surfaces@,
            images: self.images@,
            fresh: self.fresh,
            supported_idents: self.supported_idents@,
            supported_features: self.supported_features@,
            supported_tfs: self.supported_tfs@,
            supported_primaries: self.supported_primaries@,
        }
    }
}

/// Finds the part of the builder that is missing first, if one is.
fn find_missing_part(builder: &ImageDescriptionBuilder) -> (fault: Option<Fault>)
    ensures
        fault == missing_part(*builder),
{
    if builder.primaries.is_none() {
        Some(Fault::MissingPrimaries)
    } else if builder.eotf.is_none() {
        Some(Fault::MissingEotf)
    } else if builder.luma_range.is_none() {
        Some(Fault::MissingLumaRange)
    } else if builder.ref_luma.is_none() {
        Some(Fault::MissingRefLuma)
    } else {
        None
    }
}

impl ColorState {
    /// The color state on a color manager, given how the attempt to bind to one came out.
    pub fn bind(bound: Result<(), BindError>) -> (state: Result<ColorState, BindError>)
        ensures
            match bound {
                Ok(_) => state matches Ok(state) && state@ == ColorModel::initial()
                    && state@.wf(),
                Err(error) => state == Err::<ColorState, BindError>(error),
            },
    {
        match bound {
            Ok(_) => {
                let state = ColorState {
                    outputs: HashMap::new(),
                    surfaces: HashMap::new(),
                    images: HashMap::new(),
                    fresh: 0,
                    supported_idents: Vec::new(),
                    supported_features: Vec::new(),
                    supported_tfs: Vec::new(),
                    supported_primaries: Vec::new(),
                };
                assert(state@ =~= ColorModel::initial());
                Ok(state)
            },
            Err(error) => Err(error),
        }
    }

    /// Whether `count` more objects can be named. No operation names more than three.
    pub fn has_room(&self, count: u64) -> (room: bool)
        ensures
            room == self@.has_room(count as int),
    {
        count <= u64::MAX - self.fresh
    }

    /// Whether `image` stands for an image description of this state.
    pub fn has_image(&self, image: ObjectId) -> (known: bool)
        ensures
            known == self@.images.contains_key(image),
    {
        self.images.contains_key(&image)
    }

    /// Follows the description of an output from now on.
    pub fn track_output(&mut self, output: OutputId) -> (effects: Vec<Effect>)
        requires
            old(self)@.wf(),
            old(self)@.has_room(2),
        ensures
            final(self)@ == old(self)@.track_output(output),
            final(self)@.wf(),
            effects@ == old(self)@.track_output_effects(output),
    {
        let manager = self.fresh;
        let image = self.fresh + 1;
        self.fresh = self.fresh + 2;
        let source = ImageDescriptionSource::Output(output);
        self.images.insert(image, ImageDescriptionInner::NotReady { source, info: None });
        self.outputs.insert(output, ColorOutput { manager, info: image, pending_info: None });
        assert(self@ =~= old(self)@.track_output(output));
        vec![
            Effect::GetOutput { output, manager, data: OutputFeedbackData { output } },
            Effect::GetImageDescription { manager, image, data: ImageDescriptionData { image } },
        ]
    }

    /// The compositor features that have been reported, in order.
    pub fn supported_features(&self) -> (features: &Vec<Feature>)
        ensures
            features@ == self@.supported_features,
    {
        &self.supported_features
    }

    /// The named primaries that the compositor supports, in the order of the reports.
    pub fn supported_primaries(&self) -> (primaries: &Vec<NamedPrimaries>)
        ensures
            primaries@ == self@.supported_primaries,
    {
        &self.supported_primaries
    }

    /// The render intents that the compositor supports, in the order of the reports.
    pub fn supported_idents(&self) -> (intents: &Vec<RenderIntent>)
        ensures
            intents@ == self@.supported_idents,
    {
        &self.supported_idents
    }

    /// The named transfer functions that the compositor supports, in the order of the reports.
    pub fn supported_tfs(&self) -> (tfs: &Vec<NamedEotf>)
        ensures
            tfs@ == self@.supported_tfs,
    {
        &self.supported_tfs
    }

    /// Stops following an output.
    pub fn release_output(&mut self, output: OutputId)
        requires
            old(self)@.wf(),
        ensures
            final(self)@ == old(self)@.release_output(output),
            final(self)@.wf(),
    {
        self.outputs.remove(&output);
        assert(self@ =~= old(self)@.release_output(output));
    }

    /// Finds out why an event of the color management object of `output` cannot be followed, if
    /// it cannot.
    pub fn check_output_event(&self, output: OutputId) -> (fault: Option<Fault>)
        ensures
            fault == self@.output_fault(output),
    {
        if self.outputs.contains_key(&output) {
            None
        } else {
            Some(Fault::UntrackedOutput)
        }
    }

    /// Follows an event of the color management object of an output.
    pub fn output_event(&mut self, data: OutputFeedbackData, event: ColorOutputEvent) -> (effects:
        Vec<Effect>)
        requires
            old(self)@.wf(),
            old(self)@.has_room(1),
            old(self)@.output_fault(data.output) is None,
        ensures
            final(self)@ == old(self)@.output_changed(data.output),
            final(self)@.wf(),
            effects@ == old(self)@.output_changed_effects(data.output),
    {
        match event {
            ColorOutputEvent::ImageDescriptionChanged => {
                let output = data.output;
                let image = self.fresh;
                self.fresh = self.fresh + 1;
                let entry = *self.outputs.get(&output).unwrap();
                let source = ImageDescriptionSource::Output(output);
                self.images.insert(image, ImageDescriptionInner::NotReady { source, info: None });
                self.outputs.insert(output, ColorOutput { pending_info: Some(image), ..entry });
                assert(self@ =~= old(self)@.output_changed(output));
                vec![
                    Effect::GetImageDescription {
                        manager: entry.manager,
                        image,
                        data: ImageDescriptionData { image },
                    },
                ]
            },
        }
    }

    /// Has `surface` described by the image description `description`, at once.
    pub fn set_surface_description_proxy(
        &mut self,
        surface: SurfaceId,
        description: ObjectId,
        render_intent: RenderIntent,
    ) -> (effects: Vec<Effect>)
        requires
            old(self)@.wf(),
            old(self)@.has_room(old(self)@.to_manage(surface)),
            old(self)@.images.contains_key(description),
        ensures
            final(self)@ == old(self)@.with_surface_info(surface, description),
            final(self)@.wf(),
            effects@ == old(self)@.set_surface_description_proxy_effects(
                surface,
                description,
                render_intent,
            ),
    {
        let mut effects: Vec<Effect> = Vec::new();
        let manager = self.describe_surface(surface, description, &mut effects);
        effects.push(Effect::SetImageDescription { manager, image: description, render_intent });
        effects.push(Effect::CommitSurface { surface });
        effects
    }

    /// Makes `image` the current description of `surface`, and the surface managed if it was
    /// not; returns its color management object.
    fn describe_surface(
        &mut self,
        surface: SurfaceId,
        image: ObjectId,
        effects: &mut Vec<Effect>,
    ) -> (manager: ObjectId)
        requires
            old(self)@.wf(),
            old(self)@.has_room(old(self)@.to_manage(surface)),
            old(self)@.images.contains_key(image),
        ensures
            manager == old(self)@.manager_of(surface),
            final(self)@ == old(self)@.with_surface_info(surface, image),
            final(self)@.wf(),
            final(effects)@ == old(effects)@ + old(self)@.manage_effects(surface),
    {
        let entry = match self.surfaces.get(&surface) {
            Some(entry) => ColorSurface { info: image, ..*entry },
            None => {
                let manager = self.fresh;
                self.fresh = self.fresh + 1;
                effects.push(Effect::GetSurface { surface, manager });
                ColorSurface { feedback: None, manager, info: image, pending_info: None }
            },
        };
        self.surfaces.insert(surface, entry);
        assert(self@ =~= old(self)@.with_surface_info(surface, image));
        entry.manager
    }

    /// Writes a description for `surface`. It takes effect when the image description that is
    /// made of it becomes ready.
    pub fn set_surface_description(
        &mut self,
        surface: SurfaceId,
        description: ImageDescriptionInfo,
        render_intent: RenderIntent,
    ) -> (effects: Vec<Effect>)
        requires
            old(self)@.wf(),
            old(self)@.has_room(2 + old(self)@.to_manage(surface)),
            description.fault() is None,
        ensures
            final(self)@ == old(self)@.set_surface_description(surface, description, render_intent),
            final(self)@.wf(),
            effects@ == old(self)@.set_surface_description_effects(
                surface,
                description,
                render_intent,
            ),
    {
        let creator = self.fresh;
        let image = self.fresh + 1;
        self.fresh = self.fresh + 2;

        let mut effects: Vec<Effect> = Vec::new();
        effects.push(Effect::CreateParametricCreator { creator });
        let parameters = description.to_parameters();
        let mut i: usize = 0;
        while i < parameters.len()
            invariant
                i <= parameters.len(),
                parameters@ == description.parameters(),
                effects@ == seq![Effect::CreateParametricCreator { creator }]
                    + parameter_effects(creator, description).take(i as int),
            decreases parameters.len() - i,
        {
            effects.push(Effect::SetParameter { creator, parameter: parameters[i] });
            i += 1;
        }
        assert(parameter_effects(creator, description).take(i as int) =~= parameter_effects(
            creator,
            description,
        ));
        effects.push(Effect::Create { creator, image, data: ImageDescriptionData { image } });

        let source = ImageDescriptionSource::Surface(surface);
        self.images.insert(
            image,
            ImageDescriptionInner::NotReady { source, info: Some((description, render_intent)) },
        );
        assert(self@ =~= old(self)@.with_written(surface, description, render_intent));
        self.describe_surface(surface, image, &mut effects);
        effects
    }

    /// Stops following a surface.
    pub fn release_surface(&mut self, surface: SurfaceId)
        requires
            old(self)@.wf(),
        ensures
            final(self)@ == old(self)@.release_surface(surface),
            final(self)@.wf(),
    {
        self.surfaces.remove(&surface);
        assert(self@ =~= old(self)@.release_surface(surface));
    }

    /// Follows the preferred description of a surface from now on.
    pub fn track_surface(&mut self, surface: SurfaceId) -> (effects: Vec<Effect>)
        requires
            old(self)@.wf(),
            old(self)@.has_room(2 + old(self)@.to_manage(surface)),
        ensures
            final(self)@ == old(self)@.track_surface(surface),
            final(self)@.wf(),
            effects@ == old(self)@.track_surface_effects(surface),
    {
        let mut effects: Vec<Effect> = Vec::new();
        let known = match self.surfaces.get(&surface) {
            Some(entry) => Some(*entry),
            None => {
                effects.push(Effect::GetSurface { surface, manager: self.fresh });
                self.fresh = self.fresh + 1;
                None
            },
        };
        let feedback = self.fresh;
        let image = self.fresh + 1;
        self.fresh = self.fresh + 2;
        effects.push(
            Effect::GetSurfaceFeedback { surface, feedback, data: SurfaceFeedbackData { surface } },
        );
        effects.push(
            Effect::GetPreferredParametric {
                feedback,
                image,
                data: ImageDescriptionData { image },
            },
        );
        let entry = match known {
            Some(entry) => ColorSurface {
                feedback: Some(feedback),
                pending_info: Some(image),
                ..entry
            },
            None => ColorSurface {
                feedback: Some(feedback),
                manager: feedback - 1,
                info: image,
                pending_info: Some(image),
            },
        };
        let source = ImageDescriptionSource::Surface(surface);
        self.images.insert(image, ImageDescriptionInner::NotReady { source, info: None });
        self.surfaces.insert(surface, entry);
        assert(self@ =~= old(self)@.track_surface(surface));
        assert(effects@ =~= old(self)@.track_surface_effects(surface));
        effects
    }

    /// Whether the current description of `surface`, if it has one, is known.
    pub fn is_surface_description_ready(&self, surface: SurfaceId) -> (ready: bool)
        ensures
            ready == self@.surface_description_ready(surface),
    {
        match self.surfaces.get(&surface) {
            Some(entry) => match self.images.get(&entry.info) {
                Some(ImageDescriptionInner::Defined(_)) => true,
                _ => false,
            },
            None => true,
        }
    }

    /// The current description of `surface`, if the surface is managed.
    pub fn get_surface_description(&self, surface: SurfaceId) -> (description: Option<
        ImageDescriptionInfo,
    >)
        requires
            self@.surface_description_ready(surface),
        ensures
            description == self@.surface_description(surface),
    {
        match self.surfaces.get(&surface) {
            Some(entry) => match self.images.get(&entry.info) {
                Some(ImageDescriptionInner::Defined(description)) => Some(*description),
                _ => None,
            },
            None => None,
        }
    }

    /// Finds out why an event of the feedback object of `surface` cannot be followed, if it
    /// cannot.
    pub fn check_surface_feedback_event(&self, surface: SurfaceId) -> (fault: Option<Fault>)
        ensures
            fault == self@.feedback_fault(surface),
    {
        match self.surfaces.get(&surface) {
            Some(entry) => if entry.feedback.is_none() {
                Some(Fault::MissingFeedback)
            } else {
                None
            },
            None => Some(Fault::UntrackedSurface),
        }
    }

    /// Follows an event of the feedback object of a surface.
    pub fn surface_feedback_event(
        &mut self,
        data: SurfaceFeedbackData,
        event: SurfaceFeedbackEvent,
    ) -> (effects: Vec<Effect>)
        requires
            old(self)@.wf(),
            old(self)@.has_room(1),
            old(self)@.feedback_fault(data.surface) is None,
        ensures
            final(self)@ == old(self)@.preferred_changed(data.surface),
            final(self)@.wf(),
            effects@ == old(self)@.preferred_changed_effects(data.surface),
    {
        match event {
            SurfaceFeedbackEvent::PreferredChanged { .. }
            | SurfaceFeedbackEvent::PreferredChanged2 { .. } => {
                let surface = data.surface;
                let image = self.fresh;
                self.fresh = self.fresh + 1;
                let entry = *self.surfaces.get(&surface).unwrap();
                let source = ImageDescriptionSource::Surface(surface);
                self.images.insert(image, ImageDescriptionInner::NotReady { source, info: None });
                self.surfaces.insert(surface, ColorSurface { pending_info: Some(image), ..entry });
                assert(self@ =~= old(self)@.preferred_changed(surface));
                vec![
                    Effect::GetPreferredParametric {
                        feedback: entry.feedback.unwrap(),
                        image,
                        data: ImageDescriptionData { image },
                    },
                ]
            },
        }
    }

    /// Finds out why an event of an image description cannot be followed, if it cannot.
    pub fn check_image_description_event(
        &self,
        data: ImageDescriptionData,
        event: ImageDescriptionEvent,
    ) -> (fault: Option<Fault>)
        requires
            self@.images.contains_key(data.image),
        ensures
            fault == self@.image_fault(data.image, event),
    {
        if let ImageDescriptionEvent::Failed { .. } = event {
            return Some(Fault::DescriptionFailed);
        }
        match self.images.get(&data.image).unwrap() {
            ImageDescriptionInner::NotReady {
                source: ImageDescriptionSource::Surface(surface),
                info: Some(_),
            } => if self.surfaces.contains_key(surface) {
                None
            } else {
                Some(Fault::MissingSurface)
            },
            _ => None,
        }
    }

    /// Follows an event of an image description.
    pub fn image_description_event(
        &mut self,
        data: ImageDescriptionData,
        event: ImageDescriptionEvent,
    ) -> (effects: Vec<Effect>)
        requires
            old(self)@.wf(),
            old(self)@.images.contains_key(data.image),
            old(self)@.image_fault(data.image, event) is None,
        ensures
            final(self)@ == old(self)@.image_ready(data.image),
            final(self)@.wf(),
            effects@ == old(self)@.image_ready_effects(data.image),
    {
        let image = data.image;
        let mut effects: Vec<Effect> = Vec::new();
        match *self.images.get(&image).unwrap() {
            ImageDescriptionInner::NotReady {
                source,
                info: Some((description, render_intent)),
            } => {
                self.images.insert(image, ImageDescriptionInner::Defined(description));
                if let ImageDescriptionSource::Surface(surface) = source {
                    let manager = self.surfaces.get(&surface).unwrap().manager;
                    effects.push(Effect::SetImageDescription { manager, image, render_intent });
                    effects.push(Effect::CommitSurface { surface });
                }
            },
            ImageDescriptionInner::NotReady { source, info: None } => {
                let builder = ImageDescriptionBuilder::default();
                self.images.insert(image, ImageDescriptionInner::Building { builder, source });
                effects.push(
                    Effect::GetInformation { image, data: ImageDescriptionData { image } },
                );
            },
            _ => {},
        }
        assert(self@ =~= old(self)@.image_ready(image));
        assert(effects@ =~= old(self)@.image_ready_effects(image));
        effects
    }

    /// Finds out why a part of the report on an image description cannot be followed, if it
    /// cannot.
    pub fn check_image_description_info_event(
        &self,
        data: ImageDescriptionData,
        event: ImageDescriptionInfoEvent,
    ) -> (fault: Option<Fault>)
        requires
            self@.images.contains_key(data.image),
        ensures
            fault == self@.info_fault(data.image, event),
    {
        match (*self.images.get(&data.image).unwrap(), event) {
            (
                ImageDescriptionInner::Building { builder, source },
                ImageDescriptionInfoEvent::Done,
            ) => {
                let missing = find_missing_part(&builder);
                if missing.is_some() {
                    return missing;
                }
                match source {
                    ImageDescriptionSource::Output(output) => match self.outputs.get(&output) {
                        Some(entry) if entry.pending_info.is_none() => {
                            Some(Fault::OutputNotPending)
                        },
                        _ => None,
                    },
                    ImageDescriptionSource::Surface(surface) => match self.surfaces.get(&surface) {
                        Some(entry) if entry.pending_info.is_none() => {
                            Some(Fault::SurfaceNotPending)
                        },
                        _ => None,
                    },
                }
            },
            _ => None,
        }
    }

    /// Follows a part of the report on an image description.
    pub fn image_description_info_event(
        &mut self,
        data: ImageDescriptionData,
        event: ImageDescriptionInfoEvent,
    ) -> (effects: Vec<Effect>)
        requires
            old(self)@.wf(),
            old(self)@.images.contains_key(data.image),
            old(self)@.info_fault(data.image, event) is None,
        ensures
            final(self)@ == old(self)@.info_event(data.image, event),
            final(self)@.wf(),
            effects@ == old(self)@.info_event_effects(data.image, event),
    {
        let image = data.image;
        let mut effects: Vec<Effect> = Vec::new();
        if let ImageDescriptionInner::Building { mut builder, source } = *self.images.get(
            &image,
        ).unwrap() {
            match event {
                ImageDescriptionInfoEvent::Done => {
                    let description = builder.build();
                    self.images.insert(image, ImageDescriptionInner::Defined(description));
                    self.take_pending(source, description, &mut effects);
                },
                _ => {
                    builder.apply(event);
                    self.images.insert(image, ImageDescriptionInner::Building { builder, source });
                },
            }
        }
        assert(self@ =~= old(self)@.info_event(image, event));
        assert(effects@ =~= old(self)@.info_event_effects(image, event));
        effects
    }

    /// Makes what is pending for `source` current, and has the program told of its description.
    fn take_pending(
        &mut self,
        source: ImageDescriptionSource,
        description: ImageDescriptionInfo,
        effects: &mut Vec<Effect>,
    )
        requires
            match source {
                ImageDescriptionSource::Output(output) => old(self)@.outputs.contains_key(output)
                    ==> old(self)@.outputs[output].pending_info is Some,
                ImageDescriptionSource::Surface(surface) => old(self)@.surfaces.contains_key(
                    surface,
                ) ==> old(self)@.surfaces[surface].pending_info is Some,
            },
        ensures
            final(self)@ == old(self)@.with_pending_taken(source),
            final(effects)@ == old(effects)@ + old(self)@.update_effects(source, description),
    {
        match source {
            ImageDescriptionSource::Output(output) => {
                if let Some(entry) = self.outputs.get(&output) {
                    let image = entry.pending_info.unwrap();
                    let entry = ColorOutput { info: image, pending_info: None, ..*entry };
                    self.outputs.insert(output, entry);
                    effects.push(Effect::OutputUpdate { image, output, description });
                }
            },
            ImageDescriptionSource::Surface(surface) => {
                if let Some(entry) = self.surfaces.get(&surface) {
                    let image = entry.pending_info.unwrap();
                    let entry = ColorSurface { info: image, pending_info: None, ..*entry };
                    self.surfaces.insert(surface, entry);
                    effects.push(Effect::SurfaceUpdate { image, surface, description });
                }
            },
        }
        assert(self@ =~= old(self)@.with_pending_taken(source));
    }

    /// Follows an event of the color manager.
    pub fn color_manager_event(&mut self, event: ColorManagerEvent) -> (effects: Vec<Effect>)
        requires
            old(self)@.wf(),
        ensures
            final(self)@ == old(self)@.manager_event(event),
            final(self)@.wf(),
            effects@ == old(self)@.manager_event_effects(event),
    {
        let mut effects: Vec<Effect> = Vec::new();
        match event {
            ColorManagerEvent::Done => {
                effects.push(Effect::CompositorFeatures);
            },
            ColorManagerEvent::SupportedFeature { feature } => {
                self.supported_features.push(feature);
            },
            ColorManagerEvent::SupportedPrimariesNamed { primaries } => {
                self.supported_primaries.push(primaries);
            },
            ColorManagerEvent::SupportedIntent { render_intent } => {
                self.supported_idents.push(render_intent);
            },
            ColorManagerEvent::SupportedTfNamed { tf } => {
                self.supported_tfs.push(tf);
            },
        }
        assert(self@ =~= old(self)@.manager_event(event));
        effects
    }
}

} // verus!
