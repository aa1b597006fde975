//! The color state as mathematics: what it knows, and what each operation makes of that.
use vstd::prelude::*;

use crate::description::{
    Feature, ImageDescriptionBuilder, ImageDescriptionInfo, NamedEotf, NamedPrimaries,
    RenderIntent,
};
use crate::effect::{
    Effect, ImageDescriptionData, ObjectId, OutputFeedbackData, OutputId, SurfaceFeedbackData,
    SurfaceId,
};
use crate::events::{
    ColorManagerEvent, ImageDescriptionEvent, ImageDescriptionInfoEvent,
};
use crate::fault::Fault;

verus! {

/// What is kept of a tracked output.
#[derive(Clone, Copy, Debug, PartialEq, Eq)]
pub struct ColorOutput {
    pub manager: ObjectId,
    pub info: ObjectId,
    pub pending_info: Option<ObjectId>,
}

/// What is kept of a managed surface.
#[derive(Clone, Copy, Debug, PartialEq, Eq)]
pub struct ColorSurface {
    pub feedback: Option<ObjectId>,
    pub manager: ObjectId,
    pub info: ObjectId,
    pub pending_info: Option<ObjectId>,
}

/// What an image description describes.
#[derive(Clone, Copy, Debug, PartialEq, Eq)]
pub enum ImageDescriptionSource {
    Output(OutputId),
    Surface(SurfaceId),
}

/// How far an image description has come.
#[derive(Clone, Copy, Debug, PartialEq, Eq)]
pub enum ImageDescriptionInner {
    /// The compositor has not made it yet. `info` is there if this client wrote it.
    NotReady {
        source: ImageDescriptionSource,
        info: Option<(ImageDescriptionInfo, RenderIntent)>,
    },
    /// The compositor is reporting on it.
    Building { builder: ImageDescriptionBuilder, source: ImageDescriptionSource },
    /// It is known.
    Defined(ImageDescriptionInfo),
}

impl ImageDescriptionInner {
    /// Whether it is known, or else is about `source`.
    pub open spec fn describes(self, source: ImageDescriptionSource) -> bool {
        match self {
            ImageDescriptionInner::NotReady { source: own, .. } => own == source,
            ImageDescriptionInner::Building { source: own, .. } => own == source,
            ImageDescriptionInner::Defined(_) => true,
        }
    }

    /// The state of a description that has been asked for.
    pub open spec fn requested(source: ImageDescriptionSource) -> Self {
        ImageDescriptionInner::NotReady { source, info: None }
    }

    /// How far it has come, as a number.
    pub open spec fn phase(self) -> int {
        match self {
            ImageDescriptionInner::NotReady { .. } => 0,
            ImageDescriptionInner::Building { .. } => 1,
            ImageDescriptionInner::Defined(_) => 2,
        }
    }
}

/// What a color state knows.
#[verifier::ext_equal]
pub struct ColorModel {
    pub outputs: Map<OutputId, ColorOutput>,
    pub surfaces: Map<SurfaceId, ColorSurface>,
    /// How far each image description has come.
    pub images: Map<ObjectId, ImageDescriptionInner>,
    /// The next object to be created; every object so far is smaller.
    pub fresh: u64,
    pub supported_idents: Seq<RenderIntent>,
    pub supported_features: Seq<Feature>,
    pub supported_tfs: Seq<NamedEotf>,
    pub supported_primaries: Seq<NamedPrimaries>,
}

/// The part of the builder that is missing first, if one is.
pub open spec fn missing_part(builder: ImageDescriptionBuilder) -> Option<Fault> {
    if builder.primaries is None {
        Some(Fault::MissingPrimaries)
    } else if builder.eotf is None {
        Some(Fault::MissingEotf)
    } else if builder.luma_range is None {
        Some(Fault::MissingLumaRange)
    } else if builder.ref_luma is None {
        Some(Fault::MissingRefLuma)
    } else {
        None
    }
}

/// The effects that set `parameters` on `creator`.
pub open spec fn parameter_effects(creator: ObjectId, info: ImageDescriptionInfo) -> Seq<Effect> {
    Seq::new(
        info.parameters().len(),
        |i: int| Effect::SetParameter { creator, parameter: info.parameters()[i] },
    )
}

impl ColorModel {
    /// Nothing is tracked and nothing is known.
    pub open spec fn initial() -> Self {
        ColorModel {
            outputs: Map::empty(),
            surfaces: Map::empty(),
            images: Map::empty(),
            fresh: 0,
            supported_idents: seq![],
            supported_features: seq![],
            supported_tfs: seq![],
            supported_primaries: seq![],
        }
    }

    /// Whether `count` more objects can be named.
    pub open spec fn has_room(self, count: int) -> bool {
        self.fresh + count <= u64::MAX
    }

    /// How many objects it takes to make `surface` managed.
    pub open spec fn to_manage(self, surface: SurfaceId) -> int {
        if self.surfaces.contains_key(surface) {
            0
        } else {
            1
        }
    }

    /// The image description that `id` stands for exists and is about `source`, if it is not
    /// known yet.
    pub open spec fn image_describes(self, id: ObjectId, source: ImageDescriptionSource) -> bool {
        self.images.contains_key(id) && self.images[id].describes(source)
    }

    /// Everything that is kept of `output` is in order.
    pub open spec fn output_wf(self, output: OutputId) -> bool {
        let entry = self.outputs[output];
        &&& entry.manager < self.fresh
        &&& self.image_describes(entry.info, ImageDescriptionSource::Output(output))
        &&& entry.pending_info matches Some(image) ==> self.image_describes(
            image,
            ImageDescriptionSource::Output(output),
        )
    }

    /// Everything that is kept of `surface` is in order.
    pub open spec fn surface_wf(self, surface: SurfaceId) -> bool {
        let entry = self.surfaces[surface];
        &&& entry.manager < self.fresh
        &&& entry.feedback matches Some(feedback) ==> feedback < self.fresh
        &&& self.images.contains_key(entry.info)
        &&& entry.pending_info matches Some(image) ==> self.image_describes(
            image,
            ImageDescriptionSource::Surface(surface),
        )
    }

    /// Everything that is kept of `image` is in order.
    pub open spec fn image_wf(self, image: ObjectId) -> bool {
        &&& image < self.fresh
        &&& self.images[image] matches ImageDescriptionInner::NotReady { source, info: Some(_) }
            ==> source is Surface
    }

    /// Every object that is referred to has been created; what an output refers to, and what is
    /// pending for an output or a surface, is about that output or surface; and this client
    /// writes descriptions for surfaces only.
    pub open spec fn wf(self) -> bool {
        &&& forall|output: OutputId| #[trigger]
            self.outputs.contains_key(output) ==> self.output_wf(output)
        &&& forall|surface: SurfaceId| #[trigger]
            self.surfaces.contains_key(surface) ==> self.surface_wf(surface)
        &&& forall|image: ObjectId| #[trigger]
            self.images.contains_key(image) ==> self.image_wf(image)
    }

    // Outputs.

    /// After an output is tracked: its description has been asked for.
    pub open spec fn track_output(self, output: OutputId) -> Self {
        let manager = self.fresh;
        let image = (self.fresh + 1) as u64;
        ColorModel {
            outputs: self.outputs.insert(
                output,
                ColorOutput { manager, info: image, pending_info: None },
            ),
            images: self.images.insert(
                image,
                ImageDescriptionInner::requested(ImageDescriptionSource::Output(output)),
            ),
            fresh: (self.fresh + 2) as u64,
            ..self
        }
    }

    /// The requests that tracking an output takes.
    pub open spec fn track_output_effects(self, output: OutputId) -> Seq<Effect> {
        let manager = self.fresh;
        let image = (self.fresh + 1) as u64;
        seq![
            Effect::GetOutput { output, manager, data: OutputFeedbackData { output } },
            Effect::GetImageDescription { manager, image, data: ImageDescriptionData { image } },
        ]
    }

    /// After an output is released: it is not tracked.
    pub open spec fn release_output(self, output: OutputId) -> Self {
        ColorModel { outputs: self.outputs.remove(output), ..self }
    }

    /// Why the change of an output's description cannot be followed, if it cannot.
    pub open spec fn output_fault(self, output: OutputId) -> Option<Fault> {
        if self.outputs.contains_key(output) {
            None
        } else {
            Some(Fault::UntrackedOutput)
        }
    }

    /// After the description of an output changed: the new one has been asked for and is pending.
    pub open spec fn output_changed(self, output: OutputId) -> Self {
        let image = self.fresh;
        ColorModel {
            outputs: self.outputs.insert(
                output,
                ColorOutput { pending_info: Some(image), ..self.outputs[output] },
            ),
            images: self.images.insert(
                image,
                ImageDescriptionInner::requested(ImageDescriptionSource::Output(output)),
            ),
            fresh: (self.fresh + 1) as u64,
            ..self
        }
    }

    /// The request for the new description of an output.
    pub open spec fn output_changed_effects(self, output: OutputId) -> Seq<Effect> {
        let image = self.fresh;
        seq![
            Effect::GetImageDescription {
                manager: self.outputs[output].manager,
                image,
                data: ImageDescriptionData { image },
            },
        ]
    }

    // Surfaces.

    /// After a surface is tracked: its preferred description has been asked for and is pending.
    /// For a surface that was not managed before, it also stands in for the current one.
    pub open spec fn track_surface(self, surface: SurfaceId) -> Self {
        if self.surfaces.contains_key(surface) {
            let feedback = self.fresh;
            let image = (self.fresh + 1) as u64;
            ColorModel {
                surfaces: self.surfaces.insert(
                    surface,
                    ColorSurface {
                        feedback: Some(feedback),
                        pending_info: Some(image),
                        ..self.surfaces[surface]
                    },
                ),
                images: self.images.insert(
                    image,
                    ImageDescriptionInner::requested(ImageDescriptionSource::Surface(surface)),
                ),
                fresh: (self.fresh + 2) as u64,
                ..self
            }
        } else {
            let manager = self.fresh;
            let feedback = (self.fresh + 1) as u64;
            let image = (self.fresh + 2) as u64;
            ColorModel {
                surfaces: self.surfaces.insert(
                    surface,
                    ColorSurface {
                        feedback: Some(feedback),
                        manager,
                        info: image,
                        pending_info: Some(image),
                    },
                ),
                images: self.images.insert(
                    image,
                    ImageDescriptionInner::requested(ImageDescriptionSource::Surface(surface)),
                ),
                fresh: (self.fresh + 3) as u64,
                ..self
            }
        }
    }

    /// The requests that tracking a surface takes.
    pub open spec fn track_surface_effects(self, surface: SurfaceId) -> Seq<Effect> {
        let known = self.surfaces.contains_key(surface);
        let feedback = if known {
            self.fresh
        } else {
            (self.fresh + 1) as u64
        };
        let image = (feedback + 1) as u64;
        let asked = seq![
            Effect::GetSurfaceFeedback { surface, feedback, data: SurfaceFeedbackData { surface } },
            Effect::GetPreferredParametric {
                feedback,
                image,
                data: ImageDescriptionData { image },
            },
        ];
        if known {
            asked
        } else {
            seq![Effect::GetSurface { surface, manager: self.fresh }] + asked
        }
    }

    /// After a surface is released: it is not managed.
    pub open spec fn release_surface(self, surface: SurfaceId) -> Self {
        ColorModel { surfaces: self.surfaces.remove(surface), ..self }
    }

    /// The color management object of a surface; the next object if it has none yet.
    pub open spec fn manager_of(self, surface: SurfaceId) -> ObjectId {
        if self.surfaces.contains_key(surface) {
            self.surfaces[surface].manager
        } else {
            self.fresh
        }
    }

    /// Has `surface` described by `image`; makes it managed if it was not.
    pub open spec fn with_surface_info(self, surface: SurfaceId, image: ObjectId) -> Self {
        if self.surfaces.contains_key(surface) {
            ColorModel {
                surfaces: self.surfaces.insert(
                    surface,
                    ColorSurface { info: image, ..self.surfaces[surface] },
                ),
                ..self
            }
        } else {
            ColorModel {
                surfaces: self.surfaces.insert(
                    surface,
                    ColorSurface {
                        feedback: None,
                        manager: self.fresh,
                        info: image,
                        pending_info: None,
                    },
                ),
                fresh: (self.fresh + 1) as u64,
                ..self
            }
        }
    }

    /// The request that makes `surface` managed, if it is not.
    pub open spec fn manage_effects(self, surface: SurfaceId) -> Seq<Effect> {
        if self.surfaces.contains_key(surface) {
            seq![]
        } else {
            seq![Effect::GetSurface { surface, manager: self.fresh }]
        }
    }

    /// The requests that have `surface` described by `image` at once.
    pub open spec fn set_surface_description_proxy_effects(
        self,
        surface: SurfaceId,
        image: ObjectId,
        render_intent: RenderIntent,
    ) -> Seq<Effect> {
        self.manage_effects(surface) + seq![
            Effect::SetImageDescription { manager: self.manager_of(surface), image, render_intent },
            Effect::CommitSurface { surface },
        ]
    }

    /// After a creator and an image description have been made for a written description.
    pub open spec fn with_written(
        self,
        surface: SurfaceId,
        description: ImageDescriptionInfo,
        render_intent: RenderIntent,
    ) -> Self {
        ColorModel {
            images: self.images.insert(
                (self.fresh + 1) as u64,
                ImageDescriptionInner::NotReady {
                    source: ImageDescriptionSource::Surface(surface),
                    info: Some((description, render_intent)),
                },
            ),
            fresh: (self.fresh + 2) as u64,
            ..self
        }
    }

    /// After a description is written for a surface: the image description that is being made
    /// of it is the surface's current one.
    pub open spec fn set_surface_description(
        self,
        surface: SurfaceId,
        description: ImageDescriptionInfo,
        render_intent: RenderIntent,
    ) -> Self {
        self.with_written(surface, description, render_intent).with_surface_info(
            surface,
            (self.fresh + 1) as u64,
        )
    }

    /// The requests that have an image description made of what is written.
    pub open spec fn set_surface_description_effects(
        self,
        surface: SurfaceId,
        description: ImageDescriptionInfo,
        render_intent: RenderIntent,
    ) -> Seq<Effect> {
        let creator = self.fresh;
        let image = (self.fresh + 1) as u64;
        seq![Effect::CreateParametricCreator { creator }] + parameter_effects(creator, description)
            + seq![Effect::Create { creator, image, data: ImageDescriptionData { image } }]
            + self.with_written(surface, description, render_intent).manage_effects(surface)
    }

    /// Why the change of a surface's preferred description cannot be followed, if it cannot.
    pub open spec fn feedback_fault(self, surface: SurfaceId) -> Option<Fault> {
        if !self.surfaces.contains_key(surface) {
            Some(Fault::UntrackedSurface)
        } else if self.surfaces[surface].feedback is None {
            Some(Fault::MissingFeedback)
        } else {
            None
        }
    }

    /// After the preferred description of a surface changed: the new one has been asked for and
    /// is pending.
    pub open spec fn preferred_changed(self, surface: SurfaceId) -> Self {
        let image = self.fresh;
        ColorModel {
            surfaces: self.surfaces.insert(
                surface,
                ColorSurface { pending_info: Some(image), ..self.surfaces[surface] },
            ),
            images: self.images.insert(
                image,
                ImageDescriptionInner::requested(ImageDescriptionSource::Surface(surface)),
            ),
            fresh: (self.fresh + 1) as u64,
            ..self
        }
    }

    /// The request for the new preferred description of a surface.
    pub open spec fn preferred_changed_effects(self, surface: SurfaceId) -> Seq<Effect> {
        let image = self.fresh;
        seq![
            Effect::GetPreferredParametric {
                feedback: self.surfaces[surface].feedback->0,
                image,
                data: ImageDescriptionData { image },
            },
        ]
    }

    /// Whether the current description of `surface`, if it has one, is known.
    pub open spec fn surface_description_ready(self, surface: SurfaceId) -> bool {
        self.surfaces.contains_key(surface) ==> {
            let image = self.surfaces[surface].info;
            self.images.contains_key(image) && self.images[image] is Defined
        }
    }

    /// The current description of `surface`, if the surface is managed.
    pub open spec fn surface_description(self, surface: SurfaceId) -> Option<ImageDescriptionInfo> {
        if self.surfaces.contains_key(surface) {
            Some(self.images[self.surfaces[surface].info]->Defined_0)
        } else {
            None
        }
    }

    // Image descriptions.

    /// Why an event of an image description cannot be followed, if it cannot.
    pub open spec fn image_fault(
        self,
        image: ObjectId,
        event: ImageDescriptionEvent,
    ) -> Option<Fault> {
        if event is Failed {
            Some(Fault::DescriptionFailed)
        } else if self.images[image] matches ImageDescriptionInner::NotReady {
            source: ImageDescriptionSource::Surface(surface),
            info: Some(_),
        } && !self.surfaces.contains_key(surface) {
            Some(Fault::MissingSurface)
        } else {
            None
        }
    }

    /// After an image description became ready: if it was written by this client it is known;
    /// if it was asked for, the report on it begins.
    pub open spec fn image_ready(self, image: ObjectId) -> Self {
        match self.images[image] {
            ImageDescriptionInner::NotReady { info: Some((description, _)), .. } => ColorModel {
                images: self.images.insert(image, ImageDescriptionInner::Defined(description)),
                ..self
            },
            ImageDescriptionInner::NotReady { info: None, source } => ColorModel {
                images: self.images.insert(
                    image,
                    ImageDescriptionInner::Building {
                        builder: ImageDescriptionBuilder::blank(),
                        source,
                    },
                ),
                ..self
            },
            _ => self,
        }
    }

    /// The requests that follow when an image description becomes ready.
    pub open spec fn image_ready_effects(self, image: ObjectId) -> Seq<Effect> {
        match self.images[image] {
            ImageDescriptionInner::NotReady {
                source: ImageDescriptionSource::Surface(surface),
                info: Some((_, render_intent)),
            } => seq![
                Effect::SetImageDescription {
                    manager: self.surfaces[surface].manager,
                    image,
                    render_intent,
                },
                Effect::CommitSurface { surface },
            ],
            ImageDescriptionInner::NotReady { info: None, .. } => seq![
                Effect::GetInformation { image, data: ImageDescriptionData { image } },
            ],
            _ => seq![],
        }
    }

    /// Why the end of the report on an image description cannot be followed, if it cannot.
    pub open spec fn done_fault(
        self,
        builder: ImageDescriptionBuilder,
        source: ImageDescriptionSource,
    ) -> Option<Fault> {
        if missing_part(builder) is Some {
            missing_part(builder)
        } else {
            match source {
                ImageDescriptionSource::Output(output) => if self.outputs.contains_key(output)
                    && self.outputs[output].pending_info is None {
                    Some(Fault::OutputNotPending)
                } else {
                    None
                },
                ImageDescriptionSource::Surface(surface) => if self.surfaces.contains_key(surface)
                    && self.surfaces[surface].pending_info is None {
                    Some(Fault::SurfaceNotPending)
                } else {
                    None
                },
            }
        }
    }

    /// Why a part of the report on an image description cannot be followed, if it cannot.
    pub open spec fn info_fault(
        self,
        image: ObjectId,
        event: ImageDescriptionInfoEvent,
    ) -> Option<Fault> {
        match (self.images[image], event) {
            (
                ImageDescriptionInner::Building { builder, source },
                ImageDescriptionInfoEvent::Done,
            ) => self.done_fault(builder, source),
            _ => None,
        }
    }

    /// After a report on `source` ended: what was pending for it is current, if it is still
    /// tracked.
    pub open spec fn with_pending_taken(self, source: ImageDescriptionSource) -> Self {
        match source {
            ImageDescriptionSource::Output(output) => if self.outputs.contains_key(output) {
                let entry = self.outputs[output];
                ColorModel {
                    outputs: self.outputs.insert(
                        output,
                        ColorOutput {
                            info: entry.pending_info->0,
                            pending_info: None,
                            ..entry
                        },
                    ),
                    ..self
                }
            } else {
                self
            },
            ImageDescriptionSource::Surface(surface) => if self.surfaces.contains_key(surface) {
                let entry = self.surfaces[surface];
                ColorModel {
                    surfaces: self.surfaces.insert(
                        surface,
                        ColorSurface {
                            info: entry.pending_info->0,
                            pending_info: None,
                            ..entry
                        },
                    ),
                    ..self
                }
            } else {
                self
            },
        }
    }

    /// The notice that the description of `source` has changed, if it is still tracked.
    pub open spec fn update_effects(
        self,
        source: ImageDescriptionSource,
        description: ImageDescriptionInfo,
    ) -> Seq<Effect> {
        match source {
            ImageDescriptionSource::Output(output) => if self.outputs.contains_key(output) {
                seq![
                    Effect::OutputUpdate {
                        image: self.outputs[output].pending_info->0,
                        output,
                        description,
                    },
                ]
            } else {
                seq![]
            },
            ImageDescriptionSource::Surface(surface) => if self.surfaces.contains_key(surface) {
                seq![
                    Effect::SurfaceUpdate {
                        image: self.surfaces[surface].pending_info->0,
                        surface,
                        description,
                    },
                ]
            } else {
                seq![]
            },
        }
    }

    /// After a part of the report on an image description: outside of a report nothing changes;
    /// the end of the report makes the description known and current; anything else adds to it.
    pub open spec fn info_event(self, image: ObjectId, event: ImageDescriptionInfoEvent) -> Self {
        match self.images[image] {
            ImageDescriptionInner::Building { builder, source } => if event is Done {
                ColorModel {
                    images: self.images.insert(
                        image,
                        ImageDescriptionInner::Defined(builder.built()),
                    ),
                    ..self
                }.with_pending_taken(source)
            } else {
                ColorModel {
                    images: self.images.insert(
                        image,
                        ImageDescriptionInner::Building { builder: builder.with(event), source },
                    ),
                    ..self
                }
            },
            _ => self,
        }
    }

    /// The notices that follow a part of the report on an image description.
    pub open spec fn info_event_effects(
        self,
        image: ObjectId,
        event: ImageDescriptionInfoEvent,
    ) -> Seq<Effect> {
        match self.images[image] {
            ImageDescriptionInner::Building { builder, source } => if event is Done {
                self.update_effects(source, builder.built())
            } else {
                seq![]
            },
            _ => seq![],
        }
    }

    // The compositor.

    /// After the color manager reported something that the compositor supports.
    pub open spec fn manager_event(self, event: ColorManagerEvent) -> Self {
        match event {
            ColorManagerEvent::Done => self,
            ColorManagerEvent::SupportedFeature { feature } => ColorModel {
                supported_features: self.supported_features.push(feature),
                ..self
            },
            ColorManagerEvent::SupportedPrimariesNamed { primaries } => ColorModel {
                supported_primaries: self.supported_primaries.push(primaries),
                ..self
            },
            ColorManagerEvent::SupportedIntent { render_intent } => ColorModel {
                supported_idents: self.supported_idents.push(render_intent),
                ..self
            },
            ColorManagerEvent::SupportedTfNamed { tf } => ColorModel {
                supported_tfs: self.supported_tfs.push(tf),
                ..self
            },
        }
    }

    /// The notice that follows when everything has been reported.
    pub open spec fn manager_event_effects(self, event: ColorManagerEvent) -> Seq<Effect> {
        if event is Done {
            seq![Effect::CompositorFeatures]
        } else {
            seq![]
        }
    }
}

} // verus!
