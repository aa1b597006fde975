//! What the color state asks of the program around it.
use vstd::prelude::*;

use crate::description::{ImageDescriptionInfo, RenderIntent};
use crate::parameters::Parameter;

verus! {

/// Stands for an output of the compositor.
pub type OutputId = u64;

/// Stands for a surface of this client.
pub type SurfaceId = u64;

/// Stands for a protocol object that this client has created.
pub type ObjectId = u64;

/// What is attached to the color management object of an output.
#[derive(Clone, Copy, Debug, PartialEq, Eq)]
pub struct OutputFeedbackData {
    pub output: OutputId,
}

/// What is attached to the color feedback object of a surface.
#[derive(Clone, Copy, Debug, PartialEq, Eq)]
pub struct SurfaceFeedbackData {
    pub surface: SurfaceId,
}

/// What is attached to an image description and to the reports on it: the image description
/// under which the color state keeps what it knows.
#[derive(Clone, Copy, Debug, PartialEq, Eq)]
pub struct ImageDescriptionData {
    pub image: ObjectId,
}

/// A request to the compositor, or a notice to the program. An object that a request creates is
/// named in it.
#[allow(inconsistent_fields)]
#[derive(Clone, Copy, Debug, PartialEq, Eq)]
pub enum Effect {
    /// Create the color management object `manager` of an output.
    GetOutput { output: OutputId, manager: ObjectId, data: OutputFeedbackData },
    /// Ask `manager` for the image description of its output: `image`.
    GetImageDescription { manager: ObjectId, image: ObjectId, data: ImageDescriptionData },
    /// Create the color management object `manager` of a surface.
    GetSurface { surface: SurfaceId, manager: ObjectId },
    /// Create the color feedback object `feedback` of a surface.
    GetSurfaceFeedback { surface: SurfaceId, feedback: ObjectId, data: SurfaceFeedbackData },
    /// Ask `feedback` for the preferred image description of its surface: `image`.
    GetPreferredParametric { feedback: ObjectId, image: ObjectId, data: ImageDescriptionData },
    /// Create the parametric image description creator `creator`.
    CreateParametricCreator { creator: ObjectId },
    /// Set a parameter on `creator`.
    SetParameter { creator: ObjectId, parameter: Parameter },
    /// Have `creator` make the image description `image`.
    Create { creator: ObjectId, image: ObjectId, data: ImageDescriptionData },
    /// Describe the contents of the surface of `manager` by `image`.
    SetImageDescription { manager: ObjectId, image: ObjectId, render_intent: RenderIntent },
    /// Commit the pending state of a surface.
    CommitSurface { surface: SurfaceId },
    /// Ask for a report on `image`.
    GetInformation { image: ObjectId, data: ImageDescriptionData },
    /// Tell the program that all compositor features are known.
    CompositorFeatures,
    /// Tell the program that the description of a tracked output has changed.
    OutputUpdate { image: ObjectId, output: OutputId, description: ImageDescriptionInfo },
    /// Tell the program that the preferred description of a tracked surface has changed.
    SurfaceUpdate { image: ObjectId, surface: SurfaceId, description: ImageDescriptionInfo },
}

} // verus!
