//! Why an event or a request cannot be carried out.
use vstd::prelude::*;

verus! {

/// A condition under which a color operation has no outcome, so that its caller must give up.
#[derive(Clone, Copy, Debug, PartialEq, Eq)]
pub enum Fault {
    /// An event came for an output that is not tracked.
    UntrackedOutput,
    /// An event came for a surface that is not tracked.
    UntrackedSurface,
    /// A feedback event came for a surface that has no feedback object.
    MissingFeedback,
    /// The compositor could not make an image description.
    DescriptionFailed,
    /// A description became ready for a surface that has been released.
    MissingSurface,
    /// A report ended without primaries.
    MissingPrimaries,
    /// A report ended without a transfer function.
    MissingEotf,
    /// A report ended without a luminance range.
    MissingLumaRange,
    /// A report ended without a reference white luminance.
    MissingRefLuma,
    /// A report on an output ended while none was pending for it.
    OutputNotPending,
    /// A report on a surface ended while none was pending for it.
    SurfaceNotPending,
    /// A description names primaries that the protocol does not know.
    UnknownPrimaries,
    /// A description names a transfer function that the protocol does not know.
    UnknownEotf,
    /// A description names its mastering primaries, which cannot be sent.
    NamedMasteringPrimaries,
    /// The description of a surface was asked for before it was there.
    DescriptionNotReady,
}

impl Fault {
    /// The words for each fault.
    pub open spec fn text(self) -> Seq<char> {
        match self {
            Fault::UntrackedOutput => "Got event on untracked output"@,
            Fault::UntrackedSurface => "Got event on untracked surface"@,
            Fault::MissingFeedback => "Surface has no feedback object"@,
            Fault::DescriptionFailed => "Failed image descriptions are not supported"@,
            Fault::MissingSurface => "Surface doesn't exist"@,
            Fault::MissingPrimaries => "Missing primaries"@,
            Fault::MissingEotf => "Missing EOTF"@,
            Fault::MissingLumaRange => "Missing luma range"@,
            Fault::MissingRefLuma => "Missing reference white luminance"@,
            Fault::OutputNotPending => "Output info should be pending"@,
            Fault::SurfaceNotPending => "Surface info should be pending"@,
            Fault::UnknownPrimaries => "Unknown named primary supplied to set_surface_description"@,
            Fault::UnknownEotf =>
                "Unknown named transfer function supplied to set_surface_description"@,
            Fault::NamedMasteringPrimaries =>
                "Named mastering primaries are not supported in set_surface_description"@,
            Fault::DescriptionNotReady => "Surface description is not ready"@,
        }
    }

    /// Says what went wrong.
    pub fn message(&self) -> (message: &'static str)
        ensures
            message@ == self.text(),
    {
        match self {
            Fault::UntrackedOutput => "Got event on untracked output",
            Fault::UntrackedSurface => "Got event on untracked surface",
            Fault::MissingFeedback => "Surface has no feedback object",
            Fault::DescriptionFailed => "Failed image descriptions are not supported",
            Fault::MissingSurface => "Surface doesn't exist",
            Fault::MissingPrimaries => "Missing primaries",
            Fault::MissingEotf => "Missing EOTF",
            Fault::MissingLumaRange => "Missing luma range",
            Fault::MissingRefLuma => "Missing reference white luminance",
            Fault::OutputNotPending => "Output info should be pending",
            Fault::SurfaceNotPending => "Surface info should be pending",
            Fault::UnknownPrimaries => "Unknown named primary supplied to set_surface_description",
            Fault::UnknownEotf =>
                "Unknown named transfer function supplied to set_surface_description",
            Fault::NamedMasteringPrimaries =>
                "Named mastering primaries are not supported in set_surface_description",
            Fault::DescriptionNotReady => "Surface description is not ready",
        }
    }
}

} // verus!
