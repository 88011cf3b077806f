//! The tagged error that every stage reports.

use vstd::prelude::*;

verus! {

/// What went wrong, by the stage that noticed it.
#[derive(Clone, Copy, Debug, PartialEq, Eq, Structural)]
pub enum ErrorKind {
    /// The input could not be read, decoded or assembled into a raster.
    InputError,
    /// A stage was handed a value outside its domain, such as a raster with
    /// no samples.
    PreconditionViolation,
    /// A result could not be written to its destination.
    OutputError,
}

/// An error kind together with a message for people.
#[derive(Debug)]
pub struct DepthMapError {
    pub kind: ErrorKind,
    pub message: String,
}

/// Message of the error for a sample buffer whose length is not width times height.
pub open spec fn size_mismatch_message() -> Seq<char> {
    "sample count does not match width times height"@
}

/// Message of the error for a raster without samples.
pub open spec fn empty_raster_message() -> Seq<char> {
    "depth map has no samples"@
}

impl DepthMapError {
    /// Builds an error of the given kind.
    pub fn new(kind: ErrorKind, message: &str) -> (e: DepthMapError)
        ensures
            e.kind == kind,
            e.message@ == message@,
    {
        DepthMapError { kind, message: message.to_owned() }
    }

    /// The error for an input whose sample buffer does not fit its dimensions.
    pub fn size_mismatch() -> (e: DepthMapError)
        ensures
            e.kind == ErrorKind::InputError,
            e.message@ == size_mismatch_message(),
    {
        DepthMapError::new(ErrorKind::InputError, "sample count does not match width times height")
    }

    /// The error for a raster that has no samples.
    pub fn empty_raster() -> (e: DepthMapError)
        ensures
            e.kind == ErrorKind::PreconditionViolation,
            e.message@ == empty_raster_message(),
    {
        DepthMapError::new(ErrorKind::PreconditionViolation, "depth map has no samples")
    }

    /// The name under which the error's kind is shown.
    pub fn kind_name(&self) -> (name: &'static str)
        ensures
            name@ == kind_label(self.kind),
    {
        match self.kind {
            ErrorKind::InputError => "input error",
            ErrorKind::PreconditionViolation => "precondition violation",
            ErrorKind::OutputError => "output error",
        }
    }
}

/// The name under which a kind is shown.
pub open spec fn kind_label(kind: ErrorKind) -> Seq<char> {
    match kind {
        ErrorKind::InputError => "input error"@,
        ErrorKind::PreconditionViolation => "precondition violation"@,
        ErrorKind::OutputError => "output error"@,
    }
}

} // verus!
