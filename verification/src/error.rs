//! The ways in which running a pipeline can fail.

use vstd::prelude::*;
use crate::text::join;

verus! {

/// A failure raised while ordering, dispatching or reporting.
#[derive(Debug)]
pub enum PipelineError {
    /// The media tool ran and failed, or could not be run.
    FFmpegFailed(String),
    /// A location that a node refers to does not exist.
    FileNotFound(String),
    /// A node's configuration or wiring is missing something or out of range.
    InvalidNodeConfig(String),
    /// Reading or writing failed outside the engine.
    IoError(String),
    /// An output directory could not be created.
    DirectoryCreationFailed(String),
    /// A location cannot be taken apart into directory and file name.
    InvalidPath(String),
    /// The connections admit no processing order.
    CircularDependency,
    /// The named node has produced no artifact.
    MissingResult(String),
    /// No trim window is registered for the named location.
    NoRangeData(String),
    /// The dispatcher knows no node kind of this name.
    UnknownNodeKind(String),
}

/// A failure with its texts as plain sequences of characters.
pub enum Failure {
    FFmpegFailed(Seq<char>),
    FileNotFound(Seq<char>),
    InvalidNodeConfig(Seq<char>),
    IoError(Seq<char>),
    DirectoryCreationFailed(Seq<char>),
    InvalidPath(Seq<char>),
    CircularDependency,
    MissingResult(Seq<char>),
    NoRangeData(Seq<char>),
    UnknownNodeKind(Seq<char>),
}

impl Failure {
    /// The text that describes this failure to a user.
    pub open spec fn message(self) -> Seq<char> {
        match self {
            Failure::FFmpegFailed(detail) => "FFmpeg execution failed: "@ + detail,
            Failure::FileNotFound(path) => "File not found: "@ + path,
            Failure::InvalidNodeConfig(detail) => "Invalid node configuration: "@ + detail,
            Failure::IoError(detail) => "IO error: "@ + detail,
            Failure::DirectoryCreationFailed(detail) => "Failed to create directory: "@ + detail,
            Failure::InvalidPath(path) => "Invalid path: "@ + path,
            Failure::CircularDependency => "Pipeline contains a circular dependency"@,
            Failure::MissingResult(node) => "No result found for node: "@ + node,
            Failure::NoRangeData(path) => "No trim data found for video: "@ + path,
            Failure::UnknownNodeKind(kind) => "Unknown node type: "@ + kind,
        }
    }
}

impl View for PipelineError {
    type V = Failure;

    open spec fn view(&self) -> Failure {
        match self {
            PipelineError::FFmpegFailed(detail) => Failure::FFmpegFailed(detail@),
            PipelineError::FileNotFound(path) => Failure::FileNotFound(path@),
            PipelineError::InvalidNodeConfig(detail) => Failure::InvalidNodeConfig(detail@),
            PipelineError::IoError(detail) => Failure::IoError(detail@),
            PipelineError::DirectoryCreationFailed(detail) => Failure::DirectoryCreationFailed(
                detail@,
            ),
            PipelineError::InvalidPath(path) => Failure::InvalidPath(path@),
            PipelineError::CircularDependency => Failure::CircularDependency,
            PipelineError::MissingResult(node) => Failure::MissingResult(node@),
            PipelineError::NoRangeData(path) => Failure::NoRangeData(path@),
            PipelineError::UnknownNodeKind(kind) => Failure::UnknownNodeKind(kind@),
        }
    }
}

impl PipelineError {
    /// Renders the failure as text.
    pub fn message(&self) -> (text: String)
        ensures
            text@ == self@.message(),
    {
        match self {
            PipelineError::FFmpegFailed(detail) => join("FFmpeg execution failed: ", detail.as_str()),
            PipelineError::FileNotFound(path) => join("File not found: ", path.as_str()),
            PipelineError::InvalidNodeConfig(detail) => join(
                "Invalid node configuration: ",
                detail.as_str(),
            ),
            PipelineError::IoError(detail) => join("IO error: ", detail.as_str()),
            PipelineError::DirectoryCreationFailed(detail) => join(
                "Failed to create directory: ",
                detail.as_str(),
            ),
            PipelineError::InvalidPath(path) => join("Invalid path: ", path.as_str()),
            PipelineError::CircularDependency => String::from_str(
                "Pipeline contains a circular dependency",
            ),
            PipelineError::MissingResult(node) => join("No result found for node: ", node.as_str()),
            PipelineError::NoRangeData(path) => join(
                "No trim data found for video: ",
                path.as_str(),
            ),
            PipelineError::UnknownNodeKind(kind) => join("Unknown node type: ", kind.as_str()),
        }
    }
}

} // verus!
