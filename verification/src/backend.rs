//! The media backend, seen from the engine: what the engine asks of it and
//! what it answers. The engine never runs a tool or reads a disk; it hands out
//! a request, and whoever drives it performs the request and hands back the
//! response.

use vstd::prelude::*;
use crate::audio_conversion::{AudioConversionParams, AudioConversionView};
use crate::frame_extraction::{FrameExtractionParams, FrameExtractionView};
use crate::media::{AudioData, AudioView, ScoreView, TrimData, VideoData, VideoView, VmafScore};
use crate::text::text_of;
use crate::video_conversion::{ConversionParams, ConversionView};

verus! {

/// Outside work that a node needs done.
#[derive(Debug)]
#[allow(inconsistent_fields)]
pub enum Request {
    /// Is there a file at `path`?
    FileExists { path: String },
    /// The basic properties of the video at `path`.
    VideoInfo { path: String },
    /// The length and format of the sound at `path`.
    AudioInfo { path: String },
    /// A full inspection of the video at `path`; only success or failure comes
    /// back.
    VideoMetadata { path: String },
    /// Convert a video.
    ConvertVideo { params: ConversionParams },
    /// Convert sound.
    ConvertAudio { params: AudioConversionParams },
    /// Create the directory `path` and what is missing above it.
    CreateDirectory { path: String },
    /// Extract frames, from within `trim` where there is one.
    ExtractFrames { params: FrameExtractionParams, trim: Option<TrimData> },
    /// Score `distorted_path` against `reference_path`.
    CalculateVmaf { reference_path: String, distorted_path: String, model: Option<String> },
}

/// A `Request` with its texts as plain sequences of characters.
#[allow(inconsistent_fields)]
pub enum RequestView {
    FileExists { path: Seq<char> },
    VideoInfo { path: Seq<char> },
    AudioInfo { path: Seq<char> },
    VideoMetadata { path: Seq<char> },
    ConvertVideo { params: ConversionView },
    ConvertAudio { params: AudioConversionView },
    CreateDirectory { path: Seq<char> },
    ExtractFrames { params: FrameExtractionView, trim: Option<TrimData> },
    CalculateVmaf { reference_path: Seq<char>, distorted_path: Seq<char>, model: Option<Seq<char>> },
}

impl View for Request {
    type V = RequestView;

    open spec fn view(&self) -> RequestView {
        match self {
            Request::FileExists { path } => RequestView::FileExists { path: path@ },
            Request::VideoInfo { path } => RequestView::VideoInfo { path: path@ },
            Request::AudioInfo { path } => RequestView::AudioInfo { path: path@ },
            Request::VideoMetadata { path } => RequestView::VideoMetadata { path: path@ },
            Request::ConvertVideo { params } => RequestView::ConvertVideo { params: params@ },
            Request::ConvertAudio { params } => RequestView::ConvertAudio { params: params@ },
            Request::CreateDirectory { path } => RequestView::CreateDirectory { path: path@ },
            Request::ExtractFrames { params, trim } => RequestView::ExtractFrames {
                params: params@,
                trim: *trim,
            },
            Request::CalculateVmaf { reference_path, distorted_path, model } => RequestView::CalculateVmaf {
                reference_path: reference_path@,
                distorted_path: distorted_path@,
                model: text_of(*model),
            },
        }
    }
}

/// What came of a request.
#[derive(Debug)]
pub enum Response {
    /// The answer to `FileExists`.
    Exists(bool),
    /// The answer to `VideoInfo` and to `ConvertVideo`.
    Video(VideoData),
    /// The answer to `AudioInfo`: length in microseconds, and format.
    AudioInfo { duration: i64, format: String },
    /// The answer to `ConvertAudio`.
    Audio(AudioData),
    /// The request was carried out and there is nothing to report.
    Done,
    /// The answer to `CalculateVmaf`.
    Score(VmafScore),
    /// The request failed, for this reason.
    Failed(String),
}

/// A `Response` with its texts as plain sequences of characters.
pub enum ResponseView {
    Exists(bool),
    Video(VideoView),
    AudioInfo { duration: i64, format: Seq<char> },
    Audio(AudioView),
    Done,
    Score(ScoreView),
    Failed(Seq<char>),
}

impl View for Response {
    type V = ResponseView;

    open spec fn view(&self) -> ResponseView {
        match self {
            Response::Exists(found) => ResponseView::Exists(*found),
            Response::Video(video) => ResponseView::Video(video@),
            Response::AudioInfo { duration, format } => ResponseView::AudioInfo {
                duration: *duration,
                format: format@,
            },
            Response::Audio(audio) => ResponseView::Audio(audio@),
            Response::Done => ResponseView::Done,
            Response::Score(score) => ResponseView::Score(score@),
            Response::Failed(reason) => ResponseView::Failed(reason@),
        }
    }
}

} // verus!
