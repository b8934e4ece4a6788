//! Trimming without cutting: the item stays as it is, and only its trim
//! window is known. What is left to do is to check the window and to read the
//! properties of the item.

use vstd::prelude::*;
use crate::connections::outcome;
use crate::error::{Failure, PipelineError};
use crate::media::{AudioData, AudioView, VideoData, VideoView};
use crate::probe::{audio_data, video_info, AudioInfoService, VideoInfoService};

verus! {

/// The trim window of a video. Times are in microseconds.
#[derive(Debug)]
pub struct TrimParams {
    pub input_path: String,
    /// Where a cut would go; unused as long as nothing is cut.
    pub output_path: String,
    pub start_time: i64,
    pub end_time: i64,
    /// Whether to cut a file; never set.
    pub create_file: bool,
}

/// The trim window of a sound item. Times are in microseconds.
#[derive(Debug)]
pub struct TrimAudioParams {
    pub input_path: String,
    /// Where a cut would go; unused as long as nothing is cut.
    pub output_path: String,
    pub start_time: i64,
    pub end_time: i64,
    /// Whether to cut a file; never set.
    pub create_file: bool,
}

/// The failure for a window that ends where it starts, or before.
pub open spec fn empty_window() -> Failure {
    Failure::InvalidNodeConfig("End time must be greater than start time"@)
}

/// What trimming a video answers: the input must exist and the window must
/// end after it starts; then the answer is the input itself with its
/// properties, as FFprobe's report `output` gives them.
pub open spec fn video_trim(
    input_path: Seq<char>,
    start_time: i64,
    end_time: i64,
    input_exists: bool,
    output: Seq<char>,
) -> Result<VideoView, Failure> {
    if !input_exists {
        Err(Failure::FileNotFound(input_path))
    } else if end_time <= start_time {
        Err(empty_window())
    } else {
        video_info(input_path, output)
    }
}

/// What trimming a sound item answers.
pub open spec fn audio_trim(
    input_path: Seq<char>,
    start_time: i64,
    end_time: i64,
    input_exists: bool,
    output: Seq<char>,
) -> Result<AudioView, Failure> {
    if !input_exists {
        Err(Failure::FileNotFound(input_path))
    } else if end_time <= start_time {
        Err(empty_window())
    } else {
        audio_data(input_path, output)
    }
}

fn empty() -> (error: PipelineError)
    ensures
        error@ == empty_window(),
{
    PipelineError::InvalidNodeConfig(String::from_str("End time must be greater than start time"))
}

/// The service that trims videos.
pub struct TrimService;

impl TrimService {
    pub fn new() -> (service: Self) {
        TrimService
    }

    /// Checks the window and hands back the input with its properties.
    /// Whether the input exists, and what FFprobe reports on it, is for the
    /// caller to find out.
    pub fn trim_video(&self, params: &TrimParams, input_exists: bool, probe_output: &str) -> (result:
        Result<VideoData, PipelineError>)
        ensures
            outcome(result) == video_trim(
                params.input_path@,
                params.start_time,
                params.end_time,
                input_exists,
                probe_output@,
            ),
    {
        if !input_exists {
            Err(PipelineError::FileNotFound(params.input_path.clone()))
        } else if params.end_time <= params.start_time {
            Err(empty())
        } else {
            self.get_original_video_info(params.input_path.as_str(), probe_output)
        }
    }

    /// The properties of the video at `input_path`, from FFprobe's report on
    /// it.
    pub fn get_original_video_info(&self, input_path: &str, probe_output: &str) -> (result: Result<
        VideoData,
        PipelineError,
    >)
        ensures
            outcome(result) == video_info(input_path@, probe_output@),
    {
        VideoInfoService::new().get_video_info(input_path, probe_output)
    }
}

/// The service that trims sound.
pub struct TrimAudioService;

impl TrimAudioService {
    pub fn new() -> (service: Self) {
        TrimAudioService
    }

    /// Checks the window and hands back the input with its properties.
    /// Whether the input exists, and what FFprobe reports on it, is for the
    /// caller to find out.
    pub fn trim_audio(&self, params: &TrimAudioParams, input_exists: bool, probe_output: &str) -> (result:
        Result<AudioData, PipelineError>)
        ensures
            outcome(result) == audio_trim(
                params.input_path@,
                params.start_time,
                params.end_time,
                input_exists,
                probe_output@,
            ),
    {
        if !input_exists {
            Err(PipelineError::FileNotFound(params.input_path.clone()))
        } else if params.end_time <= params.start_time {
            Err(empty())
        } else {
            self.get_original_audio_info(params.input_path.as_str(), probe_output)
        }
    }

    /// The properties of the sound at `input_path`, from FFprobe's report on
    /// it.
    pub fn get_original_audio_info(&self, input_path: &str, probe_output: &str) -> (result: Result<
        AudioData,
        PipelineError,
    >)
        ensures
            outcome(result) == audio_data(input_path@, probe_output@),
    {
        AudioInfoService::new().get_audio_data(input_path, probe_output)
    }
}

} // verus!
