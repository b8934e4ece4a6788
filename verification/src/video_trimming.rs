//! Cutting a part out of a video into a file of its own: the check on what is
//! asked for, and the arguments with which FFmpeg does it.

use vstd::prelude::*;
use crate::decimal::{clip, format_millionths, millionths_text, span};
use crate::error::{Failure, PipelineError};
use crate::media::{VideoData, VideoView};
use crate::paths::{extension, file_name, split_location};
use crate::text::{no_texts, push_pair, push_text, views};
use crate::validate::{verdict, MAX_WINDOW};

verus! {

/// What a cut is asked to do. Times are in microseconds.
#[derive(Debug)]
pub struct VideoTrimmingParams {
    pub input_path: String,
    pub output_path: String,
    pub start_time: i64,
    pub end_time: i64,
}

/// `VideoTrimmingParams` with its texts as plain sequences of characters.
pub struct VideoTrimmingView {
    pub input_path: Seq<char>,
    pub output_path: Seq<char>,
    pub start_time: i64,
    pub end_time: i64,
}

impl View for VideoTrimmingParams {
    type V = VideoTrimmingView;

    open spec fn view(&self) -> VideoTrimmingView {
        VideoTrimmingView {
            input_path: self.input_path@,
            output_path: self.output_path@,
            start_time: self.start_time,
            end_time: self.end_time,
        }
    }
}

/// What `validate_trim_params` answers: the input must exist, the cut must
/// start at zero or later and end after it starts, and it must not be longer
/// than 24 hours.
pub open spec fn trim_check(params: VideoTrimmingView, input_exists: bool) -> Result<(), Failure> {
    if !input_exists {
        Err(Failure::FileNotFound(params.input_path))
    } else if params.start_time < 0 {
        Err(Failure::InvalidNodeConfig("Start time cannot be negative"@))
    } else if params.end_time <= params.start_time {
        Err(Failure::InvalidNodeConfig("End time must be greater than start time"@))
    } else if params.end_time - params.start_time > MAX_WINDOW {
        Err(Failure::InvalidNodeConfig("Trim duration cannot exceed 24 hours"@))
    } else {
        Ok(())
    }
}

/// The arguments with which FFmpeg cuts exactly: it looks for the start
/// behind the input and encodes picture and sound anew.
pub open spec fn trim_arguments(params: VideoTrimmingView) -> Seq<Seq<char>> {
    seq![
        "-y"@,
        "-i"@,
        params.input_path,
        "-ss"@,
        millionths_text(params.start_time),
        "-t"@,
        millionths_text(clip(params.end_time - params.start_time)),
        "-c:v"@,
        "libx264"@,
        "-c:a"@,
        "aac"@,
        "-avoid_negative_ts"@,
        "make_zero"@,
        "-fflags"@,
        "+genpts"@,
        params.output_path,
    ]
}

/// The arguments with which FFmpeg cuts fast: it looks for the start before
/// the input and copies picture and sound, so that the cut falls on a key
/// frame.
pub open spec fn keyframe_trim_arguments(params: VideoTrimmingView) -> Seq<Seq<char>> {
    seq![
        "-y"@,
        "-ss"@,
        millionths_text(params.start_time),
        "-i"@,
        params.input_path,
        "-t"@,
        millionths_text(clip(params.end_time - params.start_time)),
        "-c"@,
        "copy"@,
        "-avoid_negative_ts"@,
        "make_zero"@,
        params.output_path,
    ]
}

/// The artifact that a cut leaves: the output, in the input's format, as long
/// as the cut.
pub open spec fn trimmed(params: VideoTrimmingView) -> VideoView {
    VideoView {
        path: params.output_path,
        format: match extension(file_name(params.input_path)) {
            Some(text) => text,
            None => Seq::empty(),
        },
        width: 1920,
        height: 1080,
        duration: clip(params.end_time - params.start_time),
    }
}

/// The service that cuts videos.
pub struct VideoTrimmingService;

impl VideoTrimmingService {
    pub fn new() -> (service: Self) {
        VideoTrimmingService
    }

    /// Accepts a cut if and only if its input exists and its times are in
    /// order. Whether the input exists is for the caller to find out.
    pub fn validate_trim_params(&self, params: &VideoTrimmingParams, input_exists: bool) -> (result:
        Result<(), PipelineError>)
        ensures
            verdict(result) == trim_check(params@, input_exists),
    {
        if !input_exists {
            Err(PipelineError::FileNotFound(params.input_path.clone()))
        } else if params.start_time < 0 {
            Err(PipelineError::InvalidNodeConfig(String::from_str("Start time cannot be negative")))
        } else if params.end_time <= params.start_time {
            Err(
                PipelineError::InvalidNodeConfig(
                    String::from_str("End time must be greater than start time"),
                ),
            )
        } else if params.end_time - params.start_time > MAX_WINDOW {
            Err(
                PipelineError::InvalidNodeConfig(
                    String::from_str("Trim duration cannot exceed 24 hours"),
                ),
            )
        } else {
            Ok(())
        }
    }

    /// The arguments with which FFmpeg cuts exactly.
    pub fn trim_video(&self, params: &VideoTrimmingParams) -> (args: Vec<String>)
        ensures
            views(args@) == trim_arguments(params@),
    {
        let mut args = no_texts();
        push_text(&mut args, "-y");
        push_pair(&mut args, "-i", params.input_path.as_str());
        push_pair(&mut args, "-ss", format_millionths(params.start_time).as_str());
        push_pair(
            &mut args,
            "-t",
            format_millionths(span(params.start_time, params.end_time)).as_str(),
        );
        push_pair(&mut args, "-c:v", "libx264");
        push_pair(&mut args, "-c:a", "aac");
        push_pair(&mut args, "-avoid_negative_ts", "make_zero");
        push_pair(&mut args, "-fflags", "+genpts");
        push_text(&mut args, params.output_path.as_str());
        assert(views(args@) =~= trim_arguments(params@));
        args
    }

    /// The arguments with which FFmpeg cuts fast.
    pub fn trim_with_keyframes(&self, params: &VideoTrimmingParams) -> (args: Vec<String>)
        ensures
            views(args@) == keyframe_trim_arguments(params@),
    {
        let mut args = no_texts();
        push_text(&mut args, "-y");
        push_pair(&mut args, "-ss", format_millionths(params.start_time).as_str());
        push_pair(&mut args, "-i", params.input_path.as_str());
        push_pair(
            &mut args,
            "-t",
            format_millionths(span(params.start_time, params.end_time)).as_str(),
        );
        push_pair(&mut args, "-c", "copy");
        push_pair(&mut args, "-avoid_negative_ts", "make_zero");
        push_text(&mut args, params.output_path.as_str());
        assert(views(args@) =~= keyframe_trim_arguments(params@));
        args
    }

    /// The artifact that a cut leaves.
    pub fn trimmed_video(&self, params: &VideoTrimmingParams) -> (video: VideoData)
        ensures
            video@ == trimmed(params@),
    {
        let (_, _, found) = split_location(params.input_path.as_str());
        VideoData {
            path: params.output_path.clone(),
            format: match found {
                Some(text) => text,
                None => String::new(),
            },
            width: 1920,
            height: 1080,
            duration: span(params.start_time, params.end_time),
        }
    }
}

} // verus!
