//! What flows between nodes: references to media items, trim windows and
//! comparison scores. Times are whole microseconds and scores are millionths
//! of a point, so that every value is an integer.

use vstd::prelude::*;

verus! {

/// A media item that a node has produced or passed on.
#[derive(Debug)]
pub struct VideoData {
    /// Where the item lies.
    pub path: String,
    /// The container format, as the file's extension names it.
    pub format: String,
    /// Width in pixels; 0 for sound.
    pub width: u32,
    /// Height in pixels; 0 for sound.
    pub height: u32,
    /// Length in microseconds.
    pub duration: i64,
}

/// A `VideoData` with its texts as plain sequences of characters.
pub struct VideoView {
    pub path: Seq<char>,
    pub format: Seq<char>,
    pub width: u32,
    pub height: u32,
    pub duration: i64,
}

impl View for VideoData {
    type V = VideoView;

    open spec fn view(&self) -> VideoView {
        VideoView {
            path: self.path@,
            format: self.format@,
            width: self.width,
            height: self.height,
            duration: self.duration,
        }
    }
}

impl Clone for VideoData {
    fn clone(&self) -> (copy: Self)
        ensures
            copy == *self,
    {
        VideoData {
            path: self.path.clone(),
            format: self.format.clone(),
            width: self.width,
            height: self.height,
            duration: self.duration,
        }
    }
}

/// A sound item, as the media backend describes it.
#[derive(Debug)]
pub struct AudioData {
    pub path: String,
    pub format: String,
    /// Length in microseconds.
    pub duration: i64,
    pub sample_rate: Option<u32>,
    pub channels: Option<u32>,
}

/// An `AudioData` with its texts as plain sequences of characters.
pub struct AudioView {
    pub path: Seq<char>,
    pub format: Seq<char>,
    pub duration: i64,
    pub sample_rate: Option<u32>,
    pub channels: Option<u32>,
}

impl View for AudioData {
    type V = AudioView;

    open spec fn view(&self) -> AudioView {
        AudioView {
            path: self.path@,
            format: self.format@,
            duration: self.duration,
            sample_rate: self.sample_rate,
            channels: self.channels,
        }
    }
}

/// A trim window on a media item, in microseconds from its start.
#[derive(Debug, Clone, Copy, PartialEq, Eq, Structural)]
pub struct TrimData {
    pub start_time: i64,
    pub end_time: i64,
    /// `end_time - start_time`, which may be more than 64 bits hold.
    pub duration: i128,
}

/// The outcome of comparing a distorted item with its reference. The four
/// scores are in millionths of a point.
#[derive(Debug)]
pub struct VmafScore {
    pub mean: i64,
    pub min: i64,
    pub max: i64,
    pub harmonic_mean: i64,
    pub frame_count: u32,
    pub model: String,
    pub reference_path: String,
    pub distorted_path: String,
}

/// A `VmafScore` with its texts as plain sequences of characters.
pub struct ScoreView {
    pub mean: i64,
    pub min: i64,
    pub max: i64,
    pub harmonic_mean: i64,
    pub frame_count: u32,
    pub model: Seq<char>,
    pub reference_path: Seq<char>,
    pub distorted_path: Seq<char>,
}

impl View for VmafScore {
    type V = ScoreView;

    open spec fn view(&self) -> ScoreView {
        ScoreView {
            mean: self.mean,
            min: self.min,
            max: self.max,
            harmonic_mean: self.harmonic_mean,
            frame_count: self.frame_count,
            model: self.model@,
            reference_path: self.reference_path@,
            distorted_path: self.distorted_path@,
        }
    }
}

impl Clone for VmafScore {
    fn clone(&self) -> (copy: Self)
        ensures
            copy == *self,
    {
        VmafScore {
            mean: self.mean,
            min: self.min,
            max: self.max,
            harmonic_mean: self.harmonic_mean,
            frame_count: self.frame_count,
            model: self.model.clone(),
            reference_path: self.reference_path.clone(),
            distorted_path: self.distorted_path.clone(),
        }
    }
}

} // verus!
