//! Scoring a distorted video against its reference with VMAF: the arguments
//! with which FFmpeg does it, and what its output says.

use vstd::prelude::*;
use crate::connections::outcome;
use crate::decimal::{decimal_millionths, parse_decimal, parse_unsigned, unsigned_value};
use crate::error::{Failure, PipelineError};
use crate::media::{ScoreView, VmafScore};
use crate::scan::{find_word, occurs_at, stands_at, word_after};
use crate::text::{chars_of, no_texts, push_pair, push_text, same, views};
use crate::validate::verdict;

verus! {

/// The highest score: a hundred points, in millionths.
pub const FULL_SCORE: i64 = 100000000;

/// The arguments with which FFmpeg scores `distorted_path` against
/// `reference_path`: the distorted video is the first input and the reference
/// the second, and no output is written.
pub open spec fn vmaf_arguments(reference_path: Seq<char>, distorted_path: Seq<char>) -> Seq<
    Seq<char>,
> {
    seq![
        "-i"@,
        distorted_path,
        "-i"@,
        reference_path,
        "-lavfi"@,
        "[0:v][1:v]libvmaf"@,
        "-f"@,
        "null"@,
        "-"@,
    ]
}

/// What `validate_vmaf_inputs` answers: both files must exist, and they must
/// not be one and the same.
pub open spec fn inputs_check(
    reference_path: Seq<char>,
    distorted_path: Seq<char>,
    reference_exists: bool,
    distorted_exists: bool,
) -> Result<(), Failure> {
    if !reference_exists {
        Err(Failure::FileNotFound(reference_path))
    } else if !distorted_exists {
        Err(Failure::FileNotFound(distorted_path))
    } else if reference_path == distorted_path {
        Err(
            Failure::InvalidNodeConfig(
                "Reference and distorted videos must be different files"@,
            ),
        )
    } else {
        Ok(())
    }
}

/// The first score that `text` reports from place `from` on: the first word
/// behind `VMAF score:` that is a number from 0 to 100, in millionths.
pub open spec fn score_in(text: Seq<char>, from: int) -> Option<i64>
    decreases text.len() - from,
{
    let marker = "VMAF score:"@;
    if from < 0 || from >= text.len() {
        None
    } else if occurs_at(text, marker, from) && (decimal_millionths(
        word_after(text, from + marker.len()),
    ) matches Some(score) && 0 <= score <= FULL_SCORE) {
        decimal_millionths(word_after(text, from + marker.len()))
    } else {
        score_in(text, from + 1)
    }
}

/// The first frame count that `text` reports from place `from` on: the first
/// word behind `frame=` that is a whole number of 32 bits.
pub open spec fn frames_in(text: Seq<char>, from: int) -> Option<u32>
    decreases text.len() - from,
{
    let marker = "frame="@;
    if from < 0 || from >= text.len() {
        None
    } else if occurs_at(text, marker, from) && (unsigned_value(
        word_after(text, from + marker.len()),
    ) matches Some(count) && count <= u32::MAX) {
        Some(unsigned_value(word_after(text, from + marker.len()))->Some_0 as u32)
    } else {
        frames_in(text, from + 1)
    }
}

/// The score that FFmpeg's output makes: all four scores are the one that the
/// output reports, the frame count is the one it reports or 0, and the model
/// is the default one.
pub open spec fn score_from(
    reference_path: Seq<char>,
    distorted_path: Seq<char>,
    output: Seq<char>,
) -> Result<ScoreView, Failure> {
    match score_in(output, 0) {
        Some(score) => Ok(
            ScoreView {
                mean: score,
                min: score,
                max: score,
                harmonic_mean: score,
                frame_count: match frames_in(output, 0) {
                    Some(count) => count,
                    None => 0,
                },
                model: "default"@,
                reference_path,
                distorted_path,
            },
        ),
        None => Err(Failure::FFmpegFailed("Could not parse VMAF score from FFmpeg output"@)),
    }
}

/// The service that scores videos.
pub struct VmafAnalysisService;

impl VmafAnalysisService {
    pub fn new() -> (service: Self) {
        VmafAnalysisService
    }

    /// The arguments with which FFmpeg scores `distorted_path` against
    /// `reference_path`.
    pub fn calculate_vmaf(&self, reference_path: &str, distorted_path: &str) -> (args: Vec<String>)
        ensures
            views(args@) == vmaf_arguments(reference_path@, distorted_path@),
    {
        let mut args = no_texts();
        push_pair(&mut args, "-i", distorted_path);
        push_pair(&mut args, "-i", reference_path);
        push_pair(&mut args, "-lavfi", "[0:v][1:v]libvmaf");
        push_pair(&mut args, "-f", "null");
        push_text(&mut args, "-");
        assert(views(args@) =~= vmaf_arguments(reference_path@, distorted_path@));
        args
    }

    /// Accepts two inputs if and only if both exist and they differ. Whether
    /// they exist is for the caller to find out.
    pub fn validate_vmaf_inputs(
        &self,
        reference_path: &str,
        distorted_path: &str,
        reference_exists: bool,
        distorted_exists: bool,
    ) -> (result: Result<(), PipelineError>)
        ensures
            verdict(result) == inputs_check(
                reference_path@,
                distorted_path@,
                reference_exists,
                distorted_exists,
            ),
    {
        if !reference_exists {
            Err(PipelineError::FileNotFound(String::from_str(reference_path)))
        } else if !distorted_exists {
            Err(PipelineError::FileNotFound(String::from_str(distorted_path)))
        } else if same(reference_path, distorted_path) {
            Err(
                PipelineError::InvalidNodeConfig(
                    String::from_str("Reference and distorted videos must be different files"),
                ),
            )
        } else {
            Ok(())
        }
    }

    /// The score that FFmpeg's output reports.
    pub fn parse_vmaf_from_stderr(&self, stderr: &str) -> (result: Result<i64, PipelineError>)
        ensures
            match result {
                Ok(score) => score_in(stderr@, 0) == Some(score),
                Err(error) => score_in(stderr@, 0) is None && error@ == Failure::FFmpegFailed(
                    "Could not parse VMAF score from FFmpeg output"@,
                ),
            },
    {
        let text = chars_of(stderr);
        let marker = chars_of("VMAF score:");
        let n = text.len();
        let m = marker.len();
        let mut i: usize = 0;
        while i < n
            invariant
                n == text@.len(),
                m == marker@.len(),
                text@ == stderr@,
                marker@ == "VMAF score:"@,
                i <= n,
                score_in(stderr@, 0) == score_in(stderr@, i as int),
            decreases n - i,
        {
            if stands_at(&text, &marker, i) {
                let (start, end) = find_word(&text, i + m);
                match parse_decimal(stderr.substring_char(start, end)) {
                    Some(score) => if 0 <= score && score <= FULL_SCORE {
                        return Ok(score);
                    },
                    None => {},
                }
            }
            i = i + 1;
        }
        Err(
            PipelineError::FFmpegFailed(
                String::from_str("Could not parse VMAF score from FFmpeg output"),
            ),
        )
    }

    /// The frame count that FFmpeg's output reports, if it reports one.
    pub fn extract_frame_count(&self, stderr: &str) -> (count: Option<u32>)
        ensures
            count == frames_in(stderr@, 0),
    {
        let text = chars_of(stderr);
        let marker = chars_of("frame=");
        let n = text.len();
        let m = marker.len();
        let mut i: usize = 0;
        while i < n
            invariant
                n == text@.len(),
                m == marker@.len(),
                text@ == stderr@,
                marker@ == "frame="@,
                i <= n,
                frames_in(stderr@, 0) == frames_in(stderr@, i as int),
            decreases n - i,
        {
            if stands_at(&text, &marker, i) {
                let (start, end) = find_word(&text, i + m);
                match parse_unsigned(stderr.substring_char(start, end)) {
                    Some(count) => if count <= u32::MAX as u64 {
                        return Some(count as u32);
                    },
                    None => {},
                }
            }
            i = i + 1;
        }
        None
    }

    /// The score that a run of FFmpeg has produced, from what it wrote.
    pub fn score_from_output(&self, reference_path: &str, distorted_path: &str, stderr: &str) -> (result:
        Result<VmafScore, PipelineError>)
        ensures
            outcome(result) == score_from(reference_path@, distorted_path@, stderr@),
    {
        let score = match self.parse_vmaf_from_stderr(stderr) {
            Ok(score) => score,
            Err(error) => {
                return Err(error);
            },
        };
        let frame_count = match self.extract_frame_count(stderr) {
            Some(count) => count,
            None => 0,
        };
        Ok(
            VmafScore {
                mean: score,
                min: score,
                max: score,
                harmonic_mean: score,
                frame_count,
                model: String::from_str("default"),
                reference_path: String::from_str(reference_path),
                distorted_path: String::from_str(distorted_path),
            },
        )
    }
}

} // verus!
