//! Reading what FFprobe reports about a media item. FFprobe is asked for a
//! JSON document; this module says how it is asked, and takes the basic
//! properties of the item out of the document.

use vstd::prelude::*;
use crate::config::{
    as_list, as_string, as_unsigned, is_object, json_elements, json_is_object, json_member,
    json_parsed, member, parse_document, string_at, u64_at,
};
use crate::connections::outcome;
use crate::decimal::{decimal_millionths, parse_decimal, parse_unsigned, unsigned_value};
use crate::error::{Failure, PipelineError};
use crate::media::{AudioData, AudioView, VideoData, VideoView};
use crate::paths::{extension, file_name, lowercase, split_location, to_lowercase};
use crate::text::{no_texts, push_pair, push_text, same, views};
use crate::validate::plain;

verus! {

/// The arguments with which FFprobe reports on the item at `path`, with or
/// without its streams.
pub open spec fn probe_arguments(path: Seq<char>, streams: bool) -> Seq<Seq<char>> {
    seq!["-v"@, "quiet"@, "-print_format"@, "json"@, "-show_format"@] + (if streams {
        seq!["-show_streams"@]
    } else {
        Seq::<Seq<char>>::empty()
    }) + seq![path]
}

/// The first of `streams`, from place `from` on, that is of kind `kind`.
pub open spec fn stream_from(streams: Seq<serde_json::Value>, kind: Seq<char>, from: int) -> Option<
    serde_json::Value,
>
    decreases streams.len() - from,
{
    if from < 0 || from >= streams.len() {
        None
    } else if string_at(streams[from], "codec_type"@) == Some(kind) {
        Some(streams[from])
    } else {
        stream_from(streams, kind, from + 1)
    }
}

/// The length that `holder` names under `duration`, in microseconds.
pub open spec fn duration_in(holder: serde_json::Value) -> Option<i64> {
    match string_at(holder, "duration"@) {
        Some(text) => decimal_millionths(text),
        None => None,
    }
}

/// The length of an item: what its stream names, else what the document
/// names for the whole file, else zero.
pub open spec fn probed_duration(stream: serde_json::Value, document: serde_json::Value) -> i64 {
    match duration_in(stream) {
        Some(length) => length,
        None => match json_member(document, "format"@) {
            Some(whole) => match duration_in(whole) {
                Some(length) => length,
                None => 0,
            },
            None => 0,
        },
    }
}

/// A number of pixels: the low 32 bits of what was found, or `fallback`.
pub open spec fn dimension(found: Option<u64>, fallback: u32) -> u32 {
    match found {
        Some(value) => (value % 0x1_0000_0000) as u32,
        None => fallback,
    }
}

/// The extension of the file that `path` names, or nothing.
pub open spec fn format_of(path: Seq<char>) -> Seq<char> {
    match extension(file_name(path)) {
        Some(text) => text,
        None => Seq::empty(),
    }
}

/// The failure of a probe, with what went wrong.
pub open spec fn probe_failure(reason: Seq<char>) -> Failure {
    Failure::FFmpegFailed(reason)
}

/// The streams that a report lists.
pub open spec fn streams_of(output: Seq<char>) -> Result<Seq<serde_json::Value>, Failure> {
    match json_parsed(output) {
        None => Err(probe_failure("Failed to parse ffprobe JSON"@)),
        Some(document) => match json_member(document, "streams"@) {
            None => Err(probe_failure("No streams found"@)),
            Some(list) => match json_elements(list) {
                None => Err(probe_failure("No streams found"@)),
                Some(streams) => Ok(streams),
            },
        },
    }
}

/// The basic properties of the video at `path`, from FFprobe's report on it:
/// width and height of its first video stream (1920 by 1080 where they are
/// not named), its length, and the file's extension as its format.
pub open spec fn video_info(path: Seq<char>, output: Seq<char>) -> Result<VideoView, Failure> {
    match streams_of(output) {
        Err(error) => Err(error),
        Ok(streams) => match stream_from(streams, "video"@, 0) {
            None => Err(probe_failure("No video stream found"@)),
            Some(stream) => Ok(
                VideoView {
                    path,
                    format: format_of(path),
                    width: dimension(u64_at(stream, "width"@), 1920),
                    height: dimension(u64_at(stream, "height"@), 1080),
                    duration: probed_duration(stream, json_parsed(output)->Some_0),
                },
            ),
        },
    }
}

/// The sample rate that a stream names.
pub open spec fn sample_rate_in(stream: serde_json::Value) -> Option<u32> {
    match string_at(stream, "sample_rate"@) {
        Some(text) => match unsigned_value(text) {
            Some(rate) if rate <= u32::MAX => Some(rate as u32),
            _ => None,
        },
        None => None,
    }
}

/// The number of channels that a stream names.
pub open spec fn channels_in(stream: serde_json::Value) -> Option<u32> {
    match u64_at(stream, "channels"@) {
        Some(count) => Some((count % 0x1_0000_0000) as u32),
        None => None,
    }
}

/// The basic properties of the sound at `path`, from FFprobe's report on it.
pub open spec fn audio_data(path: Seq<char>, output: Seq<char>) -> Result<AudioView, Failure> {
    match streams_of(output) {
        Err(error) => Err(error),
        Ok(streams) => match stream_from(streams, "audio"@, 0) {
            None => Err(probe_failure("No audio stream found"@)),
            Some(stream) => Ok(
                AudioView {
                    path,
                    format: format_of(path),
                    duration: probed_duration(stream, json_parsed(output)->Some_0),
                    sample_rate: sample_rate_in(stream),
                    channels: channels_in(stream),
                },
            ),
        },
    }
}

/// The length of the sound that a report without streams describes.
pub open spec fn basic_audio_duration(output: Seq<char>) -> Result<i64, Failure> {
    match json_parsed(output) {
        None => Err(probe_failure("Failed to parse ffprobe JSON"@)),
        Some(document) => match json_member(document, "format"@) {
            Some(whole) if json_is_object(whole) => Ok(
                match duration_in(whole) {
                    Some(length) => length,
                    None => 0,
                },
            ),
            _ => Err(probe_failure("No format information found"@)),
        },
    }
}

/// Whether a browser plays the file that `path` names, by its extension.
pub open spec fn plays_video(path: Seq<char>) -> bool {
    extension(file_name(path)) matches Some(text) && (lowercase(text) == "mp4"@ || lowercase(text)
        == "webm"@ || lowercase(text) == "ogg"@)
}

/// Whether a browser plays the sound file that `path` names, by its
/// extension.
pub open spec fn plays_audio(path: Seq<char>) -> bool {
    extension(file_name(path)) matches Some(text) && (lowercase(text) == "mp3"@ || lowercase(text)
        == "wav"@ || lowercase(text) == "flac"@ || lowercase(text) == "m4a"@ || lowercase(text)
        == "aac"@ || lowercase(text) == "ogg"@ || lowercase(text) == "opus"@ || lowercase(text)
        == "wma"@)
}

/// What a playability check answers: the file must exist.
pub open spec fn playable(path: Seq<char>, exists: bool, plays: bool) -> Result<bool, Failure> {
    if exists {
        Ok(plays)
    } else {
        Err(Failure::FileNotFound(path))
    }
}

fn failure(reason: &str) -> (error: PipelineError)
    ensures
        error@ == probe_failure(reason@),
{
    PipelineError::FFmpegFailed(String::from_str(reason))
}

/// The arguments with which FFprobe reports on the item at `path`.
pub fn build_probe_arguments(path: &str, streams: bool) -> (args: Vec<String>)
    ensures
        views(args@) == probe_arguments(path@, streams),
{
    let mut args = no_texts();
    push_pair(&mut args, "-v", "quiet");
    push_pair(&mut args, "-print_format", "json");
    push_text(&mut args, "-show_format");
    if streams {
        push_text(&mut args, "-show_streams");
    }
    push_text(&mut args, path);
    assert(views(args@) =~= probe_arguments(path@, streams));
    args
}

/// The first of `streams` that is of kind `kind`.
fn find_stream<'a>(streams: &'a Vec<serde_json::Value>, kind: &str) -> (found: Option<
    &'a serde_json::Value,
>)
    ensures
        found == match stream_from(streams@, kind@, 0) {
            Some(stream) => Some(&stream),
            None => None,
        },
{
    let n = streams.len();
    let mut i: usize = 0;
    while i < n
        invariant
            n == streams@.len(),
            i <= n,
            stream_from(streams@, kind@, 0) == stream_from(streams@, kind@, i as int),
        decreases n - i,
    {
        let is_kind = match member(&streams[i], "codec_type") {
            Some(value) => match as_string(value) {
                Some(text) => same(text, kind),
                None => false,
            },
            None => false,
        };
        if is_kind {
            return Some(&streams[i]);
        }
        i = i + 1;
    }
    None
}

/// The length that `holder` names under `duration`.
fn duration_field(holder: &serde_json::Value) -> (found: Option<i64>)
    ensures
        found == duration_in(*holder),
{
    match member(holder, "duration") {
        Some(value) => match as_string(value) {
            Some(text) => parse_decimal(text),
            None => None,
        },
        None => None,
    }
}

/// The length of an item.
fn duration_of(stream: &serde_json::Value, document: &serde_json::Value) -> (length: i64)
    ensures
        length == probed_duration(*stream, *document),
{
    match duration_field(stream) {
        Some(length) => length,
        None => match member(document, "format") {
            Some(whole) => match duration_field(whole) {
                Some(length) => length,
                None => 0,
            },
            None => 0,
        },
    }
}

/// The unsigned number stored under `key`.
fn number_field(holder: &serde_json::Value, key: &str) -> (found: Option<u64>)
    ensures
        found == u64_at(*holder, key@),
{
    match member(holder, key) {
        Some(value) => as_unsigned(value),
        None => None,
    }
}

fn low_bits(found: Option<u64>, fallback: u32) -> (value: u32)
    ensures
        value == dimension(found, fallback),
{
    match found {
        Some(value) => (value % 0x1_0000_0000) as u32,
        None => fallback,
    }
}

/// The extension of the file that `path` names, or nothing.
fn format_field(path: &str) -> (format: String)
    ensures
        format@ == format_of(path@),
{
    let (_, _, found) = split_location(path);
    match found {
        Some(text) => text,
        None => String::new(),
    }
}

/// The service that reads the basic properties of videos.
pub struct VideoInfoService;

impl VideoInfoService {
    pub fn new() -> (service: Self) {
        VideoInfoService
    }

    /// The basic properties of the video at `path`, from FFprobe's report
    /// `probe_output` on it.
    pub fn get_video_info(&self, path: &str, probe_output: &str) -> (result: Result<
        VideoData,
        PipelineError,
    >)
        ensures
            outcome(result) == video_info(path@, probe_output@),
    {
        let document = match parse_document(probe_output) {
            Ok(document) => document,
            Err(_) => {
                return Err(failure("Failed to parse ffprobe JSON"));
            },
        };
        let streams = match member(&document, "streams") {
            Some(list) => match as_list(list) {
                Some(streams) => streams,
                None => {
                    return Err(failure("No streams found"));
                },
            },
            None => {
                return Err(failure("No streams found"));
            },
        };
        let stream = match find_stream(streams, "video") {
            Some(stream) => stream,
            None => {
                return Err(failure("No video stream found"));
            },
        };
        Ok(
            VideoData {
                path: String::from_str(path),
                format: format_field(path),
                width: low_bits(number_field(stream, "width"), 1920),
                height: low_bits(number_field(stream, "height"), 1080),
                duration: duration_of(stream, &document),
            },
        )
    }

    /// Whether a browser plays the video at `file_path`. Whether the file
    /// exists is for the caller to find out.
    pub fn check_video_playable(&self, file_path: &str, exists: bool) -> (result: Result<
        bool,
        PipelineError,
    >)
        ensures
            plain(result) == playable(file_path@, exists, plays_video(file_path@)),
    {
        if !exists {
            return Err(PipelineError::FileNotFound(String::from_str(file_path)));
        }
        let (_, _, found) = split_location(file_path);
        match found {
            Some(text) => {
                let lowered = to_lowercase(text.as_str());
                let name = lowered.as_str();
                Ok(same(name, "mp4") || same(name, "webm") || same(name, "ogg"))
            },
            None => Ok(false),
        }
    }
}

/// The service that reads the basic properties of sound.
pub struct AudioInfoService;

impl AudioInfoService {
    pub fn new() -> (service: Self) {
        AudioInfoService
    }

    /// Length and format of the sound at `file_path`, from FFprobe's report
    /// `probe_output` on it, which need not list streams.
    pub fn get_basic_audio_info(&self, file_path: &str, probe_output: &str) -> (result: Result<
        (i64, String),
        PipelineError,
    >)
        ensures
            match result {
                Ok(info) => basic_audio_duration(probe_output@) == Ok::<i64, Failure>(info.0)
                    && info.1@ == format_of(file_path@),
                Err(error) => basic_audio_duration(probe_output@) == Err::<i64, Failure>(error@),
            },
    {
        let document = match parse_document(probe_output) {
            Ok(document) => document,
            Err(_) => {
                return Err(failure("Failed to parse ffprobe JSON"));
            },
        };
        match member(&document, "format") {
            Some(whole) => if is_object(whole) {
                let length = match duration_field(whole) {
                    Some(length) => length,
                    None => 0,
                };
                Ok((length, format_field(file_path)))
            } else {
                Err(failure("No format information found"))
            },
            None => Err(failure("No format information found")),
        }
    }

    /// The properties of the sound at `path`, from FFprobe's report
    /// `probe_output` on it.
    pub fn get_audio_data(&self, path: &str, probe_output: &str) -> (result: Result<
        AudioData,
        PipelineError,
    >)
        ensures
            outcome(result) == audio_data(path@, probe_output@),
    {
        let document = match parse_document(probe_output) {
            Ok(document) => document,
            Err(_) => {
                return Err(failure("Failed to parse ffprobe JSON"));
            },
        };
        let streams = match member(&document, "streams") {
            Some(list) => match as_list(list) {
                Some(streams) => streams,
                None => {
                    return Err(failure("No streams found"));
                },
            },
            None => {
                return Err(failure("No streams found"));
            },
        };
        let stream = match find_stream(streams, "audio") {
            Some(stream) => stream,
            None => {
                return Err(failure("No audio stream found"));
            },
        };
        let sample_rate = match member(stream, "sample_rate") {
            Some(value) => match as_string(value) {
                Some(text) => match parse_unsigned(text) {
                    Some(rate) => if rate <= u32::MAX as u64 {
                        Some(rate as u32)
                    } else {
                        None
                    },
                    None => None,
                },
                None => None,
            },
            None => None,
        };
        let channels = match number_field(stream, "channels") {
            Some(count) => Some((count % 0x1_0000_0000) as u32),
            None => None,
        };
        Ok(
            AudioData {
                path: String::from_str(path),
                format: format_field(path),
                duration: duration_of(stream, &document),
                sample_rate,
                channels,
            },
        )
    }

    /// Whether a browser plays the sound at `file_path`. Whether the file
    /// exists is for the caller to find out.
    pub fn check_audio_playable(&self, file_path: &str, exists: bool) -> (result: Result<
        bool,
        PipelineError,
    >)
        ensures
            plain(result) == playable(file_path@, exists, plays_audio(file_path@)),
    {
        if !exists {
            return Err(PipelineError::FileNotFound(String::from_str(file_path)));
        }
        let (_, _, found) = split_location(file_path);
        match found {
            Some(text) => {
                let lowered = to_lowercase(text.as_str());
                let name = lowered.as_str();
                Ok(
                    same(name, "mp3") || same(name, "wav") || same(name, "flac") || same(
                        name,
                        "m4a",
                    ) || same(name, "aac") || same(name, "ogg") || same(name, "opus") || same(
                        name,
                        "wma",
                    ),
                )
            },
            None => Ok(false),
        }
    }
}

} // verus!
