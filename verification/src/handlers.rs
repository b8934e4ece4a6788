//! The node dispatcher: what each kind of node does with its configuration,
//! its inputs and the answers of the media backend.
//!
//! A node is begun with `NodeHandlers::process`. That either finishes it on
//! the spot or asks for outside work; in the second case the node is taken up
//! again with `NodeHandlers::resume` once the answer is there, as often as it
//! takes.

use vstd::prelude::*;
use crate::audio_conversion::{AudioConversionParams, AudioConversionView};
use crate::backend::{Request, RequestView, Response, ResponseView};
use crate::config::{
    bool_at, millionths_at, nested_string_at, or_default, string_at, NodeDataExtractor,
};
use crate::connections::{input_video, outcome, ConnectionHelper};
use crate::context::{ContextOp, ContextState, ExecutionContext};
use crate::error::{Failure, PipelineError};
use crate::frame_extraction::{FrameExtractionParams, FrameExtractionView};
use crate::graph::{ConnectionData, NodeData};
use crate::media::{TrimData, VideoData, VideoView};
use crate::paths::{
    converted_location, derive_converted_location, derive_frames_pattern, frames_pattern,
    names_a_file, parent, parent_directory,
};
use crate::text::{join, same, text_of};
use crate::validate::{invalid, valid_window, window_check, NodeValidator};
use crate::video_conversion::{ConversionParams, ConversionView};

verus! {

/// The kinds of node that the dispatcher knows.
#[derive(Debug, Clone, Copy, PartialEq, Eq, Structural)]
pub enum NodeKind {
    InputVideo,
    InputAudio,
    ViewVideo,
    TrimVideo,
    TrimAudio,
    ConvertVideo,
    ConvertAudio,
    SequenceExtract,
    InfoVideo,
    GridView,
    SpectrumAnalyzer,
    /// Any other tag.
    Other,
}

/// The kind that a node's tag names.
pub open spec fn kind_of(tag: Seq<char>) -> NodeKind {
    if tag == "inputVideo"@ {
        NodeKind::InputVideo
    } else if tag == "inputAudio"@ {
        NodeKind::InputAudio
    } else if tag == "viewVideo"@ {
        NodeKind::ViewVideo
    } else if tag == "trimVideo"@ {
        NodeKind::TrimVideo
    } else if tag == "trimAudio"@ {
        NodeKind::TrimAudio
    } else if tag == "convertVideo"@ {
        NodeKind::ConvertVideo
    } else if tag == "convertAudio"@ {
        NodeKind::ConvertAudio
    } else if tag == "sequenceExtract"@ {
        NodeKind::SequenceExtract
    } else if tag == "infoVideo"@ {
        NodeKind::InfoVideo
    } else if tag == "gridView"@ {
        NodeKind::GridView
    } else if tag == "spectrumAnalyzer"@ {
        NodeKind::SpectrumAnalyzer
    } else {
        NodeKind::Other
    }
}

/// Where a node stands while a request of its is out.
#[derive(Debug)]
pub enum Pending {
    /// A source node waits to hear whether its file exists.
    SourceExists { path: String, audio: bool },
    /// A source node waits for the properties of its file.
    SourceInfo { path: String, audio: bool },
    /// A range node waits to hear whether its input exists.
    RangeExists { path: String, start_time: i64, end_time: i64 },
    /// A video conversion is under way.
    Conversion,
    /// A sound conversion is under way.
    AudioConversion,
    /// The directory for the frames is being created.
    FramesDirectory { params: FrameExtractionParams, trim: Option<TrimData> },
    /// The frames are being extracted.
    Frames,
    /// A video is being inspected.
    Inspection,
}

/// A `Pending` with its texts as plain sequences of characters.
pub enum PendingView {
    SourceExists { path: Seq<char>, audio: bool },
    SourceInfo { path: Seq<char>, audio: bool },
    RangeExists { path: Seq<char>, start_time: i64, end_time: i64 },
    Conversion,
    AudioConversion,
    FramesDirectory { params: FrameExtractionView, trim: Option<TrimData> },
    Frames,
    Inspection,
}

impl View for Pending {
    type V = PendingView;

    open spec fn view(&self) -> PendingView {
        match self {
            Pending::SourceExists { path, audio } => PendingView::SourceExists {
                path: path@,
                audio: *audio,
            },
            Pending::SourceInfo { path, audio } => PendingView::SourceInfo {
                path: path@,
                audio: *audio,
            },
            Pending::RangeExists { path, start_time, end_time } => PendingView::RangeExists {
                path: path@,
                start_time: *start_time,
                end_time: *end_time,
            },
            Pending::Conversion => PendingView::Conversion,
            Pending::AudioConversion => PendingView::AudioConversion,
            Pending::FramesDirectory { params, trim } => PendingView::FramesDirectory {
                params: params@,
                trim: *trim,
            },
            Pending::Frames => PendingView::Frames,
            Pending::Inspection => PendingView::Inspection,
        }
    }
}

impl PendingView {
    /// A range node that waits has a window that is in order.
    pub open spec fn wf(self) -> bool {
        self matches PendingView::RangeExists { start_time, end_time, .. } ==> valid_window(
            start_time,
            end_time,
        )
    }
}

/// How far a node has come.
#[derive(Debug)]
pub enum Step {
    /// The node is done, with or without an artifact.
    Finished(Option<VideoData>),
    /// The node needs this done, and then stands there.
    Ask(Request, Pending),
}

/// A `Step` with its texts as plain sequences of characters.
pub enum StepView {
    Finished(Option<VideoView>),
    Ask(RequestView, PendingView),
}

impl View for Step {
    type V = StepView;

    open spec fn view(&self) -> StepView {
        match self {
            Step::Finished(Some(artifact)) => StepView::Finished(Some(artifact@)),
            Step::Finished(None) => StepView::Finished(None),
            Step::Ask(request, pending) => StepView::Ask(request@, pending@),
        }
    }
}

impl StepView {
    /// What waits is in order.
    pub open spec fn wf(self) -> bool {
        self matches StepView::Ask(_, pending) ==> pending.wf()
    }
}

/// The length of a trim window where the node names no end: a minute.
pub const DEFAULT_END: i64 = 60000000;

/// The artifact that stands for a sound item.
pub open spec fn sound_artifact(path: Seq<char>, format: Seq<char>, duration: i64) -> VideoView {
    VideoView { path, format, width: 0, height: 0, duration }
}

/// The failure for an answer that does not fit the request.
pub open spec fn unexpected() -> Failure {
    Failure::FFmpegFailed("Unexpected response from the media backend"@)
}

/// A source node begins by asking whether the file that its configuration
/// names exists.
pub open spec fn begin_source(data: serde_json::Value, audio: bool) -> Result<StepView, Failure> {
    match string_at(data, "filePath"@) {
        Some(path) => Ok(
            StepView::Ask(
                RequestView::FileExists { path },
                PendingView::SourceExists { path, audio },
            ),
        ),
        None => Err(
            Failure::InvalidNodeConfig(
                if audio {
                    "Input audio node needs a file selected"@
                } else {
                    "Input node needs a file selected"@
                },
            ),
        ),
    }
}

/// A pass-through node hands on what arrives at its input.
pub open spec fn begin_pass(input: Result<VideoView, Failure>) -> Result<StepView, Failure> {
    match input {
        Ok(video) => Ok(StepView::Finished(Some(video))),
        Err(error) => Err(error),
    }
}

/// A range node takes its window from `startTime` and `endTime` (zero and a
/// minute where they are missing), checks it, and asks whether its input
/// exists.
pub open spec fn begin_range(data: serde_json::Value, input: Result<VideoView, Failure>) -> Result<
    StepView,
    Failure,
> {
    match input {
        Err(error) => Err(error),
        Ok(video) => {
            let start_time = or_default(millionths_at(data, "startTime"@), 0);
            let end_time = or_default(millionths_at(data, "endTime"@), DEFAULT_END);
            match window_check(start_time, end_time) {
                Err(error) => Err(error),
                Ok(_) => Ok(
                    StepView::Ask(
                        RequestView::FileExists { path: video.path },
                        PendingView::RangeExists { path: video.path, start_time, end_time },
                    ),
                ),
            }
        },
    }
}

/// The start of a trim window, where there is one.
pub open spec fn start_of(range: Option<TrimData>) -> Option<i64> {
    match range {
        Some(window) => Some(window.start_time),
        None => None,
    }
}

/// The end of a trim window, where there is one.
pub open spec fn end_of(range: Option<TrimData>) -> Option<i64> {
    match range {
        Some(window) => Some(window.end_time),
        None => None,
    }
}

/// The trim window that is registered for the item at `path`.
pub open spec fn range_of(context: ContextState, path: Seq<char>) -> Option<TrimData> {
    if context.ranges.contains_key(path) {
        Some(context.ranges[path])
    } else {
        None
    }
}

/// The place that the node names for its output, unless it names none or
/// asks for one to be made up.
pub open spec fn named_output(data: serde_json::Value, generated: bool) -> Option<Seq<char>> {
    match string_at(data, "outputPath"@) {
        Some(path) => if path.len() == 0 || (generated && path == "$ auto_generate"@) {
            None
        } else {
            Some(path)
        },
        None => None,
    }
}

/// What a video conversion node asks for: its settings from the
/// configuration, each with its default; its output where the node names it,
/// else beside the input; and the trim window of its input, if one is
/// registered.
pub open spec fn video_conversion(
    data: serde_json::Value,
    input: VideoView,
    range: Option<TrimData>,
) -> Result<ConversionView, Failure> {
    let format = or_default(string_at(data, "format"@), "mp4"@);
    let bitrate_mode = or_default(string_at(data, "bitrateMode"@), "auto"@);
    let resolution = or_default(string_at(data, "resolution"@), "original"@);
    if named_output(data, true) is None && !names_a_file(input.path) {
        Err(Failure::InvalidNodeConfig("Cannot determine source video filename"@))
    } else {
        Ok(
            ConversionView {
                input_path: input.path,
                output_path: or_default(
                    named_output(data, true),
                    converted_location(input.path, format),
                ),
                format,
                quality: or_default(string_at(data, "quality"@), "medium"@),
                use_gpu: or_default(bool_at(data, "useGPU"@), false),
                gpu_type: or_default(string_at(data, "gpuType"@), "auto"@),
                bitrate_mode,
                custom_bitrate: if bitrate_mode == "custom"@ {
                    string_at(data, "customBitrate"@)
                } else {
                    None
                },
                crf_value: if bitrate_mode == "crf"@ {
                    string_at(data, "crfValue"@)
                } else {
                    None
                },
                resolution,
                custom_width: if resolution == "custom"@ {
                    nested_string_at(data, "customResolution"@, "width"@)
                } else {
                    None
                },
                custom_height: if resolution == "custom"@ {
                    nested_string_at(data, "customResolution"@, "height"@)
                } else {
                    None
                },
                framerate: or_default(string_at(data, "framerate"@), "original"@),
                audio_codec: or_default(string_at(data, "audioCodec"@), "aac"@),
                audio_bitrate: or_default(string_at(data, "audioBitrate"@), "128"@),
                trim_start: start_of(range),
                trim_end: end_of(range),
            },
        )
    }
}

/// The gain that a sound conversion applies: what `volumeGain` names, unless
/// it is empty or zero.
pub open spec fn volume_gain(data: serde_json::Value) -> Option<Seq<char>> {
    match string_at(data, "volumeGain"@) {
        Some(gain) => if gain.len() == 0 || gain == "0"@ || gain == "0.0"@ {
            None
        } else {
            Some(gain)
        },
        None => None,
    }
}

/// What a sound conversion node asks for.
pub open spec fn audio_conversion(
    data: serde_json::Value,
    input: VideoView,
    range: Option<TrimData>,
) -> Result<AudioConversionView, Failure> {
    let format = or_default(string_at(data, "format"@), "mp3"@);
    let bitrate_mode = or_default(string_at(data, "bitrateMode"@), "auto"@);
    if named_output(data, true) is None && !names_a_file(input.path) {
        Err(Failure::InvalidNodeConfig("Cannot determine source audio filename"@))
    } else {
        Ok(
            AudioConversionView {
                input_path: input.path,
                output_path: or_default(
                    named_output(data, true),
                    converted_location(input.path, format),
                ),
                format,
                quality: or_default(string_at(data, "quality"@), "medium"@),
                sample_rate: or_default(string_at(data, "sampleRate"@), "original"@),
                bitrate: "auto"@,
                bitrate_mode,
                custom_bitrate: if bitrate_mode == "custom"@ {
                    string_at(data, "customBitrate"@)
                } else {
                    None
                },
                vbr_quality: if bitrate_mode == "vbr"@ {
                    string_at(data, "vbrQuality"@)
                } else {
                    None
                },
                channels: or_default(string_at(data, "channels"@), "original"@),
                codec: or_default(string_at(data, "codec"@), "mp3"@),
                normalize: or_default(bool_at(data, "normalize"@), false),
                volume_gain: volume_gain(data),
                trim_start: start_of(range),
                trim_end: end_of(range),
            },
        )
    }
}

/// What a frame extraction node asks for.
pub open spec fn frame_extraction(data: serde_json::Value, input: VideoView) -> Result<
    FrameExtractionView,
    Failure,
> {
    let format = or_default(string_at(data, "format"@), "png"@);
    if named_output(data, false) is None && !names_a_file(input.path) {
        Err(Failure::InvalidNodeConfig("Cannot determine source video filename"@))
    } else {
        Ok(
            FrameExtractionView {
                input_path: input.path,
                output_pattern: or_default(
                    named_output(data, false),
                    frames_pattern(input.path, format),
                ),
                format,
                compression: or_default(string_at(data, "compression"@), "medium"@),
                size: or_default(string_at(data, "size"@), "original"@),
                fps: or_default(string_at(data, "fps"@), "original"@),
                quality: or_default(string_at(data, "quality"@), "high"@),
            },
        )
    }
}

/// A video conversion node begins by asking for the conversion.
pub open spec fn begin_conversion(
    data: serde_json::Value,
    context: ContextState,
    input: Result<VideoView, Failure>,
) -> Result<StepView, Failure> {
    match input {
        Err(error) => Err(error),
        Ok(video) => match video_conversion(data, video, range_of(context, video.path)) {
            Err(error) => Err(error),
            Ok(params) => Ok(
                StepView::Ask(RequestView::ConvertVideo { params }, PendingView::Conversion),
            ),
        },
    }
}

/// A sound conversion node begins by asking for the conversion.
pub open spec fn begin_audio_conversion(
    data: serde_json::Value,
    context: ContextState,
    input: Result<VideoView, Failure>,
) -> Result<StepView, Failure> {
    match input {
        Err(error) => Err(error),
        Ok(video) => match audio_conversion(data, video, range_of(context, video.path)) {
            Err(error) => Err(error),
            Ok(params) => Ok(
                StepView::Ask(RequestView::ConvertAudio { params }, PendingView::AudioConversion),
            ),
        },
    }
}

/// A frame extraction node begins by asking for the directory that will hold
/// the frames.
pub open spec fn begin_frames(
    data: serde_json::Value,
    context: ContextState,
    input: Result<VideoView, Failure>,
) -> Result<StepView, Failure> {
    match input {
        Err(error) => Err(error),
        Ok(video) => match frame_extraction(data, video) {
            Err(error) => Err(error),
            Ok(params) => Ok(
                StepView::Ask(
                    RequestView::CreateDirectory { path: parent(params.output_pattern) },
                    PendingView::FramesDirectory { params, trim: range_of(context, video.path) },
                ),
            ),
        },
    }
}

/// An inspection node begins by asking for the inspection of its input.
pub open spec fn begin_inspection(input: Result<VideoView, Failure>) -> Result<StepView, Failure> {
    match input {
        Err(error) => Err(error),
        Ok(video) => Ok(
            StepView::Ask(RequestView::VideoMetadata { path: video.path }, PendingView::Inspection),
        ),
    }
}

/// `i` is the first connection that leads into node `node_id`, or the number
/// of connections where none does.
pub open spec fn is_first_inbound(connections: Seq<ConnectionData>, node_id: Seq<char>, i: int) -> bool {
    &&& 0 <= i <= connections.len()
    &&& i < connections.len() ==> connections[i].to@ == node_id
    &&& forall|k: int| 0 <= k < i ==> (#[trigger] connections[k]).to@ != node_id
}

/// The artifact of the node from which the first connection into node
/// `node_id` comes, whatever input it leads to.
pub open spec fn any_input(
    context: ContextState,
    connections: Seq<ConnectionData>,
    node_id: Seq<char>,
) -> Option<VideoView> {
    let i = choose|i: int| is_first_inbound(connections, node_id, i);
    if i < connections.len() && context.artifacts.contains_key(connections[i].from@) {
        Some(context.artifacts[connections[i].from@])
    } else {
        None
    }
}

/// What a spectrum analyzer takes in: what arrives at `video-input`, else at
/// `audio-input`, else at `video-output`, else over its first connection.
pub open spec fn spectrum_input(
    context: ContextState,
    connections: Seq<ConnectionData>,
    node_id: Seq<char>,
) -> Option<VideoView> {
    if input_video(context, connections, node_id, "video-input"@) is Ok {
        Some(input_video(context, connections, node_id, "video-input"@)->Ok_0)
    } else if input_video(context, connections, node_id, "audio-input"@) is Ok {
        Some(input_video(context, connections, node_id, "audio-input"@)->Ok_0)
    } else if input_video(context, connections, node_id, "video-output"@) is Ok {
        Some(input_video(context, connections, node_id, "video-output"@)->Ok_0)
    } else {
        any_input(context, connections, node_id)
    }
}

/// A spectrum analyzer hands on what it takes in.
pub open spec fn begin_spectrum(
    context: ContextState,
    connections: Seq<ConnectionData>,
    node_id: Seq<char>,
) -> Result<StepView, Failure> {
    match spectrum_input(context, connections, node_id) {
        Some(video) => Ok(StepView::Finished(Some(video))),
        None => Err(
            Failure::InvalidNodeConfig("Spectrum analyzer needs an audio/video input connection"@),
        ),
    }
}

/// How a node begins: by its kind, from its configuration, the artifacts and
/// trim windows in the context, and the connections. A tag that names no
/// kind is a failure.
pub open spec fn begin(
    node_id: Seq<char>,
    tag: Seq<char>,
    data: serde_json::Value,
    context: ContextState,
    connections: Seq<ConnectionData>,
) -> Result<StepView, Failure> {
    let video = input_video(context, connections, node_id, "video-input"@);
    let audio = input_video(context, connections, node_id, "audio-input"@);
    match kind_of(tag) {
        NodeKind::InputVideo => begin_source(data, false),
        NodeKind::InputAudio => begin_source(data, true),
        NodeKind::ViewVideo => begin_pass(video),
        NodeKind::GridView => begin_pass(video),
        NodeKind::TrimVideo => begin_range(data, video),
        NodeKind::TrimAudio => begin_range(data, audio),
        NodeKind::ConvertVideo => begin_conversion(data, context, video),
        NodeKind::ConvertAudio => begin_audio_conversion(data, context, audio),
        NodeKind::SequenceExtract => begin_frames(data, context, video),
        NodeKind::InfoVideo => begin_inspection(video),
        NodeKind::SpectrumAnalyzer => begin_spectrum(context, connections, node_id),
        NodeKind::Other => Err(Failure::UnknownNodeKind(tag)),
    }
}

/// What a failed or unfitting answer makes of a node: a failure of the media
/// backend with the reason that came back.
pub open spec fn refusal(response: ResponseView) -> Failure {
    match response {
        ResponseView::Failed(reason) => Failure::FFmpegFailed(reason),
        _ => unexpected(),
    }
}

/// How a node goes on when the answer to its request is there, and what the
/// context holds afterwards. Only a range node writes to the context: once
/// its input is known to exist, it registers its window for the input's
/// location and finishes without an artifact.
pub open spec fn resume(pending: PendingView, response: ResponseView, context: ContextState) -> (
    Result<StepView, Failure>,
    ContextState,
) {
    match pending {
        PendingView::SourceExists { path, audio } => (
            match response {
                ResponseView::Exists(true) => Ok(
                    StepView::Ask(
                        if audio {
                            RequestView::AudioInfo { path }
                        } else {
                            RequestView::VideoInfo { path }
                        },
                        PendingView::SourceInfo { path, audio },
                    ),
                ),
                ResponseView::Exists(false) => Err(
                    Failure::InvalidNodeConfig("Input file does not exist: "@ + path),
                ),
                _ => Err(refusal(response)),
            },
            context,
        ),
        PendingView::SourceInfo { path, audio } => (
            match response {
                ResponseView::Video(video) if !audio => Ok(StepView::Finished(Some(video))),
                ResponseView::AudioInfo { duration, format } if audio => Ok(
                    StepView::Finished(Some(sound_artifact(path, format, duration))),
                ),
                _ => Err(refusal(response)),
            },
            context,
        ),
        PendingView::RangeExists { path, start_time, end_time } => match response {
            ResponseView::Exists(true) => (
                Ok(StepView::Finished(None)),
                context.apply(ContextOp::PutRange { location: path, start: start_time, end: end_time }),
            ),
            ResponseView::Exists(false) => (Err(Failure::FileNotFound(path)), context),
            _ => (Err(refusal(response)), context),
        },
        PendingView::Conversion => (
            match response {
                ResponseView::Video(video) => Ok(StepView::Finished(Some(video))),
                _ => Err(refusal(response)),
            },
            context,
        ),
        PendingView::AudioConversion => (
            match response {
                ResponseView::Audio(audio) => Ok(
                    StepView::Finished(
                        Some(sound_artifact(audio.path, audio.format, audio.duration)),
                    ),
                ),
                _ => Err(refusal(response)),
            },
            context,
        ),
        PendingView::FramesDirectory { params, trim } => (
            match response {
                ResponseView::Done => Ok(
                    StepView::Ask(RequestView::ExtractFrames { params, trim }, PendingView::Frames),
                ),
                ResponseView::Failed(reason) => Err(Failure::DirectoryCreationFailed(reason)),
                _ => Err(unexpected()),
            },
            context,
        ),
        PendingView::Frames => (
            match response {
                ResponseView::Done => Ok(StepView::Finished(None)),
                _ => Err(refusal(response)),
            },
            context,
        ),
        PendingView::Inspection => (
            match response {
                ResponseView::Done => Ok(StepView::Finished(None)),
                _ => Err(refusal(response)),
            },
            context,
        ),
    }
}

/// There is one first inbound connection.
proof fn lemma_first_inbound(connections: Seq<ConnectionData>, node_id: Seq<char>, i: int)
    requires
        is_first_inbound(connections, node_id, i),
    ensures
        (choose|j: int| is_first_inbound(connections, node_id, j)) == i,
{
    let j = choose|j: int| is_first_inbound(connections, node_id, j);
    if j < i {
        assert(connections[j].to@ != node_id);
    }
    if i < j {
        assert(connections[i].to@ != node_id);
    }
}

/// The string stored under `key`, if there is one.
fn text_field(data: &serde_json::Value, key: &str) -> (found: Option<String>)
    ensures
        text_of(found) == string_at(*data, key@),
{
    match NodeDataExtractor::extract_string(data, key) {
        Ok(text) => Some(text),
        Err(_) => None,
    }
}

/// The string stored under `child` in the object under `parent`, if there is
/// one.
fn nested_text_field(data: &serde_json::Value, parent: &str, child: &str) -> (found: Option<String>)
    ensures
        text_of(found) == nested_string_at(*data, parent@, child@),
{
    match NodeDataExtractor::extract_nested_string(data, parent, child) {
        Ok(text) => Some(text),
        Err(_) => None,
    }
}

/// The place that the node names for its output.
fn output_field(data: &serde_json::Value, generated: bool) -> (found: Option<String>)
    ensures
        text_of(found) == named_output(*data, generated),
{
    match text_field(data, "outputPath") {
        Some(path) => if path.as_str().is_empty() || (generated && same(
            path.as_str(),
            "$ auto_generate",
        )) {
            None
        } else {
            Some(path)
        },
        None => None,
    }
}

/// The trim window that is registered for the item at `path`.
fn range_field(context: &ExecutionContext, path: &str) -> (found: Option<TrimData>)
    requires
        context.wf(),
    ensures
        found == range_of(context@, path@),
{
    match context.get_trim_data(path) {
        Ok(range) => Some(range),
        Err(_) => None,
    }
}

/// The start of a trim window, where there is one.
fn start_field(range: &Option<TrimData>) -> (start: Option<i64>)
    ensures
        start == start_of(*range),
{
    match range {
        Some(window) => Some(window.start_time),
        None => None,
    }
}

/// The end of a trim window, where there is one.
fn end_field(range: &Option<TrimData>) -> (end: Option<i64>)
    ensures
        end == end_of(*range),
{
    match range {
        Some(window) => Some(window.end_time),
        None => None,
    }
}

/// What an answer that does not fit makes of a node.
pub(crate) fn refuse(response: Response) -> (error: PipelineError)
    ensures
        error@ == refusal(response@),
{
    match response {
        Response::Failed(reason) => PipelineError::FFmpegFailed(reason),
        _ => PipelineError::FFmpegFailed(
            String::from_str("Unexpected response from the media backend"),
        ),
    }
}

/// The artifact that stands for a sound item.
fn sound(path: String, format: String, duration: i64) -> (artifact: VideoData)
    ensures
        artifact@ == sound_artifact(path@, format@, duration),
{
    VideoData { path, format, width: 0, height: 0, duration }
}

/// The dispatcher.
pub struct NodeHandlers;

impl NodeHandlers {
    pub fn new() -> (handlers: Self) {
        NodeHandlers
    }

    /// The kind that `tag` names.
    pub fn classify(tag: &str) -> (kind: NodeKind)
        ensures
            kind == kind_of(tag@),
    {
        if same(tag, "inputVideo") {
            NodeKind::InputVideo
        } else if same(tag, "inputAudio") {
            NodeKind::InputAudio
        } else if same(tag, "viewVideo") {
            NodeKind::ViewVideo
        } else if same(tag, "trimVideo") {
            NodeKind::TrimVideo
        } else if same(tag, "trimAudio") {
            NodeKind::TrimAudio
        } else if same(tag, "convertVideo") {
            NodeKind::ConvertVideo
        } else if same(tag, "convertAudio") {
            NodeKind::ConvertAudio
        } else if same(tag, "sequenceExtract") {
            NodeKind::SequenceExtract
        } else if same(tag, "infoVideo") {
            NodeKind::InfoVideo
        } else if same(tag, "gridView") {
            NodeKind::GridView
        } else if same(tag, "spectrumAnalyzer") {
            NodeKind::SpectrumAnalyzer
        } else {
            NodeKind::Other
        }
    }

    /// Begins `node`: finishes it on the spot, asks for outside work, or
    /// fails. The context is read, never written.
    pub fn process(
        &self,
        node: &NodeData,
        context: &ExecutionContext,
        connections: &[ConnectionData],
    ) -> (result: Result<Step, PipelineError>)
        requires
            context.wf(),
        ensures
            outcome(result) == begin(
                node.id@,
                node.node_type@,
                node.data,
                context@,
                connections@,
            ),
            result matches Ok(step) ==> step@.wf(),
    {
        match Self::classify(node.node_type.as_str()) {
            NodeKind::InputVideo => self.handle_input_video(node),
            NodeKind::InputAudio => self.handle_input_audio(node),
            NodeKind::ViewVideo => self.handle_view_video(node, context, connections),
            NodeKind::TrimVideo => self.handle_trim_video(node, context, connections),
            NodeKind::TrimAudio => self.handle_trim_audio(node, context, connections),
            NodeKind::ConvertVideo => self.handle_convert_video(node, context, connections),
            NodeKind::ConvertAudio => self.handle_convert_audio(node, context, connections),
            NodeKind::SequenceExtract => self.handle_sequence_extract(node, context, connections),
            NodeKind::InfoVideo => self.handle_info_video(node, context, connections),
            NodeKind::GridView => self.handle_grid_view(node, context, connections),
            NodeKind::SpectrumAnalyzer => self.handle_spectrum_analyzer(node, context, connections),
            NodeKind::Other => Err(PipelineError::UnknownNodeKind(node.node_type.clone())),
        }
    }

    fn handle_source(node: &NodeData, audio: bool) -> (result: Result<Step, PipelineError>)
        ensures
            outcome(result) == begin_source(node.data, audio),
            result matches Ok(step) ==> step@.wf(),
    {
        match text_field(&node.data, "filePath") {
            Some(path) => Ok(
                Step::Ask(
                    Request::FileExists { path: path.clone() },
                    Pending::SourceExists { path, audio },
                ),
            ),
            None => Err(
                if audio {
                    invalid("Input audio node needs a file selected")
                } else {
                    invalid("Input node needs a file selected")
                },
            ),
        }
    }

    fn handle_input_video(&self, node: &NodeData) -> (result: Result<Step, PipelineError>)
        ensures
            outcome(result) == begin_source(node.data, false),
            result matches Ok(step) ==> step@.wf(),
    {
        Self::handle_source(node, false)
    }

    fn handle_input_audio(&self, node: &NodeData) -> (result: Result<Step, PipelineError>)
        ensures
            outcome(result) == begin_source(node.data, true),
            result matches Ok(step) ==> step@.wf(),
    {
        Self::handle_source(node, true)
    }

    fn handle_pass(input: Result<VideoData, PipelineError>) -> (result: Result<Step, PipelineError>)
        ensures
            outcome(result) == begin_pass(outcome(input)),
            result matches Ok(step) ==> step@.wf(),
    {
        match input {
            Ok(video) => Ok(Step::Finished(Some(video))),
            Err(error) => Err(error),
        }
    }

    fn handle_view_video(
        &self,
        node: &NodeData,
        context: &ExecutionContext,
        connections: &[ConnectionData],
    ) -> (result: Result<Step, PipelineError>)
        requires
            context.wf(),
        ensures
            outcome(result) == begin_pass(
                input_video(context@, connections@, node.id@, "video-input"@),
            ),
            result matches Ok(step) ==> step@.wf(),
    {
        Self::handle_pass(
            ConnectionHelper::get_input_video(
                node.id.as_str(),
                context,
                connections,
                "video-input",
            ),
        )
    }

    fn handle_grid_view(
        &self,
        node: &NodeData,
        context: &ExecutionContext,
        connections: &[ConnectionData],
    ) -> (result: Result<Step, PipelineError>)
        requires
            context.wf(),
        ensures
            outcome(result) == begin_pass(
                input_video(context@, connections@, node.id@, "video-input"@),
            ),
            result matches Ok(step) ==> step@.wf(),
    {
        Self::handle_pass(
            ConnectionHelper::get_input_video(
                node.id.as_str(),
                context,
                connections,
                "video-input",
            ),
        )
    }

    fn handle_range(node: &NodeData, input: Result<VideoData, PipelineError>) -> (result: Result<
        Step,
        PipelineError,
    >)
        ensures
            outcome(result) == begin_range(node.data, outcome(input)),
            result matches Ok(step) ==> step@.wf(),
    {
        let video = match input {
            Ok(video) => video,
            Err(error) => {
                return Err(error);
            },
        };
        let start_time = NodeDataExtractor::extract_millionths_or_default(&node.data, "startTime", 0);
        let end_time = NodeDataExtractor::extract_millionths_or_default(
            &node.data,
            "endTime",
            DEFAULT_END,
        );
        match NodeValidator::validate_time_range(start_time, end_time) {
            Err(error) => Err(error),
            Ok(_) => Ok(
                Step::Ask(
                    Request::FileExists { path: video.path.clone() },
                    Pending::RangeExists { path: video.path, start_time, end_time },
                ),
            ),
        }
    }

    fn handle_trim_video(
        &self,
        node: &NodeData,
        context: &ExecutionContext,
        connections: &[ConnectionData],
    ) -> (result: Result<Step, PipelineError>)
        requires
            context.wf(),
        ensures
            outcome(result) == begin_range(
                node.data,
                input_video(context@, connections@, node.id@, "video-input"@),
            ),
            result matches Ok(step) ==> step@.wf(),
    {
        Self::handle_range(
            node,
            ConnectionHelper::get_input_video(
                node.id.as_str(),
                context,
                connections,
                "video-input",
            ),
        )
    }

    fn handle_trim_audio(
        &self,
        node: &NodeData,
        context: &ExecutionContext,
        connections: &[ConnectionData],
    ) -> (result: Result<Step, PipelineError>)
        requires
            context.wf(),
        ensures
            outcome(result) == begin_range(
                node.data,
                input_video(context@, connections@, node.id@, "audio-input"@),
            ),
            result matches Ok(step) ==> step@.wf(),
    {
        Self::handle_range(
            node,
            ConnectionHelper::get_input_video(
                node.id.as_str(),
                context,
                connections,
                "audio-input",
            ),
        )
    }

    /// The settings of a video conversion.
    fn conversion_params(data: &serde_json::Value, input: &VideoData, range: Option<TrimData>) -> (result:
        Result<ConversionParams, PipelineError>)
        ensures
            outcome(result) == video_conversion(*data, input@, range),
    {
        let format = NodeDataExtractor::extract_string_or_default(data, "format", "mp4");
        let bitrate_mode = NodeDataExtractor::extract_string_or_default(data, "bitrateMode", "auto");
        let resolution = NodeDataExtractor::extract_string_or_default(data, "resolution", "original");
        let output_path = match output_field(data, true) {
            Some(path) => path,
            None => match derive_converted_location(input.path.as_str(), format.as_str()) {
                Some(path) => path,
                None => {
                    return Err(invalid("Cannot determine source video filename"));
                },
            },
        };
        let custom_bitrate = if same(bitrate_mode.as_str(), "custom") {
            text_field(data, "customBitrate")
        } else {
            None
        };
        let crf_value = if same(bitrate_mode.as_str(), "crf") {
            text_field(data, "crfValue")
        } else {
            None
        };
        let custom = same(resolution.as_str(), "custom");
        let custom_width = if custom {
            nested_text_field(data, "customResolution", "width")
        } else {
            None
        };
        let custom_height = if custom {
            nested_text_field(data, "customResolution", "height")
        } else {
            None
        };
        Ok(
            ConversionParams {
                input_path: input.path.clone(),
                output_path,
                format,
                quality: NodeDataExtractor::extract_string_or_default(data, "quality", "medium"),
                use_gpu: NodeDataExtractor::extract_bool_or_default(data, "useGPU", false),
                gpu_type: NodeDataExtractor::extract_string_or_default(data, "gpuType", "auto"),
                bitrate_mode,
                custom_bitrate,
                crf_value,
                resolution,
                custom_width,
                custom_height,
                framerate: NodeDataExtractor::extract_string_or_default(
                    data,
                    "framerate",
                    "original",
                ),
                audio_codec: NodeDataExtractor::extract_string_or_default(data, "audioCodec", "aac"),
                audio_bitrate: NodeDataExtractor::extract_string_or_default(
                    data,
                    "audioBitrate",
                    "128",
                ),
                trim_start: start_field(&range),
                trim_end: end_field(&range),
            },
        )
    }

    fn handle_convert_video(
        &self,
        node: &NodeData,
        context: &ExecutionContext,
        connections: &[ConnectionData],
    ) -> (result: Result<Step, PipelineError>)
        requires
            context.wf(),
        ensures
            outcome(result) == begin_conversion(
                node.data,
                context@,
                input_video(context@, connections@, node.id@, "video-input"@),
            ),
            result matches Ok(step) ==> step@.wf(),
    {
        let input = match ConnectionHelper::get_input_video(
            node.id.as_str(),
            context,
            connections,
            "video-input",
        ) {
            Ok(video) => video,
            Err(error) => {
                return Err(error);
            },
        };
        let range = range_field(context, input.path.as_str());
        match Self::conversion_params(&node.data, &input, range) {
            Ok(params) => Ok(Step::Ask(Request::ConvertVideo { params }, Pending::Conversion)),
            Err(error) => Err(error),
        }
    }

    /// The gain of a sound conversion.
    fn gain_field(data: &serde_json::Value) -> (found: Option<String>)
        ensures
            text_of(found) == volume_gain(*data),
    {
        match text_field(data, "volumeGain") {
            Some(gain) => if gain.as_str().is_empty() || same(gain.as_str(), "0") || same(
                gain.as_str(),
                "0.0",
            ) {
                None
            } else {
                Some(gain)
            },
            None => None,
        }
    }

    /// The settings of a sound conversion.
    fn audio_conversion_params(
        data: &serde_json::Value,
        input: &VideoData,
        range: Option<TrimData>,
    ) -> (result: Result<AudioConversionParams, PipelineError>)
        ensures
            outcome(result) == audio_conversion(*data, input@, range),
    {
        let format = NodeDataExtractor::extract_string_or_default(data, "format", "mp3");
        let bitrate_mode = NodeDataExtractor::extract_string_or_default(data, "bitrateMode", "auto");
        let output_path = match output_field(data, true) {
            Some(path) => path,
            None => match derive_converted_location(input.path.as_str(), format.as_str()) {
                Some(path) => path,
                None => {
                    return Err(invalid("Cannot determine source audio filename"));
                },
            },
        };
        let custom_bitrate = if same(bitrate_mode.as_str(), "custom") {
            text_field(data, "customBitrate")
        } else {
            None
        };
        let vbr_quality = if same(bitrate_mode.as_str(), "vbr") {
            text_field(data, "vbrQuality")
        } else {
            None
        };
        Ok(
            AudioConversionParams {
                input_path: input.path.clone(),
                output_path,
                format,
                quality: NodeDataExtractor::extract_string_or_default(data, "quality", "medium"),
                sample_rate: NodeDataExtractor::extract_string_or_default(
                    data,
                    "sampleRate",
                    "original",
                ),
                bitrate: String::from_str("auto"),
                bitrate_mode,
                custom_bitrate,
                vbr_quality,
                channels: NodeDataExtractor::extract_string_or_default(data, "channels", "original"),
                codec: NodeDataExtractor::extract_string_or_default(data, "codec", "mp3"),
                normalize: NodeDataExtractor::extract_bool_or_default(data, "normalize", false),
                volume_gain: Self::gain_field(data),
                trim_start: start_field(&range),
                trim_end: end_field(&range),
            },
        )
    }

    fn handle_convert_audio(
        &self,
        node: &NodeData,
        context: &ExecutionContext,
        connections: &[ConnectionData],
    ) -> (result: Result<Step, PipelineError>)
        requires
            context.wf(),
        ensures
            outcome(result) == begin_audio_conversion(
                node.data,
                context@,
                input_video(context@, connections@, node.id@, "audio-input"@),
            ),
            result matches Ok(step) ==> step@.wf(),
    {
        let input = match ConnectionHelper::get_input_video(
            node.id.as_str(),
            context,
            connections,
            "audio-input",
        ) {
            Ok(video) => video,
            Err(error) => {
                return Err(error);
            },
        };
        let range = range_field(context, input.path.as_str());
        match Self::audio_conversion_params(&node.data, &input, range) {
            Ok(params) => Ok(Step::Ask(Request::ConvertAudio { params }, Pending::AudioConversion)),
            Err(error) => Err(error),
        }
    }

    /// The settings of a frame extraction.
    fn extraction_params(data: &serde_json::Value, input: &VideoData) -> (result: Result<
        FrameExtractionParams,
        PipelineError,
    >)
        ensures
            outcome(result) == frame_extraction(*data, input@),
    {
        let format = NodeDataExtractor::extract_string_or_default(data, "format", "png");
        let output_pattern = match output_field(data, false) {
            Some(path) => path,
            None => match derive_frames_pattern(input.path.as_str(), format.as_str()) {
                Some(path) => path,
                None => {
                    return Err(invalid("Cannot determine source video filename"));
                },
            },
        };
        Ok(
            FrameExtractionParams {
                input_path: input.path.clone(),
                output_pattern,
                format,
                compression: NodeDataExtractor::extract_string_or_default(
                    data,
                    "compression",
                    "medium",
                ),
                size: NodeDataExtractor::extract_string_or_default(data, "size", "original"),
                fps: NodeDataExtractor::extract_string_or_default(data, "fps", "original"),
                quality: NodeDataExtractor::extract_string_or_default(data, "quality", "high"),
            },
        )
    }

    fn handle_sequence_extract(
        &self,
        node: &NodeData,
        context: &ExecutionContext,
        connections: &[ConnectionData],
    ) -> (result: Result<Step, PipelineError>)
        requires
            context.wf(),
        ensures
            outcome(result) == begin_frames(
                node.data,
                context@,
                input_video(context@, connections@, node.id@, "video-input"@),
            ),
            result matches Ok(step) ==> step@.wf(),
    {
        let input = match ConnectionHelper::get_input_video(
            node.id.as_str(),
            context,
            connections,
            "video-input",
        ) {
            Ok(video) => video,
            Err(error) => {
                return Err(error);
            },
        };
        let trim = range_field(context, input.path.as_str());
        match Self::extraction_params(&node.data, &input) {
            Ok(params) => {
                let path = parent_directory(params.output_pattern.as_str());
                Ok(
                    Step::Ask(
                        Request::CreateDirectory { path },
                        Pending::FramesDirectory { params, trim },
                    ),
                )
            },
            Err(error) => Err(error),
        }
    }

    fn handle_info_video(
        &self,
        node: &NodeData,
        context: &ExecutionContext,
        connections: &[ConnectionData],
    ) -> (result: Result<Step, PipelineError>)
        requires
            context.wf(),
        ensures
            outcome(result) == begin_inspection(
                input_video(context@, connections@, node.id@, "video-input"@),
            ),
            result matches Ok(step) ==> step@.wf(),
    {
        match ConnectionHelper::get_input_video(
            node.id.as_str(),
            context,
            connections,
            "video-input",
        ) {
            Ok(video) => Ok(
                Step::Ask(Request::VideoMetadata { path: video.path }, Pending::Inspection),
            ),
            Err(error) => Err(error),
        }
    }

    /// The artifact that arrives over the first connection into `node_id`.
    fn first_input(node_id: &str, context: &ExecutionContext, connections: &[ConnectionData]) -> (found:
        Option<VideoData>)
        requires
            context.wf(),
        ensures
            match found {
                Some(video) => any_input(context@, connections@, node_id@) == Some(video@),
                None => any_input(context@, connections@, node_id@) is None,
            },
    {
        let n = connections.len();
        let mut i: usize = 0;
        while i < n
            invariant
                context.wf(),
                n == connections@.len(),
                i <= n,
                forall|k: int| 0 <= k < i ==> (#[trigger] connections@[k]).to@ != node_id@,
            decreases n - i,
        {
            if same(connections[i].to.as_str(), node_id) {
                proof {
                    lemma_first_inbound(connections@, node_id@, i as int);
                }
                return match context.get_result(connections[i].from.as_str()) {
                    Ok(video) => Some(video),
                    Err(_) => None,
                };
            }
            i = i + 1;
        }
        proof {
            lemma_first_inbound(connections@, node_id@, i as int);
        }
        None
    }

    fn handle_spectrum_analyzer(
        &self,
        node: &NodeData,
        context: &ExecutionContext,
        connections: &[ConnectionData],
    ) -> (result: Result<Step, PipelineError>)
        requires
            context.wf(),
        ensures
            outcome(result) == begin_spectrum(context@, connections@, node.id@),
            result matches Ok(step) ==> step@.wf(),
    {
        let id = node.id.as_str();
        match ConnectionHelper::get_input_video(id, context, connections, "video-input") {
            Ok(video) => {
                return Ok(Step::Finished(Some(video)));
            },
            Err(_) => {},
        }
        match ConnectionHelper::get_input_video(id, context, connections, "audio-input") {
            Ok(video) => {
                return Ok(Step::Finished(Some(video)));
            },
            Err(_) => {},
        }
        match ConnectionHelper::get_input_video(id, context, connections, "video-output") {
            Ok(video) => {
                return Ok(Step::Finished(Some(video)));
            },
            Err(_) => {},
        }
        match Self::first_input(id, context, connections) {
            Some(video) => Ok(Step::Finished(Some(video))),
            None => Err(invalid("Spectrum analyzer needs an audio/video input connection")),
        }
    }

    /// Takes a node up again when the answer to its request is there:
    /// finishes it, asks for more outside work, or fails. Only a range node
    /// writes to the context.
    pub fn resume(&self, pending: Pending, response: Response, context: &mut ExecutionContext) -> (result:
        Result<Step, PipelineError>)
        requires
            old(context).wf(),
        ensures
            final(context).wf(),
            (outcome(result), final(context)@) == resume(pending@, response@, old(context)@),
            result matches Ok(step) ==> step@.wf(),
    {
        match pending {
            Pending::SourceExists { path, audio } => match response {
                Response::Exists(found) => if found {
                    let request = if audio {
                        Request::AudioInfo { path: path.clone() }
                    } else {
                        Request::VideoInfo { path: path.clone() }
                    };
                    Ok(Step::Ask(request, Pending::SourceInfo { path, audio }))
                } else {
                    Err(
                        PipelineError::InvalidNodeConfig(
                            join("Input file does not exist: ", path.as_str()),
                        ),
                    )
                },
                other => Err(refuse(other)),
            },
            Pending::SourceInfo { path, audio } => match response {
                Response::Video(video) => if !audio {
                    Ok(Step::Finished(Some(video)))
                } else {
                    Err(refuse(Response::Video(video)))
                },
                Response::AudioInfo { duration, format } => if audio {
                    Ok(Step::Finished(Some(sound(path, format, duration))))
                } else {
                    Err(refuse(Response::AudioInfo { duration, format }))
                },
                other => Err(refuse(other)),
            },
            Pending::RangeExists { path, start_time, end_time } => match response {
                Response::Exists(found) => if found {
                    context.add_trim_data(path, start_time, end_time);
                    Ok(Step::Finished(None))
                } else {
                    Err(PipelineError::FileNotFound(path))
                },
                other => Err(refuse(other)),
            },
            Pending::Conversion => match response {
                Response::Video(video) => Ok(Step::Finished(Some(video))),
                other => Err(refuse(other)),
            },
            Pending::AudioConversion => match response {
                Response::Audio(audio) => Ok(
                    Step::Finished(Some(sound(audio.path, audio.format, audio.duration))),
                ),
                other => Err(refuse(other)),
            },
            Pending::FramesDirectory { params, trim } => match response {
                Response::Done => Ok(
                    Step::Ask(Request::ExtractFrames { params, trim }, Pending::Frames),
                ),
                Response::Failed(reason) => Err(PipelineError::DirectoryCreationFailed(reason)),
                _ => Err(
                    PipelineError::FFmpegFailed(
                        String::from_str("Unexpected response from the media backend"),
                    ),
                ),
            },
            Pending::Frames => match response {
                Response::Done => Ok(Step::Finished(None)),
                other => Err(refuse(other)),
            },
            Pending::Inspection => match response {
                Response::Done => Ok(Step::Finished(None)),
                other => Err(refuse(other)),
            },
        }
    }
}

} // verus!
