//! Converting a video: what a conversion is asked to do, and the arguments
//! with which FFmpeg does it.

use vstd::prelude::*;
use crate::decimal::{
    clip, decimal_millionths, format_millionths, format_signed, millionths_text, parse_decimal,
    parse_unsigned, signed_text, span, unsigned_value,
};
use crate::text::{
    append_texts, decimal, decimal_text, join, join3, no_texts, push_pair, push_text, same,
    text_of, views,
};

verus! {

/// Everything a video conversion can be told.
#[derive(Debug)]
pub struct ConversionParams {
    pub input_path: String,
    pub output_path: String,
    pub format: String,
    pub quality: String,
    pub use_gpu: bool,
    pub gpu_type: String,
    /// `auto`, `custom` or `crf`.
    pub bitrate_mode: String,
    /// Megabits per second, for the mode `custom`.
    pub custom_bitrate: Option<String>,
    /// The rate factor, for the mode `crf`.
    pub crf_value: Option<String>,
    /// `original`, a named size, or `custom`.
    pub resolution: String,
    pub custom_width: Option<String>,
    pub custom_height: Option<String>,
    /// `original` or frames per second.
    pub framerate: String,
    pub audio_codec: String,
    /// Kilobits per second.
    pub audio_bitrate: String,
    /// Where to start, in microseconds, if the input is to be trimmed.
    pub trim_start: Option<i64>,
    /// Where to stop, in microseconds, if the input is to be trimmed.
    pub trim_end: Option<i64>,
}

/// `ConversionParams` with its texts as plain sequences of characters.
pub struct ConversionView {
    pub input_path: Seq<char>,
    pub output_path: Seq<char>,
    pub format: Seq<char>,
    pub quality: Seq<char>,
    pub use_gpu: bool,
    pub gpu_type: Seq<char>,
    pub bitrate_mode: Seq<char>,
    pub custom_bitrate: Option<Seq<char>>,
    pub crf_value: Option<Seq<char>>,
    pub resolution: Seq<char>,
    pub custom_width: Option<Seq<char>>,
    pub custom_height: Option<Seq<char>>,
    pub framerate: Seq<char>,
    pub audio_codec: Seq<char>,
    pub audio_bitrate: Seq<char>,
    pub trim_start: Option<i64>,
    pub trim_end: Option<i64>,
}

impl View for ConversionParams {
    type V = ConversionView;

    open spec fn view(&self) -> ConversionView {
        ConversionView {
            input_path: self.input_path@,
            output_path: self.output_path@,
            format: self.format@,
            quality: self.quality@,
            use_gpu: self.use_gpu,
            gpu_type: self.gpu_type@,
            bitrate_mode: self.bitrate_mode@,
            custom_bitrate: text_of(self.custom_bitrate),
            crf_value: text_of(self.crf_value),
            resolution: self.resolution@,
            custom_width: text_of(self.custom_width),
            custom_height: text_of(self.custom_height),
            framerate: self.framerate@,
            audio_codec: self.audio_codec@,
            audio_bitrate: self.audio_bitrate@,
            trim_start: self.trim_start,
            trim_end: self.trim_end,
        }
    }
}

impl ConversionView {
    /// A conversion to MP4 at medium quality that leaves size, frame rate and
    /// length alone; the two locations are empty.
    pub open spec fn standard() -> ConversionView {
        ConversionView {
            input_path: Seq::empty(),
            output_path: Seq::empty(),
            format: "mp4"@,
            quality: "medium"@,
            use_gpu: false,
            gpu_type: "auto"@,
            bitrate_mode: "auto"@,
            custom_bitrate: None,
            crf_value: None,
            resolution: "original"@,
            custom_width: None,
            custom_height: None,
            framerate: "original"@,
            audio_codec: "aac"@,
            audio_bitrate: "128"@,
            trim_start: None,
            trim_end: None,
        }
    }
}

impl Default for ConversionParams {
    fn default() -> (params: Self)
        ensures
            params@ == ConversionView::standard(),
    {
        ConversionParams {
            input_path: String::new(),
            output_path: String::new(),
            format: String::from_str("mp4"),
            quality: String::from_str("medium"),
            use_gpu: false,
            gpu_type: String::from_str("auto"),
            bitrate_mode: String::from_str("auto"),
            custom_bitrate: None,
            crf_value: None,
            resolution: String::from_str("original"),
            custom_width: None,
            custom_height: None,
            framerate: String::from_str("original"),
            audio_codec: String::from_str("aac"),
            audio_bitrate: String::from_str("128"),
            trim_start: None,
            trim_end: None,
        }
    }
}

/// The codecs that videos are encoded with.
#[derive(Debug, Clone, Copy, PartialEq, Eq, Structural)]
pub enum VideoCodec {
    H264,
    VP9,
}

impl VideoCodec {
    /// The name of the encoder that runs on the processor.
    pub open spec fn software(self) -> Seq<char> {
        match self {
            VideoCodec::H264 => "libx264"@,
            VideoCodec::VP9 => "libvpx-vp9"@,
        }
    }

    /// The name of the encoder for the graphics hardware `gpu_type`; the
    /// software encoder where there is none.
    pub open spec fn gpu_variant(self, gpu_type: Seq<char>) -> Seq<char> {
        if self == VideoCodec::H264 && gpu_type == "nvenc"@ {
            "h264_nvenc"@
        } else if self == VideoCodec::H264 && gpu_type == "qsv"@ {
            "h264_qsv"@
        } else if self == VideoCodec::H264 && gpu_type == "videotoolbox"@ {
            "h264_videotoolbox"@
        } else if self == VideoCodec::H264 && gpu_type == "vaapi"@ {
            "h264_vaapi"@
        } else {
            self.software()
        }
    }

    pub fn software_codec(&self) -> (name: String)
        ensures
            name@ == self.software(),
    {
        match self {
            VideoCodec::H264 => String::from_str("libx264"),
            VideoCodec::VP9 => String::from_str("libvpx-vp9"),
        }
    }

    /// Whether graphics hardware can encode with this codec.
    pub fn supports_gpu(&self) -> (supported: bool)
        ensures
            supported == (*self == VideoCodec::H264),
    {
        match self {
            VideoCodec::H264 => true,
            VideoCodec::VP9 => false,
        }
    }

    pub fn get_gpu_variant(&self, gpu_type: &str) -> (name: String)
        ensures
            name@ == self.gpu_variant(gpu_type@),
    {
        match self {
            VideoCodec::H264 => if same(gpu_type, "nvenc") {
                String::from_str("h264_nvenc")
            } else if same(gpu_type, "qsv") {
                String::from_str("h264_qsv")
            } else if same(gpu_type, "videotoolbox") {
                String::from_str("h264_videotoolbox")
            } else if same(gpu_type, "vaapi") {
                String::from_str("h264_vaapi")
            } else {
                self.software_codec()
            },
            VideoCodec::VP9 => self.software_codec(),
        }
    }

    pub fn is_vp9(&self) -> (vp9: bool)
        ensures
            vp9 == (*self == VideoCodec::VP9),
    {
        match self {
            VideoCodec::H264 => false,
            VideoCodec::VP9 => true,
        }
    }
}

/// What becomes of the sound of a video.
#[derive(Debug)]
pub enum AudioCodec {
    /// It is copied as it is.
    Copy,
    /// It is left out.
    Silent,
    /// It is encoded with the named encoder.
    Specific(String),
}

/// An `AudioCodec` with its text as a plain sequence of characters.
pub enum AudioCodecView {
    Copy,
    Silent,
    Specific(Seq<char>),
}

impl View for AudioCodec {
    type V = AudioCodecView;

    open spec fn view(&self) -> AudioCodecView {
        match self {
            AudioCodec::Copy => AudioCodecView::Copy,
            AudioCodec::Silent => AudioCodecView::Silent,
            AudioCodec::Specific(name) => AudioCodecView::Specific(name@),
        }
    }
}

/// The video codec that goes with a container format: VP9 for WebM, H.264
/// for everything else.
pub open spec fn video_codec_of(format: Seq<char>) -> VideoCodec {
    if format == "webm"@ {
        VideoCodec::VP9
    } else {
        VideoCodec::H264
    }
}

/// What becomes of the sound: `copy` and `none` say so themselves; else the
/// named codec is encoded with, under the name that FFmpeg knows it by. WebM
/// holds only Vorbis and Opus, so there everything but Vorbis becomes Opus.
pub open spec fn audio_codec_of(format: Seq<char>, codec: Seq<char>) -> AudioCodecView {
    if codec == "copy"@ {
        AudioCodecView::Copy
    } else if codec == "none"@ {
        AudioCodecView::Silent
    } else if format == "webm"@ {
        if codec == "vorbis"@ {
            AudioCodecView::Specific("libvorbis"@)
        } else {
            AudioCodecView::Specific("libopus"@)
        }
    } else if codec == "opus"@ {
        AudioCodecView::Specific("libopus"@)
    } else if codec == "vorbis"@ {
        AudioCodecView::Specific("libvorbis"@)
    } else if codec == "mp3"@ {
        AudioCodecView::Specific("libmp3lame"@)
    } else {
        AudioCodecView::Specific(codec)
    }
}

/// The arguments that name the input, and the part of it to take where a
/// trim window is given.
pub open spec fn input_arguments(path: Seq<char>, start: Option<i64>, end: Option<i64>) -> Seq<
    Seq<char>,
> {
    if start is Some && end is Some {
        seq![
            "-ss"@,
            millionths_text(start->Some_0),
            "-i"@,
            path,
            "-t"@,
            millionths_text(clip(end->Some_0 - start->Some_0)),
        ]
    } else {
        seq!["-i"@, path]
    }
}

/// The encoder that a conversion uses for the picture.
pub open spec fn picture_encoder(params: ConversionView) -> Seq<char> {
    let codec = video_codec_of(params.format);
    if params.use_gpu && params.gpu_type != "none"@ && codec == VideoCodec::H264 {
        codec.gpu_variant(params.gpu_type)
    } else {
        codec.software()
    }
}

/// The arguments for the sound of a video.
pub open spec fn sound_arguments(params: ConversionView) -> Seq<Seq<char>> {
    match audio_codec_of(params.format, params.audio_codec) {
        AudioCodecView::Copy => seq!["-c:a"@, "copy"@],
        AudioCodecView::Silent => seq!["-an"@],
        AudioCodecView::Specific(name) => seq!["-c:a"@, name] + (match unsigned_value(
            params.audio_bitrate,
        ) {
            Some(rate) if rate <= i32::MAX => seq!["-b:a"@, decimal(rate as nat) + "k"@] + (
            if name == "libopus"@ {
                seq!["-vbr"@, "on"@]
            } else {
                Seq::<Seq<char>>::empty()
            }),
            _ => Seq::<Seq<char>>::empty(),
        }),
    }
}

/// A rate in millionths of a megabit per second as whole kilobits per
/// second, rounded towards zero and held to the 32-bit range.
pub open spec fn kilobits(rate: i64) -> i64 {
    let whole = if rate >= 0 { rate / 1000 } else { -((-rate) / 1000) };
    if whole > i32::MAX {
        i32::MAX as i64
    } else if whole < i32::MIN {
        i32::MIN as i64
    } else {
        whole as i64
    }
}

/// The rate factor that goes with a named quality.
pub open spec fn quality_factor(quality: Seq<char>) -> Seq<char> {
    if quality == "low"@ {
        "28"@
    } else if quality == "high"@ {
        "18"@
    } else if quality == "ultra"@ {
        "15"@
    } else {
        "23"@
    }
}

/// The arguments that set the rate or the quality of the picture.
pub open spec fn rate_arguments(params: ConversionView) -> Seq<Seq<char>> {
    if params.bitrate_mode == "custom"@ {
        match params.custom_bitrate {
            Some(text) => match decimal_millionths(text) {
                Some(rate) => seq!["-b:v"@, signed_text(kilobits(rate)) + "k"@],
                None => Seq::<Seq<char>>::empty(),
            },
            None => Seq::<Seq<char>>::empty(),
        }
    } else if params.bitrate_mode == "crf"@ {
        match params.crf_value {
            Some(factor) => seq!["-crf"@, factor],
            None => seq!["-crf"@, "23"@],
        }
    } else {
        seq!["-crf"@, quality_factor(params.quality)]
    }
}

/// The filter that scales the picture to a named size.
pub open spec fn scale_filter(params: ConversionView) -> Seq<char> {
    if params.resolution == "480p"@ {
        "scale=854:480"@
    } else if params.resolution == "720p"@ {
        "scale=1280:720"@
    } else if params.resolution == "1440p"@ {
        "scale=2560:1440"@
    } else if params.resolution == "4k"@ {
        "scale=3840:2160"@
    } else if params.resolution == "custom"@ && params.custom_width is Some
        && params.custom_height is Some {
        "scale="@ + params.custom_width->Some_0 + ":"@ + params.custom_height->Some_0
    } else {
        "scale=1920:1080"@
    }
}

/// The arguments that scale the picture.
pub open spec fn scale_arguments(params: ConversionView) -> Seq<Seq<char>> {
    if params.resolution == "original"@ {
        Seq::<Seq<char>>::empty()
    } else {
        seq!["-vf"@, scale_filter(params)]
    }
}

/// The arguments that set the frame rate.
pub open spec fn framerate_arguments(params: ConversionView) -> Seq<Seq<char>> {
    if params.framerate == "original"@ {
        Seq::<Seq<char>>::empty()
    } else {
        seq!["-r"@, params.framerate]
    }
}

/// The arguments that go with the container format.
pub open spec fn container_arguments(format: Seq<char>) -> Seq<Seq<char>> {
    if format == "mp4"@ {
        seq!["-movflags"@, "+faststart"@, "-pix_fmt"@, "yuv420p"@]
    } else if format == "mkv"@ {
        Seq::<Seq<char>>::empty()
    } else {
        seq!["-pix_fmt"@, "yuv420p"@]
    }
}

/// The encoding preset that goes with a named quality.
pub open spec fn preset_of(quality: Seq<char>) -> Seq<char> {
    if quality == "low"@ {
        "fast"@
    } else if quality == "high"@ {
        "slow"@
    } else if quality == "ultra"@ {
        "veryslow"@
    } else {
        "medium"@
    }
}

/// The arguments that set the preset of a software encoder.
pub open spec fn preset_arguments(params: ConversionView) -> Seq<Seq<char>> {
    if !params.use_gpu && video_codec_of(params.format) != VideoCodec::VP9 {
        seq!["-preset"@, preset_of(params.quality)]
    } else {
        Seq::<Seq<char>>::empty()
    }
}

/// The arguments with which FFmpeg carries out a conversion: overwrite, the
/// input, the picture encoder, the sound, rate or quality, size, frame rate,
/// what the container asks for, the preset, and the output at the end.
pub open spec fn conversion_arguments(params: ConversionView) -> Seq<Seq<char>> {
    seq!["-y"@] + input_arguments(params.input_path, params.trim_start, params.trim_end) + seq![
        "-c:v"@,
        picture_encoder(params),
    ] + sound_arguments(params) + rate_arguments(params) + scale_arguments(params)
        + framerate_arguments(params) + container_arguments(params.format) + preset_arguments(
        params,
    ) + seq![params.output_path]
}

/// The arguments that name the input, and the part of it to take where a trim
/// window is given.
pub fn build_input_arguments(path: &str, start: Option<i64>, end: Option<i64>) -> (args: Vec<String>)
    ensures
        views(args@) == input_arguments(path@, start, end),
{
    let mut args = no_texts();
    match (start, end) {
        (Some(from), Some(to)) => {
            push_pair(&mut args, "-ss", format_millionths(from).as_str());
            push_pair(&mut args, "-i", path);
            push_pair(&mut args, "-t", format_millionths(span(from, to)).as_str());
        },
        _ => {
            push_pair(&mut args, "-i", path);
        },
    }
    assert(views(args@) =~= input_arguments(path@, start, end));
    args
}

/// The service that converts videos.
pub struct VideoConversionService;

impl VideoConversionService {
    pub fn new() -> (service: Self) {
        VideoConversionService
    }

    /// The codecs that go with the container format and the choice of sound.
    pub fn get_format_specific_codecs(&self, params: &ConversionParams) -> (codecs: (
        VideoCodec,
        AudioCodec,
    ))
        ensures
            codecs.0 == video_codec_of(params.format@),
            codecs.1@ == audio_codec_of(params.format@, params.audio_codec@),
    {
        let format = params.format.as_str();
        let codec = params.audio_codec.as_str();
        let webm = same(format, "webm");
        let audio = if same(codec, "copy") {
            AudioCodec::Copy
        } else if same(codec, "none") {
            AudioCodec::Silent
        } else if webm {
            if same(codec, "vorbis") {
                AudioCodec::Specific(String::from_str("libvorbis"))
            } else {
                AudioCodec::Specific(String::from_str("libopus"))
            }
        } else if same(codec, "opus") {
            AudioCodec::Specific(String::from_str("libopus"))
        } else if same(codec, "vorbis") {
            AudioCodec::Specific(String::from_str("libvorbis"))
        } else if same(codec, "mp3") {
            AudioCodec::Specific(String::from_str("libmp3lame"))
        } else {
            AudioCodec::Specific(String::from_str(codec))
        };
        (if webm { VideoCodec::VP9 } else { VideoCodec::H264 }, audio)
    }

    fn picture_encoder(&self, params: &ConversionParams, codec: VideoCodec) -> (name: String)
        requires
            codec == video_codec_of(params.format@),
        ensures
            name@ == picture_encoder(params@),
    {
        if params.use_gpu && !same(params.gpu_type.as_str(), "none") && codec.supports_gpu() {
            codec.get_gpu_variant(params.gpu_type.as_str())
        } else {
            codec.software_codec()
        }
    }

    fn sound_arguments(&self, params: &ConversionParams, codec: AudioCodec) -> (args: Vec<String>)
        requires
            codec@ == audio_codec_of(params.format@, params.audio_codec@),
        ensures
            views(args@) == sound_arguments(params@),
    {
        let mut args = no_texts();
        match codec {
            AudioCodec::Copy => {
                push_pair(&mut args, "-c:a", "copy");
            },
            AudioCodec::Silent => {
                push_text(&mut args, "-an");
            },
            AudioCodec::Specific(name) => {
                push_pair(&mut args, "-c:a", name.as_str());
                match parse_unsigned(params.audio_bitrate.as_str()) {
                    Some(rate) => if rate <= i32::MAX as u64 {
                        push_pair(&mut args, "-b:a", join(decimal_text(rate).as_str(), "k").as_str());
                        if same(name.as_str(), "libopus") {
                            push_pair(&mut args, "-vbr", "on");
                        }
                    },
                    None => {},
                }
            },
        }
        assert(views(args@) =~= sound_arguments(params@));
        args
    }

    /// A rate in millionths of a megabit per second as kilobits per second.
    fn kilobits(rate: i64) -> (whole: i64)
        ensures
            whole == kilobits(rate),
    {
        let whole = rate / 1000;
        if whole > i32::MAX as i64 {
            i32::MAX as i64
        } else if whole < i32::MIN as i64 {
            i32::MIN as i64
        } else {
            whole
        }
    }

    fn rate_arguments(&self, params: &ConversionParams) -> (args: Vec<String>)
        ensures
            views(args@) == rate_arguments(params@),
    {
        let mut args = no_texts();
        let mode = params.bitrate_mode.as_str();
        if same(mode, "custom") {
            match &params.custom_bitrate {
                Some(text) => match parse_decimal(text.as_str()) {
                    Some(rate) => {
                        let value = join(format_signed(Self::kilobits(rate)).as_str(), "k");
                        push_pair(&mut args, "-b:v", value.as_str());
                    },
                    None => {},
                },
                None => {},
            }
        } else if same(mode, "crf") {
            match &params.crf_value {
                Some(factor) => {
                    push_pair(&mut args, "-crf", factor.as_str());
                },
                None => {
                    push_pair(&mut args, "-crf", "23");
                },
            }
        } else {
            let quality = params.quality.as_str();
            let factor = if same(quality, "low") {
                "28"
            } else if same(quality, "high") {
                "18"
            } else if same(quality, "ultra") {
                "15"
            } else {
                "23"
            };
            push_pair(&mut args, "-crf", factor);
        }
        assert(views(args@) =~= rate_arguments(params@));
        args
    }

    fn scale_filter(&self, params: &ConversionParams) -> (filter: String)
        ensures
            filter@ == scale_filter(params@),
    {
        let size = params.resolution.as_str();
        if same(size, "480p") {
            String::from_str("scale=854:480")
        } else if same(size, "720p") {
            String::from_str("scale=1280:720")
        } else if same(size, "1440p") {
            String::from_str("scale=2560:1440")
        } else if same(size, "4k") {
            String::from_str("scale=3840:2160")
        } else {
            if same(size, "custom") {
                match (&params.custom_width, &params.custom_height) {
                    (Some(width), Some(height)) => {
                        let head = join3("scale=", width.as_str(), ":");
                        return head.concat(height.as_str());
                    },
                    _ => {},
                }
            }
            String::from_str("scale=1920:1080")
        }
    }

    fn tail_arguments(&self, params: &ConversionParams, codec: VideoCodec) -> (args: Vec<String>)
        requires
            codec == video_codec_of(params.format@),
        ensures
            views(args@) == scale_arguments(params@) + framerate_arguments(params@)
                + container_arguments(params.format@) + preset_arguments(params@) + seq![
                params.output_path@,
            ],
    {
        let mut args = no_texts();
        if !same(params.resolution.as_str(), "original") {
            push_pair(&mut args, "-vf", self.scale_filter(params).as_str());
        }
        if !same(params.framerate.as_str(), "original") {
            push_pair(&mut args, "-r", params.framerate.as_str());
        }
        let format = params.format.as_str();
        if same(format, "mp4") {
            push_pair(&mut args, "-movflags", "+faststart");
            push_pair(&mut args, "-pix_fmt", "yuv420p");
        } else if !same(format, "mkv") {
            push_pair(&mut args, "-pix_fmt", "yuv420p");
        }
        if !params.use_gpu && !codec.is_vp9() {
            let quality = params.quality.as_str();
            let preset = if same(quality, "low") {
                "fast"
            } else if same(quality, "high") {
                "slow"
            } else if same(quality, "ultra") {
                "veryslow"
            } else {
                "medium"
            };
            push_pair(&mut args, "-preset", preset);
        }
        push_text(&mut args, params.output_path.as_str());
        assert(views(args@) =~= scale_arguments(params@) + framerate_arguments(params@)
            + container_arguments(params.format@) + preset_arguments(params@) + seq![
            params.output_path@,
        ]);
        args
    }

    /// The arguments with which FFmpeg carries out the conversion `params`.
    pub fn enhanced_conversion(&self, params: &ConversionParams) -> (args: Vec<String>)
        ensures
            views(args@) == conversion_arguments(params@),
    {
        let (video_codec, audio_codec) = self.get_format_specific_codecs(params);
        let mut args = no_texts();
        push_text(&mut args, "-y");
        append_texts(
            &mut args,
            build_input_arguments(params.input_path.as_str(), params.trim_start, params.trim_end),
        );
        push_pair(&mut args, "-c:v", self.picture_encoder(params, video_codec).as_str());
        append_texts(&mut args, self.sound_arguments(params, audio_codec));
        append_texts(&mut args, self.rate_arguments(params));
        append_texts(&mut args, self.tail_arguments(params, video_codec));
        assert(views(args@) =~= conversion_arguments(params@));
        args
    }

    /// The arguments of a conversion that leaves everything to FFmpeg.
    pub fn simple_conversion(&self, input_path: &str, output_path: &str) -> (args: Vec<String>)
        ensures
            views(args@) == seq!["-i"@, input_path@, "-y"@, output_path@],
    {
        let mut args = no_texts();
        push_pair(&mut args, "-i", input_path);
        push_pair(&mut args, "-y", output_path);
        assert(views(args@) =~= seq!["-i"@, input_path@, "-y"@, output_path@]);
        args
    }
}

} // verus!
