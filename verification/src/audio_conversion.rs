//! Converting sound: what a conversion is asked to do, and the arguments with
//! which FFmpeg does it.

use vstd::prelude::*;
use crate::decimal::{decimal_millionths, format_millionths, millionths_text, parse_decimal};
use crate::text::{
    append_texts, join, join3, no_texts, push_pair, push_text, same, text_of, views,
};
use crate::video_conversion::{build_input_arguments, input_arguments};

verus! {

/// Everything a sound conversion can be told.
#[derive(Debug)]
pub struct AudioConversionParams {
    pub input_path: String,
    pub output_path: String,
    pub format: String,
    pub quality: String,
    /// `original` or samples per second.
    pub sample_rate: String,
    pub bitrate: String,
    /// `auto`, `custom` or `vbr`.
    pub bitrate_mode: String,
    /// Kilobits per second, for the mode `custom`.
    pub custom_bitrate: Option<String>,
    /// The quality level, for the mode `vbr`.
    pub vbr_quality: Option<String>,
    /// `original` or the number of channels.
    pub channels: String,
    pub codec: String,
    pub normalize: bool,
    /// Gain in decibels.
    pub volume_gain: Option<String>,
    /// Where to start, in microseconds, if the input is to be trimmed.
    pub trim_start: Option<i64>,
    /// Where to stop, in microseconds, if the input is to be trimmed.
    pub trim_end: Option<i64>,
}

/// `AudioConversionParams` with its texts as plain sequences of characters.
pub struct AudioConversionView {
    pub input_path: Seq<char>,
    pub output_path: Seq<char>,
    pub format: Seq<char>,
    pub quality: Seq<char>,
    pub sample_rate: Seq<char>,
    pub bitrate: Seq<char>,
    pub bitrate_mode: Seq<char>,
    pub custom_bitrate: Option<Seq<char>>,
    pub vbr_quality: Option<Seq<char>>,
    pub channels: Seq<char>,
    pub codec: Seq<char>,
    pub normalize: bool,
    pub volume_gain: Option<Seq<char>>,
    pub trim_start: Option<i64>,
    pub trim_end: Option<i64>,
}

impl View for AudioConversionParams {
    type V = AudioConversionView;

    open spec fn view(&self) -> AudioConversionView {
        AudioConversionView {
            input_path: self.input_path@,
            output_path: self.output_path@,
            format: self.format@,
            quality: self.quality@,
            sample_rate: self.sample_rate@,
            bitrate: self.bitrate@,
            bitrate_mode: self.bitrate_mode@,
            custom_bitrate: text_of(self.custom_bitrate),
            vbr_quality: text_of(self.vbr_quality),
            channels: self.channels@,
            codec: self.codec@,
            normalize: self.normalize,
            volume_gain: text_of(self.volume_gain),
            trim_start: self.trim_start,
            trim_end: self.trim_end,
        }
    }
}

impl AudioConversionView {
    /// A conversion to MP3 at medium quality that leaves sample rate, channels
    /// and length alone; the two locations are empty.
    pub open spec fn standard() -> AudioConversionView {
        AudioConversionView {
            input_path: Seq::empty(),
            output_path: Seq::empty(),
            format: "mp3"@,
            quality: "medium"@,
            sample_rate: "original"@,
            bitrate: "auto"@,
            bitrate_mode: "auto"@,
            custom_bitrate: None,
            vbr_quality: None,
            channels: "original"@,
            codec: "mp3"@,
            normalize: false,
            volume_gain: None,
            trim_start: None,
            trim_end: None,
        }
    }
}

impl Default for AudioConversionParams {
    fn default() -> (params: Self)
        ensures
            params@ == AudioConversionView::standard(),
    {
        AudioConversionParams {
            input_path: String::new(),
            output_path: String::new(),
            format: String::from_str("mp3"),
            quality: String::from_str("medium"),
            sample_rate: String::from_str("original"),
            bitrate: String::from_str("auto"),
            bitrate_mode: String::from_str("auto"),
            custom_bitrate: None,
            vbr_quality: None,
            channels: String::from_str("original"),
            codec: String::from_str("mp3"),
            normalize: false,
            volume_gain: None,
            trim_start: None,
            trim_end: None,
        }
    }
}

/// What becomes of the sound.
#[derive(Debug)]
pub enum AudioCodec {
    /// It is copied as it is.
    Copy,
    /// It is encoded with the named encoder.
    Specific(String),
}

/// An `AudioCodec` with its text as a plain sequence of characters.
pub enum AudioCodecView {
    Copy,
    Specific(Seq<char>),
}

impl View for AudioCodec {
    type V = AudioCodecView;

    open spec fn view(&self) -> AudioCodecView {
        match self {
            AudioCodec::Copy => AudioCodecView::Copy,
            AudioCodec::Specific(name) => AudioCodecView::Specific(name@),
        }
    }
}

/// The encoder that goes with a format and a named codec: `copy` copies; MP3
/// files are encoded with LAME and Ogg files with the Vorbis or Opus
/// library where those codecs are named; FLAC and WAV files have their own
/// encoder whatever is named; else the named codec is taken as it is.
pub open spec fn audio_codec_of(format: Seq<char>, codec: Seq<char>) -> AudioCodecView {
    if codec == "copy"@ {
        AudioCodecView::Copy
    } else if format == "mp3"@ {
        AudioCodecView::Specific(if codec == "mp3"@ { "libmp3lame"@ } else { codec })
    } else if format == "ogg"@ {
        AudioCodecView::Specific(
            if codec == "vorbis"@ {
                "libvorbis"@
            } else if codec == "opus"@ {
                "libopus"@
            } else {
                codec
            },
        )
    } else if format == "flac"@ {
        AudioCodecView::Specific("flac"@)
    } else if format == "wav"@ {
        AudioCodecView::Specific("pcm_s16le"@)
    } else {
        AudioCodecView::Specific(codec)
    }
}

/// The arguments that name the encoder.
pub open spec fn codec_arguments(params: AudioConversionView) -> Seq<Seq<char>> {
    match audio_codec_of(params.format, params.codec) {
        AudioCodecView::Copy => seq!["-c:a"@, "copy"@],
        AudioCodecView::Specific(name) => seq!["-c:a"@, name],
    }
}

/// The arguments that set sample rate and channels.
pub open spec fn shape_arguments(params: AudioConversionView) -> Seq<Seq<char>> {
    (if params.sample_rate == "original"@ {
        Seq::<Seq<char>>::empty()
    } else {
        seq!["-ar"@, params.sample_rate]
    }) + (if params.channels == "original"@ {
        Seq::<Seq<char>>::empty()
    } else {
        seq!["-ac"@, params.channels]
    })
}

/// The bitrate that goes with a named quality.
pub open spec fn quality_bitrate(quality: Seq<char>) -> Seq<char> {
    if quality == "low"@ {
        "128k"@
    } else if quality == "high"@ {
        "256k"@
    } else if quality == "ultra"@ {
        "320k"@
    } else {
        "192k"@
    }
}

/// The arguments that set the rate or the quality of an encoding.
pub open spec fn quality_arguments(params: AudioConversionView) -> Seq<Seq<char>> {
    if params.bitrate_mode == "custom"@ {
        match params.custom_bitrate {
            Some(rate) => seq!["-b:a"@, rate + "k"@],
            None => Seq::<Seq<char>>::empty(),
        }
    } else if params.bitrate_mode == "vbr"@ {
        match params.vbr_quality {
            Some(level) => if params.codec == "mp3"@ || params.codec == "vorbis"@ {
                seq!["-q:a"@, level]
            } else if params.codec == "opus"@ {
                seq!["-vbr"@, "on"@, "-compression_level"@, level]
            } else {
                seq!["-b:a"@, "192k"@]
            },
            None => seq!["-q:a"@, "5"@],
        }
    } else {
        seq!["-b:a"@, quality_bitrate(params.quality)]
    }
}

/// The gain filter, where a gain other than zero is asked for.
pub open spec fn gain_filter(params: AudioConversionView) -> Option<Seq<char>> {
    match params.volume_gain {
        Some(text) => match decimal_millionths(text) {
            Some(gain) if gain != 0 => Some("volume="@ + millionths_text(gain) + "dB"@),
            _ => None,
        },
        None => None,
    }
}

/// The arguments that filter the sound: the gain, then the normalisation,
/// joined by a comma.
pub open spec fn filter_arguments(params: AudioConversionView) -> Seq<Seq<char>> {
    match gain_filter(params) {
        Some(gain) => if params.normalize {
            seq!["-af"@, gain + ","@ + "loudnorm"@]
        } else {
            seq!["-af"@, gain]
        },
        None => if params.normalize {
            seq!["-af"@, "loudnorm"@]
        } else {
            Seq::<Seq<char>>::empty()
        },
    }
}

/// The arguments that go with the format.
pub open spec fn format_arguments(format: Seq<char>) -> Seq<Seq<char>> {
    if format == "flac"@ {
        seq!["-compression_level"@, "5"@]
    } else {
        Seq::<Seq<char>>::empty()
    }
}

/// The arguments with which FFmpeg carries out a sound conversion:
/// overwrite, the input, the encoder, sample rate and channels, rate or
/// quality unless the sound is copied, the filters, what the format asks
/// for, and the output at the end.
pub open spec fn conversion_arguments(params: AudioConversionView) -> Seq<Seq<char>> {
    seq!["-y"@] + input_arguments(params.input_path, params.trim_start, params.trim_end)
        + codec_arguments(params) + shape_arguments(params) + (if audio_codec_of(
        params.format,
        params.codec,
    ) is Copy {
        Seq::<Seq<char>>::empty()
    } else {
        quality_arguments(params)
    }) + filter_arguments(params) + format_arguments(params.format) + seq![params.output_path]
}

/// The service that converts sound.
pub struct AudioConversionService;

impl AudioConversionService {
    pub fn new() -> (service: Self) {
        AudioConversionService
    }

    /// The encoder that goes with the format and the named codec.
    pub fn get_format_specific_codec(&self, params: &AudioConversionParams) -> (codec: AudioCodec)
        ensures
            codec@ == audio_codec_of(params.format@, params.codec@),
    {
        let format = params.format.as_str();
        let codec = params.codec.as_str();
        if same(codec, "copy") {
            AudioCodec::Copy
        } else if same(format, "mp3") {
            AudioCodec::Specific(
                if same(codec, "mp3") {
                    String::from_str("libmp3lame")
                } else {
                    String::from_str(codec)
                },
            )
        } else if same(format, "ogg") {
            AudioCodec::Specific(
                if same(codec, "vorbis") {
                    String::from_str("libvorbis")
                } else if same(codec, "opus") {
                    String::from_str("libopus")
                } else {
                    String::from_str(codec)
                },
            )
        } else if same(format, "flac") {
            AudioCodec::Specific(String::from_str("flac"))
        } else if same(format, "wav") {
            AudioCodec::Specific(String::from_str("pcm_s16le"))
        } else {
            AudioCodec::Specific(String::from_str(codec))
        }
    }

    /// The arguments that set the rate or the quality of an encoding.
    pub fn apply_audio_quality(&self, params: &AudioConversionParams) -> (args: Vec<String>)
        ensures
            views(args@) == quality_arguments(params@),
    {
        let mut args = no_texts();
        let mode = params.bitrate_mode.as_str();
        if same(mode, "custom") {
            match &params.custom_bitrate {
                Some(rate) => {
                    push_pair(&mut args, "-b:a", join(rate.as_str(), "k").as_str());
                },
                None => {},
            }
        } else if same(mode, "vbr") {
            match &params.vbr_quality {
                Some(level) => {
                    let codec = params.codec.as_str();
                    if same(codec, "mp3") || same(codec, "vorbis") {
                        push_pair(&mut args, "-q:a", level.as_str());
                    } else if same(codec, "opus") {
                        push_pair(&mut args, "-vbr", "on");
                        push_pair(&mut args, "-compression_level", level.as_str());
                    } else {
                        push_pair(&mut args, "-b:a", "192k");
                    }
                },
                None => {
                    push_pair(&mut args, "-q:a", "5");
                },
            }
        } else {
            let quality = params.quality.as_str();
            let rate = if same(quality, "low") {
                "128k"
            } else if same(quality, "high") {
                "256k"
            } else if same(quality, "ultra") {
                "320k"
            } else {
                "192k"
            };
            push_pair(&mut args, "-b:a", rate);
        }
        assert(views(args@) =~= quality_arguments(params@));
        args
    }

    fn gain_filter(params: &AudioConversionParams) -> (filter: Option<String>)
        ensures
            text_of(filter) == gain_filter(params@),
    {
        match &params.volume_gain {
            Some(text) => match parse_decimal(text.as_str()) {
                Some(gain) => if gain != 0 {
                    Some(join3("volume=", format_millionths(gain).as_str(), "dB"))
                } else {
                    None
                },
                None => None,
            },
            None => None,
        }
    }

    /// The arguments that filter the sound.
    pub fn apply_audio_processing(&self, params: &AudioConversionParams) -> (args: Vec<String>)
        ensures
            views(args@) == filter_arguments(params@),
    {
        let mut args = no_texts();
        match Self::gain_filter(params) {
            Some(gain) => if params.normalize {
                push_pair(&mut args, "-af", join3(gain.as_str(), ",", "loudnorm").as_str());
            } else {
                push_pair(&mut args, "-af", gain.as_str());
            },
            None => if params.normalize {
                push_pair(&mut args, "-af", "loudnorm");
            },
        }
        assert(views(args@) =~= filter_arguments(params@));
        args
    }

    /// The arguments that go with the format.
    pub fn apply_format_optimizations(&self, params: &AudioConversionParams) -> (args: Vec<String>)
        ensures
            views(args@) == format_arguments(params.format@),
    {
        let mut args = no_texts();
        if same(params.format.as_str(), "flac") {
            push_pair(&mut args, "-compression_level", "5");
        }
        assert(views(args@) =~= format_arguments(params.format@));
        args
    }

    fn head_arguments(&self, params: &AudioConversionParams) -> (args: Vec<String>)
        ensures
            views(args@) == seq!["-y"@] + input_arguments(
                params.input_path@,
                params.trim_start,
                params.trim_end,
            ) + codec_arguments(params@) + shape_arguments(params@),
    {
        let mut args = no_texts();
        push_text(&mut args, "-y");
        append_texts(
            &mut args,
            build_input_arguments(params.input_path.as_str(), params.trim_start, params.trim_end),
        );
        match self.get_format_specific_codec(params) {
            AudioCodec::Copy => {
                push_pair(&mut args, "-c:a", "copy");
            },
            AudioCodec::Specific(name) => {
                push_pair(&mut args, "-c:a", name.as_str());
            },
        }
        if !same(params.sample_rate.as_str(), "original") {
            push_pair(&mut args, "-ar", params.sample_rate.as_str());
        }
        if !same(params.channels.as_str(), "original") {
            push_pair(&mut args, "-ac", params.channels.as_str());
        }
        assert(views(args@) =~= seq!["-y"@] + input_arguments(
            params.input_path@,
            params.trim_start,
            params.trim_end,
        ) + codec_arguments(params@) + shape_arguments(params@));
        args
    }

    /// The arguments with which FFmpeg carries out the conversion `params`.
    pub fn enhanced_audio_conversion(&self, params: &AudioConversionParams) -> (args: Vec<String>)
        ensures
            views(args@) == conversion_arguments(params@),
    {
        let mut args = self.head_arguments(params);
        let copied = match self.get_format_specific_codec(params) {
            AudioCodec::Copy => true,
            AudioCodec::Specific(_) => false,
        };
        if !copied {
            append_texts(&mut args, self.apply_audio_quality(params));
        }
        append_texts(&mut args, self.apply_audio_processing(params));
        append_texts(&mut args, self.apply_format_optimizations(params));
        push_text(&mut args, params.output_path.as_str());
        assert(views(args@) =~= conversion_arguments(params@));
        args
    }
}

} // verus!
