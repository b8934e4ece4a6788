//! Extracting the frames of a video as images: what an extraction is asked
//! to do, and the arguments with which FFmpeg does it.

use vstd::prelude::*;
use crate::decimal::{clip, format_millionths, millionths_text, span};
use crate::media::TrimData;
use crate::text::{append_texts, join, join3, no_texts, push_pair, push_text, same, views};

verus! {

/// Everything a frame extraction can be told.
#[derive(Debug)]
pub struct FrameExtractionParams {
    pub input_path: String,
    /// Where the images go, with a `%04d` for the frame's number.
    pub output_pattern: String,
    pub format: String,
    pub compression: String,
    /// `original` or a named size.
    pub size: String,
    /// `original` or frames per second.
    pub fps: String,
    pub quality: String,
}

/// `FrameExtractionParams` with its texts as plain sequences of characters.
pub struct FrameExtractionView {
    pub input_path: Seq<char>,
    pub output_pattern: Seq<char>,
    pub format: Seq<char>,
    pub compression: Seq<char>,
    pub size: Seq<char>,
    pub fps: Seq<char>,
    pub quality: Seq<char>,
}

impl View for FrameExtractionParams {
    type V = FrameExtractionView;

    open spec fn view(&self) -> FrameExtractionView {
        FrameExtractionView {
            input_path: self.input_path@,
            output_pattern: self.output_pattern@,
            format: self.format@,
            compression: self.compression@,
            size: self.size@,
            fps: self.fps@,
            quality: self.quality@,
        }
    }
}

/// The filter that scales to a named size; empty for a name that is none.
pub open spec fn scale_filter(size: Seq<char>) -> Seq<char> {
    if size == "4k"@ {
        "scale=3840:2160"@
    } else if size == "1080p"@ {
        "scale=1920:1080"@
    } else if size == "720p"@ {
        "scale=1280:720"@
    } else if size == "480p"@ {
        "scale=854:480"@
    } else {
        Seq::<char>::empty()
    }
}

/// The PNG compression level that goes with a named compression.
pub open spec fn png_compression(compression: Seq<char>) -> Seq<char> {
    if compression == "none"@ {
        "0"@
    } else if compression == "low"@ {
        "2"@
    } else if compression == "high"@ {
        "8"@
    } else if compression == "maximum"@ {
        "9"@
    } else {
        "6"@
    }
}

/// The JPEG quantiser that goes with a named quality.
pub open spec fn jpeg_quality(quality: Seq<char>) -> Seq<char> {
    if quality == "low"@ {
        "10"@
    } else if quality == "medium"@ {
        "5"@
    } else if quality == "ultra"@ {
        "1"@
    } else {
        "2"@
    }
}

/// The TIFF compression that goes with a named compression.
pub open spec fn tiff_compression(compression: Seq<char>) -> Seq<char> {
    if compression == "none"@ {
        "none"@
    } else if compression == "medium"@ || compression == "high"@ || compression == "maximum"@ {
        "zip"@
    } else {
        "lzw"@
    }
}

/// The arguments that name the input, and the part of it to take where a trim
/// window is given.
pub open spec fn source_arguments(input: Seq<char>, trim: Option<TrimData>) -> Seq<Seq<char>> {
    match trim {
        Some(window) => seq![
            "-y"@,
            "-ss"@,
            millionths_text(window.start_time),
            "-i"@,
            input,
            "-t"@,
            millionths_text(clip(window.end_time - window.start_time)),
        ],
        None => seq!["-y"@, "-i"@, input],
    }
}

/// The arguments that filter the picture: the frame rate, then the size,
/// joined by a comma.
pub open spec fn filter_arguments(params: FrameExtractionView) -> Seq<Seq<char>> {
    let rated = params.fps != "original"@;
    let scaled = params.size != "original"@ && scale_filter(params.size).len() > 0;
    if rated && scaled {
        seq!["-vf"@, "fps="@ + params.fps + ","@ + scale_filter(params.size)]
    } else if rated {
        seq!["-vf"@, "fps="@ + params.fps]
    } else if scaled {
        seq!["-vf"@, scale_filter(params.size)]
    } else {
        Seq::<Seq<char>>::empty()
    }
}

/// The arguments that go with the image format.
pub open spec fn format_arguments(params: FrameExtractionView) -> Seq<Seq<char>> {
    if params.format == "png"@ {
        seq!["-compression_level"@, png_compression(params.compression)]
    } else if params.format == "jpg"@ || params.format == "jpeg"@ {
        seq!["-q:v"@, jpeg_quality(params.quality)]
    } else if params.format == "tiff"@ {
        seq!["-compression_algo"@, tiff_compression(params.compression)]
    } else {
        Seq::<Seq<char>>::empty()
    }
}

/// The arguments with which FFmpeg extracts frames: the input, the filters,
/// what the image format asks for, and the pattern of the outputs at the end.
pub open spec fn extraction_arguments(params: FrameExtractionView, trim: Option<TrimData>) -> Seq<
    Seq<char>,
> {
    source_arguments(params.input_path, trim) + filter_arguments(params) + format_arguments(params)
        + seq![params.output_pattern]
}

/// The service that extracts frames.
pub struct FrameExtractionService;

impl FrameExtractionService {
    pub fn new() -> (service: Self) {
        FrameExtractionService
    }

    /// The filter that scales to a named size.
    pub fn get_scale_filter(&self, size: &str) -> (filter: String)
        ensures
            filter@ == scale_filter(size@),
    {
        if same(size, "4k") {
            String::from_str("scale=3840:2160")
        } else if same(size, "1080p") {
            String::from_str("scale=1920:1080")
        } else if same(size, "720p") {
            String::from_str("scale=1280:720")
        } else if same(size, "480p") {
            String::from_str("scale=854:480")
        } else {
            String::new()
        }
    }

    /// The PNG compression level that goes with a named compression.
    pub fn get_png_compression(&self, compression: &str) -> (level: &'static str)
        ensures
            level@ == png_compression(compression@),
    {
        if same(compression, "none") {
            "0"
        } else if same(compression, "low") {
            "2"
        } else if same(compression, "high") {
            "8"
        } else if same(compression, "maximum") {
            "9"
        } else {
            "6"
        }
    }

    /// The JPEG quantiser that goes with a named quality.
    pub fn get_jpeg_quality(&self, quality: &str) -> (level: &'static str)
        ensures
            level@ == jpeg_quality(quality@),
    {
        if same(quality, "low") {
            "10"
        } else if same(quality, "medium") {
            "5"
        } else if same(quality, "ultra") {
            "1"
        } else {
            "2"
        }
    }

    /// The arguments that go with the image format.
    pub fn apply_format_settings(&self, params: &FrameExtractionParams) -> (args: Vec<String>)
        ensures
            views(args@) == format_arguments(params@),
    {
        let mut args = no_texts();
        let format = params.format.as_str();
        if same(format, "png") {
            push_pair(
                &mut args,
                "-compression_level",
                self.get_png_compression(params.compression.as_str()),
            );
        } else if same(format, "jpg") || same(format, "jpeg") {
            push_pair(&mut args, "-q:v", self.get_jpeg_quality(params.quality.as_str()));
        } else if same(format, "tiff") {
            let compression = params.compression.as_str();
            let algorithm = if same(compression, "none") {
                "none"
            } else if same(compression, "medium") || same(compression, "high") || same(
                compression,
                "maximum",
            ) {
                "zip"
            } else {
                "lzw"
            };
            push_pair(&mut args, "-compression_algo", algorithm);
        }
        assert(views(args@) =~= format_arguments(params@));
        args
    }

    fn filter_arguments(&self, params: &FrameExtractionParams) -> (args: Vec<String>)
        ensures
            views(args@) == filter_arguments(params@),
    {
        let mut args = no_texts();
        let rated = !same(params.fps.as_str(), "original");
        let scale = if same(params.size.as_str(), "original") {
            String::new()
        } else {
            self.get_scale_filter(params.size.as_str())
        };
        let scaled = !scale.as_str().is_empty();
        if rated && scaled {
            let rate = join3("fps=", params.fps.as_str(), ",");
            push_pair(&mut args, "-vf", rate.concat(scale.as_str()).as_str());
        } else if rated {
            push_pair(&mut args, "-vf", join("fps=", params.fps.as_str()).as_str());
        } else if scaled {
            push_pair(&mut args, "-vf", scale.as_str());
        }
        assert(views(args@) =~= filter_arguments(params@));
        args
    }

    fn source_arguments(&self, input: &str, trim: Option<TrimData>) -> (args: Vec<String>)
        ensures
            views(args@) == source_arguments(input@, trim),
    {
        let mut args = no_texts();
        push_text(&mut args, "-y");
        match trim {
            Some(window) => {
                push_pair(&mut args, "-ss", format_millionths(window.start_time).as_str());
                push_pair(&mut args, "-i", input);
                push_pair(
                    &mut args,
                    "-t",
                    format_millionths(span(window.start_time, window.end_time)).as_str(),
                );
            },
            None => {
                push_pair(&mut args, "-i", input);
            },
        }
        assert(views(args@) =~= source_arguments(input@, trim));
        args
    }

    /// The arguments with which FFmpeg extracts the frames that `params` asks
    /// for, from the whole input.
    pub fn extract_frames(&self, params: &FrameExtractionParams) -> (args: Vec<String>)
        ensures
            views(args@) == extraction_arguments(params@, None),
    {
        self.extraction(params, None)
    }

    /// The arguments with which FFmpeg extracts the frames that `params` asks
    /// for, from the part of the input between `start_time` and `end_time`.
    pub fn extract_frames_with_trim(
        &self,
        params: &FrameExtractionParams,
        start_time: i64,
        end_time: i64,
    ) -> (args: Vec<String>)
        ensures
            views(args@) == extraction_arguments(
                params@,
                Some(TrimData { start_time, end_time, duration: (end_time - start_time) as i128 }),
            ),
    {
        self.extraction(
            params,
            Some(
                TrimData {
                    start_time,
                    end_time,
                    duration: end_time as i128 - start_time as i128,
                },
            ),
        )
    }

    fn extraction(&self, params: &FrameExtractionParams, trim: Option<TrimData>) -> (args: Vec<
        String,
    >)
        ensures
            views(args@) == extraction_arguments(params@, trim),
    {
        let mut args = self.source_arguments(params.input_path.as_str(), trim);
        append_texts(&mut args, self.filter_arguments(params));
        append_texts(&mut args, self.apply_format_settings(params));
        push_text(&mut args, params.output_pattern.as_str());
        assert(views(args@) =~= extraction_arguments(params@, trim));
        args
    }
}

} // verus!
