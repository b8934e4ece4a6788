use video_pipeline_editor::audio_conversion::{AudioConversionParams, AudioConversionService};
use video_pipeline_editor::error::PipelineError;
use video_pipeline_editor::frame_extraction::{FrameExtractionParams, FrameExtractionService};
use video_pipeline_editor::probe::{build_probe_arguments, AudioInfoService, VideoInfoService};
use video_pipeline_editor::scan::{find_word, stands_at};
use video_pipeline_editor::text::chars_of;
use video_pipeline_editor::video_conversion::{
    build_input_arguments, AudioCodec, ConversionParams, VideoCodec, VideoConversionService,
};
use video_pipeline_editor::video_trimming::{VideoTrimmingParams, VideoTrimmingService};
use video_pipeline_editor::vmaf_analysis::VmafAnalysisService;

fn video(input: &str, output: &str) -> ConversionParams {
    ConversionParams {
        input_path: input.to_string(),
        output_path: output.to_string(),
        ..ConversionParams::default()
    }
}

fn sound(input: &str, output: &str) -> AudioConversionParams {
    AudioConversionParams {
        input_path: input.to_string(),
        output_path: output.to_string(),
        ..AudioConversionParams::default()
    }
}

fn frames(format: &str) -> FrameExtractionParams {
    FrameExtractionParams {
        input_path: "/in/a.mp4".to_string(),
        output_pattern: "/out/f_%04d.x".to_string(),
        format: format.to_string(),
        compression: "medium".to_string(),
        size: "original".to_string(),
        fps: "original".to_string(),
        quality: "high".to_string(),
    }
}

#[test]
fn standard_video_conversion_is_a_software_encode_to_mp4() {
    let params = ConversionParams::default();
    assert_eq!(params.format, "mp4");
    assert_eq!(params.quality, "medium");
    assert_eq!(params.audio_bitrate, "128");
    assert_eq!(params.input_path, "");
    let args = VideoConversionService::new().enhanced_conversion(&video("/in/a.mov", "/out/a.mp4"));
    assert_eq!(
        args,
        vec![
            "-y", "-i", "/in/a.mov", "-c:v", "libx264", "-c:a", "aac", "-b:a", "128k", "-crf", "23",
            "-movflags", "+faststart", "-pix_fmt", "yuv420p", "-preset", "medium", "/out/a.mp4"
        ]
    );
}

#[test]
fn webm_conversion_uses_vp9_and_opus_without_preset() {
    let mut params = video("/in/a.mov", "/out/a.webm");
    params.format = "webm".to_string();
    params.quality = "ultra".to_string();
    params.use_gpu = true;
    params.gpu_type = "nvenc".to_string();
    params.trim_start = Some(5_000_000);
    params.trim_end = Some(10_500_000);
    params.resolution = "720p".to_string();
    params.framerate = "24".to_string();
    let args = VideoConversionService::new().enhanced_conversion(&params);
    assert_eq!(
        args,
        vec![
            "-y", "-ss", "5", "-i", "/in/a.mov", "-t", "5.5", "-c:v", "libvpx-vp9", "-c:a", "libopus",
            "-b:a", "128k", "-vbr", "on", "-crf", "15", "-vf", "scale=1280:720", "-r", "24",
            "-pix_fmt", "yuv420p", "/out/a.webm"
        ]
    );
}

#[test]
fn hardware_encode_names_the_hardware_encoder() {
    let mut params = video("/i", "/o");
    params.use_gpu = true;
    for (gpu, encoder) in [
        ("nvenc", "h264_nvenc"),
        ("qsv", "h264_qsv"),
        ("videotoolbox", "h264_videotoolbox"),
        ("vaapi", "h264_vaapi"),
        ("auto", "libx264"),
        ("none", "libx264"),
    ] {
        params.gpu_type = gpu.to_string();
        let args = VideoConversionService::new().enhanced_conversion(&params);
        assert_eq!(args[4], encoder);
        assert!(!args.contains(&"-preset".to_string()));
    }
}

#[test]
fn rate_control_follows_the_mode() {
    let tail = |params: &ConversionParams| {
        let args = VideoConversionService::new().enhanced_conversion(params);
        let at = args.iter().position(|a| a == "-b:a").unwrap() + 2;
        args[at..at + 2].to_vec()
    };
    let mut params = video("/i", "/o");
    params.bitrate_mode = "custom".to_string();
    params.custom_bitrate = Some("2.5".to_string());
    assert_eq!(tail(&params), vec!["-b:v", "2500k"]);
    params.custom_bitrate = Some("0.0015".to_string());
    assert_eq!(tail(&params), vec!["-b:v", "1k"]);
    params.custom_bitrate = Some("-2.0005".to_string());
    assert_eq!(tail(&params), vec!["-b:v", "-2000k"]);
    params.custom_bitrate = Some("1e30".to_string());
    assert_eq!(tail(&params), vec!["-b:v", "2147483647k"]);
    params.custom_bitrate = Some("fast".to_string());
    assert_eq!(tail(&params), vec!["-movflags", "+faststart"]);
    params.custom_bitrate = None;
    assert_eq!(tail(&params), vec!["-movflags", "+faststart"]);
    params.bitrate_mode = "crf".to_string();
    assert_eq!(tail(&params), vec!["-crf", "23"]);
    params.crf_value = Some("30".to_string());
    assert_eq!(tail(&params), vec!["-crf", "30"]);
    params.bitrate_mode = "auto".to_string();
    for (quality, factor) in [("low", "28"), ("medium", "23"), ("high", "18"), ("ultra", "15"), ("?", "23")] {
        params.quality = quality.to_string();
        assert_eq!(tail(&params), vec!["-crf", factor]);
    }
}

#[test]
fn sound_of_a_video_is_copied_dropped_or_encoded() {
    let service = VideoConversionService::new();
    let mut params = video("/i", "/o");
    let sound_args = |params: &ConversionParams| {
        let args = VideoConversionService::new().enhanced_conversion(params);
        let end = args.iter().position(|a| a == "-crf").unwrap();
        args[5..end].to_vec()
    };
    params.audio_codec = "copy".to_string();
    assert_eq!(sound_args(&params), vec!["-c:a", "copy"]);
    params.audio_codec = "none".to_string();
    assert_eq!(sound_args(&params), vec!["-an"]);
    params.audio_codec = "mp3".to_string();
    params.audio_bitrate = "192".to_string();
    assert_eq!(sound_args(&params), vec!["-c:a", "libmp3lame", "-b:a", "192k"]);
    params.audio_codec = "opus".to_string();
    assert_eq!(sound_args(&params), vec!["-c:a", "libopus", "-b:a", "192k", "-vbr", "on"]);
    params.audio_codec = "flac".to_string();
    params.audio_bitrate = "lots".to_string();
    assert_eq!(sound_args(&params), vec!["-c:a", "flac"]);
    params.format = "webm".to_string();
    params.audio_codec = "vorbis".to_string();
    match service.get_format_specific_codecs(&params) {
        (VideoCodec::VP9, AudioCodec::Specific(name)) => assert_eq!(name, "libvorbis"),
        other => panic!("unexpected: {:?}", other),
    }
    params.audio_codec = "aac".to_string();
    match service.get_format_specific_codecs(&params) {
        (VideoCodec::VP9, AudioCodec::Specific(name)) => assert_eq!(name, "libopus"),
        other => panic!("unexpected: {:?}", other),
    }
}

#[test]
fn size_and_container_have_their_arguments() {
    let mut params = video("/i", "/o");
    let has = |params: &ConversionParams, wanted: &[&str]| {
        let args = VideoConversionService::new().enhanced_conversion(params);
        args.windows(wanted.len()).any(|w| w.iter().map(|s| s.as_str()).eq(wanted.iter().copied()))
    };
    for (size, filter) in [
        ("480p", "scale=854:480"),
        ("720p", "scale=1280:720"),
        ("1080p", "scale=1920:1080"),
        ("1440p", "scale=2560:1440"),
        ("4k", "scale=3840:2160"),
        ("custom", "scale=1920:1080"),
        ("8k", "scale=1920:1080"),
    ] {
        params.resolution = size.to_string();
        assert!(has(&params, &["-vf", filter]), "{}", size);
    }
    params.resolution = "custom".to_string();
    params.custom_width = Some("640".to_string());
    assert!(has(&params, &["-vf", "scale=1920:1080"]));
    params.custom_height = Some("360".to_string());
    assert!(has(&params, &["-vf", "scale=640:360"]));
    params.resolution = "original".to_string();
    assert!(!has(&params, &["-vf"]));
    params.format = "mkv".to_string();
    assert!(!has(&params, &["-pix_fmt"]));
    params.format = "avi".to_string();
    assert!(has(&params, &["-pix_fmt", "yuv420p"]));
    assert!(!has(&params, &["-movflags"]));
    for (quality, preset) in [("low", "fast"), ("high", "slow"), ("ultra", "veryslow"), ("x", "medium")] {
        params.quality = quality.to_string();
        assert!(has(&params, &["-preset", preset]));
    }
}

#[test]
fn codecs_know_their_encoders() {
    assert_eq!(VideoCodec::H264.software_codec(), "libx264");
    assert_eq!(VideoCodec::VP9.software_codec(), "libvpx-vp9");
    assert!(VideoCodec::H264.supports_gpu());
    assert!(!VideoCodec::VP9.supports_gpu());
    assert!(VideoCodec::VP9.is_vp9());
    assert!(!VideoCodec::H264.is_vp9());
    assert_eq!(VideoCodec::H264.get_gpu_variant("qsv"), "h264_qsv");
    assert_eq!(VideoCodec::H264.get_gpu_variant("other"), "libx264");
    assert_eq!(VideoCodec::VP9.get_gpu_variant("nvenc"), "libvpx-vp9");
    assert_eq!(
        VideoConversionService::new().simple_conversion("/i.mov", "/o.mp4"),
        vec!["-i", "/i.mov", "-y", "/o.mp4"]
    );
    assert_eq!(build_input_arguments("/i", Some(1), None), vec!["-i", "/i"]);
    assert_eq!(
        build_input_arguments("/i", Some(1_500_000), Some(1_000_000)),
        vec!["-ss", "1.5", "-i", "/i", "-t", "-0.5"]
    );
}

#[test]
fn standard_sound_conversion_is_lame_at_192k() {
    let args = AudioConversionService::new().enhanced_audio_conversion(&sound("/in/a.wav", "/out/a.mp3"));
    assert_eq!(args, vec!["-y", "-i", "/in/a.wav", "-c:a", "libmp3lame", "-b:a", "192k", "/out/a.mp3"]);
}

#[test]
fn sound_conversion_follows_its_settings() {
    let service = AudioConversionService::new();
    let mut params = sound("/i", "/o");
    params.format = "flac".to_string();
    params.sample_rate = "48000".to_string();
    params.channels = "2".to_string();
    params.normalize = true;
    params.volume_gain = Some("3.50".to_string());
    params.trim_start = Some(0);
    params.trim_end = Some(2_000_000);
    params.quality = "high".to_string();
    assert_eq!(
        service.enhanced_audio_conversion(&params),
        vec![
            "-y", "-ss", "0", "-i", "/i", "-t", "2", "-c:a", "flac", "-ar", "48000", "-ac", "2", "-b:a",
            "256k", "-af", "volume=3.5dB,loudnorm", "-compression_level", "5", "/o"
        ]
    );
    params.codec = "copy".to_string();
    params.normalize = false;
    params.volume_gain = Some("0.0".to_string());
    assert_eq!(
        service.enhanced_audio_conversion(&params),
        vec![
            "-y", "-ss", "0", "-i", "/i", "-t", "2", "-c:a", "copy", "-ar", "48000", "-ac", "2",
            "-compression_level", "5", "/o"
        ]
    );
}

#[test]
fn sound_quality_follows_the_mode() {
    let service = AudioConversionService::new();
    let mut params = sound("/i", "/o");
    for (quality, rate) in [("low", "128k"), ("medium", "192k"), ("high", "256k"), ("ultra", "320k"), ("?", "192k")] {
        params.quality = quality.to_string();
        assert_eq!(service.apply_audio_quality(&params), vec!["-b:a", rate]);
    }
    params.bitrate_mode = "custom".to_string();
    assert!(service.apply_audio_quality(&params).is_empty());
    params.custom_bitrate = Some("160".to_string());
    assert_eq!(service.apply_audio_quality(&params), vec!["-b:a", "160k"]);
    params.bitrate_mode = "vbr".to_string();
    assert_eq!(service.apply_audio_quality(&params), vec!["-q:a", "5"]);
    params.vbr_quality = Some("2".to_string());
    assert_eq!(service.apply_audio_quality(&params), vec!["-q:a", "2"]);
    params.codec = "vorbis".to_string();
    assert_eq!(service.apply_audio_quality(&params), vec!["-q:a", "2"]);
    params.codec = "opus".to_string();
    assert_eq!(service.apply_audio_quality(&params), vec!["-vbr", "on", "-compression_level", "2"]);
    params.codec = "aac".to_string();
    assert_eq!(service.apply_audio_quality(&params), vec!["-b:a", "192k"]);
}

#[test]
fn sound_filters_and_encoders_are_chosen() {
    let service = AudioConversionService::new();
    let mut params = sound("/i", "/o");
    assert!(service.apply_audio_processing(&params).is_empty());
    params.normalize = true;
    assert_eq!(service.apply_audio_processing(&params), vec!["-af", "loudnorm"]);
    params.normalize = false;
    params.volume_gain = Some("-6".to_string());
    assert_eq!(service.apply_audio_processing(&params), vec!["-af", "volume=-6dB"]);
    params.volume_gain = Some("loud".to_string());
    assert!(service.apply_audio_processing(&params).is_empty());
    assert!(service.apply_format_optimizations(&params).is_empty());
    let name = |format: &str, codec: &str| {
        let mut params = sound("/i", "/o");
        params.format = format.to_string();
        params.codec = codec.to_string();
        match AudioConversionService::new().get_format_specific_codec(&params) {
            video_pipeline_editor::audio_conversion::AudioCodec::Copy => "copy".to_string(),
            video_pipeline_editor::audio_conversion::AudioCodec::Specific(name) => name,
        }
    };
    assert_eq!(name("mp3", "mp3"), "libmp3lame");
    assert_eq!(name("mp3", "aac"), "aac");
    assert_eq!(name("ogg", "vorbis"), "libvorbis");
    assert_eq!(name("ogg", "opus"), "libopus");
    assert_eq!(name("ogg", "flac"), "flac");
    assert_eq!(name("flac", "mp3"), "flac");
    assert_eq!(name("wav", "mp3"), "pcm_s16le");
    assert_eq!(name("m4a", "aac"), "aac");
    assert_eq!(name("wav", "copy"), "copy");
}

#[test]
fn frames_are_extracted_with_filters_and_format_settings() {
    let service = FrameExtractionService::new();
    assert_eq!(
        service.extract_frames(&frames("png")),
        vec!["-y", "-i", "/in/a.mp4", "-compression_level", "6", "/out/f_%04d.x"]
    );
    let mut params = frames("jpeg");
    params.fps = "2".to_string();
    params.size = "720p".to_string();
    assert_eq!(
        service.extract_frames_with_trim(&params, 5_000_000, 10_000_000),
        vec![
            "-y", "-ss", "5", "-i", "/in/a.mp4", "-t", "5", "-vf", "fps=2,scale=1280:720", "-q:v", "2",
            "/out/f_%04d.x"
        ]
    );
    params.size = "tiny".to_string();
    params.format = "bmp".to_string();
    assert_eq!(
        service.extract_frames(&params),
        vec!["-y", "-i", "/in/a.mp4", "-vf", "fps=2", "/out/f_%04d.x"]
    );
    params.fps = "original".to_string();
    params.size = "4k".to_string();
    params.format = "tiff".to_string();
    params.compression = "none".to_string();
    assert_eq!(
        service.extract_frames(&params),
        vec!["-y", "-i", "/in/a.mp4", "-vf", "scale=3840:2160", "-compression_algo", "none", "/out/f_%04d.x"]
    );
}

#[test]
fn frame_settings_have_their_tables() {
    let service = FrameExtractionService::new();
    for (size, filter) in [
        ("4k", "scale=3840:2160"),
        ("1080p", "scale=1920:1080"),
        ("720p", "scale=1280:720"),
        ("480p", "scale=854:480"),
        ("original", ""),
        ("x", ""),
    ] {
        assert_eq!(service.get_scale_filter(size), filter);
    }
    for (name, level) in [("none", "0"), ("low", "2"), ("medium", "6"), ("high", "8"), ("maximum", "9"), ("x", "6")] {
        assert_eq!(service.get_png_compression(name), level);
    }
    for (name, level) in [("low", "10"), ("medium", "5"), ("high", "2"), ("ultra", "1"), ("x", "2")] {
        assert_eq!(service.get_jpeg_quality(name), level);
    }
    let mut params = frames("tiff");
    for (name, algorithm) in [("none", "none"), ("low", "lzw"), ("medium", "zip"), ("high", "zip"), ("maximum", "zip"), ("x", "lzw")] {
        params.compression = name.to_string();
        assert_eq!(service.apply_format_settings(&params), vec!["-compression_algo", algorithm]);
    }
    assert_eq!(service.apply_format_settings(&frames("jpg")), vec!["-q:v", "2"]);
    assert!(service.apply_format_settings(&frames("webp")).is_empty());
}

#[test]
fn scoring_arguments_put_the_distorted_video_first() {
    assert_eq!(
        VmafAnalysisService::new().calculate_vmaf("/ref.mp4", "/low.mp4"),
        vec!["-i", "/low.mp4", "-i", "/ref.mp4", "-lavfi", "[0:v][1:v]libvmaf", "-f", "null", "-"]
    );
}

#[test]
fn scoring_inputs_must_exist_and_differ() {
    let service = VmafAnalysisService::new();
    assert!(service.validate_vmaf_inputs("/r", "/d", true, true).is_ok());
    match service.validate_vmaf_inputs("/r", "/d", false, false) {
        Err(PipelineError::FileNotFound(path)) => assert_eq!(path, "/r"),
        other => panic!("unexpected: {:?}", other),
    }
    match service.validate_vmaf_inputs("/r", "/d", true, false) {
        Err(PipelineError::FileNotFound(path)) => assert_eq!(path, "/d"),
        other => panic!("unexpected: {:?}", other),
    }
    match service.validate_vmaf_inputs("/r", "/r", true, true) {
        Err(PipelineError::InvalidNodeConfig(text)) => {
            assert_eq!(text, "Reference and distorted videos must be different files")
        }
        other => panic!("unexpected: {:?}", other),
    }
}

const STDERR: &str = "ffmpeg version 6.0\nframe=   12 fps=0.0 q=-0.0 size=N/A\rframe= 1317 fps= 25 q=-0.0 Lsize=N/A\n[Parsed_libvmaf_0 @ 0x55d] VMAF score: 99.998047\nbye\n";

#[test]
fn score_is_read_from_the_output() {
    let service = VmafAnalysisService::new();
    assert_eq!(service.parse_vmaf_from_stderr(STDERR).unwrap(), 99_998_047);
    assert_eq!(service.parse_vmaf_from_stderr("VMAF score:0").unwrap(), 0);
    assert_eq!(service.parse_vmaf_from_stderr("VMAF score:\t100 points").unwrap(), 100_000_000);
    assert_eq!(
        service.parse_vmaf_from_stderr("VMAF score: 100.5\nVMAF score: n/a\nVMAF score: 42.5\n").unwrap(),
        42_500_000
    );
    assert_eq!(service.parse_vmaf_from_stderr("VMAF score: -1 VMAF score: 7").unwrap(), 7_000_000);
    for text in ["", "no score here", "VMAF score:", "VMAF score:\n55", "VMAF score: 100.000001", "vmaf score: 5"] {
        match service.parse_vmaf_from_stderr(text) {
            Err(PipelineError::FFmpegFailed(reason)) => {
                assert_eq!(reason, "Could not parse VMAF score from FFmpeg output")
            }
            other => panic!("unexpected for {:?}: {:?}", text, other),
        }
    }
}

#[test]
fn frame_count_is_read_from_the_output() {
    let service = VmafAnalysisService::new();
    assert_eq!(service.extract_frame_count(STDERR), Some(12));
    assert_eq!(service.extract_frame_count("frame=x frame=7"), Some(7));
    assert_eq!(service.extract_frame_count("frame=4294967295"), Some(u32::MAX));
    assert_eq!(service.extract_frame_count("frame=4294967296"), None);
    assert_eq!(service.extract_frame_count("frames=3"), None);
    assert_eq!(service.extract_frame_count(""), None);
    let score = service.score_from_output("/r.mp4", "/d.mp4", STDERR).unwrap();
    assert_eq!((score.mean, score.min, score.max, score.harmonic_mean), (99_998_047, 99_998_047, 99_998_047, 99_998_047));
    assert_eq!(score.frame_count, 12);
    assert_eq!(score.model, "default");
    assert_eq!(score.reference_path, "/r.mp4");
    assert_eq!(score.distorted_path, "/d.mp4");
    let plain = service.score_from_output("/r.mp4", "/d.mp4", "VMAF score: 50").unwrap();
    assert_eq!(plain.frame_count, 0);
    assert!(service.score_from_output("/r.mp4", "/d.mp4", "frame=5").is_err());
}

#[test]
fn words_are_found_behind_markers() {
    let text = chars_of("ab  \tcd ef\n gh");
    assert_eq!(text.len(), 14);
    let marker = chars_of("ab");
    assert!(stands_at(&text, &marker, 0));
    assert!(!stands_at(&text, &marker, 1));
    assert!(!stands_at(&text, &marker, 13));
    assert!(!stands_at(&text, &marker, 14));
    assert!(!stands_at(&marker, &text, 0));
    assert!(stands_at(&text, &chars_of(""), 14));
    assert_eq!(find_word(&text, 2), (5, 7));
    assert_eq!(find_word(&text, 7), (8, 10));
    assert_eq!(find_word(&text, 10), (10, 10));
    assert_eq!(find_word(&text, 11), (12, 14));
    assert_eq!(find_word(&text, 14), (14, 14));
    assert_eq!(chars_of("héllo✅"), vec!['h', 'é', 'l', 'l', 'o', '✅']);
}

#[test]
fn cuts_are_checked_and_carried_out() {
    let service = VideoTrimmingService::new();
    let cut = |start: i64, end: i64| VideoTrimmingParams {
        input_path: "/in/a.MOV".to_string(),
        output_path: "/out/a.mp4".to_string(),
        start_time: start,
        end_time: end,
    };
    let reason = |result: Result<(), PipelineError>| match result {
        Err(PipelineError::InvalidNodeConfig(text)) => text,
        other => panic!("unexpected: {:?}", other),
    };
    assert!(service.validate_trim_params(&cut(0, 1), true).is_ok());
    assert!(service.validate_trim_params(&cut(0, 86_400_000_000), true).is_ok());
    match service.validate_trim_params(&cut(-1, 0), false) {
        Err(PipelineError::FileNotFound(path)) => assert_eq!(path, "/in/a.MOV"),
        other => panic!("unexpected: {:?}", other),
    }
    assert_eq!(reason(service.validate_trim_params(&cut(-1, 5), true)), "Start time cannot be negative");
    assert_eq!(
        reason(service.validate_trim_params(&cut(5, 5), true)),
        "End time must be greater than start time"
    );
    assert_eq!(
        reason(service.validate_trim_params(&cut(0, 86_400_000_001), true)),
        "Trim duration cannot exceed 24 hours"
    );
    assert_eq!(
        service.trim_video(&cut(1_500_000, 4_000_000)),
        vec![
            "-y", "-i", "/in/a.MOV", "-ss", "1.5", "-t", "2.5", "-c:v", "libx264", "-c:a", "aac",
            "-avoid_negative_ts", "make_zero", "-fflags", "+genpts", "/out/a.mp4"
        ]
    );
    assert_eq!(
        service.trim_with_keyframes(&cut(1_500_000, 4_000_000)),
        vec![
            "-y", "-ss", "1.5", "-i", "/in/a.MOV", "-t", "2.5", "-c", "copy", "-avoid_negative_ts",
            "make_zero", "/out/a.mp4"
        ]
    );
    let left = service.trimmed_video(&cut(1_500_000, 4_000_000));
    assert_eq!(left.path, "/out/a.mp4");
    assert_eq!(left.format, "MOV");
    assert_eq!((left.width, left.height, left.duration), (1920, 1080, 2_500_000));
}

const REPORT: &str = r#"{
  "streams": [
    {"codec_type": "audio", "sample_rate": "48000", "channels": 2, "duration": "9.5"},
    {"codec_type": "video", "width": 1280, "height": 720, "duration": "10.010000"},
    {"codec_type": "video", "width": 1, "height": 1}
  ],
  "format": {"duration": "10.250000"}
}"#;

fn failed<T: std::fmt::Debug>(result: Result<T, PipelineError>) -> String {
    match result {
        Err(PipelineError::FFmpegFailed(text)) => text,
        other => panic!("unexpected: {:?}", other),
    }
}

#[test]
fn probe_is_asked_for_json() {
    assert_eq!(
        build_probe_arguments("/in/a.mp4", true),
        vec!["-v", "quiet", "-print_format", "json", "-show_format", "-show_streams", "/in/a.mp4"]
    );
    assert_eq!(
        build_probe_arguments("/in/a.wav", false),
        vec!["-v", "quiet", "-print_format", "json", "-show_format", "/in/a.wav"]
    );
}

#[test]
fn video_properties_come_from_the_first_video_stream() {
    let service = VideoInfoService::new();
    let video = service.get_video_info("/in/a.MP4", REPORT).unwrap();
    assert_eq!(video.path, "/in/a.MP4");
    assert_eq!(video.format, "MP4");
    assert_eq!((video.width, video.height, video.duration), (1280, 720, 10_010_000));
    let bare = r#"{"streams": [{"codec_type": "video", "duration": "N/A"}], "format": {"duration": "7"}}"#;
    let video = service.get_video_info("/in/noext", bare).unwrap();
    assert_eq!(video.format, "");
    assert_eq!((video.width, video.height, video.duration), (1920, 1080, 7_000_000));
    let wide = r#"{"streams": [{"codec_type": "video", "width": 4294967297, "height": "720"}]}"#;
    let video = service.get_video_info("/a.mp4", wide).unwrap();
    assert_eq!((video.width, video.height, video.duration), (1, 1080, 0));
    assert_eq!(failed(service.get_video_info("/a.mp4", "not json")), "Failed to parse ffprobe JSON");
    assert_eq!(failed(service.get_video_info("/a.mp4", "{}")), "No streams found");
    assert_eq!(failed(service.get_video_info("/a.mp4", r#"{"streams": {}}"#)), "No streams found");
    assert_eq!(
        failed(service.get_video_info("/a.mp4", r#"{"streams": [{"codec_type": "audio"}, {"codec_type": 5}]}"#)),
        "No video stream found"
    );
    assert_eq!(failed(service.get_video_info("/a.mp4", r#"{"streams": []}"#)), "No video stream found");
}

#[test]
fn sound_properties_come_from_the_first_sound_stream() {
    let service = AudioInfoService::new();
    let sound = service.get_audio_data("/in/a.flac", REPORT).unwrap();
    assert_eq!(sound.path, "/in/a.flac");
    assert_eq!(sound.format, "flac");
    assert_eq!(sound.duration, 9_500_000);
    assert_eq!(sound.sample_rate, Some(48000));
    assert_eq!(sound.channels, Some(2));
    let bare = r#"{"streams": [{"codec_type": "audio", "sample_rate": 44100, "channels": "2"}]}"#;
    let sound = service.get_audio_data("/in/a.flac", bare).unwrap();
    assert_eq!((sound.duration, sound.sample_rate, sound.channels), (0, None, None));
    assert_eq!(
        failed(service.get_audio_data("/a", r#"{"streams": [{"codec_type": "video"}]}"#)),
        "No audio stream found"
    );
    assert_eq!(service.get_basic_audio_info("/in/a.WAV", REPORT).unwrap(), (10_250_000, "WAV".to_string()));
    assert_eq!(
        service.get_basic_audio_info("/in/a", r#"{"format": {}}"#).unwrap(),
        (0, "".to_string())
    );
    assert_eq!(failed(service.get_basic_audio_info("/a", "{}")), "No format information found");
    assert_eq!(
        failed(service.get_basic_audio_info("/a", r#"{"format": "mp3"}"#)),
        "No format information found"
    );
    assert_eq!(failed(service.get_basic_audio_info("/a", "[")), "Failed to parse ffprobe JSON");
}

#[test]
fn playability_goes_by_the_extension() {
    let videos = VideoInfoService::new();
    assert_eq!(videos.check_video_playable("/a/b.MP4", true).unwrap(), true);
    assert_eq!(videos.check_video_playable("/a/b.webm", true).unwrap(), true);
    assert_eq!(videos.check_video_playable("/a/b.ogg", true).unwrap(), true);
    assert_eq!(videos.check_video_playable("/a/b.mkv", true).unwrap(), false);
    assert_eq!(videos.check_video_playable("/a/b", true).unwrap(), false);
    match videos.check_video_playable("/a/b.mp4", false) {
        Err(PipelineError::FileNotFound(path)) => assert_eq!(path, "/a/b.mp4"),
        other => panic!("unexpected: {:?}", other),
    }
    let sounds = AudioInfoService::new();
    for ext in ["mp3", "wav", "flac", "m4a", "aac", "ogg", "opus", "wma", "WAV"] {
        assert!(sounds.check_audio_playable(&format!("/a/b.{}", ext), true).unwrap(), "{}", ext);
    }
    assert!(!sounds.check_audio_playable("/a/b.mp4", true).unwrap());
    assert!(sounds.check_audio_playable("/a/b.mp3", false).is_err());
}
