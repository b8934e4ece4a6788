use video_pipeline_editor::audio_quality::{calculate_quality_score, contains};
use video_pipeline_editor::error::PipelineError;
use video_pipeline_editor::text::chars_of;
use video_pipeline_editor::trim_service::{TrimAudioParams, TrimAudioService, TrimParams, TrimService};

#[test]
fn score_adds_the_four_kinds_of_points() {
    assert_eq!(calculate_quality_score(None, None, None, None), 0);
    assert_eq!(calculate_quality_score(Some(192000), Some(1_411_000), Some("FLAC"), Some(6)), 100);
    assert_eq!(calculate_quality_score(Some(44100), Some(128_000), Some("mp3"), Some(2)), 68);
    assert_eq!(calculate_quality_score(Some(48000), Some(320_000), Some("aac"), Some(1)), 79);
    assert_eq!(calculate_quality_score(Some(8000), Some(64_000), Some("vorbis"), Some(4)), 33);
}

#[test]
fn each_kind_of_points_has_its_steps() {
    let rate = |r: u32| calculate_quality_score(Some(r), None, None, None);
    assert_eq!(
        [rate(0), rate(44099), rate(44100), rate(47999), rate(48000), rate(95999), rate(96000), rate(191999), rate(192000), rate(u32::MAX)],
        [10, 10, 20, 20, 25, 25, 28, 28, 30, 30]
    );
    let bits = |b: u32| calculate_quality_score(None, Some(b), None, None);
    assert_eq!(
        [bits(0), bits(127_999), bits(128_000), bits(255_999), bits(256_000), bits(319_999), bits(320_000), bits(999_999), bits(1_000_000)],
        [8, 8, 15, 15, 18, 18, 22, 22, 25]
    );
    let codec = |c: &str| calculate_quality_score(None, None, Some(c), None);
    assert_eq!(codec("flac"), 25);
    assert_eq!(codec("PCM_S16LE"), 25);
    assert_eq!(codec("aac"), 20);
    assert_eq!(codec("libopus"), 20);
    assert_eq!(codec("MP3"), 15);
    assert_eq!(codec("mp3-in-flac"), 25);
    assert_eq!(codec("vorbis"), 10);
    assert_eq!(codec(""), 10);
    let channels = |c: u32| calculate_quality_score(None, None, None, Some(c));
    assert_eq!([channels(0), channels(1), channels(2), channels(3), channels(5), channels(6), channels(8)], [5, 12, 18, 5, 5, 20, 20]);
}

#[test]
fn markers_are_found_anywhere_in_a_text() {
    let text = chars_of("pcm_s16le");
    assert!(contains(&text, "pcm"));
    assert!(contains(&text, "16le"));
    assert!(contains(&text, "pcm_s16le"));
    assert!(contains(&text, ""));
    assert!(!contains(&text, "flac"));
    assert!(!contains(&text, "pcm_s16le_"));
    assert!(contains(&chars_of(""), ""));
    assert!(!contains(&chars_of(""), "a"));
}

const PROBE: &str = r#"{"streams": [{"codec_type": "video", "width": 640, "height": 360, "duration": "8.0"},
 {"codec_type": "audio", "sample_rate": "44100", "channels": 2, "duration": "7.5"}], "format": {"duration": "8.1"}}"#;

#[test]
fn trimming_a_video_leaves_the_input_as_it_is() {
    let service = TrimService::new();
    let params = |start: i64, end: i64| TrimParams {
        input_path: "/in/a.mp4".to_string(),
        output_path: String::new(),
        start_time: start,
        end_time: end,
        create_file: false,
    };
    let video = service.trim_video(&params(1_000_000, 2_000_000), true, PROBE).unwrap();
    assert_eq!(video.path, "/in/a.mp4");
    assert_eq!(video.format, "mp4");
    assert_eq!((video.width, video.height, video.duration), (640, 360, 8_000_000));
    match service.trim_video(&params(1, 2), false, PROBE) {
        Err(PipelineError::FileNotFound(path)) => assert_eq!(path, "/in/a.mp4"),
        other => panic!("unexpected: {:?}", other),
    }
    for (start, end) in [(5, 5), (5, 4)] {
        match service.trim_video(&params(start, end), true, PROBE) {
            Err(PipelineError::InvalidNodeConfig(text)) => {
                assert_eq!(text, "End time must be greater than start time")
            }
            other => panic!("unexpected: {:?}", other),
        }
    }
    match service.trim_video(&params(1, 2), true, "{}") {
        Err(PipelineError::FFmpegFailed(text)) => assert_eq!(text, "No streams found"),
        other => panic!("unexpected: {:?}", other),
    }
    assert_eq!(service.get_original_video_info("/x.mov", PROBE).unwrap().format, "mov");
}

#[test]
fn trimming_sound_leaves_the_input_as_it_is() {
    let service = TrimAudioService::new();
    let params = |start: i64, end: i64| TrimAudioParams {
        input_path: "/in/a.wav".to_string(),
        output_path: String::new(),
        start_time: start,
        end_time: end,
        create_file: false,
    };
    let sound = service.trim_audio(&params(0, 1), true, PROBE).unwrap();
    assert_eq!(sound.path, "/in/a.wav");
    assert_eq!(sound.format, "wav");
    assert_eq!((sound.duration, sound.sample_rate, sound.channels), (7_500_000, Some(44100), Some(2)));
    assert!(matches!(service.trim_audio(&params(0, 1), false, PROBE), Err(PipelineError::FileNotFound(_))));
    assert!(matches!(service.trim_audio(&params(1, 1), true, PROBE), Err(PipelineError::InvalidNodeConfig(_))));
    assert_eq!(service.get_original_audio_info("/x.ogg", PROBE).unwrap().format, "ogg");
}
