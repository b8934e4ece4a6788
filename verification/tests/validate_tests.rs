use video_pipeline_editor::error::PipelineError;
use video_pipeline_editor::validate::{NodeValidator, MAX_WINDOW, MIN_WINDOW};

fn reason<T: std::fmt::Debug>(result: Result<T, PipelineError>) -> String {
    match result {
        Err(PipelineError::InvalidNodeConfig(text)) => text,
        other => panic!("unexpected: {:?}", other),
    }
}

#[test]
fn range_includes_both_ends() {
    assert!(NodeValidator::validate_range(0, 0, 10, "x").is_ok());
    assert!(NodeValidator::validate_range(10, 0, 10, "x").is_ok());
    assert_eq!(
        reason(NodeValidator::validate_range(-500_000, 0, 10_000_000, "start_time")),
        "start_time must be between 0 and 10, got -0.5"
    );
    assert_eq!(
        reason(NodeValidator::validate_range(10_000_001, 0, 10_000_000, "v")),
        "v must be between 0 and 10, got 10.000001"
    );
}

#[test]
fn window_must_start_at_zero_or_later() {
    assert!(NodeValidator::validate_time_range(0, MIN_WINDOW).is_ok());
    assert_eq!(
        reason(NodeValidator::validate_time_range(-1, 5_000_000)),
        "start_time must be between 0 and 9223372036854.775807, got -0.000001"
    );
}

#[test]
fn window_must_be_a_tenth_of_a_second_long() {
    assert!(NodeValidator::validate_time_range(5_000_000, 5_100_000).is_ok());
    assert!(NodeValidator::validate_time_range(200_000, 300_000).is_ok());
    assert_eq!(
        reason(NodeValidator::validate_time_range(5_000_000, 5_099_999)),
        "end_time must be between 5.1 and 9223372036854.775807, got 5.099999"
    );
    assert_eq!(
        reason(NodeValidator::validate_time_range(5_000_000, 5_000_000)),
        "end_time must be between 5.1 and 9223372036854.775807, got 5"
    );
    assert_eq!(
        reason(NodeValidator::validate_time_range(10_000_000, 5_000_000)),
        "end_time must be between 10.1 and 9223372036854.775807, got 5"
    );
}

#[test]
fn window_must_not_be_longer_than_a_day() {
    assert!(NodeValidator::validate_time_range(0, MAX_WINDOW).is_ok());
    assert!(NodeValidator::validate_time_range(7, MAX_WINDOW + 7).is_ok());
    assert_eq!(
        reason(NodeValidator::validate_time_range(0, MAX_WINDOW + 1)),
        "Trim duration cannot exceed 24 hours"
    );
    assert_eq!(
        reason(NodeValidator::validate_time_range(0, i64::MAX)),
        "Trim duration cannot exceed 24 hours"
    );
}

#[test]
fn window_at_the_end_of_the_range_is_refused() {
    assert_eq!(
        reason(NodeValidator::validate_time_range(i64::MAX, i64::MAX)),
        "end_time must be between 9223372036854.775807 and 9223372036854.775807, got 9223372036854.775807"
    );
    assert!(NodeValidator::validate_time_range(i64::MAX - MIN_WINDOW, i64::MAX).is_ok());
}

#[test]
fn blank_text_is_refused() {
    assert!(NodeValidator::validate_non_empty_string("a", "name").is_ok());
    assert!(NodeValidator::validate_non_empty_string("  a  ", "name").is_ok());
    assert_eq!(reason(NodeValidator::validate_non_empty_string("", "name")), "name cannot be empty");
    assert_eq!(
        reason(NodeValidator::validate_non_empty_string(" \t\r\n\u{a0}\u{3000}", "name")),
        "name cannot be empty"
    );
}

#[test]
fn value_must_be_one_of_the_allowed() {
    assert!(NodeValidator::validate_enum("mp4", &["mp4", "webm"], "format").is_ok());
    assert!(NodeValidator::validate_enum("webm", &["mp4", "webm"], "format").is_ok());
    assert_eq!(
        reason(NodeValidator::validate_enum("avi", &["mp4", "webm"], "format")),
        "format must be one of [\"mp4\", \"webm\"], got 'avi'"
    );
    assert_eq!(
        reason(NodeValidator::validate_enum("avi", &["mp4"], "format")),
        "format must be one of [\"mp4\"], got 'avi'"
    );
    assert_eq!(
        reason(NodeValidator::validate_enum("avi", &[], "format")),
        "format must be one of [], got 'avi'"
    );
}

#[test]
fn video_bitrate_is_read_in_megabits() {
    assert_eq!(NodeValidator::validate_bitrate("2.5").unwrap(), 2_500_000);
    assert_eq!(NodeValidator::validate_bitrate("200").unwrap(), 200_000_000);
    assert_eq!(NodeValidator::validate_bitrate("0.000001").unwrap(), 1);
    assert_eq!(reason(NodeValidator::validate_bitrate("fast")), "Invalid bitrate format");
    assert_eq!(NodeValidator::validate_bitrate(&format!("2.5{}", "0".repeat(50))).unwrap(), 2_500_000);
    assert_eq!(
        reason(NodeValidator::validate_bitrate("0")),
        "Bitrate must be between 0.1 and 200 Mbps"
    );
    assert_eq!(
        reason(NodeValidator::validate_bitrate("200.000001")),
        "Bitrate must be between 0.1 and 200 Mbps"
    );
    assert_eq!(
        reason(NodeValidator::validate_bitrate("-1")),
        "Bitrate must be between 0.1 and 200 Mbps"
    );
}

#[test]
fn rate_factor_is_at_most_51() {
    assert_eq!(NodeValidator::validate_crf("0").unwrap(), 0);
    assert_eq!(NodeValidator::validate_crf("23").unwrap(), 23);
    assert_eq!(NodeValidator::validate_crf("51").unwrap(), 51);
    assert_eq!(reason(NodeValidator::validate_crf("52")), "CRF must be between 0 and 51");
    assert_eq!(reason(NodeValidator::validate_crf("255")), "CRF must be between 0 and 51");
    assert_eq!(reason(NodeValidator::validate_crf("256")), "Invalid CRF format");
    assert_eq!(reason(NodeValidator::validate_crf("-1")), "Invalid CRF format");
    assert_eq!(reason(NodeValidator::validate_crf("23.0")), "Invalid CRF format");
    assert_eq!(reason(NodeValidator::validate_crf("")), "Invalid CRF format");
    assert_eq!(reason(NodeValidator::validate_crf(" 23")), "Invalid CRF format");
    assert_eq!(NodeValidator::validate_crf(&format!("{}23", "0".repeat(38))).unwrap(), 23);
    assert_eq!(
        reason(NodeValidator::validate_crf(&format!("{}52", "0".repeat(38)))),
        "CRF must be between 0 and 51"
    );
}

#[test]
fn resolution_lies_between_32_and_8k() {
    assert_eq!(NodeValidator::validate_resolution("32", "32").unwrap(), (32, 32));
    assert_eq!(NodeValidator::validate_resolution("7680", "4320").unwrap(), (7680, 4320));
    assert_eq!(NodeValidator::validate_resolution("1920", "1080").unwrap(), (1920, 1080));
    assert_eq!(reason(NodeValidator::validate_resolution("w", "1080")), "Invalid width format");
    assert_eq!(reason(NodeValidator::validate_resolution("1920", "h")), "Invalid height format");
    assert_eq!(reason(NodeValidator::validate_resolution("w", "h")), "Invalid width format");
    let wide = format!("{}640", "0".repeat(37));
    let high = format!("{}480", "0".repeat(60));
    assert_eq!(NodeValidator::validate_resolution(&wide, &high).unwrap(), (640, 480));
    assert_eq!(
        reason(NodeValidator::validate_resolution("4294967296", "1080")),
        "Invalid width format"
    );
    for (w, h) in [("31", "32"), ("32", "31"), ("7681", "4320"), ("7680", "4321"), ("4294967295", "100")] {
        assert_eq!(
            reason(NodeValidator::validate_resolution(w, h)),
            "Resolution must be between 32x32 and 7680x4320"
        );
    }
}

#[test]
fn frame_rate_is_read_or_left_as_it_is() {
    assert_eq!(NodeValidator::validate_framerate("original").unwrap(), 0);
    assert_eq!(NodeValidator::validate_framerate("29.97").unwrap(), 29_970_000);
    assert_eq!(NodeValidator::validate_framerate("120").unwrap(), 120_000_000);
    assert_eq!(reason(NodeValidator::validate_framerate("fast")), "Invalid framerate format");
    assert_eq!(NodeValidator::validate_framerate(&format!("{}30", "0".repeat(50))).unwrap(), 30_000_000);
    assert_eq!(
        reason(NodeValidator::validate_framerate("0")),
        "Framerate must be between 0.1 and 120 fps"
    );
    assert_eq!(
        reason(NodeValidator::validate_framerate("121")),
        "Framerate must be between 0.1 and 120 fps"
    );
}

#[test]
fn audio_bitrate_lies_between_32_and_640() {
    assert_eq!(NodeValidator::validate_audio_bitrate("32").unwrap(), 32);
    assert_eq!(NodeValidator::validate_audio_bitrate("640").unwrap(), 640);
    assert_eq!(NodeValidator::validate_audio_bitrate("128").unwrap(), 128);
    assert_eq!(
        reason(NodeValidator::validate_audio_bitrate("31")),
        "Audio bitrate must be between 32 and 640 kbps"
    );
    assert_eq!(
        reason(NodeValidator::validate_audio_bitrate("641")),
        "Audio bitrate must be between 32 and 640 kbps"
    );
    assert_eq!(reason(NodeValidator::validate_audio_bitrate("128k")), "Invalid audio bitrate format");
    assert_eq!(reason(NodeValidator::validate_audio_bitrate("")), "Invalid audio bitrate format");
    assert_eq!(NodeValidator::validate_audio_bitrate(&format!("{}128", "0".repeat(37))).unwrap(), 128);
    assert_eq!(
        reason(NodeValidator::validate_audio_bitrate("4294967296")),
        "Invalid audio bitrate format"
    );
}
