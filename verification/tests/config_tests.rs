use video_pipeline_editor::config::NodeDataExtractor;
use video_pipeline_editor::error::PipelineError;

fn document(text: &str) -> serde_json::Value {
    serde_json::from_str(text).unwrap()
}

fn reason<T: std::fmt::Debug>(result: Result<T, PipelineError>) -> String {
    match result {
        Err(PipelineError::InvalidNodeConfig(text)) => text,
        other => panic!("unexpected: {:?}", other),
    }
}

#[test]
fn string_field_is_read() {
    let data = document(r#"{"filePath": "/in/a.mp4", "count": 3, "on": true}"#);
    assert_eq!(NodeDataExtractor::extract_string(&data, "filePath").unwrap(), "/in/a.mp4");
    assert_eq!(reason(NodeDataExtractor::extract_string(&data, "count")), "Missing or invalid count");
    assert_eq!(reason(NodeDataExtractor::extract_string(&data, "nope")), "Missing or invalid nope");
}

#[test]
fn string_field_falls_back_to_its_default() {
    let data = document(r#"{"format": "webm", "quality": 7}"#);
    assert_eq!(NodeDataExtractor::extract_string_or_default(&data, "format", "mp4"), "webm");
    assert_eq!(NodeDataExtractor::extract_string_or_default(&data, "quality", "medium"), "medium");
    assert_eq!(NodeDataExtractor::extract_string_or_default(&data, "missing", "x"), "x");
}

#[test]
fn document_that_is_no_object_has_no_fields() {
    for text in ["null", "[1, 2]", "\"filePath\"", "5", "true"] {
        let data = document(text);
        assert!(NodeDataExtractor::extract_string(&data, "filePath").is_err());
        assert_eq!(NodeDataExtractor::extract_string_or_default(&data, "filePath", "d"), "d");
        assert!(NodeDataExtractor::extract_object(&data, "filePath").is_err());
    }
}

#[test]
fn bool_field_is_read() {
    let data = document(r#"{"useGPU": true, "normalize": false, "other": "true"}"#);
    assert_eq!(NodeDataExtractor::extract_bool(&data, "useGPU").unwrap(), true);
    assert_eq!(NodeDataExtractor::extract_bool(&data, "normalize").unwrap(), false);
    assert_eq!(reason(NodeDataExtractor::extract_bool(&data, "other")), "Missing or invalid other");
    assert_eq!(NodeDataExtractor::extract_bool_or_default(&data, "useGPU", false), true);
    assert_eq!(NodeDataExtractor::extract_bool_or_default(&data, "other", true), true);
    assert_eq!(NodeDataExtractor::extract_bool_or_default(&data, "missing", false), false);
}

#[test]
fn integer_fields_are_read() {
    let data = document(r#"{"a": -5, "b": 18446744073709551615, "c": 1.5, "d": "7"}"#);
    assert_eq!(NodeDataExtractor::extract_i64(&data, "a").unwrap(), -5);
    assert!(NodeDataExtractor::extract_i64(&data, "b").is_err());
    assert!(NodeDataExtractor::extract_i64(&data, "c").is_err());
    assert!(NodeDataExtractor::extract_i64(&data, "d").is_err());
    assert_eq!(NodeDataExtractor::extract_i64_or_default(&data, "a", 9), -5);
    assert_eq!(NodeDataExtractor::extract_i64_or_default(&data, "c", 9), 9);
    assert_eq!(NodeDataExtractor::extract_u64(&data, "b").unwrap(), u64::MAX);
    assert_eq!(reason(NodeDataExtractor::extract_u64(&data, "a")), "Missing or invalid a");
    assert_eq!(NodeDataExtractor::extract_u64_or_default(&data, "a", 64), 64);
    assert_eq!(NodeDataExtractor::extract_u64_or_default(&data, "b", 64), u64::MAX);
}

#[test]
fn numbers_are_read_as_millionths() {
    let data = document(
        r#"{"startTime": 5, "endTime": 10.5, "tiny": 1e-7, "neg": -0.25, "huge": 1e300, "text": "5", "flag": true, "none": null}"#,
    );
    assert_eq!(NodeDataExtractor::extract_millionths(&data, "startTime").unwrap(), 5_000_000);
    assert_eq!(NodeDataExtractor::extract_millionths(&data, "endTime").unwrap(), 10_500_000);
    assert_eq!(NodeDataExtractor::extract_millionths(&data, "tiny").unwrap(), 0);
    assert_eq!(NodeDataExtractor::extract_millionths(&data, "neg").unwrap(), -250_000);
    assert_eq!(NodeDataExtractor::extract_millionths(&data, "huge").unwrap(), i64::MAX);
    assert_eq!(reason(NodeDataExtractor::extract_millionths(&data, "text")), "Missing or invalid text");
    assert!(NodeDataExtractor::extract_millionths(&data, "flag").is_err());
    assert!(NodeDataExtractor::extract_millionths(&data, "none").is_err());
    assert!(NodeDataExtractor::extract_millionths(&data, "missing").is_err());
    assert_eq!(NodeDataExtractor::extract_millionths_or_default(&data, "endTime", 60_000_000), 10_500_000);
    assert_eq!(NodeDataExtractor::extract_millionths_or_default(&data, "text", 60_000_000), 60_000_000);
    assert_eq!(NodeDataExtractor::extract_millionths_or_default(&data, "missing", 0), 0);
}

#[test]
fn nested_fields_are_read() {
    let data = document(r#"{"customResolution": {"width": "640", "height": 480}, "flat": "x"}"#);
    assert_eq!(
        NodeDataExtractor::extract_nested_string(&data, "customResolution", "width").unwrap(),
        "640"
    );
    assert_eq!(
        reason(NodeDataExtractor::extract_nested_string(&data, "customResolution", "height")),
        "Missing or invalid customResolution.height"
    );
    assert_eq!(
        reason(NodeDataExtractor::extract_nested_string(&data, "nope", "width")),
        "Missing or invalid object nope"
    );
    assert_eq!(
        reason(NodeDataExtractor::extract_nested_string(&data, "flat", "width")),
        "Missing or invalid flat.width"
    );
    assert_eq!(
        NodeDataExtractor::extract_nested_string_or_default(&data, "customResolution", "width", "d"),
        "640"
    );
    assert_eq!(
        NodeDataExtractor::extract_nested_string_or_default(&data, "customResolution", "depth", "d"),
        "d"
    );
    assert_eq!(NodeDataExtractor::extract_nested_string_or_default(&data, "nope", "width", "d"), "d");
}

#[test]
fn object_field_is_handed_out() {
    let data = document(r#"{"inner": {"a": "b"}, "leaf": 3}"#);
    let inner = NodeDataExtractor::extract_object(&data, "inner").unwrap();
    assert_eq!(NodeDataExtractor::extract_string(inner, "a").unwrap(), "b");
    let leaf = NodeDataExtractor::extract_object(&data, "leaf").unwrap();
    assert_eq!(leaf, &serde_json::Value::from(3));
    assert_eq!(
        reason(NodeDataExtractor::extract_object(&data, "nope").map(|_| ())),
        "Missing or invalid object nope"
    );
}
