use video_pipeline_editor::context::{ExecutionContext, ExecutionResult};
use video_pipeline_editor::error::PipelineError;
use video_pipeline_editor::media::{TrimData, VideoData, VmafScore};
use video_pipeline_editor::table::Table;

fn video(path: &str) -> VideoData {
    VideoData {
        path: path.to_string(),
        format: "mp4".to_string(),
        width: 1280,
        height: 720,
        duration: 12_000_000,
    }
}

fn score(mean: i64) -> VmafScore {
    VmafScore {
        mean,
        min: mean,
        max: mean,
        harmonic_mean: mean,
        frame_count: 10,
        model: "default".to_string(),
        reference_path: "/r.mp4".to_string(),
        distorted_path: "/d.mp4".to_string(),
    }
}

#[test]
fn stored_artifact_is_returned_as_it_was_stored() {
    let mut context = ExecutionContext::new();
    context.add_result("n1".to_string(), video("/a.mp4"));
    let found = context.get_result("n1").unwrap();
    assert_eq!(found.path, "/a.mp4");
    assert_eq!(found.format, "mp4");
    assert_eq!(found.width, 1280);
    assert_eq!(found.height, 720);
    assert_eq!(found.duration, 12_000_000);
}

#[test]
fn stored_artifact_survives_other_writes() {
    let mut context = ExecutionContext::new();
    context.add_result("n1".to_string(), video("/a.mp4"));
    context.add_result("n2".to_string(), video("/b.mp4"));
    context.add_trim_data("/a.mp4".to_string(), 1, 2);
    context.add_vmaf_result("n1".to_string(), score(90_000_000));
    context.add_result("n3".to_string(), video("/c.mp4"));
    assert_eq!(context.get_result("n1").unwrap().path, "/a.mp4");
    assert_eq!(context.get_result("n2").unwrap().path, "/b.mp4");
}

#[test]
fn second_artifact_under_one_id_replaces_the_first() {
    let mut context = ExecutionContext::new();
    context.add_result("n1".to_string(), video("/a.mp4"));
    context.add_result("n1".to_string(), video("/b.mp4"));
    assert_eq!(context.get_result("n1").unwrap().path, "/b.mp4");
    assert_eq!(context.get_stats().total_results, 1);
}

#[test]
fn missing_artifact_is_a_missing_result() {
    let context = ExecutionContext::new();
    match context.get_result("nowhere") {
        Err(PipelineError::MissingResult(node)) => assert_eq!(node, "nowhere"),
        other => panic!("unexpected: {:?}", other),
    }
}

#[test]
fn range_is_returned_with_its_length() {
    let mut context = ExecutionContext::new();
    context.add_trim_data("/a.mp4".to_string(), 5_000_000, 10_000_000);
    assert_eq!(
        context.get_trim_data("/a.mp4").unwrap(),
        TrimData { start_time: 5_000_000, end_time: 10_000_000, duration: 5_000_000 }
    );
    assert!(context.has_trim_data("/a.mp4"));
    assert!(!context.has_trim_data("/b.mp4"));
}

#[test]
fn second_range_replaces_the_first_in_full() {
    let mut context = ExecutionContext::new();
    context.add_trim_data("/a.mp4".to_string(), 5_000_000, 10_000_000);
    context.add_trim_data("/a.mp4".to_string(), 1_000_000, 1_500_000);
    assert_eq!(
        context.get_trim_data("/a.mp4").unwrap(),
        TrimData { start_time: 1_000_000, end_time: 1_500_000, duration: 500_000 }
    );
    assert_eq!(context.get_stats().trim_operations, 1);
}

#[test]
fn range_with_negative_length_is_stored_as_given() {
    let mut context = ExecutionContext::new();
    context.add_trim_data("/a.mp4".to_string(), 10, 4);
    assert_eq!(
        context.get_trim_data("/a.mp4").unwrap(),
        TrimData { start_time: 10, end_time: 4, duration: -6 }
    );
}

#[test]
fn range_has_its_exact_length_whatever_its_ends() {
    let mut context = ExecutionContext::new();
    context.add_trim_data("/a.mp4".to_string(), i64::MIN, i64::MAX);
    assert_eq!(
        context.get_trim_data("/a.mp4").unwrap(),
        TrimData { start_time: i64::MIN, end_time: i64::MAX, duration: 18_446_744_073_709_551_615 }
    );
    context.add_trim_data("/a.mp4".to_string(), i64::MAX, i64::MIN);
    assert_eq!(
        context.get_trim_data("/a.mp4").unwrap().duration,
        -18_446_744_073_709_551_615
    );
}

#[test]
fn missing_range_is_no_range_data() {
    let context = ExecutionContext::new();
    match context.get_trim_data("/a.mp4") {
        Err(PipelineError::NoRangeData(path)) => assert_eq!(path, "/a.mp4"),
        other => panic!("unexpected: {:?}", other),
    }
}

#[test]
fn scores_are_stored_by_node() {
    let mut context = ExecutionContext::new();
    assert!(context.get_vmaf_result("v1").is_none());
    context.add_vmaf_result("v1".to_string(), score(95_500_000));
    assert_eq!(context.get_vmaf_result("v1").unwrap().mean, 95_500_000);
    assert_eq!(context.get_all_vmaf_results().len(), 1);
}

#[test]
fn stats_count_each_kind() {
    let mut context = ExecutionContext::new();
    context.add_result("n1".to_string(), video("/a.mp4"));
    context.add_result("n2".to_string(), video("/b.mp4"));
    context.add_vmaf_result("v1".to_string(), score(1));
    context.add_trim_data("/a.mp4".to_string(), 0, 1);
    context.add_trim_data("/b.mp4".to_string(), 0, 1);
    context.add_trim_data("/c.mp4".to_string(), 0, 1);
    let stats = context.get_stats();
    assert_eq!(stats.total_results, 2);
    assert_eq!(stats.vmaf_analyses, 1);
    assert_eq!(stats.trim_operations, 3);
    assert_eq!(context.get_all_results().len(), 2);
}

#[test]
fn clear_empties_the_context() {
    let mut context = ExecutionContext::new();
    context.add_result("n1".to_string(), video("/a.mp4"));
    context.add_trim_data("/a.mp4".to_string(), 0, 1);
    context.add_vmaf_result("v1".to_string(), score(1));
    context.clear();
    let stats = context.get_stats();
    assert_eq!((stats.total_results, stats.vmaf_analyses, stats.trim_operations), (0, 0, 0));
    assert!(context.get_result("n1").is_err());
}

#[test]
fn report_of_an_empty_context_is_no_success() {
    let report = ExecutionContext::new().build_result();
    assert!(!report.success);
    assert_eq!(report.message, "❌ No nodes were processed successfully");
    assert!(report.outputs.is_empty());
    assert!(report.vmaf_results.is_none());
}

#[test]
fn report_without_artifacts_is_no_success_even_with_scores() {
    let mut context = ExecutionContext::new();
    context.add_vmaf_result("v1".to_string(), score(1));
    context.add_trim_data("/a.mp4".to_string(), 0, 1);
    let report = context.build_result();
    assert!(!report.success);
    assert_eq!(report.message, "❌ No nodes were processed successfully");
    assert_eq!(report.vmaf_results.unwrap().len(), 1);
}

#[test]
fn report_counts_artifacts_only() {
    let mut context = ExecutionContext::new();
    context.add_result("n1".to_string(), video("/a.mp4"));
    let report = context.build_result();
    assert!(report.success);
    assert_eq!(report.message, "✅ Pipeline completed successfully! Processed 1 nodes");
    assert_eq!(report.outputs.get("n1").unwrap().path, "/a.mp4");
    assert!(report.vmaf_results.is_none());
}

#[test]
fn report_counts_scores_and_ranges() {
    let mut context = ExecutionContext::new();
    for i in 0..12 {
        context.add_result(format!("n{}", i), video("/a.mp4"));
    }
    context.add_vmaf_result("v1".to_string(), score(1));
    context.add_trim_data("/a.mp4".to_string(), 0, 1);
    context.add_trim_data("/b.mp4".to_string(), 0, 1);
    let report = context.build_result();
    assert!(report.success);
    assert_eq!(
        report.message,
        "✅ Pipeline completed successfully! Processed 12 nodes, 1 VMAF analyses, 2 trim operations"
    );
    assert_eq!(report.outputs.len(), 12);
    assert_eq!(report.vmaf_results.unwrap().get("v1").unwrap().mean, 1);
}

#[test]
fn report_counts_ranges_without_scores() {
    let mut context = ExecutionContext::new();
    context.add_result("n1".to_string(), video("/a.mp4"));
    context.add_trim_data("/a.mp4".to_string(), 0, 1);
    let report = context.build_result();
    assert_eq!(
        report.message,
        "✅ Pipeline completed successfully! Processed 1 nodes, 1 trim operations"
    );
}

#[test]
fn failure_report_names_node_kind_and_reason() {
    let report = ExecutionResult::failure(
        "n1",
        "inputVideo",
        PipelineError::FileNotFound("/missing.mp4".to_string()),
    );
    assert!(!report.success);
    assert_eq!(report.message, "❌ inputVideo node 'n1' failed: File not found: /missing.mp4");
    assert!(report.outputs.is_empty());
    assert!(report.vmaf_results.is_none());
}

#[test]
fn aborted_report_carries_the_reason() {
    let report = ExecutionResult::aborted(PipelineError::CircularDependency);
    assert!(!report.success);
    assert_eq!(
        report.message,
        "Pipeline execution failed: Pipeline contains a circular dependency"
    );
    assert!(report.outputs.is_empty());
}

#[test]
fn every_failure_has_its_message() {
    let text = |e: PipelineError| e.message();
    assert_eq!(text(PipelineError::FFmpegFailed("x".into())), "FFmpeg execution failed: x");
    assert_eq!(text(PipelineError::FileNotFound("x".into())), "File not found: x");
    assert_eq!(text(PipelineError::InvalidNodeConfig("x".into())), "Invalid node configuration: x");
    assert_eq!(text(PipelineError::IoError("x".into())), "IO error: x");
    assert_eq!(
        text(PipelineError::DirectoryCreationFailed("x".into())),
        "Failed to create directory: x"
    );
    assert_eq!(text(PipelineError::InvalidPath("x".into())), "Invalid path: x");
    assert_eq!(text(PipelineError::CircularDependency), "Pipeline contains a circular dependency");
    assert_eq!(text(PipelineError::MissingResult("x".into())), "No result found for node: x");
    assert_eq!(text(PipelineError::NoRangeData("x".into())), "No trim data found for video: x");
    assert_eq!(text(PipelineError::UnknownNodeKind("x".into())), "Unknown node type: x");
}

#[test]
fn table_keeps_one_entry_per_key_in_order_of_arrival() {
    let mut table: Table<u32> = Table::new();
    assert!(table.is_empty());
    table.insert("b".to_string(), 1);
    table.insert("a".to_string(), 2);
    table.insert("b".to_string(), 3);
    assert_eq!(table.len(), 2);
    assert_eq!(table.get("b"), Some(&3));
    assert_eq!(table.get("a"), Some(&2));
    assert_eq!(table.get("c"), None);
    assert!(table.contains_key("a"));
    assert!(!table.contains_key("c"));
    let keys: Vec<&str> = table.entries().iter().map(|e| e.0.as_str()).collect();
    assert_eq!(keys, vec!["b", "a"]);
    table.clear();
    assert!(table.is_empty());
    assert_eq!(table.len(), 0);
}
