use video_pipeline_editor::backend::{Request, Response};
use video_pipeline_editor::comparison::{ComparisonPending, ComparisonStep, VmafProcessor};
use video_pipeline_editor::context::ExecutionContext;
use video_pipeline_editor::error::PipelineError;
use video_pipeline_editor::graph::{ConnectionData, NodeData};
use video_pipeline_editor::media::{VideoData, VmafScore};

fn judge(id: &str, config: &str) -> NodeData {
    NodeData {
        id: id.to_string(),
        node_type: "vmafAnalysis".to_string(),
        data: serde_json::from_str(config).unwrap(),
    }
}

fn lead(from: &str, to: &str, to_handle: &str) -> ConnectionData {
    ConnectionData {
        id: String::new(),
        from: from.to_string(),
        to: to.to_string(),
        from_handle: "out".to_string(),
        to_handle: to_handle.to_string(),
    }
}

fn stocked() -> ExecutionContext {
    let mut context = ExecutionContext::new();
    for name in ["a", "b", "c"] {
        context.add_result(
            name.to_string(),
            VideoData {
                path: format!("/{}.mp4", name),
                format: "mp4".to_string(),
                width: 1,
                height: 1,
                duration: 1,
            },
        );
    }
    context
}

fn pair_of(step: Result<ComparisonStep, PipelineError>) -> (String, String, Option<String>) {
    match step {
        Ok(ComparisonStep::Ask(
            Request::CalculateVmaf { reference_path, distorted_path, model },
            ComparisonPending::Scoring,
        )) => (reference_path, distorted_path, model),
        other => panic!("unexpected: {:?}", other),
    }
}

fn invalid(step: Result<ComparisonStep, PipelineError>) -> String {
    match step {
        Err(PipelineError::InvalidNodeConfig(text)) => text,
        other => panic!("unexpected: {:?}", other),
    }
}

const NEEDS_PAIR: &str = "VMAF analysis requires either explicit video paths or two connected inputs";

#[test]
fn named_locations_are_checked_one_after_the_other() {
    let context = stocked();
    let node = judge("v", r#"{"referenceVideoPath": "/r.mp4", "testVideoPath": "/t.mp4", "model": "4k"}"#);
    let processor = VmafProcessor::new();
    let pending = match processor.process(&node, &context, &[]).unwrap() {
        ComparisonStep::Ask(Request::FileExists { path }, pending) => {
            assert_eq!(path, "/r.mp4");
            pending
        }
        other => panic!("unexpected: {:?}", other),
    };
    let pending = match processor.resume(&node, pending, Response::Exists(true), &context, &[]).unwrap() {
        ComparisonStep::Ask(Request::FileExists { path }, pending) => {
            assert_eq!(path, "/t.mp4");
            pending
        }
        other => panic!("unexpected: {:?}", other),
    };
    assert_eq!(
        pair_of(processor.resume(&node, pending, Response::Exists(true), &context, &[])),
        ("/r.mp4".to_string(), "/t.mp4".to_string(), Some("4k".to_string()))
    );
}

#[test]
fn missing_named_location_sends_the_node_to_its_connections() {
    let context = stocked();
    let node = judge("v", r#"{"referenceVideoPath": "/r.mp4", "testVideoPath": "/t.mp4"}"#);
    let wires = vec![lead("a", "v", "x"), lead("b", "v", "y")];
    let processor = VmafProcessor::new();
    let waiting = || ComparisonPending::ReferenceExists {
        reference_path: "/r.mp4".into(),
        distorted_path: "/t.mp4".into(),
    };
    assert_eq!(
        pair_of(processor.resume(&node, waiting(), Response::Exists(false), &context, &wires)),
        ("/a.mp4".to_string(), "/b.mp4".to_string(), None)
    );
    let second = ComparisonPending::DistortedExists {
        reference_path: "/r.mp4".into(),
        distorted_path: "/t.mp4".into(),
    };
    assert_eq!(
        pair_of(processor.resume(&node, second, Response::Exists(false), &context, &wires)),
        ("/a.mp4".to_string(), "/b.mp4".to_string(), None)
    );
    assert_eq!(
        invalid(processor.resume(&node, waiting(), Response::Exists(false), &context, &[])),
        NEEDS_PAIR
    );
}

#[test]
fn one_named_location_alone_counts_for_nothing() {
    let context = stocked();
    let node = judge("v", r#"{"referenceVideoPath": "/r.mp4"}"#);
    assert_eq!(invalid(VmafProcessor::new().process(&node, &context, &[])), NEEDS_PAIR);
    let wires = vec![lead("a", "v", "x"), lead("b", "v", "y")];
    assert_eq!(
        pair_of(VmafProcessor::new().process(&node, &context, &wires)),
        ("/a.mp4".to_string(), "/b.mp4".to_string(), None)
    );
}

#[test]
fn recognised_inputs_are_taken_before_others() {
    let context = stocked();
    let node = judge("v", "{}");
    let wires = vec![
        lead("c", "v", "extra"),
        lead("a", "v", "reference-input"),
        lead("b", "v", "test-input"),
    ];
    assert_eq!(
        pair_of(VmafProcessor::new().process(&node, &context, &wires)),
        ("/a.mp4".to_string(), "/b.mp4".to_string(), None)
    );
    for (first, second) in [("ref-input", "distorted-input"), ("video-ref", "video-test")] {
        let wires = vec![lead("b", "v", first), lead("a", "v", second), lead("c", "v", "extra")];
        assert_eq!(
            pair_of(VmafProcessor::new().process(&node, &context, &wires)),
            ("/b.mp4".to_string(), "/a.mp4".to_string(), None)
        );
    }
}

#[test]
fn names_of_the_inputs_decide_whatever_the_order_of_the_list() {
    let context = stocked();
    let node = judge("v", "{}");
    let wires = vec![lead("b", "v", "test-input"), lead("a", "v", "reference-input")];
    assert_eq!(
        pair_of(VmafProcessor::new().process(&node, &context, &wires)),
        ("/a.mp4".to_string(), "/b.mp4".to_string(), None)
    );
    let wires = vec![
        lead("c", "v", "video-test"),
        lead("b", "v", "distorted-input"),
        lead("a", "v", "video-ref"),
        lead("b", "v", "ref-input"),
    ];
    assert_eq!(
        pair_of(VmafProcessor::new().process(&node, &context, &wires)),
        ("/a.mp4".to_string(), "/c.mp4".to_string(), None)
    );
}

#[test]
fn one_named_input_alone_leaves_it_to_the_order_of_the_list() {
    let context = stocked();
    let node = judge("v", "{}");
    let wires = vec![lead("b", "v", "other"), lead("a", "v", "reference-input")];
    assert_eq!(
        pair_of(VmafProcessor::new().process(&node, &context, &wires)),
        ("/b.mp4".to_string(), "/a.mp4".to_string(), None)
    );
    let wires = vec![lead("b", "v", "ref-input"), lead("a", "v", "reference-input")];
    assert_eq!(
        pair_of(VmafProcessor::new().process(&node, &context, &wires)),
        ("/b.mp4".to_string(), "/a.mp4".to_string(), None)
    );
    let wires = vec![
        lead("b", "v", "test-input"),
        lead("a", "v", "video-test"),
        lead("c", "v", "distorted-input"),
    ];
    assert_eq!(invalid(VmafProcessor::new().process(&node, &context, &wires)), NEEDS_PAIR);
}

#[test]
fn two_inbound_connections_of_any_name_are_taken_in_order() {
    let context = stocked();
    let node = judge("v", r#"{"model": "phone"}"#);
    let wires = vec![lead("c", "other", "x"), lead("b", "v", "left"), lead("a", "v", "right")];
    assert_eq!(
        pair_of(VmafProcessor::new().process(&node, &context, &wires)),
        ("/b.mp4".to_string(), "/a.mp4".to_string(), Some("phone".to_string()))
    );
}

#[test]
fn other_numbers_of_inbound_connections_are_invalid() {
    let context = stocked();
    let node = judge("v", "{}");
    let processor = VmafProcessor::new();
    assert_eq!(invalid(processor.process(&node, &context, &[])), NEEDS_PAIR);
    assert_eq!(invalid(processor.process(&node, &context, &[lead("a", "v", "x")])), NEEDS_PAIR);
    let three = vec![lead("a", "v", "x"), lead("b", "v", "y"), lead("c", "v", "z")];
    assert_eq!(invalid(processor.process(&node, &context, &three)), NEEDS_PAIR);
}

#[test]
fn recognised_pair_without_artifacts_falls_back_to_the_inbound_pair() {
    let context = stocked();
    let node = judge("v", "{}");
    let processor = VmafProcessor::new();
    let wires = vec![lead("ghost", "v", "reference-input"), lead("a", "v", "test-input")];
    match processor.process(&node, &context, &wires) {
        Err(PipelineError::MissingResult(id)) => assert_eq!(id, "ghost"),
        other => panic!("unexpected: {:?}", other),
    }
    let wires = vec![lead("a", "v", "x"), lead("ghost", "v", "y")];
    match processor.process(&node, &context, &wires) {
        Err(PipelineError::MissingResult(id)) => assert_eq!(id, "ghost"),
        other => panic!("unexpected: {:?}", other),
    }
    let wires = vec![
        lead("ghost", "v", "reference-input"),
        lead("a", "v", "test-input"),
        lead("b", "v", "z"),
    ];
    assert_eq!(invalid(processor.process(&node, &context, &wires)), NEEDS_PAIR);
}

#[test]
fn score_finishes_the_node() {
    let context = stocked();
    let node = judge("v", "{}");
    let score = VmafScore {
        mean: 95_000_000,
        min: 90_000_000,
        max: 99_000_000,
        harmonic_mean: 94_000_000,
        frame_count: 24,
        model: "default".into(),
        reference_path: "/a.mp4".into(),
        distorted_path: "/b.mp4".into(),
    };
    match VmafProcessor::new()
        .resume(&node, ComparisonPending::Scoring, Response::Score(score), &context, &[])
        .unwrap()
    {
        ComparisonStep::Finished(found) => {
            assert_eq!(found.mean, 95_000_000);
            assert_eq!(found.frame_count, 24);
            assert_eq!(found.reference_path, "/a.mp4");
        }
        other => panic!("unexpected: {:?}", other),
    }
}

#[test]
fn failed_scoring_is_a_backend_failure() {
    let context = stocked();
    let node = judge("v", "{}");
    let processor = VmafProcessor::new();
    match processor.resume(&node, ComparisonPending::Scoring, Response::Failed("no libvmaf".into()), &context, &[]) {
        Err(PipelineError::FFmpegFailed(text)) => assert_eq!(text, "no libvmaf"),
        other => panic!("unexpected: {:?}", other),
    }
    match processor.resume(&node, ComparisonPending::Scoring, Response::Done, &context, &[]) {
        Err(PipelineError::FFmpegFailed(text)) => {
            assert_eq!(text, "Unexpected response from the media backend")
        }
        other => panic!("unexpected: {:?}", other),
    }
    let waiting = ComparisonPending::ReferenceExists { reference_path: "r".into(), distorted_path: "t".into() };
    match processor.resume(&node, waiting, Response::Failed("io".into()), &context, &[]) {
        Err(PipelineError::FFmpegFailed(text)) => assert_eq!(text, "io"),
        other => panic!("unexpected: {:?}", other),
    }
}
