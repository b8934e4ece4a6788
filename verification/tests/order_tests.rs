use video_pipeline_editor::error::PipelineError;
use video_pipeline_editor::graph::{ConnectionData, NodeData, PipelineData};
use video_pipeline_editor::order::execution_order;

fn node(id: &str, kind: &str) -> NodeData {
    NodeData { id: id.to_string(), node_type: kind.to_string(), data: serde_json::Value::Null }
}

fn edge(from: &str, to: &str) -> ConnectionData {
    ConnectionData {
        id: format!("{}-{}", from, to),
        from: from.to_string(),
        to: to.to_string(),
        from_handle: "output".to_string(),
        to_handle: "video-input".to_string(),
    }
}

fn place(order: &[String], id: &str) -> usize {
    order.iter().position(|x| x == id).unwrap()
}

#[test]
fn linear_chain_is_ordered_front_to_back() {
    let pipeline = PipelineData {
        nodes: vec![node("n2", "convertVideo"), node("n1", "inputVideo")],
        connections: vec![edge("n1", "n2")],
    };
    let order = execution_order(&pipeline).unwrap();
    assert_eq!(order, vec!["n1".to_string(), "n2".to_string()]);
}

#[test]
fn diamond_respects_every_connection() {
    let pipeline = PipelineData {
        nodes: vec![node("d", "x"), node("c", "x"), node("b", "x"), node("a", "x")],
        connections: vec![edge("a", "b"), edge("a", "c"), edge("b", "d"), edge("c", "d")],
    };
    let order = execution_order(&pipeline).unwrap();
    assert_eq!(order.len(), 4);
    for c in &pipeline.connections {
        assert!(place(&order, &c.from) < place(&order, &c.to));
    }
}

#[test]
fn two_node_cycle_is_refused() {
    let pipeline = PipelineData {
        nodes: vec![node("n1", "x"), node("n2", "x")],
        connections: vec![edge("n1", "n2"), edge("n2", "n1")],
    };
    assert!(matches!(execution_order(&pipeline), Err(PipelineError::CircularDependency)));
}

#[test]
fn self_loop_is_refused() {
    let pipeline = PipelineData { nodes: vec![node("n1", "x")], connections: vec![edge("n1", "n1")] };
    assert!(matches!(execution_order(&pipeline), Err(PipelineError::CircularDependency)));
}

#[test]
fn cycle_behind_a_valid_prefix_is_refused() {
    let pipeline = PipelineData {
        nodes: vec![node("a", "x"), node("b", "x"), node("c", "x")],
        connections: vec![edge("a", "b"), edge("b", "c"), edge("c", "b")],
    };
    assert!(matches!(execution_order(&pipeline), Err(PipelineError::CircularDependency)));
}

#[test]
fn empty_pipeline_has_the_empty_order() {
    let pipeline = PipelineData { nodes: vec![], connections: vec![] };
    assert_eq!(execution_order(&pipeline).unwrap(), Vec::<String>::new());
}

#[test]
fn connection_to_an_unknown_node_binds_nothing() {
    let pipeline = PipelineData { nodes: vec![node("a", "x")], connections: vec![edge("a", "ghost")] };
    assert_eq!(execution_order(&pipeline).unwrap(), vec!["a".to_string()]);
}

#[test]
fn connection_from_an_unknown_node_cannot_be_met() {
    let pipeline = PipelineData { nodes: vec![node("a", "x")], connections: vec![edge("ghost", "a")] };
    assert!(matches!(execution_order(&pipeline), Err(PipelineError::CircularDependency)));
}

#[test]
fn shared_id_is_refused() {
    let pipeline = PipelineData { nodes: vec![node("a", "x"), node("a", "y")], connections: vec![] };
    assert!(matches!(execution_order(&pipeline), Err(PipelineError::CircularDependency)));
}

#[test]
fn doubled_connection_is_counted_twice_and_released_twice() {
    let pipeline = PipelineData {
        nodes: vec![node("a", "x"), node("b", "x")],
        connections: vec![edge("a", "b"), edge("a", "b")],
    };
    assert_eq!(execution_order(&pipeline).unwrap(), vec!["a".to_string(), "b".to_string()]);
}
