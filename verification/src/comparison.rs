//! The comparison phase: scoring a distorted item against its reference.
//!
//! A comparison node needs two items. They are looked for in three places,
//! in this order: two locations named in the node's configuration, if both
//! exist; a connection into an input that is named for the reference and one
//! into an input that is named for the distorted item; the two inbound
//! connections of a node that has exactly two.

use vstd::prelude::*;
use crate::backend::{Request, RequestView, Response, ResponseView};
use crate::config::{string_at, NodeDataExtractor};
use crate::connections::{inputs_among, inputs_of, outcome, referents, ConnectionHelper};
use crate::context::{ContextState, ExecutionContext};
use crate::error::{Failure, PipelineError};
use crate::graph::{ConnectionData, NodeData};
use crate::handlers::{refusal, refuse};
use crate::media::{ScoreView, VmafScore};
use crate::text::{names, text_of};

verus! {

/// The names of the input that takes the reference.
pub open spec fn reference_handles() -> Seq<Seq<char>> {
    seq!["reference-input"@, "ref-input"@, "video-ref"@]
}

/// The names of the input that takes the distorted item.
pub open spec fn distorted_handles() -> Seq<Seq<char>> {
    seq!["test-input"@, "distorted-input"@, "video-test"@]
}

/// Where a comparison node stands while a request of its is out.
#[derive(Debug)]
pub enum ComparisonPending {
    /// Does the reference that the configuration names exist?
    ReferenceExists { reference_path: String, distorted_path: String },
    /// Does the distorted item that the configuration names exist?
    DistortedExists { reference_path: String, distorted_path: String },
    /// The two items are being scored.
    Scoring,
}

/// A `ComparisonPending` with its texts as plain sequences of characters.
pub enum ComparisonPendingView {
    ReferenceExists { reference_path: Seq<char>, distorted_path: Seq<char> },
    DistortedExists { reference_path: Seq<char>, distorted_path: Seq<char> },
    Scoring,
}

impl View for ComparisonPending {
    type V = ComparisonPendingView;

    open spec fn view(&self) -> ComparisonPendingView {
        match self {
            ComparisonPending::ReferenceExists { reference_path, distorted_path } => ComparisonPendingView::ReferenceExists {
                reference_path: reference_path@,
                distorted_path: distorted_path@,
            },
            ComparisonPending::DistortedExists { reference_path, distorted_path } => ComparisonPendingView::DistortedExists {
                reference_path: reference_path@,
                distorted_path: distorted_path@,
            },
            ComparisonPending::Scoring => ComparisonPendingView::Scoring,
        }
    }
}

/// How far a comparison node has come.
#[derive(Debug)]
pub enum ComparisonStep {
    /// The node is done, with this score.
    Finished(VmafScore),
    /// The node needs this done, and then stands there.
    Ask(Request, ComparisonPending),
}

/// A `ComparisonStep` with its texts as plain sequences of characters.
pub enum ComparisonStepView {
    Finished(ScoreView),
    Ask(RequestView, ComparisonPendingView),
}

impl View for ComparisonStep {
    type V = ComparisonStepView;

    open spec fn view(&self) -> ComparisonStepView {
        match self {
            ComparisonStep::Finished(score) => ComparisonStepView::Finished(score@),
            ComparisonStep::Ask(request, pending) => ComparisonStepView::Ask(request@, pending@),
        }
    }
}

/// The locations of the artifacts of the nodes that `first` and `second` come
/// from; the first of the two that has no artifact is a missing result.
pub open spec fn locations_of(
    context: ContextState,
    first: ConnectionData,
    second: ConnectionData,
) -> Result<(Seq<char>, Seq<char>), Failure> {
    if !context.artifacts.contains_key(first.from@) {
        Err(Failure::MissingResult(first.from@))
    } else if !context.artifacts.contains_key(second.from@) {
        Err(Failure::MissingResult(second.from@))
    } else {
        Ok((context.artifacts[first.from@].path, context.artifacts[second.from@].path))
    }
}

/// The pair that the names of the inputs give to node `node_id`: the
/// reference is the artifact behind the first connection into an input that
/// is named for the reference, the distorted item the artifact behind the
/// first connection into an input that is named for the distorted item,
/// wherever the two stand in the list. There is no such pair where one of the
/// two connections is missing or leads to no artifact.
pub open spec fn named_pair(
    context: ContextState,
    connections: Seq<ConnectionData>,
    node_id: Seq<char>,
) -> Option<(Seq<char>, Seq<char>)> {
    let references = inputs_among(connections, node_id, reference_handles());
    let distorted = inputs_among(connections, node_id, distorted_handles());
    if references.len() > 0 && distorted.len() > 0 && locations_of(
        context,
        references[0],
        distorted[0],
    ) is Ok {
        Some(locations_of(context, references[0], distorted[0])->Ok_0)
    } else {
        None
    }
}

/// The reference and the distorted item that the connections give to node
/// `node_id`: the pair that the names of its inputs give, if there is one;
/// else the artifacts behind its two inbound connections, if it has exactly
/// two, the earlier one as the reference.
pub open spec fn connected_pair(
    context: ContextState,
    connections: Seq<ConnectionData>,
    node_id: Seq<char>,
) -> Result<(Seq<char>, Seq<char>), Failure> {
    let inbound = inputs_of(connections, node_id);
    match named_pair(context, connections, node_id) {
        Some(pair) => Ok(pair),
        None => if inbound.len() == 2 {
            locations_of(context, inbound[0], inbound[1])
        } else {
            Err(
                Failure::InvalidNodeConfig(
                    "VMAF analysis requires either explicit video paths or two connected inputs"@,
                ),
            )
        },
    }
}

/// The request to score `pair`, with the model that the configuration names.
pub open spec fn scoring(data: serde_json::Value, pair: (Seq<char>, Seq<char>)) -> ComparisonStepView {
    ComparisonStepView::Ask(
        RequestView::CalculateVmaf {
            reference_path: pair.0,
            distorted_path: pair.1,
            model: string_at(data, "model"@),
        },
        ComparisonPendingView::Scoring,
    )
}

/// What a comparison node does when its configuration names no usable pair of
/// locations: it asks for the score of the pair that the connections give.
pub open spec fn begin_connected(
    node_id: Seq<char>,
    data: serde_json::Value,
    context: ContextState,
    connections: Seq<ConnectionData>,
) -> Result<ComparisonStepView, Failure> {
    match connected_pair(context, connections, node_id) {
        Ok(pair) => Ok(scoring(data, pair)),
        Err(error) => Err(error),
    }
}

/// How a comparison node begins: where its configuration names a reference
/// and a distorted item, by asking whether the reference exists; else with
/// the pair that the connections give.
pub open spec fn begin_comparison(
    node_id: Seq<char>,
    data: serde_json::Value,
    context: ContextState,
    connections: Seq<ConnectionData>,
) -> Result<ComparisonStepView, Failure> {
    if string_at(data, "referenceVideoPath"@) is Some && string_at(data, "testVideoPath"@) is Some {
        let reference_path = string_at(data, "referenceVideoPath"@)->Some_0;
        let distorted_path = string_at(data, "testVideoPath"@)->Some_0;
        Ok(
            ComparisonStepView::Ask(
                RequestView::FileExists { path: reference_path },
                ComparisonPendingView::ReferenceExists { reference_path, distorted_path },
            ),
        )
    } else {
        begin_connected(node_id, data, context, connections)
    }
}

/// How a comparison node goes on when the answer to its request is there. A
/// named location that does not exist sends the node to the pair that the
/// connections give.
pub open spec fn resume_comparison(
    pending: ComparisonPendingView,
    response: ResponseView,
    node_id: Seq<char>,
    data: serde_json::Value,
    context: ContextState,
    connections: Seq<ConnectionData>,
) -> Result<ComparisonStepView, Failure> {
    match pending {
        ComparisonPendingView::ReferenceExists { reference_path, distorted_path } => match response {
            ResponseView::Exists(true) => Ok(
                ComparisonStepView::Ask(
                    RequestView::FileExists { path: distorted_path },
                    ComparisonPendingView::DistortedExists { reference_path, distorted_path },
                ),
            ),
            ResponseView::Exists(false) => begin_connected(node_id, data, context, connections),
            _ => Err(refusal(response)),
        },
        ComparisonPendingView::DistortedExists { reference_path, distorted_path } => match response {
            ResponseView::Exists(true) => Ok(scoring(data, (reference_path, distorted_path))),
            ResponseView::Exists(false) => begin_connected(node_id, data, context, connections),
            _ => Err(refusal(response)),
        },
        ComparisonPendingView::Scoring => match response {
            ResponseView::Score(score) => Ok(ComparisonStepView::Finished(score)),
            _ => Err(refusal(response)),
        },
    }
}

/// The processor of comparison nodes.
pub struct VmafProcessor;

impl VmafProcessor {
    pub fn new() -> (processor: Self) {
        VmafProcessor
    }

    /// The model that the configuration names.
    fn extract_model_config(&self, data: &serde_json::Value) -> (model: Option<String>)
        ensures
            text_of(model) == string_at(*data, "model"@),
    {
        match NodeDataExtractor::extract_string(data, "model") {
            Ok(model) => Some(model),
            Err(_) => None,
        }
    }

    /// The two locations that the configuration names, if it names both.
    fn get_explicit_paths(&self, node: &NodeData) -> (paths: Option<(String, String)>)
        ensures
            match paths {
                Some(pair) => string_at(node.data, "referenceVideoPath"@) == Some(pair.0@)
                    && string_at(node.data, "testVideoPath"@) == Some(pair.1@),
                None => string_at(node.data, "referenceVideoPath"@) is None || string_at(
                    node.data,
                    "testVideoPath"@,
                ) is None,
            },
    {
        let reference_path = match NodeDataExtractor::extract_string(
            &node.data,
            "referenceVideoPath",
        ) {
            Ok(path) => path,
            Err(_) => {
                return None;
            },
        };
        match NodeDataExtractor::extract_string(&node.data, "testVideoPath") {
            Ok(path) => Some((reference_path, path)),
            Err(_) => None,
        }
    }

    /// The locations of the artifacts behind two connections.
    fn locations(context: &ExecutionContext, first: &ConnectionData, second: &ConnectionData) -> (result:
        Result<(String, String), PipelineError>)
        requires
            context.wf(),
        ensures
            match result {
                Ok(pair) => locations_of(context@, *first, *second) == Ok::<
                    (Seq<char>, Seq<char>),
                    Failure,
                >((pair.0@, pair.1@)),
                Err(error) => locations_of(context@, *first, *second) == Err::<
                    (Seq<char>, Seq<char>),
                    Failure,
                >(error@),
            },
    {
        let reference = match context.get_result(first.from.as_str()) {
            Ok(video) => video,
            Err(error) => {
                return Err(error);
            },
        };
        match context.get_result(second.from.as_str()) {
            Ok(video) => Ok((reference.path, video.path)),
            Err(error) => Err(error),
        }
    }

    /// The reference and the distorted item that the connections give.
    fn get_connected_videos(
        &self,
        node: &NodeData,
        context: &ExecutionContext,
        connections: &[ConnectionData],
    ) -> (result: Result<(String, String), PipelineError>)
        requires
            context.wf(),
        ensures
            match result {
                Ok(pair) => connected_pair(context@, connections@, node.id@) == Ok::<
                    (Seq<char>, Seq<char>),
                    Failure,
                >((pair.0@, pair.1@)),
                Err(error) => connected_pair(context@, connections@, node.id@) == Err::<
                    (Seq<char>, Seq<char>),
                    Failure,
                >(error@),
            },
    {
        let for_reference: Vec<&str> = vec!["reference-input", "ref-input", "video-ref"];
        let for_distorted: Vec<&str> = vec!["test-input", "distorted-input", "video-test"];
        assert(names(for_reference@) =~= reference_handles());
        assert(names(for_distorted@) =~= distorted_handles());
        let references = ConnectionHelper::find_multiple_connections(
            node.id.as_str(),
            connections,
            for_reference.as_slice(),
        );
        let distorted = ConnectionHelper::find_multiple_connections(
            node.id.as_str(),
            connections,
            for_distorted.as_slice(),
        );
        if references.len() > 0 && distorted.len() > 0 {
            assert(referents(references@)[0] == *references@[0]);
            assert(referents(distorted@)[0] == *distorted@[0]);
            match Self::locations(context, references[0], distorted[0]) {
                Ok(pair) => {
                    return Ok(pair);
                },
                Err(_) => {},
            }
        }
        let inbound = ConnectionHelper::get_all_inputs(node.id.as_str(), connections);
        if inbound.len() == 2 {
            assert(referents(inbound@)[0] == *inbound@[0]);
            assert(referents(inbound@)[1] == *inbound@[1]);
            Self::locations(context, inbound[0], inbound[1])
        } else {
            Err(
                PipelineError::InvalidNodeConfig(
                    String::from_str(
                        "VMAF analysis requires either explicit video paths or two connected inputs",
                    ),
                ),
            )
        }
    }

    /// Asks for the score of the pair that the connections give.
    fn auto_detect_vmaf(
        &self,
        node: &NodeData,
        context: &ExecutionContext,
        connections: &[ConnectionData],
    ) -> (result: Result<ComparisonStep, PipelineError>)
        requires
            context.wf(),
        ensures
            outcome(result) == begin_connected(node.id@, node.data, context@, connections@),
    {
        match self.get_connected_videos(node, context, connections) {
            Ok(pair) => Ok(self.calculate_vmaf_explicit(pair.0, pair.1, node)),
            Err(error) => Err(error),
        }
    }

    /// Asks for the score of two locations.
    fn calculate_vmaf_explicit(&self, reference_path: String, test_path: String, node: &NodeData) -> (step:
        ComparisonStep)
        ensures
            step@ == scoring(node.data, (reference_path@, test_path@)),
    {
        ComparisonStep::Ask(
            Request::CalculateVmaf {
                reference_path,
                distorted_path: test_path,
                model: self.extract_model_config(&node.data),
            },
            ComparisonPending::Scoring,
        )
    }

    /// Begins the comparison node `node`.
    pub fn process(&self, node: &NodeData, context: &ExecutionContext, connections: &[ConnectionData]) -> (result:
        Result<ComparisonStep, PipelineError>)
        requires
            context.wf(),
        ensures
            outcome(result) == begin_comparison(node.id@, node.data, context@, connections@),
    {
        match self.get_explicit_paths(node) {
            Some(pair) => Ok(
                ComparisonStep::Ask(
                    Request::FileExists { path: pair.0.clone() },
                    ComparisonPending::ReferenceExists {
                        reference_path: pair.0,
                        distorted_path: pair.1,
                    },
                ),
            ),
            None => self.auto_detect_vmaf(node, context, connections),
        }
    }

    /// Takes the comparison node `node` up again when the answer to its
    /// request is there.
    pub fn resume(
        &self,
        node: &NodeData,
        pending: ComparisonPending,
        response: Response,
        context: &ExecutionContext,
        connections: &[ConnectionData],
    ) -> (result: Result<ComparisonStep, PipelineError>)
        requires
            context.wf(),
        ensures
            outcome(result) == resume_comparison(
                pending@,
                response@,
                node.id@,
                node.data,
                context@,
                connections@,
            ),
    {
        match pending {
            ComparisonPending::ReferenceExists { reference_path, distorted_path } => match response {
                Response::Exists(found) => if found {
                    Ok(
                        ComparisonStep::Ask(
                            Request::FileExists { path: distorted_path.clone() },
                            ComparisonPending::DistortedExists { reference_path, distorted_path },
                        ),
                    )
                } else {
                    self.auto_detect_vmaf(node, context, connections)
                },
                other => Err(refuse(other)),
            },
            ComparisonPending::DistortedExists { reference_path, distorted_path } => match response {
                Response::Exists(found) => if found {
                    Ok(self.calculate_vmaf_explicit(reference_path, distorted_path, node))
                } else {
                    self.auto_detect_vmaf(node, context, connections)
                },
                other => Err(refuse(other)),
            },
            ComparisonPending::Scoring => match response {
                Response::Score(score) => Ok(ComparisonStep::Finished(score)),
                other => Err(refuse(other)),
            },
        }
    }
}

} // verus!
