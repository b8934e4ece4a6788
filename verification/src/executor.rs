//! The executor: one run of a pipeline, from the processing order to the
//! report.
//!
//! A run has two phases. In the first the ordinary nodes are dispatched in
//! processing order, and the first failure ends the run with a report that
//! names the failing node. In the second the comparison nodes are processed
//! in the order in which the pipeline lists them, and a failure only means
//! that the node leaves no score. Whenever a node needs outside work the run
//! stops and hands out the request; it goes on when it is resumed with the
//! response.

use vstd::prelude::*;
use crate::backend::{Request, RequestView, Response, ResponseView};
use crate::comparison::{
    begin_comparison, resume_comparison, ComparisonPending, ComparisonPendingView, ComparisonStep,
    ComparisonStepView, VmafProcessor,
};
use crate::connections::outcome;
use crate::context::{
    aborted_report, completion_report, failure_report, ContextOp, ContextState, ExecutionContext,
    ExecutionResult, ReportView,
};
use crate::error::{Failure, PipelineError};
use crate::graph::{NodeData, PipelineData};
use crate::handlers::{begin, resume, NodeHandlers, Pending, PendingView, Step, StepView};
use crate::order::{execution_order, position, processing_order};
use crate::text::{join, position_of, same, views};

verus! {

/// What a run is waiting for.
#[derive(Debug)]
pub enum Stage {
    /// An ordinary node is waiting.
    Ordinary(Pending),
    /// A comparison node is waiting.
    Comparison(ComparisonPending),
}

/// A `Stage` with its texts as plain sequences of characters.
pub enum StageView {
    Ordinary(PendingView),
    Comparison(ComparisonPendingView),
}

impl View for Stage {
    type V = StageView;

    open spec fn view(&self) -> StageView {
        match self {
            Stage::Ordinary(pending) => StageView::Ordinary(pending@),
            Stage::Comparison(pending) => StageView::Comparison(pending@),
        }
    }
}

/// A run that has stopped at a request.
#[derive(Debug)]
pub struct Execution {
    pipeline: PipelineData,
    order: Vec<String>,
    context: ExecutionContext,
    cursor: usize,
    stage: Stage,
    request: Request,
}

/// A stopped run as plain values.
pub struct RunView {
    /// The pipeline that is run.
    pub pipeline: PipelineData,
    /// The processing order of its nodes.
    pub order: Seq<Seq<char>>,
    /// What the run has accumulated.
    pub context: ContextState,
    /// The place of the waiting node: in `order` for an ordinary node, in the
    /// pipeline's list of nodes for a comparison node.
    pub cursor: int,
    /// Where the waiting node stands.
    pub stage: StageView,
    /// What the run has asked for.
    pub request: RequestView,
}

impl View for Execution {
    type V = RunView;

    closed spec fn view(&self) -> RunView {
        RunView {
            pipeline: self.pipeline,
            order: views(self.order@),
            context: self.context@,
            cursor: self.cursor as int,
            stage: self.stage@,
            request: self.request@,
        }
    }
}

/// How far a run has come.
#[derive(Debug)]
pub enum Progress {
    /// The run has stopped at a request.
    Waiting(Execution),
    /// The run is over.
    Finished(ExecutionResult),
}

/// A `Progress` as plain values.
pub enum ProgressView {
    Waiting(RunView),
    Finished(ReportView),
}

impl View for Progress {
    type V = ProgressView;

    open spec fn view(&self) -> ProgressView {
        match self {
            Progress::Waiting(run) => ProgressView::Waiting(run@),
            Progress::Finished(report) => ProgressView::Finished(report@),
        }
    }
}

impl Progress {
    /// What the progress holds is in order.
    pub open spec fn wf(&self) -> bool {
        match self {
            Progress::Waiting(run) => run.wf(),
            Progress::Finished(report) => report.wf(),
        }
    }
}

/// The tag of the comparison nodes.
pub open spec fn comparison_tag() -> Seq<char> {
    "vmafAnalysis"@
}

/// The failure for an id of the processing order that no node carries.
pub open spec fn not_found(id: Seq<char>) -> Failure {
    Failure::InvalidNodeConfig("Node not found: "@ + id)
}

/// The first phase from place `cursor` of the processing order on: the nodes
/// are begun one after the other, comparison nodes passed over. A node that
/// finishes has its artifact, if any, stored under its id; the first node
/// that fails ends the run with a report on that failure; the first node that
/// asks for outside work stops the run. Behind the last node the second phase
/// starts.
pub open spec fn ordinary_from(
    pipeline: PipelineData,
    order: Seq<Seq<char>>,
    context: ContextState,
    cursor: int,
) -> ProgressView
    decreases order.len() - cursor, 1int,
{
    if cursor < 0 || cursor >= order.len() {
        comparison_from(pipeline, order, context, 0)
    } else {
        let place = position_of(pipeline.node_ids(), order[cursor]);
        if place >= pipeline.nodes@.len() {
            ProgressView::Finished(aborted_report(not_found(order[cursor])))
        } else {
            let node = pipeline.nodes@[place];
            if node.node_type@ == comparison_tag() {
                ordinary_from(pipeline, order, context, cursor + 1)
            } else {
                match begin(node.id@, node.node_type@, node.data, context, pipeline.connections@) {
                    Err(error) => ProgressView::Finished(
                        failure_report(node.id@, node.node_type@, error),
                    ),
                    Ok(step) => after_step(pipeline, order, context, cursor, step),
                }
            }
        }
    }
}

/// The first phase after the node at place `cursor` has come as far as
/// `step`.
pub open spec fn after_step(
    pipeline: PipelineData,
    order: Seq<Seq<char>>,
    context: ContextState,
    cursor: int,
    step: StepView,
) -> ProgressView
    decreases order.len() - cursor, 0int,
{
    if cursor < 0 || cursor >= order.len() {
        comparison_from(pipeline, order, context, 0)
    } else {
        match step {
            StepView::Finished(Some(artifact)) => ordinary_from(
                pipeline,
                order,
                context.apply(ContextOp::PutArtifact { id: order[cursor], artifact }),
                cursor + 1,
            ),
            StepView::Finished(None) => ordinary_from(pipeline, order, context, cursor + 1),
            StepView::Ask(request, pending) => ProgressView::Waiting(
                RunView {
                    pipeline,
                    order,
                    context,
                    cursor,
                    stage: StageView::Ordinary(pending),
                    request,
                },
            ),
        }
    }
}

/// The second phase from place `cursor` of the pipeline's list of nodes on:
/// the comparison nodes are begun one after the other. A node that finishes
/// has its score stored under its id; a node that fails leaves nothing and
/// the phase goes on; the first node that asks for outside work stops the
/// run. Behind the last node the run ends with the report on what the context
/// holds.
pub open spec fn comparison_from(
    pipeline: PipelineData,
    order: Seq<Seq<char>>,
    context: ContextState,
    cursor: int,
) -> ProgressView
    decreases pipeline.nodes@.len() - cursor, 1int,
{
    if cursor < 0 || cursor >= pipeline.nodes@.len() {
        ProgressView::Finished(completion_report(context))
    } else {
        let node = pipeline.nodes@[cursor];
        if node.node_type@ != comparison_tag() {
            comparison_from(pipeline, order, context, cursor + 1)
        } else {
            match begin_comparison(node.id@, node.data, context, pipeline.connections@) {
                Err(_) => comparison_from(pipeline, order, context, cursor + 1),
                Ok(step) => after_comparison_step(pipeline, order, context, cursor, step),
            }
        }
    }
}

/// The second phase after the node at place `cursor` has come as far as
/// `step`.
pub open spec fn after_comparison_step(
    pipeline: PipelineData,
    order: Seq<Seq<char>>,
    context: ContextState,
    cursor: int,
    step: ComparisonStepView,
) -> ProgressView
    decreases pipeline.nodes@.len() - cursor, 0int,
{
    if cursor < 0 || cursor >= pipeline.nodes@.len() {
        ProgressView::Finished(completion_report(context))
    } else {
        match step {
            ComparisonStepView::Finished(score) => comparison_from(
                pipeline,
                order,
                context.apply(ContextOp::PutComparison { id: pipeline.nodes@[cursor].id@, score }),
                cursor + 1,
            ),
            ComparisonStepView::Ask(request, pending) => ProgressView::Waiting(
                RunView {
                    pipeline,
                    order,
                    context,
                    cursor,
                    stage: StageView::Comparison(pending),
                    request,
                },
            ),
        }
    }
}

/// How a run starts: where the pipeline cannot be ordered it is over at
/// once with a report on the circular dependency; else its first phase begins
/// at the start of the processing order with an empty context.
pub open spec fn started(pipeline: PipelineData) -> ProgressView {
    if pipeline.can_be_ordered() {
        ordinary_from(pipeline, processing_order(pipeline), ContextState::empty(), 0)
    } else {
        ProgressView::Finished(aborted_report(Failure::CircularDependency))
    }
}

/// How a stopped run goes on when the response to its request is there.
pub open spec fn resumed(run: RunView, response: ResponseView) -> ProgressView {
    match run.stage {
        StageView::Ordinary(pending) => {
            let place = if 0 <= run.cursor < run.order.len() {
                position_of(run.pipeline.node_ids(), run.order[run.cursor])
            } else {
                run.pipeline.nodes@.len() as int
            };
            if place >= run.pipeline.nodes@.len() {
                ProgressView::Finished(
                    aborted_report(
                        not_found(
                            if 0 <= run.cursor < run.order.len() {
                                run.order[run.cursor]
                            } else {
                                Seq::empty()
                            },
                        ),
                    ),
                )
            } else {
                let node = run.pipeline.nodes@[place];
                let (result, context) = resume(pending, response, run.context);
                match result {
                    Err(error) => ProgressView::Finished(
                        failure_report(node.id@, node.node_type@, error),
                    ),
                    Ok(step) => after_step(run.pipeline, run.order, context, run.cursor, step),
                }
            }
        },
        StageView::Comparison(pending) => {
            if run.cursor < 0 || run.cursor >= run.pipeline.nodes@.len() {
                ProgressView::Finished(completion_report(run.context))
            } else {
                let node = run.pipeline.nodes@[run.cursor];
                match resume_comparison(
                    pending,
                    response,
                    node.id@,
                    node.data,
                    run.context,
                    run.pipeline.connections@,
                ) {
                    Err(_) => comparison_from(
                        run.pipeline,
                        run.order,
                        run.context,
                        run.cursor + 1,
                    ),
                    Ok(step) => after_comparison_step(
                        run.pipeline,
                        run.order,
                        run.context,
                        run.cursor,
                        step,
                    ),
                }
            }
        },
    }
}

/// A run driven to its end, or for `turns` requests: every request is
/// answered by `answers`, and the run is resumed with the answer.
pub open spec fn driven(
    progress: ProgressView,
    answers: spec_fn(RequestView) -> ResponseView,
    turns: nat,
) -> ProgressView
    decreases turns,
{
    match progress {
        ProgressView::Finished(_) => progress,
        ProgressView::Waiting(run) => if turns == 0 {
            progress
        } else {
            driven(resumed(run, answers(run.request)), answers, (turns - 1) as nat)
        },
    }
}

/// A pipeline whose connections run in a circle is not run at all: the run is
/// over when it starts, with the report on the circular dependency, and no
/// request is ever handed out.
pub proof fn lemma_cycle_ends_run(pipeline: PipelineData, walk: Seq<int>)
    requires
        pipeline.is_cycle(walk),
    ensures
        started(pipeline) == ProgressView::Finished(aborted_report(Failure::CircularDependency)),
        forall|answers: spec_fn(RequestView) -> ResponseView, turns: nat|
            #[trigger] driven(started(pipeline), answers, turns) == ProgressView::Finished(
                aborted_report(Failure::CircularDependency),
            ),
{
    assert(pipeline.has_cycle());
}

/// Two runs from the same point whose requests get the same answers go the
/// same way.
pub proof fn lemma_same_answers_same_way(
    progress: ProgressView,
    first: spec_fn(RequestView) -> ResponseView,
    second: spec_fn(RequestView) -> ResponseView,
    turns: nat,
)
    requires
        forall|request: RequestView| #[trigger] first(request) == second(request),
    ensures
        driven(progress, first, turns) == driven(progress, second, turns),
    decreases turns,
{
    match progress {
        ProgressView::Finished(_) => {},
        ProgressView::Waiting(run) => {
            if turns > 0 {
                assert(first(run.request) == second(run.request));
                lemma_same_answers_same_way(
                    resumed(run, first(run.request)),
                    first,
                    second,
                    (turns - 1) as nat,
                );
            }
        },
    }
}

/// Running a pipeline twice against a backend that answers the same request
/// in the same way gives the same report, with the same artifacts and the
/// same scores.
pub proof fn lemma_same_answers_same_report(
    pipeline: PipelineData,
    first: spec_fn(RequestView) -> ResponseView,
    second: spec_fn(RequestView) -> ResponseView,
    turns: nat,
)
    requires
        forall|request: RequestView| #[trigger] first(request) == second(request),
    ensures
        driven(started(pipeline), first, turns) == driven(started(pipeline), second, turns),
{
    lemma_same_answers_same_way(started(pipeline), first, second, turns);
}

/// `progress` holds exactly the artifacts `artifacts`: in the context of a
/// run that waits in its second phase, or in a report on a run that went
/// through.
pub open spec fn keeps_artifacts(
    progress: ProgressView,
    artifacts: Map<Seq<char>, crate::media::VideoView>,
) -> bool {
    match progress {
        ProgressView::Waiting(run) => run.stage is Comparison && run.context.artifacts == artifacts,
        ProgressView::Finished(report) => report.artifacts == artifacts && report.success == (
        artifacts.dom().len() > 0),
    }
}

/// No comparison node ends a run or touches an artifact: from any place of
/// the second phase on, the run either waits in the second phase or has gone
/// through, and the artifacts are those with which the phase began.
pub proof fn lemma_comparisons_keep_artifacts(
    pipeline: PipelineData,
    order: Seq<Seq<char>>,
    context: ContextState,
    cursor: int,
)
    ensures
        keeps_artifacts(comparison_from(pipeline, order, context, cursor), context.artifacts),
    decreases pipeline.nodes@.len() - cursor, 1int,
{
    if 0 <= cursor < pipeline.nodes@.len() {
        let node = pipeline.nodes@[cursor];
        lemma_comparisons_keep_artifacts(pipeline, order, context, cursor + 1);
        if node.node_type@ == comparison_tag() {
            match begin_comparison(node.id@, node.data, context, pipeline.connections@) {
                Err(_) => {},
                Ok(step) => {
                    lemma_comparison_step_keeps_artifacts(pipeline, order, context, cursor, step);
                },
            }
        }
    }
}

/// The same, from the place where a comparison node has come as far as
/// `step`.
pub proof fn lemma_comparison_step_keeps_artifacts(
    pipeline: PipelineData,
    order: Seq<Seq<char>>,
    context: ContextState,
    cursor: int,
    step: ComparisonStepView,
)
    ensures
        keeps_artifacts(
            after_comparison_step(pipeline, order, context, cursor, step),
            context.artifacts,
        ),
    decreases pipeline.nodes@.len() - cursor, 0int,
{
    if 0 <= cursor < pipeline.nodes@.len() {
        match step {
            ComparisonStepView::Finished(score) => {
                lemma_comparisons_keep_artifacts(
                    pipeline,
                    order,
                    context.apply(
                        ContextOp::PutComparison { id: pipeline.nodes@[cursor].id@, score },
                    ),
                    cursor + 1,
                );
            },
            ComparisonStepView::Ask(_, _) => {},
        }
    }
}

/// A failure in the first phase ends the run: the report is no success,
/// names the node, and holds neither artifacts nor scores, whatever the
/// context held.
pub proof fn lemma_failure_ends_run(run: RunView, response: ResponseView, pending: PendingView)
    requires
        run.stage == StageView::Ordinary(pending),
        0 <= run.cursor < run.order.len(),
        position_of(run.pipeline.node_ids(), run.order[run.cursor]) < run.pipeline.nodes@.len(),
        resume(pending, response, run.context).0 is Err,
    ensures
        resumed(run, response) == ProgressView::Finished(
            failure_report(
                run.pipeline.nodes@[position_of(
                    run.pipeline.node_ids(),
                    run.order[run.cursor],
                )].id@,
                run.pipeline.nodes@[position_of(
                    run.pipeline.node_ids(),
                    run.order[run.cursor],
                )].node_type@,
                resume(pending, response, run.context).0->Err_0,
            ),
        ),
        resumed(run, response) matches ProgressView::Finished(report) && !report.success
            && report.artifacts == Map::<Seq<char>, crate::media::VideoView>::empty()
            && !report.scored,
{
}

/// Every artifact among `artifacts` belongs to one of the first `cursor`
/// nodes of `order`.
pub open spec fn produced_before(
    artifacts: Map<Seq<char>, crate::media::VideoView>,
    order: Seq<Seq<char>>,
    cursor: int,
) -> bool {
    forall|id: Seq<char>| #[trigger]
        artifacts.contains_key(id) ==> exists|k: int|
            0 <= k < cursor && k < order.len() && order[k] == id
}

/// The artifacts that `progress` holds come from nodes that have had their
/// turn: from nodes before the waiting one while the first phase lasts, from
/// nodes of the processing order afterwards.
pub open spec fn in_step(progress: ProgressView, order: Seq<Seq<char>>) -> bool {
    match progress {
        ProgressView::Waiting(run) => run.order == order && run.cursor >= 0 && produced_before(
            run.context.artifacts,
            order,
            if run.stage is Ordinary {
                run.cursor
            } else {
                order.len() as int
            },
        ),
        ProgressView::Finished(report) => produced_before(
            report.artifacts,
            order,
            order.len() as int,
        ),
    }
}

/// No node's artifact is stored before the node has had its turn, and none is
/// stored by another node: from any place of the first phase on, whatever the
/// run holds comes from nodes that have had their turn.
pub proof fn lemma_first_phase_in_step(
    pipeline: PipelineData,
    order: Seq<Seq<char>>,
    context: ContextState,
    cursor: int,
)
    requires
        0 <= cursor,
        produced_before(context.artifacts, order, cursor),
    ensures
        in_step(ordinary_from(pipeline, order, context, cursor), order),
    decreases order.len() - cursor, 1int,
{
    if cursor >= order.len() {
        lemma_comparisons_keep_artifacts(pipeline, order, context, 0);
        lemma_second_phase_keeps_order(pipeline, order, context, 0);
    } else {
        let place = position_of(pipeline.node_ids(), order[cursor]);
        if place < pipeline.nodes@.len() {
            let node = pipeline.nodes@[place];
            if node.node_type@ == comparison_tag() {
                lemma_first_phase_in_step(pipeline, order, context, cursor + 1);
            } else {
                match begin(node.id@, node.node_type@, node.data, context, pipeline.connections@) {
                    Err(_) => {},
                    Ok(step) => {
                        lemma_step_in_step(pipeline, order, context, cursor, step);
                    },
                }
            }
        }
    }
}

/// The same, from the place where a node has come as far as `step`.
pub proof fn lemma_step_in_step(
    pipeline: PipelineData,
    order: Seq<Seq<char>>,
    context: ContextState,
    cursor: int,
    step: StepView,
)
    requires
        0 <= cursor,
        produced_before(context.artifacts, order, cursor),
    ensures
        in_step(after_step(pipeline, order, context, cursor, step), order),
    decreases order.len() - cursor, 0int,
{
    if cursor >= order.len() {
        lemma_comparisons_keep_artifacts(pipeline, order, context, 0);
        lemma_second_phase_keeps_order(pipeline, order, context, 0);
    } else {
        match step {
            StepView::Finished(Some(artifact)) => {
                let stored = context.apply(ContextOp::PutArtifact { id: order[cursor], artifact });
                assert(produced_before(stored.artifacts, order, cursor + 1)) by {
                    assert forall|id: Seq<char>| #[trigger]
                        stored.artifacts.contains_key(id) implies exists|k: int|
                        0 <= k < cursor + 1 && k < order.len() && order[k] == id by {
                        if id == order[cursor] {
                            assert(order[cursor] == id);
                        } else {
                            assert(context.artifacts.contains_key(id));
                        }
                    }
                }
                lemma_first_phase_in_step(pipeline, order, stored, cursor + 1);
            },
            StepView::Finished(None) => {
                lemma_first_phase_in_step(pipeline, order, context, cursor + 1);
            },
            StepView::Ask(_, _) => {},
        }
    }
}

/// A run that waits in its second phase waits with the processing order with
/// which the phase began.
pub proof fn lemma_second_phase_keeps_order(
    pipeline: PipelineData,
    order: Seq<Seq<char>>,
    context: ContextState,
    cursor: int,
)
    requires
        0 <= cursor,
    ensures
        comparison_from(pipeline, order, context, cursor) matches ProgressView::Waiting(run)
            ==> run.order == order && run.cursor >= 0,
    decreases pipeline.nodes@.len() - cursor, 1int,
{
    if cursor < pipeline.nodes@.len() {
        let node = pipeline.nodes@[cursor];
        lemma_second_phase_keeps_order(pipeline, order, context, cursor + 1);
        if node.node_type@ == comparison_tag() {
            match begin_comparison(node.id@, node.data, context, pipeline.connections@) {
                Ok(step) => {
                    lemma_second_phase_step_keeps_order(pipeline, order, context, cursor, step);
                },
                Err(_) => {},
            }
        }
    }
}

/// The same, from the place where a comparison node has come as far as
/// `step`.
pub proof fn lemma_second_phase_step_keeps_order(
    pipeline: PipelineData,
    order: Seq<Seq<char>>,
    context: ContextState,
    cursor: int,
    step: ComparisonStepView,
)
    requires
        0 <= cursor,
    ensures
        after_comparison_step(pipeline, order, context, cursor, step) matches ProgressView::Waiting(
            run,
        ) ==> run.order == order && run.cursor >= 0,
    decreases pipeline.nodes@.len() - cursor, 0int,
{
    if cursor < pipeline.nodes@.len() {
        match step {
            ComparisonStepView::Finished(score) => {
                lemma_second_phase_keeps_order(
                    pipeline,
                    order,
                    context.apply(
                        ContextOp::PutComparison { id: pipeline.nodes@[cursor].id@, score },
                    ),
                    cursor + 1,
                );
            },
            ComparisonStepView::Ask(_, _) => {},
        }
    }
}

/// Resuming a run keeps it in step.
pub proof fn lemma_resumed_in_step(run: RunView, response: ResponseView)
    requires
        in_step(ProgressView::Waiting(run), run.order),
    ensures
        in_step(resumed(run, response), run.order),
{
    let order = run.order;
    match run.stage {
        StageView::Ordinary(pending) => {
            if 0 <= run.cursor < order.len() && position_of(
                run.pipeline.node_ids(),
                order[run.cursor],
            ) < run.pipeline.nodes@.len() {
                let (result, context) = resume(pending, response, run.context);
                assert(context.artifacts == run.context.artifacts);
                match result {
                    Err(_) => {},
                    Ok(step) => {
                        lemma_step_in_step(run.pipeline, order, context, run.cursor, step);
                    },
                }
            }
        },
        StageView::Comparison(pending) => {
            if 0 <= run.cursor < run.pipeline.nodes@.len() {
                let node = run.pipeline.nodes@[run.cursor];
                lemma_comparisons_keep_artifacts(run.pipeline, order, run.context, run.cursor + 1);
                lemma_second_phase_keeps_order(run.pipeline, order, run.context, run.cursor + 1);
                match resume_comparison(
                    pending,
                    response,
                    node.id@,
                    node.data,
                    run.context,
                    run.pipeline.connections@,
                ) {
                    Ok(step) => {
                        lemma_comparison_step_keeps_artifacts(
                            run.pipeline,
                            order,
                            run.context,
                            run.cursor,
                            step,
                        );
                        lemma_second_phase_step_keeps_order(
                            run.pipeline,
                            order,
                            run.context,
                            run.cursor,
                            step,
                        );
                    },
                    Err(_) => {},
                }
            }
        },
    }
}

/// However a run is driven, every artifact that it holds or reports was
/// stored under the id of a node of the processing order when that node had
/// its turn.
pub proof fn lemma_runs_stay_in_step(
    pipeline: PipelineData,
    answers: spec_fn(RequestView) -> ResponseView,
    turns: nat,
)
    ensures
        in_step(driven(started(pipeline), answers, turns), processing_order(pipeline)),
{
    let order = processing_order(pipeline);
    if pipeline.can_be_ordered() {
        lemma_first_phase_in_step(pipeline, order, ContextState::empty(), 0);
    }
    lemma_driven_in_step(started(pipeline), order, answers, turns);
}

/// Driving a run that is in step keeps it in step.
pub proof fn lemma_driven_in_step(
    progress: ProgressView,
    order: Seq<Seq<char>>,
    answers: spec_fn(RequestView) -> ResponseView,
    turns: nat,
)
    requires
        in_step(progress, order),
    ensures
        in_step(driven(progress, answers, turns), order),
    decreases turns,
{
    match progress {
        ProgressView::Finished(_) => {},
        ProgressView::Waiting(run) => {
            if turns > 0 {
                lemma_resumed_in_step(run, answers(run.request));
                lemma_driven_in_step(
                    resumed(run, answers(run.request)),
                    order,
                    answers,
                    (turns - 1) as nat,
                );
            }
        },
    }
}

impl Execution {
    /// The context is in order.
    pub closed spec fn wf(&self) -> bool {
        self.context.wf()
    }

    /// What the run asks for.
    pub fn request(&self) -> (request: &Request)
        ensures
            request@ == self@.request,
    {
        &self.request
    }

    /// The processing order of the run.
    pub fn order(&self) -> (order: &Vec<String>)
        ensures
            views(order@) == self@.order,
    {
        &self.order
    }

    /// What the run has accumulated so far.
    pub fn context(&self) -> (context: &ExecutionContext)
        requires
            self.wf(),
        ensures
            context.wf(),
            context@ == self@.context,
    {
        &self.context
    }

    /// Goes on with the run, now that the response to its request is there.
    pub fn resume(self, response: Response) -> (progress: Progress)
        requires
            self.wf(),
        ensures
            progress.wf(),
            progress@ == resumed(self@, response@),
    {
        let Execution { pipeline, order, context, cursor, stage, request } = self;
        let mut context = context;
        match stage {
            Stage::Ordinary(pending) => {
                let place = if cursor < order.len() {
                    position(&pipeline.nodes, order[cursor].as_str())
                } else {
                    pipeline.nodes.len()
                };
                if place >= pipeline.nodes.len() {
                    let id = if cursor < order.len() {
                        order[cursor].clone()
                    } else {
                        String::new()
                    };
                    return Progress::Finished(
                        ExecutionResult::aborted(
                            PipelineError::InvalidNodeConfig(join("Node not found: ", id.as_str())),
                        ),
                    );
                }
                let node = &pipeline.nodes[place];
                let handlers = NodeHandlers::new();
                match handlers.resume(pending, response, &mut context) {
                    Err(error) => Progress::Finished(
                        ExecutionResult::failure(
                            node.id.as_str(),
                            node.node_type.as_str(),
                            error,
                        ),
                    ),
                    Ok(step) => PipelineExecutor::after_step(pipeline, order, context, cursor, step),
                }
            },
            Stage::Comparison(pending) => {
                if cursor >= pipeline.nodes.len() {
                    return Progress::Finished(context.build_result());
                }
                let processor = VmafProcessor::new();
                let result = processor.resume(
                    &pipeline.nodes[cursor],
                    pending,
                    response,
                    &context,
                    pipeline.connections.as_slice(),
                );
                match result {
                    Err(_) => PipelineExecutor::run_comparison(pipeline, order, context, cursor + 1),
                    Ok(step) => PipelineExecutor::after_comparison_step(
                        pipeline,
                        order,
                        context,
                        cursor,
                        step,
                    ),
                }
            },
        }
    }
}

/// What came of beginning one ordinary node.
enum Turn {
    /// The node is a comparison node and was passed over.
    Skip,
    /// The run is over.
    Over(ExecutionResult),
    /// The node has come this far.
    Stepped(Step),
}

/// The executor.
pub struct PipelineExecutor;

impl PipelineExecutor {
    pub fn new() -> (executor: Self) {
        PipelineExecutor
    }

    /// The processing order of `pipeline`: see `execution_order`.
    pub fn calculate_execution_order(&self, pipeline: &PipelineData) -> (result: Result<
        Vec<String>,
        PipelineError,
    >)
        ensures
            match result {
                Ok(order) => pipeline.is_execution_order(views(order@)) && views(order@)
                    == processing_order(*pipeline),
                Err(error) => error@ == Failure::CircularDependency && forall|
                    order: Seq<Seq<char>>,
                | !pipeline.is_execution_order(order),
            },
            result is Ok <==> pipeline.unique_ids() && pipeline.sources_exist()
                && !pipeline.has_cycle(),
    {
        execution_order(pipeline)
    }

    /// Begins one ordinary node: see `NodeHandlers::process`.
    pub fn process_node(
        &self,
        node: &NodeData,
        context: &ExecutionContext,
        connections: &[crate::graph::ConnectionData],
    ) -> (result: Result<Step, PipelineError>)
        requires
            context.wf(),
        ensures
            outcome(result) == begin(
                node.id@,
                node.node_type@,
                node.data,
                context@,
                connections@,
            ),
            result matches Ok(step) ==> step@.wf(),
    {
        NodeHandlers::new().process(node, context, connections)
    }

    /// Starts a run of `pipeline`. Where the pipeline has no processing order
    /// the run is over at once, with a report on the circular dependency, and
    /// nothing is asked of anyone. Else the run begins its first phase with an
    /// empty context and the first node of the pipeline's processing order.
    pub fn execute(&self, pipeline: PipelineData) -> (progress: Progress)
        ensures
            progress.wf(),
            progress@ == started(pipeline),
            pipeline.can_be_ordered() ==> pipeline.is_execution_order(processing_order(pipeline)),
    {
        match self.calculate_execution_order(&pipeline) {
            Err(error) => Progress::Finished(ExecutionResult::aborted(error)),
            Ok(order) => {
                let context = ExecutionContext::new();
                Self::run_ordinary(pipeline, order, context, 0)
            },
        }
    }

    /// Begins the node at place `at` of the processing order.
    fn turn_ordinary(
        pipeline: &PipelineData,
        order: &Vec<String>,
        context: &ExecutionContext,
        at: usize,
    ) -> (turn: Turn)
        requires
            context.wf(),
            at < order@.len(),
        ensures
            match turn {
                Turn::Skip => ordinary_from(*pipeline, views(order@), context@, at as int)
                    == ordinary_from(*pipeline, views(order@), context@, at + 1),
                Turn::Over(report) => report.wf() && ordinary_from(
                    *pipeline,
                    views(order@),
                    context@,
                    at as int,
                ) == ProgressView::Finished(report@),
                Turn::Stepped(step) => step@.wf() && ordinary_from(
                    *pipeline,
                    views(order@),
                    context@,
                    at as int,
                ) == after_step(*pipeline, views(order@), context@, at as int, step@),
            },
    {
        assert(views(order@)[at as int] == order@[at as int]@);
        let place = position(&pipeline.nodes, order[at].as_str());
        if place >= pipeline.nodes.len() {
            return Turn::Over(
                ExecutionResult::aborted(
                    PipelineError::InvalidNodeConfig(join("Node not found: ", order[at].as_str())),
                ),
            );
        }
        let node = &pipeline.nodes[place];
        if same(node.node_type.as_str(), "vmafAnalysis") {
            return Turn::Skip;
        }
        match NodeHandlers::new().process(node, context, pipeline.connections.as_slice()) {
            Err(error) => Turn::Over(
                ExecutionResult::failure(node.id.as_str(), node.node_type.as_str(), error),
            ),
            Ok(step) => Turn::Stepped(step),
        }
    }

    /// The first phase from place `cursor` on.
    fn run_ordinary(
        pipeline: PipelineData,
        order: Vec<String>,
        context: ExecutionContext,
        cursor: usize,
    ) -> (progress: Progress)
        requires
            context.wf(),
        ensures
            progress.wf(),
            progress@ == ordinary_from(pipeline, views(order@), context@, cursor as int),
    {
        let mut current = context;
        let mut at = cursor;
        while at < order.len()
            invariant
                current.wf(),
                ordinary_from(pipeline, views(order@), context@, cursor as int) == ordinary_from(
                    pipeline,
                    views(order@),
                    current@,
                    at as int,
                ),
            decreases order@.len() - at,
        {
            assert(views(order@)[at as int] == order@[at as int]@);
            match Self::turn_ordinary(&pipeline, &order, &current, at) {
                Turn::Skip => {},
                Turn::Over(report) => {
                    return Progress::Finished(report);
                },
                Turn::Stepped(Step::Finished(Some(artifact))) => {
                    current.add_result(order[at].clone(), artifact);
                },
                Turn::Stepped(Step::Finished(None)) => {},
                Turn::Stepped(Step::Ask(request, pending)) => {
                    let run = Execution {
                        pipeline,
                        order,
                        context: current,
                        cursor: at,
                        stage: Stage::Ordinary(pending),
                        request,
                    };
                    return Progress::Waiting(run);
                },
            }
            at = at + 1;
        }
        Self::run_comparison(pipeline, order, current, 0)
    }

    /// The first phase after the node at place `cursor` has come as far as
    /// `step`.
    fn after_step(
        pipeline: PipelineData,
        order: Vec<String>,
        context: ExecutionContext,
        cursor: usize,
        step: Step,
    ) -> (progress: Progress)
        requires
            context.wf(),
        ensures
            progress.wf(),
            progress@ == after_step(pipeline, views(order@), context@, cursor as int, step@),
    {
        let mut current = context;
        if cursor >= order.len() {
            return Self::run_comparison(pipeline, order, current, 0);
        }
        match step {
            Step::Finished(Some(artifact)) => {
                current.add_result(order[cursor].clone(), artifact);
                Self::run_ordinary(pipeline, order, current, cursor + 1)
            },
            Step::Finished(None) => Self::run_ordinary(pipeline, order, current, cursor + 1),
            Step::Ask(request, pending) => Progress::Waiting(
                Execution {
                    pipeline,
                    order,
                    context: current,
                    cursor,
                    stage: Stage::Ordinary(pending),
                    request,
                },
            ),
        }
    }

    /// Begins the node at place `at` of the pipeline's list, if it is a
    /// comparison node.
    fn turn_comparison(
        pipeline: &PipelineData,
        order: &Vec<String>,
        context: &ExecutionContext,
        at: usize,
    ) -> (turn: Option<ComparisonStep>)
        requires
            context.wf(),
            at < pipeline.nodes@.len(),
        ensures
            match turn {
                None => comparison_from(*pipeline, views(order@), context@, at as int)
                    == comparison_from(*pipeline, views(order@), context@, at + 1),
                Some(step) => comparison_from(*pipeline, views(order@), context@, at as int)
                    == after_comparison_step(
                    *pipeline,
                    views(order@),
                    context@,
                    at as int,
                    step@,
                ),
            },
    {
        let node = &pipeline.nodes[at];
        if !same(node.node_type.as_str(), "vmafAnalysis") {
            return None;
        }
        match VmafProcessor::new().process(node, context, pipeline.connections.as_slice()) {
            Err(_) => None,
            Ok(step) => Some(step),
        }
    }

    /// The second phase from place `cursor` on.
    fn run_comparison(
        pipeline: PipelineData,
        order: Vec<String>,
        context: ExecutionContext,
        cursor: usize,
    ) -> (progress: Progress)
        requires
            context.wf(),
        ensures
            progress.wf(),
            progress@ == comparison_from(pipeline, views(order@), context@, cursor as int),
    {
        let mut current = context;
        let mut at = cursor;
        while at < pipeline.nodes.len()
            invariant
                current.wf(),
                comparison_from(pipeline, views(order@), context@, cursor as int)
                    == comparison_from(pipeline, views(order@), current@, at as int),
            decreases pipeline.nodes@.len() - at,
        {
            match Self::turn_comparison(&pipeline, &order, &current, at) {
                None => {},
                Some(ComparisonStep::Finished(score)) => {
                    current.add_vmaf_result(pipeline.nodes[at].id.clone(), score);
                },
                Some(ComparisonStep::Ask(request, pending)) => {
                    let run = Execution {
                        pipeline,
                        order,
                        context: current,
                        cursor: at,
                        stage: Stage::Comparison(pending),
                        request,
                    };
                    return Progress::Waiting(run);
                },
            }
            at = at + 1;
        }
        Progress::Finished(current.build_result())
    }

    /// The second phase after the node at place `cursor` has come as far as
    /// `step`.
    fn after_comparison_step(
        pipeline: PipelineData,
        order: Vec<String>,
        context: ExecutionContext,
        cursor: usize,
        step: ComparisonStep,
    ) -> (progress: Progress)
        requires
            context.wf(),
        ensures
            progress.wf(),
            progress@ == after_comparison_step(
                pipeline,
                views(order@),
                context@,
                cursor as int,
                step@,
            ),
    {
        let mut current = context;
        if cursor >= pipeline.nodes.len() {
            return Progress::Finished(current.build_result());
        }
        match step {
            ComparisonStep::Finished(score) => {
                current.add_vmaf_result(pipeline.nodes[cursor].id.clone(), score);
                Self::run_comparison(pipeline, order, current, cursor + 1)
            },
            ComparisonStep::Ask(request, pending) => Progress::Waiting(
                Execution {
                    pipeline,
                    order,
                    context: current,
                    cursor,
                    stage: Stage::Comparison(pending),
                    request,
                },
            ),
        }
    }
}

} // verus!
