//! The execution context: what one run has accumulated so far, and the report
//! that is built from it.

use vstd::prelude::*;
use crate::error::{Failure, PipelineError};
use crate::media::{ScoreView, TrimData, VideoData, VideoView, VmafScore};
use crate::table::Table;
use crate::text::{decimal, decimal_text, join3};

verus! {

/// What a context holds, as three maps.
pub struct ContextState {
    /// The artifact that each node has produced, by node id.
    pub artifacts: Map<Seq<char>, VideoView>,
    /// The trim window registered for each location.
    pub ranges: Map<Seq<char>, TrimData>,
    /// The score of each comparison node, by node id.
    pub comparisons: Map<Seq<char>, ScoreView>,
}

/// One write into a context.
pub enum ContextOp {
    PutArtifact { id: Seq<char>, artifact: VideoView },
    PutRange { location: Seq<char>, start: i64, end: i64 },
    PutComparison { id: Seq<char>, score: ScoreView },
}

/// The trim window from `start` to `end`.
pub open spec fn window(start: i64, end: i64) -> TrimData {
    TrimData { start_time: start, end_time: end, duration: (end - start) as i128 }
}

impl ContextState {
    /// The state of a fresh context.
    pub open spec fn empty() -> ContextState {
        ContextState { artifacts: Map::empty(), ranges: Map::empty(), comparisons: Map::empty() }
    }

    /// The state after one write.
    pub open spec fn apply(self, op: ContextOp) -> ContextState {
        match op {
            ContextOp::PutArtifact { id, artifact } => ContextState {
                artifacts: self.artifacts.insert(id, artifact),
                ..self
            },
            ContextOp::PutRange { location, start, end } => ContextState {
                ranges: self.ranges.insert(location, window(start, end)),
                ..self
            },
            ContextOp::PutComparison { id, score } => ContextState {
                comparisons: self.comparisons.insert(id, score),
                ..self
            },
        }
    }

    /// The state after the writes `ops`, first to last.
    pub open spec fn apply_all(self, ops: Seq<ContextOp>) -> ContextState
        decreases ops.len(),
    {
        if ops.len() == 0 {
            self
        } else {
            self.apply_all(ops.drop_last()).apply(ops.last())
        }
    }

    /// Everything of `self` is still in `later`, but for trim windows, which
    /// may have been replaced.
    pub open spec fn grows_into(self, later: ContextState) -> bool {
        &&& self.artifacts.dom().subset_of(later.artifacts.dom())
        &&& self.ranges.dom().subset_of(later.ranges.dom())
        &&& self.comparisons.dom().subset_of(later.comparisons.dom())
    }
}

/// `op` stores an artifact under `id`.
pub open spec fn writes_artifact(op: ContextOp, id: Seq<char>) -> bool {
    op matches ContextOp::PutArtifact { id: written, .. } && written == id
}

/// An artifact that was stored under an id is what the context holds there
/// for as long as no other artifact is stored under the same id, whatever
/// else is written.
pub proof fn lemma_artifact_stays(
    state: ContextState,
    id: Seq<char>,
    artifact: VideoView,
    ops: Seq<ContextOp>,
)
    requires
        forall|i: int| 0 <= i < ops.len() ==> !writes_artifact(#[trigger] ops[i], id),
    ensures
        state.apply(ContextOp::PutArtifact { id, artifact }).apply_all(ops).artifacts.contains_key(
            id,
        ),
        state.apply(ContextOp::PutArtifact { id, artifact }).apply_all(ops).artifacts[id]
            == artifact,
    decreases ops.len(),
{
    if ops.len() > 0 {
        lemma_artifact_stays(state, id, artifact, ops.drop_last());
        assert(!writes_artifact(ops[ops.len() - 1], id));
    }
}

/// After a trim window is registered for a location the context holds that
/// window there, with the difference of its two ends as its length; a second
/// one for the same location replaces the first in full.
pub proof fn lemma_range_replaced(
    state: ContextState,
    location: Seq<char>,
    start: i64,
    end: i64,
    second_start: i64,
    second_end: i64,
)
    ensures
        state.apply(ContextOp::PutRange { location, start, end }).ranges[location] == (TrimData {
            start_time: start,
            end_time: end,
            duration: (end - start) as i128,
        }),
        state.apply(ContextOp::PutRange { location, start, end }).apply(
            ContextOp::PutRange { location, start: second_start, end: second_end },
        ).ranges == state.apply(
            ContextOp::PutRange { location, start: second_start, end: second_end },
        ).ranges,
        state.apply(ContextOp::PutRange { location, start, end }).apply(
            ContextOp::PutRange { location, start: second_start, end: second_end },
        ).ranges[location] == window(second_start, second_end),
{
    let once = state.apply(ContextOp::PutRange { location, start, end });
    let twice = once.apply(ContextOp::PutRange { location, start: second_start, end: second_end });
    let direct = state.apply(ContextOp::PutRange { location, start: second_start, end: second_end });
    assert(twice.ranges =~= direct.ranges);
}

/// No write removes an entry.
pub proof fn lemma_writes_only_add(state: ContextState, ops: Seq<ContextOp>)
    ensures
        state.grows_into(state.apply_all(ops)),
    decreases ops.len(),
{
    if ops.len() > 0 {
        lemma_writes_only_add(state, ops.drop_last());
    }
}

/// How many entries of each kind a context holds.
#[derive(Debug, Clone, Copy, PartialEq, Eq, Structural)]
pub struct ExecutionStats {
    pub total_results: usize,
    pub vmaf_analyses: usize,
    pub trim_operations: usize,
}

/// What a run hands back to its caller.
#[derive(Debug)]
pub struct ExecutionResult {
    pub success: bool,
    pub message: String,
    /// The artifact of each node that produced one.
    pub outputs: Table<VideoData>,
    /// The scores of the comparison nodes, where there are any.
    pub vmaf_results: Option<Table<VmafScore>>,
}

/// The message of a report on a run that went through, from the numbers of
/// artifacts, comparisons and trim windows it left.
pub open spec fn completion_message(artifacts: nat, comparisons: nat, ranges: nat) -> Seq<char> {
    if artifacts > 0 {
        "✅ Pipeline completed successfully! Processed "@ + decimal(artifacts) + " nodes"@ + (
        if comparisons > 0 {
            ", "@ + decimal(comparisons) + " VMAF analyses"@
        } else {
            Seq::<char>::empty()
        }) + (if ranges > 0 {
            ", "@ + decimal(ranges) + " trim operations"@
        } else {
            Seq::<char>::empty()
        })
    } else {
        "❌ No nodes were processed successfully"@
    }
}

/// The message of a report on a run that stopped at a node.
pub open spec fn failure_message(
    node_id: Seq<char>,
    node_type: Seq<char>,
    error: Failure,
) -> Seq<char> {
    "❌ "@ + node_type + " node '"@ + node_id + "' failed: "@ + error.message()
}

/// A report as plain values.
pub struct ReportView {
    pub success: bool,
    pub message: Seq<char>,
    /// The artifact of each node that produced one.
    pub artifacts: Map<Seq<char>, VideoView>,
    /// Whether the report carries scores at all.
    pub scored: bool,
    /// The score of each comparison node that produced one.
    pub comparisons: Map<Seq<char>, ScoreView>,
}

/// The report on a run that went through with `context`: a success if and
/// only if at least one artifact was produced; all artifacts; the scores
/// where there are any.
pub open spec fn completion_report(context: ContextState) -> ReportView {
    ReportView {
        success: context.artifacts.dom().len() > 0,
        message: completion_message(
            context.artifacts.dom().len(),
            context.comparisons.dom().len(),
            context.ranges.dom().len(),
        ),
        artifacts: context.artifacts,
        scored: context.comparisons.dom().len() > 0,
        comparisons: context.comparisons,
    }
}

/// A report on a run that came to nothing, with `message`.
pub open spec fn empty_report(message: Seq<char>) -> ReportView {
    ReportView {
        success: false,
        message,
        artifacts: Map::empty(),
        scored: false,
        comparisons: Map::empty(),
    }
}

/// The report on a run that stopped at a node.
pub open spec fn failure_report(
    node_id: Seq<char>,
    node_type: Seq<char>,
    error: Failure,
) -> ReportView {
    empty_report(failure_message(node_id, node_type, error))
}

/// The report on a run that stopped before any node was dispatched.
pub open spec fn aborted_report(error: Failure) -> ReportView {
    empty_report("Pipeline execution failed: "@ + error.message())
}

impl View for ExecutionResult {
    type V = ReportView;

    open spec fn view(&self) -> ReportView {
        ReportView {
            success: self.success,
            message: self.message@,
            artifacts: self.artifacts(),
            scored: self.vmaf_results is Some,
            comparisons: self.comparisons(),
        }
    }
}

impl ExecutionResult {
    /// Both tables are in order.
    pub open spec fn wf(&self) -> bool {
        &&& self.outputs.wf()
        &&& self.vmaf_results matches Some(scores) ==> scores.wf()
    }

    /// The artifacts of the report, by node id.
    pub open spec fn artifacts(&self) -> Map<Seq<char>, VideoView> {
        self.outputs@.map_values(|artifact: VideoData| artifact@)
    }

    /// The comparison scores of the report, by node id.
    pub open spec fn comparisons(&self) -> Map<Seq<char>, ScoreView> {
        match self.vmaf_results {
            Some(scores) => scores@.map_values(|score: VmafScore| score@),
            None => Map::empty(),
        }
    }

    /// The report on a run that stopped at node `node_id` with `error`: no
    /// success, no artifacts, no scores, and a message that names the node, its
    /// kind and the failure.
    pub fn failure(node_id: &str, node_type: &str, error: PipelineError) -> (report: Self)
        ensures
            report.wf(),
            report@ == failure_report(node_id@, node_type@, error@),
    {
        let head = join3("❌ ", node_type, " node '");
        let tail = join3(node_id, "' failed: ", error.message().as_str());
        let message = head.concat(tail.as_str());
        assert(message@ =~= failure_message(node_id@, node_type@, error@));
        let report = ExecutionResult {
            success: false,
            message,
            outputs: Table::new(),
            vmaf_results: None,
        };
        assert(report.artifacts() =~= Map::<Seq<char>, VideoView>::empty());
        report
    }

    /// The report on a run that stopped with `error` before any node was
    /// dispatched: no success, no artifacts, no scores.
    pub fn aborted(error: PipelineError) -> (report: Self)
        ensures
            report.wf(),
            report@ == aborted_report(error@),
    {
        let report = ExecutionResult {
            success: false,
            message: crate::text::join("Pipeline execution failed: ", error.message().as_str()),
            outputs: Table::new(),
            vmaf_results: None,
        };
        assert(report.artifacts() =~= Map::<Seq<char>, VideoView>::empty());
        report
    }
}

/// The accumulator of one run: artifacts by node id, trim windows by
/// location, comparison scores by node id.
#[derive(Debug)]
pub struct ExecutionContext {
    results: Table<VideoData>,
    vmaf_results: Table<VmafScore>,
    trim_data: Table<TrimData>,
}

impl View for ExecutionContext {
    type V = ContextState;

    closed spec fn view(&self) -> ContextState {
        ContextState {
            artifacts: self.results@.map_values(|artifact: VideoData| artifact@),
            ranges: self.trim_data@,
            comparisons: self.vmaf_results@.map_values(|score: VmafScore| score@),
        }
    }
}

impl ExecutionContext {
    /// The three tables are in order.
    pub closed spec fn wf(&self) -> bool {
        &&& self.results.wf()
        &&& self.vmaf_results.wf()
        &&& self.trim_data.wf()
    }

    /// The keys of the maps are the keys of the tables.
    proof fn lemma_domains(&self)
        ensures
            self@.artifacts.dom() == self.results@.dom(),
            self@.comparisons.dom() == self.vmaf_results@.dom(),
            self@.ranges.dom() == self.trim_data@.dom(),
    {
        assert(self@.artifacts.dom() =~= self.results@.dom());
        assert(self@.comparisons.dom() =~= self.vmaf_results@.dom());
    }

    /// An empty context.
    pub fn new() -> (context: Self)
        ensures
            context.wf(),
            context@ == ContextState::empty(),
    {
        let context = ExecutionContext {
            results: Table::new(),
            vmaf_results: Table::new(),
            trim_data: Table::new(),
        };
        assert(context@.artifacts =~= Map::<Seq<char>, VideoView>::empty());
        assert(context@.comparisons =~= Map::<Seq<char>, ScoreView>::empty());
        context
    }

    /// Stores the artifact that node `node_id` produced, in place of an earlier
    /// one.
    pub fn add_result(&mut self, node_id: String, video_data: VideoData)
        requires
            old(self).wf(),
        ensures
            final(self).wf(),
            final(self)@ == old(self)@.apply(
                ContextOp::PutArtifact { id: node_id@, artifact: video_data@ },
            ),
    {
        let ghost before = self.results@;
        self.results.insert(node_id, video_data);
        assert(self@.artifacts =~= before.map_values(|artifact: VideoData| artifact@).insert(
            node_id@,
            video_data@,
        ));
    }

    /// Stores the score of comparison node `node_id`.
    pub fn add_vmaf_result(&mut self, node_id: String, vmaf_score: VmafScore)
        requires
            old(self).wf(),
        ensures
            final(self).wf(),
            final(self)@ == old(self)@.apply(
                ContextOp::PutComparison { id: node_id@, score: vmaf_score@ },
            ),
    {
        let ghost before = self.vmaf_results@;
        self.vmaf_results.insert(node_id, vmaf_score);
        assert(self@.comparisons =~= before.map_values(|score: VmafScore| score@).insert(
            node_id@,
            vmaf_score@,
        ));
    }

    /// Registers the trim window from `start_time` to `end_time` for the item at
    /// `video_path`, in place of an earlier one.
    pub fn add_trim_data(&mut self, video_path: String, start_time: i64, end_time: i64)
        requires
            old(self).wf(),
        ensures
            final(self).wf(),
            final(self)@ == old(self)@.apply(
                ContextOp::PutRange { location: video_path@, start: start_time, end: end_time },
            ),
    {
        let trim_data = TrimData {
            start_time,
            end_time,
            duration: end_time as i128 - start_time as i128,
        };
        self.trim_data.insert(video_path, trim_data);
    }

    /// The artifact of node `node_id`; `MissingResult` where it has none.
    pub fn get_result(&self, node_id: &str) -> (result: Result<VideoData, PipelineError>)
        requires
            self.wf(),
        ensures
            match result {
                Ok(artifact) => self@.artifacts.contains_key(node_id@) && artifact@
                    == self@.artifacts[node_id@],
                Err(error) => !self@.artifacts.contains_key(node_id@) && error@
                    == Failure::MissingResult(node_id@),
            },
    {
        match self.results.get(node_id) {
            Some(artifact) => Ok(artifact.clone()),
            None => Err(PipelineError::MissingResult(String::from_str(node_id))),
        }
    }

    /// The score of comparison node `node_id`, if it has one.
    pub fn get_vmaf_result(&self, node_id: &str) -> (found: Option<&VmafScore>)
        requires
            self.wf(),
        ensures
            match found {
                Some(score) => self@.comparisons.contains_key(node_id@) && score@
                    == self@.comparisons[node_id@],
                None => !self@.comparisons.contains_key(node_id@),
            },
    {
        self.vmaf_results.get(node_id)
    }

    /// The trim window registered for `video_path`; `NoRangeData` where there
    /// is none, which a caller takes as "do not trim".
    pub fn get_trim_data(&self, video_path: &str) -> (result: Result<TrimData, PipelineError>)
        requires
            self.wf(),
        ensures
            match result {
                Ok(range) => self@.ranges.contains_key(video_path@) && range
                    == self@.ranges[video_path@],
                Err(error) => !self@.ranges.contains_key(video_path@) && error@
                    == Failure::NoRangeData(video_path@),
            },
    {
        match self.trim_data.get(video_path) {
            Some(range) => Ok(*range),
            None => Err(PipelineError::NoRangeData(String::from_str(video_path))),
        }
    }

    /// Whether a trim window is registered for `video_path`.
    pub fn has_trim_data(&self, video_path: &str) -> (present: bool)
        requires
            self.wf(),
        ensures
            present == self@.ranges.contains_key(video_path@),
    {
        self.trim_data.contains_key(video_path)
    }

    /// All artifacts.
    pub fn get_all_results(&self) -> (table: &Table<VideoData>)
        requires
            self.wf(),
        ensures
            table.wf(),
            table@.map_values(|artifact: VideoData| artifact@) == self@.artifacts,
    {
        &self.results
    }

    /// All comparison scores.
    pub fn get_all_vmaf_results(&self) -> (table: &Table<VmafScore>)
        requires
            self.wf(),
        ensures
            table.wf(),
            table@.map_values(|score: VmafScore| score@) == self@.comparisons,
    {
        &self.vmaf_results
    }

    /// How many artifacts, scores and trim windows the context holds.
    pub fn get_stats(&self) -> (stats: ExecutionStats)
        requires
            self.wf(),
        ensures
            stats.total_results == self@.artifacts.dom().len(),
            stats.vmaf_analyses == self@.comparisons.dom().len(),
            stats.trim_operations == self@.ranges.dom().len(),
    {
        proof {
            self.lemma_domains();
        }
        ExecutionStats {
            total_results: self.results.len(),
            vmaf_analyses: self.vmaf_results.len(),
            trim_operations: self.trim_data.len(),
        }
    }

    /// Empties the context.
    pub fn clear(&mut self)
        ensures
            final(self).wf(),
            final(self)@ == ContextState::empty(),
    {
        self.results.clear();
        self.vmaf_results.clear();
        self.trim_data.clear();
        assert(self@.artifacts =~= Map::<Seq<char>, VideoView>::empty());
        assert(self@.comparisons =~= Map::<Seq<char>, ScoreView>::empty());
    }

    /// Turns the context into the report on a run that went through. The run
    /// counts as a success if and only if at least one artifact was produced; the
    /// report carries all artifacts, and the scores where there are any.
    pub fn build_result(self) -> (report: ExecutionResult)
        requires
            self.wf(),
        ensures
            report.wf(),
            report@ == completion_report(self@),
    {
        proof {
            self.lemma_domains();
        }
        let success_count = self.results.len();
        let vmaf_count = self.vmaf_results.len();
        let trim_count = self.trim_data.len();
        let message = if success_count > 0 {
            let mut text = join3(
                "✅ Pipeline completed successfully! Processed ",
                decimal_text(success_count as u64).as_str(),
                " nodes",
            );
            if vmaf_count > 0 {
                let part = join3(", ", decimal_text(vmaf_count as u64).as_str(), " VMAF analyses");
                text = text.concat(part.as_str());
            } else {
                assert(text@ + Seq::<char>::empty() =~= text@);
            }
            if trim_count > 0 {
                let part = join3(", ", decimal_text(trim_count as u64).as_str(), " trim operations");
                text = text.concat(part.as_str());
            } else {
                assert(text@ + Seq::<char>::empty() =~= text@);
            }
            text
        } else {
            String::from_str("❌ No nodes were processed successfully")
        };
        proof {
            self.vmaf_results.lemma_keys();
            if self.vmaf_results@ == Map::<Seq<char>, VmafScore>::empty() {
                assert(self@.comparisons =~= Map::<Seq<char>, ScoreView>::empty());
            }
        }
        let no_scores = self.vmaf_results.is_empty();
        ExecutionResult {
            success: success_count > 0,
            message,
            outputs: self.results,
            vmaf_results: if no_scores {
                None
            } else {
                Some(self.vmaf_results)
            },
        }
    }
}

} // verus!
