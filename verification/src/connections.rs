//! Finding a node's inputs among the connections.

use vstd::prelude::*;
use crate::context::{ContextState, ExecutionContext};
use crate::error::{Failure, PipelineError};
use crate::graph::ConnectionData;
use crate::media::{VideoData, VideoView};
use crate::text::{join3, names, same};

verus! {

/// `connection` leads into input `handle` of node `node_id`.
pub open spec fn feeds(connection: ConnectionData, node_id: Seq<char>, handle: Seq<char>) -> bool {
    connection.to@ == node_id && connection.to_handle@ == handle
}

/// `i` is the first connection that leads into input `handle` of node
/// `node_id`, or the number of connections where none does.
pub open spec fn is_first_feed(
    connections: Seq<ConnectionData>,
    node_id: Seq<char>,
    handle: Seq<char>,
    i: int,
) -> bool {
    &&& 0 <= i <= connections.len()
    &&& i < connections.len() ==> feeds(connections[i], node_id, handle)
    &&& forall|k: int| 0 <= k < i ==> !feeds(#[trigger] connections[k], node_id, handle)
}

/// The first connection that leads into input `handle` of node `node_id`, or
/// the number of connections where none does.
pub open spec fn first_feed(
    connections: Seq<ConnectionData>,
    node_id: Seq<char>,
    handle: Seq<char>,
) -> int {
    choose|i: int| is_first_feed(connections, node_id, handle, i)
}

/// There is one first feed, and `first_feed` names it.
pub proof fn lemma_first_feed(
    connections: Seq<ConnectionData>,
    node_id: Seq<char>,
    handle: Seq<char>,
    i: int,
)
    requires
        is_first_feed(connections, node_id, handle, i),
    ensures
        first_feed(connections, node_id, handle) == i,
{
    let j = first_feed(connections, node_id, handle);
    assert(is_first_feed(connections, node_id, handle, j));
    if j < i {
        assert(!feeds(connections[j], node_id, handle));
    }
    if i < j {
        assert(!feeds(connections[i], node_id, handle));
    }
}

/// The failure for an input that nothing is connected to.
pub open spec fn no_connection(node_id: Seq<char>, handle: Seq<char>) -> Failure {
    Failure::InvalidNodeConfig("No "@ + handle + " connection found for node "@ + node_id)
}

/// The artifact that arrives at input `handle` of node `node_id`: that of the
/// node from which the first connection into that input comes. Without such a
/// connection the configuration is invalid; where that node has produced
/// nothing, its result is missing.
pub open spec fn input_video(
    context: ContextState,
    connections: Seq<ConnectionData>,
    node_id: Seq<char>,
    handle: Seq<char>,
) -> Result<VideoView, Failure> {
    let i = first_feed(connections, node_id, handle);
    if i < connections.len() {
        let source = connections[i].from@;
        if context.artifacts.contains_key(source) {
            Ok(context.artifacts[source])
        } else {
            Err(Failure::MissingResult(source))
        }
    } else {
        Err(no_connection(node_id, handle))
    }
}

/// The view of what a fallible step returned.
pub open spec fn outcome<T: View>(result: Result<T, PipelineError>) -> Result<T::V, Failure> {
    match result {
        Ok(value) => Ok(value@),
        Err(error) => Err(error@),
    }
}

/// The connections that lead into node `node_id`, in their order.
pub open spec fn inputs_of(connections: Seq<ConnectionData>, node_id: Seq<char>) -> Seq<
    ConnectionData,
> {
    connections.filter(|c: ConnectionData| c.to@ == node_id)
}

/// The connections that come from node `node_id`, in their order.
pub open spec fn outputs_of(connections: Seq<ConnectionData>, node_id: Seq<char>) -> Seq<
    ConnectionData,
> {
    connections.filter(|c: ConnectionData| c.from@ == node_id)
}

/// The connections that lead into one of the inputs `handles` of node
/// `node_id`, in their order.
pub open spec fn inputs_among(
    connections: Seq<ConnectionData>,
    node_id: Seq<char>,
    handles: Seq<Seq<char>>,
) -> Seq<ConnectionData> {
    connections.filter(|c: ConnectionData| c.to@ == node_id && handles.contains(c.to_handle@))
}

/// What the references of `list` refer to.
pub open spec fn referents(list: Seq<&ConnectionData>) -> Seq<ConnectionData> {
    Seq::new(list.len(), |i: int| *list[i])
}

/// What one more member adds to a filtered run.
proof fn lemma_filter_step<A>(s: Seq<A>, keep: spec_fn(A) -> bool, i: int)
    requires
        0 <= i < s.len(),
    ensures
        s.take(i + 1).filter(keep) == if keep(s[i]) {
            s.take(i).filter(keep).push(s[i])
        } else {
            s.take(i).filter(keep)
        },
{
    reveal(Seq::filter);
    assert(s.take(i + 1).drop_last() =~= s.take(i));
}

/// Nothing is filtered from nothing, and taking everything is taking the
/// whole.
proof fn lemma_filter_empty<A>(s: Seq<A>, keep: spec_fn(A) -> bool)
    ensures
        s.take(0).filter(keep) == Seq::<A>::empty(),
        s.take(s.len() as int) == s,
{
    reveal(Seq::filter);
    assert(s.take(0) =~= Seq::<A>::empty());
    assert(s.take(s.len() as int) =~= s);
}

/// Questions about the connections of one node.
pub struct ConnectionHelper;

impl ConnectionHelper {
    /// Where the first connection into input `handle` of node `node_id` stands.
    fn find_feed(node_id: &str, connections: &[ConnectionData], handle: &str) -> (i: usize)
        ensures
            first_feed(connections@, node_id@, handle@) == i,
            is_first_feed(connections@, node_id@, handle@, i as int),
    {
        let n = connections.len();
        let mut i: usize = 0;
        while i < n
            invariant
                n == connections@.len(),
                i <= n,
                forall|k: int| 0 <= k < i ==> !feeds(#[trigger] connections@[k], node_id@, handle@),
            decreases n - i,
        {
            if same(connections[i].to.as_str(), node_id) && same(
                connections[i].to_handle.as_str(),
                handle,
            ) {
                proof {
                    lemma_first_feed(connections@, node_id@, handle@, i as int);
                }
                return i;
            }
            i = i + 1;
        }
        proof {
            lemma_first_feed(connections@, node_id@, handle@, i as int);
        }
        i
    }

    /// The artifact that arrives at input `handle` of node `node_id`.
    pub fn get_input_video(
        node_id: &str,
        context: &ExecutionContext,
        connections: &[ConnectionData],
        handle: &str,
    ) -> (result: Result<VideoData, PipelineError>)
        requires
            context.wf(),
        ensures
            outcome(result) == input_video(context@, connections@, node_id@, handle@),
    {
        let i = Self::find_feed(node_id, connections, handle);
        if i < connections.len() {
            context.get_result(connections[i].from.as_str())
        } else {
            let head = join3("No ", handle, " connection found for node ");
            Err(PipelineError::InvalidNodeConfig(head.concat(node_id)))
        }
    }

    /// The connections that lead into node `node_id`, in their order.
    pub fn get_input_connections<'a>(node_id: &str, connections: &'a [ConnectionData]) -> (inputs:
        Vec<&'a ConnectionData>)
        ensures
            referents(inputs@) == inputs_of(connections@, node_id@),
    {
        let ghost keep = |c: ConnectionData| c.to@ == node_id@;
        let n = connections.len();
        let mut inputs: Vec<&'a ConnectionData> = Vec::new();
        let mut i: usize = 0;
        proof {
            lemma_filter_empty(connections@, keep);
            assert(referents(inputs@) =~= Seq::<ConnectionData>::empty());
        }
        while i < n
            invariant
                n == connections@.len(),
                i <= n,
                keep == |c: ConnectionData| c.to@ == node_id@,
                referents(inputs@) == connections@.take(i as int).filter(keep),
            decreases n - i,
        {
            proof {
                lemma_filter_step(connections@, keep, i as int);
            }
            let ghost before = inputs@;
            if same(connections[i].to.as_str(), node_id) {
                inputs.push(&connections[i]);
                assert(referents(inputs@) =~= referents(before).push(connections@[i as int]));
            }
            i = i + 1;
        }
        proof {
            lemma_filter_empty(connections@, keep);
        }
        inputs
    }

    /// The connections that come from node `node_id`, in their order.
    pub fn get_output_connections<'a>(node_id: &str, connections: &'a [ConnectionData]) -> (outputs:
        Vec<&'a ConnectionData>)
        ensures
            referents(outputs@) == outputs_of(connections@, node_id@),
    {
        let ghost keep = |c: ConnectionData| c.from@ == node_id@;
        let n = connections.len();
        let mut outputs: Vec<&'a ConnectionData> = Vec::new();
        let mut i: usize = 0;
        proof {
            lemma_filter_empty(connections@, keep);
            assert(referents(outputs@) =~= Seq::<ConnectionData>::empty());
        }
        while i < n
            invariant
                n == connections@.len(),
                i <= n,
                keep == |c: ConnectionData| c.from@ == node_id@,
                referents(outputs@) == connections@.take(i as int).filter(keep),
            decreases n - i,
        {
            proof {
                lemma_filter_step(connections@, keep, i as int);
            }
            let ghost before = outputs@;
            if same(connections[i].from.as_str(), node_id) {
                outputs.push(&connections[i]);
                assert(referents(outputs@) =~= referents(before).push(connections@[i as int]));
            }
            i = i + 1;
        }
        proof {
            lemma_filter_empty(connections@, keep);
        }
        outputs
    }

    /// Whether a connection leads into input `handle` of node `node_id`.
    pub fn has_input_connection(node_id: &str, connections: &[ConnectionData], handle: &str) -> (found:
        bool)
        ensures
            found == exists|i: int|
                0 <= i < connections@.len() && feeds(#[trigger] connections@[i], node_id@, handle@),
    {
        Self::find_feed(node_id, connections, handle) < connections.len()
    }

    /// Whether any connection leads into node `node_id`.
    pub fn has_inputs(node_id: &str, connections: &[ConnectionData]) -> (found: bool)
        ensures
            found == exists|i: int|
                0 <= i < connections@.len() && (#[trigger] connections@[i]).to@ == node_id@,
    {
        let n = connections.len();
        let mut i: usize = 0;
        while i < n
            invariant
                n == connections@.len(),
                i <= n,
                forall|k: int| 0 <= k < i ==> (#[trigger] connections@[k]).to@ != node_id@,
            decreases n - i,
        {
            if same(connections[i].to.as_str(), node_id) {
                return true;
            }
            i = i + 1;
        }
        false
    }

    /// The connections that lead into node `node_id`, in their order.
    pub fn get_all_inputs<'a>(node_id: &str, connections: &'a [ConnectionData]) -> (inputs: Vec<
        &'a ConnectionData,
    >)
        ensures
            referents(inputs@) == inputs_of(connections@, node_id@),
    {
        Self::get_input_connections(node_id, connections)
    }

    /// Whether `handle` is one of `handles`.
    fn is_among(handle: &str, handles: &[&str]) -> (found: bool)
        ensures
            found == names(handles@).contains(handle@),
    {
        let n = handles.len();
        let mut i: usize = 0;
        while i < n
            invariant
                n == handles@.len(),
                i <= n,
                forall|k: int| 0 <= k < i ==> names(handles@)[k] != handle@,
            decreases n - i,
        {
            if same(handles[i], handle) {
                assert(names(handles@)[i as int] == handle@);
                return true;
            }
            i = i + 1;
        }
        false
    }

    /// The connections that lead into one of the inputs `handles` of node
    /// `node_id`, in their order.
    pub fn find_multiple_connections<'a>(
        node_id: &str,
        connections: &'a [ConnectionData],
        handles: &[&str],
    ) -> (found: Vec<&'a ConnectionData>)
        ensures
            referents(found@) == inputs_among(connections@, node_id@, names(handles@)),
    {
        let ghost keep = |c: ConnectionData|
            c.to@ == node_id@ && names(handles@).contains(c.to_handle@);
        let n = connections.len();
        let mut found: Vec<&'a ConnectionData> = Vec::new();
        let mut i: usize = 0;
        proof {
            lemma_filter_empty(connections@, keep);
            assert(referents(found@) =~= Seq::<ConnectionData>::empty());
        }
        while i < n
            invariant
                n == connections@.len(),
                i <= n,
                keep == |c: ConnectionData|
                    c.to@ == node_id@ && names(handles@).contains(c.to_handle@),
                referents(found@) == connections@.take(i as int).filter(keep),
            decreases n - i,
        {
            proof {
                lemma_filter_step(connections@, keep, i as int);
            }
            let ghost before = found@;
            if same(connections[i].to.as_str(), node_id) && Self::is_among(
                connections[i].to_handle.as_str(),
                handles,
            ) {
                found.push(&connections[i]);
                assert(referents(found@) =~= referents(before).push(connections@[i as int]));
            }
            i = i + 1;
        }
        proof {
            lemma_filter_empty(connections@, keep);
        }
        found
    }

    /// The id of the node from which the first connection into input `handle`
    /// of node `node_id` comes.
    pub fn get_source_node_id(node_id: &str, connections: &[ConnectionData], handle: &str) -> (result:
        Result<String, PipelineError>)
        ensures
            match result {
                Ok(source) => first_feed(connections@, node_id@, handle@) < connections@.len()
                    && source@ == connections@[first_feed(connections@, node_id@, handle@)].from@,
                Err(error) => first_feed(connections@, node_id@, handle@) == connections@.len()
                    && error@ == Failure::InvalidNodeConfig(
                    "No source node found for "@ + node_id@ + ":"@ + handle@,
                ),
            },
    {
        let i = Self::find_feed(node_id, connections, handle);
        if i < connections.len() {
            Ok(connections[i].from.clone())
        } else {
            let head = join3("No source node found for ", node_id, ":");
            Err(PipelineError::InvalidNodeConfig(head.concat(handle)))
        }
    }
}

} // verus!
