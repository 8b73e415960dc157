//! The editing rules of the workflow canvas: what is selected, how nodes and
//! edges are added and removed, which ports a node shows, and what a failed
//! run reports.

use vstd::prelude::*;
use crate::text::{join2, join3, same_text, trim_text, trimmed};
use crate::workflow::{
    branch_label, conditional_output_ports, edge_view, globals_type_id, inferred_primitive,
    infer_workflow_node_primitive, EdgeView, TaskLifecycleStatus, TaskStatusResponse,
    WorkflowConditionalConfiguration, WorkflowDefinitionRecord, WorkflowEdge, WorkflowNode,
    WorkflowNodePort, WorkflowNodePrimitive, WorkflowNodeType, WorkflowNodeTypeCategory,
    TaskRemoteTarget,
};

verus! {

/// The width of a node on the canvas, in canvas pixels.
pub const NODE_WIDTH: u32 = 300;

/// The height of a node on the canvas, in canvas pixels.
pub const NODE_HEIGHT: u32 = 156;

/// What the canvas has selected.
#[derive(Clone, Debug, PartialEq, Eq)]
pub enum CanvasSelection {
    /// Nothing is selected.
    Nothing,
    Node(String),
    /// An edge, by its source node and port and its target node and port.
    Edge(String, String, String, String),
}

/// A session id worth opening: trimmed, and not blank.
pub fn normalized_session_id(session_id: &str) -> (r: Option<&str>)
    ensures
        match r {
            Some(s) => s@ == trimmed(session_id@) && s@.len() > 0,
            None => trimmed(session_id@).len() == 0,
        },
{
    let s = trim_text(session_id);
    if s.is_empty() {
        None
    } else {
        Some(s)
    }
}

/// The primitive of a node known only by its type id and legacy category.
pub fn default_primitive_for_node(node_type: &str, legacy_category: Option<WorkflowNodeTypeCategory>) -> (r:
    WorkflowNodePrimitive)
    ensures
        r == inferred_primitive(node_type@, legacy_category, None),
{
    infer_workflow_node_primitive(node_type, legacy_category, None)
}

/// The first node with id `node_id`.
pub fn workflow_node_by_id<'a>(workflow: &'a WorkflowDefinitionRecord, node_id: &str) -> (r: Option<
    &'a WorkflowNode,
>)
    ensures
        match r {
            Some(n) => exists|i: int|
                0 <= i < workflow.nodes@.len() && workflow.nodes@[i] == *n && n.id@ == node_id@
                    && forall|j: int| 0 <= j < i ==> workflow.nodes@[j].id@ != node_id@,
            None => forall|j: int| 0 <= j < workflow.nodes@.len() ==> workflow.nodes@[j].id@ != node_id@,
        },
{
    let mut i: usize = 0;
    while i < workflow.nodes.len()
        invariant
            i <= workflow.nodes@.len(),
            forall|j: int| 0 <= j < i ==> workflow.nodes@[j].id@ != node_id@,
        decreases workflow.nodes@.len() - i,
    {
        if same_text(workflow.nodes[i].id.as_str(), node_id) {
            return Some(&workflow.nodes[i]);
        }
        i = i + 1;
    }
    None
}

/// Position of the first node type with id `node_type_id`.
pub open spec fn type_position(types: Seq<WorkflowNodeType>, id: Seq<char>) -> Option<int> {
    if exists|i: int| 0 <= i < types.len() && types[i].id@ == id {
        Some(
            choose|i: int|
                0 <= i < types.len() && types[i].id@ == id && forall|j: int|
                    0 <= j < i ==> types[j].id@ != id,
        )
    } else {
        None
    }
}

/// The first node type with id `node_type_id`.
pub fn node_type_by_id<'a>(node_types: &'a Vec<WorkflowNodeType>, node_type_id: &str) -> (r: Option<
    &'a WorkflowNodeType,
>)
    ensures
        match type_position(node_types@, node_type_id@) {
            Some(i) => r == Some(&node_types@[i]),
            None => r is None,
        },
{
    let mut i: usize = 0;
    while i < node_types.len()
        invariant
            i <= node_types@.len(),
            forall|j: int| 0 <= j < i ==> node_types@[j].id@ != node_type_id@,
        decreases node_types@.len() - i,
    {
        if same_text(node_types[i].id.as_str(), node_type_id) {
            proof {
                let w = choose|w: int|
                    0 <= w < node_types@.len() && node_types@[w].id@ == node_type_id@ && forall|j: int|
                        0 <= j < w ==> node_types@[j].id@ != node_type_id@;
                assert(w == i) by {
                    if w < i {
                    } else if w > i {
                        assert(node_types@[i as int].id@ == node_type_id@);
                    }
                }
            }
            return Some(&node_types[i]);
        }
        i = i + 1;
    }
    None
}

pub type PortView = (Seq<char>, Seq<char>);

pub open spec fn ports_view(ports: Seq<WorkflowNodePort>) -> Seq<PortView> {
    ports.map_values(|p: WorkflowNodePort| (p.id@, p.label@))
}

fn copy_ports(ports: &Vec<WorkflowNodePort>) -> (r: Vec<WorkflowNodePort>)
    ensures
        ports_view(r@) == ports_view(ports@),
{
    let mut out: Vec<WorkflowNodePort> = Vec::new();
    for i in 0..ports.len()
        invariant
            ports_view(out@) == ports_view(ports@.take(i as int)),
    {
        let ghost before = out@;
        out.push(WorkflowNodePort { id: ports[i].id.clone(), label: ports[i].label.clone() });
        assert(ports_view(out@) =~= ports_view(before).push((ports@[i as int].id@, ports@[i as int].label@)));
        assert(ports_view(ports@.take(i + 1)) =~= ports_view(ports@.take(i as int)).push(
            (ports@[i as int].id@, ports@[i as int].label@),
        ));
    }
    assert(ports@.take(ports@.len() as int) == ports@);
    out
}

/// The ports of a conditional node's branches.
pub open spec fn branch_ports(c: WorkflowConditionalConfiguration) -> Seq<PortView> {
    Seq::new(
        c.branches@.len(),
        |i: int| (c.branches@[i].output_id@, branch_label(c.branches@[i].kind, i as nat)),
    )
}

/// The ports a node shows on one side. A node of an unknown type has one
/// unnamed port on each side; a conditional node's outputs are its
/// branches (`conditional` is its configuration as read from the node); a
/// globals node has none; any other node has its type's ports.
pub open spec fn effective_ports(
    node_types: Seq<WorkflowNodeType>,
    node: WorkflowNode,
    input_side: bool,
    conditional: WorkflowConditionalConfiguration,
) -> Seq<PortView> {
    match type_position(node_types, node.node_type@) {
        None => seq![(Seq::empty(), Seq::empty())],
        Some(i) => {
            let t = node_types[i];
            let p = inferred_primitive(t.id@, t.category, t.primitive);
            if p == WorkflowNodePrimitive::Conditional && !input_side {
                branch_ports(conditional)
            } else if p == WorkflowNodePrimitive::Globals {
                Seq::empty()
            } else if input_side {
                ports_view(t.inputs@)
            } else {
                ports_view(t.outputs@)
            }
        },
    }
}

/// The ports a node shows on one side (see `effective_ports`).
pub fn effective_ports_for_node(
    node_types: &Vec<WorkflowNodeType>,
    node: &WorkflowNode,
    input_side: bool,
    conditional: &WorkflowConditionalConfiguration,
) -> (r: Vec<WorkflowNodePort>)
    ensures
        ports_view(r@) == effective_ports(node_types@, *node, input_side, *conditional),
{
    let node_type = match node_type_by_id(node_types, node.node_type.as_str()) {
        Some(t) => t,
        None => {
            let r = vec![WorkflowNodePort { id: String::new(), label: String::new() }];
            assert(ports_view(r@) =~= seq![(Seq::<char>::empty(), Seq::<char>::empty())]);
            return r;
        },
    };
    match node_type.primitive_kind() {
        WorkflowNodePrimitive::Conditional if !input_side => {
            let r = conditional_output_ports(conditional);
            assert(ports_view(r@) =~= branch_ports(*conditional));
            r
        },
        WorkflowNodePrimitive::Globals => {
            let r: Vec<WorkflowNodePort> = Vec::new();
            assert(ports_view(r@) =~= Seq::<PortView>::empty());
            r
        },
        _ => if input_side {
            copy_ports(&node_type.inputs)
        } else {
            copy_ports(&node_type.outputs)
        },
    }
}

/// Position of the first failed node of a run.
pub open spec fn first_failed(run: TaskStatusResponse) -> Option<int> {
    if exists|i: int| 0 <= i < run.nodes@.len() && run.nodes@[i].status == TaskLifecycleStatus::Failed {
        Some(
            choose|i: int|
                0 <= i < run.nodes@.len() && run.nodes@[i].status == TaskLifecycleStatus::Failed
                    && forall|j: int|
                    0 <= j < i ==> run.nodes@[j].status != TaskLifecycleStatus::Failed,
        )
    } else {
        None
    }
}

/// What a failed run reports: the runtime's message when it says one; else
/// the first failed node's output; else that the task failed.
pub open spec fn failure_message(run: TaskStatusResponse) -> Option<Seq<char>> {
    if run.task.status != TaskLifecycleStatus::Failed {
        None
    } else if run.failure_message matches Some(m) && trimmed(m@).len() > 0 {
        Some(trimmed(run.failure_message->0@))
    } else if first_failed(run) matches Some(i) && run.nodes@[i].output matches Some(o) && trimmed(
        o@,
    ).len() > 0 {
        let n = run.nodes@[first_failed(run)->0];
        Some(n.label@ + " failed: "@ + trimmed(n.output->0@))
    } else {
        Some(run.task.title@ + " failed"@)
    }
}

/// What a failed run reports: its failure message, else the first failed node's
/// output, else that the run failed; nothing for a run that did not fail.
pub fn run_failure_message(run: &TaskStatusResponse) -> (r: Option<String>)
    ensures
        match r {
            Some(m) => failure_message(*run) == Some(m@),
            None => failure_message(*run) is None,
        },
{
    match run.task.status {
        TaskLifecycleStatus::Failed => {},
        _ => return None,
    }
    match &run.failure_message {
        Some(m) => {
            let t = trim_text(m.as_str());
            if !t.is_empty() {
                return Some(t.to_owned());
            }
        },
        None => {},
    }
    let mut i: usize = 0;
    assert(!(run.failure_message matches Some(m) && trimmed(m@).len() > 0));
    while i < run.nodes.len()
        invariant
            run.task.status == TaskLifecycleStatus::Failed,
            !(run.failure_message matches Some(m) && trimmed(m@).len() > 0),
            i <= run.nodes@.len(),
            forall|j: int| 0 <= j < i ==> run.nodes@[j].status != TaskLifecycleStatus::Failed,
        decreases run.nodes@.len() - i,
    {
        let failed = match run.nodes[i].status {
            TaskLifecycleStatus::Failed => true,
            _ => false,
        };
        if failed {
            proof {
                let w = choose|w: int|
                    0 <= w < run.nodes@.len() && run.nodes@[w].status == TaskLifecycleStatus::Failed
                        && forall|j: int|
                        0 <= j < w ==> run.nodes@[j].status != TaskLifecycleStatus::Failed;
                assert(w == i) by {
                    if w < i {
                    } else if w > i {
                        assert(run.nodes@[i as int].status == TaskLifecycleStatus::Failed);
                    }
                }
            }
            match &run.nodes[i].output {
                Some(o) => {
                    let t = trim_text(o.as_str());
                    if !t.is_empty() {
                        return Some(join3(run.nodes[i].label.as_str(), " failed: ", t));
                    }
                },
                None => {},
            }
            return Some(join2(run.task.title.as_str(), " failed"));
        }
        i = i + 1;
    }
    Some(join2(run.task.title.as_str(), " failed"))
}

/// Whether the task or one of its nodes runs.
pub open spec fn is_moving(x: TaskStatusResponse) -> bool {
    x.task.status == TaskLifecycleStatus::Running || exists|i: int|
        0 <= i < x.nodes@.len() && (#[trigger] x.nodes@[i]).status == TaskLifecycleStatus::Running
}

/// Whether the run shown is moving: the task or one of its nodes runs.
pub fn has_running_nodes(run: Option<&TaskStatusResponse>) -> (r: bool)
    ensures
        match run {
            Some(x) => r == is_moving(*x),
            None => !r,
        },
{
    let x = match run {
        Some(x) => x,
        None => return false,
    };
    let mut i: usize = 0;
    while i < x.nodes.len()
        invariant
            run == Some(x),
            i <= x.nodes@.len(),
            forall|j: int| 0 <= j < i ==> x.nodes@[j].status != TaskLifecycleStatus::Running,
        decreases x.nodes@.len() - i,
    {
        if x.nodes[i].status == TaskLifecycleStatus::Running {
            assert(x.nodes@[i as int].status == TaskLifecycleStatus::Running);
            return true;
        }
        i = i + 1;
    }
    x.task.status == TaskLifecycleStatus::Running
}

/// What one poll of a run's status leads to.
#[derive(Debug, PartialEq, Eq)]
pub struct RunPoll {
    /// The failure to announce: only when the run was not failed already.
    pub failure: Option<String>,
    /// Whether polling ends: the run finished.
    pub stop: bool,
}

/// A poll brought `status` while the canvas showed `previous`: a failure is
/// announced once, when the run turns failed; polling stops once the run
/// has finished.
pub fn poll_run(previous: Option<&TaskStatusResponse>, status: &TaskStatusResponse) -> (r: RunPoll)
    ensures
        r.stop == status.task.status.terminal(),
        (previous matches Some(p) && p.task.status == TaskLifecycleStatus::Failed) ==> r.failure is None,
        !(previous matches Some(p) && p.task.status == TaskLifecycleStatus::Failed)
            ==> crate::codex_usage::opt_view(r.failure) == failure_message(*status),
{
    let already_failed = match previous {
        Some(p) => p.task.status == TaskLifecycleStatus::Failed,
        None => false,
    };
    let failure = if already_failed {
        None
    } else {
        run_failure_message(status)
    };
    RunPoll { failure, stop: status.task.status.is_terminal() }
}

/// Whether the canvas shows the run of task `task_id`.
pub fn canvas_matches_run_task_id(run: Option<&TaskStatusResponse>, task_id: u128) -> (r: bool)
    ensures
        r == (run matches Some(x) && x.task.id == task_id),
{
    match run {
        Some(x) => x.task.id == task_id,
        None => false,
    }
}

/// Whether `e` connects to node `node_id` at either end.
pub open spec fn touches(e: WorkflowEdge, node_id: Seq<char>) -> bool {
    e.from_node_id@ == node_id || e.to_node_id@ == node_id
}

pub open spec fn node_kept(node_id: Seq<char>) -> spec_fn(WorkflowNode) -> bool {
    |n: WorkflowNode| n.id@ != node_id
}

pub open spec fn edge_kept(node_id: Seq<char>) -> spec_fn(WorkflowEdge) -> bool {
    |e: WorkflowEdge| !touches(e, node_id)
}

/// Removes the node `node_id` and every edge at it; the selection is then
/// cleared.
pub fn delete_node(workflow: &mut WorkflowDefinitionRecord, node_id: &str) -> (selection: CanvasSelection)
    ensures
        final(workflow).nodes@ == old(workflow).nodes@.filter(node_kept(node_id@)),
        final(workflow).edges@ == old(workflow).edges@.filter(edge_kept(node_id@)),
        final(workflow).id == old(workflow).id,
        final(workflow).name == old(workflow).name,
        final(workflow).node_policies == old(workflow).node_policies,
        *final(workflow) == (WorkflowDefinitionRecord {
            nodes: final(workflow).nodes,
            edges: final(workflow).edges,
            ..*old(workflow)
        }),
        selection == CanvasSelection::Nothing,
{
    let mut rest: Vec<WorkflowNode> = Vec::new();
    std::mem::swap(&mut rest, &mut workflow.nodes);
    let mut nodes: Vec<WorkflowNode> = Vec::new();
    let ghost all = rest@;
    let mut k: usize = 0;
    let n = rest.len();
    while rest.len() > 0
        invariant
            all.len() == n,
            k + rest@.len() == n,
            rest@ == all.skip(k as int),
            nodes@ == all.take(k as int).filter(node_kept(node_id@)),
        decreases rest@.len(),
    {
        let node = rest.remove(0);
        proof {
            assert(node == all[k as int]);
            assert(all.take(k + 1) == all.take(k as int).push(node));
            all.take(k as int).lemma_filter_push(node, node_kept(node_id@));
            assert(rest@ == all.skip(k + 1));
        }
        if !same_text(node.id.as_str(), node_id) {
            nodes.push(node);
        }
        k = k + 1;
    }
    assert(all.take(n as int) == all);
    workflow.nodes = nodes;
    let mut edges: Vec<WorkflowEdge> = Vec::new();
    for i in 0..workflow.edges.len()
        invariant
            edges@ == workflow.edges@.take(i as int).filter(edge_kept(node_id@)),
    {
        let e = &workflow.edges[i];
        proof {
            assert(workflow.edges@.take(i + 1) == workflow.edges@.take(i as int).push(*e));
            workflow.edges@.take(i as int).lemma_filter_push(*e, edge_kept(node_id@));
        }
        if !same_text(e.from_node_id.as_str(), node_id) && !same_text(e.to_node_id.as_str(), node_id) {
            edges.push(e.duplicate());
        }
    }
    assert(workflow.edges@.take(workflow.edges@.len() as int) == workflow.edges@);
    workflow.edges = edges;
    CanvasSelection::Nothing
}

pub open spec fn edge_is(e: WorkflowEdge, target: EdgeView) -> bool {
    edge_view(e) == target
}

pub open spec fn edge_other(target: EdgeView) -> spec_fn(WorkflowEdge) -> bool {
    |e: WorkflowEdge| edge_view(e) != target
}

/// Removes every edge from `from_node_id`/`from_output_id` to
/// `to_node_id`/`to_input_id`; the selection is then cleared.
pub fn delete_edge(
    workflow: &mut WorkflowDefinitionRecord,
    from_node_id: &str,
    from_output_id: &str,
    to_node_id: &str,
    to_input_id: &str,
) -> (selection: CanvasSelection)
    ensures
        final(workflow).edges@ == old(workflow).edges@.filter(
            edge_other((from_node_id@, from_output_id@, to_node_id@, to_input_id@)),
        ),
        final(workflow).nodes == old(workflow).nodes,
        final(workflow).id == old(workflow).id,
        *final(workflow) == (WorkflowDefinitionRecord { edges: final(workflow).edges, ..*old(workflow) }),
        selection == CanvasSelection::Nothing,
{
    let ghost target = (from_node_id@, from_output_id@, to_node_id@, to_input_id@);
    let mut edges: Vec<WorkflowEdge> = Vec::new();
    for i in 0..workflow.edges.len()
        invariant
            target == (from_node_id@, from_output_id@, to_node_id@, to_input_id@),
            edges@ == workflow.edges@.take(i as int).filter(edge_other(target)),
    {
        let e = &workflow.edges[i];
        proof {
            assert(workflow.edges@.take(i + 1) == workflow.edges@.take(i as int).push(*e));
            workflow.edges@.take(i as int).lemma_filter_push(*e, edge_other(target));
        }
        let same = same_text(e.from_node_id.as_str(), from_node_id) && same_text(
            e.from_output_id.as_str(),
            from_output_id,
        ) && same_text(e.to_node_id.as_str(), to_node_id) && same_text(e.to_input_id.as_str(), to_input_id);
        if !same {
            edges.push(e.duplicate());
        }
    }
    assert(workflow.edges@.take(workflow.edges@.len() as int) == workflow.edges@);
    workflow.edges = edges;
    CanvasSelection::Nothing
}

/// Whether some edge of `edges` is `target`.
pub open spec fn has_edge(edges: Seq<WorkflowEdge>, target: EdgeView) -> bool {
    exists|i: int| 0 <= i < edges.len() && edge_view(edges[i]) == target
}

/// Connects an output port to an input port of another node, unless that
/// edge exists; says whether an edge was added.
pub fn connect_ports(
    workflow: &mut WorkflowDefinitionRecord,
    from_node_id: &str,
    from_output_id: &str,
    to_node_id: &str,
    to_input_id: &str,
) -> (added: bool)
    ensures
        ({
            let target = (from_node_id@, from_output_id@, to_node_id@, to_input_id@);
            &&& added == (from_node_id@ != to_node_id@ && !has_edge(old(workflow).edges@, target))
            &&& added ==> final(workflow).edges@.len() == old(workflow).edges@.len() + 1
                && final(workflow).edges@.take(old(workflow).edges@.len() as int)
                == old(workflow).edges@ && edge_view(final(workflow).edges@.last()) == target
            &&& !added ==> final(workflow).edges == old(workflow).edges
        }),
        final(workflow).nodes == old(workflow).nodes,
        final(workflow).id == old(workflow).id,
        *final(workflow) == (WorkflowDefinitionRecord { edges: final(workflow).edges, ..*old(workflow) }),
{
    if same_text(from_node_id, to_node_id) {
        return false;
    }
    let ghost target = (from_node_id@, from_output_id@, to_node_id@, to_input_id@);
    let mut i: usize = 0;
    while i < workflow.edges.len()
        invariant
            target == (from_node_id@, from_output_id@, to_node_id@, to_input_id@),
            i <= workflow.edges@.len(),
            forall|j: int| 0 <= j < i ==> edge_view(workflow.edges@[j]) != target,
        decreases workflow.edges@.len() - i,
    {
        let e = &workflow.edges[i];
        if same_text(e.from_node_id.as_str(), from_node_id) && same_text(
            e.from_output_id.as_str(),
            from_output_id,
        ) && same_text(e.to_node_id.as_str(), to_node_id) && same_text(e.to_input_id.as_str(), to_input_id) {
            assert(edge_view(workflow.edges@[i as int]) == target);
            return false;
        }
        i = i + 1;
    }
    let ghost before = workflow.edges@;
    workflow.edges.push(
        WorkflowEdge {
            from_node_id: from_node_id.to_owned(),
            from_output_id: from_output_id.to_owned(),
            to_node_id: to_node_id.to_owned(),
            to_input_id: to_input_id.to_owned(),
        },
    );
    assert(workflow.edges@.take(before.len() as int) == before);
    true
}

/// No edge appears twice and none connects a node to itself.
pub open spec fn edges_well_formed(edges: Seq<WorkflowEdge>) -> bool {
    &&& forall|i: int, j: int|
        0 <= i < j < edges.len() ==> edge_view(edges[i]) != edge_view(edges[j])
    &&& forall|i: int| 0 <= i < edges.len() ==> edges[i].from_node_id@ != (#[trigger] edges[i]).to_node_id@
}

/// Law: connecting ports keeps the edges free of duplicates and of
/// self-connections.
pub proof fn lemma_connect_keeps_edges_well_formed(
    before: Seq<WorkflowEdge>,
    after: Seq<WorkflowEdge>,
    target: EdgeView,
    added: bool,
)
    requires
        edges_well_formed(before),
        added == (target.0 != target.2 && !has_edge(before, target)),
        added ==> after.len() == before.len() + 1 && after.take(before.len() as int) == before
            && edge_view(after.last()) == target,
        !added ==> after == before,
    ensures
        edges_well_formed(after),
{
    if added {
        let n = before.len() as int;
        assert forall|i: int| 0 <= i < n implies after[i] == before[i] by {
            assert(after.take(n)[i] == after[i]);
        }
        assert forall|i: int, j: int| 0 <= i < j < after.len() implies edge_view(after[i]) != edge_view(
            after[j],
        ) by {
            if j == n {
                assert(edge_view(before[i]) != target);
            }
        }
    }
}

/// Law: after a node is deleted, no node carries its id and no edge touches
/// it; every other node and edge stays, in order.
pub proof fn lemma_delete_node_removes_incident_edges(
    nodes: Seq<WorkflowNode>,
    edges: Seq<WorkflowEdge>,
    node_id: Seq<char>,
)
    ensures
        forall|i: int|
            0 <= i < nodes.filter(node_kept(node_id)).len() ==> (#[trigger] nodes.filter(
                node_kept(node_id),
            )[i]).id@ != node_id,
        forall|i: int|
            0 <= i < edges.filter(edge_kept(node_id)).len() ==> !touches(
                #[trigger] edges.filter(edge_kept(node_id))[i],
                node_id,
            ),
        forall|e: WorkflowEdge| edges.contains(e) && !touches(e, node_id) ==> edges.filter(
            edge_kept(node_id),
        ).contains(e),
{
    broadcast use vstd::seq_lib::group_filter_ensures;

    assert forall|i: int| 0 <= i < nodes.filter(node_kept(node_id)).len() implies (#[trigger] nodes.filter(
        node_kept(node_id),
    )[i]).id@ != node_id by {
        let f = nodes.filter(node_kept(node_id));
        assert(node_kept(node_id)(f[i]));
    }
    assert forall|i: int| 0 <= i < edges.filter(edge_kept(node_id)).len() implies !touches(
        #[trigger] edges.filter(edge_kept(node_id))[i],
        node_id,
    ) by {
        let f = edges.filter(edge_kept(node_id));
        assert(edge_kept(node_id)(f[i]));
    }
    assert forall|e: WorkflowEdge| edges.contains(e) && !touches(e, node_id) implies edges.filter(
        edge_kept(node_id),
    ).contains(e) by {
        assert(edge_kept(node_id)(e));
    }
}

/// Whether `r` is the id of the first globals node of `nodes`, or `None`
/// where there is none.
pub open spec fn is_globals_id(nodes: Seq<WorkflowNode>, r: Option<Seq<char>>) -> bool {
    match r {
        Some(id) => exists|i: int|
            0 <= i < nodes.len() && nodes[i].node_type@ == globals_type_id() && id == nodes[i].id@ && forall|j: int|
                0 <= j < i ==> nodes[j].node_type@ != globals_type_id(),
        None => forall|j: int| 0 <= j < nodes.len() ==> nodes[j].node_type@ != globals_type_id(),
    }
}

/// The id of the workflow's globals node, if it has one.
pub fn globals_node_id(workflow: &WorkflowDefinitionRecord) -> (r: Option<String>)
    ensures
        is_globals_id(workflow.nodes@, crate::codex_usage::opt_view(r)),
{
    let mut i: usize = 0;
    while i < workflow.nodes.len()
        invariant
            i <= workflow.nodes@.len(),
            forall|j: int| 0 <= j < i ==> workflow.nodes@[j].node_type@ != globals_type_id(),
        decreases workflow.nodes@.len() - i,
    {
        if same_text(workflow.nodes[i].node_type.as_str(), "workflow_globals") {
            return Some(workflow.nodes[i].id.clone());
        }
        i = i + 1;
    }
    None
}

/// What adding a node of a type does.
#[derive(Debug)]
pub enum AddNodePlan {
    /// A workflow has one globals node: the existing one is selected instead.
    SelectExisting(String),
    /// A new node is inserted.
    Insert,
}

/// Whether adding a node of `node_type` selects the existing globals node (a
/// workflow has one at most) or inserts a node.
pub fn plan_add_node(workflow: &WorkflowDefinitionRecord, node_type: &WorkflowNodeType) -> (r: AddNodePlan)
    ensures
        node_type.id@ == globals_type_id() && (exists|j: int|
            0 <= j < workflow.nodes@.len() && workflow.nodes@[j].node_type@ == globals_type_id())
            ==> (r matches AddNodePlan::SelectExisting(id) && exists|i: int|
            0 <= i < workflow.nodes@.len() && workflow.nodes@[i].node_type@ == globals_type_id()
                && id@ == workflow.nodes@[i].id@ && forall|j: int|
                0 <= j < i ==> workflow.nodes@[j].node_type@ != globals_type_id()),
        !(node_type.id@ == globals_type_id() && (exists|j: int|
            0 <= j < workflow.nodes@.len() && workflow.nodes@[j].node_type@ == globals_type_id()))
            ==> r is Insert,
{
    if same_text(node_type.id.as_str(), "workflow_globals") {
        match globals_node_id(workflow) {
            Some(id) => return AddNodePlan::SelectExisting(id),
            None => {},
        }
    }
    AddNodePlan::Insert
}

/// Adds a node of `node_type` under `id` with its default configuration;
/// the new node is then selected.
pub fn insert_node(
    workflow: &mut WorkflowDefinitionRecord,
    id: String,
    node_type: &WorkflowNodeType,
    configuration: crate::json::JsonValue,
) -> (selection: CanvasSelection)
    ensures
        final(workflow).nodes@.len() == old(workflow).nodes@.len() + 1,
        final(workflow).nodes@.take(old(workflow).nodes@.len() as int) == old(workflow).nodes@,
        final(workflow).nodes@.last().id@ == id@,
        final(workflow).nodes@.last().node_type@ == node_type.id@,
        final(workflow).nodes@.last().label@ == node_type.label@,
        final(workflow).nodes@.last().configuration == configuration,
        final(workflow).nodes@.last().runtime matches crate::json::JsonValue::Object(ms) && ms@.len() == 0,
        final(workflow).edges == old(workflow).edges,
        selection matches CanvasSelection::Node(s) && s@ == id@,
{
    let ghost before = workflow.nodes@;
    let selected = id.clone();
    workflow.nodes.push(
        WorkflowNode {
            id,
            node_type: node_type.id.clone(),
            label: node_type.label.clone(),
            configuration,
            runtime: crate::json::JsonValue::Object(Vec::new()),
        },
    );
    assert(workflow.nodes@.take(before.len() as int) == before);
    CanvasSelection::Node(selected)
}

/// The working directories of a run node's conversation: the run's workspace
/// path, trimmed, where one is given and is not blank.
pub fn conversation_work_dirs(workspace_path: Option<&str>) -> (r: Option<Vec<String>>)
    ensures
        match workspace_path {
            None => r is None,
            Some(p) => if trimmed(p@).len() == 0 {
                r is None
            } else {
                r matches Some(dirs) && dirs@.len() == 1 && dirs@[0]@ == trimmed(p@)
            },
        },
{
    let path = match workspace_path {
        Some(p) => trim_text(p),
        None => return None,
    };
    if path.is_empty() {
        return None;
    }
    let mut dirs: Vec<String> = Vec::new();
    dirs.push(path.to_owned());
    Some(dirs)
}

/// How a docker container is reached.
#[derive(Clone, Debug)]
pub struct DockerConnectionOptions {
    pub name: String,
    pub container_id: String,
    pub remote_user: String,
    pub upload_binary_over_docker_exec: bool,
    pub use_podman: bool,
}

/// How a remote workspace is reached.
#[derive(Clone, Debug)]
pub enum RemoteConnectionOptions {
    Docker(DockerConnectionOptions),
}

/// What opening a run node in its remote workspace needs: the connection and
/// the paths to open there.
#[derive(Clone, Debug)]
pub struct RunNodeRemoteAttachment {
    pub connection_options: RemoteConnectionOptions,
    pub paths: Vec<String>,
}

/// Whether `a` reaches the container of `target` and opens `dirs` there.
pub open spec fn is_attachment(target: TaskRemoteTarget, dirs: Seq<String>, a: RunNodeRemoteAttachment) -> bool {
    &&& a.paths@.len() == dirs.len()
    &&& forall|i: int| 0 <= i < a.paths@.len() ==> #[trigger] a.paths@[i]@ == dirs[i]@
    &&& match (a.connection_options, target) {
        (RemoteConnectionOptions::Docker(o), TaskRemoteTarget::Docker(t)) => {
            &&& o.name@ == t.name@
            &&& o.container_id@ == t.container_id@
            &&& o.remote_user@ == t.remote_user@
            &&& !o.upload_binary_over_docker_exec
            &&& o.use_podman == t.use_podman
        },
    }
}

/// The paths `dirs`, copied.
fn copy_paths(dirs: &Vec<String>) -> (r: Vec<String>)
    ensures
        r@.len() == dirs@.len(),
        forall|i: int| 0 <= i < dirs@.len() ==> #[trigger] r@[i]@ == dirs@[i]@,
{
    let mut r: Vec<String> = Vec::new();
    let mut i: usize = 0;
    while i < dirs.len()
        invariant
            i <= dirs@.len(),
            r@.len() == i,
            forall|j: int| 0 <= j < i ==> #[trigger] r@[j]@ == dirs@[j]@,
        decreases dirs@.len() - i,
    {
        r.push(dirs[i].clone());
        i = i + 1;
    }
    r
}

/// The remote attachment of a run node: given where the run executes and
/// the non-empty list of its working directories, the docker connection to
/// that container (never uploading the binary over `docker exec`) and those
/// directories; otherwise none.
pub fn run_node_remote_attachment(
    remote_target: Option<&TaskRemoteTarget>,
    work_dirs: Option<&Vec<String>>,
) -> (r: Option<RunNodeRemoteAttachment>)
    ensures
        r is Some <==> (remote_target is Some && work_dirs is Some && work_dirs->0@.len() > 0),
        r matches Some(a) ==> is_attachment(*remote_target->0, work_dirs->0@, a),
{
    let target = match remote_target {
        Some(t) => t,
        None => return None,
    };
    let dirs = match work_dirs {
        Some(d) => d,
        None => return None,
    };
    if dirs.len() == 0 {
        return None;
    }
    let paths = copy_paths(dirs);
    let connection_options = match target {
        TaskRemoteTarget::Docker(t) => RemoteConnectionOptions::Docker(
            DockerConnectionOptions {
                name: t.name.clone(),
                container_id: t.container_id.clone(),
                remote_user: t.remote_user.clone(),
                upload_binary_over_docker_exec: false,
                use_podman: t.use_podman,
            },
        ),
    };
    Some(RunNodeRemoteAttachment { connection_options, paths })
}

/// The title of a run node's conversation.
pub fn conversation_title(run_title: &str, node_label: &str) -> (r: String)
    ensures
        r@ == run_title@ + " / "@ + node_label@ + " - conversation"@,
{
    let mut r = join3(run_title, " / ", node_label);
    r.append(" - conversation");
    r
}

/// Where a run node's conversation opens.
#[derive(Debug)]
pub enum RunNodeOpening {
    /// The conversation's text is shown instead.
    Markdown,
    /// The session resumes in the workspace already open on the working
    /// directories (or the current one, without directories).
    InWorkspace { session_id: String },
    /// A remote workspace opens on the attachment and resumes the session.
    Remote { session_id: String, attachment: RunNodeRemoteAttachment },
    /// A new local workspace opens on the directories and resumes the session.
    NewWorkspace { session_id: String, work_dirs: Vec<String> },
}

/// Where to open a run node's session: nowhere without a session id (the
/// text is shown); in the workspace found for its directories; else in a
/// remote workspace when the run executed remotely; else in a new workspace
/// on its directories when there is a window for it.
pub fn plan_run_node_opening(
    session_id: &str,
    workspace_found: bool,
    remote_target: Option<&TaskRemoteTarget>,
    work_dirs: Option<&Vec<String>>,
    has_window: bool,
) -> (r: RunNodeOpening)
    ensures
        trimmed(session_id@).len() == 0 ==> r is Markdown,
        trimmed(session_id@).len() > 0 && workspace_found ==> (r matches RunNodeOpening::InWorkspace { session_id: s }
            && s@ == trimmed(session_id@)),
        trimmed(session_id@).len() > 0 && !workspace_found && remote_target is Some && work_dirs is Some
            && work_dirs->0@.len() > 0 ==> (r matches RunNodeOpening::Remote { session_id: s, attachment: a } && s@
            == trimmed(session_id@) && is_attachment(*remote_target->0, work_dirs->0@, a)),
        trimmed(session_id@).len() > 0 && !workspace_found && !(remote_target is Some && work_dirs is Some
            && work_dirs->0@.len() > 0) && has_window && work_dirs is Some ==> (r matches RunNodeOpening::NewWorkspace {
            session_id: s,
            work_dirs: d,
        } && s@ == trimmed(session_id@) && d@.len() == work_dirs->0@.len() && forall|i: int|
            0 <= i < d@.len() ==> #[trigger] d@[i]@ == work_dirs->0@[i]@),
        trimmed(session_id@).len() > 0 && !workspace_found && !(remote_target is Some && work_dirs is Some
            && work_dirs->0@.len() > 0) && !(has_window && work_dirs is Some) ==> r is Markdown,
{
    let session = match normalized_session_id(session_id) {
        Some(s) => s,
        None => return RunNodeOpening::Markdown,
    };
    if workspace_found {
        return RunNodeOpening::InWorkspace { session_id: session.to_owned() };
    }
    match run_node_remote_attachment(remote_target, work_dirs) {
        Some(attachment) => {
            return RunNodeOpening::Remote { session_id: session.to_owned(), attachment };
        },
        None => {},
    }
    match work_dirs {
        Some(dirs) => {
            if has_window {
                return RunNodeOpening::NewWorkspace { session_id: session.to_owned(), work_dirs: copy_paths(dirs) };
            }
        },
        None => {},
    }
    RunNodeOpening::Markdown
}

} // verus!
