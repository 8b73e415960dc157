//! The workflow model the editor and the run views share: node catalog
//! entries, primitives, conditions, policies and task states.

use vstd::prelude::*;
use crate::json::{JsonMember, JsonValue};
use crate::text::{join2, push_decimal, same_text};

verus! {

/// The legacy grouping of node types in older catalogs.
#[derive(Clone, Copy, Debug, PartialEq, Eq, Structural)]
pub enum WorkflowNodeTypeCategory {
    Task,
    Validation,
    Review,
    Integration,
}

impl WorkflowNodeTypeCategory {
    pub open spec fn label(self) -> Seq<char> {
        match self {
            WorkflowNodeTypeCategory::Task => "Task"@,
            WorkflowNodeTypeCategory::Validation => "Validation"@,
            WorkflowNodeTypeCategory::Review => "Review"@,
            WorkflowNodeTypeCategory::Integration => "Integration"@,
        }
    }

    /// The name shown for the category.
    pub fn display_name(&self) -> (r: &'static str)
        ensures
            r@ == self.label(),
    {
        match self {
            WorkflowNodeTypeCategory::Task => "Task",
            WorkflowNodeTypeCategory::Validation => "Validation",
            WorkflowNodeTypeCategory::Review => "Review",
            WorkflowNodeTypeCategory::Integration => "Integration",
        }
    }

    /// Every category, in declaration order.
    pub fn all() -> (r: Vec<WorkflowNodeTypeCategory>)
        ensures
            r@ == seq![
                WorkflowNodeTypeCategory::Task,
                WorkflowNodeTypeCategory::Validation,
                WorkflowNodeTypeCategory::Review,
                WorkflowNodeTypeCategory::Integration,
            ],
    {
        vec![
            WorkflowNodeTypeCategory::Task,
            WorkflowNodeTypeCategory::Validation,
            WorkflowNodeTypeCategory::Review,
            WorkflowNodeTypeCategory::Integration,
        ]
    }
}

/// What a node does when it runs.
#[derive(Clone, Copy, Debug, PartialEq, Eq, Structural)]
pub enum WorkflowNodePrimitive {
    Llm,
    ExecuteShellCommand,
    Conditional,
    Globals,
}

impl WorkflowNodePrimitive {
    pub open spec fn label(self) -> Seq<char> {
        match self {
            WorkflowNodePrimitive::Llm => "LLM"@,
            WorkflowNodePrimitive::ExecuteShellCommand => "Execute Shell Command"@,
            WorkflowNodePrimitive::Conditional => "Conditional"@,
            WorkflowNodePrimitive::Globals => "Globals"@,
        }
    }

    /// The name shown for the primitive.
    pub fn display_name(&self) -> (r: &'static str)
        ensures
            r@ == self.label(),
    {
        match self {
            WorkflowNodePrimitive::Llm => "LLM",
            WorkflowNodePrimitive::ExecuteShellCommand => "Execute Shell Command",
            WorkflowNodePrimitive::Conditional => "Conditional",
            WorkflowNodePrimitive::Globals => "Globals",
        }
    }
}

/// The kind of value a node field takes.
#[derive(Clone, Copy, Debug, PartialEq, Eq, Structural)]
pub enum WorkflowNodeFieldType {
    String,
    Number,
    Boolean,
    Enum,
    Workspace,
    Repo,
    Artifact,
}

impl WorkflowNodeFieldType {
    pub open spec fn label(self) -> Seq<char> {
        match self {
            WorkflowNodeFieldType::String => "Text"@,
            WorkflowNodeFieldType::Number => "Number"@,
            WorkflowNodeFieldType::Boolean => "Boolean"@,
            WorkflowNodeFieldType::Enum => "Enum"@,
            WorkflowNodeFieldType::Workspace => "Workspace"@,
            WorkflowNodeFieldType::Repo => "Repository"@,
            WorkflowNodeFieldType::Artifact => "Artifact"@,
        }
    }

    /// The name shown for the field type.
    pub fn display_name(&self) -> (r: &'static str)
        ensures
            r@ == self.label(),
    {
        match self {
            WorkflowNodeFieldType::String => "Text",
            WorkflowNodeFieldType::Number => "Number",
            WorkflowNodeFieldType::Boolean => "Boolean",
            WorkflowNodeFieldType::Enum => "Enum",
            WorkflowNodeFieldType::Workspace => "Workspace",
            WorkflowNodeFieldType::Repo => "Repository",
            WorkflowNodeFieldType::Artifact => "Artifact",
        }
    }
}

/// One choice of an enum field.
#[derive(Clone, Debug, PartialEq, Eq)]
pub struct WorkflowNodeFieldOption {
    pub value: String,
    pub label: String,
}

/// An input or output port of a node.
#[derive(Clone, Debug)]
pub struct WorkflowNodePort {
    pub id: String,
    pub label: String,
}

/// The type of a value a condition compares.
#[derive(Clone, Copy, Debug, PartialEq, Eq, Structural)]
pub enum WorkflowValueType {
    String,
    Number,
    Boolean,
}

impl WorkflowValueType {
    pub open spec fn label(self) -> Seq<char> {
        match self {
            WorkflowValueType::String => "Text"@,
            WorkflowValueType::Number => "Number"@,
            WorkflowValueType::Boolean => "Boolean"@,
        }
    }

    /// The name shown for the value type.
    pub fn display_name(&self) -> (r: &'static str)
        ensures
            r@ == self.label(),
    {
        match self {
            WorkflowValueType::String => "Text",
            WorkflowValueType::Number => "Number",
            WorkflowValueType::Boolean => "Boolean",
        }
    }
}

/// Where a referenced value comes from.
#[derive(Clone, Copy, Debug, PartialEq, Eq, Structural)]
pub enum WorkflowReferenceSource {
    Input,
    Global,
}

/// A value a condition reads: a node input or a global.
#[derive(Clone, Debug, PartialEq, Eq)]
pub struct WorkflowValueReference {
    pub source: WorkflowReferenceSource,
    pub node_id: Option<String>,
    pub path: String,
    pub label: String,
    pub value_type: WorkflowValueType,
}

/// How a predicate compares its two sides.
#[derive(Clone, Copy, Debug, PartialEq, Eq, Structural)]
pub enum WorkflowComparisonOperator {
    Eq,
    Neq,
    Gt,
    Gte,
    Lt,
    Lte,
    Contains,
    StartsWith,
    EndsWith,
    IsEmpty,
    NotEmpty,
}

impl WorkflowComparisonOperator {
    pub open spec fn label(self) -> Seq<char> {
        match self {
            WorkflowComparisonOperator::Eq => "equals"@,
            WorkflowComparisonOperator::Neq => "is not equal to"@,
            WorkflowComparisonOperator::Gt => "is greater than"@,
            WorkflowComparisonOperator::Gte => "is greater than or equal to"@,
            WorkflowComparisonOperator::Lt => "is less than"@,
            WorkflowComparisonOperator::Lte => "is less than or equal to"@,
            WorkflowComparisonOperator::Contains => "contains"@,
            WorkflowComparisonOperator::StartsWith => "starts with"@,
            WorkflowComparisonOperator::EndsWith => "ends with"@,
            WorkflowComparisonOperator::IsEmpty => "is empty"@,
            WorkflowComparisonOperator::NotEmpty => "is not empty"@,
        }
    }

    /// The phrase shown for the operator.
    pub fn display_name(&self) -> (r: &'static str)
        ensures
            r@ == self.label(),
    {
        match self {
            WorkflowComparisonOperator::Eq => "equals",
            WorkflowComparisonOperator::Neq => "is not equal to",
            WorkflowComparisonOperator::Gt => "is greater than",
            WorkflowComparisonOperator::Gte => "is greater than or equal to",
            WorkflowComparisonOperator::Lt => "is less than",
            WorkflowComparisonOperator::Lte => "is less than or equal to",
            WorkflowComparisonOperator::Contains => "contains",
            WorkflowComparisonOperator::StartsWith => "starts with",
            WorkflowComparisonOperator::EndsWith => "ends with",
            WorkflowComparisonOperator::IsEmpty => "is empty",
            WorkflowComparisonOperator::NotEmpty => "is not empty",
        }
    }

    /// Whether the operator compares against a right-hand value: all but the
    /// two emptiness tests do.
    pub fn requires_rhs(&self) -> (r: bool)
        ensures
            r == !(*self == WorkflowComparisonOperator::IsEmpty || *self
                == WorkflowComparisonOperator::NotEmpty),
    {
        match self {
            WorkflowComparisonOperator::IsEmpty | WorkflowComparisonOperator::NotEmpty => false,
            _ => true,
        }
    }

    pub open spec fn supported(value_type: WorkflowValueType) -> Seq<WorkflowComparisonOperator> {
        match value_type {
            WorkflowValueType::String => seq![
                WorkflowComparisonOperator::Eq,
                WorkflowComparisonOperator::Neq,
                WorkflowComparisonOperator::Contains,
                WorkflowComparisonOperator::StartsWith,
                WorkflowComparisonOperator::EndsWith,
                WorkflowComparisonOperator::IsEmpty,
                WorkflowComparisonOperator::NotEmpty,
            ],
            WorkflowValueType::Number => seq![
                WorkflowComparisonOperator::Eq,
                WorkflowComparisonOperator::Neq,
                WorkflowComparisonOperator::Gt,
                WorkflowComparisonOperator::Gte,
                WorkflowComparisonOperator::Lt,
                WorkflowComparisonOperator::Lte,
            ],
            WorkflowValueType::Boolean => seq![
                WorkflowComparisonOperator::Eq,
                WorkflowComparisonOperator::Neq,
            ],
        }
    }

    /// The operators offered for a value type, in menu order.
    pub fn supported_for(value_type: WorkflowValueType) -> (r: Vec<WorkflowComparisonOperator>)
        ensures
            r@ == Self::supported(value_type),
    {
        match value_type {
            WorkflowValueType::String => vec![
                WorkflowComparisonOperator::Eq,
                WorkflowComparisonOperator::Neq,
                WorkflowComparisonOperator::Contains,
                WorkflowComparisonOperator::StartsWith,
                WorkflowComparisonOperator::EndsWith,
                WorkflowComparisonOperator::IsEmpty,
                WorkflowComparisonOperator::NotEmpty,
            ],
            WorkflowValueType::Number => vec![
                WorkflowComparisonOperator::Eq,
                WorkflowComparisonOperator::Neq,
                WorkflowComparisonOperator::Gt,
                WorkflowComparisonOperator::Gte,
                WorkflowComparisonOperator::Lt,
                WorkflowComparisonOperator::Lte,
            ],
            WorkflowValueType::Boolean => vec![
                WorkflowComparisonOperator::Eq,
                WorkflowComparisonOperator::Neq,
            ],
        }
    }
}

/// Whether a condition group needs all or any of its children.
#[derive(Clone, Copy, Debug, PartialEq, Eq, Structural)]
pub enum WorkflowConditionGroupMode {
    All,
    Any,
}

impl WorkflowConditionGroupMode {
    pub open spec fn label(self) -> Seq<char> {
        match self {
            WorkflowConditionGroupMode::All => "All of"@,
            WorkflowConditionGroupMode::Any => "Any of"@,
        }
    }

    /// The phrase shown for the mode.
    pub fn display_name(&self) -> (r: &'static str)
        ensures
            r@ == self.label(),
    {
        match self {
            WorkflowConditionGroupMode::All => "All of",
            WorkflowConditionGroupMode::Any => "Any of",
        }
    }
}

/// A conditional branch: guarded by a condition, or the fallback.
#[derive(Clone, Copy, Debug, PartialEq, Eq, Structural)]
pub enum WorkflowConditionalBranchKind {
    When,
    Else,
}

/// Where a task stands.
#[derive(Clone, Copy, Debug, PartialEq, Eq, Structural)]
pub enum TaskLifecycleStatus {
    Queued,
    Running,
    Completed,
    Failed,
}

impl TaskLifecycleStatus {
    pub open spec fn terminal(self) -> bool {
        self == TaskLifecycleStatus::Completed || self == TaskLifecycleStatus::Failed
    }

    pub open spec fn label(self) -> Seq<char> {
        match self {
            TaskLifecycleStatus::Queued => "Queued"@,
            TaskLifecycleStatus::Running => "Running"@,
            TaskLifecycleStatus::Completed => "Completed"@,
            TaskLifecycleStatus::Failed => "Failed"@,
        }
    }

    /// Whether the task has finished, successfully or not.
    pub fn is_terminal(&self) -> (r: bool)
        ensures
            r == self.terminal(),
    {
        match self {
            TaskLifecycleStatus::Completed | TaskLifecycleStatus::Failed => true,
            _ => false,
        }
    }

    /// The name shown for the status.
    pub fn display_name(&self) -> (r: &'static str)
        ensures
            r@ == self.label(),
    {
        match self {
            TaskLifecycleStatus::Queued => "Queued",
            TaskLifecycleStatus::Running => "Running",
            TaskLifecycleStatus::Completed => "Completed",
            TaskLifecycleStatus::Failed => "Failed",
        }
    }
}

/// How often and how patiently a node is retried.
#[derive(Clone, Copy, Debug, PartialEq, Eq, Structural)]
pub struct RetryBehavior {
    pub max_attempts: u32,
    pub backoff_ms: u64,
}

impl Default for RetryBehavior {
    /// Three attempts, one second apart.
    fn default() -> (r: Self)
        ensures
            r.max_attempts == 3,
            r.backoff_ms == 1000,
    {
        RetryBehavior { max_attempts: 3, backoff_ms: 1000 }
    }
}

/// The id of the node type that holds a workflow's globals.
pub open spec fn globals_type_id() -> Seq<char> {
    "workflow_globals"@
}

/// A field a node type asks for.
#[derive(Debug)]
pub struct WorkflowNodeField {
    pub key: String,
    pub label: String,
    pub field_type: WorkflowNodeFieldType,
    pub required: bool,
    pub default_value: Option<JsonValue>,
    pub options: Vec<WorkflowNodeFieldOption>,
}

/// An entry of the node catalog.
#[derive(Debug)]
pub struct WorkflowNodeType {
    pub id: String,
    pub label: String,
    pub primitive: Option<WorkflowNodePrimitive>,
    pub category: Option<WorkflowNodeTypeCategory>,
    pub is_primitive: bool,
    pub inputs: Vec<WorkflowNodePort>,
    pub outputs: Vec<WorkflowNodePort>,
    pub configure_time_fields: Vec<WorkflowNodeField>,
    pub runtime_fields: Vec<WorkflowNodeField>,
}

/// The primitive a node runs: the explicit one; else the one its legacy
/// category maps to; else the one its type id names (LLM by default).
pub open spec fn inferred_primitive(
    node_type_id: Seq<char>,
    legacy_category: Option<WorkflowNodeTypeCategory>,
    explicit_primitive: Option<WorkflowNodePrimitive>,
) -> WorkflowNodePrimitive {
    match explicit_primitive {
        Some(p) => p,
        None => match legacy_category {
            Some(WorkflowNodeTypeCategory::Task) | Some(WorkflowNodeTypeCategory::Review) => WorkflowNodePrimitive::Llm,
            Some(WorkflowNodeTypeCategory::Validation) => WorkflowNodePrimitive::Conditional,
            Some(WorkflowNodeTypeCategory::Integration) => WorkflowNodePrimitive::ExecuteShellCommand,
            None => if node_type_id == "execute_shell_command"@ || node_type_id == "integration"@ {
                WorkflowNodePrimitive::ExecuteShellCommand
            } else if node_type_id == "conditional"@ || node_type_id == "validation"@ {
                WorkflowNodePrimitive::Conditional
            } else if node_type_id == globals_type_id() {
                WorkflowNodePrimitive::Globals
            } else {
                WorkflowNodePrimitive::Llm
            },
        },
    }
}

/// The primitive of a node type: the declared one, else the one its id or
/// legacy category implies.
pub fn infer_workflow_node_primitive(
    node_type_id: &str,
    legacy_category: Option<WorkflowNodeTypeCategory>,
    explicit_primitive: Option<WorkflowNodePrimitive>,
) -> (r: WorkflowNodePrimitive)
    ensures
        r == inferred_primitive(node_type_id@, legacy_category, explicit_primitive),
{
    if let Some(p) = explicit_primitive {
        return p;
    }
    if let Some(c) = legacy_category {
        return match c {
            WorkflowNodeTypeCategory::Task | WorkflowNodeTypeCategory::Review => WorkflowNodePrimitive::Llm,
            WorkflowNodeTypeCategory::Validation => WorkflowNodePrimitive::Conditional,
            WorkflowNodeTypeCategory::Integration => WorkflowNodePrimitive::ExecuteShellCommand,
        };
    }
    if same_text(node_type_id, "execute_shell_command") || same_text(node_type_id, "integration") {
        WorkflowNodePrimitive::ExecuteShellCommand
    } else if same_text(node_type_id, "conditional") || same_text(node_type_id, "validation") {
        WorkflowNodePrimitive::Conditional
    } else if same_text(node_type_id, "workflow_globals") {
        WorkflowNodePrimitive::Globals
    } else {
        WorkflowNodePrimitive::Llm
    }
}

impl WorkflowNodeType {
    /// The primitive the type behaves as.
    pub fn primitive_kind(&self) -> (r: WorkflowNodePrimitive)
        ensures
            r == inferred_primitive(self.id@, self.category, self.primitive),
    {
        infer_workflow_node_primitive(self.id.as_str(), self.category, self.primitive)
    }
}

/// Whether `t` is the catalog entry of the globals node: id
/// `workflow_globals`, label `Globals`, the globals primitive, no legacy
/// category, and no ports or fields.
pub open spec fn is_globals_node_type(t: WorkflowNodeType) -> bool {
    &&& t.id@ == globals_type_id()
    &&& t.label@ == "Globals"@
    &&& t.primitive == Some(WorkflowNodePrimitive::Globals)
    &&& t.category is None
    &&& t.is_primitive
    &&& t.inputs@.len() == 0
    &&& t.outputs@.len() == 0
    &&& t.configure_time_fields@.len() == 0
    &&& t.runtime_fields@.len() == 0
}

/// The catalog entry of the globals node: a primitive without ports or fields.
pub fn workflow_globals_node_type() -> (r: WorkflowNodeType)
    ensures
        is_globals_node_type(r),
{
    WorkflowNodeType {
        id: "workflow_globals".to_owned(),
        label: "Globals".to_owned(),
        primitive: Some(WorkflowNodePrimitive::Globals),
        category: None,
        is_primitive: true,
        inputs: Vec::new(),
        outputs: Vec::new(),
        configure_time_fields: Vec::new(),
        runtime_fields: Vec::new(),
    }
}

pub open spec fn has_globals_type(types: Seq<WorkflowNodeType>) -> bool {
    exists|i: int| 0 <= i < types.len() && types[i].id@ == globals_type_id()
}

/// Whether `r` is the catalog the editor offers for `given`: `given` itself
/// when it has a globals type, else `given` followed by the globals node's
/// entry.
pub open spec fn is_editor_catalog(given: Seq<WorkflowNodeType>, r: Seq<WorkflowNodeType>) -> bool {
    if has_globals_type(given) {
        r == given
    } else {
        r.len() == given.len() + 1 && r == given.push(r.last()) && is_globals_node_type(r.last())
    }
}

/// The catalog the editor offers: the given one, with the globals node added
/// at the end when it is missing.
pub fn editor_node_types(node_types: Vec<WorkflowNodeType>) -> (r: Vec<WorkflowNodeType>)
    ensures
        is_editor_catalog(node_types@, r@),
        has_globals_type(r@),
{
    let mut types = node_types;
    let mut i: usize = 0;
    while i < types.len()
        invariant
            types@ == node_types@,
            i <= types@.len(),
            forall|j: int| 0 <= j < i ==> types@[j].id@ != globals_type_id(),
        decreases types@.len() - i,
    {
        if same_text(types[i].id.as_str(), "workflow_globals") {
            assert(has_globals_type(node_types@)) by {
                assert(node_types@[i as int].id@ == globals_type_id());
            }
            return types;
        }
        i = i + 1;
    }
    let ghost before = types@;
    types.push(workflow_globals_node_type());
    assert(types@ == before.push(types@.last()));
    assert(types@[before.len() as int].id@ == globals_type_id());
    types
}

/// Law: the editor's catalog always has a globals type, and making the
/// editor's catalog of it again changes nothing.
pub proof fn lemma_editor_catalog_is_idempotent(
    given: Seq<WorkflowNodeType>,
    r: Seq<WorkflowNodeType>,
    again: Seq<WorkflowNodeType>,
)
    requires
        is_editor_catalog(given, r),
        is_editor_catalog(r, again),
    ensures
        has_globals_type(r),
        again == r,
{
    if !has_globals_type(given) {
        assert(r[r.len() - 1].id@ == globals_type_id());
    }
}

/// A node of a workflow.
#[derive(Debug)]
pub struct WorkflowNode {
    pub id: String,
    pub node_type: String,
    pub label: String,
    pub configuration: JsonValue,
    pub runtime: JsonValue,
}

/// A connection from an output port to an input port.
#[derive(Clone, Debug)]
pub struct WorkflowEdge {
    pub from_node_id: String,
    pub from_output_id: String,
    pub to_node_id: String,
    pub to_input_id: String,
}

/// An edge as its four ids.
pub type EdgeView = (Seq<char>, Seq<char>, Seq<char>, Seq<char>);

pub open spec fn edge_view(e: WorkflowEdge) -> EdgeView {
    (e.from_node_id@, e.from_output_id@, e.to_node_id@, e.to_input_id@)
}

impl WorkflowEdge {
    /// A field-by-field copy.
    pub fn duplicate(&self) -> (r: Self)
        ensures
            r == *self,
    {
        WorkflowEdge {
            from_node_id: self.from_node_id.clone(),
            from_output_id: self.from_output_id.clone(),
            to_node_id: self.to_node_id.clone(),
            to_input_id: self.to_input_id.clone(),
        }
    }
}

/// The review, check and retry rules of one node.
#[derive(Clone, Debug)]
pub struct NodePolicy {
    pub node_id: String,
    pub required_reviews: u16,
    pub required_checks: Vec<String>,
    pub retry_behavior: RetryBehavior,
    pub validation_policy_ref: Option<String>,
}

/// A workflow as the runtime accepts it.
#[derive(Debug)]
pub struct WorkflowDefinitionRequest {
    pub name: String,
    pub nodes: Vec<WorkflowNode>,
    pub edges: Vec<WorkflowEdge>,
    pub node_policies: Vec<NodePolicy>,
    pub retry_behavior: RetryBehavior,
    pub validation_policy_ref: Option<String>,
    /// Trigger metadata, in key order, each key once.
    pub trigger_metadata: Vec<(String, String)>,
}

/// A stored workflow; its id is the UUID's 128-bit value.
#[derive(Debug)]
pub struct WorkflowDefinitionRecord {
    pub id: u128,
    pub name: String,
    pub nodes: Vec<WorkflowNode>,
    pub edges: Vec<WorkflowEdge>,
    pub node_policies: Vec<NodePolicy>,
    pub retry_behavior: RetryBehavior,
    pub validation_policy_ref: Option<String>,
    pub trigger_metadata: Vec<(String, String)>,
}

impl WorkflowDefinitionRecord {
    /// The request that stores this workflow again: everything but the id.
    pub fn to_request(self) -> (r: WorkflowDefinitionRequest)
        ensures
            r.name == self.name,
            r.nodes == self.nodes,
            r.edges == self.edges,
            r.node_policies == self.node_policies,
            r.retry_behavior == self.retry_behavior,
            r.validation_policy_ref == self.validation_policy_ref,
            r.trigger_metadata == self.trigger_metadata,
    {
        WorkflowDefinitionRequest {
            name: self.name,
            nodes: self.nodes,
            edges: self.edges,
            node_policies: self.node_policies,
            retry_behavior: self.retry_behavior,
            validation_policy_ref: self.validation_policy_ref,
            trigger_metadata: self.trigger_metadata,
        }
    }

    /// The first policy written for `node_id`.
    pub fn policy_for(&self, node_id: &str) -> (r: Option<&NodePolicy>)
        ensures
            match r {
                Some(p) => exists|i: int|
                    0 <= i < self.node_policies@.len() && self.node_policies@[i] == *p && p.node_id@
                        == node_id@ && forall|j: int|
                        0 <= j < i ==> self.node_policies@[j].node_id@ != node_id@,
                None => forall|j: int|
                    0 <= j < self.node_policies@.len() ==> self.node_policies@[j].node_id@ != node_id@,
            },
    {
        let mut i: usize = 0;
        while i < self.node_policies.len()
            invariant
                i <= self.node_policies@.len(),
                forall|j: int| 0 <= j < i ==> self.node_policies@[j].node_id@ != node_id@,
            decreases self.node_policies@.len() - i,
        {
            if same_text(self.node_policies[i].node_id.as_str(), node_id) {
                return Some(&self.node_policies[i]);
            }
            i = i + 1;
        }
        None
    }
}

/// What starting a run asks for.
#[derive(Clone, Debug)]
pub struct WorkflowRunRequest {
    pub title: String,
    pub source_repo: String,
    pub task_description: Option<String>,
}

/// A task the runtime knows; ids are UUIDs' 128-bit values.
#[derive(Clone, Debug)]
pub struct TaskRecord {
    pub id: u128,
    pub title: String,
    pub source_repo: String,
    pub status: TaskLifecycleStatus,
    pub workflow_id: Option<u128>,
    pub task_description: Option<String>,
}

impl TaskRecord {
    /// A field-by-field copy.
    pub fn duplicate(&self) -> (r: Self)
        ensures
            r == *self,
            r.id == self.id,
            r.title@ == self.title@,
            r.source_repo@ == self.source_repo@,
            r.status == self.status,
            r.workflow_id == self.workflow_id,
            crate::codex_usage::opt_view(r.task_description) == crate::codex_usage::opt_view(
                self.task_description,
            ),
    {
        TaskRecord {
            id: self.id,
            title: self.title.clone(),
            source_repo: self.source_repo.clone(),
            status: self.status,
            workflow_id: self.workflow_id,
            task_description: crate::codex_usage::copy_opt(&self.task_description),
        }
    }
}

/// Where a node of a run stands.
#[derive(Debug)]
pub struct TaskNodeStatus {
    pub id: String,
    pub node_type: String,
    pub primitive: Option<WorkflowNodePrimitive>,
    pub category: Option<WorkflowNodeTypeCategory>,
    pub label: String,
    pub status: TaskLifecycleStatus,
    pub output: Option<String>,
    pub session_id: Option<String>,
    pub artifacts: Vec<JsonMember>,
}

impl TaskNodeStatus {
    /// The primitive the node behaves as.
    pub fn primitive_kind(&self) -> (r: WorkflowNodePrimitive)
        ensures
            r == inferred_primitive(self.node_type@, self.category, self.primitive),
    {
        infer_workflow_node_primitive(self.node_type.as_str(), self.category, self.primitive)
    }
}

/// A docker container a run executes in.
#[derive(Clone, Debug, PartialEq, Eq)]
pub struct TaskDockerRemoteTarget {
    pub name: String,
    pub container_id: String,
    pub remote_user: String,
    pub use_podman: bool,
}

/// Where a run executes remotely.
#[derive(Clone, Debug, PartialEq, Eq)]
pub enum TaskRemoteTarget {
    Docker(TaskDockerRemoteTarget),
}

/// A run as the runtime reports it.
#[derive(Debug)]
pub struct TaskStatusResponse {
    pub task: TaskRecord,
    pub workflow: Option<WorkflowDefinitionRecord>,
    pub workspace_path: Option<String>,
    pub remote_target: Option<TaskRemoteTarget>,
    pub nodes: Vec<TaskNodeStatus>,
    pub outcome: Option<JsonValue>,
    pub agent: Option<JsonValue>,
    pub lease: Option<JsonValue>,
    pub validation: Option<JsonValue>,
    pub integration: Option<JsonValue>,
    pub failure_message: Option<String>,
    pub agents: Option<Vec<JsonValue>>,
}

/// A run's conversation for one node.
#[derive(Debug)]
pub struct TaskNodeConversationResponse {
    pub task_id: u128,
    pub node_id: String,
    pub session_id: String,
    pub workspace_path: Option<String>,
    pub remote_target: Option<TaskRemoteTarget>,
    pub markdown: String,
}

/// A predicate of a condition: a value, an operator and what it compares to.
#[derive(Debug)]
pub struct WorkflowConditionPredicate {
    pub lhs: Option<WorkflowValueReference>,
    pub operator: Option<WorkflowComparisonOperator>,
    pub rhs: Option<JsonValue>,
}

/// A group of conditions combined by its mode.
#[derive(Debug)]
pub struct WorkflowConditionGroup {
    pub mode: WorkflowConditionGroupMode,
    pub children: Vec<WorkflowConditionNode>,
}

/// A condition: a predicate or a nested group.
#[derive(Debug)]
pub enum WorkflowConditionNode {
    Predicate(WorkflowConditionPredicate),
    Group(WorkflowConditionGroup),
}

/// One branch of a conditional node.
#[derive(Debug)]
pub struct WorkflowConditionalBranch {
    pub output_id: String,
    pub kind: WorkflowConditionalBranchKind,
    pub condition: Option<WorkflowConditionGroup>,
}

/// The branches of a conditional node, in order.
#[derive(Debug)]
pub struct WorkflowConditionalConfiguration {
    pub branches: Vec<WorkflowConditionalBranch>,
}

/// A global variable of a workflow.
#[derive(Debug)]
pub struct WorkflowGlobalVariable {
    pub key: String,
    pub value_type: WorkflowValueType,
    pub default_value: JsonValue,
    pub allow_runtime_override: bool,
    pub allow_task_mutation: bool,
}

/// The globals of a workflow.
#[derive(Debug)]
pub struct WorkflowGlobalsConfiguration {
    pub variables: Vec<WorkflowGlobalVariable>,
}

impl WorkflowConditionPredicate {
    /// An empty predicate.
    pub fn empty() -> (r: Self)
        ensures
            r.lhs is None && r.operator is None && r.rhs is None,
    {
        WorkflowConditionPredicate { lhs: None, operator: None, rhs: None }
    }
}

impl Default for WorkflowConditionGroup {
    /// All of one empty predicate.
    fn default() -> (r: Self)
        ensures
            r.mode == WorkflowConditionGroupMode::All,
            r.children@.len() == 1,
            r.children@[0] matches WorkflowConditionNode::Predicate(p) && p.lhs is None
                && p.operator is None && p.rhs is None,
    {
        WorkflowConditionGroup {
            mode: WorkflowConditionGroupMode::All,
            children: vec![WorkflowConditionNode::Predicate(WorkflowConditionPredicate::empty())],
        }
    }
}

impl Default for WorkflowConditionalConfiguration {
    /// An `if_1` branch with the default condition, and an `else` branch.
    fn default() -> (r: Self)
        ensures
            r.branches@.len() == 2,
            r.branches@[0].output_id@ == "if_1"@,
            r.branches@[0].kind == WorkflowConditionalBranchKind::When,
            r.branches@[0].condition matches Some(g) && g.mode == WorkflowConditionGroupMode::All
                && g.children@.len() == 1,
            r.branches@[1].output_id@ == "else"@,
            r.branches@[1].kind == WorkflowConditionalBranchKind::Else,
            r.branches@[1].condition is None,
    {
        WorkflowConditionalConfiguration {
            branches: vec![
                WorkflowConditionalBranch {
                    output_id: "if_1".to_owned(),
                    kind: WorkflowConditionalBranchKind::When,
                    condition: Some(WorkflowConditionGroup::default()),
                },
                WorkflowConditionalBranch {
                    output_id: "else".to_owned(),
                    kind: WorkflowConditionalBranchKind::Else,
                    condition: None,
                },
            ],
        }
    }
}

impl Default for WorkflowGlobalsConfiguration {
    /// No variables.
    fn default() -> (r: Self)
        ensures
            r.variables@.len() == 0,
    {
        WorkflowGlobalsConfiguration { variables: Vec::new() }
    }
}

/// The label of the branch at `index`: `If` for a first guarded branch,
/// `Else If <index>` for a later one, `Else` for the fallback.
pub open spec fn branch_label(kind: WorkflowConditionalBranchKind, index: nat) -> Seq<char> {
    match kind {
        WorkflowConditionalBranchKind::When => if index == 0 {
            "If"@
        } else {
            "Else If "@ + crate::text::decimal(index)
        },
        WorkflowConditionalBranchKind::Else => "Else"@,
    }
}

/// The output ports of a conditional node: one per branch, in order.
pub fn conditional_output_ports(configuration: &WorkflowConditionalConfiguration) -> (r: Vec<
    WorkflowNodePort,
>)
    ensures
        r@.len() == configuration.branches@.len(),
        forall|i: int|
            0 <= i < r@.len() ==> (#[trigger] r@[i]).id@ == configuration.branches@[i].output_id@
                && r@[i].label@ == branch_label(configuration.branches@[i].kind, i as nat),
{
    let mut ports: Vec<WorkflowNodePort> = Vec::new();
    for index in 0..configuration.branches.len()
        invariant
            ports@.len() == index,
            forall|i: int|
                0 <= i < index ==> (#[trigger] ports@[i]).id@ == configuration.branches@[i].output_id@
                    && ports@[i].label@ == branch_label(configuration.branches@[i].kind, i as nat),
    {
        let branch = &configuration.branches[index];
        let label = match branch.kind {
            WorkflowConditionalBranchKind::When => if index == 0 {
                "If".to_owned()
            } else {
                let mut l = "Else If ".to_owned();
                push_decimal(&mut l, index as u64);
                l
            },
            WorkflowConditionalBranchKind::Else => "Else".to_owned(),
        };
        ports.push(WorkflowNodePort { id: branch.output_id.clone(), label });
    }
    ports
}


/// `v` is an object whose only member has the key `key`.
pub open spec fn is_object_of(v: JsonValue, key: Seq<char>) -> bool {
    v matches JsonValue::Object(ms) && ms.len() == 1 && ms[0].key@ == key
}

/// The serialised default condition group: `{"children": [{"kind":
/// "predicate"}], "mode": "all"}`.
pub open spec fn is_default_condition_group(v: JsonValue) -> bool {
    &&& v matches JsonValue::Object(ms)
    &&& ms.len() == 2
    &&& ms[0].key@ == "children"@
    &&& ms[0].value matches JsonValue::Array(cs)
    &&& cs.len() == 1
    &&& is_object_of(cs[0], "kind"@)
    &&& cs[0] matches JsonValue::Object(ps) && crate::json::is_text(ps[0].value, "predicate"@)
    &&& ms[1].key@ == "mode"@
    &&& crate::json::is_text(ms[1].value, "all"@)
}

/// The serialised first branch of the default conditional configuration:
/// `{"condition": <default group>, "kind": "when", "output_id": "if_1"}`.
pub open spec fn is_default_when_branch(v: JsonValue) -> bool {
    &&& v matches JsonValue::Object(ms)
    &&& ms.len() == 3
    &&& ms[0].key@ == "condition"@
    &&& is_default_condition_group(ms[0].value)
    &&& ms[1].key@ == "kind"@
    &&& crate::json::is_text(ms[1].value, "when"@)
    &&& ms[2].key@ == "output_id"@
    &&& crate::json::is_text(ms[2].value, "if_1"@)
}

/// The serialised else branch: `{"kind": "else", "output_id": "else"}`.
pub open spec fn is_default_else_branch(v: JsonValue) -> bool {
    &&& v matches JsonValue::Object(ms)
    &&& ms.len() == 2
    &&& ms[0].key@ == "kind"@
    &&& crate::json::is_text(ms[0].value, "else"@)
    &&& ms[1].key@ == "output_id"@
    &&& crate::json::is_text(ms[1].value, "else"@)
}

/// The configuration a new node of primitive `p` starts with, as JSON with
/// its keys in order: a conditional has a `when` branch `if_1` with one empty
/// predicate and an `else` branch; a globals node has no variables; any
/// other node an empty object.
pub open spec fn is_default_configuration(v: JsonValue, p: WorkflowNodePrimitive) -> bool {
    match p {
        WorkflowNodePrimitive::Conditional => {
            &&& is_object_of(v, "branches"@)
            &&& v matches JsonValue::Object(ms) && ms[0].value matches JsonValue::Array(bs)
                && bs.len() == 2 && is_default_when_branch(bs[0]) && is_default_else_branch(bs[1])
        },
        WorkflowNodePrimitive::Globals => {
            &&& is_object_of(v, "variables"@)
            &&& v matches JsonValue::Object(ms) && ms[0].value matches JsonValue::Array(xs) && xs.len()
                == 0
        },
        _ => v matches JsonValue::Object(ms) && ms.len() == 0,
    }
}

fn json_object_member(key: &str, value: JsonValue) -> (r: JsonValue)
    ensures
        is_object_of(r, key@),
        r matches JsonValue::Object(ms) && ms[0].value == value,
{
    JsonValue::Object(vec![crate::json::json_member(key, value)])
}

fn default_condition_group_json() -> (r: JsonValue)
    ensures
        is_default_condition_group(r),
{
    let predicate = json_object_member("kind", crate::json::json_text("predicate".to_owned()));
    JsonValue::Object(
        vec![
            crate::json::json_member("children", JsonValue::Array(vec![predicate])),
            crate::json::json_member("mode", crate::json::json_text("all".to_owned())),
        ],
    )
}

/// The configuration a new node of `node_type` starts with.
pub fn default_configuration_for_node_type(node_type: &WorkflowNodeType) -> (r: JsonValue)
    ensures
        is_default_configuration(r, inferred_primitive(node_type.id@, node_type.category, node_type.primitive)),
{
    match node_type.primitive_kind() {
        WorkflowNodePrimitive::Conditional => {
            let when = JsonValue::Object(
                vec![
                    crate::json::json_member("condition", default_condition_group_json()),
                    crate::json::json_member("kind", crate::json::json_text("when".to_owned())),
                    crate::json::json_member("output_id", crate::json::json_text("if_1".to_owned())),
                ],
            );
            let otherwise = JsonValue::Object(
                vec![
                    crate::json::json_member("kind", crate::json::json_text("else".to_owned())),
                    crate::json::json_member("output_id", crate::json::json_text("else".to_owned())),
                ],
            );
            json_object_member("branches", JsonValue::Array(vec![when, otherwise]))
        },
        WorkflowNodePrimitive::Globals => json_object_member("variables", JsonValue::Array(Vec::new())),
        _ => JsonValue::Object(Vec::new()),
    }
}

} // verus!
