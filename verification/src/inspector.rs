//! The node inspector: what its form shows for the selected node.

use vstd::prelude::*;
use crate::text::{decimal, decimal_string, same_text};
use crate::workflow::{NodePolicy, WorkflowDefinitionRecord, WorkflowNode};

verus! {

/// The texts `items` joined by `sep`.
pub open spec fn joined(items: Seq<String>, sep: Seq<char>) -> Seq<char>
    decreases items.len(),
{
    if items.len() == 0 {
        Seq::empty()
    } else if items.len() == 1 {
        items[0]@
    } else {
        joined(items.drop_last(), sep) + sep + items.last()@
    }
}

/// The texts `items` joined by `sep`.
pub fn join_texts(items: &Vec<String>, sep: &str) -> (r: String)
    ensures
        r@ == joined(items@, sep@),
{
    let mut r = String::new();
    for i in 0..items.len()
        invariant
            r@ == joined(items@.take(i as int), sep@),
    {
        proof {
            let t = items@.take(i + 1);
            assert(t.drop_last() == items@.take(i as int));
            assert(t.last() == items@[i as int]);
        }
        if i > 0 {
            r.append(sep);
        } else {
            assert(items@.take(i + 1).len() == 1);
        }
        r.append(items[i].as_str());
    }
    assert(items@.take(items@.len() as int) == items@);
    r
}

/// The first node with id `node_id`, if any.
pub open spec fn first_node_with_id(nodes: Seq<WorkflowNode>, node_id: Seq<char>) -> Option<int> {
    if exists|i: int| 0 <= i < nodes.len() && nodes[i].id@ == node_id {
        Some(choose|i: int| 0 <= i < nodes.len() && nodes[i].id@ == node_id && forall|j: int| 0 <= j < i ==> nodes[j].id@ != node_id)
    } else {
        None
    }
}

/// The first policy written for `node_id`, if any.
pub open spec fn first_policy(policies: Seq<NodePolicy>, node_id: Seq<char>) -> Option<int> {
    if exists|i: int| 0 <= i < policies.len() && policies[i].node_id@ == node_id {
        Some(
            choose|i: int|
                0 <= i < policies.len() && policies[i].node_id@ == node_id && forall|j: int|
                    0 <= j < i ==> policies[j].node_id@ != node_id,
        )
    } else {
        None
    }
}

/// What the inspector's form shows for a node.
#[derive(Debug, PartialEq, Eq)]
pub struct InspectorFields {
    /// The label, where the workflow has the node (else the label field
    /// keeps its text).
    pub label: Option<String>,
    pub required_reviews: String,
    /// The required checks, separated by `, `.
    pub required_checks: String,
    pub max_attempts: String,
    pub backoff_ms: String,
}

/// The form for node `node_id` of `workflow`: its label, and its policy's
/// reviews, checks and retry settings, or `0` reviews, no checks, `3`
/// attempts and `1000` ms of backoff where it has no policy.
pub fn inspector_fields(workflow: &WorkflowDefinitionRecord, node_id: &str) -> (r: InspectorFields)
    ensures
        match first_node_with_id(workflow.nodes@, node_id@) {
            Some(i) => r.label matches Some(l) && l@ == workflow.nodes@[i].label@,
            None => r.label is None,
        },
        match first_policy(workflow.node_policies@, node_id@) {
            Some(i) => {
                let p = workflow.node_policies@[i];
                &&& r.required_reviews@ == decimal(p.required_reviews as nat)
                &&& r.required_checks@ == joined(p.required_checks@, ", "@)
                &&& r.max_attempts@ == decimal(p.retry_behavior.max_attempts as nat)
                &&& r.backoff_ms@ == decimal(p.retry_behavior.backoff_ms as nat)
            },
            None => {
                &&& r.required_reviews@ == "0"@
                &&& r.required_checks@ == ""@
                &&& r.max_attempts@ == "3"@
                &&& r.backoff_ms@ == "1000"@
            },
        },
{
    let mut i: usize = 0;
    while i < workflow.nodes.len() && !same_text(workflow.nodes[i].id.as_str(), node_id)
        invariant
            i <= workflow.nodes@.len(),
            forall|j: int| 0 <= j < i ==> workflow.nodes@[j].id@ != node_id@,
        decreases workflow.nodes@.len() - i,
    {
        i = i + 1;
    }
    let label = if i < workflow.nodes.len() {
        proof {
            let k = first_node_with_id(workflow.nodes@, node_id@)->0;
            assert(workflow.nodes@[i as int].id@ == node_id@);
            assert(k == i) by {
                if k < i {
                } else if k > i {
                }
            }
        }
        Some(workflow.nodes[i].label.clone())
    } else {
        None
    };
    match workflow.policy_for(node_id) {
        Some(p) => {
            proof {
                let k = first_policy(workflow.node_policies@, node_id@)->0;
                let w = choose|w: int|
                    0 <= w < workflow.node_policies@.len() && workflow.node_policies@[w] == *p && p.node_id@
                        == node_id@ && forall|j: int| 0 <= j < w ==> workflow.node_policies@[j].node_id@ != node_id@;
                assert(w == k) by {
                    if w < k {
                    } else if k < w {
                    }
                }
            }
            InspectorFields {
                label,
                required_reviews: decimal_string(p.required_reviews as u64),
                required_checks: join_texts(&p.required_checks, ", "),
                max_attempts: decimal_string(p.retry_behavior.max_attempts as u64),
                backoff_ms: decimal_string(p.retry_behavior.backoff_ms),
            }
        },
        None => {
            proof {
                reveal_strlit("0");
                reveal_strlit("3");
                reveal_strlit("1000");
                reveal_strlit("");
            }
            InspectorFields {
                label,
                required_reviews: "0".to_owned(),
                required_checks: String::new(),
                max_attempts: "3".to_owned(),
                backoff_ms: "1000".to_owned(),
            }
        },
    }
}

} // verus!
