//! The columns of the automatic canvas layout: each node goes to the column
//! of the longest chain of forward edges that leads to it from a node
//! without incoming forward edges. An edge counts as forward unless it runs
//! from a later node back to an earlier one in list order.

use vstd::prelude::*;
use crate::text::same_text;
use crate::workflow::{WorkflowEdge, WorkflowNode};

verus! {

/// The position of the last node listed under `id`, if any (a map from ids
/// to positions keeps the last one).
pub open spec fn last_pos(nodes: Seq<WorkflowNode>, id: Seq<char>) -> Option<int> {
    if exists|i: int| 0 <= i < nodes.len() && nodes[i].id@ == id {
        Some(
            choose|i: int|
                0 <= i < nodes.len() && nodes[i].id@ == id && forall|j: int| i < j < nodes.len() ==> nodes[j].id@ != id,
        )
    } else {
        None
    }
}

/// Whether `e` runs back to an earlier node: an unknown source counts as
/// first, an unknown target as last.
pub open spec fn is_back(nodes: Seq<WorkflowNode>, e: WorkflowEdge) -> bool {
    let from = match last_pos(nodes, e.from_node_id@) {
        Some(i) => i,
        None => 0,
    };
    let to = match last_pos(nodes, e.to_node_id@) {
        Some(i) => i,
        None => usize::MAX as int,
    };
    from > to
}

/// The forward edges, as (source id, target id), in edge order.
pub open spec fn forward_pairs(nodes: Seq<WorkflowNode>, edges: Seq<WorkflowEdge>) -> Seq<(Seq<char>, Seq<char>)>
    decreases edges.len(),
{
    if edges.len() == 0 {
        Seq::empty()
    } else {
        let rest = forward_pairs(nodes, edges.drop_last());
        let e = edges.last();
        if is_back(nodes, e) {
            rest
        } else {
            rest.push((e.from_node_id@, e.to_node_id@))
        }
    }
}

/// A node id that no forward edge enters.
pub open spec fn is_source(nodes: Seq<WorkflowNode>, fwd: Seq<(Seq<char>, Seq<char>)>, v: Seq<char>) -> bool {
    &&& exists|i: int| 0 <= i < nodes.len() && nodes[i].id@ == v
    &&& forall|j: int| 0 <= j < fwd.len() ==> fwd[j].1 != v
}

pub open spec fn max_opt(a: Option<nat>, b: Option<nat>) -> Option<nat> {
    match (a, b) {
        (Some(x), Some(y)) => Some(if x >= y { x } else { y }),
        (Some(x), None) => Some(x),
        (None, y) => y,
    }
}

/// The length of the longest chain of at most `k` forward edges from a
/// source to `v`, if there is one.
pub open spec fn reach(nodes: Seq<WorkflowNode>, fwd: Seq<(Seq<char>, Seq<char>)>, k: nat, v: Seq<char>) -> Option<nat>
    decreases k, 1nat, 0nat,
{
    if k == 0 {
        if is_source(nodes, fwd, v) {
            Some(0)
        } else {
            None
        }
    } else {
        max_opt(reach(nodes, fwd, (k - 1) as nat, v), arrivals(nodes, fwd, (k - 1) as nat, fwd.len(), v))
    }
}

/// One more than the longest chain of at most `k` edges to the source of
/// each of the first `n` forward edges that enter `v`, at most.
pub open spec fn arrivals(
    nodes: Seq<WorkflowNode>,
    fwd: Seq<(Seq<char>, Seq<char>)>,
    k: nat,
    n: nat,
    v: Seq<char>,
) -> Option<nat>
    decreases k, 2nat, n,
{
    if n == 0 {
        None
    } else {
        let prev = arrivals(nodes, fwd, k, (n - 1) as nat, v);
        let e = fwd[n - 1];
        if e.1 == v {
            match reach(nodes, fwd, k, e.0) {
                Some(d) => max_opt(prev, Some(d + 1)),
                None => prev,
            }
        } else {
            prev
        }
    }
}

/// The column of the node id `v`: the longest chain of forward edges from a
/// source to it, counting chains of at most as many edges as there are
/// forward edges; 0 where no chain reaches it. When no cycle of forward
/// edges can be reached from a source, every chain is that short.
pub open spec fn layer_of(nodes: Seq<WorkflowNode>, edges: Seq<WorkflowEdge>, v: Seq<char>) -> nat {
    let fwd = forward_pairs(nodes, edges);
    match reach(nodes, fwd, fwd.len(), v) {
        Some(d) => d,
        None => 0,
    }
}

/// A layer found within `k` rounds is at most `k`.
pub proof fn lemma_reach_bounded(nodes: Seq<WorkflowNode>, fwd: Seq<(Seq<char>, Seq<char>)>, k: nat, v: Seq<char>)
    ensures
        reach(nodes, fwd, k, v) matches Some(d) ==> d <= k,
    decreases k, 1nat, 0nat,
{
    if k > 0 {
        lemma_reach_bounded(nodes, fwd, (k - 1) as nat, v);
        lemma_arrivals_bounded(nodes, fwd, (k - 1) as nat, fwd.len(), v);
    }
}

/// A layer reached over an arriving edge after `k` rounds is at most `k + 1`.
pub proof fn lemma_arrivals_bounded(
    nodes: Seq<WorkflowNode>,
    fwd: Seq<(Seq<char>, Seq<char>)>,
    k: nat,
    n: nat,
    v: Seq<char>,
)
    ensures
        arrivals(nodes, fwd, k, n, v) matches Some(d) ==> d <= k + 1,
    decreases k, 2nat, n,
{
    if n > 0 {
        lemma_arrivals_bounded(nodes, fwd, k, (n - 1) as nat, v);
        lemma_reach_bounded(nodes, fwd, k, fwd[n - 1].0);
    }
}

pub open spec fn opt_nat(o: Option<usize>) -> Option<nat> {
    match o {
        Some(x) => Some(x as nat),
        None => None,
    }
}

pub open spec fn pairs_view(pairs: Seq<(String, String)>) -> Seq<(Seq<char>, Seq<char>)> {
    pairs.map_values(|p: (String, String)| (p.0@, p.1@))
}

fn last_position(nodes: &Vec<WorkflowNode>, id: &str) -> (r: Option<usize>)
    ensures
        match r {
            Some(i) => last_pos(nodes@, id@) == Some(i as int),
            None => last_pos(nodes@, id@) is None,
        },
{
    let mut i: usize = nodes.len();
    while i > 0
        invariant
            i <= nodes@.len(),
            forall|j: int| i <= j < nodes@.len() ==> nodes@[j].id@ != id@,
        decreases i,
    {
        let k = i - 1;
        if same_text(nodes[k].id.as_str(), id) {
            proof {
                let w = choose|w: int|
                    0 <= w < nodes@.len() && nodes@[w].id@ == id@ && forall|j: int|
                        w < j < nodes@.len() ==> nodes@[j].id@ != id@;
                assert(w == k) by {
                    if w < k {
                        assert(nodes@[k as int].id@ == id@);
                    }
                }
            }
            return Some(k);
        }
        i = k;
    }
    None
}

fn is_back_edge(nodes: &Vec<WorkflowNode>, e: &WorkflowEdge) -> (r: bool)
    ensures
        r == is_back(nodes@, *e),
{
    let from: usize = match last_position(nodes, e.from_node_id.as_str()) {
        Some(i) => i,
        None => 0,
    };
    let to: usize = match last_position(nodes, e.to_node_id.as_str()) {
        Some(i) => i,
        None => usize::MAX,
    };
    from > to
}

fn forward_edges(nodes: &Vec<WorkflowNode>, edges: &Vec<WorkflowEdge>) -> (r: Vec<(String, String)>)
    ensures
        pairs_view(r@) == forward_pairs(nodes@, edges@),
{
    let mut r: Vec<(String, String)> = Vec::new();
    for i in 0..edges.len()
        invariant
            pairs_view(r@) == forward_pairs(nodes@, edges@.take(i as int)),
    {
        let e = &edges[i];
        assert(edges@.take(i + 1).drop_last() == edges@.take(i as int));
        assert(edges@.take(i + 1).last() == edges@[i as int]);
        if !is_back_edge(nodes, e) {
            let ghost before = r@;
            r.push((e.from_node_id.clone(), e.to_node_id.clone()));
            assert(pairs_view(r@) == pairs_view(before).push((e.from_node_id@, e.to_node_id@)));
        }
    }
    assert(edges@.take(edges@.len() as int) == edges@);
    r
}

fn is_source_id(nodes: &Vec<WorkflowNode>, fwd: &Vec<(String, String)>, v: &str) -> (r: bool)
    ensures
        r == is_source(nodes@, pairs_view(fwd@), v@),
{
    let mut known = false;
    let mut i: usize = 0;
    while i < nodes.len()
        invariant
            i <= nodes@.len(),
            known == exists|j: int| 0 <= j < i && nodes@[j].id@ == v@,
        decreases nodes@.len() - i,
    {
        if same_text(nodes[i].id.as_str(), v) {
            known = true;
        }
        i = i + 1;
    }
    if !known {
        return false;
    }
    let ghost ps = pairs_view(fwd@);
    let mut j: usize = 0;
    while j < fwd.len()
        invariant
            ps == pairs_view(fwd@),
            j <= fwd@.len(),
            forall|t: int| 0 <= t < j ==> ps[t].1 != v@,
        decreases fwd@.len() - j,
    {
        if same_text(fwd[j].1.as_str(), v) {
            assert(ps[j as int].1 == v@);
            return false;
        }
        j = j + 1;
    }
    true
}

/// Whether some vertex is `id`.
pub open spec fn has_vert(verts: Seq<String>, id: Seq<char>) -> bool {
    exists|i: int| 0 <= i < verts.len() && verts[i]@ == id
}

/// The value kept for `id`: the first entry listed under it.
fn value_of(verts: &Vec<String>, best: &Vec<Option<usize>>, id: &str) -> (r: Option<usize>)
    requires
        verts@.len() == best@.len(),
        has_vert(verts@, id@),
    ensures
        exists|i: int| 0 <= i < verts@.len() && verts@[i]@ == id@ && best@[i] == r,
{
    let mut i: usize = 0;
    while i < verts.len()
        invariant
            verts@.len() == best@.len(),
            i <= verts@.len(),
            exists|t: int| i <= t < verts@.len() && verts@[t]@ == id@,
        decreases verts@.len() - i,
    {
        if same_text(verts[i].as_str(), id) {
            return best[i];
        }
        i = i + 1;
    }
    None
}

fn max_value(a: Option<usize>, b: Option<usize>) -> (r: Option<usize>)
    ensures
        opt_nat(r) == max_opt(opt_nat(a), opt_nat(b)),
{
    match (a, b) {
        (Some(x), Some(y)) => Some(if x >= y { x } else { y }),
        (Some(x), None) => Some(x),
        (None, y) => y,
    }
}

/// The longest chain of at most `round` edges to each vertex, one round
/// further.
fn relax_round(
    nodes: &Vec<WorkflowNode>,
    fwd: &Vec<(String, String)>,
    verts: &Vec<String>,
    best: &Vec<Option<usize>>,
    round: usize,
) -> (next: Vec<Option<usize>>)
    requires
        round < fwd@.len(),
        verts@.len() == best@.len(),
        forall|j: int| 0 <= j < fwd@.len() ==> has_vert(verts@, #[trigger] fwd@[j].0@),
        forall|t: int| 0 <= t < verts@.len() ==> opt_nat(#[trigger] best@[t]) == reach(nodes@, pairs_view(fwd@), round as nat, verts@[t]@),
    ensures
        next@.len() == verts@.len(),
        forall|t: int| 0 <= t < verts@.len() ==> opt_nat(#[trigger] next@[t]) == reach(nodes@, pairs_view(fwd@), (round + 1) as nat, verts@[t]@),
{
    let ghost fv = pairs_view(fwd@);
    let mut next: Vec<Option<usize>> = Vec::new();
    for t in 0..verts.len()
        invariant
            fv == pairs_view(fwd@),
            round < fwd@.len(),
            verts@.len() == best@.len(),
            forall|j: int| 0 <= j < fwd@.len() ==> has_vert(verts@, #[trigger] fwd@[j].0@),
            forall|s: int| 0 <= s < verts@.len() ==> opt_nat(#[trigger] best@[s]) == reach(nodes@, fv, round as nat, verts@[s]@),
            next@.len() == t,
            forall|s: int| 0 <= s < t ==> opt_nat(#[trigger] next@[s]) == reach(nodes@, fv, (round + 1) as nat, verts@[s]@),
    {
        let v = verts[t].as_str();
        let mut acc: Option<usize> = None;
        for j in 0..fwd.len()
            invariant
                fv == pairs_view(fwd@),
                round < fwd@.len(),
                verts@.len() == best@.len(),
                t < verts@.len(),
                v@ == verts@[t as int]@,
                forall|j: int| 0 <= j < fwd@.len() ==> has_vert(verts@, #[trigger] fwd@[j].0@),
                forall|s: int| 0 <= s < verts@.len() ==> opt_nat(#[trigger] best@[s]) == reach(nodes@, fv, round as nat, verts@[s]@),
                opt_nat(acc) == arrivals(nodes@, fv, round as nat, j as nat, v@),
                acc matches Some(a) ==> a <= round + 1,
        {
            assert(fv[j as int] == (fwd@[j as int].0@, fwd@[j as int].1@));
            if same_text(fwd[j].1.as_str(), v) {
                let found = value_of(verts, best, fwd[j].0.as_str());
                proof {
                    let s = choose|s: int| 0 <= s < verts@.len() && verts@[s]@ == fwd@[j as int].0@ && best@[s] == found;
                    assert(opt_nat(best@[s]) == reach(nodes@, fv, round as nat, verts@[s]@));
                    lemma_reach_bounded(nodes@, fv, round as nat, fv[j as int].0);
                }
                match found {
                    Some(d) => {
                        acc = max_value(acc, Some(d + 1));
                    },
                    None => {},
                }
            }
        }
        next.push(max_value(best[t], acc));
    }
    next
}

/// The column of each node (in node order) for the automatic layout.
pub fn layout_layers(nodes: &Vec<WorkflowNode>, edges: &Vec<WorkflowEdge>) -> (r: Vec<usize>)
    ensures
        r@.len() == nodes@.len(),
        forall|i: int| 0 <= i < nodes@.len() ==> (#[trigger] r@[i]) as nat == layer_of(nodes@, edges@, nodes@[i].id@),
{
    let fwd = forward_edges(nodes, edges);
    let ghost fv = pairs_view(fwd@);
    let mut verts: Vec<String> = Vec::new();
    for i in 0..nodes.len()
        invariant
            verts@.len() == i,
            forall|s: int| 0 <= s < i ==> (#[trigger] verts@[s])@ == nodes@[s].id@,
    {
        verts.push(nodes[i].id.clone());
    }
    for j in 0..fwd.len()
        invariant
            verts@.len() == nodes@.len() + j,
            forall|s: int| 0 <= s < nodes@.len() ==> (#[trigger] verts@[s])@ == nodes@[s].id@,
            forall|q: int| 0 <= q < j ==> (#[trigger] verts@[nodes@.len() + q])@ == fwd@[q].0@,
    {
        verts.push(fwd[j].0.clone());
    }
    assert forall|j: int| 0 <= j < fwd@.len() implies has_vert(verts@, #[trigger] fwd@[j].0@) by {
        assert(verts@[nodes@.len() + j]@ == fwd@[j].0@);
    }
    let mut best: Vec<Option<usize>> = Vec::new();
    for t in 0..verts.len()
        invariant
            fv == pairs_view(fwd@),
            best@.len() == t,
            forall|s: int| 0 <= s < t ==> opt_nat(#[trigger] best@[s]) == reach(nodes@, fv, 0, verts@[s]@),
    {
        let source = is_source_id(nodes, &fwd, verts[t].as_str());
        best.push(if source { Some(0) } else { None });
    }
    for round in 0..fwd.len()
        invariant
            fv == pairs_view(fwd@),
            verts@.len() == best@.len(),
            forall|s: int| 0 <= s < nodes@.len() ==> (#[trigger] verts@[s])@ == nodes@[s].id@,
            verts@.len() >= nodes@.len(),
            forall|j: int| 0 <= j < fwd@.len() ==> has_vert(verts@, #[trigger] fwd@[j].0@),
            forall|s: int| 0 <= s < verts@.len() ==> opt_nat(#[trigger] best@[s]) == reach(nodes@, fv, round as nat, verts@[s]@),
    {
        best = relax_round(nodes, &fwd, &verts, &best, round);
    }
    let mut r: Vec<usize> = Vec::new();
    for i in 0..nodes.len()
        invariant
            fv == pairs_view(fwd@),
            fv == forward_pairs(nodes@, edges@),
            verts@.len() == best@.len(),
            verts@.len() >= nodes@.len(),
            forall|s: int| 0 <= s < nodes@.len() ==> (#[trigger] verts@[s])@ == nodes@[s].id@,
            forall|s: int| 0 <= s < verts@.len() ==> opt_nat(#[trigger] best@[s]) == reach(nodes@, fv, fv.len(), verts@[s]@),
            r@.len() == i,
            forall|s: int| 0 <= s < i ==> (#[trigger] r@[s]) as nat == layer_of(nodes@, edges@, nodes@[s].id@),
    {
        assert(opt_nat(best@[i as int]) == reach(nodes@, fv, fv.len(), verts@[i as int]@));
        r.push(
            match best[i] {
                Some(d) => d,
                None => 0,
            },
        );
    }
    r
}

} // verus!

verus! {

/// Whether `p` is a chain of forward edges from a source: its first vertex
/// is a source and each next vertex is entered from the one before.
pub open spec fn is_chain(nodes: Seq<WorkflowNode>, fwd: Seq<(Seq<char>, Seq<char>)>, p: Seq<Seq<char>>) -> bool {
    &&& p.len() >= 1
    &&& is_source(nodes, fwd, p[0])
    &&& forall|i: int| 0 <= i < p.len() - 1 ==> #[trigger] has_edge(fwd, p[i], p[i + 1])
}

/// Whether a forward edge runs from `u` to `v`.
pub open spec fn has_edge(fwd: Seq<(Seq<char>, Seq<char>)>, u: Seq<char>, v: Seq<char>) -> bool {
    exists|j: int| 0 <= j < fwd.len() && fwd[j] == (u, v)
}

proof fn lemma_reach_monotone(nodes: Seq<WorkflowNode>, fwd: Seq<(Seq<char>, Seq<char>)>, k: nat, m: nat, v: Seq<char>)
    requires
        k <= m,
        reach(nodes, fwd, k, v) matches Some(d),
    ensures
        reach(nodes, fwd, m, v) matches Some(e) && e >= reach(nodes, fwd, k, v)->0,
    decreases m - k,
{
    if k < m {
        lemma_reach_monotone(nodes, fwd, k, (m - 1) as nat, v);
    }
}

proof fn lemma_arrivals_covers(
    nodes: Seq<WorkflowNode>,
    fwd: Seq<(Seq<char>, Seq<char>)>,
    k: nat,
    n: nat,
    v: Seq<char>,
    j: int,
)
    requires
        0 <= j < n <= fwd.len(),
        fwd[j].1 == v,
        reach(nodes, fwd, k, fwd[j].0) matches Some(d),
    ensures
        arrivals(nodes, fwd, k, n, v) matches Some(e) && e >= reach(nodes, fwd, k, fwd[j].0)->0 + 1,
    decreases n,
{
    if j < n - 1 {
        lemma_arrivals_covers(nodes, fwd, k, (n - 1) as nat, v, j);
    }
}

proof fn lemma_arrivals_witness(nodes: Seq<WorkflowNode>, fwd: Seq<(Seq<char>, Seq<char>)>, k: nat, n: nat, v: Seq<char>)
    requires
        n <= fwd.len(),
        arrivals(nodes, fwd, k, n, v) matches Some(d),
    ensures
        exists|j: int|
            0 <= j < n && fwd[j].1 == v && reach(nodes, fwd, k, fwd[j].0) is Some && reach(nodes, fwd, k, fwd[j].0)->0
                + 1 == arrivals(nodes, fwd, k, n, v)->0,
    decreases n,
{
    let prev = arrivals(nodes, fwd, k, (n - 1) as nat, v);
    if prev is Some {
        lemma_arrivals_witness(nodes, fwd, k, (n - 1) as nat, v);
    }
}

/// A chain that `reach` finds: `reach(k, v) == Some(d)` has a chain of `d`
/// edges ending at `v` behind it.
proof fn lemma_reach_has_chain(nodes: Seq<WorkflowNode>, fwd: Seq<(Seq<char>, Seq<char>)>, k: nat, v: Seq<char>)
    requires
        reach(nodes, fwd, k, v) matches Some(d),
    ensures
        exists|p: Seq<Seq<char>>| is_chain(nodes, fwd, p) && p.last() == v && p.len() == reach(nodes, fwd, k, v)->0 + 1,
    decreases k,
{
    if k == 0 {
        let p = seq![v];
        assert(is_chain(nodes, fwd, p) && p.last() == v);
    } else {
        let a = reach(nodes, fwd, (k - 1) as nat, v);
        let b = arrivals(nodes, fwd, (k - 1) as nat, fwd.len(), v);
        if a is Some && (b is None || a->0 >= b->0) {
            lemma_reach_has_chain(nodes, fwd, (k - 1) as nat, v);
        } else {
            lemma_arrivals_witness(nodes, fwd, (k - 1) as nat, fwd.len(), v);
            let j = choose|j: int|
                0 <= j < fwd.len() && fwd[j].1 == v && reach(nodes, fwd, (k - 1) as nat, fwd[j].0) is Some && reach(
                    nodes,
                    fwd,
                    (k - 1) as nat,
                    fwd[j].0,
                )->0 + 1 == b->0;
            let u = fwd[j].0;
            lemma_reach_has_chain(nodes, fwd, (k - 1) as nat, u);
            let q = choose|q: Seq<Seq<char>>|
                is_chain(nodes, fwd, q) && q.last() == u && q.len() == reach(nodes, fwd, (k - 1) as nat, u)->0 + 1;
            let p = q.push(v);
            assert(has_edge(fwd, u, v));
            assert forall|i: int| 0 <= i < p.len() - 1 implies #[trigger] has_edge(fwd, p[i], p[i + 1]) by {
                if i < q.len() - 1 {
                    assert(p[i] == q[i] && p[i + 1] == q[i + 1]);
                    assert(has_edge(fwd, q[i], q[i + 1]));
                } else {
                    assert(p[i] == u && p[i + 1] == v);
                }
            }
            assert(is_chain(nodes, fwd, p));
        }
    }
}

/// A chain of at most `k` edges is found by `reach`: its length is at most
/// `reach(k, v)`.
proof fn lemma_chain_reached(nodes: Seq<WorkflowNode>, fwd: Seq<(Seq<char>, Seq<char>)>, p: Seq<Seq<char>>, k: nat)
    requires
        is_chain(nodes, fwd, p),
        p.len() - 1 <= k,
    ensures
        reach(nodes, fwd, k, p.last()) matches Some(d) && d >= p.len() - 1,
    decreases p.len(),
{
    if p.len() == 1 {
        lemma_reach_monotone(nodes, fwd, 0, k, p[0]);
    } else {
        let q = p.drop_last();
        assert forall|i: int| 0 <= i < q.len() - 1 implies #[trigger] has_edge(fwd, q[i], q[i + 1]) by {
            assert(has_edge(fwd, p[i], p[i + 1]));
        }
        assert(is_chain(nodes, fwd, q));
        lemma_chain_reached(nodes, fwd, q, (k - 1) as nat);
        let u = q.last();
        let v = p.last();
        let last = p.len() - 2;
        assert(has_edge(fwd, p[last], p[last + 1]));
        assert(p[last] == u && p[last + 1] == v);
        let j = choose|j: int| 0 <= j < fwd.len() && fwd[j] == (u, v);
        lemma_arrivals_covers(nodes, fwd, (k - 1) as nat, fwd.len(), v, j);
    }
}

/// The column of a node is the longest chain of forward edges that reaches
/// it, among chains of at most as many edges as there are forward edges: no
/// such chain is longer, and a column above 0 is the length of one.
pub proof fn lemma_layer_is_longest_chain(nodes: Seq<WorkflowNode>, edges: Seq<WorkflowEdge>, v: Seq<char>)
    ensures
        forall|p: Seq<Seq<char>>|
            is_chain(nodes, forward_pairs(nodes, edges), p) && p.last() == v && p.len() - 1 <= forward_pairs(
                nodes,
                edges,
            ).len() ==> p.len() - 1 <= layer_of(nodes, edges, v),
        layer_of(nodes, edges, v) > 0 ==> exists|p: Seq<Seq<char>>|
            is_chain(nodes, forward_pairs(nodes, edges), p) && p.last() == v && p.len() - 1 == layer_of(
                nodes,
                edges,
                v,
            ),
{
    let fwd = forward_pairs(nodes, edges);
    assert forall|p: Seq<Seq<char>>|
        is_chain(nodes, fwd, p) && p.last() == v && p.len() - 1 <= fwd.len() implies p.len() - 1 <= layer_of(
        nodes,
        edges,
        v,
    ) by {
        lemma_chain_reached(nodes, fwd, p, fwd.len());
    }
    if layer_of(nodes, edges, v) > 0 {
        lemma_reach_has_chain(nodes, fwd, fwd.len(), v);
    }
}

} // verus!

verus! {

/// Whether some node is listed under `v`.
pub open spec fn known(nodes: Seq<WorkflowNode>, v: Seq<char>) -> bool {
    exists|i: int| 0 <= i < nodes.len() && nodes[i].id@ == v
}

/// Node ids are distinct, every edge joins two listed nodes, and no edge
/// joins a node to itself.
pub open spec fn simple_graph(nodes: Seq<WorkflowNode>, edges: Seq<WorkflowEdge>) -> bool {
    &&& forall|i: int, j: int| 0 <= i < j < nodes.len() ==> nodes[i].id@ != nodes[j].id@
    &&& forall|k: int|
        0 <= k < edges.len() ==> known(nodes, (#[trigger] edges[k]).from_node_id@) && known(
            nodes,
            edges[k].to_node_id@,
        ) && edges[k].from_node_id@ != edges[k].to_node_id@
}

/// With distinct ids, a listed id's position is where it is listed.
proof fn lemma_last_pos_of(nodes: Seq<WorkflowNode>, i: int)
    requires
        forall|a: int, b: int| 0 <= a < b < nodes.len() ==> nodes[a].id@ != nodes[b].id@,
        0 <= i < nodes.len(),
    ensures
        last_pos(nodes, nodes[i].id@) == Some(i),
{
    let v = nodes[i].id@;
    assert(forall|j: int| i < j < nodes.len() ==> nodes[j].id@ != v);
    let c = choose|c: int| 0 <= c < nodes.len() && nodes[c].id@ == v && forall|j: int| c < j < nodes.len() ==> nodes[j].id@ != v;
    if c < i {
        assert(nodes[c].id@ != nodes[i].id@);
    } else if c > i {
        assert(nodes[i].id@ != nodes[c].id@);
    }
}

/// Every forward pair comes from an edge that does not run back.
proof fn lemma_forward_pair_from_edge(nodes: Seq<WorkflowNode>, edges: Seq<WorkflowEdge>, j: int)
    requires
        0 <= j < forward_pairs(nodes, edges).len(),
    ensures
        exists|k: int|
            0 <= k < edges.len() && !is_back(nodes, edges[k]) && forward_pairs(nodes, edges)[j] == (
                edges[k].from_node_id@,
                edges[k].to_node_id@,
            ),
    decreases edges.len(),
{
    let init = edges.drop_last();
    let rest = forward_pairs(nodes, init);
    if j < rest.len() {
        lemma_forward_pair_from_edge(nodes, init, j);
        let k = choose|k: int|
            0 <= k < init.len() && !is_back(nodes, init[k]) && rest[j] == (init[k].from_node_id@, init[k].to_node_id@);
        assert(edges[k] == init[k]);
    } else {
        assert(edges[edges.len() - 1] == edges.last());
    }
}

/// Every edge that does not run back is a forward pair.
proof fn lemma_edge_is_forward_pair(nodes: Seq<WorkflowNode>, edges: Seq<WorkflowEdge>, k: int)
    requires
        0 <= k < edges.len(),
        !is_back(nodes, edges[k]),
    ensures
        has_edge(forward_pairs(nodes, edges), edges[k].from_node_id@, edges[k].to_node_id@),
    decreases edges.len(),
{
    let init = edges.drop_last();
    let rest = forward_pairs(nodes, init);
    let pair = (edges[k].from_node_id@, edges[k].to_node_id@);
    if k < init.len() {
        assert(init[k] == edges[k]);
        lemma_edge_is_forward_pair(nodes, init, k);
        let j = choose|j: int| 0 <= j < rest.len() && rest[j] == pair;
        if !is_back(nodes, edges.last()) {
            assert(forward_pairs(nodes, edges)[j] == rest.push((edges.last().from_node_id@, edges.last().to_node_id@))[j]);
        }
        assert(forward_pairs(nodes, edges)[j] == pair);
    } else {
        assert(forward_pairs(nodes, edges)[rest.len() as int] == pair);
    }
}

/// A forward pair joins two listed nodes, the first listed before the second.
proof fn lemma_forward_pair_rises(nodes: Seq<WorkflowNode>, edges: Seq<WorkflowEdge>, j: int)
    requires
        simple_graph(nodes, edges),
        0 <= j < forward_pairs(nodes, edges).len(),
    ensures
        ({
            let (u, v) = forward_pairs(nodes, edges)[j];
            &&& last_pos(nodes, u) is Some
            &&& last_pos(nodes, v) is Some
            &&& last_pos(nodes, u)->0 < last_pos(nodes, v)->0
        }),
{
    lemma_forward_pair_from_edge(nodes, edges, j);
    let k = choose|k: int|
        0 <= k < edges.len() && !is_back(nodes, edges[k]) && forward_pairs(nodes, edges)[j] == (
            edges[k].from_node_id@,
            edges[k].to_node_id@,
        );
    let e = edges[k];
    assert(known(nodes, e.from_node_id@) && known(nodes, e.to_node_id@));
    let a = choose|a: int| 0 <= a < nodes.len() && nodes[a].id@ == e.from_node_id@;
    let b = choose|b: int| 0 <= b < nodes.len() && nodes[b].id@ == e.to_node_id@;
    lemma_last_pos_of(nodes, a);
    lemma_last_pos_of(nodes, b);
    assert(a != b);
}

/// Along a chain the nodes are listed in strictly increasing order.
proof fn lemma_chain_rises(nodes: Seq<WorkflowNode>, edges: Seq<WorkflowEdge>, p: Seq<Seq<char>>, i: int, j: int)
    requires
        simple_graph(nodes, edges),
        is_chain(nodes, forward_pairs(nodes, edges), p),
        0 <= i < j < p.len(),
    ensures
        last_pos(nodes, p[i]) is Some,
        last_pos(nodes, p[j]) is Some,
        last_pos(nodes, p[i])->0 < last_pos(nodes, p[j])->0,
    decreases j - i,
{
    let fwd = forward_pairs(nodes, edges);
    let m = j - 1;
    assert(has_edge(fwd, p[m], p[m + 1]));
    let t = choose|t: int| 0 <= t < fwd.len() && fwd[t] == (p[m], p[m + 1]);
    lemma_forward_pair_rises(nodes, edges, t);
    if i < j - 1 {
        lemma_chain_rises(nodes, edges, p, i, j - 1);
    }
}

/// A chain has no more edges than there are forward edges.
proof fn lemma_chain_short(nodes: Seq<WorkflowNode>, edges: Seq<WorkflowEdge>, p: Seq<Seq<char>>)
    requires
        simple_graph(nodes, edges),
        is_chain(nodes, forward_pairs(nodes, edges), p),
    ensures
        p.len() - 1 <= forward_pairs(nodes, edges).len(),
{
    let fwd = forward_pairs(nodes, edges);
    let n = p.len() - 1;
    let x = vstd::set_lib::set_int_range(0, n);
    let f = |i: int| choose|t: int| 0 <= t < fwd.len() && fwd[t] == (p[i], p[i + 1]);
    vstd::set_lib::lemma_int_range(0, n);
    vstd::set_lib::lemma_int_range(0, fwd.len() as int);
    assert forall|i: int| #[trigger] x.contains(i) implies 0 <= f(i) < fwd.len() && fwd[f(i)] == (p[i], p[i + 1]) by {
        assert(has_edge(fwd, p[i], p[i + 1]));
    }
    assert forall|a: int, b: int| x.contains(a) && x.contains(b) && #[trigger] f(a) == #[trigger] f(b) implies a == b by {
        assert(p[a] == p[b]);
        if a < b {
            lemma_chain_rises(nodes, edges, p, a, b);
        } else if b < a {
            lemma_chain_rises(nodes, edges, p, b, a);
        }
    }
    let y = x.map(f);
    assert(vstd::relations::injective_on(f, x));
    vstd::set_lib::lemma_map_size(x, y, f);
    assert(y.subset_of(vstd::set_lib::set_int_range(0, fwd.len() as int))) by {
        assert forall|t: int| y.contains(t) implies vstd::set_lib::set_int_range(0, fwd.len() as int).contains(t) by {
            let i = choose|i: int| x.contains(i) && f(i) == t;
        }
    }
    vstd::set_lib::lemma_len_subset(y, vstd::set_lib::set_int_range(0, fwd.len() as int));
}

/// Every listed node is reached by a chain from a source.
proof fn lemma_known_has_chain(nodes: Seq<WorkflowNode>, edges: Seq<WorkflowEdge>, i: int)
    requires
        simple_graph(nodes, edges),
        0 <= i < nodes.len(),
    ensures
        exists|p: Seq<Seq<char>>| is_chain(nodes, forward_pairs(nodes, edges), p) && p.last() == nodes[i].id@,
    decreases i,
{
    let fwd = forward_pairs(nodes, edges);
    let v = nodes[i].id@;
    if is_source(nodes, fwd, v) {
        let p = seq![v];
        assert(is_chain(nodes, fwd, p) && p.last() == v);
    } else {
        let t = choose|t: int| 0 <= t < fwd.len() && fwd[t].1 == v;
        lemma_forward_pair_rises(nodes, edges, t);
        let u = fwd[t].0;
        lemma_last_pos_of(nodes, i);
        let a = last_pos(nodes, u)->0;
        assert(nodes[a].id@ == u);
        lemma_known_has_chain(nodes, edges, a);
        let q = choose|q: Seq<Seq<char>>| is_chain(nodes, fwd, q) && q.last() == u;
        let p = q.push(v);
        assert forall|k: int| 0 <= k < p.len() - 1 implies #[trigger] has_edge(fwd, p[k], p[k + 1]) by {
            if k < q.len() - 1 {
                assert(has_edge(fwd, q[k], q[k + 1]));
            } else {
                assert(fwd[t] == (u, v));
            }
        }
        assert(is_chain(nodes, fwd, p) && p.last() == v);
    }
}

/// Law: where node ids are distinct, every edge joins two listed nodes and
/// none joins a node to itself, an edge that does not run back (its source
/// is listed before its target) puts its target in a later column than its
/// source.
pub proof fn lemma_forward_edge_moves_right(nodes: Seq<WorkflowNode>, edges: Seq<WorkflowEdge>, k: int)
    requires
        simple_graph(nodes, edges),
        0 <= k < edges.len(),
        !is_back(nodes, edges[k]),
    ensures
        layer_of(nodes, edges, edges[k].from_node_id@) < layer_of(nodes, edges, edges[k].to_node_id@),
{
    let fwd = forward_pairs(nodes, edges);
    let u = edges[k].from_node_id@;
    let v = edges[k].to_node_id@;
    lemma_edge_is_forward_pair(nodes, edges, k);
    lemma_layer_is_longest_chain(nodes, edges, u);
    lemma_layer_is_longest_chain(nodes, edges, v);
    assert(known(nodes, u));
    let a = choose|a: int| 0 <= a < nodes.len() && nodes[a].id@ == u;
    lemma_known_has_chain(nodes, edges, a);
    let q = choose|q: Seq<Seq<char>>| is_chain(nodes, fwd, q) && q.last() == u;
    lemma_chain_short(nodes, edges, q);
    let p = if layer_of(nodes, edges, u) > 0 {
        choose|p: Seq<Seq<char>>| is_chain(nodes, fwd, p) && p.last() == u && p.len() - 1 == layer_of(nodes, edges, u)
    } else {
        q
    };
    assert(p.len() - 1 == layer_of(nodes, edges, u));
    let r = p.push(v);
    let j = choose|j: int| 0 <= j < fwd.len() && fwd[j] == (u, v);
    assert forall|i: int| 0 <= i < r.len() - 1 implies #[trigger] has_edge(fwd, r[i], r[i + 1]) by {
        if i < p.len() - 1 {
            assert(has_edge(fwd, p[i], p[i + 1]));
        } else {
            assert(fwd[j] == (r[i], r[i + 1]));
        }
    }
    assert(is_chain(nodes, fwd, r) && r.last() == v);
    lemma_chain_short(nodes, edges, r);
    assert(r.len() - 1 <= layer_of(nodes, edges, v));
}

} // verus!
