//! The run list and the workflow picker: searching runs, grouping them by
//! state, matching workflows by name, and checking a new run's form.

use vstd::prelude::*;
use crate::codex_usage::opt_view;
use crate::order::{
    lemma_filter_congruent, lemma_lex_antisym, lemma_lex_refl, lemma_lex_total, lemma_lex_trans, lemma_map_filter,
    lemma_map_values_multiset, lex_le, same_key, sort_by_key, text_le, SortKey,
};
use crate::text::{ascii_lower_char, ascii_lowercase, contains_seq, text_contains, trim_text, trimmed};
use crate::workflow::{
    TaskLifecycleStatus, TaskRecord, TaskStatusResponse, WorkflowDefinitionRecord, WorkflowRunRequest,
};

verus! {

pub open spec fn lower_ascii(s: Seq<char>) -> Seq<char> {
    s.map_values(|c: char| ascii_lower_char(c))
}

/// Whether a run matches a lower-cased query: its title, repository,
/// status name or description contains it, ignoring ASCII case.
pub open spec fn run_matches(run: TaskRecord, query: Seq<char>) -> bool {
    contains_seq(lower_ascii(run.title@), query) || contains_seq(lower_ascii(run.source_repo@), query)
        || contains_seq(lower_ascii(run.status.label()), query) || (run.task_description matches Some(
        d,
    ) && contains_seq(lower_ascii(d@), query))
}

/// Whether a run matches a lower-cased query.
pub fn run_matches_query(run: &TaskRecord, query: &str) -> (r: bool)
    ensures
        r == run_matches(*run, query@),
{
    if text_contains(ascii_lowercase(run.title.as_str()).as_str(), query) {
        return true;
    }
    if text_contains(ascii_lowercase(run.source_repo.as_str()).as_str(), query) {
        return true;
    }
    if text_contains(ascii_lowercase(run.status.display_name()).as_str(), query) {
        return true;
    }
    match &run.task_description {
        Some(d) => text_contains(ascii_lowercase(d.as_str()).as_str(), query),
        None => false,
    }
}

/// A run matches a query exactly when the query occurs, ignoring ASCII
/// case, in its title, its repository, its status name or its description.
pub proof fn lemma_run_matches_any_field(run: TaskRecord, query: Seq<char>)
    ensures
        contains_seq(lower_ascii(run.title@), query) ==> run_matches(run, query),
        contains_seq(lower_ascii(run.source_repo@), query) ==> run_matches(run, query),
        contains_seq(lower_ascii(run.status.label()), query) ==> run_matches(run, query),
        forall|d: String|
            run.task_description == Some(d) && #[trigger] contains_seq(lower_ascii(d@), query) ==> run_matches(
                run,
                query,
            ),
        run_matches(run, query) ==> contains_seq(lower_ascii(run.title@), query) || contains_seq(
            lower_ascii(run.source_repo@),
            query,
        ) || contains_seq(lower_ascii(run.status.label()), query) || exists|d: String|
            run.task_description == Some(d) && #[trigger] contains_seq(lower_ascii(d@), query),
{
}

/// The query a search text turns into: trimmed and ASCII lower-cased.
pub open spec fn normalized_query(search: Seq<char>) -> Seq<char> {
    lower_ascii(trimmed(search))
}

pub open spec fn matches_query(query: Seq<char>) -> spec_fn(TaskRecord) -> bool {
    |run: TaskRecord| run_matches(run, query)
}

/// The runs that match the search, in order; all of them for an empty search.
pub open spec fn filtered(runs: Seq<TaskRecord>, search: Seq<char>) -> Seq<TaskRecord> {
    if normalized_query(search).len() == 0 {
        runs
    } else {
        runs.filter(matches_query(normalized_query(search)))
    }
}

/// The search keeps every run that matches it and nothing else: each run
/// that matches the trimmed, lower-cased query is among the filtered runs,
/// every filtered run matches, and an empty query keeps all runs.
pub proof fn lemma_filtered_keeps_matching_runs(runs: Seq<TaskRecord>, search: Seq<char>)
    ensures
        forall|i: int|
            0 <= i < runs.len() && run_matches(#[trigger] runs[i], normalized_query(search)) ==> filtered(
                runs,
                search,
            ).contains(runs[i]),
        normalized_query(search).len() > 0 ==> forall|i: int|
            0 <= i < filtered(runs, search).len() ==> run_matches(
                #[trigger] filtered(runs, search)[i],
                normalized_query(search),
            ),
        normalized_query(search).len() == 0 ==> filtered(runs, search) == runs,
{
    let q = normalized_query(search);
    if q.len() > 0 {
        assert forall|i: int| 0 <= i < runs.len() && run_matches(#[trigger] runs[i], q) implies filtered(
            runs,
            search,
        ).contains(runs[i]) by {
            runs.lemma_filter_contains(matches_query(q), i);
        }
        broadcast use vstd::seq_lib::group_filter_ensures;
    } else {
        assert forall|i: int| 0 <= i < runs.len() && run_matches(#[trigger] runs[i], q) implies filtered(
            runs,
            search,
        ).contains(runs[i]) by {
            assert(filtered(runs, search)[i] == runs[i]);
        }
    }
}

/// Copies of the runs that match `search_query`.
pub fn filtered_runs(runs: &Vec<TaskRecord>, search_query: &str) -> (r: Vec<usize>)
    ensures
        r@.len() == filtered(runs@, search_query@).len(),
        forall|i: int| 0 <= i < r@.len() ==> (#[trigger] r@[i]) < runs@.len() && runs@[r@[i] as int]
            == filtered(runs@, search_query@)[i],
        forall|i: int, j: int| 0 <= i < j < r@.len() ==> r@[i] < r@[j],
{
    let query = ascii_lowercase(trim_text(search_query));
    let ghost q = normalized_query(search_query@);
    let mut out: Vec<usize> = Vec::new();
    let all = query.as_str().is_empty();
    for i in 0..runs.len()
        invariant
            q == query@,
            all == (q.len() == 0),
            all ==> out@.len() == i && forall|k: int| 0 <= k < i ==> out@[k] == k,
            !all ==> out@.len() == runs@.take(i as int).filter(matches_query(q)).len(),
            !all ==> forall|k: int| 0 <= k < out@.len() ==> (#[trigger] out@[k]) < i && runs@[out@[k] as int]
                == runs@.take(i as int).filter(matches_query(q))[k],
            forall|k: int, l: int| 0 <= k < l < out@.len() ==> out@[k] < out@[l],
            forall|k: int| 0 <= k < out@.len() ==> (#[trigger] out@[k]) < i,
    {
        proof {
            assert(runs@.take(i + 1) == runs@.take(i as int).push(runs@[i as int]));
            runs@.take(i as int).lemma_filter_push(runs@[i as int], matches_query(q));
        }
        if all || run_matches_query(&runs[i], query.as_str()) {
            out.push(i);
        }
    }
    assert(runs@.take(runs@.len() as int) == runs@);
    out
}

/// Runs grouped by state, each group in list order.
#[derive(Debug)]
pub struct RunGroups {
    pub active: Vec<TaskRecord>,
    pub completed: Vec<TaskRecord>,
    pub failed: Vec<TaskRecord>,
}

pub open spec fn is_active(run: TaskRecord) -> bool {
    run.status == TaskLifecycleStatus::Queued || run.status == TaskLifecycleStatus::Running
}

pub open spec fn active_pred() -> spec_fn(TaskRecord) -> bool {
    |r: TaskRecord| is_active(r)
}

pub open spec fn status_pred(s: TaskLifecycleStatus) -> spec_fn(TaskRecord) -> bool {
    |r: TaskRecord| r.status == s
}

/// Queued and running runs are active; the others go by their state.
pub fn grouped_runs_from_records(runs: &Vec<TaskRecord>) -> (r: RunGroups)
    ensures
        r.active@ == runs@.filter(active_pred()),
        r.completed@ == runs@.filter(status_pred(TaskLifecycleStatus::Completed)),
        r.failed@ == runs@.filter(status_pred(TaskLifecycleStatus::Failed)),
{
    let mut groups = RunGroups { active: Vec::new(), completed: Vec::new(), failed: Vec::new() };
    for i in 0..runs.len()
        invariant
            groups.active@ == runs@.take(i as int).filter(active_pred()),
            groups.completed@ == runs@.take(i as int).filter(status_pred(TaskLifecycleStatus::Completed)),
            groups.failed@ == runs@.take(i as int).filter(status_pred(TaskLifecycleStatus::Failed)),
    {
        let run = &runs[i];
        proof {
            assert(runs@.take(i + 1) == runs@.take(i as int).push(*run));
            runs@.take(i as int).lemma_filter_push(*run, active_pred());
            runs@.take(i as int).lemma_filter_push(*run, status_pred(TaskLifecycleStatus::Completed));
            runs@.take(i as int).lemma_filter_push(*run, status_pred(TaskLifecycleStatus::Failed));
        }
        let copy = run.duplicate();
        match run.status {
            TaskLifecycleStatus::Queued | TaskLifecycleStatus::Running => groups.active.push(copy),
            TaskLifecycleStatus::Completed => groups.completed.push(copy),
            TaskLifecycleStatus::Failed => groups.failed.push(copy),
        }
    }
    assert(runs@.take(runs@.len() as int) == runs@);
    groups
}

/// Every run lands in exactly one of the three groups: the groups' sizes
/// add up to the number of runs.
pub proof fn lemma_run_groups_partition(runs: Seq<TaskRecord>)
    ensures
        runs.filter(active_pred()).len() + runs.filter(status_pred(TaskLifecycleStatus::Completed)).len()
            + runs.filter(status_pred(TaskLifecycleStatus::Failed)).len() == runs.len(),
    decreases runs.len(),
{
    if runs.len() > 0 {
        let init = runs.drop_last();
        lemma_run_groups_partition(init);
        assert(init.push(runs.last()) == runs);
        init.lemma_filter_push(runs.last(), active_pred());
        init.lemma_filter_push(runs.last(), status_pred(TaskLifecycleStatus::Completed));
        init.lemma_filter_push(runs.last(), status_pred(TaskLifecycleStatus::Failed));
    } else {
        assert(runs.filter(active_pred()) =~= Seq::empty());
        assert(runs.filter(status_pred(TaskLifecycleStatus::Completed)) =~= Seq::empty());
        assert(runs.filter(status_pred(TaskLifecycleStatus::Failed)) =~= Seq::empty());
    }
}

/// The search box of the run list.
#[derive(Debug)]
pub struct RunSearch {
    pub search_query: String,
}

impl RunSearch {
    /// Sets the query; says whether it changed.
    pub fn set_search_query(&mut self, query: String) -> (changed: bool)
        ensures
            changed == (old(self).search_query@ != query@),
            final(self).search_query@ == query@,
    {
        if crate::text::same_text(self.search_query.as_str(), query.as_str()) {
            return false;
        }
        self.search_query = query;
        true
    }
}

/// What `str::to_lowercase` gives for a text (Unicode lower-casing).
pub uninterp spec fn lowercase_of(s: Seq<char>) -> Seq<char>;

/// std's `str::to_lowercase`.
#[verifier::external_body]
fn to_lowercase(s: &str) -> (r: String)
    ensures
        r@ == lowercase_of(s@),
{
    s.to_lowercase()
}

pub open spec fn name_matches(name: Seq<char>, q: Seq<char>) -> bool {
    q.len() == 0 || contains_seq(lowercase_of(name), q)
}

/// The positions of the names that match `q`, in order.
pub open spec fn matching_positions(names: Seq<String>, q: Seq<char>) -> Seq<usize>
    decreases names.len(),
{
    if names.len() == 0 {
        Seq::empty()
    } else {
        let rest = matching_positions(names.drop_last(), q);
        if name_matches(names.last()@, q) {
            rest.push((names.len() - 1) as usize)
        } else {
            rest
        }
    }
}

/// The picker's matches: the positions of the workflows whose lower-cased
/// name contains the trimmed, lower-cased query (all for an empty query),
/// and the selection kept within them. While loading there are none.
pub fn update_matches(
    workflow_names: &Vec<String>,
    query: &str,
    loading: bool,
    selected_index: usize,
) -> (r: (Vec<usize>, usize))
    ensures
        loading ==> r.0@.len() == 0 && r.1 == 0,
        !loading ==> r.0@ == matching_positions(workflow_names@, lowercase_of(trimmed(query@))),
        !loading ==> r.1 == if r.0@.len() == 0 {
            0
        } else if selected_index <= r.0@.len() - 1 {
            selected_index
        } else {
            (r.0@.len() - 1) as usize
        },
{
    if loading {
        return (Vec::new(), 0);
    }
    let q = to_lowercase(trim_text(query));
    let mut matches: Vec<usize> = Vec::new();
    for i in 0..workflow_names.len()
        invariant
            q@ == lowercase_of(trimmed(query@)),
            matches@ == matching_positions(workflow_names@.take(i as int), q@),
    {
        let name = to_lowercase(workflow_names[i].as_str());
        let hit = q.as_str().is_empty() || text_contains(name.as_str(), q.as_str());
        proof {
            let t = workflow_names@.take(i + 1);
            assert(t.drop_last() == workflow_names@.take(i as int));
            assert(t.last() == workflow_names@[i as int]);
        }
        if hit {
            matches.push(i);
        }
    }
    assert(workflow_names@.take(workflow_names@.len() as int) == workflow_names@);
    let n = matches.len();
    let selected = if n == 0 {
        0
    } else if selected_index <= n - 1 {
        selected_index
    } else {
        n - 1
    };
    (matches, selected)
}

/// The key the picker orders workflows by: the lower-cased name.
pub open spec fn name_key(w: WorkflowDefinitionRecord) -> Seq<char> {
    lowercase_of(w.name@)
}

/// A workflow with its sort key.
struct NamedWorkflow {
    key: String,
    workflow: WorkflowDefinitionRecord,
}

impl NamedWorkflow {
    #[verifier::type_invariant]
    spec fn keyed_by_name(self) -> bool {
        self.key@ == name_key(self.workflow)
    }
}

impl SortKey for NamedWorkflow {
    closed spec fn key_le(&self, other: &Self) -> bool {
        lex_le(self.key@, other.key@)
    }

    proof fn lemma_key_total(a: &Self, b: &Self) {
        lemma_lex_total(a.key@, b.key@);
    }

    proof fn lemma_key_trans(a: &Self, b: &Self, c: &Self) {
        lemma_lex_trans(a.key@, b.key@, c.key@);
    }

    fn key_le_exec(&self, other: &Self) -> (r: bool) {
        text_le(self.key.as_str(), other.key.as_str())
    }
}

spec fn workflow_of(n: NamedWorkflow) -> WorkflowDefinitionRecord {
    n.workflow
}

/// Whether a workflow's lower-cased name is that of `y`.
pub open spec fn same_name_as(y: WorkflowDefinitionRecord) -> spec_fn(WorkflowDefinitionRecord) -> bool {
    |w: WorkflowDefinitionRecord| name_key(w) == name_key(y)
}

/// The workflows ordered by lower-cased name, as the picker lists them;
/// workflows whose lower-cased names are equal keep their order.
pub fn sort_workflows_by_name(workflows: Vec<WorkflowDefinitionRecord>) -> (r: Vec<WorkflowDefinitionRecord>)
    ensures
        r@.to_multiset() == workflows@.to_multiset(),
        forall|i: int, j: int| 0 <= i < j < r@.len() ==> lex_le(name_key(r@[i]), name_key(r@[j])),
        forall|y: WorkflowDefinitionRecord| #[trigger] r@.filter(same_name_as(y)) == workflows@.filter(same_name_as(y)),
{
    let ghost input = workflows@;
    assert(input.len() == workflows.len());
    let mut rest = workflows;
    let mut named: Vec<NamedWorkflow> = Vec::new();
    let mut k: usize = 0;
    while rest.len() > 0
        invariant
            input.len() <= usize::MAX,
            k + rest@.len() == input.len(),
            rest@ == input.skip(k as int),
            named@.map_values(|n: NamedWorkflow| workflow_of(n)) == input.take(k as int),
            forall|j: int| 0 <= j < named@.len() ==> (#[trigger] named@[j]).key@ == name_key(named@[j].workflow),
        decreases rest@.len(),
    {
        let w = rest.remove(0);
        proof {
            assert(w == input[k as int]);
            assert(input.take(k + 1) == input.take(k as int).push(w));
            assert(rest@ == input.skip(k + 1));
        }
        let key = to_lowercase(w.name.as_str());
        let ghost before = named@;
        named.push(NamedWorkflow { key, workflow: w });
        proof {
            assert(named@.map_values(|n: NamedWorkflow| workflow_of(n)) =~= before.map_values(
                |n: NamedWorkflow| workflow_of(n),
            ).push(w));
        }
        k = k + 1;
    }
    assert(input.take(input.len() as int) == input);
    let ghost named_all = named@;
    let sorted = sort_by_key(named);
    let ghost sorted_all = sorted@;
    assert(sorted_all.len() == sorted.len());
    proof {
        lemma_map_values_multiset(sorted_all, named_all, |n: NamedWorkflow| workflow_of(n));
    }
    let mut rest = sorted;
    let mut out: Vec<WorkflowDefinitionRecord> = Vec::new();
    let mut m: usize = 0;
    while rest.len() > 0
        invariant
            sorted_all.len() <= usize::MAX,
            m + rest@.len() == sorted_all.len(),
            rest@ == sorted_all.skip(m as int),
            out@ == sorted_all.take(m as int).map_values(|n: NamedWorkflow| workflow_of(n)),
            forall|j: int| 0 <= j < m ==> (#[trigger] sorted_all[j]).key@ == name_key(sorted_all[j].workflow),
        decreases rest@.len(),
    {
        let item = rest.remove(0);
        proof {
            use_type_invariant(&item);
            assert(item == sorted_all[m as int]);
            assert(rest@ == sorted_all.skip(m + 1));
        }
        let ghost before = out@;
        let NamedWorkflow { key: _, workflow } = item;
        out.push(workflow);
        proof {
            assert(sorted_all.take(m + 1) == sorted_all.take(m as int).push(item));
            assert(out@ =~= sorted_all.take(m + 1).map_values(|n: NamedWorkflow| workflow_of(n)));
        }
        m = m + 1;
    }
    proof {
        assert(sorted_all.take(sorted_all.len() as int) == sorted_all);
        assert forall|i: int, j: int| 0 <= i < j < out@.len() implies lex_le(name_key(out@[i]), name_key(out@[j])) by {
            assert(sorted_all[i].key_le(&sorted_all[j]));
        }
        assert forall|y: WorkflowDefinitionRecord| #[trigger] out@.filter(same_name_as(y)) == input.filter(
            same_name_as(y),
        ) by {
            lemma_sorted_names_keep_order(named_all, sorted_all, y);
        }
    }
    out
}

/// The stability of the sort, read back on the workflows.
proof fn lemma_sorted_names_keep_order(
    named_all: Seq<NamedWorkflow>,
    sorted_all: Seq<NamedWorkflow>,
    y: WorkflowDefinitionRecord,
)
    requires
        sorted_all.to_multiset() == named_all.to_multiset(),
        forall|z: NamedWorkflow| #[trigger] sorted_all.filter(same_key(z)) == named_all.filter(same_key(z)),
        forall|j: int| 0 <= j < named_all.len() ==> (#[trigger] named_all[j]).key@ == name_key(named_all[j].workflow),
        forall|j: int| 0 <= j < sorted_all.len() ==> (#[trigger] sorted_all[j]).key@ == name_key(
            sorted_all[j].workflow,
        ),
    ensures
        sorted_all.map_values(|n: NamedWorkflow| workflow_of(n)).filter(same_name_as(y)) == named_all.map_values(
            |n: NamedWorkflow| workflow_of(n),
        ).filter(same_name_as(y)),
{
    broadcast use vstd::seq_lib::group_to_multiset_ensures;

    let f = |n: NamedWorkflow| workflow_of(n);
    let p = same_name_as(y);
    let q = |n: NamedWorkflow| name_key(n.workflow) == name_key(y);
    lemma_map_filter(sorted_all, f, p, q);
    lemma_map_filter(named_all, f, p, q);
    if exists|k: int| 0 <= k < named_all.len() && q(named_all[k]) {
        let k = choose|k: int| 0 <= k < named_all.len() && q(named_all[k]);
        let e = named_all[k];
        assert(e.key@ == name_key(y));
        assert forall|i: int| 0 <= i < named_all.len() implies same_key(e)(#[trigger] named_all[i]) == q(
            named_all[i],
        ) by {
            let n = named_all[i];
            if lex_le(e.key@, n.key@) && lex_le(n.key@, e.key@) {
                lemma_lex_antisym(e.key@, n.key@);
            }
            if n.key@ == e.key@ {
                lemma_lex_refl(e.key@);
            }
        }
        assert forall|i: int| 0 <= i < sorted_all.len() implies same_key(e)(#[trigger] sorted_all[i]) == q(
            sorted_all[i],
        ) by {
            let n = sorted_all[i];
            if lex_le(e.key@, n.key@) && lex_le(n.key@, e.key@) {
                lemma_lex_antisym(e.key@, n.key@);
            }
            if n.key@ == e.key@ {
                lemma_lex_refl(e.key@);
            }
        }
        lemma_filter_congruent(named_all, same_key(e), q);
        lemma_filter_congruent(sorted_all, same_key(e), q);
        assert(sorted_all.filter(same_key(e)) == named_all.filter(same_key(e)));
    } else {
        assert forall|i: int| 0 <= i < sorted_all.len() implies !q(#[trigger] sorted_all[i]) by {
            let n = sorted_all[i];
            assert(sorted_all.contains(n));
            assert(sorted_all.to_multiset().count(n) > 0);
            assert(named_all.to_multiset().count(n) > 0);
            assert(named_all.contains(n));
            let k = choose|k: int| 0 <= k < named_all.len() && named_all[k] == n;
            assert(!q(named_all[k]));
        }
        named_all.lemma_all_neg_filter_empty(q);
        sorted_all.lemma_all_neg_filter_empty(q);
        assert(named_all.filter(q) =~= Seq::<NamedWorkflow>::empty());
        assert(sorted_all.filter(q) =~= Seq::<NamedWorkflow>::empty());
    }
}

pub open spec fn workflow_names(ws: Seq<WorkflowDefinitionRecord>) -> Seq<String> {
    ws.map_values(|w: WorkflowDefinitionRecord| w.name)
}

/// What the run list shows.
#[derive(Debug)]
pub enum RunsContent {
    Loading,
    Error(String),
    NoRuns,
    NoMatches,
    Groups(RunGroups),
}

/// The run list: the runs last fetched, the search box, and whether a
/// fetch is running for an empty list or failed.
#[derive(Debug)]
pub struct WorkflowRunsView {
    pub runs: Vec<TaskRecord>,
    pub search: RunSearch,
    pub loading: bool,
    pub error: Option<String>,
}

impl WorkflowRunsView {
    /// No runs yet, no search; loading until the first fetch ends.
    pub fn new() -> (r: Self)
        ensures
            r.runs@.len() == 0,
            r.search.search_query@.len() == 0,
            r.loading,
            r.error is None,
    {
        WorkflowRunsView {
            runs: Vec::new(),
            search: RunSearch { search_query: String::new() },
            loading: true,
            error: None,
        }
    }

    /// A fetch starts: the list shows loading only while it has no runs,
    /// and the last error is dropped.
    pub fn begin_fetch(&mut self)
        ensures
            final(self).loading == (old(self).runs@.len() == 0),
            final(self).error is None,
            final(self).runs == old(self).runs,
            final(self).search == old(self).search,
    {
        self.loading = self.runs.len() == 0;
        self.error = None;
    }

    /// A fetch ended: its runs replace the list, or its error is shown
    /// over the runs already there.
    pub fn finish_fetch(&mut self, result: Result<Vec<TaskRecord>, String>)
        ensures
            !final(self).loading,
            final(self).search == old(self).search,
            match result {
                Ok(runs) => final(self).runs == runs && final(self).error == old(self).error,
                Err(e) => final(self).runs == old(self).runs && final(self).error == Some(e),
            },
    {
        self.loading = false;
        match result {
            Ok(runs) => self.runs = runs,
            Err(e) => self.error = Some(e),
        }
    }

    /// Discarding a run failed: the error is shown. (After a discard that
    /// worked, the list is fetched again.)
    pub fn discard_failed(&mut self, error: String)
        ensures
            !final(self).loading,
            final(self).error == Some(error),
            final(self).runs == old(self).runs,
            final(self).search == old(self).search,
    {
        self.error = Some(error);
        self.loading = false;
    }

    /// What the run list shows: `Loading...` while the first fetch runs,
    /// else the last error, else that there are no runs, else that none
    /// matches the search, else the matching runs grouped by state.
    pub fn content(&self) -> (r: RunsContent)
        ensures
            if self.loading && self.runs@.len() == 0 {
                r is Loading
            } else if self.error is Some {
                r == RunsContent::Error(self.error->0)
            } else if self.runs@.len() == 0 {
                r is NoRuns
            } else if filtered(self.runs@, self.search.search_query@).len() == 0 {
                r is NoMatches
            } else {
                r matches RunsContent::Groups(g) && g.active@ == filtered(self.runs@, self.search.search_query@).filter(
                    active_pred(),
                ) && g.completed@ == filtered(self.runs@, self.search.search_query@).filter(
                    status_pred(TaskLifecycleStatus::Completed),
                ) && g.failed@ == filtered(self.runs@, self.search.search_query@).filter(
                    status_pred(TaskLifecycleStatus::Failed),
                )
            },
    {
        if self.loading && self.runs.len() == 0 {
            return RunsContent::Loading;
        }
        match &self.error {
            Some(e) => return RunsContent::Error(e.clone()),
            None => {},
        }
        if self.runs.len() == 0 {
            return RunsContent::NoRuns;
        }
        let positions = self.filtered_runs();
        if positions.len() == 0 {
            return RunsContent::NoMatches;
        }
        let ghost kept = filtered(self.runs@, self.search.search_query@);
        let mut records: Vec<TaskRecord> = Vec::new();
        for k in 0..positions.len()
            invariant
                positions@.len() == kept.len(),
                forall|i: int|
                    0 <= i < positions@.len() ==> (#[trigger] positions@[i]) < self.runs@.len() && self.runs@[positions@[i] as int]
                        == kept[i],
                records@ == kept.take(k as int),
        {
            let record = self.runs[positions[k]].duplicate();
            records.push(record);
            assert(records@ =~= kept.take(k + 1));
        }
        assert(kept.take(kept.len() as int) == kept);
        RunsContent::Groups(grouped_runs_from_records(&records))
    }

    /// The positions of the runs the search keeps, in order.
    pub fn filtered_runs(&self) -> (r: Vec<usize>)
        ensures
            r@.len() == filtered(self.runs@, self.search.search_query@).len(),
            forall|i: int|
                0 <= i < r@.len() ==> (#[trigger] r@[i]) < self.runs@.len() && self.runs@[r@[i] as int]
                    == filtered(self.runs@, self.search.search_query@)[i],
            forall|i: int, j: int| 0 <= i < j < r@.len() ==> r@[i] < r@[j],
    {
        filtered_runs(&self.runs, self.search.search_query.as_str())
    }
}

/// The positions `0..n`.
pub open spec fn all_positions(n: nat) -> Seq<usize> {
    Seq::new(n, |i: int| i as usize)
}

/// `ix` kept within `n` matches: the last one at most, `0` when there are
/// none.
pub open spec fn clamped(ix: usize, n: nat) -> usize {
    if n == 0 {
        0
    } else if ix <= n - 1 {
        ix
    } else {
        (n - 1) as usize
    }
}

/// The list of the run picker: the workflows, the positions of those that
/// match the query, the selected match, and whether the list is still
/// loading or failed to load.
#[derive(Debug)]
pub struct WorkflowPickerDelegate {
    pub workflows: Vec<WorkflowDefinitionRecord>,
    pub matches: Vec<usize>,
    pub selected_index: usize,
    pub loading: bool,
    pub load_error: Option<String>,
}

fn positions(n: usize) -> (r: Vec<usize>)
    ensures
        r@ == all_positions(n as nat),
{
    let mut r: Vec<usize> = Vec::new();
    for i in 0..n
        invariant
            r@ == all_positions(i as nat),
    {
        r.push(i);
        assert(r@ =~= all_positions((i + 1) as nat));
    }
    r
}

impl WorkflowPickerDelegate {
    /// An empty list, loading.
    pub fn new() -> (r: Self)
        ensures
            r.workflows@.len() == 0,
            r.matches@.len() == 0,
            r.selected_index == 0,
            r.loading,
            r.load_error is None,
    {
        WorkflowPickerDelegate {
            workflows: Vec::new(),
            matches: Vec::new(),
            selected_index: 0,
            loading: true,
            load_error: None,
        }
    }

    /// The workflows arrived: all of them match, the first is selected.
    pub fn set_workflows(&mut self, workflows: Vec<WorkflowDefinitionRecord>)
        ensures
            final(self).workflows == workflows,
            final(self).matches@ == all_positions(workflows@.len()),
            final(self).selected_index == 0,
            !final(self).loading,
            final(self).load_error is None,
    {
        let n = workflows.len();
        self.workflows = workflows;
        self.matches = positions(n);
        self.selected_index = 0;
        self.loading = false;
        self.load_error = None;
    }

    /// The workflows could not be loaded: the list is empty and shows why.
    pub fn set_load_error(&mut self, message: String)
        ensures
            final(self).workflows@.len() == 0,
            final(self).matches@.len() == 0,
            final(self).selected_index == 0,
            !final(self).loading,
            final(self).load_error == Some(message),
    {
        self.workflows = Vec::new();
        self.matches = Vec::new();
        self.selected_index = 0;
        self.loading = false;
        self.load_error = Some(message);
    }

    /// Takes in what loading the workflows gave: the workflows ordered by
    /// lower-cased name, or the reason they could not be loaded.
    pub fn finish_loading(&mut self, result: Result<Vec<WorkflowDefinitionRecord>, String>)
        ensures
            match result {
                Ok(ws) => {
                    &&& final(self).workflows@.to_multiset() == ws@.to_multiset()
                    &&& forall|i: int, j: int|
                        0 <= i < j < final(self).workflows@.len() ==> lex_le(
                            name_key(final(self).workflows@[i]),
                            name_key(final(self).workflows@[j]),
                        )
                    &&& forall|y: WorkflowDefinitionRecord| #[trigger] final(self).workflows@.filter(same_name_as(y))
                        == ws@.filter(same_name_as(y))
                    &&& final(self).matches@ == all_positions(ws@.len())
                    &&& final(self).selected_index == 0
                    &&& !final(self).loading
                    &&& final(self).load_error is None
                },
                Err(m) => {
                    &&& final(self).workflows@.len() == 0
                    &&& final(self).matches@.len() == 0
                    &&& final(self).selected_index == 0
                    &&& !final(self).loading
                    &&& final(self).load_error == Some(m)
                },
            },
    {
        match result {
            Ok(ws) => {
                let ghost given = ws@;
                let sorted = sort_workflows_by_name(ws);
                proof {
                    broadcast use vstd::seq_lib::group_to_multiset_ensures;

                    assert(sorted@.to_multiset().len() == given.to_multiset().len());
                }
                self.set_workflows(sorted);
            },
            Err(m) => self.set_load_error(m),
        }
    }

    /// How many workflows match.
    pub fn match_count(&self) -> (r: usize)
        ensures
            r == self.matches@.len(),
    {
        self.matches.len()
    }

    /// Selects match `ix`, kept within the matches.
    pub fn set_selected_index(&mut self, ix: usize)
        ensures
            final(self).selected_index == clamped(ix, old(self).matches@.len()),
            final(self).workflows == old(self).workflows,
            final(self).matches == old(self).matches,
            final(self).loading == old(self).loading,
            final(self).load_error == old(self).load_error,
    {
        let n = self.matches.len();
        self.selected_index = if n == 0 {
            0
        } else if ix <= n - 1 {
            ix
        } else {
            n - 1
        };
    }

    /// Matches the workflows against the query: none while loading; else
    /// the positions of the workflows whose lower-cased name contains the
    /// trimmed, lower-cased query (all for an empty one), the selection kept
    /// within them.
    pub fn update_matches(&mut self, query: &str)
        ensures
            old(self).loading ==> final(self).matches@.len() == 0 && final(self).selected_index == 0,
            !old(self).loading ==> final(self).matches@ == matching_positions(
                workflow_names(old(self).workflows@),
                lowercase_of(trimmed(query@)),
            ),
            !old(self).loading ==> final(self).selected_index == clamped(
                old(self).selected_index,
                final(self).matches@.len(),
            ),
            final(self).workflows == old(self).workflows,
            final(self).loading == old(self).loading,
            final(self).load_error == old(self).load_error,
    {
        let mut names: Vec<String> = Vec::new();
        for i in 0..self.workflows.len()
            invariant
                names@ == workflow_names(self.workflows@.take(i as int)),
        {
            names.push(self.workflows[i].name.clone());
            assert(names@ =~= workflow_names(self.workflows@.take(i + 1)));
        }
        assert(self.workflows@.take(self.workflows@.len() as int) == self.workflows@);
        let (matches, selected) = update_matches(&names, query, self.loading, self.selected_index);
        self.matches = matches;
        self.selected_index = selected;
    }

    /// The position of the workflow a confirm picks: the selected match,
    /// unless the confirm is the secondary one or there is none.
    pub fn confirm(&self, secondary: bool) -> (r: Option<usize>)
        ensures
            r == if !secondary && self.selected_index < self.matches@.len() && self.matches@[self.selected_index as int]
                < self.workflows@.len() {
                Some(self.matches@[self.selected_index as int])
            } else {
                None::<usize>
            },
    {
        if secondary {
            return None;
        }
        if self.selected_index >= self.matches.len() {
            return None;
        }
        let i = self.matches[self.selected_index];
        if i < self.workflows.len() {
            Some(i)
        } else {
            None
        }
    }
}

/// Why a run cannot start.
#[derive(Clone, Copy, Debug, PartialEq, Eq, Structural)]
pub enum RunFormError {
    NoWorkflow,
    MissingTitle,
    MissingSourceRepo,
}

impl RunFormError {
    /// The message the form shows.
    pub fn message(self) -> (r: &'static str)
        ensures
            r@ == match self {
                RunFormError::NoWorkflow => "Select a workflow first"@,
                RunFormError::MissingTitle => "Title is required"@,
                RunFormError::MissingSourceRepo => "Source repo is required"@,
            },
    {
        match self {
            RunFormError::NoWorkflow => "Select a workflow first",
            RunFormError::MissingTitle => "Title is required",
            RunFormError::MissingSourceRepo => "Source repo is required",
        }
    }
}

/// The run request a filled form makes: a workflow must be chosen, the
/// trimmed title and repository must not be empty, and an empty trimmed
/// description is left out.
pub fn run_request_from_form(
    has_workflow: bool,
    title: &str,
    source_repo: &str,
    task_description: &str,
) -> (r: Result<WorkflowRunRequest, RunFormError>)
    ensures
        !has_workflow ==> r == Err::<WorkflowRunRequest, RunFormError>(RunFormError::NoWorkflow),
        has_workflow && trimmed(title@).len() == 0 ==> r == Err::<WorkflowRunRequest, RunFormError>(
            RunFormError::MissingTitle,
        ),
        has_workflow && trimmed(title@).len() > 0 && trimmed(source_repo@).len() == 0 ==> r == Err::<
            WorkflowRunRequest,
            RunFormError,
        >(RunFormError::MissingSourceRepo),
        has_workflow && trimmed(title@).len() > 0 && trimmed(source_repo@).len() > 0 ==> (r matches Ok(
            req,
        ) && req.title@ == trimmed(title@) && req.source_repo@ == trimmed(source_repo@)
            && opt_view(req.task_description) == if trimmed(task_description@).len() == 0 {
            None
        } else {
            Some(trimmed(task_description@))
        }),
{
    if !has_workflow {
        return Err(RunFormError::NoWorkflow);
    }
    let title = trim_text(title);
    let source_repo = trim_text(source_repo);
    let description = trim_text(task_description);
    if title.is_empty() {
        return Err(RunFormError::MissingTitle);
    }
    if source_repo.is_empty() {
        return Err(RunFormError::MissingSourceRepo);
    }
    Ok(
        WorkflowRunRequest {
            title: title.to_owned(),
            source_repo: source_repo.to_owned(),
            task_description: if description.is_empty() {
                None
            } else {
                Some(description.to_owned())
            },
        },
    )
}

/// The run shown when its status cannot be fetched: the task and its
/// workflow, with nothing else known.
pub fn fallback_task_status(task: TaskRecord, workflow: WorkflowDefinitionRecord) -> (r: TaskStatusResponse)
    ensures
        r.task == task,
        r.workflow == Some(workflow),
        r.workspace_path is None,
        r.remote_target is None,
        r.nodes@.len() == 0,
        r.outcome is None && r.agent is None && r.lease is None && r.validation is None
            && r.integration is None && r.failure_message is None && r.agents is None,
{
    TaskStatusResponse {
        task,
        workflow: Some(workflow),
        workspace_path: None,
        remote_target: None,
        nodes: Vec::new(),
        outcome: None,
        agent: None,
        lease: None,
        validation: None,
        integration: None,
        failure_message: None,
        agents: None,
    }
}

} // verus!
