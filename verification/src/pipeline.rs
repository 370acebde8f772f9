//! Release pipelines: steps that name each other as dependencies, the order in which they
//! can run, what each of them needs before it can run, and the report of one run.

use vstd::prelude::*;
use vstd::string::*;
use crate::error::{Error, ErrorView};
use crate::graph::{
    arrange, arrangement_of, distinct, graph_of, has_cycle, in_range, ints, lemma_arrangement_of,
    lemma_cycle_iff_stuck, lemma_pending_of, pending_of, stuck, well_formed,
};
use crate::search::{
    first_where, lemma_first_where, lemma_first_where_is, lemma_position, lemma_position_is,
    position,
};
use crate::text::{copy_opt_text, copy_texts, opt_text, same_text, texts};

verus! {

/// A value of a step's configuration. What no built-in step reads is kept as JSON text.
#[derive(Debug)]
pub enum ConfigValue {
    Bool(bool),
    Text(String),
    Json(String),
}

pub enum ConfigValueView {
    Bool(bool),
    Text(Seq<char>),
    Json(Seq<char>),
}

impl View for ConfigValue {
    type V = ConfigValueView;

    open spec fn view(&self) -> ConfigValueView {
        match *self {
            ConfigValue::Bool(b) => ConfigValueView::Bool(b),
            ConfigValue::Text(s) => ConfigValueView::Text(s@),
            ConfigValue::Json(s) => ConfigValueView::Json(s@),
        }
    }
}

impl Clone for ConfigValue {
    fn clone(&self) -> (r: Self)
        ensures
            r@ == self@,
    {
        match self {
            ConfigValue::Bool(b) => ConfigValue::Bool(*b),
            ConfigValue::Text(s) => ConfigValue::Text(s.clone()),
            ConfigValue::Json(s) => ConfigValue::Json(s.clone()),
        }
    }
}

/// One entry of a step's configuration.
#[derive(Debug)]
pub struct ConfigEntry {
    pub key: String,
    pub value: ConfigValue,
}

pub struct ConfigEntryView {
    pub key: Seq<char>,
    pub value: ConfigValueView,
}

impl View for ConfigEntry {
    type V = ConfigEntryView;

    open spec fn view(&self) -> ConfigEntryView {
        ConfigEntryView { key: self.key@, value: self.value@ }
    }
}

impl Clone for ConfigEntry {
    fn clone(&self) -> (r: Self)
        ensures
            r@ == self@,
    {
        ConfigEntry { key: self.key.clone(), value: self.value.clone() }
    }
}

/// The entries of a configuration, in order.
pub open spec fn config_view(c: Seq<ConfigEntry>) -> Seq<ConfigEntryView> {
    Seq::new(c.len(), |i: int| c[i]@)
}

/// A copy of a configuration.
pub fn copy_config(c: &Vec<ConfigEntry>) -> (r: Vec<ConfigEntry>)
    ensures
        config_view(r@) == config_view(c@),
{
    let mut out: Vec<ConfigEntry> = Vec::new();
    let mut i: usize = 0;
    while i < c.len()
        invariant
            i <= c.len(),
            out@.len() == i,
            forall|j: int| 0 <= j < i ==> out@[j]@ == c@[j]@,
        decreases c.len() - i,
    {
        out.push(c[i].clone());
        i += 1;
    }
    assert(config_view(out@) =~= config_view(c@));
    out
}

/// One declared unit of release work.
#[derive(Debug)]
pub struct PipelineStep {
    pub id: String,
    pub step_type: String,
    pub label: Option<String>,
    pub needs: Vec<String>,
    pub config: Vec<ConfigEntry>,
}

pub struct StepView {
    pub id: Seq<char>,
    pub step_type: Seq<char>,
    pub label: Option<Seq<char>>,
    pub needs: Seq<Seq<char>>,
    pub config: Seq<ConfigEntryView>,
}

impl View for PipelineStep {
    type V = StepView;

    open spec fn view(&self) -> StepView {
        StepView {
            id: self.id@,
            step_type: self.step_type@,
            label: opt_text(self.label),
            needs: texts(self.needs@),
            config: config_view(self.config@),
        }
    }
}

impl Clone for PipelineStep {
    fn clone(&self) -> (r: Self)
        ensures
            r@ == self@,
    {
        PipelineStep {
            id: self.id.clone(),
            step_type: self.step_type.clone(),
            label: copy_opt_text(&self.label),
            needs: copy_texts(&self.needs),
            config: copy_config(&self.config),
        }
    }
}

/// The steps of a list, in order.
pub open spec fn step_views(steps: Seq<PipelineStep>) -> Seq<StepView> {
    Seq::new(steps.len(), |i: int| steps[i]@)
}

/// The ids of the steps, in order.
pub open spec fn step_ids(steps: Seq<StepView>) -> Seq<Seq<char>> {
    Seq::new(steps.len(), |i: int| steps[i].id)
}

/// The id at `j` stands at an earlier place too.
pub open spec fn repeats(ids: Seq<Seq<char>>, j: int) -> bool {
    ids.take(j).contains(ids[j])
}

/// Whether the id at a place stands at an earlier place too.
pub open spec fn repeats_in(ids: Seq<Seq<char>>) -> spec_fn(int) -> bool {
    |j: int| repeats(ids, j)
}

/// The first place whose id stands at an earlier place too, or the length where ids differ.
pub open spec fn first_repeat(ids: Seq<Seq<char>>) -> int {
    first_where(ids.len() as int, repeats_in(ids))
}

/// Entry `k` of the dependencies of step `c` names no step of the list.
pub open spec fn unknown_need(steps: Seq<StepView>, c: int, k: int) -> bool {
    !step_ids(steps).contains(steps[c].needs[k])
}

/// Whether a dependency of step `c` names no step of the list.
pub open spec fn unknown_in(steps: Seq<StepView>, c: int) -> spec_fn(int) -> bool {
    |k: int| unknown_need(steps, c, k)
}

/// The first dependency of step `c` that names no step, or the number of its dependencies.
pub open spec fn first_unknown_need(steps: Seq<StepView>, c: int) -> int {
    first_where(steps[c].needs.len() as int, unknown_in(steps, c))
}

/// Whether a step has a dependency that names no step of the list.
pub open spec fn has_unknown(steps: Seq<StepView>) -> spec_fn(int) -> bool {
    |c: int| first_unknown_need(steps, c) < steps[c].needs.len()
}

/// The first step with a dependency that names no step, or the number of steps.
pub open spec fn first_unknown_step(steps: Seq<StepView>) -> int {
    first_where(steps.len() as int, has_unknown(steps))
}

/// For each step, the positions of the steps it depends on.
pub open spec fn dependency_graph(steps: Seq<StepView>) -> Seq<Seq<int>> {
    Seq::new(
        steps.len(),
        |c: int|
            Seq::new(steps[c].needs.len(), |k: int| position(step_ids(steps), steps[c].needs[k])),
    )
}

/// Some step names a dependency.
pub open spec fn any_needs(steps: Seq<StepView>) -> bool {
    exists|c: int| 0 <= c < steps.len() && #[trigger] steps[c].needs.len() > 0
}

/// The warnings of a planned order.
pub open spec fn order_warnings(steps: Seq<StepView>) -> Seq<Seq<char>> {
    if any_needs(steps) {
        seq!["Steps reordered based on dependencies"@]
    } else {
        Seq::empty()
    }
}

/// The steps at the given positions.
pub open spec fn pick_steps(steps: Seq<StepView>, order: Seq<int>) -> Seq<StepView> {
    Seq::new(order.len(), |i: int| steps[order[i]])
}

/// The ids of the steps at the given positions.
pub open spec fn pick_ids(steps: Seq<StepView>, order: Seq<int>) -> Seq<Seq<char>> {
    Seq::new(order.len(), |i: int| steps[order[i]].id)
}

/// The order in which the steps run, with its warnings, or the reason why they cannot.
///
/// A list of at most one step is taken as it stands. In a longer list ids must differ and
/// every dependency must name a step. The steps that depend on nothing come first, as they
/// stand in the list; each other step follows once the last step it depends on is placed,
/// steps that become ready together keeping the order of the list.
pub open spec fn planned_order(steps: Seq<StepView>, field: Seq<char>) -> Result<
    (Seq<StepView>, Seq<Seq<char>>),
    ErrorView,
> {
    let ids = step_ids(steps);
    let g = dependency_graph(steps);
    if steps.len() <= 1 {
        Ok((steps, Seq::empty()))
    } else if first_repeat(ids) < ids.len() {
        Err(ErrorView::DuplicateStepId { field, id: ids[first_repeat(ids)] })
    } else if first_unknown_step(steps) < steps.len() {
        let c = first_unknown_step(steps);
        let k = first_unknown_need(steps, c);
        Err(ErrorView::UnknownDependency { field, step_id: ids[c], need: steps[c].needs[k] })
    } else if has_cycle(g) {
        Err(ErrorView::DependencyCycle { field, pending: pick_ids(steps, pending_of(g)) })
    } else {
        Ok((pick_steps(steps, arrangement_of(g)), order_warnings(steps)))
    }
}

/// `ordered` holds the steps of `steps`, each once: the step at each place of `ordered` is
/// the one whose place `order` names.
pub open spec fn reorders(steps: Seq<StepView>, order: Seq<int>, ordered: Seq<StepView>) -> bool {
    &&& order.len() == steps.len()
    &&& in_range(order, steps.len() as int)
    &&& distinct(order)
    &&& ordered == pick_steps(steps, order)
}

/// `ordered` holds the steps of `steps`, each once.
pub open spec fn is_reordering(steps: Seq<StepView>, ordered: Seq<StepView>) -> bool {
    exists|order: Seq<int>| reorders(steps, order, ordered)
}

/// What `order_steps` returned, with its strings as texts.
pub open spec fn order_view(r: Result<(Vec<PipelineStep>, Vec<String>), Error>) -> Result<
    (Seq<StepView>, Seq<Seq<char>>),
    ErrorView,
> {
    match r {
        Ok((ordered, warnings)) => Ok((step_views(ordered@), texts(warnings@))),
        Err(e) => Err(e@),
    }
}

/// The position of the first step below `upto` whose id is `id`.
pub fn find_step(steps: &Vec<PipelineStep>, upto: usize, id: &str) -> (r: Option<usize>)
    requires
        upto <= steps@.len(),
    ensures
        match r {
            Some(p) => p < upto && position(step_ids(step_views(steps@)).take(upto as int), id@)
                == p,
            None => position(step_ids(step_views(steps@)).take(upto as int), id@) == -1,
        },
{
    let ghost ids = step_ids(step_views(steps@)).take(upto as int);
    let mut i: usize = 0;
    while i < upto
        invariant
            i <= upto <= steps@.len(),
            ids == step_ids(step_views(steps@)).take(upto as int),
            forall|j: int| 0 <= j < i ==> ids[j] != id@,
        decreases upto - i,
    {
        if same_text(steps[i].id.as_str(), id) {
            proof {
                assert(ids[i as int] == id@);
                lemma_position_is(ids, id@, i as int);
            }
            return Some(i);
        }
        i += 1;
    }
    proof {
        lemma_position_is(ids, id@, -1);
    }
    None
}

/// A copy of the steps.
pub fn copy_steps(steps: &Vec<PipelineStep>) -> (r: Vec<PipelineStep>)
    ensures
        step_views(r@) == step_views(steps@),
{
    let mut out: Vec<PipelineStep> = Vec::new();
    let mut i: usize = 0;
    while i < steps.len()
        invariant
            i <= steps.len(),
            out@.len() == i,
            forall|j: int| 0 <= j < i ==> out@[j]@ == steps@[j]@,
        decreases steps.len() - i,
    {
        out.push(steps[i].clone());
        i += 1;
    }
    assert(step_views(out@) =~= step_views(steps@));
    out
}

/// Copies of the steps at the given positions.
fn pick(steps: &Vec<PipelineStep>, order: &Vec<usize>) -> (r: Vec<PipelineStep>)
    requires
        forall|i: int| 0 <= i < order@.len() ==> order@[i] < steps@.len(),
    ensures
        step_views(r@) == pick_steps(step_views(steps@), ints(order@)),
{
    let mut out: Vec<PipelineStep> = Vec::new();
    let mut i: usize = 0;
    while i < order.len()
        invariant
            i <= order.len(),
            out@.len() == i,
            forall|i: int| 0 <= i < order@.len() ==> order@[i] < steps@.len(),
            forall|j: int| 0 <= j < i ==> out@[j]@ == steps@[order@[j] as int]@,
        decreases order.len() - i,
    {
        out.push(steps[order[i]].clone());
        i += 1;
    }
    assert(step_views(out@) =~= pick_steps(step_views(steps@), ints(order@)));
    out
}

/// The ids of the steps at the given positions.
fn pick_names(steps: &Vec<PipelineStep>, order: &Vec<usize>) -> (r: Vec<String>)
    requires
        forall|i: int| 0 <= i < order@.len() ==> order@[i] < steps@.len(),
    ensures
        texts(r@) == pick_ids(step_views(steps@), ints(order@)),
{
    let mut out: Vec<String> = Vec::new();
    let mut i: usize = 0;
    while i < order.len()
        invariant
            i <= order.len(),
            out@.len() == i,
            forall|i: int| 0 <= i < order@.len() ==> order@[i] < steps@.len(),
            forall|j: int| 0 <= j < i ==> out@[j]@ == steps@[order@[j] as int].id@,
        decreases order.len() - i,
    {
        out.push(steps[order[i]].id.clone());
        i += 1;
    }
    assert(texts(out@) =~= pick_ids(step_views(steps@), ints(order@)));
    out
}

/// Whether some step names a dependency.
fn names_dependencies(steps: &Vec<PipelineStep>) -> (r: bool)
    ensures
        r == any_needs(step_views(steps@)),
{
    let mut i: usize = 0;
    while i < steps.len()
        invariant
            i <= steps.len(),
            forall|c: int| 0 <= c < i ==> (#[trigger] step_views(steps@)[c]).needs.len() == 0,
        decreases steps.len() - i,
    {
        if steps[i].needs.len() > 0 {
            assert(step_views(steps@)[i as int].needs.len() > 0);
            return true;
        }
        i += 1;
    }
    false
}

/// For each step the positions of the steps it depends on, or the first dependency that
/// names no step.
fn resolve_needs(steps: &Vec<PipelineStep>, field: &str) -> (r: Result<Vec<Vec<usize>>, Error>)
    ensures
        match r {
            Ok(deps) => first_unknown_step(step_views(steps@)) == steps@.len() && graph_of(deps@)
                == dependency_graph(step_views(steps@)) && well_formed(graph_of(deps@)),
            Err(e) => {
                let c = first_unknown_step(step_views(steps@));
                let k = first_unknown_need(step_views(steps@), c);
                &&& c < steps@.len()
                &&& e@ == ErrorView::UnknownDependency {
                    field: field@,
                    step_id: steps@[c]@.id,
                    need: steps@[c]@.needs[k],
                }
            },
        },
{
    let n = steps.len();
    let ghost sv = step_views(steps@);
    let ghost ids = step_ids(sv);
    let mut deps: Vec<Vec<usize>> = Vec::new();
    let mut c: usize = 0;
    while c < n
        invariant
            n == steps@.len(),
            sv == step_views(steps@),
            ids == step_ids(sv),
            c <= n,
            deps@.len() == c,
            forall|b: int| 0 <= b < c ==> !#[trigger] has_unknown(sv)(b),
            forall|b: int|
                0 <= b < c ==> (#[trigger] deps@[b])@.len() == sv[b].needs.len(),
            forall|b: int, k: int|
                0 <= b < c && 0 <= k < sv[b].needs.len() ==> 0 <= #[trigger] deps@[b]@[k] < n
                    && deps@[b]@[k] as int == position(ids, sv[b].needs[k]),
        decreases n - c,
    {
        let mut row: Vec<usize> = Vec::new();
        let mut k: usize = 0;
        while k < steps[c].needs.len()
            invariant
                n == steps@.len(),
                sv == step_views(steps@),
                ids == step_ids(sv),
                c < n,
                k <= sv[c as int].needs.len(),
                sv[c as int].needs.len() == steps@[c as int].needs@.len(),
                row@.len() == k,
                forall|b: int| 0 <= b < c ==> !#[trigger] has_unknown(sv)(b),
                forall|i: int| 0 <= i < k ==> !#[trigger] unknown_in(sv, c as int)(i),
                forall|i: int|
                    0 <= i < k ==> 0 <= #[trigger] row@[i] < n && row@[i] as int == position(
                        ids,
                        sv[c as int].needs[i],
                    ),
            decreases sv[c as int].needs.len() - k,
        {
            let need = steps[c].needs[k].as_str();
            assert(need@ == sv[c as int].needs[k as int]);
            proof {
                assert(ids.take(n as int) =~= ids);
                lemma_position(ids, need@);
            }
            match find_step(steps, n, need) {
                Some(p) => {
                    proof {
                        assert(ids[p as int] == need@);
                        assert(ids.contains(need@));
                    }
                    row.push(p);
                },
                None => {
                    proof {
                        assert(!ids.contains(need@)) by {
                            if ids.contains(need@) {
                                let i = choose|i: int| 0 <= i < ids.len() && ids[i] == need@;
                            }
                        }
                        assert(unknown_in(sv, c as int)(k as int));
                        lemma_first_where_is(
                            sv[c as int].needs.len() as int,
                            unknown_in(sv, c as int),
                            k as int,
                        );
                        assert(has_unknown(sv)(c as int));
                        lemma_first_where_is(n as int, has_unknown(sv), c as int);
                    }
                    return Err(
                        Error::UnknownDependency {
                            field: String::from_str(field),
                            step_id: steps[c].id.clone(),
                            need: steps[c].needs[k].clone(),
                        },
                    );
                },
            }
            k += 1;
        }
        proof {
            lemma_first_where_is(
                sv[c as int].needs.len() as int,
                unknown_in(sv, c as int),
                sv[c as int].needs.len() as int,
            );
        }
        deps.push(row);
        c += 1;
    }
    proof {
        lemma_first_where_is(n as int, has_unknown(sv), n as int);
        assert(graph_of(deps@) =~= dependency_graph(sv)) by {
            assert forall|b: int| 0 <= b < n implies graph_of(deps@)[b] =~= dependency_graph(sv)[b] by {
                assert(deps@[b]@.len() == sv[b].needs.len());
            }
        }
    }
    Ok(deps)
}

/// The first step whose id an earlier step has too, as an error.
fn check_ids(steps: &Vec<PipelineStep>, field: &str) -> (r: Result<(), Error>)
    ensures
        match r {
            Ok(_) => first_repeat(step_ids(step_views(steps@))) == steps@.len(),
            Err(e) => {
                let j = first_repeat(step_ids(step_views(steps@)));
                &&& j < steps@.len()
                &&& e@ == ErrorView::DuplicateStepId { field: field@, id: steps@[j]@.id }
            },
        },
{
    let n = steps.len();
    let ghost ids = step_ids(step_views(steps@));
    let mut j: usize = 0;
    while j < n
        invariant
            n == steps@.len(),
            ids == step_ids(step_views(steps@)),
            j <= n,
            forall|i: int| 0 <= i < j ==> !#[trigger] repeats_in(ids)(i),
        decreases n - j,
    {
        let found = find_step(steps, j, steps[j].id.as_str());
        proof {
            lemma_position(ids.take(j as int), ids[j as int]);
            if ids.take(j as int).contains(ids[j as int]) {
                let i = choose|i: int|
                    0 <= i < ids.take(j as int).len() && ids.take(j as int)[i] == ids[j as int];
            }
        }
        if found.is_some() {
            proof {
                let p = position(ids.take(j as int), ids[j as int]);
                assert(ids.take(j as int)[p] == ids[j as int]);
                assert(repeats_in(ids)(j as int));
                lemma_first_where_is(n as int, repeats_in(ids), j as int);
            }
            return Err(
                Error::DuplicateStepId { field: String::from_str(field), id: steps[j].id.clone() },
            );
        }
        j += 1;
    }
    proof {
        lemma_first_where_is(n as int, repeats_in(ids), n as int);
    }
    Ok(())
}

/// Puts the steps in the order in which they can run.
///
/// Returns the steps in that order, with a warning where the list names dependencies, or
/// the reason why the list cannot be ordered: two steps share an id, a dependency names no
/// step, or steps wait for each other in a circle.
pub fn order_steps(steps: &Vec<PipelineStep>, field: &str) -> (r: Result<
    (Vec<PipelineStep>, Vec<String>),
    Error,
>)
    ensures
        order_view(r) == planned_order(step_views(steps@), field@),
        r matches Ok(found) ==> found.0@.len() == steps@.len() && is_reordering(
            step_views(steps@),
            step_views(found.0@),
        ),
{
    let ghost sv = step_views(steps@);
    let ghost ids = step_ids(sv);
    if steps.len() <= 1 {
        let copy = copy_steps(steps);
        let warnings: Vec<String> = Vec::new();
        assert(texts(warnings@) =~= Seq::<Seq<char>>::empty());
        proof {
            let same = Seq::new(sv.len(), |i: int| i);
            assert(pick_steps(sv, same) =~= sv);
            assert(reorders(sv, same, step_views(copy@)));
        }
        return Ok((copy, warnings));
    }
    match check_ids(steps, field) {
        Err(e) => {
            proof {
                let j = first_repeat(ids);
                lemma_first_where(ids.len() as int, repeats_in(ids));
                assert(ids[j] == sv[j].id);
            }
            return Err(e);
        },
        Ok(_) => {},
    }
    let deps = match resolve_needs(steps, field) {
        Err(e) => {
            proof {
                let c = first_unknown_step(sv);
                lemma_first_where(sv.len() as int, has_unknown(sv));
                assert(ids[c] == sv[c].id);
            }
            return Err(e);
        },
        Ok(deps) => deps,
    };
    let ghost g = dependency_graph(sv);
    let arrangement = arrange(&deps);
    proof {
        lemma_cycle_iff_stuck(g);
        lemma_arrangement_of(g, ints(arrangement.order@));
        lemma_pending_of(g, ints(arrangement.pending@));
        if arrangement.pending@.len() > 0 {
            assert(ints(arrangement.pending@).contains(ints(arrangement.pending@)[0]));
        }
        if has_cycle(g) {
            let v = choose|v: int| stuck(g, v);
            let s = choose|s: Set<int>| crate::graph::closed(g, s) && s.contains(v);
            assert(crate::graph::waits_inside(g, s, v));
            assert(ints(arrangement.pending@).contains(v));
        }
        assert forall|i: int| 0 <= i < arrangement.order@.len() implies arrangement.order@[i]
            < steps@.len() by {
            assert(0 <= ints(arrangement.order@)[i] < g.len());
        }
        assert forall|i: int| 0 <= i < arrangement.pending@.len() implies arrangement.pending@[i]
            < steps@.len() by {
            assert(ints(arrangement.pending@).contains(ints(arrangement.pending@)[i]));
        }
    }
    if arrangement.pending.len() > 0 {
        return Err(
            Error::DependencyCycle {
                field: String::from_str(field),
                pending: pick_names(steps, &arrangement.pending),
            },
        );
    }
    let ordered = pick(steps, &arrangement.order);
    assert(step_views(ordered@).len() == ints(arrangement.order@).len());
    assert(reorders(sv, ints(arrangement.order@), step_views(ordered@)));
    let mut warnings: Vec<String> = Vec::new();
    if names_dependencies(steps) {
        warnings.push(String::from_str("Steps reordered based on dependencies"));
        assert(texts(warnings@) =~= seq!["Steps reordered based on dependencies"@]);
    } else {
        assert(texts(warnings@) =~= Seq::<Seq<char>>::empty());
    }
    Ok((ordered, warnings))
}

/// What a step needs before it can run.
#[derive(Clone, Copy, Debug, PartialEq, Eq, Structural)]
pub enum PipelineStepStatus {
    /// The step can run.
    Ready,
    /// Nothing can carry the step out; `missing` says what is wanted.
    Missing,
    /// The pipeline is switched off.
    Disabled,
}

/// A step of a plan: the step with what it needs before it can run.
#[derive(Debug)]
pub struct PipelinePlanStep {
    pub id: String,
    pub step_type: String,
    pub label: Option<String>,
    pub needs: Vec<String>,
    pub config: Vec<ConfigEntry>,
    pub status: PipelineStepStatus,
    pub missing: Vec<String>,
}

pub struct PlanStepView {
    pub step: StepView,
    pub status: PipelineStepStatus,
    pub missing: Seq<Seq<char>>,
}

impl View for PipelinePlanStep {
    type V = PlanStepView;

    open spec fn view(&self) -> PlanStepView {
        PlanStepView {
            step: StepView {
                id: self.id@,
                step_type: self.step_type@,
                label: opt_text(self.label),
                needs: texts(self.needs@),
                config: config_view(self.config@),
            },
            status: self.status,
            missing: texts(self.missing@),
        }
    }
}

impl PipelinePlanStep {
    /// The step that this plan step was made from.
    pub fn step(&self) -> (r: PipelineStep)
        ensures
            r@ == self@.step,
    {
        PipelineStep {
            id: self.id.clone(),
            step_type: self.step_type.clone(),
            label: copy_opt_text(&self.label),
            needs: copy_texts(&self.needs),
            config: copy_config(&self.config),
        }
    }
}

/// The steps of a pipeline in the order in which they run, each with what it needs.
#[derive(Debug)]
pub struct PipelinePlan {
    pub steps: Vec<PipelinePlanStep>,
    pub warnings: Vec<String>,
}

pub struct PlanView {
    pub steps: Seq<PlanStepView>,
    pub warnings: Seq<Seq<char>>,
}

/// The plan steps of a list, in order.
pub open spec fn plan_step_views(steps: Seq<PipelinePlanStep>) -> Seq<PlanStepView> {
    Seq::new(steps.len(), |i: int| steps[i]@)
}

impl View for PipelinePlan {
    type V = PlanView;

    open spec fn view(&self) -> PlanView {
        PlanView { steps: plan_step_views(self.steps@), warnings: texts(self.warnings@) }
    }
}

/// Says which step types can be carried out, and what is wanted for those that cannot.
pub trait PipelineCapabilityResolver {
    /// Whether steps of the type can be carried out.
    fn is_supported(&self, step_type: &str) -> bool;

    /// What is wanted before steps of the type can be carried out.
    fn missing(&self, step_type: &str) -> Vec<String>;
}

/// The plan step for a step, given what a resolver said of its type: disabled where the
/// pipeline is switched off, else ready where the type is supported, else missing what the
/// resolver named.
pub open spec fn plan_step_with(
    step: StepView,
    enabled: bool,
    supported: bool,
    missing: Seq<Seq<char>>,
) -> PlanStepView {
    if !enabled {
        PlanStepView { step, status: PipelineStepStatus::Disabled, missing: Seq::empty() }
    } else if supported {
        PlanStepView { step, status: PipelineStepStatus::Ready, missing: Seq::empty() }
    } else {
        PlanStepView { step, status: PipelineStepStatus::Missing, missing }
    }
}

/// The resolver may answer `supported` where it is asked whether it supports the type.
pub open spec fn says_supported<R: PipelineCapabilityResolver>(
    resolver: &R,
    step_type: Seq<char>,
    supported: bool,
) -> bool {
    exists|t: &str| #[trigger] t@ == step_type && call_ensures(R::is_supported, (resolver, t), supported)
}

/// The resolver may answer `missing` where it is asked what the type is missing.
pub open spec fn says_missing<R: PipelineCapabilityResolver>(
    resolver: &R,
    step_type: Seq<char>,
    missing: Seq<Seq<char>>,
) -> bool {
    exists|t: &str, m: Vec<String>| #[trigger]
        call_ensures(R::missing, (resolver, t), m) && t@ == step_type && texts(m@) == missing
}

/// `planned` is the plan step for the step: disabled where the pipeline is switched off;
/// else ready where the resolver says that it supports the type, and missing what the
/// resolver names where it says that it does not.
pub open spec fn is_plan_step_of<R: PipelineCapabilityResolver>(
    step: StepView,
    resolver: &R,
    enabled: bool,
    planned: PlanStepView,
) -> bool {
    if !enabled {
        planned == plan_step_with(step, false, false, Seq::empty())
    } else {
        ||| says_supported(resolver, step.step_type, true) && planned == plan_step_with(
            step,
            true,
            true,
            Seq::empty(),
        )
        ||| says_supported(resolver, step.step_type, false) && says_missing(
            resolver,
            step.step_type,
            planned.missing,
        ) && planned == plan_step_with(step, true, false, planned.missing)
    }
}

/// `planned` holds the plan step for each of the steps, in order.
pub open spec fn are_plan_steps_of<R: PipelineCapabilityResolver>(
    ordered: Seq<StepView>,
    resolver: &R,
    enabled: bool,
    planned: Seq<PlanStepView>,
) -> bool {
    &&& planned.len() == ordered.len()
    &&& forall|i: int|
        0 <= i < ordered.len() ==> is_plan_step_of(ordered[i], resolver, enabled, #[trigger] planned[i])
}

/// `r` is what planning the steps gives: the reason why they cannot be ordered, or their
/// order with the plan step for each and the warnings of the order.
pub open spec fn is_plan_of<R: PipelineCapabilityResolver>(
    steps: Seq<StepView>,
    resolver: &R,
    enabled: bool,
    field: Seq<char>,
    r: Result<PlanView, ErrorView>,
) -> bool {
    match planned_order(steps, field) {
        Err(e) => r == Err::<PlanView, ErrorView>(e),
        Ok((ordered, warnings)) => r is Ok && r->Ok_0.warnings == warnings && are_plan_steps_of(
            ordered,
            resolver,
            enabled,
            r->Ok_0.steps,
        ),
    }
}

/// What `plan` returned, with its strings as texts.
pub open spec fn plan_view(r: Result<PipelinePlan, Error>) -> Result<PlanView, ErrorView> {
    match r {
        Ok(p) => Ok(p@),
        Err(e) => Err(e@),
    }
}

/// Makes the plan step for a step from what a resolver said of its type.
pub fn classify(step: PipelineStep, enabled: bool, supported: bool, missing: Vec<String>) -> (r:
    PipelinePlanStep)
    ensures
        r@ == plan_step_with(step@, enabled, supported, texts(missing@)),
{
    let none: Vec<String> = Vec::new();
    assert(texts(none@) =~= Seq::<Seq<char>>::empty());
    let (status, missing) = if !enabled {
        (PipelineStepStatus::Disabled, none)
    } else if supported {
        (PipelineStepStatus::Ready, none)
    } else {
        (PipelineStepStatus::Missing, missing)
    };
    PipelinePlanStep {
        id: step.id,
        step_type: step.step_type,
        label: step.label,
        needs: step.needs,
        config: step.config,
        status,
        missing,
    }
}

/// Says what a step needs before it can run. The resolver is asked only where the pipeline
/// is switched on, and for what is missing only where it does not support the type.
pub fn to_plan_step<R: PipelineCapabilityResolver>(
    step: PipelineStep,
    resolver: &R,
    enabled: bool,
) -> (r: PipelinePlanStep)
    ensures
        is_plan_step_of(step@, resolver, enabled, r@),
{
    let mut supported = false;
    let mut missing: Vec<String> = Vec::new();
    if enabled {
        let step_type = step.step_type.as_str();
        supported = resolver.is_supported(step_type);
        assert(says_supported(resolver, step@.step_type, supported)) by {
            assert(step_type@ == step@.step_type);
        }
        if !supported {
            missing = resolver.missing(step_type);
            assert(says_missing(resolver, step@.step_type, texts(missing@))) by {
                assert(call_ensures(R::missing, (resolver, step_type), missing));
            }
        }
    }
    classify(step, enabled, supported, missing)
}

/// Orders the steps and says of each what it needs before it can run.
pub fn plan<R: PipelineCapabilityResolver>(
    steps: &Vec<PipelineStep>,
    resolver: &R,
    enabled: bool,
    field: &str,
) -> (r: Result<PipelinePlan, Error>)
    ensures
        is_plan_of(step_views(steps@), resolver, enabled, field@, plan_view(r)),
        r matches Ok(p) ==> p.steps@.len() == steps@.len(),
{
    let (ordered, warnings) = match order_steps(steps, field) {
        Ok(found) => found,
        Err(e) => {
            return Err(e);
        },
    };
    let ghost ov = step_views(ordered@);
    let mut planned_steps: Vec<PipelinePlanStep> = Vec::new();
    for step in it: ordered
        invariant
            it.seq() == ordered@,
            ov == step_views(ordered@),
            planned_steps@.len() == it.index(),
            forall|j: int|
                0 <= j < it.index() ==> is_plan_step_of(
                    ov[j],
                    resolver,
                    enabled,
                    #[trigger] planned_steps@[j]@,
                ),
    {
        planned_steps.push(to_plan_step(step, resolver, enabled));
    }
    proof {
        assert forall|i: int| 0 <= i < ov.len() implies is_plan_step_of(
            ov[i],
            resolver,
            enabled,
            #[trigger] plan_step_views(planned_steps@)[i],
        ) by {
            assert(is_plan_step_of(ov[i], resolver, enabled, planned_steps@[i]@));
        }
    }
    Ok(PipelinePlan { steps: planned_steps, warnings })
}

/// How a step of a run ended.
#[derive(Clone, Copy, Debug, PartialEq, Eq, Structural)]
pub enum PipelineRunStatus {
    Success,
    Failed,
    /// The step was not ready, or a step it depends on did not succeed.
    Skipped,
}

/// The report of one step of a run.
#[derive(Debug)]
pub struct PipelineStepResult {
    pub id: String,
    pub step_type: String,
    pub status: PipelineRunStatus,
    pub missing: Vec<String>,
    pub warnings: Vec<String>,
    pub hints: Vec<String>,
    /// What the step produced, as JSON text.
    pub data: Option<String>,
    pub error: Option<String>,
}

pub struct StepResultView {
    pub id: Seq<char>,
    pub step_type: Seq<char>,
    pub status: PipelineRunStatus,
    pub missing: Seq<Seq<char>>,
    pub warnings: Seq<Seq<char>>,
    pub hints: Seq<Seq<char>>,
    pub data: Option<Seq<char>>,
    pub error: Option<Seq<char>>,
}

impl View for PipelineStepResult {
    type V = StepResultView;

    open spec fn view(&self) -> StepResultView {
        StepResultView {
            id: self.id@,
            step_type: self.step_type@,
            status: self.status,
            missing: texts(self.missing@),
            warnings: texts(self.warnings@),
            hints: texts(self.hints@),
            data: opt_text(self.data),
            error: opt_text(self.error),
        }
    }
}

/// The reports of a list, in order.
pub open spec fn result_views(results: Seq<PipelineStepResult>) -> Seq<StepResultView> {
    Seq::new(results.len(), |i: int| results[i]@)
}

/// The report of a run: one report for each step, in the order of the plan.
#[derive(Debug)]
pub struct PipelineRunResult {
    pub steps: Vec<PipelineStepResult>,
    /// `Failed` where a step failed, else `Success`.
    pub overall: PipelineRunStatus,
}

/// Carries out one step.
pub trait PipelineStepExecutor {
    fn execute_step(&self, step: &PipelineStep) -> Result<PipelineStepResult, Error>;
}

/// The report of a step that was not attempted.
pub open spec fn skipped_report(step: PlanStepView) -> StepResultView {
    StepResultView {
        id: step.step.id,
        step_type: step.step.step_type,
        status: PipelineRunStatus::Skipped,
        missing: step.missing,
        warnings: Seq::empty(),
        hints: Seq::empty(),
        data: None,
        error: None,
    }
}

/// The report of a step whose executor gave up with `message`.
pub open spec fn failed_report(step: PlanStepView, message: Seq<char>) -> StepResultView {
    StepResultView {
        id: step.step.id,
        step_type: step.step.step_type,
        status: PipelineRunStatus::Failed,
        missing: Seq::empty(),
        warnings: Seq::empty(),
        hints: Seq::empty(),
        data: None,
        error: Some(message),
    }
}

/// Dependency `k` of step `i` names the earlier step `j`, whose report is not a success.
pub open spec fn blocks(
    plan: Seq<PlanStepView>,
    statuses: Seq<PipelineRunStatus>,
    i: int,
    k: int,
    j: int,
) -> bool {
    &&& 0 <= k < plan[i].step.needs.len()
    &&& 0 <= j < i
    &&& j < statuses.len()
    &&& plan[j].step.id == plan[i].step.needs[k]
    &&& statuses[j] != PipelineRunStatus::Success
}

/// Step `i` of the plan names an earlier step whose report is not a success.
pub open spec fn blocked(plan: Seq<PlanStepView>, statuses: Seq<PipelineRunStatus>, i: int) -> bool {
    exists|k: int, j: int| #[trigger] blocks(plan, statuses, i, k, j)
}

/// Step `i` of the plan is to be attempted: it is ready, and no step it names has a report
/// other than a success.
pub open spec fn may_run(plan: Seq<PlanStepView>, statuses: Seq<PipelineRunStatus>, i: int) -> bool {
    plan[i].status == PipelineStepStatus::Ready && !blocked(plan, statuses, i)
}

/// How the steps of the reports ended, in order.
pub open spec fn statuses_of(results: Seq<StepResultView>) -> Seq<PipelineRunStatus> {
    Seq::new(results.len(), |i: int| results[i].status)
}

/// Some report is a failure.
pub open spec fn any_failed(results: Seq<StepResultView>) -> bool {
    exists|i: int| 0 <= i < results.len() && (#[trigger] results[i]).status == PipelineRunStatus::Failed
}

/// How a run with these reports ended as a whole.
pub open spec fn overall_of(results: Seq<StepResultView>) -> PipelineRunStatus {
    if any_failed(results) {
        PipelineRunStatus::Failed
    } else {
        PipelineRunStatus::Success
    }
}

/// `report` is what the executor's answer for the step becomes: the executor may give an
/// answer for the step of which `report` is the record.
pub open spec fn reported_by<E: PipelineStepExecutor>(
    executor: &E,
    step: PlanStepView,
    report: StepResultView,
) -> bool {
    exists|s: PipelineStep, outcome: Result<PipelineStepResult, Error>| #[trigger]
        call_ensures(E::execute_step, (executor, &s), outcome) && s@ == step.step && report
            == recorded(step, outcome)
}

/// `report` is the report of step `i` of a run with these reports: that of a step that was
/// not attempted where the step may not run, else the record of the executor's answer.
pub open spec fn is_report_of<E: PipelineStepExecutor>(
    executor: &E,
    plan: Seq<PlanStepView>,
    results: Seq<StepResultView>,
    i: int,
) -> bool {
    if may_run(plan, statuses_of(results), i) {
        reported_by(executor, plan[i], results[i])
    } else {
        results[i] == skipped_report(plan[i])
    }
}

/// `results` are the reports of a run of the plan: one for each step, in order. A step that
/// may not run has the report of a step that was not attempted; every other step has the
/// record of what the executor answered for it.
pub open spec fn is_run_of<E: PipelineStepExecutor>(
    executor: &E,
    plan: Seq<PlanStepView>,
    results: Seq<StepResultView>,
) -> bool {
    &&& results.len() == plan.len()
    &&& forall|i: int| 0 <= i < plan.len() ==> #[trigger] is_report_of(executor, plan, results, i)
}

/// The report of a step that was not attempted.
pub fn skipped_result(step: &PipelinePlanStep) -> (r: PipelineStepResult)
    ensures
        r@ == skipped_report(step@),
{
    let warnings: Vec<String> = Vec::new();
    let hints: Vec<String> = Vec::new();
    assert(texts(warnings@) =~= Seq::<Seq<char>>::empty());
    assert(texts(hints@) =~= Seq::<Seq<char>>::empty());
    PipelineStepResult {
        id: step.id.clone(),
        step_type: step.step_type.clone(),
        status: PipelineRunStatus::Skipped,
        missing: copy_texts(&step.missing),
        warnings,
        hints,
        data: None,
        error: None,
    }
}

/// What an executor's answer becomes in the report.
pub open spec fn recorded(
    step: PlanStepView,
    outcome: Result<PipelineStepResult, Error>,
) -> StepResultView {
    match outcome {
        Ok(report) => report@,
        Err(e) => failed_report(step, crate::error::message_text(e@)),
    }
}

/// Turns an executor's answer into the report of the step: its own report as it stands, or a
/// failure that carries the error's message.
pub fn record_outcome(
    step: &PipelinePlanStep,
    outcome: Result<PipelineStepResult, Error>,
) -> (r: PipelineStepResult)
    ensures
        r@ == recorded(step@, outcome),
{
    match outcome {
        Ok(report) => report,
        Err(e) => {
            let missing: Vec<String> = Vec::new();
            let warnings: Vec<String> = Vec::new();
            let hints: Vec<String> = Vec::new();
            assert(texts(missing@) =~= Seq::<Seq<char>>::empty());
            assert(texts(warnings@) =~= Seq::<Seq<char>>::empty());
            assert(texts(hints@) =~= Seq::<Seq<char>>::empty());
            PipelineStepResult {
                id: step.id.clone(),
                step_type: step.step_type.clone(),
                status: PipelineRunStatus::Failed,
                missing,
                warnings,
                hints,
                data: None,
                error: Some(e.message()),
            }
        },
    }
}

/// Whether step `i` of the plan names an earlier step whose report is not a success.
pub fn blocked_by_dependency(
    plan: &Vec<PipelinePlanStep>,
    results: &Vec<PipelineStepResult>,
    i: usize,
) -> (r: bool)
    requires
        i < plan@.len(),
        i <= results@.len(),
    ensures
        r == blocked(plan_step_views(plan@), statuses_of(result_views(results@)), i as int),
{
    let ghost pv = plan_step_views(plan@);
    let ghost st = statuses_of(result_views(results@));
    let mut k: usize = 0;
    while k < plan[i].needs.len()
        invariant
            i < plan@.len(),
            i <= results@.len(),
            pv == plan_step_views(plan@),
            st == statuses_of(result_views(results@)),
            k <= plan@[i as int].needs@.len(),
            forall|a: int, b: int| 0 <= a < k ==> !#[trigger] blocks(pv, st, i as int, a, b),
        decreases plan@[i as int].needs@.len() - k,
    {
        let mut j: usize = 0;
        while j < i
            invariant
                i < plan@.len(),
                i <= results@.len(),
                pv == plan_step_views(plan@),
                st == statuses_of(result_views(results@)),
                k < plan@[i as int].needs@.len(),
                j <= i,
                forall|a: int, b: int| 0 <= a < k ==> !#[trigger] blocks(pv, st, i as int, a, b),
                forall|b: int| 0 <= b < j ==> !#[trigger] blocks(pv, st, i as int, k as int, b),
            decreases i - j,
        {
            if results[j].status != PipelineRunStatus::Success && same_text(
                plan[j].id.as_str(),
                plan[i].needs[k].as_str(),
            ) {
                assert(blocks(pv, st, i as int, k as int, j as int));
                return true;
            }
            j += 1;
        }
        k += 1;
    }
    false
}

/// Hands a step to the executor. Only a step that may run is ever handed over.
fn attempt<E: PipelineStepExecutor>(
    executor: &E,
    plan: &Vec<PipelinePlanStep>,
    results: &Vec<PipelineStepResult>,
    i: usize,
) -> (r: PipelineStepResult)
    requires
        i < plan@.len(),
        i == results@.len(),
        may_run(plan_step_views(plan@), statuses_of(result_views(results@)), i as int),
    ensures
        reported_by(executor, plan@[i as int]@, r@),
{
    let step = plan[i].step();
    let outcome = executor.execute_step(&step);
    assert(call_ensures(E::execute_step, (executor, &step), outcome));
    record_outcome(&plan[i], outcome)
}

/// Whether a report of the list is a failure.
fn has_failure(results: &Vec<PipelineStepResult>) -> (r: bool)
    ensures
        r == any_failed(result_views(results@)),
{
    let mut i: usize = 0;
    while i < results.len()
        invariant
            i <= results.len(),
            forall|j: int|
                0 <= j < i ==> (#[trigger] result_views(results@)[j]).status
                    != PipelineRunStatus::Failed,
        decreases results.len() - i,
    {
        if results[i].status == PipelineRunStatus::Failed {
            assert(result_views(results@)[i as int].status == PipelineRunStatus::Failed);
            return true;
        }
        i += 1;
    }
    false
}

/// What `run` returned on success: the reports and the overall status.
pub open spec fn run_view(r: PipelineRunResult) -> (Seq<StepResultView>, PipelineRunStatus) {
    (result_views(r.steps@), r.overall)
}

/// Carries out the steps of a plan in order.
///
/// A step that is not ready is not attempted, nor is one that names an earlier step whose
/// report is not a success: both are reported as skipped. Every other step is handed to the
/// executor, whose report is kept as it stands; where the executor gives up, the step is
/// reported as failed with the error's message. The run goes on after a failure, and fails
/// as a whole exactly where a report is a failure.
pub fn run_plan<E: PipelineStepExecutor>(plan: &Vec<PipelinePlanStep>, executor: &E) -> (r:
    PipelineRunResult)
    ensures
        is_run_of(executor, plan_step_views(plan@), run_view(r).0),
        run_view(r).1 == overall_of(run_view(r).0),
{
    let ghost pv = plan_step_views(plan@);
    let mut results: Vec<PipelineStepResult> = Vec::new();
    let mut i: usize = 0;
    while i < plan.len()
        invariant
            i <= plan@.len(),
            pv == plan_step_views(plan@),
            results@.len() == i,
            forall|j: int|
                0 <= j < i ==> #[trigger] is_report_of(executor, pv, result_views(results@), j),
        decreases plan@.len() - i,
    {
        let ghost reports = result_views(results@);
        let ghost before = statuses_of(reports);
        let ready = plan[i].status == PipelineStepStatus::Ready;
        let report = if !ready || blocked_by_dependency(plan, &results, i) {
            skipped_result(&plan[i])
        } else {
            attempt(executor, plan, &results, i)
        };
        results.push(report);
        proof {
            let now = result_views(results@);
            let after = statuses_of(now);
            assert forall|j: int| 0 <= j < i + 1 implies #[trigger] is_report_of(
                executor,
                pv,
                now,
                j,
            ) by {
                assert(before.take(j) =~= after.take(j));
                lemma_blocked_by_earlier(pv, before, after, j);
                if j < i {
                    assert(is_report_of(executor, pv, reports, j));
                    assert(now[j] == reports[j]);
                }
            }
        }
        i += 1;
    }
    let overall = if has_failure(&results) {
        PipelineRunStatus::Failed
    } else {
        PipelineRunStatus::Success
    };
    PipelineRunResult { steps: results, overall }
}

/// `r` is what running the steps gives: the reason why they cannot be ordered, or the
/// reports of a run of their plan.
pub open spec fn is_run_result_of<E: PipelineStepExecutor, R: PipelineCapabilityResolver>(
    steps: Seq<StepView>,
    executor: &E,
    resolver: &R,
    enabled: bool,
    field: Seq<char>,
    r: Result<PipelineRunResult, Error>,
) -> bool {
    match planned_order(steps, field) {
        Err(e) => r is Err && r->Err_0@ == e,
        Ok((ordered, warnings)) => {
            &&& r is Ok
            &&& run_view(r->Ok_0).1 == overall_of(run_view(r->Ok_0).0)
            &&& exists|plan: Seq<PlanStepView>|
                are_plan_steps_of(ordered, resolver, enabled, plan) && #[trigger] is_run_of(
                    executor,
                    plan,
                    run_view(r->Ok_0).0,
                )
        },
    }
}

/// Plans the steps and carries them out in the order of the plan.
pub fn run<E: PipelineStepExecutor, R: PipelineCapabilityResolver>(
    steps: &Vec<PipelineStep>,
    executor: &E,
    resolver: &R,
    enabled: bool,
    field: &str,
) -> (r: Result<PipelineRunResult, Error>)
    ensures
        is_run_result_of(step_views(steps@), executor, resolver, enabled, field@, r),
{
    let plan = match plan(steps, resolver, enabled, field) {
        Ok(plan) => plan,
        Err(e) => {
            return Err(e);
        },
    };
    let result = run_plan(&plan.steps, executor);
    assert(is_run_of(executor, plan_step_views(plan.steps@), run_view(result).0));
    Ok(result)
}

/// Whether a step is blocked rests on the reports of the steps before it alone.
pub proof fn lemma_blocked_by_earlier(
    plan: Seq<PlanStepView>,
    a: Seq<PipelineRunStatus>,
    b: Seq<PipelineRunStatus>,
    i: int,
)
    requires
        0 <= i <= a.len(),
        i <= b.len(),
        a.take(i) == b.take(i),
    ensures
        blocked(plan, a, i) == blocked(plan, b, i),
{
    if blocked(plan, a, i) {
        let (k, j) = choose|k: int, j: int| #[trigger] blocks(plan, a, i, k, j);
        assert(a.take(i)[j] == a[j]);
        assert(b.take(i)[j] == b[j]);
        assert(blocks(plan, b, i, k, j));
    }
    if blocked(plan, b, i) {
        let (k, j) = choose|k: int, j: int| #[trigger] blocks(plan, b, i, k, j);
        assert(a.take(i)[j] == a[j]);
        assert(b.take(i)[j] == b[j]);
        assert(blocks(plan, a, i, k, j));
    }
}

} // verus!
