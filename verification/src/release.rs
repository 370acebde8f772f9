//! Releases of a component: its release configuration as a pipeline, the modules that supply
//! the actions for steps the engine does not know, and what each step asks of the outside
//! world.

use vstd::prelude::*;
use vstd::string::*;
use crate::config::{find_similar_ids, similar_ids};
use crate::error::{Error, ErrorView};
use crate::json::{json_string_literal, quote_json};
use crate::pipeline::{
    config_view, copy_config, is_plan_step_of, is_run_of, overall_of, plan_step_views,
    plan_step_with, planned_order, run_plan, run_view, step_views, ConfigEntry, ConfigEntryView,
    ConfigValue, ConfigValueView, PipelineCapabilityResolver, PipelinePlanStep, PipelineRunResult,
    PipelineRunStatus, PipelineStep, PipelineStepExecutor, PipelineStepResult, PipelineStepStatus,
    PlanStepView, PlanView, StepResultView, StepView,
};
use crate::text::{
    concat, concat3, copy_opt_text, copy_texts, join, joined, opt_str, opt_text, opt_texts,
    same_text, sort_texts, sorted_of, texts,
};

verus! {

/// An action that a module offers.
#[derive(Debug)]
pub struct ActionConfig {
    pub id: String,
}

/// What a module says of itself, as far as releases go.
#[derive(Debug)]
pub struct ModuleManifest {
    pub id: String,
    pub actions: Vec<ActionConfig>,
}

pub struct ModuleView {
    pub id: Seq<char>,
    pub actions: Seq<Seq<char>>,
}

/// The ids of a list of actions.
pub open spec fn action_ids(actions: Seq<ActionConfig>) -> Seq<Seq<char>> {
    Seq::new(actions.len(), |i: int| actions[i].id@)
}

impl View for ModuleManifest {
    type V = ModuleView;

    open spec fn view(&self) -> ModuleView {
        ModuleView { id: self.id@, actions: action_ids(self.actions@) }
    }
}

impl Clone for ModuleManifest {
    fn clone(&self) -> (r: Self)
        ensures
            r@ == self@,
    {
        let mut actions: Vec<ActionConfig> = Vec::new();
        let mut i: usize = 0;
        while i < self.actions.len()
            invariant
                i <= self.actions.len(),
                actions@.len() == i,
                forall|j: int| 0 <= j < i ==> actions@[j].id@ == self.actions@[j].id@,
            decreases self.actions.len() - i,
        {
            actions.push(ActionConfig { id: self.actions[i].id.clone() });
            i += 1;
        }
        assert(action_ids(actions@) =~= action_ids(self.actions@));
        ModuleManifest { id: self.id.clone(), actions }
    }
}

/// The modules of a list, in order.
pub open spec fn module_views(modules: Seq<ModuleManifest>) -> Seq<ModuleView> {
    Seq::new(modules.len(), |i: int| modules[i]@)
}

/// A copy of a list of modules.
pub fn copy_modules(modules: &Vec<ModuleManifest>) -> (r: Vec<ModuleManifest>)
    ensures
        module_views(r@) == module_views(modules@),
{
    let mut out: Vec<ModuleManifest> = Vec::new();
    let mut i: usize = 0;
    while i < modules.len()
        invariant
            i <= modules.len(),
            out@.len() == i,
            forall|j: int| 0 <= j < i ==> out@[j]@ == modules@[j]@,
        decreases modules.len() - i,
    {
        out.push(modules[i].clone());
        i += 1;
    }
    assert(module_views(out@) =~= module_views(modules@));
    out
}

/// The step types that the engine carries out itself.
pub open spec fn core_step(step_type: Seq<char>) -> bool {
    ||| step_type == "build"@
    ||| step_type == "changelog"@
    ||| step_type == "version"@
    ||| step_type == "git.tag"@
    ||| step_type == "git.push"@
    ||| step_type == "changes"@
}

/// Whether the engine carries out steps of the type itself.
pub fn is_core_step(step_type: &str) -> (r: bool)
    ensures
        r == core_step(step_type@),
{
    same_text(step_type, "build") || same_text(step_type, "changelog") || same_text(
        step_type,
        "version",
    ) || same_text(step_type, "git.tag") || same_text(step_type, "git.push") || same_text(
        step_type,
        "changes",
    )
}

/// The id of the module action that carries out steps of the type.
pub open spec fn action_id_for(step_type: Seq<char>) -> Seq<char> {
    "release."@ + step_type
}

/// The module offers the action.
pub open spec fn offers(module: ModuleView, action_id: Seq<char>) -> bool {
    module.actions.contains(action_id)
}

/// One of the modules offers the action.
pub open spec fn any_offers(modules: Seq<ModuleView>, action_id: Seq<char>) -> bool {
    exists|i: int| 0 <= i < modules.len() && offers(#[trigger] modules[i], action_id)
}

/// The modules that offer the action, in order.
pub open spec fn offering(modules: Seq<ModuleView>, action_id: Seq<char>) -> Seq<ModuleView>
    decreases modules.len(),
{
    if modules.len() == 0 {
        Seq::empty()
    } else {
        offering(modules.drop_last(), action_id) + if offers(modules.last(), action_id) {
            seq![modules.last()]
        } else {
            Seq::empty()
        }
    }
}

/// The ids of the modules, in order.
pub open spec fn module_ids(modules: Seq<ModuleView>) -> Seq<Seq<char>> {
    Seq::new(modules.len(), |i: int| modules[i].id)
}

/// Whether the module offers the action.
pub fn module_offers(module: &ModuleManifest, action_id: &str) -> (r: bool)
    ensures
        r == offers(module@, action_id@),
{
    let mut i: usize = 0;
    while i < module.actions.len()
        invariant
            i <= module.actions.len(),
            forall|j: int| 0 <= j < i ==> action_ids(module.actions@)[j] != action_id@,
        decreases module.actions.len() - i,
    {
        if same_text(module.actions[i].id.as_str(), action_id) {
            assert(action_ids(module.actions@)[i as int] == action_id@);
            return true;
        }
        i += 1;
    }
    false
}

/// Says which steps a component's release can carry out: those of the engine, and those for
/// which a module of the component offers the action.
pub struct ReleaseCapabilityResolver {
    pub modules: Vec<ModuleManifest>,
}

impl ReleaseCapabilityResolver {
    pub fn new(modules: Vec<ModuleManifest>) -> (r: Self)
        ensures
            r.modules == modules,
    {
        Self { modules }
    }

    /// Whether a module offers the action for steps of the type.
    pub fn supports_module_action(&self, step_type: &str) -> (r: bool)
        ensures
            r == any_offers(module_views(self.modules@), action_id_for(step_type@)),
    {
        let action_id = concat("release.", step_type);
        let mut i: usize = 0;
        while i < self.modules.len()
            invariant
                i <= self.modules.len(),
                action_id@ == action_id_for(step_type@),
                forall|j: int|
                    0 <= j < i ==> !offers(#[trigger] module_views(self.modules@)[j], action_id@),
            decreases self.modules.len() - i,
        {
            if module_offers(&self.modules[i], action_id.as_str()) {
                assert(offers(module_views(self.modules@)[i as int], action_id@));
                return true;
            }
            i += 1;
        }
        false
    }
}

/// Steps of the type can be carried out: the engine knows the type, or a module offers its
/// action.
pub open spec fn supported_by(modules: Seq<ModuleView>, step_type: Seq<char>) -> bool {
    core_step(step_type) || any_offers(modules, action_id_for(step_type))
}

/// What the resolver of a release reports for a step type that nothing can carry out.
pub open spec fn missing_action(step_type: Seq<char>) -> Seq<Seq<char>> {
    seq!["Missing action '"@ + action_id_for(step_type) + "'"@]
}

impl PipelineCapabilityResolver for ReleaseCapabilityResolver {
    fn is_supported(&self, step_type: &str) -> (r: bool)
        ensures
            r == supported_by(module_views(self.modules@), step_type@),
    {
        is_core_step(step_type) || self.supports_module_action(step_type)
    }

    fn missing(&self, step_type: &str) -> (r: Vec<String>)
        ensures
            texts(r@) == missing_action(step_type@),
    {
        let action_id = concat("release.", step_type);
        let mut out: Vec<String> = Vec::new();
        out.push(concat3("Missing action '", action_id.as_str(), "'"));
        assert(texts(out@) =~= missing_action(step_type@));
        out
    }
}

/// The one module that offers the action, or why there is none or no single one.
pub open spec fn resolved_module(modules: Seq<ModuleView>, action_id: Seq<char>) -> Result<
    ModuleView,
    ErrorView,
> {
    let found = offering(modules, action_id);
    if found.len() == 0 {
        Err(ErrorView::NoMatchingModule { action_id })
    } else if found.len() > 1 {
        Err(ErrorView::AmbiguousModule { action_id, modules: module_ids(found) })
    } else {
        Ok(found[0])
    }
}

/// What `resolve_module_action` returned, with its strings as texts.
pub open spec fn module_result_view(r: Result<ModuleManifest, Error>) -> Result<
    ModuleView,
    ErrorView,
> {
    match r {
        Ok(m) => Ok(m@),
        Err(e) => Err(e@),
    }
}

/// Finds the one module that offers the action. Where several do, none is picked.
pub fn resolve_module_action(modules: &Vec<ModuleManifest>, action_id: &str) -> (r: Result<
    ModuleManifest,
    Error,
>)
    ensures
        module_result_view(r) == resolved_module(module_views(modules@), action_id@),
{
    let ghost mv = module_views(modules@);
    let mut found: Vec<usize> = Vec::new();
    let mut names: Vec<String> = Vec::new();
    let mut i: usize = 0;
    while i < modules.len()
        invariant
            i <= modules.len(),
            mv == module_views(modules@),
            found@.len() == names@.len(),
            found@.len() == offering(mv.take(i as int), action_id@).len(),
            forall|j: int|
                0 <= j < found@.len() ==> (#[trigger] found@[j]) < i && mv[found@[j] as int]
                    == offering(mv.take(i as int), action_id@)[j] && names@[j]@
                    == mv[found@[j] as int].id,
        decreases modules.len() - i,
    {
        let ghost prev = offering(mv.take(i as int), action_id@);
        let ghost next = offering(mv.take(i + 1), action_id@);
        let ghost old_found = found@;
        let ghost old_names = names@;
        proof {
            assert(mv.take(i + 1).drop_last() =~= mv.take(i as int));
            assert(mv.take(i + 1).last() == mv[i as int]);
        }
        if module_offers(&modules[i], action_id) {
            found.push(i);
            names.push(modules[i].id.clone());
            proof {
                assert(next == prev + seq![mv[i as int]]);
                assert forall|j: int| 0 <= j < found@.len() implies (#[trigger] found@[j]) < i + 1
                    && mv[found@[j] as int] == next[j] && names@[j]@ == mv[found@[j] as int].id by {
                    if j < old_found.len() {
                        assert(found@[j] == old_found[j]);
                        assert(names@[j] == old_names[j]);
                    }
                }
            }
        } else {
            proof {
                assert(next =~= prev);
            }
        }
        i += 1;
    }
    proof {
        assert(mv.take(modules@.len() as int) =~= mv);
    }
    if found.len() == 0 {
        return Err(Error::NoMatchingModule { action_id: String::from_str(action_id) });
    }
    if found.len() > 1 {
        proof {
            let all = offering(mv, action_id@);
            assert forall|j: int| 0 <= j < names@.len() implies texts(names@)[j] == module_ids(
                all,
            )[j] by {
                assert(found@[j] < modules@.len());
                assert(mv[found@[j] as int] == all[j]);
            }
            assert(texts(names@) =~= module_ids(all));
        }
        return Err(Error::AmbiguousModule { action_id: String::from_str(action_id), modules: names });
    }
    Ok(modules[found[0]].clone())
}

/// The value of the first entry with the key.
pub open spec fn config_value(config: Seq<ConfigEntryView>, key: Seq<char>) -> Option<
    ConfigValueView,
>
    decreases config.len(),
{
    if config.len() == 0 {
        None
    } else if config[0].key == key {
        Some(config[0].value)
    } else {
        config_value(config.drop_first(), key)
    }
}

/// The truth value under the key, where the entry holds one.
pub open spec fn config_bool(config: Seq<ConfigEntryView>, key: Seq<char>) -> Option<bool> {
    match config_value(config, key) {
        Some(ConfigValueView::Bool(b)) => Some(b),
        _ => None,
    }
}

/// The text under the key, where the entry holds one.
pub open spec fn config_text(config: Seq<ConfigEntryView>, key: Seq<char>) -> Option<Seq<char>> {
    match config_value(config, key) {
        Some(ConfigValueView::Text(s)) => Some(s),
        _ => None,
    }
}

/// The position of the first entry with the key.
fn find_entry(config: &Vec<ConfigEntry>, key: &str) -> (r: Option<usize>)
    ensures
        match r {
            Some(i) => i < config@.len() && config_value(config_view(config@), key@) == Some(
                config@[i as int]@.value,
            ),
            None => config_value(config_view(config@), key@) is None,
        },
{
    let ghost cv = config_view(config@);
    let mut i: usize = 0;
    assert(cv.skip(0) =~= cv);
    while i < config.len()
        invariant
            i <= config.len(),
            cv == config_view(config@),
            config_value(cv, key@) == config_value(cv.skip(i as int), key@),
        decreases config.len() - i,
    {
        proof {
            assert(cv.skip(i as int).drop_first() =~= cv.skip(i + 1));
            assert(cv.skip(i as int)[0] == config@[i as int]@);
        }
        if same_text(config[i].key.as_str(), key) {
            return Some(i);
        }
        i += 1;
    }
    None
}

/// The truth value under the key, where the entry holds one.
pub fn get_bool(config: &Vec<ConfigEntry>, key: &str) -> (r: Option<bool>)
    ensures
        r == config_bool(config_view(config@), key@),
{
    match find_entry(config, key) {
        Some(i) => match &config[i].value {
            ConfigValue::Bool(b) => Some(*b),
            _ => None,
        },
        None => None,
    }
}

/// The text under the key, where the entry holds one.
pub fn get_text(config: &Vec<ConfigEntry>, key: &str) -> (r: Option<String>)
    ensures
        opt_text(r) == config_text(config_view(config@), key@),
{
    match find_entry(config, key) {
        Some(i) => match &config[i].value {
            ConfigValue::Text(s) => Some(s.clone()),
            _ => None,
        },
        None => None,
    }
}

/// The JSON text of a value.
pub open spec fn value_json(v: ConfigValueView) -> Option<Seq<char>> {
    match v {
        ConfigValueView::Bool(b) => Some(
            if b {
                "true"@
            } else {
                "false"@
            },
        ),
        ConfigValueView::Text(s) => json_string_literal(s),
        ConfigValueView::Json(t) => Some(t),
    }
}

/// The JSON text of an entry: its key, a colon, its value.
pub open spec fn entry_json(e: ConfigEntryView) -> Option<Seq<char>> {
    match (json_string_literal(e.key), value_json(e.value)) {
        (Some(k), Some(v)) => Some(k + ":"@ + v),
        _ => None,
    }
}

/// The JSON texts of the entries, with commas between them.
pub open spec fn entries_json(config: Seq<ConfigEntryView>) -> Option<Seq<char>>
    decreases config.len(),
{
    if config.len() == 0 {
        Some(Seq::empty())
    } else {
        match (entries_json(config.drop_last()), entry_json(config.last())) {
            (Some(head), Some(e)) => Some(
                if config.len() == 1 {
                    e
                } else {
                    head + ","@ + e
                },
            ),
            _ => None,
        }
    }
}

/// What a module action is handed for a step's configuration: nothing where it is empty,
/// else the configuration as a JSON object.
pub open spec fn payload_of(config: Seq<ConfigEntryView>) -> Result<Option<Seq<char>>, ErrorView> {
    if config.len() == 0 {
        Ok(None)
    } else {
        match entries_json(config) {
            Some(t) => Ok(Some("{"@ + t + "}"@)),
            None => Err(
                ErrorView::InvalidJson {
                    message: "Step configuration cannot be written as JSON"@,
                    context: "release step config"@,
                },
            ),
        }
    }
}

/// What `payload` returned, with its strings as texts.
pub open spec fn payload_view(r: Result<Option<String>, Error>) -> Result<
    Option<Seq<char>>,
    ErrorView,
> {
    match r {
        Ok(p) => Ok(opt_text(p)),
        Err(e) => Err(e@),
    }
}

/// The JSON text of an entry.
fn write_entry(e: &ConfigEntry) -> (r: Option<String>)
    ensures
        opt_text(r) == entry_json(e@),
{
    let key = match quote_json(e.key.as_str()) {
        Some(k) => k,
        None => {
            return None;
        },
    };
    let value = match &e.value {
        ConfigValue::Bool(b) => if *b {
            String::from_str("true")
        } else {
            String::from_str("false")
        },
        ConfigValue::Text(s) => match quote_json(s.as_str()) {
            Some(v) => v,
            None => {
                return None;
            },
        },
        ConfigValue::Json(t) => t.clone(),
    };
    Some(concat3(key.as_str(), ":", value.as_str()))
}

/// Writes a step's configuration as the payload of a module action.
pub fn payload(config: &Vec<ConfigEntry>) -> (r: Result<Option<String>, Error>)
    ensures
        payload_view(r) == payload_of(config_view(config@)),
{
    if config.len() == 0 {
        return Ok(None);
    }
    let ghost cv = config_view(config@);
    let mut out = String::from_str("{");
    let mut i: usize = 0;
    while i < config.len()
        invariant
            i <= config.len(),
            cv == config_view(config@),
            entries_json(cv.take(i as int)) is Some,
            out@ == "{"@ + entries_json(cv.take(i as int))->Some_0,
        decreases config.len() - i,
    {
        proof {
            assert(cv.take(i + 1).drop_last() =~= cv.take(i as int));
            assert(cv.take(i + 1).last() == config@[i as int]@);
        }
        match write_entry(&config[i]) {
            Some(e) => {
                if i > 0 {
                    out.append(",");
                }
                out.append(e.as_str());
                proof {
                    let head = entries_json(cv.take(i as int))->Some_0;
                    if i == 0 {
                        assert("{"@ + head + e@ =~= "{"@ + e@);
                    } else {
                        assert("{"@ + head + ","@ + e@ =~= "{"@ + (head + ","@ + e@));
                    }
                }
            },
            None => {
                proof {
                    lemma_entries_fail(cv, i as int);
                }
                return Err(
                    Error::InvalidJson {
                        message: String::from_str("Step configuration cannot be written as JSON"),
                        context: String::from_str("release step config"),
                    },
                );
            },
        }
        i += 1;
    }
    proof {
        assert(cv.take(config@.len() as int) =~= cv);
    }
    out.append("}");
    Ok(Some(out))
}

/// Where an entry cannot be written, the entries cannot.
pub proof fn lemma_entries_fail(config: Seq<ConfigEntryView>, i: int)
    requires
        0 <= i < config.len(),
        entry_json(config[i]) is None,
    ensures
        entries_json(config) is None,
    decreases config.len(),
{
    if i < config.len() - 1 {
        lemma_entries_fail(config.drop_last(), i);
    }
}

/// What a step asks of the outside world.
#[derive(Debug)]
pub enum ReleaseAction {
    /// Build the component.
    Build,
    /// Summarise the changes since the last release.
    Changes { include_diff: bool },
    /// Raise the component's version.
    Version { bump: String },
    /// Tag the repository. Without a name the tag is the component's current version.
    GitTag { name: Option<String>, message: Option<String> },
    /// Push the repository.
    GitPush { tags: bool },
    /// Run the action of a module.
    ModuleAction { module_id: String, action_id: String, payload: Option<String> },
}

pub enum ReleaseActionView {
    Build,
    Changes { include_diff: bool },
    Version { bump: Seq<char> },
    GitTag { name: Option<Seq<char>>, message: Option<Seq<char>> },
    GitPush { tags: bool },
    ModuleAction { module_id: Seq<char>, action_id: Seq<char>, payload: Option<Seq<char>> },
}

impl View for ReleaseAction {
    type V = ReleaseActionView;

    open spec fn view(&self) -> ReleaseActionView {
        match *self {
            ReleaseAction::Build => ReleaseActionView::Build,
            ReleaseAction::Changes { include_diff } => ReleaseActionView::Changes { include_diff },
            ReleaseAction::Version { bump } => ReleaseActionView::Version { bump: bump@ },
            ReleaseAction::GitTag { name, message } => ReleaseActionView::GitTag {
                name: opt_text(name),
                message: opt_text(message),
            },
            ReleaseAction::GitPush { tags } => ReleaseActionView::GitPush { tags },
            ReleaseAction::ModuleAction { module_id, action_id, payload } => {
                ReleaseActionView::ModuleAction {
                    module_id: module_id@,
                    action_id: action_id@,
                    payload: opt_text(payload),
                }
            },
        }
    }
}

/// `a` where it is given, else `b`.
pub open spec fn or_else<T>(a: Option<T>, b: Option<T>) -> Option<T> {
    if a is Some {
        a
    } else {
        b
    }
}

/// `a` where it is given, else `b`.
pub open spec fn or_value<T>(a: Option<T>, b: T) -> T {
    match a {
        Some(x) => x,
        None => b,
    }
}

/// What a change summary step asks for.
pub open spec fn changes_action(step: StepView) -> ReleaseActionView {
    ReleaseActionView::Changes {
        include_diff: or_value(config_bool(step.config, "includeDiff"@), false),
    }
}

/// What a version step asks for.
pub open spec fn version_action(step: StepView) -> ReleaseActionView {
    ReleaseActionView::Version { bump: or_value(config_text(step.config, "bump"@), "patch"@) }
}

/// What a tag step asks for.
pub open spec fn tag_action(step: StepView) -> ReleaseActionView {
    ReleaseActionView::GitTag {
        name: or_else(config_text(step.config, "name"@), config_text(step.config, "versionTag"@)),
        message: config_text(step.config, "message"@),
    }
}

/// What a push step asks for.
pub open spec fn push_action(step: StepView) -> ReleaseActionView {
    ReleaseActionView::GitPush { tags: or_value(config_bool(step.config, "tags"@), false) }
}

/// What a step of the engine's own types asks for.
pub open spec fn core_action(step: StepView) -> Result<ReleaseActionView, ErrorView> {
    if step.step_type == "build"@ {
        Ok(ReleaseActionView::Build)
    } else if step.step_type == "changes"@ {
        Ok(changes_action(step))
    } else if step.step_type == "version"@ {
        Ok(version_action(step))
    } else if step.step_type == "git.tag"@ {
        Ok(tag_action(step))
    } else if step.step_type == "git.push"@ {
        Ok(push_action(step))
    } else {
        Err(ErrorView::UnsupportedCoreStep { step_type: step.step_type })
    }
}

/// What a step of any other type asks for: the action of the one module that offers it.
pub open spec fn module_action(step: StepView, modules: Seq<ModuleView>) -> Result<
    ReleaseActionView,
    ErrorView,
> {
    let action_id = action_id_for(step.step_type);
    match resolved_module(modules, action_id) {
        Err(e) => Err(e),
        Ok(module) => match payload_of(step.config) {
            Err(e) => Err(e),
            Ok(payload) => Ok(
                ReleaseActionView::ModuleAction { module_id: module.id, action_id, payload },
            ),
        },
    }
}

/// What a step asks of the outside world.
pub open spec fn step_action(step: StepView, modules: Seq<ModuleView>) -> Result<
    ReleaseActionView,
    ErrorView,
> {
    if core_step(step.step_type) {
        core_action(step)
    } else {
        module_action(step, modules)
    }
}

/// What a decision of the executor is, with its strings as texts.
pub open spec fn action_view(r: Result<ReleaseAction, Error>) -> Result<
    ReleaseActionView,
    ErrorView,
> {
    match r {
        Ok(a) => Ok(a@),
        Err(e) => Err(e@),
    }
}

/// The report of a step with the given outcome.
pub open spec fn step_report(
    step: StepView,
    status: PipelineRunStatus,
    data: Option<Seq<char>>,
    error: Option<Seq<char>>,
    hints: Seq<Seq<char>>,
) -> StepResultView {
    StepResultView {
        id: step.id,
        step_type: step.step_type,
        status,
        missing: Seq::empty(),
        warnings: Seq::empty(),
        hints,
        data,
        error,
    }
}

/// How a build with the exit code ended.
pub open spec fn build_status(exit_code: i32) -> PipelineRunStatus {
    if exit_code == 0 {
        PipelineRunStatus::Success
    } else {
        PipelineRunStatus::Failed
    }
}

/// Decides what the steps of a component's release ask of the outside world, and writes the
/// reports of what came back.
pub struct ReleaseStepExecutor {
    pub component_id: String,
    pub modules: Vec<ModuleManifest>,
}

impl ReleaseStepExecutor {
    pub fn new(component_id: String, modules: Vec<ModuleManifest>) -> (r: Self)
        ensures
            r.component_id == component_id,
            r.modules == modules,
    {
        Self { component_id, modules }
    }

    /// The report of a step with the given outcome.
    pub fn step_result(
        &self,
        step: &PipelineStep,
        status: PipelineRunStatus,
        data: Option<String>,
        error: Option<String>,
        hints: Vec<String>,
    ) -> (r: PipelineStepResult)
        ensures
            r@ == step_report(step@, status, opt_text(data), opt_text(error), texts(hints@)),
    {
        let missing: Vec<String> = Vec::new();
        let warnings: Vec<String> = Vec::new();
        assert(texts(missing@) =~= Seq::<Seq<char>>::empty());
        assert(texts(warnings@) =~= Seq::<Seq<char>>::empty());
        PipelineStepResult {
            id: step.id.clone(),
            step_type: step.step_type.clone(),
            status,
            missing,
            warnings,
            hints,
            data,
            error,
        }
    }

    /// What a step of the engine's own types asks for.
    pub fn execute_core_step(&self, step: &PipelineStep) -> (r: Result<ReleaseAction, Error>)
        ensures
            action_view(r) == core_action(step@),
    {
        let step_type = step.step_type.as_str();
        if same_text(step_type, "build") {
            Ok(ReleaseAction::Build)
        } else if same_text(step_type, "changes") {
            Ok(self.run_changes(step))
        } else if same_text(step_type, "version") {
            Ok(self.run_version(step))
        } else if same_text(step_type, "git.tag") {
            Ok(self.run_git_tag(step))
        } else if same_text(step_type, "git.push") {
            Ok(self.run_git_push(step))
        } else {
            Err(Error::UnsupportedCoreStep { step_type: step.step_type.clone() })
        }
    }

    /// The report of a build that ended with the exit code: a success for 0, else a failure.
    pub fn run_build(&self, step: &PipelineStep, output: String, exit_code: i32) -> (r:
        PipelineStepResult)
        ensures
            r@ == step_report(step@, build_status(exit_code), Some(output@), None, Seq::empty()),
    {
        let status = if exit_code == 0 {
            PipelineRunStatus::Success
        } else {
            PipelineRunStatus::Failed
        };
        let hints: Vec<String> = Vec::new();
        assert(texts(hints@) =~= Seq::<Seq<char>>::empty());
        self.step_result(step, status, Some(output), None, hints)
    }

    /// The report of a step whose action came back with `output`.
    pub fn run_succeeded(&self, step: &PipelineStep, output: String) -> (r: PipelineStepResult)
        ensures
            r@ == step_report(
                step@,
                PipelineRunStatus::Success,
                Some(output@),
                None,
                Seq::empty(),
            ),
    {
        let hints: Vec<String> = Vec::new();
        assert(texts(hints@) =~= Seq::<Seq<char>>::empty());
        self.step_result(step, PipelineRunStatus::Success, Some(output), None, hints)
    }

    /// What a change summary step asks for: the diff is left out unless `includeDiff` is set.
    pub fn run_changes(&self, step: &PipelineStep) -> (r: ReleaseAction)
        ensures
            r@ == changes_action(step@),
    {
        let include_diff = match get_bool(&step.config, "includeDiff") {
            Some(b) => b,
            None => false,
        };
        ReleaseAction::Changes { include_diff }
    }

    /// What a version step asks for: the bump that `bump` names, else a patch.
    pub fn run_version(&self, step: &PipelineStep) -> (r: ReleaseAction)
        ensures
            r@ == version_action(step@),
    {
        let bump = match get_text(&step.config, "bump") {
            Some(b) => b,
            None => String::from_str("patch"),
        };
        ReleaseAction::Version { bump }
    }

    /// What a tag step asks for: the tag that `name` gives, else `versionTag`.
    pub fn run_git_tag(&self, step: &PipelineStep) -> (r: ReleaseAction)
        ensures
            r@ == tag_action(step@),
    {
        let name = match get_text(&step.config, "name") {
            Some(n) => Some(n),
            None => get_text(&step.config, "versionTag"),
        };
        let message = get_text(&step.config, "message");
        ReleaseAction::GitTag { name, message }
    }

    /// What a push step asks for: tags are pushed where `tags` is set.
    pub fn run_git_push(&self, step: &PipelineStep) -> (r: ReleaseAction)
        ensures
            r@ == push_action(step@),
    {
        let tags = match get_bool(&step.config, "tags") {
            Some(b) => b,
            None => false,
        };
        ReleaseAction::GitPush { tags }
    }

    /// What a step of any other type asks for: the action of the one module that offers it,
    /// with the step's configuration as its payload.
    pub fn run_module_action(&self, step: &PipelineStep) -> (r: Result<ReleaseAction, Error>)
        ensures
            action_view(r) == module_action(step@, module_views(self.modules@)),
    {
        let action_id = concat("release.", step.step_type.as_str());
        let module = match resolve_module_action(&self.modules, action_id.as_str()) {
            Ok(m) => m,
            Err(e) => {
                return Err(e);
            },
        };
        let payload = match payload(&step.config) {
            Ok(p) => p,
            Err(e) => {
                return Err(e);
            },
        };
        Ok(ReleaseAction::ModuleAction { module_id: module.id, action_id, payload })
    }

    /// What the step asks of the outside world.
    pub fn execute_step(&self, step: &PipelineStep) -> (r: Result<ReleaseAction, Error>)
        ensures
            action_view(r) == step_action(step@, module_views(self.modules@)),
    {
        if is_core_step(step.step_type.as_str()) {
            return self.execute_core_step(step);
        }
        self.run_module_action(step)
    }
}

/// A step of a release configuration.
#[derive(Debug)]
pub struct ReleaseStep {
    pub id: String,
    pub step_type: String,
    pub label: Option<String>,
    pub needs: Vec<String>,
    pub config: Vec<ConfigEntry>,
}

impl View for ReleaseStep {
    type V = StepView;

    open spec fn view(&self) -> StepView {
        StepView {
            id: self.id@,
            step_type: self.step_type@,
            label: opt_text(self.label),
            needs: texts(self.needs@),
            config: config_view(self.config@),
        }
    }
}

impl Clone for ReleaseStep {
    fn clone(&self) -> (r: Self)
        ensures
            r@ == self@,
    {
        ReleaseStep {
            id: self.id.clone(),
            step_type: self.step_type.clone(),
            label: copy_opt_text(&self.label),
            needs: copy_texts(&self.needs),
            config: copy_config(&self.config),
        }
    }
}

impl From<ReleaseStep> for PipelineStep {
    fn from(step: ReleaseStep) -> (r: Self) {
        PipelineStep {
            id: step.id,
            step_type: step.step_type,
            label: step.label,
            needs: step.needs,
            config: step.config,
        }
    }
}

impl vstd::std_specs::convert::FromSpecImpl<ReleaseStep> for PipelineStep {
    open spec fn obeys_from_spec() -> bool {
        true
    }

    open spec fn from_spec(step: ReleaseStep) -> Self {
        PipelineStep {
            id: step.id,
            step_type: step.step_type,
            label: step.label,
            needs: step.needs,
            config: step.config,
        }
    }
}

/// The steps of a release configuration, in order.
pub open spec fn release_step_views(steps: Seq<ReleaseStep>) -> Seq<StepView> {
    Seq::new(steps.len(), |i: int| steps[i]@)
}

/// The release of a component as it is configured.
#[derive(Debug)]
pub struct ReleaseConfig {
    /// Whether the release is switched on; it is where nothing is said.
    pub enabled: Option<bool>,
    pub steps: Vec<ReleaseStep>,
    pub settings: Vec<ConfigEntry>,
}

pub struct ReleaseConfigView {
    pub enabled: Option<bool>,
    pub steps: Seq<StepView>,
    pub settings: Seq<ConfigEntryView>,
}

impl View for ReleaseConfig {
    type V = ReleaseConfigView;

    open spec fn view(&self) -> ReleaseConfigView {
        ReleaseConfigView {
            enabled: self.enabled,
            steps: release_step_views(self.steps@),
            settings: config_view(self.settings@),
        }
    }
}

impl Clone for ReleaseConfig {
    fn clone(&self) -> (r: Self)
        ensures
            r@ == self@,
    {
        let mut steps: Vec<ReleaseStep> = Vec::new();
        let mut i: usize = 0;
        while i < self.steps.len()
            invariant
                i <= self.steps.len(),
                steps@.len() == i,
                forall|j: int| 0 <= j < i ==> steps@[j]@ == self.steps@[j]@,
            decreases self.steps.len() - i,
        {
            steps.push(self.steps[i].clone());
            i += 1;
        }
        assert(release_step_views(steps@) =~= release_step_views(self.steps@));
        ReleaseConfig { enabled: self.enabled, steps, settings: copy_config(&self.settings) }
    }
}

/// A component, as far as its release goes.
#[derive(Debug)]
pub struct Component {
    pub id: String,
    pub release: Option<ReleaseConfig>,
    /// The ids of the modules that the component is bound to.
    pub modules: Option<Vec<String>>,
}

/// The view of an optional release configuration.
pub open spec fn opt_release_view(o: Option<ReleaseConfig>) -> Option<ReleaseConfigView> {
    match o {
        Some(c) => Some(c@),
        None => None,
    }
}

/// What a step of a release plan needs before it can run.
#[derive(Clone, Copy, Debug, PartialEq, Eq, Structural)]
pub enum ReleasePlanStatus {
    Ready,
    Missing,
    Disabled,
}

/// The status of a release plan step for that of a pipeline plan step.
pub open spec fn release_status(status: PipelineStepStatus) -> ReleasePlanStatus {
    match status {
        PipelineStepStatus::Ready => ReleasePlanStatus::Ready,
        PipelineStepStatus::Missing => ReleasePlanStatus::Missing,
        PipelineStepStatus::Disabled => ReleasePlanStatus::Disabled,
    }
}

/// A step of a release plan.
#[derive(Debug)]
pub struct ReleasePlanStep {
    pub id: String,
    pub step_type: String,
    pub label: Option<String>,
    pub needs: Vec<String>,
    pub config: Vec<ConfigEntry>,
    pub status: ReleasePlanStatus,
    pub missing: Vec<String>,
}

pub struct ReleasePlanStepView {
    pub step: StepView,
    pub status: ReleasePlanStatus,
    pub missing: Seq<Seq<char>>,
}

impl View for ReleasePlanStep {
    type V = ReleasePlanStepView;

    open spec fn view(&self) -> ReleasePlanStepView {
        ReleasePlanStepView {
            step: StepView {
                id: self.id@,
                step_type: self.step_type@,
                label: opt_text(self.label),
                needs: texts(self.needs@),
                config: config_view(self.config@),
            },
            status: self.status,
            missing: texts(self.missing@),
        }
    }
}

/// The release plan step for a pipeline plan step.
pub open spec fn release_plan_step(step: PlanStepView) -> ReleasePlanStepView {
    ReleasePlanStepView {
        step: step.step,
        status: release_status(step.status),
        missing: step.missing,
    }
}

impl From<PipelinePlanStep> for ReleasePlanStep {
    fn from(step: PipelinePlanStep) -> (r: Self) {
        let status = match step.status {
            PipelineStepStatus::Ready => ReleasePlanStatus::Ready,
            PipelineStepStatus::Missing => ReleasePlanStatus::Missing,
            PipelineStepStatus::Disabled => ReleasePlanStatus::Disabled,
        };
        Self {
            id: step.id,
            step_type: step.step_type,
            label: step.label,
            needs: step.needs,
            config: step.config,
            status,
            missing: step.missing,
        }
    }
}

impl vstd::std_specs::convert::FromSpecImpl<PipelinePlanStep> for ReleasePlanStep {
    open spec fn obeys_from_spec() -> bool {
        true
    }

    open spec fn from_spec(step: PipelinePlanStep) -> Self {
        ReleasePlanStep {
            id: step.id,
            step_type: step.step_type,
            label: step.label,
            needs: step.needs,
            config: step.config,
            status: release_status(step.status),
            missing: step.missing,
        }
    }
}

/// The steps of a release plan, in order.
pub open spec fn release_plan_step_views(steps: Seq<ReleasePlanStep>) -> Seq<ReleasePlanStepView> {
    Seq::new(steps.len(), |i: int| steps[i]@)
}

/// The plan of a component's release.
#[derive(Debug)]
pub struct ReleasePlan {
    pub component_id: String,
    pub enabled: bool,
    pub steps: Vec<ReleasePlanStep>,
    pub warnings: Vec<String>,
    pub hints: Vec<String>,
}

pub struct ReleasePlanView {
    pub component_id: Seq<char>,
    pub enabled: bool,
    pub steps: Seq<ReleasePlanStepView>,
    pub warnings: Seq<Seq<char>>,
    pub hints: Seq<Seq<char>>,
}

impl View for ReleasePlan {
    type V = ReleasePlanView;

    open spec fn view(&self) -> ReleasePlanView {
        ReleasePlanView {
            component_id: self.component_id@,
            enabled: self.enabled,
            steps: release_plan_step_views(self.steps@),
            warnings: texts(self.warnings@),
            hints: texts(self.hints@),
        }
    }
}

/// The report of a run of a component's release.
#[derive(Debug)]
pub struct ReleaseRun {
    pub component_id: String,
    pub enabled: bool,
    pub result: PipelineRunResult,
}

/// The first installed module with the id.
pub open spec fn installed_module(installed: Seq<ModuleView>, id: Seq<char>) -> Option<ModuleView>
    decreases installed.len(),
{
    if installed.len() == 0 {
        None
    } else if installed[0].id == id {
        Some(installed[0])
    } else {
        installed_module(installed.drop_first(), id)
    }
}

/// The installed modules with the ids, or the first id that no installed module has, with
/// the installed ids that resemble it.
pub open spec fn loaded_modules(ids: Seq<Seq<char>>, installed: Seq<ModuleView>) -> Result<
    Seq<ModuleView>,
    ErrorView,
>
    decreases ids.len(),
{
    if ids.len() == 0 {
        Ok(Seq::empty())
    } else {
        match loaded_modules(ids.drop_last(), installed) {
            Err(e) => Err(e),
            Ok(head) => match installed_module(installed, ids.last()) {
                None => Err(
                    ErrorView::ModuleNotFound {
                        id: ids.last(),
                        suggestions: similar_ids(ids.last(), module_ids(installed)),
                    },
                ),
                Some(m) => Ok(head.push(m)),
            },
        }
    }
}

/// The modules of a component: those that it is bound to, in the order of their ids. Naming
/// a module on top of that is refused.
pub open spec fn resolved_modules(
    configured: Option<Seq<Seq<char>>>,
    module_id: Option<Seq<char>>,
    installed: Seq<ModuleView>,
) -> Result<Seq<ModuleView>, ErrorView> {
    if module_id is Some {
        Err(ErrorView::ModuleSelectionUnsupported)
    } else {
        match configured {
            None => Ok(Seq::empty()),
            Some(ids) => loaded_modules(sorted_of(ids), installed),
        }
    }
}

/// What `resolve_modules` returned, with its strings as texts.
pub open spec fn modules_result_view(r: Result<Vec<ModuleManifest>, Error>) -> Result<
    Seq<ModuleView>,
    ErrorView,
> {
    match r {
        Ok(m) => Ok(module_views(m@)),
        Err(e) => Err(e@),
    }
}

/// The first installed module with the id.
fn find_installed(installed: &Vec<ModuleManifest>, id: &str) -> (r: Option<usize>)
    ensures
        match r {
            Some(i) => i < installed@.len() && installed_module(module_views(installed@), id@)
                == Some(installed@[i as int]@),
            None => installed_module(module_views(installed@), id@) is None,
        },
{
    let ghost mv = module_views(installed@);
    let mut i: usize = 0;
    assert(mv.skip(0) =~= mv);
    while i < installed.len()
        invariant
            i <= installed.len(),
            mv == module_views(installed@),
            installed_module(mv, id@) == installed_module(mv.skip(i as int), id@),
        decreases installed.len() - i,
    {
        proof {
            assert(mv.skip(i as int).drop_first() =~= mv.skip(i + 1));
            assert(mv.skip(i as int)[0] == installed@[i as int]@);
        }
        if same_text(installed[i].id.as_str(), id) {
            return Some(i);
        }
        i += 1;
    }
    None
}

/// The ids of the modules.
fn ids_of(modules: &Vec<ModuleManifest>) -> (r: Vec<String>)
    ensures
        texts(r@) == module_ids(module_views(modules@)),
{
    let mut out: Vec<String> = Vec::new();
    let mut i: usize = 0;
    while i < modules.len()
        invariant
            i <= modules.len(),
            out@.len() == i,
            forall|j: int| 0 <= j < i ==> out@[j]@ == modules@[j].id@,
        decreases modules.len() - i,
    {
        out.push(modules[i].id.clone());
        i += 1;
    }
    assert(texts(out@) =~= module_ids(module_views(modules@)));
    out
}

/// Finds the modules that a component is bound to among the installed ones.
pub fn resolve_modules(
    component: &Component,
    module_id: Option<&str>,
    installed: &Vec<ModuleManifest>,
) -> (r: Result<Vec<ModuleManifest>, Error>)
    ensures
        modules_result_view(r) == resolved_modules(
            opt_texts(component.modules),
            opt_str(module_id),
            module_views(installed@),
        ),
{
    if module_id.is_some() {
        return Err(Error::ModuleSelectionUnsupported);
    }
    let mut modules: Vec<ModuleManifest> = Vec::new();
    assert(module_views(modules@) =~= Seq::<ModuleView>::empty());
    match &component.modules {
        None => {},
        Some(configured) => {
            let ids = sort_texts(configured);
            let ghost all = texts(ids@);
            let ghost mv = module_views(installed@);
            let mut i: usize = 0;
            assert(all.take(0) =~= Seq::<Seq<char>>::empty());
            while i < ids.len()
                invariant
                    i <= ids.len(),
                    all == texts(ids@),
                    all == sorted_of(texts(configured@)),
                    component.modules == Some(*configured),
                    module_id is None,
                    mv == module_views(installed@),
                    loaded_modules(all.take(i as int), mv) == Ok::<Seq<ModuleView>, ErrorView>(
                        module_views(modules@),
                    ),
                decreases ids.len() - i,
            {
                proof {
                    assert(all.take(i + 1).drop_last() =~= all.take(i as int));
                    assert(all.take(i + 1).last() == ids@[i as int]@);
                }
                match find_installed(installed, ids[i].as_str()) {
                    Some(at) => {
                        let ghost before = module_views(modules@);
                        modules.push(installed[at].clone());
                        assert(module_views(modules@) =~= before.push(installed@[at as int]@));
                    },
                    None => {
                        let available = ids_of(installed);
                        let suggestions = find_similar_ids(ids[i].as_str(), &available);
                        let failure = Error::ModuleNotFound { id: ids[i].clone(), suggestions };
                        proof {
                            assert(loaded_modules(all.take(i + 1), mv) == Err::<
                                Seq<ModuleView>,
                                ErrorView,
                            >(failure@));
                            lemma_load_fails(all, mv, i as int);
                            assert(all == sorted_of(texts(configured@)));
                        }
                        return Err(failure);
                    },
                }
                i += 1;
            }
            proof {
                assert(all.take(ids@.len() as int) =~= all);
            }
        },
    }
    Ok(modules)
}

/// Where loading stops at an id, loading a longer list stops there too.
pub proof fn lemma_load_fails(ids: Seq<Seq<char>>, installed: Seq<ModuleView>, i: int)
    requires
        0 <= i < ids.len(),
        loaded_modules(ids.take(i + 1), installed) is Err,
    ensures
        loaded_modules(ids, installed) == loaded_modules(ids.take(i + 1), installed),
    decreases ids.len(),
{
    if i + 1 < ids.len() {
        assert(ids.drop_last().take(i + 1) =~= ids.take(i + 1));
        lemma_load_fails(ids.drop_last(), installed, i);
    } else {
        assert(ids.take(i + 1) =~= ids);
    }
}

/// The release configuration of a component, where it has one.
pub fn resolve_component_release(component: &Component) -> (r: Option<ReleaseConfig>)
    ensures
        opt_release_view(r) == opt_release_view(component.release),
{
    match &component.release {
        Some(c) => Some(c.clone()),
        None => None,
    }
}

/// Some step of the plan is missing what it needs.
pub open spec fn any_missing(steps: Seq<ReleasePlanStepView>) -> bool {
    exists|i: int| 0 <= i < steps.len() && (#[trigger] steps[i]).status == ReleasePlanStatus::Missing
}

/// The hint for a plan without steps.
pub open spec fn empty_plan_hints(steps: Seq<ReleasePlanStepView>) -> Seq<Seq<char>> {
    if steps.len() == 0 {
        seq!["Release plan has no steps"@]
    } else {
        Seq::empty()
    }
}

/// The hint for a plan with a step that is missing what it needs.
pub open spec fn missing_hints(steps: Seq<ReleasePlanStepView>, modules: Seq<ModuleView>) -> Seq<
    Seq<char>,
> {
    if !any_missing(steps) {
        Seq::empty()
    } else if modules.len() == 0 {
        seq!["Configure component modules to resolve release actions"@]
    } else {
        seq!["Release actions are resolved from modules: "@ + joined(module_ids(modules), ", "@)]
    }
}

/// What a person is told with a plan: that it is empty, where missing actions come from, and,
/// with either, how to change the release configuration.
pub open spec fn plan_hints(
    component_id: Seq<char>,
    steps: Seq<ReleasePlanStepView>,
    modules: Seq<ModuleView>,
) -> Seq<Seq<char>> {
    let first = empty_plan_hints(steps) + missing_hints(steps, modules);
    if first.len() == 0 {
        first
    } else {
        first.push(
            "Update release config with: homeboy component set "@ + component_id + " --json"@,
        )
    }
}

/// Whether some step of the plan is missing what it needs.
fn has_missing(steps: &Vec<ReleasePlanStep>) -> (r: bool)
    ensures
        r == any_missing(release_plan_step_views(steps@)),
{
    let mut i: usize = 0;
    while i < steps.len()
        invariant
            i <= steps.len(),
            forall|j: int|
                0 <= j < i ==> (#[trigger] release_plan_step_views(steps@)[j]).status
                    != ReleasePlanStatus::Missing,
        decreases steps.len() - i,
    {
        if steps[i].status == ReleasePlanStatus::Missing {
            assert(release_plan_step_views(steps@)[i as int].status == ReleasePlanStatus::Missing);
            return true;
        }
        i += 1;
    }
    false
}

/// Writes the hints that go with a plan.
pub fn build_plan_hints(
    component_id: &str,
    steps: &Vec<ReleasePlanStep>,
    modules: &Vec<ModuleManifest>,
) -> (r: Vec<String>)
    ensures
        texts(r@) == plan_hints(
            component_id@,
            release_plan_step_views(steps@),
            module_views(modules@),
        ),
{
    let ghost sv = release_plan_step_views(steps@);
    let ghost mv = module_views(modules@);
    let mut hints: Vec<String> = Vec::new();
    assert(texts(hints@) =~= Seq::<Seq<char>>::empty());
    if steps.len() == 0 {
        hints.push(String::from_str("Release plan has no steps"));
        assert(texts(hints@) =~= empty_plan_hints(sv));
    }
    assert(texts(hints@) =~= empty_plan_hints(sv));
    if has_missing(steps) {
        let ghost before = texts(hints@);
        if modules.len() == 0 {
            hints.push(String::from_str("Configure component modules to resolve release actions"));
        } else {
            let names = ids_of(modules);
            let listed = join(&names, ", ");
            hints.push(concat("Release actions are resolved from modules: ", listed.as_str()));
        }
        assert(texts(hints@) =~= before + missing_hints(sv, mv));
    } else {
        assert(texts(hints@) + missing_hints(sv, mv) =~= texts(hints@));
    }
    assert(texts(hints@) =~= empty_plan_hints(sv) + missing_hints(sv, mv));
    if hints.len() > 0 {
        let ghost before = texts(hints@);
        hints.push(
            concat3("Update release config with: homeboy component set ", component_id, " --json"),
        );
        assert(texts(hints@) =~= before.push(
            "Update release config with: homeboy component set "@ + component_id@ + " --json"@,
        ));
    }
    hints
}

/// What a step of a release needs before it can run: nothing where the release is switched
/// off; else it is ready where the engine knows its type or a module offers its action, and
/// missing that action where neither holds.
pub open spec fn classified(step: StepView, modules: Seq<ModuleView>, enabled: bool) -> PlanStepView {
    plan_step_with(
        step,
        enabled,
        supported_by(modules, step.step_type),
        missing_action(step.step_type),
    )
}

/// The steps in order, each with what it needs.
pub open spec fn classified_steps(
    ordered: Seq<StepView>,
    modules: Seq<ModuleView>,
    enabled: bool,
) -> Seq<PlanStepView> {
    Seq::new(ordered.len(), |i: int| classified(ordered[i], modules, enabled))
}

/// The steps of a release plan for those of a pipeline plan.
pub open spec fn release_plan_steps(steps: Seq<PlanStepView>) -> Seq<ReleasePlanStepView> {
    Seq::new(steps.len(), |i: int| release_plan_step(steps[i]))
}

/// A component with its strings as texts.
pub struct ComponentView {
    pub id: Seq<char>,
    pub release: Option<ReleaseConfigView>,
    pub modules: Option<Seq<Seq<char>>>,
}

impl View for Component {
    type V = ComponentView;

    open spec fn view(&self) -> ComponentView {
        ComponentView {
            id: self.id@,
            release: opt_release_view(self.release),
            modules: opt_texts(self.modules),
        }
    }
}

/// The engine carries out steps of the type itself, and has a handler for them.
pub open spec fn handled(step_type: Seq<char>) -> bool {
    ||| step_type == "build"@
    ||| step_type == "changes"@
    ||| step_type == "version"@
    ||| step_type == "git.tag"@
    ||| step_type == "git.push"@
}

/// What makes a release with the step impossible whatever is done: its type is kept for the
/// engine but has no handler, or more than one module offers its action.
pub open spec fn step_problem(step: StepView, modules: Seq<ModuleView>) -> Option<ErrorView> {
    let action_id = action_id_for(step.step_type);
    if core_step(step.step_type) {
        if handled(step.step_type) {
            None
        } else {
            Some(ErrorView::UnsupportedCoreStep { step_type: step.step_type })
        }
    } else if offering(modules, action_id).len() > 1 {
        Some(ErrorView::AmbiguousModule { action_id, modules: module_ids(offering(modules, action_id)) })
    } else {
        None
    }
}

/// The problem of the first step that has one.
pub open spec fn first_problem(steps: Seq<StepView>, modules: Seq<ModuleView>) -> Option<ErrorView>
    decreases steps.len(),
{
    if steps.len() == 0 {
        None
    } else if step_problem(steps[0], modules) is Some {
        step_problem(steps[0], modules)
    } else {
        first_problem(steps.drop_first(), modules)
    }
}

/// Looks for a step that makes the release impossible, in the order of the plan.
fn check_steps(steps: &Vec<PipelinePlanStep>, modules: &Vec<ModuleManifest>) -> (r: Result<(), Error>)
    ensures
        match first_problem(
            Seq::new(steps@.len(), |i: int| steps@[i]@.step),
            module_views(modules@),
        ) {
            Some(e) => r is Err && r->Err_0@ == e,
            None => r is Ok,
        },
{
    let ghost all = Seq::new(steps@.len(), |i: int| steps@[i]@.step);
    let ghost mv = module_views(modules@);
    let mut i: usize = 0;
    assert(all.skip(0) =~= all);
    while i < steps.len()
        invariant
            i <= steps.len(),
            all == Seq::new(steps@.len(), |i: int| steps@[i]@.step),
            mv == module_views(modules@),
            first_problem(all, mv) == first_problem(all.skip(i as int), mv),
        decreases steps.len() - i,
    {
        proof {
            assert(all.skip(i as int).drop_first() =~= all.skip(i + 1));
            assert(all.skip(i as int)[0] == steps@[i as int]@.step);
        }
        let step_type = steps[i].step_type.as_str();
        if is_core_step(step_type) {
            let known = same_text(step_type, "build") || same_text(step_type, "changes")
                || same_text(step_type, "version") || same_text(step_type, "git.tag") || same_text(
                step_type,
                "git.push",
            );
            if !known {
                return Err(Error::UnsupportedCoreStep { step_type: steps[i].step_type.clone() });
            }
        } else {
            let action_id = concat("release.", step_type);
            match resolve_module_action(modules, action_id.as_str()) {
                Err(Error::AmbiguousModule { action_id, modules }) => {
                    return Err(Error::AmbiguousModule { action_id, modules });
                },
                _ => {},
            }
        }
        i += 1;
    }
    Ok(())
}

/// The modules and the plan of the pipeline of a component's release, or why there is none:
/// a module is named or not installed, the component has no release configuration, its
/// steps cannot be ordered, or one of them makes the release impossible.
pub open spec fn release_pipeline(
    component: ComponentView,
    module_id: Option<Seq<char>>,
    installed: Seq<ModuleView>,
) -> Result<(Seq<ModuleView>, bool, PlanView), ErrorView> {
    match resolved_modules(component.modules, module_id, installed) {
        Err(e) => Err(e),
        Ok(modules) => match component.release {
            None => Err(ErrorView::MissingReleaseConfig { component_id: component.id }),
            Some(release) => {
                let enabled = or_value(release.enabled, true);
                match planned_order(release.steps, "release.steps"@) {
                    Err(e) => Err(e),
                    Ok((ordered, warnings)) => match first_problem(ordered, modules) {
                        Some(e) => Err(e),
                        None => Ok(
                            (
                                modules,
                                enabled,
                                PlanView {
                                    steps: classified_steps(ordered, modules, enabled),
                                    warnings,
                                },
                            ),
                        ),
                    },
                }
            },
        },
    }
}

/// The plan of a component's release.
pub open spec fn release_planned(
    component: ComponentView,
    module_id: Option<Seq<char>>,
    installed: Seq<ModuleView>,
) -> Result<ReleasePlanView, ErrorView> {
    match release_pipeline(component, module_id, installed) {
        Err(e) => Err(e),
        Ok((modules, enabled, plan)) => Ok(
            ReleasePlanView {
                component_id: component.id,
                enabled,
                steps: release_plan_steps(plan.steps),
                warnings: plan.warnings,
                hints: plan_hints(component.id, release_plan_steps(plan.steps), modules),
            },
        ),
    }
}

/// What `plan` returned, with its strings as texts.
pub open spec fn release_plan_view(r: Result<ReleasePlan, Error>) -> Result<
    ReleasePlanView,
    ErrorView,
> {
    match r {
        Ok(p) => Ok(p@),
        Err(e) => Err(e@),
    }
}

/// The steps of a release configuration as steps of a pipeline.
fn pipeline_steps(steps: Vec<ReleaseStep>) -> (r: Vec<PipelineStep>)
    ensures
        step_views(r@) == release_step_views(steps@),
{
    let ghost sv = release_step_views(steps@);
    let mut out: Vec<PipelineStep> = Vec::new();
    for step in it: steps
        invariant
            it.seq() == steps@,
            sv == release_step_views(steps@),
            out@.len() == it.index(),
            forall|j: int| 0 <= j < it.index() ==> out@[j]@ == sv[j],
    {
        out.push(PipelineStep::from(step));
    }
    assert(step_views(out@) =~= sv);
    out
}

/// The plan step that the engine makes with the resolver of a release is the one that
/// `classified` describes.
pub proof fn lemma_resolver_classifies(
    resolver: &ReleaseCapabilityResolver,
    step: StepView,
    enabled: bool,
    planned: PlanStepView,
)
    requires
        is_plan_step_of(step, resolver, enabled, planned),
    ensures
        planned == classified(step, module_views(resolver.modules@), enabled),
{
}

/// What the first part of `plan` and `run` returned, with its strings as texts.
pub open spec fn pipeline_view(
    r: Result<(Vec<ModuleManifest>, bool, Vec<PipelinePlanStep>, Vec<String>), Error>,
) -> Result<(Seq<ModuleView>, bool, PlanView), ErrorView> {
    match r {
        Ok((modules, enabled, steps, warnings)) => Ok(
            (
                module_views(modules@),
                enabled,
                PlanView { steps: plan_step_views(steps@), warnings: texts(warnings@) },
            ),
        ),
        Err(e) => Err(e@),
    }
}

/// Finds the modules of a component and plans the pipeline of its release.
fn plan_pipeline(component: &Component, module_id: Option<&str>, installed: &Vec<ModuleManifest>) -> (r:
    Result<(Vec<ModuleManifest>, bool, Vec<PipelinePlanStep>, Vec<String>), Error>)
    ensures
        pipeline_view(r) == release_pipeline(
            component@,
            opt_str(module_id),
            module_views(installed@),
        ),
{
    let modules = match resolve_modules(component, module_id, installed) {
        Ok(m) => m,
        Err(e) => {
            return Err(e);
        },
    };
    let resolver = ReleaseCapabilityResolver::new(copy_modules(&modules));
    let release = match resolve_component_release(component) {
        Some(r) => r,
        None => {
            return Err(Error::MissingReleaseConfig { component_id: component.id.clone() });
        },
    };
    let enabled = match release.enabled {
        Some(e) => e,
        None => true,
    };
    let steps = pipeline_steps(release.steps);
    let planned = match crate::pipeline::plan(&steps, &resolver, enabled, "release.steps") {
        Ok(p) => p,
        Err(e) => {
            return Err(e);
        },
    };
    proof {
        let ordered = planned_order(step_views(steps@), "release.steps"@)->Ok_0.0;
        let found = plan_step_views(planned.steps@);
        assert forall|i: int| 0 <= i < ordered.len() implies found[i] == classified(
            ordered[i],
            module_views(modules@),
            enabled,
        ) by {
            lemma_resolver_classifies(&resolver, ordered[i], enabled, found[i]);
        }
        assert(found =~= classified_steps(ordered, module_views(modules@), enabled));
        let taken = Seq::new(planned.steps@.len(), |i: int| planned.steps@[i]@.step);
        assert forall|i: int| 0 <= i < ordered.len() implies taken[i] == ordered[i] by {
            assert(found[i] == classified(ordered[i], module_views(modules@), enabled));
            assert(found[i] == planned.steps@[i]@);
        }
        assert(taken =~= ordered);
    }
    match check_steps(&planned.steps, &modules) {
        Err(e) => {
            return Err(e);
        },
        Ok(_) => {},
    }
    Ok((modules, enabled, planned.steps, planned.warnings))
}

/// Plans the release of a component: its steps in the order in which they run, each with
/// what it needs, and hints where the plan is empty or a step is missing its action.
pub fn plan(component: &Component, module_id: Option<&str>, installed: &Vec<ModuleManifest>) -> (r:
    Result<ReleasePlan, Error>)
    ensures
        release_plan_view(r) == release_planned(
            component@,
            opt_str(module_id),
            module_views(installed@),
        ),
{
    let (modules, enabled, pipeline_plan, warnings) = match plan_pipeline(
        component,
        module_id,
        installed,
    ) {
        Ok(found) => found,
        Err(e) => {
            return Err(e);
        },
    };
    let ghost pv = plan_step_views(pipeline_plan@);
    let mut planned_steps: Vec<ReleasePlanStep> = Vec::new();
    for step in it: pipeline_plan
        invariant
            it.seq() == pipeline_plan@,
            pv == plan_step_views(pipeline_plan@),
            planned_steps@.len() == it.index(),
            forall|j: int| 0 <= j < it.index() ==> planned_steps@[j]@ == release_plan_step(pv[j]),
    {
        planned_steps.push(ReleasePlanStep::from(step));
    }
    assert(release_plan_step_views(planned_steps@) =~= release_plan_steps(pv));
    let hints = build_plan_hints(component.id.as_str(), &planned_steps, &modules);
    Ok(
        ReleasePlan {
            component_id: component.id.clone(),
            enabled,
            steps: planned_steps,
            warnings,
            hints,
        },
    )
}

/// Runs the release of a component: plans it, and hands each step that may run to the
/// executor.
pub fn run<E: PipelineStepExecutor>(
    component: &Component,
    module_id: Option<&str>,
    installed: &Vec<ModuleManifest>,
    executor: &E,
) -> (r: Result<ReleaseRun, Error>)
    ensures
        match release_pipeline(component@, opt_str(module_id), module_views(installed@)) {
            Err(e) => r is Err && r->Err_0@ == e,
            Ok((modules, enabled, plan)) => {
                &&& r is Ok
                &&& r->Ok_0.component_id@ == component.id@
                &&& r->Ok_0.enabled == enabled
                &&& is_run_of(executor, plan.steps, run_view(r->Ok_0.result).0)
                &&& run_view(r->Ok_0.result).1 == overall_of(run_view(r->Ok_0.result).0)
            },
        },
{
    let (modules, enabled, pipeline_plan, warnings) = match plan_pipeline(
        component,
        module_id,
        installed,
    ) {
        Ok(found) => found,
        Err(e) => {
            return Err(e);
        },
    };
    let result = run_plan(&pipeline_plan, executor);
    Ok(ReleaseRun { component_id: component.id.clone(), enabled, result })
}

/// Planning the release of the same component twice, with the same modules installed, gives
/// the same plan.
pub proof fn lemma_plan_is_repeatable(
    component: ComponentView,
    module_id: Option<Seq<char>>,
    installed: Seq<ModuleView>,
    first: Result<ReleasePlan, Error>,
    second: Result<ReleasePlan, Error>,
)
    requires
        release_plan_view(first) == release_planned(component, module_id, installed),
        release_plan_view(second) == release_planned(component, module_id, installed),
    ensures
        release_plan_view(first) == release_plan_view(second),
{
}

} // verus!
